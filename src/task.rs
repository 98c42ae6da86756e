//! Tasks: one command to run on one server, with the settings resolved for
//! that server, and the argument vector handed to the SSH client.
use vstd::prelude::*;
use vstd::arithmetic::div_mod::lemma_fundamental_div_mod_converse;
use crate::config::{setting_for, Config};

verus! {

/// One remote execution: `command` on `server` as `user`, with the raw
/// `ssh_options` string. An empty `user` means no user qualification.
#[derive(Clone, Debug)]
pub struct Task {
    pub server: String,
    pub user: String,
    pub ssh_options: String,
    pub command: String,
}

/// `t` runs `command` on `server`, with the user and options that `config`
/// gives that server.
pub open spec fn is_task_for(t: Task, config: Config, server: Seq<char>, command: Seq<char>) -> bool {
    &&& t.server@ == server
    &&& t.command@ == command
    &&& t.user@ == setting_for(config.users@, server)
    &&& t.ssh_options@ == setting_for(config.ssh_options@, server)
}

/// `tasks` is the product of the configured servers and `commands`, servers
/// outer and commands inner: task `k` pairs server `k / m` with command
/// `k % m`, where `m` is the number of commands.
pub open spec fn is_expansion(tasks: Seq<Task>, config: Config, commands: Seq<String>) -> bool {
    let n = config.servers@.len();
    let m = commands.len();
    &&& tasks.len() == n * m
    &&& forall|k: int|
        0 <= k < tasks.len() ==> is_task_for(
            #[trigger] tasks[k],
            config,
            config.servers@[k / (m as int)]@,
            commands[k % (m as int)]@,
        )
}

/// Builds one task for every pair of a configured server and a command.
pub fn expand_tasks(config: &Config, commands: &Vec<String>) -> (r: Vec<Task>)
    ensures
        is_expansion(r@, *config, commands@),
{
    let n = config.servers.len();
    let m = commands.len();
    let mut tasks: Vec<Task> = Vec::new();
    let mut i: usize = 0;
    while i < n
        invariant
            n == config.servers@.len(),
            m == commands@.len(),
            i <= n,
            tasks@.len() == i * m,
            forall|k: int|
                0 <= k < tasks@.len() ==> is_task_for(
                    #[trigger] tasks@[k],
                    *config,
                    config.servers@[k / m as int]@,
                    commands@[k % m as int]@,
                ),
        decreases n - i,
    {
        let server = &config.servers[i];
        let user = config.user_for(server);
        let ssh_options = config.ssh_options_for(server);
        let mut j: usize = 0;
        while j < m
            invariant
                n == config.servers@.len(),
                m == commands@.len(),
                i < n,
                j <= m,
                *server == config.servers@[i as int],
                user@ == setting_for(config.users@, server@),
                ssh_options@ == setting_for(config.ssh_options@, server@),
                tasks@.len() == i * m + j,
                forall|k: int|
                    0 <= k < tasks@.len() ==> is_task_for(
                        #[trigger] tasks@[k],
                        *config,
                        config.servers@[k / m as int]@,
                        commands@[k % m as int]@,
                    ),
            decreases m - j,
        {
            proof {
                lemma_fundamental_div_mod_converse(i * m + j, m as int, i as int, j as int);
            }
            tasks.push(
                Task {
                    server: server.clone(),
                    user: user.clone(),
                    ssh_options: ssh_options.clone(),
                    command: commands[j].clone(),
                },
            );
            j = j + 1;
        }
        assert(i * m + m == (i + 1) * m) by (nonlinear_arith);
        i = i + 1;
    }
    tasks
}

/// Where the SSH client connects: `user@server`, or `server` alone where no
/// user is set.
pub open spec fn destination(user: Seq<char>, server: Seq<char>) -> Seq<char> {
    if user.len() == 0 {
        server
    } else {
        user + "@"@ + server
    }
}

impl Task {
    /// The arguments handed to the SSH client: the option string as one
    /// argument (passed on even when empty), the destination, and the command.
    pub fn ssh_arguments(&self) -> (r: Vec<String>)
        ensures
            r@.len() == 3,
            r@[0]@ == self.ssh_options@,
            r@[1]@ == destination(self.user@, self.server@),
            r@[2]@ == self.command@,
    {
        let mut target = String::new();
        if self.user.unicode_len() > 0 {
            target.append(self.user.as_str());
            target.append("@");
        }
        target.append(self.server.as_str());
        proof {
            reveal_strlit("@");
        }
        assert(target@ =~= destination(self.user@, self.server@));
        let mut r: Vec<String> = Vec::new();
        r.push(self.ssh_options.clone());
        r.push(target);
        r.push(self.command.clone());
        r
    }
}

} // verus!
