//! The fleet description that the dispatcher works from: the servers in
//! order, and for each server an optional SSH option string and user.
use vstd::prelude::*;

verus! {

/// The servers to reach, and per-server settings as `(server, value)` pairs.
/// A server without a pair gets the empty value; one named in several pairs
/// of a setting gets the value of the first.
#[derive(Clone, Debug)]
pub struct Config {
    pub servers: Vec<String>,
    pub ssh_options: Vec<(String, String)>,
    pub users: Vec<(String, String)>,
}

/// The value that `entries` gives for `key`: the value of the first pair
/// whose name is `key`, or the empty text where there is none.
pub open spec fn setting_for(entries: Seq<(String, String)>, key: Seq<char>) -> Seq<char>
    decreases entries.len(),
{
    if entries.len() == 0 {
        Seq::empty()
    } else if entries[0].0@ == key {
        entries[0].1@
    } else {
        setting_for(entries.drop_first(), key)
    }
}

/// Looks `key` up among `entries`; a missing entry gives the empty string.
pub fn lookup_setting(entries: &Vec<(String, String)>, key: &String) -> (r: String)
    ensures
        r@ == setting_for(entries@, key@),
{
    let mut i: usize = 0;
    assert(entries@.skip(0) =~= entries@);
    while i < entries.len()
        invariant
            i <= entries@.len(),
            setting_for(entries@, key@) == setting_for(entries@.skip(i as int), key@),
        decreases entries@.len() - i,
    {
        if entries[i].0 == *key {
            return entries[i].1.clone();
        }
        assert(entries@.skip(i as int).drop_first() =~= entries@.skip(i + 1));
        i = i + 1;
    }
    String::new()
}

impl Config {
    /// The SSH option string of `server`, empty where none is configured.
    pub fn ssh_options_for(&self, server: &String) -> (r: String)
        ensures
            r@ == setting_for(self.ssh_options@, server@),
    {
        lookup_setting(&self.ssh_options, server)
    }

    /// The user for `server`, empty where none is configured.
    pub fn user_for(&self, server: &String) -> (r: String)
        ensures
            r@ == setting_for(self.users@, server@),
    {
        lookup_setting(&self.users, server)
    }
}

/// The configuration written for a first run: one example server reached on
/// port 22 as user `example`.
pub fn example_config() -> (r: Config)
    ensures
        r.servers@.len() == 1,
        r.servers@[0]@ == "example.server.com"@,
        r.ssh_options@.len() == 1,
        r.ssh_options@[0].0@ == "example.server.com"@,
        r.ssh_options@[0].1@ == "-p 22"@,
        r.users@.len() == 1,
        r.users@[0].0@ == "example.server.com"@,
        r.users@[0].1@ == "example"@,
{
    let host = "example.server.com";
    let mut servers: Vec<String> = Vec::new();
    servers.push(String::from_str(host));
    let mut ssh_options: Vec<(String, String)> = Vec::new();
    ssh_options.push((String::from_str(host), String::from_str("-p 22")));
    let mut users: Vec<(String, String)> = Vec::new();
    users.push((String::from_str(host), String::from_str("example")));
    Config { servers, ssh_options, users }
}

/// The name of the configuration file.
pub open spec fn config_file_name() -> Seq<char> {
    "russh.toml"@
}

/// Whether a file named `name` is taken for the configuration file when the
/// user's configuration directory is searched: its name starts with
/// `russh.toml`.
pub fn is_config_file_name(name: &str) -> (r: bool)
    ensures
        r == config_file_name().is_prefix_of(name@),
{
    let expected = "russh.toml";
    proof {
        reveal_strlit("russh.toml");
    }
    let n = expected.unicode_len();
    if name.unicode_len() < n {
        return false;
    }
    let mut i: usize = 0;
    while i < n
        invariant
            n == expected@.len(),
            expected@ == config_file_name(),
            n <= name@.len(),
            i <= n,
            forall|k: int| 0 <= k < i ==> #[trigger] name@[k] == expected@[k],
        decreases n - i,
    {
        if name.get_char(i) != expected.get_char(i) {
            return false;
        }
        i = i + 1;
    }
    assert(name@.subrange(0, n as int) =~= expected@);
    true
}

} // verus!
