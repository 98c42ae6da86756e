//! The aggregator: one slot per task, filled as results come in, and turned
//! once into the final report.
use vstd::prelude::*;
use crate::order::{
    is_sorted_by_server, lemma_sort_is_permutation, on_server, sort_by_server, sorted_by_server,
};
use crate::outcome::{lost_view, views, worker_lost, ResultView, ServerResult};
use crate::config::Config;
use crate::task::{is_expansion, Task};

verus! {

/// The result of each task in task order: the recorded one, or the failure
/// of a lost worker where none was recorded.
pub open spec fn collected_views(servers: Seq<String>, slots: Seq<Option<ServerResult>>) -> Seq<
    ResultView,
> {
    Seq::new(
        slots.len(),
        |k: int|
            match slots[k] {
                Some(r) => r@,
                None => lost_view(servers[k]@),
            },
    )
}

/// The final report for tasks on `servers` whose recorded results are
/// `slots`: every task's result, sorted by server.
pub open spec fn final_report(servers: Seq<String>, slots: Seq<Option<ServerResult>>) -> Seq<
    ResultView,
> {
    sort_by_server(collected_views(servers, slots))
}

/// Every result in `s` succeeded.
pub open spec fn all_succeeded(s: Seq<ResultView>) -> bool {
    forall|k: int| 0 <= k < s.len() ==> #[trigger] s[k].success
}

/// At least one result in `s` succeeded.
pub open spec fn any_succeeded(s: Seq<ResultView>) -> bool {
    exists|k: int| 0 <= k < s.len() && #[trigger] s[k].success
}

/// The finished report: the results sorted by server, and whether all or any
/// of them succeeded.
pub struct ReportSet {
    pub results: Vec<ServerResult>,
    pub all_succeeded: bool,
    pub any_succeeded: bool,
}

/// Collects the results of a fixed list of tasks. Each task has one slot,
/// which holds the last result recorded for it.
pub struct Aggregator {
    servers: Vec<String>,
    slots: Vec<Option<ServerResult>>,
}

impl Aggregator {
    /// The server of each task.
    pub closed spec fn task_servers(&self) -> Seq<String> {
        self.servers@
    }

    /// The result recorded for each task so far.
    pub closed spec fn slots(&self) -> Seq<Option<ServerResult>> {
        self.slots@
    }

    /// There is one slot per task.
    pub closed spec fn wf(&self) -> bool {
        self.servers@.len() == self.slots@.len()
    }

    /// An aggregator for `tasks`, with nothing recorded yet.
    pub fn new(tasks: &Vec<Task>) -> (r: Aggregator)
        ensures
            r.wf(),
            r.task_servers().len() == tasks@.len(),
            forall|k: int| 0 <= k < tasks@.len() ==> #[trigger] r.task_servers()[k]@ == tasks@[k].server@,
            r.slots().len() == tasks@.len(),
            forall|k: int| 0 <= k < tasks@.len() ==> #[trigger] r.slots()[k] is None,
    {
        let mut servers: Vec<String> = Vec::new();
        let mut slots: Vec<Option<ServerResult>> = Vec::new();
        let mut i: usize = 0;
        while i < tasks.len()
            invariant
                i <= tasks@.len(),
                servers@.len() == i,
                slots@.len() == i,
                forall|k: int| 0 <= k < i ==> #[trigger] servers@[k]@ == tasks@[k].server@,
                forall|k: int| 0 <= k < i ==> #[trigger] slots@[k] is None,
            decreases tasks@.len() - i,
        {
            servers.push(tasks[i].server.clone());
            slots.push(None);
            i = i + 1;
        }
        Aggregator { servers, slots }
    }

    /// The number of tasks.
    pub fn task_count(&self) -> (r: usize)
        requires
            self.wf(),
        ensures
            r == self.task_servers().len(),
    {
        self.servers.len()
    }

    /// Records `result` as the result of task `task`, replacing any earlier
    /// one. A task number out of range is ignored.
    pub fn record(&mut self, task: usize, result: ServerResult)
        requires
            old(self).wf(),
        ensures
            final(self).wf(),
            final(self).task_servers() == old(self).task_servers(),
            final(self).slots() == (if task < old(self).slots().len() {
                old(self).slots().update(task as int, Some(result))
            } else {
                old(self).slots()
            }),
    {
        if task < self.slots.len() {
            self.slots.set(task, Some(result));
        }
    }

    /// The final report: one result per task, sorted by server with ties in
    /// task order, and whether all or any of them succeeded.
    pub fn finalize(self) -> (r: ReportSet)
        requires
            self.wf(),
        ensures
            views(r.results@) == final_report(self.task_servers(), self.slots()),
            r.results@.len() == self.task_servers().len(),
            is_sorted_by_server(views(r.results@)),
            forall|key: Seq<char>| #[trigger] views(r.results@).filter(on_server(key))
                == collected_views(self.task_servers(), self.slots()).filter(on_server(key)),
            r.all_succeeded == all_succeeded(views(r.results@)),
            r.any_succeeded == any_succeeded(views(r.results@)),
    {
        let ghost expected = collected_views(self.servers@, self.slots@);
        let Aggregator { servers, slots } = self;
        let n = slots.len();
        let mut rest = slots;
        let mut collected: Vec<ServerResult> = Vec::new();
        let mut i: usize = 0;
        while i < n
            invariant
                n == servers@.len(),
                i <= n,
                expected.len() == n,
                rest@.len() == n - i,
                forall|k: int| 0 <= k < n - i ==> #[trigger] rest@[k] == self.slots@[k + i],
                expected == collected_views(servers@, self.slots@),
                views(collected@) == expected.take(i as int),
            decreases n - i,
        {
            let ghost rest_before = rest@;
            let slot = rest.remove(0);
            assert(rest_before[0] == self.slots@[i as int]);
            let item = match slot {
                Some(result) => result,
                None => worker_lost(servers[i].as_str()),
            };
            assert(item@ == expected[i as int]);
            let ghost before = collected@;
            collected.push(item);
            assert(views(collected@) =~= views(before).push(expected[i as int]));
            assert(expected.take(i + 1) =~= expected.take(i as int).push(expected[i as int]));
            i = i + 1;
        }
        assert(expected.take(n as int) =~= expected);
        let results = sorted_by_server(collected);
        proof {
            lemma_sort_is_permutation(expected);
        }
        let mut all = true;
        let mut any = false;
        let mut j: usize = 0;
        while j < results.len()
            invariant
                j <= results@.len(),
                all == (forall|k: int| 0 <= k < j ==> #[trigger] results@[k].success),
                any == (exists|k: int| 0 <= k < j && #[trigger] results@[k].success),
            decreases results@.len() - j,
        {
            if results[j].success {
                any = true;
            } else {
                all = false;
            }
            j = j + 1;
        }
        proof {
            let v = views(results@);
            assert forall|k: int| 0 <= k < v.len() implies #[trigger] v[k].success
                == results@[k].success by {}
            if any {
                let w = choose|k: int| 0 <= k < results@.len() && #[trigger] results@[k].success;
                assert(v[w].success);
            }
            if !all {
                let w = choose|k: int| 0 <= k < results@.len() && !#[trigger] results@[k].success;
                assert(!v[w].success);
            }
        }
        ReportSet { results, all_succeeded: all, any_succeeded: any }
    }
}

/// A run yields exactly one result per pair of a configured server and a
/// command: for tasks expanded from `config` and `commands`, and any results
/// recorded against them, the final report holds `servers * commands`
/// results, each task's result (recorded, or the failure of a lost worker)
/// exactly once.
pub proof fn lemma_one_result_per_task(
    config: Config,
    commands: Seq<String>,
    tasks: Seq<Task>,
    aggregator: Aggregator,
)
    requires
        is_expansion(tasks, config, commands),
        aggregator.wf(),
        aggregator.task_servers().len() == tasks.len(),
    ensures
        final_report(aggregator.task_servers(), aggregator.slots()).len() == config.servers@.len()
            * commands.len(),
        final_report(aggregator.task_servers(), aggregator.slots()).to_multiset()
            == collected_views(aggregator.task_servers(), aggregator.slots()).to_multiset(),
{
    lemma_sort_is_permutation(collected_views(aggregator.task_servers(), aggregator.slots()));
}

/// Failures stay with their task: whatever is recorded for task `task` (a
/// spawn failure, a failed command, a success), the result collected for
/// every other task is the same.
pub proof fn lemma_failure_is_contained(
    servers: Seq<String>,
    slots: Seq<Option<ServerResult>>,
    task: int,
    first: ServerResult,
    second: ServerResult,
    other: int,
)
    requires
        servers.len() == slots.len(),
        0 <= task < slots.len(),
        0 <= other < slots.len(),
        other != task,
    ensures
        collected_views(servers, slots.update(task, Some(first)))[other] == collected_views(
            servers,
            slots.update(task, Some(second)),
        )[other],
        collected_views(servers, slots.update(task, Some(first)))[other] == collected_views(
            servers,
            slots,
        )[other],
{
}

} // verus!
