use russh::aggregate::Aggregator;
use russh::config::Config;
use russh::dispatch::Dispatch;
use russh::outcome::{completed, from_exit, task_failed};
use russh::render::{duration_band, format_duration, log_record, DurationBand, RunOutcome};
use russh::task::{expand_tasks, Task};

fn config(servers: &[&str]) -> Config {
    Config {
        servers: servers.iter().map(|s| s.to_string()).collect(),
        ssh_options: vec![],
        users: vec![],
    }
}

fn commands(cs: &[&str]) -> Vec<String> {
    cs.iter().map(|s| s.to_string()).collect()
}

fn ok(server: &str, out: &str) -> russh::outcome::ServerResult {
    from_exit(server, Some(0), out.to_string(), String::new(), 10)
}

#[test]
fn report_lists_a_before_b_whatever_finishes_first() {
    let tasks = expand_tasks(&config(&["b", "a"]), &commands(&["x"]));
    let mut agg = Aggregator::new(&tasks);
    agg.record(0, ok("b", "from b"));
    agg.record(1, ok("a", "from a"));
    let report = agg.finalize();
    assert_eq!(report.results.len(), 2);
    assert_eq!(report.results[0].server, "a");
    assert_eq!(report.results[0].output, "from a");
    assert_eq!(report.results[1].server, "b");

    let tasks = expand_tasks(&config(&["a", "b"]), &commands(&["x"]));
    let mut agg = Aggregator::new(&tasks);
    agg.record(1, ok("b", "from b"));
    agg.record(0, ok("a", "from a"));
    let report = agg.finalize();
    assert_eq!(report.results[0].server, "a");
    assert_eq!(report.results[1].server, "b");
}

#[test]
fn report_has_one_result_per_server_and_command() {
    let tasks = expand_tasks(&config(&["s1", "s2", "s3"]), &commands(&["c1", "c2"]));
    assert_eq!(tasks.len(), 6);
    let mut agg = Aggregator::new(&tasks);
    assert_eq!(agg.task_count(), 6);
    for (k, t) in tasks.iter().enumerate() {
        agg.record(k, ok(&t.server, &t.command));
    }
    let report = agg.finalize();
    assert_eq!(report.results.len(), 6);
    assert!(report.all_succeeded);
    assert!(report.any_succeeded);
    assert_eq!(report.outcome(), RunOutcome::AllSucceeded);
}

#[test]
fn unreported_task_becomes_lost_failure() {
    let tasks = expand_tasks(&config(&["s1", "s2"]), &commands(&["c"]));
    let mut agg = Aggregator::new(&tasks);
    agg.record(0, ok("s1", "fine"));
    let report = agg.finalize();
    assert_eq!(report.results.len(), 2);
    assert_eq!(report.results[1].server, "s2");
    assert!(!report.results[1].success);
    assert_eq!(report.results[1].error.as_deref(), Some("worker ended without reporting a result"));
    assert!(!report.all_succeeded);
    assert!(report.any_succeeded);
    assert_eq!(report.outcome(), RunOutcome::SomeFailed);
}

#[test]
fn all_failed_outcome() {
    let tasks = expand_tasks(&config(&["s1", "s2"]), &commands(&["c"]));
    let mut agg = Aggregator::new(&tasks);
    agg.record(0, task_failed("s1", "no ssh", 1));
    agg.record(1, completed("s2", Some(255), b"", b"refused", 2));
    let report = agg.finalize();
    assert!(!report.all_succeeded);
    assert!(!report.any_succeeded);
    assert_eq!(report.outcome(), RunOutcome::AllFailed);
    assert_eq!(report.outcome().message(), "Execution failed on all servers.");
}

#[test]
fn empty_run_counts_as_success() {
    let tasks: Vec<Task> = Vec::new();
    let report = Aggregator::new(&tasks).finalize();
    assert!(report.results.is_empty());
    assert!(report.all_succeeded);
    assert!(!report.any_succeeded);
    assert_eq!(report.outcome().message(), "Execution completed successfully on all servers.");
}

#[test]
fn spawn_failure_leaves_other_results_alone() {
    let tasks = expand_tasks(&config(&["a", "b", "c"]), &commands(&["x"]));
    let mut with_failure = Aggregator::new(&tasks);
    let mut without = Aggregator::new(&tasks);
    for (k, t) in tasks.iter().enumerate() {
        if k == 1 {
            with_failure.record(k, task_failed(&t.server, "nonexistent binary", 0));
        } else {
            with_failure.record(k, ok(&t.server, "same"));
        }
        without.record(k, ok(&t.server, "same"));
    }
    let a = with_failure.finalize();
    let b = without.finalize();
    for k in [0usize, 2] {
        assert_eq!(a.results[k].server, b.results[k].server);
        assert_eq!(a.results[k].output, b.results[k].output);
        assert_eq!(a.results[k].error, b.results[k].error);
        assert_eq!(a.results[k].success, b.results[k].success);
    }
    assert!(!a.results[1].success);
    assert_eq!(a.outcome(), RunOutcome::SomeFailed);
    assert_eq!(a.outcome().message(), "Execution completed with errors on some servers.");
}

#[test]
fn same_server_keeps_task_order() {
    let tasks = expand_tasks(&config(&["z", "m"]), &commands(&["first", "second"]));
    let mut agg = Aggregator::new(&tasks);
    for k in (0..tasks.len()).rev() {
        agg.record(k, ok(&tasks[k].server, &tasks[k].command));
    }
    let report = agg.finalize();
    let got: Vec<(String, String)> =
        report.results.iter().map(|r| (r.server.clone(), r.output.clone())).collect();
    assert_eq!(
        got,
        vec![
            ("m".to_string(), "first".to_string()),
            ("m".to_string(), "second".to_string()),
            ("z".to_string(), "first".to_string()),
            ("z".to_string(), "second".to_string()),
        ]
    );
}

#[test]
fn later_record_replaces_earlier_and_out_of_range_is_ignored() {
    let tasks = expand_tasks(&config(&["a"]), &commands(&["x"]));
    let mut agg = Aggregator::new(&tasks);
    agg.record(0, ok("a", "provisional"));
    agg.record(0, completed("a", Some(3), b"", b"late failure", 9));
    agg.record(5, ok("ghost", "ignored"));
    let report = agg.finalize();
    assert_eq!(report.results.len(), 1);
    assert_eq!(report.results[0].error.as_deref(), Some("late failure"));
}

#[test]
fn report_sorts_by_code_point_order() {
    let tasks = expand_tasks(&config(&["web10", "Web1", "web1", "web", "ñ"]), &commands(&["x"]));
    let mut agg = Aggregator::new(&tasks);
    for (k, t) in tasks.iter().enumerate() {
        agg.record(k, ok(&t.server, "o"));
    }
    let got: Vec<String> = agg.finalize().results.into_iter().map(|r| r.server).collect();
    assert_eq!(got, vec!["Web1", "web", "web1", "web10", "ñ"]);
}

#[test]
fn expansion_order_and_settings() {
    let cfg = Config {
        servers: vec!["h1".to_string(), "h2".to_string()],
        ssh_options: vec![("h1".to_string(), "-p 2222".to_string())],
        users: vec![("h2".to_string(), "root".to_string())],
    };
    let tasks = expand_tasks(&cfg, &commands(&["uptime", "df"]));
    let got: Vec<(&str, &str, &str, &str)> = tasks
        .iter()
        .map(|t| (t.server.as_str(), t.command.as_str(), t.user.as_str(), t.ssh_options.as_str()))
        .collect();
    assert_eq!(
        got,
        vec![
            ("h1", "uptime", "", "-p 2222"),
            ("h1", "df", "", "-p 2222"),
            ("h2", "uptime", "root", ""),
            ("h2", "df", "root", ""),
        ]
    );
}

#[test]
fn expansion_with_no_commands_is_empty() {
    assert!(expand_tasks(&config(&["a", "b"]), &commands(&[])).is_empty());
    assert!(expand_tasks(&config(&[]), &commands(&["x"])).is_empty());
}

#[test]
fn ssh_arguments_with_and_without_user() {
    let t = Task {
        server: "host".to_string(),
        user: "me".to_string(),
        ssh_options: "-p 22".to_string(),
        command: "echo hi".to_string(),
    };
    assert_eq!(t.ssh_arguments(), vec!["-p 22", "me@host", "echo hi"]);
    let t = Task { user: String::new(), ssh_options: String::new(), ..t };
    assert_eq!(t.ssh_arguments(), vec!["", "host", "echo hi"]);
}

#[test]
fn durations_are_rounded_to_hundredths() {
    assert_eq!(format_duration(0), "0.00s");
    assert_eq!(format_duration(4), "0.00s");
    assert_eq!(format_duration(5), "0.01s");
    assert_eq!(format_duration(1235), "1.24s");
    assert_eq!(format_duration(3004), "3.00s");
    assert_eq!(format_duration(99999), "100.00s");
    assert_eq!(format_duration(u64::MAX), "18446744073709551.62s");
}

#[test]
fn duration_bands_at_their_edges() {
    assert_eq!(duration_band(0), DurationBand::Fast);
    assert_eq!(duration_band(3000), DurationBand::Fast);
    assert_eq!(duration_band(3001), DurationBand::Moderate);
    assert_eq!(duration_band(10000), DurationBand::Moderate);
    assert_eq!(duration_band(10001), DurationBand::Slow);
}

#[test]
fn log_record_shows_output_or_error() {
    let r = from_exit("web", Some(0), "up 3 days".to_string(), String::new(), 1500);
    assert_eq!(log_record(&r), "web - 1.50s:\nup 3 days");
    let r = completed("db", Some(1), b"partial", b"disk full", 20);
    assert_eq!(log_record(&r), "db - 0.02s:\ndisk full");
}

#[test]
fn dispatch_respects_the_bound() {
    let mut d = Dispatch::new(5, Some(2));
    assert_eq!(d.next_launch(), Some(0));
    assert_eq!(d.next_launch(), Some(1));
    assert_eq!(d.next_launch(), None);
    assert_eq!(d.running(), 2);
    d.worker_finished();
    assert_eq!(d.next_launch(), Some(2));
    d.worker_finished();
    d.worker_finished();
    assert_eq!(d.next_launch(), Some(3));
    assert_eq!(d.next_launch(), Some(4));
    assert_eq!(d.next_launch(), None);
    assert!(!d.is_done());
    d.worker_finished();
    d.worker_finished();
    assert!(d.is_done());
    d.worker_finished();
    assert!(d.is_done());
    assert_eq!(d.running(), 0);
}

#[test]
fn dispatch_without_limit_launches_everything() {
    let mut d = Dispatch::new(50, None);
    for k in 0..50 {
        assert_eq!(d.next_launch(), Some(k));
    }
    assert_eq!(d.next_launch(), None);
    assert_eq!(d.running(), 50);
    let mut z = Dispatch::new(3, Some(0));
    assert_eq!(z.next_launch(), Some(0));
    assert_eq!(z.next_launch(), None);
}
