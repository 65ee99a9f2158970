use retana::clock::{elapsed_seconds, Timestamp};
use retana::cron::{
    parse_interval, CronService, ScheduledTask, SchedulerAction, SchedulerLoop, TICK_SECS,
};
use retana::server::ExecResult;

fn task(id: &str, schedule: &str, enabled: bool, last: Option<Timestamp>) -> ScheduledTask {
    ScheduledTask {
        id: id.to_string(),
        name: format!("name-{}", id),
        command: "true".to_string(),
        schedule: schedule.to_string(),
        enabled,
        last_run: last,
    }
}

fn at(secs: i64) -> Timestamp {
    Timestamp { secs, nanos: 0 }
}

fn ran(output: &str, exit_code: i32, success: bool) -> ExecResult {
    ExecResult { output: output.to_string(), exit_code, success }
}

/// One check at `now` whose due commands all succeed with their name as
/// output.
fn check(s: &mut CronService, now: Timestamp) {
    let due = s.tasks_due_at(now);
    let outs: Vec<ExecResult> = due.iter().map(|t| ran(&t.name, 0, true)).collect();
    s.run_due_tasks(now, &outs);
}

fn ids(s: &CronService) -> Vec<String> {
    s.list_tasks().iter().map(|t| t.id.clone()).collect()
}

#[test]
fn intervals() {
    assert_eq!(parse_interval("5m"), 300);
    assert_eq!(parse_interval("2h"), 7200);
    assert_eq!(parse_interval("30s"), 30);
    assert_eq!(parse_interval("90"), 90);
    assert_eq!(parse_interval("xh"), 3600);
    assert_eq!(parse_interval("m"), 60);
    assert_eq!(parse_interval("bad"), 3600);
    assert_eq!(parse_interval("s"), 60);
    assert_eq!(parse_interval("3hh"), 10800);
    assert_eq!(parse_interval("-2m"), -120);
    assert_eq!(parse_interval(""), 3600);
    assert_eq!(parse_interval("9223372036854775807h"), 9223372036854775807i128 * 3600);
}

#[test]
fn elapsed_rounds_toward_zero() {
    let a = Timestamp { secs: 10, nanos: 900_000_000 };
    let b = Timestamp { secs: 70, nanos: 100_000_000 };
    assert_eq!(elapsed_seconds(b, a), 59);
    assert_eq!(elapsed_seconds(a, b), -59);
    assert_eq!(elapsed_seconds(at(5), at(5)), 0);
}

#[test]
fn add_list_remove() {
    let mut s = CronService::new();
    assert!(s.list_tasks().is_empty());
    s.add_task(task("a", "1m", true, None));
    s.add_task(task("b", "1m", true, None));
    s.add_task(task("a", "2m", true, None));
    assert_eq!(ids(&s), vec!["a", "b", "a"]);
    assert!(s.remove_task("a"));
    assert_eq!(ids(&s), vec!["b"]);
    assert!(!s.remove_task("a"));
    assert_eq!(ids(&s), vec!["b"]);
    let d = CronService::default();
    assert!(d.list_tasks().is_empty() && d.history().is_empty());
}

#[test]
fn add_then_remove_gives_tasks_back() {
    let mut s = CronService::new();
    s.add_task(task("x", "1m", true, None));
    s.add_task(task("new", "1m", true, None));
    assert!(s.remove_task("new"));
    assert_eq!(ids(&s), vec!["x"]);
}

#[test]
fn toggle_first_match_only() {
    let mut s = CronService::new();
    s.add_task(task("a", "1m", true, None));
    s.add_task(task("a", "1m", true, None));
    assert!(s.set_enabled("a", false));
    let t = s.list_tasks();
    assert!(!t[0].enabled);
    assert!(t[1].enabled);
    assert!(!s.set_enabled("zzz", true));
}

#[test]
fn due_tasks_run_and_are_recorded() {
    let mut s = CronService::new();
    s.add_task(task("never", "1m", true, None));
    s.add_task(task("off", "1m", false, None));
    s.add_task(task("recent", "5m", true, Some(at(1000))));
    s.add_task(task("old", "1m", true, Some(at(900))));
    let due = s.tasks_due_at(at(1060));
    let due_ids: Vec<&str> = due.iter().map(|t| t.id.as_str()).collect();
    assert_eq!(due_ids, vec!["never", "old"]);
    assert_eq!(due[0].command, "true");
    s.run_due_tasks(at(1060), &vec![ran("hello\n", 0, true), ran("boom", 2, false)]);
    let h = s.history();
    let ran_ids: Vec<&str> = h.iter().map(|r| r.task_id.as_str()).collect();
    assert_eq!(ran_ids, vec!["never", "old"]);
    assert_eq!(h[0].output, "hello\n");
    assert_eq!(h[0].exit_code, Some(0));
    assert!(h[0].success);
    assert_eq!(h[0].timestamp, at(1060));
    assert_eq!(h[1].output, "boom");
    assert_eq!(h[1].exit_code, Some(2));
    assert!(!h[1].success);
    let t = s.list_tasks();
    assert_eq!(t[0].last_run, Some(at(1060)));
    assert_eq!(t[1].last_run, None);
    assert_eq!(t[2].last_run, Some(at(1000)));
    assert_eq!(t[3].last_run, Some(at(1060)));
}

#[test]
fn second_check_at_same_time_runs_nothing() {
    let mut s = CronService::new();
    s.add_task(task("a", "1m", true, None));
    s.add_task(task("b", "10s", true, Some(at(0))));
    check(&mut s, at(100));
    assert_eq!(s.history().len(), 2);
    assert!(s.tasks_due_at(at(100)).is_empty());
    check(&mut s, at(100));
    assert_eq!(s.history().len(), 2);
}

#[test]
fn zero_interval_runs_every_check() {
    let mut s = CronService::new();
    s.add_task(task("z", "0", true, Some(at(5))));
    check(&mut s, at(5));
    check(&mut s, at(5));
    assert_eq!(s.history().len(), 2);
}

#[test]
fn checks_use_the_clock() {
    let mut s = CronService::new();
    s.add_task(task("a", "1h", true, None));
    s.add_task(task("b", "1h", false, None));
    let (now, due) = s.tasks_due_now();
    assert_eq!(due.len(), 1);
    assert_eq!(due[0].id, "a");
    s.run_due_tasks(now, &vec![ran("", 0, true)]);
    assert_eq!(s.history().len(), 1);
    assert_eq!(s.list_tasks()[0].last_run, Some(now));
    assert_eq!(TICK_SECS, 60);
}

#[test]
fn scheduler_loop_checks_then_waits_a_tick() {
    let mut l = SchedulerLoop::new();
    for _ in 0..3 {
        assert!(matches!(l.next(), SchedulerAction::Check));
        assert!(matches!(l.next(), SchedulerAction::Sleep { secs: 60 }));
    }
}
