use psr::collector::{
    should_pause, Answers, ProcessMonitor, Query, BATCH_SIZE, FULL_REFRESH_INTERVAL_MS,
};
use psr::commands::{termination_command, Platform};
use psr::process::{ProcessInfo, RawSample};
use psr::scheduler::ProcessUpdate;
use psr::status::{OsStatus, ProcessStatus};
use psr::ui_state::App;

fn sample(pid: u32, name: &str, cpu: u64, memory: u64) -> RawSample {
    RawSample {
        pid,
        name: name.to_string(),
        cpu_usage: cpu,
        memory,
        status: OsStatus::Run,
        run_time: 100,
        cmd: vec![name.to_string(), "--flag".to_string()],
        parent: if pid > 1 { Some(1) } else { None },
    }
}

fn answers_for(users: &[(u32, &str)], threads: &[(u32, &str)]) -> Answers {
    let mut answers = Answers::new();
    for (pid, text) in users {
        answers.record_user(*pid, text.to_string());
    }
    for (pid, text) in threads {
        answers.record_threads(*pid, text.to_string());
    }
    answers
}

fn pids(list: &[ProcessInfo]) -> Vec<u32> {
    list.iter().map(|p| p.pid).collect()
}

#[test]
fn constants_of_the_collector() {
    assert_eq!(BATCH_SIZE, 50);
    assert_eq!(FULL_REFRESH_INTERVAL_MS, 10_000);
}

#[test]
fn answers_hold_what_was_recorded() {
    let answers = answers_for(&[(1, "root\n")], &[(2, "4\n")]);
    assert_eq!(answers.user_output(1), Some("root\n"));
    assert_eq!(answers.user_output(2), None);
    assert_eq!(answers.thread_output(2), Some("4\n"));
    assert_eq!(answers.thread_output(1), None);
}

#[test]
fn scenario_full_cycle_over_two_processes() {
    let mut monitor = ProcessMonitor::new(0);
    let samples = vec![sample(1, "init", 150, 4096), sample(2, "shell", 25, 8192)];
    let answers = answers_for(&[(1, "root\n"), (2, "alice\n")], &[(1, "1\n"), (2, "3\n")]);
    let list = monitor.get_processes(&samples, true, &answers, 1_000);
    assert_eq!(list.len(), 2);
    assert_eq!(pids(&list), vec![1, 2]);
    assert_eq!(list[0].name, "init");
    assert_eq!(list[0].user, "root");
    assert_eq!(list[0].threads, Some(1));
    assert_eq!(list[1].name, "shell");
    assert_eq!(list[1].user, "alice");
    assert_eq!(list[1].threads, Some(3));
    for p in &list {
        assert_ne!(p.user, "fetching...");
        assert!(!p.user.is_empty());
    }
    assert_eq!(monitor.process_count(), 2);
}

#[test]
fn scenario_process_disappears() {
    let mut monitor = ProcessMonitor::new(0);
    let answers = answers_for(&[(1, "root"), (2, "alice")], &[]);
    let first = vec![sample(1, "init", 150, 4096), sample(2, "shell", 25, 8192)];
    monitor.get_processes(&first, true, &answers, 1_000);
    assert!(monitor.is_known(2));
    let second = vec![sample(1, "init", 160, 4096)];
    let list = monitor.get_processes(&second, false, &Answers::new(), 2_000);
    assert_eq!(pids(&list), vec![1]);
    assert!(monitor.is_known(1));
    assert!(!monitor.is_known(2));
    assert_eq!(monitor.process_count(), 1);
}

struct MockOs {
    table: Vec<RawSample>,
}

impl MockOs {
    // Carries out a termination command and reports success
    fn terminate(&mut self, words: &[String]) -> bool {
        if words.len() == 3 && words[0] == "kill" && words[1] == "-9" {
            let before = self.table.len();
            self.table.retain(|s| s.pid.to_string() != words[2]);
            self.table.len() < before
        } else {
            false
        }
    }
}

#[test]
fn scenario_terminated_process_is_absent_after_refresh() {
    let mut os = MockOs { table: vec![sample(1, "init", 150, 4096), sample(2, "shell", 25, 8192)] };
    let mut monitor = ProcessMonitor::new(0);
    let mut app = App::new(0);
    let answers = answers_for(&[(1, "root"), (2, "alice")], &[]);
    let list = monitor.get_processes(&os.table, true, &answers, 1_000);
    app.apply(ProcessUpdate::ProcessList(list));
    app.selected_index = pids(&app.processes).iter().position(|pid| *pid == 2).unwrap();
    let pid = app.kill_selected_process();
    assert_eq!(pid, Some(2));
    let words = termination_command(2, Platform::Unix).unwrap();
    assert!(os.terminate(&words));
    let forced = monitor.begin_cycle(true, 1_500);
    assert!(forced);
    let list = monitor.get_processes(&os.table, forced, &Answers::new(), 1_500);
    assert_eq!(pids(&list), vec![1]);
    assert!(!monitor.is_known(2));
    app.apply(ProcessUpdate::ProcessList(list));
    assert_eq!(pids(&app.processes), vec![1]);
}

#[test]
fn first_sighting_fills_every_field() {
    let mut monitor = ProcessMonitor::new(0);
    let mut s = sample(9, "worker", 1234, 777);
    s.status = OsStatus::Sleep;
    s.run_time = 42;
    s.parent = Some(3);
    let answers = answers_for(&[(9, " bob \n")], &[(9, "8")]);
    let info = monitor.merge(&s, false, &answers, 5_000);
    assert_eq!(info.pid, 9);
    assert_eq!(info.name, "worker");
    assert_eq!(info.cpu_usage, 1234);
    assert_eq!(info.memory, 777);
    assert_eq!(info.status, ProcessStatus::Sleeping);
    assert_eq!(info.user, "bob");
    assert_eq!(info.start_time, 42);
    assert_eq!(info.cmd, vec!["worker".to_string(), "--flag".to_string()]);
    assert_eq!(info.threads, Some(8));
    assert_eq!(info.parent, Some(3));
    assert_eq!(info.cpu_history.samples(), &vec![1234u64]);
    assert_eq!(info.memory_history.samples(), &vec![777u64]);
    assert_eq!(info.last_updated, 5_000);
}

#[test]
fn first_sighting_on_a_partial_tick_is_enriched_like_on_a_full_one() {
    let answers = answers_for(&[(9, "bob")], &[(9, "8")]);
    let mut partial = ProcessMonitor::new(0);
    let mut full = ProcessMonitor::new(0);
    let a = partial.merge(&sample(9, "worker", 1, 2), false, &answers, 100);
    let b = full.merge(&sample(9, "worker", 1, 2), true, &answers, 100);
    assert_eq!(a.user, "bob");
    assert_eq!(a.threads, Some(8));
    assert_eq!(a.user, b.user);
    assert_eq!(a.threads, b.threads);
    assert_eq!(a.status, b.status);
    assert_ne!(a.user, "fetching...");
}

#[test]
fn first_sighting_without_answers_is_unknown_not_pending() {
    let mut monitor = ProcessMonitor::new(0);
    let info = monitor.merge(&sample(9, "worker", 1, 2), false, &Answers::new(), 100);
    assert_eq!(info.user, "unknown");
    assert_eq!(info.threads, None);
}

#[test]
fn partial_refresh_keeps_resolved_metadata() {
    let mut monitor = ProcessMonitor::new(0);
    let first = answers_for(&[(5, "alice")], &[(5, "2")]);
    monitor.get_processes(&vec![sample(5, "editor", 10, 20)], true, &first, 0);
    let mut changed = sample(5, "editor", 30, 40);
    changed.status = OsStatus::Zombie;
    changed.parent = Some(77);
    changed.cmd = vec!["other".to_string()];
    let later = answers_for(&[(5, "mallory")], &[(5, "99")]);
    let list = monitor.get_processes(&vec![changed], false, &later, 1_000);
    assert_eq!(list.len(), 1);
    assert_eq!(list[0].user, "alice");
    assert_eq!(list[0].threads, Some(2));
    assert_eq!(list[0].status, ProcessStatus::Running);
    assert_eq!(list[0].parent, Some(1));
    assert_eq!(list[0].cmd, vec!["editor".to_string(), "--flag".to_string()]);
    assert_eq!(list[0].cpu_usage, 30);
    assert_eq!(list[0].memory, 40);
    assert_eq!(list[0].cpu_history.samples(), &vec![10u64, 30]);
    assert_eq!(list[0].memory_history.samples(), &vec![20u64, 40]);
    assert_eq!(list[0].last_updated, 1_000);
}

#[test]
fn partial_refresh_survives_expired_metadata_caches() {
    let mut monitor = ProcessMonitor::new(0);
    let first = answers_for(&[(5, "alice")], &[(5, "2")]);
    monitor.get_processes(&vec![sample(5, "editor", 10, 20)], true, &first, 0);
    let list = monitor.get_processes(&vec![sample(5, "editor", 30, 40)], false, &Answers::new(), 100_000);
    assert_eq!(list[0].user, "alice");
    assert_eq!(list[0].threads, Some(2));
}

#[test]
fn full_refresh_renews_metadata() {
    let mut monitor = ProcessMonitor::new(0);
    let first = answers_for(&[(5, "alice")], &[(5, "2")]);
    monitor.get_processes(&vec![sample(5, "editor", 10, 20)], true, &first, 0);
    let mut changed = sample(5, "renamed", 30, 40);
    changed.status = OsStatus::Stop;
    changed.parent = Some(77);
    changed.cmd = vec!["other".to_string()];
    changed.run_time = 999;
    let later = answers_for(&[(5, "bob")], &[(5, "9")]);
    let list = monitor.get_processes(&vec![changed], true, &later, 40_000);
    assert_eq!(list[0].user, "bob");
    assert_eq!(list[0].threads, Some(9));
    assert_eq!(list[0].status, ProcessStatus::Stopped);
    assert_eq!(list[0].parent, Some(77));
    assert_eq!(list[0].cmd, vec!["other".to_string()]);
    assert_eq!(list[0].name, "editor");
    assert_eq!(list[0].start_time, 100);
    assert_eq!(list[0].cpu_history.samples(), &vec![10u64, 30]);
}

#[test]
fn full_refresh_within_time_to_live_is_served_from_the_caches() {
    let mut monitor = ProcessMonitor::new(0);
    let first = answers_for(&[(5, "alice")], &[(5, "2")]);
    monitor.get_processes(&vec![sample(5, "editor", 10, 20)], true, &first, 0);
    let later = answers_for(&[(5, "bob")], &[(5, "9")]);
    let list = monitor.get_processes(&vec![sample(5, "editor", 10, 20)], true, &later, 4_000);
    assert_eq!(list[0].user, "alice");
    assert_eq!(list[0].threads, Some(2));
    let list = monitor.get_processes(&vec![sample(5, "editor", 10, 20)], true, &later, 6_000);
    assert_eq!(list[0].user, "alice");
    assert_eq!(list[0].threads, Some(9));
}

#[test]
fn process_history_is_bounded_and_in_arrival_order() {
    let mut monitor = ProcessMonitor::new(0);
    let mut last = Vec::new();
    for round in 0..100u64 {
        last = monitor.get_processes(
            &vec![sample(1, "init", round, 1_000 + round)],
            false,
            &Answers::new(),
            round * 1_000,
        );
    }
    let cpu: Vec<u64> = (40..100u64).collect();
    let memory: Vec<u64> = (1_040..1_100u64).collect();
    assert_eq!(last[0].cpu_history.samples(), &cpu);
    assert_eq!(last[0].memory_history.samples(), &memory);
    assert_eq!(last[0].cpu_usage, 99);
}

#[test]
fn update_history_records_a_reading() {
    let mut monitor = ProcessMonitor::new(0);
    let mut info = monitor.merge(&sample(1, "init", 5, 6), true, &Answers::new(), 0);
    info.update_history(7, 8, 50);
    assert_eq!(info.cpu_usage, 7);
    assert_eq!(info.memory, 8);
    assert_eq!(info.cpu_history.samples(), &vec![5u64, 7]);
    assert_eq!(info.memory_history.samples(), &vec![6u64, 8]);
    assert_eq!(info.last_updated, 50);
}

#[test]
fn published_list_keeps_collection_order() {
    let mut monitor = ProcessMonitor::new(0);
    let samples = vec![sample(30, "c", 1, 1), sample(10, "a", 1, 1), sample(20, "b", 1, 1)];
    let list = monitor.get_processes(&samples, true, &Answers::new(), 0);
    assert_eq!(pids(&list), vec![30, 10, 20]);
}

#[test]
fn cache_holds_exactly_the_sampled_identifiers() {
    let mut monitor = ProcessMonitor::new(0);
    monitor.get_processes(
        &vec![sample(1, "a", 1, 1), sample(2, "b", 1, 1), sample(3, "c", 1, 1)],
        true,
        &Answers::new(),
        0,
    );
    monitor.get_processes(&vec![sample(3, "c", 1, 1), sample(4, "d", 1, 1)], false, &Answers::new(), 1_000);
    for pid in 0..10u32 {
        assert_eq!(monitor.is_known(pid), pid == 3 || pid == 4);
    }
    monitor.get_processes(&Vec::new(), false, &Answers::new(), 2_000);
    assert_eq!(monitor.process_count(), 0);
}

#[test]
fn a_process_that_returns_starts_over() {
    let mut monitor = ProcessMonitor::new(0);
    monitor.get_processes(&vec![sample(1, "a", 5, 5)], true, &Answers::new(), 0);
    monitor.get_processes(&Vec::new(), false, &Answers::new(), 1_000);
    let list = monitor.get_processes(&vec![sample(1, "a", 9, 9)], false, &Answers::new(), 2_000);
    assert_eq!(list[0].cpu_history.samples(), &vec![9u64]);
}

#[test]
fn repeated_identifier_in_one_cycle_is_one_process() {
    let mut monitor = ProcessMonitor::new(0);
    let answers = answers_for(&[(1, "root")], &[(1, "2")]);
    let list = monitor.get_processes(
        &vec![sample(1, "a", 5, 5), sample(1, "a", 6, 6)],
        false,
        &answers,
        0,
    );
    assert_eq!(list.len(), 2);
    assert_eq!(list[0].cpu_history.samples(), &vec![5u64]);
    assert_eq!(list[1].cpu_history.samples(), &vec![5u64, 6]);
    assert_eq!(list[1].user, "root");
    assert_eq!(monitor.process_count(), 1);
}

#[test]
fn evict_stale_keeps_only_the_active() {
    let mut monitor = ProcessMonitor::new(0);
    for pid in 1..=5u32 {
        monitor.merge(&sample(pid, "p", 1, 1), true, &Answers::new(), 0);
    }
    monitor.evict_stale(&vec![2, 4, 4, 9]);
    assert_eq!(monitor.process_count(), 2);
    assert!(monitor.is_known(2));
    assert!(monitor.is_known(4));
    assert!(!monitor.is_known(1));
    assert!(!monitor.is_known(9));
    monitor.evict_stale(&Vec::new());
    assert_eq!(monitor.process_count(), 0);
}

#[test]
fn begin_cycle_decides_the_mode() {
    let mut monitor = ProcessMonitor::new(1_000);
    assert_eq!(monitor.last_full_refresh(), 1_000);
    assert!(!monitor.begin_cycle(false, 2_000));
    assert_eq!(monitor.last_full_refresh(), 1_000);
    assert!(!monitor.begin_cycle(false, 11_000));
    assert!(monitor.begin_cycle(false, 11_001));
    assert_eq!(monitor.last_full_refresh(), 11_001);
    assert!(!monitor.begin_cycle(false, 12_000));
    assert!(monitor.begin_cycle(true, 12_500));
    assert_eq!(monitor.last_full_refresh(), 12_500);
    assert!(!monitor.begin_cycle(false, 100));
    assert_eq!(monitor.last_full_refresh(), 12_500);
}

#[test]
fn plan_lists_the_queries_of_a_full_cycle() {
    let monitor = ProcessMonitor::new(0);
    let samples = vec![sample(1, "a", 1, 1), sample(2, "b", 1, 1)];
    assert_eq!(
        monitor.plan(&samples, true, 0),
        vec![Query::User(1), Query::Threads(1), Query::User(2), Query::Threads(2)]
    );
}

#[test]
fn plan_of_a_partial_cycle_asks_only_for_new_processes() {
    let mut monitor = ProcessMonitor::new(0);
    monitor.get_processes(&vec![sample(1, "a", 1, 1)], true, &answers_for(&[(1, "root")], &[(1, "1")]), 0);
    let samples = vec![sample(1, "a", 1, 1), sample(2, "b", 1, 1)];
    assert_eq!(monitor.plan(&samples, false, 60_000), vec![Query::User(2), Query::Threads(2)]);
    assert_eq!(monitor.plan(&vec![sample(1, "a", 1, 1)], false, 60_000), Vec::new());
}

#[test]
fn plan_skips_what_the_caches_hold() {
    let mut monitor = ProcessMonitor::new(0);
    monitor.get_processes(&vec![sample(1, "a", 1, 1)], true, &answers_for(&[(1, "root")], &[(1, "1")]), 0);
    let samples = vec![sample(1, "a", 1, 1)];
    assert_eq!(monitor.plan(&samples, true, 1_000), Vec::new());
    assert_eq!(monitor.plan(&samples, true, 5_001), vec![Query::Threads(1)]);
    assert_eq!(monitor.plan(&samples, true, 30_001), vec![Query::User(1), Query::Threads(1)]);
}

#[test]
fn plan_asks_again_for_a_thread_count_that_failed() {
    let mut monitor = ProcessMonitor::new(0);
    monitor.get_processes(&vec![sample(1, "a", 1, 1)], true, &Answers::new(), 0);
    assert_eq!(monitor.plan(&vec![sample(1, "a", 1, 1)], true, 1_000), vec![Query::Threads(1)]);
}

#[test]
fn plan_asks_once_per_process() {
    let monitor = ProcessMonitor::new(0);
    let samples = vec![sample(1, "a", 1, 1), sample(2, "b", 1, 1), sample(1, "a", 1, 1)];
    assert_eq!(
        monitor.plan(&samples, true, 0),
        vec![Query::User(1), Query::Threads(1), Query::User(2), Query::Threads(2)]
    );
}

#[test]
fn answers_outside_the_plan_are_not_read() {
    let mut a = ProcessMonitor::new(0);
    let mut b = ProcessMonitor::new(0);
    let seed = answers_for(&[(1, "root")], &[(1, "1")]);
    a.get_processes(&vec![sample(1, "a", 1, 1)], true, &seed, 0);
    b.get_processes(&vec![sample(1, "a", 1, 1)], true, &seed, 0);
    let samples = vec![sample(1, "a", 2, 2), sample(2, "b", 2, 2)];
    assert_eq!(a.plan(&samples, false, 1_000), vec![Query::User(2), Query::Threads(2)]);
    let planned = answers_for(&[(2, "alice")], &[(2, "4")]);
    let more = answers_for(&[(1, "mallory"), (2, "alice"), (3, "x")], &[(1, "99"), (2, "4")]);
    let x = a.get_processes(&samples, false, &planned, 1_000);
    let y = b.get_processes(&samples, false, &more, 1_000);
    assert_eq!(x.len(), y.len());
    for (p, q) in x.iter().zip(y.iter()) {
        assert_eq!(p.pid, q.pid);
        assert_eq!(p.user, q.user);
        assert_eq!(p.threads, q.threads);
    }
}

#[test]
fn pause_after_every_full_batch() {
    assert!(!should_pause(0));
    assert!(!should_pause(1));
    assert!(!should_pause(49));
    assert!(should_pause(50));
    assert!(!should_pause(51));
    assert!(should_pause(100));
    assert!(should_pause(1_000));
}

#[test]
fn status_conversion() {
    assert_eq!(ProcessStatus::from_os(OsStatus::Run), ProcessStatus::Running);
    assert_eq!(ProcessStatus::from_os(OsStatus::Sleep), ProcessStatus::Sleeping);
    assert_eq!(ProcessStatus::from_os(OsStatus::Stop), ProcessStatus::Stopped);
    assert_eq!(ProcessStatus::from_os(OsStatus::Zombie), ProcessStatus::Zombie);
    for raw in [
        OsStatus::Idle,
        OsStatus::Tracing,
        OsStatus::Dead,
        OsStatus::Wakekill,
        OsStatus::Waking,
        OsStatus::Parked,
        OsStatus::LockBlocked,
        OsStatus::UninterruptibleDiskSleep,
        OsStatus::Other,
    ] {
        assert_eq!(ProcessStatus::from_os(raw), ProcessStatus::Unknown);
    }
}

#[test]
fn status_texts_and_ranks() {
    assert_eq!(ProcessStatus::Running.to_string(), "Running");
    assert_eq!(ProcessStatus::Sleeping.to_string(), "Sleeping");
    assert_eq!(ProcessStatus::Stopped.to_string(), "Stopped");
    assert_eq!(ProcessStatus::Zombie.to_string(), "Zombie");
    assert_eq!(ProcessStatus::Unknown.to_string(), "Unknown");
    assert_eq!(ProcessStatus::Zombie.as_str(), "Zombie");
    assert_eq!(ProcessStatus::Running.rank(), 0);
    assert_eq!(ProcessStatus::Sleeping.rank(), 1);
    assert_eq!(ProcessStatus::Stopped.rank(), 2);
    assert_eq!(ProcessStatus::Zombie.rank(), 3);
    assert_eq!(ProcessStatus::Unknown.rank(), 4);
}
