use load_tester::runner::{AquaticUdpRunner, OpenTrackerUdpRunner, UdpRunner};
use load_tester::runner::AquaticUdpLoadTestRunner;
use load_tester::sets::{simple_load_test_runs, CpuMode, LoadTestRun, UdpCommand};
use std::path::PathBuf;
use load_tester::UdpTracker;

use indexmap::IndexMap;

fn command() -> UdpCommand {
    UdpCommand {
        load_test: PathBuf::from("./target/release-debug/aquatic_udp_load_test"),
        aquatic: PathBuf::from("./target/release-debug/aquatic_udp"),
        opentracker: PathBuf::from("opentracker"),
    }
}

fn keys<V>(sets: &IndexMap<usize, V>) -> Vec<usize> {
    sets.keys().copied().collect()
}

fn aquatic(socket_workers: usize, swarm_workers: usize) -> UdpRunner {
    UdpRunner::Aquatic(AquaticUdpRunner { socket_workers, swarm_workers })
}

fn opentracker(workers: usize) -> UdpRunner {
    UdpRunner::OpenTracker(OpenTrackerUdpRunner { workers })
}

#[test]
fn tracker_names() {
    assert_eq!(UdpTracker::Aquatic.name(), "aquatic_udp");
    assert_eq!(UdpTracker::OpenTracker.name(), "opentracker");
    assert_ne!(UdpTracker::Aquatic.name(), UdpTracker::OpenTracker.name());
}

#[test]
fn sets_are_keyed_by_core_count_in_order() {
    let sets = command().sets(CpuMode::Split);
    assert_eq!(keys(&sets), vec![1, 2, 3, 4, 6, 8, 12, 16]);
}

#[test]
fn first_set_contents() {
    let sets = command().sets(CpuMode::All);
    let set = &sets[&1];
    assert_eq!(set.implementations.len(), 2);
    assert_eq!(set.implementations[0].0, UdpTracker::Aquatic);
    assert_eq!(set.implementations[0].1, vec![aquatic(1, 1)]);
    assert_eq!(set.implementations[1].0, UdpTracker::OpenTracker);
    assert_eq!(set.implementations[1].1, vec![opentracker(0), opentracker(1), opentracker(2)]);
    let workers: Vec<usize> = set.load_test_runs.iter().map(|r| r.workers).collect();
    assert_eq!(workers, vec![1, 2, 4, 6]);
    assert!(set.load_test_runs.iter().all(|r| r.cpu_mode == CpuMode::All));
}

#[test]
fn largest_set_contents() {
    let sets = command().sets(CpuMode::Split);
    let set = &sets[&16];
    assert_eq!(
        set.implementations[0].1,
        vec![
            aquatic(15, 1),
            aquatic(30, 1),
            aquatic(15, 2),
            aquatic(30, 2),
            aquatic(13, 3),
            aquatic(26, 3),
            aquatic(12, 4),
            aquatic(24, 4),
        ]
    );
    assert_eq!(set.implementations[1].1, vec![opentracker(16), opentracker(32)]);
    let workers: Vec<usize> = set.load_test_runs.iter().map(|r| r.workers).collect();
    assert_eq!(workers, vec![4, 8, 12, 16]);
}

#[test]
fn every_set_measures_both_trackers() {
    let sets = command().sets(CpuMode::Split);
    for (_, set) in sets.iter() {
        assert_eq!(set.implementations[0].0, UdpTracker::Aquatic);
        assert_eq!(set.implementations[1].0, UdpTracker::OpenTracker);
        assert!(set.implementations[0].1.iter().all(|r| matches!(r, UdpRunner::Aquatic(_))));
        assert!(set.implementations[1].1.iter().all(|r| matches!(r, UdpRunner::OpenTracker(_))));
        assert!(!set.load_test_runs.is_empty());
    }
}

#[test]
fn run_without_bounds_selects_every_set() {
    let selected = command().run(CpuMode::Split, None, None);
    assert_eq!(keys(&selected), vec![1, 2, 3, 4, 6, 8, 12, 16]);
}

#[test]
fn run_with_both_bounds() {
    let selected = command().run(CpuMode::Split, Some(4), Some(8));
    assert_eq!(keys(&selected), vec![4, 6, 8]);
    assert_eq!(selected[&6].implementations[1].1, vec![opentracker(6), opentracker(12)]);
}

#[test]
fn run_pairs_each_load_test_run_with_its_load_tester() {
    let selected = command().run(CpuMode::All, Some(3), Some(3));
    let set = &selected[&3];
    assert_eq!(
        set.load_tests,
        vec![
            (LoadTestRun { workers: 4, cpu_mode: CpuMode::All }, AquaticUdpLoadTestRunner::new(4)),
            (LoadTestRun { workers: 6, cpu_mode: CpuMode::All }, AquaticUdpLoadTestRunner::new(6)),
            (LoadTestRun { workers: 8, cpu_mode: CpuMode::All }, AquaticUdpLoadTestRunner::new(8)),
        ]
    );
    let keys: Vec<(String, String)> = set.load_tests[1].1.keys().into_iter().collect();
    assert_eq!(keys, vec![("workers".to_string(), "6".to_string())]);
}

#[test]
fn run_keeps_the_sets_setups() {
    let sets = command().sets(CpuMode::Split);
    let selected = command().run(CpuMode::Split, Some(8), None);
    for (cores, set) in selected.iter() {
        assert_eq!(set.implementations, sets[cores].implementations);
    }
}

#[test]
fn run_with_lower_bound_only() {
    let selected = command().run(CpuMode::Split, Some(5), None);
    assert_eq!(keys(&selected), vec![6, 8, 12, 16]);
}

#[test]
fn run_with_upper_bound_only() {
    let selected = command().run(CpuMode::Split, None, Some(3));
    assert_eq!(keys(&selected), vec![1, 2, 3]);
}

#[test]
fn run_with_bounds_that_exclude_everything() {
    assert!(command().run(CpuMode::Split, Some(17), None).is_empty());
    assert!(command().run(CpuMode::Split, Some(8), Some(4)).is_empty());
    assert!(command().run(CpuMode::Split, None, Some(0)).is_empty());
}

#[test]
fn run_bounds_are_inclusive() {
    let selected = command().run(CpuMode::All, Some(12), Some(12));
    assert_eq!(keys(&selected), vec![12]);
}

#[test]
fn run_in_stages_matches_run_with_both_bounds() {
    let both = keys(&command().run(CpuMode::Split, Some(2), Some(12)));
    let lower: Vec<usize> = keys(&command().run(CpuMode::Split, Some(2), None));
    let staged: Vec<usize> = lower.into_iter().filter(|k| *k <= 12).collect();
    assert_eq!(both, staged);
}

#[test]
fn load_test_runs_carry_mode_and_order() {
    let runs = simple_load_test_runs(CpuMode::Split, &[4, 8, 12]);
    assert_eq!(
        runs,
        vec![
            LoadTestRun { workers: 4, cpu_mode: CpuMode::Split },
            LoadTestRun { workers: 8, cpu_mode: CpuMode::Split },
            LoadTestRun { workers: 12, cpu_mode: CpuMode::Split },
        ]
    );
    assert!(simple_load_test_runs(CpuMode::All, &[]).is_empty());
}
