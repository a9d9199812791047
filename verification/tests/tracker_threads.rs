use load_tester::server::{startup_plan, WorkerThread};

#[test]
fn thread_names_are_numbered_from_one_with_two_digits() {
    assert_eq!(WorkerThread::Request(0).name(), "request-01");
    assert_eq!(WorkerThread::Request(8).name(), "request-09");
    assert_eq!(WorkerThread::Request(9).name(), "request-10");
    assert_eq!(WorkerThread::Socket(0).name(), "socket-01");
    assert_eq!(WorkerThread::Socket(41).name(), "socket-42");
    assert_eq!(WorkerThread::Socket(99).name(), "socket-100");
    assert_eq!(WorkerThread::StatisticsCollector.name(), "statistics-collector");
}

#[test]
fn startup_plan_with_statistics() {
    assert_eq!(
        startup_plan(2, 3, 5),
        vec![
            WorkerThread::Request(0),
            WorkerThread::Request(1),
            WorkerThread::Socket(0),
            WorkerThread::Socket(1),
            WorkerThread::Socket(2),
            WorkerThread::StatisticsCollector,
        ]
    );
}

#[test]
fn startup_plan_without_statistics() {
    assert_eq!(startup_plan(1, 1, 0), vec![WorkerThread::Request(0), WorkerThread::Socket(0)]);
    assert!(startup_plan(0, 0, 0).is_empty());
}

#[test]
fn startup_plan_names_are_distinct() {
    let names: Vec<String> = startup_plan(12, 120, 1).iter().map(|t| t.name()).collect();
    let mut sorted = names.clone();
    sorted.sort();
    sorted.dedup();
    assert_eq!(sorted.len(), names.len());
}
