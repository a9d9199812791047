use load_tester::runner::{
    AquaticUdpLoadTestRunner, AquaticUdpRunner, OpenTrackerUdpRunner, RunnerError, UdpRunner,
    LOAD_TEST_DURATION_SECONDS,
};
use load_tester::runner::ProcessArg;
use load_tester::sets::UdpCommand;
use std::path::PathBuf;

fn command() -> UdpCommand {
    UdpCommand {
        load_test: PathBuf::from("/bin/load"),
        aquatic: PathBuf::from("/bin/aquatic"),
        opentracker: PathBuf::from("/bin/ot"),
    }
}

fn pairs(runner: UdpRunner) -> Vec<(String, String)> {
    runner.keys().into_iter().collect()
}

#[test]
fn aquatic_keys() {
    assert_eq!(
        pairs(AquaticUdpRunner::new(3, 1)),
        vec![
            ("socket workers".to_string(), "3".to_string()),
            ("swarm workers".to_string(), "1".to_string()),
        ]
    );
}

#[test]
fn opentracker_keys() {
    assert_eq!(pairs(OpenTrackerUdpRunner::new(12)), vec![("workers".to_string(), "12".to_string())]);
    assert_eq!(pairs(OpenTrackerUdpRunner::new(0)), vec![("workers".to_string(), "0".to_string())]);
}

#[test]
fn load_test_keys() {
    assert_eq!(
        pairs(AquaticUdpLoadTestRunner::new(1024)),
        vec![("workers".to_string(), "1024".to_string())]
    );
    assert_eq!(
        pairs(AquaticUdpLoadTestRunner::new(usize::MAX)),
        vec![("workers".to_string(), usize::MAX.to_string())]
    );
}

fn describe(args: &[ProcessArg<'_>]) -> Vec<String> {
    args.iter()
        .map(|arg| match arg {
            ProcessArg::Text(text) => format!("text:{}", text),
            ProcessArg::Path(path) => format!("path:{}", path.display()),
        })
        .collect()
}

#[test]
fn invocation_of_each_runner() {
    let command = command();

    let config = PathBuf::from("/tmp/a.toml");
    let aquatic = AquaticUdpRunner::new(2, 1).invocation(&command, "0-3", &config);
    assert_eq!(aquatic.program, "taskset");
    assert_eq!(
        describe(&aquatic.args),
        vec!["text:--cpu-list", "text:0-3", "path:/bin/aquatic", "text:-c", "path:/tmp/a.toml"]
    );

    let config = PathBuf::from("/tmp/o.conf");
    let opentracker = OpenTrackerUdpRunner::new(4).invocation(&command, "4,5", &config);
    assert_eq!(opentracker.program, "taskset");
    assert_eq!(
        describe(&opentracker.args),
        vec!["text:--cpu-list", "text:4,5", "path:/bin/ot", "text:-f", "path:/tmp/o.conf"]
    );

    let config = PathBuf::from("/tmp/l.toml");
    let load_test = AquaticUdpLoadTestRunner::new(6).invocation(&command, "7", &config);
    assert_eq!(
        describe(&load_test.args),
        vec!["text:--cpu-list", "text:7", "path:/bin/load", "text:-c", "path:/tmp/l.toml"]
    );
}

#[test]
fn opentracker_config_file() {
    assert_eq!(
        OpenTrackerUdpRunner { workers: 4 }.config_file(),
        "listen.udp.workers 4\nlisten.udp 0.0.0.0:3000\n"
    );
    assert_eq!(
        OpenTrackerUdpRunner { workers: 0 }.config_file(),
        "listen.udp.workers 0\nlisten.udp 0.0.0.0:3000\n"
    );
}

fn load_test_config(workers: usize) -> toml::Value {
    let text = AquaticUdpLoadTestRunner { workers }.config_file().unwrap();
    toml::from_str(&text).unwrap()
}

#[test]
fn load_test_config_file_sets_workers_and_duration() {
    let config = load_test_config(6);
    assert_eq!(config["workers"].as_integer(), Some(6));
    assert_eq!(config["duration"].as_integer(), Some(LOAD_TEST_DURATION_SECONDS as i64));
    assert_eq!(config["duration"].as_integer(), Some(60));
    // the other settings are the load tester's defaults
    assert_eq!(config["server_address"].as_str(), Some("127.0.0.1:3000"));
}

#[test]
fn load_test_config_file_is_always_produced() {
    for workers in [0, 1, 255, 256, 300, usize::MAX] {
        assert!(AquaticUdpLoadTestRunner { workers }.config_file().is_ok());
    }
}

#[test]
fn load_test_config_file_cuts_workers_to_a_byte() {
    assert_eq!(load_test_config(255)["workers"].as_integer(), Some(255));
    assert_eq!(load_test_config(256)["workers"].as_integer(), Some(0));
    assert_eq!(load_test_config(300)["workers"].as_integer(), Some(44));
}

#[test]
fn load_test_config_file_matches_the_load_testers_own_serialization() {
    let mut config = aquatic_udp_load_test::config::Config::default();
    config.workers = 8;
    config.duration = 60;
    let expected = toml::to_string_pretty(&config).unwrap();
    assert_eq!(AquaticUdpLoadTestRunner { workers: 8 }.config_file(), Ok(expected));
}

#[test]
fn runner_error_is_comparable() {
    assert_eq!(RunnerError::ConfigSerialization, RunnerError::ConfigSerialization);
}

#[test]
fn keys_of_large_and_zero_counts() {
    assert_eq!(
        pairs(AquaticUdpRunner::new(0, 1000000)),
        vec![
            ("socket workers".to_string(), "0".to_string()),
            ("swarm workers".to_string(), "1000000".to_string()),
        ]
    );
}
