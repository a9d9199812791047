use vstd::prelude::*;

use indexmap::IndexMap;

use std::path::PathBuf;

use crate::decimal::{decimal, decimal_string, digits_value, is_digit, lemma_decimal_reads_back};
use crate::load_test::{load_test_config_toml, serialize_load_test_config};
use crate::sets::UdpCommand;
use crate::table::{entry_keys, insert_text, new_text_table, text_table_entries};

verus! {

/// How long, in seconds, each load test runs.
pub const LOAD_TEST_DURATION_SECONDS: usize = 60;

/// An aquatic_udp tracker process with the given numbers of workers.
#[derive(Debug, Clone, Copy, PartialEq, Eq, Structural)]
pub struct AquaticUdpRunner {
    pub socket_workers: usize,
    pub swarm_workers: usize,
}

/// An opentracker process with the given number of workers
/// (0: requests are handled within the event loop).
#[derive(Debug, Clone, Copy, PartialEq, Eq, Structural)]
pub struct OpenTrackerUdpRunner {
    pub workers: usize,
}

/// An aquatic_udp_load_test process with the given number of workers.
#[derive(Debug, Clone, Copy, PartialEq, Eq, Structural)]
pub struct AquaticUdpLoadTestRunner {
    pub workers: usize,
}

/// One process that a benchmark run starts.
#[derive(Debug, Clone, Copy, PartialEq, Eq, Structural)]
pub enum UdpRunner {
    Aquatic(AquaticUdpRunner),
    OpenTracker(OpenTrackerUdpRunner),
    LoadTest(AquaticUdpLoadTestRunner),
}

/// Why a runner's configuration file could not be produced.
#[derive(Debug, Clone, Copy, PartialEq, Eq, Structural)]
pub enum RunnerError {
    /// The TOML serializer refused the configuration.
    ConfigSerialization,
}

/// One argument of a process: text, or a filesystem path passed as it is.
pub enum ProcessArg<'a> {
    Text(String),
    Path(&'a PathBuf),
}

/// A program and its arguments, ready to be spawned.
pub struct ProcessInvocation<'a> {
    pub program: String,
    pub args: Vec<ProcessArg<'a>>,
}

/// `arg` is the text `text`.
pub open spec fn is_text_arg(arg: ProcessArg, text: Seq<char>) -> bool {
    arg matches ProcessArg::Text(t) && t@ == text
}

/// `arg` is the path `path`.
pub open spec fn is_path_arg(arg: ProcessArg, path: PathBuf) -> bool {
    arg matches ProcessArg::Path(p) && *p == path
}

impl AquaticUdpRunner {
    pub fn new(socket_workers: usize, swarm_workers: usize) -> (runner: UdpRunner)
        ensures
            runner == UdpRunner::Aquatic(AquaticUdpRunner { socket_workers, swarm_workers }),
    {
        UdpRunner::Aquatic(AquaticUdpRunner { socket_workers, swarm_workers })
    }
}

impl OpenTrackerUdpRunner {
    pub fn new(workers: usize) -> (runner: UdpRunner)
        ensures
            runner == UdpRunner::OpenTracker(OpenTrackerUdpRunner { workers }),
    {
        UdpRunner::OpenTracker(OpenTrackerUdpRunner { workers })
    }

    /// The text of the opentracker configuration file.
    pub fn config_file(&self) -> (text: String)
        ensures
            text@ == opentracker_config_text(self.workers),
            opentracker_config_states_workers(text@, self.workers),
    {
        proof {
            lemma_opentracker_config_states_workers(self.workers);
        }
        let mut text = String::from_str("listen.udp.workers ");
        let workers = decimal_string(self.workers);
        text.append(workers.as_str());
        text.append("\nlisten.udp 0.0.0.0:3000\n");
        text
    }
}

impl AquaticUdpLoadTestRunner {
    pub fn new(workers: usize) -> (runner: UdpRunner)
        ensures
            runner == UdpRunner::LoadTest(AquaticUdpLoadTestRunner { workers }),
    {
        UdpRunner::LoadTest(AquaticUdpLoadTestRunner { workers })
    }

    /// The text of the load tester's configuration file: its default
    /// configuration, run for `LOAD_TEST_DURATION_SECONDS`, with this runner's
    /// worker count cut to a byte (`as u8`), as the configuration holds it in
    /// one. (Above 255 workers the file and `keys` therefore disagree.)
    pub fn config_file(&self) -> (r: Result<String, RunnerError>)
        ensures
            r matches Ok(text) && text@ == load_test_config_toml(self.workers as u8, LOAD_TEST_DURATION_SECONDS),
            r matches Ok(text) && text@ == load_test_config_toml((self.workers % 256) as u8, 60),
    {
        proof {
            lemma_load_test_config_values(self.workers);
        }
        match serialize_load_test_config(self.workers as u8, LOAD_TEST_DURATION_SECONDS) {
            Ok(text) => Ok(text),
            Err(_) => Err(RunnerError::ConfigSerialization),
        }
    }
}

/// A load test runs for a minute, and its configuration holds the worker
/// count modulo 256 (the count cut to a byte).
pub proof fn lemma_load_test_config_values(workers: usize)
    ensures
        LOAD_TEST_DURATION_SECONDS == 60,
        workers as u8 == (workers % 256) as u8,
        (workers as u8) as int == workers % 256,
{
    assert(workers as u8 == (workers % 256) as u8) by (bit_vector);
    assert((workers as u8) as int == workers % 256) by (bit_vector);
}

/// `value` is written in digits only and reads as `count`.
pub open spec fn reads_as(value: Seq<char>, count: usize) -> bool {
    &&& forall|i: int| 0 <= i < value.len() ==> is_digit(#[trigger] value[i])
    &&& digits_value(value) == count
}

/// The keys report the runner's worker counts: an aquatic_udp process its
/// socket and then its swarm workers, any other process its workers.
pub open spec fn keys_report_counts(runner: UdpRunner, keys: Seq<(Seq<char>, Seq<char>)>) -> bool {
    match runner {
        UdpRunner::Aquatic(r) => {
            &&& keys.len() == 2
            &&& keys[0].0 == "socket workers"@
            &&& reads_as(keys[0].1, r.socket_workers)
            &&& keys[1].0 == "swarm workers"@
            &&& reads_as(keys[1].1, r.swarm_workers)
        },
        UdpRunner::OpenTracker(r) => {
            &&& keys.len() == 1
            &&& keys[0].0 == "workers"@
            &&& reads_as(keys[0].1, r.workers)
        },
        UdpRunner::LoadTest(r) => {
            &&& keys.len() == 1
            &&& keys[0].0 == "workers"@
            &&& reads_as(keys[0].1, r.workers)
        },
    }
}

/// The opentracker configuration text consists of the line
/// `listen.udp.workers <count>` and the line `listen.udp 0.0.0.0:3000`, where
/// `<count>` reads back as `workers`.
pub open spec fn opentracker_config_states_workers(text: Seq<char>, workers: usize) -> bool {
    &&& text.len() >= 44
    &&& text.take(19) == "listen.udp.workers "@
    &&& text.skip(text.len() - 25) == "\nlisten.udp 0.0.0.0:3000\n"@
    &&& reads_as(text.subrange(19, text.len() - 25), workers)
}

/// The opentracker configuration file sets the worker count it is given,
/// and the tracker listens on UDP port 3000 of every address.
pub proof fn lemma_opentracker_config_states_workers(workers: usize)
    ensures
        opentracker_config_states_workers(opentracker_config_text(workers), workers),
{
    reveal_strlit("listen.udp.workers ");
    reveal_strlit("\nlisten.udp 0.0.0.0:3000\n");
    lemma_decimal_reads_back(workers as nat);
    let text = opentracker_config_text(workers);
    let digits = decimal(workers as nat);
    assert(digits.len() >= 1) by {
        crate::decimal::lemma_decimal_len(workers as nat);
    }
    assert(text.take(19) =~= "listen.udp.workers "@);
    assert(text.skip(text.len() - 25) =~= "\nlisten.udp 0.0.0.0:3000\n"@);
    assert(text.subrange(19, text.len() - 25) =~= digits);
}

/// The text of the opentracker configuration file for `workers` workers.
pub open spec fn opentracker_config_text(workers: usize) -> Seq<char> {
    "listen.udp.workers "@ + decimal(workers as nat) + "\nlisten.udp 0.0.0.0:3000\n"@
}

impl UdpRunner {
    /// The settings that identify this runner in the benchmark's results, in
    /// order: pairs of a setting's name and its value.
    pub open spec fn spec_keys(self) -> Seq<(Seq<char>, Seq<char>)> {
        match self {
            UdpRunner::Aquatic(r) => seq![
                ("socket workers"@, decimal(r.socket_workers as nat)),
                ("swarm workers"@, decimal(r.swarm_workers as nat)),
            ],
            UdpRunner::OpenTracker(r) => seq![("workers"@, decimal(r.workers as nat))],
            UdpRunner::LoadTest(r) => seq![("workers"@, decimal(r.workers as nat))],
        }
    }

    /// The binary that this runner starts, as given on the command line.
    pub open spec fn binary_path(self, command: UdpCommand) -> PathBuf {
        match self {
            UdpRunner::Aquatic(_) => command.aquatic,
            UdpRunner::OpenTracker(_) => command.opentracker,
            UdpRunner::LoadTest(_) => command.load_test,
        }
    }

    /// The option with which the binary takes its configuration file.
    pub open spec fn config_flag(self) -> Seq<char> {
        match self {
            UdpRunner::OpenTracker(_) => "-f"@,
            _ => "-c"@,
        }
    }

    /// A runner's keys name its worker counts, and each value reads back as the
    /// count itself, written in digits.
    pub proof fn lemma_keys_report_counts(self)
        ensures
            keys_report_counts(self, self.spec_keys()),
    {
        match self {
            UdpRunner::Aquatic(r) => {
                lemma_decimal_reads_back(r.socket_workers as nat);
                lemma_decimal_reads_back(r.swarm_workers as nat);
            },
            UdpRunner::OpenTracker(r) => lemma_decimal_reads_back(r.workers as nat),
            UdpRunner::LoadTest(r) => lemma_decimal_reads_back(r.workers as nat),
        }
    }

    /// Each kind of runner starts its own binary: aquatic_udp and the load
    /// tester take their configuration file with `-c`, opentracker with `-f`.
    pub proof fn lemma_each_runner_starts_its_binary(command: UdpCommand)
        ensures
            forall|r: UdpRunner| (r is Aquatic) ==> r.binary_path(command) == command.aquatic && r.config_flag() == seq!['-', 'c'],
            forall|r: UdpRunner| (r is OpenTracker) ==> r.binary_path(command) == command.opentracker && r.config_flag() == seq!['-', 'f'],
            forall|r: UdpRunner| (r is LoadTest) ==> r.binary_path(command) == command.load_test && r.config_flag() == seq!['-', 'c'],
    {
        reveal_strlit("-c");
        reveal_strlit("-f");
        assert("-c"@ =~= seq!['-', 'c']);
        assert("-f"@ =~= seq!['-', 'f']);
    }

    /// No setting is named twice among a runner's keys, so none overwrites another.
    pub proof fn lemma_key_names_distinct(self)
        ensures
            forall|i: int, j: int|
                0 <= i < j < self.spec_keys().len() ==> (#[trigger] self.spec_keys()[i]).0 != (
                #[trigger] self.spec_keys()[j]).0,
    {
        reveal_strlit("socket workers");
        reveal_strlit("swarm workers");
        assert("socket workers"@[1] != "swarm workers"@[1]);
    }

    pub fn keys(&self) -> (keys: IndexMap<String, String>)
        ensures
            text_table_entries(keys) == self.spec_keys(),
            keys_report_counts(*self, text_table_entries(keys)),
    {
        proof {
            self.lemma_keys_report_counts();
        }
        let mut keys = new_text_table();
        match self {
            UdpRunner::Aquatic(r) => {
                insert_text(&mut keys, String::from_str("socket workers"), decimal_string(r.socket_workers));
                proof {
                    reveal_strlit("socket workers");
                    reveal_strlit("swarm workers");
                    assert(entry_keys(text_table_entries(keys)) =~= seq!["socket workers"@]);
                    assert("socket workers"@[1] != "swarm workers"@[1]);
                }
                insert_text(&mut keys, String::from_str("swarm workers"), decimal_string(r.swarm_workers));
            },
            UdpRunner::OpenTracker(r) => {
                insert_text(&mut keys, String::from_str("workers"), decimal_string(r.workers));
            },
            UdpRunner::LoadTest(r) => {
                insert_text(&mut keys, String::from_str("workers"), decimal_string(r.workers));
            },
        }
        keys
    }

    /// The command that starts this runner: `taskset` pins the binary to the
    /// CPUs in `cpu_list` and hands it the configuration file at `config_path`.
    pub fn invocation<'a>(&self, command: &'a UdpCommand, cpu_list: &str, config_path: &'a PathBuf) -> (invocation:
        ProcessInvocation<'a>)
        ensures
            invocation.program@ == "taskset"@,
            invocation.args@.len() == 5,
            is_text_arg(invocation.args@[0], "--cpu-list"@),
            is_text_arg(invocation.args@[1], cpu_list@),
            is_path_arg(invocation.args@[2], self.binary_path(*command)),
            is_text_arg(invocation.args@[3], self.config_flag()),
            is_path_arg(invocation.args@[4], *config_path),
    {
        let (binary, flag) = match self {
            UdpRunner::Aquatic(_) => (&command.aquatic, String::from_str("-c")),
            UdpRunner::OpenTracker(_) => (&command.opentracker, String::from_str("-f")),
            UdpRunner::LoadTest(_) => (&command.load_test, String::from_str("-c")),
        };
        let args = vec![
            ProcessArg::Text(String::from_str("--cpu-list")),
            ProcessArg::Text(String::from_str(cpu_list)),
            ProcessArg::Path(binary),
            ProcessArg::Text(flag),
            ProcessArg::Path(config_path),
        ];
        ProcessInvocation { program: String::from_str("taskset"), args }
    }
}

} // verus!
