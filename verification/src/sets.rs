use vstd::prelude::*;

use std::path::PathBuf;

use indexmap::IndexMap;

use crate::decimal::decimal;
use crate::runner::{AquaticUdpLoadTestRunner, AquaticUdpRunner, OpenTrackerUdpRunner, UdpRunner};
use crate::table::{
    entry_keys, insert_run, insert_set, new_run_table, new_set_table, run_table_entries, set_table_entries,
    set_table_into_entries,
};
use crate::tracker::UdpTracker;

verus! {

/// How the CPUs that the benchmark's processes are pinned to are chosen. The
/// CPU lists themselves depend on the machine's topology and are worked out
/// by the caller from this mode and a process's worker count.
#[derive(Debug, Clone, Copy, PartialEq, Eq, Structural)]
pub enum CpuMode {
    Split,
    All,
}

/// One run of the load tester: its worker count, and the CPU mode by which
/// the CPUs it is pinned to are chosen.
#[derive(Debug, Clone, Copy, PartialEq, Eq, Structural)]
pub struct LoadTestRun {
    pub workers: usize,
    pub cpu_mode: CpuMode,
}

/// The tracker setups and load test runs of one benchmark set.
pub struct UdpSetConfig {
    /// For each tracker, the setups of it that are measured.
    pub implementations: Vec<(UdpTracker, Vec<UdpRunner>)>,
    /// The load test runs that each setup is measured with.
    pub load_test_runs: Vec<LoadTestRun>,
}

/// What a benchmark set holds, as values.
#[verifier::ext_equal]
pub struct UdpSetConfigView {
    pub implementations: Seq<(UdpTracker, Seq<UdpRunner>)>,
    pub load_test_runs: Seq<LoadTestRun>,
}

impl View for UdpSetConfig {
    type V = UdpSetConfigView;

    open spec fn view(&self) -> UdpSetConfigView {
        UdpSetConfigView {
            implementations: self.implementations@.map_values(
                |entry: (UdpTracker, Vec<UdpRunner>)| (entry.0, entry.1@),
            ),
            load_test_runs: self.load_test_runs@,
        }
    }
}

/// A benchmark set as it is run: its tracker setups, and its load test runs,
/// each with the load tester process that performs it.
pub struct UdpSetRun {
    pub implementations: Vec<(UdpTracker, Vec<UdpRunner>)>,
    pub load_tests: Vec<(LoadTestRun, UdpRunner)>,
}

/// What a benchmark set as it is run holds, as values.
#[verifier::ext_equal]
pub struct UdpSetRunView {
    pub implementations: Seq<(UdpTracker, Seq<UdpRunner>)>,
    pub load_tests: Seq<(LoadTestRun, UdpRunner)>,
}

impl View for UdpSetRun {
    type V = UdpSetRunView;

    open spec fn view(&self) -> UdpSetRunView {
        UdpSetRunView {
            implementations: self.implementations@.map_values(
                |entry: (UdpTracker, Vec<UdpRunner>)| (entry.0, entry.1@),
            ),
            load_tests: self.load_tests@,
        }
    }
}

/// The load tester process for a load test run: aquatic_udp_load_test with
/// the run's worker count.
pub open spec fn load_test_runner_for(run: LoadTestRun) -> UdpRunner {
    UdpRunner::LoadTest(AquaticUdpLoadTestRunner { workers: run.workers })
}

/// A set as it is run: its setups, and each load test run with its runner.
pub open spec fn set_run_of(set: UdpSetConfigView) -> UdpSetRunView {
    UdpSetRunView {
        implementations: set.implementations,
        load_tests: set.load_test_runs.map_values(|r: LoadTestRun| (r, load_test_runner_for(r))),
    }
}

/// The binaries that the UDP benchmark starts.
pub struct UdpCommand {
    /// Path to the aquatic_udp_load_test binary
    pub load_test: PathBuf,
    /// Path to the aquatic_udp binary
    pub aquatic: PathBuf,
    /// Path to the opentracker binary
    pub opentracker: PathBuf,
}

/// The load test runs for the given worker counts, in the same order.
pub open spec fn spec_load_test_runs(cpu_mode: CpuMode, workers: Seq<usize>) -> Seq<LoadTestRun> {
    workers.map_values(|w: usize| LoadTestRun { workers: w, cpu_mode })
}

/// An aquatic_udp process with the given socket and swarm worker counts.
pub open spec fn aquatic_runner(workers: (usize, usize)) -> UdpRunner {
    UdpRunner::Aquatic(AquaticUdpRunner { socket_workers: workers.0, swarm_workers: workers.1 })
}

/// An opentracker process with the given worker count.
pub open spec fn opentracker_runner(workers: usize) -> UdpRunner {
    UdpRunner::OpenTracker(OpenTrackerUdpRunner { workers })
}

/// A set that measures aquatic_udp with each of the given (socket, swarm)
/// worker counts and opentracker with each of the given worker counts, each
/// against load tests with each of the given worker counts.
pub open spec fn spec_set(
    aquatic: Seq<(usize, usize)>,
    opentracker: Seq<usize>,
    load_test_workers: Seq<usize>,
    cpu_mode: CpuMode,
) -> UdpSetConfigView {
    UdpSetConfigView {
        implementations: seq![
            (UdpTracker::Aquatic, aquatic.map_values(|w: (usize, usize)| aquatic_runner(w))),
            (UdpTracker::OpenTracker, opentracker.map_values(|w: usize| opentracker_runner(w))),
        ],
        load_test_runs: spec_load_test_runs(cpu_mode, load_test_workers),
    }
}

/// The benchmark's sets, keyed by the number of CPU cores that each is meant
/// for, in order. (opentracker with 0 workers handles requests within its
/// event loop.)
pub open spec fn udp_set_table(m: CpuMode) -> Seq<(usize, UdpSetConfigView)> {
    seq![
        (1, spec_set(seq![(1, 1)], seq![0, 1, 2], seq![1, 2, 4, 6], m)),
        (2, spec_set(seq![(1, 1), (2, 1), (3, 1)], seq![2, 4], seq![1, 2, 4, 6], m)),
        (3, spec_set(seq![(2, 1), (3, 1)], seq![3, 6], seq![4, 6, 8], m)),
        (4, spec_set(seq![(3, 1), (6, 1)], seq![4, 8], seq![4, 6, 8], m)),
        (6, spec_set(seq![(5, 1), (10, 1), (4, 2), (8, 2)], seq![6, 12], seq![4, 6, 8, 12], m)),
        (8, spec_set(seq![(7, 1), (14, 1), (6, 2), (12, 2)], seq![8, 16], seq![4, 8, 12], m)),
        (12, spec_set(
            seq![(11, 1), (22, 1), (10, 2), (20, 2), (9, 3), (18, 3)],
            seq![12, 24],
            seq![4, 8, 12, 16],
            m,
        )),
        (16, spec_set(
            seq![(15, 1), (30, 1), (15, 2), (30, 2), (13, 3), (26, 3), (12, 4), (24, 4)],
            seq![16, 32],
            seq![4, 8, 12, 16],
            m,
        )),
    ]
}

/// Whether a set meant for `cores` cores lies within the optional bounds.
pub open spec fn within_core_limits(cores: usize, min_cores: Option<usize>, max_cores: Option<usize>) -> bool {
    &&& (min_cores matches Some(min) ==> cores >= min)
    &&& (max_cores matches Some(max) ==> cores <= max)
}

/// The sets of the table whose core counts lie within the bounds, in order.
pub open spec fn sets_within(
    table: Seq<(usize, UdpSetConfigView)>,
    min_cores: Option<usize>,
    max_cores: Option<usize>,
) -> Seq<(usize, UdpSetConfigView)> {
    table.filter(|e: (usize, UdpSetConfigView)| within_core_limits(e.0, min_cores, max_cores))
}

/// The load tester process of a load test run reports the run's worker count
/// as its one setting, `workers`.
pub proof fn lemma_load_test_runner_keys(run: LoadTestRun)
    ensures
        load_test_runner_for(run).spec_keys() == seq![("workers"@, decimal(run.workers as nat))],
{
}

/// The (socket, swarm) worker counts of a list of aquatic_udp setups; any
/// other process counts as (0, 0).
pub open spec fn aquatic_worker_counts(setups: Seq<UdpRunner>) -> Seq<(usize, usize)> {
    setups.map_values(
        |r: UdpRunner|
            match r {
                UdpRunner::Aquatic(a) => (a.socket_workers, a.swarm_workers),
                _ => (0, 0),
            },
    )
}

/// The worker counts of a list of opentracker setups; any other process
/// counts as 0.
pub open spec fn opentracker_worker_counts(setups: Seq<UdpRunner>) -> Seq<usize> {
    setups.map_values(
        |r: UdpRunner|
            match r {
                UdpRunner::OpenTracker(o) => o.workers,
                _ => 0,
            },
    )
}

/// The table holds a set for `cores` cores that measures aquatic_udp with the
/// given (socket, swarm) worker counts and opentracker with the given worker
/// counts, against load tests with the given worker counts in `cpu_mode`.
pub open spec fn set_measures(
    table: Seq<(usize, UdpSetConfigView)>,
    cores: usize,
    aquatic: Seq<(usize, usize)>,
    opentracker: Seq<usize>,
    load_test_workers: Seq<usize>,
    cpu_mode: CpuMode,
) -> bool {
    exists|i: int|
        0 <= i < table.len() && #[trigger] table[i].0 == cores && {
            let set = table[i].1;
            &&& set.implementations.len() == 2
            &&& set.implementations[0].0 == UdpTracker::Aquatic
            &&& set.implementations[1].0 == UdpTracker::OpenTracker
            &&& forall|j: int|
                0 <= j < set.implementations[0].1.len() ==> (#[trigger] set.implementations[0].1[j]) is Aquatic
            &&& forall|j: int|
                0 <= j < set.implementations[1].1.len() ==> (#[trigger] set.implementations[1].1[j]) is OpenTracker
            &&& aquatic_worker_counts(set.implementations[0].1) == aquatic
            &&& opentracker_worker_counts(set.implementations[1].1) == opentracker
            &&& set.load_test_runs.len() == load_test_workers.len()
            &&& forall|j: int|
                0 <= j < load_test_workers.len() ==> (#[trigger] set.load_test_runs[j]).workers
                    == load_test_workers[j] && set.load_test_runs[j].cpu_mode == cpu_mode
        }
}

/// What each set of the table measures, core count by core count: the
/// aquatic_udp setups as (socket, swarm) worker counts, the opentracker
/// setups as worker counts (0: requests handled within the event loop), and
/// the load tests' worker counts; and there are no other sets.
pub proof fn lemma_set_table_contents(cpu_mode: CpuMode)
    ensures
        entry_keys(udp_set_table(cpu_mode)) == seq![1usize, 2, 3, 4, 6, 8, 12, 16],
        set_measures(udp_set_table(cpu_mode), 1, seq![(1, 1)], seq![0, 1, 2], seq![1, 2, 4, 6], cpu_mode),
        set_measures(udp_set_table(cpu_mode), 2, seq![(1, 1), (2, 1), (3, 1)], seq![2, 4], seq![1, 2, 4, 6], cpu_mode),
        set_measures(udp_set_table(cpu_mode), 3, seq![(2, 1), (3, 1)], seq![3, 6], seq![4, 6, 8], cpu_mode),
        set_measures(udp_set_table(cpu_mode), 4, seq![(3, 1), (6, 1)], seq![4, 8], seq![4, 6, 8], cpu_mode),
        set_measures(udp_set_table(cpu_mode), 6, seq![(5, 1), (10, 1), (4, 2), (8, 2)], seq![6, 12], seq![4, 6, 8, 12], cpu_mode),
        set_measures(udp_set_table(cpu_mode), 8, seq![(7, 1), (14, 1), (6, 2), (12, 2)], seq![8, 16], seq![4, 8, 12], cpu_mode),
        set_measures(udp_set_table(cpu_mode), 12, seq![(11, 1), (22, 1), (10, 2), (20, 2), (9, 3), (18, 3)], seq![12, 24], seq![4, 8, 12, 16], cpu_mode),
        set_measures(udp_set_table(cpu_mode), 16, seq![(15, 1), (30, 1), (15, 2), (30, 2), (13, 3), (26, 3), (12, 4), (24, 4)], seq![16, 32], seq![4, 8, 12, 16], cpu_mode),
{
    let t = udp_set_table(cpu_mode);
    assert(entry_keys(t) =~= seq![1usize, 2, 3, 4, 6, 8, 12, 16]);
    assert(t[0].0 == 1);
    assert(aquatic_worker_counts(t[0].1.implementations[0].1) =~= seq![(1, 1)]);
    assert(opentracker_worker_counts(t[0].1.implementations[1].1) =~= seq![0, 1, 2]);
    assert(t[1].0 == 2);
    assert(aquatic_worker_counts(t[1].1.implementations[0].1) =~= seq![(1, 1), (2, 1), (3, 1)]);
    assert(opentracker_worker_counts(t[1].1.implementations[1].1) =~= seq![2, 4]);
    assert(t[2].0 == 3);
    assert(aquatic_worker_counts(t[2].1.implementations[0].1) =~= seq![(2, 1), (3, 1)]);
    assert(opentracker_worker_counts(t[2].1.implementations[1].1) =~= seq![3, 6]);
    assert(t[3].0 == 4);
    assert(aquatic_worker_counts(t[3].1.implementations[0].1) =~= seq![(3, 1), (6, 1)]);
    assert(opentracker_worker_counts(t[3].1.implementations[1].1) =~= seq![4, 8]);
    assert(t[4].0 == 6);
    assert(aquatic_worker_counts(t[4].1.implementations[0].1) =~= seq![(5, 1), (10, 1), (4, 2), (8, 2)]);
    assert(opentracker_worker_counts(t[4].1.implementations[1].1) =~= seq![6, 12]);
    assert(t[5].0 == 8);
    assert(aquatic_worker_counts(t[5].1.implementations[0].1) =~= seq![(7, 1), (14, 1), (6, 2), (12, 2)]);
    assert(opentracker_worker_counts(t[5].1.implementations[1].1) =~= seq![8, 16]);
    assert(t[6].0 == 12);
    assert(aquatic_worker_counts(t[6].1.implementations[0].1) =~= seq![(11, 1), (22, 1), (10, 2), (20, 2), (9, 3), (18, 3)]);
    assert(opentracker_worker_counts(t[6].1.implementations[1].1) =~= seq![12, 24]);
    assert(t[7].0 == 16);
    assert(aquatic_worker_counts(t[7].1.implementations[0].1) =~= seq![(15, 1), (30, 1), (15, 2), (30, 2), (13, 3), (26, 3), (12, 4), (24, 4)]);
    assert(opentracker_worker_counts(t[7].1.implementations[1].1) =~= seq![16, 32]);
}

/// The sets within the bounds, in order, as they are run.
pub open spec fn selected_runs(
    table: Seq<(usize, UdpSetConfigView)>,
    min_cores: Option<usize>,
    max_cores: Option<usize>,
) -> Seq<(usize, UdpSetRunView)> {
    sets_within(table, min_cores, max_cores).map_values(
        |e: (usize, UdpSetConfigView)| (e.0, set_run_of(e.1)),
    )
}

/// The keys of the entries strictly increase.
pub open spec fn keys_increasing<V>(entries: Seq<(usize, V)>) -> bool {
    forall|i: int, j: int| 0 <= i < j < entries.len() ==> entries[i].0 < entries[j].0
}

/// Every set of the table measures aquatic_udp and then opentracker, each in
/// at least one setup, each setup a process of that tracker, with at least
/// one load test run, all in the given CPU mode; the core counts increase.
pub proof fn lemma_set_table_well_formed(cpu_mode: CpuMode)
    ensures
        keys_increasing(udp_set_table(cpu_mode)),
        forall|i: int|
            0 <= i < udp_set_table(cpu_mode).len() ==> set_well_formed(
                #[trigger] udp_set_table(cpu_mode)[i].1,
                cpu_mode,
            ),
{
    let t = udp_set_table(cpu_mode);
    assert forall|i: int| 0 <= i < t.len() implies set_well_formed(#[trigger] t[i].1, cpu_mode) by {
        let v = t[i].1;
        assert(v.load_test_runs.len() > 0);
        assert(forall|j: int| 0 <= j < v.load_test_runs.len() ==> (#[trigger] v.load_test_runs[j]).cpu_mode == cpu_mode);
    }
}

/// A set measures aquatic_udp and then opentracker, each in at least one
/// setup, each setup a process of that tracker, with at least one load test
/// run, all in `cpu_mode`.
pub open spec fn set_well_formed(set: UdpSetConfigView, cpu_mode: CpuMode) -> bool {
    &&& set.implementations.len() == 2
    &&& set.implementations[0].0 == UdpTracker::Aquatic
    &&& set.implementations[1].0 == UdpTracker::OpenTracker
    &&& set.implementations[0].1.len() > 0
    &&& set.implementations[1].1.len() > 0
    &&& forall|j: int|
        0 <= j < set.implementations[0].1.len() ==> (#[trigger] set.implementations[0].1[j]) is Aquatic
    &&& forall|j: int|
        0 <= j < set.implementations[1].1.len() ==> (#[trigger] set.implementations[1].1[j]) is OpenTracker
    &&& set.load_test_runs.len() > 0
    &&& forall|j: int| 0 <= j < set.load_test_runs.len() ==> (#[trigger] set.load_test_runs[j]).cpu_mode == cpu_mode
}

/// Without bounds, every set is selected.
pub proof fn lemma_sets_within_unbounded(table: Seq<(usize, UdpSetConfigView)>)
    ensures
        sets_within(table, None, None) == table,
    decreases table.len(),
{
    reveal(Seq::filter);
    if table.len() > 0 {
        lemma_sets_within_unbounded(table.drop_last());
        assert(table.drop_last().push(table.last()) =~= table);
    }
}

/// Selecting by both bounds at once is selecting by the lower bound and then,
/// among what is left, by the upper bound.
pub proof fn lemma_sets_within_in_stages(
    table: Seq<(usize, UdpSetConfigView)>,
    min_cores: Option<usize>,
    max_cores: Option<usize>,
)
    ensures
        sets_within(table, min_cores, max_cores) == sets_within(
            sets_within(table, min_cores, None),
            None,
            max_cores,
        ),
    decreases table.len(),
{
    reveal(Seq::filter);
    if table.len() > 0 {
        lemma_sets_within_in_stages(table.drop_last(), min_cores, max_cores);
        let lower = sets_within(table, min_cores, None);
        if within_core_limits(table.last().0, min_cores, None) {
            assert(lower.drop_last() == sets_within(table.drop_last(), min_cores, None));
        }
    }
}

/// The selected sets are exactly the sets of the table within the bounds:
/// each selected set lies within them and comes from the table, each set of
/// the table within them is selected, and the core counts still increase.
pub proof fn lemma_sets_within_selects(
    table: Seq<(usize, UdpSetConfigView)>,
    min_cores: Option<usize>,
    max_cores: Option<usize>,
)
    requires
        keys_increasing(table),
    ensures
        ({
            let selected = sets_within(table, min_cores, max_cores);
            &&& keys_increasing(selected)
            &&& forall|i: int|
                0 <= i < selected.len() ==> within_core_limits((#[trigger] selected[i]).0, min_cores, max_cores)
                    && table.contains(selected[i])
            &&& forall|i: int|
                0 <= i < table.len() && within_core_limits((#[trigger] table[i]).0, min_cores, max_cores)
                    ==> selected.contains(table[i])
        }),
    decreases table.len(),
{
    reveal(Seq::filter);
    let selected = sets_within(table, min_cores, max_cores);
    if table.len() > 0 {
        let rest = table.drop_last();
        lemma_sets_within_selects(rest, min_cores, max_cores);
        let before = sets_within(rest, min_cores, max_cores);
        assert forall|i: int| 0 <= i < before.len() implies (#[trigger] before[i]).0 < table.last().0 by {
            let k = choose|k: int| 0 <= k < rest.len() && rest[k] == before[i];
            assert(table[k] == rest[k]);
        }
        assert forall|i: int|
            0 <= i < table.len() && within_core_limits((#[trigger] table[i]).0, min_cores, max_cores) implies selected.contains(
            table[i]) by {
            if i < table.len() - 1 {
                assert(rest[i] == table[i]);
                let k = choose|k: int| 0 <= k < before.len() && before[k] == rest[i];
                assert(selected[k] == before[k]);
            } else {
                assert(selected[selected.len() - 1] == table[i]);
            }
        }
        assert forall|i: int| 0 <= i < selected.len() implies within_core_limits(
            (#[trigger] selected[i]).0,
            min_cores,
            max_cores,
        ) && table.contains(selected[i]) by {
            if i < before.len() {
                assert(selected[i] == before[i]);
                let k = choose|k: int| 0 <= k < rest.len() && rest[k] == before[i];
                assert(table[k] == rest[k]);
            } else {
                assert(selected[i] == table.last());
                assert(table[table.len() - 1] == table.last());
            }
        }
    }
}

/// Both bounds are inclusive and an absent bound does not restrict: a set is
/// selected exactly when its core count is at least the lower bound (if any)
/// and at most the upper bound (if any).
pub proof fn lemma_selection_bounds_inclusive(
    table: Seq<(usize, UdpSetConfigView)>,
    min_cores: Option<usize>,
    max_cores: Option<usize>,
)
    requires
        keys_increasing(table),
    ensures
        ({
            let selected = sets_within(table, min_cores, max_cores);
            &&& forall|i: int|
                0 <= i < selected.len() ==> (min_cores matches Some(lo) ==> (#[trigger] selected[i]).0 >= lo) && (
                max_cores matches Some(hi) ==> selected[i].0 <= hi)
            &&& forall|i: int|
                0 <= i < table.len() ==> (selected.contains(#[trigger] table[i]) <==> ((min_cores is None
                    || table[i].0 >= min_cores->0) && (max_cores is None || table[i].0 <= max_cores->0)))
        }),
{
    lemma_sets_within_selects(table, min_cores, max_cores);
    let selected = sets_within(table, min_cores, max_cores);
    assert forall|i: int| 0 <= i < table.len() implies (selected.contains(#[trigger] table[i]) <==> ((
    min_cores is None || table[i].0 >= min_cores->0) && (max_cores is None || table[i].0 <= max_cores->0))) by {
        if selected.contains(table[i]) {
            let k = choose|k: int| 0 <= k < selected.len() && selected[k] == table[i];
            assert(within_core_limits(selected[k].0, min_cores, max_cores));
        }
    }
}

/// A set is run with its own setups, and each of its load test runs, in
/// order, with an aquatic_udp_load_test process of the run's worker count.
pub proof fn lemma_set_run_pairs_load_testers(set: UdpSetConfigView)
    ensures
        set_run_of(set).implementations == set.implementations,
        set_run_of(set).load_tests.len() == set.load_test_runs.len(),
        forall|j: int|
            0 <= j < set.load_test_runs.len() ==> (#[trigger] set_run_of(set).load_tests[j]).0
                == set.load_test_runs[j] && set_run_of(set).load_tests[j].1 == (UdpRunner::LoadTest(
                AquaticUdpLoadTestRunner { workers: set.load_test_runs[j].workers },
            )),
{
}

/// One load test run for each worker count, in order.
pub fn simple_load_test_runs(cpu_mode: CpuMode, workers: &[usize]) -> (runs: Vec<LoadTestRun>)
    ensures
        runs@ == spec_load_test_runs(cpu_mode, workers@),
        runs@.len() == workers@.len(),
        forall|i: int|
            0 <= i < workers@.len() ==> #[trigger] runs@[i] == (LoadTestRun { workers: workers@[i], cpu_mode }),
{
    let mut runs: Vec<LoadTestRun> = Vec::new();
    for i in 0..workers.len()
        invariant
            runs@ == spec_load_test_runs(cpu_mode, workers@.take(i as int)),
    {
        runs.push(LoadTestRun { workers: workers[i], cpu_mode });
        assert(workers@.take(i + 1) =~= workers@.take(i as int).push(workers@[i as int]));
    }
    assert(workers@.take(workers@.len() as int) =~= workers@);
    runs
}

/// An aquatic_udp runner for each pair of (socket, swarm) worker counts, in order.
fn aquatic_runners(workers: &[(usize, usize)]) -> (runners: Vec<UdpRunner>)
    ensures
        runners@ == workers@.map_values(|w: (usize, usize)| aquatic_runner(w)),
{
    let mut runners: Vec<UdpRunner> = Vec::new();
    for i in 0..workers.len()
        invariant
            runners@ == workers@.take(i as int).map_values(|w: (usize, usize)| aquatic_runner(w)),
    {
        let (socket_workers, swarm_workers) = workers[i];
        runners.push(AquaticUdpRunner::new(socket_workers, swarm_workers));
        assert(workers@.take(i + 1) =~= workers@.take(i as int).push(workers@[i as int]));
    }
    assert(workers@.take(workers@.len() as int) =~= workers@);
    runners
}

/// An opentracker runner for each worker count, in order.
fn opentracker_runners(workers: &[usize]) -> (runners: Vec<UdpRunner>)
    ensures
        runners@ == workers@.map_values(|w: usize| opentracker_runner(w)),
{
    let mut runners: Vec<UdpRunner> = Vec::new();
    for i in 0..workers.len()
        invariant
            runners@ == workers@.take(i as int).map_values(|w: usize| opentracker_runner(w)),
    {
        runners.push(OpenTrackerUdpRunner::new(workers[i]));
        assert(workers@.take(i + 1) =~= workers@.take(i as int).push(workers@[i as int]));
    }
    assert(workers@.take(workers@.len() as int) =~= workers@);
    runners
}

fn set_config(
    aquatic: &[(usize, usize)],
    opentracker: &[usize],
    load_test_workers: &[usize],
    cpu_mode: CpuMode,
) -> (config: UdpSetConfig)
    ensures
        config@ == spec_set(aquatic@, opentracker@, load_test_workers@, cpu_mode),
{
    let implementations = vec![
        (UdpTracker::Aquatic, aquatic_runners(aquatic)),
        (UdpTracker::OpenTracker, opentracker_runners(opentracker)),
    ];
    let config = UdpSetConfig {
        implementations,
        load_test_runs: simple_load_test_runs(cpu_mode, load_test_workers),
    };
    assert(config@.implementations =~= spec_set(aquatic@, opentracker@, load_test_workers@, cpu_mode).implementations);
    config
}

impl UdpCommand {
    /// The benchmark's sets, keyed by the number of CPU cores each is meant for.
    pub fn sets(&self, cpu_mode: CpuMode) -> (sets: IndexMap<usize, UdpSetConfig>)
        ensures
            set_table_entries(sets) == udp_set_table(cpu_mode),
    {
        let mut sets = new_set_table();
        insert_set(&mut sets, 1, set_config(&[(1, 1)], &[0, 1, 2], &[1, 2, 4, 6], cpu_mode));
        assert(entry_keys(set_table_entries(sets)) =~= seq![1usize]);
        insert_set(&mut sets, 2, set_config(&[(1, 1), (2, 1), (3, 1)], &[2, 4], &[1, 2, 4, 6], cpu_mode));
        assert(entry_keys(set_table_entries(sets)) =~= seq![1usize, 2]);
        insert_set(&mut sets, 3, set_config(&[(2, 1), (3, 1)], &[3, 6], &[4, 6, 8], cpu_mode));
        assert(entry_keys(set_table_entries(sets)) =~= seq![1usize, 2, 3]);
        insert_set(&mut sets, 4, set_config(&[(3, 1), (6, 1)], &[4, 8], &[4, 6, 8], cpu_mode));
        assert(entry_keys(set_table_entries(sets)) =~= seq![1usize, 2, 3, 4]);
        insert_set(
            &mut sets,
            6,
            set_config(&[(5, 1), (10, 1), (4, 2), (8, 2)], &[6, 12], &[4, 6, 8, 12], cpu_mode),
        );
        assert(entry_keys(set_table_entries(sets)) =~= seq![1usize, 2, 3, 4, 6]);
        insert_set(
            &mut sets,
            8,
            set_config(&[(7, 1), (14, 1), (6, 2), (12, 2)], &[8, 16], &[4, 8, 12], cpu_mode),
        );
        assert(entry_keys(set_table_entries(sets)) =~= seq![1usize, 2, 3, 4, 6, 8]);
        insert_set(
            &mut sets,
            12,
            set_config(
                &[(11, 1), (22, 1), (10, 2), (20, 2), (9, 3), (18, 3)],
                &[12, 24],
                &[4, 8, 12, 16],
                cpu_mode,
            ),
        );
        assert(entry_keys(set_table_entries(sets)) =~= seq![1usize, 2, 3, 4, 6, 8, 12]);
        insert_set(
            &mut sets,
            16,
            set_config(
                &[(15, 1), (30, 1), (15, 2), (30, 2), (13, 3), (26, 3), (12, 4), (24, 4)],
                &[16, 32],
                &[4, 8, 12, 16],
                cpu_mode,
            ),
        );
        assert(set_table_entries(sets) =~~= udp_set_table(cpu_mode));
        sets
    }

    /// The sets that the benchmark runs: those of `sets` whose core counts are
    /// at least `min_cores` and at most `max_cores` (a bound that is absent
    /// does not restrict), in their order, each load test run paired with the
    /// load tester process that performs it. Running them is left to the
    /// caller.
    pub fn run(&self, cpu_mode: CpuMode, min_cores: Option<usize>, max_cores: Option<usize>) -> (selected:
        IndexMap<usize, UdpSetRun>)
        ensures
            run_table_entries(selected) == selected_runs(udp_set_table(cpu_mode), min_cores, max_cores),
    {
        let entries = set_table_into_entries(self.sets(cpu_mode));
        let ghost table = udp_set_table(cpu_mode);
        let ghost pred = |e: (usize, UdpSetConfigView)| within_core_limits(e.0, min_cores, max_cores);
        let ghost as_run = |e: (usize, UdpSetConfigView)| (e.0, set_run_of(e.1));
        proof {
            lemma_set_table_well_formed(cpu_mode);
        }
        let mut selected = new_run_table();
        for entry in iter: entries.into_iter()
            invariant
                iter.seq().map_values(|e: (usize, UdpSetConfig)| (e.0, e.1@)) == table,
                keys_increasing(table),
                pred == (|e: (usize, UdpSetConfigView)| within_core_limits(e.0, min_cores, max_cores)),
                as_run == (|e: (usize, UdpSetConfigView)| (e.0, set_run_of(e.1))),
                run_table_entries(selected) == table.take(iter.index() as int).filter(pred).map_values(as_run),
                iter.index() > 0 ==> forall|j: int|
                    0 <= j < run_table_entries(selected).len() ==> run_table_entries(selected)[j].0
                        <= table[iter.index() - 1].0,
        {
            let ghost k = iter.index() as int;
            let ghost before = run_table_entries(selected);
            assert(table[k] == (entry.0, entry.1@));
            proof {
                reveal_with_fuel(Seq::<_>::filter, 1);
                assert(table.take(k + 1).drop_last() =~= table.take(k));
            }
            let (cores, config) = entry;
            let keep = match (min_cores, max_cores) {
                (Some(min), _) if cores < min => false,
                (_, Some(max)) if cores > max => false,
                _ => true,
            };
            if keep {
                assert(!entry_keys(before).contains(cores)) by {
                    if entry_keys(before).contains(cores) {
                        let j = choose|j: int| 0 <= j < entry_keys(before).len() && entry_keys(before)[j] == cores;
                        assert(before[j].0 == cores);
                    }
                }
                insert_run(&mut selected, cores, with_load_test_runners(config));
                assert(run_table_entries(selected) =~= table.take(k + 1).filter(pred).map_values(as_run));
            }
        }
        assert(table.take(table.len() as int) =~= table);
        selected
    }
}

/// The set's load test runs, each paired with the load tester process that
/// performs it.
fn with_load_test_runners(config: UdpSetConfig) -> (set: UdpSetRun)
    ensures
        set@ == set_run_of(config@),
{
    let UdpSetConfig { implementations, load_test_runs } = config;
    let ghost runs = load_test_runs@;
    let mut load_tests: Vec<(LoadTestRun, UdpRunner)> = Vec::new();
    for i in 0..load_test_runs.len()
        invariant
            runs == load_test_runs@,
            load_tests@ =~= runs.take(i as int).map_values(|r: LoadTestRun| (r, load_test_runner_for(r))),
    {
        let run = load_test_runs[i];
        load_tests.push((run, AquaticUdpLoadTestRunner::new(run.workers)));
        assert(runs.take(i + 1) =~= runs.take(i as int).push(run));
    }
    assert(runs.take(runs.len() as int) =~= runs);
    UdpSetRun { implementations, load_tests }
}

} // verus!
