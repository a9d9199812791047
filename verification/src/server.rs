use vstd::prelude::*;

use crate::decimal::{
    decimal, decimal_string, digit_value, digits_value, is_digit, lemma_decimal_injective, lemma_decimal_len,
    lemma_decimal_no_leading_zero, lemma_decimal_reads_back,
};

verus! {

/// A thread that the tracker starts besides its main thread.
#[derive(Debug, Clone, Copy, PartialEq, Eq, Structural)]
pub enum WorkerThread {
    /// The request worker with the given index, which handles the requests
    /// that reach it over its own channel.
    Request(usize),
    /// The socket worker with the given index, which owns a socket and
    /// forwards requests to the request workers.
    Socket(usize),
    /// The thread that gathers and prints statistics at the configured interval.
    StatisticsCollector,
}

/// The threads that the tracker starts, in the order it starts them: every
/// request worker, then every socket worker, then, unless the statistics
/// interval is zero, the statistics collector.
pub open spec fn spec_startup_plan(request_workers: nat, socket_workers: nat, statistics_interval: u64) -> Seq<
    WorkerThread,
> {
    Seq::new(request_workers, |i: int| WorkerThread::Request(i as usize)) + Seq::new(
        socket_workers,
        |i: int| WorkerThread::Socket(i as usize),
    ) + if statistics_interval != 0 {
        seq![WorkerThread::StatisticsCollector]
    } else {
        Seq::empty()
    }
}

/// `n` in decimal, padded with a leading zero to at least two digits.
pub open spec fn two_digits(n: nat) -> Seq<char> {
    if n < 10 {
        "0"@ + decimal(n)
    } else {
        decimal(n)
    }
}

impl WorkerThread {
    /// Whether the thread's name can be formed: worker indices are numbered
    /// from one in names, so the index must leave room for that.
    pub open spec fn nameable(self) -> bool {
        match self {
            WorkerThread::Request(i) => i < usize::MAX,
            WorkerThread::Socket(i) => i < usize::MAX,
            WorkerThread::StatisticsCollector => true,
        }
    }

    /// The thread's name: workers are numbered from one, with two digits at least.
    pub open spec fn spec_name(self) -> Seq<char> {
        match self {
            WorkerThread::Request(i) => "request-"@ + two_digits((i + 1) as nat),
            WorkerThread::Socket(i) => "socket-"@ + two_digits((i + 1) as nat),
            WorkerThread::StatisticsCollector => "statistics-collector"@,
        }
    }

    pub fn name(&self) -> (name: String)
        requires
            self.nameable(),
        ensures
            name@ == self.spec_name(),
    {
        match self {
            WorkerThread::Request(i) => numbered_name("request-", *i + 1),
            WorkerThread::Socket(i) => numbered_name("socket-", *i + 1),
            WorkerThread::StatisticsCollector => String::from_str("statistics-collector"),
        }
    }
}

fn numbered_name(prefix: &str, number: usize) -> (name: String)
    ensures
        name@ == prefix@ + two_digits(number as nat),
{
    let mut name = String::from_str(prefix);
    if number < 10 {
        name.append("0");
    }
    let digits = decimal_string(number);
    name.append(digits.as_str());
    proof {
        if number < 10 {
            assert(name@ =~= prefix@ + ("0"@ + decimal(number as nat)));
        }
    }
    name
}

/// Different positive numbers have different padded notations.
pub proof fn lemma_two_digits_injective(a: nat, b: nat)
    requires
        a >= 1,
        b >= 1,
        two_digits(a) == two_digits(b),
    ensures
        a == b,
{
    lemma_decimal_len(a);
    lemma_decimal_len(b);
    reveal_strlit("0");
    if a < 10 && b < 10 {
        assert(two_digits(a).drop_first() =~= decimal(a));
        assert(two_digits(b).drop_first() =~= decimal(b));
        lemma_decimal_injective(a, b);
    } else if a < 10 {
        lemma_decimal_no_leading_zero(b);
        assert(two_digits(a)[0] == '0');
    } else if b < 10 {
        lemma_decimal_no_leading_zero(a);
        assert(two_digits(b)[0] == '0');
    } else {
        lemma_decimal_injective(a, b);
    }
}

/// The number in a padded notation reads back as the number.
proof fn lemma_two_digits_reads_back(n: nat)
    ensures
        digits_value(two_digits(n)) == n,
        forall|i: int| 0 <= i < two_digits(n).len() ==> is_digit(#[trigger] two_digits(n)[i]),
{
    lemma_decimal_reads_back(n);
    reveal_strlit("0");
    if n < 10 {
        lemma_leading_zero_reads_nothing(decimal(n));
        assert forall|i: int| 0 <= i < two_digits(n).len() implies is_digit(#[trigger] two_digits(n)[i]) by {
            if i > 0 {
                assert(two_digits(n)[i] == decimal(n)[i - 1]);
            }
        }
    }
}

/// A leading zero adds nothing to the value of a string of digits.
proof fn lemma_leading_zero_reads_nothing(s: Seq<char>)
    ensures
        digits_value("0"@ + s) == digits_value(s),
    decreases s.len(),
{
    reveal_strlit("0");
    let t = "0"@ + s;
    if s.len() == 0 {
        assert(t.drop_last() =~= Seq::<char>::empty());
        assert(t.last() == '0');
        assert(digits_value(t.drop_last()) == 0);
        assert(digits_value(t) == digits_value(t.drop_last()) * 10 + digit_value(t.last()));
    } else {
        lemma_leading_zero_reads_nothing(s.drop_last());
        assert(t.drop_last() =~= "0"@ + s.drop_last());
        assert(t.last() == s.last());
        assert(digits_value(t) == digits_value(t.drop_last()) * 10 + digit_value(t.last()));
    }
}

/// A worker thread's name is its kind followed by its number, counted from
/// one: `request-` or `socket-` and then digits that read as the index plus one.
pub proof fn lemma_thread_name_numbers(thread: WorkerThread)
    requires
        thread.nameable(),
    ensures
        thread matches WorkerThread::Request(i) ==> thread.spec_name().take(8) == "request-"@ && digits_value(
            thread.spec_name().skip(8),
        ) == i + 1 && forall|k: int|
            8 <= k < thread.spec_name().len() ==> is_digit(#[trigger] thread.spec_name()[k]),
        thread matches WorkerThread::Socket(i) ==> thread.spec_name().take(7) == "socket-"@ && digits_value(
            thread.spec_name().skip(7),
        ) == i + 1 && forall|k: int|
            7 <= k < thread.spec_name().len() ==> is_digit(#[trigger] thread.spec_name()[k]),
        thread is StatisticsCollector ==> thread.spec_name() == seq![
            's', 't', 'a', 't', 'i', 's', 't', 'i', 'c', 's', '-', 'c', 'o', 'l', 'l', 'e', 'c', 't', 'o', 'r'
        ],
{
    reveal_strlit("statistics-collector");
    assert("statistics-collector"@ =~= seq![
        's', 't', 'a', 't', 'i', 's', 't', 'i', 'c', 's', '-', 'c', 'o', 'l', 'l', 'e', 'c', 't', 'o', 'r'
    ]);
    reveal_strlit("request-");
    reveal_strlit("socket-");
    match thread {
        WorkerThread::Request(i) => {
            lemma_two_digits_reads_back((i + 1) as nat);
            assert(thread.spec_name().take(8) =~= "request-"@);
            assert(thread.spec_name().skip(8) =~= two_digits((i + 1) as nat));
            assert forall|k: int| 8 <= k < thread.spec_name().len() implies is_digit(
                #[trigger] thread.spec_name()[k],
            ) by {
                assert(thread.spec_name()[k] == two_digits((i + 1) as nat)[k - 8]);
            }
        },
        WorkerThread::Socket(i) => {
            lemma_two_digits_reads_back((i + 1) as nat);
            assert(thread.spec_name().take(7) =~= "socket-"@);
            assert(thread.spec_name().skip(7) =~= two_digits((i + 1) as nat));
            assert forall|k: int| 7 <= k < thread.spec_name().len() implies is_digit(
                #[trigger] thread.spec_name()[k],
            ) by {
                assert(thread.spec_name()[k] == two_digits((i + 1) as nat)[k - 7]);
            }
        },
        WorkerThread::StatisticsCollector => {},
    }
}

/// Different threads get different names, so each can be told apart.
pub proof fn lemma_thread_names_distinct(a: WorkerThread, b: WorkerThread)
    requires
        a.nameable(),
        b.nameable(),
        a != b,
    ensures
        a.spec_name() != b.spec_name(),
{
    reveal_strlit("request-");
    reveal_strlit("socket-");
    reveal_strlit("statistics-collector");
    match (a, b) {
        (WorkerThread::Request(i), WorkerThread::Request(j)) => {
            if a.spec_name() == b.spec_name() {
                assert(a.spec_name().skip(8) =~= two_digits((i + 1) as nat));
                assert(b.spec_name().skip(8) =~= two_digits((j + 1) as nat));
                lemma_two_digits_injective((i + 1) as nat, (j + 1) as nat);
            }
        },
        (WorkerThread::Socket(i), WorkerThread::Socket(j)) => {
            if a.spec_name() == b.spec_name() {
                assert(a.spec_name().skip(7) =~= two_digits((i + 1) as nat));
                assert(b.spec_name().skip(7) =~= two_digits((j + 1) as nat));
                lemma_two_digits_injective((i + 1) as nat, (j + 1) as nat);
            }
        },
        (WorkerThread::Request(_), _) => {
            assert(a.spec_name()[0] != b.spec_name()[0]);
        },
        (_, WorkerThread::Request(_)) => {
            assert(a.spec_name()[0] != b.spec_name()[0]);
        },
        _ => {
            assert(a.spec_name()[1] != b.spec_name()[1]);
        },
    }
}

/// The threads of a startup plan can all be named, and no two get the same
/// name.
pub proof fn lemma_startup_plan_names_distinct(request_workers: usize, socket_workers: usize, statistics_interval: u64)
    ensures
        ({
            let plan = spec_startup_plan(request_workers as nat, socket_workers as nat, statistics_interval);
            &&& forall|i: int| 0 <= i < plan.len() ==> (#[trigger] plan[i]).nameable()
            &&& forall|i: int, j: int|
                0 <= i < j < plan.len() ==> (#[trigger] plan[i]).spec_name() != (#[trigger] plan[j]).spec_name()
        }),
{
    let plan = spec_startup_plan(request_workers as nat, socket_workers as nat, statistics_interval);
    let r = request_workers as int;
    let s = socket_workers as int;
    assert forall|i: int| 0 <= i < plan.len() implies (#[trigger] plan[i]).nameable() by {
        if i < r {
            assert(plan[i] == WorkerThread::Request(i as usize));
        } else if i < r + s {
            assert(plan[i] == WorkerThread::Socket((i - r) as usize));
        }
    }
    assert forall|i: int, j: int| 0 <= i < j < plan.len() implies (#[trigger] plan[i]).spec_name() != (
    #[trigger] plan[j]).spec_name() by {
        assert(plan[i].nameable());
        assert(plan[j].nameable());
        if i < r {
            assert(plan[i] == WorkerThread::Request(i as usize));
        } else if i < r + s {
            assert(plan[i] == WorkerThread::Socket((i - r) as usize));
        }
        if j < r {
            assert(plan[j] == WorkerThread::Request(j as usize));
        } else if j < r + s {
            assert(plan[j] == WorkerThread::Socket((j - r) as usize));
        } else {
            assert(plan[j] == WorkerThread::StatisticsCollector);
        }
        lemma_thread_names_distinct(plan[i], plan[j]);
    }
}

/// The plan starts one request worker for each configured request worker, in
/// index order, then one socket worker for each configured socket worker, in
/// index order, then the statistics collector exactly when the interval is
/// not zero, and nothing else.
pub open spec fn plan_starts_every_worker(
    plan: Seq<WorkerThread>,
    request_workers: usize,
    socket_workers: usize,
    statistics_interval: u64,
) -> bool {
    &&& plan.len() == request_workers + socket_workers + if statistics_interval != 0 {
        1int
    } else {
        0int
    }
    &&& forall|i: int| 0 <= i < request_workers ==> #[trigger] plan[i] == WorkerThread::Request(i as usize)
    &&& forall|i: int|
        0 <= i < socket_workers ==> #[trigger] plan[request_workers + i] == WorkerThread::Socket(i as usize)
    &&& statistics_interval != 0 ==> plan[request_workers + socket_workers] == WorkerThread::StatisticsCollector
}

/// The tracker starts every configured worker, each once, and the
/// statistics collector exactly when statistics are gathered.
pub proof fn lemma_startup_plan_starts_every_worker(
    request_workers: usize,
    socket_workers: usize,
    statistics_interval: u64,
)
    ensures
        plan_starts_every_worker(
            spec_startup_plan(request_workers as nat, socket_workers as nat, statistics_interval),
            request_workers,
            socket_workers,
            statistics_interval,
        ),
{
    let plan = spec_startup_plan(request_workers as nat, socket_workers as nat, statistics_interval);
    assert forall|i: int| 0 <= i < socket_workers implies #[trigger] plan[request_workers + i]
        == WorkerThread::Socket(i as usize) by {
        assert(plan[request_workers + i] == Seq::new(
            socket_workers as nat,
            |j: int| WorkerThread::Socket(j as usize),
        )[i]);
    }
}

/// The threads that the tracker starts for the given numbers of request and
/// socket workers and the given statistics interval (in seconds).
pub fn startup_plan(request_workers: usize, socket_workers: usize, statistics_interval: u64) -> (plan: Vec<
    WorkerThread,
>)
    ensures
        plan@ == spec_startup_plan(request_workers as nat, socket_workers as nat, statistics_interval),
        plan_starts_every_worker(plan@, request_workers, socket_workers, statistics_interval),
{
    proof {
        lemma_startup_plan_starts_every_worker(request_workers, socket_workers, statistics_interval);
    }
    let mut plan: Vec<WorkerThread> = Vec::new();
    for i in 0..request_workers
        invariant
            plan@ =~= Seq::new(i as nat, |j: int| WorkerThread::Request(j as usize)),
    {
        plan.push(WorkerThread::Request(i));
    }
    let ghost requests = plan@;
    for i in 0..socket_workers
        invariant
            requests == Seq::new(request_workers as nat, |j: int| WorkerThread::Request(j as usize)),
            plan@ =~= requests + Seq::new(i as nat, |j: int| WorkerThread::Socket(j as usize)),
    {
        plan.push(WorkerThread::Socket(i));
    }
    if statistics_interval != 0 {
        plan.push(WorkerThread::StatisticsCollector);
    }
    assert(plan@ =~= spec_startup_plan(request_workers as nat, socket_workers as nat, statistics_interval));
    plan
}

} // verus!
