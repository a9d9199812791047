use vstd::prelude::*;

verus! {

/// The UDP tracker implementations that the benchmark compares.
#[derive(Debug, Clone, Copy, PartialEq, Eq, Hash, Structural)]
pub enum UdpTracker {
    Aquatic,
    OpenTracker,
}

impl UdpTracker {
    /// The name under which results for this tracker are reported.
    pub open spec fn spec_name(self) -> Seq<char> {
        match self {
            UdpTracker::Aquatic => "aquatic_udp"@,
            UdpTracker::OpenTracker => "opentracker"@,
        }
    }

    /// Different trackers are reported under different names.
    pub proof fn lemma_names_distinct(a: UdpTracker, b: UdpTracker)
        requires
            a != b,
        ensures
            a.spec_name() != b.spec_name(),
    {
        reveal_strlit("aquatic_udp");
        reveal_strlit("opentracker");
        assert(a.spec_name()[0] != b.spec_name()[0]);
    }

    /// aquatic_udp is reported as `aquatic_udp`, opentracker as `opentracker`.
    pub proof fn lemma_report_names()
        ensures
            UdpTracker::Aquatic.spec_name() == seq!['a', 'q', 'u', 'a', 't', 'i', 'c', '_', 'u', 'd', 'p'],
            UdpTracker::OpenTracker.spec_name() == seq!['o', 'p', 'e', 'n', 't', 'r', 'a', 'c', 'k', 'e', 'r'],
    {
        reveal_strlit("aquatic_udp");
        reveal_strlit("opentracker");
        assert("aquatic_udp"@ =~= seq!['a', 'q', 'u', 'a', 't', 'i', 'c', '_', 'u', 'd', 'p']);
        assert("opentracker"@ =~= seq!['o', 'p', 'e', 'n', 't', 'r', 'a', 'c', 'k', 'e', 'r']);
    }

    pub fn name(&self) -> (name: String)
        ensures
            name@ == self.spec_name(),
    {
        match self {
            UdpTracker::Aquatic => String::from_str("aquatic_udp"),
            UdpTracker::OpenTracker => String::from_str("opentracker"),
        }
    }
}

} // verus!
