//! One record of the catalogue and its containment queries.

use crate::addr::{IpAddr, Ipv4Addr, Ipv6Addr};
use crate::model::{
    any_contains,
    lemma_any_contains_of_family,
    of_family,
    Family,
    NetworkRange,
    Record,
    Target,
};
use crate::net::{lemma_v4_family, lemma_v6_family, IpNet, Ipv4Net, Ipv6Net};
use crate::sealed::Sealed;
use vstd::prelude::*;

verus! {

/// The ranges that a list of networks stands for.
pub open spec fn ranges_of(nets: Seq<IpNet>) -> Seq<NetworkRange> {
    Seq::new(nets.len(), |i: int| nets[i]@)
}

/// The ranges that a list of IPv4 networks stands for.
pub open spec fn ranges_of_v4(nets: Seq<Ipv4Net>) -> Seq<NetworkRange> {
    Seq::new(nets.len(), |i: int| nets[i]@)
}

/// The ranges that a list of IPv6 networks stands for.
pub open spec fn ranges_of_v6(nets: Seq<Ipv6Net>) -> Seq<NetworkRange> {
    Seq::new(nets.len(), |i: int| nets[i]@)
}

/// A record: an identifier and the network ranges filed under it, as one
/// list and split by family.
#[derive(Debug, PartialEq, Eq, Hash)]
pub struct RFC {
    id: u32,
    ip_nets: Vec<IpNet>,
    ipv4_nets: Vec<Ipv4Net>,
    ipv6_nets: Vec<Ipv6Net>,
}

impl View for RFC {
    type V = Record;

    closed spec fn view(&self) -> Record {
        Record { id: self.id, ranges: ranges_of(self.ip_nets@) }
    }
}

impl Sealed for RFC {
    open spec fn record(&self) -> Record {
        self@
    }
}

/// Answers whether a record contains a value of type `T`.
pub trait Contains<T>: Sealed {
    /// What a value of type `T` asks about.
    spec fn target(t: &T) -> Target;

    /// Whether some range of the record contains `t`.
    fn contains(&self, t: &T) -> (r: bool)
        ensures
            r == self.record().contains(Self::target(t)),
    ;
}

impl RFC {
    #[verifier::type_invariant]
    spec fn inv(self) -> bool {
        &&& self@.wf()
        &&& ranges_of_v4(self.ipv4_nets@) == self@.v4_ranges()
        &&& ranges_of_v6(self.ipv6_nets@) == self@.v6_ranges()
    }

    /// The record with the given identifier and ranges, of which none may
    /// occur twice. The two lists by family are split off here, in the order
    /// of `nets`.
    pub fn new(id: u32, nets: Vec<IpNet>) -> (r: RFC)
        requires
            ranges_of(nets@).no_duplicates(),
        ensures
            r@ == (Record { id, ranges: ranges_of(nets@) }),
            r@.wf(),
    {
        let mut v4: Vec<Ipv4Net> = Vec::new();
        let mut v6: Vec<Ipv6Net> = Vec::new();
        let ghost all = ranges_of(nets@);
        let mut i: usize = 0;
        while i < nets.len()
            invariant
                i <= nets.len(),
                all == ranges_of(nets@),
                ranges_of_v4(v4@) == of_family(all.take(i as int), Family::V4),
                ranges_of_v6(v6@) == of_family(all.take(i as int), Family::V6),
                forall|j: int| 0 <= j < i ==> (#[trigger] all[j]).wf(),
            decreases nets.len() - i,
        {
            let ghost old4 = v4@;
            let ghost old6 = v6@;
            let net = nets[i];
            proof {
                assert(all.take(i as int + 1).drop_last() == all.take(i as int));
                assert(all.take(i as int + 1).last() == net@);
            }
            match net {
                IpNet::V4(n) => {
                    v4.push(n);
                    proof {
                        use_type_invariant(&n);
                        lemma_v4_family(n);
                        assert(ranges_of_v4(v4@) == ranges_of_v4(old4).push(n@));
                    }
                },
                IpNet::V6(n) => {
                    v6.push(n);
                    proof {
                        use_type_invariant(&n);
                        lemma_v6_family(n);
                        assert(ranges_of_v6(v6@) == ranges_of_v6(old6).push(n@));
                    }
                },
            }
            i = i + 1;
        }
        proof {
            assert(all.take(i as int) == all);
        }
        RFC { id, ip_nets: nets, ipv4_nets: v4, ipv6_nets: v6 }
    }

    /// The identifier of the record.
    pub fn id(&self) -> (r: u32)
        ensures
            r == self@.id,
    {
        self.id
    }

    /// All ranges of the record, in order. Each is in canonical form.
    pub fn ip_nets(&self) -> (r: &[IpNet])
        ensures
            ranges_of(r@) == self@.ranges,
            self@.wf(),
    {
        proof {
            use_type_invariant(self);
        }
        self.ip_nets.as_slice()
    }

    /// The IPv4 ranges of the record, in the order in which they stand among
    /// all its ranges.
    pub fn ipv4_nets(&self) -> (r: &[Ipv4Net])
        ensures
            ranges_of_v4(r@) == self@.v4_ranges(),
    {
        proof {
            use_type_invariant(self);
        }
        self.ipv4_nets.as_slice()
    }

    /// The IPv6 ranges of the record, in the order in which they stand among
    /// all its ranges.
    pub fn ipv6_nets(&self) -> (r: &[Ipv6Net])
        ensures
            ranges_of_v6(r@) == self@.v6_ranges(),
    {
        proof {
            use_type_invariant(self);
        }
        self.ipv6_nets.as_slice()
    }

    /// Whether some range of the record contains `ip`: an address or a
    /// network, of one family or of either.
    pub fn contains<T>(&self, ip: &T) -> (r: bool) where Self: Contains<T>
        ensures
            r == self@.contains(<RFC as Contains<T>>::target(ip)),
    {
        Contains::contains(self, ip)
    }
}

impl Clone for RFC {
    fn clone(&self) -> (r: RFC)
        ensures
            r@ == self@,
            r@.wf(),
    {
        let mut nets: Vec<IpNet> = Vec::new();
        let mut i: usize = 0;
        while i < self.ip_nets.len()
            invariant
                i <= self.ip_nets.len(),
                nets@ == self.ip_nets@.take(i as int),
            decreases self.ip_nets.len() - i,
        {
            nets.push(self.ip_nets[i]);
            i = i + 1;
        }
        proof {
            use_type_invariant(self);
            assert(nets@ == self.ip_nets@);
        }
        RFC::new(self.id, nets)
    }
}

impl Contains<IpNet> for RFC {
    open spec fn target(t: &IpNet) -> Target {
        Target::Net(t@)
    }

    fn contains(&self, t: &IpNet) -> (r: bool) {
        let ghost all = ranges_of(self.ip_nets@);
        let ghost goal = Target::Net(t@);
        let mut i: usize = 0;
        while i < self.ip_nets.len()
            invariant
                i <= self.ip_nets.len(),
                all == ranges_of(self.ip_nets@),
                goal == Target::Net(t@),
                forall|j: int| 0 <= j < i ==> !(#[trigger] all[j]).contains(goal),
            decreases self.ip_nets.len() - i,
        {
            if self.ip_nets[i].contains_net(t) {
                assert(all[i as int].contains(goal));
                return true;
            }
            i = i + 1;
        }
        false
    }
}

impl Contains<IpAddr> for RFC {
    open spec fn target(t: &IpAddr) -> Target {
        Target::Addr(t@)
    }

    fn contains(&self, t: &IpAddr) -> (r: bool) {
        let ghost all = ranges_of(self.ip_nets@);
        let ghost goal = Target::Addr(t@);
        let mut i: usize = 0;
        while i < self.ip_nets.len()
            invariant
                i <= self.ip_nets.len(),
                all == ranges_of(self.ip_nets@),
                goal == Target::Addr(t@),
                forall|j: int| 0 <= j < i ==> !(#[trigger] all[j]).contains(goal),
            decreases self.ip_nets.len() - i,
        {
            if self.ip_nets[i].contains_addr(t) {
                assert(all[i as int].contains(goal));
                return true;
            }
            i = i + 1;
        }
        false
    }
}

impl Contains<Ipv4Net> for RFC {
    open spec fn target(t: &Ipv4Net) -> Target {
        Target::Net(t@)
    }

    fn contains(&self, t: &Ipv4Net) -> (r: bool) {
        let ghost all = ranges_of_v4(self.ipv4_nets@);
        let ghost goal = Target::Net(t@);
        proof {
            use_type_invariant(self);
            lemma_v4_family(*t);
            lemma_any_contains_of_family(self@.ranges, goal);
        }
        let mut i: usize = 0;
        while i < self.ipv4_nets.len()
            invariant
                i <= self.ipv4_nets.len(),
                all == ranges_of_v4(self.ipv4_nets@),
                goal == Target::Net(t@),
                any_contains(all, goal) == self@.contains(goal),
                forall|j: int| 0 <= j < i ==> !(#[trigger] all[j]).contains(goal),
            decreases self.ipv4_nets.len() - i,
        {
            if self.ipv4_nets[i].contains_net(t) {
                assert(all[i as int].contains(goal));
                return true;
            }
            i = i + 1;
        }
        false
    }
}

impl Contains<Ipv4Addr> for RFC {
    open spec fn target(t: &Ipv4Addr) -> Target {
        Target::Addr(t@)
    }

    fn contains(&self, t: &Ipv4Addr) -> (r: bool) {
        let ghost all = ranges_of_v4(self.ipv4_nets@);
        let ghost goal = Target::Addr(t@);
        proof {
            use_type_invariant(self);
            lemma_any_contains_of_family(self@.ranges, goal);
        }
        let mut i: usize = 0;
        while i < self.ipv4_nets.len()
            invariant
                i <= self.ipv4_nets.len(),
                all == ranges_of_v4(self.ipv4_nets@),
                goal == Target::Addr(t@),
                any_contains(all, goal) == self@.contains(goal),
                forall|j: int| 0 <= j < i ==> !(#[trigger] all[j]).contains(goal),
            decreases self.ipv4_nets.len() - i,
        {
            if self.ipv4_nets[i].contains_addr(t) {
                assert(all[i as int].contains(goal));
                return true;
            }
            i = i + 1;
        }
        false
    }
}

impl Contains<Ipv6Net> for RFC {
    open spec fn target(t: &Ipv6Net) -> Target {
        Target::Net(t@)
    }

    fn contains(&self, t: &Ipv6Net) -> (r: bool) {
        let ghost all = ranges_of_v6(self.ipv6_nets@);
        let ghost goal = Target::Net(t@);
        proof {
            use_type_invariant(self);
            lemma_v6_family(*t);
            lemma_any_contains_of_family(self@.ranges, goal);
        }
        let mut i: usize = 0;
        while i < self.ipv6_nets.len()
            invariant
                i <= self.ipv6_nets.len(),
                all == ranges_of_v6(self.ipv6_nets@),
                goal == Target::Net(t@),
                any_contains(all, goal) == self@.contains(goal),
                forall|j: int| 0 <= j < i ==> !(#[trigger] all[j]).contains(goal),
            decreases self.ipv6_nets.len() - i,
        {
            if self.ipv6_nets[i].contains_net(t) {
                assert(all[i as int].contains(goal));
                return true;
            }
            i = i + 1;
        }
        false
    }
}

impl Contains<Ipv6Addr> for RFC {
    open spec fn target(t: &Ipv6Addr) -> Target {
        Target::Addr(t@)
    }

    fn contains(&self, t: &Ipv6Addr) -> (r: bool) {
        let ghost all = ranges_of_v6(self.ipv6_nets@);
        let ghost goal = Target::Addr(t@);
        proof {
            use_type_invariant(self);
            lemma_any_contains_of_family(self@.ranges, goal);
        }
        let mut i: usize = 0;
        while i < self.ipv6_nets.len()
            invariant
                i <= self.ipv6_nets.len(),
                all == ranges_of_v6(self.ipv6_nets@),
                goal == Target::Addr(t@),
                any_contains(all, goal) == self@.contains(goal),
                forall|j: int| 0 <= j < i ==> !(#[trigger] all[j]).contains(goal),
            decreases self.ipv6_nets.len() - i,
        {
            if self.ipv6_nets[i].contains_addr(t) {
                assert(all[i as int].contains(goal));
                return true;
            }
            i = i + 1;
        }
        false
    }
}

} // verus!
