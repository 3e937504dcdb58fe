//! The desired shape of the managed DNS record set.
//!
//! One active endpoint is published as a single CNAME to that endpoint's
//! record; several are published as one A/AAAA record per resolved address.
//! Address sets are held in canonical (strictly sorted) form, so structural
//! equality of two states coincides with equality of variant and payload —
//! for addresses, equality as sets.

use vstd::prelude::*;
use crate::endpoint::Endpoint;
use crate::ip::{IpAddress, insert_sorted, ip_set, strictly_sorted};

verus! {

/// What the managed record should hold: a single CNAME, or one A/AAAA
/// record per address.
#[derive(Debug)]
pub enum DesiredDnsState {
    /// Point the managed name at one endpoint's record.
    SingleCname {
        /// The CNAME target.
        target: String,
    },
    /// Pin the managed name to these addresses.
    MultiAddress {
        /// The addresses, strictly sorted.
        ips: Vec<IpAddress>,
    },
}

impl DesiredDnsState {
    /// Canonical form: address lists are strictly sorted.
    pub open spec fn wf(self) -> bool {
        match self {
            DesiredDnsState::SingleCname { .. } => true,
            DesiredDnsState::MultiAddress { ips } => strictly_sorted(ips@),
        }
    }

    /// Whether two states are of the same variant.
    pub fn same_type(&self, other: &DesiredDnsState) -> (r: bool)
        ensures
            r == match (*self, *other) {
                (
                    DesiredDnsState::SingleCname { .. },
                    DesiredDnsState::SingleCname { .. },
                ) => true,
                (
                    DesiredDnsState::MultiAddress { .. },
                    DesiredDnsState::MultiAddress { .. },
                ) => true,
                _ => false,
            },
    {
        match (self, other) {
            (DesiredDnsState::SingleCname { .. }, DesiredDnsState::SingleCname { .. }) => true,
            (DesiredDnsState::MultiAddress { .. }, DesiredDnsState::MultiAddress { .. }) => true,
            _ => false,
        }
    }
}

/// Decide spec-level equality of two desired states.
pub fn state_eq_exec(x: &DesiredDnsState, y: &DesiredDnsState) -> (r: bool)
    ensures
        r == state_eq(*x, *y),
{
    match (x, y) {
        (
            DesiredDnsState::SingleCname { target: a },
            DesiredDnsState::SingleCname { target: b },
        ) => <String as PartialEq>::eq(a, b),
        (
            DesiredDnsState::MultiAddress { ips: a },
            DesiredDnsState::MultiAddress { ips: b },
        ) => {
            proof {
                assert(*x == (DesiredDnsState::MultiAddress { ips: *a }));
                assert(*y == (DesiredDnsState::MultiAddress { ips: *b }));
            }
            if a.len() != b.len() {
                return false;
            }
            let mut i: usize = 0;
            while i < a.len()
                invariant
                    *x == (DesiredDnsState::MultiAddress { ips: *a }),
                    *y == (DesiredDnsState::MultiAddress { ips: *b }),
                    a.len() == b.len(),
                    i <= a.len(),
                    forall|k: int| 0 <= k < i ==> a@[k] == b@[k],
                decreases a.len() - i,
            {
                if !(a[i] == b[i]) {
                    return false;
                }
                i += 1;
            }
            proof {
                assert(a@ =~= b@);
            }
            true
        },
        _ => false,
    }
}

impl PartialEq for DesiredDnsState {
    /// Equality: same variant and equal payload.  On canonical address
    /// lists, sequence equality is set equality.
    fn eq(&self, other: &DesiredDnsState) -> (r: bool) {
        state_eq_exec(self, other)
    }
}

impl Eq for DesiredDnsState {

}

impl vstd::std_specs::cmp::PartialEqSpecImpl for DesiredDnsState {
    open spec fn obeys_eq_spec() -> bool {
        true
    }

    open spec fn eq_spec(&self, other: &DesiredDnsState) -> bool {
        state_eq(*self, *other)
    }
}

/// The spec-level equality of two desired states: same variant, equal
/// payload.
pub open spec fn state_eq(a: DesiredDnsState, b: DesiredDnsState) -> bool {
    match (a, b) {
        (
            DesiredDnsState::SingleCname { target: x },
            DesiredDnsState::SingleCname { target: y },
        ) => x@ == y@,
        (DesiredDnsState::MultiAddress { ips: x }, DesiredDnsState::MultiAddress { ips: y }) => x@
            == y@,
        _ => false,
    }
}

/// Desired-state equality is reflexive.
pub proof fn lemma_state_eq_reflexive(a: DesiredDnsState)
    ensures
        state_eq(a, a),
{
}

/// Desired-state equality is symmetric.
pub proof fn lemma_state_eq_symmetric(a: DesiredDnsState, b: DesiredDnsState)
    ensures
        state_eq(a, b) == state_eq(b, a),
{
}

/// Desired-state equality is transitive.
pub proof fn lemma_state_eq_transitive(a: DesiredDnsState, b: DesiredDnsState, c: DesiredDnsState)
    requires
        state_eq(a, b),
        state_eq(b, c),
    ensures
        state_eq(a, c),
{
}

/// The desired state for a single active endpoint: a CNAME to its record.
pub fn desired_single(e: &Endpoint) -> (r: DesiredDnsState)
    ensures
        r == (DesiredDnsState::SingleCname { target: e.dns.record }),
        r.wf(),
{
    DesiredDnsState::SingleCname { target: e.dns.record.clone() }
}

/// The desired state for several active endpoints: the union of their
/// resolved address sets, pinned as A/AAAA records.
pub fn desired_multi(resolved: &Vec<Vec<IpAddress>>) -> (r: DesiredDnsState)
    ensures
        r is MultiAddress,
        r.wf(),
        ip_set(r->MultiAddress_ips@) == resolved@.fold_left(
            Set::<IpAddress>::empty(),
            |acc: Set<IpAddress>, v: Vec<IpAddress>| acc.union(ip_set(v@)),
        ),
{
    let mut ips: Vec<IpAddress> = Vec::new();
    let mut i: usize = 0;
    while i < resolved.len()
        invariant
            strictly_sorted(ips@),
            i <= resolved.len(),
            ip_set(ips@) == resolved@.subrange(0, i as int).fold_left(
                Set::<IpAddress>::empty(),
                |acc: Set<IpAddress>, v: Vec<IpAddress>| acc.union(ip_set(v@)),
            ),
        decreases resolved.len() - i,
    {
        let set = &resolved[i];
        let mut j: usize = 0;
        while j < set.len()
            invariant
                strictly_sorted(ips@),
                i < resolved.len(),
                j <= set.len(),
                *set == resolved@[i as int],
                ip_set(ips@) == resolved@.subrange(0, i as int).fold_left(
                    Set::<IpAddress>::empty(),
                    |acc: Set<IpAddress>, v: Vec<IpAddress>| acc.union(ip_set(v@)),
                ).union(ip_set(set@.subrange(0, j as int))),
            decreases set.len() - j,
        {
            insert_sorted(&mut ips, set[j]);
            proof {
                assert(set@.subrange(0, j + 1) =~= set@.subrange(0, j as int).push(set@[j as int]));
                crate::ip::lemma_ip_set_push(set@.subrange(0, j as int), set@[j as int]);
                assert(ip_set(ips@) =~= resolved@.subrange(0, i as int).fold_left(
                    Set::<IpAddress>::empty(),
                    |acc: Set<IpAddress>, v: Vec<IpAddress>| acc.union(ip_set(v@)),
                ).union(ip_set(set@.subrange(0, j + 1))));
            }
            j += 1;
        }
        proof {
            assert(set@.subrange(0, set@.len() as int) =~= set@);
            assert(resolved@.subrange(0, i + 1).drop_last() =~= resolved@.subrange(0, i as int));
            assert(resolved@.subrange(0, i + 1).last() == resolved@[i as int]);
        }
        i += 1;
    }
    proof {
        assert(resolved@.subrange(0, resolved@.len() as int) =~= resolved@);
    }
    DesiredDnsState::MultiAddress { ips }
}

} // verus!
