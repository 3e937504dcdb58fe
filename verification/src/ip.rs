//! Plain-value model of IP addresses.
//!
//! Resolved A/AAAA records run through the selection and reconciliation
//! logic.  The library holds them as integers so that equality and ordering
//! are meaningful in contracts; the transport layer converts to and from its
//! own socket address types.

use vstd::prelude::*;

verus! {

/// An IPv4 address as its 32-bit value, or an IPv6 address as its 128-bit
/// value.
#[derive(Clone, Copy, Debug, PartialEq, Eq, Structural, Hash)]
pub enum IpAddress {
    V4(u32),
    V6(u128),
}

impl IpAddress {
    /// Total order on addresses: all IPv4 before all IPv6, then numeric.
    pub open spec fn spec_lt(self, other: IpAddress) -> bool {
        match (self, other) {
            (IpAddress::V4(a), IpAddress::V4(b)) => a < b,
            (IpAddress::V4(_), IpAddress::V6(_)) => true,
            (IpAddress::V6(_), IpAddress::V4(_)) => false,
            (IpAddress::V6(a), IpAddress::V6(b)) => a < b,
        }
    }

    /// Executable comparison deciding `spec_lt`.
    pub fn lt(&self, other: &IpAddress) -> (r: bool)
        ensures
            r == self.spec_lt(*other),
    {
        match (self, other) {
            (IpAddress::V4(a), IpAddress::V4(b)) => *a < *b,
            (IpAddress::V4(_), IpAddress::V6(_)) => true,
            (IpAddress::V6(_), IpAddress::V4(_)) => false,
            (IpAddress::V6(a), IpAddress::V6(b)) => *a < *b,
        }
    }
}

/// A sequence of addresses in strictly ascending order: the canonical form
/// the library keeps resolved sets in, so that sequence equality coincides
/// with set equality.
pub open spec fn strictly_sorted(s: Seq<IpAddress>) -> bool {
    forall|i: int, j: int| 0 <= i < j < s.len() ==> s[i].spec_lt(s[j])
}

/// The set of addresses a sequence holds.
pub open spec fn ip_set(s: Seq<IpAddress>) -> Set<IpAddress> {
    s.to_set()
}

proof fn lemma_strictly_sorted_no_dup(s: Seq<IpAddress>)
    requires
        strictly_sorted(s),
    ensures
        forall|i: int, j: int| 0 <= i < s.len() && 0 <= j < s.len() && i != j ==> s[i] != s[j],
{
    assert forall|i: int, j: int|
        0 <= i < s.len() && 0 <= j < s.len() && i != j implies s[i] != s[j] by {
        if i < j {
            assert(s[i].spec_lt(s[j]));
        } else {
            assert(s[j].spec_lt(s[i]));
        }
    }
}

/// Insert an address into a strictly sorted vector, keeping it strictly
/// sorted; an address already present is not duplicated.
pub fn insert_sorted(v: &mut Vec<IpAddress>, a: IpAddress)
    requires
        strictly_sorted(old(v)@),
    ensures
        strictly_sorted(final(v)@),
        ip_set(final(v)@) == ip_set(old(v)@).insert(a),
{
    let mut i: usize = 0;
    while i < v.len() && v[i].lt(&a)
        invariant
            strictly_sorted(v@),
            i <= v.len(),
            forall|k: int| 0 <= k < i ==> v@[k].spec_lt(a),
        decreases v.len() - i,
    {
        i += 1;
    }
    if i < v.len() && v[i] == a {
        proof {
            assert(ip_set(v@).insert(a) =~= ip_set(v@));
        }
        return;
    }
    let ghost old_seq = v@;
    v.insert(i, a);
    proof {
        assert(v@ =~= old_seq.insert(i as int, a));
        assert(forall|k: int| 0 <= k < i ==> v@[k] == old_seq[k]);
        assert(v@[i as int] == a);
        assert(forall|k: int| i < k < v@.len() ==> v@[k] == old_seq[k - 1]);
        assert forall|p: int, q: int| 0 <= p < q < v@.len() implies v@[p].spec_lt(v@[q]) by {
            if p < i && q == i {
            } else if p < i && q > i {
                assert(v@[p] == old_seq[p]);
                assert(v@[q] == old_seq[q - 1]);
                if p < q - 1 {
                    assert(old_seq[p].spec_lt(old_seq[q - 1]));
                }
            } else if p == i && q > i {
                assert(!old_seq[i as int].spec_lt(a));
                assert(old_seq[i as int] != a);
                match (a, old_seq[i as int]) {
                    (IpAddress::V4(x), IpAddress::V4(y)) => {
                        assert(x < y);
                    }
                    (IpAddress::V6(x), IpAddress::V6(y)) => {
                        assert(x < y);
                    }
                    _ => {}
                }
                assert(a.spec_lt(old_seq[i as int]));
                assert(v@[q] == old_seq[q - 1]);
                if i < q - 1 {
                    assert(old_seq[i as int].spec_lt(old_seq[q - 1]));
                }
            } else if p > i {
                assert(v@[p] == old_seq[p - 1]);
                assert(v@[q] == old_seq[q - 1]);
                assert(old_seq[p - 1].spec_lt(old_seq[q - 1]));
            }
        }
        assert(ip_set(v@) =~= ip_set(old_seq).insert(a)) by {
            assert forall|x: IpAddress| ip_set(v@).contains(x) implies
                ip_set(old_seq).insert(a).contains(x) by {
                let k = choose|k: int| 0 <= k < v@.len() && v@[k] == x;
                if k < i {
                    assert(old_seq[k] == x);
                } else if k == i {
                } else {
                    assert(old_seq[k - 1] == x);
                }
            }
            assert forall|x: IpAddress| ip_set(old_seq).insert(a).contains(x) implies
                ip_set(v@).contains(x) by {
                if x == a {
                    assert(v@[i as int] == a);
                } else {
                    let k = choose|k: int| 0 <= k < old_seq.len() && old_seq[k] == x;
                    if k < i {
                        assert(v@[k] == x);
                    } else {
                        assert(v@[k + 1] == x);
                    }
                }
            }
        }
    }
}

/// Appending one address adds exactly it to the address set.
pub proof fn lemma_ip_set_push(s: Seq<IpAddress>, x: IpAddress)
    ensures
        ip_set(s.push(x)) == ip_set(s).insert(x),
{
    assert forall|y: IpAddress| ip_set(s.push(x)).contains(y) implies ip_set(s).insert(
        x,
    ).contains(y) by {
        let i = choose|i: int| 0 <= i < s.push(x).len() && s.push(x)[i] == y;
        if i < s.len() {
            assert(s[i] == y);
        }
    }
    assert forall|y: IpAddress| ip_set(s).insert(x).contains(y) implies ip_set(
        s.push(x),
    ).contains(y) by {
        if y == x {
            assert(s.push(x)[s.len() as int] == y);
        } else {
            let i = choose|i: int| 0 <= i < s.len() && s[i] == y;
            assert(s.push(x)[i] == y);
        }
    }
    assert(ip_set(s.push(x)) =~= ip_set(s).insert(x));
}

/// Whether two strictly sorted vectors hold the same addresses.  On the
/// canonical form, set equality is sequence equality.
pub fn same_ip_set(a: &Vec<IpAddress>, b: &Vec<IpAddress>) -> (r: bool)
    requires
        strictly_sorted(a@),
        strictly_sorted(b@),
    ensures
        r == (ip_set(a@) == ip_set(b@)),
{
    if a.len() != b.len() {
        proof {
            if ip_set(a@) == ip_set(b@) {
                lemma_sorted_set_eq_implies_seq_eq(a@, b@);
            }
        }
        return false;
    }
    let mut i: usize = 0;
    while i < a.len()
        invariant
            a.len() == b.len(),
            i <= a.len(),
            forall|k: int| 0 <= k < i ==> a@[k] == b@[k],
            strictly_sorted(a@),
            strictly_sorted(b@),
        decreases a.len() - i,
    {
        if !(a[i] == b[i]) {
            proof {
                if ip_set(a@) == ip_set(b@) {
                    lemma_sorted_set_eq_implies_seq_eq(a@, b@);
                }
            }
            return false;
        }
        i += 1;
    }
    proof {
        assert(a@ =~= b@);
    }
    true
}

/// On strictly sorted sequences, equal address sets force equal sequences.
proof fn lemma_sorted_set_eq_implies_seq_eq(a: Seq<IpAddress>, b: Seq<IpAddress>)
    requires
        strictly_sorted(a),
        strictly_sorted(b),
        ip_set(a) == ip_set(b),
    ensures
        a =~= b,
    decreases a.len(),
{
    lemma_strictly_sorted_no_dup(a);
    lemma_strictly_sorted_no_dup(b);
    if a.len() == 0 {
        if b.len() > 0 {
            assert(ip_set(b).contains(b[0]));
            assert(ip_set(a).contains(b[0]));
        }
    } else {
        assert(ip_set(a).contains(a[0]));
        assert(ip_set(b).contains(a[0]));
        let j = choose|j: int| 0 <= j < b.len() && b[j] == a[0];
        assert(b.len() > 0);
        // the heads are equal: each is the minimum of the same set
        assert(ip_set(a).contains(b[0]));
        let k = choose|k: int| 0 <= k < a.len() && a[k] == b[0];
        if j > 0 {
            assert(b[0].spec_lt(b[j]));
            assert(k > 0 ==> a[0].spec_lt(a[k]));
            assert(a[0].spec_lt(a[0]));
        }
        assert(a[0] == b[0]);
        let at = a.drop_first();
        let bt = b.drop_first();
        assert(ip_set(at) =~= ip_set(a).remove(a[0])) by {
            assert forall|x: IpAddress| ip_set(at).contains(x) implies
                ip_set(a).remove(a[0]).contains(x) by {
                let m = choose|m: int| 0 <= m < at.len() && at[m] == x;
                assert(a[m + 1] == x);
            }
            assert forall|x: IpAddress| ip_set(a).remove(a[0]).contains(x) implies
                ip_set(at).contains(x) by {
                let m = choose|m: int| 0 <= m < a.len() && a[m] == x;
                assert(m != 0);
                assert(at[m - 1] == x);
            }
        }
        assert(ip_set(bt) =~= ip_set(b).remove(b[0])) by {
            assert forall|x: IpAddress| ip_set(bt).contains(x) implies
                ip_set(b).remove(b[0]).contains(x) by {
                let m = choose|m: int| 0 <= m < bt.len() && bt[m] == x;
                assert(b[m + 1] == x);
            }
            assert forall|x: IpAddress| ip_set(b).remove(b[0]).contains(x) implies
                ip_set(bt).contains(x) by {
                let m = choose|m: int| 0 <= m < b.len() && b[m] == x;
                assert(m != 0);
                assert(bt[m - 1] == x);
            }
        }
        assert(strictly_sorted(at));
        assert(strictly_sorted(bt));
        lemma_sorted_set_eq_implies_seq_eq(at, bt);
        assert(a =~= seq![a[0]] + at);
        assert(b =~= seq![b[0]] + bt);
    }
}

} // verus!
