//! The central selector.
//!
//! Each cycle fuses the endpoints' health flags into a new active set: the
//! healthy endpoint of least weight becomes the primary, and previously
//! active sticky endpoints are carried until their stickiness expires.  A
//! just-demoted primary enters the sticky window with a fresh clock; other
//! carried entries age toward expiry.

use vstd::prelude::*;
use crate::endpoint::Endpoint;

verus! {

/// One member of the active set: an endpoint (by index into the candidate
/// set), the instant it entered its current role, and whether it is the
/// primary.
#[derive(Clone, Copy, Debug, PartialEq, Eq, Structural)]
pub struct ActiveEntry {
    /// Index of the endpoint in the candidate set.
    pub endpoint: usize,
    /// Monotonic instant (milliseconds) this entry was created or refreshed.
    pub since: u64,
    /// Whether this entry is the primary.
    pub primary: bool,
}

/// Well-formedness of an active set over `n` endpoints at instant `now`:
/// indices in range, timestamps not in the future, no endpoint twice, and at
/// most one primary.
pub open spec fn active_wf(v: Seq<ActiveEntry>, n: int, now: u64) -> bool {
    &&& forall|i: int| 0 <= i < v.len() ==> (#[trigger] v[i]).endpoint < n
    &&& forall|i: int| 0 <= i < v.len() ==> (#[trigger] v[i]).since <= now
    &&& forall|i: int, j: int|
        0 <= i < j < v.len() ==> v[i].endpoint != v[j].endpoint
    &&& forall|i: int, j: int|
        0 <= i < v.len() && 0 <= j < v.len() && (#[trigger] v[i]).primary
            && (#[trigger] v[j]).primary ==> i == j
}

/// What one entry of the previous active set contributes to the new one,
/// once `prim` has been chosen as the new primary: a healthy, sticky,
/// non-primary endpoint is kept — with a fresh timestamp if it was the
/// demoted primary, with its old timestamp while its stickiness lasts — and
/// everything else is dropped.
pub open spec fn carry_of(
    l: ActiveEntry,
    eps: Seq<Endpoint>,
    healthy: Seq<bool>,
    prim: int,
    now: u64,
) -> Option<ActiveEntry> {
    if healthy[l.endpoint as int] && l.endpoint != prim {
        match eps[l.endpoint as int].sticky_ms {
            Some(s) => {
                if l.primary {
                    Some(ActiveEntry { endpoint: l.endpoint, since: now, primary: false })
                } else if now - l.since < s {
                    Some(ActiveEntry { endpoint: l.endpoint, since: l.since, primary: false })
                } else {
                    None
                }
            },
            None => None,
        }
    } else {
        None
    }
}

/// The carried part of the new active set, in the order of the previous one.
pub open spec fn carries(
    last: Seq<ActiveEntry>,
    eps: Seq<Endpoint>,
    healthy: Seq<bool>,
    prim: int,
    now: u64,
) -> Seq<ActiveEntry>
    decreases last.len(),
{
    if last.len() == 0 {
        Seq::empty()
    } else {
        carries(last.drop_last(), eps, healthy, prim, now) + (match carry_of(
            last.last(),
            eps,
            healthy,
            prim,
            now,
        ) {
            Some(e) => seq![e],
            None => Seq::empty(),
        })
    }
}

/// Every carried entry is a non-primary copy of a previous entry: healthy,
/// sticky, distinct from the new primary, and either refreshed to `now` or
/// still inside its sticky window.
pub proof fn lemma_carries_entries(
    last: Seq<ActiveEntry>,
    eps: Seq<Endpoint>,
    healthy: Seq<bool>,
    prim: int,
    now: u64,
)
    ensures
        forall|k: int|
            0 <= k < carries(last, eps, healthy, prim, now).len() ==> {
                let e = #[trigger] carries(last, eps, healthy, prim, now)[k];
                &&& !e.primary
                &&& e.endpoint != prim
                &&& healthy[e.endpoint as int]
                &&& eps[e.endpoint as int].sticky_ms is Some
                &&& (e.since == now || now - e.since
                    < eps[e.endpoint as int].sticky_ms->Some_0)
                &&& exists|m: int|
                    0 <= m < last.len() && (#[trigger] last[m]).endpoint == e.endpoint && (
                    e.since == now || last[m].since == e.since)
            },
    decreases last.len(),
{
    if last.len() > 0 {
        lemma_carries_entries(last.drop_last(), eps, healthy, prim, now);
        let pre = carries(last.drop_last(), eps, healthy, prim, now);
        let all = carries(last, eps, healthy, prim, now);
        assert forall|k: int| 0 <= k < all.len() implies {
            let e = #[trigger] all[k];
            &&& !e.primary
            &&& e.endpoint != prim
            &&& healthy[e.endpoint as int]
            &&& eps[e.endpoint as int].sticky_ms is Some
            &&& (e.since == now || now - e.since < eps[e.endpoint as int].sticky_ms->Some_0)
            &&& exists|m: int|
                0 <= m < last.len() && (#[trigger] last[m]).endpoint == e.endpoint && (
                e.since == now || last[m].since == e.since)
        } by {
            if k < pre.len() {
                assert(all[k] == pre[k]);
                let m = choose|m: int|
                    0 <= m < last.drop_last().len() && (#[trigger] last.drop_last()[m]).endpoint
                        == pre[k].endpoint && (pre[k].since == now || last.drop_last()[m].since
                        == pre[k].since);
                assert(last[m] == last.drop_last()[m]);
            } else {
                assert(all[k] == carry_of(last.last(), eps, healthy, prim, now)->Some_0);
                assert(last[last.len() - 1] == last.last());
            }
        }
    }
}

/// The carried entries keep distinct endpoints when the previous active set
/// did.
pub proof fn lemma_carries_distinct(
    last: Seq<ActiveEntry>,
    eps: Seq<Endpoint>,
    healthy: Seq<bool>,
    prim: int,
    now: u64,
)
    requires
        forall|i: int, j: int| 0 <= i < j < last.len() ==> last[i].endpoint != last[j].endpoint,
    ensures
        forall|i: int, j: int|
            0 <= i < j < carries(last, eps, healthy, prim, now).len()
                ==> carries(last, eps, healthy, prim, now)[i].endpoint != carries(
                last,
                eps,
                healthy,
                prim,
                now,
            )[j].endpoint,
        forall|k: int|
            0 <= k < carries(last, eps, healthy, prim, now).len() ==> exists|m: int|
                0 <= m < last.len() && (#[trigger] last[m]).endpoint == (
                #[trigger] carries(last, eps, healthy, prim, now)[k]).endpoint,
    decreases last.len(),
{
    if last.len() > 0 {
        let short = last.drop_last();
        lemma_carries_distinct(short, eps, healthy, prim, now);
        let pre = carries(short, eps, healthy, prim, now);
        let all = carries(last, eps, healthy, prim, now);
        assert forall|k: int| 0 <= k < all.len() implies exists|m: int|
            0 <= m < last.len() && (#[trigger] last[m]).endpoint == (
        #[trigger] all[k]).endpoint by {
            if k < pre.len() {
                assert(all[k] == pre[k]);
                let m = choose|m: int|
                    0 <= m < short.len() && (#[trigger] short[m]).endpoint == pre[k].endpoint;
                assert(last[m] == short[m]);
            } else {
                assert(all[k] == carry_of(last.last(), eps, healthy, prim, now)->Some_0);
                assert(last[last.len() - 1] == last.last());
            }
        }
        assert forall|i: int, j: int| 0 <= i < j < all.len() implies all[i].endpoint
            != all[j].endpoint by {
            if j < pre.len() {
            } else {
                assert(j == pre.len() && all.len() == pre.len() + 1);
                assert(all[j] == carry_of(last.last(), eps, healthy, prim, now)->Some_0);
                assert(all[j].endpoint == last.last().endpoint);
                let m = choose|m: int|
                    0 <= m < short.len() && (#[trigger] short[m]).endpoint == pre[i].endpoint;
                assert(last[m].endpoint != last[last.len() - 1].endpoint);
            }
        }
    }
}

/// Shape of a freshly selected active set: the new primary in front — the
/// healthy endpoint of least weight, first such index on ties — followed by
/// the carried sticky entries of the previous active set, in order.
pub open spec fn selected_form(
    v: Seq<ActiveEntry>,
    eps: Seq<Endpoint>,
    healthy: Seq<bool>,
    last: Seq<ActiveEntry>,
    now: u64,
) -> bool {
    let p = v[0];
    &&& v.len() >= 1
    &&& p.primary
    &&& p.since == now
    &&& p.endpoint < eps.len()
    &&& healthy[p.endpoint as int]
    &&& forall|j: int|
        0 <= j < healthy.len() && healthy[j] ==> eps[p.endpoint as int].weight
            <= (#[trigger] eps[j]).weight
    &&& forall|j: int|
        0 <= j < p.endpoint && healthy[j] ==> eps[p.endpoint as int].weight
            < (#[trigger] eps[j]).weight
    &&& v == seq![p] + carries(last, eps, healthy, p.endpoint as int, now)
}

/// A selected active set has exactly one primary entry, the one in front.
pub proof fn lemma_unique_primary(
    v: Seq<ActiveEntry>,
    eps: Seq<Endpoint>,
    healthy: Seq<bool>,
    last: Seq<ActiveEntry>,
    now: u64,
)
    requires
        selected_form(v, eps, healthy, last, now),
    ensures
        forall|k: int| 0 <= k < v.len() ==> ((#[trigger] v[k]).primary <==> k == 0),
{
    let prim = v[0].endpoint as int;
    lemma_carries_entries(last, eps, healthy, prim, now);
    assert forall|k: int| 0 <= k < v.len() implies ((#[trigger] v[k]).primary <==> k == 0) by {
        if k > 0 {
            assert(v[k] == carries(last, eps, healthy, prim, now)[k - 1]);
        }
    }
}

/// Every non-primary entry of a selected active set is still inside its
/// sticky window: `since + sticky_duration > now`, provided every configured
/// sticky duration is positive.
pub proof fn lemma_sticky_window(
    v: Seq<ActiveEntry>,
    eps: Seq<Endpoint>,
    healthy: Seq<bool>,
    last: Seq<ActiveEntry>,
    now: u64,
)
    requires
        selected_form(v, eps, healthy, last, now),
        forall|i: int|
            0 <= i < eps.len() && (#[trigger] eps[i]).sticky_ms is Some
                ==> eps[i].sticky_ms->Some_0 > 0,
        forall|m: int| 0 <= m < last.len() ==> (#[trigger] last[m]).endpoint < eps.len(),
    ensures
        forall|k: int|
            0 <= k < v.len() && !(#[trigger] v[k]).primary ==> v[k].since
                + eps[v[k].endpoint as int].sticky_ms->Some_0 > now,
{
    let prim = v[0].endpoint as int;
    lemma_carries_entries(last, eps, healthy, prim, now);
    assert forall|k: int| 0 <= k < v.len() && !(#[trigger] v[k]).primary implies v[k].since
        + eps[v[k].endpoint as int].sticky_ms->Some_0 > now by {
        assert(k > 0);
        let e = carries(last, eps, healthy, prim, now)[k - 1];
        assert(v[k] == e);
        let m = choose|m: int|
            0 <= m < last.len() && (#[trigger] last[m]).endpoint == e.endpoint && (e.since == now
                || last[m].since == e.since);
        assert(e.endpoint < eps.len());
    }
}

/// An endpoint with no sticky duration appears in a selected active set only
/// as the primary.
pub proof fn lemma_sticky_required(
    v: Seq<ActiveEntry>,
    eps: Seq<Endpoint>,
    healthy: Seq<bool>,
    last: Seq<ActiveEntry>,
    now: u64,
)
    requires
        selected_form(v, eps, healthy, last, now),
    ensures
        forall|k: int|
            0 <= k < v.len() && eps[(#[trigger] v[k]).endpoint as int].sticky_ms is None
                ==> v[k].primary,
{
    let prim = v[0].endpoint as int;
    lemma_carries_entries(last, eps, healthy, prim, now);
    assert forall|k: int|
        0 <= k < v.len() && eps[(#[trigger] v[k]).endpoint as int].sticky_ms is None implies
        v[k].primary by {
        if k > 0 {
            assert(v[k] == carries(last, eps, healthy, prim, now)[k - 1]);
        }
    }
}

/// A selected active set is well-formed whenever the previous one was.
pub proof fn lemma_selected_wf(
    v: Seq<ActiveEntry>,
    eps: Seq<Endpoint>,
    healthy: Seq<bool>,
    last: Seq<ActiveEntry>,
    now: u64,
)
    requires
        selected_form(v, eps, healthy, last, now),
        active_wf(last, eps.len() as int, now),
    ensures
        active_wf(v, eps.len() as int, now),
{
    let prim = v[0].endpoint as int;
    let cs = carries(last, eps, healthy, prim, now);
    lemma_carries_entries(last, eps, healthy, prim, now);
    lemma_carries_distinct(last, eps, healthy, prim, now);
    lemma_unique_primary(v, eps, healthy, last, now);
    assert forall|i: int| 0 <= i < v.len() implies (#[trigger] v[i]).endpoint
        < eps.len() by {
        if i > 0 {
            assert(v[i] == cs[i - 1]);
            let m = choose|m: int|
                0 <= m < last.len() && (#[trigger] last[m]).endpoint == cs[i - 1].endpoint && (
                cs[i - 1].since == now || last[m].since == cs[i - 1].since);
        }
    }
    assert forall|i: int| 0 <= i < v.len() implies (#[trigger] v[i]).since <= now by {
        if i > 0 {
            assert(v[i] == cs[i - 1]);
            let m = choose|m: int|
                0 <= m < last.len() && (#[trigger] last[m]).endpoint == cs[i - 1].endpoint && (
                cs[i - 1].since == now || last[m].since == cs[i - 1].since);
        }
    }
    assert forall|i: int, j: int| 0 <= i < j < v.len() implies v[i].endpoint
        != v[j].endpoint by {
        if i == 0 {
            assert(v[j] == cs[j - 1]);
        } else {
            assert(v[i] == cs[i - 1] && v[j] == cs[j - 1]);
        }
    }
}

/// Compute the new active set from the candidate set, a snapshot of the
/// health flags, the previous active set and the current instant.
///
/// Returns `None` — the cycle is skipped and the previous active set stands
/// — exactly when no endpoint is healthy.  Otherwise the result is the new
/// primary (the healthy endpoint of least weight, first such index on ties)
/// followed by the carried sticky entries of the previous set, in order.
pub fn select_active(
    eps: &Vec<Endpoint>,
    healthy: &Vec<bool>,
    last: &Vec<ActiveEntry>,
    now: u64,
) -> (r: Option<Vec<ActiveEntry>>)
    requires
        eps.len() == healthy.len(),
        active_wf(last@, eps.len() as int, now),
    ensures
        r is None <==> (forall|j: int| 0 <= j < healthy.len() ==> !healthy[j]),
        r matches Some(v) ==> selected_form(v@, eps@, healthy@, last@, now),
{
    let n = eps.len();
    let mut best: Option<usize> = None;
    let mut i: usize = 0;
    while i < n
        invariant
            n == eps.len() == healthy.len(),
            i <= n,
            best is None ==> forall|j: int| 0 <= j < i ==> !healthy@[j],
            best matches Some(b) ==> {
                &&& b < i
                &&& healthy@[b as int]
                &&& forall|j: int|
                    0 <= j < i && healthy@[j] ==> eps@[b as int].weight
                        <= (#[trigger] eps@[j]).weight
                &&& forall|j: int|
                    0 <= j < b && healthy@[j] ==> eps@[b as int].weight
                        < (#[trigger] eps@[j]).weight
            },
        decreases n - i,
    {
        if healthy[i] {
            match best {
                None => {
                    best = Some(i);
                },
                Some(b) => {
                    if eps[i].weight < eps[b].weight {
                        best = Some(i);
                    }
                },
            }
        }
        i += 1;
    }
    let prim = match best {
        Some(b) => b,
        None => {
            return None;
        },
    };
    let mut v: Vec<ActiveEntry> = Vec::new();
    v.push(ActiveEntry { endpoint: prim, since: now, primary: true });
    let ghost prim_entry = ActiveEntry { endpoint: prim, since: now, primary: true };
    let mut m: usize = 0;
    while m < last.len()
        invariant
            n == eps.len() == healthy.len(),
            active_wf(last@, n as int, now),
            m <= last.len(),
            prim < n,
            v@ == seq![prim_entry] + carries(
                last@.take(m as int),
                eps@,
                healthy@,
                prim as int,
                now,
            ),
        decreases last.len() - m,
    {
        let l = last[m];
        proof {
            assert(last@.take(m + 1).drop_last() =~= last@.take(m as int));
            assert(last@.take(m + 1).last() == last@[m as int]);
        }
        if healthy[l.endpoint] && l.endpoint != prim {
            match eps[l.endpoint].sticky_ms {
                Some(s) => {
                    if l.primary {
                        v.push(ActiveEntry { endpoint: l.endpoint, since: now, primary: false });
                    } else if now - l.since < s {
                        v.push(
                            ActiveEntry { endpoint: l.endpoint, since: l.since, primary: false },
                        );
                    }
                },
                None => {},
            }
        }
        m += 1;
    }
    proof {
        assert(last@.take(last@.len() as int) =~= last@);
    }
    Some(v)
}

/// How long the selector may sleep on account of one active entry before a
/// stickiness expiry must be observed: for a non-primary sticky entry, the
/// remaining window plus a one second cushion, or zero if it has already
/// expired.  Primary or non-sticky entries impose no deadline.
pub open spec fn wake_of(l: ActiveEntry, eps: Seq<Endpoint>, now: u64) -> Option<u64> {
    if !l.primary {
        match eps[l.endpoint as int].sticky_ms {
            Some(s) => if now - l.since <= s {
                Some((s - (now - l.since) + 1000) as u64)
            } else {
                Some(0u64)
            },
            None => None,
        }
    } else {
        None
    }
}

/// The earliest stickiness-expiry deadline over the active set, or `None`
/// when no entry imposes one.
pub fn sticky_wakeup_ms(
    last: &Vec<ActiveEntry>,
    eps: &Vec<Endpoint>,
    now: u64,
) -> (r: Option<u64>)
    requires
        crate::endpoint::endpoints_wf(eps@),
        active_wf(last@, eps.len() as int, now),
    ensures
        r is None <==> (forall|m: int|
            0 <= m < last.len() ==> wake_of(#[trigger] last@[m], eps@, now) is None),
        r matches Some(w) ==> {
            &&& exists|m: int|
                0 <= m < last.len() && wake_of(#[trigger] last@[m], eps@, now) == Some(w)
            &&& forall|m: int|
                0 <= m < last.len() && wake_of(#[trigger] last@[m], eps@, now) is Some
                    ==> w <= wake_of(last@[m], eps@, now)->Some_0
        },
{
    let mut r: Option<u64> = None;
    let mut m: usize = 0;
    while m < last.len()
        invariant
            crate::endpoint::endpoints_wf(eps@),
            active_wf(last@, eps.len() as int, now),
            m <= last.len(),
            r is None <==> (forall|k: int|
                0 <= k < m ==> wake_of(#[trigger] last@[k], eps@, now) is None),
            r matches Some(w) ==> {
                &&& exists|k: int|
                    0 <= k < m && wake_of(#[trigger] last@[k], eps@, now) == Some(w)
                &&& forall|k: int|
                    0 <= k < m && wake_of(#[trigger] last@[k], eps@, now) is Some
                        ==> w <= wake_of(last@[k], eps@, now)->Some_0
            },
        decreases last.len() - m,
    {
        let l = last[m];
        if !l.primary {
            match eps[l.endpoint].sticky_ms {
                Some(s) => {
                    let elapsed = now - l.since;
                    let w: u64 = if elapsed <= s {
                        s - elapsed + 1000
                    } else {
                        0
                    };
                    assert(wake_of(last@[m as int], eps@, now) == Some(w));
                    match r {
                        None => {
                            r = Some(w);
                        },
                        Some(prev) => {
                            if w < prev {
                                r = Some(w);
                            }
                        },
                    }
                },
                None => {},
            }
        }
        m += 1;
    }
    r
}

/// The least DNS TTL over the active set; the managed record is published
/// with this TTL.
pub fn min_ttl(active: &Vec<ActiveEntry>, eps: &Vec<Endpoint>) -> (r: u16)
    requires
        active.len() >= 1,
        forall|i: int| 0 <= i < active.len() ==> (#[trigger] active@[i]).endpoint < eps.len(),
    ensures
        exists|k: int|
            0 <= k < active.len() && r == eps@[(#[trigger] active@[k]).endpoint as int].dns.ttl,
        forall|k: int|
            0 <= k < active.len() ==> r <= eps@[(#[trigger] active@[k]).endpoint as int].dns.ttl,
{
    let mut r: u16 = eps[active[0].endpoint].dns.ttl;
    let mut k: usize = 1;
    while k < active.len()
        invariant
            active.len() >= 1,
            1 <= k <= active.len(),
            forall|i: int| 0 <= i < active.len() ==> (#[trigger] active@[i]).endpoint < eps.len(),
            exists|i: int|
                0 <= i < k && r == eps@[(#[trigger] active@[i]).endpoint as int].dns.ttl,
            forall|i: int|
                0 <= i < k ==> r <= eps@[(#[trigger] active@[i]).endpoint as int].dns.ttl,
        decreases active.len() - k,
    {
        let t = eps[active[k].endpoint].dns.ttl;
        if t < r {
            r = t;
        }
        k += 1;
    }
    r
}

/// Why the selector woke up: a monitor flipped an endpoint's health, or saw
/// the endpoint's resolved address set change.
#[derive(Clone, Copy, Debug, PartialEq, Eq, Structural)]
pub enum ChangeReason {
    /// The named endpoint's health flag flipped.
    EndpointHealthChanged {
        /// Index of the endpoint in the candidate set.
        endpoint: usize,
    },
    /// The named endpoint's resolved A/AAAA set changed.
    EndpointDnsValuesChanged {
        /// Index of the endpoint in the candidate set.
        endpoint: usize,
    },
}

/// Whether an event is discarded without reconciling: DNS churn on an
/// endpoint outside the active set is irrelevant.
pub fn should_skip_event(last: &Vec<ActiveEntry>, ev: &ChangeReason) -> (r: bool)
    ensures
        r == match ev {
            ChangeReason::EndpointDnsValuesChanged { endpoint } => !exists|m: int|
                0 <= m < last.len() && (#[trigger] last@[m]).endpoint == *endpoint,
            ChangeReason::EndpointHealthChanged { .. } => false,
        },
{
    match ev {
        ChangeReason::EndpointHealthChanged { .. } => false,
        ChangeReason::EndpointDnsValuesChanged { endpoint } => {
            let mut found = false;
            let mut m: usize = 0;
            while m < last.len()
                invariant
                    m <= last.len(),
                    found == exists|k: int|
                        0 <= k < m && (#[trigger] last@[k]).endpoint == *endpoint,
                decreases last.len() - m,
            {
                if last[m].endpoint == *endpoint {
                    found = true;
                }
                m += 1;
            }
            !found
        },
    }
}

/// Whether the primary differs from the previous cycle's, comparing by
/// endpoint identity; absence of a prior primary counts as changed.
pub fn primary_changed(last: &Vec<ActiveEntry>, new_primary: usize) -> (r: bool)
    ensures
        r == !exists|m: int|
            0 <= m < last.len() && (#[trigger] last@[m]).primary && last@[m].endpoint
                == new_primary,
{
    let mut m: usize = 0;
    while m < last.len()
        invariant
            m <= last.len(),
            forall|k: int|
                0 <= k < m ==> !((#[trigger] last@[k]).primary && last@[k].endpoint
                    == new_primary),
        decreases last.len() - m,
    {
        if last[m].primary && last[m].endpoint == new_primary {
            return false;
        }
        m += 1;
    }
    true
}

/// Which endpoints the new active set selects, as one flag per endpoint;
/// drives the per-endpoint selection gauges.
pub fn selected_flags(n: usize, active: &Vec<ActiveEntry>) -> (r: Vec<bool>)
    ensures
        r.len() == n,
        forall|i: int|
            0 <= i < n ==> r@[i] == exists|k: int|
                0 <= k < active.len() && (#[trigger] active@[k]).endpoint == i,
{
    let mut r: Vec<bool> = Vec::new();
    let mut i: usize = 0;
    while i < n
        invariant
            i <= n,
            r.len() == i,
            forall|j: int|
                0 <= j < i ==> r@[j] == exists|k: int|
                    0 <= k < active.len() && (#[trigger] active@[k]).endpoint == j,
        decreases n - i,
    {
        let mut found = false;
        let mut k: usize = 0;
        while k < active.len()
            invariant
                k <= active.len(),
                found == exists|m: int|
                    0 <= m < k && (#[trigger] active@[m]).endpoint == i,
            decreases active.len() - k,
        {
            if active[k].endpoint == i {
                found = true;
            }
            k += 1;
        }
        r.push(found);
        i += 1;
    }
    r
}

/// Everything one successful cycle decided: the new active set, the TTL to
/// publish, the new primary and whether it changed.  The caller reconciles
/// the provider first and commits the plan only on success, so a failed
/// reconciliation leaves the previous active set standing.
#[derive(Debug)]
pub struct CyclePlan {
    /// The new active set.
    pub new_active: Vec<ActiveEntry>,
    /// Least TTL over the new active set.
    pub ttl: u16,
    /// Index of the new primary endpoint.
    pub primary: usize,
    /// Whether the primary differs from the previous cycle's.
    pub primary_changed: bool,
}

/// The selector's state between cycles: the last committed active set.
#[derive(Debug)]
pub struct Selector {
    /// The active set of the last committed cycle.
    pub last_active: Vec<ActiveEntry>,
}

impl Selector {
    /// A fresh selector with an empty active set.
    pub fn new() -> (r: Selector)
        ensures
            r.last_active@.len() == 0,
    {
        Selector { last_active: Vec::new() }
    }

    /// Plan one cycle.  Returns `None` — and the previous active set stands
    /// untouched — exactly when no endpoint is healthy.
    pub fn plan_cycle(&self, eps: &Vec<Endpoint>, healthy: &Vec<bool>, now: u64) -> (r: Option<
        CyclePlan,
    >)
        requires
            eps.len() == healthy.len(),
            active_wf(self.last_active@, eps.len() as int, now),
        ensures
            r is None <==> (forall|j: int| 0 <= j < healthy.len() ==> !healthy[j]),
            r matches Some(plan) ==> {
                &&& selected_form(plan.new_active@, eps@, healthy@, self.last_active@, now)
                &&& plan.primary == plan.new_active@[0].endpoint
                &&& plan.primary_changed == !exists|m: int|
                    0 <= m < self.last_active.len() && (#[trigger] self.last_active@[m]).primary
                        && self.last_active@[m].endpoint == plan.primary
                &&& exists|k: int|
                    0 <= k < plan.new_active.len() && plan.ttl == eps@[(
                    #[trigger] plan.new_active@[k]).endpoint as int].dns.ttl
                &&& forall|k: int|
                    0 <= k < plan.new_active.len() ==> plan.ttl <= eps@[(
                    #[trigger] plan.new_active@[k]).endpoint as int].dns.ttl
            },
    {
        let new_active = match select_active(eps, healthy, &self.last_active, now) {
            Some(v) => v,
            None => {
                return None;
            },
        };
        proof {
            lemma_selected_wf(new_active@, eps@, healthy@, self.last_active@, now);
        }
        let primary = new_active[0].endpoint;
        let ttl = min_ttl(&new_active, eps);
        let changed = primary_changed(&self.last_active, primary);
        Some(CyclePlan { new_active, ttl, primary, primary_changed: changed })
    }

    /// Commit a cycle whose provider reconciliation succeeded.
    pub fn commit(&mut self, plan: CyclePlan)
        ensures
            final(self).last_active@ == plan.new_active@,
    {
        self.last_active = plan.new_active;
    }
}

} // verus!
