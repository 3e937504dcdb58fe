//! Provider reconciliation: drive the managed record set to a desired
//! state with the fewest API calls, through a cache of the last state the
//! provider was brought to.
//!
//! A reconciliation is a session: a short protocol of provider calls
//! (list, delete, create, patch) whose outcomes the driver feeds back into
//! the state machine here.  Every decision — which call comes next, when
//! the session is done, when it failed, and what happens to the cache —
//! is made by the verified transitions.  The cache becomes `Some(state)`
//! only in a transition that completes a session for `state`; every error
//! clears it.

use vstd::prelude::*;
use crate::dns_state::{DesiredDnsState, state_eq, state_eq_exec};
use crate::ip::IpAddress;

verus! {

/// An error from the provider API itself.
#[derive(Debug)]
pub enum CloudflareApiError {
    /// The HTTP exchange failed; the detail names the phase or status.
    Http(String),
    /// The response body was not valid JSON.
    JsonParseError(String),
    /// The response was JSON of an unexpected shape.
    SchemaParseError,
}

/// Why a reconciliation failed.
#[derive(Debug)]
pub enum CloudflareUpdateError {
    /// A provider API call failed.
    ApiError(CloudflareApiError),
    /// Resolving an endpoint's addresses failed.
    DnsError(String),
    /// The update-in-place path found the provider changed under us.
    Conflict,
}

/// One provider API call the driver must perform next.
#[derive(Debug)]
pub enum ApiAction {
    /// Enumerate the record ids under the managed name.
    ListRecords,
    /// Delete the record with this id.
    DeleteRecord {
        /// Provider id of the record.
        id: String,
    },
    /// Create a CNAME record pointing at `target`.
    CreateCname {
        /// The CNAME target.
        target: String,
        /// TTL of the record.
        ttl: u16,
    },
    /// Create an A or AAAA record for `ip`.
    CreateAddress {
        /// The address.
        ip: IpAddress,
        /// TTL of the record.
        ttl: u16,
    },
    /// Rewrite the single existing record in place.
    PatchCname {
        /// Provider id of the record to patch.
        id: String,
        /// The CNAME target.
        target: String,
        /// TTL of the record.
        ttl: u16,
    },
}

/// Where a session stands.
#[derive(Debug)]
pub enum SessionPhase {
    /// Waiting for the record listing of the full-cleanup path.
    CleanupListing,
    /// Deleting the listed records, `ids[next]` first.
    Deleting {
        /// The listed record ids.
        ids: Vec<String>,
        /// Index of the next id to delete.
        next: usize,
    },
    /// Creating the desired records, number `next` first.
    Creating {
        /// Index of the next record to create.
        next: usize,
    },
    /// Waiting for the record listing of the update-in-place path.
    UpdateListing,
    /// Waiting for the acknowledgement of the in-place patch.
    Patching,
    /// The provider holds the desired state; the cache records it.
    Done,
    /// The session failed; the cache is cleared.
    Failed,
}

/// One reconciliation in progress.
#[derive(Debug)]
pub struct Session {
    /// Where the session stands.
    pub phase: SessionPhase,
    /// The state being established.
    pub desired: DesiredDnsState,
    /// TTL for every record written.
    pub ttl: u16,
}

/// How many records a desired state is published as.
pub open spec fn record_count(d: DesiredDnsState) -> int {
    match d {
        DesiredDnsState::SingleCname { .. } => 1,
        DesiredDnsState::MultiAddress { ips } => ips@.len() as int,
    }
}

/// The creation call for record number `k` of a desired state.
pub open spec fn create_action(d: DesiredDnsState, ttl: u16, k: int) -> ApiAction {
    match d {
        DesiredDnsState::SingleCname { target } => ApiAction::CreateCname { target, ttl },
        DesiredDnsState::MultiAddress { ips } => ApiAction::CreateAddress { ip: ips@[k], ttl },
    }
}

/// Whether two API calls say the same thing; texts are compared by
/// content.
pub open spec fn action_like(a: ApiAction, b: ApiAction) -> bool {
    match (a, b) {
        (ApiAction::ListRecords, ApiAction::ListRecords) => true,
        (ApiAction::DeleteRecord { id: x }, ApiAction::DeleteRecord { id: y }) => x@ == y@,
        (
            ApiAction::CreateCname { target: x, ttl: s },
            ApiAction::CreateCname { target: y, ttl: t },
        ) => x@ == y@ && s == t,
        (
            ApiAction::CreateAddress { ip: x, ttl: s },
            ApiAction::CreateAddress { ip: y, ttl: t },
        ) => x == y && s == t,
        (
            ApiAction::PatchCname { id: x, target: u, ttl: s },
            ApiAction::PatchCname { id: y, target: v, ttl: t },
        ) => x@ == y@ && u@ == v@ && s == t,
        _ => false,
    }
}

impl Session {
    /// Internal consistency of a session.
    pub open spec fn wf(self) -> bool {
        &&& self.desired.wf()
        &&& match self.phase {
            SessionPhase::Deleting { ids, next } => next <= ids@.len(),
            SessionPhase::Creating { next } => next <= record_count(self.desired),
            SessionPhase::UpdateListing => self.desired is SingleCname,
            SessionPhase::Patching => self.desired is SingleCname,
            _ => true,
        }
    }
}

/// Build the creation call for record number `k` of a desired state.
fn make_create(d: &DesiredDnsState, ttl: u16, k: usize) -> (r: ApiAction)
    requires
        k < record_count(*d),
    ensures
        action_like(r, create_action(*d, ttl, k as int)),
{
    match d {
        DesiredDnsState::SingleCname { target } => ApiAction::CreateCname {
            target: target.clone(),
            ttl,
        },
        DesiredDnsState::MultiAddress { ips } => ApiAction::CreateAddress { ip: ips[k], ttl },
    }
}

/// Provider credentials and the record cache.
pub struct CloudflareConfiguration {
    /// The provider zone the managed record lives in.
    pub zone_id: String,
    /// Bearer token for the provider API.
    pub token: String,
    /// The last state the provider was successfully reconciled to, or
    /// `None` when that is unknown.
    pub cache: Option<DesiredDnsState>,
}

impl CloudflareConfiguration {
    /// Fresh credentials with an empty cache.
    pub fn new(token: String, zone_id: String) -> (r: CloudflareConfiguration)
        ensures
            r.token == token,
            r.zone_id == zone_id,
            r.cache is None,
    {
        CloudflareConfiguration { zone_id, token, cache: None }
    }

    /// Open a reconciliation session for `desired`.
    ///
    /// With the cache equal to `desired` the session is already done and no
    /// call is made.  With a cached CNAME state and a CNAME desired, the
    /// cheap update-in-place path is taken; anything else starts the full
    /// cleanup.  Either way the first call is the record listing.
    ///
    /// A desired state of no records — several active endpoints, all
    /// resolving to nothing — is intended: the cleanup deletes everything
    /// under the name and that empty state is cached.
    pub fn begin(&self, desired: DesiredDnsState, ttl: u16) -> (r: (Session, Option<ApiAction>))
        requires
            desired.wf(),
        ensures
            r.0.desired == desired,
            r.0.ttl == ttl,
            r.0.wf(),
            match self.cache {
                Some(c) => if state_eq(c, desired) {
                    r.0.phase is Done && r.1 is None
                } else if c is SingleCname && desired is SingleCname {
                    r.0.phase is UpdateListing && r.1 == Some(ApiAction::ListRecords)
                } else {
                    r.0.phase is CleanupListing && r.1 == Some(ApiAction::ListRecords)
                },
                None => r.0.phase is CleanupListing && r.1 == Some(ApiAction::ListRecords),
            },
    {
        match &self.cache {
            Some(c) => {
                if state_eq_exec(c, &desired) {
                    (Session { phase: SessionPhase::Done, desired, ttl }, None)
                } else if c.same_type(&desired) && matches!(desired, DesiredDnsState::SingleCname { .. }) {
                    (
                        Session { phase: SessionPhase::UpdateListing, desired, ttl },
                        Some(ApiAction::ListRecords),
                    )
                } else {
                    (
                        Session { phase: SessionPhase::CleanupListing, desired, ttl },
                        Some(ApiAction::ListRecords),
                    )
                }
            },
            None => (
                Session { phase: SessionPhase::CleanupListing, desired, ttl },
                Some(ApiAction::ListRecords),
            ),
        }
    }

    /// Feed the record listing into a session.
    ///
    /// On the cleanup path the listed records are deleted first, then the
    /// desired ones created; an empty listing goes straight to creation,
    /// and a desired state of no records completes at once.  On the
    /// update-in-place path anything but exactly one listed record is a
    /// conflict: some external change occurred, the session fails and the
    /// cache is cleared.
    pub fn on_list(&mut self, s: Session, ids: Vec<String>) -> (r: (
        Session,
        Option<ApiAction>,
        Option<CloudflareUpdateError>,
    ))
        requires
            s.wf(),
            s.phase is CleanupListing || s.phase is UpdateListing,
        ensures
            r.0.desired == s.desired,
            r.0.ttl == s.ttl,
            r.0.wf(),
            match s.phase {
                SessionPhase::CleanupListing => {
                    &&& r.2 is None
                    &&& if ids@.len() > 0 {
                        &&& r.0.phase == (SessionPhase::Deleting { ids, next: 0 })
                        &&& r.1 matches Some(a) && action_like(
                            a,
                            ApiAction::DeleteRecord { id: ids@[0] },
                        )
                        &&& final(self).cache == old(self).cache
                    } else if record_count(s.desired) > 0 {
                        &&& r.0.phase == (SessionPhase::Creating { next: 0 })
                        &&& r.1 matches Some(a) && action_like(
                            a,
                            create_action(s.desired, s.ttl, 0),
                        )
                        &&& final(self).cache == old(self).cache
                    } else {
                        &&& r.0.phase is Done
                        &&& r.1 is None
                        &&& final(self).cache matches Some(c) && state_eq(c, s.desired)
                    }
                },
                SessionPhase::UpdateListing => {
                    if ids@.len() == 1 {
                        &&& r.0.phase is Patching
                        &&& r.1 matches Some(a) && action_like(
                            a,
                            ApiAction::PatchCname {
                                id: ids@[0],
                                target: s.desired->SingleCname_target,
                                ttl: s.ttl,
                            },
                        )
                        &&& r.2 is None
                        &&& final(self).cache == old(self).cache
                    } else {
                        &&& r.0.phase is Failed
                        &&& r.1 is None
                        &&& r.2 matches Some(CloudflareUpdateError::Conflict)
                        &&& final(self).cache is None
                    }
                },
                _ => false,
            },
    {
        let Session { phase, desired, ttl } = s;
        match phase {
            SessionPhase::UpdateListing => {
                if ids.len() == 1 {
                    let id = ids[0].clone();
                    let target = match &desired {
                        DesiredDnsState::SingleCname { target } => target.clone(),
                        DesiredDnsState::MultiAddress { .. } => {
                            proof {
                                assert(false);
                            }
                            String::new()
                        },
                    };
                    (
                        Session { phase: SessionPhase::Patching, desired, ttl },
                        Some(ApiAction::PatchCname { id, target, ttl }),
                        None,
                    )
                } else {
                    self.cache = None;
                    (
                        Session { phase: SessionPhase::Failed, desired, ttl },
                        None,
                        Some(CloudflareUpdateError::Conflict),
                    )
                }
            },
            _ => {
                if ids.len() > 0 {
                    let first = ids[0].clone();
                    (
                        Session { phase: SessionPhase::Deleting { ids, next: 0 }, desired, ttl },
                        Some(ApiAction::DeleteRecord { id: first }),
                        None,
                    )
                } else {
                    let count_pos = match &desired {
                        DesiredDnsState::SingleCname { .. } => true,
                        DesiredDnsState::MultiAddress { ips } => ips.len() > 0,
                    };
                    if count_pos {
                        let act = make_create(&desired, ttl, 0);
                        (
                            Session { phase: SessionPhase::Creating { next: 0 }, desired, ttl },
                            Some(act),
                            None,
                        )
                    } else {
                        self.cache = Some(clone_state(&desired));
                        (Session { phase: SessionPhase::Done, desired, ttl }, None, None)
                    }
                }
            },
        }
    }

    /// Acknowledge one deletion of the cleanup path: delete the next
    /// listed record, or begin creating the desired ones; a desired state
    /// of no records completes the session.
    pub fn on_delete_ok(&mut self, s: Session) -> (r: (Session, Option<ApiAction>))
        requires
            s.wf(),
            s.phase is Deleting,
            s.phase->Deleting_next < s.phase->Deleting_ids@.len(),
        ensures
            r.0.desired == s.desired,
            r.0.ttl == s.ttl,
            r.0.wf(),
            ({
                let ids = s.phase->Deleting_ids;
                let next = s.phase->Deleting_next;
                if next + 1 < ids@.len() {
                    &&& r.0.phase == (SessionPhase::Deleting { ids, next: (next + 1) as usize })
                    &&& r.1 matches Some(a) && action_like(
                        a,
                        ApiAction::DeleteRecord { id: ids@[next + 1] },
                    )
                    &&& final(self).cache == old(self).cache
                } else if record_count(s.desired) > 0 {
                    &&& r.0.phase == (SessionPhase::Creating { next: 0 })
                    &&& r.1 matches Some(a) && action_like(a, create_action(s.desired, s.ttl, 0))
                    &&& final(self).cache == old(self).cache
                } else {
                    &&& r.0.phase is Done
                    &&& r.1 is None
                    &&& final(self).cache matches Some(c) && state_eq(c, s.desired)
                }
            }),
    {
        let Session { phase, desired, ttl } = s;
        match phase {
            SessionPhase::Deleting { ids, next } => {
                let len = ids.len();
                if next + 1 < len {
                    let id = ids[next + 1].clone();
                    (
                        Session {
                            phase: SessionPhase::Deleting { ids, next: next + 1 },
                            desired,
                            ttl,
                        },
                        Some(ApiAction::DeleteRecord { id }),
                    )
                } else {
                    let count_pos = match &desired {
                        DesiredDnsState::SingleCname { .. } => true,
                        DesiredDnsState::MultiAddress { ips } => ips.len() > 0,
                    };
                    if count_pos {
                        let act = make_create(&desired, ttl, 0);
                        (
                            Session { phase: SessionPhase::Creating { next: 0 }, desired, ttl },
                            Some(act),
                        )
                    } else {
                        self.cache = Some(clone_state(&desired));
                        (Session { phase: SessionPhase::Done, desired, ttl }, None)
                    }
                }
            },
            _ => {
                proof {
                    assert(false);
                }
                (Session { phase: SessionPhase::Failed, desired, ttl }, None)
            },
        }
    }

    /// Acknowledge one creation: create the next desired record, or — with
    /// every record in place — complete the session and record the state
    /// in the cache.
    pub fn on_create_ok(&mut self, s: Session) -> (r: (Session, Option<ApiAction>))
        requires
            s.wf(),
            s.phase is Creating,
            s.phase->Creating_next < record_count(s.desired),
        ensures
            r.0.desired == s.desired,
            r.0.ttl == s.ttl,
            r.0.wf(),
            ({
                let next = s.phase->Creating_next;
                if next + 1 < record_count(s.desired) {
                    &&& r.0.phase == (SessionPhase::Creating { next: (next + 1) as usize })
                    &&& r.1 matches Some(a) && action_like(
                        a,
                        create_action(s.desired, s.ttl, next + 1),
                    )
                    &&& final(self).cache == old(self).cache
                } else {
                    &&& r.0.phase is Done
                    &&& r.1 is None
                    &&& final(self).cache matches Some(c) && state_eq(c, s.desired)
                }
            }),
    {
        let Session { phase, desired, ttl } = s;
        match phase {
            SessionPhase::Creating { next } => {
                let count: usize = match &desired {
                    DesiredDnsState::SingleCname { .. } => 1,
                    DesiredDnsState::MultiAddress { ips } => ips.len(),
                };
                if next + 1 < count {
                    let act = make_create(&desired, ttl, next + 1);
                    (
                        Session { phase: SessionPhase::Creating { next: next + 1 }, desired, ttl },
                        Some(act),
                    )
                } else {
                    self.cache = Some(clone_state(&desired));
                    (Session { phase: SessionPhase::Done, desired, ttl }, None)
                }
            },
            _ => {
                proof {
                    assert(false);
                }
                (Session { phase: SessionPhase::Failed, desired, ttl }, None)
            },
        }
    }

    /// Acknowledge the in-place patch: the provider now holds the desired
    /// CNAME, the session is done and the cache records it.
    pub fn on_patch_ok(&mut self, s: Session) -> (r: Session)
        requires
            s.wf(),
            s.phase is Patching,
        ensures
            r.desired == s.desired,
            r.ttl == s.ttl,
            r.wf(),
            r.phase is Done,
            final(self).cache matches Some(c) && state_eq(c, s.desired),
    {
        self.cache = Some(clone_state(&s.desired));
        let Session { phase: _, desired, ttl } = s;
        Session { phase: SessionPhase::Done, desired, ttl }
    }

    /// Record a failed provider call: the session fails and the cache is
    /// cleared, as nothing is known about the provider's state any more.
    pub fn on_error(&mut self, s: Session) -> (r: Session)
        ensures
            r.desired == s.desired,
            r.ttl == s.ttl,
            r.phase is Failed,
            final(self).cache is None,
    {
        self.cache = None;
        let Session { phase: _, desired, ttl } = s;
        Session { phase: SessionPhase::Failed, desired, ttl }
    }
}

/// Spec-level content of one provider record under the managed name.
pub enum RecordContent {
    /// A CNAME record with this target.
    Cname {
        /// The CNAME target.
        target: Seq<char>,
    },
    /// An A or AAAA record for this address.
    Address {
        /// The address.
        ip: IpAddress,
    },
}

/// The records a desired state is published as, in creation order.
pub open spec fn records_of(d: DesiredDnsState) -> Seq<RecordContent> {
    match d {
        DesiredDnsState::SingleCname { target } => seq![
            RecordContent::Cname { target: target@ },
        ],
        DesiredDnsState::MultiAddress { ips } => Seq::new(
            ips@.len(),
            |i: int| RecordContent::Address { ip: ips@[i] },
        ),
    }
}

/// A model of the provider's records under the managed name: record id to
/// content.  Deleting removes an id; creating adds one under a fresh id.
pub open spec fn after_deletes(
    m: Map<Seq<char>, RecordContent>,
    ids: Seq<Seq<char>>,
) -> Map<Seq<char>, RecordContent>
    decreases ids.len(),
{
    if ids.len() == 0 {
        m
    } else {
        after_deletes(m, ids.drop_last()).remove(ids.last())
    }
}

/// The provider model after creating `recs` under the fresh ids `fresh`,
/// in order.
pub open spec fn after_creates(
    m: Map<Seq<char>, RecordContent>,
    fresh: Seq<Seq<char>>,
    recs: Seq<RecordContent>,
) -> Map<Seq<char>, RecordContent>
    decreases fresh.len(),
{
    if fresh.len() == 0 || recs.len() == 0 {
        m
    } else {
        after_creates(m, fresh.drop_last(), recs.drop_last()).insert(fresh.last(), recs.last())
    }
}

proof fn lemma_seq_to_set_last<A>(s: Seq<A>)
    requires
        s.len() > 0,
    ensures
        s.to_set() =~= s.drop_last().to_set().insert(s.last()),
{
    assert forall|x: A| s.to_set().contains(x) implies s.drop_last().to_set().insert(
        s.last(),
    ).contains(x) by {
        let i = choose|i: int| 0 <= i < s.len() && s[i] == x;
        if i < s.len() - 1 {
            assert(s.drop_last()[i] == x);
        }
    }
    assert forall|x: A| s.drop_last().to_set().insert(s.last()).contains(x) implies
        s.to_set().contains(x) by {
        if x == s.last() {
            assert(s[s.len() - 1] == x);
        } else {
            let i = choose|i: int| 0 <= i < s.drop_last().len() && s.drop_last()[i] == x;
            assert(s[i] == x);
        }
    }
}

/// Deleting every listed id removes exactly the listed set.
proof fn lemma_after_deletes_dom(m: Map<Seq<char>, RecordContent>, ids: Seq<Seq<char>>)
    ensures
        after_deletes(m, ids).dom() =~= m.dom().difference(ids.to_set()),
    decreases ids.len(),
{
    if ids.len() == 0 {
        assert(ids.to_set() =~= Set::<Seq<char>>::empty());
    } else {
        lemma_after_deletes_dom(m, ids.drop_last());
        lemma_seq_to_set_last(ids);
    }
}

/// Creating records under fresh, distinct ids over an unrelated map adds
/// exactly those records.
proof fn lemma_after_creates(
    m: Map<Seq<char>, RecordContent>,
    fresh: Seq<Seq<char>>,
    recs: Seq<RecordContent>,
)
    requires
        fresh.no_duplicates(),
        fresh.len() == recs.len(),
        forall|k: int| 0 <= k < fresh.len() ==> !m.dom().contains(#[trigger] fresh[k]),
    ensures
        after_creates(m, fresh, recs).dom() =~= m.dom().union(fresh.to_set()),
        forall|k: int|
            0 <= k < fresh.len() ==> after_creates(m, fresh, recs)[#[trigger] fresh[k]]
                == recs[k],
    decreases fresh.len(),
{
    if fresh.len() > 0 {
        lemma_after_creates(m, fresh.drop_last(), recs.drop_last());
        lemma_seq_to_set_last(fresh);
        let pre = after_creates(m, fresh.drop_last(), recs.drop_last());
        let all = after_creates(m, fresh, recs);
        assert(all == pre.insert(fresh.last(), recs.last()));
        assert forall|k: int| 0 <= k < fresh.len() implies all[#[trigger] fresh[k]]
            == recs[k] by {
            if k < fresh.len() - 1 {
                assert(fresh.drop_last()[k] == fresh[k]);
                assert(recs.drop_last()[k] == recs[k]);
                assert(fresh[k] != fresh.last());
                assert(pre[fresh[k]] == recs[k]);
            } else {
                assert(fresh[k] == fresh.last() && recs[k] == recs.last());
            }
        }
    }
}

/// Soundness of the cache after a completed full cleanup: when the record
/// listing was complete, deleting every listed record and creating the
/// desired ones — each acknowledged by the provider, as the session
/// demands before it writes the cache — leaves the provider holding
/// exactly the records of the cached state.
pub proof fn lemma_cleanup_establishes_state(
    m: Map<Seq<char>, RecordContent>,
    listed: Seq<Seq<char>>,
    fresh: Seq<Seq<char>>,
    d: DesiredDnsState,
)
    requires
        listed.to_set() == m.dom(),
        fresh.no_duplicates(),
        fresh.len() == records_of(d).len(),
    ensures
        ({
            let after = after_creates(after_deletes(m, listed), fresh, records_of(d));
            &&& after.dom() == fresh.to_set()
            &&& forall|k: int|
                0 <= k < fresh.len() ==> after[#[trigger] fresh[k]] == records_of(d)[k]
        }),
{
    lemma_after_deletes_dom(m, listed);
    let cleaned = after_deletes(m, listed);
    assert(cleaned.dom() =~= Set::<Seq<char>>::empty());
    lemma_after_creates(cleaned, fresh, records_of(d));
    assert(after_creates(cleaned, fresh, records_of(d)).dom() =~= fresh.to_set());
}

/// Soundness of the cache after a completed in-place patch: with exactly
/// one record listed — which the session insists on, failing with
/// `Conflict` otherwise — rewriting it leaves the provider holding
/// exactly the records of the cached CNAME state.
pub proof fn lemma_patch_establishes_state(
    m: Map<Seq<char>, RecordContent>,
    id: Seq<char>,
    d: DesiredDnsState,
)
    requires
        m.dom() == set![id],
        d is SingleCname,
    ensures
        ({
            let after = m.insert(id, RecordContent::Cname { target: d->SingleCname_target@ });
            &&& after.dom() == set![id]
            &&& after[id] == records_of(d)[0]
        }),
{
    assert(m.insert(id, RecordContent::Cname { target: d->SingleCname_target@ }).dom()
        =~= set![id]);
}

/// Clone a desired state.
fn clone_state(d: &DesiredDnsState) -> (r: DesiredDnsState)
    ensures
        state_eq(r, *d),
        r.wf() == d.wf(),
{
    match d {
        DesiredDnsState::SingleCname { target } => DesiredDnsState::SingleCname {
            target: target.clone(),
        },
        DesiredDnsState::MultiAddress { ips } => {
            let mut v: Vec<IpAddress> = Vec::new();
            let mut i: usize = 0;
            while i < ips.len()
                invariant
                    i <= ips.len(),
                    v@ =~= ips@.subrange(0, i as int),
                decreases ips.len() - i,
            {
                v.push(ips[i]);
                i += 1;
            }
            proof {
                assert(v@ =~= ips@);
            }
            DesiredDnsState::MultiAddress { ips: v }
        },
    }
}

} // verus!
