//! Which Resources are in transfer, in both directions.
//!
//! The transfers themselves (windows, hash maps, reassembly buffers) live
//! outside. What is kept here is which segments exist, to which logical Resource
//! each belongs, and who owes the application a conclusion.

use vstd::prelude::*;

use crate::assoc::{cut, find, position, same_bytes, select, Assoc, ResourceKey, Select};

verus! {

/// Names `hash` on the Link `link_id`.
pub open spec fn key_of(link_id: [u8; 16], hash: [u8; 32]) -> ResourceKey {
    ResourceKey { link_id, hash }
}

/// One segment that is being received.
#[derive(Debug, Clone, Copy)]
pub struct InboundTransfer {
    /// Size of the logical Resource's data.
    pub data_size: usize,
}

/// To which logical Resource a segment belongs, and as which part of it.
#[derive(Debug, Clone, Copy)]
pub struct SegmentRoute {
    pub original_hash: [u8; 32],
    pub segment_index: usize,
}

/// Reassembly of a split Resource.
#[derive(Debug, Clone, Copy)]
pub struct SplitCoordinator {
    pub total_segments: usize,
    pub assembled_count: usize,
}

/// One segment that is being sent, or waits to be.
#[derive(Debug, Clone, Copy)]
pub struct OutboundTransfer {
    pub resource_hash: [u8; 32],
    pub original_hash: Option<[u8; 32]>,
    pub segment_index: usize,
    pub total_segments: usize,
    /// Size of the logical Resource's data, as advertised.
    pub advertisement_data_size: usize,
}

/// An accepted inbound logical Resource whose end has not been reported yet.
#[derive(Debug)]
pub struct InboundResourceLifecycle {
    pub data_size: usize,
    pub total_segments: usize,
    pub current_segment: Option<[u8; 32]>,
    pub is_request: bool,
    pub is_response: bool,
    pub request_id: Option<Vec<u8>>,
    /// When waiting for the next segment ends, in milliseconds of the manager's clock.
    pub inter_segment_deadline: Option<u64>,
}

/// A logical Resource: its id, the position of the segment in it, and its number
/// of segments.
#[derive(Debug, Clone, Copy)]
pub struct ResourceIdentity {
    pub id: [u8; 32],
    pub segment_index: usize,
    pub total_segments: usize,
}

impl OutboundTransfer {
    pub open spec fn logical_id(self) -> [u8; 32] {
        match self.original_hash {
            Some(hash) => hash,
            None => self.resource_hash,
        }
    }

    /// The logical Resource of this segment.
    pub fn outbound_resource_identity(&self) -> (r: ResourceIdentity)
        ensures
            r == (ResourceIdentity {
                id: self.logical_id(),
                segment_index: self.segment_index,
                total_segments: self.total_segments,
            }),
    {
        let id = match self.original_hash {
            Some(hash) => hash,
            None => self.resource_hash,
        };
        ResourceIdentity {
            id,
            segment_index: self.segment_index,
            total_segments: self.total_segments,
        }
    }
}

/// The Resources of all Links.
pub struct Resources {
    /// Segments being received, under their own hashes.
    pub inbound: Assoc<ResourceKey, InboundTransfer>,
    /// Routes from a segment's hash to its logical Resource.
    pub routes: Assoc<ResourceKey, SegmentRoute>,
    /// Reassembly of split Resources, under their original hashes.
    pub splits: Assoc<ResourceKey, SplitCoordinator>,
    /// Segments being sent, under their own hashes.
    pub outbound: Assoc<ResourceKey, OutboundTransfer>,
    /// Segments that wait for the one before them, in order, under the id of
    /// their logical Resource.
    pub queued: Assoc<ResourceKey, OutboundTransfer>,
    /// Exactly-once terminal ownership for accepted inbound logical Resources.
    /// Split transfers remain here between segment advertisements.
    pub lifecycles: Assoc<ResourceKey, InboundResourceLifecycle>,
    /// Accepted request Resources.
    pub pending_requests: Assoc<ResourceKey, ()>,
}

#[verifier::ext_equal]
pub struct ResourcesModel {
    pub inbound: Seq<(ResourceKey, InboundTransfer)>,
    pub routes: Seq<(ResourceKey, SegmentRoute)>,
    pub splits: Seq<(ResourceKey, SplitCoordinator)>,
    pub outbound: Seq<(ResourceKey, OutboundTransfer)>,
    pub queued: Seq<(ResourceKey, OutboundTransfer)>,
    pub lifecycles: Seq<(ResourceKey, InboundResourceLifecycle)>,
    pub pending_requests: Seq<(ResourceKey, ())>,
}

impl View for Resources {
    type V = ResourcesModel;

    open spec fn view(&self) -> ResourcesModel {
        ResourcesModel {
            inbound: self.inbound@,
            routes: self.routes@,
            splits: self.splits@,
            outbound: self.outbound@,
            queued: self.queued@,
            lifecycles: self.lifecycles@,
            pending_requests: self.pending_requests@,
        }
    }
}

/// Selects what is not on one Link.
pub struct OtherLink {
    pub link_id: [u8; 16],
}

impl<V> Select<ResourceKey, V> for OtherLink {
    open spec fn selects(self, e: (ResourceKey, V)) -> bool {
        e.0.link_id != self.link_id
    }

    fn keep(&self, k: &ResourceKey, v: &V) -> (r: bool) {
        !same_bytes(&k.link_id, &self.link_id)
    }
}

/// Selects the routes that do not lead to one logical Resource.
pub struct OtherRoute {
    pub key: ResourceKey,
}

impl Select<ResourceKey, SegmentRoute> for OtherRoute {
    open spec fn selects(self, e: (ResourceKey, SegmentRoute)) -> bool {
        !(e.0.link_id == self.key.link_id && e.1.original_hash == self.key.hash)
    }

    fn keep(&self, k: &ResourceKey, v: &SegmentRoute) -> (r: bool) {
        !(same_bytes(&k.link_id, &self.key.link_id) && same_bytes(
            &v.original_hash,
            &self.key.hash,
        ))
    }
}

/// The id of the logical Resource to which the segment under `segment` belongs.
pub open spec fn logical_id(
    routes: Seq<(ResourceKey, SegmentRoute)>,
    segment: ResourceKey,
) -> [u8; 32] {
    match find(routes, segment) {
        Some(route) => route.original_hash,
        None => segment.hash,
    }
}

/// The ids of the accepted inbound Resources of one Link, each once, in order.
pub open spec fn lifecycle_ids(
    lifecycles: Seq<(ResourceKey, InboundResourceLifecycle)>,
    link_id: [u8; 16],
) -> Seq<[u8; 32]>
    decreases lifecycles.len(),
{
    if lifecycles.len() == 0 {
        Seq::empty()
    } else {
        let rest = lifecycle_ids(lifecycles.drop_last(), link_id);
        let key = lifecycles.last().0;
        if key.link_id == link_id && !rest.contains(key.hash) {
            rest.push(key.hash)
        } else {
            rest
        }
    }
}

/// The ids of the accepted inbound Resources of one Link whose next segment is
/// overdue at `now`, in order.
pub open spec fn overdue_ids(
    lifecycles: Seq<(ResourceKey, InboundResourceLifecycle)>,
    link_id: [u8; 16],
    now: u64,
) -> Seq<[u8; 32]>
    decreases lifecycles.len(),
{
    if lifecycles.len() == 0 {
        Seq::empty()
    } else {
        let rest = overdue_ids(lifecycles.drop_last(), link_id, now);
        let e = lifecycles.last();
        if e.0.link_id == link_id && (match e.1.inter_segment_deadline {
            Some(deadline) => now >= deadline,
            None => false,
        }) {
            rest.push(e.0.hash)
        } else {
            rest
        }
    }
}

/// The ids of the logical Resources that one Link sends, each once, in order.
pub open spec fn outbound_ids(
    outbound: Seq<(ResourceKey, OutboundTransfer)>,
    link_id: [u8; 16],
) -> Seq<[u8; 32]>
    decreases outbound.len(),
{
    if outbound.len() == 0 {
        Seq::empty()
    } else {
        let rest = outbound_ids(outbound.drop_last(), link_id);
        let e = outbound.last();
        if e.0.link_id == link_id && !rest.contains(e.1.logical_id()) {
            rest.push(e.1.logical_id())
        } else {
            rest
        }
    }
}

/// `s` without its first entry under `k`.
#[verifier::opaque]
pub open spec fn cut_first<K, V>(s: Seq<(K, V)>, k: K) -> Seq<(K, V)> {
    if position(s, k) < s.len() {
        s.remove(position(s, k))
    } else {
        s
    }
}

impl ResourcesModel {
    pub open spec fn initial() -> Self {
        ResourcesModel {
            inbound: Seq::empty(),
            routes: Seq::empty(),
            splits: Seq::empty(),
            outbound: Seq::empty(),
            queued: Seq::empty(),
            lifecycles: Seq::empty(),
            pending_requests: Seq::empty(),
        }
    }

    /// Every trace of the segments of one inbound logical Resource removed.
    #[verifier::opaque]
    pub open spec fn logical_dropped(self, key: ResourceKey) -> Self {
        ResourcesModel {
            inbound: self.inbound.filter(
                |e: (ResourceKey, InboundTransfer)|
                    !(e.0.link_id == key.link_id && logical_id(self.routes, e.0) == key.hash),
            ),
            splits: cut(self.splits, key),
            routes: select(self.routes, OtherRoute { key }),
            ..self
        }
    }

    /// The right to report the end of an inbound Resource, given up.
    pub open spec fn claimed(self, key: ResourceKey) -> Self {
        ResourcesModel {
            lifecycles: cut(self.lifecycles, key),
            pending_requests: cut(self.pending_requests, key),
            ..self
        }
    }

    /// The transfers of a Link gone with it. What is owed to the application stays.
    pub open spec fn link_forgotten(self, link_id: [u8; 16]) -> Self {
        ResourcesModel {
            inbound: select(self.inbound, OtherLink { link_id }),
            routes: select(self.routes, OtherLink { link_id }),
            splits: select(self.splits, OtherLink { link_id }),
            outbound: select(self.outbound, OtherLink { link_id }),
            queued: select(self.queued, OtherLink { link_id }),
            ..self
        }
    }

    /// An outbound segment, and those that wait behind it, removed.
    pub open spec fn outbound_removed(self, link_id: [u8; 16], segment: [u8; 32]) -> Self {
        match find(self.outbound, key_of(link_id, segment)) {
            Some(transfer) => ResourcesModel {
                outbound: cut(self.outbound, key_of(link_id, segment)),
                queued: cut(self.queued, key_of(link_id, transfer.logical_id())),
                ..self
            },
            None => self,
        }
    }
}

impl Resources {
    pub fn new() -> (r: Self)
        ensures
            r@ == ResourcesModel::initial(),
    {
        Resources {
            inbound: Assoc::new(),
            routes: Assoc::new(),
            splits: Assoc::new(),
            outbound: Assoc::new(),
            queued: Assoc::new(),
            lifecycles: Assoc::new(),
            pending_requests: Assoc::new(),
        }
    }

    /// The logical Resource to which an inbound segment belongs.
    pub fn inbound_resource_identity(&self, link_id: &[u8; 16], segment: &[u8; 32]) -> (r:
        ResourceIdentity)
        ensures
            r.id == logical_id(self@.routes, key_of(*link_id, *segment)),
            match find(self@.routes, key_of(*link_id, *segment)) {
                Some(route) => r.segment_index == route.segment_index && r.total_segments == (
                match find(self@.splits, key_of(*link_id, route.original_hash)) {
                    Some(split) => split.total_segments,
                    None => 1,
                }),
                None => r.segment_index == 1 && r.total_segments == 1,
            },
    {
        match self.routes.get(&ResourceKey { link_id: *link_id, hash: *segment }) {
            Some(route) => {
                let key = ResourceKey { link_id: *link_id, hash: route.original_hash };
                let total: usize = match self.splits.get(&key) {
                    Some(split) => split.total_segments,
                    None => 1,
                };
                ResourceIdentity {
                    id: route.original_hash,
                    segment_index: route.segment_index,
                    total_segments: total,
                }
            },
            None => ResourceIdentity { id: *segment, segment_index: 1, total_segments: 1 },
        }
    }

    /// Removes every trace of the segments of one inbound logical Resource.
    pub fn drop_inbound_logical(&mut self, link_id: [u8; 16], resource_id: [u8; 32])
        ensures
            final(self)@ == old(self)@.logical_dropped(key_of(link_id, resource_id)),
    {
        let key = ResourceKey { link_id, hash: resource_id };
        let ghost all = self.inbound@;
        let ghost routes = self.routes@;
        let ghost p = |e: (ResourceKey, InboundTransfer)|
            !(e.0.link_id == key.link_id && logical_id(routes, e.0) == key.hash);
        let ghost mut done: int = 0;
        let mut i: usize = 0;
        while i < self.inbound.entries.len()
            invariant
                0 <= done <= all.len(),
                i == all.take(done).filter(p).len(),
                self.inbound@ == all.take(done).filter(p) + all.skip(done),
                self@ == (ResourcesModel { inbound: self.inbound@, ..old(self)@ }),
                routes == old(self)@.routes,
                key.link_id == link_id,
                key.hash == resource_id,
                p == (|e: (ResourceKey, InboundTransfer)|
                    !(e.0.link_id == key.link_id && logical_id(routes, e.0) == key.hash)),
            decreases all.len() - done,
        {
            proof {
                reveal_with_fuel(Seq::filter, 2);
                assert(all.take(done + 1).drop_last() =~= all.take(done));
                assert(all.take(done + 1).last() == all[done]);
                assert(self.inbound@[i as int] == all[done]);
            }
            let segment = self.inbound.entries[i].0;
            let of_link: bool = same_bytes(&segment.link_id, &link_id);
            if of_link && same_bytes(
                &self.inbound_resource_identity(&segment.link_id, &segment.hash).id,
                &resource_id,
            ) {
                self.inbound.entries.remove(i);
                proof {
                    assert(self.inbound@ =~= all.take(done).filter(p) + all.skip(done + 1));
                }
            } else {
                i = i + 1;
                proof {
                    assert(self.inbound@ =~= all.take(done + 1).filter(p) + all.skip(done + 1));
                }
            }
            proof {
                done = done + 1;
            }
        }
        proof {
            reveal(ResourcesModel::logical_dropped);
            assert(all.take(done) =~= all) by {
                assert(self.inbound@.len() == i);
                assert(all.skip(done).len() == 0);
            }
            assert(self.inbound@ =~= all.filter(p));
        }
        let _ = self.splits.remove(&key);
        self.routes.retain(&OtherRoute { key });
    }

    /// Gives up the right to report the end of an inbound Resource, and returns
    /// what was known of it, if the right was there.
    pub fn claim_inbound_terminal(&mut self, link_id: [u8; 16], resource_id: [u8; 32]) -> (r: Option<
        InboundResourceLifecycle,
    >)
        ensures
            r == find(old(self)@.lifecycles, key_of(link_id, resource_id)),
            final(self)@ == old(self)@.claimed(key_of(link_id, resource_id)),
    {
        let key = ResourceKey { link_id, hash: resource_id };
        let _ = self.pending_requests.remove(&key);
        self.lifecycles.remove(&key)
    }

    pub fn forget_link(&mut self, link_id: [u8; 16])
        ensures
            final(self)@ == old(self)@.link_forgotten(link_id),
    {
        let other = OtherLink { link_id };
        self.inbound.retain(&other);
        self.routes.retain(&other);
        self.splits.retain(&other);
        self.outbound.retain(&other);
        self.queued.retain(&other);
    }

    /// Removes an outbound segment and those that wait behind it.
    pub fn remove_outbound(&mut self, link_id: [u8; 16], segment: [u8; 32]) -> (r: Option<
        OutboundTransfer,
    >)
        ensures
            r == find(old(self)@.outbound, key_of(link_id, segment)),
            final(self)@ == (match r {
                Some(_) => old(self)@.outbound_removed(link_id, segment),
                None => old(self)@,
            }),
    {
        let key = ResourceKey { link_id, hash: segment };
        if !self.outbound.contains(&key) {
            return None;
        }
        let removed = self.outbound.remove(&key);
        if let Some(transfer) = &removed {
            let id = transfer.outbound_resource_identity().id;
            let _ = self.queued.remove(&ResourceKey { link_id, hash: id });
        }
        removed
    }

    pub fn active_inbound_logical_ids(&self, link_id: [u8; 16]) -> (r: Vec<[u8; 32]>)
        ensures
            r@ == lifecycle_ids(self@.lifecycles, link_id),
    {
        let ghost all = self.lifecycles@;
        let mut out: Vec<[u8; 32]> = Vec::new();
        let mut i: usize = 0;
        while i < self.lifecycles.entries.len()
            invariant
                i <= all.len(),
                all == self.lifecycles@,
                out@ == lifecycle_ids(all.take(i as int), link_id),
            decreases all.len() - i,
        {
            proof {
                assert(all.take(i + 1).drop_last() =~= all.take(i as int));
                assert(all.take(i + 1).last() == all[i as int]);
            }
            let key = self.lifecycles.entries[i].0;
            if same_bytes(&key.link_id, &link_id) && !contains_hash(&out, &key.hash) {
                out.push(key.hash);
            }
            i = i + 1;
        }
        assert(all.take(i as int) =~= all);
        out
    }

    pub fn overdue_inbound_logical_ids(&self, link_id: [u8; 16], now: u64) -> (r: Vec<[u8; 32]>)
        ensures
            r@ == overdue_ids(self@.lifecycles, link_id, now),
    {
        let ghost all = self.lifecycles@;
        let mut out: Vec<[u8; 32]> = Vec::new();
        let mut i: usize = 0;
        while i < self.lifecycles.entries.len()
            invariant
                i <= all.len(),
                all == self.lifecycles@,
                out@ == overdue_ids(all.take(i as int), link_id, now),
            decreases all.len() - i,
        {
            proof {
                assert(all.take(i + 1).drop_last() =~= all.take(i as int));
                assert(all.take(i + 1).last() == all[i as int]);
            }
            let key = self.lifecycles.entries[i].0;
            let overdue: bool = match self.lifecycles.entries[i].1.inter_segment_deadline {
                Some(deadline) => now >= deadline,
                None => false,
            };
            if same_bytes(&key.link_id, &link_id) && overdue {
                out.push(key.hash);
            }
            i = i + 1;
        }
        assert(all.take(i as int) =~= all);
        out
    }

    pub fn outbound_logical_ids(&self, link_id: [u8; 16]) -> (r: Vec<[u8; 32]>)
        ensures
            r@ == outbound_ids(self@.outbound, link_id),
    {
        let ghost all = self.outbound@;
        let mut out: Vec<[u8; 32]> = Vec::new();
        let mut i: usize = 0;
        while i < self.outbound.entries.len()
            invariant
                i <= all.len(),
                all == self.outbound@,
                out@ == outbound_ids(all.take(i as int), link_id),
            decreases all.len() - i,
        {
            proof {
                assert(all.take(i + 1).drop_last() =~= all.take(i as int));
                assert(all.take(i + 1).last() == all[i as int]);
            }
            let key = self.outbound.entries[i].0;
            let id = self.outbound.entries[i].1.outbound_resource_identity().id;
            if same_bytes(&key.link_id, &link_id) && !contains_hash(&out, &id) {
                out.push(id);
            }
            i = i + 1;
        }
        assert(all.take(i as int) =~= all);
        out
    }
}

/// Whether `hash` is among `hashes`.
pub fn contains_hash(hashes: &Vec<[u8; 32]>, hash: &[u8; 32]) -> (r: bool)
    ensures
        r == hashes@.contains(*hash),
{
    let mut i: usize = 0;
    while i < hashes.len()
        invariant
            i <= hashes.len(),
            forall|j: int| 0 <= j < i ==> hashes@[j] != *hash,
        decreases hashes.len() - i,
    {
        if same_bytes(&hashes[i], hash) {
            assert(hashes@[i as int] == *hash);
            return true;
        }
        i = i + 1;
    }
    false
}

} // verus!
