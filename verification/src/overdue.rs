//! A split Resource whose next segment is overdue ends once, and leaves nothing behind.

use vstd::prelude::*;

use crate::assoc::{
    find, lemma_filter_find, lemma_filter_member, lemma_filter_present, lemma_find_cut,
    lemma_find_member, present, select, ResourceKey, Select,
};
use crate::events::{
    AccountingModel, ConclusionModel, EventModel, LegacyTerminalNotification,
    LinkResourceDirection,
};
use crate::ledger::{lemma_legacy_flush_keeps_stream, listening};
use crate::link::{CloseReason, TransferAction};
use crate::manager::LinkManagerModel;
use crate::notices::NoticesModel;
use crate::resources::{
    key_of, lifecycle_ids, logical_id, outbound_ids, overdue_ids, InboundResourceLifecycle,
    InboundTransfer, OtherLink, OtherRoute, ResourcesModel, SegmentRoute, SplitCoordinator,
};
use crate::text::close_failure;
use crate::tick::{ChannelTimeout, LinkAction, LinkRemoval, WatchdogAction};

verus! {

// ---- what is looked at ----

/// The ends of an inbound Resource that the stream reports, in order.
pub open spec fn ends(entries: Seq<AccountingModel>, key: ResourceKey) -> Seq<ConclusionModel>
    decreases entries.len(),
{
    if entries.len() == 0 {
        Seq::empty()
    } else {
        let rest = ends(entries.drop_last(), key);
        match entries.last() {
            AccountingModel::ResourceEvent(
                EventModel::Concluded { link_id, resource_id, direction, conclusion },
            ) => if direction is Inbound && key_of(link_id, resource_id) == key {
                rest.push(conclusion)
            } else {
                rest
            },
            _ => rest,
        }
    }
}

/// The ends of an inbound Resource on the accounting stream.
pub open spec fn reported(m: LinkManagerModel, key: ResourceKey) -> Seq<ConclusionModel> {
    ends(m.notices.accounting->0.sent, key)
}

/// Whether no segment of the Resource is on its way.
pub open spec fn unsegmented(r: ResourcesModel, key: ResourceKey) -> bool {
    forall|segment: ResourceKey|
        #![trigger present(r.inbound, segment)]
        present(r.inbound, segment) && segment.link_id == key.link_id ==> logical_id(
            r.routes,
            segment,
        ) != key.hash
}

/// Whether no segment is known to belong to the Resource.
pub open spec fn unrouted(r: ResourcesModel, key: ResourceKey) -> bool {
    forall|i: int|
        0 <= i < r.routes.len() ==> !((#[trigger] r.routes[i]).0.link_id == key.link_id
            && r.routes[i].1.original_hash == key.hash)
}

/// Whether nothing is left of an inbound Resource: its end is not owed, no coordinator
/// puts it together, and no segment belongs to it or is on its way.
pub open spec fn untraced(m: LinkManagerModel, key: ResourceKey) -> bool {
    &&& !present(m.resources.lifecycles, key)
    &&& !present(m.resources.splits, key)
    &&& unrouted(m.resources, key)
    &&& unsegmented(m.resources, key)
}

/// Whether the next segment of an accepted Resource is overdue at `now`.
pub open spec fn waits_too_long(m: LinkManagerModel, key: ResourceKey, now: u64) -> bool {
    match find(m.resources.lifecycles, key) {
        Some(lifecycle) => match lifecycle.inter_segment_deadline {
            Some(deadline) => now >= deadline,
            None => false,
        },
        None => false,
    }
}

/// From `a` to `b` nothing happened to the Resource: no end of it is reported, what is
/// owed stays owed, and nothing of it comes back.
pub open spec fn undisturbed(a: LinkManagerModel, b: LinkManagerModel, key: ResourceKey) -> bool {
    &&& listening(a.notices) ==> listening(b.notices) && reported(b, key) == reported(a, key)
    &&& find(b.resources.lifecycles, key) == find(a.resources.lifecycles, key)
    &&& unsegmented(a.resources, key) ==> unsegmented(b.resources, key)
    &&& untraced(a, key) ==> untraced(b, key)
}

/// From `a` to `b` the Resource ended in exactly one failure, and nothing is left of it.
pub open spec fn failed_once(a: LinkManagerModel, b: LinkManagerModel, key: ResourceKey) -> bool {
    &&& untraced(b, key)
    &&& listening(a.notices) ==> {
        &&& listening(b.notices)
        &&& reported(b, key).len() == reported(a, key).len() + 1
        &&& reported(b, key).drop_last() == reported(a, key)
        &&& reported(b, key).last() is Failed
    }
}

/// As [`failed_once`], with this reason.
pub open spec fn failed_because(
    a: LinkManagerModel,
    b: LinkManagerModel,
    key: ResourceKey,
    reason: Seq<char>,
) -> bool {
    &&& untraced(b, key)
    &&& listening(a.notices) ==> {
        &&& listening(b.notices)
        &&& reported(b, key) == reported(a, key).push(ConclusionModel::Failed(reason))
    }
}

// ---- a tick ----

/// What time brings to one Link.
pub struct LinkTick {
    pub link_id: [u8; 16],
    pub channel: Seq<ChannelTimeout>,
    pub inbound: Seq<WatchdogAction>,
    pub outbound: Seq<WatchdogAction>,
    pub action: LinkAction,
}

pub open spec fn link_ticked(m: LinkManagerModel, now: u64, t: LinkTick) -> LinkManagerModel {
    m.link_traffic_ticked(t.link_id, now, t.channel, t.inbound, t.outbound).link_timer_ticked(
        t.link_id,
        t.action,
    )
}

pub open spec fn links_ticked(
    m: LinkManagerModel,
    now: u64,
    ticks: Seq<LinkTick>,
) -> LinkManagerModel
    decreases ticks.len(),
{
    if ticks.len() == 0 {
        m
    } else {
        link_ticked(links_ticked(m, now, ticks.drop_last()), now, ticks.last())
    }
}

/// A whole tick: Link after Link, and then the Links that go.
pub open spec fn ticked(
    m: LinkManagerModel,
    now: u64,
    ticks: Seq<LinkTick>,
    removals: Seq<LinkRemoval>,
) -> LinkManagerModel {
    links_ticked(m, now, ticks).links_removed(removals)
}

// ---- steps ----

proof fn lemma_chain(
    a: LinkManagerModel,
    b: LinkManagerModel,
    c: LinkManagerModel,
    key: ResourceKey,
)
    requires
        undisturbed(b, c, key),
    ensures
        undisturbed(a, b, key) ==> undisturbed(a, c, key),
        failed_once(a, b, key) ==> failed_once(a, c, key),
        forall|reason: Seq<char>|
            failed_because(a, b, key, reason) ==> #[trigger] failed_because(a, c, key, reason),
{
}

proof fn lemma_same(a: LinkManagerModel, b: LinkManagerModel, key: ResourceKey)
    requires
        b.notices.accounting == a.notices.accounting,
        b.resources.lifecycles == a.resources.lifecycles,
        b.resources.splits == a.resources.splits,
        b.resources.routes == a.resources.routes,
        b.resources.inbound == a.resources.inbound,
    ensures
        undisturbed(a, b, key),
{
}

/// One entry more on the stream.
proof fn lemma_accounted(n: NoticesModel, entry: AccountingModel)
    requires
        listening(n),
    ensures
        listening(n.accounted(entry)),
        n.accounted(entry).accounting->0.sent.drop_last() == n.accounting->0.sent,
        n.accounted(entry).accounting->0.sent.len() > 0,
        n.accounted(entry).accounting->0.sent.last() == entry,
{
    assert(n.accounting->0.sent.push(entry).drop_last() =~= n.accounting->0.sent);
}

/// Dropping one Resource's segments leaves those of another as they were.
proof fn lemma_logical_dropped(r: ResourcesModel, dropped: ResourceKey, key: ResourceKey)
    ensures
        r.logical_dropped(dropped).lifecycles == r.lifecycles,
        key == dropped ==> unsegmented(r.logical_dropped(dropped), key),
        key == dropped ==> unrouted(r.logical_dropped(dropped), key),
        key == dropped ==> !present(r.logical_dropped(dropped).splits, key),
        unsegmented(r, key) ==> unsegmented(r.logical_dropped(dropped), key),
        unrouted(r, key) ==> unrouted(r.logical_dropped(dropped), key),
        !present(r.splits, key) ==> !present(r.logical_dropped(dropped).splits, key),
{
    reveal(ResourcesModel::logical_dropped);
    reveal(select);
    let s = r.logical_dropped(dropped);
    let p = |e: (ResourceKey, InboundTransfer)|
        !(e.0.link_id == dropped.link_id && logical_id(r.routes, e.0) == dropped.hash);
    let other = OtherRoute { key: dropped };
    let q = |e: (ResourceKey, SegmentRoute)| other.selects(e);
    assert forall|segment: ResourceKey|
        #![trigger present(s.inbound, segment)]
        present(s.inbound, segment) implies present(r.inbound, segment) && logical_id(
        s.routes,
        segment,
    ) == logical_id(r.routes, segment) && !(segment.link_id == dropped.link_id && logical_id(
        r.routes,
        segment,
    ) == dropped.hash) by {
        lemma_filter_present(r.inbound, p, segment);
        let i = lemma_find_member(s.inbound, segment);
        lemma_filter_member(r.inbound, p, i);
        lemma_filter_find(r.routes, q, segment);
    }
    assert forall|i: int| 0 <= i < s.routes.len() implies q(#[trigger] s.routes[i]) && exists|
        j: int,
    | 0 <= j < r.routes.len() && r.routes[j] == s.routes[i] by {
        lemma_filter_member(r.routes, q, i);
    }
    lemma_find_cut(r.splits, dropped, key);
}

/// A conclusion concerns its own Resource alone, and only if its end is owed.
proof fn lemma_concluded(
    m: LinkManagerModel,
    link_id: [u8; 16],
    resource_id: [u8; 32],
    conclusion: ConclusionModel,
    key: ResourceKey,
)
    ensures
        ({
            let s = m.inbound_concluded(link_id, resource_id, conclusion);
            &&& key != key_of(link_id, resource_id) || !present(m.resources.lifecycles, key)
                ==> undisturbed(m, s, key)
            &&& key == key_of(link_id, resource_id) ==> untraced(s, key)
            &&& key == key_of(link_id, resource_id) && present(m.resources.lifecycles, key)
                && listening(m.notices) ==> {
                &&& listening(s.notices)
                &&& reported(s, key) == reported(m, key).push(conclusion)
            }
        }),
{
    let own = key_of(link_id, resource_id);
    lemma_logical_dropped(m.resources, own, key);
    lemma_find_cut(m.resources.lifecycles, own, key);
    if listening(m.notices) {
        lemma_accounted(
            m.notices,
            AccountingModel::ResourceEvent(
                EventModel::Concluded {
                    link_id,
                    resource_id,
                    direction: LinkResourceDirection::Inbound,
                    conclusion,
                },
            ),
        );
    }
}

proof fn lemma_failed_each(
    m: LinkManagerModel,
    link_id: [u8; 16],
    ids: Seq<[u8; 32]>,
    failure: Seq<char>,
    key: ResourceKey,
)
    ensures
        ({
            let s = m.inbound_failed_each(link_id, ids, failure);
            &&& key.link_id != link_id || !ids.contains(key.hash) || !present(
                m.resources.lifecycles,
                key,
            ) ==> undisturbed(m, s, key)
            &&& key.link_id == link_id && ids.contains(key.hash) && present(
                m.resources.lifecycles,
                key,
            ) ==> failed_because(m, s, key, failure)
        }),
    decreases ids.len(),
{
    if ids.len() > 0 {
        let before = ids.drop_last();
        let s = m.inbound_failed_each(link_id, before, failure);
        lemma_failed_each(m, link_id, before, failure, key);
        lemma_concluded(s, link_id, ids.last(), ConclusionModel::Failed(failure), key);
        let t = m.inbound_failed_each(link_id, ids, failure);
        assert(before.contains(key.hash) ==> ids.contains(key.hash)) by {
            if before.contains(key.hash) {
                assert(ids[before.index_of(key.hash)] == key.hash);
            }
        }
        assert(ids[ids.len() - 1] == ids.last());
        assert(ids.contains(key.hash) && ids.last() != key.hash ==> before.contains(key.hash)) by {
            if ids.contains(key.hash) && ids.last() != key.hash {
                assert(before[ids.index_of(key.hash)] == key.hash);
            }
        }
        if undisturbed(s, t, key) {
            lemma_chain(m, s, t, key);
        }
    }
}

proof fn lemma_outbound_end(
    m: LinkManagerModel,
    link_id: [u8; 16],
    resource_id: [u8; 32],
    conclusion: ConclusionModel,
    key: ResourceKey,
)
    ensures
        undisturbed(m, m.outbound_concluded(link_id, resource_id, conclusion), key),
{
    if listening(m.notices) {
        lemma_accounted(
            m.notices,
            AccountingModel::ResourceEvent(
                EventModel::Concluded {
                    link_id,
                    resource_id,
                    direction: LinkResourceDirection::Outbound,
                    conclusion,
                },
            ),
        );
    }
}

proof fn lemma_outbound_each(
    m: LinkManagerModel,
    link_id: [u8; 16],
    ids: Seq<[u8; 32]>,
    failure: Seq<char>,
    key: ResourceKey,
)
    ensures
        undisturbed(m, m.outbound_failed_each(link_id, ids, failure), key),
    decreases ids.len(),
{
    if ids.len() > 0 {
        let s = m.outbound_failed_each(link_id, ids.drop_last(), failure);
        lemma_outbound_each(m, link_id, ids.drop_last(), failure, key);
        lemma_outbound_end(s, link_id, ids.last(), ConclusionModel::Failed(failure), key);
        lemma_chain(m, s, m.outbound_failed_each(link_id, ids, failure), key);
    }
}

proof fn lemma_channel(m: LinkManagerModel, link_id: [u8; 16], timeouts: Seq<ChannelTimeout>)
    ensures
        m.channel_timeouts(link_id, timeouts).notices == m.notices,
        m.channel_timeouts(link_id, timeouts).resources == m.resources,
    decreases timeouts.len(),
{
    if timeouts.len() > 0 {
        lemma_channel(m, link_id, timeouts.drop_last());
    }
}

/// The watchdogs of one Link's inbound segments: none of them concerns a Resource of
/// another Link, or one without a segment on its way, or one whose end is not owed.
proof fn lemma_inbound_watchdogs(
    m: LinkManagerModel,
    link_id: [u8; 16],
    watchdogs: Seq<WatchdogAction>,
    key: ResourceKey,
)
    ensures
        ({
            let s = m.inbound_watchdogs(link_id, watchdogs);
            &&& undisturbed(m, s, key) || (present(m.resources.lifecycles, key) && failed_once(
                m,
                s,
                key,
            ))
            &&& key.link_id != link_id || unsegmented(m.resources, key) || !present(
                m.resources.lifecycles,
                key,
            ) ==> undisturbed(m, s, key)
        }),
    decreases watchdogs.len(),
{
    if watchdogs.len() > 0 {
        let s = m.inbound_watchdogs(link_id, watchdogs.drop_last());
        let t = m.inbound_watchdogs(link_id, watchdogs);
        lemma_inbound_watchdogs(m, link_id, watchdogs.drop_last(), key);
        let w = watchdogs.last();
        let segment = key_of(link_id, w.segment);
        if !present(s.resources.inbound, segment) {
            lemma_same(s, t, key);
        } else {
            match w.action@ {
                TransferAction::Failed(reason) => {
                    let id = logical_id(s.resources.routes, segment);
                    lemma_concluded(s, link_id, id, ConclusionModel::Failed(reason), key);
                    if key == key_of(link_id, id) && present(s.resources.lifecycles, key) {
                        assert(failed_once(s, t, key)) by {
                            if listening(s.notices) {
                                assert(reported(t, key).drop_last() =~= reported(s, key));
                            }
                        }
                        assert(!untraced(s, key));
                        assert(!unsegmented(s.resources, key));
                        assert(undisturbed(m, s, key));
                    }
                },
                action => {
                    lemma_same(s, t, key);
                },
            }
        }
        if undisturbed(s, t, key) {
            lemma_chain(m, s, t, key);
        }
    }
}

proof fn lemma_outbound_watchdogs(
    m: LinkManagerModel,
    link_id: [u8; 16],
    watchdogs: Seq<WatchdogAction>,
    key: ResourceKey,
)
    ensures
        undisturbed(m, m.outbound_watchdogs(link_id, watchdogs), key),
    decreases watchdogs.len(),
{
    if watchdogs.len() > 0 {
        let s = m.outbound_watchdogs(link_id, watchdogs.drop_last());
        let t = m.outbound_watchdogs(link_id, watchdogs);
        lemma_outbound_watchdogs(m, link_id, watchdogs.drop_last(), key);
        let w = watchdogs.last();
        match w.action@ {
            TransferAction::Failed(reason) => {
                match find(s.resources.outbound, key_of(link_id, w.segment)) {
                    Some(transfer) => {
                        let u = LinkManagerModel {
                            resources: s.resources.outbound_removed(link_id, w.segment),
                            ..s
                        };
                        lemma_same(s, u, key);
                        lemma_outbound_end(
                            u,
                            link_id,
                            transfer.logical_id(),
                            ConclusionModel::Failed(reason),
                            key,
                        );
                        lemma_chain(s, u, t, key);
                    },
                    None => {
                        lemma_same(s, t, key);
                    },
                }
            },
            action => {
                lemma_same(s, t, key);
            },
        }
        lemma_chain(m, s, t, key);
    }
}

proof fn lemma_overdue_member(
    lifecycles: Seq<(ResourceKey, InboundResourceLifecycle)>,
    link_id: [u8; 16],
    now: u64,
    i: int,
)
    requires
        0 <= i < lifecycles.len(),
        lifecycles[i].0.link_id == link_id,
        lifecycles[i].1.inter_segment_deadline matches Some(deadline) && now >= deadline,
    ensures
        overdue_ids(lifecycles, link_id, now).contains(lifecycles[i].0.hash),
    decreases lifecycles.len(),
{
    let rest = overdue_ids(lifecycles.drop_last(), link_id, now);
    let all = overdue_ids(lifecycles, link_id, now);
    if i == lifecycles.len() - 1 {
        assert(all[all.len() - 1] == lifecycles[i].0.hash);
    } else {
        lemma_overdue_member(lifecycles.drop_last(), link_id, now, i);
        assert(lifecycles.drop_last()[i] == lifecycles[i]);
        let j = rest.index_of(lifecycles[i].0.hash);
        assert(all[j] == lifecycles[i].0.hash);
    }
}

/// What a tick of one Link does to the Resource.
proof fn lemma_link_ticked(m: LinkManagerModel, now: u64, t: LinkTick, key: ResourceKey)
    ensures
        ({
            let s = link_ticked(m, now, t);
            &&& t.link_id != key.link_id || !present(m.resources.lifecycles, key) ==> undisturbed(
                m,
                s,
                key,
            )
            &&& t.link_id == key.link_id && waits_too_long(m, key, now) ==> failed_once(m, s, key)
            &&& t.link_id == key.link_id && waits_too_long(m, key, now) && unsegmented(
                m.resources,
                key,
            ) ==> failed_because(m, s, key, "timed out waiting for the next Resource segment"@)
        }),
{
    let text = "timed out waiting for the next Resource segment"@;
    let s1 = m.channel_timeouts(t.link_id, t.channel);
    lemma_channel(m, t.link_id, t.channel);
    lemma_same(m, s1, key);
    let s2 = s1.inbound_watchdogs(t.link_id, t.inbound);
    lemma_inbound_watchdogs(s1, t.link_id, t.inbound, key);
    let ids = overdue_ids(s2.resources.lifecycles, t.link_id, now);
    let s3 = s2.overdue_failed(t.link_id, now);
    lemma_failed_each(s2, t.link_id, ids, text, key);
    let s4 = s3.outbound_watchdogs(t.link_id, t.outbound);
    lemma_outbound_watchdogs(s3, t.link_id, t.outbound, key);
    let s5 = link_ticked(m, now, t);
    lemma_same(s4, s5, key);
    if undisturbed(s1, s2, key) && t.link_id == key.link_id && waits_too_long(m, key, now) {
        let i = lemma_find_member(s2.resources.lifecycles, key);
        lemma_overdue_member(s2.resources.lifecycles, t.link_id, now, i);
        assert(failed_because(s2, s3, key, text));
        assert(failed_once(m, s3, key)) by {
            if listening(m.notices) {
                assert(reported(s3, key).drop_last() =~= reported(m, key));
            }
        }
        assert(failed_because(m, s3, key, text));
    } else if undisturbed(s2, s3, key) {
        lemma_chain(m, s2, s3, key);
    }
    lemma_chain(m, s3, s4, key);
    lemma_chain(m, s4, s5, key);
}

/// A Link that closes says nothing of a Resource whose end is not owed.
proof fn lemma_closed(m: LinkManagerModel, removal: LinkRemoval, key: ResourceKey)
    requires
        !present(m.resources.lifecycles, key),
    ensures
        undisturbed(m, m.links_removed(seq![removal]), key),
{
    reveal_with_fuel(LinkManagerModel::links_removed, 2);
    let link_id = removal.link_id;
    let reason = CloseReason::Timeout;
    let after = m.links_removed(seq![removal]);
    assert(seq![removal].drop_last() =~= Seq::<LinkRemoval>::empty());
    if present(m.links, link_id) {
        let s = m.link_detached(link_id, reason, false, None, removal.endpoint_closing);
        assert(undisturbed(m, s, key)) by {
            if listening(m.notices) {
                lemma_accounted(m.notices, AccountingModel::LinkClosed { link_id });
                let n = m.notices.accounted(AccountingModel::LinkClosed { link_id });
                let staged = LegacyTerminalNotification::LinkClosed(link_id);
                lemma_legacy_flush_keeps_stream(
                    NoticesModel { pending_legacy: n.pending_legacy.push(staged), ..n },
                );
            }
            lemma_forgotten(m.resources, link_id, key);
        }
        let failure = close_failure(reason);
        let ids = lifecycle_ids(m.resources.lifecycles, link_id);
        let u = s.inbound_failed_each(link_id, ids, failure);
        lemma_failed_each(s, link_id, ids, failure, key);
        lemma_chain(m, s, u, key);
        let outbound = outbound_ids(m.resources.outbound, link_id);
        lemma_outbound_each(u, link_id, outbound, failure, key);
        lemma_chain(m, u, after, key);
    } else {
        lemma_same(m, after, key);
    }
}

proof fn lemma_forgotten(r: ResourcesModel, link_id: [u8; 16], key: ResourceKey)
    ensures
        unsegmented(r, key) ==> unsegmented(r.link_forgotten(link_id), key),
        unrouted(r, key) ==> unrouted(r.link_forgotten(link_id), key),
        !present(r.splits, key) ==> !present(r.link_forgotten(link_id).splits, key),
{
    reveal(select);
    let s = r.link_forgotten(link_id);
    let other = OtherLink { link_id };
    let p = |e: (ResourceKey, InboundTransfer)| other.selects(e);
    let q = |e: (ResourceKey, SegmentRoute)| other.selects(e);
    let o = |e: (ResourceKey, SplitCoordinator)| other.selects(e);
    assert forall|segment: ResourceKey|
        #![trigger present(s.inbound, segment)]
        present(s.inbound, segment) implies present(r.inbound, segment) && logical_id(
        s.routes,
        segment,
    ) == logical_id(r.routes, segment) by {
        lemma_filter_present(r.inbound, p, segment);
        let i = lemma_find_member(s.inbound, segment);
        lemma_filter_member(r.inbound, p, i);
        lemma_filter_find(r.routes, q, segment);
    }
    assert forall|i: int| 0 <= i < s.routes.len() implies exists|j: int|
        0 <= j < r.routes.len() && r.routes[j] == #[trigger] s.routes[i] by {
        lemma_filter_member(r.routes, q, i);
    }
    if present(s.splits, key) {
        lemma_filter_present(r.splits, o, key);
    }
}

proof fn lemma_removed(m: LinkManagerModel, removals: Seq<LinkRemoval>, key: ResourceKey)
    requires
        !present(m.resources.lifecycles, key),
    ensures
        undisturbed(m, m.links_removed(removals), key),
    decreases removals.len(),
{
    if removals.len() > 0 {
        let s = m.links_removed(removals.drop_last());
        lemma_removed(m, removals.drop_last(), key);
        lemma_closed(s, removals.last(), key);
        reveal_with_fuel(LinkManagerModel::links_removed, 2);
        assert(seq![removals.last()].drop_last() =~= Seq::<LinkRemoval>::empty());
        lemma_chain(m, s, m.links_removed(removals), key);
    }
}

proof fn lemma_links_ticked(m: LinkManagerModel, now: u64, ticks: Seq<LinkTick>, key: ResourceKey)
    ensures
        ({
            let s = links_ticked(m, now, ticks);
            let due = exists|i: int|
                0 <= i < ticks.len() && (#[trigger] ticks[i]).link_id == key.link_id;
            &&& !due || !present(m.resources.lifecycles, key) ==> undisturbed(m, s, key)
            &&& due && waits_too_long(m, key, now) ==> failed_once(m, s, key)
            &&& due && waits_too_long(m, key, now) && unsegmented(m.resources, key)
                ==> failed_because(m, s, key, "timed out waiting for the next Resource segment"@)
        }),
    decreases ticks.len(),
{
    if ticks.len() > 0 {
        let before = ticks.drop_last();
        let s = links_ticked(m, now, before);
        lemma_links_ticked(m, now, before, key);
        lemma_link_ticked(s, now, ticks.last(), key);
        let t = links_ticked(m, now, ticks);
        let earlier = exists|i: int|
            0 <= i < before.len() && (#[trigger] before[i]).link_id == key.link_id;
        assert forall|i: int| 0 <= i < ticks.len() && (#[trigger] ticks[i]).link_id
            == key.link_id implies earlier || ticks.last().link_id == key.link_id by {
            if i < ticks.len() - 1 {
                assert(before[i] == ticks[i]);
            }
        }
        if earlier {
            let i = choose|i: int|
                0 <= i < before.len() && (#[trigger] before[i]).link_id == key.link_id;
            assert(ticks[i].link_id == key.link_id);
        }
        assert(ticks[ticks.len() - 1] == ticks.last());
        if undisturbed(s, t, key) {
            lemma_chain(m, s, t, key);
        }
    } else {
        lemma_same(m, m, key);
    }
}

// ---- the laws ----

/// An accepted Resource whose next segment is overdue ends with the tick that looks after
/// its Link: in exactly one failure, after which nothing is left of it. Unless the
/// watchdog of a segment that is on its way comes first, the reason is that the next
/// segment did not come in time.
pub proof fn overdue_resource_fails_once(
    m: LinkManagerModel,
    now: u64,
    ticks: Seq<LinkTick>,
    removals: Seq<LinkRemoval>,
    link_id: [u8; 16],
    resource_id: [u8; 32],
)
    requires
        waits_too_long(m, key_of(link_id, resource_id), now),
        exists|i: int| 0 <= i < ticks.len() && (#[trigger] ticks[i]).link_id == link_id,
    ensures
        failed_once(m, ticked(m, now, ticks, removals), key_of(link_id, resource_id)),
        unsegmented(m.resources, key_of(link_id, resource_id)) ==> failed_because(
            m,
            ticked(m, now, ticks, removals),
            key_of(link_id, resource_id),
            "timed out waiting for the next Resource segment"@,
        ),
{
    let key = key_of(link_id, resource_id);
    let s = links_ticked(m, now, ticks);
    lemma_links_ticked(m, now, ticks, key);
    lemma_removed(s, removals, key);
    lemma_chain(m, s, ticked(m, now, ticks, removals), key);
}

/// Of a Resource of which nothing is left no tick reports anything, and none brings it
/// back.
pub proof fn ended_resource_stays_silent(
    m: LinkManagerModel,
    now: u64,
    ticks: Seq<LinkTick>,
    removals: Seq<LinkRemoval>,
    link_id: [u8; 16],
    resource_id: [u8; 32],
)
    requires
        untraced(m, key_of(link_id, resource_id)),
    ensures
        untraced(ticked(m, now, ticks, removals), key_of(link_id, resource_id)),
        listening(m.notices) ==> listening(ticked(m, now, ticks, removals).notices) && reported(
            ticked(m, now, ticks, removals),
            key_of(link_id, resource_id),
        ) == reported(m, key_of(link_id, resource_id)),
{
    let key = key_of(link_id, resource_id);
    let s = links_ticked(m, now, ticks);
    lemma_links_ticked(m, now, ticks, key);
    lemma_removed(s, removals, key);
    lemma_chain(m, s, ticked(m, now, ticks, removals), key);
}

/// The failure of an overdue Resource is the only one: a further tick adds nothing to it.
pub proof fn overdue_resource_is_not_reported_again(
    m: LinkManagerModel,
    now: u64,
    ticks: Seq<LinkTick>,
    removals: Seq<LinkRemoval>,
    later: u64,
    later_ticks: Seq<LinkTick>,
    later_removals: Seq<LinkRemoval>,
    link_id: [u8; 16],
    resource_id: [u8; 32],
)
    requires
        waits_too_long(m, key_of(link_id, resource_id), now),
        exists|i: int| 0 <= i < ticks.len() && (#[trigger] ticks[i]).link_id == link_id,
    ensures
        failed_once(
            m,
            ticked(ticked(m, now, ticks, removals), later, later_ticks, later_removals),
            key_of(link_id, resource_id),
        ),
{
    let s = ticked(m, now, ticks, removals);
    overdue_resource_fails_once(m, now, ticks, removals, link_id, resource_id);
    ended_resource_stays_silent(s, later, later_ticks, later_removals, link_id, resource_id);
}

} // verus!
