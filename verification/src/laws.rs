//! What holds of the manager as a whole.

use vstd::prelude::*;

use crate::assoc::{
    cut, find, lemma_cut_absent, lemma_filter_member, lemma_filter_present, lemma_find_cut,
    lemma_find_member, lemma_find_put, lemma_has_member, lemma_position, present, select,
    ResourceKey, Select,
};
use crate::client::{idle, ResponseInput, ResponseWait, WaitEvent};
use crate::commands::{CommandOutcome, LinkManagerCommand};
use crate::events::{
    AccountingModel, ConclusionModel, EventModel, LegacyTerminalNotification, LinkPacketProof,
    LinkResourceDirection, LinkResourceProof,
};
use crate::inbound::ResourceAdvertisement;
use crate::ledger::{lemma_legacy_flush_keeps_stream, listening};
use crate::link::{ActionModel, CloseReason, Link};
use crate::manager::{Effect, LinkManagerModel, OtherBackchannel, RegisteredRequestHandler};
use crate::notices::NoticesModel;
use crate::packets::PacketInput;
use crate::port::PortModel;
use crate::receiving::hash_at;
use crate::resources::{
    key_of, lifecycle_ids, logical_id, outbound_ids, InboundResourceLifecycle, InboundTransfer,
    OtherLink, OtherRoute, ResourcesModel, SegmentRoute,
};
use crate::text::close_failure;
use crate::transport::{
    EndpointCleanupKind, NotServed, PendingResponderEndpointBind, ResponderEndpointTombstone,
    TransportModel, MAX_PENDING_DESTINATION_ANNOUNCES, MAX_PENDING_LINK_CONTROL,
};
use crate::wire::{
    LinkEndpointBindResult, LinkEndpointLifecycleEvent, MessageModel, PacketHeader,
    TransportMessage,
};

verus! {

// ---- staged requests ----

/// Ordered control is retained in order: what the port has taken, followed by what waits,
/// grows by the new message at its end, and loses nothing.
pub proof fn staged_control_keeps_order(t: TransportModel, m: MessageModel, bounded: bool)
    requires
        t.retains(bounded),
    ensures
        t.staged(m, bounded).port.sent + t.staged(m, bounded).control == (t.port.sent
            + t.control).push(m),
{
    assert(t.staged(m, bounded).port.sent + t.staged(m, bounded).control =~= (t.port.sent
        + t.control).push(m));
}

/// Flushing moves waiting control to the port without reordering or loss, as long as the
/// transport is there.
pub proof fn flushed_control_keeps_order(t: TransportModel)
    requires
        !t.port.closed,
    ensures
        t.control_flushed().port.sent + t.control_flushed().control == t.port.sent + t.control,
        t.control_flushed().replies == t.replies,
{
    let n = t.port.room(t.control.len()) as int;
    assert(t.control_flushed().port.sent + t.control_flushed().control =~= t.port.sent
        + t.control);
}

/// Flushing takes everything that there is room for: afterwards nothing waits, or the port
/// is full.
pub proof fn flush_is_exhaustive(t: TransportModel)
    ensures
        t.control_flushed().control.len() == 0 || t.control_flushed().port.full(),
{
}

/// At the retry limit, ordinary control is refused, and neither the port nor the queue
/// changes. Ownership and cleanup control is retained all the same.
pub proof fn control_retries_are_bounded(t: TransportModel, m: MessageModel)
    requires
        t.control.len() >= MAX_PENDING_LINK_CONTROL,
    ensures
        !t.retains(true),
        t.staged(m, true).port == t.port,
        t.staged(m, true).control == t.control,
        t.retains(false),
        t.staged(m, false).control == t.control.push(m),
{
}

/// Within the retry limit, ordinary control keeps the queue within the limit.
pub proof fn ordinary_control_respects_the_limit(t: TransportModel, m: MessageModel)
    requires
        t.control.len() <= MAX_PENDING_LINK_CONTROL,
    ensures
        t.staged(m, true).control.len() <= MAX_PENDING_LINK_CONTROL,
{
}

/// An announce that is taken is not lost to a transport that is full for a moment: it is
/// sent, or waits behind the announces before it, in order.
pub proof fn announces_survive_saturation(t: TransportModel, m: MessageModel)
    requires
        !t.port.closed,
        t.announces.len() < MAX_PENDING_DESTINATION_ANNOUNCES,
    ensures
        t.takes_announce(),
        t.announce_queued(m).port.sent + t.announce_queued(m).announces == (t.port.sent
            + t.announces).push(m),
{
    let queued = t.announces.push(m);
    assert(t.announce_queued(m).port.sent + t.announce_queued(m).announces =~= (t.port.sent
        + t.announces).push(m));
}

/// No more announces than the limit wait.
pub proof fn announce_retries_are_bounded(t: TransportModel, m: MessageModel)
    requires
        t.announces.len() <= MAX_PENDING_DESTINATION_ANNOUNCES,
    ensures
        t.announce_queued(m).announces.len() <= MAX_PENDING_DESTINATION_ANNOUNCES,
{
}

// ---- terminal facts ----

/// The proofs of packets among pending facts.
pub open spec fn packet_proofs(facts: Seq<LegacyTerminalNotification>) -> Seq<LinkPacketProof>
    decreases facts.len(),
{
    if facts.len() == 0 {
        Seq::empty()
    } else {
        let rest = packet_proofs(facts.skip(1));
        match facts[0] {
            LegacyTerminalNotification::PacketProof(p) => seq![p] + rest,
            _ => rest,
        }
    }
}

/// The proofs of Resources among pending facts.
pub open spec fn resource_proofs(facts: Seq<LegacyTerminalNotification>) -> Seq<LinkResourceProof>
    decreases facts.len(),
{
    if facts.len() == 0 {
        Seq::empty()
    } else {
        let rest = resource_proofs(facts.skip(1));
        match facts[0] {
            LegacyTerminalNotification::ResourceProof(p) => seq![p] + rest,
            _ => rest,
        }
    }
}

/// The closed Links among pending facts.
pub open spec fn closed_links(facts: Seq<LegacyTerminalNotification>) -> Seq<Seq<u8>>
    decreases facts.len(),
{
    if facts.len() == 0 {
        Seq::empty()
    } else {
        let rest = closed_links(facts.skip(1));
        match facts[0] {
            LegacyTerminalNotification::LinkClosed(id) => seq![id@] + rest,
            _ => rest,
        }
    }
}

/// What a channel has taken and what is pending for it, together.
pub open spec fn delivered_and_pending<M>(port: Option<PortModel<M>>, pending: Seq<M>) -> Seq<M> {
    (port->0).sent + pending
}

/// Whether a channel is installed and read.
pub open spec fn read<M>(port: Option<PortModel<M>>) -> bool {
    match port {
        Some(p) => !p.closed,
        None => false,
    }
}

/// Local backpressure loses no terminal fact: of each of the three kinds, what its channel
/// has taken followed by what is still pending stays the same, in order.
pub proof fn terminal_facts_survive_backpressure(n: NoticesModel)
    ensures
        read(n.link_packet_proof) ==> delivered_and_pending(
            n.legacy_flushed().link_packet_proof,
            packet_proofs(n.legacy_flushed().pending_legacy),
        ) == delivered_and_pending(n.link_packet_proof, packet_proofs(n.pending_legacy)),
        read(n.outbound_resource_proof) ==> delivered_and_pending(
            n.legacy_flushed().outbound_resource_proof,
            resource_proofs(n.legacy_flushed().pending_legacy),
        ) == delivered_and_pending(n.outbound_resource_proof, resource_proofs(n.pending_legacy)),
        read(n.link_closed) ==> delivered_and_pending(
            n.legacy_flushed().link_closed,
            closed_links(n.legacy_flushed().pending_legacy),
        ) == delivered_and_pending(n.link_closed, closed_links(n.pending_legacy)),
    decreases n.pending_legacy.len(),
{
    if n.pending_legacy.len() > 0 {
        let rest = NoticesModel { pending_legacy: n.pending_legacy.skip(1), ..n };
        match n.pending_legacy[0] {
            LegacyTerminalNotification::PacketProof(p) => {
                match n.link_packet_proof {
                    Some(port) => {
                        if port.closed || !port.full() {
                            let next = NoticesModel {
                                link_packet_proof: Some(port.offer(p)),
                                ..rest
                            };
                            terminal_facts_survive_backpressure(next);
                            assert(port.sent.push(p) + packet_proofs(rest.pending_legacy)
                                =~= port.sent + (seq![p] + packet_proofs(rest.pending_legacy)));
                        }
                    },
                    None => {
                        terminal_facts_survive_backpressure(rest);
                    },
                }
            },
            LegacyTerminalNotification::ResourceProof(p) => {
                match n.outbound_resource_proof {
                    Some(port) => {
                        if port.closed || !port.full() {
                            let next = NoticesModel {
                                outbound_resource_proof: Some(port.offer(p)),
                                ..rest
                            };
                            terminal_facts_survive_backpressure(next);
                            assert(port.sent.push(p) + resource_proofs(rest.pending_legacy)
                                =~= port.sent + (seq![p] + resource_proofs(rest.pending_legacy)));
                        }
                    },
                    None => {
                        terminal_facts_survive_backpressure(rest);
                    },
                }
            },
            LegacyTerminalNotification::LinkClosed(id) => {
                match n.link_closed {
                    Some(port) => {
                        if port.closed || !port.full() {
                            let next = NoticesModel {
                                link_closed: Some(port.offer(id@)),
                                ..rest
                            };
                            terminal_facts_survive_backpressure(next);
                            assert(port.sent.push(id@) + closed_links(rest.pending_legacy)
                                =~= port.sent + (seq![id@] + closed_links(rest.pending_legacy)));
                        }
                    },
                    None => {
                        terminal_facts_survive_backpressure(rest);
                    },
                }
            },
        }
    }
}

// ---- requests for Links ----

/// A replayed request never replaces live ownership, nor comes back while an endpoint of
/// the same id is being released: it changes nothing.
pub proof fn replay_changes_nothing(
    m: LinkManagerModel,
    link_id: [u8; 16],
    link: Link,
    bind: PendingResponderEndpointBind,
)
    requires
        m.knows_link(link_id),
    ensures
        m.link_requested(link_id, link, bind) == m,
{
}

/// A request for a Link publishes its bind request and nothing else.
pub proof fn link_request_publishes_only_its_bind(
    m: LinkManagerModel,
    link_id: [u8; 16],
    link: Link,
    bind: PendingResponderEndpointBind,
)
    requires
        !m.knows_link(link_id),
        m.transport.port.accepts(),
    ensures
        m.link_requested(link_id, link, bind).transport.port.sent == m.transport.port.sent.push(
            TransportMessage::BindLinkEndpoint {
                binding: bind.ownership.binding,
                ticket: m.transport.next_ticket,
            },
        ),
        m.link_requested(link_id, link, bind).transport.control == m.transport.control,
        m.link_requested(link_id, link, bind).transport.owned == m.transport.owned,
        find(m.link_requested(link_id, link, bind).links, link_id) == Some(link),
        find(m.link_requested(link_id, link, bind).transport.generations, link_id) == Some(
            m.transport.next_generation,
        ),
{
    lemma_find_put(m.links, link_id, link, link_id);
    lemma_find_put(m.transport.generations, link_id, m.transport.next_generation, link_id);
}

/// Generations start at one and never come to zero.
pub proof fn generations_are_positive(
    m: LinkManagerModel,
    link_id: [u8; 16],
    link: Link,
    bind: PendingResponderEndpointBind,
)
    requires
        m.transport.next_generation >= 1,
    ensures
        m.link_requested(link_id, link, bind).transport.next_generation >= 1,
{
}

/// A Link whose endpoint another owner holds publishes neither its registration nor its
/// proof, and releases nothing: only the candidate goes.
pub proof fn bind_conflict_publishes_nothing(
    m: LinkManagerModel,
    link_id: [u8; 16],
    result: Option<LinkEndpointBindResult>,
)
    requires
        result != Some(LinkEndpointBindResult::Bound),
        !present(m.transport.owned, link_id),
    ensures
        m.bind_settled(link_id, result).transport.port == m.transport.port,
        m.bind_settled(link_id, result).transport.control == m.transport.control,
        m.bind_settled(link_id, result).transport.cleanups == m.transport.cleanups,
        m.bind_settled(link_id, result).transport.tombstones == m.transport.tombstones,
        present(m.transport.binds, link_id) ==> !present(
            m.bind_settled(link_id, result).links,
            link_id,
        ),
{
    if present(m.transport.binds, link_id) {
        let s = LinkManagerModel {
            transport: TransportModel { binds: cut(m.transport.binds, link_id), ..m.transport },
            ..m
        };
        lemma_find_cut(m.links, link_id, link_id);
        if present(m.links, link_id) {
            lemma_close_transport(s, link_id, CloseReason::DestinationClosed, false, None, false);
        }
    }
}

/// Concluding Resources touches neither Links nor the transport.
proof fn lemma_failed_each_frame(
    m: LinkManagerModel,
    link_id: [u8; 16],
    ids: Seq<[u8; 32]>,
    failure: Seq<char>,
)
    ensures
        ({
            let s = m.inbound_failed_each(link_id, ids, failure);
            &&& s.transport == m.transport
            &&& s.links == m.links
            &&& s.destination_links == m.destination_links
            &&& s.backchannel_links == m.backchannel_links
            &&& s.link_identities == m.link_identities
            &&& s.resources.outbound == m.resources.outbound
            &&& s.resources.queued == m.resources.queued
        }),
    decreases ids.len(),
{
    reveal(ResourcesModel::logical_dropped);
    if ids.len() > 0 {
        lemma_failed_each_frame(m, link_id, ids.drop_last(), failure);
    }
}

proof fn lemma_outbound_each_frame(
    m: LinkManagerModel,
    link_id: [u8; 16],
    ids: Seq<[u8; 32]>,
    failure: Seq<char>,
)
    ensures
        m.outbound_failed_each(link_id, ids, failure) == (LinkManagerModel {
            notices: m.outbound_failed_each(link_id, ids, failure).notices,
            ..m
        }),
    decreases ids.len(),
{
    if ids.len() > 0 {
        lemma_outbound_each_frame(m, link_id, ids.drop_last(), failure);
    }
}

/// A closed Link leaves the transport as the release of its endpoint does.
pub(crate) proof fn lemma_close_transport(
    m: LinkManagerModel,
    link_id: [u8; 16],
    reason: CloseReason,
    send_teardown: bool,
    teardown: Option<Seq<u8>>,
    endpoint_closing: bool,
)
    requires
        present(m.links, link_id),
    ensures
        ({
            let start = m.link_detached(link_id, reason, send_teardown, teardown, endpoint_closing);
            let s = m.link_closed(link_id, reason, send_teardown, teardown, endpoint_closing);
            &&& s.transport == start.transport
            &&& s.links == cut(m.links, link_id)
            &&& s.destination_links == cut(m.destination_links, link_id)
            &&& s.backchannel_links == start.backchannel_links
            &&& s.link_identities == cut(m.link_identities, link_id)
            &&& s.resources.outbound == start.resources.outbound
            &&& s.resources.queued == start.resources.queued
        }),
{
    let start = m.link_detached(link_id, reason, send_teardown, teardown, endpoint_closing);
    let ids = lifecycle_ids(m.resources.lifecycles, link_id);
    lemma_failed_each_frame(start, link_id, ids, close_failure(reason));
    lemma_outbound_each_frame(
        start.inbound_failed_each(link_id, ids, close_failure(reason)),
        link_id,
        outbound_ids(m.resources.outbound, link_id),
        close_failure(reason),
    );
}

// ---- endpoints ----

/// A Link is published only by a bind of its current generation: a bind that came too late
/// publishes neither its registration nor its proof, and its endpoint is released without
/// deregistering anything.
pub proof fn late_bind_is_only_released(m: LinkManagerModel, link_id: [u8; 16])
    requires
        present(m.transport.binds, link_id),
        !present(m.links, link_id) || find(m.transport.generations, link_id) != Some(
            (find(m.transport.binds, link_id)->0).ownership.generation,
        ),
    ensures
        ({
            let bind = find(m.transport.binds, link_id)->0;
            let s = m.bind_settled(link_id, Some(LinkEndpointBindResult::Bound));
            &&& s.transport.owned == m.transport.owned
            &&& s.transport.cleanups.len() == m.transport.cleanups.len() + 1
            &&& s.transport.cleanups.last().ownership == bind.ownership
            &&& !s.transport.cleanups.last().deregister_on_success
            &&& present(s.transport.tombstones, bind.ownership.binding.link_id)
        }),
{
    let bind = find(m.transport.binds, link_id)->0;
    lemma_find_put(
        m.transport.tombstones,
        bind.ownership.binding.link_id,
        ResponderEndpointTombstone {
            ownership: bind.ownership,
            kind: EndpointCleanupKind::Explicit,
            lifecycle_seen: false,
            lifecycle_required: false,
            barrier_acknowledged: false,
            finalization: None,
        },
        bind.ownership.binding.link_id,
    );
}

/// The end of an endpoint that is not exactly a Link's, of the Link's current generation,
/// closes no Link.
pub proof fn foreign_endpoint_end_closes_nothing(
    m: LinkManagerModel,
    event: LinkEndpointLifecycleEvent,
)
    requires
        !m.ends_candidate(event.binding),
        !m.ends_owner(event.binding),
    ensures
        m.endpoint_ended(event).links == m.links,
        m.endpoint_ended(event).resources == m.resources,
        m.endpoint_ended(event).notices == m.notices,
        m.endpoint_ended(event).transport.owned == m.transport.owned,
        m.endpoint_ended(event).transport.binds == m.transport.binds,
{
}

/// A tombstone is retired exactly when it has served: its barrier is acknowledged, and
/// the end of its endpoint was seen if it was to be.
pub proof fn tombstones_retire_when_served(t: TransportModel, i: int)
    ensures
        0 <= i < t.tombstones_retired().tombstones.len() ==> !(
        #[trigger] t.tombstones_retired().tombstones[i]).1.served(),
        0 <= i < t.tombstones.len() && !(#[trigger] t.tombstones[i]).1.served()
            ==> t.tombstones_retired().tombstones.contains(t.tombstones[i]),
{
    reveal(select);
    let p = |e: ([u8; 16], ResponderEndpointTombstone)| NotServed {  }.selects(e);
    assert(t.tombstones_retired().tombstones == t.tombstones.filter(p));
    if 0 <= i < t.tombstones_retired().tombstones.len() {
        lemma_filter_member(t.tombstones, p, i);
    }
    if 0 <= i < t.tombstones.len() && !t.tombstones[i].1.served() {
        lemma_filter_keeps(t.tombstones, p, i);
    }
}

/// A selection keeps every entry that satisfies it.
proof fn lemma_filter_keeps<T>(s: Seq<T>, p: spec_fn(T) -> bool, i: int)
    requires
        0 <= i < s.len(),
        p(s[i]),
    ensures
        s.filter(p).contains(s[i]),
    decreases s.len(),
{
    reveal_with_fuel(Seq::filter, 2);
    let t = s.drop_last();
    if i == s.len() - 1 {
        assert(s.filter(p).last() == s[i]);
    } else {
        lemma_filter_keeps(t, p, i);
        assert(t[i] == s[i]);
        let j = choose|j: int| 0 <= j < t.filter(p).len() && t.filter(p)[j] == s[i];
        assert(s.filter(p)[j] == s[i]);
    }
}

/// A teardown that is retained releases the endpoint with its packet: no release of its
/// own is requested, and the tombstone waits for the packet to be accepted.
pub proof fn teardown_releases_atomically(
    m: LinkManagerModel,
    link_id: [u8; 16],
    reason: CloseReason,
    data: Seq<u8>,
)
    requires
        present(m.links, link_id),
        present(m.transport.owned, link_id),
        (find(m.transport.owned, link_id)->0).binding.link_id == link_id,
        m.transport.retains(true),
    ensures
        ({
            let s = m.link_closed(link_id, reason, true, Some(data), false);
            &&& s.transport.cleanups == m.transport.cleanups
            &&& present(s.transport.tombstones, link_id)
            &&& (find(s.transport.tombstones, link_id)->0).kind == (EndpointCleanupKind::Atomic {
                accepted: false,
            })
        }),
{
    lemma_close_transport(m, link_id, reason, true, Some(data), false);
    let ownership = find(m.transport.owned, link_id)->0;
    let t0 = TransportModel {
        generations: cut(m.transport.generations, link_id),
        owned: cut(m.transport.owned, link_id),
        ..m.transport
    };
    let stone = ResponderEndpointTombstone {
        ownership,
        kind: EndpointCleanupKind::Explicit,
        lifecycle_seen: false,
        lifecycle_required: false,
        barrier_acknowledged: false,
        finalization: None,
    };
    lemma_find_put(t0.tombstones, link_id, stone, link_id);
    let t1 = t0.tombstone_installed(ownership, EndpointCleanupKind::Explicit);
    let kind = EndpointCleanupKind::Atomic { accepted: false };
    let old_stone = find(t1.tombstones, link_id)->0;
    lemma_find_put(
        t1.tombstones,
        link_id,
        ResponderEndpointTombstone { kind, ..old_stone },
        link_id,
    );
}

/// A teardown that is not retained leaves the endpoint to a release of its own.
pub proof fn refused_teardown_falls_back_to_release(
    m: LinkManagerModel,
    link_id: [u8; 16],
    reason: CloseReason,
    data: Seq<u8>,
)
    requires
        present(m.links, link_id),
        present(m.transport.owned, link_id),
        !m.transport.retains(true),
    ensures
        ({
            let s = m.link_closed(link_id, reason, true, Some(data), false);
            &&& s.transport.cleanups.len() == m.transport.cleanups.len() + 1
            &&& s.transport.cleanups.last().ownership == find(m.transport.owned, link_id)->0
            &&& s.transport.cleanups.last().deregister_on_success
        }),
{
    lemma_close_transport(m, link_id, reason, true, Some(data), false);
}

// ---- closing ----

/// A debt of the Link is in the list of its Resources.
proof fn lemma_lifecycle_listed(
    lifecycles: Seq<(ResourceKey, InboundResourceLifecycle)>,
    key: ResourceKey,
)
    requires
        present(lifecycles, key),
    ensures
        lifecycle_ids(lifecycles, key.link_id).contains(key.hash),
    decreases lifecycles.len(),
{
    reveal(find);
    lemma_position(lifecycles, key);
    let t = lifecycles.drop_last();
    lemma_position(t, key);
    let rest = lifecycle_ids(t, key.link_id);
    let ids = lifecycle_ids(lifecycles, key.link_id);
    if present(t, key) {
        lemma_lifecycle_listed(t, key);
        let j = choose|j: int| 0 <= j < rest.len() && rest[j] == key.hash;
        assert(ids[j] == key.hash);
    } else {
        assert(lifecycles.last().0 == key);
        if rest.contains(key.hash) {
            assert(ids == rest);
        } else {
            assert(ids.last() == key.hash);
        }
    }
}

/// After each of `ids` has failed, none of them is owed, and nothing new is.
proof fn lemma_failed_each_clears(
    m: LinkManagerModel,
    link_id: [u8; 16],
    ids: Seq<[u8; 32]>,
    failure: Seq<char>,
    key: ResourceKey,
)
    ensures
        present(m.inbound_failed_each(link_id, ids, failure).resources.lifecycles, key) == (present(
            m.resources.lifecycles,
            key,
        ) && !(key.link_id == link_id && ids.contains(key.hash))),
    decreases ids.len(),
{
    reveal(ResourcesModel::logical_dropped);
    if ids.len() > 0 {
        lemma_failed_each_clears(m, link_id, ids.drop_last(), failure, key);
        let s = m.inbound_failed_each(link_id, ids.drop_last(), failure);
        lemma_find_cut(s.resources.lifecycles, key_of(link_id, ids.last()), key);
        assert(ids =~= ids.drop_last().push(ids.last()));
        if ids.contains(key.hash) && key.hash != ids.last() {
            let j = choose|j: int| 0 <= j < ids.len() && ids[j] == key.hash;
            assert(ids.drop_last()[j] == key.hash);
        }
        if ids.drop_last().contains(key.hash) {
            let j = choose|j: int|
                0 <= j < ids.drop_last().len() && ids.drop_last()[j] == key.hash;
            assert(ids[j] == key.hash);
        }
        if key.hash == ids.last() {
            assert(ids[ids.len() - 1] == key.hash);
        }
        assert(key == key_of(link_id, ids.last()) <==> (key.link_id == link_id && key.hash
            == ids.last()));
    }
}

/// Selecting what is not on a Link leaves nothing on it.
proof fn lemma_other_link<V>(s: Seq<(ResourceKey, V)>, key: ResourceKey)
    ensures
        !present(select(s, OtherLink { link_id: key.link_id }), key),
{
    reveal(select);
    let other = OtherLink { link_id: key.link_id };
    let p = |e: (ResourceKey, V)| other.selects(e);
    let t = s.filter(p);
    if present(t, key) {
        let i = lemma_find_member(t, key);
        lemma_filter_member(s, p, i);
    }
}

/// Failing Resources brings no transfer back.
proof fn lemma_failed_each_shrinks(
    m: LinkManagerModel,
    link_id: [u8; 16],
    ids: Seq<[u8; 32]>,
    failure: Seq<char>,
    key: ResourceKey,
)
    ensures
        ({
            let s = m.inbound_failed_each(link_id, ids, failure);
            &&& present(s.resources.inbound, key) ==> present(m.resources.inbound, key)
            &&& present(s.resources.routes, key) ==> present(m.resources.routes, key)
            &&& present(s.resources.splits, key) ==> present(m.resources.splits, key)
        }),
    decreases ids.len(),
{
    if ids.len() > 0 {
        lemma_failed_each_shrinks(m, link_id, ids.drop_last(), failure, key);
        let s = m.inbound_failed_each(link_id, ids.drop_last(), failure);
        let dropped = key_of(link_id, ids.last());
        reveal(ResourcesModel::logical_dropped);
        reveal(select);
        let after = m.inbound_failed_each(link_id, ids, failure);
        let p = |e: (ResourceKey, InboundTransfer)|
            !(e.0.link_id == dropped.link_id && logical_id(s.resources.routes, e.0)
                == dropped.hash);
        assert(after.resources.inbound == s.resources.inbound.filter(p));
        if present(after.resources.inbound, key) {
            lemma_filter_present(s.resources.inbound, p, key);
        }
        let other = OtherRoute { key: dropped };
        let q = |e: (ResourceKey, SegmentRoute)| other.selects(e);
        assert(after.resources.routes == s.resources.routes.filter(q));
        if present(after.resources.routes, key) {
            lemma_filter_present(s.resources.routes, q, key);
        }
        lemma_find_cut(s.resources.splits, dropped, key);
    }
}

/// A closed Link is gone: no state is left under its id but the tombstone of its endpoint,
/// no peer is reached over it, and it neither carries nor owes a Resource.
pub proof fn closed_link_leaves_nothing(
    m: LinkManagerModel,
    link_id: [u8; 16],
    reason: CloseReason,
    send_teardown: bool,
    teardown: Option<Seq<u8>>,
    endpoint_closing: bool,
    hash: [u8; 32],
    peer: int,
)
    requires
        present(m.links, link_id),
    ensures
        ({
            let s = m.link_closed(link_id, reason, send_teardown, teardown, endpoint_closing);
            &&& !present(s.links, link_id)
            &&& !present(s.destination_links, link_id)
            &&& !present(s.link_identities, link_id)
            &&& !present(s.transport.generations, link_id)
            &&& !present(s.transport.owned, link_id)
            &&& 0 <= peer < s.backchannel_links.len() ==> s.backchannel_links[peer].1 != link_id
            &&& !present(s.resources.lifecycles, key_of(link_id, hash))
            &&& !present(s.resources.inbound, key_of(link_id, hash))
            &&& !present(s.resources.routes, key_of(link_id, hash))
            &&& !present(s.resources.splits, key_of(link_id, hash))
            &&& !present(s.resources.outbound, key_of(link_id, hash))
            &&& !present(s.resources.queued, key_of(link_id, hash))
        }),
{
    let key = key_of(link_id, hash);
    let start = m.link_detached(link_id, reason, send_teardown, teardown, endpoint_closing);
    let ids = lifecycle_ids(m.resources.lifecycles, link_id);
    lemma_close_transport(m, link_id, reason, send_teardown, teardown, endpoint_closing);
    lemma_find_cut(m.links, link_id, link_id);
    lemma_find_cut(m.destination_links, link_id, link_id);
    lemma_find_cut(m.link_identities, link_id, link_id);
    lemma_find_cut(m.transport.generations, link_id, link_id);
    lemma_find_cut(m.transport.owned, link_id, link_id);
    lemma_other_link(m.resources.inbound, key);
    lemma_other_link(m.resources.routes, key);
    lemma_other_link(m.resources.splits, key);
    lemma_failed_each_shrinks(start, link_id, ids, close_failure(reason), key);
    lemma_other_link(m.resources.outbound, key);
    lemma_other_link(m.resources.queued, key);
    lemma_failed_each_clears(start, link_id, ids, close_failure(reason), key);
    if present(m.resources.lifecycles, key) {
        lemma_lifecycle_listed(m.resources.lifecycles, key);
    }
    lemma_outbound_each_frame(
        start.inbound_failed_each(link_id, ids, close_failure(reason)),
        link_id,
        outbound_ids(m.resources.outbound, link_id),
        close_failure(reason),
    );
    let s = m.link_closed(link_id, reason, send_teardown, teardown, endpoint_closing);
    if 0 <= peer < s.backchannel_links.len() {
        reveal(select);
        let other = OtherBackchannel { link_id };
        let p = |e: ([u8; 16], [u8; 16])| other.selects(e);
        lemma_filter_member(m.backchannel_links, p, peer);
    }
}

/// A proof of a packet goes one way. One that settles a message of the channel counts for
/// the Link's keepalive, once, and is reported to nobody. Any other valid one is reported,
/// once on the accounting stream, and counts for no keepalive. A proof that is too short
/// or not valid is nothing.
pub proof fn packet_proofs_go_one_way(
    m: LinkManagerModel,
    link_id: [u8; 16],
    data: Seq<u8>,
    valid: bool,
    matches_channel: bool,
)
    ensures
        ({
            let s = m.packet_proof_received(link_id, data, valid, matches_channel);
            let accepted = data.len() >= 96 && valid;
            let entry = AccountingModel::LinkPacketProof(
                LinkPacketProof { link_id, packet_hash: hash_at(data, 0) },
            );
            &&& s.effects == if accepted && matches_channel {
                m.effects.push(Effect::ProofRecorded { link_id })
            } else {
                m.effects
            }
            &&& !accepted || matches_channel ==> s.notices == m.notices
            &&& accepted && !matches_channel && listening(m.notices)
                ==> s.notices.accounting->0.sent == m.notices.accounting->0.sent.push(entry)
        }),
{
    if data.len() >= 96 && valid && !matches_channel {
        let proof = LinkPacketProof { link_id, packet_hash: hash_at(data, 0) };
        let n = m.notices.accounted(AccountingModel::LinkPacketProof(proof));
        lemma_legacy_flush_keeps_stream(
            NoticesModel {
                pending_legacy: n.pending_legacy.push(
                    LegacyTerminalNotification::PacketProof(proof),
                ),
                ..n
            },
        );
    }
}

/// A Link closes once: closing it again changes nothing.
pub proof fn close_is_final(
    m: LinkManagerModel,
    link_id: [u8; 16],
    reason: CloseReason,
    send_teardown: bool,
    teardown: Option<Seq<u8>>,
    endpoint_closing: bool,
    again: CloseReason,
)
    ensures
        ({
            let s = m.link_closed(link_id, reason, send_teardown, teardown, endpoint_closing);
            s.link_closed(link_id, again, send_teardown, teardown, endpoint_closing) == s
        }),
{
    if present(m.links, link_id) {
        lemma_close_transport(m, link_id, reason, send_teardown, teardown, endpoint_closing);
        lemma_find_cut(m.links, link_id, link_id);
    }
}

/// The stream's entries for Resources of a Link that failed with it.
pub open spec fn failures(
    link_id: [u8; 16],
    ids: Seq<[u8; 32]>,
    direction: LinkResourceDirection,
    failure: Seq<char>,
) -> Seq<AccountingModel> {
    Seq::new(
        ids.len(),
        |i: int|
            AccountingModel::ResourceEvent(
                EventModel::Concluded {
                    link_id,
                    resource_id: ids[i],
                    direction,
                    conclusion: ConclusionModel::Failed(failure),
                },
            ),
    )
}

proof fn lemma_inbound_failures(
    m: LinkManagerModel,
    link_id: [u8; 16],
    ids: Seq<[u8; 32]>,
    failure: Seq<char>,
)
    requires
        listening(m.notices),
        ids.no_duplicates(),
        forall|i: int|
            0 <= i < ids.len() ==> present(
                m.resources.lifecycles,
                key_of(link_id, #[trigger] ids[i]),
            ),
    ensures
        ({
            let s = m.inbound_failed_each(link_id, ids, failure);
            &&& listening(s.notices)
            &&& s.notices.accounting->0.sent == m.notices.accounting->0.sent + failures(
                link_id,
                ids,
                LinkResourceDirection::Inbound,
                failure,
            )
        }),
    decreases ids.len(),
{
    if ids.len() > 0 {
        let front = ids.drop_last();
        assert forall|i: int| 0 <= i < front.len() implies present(
            m.resources.lifecycles,
            key_of(link_id, #[trigger] front[i]),
        ) by {
            assert(front[i] == ids[i]);
        }
        lemma_inbound_failures(m, link_id, front, failure);
        let key = key_of(link_id, ids.last());
        assert(present(m.resources.lifecycles, key)) by {
            assert(ids[ids.len() - 1] == ids.last());
        }
        assert(!front.contains(ids.last())) by {
            if front.contains(ids.last()) {
                let j = choose|j: int| 0 <= j < front.len() && front[j] == ids.last();
                assert(ids[j] == ids[ids.len() - 1]);
            }
        }
        lemma_failed_each_clears(m, link_id, front, failure, key);
        let d = LinkResourceDirection::Inbound;
        assert(failures(link_id, ids, d, failure) =~= failures(link_id, front, d, failure).push(
            AccountingModel::ResourceEvent(
                EventModel::Concluded {
                    link_id,
                    resource_id: ids.last(),
                    direction: d,
                    conclusion: ConclusionModel::Failed(failure),
                },
            ),
        ));
        assert(m.inbound_failed_each(link_id, ids, failure).notices.accounting->0.sent
            =~= m.notices.accounting->0.sent + failures(link_id, ids, d, failure));
    } else {
        assert(m.notices.accounting->0.sent + failures(
            link_id,
            ids,
            LinkResourceDirection::Inbound,
            failure,
        ) =~= m.notices.accounting->0.sent);
    }
}

proof fn lemma_outbound_failures(
    m: LinkManagerModel,
    link_id: [u8; 16],
    ids: Seq<[u8; 32]>,
    failure: Seq<char>,
)
    requires
        listening(m.notices),
    ensures
        ({
            let s = m.outbound_failed_each(link_id, ids, failure);
            &&& listening(s.notices)
            &&& s.notices.accounting->0.sent == m.notices.accounting->0.sent + failures(
                link_id,
                ids,
                LinkResourceDirection::Outbound,
                failure,
            )
        }),
    decreases ids.len(),
{
    let d = LinkResourceDirection::Outbound;
    if ids.len() > 0 {
        let front = ids.drop_last();
        lemma_outbound_failures(m, link_id, front, failure);
        assert(failures(link_id, ids, d, failure) =~= failures(link_id, front, d, failure).push(
            AccountingModel::ResourceEvent(
                EventModel::Concluded {
                    link_id,
                    resource_id: ids.last(),
                    direction: d,
                    conclusion: ConclusionModel::Failed(failure),
                },
            ),
        ));
        assert(m.outbound_failed_each(link_id, ids, failure).notices.accounting->0.sent
            =~= m.notices.accounting->0.sent + failures(link_id, ids, d, failure));
    } else {
        assert(m.notices.accounting->0.sent + failures(link_id, ids, d, failure)
            =~= m.notices.accounting->0.sent);
    }
}

/// The Resources of a Link are listed once each, and each of them is owed.
proof fn lemma_lifecycle_ids(
    lifecycles: Seq<(ResourceKey, InboundResourceLifecycle)>,
    link_id: [u8; 16],
)
    ensures
        lifecycle_ids(lifecycles, link_id).no_duplicates(),
        forall|i: int|
            0 <= i < lifecycle_ids(lifecycles, link_id).len() ==> present(
                lifecycles,
                key_of(link_id, #[trigger] lifecycle_ids(lifecycles, link_id)[i]),
            ),
    decreases lifecycles.len(),
{
    if lifecycles.len() > 0 {
        let t = lifecycles.drop_last();
        lemma_lifecycle_ids(t, link_id);
        let rest = lifecycle_ids(t, link_id);
        let ids = lifecycle_ids(lifecycles, link_id);
        assert forall|i: int| 0 <= i < ids.len() implies present(
            lifecycles,
            key_of(link_id, #[trigger] ids[i]),
        ) by {
            if i < rest.len() {
                assert(ids[i] == rest[i]);
                let k = lemma_find_member(t, key_of(link_id, rest[i]));
                assert(lifecycles[k] == t[k]);
                lemma_has_member(lifecycles, k);
            } else {
                lemma_has_member(lifecycles, lifecycles.len() - 1);
            }
        }
    }
}

/// Closing a Link puts on the accounting stream the Link's end, then the failure of each
/// inbound Resource that was owed, then that of each outbound Resource on its way, and
/// nothing else.
pub proof fn close_accounting_is_ordered(
    m: LinkManagerModel,
    link_id: [u8; 16],
    reason: CloseReason,
    send_teardown: bool,
    teardown: Option<Seq<u8>>,
    endpoint_closing: bool,
)
    requires
        present(m.links, link_id),
        listening(m.notices),
    ensures
        m.link_closed(
            link_id,
            reason,
            send_teardown,
            teardown,
            endpoint_closing,
        ).notices.accounting->0.sent == m.notices.accounting->0.sent + seq![
            AccountingModel::LinkClosed { link_id },
        ] + failures(
            link_id,
            lifecycle_ids(m.resources.lifecycles, link_id),
            LinkResourceDirection::Inbound,
            close_failure(reason),
        ) + failures(
            link_id,
            outbound_ids(m.resources.outbound, link_id),
            LinkResourceDirection::Outbound,
            close_failure(reason),
        ),
{
    let start = m.link_detached(link_id, reason, send_teardown, teardown, endpoint_closing);
    let ids = lifecycle_ids(m.resources.lifecycles, link_id);
    let n = m.notices.accounted(AccountingModel::LinkClosed { link_id });
    lemma_legacy_flush_keeps_stream(
        NoticesModel {
            pending_legacy: n.pending_legacy.push(LegacyTerminalNotification::LinkClosed(link_id)),
            ..n
        },
    );
    assert(start.notices.accounting == n.accounting);
    assert(start.notices.accounting->0.sent =~= m.notices.accounting->0.sent + seq![
        AccountingModel::LinkClosed { link_id },
    ]);
    lemma_lifecycle_ids(m.resources.lifecycles, link_id);
    lemma_inbound_failures(start, link_id, ids, close_failure(reason));
    lemma_outbound_failures(
        start.inbound_failed_each(link_id, ids, close_failure(reason)),
        link_id,
        outbound_ids(m.resources.outbound, link_id),
        close_failure(reason),
    );
}

// ---- packets ----

/// A packet of a Link that comes in on another interface than the Link's changes nothing.
pub proof fn wrong_interface_changes_nothing(
    m: LinkManagerModel,
    header: PacketHeader,
    interface_id: u64,
    input: PacketInput,
)
    requires
        present(m.links, header.destination_hash),
        interface_id != (find(m.links, header.destination_hash)->0).interface_id,
    ensures
        m.packet_handled(header, interface_id, input) == m,
{
}

/// The first identity wins: on a Link whose peer has identified itself, a further
/// identification changes nothing.
pub proof fn first_identity_wins(
    m: LinkManagerModel,
    link_id: [u8; 16],
    first: [u8; 16],
    second: Option<[u8; 16]>,
    gate_accepts: bool,
    teardown: Option<Seq<u8>>,
)
    requires
        present(m.links, link_id),
    ensures
        m.peer_identified(link_id, first).identification_received(
            link_id,
            second,
            gate_accepts,
            teardown,
        ) == m.peer_identified(link_id, first),
        m.peer_identified(link_id, first).remote_identity(link_id) == Some(first),
{
    let link = find(m.links, link_id)->0;
    lemma_find_put(
        m.links,
        link_id,
        Link { identified: true, remote_identity: Some(first), ..link },
        link_id,
    );
}

/// Application data is published only while its proof is retained.
pub proof fn data_is_published_only_with_its_proof(
    m: LinkManagerModel,
    link_id: [u8; 16],
    plaintext: Option<Seq<u8>>,
    delivery_proof: Option<Seq<u8>>,
)
    requires
        delivery_proof is None || !m.transport.retains(true),
    ensures
        m.data_received(link_id, plaintext, delivery_proof).notices == m.notices,
        !m.publishes(link_id, plaintext, delivery_proof),
{
}

/// The content of a channel packet is taken in only while its proof is retained.
pub proof fn channel_data_is_taken_only_with_its_proof(
    m: LinkManagerModel,
    link_id: [u8; 16],
    delivery_proof: Option<Seq<u8>>,
    registered: bool,
)
    requires
        delivery_proof is None || !m.transport.retains(true),
    ensures
        !m.channel_packet_taken(link_id, delivery_proof, registered),
        m.channel_packet_proved(link_id, delivery_proof, registered).notices == m.notices,
{
}

// ---- offers ----

/// An application that accepts no Resources is not asked, and a first offer leaves no
/// trace.
pub proof fn accept_none_drops_first_offers(
    m: LinkManagerModel,
    link_id: [u8; 16],
    adv: ResourceAdvertisement,
    transfer: Result<ActionModel, Seq<char>>,
    accepted: bool,
)
    requires
        m.settings.resource_strategy is AcceptNone,
        adv.ordinary(),
        adv.in_range(m.settings.constants.max_segments),
        adv.splits() ==> adv.segment_index == 1,
        !present(m.resources.inbound, key_of(link_id, adv.resource_hash)),
        !present(m.resources.lifecycles, key_of(link_id, adv.resource_id())),
    ensures
        m.advertised(link_id, adv, transfer, accepted) == m,
{
}

/// An offer of the segment that is on its way already changes nothing.
pub proof fn duplicate_offer_changes_nothing(
    m: LinkManagerModel,
    link_id: [u8; 16],
    adv: ResourceAdvertisement,
    transfer: Result<ActionModel, Seq<char>>,
    accepted: bool,
)
    requires
        adv.in_range(m.settings.constants.max_segments),
        present(m.resources.inbound, key_of(link_id, adv.resource_hash)),
        logical_id(
            m.resources.routes,
            key_of(link_id, adv.resource_hash),
        ) == adv.resource_id(),
        present(m.resources.lifecycles, key_of(link_id, adv.resource_id())),
        (find(
            m.resources.lifecycles,
            key_of(link_id, adv.resource_id()),
        )->0).current_segment == Some(adv.resource_hash),
    ensures
        m.advertised(link_id, adv, transfer, accepted) == m,
{
}

/// A first offer whose place in its Resource is impossible is refused in silence: nothing
/// is sent, reported or owed.
pub proof fn impossible_first_offer_is_silent(
    m: LinkManagerModel,
    link_id: [u8; 16],
    adv: ResourceAdvertisement,
    transfer: Result<ActionModel, Seq<char>>,
    accepted: bool,
)
    requires
        !adv.in_range(m.settings.constants.max_segments),
        !present(m.resources.lifecycles, key_of(link_id, adv.resource_id())),
    ensures
        m.advertised(link_id, adv, transfer, accepted).notices == m.notices,
        m.advertised(link_id, adv, transfer, accepted).transport == m.transport,
        m.advertised(link_id, adv, transfer, accepted).links == m.links,
        m.advertised(link_id, adv, transfer, accepted).resources.lifecycles
            == m.resources.lifecycles,
{
    reveal(ResourcesModel::logical_dropped);
    lemma_cut_absent(m.resources.lifecycles, key_of(link_id, adv.resource_id()));
}

/// A request Resource is let in only where requests are handled: elsewhere a first offer
/// leaves no trace.
pub proof fn request_offer_without_handlers_is_ignored(
    m: LinkManagerModel,
    link_id: [u8; 16],
    adv: ResourceAdvertisement,
    transfer: Result<ActionModel, Seq<char>>,
    accepted: bool,
)
    requires
        adv.requests(),
        !m.handles_requests(),
        adv.in_range(m.settings.constants.max_segments),
        adv.splits() ==> adv.segment_index == 1,
        !present(m.resources.inbound, key_of(link_id, adv.resource_hash)),
        !present(m.resources.lifecycles, key_of(link_id, adv.resource_id())),
    ensures
        m.advertised(link_id, adv, transfer, accepted) == m,
{
}

// ---- handlers ----

/// A handler that was registered for a path answers its requests until it is removed;
/// then there is none to remove.
pub proof fn handlers_come_and_go(
    m: LinkManagerModel,
    path_hash: [u8; 16],
    handler: RegisteredRequestHandler,
)
    requires
        handler.path@.len() > 0,
    ensures
        ({
            let s = m.handler_registered(path_hash, handler);
            let t = s.commanded(LinkManagerCommand::DeregisterRequestHandler { path_hash });
            &&& find(s.handlers, path_hash) == Some(handler)
            &&& s.command_outcome(LinkManagerCommand::DeregisterRequestHandler { path_hash }) == (
            CommandOutcome::Handler(true))
            &&& t.command_outcome(LinkManagerCommand::DeregisterRequestHandler { path_hash }) == (
            CommandOutcome::Handler(false))
        }),
{
    lemma_find_put(m.handlers, path_hash, handler, path_hash);
    let s = m.handler_registered(path_hash, handler);
    lemma_find_cut(s.handlers, path_hash, path_hash);
}

// ---- queries ----

/// While a response is awaited, a packet that is not on the Link's interface, that does
/// not unpack, or that is for another destination means nothing.
pub proof fn foreign_packets_mean_nothing(
    wait: ResponseWait,
    header: Option<PacketHeader>,
    interface_id: u64,
    input: ResponseInput,
)
    requires
        interface_id != wait.attached_interface || header is None || (
        header->0).destination_hash != wait.link_id,
    ensures
        wait.wait_step(WaitEvent::Packet { header, interface_id, input }) == idle(),
        wait.wait_transfers(WaitEvent::Packet { header, interface_id, input })
            == wait.transfers@,
{
}

// ---- the end ----

/// The ids of the Links.
pub open spec fn link_ids(m: LinkManagerModel) -> Seq<[u8; 16]> {
    Seq::new(m.links.len(), |i: int| m.links[i].0)
}

proof fn lemma_dropped_are_gone(
    m: LinkManagerModel,
    ids: Seq<[u8; 16]>,
    reason: CloseReason,
    link_id: [u8; 16],
)
    ensures
        find(m.links_dropped(ids, reason).links, link_id) == (if ids.contains(link_id) {
            None
        } else {
            find(m.links, link_id)
        }),
    decreases ids.len(),
{
    if ids.len() > 0 {
        let s = m.links_dropped(ids.drop_last(), reason);
        lemma_dropped_are_gone(m, ids.drop_last(), reason, link_id);
        assert(ids =~= ids.drop_last().push(ids.last()));
        assert(ids.contains(link_id) == (ids.drop_last().contains(link_id) || ids.last()
            == link_id)) by {
            if ids.contains(link_id) {
                let i = ids.index_of(link_id);
                if i < ids.len() - 1 {
                    assert(ids.drop_last()[i] == link_id);
                }
            }
            if ids.drop_last().contains(link_id) {
                let i = ids.drop_last().index_of(link_id);
                assert(ids[i] == link_id);
            }
            assert(ids[ids.len() - 1] == ids.last());
        }
        if present(s.links, ids.last()) {
            lemma_close_transport(s, ids.last(), reason, false, None, false);
            lemma_find_cut(s.links, ids.last(), link_id);
        }
    }
}

/// Once every Link is dropped, none is left.
pub proof fn dropping_all_leaves_no_link(m: LinkManagerModel, reason: CloseReason)
    ensures
        m.links_dropped(link_ids(m), reason).links == Seq::<([u8; 16], Link)>::empty(),
{
    let after = m.links_dropped(link_ids(m), reason).links;
    if after.len() > 0 {
        let id = after[0].0;
        lemma_has_member(after, 0);
        lemma_dropped_are_gone(m, link_ids(m), reason, id);
        let i = lemma_find_member(m.links, id);
        assert(link_ids(m)[i] == id);
    }
}

/// A shutdown that is done leaves nothing of an endpoint behind: no bind, no send and no
/// release without an answer, no control that waits, and no tombstone.
pub proof fn shutdown_leaves_nothing(m: LinkManagerModel)
    requires
        m.shutdown_done(),
    ensures
        m.shutdown_round().settled(),
{
}

} // verus!
