//! A Link stays on the interface, and in the role, in which it was taken in.
//!
//! Only a Link request adds a Link. Whatever else the manager is told, the Links that are
//! left are those that were there, attached as they were, and no id comes to stand for
//! two of them.

use vstd::prelude::*;

use crate::assoc::{
    cut, find, lemma_cut_unique, lemma_find_cut, lemma_find_put, lemma_position, lemma_put_unique,
    position, present, put, unique,
};
use crate::commands::{DestinationEvent, LinkManagerCommand};
use crate::endpoints::{pending_bind, requested_link};
use crate::events::bytes_model;
use crate::inbound::ResourceAdvertisement;
use crate::link::{ActionModel, CloseReason, Link, LinkState, ResourceStrategy};
use crate::manager::LinkManagerModel;
use crate::packets::{OfferInput, PacketInput};
use crate::receiving::CompletedSegment;
use crate::resources::{lifecycle_ids, outbound_ids, overdue_ids};
use crate::sending::{optional_len, BuiltResource, ResourceTransferStart};
use crate::setup::with_strategy;
use crate::tick::{ChannelTimeout, LinkAction, LinkRemoval, WatchdogAction};
use crate::transport::{
    accepted_final_sends, bind_outcomes, failed_sends, released_endpoints, AcceptedFinalSend,
    FailedSend, PendingResponderEndpointBind, ReleasedEndpoint, TransportModel,
};
use crate::wire::{
    LinkEndpointBindResult, LinkEndpointLifecycleEvent, LinkEndpointSendResult, PacketHeader,
};

verus! {

/// Whether two states of a Link are attached to the same interface in the same role.
pub open spec fn same_attachment(a: Link, b: Link) -> bool {
    &&& a.interface_id == b.interface_id
    &&& a.is_initiator == b.is_initiator
}

/// From `a` to `b` no Link has appeared, every Link that is left is attached as before,
/// and no id has come to stand for two Links.
pub open spec fn keeps_links(a: LinkManagerModel, b: LinkManagerModel) -> bool {
    &&& forall|id: [u8; 16]|
        #![trigger find(b.links, id)]
        find(b.links, id) matches Some(after) ==> (find(a.links, id) matches Some(before)
            && same_attachment(before, after))
    &&& unique(a.links) ==> unique(b.links)
}

/// Every Link that is in `a` and in `b` is attached in the same way, and no id has come to
/// stand for two Links.
pub open spec fn keeps_attachments(a: LinkManagerModel, b: LinkManagerModel) -> bool {
    &&& forall|id: [u8; 16]|
        #![trigger find(b.links, id)]
        (find(a.links, id) is Some && find(b.links, id) is Some) ==> same_attachment(
            find(a.links, id)->0,
            find(b.links, id)->0,
        )
    &&& unique(a.links) ==> unique(b.links)
}

proof fn lemma_same(a: LinkManagerModel, b: LinkManagerModel)
    requires
        a.links == b.links,
    ensures
        keeps_links(a, b),
{
}

proof fn lemma_chain(a: LinkManagerModel, b: LinkManagerModel, c: LinkManagerModel)
    requires
        keeps_links(a, b),
        keeps_links(b, c),
    ensures
        keeps_links(a, c),
{
    assert forall|id: [u8; 16]|
        #![trigger find(c.links, id)]
        find(c.links, id) is Some implies find(a.links, id) is Some && same_attachment(
        find(a.links, id)->0,
        find(c.links, id)->0,
    ) by {
        assert(find(b.links, id) is Some);
    }
}

proof fn lemma_cut(a: LinkManagerModel, b: LinkManagerModel, link_id: [u8; 16])
    requires
        b.links == cut(a.links, link_id),
    ensures
        keeps_links(a, b),
{
    assert forall|id: [u8; 16]|
        #![trigger find(b.links, id)]
        find(b.links, id) is Some implies find(a.links, id) == find(b.links, id) by {
        lemma_find_cut(a.links, link_id, id);
    }
    if unique(a.links) {
        lemma_cut_unique(a.links, link_id);
    }
}

/// A Link that is there, changed in other respects.
proof fn lemma_put(a: LinkManagerModel, b: LinkManagerModel, link_id: [u8; 16], link: Link)
    requires
        find(a.links, link_id) is Some,
        same_attachment(find(a.links, link_id)->0, link),
        b.links == put(a.links, link_id, link),
    ensures
        keeps_links(a, b),
{
    assert forall|id: [u8; 16]|
        #![trigger find(b.links, id)]
        find(b.links, id) is Some implies find(a.links, id) is Some && same_attachment(
        find(a.links, id)->0,
        find(b.links, id)->0,
    ) by {
        lemma_find_put(a.links, link_id, link, id);
    }
    if unique(a.links) {
        lemma_put_unique(a.links, link_id, link);
    }
}

proof fn lemma_failed_each(
    m: LinkManagerModel,
    link_id: [u8; 16],
    ids: Seq<[u8; 32]>,
    failure: Seq<char>,
)
    ensures
        m.inbound_failed_each(link_id, ids, failure).links == m.links,
    decreases ids.len(),
{
    if ids.len() > 0 {
        lemma_failed_each(m, link_id, ids.drop_last(), failure);
    }
}

proof fn lemma_outbound_each(
    m: LinkManagerModel,
    link_id: [u8; 16],
    ids: Seq<[u8; 32]>,
    failure: Seq<char>,
)
    ensures
        m.outbound_failed_each(link_id, ids, failure).links == m.links,
    decreases ids.len(),
{
    if ids.len() > 0 {
        lemma_outbound_each(m, link_id, ids.drop_last(), failure);
    }
}

/// Closing a Link leaves the others as they are.
pub proof fn closing_keeps_links(
    m: LinkManagerModel,
    link_id: [u8; 16],
    reason: CloseReason,
    send_teardown: bool,
    teardown: Option<Seq<u8>>,
    endpoint_closing: bool,
)
    ensures
        keeps_links(
            m,
            m.link_closed(link_id, reason, send_teardown, teardown, endpoint_closing),
        ),
{
    let after = m.link_closed(link_id, reason, send_teardown, teardown, endpoint_closing);
    if present(m.links, link_id) {
        let start = m.link_detached(link_id, reason, send_teardown, teardown, endpoint_closing);
        let inbound = lifecycle_ids(m.resources.lifecycles, link_id);
        let outbound = outbound_ids(m.resources.outbound, link_id);
        let failure = crate::text::close_failure(reason);
        lemma_failed_each(start, link_id, inbound, failure);
        let middle = start.inbound_failed_each(link_id, inbound, failure);
        lemma_outbound_each(middle, link_id, outbound, failure);
        lemma_cut(m, after, link_id);
    } else {
        lemma_same(m, after);
    }
}

proof fn lemma_dropped(m: LinkManagerModel, link_id: [u8; 16], reason: CloseReason)
    ensures
        keeps_links(m, m.link_dropped(link_id, reason)),
{
    closing_keeps_links(m, link_id, reason, false, None, false);
}

proof fn lemma_advertised(
    m: LinkManagerModel,
    link_id: [u8; 16],
    adv: ResourceAdvertisement,
    transfer: Result<ActionModel, Seq<char>>,
    accepted: bool,
)
    ensures
        m.advertised(link_id, adv, transfer, accepted).links == m.links,
{
}

/// A complete segment changes no Link.
pub proof fn segments_keep_links(
    m: LinkManagerModel,
    link_id: [u8; 16],
    segment: [u8; 32],
    result: Result<CompletedSegment<Seq<u8>, Seq<char>>, Seq<char>>,
    deadline: u64,
)
    ensures
        keeps_links(m, m.segment_completed(link_id, segment, result, deadline)),
{
    lemma_same(m, m.segment_completed(link_id, segment, result, deadline));
}

proof fn lemma_actions(m: LinkManagerModel, link_id: [u8; 16], actions: Seq<ActionModel>)
    ensures
        m.actions_sent(link_id, actions).links == m.links,
    decreases actions.len(),
{
    if actions.len() > 0 {
        lemma_actions(m.action_sent(link_id, actions[0]), link_id, actions.skip(1));
    }
}

proof fn lemma_channel(m: LinkManagerModel, link_id: [u8; 16], registered: bool)
    ensures
        keeps_links(m, m.channel_opened(link_id, registered)),
{
    let after = m.channel_opened(link_id, registered);
    match find(m.links, link_id) {
        Some(link) => {
            if link.has_channel || !(link.has_session_keys && registered) {
                lemma_same(m, after);
            } else {
                lemma_put(m, after, link_id, Link { has_channel: true, ..link });
            }
        },
        None => {
            lemma_same(m, after);
        },
    }
}

proof fn lemma_activated(m: LinkManagerModel, link_id: [u8; 16], hops: u8, accepted: bool)
    ensures
        keeps_links(m, m.link_activated(link_id, hops, accepted)),
{
    let after = m.link_activated(link_id, hops, accepted);
    match find(m.links, link_id) {
        Some(link) => {
            if link.state is Handshake && accepted {
                let active = Link {
                    state: LinkState::Active,
                    expected_hops: Some(
                        if hops == 255 {
                            255u8
                        } else {
                            (hops + 1) as u8
                        },
                    ),
                    ..link
                };
                lemma_put(m, after, link_id, active);
            } else {
                lemma_same(m, after);
            }
        },
        None => {
            lemma_same(m, after);
        },
    }
}

proof fn lemma_identification(
    m: LinkManagerModel,
    link_id: [u8; 16],
    identity: Option<[u8; 16]>,
    gate_accepts: bool,
    teardown: Option<Seq<u8>>,
)
    ensures
        keeps_links(m, m.identification_received(link_id, identity, gate_accepts, teardown)),
{
    let after = m.identification_received(link_id, identity, gate_accepts, teardown);
    if let Some(hash) = identity {
        if m.first_identification(link_id) {
            let s = m.peer_identified(link_id, hash);
            let link = find(m.links, link_id)->0;
            lemma_put(
                m,
                s,
                link_id,
                Link { identified: true, remote_identity: Some(hash), ..link },
            );
            closing_keeps_links(
                s,
                link_id,
                CloseReason::InitiatorClosed,
                true,
                teardown,
                false,
            );
            lemma_chain(
                m,
                s,
                s.link_closed(link_id, CloseReason::InitiatorClosed, true, teardown, false),
            );
        } else {
            lemma_same(m, after);
        }
    } else {
        lemma_same(m, after);
    }
}

/// Whatever packet arrives on whatever interface, the Links stay attached.
pub proof fn packets_keep_links(
    m: LinkManagerModel,
    header: PacketHeader,
    interface_id: u64,
    input: PacketInput,
)
    ensures
        keeps_links(m, m.packet_handled(header, interface_id, input)),
{
    let link_id = header.destination_hash;
    let after = m.packet_handled(header, interface_id, input);
    lemma_same(m, m);
    match input {
        PacketInput::Lrrtt { accepted } => {
            lemma_activated(m, link_id, header.hops, accepted);
        },
        PacketInput::Identify { identity, gate_accepts, teardown } => {
            lemma_identification(m, link_id, identity, gate_accepts, bytes_model(teardown));
        },
        PacketInput::Close { verified } => {
            lemma_dropped(m, link_id, CloseReason::DestinationClosed);
        },
        PacketInput::Channel { proof, registered } => {
            lemma_channel(m, link_id, registered);
            let s = m.channel_opened(link_id, registered);
            let t = m.channel_packet_proved(link_id, bytes_model(proof), registered);
            if t.links == m.links {
                lemma_same(m, t);
            } else {
                lemma_same(s, t);
                lemma_chain(m, s, t);
            }
        },
        PacketInput::Advertisement(offer) => match offer {
            OfferInput::Sealed => {},
            OfferInput::Malformed { teardown } => {
                closing_keeps_links(
                    m,
                    link_id,
                    CloseReason::DestinationClosed,
                    true,
                    bytes_model(teardown),
                    false,
                );
            },
            OfferInput::Offer { adv, transfer, accepted } => {
                lemma_advertised(
                    m,
                    link_id,
                    adv,
                    crate::inbound::transfer_model(transfer),
                    accepted,
                );
                lemma_same(m, after);
            },
        },
        PacketInput::PartsRequest { plaintext, actions, progress } => {
            lemma_actions(m, link_id, crate::sending::action_models(actions@));
            lemma_same(m, after);
        },
        _ => {
            lemma_same(m, after);
        },
    }
}

proof fn lemma_resource_started(
    m: LinkManagerModel,
    link_id: [u8; 16],
    allow_handshake: bool,
    data_len: nat,
    metadata_len: Option<nat>,
    built: BuiltResource,
)
    ensures
        m.resource_started(link_id, allow_handshake, data_len, metadata_len, built).links
            == m.links,
{
}

/// Whatever command is carried out, the Links stay attached.
pub proof fn commands_keep_links(m: LinkManagerModel, command: LinkManagerCommand)
    ensures
        keeps_links(m, m.commanded(command)),
{
    let after = m.commanded(command);
    match command {
        LinkManagerCommand::SendChannelMessage { link_id, registered, prepared } => {
            let s = m.channel_opened(link_id, registered);
            lemma_channel(m, link_id, registered);
            if m.channel_unavailable(link_id, registered) is Some {
                lemma_same(m, after);
            } else {
                lemma_same(s, after);
                lemma_chain(m, s, after);
            }
        },
        LinkManagerCommand::SendLinkResource { link_id, payload, built } => {
            lemma_resource_started(m, link_id, false, payload@.len(), None, built);
            lemma_same(m, after);
        },
        LinkManagerCommand::SendLinkPayload { link_id, payload, sealed, built } => {
            lemma_resource_started(
                m,
                link_id,
                false,
                (payload@.len() as usize) as nat,
                None,
                built,
            );
            lemma_same(m, after);
        },
        LinkManagerCommand::CloseLink { link_id, reason, send_teardown, teardown } => {
            closing_keeps_links(m, link_id, reason, send_teardown, bytes_model(teardown), false);
        },
        _ => {
            lemma_same(m, after);
        },
    }
}

/// A Link request takes in at most one Link, under an id that was free, and leaves the
/// others as they are.
pub proof fn requests_keep_attachments(
    m: LinkManagerModel,
    link_id: [u8; 16],
    link: Link,
    bind: PendingResponderEndpointBind,
)
    ensures
        keeps_attachments(m, m.link_requested(link_id, link, bind)),
        forall|id: [u8; 16]|
            #![trigger find(m.link_requested(link_id, link, bind).links, id)]
            (id != link_id || find(m.links, id) is Some) ==> find(
                m.link_requested(link_id, link, bind).links,
                id,
            ) == find(m.links, id),
{
    let after = m.link_requested(link_id, link, bind);
    if !m.knows_link(link_id) && m.transport.port.accepts() {
        assert forall|id: [u8; 16]|
            #![trigger find(after.links, id)]
            id != link_id || find(m.links, id) is Some implies find(after.links, id) == find(
            m.links,
            id,
        ) by {
            lemma_find_put(m.links, link_id, link, id);
        }
        if unique(m.links) {
            lemma_put_unique(m.links, link_id, link);
        }
    }
}

/// Whatever the transport reports, the Links stay attached; only a Link request can add
/// one.
pub proof fn events_keep_attachments(m: LinkManagerModel, event: DestinationEvent)
    ensures
        keeps_attachments(m, m.notified(event)),
        !(event is LinkRequest) ==> keeps_links(m, m.notified(event)),
{
    let after = m.notified(event);
    match event {
        DestinationEvent::LinkRequest { interface_id, handshake } => {
            if let Some(h) = handshake {
                requests_keep_attachments(
                    m,
                    h.link_id,
                    requested_link(m.settings, interface_id, h),
                    pending_bind(m, interface_id, h),
                );
            } else {
                lemma_same(m, after);
            }
        },
        DestinationEvent::InboundPacket { header, interface_id, input } => {
            packets_keep_links(m, header, interface_id, input);
        },
        DestinationEvent::LinkClosed { link_id, teardown } => {
            closing_keeps_links(
                m,
                link_id,
                CloseReason::InitiatorClosed,
                true,
                bytes_model(teardown),
                false,
            );
        },
        _ => {
            lemma_same(m, after);
        },
    }
}

proof fn lemma_bind(
    m: LinkManagerModel,
    link_id: [u8; 16],
    result: Option<LinkEndpointBindResult>,
)
    ensures
        keeps_links(m, m.bind_settled(link_id, result)),
{
    let s = LinkManagerModel {
        transport: TransportModel { binds: cut(m.transport.binds, link_id), ..m.transport },
        ..m
    };
    lemma_same(m, s);
    lemma_dropped(s, link_id, CloseReason::DestinationClosed);
    lemma_chain(m, s, s.link_dropped(link_id, CloseReason::DestinationClosed));
    if result == Some(LinkEndpointBindResult::Bound) {
        lemma_same(m, m.bind_settled(link_id, result));
    }
}

proof fn lemma_binds(
    m: LinkManagerModel,
    outcomes: Seq<([u8; 16], Option<LinkEndpointBindResult>)>,
)
    ensures
        keeps_links(m, m.binds_settled(outcomes)),
    decreases outcomes.len(),
{
    if outcomes.len() > 0 {
        lemma_binds(m, outcomes.drop_last());
        let s = m.binds_settled(outcomes.drop_last());
        lemma_bind(s, outcomes.last().0, outcomes.last().1);
        lemma_chain(m, s, m.binds_settled(outcomes));
    }
}

proof fn lemma_finals(m: LinkManagerModel, sends: Seq<AcceptedFinalSend>)
    ensures
        m.final_sends_accepted(sends).links == m.links,
    decreases sends.len(),
{
    if sends.len() > 0 {
        lemma_finals(m, sends.drop_last());
    }
}

proof fn lemma_failures(m: LinkManagerModel, failed: Seq<FailedSend>)
    ensures
        keeps_links(m, m.sends_failed(failed)),
    decreases failed.len(),
{
    if failed.len() > 0 {
        lemma_failures(m, failed.drop_last());
        let s = m.sends_failed(failed.drop_last());
        if failed.last().final_unbind {
            lemma_same(s, s.send_failed(failed.last()));
        } else {
            lemma_dropped(s, failed.last().link_id, CloseReason::DestinationClosed);
        }
        lemma_chain(m, s, m.sends_failed(failed));
    } else {
        lemma_same(m, m);
    }
}

proof fn lemma_finalizing(m: LinkManagerModel, released: Seq<ReleasedEndpoint>)
    ensures
        m.endpoints_finalizing(released).links == m.links,
    decreases released.len(),
{
    if released.len() > 0 {
        lemma_finalizing(m, released.drop_last());
    }
}

proof fn lemma_ended(m: LinkManagerModel, event: LinkEndpointLifecycleEvent)
    ensures
        keeps_links(m, m.endpoint_ended(event)),
{
    let s = m.end_seen(event.binding);
    lemma_same(m, s);
    lemma_dropped(s, event.binding.link_id, CloseReason::DestinationClosed);
    let dropped = s.link_dropped(event.binding.link_id, CloseReason::DestinationClosed);
    lemma_chain(m, s, dropped);
    let after = m.endpoint_ended(event);
    if after != dropped {
        lemma_same(m, after);
    }
}

proof fn lemma_all_ended(m: LinkManagerModel, events: Seq<LinkEndpointLifecycleEvent>)
    ensures
        keeps_links(m, m.endpoints_ended(events)),
    decreases events.len(),
{
    if events.len() > 0 {
        lemma_all_ended(m, events.drop_last());
        let s = m.endpoints_ended(events.drop_last());
        lemma_ended(s, events.last());
        lemma_chain(m, s, m.endpoints_ended(events));
    } else {
        lemma_same(m, m);
    }
}

/// Whatever the transport has answered about endpoints, the Links stay attached.
pub proof fn polling_keeps_links(m: LinkManagerModel)
    ensures
        keeps_links(m, m.endpoints_polled()),
{
    let t1 = m.with_transport(m.transport.binds_polled());
    let s1 = m.polled_binds();
    lemma_same(m, t1);
    lemma_binds(t1, bind_outcomes(m.transport.binds, m.transport.replies.bind));
    lemma_chain(m, t1, s1);
    let t2 = s1.with_transport(s1.transport.sends_polled());
    let accepted = accepted_final_sends(s1.transport.sends, s1.transport.replies.send);
    let failed = failed_sends(s1.transport.sends, s1.transport.replies.send);
    lemma_finals(t2, accepted);
    let u2 = t2.final_sends_accepted(accepted);
    lemma_same(s1, u2);
    lemma_failures(u2, failed);
    let s2 = s1.polled_sends();
    lemma_chain(m, s1, u2);
    lemma_chain(m, u2, s2);
    let t3 = s2.with_transport(s2.transport.cleanups_polled());
    lemma_finalizing(
        t3,
        released_endpoints(s2.transport.cleanups, s2.transport.replies.unbind),
    );
    let s3 = s2.polled_cleanups();
    let s4 = s3.with_transport(s3.transport.finalizations_polled());
    let t5 = s4.with_transport(TransportModel { lifecycle: Seq::empty(), ..s4.transport });
    lemma_same(s2, t5);
    lemma_chain(m, s2, t5);
    lemma_all_ended(t5, s4.transport.lifecycle);
    let s5 = s4.drained_lifecycle();
    lemma_chain(m, t5, s5);
    let s6 = s5.with_transport(s5.transport.tombstones_retired());
    lemma_same(s5, s6);
    lemma_chain(m, s5, s6);
}

/// Attending to the transport leaves the Links attached.
pub proof fn attending_keeps_links(m: LinkManagerModel)
    ensures
        keeps_links(m, m.attended()),
{
    polling_keeps_links(m);
    let s = m.endpoints_polled();
    lemma_same(s, m.attended());
    lemma_chain(m, s, m.attended());
}

proof fn lemma_timeouts(m: LinkManagerModel, link_id: [u8; 16], timeouts: Seq<ChannelTimeout>)
    ensures
        m.channel_timeouts(link_id, timeouts).links == m.links,
    decreases timeouts.len(),
{
    if timeouts.len() > 0 {
        lemma_timeouts(m, link_id, timeouts.drop_last());
    }
}

proof fn lemma_watchdogs(
    m: LinkManagerModel,
    link_id: [u8; 16],
    watchdogs: Seq<WatchdogAction>,
)
    ensures
        m.inbound_watchdogs(link_id, watchdogs).links == m.links,
        m.outbound_watchdogs(link_id, watchdogs).links == m.links,
    decreases watchdogs.len(),
{
    if watchdogs.len() > 0 {
        lemma_watchdogs(m, link_id, watchdogs.drop_last());
    }
}

/// Whatever time brings to the traffic of a Link, it changes no Link.
pub proof fn traffic_ticks_keep_links(
    m: LinkManagerModel,
    link_id: [u8; 16],
    now: u64,
    channel: Seq<ChannelTimeout>,
    inbound: Seq<WatchdogAction>,
    outbound: Seq<WatchdogAction>,
)
    ensures
        keeps_links(m, m.link_traffic_ticked(link_id, now, channel, inbound, outbound)),
{
    let s1 = m.channel_timeouts(link_id, channel);
    lemma_timeouts(m, link_id, channel);
    let s2 = s1.inbound_watchdogs(link_id, inbound);
    lemma_watchdogs(s1, link_id, inbound);
    let s3 = s2.overdue_failed(link_id, now);
    lemma_failed_each(
        s2,
        link_id,
        overdue_ids(s2.resources.lifecycles, link_id, now),
        "timed out waiting for the next Resource segment"@,
    );
    lemma_watchdogs(s3, link_id, outbound);
    lemma_same(m, m.link_traffic_ticked(link_id, now, channel, inbound, outbound));
}

/// What a Link's timers ask for leaves the Links attached.
pub proof fn timer_ticks_keep_links(m: LinkManagerModel, link_id: [u8; 16], action: LinkAction)
    ensures
        keeps_links(m, m.link_timer_ticked(link_id, action)),
{
    let after = m.link_timer_ticked(link_id, action);
    match find(m.links, link_id) {
        Some(link) => {
            if action is TransitionedToStale {
                lemma_put(m, after, link_id, Link { state: LinkState::Stale, ..link });
            } else {
                lemma_same(m, after);
            }
        },
        None => {
            lemma_same(m, after);
        },
    }
}

/// The Links that a tick closes leave the others attached.
pub proof fn tick_removals_keep_links(m: LinkManagerModel, removals: Seq<LinkRemoval>)
    ensures
        keeps_links(m, m.links_removed(removals)),
    decreases removals.len(),
{
    if removals.len() > 0 {
        tick_removals_keep_links(m, removals.drop_last());
        let s = m.links_removed(removals.drop_last());
        let r = removals.last();
        closing_keeps_links(s, r.link_id, CloseReason::Timeout, false, None, r.endpoint_closing);
        lemma_chain(m, s, m.links_removed(removals));
    } else {
        lemma_same(m, m);
    }
}

/// Answering a request changes no Link.
pub proof fn answers_keep_links(
    m: LinkManagerModel,
    link_id: [u8; 16],
    packed: Option<Seq<u8>>,
    response: BuiltResource,
    file: Option<(ResourceTransferStart, BuiltResource)>,
    follow_up: Option<(ResourceTransferStart, BuiltResource)>,
)
    ensures
        keeps_links(m, m.request_answered(link_id, packed, response, file, follow_up)),
{
    let s = match packed {
        Some(p) => m.response_sent(link_id, p, response),
        None => m,
    };
    if let Some(p) = packed {
        lemma_resource_started(m, link_id, false, p.len(), None, response);
    }
    let t = s.reply_resource_sent(link_id, file);
    if let Some((start, built)) = file {
        lemma_resource_started(
            s,
            link_id,
            start.allow_handshake,
            start.data@.len(),
            optional_len(start.metadata),
            built,
        );
    }
    if let Some((start, built)) = follow_up {
        lemma_resource_started(
            t,
            link_id,
            start.allow_handshake,
            start.data@.len(),
            optional_len(start.metadata),
            built,
        );
    }
    lemma_same(m, m.request_answered(link_id, packed, response, file, follow_up));
}

/// A strategy for Resources goes to every Link and leaves it attached.
pub proof fn strategies_keep_links(
    m: LinkManagerModel,
    n: LinkManagerModel,
    strategy: ResourceStrategy,
)
    requires
        n.links == with_strategy(m.links, strategy),
    ensures
        keeps_links(m, n),
{
    assert forall|id: [u8; 16]|
        #![trigger find(n.links, id)]
        find(n.links, id) is Some implies find(m.links, id) is Some && same_attachment(
        find(m.links, id)->0,
        find(n.links, id)->0,
    ) by {
        reveal(find);
        lemma_position(m.links, id);
        lemma_position(n.links, id);
        let p = position(m.links, id);
        let q = position(n.links, id);
        assert(n.links[q].0 == m.links[q].0);
        if p < q {
            assert(n.links[p].0 == m.links[p].0);
        }
    }
    if unique(m.links) {
        reveal(unique);
    }
}

/// What became of realtime data leaves the Links attached.
pub proof fn realtime_data_keeps_links(
    m: LinkManagerModel,
    link_id: [u8; 16],
    len: usize,
    result: Option<LinkEndpointSendResult>,
)
    ensures
        keeps_links(m, m.best_effort_sent(link_id, len, result)),
{
    lemma_dropped(m, link_id, CloseReason::DestinationClosed);
    if !(result matches Some(outcome) && (outcome is NotBound || outcome is RoleMismatch
        || outcome is Terminated)) {
        lemma_same(m, m.best_effort_sent(link_id, len, result));
    }
}

/// Dropping Links leaves the others attached.
pub proof fn dropping_keeps_links(m: LinkManagerModel, ids: Seq<[u8; 16]>, reason: CloseReason)
    ensures
        keeps_links(m, m.links_dropped(ids, reason)),
    decreases ids.len(),
{
    if ids.len() > 0 {
        dropping_keeps_links(m, ids.drop_last(), reason);
        let s = m.links_dropped(ids.drop_last(), reason);
        lemma_dropped(s, ids.last(), reason);
        lemma_chain(m, s, m.links_dropped(ids, reason));
    } else {
        lemma_same(m, m);
    }
}

/// Giving everything up takes in no Link and moves none.
pub proof fn shutdown_keeps_links(m: LinkManagerModel)
    ensures
        keeps_links(m, m.shutdown_round()),
{
    let s0 = m.with_transport(m.transport.control_flushed());
    lemma_same(m, s0);
    polling_keeps_links(s0);
    let s1 = s0.endpoints_polled();
    lemma_chain(m, s0, s1);
    lemma_same(s1, m.shutdown_round());
    lemma_chain(m, s1, m.shutdown_round());
}

} // verus!
