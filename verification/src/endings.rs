//! How a Link ends, and what of it is told.

use vstd::prelude::*;

use crate::assoc::{
    find, lemma_filter_find, lemma_find_cut, present, select, ResourceKey,
};
use crate::events::LegacyTerminalNotification;
use crate::laws::{
    closed_links, delivered_and_pending, lemma_close_transport, read,
    terminal_facts_survive_backpressure,
};
use crate::link::{CloseReason, Link, ResourceStrategy};
use crate::manager::{Effect, LinkManagerModel};
use crate::notices::NoticesModel;
use crate::outgoing::{holds_more, outgoing, sends_more};
use crate::resources::{
    lifecycle_ids, outbound_ids, overdue_ids, InboundResourceLifecycle, OtherLink, OutboundTransfer,
    ResourcesModel,
};
use crate::setup::{channel_types_added, with_strategy};
use crate::text::close_failure;
use crate::wire::{MessageModel, TransportMessage};

verus! {

/// Whether a message hands the Link's endpoint its last packet, a teardown with this body,
/// with which the endpoint is released.
pub open spec fn tears_down_with(
    message: MessageModel,
    link_id: [u8; 16],
    link: Link,
    body: Seq<u8>,
) -> bool {
    match message {
        TransportMessage::SendLinkEndpointAndUnbind { link_id: id, role, packet, ticket } => {
            &&& id == link_id
            &&& (role is Initiator <==> link.is_initiator)
            &&& packet.header.destination_hash == link_id
            &&& packet.header.flags.destination_type is Link
            &&& packet.header.flags.packet_type is Data
            &&& packet.header.context is LinkClose
            &&& packet.body == body
            &&& !packet.seal
        },
        _ => false,
    }
}

/// Closing a Link whose endpoint this manager owns with a teardown sends exactly that
/// teardown, once, as the endpoint's last packet, and nothing else.
pub proof fn teardown_is_sent_as_made(
    m: LinkManagerModel,
    link_id: [u8; 16],
    reason: CloseReason,
    data: Vec<u8>,
)
    requires
        present(m.links, link_id),
        present(m.transport.owned, link_id),
        holds_more(m.transport, 1),
    ensures
        ({
            let s = m.link_closed(link_id, reason, true, Some(data@), false);
            &&& sends_more(m, s, 1)
            &&& tears_down_with(outgoing(s).last(), link_id, find(m.links, link_id)->0, data@)
            &&& s.transport.cleanups == m.transport.cleanups
        }),
{
    lemma_close_transport(m, link_id, reason, true, Some(data@), false);
    let s = m.link_closed(link_id, reason, true, Some(data@), false);
    assert(outgoing(m).is_prefix_of(outgoing(s)));
}

/// Closing a Link without a teardown asks for the release of the endpoint, once, if this
/// manager owns one, and sends nothing if it does not.
pub proof fn silent_close_releases_the_endpoint(
    m: LinkManagerModel,
    link_id: [u8; 16],
    reason: CloseReason,
)
    requires
        present(m.links, link_id),
        !m.transport.port.closed,
    ensures
        ({
            let s = m.link_dropped(link_id, reason);
            match find(m.transport.owned, link_id) {
                Some(ownership) => {
                    &&& sends_more(m, s, 1)
                    &&& outgoing(s).last() == (MessageModel::UnbindLinkEndpoint {
                        link_id: ownership.binding.link_id,
                        role: ownership.binding.role,
                        ticket: m.transport.next_ticket,
                    })
                },
                None => outgoing(s) == outgoing(m),
            }
        }),
{
    lemma_close_transport(m, link_id, reason, false, None, false);
    let s = m.link_dropped(link_id, reason);
    assert(outgoing(m).is_prefix_of(outgoing(s)));
}

proof fn lemma_inbound_each_changes(
    m: LinkManagerModel,
    link_id: [u8; 16],
    ids: Seq<[u8; 32]>,
    failure: Seq<char>,
)
    ensures
        ({
            let s = m.inbound_failed_each(link_id, ids, failure);
            &&& s.effects == m.effects
            &&& s.handlers == m.handlers
            &&& s.settings == m.settings
            &&& s.default_app_data == m.default_app_data
            &&& s.channel_message_types == m.channel_message_types
            &&& s.notices == (NoticesModel {
                accounting: s.notices.accounting,
                resource_event: s.notices.resource_event,
                ..m.notices
            })
        }),
    decreases ids.len(),
{
    if ids.len() > 0 {
        lemma_inbound_each_changes(m, link_id, ids.drop_last(), failure);
    }
}

proof fn lemma_outbound_each_changes(
    m: LinkManagerModel,
    link_id: [u8; 16],
    ids: Seq<[u8; 32]>,
    failure: Seq<char>,
)
    ensures
        ({
            let s = m.outbound_failed_each(link_id, ids, failure);
            &&& s == (LinkManagerModel { notices: s.notices, ..m })
            &&& s.notices == (NoticesModel {
                accounting: s.notices.accounting,
                resource_event: s.notices.resource_event,
                ..m.notices
            })
        }),
    decreases ids.len(),
{
    if ids.len() > 0 {
        lemma_outbound_each_changes(m, link_id, ids.drop_last(), failure);
    }
}

proof fn lemma_closed_links_push(facts: Seq<LegacyTerminalNotification>, link_id: [u8; 16])
    ensures
        closed_links(facts.push(LegacyTerminalNotification::LinkClosed(link_id))) == closed_links(
            facts,
        ).push(link_id@),
    decreases facts.len(),
{
    let all = facts.push(LegacyTerminalNotification::LinkClosed(link_id));
    if facts.len() == 0 {
        assert(all.skip(1) =~= facts);
    } else {
        lemma_closed_links_push(facts.skip(1), link_id);
        assert(all.skip(1) =~= facts.skip(1).push(
            LegacyTerminalNotification::LinkClosed(link_id),
        ));
    }
    assert(closed_links(all) =~= closed_links(facts).push(link_id@));
}

/// The end of a Link is told once: the application's channel for it gets exactly its id,
/// now or later, and the end is noted with its reason. What the manager was told by its
/// owner is kept.
pub proof fn end_of_link_is_told(
    m: LinkManagerModel,
    link_id: [u8; 16],
    reason: CloseReason,
    send_teardown: bool,
    teardown: Option<Seq<u8>>,
    endpoint_closing: bool,
)
    requires
        present(m.links, link_id),
    ensures
        ({
            let s = m.link_closed(link_id, reason, send_teardown, teardown, endpoint_closing);
            &&& s.effects == m.effects.push(Effect::Closed { link_id, reason })
            &&& read(m.notices.link_closed) ==> delivered_and_pending(
                s.notices.link_closed,
                closed_links(s.notices.pending_legacy),
            ) == delivered_and_pending(
                m.notices.link_closed,
                closed_links(m.notices.pending_legacy),
            ).push(link_id@)
            &&& s.settings == m.settings
            &&& s.handlers == m.handlers
            &&& s.default_app_data == m.default_app_data
            &&& s.channel_message_types == m.channel_message_types
        }),
{
    let start = m.link_detached(link_id, reason, send_teardown, teardown, endpoint_closing);
    let ids = lifecycle_ids(m.resources.lifecycles, link_id);
    let failure = close_failure(reason);
    lemma_inbound_each_changes(start, link_id, ids, failure);
    lemma_outbound_each_changes(
        start.inbound_failed_each(link_id, ids, failure),
        link_id,
        outbound_ids(m.resources.outbound, link_id),
        failure,
    );
    let n = m.notices.accounted(crate::events::AccountingModel::LinkClosed { link_id });
    let staged = NoticesModel {
        pending_legacy: n.pending_legacy.push(LegacyTerminalNotification::LinkClosed(link_id)),
        ..n
    };
    terminal_facts_survive_backpressure(staged);
    lemma_closed_links_push(m.notices.pending_legacy, link_id);
}

/// Closing a Link leaves every other Link, its endpoint and its identity as they are.
pub proof fn other_links_live_on(
    m: LinkManagerModel,
    link_id: [u8; 16],
    reason: CloseReason,
    send_teardown: bool,
    teardown: Option<Seq<u8>>,
    endpoint_closing: bool,
    other: [u8; 16],
)
    requires
        other != link_id,
    ensures
        ({
            let s = m.link_closed(link_id, reason, send_teardown, teardown, endpoint_closing);
            &&& find(s.links, other) == find(m.links, other)
            &&& find(s.destination_links, other) == find(m.destination_links, other)
            &&& find(s.link_identities, other) == find(m.link_identities, other)
            &&& find(s.transport.owned, other) == find(m.transport.owned, other)
            &&& find(s.transport.generations, other) == find(m.transport.generations, other)
            &&& s.transport.binds == m.transport.binds
        }),
{
    if present(m.links, link_id) {
        lemma_close_transport(m, link_id, reason, send_teardown, teardown, endpoint_closing);
        lemma_find_cut(m.links, link_id, other);
        lemma_find_cut(m.destination_links, link_id, other);
        lemma_find_cut(m.link_identities, link_id, other);
        lemma_find_cut(m.transport.owned, link_id, other);
        lemma_find_cut(m.transport.generations, link_id, other);
    }
}

/// The transfers of every other Link go on as they are.
pub proof fn other_transfers_go_on(
    m: LinkManagerModel,
    link_id: [u8; 16],
    reason: CloseReason,
    send_teardown: bool,
    teardown: Option<Seq<u8>>,
    endpoint_closing: bool,
    key: ResourceKey,
)
    requires
        key.link_id != link_id,
    ensures
        ({
            let s = m.link_closed(link_id, reason, send_teardown, teardown, endpoint_closing);
            &&& find(s.resources.outbound, key) == find(m.resources.outbound, key)
            &&& find(s.resources.queued, key) == find(m.resources.queued, key)
            &&& find(s.resources.inbound, key) == find(m.resources.inbound, key)
            &&& find(s.resources.lifecycles, key) == find(m.resources.lifecycles, key)
            &&& find(s.resources.splits, key) == find(m.resources.splits, key)
        }),
{
    if present(m.links, link_id) {
        let start = m.link_detached(link_id, reason, send_teardown, teardown, endpoint_closing);
        let ids = lifecycle_ids(m.resources.lifecycles, link_id);
        let failure = close_failure(reason);
        lemma_close_transport(m, link_id, reason, send_teardown, teardown, endpoint_closing);
        lemma_kept(m.resources.outbound, link_id, key);
        lemma_kept(m.resources.queued, link_id, key);
        lemma_kept(m.resources.inbound, link_id, key);
        lemma_kept(m.resources.splits, link_id, key);
        lemma_others_kept(start, link_id, ids, failure, key);
        lemma_outbound_each_changes(
            start.inbound_failed_each(link_id, ids, failure),
            link_id,
            outbound_ids(m.resources.outbound, link_id),
            failure,
        );
    }
}

proof fn lemma_kept<V>(s: Seq<(ResourceKey, V)>, link_id: [u8; 16], key: ResourceKey)
    requires
        key.link_id != link_id,
    ensures
        find(select(s, OtherLink { link_id }), key) == find(s, key),
{
    reveal(select);
    let other = OtherLink { link_id };
    lemma_filter_find(
        s,
        |e: (ResourceKey, V)| <OtherLink as crate::assoc::Select<ResourceKey, V>>::selects(other, e),
        key,
    );
}

proof fn lemma_others_kept(
    m: LinkManagerModel,
    link_id: [u8; 16],
    ids: Seq<[u8; 32]>,
    failure: Seq<char>,
    key: ResourceKey,
)
    requires
        key.link_id != link_id,
    ensures
        ({
            let s = m.inbound_failed_each(link_id, ids, failure);
            &&& find(s.resources.inbound, key) == find(m.resources.inbound, key)
            &&& find(s.resources.lifecycles, key) == find(m.resources.lifecycles, key)
            &&& find(s.resources.splits, key) == find(m.resources.splits, key)
        }),
    decreases ids.len(),
{
    reveal(ResourcesModel::logical_dropped);
    if ids.len() > 0 {
        lemma_others_kept(m, link_id, ids.drop_last(), failure, key);
        let s = m.inbound_failed_each(link_id, ids.drop_last(), failure);
        let gone = ResourceKey { link_id, hash: ids.last() };
        lemma_find_cut(s.resources.lifecycles, gone, key);
        lemma_find_cut(s.resources.splits, gone, key);
        lemma_filter_find(
            s.resources.inbound,
            |e: (ResourceKey, crate::resources::InboundTransfer)|
                !(e.0.link_id == gone.link_id && crate::resources::logical_id(
                    s.resources.routes,
                    e.0,
                ) == gone.hash),
            key,
        );
    }
}

/// The Resources that fail with a Link are exactly those that are owed on it, each once.
pub proof fn owed_resources_are_listed(
    lifecycles: Seq<(ResourceKey, InboundResourceLifecycle)>,
    link_id: [u8; 16],
    hash: [u8; 32],
)
    ensures
        lifecycle_ids(lifecycles, link_id).contains(hash) <==> exists|i: int|
            0 <= i < lifecycles.len() && (#[trigger] lifecycles[i]).0 == (ResourceKey {
                link_id,
                hash,
            }),
        lifecycle_ids(lifecycles, link_id).no_duplicates(),
    decreases lifecycles.len(),
{
    if lifecycles.len() > 0 {
        let front = lifecycles.drop_last();
        owed_resources_are_listed(front, link_id, hash);
        let rest = lifecycle_ids(front, link_id);
        let ids = lifecycle_ids(lifecycles, link_id);
        let last = lifecycles.last().0;
        let key = ResourceKey { link_id, hash };
        owed_resources_are_listed(front, link_id, last.hash);
        if ids.contains(hash) {
            let i = choose|i: int| 0 <= i < ids.len() && ids[i] == hash;
            if i < rest.len() {
                assert(rest[i] == hash);
                let j = choose|j: int| 0 <= j < front.len() && (#[trigger] front[j]).0 == key;
                assert(lifecycles[j].0 == key);
            } else {
                assert(lifecycles[lifecycles.len() - 1].0 == key);
            }
        }
        if exists|i: int| 0 <= i < lifecycles.len() && (#[trigger] lifecycles[i]).0 == key {
            let i = choose|i: int| 0 <= i < lifecycles.len() && (#[trigger] lifecycles[i]).0 == key;
            if i < front.len() {
                assert(front[i].0 == key);
                let j = choose|j: int| 0 <= j < rest.len() && rest[j] == hash;
                assert(ids[j] == hash);
            } else if rest.contains(hash) {
                assert(ids == rest);
            } else {
                assert(ids[rest.len() as int] == hash);
            }
        }
    }
}

/// The outbound Resources that fail with a Link are exactly those of which it sends a
/// segment, each once, under the id of the whole.
pub proof fn sent_resources_are_listed(
    outbound: Seq<(ResourceKey, OutboundTransfer)>,
    link_id: [u8; 16],
    id: [u8; 32],
)
    ensures
        outbound_ids(outbound, link_id).contains(id) <==> exists|i: int|
            0 <= i < outbound.len() && (#[trigger] outbound[i]).0.link_id == link_id && (
            match outbound[i].1.original_hash {
                Some(hash) => hash,
                None => outbound[i].1.resource_hash,
            }) == id,
        outbound_ids(outbound, link_id).no_duplicates(),
    decreases outbound.len(),
{
    if outbound.len() > 0 {
        let front = outbound.drop_last();
        sent_resources_are_listed(front, link_id, id);
        let rest = outbound_ids(front, link_id);
        let ids = outbound_ids(outbound, link_id);
        let n = outbound.len() - 1;
        assert(outbound[n] == outbound.last());
        if ids.contains(id) {
            let i = choose|i: int| 0 <= i < ids.len() && ids[i] == id;
            if i < rest.len() {
                assert(rest[i] == id);
                let j = choose|j: int|
                    0 <= j < front.len() && (#[trigger] front[j]).0.link_id == link_id
                        && front[j].1.logical_id() == id;
                assert(outbound[j] == front[j]);
            }
        }
        if exists|i: int|
            0 <= i < outbound.len() && (#[trigger] outbound[i]).0.link_id == link_id
                && outbound[i].1.logical_id() == id {
            let i = choose|i: int|
                0 <= i < outbound.len() && (#[trigger] outbound[i]).0.link_id == link_id
                    && outbound[i].1.logical_id() == id;
            if i < front.len() {
                assert(front[i] == outbound[i]);
                let j = choose|j: int| 0 <= j < rest.len() && rest[j] == id;
                assert(ids[j] == id);
            } else if rest.contains(id) {
                assert(ids == rest);
            } else {
                assert(ids[rest.len() as int] == id);
            }
        }
    }
}

/// The words in which the Resources of a closed Link failed name the reason of its end.
pub proof fn failures_name_the_reason(reason: CloseReason)
    ensures
        close_failure(reason) == "link closed: "@ + (match reason {
            CloseReason::Timeout => "Timeout"@,
            CloseReason::InitiatorClosed => "InitiatorClosed"@,
            CloseReason::DestinationClosed => "DestinationClosed"@,
        }),
{
    reveal_strlit("link closed: ");
    reveal_strlit("Timeout");
    reveal_strlit("InitiatorClosed");
    reveal_strlit("DestinationClosed");
    reveal_strlit("link closed: Timeout");
    reveal_strlit("link closed: InitiatorClosed");
    reveal_strlit("link closed: DestinationClosed");
    assert(close_failure(reason) =~= "link closed: "@ + (match reason {
        CloseReason::Timeout => "Timeout"@,
        CloseReason::InitiatorClosed => "InitiatorClosed"@,
        CloseReason::DestinationClosed => "DestinationClosed"@,
    }));
}

/// The Resources that fail for want of their next segment are exactly those of the Link
/// whose deadline has come.
pub proof fn overdue_resources_are_listed(
    lifecycles: Seq<(ResourceKey, InboundResourceLifecycle)>,
    link_id: [u8; 16],
    now: u64,
    hash: [u8; 32],
)
    ensures
        overdue_ids(lifecycles, link_id, now).contains(hash) <==> exists|i: int|
            0 <= i < lifecycles.len() && is_overdue(#[trigger] lifecycles[i], link_id, now, hash),
    decreases lifecycles.len(),
{
    if lifecycles.len() > 0 {
        let front = lifecycles.drop_last();
        overdue_resources_are_listed(front, link_id, now, hash);
        let rest = overdue_ids(front, link_id, now);
        let ids = overdue_ids(lifecycles, link_id, now);
        assert(lifecycles[lifecycles.len() - 1] == lifecycles.last());
        if ids.contains(hash) {
            let i = choose|i: int| 0 <= i < ids.len() && ids[i] == hash;
            if i < rest.len() {
                assert(rest[i] == hash);
                let j = choose|j: int|
                    0 <= j < front.len() && is_overdue(#[trigger] front[j], link_id, now, hash);
                assert(lifecycles[j] == front[j]);
            }
        }
        if exists|i: int|
            0 <= i < lifecycles.len() && is_overdue(#[trigger] lifecycles[i], link_id, now, hash) {
            let i = choose|i: int|
                0 <= i < lifecycles.len() && is_overdue(
                    #[trigger] lifecycles[i],
                    link_id,
                    now,
                    hash,
                );
            if i < front.len() {
                assert(front[i] == lifecycles[i]);
                let j = choose|j: int| 0 <= j < rest.len() && rest[j] == hash;
                assert(ids[j] == hash);
            } else {
                assert(ids[rest.len() as int] == hash);
            }
        }
    }
}

/// Whether the next segment of this Resource should have come by now.
pub open spec fn is_overdue(
    entry: (ResourceKey, InboundResourceLifecycle),
    link_id: [u8; 16],
    now: u64,
    hash: [u8; 32],
) -> bool {
    entry.0.link_id == link_id && entry.0.hash == hash && entry.1.inter_segment_deadline is Some
        && entry.1.inter_segment_deadline->0 <= now
}

/// A new message type reaches exactly the Links whose channel is open.
pub proof fn message_types_reach_open_channels(
    links: Seq<([u8; 16], Link)>,
    message_type: u16,
    link_id: [u8; 16],
)
    ensures
        channel_types_added(links, message_type).contains(
            Effect::ChannelTypeAdded { link_id, message_type },
        ) <==> exists|i: int|
            0 <= i < links.len() && (#[trigger] links[i]).0 == link_id && links[i].1.has_channel,
    decreases links.len(),
{
    let effect = Effect::ChannelTypeAdded { link_id, message_type };
    if links.len() > 0 {
        let front = links.drop_last();
        message_types_reach_open_channels(front, message_type, link_id);
        let rest = channel_types_added(front, message_type);
        let all = channel_types_added(links, message_type);
        assert(links[links.len() - 1] == links.last());
        if all.contains(effect) {
            let i = choose|i: int| 0 <= i < all.len() && all[i] == effect;
            if i < rest.len() {
                assert(rest[i] == effect);
                let j = choose|j: int|
                    0 <= j < front.len() && (#[trigger] front[j]).0 == link_id
                        && front[j].1.has_channel;
                assert(links[j] == front[j]);
            }
        }
        if exists|i: int|
            0 <= i < links.len() && (#[trigger] links[i]).0 == link_id && links[i].1.has_channel {
            let i = choose|i: int|
                0 <= i < links.len() && (#[trigger] links[i]).0 == link_id
                    && links[i].1.has_channel;
            if i < front.len() {
                assert(front[i] == links[i]);
                let j = choose|j: int| 0 <= j < rest.len() && rest[j] == effect;
                assert(all[j] == effect);
            } else {
                assert(all[rest.len() as int] == effect);
            }
        }
    }
}

/// A new strategy for Resources holds on every Link, and nothing else of a Link changes.
pub proof fn strategy_holds_on_every_link(
    links: Seq<([u8; 16], Link)>,
    strategy: ResourceStrategy,
    i: int,
)
    requires
        0 <= i < links.len(),
    ensures
        with_strategy(links, strategy).len() == links.len(),
        with_strategy(links, strategy)[i].0 == links[i].0,
        with_strategy(links, strategy)[i].1 == (Link {
            resource_strategy: strategy,
            ..links[i].1
        }),
{
}

} // verus!
