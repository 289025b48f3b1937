//! What goes out on a Link, packet by packet.

use vstd::prelude::*;

use crate::assoc::{
    cut, find, lemma_find_cut, lemma_find_member, lemma_find_put, lemma_has_member, lemma_position,
    position, present, unique, ResourceKey,
};
use crate::laws::{
    delivered_and_pending, lemma_close_transport, read, resource_proofs, terminal_facts_survive_backpressure,
};
use crate::ledger::{lemma_legacy_flush_keeps_stream, listening};
use crate::link::{Action, CancelType, CloseReason, Link, TransferAction};
use crate::deliveries::{open, told};
use crate::events::{
    AccountingModel, ChannelSendReceipt, ConclusionModel, EventModel, LegacyTerminalNotification,
    LinkPacketSendReceipt, LinkPayloadSendReceipt, LinkResourceDirection, LinkResourceProof,
    LinkResourceSendReceipt,
};
use crate::manager::{Effect, LinkManagerModel, ProtocolConstants};
use crate::notices::NoticesModel;
use crate::receiving::hash_at;
use crate::resources::{cut_first, OutboundTransfer, ResourcesModel};
use crate::sending::{
    action_models, outbound_segment, BuiltResource, ChannelError, ChannelSendError, LinkSendError, PreparedMessage, SealedPacket,
};
use crate::transport::{TransportModel, MAX_PENDING_LINK_CONTROL};
use crate::wire::{
    Frame, LinkEndpointRole, LinkEndpointSendResult, Message, MessageModel, Packet, PacketContext,
    PacketType, TransportMessage,
};

verus! {

/// What the port has taken, followed by the ordered control that waits.
pub open spec fn outgoing(m: LinkManagerModel) -> Seq<MessageModel> {
    m.transport.port.sent + m.transport.control
}

/// Whether `n` more packets of ordered control are taken or wait.
pub open spec fn holds_more(t: TransportModel, n: nat) -> bool {
    !t.port.closed && t.control.len() + n <= MAX_PENDING_LINK_CONTROL
}

/// Whether a message hands the Link's endpoint, in the role of this end, a packet for the
/// Link of the given type, context and body.
pub open spec fn carries(
    message: MessageModel,
    link_id: [u8; 16],
    link: Link,
    packet_type: PacketType,
    context: PacketContext,
    body: Seq<u8>,
    seal: bool,
) -> bool {
    match message {
        TransportMessage::SendLinkEndpoint { link_id: id, role, packet, ticket } => {
            &&& id == link_id
            &&& (role is Initiator <==> link.is_initiator)
            &&& packet.header.destination_hash == link_id
            &&& packet.header.flags.destination_type is Link
            &&& packet.header.flags.packet_type == packet_type
            &&& packet.header.context == context
            &&& packet.header.hops == 0
            &&& packet.header.transport_id is None
            &&& packet.body == body
            &&& packet.seal == seal
        },
        _ => false,
    }
}

/// Whether a message carries out a transfer's action: its own payload, under the context
/// that its receiver expects. Parts and proofs go as they are, all else encrypted.
pub open spec fn carries_out(
    message: MessageModel,
    link_id: [u8; 16],
    link: Link,
    action: Action,
) -> bool {
    let data = PacketType::Data;
    match action {
        TransferAction::SendAdvertisement(b) => carries(
            message,
            link_id,
            link,
            data,
            PacketContext::ResourceAdv,
            b@,
            true,
        ),
        TransferAction::SendPart(_, b) => carries(
            message,
            link_id,
            link,
            data,
            PacketContext::Resource,
            b@,
            false,
        ),
        TransferAction::SendProof(b) => carries(
            message,
            link_id,
            link,
            PacketType::Proof,
            PacketContext::ResourcePrf,
            b@,
            false,
        ),
        TransferAction::SendHmu(b) => carries(
            message,
            link_id,
            link,
            data,
            PacketContext::ResourceHmu,
            b@,
            true,
        ),
        TransferAction::SendRequest(b) => carries(
            message,
            link_id,
            link,
            data,
            PacketContext::ResourceReq,
            b@,
            true,
        ),
        TransferAction::SendCancel(CancelType::Icl, hash) => carries(
            message,
            link_id,
            link,
            data,
            PacketContext::ResourceIcl,
            hash@,
            true,
        ),
        TransferAction::SendCancel(CancelType::Rcl, hash) => carries(
            message,
            link_id,
            link,
            data,
            PacketContext::ResourceRcl,
            hash@,
            true,
        ),
        _ => false,
    }
}

/// Whether an action is carried out by a packet.
pub open spec fn takes_packet(action: Action) -> bool {
    !(action is Nothing || action is Complete || action is Failed)
}

/// What the second of two states sends is what the first sends, and `n` messages more.
pub open spec fn sends_more(before: LinkManagerModel, after: LinkManagerModel, n: nat) -> bool {
    outgoing(after).len() == outgoing(before).len() + n && outgoing(before).is_prefix_of(
        outgoing(after),
    )
}

/// Nothing but what goes out, and what is counted as sent, differs.
pub open spec fn only_sends(before: LinkManagerModel, after: LinkManagerModel) -> bool {
    &&& after.notices == before.notices
    &&& after.resources == before.resources
    &&& after.links == before.links
    &&& after.destination_links == before.destination_links
    &&& after.handlers == before.handlers
    &&& after.channel_message_types == before.channel_message_types
    &&& after.backchannel_links == before.backchannel_links
    &&& after.link_identities == before.link_identities
    &&& after.default_app_data == before.default_app_data
    &&& after.settings == before.settings
    &&& after.transport.announces == before.transport.announces
    &&& after.transport.cleanups == before.transport.cleanups
    &&& after.transport.lifecycle == before.transport.lifecycle
    &&& after.transport.binds == before.transport.binds
    &&& after.transport.owned == before.transport.owned
    &&& after.transport.generations == before.transport.generations
    &&& after.transport.tombstones == before.transport.tombstones
    &&& after.transport.next_generation == before.transport.next_generation
    &&& after.transport.port.limit == before.transport.port.limit
    &&& after.transport.port.closed == before.transport.port.closed
}

/// An action with a packet, where there is room for it, makes exactly that packet go out,
/// after everything before it, and counts it once.
pub(crate) proof fn lemma_action_goes_out(m: LinkManagerModel, link_id: [u8; 16], action: Action)
    requires
        present(m.links, link_id),
        (find(m.links, link_id)->0).has_session_keys,
        takes_packet(action),
        holds_more(m.transport, 1),
    ensures
        m.action_retained(link_id, action@),
        sends_more(m, m.action_sent(link_id, action@), 1),
        carries_out(
            outgoing(m.action_sent(link_id, action@)).last(),
            link_id,
            find(m.links, link_id)->0,
            action,
        ),
        only_sends(m, m.action_sent(link_id, action@)),
        m.action_sent(link_id, action@).effects.len() == m.effects.len() + 1,
        m.action_sent(link_id, action@).effects.drop_last() == m.effects,
        m.action_sent(link_id, action@).transport.sends.len() == m.transport.sends.len() + 1,
        m.action_sent(link_id, action@).transport.control.len() <= m.transport.control.len() + 1,
{
    let s = m.action_sent(link_id, action@);
    assert(s.effects.drop_last() =~= m.effects);
    assert(outgoing(m).is_prefix_of(outgoing(s)));
}

/// As many packets go out as there are actions, one for each, in the order of the actions,
/// each with the payload of its own action, as long as every packet finds room.
pub proof fn every_action_goes_out(
    m: LinkManagerModel,
    link_id: [u8; 16],
    actions: Seq<Action>,
)
    requires
        present(m.links, link_id),
        (find(m.links, link_id)->0).has_session_keys,
        forall|i: int| 0 <= i < actions.len() ==> takes_packet(#[trigger] actions[i]),
        holds_more(m.transport, actions.len()),
    ensures
        ({
            let s = m.actions_sent(link_id, action_models(actions));
            &&& sends_more(m, s, actions.len())
            &&& forall|i: int|
                0 <= i < actions.len() ==> carries_out(
                    outgoing(s)[outgoing(m).len() + i],
                    link_id,
                    find(m.links, link_id)->0,
                    #[trigger] actions[i],
                )
            &&& only_sends(m, s)
            &&& s.effects.len() == m.effects.len() + actions.len()
            &&& s.transport.sends.len() == m.transport.sends.len() + actions.len()
        }),
    decreases actions.len(),
{
    let s = m.actions_sent(link_id, action_models(actions));
    if actions.len() > 0 {
        let link = find(m.links, link_id)->0;
        let rest = actions.skip(1);
        let next = m.action_sent(link_id, actions[0]@);
        lemma_action_goes_out(m, link_id, actions[0]);
        assert forall|i: int| 0 <= i < rest.len() implies takes_packet(#[trigger] rest[i]) by {
            assert(rest[i] == actions[i + 1]);
        }
        every_action_goes_out(next, link_id, rest);
        assert(action_models(actions).skip(1) =~= action_models(rest));
        assert(s == next.actions_sent(link_id, action_models(rest)));
        assert forall|i: int| 0 <= i < actions.len() implies carries_out(
            outgoing(s)[outgoing(m).len() + i],
            link_id,
            link,
            #[trigger] actions[i],
        ) by {
            if i == 0 {
                assert(outgoing(s)[outgoing(m).len() as int] == outgoing(next).last());
            } else {
                assert(rest[i - 1] == actions[i]);
            }
        }
        assert forall|i: int| 0 <= i < outgoing(m).len() implies outgoing(m)[i]
            == outgoing(s)[i] by {
            assert(outgoing(m)[i] == outgoing(next)[i]);
            assert(outgoing(next)[i] == outgoing(s)[i]);
        }
        assert(outgoing(m).is_prefix_of(outgoing(s)));
    }
}


/// Whether a request for parts names a segment: behind its first byte, or behind the last
/// hash that the receiver knows where it has run out of hashes.
pub open spec fn names_segment(
    constants: ProtocolConstants,
    plaintext: Seq<u8>,
    segment: [u8; 32],
) -> bool {
    let start: int = if plaintext[0] == constants.hashmap_is_exhausted {
        1 + constants.map_hash_len
    } else {
        1
    };
    plaintext.len() > 32 && plaintext.len() >= start + 32 && segment@ == plaintext.subrange(
        start,
        start + 32,
    )
}

/// The hash that stands at a place is the only one that does.
pub(crate) proof fn lemma_hash_at(data: Seq<u8>, start: int, hash: [u8; 32])
    requires
        hash@ == data.subrange(start, start + 32),
    ensures
        hash_at(data, start) == hash,
{
    let other = hash_at(data, start);
    assert(other@ == hash@);
    assert(other =~= hash);
}

/// A request for parts of a segment that is on its way is answered with one packet for
/// each action of the transfer, in their order and with their payloads, and progress is
/// reported under the id of the whole Resource.
pub proof fn requested_parts_go_out(
    m: LinkManagerModel,
    link_id: [u8; 16],
    segment: [u8; 32],
    plaintext: Seq<u8>,
    actions: Seq<Action>,
    progress: Option<usize>,
)
    requires
        present(m.links, link_id),
        (find(m.links, link_id)->0).has_session_keys,
        names_segment(m.settings.constants, plaintext, segment),
        present(m.resources.outbound, ResourceKey { link_id, hash: segment }),
        forall|i: int| 0 <= i < actions.len() ==> takes_packet(#[trigger] actions[i]),
        holds_more(m.transport, actions.len()),
    ensures
        ({
            let s = m.parts_requested(link_id, plaintext, action_models(actions), progress);
            let transfer = find(m.resources.outbound, ResourceKey { link_id, hash: segment })->0;
            &&& sends_more(m, s, actions.len())
            &&& forall|i: int|
                0 <= i < actions.len() ==> carries_out(
                    outgoing(s)[outgoing(m).len() + i],
                    link_id,
                    find(m.links, link_id)->0,
                    #[trigger] actions[i],
                )
            &&& only_sends(m, LinkManagerModel { notices: m.notices, ..s })
            &&& s.effects.len() == m.effects.len() + actions.len()
            &&& match progress {
                Some(transferred) => told(
                    m.notices,
                    s.notices,
                    EventModel::Progress {
                        link_id,
                        resource_id: match transfer.original_hash {
                            Some(id) => id,
                            None => transfer.resource_hash,
                        },
                        direction: LinkResourceDirection::Outbound,
                        transferred,
                        total: transfer.advertisement_data_size,
                    },
                ),
                None => s.notices == m.notices,
            }
        }),
{
    let start: int = if plaintext[0] == m.settings.constants.hashmap_is_exhausted {
        1 + m.settings.constants.map_hash_len
    } else {
        1
    };
    lemma_hash_at(plaintext, start, segment);
    every_action_goes_out(m, link_id, actions);
    let a = m.actions_sent(link_id, action_models(actions));
    let s = m.parts_requested(link_id, plaintext, action_models(actions), progress);
    assert(outgoing(s) == outgoing(a));
}

/// A request for parts of a segment that is not on its way changes nothing, and neither
/// does one that is too short to name a segment.
pub proof fn other_part_requests_are_ignored(
    m: LinkManagerModel,
    link_id: [u8; 16],
    segment: [u8; 32],
    plaintext: Seq<u8>,
    actions: Seq<Action>,
    progress: Option<usize>,
)
    ensures
        names_segment(m.settings.constants, plaintext, segment) && !present(
            m.resources.outbound,
            ResourceKey { link_id, hash: segment },
        ) ==> m.parts_requested(link_id, plaintext, action_models(actions), progress) == m,
        plaintext.len() <= 32 ==> m.parts_requested(
            link_id,
            plaintext,
            action_models(actions),
            progress,
        ) == m,
{
    if names_segment(m.settings.constants, plaintext, segment) {
        let start: int = if plaintext[0] == m.settings.constants.hashmap_is_exhausted {
            1 + m.settings.constants.map_hash_len
        } else {
            1
        };
        lemma_hash_at(plaintext, start, segment);
    }
}

// ---- application packets ----

/// Why an application packet does not go out: in this order, that the Link is not known,
/// that it carries no traffic, that it has no keys, or that the transport takes nothing.
/// Where nothing stands in the way, the receipt names the packet.
pub proof fn packet_refusals(m: LinkManagerModel, link_id: [u8; 16], sealed: Option<SealedPacket>)
    ensures
        ({
            let r = m.packet_result(link_id, sealed);
            let link = find(m.links, link_id)->0;
            let usable = present(m.links, link_id) && (link.state is Active
                || link.state is Stale);
            &&& r == Err::<LinkPacketSendReceipt, _>(LinkSendError::LinkNotFound) <==> !present(
                m.links,
                link_id,
            )
            &&& r == Err::<LinkPacketSendReceipt, _>(LinkSendError::LinkNotActive) <==> present(
                m.links,
                link_id,
            ) && !usable
            &&& r == Err::<LinkPacketSendReceipt, _>(LinkSendError::NoSessionKeys) <==> usable
                && sealed is None
            &&& r == Err::<LinkPacketSendReceipt, _>(LinkSendError::TransportUnavailable) <==> usable
                && sealed is Some && !open(m.transport.port)
            &&& r is Ok <==> usable && sealed is Some && open(m.transport.port)
            &&& r is Ok ==> (r->Ok_0).link_id == link_id && (r->Ok_0).packet_hash == (
            sealed->0).packet_hash
        }),
{
}

/// Why this end does not identify itself. Only an initiator with an identity does.
pub proof fn identification_refusals(
    m: LinkManagerModel,
    link_id: [u8; 16],
    sealed: Option<SealedPacket>,
)
    ensures
        ({
            let r = m.identify_result(link_id, sealed);
            let link = find(m.links, link_id)->0;
            let named = m.settings.has_identity;
            let usable = present(m.links, link_id) && (link.state is Active
                || link.state is Stale);
            let able = named && usable && link.is_initiator && sealed is Some;
            &&& r == Err::<LinkPacketSendReceipt, _>(LinkSendError::IdentityUnavailable) <==> !named
            &&& r == Err::<LinkPacketSendReceipt, _>(LinkSendError::LinkNotFound) <==> named
                && !present(m.links, link_id)
            &&& r == Err::<LinkPacketSendReceipt, _>(LinkSendError::LinkNotActive) <==> named
                && present(m.links, link_id) && !usable
            &&& r == Err::<LinkPacketSendReceipt, _>(LinkSendError::IdentificationUnavailable) <==> (
            named && usable && !able)
            &&& r == Err::<LinkPacketSendReceipt, _>(LinkSendError::TransportUnavailable) <==> able
                && !open(m.transport.port)
            &&& r is Ok <==> able && open(m.transport.port)
            &&& r is Ok ==> (r->Ok_0).link_id == link_id && (r->Ok_0).packet_hash == (
            sealed->0).packet_hash
        }),
{
}

/// A packet of the application that is let through goes straight into the port, once, with
/// the encrypted body that was handed in, and is counted as sent. One that is not let
/// through leaves no trace.
pub proof fn application_packet_goes_out(
    m: LinkManagerModel,
    link_id: [u8; 16],
    context: PacketContext,
    sealed: SealedPacket,
)
    requires
        present(m.links, link_id),
        open(m.transport.port),
    ensures
        ({
            let s = m.link_packet_sent(link_id, context, Some(sealed), true);
            let n = m.transport.port.sent.len();
            &&& s.transport.port.sent.len() == n + 1
            &&& m.transport.port.sent.is_prefix_of(s.transport.port.sent)
            &&& carries(
                s.transport.port.sent[n as int],
                link_id,
                find(m.links, link_id)->0,
                PacketType::Data,
                context,
                sealed.body@,
                false,
            )
            &&& s.transport.control == m.transport.control
            &&& only_sends(m, s)
            &&& s.effects == m.effects.push(
                Effect::Transmitted {
                    link_id,
                    len: sealed.body@.len() as usize,
                    sealed: false,
                    keepalive: context is Keepalive,
                },
            )
        }),
        m.link_packet_sent(link_id, context, Some(sealed), false) == m,
{
}

/// Why a channel message does not go out, and what its receipt names if it does.
pub proof fn channel_refusals(
    m: LinkManagerModel,
    link_id: [u8; 16],
    registered: bool,
    prepared: Result<PreparedMessage, ChannelError>,
)
    ensures
        ({
            let r = m.channel_result(link_id, registered, prepared);
            let link = find(m.links, link_id)->0;
            let usable = present(m.links, link_id) && (link.state is Active
                || link.state is Stale);
            let reached = usable && open(m.transport.port) && (link.has_channel || (
            link.has_session_keys && registered));
            &&& r == Err::<ChannelSendReceipt, _>(ChannelSendError::LinkNotFound) <==> !present(
                m.links,
                link_id,
            )
            &&& r == Err::<ChannelSendReceipt, _>(ChannelSendError::LinkNotActive) <==> present(
                m.links,
                link_id,
            ) && !usable
            &&& r == Err::<ChannelSendReceipt, _>(ChannelSendError::TransportUnavailable) <==> usable
                && !open(m.transport.port)
            &&& r == Err::<ChannelSendReceipt, _>(ChannelSendError::NoSessionKeys) <==> usable
                && open(m.transport.port) && !reached
            &&& r is Ok <==> reached && prepared is Ok
            &&& reached && prepared is Err ==> r == Err::<ChannelSendReceipt, _>(
                ChannelSendError::Channel(prepared->Err_0),
            )
            &&& r is Ok ==> (r->Ok_0).link_id == link_id && (r->Ok_0).sequence == (
            prepared->Ok_0).sequence && (r->Ok_0).packet_hash == (prepared->Ok_0).packet_hash
            &&& !reached ==> m.channel_message_sent(link_id, registered, prepared) == m
        }),
{
}

/// A channel message that reaches its channel goes straight into the port, once, with the
/// body that the channel prepared, and its Link has a channel from then on.
pub proof fn channel_message_goes_out(
    m: LinkManagerModel,
    link_id: [u8; 16],
    registered: bool,
    message: PreparedMessage,
)
    requires
        m.channel_result(link_id, registered, Ok(message)) is Ok,
    ensures
        ({
            let s = m.channel_message_sent(link_id, registered, Ok(message));
            let n = m.transport.port.sent.len();
            let link = find(m.links, link_id)->0;
            &&& s.transport.port.sent.len() == n + 1
            &&& m.transport.port.sent.is_prefix_of(s.transport.port.sent)
            &&& carries(
                s.transport.port.sent[n as int],
                link_id,
                link,
                PacketType::Data,
                PacketContext::Channel,
                message.body@,
                false,
            )
            &&& s.transport.control == m.transport.control
            &&& only_sends(m, LinkManagerModel { links: m.links, ..s })
            &&& find(s.links, link_id) == Some(Link { has_channel: true, ..link })
            &&& forall|other: [u8; 16]|
                other != link_id ==> #[trigger] find(s.links, other) == find(m.links, other)
            &&& s.effects == m.effects.push(
                Effect::Transmitted {
                    link_id,
                    len: message.body@.len() as usize,
                    sealed: false,
                    keepalive: false,
                },
            )
        }),
{
    let link = find(m.links, link_id)->0;
    let s = m.channel_message_sent(link_id, registered, Ok(message));
    lemma_find_put(m.links, link_id, Link { has_channel: true, ..link }, link_id);
    assert forall|other: [u8; 16]| other != link_id implies #[trigger] find(s.links, other)
        == find(m.links, other) by {
        lemma_find_put(m.links, link_id, Link { has_channel: true, ..link }, other);
    }
}


// ---- Resources ----

/// Whether a Resource of this size, its metadata and their three bytes of framing counted,
/// fits into one segment.
pub open spec fn fits_segment(m: LinkManagerModel, data_len: nat, metadata_len: Option<nat>) -> bool {
    data_len + (match metadata_len {
        Some(n) => n + 3,
        None => 0,
    }) <= m.settings.constants.max_efficient_size
}

/// Whether a Link carries Resources: with keys, and past its handshake unless that is
/// allowed.
pub open spec fn open_for_resources(
    m: LinkManagerModel,
    link_id: [u8; 16],
    allow_handshake: bool,
) -> bool {
    let link = find(m.links, link_id)->0;
    present(m.links, link_id) && link.has_session_keys && (link.state is Active
        || link.state is Stale || (allow_handshake && link.state is Handshake))
}

/// A Resource is started if, and only if, its Link carries Resources, it was built, into one
/// segment where it fits into one, and its first segment has an advertisement that finds
/// room. One that is not started leaves nothing to be sent or reported.
pub proof fn resource_starts_where_it_can(
    m: LinkManagerModel,
    link_id: [u8; 16],
    allow_handshake: bool,
    data_len: nat,
    metadata_len: Option<nat>,
    built: BuiltResource,
)
    ensures
        ({
            let n = built.segments@.len();
            let can = open_for_resources(m, link_id, allow_handshake) && n > 0 && (fits_segment(
                m,
                data_len,
                metadata_len,
            ) ==> n == 1) && built.first_action is SendAdvertisement;
            let s = m.resource_started(link_id, allow_handshake, data_len, metadata_len, built);
            let starts = m.resource_starts(
                link_id,
                allow_handshake,
                data_len,
                metadata_len,
                built,
            );
            &&& can && holds_more(m.transport, 1) ==> starts
            &&& starts ==> can
            &&& can && m.transport.port.closed && m.transport.control.len() == 0 ==> !starts
            &&& can && m.transport.control.len() >= MAX_PENDING_LINK_CONTROL ==> !starts
            &&& !starts ==> {
                &&& s.notices == m.notices
                &&& s.resources == m.resources
                &&& s.links == m.links
                &&& s.effects == m.effects
                &&& outgoing(s) == outgoing(m)
            }
        }),
{
    let s = m.resource_started(link_id, allow_handshake, data_len, metadata_len, built);
    assert(built.first_action@ is SendAdvertisement <==> built.first_action is SendAdvertisement);
}

/// What starting a Resource does: exactly the advertisement of its first segment goes out;
/// that segment is on its way under its own hash; the others wait in their order, under the
/// id of the whole, which is the hash of the first segment unless that names another; and
/// the start is reported under that id with the size of the data and the number of
/// segments.
pub proof fn resource_goes_out(
    m: LinkManagerModel,
    link_id: [u8; 16],
    allow_handshake: bool,
    data_len: nat,
    metadata_len: Option<nat>,
    built: BuiltResource,
)
    requires
        open_for_resources(m, link_id, allow_handshake),
        built.segments@.len() > 0,
        fits_segment(m, data_len, metadata_len) ==> built.segments@.len() == 1,
        built.first_action is SendAdvertisement,
        holds_more(m.transport, 1),
    ensures
        ({
            let s = m.resource_started(link_id, allow_handshake, data_len, metadata_len, built);
            let segments = built.segments@;
            let first = segments[0];
            let id = match first.original_hash {
                Some(hash) => hash,
                None => first.resource_hash,
            };
            let key = ResourceKey { link_id, hash: first.resource_hash };
            let waiting = ResourceKey { link_id, hash: id };
            let q = s.resources.queued;
            &&& sends_more(m, s, 1)
            &&& carries_out(
                outgoing(s).last(),
                link_id,
                find(m.links, link_id)->0,
                built.first_action,
            )
            &&& only_sends(m, LinkManagerModel { notices: m.notices, resources: m.resources, ..s })
            &&& s.effects.len() == m.effects.len() + 1
            &&& find(s.resources.outbound, key) == Some(first)
            &&& forall|other: ResourceKey|
                other != key ==> #[trigger] find(s.resources.outbound, other) == find(
                    m.resources.outbound,
                    other,
                )
            &&& segments.len() == 1 ==> q == m.resources.queued
            &&& segments.len() > 1 ==> {
                let start = q.len() - (segments.len() - 1);
                &&& start >= 0
                &&& forall|i: int| start <= i < q.len() ==> #[trigger] q[i] == (
                    waiting,
                    segments[i - start + 1],
                )
                &&& forall|i: int| 0 <= i < start ==> (#[trigger] q[i]).0 != waiting
            }
            &&& s.resources == (ResourcesModel {
                outbound: s.resources.outbound,
                queued: s.resources.queued,
                ..m.resources
            })
            &&& told(
                m.notices,
                s.notices,
                EventModel::Started {
                    link_id,
                    resource_id: id,
                    direction: LinkResourceDirection::Outbound,
                    data_size: data_len as usize,
                    total_segments: segments.len() as usize,
                },
            )
        }),
{
    let s = m.resource_started(link_id, allow_handshake, data_len, metadata_len, built);
    let segments = built.segments@;
    let first = segments[0];
    let id = first.logical_id();
    let key = ResourceKey { link_id, hash: first.resource_hash };
    let waiting = ResourceKey { link_id, hash: id };
    let a = m.action_sent(link_id, built.first_action@);
    lemma_action_goes_out(m, link_id, built.first_action);
    assert(outgoing(s) == outgoing(a));
    lemma_find_put(m.resources.outbound, key, first, key);
    assert forall|other: ResourceKey| other != key implies #[trigger] find(
        s.resources.outbound,
        other,
    ) == find(m.resources.outbound, other) by {
        lemma_find_put(m.resources.outbound, key, first, other);
    }
    if segments.len() > 1 {
        let kept = cut(m.resources.queued, waiting);
        let q = s.resources.queued;
        assert(q.len() == kept.len() + (segments.len() - 1));
        assert forall|i: int| 0 <= i < kept.len() implies (#[trigger] q[i]).0 != waiting by {
            assert(q[i] == kept[i]);
            lemma_find_cut(m.resources.queued, waiting, waiting);
            lemma_has_member(kept, i);
        }
    }
}

/// The receipt of application data that was sent as a Resource names that Resource, and
/// sending is refused as for packets.
pub proof fn resource_refusals(
    m: LinkManagerModel,
    link_id: [u8; 16],
    payload_len: nat,
    built: BuiltResource,
)
    ensures
        ({
            let r = m.resource_result(link_id, payload_len, built);
            let link = find(m.links, link_id)->0;
            let usable = present(m.links, link_id) && (link.state is Active
                || link.state is Stale);
            let starts = m.resource_starts(link_id, false, payload_len, None, built);
            &&& r == Err::<LinkResourceSendReceipt, _>(LinkSendError::LinkNotFound) <==> !present(
                m.links,
                link_id,
            )
            &&& r == Err::<LinkResourceSendReceipt, _>(LinkSendError::LinkNotActive) <==> present(
                m.links,
                link_id,
            ) && !usable
            &&& r == Err::<LinkResourceSendReceipt, _>(LinkSendError::NoSessionKeys) <==> usable
                && !link.has_session_keys
            &&& r == Err::<LinkResourceSendReceipt, _>(LinkSendError::ResourceStartFailed) <==> (
            usable && link.has_session_keys && !starts)
            &&& r is Ok <==> usable && link.has_session_keys && starts
            &&& r is Ok ==> (r->Ok_0).link_id == link_id && (r->Ok_0).resource_hash == (
            match built.segments@[0].original_hash {
                Some(hash) => hash,
                None => built.segments@[0].resource_hash,
            })
            &&& r is Ok ==> m.resource_sent(link_id, payload_len, built) == m.resource_started(
                link_id,
                false,
                payload_len,
                None,
                built,
            )
            &&& !usable ==> m.resource_sent(link_id, payload_len, built) == m
        }),
{
}

/// Application data goes out as one packet if, and only if, it is no longer than what one
/// packet of the Link carries; else it goes out as a Resource.
pub proof fn payload_takes_the_way_that_fits(
    m: LinkManagerModel,
    link_id: [u8; 16],
    payload_len: usize,
    sealed: Option<SealedPacket>,
    built: BuiltResource,
)
    requires
        present(m.links, link_id),
        (find(m.links, link_id)->0).state is Active || (find(m.links, link_id)->0).state is Stale,
    ensures
        ({
            let r = m.payload_result(link_id, payload_len, sealed, built);
            let s = m.payload_sent(link_id, payload_len, sealed, built);
            if payload_len <= (find(m.links, link_id)->0).mdu {
                &&& match m.packet_result(link_id, sealed) {
                    Ok(receipt) => r == Ok::<_, LinkSendError>(
                        LinkPayloadSendReceipt::Packet(receipt),
                    ),
                    Err(error) => r == Err::<LinkPayloadSendReceipt, _>(error),
                }
                &&& s == m.link_packet_sent(
                    link_id,
                    PacketContext::Data,
                    sealed,
                    m.packet_result(link_id, sealed) is Ok,
                )
            } else {
                &&& match m.resource_result(link_id, payload_len as nat, built) {
                    Ok(receipt) => r == Ok::<_, LinkSendError>(
                        LinkPayloadSendReceipt::Resource(receipt),
                    ),
                    Err(error) => r == Err::<LinkPayloadSendReceipt, _>(error),
                }
                &&& s == m.resource_sent(link_id, payload_len as nat, built)
            }
        }),
{
}


/// Whether `after` is `before` without its first entry under `key`.
pub open spec fn loses_first<V>(
    before: Seq<(ResourceKey, V)>,
    after: Seq<(ResourceKey, V)>,
    key: ResourceKey,
) -> bool {
    exists|p: int|
        0 <= p < before.len() && (#[trigger] before[p]).0 == key && after == before.remove(p) && (
        forall|i: int| 0 <= i < p ==> (#[trigger] before[i]).0 != key)
}

/// The proof of a segment behind which others of its Resource wait starts the first of
/// those: it is taken from the queue, its advertisement goes out, and it is on its way in
/// the place of the proved one. Nothing is reported.
pub proof fn next_segment_follows(
    m: LinkManagerModel,
    link_id: [u8; 16],
    segment: [u8; 32],
    id: [u8; 32],
    data: Seq<u8>,
    next_action: Action,
)
    requires
        present(m.links, link_id),
        (find(m.links, link_id)->0).has_session_keys,
        holds_more(m.transport, 1),
        data.len() >= 64,
        segment@ == data.subrange(0, 32),
        present(m.resources.outbound, ResourceKey { link_id, hash: segment }),
        (find(m.resources.outbound, ResourceKey { link_id, hash: segment })->0).original_hash
            == Some(id),
        present(m.resources.queued, ResourceKey { link_id, hash: id }),
        next_action is SendAdvertisement,
    ensures
        ({
            let s = m.proof_received(link_id, data, true, next_action@);
            let waiting = ResourceKey { link_id, hash: id };
            let next = find(m.resources.queued, waiting)->0;
            let proved = ResourceKey { link_id, hash: segment };
            let started = ResourceKey { link_id, hash: next.resource_hash };
            &&& m.following_segment(link_id, segment) == Some(next)
            &&& sends_more(m, s, 1)
            &&& carries_out(outgoing(s).last(), link_id, find(m.links, link_id)->0, next_action)
            &&& only_sends(m, LinkManagerModel { resources: m.resources, ..s })
            &&& s.effects.len() == m.effects.len() + 1
            &&& find(s.resources.outbound, started) == Some(next)
            &&& started != proved ==> !present(s.resources.outbound, proved)
            &&& forall|other: ResourceKey|
                other != started && other != proved ==> #[trigger] find(s.resources.outbound, other)
                    == find(m.resources.outbound, other)
            &&& loses_first(m.resources.queued, s.resources.queued, waiting)
            &&& s.resources == (ResourcesModel {
                outbound: s.resources.outbound,
                queued: s.resources.queued,
                ..m.resources
            })
        }),
{
    lemma_hash_at(data, 0, segment);
    let s = m.proof_received(link_id, data, true, next_action@);
    let waiting = ResourceKey { link_id, hash: id };
    let next = find(m.resources.queued, waiting)->0;
    let proved = ResourceKey { link_id, hash: segment };
    let started = ResourceKey { link_id, hash: next.resource_hash };
    let kept = cut(m.resources.outbound, proved);
    let q = LinkManagerModel {
        resources: ResourcesModel {
            outbound: kept,
            queued: cut_first(m.resources.queued, waiting),
            ..m.resources
        },
        ..m
    };
    lemma_action_goes_out(q, link_id, next_action);
    let a = q.action_sent(link_id, next_action@);
    assert(outgoing(s) == outgoing(a));
    assert(outgoing(q) == outgoing(m));
    lemma_find_put(kept, started, next, started);
    lemma_find_put(kept, started, next, proved);
    lemma_find_cut(m.resources.outbound, proved, proved);
    assert forall|other: ResourceKey| other != started && other != proved implies #[trigger] find(
        s.resources.outbound,
        other,
    ) == find(m.resources.outbound, other) by {
        lemma_find_put(kept, started, next, other);
        lemma_find_cut(m.resources.outbound, proved, other);
    }
    assert(loses_first(m.resources.queued, s.resources.queued, waiting)) by {
        reveal(cut_first);
        reveal(find);
        lemma_position(m.resources.queued, waiting);
        let p = position(m.resources.queued, waiting);
        assert(m.resources.queued[p].0 == waiting);
    }
}

/// The proof of a segment behind which nothing waits completes its Resource: the segment is
/// gone, and success is reported, once, under the id of the whole. Nothing goes out.
pub proof fn last_proof_completes_the_resource(
    m: LinkManagerModel,
    link_id: [u8; 16],
    segment: [u8; 32],
    data: Seq<u8>,
    next_action: Action,
)
    requires
        data.len() >= 64,
        segment@ == data.subrange(0, 32),
        present(m.resources.outbound, ResourceKey { link_id, hash: segment }),
        match (find(
            m.resources.outbound,
            ResourceKey { link_id, hash: segment },
        )->0).original_hash {
            Some(id) => !present(m.resources.queued, ResourceKey { link_id, hash: id }),
            None => true,
        },
        listening(m.notices),
    ensures
        ({
            let s = m.proof_received(link_id, data, true, next_action@);
            let proved = ResourceKey { link_id, hash: segment };
            let id = match (find(m.resources.outbound, proved)->0).original_hash {
                Some(hash) => hash,
                None => segment,
            };
            let proof_fact = LinkResourceProof { link_id, resource_hash: id };
            &&& s.transport == m.transport
            &&& s.effects == m.effects
            &&& s.links == m.links
            &&& !present(s.resources.outbound, proved)
            &&& forall|other: ResourceKey|
                other != proved ==> #[trigger] find(s.resources.outbound, other) == find(
                    m.resources.outbound,
                    other,
                )
            &&& s.resources == (ResourcesModel {
                outbound: s.resources.outbound,
                ..m.resources
            })
            &&& s.notices.accounting->0.sent == m.notices.accounting->0.sent.push(
                AccountingModel::ResourceEvent(
                    EventModel::Concluded {
                        link_id,
                        resource_id: id,
                        direction: LinkResourceDirection::Outbound,
                        conclusion: ConclusionModel::Complete,
                    },
                ),
            )
            &&& read(m.notices.outbound_resource_proof) ==> delivered_and_pending(
                s.notices.outbound_resource_proof,
                resource_proofs(s.notices.pending_legacy),
            ) == delivered_and_pending(
                m.notices.outbound_resource_proof,
                resource_proofs(m.notices.pending_legacy),
            ).push(proof_fact)
        }),
{
    lemma_hash_at(data, 0, segment);
    let s = m.proof_received(link_id, data, true, next_action@);
    let proved = ResourceKey { link_id, hash: segment };
    let id = match (find(m.resources.outbound, proved)->0).original_hash {
        Some(hash) => hash,
        None => segment,
    };
    lemma_find_cut(m.resources.outbound, proved, proved);
    assert forall|other: ResourceKey| other != proved implies #[trigger] find(
        s.resources.outbound,
        other,
    ) == find(m.resources.outbound, other) by {
        lemma_find_cut(m.resources.outbound, proved, other);
    }
    let fact = LegacyTerminalNotification::ResourceProof(
        LinkResourceProof { link_id, resource_hash: id },
    );
    let staged = NoticesModel {
        pending_legacy: m.notices.pending_legacy.push(fact),
        ..m.notices
    };
    lemma_legacy_flush_keeps_stream(staged);
    terminal_facts_survive_backpressure(staged);
    lemma_resource_proofs_push(
        m.notices.pending_legacy,
        LinkResourceProof { link_id, resource_hash: id },
    );
}

proof fn lemma_resource_proofs_push(
    facts: Seq<LegacyTerminalNotification>,
    proof_fact: LinkResourceProof,
)
    ensures
        resource_proofs(
            facts.push(LegacyTerminalNotification::ResourceProof(proof_fact)),
        ) == resource_proofs(facts).push(proof_fact),
    decreases facts.len(),
{
    let all = facts.push(LegacyTerminalNotification::ResourceProof(proof_fact));
    if facts.len() == 0 {
        assert(all.skip(1) =~= facts);
        assert(resource_proofs(all) =~= resource_proofs(facts).push(proof_fact));
    } else {
        lemma_resource_proofs_push(facts.skip(1), proof_fact);
        assert(all.skip(1) =~= facts.skip(1).push(
            LegacyTerminalNotification::ResourceProof(proof_fact),
        ));
        assert(resource_proofs(all) =~= resource_proofs(facts).push(proof_fact));
    }
}

/// A proof that is too short, or that the segment's transfer does not accept, or of a
/// segment that is not on its way, changes nothing.
pub proof fn other_proofs_are_ignored(
    m: LinkManagerModel,
    link_id: [u8; 16],
    segment: [u8; 32],
    data: Seq<u8>,
    complete: bool,
    next_action: Action,
)
    ensures
        data.len() < 64 || !complete ==> m.proof_received(
            link_id,
            data,
            complete,
            next_action@,
        ) == m,
        segment@ == data.subrange(0, 32) && !present(
            m.resources.outbound,
            ResourceKey { link_id, hash: segment },
        ) ==> m.proof_received(link_id, data, complete, next_action@) == m,
{
    if segment@ == data.subrange(0, 32) {
        lemma_hash_at(data, 0, segment);
    }
}

/// A Resource that its receiver refuses is over: what is left of it goes, what waits behind
/// it with it, and the refusal is reported, once, under the id of the whole.
pub proof fn refused_resource_is_over(
    m: LinkManagerModel,
    link_id: [u8; 16],
    segment: [u8; 32],
    plaintext: Seq<u8>,
)
    requires
        plaintext.len() >= 32,
        segment@ == plaintext.subrange(0, 32),
        present(m.resources.outbound, ResourceKey { link_id, hash: segment }),
    ensures
        outbound_is_over(
            m,
            m.outbound_refused(link_id, plaintext),
            link_id,
            segment,
            ConclusionModel::Rejected,
        ),
{
    lemma_hash_at(plaintext, 0, segment);
    lemma_outbound_is_over(m, link_id, segment, ConclusionModel::Rejected);
}

/// Giving up an outbound segment that failed ends its Resource, with the reason reported.
pub proof fn failed_resource_is_over(
    m: LinkManagerModel,
    link_id: [u8; 16],
    segment: [u8; 32],
    reason: Seq<char>,
)
    requires
        present(m.resources.outbound, ResourceKey { link_id, hash: segment }),
    ensures
        outbound_is_over(
            m,
            m.outbound_ended(link_id, segment, ConclusionModel::Failed(reason)),
            link_id,
            segment,
            ConclusionModel::Failed(reason),
        ),
{
    lemma_outbound_is_over(m, link_id, segment, ConclusionModel::Failed(reason));
}

/// Whether `after` is `before` without one outbound segment and what waits behind it, and
/// the end of the whole was reported.
pub open spec fn outbound_is_over(
    before: LinkManagerModel,
    after: LinkManagerModel,
    link_id: [u8; 16],
    segment: [u8; 32],
    conclusion: ConclusionModel,
) -> bool {
    let key = ResourceKey { link_id, hash: segment };
    let transfer = find(before.resources.outbound, key)->0;
    let id = match transfer.original_hash {
        Some(hash) => hash,
        None => transfer.resource_hash,
    };
    let waiting = ResourceKey { link_id, hash: id };
    &&& !present(after.resources.outbound, key)
    &&& !present(after.resources.queued, waiting)
    &&& forall|other: ResourceKey|
        other != key ==> #[trigger] find(after.resources.outbound, other) == find(
            before.resources.outbound,
            other,
        )
    &&& forall|other: ResourceKey|
        other != waiting ==> #[trigger] find(after.resources.queued, other) == find(
            before.resources.queued,
            other,
        )
    &&& told(
        before.notices,
        after.notices,
        EventModel::Concluded {
            link_id,
            resource_id: id,
            direction: LinkResourceDirection::Outbound,
            conclusion,
        },
    )
    &&& after == (LinkManagerModel {
        notices: after.notices,
        resources: ResourcesModel {
            outbound: after.resources.outbound,
            queued: after.resources.queued,
            ..before.resources
        },
        ..before
    })
}

pub(crate) proof fn lemma_outbound_is_over(
    m: LinkManagerModel,
    link_id: [u8; 16],
    segment: [u8; 32],
    conclusion: ConclusionModel,
)
    requires
        present(m.resources.outbound, ResourceKey { link_id, hash: segment }),
    ensures
        outbound_is_over(
            m,
            m.outbound_ended(link_id, segment, conclusion),
            link_id,
            segment,
            conclusion,
        ),
{
    let s = m.outbound_ended(link_id, segment, conclusion);
    let key = ResourceKey { link_id, hash: segment };
    let waiting = ResourceKey {
        link_id,
        hash: (find(m.resources.outbound, key)->0).logical_id(),
    };
    lemma_find_cut(m.resources.outbound, key, key);
    lemma_find_cut(m.resources.queued, waiting, waiting);
    assert forall|other: ResourceKey| other != key implies #[trigger] find(
        s.resources.outbound,
        other,
    ) == find(m.resources.outbound, other) by {
        lemma_find_cut(m.resources.outbound, key, other);
    }
    assert forall|other: ResourceKey| other != waiting implies #[trigger] find(
        s.resources.queued,
        other,
    ) == find(m.resources.queued, other) by {
        lemma_find_cut(m.resources.queued, waiting, other);
    }
}


/// Where the next segment's advertisement cannot be kept, the Resource fails: all that
/// waits of it goes, and the failure is reported under the id of the whole.
pub proof fn stuck_resource_fails(
    m: LinkManagerModel,
    link_id: [u8; 16],
    segment: [u8; 32],
    id: [u8; 32],
    data: Seq<u8>,
    next_action: Action,
)
    requires
        data.len() >= 64,
        segment@ == data.subrange(0, 32),
        present(m.resources.outbound, ResourceKey { link_id, hash: segment }),
        (find(m.resources.outbound, ResourceKey { link_id, hash: segment })->0).original_hash
            == Some(id),
        present(m.resources.queued, ResourceKey { link_id, hash: id }),
        !(next_action is SendAdvertisement) || !present(m.links, link_id)
            || m.transport.control.len() >= MAX_PENDING_LINK_CONTROL,
    ensures
        ({
            let s = m.proof_received(link_id, data, true, next_action@);
            let key = ResourceKey { link_id, hash: segment };
            let waiting = ResourceKey { link_id, hash: id };
            &&& outgoing(s) == outgoing(m)
            &&& s.effects == m.effects
            &&& !present(s.resources.outbound, key)
            &&& !present(s.resources.queued, waiting)
            &&& told(
                m.notices,
                s.notices,
                EventModel::Concluded {
                    link_id,
                    resource_id: id,
                    direction: LinkResourceDirection::Outbound,
                    conclusion: ConclusionModel::Failed(
                        "could not retain next Resource segment advertisement"@,
                    ),
                },
            )
        }),
{
    lemma_hash_at(data, 0, segment);
    let key = ResourceKey { link_id, hash: segment };
    let waiting = ResourceKey { link_id, hash: id };
    lemma_find_cut(m.resources.outbound, key, key);
    lemma_find_cut(cut_first(m.resources.queued, waiting), waiting, waiting);
    assert(next_action@ is SendAdvertisement <==> next_action is SendAdvertisement);
}

// ---- cancelling ----

/// Cancelling an outbound Resource that is on its way, by its own id or by that of its
/// segment, tells the peer which segment is given up, ends the Resource, and reports that
/// under the id of the whole.
pub proof fn outbound_cancellation_is_sent(
    m: LinkManagerModel,
    link_id: [u8; 16],
    id: [u8; 32],
    segment: [u8; 32],
)
    requires
        present(m.links, link_id),
        (find(m.links, link_id)->0).has_session_keys,
        holds_more(m.transport, 1),
        present(m.resources.outbound, ResourceKey { link_id, hash: segment }),
        answers_to(find(m.resources.outbound, ResourceKey { link_id, hash: segment })->0, segment, id),
        forall|other: [u8; 32]|
            #[trigger] present(m.resources.outbound, ResourceKey { link_id, hash: other })
                && answers_to(
                find(m.resources.outbound, ResourceKey { link_id, hash: other })->0,
                other,
                id,
            ) ==> other == segment,
        unique(m.resources.outbound),
    ensures
        ({
            let s = m.resource_cancelled(link_id, id, LinkResourceDirection::Outbound);
            &&& m.cancellation(link_id, id, LinkResourceDirection::Outbound) is Some
            &&& sends_more(m, s, 1)
            &&& carries(
                outgoing(s).last(),
                link_id,
                find(m.links, link_id)->0,
                PacketType::Data,
                PacketContext::ResourceIcl,
                segment@,
                true,
            )
            &&& outbound_is_over(
                LinkManagerModel { transport: s.transport, effects: s.effects, ..m },
                s,
                link_id,
                segment,
                ConclusionModel::Cancelled,
            )
        }),
{
    lemma_outbound_segment(m.resources.outbound, link_id, id, segment);
    let action = TransferAction::<Vec<u8>, String>::SendCancel(CancelType::Icl, segment);
    lemma_action_goes_out(m, link_id, action);
    let a = m.action_sent(link_id, action@);
    let s = m.resource_cancelled(link_id, id, LinkResourceDirection::Outbound);
    assert(s == a.outbound_ended(link_id, segment, ConclusionModel::Cancelled));
    lemma_outbound_is_over(a, link_id, segment, ConclusionModel::Cancelled);
    assert(outgoing(s) == outgoing(a));
}

/// Whether a segment, or the Resource that it belongs to, goes by an id.
pub open spec fn answers_to(transfer: OutboundTransfer, segment: [u8; 32], id: [u8; 32]) -> bool {
    segment == id || (match transfer.original_hash {
        Some(hash) => hash,
        None => transfer.resource_hash,
    }) == id
}

/// The segment that an id names is one of the Link's, and goes by that id; and one is named
/// if there is any.
proof fn lemma_outbound_segment(
    outbound: Seq<(ResourceKey, OutboundTransfer)>,
    link_id: [u8; 16],
    id: [u8; 32],
    segment: [u8; 32],
)
    requires
        unique(outbound),
        present(outbound, ResourceKey { link_id, hash: segment }),
        answers_to(find(outbound, ResourceKey { link_id, hash: segment })->0, segment, id),
        forall|other: [u8; 32]|
            #[trigger] present(outbound, ResourceKey { link_id, hash: other }) && answers_to(
                find(outbound, ResourceKey { link_id, hash: other })->0,
                other,
                id,
            ) ==> other == segment,
    ensures
        outbound_segment(outbound, link_id, id) == Some(segment),
{
    let key = ResourceKey { link_id, hash: segment };
    let i = lemma_find_member(outbound, key);
    lemma_outbound_segment_some(outbound, link_id, id, i);
    let found = outbound_segment(outbound, link_id, id)->0;
    let j = lemma_outbound_segment_member(outbound, link_id, id);
    let other = ResourceKey { link_id, hash: found };
    lemma_unique_find(outbound, j);
    assert(outbound[j].0 == other);
    assert(present(outbound, other));
}

proof fn lemma_unique_find(s: Seq<(ResourceKey, OutboundTransfer)>, i: int)
    requires
        unique(s),
        0 <= i < s.len(),
    ensures
        find(s, s[i].0) == Some(s[i].1),
{
    reveal(unique);
    reveal(find);
    lemma_position(s, s[i].0);
    let p = position(s, s[i].0);
    if p < i {
        assert(s[p].0 != s[i].0);
    } else if p > i {
        assert(s[i].0 != s[i].0);
    }
}

proof fn lemma_outbound_segment_some(
    outbound: Seq<(ResourceKey, OutboundTransfer)>,
    link_id: [u8; 16],
    id: [u8; 32],
    i: int,
)
    requires
        0 <= i < outbound.len(),
        outbound[i].0.link_id == link_id,
        answers_to(outbound[i].1, outbound[i].0.hash, id),
    ensures
        outbound_segment(outbound, link_id, id) is Some,
    decreases outbound.len(),
{
    if i < outbound.len() - 1 {
        lemma_outbound_segment_some(outbound.drop_last(), link_id, id, i);
    }
}

proof fn lemma_outbound_segment_member(
    outbound: Seq<(ResourceKey, OutboundTransfer)>,
    link_id: [u8; 16],
    id: [u8; 32],
) -> (i: int)
    requires
        outbound_segment(outbound, link_id, id) is Some,
    ensures
        0 <= i < outbound.len(),
        outbound[i].0 == (ResourceKey {
            link_id,
            hash: outbound_segment(outbound, link_id, id)->0,
        }),
        answers_to(outbound[i].1, outbound[i].0.hash, id),
    decreases outbound.len(),
{
    if outbound_segment(outbound.drop_last(), link_id, id) is Some {
        let i = lemma_outbound_segment_member(outbound.drop_last(), link_id, id);
        i
    } else {
        outbound.len() - 1
    }
}

// ---- what is read of what goes out ----

/// A message is read as it is: nothing of a packet, its addresses or its body is lost or
/// changed by speaking of its contents.
pub proof fn messages_are_read_as_they_are(
    link_id: [u8; 16],
    role: LinkEndpointRole,
    packet: Packet<Vec<u8>>,
    ticket: u64,
    raw: Vec<u8>,
    destination_hash: [u8; 16],
    interface_id: u64,
)
    ensures
        ({
            let built = Frame::Built(packet);
            let sent = Message::SendLinkEndpoint { link_id, role, packet, ticket };
            let last = Message::SendLinkEndpointAndUnbind { link_id, role, packet, ticket };
            let out = Message::Outbound { frame: Frame::Raw(raw), destination_hash };
            let on = Message::OutboundAttached { frame: built, destination_hash, interface_id };
            let gone = Message::UnbindLinkEndpoint { link_id, role, ticket };
            &&& packet@.header == packet.header
            &&& packet@.body == packet.body@
            &&& packet@.seal == packet.seal
            &&& sent@ == (MessageModel::SendLinkEndpoint { link_id, role, packet: packet@, ticket })
            &&& last@ == (MessageModel::SendLinkEndpointAndUnbind {
                link_id,
                role,
                packet: packet@,
                ticket,
            })
            &&& out@ == (MessageModel::Outbound { frame: Frame::Raw(raw@), destination_hash })
            &&& on@ == (MessageModel::OutboundAttached {
                frame: Frame::Built(packet@),
                destination_hash,
                interface_id,
            })
            &&& gone@ == (MessageModel::UnbindLinkEndpoint { link_id, role, ticket })
        }),
{
}

/// A Resource is planned as one segment if, and only if, it fits into one.
pub proof fn resources_are_cut_where_they_do_not_fit(
    m: LinkManagerModel,
    link_id: [u8; 16],
    allow_handshake: bool,
    data_len: nat,
    metadata_len: Option<nat>,
)
    ensures
        m.segment_plan(data_len, metadata_len) is Single <==> fits_segment(
            m,
            data_len,
            metadata_len,
        ),
        m.carries_resources(link_id, allow_handshake) <==> open_for_resources(
            m,
            link_id,
            allow_handshake,
        ),
{
}

/// Realtime data that was sent counts as sent, once. Where the Link's endpoint is not this
/// end's any more, the Link goes; any other answer changes nothing.
pub proof fn realtime_data_is_counted(m: LinkManagerModel, link_id: [u8; 16], len: usize)
    requires
        present(m.links, link_id),
    ensures
        m.best_effort_sent(link_id, len, Some(LinkEndpointSendResult::Sent)) == (LinkManagerModel {
            effects: m.effects.push(
                Effect::Transmitted { link_id, len, sealed: false, keepalive: false },
            ),
            ..m
        }),
        !present(
            m.best_effort_sent(link_id, len, Some(LinkEndpointSendResult::NotBound)).links,
            link_id,
        ),
        !present(
            m.best_effort_sent(link_id, len, Some(LinkEndpointSendResult::RoleMismatch)).links,
            link_id,
        ),
        m.best_effort_sent(link_id, len, None) == m,
{
    lemma_close_transport(m, link_id, CloseReason::DestinationClosed, false, None, false);
    lemma_find_cut(m.links, link_id, link_id);
}

} // verus!
