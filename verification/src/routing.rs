//! Which packet, command and event reaches what.

use vstd::prelude::*;

use crate::commands::{DestinationEvent, LinkManagerCommand};
use crate::deliveries::{on_link, plain_context, took};
use crate::endpoints::{pending_bind, requested_link};
use crate::events::{bytes_model, DestinationDeliveryProof};
use crate::link::CloseReason;
use crate::manager::{LinkManagerModel, RegisteredRequestHandler};
use crate::packets::PacketInput;
use crate::receiving::optional_action;
use crate::sending::action_models;
use crate::wire::{PacketContext, PacketHeader};

verus! {

/// Whether two states are the same.
pub open spec fn same_state(a: LinkManagerModel, b: LinkManagerModel) -> bool {
    a == b
}

/// Whether a packet is the proof of a packet that this end sent.
pub open spec fn proves_packet(header: PacketHeader) -> bool {
    header.flags.packet_type is Proof && (header.context is Data || header.context is LinkProof)
}

/// A packet of a Link reaches what deals with it by its context, and what was read of it is
/// handed on as it is. What could not be read, or was read under another context, changes
/// nothing.
pub proof fn packets_reach_what_deals_with_them(
    m: LinkManagerModel,
    header: PacketHeader,
    interface_id: u64,
    input: PacketInput,
)
    requires
        on_link(m, header, interface_id),
    ensures
        ({
            let id = header.destination_hash;
            same_state(
                m.packet_handled(header, interface_id, input),
                match input {
                    PacketInput::PacketProof { data, valid, matches_channel } => if proves_packet(
                        header,
                    ) {
                        m.packet_proof_received(id, data@, valid, matches_channel)
                    } else {
                        m
                    },
                    PacketInput::Lrrtt { accepted } => if header.context is Lrrtt {
                        m.link_activated(id, header.hops, accepted)
                    } else {
                        m
                    },
                    PacketInput::Identify { identity, gate_accepts, teardown } => {
                        if header.context is LinkIdentify {
                            m.identification_received(
                                id,
                                identity,
                                gate_accepts,
                                bytes_model(teardown),
                            )
                        } else {
                            m
                        }
                    },
                    PacketInput::Keepalive { data, respond } => if header.context is Keepalive {
                        m.keepalive_received(id, data@, respond)
                    } else {
                        m
                    },
                    PacketInput::Close { verified } => if header.context is LinkClose && verified {
                        m.link_dropped(id, CloseReason::DestinationClosed)
                    } else {
                        m
                    },
                    PacketInput::Channel { proof, registered } => if header.context is Channel {
                        m.channel_packet_proved(id, bytes_model(proof), registered)
                    } else {
                        m
                    },
                    PacketInput::Advertisement(offer) => if header.context is ResourceAdv {
                        m.offer_received(id, offer)
                    } else {
                        m
                    },
                    PacketInput::Part { scan, transferred } => if header.context is Resource {
                        m.part_received(
                            id,
                            scan.progressed,
                            transferred,
                            optional_action(scan.action),
                        )
                    } else {
                        m
                    },
                    PacketInput::PartsRequest { plaintext, actions, progress } => {
                        if header.context is ResourceReq && plaintext is Some {
                            m.parts_requested(
                                id,
                                (plaintext->0)@,
                                action_models(actions@),
                                progress,
                            )
                        } else {
                            m
                        }
                    },
                    PacketInput::SenderCancel { plaintext } => {
                        if header.context is ResourceIcl && plaintext is Some {
                            m.inbound_cancelled(id, (plaintext->0)@)
                        } else {
                            m
                        }
                    },
                    PacketInput::ReceiverCancel { plaintext } => {
                        if header.context is ResourceRcl && plaintext is Some {
                            m.outbound_refused(id, (plaintext->0)@)
                        } else {
                            m
                        }
                    },
                    PacketInput::HashmapUpdate { update } => {
                        if header.context is ResourceHmu && update is Some {
                            m.hashmap_updated(id, (update->0).0, (update->0).1@)
                        } else {
                            m
                        }
                    },
                    PacketInput::ResourceProof { data, complete, next_action } => {
                        if header.context is ResourcePrf {
                            m.proof_received(id, data@, complete, next_action@)
                        } else {
                            m
                        }
                    },
                    PacketInput::Request { .. } => m,
                    PacketInput::Response { .. } => m.packet_handled(header, interface_id, input),
                    PacketInput::Data { plaintext, proof } => if plain_context(header.context)
                        && !proves_packet(header) {
                        m.data_received(id, bytes_model(plaintext), bytes_model(proof))
                    } else {
                        m
                    },
                },
            )
        }),
{
}

/// What is to be done next about a packet goes by its context too: what it asks for is
/// named as it was read, and nothing is to be done that it does not ask for.
pub proof fn packets_ask_for_what_they_bring(
    m: LinkManagerModel,
    header: PacketHeader,
    interface_id: u64,
    input: PacketInput,
)
    requires
        on_link(m, header, interface_id),
    ensures
        ({
            let id = header.destination_hash;
            let next = m.follow_up(header, interface_id, input);
            match input {
                PacketInput::Lrrtt { accepted } => next is Activated <==> header.context is Lrrtt
                    && m.activates(id, accepted),
                PacketInput::Identify { identity, .. } => next is Identified
                    <==> header.context is LinkIdentify && identity is Some
                    && m.first_identification(id),
                PacketInput::Data { plaintext, proof } => next is Published <==> plain_context(
                    header.context,
                ) && !proves_packet(header) && m.publishes(
                    id,
                    bytes_model(plaintext),
                    bytes_model(proof),
                ),
                PacketInput::Channel { proof, registered } => next is ChannelData
                    <==> header.context is Channel && m.channel_packet_taken(
                    id,
                    bytes_model(proof),
                    registered,
                ),
                PacketInput::Part { scan, .. } => {
                    &&& next is CompleteSegment <==> header.context is Resource
                        && scan.completed is Some
                    &&& next is CompleteSegment ==> next->CompleteSegment_0 == scan.completed->0
                },
                PacketInput::Request { parsed } => {
                    &&& next is Dispatch <==> header.context is Request && parsed is Some
                    &&& next is Dispatch ==> next->Dispatch_0 == parsed->0
                },
                _ => next is Nothing,
            }
        }),
{
}

/// A command is carried out by the operation that it names, with its own arguments, and is
/// answered what that operation gives.
pub proof fn commands_are_carried_out(m: LinkManagerModel, command: LinkManagerCommand)
    ensures
        same_state(
            m.commanded(command),
            match command {
                LinkManagerCommand::SendChannelMessage { link_id, registered, prepared } => {
                    m.channel_message_sent(link_id, registered, prepared)
                },
                LinkManagerCommand::SendLinkPacket { link_id, sealed } => m.link_packet_sent(
                    link_id,
                    PacketContext::Data,
                    sealed,
                    m.packet_result(link_id, sealed) is Ok,
                ),
                LinkManagerCommand::SendLinkResource { link_id, payload, built } => m.resource_sent(
                    link_id,
                    payload@.len(),
                    built,
                ),
                LinkManagerCommand::SendLinkPayload { link_id, payload, sealed, built } => {
                    m.payload_sent(link_id, payload@.len() as usize, sealed, built)
                },
                LinkManagerCommand::CancelLinkResource { link_id, resource_id, direction } => {
                    m.resource_cancelled(link_id, resource_id, direction)
                },
                LinkManagerCommand::CloseLink { link_id, reason, send_teardown, teardown } => {
                    m.link_closed(link_id, reason, send_teardown, bytes_model(teardown), false)
                },
                LinkManagerCommand::Announce { managed, raw } => {
                    if m.settings.has_announce_handler {
                        m
                    } else {
                        m.announced(None, managed, None, raw)
                    }
                },
                LinkManagerCommand::AnnounceWith { options, managed, raw } => m.announced(
                    options.attached_interface,
                    managed,
                    options.ratchet,
                    raw,
                ),
                LinkManagerCommand::SetAcceptsLinks { accepts } => m.accepting_links(accepts),
                LinkManagerCommand::SetDefaultAppData { app_data } => m.with_default_app_data(
                    bytes_model(app_data),
                ),
                LinkManagerCommand::RegisterRequestHandler {
                    path,
                    path_hash,
                    allow,
                    allowed_list,
                    auto_compress,
                } => m.handler_registered(
                    path_hash,
                    RegisteredRequestHandler { path, allow, allowed_list, auto_compress },
                ),
                _ => m.commanded(command),
            },
        ),
        command is Shutdown ==> m.commanded(command) == m,
{
}

/// What the transport reports reaches what deals with it: a request for a Link sets one up
/// from its handshake, a Link that its application wants closed is closed with a teardown,
/// and an announce that is asked for is made unless it is left to the application, which a
/// path response never is.
pub proof fn events_reach_what_deals_with_them(m: LinkManagerModel, event: DestinationEvent)
    ensures
        same_state(
            m.notified(event),
            match event {
                DestinationEvent::LinkRequest { interface_id, handshake: Some(h) } => {
                    m.link_requested(
                        h.link_id,
                        requested_link(m.settings, interface_id, h),
                        pending_bind(m, interface_id, h),
                    )
                },
                DestinationEvent::LinkRequest { handshake: None, .. } => m,
                DestinationEvent::InboundPacket { header, interface_id, input } => {
                    m.packet_handled(header, interface_id, input)
                },
                DestinationEvent::DestinationPacket {
                    raw,
                    header,
                    interface_id,
                    taken,
                    delivery_proof,
                } => m.destination_packet_received(
                    raw,
                    interface_id,
                    m.retained_proof(header, taken, delivery_proof),
                ),
                DestinationEvent::LinkClosed { link_id, teardown } => m.link_closed(
                    link_id,
                    CloseReason::InitiatorClosed,
                    true,
                    bytes_model(teardown),
                    false,
                ),
                DestinationEvent::AnnounceRequested {
                    path_response,
                    attached_interface,
                    managed,
                    raw,
                } => if m.settings.has_announce_handler && !path_response {
                    m
                } else {
                    m.announced(attached_interface, managed, None, raw)
                },
                _ => m.notified(event),
            },
        ),
        event matches DestinationEvent::LinkEstablished { link_id } ==> took(
            m.notices.link_established,
            m.notified(event).notices.link_established,
            link_id@,
        ),
        event matches DestinationEvent::DeliveryProof { msg_id, rtt } ==> took(
            m.notices.destination_delivery_proof,
            m.notified(event).notices.destination_delivery_proof,
            DestinationDeliveryProof { msg_id, rtt },
        ),
{
}

} // verus!
