//! Binding, owning and releasing the endpoints of Links.

use rns_runtime::commands::{DestinationEvent, EventOutcome};
use rns_runtime::endpoints::LinkRequestDecision;
use rns_runtime::link::{CloseReason, Link, LinkState, ResourceStrategy};
use rns_runtime::manager::{Effect, Handshake, LinkManager, ProtocolConstants};
use rns_runtime::packets::{FollowUp, PacketInput};
use rns_runtime::port::Port;
use rns_runtime::sending::{LinkSendError, SealedPacket};
use rns_runtime::tick::LinkAction;
use rns_runtime::transport::ResponderEndpointOwnership;
use rns_runtime::wire::{
    make_header, DestinationType, Frame, LinkEndpointBindResult, LinkEndpointBinding,
    LinkEndpointLifecycleEvent, LinkEndpointRole, LinkEndpointSendResult,
    LinkEndpointTerminalReason, LinkEndpointUnbindResult, Message, PacketContext, PacketType,
    TransportMessage,
};

const LINK: [u8; 16] = [0x51; 16];

fn constants() -> ProtocolConstants {
    ProtocolConstants {
        max_segments: 4096,
        max_efficient_size: 1_048_575,
        map_hash_len: 4,
        hashmap_is_exhausted: 0xFF,
        keepalive_request: 0xFF,
        keepalive_response: 0xFE,
        system_message_type_min: 0xF000,
    }
}

fn manager(limit: usize, destination_hash: [u8; 16]) -> LinkManager {
    LinkManager::new(Port::bounded(limit), destination_hash, true, constants())
}

/// A manager that owns its destination and holds its signing key.
fn owning_manager(destination_hash: [u8; 16]) -> LinkManager {
    LinkManager::with_destination(
        Port::bounded(16),
        Some(destination_hash),
        true,
        false,
        true,
        constants(),
    )
}

fn link(interface_id: u64, is_initiator: bool) -> Link {
    Link {
        state: LinkState::Active,
        is_initiator,
        interface_id,
        mdu: 431,
        has_session_keys: true,
        identified: false,
        remote_identity: None,
        resource_strategy: ResourceStrategy::AcceptAll,
        expected_hops: None,
        has_channel: false,
    }
}

fn handshake() -> Handshake {
    Handshake {
        link_id: LINK,
        mdu: 431,
        has_session_keys: true,
        proof: vec![0xC0; 99],
    }
}

/// A Link request of 86 bytes, of which 19 are its header.
fn request_link(manager: &mut LinkManager, interface_id: u64) -> bool {
    match manager.decide_link_request(86, Some(19)) {
        LinkRequestDecision::Ignore => false,
        _ => manager.handle_link_request(interface_id, handshake()),
    }
}

fn own_test_endpoint(manager: &mut LinkManager, link_id: [u8; 16]) -> ResponderEndpointOwnership {
    let link = *manager.get_link(&link_id).unwrap();
    let generation = manager.transport.next_generation;
    manager.transport.next_generation = generation.wrapping_add(1).max(1);
    manager.transport.generations.insert(link_id, generation);
    let ownership = ResponderEndpointOwnership {
        binding: LinkEndpointBinding {
            link_id,
            interface_id: link.interface_id,
            role: link.endpoint_role(),
        },
        generation,
    };
    manager.transport.owned.insert(link_id, ownership);
    ownership
}

fn take(manager: &mut LinkManager) -> Option<Message> {
    if manager.transport.port.sent.is_empty() {
        None
    } else {
        Some(manager.transport.port.sent.remove(0))
    }
}

/// The next message to the transport; requests about endpoints are answered on the way.
fn next_transport_message(manager: &mut LinkManager) -> Option<Message> {
    loop {
        match take(manager)? {
            TransportMessage::BindLinkEndpoint { ticket, .. } => {
                manager
                    .transport
                    .replies
                    .bind
                    .insert(ticket, Some(LinkEndpointBindResult::Bound));
            }
            TransportMessage::SendLinkEndpoint {
                link_id,
                packet,
                ticket,
                ..
            }
            | TransportMessage::SendLinkEndpointAndUnbind {
                link_id,
                packet,
                ticket,
                ..
            } => {
                manager
                    .transport
                    .replies
                    .send
                    .insert(ticket, Some(LinkEndpointSendResult::Sent));
                return Some(TransportMessage::Outbound {
                    frame: Frame::Built(packet),
                    destination_hash: link_id,
                });
            }
            TransportMessage::UnbindLinkEndpoint { ticket, .. } => {
                manager
                    .transport
                    .replies
                    .unbind
                    .insert(ticket, Some(LinkEndpointUnbindResult::Unbound));
            }
            message => return Some(message),
        }
    }
}

fn bind_ticket(message: Option<Message>) -> (LinkEndpointBinding, u64) {
    match message {
        Some(TransportMessage::BindLinkEndpoint { binding, ticket }) => (binding, ticket),
        other => panic!("expected an endpoint bind, got {other:?}"),
    }
}

fn unbind_ticket(message: Option<Message>) -> ([u8; 16], LinkEndpointRole, u64) {
    match message {
        Some(TransportMessage::UnbindLinkEndpoint {
            link_id,
            role,
            ticket,
        }) => (link_id, role, ticket),
        other => panic!("expected an endpoint unbind, got {other:?}"),
    }
}

fn barrier_ticket(message: Option<Message>) -> u64 {
    match message {
        Some(TransportMessage::HasPath { ticket, .. }) => ticket,
        other => panic!("expected an ordering barrier, got {other:?}"),
    }
}

fn answer_bind(manager: &mut LinkManager, ticket: u64, result: LinkEndpointBindResult) {
    manager.transport.replies.bind.insert(ticket, Some(result));
}

fn answer_unbind(manager: &mut LinkManager, ticket: u64, result: LinkEndpointUnbindResult) {
    manager.transport.replies.unbind.insert(ticket, Some(result));
}

fn terminal(
    binding: LinkEndpointBinding,
    reason: LinkEndpointTerminalReason,
) -> LinkEndpointLifecycleEvent {
    LinkEndpointLifecycleEvent {
        binding,
        reason,
        dropped_packets: 0,
    }
}

#[test]
fn test_link_manager_handles_link_closed() {
    let mut lm = manager(16, [0xCC; 16]);
    lm.set_link_closed_channel(Port::bounded(1));
    lm.links.insert(LINK, link(1, true));
    own_test_endpoint(&mut lm, LINK);
    assert_eq!(lm.active_link_count(), 1);

    let outcome = lm.handle_event(DestinationEvent::LinkClosed {
        link_id: LINK,
        teardown: None,
    });
    assert!(matches!(outcome, EventOutcome::Handled));
    assert_eq!(lm.active_link_count(), 0);
    assert_eq!(lm.notices.link_closed.as_ref().unwrap().sent, vec![LINK]);
    let (_, _, ticket) = unbind_ticket(take(&mut lm));
    answer_unbind(&mut lm, ticket, LinkEndpointUnbindResult::Unbound);
    assert!(lm.poll_link_endpoints());
    assert!(matches!(
        next_transport_message(&mut lm),
        Some(TransportMessage::DeregisterDestination { hash }) if hash == LINK
    ));
}

#[test]
fn remote_link_close_runs_full_cleanup() {
    let mut lm = manager(16, [0xD0; 16]);
    lm.set_link_closed_channel(Port::bounded(1));
    lm.backchannel_links.insert([0xAB; 16], LINK);
    lm.link_identities.insert(LINK, [0xAB; 16]);
    lm.links.insert(LINK, link(1, false));
    own_test_endpoint(&mut lm, LINK);

    let header = make_header(
        DestinationType::Link,
        PacketType::Data,
        LINK,
        PacketContext::LinkClose,
    );
    let _ = lm.handle_inbound_packet(&header, 2, PacketInput::Close { verified: true });
    assert_eq!(
        lm.active_link_count(),
        1,
        "link traffic from another interface must be ignored"
    );
    assert!(lm.notices.link_closed.as_ref().unwrap().sent.is_empty());
    assert!(next_transport_message(&mut lm).is_none());

    let _ = lm.handle_inbound_packet(&header, 1, PacketInput::Close { verified: true });
    assert_eq!(lm.active_link_count(), 0);
    assert_eq!(lm.notices.link_closed.as_ref().unwrap().sent, vec![LINK]);
    assert!(lm.backchannel_links.is_empty());
    assert!(lm.link_identities_handle().get(&LINK).is_none());
    let (_, _, ticket) = unbind_ticket(take(&mut lm));
    answer_unbind(&mut lm, ticket, LinkEndpointUnbindResult::Unbound);
    assert!(lm.poll_link_endpoints());
    assert!(matches!(
        next_transport_message(&mut lm),
        Some(TransportMessage::DeregisterDestination { hash }) if hash == LINK
    ));
}

#[test]
fn unverified_close_keeps_the_link() {
    let mut lm = manager(16, [0xD0; 16]);
    lm.links.insert(LINK, link(1, false));
    let header = make_header(
        DestinationType::Link,
        PacketType::Data,
        LINK,
        PacketContext::LinkClose,
    );
    let _ = lm.handle_inbound_packet(&header, 1, PacketInput::Close { verified: false });
    assert_eq!(lm.link_ids(), vec![LINK]);
    assert!(take(&mut lm).is_none());
}

#[test]
fn try_step_processes_queued_destination_event_without_consuming_manager() {
    let mut lm = manager(16, [0xCE; 16]);
    lm.links.insert(LINK, link(1, true));

    assert!(!lm.attend());
    let outcome = lm.handle_event(DestinationEvent::LinkClosed {
        link_id: LINK,
        teardown: None,
    });
    assert!(matches!(outcome, EventOutcome::Handled));
    assert_eq!(lm.active_link_count(), 0);
    assert!(!lm.attend());
}

#[test]
fn test_link_request_without_identity_rejected() {
    let mut lm = LinkManager::new(Port::bounded(16), [0xDD; 16], false, constants());
    assert_eq!(
        lm.decide_link_request(86, Some(19)),
        LinkRequestDecision::Ignore
    );
    assert!(!request_link(&mut lm, 1));
    assert_eq!(lm.active_link_count(), 0);
}

#[test]
fn link_request_without_payload_is_ignored() {
    let lm = manager(16, [0xDD; 16]);
    assert_eq!(
        lm.decide_link_request(19, Some(19)),
        LinkRequestDecision::Ignore
    );
    assert_eq!(
        lm.decide_link_request(86, None),
        LinkRequestDecision::Ignore
    );
    assert_eq!(
        lm.decide_link_request(20, Some(19)),
        LinkRequestDecision::SignWithKey
    );
}

#[test]
fn backend_identity_accepts_link_request_without_raw_signing_key() {
    let mut lm = LinkManager::with_destination(
        Port::bounded(16),
        Some([0x61; 16]),
        false,
        true,
        false,
        constants(),
    );
    assert_eq!(
        lm.decide_link_request(86, Some(19)),
        LinkRequestDecision::SignWithIdentity
    );
    assert!(request_link(&mut lm, 1));
    assert_eq!(lm.active_link_count(), 1);

    let (_, ticket) = bind_ticket(take(&mut lm));
    answer_bind(&mut lm, ticket, LinkEndpointBindResult::Bound);
    assert!(lm.poll_link_endpoints());
    assert!(matches!(
        next_transport_message(&mut lm),
        Some(TransportMessage::RegisterLink {
            link_id,
            interface_id: 1,
            initiator: false,
            ..
        }) if link_id == LINK
    ));
    let Some(TransportMessage::OutboundAttached {
        frame: Frame::Built(packet),
        interface_id,
        ..
    }) = next_transport_message(&mut lm)
    else {
        panic!("expected attached outbound link proof");
    };
    assert_eq!(interface_id, 1);
    assert_eq!(packet.header.context, PacketContext::Lrproof);
    assert_eq!(packet.header.flags.packet_type, PacketType::Proof);
    assert_eq!(packet.header.destination_hash, LINK);
    assert_eq!(packet.body, vec![0xC0; 99]);
}

#[test]
fn backend_identity_link_request_fails_closed_when_signer_unavailable() {
    let mut lm = LinkManager::with_destination(
        Port::bounded(16),
        Some([0x61; 16]),
        false,
        true,
        false,
        constants(),
    );
    // The signer gave nothing, so there is no handshake to take in.
    let outcome = lm.handle_event(DestinationEvent::LinkRequest {
        interface_id: 1,
        handshake: None,
    });
    assert!(matches!(outcome, EventOutcome::Handled));
    assert_eq!(lm.active_link_count(), 0);
    assert!(take(&mut lm).is_none());
}

#[test]
fn accepted_inbound_link_is_removed_from_owned_destination_on_close() {
    let mut lm = owning_manager([0x62; 16]);
    assert!(request_link(&mut lm, 1));
    assert_eq!(lm.active_link_count(), 1);
    assert_eq!(lm.destination_links.len(), 1);

    let _ = lm.handle_event(DestinationEvent::LinkClosed {
        link_id: LINK,
        teardown: None,
    });
    assert_eq!(lm.active_link_count(), 0);
    assert_eq!(lm.destination_links.len(), 0);
}

#[test]
fn test_with_destination_constructor() {
    let lm = owning_manager([0x63; 16]);
    assert!(lm.destination().is_some());
    assert_eq!(lm.active_link_count(), 0);
}

#[test]
fn test_destination_link_acceptance_gating() {
    let mut lm = owning_manager([0x64; 16]);
    if let Some(destination) = lm.destination_mut() {
        destination.accept_link_requests = false;
    }
    assert!(!request_link(&mut lm, 1));
    assert_eq!(lm.active_link_count(), 0);
}

#[test]
fn test_real_link_request_handshake() {
    let mut lm = manager(64, [0xEE; 16]);
    assert!(request_link(&mut lm, 1));
    assert_eq!(lm.active_link_count(), 1);
    assert_eq!(lm.get_link(&LINK).unwrap().state, LinkState::Handshake);

    let (_, ticket) = bind_ticket(take(&mut lm));
    answer_bind(&mut lm, ticket, LinkEndpointBindResult::Bound);
    assert!(lm.poll_link_endpoints());
    assert!(matches!(
        next_transport_message(&mut lm),
        Some(TransportMessage::RegisterLink { link_id, .. }) if link_id == LINK
    ));
    assert!(matches!(
        next_transport_message(&mut lm),
        Some(TransportMessage::OutboundAttached { .. })
    ));
}

#[test]
fn responder_binds_request_interface_before_registering_and_proving_link() {
    let mut lm = owning_manager([0x65; 16]);
    assert!(request_link(&mut lm, 73));

    let (binding, ticket) = bind_ticket(take(&mut lm));
    assert_eq!(binding.link_id, LINK);
    assert_eq!(binding.interface_id, 73);
    assert_eq!(binding.role, LinkEndpointRole::Responder);
    assert!(take(&mut lm).is_none());
    answer_bind(&mut lm, ticket, LinkEndpointBindResult::Bound);
    assert!(lm.poll_link_endpoints());

    assert!(matches!(
        take(&mut lm),
        Some(TransportMessage::RegisterLink {
            link_id,
            destination_hash,
            interface_id: 73,
            initiator: false,
            ..
        }) if link_id == LINK && destination_hash == [0x65; 16]
    ));
    assert!(matches!(
        take(&mut lm),
        Some(TransportMessage::OutboundAttached {
            interface_id: 73,
            ..
        })
    ));
    assert_eq!(lm.link_interface(&LINK), Some(73));
}

#[test]
fn responder_bind_failure_closes_unbound_link_owner() {
    let mut lm = owning_manager([0x66; 16]);
    assert!(request_link(&mut lm, 99));
    let (_, ticket) = bind_ticket(take(&mut lm));
    answer_bind(&mut lm, ticket, LinkEndpointBindResult::InterfaceUnavailable);
    assert!(lm.poll_link_endpoints());
    assert_eq!(lm.active_link_count(), 0);
    assert_eq!(lm.link_interface(&LINK), None);
}

#[test]
fn refused_bind_request_leaves_no_link() {
    let mut lm = manager(0, [0x66; 16]);
    assert!(!request_link(&mut lm, 99));
    assert_eq!(lm.active_link_count(), 0);
    assert!(lm.transport.binds.is_empty());
}

#[test]
fn terminal_lifecycle_between_bind_polls_cancels_exact_candidate() {
    let mut lm = owning_manager([0x67; 16]);
    assert!(request_link(&mut lm, 41));
    let (binding, ticket) = bind_ticket(take(&mut lm));
    assert_eq!(binding.link_id, LINK);
    assert_eq!(binding.interface_id, 41);
    assert!(!lm.poll_link_endpoints(), "first bind poll must be empty");

    for wrong_binding in [
        LinkEndpointBinding {
            interface_id: 42,
            ..binding
        },
        LinkEndpointBinding {
            role: LinkEndpointRole::Initiator,
            ..binding
        },
    ] {
        lm.transport
            .lifecycle
            .push_back(terminal(wrong_binding, LinkEndpointTerminalReason::Unbound));
    }
    assert!(lm.drain_endpoint_lifecycle());
    assert_eq!(lm.active_link_count(), 1);
    assert!(lm.transport.binds.contains(&LINK));

    answer_bind(&mut lm, ticket, LinkEndpointBindResult::Bound);
    lm.transport.lifecycle.push_back(terminal(
        binding,
        LinkEndpointTerminalReason::InterfaceRemoved,
    ));
    assert!(lm.drain_endpoint_lifecycle());
    assert_eq!(lm.active_link_count(), 0);
    assert!(lm.transport.binds.contains(&LINK));
    assert!(take(&mut lm).is_none());

    assert!(lm.poll_link_endpoints());
    assert!(lm.transport.binds.is_empty());
    assert!(!lm.transport.owned.contains(&LINK));
    let (cleanup_link_id, role, ticket) = unbind_ticket(take(&mut lm));
    assert_eq!(cleanup_link_id, LINK);
    assert_eq!(role, LinkEndpointRole::Responder);
    assert!(take(&mut lm).is_none());

    answer_unbind(&mut lm, ticket, LinkEndpointUnbindResult::NotBound);
    assert!(lm.poll_link_endpoints());
    let barrier = barrier_ticket(take(&mut lm));
    assert!(take(&mut lm).is_none());
    lm.transport.replies.barrier.insert(barrier, true);
    assert!(lm.poll_link_endpoints());
    assert!(!lm.transport.tombstones.contains(&LINK));
}

#[test]
fn responder_bind_conflict_publishes_no_handshake_or_foreign_cleanup() {
    for result in [
        LinkEndpointBindResult::AlreadyBound,
        LinkEndpointBindResult::Conflict {
            interface_id: 17,
            role: LinkEndpointRole::Responder,
        },
    ] {
        let mut lm = owning_manager([0x68; 16]);
        assert!(request_link(&mut lm, 17));
        let (_, ticket) = bind_ticket(take(&mut lm));
        answer_bind(&mut lm, ticket, result);
        assert!(lm.poll_link_endpoints());

        assert_eq!(lm.active_link_count(), 0);
        assert!(!lm.transport.owned.contains(&LINK));
        assert!(lm.transport.control.is_empty());
        assert!(lm.transport.cleanups.is_empty());
        assert!(
            take(&mut lm).is_none(),
            "conflict must emit no RegisterLink, LRPROOF, unbind, or deregistration"
        );
    }
}

#[test]
fn late_bound_result_releases_only_the_unpublished_endpoint() {
    let mut lm = owning_manager([0x69; 16]);
    assert!(request_link(&mut lm, 23));
    let (_, ticket) = bind_ticket(take(&mut lm));
    assert!(lm.close_link(LINK, CloseReason::DestinationClosed, false, None));
    assert!(take(&mut lm).is_none());

    answer_bind(&mut lm, ticket, LinkEndpointBindResult::Bound);
    assert!(lm.poll_link_endpoints());
    let (link_id, role, ticket) = unbind_ticket(take(&mut lm));
    assert_eq!(link_id, LINK);
    assert_eq!(role, LinkEndpointRole::Responder);
    lm.transport.lifecycle.push_back(terminal(
        LinkEndpointBinding {
            link_id,
            interface_id: 23,
            role,
        },
        LinkEndpointTerminalReason::Unbound,
    ));
    answer_unbind(&mut lm, ticket, LinkEndpointUnbindResult::Unbound);
    assert!(lm.poll_link_endpoints());
    let barrier = barrier_ticket(take(&mut lm));
    lm.transport.replies.barrier.insert(barrier, true);
    assert!(lm.poll_link_endpoints());
    assert!(!lm.transport.tombstones.contains(&LINK));
    assert!(
        take(&mut lm).is_none(),
        "unpublished candidate must not deregister a different local Link role"
    );
}

#[test]
fn responder_rejects_wrong_interface_before_link_delivery() {
    let mut lm = manager(8, [0x77; 16]);
    lm.set_link_packet_channel(Port::unbounded());
    lm.links.insert(LINK, link(7, false));

    let header = make_header(
        DestinationType::Link,
        PacketType::Data,
        LINK,
        PacketContext::Data,
    );
    let follow_up = lm.handle_inbound_packet(
        &header,
        8,
        PacketInput::Data {
            plaintext: Some(b"wrong interface".to_vec()),
            proof: Some(vec![0xAA; 96]),
        },
    );

    assert!(matches!(follow_up, FollowUp::Nothing));
    assert!(lm.notices.link_packet.as_ref().unwrap().sent.is_empty());
    assert!(take(&mut lm).is_none());
    assert_eq!(lm.active_link_count(), 1);
    assert_eq!(lm.link_interface(&LINK), Some(7));
}

#[test]
fn responder_endpoint_terminal_closes_only_exact_link_owner() {
    let mut lm = manager(8, [0x77; 16]);
    lm.links.insert(LINK, link(9, false));
    own_test_endpoint(&mut lm, LINK);

    lm.handle_endpoint_terminal(LinkEndpointLifecycleEvent {
        binding: LinkEndpointBinding {
            link_id: LINK,
            interface_id: 9,
            role: LinkEndpointRole::Responder,
        },
        reason: LinkEndpointTerminalReason::InterfaceRemoved,
        dropped_packets: 2,
    });

    assert_eq!(lm.active_link_count(), 0);
    assert_eq!(lm.link_interface(&LINK), None);
}

#[test]
fn stale_generation_lifecycle_cannot_close_current_active_state() {
    let mut lm = manager(8, [0x77; 16]);
    lm.links.insert(LINK, link(9, false));
    let ownership = own_test_endpoint(&mut lm, LINK);
    lm.transport
        .generations
        .insert(LINK, ownership.generation + 1);

    lm.handle_endpoint_terminal(terminal(
        ownership.binding,
        LinkEndpointTerminalReason::Unbound,
    ));

    assert_eq!(lm.active_link_count(), 1);
    assert_eq!(lm.link_interface(&LINK), Some(9));
}

#[test]
fn responder_staged_send_rejection_closes_exact_link_owner() {
    let mut lm = manager(8, [0x77; 16]);
    lm.links.insert(LINK, link(10, false));
    own_test_endpoint(&mut lm, LINK);

    lm.send_link_packet(
        &LINK,
        Some(SealedPacket {
            body: b"must fail closed".to_vec(),
            packet_hash: [0x01; 32],
        }),
    )
    .unwrap();
    let Some(TransportMessage::SendLinkEndpoint { role, ticket, .. }) = take(&mut lm) else {
        panic!("established traffic must use the typed endpoint");
    };
    assert_eq!(role, LinkEndpointRole::Responder);
    lm.transport
        .replies
        .send
        .insert(ticket, Some(LinkEndpointSendResult::NotBound));

    assert!(lm.poll_link_endpoints());
    assert_eq!(lm.active_link_count(), 0);
    assert!(lm.transport.sends.is_empty());
    let (_, _, ticket) = unbind_ticket(take(&mut lm));
    answer_unbind(&mut lm, ticket, LinkEndpointUnbindResult::Unbound);
    assert!(lm.poll_link_endpoints());
    assert!(matches!(
        next_transport_message(&mut lm),
        Some(TransportMessage::DeregisterDestination { hash }) if hash == LINK
    ));
}

#[test]
fn responder_best_effort_media_uses_typed_endpoint_and_reports_drop() {
    let mut lm = manager(8, [0x77; 16]);
    lm.links.insert(LINK, link(11, false));

    let sealed = Some(SealedPacket {
        body: b"realtime".to_vec(),
        packet_hash: [0x44; 32],
    });
    let (role, packet) = lm.prepare_best_effort(&LINK, &sealed).unwrap();
    let sealed = sealed.unwrap();
    assert_eq!(role, LinkEndpointRole::Responder);
    assert_eq!(packet.header.destination_hash, LINK);
    assert_eq!(packet.body, b"realtime");

    let (receipt, outcome) = lm
        .finish_best_effort(
            &LINK,
            &sealed,
            Some(LinkEndpointSendResult::DroppedBackpressure),
        )
        .unwrap();
    assert_eq!(receipt.packet_hash, [0x44; 32]);
    assert_eq!(outcome, LinkEndpointSendResult::DroppedBackpressure);
    assert!(lm.take_effects().is_empty());
    assert!(matches!(
        lm.finish_best_effort(&LINK, &sealed, None),
        Err(LinkSendError::TransportUnavailable)
    ));
    assert!(lm
        .finish_best_effort(&LINK, &sealed, Some(LinkEndpointSendResult::Sent))
        .is_ok());
    assert!(matches!(
        lm.take_effects()[..],
        [Effect::Transmitted { len: 8, sealed: false, keepalive: false, .. }]
    ));
    assert!(lm
        .finish_best_effort(&LINK, &sealed, Some(LinkEndpointSendResult::NotBound))
        .is_ok());
    assert_eq!(lm.active_link_count(), 0);
}

#[test]
fn responder_close_is_atomic_and_does_not_preempt_teardown_cleanup() {
    let mut lm = manager(8, [0x77; 16]);
    lm.links.insert(LINK, link(12, false));
    own_test_endpoint(&mut lm, LINK);

    assert!(lm.close_link(
        LINK,
        CloseReason::DestinationClosed,
        true,
        Some(vec![0xEE; 32])
    ));
    let Some(TransportMessage::SendLinkEndpointAndUnbind {
        link_id,
        role,
        packet,
        ticket,
    }) = take(&mut lm)
    else {
        panic!("LINKCLOSE and unbind must be one ordered transport operation");
    };
    assert_eq!(link_id, LINK);
    assert_eq!(role, LinkEndpointRole::Responder);
    assert_eq!(packet.header.context, PacketContext::LinkClose);
    assert_eq!(packet.body, vec![0xEE; 32]);
    assert!(
        take(&mut lm).is_none(),
        "atomic close owns unbind and destination cleanup after FIFO drain"
    );

    lm.transport
        .replies
        .send
        .insert(ticket, Some(LinkEndpointSendResult::Queued { depth: 1 }));
    assert!(lm.poll_link_endpoints());
    assert!(lm.transport.sends.is_empty());
    assert!(take(&mut lm).is_none());
}

#[test]
fn rejected_atomic_close_falls_back_to_explicit_cleanup() {
    let mut lm = manager(8, [0x77; 16]);
    lm.links.insert(LINK, link(12, false));
    own_test_endpoint(&mut lm, LINK);

    assert!(lm.close_link(
        LINK,
        CloseReason::DestinationClosed,
        true,
        Some(vec![0xEE; 32])
    ));
    let Some(TransportMessage::SendLinkEndpointAndUnbind { ticket, .. }) = take(&mut lm) else {
        panic!("LINKCLOSE and unbind must be one ordered transport operation");
    };
    lm.transport
        .replies
        .send
        .insert(ticket, Some(LinkEndpointSendResult::NotBound));
    assert!(lm.poll_link_endpoints());
    assert!(lm.transport.sends.is_empty());
    let (_, _, ticket) = unbind_ticket(take(&mut lm));
    answer_unbind(&mut lm, ticket, LinkEndpointUnbindResult::NotBound);
    assert!(lm.poll_link_endpoints());
    assert!(matches!(
        next_transport_message(&mut lm),
        Some(TransportMessage::DeregisterDestination { hash }) if hash == LINK
    ));
}

#[test]
fn shutdown_drains_owned_endpoint_cleanup_after_ingress_backpressure() {
    let mut lm = manager(1, [0x77; 16]);
    assert!(lm
        .transport
        .try_message(TransportMessage::DeregisterDestination { hash: [0; 16] }));
    lm.links.insert(LINK, link(12, false));
    let ownership = own_test_endpoint(&mut lm, LINK);

    lm.close_all_active_links(CloseReason::DestinationClosed);
    assert!(!lm.shutdown_step());
    assert!(matches!(
        take(&mut lm),
        Some(TransportMessage::DeregisterDestination { hash }) if hash == [0; 16]
    ));
    assert!(!lm.shutdown_step());
    let (unbound, role, ticket) = unbind_ticket(take(&mut lm));
    assert_eq!(unbound, LINK);
    assert_eq!(role, LinkEndpointRole::Responder);
    assert!(!lm.shutdown_step());
    assert!(
        take(&mut lm).is_none(),
        "shutdown must await unbind ownership before deregistering"
    );
    lm.transport.lifecycle.push_back(terminal(
        ownership.binding,
        LinkEndpointTerminalReason::Unbound,
    ));
    answer_unbind(&mut lm, ticket, LinkEndpointUnbindResult::Unbound);
    assert!(!lm.shutdown_step());
    assert!(matches!(
        take(&mut lm),
        Some(TransportMessage::DeregisterDestination { hash }) if hash == LINK
    ));
    assert!(!lm.shutdown_step());
    let barrier = barrier_ticket(take(&mut lm));
    lm.transport.replies.barrier.insert(barrier, true);
    assert!(lm.shutdown_step());
}

#[test]
fn shutdown_gives_up_when_the_transport_is_gone() {
    let mut lm = manager(8, [0x77; 16]);
    lm.links.insert(LINK, link(12, false));
    own_test_endpoint(&mut lm, LINK);
    lm.close_all_active_links(CloseReason::DestinationClosed);
    lm.transport.port.closed = true;
    assert!(lm.shutdown_step());
    assert!(lm.transport.cleanups.is_empty());
    assert!(lm.transport.tombstones.is_empty());
    assert!(lm.transport.owned.is_empty());
}

#[test]
fn same_id_local_replay_waits_for_old_cleanup_generation_barrier() {
    let interface_id = u64::MAX - 1;
    let mut lm = manager(1, [0xD7; 16]);
    assert!(lm
        .transport
        .try_message(TransportMessage::DeregisterDestination { hash: [0; 16] }));
    lm.links.insert(LINK, link(interface_id, false));
    let old = own_test_endpoint(&mut lm, LINK);

    assert!(lm.close_link(LINK, CloseReason::DestinationClosed, false, None));
    assert!(!request_link(&mut lm, interface_id));
    assert_eq!(lm.active_link_count(), 0);
    assert!(lm.transport.binds.is_empty());
    assert!(lm.transport.tombstones.contains(&LINK));

    assert!(matches!(
        take(&mut lm),
        Some(TransportMessage::DeregisterDestination { hash }) if hash == [0; 16]
    ));
    lm.transport.flush_pending_link_control();
    let (_, _, ticket) = unbind_ticket(take(&mut lm));
    answer_unbind(&mut lm, ticket, LinkEndpointUnbindResult::Unbound);
    assert!(lm.poll_link_endpoints());
    assert!(matches!(
        take(&mut lm),
        Some(TransportMessage::DeregisterDestination { hash }) if hash == LINK
    ));
    lm.transport.flush_pending_link_control();
    let barrier = barrier_ticket(take(&mut lm));

    lm.transport
        .lifecycle
        .push_back(terminal(old.binding, LinkEndpointTerminalReason::Unbound));
    lm.transport.replies.barrier.insert(barrier, true);
    assert!(lm.poll_link_endpoints());
    assert!(!lm.transport.tombstones.contains(&LINK));

    assert!(request_link(&mut lm, interface_id));
    let (_, ticket) = bind_ticket(take(&mut lm));
    answer_bind(&mut lm, ticket, LinkEndpointBindResult::Bound);
    assert!(lm.poll_link_endpoints());
    assert_eq!(lm.active_link_count(), 1);
    assert_ne!(
        lm.transport.owned.get(&LINK).unwrap().generation,
        old.generation
    );
}

#[test]
fn barrier_ack_waits_for_a_following_lifecycle_drain_before_replay() {
    let interface_id = u64::MAX - 1;
    let mut lm = manager(8, [0xD9; 16]);
    lm.links.insert(LINK, link(interface_id, false));
    let old = own_test_endpoint(&mut lm, LINK);

    assert!(lm.close_link(LINK, CloseReason::DestinationClosed, false, None));
    let (_, _, ticket) = unbind_ticket(take(&mut lm));
    answer_unbind(&mut lm, ticket, LinkEndpointUnbindResult::Unbound);
    assert!(lm.poll_link_endpoints());
    assert!(matches!(
        take(&mut lm),
        Some(TransportMessage::DeregisterDestination { hash }) if hash == LINK
    ));
    let barrier = barrier_ticket(take(&mut lm));

    assert!(!lm.drain_endpoint_lifecycle());
    lm.transport
        .lifecycle
        .push_back(terminal(old.binding, LinkEndpointTerminalReason::Unbound));
    lm.transport.replies.barrier.insert(barrier, true);

    assert!(lm.transport.poll_endpoint_finalizations());
    assert!(lm.transport.tombstones.get(&LINK).unwrap().barrier_acknowledged);
    assert!(!request_link(&mut lm, interface_id));
    assert!(lm.transport.binds.is_empty());
    assert!(take(&mut lm).is_none());

    assert!(lm.drain_endpoint_lifecycle());
    assert!(lm.transport.tombstones.get(&LINK).unwrap().lifecycle_seen);
    assert!(lm.transport.retire_endpoint_tombstones());
    assert!(!lm.transport.tombstones.contains(&LINK));

    assert!(request_link(&mut lm, interface_id));
    let (binding, _) = bind_ticket(take(&mut lm));
    assert_eq!(binding.link_id, LINK);
    assert_eq!(binding.interface_id, interface_id);
}

#[test]
fn atomic_close_tombstones_same_id_until_exact_lifecycle_and_barrier() {
    let mut lm = manager(8, [0xD8; 16]);
    lm.links.insert(LINK, link(44, false));
    let old = own_test_endpoint(&mut lm, LINK);

    assert!(lm.close_link(
        LINK,
        CloseReason::DestinationClosed,
        true,
        Some(vec![0xEE; 32])
    ));
    let Some(TransportMessage::SendLinkEndpointAndUnbind { ticket, .. }) = take(&mut lm) else {
        panic!("expected atomic final send");
    };
    lm.transport
        .replies
        .send
        .insert(ticket, Some(LinkEndpointSendResult::Queued { depth: 1 }));
    assert!(lm.poll_link_endpoints());
    assert!(!request_link(&mut lm, 44));
    assert_eq!(lm.active_link_count(), 0);
    assert!(lm.transport.binds.is_empty());

    lm.handle_endpoint_terminal(terminal(old.binding, LinkEndpointTerminalReason::Unbound));
    let barrier = barrier_ticket(take(&mut lm));
    lm.transport.replies.barrier.insert(barrier, true);
    assert!(lm.poll_link_endpoints());
    assert!(!lm.transport.tombstones.contains(&LINK));

    assert!(request_link(&mut lm, 44));
    let (binding, _) = bind_ticket(take(&mut lm));
    assert_eq!(binding.link_id, LINK);
    assert_eq!(binding.interface_id, 44);
}

#[test]
fn a_live_link_is_not_replaced_by_a_replay() {
    let mut lm = manager(8, [0x77; 16]);
    lm.links.insert(LINK, link(7, false));
    assert!(!request_link(&mut lm, 8));
    assert_eq!(lm.link_interface(&LINK), Some(7));
    assert!(take(&mut lm).is_none());
}

#[test]
fn closing_an_unknown_link_does_nothing() {
    let mut lm = manager(8, [0x77; 16]);
    assert!(!lm.close_link(LINK, CloseReason::Timeout, true, Some(vec![1])));
    assert!(take(&mut lm).is_none());
    lm.links.insert(LINK, link(7, false));
    assert!(lm.close_link(LINK, CloseReason::Timeout, false, None));
    assert!(!lm.close_link(LINK, CloseReason::Timeout, false, None));
}

#[test]
fn generations_skip_zero_when_they_wrap() {
    let mut lm = manager(8, [0x77; 16]);
    lm.transport.next_generation = u64::MAX;
    assert!(request_link(&mut lm, 7));
    assert_eq!(lm.transport.generations.get(&LINK), Some(&u64::MAX));
    assert_eq!(lm.transport.next_generation, 1);
}

#[test]
fn flushing_sends_everything_that_fits() {
    let mut lm = manager(0, [0x77; 16]);
    for i in 0..5 {
        assert!(lm
            .transport
            .stage_required_link_control(TransportMessage::DeregisterDestination { hash: [i; 16] }));
    }
    lm.transport.port.limit = Some(2);
    lm.transport.flush_pending_link_control();
    assert_eq!(lm.transport.control.len(), 3);
    lm.transport.port.limit = None;
    lm.transport.flush_pending_link_control();
    assert!(lm.transport.control.is_empty());
    for i in 0..5 {
        assert!(matches!(
            take(&mut lm),
            Some(TransportMessage::DeregisterDestination { hash }) if hash == [i; 16]
        ));
    }
    lm.transport.port.closed = true;
    assert!(!lm
        .transport
        .stage_required_link_control(TransportMessage::DeregisterDestination { hash: [9; 16] }));
}

#[test]
fn a_dropped_send_closes_its_link() {
    let mut lm = manager(1, [0x77; 16]);
    lm.links.insert(LINK, link(7, true));
    assert!(lm
        .transport
        .try_message(TransportMessage::DeregisterDestination { hash: [0; 16] }));
    let mut removals = Vec::new();
    // There is no room for the keepalive, so nobody will answer it.
    lm.tick_link_timer(&LINK, LinkAction::SendKeepalive, &mut removals);
    assert_eq!(lm.transport.sends.len(), 1);
    assert!(lm.poll_link_endpoints());
    assert_eq!(lm.active_link_count(), 0);
}

#[test]
fn only_a_signing_manager_identifies_itself() {
    let sealed = || {
        Some(SealedPacket {
            body: vec![1; 128],
            packet_hash: [0x0A; 32],
        })
    };
    let mut without = manager(8, [0x77; 16]);
    without.links.insert(LINK, link(7, true));
    assert!(matches!(
        without.send_link_identify(&LINK, sealed()),
        Err(LinkSendError::IdentityUnavailable)
    ));
    let mut lm = owning_manager([0x6A; 16]);
    assert!(matches!(
        lm.send_link_identify(&LINK, sealed()),
        Err(LinkSendError::LinkNotFound)
    ));
    lm.links.insert(LINK, link(7, true));
    assert!(matches!(
        lm.send_link_identify(&LINK, None),
        Err(LinkSendError::IdentificationUnavailable)
    ));
    let receipt = lm.send_link_identify(&LINK, sealed()).unwrap();
    assert_eq!(receipt.packet_hash, [0x0A; 32]);
    assert!(matches!(
        take(&mut lm),
        Some(TransportMessage::SendLinkEndpoint { role: LinkEndpointRole::Initiator, packet, .. })
            if packet.header.context == PacketContext::LinkIdentify
    ));

    // A responder does not reveal itself.
    lm.links.insert(LINK, link(7, false));
    assert!(matches!(
        lm.send_link_identify(&LINK, sealed()),
        Err(LinkSendError::IdentificationUnavailable)
    ));
    assert!(take(&mut lm).is_none());
}

#[test]
fn a_link_stays_on_its_interface_and_in_its_role() {
    let mut lm = manager(16, [0xAB; 16]);
    lm.links.insert([0x01; 16], link(7, false));
    lm.links.insert([0x02; 16], link(8, true));

    // Neither another Link's end nor a new Link nor a strategy moves a Link.
    assert!(lm.drop_active_link([0x01; 16], CloseReason::Timeout));
    assert!(request_link(&mut lm, 9));
    lm.set_resource_strategy(ResourceStrategy::AcceptNone);
    lm.attend();
    assert_eq!(lm.link_ids(), vec![[0x02; 16], LINK]);
    assert_eq!(lm.link_interface(&[0x02; 16]), Some(8));
    assert!(lm.get_link(&[0x02; 16]).unwrap().is_initiator);

    // A second request under the id leaves the Link where it is.
    assert!(!request_link(&mut lm, 10));
    assert_eq!(lm.active_link_count(), 2);
    assert_eq!(lm.link_interface(&LINK), Some(9));
}

#[test]
fn dropping_every_link_leaves_none() {
    let mut lm = manager(16, [0xAB; 16]);
    for id in 1..=3u8 {
        lm.links.insert([id; 16], link(7, false));
        own_test_endpoint(&mut lm, [id; 16]);
    }
    lm.close_all_active_links(CloseReason::DestinationClosed);
    assert_eq!(lm.active_link_count(), 0);
    assert_eq!(lm.take_effects().len(), 3);

    // What the endpoints still owe is given up once the transport is gone.
    lm.transport.port.closed = true;
    assert!(lm.shutdown_step());
    assert!(lm.transport.cleanups.is_empty());
    assert!(lm.transport.control.is_empty());
    assert!(lm.transport.tombstones.is_empty());
}
