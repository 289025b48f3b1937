//! Packets on Links: what activates, identifies, keeps alive, proves and carries data.

use rns_runtime::events::{LinkManagerAccountingEvent, LinkResponse};
use rns_runtime::link::{CloseReason, Link, LinkState, ResourceStrategy};
use rns_runtime::manager::{Effect, LinkManager, ProtocolConstants};
use rns_runtime::packets::{FollowUp, OfferInput, PacketInput, PacketRoute, ParsedRequest};
use rns_runtime::port::Port;
use rns_runtime::sending::{
    ChannelError, ChannelSendError, LinkSendError, PreparedMessage, SealedPacket,
};
use rns_runtime::transport::MAX_PENDING_LINK_CONTROL;
use rns_runtime::wire::{
    make_header, DestinationType, LinkEndpointSendResult, Packet, PacketContext, PacketHeader,
    PacketType, TransportMessage,
};

const LINK: [u8; 16] = [0x51; 16];
const TEST_CHANNEL_MSG_TYPE: u16 = 0x1234;

fn constants() -> ProtocolConstants {
    ProtocolConstants {
        max_segments: 4096,
        max_efficient_size: 1_048_575,
        map_hash_len: 4,
        hashmap_is_exhausted: 0xFF,
        keepalive_request: 0xFF,
        keepalive_response: 0xFE,
        system_message_type_min: 0xF000,
    }
}

fn manager(limit: usize, destination_hash: [u8; 16]) -> LinkManager {
    LinkManager::new(Port::bounded(limit), destination_hash, true, constants())
}

fn link(state: LinkState, is_initiator: bool) -> Link {
    Link {
        state,
        is_initiator,
        interface_id: 1,
        mdu: 431,
        has_session_keys: true,
        identified: false,
        remote_identity: None,
        resource_strategy: ResourceStrategy::AcceptAll,
        expected_hops: None,
        has_channel: false,
    }
}

/// The next packet that went to the transport for a Link.
fn next_packet(manager: &mut LinkManager) -> Option<Packet<Vec<u8>>> {
    if manager.transport.port.sent.is_empty() {
        return None;
    }
    match manager.transport.port.sent.remove(0) {
        TransportMessage::SendLinkEndpoint { packet, ticket, .. } => {
            manager
                .transport
                .replies
                .send
                .insert(ticket, Some(LinkEndpointSendResult::Sent));
            Some(packet)
        }
        other => panic!("expected a Link packet, got {other:?}"),
    }
}

fn data_header(context: PacketContext) -> PacketHeader {
    make_header(DestinationType::Link, PacketType::Data, LINK, context)
}

fn proof_header() -> PacketHeader {
    make_header(
        DestinationType::Link,
        PacketType::Proof,
        LINK,
        PacketContext::Data,
    )
}

/// A delivery proof: the hash of the packet and a signature.
fn delivery_proof(packet_hash: [u8; 32]) -> Vec<u8> {
    let mut data = packet_hash.to_vec();
    data.extend_from_slice(&[0x99; 64]);
    data
}

fn message(sequence: u16, packet_hash: [u8; 32]) -> Result<PreparedMessage, ChannelError> {
    Ok(PreparedMessage {
        body: vec![0x3C; 48],
        sequence,
        packet_hash,
    })
}

fn traffic(manager: &mut LinkManager) -> Vec<usize> {
    manager
        .take_effects()
        .iter()
        .map(|effect| match effect {
            Effect::Transmitted { len, .. } => *len,
            other => panic!("expected a sent packet, got {other:?}"),
        })
        .collect()
}

#[test]
fn test_link_manager_creation() {
    let lm = LinkManager::new(Port::bounded(16), [0xAA; 16], false, constants());
    assert_eq!(lm.active_link_count(), 0);
    assert_eq!(lm.settings.resource_strategy, ResourceStrategy::AcceptAll);
}

#[test]
fn channel_message_registration_is_bounded_to_user_types_and_idempotent() {
    let mut lm = manager(1, [0xA1; 16]);
    lm.register_channel_message_type(0xAC05).unwrap();
    lm.register_channel_message_type(0xAC05).unwrap();
    assert_eq!(lm.channel_message_types, vec![0xAC05]);
    assert!(matches!(
        lm.register_channel_message_type(0xF000),
        Err(ChannelError::InvalidMessageType(0xF000))
    ));
    assert_eq!(lm.channel_message_types, vec![0xAC05]);
}

#[test]
fn responder_suppresses_redundant_keepalive_after_recent_outbound() {
    let mut lm = manager(16, [0xA1; 16]);
    lm.links.insert(LINK, link(LinkState::Active, false));
    let header = data_header(PacketContext::Keepalive);

    let _ = lm.handle_inbound_packet(
        &header,
        1,
        PacketInput::Keepalive {
            data: vec![0xFF],
            respond: false,
        },
    );
    assert!(
        next_packet(&mut lm).is_none(),
        "recent responder traffic must suppress a duplicate keepalive response"
    );

    let _ = lm.handle_inbound_packet(
        &header,
        1,
        PacketInput::Keepalive {
            data: vec![0xFF],
            respond: true,
        },
    );
    let packet = next_packet(&mut lm).unwrap();
    assert_eq!(packet.header.destination_hash, LINK);
    assert_eq!(packet.header.context, PacketContext::Keepalive);
    assert_eq!(packet.body.last(), Some(&0xFE));
    assert!(!packet.seal);
    assert!(matches!(
        lm.take_effects()[..],
        [Effect::Transmitted {
            len: 1,
            sealed: false,
            keepalive: true,
            ..
        }]
    ));
    assert!(lm.take_effects().is_empty());
}

#[test]
fn keepalive_answers_and_initiators_are_not_answered() {
    let mut lm = manager(16, [0xA1; 16]);
    let header = data_header(PacketContext::Keepalive);
    lm.links.insert(LINK, link(LinkState::Active, false));
    for data in [vec![0xFE], vec![]] {
        let _ = lm.handle_inbound_packet(
            &header,
            1,
            PacketInput::Keepalive {
                data,
                respond: true,
            },
        );
    }
    lm.links.insert(LINK, link(LinkState::Active, true));
    let _ = lm.handle_inbound_packet(
        &header,
        1,
        PacketInput::Keepalive {
            data: vec![0xFF],
            respond: true,
        },
    );
    assert!(next_packet(&mut lm).is_none());
}

#[test]
fn link_established_channel_fires_when_responder_activates() {
    let mut lm = manager(16, [0x35; 16]);
    lm.set_link_established_channel(Port::bounded(1));
    lm.links.insert(LINK, link(LinkState::Handshake, false));

    let follow_up = lm.handle_inbound_packet(
        &data_header(PacketContext::Lrrtt),
        1,
        PacketInput::Lrrtt { accepted: true },
    );

    assert!(matches!(follow_up, FollowUp::Activated));
    assert_eq!(
        lm.notices.link_established.as_ref().unwrap().sent,
        vec![LINK]
    );
    assert_eq!(lm.get_link(&LINK).unwrap().state, LinkState::Active);
}

#[test]
fn lrrtt_activation_sets_expected_hops_on_destination_side() {
    let mut lm = manager(16, [0x37; 16]);
    lm.links.insert(LINK, link(LinkState::Handshake, false));
    assert_eq!(lm.get_link(&LINK).unwrap().expected_hops, None);

    let mut header = data_header(PacketContext::Lrrtt);
    header.hops = 3;
    let _ = lm.handle_inbound_packet(&header, 1, PacketInput::Lrrtt { accepted: true });

    let activated = lm.get_link(&LINK).unwrap();
    assert_eq!(activated.state, LinkState::Active);
    assert_eq!(activated.expected_hops, Some(4));
}

#[test]
fn hop_counts_do_not_wrap() {
    let mut lm = manager(16, [0x37; 16]);
    lm.links.insert(LINK, link(LinkState::Handshake, false));
    let mut header = data_header(PacketContext::Lrrtt);
    header.hops = 255;
    let _ = lm.handle_inbound_packet(&header, 1, PacketInput::Lrrtt { accepted: true });
    assert_eq!(lm.get_link(&LINK).unwrap().expected_hops, Some(255));
}

#[test]
fn a_round_trip_time_that_does_not_verify_activates_nothing() {
    let mut lm = manager(16, [0x37; 16]);
    lm.set_link_established_channel(Port::bounded(1));
    lm.links.insert(LINK, link(LinkState::Handshake, false));
    let follow_up = lm.handle_inbound_packet(
        &data_header(PacketContext::Lrrtt),
        1,
        PacketInput::Lrrtt { accepted: false },
    );
    assert!(matches!(follow_up, FollowUp::Nothing));
    assert_eq!(lm.get_link(&LINK).unwrap().state, LinkState::Handshake);
    assert!(lm.notices.link_established.as_ref().unwrap().sent.is_empty());
}

#[test]
fn the_first_identity_stays() {
    let mut lm = manager(16, [0x38; 16]);
    lm.set_link_identified_channel(Port::bounded(4));
    lm.links.insert(LINK, link(LinkState::Active, false));
    let header = data_header(PacketContext::LinkIdentify);

    let first = lm.handle_inbound_packet(
        &header,
        1,
        PacketInput::Identify {
            identity: Some([0xA0; 16]),
            gate_accepts: true,
            teardown: None,
        },
    );
    assert!(matches!(first, FollowUp::Identified));
    let second = lm.handle_inbound_packet(
        &header,
        1,
        PacketInput::Identify {
            identity: Some([0xB0; 16]),
            gate_accepts: true,
            teardown: None,
        },
    );
    assert!(matches!(second, FollowUp::Nothing));

    assert_eq!(
        lm.get_link(&LINK).unwrap().remote_identity,
        Some([0xA0; 16])
    );
    assert_eq!(lm.get_backchannel_link(&[0xA0; 16]), Some(LINK));
    assert_eq!(lm.get_backchannel_link(&[0xB0; 16]), None);
    assert_eq!(
        lm.link_identities_handle().get(&LINK),
        Some(&[0xA0; 16])
    );
    assert_eq!(
        lm.notices.link_identified.as_ref().unwrap().sent,
        vec![(LINK, [0xA0; 16])]
    );
}

#[test]
fn a_refused_identity_closes_the_link() {
    let mut lm = manager(16, [0x38; 16]);
    lm.set_link_identity_gate();
    lm.set_link_closed_channel(Port::bounded(4));
    lm.links.insert(LINK, link(LinkState::Active, false));
    let _ = lm.handle_inbound_packet(
        &data_header(PacketContext::LinkIdentify),
        1,
        PacketInput::Identify {
            identity: Some([0xA0; 16]),
            gate_accepts: false,
            teardown: Some(vec![0xEE; 16]),
        },
    );
    assert_eq!(lm.active_link_count(), 0);
    assert_eq!(lm.get_backchannel_link(&[0xA0; 16]), None);
    assert_eq!(lm.notices.link_closed.as_ref().unwrap().sent, vec![LINK]);
    assert!(matches!(
        lm.take_effects().last(),
        Some(Effect::Closed {
            reason: CloseReason::InitiatorClosed,
            ..
        })
    ));
}

#[test]
fn channel_packet_is_proved_and_dispatched() {
    let packet_hash = [0x21; 32];
    let mut lm = manager(16, [0xBB; 16]);
    lm.set_channel_message_channel(Port::bounded(4));
    let mut receiver = link(LinkState::Active, false);
    receiver.has_channel = true;
    lm.links.insert(LINK, receiver);

    let follow_up = lm.handle_inbound_packet(
        &data_header(PacketContext::Channel),
        1,
        PacketInput::Channel {
            proof: Some(delivery_proof(packet_hash)),
            registered: true,
        },
    );
    assert!(matches!(follow_up, FollowUp::ChannelData));
    lm.deliver_channel_messages(LINK, vec![(TEST_CHANNEL_MSG_TYPE, vec![])]);

    let delivered = &lm.notices.channel_message.as_ref().unwrap().sent[0];
    assert_eq!(delivered.link_id, LINK);
    assert_eq!(delivered.msg_type, TEST_CHANNEL_MSG_TYPE);
    assert!(delivered.payload.is_empty());

    let proof = next_packet(&mut lm).unwrap();
    assert_eq!(proof.header.destination_hash, LINK);
    assert_eq!(proof.header.flags.packet_type, PacketType::Proof);
    assert_eq!(proof.header.context, PacketContext::Data);
    assert_eq!(&proof.body[..32], &packet_hash);
}

#[test]
fn backend_identity_signs_channel_packet_delivery_proof() {
    let mut lm = LinkManager::with_destination(
        Port::bounded(16),
        Some([0x61; 16]),
        false,
        true,
        false,
        constants(),
    );
    lm.set_channel_message_channel(Port::bounded(4));
    let mut receiver = link(LinkState::Active, false);
    receiver.has_channel = true;
    lm.links.insert(LINK, receiver);

    assert!(lm.identity_proves_packet(&LINK, true));
    assert!(!lm.identity_proves_packet(&LINK, false));
    let follow_up = lm.handle_inbound_packet(
        &data_header(PacketContext::Channel),
        1,
        PacketInput::Channel {
            proof: Some(delivery_proof([0x22; 32])),
            registered: true,
        },
    );
    assert!(matches!(follow_up, FollowUp::ChannelData));
    lm.deliver_channel_messages(LINK, vec![(TEST_CHANNEL_MSG_TYPE, vec![])]);
    assert_eq!(
        lm.notices.channel_message.as_ref().unwrap().sent[0].msg_type,
        TEST_CHANNEL_MSG_TYPE
    );
    assert_eq!(
        next_packet(&mut lm).unwrap().body,
        delivery_proof([0x22; 32])
    );
}

#[test]
fn unavailable_backend_withholds_channel_proof_and_plaintext() {
    let mut lm = LinkManager::with_destination(
        Port::bounded(16),
        Some([0x61; 16]),
        false,
        true,
        false,
        constants(),
    );
    lm.set_channel_message_channel(Port::bounded(4));
    let mut receiver = link(LinkState::Active, false);
    receiver.has_channel = true;
    lm.links.insert(LINK, receiver);

    let follow_up = lm.handle_inbound_packet(
        &data_header(PacketContext::Channel),
        1,
        PacketInput::Channel {
            proof: None,
            registered: true,
        },
    );
    assert!(matches!(follow_up, FollowUp::Nothing));
    assert!(next_packet(&mut lm).is_none());
    assert!(lm.notices.channel_message.as_ref().unwrap().sent.is_empty());
}

#[test]
fn channel_echo_round_trip_counts_matching_tx_rx_bytes() {
    let mut lm_a = manager(16, [0xA1; 16]);
    lm_a.links.insert(LINK, link(LinkState::Active, true));
    let mut lm_b = manager(16, [0xB1; 16]);
    lm_b.links.insert(LINK, link(LinkState::Active, false));
    assert!(lm_a.get_channel(&LINK, true));
    assert!(lm_b.get_channel(&LINK, true));
    let _ = (lm_a.take_effects(), lm_b.take_effects());

    let received = |lm: &LinkManager, packet: &Packet<Vec<u8>>| -> usize {
        if lm.route_packet(&packet.header, 1).accounting().received {
            packet.body.len()
        } else {
            0
        }
    };

    // A -> B channel data; B proves it back.
    lm_a.send_channel_message(&LINK, true, message(0, [0x01; 32]))
        .unwrap();
    let data_ab = next_packet(&mut lm_a).unwrap();
    let mut b_rx = received(&lm_b, &data_ab);
    let _ = lm_b.handle_inbound_packet(
        &data_ab.header,
        1,
        PacketInput::Channel {
            proof: Some(delivery_proof([0x01; 32])),
            registered: true,
        },
    );
    let proof_b = next_packet(&mut lm_b).unwrap();
    let mut a_rx = received(&lm_a, &proof_b);
    assert_eq!(
        lm_a.route_packet(&proof_b.header, 1),
        PacketRoute::PacketProof
    );

    // B -> A echo; A proves it back.
    lm_b.send_channel_message(&LINK, true, message(0, [0x02; 32]))
        .unwrap();
    let data_ba = next_packet(&mut lm_b).unwrap();
    a_rx += received(&lm_a, &data_ba);
    let _ = lm_a.handle_inbound_packet(
        &data_ba.header,
        1,
        PacketInput::Channel {
            proof: Some(delivery_proof([0x02; 32])),
            registered: true,
        },
    );
    let proof_a = next_packet(&mut lm_a).unwrap();
    b_rx += received(&lm_b, &proof_a);

    let a_sent = traffic(&mut lm_a);
    let b_sent = traffic(&mut lm_b);
    let a_tx: usize = a_sent.iter().sum();
    let b_tx: usize = b_sent.iter().sum();
    assert_eq!(a_tx, data_ab.body.len() + proof_a.body.len());
    assert_eq!(b_tx, data_ba.body.len() + proof_b.body.len());
    assert_eq!(a_rx, data_ba.body.len());
    assert_eq!(b_rx, data_ab.body.len());
    assert_eq!(a_tx - proof_a.body.len(), b_rx);
    assert_eq!(b_tx - proof_b.body.len(), a_rx);
    assert_eq!(a_sent.len(), 2);
    assert_eq!(b_sent.len(), 2);
}

#[test]
fn backend_identity_signs_link_packet_delivery_proof() {
    let packet_hash = [0x23; 32];
    let mut lm = LinkManager::with_destination(
        Port::bounded(16),
        Some([0x61; 16]),
        false,
        true,
        false,
        constants(),
    );
    lm.links.insert(LINK, link(LinkState::Active, false));
    assert!(lm.identity_proves_packet(&LINK, true));

    let _ = lm.handle_inbound_packet(
        &data_header(PacketContext::Data),
        1,
        PacketInput::Data {
            plaintext: Some(b"link payload".to_vec()),
            proof: Some(delivery_proof(packet_hash)),
        },
    );

    let proof = next_packet(&mut lm).unwrap();
    assert_eq!(proof.header.destination_hash, LINK);
    assert_eq!(proof.header.flags.packet_type, PacketType::Proof);
    assert_eq!(proof.header.context, PacketContext::LinkProof);
    assert_eq!(&proof.body[..32], &packet_hash);
}

#[test]
fn responder_handshake_data_is_proved_before_local_delivery() {
    let packet_hash = [0x24; 32];
    let mut lm = manager(4, [0xB7; 16]);
    lm.set_link_packet_channel(Port::unbounded());
    lm.links.insert(LINK, link(LinkState::Handshake, false));

    let follow_up = lm.handle_inbound_packet(
        &data_header(PacketContext::Data),
        1,
        PacketInput::Data {
            plaintext: Some(b"early application data".to_vec()),
            proof: Some(delivery_proof(packet_hash)),
        },
    );

    assert!(matches!(follow_up, FollowUp::Published));
    assert_eq!(
        next_packet(&mut lm).unwrap().body,
        delivery_proof(packet_hash)
    );
    assert_eq!(
        lm.notices.link_packet.as_ref().unwrap().sent,
        vec![(b"early application data".to_vec(), LINK)]
    );
    assert_eq!(lm.get_link(&LINK).unwrap().state, LinkState::Handshake);
}

#[test]
fn link_packet_delivery_proof_survives_full_transport_ingress() {
    let packet_hash = [0x25; 32];
    let mut lm = manager(1, [0xBB; 16]);
    assert!(lm
        .transport
        .try_message(TransportMessage::DeregisterDestination { hash: [0xF0; 16] }));
    lm.set_link_packet_channel(Port::unbounded());
    lm.links.insert(LINK, link(LinkState::Active, false));

    let _ = lm.handle_inbound_packet(
        &data_header(PacketContext::Data),
        1,
        PacketInput::Data {
            plaintext: Some(b"delivered before proof staging".to_vec()),
            proof: Some(delivery_proof(packet_hash)),
        },
    );

    assert_eq!(
        lm.notices.link_packet.as_ref().unwrap().sent,
        vec![(b"delivered before proof staging".to_vec(), LINK)]
    );
    assert_eq!(lm.transport.control.len(), 1);
    assert!(matches!(
        lm.transport.port.drain()[..],
        [TransportMessage::DeregisterDestination { hash }] if hash == [0xF0; 16]
    ));

    lm.transport.flush_pending_link_control();

    let proof = next_packet(&mut lm).unwrap();
    assert_eq!(proof.header.destination_hash, LINK);
    assert_eq!(proof.header.flags.packet_type, PacketType::Proof);
    assert_eq!(proof.header.context, PacketContext::LinkProof);
    assert_eq!(&proof.body[..32], &packet_hash);
    assert!(lm.transport.control.is_empty());
}

#[test]
fn link_control_staging_is_bounded() {
    let mut lm = manager(1, [0xBB; 16]);
    assert!(lm
        .transport
        .try_message(TransportMessage::DeregisterDestination { hash: [0xF2; 16] }));
    for index in 0..MAX_PENDING_LINK_CONTROL {
        let mut hash = [0xA0; 16];
        hash[0] = index as u8;
        assert!(lm
            .transport
            .stage_link_control(TransportMessage::DeregisterDestination { hash }));
    }
    assert_eq!(lm.transport.control.len(), MAX_PENDING_LINK_CONTROL);
    assert!(!lm
        .transport
        .stage_link_control(TransportMessage::DeregisterDestination { hash: [0xFF; 16] }));
    assert_eq!(lm.transport.control.len(), MAX_PENDING_LINK_CONTROL);
}

#[test]
fn channel_packet_without_open_channel_is_dropped() {
    let mut lm = manager(16, [0xBD; 16]);
    lm.set_channel_message_channel(Port::bounded(4));
    lm.links.insert(LINK, link(LinkState::Active, false));

    let follow_up = lm.handle_inbound_packet(
        &data_header(PacketContext::Channel),
        1,
        PacketInput::Channel {
            proof: Some(delivery_proof([0x26; 32])),
            registered: true,
        },
    );

    assert!(matches!(follow_up, FollowUp::Nothing));
    assert!(next_packet(&mut lm).is_none());
    assert!(!lm.get_link(&LINK).unwrap().has_channel);
}

#[test]
fn registered_message_types_open_the_channel() {
    let mut lm = manager(16, [0xBD; 16]);
    lm.register_channel_message_type(TEST_CHANNEL_MSG_TYPE)
        .unwrap();
    lm.links.insert(LINK, link(LinkState::Active, false));
    let follow_up = lm.handle_inbound_packet(
        &data_header(PacketContext::Channel),
        1,
        PacketInput::Channel {
            proof: Some(delivery_proof([0x26; 32])),
            registered: true,
        },
    );
    assert!(matches!(follow_up, FollowUp::ChannelData));
    assert!(lm.get_link(&LINK).unwrap().has_channel);
}

#[test]
fn channel_packet_before_active_link_is_not_proved_or_dispatched() {
    let mut lm = manager(16, [0xBE; 16]);
    lm.set_channel_message_channel(Port::bounded(4));
    let mut receiver = link(LinkState::Handshake, false);
    receiver.has_channel = true;
    lm.links.insert(LINK, receiver);

    let follow_up = lm.handle_inbound_packet(
        &data_header(PacketContext::Channel),
        1,
        PacketInput::Channel {
            proof: Some(delivery_proof([0x27; 32])),
            registered: true,
        },
    );

    assert!(matches!(follow_up, FollowUp::Nothing));
    assert!(lm.notices.channel_message.as_ref().unwrap().sent.is_empty());
    assert!(next_packet(&mut lm).is_none());
    assert!(lm.get_link(&LINK).unwrap().has_channel);
}

#[test]
fn link_packet_proof_marks_channel_sequence_delivered() {
    let mut lm = manager(16, [0xBC; 16]);
    lm.set_link_packet_proof_channel(Port::bounded(4));
    lm.links.insert(LINK, link(LinkState::Active, true));

    let receipt = lm
        .send_channel_message(&LINK, true, message(0, [0x28; 32]))
        .unwrap();
    assert_eq!(receipt.sequence, 0);
    assert_eq!(receipt.packet_hash, [0x28; 32]);
    let sent = next_packet(&mut lm).unwrap();
    assert_eq!(sent.header.context, PacketContext::Channel);

    // The channel takes the proof of its own packet: it is no plain packet's proof, and
    // the Link's keepalive records it.
    let _ = lm.take_effects();
    let _ = lm.handle_inbound_packet(
        &proof_header(),
        1,
        PacketInput::PacketProof {
            data: delivery_proof(receipt.packet_hash),
            valid: true,
            matches_channel: true,
        },
    );
    assert!(matches!(
        lm.take_effects()[..],
        [Effect::ProofRecorded { link_id: LINK }]
    ));
    assert!(lm
        .notices
        .link_packet_proof
        .as_ref()
        .unwrap()
        .sent
        .is_empty());
}

#[test]
fn a_short_or_invalid_proof_of_a_channel_packet_is_not_recorded() {
    let mut lm = manager(16, [0xBC; 16]);
    lm.links.insert(LINK, link(LinkState::Active, true));
    for (data, valid) in [
        (delivery_proof([0x28; 32])[..95].to_vec(), true),
        (delivery_proof([0x28; 32]), false),
    ] {
        let _ = lm.handle_inbound_packet(
            &proof_header(),
            1,
            PacketInput::PacketProof {
                data,
                valid,
                matches_channel: true,
            },
        );
    }
    assert!(lm.take_effects().is_empty());
}

#[test]
fn open_channels_take_new_message_types() {
    let mut lm = manager(16, [0xBC; 16]);
    lm.links.insert(LINK, link(LinkState::Active, true));
    let mut open = link(LinkState::Active, true);
    open.has_channel = true;
    lm.links.insert([0x02; 16], open);
    assert!(lm.register_channel_message_type(0x1234).is_ok());
    assert!(lm.register_channel_message_type(0x1234).is_ok());
    assert_eq!(lm.channel_message_types, vec![0x1234]);
    assert!(lm.register_channel_message_type(0xF000).is_err());
    let effects = lm.take_effects();
    assert_eq!(effects.len(), 2);
    for effect in effects {
        assert!(matches!(
            effect,
            Effect::ChannelTypeAdded { link_id, message_type: 0x1234 } if link_id == [0x02; 16]
        ));
    }
}

#[test]
fn channel_messages_need_a_usable_link_and_keys() {
    let mut lm = manager(1, [0xBC; 16]);
    assert!(matches!(
        lm.send_channel_message(&LINK, true, message(0, [0x28; 32])),
        Err(ChannelSendError::LinkNotFound)
    ));
    lm.links.insert(LINK, link(LinkState::Handshake, false));
    assert!(matches!(
        lm.send_channel_message(&LINK, true, message(0, [0x28; 32])),
        Err(ChannelSendError::LinkNotActive)
    ));
    let mut keyless = link(LinkState::Active, false);
    keyless.has_session_keys = false;
    lm.links.insert(LINK, keyless);
    assert!(matches!(
        lm.send_channel_message(&LINK, true, message(0, [0x28; 32])),
        Err(ChannelSendError::NoSessionKeys)
    ));
    lm.links.insert(LINK, link(LinkState::Active, false));
    assert!(matches!(
        lm.send_channel_message(&LINK, true, Err(ChannelError::MaxRetriesExceeded)),
        Err(ChannelSendError::Channel(ChannelError::MaxRetriesExceeded))
    ));
    assert!(lm
        .send_channel_message(&LINK, true, message(0, [0x28; 32]))
        .is_ok());
    assert!(matches!(
        lm.send_channel_message(&LINK, true, message(1, [0x29; 32])),
        Err(ChannelSendError::TransportUnavailable)
    ));
}

#[test]
fn send_link_packet_emits_plain_link_data_and_proof_event() {
    let mut lm = manager(16, [0xC1; 16]);
    lm.set_link_packet_proof_channel(Port::bounded(4));
    lm.set_accounting_event_channel(Port::unbounded());
    lm.links.insert(LINK, link(LinkState::Active, false));

    let receipt = lm
        .send_link_packet(
            &LINK,
            Some(SealedPacket {
                body: b"backchannel payload".to_vec(),
                packet_hash: [0x2A; 32],
            }),
        )
        .unwrap();
    let sent = next_packet(&mut lm).unwrap();
    assert_eq!(sent.header.context, PacketContext::Data);
    assert_eq!(sent.header.destination_hash, LINK);
    assert_eq!(receipt.packet_hash, [0x2A; 32]);
    assert_eq!(sent.body, b"backchannel payload");

    let _ = lm.handle_inbound_packet(
        &proof_header(),
        1,
        PacketInput::PacketProof {
            data: delivery_proof(receipt.packet_hash),
            valid: true,
            matches_channel: false,
        },
    );

    let proofs = lm.notices.link_packet_proof.as_mut().unwrap().drain();
    assert_eq!(proofs.len(), 1);
    assert_eq!(proofs[0].link_id, LINK);
    assert_eq!(proofs[0].packet_hash, receipt.packet_hash);
    assert!(matches!(
        lm.notices.accounting.as_mut().unwrap().drain()[..],
        [LinkManagerAccountingEvent::LinkPacketProof(proof)]
            if proof.link_id == LINK && proof.packet_hash == receipt.packet_hash
    ));
}

#[test]
fn a_short_or_invalid_proof_proves_nothing() {
    let mut lm = manager(16, [0xC1; 16]);
    lm.set_accounting_event_channel(Port::unbounded());
    lm.links.insert(LINK, link(LinkState::Active, false));
    for (data, valid) in [
        (vec![0x2A; 95], true),
        (delivery_proof([0x2A; 32]), false),
    ] {
        let _ = lm.handle_inbound_packet(
            &proof_header(),
            1,
            PacketInput::PacketProof {
                data,
                valid,
                matches_channel: false,
            },
        );
    }
    assert!(lm.notices.accounting.as_ref().unwrap().sent.is_empty());
}

#[test]
fn link_packets_need_a_usable_link_a_seal_and_room() {
    let sealed = || {
        Some(SealedPacket {
            body: vec![1, 2, 3],
            packet_hash: [0x2B; 32],
        })
    };
    let mut lm = manager(1, [0xC1; 16]);
    assert!(matches!(
        lm.send_link_packet(&LINK, sealed()),
        Err(LinkSendError::LinkNotFound)
    ));
    lm.links.insert(LINK, link(LinkState::Handshake, false));
    assert!(matches!(
        lm.send_link_packet(&LINK, sealed()),
        Err(LinkSendError::LinkNotActive)
    ));
    lm.links.insert(LINK, link(LinkState::Active, false));
    assert!(matches!(
        lm.send_link_packet(&LINK, None),
        Err(LinkSendError::NoSessionKeys)
    ));
    assert!(lm.send_link_packet(&LINK, sealed()).is_ok());
    assert!(matches!(
        lm.send_link_packet(&LINK, sealed()),
        Err(LinkSendError::TransportUnavailable)
    ));
}

#[test]
fn inbound_link_data_is_published_only_while_its_proof_is_retained() {
    let mut lm = manager(8, [0xC4; 16]);
    lm.set_link_packet_channel(Port::unbounded());
    lm.links.insert(LINK, link(LinkState::Active, false));
    let header = data_header(PacketContext::Data);

    for i in 0..300u16 {
        let _ = lm.handle_inbound_packet(
            &header,
            1,
            PacketInput::Data {
                plaintext: Some(i.to_be_bytes().to_vec()),
                proof: Some(delivery_proof([0x2C; 32])),
            },
        );
    }

    let retained = 8 + MAX_PENDING_LINK_CONTROL;
    let delivered = lm.notices.link_packet.as_mut().unwrap().drain();
    assert_eq!(delivered.len(), retained);
    for (i, (payload, from)) in delivered.iter().enumerate() {
        assert_eq!(*from, LINK);
        assert_eq!(*payload, (i as u16).to_be_bytes());
    }
}

#[test]
fn unmatched_valid_link_packet_proof_does_not_record_keepalive_proof() {
    let mut lm = manager(16, [0xBF; 16]);
    lm.links.insert(LINK, link(LinkState::Active, true));
    let _ = lm.handle_inbound_packet(
        &proof_header(),
        1,
        PacketInput::PacketProof {
            data: delivery_proof([0x5A; 32]),
            valid: true,
            matches_channel: false,
        },
    );
    assert!(
        lm.take_effects().is_empty(),
        "the Link's own machinery learns nothing of an unmatched proof"
    );
}

#[test]
fn test_unparseable_advertisement_tears_down_link() {
    let mut lm = manager(64, [0xCC; 16]);
    lm.links.insert(LINK, link(LinkState::Active, false));
    let _ = lm.handle_inbound_packet(
        &data_header(PacketContext::ResourceAdv),
        1,
        PacketInput::Advertisement(OfferInput::Malformed {
            teardown: Some(vec![0xEE; 16]),
        }),
    );
    assert!(
        lm.get_link(&LINK).is_none(),
        "unparseable advertisement must tear the link down"
    );
}

#[test]
fn an_advertisement_that_does_not_decrypt_changes_nothing() {
    let mut lm = manager(64, [0xCC; 16]);
    lm.links.insert(LINK, link(LinkState::Active, false));
    let _ = lm.handle_inbound_packet(
        &data_header(PacketContext::ResourceAdv),
        1,
        PacketInput::Advertisement(OfferInput::Sealed),
    );
    assert_eq!(lm.active_link_count(), 1);
    assert!(next_packet(&mut lm).is_none());
}

#[test]
fn requests_are_handed_on_and_responses_published() {
    let mut lm = manager(64, [0xCC; 16]);
    lm.set_response_channel(Port::bounded(2));
    lm.links.insert(LINK, link(LinkState::Active, false));
    let follow_up = lm.handle_inbound_packet(
        &data_header(PacketContext::Request),
        1,
        PacketInput::Request {
            parsed: Some(ParsedRequest {
                request_id: [1; 16],
                path_hash: [2; 16],
                requested_at: 7,
                data: vec![3],
            }),
        },
    );
    assert!(matches!(follow_up, FollowUp::Dispatch(request) if request.path_hash == [2; 16]));
    let _ = lm.handle_inbound_packet(
        &data_header(PacketContext::Response),
        1,
        PacketInput::Response {
            response: Some(([1; 16], vec![4, 5])),
        },
    );
    assert!(matches!(
        &lm.notices.response.as_ref().unwrap().sent[..],
        [LinkResponse { link_id, request_id, data }]
            if *link_id == LINK && *request_id == [1; 16] && *data == vec![4, 5]
    ));
}

#[test]
fn packets_are_routed_by_link_interface_and_context() {
    let mut lm = manager(64, [0xCC; 16]);
    let header = data_header(PacketContext::Data);
    assert_eq!(lm.route_packet(&header, 1), PacketRoute::Destination);
    lm.links.insert(LINK, link(LinkState::Active, false));
    assert_eq!(lm.route_packet(&header, 2), PacketRoute::WrongInterface);
    assert_eq!(lm.route_packet(&header, 1), PacketRoute::Data);
    assert_eq!(lm.route_packet(&proof_header(), 1), PacketRoute::PacketProof);
    for (context, route) in [
        (PacketContext::Lrrtt, PacketRoute::Lrrtt),
        (PacketContext::LinkIdentify, PacketRoute::Identify),
        (PacketContext::Keepalive, PacketRoute::Keepalive),
        (PacketContext::LinkClose, PacketRoute::Close),
        (PacketContext::Channel, PacketRoute::Channel),
        (PacketContext::ResourceAdv, PacketRoute::Advertisement),
        (PacketContext::Resource, PacketRoute::Part),
        (PacketContext::ResourceReq, PacketRoute::PartsRequest),
        (PacketContext::ResourceIcl, PacketRoute::SenderCancel),
        (PacketContext::ResourceRcl, PacketRoute::ReceiverCancel),
        (PacketContext::ResourceHmu, PacketRoute::HashmapUpdate),
        (PacketContext::ResourcePrf, PacketRoute::ResourceProof),
        (PacketContext::Request, PacketRoute::Request),
        (PacketContext::Response, PacketRoute::Response),
        (PacketContext::Other, PacketRoute::Data),
    ] {
        assert_eq!(lm.route_packet(&data_header(context), 1), route);
    }
    assert!(!PacketRoute::Close.accounting().inbound);
    assert!(PacketRoute::Close.accounting().received);
    assert!(PacketRoute::PacketProof.accounting().inbound);
    assert!(!PacketRoute::PacketProof.accounting().received);
}

#[test]
fn send_errors_are_put_into_words() {
    assert_eq!(
        ChannelSendError::Channel(ChannelError::MaxRetriesExceeded).message("no more retries"),
        "channel error: no more retries"
    );
    assert_eq!(ChannelSendError::LinkNotActive.message(""), "link is not active");
    for (error, words) in [
        (LinkSendError::LinkNotFound, "link not found"),
        (LinkSendError::LinkNotActive, "link is not active"),
        (
            LinkSendError::NoSessionKeys,
            "link session keys are unavailable",
        ),
        (
            LinkSendError::IdentityUnavailable,
            "the manager has no signing identity",
        ),
        (
            LinkSendError::IdentificationUnavailable,
            "link identification is unavailable for this link role or state",
        ),
        (
            LinkSendError::TransportUnavailable,
            "transport channel is full or closed",
        ),
        (
            LinkSendError::ResourceStartFailed,
            "resource transfer could not be started",
        ),
    ] {
        assert_eq!(error.message(), words);
    }
}
