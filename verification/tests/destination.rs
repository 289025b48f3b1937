//! The owned destination: announces, commands, and packets that are for no Link.

use rns_runtime::commands::{
    CommandOutcome, DestinationEvent, EventOutcome, LinkManagerCommand, RunLoop,
};
use rns_runtime::destination::{
    announce_ratchet, identity_can_sign, register_destination, DestinationAnnounceOptions,
    DestinationControlError,
};
use rns_runtime::manager::{LinkManager, ProtocolConstants};
use rns_runtime::port::Port;
use rns_runtime::transport::{MAX_PENDING_DESTINATION_ANNOUNCES, MAX_PENDING_LINK_CONTROL};
use rns_runtime::wire::{
    make_header, DestinationType, Frame, Message, PacketContext, PacketHeader, PacketType,
    TransportMessage,
};

const DESTINATION: [u8; 16] = [0x71; 16];

fn constants() -> ProtocolConstants {
    ProtocolConstants {
        max_segments: 4096,
        max_efficient_size: 1_048_575,
        map_hash_len: 4,
        hashmap_is_exhausted: 0xFF,
        keepalive_request: 0xFF,
        keepalive_response: 0xFE,
        system_message_type_min: 0xF000,
    }
}

/// A manager that owns its destination and holds its signing key.
fn owning_manager(limit: usize) -> LinkManager {
    LinkManager::with_destination(
        Port::bounded(limit),
        Some(DESTINATION),
        true,
        false,
        true,
        constants(),
    )
}

fn take(manager: &mut LinkManager) -> Option<Message> {
    if manager.transport.port.sent.is_empty() {
        None
    } else {
        Some(manager.transport.port.sent.remove(0))
    }
}

fn no_ring() -> Result<[u8; 32], String> {
    Err("no ratchet ring".to_string())
}

fn path_requested(interface_id: u64, raw: &[u8]) -> DestinationEvent {
    DestinationEvent::AnnounceRequested {
        path_response: true,
        attached_interface: Some(interface_id),
        managed: no_ring(),
        raw: Ok(raw.to_vec()),
    }
}

fn destination_header() -> PacketHeader {
    make_header(
        DestinationType::Single,
        PacketType::Data,
        DESTINATION,
        PacketContext::Data,
    )
}

#[test]
fn test_register_destination_channel() {
    let mut port = Port::bounded(1);
    assert!(register_destination(&mut port, [0xAA; 16], "test.app"));
    assert!(matches!(
        &port.sent[..],
        [TransportMessage::RegisterDestination { hash, app_name }]
            if *hash == [0xAA; 16] && app_name == "test.app"
    ));
    assert!(!register_destination(&mut port, [0xAB; 16], "test.app"));
    assert_eq!(port.sent.len(), 1);
}

#[test]
fn live_destination_dispatch_runs_callback_and_preserves_raw_delivery() {
    let mut lm = owning_manager(16);
    lm.set_inbound_raw_channel(Port::bounded(1));
    let plaintext = b"live destination dispatch".to_vec();
    let raw = vec![0x5C; 90];
    let header = destination_header();

    assert_eq!(
        lm.process_destination_packet(&header, Some(plaintext.clone())),
        Some(plaintext)
    );
    assert!(!lm.proves_destination_packet(&header, false));
    assert!(lm.dispatch_destination_packet(raw.clone(), &header, 23, true, None));

    assert_eq!(lm.notices.inbound_raw.as_mut().unwrap().drain(), vec![raw]);
    assert!(
        take(&mut lm).is_none(),
        "ProveNone must not emit a delivery proof"
    );
}

#[test]
fn live_destination_dispatch_honors_proof_strategy_and_format() {
    let mut lm = owning_manager(16);
    lm.set_use_implicit_proof(false);
    assert!(!lm.settings.use_implicit_proof);
    let header = destination_header();
    let expected_hash = [0x5D; 32];
    let expected_destination = [0x5E; 16];
    let mut proof = expected_hash.to_vec();
    proof.extend_from_slice(&[0x99; 64]);

    assert!(lm.proves_destination_packet(&header, true));
    let outcome = lm.handle_event(DestinationEvent::DestinationPacket {
        raw: vec![0x5C; 90],
        header,
        interface_id: 41,
        taken: true,
        delivery_proof: Some((proof, expected_destination)),
    });
    assert!(matches!(outcome, EventOutcome::Handled));

    let Some(TransportMessage::OutboundAttached {
        frame: Frame::Built(packet),
        destination_hash,
        interface_id,
    }) = take(&mut lm)
    else {
        panic!("expected attached destination proof");
    };
    assert_eq!(interface_id, 41);
    assert_eq!(destination_hash, expected_destination);
    assert_eq!(packet.header.flags.packet_type, PacketType::Proof);
    assert_eq!(packet.header.destination_hash, expected_destination);
    assert_eq!(packet.body.len(), 96);
    assert_eq!(&packet.body[..32], expected_hash.as_slice());
}

#[test]
fn foreign_packets_are_neither_taken_nor_proved() {
    let mut lm = owning_manager(16);
    lm.set_inbound_raw_channel(Port::bounded(4));
    let mut foreign = destination_header();
    foreign.destination_hash = [0x72; 16];
    let mut plain = destination_header();
    plain.flags.destination_type = DestinationType::Plain;
    for header in [foreign, plain] {
        assert!(!lm.is_for_destination(&header));
        assert_eq!(lm.process_destination_packet(&header, Some(vec![1])), None);
        assert!(!lm.proves_destination_packet(&header, true));
        assert!(!lm.dispatch_destination_packet(
            vec![0x5C; 90],
            &header,
            23,
            true,
            Some((vec![0; 96], [0; 16]))
        ));
    }
    // What is not data is taken, and not proved.
    let mut proof = destination_header();
    proof.flags.packet_type = PacketType::Proof;
    assert!(lm.dispatch_destination_packet(
        vec![0x5C; 90],
        &proof,
        23,
        true,
        Some((vec![0; 96], [0; 16]))
    ));
    assert!(take(&mut lm).is_none());
    assert_eq!(lm.notices.inbound_raw.as_ref().unwrap().sent.len(), 3);
}

#[test]
fn path_response_announce_request_sends_attached_path_response() {
    let mut lm = owning_manager(16);
    for _ in 0..2 {
        let _ = lm.handle_event(path_requested(7, b"signed announce"));
        let Some(TransportMessage::OutboundAttached {
            frame: Frame::Raw(raw),
            destination_hash,
            interface_id,
        }) = take(&mut lm)
        else {
            panic!("expected attached outbound path response");
        };
        assert_eq!(interface_id, 7);
        assert_eq!(destination_hash, DESTINATION);
        assert_eq!(raw, b"signed announce");
    }
}

#[test]
fn path_response_announce_retries_after_transport_ingress_saturation() {
    let mut lm = owning_manager(1);
    assert!(lm
        .transport
        .try_message(TransportMessage::DeregisterDestination { hash: [0x44; 16] }));

    let _ = lm.handle_event(path_requested(17, b"path response"));
    assert_eq!(lm.transport.announces.len(), 1);
    assert!(matches!(
        take(&mut lm),
        Some(TransportMessage::DeregisterDestination { .. })
    ));

    let _ = lm.attend();

    assert!(lm.transport.announces.is_empty());
    let Some(TransportMessage::OutboundAttached {
        frame: Frame::Raw(raw),
        interface_id,
        ..
    }) = take(&mut lm)
    else {
        panic!("staged path response should be retried");
    };
    assert_eq!(interface_id, 17);
    assert_eq!(raw, b"path response");
}

#[test]
fn waiting_announces_are_bounded_and_keep_their_order() {
    let mut lm = owning_manager(0);
    for index in 0..MAX_PENDING_DESTINATION_ANNOUNCES {
        assert!(matches!(
            lm.send_destination_announce(
                Some(index as u64),
                no_ring(),
                None,
                Ok(vec![index as u8])
            ),
            Ok(())
        ));
    }
    assert!(matches!(
        lm.send_destination_announce(None, no_ring(), None, Ok(vec![1])),
        Err(DestinationControlError::TransportUnavailable)
    ));
    lm.transport.port.limit = Some(3);
    lm.transport.flush_pending_destination_announces();
    for expected in 0..3u64 {
        assert!(matches!(
            take(&mut lm),
            Some(TransportMessage::OutboundAttached { interface_id, .. })
                if interface_id == expected
        ));
    }
    assert_eq!(
        lm.transport.announces.len(),
        MAX_PENDING_DESTINATION_ANNOUNCES - 3
    );
    assert!(MAX_PENDING_LINK_CONTROL > 0);
}

#[test]
fn path_response_announces_carry_default_app_data() {
    let mut lm = owning_manager(16);
    let app_data = b"\xa3dprotocrrcav\x01chubhTest Hub".to_vec();
    assert!(matches!(
        lm.handle_command(LinkManagerCommand::SetDefaultAppData {
            app_data: Some(app_data.clone()),
        }),
        CommandOutcome::Destination(Ok(()))
    ));
    assert_eq!(
        lm.announce_app_data(None),
        Some(app_data.clone()),
        "path response announce must fall back to the default app data"
    );
    assert_eq!(
        lm.announce_app_data(Some(vec![1])),
        Some(vec![1]),
        "supplied app data comes before the default"
    );

    assert!(matches!(
        lm.handle_command(LinkManagerCommand::SetDefaultAppData { app_data: None }),
        CommandOutcome::Destination(Ok(()))
    ));
    assert_eq!(
        lm.announce_app_data(None),
        None,
        "cleared default app data must not appear in later announces"
    );
}

#[test]
fn destination_commands_announce_and_change_link_acceptance() {
    let mut lm = owning_manager(16);
    assert!(matches!(
        lm.handle_command(LinkManagerCommand::SetAcceptsLinks { accepts: false }),
        CommandOutcome::Destination(Ok(()))
    ));
    assert!(
        !lm.destination().unwrap().accept_link_requests,
        "the live manager must consult the updated destination gate"
    );

    let ratchet = [0xA5; 32];
    assert_eq!(
        announce_ratchet(None, Some(ratchet)).ok(),
        Some(Some(ratchet))
    );
    assert!(matches!(
        lm.handle_command(LinkManagerCommand::AnnounceWith {
            options: DestinationAnnounceOptions {
                app_data: Some(b"command app data".to_vec()),
                ratchet: Some(ratchet),
                ..DestinationAnnounceOptions::plain()
            },
            managed: no_ring(),
            raw: Ok(b"announce with ratchet".to_vec()),
        }),
        CommandOutcome::Destination(Ok(()))
    ));
    let Some(TransportMessage::Outbound {
        frame: Frame::Raw(raw),
        destination_hash,
    }) = take(&mut lm)
    else {
        panic!("expected destination announce");
    };
    assert_eq!(destination_hash, DESTINATION);
    assert_eq!(raw, b"announce with ratchet");
}

#[test]
fn default_announce_command_uses_owned_destination() {
    let mut lm = owning_manager(16);
    assert!(matches!(
        lm.handle_command(LinkManagerCommand::Announce {
            managed: no_ring(),
            raw: Ok(vec![0xA0; 100]),
        }),
        CommandOutcome::Destination(Ok(()))
    ));
    assert!(matches!(
        take(&mut lm),
        Some(TransportMessage::Outbound { .. })
    ));
}

#[test]
fn an_announce_handler_takes_ordinary_announces_only() {
    let mut lm = owning_manager(16);
    lm.set_announce_handler();
    assert!(matches!(
        lm.handle_command(LinkManagerCommand::Announce {
            managed: no_ring(),
            raw: Ok(vec![0xA0; 100]),
        }),
        CommandOutcome::CallAnnounceHandler
    ));
    assert!(matches!(
        lm.handle_event(DestinationEvent::AnnounceRequested {
            path_response: false,
            attached_interface: None,
            managed: no_ring(),
            raw: Ok(vec![0xA0; 100]),
        }),
        EventOutcome::CallAnnounceHandler
    ));
    assert!(take(&mut lm).is_none());
    assert!(matches!(
        lm.handle_event(path_requested(7, b"path")),
        EventOutcome::Handled
    ));
    assert!(take(&mut lm).is_some());
}

#[test]
fn announces_fail_as_their_inputs_do() {
    let mut without = LinkManager::new(Port::bounded(16), DESTINATION, true, constants());
    assert!(matches!(
        without.check_announce(),
        Err(DestinationControlError::DestinationUnavailable)
    ));
    assert!(matches!(
        without.set_accepts_links(true),
        Err(DestinationControlError::DestinationUnavailable)
    ));
    let mut unsigned = LinkManager::with_destination(
        Port::bounded(16),
        Some(DESTINATION),
        false,
        false,
        false,
        constants(),
    );
    assert!(matches!(
        unsigned.check_announce(),
        Err(DestinationControlError::IdentityUnavailable)
    ));
    assert!(matches!(
        unsigned.enable_persistent_ratchets(true, Ok([1; 32])),
        Err(DestinationControlError::IdentityUnavailable)
    ));

    let mut lm = owning_manager(16);
    assert!(matches!(
        lm.send_destination_announce(None, no_ring(), None, Err("too long".to_string())),
        Err(DestinationControlError::Destination(reason)) if reason == "too long"
    ));
    assert!(matches!(
        lm.enable_persistent_ratchets(true, Err("disk full".to_string())),
        Err(DestinationControlError::RatchetPersistence(reason)) if reason == "disk full"
    ));
    let destination = lm.destination().unwrap();
    assert!(!destination.enforces_ratchets && destination.local_ratchet.is_none());
    assert!(!lm.settings.has_ratchets);
    assert!(matches!(
        lm.enable_persistent_ratchets(true, Ok([1; 32])),
        Ok(r) if r == [1; 32]
    ));
    let destination = lm.destination().unwrap();
    assert!(destination.enforces_ratchets);
    assert_eq!(destination.local_ratchet, Some([1; 32]));
    assert!(lm.enable_persistent_ratchets(false, Err("disk full".to_string())).is_err());
    assert!(lm.destination().unwrap().enforces_ratchets);
    assert!(lm.set_accepts_links(true).is_ok());
    assert!(lm.destination().unwrap().enforces_ratchets);
    assert!(matches!(
        lm.send_destination_announce(None, Err("disk full".to_string()), None, Ok(vec![1])),
        Err(DestinationControlError::RatchetPersistence(_))
    ));
    assert!(matches!(
        lm.send_destination_announce(None, Ok([1; 32]), Some([2; 32]), Ok(vec![1])),
        Err(DestinationControlError::ManagedRatchetMismatch)
    ));
    assert_eq!(lm.destination().unwrap().local_ratchet, Some([1; 32]));
    // A ring that has moved on is advertised from then on, even if the announce is refused.
    assert!(matches!(
        lm.send_destination_announce(None, Ok([3; 32]), None, Err("too long".to_string())),
        Err(DestinationControlError::Destination(_))
    ));
    assert_eq!(lm.destination().unwrap().local_ratchet, Some([3; 32]));
    assert!(lm
        .send_destination_announce(None, Ok([1; 32]), Some([1; 32]), Ok(vec![1]))
        .is_ok());
    assert!(lm.enable_persistent_ratchets(false, Ok([1; 32])).is_ok());
    assert!(!lm.destination().unwrap().enforces_ratchets);
    lm.transport.port.closed = true;
    assert!(matches!(
        lm.send_destination_announce(None, Ok([1; 32]), None, Ok(vec![1])),
        Err(DestinationControlError::TransportUnavailable)
    ));
    assert!(identity_can_sign(true, false));
    assert!(identity_can_sign(false, true));
    assert!(!identity_can_sign(false, false));
}

#[test]
fn commands_outlive_the_transport() {
    let mut course = RunLoop::new(1000);
    assert!(!course.closes_links(false));
    assert!(!course.tick_due(1999));
    assert!(!course.tick_due(999));

    // The Links go once. A tick that takes its time puts the next one off.
    assert!(course.closes_links(true));
    assert!(!course.closes_links(true));
    assert!(course.tick_due(2000));
    course.ticked(2300);
    assert!(!course.tick_due(3299));
    assert!(course.tick_due(3300));

    assert!(!course.stops(true, false));
    assert!(!course.stops(false, true));
    assert!(course.stops(true, true));
    let mut lm = owning_manager(16);
    assert!(matches!(
        lm.handle_command(LinkManagerCommand::Shutdown),
        CommandOutcome::Stop
    ));
}

#[test]
fn control_errors_are_put_into_words() {
    for (error, words) in [
        (
            DestinationControlError::DestinationUnavailable,
            "link manager does not own a destination",
        ),
        (
            DestinationControlError::IdentityUnavailable,
            "link manager does not own a signing identity",
        ),
        (
            DestinationControlError::Destination("too long".to_string()),
            "destination operation failed: too long",
        ),
        (
            DestinationControlError::RatchetPersistence("disk full".to_string()),
            "destination ratchet persistence failed: disk full",
        ),
        (
            DestinationControlError::ManagedRatchetMismatch,
            "caller-supplied announce ratchet does not match the managed ring",
        ),
        (
            DestinationControlError::TransportUnavailable,
            "transport channel is full or closed",
        ),
    ] {
        assert_eq!(error.message(), words);
    }
}
