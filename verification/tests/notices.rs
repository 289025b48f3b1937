//! What the application is told: notices, the accounting stream and their texts.

use rns_runtime::assoc::ResourceKey;
use rns_runtime::commands::DestinationEvent;
use rns_runtime::events::{
    LegacyTerminalNotification, LinkManagerAccountingEvent, LinkPacketProof,
    LinkResourceConclusion, LinkResourceDirection, LinkResourceEvent, LinkResourceProof,
    ResourceCompletion,
};
use rns_runtime::link::{CloseReason, Link, LinkState, ResourceStrategy};
use rns_runtime::manager::{LinkManager, ProtocolConstants};
use rns_runtime::metadata::pack_file_name_metadata;
use rns_runtime::notices::Notices;
use rns_runtime::port::{Port, TrySendError};
use rns_runtime::resources::{InboundResourceLifecycle, InboundTransfer};
use rns_runtime::text::{close_failure_text, decimal_text, segment_range_text, worded};

const LINK: [u8; 16] = [0x51; 16];

fn constants() -> ProtocolConstants {
    ProtocolConstants {
        max_segments: 4096,
        max_efficient_size: 1_048_575,
        map_hash_len: 4,
        hashmap_is_exhausted: 0xFF,
        keepalive_request: 0xFF,
        keepalive_response: 0xFE,
        system_message_type_min: 0xF000,
    }
}

fn manager(limit: usize, destination_hash: [u8; 16]) -> LinkManager {
    LinkManager::new(Port::bounded(limit), destination_hash, true, constants())
}

fn active_link() -> Link {
    Link {
        state: LinkState::Active,
        is_initiator: false,
        interface_id: 1,
        mdu: 431,
        has_session_keys: true,
        identified: false,
        remote_identity: None,
        resource_strategy: ResourceStrategy::AcceptAll,
        expected_hops: None,
        has_channel: false,
    }
}

fn started(link_id: [u8; 16], resource_id: [u8; 32], data_size: usize) -> LinkResourceEvent {
    LinkResourceEvent::Started {
        link_id,
        resource_id,
        direction: LinkResourceDirection::Inbound,
        data_size,
        total_segments: 1,
    }
}

fn concluded(
    link_id: [u8; 16],
    resource_id: [u8; 32],
    conclusion: LinkResourceConclusion,
) -> LinkResourceEvent {
    LinkResourceEvent::Concluded {
        link_id,
        resource_id,
        direction: LinkResourceDirection::Inbound,
        conclusion,
    }
}

fn progress(link_id: [u8; 16], resource_id: [u8; 32]) -> LinkResourceEvent {
    LinkResourceEvent::Progress {
        link_id,
        resource_id,
        direction: LinkResourceDirection::Inbound,
        transferred: 1,
        total: 2,
    }
}

#[test]
fn validated_destination_delivery_proof_reaches_application_channel() {
    let mut lm = manager(1, [0xA0; 16]);
    lm.set_destination_delivery_proof_channel(Port::unbounded());
    let rtt = std::time::Duration::from_millis(275);
    let _ = lm.handle_event(DestinationEvent::DeliveryProof {
        msg_id: "a1b2c3".to_string(),
        rtt: Some(rtt),
    });
    let proofs = lm.notices.destination_delivery_proof.as_mut().unwrap().drain();
    assert_eq!(proofs.len(), 1);
    assert_eq!(proofs[0].msg_id, "a1b2c3");
    assert_eq!(proofs[0].rtt, Some(rtt));
}

#[test]
fn legacy_terminal_notifications_retry_after_local_backpressure() {
    let mut notices = Notices::new();
    notices.link_packet_proof = Some(Port::bounded(1));
    notices.outbound_resource_proof = Some(Port::bounded(1));
    notices.link_closed = Some(Port::bounded(1));
    notices
        .link_packet_proof
        .as_mut()
        .unwrap()
        .try_send(LinkPacketProof {
            link_id: [0x01; 16],
            packet_hash: [0x02; 32],
        })
        .unwrap();

    notices.stage_legacy_terminal_notification(LegacyTerminalNotification::PacketProof(
        LinkPacketProof {
            link_id: [0x03; 16],
            packet_hash: [0x04; 32],
        },
    ));
    notices.stage_legacy_terminal_notification(LegacyTerminalNotification::ResourceProof(
        LinkResourceProof {
            link_id: [0x05; 16],
            resource_hash: [0x06; 32],
        },
    ));
    assert_eq!(notices.pending_legacy.len(), 2);

    let prefill = notices.link_packet_proof.as_mut().unwrap().drain();
    assert_eq!(prefill.len(), 1);
    assert!(
        matches!(
            notices.pending_legacy[0],
            LegacyTerminalNotification::PacketProof(_)
        ),
        "packet proof remains at the ordered head"
    );

    notices.flush_legacy_terminal_notifications();

    assert!(matches!(
        notices.link_packet_proof.as_mut().unwrap().drain()[..],
        [LinkPacketProof { link_id, .. }] if link_id == [0x03; 16]
    ));
    assert!(matches!(
        notices.outbound_resource_proof.as_mut().unwrap().drain()[..],
        [LinkResourceProof { link_id, .. }] if link_id == [0x05; 16]
    ));
    assert!(notices.pending_legacy.is_empty());
}

#[test]
fn accounting_stream_survives_full_legacy_channels() {
    let link_id = [0xD1; 16];
    let resource_id = [0xD2; 32];
    let payload = b"capacity-lossless completion".to_vec();
    let mut notices = Notices::new();
    let mut events = Port::bounded(1);
    events.try_send(progress([0xEE; 16], [0xEE; 32])).unwrap();
    notices.resource_event = Some(events);
    let mut completions = Port::bounded(1);
    completions
        .try_send(ResourceCompletion {
            link_id: [0xEE; 16],
            resource_hash: [0xEE; 32],
            data: b"already queued".to_vec(),
            metadata: None,
        })
        .unwrap();
    notices.resource_completion = Some(completions);
    let mut tuples = Port::bounded(1);
    tuples
        .try_send((b"legacy tuple queued".to_vec(), [0xEE; 16]))
        .unwrap();
    notices.resource_completed = Some(tuples);
    notices.accounting = Some(Port::unbounded());

    notices.emit_resource_event(started(link_id, resource_id, payload.len()));
    notices.emit_resource_completion(ResourceCompletion {
        link_id,
        resource_hash: resource_id,
        data: payload.clone(),
        metadata: Some(b"metadata".to_vec()),
    });
    notices.emit_resource_event(concluded(
        link_id,
        resource_id,
        LinkResourceConclusion::Complete,
    ));

    assert!(matches!(
        notices.resource_event.as_mut().unwrap().drain()[..],
        [LinkResourceEvent::Progress { link_id: seen, .. }] if seen == [0xEE; 16]
    ));
    let kept = notices.resource_completion.as_mut().unwrap().drain();
    assert_eq!(kept.len(), 1);
    assert_eq!(kept[0].data, b"already queued");
    assert_eq!(
        notices.resource_completed.as_mut().unwrap().drain(),
        vec![(b"legacy tuple queued".to_vec(), [0xEE; 16])]
    );
    let accounted = notices.accounting.as_mut().unwrap().drain();
    assert_eq!(accounted.len(), 3);
    assert!(matches!(
        &accounted[0],
        LinkManagerAccountingEvent::ResourceEvent(LinkResourceEvent::Started {
            link_id: seen_link,
            resource_id: seen_resource,
            ..
        }) if *seen_link == link_id && *seen_resource == resource_id
    ));
    let LinkManagerAccountingEvent::ResourceCompletion(completion) = &accounted[1] else {
        panic!("expected capacity-lossless completion");
    };
    assert_eq!(completion.link_id, link_id);
    assert_eq!(completion.resource_hash, resource_id);
    assert_eq!(completion.data, payload);
    assert_eq!(completion.metadata, Some(b"metadata".to_vec()));
    assert!(matches!(
        &accounted[2],
        LinkManagerAccountingEvent::ResourceEvent(LinkResourceEvent::Concluded {
            link_id: seen_link,
            resource_id: seen_resource,
            conclusion: LinkResourceConclusion::Complete,
            ..
        }) if *seen_link == link_id && *seen_resource == resource_id
    ));
}

#[test]
fn progress_stays_out_of_the_accounting_stream() {
    let mut notices = Notices::new();
    notices.resource_event = Some(Port::bounded(4));
    notices.accounting = Some(Port::unbounded());
    notices.emit_resource_event(progress(LINK, [1; 32]));
    assert_eq!(notices.resource_event.as_ref().unwrap().sent.len(), 1);
    assert!(notices.accounting.as_ref().unwrap().sent.is_empty());
}

#[test]
fn accounting_debug_redacts_completion_content() {
    let event = LinkManagerAccountingEvent::ResourceCompletion(ResourceCompletion {
        link_id: [0xD6; 16],
        resource_hash: [0xD7; 32],
        data: b"secret payload".to_vec(),
        metadata: Some(b"secret metadata".to_vec()),
    });

    let rendered = event.debug_text();
    assert!(rendered.contains("data_len: 14"));
    assert!(rendered.contains("metadata_len: Some(15)"));
    assert!(!rendered.contains("secret payload"));
    assert!(!rendered.contains("secret metadata"));
}

#[test]
fn accounting_entries_are_rendered_with_hexadecimal_ids() {
    let completion = LinkManagerAccountingEvent::ResourceCompletion(ResourceCompletion {
        link_id: [0x0A; 16],
        resource_hash: [0xF1; 32],
        data: vec![],
        metadata: None,
    });
    assert_eq!(
        completion.debug_text(),
        format!(
            "ResourceCompletion {{ link_id: \"{}\", resource_hash: \"{}\", data_len: 0, \
             metadata_len: None }}",
            "0a".repeat(16),
            "f1".repeat(32)
        )
    );
    let closed = LinkManagerAccountingEvent::LinkClosed {
        link_id: [0x9C; 16],
    };
    assert_eq!(
        closed.debug_text(),
        format!("LinkClosed {{ link_id: \"{}\" }}", "9c".repeat(16))
    );
    let proof = LinkManagerAccountingEvent::LinkPacketProof(LinkPacketProof {
        link_id: [0x01; 16],
        packet_hash: [0x20; 32],
    });
    assert_eq!(
        proof.debug_text(),
        format!(
            "LinkPacketProof {{ link_id: \"{}\", packet_hash: \"{}\" }}",
            "01".repeat(16),
            "20".repeat(32)
        )
    );
}

#[test]
fn resource_events_are_rendered_as_derived() {
    for event in [
        started(LINK, [0x07; 32], 1234),
        progress(LINK, [0xFF; 32]),
        concluded(LINK, [0; 32], LinkResourceConclusion::Complete),
        concluded(LINK, [0; 32], LinkResourceConclusion::Cancelled),
        concluded(LINK, [0; 32], LinkResourceConclusion::Rejected),
        concluded(
            LINK,
            [0; 32],
            LinkResourceConclusion::Failed("a \"quoted\"\nreason".to_string()),
        ),
    ] {
        let expected = format!("{event:?}");
        assert_eq!(event.debug_text(), expected);
        assert_eq!(
            LinkManagerAccountingEvent::ResourceEvent(event).debug_text(),
            format!("ResourceEvent({expected})")
        );
    }
    assert_eq!(
        LinkResourceConclusion::Failed("tab\t".to_string()).debug_text(),
        "Failed(\"tab\\t\")"
    );
}

#[test]
fn link_close_accounting_survives_full_legacy_channels_in_actor_order() {
    let resource_id = [0x3A; 32];
    let mut lm = manager(16, [0xD3; 16]);
    lm.links.insert(LINK, active_link());
    lm.resources.inbound.insert(
        ResourceKey {
            link_id: LINK,
            hash: resource_id,
        },
        InboundTransfer { data_size: 2000 },
    );
    let mut events = Port::bounded(1);
    events.try_send(progress(LINK, resource_id)).unwrap();
    lm.set_resource_event_channel(events);
    let mut closed = Port::bounded(1);
    closed.try_send([0xEE; 16]).unwrap();
    lm.set_link_closed_channel(closed);
    lm.set_accounting_event_channel(Port::unbounded());
    lm.resources.lifecycles.insert(
        ResourceKey {
            link_id: LINK,
            hash: resource_id,
        },
        InboundResourceLifecycle {
            data_size: 2000,
            total_segments: 1,
            current_segment: Some(resource_id),
            is_request: false,
            is_response: false,
            request_id: None,
            inter_segment_deadline: None,
        },
    );

    lm.notices
        .emit_resource_event(started(LINK, resource_id, 2000));
    assert!(lm.close_link(LINK, CloseReason::Timeout, false, None));

    assert!(matches!(
        lm.notices.resource_event.as_mut().unwrap().drain()[..],
        [LinkResourceEvent::Progress { .. }]
    ));
    assert_eq!(
        lm.notices.link_closed.as_mut().unwrap().drain(),
        vec![[0xEE; 16]]
    );
    let accounted = lm.notices.accounting.as_mut().unwrap().drain();
    assert_eq!(accounted.len(), 3);
    assert!(matches!(
        &accounted[0],
        LinkManagerAccountingEvent::ResourceEvent(LinkResourceEvent::Started {
            link_id,
            resource_id: seen,
            ..
        }) if *link_id == LINK && *seen == resource_id
    ));
    assert!(matches!(
        &accounted[1],
        LinkManagerAccountingEvent::LinkClosed { link_id } if *link_id == LINK
    ));
    assert!(matches!(
        &accounted[2],
        LinkManagerAccountingEvent::ResourceEvent(LinkResourceEvent::Concluded {
            link_id,
            resource_id: seen,
            direction: LinkResourceDirection::Inbound,
            conclusion: LinkResourceConclusion::Failed(reason),
        }) if *link_id == LINK && *seen == resource_id && reason == "link closed: Timeout"
    ));
    assert!(lm.resources.inbound.is_empty());
    assert!(lm.resources.lifecycles.is_empty());
}

#[test]
fn closed_accounting_receiver_does_not_block_or_panic() {
    let mut accounting = Port::unbounded();
    accounting.closed = true;
    let mut notices = Notices::new();
    notices.accounting = Some(accounting);
    notices.emit_resource_event(started([0xD4; 16], [0xD5; 32], 1));
    notices.emit_resource_completion(ResourceCompletion {
        link_id: [0xD4; 16],
        resource_hash: [0xD5; 32],
        data: vec![1],
        metadata: None,
    });
    notices.emit_resource_event(concluded(
        [0xD4; 16],
        [0xD5; 32],
        LinkResourceConclusion::Complete,
    ));
    assert!(notices.accounting.as_ref().unwrap().sent.is_empty());
}

#[test]
fn pack_file_name_metadata_uses_binary_name() {
    let packed = pack_file_name_metadata("photos/pic.png");
    let value = rmpv::decode::read_value(&mut &packed[..]).unwrap();
    let map = value.as_map().expect("metadata map");
    assert_eq!(map.len(), 1);
    assert_eq!(map[0].0.as_str(), Some("name"));
    assert_eq!(map[0].1.as_slice(), Some(b"photos/pic.png".as_slice()));
}

#[test]
fn packed_names_of_every_length_unpack_to_themselves() {
    for length in [0, 1, 31, 255, 256, 65_535, 65_536] {
        let name = "n".repeat(length);
        let packed = pack_file_name_metadata(&name);
        let value = rmpv::decode::read_value(&mut &packed[..]).unwrap();
        let map = value.as_map().unwrap();
        assert_eq!(map[0].1.as_slice(), Some(name.as_bytes()));
    }
    assert_eq!(
        pack_file_name_metadata("ab"),
        vec![0x81, 0xA4, b'n', b'a', b'm', b'e', 0xC4, 2, b'a', b'b']
    );
}

#[test]
fn texts_are_written_out() {
    assert_eq!(decimal_text(0), "0");
    assert_eq!(decimal_text(10), "10");
    assert_eq!(decimal_text(4096), "4096");
    assert_eq!(decimal_text(usize::MAX), format!("{}", usize::MAX));
    assert_eq!(worded("a", "b"), "ab");
    assert_eq!(
        segment_range_text(3, 2, 4096),
        "segment metadata is out of range (3/2, max 4096)"
    );
    assert_eq!(
        close_failure_text(CloseReason::InitiatorClosed),
        "link closed: InitiatorClosed"
    );
    assert_eq!(
        close_failure_text(CloseReason::DestinationClosed),
        "link closed: DestinationClosed"
    );
}

#[test]
fn ports_refuse_what_does_not_fit() {
    let mut port: Port<u8> = Port::bounded(2);
    assert!(port.try_send(1).is_ok());
    assert!(port.try_send(2).is_ok());
    assert!(port.is_full());
    assert!(matches!(port.try_send(3), Err(TrySendError::Full(3))));
    assert_eq!(port.drain(), vec![1, 2]);
    assert!(!port.is_full());
    port.closed = true;
    assert!(matches!(port.try_send(4), Err(TrySendError::Closed(4))));
    let mut open: Port<u8> = Port::unbounded();
    for i in 0..200 {
        assert!(open.try_send(i).is_ok());
    }
    assert!(!open.is_full());
}

#[test]
fn lossless_streams_have_no_limit() {
    let mut lm = manager(1, [0xA0; 16]);
    lm.set_destination_delivery_proof_channel(Port::bounded(0));
    lm.set_link_packet_channel(Port::bounded(1));
    lm.set_accounting_event_channel(Port::bounded(2));
    assert_eq!(lm.notices.destination_delivery_proof.as_ref().unwrap().limit, None);
    assert_eq!(lm.notices.link_packet.as_ref().unwrap().limit, None);
    assert_eq!(lm.notices.accounting.as_ref().unwrap().limit, None);
    let _ = lm.handle_event(DestinationEvent::DeliveryProof {
        msg_id: "d4".to_string(),
        rtt: None,
    });
    assert_eq!(
        lm.notices.destination_delivery_proof.as_ref().unwrap().sent.len(),
        1
    );
}

#[test]
fn file_names_are_told_apart_by_their_metadata() {
    let long = "n".repeat(0x1_0000);
    let names = ["", "a", "b", "a\u{0}", "\u{e9}", "e\u{301}", long.as_str()];
    for (i, name) in names.iter().enumerate() {
        let packed = pack_file_name_metadata(name);
        assert_eq!(&packed[packed.len() - name.len()..], name.as_bytes());
        for other in &names[..i] {
            assert_ne!(packed, pack_file_name_metadata(other));
        }
    }
    assert_eq!(
        &pack_file_name_metadata(&long)[..11],
        b"\x81\xa4name\xc6\x00\x01\x00\x00"
    );
}
