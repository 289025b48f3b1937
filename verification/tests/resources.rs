//! Resources: offers, parts, completion, sending, cancelling and their watchdogs.

use rns_runtime::assoc::ResourceKey;
use rns_runtime::commands::{CommandOutcome, LinkManagerCommand};
use rns_runtime::events::{
    LinkManagerAccountingEvent, LinkPayloadSendReceipt, LinkResourceConclusion,
    LinkResourceDirection, LinkResourceEvent,
};
use rns_runtime::inbound::{AdvertisementVerdict, ResourceAdvertisement};
use rns_runtime::link::{
    Action, CancelType, CloseReason, Link, LinkState, ResourceStrategy, TransferAction,
};
use rns_runtime::manager::{AllowPolicy, LinkManager, ProtocolConstants};
use rns_runtime::packets::{FollowUp, OfferInput, PacketInput};
use rns_runtime::port::Port;
use rns_runtime::receiving::{Assembly, CompletedSegment, PartOutcome, PartScan};
use rns_runtime::resources::{
    InboundResourceLifecycle, InboundTransfer, OutboundTransfer, SegmentRoute, SplitCoordinator,
};
use rns_runtime::sending::{
    BuiltResource, LinkSendError, ResourceTransferStart, SealedPacket, SegmentPlan,
};
use rns_runtime::tick::{ChannelTimeout, LinkAction, LinkRemoval, WatchdogAction};
use rns_runtime::wire::{
    make_header, DestinationType, LinkEndpointSendResult, Packet, PacketContext, PacketHeader,
    PacketType, TransportMessage,
};

const LINK: [u8; 16] = [0x51; 16];

fn constants() -> ProtocolConstants {
    ProtocolConstants {
        max_segments: 4096,
        max_efficient_size: 1_048_575,
        map_hash_len: 4,
        hashmap_is_exhausted: 0xFF,
        keepalive_request: 0xFF,
        keepalive_response: 0xFE,
        system_message_type_min: 0xF000,
    }
}

fn manager(limit: usize, destination_hash: [u8; 16]) -> LinkManager {
    LinkManager::new(Port::bounded(limit), destination_hash, true, constants())
}

fn link(state: LinkState, is_initiator: bool) -> Link {
    Link {
        state,
        is_initiator,
        interface_id: 1,
        mdu: 431,
        has_session_keys: true,
        identified: false,
        remote_identity: None,
        resource_strategy: ResourceStrategy::AcceptAll,
        expected_hops: None,
        has_channel: false,
    }
}

/// The next packet that went to the transport for a Link.
fn next_packet(manager: &mut LinkManager) -> Option<Packet<Vec<u8>>> {
    if manager.transport.port.sent.is_empty() {
        return None;
    }
    match manager.transport.port.sent.remove(0) {
        TransportMessage::SendLinkEndpoint { packet, ticket, .. } => {
            manager
                .transport
                .replies
                .send
                .insert(ticket, Some(LinkEndpointSendResult::Sent));
            Some(packet)
        }
        other => panic!("expected a Link packet, got {other:?}"),
    }
}

fn data_header(context: PacketContext) -> PacketHeader {
    make_header(DestinationType::Link, PacketType::Data, LINK, context)
}

fn key(hash: [u8; 32]) -> ResourceKey {
    ResourceKey {
        link_id: LINK,
        hash,
    }
}

/// A manager with one established Link on which it is the responder.
fn receiving_manager(limit: usize) -> LinkManager {
    let mut lm = manager(limit, [0xCE; 16]);
    lm.links.insert(LINK, link(LinkState::Active, false));
    lm
}

fn offer(resource_hash: [u8; 32], data_size: usize) -> ResourceAdvertisement {
    ResourceAdvertisement {
        resource_hash,
        original_hash: resource_hash,
        data_size,
        segment_index: 1,
        total_segments: 1,
        split: false,
        is_request: false,
        is_response: false,
        has_metadata: false,
        request_id: None,
    }
}

fn request() -> Result<Action, String> {
    Ok(TransferAction::SendRequest(vec![0x11; 37]))
}

fn advertise(
    lm: &mut LinkManager,
    adv: ResourceAdvertisement,
    transfer: Result<Action, String>,
    accepted: bool,
) {
    let _ = lm.handle_inbound_packet(
        &data_header(PacketContext::ResourceAdv),
        1,
        PacketInput::Advertisement(OfferInput::Offer {
            adv,
            transfer,
            accepted,
        }),
    );
}

/// The last part of a segment arrives.
fn last_part(lm: &mut LinkManager, segment: [u8; 32], transferred: usize) -> FollowUp {
    let mut scan = PartScan::new();
    assert!(scan.note(
        segment,
        PartOutcome {
            action: TransferAction::Complete,
            is_complete: true,
            advanced: true,
        },
    ));
    lm.handle_inbound_packet(
        &data_header(PacketContext::Resource),
        1,
        PacketInput::Part { scan, transferred },
    )
}

fn whole(data: &[u8]) -> Result<CompletedSegment<Vec<u8>, String>, String> {
    Ok(CompletedSegment {
        proof: vec![0x22; 64],
        assembly: Assembly::Whole {
            data: data.to_vec(),
            metadata: None,
        },
    })
}

fn segment(resource_hash: [u8; 32]) -> OutboundTransfer {
    OutboundTransfer {
        resource_hash,
        original_hash: None,
        segment_index: 1,
        total_segments: 1,
        advertisement_data_size: 16,
    }
}

fn built(resource_hash: [u8; 32]) -> BuiltResource {
    BuiltResource {
        segments: vec![segment(resource_hash)],
        first_action: TransferAction::SendAdvertisement(vec![0xAD; 80]),
    }
}

fn accounted(lm: &mut LinkManager) -> Vec<LinkManagerAccountingEvent> {
    lm.notices.accounting.as_mut().unwrap().drain()
}

fn is_started(event: &LinkManagerAccountingEvent, id: [u8; 32]) -> bool {
    matches!(
        event,
        LinkManagerAccountingEvent::ResourceEvent(LinkResourceEvent::Started {
            link_id,
            resource_id,
            direction: LinkResourceDirection::Inbound,
            ..
        }) if *link_id == LINK && *resource_id == id
    )
}

fn is_complete(event: &LinkManagerAccountingEvent, id: [u8; 32]) -> bool {
    matches!(
        event,
        LinkManagerAccountingEvent::ResourceEvent(LinkResourceEvent::Concluded {
            link_id,
            resource_id,
            direction: LinkResourceDirection::Inbound,
            conclusion: LinkResourceConclusion::Complete,
        }) if *link_id == LINK && *resource_id == id
    )
}

fn is_failed(event: &LinkManagerAccountingEvent, id: [u8; 32]) -> bool {
    matches!(
        event,
        LinkManagerAccountingEvent::ResourceEvent(LinkResourceEvent::Concluded {
            resource_id,
            conclusion: LinkResourceConclusion::Failed(_),
            ..
        }) if *resource_id == id
    )
}

#[test]
fn resource_control_staging_flushes_in_order_after_transport_saturation() {
    let mut lm = receiving_manager(1);
    assert!(lm
        .transport
        .try_message(TransportMessage::DeregisterDestination { hash: [0xF1; 16] }));

    assert!(lm.send_resource_action(&LINK, TransferAction::SendRequest(vec![0x11; 33])));
    assert!(lm.send_resource_action(&LINK, TransferAction::SendProof(vec![0x22; 64])));
    assert_eq!(lm.transport.control.len(), 2);
    assert!(matches!(
        lm.transport.port.drain()[..],
        [TransportMessage::DeregisterDestination { hash }] if hash == [0xF1; 16]
    ));

    lm.transport.flush_pending_link_control();
    assert_eq!(lm.transport.control.len(), 1);
    let first = next_packet(&mut lm).unwrap();
    assert_eq!(first.header.context, PacketContext::ResourceReq);
    assert_eq!(first.header.flags.packet_type, PacketType::Data);

    lm.transport.flush_pending_link_control();
    assert!(lm.transport.control.is_empty());
    let second = next_packet(&mut lm).unwrap();
    assert_eq!(second.header.context, PacketContext::ResourcePrf);
    assert_eq!(second.header.flags.packet_type, PacketType::Proof);
}

#[test]
fn stale_links_remain_sendable_for_packets_and_resources() {
    let mut lm = manager(64, [0xC5; 16]);
    lm.links.insert(LINK, link(LinkState::Stale, false));

    let receipt = lm
        .send_link_packet(
            &LINK,
            Some(SealedPacket {
                body: b"stale reply".to_vec(),
                packet_hash: [0x31; 32],
            }),
        )
        .expect("a stale link must still be able to answer its peer");
    assert_eq!(receipt.link_id, LINK);
    assert_eq!(next_packet(&mut lm).unwrap().body, b"stale reply");

    lm.send_link_resource(&LINK, &[0; 2048], built([0xAB; 32]))
        .expect("a stale link must still start outbound resources");
}

#[test]
fn send_link_resource_emits_resource_proof_event() {
    let resource_hash = [0x32; 32];
    let mut lm = manager(16, [0xC2; 16]);
    lm.set_outbound_resource_proof_channel(Port::bounded(4));
    lm.set_resource_event_channel(Port::bounded(4));
    lm.links.insert(LINK, link(LinkState::Active, false));

    let receipt = lm
        .send_link_resource(&LINK, b"resource payload", built(resource_hash))
        .unwrap();
    assert_eq!(receipt.resource_hash, resource_hash);
    assert_eq!(
        lm.notices.resource_event.as_mut().unwrap().drain(),
        vec![LinkResourceEvent::Started {
            link_id: LINK,
            resource_id: receipt.resource_hash,
            direction: LinkResourceDirection::Outbound,
            data_size: b"resource payload".len(),
            total_segments: 1,
        }]
    );
    assert_eq!(
        next_packet(&mut lm).unwrap().header.context,
        PacketContext::ResourceAdv
    );

    let mut data = resource_hash.to_vec();
    data.extend_from_slice(&[0x77; 32]);
    let _ = lm.handle_inbound_packet(
        &make_header(
            DestinationType::Link,
            PacketType::Proof,
            LINK,
            PacketContext::ResourcePrf,
        ),
        1,
        PacketInput::ResourceProof {
            data,
            complete: true,
            next_action: TransferAction::Nothing,
        },
    );

    let proofs = lm.notices.outbound_resource_proof.as_mut().unwrap().drain();
    assert_eq!(proofs.len(), 1);
    assert_eq!(proofs[0].link_id, LINK);
    assert_eq!(proofs[0].resource_hash, resource_hash);
    assert_eq!(
        lm.notices.resource_event.as_mut().unwrap().drain(),
        vec![LinkResourceEvent::Concluded {
            link_id: LINK,
            resource_id: resource_hash,
            direction: LinkResourceDirection::Outbound,
            conclusion: LinkResourceConclusion::Complete,
        }]
    );
    assert!(lm.resources.outbound.is_empty());
}

#[test]
fn a_split_resource_is_sent_segment_by_segment() {
    let original = [0x40; 32];
    let part = |hash: u8, index: usize| OutboundTransfer {
        resource_hash: [hash; 32],
        original_hash: Some(original),
        segment_index: index,
        total_segments: 2,
        advertisement_data_size: 3000,
    };
    let mut lm = manager(16, [0xC2; 16]);
    lm.settings.constants.max_efficient_size = 2000;
    lm.set_resource_event_channel(Port::bounded(8));
    lm.links.insert(LINK, link(LinkState::Active, false));
    // What fits into one segment is not sent in two.
    assert!(lm
        .start_resource_transfer(
            &LINK,
            &[0; 2000],
            BuiltResource {
                segments: vec![part(0x41, 1), part(0x42, 2)],
                first_action: TransferAction::SendAdvertisement(vec![0xAD; 80]),
            },
        )
        .is_none());
    let id = lm
        .start_resource_transfer(
            &LINK,
            &[0; 3000],
            BuiltResource {
                segments: vec![part(0x41, 1), part(0x42, 2)],
                first_action: TransferAction::SendAdvertisement(vec![0xAD; 80]),
            },
        )
        .unwrap();
    assert_eq!(id, original);
    assert!(lm.resources.outbound.contains(&key([0x41; 32])));
    assert_eq!(lm.resources.queued.len(), 1);
    assert_eq!(
        lm.next_segment(&LINK, &[0x41; 32]).unwrap().resource_hash,
        [0x42; 32]
    );

    let mut data = vec![0x41; 32];
    data.extend_from_slice(&[0x77; 32]);
    lm.handle_resource_prf(
        LINK,
        &data,
        true,
        TransferAction::SendAdvertisement(vec![0xAE; 80]),
    );
    assert!(!lm.resources.outbound.contains(&key([0x41; 32])));
    assert!(lm.resources.outbound.contains(&key([0x42; 32])));
    assert!(lm.resources.queued.is_empty());
    let events = lm.notices.resource_event.as_mut().unwrap().drain();
    assert!(matches!(
        events[..],
        [LinkResourceEvent::Started { resource_id, total_segments: 2, .. }, ..]
            if resource_id == original
    ));
    assert!(!events
        .iter()
        .any(|event| matches!(event, LinkResourceEvent::Concluded { .. })));

    let mut data = vec![0x42; 32];
    data.extend_from_slice(&[0x77; 32]);
    lm.handle_resource_prf(LINK, &data, true, TransferAction::Nothing);
    assert!(lm.resources.outbound.is_empty());
    assert!(matches!(
        lm.notices.resource_event.as_mut().unwrap().drain().last(),
        Some(LinkResourceEvent::Concluded {
            resource_id,
            conclusion: LinkResourceConclusion::Complete,
            ..
        }) if *resource_id == original
    ));
}

#[test]
fn an_incomplete_or_short_resource_proof_proves_nothing() {
    let mut lm = manager(16, [0xC2; 16]);
    lm.links.insert(LINK, link(LinkState::Active, false));
    lm.send_link_resource(&LINK, &[0; 16], built([0x32; 32])).unwrap();
    lm.handle_resource_prf(LINK, &[0x32; 63], true, TransferAction::Nothing);
    lm.handle_resource_prf(LINK, &[0x32; 64], false, TransferAction::Nothing);
    assert!(lm.resources.outbound.contains(&key([0x32; 32])));
    lm.handle_resource_prf(LINK, &[0x32; 64], true, TransferAction::Nothing);
    assert!(!lm.resources.outbound.contains(&key([0x32; 32])));
}

#[test]
fn outbound_resource_can_be_cancelled_through_manager_command() {
    let resource_hash = [0x33; 32];
    let mut lm = manager(16, [0xC5; 16]);
    lm.set_resource_event_channel(Port::bounded(4));
    lm.links.insert(LINK, link(LinkState::Active, false));

    let receipt = lm
        .send_link_resource(&LINK, b"cancel me", built(resource_hash))
        .unwrap();
    let _advertisement = next_packet(&mut lm).unwrap();
    let _started = lm.notices.resource_event.as_mut().unwrap().drain();
    assert!(matches!(
        lm.handle_command(LinkManagerCommand::CancelLinkResource {
            link_id: LINK,
            resource_id: receipt.resource_hash,
            direction: LinkResourceDirection::Outbound,
        }),
        CommandOutcome::Cancelled(true)
    ));

    let cancellation = next_packet(&mut lm).unwrap();
    assert_eq!(cancellation.header.context, PacketContext::ResourceIcl);
    assert_eq!(cancellation.body, receipt.resource_hash);
    assert!(cancellation.seal);
    assert_eq!(
        lm.notices.resource_event.as_mut().unwrap().drain(),
        vec![LinkResourceEvent::Concluded {
            link_id: LINK,
            resource_id: receipt.resource_hash,
            direction: LinkResourceDirection::Outbound,
            conclusion: LinkResourceConclusion::Cancelled,
        }]
    );
    assert!(lm.resources.outbound.is_empty());
    assert!(!lm.cancel_link_resource(
        &LINK,
        &receipt.resource_hash,
        LinkResourceDirection::Outbound
    ));
}

#[test]
fn an_inbound_resource_can_be_cancelled_by_either_side() {
    let mut lm = receiving_manager(16);
    lm.set_accounting_event_channel(Port::unbounded());
    advertise(&mut lm, offer([0x34; 32], 10), request(), false);
    let _ = next_packet(&mut lm);
    assert!(lm.cancel_link_resource(&LINK, &[0x34; 32], LinkResourceDirection::Inbound));
    let cancellation = next_packet(&mut lm).unwrap();
    assert_eq!(cancellation.header.context, PacketContext::ResourceRcl);
    assert_eq!(cancellation.body, [0x34; 32]);
    assert!(lm.resources.inbound.is_empty());

    advertise(&mut lm, offer([0x35; 32], 10), request(), false);
    let _ = lm.handle_inbound_packet(
        &data_header(PacketContext::ResourceIcl),
        1,
        PacketInput::SenderCancel {
            plaintext: Some(vec![0x35; 32]),
        },
    );
    assert!(lm.resources.inbound.is_empty());
    let cancelled = accounted(&mut lm)
        .iter()
        .filter(|event| {
            matches!(
                event,
                LinkManagerAccountingEvent::ResourceEvent(LinkResourceEvent::Concluded {
                    conclusion: LinkResourceConclusion::Cancelled,
                    ..
                })
            )
        })
        .count();
    assert_eq!(cancelled, 2);
}

#[test]
fn a_refused_resource_is_rejected() {
    let mut lm = manager(16, [0xC5; 16]);
    lm.set_accounting_event_channel(Port::unbounded());
    lm.links.insert(LINK, link(LinkState::Active, false));
    lm.send_link_resource(&LINK, &[0; 9], built([0x36; 32])).unwrap();
    let _ = lm.handle_inbound_packet(
        &data_header(PacketContext::ResourceRcl),
        1,
        PacketInput::ReceiverCancel {
            plaintext: Some(vec![0x36; 32]),
        },
    );
    assert!(lm.resources.outbound.is_empty());
    assert!(matches!(
        accounted(&mut lm).last(),
        Some(LinkManagerAccountingEvent::ResourceEvent(LinkResourceEvent::Concluded {
            direction: LinkResourceDirection::Outbound,
            conclusion: LinkResourceConclusion::Rejected,
            ..
        }))
    ));
}

#[test]
fn requested_parts_are_sent_and_reported() {
    let mut lm = manager(16, [0xC5; 16]);
    lm.set_resource_event_channel(Port::bounded(8));
    lm.links.insert(LINK, link(LinkState::Active, false));
    lm.send_link_resource(&LINK, &[0; 16], built([0x36; 32])).unwrap();
    let _ = next_packet(&mut lm);
    let _ = lm.notices.resource_event.as_mut().unwrap().drain();

    let mut plaintext = vec![0x00];
    plaintext.extend_from_slice(&[0x36; 32]);
    let _ = lm.handle_inbound_packet(
        &data_header(PacketContext::ResourceReq),
        1,
        PacketInput::PartsRequest {
            plaintext: Some(plaintext),
            actions: vec![TransferAction::SendPart(0, vec![0x0F; 40])],
            progress: Some(16),
        },
    );
    let part = next_packet(&mut lm).unwrap();
    assert_eq!(part.header.context, PacketContext::Resource);
    assert_eq!(part.body, vec![0x0F; 40]);
    assert_eq!(
        lm.notices.resource_event.as_mut().unwrap().drain(),
        vec![LinkResourceEvent::Progress {
            link_id: LINK,
            resource_id: [0x36; 32],
            direction: LinkResourceDirection::Outbound,
            transferred: 16,
            total: 16,
        }]
    );
}

#[test]
fn part_requests_name_their_resource_behind_the_exhaustion_flag() {
    let lm = manager(16, [0xC5; 16]);
    let mut plain = vec![0x00];
    plain.extend_from_slice(&[0x36; 32]);
    assert_eq!(lm.requested_resource(&plain), Some([0x36; 32]));
    assert_eq!(lm.requested_resource(&plain[..32]), None);
    let mut exhausted = vec![0xFF, 1, 2, 3, 4];
    exhausted.extend_from_slice(&[0x37; 32]);
    assert_eq!(lm.requested_resource(&exhausted), Some([0x37; 32]));
    assert_eq!(lm.requested_resource(&exhausted[..36]), None);
}

#[test]
fn tick_retries_lost_resource_advertisement() {
    let resource_hash = [0x37; 32];
    let mut lm = manager(16, [0xC3; 16]);
    lm.links.insert(LINK, link(LinkState::Active, false));
    lm.resources.outbound.insert(key(resource_hash), segment(resource_hash));

    let mut removals = Vec::new();
    let busy = lm.tick_link_traffic(
        &LINK,
        60_000,
        vec![],
        vec![],
        vec![WatchdogAction {
            segment: resource_hash,
            action: TransferAction::SendAdvertisement(resource_hash.to_vec()),
        }],
        &mut removals,
    );
    assert!(busy);
    assert!(removals.is_empty());
    let retried = next_packet(&mut lm).unwrap();
    assert_eq!(retried.header.context, PacketContext::ResourceAdv);
    assert_eq!(retried.body, resource_hash);
    assert!(lm.resources.outbound.contains(&key(resource_hash)));
}

#[test]
fn tick_retries_stalled_inbound_resource_request() {
    let resource_hash = [0x38; 32];
    let mut lm = receiving_manager(16);
    lm.resources
        .inbound
        .insert(key(resource_hash), InboundTransfer { data_size: 2000 });

    let mut removals = Vec::new();
    let busy = lm.tick_link_traffic(
        &LINK,
        60_000,
        vec![],
        vec![WatchdogAction {
            segment: resource_hash,
            action: TransferAction::SendRequest(resource_hash.to_vec()),
        }],
        vec![],
        &mut removals,
    );
    assert!(busy);
    let retried = next_packet(&mut lm).unwrap();
    assert_eq!(retried.header.context, PacketContext::ResourceReq);
    assert!(retried
        .body
        .windows(resource_hash.len())
        .any(|window| window == resource_hash));
    assert!(lm.resources.inbound.contains(&key(resource_hash)));
}

#[test]
fn watchdogs_that_give_up_end_their_resources() {
    let mut lm = receiving_manager(16);
    lm.set_accounting_event_channel(Port::unbounded());
    advertise(&mut lm, offer([0x39; 32], 10), request(), false);
    lm.send_link_resource(&LINK, &[0; 16], built([0x3A; 32])).unwrap();
    let mut removals = Vec::new();
    let busy = lm.tick_link_traffic(
        &LINK,
        60_000,
        vec![],
        vec![WatchdogAction {
            segment: [0x39; 32],
            action: TransferAction::Failed("no more retries".to_string()),
        }],
        vec![WatchdogAction {
            segment: [0x3A; 32],
            action: TransferAction::Failed("no more retries".to_string()),
        }],
        &mut removals,
    );
    assert!(!busy);
    assert!(lm.resources.inbound.is_empty());
    assert!(lm.resources.outbound.is_empty());
    let events = accounted(&mut lm);
    assert!(events.iter().any(|event| is_failed(event, [0x39; 32])));
    assert!(events.iter().any(|event| is_failed(event, [0x3A; 32])));
}

#[test]
fn unproved_channel_messages_are_resent_until_the_channel_gives_up() {
    let mut lm = receiving_manager(16);
    let mut removals = Vec::new();
    let _ = lm.tick_link_traffic(
        &LINK,
        1,
        vec![ChannelTimeout::Nothing, ChannelTimeout::Resend(vec![7; 3])],
        vec![],
        vec![],
        &mut removals,
    );
    let resent = next_packet(&mut lm).unwrap();
    assert_eq!(resent.header.context, PacketContext::Channel);
    assert_eq!(resent.body, vec![7; 3]);
    assert!(removals.is_empty());
    let _ = lm.tick_link_traffic(
        &LINK,
        2,
        vec![ChannelTimeout::GiveUp],
        vec![],
        vec![],
        &mut removals,
    );
    assert_eq!(removals.len(), 1);
    assert_eq!(removals[0].link_id, LINK);
    lm.finish_tick(removals);
    assert_eq!(lm.active_link_count(), 0);
}

#[test]
fn link_timers_keep_alive_stale_and_close() {
    let mut lm = manager(16, [0xC3; 16]);
    lm.links.insert(LINK, link(LinkState::Active, true));
    let mut removals: Vec<LinkRemoval> = Vec::new();
    lm.tick_link_timer(&LINK, LinkAction::SendKeepalive, &mut removals);
    let keepalive = next_packet(&mut lm).unwrap();
    assert_eq!(keepalive.header.context, PacketContext::Keepalive);
    assert_eq!(keepalive.body, vec![0xFF]);

    lm.tick_link_timer(&LINK, LinkAction::TransitionedToStale, &mut removals);
    assert_eq!(lm.get_link(&LINK).unwrap().state, LinkState::Stale);
    assert!(next_packet(&mut lm).is_some());

    lm.tick_link_timer(&LINK, LinkAction::Nothing, &mut removals);
    assert!(removals.is_empty());
    lm.tick_link_timer(
        &LINK,
        LinkAction::Closed(CloseReason::Timeout),
        &mut removals,
    );
    assert!(matches!(
        removals[..],
        [LinkRemoval { endpoint_closing: false, .. }]
    ));
    removals.clear();
    lm.tick_link_timer(
        &LINK,
        LinkAction::SendTeardownAndClose(vec![0xEE; 16]),
        &mut removals,
    );
    assert!(matches!(
        removals[..],
        [LinkRemoval { endpoint_closing: true, .. }]
    ));
    assert!(matches!(
        lm.transport.port.drain()[..],
        [TransportMessage::SendLinkEndpointAndUnbind { .. }]
    ));
    lm.finish_tick(removals);
    assert_eq!(lm.active_link_count(), 0);
}

#[test]
fn test_split_resource_inbound_reassembles_via_coordinator() {
    let original_hash: [u8; 32] = [0x5A; 32];
    let chunk_size = 8 * 1024;
    let chunk_a: Vec<u8> = (0..chunk_size).map(|i| (i % 251) as u8).collect();
    let chunk_b: Vec<u8> = (0..chunk_size).map(|i| ((i + 7) % 251) as u8).collect();
    let payload: Vec<u8> = chunk_a.iter().chain(chunk_b.iter()).copied().collect();
    let mut lm = receiving_manager(4096);
    lm.set_resource_completion_channel(Port::bounded(8));
    lm.set_resource_completed_channel(Port::bounded(8));
    lm.set_accounting_event_channel(Port::unbounded());

    for (i, hash) in [[0x5B; 32], [0x5C; 32]].into_iter().enumerate() {
        let adv = ResourceAdvertisement {
            original_hash,
            segment_index: i + 1,
            total_segments: 2,
            split: true,
            ..offer(hash, payload.len())
        };
        advertise(&mut lm, adv, request(), false);
        assert!(lm.resources.inbound.contains(&key(hash)));
        let follow_up = last_part(&mut lm, hash, payload.len());
        assert!(matches!(follow_up, FollowUp::CompleteSegment(segment) if segment == hash));
        let assembly = if i == 0 {
            Assembly::Partial { assembled_count: 1 }
        } else {
            Assembly::Whole {
                data: payload.clone(),
                metadata: None,
            }
        };
        assert!(lm
            .complete_segment(
                LINK,
                hash,
                Ok(CompletedSegment {
                    proof: vec![0x22; 64],
                    assembly,
                }),
                1000,
            )
            .is_none());
    }
    while next_packet(&mut lm).is_some() {}

    let completions = lm.notices.resource_completion.as_mut().unwrap().drain();
    assert_eq!(
        completions.len(),
        1,
        "no per-segment completion events should fire for a split resource"
    );
    assert_eq!(
        completions[0].resource_hash, original_hash,
        "completion must surface original_hash, not a per-segment hash"
    );
    assert_eq!(completions[0].link_id, LINK);
    assert_eq!(
        completions[0].data, payload,
        "reassembled bytes match input"
    );
    assert_eq!(
        lm.notices.resource_completed.as_mut().unwrap().drain(),
        vec![(payload.clone(), LINK)],
        "legacy callback receives reassembled blob, not per-segment chunks"
    );

    let events = accounted(&mut lm);
    assert_eq!(
        events.len(),
        3,
        "split Resource accounting must collapse to one logical completion"
    );
    assert!(matches!(
        &events[0],
        LinkManagerAccountingEvent::ResourceEvent(LinkResourceEvent::Started {
            link_id,
            resource_id,
            direction: LinkResourceDirection::Inbound,
            total_segments: 2,
            ..
        }) if *link_id == LINK && *resource_id == original_hash
    ));
    let LinkManagerAccountingEvent::ResourceCompletion(completion) = &events[1] else {
        panic!("expected split Resource completion");
    };
    assert_eq!(completion.link_id, LINK);
    assert_eq!(completion.resource_hash, original_hash);
    assert_eq!(completion.data, payload);
    assert!(is_complete(&events[2], original_hash));

    assert!(
        lm.resources.splits.is_empty(),
        "coordinator must be removed after reassembly completes"
    );
    assert!(
        lm.resources.routes.is_empty(),
        "routing entries must be removed after each segment completes"
    );
    assert!(
        lm.resources.inbound.is_empty(),
        "per-segment transfers must be removed after each segment completes"
    );
}

#[test]
fn one_segment_split_uses_original_hash_for_completion_and_terminal() {
    let original_hash = [0x5D; 32];
    let segment_hash = [0x5E; 32];
    let payload = b"small payload through split API".to_vec();
    let mut lm = receiving_manager(16);
    lm.set_resource_completion_channel(Port::bounded(1));
    lm.set_accounting_event_channel(Port::unbounded());

    let adv = ResourceAdvertisement {
        original_hash,
        split: true,
        ..offer(segment_hash, payload.len())
    };
    advertise(&mut lm, adv, request(), false);
    assert!(next_packet(&mut lm).is_some(), "initial ResourceReq");
    let _ = last_part(&mut lm, segment_hash, payload.len());
    let _ = lm.complete_segment(LINK, segment_hash, whole(&payload), 1000);

    let completions = lm.notices.resource_completion.as_mut().unwrap().drain();
    assert_eq!(completions.len(), 1);
    assert_eq!(completions[0].resource_hash, original_hash);
    assert_eq!(completions[0].data, payload);
    let events = accounted(&mut lm);
    assert_eq!(events.len(), 3);
    assert!(is_started(&events[0], original_hash));
    assert!(matches!(
        &events[1],
        LinkManagerAccountingEvent::ResourceCompletion(completion)
            if completion.resource_hash == original_hash
    ));
    assert!(is_complete(&events[2], original_hash));
    assert!(lm.resources.lifecycles.is_empty());
}

#[test]
fn test_split_resource_rejects_oversized_total_segments() {
    let mut lm = receiving_manager(64);
    lm.set_resource_strategy(ResourceStrategy::AcceptApp);
    lm.set_resource_accept_handler();
    let evil_total = constants().max_segments + 1;
    let evil = ResourceAdvertisement {
        original_hash: [0x99; 32],
        segment_index: 1,
        total_segments: evil_total,
        split: true,
        ..offer([0x42; 32], 32)
    };
    let AdvertisementVerdict::Reject { resource_id, reason } = lm.judge_advertisement(&LINK, &evil)
    else {
        panic!("structurally invalid split Resources must not reserve application state");
    };
    assert_eq!(resource_id, [0x99; 32]);
    assert_eq!(
        reason,
        "segment metadata is out of range (1/4097, max 4096)"
    );
    advertise(&mut lm, evil, request(), true);

    let zeroth = ResourceAdvertisement {
        original_hash: [0x99; 32],
        segment_index: 0,
        ..offer([0x42; 32], 32)
    };
    assert!(matches!(
        lm.judge_advertisement(&LINK, &zeroth),
        AdvertisementVerdict::Reject { .. }
    ));
    advertise(&mut lm, zeroth, request(), true);

    assert!(
        lm.resources.splits.is_empty(),
        "no coordinator must be allocated for an over-cap total_segments"
    );
    assert!(
        lm.resources.routes.is_empty(),
        "no routing must be inserted for a rejected ADV"
    );
    assert!(
        lm.resources.inbound.is_empty(),
        "no per-segment transfer must be opened for a rejected ADV"
    );
}

#[test]
fn test_inbound_request_resource_ignored_without_handlers() {
    let mut lm = receiving_manager(64);
    assert!(!lm.settings.has_request_handler && !lm.settings.has_request_handler_ex);
    let adv = ResourceAdvertisement {
        is_request: true,
        request_id: Some(vec![0x22; 16]),
        ..offer([0x42; 32], 32)
    };
    assert!(matches!(
        lm.judge_advertisement(&LINK, &adv),
        AdvertisementVerdict::Ignore
    ));
    advertise(&mut lm, adv, request(), true);
    assert!(
        lm.resources.inbound.is_empty(),
        "request-resource must not open a transfer without handlers"
    );
    assert_eq!(lm.active_link_count(), 1);
}

#[test]
fn resource_application_policy_accepts_rejects_and_ignores() {
    let mut lm = receiving_manager(16);
    lm.set_resource_strategy(ResourceStrategy::AcceptApp);
    lm.set_resource_accept_handler();

    for hash in [[0xC9; 32], [0xCA; 32]] {
        advertise(
            &mut lm,
            offer(hash, 32),
            Err("invalid transfer dimensions".to_string()),
            true,
        );
    }
    assert!(next_packet(&mut lm).is_none());
    assert!(lm.resources.inbound.is_empty());

    let rejected_hash = [0xCB; 32];
    let rejected = offer(rejected_hash, b"rejected".len());
    assert!(matches!(
        lm.judge_advertisement(&LINK, &rejected),
        AdvertisementVerdict::Transfer {
            ask_application: true
        }
    ));
    advertise(&mut lm, rejected, request(), false);
    let rejection = next_packet(&mut lm).unwrap();
    assert_eq!(rejection.header.context, PacketContext::ResourceRcl);
    assert_eq!(rejection.body, rejected_hash);
    assert!(lm.resources.inbound.is_empty());

    let accepted_hash = [0xCC; 32];
    advertise(
        &mut lm,
        offer(accepted_hash, b"accepted".len()),
        request(),
        true,
    );
    assert_eq!(
        next_packet(&mut lm).unwrap().header.context,
        PacketContext::ResourceReq
    );
    assert!(lm.resources.inbound.contains(&key(accepted_hash)));

    lm.set_resource_strategy(ResourceStrategy::AcceptNone);
    let ignored_hash = [0xCD; 32];
    let ignored = offer(ignored_hash, b"ignored".len());
    assert!(
        matches!(
            lm.judge_advertisement(&LINK, &ignored),
            AdvertisementVerdict::Ignore
        ),
        "AcceptNone must not invoke the application callback"
    );
    advertise(&mut lm, ignored, request(), true);
    assert!(next_packet(&mut lm).is_none());
    assert!(!lm.resources.inbound.contains(&key(ignored_hash)));

    lm.set_request_handler();
    let request_hash = [0xCF; 32];
    let request_resource = ResourceAdvertisement {
        is_request: true,
        request_id: Some(vec![0x33; 16]),
        ..offer(request_hash, b"request resource".len())
    };
    assert!(matches!(
        lm.judge_advertisement(&LINK, &request_resource),
        AdvertisementVerdict::Transfer {
            ask_application: false
        }
    ));
    advertise(&mut lm, request_resource, request(), false);
    assert_eq!(
        next_packet(&mut lm).unwrap().header.context,
        PacketContext::ResourceReq
    );
    assert!(
        lm.resources.inbound.contains(&key(request_hash)),
        "request Resources bypass the ordinary application policy"
    );
}

#[test]
fn duplicate_resource_advertisement_does_not_repeat_admission_or_started() {
    let resource_id = [0x60; 32];
    let mut lm = receiving_manager(16);
    lm.set_resource_strategy(ResourceStrategy::AcceptApp);
    lm.set_resource_accept_handler();
    lm.set_accounting_event_channel(Port::unbounded());

    advertise(
        &mut lm,
        offer(resource_id, b"deduplicate me".len()),
        request(),
        true,
    );
    assert!(next_packet(&mut lm).is_some(), "initial ResourceReq");
    let again = offer(resource_id, b"deduplicate me".len());
    assert!(matches!(
        lm.judge_advertisement(&LINK, &again),
        AdvertisementVerdict::Ignore
    ));
    advertise(&mut lm, again, request(), true);

    assert!(next_packet(&mut lm).is_none());
    let events = accounted(&mut lm);
    assert_eq!(events.len(), 1);
    assert!(is_started(&events[0], resource_id));
    assert_eq!(lm.resources.inbound.len(), 1);
    assert!(lm.resources.lifecycles.contains(&key(resource_id)));
}

#[test]
fn offers_that_do_not_continue_a_transfer_are_rejected() {
    let mut lm = receiving_manager(16);
    let second = ResourceAdvertisement {
        original_hash: [0x61; 32],
        segment_index: 2,
        total_segments: 3,
        split: true,
        ..offer([0x62; 32], 32)
    };
    let AdvertisementVerdict::Reject { reason, .. } = lm.judge_advertisement(&LINK, &second)
    else {
        panic!("a split Resource begins with its first segment");
    };
    assert_eq!(reason, "split-resource transfer must begin with segment 1");

    let first = ResourceAdvertisement {
        original_hash: [0x61; 32],
        segment_index: 1,
        total_segments: 3,
        split: true,
        ..offer([0x62; 32], 32)
    };
    advertise(&mut lm, first, request(), false);
    let skipping = ResourceAdvertisement {
        original_hash: [0x61; 32],
        segment_index: 3,
        total_segments: 3,
        split: true,
        ..offer([0x63; 32], 32)
    };
    let AdvertisementVerdict::Reject { reason, .. } = lm.judge_advertisement(&LINK, &skipping)
    else {
        panic!("segments come in order");
    };
    assert_eq!(
        reason,
        "split-resource sequence does not match the active transfer"
    );
    let conflicting = offer([0x62; 32], 32);
    let AdvertisementVerdict::Reject { resource_id, reason } =
        lm.judge_advertisement(&LINK, &conflicting)
    else {
        panic!("a segment belongs to one Resource");
    };
    assert_eq!(resource_id, [0x61; 32]);
    assert_eq!(reason, "resource hash conflicts with an active transfer");
}

#[test]
fn invalid_solicited_hmu_immediately_concludes_inbound_resource() {
    let resource_id = [0x64; 32];
    let mut lm = receiving_manager(16);
    lm.set_accounting_event_channel(Port::unbounded());
    advertise(&mut lm, offer(resource_id, 2048), request(), false);
    assert!(next_packet(&mut lm).is_some(), "initial ResourceReq");

    let _ = lm.handle_inbound_packet(
        &data_header(PacketContext::ResourceHmu),
        1,
        PacketInput::HashmapUpdate {
            update: Some((
                resource_id,
                TransferAction::SendCancel(CancelType::Rcl, resource_id),
            )),
        },
    );

    let events = accounted(&mut lm);
    assert_eq!(events.len(), 2);
    assert!(is_started(&events[0], resource_id));
    assert!(is_failed(&events[1], resource_id));
    assert!(lm.resources.inbound.is_empty());
    assert!(lm.resources.lifecycles.is_empty());
}

#[test]
fn inbound_resource_lifecycle_reports_progress_and_completion() {
    let resource_id = [0x65; 32];
    let payload = b"inbound lifecycle".to_vec();
    let mut lm = receiving_manager(16);
    lm.set_resource_event_channel(Port::bounded(8));
    lm.set_accounting_event_channel(Port::unbounded());

    advertise(&mut lm, offer(resource_id, payload.len()), request(), false);
    assert_eq!(
        lm.notices.resource_event.as_mut().unwrap().drain(),
        vec![LinkResourceEvent::Started {
            link_id: LINK,
            resource_id,
            direction: LinkResourceDirection::Inbound,
            data_size: payload.len(),
            total_segments: 1,
        }]
    );
    assert_eq!(
        next_packet(&mut lm).unwrap().header.context,
        PacketContext::ResourceReq
    );

    let _ = last_part(&mut lm, resource_id, payload.len());
    let _ = lm.complete_segment(LINK, resource_id, whole(&payload), 1000);

    assert_eq!(
        lm.notices.resource_event.as_mut().unwrap().drain(),
        vec![
            LinkResourceEvent::Progress {
                link_id: LINK,
                resource_id,
                direction: LinkResourceDirection::Inbound,
                transferred: payload.len(),
                total: payload.len(),
            },
            LinkResourceEvent::Concluded {
                link_id: LINK,
                resource_id,
                direction: LinkResourceDirection::Inbound,
                conclusion: LinkResourceConclusion::Complete,
            }
        ]
    );

    let events = accounted(&mut lm);
    assert_eq!(
        events.len(),
        3,
        "progress is intentionally excluded from accounting"
    );
    assert!(matches!(
        &events[0],
        LinkManagerAccountingEvent::ResourceEvent(LinkResourceEvent::Started {
            link_id,
            resource_id: seen,
            direction: LinkResourceDirection::Inbound,
            data_size,
            total_segments: 1,
        }) if *link_id == LINK && *seen == resource_id && *data_size == payload.len()
    ));
    let LinkManagerAccountingEvent::ResourceCompletion(completion) = &events[1] else {
        panic!("expected ordered Resource completion");
    };
    assert_eq!(completion.link_id, LINK);
    assert_eq!(completion.resource_hash, resource_id);
    assert_eq!(completion.data, payload);
    assert!(is_complete(&events[2], resource_id));

    let proof = next_packet(&mut lm).unwrap();
    assert_eq!(proof.header.context, PacketContext::ResourcePrf);
    assert_eq!(proof.body, vec![0x22; 64]);
    assert!(lm.resources.inbound.is_empty());
}

#[test]
fn corrupt_inbound_resource_concludes_failed_and_releases_ownership() {
    let resource_id = [0x66; 32];
    let mut lm = receiving_manager(16);
    lm.set_resource_completion_channel(Port::bounded(1));
    lm.set_accounting_event_channel(Port::unbounded());
    advertise(
        &mut lm,
        offer(resource_id, b"wrong link keys".len()),
        request(),
        false,
    );
    assert!(next_packet(&mut lm).is_some(), "initial ResourceReq");
    let _ = last_part(&mut lm, resource_id, 15);
    assert!(lm
        .complete_segment(
            LINK,
            resource_id,
            Err("decryption failed".to_string()),
            1000
        )
        .is_none());

    let events = accounted(&mut lm);
    assert_eq!(events.len(), 2);
    assert!(is_started(&events[0], resource_id));
    assert!(is_failed(&events[1], resource_id));
    assert!(lm
        .notices
        .resource_completion
        .as_ref()
        .unwrap()
        .sent
        .is_empty());
    assert!(lm.resources.inbound.is_empty());
    assert!(!lm.resources.lifecycles.contains(&key(resource_id)));
    assert_eq!(
        next_packet(&mut lm).unwrap().header.context,
        PacketContext::ResourceRcl
    );
}

#[test]
fn inter_segment_deadline_concludes_once_and_cleans_coordinator() {
    let resource_id = [0xDA; 32];
    let mut lm = receiving_manager(16);
    lm.resources.splits.insert(
        key(resource_id),
        SplitCoordinator {
            total_segments: 2,
            assembled_count: 0,
        },
    );
    lm.resources.lifecycles.insert(
        key(resource_id),
        InboundResourceLifecycle {
            data_size: 1024,
            total_segments: 2,
            current_segment: None,
            is_request: false,
            is_response: false,
            request_id: None,
            inter_segment_deadline: Some(5000),
        },
    );
    lm.set_accounting_event_channel(Port::unbounded());

    let mut removals = Vec::new();
    let _ = lm.tick_link_traffic(&LINK, 4999, vec![], vec![], vec![], &mut removals);
    assert!(accounted(&mut lm).is_empty());
    let _ = lm.tick_link_traffic(&LINK, 6000, vec![], vec![], vec![], &mut removals);
    let events = accounted(&mut lm);
    assert_eq!(events.len(), 1);
    assert!(is_failed(&events[0], resource_id));
    assert!(lm.resources.lifecycles.is_empty());
    assert!(lm.resources.splits.is_empty());

    let _ = lm.tick_link_traffic(&LINK, 7000, vec![], vec![], vec![], &mut removals);
    assert!(
        accounted(&mut lm).is_empty(),
        "a claimed deadline must not emit a second terminal"
    );
}

#[test]
fn an_overdue_resource_leaves_no_trace_of_its_segments() {
    let resource_id = [0xDB; 32];
    let mut lm = receiving_manager(16);
    lm.set_accounting_event_channel(Port::unbounded());
    lm.resources.splits.insert(
        key(resource_id),
        SplitCoordinator {
            total_segments: 3,
            assembled_count: 1,
        },
    );
    lm.resources.routes.insert(
        key([0xDC; 32]),
        SegmentRoute {
            original_hash: resource_id,
            segment_index: 2,
        },
    );
    lm.resources
        .inbound
        .insert(key([0xDC; 32]), InboundTransfer { data_size: 9 });
    lm.resources
        .inbound
        .insert(key([0xDD; 32]), InboundTransfer { data_size: 9 });
    lm.resources.lifecycles.insert(
        key(resource_id),
        InboundResourceLifecycle {
            data_size: 9,
            total_segments: 3,
            current_segment: None,
            is_request: false,
            is_response: false,
            request_id: None,
            inter_segment_deadline: Some(10),
        },
    );
    let mut removals = vec![LinkRemoval {
        link_id: LINK,
        endpoint_closing: false,
    }];
    let _ = lm.tick_link_traffic(&LINK, 10, vec![], vec![], vec![], &mut removals);
    let events = accounted(&mut lm);
    assert_eq!(events.len(), 1);
    assert!(is_failed(&events[0], resource_id));
    assert!(lm.resources.routes.is_empty());
    assert!(!lm.resources.inbound.contains(&key([0xDC; 32])));
    assert!(lm.resources.inbound.contains(&key([0xDD; 32])));

    // Even the end of its Link has nothing more to say of it.
    lm.finish_tick(removals);
    assert!(accounted(&mut lm)
        .iter()
        .all(|event| !is_failed(event, resource_id)));
}

#[test]
fn completed_request_resource_dispatches_handler_not_resource_callbacks() {
    let resource_hash = [0x67; 32];
    let request_data = vec![0x5A; 431 * 2];
    let mut lm = manager(64, [0xA2; 16]);
    lm.links.insert(LINK, link(LinkState::Active, false));
    lm.set_resource_completion_channel(Port::bounded(1));
    lm.set_resource_completed_channel(Port::bounded(1));
    lm.set_accounting_event_channel(Port::unbounded());
    assert!(lm.register_request_handler(
        "bulk".to_string(),
        [0xB0; 16],
        AllowPolicy::AllowAll,
        None,
        false
    ));

    let adv = ResourceAdvertisement {
        is_request: true,
        request_id: Some(vec![0x44; 16]),
        ..offer(resource_hash, request_data.len())
    };
    advertise(&mut lm, adv, request(), false);
    assert!(lm.resources.pending_requests.contains(&key(resource_hash)));
    let _initial_request = next_packet(&mut lm).expect("initial Resource request");

    let _ = last_part(&mut lm, resource_hash, request_data.len());
    let payload = lm.complete_segment(LINK, resource_hash, whole(&request_data), 1000);
    assert_eq!(payload, Some(request_data));
    assert!(lm
        .notices
        .resource_completion
        .as_ref()
        .unwrap()
        .sent
        .is_empty());
    assert!(lm
        .notices
        .resource_completed
        .as_ref()
        .unwrap()
        .sent
        .is_empty());
    let events = accounted(&mut lm);
    assert_eq!(
        events.len(),
        2,
        "request Resources must not enter the ordinary completion stream"
    );
    assert!(is_started(&events[0], resource_hash));
    assert!(is_complete(&events[1], resource_hash));
    assert!(!lm.resources.pending_requests.contains(&key(resource_hash)));
    assert_eq!(
        next_packet(&mut lm).unwrap().header.context,
        PacketContext::ResourcePrf
    );

    lm.answer_request(
        &LINK,
        Some(b"accepted".to_vec()),
        built([0x68; 32]),
        None,
        None,
    );
    let response = next_packet(&mut lm).unwrap();
    assert_eq!(response.header.context, PacketContext::Response);
    assert_eq!(response.body, b"accepted");
}

#[test]
fn request_resource_transfer_can_start_before_responder_lrrtt_activation() {
    let mut lm = manager(64, [0x36; 16]);
    lm.links.insert(LINK, link(LinkState::Handshake, false));

    assert!(
        lm.start_resource_transfer(&LINK, &[0; 6], built([0x69; 32])).is_none(),
        "ordinary callers still require an active link"
    );
    lm.set_resource_event_channel(Port::bounded(4));
    let request = ResourceTransferStart {
        allow_handshake: true,
        ..ResourceTransferStart::ordinary(vec![0x5A; 14], Some(vec![1; 3]), false)
    };
    let resource_hash = lm
        .start_resource_transfer_inner(&LINK, &request, built([0x6A; 32]))
        .expect("request-triggered resource can start during handshake");
    let packet = next_packet(&mut lm).expect("resource adv queued");
    assert_eq!(packet.header.destination_hash, LINK);
    assert_eq!(packet.header.context, PacketContext::ResourceAdv);
    assert!(lm.resources.outbound.contains(&key(resource_hash)));
    assert_eq!(
        lm.notices.resource_event.as_mut().unwrap().drain(),
        vec![LinkResourceEvent::Started {
            link_id: LINK,
            resource_id: resource_hash,
            direction: LinkResourceDirection::Outbound,
            data_size: 14,
            total_segments: 1,
        }]
    );
}

#[test]
fn resources_are_cut_when_they_exceed_one_efficient_segment() {
    let mut lm = manager(64, [0x36; 16]);
    lm.settings.constants.max_efficient_size = 10;
    lm.links.insert(LINK, link(LinkState::Active, false));
    let plan = |lm: &LinkManager, len: usize, metadata: Option<usize>| {
        lm.plan_resource_transfer(
            &LINK,
            &ResourceTransferStart::ordinary(
                vec![0; len],
                metadata.map(|n| vec![0; n]),
                false,
            ),
        )
    };
    assert_eq!(plan(&lm, 10, None), Some(SegmentPlan::Single));
    assert_eq!(plan(&lm, 11, None), Some(SegmentPlan::Split));
    // Metadata is framed by its length, in three bytes.
    assert_eq!(plan(&lm, 5, Some(2)), Some(SegmentPlan::Single));
    assert_eq!(plan(&lm, 5, Some(3)), Some(SegmentPlan::Split));
    assert_eq!(plan(&lm, 11, Some(0)), Some(SegmentPlan::Split));
    lm.links.insert(LINK, link(LinkState::Handshake, false));
    assert_eq!(plan(&lm, 1, None), None);
}

#[test]
fn payloads_take_the_smallest_carrier() {
    let sealed = || {
        Some(SealedPacket {
            body: vec![1; 64],
            packet_hash: [0x6B; 32],
        })
    };
    let mut lm = manager(64, [0x36; 16]);
    lm.links.insert(LINK, link(LinkState::Active, false));
    assert!(matches!(
        lm.send_link_payload(&LINK, &[0; 431], sealed(), built([0x6C; 32])),
        Ok(LinkPayloadSendReceipt::Packet(receipt)) if receipt.packet_hash == [0x6B; 32]
    ));
    assert!(matches!(
        lm.send_link_payload(&LINK, &[0; 432], sealed(), built([0x6C; 32])),
        Ok(LinkPayloadSendReceipt::Resource(receipt)) if receipt.resource_hash == [0x6C; 32]
    ));
    assert!(matches!(
        lm.send_link_payload(&[0; 16], &[0; 1], sealed(), built([0x6C; 32])),
        Err(LinkSendError::LinkNotFound)
    ));
    let nothing = BuiltResource {
        segments: vec![],
        first_action: TransferAction::Nothing,
    };
    assert!(matches!(
        lm.send_link_resource(&LINK, &[0], nothing),
        Err(LinkSendError::ResourceStartFailed)
    ));
}

#[test]
fn a_single_resource_can_be_pulled() {
    let mut lm = receiving_manager(16);
    lm.set_accounting_event_channel(Port::unbounded());
    advertise(&mut lm, offer([0x6D; 32], 3), request(), false);
    assert!(lm.can_complete_resource(&LINK, &[0x6D; 32]));
    assert!(!lm.can_complete_resource(&LINK, &[0x6E; 32]));
    let pulled = lm.complete_resource(
        &LINK,
        &[0x6D; 32],
        Ok((vec![1, 2, 3], vec![0x22; 64], None)),
    );
    assert_eq!(pulled, Some((vec![1, 2, 3], vec![0x22; 64])));
    assert!(lm.resources.inbound.is_empty());
    assert!(lm
        .complete_resource(&LINK, &[0x6D; 32], Ok((vec![], vec![], None)))
        .is_none());
}
