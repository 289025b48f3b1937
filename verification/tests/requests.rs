//! Requests: who is asked, what goes back, and how.

use rns_runtime::assoc::{Assoc, ResourceKey};
use rns_runtime::commands::{CommandOutcome, LinkManagerCommand};
use rns_runtime::link::{Link, LinkState, ResourceStrategy, TransferAction};
use rns_runtime::manager::{AllowPolicy, LinkManager, ProtocolConstants};
use rns_runtime::metadata::pack_file_name_metadata;
use rns_runtime::packets::{FollowUp, PacketInput, ParsedRequest};
use rns_runtime::port::Port;
use rns_runtime::requests::{
    plain_outcome, reply_parts, response_resource, RequestDispatch, RequestOutcome,
};
use rns_runtime::resources::OutboundTransfer;
use rns_runtime::sending::BuiltResource;
use rns_runtime::wire::{
    make_header, DestinationType, LinkEndpointSendResult, Packet, PacketContext, PacketType,
    TransportMessage,
};

const LINK: [u8; 16] = [0x51; 16];
const REMOTE: [u8; 16] = [0xA7; 16];
const PATH: [u8; 16] = [0xB0; 16];

fn constants() -> ProtocolConstants {
    ProtocolConstants {
        max_segments: 4096,
        max_efficient_size: 1_048_575,
        map_hash_len: 4,
        hashmap_is_exhausted: 0xFF,
        keepalive_request: 0xFF,
        keepalive_response: 0xFE,
        system_message_type_min: 0xF000,
    }
}

fn manager(limit: usize, destination_hash: [u8; 16]) -> LinkManager {
    LinkManager::new(Port::bounded(limit), destination_hash, true, constants())
}

fn link(state: LinkState, is_initiator: bool) -> Link {
    Link {
        state,
        is_initiator,
        interface_id: 1,
        mdu: 431,
        has_session_keys: true,
        identified: false,
        remote_identity: None,
        resource_strategy: ResourceStrategy::AcceptAll,
        expected_hops: None,
        has_channel: false,
    }
}

/// The next packet that went to the transport for a Link.
fn next_packet(manager: &mut LinkManager) -> Option<Packet<Vec<u8>>> {
    if manager.transport.port.sent.is_empty() {
        return None;
    }
    match manager.transport.port.sent.remove(0) {
        TransportMessage::SendLinkEndpoint { packet, ticket, .. } => {
            manager
                .transport
                .replies
                .send
                .insert(ticket, Some(LinkEndpointSendResult::Sent));
            Some(packet)
        }
        other => panic!("expected a Link packet, got {other:?}"),
    }
}

fn built(resource_hash: [u8; 32]) -> BuiltResource {
    BuiltResource {
        segments: vec![OutboundTransfer {
            resource_hash,
            original_hash: None,
            segment_index: 1,
            total_segments: 1,
            advertisement_data_size: 16,
        }],
        first_action: TransferAction::SendAdvertisement(vec![0xAD; 80]),
    }
}

/// A request packet arrives; what comes of it is handed back for its dispatch.
fn request_packet(lm: &mut LinkManager, request_id: [u8; 16], data: &[u8]) -> ParsedRequest {
    let follow_up = lm.handle_inbound_packet(
        &make_header(
            DestinationType::Link,
            PacketType::Data,
            LINK,
            PacketContext::Request,
        ),
        1,
        PacketInput::Request {
            parsed: Some(ParsedRequest {
                request_id,
                path_hash: PATH,
                requested_at: 1_234.5f64.to_bits(),
                data: data.to_vec(),
            }),
        },
    );
    match follow_up {
        FollowUp::Dispatch(request) => request,
        other => panic!("expected a request, got {other:?}"),
    }
}

#[test]
fn destination_request_handler_receives_context_and_enforces_allowlist() {
    let mut lm = manager(16, [0xA1; 16]);
    let mut identified = link(LinkState::Active, false);
    identified.identified = true;
    identified.remote_identity = Some(REMOTE);
    lm.links.insert(LINK, identified);
    assert!(lm.register_request_handler(
        "status".to_string(),
        PATH,
        AllowPolicy::AllowList,
        Some(vec![REMOTE]),
        true
    ));

    let request_id = [0x0D; 16];
    let request = request_packet(&mut lm, request_id, b"hello");
    assert_eq!(
        lm.dispatch_request(&LINK, &request.path_hash),
        RequestDispatch::Registered {
            auto_compress: true
        }
    );
    let context = lm.destination_request(&LINK, request).unwrap();
    assert_eq!(context.path, "status");
    assert_eq!(context.data, b"hello");
    assert_eq!(context.request_id, request_id);
    assert_eq!(context.link_id, LINK);
    assert_eq!(context.remote_identity, Some(REMOTE));
    assert!(f64::from_bits(context.requested_at) > 0.0);

    let parts = reply_parts(RequestOutcome::Reply(b"ok".to_vec()), request_id);
    assert_eq!(parts.response, Some(b"ok".to_vec()));
    lm.answer_request(&LINK, parts.response, built([0x01; 32]), None, None);
    let response = next_packet(&mut lm).expect("inline response");
    assert_eq!(response.header.context, PacketContext::Response);
    assert_eq!(response.body, b"ok");
    assert!(response.seal);

    assert!(lm.register_request_handler(
        "status".to_string(),
        PATH,
        AllowPolicy::AllowList,
        Some(vec![[0xFF; 16]]),
        false
    ));
    let denied = request_packet(&mut lm, [0x0E; 16], b"denied");
    assert_eq!(
        lm.dispatch_request(&LINK, &denied.path_hash),
        RequestDispatch::Denied
    );
    assert!(lm.destination_request(&LINK, denied).is_none());
    assert!(next_packet(&mut lm).is_none());
    assert!(lm.deregister_request_handler(&PATH));
    assert!(!lm.deregister_request_handler(&PATH));
}

#[test]
fn requests_go_to_the_handler_that_is_there() {
    let mut lm = manager(16, [0xA1; 16]);
    assert_eq!(
        lm.dispatch_request(&LINK, &PATH),
        RequestDispatch::NotReady
    );
    lm.links.insert(LINK, link(LinkState::Stale, false));
    assert_eq!(
        lm.dispatch_request(&LINK, &PATH),
        RequestDispatch::NotReady
    );
    lm.links.insert(LINK, link(LinkState::Handshake, true));
    assert_eq!(
        lm.dispatch_request(&LINK, &PATH),
        RequestDispatch::NotReady
    );
    lm.links.insert(LINK, link(LinkState::Active, false));
    assert_eq!(
        lm.dispatch_request(&LINK, &PATH),
        RequestDispatch::Unhandled
    );
    lm.set_request_handler();
    assert_eq!(lm.dispatch_request(&LINK, &PATH), RequestDispatch::Plain);
    lm.set_request_handler_ex();
    assert_eq!(
        lm.dispatch_request(&LINK, &PATH),
        RequestDispatch::Extended
    );
    for (allow, dispatch) in [
        (AllowPolicy::AllowNone, RequestDispatch::Denied),
        (AllowPolicy::AllowList, RequestDispatch::Denied),
        (
            AllowPolicy::AllowAll,
            RequestDispatch::Registered {
                auto_compress: false,
            },
        ),
    ] {
        assert!(lm.register_request_handler("p".to_string(), PATH, allow, None, false));
        assert_eq!(lm.dispatch_request(&LINK, &PATH), dispatch);
    }
    assert!(!lm.register_request_handler(
        String::new(),
        [0xB1; 16],
        AllowPolicy::AllowAll,
        None,
        false
    ));
    assert!(matches!(
        lm.handle_command(LinkManagerCommand::DeregisterRequestHandler { path_hash: PATH }),
        CommandOutcome::Handler(true)
    ));
    assert!(matches!(
        lm.handle_command(LinkManagerCommand::RegisterRequestHandler {
            path: "q".to_string(),
            path_hash: [0xB2; 16],
            allow: AllowPolicy::AllowAll,
            allowed_list: vec![],
            auto_compress: true,
        }),
        CommandOutcome::Handler(true)
    ));
    assert_eq!(
        lm.dispatch_request(&LINK, &[0xB2; 16]),
        RequestDispatch::Registered {
            auto_compress: true
        }
    );
}

#[test]
fn responder_accepts_packet_request_before_lrrtt_activation() {
    let mut lm = manager(16, [0x37; 16]);
    lm.links.insert(LINK, link(LinkState::Handshake, false));
    assert!(lm.register_request_handler(
        "fetch".to_string(),
        PATH,
        AllowPolicy::AllowAll,
        None,
        false
    ));

    let request = request_packet(&mut lm, [0x0F; 16], b"file.bin");
    assert_eq!(
        lm.dispatch_request(&LINK, &request.path_hash),
        RequestDispatch::Registered {
            auto_compress: false
        }
    );
    lm.answer_request(
        &LINK,
        Some(b"ready".to_vec()),
        built([0x02; 32]),
        None,
        None,
    );
    assert_eq!(
        lm.get_link(&LINK).unwrap().state,
        LinkState::Handshake,
        "request handling must not synthesize the missing LRRTT"
    );
    let response = next_packet(&mut lm).expect("early request response");
    assert_eq!(response.header.context, PacketContext::Response);
    assert_eq!(response.body, b"ready");
}

#[test]
fn reply_file_starts_response_resource_with_filename_metadata() {
    let request_id = [0x10; 16];
    let mut lm = manager(16, [0x42; 16]);
    lm.links.insert(LINK, link(LinkState::Handshake, false));
    let file_bytes = b"PNG-BYTES".to_vec();
    let metadata = pack_file_name_metadata("photos/pic.png");

    let parts = reply_parts(
        RequestOutcome::ReplyFile {
            data: file_bytes.clone(),
            metadata: Some(metadata.clone()),
            auto_compress: true,
        },
        request_id,
    );
    assert!(parts.response.is_none());
    assert!(parts.follow_up.is_none());
    let start = parts.file.expect("a file reply is a Resource");
    assert!(start.is_response);
    assert!(start.allow_handshake);
    assert!(start.auto_compress);
    assert_eq!(start.data, file_bytes);
    assert_eq!(start.metadata, Some(metadata));
    assert_eq!(start.request_id.as_deref(), Some(request_id.as_slice()));
    assert!(lm.plan_resource_transfer(&LINK, &start).is_some());

    lm.answer_request(
        &LINK,
        None,
        built([0x03; 32]),
        Some((start, built([0x04; 32]))),
        None,
    );
    assert_eq!(
        lm.resources.outbound.len(),
        1,
        "ReplyFile must start one outbound response Resource"
    );
    assert!(lm.resources.outbound.contains(&ResourceKey {
        link_id: LINK,
        hash: [0x04; 32]
    }));
    assert_eq!(
        next_packet(&mut lm).unwrap().header.context,
        PacketContext::ResourceAdv
    );
    while let Some(packet) = next_packet(&mut lm) {
        assert_ne!(
            packet.header.context,
            PacketContext::Response,
            "ReplyFile must not emit a packed inline response"
        );
    }
}

#[test]
fn replies_with_a_resource_acknowledge_first() {
    let parts = reply_parts(
        RequestOutcome::ReplyWithResource {
            ack: vec![1],
            data: vec![2, 3],
            metadata: None,
            auto_compress: false,
        },
        [0x11; 16],
    );
    assert_eq!(parts.response, Some(vec![1]));
    assert!(parts.file.is_none());
    let start = parts.follow_up.unwrap();
    assert!(!start.is_response);
    assert_eq!(start.request_id, None);
    assert_eq!(start.data, vec![2, 3]);

    let mut lm = manager(16, [0x42; 16]);
    lm.links.insert(LINK, link(LinkState::Active, false));
    lm.answer_request(
        &LINK,
        Some(vec![1]),
        built([0x05; 32]),
        None,
        Some((start, built([0x06; 32]))),
    );
    assert_eq!(
        next_packet(&mut lm).unwrap().header.context,
        PacketContext::Response
    );
    assert_eq!(
        next_packet(&mut lm).unwrap().header.context,
        PacketContext::ResourceAdv
    );

    let dropped = reply_parts(RequestOutcome::Drop, [0x11; 16]);
    assert!(dropped.response.is_none() && dropped.file.is_none() && dropped.follow_up.is_none());
    assert!(matches!(plain_outcome(None), RequestOutcome::Drop));
    assert!(matches!(
        plain_outcome(Some(vec![7])),
        RequestOutcome::Reply(data) if data == vec![7]
    ));
}

#[test]
fn long_responses_travel_as_resources() {
    let mut lm = manager(16, [0x42; 16]);
    lm.links.insert(LINK, link(LinkState::Active, false));
    assert!(lm.response_fits_packet(&LINK, 431));
    assert!(!lm.response_fits_packet(&LINK, 432));
    let start = response_resource(vec![0; 432], [0x12; 16], true);
    assert!(start.is_response && start.auto_compress && !start.allow_handshake);
    assert_eq!(start.request_id.as_deref(), Some([0x12; 16].as_slice()));
    lm.answer_request(
        &LINK,
        Some(vec![0; 432]),
        built([0x07; 32]),
        None,
        None,
    );
    assert_eq!(
        next_packet(&mut lm).unwrap().header.context,
        PacketContext::ResourceAdv
    );
}

#[test]
fn association_lists_hold_one_entry_per_key() {
    let mut list: Assoc<u64, u8> = Assoc::new();
    assert!(list.is_empty());
    list.insert(1, 10);
    list.insert(2, 20);
    list.insert(1, 11);
    assert_eq!(list.len(), 2);
    assert_eq!(list.get(&1), Some(&11));
    *list.get_mut(&2).unwrap() = 21;
    assert_eq!(list.remove(&2), Some(21));
    assert_eq!(list.remove(&2), None);
    assert!(list.contains(&1) && !list.contains(&2));
    list.clear();
    assert!(list.is_empty());
}
