//! The initiator side of Links: one query from the path to the teardown.

use rns_runtime::client::{
    build_data_packet, build_link_request_packet, build_proof_packet,
    map_destination_resolve_error, send_failure, time_remaining, DestinationResolveError,
    LinkClientError, LinkQueryResponse, PartOffer, ResponseHashmap, ResponseInput, ResponseOffer,
    ResponseSegment, ResponseWait, SendReport, WaitEvent,
};
use rns_runtime::link::{CancelType, TransferAction};
use rns_runtime::query::{
    Action, LinkClient, NewLink, ProofWait, Query, QueryAction, QueryEvent,
};
use rns_runtime::receiving::PartOutcome;
use rns_runtime::wire::{
    make_header, DestinationType, PacketContext, PacketHeader, PacketType,
};

const DESTINATION: [u8; 16] = [0x71; 16];
const LINK: [u8; 16] = [0x51; 16];
const REQUEST: [u8; 16] = [0x52; 16];

fn header(context: PacketContext) -> Option<PacketHeader> {
    Some(make_header(
        DestinationType::Link,
        PacketType::Data,
        LINK,
        context,
    ))
}

fn packet(context: PacketContext, input: ResponseInput) -> WaitEvent {
    WaitEvent::Packet {
        header: header(context),
        interface_id: 7,
        input,
    }
}

fn wait() -> ResponseWait {
    ResponseWait::new(LINK, REQUEST, 7)
}

fn offer(is_response: bool, request_id: Option<Vec<u8>>) -> WaitEvent {
    packet(
        PacketContext::ResourceAdv,
        ResponseInput::Advertisement(ResponseOffer::Offer {
            is_response,
            request_id,
            resource_hash: [0x61; 32],
            transfer: Ok(TransferAction::SendRequest(vec![0x11; 37])),
        }),
    )
}

/// The words of the error that a wait came to.
fn failure(wait: &mut ResponseWait, event: WaitEvent) -> String {
    match wait.step(event).done {
        Some(Err(error)) => error.message(),
        other => panic!("expected an error, got {other:?}"),
    }
}

#[test]
fn build_link_request_packet_has_link_request_type() {
    let packet = build_link_request_packet([0xAA; 16], &[0x01, 0x02, 0x03]);
    assert_eq!(packet.header.flags.packet_type, PacketType::LinkRequest);
    assert_eq!(packet.header.destination_hash, [0xAA; 16]);
    assert_eq!(
        packet.header.flags.destination_type,
        DestinationType::Single
    );
    assert_eq!(packet.body, vec![0x01, 0x02, 0x03]);
}

#[test]
fn build_data_packet_carries_context() {
    let packet = build_data_packet([0xBB; 16], PacketContext::Lrrtt, &[0x42]);
    assert_eq!(packet.header.context, PacketContext::Lrrtt);
    assert_eq!(packet.header.flags.packet_type, PacketType::Data);
    assert_eq!(packet.body, vec![0x42]);
    let proof = build_proof_packet([0xBB; 16], PacketContext::ResourcePrf, &[0x43]);
    assert_eq!(proof.header.flags.packet_type, PacketType::Proof);
    assert_eq!(proof.header.context, PacketContext::ResourcePrf);
}

#[test]
fn time_remaining_returns_err_after_deadline() {
    let past = 5000;
    assert!(matches!(
        time_remaining(past + 1, past),
        Err(LinkClientError::Timeout(_))
    ));
    assert!(matches!(
        time_remaining(past, past),
        Err(LinkClientError::Timeout("overall query"))
    ));
    assert!(matches!(time_remaining(past - 1, past), Ok(1)));
}

#[test]
fn resolve_errors_keep_their_meaning() {
    assert!(matches!(
        map_destination_resolve_error(DestinationResolveError::Timeout),
        LinkClientError::Timeout("destination resolution")
    ));
    assert!(matches!(
        map_destination_resolve_error(DestinationResolveError::TransportUnavailable),
        LinkClientError::TransportUnavailable
    ));
    assert!(matches!(
        map_destination_resolve_error(DestinationResolveError::UnexpectedResponse("path")),
        LinkClientError::UnexpectedResponse(what) if what == "path"
    ));
}

#[test]
fn errors_are_put_into_words() {
    assert_eq!(
        LinkClientError::TransportUnavailable.message(),
        "transport channel closed or full"
    );
    assert_eq!(
        LinkClientError::Timeout("response").message(),
        "timed out waiting for response"
    );
    assert_eq!(
        LinkClientError::PubkeyNotDiscovered.message(),
        "could not discover remote identity public key for destination"
    );
    assert_eq!(
        LinkClientError::ProofInvalid("x".to_string()).message(),
        "link proof validation failed: x"
    );
    assert_eq!(
        LinkClientError::NoSigningKey.message(),
        "local identity has no signing key (cannot identify on link)"
    );
    assert_eq!(
        LinkClientError::LinkCrypto("y".to_string()).message(),
        "encryption failure on link: y"
    );
}

#[test]
fn sending_fails_with_its_reason() {
    assert!(send_failure(SendReport::Sent).is_none());
    assert_eq!(
        send_failure(SendReport::SealFailed("no keys".to_string()))
            .unwrap()
            .message(),
        "encryption failure on link: resource control: no keys"
    );
    assert!(matches!(
        send_failure(SendReport::TransportUnavailable),
        Some(LinkClientError::TransportUnavailable)
    ));
}

fn advance(query: Query, now: u64, event: QueryEvent) -> (Query, Action) {
    query.advance(now, event)
}

/// A query that has been asked and waits for its response.
fn waiting_query() -> Query {
    let (query, action) = LinkClient::new(true).query(DESTINATION, 1000, 9000);
    assert!(matches!(action, QueryAction::Resolve { timeout: 8000 }));
    let (query, action) = advance(
        query,
        1100,
        QueryEvent::Resolved(Ok(NewLink {
            link_id: LINK,
            request_data: vec![1, 2, 3],
        })),
    );
    assert!(matches!(action, QueryAction::Register { link_id } if link_id == LINK));
    let (query, action) = advance(
        query,
        1200,
        QueryEvent::Registered {
            request_data: Some(vec![1, 2, 3]),
        },
    );
    assert!(matches!(
        action,
        QueryAction::SendRequest(packet)
            if packet.header.destination_hash == DESTINATION && packet.body == vec![1, 2, 3]
    ));
    let (query, action) = advance(query, 1300, QueryEvent::Sent(true));
    assert!(matches!(action, QueryAction::CheckKey));
    let (query, action) = advance(query, 1400, QueryEvent::KeyChecked(Ok(())));
    assert!(matches!(action, QueryAction::AwaitProof { timeout: 7600 }));
    let (query, action) = advance(
        query,
        1500,
        QueryEvent::ProofWaited(ProofWait::Valid { interface_id: 7 }),
    );
    assert!(matches!(
        action,
        QueryAction::Bind { interface_id: 7, .. }
    ));
    let (query, action) = advance(
        query,
        1600,
        QueryEvent::Bound {
            rtt_data: Some(vec![4]),
        },
    );
    assert!(matches!(
        action,
        QueryAction::Send(packet)
            if packet.header.context == PacketContext::Lrrtt && packet.body == vec![4]
    ));
    let (query, action) = advance(query, 1700, QueryEvent::Sent(true));
    assert!(matches!(action, QueryAction::Identify));
    let (query, action) = advance(query, 1800, QueryEvent::Identified(Ok(vec![5])));
    assert!(matches!(
        action,
        QueryAction::Send(packet) if packet.header.context == PacketContext::LinkIdentify
    ));
    let (query, action) = advance(query, 1900, QueryEvent::Sent(true));
    assert!(matches!(action, QueryAction::Prepare));
    let (query, action) = advance(query, 2000, QueryEvent::Prepared(Ok(vec![6])));
    assert!(matches!(
        action,
        QueryAction::Send(packet) if packet.header.context == PacketContext::Request
    ));
    let (query, action) = advance(
        query,
        2100,
        QueryEvent::Asked {
            request_id: Some(REQUEST),
        },
    );
    assert!(matches!(
        action,
        QueryAction::AwaitResponse { link_id, request_id, interface_id: 7, timeout: 6900 }
            if link_id == LINK && request_id == REQUEST
    ));
    query
}

#[test]
fn a_query_is_answered_and_torn_down() {
    let answer = LinkQueryResponse {
        data: vec![9],
        metadata: None,
    };
    let (query, action) = advance(waiting_query(), 2200, QueryEvent::Answered(Ok(answer)));
    assert!(matches!(action, QueryAction::TearDown));
    let (query, action) = advance(
        query,
        2300,
        QueryEvent::TornDown {
            teardown: Some(vec![0xEE]),
        },
    );
    assert!(matches!(action, QueryAction::SendFinal(_)));
    let (query, action) = advance(query, 2400, QueryEvent::Sent(true));
    assert!(matches!(
        action,
        QueryAction::Finish { answer: Ok(answer), registered: true, released: true }
            if answer.data == vec![9]
    ));
    let (_, action) = advance(query, 2500, QueryEvent::Sent(true));
    assert!(matches!(action, QueryAction::Confused));
}

#[test]
fn send_close_uses_authenticated_teardown_payload() {
    let (query, _) = advance(
        waiting_query(),
        2200,
        QueryEvent::Answered(Err(LinkClientError::Timeout("response"))),
    );
    let (query, action) = advance(
        query,
        2300,
        QueryEvent::TornDown {
            teardown: Some(vec![0xEE; 32]),
        },
    );
    let QueryAction::SendFinal(packet) = action else {
        panic!("expected outbound close packet");
    };
    assert_eq!(packet.header.context, PacketContext::LinkClose);
    assert_eq!(packet.header.destination_hash, LINK);
    assert_eq!(packet.body, vec![0xEE; 32]);
    let (_, action) = advance(query, 2400, QueryEvent::Sent(false));
    assert!(matches!(
        action,
        QueryAction::Finish {
            answer: Err(LinkClientError::Timeout("response")),
            registered: true,
            released: false,
        }
    ));
}

#[test]
fn queries_fail_where_their_steps_fail() {
    let finished = |action: Action| match action {
        QueryAction::Finish {
            answer: Err(error),
            registered,
            released: false,
        } => (error.message(), registered),
        other => panic!("expected the end of the query, got {other:?}"),
    };
    let begin = || LinkClient::new(false).query(DESTINATION, 1000, 9000).0;
    let registering = || {
        advance(
            begin(),
            1000,
            QueryEvent::Resolved(Ok(NewLink {
                link_id: LINK,
                request_data: vec![],
            })),
        )
        .0
    };
    let requesting = || {
        advance(
            registering(),
            1000,
            QueryEvent::Registered {
                request_data: Some(vec![]),
            },
        )
        .0
    };
    let checking = || advance(requesting(), 1000, QueryEvent::Sent(true)).0;
    let proving = || advance(checking(), 1000, QueryEvent::KeyChecked(Ok(()))).0;
    let unavailable = "transport channel closed or full".to_string();

    let (_, action) = LinkClient::new(true).query(DESTINATION, 9000, 9000);
    assert_eq!(
        finished(action),
        ("timed out waiting for overall query".to_string(), false)
    );
    let (_, action) = advance(
        begin(),
        1000,
        QueryEvent::Resolved(Err(DestinationResolveError::Timeout)),
    );
    assert_eq!(
        finished(action),
        (
            "timed out waiting for destination resolution".to_string(),
            false
        )
    );
    let (_, action) = advance(
        registering(),
        1000,
        QueryEvent::Registered { request_data: None },
    );
    assert_eq!(finished(action), (unavailable.clone(), false));
    let (_, action) = advance(requesting(), 1000, QueryEvent::Sent(false));
    assert_eq!(finished(action), (unavailable.clone(), true));
    let (_, action) = advance(
        checking(),
        1000,
        QueryEvent::KeyChecked(Err("bad key".to_string())),
    );
    assert_eq!(
        finished(action),
        (
            "link proof validation failed: verify key: bad key".to_string(),
            true
        )
    );
    for (wait, words) in [
        (ProofWait::Elapsed, "timed out waiting for link proof"),
        (
            ProofWait::LinkClosed,
            "link establishment failed: link closed",
        ),
        (
            ProofWait::DeliveryClosed,
            "link establishment failed: destination channel closed",
        ),
    ] {
        let (_, action) = advance(proving(), 1000, QueryEvent::ProofWaited(wait));
        assert_eq!(finished(action), (words.to_string(), true));
    }
    let bound = advance(
        proving(),
        1000,
        QueryEvent::ProofWaited(ProofWait::Valid { interface_id: 7 }),
    )
    .0;
    let measuring = advance(
        bound,
        1000,
        QueryEvent::Bound {
            rtt_data: Some(vec![4]),
        },
    )
    .0;
    let (_, action) = advance(measuring, 1000, QueryEvent::Sent(true));
    assert_eq!(
        finished(action),
        (
            "local identity has no signing key (cannot identify on link)".to_string(),
            true
        )
    );
}

#[test]
fn the_response_to_the_request_ends_the_wait() {
    let mut wait = wait();
    let foreign = packet(
        PacketContext::Response,
        ResponseInput::Response(Ok(([0x99; 16], vec![1]))),
    );
    assert!(wait.step(foreign).done.is_none());
    let ours = packet(
        PacketContext::Response,
        ResponseInput::Response(Ok((REQUEST, vec![2]))),
    );
    assert!(matches!(
        wait.step(ours).done,
        Some(Ok(LinkQueryResponse { data, metadata: None })) if data == vec![2]
    ));
}

#[test]
fn packets_of_others_are_passed_over() {
    let mut wait = wait();
    let response = || ResponseInput::Response(Ok((REQUEST, vec![2])));
    for event in [
        WaitEvent::Packet {
            header: None,
            interface_id: 7,
            input: response(),
        },
        WaitEvent::Packet {
            header: header(PacketContext::Response),
            interface_id: 8,
            input: response(),
        },
        WaitEvent::Packet {
            header: Some(make_header(
                DestinationType::Link,
                PacketType::Data,
                [0x99; 16],
                PacketContext::Response,
            )),
            interface_id: 7,
            input: response(),
        },
        WaitEvent::LinkClosed {
            link_id: [0x99; 16],
        },
        packet(
            PacketContext::LinkClose,
            ResponseInput::Close { verified: false },
        ),
        offer(false, Some(REQUEST.to_vec())),
        offer(true, Some(vec![0x99; 16])),
        offer(true, None),
        WaitEvent::Other,
    ] {
        let step = wait.step(event);
        assert!(step.send.is_none() && step.complete.is_none() && step.done.is_none());
    }
    assert!(wait.transfers.is_empty());
}

#[test]
fn a_response_may_come_as_a_resource() {
    let mut wait = wait();
    let step = wait.step(offer(true, Some(REQUEST.to_vec())));
    assert_eq!(
        step.send.unwrap().header.context,
        PacketContext::ResourceReq
    );
    assert_eq!(wait.transfers, vec![[0x61; 32]]);

    let step = wait.step(packet(
        PacketContext::ResourceHmu,
        ResponseInput::HashmapUpdate(ResponseHashmap::Update {
            segment: [0x61; 32],
            action: TransferAction::SendCancel(CancelType::Rcl, [0x61; 32]),
        }),
    ));
    assert_eq!(
        step.send.unwrap().header.context,
        PacketContext::ResourceRcl
    );

    let mut part = PartOffer::new();
    assert!(part.note(
        [0x61; 32],
        PartOutcome {
            action: TransferAction::Complete,
            is_complete: true,
            advanced: true,
        },
    ));
    let step = wait.step(packet(PacketContext::Resource, ResponseInput::Part(part)));
    assert_eq!(step.complete, Some([0x61; 32]));
    assert!(step.done.is_none());

    let step = wait.complete(
        [0x61; 32],
        ResponseSegment::Assembled {
            segment_proof: vec![0x22; 64],
            data: vec![0; 8],
            metadata: None,
            parsed: Ok((REQUEST, vec![3])),
        },
    );
    assert_eq!(
        step.send.unwrap().header.context,
        PacketContext::ResourcePrf
    );
    assert!(matches!(
        step.done,
        Some(Ok(LinkQueryResponse { data, metadata: None })) if data == vec![3]
    ));
    assert!(wait.transfers.is_empty());
}

#[test]
fn a_file_comes_with_its_metadata() {
    let mut wait = wait();
    let _ = wait.step(offer(true, Some(REQUEST.to_vec())));
    let step = wait.complete(
        [0x61; 32],
        ResponseSegment::Assembled {
            segment_proof: vec![0x22; 64],
            data: b"PNG".to_vec(),
            metadata: Some(vec![0x81]),
            parsed: Err("not a response".to_string()),
        },
    );
    assert!(matches!(
        step.done,
        Some(Ok(LinkQueryResponse { data, metadata: Some(metadata) }))
            if data == b"PNG" && metadata == vec![0x81]
    ));
}

#[test]
fn waits_end_with_their_errors() {
    assert_eq!(
        failure(&mut wait(), WaitEvent::Elapsed),
        "timed out waiting for response"
    );
    assert_eq!(
        failure(&mut wait(), WaitEvent::DeliveryClosed),
        "link establishment failed: destination channel closed"
    );
    assert_eq!(
        failure(
            &mut wait(),
            WaitEvent::EndpointTerminated("InterfaceRemoved".to_string())
        ),
        "link establishment failed: link endpoint terminated: InterfaceRemoved"
    );
    assert_eq!(
        failure(&mut wait(), WaitEvent::LinkClosed { link_id: LINK }),
        "link establishment failed: link closed"
    );
    assert_eq!(
        failure(
            &mut wait(),
            packet(
                PacketContext::LinkClose,
                ResponseInput::Close { verified: true }
            )
        ),
        "link establishment failed: link closed by remote"
    );
    assert_eq!(
        failure(
            &mut wait(),
            packet(
                PacketContext::Response,
                ResponseInput::Response(Err("bad tag".to_string()))
            )
        ),
        "encryption failure on link: response decrypt: bad tag"
    );
    assert_eq!(
        failure(
            &mut wait(),
            packet(
                PacketContext::ResourceAdv,
                ResponseInput::Advertisement(ResponseOffer::Malformed("no map".to_string()))
            )
        ),
        "unexpected response from remote: resource advertisement: no map"
    );
    assert_eq!(
        failure(
            &mut wait(),
            packet(
                PacketContext::ResourceHmu,
                ResponseInput::HashmapUpdate(ResponseHashmap::Sealed("bad tag".to_string()))
            )
        ),
        "encryption failure on link: resource hashmap update decrypt: bad tag"
    );
    let mut part = PartOffer::new();
    assert!(part.note(
        [0x61; 32],
        PartOutcome {
            action: TransferAction::Failed("hash mismatch".to_string()),
            is_complete: false,
            advanced: false,
        },
    ));
    assert_eq!(
        failure(
            &mut wait(),
            packet(PacketContext::Resource, ResponseInput::Part(part))
        ),
        "unexpected response from remote: resource transfer failed: hash mismatch"
    );
    let step = wait().complete([0x61; 32], ResponseSegment::MissingKeys);
    assert!(matches!(
        step.done,
        Some(Err(LinkClientError::UnexpectedResponse(why)))
            if why == "completed resource disappeared"
    ));
    let mut open = wait();
    let _ = open.step(offer(true, Some(REQUEST.to_vec())));
    assert!(matches!(
        open.complete([0x61; 32], ResponseSegment::MissingKeys).done,
        Some(Err(LinkClientError::LinkCrypto(why)))
            if why == "resource response missing link keys"
    ));
}
