//! How a query goes, from its first request to its answer.

use vstd::prelude::*;

use crate::client::{
    step_model, ClientErrorModel, DestinationResolveError, LinkClientError, PartOffer,
    ResponseHashmap, ResponseInput, ResponseOffer, ResponseSegment, ResponseWait, Step, WaitEvent,
};
use crate::link::{CancelType, TransferAction};
use crate::query::{
    action_model, query_course, stage_model, timed, Action, Answer, NewLink, ProofWait, Query, QueryAction,
    QueryEvent, QueryStage,
};
use crate::wire::{Packet, PacketContext, PacketHeader, PacketType};

verus! {

/// Whether `next` and `action` are what a query comes to with an event at the time `now`.
pub open spec fn comes_to(
    query: Query,
    now: u64,
    event: QueryEvent,
    next: Query,
    action: Action,
) -> bool {
    (stage_model(next.stage), action_model(action)) == query_course(
        query.client,
        query.dest_hash,
        query.deadline,
        stage_model(query.stage),
        now,
        event,
    )
}

/// Whether a packet is one for a Link, as it is sent by one of the Link's ends.
pub open spec fn on_its_way(
    packet: Packet<Vec<u8>>,
    link_id: [u8; 16],
    packet_type: PacketType,
    context: PacketContext,
    body: Seq<u8>,
    seal: bool,
) -> bool {
    &&& packet.header.destination_hash == link_id
    &&& packet.header.flags.destination_type is Link
    &&& packet.header.flags.packet_type == packet_type
    &&& packet.header.context == context
    &&& packet.header.hops == 0
    &&& packet.header.transport_id is None
    &&& packet.body@ == body
    &&& packet.seal == seal
}

/// Whether a query is over with an error, before any teardown.
pub open spec fn gives_up(
    next: Query,
    action: Action,
    error: ClientErrorModel,
    registered: bool,
) -> bool {
    &&& next.stage is Over
    &&& action matches QueryAction::Finish { answer, registered: r, released }
    &&& answer matches Err(e)
    &&& e@ == error
    &&& r == registered
    &&& !released
}

/// The request for a Link goes to the destination of the query, with exactly the request
/// that was made for the Link.
pub proof fn link_request_is_sent_as_made(
    query: Query,
    now: u64,
    link_id: [u8; 16],
    request_data: Vec<u8>,
    next: Query,
    action: Action,
)
    requires
        query.stage == (QueryStage::<Answer>::Registering { link_id }),
        comes_to(
            query,
            now,
            QueryEvent::Registered { request_data: Some(request_data) },
            next,
            action,
        ),
    ensures
        next.stage matches QueryStage::Requesting { link_id: id } && id == link_id,
        action matches QueryAction::SendRequest(p) && {
            &&& p.header.destination_hash == query.dest_hash
            &&& p.header.flags.destination_type is Single
            &&& p.header.flags.packet_type is LinkRequest
            &&& p.header.context is Data
            &&& p.header.hops == 0
            &&& p.header.transport_id is None
            &&& p.body@ == request_data@
            &&& !p.seal
        },
{
}

/// Each packet that a query sends on its Link carries, under the context of its stage,
/// exactly the payload that was made for it: the measurement once the endpoint is bound,
/// the identification, the request, and the teardown.
pub proof fn payloads_are_sent_as_made(
    query: Query,
    now: u64,
    link_id: [u8; 16],
    interface_id: u64,
    payload: Vec<u8>,
    next: Query,
    action: Action,
)
    ensures
        query.stage == (QueryStage::<Answer>::Binding { link_id, interface_id }) && comes_to(
            query,
            now,
            QueryEvent::Bound { rtt_data: Some(payload) },
            next,
            action,
        ) ==> {
            &&& next.stage matches QueryStage::Measuring { link_id: l, interface_id: i } && l
                == link_id && i == interface_id
            &&& action matches QueryAction::Send(p) && on_its_way(
                p,
                link_id,
                PacketType::Data,
                PacketContext::Lrrtt,
                payload@,
                false,
            )
        },
        query.stage == (QueryStage::<Answer>::Identifying { link_id, interface_id }) && comes_to(
            query,
            now,
            QueryEvent::Identified(Ok(payload)),
            next,
            action,
        ) ==> {
            &&& next.stage matches QueryStage::Introducing { link_id: l, interface_id: i } && l
                == link_id && i == interface_id
            &&& action matches QueryAction::Send(p) && on_its_way(
                p,
                link_id,
                PacketType::Data,
                PacketContext::LinkIdentify,
                payload@,
                false,
            )
        },
        query.stage == (QueryStage::<Answer>::Preparing { link_id, interface_id }) && comes_to(
            query,
            now,
            QueryEvent::Prepared(Ok(payload)),
            next,
            action,
        ) ==> {
            &&& next.stage matches QueryStage::Asking { link_id: l, interface_id: i } && l
                == link_id && i == interface_id
            &&& action matches QueryAction::Send(p) && on_its_way(
                p,
                link_id,
                PacketType::Data,
                PacketContext::Request,
                payload@,
                false,
            )
        },
{
}

/// The answer of a query is the answer that it was given, whatever its teardown does, and
/// the teardown carries exactly the payload that was made for it.
pub proof fn answer_is_given_as_it_came(
    query: Query,
    t1: u64,
    t2: u64,
    t3: u64,
    link_id: [u8; 16],
    answer: Answer,
    teardown: Option<Vec<u8>>,
    sent: bool,
    closing: Query,
    leaving: Query,
    over: Query,
    a1: Action,
    a2: Action,
    a3: Action,
)
    requires
        query.stage == (QueryStage::<Answer>::Waiting { link_id }),
        comes_to(query, t1, QueryEvent::Answered(answer), closing, a1),
        comes_to(closing, t2, QueryEvent::TornDown { teardown }, leaving, a2),
        comes_to(leaving, t3, QueryEvent::Sent(sent), over, a3),
    ensures
        a1 is TearDown,
        match teardown {
            None => {
                &&& leaving.stage is Over
                &&& a2 matches QueryAction::Finish { answer: given, registered, released }
                    && same_answer(given, answer) && registered && !released
            },
            Some(data) => {
                &&& a2 matches QueryAction::SendFinal(p) && on_its_way(
                    p,
                    link_id,
                    PacketType::Data,
                    PacketContext::LinkClose,
                    data@,
                    false,
                )
                &&& over.stage is Over
                &&& a3 matches QueryAction::Finish { answer: given, registered, released }
                    && same_answer(given, answer) && registered && released == sent
            },
        },
{
}

/// Whether two answers are the same: the same response, or the same error in the same
/// words.
pub open spec fn same_answer(a: Answer, b: Answer) -> bool {
    match (a, b) {
        (Ok(x), Ok(y)) => x.data == y.data && x.metadata == y.metadata,
        (Err(x), Err(y)) => same_error(x, y),
        _ => false,
    }
}

pub open spec fn same_error(a: LinkClientError, b: LinkClientError) -> bool {
    match (a, b) {
        (LinkClientError::TransportUnavailable, LinkClientError::TransportUnavailable) => true,
        (LinkClientError::Timeout(x), LinkClientError::Timeout(y)) => x@ == y@,
        (LinkClientError::PubkeyNotDiscovered, LinkClientError::PubkeyNotDiscovered) => true,
        (LinkClientError::ProofInvalid(x), LinkClientError::ProofInvalid(y)) => x@ == y@,
        (LinkClientError::HandshakeFailed(x), LinkClientError::HandshakeFailed(y)) => x@ == y@,
        (LinkClientError::NoSigningKey, LinkClientError::NoSigningKey) => true,
        (LinkClientError::LinkCrypto(x), LinkClientError::LinkCrypto(y)) => x@ == y@,
        (LinkClientError::UnexpectedResponse(x), LinkClientError::UnexpectedResponse(y)) => x@
            == y@,
        _ => false,
    }
}

/// Two errors have the same model only if they are the same error in the same words.
pub proof fn errors_are_told_apart(a: LinkClientError, b: LinkClientError)
    ensures
        a@ == b@ <==> same_error(a, b),
{
}

/// What a query does between its packets: it registers the id of the Link that was made,
/// checks the key of the proof once its request is out, binds the Link to the interface on
/// which its proof came, and waits for proof and response no longer than until its
/// deadline, for a response under the id that its request was given.
pub proof fn stages_follow_one_another(
    query: Query,
    now: u64,
    link_id: [u8; 16],
    interface_id: u64,
    next: Query,
    action: Action,
)
    ensures
        forall|link: NewLink|
            query.stage is Resolving && #[trigger] comes_to(
                query,
                now,
                QueryEvent::Resolved(Ok(link)),
                next,
                action,
            ) ==> {
                &&& next.stage matches QueryStage::Registering { link_id: l } && l == link.link_id
                &&& action matches QueryAction::Register { link_id: l } && l == link.link_id
            },
        query.stage == (QueryStage::<Answer>::Requesting { link_id }) && comes_to(
            query,
            now,
            QueryEvent::Sent(true),
            next,
            action,
        ) ==> {
            &&& next.stage matches QueryStage::CheckingKey { link_id: l } && l == link_id
            &&& action is CheckKey
        },
        query.stage == (QueryStage::<Answer>::CheckingKey { link_id }) && now < query.deadline
            && comes_to(query, now, QueryEvent::KeyChecked(Ok(())), next, action) ==> {
            &&& next.stage matches QueryStage::Proving { link_id: l } && l == link_id
            &&& action matches QueryAction::AwaitProof { timeout } && timeout == query.deadline
                - now
        },
        query.stage == (QueryStage::<Answer>::Proving { link_id }) && comes_to(
            query,
            now,
            QueryEvent::ProofWaited(ProofWait::Valid { interface_id }),
            next,
            action,
        ) ==> {
            &&& next.stage matches QueryStage::Binding { link_id: l, interface_id: i } && l
                == link_id && i == interface_id
            &&& action matches QueryAction::Bind { link_id: l, interface_id: i } && l == link_id
                && i == interface_id
        },
        query.stage == (QueryStage::<Answer>::Measuring { link_id, interface_id })
            && query.client.has_signing_key && comes_to(
            query,
            now,
            QueryEvent::Sent(true),
            next,
            action,
        ) ==> {
            &&& next.stage matches QueryStage::Identifying { link_id: l, interface_id: i } && l
                == link_id && i == interface_id
            &&& action is Identify
        },
        query.stage == (QueryStage::<Answer>::Introducing { link_id, interface_id }) && comes_to(
            query,
            now,
            QueryEvent::Sent(true),
            next,
            action,
        ) ==> {
            &&& next.stage matches QueryStage::Preparing { link_id: l, interface_id: i } && l
                == link_id && i == interface_id
            &&& action is Prepare
        },
        forall|id: [u8; 16]|
            query.stage == (QueryStage::<Answer>::Asking { link_id, interface_id }) && now
                < query.deadline && #[trigger] comes_to(
                query,
                now,
                QueryEvent::Asked { request_id: Some(id) },
                next,
                action,
            ) ==> {
                &&& next.stage matches QueryStage::Waiting { link_id: l } && l == link_id
                &&& action matches QueryAction::AwaitResponse {
                    link_id: l,
                    request_id,
                    interface_id: i,
                    timeout,
                } && l == link_id && request_id == id && i == interface_id && timeout
                    == query.deadline - now
            },
{
}

/// A query gives up where a step of it fails: with the error of that step, the reason in
/// its words, and says whether its Link's id is still registered, which it is from the
/// registration on.
pub proof fn failed_steps_end_the_query(
    query: Query,
    now: u64,
    why: String,
    next: Query,
    action: Action,
)
    ensures
        forall|error: DestinationResolveError|
            query.stage is Resolving && #[trigger] comes_to(
                query,
                now,
                QueryEvent::Resolved(Err(error)),
                next,
                action,
            ) ==> match error {
                DestinationResolveError::Timeout => gives_up(
                    next,
                    action,
                    ClientErrorModel::Timeout("destination resolution"@),
                    false,
                ),
                DestinationResolveError::TransportUnavailable => gives_up(
                    next,
                    action,
                    ClientErrorModel::TransportUnavailable,
                    false,
                ),
                DestinationResolveError::UnexpectedResponse(operation) => gives_up(
                    next,
                    action,
                    ClientErrorModel::UnexpectedResponse(operation@),
                    false,
                ),
            },
        query.stage is Registering && comes_to(
            query,
            now,
            QueryEvent::Registered { request_data: None },
            next,
            action,
        ) ==> gives_up(next, action, ClientErrorModel::TransportUnavailable, false),
        (query.stage is Requesting || query.stage is Measuring || query.stage is Introducing)
            && comes_to(query, now, QueryEvent::Sent(false), next, action) ==> gives_up(
            next,
            action,
            ClientErrorModel::TransportUnavailable,
            true,
        ),
        query.stage is Measuring && !query.client.has_signing_key && comes_to(
            query,
            now,
            QueryEvent::Sent(true),
            next,
            action,
        ) ==> gives_up(next, action, ClientErrorModel::NoSigningKey, true),
        query.stage is CheckingKey && comes_to(
            query,
            now,
            QueryEvent::KeyChecked(Err(why)),
            next,
            action,
        ) ==> gives_up(next, action, ClientErrorModel::ProofInvalid("verify key: "@ + why@), true),
        query.stage is CheckingKey && now >= query.deadline && comes_to(
            query,
            now,
            QueryEvent::KeyChecked(Ok(())),
            next,
            action,
        ) ==> gives_up(next, action, ClientErrorModel::Timeout("overall query"@), true),
        query.stage is Proving && comes_to(
            query,
            now,
            QueryEvent::ProofWaited(ProofWait::Elapsed),
            next,
            action,
        ) ==> gives_up(next, action, ClientErrorModel::Timeout("link proof"@), true),
        query.stage is Proving && comes_to(
            query,
            now,
            QueryEvent::ProofWaited(ProofWait::LinkClosed),
            next,
            action,
        ) ==> gives_up(next, action, ClientErrorModel::HandshakeFailed("link closed"@), true),
        query.stage is Proving && comes_to(
            query,
            now,
            QueryEvent::ProofWaited(ProofWait::DeliveryClosed),
            next,
            action,
        ) ==> gives_up(
            next,
            action,
            ClientErrorModel::HandshakeFailed("destination channel closed"@),
            true,
        ),
        query.stage is Binding && comes_to(
            query,
            now,
            QueryEvent::Bound { rtt_data: None },
            next,
            action,
        ) ==> gives_up(next, action, ClientErrorModel::TransportUnavailable, true),
        query.stage is Identifying && comes_to(
            query,
            now,
            QueryEvent::Identified(Err(why)),
            next,
            action,
        ) ==> gives_up(next, action, ClientErrorModel::LinkCrypto("identify: "@ + why@), true),
        query.stage is Preparing && comes_to(
            query,
            now,
            QueryEvent::Prepared(Err(why)),
            next,
            action,
        ) ==> gives_up(next, action, ClientErrorModel::LinkCrypto("request: "@ + why@), true),
        query.stage is Asking && comes_to(
            query,
            now,
            QueryEvent::Asked { request_id: None },
            next,
            action,
        ) ==> gives_up(next, action, ClientErrorModel::TransportUnavailable, true),
        forall|id: [u8; 16]|
            query.stage is Asking && now >= query.deadline && #[trigger] comes_to(
                query,
                now,
                QueryEvent::Asked { request_id: Some(id) },
                next,
                action,
            ) ==> gives_up(next, action, ClientErrorModel::Timeout("overall query"@), true),
{
}

// ---- waiting for the response ----

/// Whether nothing is to be done.
pub open spec fn quiet(step: Step) -> bool {
    step.send is None && step.complete is None && step.done is None
}

/// Whether the wait is over with an error, and nothing else is to be done.
pub open spec fn stops_with(step: Step, error: ClientErrorModel) -> bool {
    &&& step.send is None
    &&& step.complete is None
    &&& step.done matches Some(answer) && answer matches Err(e) && e@ == error
}

/// A packet of the awaited Link, on the Link's interface.
pub open spec fn awaited(wait: ResponseWait, header: PacketHeader, interface_id: u64) -> bool {
    interface_id == wait.attached_interface && header.destination_hash == wait.link_id
}

/// A response ends the wait if, and only if, it names the request; its data is the answer
/// as it came, without metadata.
pub proof fn only_the_awaited_response_ends_the_wait(
    wait: ResponseWait,
    header: PacketHeader,
    interface_id: u64,
    id: [u8; 16],
    data: Vec<u8>,
    why: String,
    step: Step,
)
    requires
        awaited(wait, header, interface_id),
        header.context is Response,
    ensures
        step_model(step) == wait.wait_step(
            WaitEvent::Packet {
                header: Some(header),
                interface_id,
                input: ResponseInput::Response(Ok((id, data))),
            },
        ) ==> if id == wait.request_id {
            &&& step.send is None
            &&& step.complete is None
            &&& step.done matches Some(answer) && answer matches Ok(r) && r.data == data
                && r.metadata is None
        } else {
            quiet(step)
        },
        step_model(step) == wait.wait_step(
            WaitEvent::Packet {
                header: Some(header),
                interface_id,
                input: ResponseInput::Response(Err(why)),
            },
        ) ==> stops_with(step, ClientErrorModel::LinkCrypto("response decrypt: "@ + why@)),
{
}

/// An offer is taken up if, and only if, it is a response and names the request: its first
/// request for parts goes out as the transfer made it, and its segment is received from
/// then on, as are those before. Any other offer means nothing.
pub proof fn only_the_awaited_offer_is_taken_up(
    wait: ResponseWait,
    header: PacketHeader,
    interface_id: u64,
    is_response: bool,
    request_id: Option<Vec<u8>>,
    resource_hash: [u8; 32],
    request: Vec<u8>,
    step: Step,
)
    requires
        awaited(wait, header, interface_id),
        header.context is ResourceAdv,
        step_model(step) == wait.wait_step(
            WaitEvent::Packet {
                header: Some(header),
                interface_id,
                input: ResponseInput::Advertisement(
                    ResponseOffer::Offer {
                        is_response,
                        request_id,
                        resource_hash,
                        transfer: Ok(TransferAction::SendRequest(request)),
                    },
                ),
            },
        ),
    ensures
        ({
            let after = wait.wait_transfers(
                WaitEvent::Packet {
                    header: Some(header),
                    interface_id,
                    input: ResponseInput::Advertisement(
                        ResponseOffer::Offer {
                            is_response,
                            request_id,
                            resource_hash,
                            transfer: Ok(TransferAction::SendRequest(request)),
                        },
                    ),
                },
            );
            if is_response && request_id is Some && (request_id->0)@ == wait.request_id@ {
                &&& step.complete is None
                &&& step.done is None
                &&& step.send matches Some(p) && on_its_way(
                    p,
                    wait.link_id,
                    PacketType::Data,
                    PacketContext::ResourceReq,
                    request@,
                    true,
                )
                &&& after.contains(resource_hash)
                &&& forall|hash: [u8; 32]|
                    hash != resource_hash ==> (#[trigger] after.contains(hash)
                        <==> wait.transfers@.contains(hash))
            } else {
                quiet(step) && after == wait.transfers@
            }
        }),
{
    let after = wait.wait_transfers(
        WaitEvent::Packet {
            header: Some(header),
            interface_id,
            input: ResponseInput::Advertisement(
                ResponseOffer::Offer {
                    is_response,
                    request_id,
                    resource_hash,
                    transfer: Ok(TransferAction::SendRequest(request)),
                },
            ),
        },
    );
    let before = wait.transfers@;
    if after != before {
        assert(after == before.push(resource_hash));
        assert(after[before.len() as int] == resource_hash);
        assert forall|hash: [u8; 32]| hash != resource_hash implies (#[trigger] after.contains(hash)
            <==> before.contains(hash)) by {
            if before.contains(hash) {
                let i = choose|i: int| 0 <= i < before.len() && before[i] == hash;
                assert(after[i] == hash);
            }
            if after.contains(hash) {
                let i = choose|i: int| 0 <= i < after.len() && after[i] == hash;
                assert(before[i] == hash);
            }
        }
    }
}

/// Whether what is sent is what flow control or a cancellation asks for: its own payload,
/// encrypted, under the context that its receiver expects. Nothing else is sent.
pub open spec fn sends_control(
    send: Option<Packet<Vec<u8>>>,
    link_id: [u8; 16],
    action: TransferAction<Vec<u8>, String>,
) -> bool {
    let data = PacketType::Data;
    match action {
        TransferAction::SendHmu(b) => send matches Some(p) && on_its_way(
            p,
            link_id,
            data,
            PacketContext::ResourceHmu,
            b@,
            true,
        ),
        TransferAction::SendRequest(b) => send matches Some(p) && on_its_way(
            p,
            link_id,
            data,
            PacketContext::ResourceReq,
            b@,
            true,
        ),
        TransferAction::SendCancel(CancelType::Icl, hash) => send matches Some(p) && on_its_way(
            p,
            link_id,
            data,
            PacketContext::ResourceIcl,
            hash@,
            true,
        ),
        TransferAction::SendCancel(CancelType::Rcl, hash) => send matches Some(p) && on_its_way(
            p,
            link_id,
            data,
            PacketContext::ResourceRcl,
            hash@,
            true,
        ),
        _ => send is None,
    }
}

/// What a part or more of a hash map asks for goes out as it is, on the Link; a failed
/// transfer ends the wait in its own words; and a segment that a part completes is the one
/// that is to be completed. More of the hash map of a segment that is not received means
/// nothing.
pub proof fn flow_control_goes_out_as_it_is(
    wait: ResponseWait,
    header: PacketHeader,
    interface_id: u64,
    part: PartOffer,
    segment: [u8; 32],
    action: TransferAction<Vec<u8>, String>,
    step: Step,
)
    requires
        awaited(wait, header, interface_id),
    ensures
        header.context is Resource && step_model(step) == wait.wait_step(
            WaitEvent::Packet {
                header: Some(header),
                interface_id,
                input: ResponseInput::Part(part),
            },
        ) ==> match part.failed {
            Some(why) => stops_with(
                step,
                ClientErrorModel::UnexpectedResponse("resource transfer failed: "@ + why@),
            ),
            None => {
                &&& step.done is None
                &&& step.complete == part.scan.completed
                &&& match part.scan.action {
                    Some(asked) => sends_control(step.send, wait.link_id, asked),
                    None => step.send is None,
                }
            },
        },
        header.context is ResourceHmu && step_model(step) == wait.wait_step(
            WaitEvent::Packet {
                header: Some(header),
                interface_id,
                input: ResponseInput::HashmapUpdate(ResponseHashmap::Update { segment, action }),
            },
        ) ==> if wait.transfers@.contains(segment) && !(action is SendHmu) {
            step.done is None && step.complete is None && sends_control(
                step.send,
                wait.link_id,
                action,
            )
        } else {
            quiet(step)
        },
{
}

/// A packet that cannot be read ends the wait with an error that says which it was and
/// why; so does an offer of the response that cannot be received.
pub proof fn unreadable_packets_end_the_wait(
    wait: ResponseWait,
    header: PacketHeader,
    interface_id: u64,
    resource_hash: [u8; 32],
    request_id: Vec<u8>,
    why: String,
    step: Step,
)
    requires
        awaited(wait, header, interface_id),
        request_id@ == wait.request_id@,
    ensures
        header.context is ResourceAdv ==> {
            &&& step_model(step) == wait.wait_step(
                WaitEvent::Packet {
                    header: Some(header),
                    interface_id,
                    input: ResponseInput::Advertisement(ResponseOffer::Sealed(why)),
                },
            ) ==> stops_with(
                step,
                ClientErrorModel::LinkCrypto("resource advertisement decrypt: "@ + why@),
            )
            &&& step_model(step) == wait.wait_step(
                WaitEvent::Packet {
                    header: Some(header),
                    interface_id,
                    input: ResponseInput::Advertisement(ResponseOffer::Malformed(why)),
                },
            ) ==> stops_with(
                step,
                ClientErrorModel::UnexpectedResponse("resource advertisement: "@ + why@),
            )
            &&& step_model(step) == wait.wait_step(
                WaitEvent::Packet {
                    header: Some(header),
                    interface_id,
                    input: ResponseInput::Advertisement(
                        ResponseOffer::Offer {
                            is_response: true,
                            request_id: Some(request_id),
                            resource_hash,
                            transfer: Err(why),
                        },
                    ),
                },
            ) ==> stops_with(
                step,
                ClientErrorModel::UnexpectedResponse("resource transfer: "@ + why@),
            )
        },
        header.context is ResourceHmu ==> {
            &&& step_model(step) == wait.wait_step(
                WaitEvent::Packet {
                    header: Some(header),
                    interface_id,
                    input: ResponseInput::HashmapUpdate(ResponseHashmap::Sealed(why)),
                },
            ) ==> stops_with(
                step,
                ClientErrorModel::LinkCrypto("resource hashmap update decrypt: "@ + why@),
            )
            &&& step_model(step) == wait.wait_step(
                WaitEvent::Packet {
                    header: Some(header),
                    interface_id,
                    input: ResponseInput::HashmapUpdate(ResponseHashmap::Malformed(why)),
                },
            ) ==> stops_with(
                step,
                ClientErrorModel::UnexpectedResponse("resource hashmap update: "@ + why@),
            )
        },
{
}

/// A complete segment of a response is proved with exactly its proof. With metadata, its
/// data and metadata are the answer as they are; without, the answer is the response that
/// it packs, if that names the request.
pub proof fn complete_segment_is_the_answer(
    wait: ResponseWait,
    segment: [u8; 32],
    segment_proof: Vec<u8>,
    data: Vec<u8>,
    metadata: Option<Vec<u8>>,
    parsed: Result<([u8; 16], Vec<u8>), String>,
    step: Step,
)
    requires
        step_model(step) == wait.segment_step(
            segment,
            ResponseSegment::Assembled { segment_proof, data, metadata, parsed },
        ),
    ensures
        !wait.transfers@.contains(segment) ==> stops_with(
            step,
            ClientErrorModel::UnexpectedResponse("completed resource disappeared"@),
        ),
        wait.transfers@.contains(segment) ==> {
            &&& step.complete is None
            &&& step.send matches Some(p) && on_its_way(
                p,
                wait.link_id,
                PacketType::Proof,
                PacketContext::ResourcePrf,
                segment_proof@,
                false,
            )
            &&& match (metadata, parsed) {
                (Some(_), _) => step.done matches Some(answer) && answer matches Ok(r) && r.data
                    == data && r.metadata == metadata,
                (None, Ok((id, response))) => if id == wait.request_id {
                    step.done matches Some(answer) && answer matches Ok(r) && r.data == response
                        && r.metadata is None
                } else {
                    step.done is None
                },
                (None, Err(why)) => step.done matches Some(answer) && answer matches Err(e) && e@
                    == ClientErrorModel::LinkCrypto("resource response decode: "@ + why@),
            }
        },
{
}

/// What ends the wait without a response: that nothing can be delivered, that the endpoint
/// or the Link came to its end, that the time is up, and a teardown that the peer signed.
/// The end of another Link, or a teardown that is not verified, means nothing.
pub proof fn other_ends_of_the_wait(
    wait: ResponseWait,
    header: PacketHeader,
    interface_id: u64,
    link_id: [u8; 16],
    why: String,
    verified: bool,
    step: Step,
)
    requires
        awaited(wait, header, interface_id),
    ensures
        step_model(step) == wait.wait_step(WaitEvent::DeliveryClosed) ==> stops_with(
            step,
            ClientErrorModel::HandshakeFailed("destination channel closed"@),
        ),
        step_model(step) == wait.wait_step(WaitEvent::EndpointTerminated(why)) ==> stops_with(
            step,
            ClientErrorModel::HandshakeFailed("link endpoint terminated: "@ + why@),
        ),
        step_model(step) == wait.wait_step(WaitEvent::Elapsed) ==> stops_with(
            step,
            ClientErrorModel::Timeout("response"@),
        ),
        step_model(step) == wait.wait_step(WaitEvent::LinkClosed { link_id }) ==> if link_id
            == wait.link_id {
            stops_with(step, ClientErrorModel::HandshakeFailed("link closed"@))
        } else {
            quiet(step)
        },
        header.context is LinkClose && step_model(step) == wait.wait_step(
            WaitEvent::Packet {
                header: Some(header),
                interface_id,
                input: ResponseInput::Close { verified },
            },
        ) ==> if verified {
            stops_with(step, ClientErrorModel::HandshakeFailed("link closed by remote"@))
        } else {
            quiet(step)
        },
        step_model(step) == wait.wait_step(WaitEvent::Other) ==> quiet(step),
{
}

/// A query begins by resolving its destination within the time that is left, and is over at
/// once if none is.
pub proof fn query_begins_in_time(now: u64, deadline: u64, next: Query, action: Action)
    requires
        (stage_model(next.stage), action_model(action)) == timed(
            now,
            deadline,
            false,
            (QueryStage::Resolving, QueryAction::Resolve { timeout: (deadline - now) as u64 }),
        ),
    ensures
        now < deadline ==> next.stage is Resolving && action is Resolve && action->Resolve_timeout
            == deadline - now,
        now >= deadline ==> gives_up(
            next,
            action,
            ClientErrorModel::Timeout("overall query"@),
            false,
        ),
{
}

} // verus!
