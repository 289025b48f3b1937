//! The course of one query.

use vstd::prelude::*;

use crate::client::{
    answer_model, build_link_request_packet, link_request_packet, map_destination_resolve_error,
    resolve_failure, time_remaining, AnswerModel, ClientErrorModel, DestinationResolveError,
    LinkClientError, LinkQueryResponse,
};
use crate::text::worded;
use crate::wire::{
    link_packet, make_link_packet, Packet, PacketContext, PacketType,
};

verus! {

/// How a query stands: what it waits for. `R` stands for an answer.
#[derive(Debug)]
pub enum QueryStage<R> {
    /// The destination's public key.
    Resolving,
    /// The registration of the Link's id, under which packets find their way back.
    Registering { link_id: [u8; 16] },
    /// The Link request on its way.
    Requesting { link_id: [u8; 16] },
    /// The key that verifies the Link's proof.
    CheckingKey { link_id: [u8; 16] },
    /// The Link's proof.
    Proving { link_id: [u8; 16] },
    /// The Link's endpoint.
    Binding { link_id: [u8; 16], interface_id: u64 },
    /// The round-trip measurement on its way.
    Measuring { link_id: [u8; 16], interface_id: u64 },
    /// The identification.
    Identifying { link_id: [u8; 16], interface_id: u64 },
    /// The identification on its way.
    Introducing { link_id: [u8; 16], interface_id: u64 },
    /// The request.
    Preparing { link_id: [u8; 16], interface_id: u64 },
    /// The request on its way.
    Asking { link_id: [u8; 16], interface_id: u64 },
    /// The response.
    Waiting { link_id: [u8; 16] },
    /// The teardown payload; the answer is known.
    Closing { link_id: [u8; 16], answer: R },
    /// The teardown on its way; the answer is known.
    Leaving { answer: R },
    /// Nothing: the query is over.
    Over,
}

/// A Link that this end initiates.
#[derive(Debug)]
pub struct NewLink {
    pub link_id: [u8; 16],
    pub request_data: Vec<u8>,
}

/// What came of waiting for the Link's proof.
#[derive(Debug, Clone, Copy, PartialEq, Eq, Structural)]
pub enum ProofWait {
    Elapsed,
    LinkClosed,
    DeliveryClosed,
    /// A valid proof came in on this interface.
    Valid { interface_id: u64 },
}

/// What came of the last thing that was to be done.
#[derive(Debug)]
pub enum QueryEvent {
    Resolved(Result<NewLink, DestinationResolveError>),
    Registered { request_data: Option<Vec<u8>> },
    Sent(bool),
    KeyChecked(Result<(), String>),
    ProofWaited(ProofWait),
    /// The endpoint is bound, and this is the round-trip measurement; or it is not.
    Bound { rtt_data: Option<Vec<u8>> },
    Identified(Result<Vec<u8>, String>),
    Prepared(Result<Vec<u8>, String>),
    /// The request went out, or not. A response will name this id.
    Asked { request_id: Option<[u8; 16]> },
    Answered(Result<LinkQueryResponse, LinkClientError>),
    TornDown { teardown: Option<Vec<u8>> },
}

/// What is to be done next. `P` stands for a packet and `R` for an answer.
#[derive(Debug)]
pub enum QueryAction<P, R> {
    /// Resolve the destination within the time.
    Resolve { timeout: u64 },
    /// Register the Link's id as a destination.
    Register { link_id: [u8; 16] },
    /// Send a packet to the destination.
    SendRequest(P),
    /// Get the key that verifies the Link's proof.
    CheckKey,
    /// Wait for the Link's proof within the time.
    AwaitProof { timeout: u64 },
    /// Bind the Link's endpoint to the interface.
    Bind { link_id: [u8; 16], interface_id: u64 },
    /// Send a packet through the Link's endpoint.
    Send(P),
    /// Identify to the peer.
    Identify,
    /// Make the request.
    Prepare,
    /// Wait for the response within the time.
    AwaitResponse { link_id: [u8; 16], request_id: [u8; 16], interface_id: u64, timeout: u64 },
    /// Make the teardown payload.
    TearDown,
    /// Send the packet that closes the Link; the endpoint goes with it.
    SendFinal(P),
    /// The query is over. `registered` says whether the Link's id is registered, and
    /// `released` whether the endpoint is being released by a packet already.
    Finish { answer: R, registered: bool, released: bool },
    /// The event does not fit the stage.
    Confused,
}

pub type Answer = Result<LinkQueryResponse, LinkClientError>;

pub type Action = QueryAction<Packet<Vec<u8>>, Answer>;

pub type ActionModel = QueryAction<Packet<Seq<u8>>, AnswerModel>;

pub open spec fn action_model(a: Action) -> ActionModel {
    match a {
        QueryAction::Resolve { timeout } => QueryAction::Resolve { timeout },
        QueryAction::Register { link_id } => QueryAction::Register { link_id },
        QueryAction::SendRequest(p) => QueryAction::SendRequest(p@),
        QueryAction::CheckKey => QueryAction::CheckKey,
        QueryAction::AwaitProof { timeout } => QueryAction::AwaitProof { timeout },
        QueryAction::Bind { link_id, interface_id } => QueryAction::Bind { link_id, interface_id },
        QueryAction::Send(p) => QueryAction::Send(p@),
        QueryAction::Identify => QueryAction::Identify,
        QueryAction::Prepare => QueryAction::Prepare,
        QueryAction::AwaitResponse { link_id, request_id, interface_id, timeout } => {
            QueryAction::AwaitResponse { link_id, request_id, interface_id, timeout }
        },
        QueryAction::TearDown => QueryAction::TearDown,
        QueryAction::SendFinal(p) => QueryAction::SendFinal(p@),
        QueryAction::Finish { answer, registered, released } => QueryAction::Finish {
            answer: answer_model(answer),
            registered,
            released,
        },
        QueryAction::Confused => QueryAction::Confused,
    }
}

pub open spec fn stage_model(s: QueryStage<Answer>) -> QueryStage<AnswerModel> {
    match s {
        QueryStage::Resolving => QueryStage::Resolving,
        QueryStage::Registering { link_id } => QueryStage::Registering { link_id },
        QueryStage::Requesting { link_id } => QueryStage::Requesting { link_id },
        QueryStage::CheckingKey { link_id } => QueryStage::CheckingKey { link_id },
        QueryStage::Proving { link_id } => QueryStage::Proving { link_id },
        QueryStage::Binding { link_id, interface_id } => QueryStage::Binding {
            link_id,
            interface_id,
        },
        QueryStage::Measuring { link_id, interface_id } => QueryStage::Measuring {
            link_id,
            interface_id,
        },
        QueryStage::Identifying { link_id, interface_id } => QueryStage::Identifying {
            link_id,
            interface_id,
        },
        QueryStage::Introducing { link_id, interface_id } => QueryStage::Introducing {
            link_id,
            interface_id,
        },
        QueryStage::Preparing { link_id, interface_id } => QueryStage::Preparing {
            link_id,
            interface_id,
        },
        QueryStage::Asking { link_id, interface_id } => QueryStage::Asking {
            link_id,
            interface_id,
        },
        QueryStage::Waiting { link_id } => QueryStage::Waiting { link_id },
        QueryStage::Closing { link_id, answer } => QueryStage::Closing {
            link_id,
            answer: answer_model(answer),
        },
        QueryStage::Leaving { answer } => QueryStage::Leaving { answer: answer_model(answer) },
        QueryStage::Over => QueryStage::Over,
    }
}

/// Who sends queries.
#[derive(Debug, Clone, Copy)]
pub struct LinkClient {
    /// Whether the local identity has a signing key.
    pub has_signing_key: bool,
}

/// One query.
#[derive(Debug)]
pub struct Query {
    pub client: LinkClient,
    pub dest_hash: [u8; 16],
    pub deadline: u64,
    pub stage: QueryStage<Answer>,
}

/// A stage and what is to be done in it.
pub type Course = (QueryStage<AnswerModel>, ActionModel);

/// The query fails.
pub open spec fn failed(error: ClientErrorModel, registered: bool) -> Course {
    (
        QueryStage::Over,
        QueryAction::Finish { answer: Err(error), registered, released: false },
    )
}

/// Something that is done only while time is left.
pub open spec fn timed(now: u64, deadline: u64, registered: bool, next: Course) -> Course {
    if now >= deadline {
        failed(ClientErrorModel::Timeout("overall query"@), registered)
    } else {
        next
    }
}

/// A packet on the Link.
pub open spec fn query_packet(link_id: [u8; 16], context: PacketContext, body: Seq<u8>) -> Packet<
    Seq<u8>,
> {
    link_packet(link_id, PacketType::Data, context, body, false)
}

/// What becomes of a query, once an event has come in at the time `now`.
pub open spec fn query_course(
    client: LinkClient,
    dest_hash: [u8; 16],
    deadline: u64,
    stage: QueryStage<AnswerModel>,
    now: u64,
    event: QueryEvent,
) -> Course {
    let left = (deadline - now) as u64;
    match (stage, event) {
        (QueryStage::Resolving, QueryEvent::Resolved(result)) => match result {
            Err(error) => failed(resolve_failure(error), false),
            Ok(link) => (
                QueryStage::Registering { link_id: link.link_id },
                QueryAction::Register { link_id: link.link_id },
            ),
        },
        (QueryStage::Registering { link_id }, QueryEvent::Registered { request_data }) => {
            match request_data {
                None => failed(ClientErrorModel::TransportUnavailable, false),
                Some(data) => (
                    QueryStage::Requesting { link_id },
                    QueryAction::SendRequest(link_request_packet(dest_hash, data@)),
                ),
            }
        },
        (QueryStage::Requesting { link_id }, QueryEvent::Sent(sent)) => if sent {
            (QueryStage::CheckingKey { link_id }, QueryAction::CheckKey)
        } else {
            failed(ClientErrorModel::TransportUnavailable, true)
        },
        (QueryStage::CheckingKey { link_id }, QueryEvent::KeyChecked(result)) => match result {
            Err(why) => failed(ClientErrorModel::ProofInvalid("verify key: "@ + why@), true),
            Ok(_) => timed(
                now,
                deadline,
                true,
                (QueryStage::Proving { link_id }, QueryAction::AwaitProof { timeout: left }),
            ),
        },
        (QueryStage::Proving { link_id }, QueryEvent::ProofWaited(wait)) => match wait {
            ProofWait::Elapsed => failed(ClientErrorModel::Timeout("link proof"@), true),
            ProofWait::LinkClosed => failed(
                ClientErrorModel::HandshakeFailed("link closed"@),
                true,
            ),
            ProofWait::DeliveryClosed => failed(
                ClientErrorModel::HandshakeFailed("destination channel closed"@),
                true,
            ),
            ProofWait::Valid { interface_id } => (
                QueryStage::Binding { link_id, interface_id },
                QueryAction::Bind { link_id, interface_id },
            ),
        },
        (QueryStage::Binding { link_id, interface_id }, QueryEvent::Bound { rtt_data }) => {
            match rtt_data {
                None => failed(ClientErrorModel::TransportUnavailable, true),
                Some(data) => (
                    QueryStage::Measuring { link_id, interface_id },
                    QueryAction::Send(query_packet(link_id, PacketContext::Lrrtt, data@)),
                ),
            }
        },
        (QueryStage::Measuring { link_id, interface_id }, QueryEvent::Sent(sent)) => if !sent {
            failed(ClientErrorModel::TransportUnavailable, true)
        } else if !client.has_signing_key {
            failed(ClientErrorModel::NoSigningKey, true)
        } else {
            (QueryStage::Identifying { link_id, interface_id }, QueryAction::Identify)
        },
        (QueryStage::Identifying { link_id, interface_id }, QueryEvent::Identified(result)) => {
            match result {
                Err(why) => failed(ClientErrorModel::LinkCrypto("identify: "@ + why@), true),
                Ok(data) => (
                    QueryStage::Introducing { link_id, interface_id },
                    QueryAction::Send(query_packet(link_id, PacketContext::LinkIdentify, data@)),
                ),
            }
        },
        (QueryStage::Introducing { link_id, interface_id }, QueryEvent::Sent(sent)) => if sent {
            (QueryStage::Preparing { link_id, interface_id }, QueryAction::Prepare)
        } else {
            failed(ClientErrorModel::TransportUnavailable, true)
        },
        (QueryStage::Preparing { link_id, interface_id }, QueryEvent::Prepared(result)) => {
            match result {
                Err(why) => failed(ClientErrorModel::LinkCrypto("request: "@ + why@), true),
                Ok(data) => (
                    QueryStage::Asking { link_id, interface_id },
                    QueryAction::Send(query_packet(link_id, PacketContext::Request, data@)),
                ),
            }
        },
        (QueryStage::Asking { link_id, interface_id }, QueryEvent::Asked { request_id }) => {
            match request_id {
                None => failed(ClientErrorModel::TransportUnavailable, true),
                Some(id) => timed(
                    now,
                    deadline,
                    true,
                    (
                        QueryStage::Waiting { link_id },
                        QueryAction::AwaitResponse {
                            link_id,
                            request_id: id,
                            interface_id,
                            timeout: left,
                        },
                    ),
                ),
            }
        },
        (QueryStage::Waiting { link_id }, QueryEvent::Answered(answer)) => (
            QueryStage::Closing { link_id, answer: answer_model(answer) },
            QueryAction::TearDown,
        ),
        (QueryStage::Closing { link_id, answer }, QueryEvent::TornDown { teardown }) => {
            match teardown {
                None => (
                    QueryStage::Over,
                    QueryAction::Finish { answer, registered: true, released: false },
                ),
                Some(data) => (
                    QueryStage::Leaving { answer },
                    QueryAction::SendFinal(query_packet(link_id, PacketContext::LinkClose, data@)),
                ),
            }
        },
        (QueryStage::Leaving { answer }, QueryEvent::Sent(sent)) => (
            QueryStage::Over,
            QueryAction::Finish { answer, registered: true, released: sent },
        ),
        _ => (stage, QueryAction::Confused),
    }
}

fn fail(error: LinkClientError, registered: bool) -> (r: Action)
    ensures
        action_model(r) == failed(error@, registered).1,
{
    QueryAction::Finish { answer: Err(error), registered, released: false }
}

fn data_packet(link_id: [u8; 16], context: PacketContext, body: Vec<u8>) -> (r: Packet<Vec<u8>>)
    ensures
        r@ == query_packet(link_id, context, body@),
{
    make_link_packet(link_id, PacketType::Data, context, body, false)
}

impl LinkClient {
    pub fn new(has_signing_key: bool) -> (r: Self)
        ensures
            r.has_signing_key == has_signing_key,
    {
        LinkClient { has_signing_key }
    }

    /// Begins a query to the destination `dest_hash` that is to be over by `deadline`:
    /// opens a Link, sends one request, returns the response (and optional Resource
    /// metadata).
    pub fn query(&self, dest_hash: [u8; 16], now: u64, deadline: u64) -> (r: (Query, Action))
        ensures
            r.0.client == *self,
            r.0.dest_hash == dest_hash,
            r.0.deadline == deadline,
            (stage_model(r.0.stage), action_model(r.1)) == timed(
                now,
                deadline,
                false,
                (
                    QueryStage::Resolving,
                    QueryAction::Resolve { timeout: (deadline - now) as u64 },
                ),
            ),
    {
        let (stage, action) = match time_remaining(now, deadline) {
            Ok(timeout) => (QueryStage::Resolving, QueryAction::Resolve { timeout }),
            Err(error) => (QueryStage::Over, fail(error, false)),
        };
        (Query { client: *self, dest_hash, deadline, stage }, action)
    }
}

impl Query {
    /// Takes in what came of the last thing that was to be done, at the time `now`, and
    /// says what is to be done next.
    pub fn advance(self, now: u64, event: QueryEvent) -> (r: (Query, Action))
        ensures
            r.0.client == self.client,
            r.0.dest_hash == self.dest_hash,
            r.0.deadline == self.deadline,
            (stage_model(r.0.stage), action_model(r.1)) == query_course(
                self.client,
                self.dest_hash,
                self.deadline,
                stage_model(self.stage),
                now,
                event,
            ),
    {
        let client = self.client;
        let dest_hash = self.dest_hash;
        let deadline: u64 = self.deadline;
        let (stage, action) = match (self.stage, event) {
            (QueryStage::Resolving, QueryEvent::Resolved(result)) => match result {
                Err(error) => (
                    QueryStage::Over,
                    fail(map_destination_resolve_error(error), false),
                ),
                Ok(link) => (
                    QueryStage::Registering { link_id: link.link_id },
                    QueryAction::Register { link_id: link.link_id },
                ),
            },
            (QueryStage::Registering { link_id }, QueryEvent::Registered { request_data }) => {
                match request_data {
                    None => (QueryStage::Over, fail(LinkClientError::TransportUnavailable, false)),
                    Some(data) => (
                        QueryStage::Requesting { link_id },
                        QueryAction::SendRequest(
                            build_link_request_packet(dest_hash, data.as_slice()),
                        ),
                    ),
                }
            },
            (QueryStage::Requesting { link_id }, QueryEvent::Sent(sent)) => {
                if sent {
                    (QueryStage::CheckingKey { link_id }, QueryAction::CheckKey)
                } else {
                    (QueryStage::Over, fail(LinkClientError::TransportUnavailable, true))
                }
            },
            (QueryStage::CheckingKey { link_id }, QueryEvent::KeyChecked(result)) => match result {
                Err(why) => (
                    QueryStage::Over,
                    fail(
                        LinkClientError::ProofInvalid(worded("verify key: ", why.as_str())),
                        true,
                    ),
                ),
                Ok(_) => match time_remaining(now, deadline) {
                    Ok(timeout) => (
                        QueryStage::Proving { link_id },
                        QueryAction::AwaitProof { timeout },
                    ),
                    Err(error) => (QueryStage::Over, fail(error, true)),
                },
            },
            (QueryStage::Proving { link_id }, QueryEvent::ProofWaited(wait)) => match wait {
                ProofWait::Elapsed => (
                    QueryStage::Over,
                    fail(LinkClientError::Timeout("link proof"), true),
                ),
                ProofWait::LinkClosed => (
                    QueryStage::Over,
                    fail(LinkClientError::HandshakeFailed("link closed".to_owned()), true),
                ),
                ProofWait::DeliveryClosed => (
                    QueryStage::Over,
                    fail(
                        LinkClientError::HandshakeFailed("destination channel closed".to_owned()),
                        true,
                    ),
                ),
                ProofWait::Valid { interface_id } => (
                    QueryStage::Binding { link_id, interface_id },
                    QueryAction::Bind { link_id, interface_id },
                ),
            },
            (QueryStage::Binding { link_id, interface_id }, QueryEvent::Bound { rtt_data }) => {
                match rtt_data {
                    None => (QueryStage::Over, fail(LinkClientError::TransportUnavailable, true)),
                    Some(data) => (
                        QueryStage::Measuring { link_id, interface_id },
                        QueryAction::Send(data_packet(link_id, PacketContext::Lrrtt, data)),
                    ),
                }
            },
            (QueryStage::Measuring { link_id, interface_id }, QueryEvent::Sent(sent)) => {
                if !sent {
                    (QueryStage::Over, fail(LinkClientError::TransportUnavailable, true))
                } else if !client.has_signing_key {
                    (QueryStage::Over, fail(LinkClientError::NoSigningKey, true))
                } else {
                    (QueryStage::Identifying { link_id, interface_id }, QueryAction::Identify)
                }
            },
            (QueryStage::Identifying { link_id, interface_id }, QueryEvent::Identified(result)) => {
                match result {
                    Err(why) => (
                        QueryStage::Over,
                        fail(
                            LinkClientError::LinkCrypto(worded("identify: ", why.as_str())),
                            true,
                        ),
                    ),
                    Ok(data) => (
                        QueryStage::Introducing { link_id, interface_id },
                        QueryAction::Send(data_packet(link_id, PacketContext::LinkIdentify, data)),
                    ),
                }
            },
            (QueryStage::Introducing { link_id, interface_id }, QueryEvent::Sent(sent)) => {
                if sent {
                    (QueryStage::Preparing { link_id, interface_id }, QueryAction::Prepare)
                } else {
                    (QueryStage::Over, fail(LinkClientError::TransportUnavailable, true))
                }
            },
            (QueryStage::Preparing { link_id, interface_id }, QueryEvent::Prepared(result)) => {
                match result {
                    Err(why) => (
                        QueryStage::Over,
                        fail(
                            LinkClientError::LinkCrypto(worded("request: ", why.as_str())),
                            true,
                        ),
                    ),
                    Ok(data) => (
                        QueryStage::Asking { link_id, interface_id },
                        QueryAction::Send(data_packet(link_id, PacketContext::Request, data)),
                    ),
                }
            },
            (QueryStage::Asking { link_id, interface_id }, QueryEvent::Asked { request_id }) => {
                match request_id {
                    None => (QueryStage::Over, fail(LinkClientError::TransportUnavailable, true)),
                    Some(id) => match time_remaining(now, deadline) {
                        Ok(timeout) => (
                            QueryStage::Waiting { link_id },
                            QueryAction::AwaitResponse {
                                link_id,
                                request_id: id,
                                interface_id,
                                timeout,
                            },
                        ),
                        Err(error) => (QueryStage::Over, fail(error, true)),
                    },
                }
            },
            // Tear down even on failure so the remote doesn't keep link state.
            (QueryStage::Waiting { link_id }, QueryEvent::Answered(answer)) => (
                QueryStage::Closing { link_id, answer },
                QueryAction::TearDown,
            ),
            (QueryStage::Closing { link_id, answer }, QueryEvent::TornDown { teardown }) => {
                match teardown {
                    None => (
                        QueryStage::Over,
                        QueryAction::Finish { answer, registered: true, released: false },
                    ),
                    Some(data) => (
                        QueryStage::Leaving { answer },
                        QueryAction::SendFinal(
                            data_packet(link_id, PacketContext::LinkClose, data),
                        ),
                    ),
                }
            },
            (QueryStage::Leaving { answer }, QueryEvent::Sent(sent)) => (
                QueryStage::Over,
                QueryAction::Finish { answer, registered: true, released: sent },
            ),
            (stage, _) => (stage, QueryAction::Confused),
        };
        (Query { client, dest_hash, deadline, stage }, action)
    }
}

/// Once a response was awaited, whatever came of it, the Link is torn down before the
/// query is over, and the query comes to exactly that answer.
pub proof fn answer_is_kept_through_teardown(
    client: LinkClient,
    dest_hash: [u8; 16],
    deadline: u64,
    link_id: [u8; 16],
    answer: Result<LinkQueryResponse, LinkClientError>,
    teardown: Option<Vec<u8>>,
    sent: bool,
    t1: u64,
    t2: u64,
    t3: u64,
)
    ensures
        ({
            let (s1, a1) = query_course(
                client,
                dest_hash,
                deadline,
                QueryStage::Waiting { link_id },
                t1,
                QueryEvent::Answered(answer),
            );
            let (s2, a2) = query_course(
                client,
                dest_hash,
                deadline,
                s1,
                t2,
                QueryEvent::TornDown { teardown },
            );
            let (s3, a3) = query_course(client, dest_hash, deadline, s2, t3, QueryEvent::Sent(sent));
            &&& a1 is TearDown
            &&& match teardown {
                None => a2 == (ActionModel::Finish {
                    answer: answer_model(answer),
                    registered: true,
                    released: false,
                }),
                Some(data) => a2 == ActionModel::SendFinal(
                    query_packet(link_id, PacketContext::LinkClose, data@),
                ) && a3 == (ActionModel::Finish {
                    answer: answer_model(answer),
                    registered: true,
                    released: sent,
                }),
            }
        }),
{
}

/// A query that is over stays over.
pub proof fn finished_query_stays_finished(
    client: LinkClient,
    dest_hash: [u8; 16],
    deadline: u64,
    now: u64,
    event: QueryEvent,
)
    ensures
        query_course(client, dest_hash, deadline, QueryStage::Over, now, event) == (
            QueryStage::<AnswerModel>::Over,
            ActionModel::Confused,
        ),
{
}

} // verus!
