//! Initiator side of one request over a Link of its own: public key discovery → Link →
//! identification → request → response → close.
//!
//! The course of a query is a state machine. It says what is to be done next; whoever
//! runs it does that, and hands back what came of it.

use vstd::prelude::*;

use crate::assoc::same_bytes;
use crate::events::bytes_model;
use crate::link::{cancel_context, Action, ActionModel, CancelType, TransferAction};
use crate::receiving::{optional_action, PartOutcome, PartScan};
use crate::resources::contains_hash;
use crate::text::worded;
use crate::wire::{
    copy_bytes, hash_bytes, link_packet, make_header, make_link_packet, origin_header, same_data,
    DestinationType, Packet, PacketContext, PacketHeader, PacketType,
};

verus! {

#[derive(Debug)]
pub enum LinkClientError {
    TransportUnavailable,
    Timeout(&'static str),
    PubkeyNotDiscovered,
    ProofInvalid(String),
    HandshakeFailed(String),
    NoSigningKey,
    LinkCrypto(String),
    UnexpectedResponse(String),
}

/// The mathematical model of a [`LinkClientError`].
pub enum ClientErrorModel {
    TransportUnavailable,
    Timeout(Seq<char>),
    PubkeyNotDiscovered,
    ProofInvalid(Seq<char>),
    HandshakeFailed(Seq<char>),
    NoSigningKey,
    LinkCrypto(Seq<char>),
    UnexpectedResponse(Seq<char>),
}

impl View for LinkClientError {
    type V = ClientErrorModel;

    open spec fn view(&self) -> ClientErrorModel {
        match *self {
            LinkClientError::TransportUnavailable => ClientErrorModel::TransportUnavailable,
            LinkClientError::Timeout(what) => ClientErrorModel::Timeout(what@),
            LinkClientError::PubkeyNotDiscovered => ClientErrorModel::PubkeyNotDiscovered,
            LinkClientError::ProofInvalid(why) => ClientErrorModel::ProofInvalid(why@),
            LinkClientError::HandshakeFailed(why) => ClientErrorModel::HandshakeFailed(why@),
            LinkClientError::NoSigningKey => ClientErrorModel::NoSigningKey,
            LinkClientError::LinkCrypto(why) => ClientErrorModel::LinkCrypto(why@),
            LinkClientError::UnexpectedResponse(why) => ClientErrorModel::UnexpectedResponse(why@),
        }
    }
}

impl LinkClientError {
    /// The error in words.
    pub fn message(&self) -> (r: String)
        ensures
            r@ == self@.message(),
    {
        match self {
            LinkClientError::TransportUnavailable => "transport channel closed or full".to_owned(),
            LinkClientError::Timeout(what) => worded("timed out waiting for ", what),
            LinkClientError::PubkeyNotDiscovered => {
                "could not discover remote identity public key for destination".to_owned()
            },
            LinkClientError::ProofInvalid(why) => worded(
                "link proof validation failed: ",
                why.as_str(),
            ),
            LinkClientError::HandshakeFailed(why) => worded(
                "link establishment failed: ",
                why.as_str(),
            ),
            LinkClientError::NoSigningKey => {
                "local identity has no signing key (cannot identify on link)".to_owned()
            },
            LinkClientError::LinkCrypto(why) => worded(
                "encryption failure on link: ",
                why.as_str(),
            ),
            LinkClientError::UnexpectedResponse(why) => worded(
                "unexpected response from remote: ",
                why.as_str(),
            ),
        }
    }
}

impl ClientErrorModel {
    pub open spec fn message(self) -> Seq<char> {
        match self {
            ClientErrorModel::TransportUnavailable => "transport channel closed or full"@,
            ClientErrorModel::Timeout(what) => "timed out waiting for "@ + what,
            ClientErrorModel::PubkeyNotDiscovered => {
                "could not discover remote identity public key for destination"@
            },
            ClientErrorModel::ProofInvalid(why) => "link proof validation failed: "@ + why,
            ClientErrorModel::HandshakeFailed(why) => "link establishment failed: "@ + why,
            ClientErrorModel::NoSigningKey => {
                "local identity has no signing key (cannot identify on link)"@
            },
            ClientErrorModel::LinkCrypto(why) => "encryption failure on link: "@ + why,
            ClientErrorModel::UnexpectedResponse(why) => "unexpected response from remote: "@ + why,
        }
    }
}

/// Successful Link request response.
///
/// Ordinary replies carry packed response bytes in `data` with `metadata` unset.
/// NomadNet `/file/...` replies are response Resources whose payload is raw file bytes
/// plus optional msgpack filename metadata.
#[derive(Debug, Clone, PartialEq, Eq)]
pub struct LinkQueryResponse {
    pub data: Vec<u8>,
    pub metadata: Option<Vec<u8>>,
}

/// What a query comes to, its error as a model.
pub type AnswerModel = Result<LinkQueryResponse, ClientErrorModel>;

pub open spec fn answer_model(r: Result<LinkQueryResponse, LinkClientError>) -> AnswerModel {
    match r {
        Ok(response) => Ok(response),
        Err(error) => Err(error@),
    }
}

/// Why a destination could not be resolved.
#[derive(Debug, Clone, Copy)]
pub enum DestinationResolveError {
    Timeout,
    TransportUnavailable,
    UnexpectedResponse(&'static str),
}

/// How much time is left at `now` until `deadline`.
pub fn time_remaining(now: u64, deadline: u64) -> (r: Result<u64, LinkClientError>)
    ensures
        match r {
            Ok(left) => now < deadline && left == deadline - now,
            Err(error) => now >= deadline && error@ == ClientErrorModel::Timeout(
                "overall query"@,
            ),
        },
{
    if now >= deadline {
        Err(LinkClientError::Timeout("overall query"))
    } else {
        Ok(deadline - now)
    }
}

/// What a query comes to whose destination could not be resolved.
pub open spec fn resolve_failure(error: DestinationResolveError) -> ClientErrorModel {
    match error {
        DestinationResolveError::Timeout => ClientErrorModel::Timeout("destination resolution"@),
        DestinationResolveError::TransportUnavailable => ClientErrorModel::TransportUnavailable,
        DestinationResolveError::UnexpectedResponse(operation) => {
            ClientErrorModel::UnexpectedResponse(operation@)
        },
    }
}

pub fn map_destination_resolve_error(error: DestinationResolveError) -> (r: LinkClientError)
    ensures
        r@ == resolve_failure(error),
{
    match error {
        DestinationResolveError::Timeout => LinkClientError::Timeout("destination resolution"),
        DestinationResolveError::TransportUnavailable => LinkClientError::TransportUnavailable,
        DestinationResolveError::UnexpectedResponse(operation) => {
            LinkClientError::UnexpectedResponse(operation.to_owned())
        },
    }
}

/// The packet that asks a destination for a Link.
pub open spec fn link_request_packet<B>(dest_hash: [u8; 16], request_data: B) -> Packet<B> {
    Packet {
        header: origin_header(
            DestinationType::Single,
            PacketType::LinkRequest,
            dest_hash,
            PacketContext::Data,
        ),
        body: request_data,
        seal: false,
    }
}

pub fn build_link_request_packet(dest_hash: [u8; 16], request_data: &[u8]) -> (r: Packet<Vec<u8>>)
    ensures
        r@ == link_request_packet(dest_hash, request_data@),
{
    Packet {
        header: make_header(
            DestinationType::Single,
            PacketType::LinkRequest,
            dest_hash,
            PacketContext::Data,
        ),
        body: copy_bytes(request_data),
        seal: false,
    }
}

/// A proof on a Link.
pub fn build_proof_packet(link_id: [u8; 16], context: PacketContext, body: &[u8]) -> (r: Packet<
    Vec<u8>,
>)
    ensures
        r@ == link_packet(link_id, PacketType::Proof, context, body@, false),
{
    make_link_packet(link_id, PacketType::Proof, context, copy_bytes(body), false)
}

/// Data on a Link.
pub fn build_data_packet(link_id: [u8; 16], context: PacketContext, body: &[u8]) -> (r: Packet<
    Vec<u8>,
>)
    ensures
        r@ == link_packet(link_id, PacketType::Data, context, body@, false),
{
    make_link_packet(link_id, PacketType::Data, context, copy_bytes(body), false)
}

// ---- waiting for the response ----

/// What became of a packet that was to be sent.
#[derive(Debug)]
pub enum SendReport {
    Sent,
    /// It could not be encrypted, in words.
    SealFailed(String),
    TransportUnavailable,
}

/// What a packet that was to be sent means for the wait.
pub fn send_failure(report: SendReport) -> (r: Option<LinkClientError>)
    ensures
        match report {
            SendReport::Sent => r is None,
            SendReport::SealFailed(why) => r matches Some(e) && e@ == ClientErrorModel::LinkCrypto(
                "resource control: "@ + why@,
            ),
            SendReport::TransportUnavailable => r matches Some(e) && e@
                == ClientErrorModel::TransportUnavailable,
        },
{
    match report {
        SendReport::Sent => None,
        SendReport::SealFailed(why) => Some(
            LinkClientError::LinkCrypto(worded("resource control: ", why.as_str())),
        ),
        SendReport::TransportUnavailable => Some(LinkClientError::TransportUnavailable),
    }
}

/// An offer of a Resource, as far as it could be read.
#[derive(Debug)]
pub enum ResponseOffer {
    Sealed(String),
    Malformed(String),
    Offer {
        is_response: bool,
        request_id: Option<Vec<u8>>,
        resource_hash: [u8; 32],
        transfer: Result<Action, String>,
    },
}

/// More of a Resource's hash map, as far as it could be read, and what the transfer of
/// the segment asks for.
#[derive(Debug)]
pub enum ResponseHashmap {
    Sealed(String),
    Malformed(String),
    Update { segment: [u8; 32], action: Action },
}

/// What the transfers made of a part, offered to one after the other.
#[derive(Debug)]
pub struct PartOffer {
    pub scan: PartScan,
    /// Why a transfer has failed.
    pub failed: Option<String>,
}

impl PartOffer {
    pub fn new() -> (r: Self)
        ensures
            r.failed is None,
            r.scan.action is None,
            r.scan.completed is None,
            r.scan.progressed is None,
    {
        PartOffer { scan: PartScan::new(), failed: None }
    }

    /// Notes what the transfer of `segment` made of the part, and says whether no further
    /// transfer is offered it. A transfer that fails ends the wait.
    pub fn note(&mut self, segment: [u8; 32], outcome: PartOutcome) -> (r: bool)
        ensures
            match outcome.action {
                TransferAction::Failed(reason) => r && final(self).failed == Some(reason)
                    && final(self).scan == old(self).scan,
                _ => {
                    &&& final(self).failed == old(self).failed
                    &&& r == final(self).scan.settled()
                    &&& final(self).scan.completed == (if outcome.action is Complete || (old(
                        self,
                    ).scan.completed is None && outcome.is_complete) {
                        Some(segment)
                    } else {
                        old(self).scan.completed
                    })
                    &&& optional_action(final(self).scan.action) == (
                    if crate::receiving::is_flow_control(outcome.action@) {
                        Some(outcome.action@)
                    } else {
                        optional_action(old(self).scan.action)
                    })
                },
            },
    {
        match outcome.action {
            TransferAction::Failed(reason) => {
                self.failed = Some(reason);
                true
            },
            action => self.scan.note(
                segment,
                PartOutcome { action, is_complete: outcome.is_complete, advanced: outcome.advanced },
            ),
        }
    }
}

/// What the Link's own machinery made of a packet.
#[derive(Debug)]
pub enum ResponseInput {
    Response(Result<([u8; 16], Vec<u8>), String>),
    Advertisement(ResponseOffer),
    Part(PartOffer),
    HashmapUpdate(ResponseHashmap),
    Close { verified: bool },
    Other,
}

/// Something that happened while the response was awaited.
#[derive(Debug)]
pub enum WaitEvent {
    /// Nothing can be delivered any more.
    DeliveryClosed,
    /// The endpoint came to its end, in words.
    EndpointTerminated(String),
    LinkClosed { link_id: [u8; 16] },
    /// A packet arrived. Its header is missing if it did not unpack.
    Packet { header: Option<PacketHeader>, interface_id: u64, input: ResponseInput },
    /// The time is up.
    Elapsed,
    Other,
}

/// A segment that is complete: its proof and content, or why there is none.
#[derive(Debug)]
pub enum ResponseSegment {
    MissingKeys,
    AssembleFailed(String),
    Assembled {
        segment_proof: Vec<u8>,
        data: Vec<u8>,
        metadata: Option<Vec<u8>>,
        /// The content as a packed response: the request's id and the response.
        parsed: Result<([u8; 16], Vec<u8>), String>,
    },
}

/// What is to be done next while the response is awaited, in this order: a packet is to be
/// sent, a segment is to be completed, and the wait is over.
#[derive(Debug)]
pub struct WaitStep<P, R> {
    pub send: Option<P>,
    pub complete: Option<[u8; 32]>,
    pub done: Option<R>,
}

pub type Step = WaitStep<Packet<Vec<u8>>, Result<LinkQueryResponse, LinkClientError>>;

pub type StepModel = WaitStep<Packet<Seq<u8>>, AnswerModel>;

pub open spec fn step_model(s: Step) -> StepModel {
    WaitStep {
        send: match s.send {
            Some(p) => Some(p@),
            None => None,
        },
        complete: s.complete,
        done: match s.done {
            Some(r) => Some(answer_model(r)),
            None => None,
        },
    }
}

pub open spec fn idle() -> StepModel {
    WaitStep { send: None, complete: None, done: None }
}

pub open spec fn over(answer: AnswerModel) -> StepModel {
    WaitStep { send: None, complete: None, done: Some(answer) }
}

/// The packet that carries out flow control or a cancellation.
pub open spec fn control_packet(link_id: [u8; 16], action: ActionModel) -> Option<
    Packet<Seq<u8>>,
> {
    match action {
        TransferAction::SendHmu(b) => Some(
            link_packet(link_id, PacketType::Data, PacketContext::ResourceHmu, b, true),
        ),
        TransferAction::SendRequest(b) => Some(
            link_packet(link_id, PacketType::Data, PacketContext::ResourceReq, b, true),
        ),
        TransferAction::SendCancel(t, hash) => Some(
            link_packet(link_id, PacketType::Data, cancel_context(t), hash@, true),
        ),
        _ => None,
    }
}

fn make_control_packet(link_id: [u8; 16], action: Action) -> (r: Option<Packet<Vec<u8>>>)
    ensures
        match r {
            Some(p) => control_packet(link_id, action@) == Some(p@),
            None => control_packet(link_id, action@) is None,
        },
{
    match action {
        TransferAction::SendHmu(payload) => Some(
            make_link_packet(link_id, PacketType::Data, PacketContext::ResourceHmu, payload, true),
        ),
        TransferAction::SendRequest(payload) => Some(
            make_link_packet(link_id, PacketType::Data, PacketContext::ResourceReq, payload, true),
        ),
        TransferAction::SendCancel(cancel_type, hash) => {
            let context = match cancel_type {
                CancelType::Icl => PacketContext::ResourceIcl,
                CancelType::Rcl => PacketContext::ResourceRcl,
            };
            Some(make_link_packet(link_id, PacketType::Data, context, hash_bytes(&hash), true))
        },
        _ => None,
    }
}

/// Waiting for the response to one request.
#[derive(Debug)]
pub struct ResponseWait {
    pub link_id: [u8; 16],
    pub request_id: [u8; 16],
    /// The only interface on which packets of the Link are taken.
    pub attached_interface: u64,
    /// The segments that are being received.
    pub transfers: Vec<[u8; 32]>,
}

impl ResponseWait {
    /// What a response means: it ends the wait if it is for this request.
    pub open spec fn response_step(self, id: [u8; 16], data: Vec<u8>) -> StepModel {
        if id == self.request_id {
            over(Ok(LinkQueryResponse { data, metadata: None }))
        } else {
            idle()
        }
    }

    /// Whether an offer is the response to this request.
    pub open spec fn takes_offer(self, is_response: bool, request_id: Option<Vec<u8>>) -> bool {
        is_response && bytes_model(request_id) == Some(self.request_id@)
    }

    pub open spec fn offer_step(self, offer: ResponseOffer) -> StepModel {
        match offer {
            ResponseOffer::Sealed(why) => over(
                Err(
                    ClientErrorModel::LinkCrypto("resource advertisement decrypt: "@ + why@),
                ),
            ),
            ResponseOffer::Malformed(why) => over(
                Err(ClientErrorModel::UnexpectedResponse("resource advertisement: "@ + why@)),
            ),
            ResponseOffer::Offer { is_response, request_id, resource_hash, transfer } => {
                if !self.takes_offer(is_response, request_id) {
                    idle()
                } else {
                    match transfer {
                        Err(why) => over(
                            Err(
                                ClientErrorModel::UnexpectedResponse("resource transfer: "@ + why@),
                            ),
                        ),
                        Ok(action) => WaitStep {
                            send: if action@ is SendRequest {
                                control_packet(self.link_id, action@)
                            } else {
                                None
                            },
                            complete: None,
                            done: None,
                        },
                    }
                }
            },
        }
    }

    /// The segments that are being received once an offer was dealt with.
    pub open spec fn offer_transfers(self, offer: ResponseOffer) -> Seq<[u8; 32]> {
        match offer {
            ResponseOffer::Offer { is_response, request_id, resource_hash, transfer } => {
                if self.takes_offer(is_response, request_id) && transfer is Ok
                    && !self.transfers@.contains(resource_hash) {
                    self.transfers@.push(resource_hash)
                } else {
                    self.transfers@
                }
            },
            _ => self.transfers@,
        }
    }

    pub open spec fn part_step(self, part: PartOffer) -> StepModel {
        match part.failed {
            Some(why) => over(
                Err(ClientErrorModel::UnexpectedResponse("resource transfer failed: "@ + why@)),
            ),
            None => WaitStep {
                send: match part.scan.action {
                    Some(action) => control_packet(self.link_id, action@),
                    None => None,
                },
                complete: part.scan.completed,
                done: None,
            },
        }
    }

    pub open spec fn hashmap_step(self, update: ResponseHashmap) -> StepModel {
        match update {
            ResponseHashmap::Sealed(why) => over(
                Err(
                    ClientErrorModel::LinkCrypto("resource hashmap update decrypt: "@ + why@),
                ),
            ),
            ResponseHashmap::Malformed(why) => over(
                Err(ClientErrorModel::UnexpectedResponse("resource hashmap update: "@ + why@)),
            ),
            ResponseHashmap::Update { segment, action } => if self.transfers@.contains(segment)
                && !(action is SendHmu) {
                WaitStep {
                    send: control_packet(self.link_id, action@),
                    complete: None,
                    done: None,
                }
            } else {
                idle()
            },
        }
    }

    /// Whether a packet is one of the Link's, on the Link's interface.
    pub open spec fn takes_packet(self, header: Option<PacketHeader>, interface_id: u64) -> bool {
        interface_id == self.attached_interface && header is Some && (
        header->0).destination_hash == self.link_id
    }

    /// What an event means.
    pub open spec fn wait_step(self, event: WaitEvent) -> StepModel {
        match event {
            WaitEvent::DeliveryClosed => over(
                Err(ClientErrorModel::HandshakeFailed("destination channel closed"@)),
            ),
            WaitEvent::EndpointTerminated(why) => over(
                Err(ClientErrorModel::HandshakeFailed("link endpoint terminated: "@ + why@)),
            ),
            WaitEvent::Elapsed => over(Err(ClientErrorModel::Timeout("response"@))),
            WaitEvent::LinkClosed { link_id } => if link_id == self.link_id {
                over(Err(ClientErrorModel::HandshakeFailed("link closed"@)))
            } else {
                idle()
            },
            WaitEvent::Packet { header, interface_id, input } => if !self.takes_packet(
                header,
                interface_id,
            ) {
                idle()
            } else {
                match ((header->0).context, input) {
                    (PacketContext::Response, ResponseInput::Response(response)) => match response {
                        Ok((id, data)) => self.response_step(id, data),
                        Err(why) => over(
                            Err(ClientErrorModel::LinkCrypto("response decrypt: "@ + why@)),
                        ),
                    },
                    (PacketContext::ResourceAdv, ResponseInput::Advertisement(offer)) => {
                        self.offer_step(offer)
                    },
                    (PacketContext::Resource, ResponseInput::Part(part)) => self.part_step(part),
                    (PacketContext::ResourceHmu, ResponseInput::HashmapUpdate(update)) => {
                        self.hashmap_step(update)
                    },
                    (PacketContext::LinkClose, ResponseInput::Close { verified }) => if verified {
                        over(Err(ClientErrorModel::HandshakeFailed("link closed by remote"@)))
                    } else {
                        idle()
                    },
                    _ => idle(),
                }
            },
            WaitEvent::Other => idle(),
        }
    }

    /// The segments that are being received after an event.
    pub open spec fn wait_transfers(self, event: WaitEvent) -> Seq<[u8; 32]> {
        match event {
            WaitEvent::Packet { header, interface_id, input } => if self.takes_packet(
                header,
                interface_id,
            ) && (header->0).context is ResourceAdv {
                match input {
                    ResponseInput::Advertisement(offer) => self.offer_transfers(offer),
                    _ => self.transfers@,
                }
            } else {
                self.transfers@
            },
            _ => self.transfers@,
        }
    }

    /// What a complete segment means: it is proved, and, with metadata, it is the response
    /// as it stands; else it holds a packed response.
    pub open spec fn segment_step(self, segment: [u8; 32], content: ResponseSegment) -> StepModel {
        if !self.transfers@.contains(segment) {
            over(Err(ClientErrorModel::UnexpectedResponse("completed resource disappeared"@)))
        } else {
            match content {
                ResponseSegment::MissingKeys => over(
                    Err(ClientErrorModel::LinkCrypto("resource response missing link keys"@)),
                ),
                ResponseSegment::AssembleFailed(why) => over(
                    Err(ClientErrorModel::UnexpectedResponse("resource assemble: "@ + why@)),
                ),
                ResponseSegment::Assembled { segment_proof, data, metadata, parsed } => WaitStep {
                    send: Some(
                        link_packet(
                            self.link_id,
                            PacketType::Proof,
                            PacketContext::ResourcePrf,
                            segment_proof@,
                            false,
                        ),
                    ),
                    complete: None,
                    done: if metadata is Some {
                        Some(Ok(LinkQueryResponse { data, metadata }))
                    } else {
                        match parsed {
                            Ok((id, response)) => self.response_step(id, response).done,
                            Err(why) => Some(
                                Err(
                                    ClientErrorModel::LinkCrypto(
                                        "resource response decode: "@ + why@,
                                    ),
                                ),
                            ),
                        }
                    },
                },
            }
        }
    }

    pub fn new(link_id: [u8; 16], request_id: [u8; 16], attached_interface: u64) -> (r: Self)
        ensures
            r.link_id == link_id,
            r.request_id == request_id,
            r.attached_interface == attached_interface,
            r.transfers@ == Seq::<[u8; 32]>::empty(),
    {
        ResponseWait { link_id, request_id, attached_interface, transfers: Vec::new() }
    }

    fn on_response(&self, id: [u8; 16], data: Vec<u8>) -> (r: Step)
        ensures
            step_model(r) == self.response_step(id, data),
    {
        let done = if same_bytes(&id, &self.request_id) {
            Some(Ok(LinkQueryResponse { data, metadata: None }))
        } else {
            None
        };
        WaitStep { send: None, complete: None, done }
    }

    fn on_offer(&mut self, offer: ResponseOffer) -> (r: Step)
        ensures
            step_model(r) == old(self).offer_step(offer),
            final(self).transfers@ == old(self).offer_transfers(offer),
            final(self).link_id == old(self).link_id,
            final(self).request_id == old(self).request_id,
            final(self).attached_interface == old(self).attached_interface,
    {
        match offer {
            ResponseOffer::Sealed(why) => ended(
                LinkClientError::LinkCrypto(
                    worded("resource advertisement decrypt: ", why.as_str()),
                ),
            ),
            ResponseOffer::Malformed(why) => ended(
                LinkClientError::UnexpectedResponse(
                    worded("resource advertisement: ", why.as_str()),
                ),
            ),
            ResponseOffer::Offer { is_response, request_id, resource_hash, transfer } => {
                let ours: bool = match &request_id {
                    Some(id) => same_data(id.as_slice(), self.request_id.as_slice()),
                    None => false,
                };
                if !is_response || !ours {
                    return WaitStep { send: None, complete: None, done: None };
                }
                match transfer {
                    Err(why) => ended(
                        LinkClientError::UnexpectedResponse(
                            worded("resource transfer: ", why.as_str()),
                        ),
                    ),
                    Ok(action) => {
                        if !contains_hash(&self.transfers, &resource_hash) {
                            self.transfers.push(resource_hash);
                        }
                        let send = match action {
                            TransferAction::SendRequest(payload) => make_control_packet(
                                self.link_id,
                                TransferAction::SendRequest(payload),
                            ),
                            _ => None,
                        };
                        WaitStep { send, complete: None, done: None }
                    },
                }
            },
        }
    }

    fn on_part(&self, part: PartOffer) -> (r: Step)
        ensures
            step_model(r) == self.part_step(part),
    {
        match part.failed {
            Some(why) => ended(
                LinkClientError::UnexpectedResponse(
                    worded("resource transfer failed: ", why.as_str()),
                ),
            ),
            None => {
                let send = match part.scan.action {
                    Some(action) => make_control_packet(self.link_id, action),
                    None => None,
                };
                WaitStep { send, complete: part.scan.completed, done: None }
            },
        }
    }

    fn on_hashmap(&self, update: ResponseHashmap) -> (r: Step)
        ensures
            step_model(r) == self.hashmap_step(update),
    {
        match update {
            ResponseHashmap::Sealed(why) => ended(
                LinkClientError::LinkCrypto(
                    worded("resource hashmap update decrypt: ", why.as_str()),
                ),
            ),
            ResponseHashmap::Malformed(why) => ended(
                LinkClientError::UnexpectedResponse(
                    worded("resource hashmap update: ", why.as_str()),
                ),
            ),
            ResponseHashmap::Update { segment, action } => {
                let known: bool = contains_hash(&self.transfers, &segment);
                let send = match action {
                    TransferAction::SendHmu(_) => None,
                    other => if known {
                        make_control_packet(self.link_id, other)
                    } else {
                        None
                    },
                };
                WaitStep { send, complete: None, done: None }
            },
        }
    }

    /// What an event means for the wait.
    pub fn step(&mut self, event: WaitEvent) -> (r: Step)
        ensures
            step_model(r) == old(self).wait_step(event),
            final(self).transfers@ == old(self).wait_transfers(event),
            final(self).link_id == old(self).link_id,
            final(self).request_id == old(self).request_id,
            final(self).attached_interface == old(self).attached_interface,
    {
        match event {
            WaitEvent::DeliveryClosed => ended(
                LinkClientError::HandshakeFailed("destination channel closed".to_owned()),
            ),
            WaitEvent::EndpointTerminated(why) => ended(
                LinkClientError::HandshakeFailed(
                    worded("link endpoint terminated: ", why.as_str()),
                ),
            ),
            WaitEvent::Elapsed => ended(LinkClientError::Timeout("response")),
            WaitEvent::LinkClosed { link_id } => {
                if same_bytes(&link_id, &self.link_id) {
                    ended(LinkClientError::HandshakeFailed("link closed".to_owned()))
                } else {
                    WaitStep { send: None, complete: None, done: None }
                }
            },
            WaitEvent::Packet { header, interface_id, input } => {
                let header = match header {
                    Some(header) => header,
                    None => {
                        return WaitStep { send: None, complete: None, done: None };
                    },
                };
                if interface_id != self.attached_interface || !same_bytes(
                    &header.destination_hash,
                    &self.link_id,
                ) {
                    return WaitStep { send: None, complete: None, done: None };
                }
                match (header.context, input) {
                    (PacketContext::Response, ResponseInput::Response(response)) => match response {
                        Ok((id, data)) => self.on_response(id, data),
                        Err(why) => ended(
                            LinkClientError::LinkCrypto(worded("response decrypt: ", why.as_str())),
                        ),
                    },
                    (PacketContext::ResourceAdv, ResponseInput::Advertisement(offer)) => {
                        self.on_offer(offer)
                    },
                    (PacketContext::Resource, ResponseInput::Part(part)) => self.on_part(part),
                    (PacketContext::ResourceHmu, ResponseInput::HashmapUpdate(update)) => {
                        self.on_hashmap(update)
                    },
                    (PacketContext::LinkClose, ResponseInput::Close { verified: true }) => ended(
                        LinkClientError::HandshakeFailed("link closed by remote".to_owned()),
                    ),
                    _ => WaitStep { send: None, complete: None, done: None },
                }
            },
            WaitEvent::Other => WaitStep { send: None, complete: None, done: None },
        }
    }

    /// Takes in a segment that is complete.
    pub fn complete(&mut self, segment: [u8; 32], content: ResponseSegment) -> (r: Step)
        ensures
            step_model(r) == old(self).segment_step(segment, content),
            final(self).transfers@ == (if content is Assembled {
                old(self).transfers@.filter(|hash: [u8; 32]| hash != segment)
            } else {
                old(self).transfers@
            }),
            final(self).link_id == old(self).link_id,
            final(self).request_id == old(self).request_id,
            final(self).attached_interface == old(self).attached_interface,
    {
        let known: bool = contains_hash(&self.transfers, &segment);
        match &content {
            ResponseSegment::Assembled { .. } => {
                remove_hash(&mut self.transfers, &segment);
            },
            _ => {},
        }
        if !known {
            return ended(
                LinkClientError::UnexpectedResponse("completed resource disappeared".to_owned()),
            );
        }
        match content {
            ResponseSegment::MissingKeys => ended(
                LinkClientError::LinkCrypto("resource response missing link keys".to_owned()),
            ),
            ResponseSegment::AssembleFailed(why) => ended(
                LinkClientError::UnexpectedResponse(worded("resource assemble: ", why.as_str())),
            ),
            ResponseSegment::Assembled { segment_proof, data, metadata, parsed } => {
                let packet = make_link_packet(
                    self.link_id,
                    PacketType::Proof,
                    PacketContext::ResourcePrf,
                    segment_proof,
                    false,
                );
                let done = if metadata.is_some() {
                    // A file: raw payload and metadata.
                    Some(Ok(LinkQueryResponse { data, metadata }))
                } else {
                    match parsed {
                        Ok((id, response)) => self.on_response(id, response).done,
                        Err(why) => Some(
                            Err(
                                LinkClientError::LinkCrypto(
                                    worded("resource response decode: ", why.as_str()),
                                ),
                            ),
                        ),
                    }
                };
                WaitStep { send: Some(packet), complete: None, done }
            },
        }
    }
}

/// The wait is over with an error.
fn ended(error: LinkClientError) -> (r: Step)
    ensures
        step_model(r) == over(Err(error@)),
{
    WaitStep { send: None, complete: None, done: Some(Err(error)) }
}

/// Removes every occurrence of `hash`.
fn remove_hash(hashes: &mut Vec<[u8; 32]>, hash: &[u8; 32])
    ensures
        final(hashes)@ == old(hashes)@.filter(|h: [u8; 32]| h != *hash),
{
    let ghost all = hashes@;
    let ghost p = |h: [u8; 32]| h != *hash;
    let ghost mut done: int = 0;
    let mut i: usize = 0;
    while i < hashes.len()
        invariant
            0 <= done <= all.len(),
            i == all.take(done).filter(p).len(),
            hashes@ == all.take(done).filter(p) + all.skip(done),
            p == (|h: [u8; 32]| h != *hash),
        decreases all.len() - done,
    {
        proof {
            reveal_with_fuel(Seq::filter, 2);
            assert(all.take(done + 1).drop_last() =~= all.take(done));
            assert(all.take(done + 1).last() == all[done]);
            assert(hashes@[i as int] == all[done]);
        }
        if same_bytes(&hashes[i], hash) {
            hashes.remove(i);
            proof {
                assert(hashes@ =~= all.take(done).filter(p) + all.skip(done + 1));
            }
        } else {
            i = i + 1;
            proof {
                assert(hashes@ =~= all.take(done + 1).filter(p) + all.skip(done + 1));
            }
        }
        proof {
            done = done + 1;
        }
    }
    proof {
        assert(all.take(done) =~= all) by {
            assert(all.skip(done).len() == 0);
        }
        assert(hashes@ =~= all.filter(p));
    }
}

} // verus!
