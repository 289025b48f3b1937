//! What the library tells the application.

use vstd::prelude::*;

use crate::wire::copy_bytes;

verus! {

#[derive(Debug)]
pub struct LinkResponse {
    pub link_id: [u8; 16],
    pub request_id: [u8; 16],
    pub data: Vec<u8>,
}

#[derive(Debug, Clone)]
pub struct LinkChannelMessage {
    pub link_id: [u8; 16],
    pub msg_type: u16,
    pub payload: Vec<u8>,
}

#[derive(Debug, Clone, Copy)]
pub struct ChannelSendReceipt {
    pub link_id: [u8; 16],
    pub sequence: u16,
    pub packet_hash: [u8; 32],
}

#[derive(Debug, Clone, Copy)]
pub struct LinkPacketSendReceipt {
    pub link_id: [u8; 16],
    pub packet_hash: [u8; 32],
}

#[derive(Debug, Clone, Copy)]
pub struct LinkResourceSendReceipt {
    pub link_id: [u8; 16],
    pub resource_hash: [u8; 32],
}

#[derive(Debug, Clone, Copy)]
pub struct LinkPacketProof {
    pub link_id: [u8; 16],
    pub packet_hash: [u8; 32],
}

#[derive(Debug, Clone, Copy)]
pub struct LinkResourceProof {
    pub link_id: [u8; 16],
    pub resource_hash: [u8; 32],
}

/// Valid delivery proof for a non-Link packet registered by an application.
///
/// The transport authenticates the proof before it reports it. The message
/// identifier is the opaque value that the application registered.
#[derive(Debug, Clone)]
pub struct DestinationDeliveryProof {
    pub msg_id: String,
    pub rtt: Option<std::time::Duration>,
}

#[derive(Debug, Clone, Copy, PartialEq, Eq, Structural)]
pub enum LinkResourceDirection {
    Inbound,
    Outbound,
}

#[derive(Debug, Clone, PartialEq, Eq)]
pub enum LinkResourceConclusion {
    Complete,
    Cancelled,
    Rejected,
    Failed(String),
}

#[derive(Debug, Clone, PartialEq, Eq)]
pub enum LinkResourceEvent {
    Started {
        link_id: [u8; 16],
        resource_id: [u8; 32],
        direction: LinkResourceDirection,
        data_size: usize,
        total_segments: usize,
    },
    Progress {
        link_id: [u8; 16],
        resource_id: [u8; 32],
        direction: LinkResourceDirection,
        transferred: usize,
        total: usize,
    },
    Concluded {
        link_id: [u8; 16],
        resource_id: [u8; 32],
        direction: LinkResourceDirection,
        conclusion: LinkResourceConclusion,
    },
}

#[derive(Debug, Clone, Copy)]
pub enum LinkPayloadSendReceipt {
    Packet(LinkPacketSendReceipt),
    Resource(LinkResourceSendReceipt),
}

/// Resource hash + sender metadata (e.g. rncp filename).
#[derive(Debug, Clone)]
pub struct ResourceCompletion {
    pub link_id: [u8; 16],
    pub resource_hash: [u8; 32],
    pub data: Vec<u8>,
    /// msgpack-encoded metadata, if the sender attached any.
    pub metadata: Option<Vec<u8>>,
}

/// Ordered, capacity-lossless Link accounting notifications.
///
/// This opt-in stream contains validated ordinary Link-packet proofs, Resource
/// starts and conclusions, ordinary inbound completion payloads, and Link
/// closure in manager-observation order. Progress remains available only
/// through the bounded best-effort Resource event channel. Delivery is
/// guaranteed while the unbounded receiver remains alive. Request Resources
/// retain their start and conclusion events but dispatch inline and never
/// produce a [`LinkManagerAccountingEvent::ResourceCompletion`].
#[derive(Clone)]
#[non_exhaustive]
pub enum LinkManagerAccountingEvent {
    /// A validated proof for an ordinary application Link packet.
    LinkPacketProof(LinkPacketProof),
    /// Resource start or terminal conclusion; progress is omitted.
    ResourceEvent(LinkResourceEvent),
    /// Complete ordinary inbound Resource data and metadata.
    ResourceCompletion(ResourceCompletion),
    /// The owning Link reached a terminal state.
    LinkClosed { link_id: [u8; 16] },
}

/// Bounded channels for terminal protocol facts keep what does not fit and
/// retry it, so that a validated proof or a Link close is never lost.
#[derive(Debug, Clone, Copy)]
pub enum LegacyTerminalNotification {
    PacketProof(LinkPacketProof),
    ResourceProof(LinkResourceProof),
    LinkClosed([u8; 16]),
}

// ---- mathematical models ----

/// How a Resource ended.
pub enum ConclusionModel {
    Complete,
    Cancelled,
    Rejected,
    Failed(Seq<char>),
}

/// What happened to a Resource.
pub enum EventModel {
    Started {
        link_id: [u8; 16],
        resource_id: [u8; 32],
        direction: LinkResourceDirection,
        data_size: usize,
        total_segments: usize,
    },
    Progress {
        link_id: [u8; 16],
        resource_id: [u8; 32],
        direction: LinkResourceDirection,
        transferred: usize,
        total: usize,
    },
    Concluded {
        link_id: [u8; 16],
        resource_id: [u8; 32],
        direction: LinkResourceDirection,
        conclusion: ConclusionModel,
    },
}

/// A completed inbound Resource.
#[verifier::ext_equal]
pub struct CompletionModel {
    pub link_id: [u8; 16],
    pub resource_hash: [u8; 32],
    pub data: Seq<u8>,
    pub metadata: Option<Seq<u8>>,
}

/// One entry of the accounting stream.
pub enum AccountingModel {
    LinkPacketProof(LinkPacketProof),
    ResourceEvent(EventModel),
    ResourceCompletion(CompletionModel),
    LinkClosed { link_id: [u8; 16] },
}

impl View for LinkResourceConclusion {
    type V = ConclusionModel;

    open spec fn view(&self) -> ConclusionModel {
        match *self {
            LinkResourceConclusion::Complete => ConclusionModel::Complete,
            LinkResourceConclusion::Cancelled => ConclusionModel::Cancelled,
            LinkResourceConclusion::Rejected => ConclusionModel::Rejected,
            LinkResourceConclusion::Failed(reason) => ConclusionModel::Failed(reason@),
        }
    }
}

impl View for LinkResourceEvent {
    type V = EventModel;

    open spec fn view(&self) -> EventModel {
        match *self {
            LinkResourceEvent::Started {
                link_id,
                resource_id,
                direction,
                data_size,
                total_segments,
            } => EventModel::Started { link_id, resource_id, direction, data_size, total_segments },
            LinkResourceEvent::Progress { link_id, resource_id, direction, transferred, total } => {
                EventModel::Progress { link_id, resource_id, direction, transferred, total }
            },
            LinkResourceEvent::Concluded { link_id, resource_id, direction, conclusion } => {
                EventModel::Concluded { link_id, resource_id, direction, conclusion: conclusion@ }
            },
        }
    }
}

/// The model of optional bytes.
pub open spec fn bytes_model(b: Option<Vec<u8>>) -> Option<Seq<u8>> {
    match b {
        Some(v) => Some(v@),
        None => None,
    }
}

impl View for ResourceCompletion {
    type V = CompletionModel;

    open spec fn view(&self) -> CompletionModel {
        CompletionModel {
            link_id: self.link_id,
            resource_hash: self.resource_hash,
            data: self.data@,
            metadata: bytes_model(self.metadata),
        }
    }
}

impl View for LinkManagerAccountingEvent {
    type V = AccountingModel;

    open spec fn view(&self) -> AccountingModel {
        match *self {
            LinkManagerAccountingEvent::LinkPacketProof(proof) => {
                AccountingModel::LinkPacketProof(proof)
            },
            LinkManagerAccountingEvent::ResourceEvent(event) => {
                AccountingModel::ResourceEvent(event@)
            },
            LinkManagerAccountingEvent::ResourceCompletion(completion) => {
                AccountingModel::ResourceCompletion(completion@)
            },
            LinkManagerAccountingEvent::LinkClosed { link_id } => {
                AccountingModel::LinkClosed { link_id }
            },
        }
    }
}

impl View for LinkResponse {
    type V = LinkResponse;

    open spec fn view(&self) -> LinkResponse {
        *self
    }
}

impl View for LinkChannelMessage {
    type V = LinkChannelMessage;

    open spec fn view(&self) -> LinkChannelMessage {
        *self
    }
}

impl View for LinkPacketProof {
    type V = LinkPacketProof;

    open spec fn view(&self) -> LinkPacketProof {
        *self
    }
}

impl View for LinkResourceProof {
    type V = LinkResourceProof;

    open spec fn view(&self) -> LinkResourceProof {
        *self
    }
}

impl View for DestinationDeliveryProof {
    type V = DestinationDeliveryProof;

    open spec fn view(&self) -> DestinationDeliveryProof {
        *self
    }
}

// ---- copies ----

/// An owned copy of optional bytes.
pub fn copy_optional(b: &Option<Vec<u8>>) -> (r: Option<Vec<u8>>)
    ensures
        bytes_model(r) == bytes_model(*b),
{
    match b {
        Some(v) => Some(copy_bytes(v.as_slice())),
        None => None,
    }
}

impl LinkResourceConclusion {
    pub fn copy(&self) -> (r: Self)
        ensures
            r@ == self@,
    {
        match self {
            LinkResourceConclusion::Complete => LinkResourceConclusion::Complete,
            LinkResourceConclusion::Cancelled => LinkResourceConclusion::Cancelled,
            LinkResourceConclusion::Rejected => LinkResourceConclusion::Rejected,
            LinkResourceConclusion::Failed(reason) => {
                LinkResourceConclusion::Failed(reason.clone())
            },
        }
    }
}

impl LinkResourceEvent {
    pub fn copy(&self) -> (r: Self)
        ensures
            r@ == self@,
    {
        match self {
            LinkResourceEvent::Started {
                link_id,
                resource_id,
                direction,
                data_size,
                total_segments,
            } => LinkResourceEvent::Started {
                link_id: *link_id,
                resource_id: *resource_id,
                direction: *direction,
                data_size: *data_size,
                total_segments: *total_segments,
            },
            LinkResourceEvent::Progress { link_id, resource_id, direction, transferred, total } => {
                LinkResourceEvent::Progress {
                    link_id: *link_id,
                    resource_id: *resource_id,
                    direction: *direction,
                    transferred: *transferred,
                    total: *total,
                }
            },
            LinkResourceEvent::Concluded { link_id, resource_id, direction, conclusion } => {
                LinkResourceEvent::Concluded {
                    link_id: *link_id,
                    resource_id: *resource_id,
                    direction: *direction,
                    conclusion: conclusion.copy(),
                }
            },
        }
    }
}

impl ResourceCompletion {
    pub fn copy(&self) -> (r: Self)
        ensures
            r@ == self@,
    {
        ResourceCompletion {
            link_id: self.link_id,
            resource_hash: self.resource_hash,
            data: copy_bytes(self.data.as_slice()),
            metadata: copy_optional(&self.metadata),
        }
    }
}

} // verus!
