//! What this end sends on a Link: packets, channel messages and Resources.

use vstd::prelude::*;

use crate::assoc::{cut, find, present, put, same_bytes, ResourceKey};
use crate::events::{
    ChannelSendReceipt, ConclusionModel, EventModel, LegacyTerminalNotification,
    LinkPacketSendReceipt, LinkPayloadSendReceipt, LinkResourceConclusion, LinkResourceDirection,
    LinkResourceEvent, LinkResourceProof, LinkResourceSendReceipt,
};
use crate::link::{Action, ActionModel, CancelType, CloseReason, Link, LinkState, TransferAction};
use crate::manager::{Effect, LinkManager, LinkManagerModel, ProtocolConstants};
use crate::receiving::{hash_at, hash_from};
use crate::resources::{
    cut_first, key_of, logical_id, OutboundTransfer, Resources, ResourcesModel,
};
use crate::text::worded;
use crate::wire::{
    copy_bytes, link_packet, make_link_packet, LinkEndpointRole, LinkEndpointSendResult, Packet,
    PacketContext, PacketType,
};

verus! {

#[derive(Debug)]
pub enum ChannelError {
    InvalidMessageType(u16),
    MaxRetriesExceeded,
    /// Any other refusal, in words.
    Other(String),
}

#[derive(Debug)]
pub enum ChannelSendError {
    LinkNotFound,
    LinkNotActive,
    NoSessionKeys,
    Channel(ChannelError),
    TransportUnavailable,
}

#[derive(Debug, Clone, Copy, PartialEq, Eq, Structural)]
pub enum LinkSendError {
    LinkNotFound,
    LinkNotActive,
    NoSessionKeys,
    IdentityUnavailable,
    IdentificationUnavailable,
    TransportUnavailable,
    ResourceStartFailed,
}

impl ChannelSendError {
    /// The error in words, where `reason` is in words what the channel refused.
    pub fn message(&self, reason: &str) -> (r: String)
        ensures
            r@ == (match self {
                ChannelSendError::LinkNotFound => "link not found"@,
                ChannelSendError::LinkNotActive => "link is not active"@,
                ChannelSendError::NoSessionKeys => "link session keys are unavailable"@,
                ChannelSendError::Channel(_) => "channel error: "@ + reason@,
                ChannelSendError::TransportUnavailable => "transport channel is full or closed"@,
            }),
    {
        match self {
            ChannelSendError::LinkNotFound => "link not found".to_owned(),
            ChannelSendError::LinkNotActive => "link is not active".to_owned(),
            ChannelSendError::NoSessionKeys => "link session keys are unavailable".to_owned(),
            ChannelSendError::Channel(_) => worded("channel error: ", reason),
            ChannelSendError::TransportUnavailable => {
                "transport channel is full or closed".to_owned()
            },
        }
    }
}

impl LinkSendError {
    /// The error in words.
    pub fn message(&self) -> (r: String)
        ensures
            r@ == (match self {
                LinkSendError::LinkNotFound => "link not found"@,
                LinkSendError::LinkNotActive => "link is not active"@,
                LinkSendError::NoSessionKeys => "link session keys are unavailable"@,
                LinkSendError::IdentityUnavailable => "the manager has no signing identity"@,
                LinkSendError::IdentificationUnavailable => {
                    "link identification is unavailable for this link role or state"@
                },
                LinkSendError::TransportUnavailable => "transport channel is full or closed"@,
                LinkSendError::ResourceStartFailed => "resource transfer could not be started"@,
            }),
    {
        match self {
            LinkSendError::LinkNotFound => "link not found".to_owned(),
            LinkSendError::LinkNotActive => "link is not active".to_owned(),
            LinkSendError::NoSessionKeys => "link session keys are unavailable".to_owned(),
            LinkSendError::IdentityUnavailable => "the manager has no signing identity".to_owned(),
            LinkSendError::IdentificationUnavailable => {
                "link identification is unavailable for this link role or state".to_owned()
            },
            LinkSendError::TransportUnavailable => {
                "transport channel is full or closed".to_owned()
            },
            LinkSendError::ResourceStartFailed => {
                "resource transfer could not be started".to_owned()
            },
        }
    }
}

/// A packet body that was encrypted for its Link, and the hash of the packet.
#[derive(Debug)]
pub struct SealedPacket {
    pub body: Vec<u8>,
    pub packet_hash: [u8; 32],
}

/// A channel envelope that is ready to go out.
#[derive(Debug)]
pub struct PreparedMessage {
    pub body: Vec<u8>,
    pub sequence: u16,
    pub packet_hash: [u8; 32],
}

/// What is to be sent as a Resource, and on what terms.
#[derive(Debug)]
pub struct ResourceTransferStart {
    pub data: Vec<u8>,
    pub metadata: Option<Vec<u8>>,
    pub auto_compress: bool,
    pub request_id: Option<Vec<u8>>,
    pub is_response: bool,
    pub allow_handshake: bool,
}

/// How a Resource is cut.
#[derive(Debug, Clone, Copy, PartialEq, Eq, Structural)]
pub enum SegmentPlan {
    Single,
    Split,
}

/// What came of cutting and encrypting a Resource: its segments in order, none if it
/// could not be built, and what the first of them asks for.
#[derive(Debug)]
pub struct BuiltResource {
    pub segments: Vec<OutboundTransfer>,
    pub first_action: Action,
}

/// How many bytes of metadata there are, if there is any.
pub open spec fn optional_len(metadata: Option<Vec<u8>>) -> Option<nat> {
    match metadata {
        Some(m) => Some(m@.len()),
        None => None,
    }
}

/// The models of a sequence of actions.
pub open spec fn action_models(s: Seq<Action>) -> Seq<ActionModel> {
    s.map_values(|a: Action| a@)
}

/// The segment that a request for parts speaks of. A request that has run out of the
/// hash map names the last part that it knows before it.
pub open spec fn requested_segment(constants: ProtocolConstants, plaintext: Seq<u8>) -> Option<
    [u8; 32],
> {
    if plaintext.len() <= 32 {
        None
    } else {
        let start = if plaintext[0] == constants.hashmap_is_exhausted {
            1 + constants.map_hash_len
        } else {
            1
        };
        if plaintext.len() >= start + 32 {
            Some(hash_at(plaintext, start))
        } else {
            None
        }
    }
}

/// The first segment that one Link sends whose own hash, or whose Resource's id, is `id`.
pub open spec fn outbound_segment(
    outbound: Seq<(ResourceKey, OutboundTransfer)>,
    link_id: [u8; 16],
    id: [u8; 32],
) -> Option<[u8; 32]>
    decreases outbound.len(),
{
    if outbound.len() == 0 {
        None
    } else {
        let e = outbound.last();
        match outbound_segment(outbound.drop_last(), link_id, id) {
            Some(segment) => Some(segment),
            None => if e.0.link_id == link_id && (e.1.logical_id() == id || e.0.hash == id) {
                Some(e.0.hash)
            } else {
                None
            },
        }
    }
}

/// The first segment that one Link receives whose own hash, or whose Resource's id, is `id`.
pub open spec fn inbound_segment(resources: ResourcesModel, n: nat, link_id: [u8; 16], id: [u8; 32]) -> Option<
    [u8; 32],
>
    decreases n,
{
    if n == 0 || n > resources.inbound.len() {
        None
    } else {
        let key = resources.inbound[n - 1].0;
        match inbound_segment(resources, (n - 1) as nat, link_id, id) {
            Some(segment) => Some(segment),
            None => if key.link_id == link_id && (logical_id(resources.routes, key) == id
                || key.hash == id) {
                Some(key.hash)
            } else {
                None
            },
        }
    }
}

impl LinkManagerModel {
    /// Why a Link cannot carry application traffic.
    pub open spec fn unusable(self, link_id: [u8; 16]) -> Option<LinkSendError> {
        match find(self.links, link_id) {
            None => Some(LinkSendError::LinkNotFound),
            Some(link) => if link.usable() {
                None
            } else {
                Some(LinkSendError::LinkNotActive)
            },
        }
    }

    /// A data packet sent through the Link's endpoint at once, and counted as sent.
    pub open spec fn packet_sent(
        self,
        link_id: [u8; 16],
        context: PacketContext,
        body: Seq<u8>,
        seal: bool,
    ) -> Self {
        match find(self.links, link_id) {
            Some(link) => LinkManagerModel {
                transport: self.transport.packet_tried(
                    link_id,
                    link.role_model(),
                    link_packet(link_id, PacketType::Data, context, body, seal),
                ),
                ..self
            }.charged(link_id, body.len(), seal, context is Keepalive),
            None => self,
        }
    }

    /// What sending an application packet gives.
    pub open spec fn packet_result(
        self,
        link_id: [u8; 16],
        sealed: Option<SealedPacket>,
    ) -> Result<LinkPacketSendReceipt, LinkSendError> {
        match self.unusable(link_id) {
            Some(error) => Err(error),
            None => match sealed {
                None => Err(LinkSendError::NoSessionKeys),
                Some(packet) => if self.transport.port.accepts() {
                    Ok(LinkPacketSendReceipt { link_id, packet_hash: packet.packet_hash })
                } else {
                    Err(LinkSendError::TransportUnavailable)
                },
            },
        }
    }

    /// What identifying to the peer gives. Only an initiator reveals itself: a responder
    /// Link rejects identification.
    pub open spec fn identify_result(
        self,
        link_id: [u8; 16],
        sealed: Option<SealedPacket>,
    ) -> Result<LinkPacketSendReceipt, LinkSendError> {
        if !self.settings.has_identity {
            Err(LinkSendError::IdentityUnavailable)
        } else {
            match self.unusable(link_id) {
                Some(error) => Err(error),
                None => if !(find(self.links, link_id)->0).is_initiator {
                    Err(LinkSendError::IdentificationUnavailable)
                } else {
                    match sealed {
                        None => Err(LinkSendError::IdentificationUnavailable),
                        Some(packet) => if self.transport.port.accepts() {
                            Ok(LinkPacketSendReceipt { link_id, packet_hash: packet.packet_hash })
                        } else {
                            Err(LinkSendError::TransportUnavailable)
                        },
                    }
                },
            }
        }
    }

    /// Whether a channel is open on the Link, or can be opened.
    pub open spec fn channel_available(self, link_id: [u8; 16], registered: bool) -> bool {
        match find(self.links, link_id) {
            Some(link) => link.has_channel || (link.has_session_keys && registered),
            None => false,
        }
    }

    /// A channel opened on the Link, if it can be and is not open already.
    pub open spec fn channel_opened(self, link_id: [u8; 16], registered: bool) -> Self {
        match find(self.links, link_id) {
            Some(link) => if link.has_channel || !(link.has_session_keys && registered) {
                self
            } else {
                LinkManagerModel {
                    links: put(self.links, link_id, Link { has_channel: true, ..link }),
                    ..self
                }
            },
            None => self,
        }
    }

    /// Why a channel message does not go out, if it does not get as far as the channel.
    pub open spec fn channel_unavailable(self, link_id: [u8; 16], registered: bool) -> Option<
        ChannelSendError,
    > {
        match find(self.links, link_id) {
            None => Some(ChannelSendError::LinkNotFound),
            Some(link) => if !link.usable() {
                Some(ChannelSendError::LinkNotActive)
            } else if !self.transport.port.accepts() {
                Some(ChannelSendError::TransportUnavailable)
            } else if !self.channel_available(link_id, registered) {
                Some(ChannelSendError::NoSessionKeys)
            } else {
                None
            },
        }
    }

    /// The state after a channel message was handed in.
    pub open spec fn channel_message_sent(
        self,
        link_id: [u8; 16],
        registered: bool,
        prepared: Result<PreparedMessage, ChannelError>,
    ) -> Self {
        match self.channel_unavailable(link_id, registered) {
            Some(_) => self,
            None => {
                let s = self.channel_opened(link_id, registered);
                match prepared {
                    Ok(message) => s.packet_sent(
                        link_id,
                        PacketContext::Channel,
                        message.body@,
                        false,
                    ),
                    Err(_) => s,
                }
            },
        }
    }

    /// What sending a channel message gives.
    pub open spec fn channel_result(
        self,
        link_id: [u8; 16],
        registered: bool,
        prepared: Result<PreparedMessage, ChannelError>,
    ) -> Result<ChannelSendReceipt, ChannelSendError> {
        match self.channel_unavailable(link_id, registered) {
            Some(error) => Err(error),
            None => match prepared {
                Ok(message) => Ok(
                    ChannelSendReceipt {
                        link_id,
                        sequence: message.sequence,
                        packet_hash: message.packet_hash,
                    },
                ),
                Err(error) => Err(ChannelSendError::Channel(error)),
            },
        }
    }

    /// The state after an application packet was handed in.
    pub open spec fn link_packet_sent(
        self,
        link_id: [u8; 16],
        context: PacketContext,
        sealed: Option<SealedPacket>,
        sent: bool,
    ) -> Self {
        if sent {
            self.packet_sent(link_id, context, (sealed->0).body@, false)
        } else {
            self
        }
    }

    /// Whether application data of this length goes out as one packet.
    pub open spec fn fits_packet(self, link_id: [u8; 16], payload_len: usize) -> bool {
        payload_len <= (find(self.links, link_id)->0).mdu
    }

    /// What sending application data gives: as one packet if it fits, else as a Resource.
    pub open spec fn payload_result(
        self,
        link_id: [u8; 16],
        payload_len: usize,
        sealed: Option<SealedPacket>,
        built: BuiltResource,
    ) -> Result<LinkPayloadSendReceipt, LinkSendError> {
        match self.unusable(link_id) {
            Some(error) => Err(error),
            None => if self.fits_packet(link_id, payload_len) {
                match self.packet_result(link_id, sealed) {
                    Ok(receipt) => Ok(LinkPayloadSendReceipt::Packet(receipt)),
                    Err(error) => Err(error),
                }
            } else {
                match self.resource_result(link_id, payload_len as nat, built) {
                    Ok(receipt) => Ok(LinkPayloadSendReceipt::Resource(receipt)),
                    Err(error) => Err(error),
                }
            },
        }
    }

    /// The state after application data was handed in.
    pub open spec fn payload_sent(
        self,
        link_id: [u8; 16],
        payload_len: usize,
        sealed: Option<SealedPacket>,
        built: BuiltResource,
    ) -> Self {
        if self.unusable(link_id) is Some {
            self
        } else if self.fits_packet(link_id, payload_len) {
            self.link_packet_sent(
                link_id,
                PacketContext::Data,
                sealed,
                self.packet_result(link_id, sealed) is Ok,
            )
        } else {
            self.resource_sent(link_id, payload_len as nat, built)
        }
    }

    /// Actions carried out in order, up to the first whose packet is not retained.
    pub open spec fn actions_sent(self, link_id: [u8; 16], actions: Seq<ActionModel>) -> Self
        decreases actions.len(),
    {
        if actions.len() == 0 {
            self
        } else {
            let s = self.action_sent(link_id, actions[0]);
            if self.action_retained(link_id, actions[0]) {
                s.actions_sent(link_id, actions.skip(1))
            } else {
                s
            }
        }
    }

    /// Progress of an outbound Resource, if its segment is still on its way.
    pub open spec fn outbound_progressed(
        self,
        link_id: [u8; 16],
        segment: [u8; 32],
        transferred: usize,
    ) -> Self {
        match find(self.resources.outbound, key_of(link_id, segment)) {
            Some(transfer) => LinkManagerModel {
                notices: self.notices.emitted(
                    EventModel::Progress {
                        link_id,
                        resource_id: transfer.logical_id(),
                        direction: LinkResourceDirection::Outbound,
                        transferred,
                        total: transfer.advertisement_data_size,
                    },
                ),
                ..self
            },
            None => self,
        }
    }

    /// The receiver asked for parts, and the transfer answers with `actions`.
    pub open spec fn parts_requested(
        self,
        link_id: [u8; 16],
        plaintext: Seq<u8>,
        actions: Seq<ActionModel>,
        progress: Option<usize>,
    ) -> Self {
        match requested_segment(self.settings.constants, plaintext) {
            None => self,
            Some(segment) => if !present(self.resources.outbound, key_of(link_id, segment)) {
                self
            } else {
                let s = self.actions_sent(link_id, actions);
                match progress {
                    Some(transferred) => s.outbound_progressed(link_id, segment, transferred),
                    None => s,
                }
            },
        }
    }

    /// An outbound segment, and those behind it, given up, and the end reported.
    pub open spec fn outbound_ended(
        self,
        link_id: [u8; 16],
        segment: [u8; 32],
        conclusion: ConclusionModel,
    ) -> Self {
        match find(self.resources.outbound, key_of(link_id, segment)) {
            Some(transfer) => LinkManagerModel {
                resources: self.resources.outbound_removed(link_id, segment),
                ..self
            }.outbound_concluded(link_id, transfer.logical_id(), conclusion),
            None => self,
        }
    }

    /// The receiver refused a Resource.
    pub open spec fn outbound_refused(self, link_id: [u8; 16], plaintext: Seq<u8>) -> Self {
        if plaintext.len() < 32 {
            self
        } else {
            self.outbound_ended(link_id, hash_at(plaintext, 0), ConclusionModel::Rejected)
        }
    }

    /// A segment advertised. It is on its way if its advertisement was retained.
    pub open spec fn segment_started(
        self,
        link_id: [u8; 16],
        transfer: OutboundTransfer,
        action: ActionModel,
    ) -> Self {
        if action is SendAdvertisement {
            let s = self.action_sent(link_id, action);
            if self.action_retained(link_id, action) {
                LinkManagerModel {
                    resources: ResourcesModel {
                        outbound: put(
                            s.resources.outbound,
                            key_of(link_id, transfer.resource_hash),
                            transfer,
                        ),
                        ..s.resources
                    },
                    ..s
                }
            } else {
                s
            }
        } else {
            self
        }
    }

    pub open spec fn segment_starts(self, link_id: [u8; 16], action: ActionModel) -> bool {
        action is SendAdvertisement && self.action_retained(link_id, action)
    }

    /// An outbound Resource was proved to be complete.
    pub open spec fn outbound_proved(self, link_id: [u8; 16], resource_hash: [u8; 32]) -> Self {
        LinkManagerModel {
            notices: self.notices.legacy_staged(
                LegacyTerminalNotification::ResourceProof(
                    LinkResourceProof { link_id, resource_hash },
                ),
            ),
            ..self
        }.outbound_concluded(link_id, resource_hash, ConclusionModel::Complete)
    }

    /// The segment that follows `segment`, if one waits.
    pub open spec fn following_segment(self, link_id: [u8; 16], segment: [u8; 32]) -> Option<
        OutboundTransfer,
    > {
        match find(self.resources.outbound, key_of(link_id, segment)) {
            Some(transfer) => match transfer.original_hash {
                Some(id) => find(self.resources.queued, key_of(link_id, id)),
                None => None,
            },
            None => None,
        }
    }

    /// A segment was proved. The next segment of its Resource starts; the last one
    /// completes the Resource.
    pub open spec fn segment_proved(
        self,
        link_id: [u8; 16],
        segment: [u8; 32],
        next_action: ActionModel,
    ) -> Self {
        match find(self.resources.outbound, key_of(link_id, segment)) {
            None => self,
            Some(transfer) => {
                let id = match transfer.original_hash {
                    Some(hash) => hash,
                    None => segment,
                };
                let s = LinkManagerModel {
                    resources: ResourcesModel {
                        outbound: cut(self.resources.outbound, key_of(link_id, segment)),
                        ..self.resources
                    },
                    ..self
                };
                match self.following_segment(link_id, segment) {
                    None => s.outbound_proved(link_id, id),
                    Some(next) => {
                        let q = LinkManagerModel {
                            resources: ResourcesModel {
                                queued: cut_first(s.resources.queued, key_of(link_id, id)),
                                ..s.resources
                            },
                            ..s
                        };
                        let started = q.segment_started(link_id, next, next_action);
                        if q.segment_starts(link_id, next_action) {
                            started
                        } else {
                            LinkManagerModel {
                                resources: ResourcesModel {
                                    queued: cut(started.resources.queued, key_of(link_id, id)),
                                    ..started.resources
                                },
                                ..started
                            }.outbound_concluded(
                                link_id,
                                id,
                                ConclusionModel::Failed(
                                    "could not retain next Resource segment advertisement"@,
                                ),
                            )
                        }
                    },
                }
            },
        }
    }

    /// A proof arrived. `complete` says whether the segment's transfer accepts it.
    pub open spec fn proof_received(
        self,
        link_id: [u8; 16],
        data: Seq<u8>,
        complete: bool,
        next_action: ActionModel,
    ) -> Self {
        if data.len() < 64 || !complete {
            self
        } else {
            self.segment_proved(link_id, hash_at(data, 0), next_action)
        }
    }

    /// Whether a Resource may be sent on the Link now.
    pub open spec fn carries_resources(self, link_id: [u8; 16], allow_handshake: bool) -> bool {
        match find(self.links, link_id) {
            Some(link) => (link.usable() || (allow_handshake && link.state is Handshake))
                && link.has_session_keys,
            None => false,
        }
    }

    /// How a Resource is cut: into one segment as long as it fits, metadata and its
    /// three bytes of framing counted.
    pub open spec fn segment_plan(self, data_len: nat, metadata_len: Option<nat>) -> SegmentPlan {
        let wire = match metadata_len {
            Some(n) => 3 + n,
            None => 0,
        };
        if wire + data_len <= self.settings.constants.max_efficient_size {
            SegmentPlan::Single
        } else {
            SegmentPlan::Split
        }
    }

    /// Whether a Resource was built, and into one segment where it fits into one.
    pub open spec fn cut_as_planned(
        self,
        data_len: nat,
        metadata_len: Option<nat>,
        segments: Seq<OutboundTransfer>,
    ) -> bool {
        segments.len() > 0 && (self.segment_plan(data_len, metadata_len) is Single
            ==> segments.len() == 1)
    }

    /// Whether sending the Resource starts.
    pub open spec fn resource_starts(
        self,
        link_id: [u8; 16],
        allow_handshake: bool,
        data_len: nat,
        metadata_len: Option<nat>,
        built: BuiltResource,
    ) -> bool {
        self.carries_resources(link_id, allow_handshake) && self.cut_as_planned(
            data_len,
            metadata_len,
            built.segments@,
        ) && self.segment_starts(link_id, built.first_action@)
    }

    /// Sending a Resource: the first segment starts, the others wait behind it in order.
    /// The start is reported with the size of the data.
    pub open spec fn resource_started(
        self,
        link_id: [u8; 16],
        allow_handshake: bool,
        data_len: nat,
        metadata_len: Option<nat>,
        built: BuiltResource,
    ) -> Self {
        let segments = built.segments@;
        let first_action = built.first_action@;
        if !self.carries_resources(link_id, allow_handshake) || !self.cut_as_planned(
            data_len,
            metadata_len,
            segments,
        ) {
            self
        } else {
            let s = self.segment_started(link_id, segments[0], first_action);
            let id = segments[0].logical_id();
            if !self.segment_starts(link_id, first_action) {
                s
            } else {
                LinkManagerModel {
                    resources: ResourcesModel {
                        queued: if segments.len() > 1 {
                            cut(s.resources.queued, key_of(link_id, id)) + segments.skip(
                                1,
                            ).map_values(|t: OutboundTransfer| (key_of(link_id, id), t))
                        } else {
                            s.resources.queued
                        },
                        ..s.resources
                    },
                    notices: s.notices.emitted(
                        EventModel::Started {
                            link_id,
                            resource_id: id,
                            direction: LinkResourceDirection::Outbound,
                            data_size: data_len as usize,
                            total_segments: segments.len() as usize,
                        },
                    ),
                    ..s
                }
            }
        }
    }

    /// What sending application data as a Resource gives.
    pub open spec fn resource_result(
        self,
        link_id: [u8; 16],
        payload_len: nat,
        built: BuiltResource,
    ) -> Result<LinkResourceSendReceipt, LinkSendError> {
        match self.unusable(link_id) {
            Some(error) => Err(error),
            None => if !(find(self.links, link_id)->0).has_session_keys {
                Err(LinkSendError::NoSessionKeys)
            } else if self.resource_starts(link_id, false, payload_len, None, built) {
                Ok(LinkResourceSendReceipt { link_id, resource_hash: built.segments@[0].logical_id() })
            } else {
                Err(LinkSendError::ResourceStartFailed)
            },
        }
    }

    /// The state after application data was sent as a Resource.
    pub open spec fn resource_sent(
        self,
        link_id: [u8; 16],
        payload_len: nat,
        built: BuiltResource,
    ) -> Self {
        if self.unusable(link_id) is Some {
            self
        } else {
            self.resource_started(link_id, false, payload_len, None, built)
        }
    }

    /// The segment, and the Resource, that a cancellation by this end speaks of.
    pub open spec fn cancellation(
        self,
        link_id: [u8; 16],
        id: [u8; 32],
        direction: LinkResourceDirection,
    ) -> Option<(Option<[u8; 32]>, [u8; 32])> {
        if !present(self.links, link_id) {
            None
        } else if direction is Outbound {
            match outbound_segment(self.resources.outbound, link_id, id) {
                Some(segment) => match find(self.resources.outbound, key_of(link_id, segment)) {
                    Some(transfer) => Some((Some(segment), transfer.logical_id())),
                    None => Some((Some(segment), segment)),
                },
                None => None,
            }
        } else {
            match inbound_segment(
                self.resources,
                self.resources.inbound.len(),
                link_id,
                id,
            ) {
                Some(segment) => Some(
                    (Some(segment), logical_id(self.resources.routes, key_of(link_id, segment))),
                ),
                None => if present(self.resources.lifecycles, key_of(link_id, id)) {
                    Some((None, id))
                } else {
                    None
                },
            }
        }
    }

    /// A Resource cancelled by this end. The peer is told if a segment is on its way.
    pub open spec fn resource_cancelled(
        self,
        link_id: [u8; 16],
        id: [u8; 32],
        direction: LinkResourceDirection,
    ) -> Self {
        match self.cancellation(link_id, id, direction) {
            None => self,
            Some((segment, logical)) => {
                let cancel_type = if direction is Outbound {
                    CancelType::Icl
                } else {
                    CancelType::Rcl
                };
                let s = match segment {
                    Some(hash) => self.action_sent(
                        link_id,
                        TransferAction::SendCancel(cancel_type, hash),
                    ),
                    None => self,
                };
                if direction is Outbound {
                    LinkManagerModel {
                        resources: ResourcesModel {
                            outbound: cut(s.resources.outbound, key_of(link_id, segment->0)),
                            queued: cut(s.resources.queued, key_of(link_id, logical)),
                            ..s.resources
                        },
                        ..s
                    }.outbound_concluded(link_id, logical, ConclusionModel::Cancelled)
                } else {
                    s.inbound_concluded(link_id, logical, ConclusionModel::Cancelled)
                }
            },
        }
    }

    /// The state once the transport has dealt with `len` bytes of sealed realtime data.
    pub open spec fn best_effort_sent(
        self,
        link_id: [u8; 16],
        len: usize,
        result: Option<LinkEndpointSendResult>,
    ) -> Self {
        match result {
            Some(LinkEndpointSendResult::Sent) => if present(self.links, link_id) {
                self.charged(link_id, len as nat, false, false)
            } else {
                self
            },
            Some(LinkEndpointSendResult::NotBound)
            | Some(LinkEndpointSendResult::RoleMismatch)
            | Some(LinkEndpointSendResult::Terminated(_)) => self.link_dropped(
                link_id,
                CloseReason::DestinationClosed,
            ),
            _ => self,
        }
    }
}

impl ResourceTransferStart {
    /// An ordinary Resource.
    pub fn ordinary(data: Vec<u8>, metadata: Option<Vec<u8>>, auto_compress: bool) -> (r: Self)
        ensures
            r == (ResourceTransferStart {
                data,
                metadata,
                auto_compress,
                request_id: None,
                is_response: false,
                allow_handshake: false,
            }),
    {
        ResourceTransferStart {
            data,
            metadata,
            auto_compress,
            request_id: None,
            is_response: false,
            allow_handshake: false,
        }
    }
}

impl Resources {
    /// Takes the first of the segments that wait under `key`.
    fn take_queued(&mut self, key: &ResourceKey) -> (r: Option<OutboundTransfer>)
        ensures
            r == find(old(self)@.queued, *key),
            final(self)@ == (ResourcesModel {
                queued: cut_first(old(self)@.queued, *key),
                ..old(self)@
            }),
    {
        proof {
            reveal(cut_first);
            reveal(find);
        }
        let i: usize = self.queued.locate(key);
        if i < self.queued.entries.len() {
            let e = self.queued.entries.remove(i);
            Some(e.1)
        } else {
            None
        }
    }

    fn find_outbound_segment(&self, link_id: &[u8; 16], id: &[u8; 32]) -> (r: Option<[u8; 32]>)
        ensures
            r == outbound_segment(self@.outbound, *link_id, *id),
    {
        let ghost all = self.outbound@;
        let mut found: Option<[u8; 32]> = None;
        let mut i: usize = 0;
        while i < self.outbound.entries.len()
            invariant
                i <= all.len(),
                all == self.outbound@,
                found == outbound_segment(all.take(i as int), *link_id, *id),
            decreases all.len() - i,
        {
            proof {
                assert(all.take(i + 1).drop_last() =~= all.take(i as int));
                assert(all.take(i + 1).last() == all[i as int]);
            }
            let key = self.outbound.entries[i].0;
            let logical = self.outbound.entries[i].1.outbound_resource_identity().id;
            if found.is_none() && same_bytes(&key.link_id, link_id) && (same_bytes(&logical, id)
                || same_bytes(&key.hash, id)) {
                found = Some(key.hash);
            }
            i = i + 1;
        }
        assert(all.take(i as int) =~= all);
        found
    }

    fn find_inbound_segment(&self, link_id: &[u8; 16], id: &[u8; 32]) -> (r: Option<[u8; 32]>)
        ensures
            r == inbound_segment(self@, self@.inbound.len(), *link_id, *id),
    {
        let mut found: Option<[u8; 32]> = None;
        let mut i: usize = 0;
        while i < self.inbound.entries.len()
            invariant
                i <= self@.inbound.len(),
                found == inbound_segment(self@, i as nat, *link_id, *id),
            decreases self@.inbound.len() - i,
        {
            let key = self.inbound.entries[i].0;
            let logical = self.inbound_resource_identity(&key.link_id, &key.hash).id;
            if found.is_none() && same_bytes(&key.link_id, link_id) && (same_bytes(&logical, id)
                || same_bytes(&key.hash, id)) {
                found = Some(key.hash);
            }
            i = i + 1;
            assert(self@.inbound[i - 1].0 == key);
        }
        found
    }
}

impl LinkManager {
    /// Why the Link cannot carry application traffic.
    fn check_usable(&self, link_id: &[u8; 16]) -> (r: Result<Link, LinkSendError>)
        ensures
            match r {
                Ok(link) => self@.unusable(*link_id) is None && find(self@.links, *link_id) == Some(
                    link,
                ),
                Err(error) => self@.unusable(*link_id) == Some(error),
            },
    {
        match self.links.get(link_id) {
            None => Err(LinkSendError::LinkNotFound),
            Some(link) => if link.is_usable() {
                Ok(*link)
            } else {
                Err(LinkSendError::LinkNotActive)
            },
        }
    }

    pub(crate) fn send_packet_now(
        &mut self,
        link_id: &[u8; 16],
        context: PacketContext,
        body: Vec<u8>,
        seal: bool,
    )
        ensures
            final(self)@ == old(self)@.packet_sent(*link_id, context, body@, seal),
    {
        if let Some(link) = self.links.get(link_id) {
            let role = link.endpoint_role();
            let len: usize = body.len();
            let keepalive: bool = context == PacketContext::Keepalive;
            let packet = make_link_packet(*link_id, PacketType::Data, context, body, seal);
            self.transport.try_packet(*link_id, role, packet);
            self.effects.push(
                Effect::Transmitted { link_id: *link_id, len, sealed: seal, keepalive },
            );
        }
    }

    /// Sends application data as one packet. `sealed` is the data encrypted for the
    /// Link, if that was possible. Stale Links stay sendable so peers can probe and
    /// recover them.
    pub fn send_link_packet(&mut self, link_id: &[u8; 16], sealed: Option<SealedPacket>) -> (r:
        Result<LinkPacketSendReceipt, LinkSendError>)
        ensures
            r == old(self)@.packet_result(*link_id, sealed),
            final(self)@ == old(self)@.link_packet_sent(
                *link_id,
                PacketContext::Data,
                sealed,
                r is Ok,
            ),
    {
        match self.check_usable(link_id) {
            Err(error) => Err(error),
            Ok(_) => match sealed {
                None => Err(LinkSendError::NoSessionKeys),
                Some(packet) => {
                    if self.transport.port.closed || self.transport.port.is_full() {
                        return Err(LinkSendError::TransportUnavailable);
                    }
                    let packet_hash = packet.packet_hash;
                    self.send_packet_now(link_id, PacketContext::Data, packet.body, false);
                    Ok(LinkPacketSendReceipt { link_id: *link_id, packet_hash })
                },
            },
        }
    }

    /// Emits an initiator identity proof over this Link's typed endpoint. `sealed` is
    /// the proof encrypted for the Link, if the Link could make one. Responder Links
    /// reject identification: it reveals only the initiator to the responder.
    pub fn send_link_identify(&mut self, link_id: &[u8; 16], sealed: Option<SealedPacket>) -> (r:
        Result<LinkPacketSendReceipt, LinkSendError>)
        ensures
            r == old(self)@.identify_result(*link_id, sealed),
            final(self)@ == old(self)@.link_packet_sent(
                *link_id,
                PacketContext::LinkIdentify,
                sealed,
                r is Ok,
            ),
    {
        if !self.settings.has_identity {
            return Err(LinkSendError::IdentityUnavailable);
        }
        match self.check_usable(link_id) {
            Err(error) => Err(error),
            Ok(link) => match sealed {
                None => Err(LinkSendError::IdentificationUnavailable),
                Some(packet) => {
                    if !link.is_initiator {
                        return Err(LinkSendError::IdentificationUnavailable);
                    }
                    if self.transport.port.closed || self.transport.port.is_full() {
                        return Err(LinkSendError::TransportUnavailable);
                    }
                    let packet_hash = packet.packet_hash;
                    self.send_packet_now(link_id, PacketContext::LinkIdentify, packet.body, false);
                    Ok(LinkPacketSendReceipt { link_id: *link_id, packet_hash })
                },
            },
        }
    }

    /// Opens the Link's channel, unless it is open. `registered` says whether the
    /// channel would take the application's message types. Says whether it is open.
    pub fn ensure_link_channel(&mut self, link_id: &[u8; 16], registered: bool) -> (r: bool)
        ensures
            final(self)@ == old(self)@.channel_opened(*link_id, registered),
            r == old(self)@.channel_available(*link_id, registered),
    {
        let mut link = match self.links.get(link_id) {
            Some(link) => *link,
            None => {
                return false;
            },
        };
        if link.has_channel {
            return true;
        }
        if !link.has_session_keys || !registered {
            return false;
        }
        link.has_channel = true;
        self.links.insert(*link_id, link);
        true
    }

    /// Sends a channel message. `prepared` is what the channel made of it.
    pub fn send_channel_message(
        &mut self,
        link_id: &[u8; 16],
        registered: bool,
        prepared: Result<PreparedMessage, ChannelError>,
    ) -> (r: Result<ChannelSendReceipt, ChannelSendError>)
        ensures
            r == old(self)@.channel_result(*link_id, registered, prepared),
            final(self)@ == old(self)@.channel_message_sent(*link_id, registered, prepared),
    {
        match self.links.get(link_id) {
            None => {
                return Err(ChannelSendError::LinkNotFound);
            },
            Some(link) => {
                if !link.is_usable() {
                    return Err(ChannelSendError::LinkNotActive);
                }
            },
        }
        if self.transport.port.closed || self.transport.port.is_full() {
            return Err(ChannelSendError::TransportUnavailable);
        }
        if !self.ensure_link_channel(link_id, registered) {
            return Err(ChannelSendError::NoSessionKeys);
        }
        match prepared {
            Ok(message) => {
                let receipt = ChannelSendReceipt {
                    link_id: *link_id,
                    sequence: message.sequence,
                    packet_hash: message.packet_hash,
                };
                self.send_packet_now(link_id, PacketContext::Channel, message.body, false);
                Ok(receipt)
            },
            Err(error) => Err(ChannelSendError::Channel(error)),
        }
    }

    /// The packet that carries realtime data on the Link's bound interface, and the
    /// role of the endpoint that sends it.
    pub fn prepare_best_effort(&self, link_id: &[u8; 16], sealed: &Option<SealedPacket>) -> (r:
        Result<(LinkEndpointRole, Packet<Vec<u8>>), LinkSendError>)
        ensures
            match r {
                Ok((role, packet)) => self@.unusable(*link_id) is None && sealed is Some && role == (
                find(self@.links, *link_id)->0).role_model() && packet@ == link_packet(
                    *link_id,
                    PacketType::Data,
                    PacketContext::Data,
                    (sealed->0).body@,
                    false,
                ),
                Err(error) => error == (match self@.unusable(*link_id) {
                    Some(e) => e,
                    None => LinkSendError::NoSessionKeys,
                }) && (self@.unusable(*link_id) is Some || sealed is None),
            },
    {
        match self.check_usable(link_id) {
            Err(error) => Err(error),
            Ok(link) => match sealed {
                None => Err(LinkSendError::NoSessionKeys),
                Some(sealed_packet) => {
                    let packet = make_link_packet(
                        *link_id,
                        PacketType::Data,
                        PacketContext::Data,
                        copy_bytes(sealed_packet.body.as_slice()),
                        false,
                    );
                    Ok((link.endpoint_role(), packet))
                },
            },
        }
    }

    /// Takes in what became of the realtime data in `sealed`: `None` when the transport
    /// could not be asked. Data that was sent counts as sent, and an endpoint
    /// that is gone closes its Link.
    pub fn finish_best_effort(
        &mut self,
        link_id: &[u8; 16],
        sealed: &SealedPacket,
        result: Option<LinkEndpointSendResult>,
    ) -> (r: Result<(LinkPacketSendReceipt, LinkEndpointSendResult), LinkSendError>)
        ensures
            match result {
                Some(outcome) => r == Ok::<
                    (LinkPacketSendReceipt, LinkEndpointSendResult),
                    LinkSendError,
                >(
                    (
                        LinkPacketSendReceipt {
                            link_id: *link_id,
                            packet_hash: sealed.packet_hash,
                        },
                        outcome,
                    ),
                ),
                None => r == Err::<
                    (LinkPacketSendReceipt, LinkEndpointSendResult),
                    LinkSendError,
                >(LinkSendError::TransportUnavailable),
            },
            final(self)@ == old(self)@.best_effort_sent(
                *link_id,
                sealed.body@.len() as usize,
                result,
            ),
    {
        match result {
            None => Err(LinkSendError::TransportUnavailable),
            Some(outcome) => {
                match outcome {
                    LinkEndpointSendResult::Sent => {
                        if self.links.contains(link_id) {
                            self.effects.push(
                                Effect::Transmitted {
                                    link_id: *link_id,
                                    len: sealed.body.len(),
                                    sealed: false,
                                    keepalive: false,
                                },
                            );
                        }
                    },
                    LinkEndpointSendResult::NotBound
                    | LinkEndpointSendResult::RoleMismatch
                    | LinkEndpointSendResult::Terminated(_) => {
                        let _ = self.drop_active_link(*link_id, CloseReason::DestinationClosed);
                    },
                    _ => {},
                }
                let packet_hash = sealed.packet_hash;
                Ok((LinkPacketSendReceipt { link_id: *link_id, packet_hash }, outcome))
            },
        }
    }

    /// The segment that a request for parts speaks of.
    pub fn requested_resource(&self, plaintext: &[u8]) -> (r: Option<[u8; 32]>)
        ensures
            r == requested_segment(self@.settings.constants, plaintext@),
    {
        let n: usize = plaintext.len();
        if n <= 32 {
            return None;
        }
        if plaintext[0] == self.settings.constants.hashmap_is_exhausted {
            // The exhaustion flag shifts the hash by the length of a map hash.
            let shift: usize = self.settings.constants.map_hash_len;
            if shift > n - 33 {
                return None;
            }
            Some(hash_from(plaintext, 1 + shift))
        } else if n >= 33 {
            Some(hash_from(plaintext, 1))
        } else {
            None
        }
    }

    fn send_actions(&mut self, link_id: &[u8; 16], actions: Vec<Action>)
        ensures
            final(self)@ == old(self)@.actions_sent(*link_id, action_models(actions@)),
    {
        let mut rest = actions;
        let mut going: bool = true;
        while going && rest.len() > 0
            invariant
                going ==> self@.actions_sent(*link_id, action_models(rest@)) == old(
                    self,
                )@.actions_sent(*link_id, action_models(actions@)),
                !going ==> self@ == old(self)@.actions_sent(*link_id, action_models(actions@)),
            decreases rest@.len(),
        {
            let ghost before = rest@;
            let action = rest.remove(0);
            proof {
                assert(action_models(before)[0] == action@);
                assert(action_models(before).skip(1) =~= action_models(rest@));
            }
            if !self.send_resource_action(link_id, action) {
                going = false;
            }
        }
    }

    pub fn emit_outbound_resource_progress(
        &mut self,
        link_id: [u8; 16],
        segment: [u8; 32],
        transferred: usize,
    )
        ensures
            final(self)@ == old(self)@.outbound_progressed(link_id, segment, transferred),
    {
        let transfer = match self.resources.outbound.get(&ResourceKey { link_id, hash: segment }) {
            Some(transfer) => *transfer,
            None => {
                return;
            },
        };
        self.notices.emit_resource_event(
            LinkResourceEvent::Progress {
                link_id,
                resource_id: transfer.outbound_resource_identity().id,
                direction: LinkResourceDirection::Outbound,
                transferred,
                total: transfer.advertisement_data_size,
            },
        );
    }

    /// The receiver asks for parts. `actions` is what the transfer of the requested
    /// segment answers; `progress` is how much was transferred, if that grew.
    pub fn handle_resource_req(
        &mut self,
        link_id: [u8; 16],
        plaintext: &[u8],
        actions: Vec<Action>,
        progress: Option<usize>,
    )
        ensures
            final(self)@ == old(self)@.parts_requested(
                link_id,
                plaintext@,
                action_models(actions@),
                progress,
            ),
    {
        let segment = match self.requested_resource(plaintext) {
            Some(segment) => segment,
            None => {
                return;
            },
        };
        if !self.resources.outbound.contains(&ResourceKey { link_id, hash: segment }) {
            return;
        }
        self.send_actions(&link_id, actions);
        if let Some(transferred) = progress {
            self.emit_outbound_resource_progress(link_id, segment, transferred);
        }
    }

    fn end_outbound(
        &mut self,
        link_id: [u8; 16],
        segment: [u8; 32],
        conclusion: LinkResourceConclusion,
    )
        ensures
            final(self)@ == old(self)@.outbound_ended(link_id, segment, conclusion@),
    {
        if let Some(transfer) = self.resources.remove_outbound(link_id, segment) {
            let resource_id = transfer.outbound_resource_identity().id;
            self.conclude_outbound(link_id, resource_id, conclusion);
        }
    }

    /// Gives up an outbound segment that has failed.
    pub fn fail_outbound(&mut self, link_id: [u8; 16], segment: [u8; 32], reason: String)
        ensures
            final(self)@ == old(self)@.outbound_ended(
                link_id,
                segment,
                ConclusionModel::Failed(reason@),
            ),
    {
        self.end_outbound(link_id, segment, LinkResourceConclusion::Failed(reason));
    }

    /// The receiver refuses a Resource; `plaintext` begins with a segment's hash.
    pub fn handle_resource_rcl(&mut self, link_id: [u8; 16], plaintext: &[u8])
        ensures
            final(self)@ == old(self)@.outbound_refused(link_id, plaintext@),
    {
        if plaintext.len() < 32 {
            return;
        }
        let segment = hash_from(plaintext, 0);
        self.end_outbound(link_id, segment, LinkResourceConclusion::Rejected);
    }

    /// Advertises a segment. `action` is what its transfer asks for first.
    fn start_outbound_transfer(
        &mut self,
        link_id: &[u8; 16],
        transfer: OutboundTransfer,
        action: Action,
    ) -> (r: bool)
        ensures
            final(self)@ == old(self)@.segment_started(*link_id, transfer, action@),
            r == old(self)@.segment_starts(*link_id, action@),
    {
        match &action {
            TransferAction::SendAdvertisement(_) => {},
            _ => {
                return false;
            },
        }
        if !self.send_resource_action(link_id, action) {
            return false;
        }
        self.resources.outbound.insert(
            ResourceKey { link_id: *link_id, hash: transfer.resource_hash },
            transfer,
        );
        true
    }

    /// The segment that starts when `segment` is proved.
    pub fn next_segment(&self, link_id: &[u8; 16], segment: &[u8; 32]) -> (r: Option<
        OutboundTransfer,
    >)
        ensures
            r == self@.following_segment(*link_id, *segment),
    {
        match self.resources.outbound.get(&ResourceKey { link_id: *link_id, hash: *segment }) {
            Some(transfer) => match transfer.original_hash {
                Some(id) => match self.resources.queued.get(
                    &ResourceKey { link_id: *link_id, hash: id },
                ) {
                    Some(next) => Some(*next),
                    None => None,
                },
                None => None,
            },
            None => None,
        }
    }

    fn prove_segment(&mut self, link_id: [u8; 16], segment: [u8; 32], next_action: Action)
        ensures
            final(self)@ == old(self)@.segment_proved(link_id, segment, next_action@),
    {
        let next = self.next_segment(&link_id, &segment);
        let key = ResourceKey { link_id, hash: segment };
        let transfer = match self.resources.outbound.get(&key) {
            Some(transfer) => *transfer,
            None => {
                return;
            },
        };
        let _ = self.resources.outbound.remove(&key);
        let id = match transfer.original_hash {
            Some(hash) => hash,
            None => segment,
        };
        match next {
            None => {
                self.notices.stage_legacy_terminal_notification(
                    LegacyTerminalNotification::ResourceProof(
                        LinkResourceProof { link_id, resource_hash: id },
                    ),
                );
                self.conclude_outbound(link_id, id, LinkResourceConclusion::Complete);
            },
            Some(next) => {
                let waiting = ResourceKey { link_id, hash: id };
                let _ = self.resources.take_queued(&waiting);
                if !self.start_outbound_transfer(&link_id, next, next_action) {
                    let _ = self.resources.queued.remove(&waiting);
                    self.conclude_outbound(
                        link_id,
                        id,
                        LinkResourceConclusion::Failed(
                            "could not retain next Resource segment advertisement".to_owned(),
                        ),
                    );
                }
            },
        }
    }

    /// The receiver proves a segment. `complete` says whether the segment's transfer
    /// accepts the proof, and `next_action` is what the transfer of
    /// [`Self::next_segment`] asks for first.
    pub fn handle_resource_prf(
        &mut self,
        link_id: [u8; 16],
        data: &[u8],
        complete: bool,
        next_action: Action,
    )
        ensures
            final(self)@ == old(self)@.proof_received(link_id, data@, complete, next_action@),
    {
        if data.len() < 64 || !complete {
            return;
        }
        let segment = hash_from(data, 0);
        self.prove_segment(link_id, segment, next_action);
    }

    /// Whether a Resource of this size fits into one segment.
    fn fits_one_segment(&self, data_len: usize, metadata_len: Option<usize>) -> (r: bool)
        ensures
            r == (self@.segment_plan(
                data_len as nat,
                match metadata_len {
                    Some(n) => Some(n as nat),
                    None => None,
                },
            ) is Single),
    {
        let limit: usize = self.settings.constants.max_efficient_size;
        match metadata_len {
            Some(n) => data_len <= limit && n <= limit - data_len && 3 <= limit - data_len - n,
            None => data_len <= limit,
        }
    }

    /// How a Resource is to be cut, if it may be sent on the Link now.
    pub fn plan_resource_transfer(&self, link_id: &[u8; 16], start: &ResourceTransferStart) -> (r:
        Option<SegmentPlan>)
        ensures
            r == (if self@.carries_resources(*link_id, start.allow_handshake) {
                Some(self@.segment_plan(start.data@.len(), optional_len(start.metadata)))
            } else {
                None
            }),
    {
        if !self.resource_transfer_allowed(link_id, start.allow_handshake) {
            return None;
        }
        let metadata_len: Option<usize> = match &start.metadata {
            Some(metadata) => Some(metadata.len()),
            None => None,
        };
        if self.fits_one_segment(start.data.len(), metadata_len) {
            Some(SegmentPlan::Single)
        } else {
            Some(SegmentPlan::Split)
        }
    }

    fn resource_transfer_allowed(&self, link_id: &[u8; 16], allow_handshake: bool) -> (r: bool)
        ensures
            r == self@.carries_resources(*link_id, allow_handshake),
    {
        match self.links.get(link_id) {
            Some(link) => (link.is_usable() || (allow_handshake && link.state
                == LinkState::Handshake)) && link.has_session_keys,
            None => false,
        }
    }

    /// Sends a Resource of `data_len` bytes that was built: advertises its first segment
    /// and queues the others. Returns the id of the Resource, if sending has begun.
    fn start_built(
        &mut self,
        link_id: &[u8; 16],
        allow_handshake: bool,
        data_len: usize,
        metadata_len: Option<usize>,
        built: BuiltResource,
    ) -> (r: Option<[u8; 32]>)
        ensures
            r == (if old(self)@.resource_starts(
                *link_id,
                allow_handshake,
                data_len as nat,
                match metadata_len {
                    Some(n) => Some(n as nat),
                    None => None,
                },
                built,
            ) {
                Some(built.segments@[0].logical_id())
            } else {
                None
            }),
            final(self)@ == old(self)@.resource_started(
                *link_id,
                allow_handshake,
                data_len as nat,
                match metadata_len {
                    Some(n) => Some(n as nat),
                    None => None,
                },
                built,
            ),
    {
        if !self.resource_transfer_allowed(link_id, allow_handshake) || built.segments.len() == 0 {
            return None;
        }
        if built.segments.len() != 1 && self.fits_one_segment(data_len, metadata_len) {
            return None;
        }
        let segments = built.segments;
        let first = segments[0];
        let resource_key = first.outbound_resource_identity().id;
        let total_segments: usize = segments.len();
        if !self.start_outbound_transfer(link_id, first, built.first_action) {
            return None;
        }
        let key = ResourceKey { link_id: *link_id, hash: resource_key };
        let ghost f = |t: OutboundTransfer| (key_of(*link_id, first.logical_id()), t);
        let ghost started = self@;
        if total_segments > 1 {
            let _ = self.resources.queued.remove(&key);
            let ghost kept = self.resources@.queued;
            let ghost tail = segments@.skip(1).map_values(f);
            let mut i: usize = 1;
            assert(kept =~= kept + tail.take(0));
            while i < total_segments
                invariant
                    1 <= i <= total_segments,
                    total_segments == segments@.len(),
                    tail == segments@.skip(1).map_values(f),
                    f == (|t: OutboundTransfer| (key_of(*link_id, first.logical_id()), t)),
                    key == key_of(*link_id, first.logical_id()),
                    self.resources@.queued == kept + tail.take(i - 1),
                    self@ == (LinkManagerModel {
                        resources: ResourcesModel {
                            queued: self.resources@.queued,
                            ..started.resources
                        },
                        ..started
                    }),
                decreases total_segments - i,
            {
                self.resources.queued.entries.push((key, segments[i]));
                proof {
                    assert(tail[i - 1] == (key, segments@[i as int]));
                    assert(self.resources@.queued =~= kept + tail.take(i as int));
                }
                i = i + 1;
            }
            assert(tail.take(i - 1) =~= tail);
        }
        self.notices.emit_resource_event(
            LinkResourceEvent::Started {
                link_id: *link_id,
                resource_id: resource_key,
                direction: LinkResourceDirection::Outbound,
                data_size: data_len,
                total_segments,
            },
        );
        Some(resource_key)
    }

    /// Sends a Resource that was built as `request` asks: advertises its first segment and
    /// queues the others. Returns the id of the Resource, if sending has begun. What was
    /// cut although it fits into one segment is not sent.
    pub fn start_resource_transfer_inner(
        &mut self,
        link_id: &[u8; 16],
        request: &ResourceTransferStart,
        built: BuiltResource,
    ) -> (r: Option<[u8; 32]>)
        ensures
            r == (if old(self)@.resource_starts(
                *link_id,
                request.allow_handshake,
                request.data@.len(),
                optional_len(request.metadata),
                built,
            ) {
                Some(built.segments@[0].logical_id())
            } else {
                None
            }),
            final(self)@ == old(self)@.resource_started(
                *link_id,
                request.allow_handshake,
                request.data@.len(),
                optional_len(request.metadata),
                built,
            ),
    {
        let metadata_len: Option<usize> = match &request.metadata {
            Some(metadata) => Some(metadata.len()),
            None => None,
        };
        self.start_built(
            link_id,
            request.allow_handshake,
            request.data.len(),
            metadata_len,
            built,
        )
    }

    /// Sends `data` as a Resource, with its metadata if it has any, on an established
    /// Link. `built` is what came of building it.
    pub fn start_resource_transfer_with_metadata(
        &mut self,
        link_id: &[u8; 16],
        data: &[u8],
        metadata: &Option<Vec<u8>>,
        built: BuiltResource,
    ) -> (r: Option<[u8; 32]>)
        ensures
            r == (if old(self)@.resource_starts(
                *link_id,
                false,
                data@.len(),
                optional_len(*metadata),
                built,
            ) {
                Some(built.segments@[0].logical_id())
            } else {
                None
            }),
            final(self)@ == old(self)@.resource_started(
                *link_id,
                false,
                data@.len(),
                optional_len(*metadata),
                built,
            ),
    {
        let metadata_len: Option<usize> = match metadata {
            Some(m) => Some(m.len()),
            None => None,
        };
        self.start_built(link_id, false, data.len(), metadata_len, built)
    }

    /// Sends `data` as a Resource on an established Link.
    pub fn start_resource_transfer(
        &mut self,
        link_id: &[u8; 16],
        data: &[u8],
        built: BuiltResource,
    ) -> (r: Option<[u8; 32]>)
        ensures
            r == (if old(self)@.resource_starts(
                *link_id,
                false,
                data@.len(),
                None,
                built,
            ) {
                Some(built.segments@[0].logical_id())
            } else {
                None
            }),
            final(self)@ == old(self)@.resource_started(
                *link_id,
                false,
                data@.len(),
                None,
                built,
            ),
    {
        self.start_resource_transfer_with_metadata(link_id, data, &None, built)
    }

    /// Sends application data as a Resource. `built` is what came of building it.
    pub fn send_link_resource(
        &mut self,
        link_id: &[u8; 16],
        payload: &[u8],
        built: BuiltResource,
    ) -> (r: Result<LinkResourceSendReceipt, LinkSendError>)
        ensures
            r == old(self)@.resource_result(*link_id, payload@.len(), built),
            final(self)@ == old(self)@.resource_sent(*link_id, payload@.len(), built),
    {
        match self.check_usable(link_id) {
            Err(error) => Err(error),
            Ok(link) => {
                if !link.has_session_keys {
                    return Err(LinkSendError::NoSessionKeys);
                }
                match self.start_resource_transfer(link_id, payload, built) {
                    Some(resource_hash) => Ok(
                        LinkResourceSendReceipt { link_id: *link_id, resource_hash },
                    ),
                    None => Err(LinkSendError::ResourceStartFailed),
                }
            },
        }
    }

    /// Whether application data of `payload_len` bytes goes out as one packet.
    pub fn payload_fits_packet(&self, link_id: &[u8; 16], payload_len: usize) -> (r: Result<
        bool,
        LinkSendError,
    >)
        ensures
            match r {
                Ok(fits) => self@.unusable(*link_id) is None && fits == self@.fits_packet(
                    *link_id,
                    payload_len,
                ),
                Err(error) => self@.unusable(*link_id) == Some(error),
            },
    {
        match self.check_usable(link_id) {
            Err(error) => Err(error),
            Ok(link) => Ok(payload_len <= link.mdu),
        }
    }

    /// Sends application data as one packet if it fits into one, and as a Resource
    /// otherwise.
    pub fn send_link_payload(
        &mut self,
        link_id: &[u8; 16],
        payload: &[u8],
        sealed: Option<SealedPacket>,
        built: BuiltResource,
    ) -> (r: Result<LinkPayloadSendReceipt, LinkSendError>)
        ensures
            r == old(self)@.payload_result(*link_id, payload@.len() as usize, sealed, built),
            final(self)@ == old(self)@.payload_sent(
                *link_id,
                payload@.len() as usize,
                sealed,
                built,
            ),
    {
        match self.payload_fits_packet(link_id, payload.len()) {
            Err(error) => Err(error),
            Ok(true) => match self.send_link_packet(link_id, sealed) {
                Ok(receipt) => Ok(LinkPayloadSendReceipt::Packet(receipt)),
                Err(error) => Err(error),
            },
            Ok(false) => match self.send_link_resource(link_id, payload, built) {
                Ok(receipt) => Ok(LinkPayloadSendReceipt::Resource(receipt)),
                Err(error) => Err(error),
            },
        }
    }

    /// Cancels an active Resource by the logical id returned in lifecycle events or
    /// [`LinkResourceSendReceipt`], or by the hash of its segment.
    pub fn cancel_link_resource(
        &mut self,
        link_id: &[u8; 16],
        resource_id: &[u8; 32],
        direction: LinkResourceDirection,
    ) -> (r: bool)
        ensures
            final(self)@ == old(self)@.resource_cancelled(*link_id, *resource_id, direction),
            r == old(self)@.cancellation(*link_id, *resource_id, direction) is Some,
    {
        if !self.links.contains(link_id) {
            return false;
        }
        match direction {
            LinkResourceDirection::Outbound => {
                let segment = match self.resources.find_outbound_segment(link_id, resource_id) {
                    Some(segment) => segment,
                    None => {
                        return false;
                    },
                };
                let key = ResourceKey { link_id: *link_id, hash: segment };
                let logical = match self.resources.outbound.get(&key) {
                    Some(transfer) => transfer.outbound_resource_identity().id,
                    None => segment,
                };
                let _ = self.send_resource_action(
                    link_id,
                    TransferAction::SendCancel(CancelType::Icl, segment),
                );
                let _ = self.resources.outbound.remove(&key);
                let _ = self.resources.queued.remove(
                    &ResourceKey { link_id: *link_id, hash: logical },
                );
                self.conclude_outbound(*link_id, logical, LinkResourceConclusion::Cancelled);
            },
            LinkResourceDirection::Inbound => {
                let segment = self.resources.find_inbound_segment(link_id, resource_id);
                let logical = match segment {
                    Some(hash) => self.resources.inbound_resource_identity(link_id, &hash).id,
                    None => {
                        if !self.resources.lifecycles.contains(
                            &ResourceKey { link_id: *link_id, hash: *resource_id },
                        ) {
                            return false;
                        }
                        *resource_id
                    },
                };
                if let Some(hash) = segment {
                    let _ = self.send_resource_action(
                        link_id,
                        TransferAction::SendCancel(CancelType::Rcl, hash),
                    );
                }
                let _ = self.conclude_inbound_failure(
                    *link_id,
                    logical,
                    LinkResourceConclusion::Cancelled,
                );
            },
        }
        true
    }
}

} // verus!
