//! Packets that arrive on Links.

use vstd::prelude::*;

use crate::assoc::{find, present, put};
use crate::events::{
    bytes_model, LinkChannelMessage, LinkPacketProof, LinkResponse,
};
use crate::inbound::{transfer_model, ResourceAdvertisement};
use crate::link::{Action, CloseReason, Link, LinkState};
use crate::manager::{Effect, LinkManager, LinkManagerModel};
use crate::notices::NoticesModel;
use crate::port::{notify, offered};
use crate::receiving::{hash_at, hash_from, optional_action, PartScan};
use crate::sending::action_models;
use crate::wire::{link_packet, make_link_packet, PacketContext, PacketHeader, PacketType};

verus! {

/// What a packet is to the manager.
#[derive(Debug, Clone, Copy, PartialEq, Eq, Structural)]
pub enum PacketRoute {
    /// Not for a Link of this manager: for its destination, or for the application.
    Destination,
    /// For a Link, but on an interface that is not the Link's.
    WrongInterface,
    /// Proof of a packet that this end sent.
    PacketProof,
    Lrrtt,
    Identify,
    Keepalive,
    Close,
    Channel,
    Advertisement,
    Part,
    PartsRequest,
    SenderCancel,
    ReceiverCancel,
    HashmapUpdate,
    ResourceProof,
    Request,
    Response,
    /// Application data.
    Data,
}

/// How a packet counts: as a sign of life of the peer, and as received bytes.
#[derive(Debug, Clone, Copy, PartialEq, Eq, Structural)]
pub struct Accounting {
    pub inbound: bool,
    pub received: bool,
}

impl PacketRoute {
    /// How a packet of this kind counts. A keepalive-like sign of life is not taken
    /// from what sets a Link up, identifies its peer or tears it down.
    pub fn accounting(&self) -> (r: Accounting)
        ensures
            r.inbound == !(self is Destination || self is WrongInterface || self is Lrrtt
                || self is Identify || self is Close),
            r.received == !(self is Destination || self is WrongInterface || self is PacketProof),
    {
        match self {
            PacketRoute::Destination | PacketRoute::WrongInterface => Accounting {
                inbound: false,
                received: false,
            },
            PacketRoute::PacketProof => Accounting { inbound: true, received: false },
            PacketRoute::Lrrtt | PacketRoute::Identify | PacketRoute::Close => Accounting {
                inbound: false,
                received: true,
            },
            _ => Accounting { inbound: true, received: true },
        }
    }
}

/// A request as its sender packed it. The time of the request is carried through.
#[derive(Debug)]
pub struct ParsedRequest {
    pub request_id: [u8; 16],
    pub path_hash: [u8; 16],
    /// When the request was made, as the bits of the sender's timestamp.
    pub requested_at: u64,
    pub data: Vec<u8>,
}

/// An offer, as far as it could be read.
#[derive(Debug)]
pub enum OfferInput {
    /// It could not be decrypted.
    Sealed,
    /// It was decrypted, and is not an offer. The peer misbehaves.
    Malformed { teardown: Option<Vec<u8>> },
    Offer { adv: ResourceAdvertisement, transfer: Result<Action, String>, accepted: bool },
}

/// What the Link's own machinery made of a packet.
#[derive(Debug)]
pub enum PacketInput {
    PacketProof { data: Vec<u8>, valid: bool, matches_channel: bool },
    Lrrtt { accepted: bool },
    Identify { identity: Option<[u8; 16]>, gate_accepts: bool, teardown: Option<Vec<u8>> },
    Keepalive { data: Vec<u8>, respond: bool },
    Close { verified: bool },
    Channel { proof: Option<Vec<u8>>, registered: bool },
    Advertisement(OfferInput),
    Part { scan: PartScan, transferred: usize },
    PartsRequest { plaintext: Option<Vec<u8>>, actions: Vec<Action>, progress: Option<usize> },
    SenderCancel { plaintext: Option<Vec<u8>> },
    ReceiverCancel { plaintext: Option<Vec<u8>> },
    HashmapUpdate { update: Option<([u8; 32], Action)> },
    ResourceProof { data: Vec<u8>, complete: bool, next_action: Action },
    Request { parsed: Option<ParsedRequest> },
    Response { response: Option<([u8; 16], Vec<u8>)> },
    Data { plaintext: Option<Vec<u8>>, proof: Option<Vec<u8>> },
}

/// What is to be done next about a packet.
#[derive(Debug)]
pub enum FollowUp {
    Nothing,
    /// The Link is active now: the application's callbacks are due.
    Activated,
    /// The peer is identified now: the application's callback is due.
    Identified,
    /// Application data was published: the application's callback is due.
    Published,
    /// Its channel may take its content in.
    ChannelData,
    /// The segment is complete.
    CompleteSegment([u8; 32]),
    /// The request is to be dispatched.
    Dispatch(ParsedRequest),
}

impl LinkManagerModel {
    /// What a packet with this header is, on this interface.
    pub open spec fn packet_route(self, header: PacketHeader, interface_id: u64) -> PacketRoute {
        match find(self.links, header.destination_hash) {
            None => PacketRoute::Destination,
            Some(link) => if interface_id != link.interface_id {
                PacketRoute::WrongInterface
            } else if header.flags.packet_type is Proof && (header.context is Data
                || header.context is LinkProof) {
                PacketRoute::PacketProof
            } else {
                match header.context {
                    PacketContext::Lrrtt => PacketRoute::Lrrtt,
                    PacketContext::LinkIdentify => PacketRoute::Identify,
                    PacketContext::Keepalive => PacketRoute::Keepalive,
                    PacketContext::LinkClose => PacketRoute::Close,
                    PacketContext::Channel => PacketRoute::Channel,
                    PacketContext::ResourceAdv => PacketRoute::Advertisement,
                    PacketContext::Resource => PacketRoute::Part,
                    PacketContext::ResourceReq => PacketRoute::PartsRequest,
                    PacketContext::ResourceIcl => PacketRoute::SenderCancel,
                    PacketContext::ResourceRcl => PacketRoute::ReceiverCancel,
                    PacketContext::ResourceHmu => PacketRoute::HashmapUpdate,
                    PacketContext::ResourcePrf => PacketRoute::ResourceProof,
                    PacketContext::Request => PacketRoute::Request,
                    PacketContext::Response => PacketRoute::Response,
                    _ => PacketRoute::Data,
                }
            },
        }
    }

    /// The peer proved that a packet arrived. A proof that settles a channel message
    /// stays with the channel and counts for the Link's keepalive; any other is reported.
    pub open spec fn packet_proof_received(
        self,
        link_id: [u8; 16],
        data: Seq<u8>,
        valid: bool,
        matches_channel: bool,
    ) -> Self {
        if data.len() < 96 || !valid {
            self
        } else if matches_channel {
            LinkManagerModel {
                effects: self.effects.push(Effect::ProofRecorded { link_id }),
                ..self
            }
        } else {
            LinkManagerModel {
                notices: self.notices.packet_proved(
                    LinkPacketProof { link_id, packet_hash: hash_at(data, 0) },
                ),
                ..self
            }
        }
    }

    /// Whether a round-trip measurement makes the Link active.
    pub open spec fn activates(self, link_id: [u8; 16], accepted: bool) -> bool {
        match find(self.links, link_id) {
            Some(link) => link.state is Handshake && accepted,
            None => false,
        }
    }

    /// The initiator's round-trip measurement arrived, which makes the Link active.
    pub open spec fn link_activated(self, link_id: [u8; 16], hops: u8, accepted: bool) -> Self {
        match find(self.links, link_id) {
            Some(link) => if link.state is Handshake && accepted {
                LinkManagerModel {
                    links: put(
                        self.links,
                        link_id,
                        Link {
                            state: LinkState::Active,
                            expected_hops: Some(
                                if hops == 255 {
                                    255u8
                                } else {
                                    (hops + 1) as u8
                                },
                            ),
                            ..link
                        },
                    ),
                    notices: NoticesModel {
                        link_established: offered(self.notices.link_established, link_id@),
                        ..self.notices
                    },
                    ..self
                }
            } else {
                self
            },
            None => self,
        }
    }

    /// The peer's identity on a Link. The first identity wins.
    pub open spec fn peer_identified(self, link_id: [u8; 16], identity: [u8; 16]) -> Self {
        match find(self.links, link_id) {
            Some(link) => LinkManagerModel {
                links: put(
                    self.links,
                    link_id,
                    Link { identified: true, remote_identity: Some(identity), ..link },
                ),
                backchannel_links: put(self.backchannel_links, identity, link_id),
                link_identities: put(self.link_identities, link_id, identity),
                notices: NoticesModel {
                    link_identified: offered(
                        self.notices.link_identified,
                        (link_id@, identity@),
                    ),
                    ..self.notices
                },
                ..self
            },
            None => self,
        }
    }

    /// Whether an identification is the Link's first.
    pub open spec fn first_identification(self, link_id: [u8; 16]) -> bool {
        match find(self.links, link_id) {
            Some(link) => !link.identified,
            None => false,
        }
    }

    /// An identification dealt with. A peer whose identity is not admitted is noted and
    /// then loses its Link.
    pub open spec fn identification_received(
        self,
        link_id: [u8; 16],
        identity: Option<[u8; 16]>,
        gate_accepts: bool,
        teardown: Option<Seq<u8>>,
    ) -> Self {
        match identity {
            None => self,
            Some(hash) => if !self.first_identification(link_id) {
                self
            } else {
                let s = self.peer_identified(link_id, hash);
                if self.settings.has_link_identity_gate && !gate_accepts {
                    s.link_closed(link_id, CloseReason::InitiatorClosed, true, teardown, false)
                } else {
                    s
                }
            },
        }
    }

    /// Whether a keepalive is answered: only by the responder, only if it asks, and
    /// only if nothing else went out recently.
    pub open spec fn answers_keepalive(
        self,
        link_id: [u8; 16],
        data: Seq<u8>,
        respond: bool,
    ) -> bool {
        match find(self.links, link_id) {
            Some(link) => data.len() > 0 && data[0] == self.settings.constants.keepalive_request
                && !link.is_initiator && respond,
            None => false,
        }
    }

    pub open spec fn keepalive_received(
        self,
        link_id: [u8; 16],
        data: Seq<u8>,
        respond: bool,
    ) -> Self {
        if self.answers_keepalive(link_id, data, respond) {
            self.packet_sent(
                link_id,
                PacketContext::Keepalive,
                seq![self.settings.constants.keepalive_response],
                false,
            )
        } else {
            self
        }
    }

    /// A delivery proof staged for the peer.
    pub open spec fn proof_staged(
        self,
        link_id: [u8; 16],
        context: PacketContext,
        proof_data: Seq<u8>,
    ) -> Self {
        match find(self.links, link_id) {
            Some(link) => self.control_packet_sent(
                link_id,
                link.role_model(),
                link_packet(link_id, PacketType::Proof, context, proof_data, false),
            ),
            None => self,
        }
    }

    /// Whether a channel is open for a packet, once one was opened for it if the
    /// application has declared message types.
    pub open spec fn channel_ready(self, link_id: [u8; 16], registered: bool) -> bool {
        match find(self.links, link_id) {
            Some(link) => link.usable() && (link.has_channel || (self.channel_message_types.len()
                > 0 && link.has_session_keys && registered)),
            None => false,
        }
    }

    /// The Link with the channel that a packet for it opens.
    pub open spec fn channel_prepared(self, link_id: [u8; 16], registered: bool) -> Self {
        match find(self.links, link_id) {
            Some(link) => if link.usable() && self.channel_message_types.len() > 0 {
                self.channel_opened(link_id, registered)
            } else {
                self
            },
            None => self,
        }
    }

    /// A channel packet proved to the peer. It has a channel by then.
    pub open spec fn channel_packet_proved(
        self,
        link_id: [u8; 16],
        delivery_proof: Option<Seq<u8>>,
        registered: bool,
    ) -> Self {
        let s = self.channel_prepared(link_id, registered);
        if self.channel_ready(link_id, registered) {
            match delivery_proof {
                Some(p) => s.proof_staged(link_id, PacketContext::Data, p),
                None => s,
            }
        } else {
            s
        }
    }

    /// Whether the content of a channel packet may be taken in: only if its proof is
    /// retained.
    pub open spec fn channel_packet_taken(
        self,
        link_id: [u8; 16],
        delivery_proof: Option<Seq<u8>>,
        registered: bool,
    ) -> bool {
        self.channel_ready(link_id, registered) && delivery_proof is Some && self.transport.retains(true)
    }

    pub open spec fn channel_messages_delivered(
        self,
        link_id: [u8; 16],
        messages: Seq<(u16, Vec<u8>)>,
    ) -> Self
        decreases messages.len(),
    {
        if messages.len() == 0 {
            self
        } else {
            let s = self.channel_messages_delivered(link_id, messages.drop_last());
            LinkManagerModel {
                notices: NoticesModel {
                    channel_message: offered(
                        s.notices.channel_message,
                        LinkChannelMessage {
                            link_id,
                            msg_type: messages.last().0,
                            payload: messages.last().1,
                        },
                    ),
                    ..s.notices
                },
                ..s
            }
        }
    }

    /// Whether application data is published: it was decrypted, and its proof is retained.
    pub open spec fn publishes(
        self,
        link_id: [u8; 16],
        plaintext: Option<Seq<u8>>,
        delivery_proof: Option<Seq<u8>>,
    ) -> bool {
        present(self.links, link_id) && plaintext is Some && delivery_proof is Some
            && self.transport.retains(true)
    }

    /// Application data that arrived on a Link. It is published only if its proof is
    /// retained.
    pub open spec fn data_received(
        self,
        link_id: [u8; 16],
        plaintext: Option<Seq<u8>>,
        delivery_proof: Option<Seq<u8>>,
    ) -> Self {
        if !present(self.links, link_id) {
            self
        } else {
            match plaintext {
                None => self,
                Some(data) => match delivery_proof {
                    None => self,
                    Some(p) => {
                        let s = self.proof_staged(link_id, PacketContext::LinkProof, p);
                        if self.transport.retains(true) {
                            LinkManagerModel {
                                notices: NoticesModel {
                                    link_packet: offered(
                                        s.notices.link_packet,
                                        (data, link_id@),
                                    ),
                                    ..s.notices
                                },
                                ..s
                            }
                        } else {
                            s
                        }
                    },
                },
            }
        }
    }

    pub open spec fn offer_received(self, link_id: [u8; 16], input: OfferInput) -> Self {
        match input {
            OfferInput::Sealed => self,
            OfferInput::Malformed { teardown } => self.link_closed(
                link_id,
                CloseReason::DestinationClosed,
                true,
                bytes_model(teardown),
                false,
            ),
            OfferInput::Offer { adv, transfer, accepted } => self.advertised(
                link_id,
                adv,
                transfer_model(transfer),
                accepted,
            ),
        }
    }

    /// A packet that arrived on a Link dealt with. What does not fit its route changes
    /// nothing.
    pub open spec fn packet_handled(
        self,
        header: PacketHeader,
        interface_id: u64,
        input: PacketInput,
    ) -> Self {
        let link_id = header.destination_hash;
        match (self.packet_route(header, interface_id), input) {
            (
                PacketRoute::PacketProof,
                PacketInput::PacketProof { data, valid, matches_channel },
            ) => self.packet_proof_received(link_id, data@, valid, matches_channel),
            (PacketRoute::Lrrtt, PacketInput::Lrrtt { accepted }) => self.link_activated(
                link_id,
                header.hops,
                accepted,
            ),
            (
                PacketRoute::Identify,
                PacketInput::Identify { identity, gate_accepts, teardown },
            ) => self.identification_received(
                link_id,
                identity,
                gate_accepts,
                bytes_model(teardown),
            ),
            (PacketRoute::Keepalive, PacketInput::Keepalive { data, respond }) => {
                self.keepalive_received(link_id, data@, respond)
            },
            (PacketRoute::Close, PacketInput::Close { verified }) => if verified {
                self.link_dropped(link_id, CloseReason::DestinationClosed)
            } else {
                self
            },
            (PacketRoute::Channel, PacketInput::Channel { proof, registered }) => {
                self.channel_packet_proved(link_id, bytes_model(proof), registered)
            },
            (PacketRoute::Advertisement, PacketInput::Advertisement(offer)) => {
                self.offer_received(link_id, offer)
            },
            (PacketRoute::Part, PacketInput::Part { scan, transferred }) => self.part_received(
                link_id,
                scan.progressed,
                transferred,
                optional_action(scan.action),
            ),
            (
                PacketRoute::PartsRequest,
                PacketInput::PartsRequest { plaintext, actions, progress },
            ) => match plaintext {
                Some(p) => self.parts_requested(
                    link_id,
                    p@,
                    action_models(actions@),
                    progress,
                ),
                None => self,
            },
            (PacketRoute::SenderCancel, PacketInput::SenderCancel { plaintext }) => {
                match plaintext {
                    Some(p) => self.inbound_cancelled(link_id, p@),
                    None => self,
                }
            },
            (PacketRoute::ReceiverCancel, PacketInput::ReceiverCancel { plaintext }) => {
                match plaintext {
                    Some(p) => self.outbound_refused(link_id, p@),
                    None => self,
                }
            },
            (PacketRoute::HashmapUpdate, PacketInput::HashmapUpdate { update }) => match update {
                Some((segment, action)) => self.hashmap_updated(link_id, segment, action@),
                None => self,
            },
            (
                PacketRoute::ResourceProof,
                PacketInput::ResourceProof { data, complete, next_action },
            ) => self.proof_received(link_id, data@, complete, next_action@),
            (PacketRoute::Response, PacketInput::Response { response }) => match response {
                Some((request_id, data)) => LinkManagerModel {
                    notices: NoticesModel {
                        response: offered(
                            self.notices.response,
                            LinkResponse { link_id, request_id, data },
                        ),
                        ..self.notices
                    },
                    ..self
                },
                None => self,
            },
            (PacketRoute::Data, PacketInput::Data { plaintext, proof }) => self.data_received(
                link_id,
                bytes_model(plaintext),
                bytes_model(proof),
            ),
            _ => self,
        }
    }

    /// What is to be done next about such a packet.
    pub open spec fn follow_up(
        self,
        header: PacketHeader,
        interface_id: u64,
        input: PacketInput,
    ) -> FollowUp {
        let link_id = header.destination_hash;
        match (self.packet_route(header, interface_id), input) {
            (PacketRoute::Lrrtt, PacketInput::Lrrtt { accepted }) => if self.activates(
                link_id,
                accepted,
            ) {
                FollowUp::Activated
            } else {
                FollowUp::Nothing
            },
            (PacketRoute::Identify, PacketInput::Identify { identity, .. }) => if identity is Some
                && self.first_identification(link_id) {
                FollowUp::Identified
            } else {
                FollowUp::Nothing
            },
            (PacketRoute::Data, PacketInput::Data { plaintext, proof }) => if self.publishes(
                link_id,
                bytes_model(plaintext),
                bytes_model(proof),
            ) {
                FollowUp::Published
            } else {
                FollowUp::Nothing
            },
            (PacketRoute::Channel, PacketInput::Channel { proof, registered }) => {
                if self.channel_packet_taken(
                    link_id,
                    bytes_model(proof),
                    registered,
                ) {
                    FollowUp::ChannelData
                } else {
                    FollowUp::Nothing
                }
            },
            (PacketRoute::Part, PacketInput::Part { scan, .. }) => match scan.completed {
                Some(segment) => FollowUp::CompleteSegment(segment),
                None => FollowUp::Nothing,
            },
            (PacketRoute::Request, PacketInput::Request { parsed }) => match parsed {
                Some(request) => FollowUp::Dispatch(request),
                None => FollowUp::Nothing,
            },
            _ => FollowUp::Nothing,
        }
    }
}

impl LinkManager {
    /// What a packet with this header is, on this interface.
    pub fn route_packet(&self, header: &PacketHeader, interface_id: u64) -> (r: PacketRoute)
        ensures
            r == self@.packet_route(*header, interface_id),
    {
        let link = match self.links.get(&header.destination_hash) {
            None => {
                return PacketRoute::Destination;
            },
            Some(link) => *link,
        };
        if interface_id != link.interface_id {
            return PacketRoute::WrongInterface;
        }
        if header.flags.packet_type == PacketType::Proof && (header.context == PacketContext::Data
            || header.context == PacketContext::LinkProof) {
            return PacketRoute::PacketProof;
        }
        match header.context {
            PacketContext::Lrrtt => PacketRoute::Lrrtt,
            PacketContext::LinkIdentify => PacketRoute::Identify,
            PacketContext::Keepalive => PacketRoute::Keepalive,
            PacketContext::LinkClose => PacketRoute::Close,
            PacketContext::Channel => PacketRoute::Channel,
            PacketContext::ResourceAdv => PacketRoute::Advertisement,
            PacketContext::Resource => PacketRoute::Part,
            PacketContext::ResourceReq => PacketRoute::PartsRequest,
            PacketContext::ResourceIcl => PacketRoute::SenderCancel,
            PacketContext::ResourceRcl => PacketRoute::ReceiverCancel,
            PacketContext::ResourceHmu => PacketRoute::HashmapUpdate,
            PacketContext::ResourcePrf => PacketRoute::ResourceProof,
            PacketContext::Request => PacketRoute::Request,
            PacketContext::Response => PacketRoute::Response,
            _ => PacketRoute::Data,
        }
    }

    /// The peer proves that a packet arrived.
    fn handle_link_packet_proof(
        &mut self,
        link_id: [u8; 16],
        proof_data: &[u8],
        valid: bool,
        matches_channel: bool,
    )
        ensures
            final(self)@ == old(self)@.packet_proof_received(
                link_id,
                proof_data@,
                valid,
                matches_channel,
            ),
    {
        if proof_data.len() < 96 || !valid {
            return;
        }
        if matches_channel {
            self.effects.push(Effect::ProofRecorded { link_id });
            return;
        }
        let packet_hash = hash_from(proof_data, 0);
        self.notices.packet_proof(LinkPacketProof { link_id, packet_hash });
    }

    fn handle_lrrtt(&mut self, link_id: [u8; 16], hops: u8, accepted: bool) -> (r: bool)
        ensures
            final(self)@ == old(self)@.link_activated(link_id, hops, accepted),
            r == old(self)@.activates(link_id, accepted),
    {
        let mut link = match self.links.get(&link_id) {
            Some(link) => *link,
            None => {
                return false;
            },
        };
        if link.state != LinkState::Handshake || !accepted {
            return false;
        }
        // One more than the packet says: the delivered packet is unadjusted.
        let expected: u8 = if hops == 255 {
            255
        } else {
            hops + 1
        };
        link.state = LinkState::Active;
        link.expected_hops = Some(expected);
        self.links.insert(link_id, link);
        notify(&mut self.notices.link_established, link_id);
        true
    }

    fn handle_identify(
        &mut self,
        link_id: [u8; 16],
        identity: Option<[u8; 16]>,
        gate_accepts: bool,
        teardown: Option<Vec<u8>>,
    ) -> (r: bool)
        ensures
            r == (identity is Some && old(self)@.first_identification(link_id)),
            final(self)@ == old(self)@.identification_received(
                link_id,
                identity,
                gate_accepts,
                bytes_model(teardown),
            ),
    {
        let hash = match identity {
            Some(hash) => hash,
            None => {
                return false;
            },
        };
        let mut link = match self.links.get(&link_id) {
            Some(link) => *link,
            None => {
                return false;
            },
        };
        if link.identified {
            return false;
        }
        link.identified = true;
        link.remote_identity = Some(hash);
        self.links.insert(link_id, link);
        self.backchannel_links.insert(hash, link_id);
        self.link_identities.insert(link_id, hash);
        notify(&mut self.notices.link_identified, (link_id, hash));
        if self.settings.has_link_identity_gate && !gate_accepts {
            let _ = self.close_active_link_inner(
                link_id,
                CloseReason::InitiatorClosed,
                true,
                teardown,
                false,
            );
        }
        true
    }

    fn handle_keepalive(&mut self, link_id: [u8; 16], data: &[u8], respond: bool)
        ensures
            final(self)@ == old(self)@.keepalive_received(link_id, data@, respond),
    {
        let link = match self.links.get(&link_id) {
            Some(link) => *link,
            None => {
                return;
            },
        };
        if data.len() > 0 && data[0] == self.settings.constants.keepalive_request
            && !link.is_initiator && respond {
            let mut body: Vec<u8> = Vec::new();
            body.push(self.settings.constants.keepalive_response);
            assert(body@ =~= seq![self.settings.constants.keepalive_response]);
            self.send_packet_now(&link_id, PacketContext::Keepalive, body, false);
        }
    }

    fn send_link_packet_proof(&mut self, link_id: [u8; 16], context: PacketContext, proof: Vec<u8>) -> (r:
        bool)
        ensures
            final(self)@ == old(self)@.proof_staged(link_id, context, proof@),
            r == (present(old(self)@.links, link_id) && old(self)@.transport.retains(true)),
    {
        match self.links.get(&link_id) {
            Some(link) => {
                let role = link.endpoint_role();
                let packet = make_link_packet(link_id, PacketType::Proof, context, proof, false);
                self.send_control_packet(link_id, role, packet)
            },
            None => false,
        }
    }

    fn handle_channel_packet(
        &mut self,
        link_id: [u8; 16],
        delivery_proof: Option<Vec<u8>>,
        registered: bool,
    ) -> (r: bool)
        ensures
            final(self)@ == old(self)@.channel_packet_proved(
                link_id,
                bytes_model(delivery_proof),
                registered,
            ),
            r == old(self)@.channel_packet_taken(
                link_id,
                bytes_model(delivery_proof),
                registered,
            ),
    {
        proof {
            crate::assoc::lemma_find_put(
                self@.links,
                link_id,
                Link { has_channel: true, ..find(self@.links, link_id)->0 },
                link_id,
            );
        }
        let link = match self.links.get(&link_id) {
            Some(link) => *link,
            None => {
                return false;
            },
        };
        if !link.is_usable() {
            return false;
        }
        let mut open: bool = link.has_channel;
        if self.channel_message_types.len() > 0 {
            open = self.ensure_link_channel(&link_id, registered);
        }
        if !open {
            return false;
        }
        match delivery_proof {
            Some(proof_data) => self.send_link_packet_proof(
                link_id,
                PacketContext::Data,
                proof_data,
            ),
            None => false,
        }
    }

    /// Publishes what a channel made of a packet whose proof was retained.
    pub fn deliver_channel_messages(&mut self, link_id: [u8; 16], messages: Vec<(u16, Vec<u8>)>)
        ensures
            final(self)@ == old(self)@.channel_messages_delivered(link_id, messages@),
    {
        let ghost all = messages@;
        let mut rest = messages;
        let ghost mut n: int = 0;
        while rest.len() > 0
            invariant
                0 <= n <= all.len(),
                rest@ == all.skip(n),
                self@ == old(self)@.channel_messages_delivered(link_id, all.take(n)),
            decreases rest@.len(),
        {
            let (msg_type, payload) = rest.remove(0);
            proof {
                assert(all.take(n + 1).drop_last() =~= all.take(n));
                assert(all.take(n + 1).last() == all[n]);
                assert(rest@ =~= all.skip(n + 1));
                n = n + 1;
            }
            notify(
                &mut self.notices.channel_message,
                LinkChannelMessage { link_id, msg_type, payload },
            );
        }
        assert(all.take(n) =~= all);
    }

    fn handle_link_data(
        &mut self,
        link_id: [u8; 16],
        plaintext: Option<Vec<u8>>,
        delivery_proof: Option<Vec<u8>>,
    ) -> (r: bool)
        ensures
            r == old(self)@.publishes(
                link_id,
                bytes_model(plaintext),
                bytes_model(delivery_proof),
            ),
            final(self)@ == old(self)@.data_received(
                link_id,
                bytes_model(plaintext),
                bytes_model(delivery_proof),
            ),
    {
        if let Some(data) = plaintext {
            if let Some(proof_data) = delivery_proof {
                if self.send_link_packet_proof(link_id, PacketContext::LinkProof, proof_data) {
                    notify(&mut self.notices.link_packet, (data, link_id));
                    return true;
                }
            }
        }
        false
    }

    fn handle_offer(&mut self, link_id: [u8; 16], input: OfferInput)
        ensures
            final(self)@ == old(self)@.offer_received(link_id, input),
    {
        match input {
            OfferInput::Sealed => {},
            OfferInput::Malformed { teardown } => {
                let _ = self.close_active_link_inner(
                    link_id,
                    CloseReason::DestinationClosed,
                    true,
                    teardown,
                    false,
                );
            },
            OfferInput::Offer { adv, transfer, accepted } => {
                self.handle_advertisement(link_id, adv, transfer, accepted);
            },
        }
    }

    /// Deals with a packet that arrived on a Link. `input` is what the Link's own
    /// machinery made of it, in the form that its route calls for.
    pub fn handle_inbound_packet(
        &mut self,
        header: &PacketHeader,
        interface_id: u64,
        input: PacketInput,
    ) -> (r: FollowUp)
        ensures
            final(self)@ == old(self)@.packet_handled(*header, interface_id, input),
            r == old(self)@.follow_up(*header, interface_id, input),
    {
        let link_id = header.destination_hash;
        match (self.route_packet(header, interface_id), input) {
            (
                PacketRoute::PacketProof,
                PacketInput::PacketProof { data, valid, matches_channel },
            ) => {
                self.handle_link_packet_proof(link_id, data.as_slice(), valid, matches_channel);
                FollowUp::Nothing
            },
            (PacketRoute::Lrrtt, PacketInput::Lrrtt { accepted }) => {
                if self.handle_lrrtt(link_id, header.hops, accepted) {
                    FollowUp::Activated
                } else {
                    FollowUp::Nothing
                }
            },
            (
                PacketRoute::Identify,
                PacketInput::Identify { identity, gate_accepts, teardown },
            ) => {
                if self.handle_identify(link_id, identity, gate_accepts, teardown) {
                    FollowUp::Identified
                } else {
                    FollowUp::Nothing
                }
            },
            (PacketRoute::Keepalive, PacketInput::Keepalive { data, respond }) => {
                self.handle_keepalive(link_id, data.as_slice(), respond);
                FollowUp::Nothing
            },
            (PacketRoute::Close, PacketInput::Close { verified }) => {
                if verified {
                    let _ = self.drop_active_link(link_id, CloseReason::DestinationClosed);
                }
                FollowUp::Nothing
            },
            (PacketRoute::Channel, PacketInput::Channel { proof, registered }) => {
                if self.handle_channel_packet(link_id, proof, registered) {
                    FollowUp::ChannelData
                } else {
                    FollowUp::Nothing
                }
            },
            (PacketRoute::Advertisement, PacketInput::Advertisement(offer)) => {
                self.handle_offer(link_id, offer);
                FollowUp::Nothing
            },
            (PacketRoute::Part, PacketInput::Part { scan, transferred }) => {
                match self.handle_resource_part(link_id, scan, transferred) {
                    Some(segment) => FollowUp::CompleteSegment(segment),
                    None => FollowUp::Nothing,
                }
            },
            (
                PacketRoute::PartsRequest,
                PacketInput::PartsRequest { plaintext, actions, progress },
            ) => {
                if let Some(p) = plaintext {
                    self.handle_resource_req(link_id, p.as_slice(), actions, progress);
                }
                FollowUp::Nothing
            },
            (PacketRoute::SenderCancel, PacketInput::SenderCancel { plaintext }) => {
                if let Some(p) = plaintext {
                    self.handle_resource_icl(link_id, p.as_slice());
                }
                FollowUp::Nothing
            },
            (PacketRoute::ReceiverCancel, PacketInput::ReceiverCancel { plaintext }) => {
                if let Some(p) = plaintext {
                    self.handle_resource_rcl(link_id, p.as_slice());
                }
                FollowUp::Nothing
            },
            (PacketRoute::HashmapUpdate, PacketInput::HashmapUpdate { update }) => {
                if let Some((segment, action)) = update {
                    self.handle_resource_hmu(link_id, segment, action);
                }
                FollowUp::Nothing
            },
            (
                PacketRoute::ResourceProof,
                PacketInput::ResourceProof { data, complete, next_action },
            ) => {
                self.handle_resource_prf(link_id, data.as_slice(), complete, next_action);
                FollowUp::Nothing
            },
            (PacketRoute::Request, PacketInput::Request { parsed }) => match parsed {
                Some(request) => FollowUp::Dispatch(request),
                None => FollowUp::Nothing,
            },
            (PacketRoute::Response, PacketInput::Response { response }) => {
                if let Some((request_id, data)) = response {
                    notify(
                        &mut self.notices.response,
                        LinkResponse { link_id, request_id, data },
                    );
                }
                FollowUp::Nothing
            },
            (PacketRoute::Data, PacketInput::Data { plaintext, proof }) => {
                if self.handle_link_data(link_id, plaintext, proof) {
                    FollowUp::Published
                } else {
                    FollowUp::Nothing
                }
            },
            _ => FollowUp::Nothing,
        }
    }

    /// Whether the manager's identity signs the proof of a received packet: when the
    /// Link has no signer of its own and this end is the responder.
    pub fn identity_proves_packet(&self, link_id: &[u8; 16], signer_unavailable: bool) -> (r: bool)
        ensures
            r == (signer_unavailable && self@.settings.has_identity && (match find(
                self@.links,
                *link_id,
            ) {
                Some(link) => !link.is_initiator,
                None => false,
            })),
    {
        match self.links.get(link_id) {
            Some(link) => signer_unavailable && self.settings.has_identity && !link.is_initiator,
            None => false,
        }
    }
}

} // verus!
