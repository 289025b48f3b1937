//! A Link as the manager sees it, and what its transfers ask for.

use vstd::prelude::*;

use crate::wire::{
    hash_bytes, link_packet, make_link_packet, LinkEndpointRole, Packet, PacketContext, PacketType,
};

verus! {

#[derive(Debug, Clone, Copy, PartialEq, Eq, Structural)]
pub enum LinkState {
    Pending,
    Handshake,
    Active,
    Stale,
    Closed,
}

#[derive(Debug, Clone, Copy, PartialEq, Eq, Structural)]
pub enum CloseReason {
    Timeout,
    InitiatorClosed,
    DestinationClosed,
}

/// What the application wants of ordinary inbound Resources.
#[derive(Debug, Clone, Copy, PartialEq, Eq, Structural)]
pub enum ResourceStrategy {
    AcceptNone,
    AcceptApp,
    AcceptAll,
}

/// What the manager reads of a Link. Keys, timers and counters live outside.
#[derive(Debug, Clone, Copy)]
pub struct Link {
    pub state: LinkState,
    pub is_initiator: bool,
    /// The interface on which the Link was established. It never changes.
    pub interface_id: u64,
    /// The largest plaintext that one packet carries.
    pub mdu: usize,
    /// Whether packets can be encrypted for this Link.
    pub has_session_keys: bool,
    pub identified: bool,
    /// Hash of the identity that the peer proved, if it did.
    pub remote_identity: Option<[u8; 16]>,
    pub resource_strategy: ResourceStrategy,
    pub expected_hops: Option<u8>,
    /// Whether a channel is open on the Link.
    pub has_channel: bool,
}

impl Link {
    pub open spec fn role_model(self) -> LinkEndpointRole {
        if self.is_initiator {
            LinkEndpointRole::Initiator
        } else {
            LinkEndpointRole::Responder
        }
    }

    /// Whether the Link carries application traffic.
    pub open spec fn usable(self) -> bool {
        self.state is Active || self.state is Stale
    }

    /// The role in which this end's endpoint is bound.
    pub fn endpoint_role(&self) -> (r: LinkEndpointRole)
        ensures
            r == self.role_model(),
    {
        if self.is_initiator {
            LinkEndpointRole::Initiator
        } else {
            LinkEndpointRole::Responder
        }
    }

    pub fn is_usable(&self) -> (r: bool)
        ensures
            r == self.usable(),
    {
        match self.state {
            LinkState::Active | LinkState::Stale => true,
            _ => false,
        }
    }
}

#[derive(Debug, Clone, Copy, PartialEq, Eq, Structural)]
pub enum CancelType {
    /// By the sender.
    Icl,
    /// By the receiver.
    Rcl,
}

/// What a transfer asks for. `B` stands for bytes and `S` for text.
#[derive(Debug)]
pub enum TransferAction<B, S> {
    Nothing,
    SendAdvertisement(B),
    SendPart(usize, B),
    SendProof(B),
    SendHmu(B),
    SendRequest(B),
    SendCancel(CancelType, [u8; 32]),
    Complete,
    Failed(S),
}

pub type Action = TransferAction<Vec<u8>, String>;

pub type ActionModel = TransferAction<Seq<u8>, Seq<char>>;

impl View for TransferAction<Vec<u8>, String> {
    type V = TransferAction<Seq<u8>, Seq<char>>;

    open spec fn view(&self) -> TransferAction<Seq<u8>, Seq<char>> {
        match *self {
            TransferAction::Nothing => TransferAction::Nothing,
            TransferAction::SendAdvertisement(b) => TransferAction::SendAdvertisement(b@),
            TransferAction::SendPart(i, b) => TransferAction::SendPart(i, b@),
            TransferAction::SendProof(b) => TransferAction::SendProof(b@),
            TransferAction::SendHmu(b) => TransferAction::SendHmu(b@),
            TransferAction::SendRequest(b) => TransferAction::SendRequest(b@),
            TransferAction::SendCancel(t, h) => TransferAction::SendCancel(t, h),
            TransferAction::Complete => TransferAction::Complete,
            TransferAction::Failed(s) => TransferAction::Failed(s@),
        }
    }
}

/// The context of a packet that cancels a Resource.
pub open spec fn cancel_context(cancel_type: CancelType) -> PacketContext {
    match cancel_type {
        CancelType::Icl => PacketContext::ResourceIcl,
        CancelType::Rcl => PacketContext::ResourceRcl,
    }
}

/// The packet that carries out `action`, if it takes one. Parts and proofs ride
/// as they are; everything else is encrypted for the Link.
pub open spec fn action_packet(link_id: [u8; 16], action: ActionModel) -> Option<Packet<Seq<u8>>> {
    match action {
        TransferAction::SendAdvertisement(b) => Some(
            link_packet(link_id, PacketType::Data, PacketContext::ResourceAdv, b, true),
        ),
        TransferAction::SendPart(_, b) => Some(
            link_packet(link_id, PacketType::Data, PacketContext::Resource, b, false),
        ),
        TransferAction::SendProof(b) => Some(
            link_packet(link_id, PacketType::Proof, PacketContext::ResourcePrf, b, false),
        ),
        TransferAction::SendHmu(b) => Some(
            link_packet(link_id, PacketType::Data, PacketContext::ResourceHmu, b, true),
        ),
        TransferAction::SendRequest(b) => Some(
            link_packet(link_id, PacketType::Data, PacketContext::ResourceReq, b, true),
        ),
        TransferAction::SendCancel(t, hash) => Some(
            link_packet(link_id, PacketType::Data, cancel_context(t), hash@, true),
        ),
        _ => None,
    }
}

pub fn make_action_packet(link_id: [u8; 16], action: Action) -> (r: Option<Packet<Vec<u8>>>)
    ensures
        match r {
            Some(p) => action_packet(link_id, action@) == Some(p@),
            None => action_packet(link_id, action@) is None,
        },
{
    let (context, payload, seal, packet_type) = match action {
        TransferAction::SendAdvertisement(payload) => {
            (PacketContext::ResourceAdv, payload, true, PacketType::Data)
        },
        TransferAction::SendPart(_, payload) => {
            (PacketContext::Resource, payload, false, PacketType::Data)
        },
        TransferAction::SendProof(payload) => {
            (PacketContext::ResourcePrf, payload, false, PacketType::Proof)
        },
        TransferAction::SendHmu(payload) => {
            (PacketContext::ResourceHmu, payload, true, PacketType::Data)
        },
        TransferAction::SendRequest(payload) => {
            (PacketContext::ResourceReq, payload, true, PacketType::Data)
        },
        TransferAction::SendCancel(cancel_type, resource_hash) => {
            let context = match cancel_type {
                CancelType::Icl => PacketContext::ResourceIcl,
                CancelType::Rcl => PacketContext::ResourceRcl,
            };
            (context, hash_bytes(&resource_hash), true, PacketType::Data)
        },
        TransferAction::Nothing | TransferAction::Complete | TransferAction::Failed(_) => {
            return None;
        },
    };
    Some(make_link_packet(link_id, packet_type, context, payload, seal))
}

} // verus!
