//! Packets and transport requests as plain values.
//!
//! The byte layout of a packet header, and the encryption of a packet body, are
//! the transport's business. The library says which header a packet has, what
//! its body is, and whether the body is to be encrypted with the Link's session
//! keys before it goes out.

use vstd::prelude::*;

verus! {

#[derive(Debug, Clone, Copy, PartialEq, Eq, Structural)]
pub enum HeaderType {
    Header1,
    Header2,
}

#[derive(Debug, Clone, Copy, PartialEq, Eq, Structural)]
pub enum TransportType {
    Broadcast,
    Transport,
}

#[derive(Debug, Clone, Copy, PartialEq, Eq, Structural)]
pub enum DestinationType {
    Single,
    Group,
    Plain,
    Link,
}

#[derive(Debug, Clone, Copy, PartialEq, Eq, Structural)]
pub enum PacketType {
    Data,
    Announce,
    LinkRequest,
    Proof,
}

#[derive(Debug, Clone, Copy, PartialEq, Eq, Structural)]
pub enum PacketContext {
    /// No particular context: application data, or a proof of it.
    Data,
    Resource,
    ResourceAdv,
    ResourceReq,
    ResourceHmu,
    ResourcePrf,
    ResourceIcl,
    ResourceRcl,
    Request,
    Response,
    PathResponse,
    Channel,
    Keepalive,
    LinkIdentify,
    LinkClose,
    LinkProof,
    Lrrtt,
    Lrproof,
    /// Any context that the library does not tell apart.
    Other,
}

#[derive(Debug, Clone, Copy, PartialEq, Eq, Structural)]
pub struct PacketFlags {
    pub header_type: HeaderType,
    pub context_flag: bool,
    pub transport_type: TransportType,
    pub destination_type: DestinationType,
    pub packet_type: PacketType,
}

#[derive(Debug, Clone, Copy)]
pub struct PacketHeader {
    pub flags: PacketFlags,
    pub hops: u8,
    pub transport_id: Option<[u8; 16]>,
    pub destination_hash: [u8; 16],
    pub context: PacketContext,
}

/// A packet at its origin: its header, its body, and whether the body is
/// plaintext that is to be encrypted for the Link first.
#[derive(Debug)]
pub struct Packet<B> {
    pub header: PacketHeader,
    pub body: B,
    pub seal: bool,
}

/// What goes out through the transport: a packet, or bytes that are packed already.
#[derive(Debug)]
pub enum Frame<B> {
    Raw(B),
    Built(Packet<B>),
}

/// Which end of a Link an endpoint is.
#[derive(Debug, Clone, Copy, PartialEq, Eq, Structural)]
pub enum LinkEndpointRole {
    Initiator,
    Responder,
}

#[derive(Debug, Clone, Copy)]
pub struct LinkEndpointBinding {
    pub link_id: [u8; 16],
    pub interface_id: u64,
    pub role: LinkEndpointRole,
}

#[derive(Debug, Clone, Copy, PartialEq, Eq, Structural)]
pub enum LinkEndpointBindResult {
    Bound,
    AlreadyBound,
    Conflict { interface_id: u64, role: LinkEndpointRole },
    InterfaceUnavailable,
}

#[derive(Debug, Clone, Copy, PartialEq, Eq, Structural)]
pub enum LinkEndpointUnbindResult {
    Unbound,
    NotBound,
    RoleMismatch,
}

#[derive(Debug, Clone, Copy, PartialEq, Eq, Structural)]
pub enum LinkEndpointTerminalReason {
    InterfaceRemoved,
    Unbound,
    TransportShutdown,
}

#[derive(Debug, Clone, Copy, PartialEq, Eq, Structural)]
pub enum LinkEndpointSendResult {
    Sent,
    Queued { depth: usize },
    NotBound,
    RoleMismatch,
    DroppedBackpressure,
    InvalidPacket,
    Terminated(LinkEndpointTerminalReason),
}

/// An endpoint came to its end.
#[derive(Debug, Clone, Copy)]
pub struct LinkEndpointLifecycleEvent {
    pub binding: LinkEndpointBinding,
    pub reason: LinkEndpointTerminalReason,
    pub dropped_packets: usize,
}

/// A request to the transport. `B` stands for bytes and `S` for text: `Vec<u8>`
/// and `String` in executable code, sequences in the model. A request with a
/// ticket is answered, and the answer names the ticket.
#[derive(Debug)]
pub enum TransportMessage<B, S> {
    BindLinkEndpoint { binding: LinkEndpointBinding, ticket: u64 },
    UnbindLinkEndpoint { link_id: [u8; 16], role: LinkEndpointRole, ticket: u64 },
    RegisterLink {
        link_id: [u8; 16],
        destination_hash: [u8; 16],
        interface_id: u64,
        next_hop: Option<[u8; 16]>,
        remaining_hops: u8,
        initiator: bool,
    },
    RegisterDestination { hash: [u8; 16], app_name: S },
    DeregisterDestination { hash: [u8; 16] },
    Outbound { frame: Frame<B>, destination_hash: [u8; 16] },
    OutboundAttached { frame: Frame<B>, destination_hash: [u8; 16], interface_id: u64 },
    SendLinkEndpoint { link_id: [u8; 16], role: LinkEndpointRole, packet: Packet<B>, ticket: u64 },
    SendLinkEndpointAndUnbind {
        link_id: [u8; 16],
        role: LinkEndpointRole,
        packet: Packet<B>,
        ticket: u64,
    },
    /// Asks whether a path is known. The answer is an ordering barrier: it comes
    /// after everything that was requested before.
    HasPath { dest: [u8; 16], ticket: u64 },
}

pub type Message = TransportMessage<Vec<u8>, String>;

pub type MessageModel = TransportMessage<Seq<u8>, Seq<char>>;

impl View for Packet<Vec<u8>> {
    type V = Packet<Seq<u8>>;

    open spec fn view(&self) -> Packet<Seq<u8>> {
        Packet { header: self.header, body: self.body@, seal: self.seal }
    }
}

impl View for Frame<Vec<u8>> {
    type V = Frame<Seq<u8>>;

    open spec fn view(&self) -> Frame<Seq<u8>> {
        match *self {
            Frame::Raw(b) => Frame::Raw(b@),
            Frame::Built(p) => Frame::Built(p@),
        }
    }
}

impl View for TransportMessage<Vec<u8>, String> {
    type V = TransportMessage<Seq<u8>, Seq<char>>;

    open spec fn view(&self) -> TransportMessage<Seq<u8>, Seq<char>> {
        match *self {
            TransportMessage::BindLinkEndpoint { binding, ticket } => {
                TransportMessage::BindLinkEndpoint { binding, ticket }
            },
            TransportMessage::UnbindLinkEndpoint { link_id, role, ticket } => {
                TransportMessage::UnbindLinkEndpoint { link_id, role, ticket }
            },
            TransportMessage::RegisterLink {
                link_id,
                destination_hash,
                interface_id,
                next_hop,
                remaining_hops,
                initiator,
            } => TransportMessage::RegisterLink {
                link_id,
                destination_hash,
                interface_id,
                next_hop,
                remaining_hops,
                initiator,
            },
            TransportMessage::RegisterDestination { hash, app_name } => {
                TransportMessage::RegisterDestination { hash, app_name: app_name@ }
            },
            TransportMessage::DeregisterDestination { hash } => {
                TransportMessage::DeregisterDestination { hash }
            },
            TransportMessage::Outbound { frame, destination_hash } => {
                TransportMessage::Outbound { frame: frame@, destination_hash }
            },
            TransportMessage::OutboundAttached { frame, destination_hash, interface_id } => {
                TransportMessage::OutboundAttached { frame: frame@, destination_hash, interface_id }
            },
            TransportMessage::SendLinkEndpoint { link_id, role, packet, ticket } => {
                TransportMessage::SendLinkEndpoint { link_id, role, packet: packet@, ticket }
            },
            TransportMessage::SendLinkEndpointAndUnbind { link_id, role, packet, ticket } => {
                TransportMessage::SendLinkEndpointAndUnbind {
                    link_id,
                    role,
                    packet: packet@,
                    ticket,
                }
            },
            TransportMessage::HasPath { dest, ticket } => TransportMessage::HasPath { dest, ticket },
        }
    }
}

/// The header of a packet that originates here.
pub open spec fn origin_header(
    destination_type: DestinationType,
    packet_type: PacketType,
    destination_hash: [u8; 16],
    context: PacketContext,
) -> PacketHeader {
    PacketHeader {
        flags: PacketFlags {
            header_type: HeaderType::Header1,
            context_flag: false,
            transport_type: TransportType::Broadcast,
            destination_type,
            packet_type,
        },
        hops: 0,
        transport_id: None,
        destination_hash,
        context,
    }
}

/// A packet that this end sends on a Link.
pub open spec fn link_packet<B>(
    link_id: [u8; 16],
    packet_type: PacketType,
    context: PacketContext,
    body: B,
    seal: bool,
) -> Packet<B> {
    Packet {
        header: origin_header(DestinationType::Link, packet_type, link_id, context),
        body,
        seal,
    }
}

pub fn make_header(
    destination_type: DestinationType,
    packet_type: PacketType,
    destination_hash: [u8; 16],
    context: PacketContext,
) -> (r: PacketHeader)
    ensures
        r == origin_header(destination_type, packet_type, destination_hash, context),
{
    PacketHeader {
        flags: PacketFlags {
            header_type: HeaderType::Header1,
            context_flag: false,
            transport_type: TransportType::Broadcast,
            destination_type,
            packet_type,
        },
        hops: 0,
        transport_id: None,
        destination_hash,
        context,
    }
}

pub fn make_link_packet(
    link_id: [u8; 16],
    packet_type: PacketType,
    context: PacketContext,
    body: Vec<u8>,
    seal: bool,
) -> (r: Packet<Vec<u8>>)
    ensures
        r@ == link_packet(link_id, packet_type, context, body@, seal),
{
    Packet {
        header: make_header(DestinationType::Link, packet_type, link_id, context),
        body,
        seal,
    }
}

/// A data packet on a Link whose body is complete already.
pub fn build_link_data_packet(link_id: [u8; 16], context: PacketContext, data: &[u8]) -> (r: Packet<
    Vec<u8>,
>)
    ensures
        r@ == link_packet(link_id, PacketType::Data, context, data@, false),
{
    make_link_packet(link_id, PacketType::Data, context, copy_bytes(data), false)
}

/// An owned copy of `data`.
pub fn copy_bytes(data: &[u8]) -> (r: Vec<u8>)
    ensures
        r@ == data@,
{
    let mut out: Vec<u8> = Vec::new();
    let mut i: usize = 0;
    while i < data.len()
        invariant
            i <= data.len(),
            out@ == data@.take(i as int),
        decreases data.len() - i,
    {
        out.push(data[i]);
        i = i + 1;
        assert(out@ =~= data@.take(i as int));
    }
    assert(out@ =~= data@);
    out
}

/// The bytes of a Resource hash.
pub fn hash_bytes(hash: &[u8; 32]) -> (r: Vec<u8>)
    ensures
        r@ == hash@,
{
    copy_bytes(hash.as_slice())
}

/// The 32 bytes of `data` from `start` on.
pub fn read_hash(data: &[u8], start: usize) -> (r: [u8; 32])
    requires
        start + 32 <= data@.len(),
    ensures
        r@ == data@.subrange(start as int, start + 32),
{
    let n: usize = data.len();
    let mut out: [u8; 32] = [0u8; 32];
    let mut i: usize = 0;
    while i < 32
        invariant
            i <= 32,
            n == data@.len(),
            start + 32 <= n,
            forall|j: int| 0 <= j < i ==> out@[j] == data@[start + j],
        decreases 32 - i,
    {
        out[i] = data[start + i];
        i = i + 1;
    }
    assert(out@ =~= data@.subrange(start as int, start + 32));
    out
}

/// Whether two byte strings are the same.
pub fn same_data(a: &[u8], b: &[u8]) -> (r: bool)
    ensures
        r == (a@ == b@),
{
    if a.len() != b.len() {
        return false;
    }
    let mut i: usize = 0;
    while i < a.len()
        invariant
            i <= a.len(),
            a@.len() == b@.len(),
            forall|j: int| 0 <= j < i ==> a@[j] == b@[j],
        decreases a.len() - i,
    {
        if a[i] != b[i] {
            return false;
        }
        i = i + 1;
    }
    assert(a@ =~= b@);
    true
}

/// Whether two bindings are the same.
pub fn same_binding(a: &LinkEndpointBinding, b: &LinkEndpointBinding) -> (r: bool)
    ensures
        r == (*a == *b),
{
    crate::assoc::same_bytes(&a.link_id, &b.link_id) && a.interface_id == b.interface_id && a.role
        == b.role
}

} // verus!
