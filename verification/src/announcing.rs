//! What the destination announces, proves and passes on.

use vstd::prelude::*;

use crate::deliveries::{open, took};
use crate::destination::DestinationControlError;
use crate::laws::announces_survive_saturation;
use crate::manager::{Destination, LinkManagerModel, Settings};
use crate::notices::NoticesModel;
use crate::transport::{TransportModel, MAX_PENDING_DESTINATION_ANNOUNCES};
use crate::wire::{
    DestinationType, Frame, MessageModel, PacketContext, PacketHeader, TransportMessage,
};

verus! {

/// Whether a message sends out bytes that are packed already, to this destination, on one
/// interface or on all.
pub open spec fn sends_raw(
    message: MessageModel,
    raw: Seq<u8>,
    destination: [u8; 16],
    interface: Option<u64>,
) -> bool {
    match (message, interface) {
        (
            TransportMessage::OutboundAttached { frame, destination_hash, interface_id },
            Some(only),
        ) => destination_hash == destination && interface_id == only && frame == Frame::Raw(raw),
        (TransportMessage::Outbound { frame, destination_hash }, None) => destination_hash
            == destination && frame == Frame::Raw(raw),
        _ => false,
    }
}

/// Whether a message sends out a proof with this body, to this destination, on this
/// interface.
pub open spec fn sends_proof(
    message: MessageModel,
    destination: [u8; 16],
    destination_type: DestinationType,
    context: PacketContext,
    body: Seq<u8>,
    interface: u64,
) -> bool {
    match message {
        TransportMessage::OutboundAttached {
            frame: Frame::Built(packet),
            destination_hash,
            interface_id,
        } => {
            &&& destination_hash == destination
            &&& interface_id == interface
            &&& packet.header.destination_hash == destination
            &&& packet.header.flags.destination_type == destination_type
            &&& packet.header.flags.packet_type is Proof
            &&& packet.header.context == context
            &&& packet.header.hops == 0
            &&& packet.header.transport_id is None
            &&& packet.body == body
            &&& !packet.seal
        },
        _ => false,
    }
}

/// What the port has taken, followed by the announces that wait.
pub open spec fn announced_so_far(m: LinkManagerModel) -> Seq<MessageModel> {
    m.transport.port.sent + m.transport.announces
}

/// Whether a ratchet may be advertised: with a ring of ratchets, the ring has one and the
/// caller names no other.
pub open spec fn ratchet_fits(
    settings: Settings,
    managed: Result<[u8; 32], String>,
    supplied: Option<[u8; 32]>,
) -> bool {
    settings.has_ratchets ==> managed is Ok && (supplied is None || supplied->0 == managed->Ok_0)
}

/// An announce that can be made goes out as it was packed, after all that wait before it,
/// to the destination's hash and on the interface that was asked for; the ring's ratchet is
/// advertised from then on, and nothing else changes.
pub proof fn announce_goes_out(
    m: LinkManagerModel,
    interface: Option<u64>,
    managed: Result<[u8; 32], String>,
    supplied: Option<[u8; 32]>,
    raw: Vec<u8>,
)
    requires
        m.settings.destination is Some,
        m.settings.has_identity,
        ratchet_fits(m.settings, managed, supplied),
        !m.transport.port.closed,
        m.transport.announces.len() < MAX_PENDING_DESTINATION_ANNOUNCES,
    ensures
        ({
            let s = m.announced(interface, managed, supplied, Ok(raw));
            let n = announced_so_far(m).len() as int;
            &&& m.announce_outcome(managed, supplied, Ok(raw)) is Ok
            &&& announced_so_far(s).len() == n + 1
            &&& announced_so_far(m).is_prefix_of(announced_so_far(s))
            &&& sends_raw(
                announced_so_far(s)[n],
                raw@,
                m.settings.destination_hash,
                interface,
            )
            &&& s.settings.destination == Some(
                Destination {
                    local_ratchet: if m.settings.has_ratchets {
                        Some(managed->Ok_0)
                    } else {
                        (m.settings.destination->0).local_ratchet
                    },
                    ..m.settings.destination->0
                },
            )
            &&& s == (LinkManagerModel {
                transport: TransportModel {
                    port: s.transport.port,
                    announces: s.transport.announces,
                    replies: s.transport.replies,
                    ..m.transport
                },
                settings: Settings { destination: s.settings.destination, ..m.settings },
                ..m
            })
        }),
{
    let s = m.announced(interface, managed, supplied, Ok(raw));
    let message: MessageModel = match interface {
        Some(interface_id) => TransportMessage::OutboundAttached {
            frame: Frame::Raw(raw@),
            destination_hash: m.settings.destination_hash,
            interface_id,
        },
        None => TransportMessage::Outbound {
            frame: Frame::Raw(raw@),
            destination_hash: m.settings.destination_hash,
        },
    };
    announces_survive_saturation(m.transport, message);
    assert(s.transport == m.transport.announce_queued(message));
    assert(announced_so_far(s) == announced_so_far(m).push(message));
}

/// Why nothing is announced, in this order: there is no destination, no identity signs for
/// it, its ring of ratchets cannot be kept, the caller names another ratchet, the
/// destination refuses, or the transport takes nothing more.
pub proof fn announce_refusals(
    m: LinkManagerModel,
    interface: Option<u64>,
    managed: Result<[u8; 32], String>,
    supplied: Option<[u8; 32]>,
    raw: Result<Vec<u8>, String>,
)
    ensures
        ({
            let r = m.announce_outcome(managed, supplied, raw);
            let owned = m.settings.destination is Some;
            let able = owned && m.settings.has_identity;
            let ring = m.settings.has_ratchets;
            let kept = able && (ring ==> managed is Ok);
            let made = able && ratchet_fits(m.settings, managed, supplied);
            let full = m.transport.announces.len() >= MAX_PENDING_DESTINATION_ANNOUNCES || (
            m.transport.announces.len() == 0 && m.transport.port.closed);
            &&& r == Err::<(), _>(DestinationControlError::DestinationUnavailable) <==> !owned
            &&& r == Err::<(), _>(DestinationControlError::IdentityUnavailable) <==> owned && !able
            &&& able && !kept ==> r == Err::<(), _>(
                DestinationControlError::RatchetPersistence(managed->Err_0),
            )
            &&& r == Err::<(), _>(DestinationControlError::ManagedRatchetMismatch) <==> kept
                && !made
            &&& made && raw is Err ==> r == Err::<(), _>(
                DestinationControlError::Destination(raw->Err_0),
            )
            &&& r == Err::<(), _>(DestinationControlError::TransportUnavailable) <==> made
                && raw is Ok && full
            &&& r is Ok <==> made && raw is Ok && !full
            &&& !made ==> m.announced(interface, managed, supplied, raw) == m
        }),
{
}

/// A packet that is not for a Link is passed on as it came. It is proved only if it is data
/// for the owned destination, which has an identity and has taken it in: then exactly its
/// proof goes out, to where the proof is due, on the interface on which the packet came.
pub proof fn destination_packet_is_passed_on(
    m: LinkManagerModel,
    raw: Vec<u8>,
    header: PacketHeader,
    interface_id: u64,
    taken: bool,
    proof_data: Vec<u8>,
    proof_destination: [u8; 16],
)
    requires
        open(m.transport.port),
    ensures
        ({
            let ours = match m.settings.destination {
                Some(d) => header.destination_hash == d.hash
                    && header.flags.destination_type is Single,
                None => false,
            };
            let due = ours && taken && m.settings.has_identity && header.flags.packet_type is Data;
            let s = m.destination_packet_received(
                raw,
                interface_id,
                m.retained_proof(header, taken, Some((proof_data, proof_destination))),
            );
            let n = m.transport.port.sent.len();
            &&& took(m.notices.inbound_raw, s.notices.inbound_raw, raw@)
            &&& s.notices == (NoticesModel { inbound_raw: s.notices.inbound_raw, ..m.notices })
            &&& !due ==> s.transport == m.transport
            &&& due ==> {
                &&& s.transport.port.sent.len() == n + 1
                &&& m.transport.port.sent.is_prefix_of(s.transport.port.sent)
                &&& sends_proof(
                    s.transport.port.sent[n as int],
                    proof_destination,
                    DestinationType::Single,
                    PacketContext::Data,
                    proof_data@,
                    interface_id,
                )
            }
            &&& m.retained_proof(header, taken, None) is None
            &&& s == (LinkManagerModel { transport: s.transport, notices: s.notices, ..m })
        }),
{
}

/// Taking in a ring of ratchets makes its current one the one that is advertised, and what
/// is encrypted to none is taken in or not as was asked for.
pub proof fn ratchets_are_taken_in(m: LinkManagerModel, enforce: bool, current: [u8; 32])
    ensures
        ({
            let s = m.ratchets_enabled(enforce, current);
            &&& s.settings.has_ratchets
            &&& match m.settings.destination {
                Some(d) => s.settings.destination is Some && {
                    let now = s.settings.destination->0;
                    &&& now.local_ratchet == Some(current)
                    &&& now.enforces_ratchets == enforce
                    &&& now.hash == d.hash
                    &&& now.accept_link_requests == d.accept_link_requests
                },
                None => s.settings.destination is None,
            }
            &&& s == (LinkManagerModel {
                settings: Settings {
                    has_ratchets: true,
                    destination: s.settings.destination,
                    ..m.settings
                },
                ..m
            })
        }),
{
}

/// Whether Links are accepted is what was last said of it, and the data that announces
/// carry by default what was last given; without a destination nothing is kept.
pub proof fn destination_settings_are_kept(
    m: LinkManagerModel,
    accepts: bool,
    app_data: Option<Seq<u8>>,
)
    ensures
        ({
            let s = m.accepting_links(accepts);
            let t = m.with_default_app_data(app_data);
            if m.settings.destination is Some {
                &&& s.settings.destination is Some
                &&& (s.settings.destination->0).accept_link_requests == accepts
                &&& (s.settings.destination->0).hash == (m.settings.destination->0).hash
                &&& (s.settings.destination->0).local_ratchet == (
                m.settings.destination->0).local_ratchet
                &&& (s.settings.destination->0).enforces_ratchets == (
                m.settings.destination->0).enforces_ratchets
                &&& s.default_app_data == m.default_app_data
                &&& t.default_app_data == app_data
                &&& t.settings == m.settings
                &&& m.destination_outcome() is Ok
            } else {
                &&& s == m
                &&& t == m
                &&& m.destination_outcome() == Err::<(), _>(
                    DestinationControlError::DestinationUnavailable,
                )
            }
        }),
{
}

} // verus!
