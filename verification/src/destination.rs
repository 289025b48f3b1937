//! The owned destination: its announces, and the packets that are for it rather than
//! for a Link.

use vstd::prelude::*;

use crate::assoc::same_bytes;
use crate::events::{bytes_model, copy_optional};
use crate::manager::{Destination, LinkManager, LinkManagerModel, Settings};
use crate::notices::NoticesModel;
use crate::port::{notify, offered, Port};
use crate::text::worded;
use crate::wire::{
    make_header, origin_header, DestinationType, Frame, Message, MessageModel, Packet,
    PacketContext, PacketHeader, PacketType, TransportMessage,
};

verus! {

#[derive(Debug)]
pub enum DestinationControlError {
    DestinationUnavailable,
    IdentityUnavailable,
    /// The destination refused, in words.
    Destination(String),
    /// The ring of ratchets could not be kept, in words.
    RatchetPersistence(String),
    ManagedRatchetMismatch,
    TransportUnavailable,
}

impl DestinationControlError {
    /// The error in words.
    pub fn message(&self) -> (r: String)
        ensures
            r@ == (match self {
                DestinationControlError::DestinationUnavailable => {
                    "link manager does not own a destination"@
                },
                DestinationControlError::IdentityUnavailable => {
                    "link manager does not own a signing identity"@
                },
                DestinationControlError::Destination(why) => {
                    "destination operation failed: "@ + why@
                },
                DestinationControlError::RatchetPersistence(why) => {
                    "destination ratchet persistence failed: "@ + why@
                },
                DestinationControlError::ManagedRatchetMismatch => {
                    "caller-supplied announce ratchet does not match the managed ring"@
                },
                DestinationControlError::TransportUnavailable => {
                    "transport channel is full or closed"@
                },
            }),
    {
        match self {
            DestinationControlError::DestinationUnavailable => {
                "link manager does not own a destination".to_owned()
            },
            DestinationControlError::IdentityUnavailable => {
                "link manager does not own a signing identity".to_owned()
            },
            DestinationControlError::Destination(why) => worded(
                "destination operation failed: ",
                why.as_str(),
            ),
            DestinationControlError::RatchetPersistence(why) => worded(
                "destination ratchet persistence failed: ",
                why.as_str(),
            ),
            DestinationControlError::ManagedRatchetMismatch => {
                "caller-supplied announce ratchet does not match the managed ring".to_owned()
            },
            DestinationControlError::TransportUnavailable => {
                "transport channel is full or closed".to_owned()
            },
        }
    }
}

/// What is to be announced, beyond the destination itself.
#[derive(Debug)]
pub struct DestinationAnnounceOptions {
    pub app_data: Option<Vec<u8>>,
    pub path_response: bool,
    pub attached_interface: Option<u64>,
    pub tag: Option<Vec<u8>>,
    /// Public ratchet key to advertise, when the caller manages a ratchet ring.
    pub ratchet: Option<[u8; 32]>,
}

impl DestinationAnnounceOptions {
    /// A plain announce on every interface.
    pub fn plain() -> (r: Self)
        ensures
            r == (DestinationAnnounceOptions {
                app_data: None,
                path_response: false,
                attached_interface: None,
                tag: None,
                ratchet: None,
            }),
    {
        DestinationAnnounceOptions {
            app_data: None,
            path_response: false,
            attached_interface: None,
            tag: None,
            ratchet: None,
        }
    }
}

/// The request that sends an announce: on one interface, or on all.
pub open spec fn announce_message(
    raw: Seq<u8>,
    destination_hash: [u8; 16],
    attached_interface: Option<u64>,
) -> MessageModel {
    match attached_interface {
        Some(interface_id) => TransportMessage::OutboundAttached {
            frame: Frame::Raw(raw),
            destination_hash,
            interface_id,
        },
        None => TransportMessage::Outbound { frame: Frame::Raw(raw), destination_hash },
    }
}

/// The proof that a packet for the destination arrived.
pub open spec fn destination_proof(
    proof_data: Seq<u8>,
    proof_destination: [u8; 16],
    interface_id: u64,
) -> MessageModel {
    TransportMessage::OutboundAttached {
        frame: Frame::Built(
            Packet {
                header: origin_header(
                    DestinationType::Single,
                    PacketType::Proof,
                    proof_destination,
                    PacketContext::Data,
                ),
                body: proof_data,
                seal: false,
            },
        ),
        destination_hash: proof_destination,
        interface_id,
    }
}

/// Which ratchet an announce advertises: the managed one if there is a ring, which a
/// supplied one must then be; else the supplied one.
pub fn announce_ratchet(managed: Option<[u8; 32]>, supplied: Option<[u8; 32]>) -> (r: Result<
    Option<[u8; 32]>,
    DestinationControlError,
>)
    ensures
        match managed {
            Some(current) => if supplied is Some && supplied != managed {
                r == Err::<Option<[u8; 32]>, DestinationControlError>(
                    DestinationControlError::ManagedRatchetMismatch,
                )
            } else {
                r == Ok::<Option<[u8; 32]>, DestinationControlError>(Some(current))
            },
            None => r == Ok::<Option<[u8; 32]>, DestinationControlError>(supplied),
        },
{
    match managed {
        Some(current) => {
            if let Some(other) = supplied {
                if !same_bytes(&other, &current) {
                    return Err(DestinationControlError::ManagedRatchetMismatch);
                }
            }
            Ok(Some(current))
        },
        None => Ok(supplied),
    }
}

/// Whether an identity can sign: with a private key of its own, or through a backend.
pub fn identity_can_sign(has_private_key: bool, has_backend: bool) -> (r: bool)
    ensures
        r == (has_private_key || has_backend),
{
    has_private_key || has_backend
}

/// The ratchet that the ring gives for an announce, or why it gives none.
pub open spec fn ring_error(
    settings: Settings,
    managed: Result<[u8; 32], String>,
) -> Option<DestinationControlError> {
    if settings.has_ratchets {
        match managed {
            Err(error) => Some(DestinationControlError::RatchetPersistence(error)),
            Ok(_) => None,
        }
    } else {
        None
    }
}

impl LinkManagerModel {
    /// Why nothing can be announced.
    pub open spec fn announce_blocked(self) -> Option<DestinationControlError> {
        if self.settings.destination is None {
            Some(DestinationControlError::DestinationUnavailable)
        } else if !self.settings.has_identity {
            Some(DestinationControlError::IdentityUnavailable)
        } else {
            None
        }
    }

    /// Why an announce is not made: nothing can be announced, the ring of ratchets cannot
    /// be kept, or the caller's ratchet is not the ring's.
    pub open spec fn announce_refused(
        self,
        managed: Result<[u8; 32], String>,
        supplied: Option<[u8; 32]>,
    ) -> Option<DestinationControlError> {
        if self.announce_blocked() is Some {
            self.announce_blocked()
        } else if ring_error(self.settings, managed) is Some {
            ring_error(self.settings, managed)
        } else if self.settings.has_ratchets && supplied is Some && supplied != Some(
            managed->Ok_0,
        ) {
            Some(DestinationControlError::ManagedRatchetMismatch)
        } else {
            None
        }
    }

    /// Why an announce does not get as far as the transport: it is not made, or the
    /// destination refuses.
    pub open spec fn announce_error(
        self,
        managed: Result<[u8; 32], String>,
        supplied: Option<[u8; 32]>,
        raw: Result<Vec<u8>, String>,
    ) -> Option<DestinationControlError> {
        if self.announce_refused(managed, supplied) is Some {
            self.announce_refused(managed, supplied)
        } else {
            match raw {
                Err(error) => Some(DestinationControlError::Destination(error)),
                Ok(_) => None,
            }
        }
    }

    /// The destination with this ratchet to advertise.
    pub open spec fn advertising(self, ratchet: [u8; 32]) -> Self {
        match self.settings.destination {
            Some(destination) => LinkManagerModel {
                settings: Settings {
                    destination: Some(
                        Destination { local_ratchet: Some(ratchet), ..destination },
                    ),
                    ..self.settings
                },
                ..self
            },
            None => self,
        }
    }

    /// What announcing gives.
    pub open spec fn announce_outcome(
        self,
        managed: Result<[u8; 32], String>,
        supplied: Option<[u8; 32]>,
        raw: Result<Vec<u8>, String>,
    ) -> Result<(), DestinationControlError> {
        match self.announce_error(managed, supplied, raw) {
            Some(error) => Err(error),
            None => if self.transport.takes_announce() {
                Ok(())
            } else {
                Err(DestinationControlError::TransportUnavailable)
            },
        }
    }

    /// The state after an announce. The ring's ratchet is advertised from then on, even if
    /// the destination refuses the announce itself.
    pub open spec fn announced(
        self,
        attached_interface: Option<u64>,
        managed: Result<[u8; 32], String>,
        supplied: Option<[u8; 32]>,
        raw: Result<Vec<u8>, String>,
    ) -> Self {
        if self.announce_refused(managed, supplied) is Some {
            self
        } else {
            let s = if self.settings.has_ratchets {
                self.advertising(managed->Ok_0)
            } else {
                self
            };
            match raw {
                Err(_) => s,
                Ok(bytes) => s.with_transport(
                    s.transport.announce_queued(
                        announce_message(
                            bytes@,
                            s.settings.destination_hash,
                            attached_interface,
                        ),
                    ),
                ),
            }
        }
    }

    /// The state once a ring of ratchets with this current ratchet was taken in.
    pub open spec fn ratchets_enabled(self, enforce: bool, current: [u8; 32]) -> Self {
        LinkManagerModel {
            settings: Settings {
                has_ratchets: true,
                destination: match self.settings.destination {
                    Some(destination) => Some(
                        Destination {
                            enforces_ratchets: enforce,
                            local_ratchet: Some(current),
                            ..destination
                        },
                    ),
                    None => None,
                },
                ..self.settings
            },
            ..self
        }
    }

    /// Whether a packet is for the owned destination.
    pub open spec fn for_destination(self, header: PacketHeader) -> bool {
        match self.settings.destination {
            Some(destination) => header.destination_hash == destination.hash
                && header.flags.destination_type is Single,
            None => false,
        }
    }

    /// The proof that goes out for a packet that is not for a Link: only for data that
    /// the destination has taken in.
    pub open spec fn retained_proof(
        self,
        header: PacketHeader,
        taken: bool,
        delivery_proof: Option<(Vec<u8>, [u8; 16])>,
    ) -> Option<(Seq<u8>, [u8; 16])> {
        if self.settings.has_identity && self.for_destination(header) && taken
            && header.flags.packet_type is Data {
            match delivery_proof {
                Some((data, destination)) => Some((data@, destination)),
                None => None,
            }
        } else {
            None
        }
    }

    /// A packet that is not for a Link: proved, if it was taken in and is to be proved,
    /// and passed on as it came.
    pub open spec fn destination_packet_received(
        self,
        raw: Vec<u8>,
        interface_id: u64,
        delivery_proof: Option<(Seq<u8>, [u8; 16])>,
    ) -> Self {
        let transport = match delivery_proof {
            Some((proof_data, proof_destination)) => self.transport.tried(
                destination_proof(proof_data, proof_destination, interface_id),
            ),
            None => self.transport,
        };
        LinkManagerModel {
            transport,
            notices: NoticesModel {
                inbound_raw: offered(self.notices.inbound_raw, raw@),
                ..self.notices
            },
            ..self
        }
    }
}

impl LinkManager {
    /// Why nothing can be announced.
    pub fn check_announce(&self) -> (r: Result<(), DestinationControlError>)
        ensures
            match self@.announce_blocked() {
                Some(error) => r == Err::<(), DestinationControlError>(error),
                None => r == Ok::<(), DestinationControlError>(()),
            },
    {
        if self.settings.destination.is_none() {
            return Err(DestinationControlError::DestinationUnavailable);
        }
        if !self.settings.has_identity {
            return Err(DestinationControlError::IdentityUnavailable);
        }
        Ok(())
    }

    fn advertise_ratchet(&mut self, ratchet: [u8; 32])
        ensures
            final(self)@ == old(self)@.advertising(ratchet),
    {
        if let Some(destination) = self.settings.destination {
            self.settings.destination = Some(
                Destination { local_ratchet: Some(ratchet), ..destination },
            );
        }
    }

    /// Sends an announce of the owned destination. `managed` is the current ratchet of
    /// the manager's ring, `supplied` the caller's, and `raw` the signed announce.
    pub fn send_destination_announce(
        &mut self,
        attached_interface: Option<u64>,
        managed: Result<[u8; 32], String>,
        supplied: Option<[u8; 32]>,
        raw: Result<Vec<u8>, String>,
    ) -> (r: Result<(), DestinationControlError>)
        ensures
            r == old(self)@.announce_outcome(managed, supplied, raw),
            final(self)@ == old(self)@.announced(attached_interface, managed, supplied, raw),
    {
        if let Err(error) = self.check_announce() {
            return Err(error);
        }
        let ring: Option<[u8; 32]> = if self.settings.has_ratchets {
            match managed {
                Ok(current) => Some(current),
                Err(error) => {
                    return Err(DestinationControlError::RatchetPersistence(error));
                },
            }
        } else {
            None
        };
        if let Err(error) = announce_ratchet(ring, supplied) {
            return Err(error);
        }
        if let Some(current) = ring {
            self.advertise_ratchet(current);
        }
        let bytes = match raw {
            Ok(bytes) => bytes,
            Err(error) => {
                return Err(DestinationControlError::Destination(error));
            },
        };
        let destination_hash = self.settings.destination_hash;
        let message: Message = match attached_interface {
            Some(interface_id) => TransportMessage::OutboundAttached {
                frame: Frame::Raw(bytes),
                destination_hash,
                interface_id,
            },
            None => TransportMessage::Outbound { frame: Frame::Raw(bytes), destination_hash },
        };
        if self.transport.queue_destination_announce(message) {
            Ok(())
        } else {
            Err(DestinationControlError::TransportUnavailable)
        }
    }

    /// Takes in a ring of ratchets for the owned destination, which advertises the ring's
    /// current ratchet from then on and, with `enforce`, takes in nothing that is not
    /// encrypted to a ratchet. `opened` is the current ratchet of the ring, which is
    /// persisted by then, or why the ring could not be opened or kept.
    pub fn enable_persistent_ratchets(
        &mut self,
        enforce: bool,
        opened: Result<[u8; 32], String>,
    ) -> (r: Result<[u8; 32], DestinationControlError>)
        ensures
            if !old(self)@.settings.has_identity {
                &&& r == Err::<[u8; 32], DestinationControlError>(
                    DestinationControlError::IdentityUnavailable,
                )
                &&& final(self)@ == old(self)@
            } else if old(self)@.settings.destination is None {
                &&& r == Err::<[u8; 32], DestinationControlError>(
                    DestinationControlError::DestinationUnavailable,
                )
                &&& final(self)@ == old(self)@
            } else {
                match opened {
                    Err(error) => {
                        &&& r == Err::<[u8; 32], DestinationControlError>(
                            DestinationControlError::RatchetPersistence(error),
                        )
                        &&& final(self)@ == old(self)@
                    },
                    Ok(current) => {
                        &&& r == Ok::<[u8; 32], DestinationControlError>(current)
                        &&& final(self)@ == old(self)@.ratchets_enabled(enforce, current)
                    },
                }
            },
    {
        if !self.settings.has_identity {
            return Err(DestinationControlError::IdentityUnavailable);
        }
        let destination = match self.settings.destination {
            Some(destination) => destination,
            None => {
                return Err(DestinationControlError::DestinationUnavailable);
            },
        };
        match opened {
            Err(error) => Err(DestinationControlError::RatchetPersistence(error)),
            Ok(current) => {
                self.settings.destination = Some(
                    Destination {
                        enforces_ratchets: enforce,
                        local_ratchet: Some(current),
                        ..destination
                    },
                );
                self.settings.has_ratchets = true;
                Ok(current)
            },
        }
    }

    /// The application data of an announce: what the caller supplies, else the default.
    pub fn announce_app_data(&self, supplied: Option<Vec<u8>>) -> (r: Option<Vec<u8>>)
        ensures
            bytes_model(r) == (match supplied {
                Some(data) => Some(data@),
                None => self@.default_app_data,
            }),
    {
        match supplied {
            Some(data) => Some(data),
            None => copy_optional(&self.default_app_data),
        }
    }

    /// What the owned destination decrypted of a packet, if the packet is for it.
    pub fn process_destination_packet(&self, header: &PacketHeader, plaintext: Option<Vec<u8>>) -> (r:
        Option<Vec<u8>>)
        ensures
            r == (if self@.for_destination(*header) {
                plaintext
            } else {
                None
            }),
    {
        if self.is_for_destination(header) {
            plaintext
        } else {
            None
        }
    }

    /// Whether a packet is for the owned destination, which may then decrypt it.
    pub fn is_for_destination(&self, header: &PacketHeader) -> (r: bool)
        ensures
            r == self@.for_destination(*header),
    {
        match self.settings.destination {
            Some(destination) => same_bytes(&header.destination_hash, &destination.hash)
                && header.flags.destination_type == DestinationType::Single,
            None => false,
        }
    }

    /// Whether a packet that the destination has taken in is to be proved: only data
    /// is, and only if the destination's strategy asks for it.
    pub fn proves_destination_packet(&self, header: &PacketHeader, should_prove: bool) -> (r: bool)
        ensures
            r == (self@.settings.has_identity && self@.for_destination(*header)
                && header.flags.packet_type is Data && should_prove),
    {
        self.settings.has_identity && self.is_for_destination(header) && header.flags.packet_type
            == PacketType::Data && should_prove
    }

    /// Deals with a packet that is not for a Link. `taken` says whether the destination
    /// decrypted it; `delivery_proof` is the proof of its arrival and where that goes,
    /// if one was asked for and could be made.
    pub fn dispatch_destination_packet(
        &mut self,
        raw: Vec<u8>,
        header: &PacketHeader,
        interface_id: u64,
        taken: bool,
        delivery_proof: Option<(Vec<u8>, [u8; 16])>,
    ) -> (r: bool)
        ensures
            r == (old(self)@.settings.has_identity && old(self)@.for_destination(*header) && taken),
            final(self)@ == old(self)@.destination_packet_received(
                raw,
                interface_id,
                old(self)@.retained_proof(*header, taken, delivery_proof),
            ),
    {
        let processed: bool = self.settings.has_identity && self.is_for_destination(header)
            && taken;
        if processed && header.flags.packet_type == PacketType::Data {
            if let Some((data, proof_destination)) = delivery_proof {
                let packet = Packet {
                    header: make_header(
                        DestinationType::Single,
                        PacketType::Proof,
                        proof_destination,
                        PacketContext::Data,
                    ),
                    body: data,
                    seal: false,
                };
                let _ = self.transport.try_message(
                    TransportMessage::OutboundAttached {
                        frame: Frame::Built(packet),
                        destination_hash: proof_destination,
                        interface_id,
                    },
                );
            }
        }
        notify(&mut self.notices.inbound_raw, raw);
        processed
    }
}

/// Registers a destination with the transport, if the transport has room. Says whether
/// it had.
pub fn register_destination(transport: &mut Port<Message>, hash: [u8; 16], app_name: &str) -> (r: bool)
    ensures
        r == old(transport)@.accepts(),
        final(transport)@ == old(transport)@.offer(
            TransportMessage::RegisterDestination { hash, app_name: app_name@ },
        ),
{
    transport.try_send(
        TransportMessage::RegisterDestination { hash, app_name: app_name.to_owned() },
    ).is_ok()
}

} // verus!
