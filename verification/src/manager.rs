//! Responder side of Links: holds per-Link state, accepts Link requests, and
//! drives endpoint ownership and teardown.

use vstd::prelude::*;

use crate::assoc::{cut, find, present, same_bytes, select, Assoc, ResourceKey, Select};
use crate::events::{
    bytes_model, ConclusionModel, EventModel, LinkResourceConclusion, LinkResourceDirection, LinkResourceEvent,
};
use crate::link::{
    action_packet, make_action_packet, Action, ActionModel, CancelType, CloseReason, Link,
    ResourceStrategy, TransferAction,
};
use crate::notices::{Notices, NoticesModel};
use crate::resources::{key_of, lifecycle_ids, outbound_ids, Resources, ResourcesModel};
use crate::text::{close_failure, close_failure_text};
use crate::transport::{EndpointCleanupKind, Transport, TransportModel};
use crate::wire::{link_packet, LinkEndpointRole, Packet, PacketContext, PacketType};

verus! {

/// Numbers on which both ends of a Link have agreed.
#[derive(Debug, Clone, Copy)]
pub struct ProtocolConstants {
    /// The largest number of segments of a Resource.
    pub max_segments: usize,
    /// The largest Resource that is sent as one segment.
    pub max_efficient_size: usize,
    /// Length of a part's hash in a Resource's hash map.
    pub map_hash_len: usize,
    /// First byte of a part request that asks for more of the hash map.
    pub hashmap_is_exhausted: u8,
    pub keepalive_request: u8,
    pub keepalive_response: u8,
    /// The first channel message type that is not the application's to use.
    pub system_message_type_min: u16,
}

/// The destination that the manager owns.
#[derive(Debug, Clone, Copy)]
pub struct Destination {
    pub hash: [u8; 16],
    pub accept_link_requests: bool,
    /// Whether only what is encrypted to a ratchet is taken in.
    pub enforces_ratchets: bool,
    /// The ratchet that the destination advertises.
    pub local_ratchet: Option<[u8; 32]>,
}

/// A destination that accepts Links and knows of no ratchet.
pub open spec fn plain_destination(hash: [u8; 16]) -> Destination {
    Destination {
        hash,
        accept_link_requests: true,
        enforces_ratchets: false,
        local_ratchet: None,
    }
}

/// What the manager was told, once or by its owner's commands.
#[derive(Debug, Clone, Copy)]
pub struct Settings {
    pub destination_hash: [u8; 16],
    pub destination: Option<Destination>,
    /// Whether a raw software signing key is available.
    pub has_identity_key: bool,
    /// Whether a signing identity is available, which may be hardware-backed.
    pub has_identity: bool,
    /// Whether the manager keeps a ring of ratchets for its destination.
    pub has_ratchets: bool,
    pub has_request_handler: bool,
    /// Wins over the plain request handler; can schedule a Resource transfer.
    pub has_request_handler_ex: bool,
    pub has_announce_handler: bool,
    /// Whether the application installed the hook that decides on offers.
    pub has_resource_accept_handler: bool,
    pub has_link_identity_gate: bool,
    /// Default policy applied to current and future responder Links.
    pub resource_strategy: ResourceStrategy,
    /// Whether destination delivery proofs contain only the signature.
    pub use_implicit_proof: bool,
    pub constants: ProtocolConstants,
}

/// Who may call a request handler.
#[derive(Debug, Clone, Copy, PartialEq, Eq, Structural)]
pub enum AllowPolicy {
    AllowNone,
    AllowAll,
    AllowList,
}

/// A request handler that was registered for a path.
#[derive(Debug)]
pub struct RegisteredRequestHandler {
    pub path: String,
    pub allow: AllowPolicy,
    pub allowed_list: Vec<[u8; 16]>,
    pub auto_compress: bool,
}

/// What the owner of the Links' own machinery (keys, counters, callbacks) learns of a Link.
#[derive(Debug, Clone, Copy)]
pub enum Effect {
    /// A packet counts as sent: with `len` bytes, or with the ciphertext of `len` bytes
    /// of plaintext when it is sealed. A keepalive counts apart from other traffic.
    Transmitted { link_id: [u8; 16], len: usize, sealed: bool, keepalive: bool },
    /// The peer proved a packet of the Link's channel, which counts as a proof for the
    /// Link's keepalive.
    ProofRecorded { link_id: [u8; 16] },
    /// The Link's channel is to take a message type.
    ChannelTypeAdded { link_id: [u8; 16], message_type: u16 },
    /// The Link is closed.
    Closed { link_id: [u8; 16], reason: CloseReason },
}

/// The responder side of Links.
pub struct LinkManager {
    pub transport: Transport,
    pub notices: Notices,
    pub resources: Resources,
    pub links: Assoc<[u8; 16], Link>,
    /// Live Links of the owned destination.
    pub destination_links: Assoc<[u8; 16], ()>,
    /// Handlers for paths, under the truncated hashes of the paths.
    pub handlers: Assoc<[u8; 16], RegisteredRequestHandler>,
    /// User message types accepted by channels owned by this manager.
    ///
    /// Keeping this registration at the manager boundary lets responder
    /// applications declare their protocol before the first inbound envelope
    /// creates a channel.
    pub channel_message_types: Vec<u16>,
    /// Remote identity hash → link id; populated on identification for outbound reuse.
    pub backchannel_links: Assoc<[u8; 16], [u8; 16]>,
    /// Link id → remote identity hash, so request handlers can look up the authenticated peer.
    pub link_identities: Assoc<[u8; 16], [u8; 16]>,
    /// Default announce application data, used whenever an announce carries none.
    pub default_app_data: Option<Vec<u8>>,
    /// What happened to Links since [`LinkManager::take_effects`] was last called.
    pub effects: Vec<Effect>,
    pub settings: Settings,
}

#[verifier::ext_equal]
pub struct LinkManagerModel {
    pub transport: TransportModel,
    pub notices: NoticesModel,
    pub resources: ResourcesModel,
    pub links: Seq<([u8; 16], Link)>,
    pub destination_links: Seq<([u8; 16], ())>,
    pub handlers: Seq<([u8; 16], RegisteredRequestHandler)>,
    pub channel_message_types: Seq<u16>,
    pub backchannel_links: Seq<([u8; 16], [u8; 16])>,
    pub link_identities: Seq<([u8; 16], [u8; 16])>,
    pub default_app_data: Option<Seq<u8>>,
    pub effects: Seq<Effect>,
    pub settings: Settings,
}

impl View for LinkManager {
    type V = LinkManagerModel;

    open spec fn view(&self) -> LinkManagerModel {
        LinkManagerModel {
            transport: self.transport@,
            notices: self.notices@,
            resources: self.resources@,
            links: self.links@,
            destination_links: self.destination_links@,
            handlers: self.handlers@,
            channel_message_types: self.channel_message_types@,
            backchannel_links: self.backchannel_links@,
            link_identities: self.link_identities@,
            default_app_data: bytes_model(self.default_app_data),
            effects: self.effects@,
            settings: self.settings,
        }
    }
}

/// Selects the peers that are not reached over one Link.
pub struct OtherBackchannel {
    pub link_id: [u8; 16],
}

impl Select<[u8; 16], [u8; 16]> for OtherBackchannel {
    open spec fn selects(self, e: ([u8; 16], [u8; 16])) -> bool {
        e.1 != self.link_id
    }

    fn keep(&self, k: &[u8; 16], v: &[u8; 16]) -> (r: bool) {
        !same_bytes(v, &self.link_id)
    }
}

/// What a completed handshake left: the new Link's id, what it can carry, and the
/// proof that is owed to the initiator.
#[derive(Debug)]
pub struct Handshake {
    pub link_id: [u8; 16],
    pub mdu: usize,
    pub has_session_keys: bool,
    pub proof: Vec<u8>,
}

impl LinkManagerModel {
    /// A packet counted as sent.
    pub open spec fn charged(
        self,
        link_id: [u8; 16],
        len: nat,
        sealed: bool,
        keepalive: bool,
    ) -> Self {
        LinkManagerModel {
            effects: self.effects.push(
                Effect::Transmitted { link_id, len: len as usize, sealed, keepalive },
            ),
            ..self
        }
    }

    /// A packet staged as ordered control, and counted as sent if it is retained.
    pub open spec fn control_packet_sent(
        self,
        link_id: [u8; 16],
        role: LinkEndpointRole,
        packet: Packet<Seq<u8>>,
    ) -> Self {
        let s = LinkManagerModel {
            transport: self.transport.packet_staged(link_id, role, packet),
            ..self
        };
        if self.transport.retains(true) {
            s.charged(link_id, packet.body.len(), packet.seal, false)
        } else {
            s
        }
    }

    /// Whether the packet of a transfer's action is retained.
    pub open spec fn action_retained(self, link_id: [u8; 16], action: ActionModel) -> bool {
        match find(self.links, link_id) {
            Some(link) => match action_packet(link_id, action) {
                Some(p) => (!p.seal || link.has_session_keys) && self.transport.retains(true),
                None => false,
            },
            None => false,
        }
    }

    /// The packet of a transfer's action staged, if it takes one that can be built.
    pub open spec fn action_sent(self, link_id: [u8; 16], action: ActionModel) -> Self {
        match find(self.links, link_id) {
            Some(link) => match action_packet(link_id, action) {
                Some(p) => if !p.seal || link.has_session_keys {
                    self.control_packet_sent(link_id, link.role_model(), p)
                } else {
                    self
                },
                None => self,
            },
            None => self,
        }
    }

    /// An inbound Resource ended without success. Its traces go, and the end is
    /// reported if, and only if, it was still owed.
    pub open spec fn inbound_concluded(
        self,
        link_id: [u8; 16],
        resource_id: [u8; 32],
        conclusion: ConclusionModel,
    ) -> Self {
        let key = key_of(link_id, resource_id);
        let s = LinkManagerModel {
            resources: self.resources.logical_dropped(key).claimed(key),
            ..self
        };
        if present(self.resources.lifecycles, key) {
            LinkManagerModel {
                notices: self.notices.emitted(
                    EventModel::Concluded {
                        link_id,
                        resource_id,
                        direction: LinkResourceDirection::Inbound,
                        conclusion,
                    },
                ),
                ..s
            }
        } else {
            s
        }
    }

    /// [`Self::inbound_concluded`] for each of `ids`, with the same failure.
    pub open spec fn inbound_failed_each(
        self,
        link_id: [u8; 16],
        ids: Seq<[u8; 32]>,
        failure: Seq<char>,
    ) -> Self
        decreases ids.len(),
    {
        if ids.len() == 0 {
            self
        } else {
            self.inbound_failed_each(link_id, ids.drop_last(), failure).inbound_concluded(
                link_id,
                ids.last(),
                ConclusionModel::Failed(failure),
            )
        }
    }

    /// An outbound Resource ended.
    pub open spec fn outbound_concluded(
        self,
        link_id: [u8; 16],
        resource_id: [u8; 32],
        conclusion: ConclusionModel,
    ) -> Self {
        LinkManagerModel {
            notices: self.notices.emitted(
                EventModel::Concluded {
                    link_id,
                    resource_id,
                    direction: LinkResourceDirection::Outbound,
                    conclusion,
                },
            ),
            ..self
        }
    }

    pub open spec fn outbound_failed_each(
        self,
        link_id: [u8; 16],
        ids: Seq<[u8; 32]>,
        failure: Seq<char>,
    ) -> Self
        decreases ids.len(),
    {
        if ids.len() == 0 {
            self
        } else {
            self.outbound_failed_each(link_id, ids.drop_last(), failure).outbound_concluded(
                link_id,
                ids.last(),
                ConclusionModel::Failed(failure),
            )
        }
    }

    /// An advertisement refused. The peer is told, and the end is reported, if the
    /// Resource had been accepted.
    pub open spec fn advertisement_rejected(
        self,
        link_id: [u8; 16],
        resource_id: [u8; 32],
        segment_hash: [u8; 32],
        reason: Seq<char>,
    ) -> Self {
        let s = if present(self.resources.lifecycles, key_of(link_id, resource_id)) {
            self.action_sent(link_id, TransferAction::SendCancel(CancelType::Rcl, segment_hash))
        } else {
            self
        };
        s.inbound_concluded(link_id, resource_id, ConclusionModel::Failed(reason))
    }

    /// Whether closing the Link takes a teardown packet: it was asked for, and
    /// this manager owns the Link's endpoint.
    pub open spec fn tears_down(self, link_id: [u8; 16], send_teardown: bool) -> bool {
        send_teardown && present(self.transport.owned, link_id)
    }

    /// The transport's state once the Link is closed.
    pub open spec fn endpoint_released(
        self,
        link_id: [u8; 16],
        role: LinkEndpointRole,
        teardown: Option<Seq<u8>>,
        endpoint_closing: bool,
    ) -> TransportModel {
        let t0 = TransportModel {
            generations: cut(self.transport.generations, link_id),
            owned: cut(self.transport.owned, link_id),
            ..self.transport
        };
        match find(self.transport.owned, link_id) {
            Some(ownership) => {
                let t1 = t0.tombstone_installed(ownership, EndpointCleanupKind::Explicit);
                let (t2, closing) = match teardown {
                    Some(data) => (
                        t1.kind_set(
                            link_id,
                            EndpointCleanupKind::Atomic { accepted: false },
                        ).final_packet_staged(
                            link_id,
                            role,
                            link_packet(
                                link_id,
                                PacketType::Data,
                                PacketContext::LinkClose,
                                data,
                                false,
                            ),
                        ),
                        t1.retains(true),
                    ),
                    None => (t1, endpoint_closing),
                };
                if closing {
                    t2
                } else {
                    t2.kind_set(link_id, EndpointCleanupKind::Explicit).cleanup_staged(
                        ownership,
                        true,
                    )
                }
            },
            None => t0,
        }
    }

    /// The Link taken out: its endpoint is being released, its transfers are forgotten,
    /// and its end is reported.
    pub open spec fn link_detached(
        self,
        link_id: [u8; 16],
        reason: CloseReason,
        send_teardown: bool,
        teardown: Option<Seq<u8>>,
        endpoint_closing: bool,
    ) -> Self {
        LinkManagerModel {
            transport: self.endpoint_released(
                link_id,
                (find(self.links, link_id)->0).role_model(),
                if self.tears_down(link_id, send_teardown) {
                    teardown
                } else {
                    None
                },
                endpoint_closing,
            ),
            notices: self.notices.link_ended(link_id),
            resources: self.resources.link_forgotten(link_id),
            links: cut(self.links, link_id),
            destination_links: cut(self.destination_links, link_id),
            backchannel_links: select(self.backchannel_links, OtherBackchannel { link_id }),
            link_identities: cut(self.link_identities, link_id),
            effects: self.effects.push(Effect::Closed { link_id, reason }),
            ..self
        }
    }

    /// The Link closed. `teardown` is the authenticated teardown payload, if the
    /// Link could make one; `endpoint_closing` says that the endpoint goes with a
    /// packet that is staged already. After the Link's own end comes the failure of
    /// every Resource that it still carried.
    pub open spec fn link_closed(
        self,
        link_id: [u8; 16],
        reason: CloseReason,
        send_teardown: bool,
        teardown: Option<Seq<u8>>,
        endpoint_closing: bool,
    ) -> Self {
        if present(self.links, link_id) {
            self.link_detached(
                link_id,
                reason,
                send_teardown,
                teardown,
                endpoint_closing,
            ).inbound_failed_each(
                link_id,
                lifecycle_ids(self.resources.lifecycles, link_id),
                close_failure(reason),
            ).outbound_failed_each(
                link_id,
                outbound_ids(self.resources.outbound, link_id),
                close_failure(reason),
            )
        } else {
            self
        }
    }

    /// The Link closed without a packet to the peer.
    pub open spec fn link_dropped(self, link_id: [u8; 16], reason: CloseReason) -> Self {
        self.link_closed(link_id, reason, false, None, false)
    }

    pub open spec fn links_dropped(self, ids: Seq<[u8; 16]>, reason: CloseReason) -> Self
        decreases ids.len(),
    {
        if ids.len() == 0 {
            self
        } else {
            self.links_dropped(ids.drop_last(), reason).link_dropped(ids.last(), reason)
        }
    }
}

impl LinkManager {
    /// Takes what happened to Links, oldest first.
    pub fn take_effects(&mut self) -> (r: Vec<Effect>)
        ensures
            r@ == old(self)@.effects,
            final(self)@ == (LinkManagerModel { effects: Seq::empty(), ..old(self)@ }),
    {
        let mut out: Vec<Effect> = Vec::new();
        out.append(&mut self.effects);
        assert(out@ =~= old(self)@.effects);
        out
    }

    /// Stages a packet as ordered control, and counts it as sent if it is retained.
    pub(crate) fn send_control_packet(
        &mut self,
        link_id: [u8; 16],
        role: LinkEndpointRole,
        packet: Packet<Vec<u8>>,
    ) -> (r: bool)
        ensures
            final(self)@ == old(self)@.control_packet_sent(link_id, role, packet@),
            r == old(self)@.transport.retains(true),
    {
        let len: usize = packet.body.len();
        let sealed: bool = packet.seal;
        let retained: bool = self.transport.stage_packet(link_id, role, packet);
        if retained {
            self.effects.push(Effect::Transmitted { link_id, len, sealed, keepalive: false });
        }
        retained
    }

    /// Stages the packet that carries out `action` for a transfer of the Link.
    pub fn send_resource_action(&mut self, link_id: &[u8; 16], action: Action) -> (r: bool)
        ensures
            final(self)@ == old(self)@.action_sent(*link_id, action@),
            r == old(self)@.action_retained(*link_id, action@),
    {
        let link = match self.links.get(link_id) {
            Some(link) => *link,
            None => {
                return false;
            },
        };
        let packet = match make_action_packet(*link_id, action) {
            Some(packet) => packet,
            None => {
                return false;
            },
        };
        if packet.seal && !link.has_session_keys {
            return false;
        }
        self.send_control_packet(*link_id, link.endpoint_role(), packet)
    }

    /// Ends an inbound Resource without success, and says whether its end was owed.
    pub fn conclude_inbound_failure(
        &mut self,
        link_id: [u8; 16],
        resource_id: [u8; 32],
        conclusion: LinkResourceConclusion,
    ) -> (r: bool)
        ensures
            final(self)@ == old(self)@.inbound_concluded(link_id, resource_id, conclusion@),
            r == present(old(self)@.resources.lifecycles, key_of(link_id, resource_id)),
    {
        self.resources.drop_inbound_logical(link_id, resource_id);
        proof {
            reveal(ResourcesModel::logical_dropped);
        }
        if self.resources.claim_inbound_terminal(link_id, resource_id).is_none() {
            return false;
        }
        self.notices.emit_resource_event(
            LinkResourceEvent::Concluded {
                link_id,
                resource_id,
                direction: LinkResourceDirection::Inbound,
                conclusion,
            },
        );
        true
    }

    pub fn conclude_outbound(
        &mut self,
        link_id: [u8; 16],
        resource_id: [u8; 32],
        conclusion: LinkResourceConclusion,
    )
        ensures
            final(self)@ == old(self)@.outbound_concluded(link_id, resource_id, conclusion@),
    {
        self.notices.emit_resource_event(
            LinkResourceEvent::Concluded {
                link_id,
                resource_id,
                direction: LinkResourceDirection::Outbound,
                conclusion,
            },
        );
    }

    /// Refuses an advertisement.
    pub fn reject_inbound_advertisement(
        &mut self,
        link_id: [u8; 16],
        resource_id: [u8; 32],
        segment_hash: [u8; 32],
        reason: String,
    )
        ensures
            final(self)@ == old(self)@.advertisement_rejected(
                link_id,
                resource_id,
                segment_hash,
                reason@,
            ),
    {
        if self.resources.lifecycles.contains(&ResourceKey { link_id, hash: resource_id }) {
            let _ = self.send_resource_action(
                &link_id,
                TransferAction::SendCancel(CancelType::Rcl, segment_hash),
            );
        }
        let _ = self.conclude_inbound_failure(
            link_id,
            resource_id,
            LinkResourceConclusion::Failed(reason),
        );
    }

    /// Whether closing the Link calls for a teardown payload.
    pub fn wants_teardown(&self, link_id: &[u8; 16], send_teardown: bool) -> (r: bool)
        ensures
            r == self@.tears_down(*link_id, send_teardown),
    {
        send_teardown && self.transport.owned.contains(link_id)
    }

    fn release_endpoint(
        &mut self,
        link_id: [u8; 16],
        role: LinkEndpointRole,
        teardown: Option<Vec<u8>>,
        endpoint_closing: bool,
    )
        ensures
            final(self)@ == (LinkManagerModel {
                transport: old(self)@.endpoint_released(
                    link_id,
                    role,
                    bytes_model(teardown),
                    endpoint_closing,
                ),
                ..old(self)@
            }),
    {
        let _ = self.transport.generations.remove(&link_id);
        if let Some(ownership) = self.transport.owned.remove(&link_id) {
            self.transport.install_endpoint_tombstone(ownership, EndpointCleanupKind::Explicit);
            let mut closing: bool = endpoint_closing;
            if let Some(data) = teardown {
                self.transport.set_cleanup_kind(
                    link_id,
                    EndpointCleanupKind::Atomic { accepted: false },
                );
                closing = self.transport.send_link_close_packet(link_id, role, data);
            }
            if !closing {
                self.transport.set_cleanup_kind(link_id, EndpointCleanupKind::Explicit);
                self.transport.stage_endpoint_cleanup(ownership, true);
            }
        }
    }

    /// Closes a Link: releases its endpoint, forgets its transfers, and reports
    /// its end and then the failure of every Resource that it still carried.
    pub fn close_active_link_inner(
        &mut self,
        link_id: [u8; 16],
        reason: CloseReason,
        send_teardown: bool,
        teardown: Option<Vec<u8>>,
        endpoint_closing: bool,
    ) -> (r: bool)
        ensures
            final(self)@ == old(self)@.link_closed(
                link_id,
                reason,
                send_teardown,
                bytes_model(teardown),
                endpoint_closing,
            ),
            r == present(old(self)@.links, link_id),
    {
        let tearing: bool = self.wants_teardown(&link_id, send_teardown);
        let link = match self.links.remove(&link_id) {
            Some(link) => link,
            None => {
                proof {
                    crate::assoc::lemma_cut_absent(old(self)@.links, link_id);
                }
                return false;
            },
        };
        let _ = self.destination_links.remove(&link_id);
        let inbound_resource_ids = self.resources.active_inbound_logical_ids(link_id);
        let outbound_resource_ids = self.resources.outbound_logical_ids(link_id);
        let data: Option<Vec<u8>> = if tearing {
            teardown
        } else {
            None
        };
        self.release_endpoint(link_id, link.endpoint_role(), data, endpoint_closing);
        self.backchannel_links.retain(&OtherBackchannel { link_id });
        let _ = self.link_identities.remove(&link_id);
        self.notices.link_end(link_id);
        self.resources.forget_link(link_id);
        self.effects.push(Effect::Closed { link_id, reason });
        let ghost start = self@;
        let ghost inbound = inbound_resource_ids@;
        let ghost outbound = outbound_resource_ids@;
        let mut i: usize = 0;
        while i < inbound_resource_ids.len()
            invariant
                i <= inbound.len(),
                inbound == inbound_resource_ids@,
                self@ == start.inbound_failed_each(
                    link_id,
                    inbound.take(i as int),
                    close_failure(reason),
                ),
            decreases inbound.len() - i,
        {
            proof {
                assert(inbound.take(i + 1).drop_last() =~= inbound.take(i as int));
                assert(inbound.take(i + 1).last() == inbound[i as int]);
            }
            let _ = self.conclude_inbound_failure(
                link_id,
                inbound_resource_ids[i],
                LinkResourceConclusion::Failed(close_failure_text(reason)),
            );
            i = i + 1;
        }
        let ghost middle = self@;
        assert(inbound.take(i as int) =~= inbound);
        let mut j: usize = 0;
        while j < outbound_resource_ids.len()
            invariant
                j <= outbound.len(),
                outbound == outbound_resource_ids@,
                self@ == middle.outbound_failed_each(
                    link_id,
                    outbound.take(j as int),
                    close_failure(reason),
                ),
            decreases outbound.len() - j,
        {
            proof {
                assert(outbound.take(j + 1).drop_last() =~= outbound.take(j as int));
                assert(outbound.take(j + 1).last() == outbound[j as int]);
            }
            self.conclude_outbound(
                link_id,
                outbound_resource_ids[j],
                LinkResourceConclusion::Failed(close_failure_text(reason)),
            );
            j = j + 1;
        }
        assert(outbound.take(j as int) =~= outbound);
        true
    }

    /// Closes a Link without a packet to the peer.
    pub fn drop_active_link(&mut self, link_id: [u8; 16], reason: CloseReason) -> (r: bool)
        ensures
            final(self)@ == old(self)@.link_dropped(link_id, reason),
            r == present(old(self)@.links, link_id),
    {
        self.close_active_link_inner(link_id, reason, false, None, false)
    }
}

} // verus!
