//! Endpoint ownership: how a Link request becomes a published Link, and how the
//! endpoints of closed Links are released.

use vstd::prelude::*;

use crate::assoc::{cut, find, present, put};
use crate::link::{CloseReason, Link, LinkState};
use crate::manager::{Handshake, LinkManager, LinkManagerModel, Settings};
use crate::transport::{
    accepted_final_sends, bind_outcomes, failed_sends, released_endpoints, AcceptedFinalSend,
    EndpointCleanupKind, FailedSend, PendingResponderEndpointBind, ReleasedEndpoint,
    ResponderEndpointOwnership, ResponderEndpointTombstone, TransportModel,
};
use crate::wire::{
    link_packet, make_link_packet, same_binding, Frame, LinkEndpointBindResult, LinkEndpointBinding,
    LinkEndpointLifecycleEvent, LinkEndpointRole, MessageModel, PacketContext, PacketType,
    TransportMessage,
};

verus! {

/// What is to be done with a Link request before its handshake.
#[derive(Debug, Clone, Copy, PartialEq, Eq, Structural)]
pub enum LinkRequestDecision {
    /// The request is dropped.
    Ignore,
    /// The handshake is signed with the raw key.
    SignWithKey,
    /// The handshake is signed by the identity.
    SignWithIdentity,
}

/// The Link of a completed handshake.
pub open spec fn requested_link(settings: Settings, interface_id: u64, handshake: Handshake) -> Link {
    Link {
        state: LinkState::Handshake,
        is_initiator: false,
        interface_id,
        mdu: handshake.mdu,
        has_session_keys: handshake.has_session_keys,
        identified: false,
        remote_identity: None,
        resource_strategy: settings.resource_strategy,
        expected_hops: None,
        has_channel: false,
    }
}

/// The bind request of a new Link, which is attached to the interface of its request
/// and gets a generation of its own.
pub open spec fn pending_bind(
    manager: LinkManagerModel,
    interface_id: u64,
    handshake: Handshake,
) -> PendingResponderEndpointBind {
    PendingResponderEndpointBind {
        ownership: ResponderEndpointOwnership {
            binding: LinkEndpointBinding {
                link_id: handshake.link_id,
                interface_id,
                role: LinkEndpointRole::Responder,
            },
            generation: manager.transport.next_generation,
        },
        ticket: manager.transport.next_ticket,
        destination_hash: manager.settings.destination_hash,
        proof: handshake.proof,
    }
}

/// The request that makes the transport deliver the Link's packets.
pub open spec fn registration(bind: PendingResponderEndpointBind) -> MessageModel {
    TransportMessage::RegisterLink {
        link_id: bind.ownership.binding.link_id,
        destination_hash: bind.destination_hash,
        interface_id: bind.ownership.binding.interface_id,
        next_hop: None,
        remaining_hops: 0,
        initiator: false,
    }
}

/// The proof that is owed to the Link's initiator, on the interface on which its
/// request came.
pub open spec fn link_proof(bind: PendingResponderEndpointBind) -> MessageModel {
    let link_id = bind.ownership.binding.link_id;
    TransportMessage::OutboundAttached {
        frame: Frame::Built(
            link_packet(
                link_id,
                PacketType::Proof,
                PacketContext::Lrproof,
                bind.proof@,
                false,
            ),
        ),
        destination_hash: link_id,
        interface_id: bind.ownership.binding.interface_id,
    }
}

impl LinkManagerModel {
    /// Whether the manager holds anything under the id of a Link, live or being released.
    pub open spec fn knows_link(self, link_id: [u8; 16]) -> bool {
        present(self.links, link_id) || present(self.transport.binds, link_id) || present(
            self.transport.owned,
            link_id,
        ) || present(self.transport.tombstones, link_id)
    }

    /// A new Link, known here but published only once its endpoint is bound. A
    /// request for an id that is known already, or that finds the transport full
    /// or gone, changes nothing.
    pub open spec fn link_requested(
        self,
        link_id: [u8; 16],
        link: Link,
        bind: PendingResponderEndpointBind,
    ) -> Self {
        if self.knows_link(link_id) || !self.transport.port.accepts() {
            self
        } else {
            let t = self.transport;
            let next = t.next_generation.wrapping_add(1);
            LinkManagerModel {
                transport: TransportModel {
                    port: t.port.offer(
                        TransportMessage::BindLinkEndpoint {
                            binding: bind.ownership.binding,
                            ticket: t.next_ticket,
                        },
                    ),
                    next_ticket: t.next_ticket.wrapping_add(1),
                    next_generation: if next == 0 {
                        1
                    } else {
                        next
                    },
                    generations: put(t.generations, link_id, t.next_generation),
                    binds: put(t.binds, link_id, bind),
                    ..t
                },
                links: put(self.links, link_id, link),
                destination_links: if self.settings.destination is Some {
                    put(self.destination_links, link_id, ())
                } else {
                    self.destination_links
                },
                ..self
            }
        }
    }

    /// A bind request settled. The Link is registered and its proof sent only if
    /// this manager now owns the endpoint of the Link as it still is; an endpoint
    /// that came too late is released again; without an endpoint the Link goes.
    pub open spec fn bind_settled(
        self,
        link_id: [u8; 16],
        result: Option<LinkEndpointBindResult>,
    ) -> Self {
        match find(self.transport.binds, link_id) {
            None => self,
            Some(bind) => {
                let t = TransportModel { binds: cut(self.transport.binds, link_id), ..self.transport };
                if result == Some(LinkEndpointBindResult::Bound) {
                    if present(self.links, link_id) && find(self.transport.generations, link_id)
                        == Some(bind.ownership.generation) {
                        LinkManagerModel {
                            transport: TransportModel {
                                owned: put(self.transport.owned, link_id, bind.ownership),
                                ..t
                            }.staged(registration(bind), false).staged(link_proof(bind), false),
                            ..self
                        }
                    } else {
                        LinkManagerModel {
                            transport: t.tombstone_installed(
                                bind.ownership,
                                EndpointCleanupKind::Explicit,
                            ).cleanup_staged(bind.ownership, false),
                            ..self
                        }
                    }
                } else {
                    LinkManagerModel { transport: t, ..self }.link_dropped(
                        link_id,
                        CloseReason::DestinationClosed,
                    )
                }
            },
        }
    }

    pub open spec fn binds_settled(
        self,
        outcomes: Seq<([u8; 16], Option<LinkEndpointBindResult>)>,
    ) -> Self
        decreases outcomes.len(),
    {
        if outcomes.len() == 0 {
            self
        } else {
            self.binds_settled(outcomes.drop_last()).bind_settled(
                outcomes.last().0,
                outcomes.last().1,
            )
        }
    }

    pub open spec fn final_sends_accepted(self, sends: Seq<AcceptedFinalSend>) -> Self
        decreases sends.len(),
    {
        if sends.len() == 0 {
            self
        } else {
            let s = self.final_sends_accepted(sends.drop_last());
            LinkManagerModel {
                transport: s.transport.atomic_accepted(sends.last().link_id, sends.last().role),
                ..s
            }
        }
    }

    /// A packet did not go out. If it was the last of its endpoint, the endpoint is
    /// released by a request of its own; else its Link goes.
    pub open spec fn send_failed(self, failed: FailedSend) -> Self {
        if failed.final_unbind {
            LinkManagerModel {
                transport: self.transport.atomic_refused(failed.link_id, failed.role),
                ..self
            }
        } else {
            self.link_dropped(failed.link_id, CloseReason::DestinationClosed)
        }
    }

    pub open spec fn sends_failed(self, failed: Seq<FailedSend>) -> Self
        decreases failed.len(),
    {
        if failed.len() == 0 {
            self
        } else {
            self.sends_failed(failed.drop_last()).send_failed(failed.last())
        }
    }

    pub open spec fn endpoints_finalizing(self, released: Seq<ReleasedEndpoint>) -> Self
        decreases released.len(),
    {
        if released.len() == 0 {
            self
        } else {
            let s = self.endpoints_finalizing(released.drop_last());
            let e = released.last();
            LinkManagerModel {
                transport: s.transport.finalization_begun(
                    e.ownership,
                    e.deregister,
                    e.lifecycle_required,
                ),
                ..s
            }
        }
    }

    /// The tombstone of exactly this endpoint has seen its end.
    pub open spec fn end_seen(self, binding: LinkEndpointBinding) -> Self {
        match find(self.transport.tombstones, binding.link_id) {
            Some(t) => if t.ownership.binding == binding {
                LinkManagerModel {
                    transport: TransportModel {
                        tombstones: put(
                            self.transport.tombstones,
                            binding.link_id,
                            ResponderEndpointTombstone { lifecycle_seen: true, ..t },
                        ),
                        ..self.transport
                    },
                    ..self
                }
            } else {
                self
            },
            None => self,
        }
    }

    /// Whether the endpoint of a bind request for the Link as it still is came to its end.
    pub open spec fn ends_candidate(self, binding: LinkEndpointBinding) -> bool {
        match find(self.transport.binds, binding.link_id) {
            Some(bind) => bind.ownership.binding == binding && find(
                self.transport.generations,
                binding.link_id,
            ) == Some(bind.ownership.generation),
            None => false,
        }
    }

    /// Whether the endpoint of a live Link came to its end.
    pub open spec fn ends_owner(self, binding: LinkEndpointBinding) -> bool {
        match find(self.transport.owned, binding.link_id) {
            Some(ownership) => ownership.binding == binding && find(
                self.transport.generations,
                binding.link_id,
            ) == Some(ownership.generation) && present(self.links, binding.link_id),
            None => false,
        }
    }

    /// An endpoint came to its end. It closes a Link only if it is exactly that
    /// Link's endpoint, of the Link's current generation.
    pub open spec fn endpoint_ended(self, event: LinkEndpointLifecycleEvent) -> Self {
        let binding = event.binding;
        let s = self.end_seen(binding);
        let released = match find(self.transport.tombstones, binding.link_id) {
            Some(t) => if t.ownership.binding == binding && t.kind == (
            EndpointCleanupKind::Atomic { accepted: true }) {
                Some(t.ownership)
            } else {
                None
            },
            None => None,
        };
        match released {
            Some(ownership) => LinkManagerModel {
                transport: s.transport.finalization_begun(ownership, false, true),
                ..s
            },
            None => if s.ends_candidate(binding) || s.ends_owner(binding) {
                s.link_dropped(binding.link_id, CloseReason::DestinationClosed)
            } else {
                s
            },
        }
    }

    pub open spec fn endpoints_ended(self, events: Seq<LinkEndpointLifecycleEvent>) -> Self
        decreases events.len(),
    {
        if events.len() == 0 {
            self
        } else {
            self.endpoints_ended(events.drop_last()).endpoint_ended(events.last())
        }
    }

    pub open spec fn with_transport(self, transport: TransportModel) -> Self {
        LinkManagerModel { transport, ..self }
    }

    /// Settled bind requests looked at.
    pub open spec fn polled_binds(self) -> Self {
        let outcomes = bind_outcomes(self.transport.binds, self.transport.replies.bind);
        self.with_transport(self.transport.binds_polled()).binds_settled(outcomes)
    }

    /// Settled send requests looked at: first those that were accepted.
    pub open spec fn polled_sends(self) -> Self {
        let accepted = accepted_final_sends(self.transport.sends, self.transport.replies.send);
        let failed = failed_sends(self.transport.sends, self.transport.replies.send);
        self.with_transport(self.transport.sends_polled()).final_sends_accepted(
            accepted,
        ).sends_failed(failed)
    }

    /// Settled cleanup requests looked at.
    pub open spec fn polled_cleanups(self) -> Self {
        let released = released_endpoints(
            self.transport.cleanups,
            self.transport.replies.unbind,
        );
        self.with_transport(self.transport.cleanups_polled()).endpoints_finalizing(released)
    }

    /// Reported endpoint ends looked at.
    pub open spec fn drained_lifecycle(self) -> Self {
        let events = self.transport.lifecycle;
        self.with_transport(
            TransportModel { lifecycle: Seq::empty(), ..self.transport },
        ).endpoints_ended(events)
    }

    /// One pass over everything that the transport has answered or reported. The
    /// barriers are looked at before the reported ends, so that a tombstone is
    /// retired only after a drain that follows its barrier.
    pub open spec fn endpoints_polled(self) -> Self {
        let s1 = self.polled_binds();
        let s2 = s1.polled_sends();
        let s3 = s2.polled_cleanups();
        let s4 = s3.with_transport(s3.transport.finalizations_polled());
        let s5 = s4.drained_lifecycle();
        s5.with_transport(s5.transport.tombstones_retired())
    }

    /// Whether that pass found anything to do.
    pub open spec fn endpoints_progress(self) -> bool {
        let s1 = self.polled_binds();
        let s2 = s1.polled_sends();
        let s3 = s2.polled_cleanups();
        let s4 = s3.with_transport(s3.transport.finalizations_polled());
        let s5 = s4.drained_lifecycle();
        ||| bind_outcomes(self.transport.binds, self.transport.replies.bind).len() > 0
        ||| s1.transport.sends_polled().sends.len() != s1.transport.sends.len()
        ||| s2.transport.cleanups_polled().cleanups.len() != s2.transport.cleanups.len()
        ||| s3.transport.some_barrier_answered()
        ||| s4.transport.lifecycle.len() > 0
        ||| s5.transport.tombstones_retired().tombstones.len() != s5.transport.tombstones.len()
    }

    /// What becomes of a Link request before its handshake.
    pub open spec fn link_request_decision(
        self,
        raw_len: usize,
        data_offset: Option<usize>,
    ) -> LinkRequestDecision {
        let has_payload = match data_offset {
            Some(offset) => raw_len > offset,
            None => false,
        };
        let accepts = match self.settings.destination {
            Some(destination) => destination.accept_link_requests,
            None => true,
        };
        if !has_payload || !accepts {
            LinkRequestDecision::Ignore
        } else if self.settings.has_identity_key {
            LinkRequestDecision::SignWithKey
        } else if self.settings.has_identity {
            LinkRequestDecision::SignWithIdentity
        } else {
            LinkRequestDecision::Ignore
        }
    }
}

impl LinkManager {
    /// What becomes of a Link request of `raw_len` bytes whose header unpacked to
    /// leave its payload at `data_offset`.
    pub fn decide_link_request(&self, raw_len: usize, data_offset: Option<usize>) -> (r:
        LinkRequestDecision)
        ensures
            r == self@.link_request_decision(raw_len, data_offset),
    {
        let has_payload: bool = match data_offset {
            Some(offset) => raw_len > offset,
            None => false,
        };
        if !has_payload {
            return LinkRequestDecision::Ignore;
        }
        if let Some(destination) = self.settings.destination {
            if !destination.accept_link_requests {
                return LinkRequestDecision::Ignore;
            }
        }
        if self.settings.has_identity_key {
            LinkRequestDecision::SignWithKey
        } else if self.settings.has_identity {
            LinkRequestDecision::SignWithIdentity
        } else {
            LinkRequestDecision::Ignore
        }
    }

    /// Takes in the Link of a completed handshake, and asks the transport to bind
    /// its endpoint. Says whether the Link is new here.
    ///
    /// A replay must never replace live Link/Resource ownership, nor may it come
    /// back while an endpoint of the same id is being released.
    pub fn handle_link_request(&mut self, interface_id: u64, handshake: Handshake) -> (r: bool)
        ensures
            r == (!old(self)@.knows_link(handshake.link_id) && old(
                self,
            )@.transport.port.accepts()),
            final(self)@ == old(self)@.link_requested(
                handshake.link_id,
                requested_link(old(self)@.settings, interface_id, handshake),
                pending_bind(old(self)@, interface_id, handshake),
            ),
    {
        let link_id = handshake.link_id;
        if self.links.contains(&link_id) || self.transport.binds.contains(&link_id)
            || self.transport.owned.contains(&link_id) || self.transport.tombstones.contains(
            &link_id,
        ) {
            return false;
        }
        if self.transport.port.closed || self.transport.port.is_full() {
            return false;
        }
        let generation: u64 = self.transport.next_generation;
        let next: u64 = generation.wrapping_add(1);
        self.transport.next_generation = if next == 0 {
            1
        } else {
            next
        };
        self.transport.generations.insert(link_id, generation);
        self.links.insert(
            link_id,
            Link {
                state: LinkState::Handshake,
                is_initiator: false,
                interface_id,
                mdu: handshake.mdu,
                has_session_keys: handshake.has_session_keys,
                identified: false,
                remote_identity: None,
                resource_strategy: self.settings.resource_strategy,
                expected_hops: None,
                has_channel: false,
            },
        );
        if self.settings.destination.is_some() {
            self.destination_links.insert(link_id, ());
        }
        let binding = LinkEndpointBinding {
            link_id,
            interface_id,
            role: LinkEndpointRole::Responder,
        };
        let ticket: u64 = self.transport.next_ticket;
        self.transport.next_ticket = ticket.wrapping_add(1);
        let _ = self.transport.port.try_send(
            TransportMessage::BindLinkEndpoint { binding, ticket },
        );
        self.transport.binds.insert(
            link_id,
            PendingResponderEndpointBind {
                ownership: ResponderEndpointOwnership { binding, generation },
                ticket,
                destination_hash: self.settings.destination_hash,
                proof: handshake.proof,
            },
        );
        true
    }

    fn settle_bind(&mut self, link_id: [u8; 16], result: Option<LinkEndpointBindResult>)
        ensures
            final(self)@ == old(self)@.bind_settled(link_id, result),
    {
        let bind = match self.transport.binds.remove(&link_id) {
            Some(bind) => bind,
            None => {
                proof {
                    crate::assoc::lemma_cut_absent(old(self)@.transport.binds, link_id);
                }
                return;
            },
        };
        match result {
            Some(LinkEndpointBindResult::Bound) => {
                let current: bool = match self.transport.generations.get(&link_id) {
                    Some(generation) => *generation == bind.ownership.generation,
                    None => false,
                };
                if self.links.contains(&link_id) && current {
                    self.transport.owned.insert(link_id, bind.ownership);
                    // Registering the route and publishing the proof are a
                    // post-bind transaction. A conflicting owner must never
                    // observe either side effect.
                    let _ = self.transport.stage_required_link_control(
                        TransportMessage::RegisterLink {
                            link_id: bind.ownership.binding.link_id,
                            destination_hash: bind.destination_hash,
                            interface_id: bind.ownership.binding.interface_id,
                            next_hop: None,
                            remaining_hops: 0,
                            initiator: false,
                        },
                    );
                    let packet = make_link_packet(
                        bind.ownership.binding.link_id,
                        PacketType::Proof,
                        PacketContext::Lrproof,
                        bind.proof,
                        false,
                    );
                    let _ = self.transport.stage_required_link_control(
                        TransportMessage::OutboundAttached {
                            frame: Frame::Built(packet),
                            destination_hash: bind.ownership.binding.link_id,
                            interface_id: bind.ownership.binding.interface_id,
                        },
                    );
                } else {
                    // The candidate was closed while the request was in flight. This
                    // fresh endpoint is owned, but the Link was never published,
                    // so it is released without deregistering another local role.
                    self.transport.install_endpoint_tombstone(
                        bind.ownership,
                        EndpointCleanupKind::Explicit,
                    );
                    self.transport.stage_endpoint_cleanup(bind.ownership, false);
                }
            },
            _ => {
                // The candidate never acquired endpoint ownership. In particular, an
                // endpoint of a different owner must not be unbound or deregistered here.
                let _ = self.drop_active_link(link_id, CloseReason::DestinationClosed);
            },
        }
    }

    /// An endpoint came to its end.
    pub fn handle_endpoint_terminal(&mut self, event: LinkEndpointLifecycleEvent)
        ensures
            final(self)@ == old(self)@.endpoint_ended(event),
    {
        let binding = event.binding;
        let link_id = binding.link_id;
        let tombstone = match self.transport.tombstones.get(&link_id) {
            Some(t) => if same_binding(&t.ownership.binding, &binding) {
                Some(*t)
            } else {
                None
            },
            None => None,
        };
        if let Some(t) = tombstone {
            let mut seen = t;
            seen.lifecycle_seen = true;
            self.transport.tombstones.insert(link_id, seen);
            if let EndpointCleanupKind::Atomic { accepted: true } = t.kind {
                self.transport.begin_endpoint_finalization(t.ownership, false, true);
                return;
            }
        }
        let current: Option<u64> = match self.transport.generations.get(&link_id) {
            Some(generation) => Some(*generation),
            None => None,
        };
        if let Some(bind) = self.transport.binds.get(&link_id) {
            if same_binding(&bind.ownership.binding, &binding) && current == Some(
                bind.ownership.generation,
            ) {
                // The bind request stays awaited. If the endpoint was bound already,
                // the next pass finds that the candidate's generation is no longer
                // active and releases the dead endpoint without publishing the Link.
                let _ = self.drop_active_link(link_id, CloseReason::DestinationClosed);
                return;
            }
        }
        let owner: bool = match self.transport.owned.get(&link_id) {
            Some(ownership) => same_binding(&ownership.binding, &binding) && current == Some(
                ownership.generation,
            ),
            None => false,
        };
        if owner && self.links.contains(&link_id) {
            let _ = self.drop_active_link(link_id, CloseReason::DestinationClosed);
        }
    }

    fn settle_binds(&mut self) -> (r: bool)
        ensures
            final(self)@ == old(self)@.polled_binds(),
            r == (bind_outcomes(
                old(self)@.transport.binds,
                old(self)@.transport.replies.bind,
            ).len() > 0),
    {
        let outcomes = self.transport.poll_binds();
        let ghost all = outcomes@;
        let ghost start = self@;
        let mut i: usize = 0;
        while i < outcomes.len()
            invariant
                i <= all.len(),
                all == outcomes@,
                self@ == start.binds_settled(all.take(i as int)),
            decreases all.len() - i,
        {
            proof {
                assert(all.take(i + 1).drop_last() =~= all.take(i as int));
                assert(all.take(i + 1).last() == all[i as int]);
            }
            let link_id = outcomes[i].0;
            let result = outcomes[i].1;
            self.settle_bind(link_id, result);
            i = i + 1;
        }
        assert(all.take(i as int) =~= all);
        outcomes.len() > 0
    }

    fn settle_sends(&mut self) -> (r: bool)
        ensures
            final(self)@ == old(self)@.polled_sends(),
            r == (old(self)@.transport.sends_polled().sends.len() != old(
                self,
            )@.transport.sends.len()),
    {
        let before: usize = self.transport.sends.len();
        let (accepted, failed) = self.transport.poll_sends();
        let progressed: bool = self.transport.sends.len() != before;
        let ghost all = accepted@;
        let ghost start = self@;
        let mut i: usize = 0;
        while i < accepted.len()
            invariant
                i <= all.len(),
                all == accepted@,
                self@ == start.final_sends_accepted(all.take(i as int)),
            decreases all.len() - i,
        {
            proof {
                assert(all.take(i + 1).drop_last() =~= all.take(i as int));
                assert(all.take(i + 1).last() == all[i as int]);
            }
            let send = accepted[i];
            self.transport.accept_atomic_endpoint_cleanup(send.link_id, send.role);
            i = i + 1;
        }
        assert(all.take(i as int) =~= all);
        let ghost rest = failed@;
        let ghost middle = self@;
        let mut j: usize = 0;
        while j < failed.len()
            invariant
                j <= rest.len(),
                rest == failed@,
                self@ == middle.sends_failed(rest.take(j as int)),
            decreases rest.len() - j,
        {
            proof {
                assert(rest.take(j + 1).drop_last() =~= rest.take(j as int));
                assert(rest.take(j + 1).last() == rest[j as int]);
            }
            let send = failed[j];
            if send.final_unbind {
                self.transport.refuse_atomic_endpoint_cleanup(send.link_id, send.role);
            } else {
                let _ = self.drop_active_link(send.link_id, CloseReason::DestinationClosed);
            }
            j = j + 1;
        }
        assert(rest.take(j as int) =~= rest);
        progressed
    }

    fn settle_cleanups(&mut self) -> (r: bool)
        ensures
            final(self)@ == old(self)@.polled_cleanups(),
            r == (old(self)@.transport.cleanups_polled().cleanups.len() != old(
                self,
            )@.transport.cleanups.len()),
    {
        let before: usize = self.transport.cleanups.len();
        let released = self.transport.poll_cleanups();
        let progressed: bool = self.transport.cleanups.len() != before;
        let ghost all = released@;
        let ghost start = self@;
        let mut i: usize = 0;
        while i < released.len()
            invariant
                i <= all.len(),
                all == released@,
                self@ == start.endpoints_finalizing(all.take(i as int)),
            decreases all.len() - i,
        {
            proof {
                assert(all.take(i + 1).drop_last() =~= all.take(i as int));
                assert(all.take(i + 1).last() == all[i as int]);
            }
            let e = released[i];
            self.transport.begin_endpoint_finalization(
                e.ownership,
                e.deregister,
                e.lifecycle_required,
            );
            i = i + 1;
        }
        assert(all.take(i as int) =~= all);
        progressed
    }

    /// Looks at the endpoint ends that were reported, and says whether there was one.
    pub fn drain_endpoint_lifecycle(&mut self) -> (r: bool)
        ensures
            final(self)@ == old(self)@.drained_lifecycle(),
            r == (old(self)@.transport.lifecycle.len() > 0),
    {
        let events = self.transport.take_lifecycle();
        let ghost all = events@;
        let ghost start = self@;
        let mut i: usize = 0;
        while i < events.len()
            invariant
                i <= all.len(),
                all == events@,
                self@ == start.endpoints_ended(all.take(i as int)),
            decreases all.len() - i,
        {
            proof {
                assert(all.take(i + 1).drop_last() =~= all.take(i as int));
                assert(all.take(i + 1).last() == all[i as int]);
            }
            let event = events[i];
            self.handle_endpoint_terminal(event);
            i = i + 1;
        }
        assert(all.take(i as int) =~= all);
        events.len() > 0
    }

    /// Acts on everything that the transport has answered or reported, and says
    /// whether there was anything.
    pub fn poll_link_endpoints(&mut self) -> (r: bool)
        ensures
            final(self)@ == old(self)@.endpoints_polled(),
            r == old(self)@.endpoints_progress(),
    {
        let bound: bool = self.settle_binds();
        let sent: bool = self.settle_sends();
        let cleaned: bool = self.settle_cleanups();
        // The barriers come before the final drain. If an acknowledgement arrives
        // after this, the tombstone survives to the next pass and another drain. If
        // it is already there, every causally-prior end is now queued and drained below.
        let answered: bool = self.transport.poll_endpoint_finalizations();
        let drained: bool = self.drain_endpoint_lifecycle();
        let retired: bool = self.transport.retire_endpoint_tombstones();
        bound || sent || cleaned || answered || drained || retired
    }
}

} // verus!
