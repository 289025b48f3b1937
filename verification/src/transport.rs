//! The manager's side of the transport: staged requests, awaited answers, and
//! who owns which Link endpoint.

use std::collections::VecDeque;

use vstd::prelude::*;

use crate::assoc::{find, present, put, select, Assoc, Select};
use crate::port::{Port, PortModel, TrySendError};
use crate::wire::{
    link_packet, make_link_packet, same_binding, LinkEndpointBindResult, LinkEndpointBinding,
    LinkEndpointLifecycleEvent, LinkEndpointRole, LinkEndpointSendResult, LinkEndpointUnbindResult,
    Message, MessageModel, Packet, PacketContext, PacketType, TransportMessage,
};

verus! {

/// How many announces may wait for the transport to have room.
pub const MAX_PENDING_DESTINATION_ANNOUNCES: usize = 256;

/// Link proofs and Resource control packets are emitted after local protocol
/// state has already advanced. A bounded ordered tail is retained when transport
/// ingress is momentarily full so the peer is not left waiting for evidence
/// or flow-control that this manager already committed to sending.
pub const MAX_PENDING_LINK_CONTROL: usize = 256;

/// The models of a sequence of requests.
pub open spec fn models(s: Seq<Message>) -> Seq<MessageModel> {
    s.map_values(|m: Message| m@)
}

/// Answers to requests, under their tickets. `None` stands for a request that
/// will not be answered any more.
pub struct Replies {
    pub bind: Assoc<u64, Option<LinkEndpointBindResult>>,
    pub send: Assoc<u64, Option<LinkEndpointSendResult>>,
    pub unbind: Assoc<u64, Option<LinkEndpointUnbindResult>>,
    /// Whether the path query was answered.
    pub barrier: Assoc<u64, bool>,
}

#[verifier::ext_equal]
pub struct RepliesModel {
    pub bind: Seq<(u64, Option<LinkEndpointBindResult>)>,
    pub send: Seq<(u64, Option<LinkEndpointSendResult>)>,
    pub unbind: Seq<(u64, Option<LinkEndpointUnbindResult>)>,
    pub barrier: Seq<(u64, bool)>,
}

impl View for Replies {
    type V = RepliesModel;

    open spec fn view(&self) -> RepliesModel {
        RepliesModel {
            bind: self.bind@,
            send: self.send@,
            unbind: self.unbind@,
            barrier: self.barrier@,
        }
    }
}

impl RepliesModel {
    /// The answers once `m` was dropped: nobody will answer its ticket.
    pub open spec fn dropped(self, m: MessageModel) -> Self {
        match m {
            TransportMessage::BindLinkEndpoint { ticket, .. } => RepliesModel {
                bind: put(self.bind, ticket, None),
                ..self
            },
            TransportMessage::UnbindLinkEndpoint { ticket, .. } => RepliesModel {
                unbind: put(self.unbind, ticket, None),
                ..self
            },
            TransportMessage::SendLinkEndpoint { ticket, .. } => RepliesModel {
                send: put(self.send, ticket, None),
                ..self
            },
            TransportMessage::SendLinkEndpointAndUnbind { ticket, .. } => RepliesModel {
                send: put(self.send, ticket, None),
                ..self
            },
            TransportMessage::HasPath { ticket, .. } => RepliesModel {
                barrier: put(self.barrier, ticket, false),
                ..self
            },
            _ => self,
        }
    }

    /// The answers once all of `ms` were dropped.
    pub open spec fn dropped_all(self, ms: Seq<MessageModel>) -> Self
        decreases ms.len(),
    {
        if ms.len() == 0 {
            self
        } else {
            self.dropped_all(ms.drop_last()).dropped(ms.last())
        }
    }
}

impl Replies {
    pub fn new() -> (r: Self)
        ensures
            r@ == (RepliesModel {
                bind: Seq::empty(),
                send: Seq::empty(),
                unbind: Seq::empty(),
                barrier: Seq::empty(),
            }),
    {
        Replies { bind: Assoc::new(), send: Assoc::new(), unbind: Assoc::new(), barrier: Assoc::new() }
    }

    fn drop_message(&mut self, message: Message)
        ensures
            final(self)@ == old(self)@.dropped(message@),
    {
        match message {
            TransportMessage::BindLinkEndpoint { ticket, .. } => {
                self.bind.insert(ticket, None);
            },
            TransportMessage::UnbindLinkEndpoint { ticket, .. } => {
                self.unbind.insert(ticket, None);
            },
            TransportMessage::SendLinkEndpoint { ticket, .. } => {
                self.send.insert(ticket, None);
            },
            TransportMessage::SendLinkEndpointAndUnbind { ticket, .. } => {
                self.send.insert(ticket, None);
            },
            TransportMessage::HasPath { ticket, .. } => {
                self.barrier.insert(ticket, false);
            },
            _ => {},
        }
    }
}

/// A port, a queue behind it and the awaited answers after the queue was flushed:
/// the port takes the longest prefix that it has room for, and when its receiver
/// is gone the whole queue is dropped.
pub open spec fn flushed(
    port: PortModel<MessageModel>,
    queue: Seq<MessageModel>,
    replies: RepliesModel,
) -> (PortModel<MessageModel>, Seq<MessageModel>, RepliesModel) {
    if port.closed {
        (port, Seq::empty(), replies.dropped_all(queue))
    } else {
        let n = port.room(queue.len()) as int;
        (port.extend(queue.take(n)), queue.skip(n), replies)
    }
}

fn flush(port: &mut Port<Message>, queue: &mut VecDeque<Message>, replies: &mut Replies)
    ensures
        (final(port)@, models(final(queue)@), final(replies)@) == flushed(
            old(port)@,
            models(old(queue)@),
            old(replies)@,
        ),
{
    let ghost all = queue@;
    let ghost p0 = port@;
    let ghost r0 = replies@;
    let ghost mut n: int = 0;
    let mut going: bool = true;
    proof {
        assert(models(all).take(0) =~= Seq::empty());
        assert(p0.sent + Seq::<MessageModel>::empty() =~= p0.sent);
    }
    while going
        invariant
            0 <= n <= all.len(),
            queue@ == all.skip(n),
            port@.limit == p0.limit,
            port@.closed == p0.closed,
            !p0.closed ==> port@ == p0.extend(models(all).take(n)) && replies@ == r0,
            p0.closed ==> port@ == p0 && replies@ == r0.dropped_all(models(all).take(n)),
            !p0.closed ==> n <= p0.room(all.len()),
            !going ==> if p0.closed {
                n == all.len()
            } else {
                n == p0.room(all.len())
            },
        decreases all.len() - n + (if going {
            1int
        } else {
            0int
        }),
    {
        match queue.pop_front() {
            None => {
                going = false;
            },
            Some(message) => {
                let ghost m = message@;
                proof {
                    assert(m == models(all)[n]);
                    assert(models(all).take(n + 1) =~= models(all).take(n).push(m));
                    assert(models(all).take(n + 1).drop_last() =~= models(all).take(n));
                    assert(all.skip(n).subrange(1, all.skip(n).len() as int) =~= all.skip(n + 1));
                }
                match port.try_send(message) {
                    Ok(_) => {
                        proof {
                            n = n + 1;
                            assert(port@ =~= p0.extend(models(all).take(n)));
                        }
                    },
                    Err(TrySendError::Full(message)) => {
                        queue.push_front(message);
                        assert(queue@ =~= all.skip(n));
                        going = false;
                    },
                    Err(TrySendError::Closed(message)) => {
                        replies.drop_message(message);
                        proof {
                            n = n + 1;
                        }
                    },
                }
            },
        }
    }
    proof {
        assert(models(all.skip(n)) =~= models(all).skip(n));
        if p0.closed {
            assert(models(all).take(n) =~= models(all));
            assert(models(queue@) =~= Seq::empty());
        }
    }
}

/// Who bound a Link endpoint, and in which generation of the Link's state.
#[derive(Debug, Clone, Copy)]
pub struct ResponderEndpointOwnership {
    pub binding: LinkEndpointBinding,
    pub generation: u64,
}

/// How an endpoint is being released.
#[derive(Debug, Clone, Copy, PartialEq, Eq, Structural)]
pub enum EndpointCleanupKind {
    /// By an unbind request of its own.
    Explicit,
    /// Together with the last packet that is sent through it.
    Atomic { accepted: bool },
}

/// An endpoint that is being released. No Link of the same id is accepted until
/// it is retired.
#[derive(Debug, Clone, Copy)]
pub struct ResponderEndpointTombstone {
    pub ownership: ResponderEndpointOwnership,
    pub kind: EndpointCleanupKind,
    pub lifecycle_seen: bool,
    pub lifecycle_required: bool,
    pub barrier_acknowledged: bool,
    /// The ticket of the barrier query that is on its way.
    pub finalization: Option<u64>,
}

impl ResponderEndpointTombstone {
    /// Whether the tombstone has served: its barrier is acknowledged, and the end
    /// of the endpoint was seen if it was to be.
    pub open spec fn served(self) -> bool {
        self.barrier_acknowledged && (!self.lifecycle_required || self.lifecycle_seen)
    }
}

/// Selects the tombstones that have not served yet.
pub struct NotServed {}

impl Select<[u8; 16], ResponderEndpointTombstone> for NotServed {
    open spec fn selects(self, e: ([u8; 16], ResponderEndpointTombstone)) -> bool {
        !e.1.served()
    }

    fn keep(&self, k: &[u8; 16], v: &ResponderEndpointTombstone) -> (r: bool) {
        !v.barrier_acknowledged || (v.lifecycle_required && !v.lifecycle_seen)
    }
}

/// A bind request that is on its way. What it takes to publish the Link waits here.
#[derive(Debug)]
pub struct PendingResponderEndpointBind {
    pub ownership: ResponderEndpointOwnership,
    pub ticket: u64,
    pub destination_hash: [u8; 16],
    pub proof: Vec<u8>,
}

#[derive(Debug, Clone, Copy)]
pub struct PendingResponderEndpointCleanup {
    pub ownership: ResponderEndpointOwnership,
    pub deregister_on_success: bool,
    pub ticket: u64,
}

#[derive(Debug, Clone, Copy)]
pub struct PendingLinkEndpointSend {
    pub ticket: u64,
    pub link_id: [u8; 16],
    pub role: LinkEndpointRole,
    pub final_unbind: bool,
}

pub fn same_ownership(a: &ResponderEndpointOwnership, b: &ResponderEndpointOwnership) -> (r: bool)
    ensures
        r == (*a == *b),
{
    same_binding(&a.binding, &b.binding) && a.generation == b.generation
}

/// A send request that did not go out.
#[derive(Debug, Clone, Copy)]
pub struct FailedSend {
    pub link_id: [u8; 16],
    pub role: LinkEndpointRole,
    pub final_unbind: bool,
}

/// The last packet of an endpoint, taken by the transport.
#[derive(Debug, Clone, Copy)]
pub struct AcceptedFinalSend {
    pub link_id: [u8; 16],
    pub role: LinkEndpointRole,
}

/// An endpoint that the transport has released.
#[derive(Debug, Clone, Copy)]
pub struct ReleasedEndpoint {
    pub ownership: ResponderEndpointOwnership,
    pub deregister: bool,
    pub lifecycle_required: bool,
}

/// The bind requests that were answered, or will not be, in order.
pub open spec fn bind_outcomes(
    binds: Seq<([u8; 16], PendingResponderEndpointBind)>,
    replies: Seq<(u64, Option<LinkEndpointBindResult>)>,
) -> Seq<([u8; 16], Option<LinkEndpointBindResult>)>
    decreases binds.len(),
{
    if binds.len() == 0 {
        Seq::empty()
    } else {
        let rest = bind_outcomes(binds.drop_last(), replies);
        match find(replies, binds.last().1.ticket) {
            Some(result) => rest.push((binds.last().0, result)),
            None => rest,
        }
    }
}

/// Whether the packet went out, or will.
pub open spec fn went_out(result: Option<LinkEndpointSendResult>) -> bool {
    match result {
        Some(LinkEndpointSendResult::Sent) => true,
        Some(LinkEndpointSendResult::Queued { .. }) => true,
        _ => false,
    }
}

/// The last packets of endpoints that went out, in order.
pub open spec fn accepted_final_sends(
    sends: Seq<PendingLinkEndpointSend>,
    replies: Seq<(u64, Option<LinkEndpointSendResult>)>,
) -> Seq<AcceptedFinalSend>
    decreases sends.len(),
{
    if sends.len() == 0 {
        Seq::empty()
    } else {
        let rest = accepted_final_sends(sends.drop_last(), replies);
        let p = sends.last();
        match find(replies, p.ticket) {
            Some(result) => if went_out(result) && p.final_unbind {
                rest.push(AcceptedFinalSend { link_id: p.link_id, role: p.role })
            } else {
                rest
            },
            None => rest,
        }
    }
}

/// The packets that did not go out, in order.
pub open spec fn failed_sends(
    sends: Seq<PendingLinkEndpointSend>,
    replies: Seq<(u64, Option<LinkEndpointSendResult>)>,
) -> Seq<FailedSend>
    decreases sends.len(),
{
    if sends.len() == 0 {
        Seq::empty()
    } else {
        let rest = failed_sends(sends.drop_last(), replies);
        let p = sends.last();
        match find(replies, p.ticket) {
            Some(result) => if went_out(result) {
                rest
            } else {
                rest.push(
                    FailedSend { link_id: p.link_id, role: p.role, final_unbind: p.final_unbind },
                )
            },
            None => rest,
        }
    }
}

/// `s` with its element at `i` taken out and its last element in that place.
pub open spec fn swap_removed<T>(s: Seq<T>, i: int) -> Seq<T> {
    s.update(i, s.last()).drop_last()
}

/// The sends among the first `n`, from the last of them to the first, taken out
/// if they were answered.
pub open spec fn unanswered_sends(
    sends: Seq<PendingLinkEndpointSend>,
    replies: Seq<(u64, Option<LinkEndpointSendResult>)>,
    n: nat,
) -> Seq<PendingLinkEndpointSend>
    decreases n,
{
    if n == 0 || n > sends.len() {
        sends
    } else if present(replies, sends[n - 1].ticket) {
        unanswered_sends(swap_removed(sends, n - 1), replies, (n - 1) as nat)
    } else {
        unanswered_sends(sends, replies, (n - 1) as nat)
    }
}

/// The endpoints that the transport has released, in order. One that is bound
/// in another role is left registered.
pub open spec fn released_endpoints(
    cleanups: Seq<PendingResponderEndpointCleanup>,
    replies: Seq<(u64, Option<LinkEndpointUnbindResult>)>,
) -> Seq<ReleasedEndpoint>
    decreases cleanups.len(),
{
    if cleanups.len() == 0 {
        Seq::empty()
    } else {
        let rest = released_endpoints(cleanups.drop_last(), replies);
        let p = cleanups.last();
        match find(replies, p.ticket) {
            Some(Some(LinkEndpointUnbindResult::Unbound)) => rest.push(
                ReleasedEndpoint {
                    ownership: p.ownership,
                    deregister: p.deregister_on_success,
                    lifecycle_required: true,
                },
            ),
            Some(Some(LinkEndpointUnbindResult::NotBound)) => rest.push(
                ReleasedEndpoint {
                    ownership: p.ownership,
                    deregister: p.deregister_on_success,
                    lifecycle_required: false,
                },
            ),
            Some(Some(LinkEndpointUnbindResult::RoleMismatch)) => rest.push(
                ReleasedEndpoint {
                    ownership: p.ownership,
                    deregister: false,
                    lifecycle_required: false,
                },
            ),
            _ => rest,
        }
    }
}

/// The cleanups among the first `n`, from the last of them to the first, taken
/// out if they were answered.
pub open spec fn unanswered_cleanups(
    cleanups: Seq<PendingResponderEndpointCleanup>,
    replies: Seq<(u64, Option<LinkEndpointUnbindResult>)>,
    n: nat,
) -> Seq<PendingResponderEndpointCleanup>
    decreases n,
{
    if n == 0 || n > cleanups.len() {
        cleanups
    } else if present(replies, cleanups[n - 1].ticket) {
        unanswered_cleanups(swap_removed(cleanups, n - 1), replies, (n - 1) as nat)
    } else {
        unanswered_cleanups(cleanups, replies, (n - 1) as nat)
    }
}

/// A tombstone after its barrier was looked at.
pub open spec fn barrier_polled(
    t: ResponderEndpointTombstone,
    replies: Seq<(u64, bool)>,
) -> ResponderEndpointTombstone {
    match t.finalization {
        Some(ticket) => match find(replies, ticket) {
            Some(answered) => ResponderEndpointTombstone {
                barrier_acknowledged: t.barrier_acknowledged || answered,
                finalization: None,
                ..t
            },
            None => t,
        },
        None => t,
    }
}

/// Whether the tombstone's barrier was answered.
pub open spec fn barrier_answered(
    t: ResponderEndpointTombstone,
    replies: Seq<(u64, bool)>,
) -> bool {
    match t.finalization {
        Some(ticket) => find(replies, ticket) == Some(true),
        None => false,
    }
}

/// The manager's side of the transport.
pub struct Transport {
    /// Transport ingress.
    pub port: Port<Message>,
    /// Ordered Link control that waits for room in the port.
    pub control: VecDeque<Message>,
    /// Destination announces accepted while the bounded transport ingress is
    /// momentarily full. Path responses are required to establish remote
    /// Links, so they must survive transient traffic bursts.
    pub announces: VecDeque<Message>,
    pub replies: Replies,
    pub next_ticket: u64,
    pub sends: Vec<PendingLinkEndpointSend>,
    pub cleanups: Vec<PendingResponderEndpointCleanup>,
    /// Endpoint ends that were reported and not looked at yet.
    pub lifecycle: VecDeque<LinkEndpointLifecycleEvent>,
    pub binds: Assoc<[u8; 16], PendingResponderEndpointBind>,
    pub owned: Assoc<[u8; 16], ResponderEndpointOwnership>,
    pub generations: Assoc<[u8; 16], u64>,
    pub tombstones: Assoc<[u8; 16], ResponderEndpointTombstone>,
    pub next_generation: u64,
}

#[verifier::ext_equal]
pub struct TransportModel {
    pub port: PortModel<MessageModel>,
    pub control: Seq<MessageModel>,
    pub announces: Seq<MessageModel>,
    pub replies: RepliesModel,
    pub next_ticket: u64,
    pub sends: Seq<PendingLinkEndpointSend>,
    pub cleanups: Seq<PendingResponderEndpointCleanup>,
    pub lifecycle: Seq<LinkEndpointLifecycleEvent>,
    pub binds: Seq<([u8; 16], PendingResponderEndpointBind)>,
    pub owned: Seq<([u8; 16], ResponderEndpointOwnership)>,
    pub generations: Seq<([u8; 16], u64)>,
    pub tombstones: Seq<([u8; 16], ResponderEndpointTombstone)>,
    pub next_generation: u64,
}

impl View for Transport {
    type V = TransportModel;

    open spec fn view(&self) -> TransportModel {
        TransportModel {
            port: self.port@,
            control: models(self.control@),
            announces: models(self.announces@),
            replies: self.replies@,
            next_ticket: self.next_ticket,
            sends: self.sends@,
            cleanups: self.cleanups@,
            lifecycle: self.lifecycle@,
            binds: self.binds@,
            owned: self.owned@,
            generations: self.generations@,
            tombstones: self.tombstones@,
            next_generation: self.next_generation,
        }
    }
}

impl TransportModel {
    /// The transport without anything staged, awaited or owned.
    pub open spec fn initial(port: PortModel<MessageModel>) -> Self {
        TransportModel {
            port,
            control: Seq::empty(),
            announces: Seq::empty(),
            replies: RepliesModel {
                bind: Seq::empty(),
                send: Seq::empty(),
                unbind: Seq::empty(),
                barrier: Seq::empty(),
            },
            next_ticket: 0,
            sends: Seq::empty(),
            cleanups: Seq::empty(),
            lifecycle: Seq::empty(),
            binds: Seq::empty(),
            owned: Seq::empty(),
            generations: Seq::empty(),
            tombstones: Seq::empty(),
            next_generation: 1,
        }
    }

    /// One request offered to the port, and dropped if the port does not take it.
    pub open spec fn tried(self, m: MessageModel) -> Self {
        if self.port.accepts() {
            TransportModel { port: self.port.offer(m), ..self }
        } else {
            TransportModel { replies: self.replies.dropped(m), ..self }
        }
    }

    /// Whether ordered control is retained: in the port, or behind what waits
    /// already. `bounded` says whether the retry limit applies.
    pub open spec fn retains(self, bounded: bool) -> bool {
        if self.control.len() == 0 {
            !self.port.closed
        } else {
            !bounded || self.control.len() < MAX_PENDING_LINK_CONTROL
        }
    }

    /// Ordered control staged: retained as [`Self::retains`] says, else dropped.
    pub open spec fn staged(self, m: MessageModel, bounded: bool) -> Self {
        if !self.retains(bounded) {
            TransportModel { replies: self.replies.dropped(m), ..self }
        } else if self.control.len() == 0 && !self.port.full() {
            TransportModel { port: self.port.offer(m), ..self }
        } else {
            TransportModel { control: self.control.push(m), ..self }
        }
    }

    pub open spec fn control_flushed(self) -> Self {
        let (port, control, replies) = flushed(self.port, self.control, self.replies);
        TransportModel { port, control, replies, ..self }
    }

    pub open spec fn announces_flushed(self) -> Self {
        let (port, announces, replies) = flushed(self.port, self.announces, self.replies);
        TransportModel { port, announces, replies, ..self }
    }

    /// Whether an announce is taken: when announces wait already, if fewer than
    /// the limit do; else unless the transport is gone.
    pub open spec fn takes_announce(self) -> bool {
        if self.announces.len() > 0 {
            self.announces.len() < MAX_PENDING_DESTINATION_ANNOUNCES
        } else {
            !self.port.closed
        }
    }

    /// An announce after those that wait already.
    pub open spec fn announce_queued(self, m: MessageModel) -> Self {
        if self.announces.len() > 0 {
            if self.announces.len() < MAX_PENDING_DESTINATION_ANNOUNCES {
                TransportModel { announces: self.announces.push(m), ..self }.announces_flushed()
            } else {
                TransportModel { replies: self.replies.dropped(m), ..self }
            }
        } else if self.port.closed {
            TransportModel { replies: self.replies.dropped(m), ..self }
        } else if self.port.full() {
            TransportModel { announces: self.announces.push(m), ..self }
        } else {
            TransportModel { port: self.port.offer(m), ..self }
        }
    }

    pub open spec fn ticketed(self) -> Self {
        TransportModel { next_ticket: self.next_ticket.wrapping_add(1), ..self }
    }

    /// A send request is about to go out, and its result will be looked for.
    pub open spec fn send_expected(
        self,
        link_id: [u8; 16],
        role: LinkEndpointRole,
        final_unbind: bool,
    ) -> Self {
        TransportModel {
            sends: self.sends.push(
                PendingLinkEndpointSend { ticket: self.next_ticket, link_id, role, final_unbind },
            ),
            ..self.ticketed()
        }
    }

    /// A packet sent through the Link's endpoint at once, or not at all.
    pub open spec fn packet_tried(
        self,
        link_id: [u8; 16],
        role: LinkEndpointRole,
        packet: Packet<Seq<u8>>,
    ) -> Self {
        self.send_expected(link_id, role, false).tried(
            TransportMessage::SendLinkEndpoint { link_id, role, packet, ticket: self.next_ticket },
        )
    }

    /// A packet staged for the Link's endpoint as ordered control.
    pub open spec fn packet_staged(
        self,
        link_id: [u8; 16],
        role: LinkEndpointRole,
        packet: Packet<Seq<u8>>,
    ) -> Self {
        self.send_expected(link_id, role, false).staged(
            TransportMessage::SendLinkEndpoint { link_id, role, packet, ticket: self.next_ticket },
            true,
        )
    }

    /// The last packet of an endpoint, which is released when the packet is out.
    pub open spec fn final_packet_staged(
        self,
        link_id: [u8; 16],
        role: LinkEndpointRole,
        packet: Packet<Seq<u8>>,
    ) -> Self {
        self.send_expected(link_id, role, true).staged(
            TransportMessage::SendLinkEndpointAndUnbind {
                link_id,
                role,
                packet,
                ticket: self.next_ticket,
            },
            true,
        )
    }

    pub open spec fn cleanup_staged(
        self,
        ownership: ResponderEndpointOwnership,
        deregister_on_success: bool,
    ) -> Self {
        TransportModel {
            cleanups: self.cleanups.push(
                PendingResponderEndpointCleanup {
                    ownership,
                    deregister_on_success,
                    ticket: self.next_ticket,
                },
            ),
            ..self.ticketed()
        }.staged(
            TransportMessage::UnbindLinkEndpoint {
                link_id: ownership.binding.link_id,
                role: ownership.binding.role,
                ticket: self.next_ticket,
            },
            false,
        )
    }

    /// A tombstone for the endpoint, unless the Link's id has one already.
    pub open spec fn tombstone_installed(
        self,
        ownership: ResponderEndpointOwnership,
        kind: EndpointCleanupKind,
    ) -> Self {
        let link_id = ownership.binding.link_id;
        if present(self.tombstones, link_id) {
            self
        } else {
            TransportModel {
                tombstones: put(
                    self.tombstones,
                    link_id,
                    ResponderEndpointTombstone {
                        ownership,
                        kind,
                        lifecycle_seen: false,
                        lifecycle_required: false,
                        barrier_acknowledged: false,
                        finalization: None,
                    },
                ),
                ..self
            }
        }
    }

    /// The kind of release of the tombstone under `link_id`, changed.
    pub open spec fn kind_set(self, link_id: [u8; 16], kind: EndpointCleanupKind) -> Self {
        match find(self.tombstones, link_id) {
            Some(t) => TransportModel {
                tombstones: put(
                    self.tombstones,
                    link_id,
                    ResponderEndpointTombstone { kind, ..t },
                ),
                ..self
            },
            None => self,
        }
    }

    /// Whether the tombstone of exactly this ownership has no barrier on its way.
    pub open spec fn can_finalize(self, ownership: ResponderEndpointOwnership) -> bool {
        match find(self.tombstones, ownership.binding.link_id) {
            Some(t) => t.ownership == ownership && t.finalization is None,
            None => false,
        }
    }

    /// The barrier that proves that nothing of the endpoint is left in the
    /// transport, after the Link's destination was deregistered if asked for.
    pub open spec fn finalization_begun(
        self,
        ownership: ResponderEndpointOwnership,
        deregister: bool,
        lifecycle_required: bool,
    ) -> Self {
        let link_id = ownership.binding.link_id;
        if !self.can_finalize(ownership) {
            self
        } else {
            let t = find(self.tombstones, link_id)->0;
            let s1 = if deregister {
                self.staged(TransportMessage::DeregisterDestination { hash: link_id }, false)
            } else {
                self
            };
            let s2 = s1.ticketed().staged(
                TransportMessage::HasPath { dest: link_id, ticket: s1.next_ticket },
                false,
            );
            TransportModel {
                tombstones: put(
                    self.tombstones,
                    link_id,
                    ResponderEndpointTombstone {
                        lifecycle_required: t.lifecycle_required || lifecycle_required,
                        finalization: Some(s1.next_ticket),
                        ..t
                    },
                ),
                ..s2
            }
        }
    }

    /// The transport took the last packet of the endpoint under `link_id`.
    pub open spec fn atomic_accepted(self, link_id: [u8; 16], role: LinkEndpointRole) -> Self {
        match find(self.tombstones, link_id) {
            Some(t) => if t.ownership.binding.role == role && t.kind is Atomic {
                let s = self.kind_set(link_id, EndpointCleanupKind::Atomic { accepted: true });
                if t.lifecycle_seen {
                    s.finalization_begun(t.ownership, false, true)
                } else {
                    s
                }
            } else {
                self
            },
            None => self,
        }
    }

    /// The transport refused the last packet of the endpoint under `link_id`: the
    /// endpoint is released by a request of its own.
    pub open spec fn atomic_refused(self, link_id: [u8; 16], role: LinkEndpointRole) -> Self {
        match find(self.tombstones, link_id) {
            Some(t) => if t.ownership.binding.role == role {
                self.kind_set(link_id, EndpointCleanupKind::Explicit).cleanup_staged(
                    t.ownership,
                    true,
                )
            } else {
                self
            },
            None => self,
        }
    }

    pub open spec fn binds_polled(self) -> Self {
        TransportModel { replies: RepliesModel { bind: Seq::empty(), ..self.replies }, ..self }
    }

    pub open spec fn sends_polled(self) -> Self {
        TransportModel {
            sends: unanswered_sends(self.sends, self.replies.send, self.sends.len()),
            replies: RepliesModel { send: Seq::empty(), ..self.replies },
            ..self
        }
    }

    pub open spec fn cleanups_polled(self) -> Self {
        TransportModel {
            cleanups: unanswered_cleanups(self.cleanups, self.replies.unbind, self.cleanups.len()),
            replies: RepliesModel { unbind: Seq::empty(), ..self.replies },
            ..self
        }
    }

    pub open spec fn finalizations_polled(self) -> Self {
        TransportModel {
            tombstones: self.tombstones.map_values(
                |e: ([u8; 16], ResponderEndpointTombstone)|
                    (e.0, barrier_polled(e.1, self.replies.barrier)),
            ),
            replies: RepliesModel { barrier: Seq::empty(), ..self.replies },
            ..self
        }
    }

    /// Whether some barrier was answered.
    pub open spec fn some_barrier_answered(self) -> bool {
        exists|i: int|
            0 <= i < self.tombstones.len() && barrier_answered(
                (#[trigger] self.tombstones[i]).1,
                self.replies.barrier,
            )
    }

    pub open spec fn tombstones_retired(self) -> Self {
        TransportModel {
            tombstones: select(self.tombstones, NotServed {  }),
            ..self
        }
    }
}

impl Transport {
    pub fn new(port: Port<Message>) -> (r: Self)
        ensures
            r@ == TransportModel::initial(port@),
    {
        let r = Transport {
            port,
            control: VecDeque::new(),
            announces: VecDeque::new(),
            replies: Replies::new(),
            next_ticket: 0,
            sends: Vec::new(),
            cleanups: Vec::new(),
            lifecycle: VecDeque::new(),
            binds: Assoc::new(),
            owned: Assoc::new(),
            generations: Assoc::new(),
            tombstones: Assoc::new(),
            next_generation: 1,
        };
        assert(models(Seq::<Message>::empty()) =~= Seq::empty());
        r
    }

    /// Offers `message` to the port. A message that is not accepted is dropped.
    pub fn try_message(&mut self, message: Message) -> (r: bool)
        ensures
            final(self)@ == old(self)@.tried(message@),
            r == old(self)@.port.accepts(),
    {
        match self.port.try_send(message) {
            Ok(_) => true,
            Err(TrySendError::Full(m)) | Err(TrySendError::Closed(m)) => {
                self.replies.drop_message(m);
                false
            },
        }
    }

    fn stage(&mut self, message: Message, bounded: bool) -> (r: bool)
        ensures
            final(self)@ == old(self)@.staged(message@, bounded),
            r == old(self)@.retains(bounded),
    {
        let ghost before = self.control@;
        assert(models(before.push(message)) =~= models(before).push(message@));
        if self.control.len() == 0 {
            match self.port.try_send(message) {
                Ok(_) => {
                    return true;
                },
                Err(TrySendError::Full(m)) => {
                    self.control.push_back(m);
                    return true;
                },
                Err(TrySendError::Closed(m)) => {
                    self.replies.drop_message(m);
                    return false;
                },
            }
        }
        if bounded && self.control.len() >= MAX_PENDING_LINK_CONTROL {
            self.replies.drop_message(message);
            return false;
        }
        self.control.push_back(message);
        true
    }

    /// Stages ordered Link control, within the retry limit.
    pub fn stage_link_control(&mut self, message: Message) -> (r: bool)
        ensures
            final(self)@ == old(self)@.staged(message@, true),
            r == old(self)@.retains(true),
    {
        self.stage(message, true)
    }

    /// Stages ownership/cleanup control without dropping it at the ordinary
    /// protocol retry limit. These messages are finite per Link and must
    /// survive transient ingress backpressure to preserve endpoint ordering.
    pub fn stage_required_link_control(&mut self, message: Message) -> (r: bool)
        ensures
            final(self)@ == old(self)@.staged(message@, false),
            r == old(self)@.retains(false),
    {
        self.stage(message, false)
    }

    /// Sends what waits, in order, as far as there is room.
    pub fn flush_pending_link_control(&mut self)
        ensures
            final(self)@ == old(self)@.control_flushed(),
    {
        flush(&mut self.port, &mut self.control, &mut self.replies);
    }

    /// Sends the announces that wait, in order, as far as there is room.
    pub fn flush_pending_destination_announces(&mut self)
        ensures
            final(self)@ == old(self)@.announces_flushed(),
    {
        flush(&mut self.port, &mut self.announces, &mut self.replies);
    }

    /// Sends an announce after those that wait already. `false` when too many
    /// wait or the transport is gone.
    pub fn queue_destination_announce(&mut self, message: Message) -> (r: bool)
        ensures
            final(self)@ == old(self)@.announce_queued(message@),
            r == old(self)@.takes_announce(),
    {
        let ghost before = self.announces@;
        assert(models(before.push(message)) =~= models(before).push(message@));
        if self.announces.len() != 0 {
            if self.announces.len() >= MAX_PENDING_DESTINATION_ANNOUNCES {
                self.replies.drop_message(message);
                return false;
            }
            self.announces.push_back(message);
            self.flush_pending_destination_announces();
            return true;
        }
        match self.port.try_send(message) {
            Ok(_) => true,
            Err(TrySendError::Full(m)) => {
                self.announces.push_back(m);
                true
            },
            Err(TrySendError::Closed(m)) => {
                self.replies.drop_message(m);
                false
            },
        }
    }

    fn take_ticket(&mut self) -> (r: u64)
        ensures
            r == old(self)@.next_ticket,
            final(self)@ == old(self)@.ticketed(),
    {
        let ticket: u64 = self.next_ticket;
        self.next_ticket = ticket.wrapping_add(1);
        ticket
    }

    fn endpoint_send_message(
        &mut self,
        link_id: [u8; 16],
        role: LinkEndpointRole,
        packet: Packet<Vec<u8>>,
    ) -> (r: Message)
        ensures
            final(self)@ == old(self)@.send_expected(link_id, role, false),
            r@ == (MessageModel::SendLinkEndpoint {
                link_id,
                role,
                packet: packet@,
                ticket: old(self)@.next_ticket,
            }),
    {
        let ticket: u64 = self.take_ticket();
        self.sends.push(PendingLinkEndpointSend { ticket, link_id, role, final_unbind: false });
        TransportMessage::SendLinkEndpoint { link_id, role, packet, ticket }
    }

    fn endpoint_send_and_unbind_message(
        &mut self,
        link_id: [u8; 16],
        role: LinkEndpointRole,
        packet: Packet<Vec<u8>>,
    ) -> (r: Message)
        ensures
            final(self)@ == old(self)@.send_expected(link_id, role, true),
            r@ == (MessageModel::SendLinkEndpointAndUnbind {
                link_id,
                role,
                packet: packet@,
                ticket: old(self)@.next_ticket,
            }),
    {
        let ticket: u64 = self.take_ticket();
        self.sends.push(PendingLinkEndpointSend { ticket, link_id, role, final_unbind: true });
        TransportMessage::SendLinkEndpointAndUnbind { link_id, role, packet, ticket }
    }

    /// Sends a packet through the Link's endpoint at once, or drops it.
    pub fn try_packet(&mut self, link_id: [u8; 16], role: LinkEndpointRole, packet: Packet<Vec<u8>>)
        ensures
            final(self)@ == old(self)@.packet_tried(link_id, role, packet@),
    {
        let message = self.endpoint_send_message(link_id, role, packet);
        let _ = self.try_message(message);
    }

    /// Stages a packet for the Link's endpoint as ordered control.
    pub fn stage_packet(
        &mut self,
        link_id: [u8; 16],
        role: LinkEndpointRole,
        packet: Packet<Vec<u8>>,
    ) -> (r: bool)
        ensures
            final(self)@ == old(self)@.packet_staged(link_id, role, packet@),
            r == old(self)@.retains(true),
    {
        let message = self.endpoint_send_message(link_id, role, packet);
        self.stage_link_control(message)
    }

    /// Stages the packet that closes a Link; its endpoint goes with it.
    pub fn send_link_close_packet(
        &mut self,
        link_id: [u8; 16],
        role: LinkEndpointRole,
        teardown_data: Vec<u8>,
    ) -> (r: bool)
        ensures
            final(self)@ == old(self)@.final_packet_staged(
                link_id,
                role,
                link_packet(
                    link_id,
                    PacketType::Data,
                    PacketContext::LinkClose,
                    teardown_data@,
                    false,
                ),
            ),
            r == old(self)@.retains(true),
    {
        let packet = make_link_packet(
            link_id,
            PacketType::Data,
            PacketContext::LinkClose,
            teardown_data,
            false,
        );
        let message = self.endpoint_send_and_unbind_message(link_id, role, packet);
        self.stage_link_control(message)
    }

    pub fn stage_endpoint_cleanup(
        &mut self,
        ownership: ResponderEndpointOwnership,
        deregister_on_success: bool,
    )
        ensures
            final(self)@ == old(self)@.cleanup_staged(ownership, deregister_on_success),
    {
        let ticket: u64 = self.take_ticket();
        self.cleanups.push(
            PendingResponderEndpointCleanup { ownership, deregister_on_success, ticket },
        );
        let _ = self.stage_required_link_control(
            TransportMessage::UnbindLinkEndpoint {
                link_id: ownership.binding.link_id,
                role: ownership.binding.role,
                ticket,
            },
        );
    }

    pub fn install_endpoint_tombstone(
        &mut self,
        ownership: ResponderEndpointOwnership,
        kind: EndpointCleanupKind,
    )
        ensures
            final(self)@ == old(self)@.tombstone_installed(ownership, kind),
    {
        if !self.tombstones.contains(&ownership.binding.link_id) {
            self.tombstones.insert(
                ownership.binding.link_id,
                ResponderEndpointTombstone {
                    ownership,
                    kind,
                    lifecycle_seen: false,
                    lifecycle_required: false,
                    barrier_acknowledged: false,
                    finalization: None,
                },
            );
        }
    }

    pub fn set_cleanup_kind(&mut self, link_id: [u8; 16], kind: EndpointCleanupKind)
        ensures
            final(self)@ == old(self)@.kind_set(link_id, kind),
    {
        if let Some(t) = self.tombstones.get_mut(&link_id) {
            t.kind = kind;
        }
    }

    pub fn begin_endpoint_finalization(
        &mut self,
        ownership: ResponderEndpointOwnership,
        deregister: bool,
        lifecycle_required: bool,
    )
        ensures
            final(self)@ == old(self)@.finalization_begun(
                ownership,
                deregister,
                lifecycle_required,
            ),
    {
        let link_id = ownership.binding.link_id;
        let mut tombstone = match self.tombstones.get(&link_id) {
            Some(t) => *t,
            None => {
                return;
            },
        };
        if !same_ownership(&tombstone.ownership, &ownership) || tombstone.finalization.is_some() {
            return;
        }
        if deregister {
            let _ = self.stage_required_link_control(
                TransportMessage::DeregisterDestination { hash: link_id },
            );
        }
        let ticket: u64 = self.take_ticket();
        let _ = self.stage_required_link_control(
            TransportMessage::HasPath { dest: link_id, ticket },
        );
        tombstone.lifecycle_required = tombstone.lifecycle_required || lifecycle_required;
        tombstone.finalization = Some(ticket);
        self.tombstones.insert(link_id, tombstone);
    }

    pub fn accept_atomic_endpoint_cleanup(&mut self, link_id: [u8; 16], role: LinkEndpointRole)
        ensures
            final(self)@ == old(self)@.atomic_accepted(link_id, role),
    {
        let tombstone = match self.tombstones.get(&link_id) {
            Some(t) => *t,
            None => {
                return;
            },
        };
        if tombstone.ownership.binding.role != role {
            return;
        }
        match tombstone.kind {
            EndpointCleanupKind::Explicit => {},
            EndpointCleanupKind::Atomic { .. } => {
                self.set_cleanup_kind(link_id, EndpointCleanupKind::Atomic { accepted: true });
                if tombstone.lifecycle_seen {
                    // Atomic transport cleanup already deregisters after final FIFO
                    // drain; the barrier only proves that operation is fully ordered.
                    self.begin_endpoint_finalization(tombstone.ownership, false, true);
                }
            },
        }
    }

    pub fn refuse_atomic_endpoint_cleanup(&mut self, link_id: [u8; 16], role: LinkEndpointRole)
        ensures
            final(self)@ == old(self)@.atomic_refused(link_id, role),
    {
        let tombstone = match self.tombstones.get(&link_id) {
            Some(t) => *t,
            None => {
                return;
            },
        };
        if tombstone.ownership.binding.role != role {
            return;
        }
        self.set_cleanup_kind(link_id, EndpointCleanupKind::Explicit);
        self.stage_endpoint_cleanup(tombstone.ownership, true);
    }

    /// Takes the endpoint ends that were reported.
    pub fn take_lifecycle(&mut self) -> (r: Vec<LinkEndpointLifecycleEvent>)
        ensures
            r@ == old(self)@.lifecycle,
            final(self)@ == (TransportModel { lifecycle: Seq::empty(), ..old(self)@ }),
    {
        let ghost all = self.lifecycle@;
        let mut out: Vec<LinkEndpointLifecycleEvent> = Vec::new();
        while self.lifecycle.len() > 0
            invariant
                out@ + self.lifecycle@ == all,
                self@ == (TransportModel { lifecycle: self.lifecycle@, ..old(self)@ }),
            decreases self.lifecycle@.len(),
        {
            let ghost before = self.lifecycle@;
            let ghost taken = out@;
            if let Some(event) = self.lifecycle.pop_front() {
                out.push(event);
                assert(out@ + self.lifecycle@ =~= taken + before);
            }
        }
        assert(out@ =~= all);
        assert(self.lifecycle@ =~= Seq::empty());
        out
    }

    /// The bind requests that are settled. Their answers are taken.
    pub fn poll_binds(&mut self) -> (r: Vec<([u8; 16], Option<LinkEndpointBindResult>)>)
        ensures
            r@ == bind_outcomes(old(self)@.binds, old(self)@.replies.bind),
            final(self)@ == old(self)@.binds_polled(),
    {
        let ghost binds = self.binds@;
        let mut out: Vec<([u8; 16], Option<LinkEndpointBindResult>)> = Vec::new();
        let mut i: usize = 0;
        while i < self.binds.entries.len()
            invariant
                i <= binds.len(),
                binds == self.binds@,
                *self == *old(self),
                out@ == bind_outcomes(binds.take(i as int), self.replies@.bind),
            decreases binds.len() - i,
        {
            proof {
                assert(binds.take(i + 1).drop_last() =~= binds.take(i as int));
                assert(binds.take(i + 1).last() == binds[i as int]);
            }
            let link_id = self.binds.entries[i].0;
            if let Some(result) = self.replies.bind.get(&self.binds.entries[i].1.ticket) {
                out.push((link_id, *result));
            }
            i = i + 1;
        }
        assert(binds.take(i as int) =~= binds);
        self.replies.bind.clear();
        out
    }

    /// The send requests that are settled, taken out: the last packets of
    /// endpoints that went out, and the packets that did not go out.
    pub fn poll_sends(&mut self) -> (r: (Vec<AcceptedFinalSend>, Vec<FailedSend>))
        ensures
            r.0@ == accepted_final_sends(old(self)@.sends, old(self)@.replies.send),
            r.1@ == failed_sends(old(self)@.sends, old(self)@.replies.send),
            final(self)@ == old(self)@.sends_polled(),
    {
        let ghost sends = self.sends@;
        let ghost replies = self.replies@.send;
        let mut accepted: Vec<AcceptedFinalSend> = Vec::new();
        let mut failed: Vec<FailedSend> = Vec::new();
        let mut i: usize = 0;
        while i < self.sends.len()
            invariant
                i <= sends.len(),
                sends == self.sends@,
                replies == self.replies@.send,
                *self == *old(self),
                accepted@ == accepted_final_sends(sends.take(i as int), replies),
                failed@ == failed_sends(sends.take(i as int), replies),
            decreases sends.len() - i,
        {
            proof {
                assert(sends.take(i + 1).drop_last() =~= sends.take(i as int));
                assert(sends.take(i + 1).last() == sends[i as int]);
            }
            let p = self.sends[i];
            if let Some(result) = self.replies.send.get(&p.ticket) {
                match result {
                    Some(LinkEndpointSendResult::Sent) | Some(
                        LinkEndpointSendResult::Queued { .. },
                    ) => {
                        if p.final_unbind {
                            accepted.push(
                                AcceptedFinalSend { link_id: p.link_id, role: p.role },
                            );
                        }
                    },
                    _ => {
                        failed.push(
                            FailedSend {
                                link_id: p.link_id,
                                role: p.role,
                                final_unbind: p.final_unbind,
                            },
                        );
                    },
                }
            }
            i = i + 1;
        }
        assert(sends.take(i as int) =~= sends);
        while i > 0
            invariant
                i <= self.sends@.len(),
                replies == self.replies@.send,
                self@ == (TransportModel { sends: self.sends@, ..old(self)@ }),
                unanswered_sends(self.sends@, replies, i as nat) == unanswered_sends(
                    sends,
                    replies,
                    sends.len(),
                ),
            decreases i,
        {
            if self.replies.send.contains(&self.sends[i - 1].ticket) {
                self.sends.swap_remove(i - 1);
            }
            i = i - 1;
        }
        self.replies.send.clear();
        (accepted, failed)
    }

    /// The cleanup requests that are settled, taken out: the endpoints that are released.
    pub fn poll_cleanups(&mut self) -> (r: Vec<ReleasedEndpoint>)
        ensures
            r@ == released_endpoints(old(self)@.cleanups, old(self)@.replies.unbind),
            final(self)@ == old(self)@.cleanups_polled(),
    {
        let ghost cleanups = self.cleanups@;
        let ghost replies = self.replies@.unbind;
        let mut out: Vec<ReleasedEndpoint> = Vec::new();
        let mut i: usize = 0;
        while i < self.cleanups.len()
            invariant
                i <= cleanups.len(),
                cleanups == self.cleanups@,
                replies == self.replies@.unbind,
                *self == *old(self),
                out@ == released_endpoints(cleanups.take(i as int), replies),
            decreases cleanups.len() - i,
        {
            proof {
                assert(cleanups.take(i + 1).drop_last() =~= cleanups.take(i as int));
                assert(cleanups.take(i + 1).last() == cleanups[i as int]);
            }
            let p = self.cleanups[i];
            if let Some(result) = self.replies.unbind.get(&p.ticket) {
                match result {
                    Some(LinkEndpointUnbindResult::Unbound) => {
                        // The end of an owned endpoint is reported before its
                        // explicit release is acknowledged: wait for the report.
                        out.push(
                            ReleasedEndpoint {
                                ownership: p.ownership,
                                deregister: p.deregister_on_success,
                                lifecycle_required: true,
                            },
                        );
                    },
                    Some(LinkEndpointUnbindResult::NotBound) => {
                        out.push(
                            ReleasedEndpoint {
                                ownership: p.ownership,
                                deregister: p.deregister_on_success,
                                lifecycle_required: false,
                            },
                        );
                    },
                    Some(LinkEndpointUnbindResult::RoleMismatch) => {
                        out.push(
                            ReleasedEndpoint {
                                ownership: p.ownership,
                                deregister: false,
                                lifecycle_required: false,
                            },
                        );
                    },
                    None => {},
                }
            }
            i = i + 1;
        }
        assert(cleanups.take(i as int) =~= cleanups);
        while i > 0
            invariant
                i <= self.cleanups@.len(),
                replies == self.replies@.unbind,
                self@ == (TransportModel { cleanups: self.cleanups@, ..old(self)@ }),
                unanswered_cleanups(self.cleanups@, replies, i as nat) == unanswered_cleanups(
                    cleanups,
                    replies,
                    cleanups.len(),
                ),
            decreases i,
        {
            if self.replies.unbind.contains(&self.cleanups[i - 1].ticket) {
                self.cleanups.swap_remove(i - 1);
            }
            i = i - 1;
        }
        self.replies.unbind.clear();
        out
    }

    /// Looks at the barriers that are on their way, and says whether one was answered.
    pub fn poll_endpoint_finalizations(&mut self) -> (r: bool)
        ensures
            final(self)@ == old(self)@.finalizations_polled(),
            r == old(self)@.some_barrier_answered(),
    {
        let ghost all = self.tombstones@;
        let ghost replies = self.replies@.barrier;
        let mut progressed: bool = false;
        let mut i: usize = 0;
        while i < self.tombstones.entries.len()
            invariant
                i <= all.len(),
                all == old(self)@.tombstones,
                replies == old(self)@.replies.barrier,
                self.tombstones@.len() == all.len(),
                self@ == (TransportModel { tombstones: self.tombstones@, ..old(self)@ }),
                forall|j: int|
                    0 <= j < i ==> #[trigger] self.tombstones@[j] == (
                        all[j].0,
                        barrier_polled(all[j].1, replies),
                    ),
                forall|j: int| i <= j < all.len() ==> #[trigger] self.tombstones@[j] == all[j],
                progressed == exists|j: int|
                    0 <= j < i && barrier_answered((#[trigger] all[j]).1, replies),
            decreases all.len() - i,
        {
            let mut t = self.tombstones.entries[i].1;
            assert(self.tombstones@[i as int] == all[i as int]);
            if let Some(ticket) = t.finalization {
                if let Some(answered) = self.replies.barrier.get(&ticket) {
                    if *answered {
                        assert(barrier_answered(all[i as int].1, replies));
                        t.barrier_acknowledged = true;
                        progressed = true;
                    }
                    t.finalization = None;
                    self.tombstones.entries[i].1 = t;
                }
            }
            i = i + 1;
        }
        self.replies.barrier.clear();
        assert(self@ =~= old(self)@.finalizations_polled());
        progressed
    }

    /// Retires the tombstones that have served, and says whether there was one.
    pub fn retire_endpoint_tombstones(&mut self) -> (r: bool)
        ensures
            final(self)@ == old(self)@.tombstones_retired(),
            r == (old(self)@.tombstones_retired().tombstones.len() != old(self)@.tombstones.len()),
    {
        let before: usize = self.tombstones.len();
        self.tombstones.retain(&NotServed {  });
        self.tombstones.len() != before
    }
}

} // verus!
