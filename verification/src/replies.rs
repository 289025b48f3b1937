//! What the transport's answers come to.

use vstd::prelude::*;

use crate::assoc::{find, lemma_find_cut, lemma_find_put, present};
use crate::events::LegacyTerminalNotification;
use crate::manager::LinkManagerModel;
use crate::notices::NoticesModel;
use crate::port::PortModel;
use crate::transport::{
    accepted_final_sends, bind_outcomes, failed_sends, released_endpoints, swap_removed,
    unanswered_sends, AcceptedFinalSend, EndpointCleanupKind, FailedSend,
    PendingLinkEndpointSend, PendingResponderEndpointBind, PendingResponderEndpointCleanup,
    ReleasedEndpoint, RepliesModel,
};
use crate::wire::{
    LinkEndpointBindResult, LinkEndpointSendResult, LinkEndpointUnbindResult, MessageModel,
    TransportMessage,
};

verus! {

/// Every bind request that was answered is acted on, with its own answer, and no other.
pub proof fn answered_binds_are_acted_on(
    binds: Seq<([u8; 16], PendingResponderEndpointBind)>,
    replies: Seq<(u64, Option<LinkEndpointBindResult>)>,
    link_id: [u8; 16],
    result: Option<LinkEndpointBindResult>,
)
    ensures
        bind_outcomes(binds, replies).contains((link_id, result)) <==> exists|i: int|
            0 <= i < binds.len() && (#[trigger] binds[i]).0 == link_id && find(
                replies,
                binds[i].1.ticket,
            ) == Some(result),
    decreases binds.len(),
{
    if binds.len() > 0 {
        let front = binds.drop_last();
        let all = bind_outcomes(binds, replies);
        let rest = bind_outcomes(front, replies);
        answered_binds_are_acted_on(front, replies, link_id, result);
        assert(binds[binds.len() - 1] == binds.last());
        if all.contains((link_id, result)) {
            let i = choose|i: int| 0 <= i < all.len() && all[i] == (link_id, result);
            if i < rest.len() {
                assert(rest[i] == (link_id, result));
                let j = choose|j: int|
                    0 <= j < front.len() && (#[trigger] front[j]).0 == link_id && find(
                        replies,
                        front[j].1.ticket,
                    ) == Some(result);
                assert(binds[j] == front[j]);
            }
        }
        if exists|i: int|
            0 <= i < binds.len() && (#[trigger] binds[i]).0 == link_id && find(
                replies,
                binds[i].1.ticket,
            ) == Some(result) {
            let i = choose|i: int|
                0 <= i < binds.len() && (#[trigger] binds[i]).0 == link_id && find(
                    replies,
                    binds[i].1.ticket,
                ) == Some(result);
            if i < front.len() {
                assert(front[i] == binds[i]);
                let j = choose|j: int| 0 <= j < rest.len() && rest[j] == (link_id, result);
                assert(all[j] == (link_id, result));
            } else {
                assert(all[rest.len() as int] == (link_id, result));
            }
        }
    }
}

/// Whether an answer says that a packet went out, or will.
pub open spec fn is_out(result: Option<LinkEndpointSendResult>) -> bool {
    result is Some && (result->0 is Sent || result->0 is Queued)
}

/// The packets that failed are exactly those whose answer says so, or never comes.
pub proof fn failed_packets_are_acted_on(
    sends: Seq<PendingLinkEndpointSend>,
    replies: Seq<(u64, Option<LinkEndpointSendResult>)>,
    failed: FailedSend,
)
    ensures
        failed_sends(sends, replies).contains(failed) <==> exists|i: int|
            0 <= i < sends.len() && (#[trigger] sends[i]).link_id == failed.link_id
                && sends[i].role == failed.role && sends[i].final_unbind == failed.final_unbind
                && present(replies, sends[i].ticket) && !is_out(find(replies, sends[i].ticket)->0),
    decreases sends.len(),
{
    if sends.len() > 0 {
        let front = sends.drop_last();
        let all = failed_sends(sends, replies);
        let rest = failed_sends(front, replies);
        failed_packets_are_acted_on(front, replies, failed);
        assert(sends[sends.len() - 1] == sends.last());
        if all.contains(failed) {
            let i = choose|i: int| 0 <= i < all.len() && all[i] == failed;
            if i < rest.len() {
                assert(rest[i] == failed);
                let j = choose|j: int|
                    0 <= j < front.len() && (#[trigger] front[j]).link_id == failed.link_id
                        && front[j].role == failed.role && front[j].final_unbind
                        == failed.final_unbind && present(replies, front[j].ticket) && !is_out(
                        find(replies, front[j].ticket)->0,
                    );
                assert(sends[j] == front[j]);
            }
        }
        if exists|i: int|
            0 <= i < sends.len() && (#[trigger] sends[i]).link_id == failed.link_id
                && sends[i].role == failed.role && sends[i].final_unbind == failed.final_unbind
                && present(replies, sends[i].ticket) && !is_out(find(replies, sends[i].ticket)->0) {
            let i = choose|i: int|
                0 <= i < sends.len() && (#[trigger] sends[i]).link_id == failed.link_id
                    && sends[i].role == failed.role && sends[i].final_unbind == failed.final_unbind
                    && present(replies, sends[i].ticket) && !is_out(
                    find(replies, sends[i].ticket)->0,
                );
            if i < front.len() {
                assert(front[i] == sends[i]);
                let j = choose|j: int| 0 <= j < rest.len() && rest[j] == failed;
                assert(all[j] == failed);
            } else {
                assert(all[rest.len() as int] == failed);
            }
        }
    }
}

/// What is left of the packets whose answers are awaited are exactly those without one.
pub proof fn answered_sends_leave(
    sends: Seq<PendingLinkEndpointSend>,
    replies: Seq<(u64, Option<LinkEndpointSendResult>)>,
    send: PendingLinkEndpointSend,
)
    ensures
        unanswered_sends(sends, replies, sends.len()).contains(send) <==> sends.contains(send)
            && !present(replies, send.ticket),
{
    lemma_unanswered(sends, replies, sends.len(), send);
}

proof fn lemma_unanswered(
    sends: Seq<PendingLinkEndpointSend>,
    replies: Seq<(u64, Option<LinkEndpointSendResult>)>,
    n: nat,
    send: PendingLinkEndpointSend,
)
    requires
        n <= sends.len(),
        forall|i: int| n <= i < sends.len() ==> !present(replies, (#[trigger] sends[i]).ticket),
    ensures
        unanswered_sends(sends, replies, n).contains(send) <==> sends.contains(send) && !present(
            replies,
            send.ticket,
        ),
    decreases n,
{
    if n > 0 {
        if present(replies, sends[n - 1].ticket) {
            let next = swap_removed(sends, n - 1);
            assert forall|i: int| n - 1 <= i < next.len() implies !present(
                replies,
                (#[trigger] next[i]).ticket,
            ) by {
                if i == n - 1 {
                    assert(next[i] == sends[sends.len() - 1]);
                } else {
                    assert(next[i] == sends[i]);
                }
            }
            lemma_unanswered(next, replies, (n - 1) as nat, send);
            if next.contains(send) {
                let i = choose|i: int| 0 <= i < next.len() && next[i] == send;
                if i == n - 1 {
                    assert(sends[sends.len() - 1] == send);
                } else {
                    assert(sends[i] == send);
                }
            }
            if sends.contains(send) && !present(replies, send.ticket) {
                let i = choose|i: int| 0 <= i < sends.len() && sends[i] == send;
                if i == sends.len() - 1 {
                    assert(next[n - 1] == send);
                } else {
                    assert(next[i] == send);
                }
            }
        } else {
            lemma_unanswered(sends, replies, (n - 1) as nat, send);
        }
    } else {
        if sends.contains(send) {
            let i = choose|i: int| 0 <= i < sends.len() && sends[i] == send;
            assert(!present(replies, sends[i].ticket));
        }
    }
}

/// A request that is dropped is answered as failed: its ticket gets an empty answer, where
/// the answers of its kind are kept, and no other answer changes.
pub proof fn dropped_requests_are_answered(replies: RepliesModel, message: MessageModel, other: u64)
    ensures
        ({
            let after = replies.dropped(message);
            match message {
                TransportMessage::BindLinkEndpoint { ticket, .. } => {
                    &&& find(after.bind, ticket) == Some(None::<LinkEndpointBindResult>)
                    &&& other != ticket ==> find(after.bind, other) == find(replies.bind, other)
                    &&& after == (RepliesModel { bind: after.bind, ..replies })
                },
                TransportMessage::UnbindLinkEndpoint { ticket, .. } => {
                    &&& find(after.unbind, ticket) == Some(None::<LinkEndpointUnbindResult>)
                    &&& other != ticket ==> find(after.unbind, other) == find(replies.unbind, other)
                    &&& after == (RepliesModel { unbind: after.unbind, ..replies })
                },
                TransportMessage::SendLinkEndpoint { ticket, .. } => {
                    &&& find(after.send, ticket) == Some(None::<LinkEndpointSendResult>)
                    &&& other != ticket ==> find(after.send, other) == find(replies.send, other)
                    &&& after == (RepliesModel { send: after.send, ..replies })
                },
                TransportMessage::SendLinkEndpointAndUnbind { ticket, .. } => {
                    &&& find(after.send, ticket) == Some(None::<LinkEndpointSendResult>)
                    &&& other != ticket ==> find(after.send, other) == find(replies.send, other)
                    &&& after == (RepliesModel { send: after.send, ..replies })
                },
                TransportMessage::HasPath { ticket, .. } => {
                    &&& find(after.barrier, ticket) == Some(false)
                    &&& other != ticket ==> find(after.barrier, other) == find(
                        replies.barrier,
                        other,
                    )
                    &&& after == (RepliesModel { barrier: after.barrier, ..replies })
                },
                _ => after == replies,
            }
        }),
{
    match message {
        TransportMessage::BindLinkEndpoint { ticket, .. } => {
            lemma_find_put(replies.bind, ticket, None, ticket);
            lemma_find_put(replies.bind, ticket, None, other);
        },
        TransportMessage::UnbindLinkEndpoint { ticket, .. } => {
            lemma_find_put(replies.unbind, ticket, None, ticket);
            lemma_find_put(replies.unbind, ticket, None, other);
        },
        TransportMessage::SendLinkEndpoint { ticket, .. } => {
            lemma_find_put(replies.send, ticket, None, ticket);
            lemma_find_put(replies.send, ticket, None, other);
        },
        TransportMessage::SendLinkEndpointAndUnbind { ticket, .. } => {
            lemma_find_put(replies.send, ticket, None, ticket);
            lemma_find_put(replies.send, ticket, None, other);
        },
        TransportMessage::HasPath { ticket, .. } => {
            lemma_find_put(replies.barrier, ticket, false, ticket);
            lemma_find_put(replies.barrier, ticket, false, other);
        },
        _ => {},
    }
}

/// A packet that did not go out costs its Link its life, unless it was its endpoint's last:
/// then the endpoint is released by a request of its own.
pub proof fn failed_packet_costs_its_link(m: LinkManagerModel, failed: FailedSend)
    requires
        !m.transport.port.closed,
    ensures
        ({
            let s = m.send_failed(failed);
            if !failed.final_unbind {
                !present(s.links, failed.link_id)
            } else {
                &&& s.links == m.links
                &&& match find(m.transport.tombstones, failed.link_id) {
                    Some(t) => t.ownership.binding.role == failed.role ==> {
                        &&& s.transport.port.sent + s.transport.control == (m.transport.port.sent
                            + m.transport.control).push(
                            TransportMessage::UnbindLinkEndpoint {
                                link_id: t.ownership.binding.link_id,
                                role: t.ownership.binding.role,
                                ticket: m.transport.next_ticket,
                            },
                        )
                        &&& find(s.transport.tombstones, failed.link_id) is Some
                        &&& (find(s.transport.tombstones, failed.link_id)->0).kind is Explicit
                    },
                    None => s == m,
                }
            }
        }),
{
    if failed.final_unbind {
        if let Some(t) = find(m.transport.tombstones, failed.link_id) {
            let changed = crate::transport::ResponderEndpointTombstone {
                kind: EndpointCleanupKind::Explicit,
                ..t
            };
            lemma_find_put(m.transport.tombstones, failed.link_id, changed, failed.link_id);
            let s = m.send_failed(failed);
            assert(s.transport.port.sent + s.transport.control =~= s.transport.port.sent
                + s.transport.control);
        }
    } else if present(m.links, failed.link_id) {
        crate::laws::lemma_close_transport(
            m,
            failed.link_id,
            crate::link::CloseReason::DestinationClosed,
            false,
            None,
            false,
        );
        lemma_find_cut(m.links, failed.link_id, failed.link_id);
    }
}

/// Pending facts are delivered as far as there is room: afterwards none is pending, or the
/// channel of the first that is has no room for it.
pub proof fn pending_facts_are_delivered(n: NoticesModel)
    ensures
        ({
            let after = n.legacy_flushed();
            after.pending_legacy.len() > 0 ==> match after.pending_legacy[0] {
                LegacyTerminalNotification::PacketProof(_) => stuck(after.link_packet_proof),
                LegacyTerminalNotification::ResourceProof(_) => stuck(
                    after.outbound_resource_proof,
                ),
                LegacyTerminalNotification::LinkClosed(_) => stuck(after.link_closed),
            }
        }),
    decreases n.pending_legacy.len(),
{
    if n.pending_legacy.len() > 0 {
        let rest = NoticesModel { pending_legacy: n.pending_legacy.skip(1), ..n };
        match n.pending_legacy[0] {
            LegacyTerminalNotification::PacketProof(p) => {
                match n.link_packet_proof {
                    Some(port) => {
                        if port.closed || !port.full() {
                            pending_facts_are_delivered(
                                NoticesModel { link_packet_proof: Some(port.offer(p)), ..rest },
                            );
                        }
                    },
                    None => {
                        pending_facts_are_delivered(rest);
                    },
                }
            },
            LegacyTerminalNotification::ResourceProof(p) => {
                match n.outbound_resource_proof {
                    Some(port) => {
                        if port.closed || !port.full() {
                            pending_facts_are_delivered(
                                NoticesModel {
                                    outbound_resource_proof: Some(port.offer(p)),
                                    ..rest
                                },
                            );
                        }
                    },
                    None => {
                        pending_facts_are_delivered(rest);
                    },
                }
            },
            LegacyTerminalNotification::LinkClosed(id) => {
                match n.link_closed {
                    Some(port) => {
                        if port.closed || !port.full() {
                            pending_facts_are_delivered(
                                NoticesModel { link_closed: Some(port.offer(id@)), ..rest },
                            );
                        }
                    },
                    None => {
                        pending_facts_are_delivered(rest);
                    },
                }
            },
        }
    }
}

/// Whether a channel is read and has no room.
pub open spec fn stuck<M>(port: Option<PortModel<M>>) -> bool {
    port is Some && !(port->0).closed && (port->0).limit is Some && (port->0).sent.len() >= (
    port->0).limit->0
}

/// The endpoints that go with their last packet are exactly those whose last packet went
/// out.
pub proof fn last_packets_are_acted_on(
    sends: Seq<PendingLinkEndpointSend>,
    replies: Seq<(u64, Option<LinkEndpointSendResult>)>,
    accepted: AcceptedFinalSend,
)
    ensures
        accepted_final_sends(sends, replies).contains(accepted) <==> exists|i: int|
            0 <= i < sends.len() && (#[trigger] sends[i]).link_id == accepted.link_id
                && sends[i].role == accepted.role && sends[i].final_unbind && present(
                replies,
                sends[i].ticket,
            ) && is_out(find(replies, sends[i].ticket)->0),
    decreases sends.len(),
{
    if sends.len() > 0 {
        let front = sends.drop_last();
        let all = accepted_final_sends(sends, replies);
        let rest = accepted_final_sends(front, replies);
        last_packets_are_acted_on(front, replies, accepted);
        assert(sends[sends.len() - 1] == sends.last());
        if all.contains(accepted) {
            let i = choose|i: int| 0 <= i < all.len() && all[i] == accepted;
            if i < rest.len() {
                assert(rest[i] == accepted);
                let j = choose|j: int|
                    0 <= j < front.len() && (#[trigger] front[j]).link_id == accepted.link_id
                        && front[j].role == accepted.role && front[j].final_unbind && present(
                        replies,
                        front[j].ticket,
                    ) && is_out(find(replies, front[j].ticket)->0);
                assert(sends[j] == front[j]);
            }
        }
        if exists|i: int|
            0 <= i < sends.len() && (#[trigger] sends[i]).link_id == accepted.link_id
                && sends[i].role == accepted.role && sends[i].final_unbind && present(
                replies,
                sends[i].ticket,
            ) && is_out(find(replies, sends[i].ticket)->0) {
            let i = choose|i: int|
                0 <= i < sends.len() && (#[trigger] sends[i]).link_id == accepted.link_id
                    && sends[i].role == accepted.role && sends[i].final_unbind && present(
                    replies,
                    sends[i].ticket,
                ) && is_out(find(replies, sends[i].ticket)->0);
            if i < front.len() {
                assert(front[i] == sends[i]);
                let j = choose|j: int| 0 <= j < rest.len() && rest[j] == accepted;
                assert(all[j] == accepted);
            } else {
                assert(all[rest.len() as int] == accepted);
            }
        }
    }
}

/// What the answer to the release of an endpoint comes to: released, with an end that is
/// still to be seen if it was bound; left registered if it is bound in another role; and
/// nothing without an answer.
pub open spec fn release_of(
    cleanup: PendingResponderEndpointCleanup,
    answer: Option<Option<LinkEndpointUnbindResult>>,
    released: ReleasedEndpoint,
) -> bool {
    &&& answer is Some
    &&& answer->0 is Some
    &&& released.ownership == cleanup.ownership
    &&& match answer->0->0 {
        LinkEndpointUnbindResult::Unbound => released.deregister == cleanup.deregister_on_success
            && released.lifecycle_required,
        LinkEndpointUnbindResult::NotBound => released.deregister == cleanup.deregister_on_success
            && !released.lifecycle_required,
        LinkEndpointUnbindResult::RoleMismatch => !released.deregister
            && !released.lifecycle_required,
    }
}

/// The endpoints that are released are exactly those whose release was answered, each as
/// its answer says.
pub proof fn answered_releases_are_acted_on(
    cleanups: Seq<PendingResponderEndpointCleanup>,
    replies: Seq<(u64, Option<LinkEndpointUnbindResult>)>,
    released: ReleasedEndpoint,
)
    ensures
        released_endpoints(cleanups, replies).contains(released) <==> exists|i: int|
            0 <= i < cleanups.len() && release_of(
                #[trigger] cleanups[i],
                find(replies, cleanups[i].ticket),
                released,
            ),
    decreases cleanups.len(),
{
    if cleanups.len() > 0 {
        let front = cleanups.drop_last();
        let all = released_endpoints(cleanups, replies);
        let rest = released_endpoints(front, replies);
        answered_releases_are_acted_on(front, replies, released);
        assert(cleanups[cleanups.len() - 1] == cleanups.last());
        if all.contains(released) {
            let i = choose|i: int| 0 <= i < all.len() && all[i] == released;
            if i < rest.len() {
                assert(rest[i] == released);
                let j = choose|j: int|
                    0 <= j < front.len() && release_of(
                        #[trigger] front[j],
                        find(replies, front[j].ticket),
                        released,
                    );
                assert(cleanups[j] == front[j]);
            }
        }
        if exists|i: int|
            0 <= i < cleanups.len() && release_of(
                #[trigger] cleanups[i],
                find(replies, cleanups[i].ticket),
                released,
            ) {
            let i = choose|i: int|
                0 <= i < cleanups.len() && release_of(
                    #[trigger] cleanups[i],
                    find(replies, cleanups[i].ticket),
                    released,
                );
            if i < front.len() {
                assert(front[i] == cleanups[i]);
                let j = choose|j: int| 0 <= j < rest.len() && rest[j] == released;
                assert(all[j] == released);
            } else {
                assert(all[rest.len() as int] == released);
            }
        }
    }
}

} // verus!
