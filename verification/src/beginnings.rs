//! How a Link begins at the end that was asked for it.

use vstd::prelude::*;

use crate::announcing::sends_proof;
use crate::assoc::{cut, find, lemma_find_cut, lemma_find_put, present, put};
use crate::deliveries::open;
use crate::endpoints::{link_proof, pending_bind, registration, requested_link};
use crate::laws::staged_control_keeps_order;
use crate::manager::{Handshake, LinkManagerModel};
use crate::outgoing::{outgoing, sends_more};
use crate::transport::TransportModel;
use crate::wire::{
    DestinationType, LinkEndpointBindResult, LinkEndpointBinding, LinkEndpointRole, MessageModel,
    PacketContext,
};

verus! {

/// A request for a Link under an id that nothing is known of makes a Link in its handshake,
/// on the interface of the request, that has what its handshake gave and that nobody has
/// identified on; and asks the transport, once, for the endpoint of exactly that Link.
pub proof fn requested_link_is_set_up(
    m: LinkManagerModel,
    interface_id: u64,
    handshake: Handshake,
)
    requires
        !present(m.links, handshake.link_id),
        !present(m.transport.binds, handshake.link_id),
        !present(m.transport.owned, handshake.link_id),
        !present(m.transport.tombstones, handshake.link_id),
        open(m.transport.port),
    ensures
        ({
            let id = handshake.link_id;
            let s = m.link_requested(
                id,
                requested_link(m.settings, interface_id, handshake),
                pending_bind(m, interface_id, handshake),
            );
            let link = find(s.links, id)->0;
            let bind = find(s.transport.binds, id)->0;
            let n = m.transport.port.sent.len();
            &&& present(s.links, id)
            &&& link.state is Handshake
            &&& !link.is_initiator
            &&& link.interface_id == interface_id
            &&& link.mdu == handshake.mdu
            &&& link.has_session_keys == handshake.has_session_keys
            &&& !link.identified
            &&& link.remote_identity is None
            &&& link.resource_strategy == m.settings.resource_strategy
            &&& link.expected_hops is None
            &&& !link.has_channel
            &&& present(s.transport.binds, id)
            &&& bind.ownership.binding == (LinkEndpointBinding {
                link_id: id,
                interface_id,
                role: LinkEndpointRole::Responder,
            })
            &&& bind.destination_hash == m.settings.destination_hash
            &&& bind.proof == handshake.proof
            &&& find(s.transport.generations, id) == Some(bind.ownership.generation)
            &&& bind.ownership.generation == m.transport.next_generation
            &&& s.transport.next_generation != m.transport.next_generation
            &&& s.transport.port.sent.len() == n + 1
            &&& m.transport.port.sent.is_prefix_of(s.transport.port.sent)
            &&& s.transport.port.sent[n as int] == (MessageModel::BindLinkEndpoint {
                binding: bind.ownership.binding,
                ticket: bind.ticket,
            })
            &&& m.settings.destination is Some ==> present(s.destination_links, id)
            &&& s.notices == m.notices
            &&& s.resources == m.resources
            &&& s.transport.control == m.transport.control
            &&& s.transport.owned == m.transport.owned
            &&& forall|other: [u8; 16]|
                other != id ==> #[trigger] find(s.links, other) == find(m.links, other)
        }),
{
    let id = handshake.link_id;
    let link = requested_link(m.settings, interface_id, handshake);
    let bind = pending_bind(m, interface_id, handshake);
    let s = m.link_requested(id, link, bind);
    lemma_find_put(m.links, id, link, id);
    lemma_find_put(m.transport.binds, id, bind, id);
    lemma_find_put(m.transport.generations, id, m.transport.next_generation, id);
    lemma_find_put(m.destination_links, id, (), id);
    assert forall|other: [u8; 16]| other != id implies #[trigger] find(s.links, other) == find(
        m.links,
        other,
    ) by {
        lemma_find_put(m.links, id, link, other);
    }
}

/// Once the endpoint of a Link that is still the same is bound, the manager owns it, and
/// publishes the Link: first its registration, with this end as responder, then the proof
/// that its handshake made, on the interface on which its request came.
pub proof fn bound_link_is_published(m: LinkManagerModel, link_id: [u8; 16])
    requires
        present(m.transport.binds, link_id),
        (find(m.transport.binds, link_id)->0).ownership.binding.link_id == link_id,
        present(m.links, link_id),
        find(m.transport.generations, link_id) == Some(
            (find(m.transport.binds, link_id)->0).ownership.generation,
        ),
        !m.transport.port.closed,
    ensures
        ({
            let bind = find(m.transport.binds, link_id)->0;
            let s = m.bind_settled(link_id, Some(LinkEndpointBindResult::Bound));
            let n = outgoing(m).len() as int;
            &&& sends_more(m, s, 2)
            &&& outgoing(s)[n] == (MessageModel::RegisterLink {
                link_id,
                destination_hash: bind.destination_hash,
                interface_id: bind.ownership.binding.interface_id,
                next_hop: None,
                remaining_hops: 0,
                initiator: false,
            })
            &&& sends_proof(
                outgoing(s)[n + 1],
                link_id,
                DestinationType::Link,
                PacketContext::Lrproof,
                bind.proof@,
                bind.ownership.binding.interface_id,
            )
            &&& find(s.transport.owned, link_id) == Some(bind.ownership)
            &&& !present(s.transport.binds, link_id)
            &&& s.links == m.links
            &&& s.notices == m.notices
            &&& s.resources == m.resources
        }),
{
    let bind = find(m.transport.binds, link_id)->0;
    let s = m.bind_settled(link_id, Some(LinkEndpointBindResult::Bound));
    lemma_find_put(m.transport.owned, link_id, bind.ownership, link_id);
    lemma_find_cut(m.transport.binds, link_id, link_id);
    let t = TransportModel {
        owned: put(m.transport.owned, link_id, bind.ownership),
        binds: cut(m.transport.binds, link_id),
        ..m.transport
    };
    let first = registration(bind);
    let second = link_proof(bind);
    staged_control_keeps_order(t, first, false);
    staged_control_keeps_order(t.staged(first, false), second, false);
    assert(s.transport == t.staged(first, false).staged(second, false));
    assert(outgoing(s) == outgoing(m).push(first).push(second));
}

/// A request for a Link is dropped if, and only if, it carries nothing, the destination
/// accepts no Links, or nothing can sign for it; it is signed with the raw key where there
/// is one.
pub proof fn link_request_is_judged(m: LinkManagerModel, raw_len: usize, data_offset: Option<usize>)
    ensures
        ({
            let r = m.link_request_decision(raw_len, data_offset);
            let filled = data_offset is Some && raw_len > data_offset->0;
            let accepting = m.settings.destination is None || (
            m.settings.destination->0).accept_link_requests;
            &&& r is SignWithKey <==> filled && accepting && m.settings.has_identity_key
            &&& r is SignWithIdentity <==> filled && accepting && !m.settings.has_identity_key
                && m.settings.has_identity
            &&& r is Ignore <==> !(filled && accepting && (m.settings.has_identity_key
                || m.settings.has_identity))
        }),
{
}

} // verus!
