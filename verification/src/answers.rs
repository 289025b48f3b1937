//! Who is asked, and how a request is answered.

use vstd::prelude::*;

use crate::assoc::{find, lemma_find_cut, lemma_find_put, present};
use crate::commands::LinkManagerCommand;
use crate::deliveries::open;
use crate::manager::{Effect, LinkManagerModel, RegisteredRequestHandler};
use crate::outgoing::{
    carries, carries_out, fits_segment, holds_more, only_sends, open_for_resources, outgoing,
    resource_goes_out, sends_more,
};
use crate::sending::{optional_len, BuiltResource, ResourceTransferStart};
use crate::wire::{PacketContext, PacketType};

verus! {

/// Whether a Link takes requests: it is active, or its initiator is past the handshake.
pub open spec fn takes_requests(m: LinkManagerModel, link_id: [u8; 16]) -> bool {
    let link = find(m.links, link_id)->0;
    present(m.links, link_id) && (link.state is Active || (link.state is Handshake
        && !link.is_initiator))
}

/// A handler with a list is called by exactly the peers that have identified themselves
/// and whose identity stands somewhere in the list.
pub proof fn listed_peers_call_the_handler(
    m: LinkManagerModel,
    link_id: [u8; 16],
    path_hash: [u8; 16],
)
    requires
        takes_requests(m, link_id),
        present(m.handlers, path_hash),
        (find(m.handlers, path_hash)->0).allow is AllowList,
    ensures
        ({
            let handler = find(m.handlers, path_hash)->0;
            let peer = (find(m.links, link_id)->0).remote_identity;
            let r = m.request_dispatch(link_id, path_hash);
            let listed = peer is Some && exists|i: int|
                0 <= i < handler.allowed_list@.len() && #[trigger] handler.allowed_list@[i]
                    == peer->0;
            &&& r is Registered <==> listed
            &&& r is Denied <==> !listed
            &&& r is Registered ==> r->auto_compress == handler.auto_compress
        }),
{
    let handler = find(m.handlers, path_hash)->0;
    let peer = (find(m.links, link_id)->0).remote_identity;
    if peer is Some {
        let hash = peer->0;
        if handler.allowed_list@.contains(hash) {
            let i = choose|i: int|
                0 <= i < handler.allowed_list@.len() && handler.allowed_list@[i] == hash;
            assert(handler.allowed_list@[i] == hash);
        }
    }
}

/// A handler that allows everybody is called by every peer, identified or not; one that
/// allows nobody by none.
pub proof fn open_and_shut_handlers(m: LinkManagerModel, link_id: [u8; 16], path_hash: [u8; 16])
    requires
        takes_requests(m, link_id),
        present(m.handlers, path_hash),
    ensures
        ({
            let handler = find(m.handlers, path_hash)->0;
            let r = m.request_dispatch(link_id, path_hash);
            &&& handler.allow is AllowAll ==> r is Registered && r->auto_compress
                == handler.auto_compress
            &&& handler.allow is AllowNone ==> r is Denied
        }),
{
}

/// Nobody is asked on a Link that takes no requests. Else the handler of the path comes
/// first, and only for a path without one the extended handler, and then the plain one.
pub proof fn handlers_are_asked_in_order(
    m: LinkManagerModel,
    link_id: [u8; 16],
    path_hash: [u8; 16],
)
    ensures
        ({
            let r = m.request_dispatch(link_id, path_hash);
            let ready = takes_requests(m, link_id);
            let handled = present(m.handlers, path_hash);
            &&& r is NotReady <==> !ready
            &&& r is Registered || r is Denied <==> ready && handled
            &&& r is Extended <==> ready && !handled && m.settings.has_request_handler_ex
            &&& r is Plain <==> ready && !handled && !m.settings.has_request_handler_ex
                && m.settings.has_request_handler
            &&& r is Unhandled <==> ready && !handled && !m.settings.has_request_handler_ex
                && !m.settings.has_request_handler
        }),
{
}

/// What was registered for a path is what is found for it, and for no other path anything
/// changes. An empty path is not registered.
pub proof fn registered_handler_is_found(
    m: LinkManagerModel,
    path_hash: [u8; 16],
    handler: RegisteredRequestHandler,
    other: [u8; 16],
)
    ensures
        ({
            let s = m.handler_registered(path_hash, handler);
            &&& handler.path@.len() == 0 ==> s == m
            &&& handler.path@.len() > 0 ==> find(s.handlers, path_hash) == Some(handler)
            &&& other != path_hash ==> find(s.handlers, other) == find(m.handlers, other)
            &&& s == (LinkManagerModel { handlers: s.handlers, ..m })
        }),
{
    lemma_find_put(m.handlers, path_hash, handler, path_hash);
    lemma_find_put(m.handlers, path_hash, handler, other);
}

/// Removing the handler of a path leaves those of other paths.
pub proof fn deregistered_handler_is_gone(
    m: LinkManagerModel,
    path_hash: [u8; 16],
    other: [u8; 16],
)
    ensures
        ({
            let s = m.commanded(LinkManagerCommand::DeregisterRequestHandler { path_hash });
            &&& !present(s.handlers, path_hash)
            &&& other != path_hash ==> find(s.handlers, other) == find(m.handlers, other)
            &&& s == (LinkManagerModel { handlers: s.handlers, ..m })
        }),
{
    lemma_find_cut(m.handlers, path_hash, path_hash);
    lemma_find_cut(m.handlers, path_hash, other);
}

/// A packed response that one packet carries goes straight into the port as one packet
/// with exactly those bytes, to be encrypted; and nothing else happens.
pub proof fn short_response_goes_out(
    m: LinkManagerModel,
    link_id: [u8; 16],
    packed: Vec<u8>,
    response: BuiltResource,
)
    requires
        present(m.links, link_id),
        (find(m.links, link_id)->0).has_session_keys,
        packed@.len() <= (find(m.links, link_id)->0).mdu,
        open(m.transport.port),
    ensures
        ({
            let s = m.request_answered(link_id, Some(packed@), response, None, None);
            let n = m.transport.port.sent.len();
            &&& s.transport.port.sent.len() == n + 1
            &&& m.transport.port.sent.is_prefix_of(s.transport.port.sent)
            &&& carries(
                s.transport.port.sent[n as int],
                link_id,
                find(m.links, link_id)->0,
                PacketType::Data,
                PacketContext::Response,
                packed@,
                true,
            )
            &&& s.transport.control == m.transport.control
            &&& only_sends(m, s)
            &&& s.effects == m.effects.push(
                Effect::Transmitted {
                    link_id,
                    len: packed@.len() as usize,
                    sealed: true,
                    keepalive: false,
                },
            )
        }),
{
}

/// A packed response that one packet does not carry goes out as a Resource of its size.
pub proof fn long_response_becomes_a_resource(
    m: LinkManagerModel,
    link_id: [u8; 16],
    packed: Vec<u8>,
    response: BuiltResource,
)
    requires
        present(m.links, link_id),
        packed@.len() > (find(m.links, link_id)->0).mdu,
    ensures
        m.request_answered(link_id, Some(packed@), response, None, None) == m.resource_started(
            link_id,
            false,
            packed@.len(),
            None,
            response,
        ),
{
}

/// An answer that has nothing to say changes nothing.
pub proof fn dropped_request_is_not_answered(
    m: LinkManagerModel,
    link_id: [u8; 16],
    response: BuiltResource,
)
    ensures
        m.request_answered(link_id, None, response, None, None) == m,
{
}

/// Whether the advertisement of a Resource that belongs to an answer finds its way.
pub open spec fn can_follow(
    m: LinkManagerModel,
    link_id: [u8; 16],
    start: ResourceTransferStart,
    built: BuiltResource,
) -> bool {
    &&& open_for_resources(m, link_id, start.allow_handshake)
    &&& built.segments@.len() > 0
    &&& fits_segment(m, start.data@.len(), optional_len(start.metadata))
        ==> built.segments@.len() == 1
    &&& built.first_action is SendAdvertisement
}

/// A file that is the answer goes out as a Resource: its advertisement is what is sent.
pub proof fn file_answer_goes_out(
    m: LinkManagerModel,
    link_id: [u8; 16],
    response: BuiltResource,
    start: ResourceTransferStart,
    built: BuiltResource,
)
    requires
        can_follow(m, link_id, start, built),
        holds_more(m.transport, 1),
    ensures
        ({
            let s = m.request_answered(link_id, None, response, Some((start, built)), None);
            &&& sends_more(m, s, 1)
            &&& carries_out(
                outgoing(s).last(),
                link_id,
                find(m.links, link_id)->0,
                built.first_action,
            )
        }),
{
    resource_goes_out(
        m,
        link_id,
        start.allow_handshake,
        start.data@.len(),
        optional_len(start.metadata),
        built,
    );
}

/// A response with a Resource behind it goes out in that order: first the response, then
/// the advertisement of the Resource.
pub proof fn response_comes_before_its_resource(
    m: LinkManagerModel,
    link_id: [u8; 16],
    packed: Vec<u8>,
    response: BuiltResource,
    start: ResourceTransferStart,
    built: BuiltResource,
)
    requires
        can_follow(m, link_id, start, built),
        packed@.len() <= (find(m.links, link_id)->0).mdu,
        open(m.transport.port),
        m.transport.control.len() == 0,
    ensures
        ({
            let s = m.request_answered(
                link_id,
                Some(packed@),
                response,
                None,
                Some((start, built)),
            );
            let n = outgoing(m).len() as int;
            &&& sends_more(m, s, 2)
            &&& carries(
                outgoing(s)[n],
                link_id,
                find(m.links, link_id)->0,
                PacketType::Data,
                PacketContext::Response,
                packed@,
                true,
            )
            &&& carries_out(
                outgoing(s)[n + 1],
                link_id,
                find(m.links, link_id)->0,
                built.first_action,
            )
        }),
{
    short_response_goes_out(m, link_id, packed, response);
    let r = m.request_answered(link_id, Some(packed@), response, None, None);
    assert(outgoing(r) =~= r.transport.port.sent);
    assert(outgoing(m) =~= m.transport.port.sent);
    resource_goes_out(
        r,
        link_id,
        start.allow_handshake,
        start.data@.len(),
        optional_len(start.metadata),
        built,
    );
    let s = m.request_answered(link_id, Some(packed@), response, None, Some((start, built)));
    let n = outgoing(m).len() as int;
    assert(outgoing(s)[n] == outgoing(r)[n]);
    assert forall|i: int| 0 <= i < n implies outgoing(m)[i] == outgoing(s)[i] by {
        assert(outgoing(m)[i] == outgoing(r)[i]);
        assert(outgoing(r)[i] == outgoing(s)[i]);
    }
    assert(outgoing(m).is_prefix_of(outgoing(s)));
}

} // verus!
