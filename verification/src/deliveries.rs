//! What reaches the application, channel by channel.

use vstd::prelude::*;

use crate::assoc::{find, lemma_find_cut, lemma_find_put, present, ResourceKey};
use crate::events::{
    bytes_model, AccountingModel, CompletionModel, ConclusionModel, EventModel,
    LegacyTerminalNotification, LinkPacketProof, LinkResourceDirection, LinkResponse,
};
use crate::inbound::ResourceAdvertisement;
use crate::laws::{
    closed_link_leaves_nothing, delivered_and_pending, packet_proofs, packet_proofs_go_one_way, read,
    terminal_facts_survive_backpressure,
};
use crate::ledger::listening;
use crate::link::{Action, CloseReason, Link, LinkState};
use crate::manager::{Effect, LinkManagerModel};
use crate::notices::NoticesModel;
use crate::outgoing::{carries, holds_more, lemma_hash_at, only_sends, outgoing, sends_more};
use crate::packets::{OfferInput, PacketInput};
use crate::port::PortModel;
use crate::resources::ResourcesModel;
use crate::wire::{PacketContext, PacketHeader, PacketType};

verus! {

/// Whether a channel takes one more message: its receiver is there, and fewer messages
/// wait than its limit.
pub open spec fn open<M>(port: PortModel<M>) -> bool {
    !port.closed && match port.limit {
        Some(limit) => port.sent.len() < limit,
        None => true,
    }
}

/// Whether exactly `message` was handed to a channel: it is the last that the channel has
/// taken if the channel is open, and is lost, alone, if it is not.
pub open spec fn took<M>(
    before: Option<PortModel<M>>,
    after: Option<PortModel<M>>,
    message: M,
) -> bool {
    match (before, after) {
        (Some(p), Some(q)) => {
            &&& q.limit == p.limit
            &&& q.closed == p.closed
            &&& q.sent == if open(p) {
                p.sent.push(message)
            } else {
                p.sent
            }
        },
        (None, None) => true,
        _ => false,
    }
}

/// Whether the application was told of one Resource event, and of nothing else. Mere
/// progress does not go on the accounting stream.
pub open spec fn told(before: NoticesModel, after: NoticesModel, event: EventModel) -> bool {
    &&& took(before.resource_event, after.resource_event, event)
    &&& if event is Progress {
        after.accounting == before.accounting
    } else {
        took(before.accounting, after.accounting, AccountingModel::ResourceEvent(event))
    }
    &&& after == (NoticesModel {
        resource_event: after.resource_event,
        accounting: after.accounting,
        ..before
    })
}


/// Whether exactly `first` and then `second` were handed to a channel.
pub open spec fn took_both<M>(
    before: Option<PortModel<M>>,
    after: Option<PortModel<M>>,
    first: M,
    second: M,
) -> bool {
    exists|between: Option<PortModel<M>>|
        #[trigger] took(before, between, first) && took(between, after, second)
}

// ---- channel messages ----

/// Messages of a Link's channel reach the application's channel one by one, in order: the
/// entry for each holds the Link's id and that message's own type and payload. With room
/// for all of them all arrive; else those that arrive are the first ones, and fill it.
pub proof fn channel_messages_arrive(
    m: LinkManagerModel,
    link_id: [u8; 16],
    messages: Seq<(u16, Vec<u8>)>,
)
    requires
        m.notices.channel_message is Some,
    ensures
        ({
            let s = m.channel_messages_delivered(link_id, messages);
            let before = m.notices.channel_message->0;
            let after = s.notices.channel_message->0;
            let n = after.sent.len() - before.sent.len();
            &&& s.notices.channel_message is Some
            &&& after.limit == before.limit
            &&& after.closed == before.closed
            &&& 0 <= n <= messages.len()
            &&& n == messages.len() || !open(after)
            &&& before.closed ==> n == 0
            &&& !before.closed && (before.limit is None || before.sent.len() + messages.len()
                <= before.limit->0) ==> n == messages.len()
            &&& before.sent.is_prefix_of(after.sent)
            &&& forall|i: int|
                0 <= i < n ==> (#[trigger] after.sent[before.sent.len() + i]).link_id == link_id
                    && after.sent[before.sent.len() + i].msg_type == messages[i].0
                    && after.sent[before.sent.len() + i].payload == messages[i].1
            &&& s == (LinkManagerModel {
                notices: NoticesModel {
                    channel_message: s.notices.channel_message,
                    ..m.notices
                },
                ..m
            })
        }),
    decreases messages.len(),
{
    if messages.len() > 0 {
        let front = messages.drop_last();
        channel_messages_arrive(m, link_id, front);
        let mid = m.channel_messages_delivered(link_id, front);
        let s = m.channel_messages_delivered(link_id, messages);
        let before = m.notices.channel_message->0;
        let between = mid.notices.channel_message->0;
        let after = s.notices.channel_message->0;
        let n = after.sent.len() - before.sent.len();
        assert forall|i: int| 0 <= i < n implies (
        #[trigger] after.sent[before.sent.len() + i]).link_id == link_id
            && after.sent[before.sent.len() + i].msg_type == messages[i].0
            && after.sent[before.sent.len() + i].payload == messages[i].1 by {
            if i < between.sent.len() - before.sent.len() {
                assert(after.sent[before.sent.len() + i] == between.sent[before.sent.len() + i]);
                assert(front[i] == messages[i]);
            }
        }
        assert(before.sent.is_prefix_of(after.sent)) by {
            assert forall|i: int| 0 <= i < before.sent.len() implies before.sent[i]
                == after.sent[i] by {
                assert(between.sent[i] == before.sent[i]);
            }
        }
    }
}

// ---- whole Resources ----

/// Whether exactly a whole Resource was handed out, under the Link's id and its own: on the
/// completion channel and on the accounting stream with its data and its metadata, on the
/// plain channel with its data; and its success was reported after it.
pub open spec fn handed_out(
    before: NoticesModel,
    after: NoticesModel,
    link_id: [u8; 16],
    resource_id: [u8; 32],
    data: Seq<u8>,
    metadata: Option<Seq<u8>>,
) -> bool {
    let completion = CompletionModel { link_id, resource_hash: resource_id, data, metadata };
    let event = EventModel::Concluded {
        link_id,
        resource_id,
        direction: LinkResourceDirection::Inbound,
        conclusion: ConclusionModel::Complete,
    };
    &&& took(before.resource_completion, after.resource_completion, completion)
    &&& took(before.resource_completed, after.resource_completed, (data, link_id@))
    &&& took(before.resource_event, after.resource_event, event)
    &&& took_both(
        before.accounting,
        after.accounting,
        AccountingModel::ResourceCompletion(completion),
        AccountingModel::ResourceEvent(event),
    )
    &&& after == (NoticesModel {
        resource_completion: after.resource_completion,
        resource_completed: after.resource_completed,
        resource_event: after.resource_event,
        accounting: after.accounting,
        ..before
    })
}

/// The end of an inbound Resource that is still owed and is no request hands out exactly
/// the data and exactly the metadata that reassembly gave. From then on nothing is owed.
pub proof fn whole_resource_arrives(
    m: LinkManagerModel,
    link_id: [u8; 16],
    resource_id: [u8; 32],
    data: Seq<u8>,
    metadata: Option<Seq<u8>>,
)
    requires
        present(m.resources.lifecycles, ResourceKey { link_id, hash: resource_id }),
        !(find(
            m.resources.lifecycles,
            ResourceKey { link_id, hash: resource_id },
        )->0).is_request,
    ensures
        ({
            let s = m.inbound_completed(link_id, resource_id, data, metadata);
            &&& handed_out(m.notices, s.notices, link_id, resource_id, data, metadata)
            &&& s == (LinkManagerModel { notices: s.notices, resources: s.resources, ..m })
            &&& owes_no_more(m.resources, s.resources, link_id, resource_id)
        }),
{
    let s = m.inbound_completed(link_id, resource_id, data, metadata);
    let completion = CompletionModel { link_id, resource_hash: resource_id, data, metadata };
    let between = m.notices.completed(completion).accounting;
    assert(took(
        m.notices.accounting,
        between,
        AccountingModel::ResourceCompletion(completion),
    ));
    lemma_owes_no_more(m, link_id, resource_id);
}

/// On open channels the entry that is appended to the completion channel, and the one that
/// is appended to the accounting stream before the report of success, hold that data and
/// that metadata.
pub proof fn completions_hold_what_arrived(
    m: LinkManagerModel,
    link_id: [u8; 16],
    resource_id: [u8; 32],
    data: Seq<u8>,
    metadata: Option<Seq<u8>>,
)
    requires
        present(m.resources.lifecycles, ResourceKey { link_id, hash: resource_id }),
        !(find(
            m.resources.lifecycles,
            ResourceKey { link_id, hash: resource_id },
        )->0).is_request,
        m.notices.resource_completion is Some,
        open(m.notices.resource_completion->0),
        m.notices.accounting is Some,
        open(m.notices.accounting->0),
    ensures
        ({
            let s = m.inbound_completed(link_id, resource_id, data, metadata);
            let before = m.notices.resource_completion->0.sent;
            let after = s.notices.resource_completion->0.sent;
            let n = m.notices.accounting->0.sent.len() as int;
            let entry = s.notices.accounting->0.sent[n];
            &&& after.len() == before.len() + 1
            &&& after.last().data == data
            &&& after.last().metadata == metadata
            &&& after.last().link_id == link_id
            &&& after.last().resource_hash == resource_id
            &&& s.notices.accounting->0.sent.len() > n
            &&& entry matches AccountingModel::ResourceCompletion(c) && c.data == data
                && c.metadata == metadata && c.link_id == link_id && c.resource_hash == resource_id
        }),
{
}

/// The end of an inbound request is reported, and its content is not: the content goes to
/// the request's handler.
pub proof fn whole_request_is_not_delivered(
    m: LinkManagerModel,
    link_id: [u8; 16],
    resource_id: [u8; 32],
    data: Seq<u8>,
    metadata: Option<Seq<u8>>,
)
    requires
        present(m.resources.lifecycles, ResourceKey { link_id, hash: resource_id }),
        (find(m.resources.lifecycles, ResourceKey { link_id, hash: resource_id })->0).is_request,
    ensures
        ({
            let s = m.inbound_completed(link_id, resource_id, data, metadata);
            &&& told(
                m.notices,
                s.notices,
                EventModel::Concluded {
                    link_id,
                    resource_id,
                    direction: LinkResourceDirection::Inbound,
                    conclusion: ConclusionModel::Complete,
                },
            )
            &&& s == (LinkManagerModel { notices: s.notices, resources: s.resources, ..m })
            &&& owes_no_more(m.resources, s.resources, link_id, resource_id)
        }),
{
    lemma_owes_no_more(m, link_id, resource_id);
}

/// What is owed of inbound Resources afterwards is what was owed before, but for one, and
/// what goes out is untouched.
pub open spec fn owes_no_more(
    before: ResourcesModel,
    after: ResourcesModel,
    link_id: [u8; 16],
    resource_id: [u8; 32],
) -> bool {
    let key = ResourceKey { link_id, hash: resource_id };
    &&& !present(after.lifecycles, key)
    &&& !present(after.pending_requests, key)
    &&& !present(after.splits, key)
    &&& forall|other: ResourceKey|
        other != key ==> #[trigger] find(after.lifecycles, other) == find(before.lifecycles, other)
    &&& forall|other: ResourceKey|
        other != key ==> #[trigger] find(after.pending_requests, other) == find(
            before.pending_requests,
            other,
        )
    &&& forall|other: ResourceKey|
        other != key ==> #[trigger] find(after.splits, other) == find(before.splits, other)
    &&& after.outbound == before.outbound
    &&& after.queued == before.queued
}

pub(crate) proof fn lemma_owes_no_more(
    m: LinkManagerModel,
    link_id: [u8; 16],
    resource_id: [u8; 32],
)
    ensures
        ({
            let key = ResourceKey { link_id, hash: resource_id };
            owes_no_more(
                m.resources,
                m.resources.logical_dropped(key).claimed(key),
                link_id,
                resource_id,
            )
        }),
{
    reveal(ResourcesModel::logical_dropped);
    let key = ResourceKey { link_id, hash: resource_id };
    let r = m.resources;
    let after = r.logical_dropped(key).claimed(key);
    lemma_find_cut(r.lifecycles, key, key);
    lemma_find_cut(r.pending_requests, key, key);
    lemma_find_cut(r.splits, key, key);
    assert forall|other: ResourceKey| other != key implies #[trigger] find(after.lifecycles, other)
        == find(r.lifecycles, other) by {
        lemma_find_cut(r.lifecycles, key, other);
    }
    assert forall|other: ResourceKey| other != key implies #[trigger] find(
        after.pending_requests,
        other,
    ) == find(r.pending_requests, other) by {
        lemma_find_cut(r.pending_requests, key, other);
    }
    assert forall|other: ResourceKey| other != key implies #[trigger] find(after.splits, other)
        == find(r.splits, other) by {
        lemma_find_cut(r.splits, key, other);
    }
}

// ---- packets of a Link ----

/// Whether a packet came in for a live Link on that Link's own interface.
pub open spec fn on_link(m: LinkManagerModel, header: PacketHeader, interface_id: u64) -> bool {
    present(m.links, header.destination_hash) && (find(
        m.links,
        header.destination_hash,
    )->0).interface_id == interface_id
}

/// Whether a context is none that the manager acts on itself.
pub open spec fn plain_context(context: PacketContext) -> bool {
    context is Data || context is LinkProof || context is PathResponse || context is Lrproof
        || context is Other
}

/// Application data that was decrypted, and whose proof finds room, is published as it is,
/// with the id of its Link, and exactly its proof goes back to the peer.
pub proof fn link_data_arrives(
    m: LinkManagerModel,
    link_id: [u8; 16],
    plaintext: Seq<u8>,
    proof_data: Seq<u8>,
)
    requires
        present(m.links, link_id),
        holds_more(m.transport, 1),
    ensures
        ({
            let s = m.data_received(link_id, Some(plaintext), Some(proof_data));
            &&& m.publishes(link_id, Some(plaintext), Some(proof_data))
            &&& took(m.notices.link_packet, s.notices.link_packet, (plaintext, link_id@))
            &&& s.notices == (NoticesModel { link_packet: s.notices.link_packet, ..m.notices })
            &&& sends_more(m, s, 1)
            &&& carries(
                outgoing(s).last(),
                link_id,
                find(m.links, link_id)->0,
                PacketType::Proof,
                PacketContext::LinkProof,
                proof_data,
                false,
            )
            &&& only_sends(m, LinkManagerModel { notices: m.notices, ..s })
            &&& s.effects == m.effects.push(
                Effect::Transmitted {
                    link_id,
                    len: proof_data.len() as usize,
                    sealed: false,
                    keepalive: false,
                },
            )
        }),
{
    let s = m.data_received(link_id, Some(plaintext), Some(proof_data));
    assert(outgoing(m).is_prefix_of(outgoing(s)));
}

/// A response is handed out with its Link, its request's id and its data as they came,
/// and changes nothing else.
#[verifier::rlimit(40)]
pub proof fn response_arrives(
    m: LinkManagerModel,
    header: PacketHeader,
    interface_id: u64,
    request_id: [u8; 16],
    data: Vec<u8>,
)
    requires
        on_link(m, header, interface_id),
        header.context is Response,
    ensures
        ({
            let s = m.packet_handled(
                header,
                interface_id,
                PacketInput::Response { response: Some((request_id, data)) },
            );
            &&& took(
                m.notices.response,
                s.notices.response,
                LinkResponse { link_id: header.destination_hash, request_id, data },
            )
            &&& s == (LinkManagerModel {
                notices: NoticesModel { response: s.notices.response, ..m.notices },
                ..m
            })
        }),
{
}

/// The initiator's measurement makes a Link in its handshake active, one hop further away
/// than its packet has counted, and the application is told of the Link, once. A Link in
/// any other state, or a measurement that is not accepted, changes nothing.
pub proof fn link_comes_alive(
    m: LinkManagerModel,
    link_id: [u8; 16],
    hops: u8,
    accepted: bool,
)
    requires
        present(m.links, link_id),
    ensures
        ({
            let link = find(m.links, link_id)->0;
            let s = m.link_activated(link_id, hops, accepted);
            let alive = accepted && link.state is Handshake;
            &&& m.activates(link_id, accepted) <==> alive
            &&& !alive ==> s == m
            &&& alive ==> {
                let now = find(s.links, link_id)->0;
                &&& present(s.links, link_id)
                &&& now.state is Active
                &&& now.expected_hops is Some
                &&& (hops < 255 ==> (now.expected_hops->0) as int == hops + 1)
                &&& (hops == 255 ==> now.expected_hops->0 == 255)
                &&& now == (Link {
                    state: LinkState::Active,
                    expected_hops: now.expected_hops,
                    ..link
                })
                &&& forall|other: [u8; 16]|
                    other != link_id ==> #[trigger] find(s.links, other) == find(m.links, other)
                &&& took(m.notices.link_established, s.notices.link_established, link_id@)
                &&& s == (LinkManagerModel {
                    links: s.links,
                    notices: NoticesModel {
                        link_established: s.notices.link_established,
                        ..m.notices
                    },
                    ..m
                })
            }
        }),
{
    let link = find(m.links, link_id)->0;
    let s = m.link_activated(link_id, hops, accepted);
    if accepted && link.state is Handshake {
        let further: u8 = if hops == 255 {
            255u8
        } else {
            (hops + 1) as u8
        };
        let now = Link { state: LinkState::Active, expected_hops: Some(further), ..link };
        lemma_find_put(m.links, link_id, now, link_id);
        assert forall|other: [u8; 16]| other != link_id implies #[trigger] find(s.links, other)
            == find(m.links, other) by {
            lemma_find_put(m.links, link_id, now, other);
        }
    }
}

/// The first identity that a peer proves, and that is let in, becomes the identity of its
/// Link in every place where one is kept, and the application is told of both, once.
pub proof fn peer_becomes_known(
    m: LinkManagerModel,
    link_id: [u8; 16],
    identity: [u8; 16],
    gate_accepts: bool,
    teardown: Option<Seq<u8>>,
)
    requires
        present(m.links, link_id),
        !(find(m.links, link_id)->0).identified,
        m.settings.has_link_identity_gate ==> gate_accepts,
    ensures
        ({
            let link = find(m.links, link_id)->0;
            let s = m.identification_received(link_id, Some(identity), gate_accepts, teardown);
            &&& m.first_identification(link_id)
            &&& find(s.links, link_id) == Some(
                Link { identified: true, remote_identity: Some(identity), ..link },
            )
            &&& find(s.backchannel_links, identity) == Some(link_id)
            &&& find(s.link_identities, link_id) == Some(identity)
            &&& forall|other: [u8; 16]|
                other != link_id ==> #[trigger] find(s.links, other) == find(m.links, other)
            &&& forall|other: [u8; 16]|
                other != identity ==> #[trigger] find(s.backchannel_links, other) == find(
                    m.backchannel_links,
                    other,
                )
            &&& forall|other: [u8; 16]|
                other != link_id ==> #[trigger] find(s.link_identities, other) == find(
                    m.link_identities,
                    other,
                )
            &&& took(
                m.notices.link_identified,
                s.notices.link_identified,
                (link_id@, identity@),
            )
            &&& s == (LinkManagerModel {
                links: s.links,
                backchannel_links: s.backchannel_links,
                link_identities: s.link_identities,
                notices: NoticesModel {
                    link_identified: s.notices.link_identified,
                    ..m.notices
                },
                ..m
            })
        }),
{
    let link = find(m.links, link_id)->0;
    let now = Link { identified: true, remote_identity: Some(identity), ..link };
    let s = m.identification_received(link_id, Some(identity), gate_accepts, teardown);
    lemma_find_put(m.links, link_id, now, link_id);
    lemma_find_put(m.backchannel_links, identity, link_id, identity);
    lemma_find_put(m.link_identities, link_id, identity, link_id);
    assert forall|other: [u8; 16]| other != link_id implies #[trigger] find(s.links, other) == find(
        m.links,
        other,
    ) by {
        lemma_find_put(m.links, link_id, now, other);
    }
    assert forall|other: [u8; 16]| other != identity implies #[trigger] find(
        s.backchannel_links,
        other,
    ) == find(m.backchannel_links, other) by {
        lemma_find_put(m.backchannel_links, identity, link_id, other);
    }
    assert forall|other: [u8; 16]| other != link_id implies #[trigger] find(
        s.link_identities,
        other,
    ) == find(m.link_identities, other) by {
        lemma_find_put(m.link_identities, link_id, identity, other);
    }
}


/// An offer reaches the judgement of offers as it was read. One that cannot be decrypted is
/// dropped; one that is decrypted and is no offer costs the peer its Link.
pub proof fn offers_reach_their_judgement(
    m: LinkManagerModel,
    link_id: [u8; 16],
    adv: ResourceAdvertisement,
    transfer: Result<Action, String>,
    accepted: bool,
    teardown: Option<Vec<u8>>,
)
    requires
        present(m.links, link_id),
    ensures
        same(
            m.offer_received(link_id, OfferInput::Offer { adv, transfer, accepted }),
            m.advertised(
                link_id,
                adv,
                match transfer {
                    Ok(a) => Ok(a@),
                    Err(why) => Err(why@),
                },
                accepted,
            ),
        ),
        m.offer_received(link_id, OfferInput::Sealed) == m,
        !present(m.offer_received(link_id, OfferInput::Malformed { teardown }).links, link_id),
{
    closed_link_leaves_nothing(
        m,
        link_id,
        CloseReason::DestinationClosed,
        true,
        bytes_model(teardown),
        false,
        choose|hash: [u8; 32]| hash@.len() == 32,
        0,
    );
}

/// Whether two states are the same.
pub open spec fn same(a: LinkManagerModel, b: LinkManagerModel) -> bool {
    a == b
}

/// A keepalive that asks is answered by a responder that has been silent, with one packet
/// that holds the single byte of an answer. No other keepalive is answered, and none
/// changes anything else.
pub proof fn keepalive_is_answered(m: LinkManagerModel, link_id: [u8; 16], data: Seq<u8>, respond: bool)
    requires
        present(m.links, link_id),
        open(m.transport.port),
    ensures
        ({
            let link = find(m.links, link_id)->0;
            let s = m.keepalive_received(link_id, data, respond);
            let n = m.transport.port.sent.len();
            let asks = data.len() > 0 && data[0] == m.settings.constants.keepalive_request;
            if asks && !link.is_initiator && respond {
                &&& s.transport.port.sent.len() == n + 1
                &&& m.transport.port.sent.is_prefix_of(s.transport.port.sent)
                &&& carries(
                    s.transport.port.sent[n as int],
                    link_id,
                    link,
                    PacketType::Data,
                    PacketContext::Keepalive,
                    seq![m.settings.constants.keepalive_response],
                    false,
                )
                &&& s.transport.control == m.transport.control
                &&& only_sends(m, s)
                &&& s.effects == m.effects.push(
                    Effect::Transmitted { link_id, len: 1, sealed: false, keepalive: true },
                )
            } else {
                s == m
            }
        }),
{
}

/// A channel packet on a Link that carries traffic and has a channel, or can be given one,
/// is proved to the peer with exactly its proof, and may then be taken in; its Link has a
/// channel from then on.
pub proof fn channel_packet_is_proved(
    m: LinkManagerModel,
    link_id: [u8; 16],
    proof_data: Seq<u8>,
    registered: bool,
)
    requires
        present(m.links, link_id),
        holds_more(m.transport, 1),
        ({
            let link = find(m.links, link_id)->0;
            (link.state is Active || link.state is Stale) && (link.has_channel || (
            m.channel_message_types.len() > 0 && link.has_session_keys && registered))
        }),
    ensures
        ({
            let link = find(m.links, link_id)->0;
            let s = m.channel_packet_proved(link_id, Some(proof_data), registered);
            &&& m.channel_packet_taken(link_id, Some(proof_data), registered)
            &&& sends_more(m, s, 1)
            &&& carries(
                outgoing(s).last(),
                link_id,
                link,
                PacketType::Proof,
                PacketContext::Data,
                proof_data,
                false,
            )
            &&& only_sends(m, LinkManagerModel { links: m.links, ..s })
            &&& find(s.links, link_id) == Some(Link { has_channel: true, ..link })
        }),
{
    let link = find(m.links, link_id)->0;
    let s = m.channel_packet_proved(link_id, Some(proof_data), registered);
    lemma_find_put(m.links, link_id, Link { has_channel: true, ..link }, link_id);
    assert(outgoing(m).is_prefix_of(outgoing(s)));
}

/// A proof of a packet is taken by the hash that it begins with, and only if it is long
/// enough and valid.
pub proof fn packet_proof_names_its_packet(
    m: LinkManagerModel,
    id: [u8; 16],
    data: Seq<u8>,
    packet_hash: [u8; 32],
)
    requires
        data.len() >= 96,
        packet_hash@ == data.subrange(0, 32),
        listening(m.notices),
    ensures
        ({
            let s = m.packet_proof_received(id, data, true, false);
            let fact = LinkPacketProof { link_id: id, packet_hash };
            &&& s.notices.accounting->0.sent == m.notices.accounting->0.sent.push(
                AccountingModel::LinkPacketProof(fact),
            )
            &&& read(m.notices.link_packet_proof) ==> delivered_and_pending(
                s.notices.link_packet_proof,
                packet_proofs(s.notices.pending_legacy),
            ) == delivered_and_pending(
                m.notices.link_packet_proof,
                packet_proofs(m.notices.pending_legacy),
            ).push(fact)
            &&& s == (LinkManagerModel { notices: s.notices, ..m })
        }),
{
    lemma_hash_at(data, 0, packet_hash);
    let fact = LinkPacketProof { link_id: id, packet_hash };
    packet_proofs_go_one_way(m, id, data, true, false);
    let n = m.notices.accounted(AccountingModel::LinkPacketProof(fact));
    let staged = NoticesModel {
        pending_legacy: n.pending_legacy.push(LegacyTerminalNotification::PacketProof(fact)),
        ..n
    };
    terminal_facts_survive_backpressure(staged);
    lemma_packet_proofs_push(m.notices.pending_legacy, fact);
}

proof fn lemma_packet_proofs_push(
    facts: Seq<LegacyTerminalNotification>,
    fact: LinkPacketProof,
)
    ensures
        packet_proofs(facts.push(LegacyTerminalNotification::PacketProof(fact))) == packet_proofs(
            facts,
        ).push(fact),
    decreases facts.len(),
{
    let all = facts.push(LegacyTerminalNotification::PacketProof(fact));
    if facts.len() == 0 {
        assert(all.skip(1) =~= facts);
    } else {
        lemma_packet_proofs_push(facts.skip(1), fact);
        assert(all.skip(1) =~= facts.skip(1).push(LegacyTerminalNotification::PacketProof(fact)));
    }
    assert(packet_proofs(all) =~= packet_proofs(facts).push(fact));
}

} // verus!
