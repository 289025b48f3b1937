//! How a Resource comes in: its offer, its parts, and its end.

use vstd::prelude::*;

use crate::assoc::{
    find, lemma_find_cut, lemma_find_put, present, ResourceKey,
};
use crate::deliveries::{
    handed_out, lemma_owes_no_more, owes_no_more, told, whole_request_is_not_delivered,
    whole_resource_arrives,
};
use crate::events::{ConclusionModel, EventModel, LinkResourceDirection};
use crate::inbound::{transfer_model, ResourceAdvertisement};
use crate::link::{Action, CancelType, TransferAction};
use crate::manager::LinkManagerModel;
use crate::outgoing::{
    carries, carries_out, holds_more, lemma_action_goes_out, lemma_hash_at, only_sends, outgoing,
    sends_more, takes_packet,
};
use crate::receiving::{
    optional_action, segment_model, Assembly, CompletedSegment, PartScan,
};
use crate::resources::{
    InboundResourceLifecycle, InboundTransfer, ResourcesModel, SegmentRoute, SplitCoordinator,
};
use crate::sending::inbound_segment;
use crate::transport::MAX_PENDING_LINK_CONTROL;
use crate::wire::{PacketContext, PacketType};

verus! {

// ---- ends ----

/// The end of an inbound Resource is reported if, and only if, it is still owed, and with
/// the conclusion that it came to; afterwards it is owed no more, and nothing has gone out.
pub proof fn owed_end_is_reported(
    m: LinkManagerModel,
    link_id: [u8; 16],
    resource_id: [u8; 32],
    conclusion: ConclusionModel,
)
    ensures
        ({
            let s = m.inbound_concluded(link_id, resource_id, conclusion);
            &&& if present(m.resources.lifecycles, ResourceKey { link_id, hash: resource_id }) {
                told(
                    m.notices,
                    s.notices,
                    EventModel::Concluded {
                        link_id,
                        resource_id,
                        direction: LinkResourceDirection::Inbound,
                        conclusion,
                    },
                )
            } else {
                s.notices == m.notices
            }
            &&& owes_no_more(m.resources, s.resources, link_id, resource_id)
            &&& s == (LinkManagerModel { notices: s.notices, resources: s.resources, ..m })
        }),
{
    lemma_owes_no_more(m, link_id, resource_id);
}

// ---- offers ----

/// Whether an offer is of a Resource in more than one segment.
pub open spec fn in_segments(adv: ResourceAdvertisement) -> bool {
    adv.split || adv.total_segments > 1
}

/// The id of the offered Resource: that of its first segment, or its only segment's hash.
pub open spec fn offered_id(adv: ResourceAdvertisement) -> [u8; 32] {
    if in_segments(adv) {
        adv.original_hash
    } else {
        adv.resource_hash
    }
}

/// Whether an offer is a request, or a response: what claims to be one, and names one.
pub open spec fn is_request(adv: ResourceAdvertisement) -> bool {
    adv.is_request && adv.request_id is Some
}

pub open spec fn is_response(adv: ResourceAdvertisement) -> bool {
    adv.is_response && adv.request_id is Some
}

/// Whether the application's rules let an offer in: requests where they are handled,
/// responses always, and all else as the application's strategy has it.
pub open spec fn let_in(m: LinkManagerModel, adv: ResourceAdvertisement, accepted: bool) -> bool {
    &&& is_request(adv) ==> m.settings.has_request_handler || m.settings.has_request_handler_ex
        || m.handlers.len() > 0
    &&& !is_request(adv) && !is_response(adv) ==> (m.settings.resource_strategy is AcceptAll || (
    m.settings.resource_strategy is AcceptApp && m.settings.has_resource_accept_handler
        && accepted))
}

/// Whether an offer's place in its Resource is possible.
pub open spec fn well_placed(m: LinkManagerModel, adv: ResourceAdvertisement) -> bool {
    1 <= adv.segment_index <= adv.total_segments <= m.settings.constants.max_segments
}

/// A first offer that is let in is taken up: the transfer's first request goes out with its
/// own payload, the start is reported with what the offer says, and from then on the
/// Resource is owed and its segment is being received.
pub proof fn first_offer_is_taken_up(
    m: LinkManagerModel,
    link_id: [u8; 16],
    adv: ResourceAdvertisement,
    request: Action,
    accepted: bool,
)
    requires
        present(m.links, link_id),
        (find(m.links, link_id)->0).has_session_keys,
        holds_more(m.transport, 1),
        well_placed(m, adv),
        let_in(m, adv, accepted),
        in_segments(adv) ==> adv.segment_index == 1,
        !present(m.resources.inbound, ResourceKey { link_id, hash: adv.resource_hash }),
        !present(m.resources.lifecycles, ResourceKey { link_id, hash: offered_id(adv) }),
        takes_packet(request),
    ensures
        ({
            let s = m.advertised(link_id, adv, transfer_model(Ok(request)), accepted);
            let segment = ResourceKey { link_id, hash: adv.resource_hash };
            let key = ResourceKey { link_id, hash: offered_id(adv) };
            &&& sends_more(m, s, 1)
            &&& carries_out(outgoing(s).last(), link_id, find(m.links, link_id)->0, request)
            &&& only_sends(m, LinkManagerModel { notices: m.notices, resources: m.resources, ..s })
            &&& told(
                m.notices,
                s.notices,
                EventModel::Started {
                    link_id,
                    resource_id: offered_id(adv),
                    direction: LinkResourceDirection::Inbound,
                    data_size: adv.data_size,
                    total_segments: adv.total_segments,
                },
            )
            &&& find(s.resources.inbound, segment) == Some(
                InboundTransfer { data_size: adv.data_size },
            )
            &&& find(s.resources.lifecycles, key) == Some(
                InboundResourceLifecycle {
                    data_size: adv.data_size,
                    total_segments: adv.total_segments,
                    current_segment: Some(adv.resource_hash),
                    is_request: is_request(adv),
                    is_response: is_response(adv),
                    request_id: adv.request_id,
                    inter_segment_deadline: None,
                },
            )
            &&& is_request(adv) ==> present(s.resources.pending_requests, key)
            &&& !is_request(adv) ==> s.resources.pending_requests == m.resources.pending_requests
            &&& in_segments(adv) ==> {
                &&& find(s.resources.routes, segment) == Some(
                    SegmentRoute {
                        original_hash: adv.original_hash,
                        segment_index: adv.segment_index,
                    },
                )
                &&& present(s.resources.splits, key)
                &&& !present(m.resources.splits, key) ==> find(s.resources.splits, key) == Some(
                    SplitCoordinator { total_segments: adv.total_segments, assembled_count: 0 },
                )
            }
            &&& !in_segments(adv) ==> s.resources.routes == m.resources.routes
                && s.resources.splits == m.resources.splits
            &&& s.resources.outbound == m.resources.outbound
            &&& s.resources.queued == m.resources.queued
            &&& forall|other: ResourceKey|
                other != key ==> #[trigger] find(s.resources.lifecycles, other) == find(
                    m.resources.lifecycles,
                    other,
                )
            &&& forall|other: ResourceKey|
                other != segment ==> #[trigger] find(s.resources.inbound, other) == find(
                    m.resources.inbound,
                    other,
                )
        }),
{
    let s = m.advertised(link_id, adv, transfer_model(Ok(request)), accepted);
    let segment = ResourceKey { link_id, hash: adv.resource_hash };
    let key = ResourceKey { link_id, hash: offered_id(adv) };
    let l = m.lifecycle_started(link_id, adv);
    lemma_action_goes_out(l, link_id, request);
    let a = l.action_sent(link_id, request@);
    assert(s == m.offer_accepted(link_id, adv, request@));
    assert(s == a.segment_installed(link_id, adv));
    assert(outgoing(s) == outgoing(a));
    let born = InboundResourceLifecycle {
        data_size: adv.data_size,
        total_segments: adv.total_segments,
        current_segment: None,
        is_request: is_request(adv),
        is_response: is_response(adv),
        request_id: adv.request_id,
        inter_segment_deadline: None,
    };
    let grown = InboundResourceLifecycle { current_segment: Some(adv.resource_hash), ..born };
    let first = l.resources.lifecycles;
    lemma_find_put(m.resources.lifecycles, key, born, key);
    lemma_find_put(first, key, grown, key);
    lemma_find_put(m.resources.inbound, segment, InboundTransfer { data_size: adv.data_size }, segment);
    lemma_find_put(m.resources.pending_requests, key, (), key);
    lemma_find_put(
        m.resources.routes,
        segment,
        SegmentRoute { original_hash: adv.original_hash, segment_index: adv.segment_index },
        segment,
    );
    lemma_find_put(
        m.resources.splits,
        key,
        SplitCoordinator { total_segments: adv.total_segments, assembled_count: 0 },
        key,
    );
    assert forall|other: ResourceKey| other != key implies #[trigger] find(
        s.resources.lifecycles,
        other,
    ) == find(m.resources.lifecycles, other) by {
        lemma_find_put(m.resources.lifecycles, key, born, other);
        lemma_find_put(first, key, grown, other);
    }
    assert forall|other: ResourceKey| other != segment implies #[trigger] find(
        s.resources.inbound,
        other,
    ) == find(m.resources.inbound, other) by {
        lemma_find_put(
            m.resources.inbound,
            segment,
            InboundTransfer { data_size: adv.data_size },
            other,
        );
    }
}

/// The segment that is due of a Resource on its way is taken up without a second start:
/// its first request goes out, and it is the current segment, awaited no longer.
pub proof fn due_segment_is_taken_up(
    m: LinkManagerModel,
    link_id: [u8; 16],
    adv: ResourceAdvertisement,
    request: Action,
    accepted: bool,
)
    requires
        present(m.links, link_id),
        (find(m.links, link_id)->0).has_session_keys,
        holds_more(m.transport, 1),
        well_placed(m, adv),
        let_in(m, adv, accepted),
        in_segments(adv),
        !present(m.resources.inbound, ResourceKey { link_id, hash: adv.resource_hash }),
        present(m.resources.lifecycles, ResourceKey { link_id, hash: adv.original_hash }),
        is_due(m, link_id, adv),
        takes_packet(request),
    ensures
        ({
            let s = m.advertised(link_id, adv, transfer_model(Ok(request)), accepted);
            let segment = ResourceKey { link_id, hash: adv.resource_hash };
            let key = ResourceKey { link_id, hash: adv.original_hash };
            let lifecycle = find(m.resources.lifecycles, key)->0;
            &&& sends_more(m, s, 1)
            &&& carries_out(outgoing(s).last(), link_id, find(m.links, link_id)->0, request)
            &&& only_sends(m, LinkManagerModel { resources: m.resources, ..s })
            &&& find(s.resources.inbound, segment) == Some(
                InboundTransfer { data_size: adv.data_size },
            )
            &&& find(s.resources.routes, segment) == Some(
                SegmentRoute {
                    original_hash: adv.original_hash,
                    segment_index: adv.segment_index,
                },
            )
            &&& find(s.resources.lifecycles, key) == Some(
                InboundResourceLifecycle {
                    current_segment: Some(adv.resource_hash),
                    inter_segment_deadline: None,
                    ..lifecycle
                },
            )
            &&& s.resources.splits == m.resources.splits
            &&& s.resources.pending_requests == m.resources.pending_requests
        }),
{
    let s = m.advertised(link_id, adv, transfer_model(Ok(request)), accepted);
    let segment = ResourceKey { link_id, hash: adv.resource_hash };
    let key = ResourceKey { link_id, hash: adv.original_hash };
    let lifecycle = find(m.resources.lifecycles, key)->0;
    lemma_action_goes_out(m, link_id, request);
    let a = m.action_sent(link_id, request@);
    assert(s == m.offer_accepted(link_id, adv, request@));
    assert(outgoing(s) == outgoing(a));
    lemma_find_put(
        m.resources.lifecycles,
        key,
        InboundResourceLifecycle {
            current_segment: Some(adv.resource_hash),
            inter_segment_deadline: None,
            ..lifecycle
        },
        key,
    );
    lemma_find_put(m.resources.inbound, segment, InboundTransfer { data_size: adv.data_size }, segment);
    lemma_find_put(
        m.resources.routes,
        segment,
        SegmentRoute { original_hash: adv.original_hash, segment_index: adv.segment_index },
        segment,
    );
}

/// Whether an offer is of the segment that is due: the one after those that are here, of
/// the very Resource that is on its way.
pub open spec fn is_due(m: LinkManagerModel, link_id: [u8; 16], adv: ResourceAdvertisement) -> bool {
    let key = ResourceKey { link_id, hash: offered_id(adv) };
    let lifecycle = find(m.resources.lifecycles, key)->0;
    &&& lifecycle.current_segment is None
    &&& lifecycle.total_segments == adv.total_segments
    &&& lifecycle.data_size == adv.data_size
    &&& lifecycle.is_request == is_request(adv)
    &&& lifecycle.is_response == is_response(adv)
    &&& match (lifecycle.request_id, adv.request_id) {
        (Some(a), Some(b)) => a@ == b@,
        (None, None) => true,
        _ => false,
    }
    &&& present(m.resources.splits, key)
    &&& adv.segment_index == (find(m.resources.splits, key)->0).assembled_count + 1
}

/// An offer that contradicts what is on its way is refused: a Resource whose end is owed is
/// cancelled towards the peer by the offered segment, and fails for the given reason;
/// where nothing is owed, nothing is sent and nothing reported.
pub open spec fn refused(
    before: LinkManagerModel,
    after: LinkManagerModel,
    link_id: [u8; 16],
    resource_id: [u8; 32],
    segment_hash: [u8; 32],
    reason: Seq<char>,
) -> bool {
    if present(before.resources.lifecycles, ResourceKey { link_id, hash: resource_id }) {
        &&& sends_more(before, after, 1)
        &&& carries(
            outgoing(after).last(),
            link_id,
            find(before.links, link_id)->0,
            PacketType::Data,
            PacketContext::ResourceRcl,
            segment_hash@,
            true,
        )
        &&& told(
            before.notices,
            after.notices,
            EventModel::Concluded {
                link_id,
                resource_id,
                direction: LinkResourceDirection::Inbound,
                conclusion: ConclusionModel::Failed(reason),
            },
        )
        &&& owes_no_more(before.resources, after.resources, link_id, resource_id)
    } else {
        outgoing(after) == outgoing(before) && after.notices == before.notices
    }
}

proof fn lemma_refused(
    m: LinkManagerModel,
    link_id: [u8; 16],
    resource_id: [u8; 32],
    segment_hash: [u8; 32],
    reason: Seq<char>,
)
    requires
        present(m.links, link_id),
        (find(m.links, link_id)->0).has_session_keys,
        holds_more(m.transport, 1),
    ensures
        refused(
            m,
            m.advertisement_rejected(link_id, resource_id, segment_hash, reason),
            link_id,
            resource_id,
            segment_hash,
            reason,
        ),
{
    let action = TransferAction::<Vec<u8>, String>::SendCancel(CancelType::Rcl, segment_hash);
    lemma_action_goes_out(m, link_id, action);
    let a = m.action_sent(link_id, action@);
    let s = m.advertisement_rejected(link_id, resource_id, segment_hash, reason);
    lemma_owes_no_more(m, link_id, resource_id);
    lemma_owes_no_more(a, link_id, resource_id);
    if present(m.resources.lifecycles, ResourceKey { link_id, hash: resource_id }) {
        assert(outgoing(s) == outgoing(a));
    }
}

/// Offers that do not fit are refused, each for its own reason: a later segment of a
/// Resource that has not begun; a segment of a Resource on its way that is not the one that
/// is due; a segment that is on its way for another Resource; and one whose transfer could
/// not be set up.
pub proof fn unfit_offers_are_refused(
    m: LinkManagerModel,
    link_id: [u8; 16],
    adv: ResourceAdvertisement,
    transfer: Result<Action, String>,
    accepted: bool,
)
    requires
        present(m.links, link_id),
        (find(m.links, link_id)->0).has_session_keys,
        holds_more(m.transport, 1),
        well_placed(m, adv),
    ensures
        ({
            let s = m.advertised(link_id, adv, transfer_model(transfer), accepted);
            let segment = ResourceKey { link_id, hash: adv.resource_hash };
            let key = ResourceKey { link_id, hash: offered_id(adv) };
            let owed = present(m.resources.lifecycles, key);
            let holder = match find(m.resources.routes, segment) {
                Some(route) => route.original_hash,
                None => adv.resource_hash,
            };
            let twice = present(m.resources.inbound, segment);
            &&& !twice && !owed && in_segments(adv) && adv.segment_index != 1 ==> refused(
                m,
                s,
                link_id,
                offered_id(adv),
                adv.resource_hash,
                "split-resource transfer must begin with segment 1"@,
            )
            &&& !twice && owed && !is_due(m, link_id, adv) ==> refused(
                m,
                s,
                link_id,
                offered_id(adv),
                adv.resource_hash,
                "split-resource sequence does not match the active transfer"@,
            )
            &&& twice && holder != offered_id(adv) ==> refused(
                m,
                s,
                link_id,
                holder,
                adv.resource_hash,
                "resource hash conflicts with an active transfer"@,
            )
            &&& !twice && (owed ==> is_due(m, link_id, adv)) && (!owed && in_segments(adv)
                ==> adv.segment_index == 1) && let_in(m, adv, true) && transfer is Err ==> refused(
                m,
                s,
                link_id,
                offered_id(adv),
                adv.resource_hash,
                (transfer->Err_0)@,
            )
        }),
{
    let segment = ResourceKey { link_id, hash: adv.resource_hash };
    let holder = match find(m.resources.routes, segment) {
        Some(route) => route.original_hash,
        None => adv.resource_hash,
    };
    let id = offered_id(adv);
    let hash = adv.resource_hash;
    lemma_refused(m, link_id, id, hash, "split-resource transfer must begin with segment 1"@);
    lemma_refused(
        m,
        link_id,
        id,
        hash,
        "split-resource sequence does not match the active transfer"@,
    );
    lemma_refused(m, link_id, holder, hash, "resource hash conflicts with an active transfer"@);
    if transfer is Err {
        lemma_refused(m, link_id, id, hash, (transfer->Err_0)@);
    }
}

/// A first offer that the application is asked about and does not want is cancelled
/// towards the peer by its segment; nothing is reported, and nothing is owed.
pub proof fn unwanted_offer_is_declined(
    m: LinkManagerModel,
    link_id: [u8; 16],
    adv: ResourceAdvertisement,
    request: Action,
)
    requires
        present(m.links, link_id),
        (find(m.links, link_id)->0).has_session_keys,
        holds_more(m.transport, 1),
        well_placed(m, adv),
        m.settings.resource_strategy is AcceptApp,
        !is_request(adv),
        !is_response(adv),
        in_segments(adv) ==> adv.segment_index == 1,
        !present(m.resources.inbound, ResourceKey { link_id, hash: adv.resource_hash }),
        !present(m.resources.lifecycles, ResourceKey { link_id, hash: offered_id(adv) }),
    ensures
        ({
            let s = m.advertised(link_id, adv, transfer_model(Ok(request)), false);
            &&& sends_more(m, s, 1)
            &&& carries(
                outgoing(s).last(),
                link_id,
                find(m.links, link_id)->0,
                PacketType::Data,
                PacketContext::ResourceRcl,
                adv.resource_hash@,
                true,
            )
            &&& only_sends(m, s)
        }),
{
    let action = TransferAction::<Vec<u8>, String>::SendCancel(CancelType::Rcl, adv.resource_hash);
    lemma_action_goes_out(m, link_id, action);
}

// ---- parts ----

/// The progress that a part brings is reported under the id of the whole Resource, and the
/// flow control that it asks for goes out with its own payload.
pub proof fn part_is_answered(
    m: LinkManagerModel,
    link_id: [u8; 16],
    scan: PartScan,
    transferred: usize,
)
    requires
        present(m.links, link_id),
        (find(m.links, link_id)->0).has_session_keys,
        holds_more(m.transport, 1),
        scan.action is Some ==> takes_packet(scan.action->0),
    ensures
        ({
            let s = m.part_received(
                link_id,
                scan.progressed,
                transferred,
                optional_action(scan.action),
            );
            let segment = ResourceKey { link_id, hash: scan.progressed->0 };
            &&& match scan.action {
                Some(action) => sends_more(m, s, 1) && carries_out(
                    outgoing(s).last(),
                    link_id,
                    find(m.links, link_id)->0,
                    action,
                ),
                None => outgoing(s) == outgoing(m),
            }
            &&& if scan.progressed is Some && present(m.resources.inbound, segment) {
                told(
                    m.notices,
                    s.notices,
                    EventModel::Progress {
                        link_id,
                        resource_id: match find(m.resources.routes, segment) {
                            Some(route) => route.original_hash,
                            None => scan.progressed->0,
                        },
                        direction: LinkResourceDirection::Inbound,
                        transferred,
                        total: (find(m.resources.inbound, segment)->0).data_size,
                    },
                )
            } else {
                s.notices == m.notices
            }
            &&& only_sends(m, LinkManagerModel { notices: m.notices, ..s })
        }),
{
    let p = match scan.progressed {
        Some(segment) => m.inbound_progressed(link_id, segment, transferred),
        None => m,
    };
    if scan.action is Some {
        lemma_action_goes_out(p, link_id, scan.action->0);
        assert(outgoing(p) == outgoing(m));
    }
}

/// More of the hash map of a segment that is being received is answered with what the
/// transfer asks for; where that is to give up, the Resource fails. Of any other segment it
/// means nothing.
pub proof fn hashmap_update_is_answered(
    m: LinkManagerModel,
    link_id: [u8; 16],
    segment: [u8; 32],
    action: Action,
)
    requires
        present(m.links, link_id),
        (find(m.links, link_id)->0).has_session_keys,
        holds_more(m.transport, 1),
        takes_packet(action),
    ensures
        ({
            let s = m.hashmap_updated(link_id, segment, action@);
            let key = ResourceKey { link_id, hash: segment };
            let id = match find(m.resources.routes, key) {
                Some(route) => route.original_hash,
                None => segment,
            };
            if !present(m.resources.inbound, key) {
                s == m
            } else {
                &&& sends_more(m, s, 1)
                &&& carries_out(outgoing(s).last(), link_id, find(m.links, link_id)->0, action)
                &&& if action matches TransferAction::SendCancel(CancelType::Rcl, _) {
                    &&& present(
                        m.resources.lifecycles,
                        ResourceKey { link_id, hash: id },
                    ) ==> told(
                        m.notices,
                        s.notices,
                        EventModel::Concluded {
                            link_id,
                            resource_id: id,
                            direction: LinkResourceDirection::Inbound,
                            conclusion: ConclusionModel::Failed(
                                "sender returned an invalid Resource hashmap update"@,
                            ),
                        },
                    )
                    &&& owes_no_more(m.resources, s.resources, link_id, id)
                } else {
                    only_sends(m, s)
                }
            }
        }),
{
    let s = m.hashmap_updated(link_id, segment, action@);
    let key = ResourceKey { link_id, hash: segment };
    let id = match find(m.resources.routes, key) {
        Some(route) => route.original_hash,
        None => segment,
    };
    lemma_action_goes_out(m, link_id, action);
    let a = m.action_sent(link_id, action@);
    lemma_owes_no_more(a, link_id, id);
    if present(m.resources.inbound, key) {
        assert(outgoing(s) == outgoing(a));
    }
}

/// The sender's cancellation, by a segment that is being received or by the id of a
/// Resource between two segments, ends that Resource as cancelled. Any other hash, or none,
/// means nothing.
pub proof fn senders_cancellation_ends_the_resource(
    m: LinkManagerModel,
    link_id: [u8; 16],
    hash: [u8; 32],
    plaintext: Seq<u8>,
)
    requires
        plaintext.len() >= 32,
        hash@ == plaintext.subrange(0, 32),
    ensures
        ({
            let s = m.inbound_cancelled(link_id, plaintext);
            let key = ResourceKey { link_id, hash };
            let id = match find(m.resources.routes, key) {
                Some(route) => if present(m.resources.inbound, key) {
                    route.original_hash
                } else {
                    hash
                },
                None => hash,
            };
            let owed = present(m.resources.lifecycles, ResourceKey { link_id, hash: id });
            &&& present(m.resources.inbound, key) || owed ==> owes_no_more(
                m.resources,
                s.resources,
                link_id,
                id,
            )
            &&& owed ==> told(
                m.notices,
                s.notices,
                EventModel::Concluded {
                    link_id,
                    resource_id: id,
                    direction: LinkResourceDirection::Inbound,
                    conclusion: ConclusionModel::Cancelled,
                },
            )
            &&& !owed ==> s.notices == m.notices
            &&& !owed && !present(m.resources.inbound, key) ==> s == m
            &&& s == (LinkManagerModel { notices: s.notices, resources: s.resources, ..m })
        }),
{
    lemma_hash_at(plaintext, 0, hash);
    let key = ResourceKey { link_id, hash };
    let id = match find(m.resources.routes, key) {
        Some(route) => if present(m.resources.inbound, key) {
            route.original_hash
        } else {
            hash
        },
        None => hash,
    };
    lemma_owes_no_more(m, link_id, id);
}


// ---- complete segments ----

/// The Resource that a segment belongs to.
pub open spec fn whole_of(m: LinkManagerModel, link_id: [u8; 16], segment: [u8; 32]) -> [u8; 32] {
    match find(m.resources.routes, ResourceKey { link_id, hash: segment }) {
        Some(route) => route.original_hash,
        None => segment,
    }
}

/// Whether a segment is being received, and where it is one of several, its Resource is
/// being reassembled.
pub open spec fn being_received(
    m: LinkManagerModel,
    link_id: [u8; 16],
    segment: [u8; 32],
) -> bool {
    &&& present(m.resources.inbound, ResourceKey { link_id, hash: segment })
    &&& present(m.resources.routes, ResourceKey { link_id, hash: segment }) ==> present(
        m.resources.splits,
        ResourceKey { link_id, hash: whole_of(m, link_id, segment) },
    )
}

/// The model of what came of a complete segment, with its proof and what reassembly gave.
pub open spec fn assembled(proof_data: Vec<u8>, assembly: Assembly<Vec<u8>, String>) -> Result<
    CompletedSegment<Seq<u8>, Seq<char>>,
    Seq<char>,
> {
    segment_model(Ok(CompletedSegment { proof: proof_data, assembly }))
}

/// A complete segment that completes its Resource is proved with exactly its proof, and
/// then the whole is handed out as reassembly gave it: its data, and its metadata, under
/// the id of the whole.
pub proof fn completing_segment_hands_out_the_whole(
    m: LinkManagerModel,
    link_id: [u8; 16],
    segment: [u8; 32],
    proof_data: Vec<u8>,
    data: Vec<u8>,
    metadata: Option<Vec<u8>>,
    deadline: u64,
)
    requires
        present(m.links, link_id),
        holds_more(m.transport, 1),
        being_received(m, link_id, segment),
        present(
            m.resources.lifecycles,
            ResourceKey { link_id, hash: whole_of(m, link_id, segment) },
        ),
    ensures
        ({
            let id = whole_of(m, link_id, segment);
            let result = assembled(proof_data, Assembly::Whole { data, metadata });
            let s = m.segment_completed(link_id, segment, result, deadline);
            let request = (find(m.resources.lifecycles, ResourceKey { link_id, hash: id })->0).is_request;
            &&& sends_more(m, s, 1)
            &&& carries(
                outgoing(s).last(),
                link_id,
                find(m.links, link_id)->0,
                PacketType::Proof,
                PacketContext::ResourcePrf,
                proof_data@,
                false,
            )
            &&& !request ==> handed_out(
                m.notices,
                s.notices,
                link_id,
                id,
                data@,
                match metadata {
                    Some(b) => Some(b@),
                    None => None,
                },
            )
            &&& request ==> told(
                m.notices,
                s.notices,
                EventModel::Concluded {
                    link_id,
                    resource_id: id,
                    direction: LinkResourceDirection::Inbound,
                    conclusion: ConclusionModel::Complete,
                },
            )
            &&& owes_no_more(m.resources, s.resources, link_id, id)
            &&& only_sends(m, LinkManagerModel { notices: m.notices, resources: m.resources, ..s })
            &&& m.completed_request(link_id, segment, result) == if request {
                Some(data@)
            } else {
                None
            }
        }),
{
    let id = whole_of(m, link_id, segment);
    let result = assembled(proof_data, Assembly::Whole { data, metadata });
    let action = TransferAction::<Vec<u8>, String>::SendProof(proof_data);
    lemma_proof_goes_out(m, link_id, proof_data);
    let a = m.action_sent(link_id, action@);
    let bytes = match metadata {
        Some(b) => Some(b@),
        None => None,
    };
    let s = m.segment_completed(link_id, segment, result, deadline);
    assert(s == a.inbound_completed(link_id, id, data@, bytes));
    assert(outgoing(s) == outgoing(a));
    if (find(m.resources.lifecycles, ResourceKey { link_id, hash: id })->0).is_request {
        whole_request_is_not_delivered(a, link_id, id, data@, bytes);
    } else {
        whole_resource_arrives(a, link_id, id, data@, bytes);
    }
}

/// The proof of a segment needs no keys of the Link.
proof fn lemma_proof_goes_out(m: LinkManagerModel, link_id: [u8; 16], proof_data: Vec<u8>)
    requires
        present(m.links, link_id),
        holds_more(m.transport, 1),
    ensures
        ({
            let action = TransferAction::<Vec<u8>, String>::SendProof(proof_data);
            let s = m.action_sent(link_id, action@);
            &&& m.action_retained(link_id, action@)
            &&& sends_more(m, s, 1)
            &&& carries_out(outgoing(s).last(), link_id, find(m.links, link_id)->0, action)
            &&& only_sends(m, s)
        }),
{
    let action = TransferAction::<Vec<u8>, String>::SendProof(proof_data);
    let s = m.action_sent(link_id, action@);
    assert(outgoing(m).is_prefix_of(outgoing(s)));
}

/// A complete segment of several that does not complete its Resource is proved and leaves:
/// the number of segments that are here is noted, and the next one is awaited until the
/// deadline. Nothing is reported.
pub proof fn stored_segment_awaits_the_next(
    m: LinkManagerModel,
    link_id: [u8; 16],
    segment: [u8; 32],
    proof_data: Vec<u8>,
    assembled_count: usize,
    deadline: u64,
)
    requires
        present(m.links, link_id),
        holds_more(m.transport, 1),
        being_received(m, link_id, segment),
        present(m.resources.routes, ResourceKey { link_id, hash: segment }),
    ensures
        ({
            let key = ResourceKey { link_id, hash: segment };
            let whole = ResourceKey { link_id, hash: whole_of(m, link_id, segment) };
            let result = assembled(proof_data, Assembly::Partial { assembled_count });
            let s = m.segment_completed(link_id, segment, result, deadline);
            let split = find(m.resources.splits, whole)->0;
            &&& sends_more(m, s, 1)
            &&& carries(
                outgoing(s).last(),
                link_id,
                find(m.links, link_id)->0,
                PacketType::Proof,
                PacketContext::ResourcePrf,
                proof_data@,
                false,
            )
            &&& only_sends(m, LinkManagerModel { resources: m.resources, ..s })
            &&& !present(s.resources.inbound, key)
            &&& !present(s.resources.routes, key)
            &&& find(s.resources.splits, whole) == Some(
                SplitCoordinator { total_segments: split.total_segments, assembled_count },
            )
            &&& match find(m.resources.lifecycles, whole) {
                Some(lifecycle) => find(s.resources.lifecycles, whole) == Some(
                    InboundResourceLifecycle {
                        current_segment: None,
                        inter_segment_deadline: Some(deadline),
                        ..lifecycle
                    },
                ),
                None => s.resources.lifecycles == m.resources.lifecycles,
            }
            &&& s.resources == (ResourcesModel {
                inbound: s.resources.inbound,
                routes: s.resources.routes,
                splits: s.resources.splits,
                lifecycles: s.resources.lifecycles,
                ..m.resources
            })
            &&& m.completed_request(link_id, segment, result) is None
        }),
{
    let key = ResourceKey { link_id, hash: segment };
    let whole = ResourceKey { link_id, hash: whole_of(m, link_id, segment) };
    let result = assembled(proof_data, Assembly::Partial { assembled_count });
    let action = TransferAction::<Vec<u8>, String>::SendProof(proof_data);
    lemma_proof_goes_out(m, link_id, proof_data);
    let a = m.action_sent(link_id, action@);
    let s = m.segment_completed(link_id, segment, result, deadline);
    assert(outgoing(s) == outgoing(a));
    let split = find(m.resources.splits, whole)->0;
    lemma_find_cut(m.resources.inbound, key, key);
    lemma_find_cut(m.resources.routes, key, key);
    lemma_find_put(
        m.resources.splits,
        whole,
        SplitCoordinator { assembled_count, ..split },
        whole,
    );
    if let Some(lifecycle) = find(m.resources.lifecycles, whole) {
        lemma_find_put(
            m.resources.lifecycles,
            whole,
            InboundResourceLifecycle {
                current_segment: None,
                inter_segment_deadline: Some(deadline),
                ..lifecycle
            },
            whole,
        );
    }
}

/// Whether an owed inbound Resource has failed, and nothing but that was reported.
pub open spec fn fails(
    before: LinkManagerModel,
    after: LinkManagerModel,
    link_id: [u8; 16],
    resource_id: [u8; 32],
    reason: Seq<char>,
) -> bool {
    &&& told(
        before.notices,
        after.notices,
        EventModel::Concluded {
            link_id,
            resource_id,
            direction: LinkResourceDirection::Inbound,
            conclusion: ConclusionModel::Failed(reason),
        },
    )
    &&& owes_no_more(before.resources, after.resources, link_id, resource_id)
}

/// An owed Resource fails, for the reason of the step that failed: if a segment has no
/// content, which the peer is told by a cancellation of that segment; if reassembly breaks;
/// if the segment's proof cannot be kept; and if nothing reassembles the segment.
pub proof fn broken_segments_fail_the_resource(
    m: LinkManagerModel,
    link_id: [u8; 16],
    segment: [u8; 32],
    proof_data: Vec<u8>,
    assembly: Assembly<Vec<u8>, String>,
    why: String,
    deadline: u64,
)
    requires
        present(m.links, link_id),
        present(m.resources.inbound, ResourceKey { link_id, hash: segment }),
        present(
            m.resources.lifecycles,
            ResourceKey { link_id, hash: whole_of(m, link_id, segment) },
        ),
    ensures
        ({
            let id = whole_of(m, link_id, segment);
            let routed = present(m.resources.routes, ResourceKey { link_id, hash: segment });
            let reassembling = present(m.resources.splits, ResourceKey { link_id, hash: id });
            let s = m.segment_completed(link_id, segment, assembled(proof_data, assembly), deadline);
            let t = m.segment_completed(link_id, segment, segment_model(Err(why)), deadline);
            let room = holds_more(m.transport, 1);
            &&& room && (find(m.links, link_id)->0).has_session_keys ==> sends_more(m, t, 1)
                && carries(
                outgoing(t).last(),
                link_id,
                find(m.links, link_id)->0,
                PacketType::Data,
                PacketContext::ResourceRcl,
                segment@,
                true,
            )
            &&& fails(m, t, link_id, id, why@)
            &&& m.completed_request(link_id, segment, segment_model(Err(why))) is None
            &&& m.transport.control.len() >= MAX_PENDING_LINK_CONTROL ==> fails(
                m,
                s,
                link_id,
                id,
                "could not send Resource proof"@,
            ) && m.completed_request(link_id, segment, assembled(proof_data, assembly)) is None
            &&& room && routed && !reassembling ==> fails(
                m,
                s,
                link_id,
                id,
                "split-resource coordinator is missing"@,
            )
            &&& room && routed && reassembling && assembly is Broken ==> fails(
                m,
                s,
                link_id,
                id,
                (assembly->Broken_0)@,
            )
        }),
{
    let id = whole_of(m, link_id, segment);
    let cancel = TransferAction::<Vec<u8>, String>::SendCancel(CancelType::Rcl, segment);
    let t = m.segment_completed(link_id, segment, segment_model(Err(why)), deadline);
    let c = m.action_sent(link_id, cancel@);
    lemma_owes_no_more(c, link_id, id);
    assert(outgoing(t) == outgoing(c));
    if holds_more(m.transport, 1) && (find(m.links, link_id)->0).has_session_keys {
        lemma_action_goes_out(m, link_id, cancel);
    }
    let prove = TransferAction::<Vec<u8>, String>::SendProof(proof_data);
    let a = m.action_sent(link_id, prove@);
    lemma_owes_no_more(a, link_id, id);
    if holds_more(m.transport, 1) {
        lemma_proof_goes_out(m, link_id, proof_data);
    }
}

// ---- cancelling ----

/// The segment that a cancellation by this end speaks of is one that the Link receives, and
/// goes by the given id itself or through its Resource; and where there is such a segment,
/// one is found.
pub proof fn cancelled_segment_goes_by_its_id(
    resources: ResourcesModel,
    n: nat,
    link_id: [u8; 16],
    id: [u8; 32],
)
    requires
        n <= resources.inbound.len(),
    ensures
        ({
            let found = inbound_segment(resources, n, link_id, id);
            &&& found is Some ==> exists|i: int|
                0 <= i < n && goes_by(resources, #[trigger] resources.inbound[i].0, link_id, id)
                    && resources.inbound[i].0.hash == found->0
            &&& found is None ==> forall|i: int|
                0 <= i < n ==> !goes_by(resources, #[trigger] resources.inbound[i].0, link_id, id)
        }),
    decreases n,
{
    if n > 0 {
        cancelled_segment_goes_by_its_id(resources, (n - 1) as nat, link_id, id);
        assert(goes_by(resources, resources.inbound[n - 1].0, link_id, id)
            || !goes_by(resources, resources.inbound[n - 1].0, link_id, id));
    }
}

/// Whether a segment is the Link's and goes by an id, its own or that of its Resource.
pub open spec fn goes_by(
    resources: ResourcesModel,
    key: ResourceKey,
    link_id: [u8; 16],
    id: [u8; 32],
) -> bool {
    key.link_id == link_id && (key.hash == id || (match find(resources.routes, key) {
        Some(route) => route.original_hash,
        None => key.hash,
    }) == id)
}

/// Cancelling an inbound Resource tells the peer which segment is given up, if one is on
/// its way, and ends the Resource as cancelled; between two segments nothing is sent.
pub proof fn inbound_cancellation_ends_the_resource(
    m: LinkManagerModel,
    link_id: [u8; 16],
    id: [u8; 32],
)
    requires
        present(m.links, link_id),
        (find(m.links, link_id)->0).has_session_keys,
        holds_more(m.transport, 1),
    ensures
        ({
            let s = m.resource_cancelled(link_id, id, LinkResourceDirection::Inbound);
            let found = inbound_segment(m.resources, m.resources.inbound.len(), link_id, id);
            let whole = match found {
                Some(segment) => whole_of(m, link_id, segment),
                None => id,
            };
            let owed = present(m.resources.lifecycles, ResourceKey { link_id, hash: whole });
            &&& found is Some ==> sends_more(m, s, 1) && carries(
                outgoing(s).last(),
                link_id,
                find(m.links, link_id)->0,
                PacketType::Data,
                PacketContext::ResourceRcl,
                (found->0)@,
                true,
            )
            &&& found is None ==> s.transport == m.transport
            &&& found is None && !owed ==> s == m
            &&& found is Some || owed ==> owes_no_more(m.resources, s.resources, link_id, whole)
            &&& owed ==> told(
                m.notices,
                s.notices,
                EventModel::Concluded {
                    link_id,
                    resource_id: whole,
                    direction: LinkResourceDirection::Inbound,
                    conclusion: ConclusionModel::Cancelled,
                },
            )
            &&& !owed ==> s.notices == m.notices
        }),
{
    let found = inbound_segment(m.resources, m.resources.inbound.len(), link_id, id);
    let s = m.resource_cancelled(link_id, id, LinkResourceDirection::Inbound);
    match found {
        Some(segment) => {
            let action = TransferAction::<Vec<u8>, String>::SendCancel(CancelType::Rcl, segment);
            lemma_action_goes_out(m, link_id, action);
            let a = m.action_sent(link_id, action@);
            lemma_owes_no_more(a, link_id, whole_of(m, link_id, segment));
            assert(outgoing(s) == outgoing(a));
        },
        None => {
            lemma_owes_no_more(m, link_id, id);
        },
    }
}

} // verus!
