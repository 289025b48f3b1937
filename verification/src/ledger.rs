//! Every accepted inbound Resource is reported to begin once and to end once.
//!
//! The accounting stream and the set of Resources whose end is owed are kept like a
//! ledger: for each Resource, the starts less the ends on the stream change exactly as
//! the debt does, whatever the manager is told.

use vstd::prelude::*;

use crate::assoc::{
    cut, find, lemma_find_cut, lemma_find_put, present, put, ResourceKey,
};
use crate::commands::{DestinationEvent, LinkManagerCommand};
use crate::events::{
    bytes_model, AccountingModel, CompletionModel, ConclusionModel, EventModel,
    LegacyTerminalNotification, LinkPacketProof, LinkResourceDirection,
};
use crate::inbound::{AdvertisementVerdict, ResourceAdvertisement};
use crate::link::{ActionModel, CancelType, CloseReason, TransferAction};
use crate::manager::LinkManagerModel;
use crate::notices::NoticesModel;
use crate::packets::{OfferInput, PacketInput};
use crate::receiving::{hash_at, Assembly, CompletedSegment};
use crate::resources::{
    key_of, lifecycle_ids, logical_id, outbound_ids, overdue_ids, ResourcesModel, SegmentRoute,
};
use crate::sending::{optional_len, BuiltResource, ResourceTransferStart};
use crate::tick::{ChannelTimeout, LinkAction, LinkRemoval, WatchdogAction};
use crate::transport::{
    accepted_final_sends, bind_outcomes, failed_sends, released_endpoints, AcceptedFinalSend,
    FailedSend, ReleasedEndpoint, TransportModel,
};
use crate::wire::{
    LinkEndpointBindResult, LinkEndpointLifecycleEvent, LinkEndpointSendResult, PacketHeader,
};

verus! {

/// What one entry of the stream says about the Resource: one more start, one more end,
/// or nothing.
pub open spec fn weight(entry: AccountingModel, key: ResourceKey) -> int {
    match entry {
        AccountingModel::ResourceEvent(
            EventModel::Started { link_id, resource_id, direction, .. },
        ) => if direction is Inbound && key_of(link_id, resource_id) == key {
            1
        } else {
            0
        },
        AccountingModel::ResourceEvent(
            EventModel::Concluded { link_id, resource_id, direction, .. },
        ) => if direction is Inbound && key_of(link_id, resource_id) == key {
            -1
        } else {
            0
        },
        _ => 0,
    }
}

/// Starts less ends of the Resource on the stream.
pub open spec fn balance(entries: Seq<AccountingModel>, key: ResourceKey) -> int
    decreases entries.len(),
{
    if entries.len() == 0 {
        0
    } else {
        balance(entries.drop_last(), key) + weight(entries.last(), key)
    }
}

/// Whether the accounting stream is installed, without a limit, and read.
pub open spec fn listening(n: NoticesModel) -> bool {
    match n.accounting {
        Some(port) => port.limit is None && !port.closed,
        None => false,
    }
}

/// Starts less ends on the stream, less what is owed.
pub open spec fn ledger(m: LinkManagerModel, key: ResourceKey) -> int {
    balance(m.notices.accounting->0.sent, key) - (if present(m.resources.lifecycles, key) {
        1int
    } else {
        0int
    })
}

/// From `a` to `b`, the stream has recorded exactly what has become of the debt.
pub open spec fn keeps_ledger(a: LinkManagerModel, b: LinkManagerModel) -> bool {
    listening(a.notices) ==> {
        &&& listening(b.notices)
        &&& forall|key: ResourceKey| #[trigger] ledger(b, key) == ledger(a, key)
    }
}

/// Neither the stream nor the debt differs.
pub open spec fn same_books(a: LinkManagerModel, b: LinkManagerModel) -> bool {
    &&& a.notices.accounting == b.notices.accounting
    &&& a.resources.lifecycles == b.resources.lifecycles
}

proof fn lemma_push(entries: Seq<AccountingModel>, entry: AccountingModel, key: ResourceKey)
    ensures
        balance(entries.push(entry), key) == balance(entries, key) + weight(entry, key),
{
    assert(entries.push(entry).drop_last() =~= entries);
}

/// One entry more on the stream.
proof fn lemma_accounted(n: NoticesModel, entry: AccountingModel)
    requires
        listening(n),
    ensures
        listening(n.accounted(entry)),
        forall|key: ResourceKey| #[trigger]
            balance(n.accounted(entry).accounting->0.sent, key) == balance(
                n.accounting->0.sent,
                key,
            ) + weight(entry, key),
{
    assert forall|key: ResourceKey| #[trigger]
        balance(n.accounted(entry).accounting->0.sent, key) == balance(n.accounting->0.sent, key)
            + weight(entry, key) by {
        lemma_push(n.accounting->0.sent, entry, key);
    }
}

/// One Resource event more: progress leaves the stream as it is.
proof fn lemma_emitted(n: NoticesModel, event: EventModel)
    requires
        listening(n),
    ensures
        listening(n.emitted(event)),
        forall|key: ResourceKey| #[trigger]
            balance(n.emitted(event).accounting->0.sent, key) == balance(
                n.accounting->0.sent,
                key,
            ) + weight(AccountingModel::ResourceEvent(event), key),
{
    if !(event is Progress) {
        lemma_accounted(n, AccountingModel::ResourceEvent(event));
    }
}

/// Delivering terminal facts leaves the stream as it is.
pub proof fn lemma_legacy_flush_keeps_stream(n: NoticesModel)
    ensures
        n.legacy_flushed().accounting == n.accounting,
        n.legacy_flushed().resource_event == n.resource_event,
    decreases n.pending_legacy.len(),
{
    if n.pending_legacy.len() > 0 {
        let rest = NoticesModel { pending_legacy: n.pending_legacy.skip(1), ..n };
        match n.pending_legacy[0] {
            LegacyTerminalNotification::PacketProof(p) => {
                match n.link_packet_proof {
                    Some(port) => {
                        lemma_legacy_flush_keeps_stream(
                            NoticesModel { link_packet_proof: Some(port.offer(p)), ..rest },
                        );
                    },
                    None => {
                        lemma_legacy_flush_keeps_stream(rest);
                    },
                }
            },
            LegacyTerminalNotification::ResourceProof(p) => {
                match n.outbound_resource_proof {
                    Some(port) => {
                        lemma_legacy_flush_keeps_stream(
                            NoticesModel { outbound_resource_proof: Some(port.offer(p)), ..rest },
                        );
                    },
                    None => {
                        lemma_legacy_flush_keeps_stream(rest);
                    },
                }
            },
            LegacyTerminalNotification::LinkClosed(id) => {
                match n.link_closed {
                    Some(port) => {
                        lemma_legacy_flush_keeps_stream(
                            NoticesModel { link_closed: Some(port.offer(id@)), ..rest },
                        );
                    },
                    None => {
                        lemma_legacy_flush_keeps_stream(rest);
                    },
                }
            },
        }
    }
}

proof fn lemma_staged(n: NoticesModel, fact: LegacyTerminalNotification)
    ensures
        n.legacy_staged(fact).accounting == n.accounting,
{
    lemma_legacy_flush_keeps_stream(
        NoticesModel { pending_legacy: n.pending_legacy.push(fact), ..n },
    );
}

proof fn lemma_same(a: LinkManagerModel, b: LinkManagerModel)
    requires
        same_books(a, b),
    ensures
        keeps_ledger(a, b),
{
}

proof fn lemma_chain(a: LinkManagerModel, b: LinkManagerModel, c: LinkManagerModel)
    requires
        keeps_ledger(a, b),
        keeps_ledger(b, c),
    ensures
        keeps_ledger(a, c),
{
    if listening(a.notices) {
        assert forall|key: ResourceKey| #[trigger] ledger(c, key) == ledger(a, key) by {
            assert(ledger(b, key) == ledger(a, key));
        }
    }
}

proof fn lemma_action(m: LinkManagerModel, link_id: [u8; 16], action: ActionModel)
    ensures
        same_books(m, m.action_sent(link_id, action)),
        m.action_sent(link_id, action).resources == m.resources,
{
}

/// An end that is owed is reported once and owed no more; one that is not owed is not
/// reported.
pub proof fn inbound_end_is_accounted(
    m: LinkManagerModel,
    link_id: [u8; 16],
    resource_id: [u8; 32],
    conclusion: ConclusionModel,
)
    ensures
        keeps_ledger(m, m.inbound_concluded(link_id, resource_id, conclusion)),
        !present(
            m.inbound_concluded(link_id, resource_id, conclusion).resources.lifecycles,
            key_of(link_id, resource_id),
        ),
        !present(m.resources.lifecycles, key_of(link_id, resource_id))
            ==> m.inbound_concluded(link_id, resource_id, conclusion).notices == m.notices,
{
    reveal(ResourcesModel::logical_dropped);
    let key = key_of(link_id, resource_id);
    let event = EventModel::Concluded {
        link_id,
        resource_id,
        direction: LinkResourceDirection::Inbound,
        conclusion,
    };
    let after = m.inbound_concluded(link_id, resource_id, conclusion);
    assert(after.resources.lifecycles == cut(m.resources.lifecycles, key));
    lemma_find_cut(m.resources.lifecycles, key, key);
    if listening(m.notices) {
        lemma_emitted(m.notices, event);
        assert forall|k: ResourceKey| #[trigger] ledger(after, k) == ledger(m, k) by {
            lemma_find_cut(m.resources.lifecycles, key, k);
            assert(balance(m.notices.emitted(event).accounting->0.sent, k) == balance(
                m.notices.accounting->0.sent,
                k,
            ) + weight(AccountingModel::ResourceEvent(event), k));
        }
    }
}

/// An end is reported at most once: concluding the same Resource again reports nothing.
pub proof fn inbound_end_is_reported_once(
    m: LinkManagerModel,
    link_id: [u8; 16],
    resource_id: [u8; 32],
    first: ConclusionModel,
    second: ConclusionModel,
)
    ensures
        m.inbound_concluded(link_id, resource_id, first).inbound_concluded(
            link_id,
            resource_id,
            second,
        ).notices == m.inbound_concluded(link_id, resource_id, first).notices,
{
    inbound_end_is_accounted(m, link_id, resource_id, first);
    inbound_end_is_accounted(
        m.inbound_concluded(link_id, resource_id, first),
        link_id,
        resource_id,
        second,
    );
}

/// A Resource that arrived whole is reported to end once, if its end was owed.
pub proof fn inbound_completion_is_accounted(
    m: LinkManagerModel,
    link_id: [u8; 16],
    resource_id: [u8; 32],
    data: Seq<u8>,
    metadata: Option<Seq<u8>>,
)
    ensures
        keeps_ledger(m, m.inbound_completed(link_id, resource_id, data, metadata)),
        !present(
            m.inbound_completed(link_id, resource_id, data, metadata).resources.lifecycles,
            key_of(link_id, resource_id),
        ),
{
    reveal(ResourcesModel::logical_dropped);
    let key = key_of(link_id, resource_id);
    let event = EventModel::Concluded {
        link_id,
        resource_id,
        direction: LinkResourceDirection::Inbound,
        conclusion: ConclusionModel::Complete,
    };
    let completion = CompletionModel { link_id, resource_hash: resource_id, data, metadata };
    let after = m.inbound_completed(link_id, resource_id, data, metadata);
    assert(after.resources.lifecycles == cut(m.resources.lifecycles, key));
    lemma_find_cut(m.resources.lifecycles, key, key);
    if listening(m.notices) {
        lemma_accounted(m.notices, AccountingModel::ResourceCompletion(completion));
        lemma_emitted(m.notices, event);
        lemma_emitted(m.notices.completed(completion), event);
        assert forall|k: ResourceKey| #[trigger] ledger(after, k) == ledger(m, k) by {
            lemma_find_cut(m.resources.lifecycles, key, k);
            let n = m.notices;
            let c = n.completed(completion);
            let entry = AccountingModel::ResourceCompletion(completion);
            assert(balance(n.accounted(entry).accounting->0.sent, k) == balance(
                n.accounting->0.sent,
                k,
            ) + weight(entry, k));
            assert(c.accounting == n.accounted(entry).accounting);
            assert(balance(c.emitted(event).accounting->0.sent, k) == balance(
                c.accounting->0.sent,
                k,
            ) + weight(AccountingModel::ResourceEvent(event), k));
            assert(balance(n.emitted(event).accounting->0.sent, k) == balance(
                n.accounting->0.sent,
                k,
            ) + weight(AccountingModel::ResourceEvent(event), k));
        }
    }
}

/// A request that arrived as a Resource is not published as a completion: the stream
/// gets its end alone.
pub proof fn request_resource_is_not_a_completion(
    m: LinkManagerModel,
    link_id: [u8; 16],
    resource_id: [u8; 32],
    data: Seq<u8>,
    metadata: Option<Seq<u8>>,
)
    requires
        m.completes_request(link_id, resource_id),
    ensures
        m.inbound_completed(link_id, resource_id, data, metadata).notices == m.notices.emitted(
            EventModel::Concluded {
                link_id,
                resource_id,
                direction: LinkResourceDirection::Inbound,
                conclusion: ConclusionModel::Complete,
            },
        ),
        m.inbound_completed(link_id, resource_id, data, metadata).notices.resource_completion
            == m.notices.resource_completion,
        m.inbound_completed(link_id, resource_id, data, metadata).notices.resource_completed
            == m.notices.resource_completed,
{
}

/// Progress is never on the accounting stream.
pub proof fn progress_is_not_accounted(n: NoticesModel, event: EventModel)
    requires
        event is Progress,
    ensures
        n.emitted(event).accounting == n.accounting,
{
}

proof fn lemma_started(m: LinkManagerModel, link_id: [u8; 16], adv: ResourceAdvertisement)
    ensures
        keeps_ledger(m, m.lifecycle_started(link_id, adv)),
{
    let key = key_of(link_id, adv.resource_id());
    let after = m.lifecycle_started(link_id, adv);
    if !present(m.resources.lifecycles, key) && listening(m.notices) {
        let event = EventModel::Started {
            link_id,
            resource_id: adv.resource_id(),
            direction: LinkResourceDirection::Inbound,
            data_size: adv.data_size,
            total_segments: adv.total_segments,
        };
        lemma_emitted(m.notices, event);
        let lifecycle = crate::resources::InboundResourceLifecycle {
            data_size: adv.data_size,
            total_segments: adv.total_segments,
            current_segment: None,
            is_request: adv.requests(),
            is_response: adv.responds(),
            request_id: adv.request_id,
            inter_segment_deadline: None,
        };
        assert forall|k: ResourceKey| #[trigger] ledger(after, k) == ledger(m, k) by {
            lemma_find_put(m.resources.lifecycles, key, lifecycle, k);
            assert(after.resources.lifecycles == put(m.resources.lifecycles, key, lifecycle));
            assert(balance(m.notices.emitted(event).accounting->0.sent, k) == balance(
                m.notices.accounting->0.sent,
                k,
            ) + weight(AccountingModel::ResourceEvent(event), k));
        }
    }
}

/// Changing what is known of a Resource does not change whether its end is owed.
proof fn lemma_same_presence(a: LinkManagerModel, b: LinkManagerModel)
    requires
        a.notices.accounting == b.notices.accounting,
        forall|k: ResourceKey| #[trigger]
            present(b.resources.lifecycles, k) == present(a.resources.lifecycles, k),
    ensures
        keeps_ledger(a, b),
{
    if listening(a.notices) {
        assert forall|k: ResourceKey| #[trigger] ledger(b, k) == ledger(a, k) by {
            assert(present(b.resources.lifecycles, k) == present(a.resources.lifecycles, k));
        }
    }
}

proof fn lemma_installed(m: LinkManagerModel, link_id: [u8; 16], adv: ResourceAdvertisement)
    ensures
        keeps_ledger(m, m.segment_installed(link_id, adv)),
{
    let key = key_of(link_id, adv.resource_id());
    let after = m.segment_installed(link_id, adv);
    assert forall|k: ResourceKey| #[trigger]
        present(after.resources.lifecycles, k) == present(m.resources.lifecycles, k) by {
        match find(m.resources.lifecycles, key) {
            Some(lifecycle) => {
                let updated = crate::resources::InboundResourceLifecycle {
                    current_segment: Some(adv.resource_hash),
                    inter_segment_deadline: None,
                    ..lifecycle
                };
                lemma_find_put(m.resources.lifecycles, key, updated, k);
            },
            None => {},
        }
    }
    lemma_same_presence(m, after);
}

/// Whatever becomes of an offer, the ledger is kept.
pub proof fn advertisement_keeps_ledger(
    m: LinkManagerModel,
    link_id: [u8; 16],
    adv: ResourceAdvertisement,
    transfer: Result<ActionModel, Seq<char>>,
    accepted: bool,
)
    ensures
        keeps_ledger(m, m.advertised(link_id, adv, transfer, accepted)),
{
    let id = adv.resource_id();
    match m.advertisement_verdict(link_id, adv) {
        AdvertisementVerdict::Ignore => {},
        AdvertisementVerdict::Reject { resource_id, reason } => {
            lemma_rejected(m, link_id, resource_id, adv.resource_hash, reason);
        },
        AdvertisementVerdict::Transfer { .. } => match transfer {
            Err(error) => {
                lemma_rejected(m, link_id, id, adv.resource_hash, error);
            },
            Ok(request) => {
                if m.application_accepts(adv, accepted) {
                    let s = m.lifecycle_started(link_id, adv);
                    lemma_started(m, link_id, adv);
                    lemma_action(s, link_id, request);
                    let t = s.action_sent(link_id, request);
                    lemma_same(s, t);
                    lemma_chain(m, s, t);
                    lemma_installed(t, link_id, adv);
                    inbound_end_is_accounted(
                        t,
                        link_id,
                        id,
                        ConclusionModel::Failed("could not request initial Resource parts"@),
                    );
                    lemma_chain(m, t, m.advertised(link_id, adv, transfer, accepted));
                } else {
                    let action = TransferAction::SendCancel(CancelType::Rcl, adv.resource_hash);
                    let s = m.action_sent(link_id, action);
                    lemma_action(m, link_id, action);
                    lemma_same(m, s);
                    inbound_end_is_accounted(s, link_id, id, ConclusionModel::Rejected);
                    lemma_chain(m, s, s.inbound_concluded(link_id, id, ConclusionModel::Rejected));
                }
            },
        },
    }
}

proof fn lemma_rejected(
    m: LinkManagerModel,
    link_id: [u8; 16],
    resource_id: [u8; 32],
    segment: [u8; 32],
    reason: Seq<char>,
)
    ensures
        keeps_ledger(m, m.advertisement_rejected(link_id, resource_id, segment, reason)),
{
    let action = TransferAction::SendCancel(CancelType::Rcl, segment);
    let s = if present(m.resources.lifecycles, key_of(link_id, resource_id)) {
        m.action_sent(link_id, action)
    } else {
        m
    };
    lemma_action(m, link_id, action);
    lemma_same(m, s);
    inbound_end_is_accounted(s, link_id, resource_id, ConclusionModel::Failed(reason));
    lemma_chain(
        m,
        s,
        s.inbound_concluded(link_id, resource_id, ConclusionModel::Failed(reason)),
    );
}

proof fn lemma_failed_each(
    m: LinkManagerModel,
    link_id: [u8; 16],
    ids: Seq<[u8; 32]>,
    failure: Seq<char>,
)
    ensures
        keeps_ledger(m, m.inbound_failed_each(link_id, ids, failure)),
    decreases ids.len(),
{
    if ids.len() > 0 {
        lemma_failed_each(m, link_id, ids.drop_last(), failure);
        let s = m.inbound_failed_each(link_id, ids.drop_last(), failure);
        inbound_end_is_accounted(s, link_id, ids.last(), ConclusionModel::Failed(failure));
        lemma_chain(m, s, m.inbound_failed_each(link_id, ids, failure));
    }
}

proof fn lemma_outbound(
    m: LinkManagerModel,
    link_id: [u8; 16],
    resource_id: [u8; 32],
    conclusion: ConclusionModel,
)
    ensures
        keeps_ledger(m, m.outbound_concluded(link_id, resource_id, conclusion)),
{
    let event = EventModel::Concluded {
        link_id,
        resource_id,
        direction: LinkResourceDirection::Outbound,
        conclusion,
    };
    let after = m.outbound_concluded(link_id, resource_id, conclusion);
    if listening(m.notices) {
        lemma_emitted(m.notices, event);
        assert forall|k: ResourceKey| #[trigger] ledger(after, k) == ledger(m, k) by {
            assert(balance(m.notices.emitted(event).accounting->0.sent, k) == balance(
                m.notices.accounting->0.sent,
                k,
            ) + weight(AccountingModel::ResourceEvent(event), k));
        }
    }
}

proof fn lemma_outbound_each(
    m: LinkManagerModel,
    link_id: [u8; 16],
    ids: Seq<[u8; 32]>,
    failure: Seq<char>,
)
    ensures
        keeps_ledger(m, m.outbound_failed_each(link_id, ids, failure)),
    decreases ids.len(),
{
    if ids.len() > 0 {
        lemma_outbound_each(m, link_id, ids.drop_last(), failure);
        let s = m.outbound_failed_each(link_id, ids.drop_last(), failure);
        lemma_outbound(s, link_id, ids.last(), ConclusionModel::Failed(failure));
        lemma_chain(m, s, m.outbound_failed_each(link_id, ids, failure));
    }
}

/// Closing a Link keeps the ledger.
pub proof fn link_close_keeps_ledger(
    m: LinkManagerModel,
    link_id: [u8; 16],
    reason: CloseReason,
    send_teardown: bool,
    teardown: Option<Seq<u8>>,
    endpoint_closing: bool,
)
    ensures
        keeps_ledger(
            m,
            m.link_closed(link_id, reason, send_teardown, teardown, endpoint_closing),
        ),
{
    if present(m.links, link_id) {
        let start = m.link_detached(link_id, reason, send_teardown, teardown, endpoint_closing);
        let inbound = lifecycle_ids(m.resources.lifecycles, link_id);
        let outbound = outbound_ids(m.resources.outbound, link_id);
        let failure = crate::text::close_failure(reason);
        let entry = AccountingModel::LinkClosed { link_id };
        lemma_staged(m.notices.accounted(entry), LegacyTerminalNotification::LinkClosed(link_id));
        if listening(m.notices) {
            lemma_accounted(m.notices, entry);
            assert forall|k: ResourceKey| #[trigger] ledger(start, k) == ledger(m, k) by {
                assert(balance(m.notices.accounted(entry).accounting->0.sent, k) == balance(
                    m.notices.accounting->0.sent,
                    k,
                ) + weight(entry, k));
            }
        }
        assert(keeps_ledger(m, start));
        lemma_failed_each(start, link_id, inbound, failure);
        let middle = start.inbound_failed_each(link_id, inbound, failure);
        lemma_chain(m, start, middle);
        lemma_outbound_each(middle, link_id, outbound, failure);
        lemma_chain(m, middle, middle.outbound_failed_each(link_id, outbound, failure));
    }
}

proof fn lemma_dropped(m: LinkManagerModel, link_id: [u8; 16], reason: CloseReason)
    ensures
        keeps_ledger(m, m.link_dropped(link_id, reason)),
{
    link_close_keeps_ledger(m, link_id, reason, false, None, false);
}

/// A complete segment keeps the ledger, whatever it completes.
pub proof fn segment_completion_keeps_ledger(
    m: LinkManagerModel,
    link_id: [u8; 16],
    segment: [u8; 32],
    result: Result<CompletedSegment<Seq<u8>, Seq<char>>, Seq<char>>,
    deadline: u64,
)
    ensures
        keeps_ledger(m, m.segment_completed(link_id, segment, result, deadline)),
{
    let id = logical_id(m.resources.routes, key_of(link_id, segment));
    if present(m.resources.inbound, key_of(link_id, segment)) {
        match result {
            Ok(done) => {
                let action = TransferAction::SendProof(done.proof);
                let s = m.action_sent(link_id, action);
                lemma_action(m, link_id, action);
                lemma_same(m, s);
                if m.action_retained(link_id, action) {
                    lemma_delivered(s, link_id, segment, done.assembly, deadline);
                    lemma_chain(m, s, s.segment_delivered(link_id, segment, done.assembly, deadline));
                } else {
                    let failure = ConclusionModel::Failed("could not send Resource proof"@);
                    inbound_end_is_accounted(s, link_id, id, failure);
                    lemma_chain(m, s, s.inbound_concluded(link_id, id, failure));
                }
            },
            Err(error) => {
                let action = TransferAction::SendCancel(CancelType::Rcl, segment);
                let s = m.action_sent(link_id, action);
                lemma_action(m, link_id, action);
                lemma_same(m, s);
                inbound_end_is_accounted(s, link_id, id, ConclusionModel::Failed(error));
                lemma_chain(m, s, s.inbound_concluded(link_id, id, ConclusionModel::Failed(error)));
            },
        }
    }
}

proof fn lemma_stored(
    m: LinkManagerModel,
    link_id: [u8; 16],
    segment: [u8; 32],
    route: SegmentRoute,
    assembled_count: usize,
    deadline: u64,
)
    ensures
        keeps_ledger(m, m.segment_stored(link_id, segment, route, assembled_count, deadline)),
{
    let key = key_of(link_id, route.original_hash);
    let after = m.segment_stored(link_id, segment, route, assembled_count, deadline);
    assert forall|k: ResourceKey| #[trigger]
        present(after.resources.lifecycles, k) == present(m.resources.lifecycles, k) by {
        match find(m.resources.lifecycles, key) {
            Some(lifecycle) => {
                let updated = crate::resources::InboundResourceLifecycle {
                    current_segment: None,
                    inter_segment_deadline: Some(deadline),
                    ..lifecycle
                };
                lemma_find_put(m.resources.lifecycles, key, updated, k);
            },
            None => {},
        }
    }
    lemma_same_presence(m, after);
}

proof fn lemma_delivered(
    m: LinkManagerModel,
    link_id: [u8; 16],
    segment: [u8; 32],
    assembly: Assembly<Seq<u8>, Seq<char>>,
    deadline: u64,
)
    ensures
        keeps_ledger(m, m.segment_delivered(link_id, segment, assembly, deadline)),
{
    match find(m.resources.routes, key_of(link_id, segment)) {
        Some(route) => {
            let id = route.original_hash;
            inbound_end_is_accounted(
                m,
                link_id,
                id,
                ConclusionModel::Failed("split-resource coordinator is missing"@),
            );
            match assembly {
                Assembly::Whole { data, metadata } => {
                    inbound_completion_is_accounted(m, link_id, id, data, metadata);
                },
                Assembly::Partial { assembled_count } => {
                    lemma_stored(m, link_id, segment, route, assembled_count, deadline);
                },
                Assembly::Broken(error) => {
                    inbound_end_is_accounted(m, link_id, id, ConclusionModel::Failed(error));
                },
            }
        },
        None => {
            if let Assembly::Whole { data, metadata } = assembly {
                inbound_completion_is_accounted(m, link_id, segment, data, metadata);
            }
        },
    }
}

proof fn lemma_actions(m: LinkManagerModel, link_id: [u8; 16], actions: Seq<ActionModel>)
    ensures
        same_books(m, m.actions_sent(link_id, actions)),
    decreases actions.len(),
{
    if actions.len() > 0 {
        lemma_actions(m.action_sent(link_id, actions[0]), link_id, actions.skip(1));
    }
}

proof fn lemma_outbound_ended(
    m: LinkManagerModel,
    link_id: [u8; 16],
    segment: [u8; 32],
    conclusion: ConclusionModel,
)
    ensures
        keeps_ledger(m, m.outbound_ended(link_id, segment, conclusion)),
{
    if let Some(transfer) = find(m.resources.outbound, key_of(link_id, segment)) {
        let s = LinkManagerModel {
            resources: m.resources.outbound_removed(link_id, segment),
            ..m
        };
        lemma_same(m, s);
        lemma_outbound(s, link_id, transfer.logical_id(), conclusion);
        lemma_chain(m, s, s.outbound_concluded(link_id, transfer.logical_id(), conclusion));
    }
}

proof fn lemma_segment_proved(
    m: LinkManagerModel,
    link_id: [u8; 16],
    segment: [u8; 32],
    next_action: ActionModel,
)
    ensures
        keeps_ledger(m, m.segment_proved(link_id, segment, next_action)),
{
    if let Some(transfer) = find(m.resources.outbound, key_of(link_id, segment)) {
        let id = match transfer.original_hash {
            Some(hash) => hash,
            None => segment,
        };
        let s = LinkManagerModel {
            resources: ResourcesModel {
                outbound: cut(m.resources.outbound, key_of(link_id, segment)),
                ..m.resources
            },
            ..m
        };
        match m.following_segment(link_id, segment) {
            None => {
                let fact = LegacyTerminalNotification::ResourceProof(
                    crate::events::LinkResourceProof { link_id, resource_hash: id },
                );
                let t = LinkManagerModel { notices: s.notices.legacy_staged(fact), ..s };
                lemma_staged(s.notices, fact);
                lemma_same(m, t);
                lemma_outbound(t, link_id, id, ConclusionModel::Complete);
                lemma_chain(m, t, t.outbound_concluded(link_id, id, ConclusionModel::Complete));
            },
            Some(next) => {
                let q = LinkManagerModel {
                    resources: ResourcesModel {
                        queued: crate::resources::cut_first(
                            s.resources.queued,
                            key_of(link_id, id),
                        ),
                        ..s.resources
                    },
                    ..s
                };
                let started = q.segment_started(link_id, next, next_action);
                lemma_same(m, started);
                if !q.segment_starts(link_id, next_action) {
                    let t = LinkManagerModel {
                        resources: ResourcesModel {
                            queued: cut(started.resources.queued, key_of(link_id, id)),
                            ..started.resources
                        },
                        ..started
                    };
                    let failure = ConclusionModel::Failed(
                        "could not retain next Resource segment advertisement"@,
                    );
                    lemma_same(m, t);
                    lemma_outbound(t, link_id, id, failure);
                    lemma_chain(m, t, t.outbound_concluded(link_id, id, failure));
                }
            },
        }
    }
}

proof fn lemma_resource_started(
    m: LinkManagerModel,
    link_id: [u8; 16],
    allow_handshake: bool,
    data_len: nat,
    metadata_len: Option<nat>,
    built: BuiltResource,
)
    ensures
        keeps_ledger(
            m,
            m.resource_started(link_id, allow_handshake, data_len, metadata_len, built),
        ),
{
    let segments = built.segments@;
    let first_action = built.first_action@;
    if m.carries_resources(link_id, allow_handshake) && m.cut_as_planned(
        data_len,
        metadata_len,
        segments,
    ) {
        let s = m.segment_started(link_id, segments[0], first_action);
        let id = segments[0].logical_id();
        lemma_same(m, s);
        if m.segment_starts(link_id, first_action) && listening(m.notices) {
            let event = EventModel::Started {
                link_id,
                resource_id: id,
                direction: LinkResourceDirection::Outbound,
                data_size: data_len as usize,
                total_segments: segments.len() as usize,
            };
            let after = m.resource_started(
                link_id,
                allow_handshake,
                data_len,
                metadata_len,
                built,
            );
            lemma_emitted(s.notices, event);
            assert forall|k: ResourceKey| #[trigger] ledger(after, k) == ledger(m, k) by {
                assert(balance(s.notices.emitted(event).accounting->0.sent, k) == balance(
                    s.notices.accounting->0.sent,
                    k,
                ) + weight(AccountingModel::ResourceEvent(event), k));
            }
        }
    }
}

proof fn lemma_cancelled(
    m: LinkManagerModel,
    link_id: [u8; 16],
    id: [u8; 32],
    direction: LinkResourceDirection,
)
    ensures
        keeps_ledger(m, m.resource_cancelled(link_id, id, direction)),
{
    if let Some((segment, logical)) = m.cancellation(link_id, id, direction) {
        let cancel_type = if direction is Outbound {
            CancelType::Icl
        } else {
            CancelType::Rcl
        };
        let s = match segment {
            Some(hash) => m.action_sent(link_id, TransferAction::SendCancel(cancel_type, hash)),
            None => m,
        };
        lemma_same(m, s);
        if direction is Outbound {
            let t = LinkManagerModel {
                resources: ResourcesModel {
                    outbound: cut(s.resources.outbound, key_of(link_id, segment->0)),
                    queued: cut(s.resources.queued, key_of(link_id, logical)),
                    ..s.resources
                },
                ..s
            };
            lemma_same(m, t);
            lemma_outbound(t, link_id, logical, ConclusionModel::Cancelled);
            lemma_chain(m, t, t.outbound_concluded(link_id, logical, ConclusionModel::Cancelled));
        } else {
            inbound_end_is_accounted(s, link_id, logical, ConclusionModel::Cancelled);
            lemma_chain(m, s, s.inbound_concluded(link_id, logical, ConclusionModel::Cancelled));
        }
    }
}

proof fn lemma_hashmap(
    m: LinkManagerModel,
    link_id: [u8; 16],
    segment: [u8; 32],
    action: ActionModel,
)
    ensures
        keeps_ledger(m, m.hashmap_updated(link_id, segment, action)),
{
    let id = logical_id(m.resources.routes, key_of(link_id, segment));
    let failure = ConclusionModel::Failed("sender returned an invalid Resource hashmap update"@);
    let s = m.action_sent(link_id, action);
    lemma_same(m, s);
    inbound_end_is_accounted(s, link_id, id, failure);
    lemma_chain(m, s, s.inbound_concluded(link_id, id, failure));
}

proof fn lemma_identification(
    m: LinkManagerModel,
    link_id: [u8; 16],
    identity: Option<[u8; 16]>,
    gate_accepts: bool,
    teardown: Option<Seq<u8>>,
)
    ensures
        keeps_ledger(m, m.identification_received(link_id, identity, gate_accepts, teardown)),
{
    if let Some(hash) = identity {
        let s = m.peer_identified(link_id, hash);
        lemma_same(m, s);
        link_close_keeps_ledger(
            s,
            link_id,
            CloseReason::InitiatorClosed,
            true,
            teardown,
            false,
        );
        lemma_chain(
            m,
            s,
            s.link_closed(link_id, CloseReason::InitiatorClosed, true, teardown, false),
        );
    }
}

proof fn lemma_packet_proof(
    m: LinkManagerModel,
    link_id: [u8; 16],
    data: Seq<u8>,
    valid: bool,
    matches_channel: bool,
)
    ensures
        keeps_ledger(m, m.packet_proof_received(link_id, data, valid, matches_channel)),
{
    let p = LinkPacketProof { link_id, packet_hash: hash_at(data, 0) };
    let entry = AccountingModel::LinkPacketProof(p);
    let after = m.packet_proof_received(link_id, data, valid, matches_channel);
    lemma_staged(m.notices.accounted(entry), LegacyTerminalNotification::PacketProof(p));
    if listening(m.notices) {
        lemma_accounted(m.notices, entry);
        assert forall|k: ResourceKey| #[trigger] ledger(after, k) == ledger(m, k) by {
            assert(balance(m.notices.accounted(entry).accounting->0.sent, k) == balance(
                m.notices.accounting->0.sent,
                k,
            ) + weight(entry, k));
        }
    }
}

/// Whatever packet arrives on whatever interface, the ledger is kept.
pub proof fn inbound_packet_keeps_ledger(
    m: LinkManagerModel,
    header: PacketHeader,
    interface_id: u64,
    input: PacketInput,
)
    ensures
        keeps_ledger(m, m.packet_handled(header, interface_id, input)),
{
    let link_id = header.destination_hash;
    let after = m.packet_handled(header, interface_id, input);
    match input {
        PacketInput::PacketProof { data, valid, matches_channel } => {
            lemma_packet_proof(m, link_id, data@, valid, matches_channel);
        },
        PacketInput::Lrrtt { accepted } => {
            lemma_same(m, m.link_activated(link_id, header.hops, accepted));
        },
        PacketInput::Identify { identity, gate_accepts, teardown } => {
            lemma_identification(m, link_id, identity, gate_accepts, bytes_model(teardown));
        },
        PacketInput::Keepalive { data, respond } => {
            lemma_same(m, m.keepalive_received(link_id, data@, respond));
        },
        PacketInput::Close { verified } => {
            lemma_dropped(m, link_id, CloseReason::DestinationClosed);
        },
        PacketInput::Channel { proof, registered } => {
            lemma_same(m, after);
        },
        PacketInput::Advertisement(offer) => match offer {
            OfferInput::Sealed => {},
            OfferInput::Malformed { teardown } => {
                link_close_keeps_ledger(
                    m,
                    link_id,
                    CloseReason::DestinationClosed,
                    true,
                    bytes_model(teardown),
                    false,
                );
            },
            OfferInput::Offer { adv, transfer, accepted } => {
                advertisement_keeps_ledger(
                    m,
                    link_id,
                    adv,
                    crate::inbound::transfer_model(transfer),
                    accepted,
                );
            },
        },
        PacketInput::Part { scan, transferred } => {
            lemma_same(m, after);
        },
        PacketInput::PartsRequest { plaintext, actions, progress } => {
            lemma_actions(m, link_id, crate::sending::action_models(actions@));
            lemma_same(m, after);
        },
        PacketInput::SenderCancel { plaintext } => {
            if let Some(p) = plaintext {
                if let Some(id) = m.cancelled_inbound(link_id, hash_at(p@, 0)) {
                    inbound_end_is_accounted(m, link_id, id, ConclusionModel::Cancelled);
                }
            }
        },
        PacketInput::ReceiverCancel { plaintext } => {
            if let Some(p) = plaintext {
                lemma_outbound_ended(m, link_id, hash_at(p@, 0), ConclusionModel::Rejected);
            }
        },
        PacketInput::HashmapUpdate { update } => {
            if let Some((segment, action)) = update {
                lemma_hashmap(m, link_id, segment, action@);
            }
        },
        PacketInput::ResourceProof { data, complete, next_action } => {
            lemma_segment_proved(m, link_id, hash_at(data@, 0), next_action@);
        },
        PacketInput::Request { parsed } => {},
        PacketInput::Response { response } => {
            lemma_same(m, after);
        },
        PacketInput::Data { plaintext, proof } => {
            lemma_same(m, after);
        },
    }
}

/// Whatever command is carried out, the ledger is kept.
pub proof fn command_keeps_ledger(m: LinkManagerModel, command: LinkManagerCommand)
    ensures
        keeps_ledger(m, m.commanded(command)),
{
    let after = m.commanded(command);
    match command {
        LinkManagerCommand::SendLinkResource { link_id, payload, built } => {
            lemma_resource_started(m, link_id, false, payload@.len(), None, built);
        },
        LinkManagerCommand::SendLinkPayload { link_id, payload, sealed, built } => {
            lemma_resource_started(
                m,
                link_id,
                false,
                (payload@.len() as usize) as nat,
                None,
                built,
            );
        },
        LinkManagerCommand::CancelLinkResource { link_id, resource_id, direction } => {
            lemma_cancelled(m, link_id, resource_id, direction);
        },
        LinkManagerCommand::CloseLink { link_id, reason, send_teardown, teardown } => {
            link_close_keeps_ledger(
                m,
                link_id,
                reason,
                send_teardown,
                bytes_model(teardown),
                false,
            );
        },
        _ => {
            lemma_same(m, after);
        },
    }
}

/// Whatever the transport reports, the ledger is kept.
pub proof fn event_keeps_ledger(m: LinkManagerModel, event: DestinationEvent)
    ensures
        keeps_ledger(m, m.notified(event)),
{
    let after = m.notified(event);
    match event {
        DestinationEvent::InboundPacket { header, interface_id, input } => {
            inbound_packet_keeps_ledger(m, header, interface_id, input);
        },
        DestinationEvent::LinkClosed { link_id, teardown } => {
            link_close_keeps_ledger(
                m,
                link_id,
                CloseReason::InitiatorClosed,
                true,
                bytes_model(teardown),
                false,
            );
        },
        _ => {
            lemma_same(m, after);
        },
    }
}

proof fn lemma_bind(
    m: LinkManagerModel,
    link_id: [u8; 16],
    result: Option<LinkEndpointBindResult>,
)
    ensures
        keeps_ledger(m, m.bind_settled(link_id, result)),
{
    let s = LinkManagerModel {
        transport: TransportModel { binds: cut(m.transport.binds, link_id), ..m.transport },
        ..m
    };
    lemma_same(m, s);
    lemma_dropped(s, link_id, CloseReason::DestinationClosed);
    lemma_chain(m, s, s.link_dropped(link_id, CloseReason::DestinationClosed));
    if result == Some(LinkEndpointBindResult::Bound) {
        lemma_same(m, m.bind_settled(link_id, result));
    }
}

proof fn lemma_binds(
    m: LinkManagerModel,
    outcomes: Seq<([u8; 16], Option<LinkEndpointBindResult>)>,
)
    ensures
        keeps_ledger(m, m.binds_settled(outcomes)),
    decreases outcomes.len(),
{
    if outcomes.len() > 0 {
        lemma_binds(m, outcomes.drop_last());
        let s = m.binds_settled(outcomes.drop_last());
        lemma_bind(s, outcomes.last().0, outcomes.last().1);
        lemma_chain(m, s, m.binds_settled(outcomes));
    }
}

proof fn lemma_finals(m: LinkManagerModel, sends: Seq<AcceptedFinalSend>)
    ensures
        same_books(m, m.final_sends_accepted(sends)),
    decreases sends.len(),
{
    if sends.len() > 0 {
        lemma_finals(m, sends.drop_last());
    }
}

proof fn lemma_failures(m: LinkManagerModel, failed: Seq<FailedSend>)
    ensures
        keeps_ledger(m, m.sends_failed(failed)),
    decreases failed.len(),
{
    if failed.len() > 0 {
        lemma_failures(m, failed.drop_last());
        let s = m.sends_failed(failed.drop_last());
        if failed.last().final_unbind {
            lemma_same(s, s.send_failed(failed.last()));
        } else {
            lemma_dropped(s, failed.last().link_id, CloseReason::DestinationClosed);
        }
        lemma_chain(m, s, m.sends_failed(failed));
    }
}

proof fn lemma_finalizing(m: LinkManagerModel, released: Seq<ReleasedEndpoint>)
    ensures
        same_books(m, m.endpoints_finalizing(released)),
    decreases released.len(),
{
    if released.len() > 0 {
        lemma_finalizing(m, released.drop_last());
    }
}

proof fn lemma_ended(m: LinkManagerModel, event: LinkEndpointLifecycleEvent)
    ensures
        keeps_ledger(m, m.endpoint_ended(event)),
{
    let s = m.end_seen(event.binding);
    lemma_same(m, s);
    lemma_dropped(s, event.binding.link_id, CloseReason::DestinationClosed);
    let dropped = s.link_dropped(event.binding.link_id, CloseReason::DestinationClosed);
    lemma_chain(m, s, dropped);
    let after = m.endpoint_ended(event);
    if after != dropped {
        lemma_same(m, after);
    }
}

proof fn lemma_all_ended(m: LinkManagerModel, events: Seq<LinkEndpointLifecycleEvent>)
    ensures
        keeps_ledger(m, m.endpoints_ended(events)),
    decreases events.len(),
{
    if events.len() > 0 {
        lemma_all_ended(m, events.drop_last());
        let s = m.endpoints_ended(events.drop_last());
        lemma_ended(s, events.last());
        lemma_chain(m, s, m.endpoints_ended(events));
    }
}

/// Whatever the transport has answered about endpoints, the ledger is kept.
pub proof fn endpoint_poll_keeps_ledger(m: LinkManagerModel)
    ensures
        keeps_ledger(m, m.endpoints_polled()),
{
    let t1 = m.with_transport(m.transport.binds_polled());
    let s1 = m.polled_binds();
    lemma_same(m, t1);
    lemma_binds(t1, bind_outcomes(m.transport.binds, m.transport.replies.bind));
    lemma_chain(m, t1, s1);
    let t2 = s1.with_transport(s1.transport.sends_polled());
    let accepted = accepted_final_sends(s1.transport.sends, s1.transport.replies.send);
    let failed = failed_sends(s1.transport.sends, s1.transport.replies.send);
    lemma_finals(t2, accepted);
    let u2 = t2.final_sends_accepted(accepted);
    lemma_same(s1, u2);
    lemma_failures(u2, failed);
    let s2 = s1.polled_sends();
    lemma_chain(m, s1, u2);
    lemma_chain(m, u2, s2);
    let t3 = s2.with_transport(s2.transport.cleanups_polled());
    lemma_finalizing(
        t3,
        released_endpoints(s2.transport.cleanups, s2.transport.replies.unbind),
    );
    let s3 = s2.polled_cleanups();
    let s4 = s3.with_transport(s3.transport.finalizations_polled());
    let t5 = s4.with_transport(TransportModel { lifecycle: Seq::empty(), ..s4.transport });
    lemma_same(s2, t5);
    lemma_chain(m, s2, t5);
    lemma_all_ended(t5, s4.transport.lifecycle);
    let s5 = s4.drained_lifecycle();
    lemma_chain(m, t5, s5);
    let s6 = s5.with_transport(s5.transport.tombstones_retired());
    lemma_same(s5, s6);
    lemma_chain(m, s5, s6);
}

/// Attending to the transport keeps the ledger.
pub proof fn attending_keeps_ledger(m: LinkManagerModel)
    ensures
        keeps_ledger(m, m.attended()),
{
    endpoint_poll_keeps_ledger(m);
    let s = m.endpoints_polled();
    lemma_legacy_flush_keeps_stream(s.notices);
    lemma_same(s, m.attended());
    lemma_chain(m, s, m.attended());
}

proof fn lemma_timeouts(m: LinkManagerModel, link_id: [u8; 16], timeouts: Seq<ChannelTimeout>)
    ensures
        same_books(m, m.channel_timeouts(link_id, timeouts)),
    decreases timeouts.len(),
{
    if timeouts.len() > 0 {
        lemma_timeouts(m, link_id, timeouts.drop_last());
    }
}

proof fn lemma_inbound_watchdogs(
    m: LinkManagerModel,
    link_id: [u8; 16],
    watchdogs: Seq<WatchdogAction>,
)
    ensures
        keeps_ledger(m, m.inbound_watchdogs(link_id, watchdogs)),
    decreases watchdogs.len(),
{
    if watchdogs.len() > 0 {
        lemma_inbound_watchdogs(m, link_id, watchdogs.drop_last());
        let s = m.inbound_watchdogs(link_id, watchdogs.drop_last());
        let w = watchdogs.last();
        match w.action@ {
            TransferAction::Failed(reason) => {
                inbound_end_is_accounted(
                    s,
                    link_id,
                    logical_id(s.resources.routes, key_of(link_id, w.segment)),
                    ConclusionModel::Failed(reason),
                );
            },
            action => {
                lemma_same(s, s.action_sent(link_id, action));
            },
        }
        lemma_chain(m, s, m.inbound_watchdogs(link_id, watchdogs));
    }
}

proof fn lemma_outbound_watchdogs(
    m: LinkManagerModel,
    link_id: [u8; 16],
    watchdogs: Seq<WatchdogAction>,
)
    ensures
        keeps_ledger(m, m.outbound_watchdogs(link_id, watchdogs)),
    decreases watchdogs.len(),
{
    if watchdogs.len() > 0 {
        lemma_outbound_watchdogs(m, link_id, watchdogs.drop_last());
        let s = m.outbound_watchdogs(link_id, watchdogs.drop_last());
        let w = watchdogs.last();
        match w.action@ {
            TransferAction::Failed(reason) => {
                lemma_outbound_ended(s, link_id, w.segment, ConclusionModel::Failed(reason));
            },
            action => {
                lemma_same(s, s.action_sent(link_id, action));
            },
        }
        lemma_chain(m, s, m.outbound_watchdogs(link_id, watchdogs));
    }
}

/// Whatever time brings to the traffic of a Link, the ledger is kept.
pub proof fn traffic_tick_keeps_ledger(
    m: LinkManagerModel,
    link_id: [u8; 16],
    now: u64,
    channel: Seq<ChannelTimeout>,
    inbound: Seq<WatchdogAction>,
    outbound: Seq<WatchdogAction>,
)
    ensures
        keeps_ledger(m, m.link_traffic_ticked(link_id, now, channel, inbound, outbound)),
{
    let s1 = m.channel_timeouts(link_id, channel);
    lemma_timeouts(m, link_id, channel);
    lemma_same(m, s1);
    let s2 = s1.inbound_watchdogs(link_id, inbound);
    lemma_inbound_watchdogs(s1, link_id, inbound);
    lemma_chain(m, s1, s2);
    let s3 = s2.overdue_failed(link_id, now);
    lemma_failed_each(
        s2,
        link_id,
        overdue_ids(s2.resources.lifecycles, link_id, now),
        "timed out waiting for the next Resource segment"@,
    );
    lemma_chain(m, s2, s3);
    lemma_outbound_watchdogs(s3, link_id, outbound);
    lemma_chain(m, s3, s3.outbound_watchdogs(link_id, outbound));
}

/// The Links that a tick closes keep the ledger.
pub proof fn tick_removals_keep_ledger(m: LinkManagerModel, removals: Seq<LinkRemoval>)
    ensures
        keeps_ledger(m, m.links_removed(removals)),
    decreases removals.len(),
{
    if removals.len() > 0 {
        tick_removals_keep_ledger(m, removals.drop_last());
        let s = m.links_removed(removals.drop_last());
        let r = removals.last();
        link_close_keeps_ledger(
            s,
            r.link_id,
            CloseReason::Timeout,
            false,
            None,
            r.endpoint_closing,
        );
        lemma_chain(m, s, m.links_removed(removals));
    }
}

/// What a Link's timers ask for keeps the ledger.
pub proof fn timer_tick_keeps_ledger(m: LinkManagerModel, link_id: [u8; 16], action: LinkAction)
    ensures
        keeps_ledger(m, m.link_timer_ticked(link_id, action)),
{
    lemma_same(m, m.link_timer_ticked(link_id, action));
}

/// Answering a request keeps the ledger.
pub proof fn answer_keeps_ledger(
    m: LinkManagerModel,
    link_id: [u8; 16],
    packed: Option<Seq<u8>>,
    response: BuiltResource,
    file: Option<(ResourceTransferStart, BuiltResource)>,
    follow_up: Option<(ResourceTransferStart, BuiltResource)>,
)
    ensures
        keeps_ledger(m, m.request_answered(link_id, packed, response, file, follow_up)),
{
    let s = match packed {
        Some(p) => m.response_sent(link_id, p, response),
        None => m,
    };
    if let Some(p) = packed {
        lemma_resource_started(m, link_id, false, p.len(), None, response);
        if p.len() <= m.response_limit(link_id) {
            lemma_same(m, s);
        }
    }
    let t = s.reply_resource_sent(link_id, file);
    if let Some((start, built)) = file {
        lemma_resource_started(
            s,
            link_id,
            start.allow_handshake,
            start.data@.len(),
            optional_len(start.metadata),
            built,
        );
    }
    lemma_chain(m, s, t);
    let u = t.reply_resource_sent(link_id, follow_up);
    if let Some((start, built)) = follow_up {
        lemma_resource_started(
            t,
            link_id,
            start.allow_handshake,
            start.data@.len(),
            optional_len(start.metadata),
            built,
        );
    }
    lemma_chain(m, t, u);
}

/// What became of realtime data keeps the ledger.
pub proof fn realtime_data_keeps_ledger(
    m: LinkManagerModel,
    link_id: [u8; 16],
    len: usize,
    result: Option<LinkEndpointSendResult>,
)
    ensures
        keeps_ledger(m, m.best_effort_sent(link_id, len, result)),
{
    lemma_dropped(m, link_id, CloseReason::DestinationClosed);
    if !(result matches Some(outcome) && (outcome is NotBound || outcome is RoleMismatch
        || outcome is Terminated)) {
        lemma_same(m, m.best_effort_sent(link_id, len, result));
    }
}

/// Dropping Links keeps the ledger.
pub proof fn dropping_keeps_ledger(m: LinkManagerModel, ids: Seq<[u8; 16]>, reason: CloseReason)
    ensures
        keeps_ledger(m, m.links_dropped(ids, reason)),
    decreases ids.len(),
{
    if ids.len() > 0 {
        dropping_keeps_ledger(m, ids.drop_last(), reason);
        let s = m.links_dropped(ids.drop_last(), reason);
        lemma_dropped(s, ids.last(), reason);
        lemma_chain(m, s, m.links_dropped(ids, reason));
    }
}

/// Giving everything up keeps the ledger.
pub proof fn shutdown_keeps_ledger(m: LinkManagerModel)
    ensures
        keeps_ledger(m, m.shutdown_round()),
{
    let s0 = m.with_transport(m.transport.control_flushed());
    lemma_same(m, s0);
    endpoint_poll_keeps_ledger(s0);
    let s1 = s0.endpoints_polled();
    lemma_chain(m, s0, s1);
    lemma_same(s1, m.shutdown_round());
    lemma_chain(m, s1, m.shutdown_round());
}

} // verus!
