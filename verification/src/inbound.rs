//! Resources that a peer sends: which offers are taken, and how each of them ends.

use vstd::prelude::*;

use crate::assoc::{find, present, put, same_bytes, ResourceKey};
use crate::events::{
    bytes_model, ConclusionModel, EventModel, LinkResourceConclusion, LinkResourceDirection,
    LinkResourceEvent,
};
use crate::link::{Action, ActionModel, CancelType, ResourceStrategy, TransferAction};
use crate::manager::{LinkManager, LinkManagerModel};
use crate::resources::{
    key_of, logical_id, InboundResourceLifecycle, InboundTransfer, ResourcesModel, SegmentRoute,
    SplitCoordinator,
};
use crate::text::{segment_range_failure, segment_range_text};
use crate::wire::same_data;

verus! {

/// An offer of one segment of a Resource, as far as the manager reads it.
#[derive(Debug)]
pub struct ResourceAdvertisement {
    /// Hash of the offered segment.
    pub resource_hash: [u8; 32],
    /// Hash of the first segment of the Resource.
    pub original_hash: [u8; 32],
    pub data_size: usize,
    pub segment_index: usize,
    pub total_segments: usize,
    pub split: bool,
    pub is_request: bool,
    pub is_response: bool,
    pub has_metadata: bool,
    pub request_id: Option<Vec<u8>>,
}

/// What the manager makes of an offer. `S` stands for text.
#[derive(Debug)]
pub enum AdvertisementVerdict<S> {
    /// The offer is dropped.
    Ignore,
    /// The offer is refused, and the named Resource fails.
    Reject { resource_id: [u8; 32], reason: S },
    /// The segment may be received. `ask_application` says that the application
    /// decides.
    Transfer { ask_application: bool },
}

/// How the flags of a transfer differ from those of its offer.
#[derive(Debug, Clone, Copy, PartialEq, Eq, Structural)]
pub struct TransferFlags {
    pub is_request: bool,
    pub is_response: bool,
    pub has_metadata: bool,
}

impl ResourceAdvertisement {
    pub open spec fn splits(self) -> bool {
        self.split || self.total_segments > 1
    }

    /// The id of the logical Resource.
    pub open spec fn resource_id(self) -> [u8; 32] {
        if self.splits() {
            self.original_hash
        } else {
            self.resource_hash
        }
    }

    pub open spec fn requests(self) -> bool {
        self.is_request && self.request_id is Some
    }

    pub open spec fn responds(self) -> bool {
        self.is_response && self.request_id is Some
    }

    /// Whether the Resource is neither a request nor a response.
    pub open spec fn ordinary(self) -> bool {
        !self.requests() && !self.responds()
    }

    pub open spec fn in_range(self, max_segments: usize) -> bool {
        0 < self.segment_index <= self.total_segments <= max_segments
    }

    /// The flags with which the segment is received: a request or a response has an
    /// id, and only the first segment carries metadata.
    pub fn transfer_flags(&self) -> (r: TransferFlags)
        ensures
            r == (TransferFlags {
                is_request: self.requests(),
                is_response: self.responds(),
                has_metadata: self.has_metadata && !(self.total_segments > 1 && self.segment_index
                    > 1),
            }),
    {
        TransferFlags {
            is_request: self.is_request && self.request_id.is_some(),
            is_response: self.is_response && self.request_id.is_some(),
            has_metadata: self.has_metadata && !(self.total_segments > 1 && self.segment_index > 1),
        }
    }
}

/// Whether two optional byte strings are the same.
pub fn same_optional(a: &Option<Vec<u8>>, b: &Option<Vec<u8>>) -> (r: bool)
    ensures
        r == (bytes_model(*a) == bytes_model(*b)),
{
    match a {
        Some(x) => match b {
            Some(y) => same_data(x.as_slice(), y.as_slice()),
            None => false,
        },
        None => b.is_none(),
    }
}

impl LinkManagerModel {
    /// Whether an offer continues an accepted Resource: nothing about the Resource
    /// has changed, no segment is on its way, and this is the next one.
    pub open spec fn continues(
        self,
        link_id: [u8; 16],
        lifecycle: InboundResourceLifecycle,
        adv: ResourceAdvertisement,
    ) -> bool {
        &&& lifecycle.total_segments == adv.total_segments
        &&& lifecycle.data_size == adv.data_size
        &&& lifecycle.current_segment is None
        &&& lifecycle.is_request == adv.requests()
        &&& lifecycle.is_response == adv.responds()
        &&& bytes_model(lifecycle.request_id) == bytes_model(adv.request_id)
        &&& match find(self.resources.splits, key_of(link_id, adv.resource_id())) {
            Some(split) => split.assembled_count + 1 == adv.segment_index,
            None => false,
        }
    }

    pub open spec fn handles_requests(self) -> bool {
        self.settings.has_request_handler || self.settings.has_request_handler_ex
            || self.handlers.len() > 0
    }

    /// What becomes of an offer.
    pub open spec fn advertisement_verdict(
        self,
        link_id: [u8; 16],
        adv: ResourceAdvertisement,
    ) -> AdvertisementVerdict<Seq<char>> {
        let id = adv.resource_id();
        let segment = key_of(link_id, adv.resource_hash);
        let lifecycle = find(self.resources.lifecycles, key_of(link_id, id));
        if !present(self.links, link_id) {
            AdvertisementVerdict::Ignore
        } else if !adv.in_range(self.settings.constants.max_segments) {
            AdvertisementVerdict::Reject {
                resource_id: id,
                reason: segment_range_failure(
                    adv.segment_index,
                    adv.total_segments,
                    self.settings.constants.max_segments,
                ),
            }
        } else if present(self.resources.inbound, segment) {
            let holder = logical_id(self.resources.routes, segment);
            if holder == id && lifecycle is Some && lifecycle->0.current_segment == Some(
                adv.resource_hash,
            ) {
                AdvertisementVerdict::Ignore
            } else {
                AdvertisementVerdict::Reject {
                    resource_id: holder,
                    reason: "resource hash conflicts with an active transfer"@,
                }
            }
        } else if lifecycle is Some && !self.continues(link_id, lifecycle->0, adv) {
            AdvertisementVerdict::Reject {
                resource_id: id,
                reason: "split-resource sequence does not match the active transfer"@,
            }
        } else if lifecycle is None && adv.splits() && adv.segment_index != 1 {
            AdvertisementVerdict::Reject {
                resource_id: id,
                reason: "split-resource transfer must begin with segment 1"@,
            }
        } else if adv.requests() && !self.handles_requests() {
            if lifecycle is Some {
                AdvertisementVerdict::Reject {
                    resource_id: id,
                    reason: "request handlers were removed during the transfer"@,
                }
            } else {
                AdvertisementVerdict::Ignore
            }
        } else if adv.ordinary() && self.settings.resource_strategy is AcceptNone {
            if lifecycle is Some {
                AdvertisementVerdict::Reject {
                    resource_id: id,
                    reason: "application no longer accepts inbound Resources"@,
                }
            } else {
                AdvertisementVerdict::Ignore
            }
        } else {
            AdvertisementVerdict::Transfer {
                ask_application: adv.ordinary() && self.settings.resource_strategy is AcceptApp
                    && self.settings.has_resource_accept_handler,
            }
        }
    }

    /// An ordinary offer that the application does not want.
    pub open spec fn offer_declined(self, link_id: [u8; 16], adv: ResourceAdvertisement) -> Self {
        let s = self.action_sent(
            link_id,
            TransferAction::SendCancel(CancelType::Rcl, adv.resource_hash),
        );
        if present(self.resources.lifecycles, key_of(link_id, adv.resource_id())) {
            s.inbound_concluded(link_id, adv.resource_id(), ConclusionModel::Rejected)
        } else {
            s
        }
    }

    /// The first segment of a Resource makes its end owed.
    pub open spec fn lifecycle_started(
        self,
        link_id: [u8; 16],
        adv: ResourceAdvertisement,
    ) -> Self {
        let key = key_of(link_id, adv.resource_id());
        if present(self.resources.lifecycles, key) {
            self
        } else {
            LinkManagerModel {
                resources: ResourcesModel {
                    lifecycles: put(
                        self.resources.lifecycles,
                        key,
                        InboundResourceLifecycle {
                            data_size: adv.data_size,
                            total_segments: adv.total_segments,
                            current_segment: None,
                            is_request: adv.requests(),
                            is_response: adv.responds(),
                            request_id: adv.request_id,
                            inter_segment_deadline: None,
                        },
                    ),
                    pending_requests: if adv.requests() {
                        put(self.resources.pending_requests, key, ())
                    } else {
                        self.resources.pending_requests
                    },
                    ..self.resources
                },
                notices: self.notices.emitted(
                    EventModel::Started {
                        link_id,
                        resource_id: adv.resource_id(),
                        direction: LinkResourceDirection::Inbound,
                        data_size: adv.data_size,
                        total_segments: adv.total_segments,
                    },
                ),
                ..self
            }
        }
    }

    /// The accepted segment on its way.
    pub open spec fn segment_installed(
        self,
        link_id: [u8; 16],
        adv: ResourceAdvertisement,
    ) -> Self {
        let r = self.resources;
        let key = key_of(link_id, adv.resource_id());
        let segment = key_of(link_id, adv.resource_hash);
        LinkManagerModel {
            resources: ResourcesModel {
                splits: if adv.splits() && !present(r.splits, key) {
                    put(
                        r.splits,
                        key,
                        SplitCoordinator {
                            total_segments: adv.total_segments,
                            assembled_count: 0,
                        },
                    )
                } else {
                    r.splits
                },
                routes: if adv.splits() {
                    put(
                        r.routes,
                        segment,
                        SegmentRoute {
                            original_hash: adv.original_hash,
                            segment_index: adv.segment_index,
                        },
                    )
                } else {
                    r.routes
                },
                inbound: put(r.inbound, segment, InboundTransfer { data_size: adv.data_size }),
                lifecycles: match find(r.lifecycles, key) {
                    Some(lifecycle) => put(
                        r.lifecycles,
                        key,
                        InboundResourceLifecycle {
                            current_segment: Some(adv.resource_hash),
                            inter_segment_deadline: None,
                            ..lifecycle
                        },
                    ),
                    None => r.lifecycles,
                },
                ..r
            },
            ..self
        }
    }

    /// An accepted offer: its end is owed from now on, and its first parts are
    /// requested.
    pub open spec fn offer_accepted(
        self,
        link_id: [u8; 16],
        adv: ResourceAdvertisement,
        request: ActionModel,
    ) -> Self {
        let s = self.lifecycle_started(link_id, adv);
        if s.action_retained(link_id, request) {
            s.action_sent(link_id, request).segment_installed(link_id, adv)
        } else {
            s.action_sent(link_id, request).inbound_concluded(
                link_id,
                adv.resource_id(),
                ConclusionModel::Failed("could not request initial Resource parts"@),
            )
        }
    }

    /// Whether the application's policy lets the offer in.
    pub open spec fn application_accepts(self, adv: ResourceAdvertisement, accepted: bool) -> bool {
        !(adv.ordinary() && self.settings.resource_strategy is AcceptApp) || (
        self.settings.has_resource_accept_handler && accepted)
    }

    /// An offer dealt with. `transfer` is the first request of the new transfer, or
    /// why it could not be set up; `accepted` is the application's answer.
    pub open spec fn advertised(
        self,
        link_id: [u8; 16],
        adv: ResourceAdvertisement,
        transfer: Result<ActionModel, Seq<char>>,
        accepted: bool,
    ) -> Self {
        match self.advertisement_verdict(link_id, adv) {
            AdvertisementVerdict::Ignore => self,
            AdvertisementVerdict::Reject { resource_id, reason } => self.advertisement_rejected(
                link_id,
                resource_id,
                adv.resource_hash,
                reason,
            ),
            AdvertisementVerdict::Transfer { .. } => match transfer {
                Err(error) => self.advertisement_rejected(
                    link_id,
                    adv.resource_id(),
                    adv.resource_hash,
                    error,
                ),
                Ok(request) => if self.application_accepts(adv, accepted) {
                    self.offer_accepted(link_id, adv, request)
                } else {
                    self.offer_declined(link_id, adv)
                },
            },
        }
    }
}

/// The model of a verdict.
pub open spec fn verdict_model(v: AdvertisementVerdict<String>) -> AdvertisementVerdict<Seq<char>> {
    match v {
        AdvertisementVerdict::Ignore => AdvertisementVerdict::Ignore,
        AdvertisementVerdict::Reject { resource_id, reason } => AdvertisementVerdict::Reject {
            resource_id,
            reason: reason@,
        },
        AdvertisementVerdict::Transfer { ask_application } => AdvertisementVerdict::Transfer {
            ask_application,
        },
    }
}

/// The model of the first request of a transfer, or of why there is none.
pub open spec fn transfer_model(t: Result<Action, String>) -> Result<ActionModel, Seq<char>> {
    match t {
        Ok(action) => Ok(action@),
        Err(error) => Err(error@),
    }
}

impl LinkManager {
    fn continues_transfer(
        &self,
        link_id: &[u8; 16],
        lifecycle: &InboundResourceLifecycle,
        adv: &ResourceAdvertisement,
        resource_id: &[u8; 32],
    ) -> (r: bool)
        requires
            *resource_id == adv.resource_id(),
        ensures
            r == self@.continues(*link_id, *lifecycle, *adv),
    {
        let key = ResourceKey { link_id: *link_id, hash: *resource_id };
        let next: bool = match self.resources.splits.get(&key) {
            Some(split) => adv.segment_index > 0 && split.assembled_count == adv.segment_index - 1,
            None => false,
        };
        let flags = adv.transfer_flags();
        lifecycle.total_segments == adv.total_segments && lifecycle.data_size == adv.data_size
            && lifecycle.current_segment.is_none() && lifecycle.is_request == flags.is_request
            && lifecycle.is_response == flags.is_response && same_optional(
            &lifecycle.request_id,
            &adv.request_id,
        ) && next
    }

    /// What becomes of an offer on a Link. Nothing changes yet.
    pub fn judge_advertisement(&self, link_id: &[u8; 16], adv: &ResourceAdvertisement) -> (r:
        AdvertisementVerdict<String>)
        ensures
            verdict_model(r) == self@.advertisement_verdict(*link_id, *adv),
    {
        let is_split: bool = adv.split || adv.total_segments > 1;
        let resource_id = if is_split {
            adv.original_hash
        } else {
            adv.resource_hash
        };
        let flags = adv.transfer_flags();
        let ordinary: bool = !flags.is_request && !flags.is_response;
        if !self.links.contains(link_id) {
            return AdvertisementVerdict::Ignore;
        }
        // Structural and logical continuity checks run before application admission.
        let max_segments: usize = self.settings.constants.max_segments;
        if adv.total_segments == 0 || adv.total_segments > max_segments || adv.segment_index == 0
            || adv.segment_index > adv.total_segments {
            return AdvertisementVerdict::Reject {
                resource_id,
                reason: segment_range_text(adv.segment_index, adv.total_segments, max_segments),
            };
        }
        let key = ResourceKey { link_id: *link_id, hash: resource_id };
        let lifecycle = self.resources.lifecycles.get(&key);
        let segment = ResourceKey { link_id: *link_id, hash: adv.resource_hash };
        if self.resources.inbound.contains(&segment) {
            let holder = self.resources.inbound_resource_identity(link_id, &adv.resource_hash).id;
            let current: bool = match lifecycle {
                Some(lifecycle) => match lifecycle.current_segment {
                    Some(hash) => same_bytes(&hash, &adv.resource_hash),
                    None => false,
                },
                None => false,
            };
            if same_bytes(&holder, &resource_id) && current {
                return AdvertisementVerdict::Ignore;
            }
            return AdvertisementVerdict::Reject {
                resource_id: holder,
                reason: "resource hash conflicts with an active transfer".to_owned(),
            };
        }
        match lifecycle {
            Some(lifecycle) => {
                if !self.continues_transfer(link_id, lifecycle, adv, &resource_id) {
                    return AdvertisementVerdict::Reject {
                        resource_id,
                        reason:
                            "split-resource sequence does not match the active transfer".to_owned(),
                    };
                }
            },
            None => {
                if is_split && adv.segment_index != 1 {
                    return AdvertisementVerdict::Reject {
                        resource_id,
                        reason: "split-resource transfer must begin with segment 1".to_owned(),
                    };
                }
            },
        }
        let handles: bool = self.settings.has_request_handler
            || self.settings.has_request_handler_ex || !self.handlers.is_empty();
        if flags.is_request && !handles {
            return if lifecycle.is_some() {
                AdvertisementVerdict::Reject {
                    resource_id,
                    reason: "request handlers were removed during the transfer".to_owned(),
                }
            } else {
                AdvertisementVerdict::Ignore
            };
        }
        // AcceptNone is a cheap first-offer drop: it invokes no application code and
        // allocates no Resource state.
        if ordinary && self.settings.resource_strategy == ResourceStrategy::AcceptNone {
            return if lifecycle.is_some() {
                AdvertisementVerdict::Reject {
                    resource_id,
                    reason: "application no longer accepts inbound Resources".to_owned(),
                }
            } else {
                AdvertisementVerdict::Ignore
            };
        }
        AdvertisementVerdict::Transfer {
            ask_application: ordinary && self.settings.resource_strategy
                == ResourceStrategy::AcceptApp && self.settings.has_resource_accept_handler,
        }
    }

    fn decline_offer(
        &mut self,
        link_id: [u8; 16],
        adv: &ResourceAdvertisement,
        resource_id: [u8; 32],
    )
        requires
            resource_id == adv.resource_id(),
        ensures
            final(self)@ == old(self)@.offer_declined(link_id, *adv),
    {
        let started: bool = self.resources.lifecycles.contains(
            &ResourceKey { link_id, hash: resource_id },
        );
        let _ = self.send_resource_action(
            &link_id,
            TransferAction::SendCancel(CancelType::Rcl, adv.resource_hash),
        );
        if started {
            let _ = self.conclude_inbound_failure(
                link_id,
                resource_id,
                LinkResourceConclusion::Rejected,
            );
        }
    }

    fn accept_offer(
        &mut self,
        link_id: [u8; 16],
        adv: ResourceAdvertisement,
        resource_id: [u8; 32],
        request: Action,
    )
        requires
            resource_id == adv.resource_id(),
        ensures
            final(self)@ == old(self)@.offer_accepted(link_id, adv, request@),
    {
        let key = ResourceKey { link_id, hash: resource_id };
        let segment = ResourceKey { link_id, hash: adv.resource_hash };
        let flags = adv.transfer_flags();
        if !self.resources.lifecycles.contains(&key) {
            self.resources.lifecycles.insert(
                key,
                InboundResourceLifecycle {
                    data_size: adv.data_size,
                    total_segments: adv.total_segments,
                    current_segment: None,
                    is_request: flags.is_request,
                    is_response: flags.is_response,
                    request_id: adv.request_id,
                    inter_segment_deadline: None,
                },
            );
            if flags.is_request {
                self.resources.pending_requests.insert(key, ());
            }
            self.notices.emit_resource_event(
                LinkResourceEvent::Started {
                    link_id,
                    resource_id,
                    direction: LinkResourceDirection::Inbound,
                    data_size: adv.data_size,
                    total_segments: adv.total_segments,
                },
            );
        }
        assert(self@ == old(self)@.lifecycle_started(link_id, adv));
        if !self.send_resource_action(&link_id, request) {
            let _ = self.conclude_inbound_failure(
                link_id,
                resource_id,
                LinkResourceConclusion::Failed(
                    "could not request initial Resource parts".to_owned(),
                ),
            );
            return;
        }
        // Routing is published only after structural validation, admission and the
        // initial part request have succeeded.
        if adv.split || adv.total_segments > 1 {
            if !self.resources.splits.contains(&key) {
                self.resources.splits.insert(
                    key,
                    SplitCoordinator { total_segments: adv.total_segments, assembled_count: 0 },
                );
            }
            self.resources.routes.insert(
                segment,
                SegmentRoute {
                    original_hash: adv.original_hash,
                    segment_index: adv.segment_index,
                },
            );
        }
        self.resources.inbound.insert(segment, InboundTransfer { data_size: adv.data_size });
        if let Some(lifecycle) = self.resources.lifecycles.get_mut(&key) {
            lifecycle.current_segment = Some(adv.resource_hash);
            lifecycle.inter_segment_deadline = None;
        }
    }

    /// Deals with an offer on a Link, after [`Self::judge_advertisement`]. `transfer`
    /// is the first request of the new transfer, or why it could not be set up;
    /// `accepted` is the application's answer, if it was asked.
    pub fn handle_advertisement(
        &mut self,
        link_id: [u8; 16],
        adv: ResourceAdvertisement,
        transfer: Result<Action, String>,
        accepted: bool,
    )
        ensures
            final(self)@ == old(self)@.advertised(
                link_id,
                adv,
                transfer_model(transfer),
                accepted,
            ),
    {
        let resource_id = if adv.split || adv.total_segments > 1 {
            adv.original_hash
        } else {
            adv.resource_hash
        };
        match self.judge_advertisement(&link_id, &adv) {
            AdvertisementVerdict::Ignore => {},
            AdvertisementVerdict::Reject { resource_id: id, reason } => {
                self.reject_inbound_advertisement(link_id, id, adv.resource_hash, reason);
            },
            AdvertisementVerdict::Transfer { .. } => match transfer {
                Err(error) => {
                    self.reject_inbound_advertisement(
                        link_id,
                        resource_id,
                        adv.resource_hash,
                        error,
                    );
                },
                Ok(request) => {
                    // The application's policy is consulted for every ordinary segment
                    // offer. A refused follow-up concludes the transfer that had begun.
                    let flags = adv.transfer_flags();
                    let app_decides: bool = !flags.is_request && !flags.is_response
                        && self.settings.resource_strategy == ResourceStrategy::AcceptApp;
                    if app_decides && !(self.settings.has_resource_accept_handler && accepted) {
                        self.decline_offer(link_id, &adv, resource_id);
                    } else {
                        self.accept_offer(link_id, adv, resource_id, request);
                    }
                },
            },
        }
    }
}

} // verus!
