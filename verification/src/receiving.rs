//! Resources that a peer sends: their parts, and how each of them ends.

use vstd::prelude::*;

use crate::assoc::{cut, find, present, put, ResourceKey};
use crate::events::{
    bytes_model, CompletionModel, ConclusionModel, EventModel, LinkResourceConclusion,
    LinkResourceDirection, LinkResourceEvent, ResourceCompletion,
};
use crate::link::{Action, ActionModel, CancelType, TransferAction};
use crate::manager::{LinkManager, LinkManagerModel};
use crate::resources::{
    key_of, logical_id, InboundResourceLifecycle, ResourcesModel, SegmentRoute, SplitCoordinator,
};
use crate::wire::{copy_bytes, read_hash};

verus! {

/// What one transfer made of a part.
#[derive(Debug)]
pub struct PartOutcome {
    pub action: Action,
    /// Whether the transfer has all of its parts.
    pub is_complete: bool,
    /// Whether the part brought the transfer forward.
    pub advanced: bool,
}

/// What the transfers of a Link made of a part that was offered to one after the
/// other.
#[derive(Debug)]
pub struct PartScan {
    /// Flow control that is to be sent.
    pub action: Option<Action>,
    /// The segment that is complete.
    pub completed: Option<[u8; 32]>,
    /// The segment that the part brought forward.
    pub progressed: Option<[u8; 32]>,
}

pub open spec fn optional_action(action: Option<Action>) -> Option<ActionModel> {
    match action {
        Some(a) => Some(a@),
        None => None,
    }
}

/// Whether the action is flow control for the sender.
pub open spec fn is_flow_control(action: ActionModel) -> bool {
    action is SendHmu || action is SendRequest
}

impl PartScan {
    /// Before any transfer has seen the part.
    pub fn new() -> (r: Self)
        ensures
            r.action is None,
            r.completed is None,
            r.progressed is None,
    {
        PartScan { action: None, completed: None, progressed: None }
    }

    /// Whether no further transfer is offered the part.
    pub open spec fn settled(self) -> bool {
        self.action is Some || self.completed is Some
    }

    /// Notes what the transfer of `segment` made of the part, and says whether the
    /// part is settled: a further transfer is then not offered it.
    pub fn note(&mut self, segment: [u8; 32], outcome: PartOutcome) -> (r: bool)
        ensures
            optional_action(final(self).action) == (if is_flow_control(outcome.action@) {
                Some(outcome.action@)
            } else {
                optional_action(old(self).action)
            }),
            final(self).completed == (if outcome.action is Complete || (old(self).completed is None
                && outcome.is_complete) {
                Some(segment)
            } else {
                old(self).completed
            }),
            final(self).progressed == (if outcome.advanced {
                Some(segment)
            } else {
                old(self).progressed
            }),
            r == final(self).settled(),
    {
        match outcome.action {
            TransferAction::SendHmu(payload) => {
                self.action = Some(TransferAction::SendHmu(payload));
            },
            TransferAction::SendRequest(payload) => {
                self.action = Some(TransferAction::SendRequest(payload));
            },
            TransferAction::Complete => {
                self.completed = Some(segment);
            },
            _ => {},
        }
        if self.completed.is_none() && outcome.is_complete {
            self.completed = Some(segment);
        }
        if outcome.advanced {
            self.progressed = Some(segment);
        }
        self.action.is_some() || self.completed.is_some()
    }
}

/// What reassembly made of a complete segment. `B` stands for bytes and `S` for text.
#[derive(Debug)]
pub enum Assembly<B, S> {
    /// The whole Resource.
    Whole { data: B, metadata: Option<B> },
    /// More segments are to come.
    Partial { assembled_count: usize },
    /// The segment does not fit.
    Broken(S),
}

/// A complete segment: the proof that is owed for it, and what reassembly made of it.
#[derive(Debug)]
pub struct CompletedSegment<B, S> {
    pub proof: B,
    pub assembly: Assembly<B, S>,
}

pub open spec fn assembly_model(a: Assembly<Vec<u8>, String>) -> Assembly<Seq<u8>, Seq<char>> {
    match a {
        Assembly::Whole { data, metadata } => Assembly::Whole {
            data: data@,
            metadata: bytes_model(metadata),
        },
        Assembly::Partial { assembled_count } => Assembly::Partial { assembled_count },
        Assembly::Broken(error) => Assembly::Broken(error@),
    }
}

pub open spec fn segment_model(r: Result<CompletedSegment<Vec<u8>, String>, String>) -> Result<
    CompletedSegment<Seq<u8>, Seq<char>>,
    Seq<char>,
> {
    match r {
        Ok(s) => Ok(CompletedSegment { proof: s.proof@, assembly: assembly_model(s.assembly) }),
        Err(error) => Err(error@),
    }
}

impl LinkManagerModel {
    /// Progress of an inbound Resource, if its segment is still on its way.
    pub open spec fn inbound_progressed(
        self,
        link_id: [u8; 16],
        segment: [u8; 32],
        transferred: usize,
    ) -> Self {
        match find(self.resources.inbound, key_of(link_id, segment)) {
            Some(transfer) => LinkManagerModel {
                notices: self.notices.emitted(
                    EventModel::Progress {
                        link_id,
                        resource_id: logical_id(self.resources.routes, key_of(link_id, segment)),
                        direction: LinkResourceDirection::Inbound,
                        transferred,
                        total: transfer.data_size,
                    },
                ),
                ..self
            },
            None => self,
        }
    }

    /// A part dealt with, once the transfers have seen it: progress is reported
    /// first, then flow control goes out.
    pub open spec fn part_received(
        self,
        link_id: [u8; 16],
        progressed: Option<[u8; 32]>,
        transferred: usize,
        action: Option<ActionModel>,
    ) -> Self {
        let s = match progressed {
            Some(segment) => self.inbound_progressed(link_id, segment, transferred),
            None => self,
        };
        match action {
            Some(a) => s.action_sent(link_id, a),
            None => s,
        }
    }

    /// The whole of an inbound Resource is here. If its end is still owed, it is
    /// delivered, unless it is a request, and its success is reported.
    pub open spec fn inbound_completed(
        self,
        link_id: [u8; 16],
        resource_id: [u8; 32],
        data: Seq<u8>,
        metadata: Option<Seq<u8>>,
    ) -> Self {
        let key = key_of(link_id, resource_id);
        let s = LinkManagerModel {
            resources: self.resources.logical_dropped(key).claimed(key),
            ..self
        };
        match find(self.resources.lifecycles, key) {
            Some(lifecycle) => {
                let delivered = if lifecycle.is_request {
                    self.notices
                } else {
                    self.notices.completed(
                        CompletionModel { link_id, resource_hash: resource_id, data, metadata },
                    )
                };
                LinkManagerModel {
                    notices: delivered.emitted(
                        EventModel::Concluded {
                            link_id,
                            resource_id,
                            direction: LinkResourceDirection::Inbound,
                            conclusion: ConclusionModel::Complete,
                        },
                    ),
                    ..s
                }
            },
            None => s,
        }
    }

    /// Whether the whole of the Resource is a request that is to be dispatched.
    pub open spec fn completes_request(self, link_id: [u8; 16], resource_id: [u8; 32]) -> bool {
        match find(self.resources.lifecycles, key_of(link_id, resource_id)) {
            Some(lifecycle) => lifecycle.is_request,
            None => false,
        }
    }

    /// One segment of several is here: the next is awaited until `deadline`.
    pub open spec fn segment_stored(
        self,
        link_id: [u8; 16],
        segment: [u8; 32],
        route: SegmentRoute,
        assembled_count: usize,
        deadline: u64,
    ) -> Self {
        let r = self.resources;
        let key = key_of(link_id, route.original_hash);
        LinkManagerModel {
            resources: ResourcesModel {
                inbound: cut(r.inbound, key_of(link_id, segment)),
                routes: cut(r.routes, key_of(link_id, segment)),
                splits: match find(r.splits, key) {
                    Some(split) => put(
                        r.splits,
                        key,
                        SplitCoordinator { assembled_count, ..split },
                    ),
                    None => r.splits,
                },
                lifecycles: match find(r.lifecycles, key) {
                    Some(lifecycle) => put(
                        r.lifecycles,
                        key,
                        InboundResourceLifecycle {
                            current_segment: None,
                            inter_segment_deadline: Some(deadline),
                            ..lifecycle
                        },
                    ),
                    None => r.lifecycles,
                },
                ..r
            },
            ..self
        }
    }

    /// A proved segment taken to its logical Resource.
    pub open spec fn segment_delivered(
        self,
        link_id: [u8; 16],
        segment: [u8; 32],
        assembly: Assembly<Seq<u8>, Seq<char>>,
        deadline: u64,
    ) -> Self {
        match find(self.resources.routes, key_of(link_id, segment)) {
            Some(route) => {
                let id = route.original_hash;
                if !present(self.resources.splits, key_of(link_id, id)) {
                    self.inbound_concluded(
                        link_id,
                        id,
                        ConclusionModel::Failed("split-resource coordinator is missing"@),
                    )
                } else {
                    match assembly {
                        Assembly::Whole { data, metadata } => self.inbound_completed(
                            link_id,
                            id,
                            data,
                            metadata,
                        ),
                        Assembly::Partial { assembled_count } => self.segment_stored(
                            link_id,
                            segment,
                            route,
                            assembled_count,
                            deadline,
                        ),
                        Assembly::Broken(error) => self.inbound_concluded(
                            link_id,
                            id,
                            ConclusionModel::Failed(error),
                        ),
                    }
                }
            },
            None => match assembly {
                Assembly::Whole { data, metadata } => self.inbound_completed(
                    link_id,
                    segment,
                    data,
                    metadata,
                ),
                _ => self,
            },
        }
    }

    /// The request that a proved segment completes.
    pub open spec fn segment_request(
        self,
        link_id: [u8; 16],
        segment: [u8; 32],
        assembly: Assembly<Seq<u8>, Seq<char>>,
    ) -> Option<Seq<u8>> {
        let route = find(self.resources.routes, key_of(link_id, segment));
        let id = logical_id(self.resources.routes, key_of(link_id, segment));
        let routed_nowhere = route is Some && !present(
            self.resources.splits,
            key_of(link_id, id),
        );
        match assembly {
            Assembly::Whole { data, .. } => if !routed_nowhere && self.completes_request(
                link_id,
                id,
            ) {
                Some(data)
            } else {
                None
            },
            _ => None,
        }
    }

    /// A segment has all of its parts. Its proof goes out first; without the proof,
    /// or without its content, the Resource fails.
    pub open spec fn segment_completed(
        self,
        link_id: [u8; 16],
        segment: [u8; 32],
        result: Result<CompletedSegment<Seq<u8>, Seq<char>>, Seq<char>>,
        deadline: u64,
    ) -> Self {
        let id = logical_id(self.resources.routes, key_of(link_id, segment));
        if !present(self.resources.inbound, key_of(link_id, segment)) {
            self
        } else {
            match result {
                Ok(done) => {
                    let proof = TransferAction::SendProof(done.proof);
                    let s = self.action_sent(link_id, proof);
                    if self.action_retained(link_id, proof) {
                        s.segment_delivered(link_id, segment, done.assembly, deadline)
                    } else {
                        s.inbound_concluded(
                            link_id,
                            id,
                            ConclusionModel::Failed("could not send Resource proof"@),
                        )
                    }
                },
                Err(error) => self.action_sent(
                    link_id,
                    TransferAction::SendCancel(CancelType::Rcl, segment),
                ).inbound_concluded(link_id, id, ConclusionModel::Failed(error)),
            }
        }
    }

    /// The request that a complete segment yields.
    pub open spec fn completed_request(
        self,
        link_id: [u8; 16],
        segment: [u8; 32],
        result: Result<CompletedSegment<Seq<u8>, Seq<char>>, Seq<char>>,
    ) -> Option<Seq<u8>> {
        match result {
            Ok(done) => if present(self.resources.inbound, key_of(link_id, segment))
                && self.action_retained(link_id, TransferAction::SendProof(done.proof)) {
                self.segment_request(link_id, segment, done.assembly)
            } else {
                None
            },
            Err(_) => None,
        }
    }

    /// The Resource that a cancellation of `hash` by the sender ends.
    pub open spec fn cancelled_inbound(self, link_id: [u8; 16], hash: [u8; 32]) -> Option<
        [u8; 32],
    > {
        if present(self.resources.inbound, key_of(link_id, hash)) {
            Some(logical_id(self.resources.routes, key_of(link_id, hash)))
        } else if present(self.resources.lifecycles, key_of(link_id, hash)) {
            Some(hash)
        } else {
            None
        }
    }

    /// The sender cancelled a Resource.
    pub open spec fn inbound_cancelled(self, link_id: [u8; 16], plaintext: Seq<u8>) -> Self {
        if plaintext.len() < 32 {
            self
        } else {
            match self.cancelled_inbound(link_id, hash_at(plaintext, 0)) {
                Some(id) => self.inbound_concluded(link_id, id, ConclusionModel::Cancelled),
                None => self,
            }
        }
    }

    /// More of a hash map arrived, and the transfer asks for `action`.
    pub open spec fn hashmap_updated(
        self,
        link_id: [u8; 16],
        segment: [u8; 32],
        action: ActionModel,
    ) -> Self {
        if !present(self.resources.inbound, key_of(link_id, segment)) {
            self
        } else {
            let s = self.action_sent(link_id, action);
            if action matches TransferAction::SendCancel(CancelType::Rcl, _) {
                s.inbound_concluded(
                    link_id,
                    logical_id(self.resources.routes, key_of(link_id, segment)),
                    ConclusionModel::Failed("sender returned an invalid Resource hashmap update"@),
                )
            } else {
                s
            }
        }
    }
}

/// The hash that `data` holds from `start` on.
pub open spec fn hash_at(data: Seq<u8>, start: int) -> [u8; 32] {
    choose|hash: [u8; 32]| hash@ == data.subrange(start, start + 32)
}

/// Reads the hash that `data` holds from `start` on.
pub fn hash_from(data: &[u8], start: usize) -> (r: [u8; 32])
    requires
        start + 32 <= data@.len(),
    ensures
        r == hash_at(data@, start as int),
{
    let r = read_hash(data, start);
    proof {
        let other = hash_at(data@, start as int);
        assert(r@ == data@.subrange(start as int, start + 32));
        assert(other@ == r@);
        assert(r =~= other);
    }
    r
}

impl LinkManager {
    /// Reports progress of an inbound Resource. `transferred` is how much of its data
    /// has arrived.
    pub fn emit_inbound_resource_progress(
        &mut self,
        link_id: [u8; 16],
        segment: [u8; 32],
        transferred: usize,
    )
        ensures
            final(self)@ == old(self)@.inbound_progressed(link_id, segment, transferred),
    {
        let total: usize = match self.resources.inbound.get(&ResourceKey { link_id, hash: segment }) {
            Some(transfer) => transfer.data_size,
            None => {
                return;
            },
        };
        let resource_id = self.resources.inbound_resource_identity(&link_id, &segment).id;
        self.notices.emit_resource_event(
            LinkResourceEvent::Progress {
                link_id,
                resource_id,
                direction: LinkResourceDirection::Inbound,
                transferred,
                total,
            },
        );
    }

    /// Acts on what the transfers of a Link made of a part. `transferred` is how much
    /// of the progressed Resource has arrived. The segment that is now complete comes
    /// back: its content is due at [`Self::complete_segment`].
    pub fn handle_resource_part(
        &mut self,
        link_id: [u8; 16],
        scan: PartScan,
        transferred: usize,
    ) -> (r: Option<[u8; 32]>)
        ensures
            final(self)@ == old(self)@.part_received(
                link_id,
                scan.progressed,
                transferred,
                optional_action(scan.action),
            ),
            r == scan.completed,
    {
        if let Some(segment) = scan.progressed {
            self.emit_inbound_resource_progress(link_id, segment, transferred);
        }
        if let Some(action) = scan.action {
            let _ = self.send_resource_action(&link_id, action);
        }
        scan.completed
    }

    fn finish_inbound(
        &mut self,
        link_id: [u8; 16],
        resource_id: [u8; 32],
        data: Vec<u8>,
        metadata: Option<Vec<u8>>,
    ) -> (r: Option<Vec<u8>>)
        ensures
            final(self)@ == old(self)@.inbound_completed(
                link_id,
                resource_id,
                data@,
                bytes_model(metadata),
            ),
            bytes_model(r) == (if old(self)@.completes_request(link_id, resource_id) {
                Some(data@)
            } else {
                None
            }),
    {
        self.resources.drop_inbound_logical(link_id, resource_id);
        proof {
            reveal(ResourcesModel::logical_dropped);
        }
        let mut request: Option<Vec<u8>> = None;
        if let Some(lifecycle) = self.resources.claim_inbound_terminal(link_id, resource_id) {
            if lifecycle.is_request {
                request = Some(data);
            } else {
                self.notices.emit_resource_completion(
                    ResourceCompletion { link_id, resource_hash: resource_id, data, metadata },
                );
            }
            self.notices.emit_resource_event(
                LinkResourceEvent::Concluded {
                    link_id,
                    resource_id,
                    direction: LinkResourceDirection::Inbound,
                    conclusion: LinkResourceConclusion::Complete,
                },
            );
        }
        request
    }

    fn store_segment(
        &mut self,
        link_id: [u8; 16],
        segment: [u8; 32],
        route: SegmentRoute,
        assembled_count: usize,
        deadline: u64,
    )
        ensures
            final(self)@ == old(self)@.segment_stored(
                link_id,
                segment,
                route,
                assembled_count,
                deadline,
            ),
    {
        let key = ResourceKey { link_id, hash: route.original_hash };
        let _ = self.resources.inbound.remove(&ResourceKey { link_id, hash: segment });
        let _ = self.resources.routes.remove(&ResourceKey { link_id, hash: segment });
        if let Some(split) = self.resources.splits.get_mut(&key) {
            split.assembled_count = assembled_count;
        }
        if let Some(lifecycle) = self.resources.lifecycles.get_mut(&key) {
            lifecycle.current_segment = None;
            lifecycle.inter_segment_deadline = Some(deadline);
        }
    }

    fn deliver_segment(
        &mut self,
        link_id: [u8; 16],
        segment: [u8; 32],
        assembly: Assembly<Vec<u8>, String>,
        deadline: u64,
    ) -> (r: Option<Vec<u8>>)
        ensures
            final(self)@ == old(self)@.segment_delivered(
                link_id,
                segment,
                assembly_model(assembly),
                deadline,
            ),
            bytes_model(r) == old(self)@.segment_request(
                link_id,
                segment,
                assembly_model(assembly),
            ),
    {
        let route = match self.resources.routes.get(&ResourceKey { link_id, hash: segment }) {
            Some(route) => *route,
            None => {
                return match assembly {
                    Assembly::Whole { data, metadata } => self.finish_inbound(
                        link_id,
                        segment,
                        data,
                        metadata,
                    ),
                    _ => None,
                };
            },
        };
        let id = route.original_hash;
        if !self.resources.splits.contains(&ResourceKey { link_id, hash: id }) {
            let _ = self.conclude_inbound_failure(
                link_id,
                id,
                LinkResourceConclusion::Failed("split-resource coordinator is missing".to_owned()),
            );
            return None;
        }
        match assembly {
            Assembly::Whole { data, metadata } => self.finish_inbound(link_id, id, data, metadata),
            Assembly::Partial { assembled_count } => {
                self.store_segment(link_id, segment, route, assembled_count, deadline);
                None
            },
            Assembly::Broken(error) => {
                let _ = self.conclude_inbound_failure(
                    link_id,
                    id,
                    LinkResourceConclusion::Failed(error),
                );
                None
            },
        }
    }

    /// Takes in a segment that has all of its parts: its proof and content, or why it
    /// could not be put together. `deadline` is when waiting for a next segment ends.
    /// The payload of a request that is complete comes back, to be dispatched.
    pub fn complete_segment(
        &mut self,
        link_id: [u8; 16],
        segment: [u8; 32],
        result: Result<CompletedSegment<Vec<u8>, String>, String>,
        deadline: u64,
    ) -> (r: Option<Vec<u8>>)
        ensures
            final(self)@ == old(self)@.segment_completed(
                link_id,
                segment,
                segment_model(result),
                deadline,
            ),
            bytes_model(r) == old(self)@.completed_request(
                link_id,
                segment,
                segment_model(result),
            ),
    {
        if !self.resources.inbound.contains(&ResourceKey { link_id, hash: segment }) {
            return None;
        }
        let resource_id = self.resources.inbound_resource_identity(&link_id, &segment).id;
        match result {
            Ok(done) => {
                // Each split segment needs its own proof or the sender retries.
                if !self.send_resource_action(&link_id, TransferAction::SendProof(done.proof)) {
                    let _ = self.conclude_inbound_failure(
                        link_id,
                        resource_id,
                        LinkResourceConclusion::Failed("could not send Resource proof".to_owned()),
                    );
                    return None;
                }
                self.deliver_segment(link_id, segment, done.assembly, deadline)
            },
            Err(error) => {
                let _ = self.send_resource_action(
                    &link_id,
                    TransferAction::SendCancel(CancelType::Rcl, segment),
                );
                let _ = self.conclude_inbound_failure(
                    link_id,
                    resource_id,
                    LinkResourceConclusion::Failed(error),
                );
                None
            },
        }
    }

    /// The sender cancels a Resource; `plaintext` begins with the hash of a segment or
    /// of the Resource.
    pub fn handle_resource_icl(&mut self, link_id: [u8; 16], plaintext: &[u8])
        ensures
            final(self)@ == old(self)@.inbound_cancelled(link_id, plaintext@),
    {
        if plaintext.len() < 32 {
            return;
        }
        let hash = hash_from(plaintext, 0);
        let key = ResourceKey { link_id, hash };
        let resource_id = if self.resources.inbound.contains(&key) {
            self.resources.inbound_resource_identity(&link_id, &hash).id
        } else if self.resources.lifecycles.contains(&key) {
            hash
        } else {
            return;
        };
        let _ = self.conclude_inbound_failure(
            link_id,
            resource_id,
            LinkResourceConclusion::Cancelled,
        );
    }

    /// Acts on what the transfer of `segment` made of more of its hash map: it requests
    /// further parts, or gives up on an empty or invalid update.
    pub fn handle_resource_hmu(&mut self, link_id: [u8; 16], segment: [u8; 32], action: Action)
        ensures
            final(self)@ == old(self)@.hashmap_updated(link_id, segment, action@),
    {
        if !self.resources.inbound.contains(&ResourceKey { link_id, hash: segment }) {
            return;
        }
        let cancelled: bool = match &action {
            TransferAction::SendCancel(CancelType::Rcl, _) => true,
            _ => false,
        };
        let resource_id = self.resources.inbound_resource_identity(&link_id, &segment).id;
        let _ = self.send_resource_action(&link_id, action);
        if cancelled {
            let _ = self.conclude_inbound_failure(
                link_id,
                resource_id,
                LinkResourceConclusion::Failed(
                    "sender returned an invalid Resource hashmap update".to_owned(),
                ),
            );
        }
    }

    /// Whether a segment can be completed by [`Self::complete_resource`].
    pub fn can_complete_resource(&self, link_id: &[u8; 16], resource_hash: &[u8; 32]) -> (r: bool)
        ensures
            r == self@.pullable(*link_id, *resource_hash),
    {
        let key = ResourceKey { link_id: *link_id, hash: *resource_hash };
        self.links.contains(link_id) && !self.resources.routes.contains(&key)
            && self.resources.inbound.contains(&key)
    }

    /// Legacy pull-style completion for a single inbound Resource.
    ///
    /// The manager normally completes Resources while handling their final part.
    /// Split Resources require that path so proofs and coordinator state remain
    /// ordered. `completion` is what the transfer's completion gave: data, proof and
    /// metadata, or why it failed.
    pub fn complete_resource(
        &mut self,
        link_id: &[u8; 16],
        resource_hash: &[u8; 32],
        completion: Result<(Vec<u8>, Vec<u8>, Option<Vec<u8>>), String>,
    ) -> (r: Option<(Vec<u8>, Vec<u8>)>)
        ensures
            match r {
                Some(out) => old(self)@.pullable(*link_id, *resource_hash) && (
                completion matches Ok(c) && out.0@ == c.0@ && out.1 == c.1),
                None => !old(self)@.pullable(*link_id, *resource_hash) || completion is Err,
            },
            final(self)@ == (if !old(self)@.pullable(*link_id, *resource_hash) {
                old(self)@
            } else {
                match completion {
                    Ok(c) => old(self)@.inbound_completed(
                        *link_id,
                        *resource_hash,
                        c.0@,
                        bytes_model(c.2),
                    ),
                    Err(error) => old(self)@.inbound_concluded(
                        *link_id,
                        *resource_hash,
                        ConclusionModel::Failed(error@),
                    ),
                }
            }),
    {
        if !self.can_complete_resource(link_id, resource_hash) {
            return None;
        }
        match completion {
            Ok((data, proof, metadata)) => {
                let _ = self.finish_inbound(
                    *link_id,
                    *resource_hash,
                    copy_bytes(data.as_slice()),
                    metadata,
                );
                Some((data, proof))
            },
            Err(error) => {
                let _ = self.conclude_inbound_failure(
                    *link_id,
                    *resource_hash,
                    LinkResourceConclusion::Failed(error),
                );
                None
            },
        }
    }
}

impl LinkManagerModel {
    /// Whether a segment is a whole Resource that is being received.
    pub open spec fn pullable(self, link_id: [u8; 16], hash: [u8; 32]) -> bool {
        present(self.links, link_id) && !present(self.resources.routes, key_of(link_id, hash))
            && present(self.resources.inbound, key_of(link_id, hash))
    }
}

} // verus!
