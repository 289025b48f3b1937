//! Requests over Links: who answers them, and how the answer travels.

use vstd::prelude::*;

use crate::assoc::{cut, find, present, put, same_bytes};
use crate::events::bytes_model;
use crate::link::LinkState;
use crate::manager::{AllowPolicy, LinkManager, LinkManagerModel, RegisteredRequestHandler};
use crate::packets::ParsedRequest;
use crate::sending::{optional_len, BuiltResource, ResourceTransferStart};
use crate::wire::{copy_bytes, PacketContext};

verus! {

/// Result of an extended request handler. `Reply` is the ordinary response;
/// `ReplyWithResource` sends an inline ack followed by a resource transfer
/// (rncp --fetch).
/// `ReplyFile` sends a **response** Resource with raw file bytes and optional
/// msgpack metadata (NomadNet `/file/...`: `{"name": <path bytes>}`).
#[derive(Debug, Clone)]
pub enum RequestOutcome {
    Reply(Vec<u8>),
    ReplyWithResource {
        ack: Vec<u8>,
        data: Vec<u8>,
        /// Optional msgpack-encoded metadata (e.g. `{"name": "file.bin"}`).
        metadata: Option<Vec<u8>>,
        auto_compress: bool,
    },
    /// Response Resource with raw payload, which is not packed with the request's id.
    ReplyFile {
        data: Vec<u8>,
        /// Optional msgpack-encoded metadata.
        metadata: Option<Vec<u8>>,
        auto_compress: bool,
    },
    /// Silently drop; caller sees a timeout. Useful for ACL denies.
    Drop,
}

/// What a handler for a path is told of a request.
#[derive(Debug)]
pub struct DestinationRequest {
    pub path: String,
    pub data: Vec<u8>,
    pub request_id: [u8; 16],
    pub link_id: [u8; 16],
    /// Hash of the peer's identity, if the peer has identified itself.
    pub remote_identity: Option<[u8; 16]>,
    /// When the request was made, as the bits of the sender's timestamp.
    pub requested_at: u64,
}

/// Who answers a request.
#[derive(Debug, Clone, Copy, PartialEq, Eq, Structural)]
pub enum RequestDispatch {
    /// The Link is not ready for requests: nobody.
    NotReady,
    /// The handler for the path, which this peer may not call: nobody.
    Denied,
    /// The handler for the path. Its response may be compressed as it was registered.
    Registered { auto_compress: bool },
    /// The extended handler.
    Extended,
    /// The plain handler.
    Plain,
    /// There is no handler.
    Unhandled,
}

/// The parts of an answer: a response that is packed with the request's id, a file
/// that is the response, and a Resource that follows the response.
#[derive(Debug)]
pub struct ReplyParts {
    pub response: Option<Vec<u8>>,
    pub file: Option<ResourceTransferStart>,
    pub follow_up: Option<ResourceTransferStart>,
}

impl LinkManagerModel {
    /// Whether the Link takes requests: once it is active, and before that from an
    /// initiator whose handshake is done.
    pub open spec fn request_ready(self, link_id: [u8; 16]) -> bool {
        match find(self.links, link_id) {
            Some(link) => link.state is Active || (!link.is_initiator && link.state is Handshake),
            None => false,
        }
    }

    /// The identity of the peer at the other end of the Link.
    pub open spec fn remote_identity(self, link_id: [u8; 16]) -> Option<[u8; 16]> {
        match find(self.links, link_id) {
            Some(link) => link.remote_identity,
            None => None,
        }
    }

    /// Whether a peer may call a handler.
    pub open spec fn allows(
        handler: RegisteredRequestHandler,
        remote_identity: Option<[u8; 16]>,
    ) -> bool {
        match handler.allow {
            AllowPolicy::AllowNone => false,
            AllowPolicy::AllowAll => true,
            AllowPolicy::AllowList => match remote_identity {
                Some(hash) => handler.allowed_list@.contains(hash),
                None => false,
            },
        }
    }

    /// Who answers a request for the path of this hash. A handler for the path comes
    /// before the extended handler, which comes before the plain one.
    pub open spec fn request_dispatch(
        self,
        link_id: [u8; 16],
        path_hash: [u8; 16],
    ) -> RequestDispatch {
        if !self.request_ready(link_id) {
            RequestDispatch::NotReady
        } else {
            match find(self.handlers, path_hash) {
                Some(handler) => if Self::allows(handler, self.remote_identity(link_id)) {
                    RequestDispatch::Registered { auto_compress: handler.auto_compress }
                } else {
                    RequestDispatch::Denied
                },
                None => if self.settings.has_request_handler_ex {
                    RequestDispatch::Extended
                } else if self.settings.has_request_handler {
                    RequestDispatch::Plain
                } else {
                    RequestDispatch::Unhandled
                },
            }
        }
    }

    /// The largest packed response that goes out as one packet.
    pub open spec fn response_limit(self, link_id: [u8; 16]) -> usize {
        match find(self.links, link_id) {
            Some(link) => link.mdu,
            None => 0,
        }
    }

    /// A packed response sent: as one packet if it fits, else as a Resource.
    pub open spec fn response_sent(
        self,
        link_id: [u8; 16],
        packed: Seq<u8>,
        built: BuiltResource,
    ) -> Self {
        if packed.len() <= self.response_limit(link_id) {
            match find(self.links, link_id) {
                Some(link) => if link.has_session_keys {
                    self.packet_sent(link_id, PacketContext::Response, packed, true)
                } else {
                    self
                },
                None => self,
            }
        } else {
            self.resource_started(link_id, false, packed.len(), None, built)
        }
    }

    /// A Resource that belongs to an answer sent.
    pub open spec fn reply_resource_sent(
        self,
        link_id: [u8; 16],
        reply: Option<(ResourceTransferStart, BuiltResource)>,
    ) -> Self {
        match reply {
            Some((start, built)) => self.resource_started(
                link_id,
                start.allow_handshake,
                start.data@.len(),
                optional_len(start.metadata),
                built,
            ),
            None => self,
        }
    }

    /// An answer sent: the response, then the file, then what follows.
    pub open spec fn request_answered(
        self,
        link_id: [u8; 16],
        packed: Option<Seq<u8>>,
        response: BuiltResource,
        file: Option<(ResourceTransferStart, BuiltResource)>,
        follow_up: Option<(ResourceTransferStart, BuiltResource)>,
    ) -> Self {
        let s = match packed {
            Some(p) => self.response_sent(link_id, p, response),
            None => self,
        };
        s.reply_resource_sent(link_id, file).reply_resource_sent(link_id, follow_up)
    }
}

/// What an optional response of the plain handler means.
pub fn plain_outcome(response: Option<Vec<u8>>) -> (r: RequestOutcome)
    ensures
        r == (match response {
            Some(data) => RequestOutcome::Reply(data),
            None => RequestOutcome::Drop,
        }),
{
    match response {
        Some(data) => RequestOutcome::Reply(data),
        None => RequestOutcome::Drop,
    }
}

/// Whether a transfer carries `data` and `metadata` as a response to `request_id`, or
/// as a Resource of its own.
pub open spec fn reply_transfer(
    start: ResourceTransferStart,
    data: Vec<u8>,
    metadata: Option<Vec<u8>>,
    auto_compress: bool,
    request_id: Option<Seq<u8>>,
    allow_handshake: bool,
) -> bool {
    &&& start.data == data
    &&& start.metadata == metadata
    &&& start.auto_compress == auto_compress
    &&& bytes_model(start.request_id) == request_id
    &&& start.is_response == (request_id is Some)
    &&& start.allow_handshake == allow_handshake
}

/// The parts of the answer to the request `request_id`.
pub fn reply_parts(outcome: RequestOutcome, request_id: [u8; 16]) -> (r: ReplyParts)
    ensures
        match outcome {
            RequestOutcome::Reply(response) => r.response == Some(response) && r.file is None
                && r.follow_up is None,
            RequestOutcome::ReplyWithResource { ack, data, metadata, auto_compress } => {
                &&& r.response == Some(ack)
                &&& r.file is None
                &&& r.follow_up matches Some(start) && reply_transfer(
                    start,
                    data,
                    metadata,
                    auto_compress,
                    None,
                    true,
                )
            },
            RequestOutcome::ReplyFile { data, metadata, auto_compress } => {
                &&& r.response is None
                &&& r.file matches Some(start) && reply_transfer(
                    start,
                    data,
                    metadata,
                    auto_compress,
                    Some(request_id@),
                    true,
                )
                &&& r.follow_up is None
            },
            RequestOutcome::Drop => r.response is None && r.file is None && r.follow_up is None,
        },
{
    match outcome {
        RequestOutcome::Reply(response) => ReplyParts {
            response: Some(response),
            file: None,
            follow_up: None,
        },
        RequestOutcome::ReplyWithResource { ack, data, metadata, auto_compress } => ReplyParts {
            response: Some(ack),
            file: None,
            follow_up: Some(
                ResourceTransferStart {
                    data,
                    metadata,
                    auto_compress,
                    request_id: None,
                    is_response: false,
                    allow_handshake: true,
                },
            ),
        },
        RequestOutcome::ReplyFile { data, metadata, auto_compress } => ReplyParts {
            response: None,
            file: Some(
                ResourceTransferStart {
                    data,
                    metadata,
                    auto_compress,
                    request_id: Some(copy_bytes(request_id.as_slice())),
                    is_response: true,
                    allow_handshake: true,
                },
            ),
            follow_up: None,
        },
        RequestOutcome::Drop => ReplyParts { response: None, file: None, follow_up: None },
    }
}

/// The Resource that carries a packed response that does not fit into one packet.
pub fn response_resource(packed_response: Vec<u8>, request_id: [u8; 16], auto_compress: bool) -> (r:
    ResourceTransferStart)
    ensures
        reply_transfer(r, packed_response, None, auto_compress, Some(request_id@), false),
{
    ResourceTransferStart {
        data: packed_response,
        metadata: None,
        auto_compress,
        request_id: Some(copy_bytes(request_id.as_slice())),
        is_response: true,
        allow_handshake: false,
    }
}

/// Whether `hash` is among `hashes`.
fn lists_identity(hashes: &Vec<[u8; 16]>, hash: &[u8; 16]) -> (r: bool)
    ensures
        r == hashes@.contains(*hash),
{
    let mut i: usize = 0;
    while i < hashes.len()
        invariant
            i <= hashes.len(),
            forall|j: int| 0 <= j < i ==> hashes@[j] != *hash,
        decreases hashes.len() - i,
    {
        if same_bytes(&hashes[i], hash) {
            assert(hashes@[i as int] == *hash);
            return true;
        }
        i = i + 1;
    }
    false
}

impl LinkManager {
    /// Who answers a request for the path of this hash.
    pub fn dispatch_request(&self, link_id: &[u8; 16], path_hash: &[u8; 16]) -> (r: RequestDispatch)
        ensures
            r == self@.request_dispatch(*link_id, *path_hash),
    {
        let link = match self.links.get(link_id) {
            Some(link) => *link,
            None => {
                return RequestDispatch::NotReady;
            },
        };
        if !(link.state == LinkState::Active || (!link.is_initiator && link.state
            == LinkState::Handshake)) {
            return RequestDispatch::NotReady;
        }
        match self.handlers.get(path_hash) {
            Some(handler) => {
                let allowed: bool = match handler.allow {
                    AllowPolicy::AllowNone => false,
                    AllowPolicy::AllowAll => true,
                    AllowPolicy::AllowList => match link.remote_identity {
                        Some(hash) => lists_identity(&handler.allowed_list, &hash),
                        None => false,
                    },
                };
                if allowed {
                    RequestDispatch::Registered { auto_compress: handler.auto_compress }
                } else {
                    RequestDispatch::Denied
                }
            },
            None => if self.settings.has_request_handler_ex {
                RequestDispatch::Extended
            } else if self.settings.has_request_handler {
                RequestDispatch::Plain
            } else {
                RequestDispatch::Unhandled
            },
        }
    }

    /// What the handler for the request's path is told of it, if it is to be asked.
    pub fn destination_request(&self, link_id: &[u8; 16], request: ParsedRequest) -> (r: Option<
        DestinationRequest,
    >)
        ensures
            match r {
                Some(context) => {
                    &&& self@.request_dispatch(*link_id, request.path_hash) is Registered
                    &&& context.path@ == (find(self@.handlers, request.path_hash)->0).path@
                    &&& context.data == request.data
                    &&& context.request_id == request.request_id
                    &&& context.link_id == *link_id
                    &&& context.remote_identity == self@.remote_identity(*link_id)
                    &&& context.requested_at == request.requested_at
                },
                None => !(self@.request_dispatch(*link_id, request.path_hash) is Registered),
            },
    {
        match self.dispatch_request(link_id, &request.path_hash) {
            RequestDispatch::Registered { .. } => {},
            _ => {
                return None;
            },
        }
        let remote_identity = match self.links.get(link_id) {
            Some(link) => link.remote_identity,
            None => None,
        };
        match self.handlers.get(&request.path_hash) {
            Some(handler) => Some(
                DestinationRequest {
                    path: handler.path.clone(),
                    data: request.data,
                    request_id: request.request_id,
                    link_id: *link_id,
                    remote_identity,
                    requested_at: request.requested_at,
                },
            ),
            None => None,
        }
    }

    /// Whether a packed response of `packed_len` bytes goes out as one packet.
    pub fn response_fits_packet(&self, link_id: &[u8; 16], packed_len: usize) -> (r: bool)
        ensures
            r == (packed_len <= self@.response_limit(*link_id)),
    {
        match self.links.get(link_id) {
            Some(link) => packed_len <= link.mdu,
            None => packed_len == 0,
        }
    }

    fn send_response(&mut self, link_id: &[u8; 16], packed: Vec<u8>, built: BuiltResource)
        ensures
            final(self)@ == old(self)@.response_sent(*link_id, packed@, built),
    {
        if self.response_fits_packet(link_id, packed.len()) {
            let can_seal: bool = match self.links.get(link_id) {
                Some(link) => link.has_session_keys,
                None => false,
            };
            if can_seal {
                self.send_packet_now(link_id, PacketContext::Response, packed, true);
            }
        } else {
            let _ = self.start_resource_transfer(link_id, packed.as_slice(), built);
        }
    }

    /// Sends an answer. `packed` is the response with the request's id, if there is one
    /// that could be packed; `response` is what came of building it as a Resource, which
    /// is used only if it does not fit into one packet. A file and what follows come with
    /// what came of building them.
    pub fn answer_request(
        &mut self,
        link_id: &[u8; 16],
        packed: Option<Vec<u8>>,
        response: BuiltResource,
        file: Option<(ResourceTransferStart, BuiltResource)>,
        follow_up: Option<(ResourceTransferStart, BuiltResource)>,
    )
        ensures
            final(self)@ == old(self)@.request_answered(
                *link_id,
                bytes_model(packed),
                response,
                file,
                follow_up,
            ),
    {
        if let Some(p) = packed {
            self.send_response(link_id, p, response);
        }
        if let Some((start, built)) = file {
            let _ = self.start_resource_transfer_inner(link_id, &start, built);
        }
        if let Some((start, built)) = follow_up {
            let _ = self.start_resource_transfer_inner(link_id, &start, built);
        }
    }

    /// Registers or replaces the handler for `path`, whose truncated hash is
    /// `path_hash`. A path without characters is refused.
    pub fn register_request_handler(
        &mut self,
        path: String,
        path_hash: [u8; 16],
        allow: AllowPolicy,
        allowed_list: Option<Vec<[u8; 16]>>,
        auto_compress: bool,
    ) -> (r: bool)
        ensures
            r == (path@.len() > 0),
            !r ==> final(self)@ == old(self)@,
            r ==> {
                let handler = find(final(self)@.handlers, path_hash)->0;
                &&& present(final(self)@.handlers, path_hash)
                &&& handler.path == path
                &&& handler.allow == allow
                &&& match allowed_list {
                    Some(list) => handler.allowed_list == list,
                    None => handler.allowed_list@ == Seq::<[u8; 16]>::empty(),
                }
                &&& handler.auto_compress == auto_compress
                &&& final(self)@ == (LinkManagerModel {
                    handlers: put(old(self)@.handlers, path_hash, handler),
                    ..old(self)@
                })
            },
    {
        if path.as_str().is_empty() {
            return false;
        }
        let list: Vec<[u8; 16]> = match allowed_list {
            Some(l) => l,
            None => Vec::new(),
        };
        let handler = RegisteredRequestHandler { path, allow, allowed_list: list, auto_compress };
        proof {
            crate::assoc::lemma_find_put(self@.handlers, path_hash, handler, path_hash);
        }
        self.handlers.insert(path_hash, handler);
        true
    }

    /// Removes the handler for the path of this hash, and says whether there was one.
    pub fn deregister_request_handler(&mut self, path_hash: &[u8; 16]) -> (r: bool)
        ensures
            r == present(old(self)@.handlers, *path_hash),
            final(self)@ == (LinkManagerModel {
                handlers: cut(old(self)@.handlers, *path_hash),
                ..old(self)@
            }),
    {
        self.handlers.remove(path_hash).is_some()
    }
}

} // verus!
