//! Making a manager, telling it what its application wants, and asking it what it has.

use vstd::prelude::*;

use crate::assoc::{find, present, put, Assoc};
use crate::destination::identity_can_sign;
use crate::events::{
    DestinationDeliveryProof, LinkChannelMessage, LinkManagerAccountingEvent, LinkPacketProof,
    LinkResourceEvent, LinkResourceProof, LinkResponse, ResourceCompletion,
};
use crate::link::{Link, ResourceStrategy};
use crate::manager::{
    plain_destination, Destination, Effect, LinkManager, LinkManagerModel, ProtocolConstants,
    Settings,
};
use crate::notices::{Notices, NoticesModel};
use crate::port::{Port, PortModel};
use crate::resources::{Resources, ResourcesModel};
use crate::sending::ChannelError;
use crate::transport::{Transport, TransportModel};
use crate::wire::{Message, MessageModel};

verus! {

/// The settings of a fresh manager.
pub open spec fn initial_settings(
    destination_hash: [u8; 16],
    destination: Option<Destination>,
    has_identity_key: bool,
    has_identity: bool,
    constants: ProtocolConstants,
) -> Settings {
    Settings {
        destination_hash,
        destination,
        has_identity_key,
        has_identity,
        has_ratchets: false,
        has_request_handler: false,
        has_request_handler_ex: false,
        has_announce_handler: false,
        has_resource_accept_handler: false,
        has_link_identity_gate: false,
        resource_strategy: ResourceStrategy::AcceptAll,
        use_implicit_proof: true,
        constants,
    }
}

/// The message type for every channel that is open, Link after Link.
pub open spec fn channel_types_added(
    links: Seq<([u8; 16], Link)>,
    message_type: u16,
) -> Seq<Effect>
    decreases links.len(),
{
    if links.len() == 0 {
        Seq::empty()
    } else {
        let rest = channel_types_added(links.drop_last(), message_type);
        let (link_id, link) = links.last();
        if link.has_channel {
            rest.push(Effect::ChannelTypeAdded { link_id, message_type })
        } else {
            rest
        }
    }
}

/// Every Link with the strategy `strategy`.
pub open spec fn with_strategy(links: Seq<([u8; 16], Link)>, strategy: ResourceStrategy) -> Seq<
    ([u8; 16], Link),
> {
    links.map_values(
        |e: ([u8; 16], Link)| (e.0, Link { resource_strategy: strategy, ..e.1 }),
    )
}

impl LinkManagerModel {
    /// A manager without Links.
    pub open spec fn initial(port: PortModel<MessageModel>, settings: Settings) -> Self {
        LinkManagerModel {
            transport: TransportModel::initial(port),
            notices: NoticesModel::initial(),
            resources: ResourcesModel::initial(),
            links: Seq::empty(),
            destination_links: Seq::empty(),
            handlers: Seq::empty(),
            channel_message_types: Seq::empty(),
            backchannel_links: Seq::empty(),
            link_identities: Seq::empty(),
            default_app_data: None,
            effects: Seq::empty(),
            settings,
        }
    }

    pub open spec fn with_settings(self, settings: Settings) -> Self {
        LinkManagerModel { settings, ..self }
    }

    pub open spec fn with_notices(self, notices: NoticesModel) -> Self {
        LinkManagerModel { notices, ..self }
    }
}

impl LinkManager {
    fn with_settings(port: Port<Message>, settings: Settings) -> (r: Self)
        ensures
            r@ == LinkManagerModel::initial(port@, settings),
    {
        LinkManager {
            transport: Transport::new(port),
            notices: Notices::new(),
            resources: Resources::new(),
            links: Assoc::new(),
            destination_links: Assoc::new(),
            handlers: Assoc::new(),
            channel_message_types: Vec::new(),
            backchannel_links: Assoc::new(),
            link_identities: Assoc::new(),
            default_app_data: None,
            effects: Vec::new(),
            settings,
        }
    }

    fn fresh_settings(
        destination_hash: [u8; 16],
        destination: Option<Destination>,
        has_identity_key: bool,
        has_identity: bool,
        constants: ProtocolConstants,
    ) -> (r: Settings)
        ensures
            r == initial_settings(
                destination_hash,
                destination,
                has_identity_key,
                has_identity,
                constants,
            ),
    {
        Settings {
            destination_hash,
            destination,
            has_identity_key,
            has_identity,
            has_ratchets: false,
            has_request_handler: false,
            has_request_handler_ex: false,
            has_announce_handler: false,
            has_resource_accept_handler: false,
            has_link_identity_gate: false,
            resource_strategy: ResourceStrategy::AcceptAll,
            use_implicit_proof: true,
            constants,
        }
    }

    /// A manager without a destination of its own, so that it accepts every Link request
    /// that it can sign.
    pub fn new(
        port: Port<Message>,
        destination_hash: [u8; 16],
        has_identity_key: bool,
        constants: ProtocolConstants,
    ) -> (r: Self)
        ensures
            r@ == LinkManagerModel::initial(
                port@,
                initial_settings(destination_hash, None, has_identity_key, false, constants),
            ),
    {
        Self::with_settings(
            port,
            Self::fresh_settings(destination_hash, None, has_identity_key, false, constants),
        )
    }

    /// A manager that owns a destination, so that acceptance gating is active.
    /// `destination` is the hash of the destination, if it could be made. The manager
    /// keeps the identity only if it can sign: with a private key, or, as
    /// hardware-backed identities do, through a backend.
    pub fn with_destination(
        port: Port<Message>,
        destination: Option<[u8; 16]>,
        has_private_key: bool,
        has_backend: bool,
        has_identity_key: bool,
        constants: ProtocolConstants,
    ) -> (r: Self)
        ensures
            r@ == LinkManagerModel::initial(
                port@,
                initial_settings(
                    r@.settings.destination_hash,
                    match destination {
                        Some(hash) => Some(plain_destination(hash)),
                        None => None,
                    },
                    has_identity_key,
                    has_private_key || has_backend,
                    constants,
                ),
            ),
            match destination {
                Some(hash) => r@.settings.destination_hash == hash,
                None => r@.settings.destination_hash@ == Seq::new(16, |i: int| 0u8),
            },
    {
        let (hash, owned) = match destination {
            Some(hash) => (
                hash,
                Some(
                    Destination {
                        hash,
                        accept_link_requests: true,
                        enforces_ratchets: false,
                        local_ratchet: None,
                    },
                ),
            ),
            None => ([0u8; 16], None),
        };
        assert(destination is None ==> hash@ =~= Seq::new(16, |i: int| 0u8));
        Self::with_settings(
            port,
            Self::fresh_settings(
                hash,
                owned,
                has_identity_key,
                identity_can_sign(has_private_key, has_backend),
                constants,
            ),
        )
    }

    /// The Link over which a peer is reached.
    pub fn get_backchannel_link(&self, identity_hash: &[u8; 16]) -> (r: Option<[u8; 16]>)
        ensures
            r == find(self@.backchannel_links, *identity_hash),
    {
        match self.backchannel_links.get(identity_hash) {
            Some(link_id) => Some(*link_id),
            None => None,
        }
    }

    /// Destination owned by a manager created with [`Self::with_destination`].
    pub fn destination(&self) -> (r: Option<&Destination>)
        ensures
            match r {
                Some(destination) => self@.settings.destination == Some(*destination),
                None => self@.settings.destination is None,
            },
    {
        self.settings.destination.as_ref()
    }

    /// Mutable access to the owned destination.
    pub fn destination_mut(&mut self) -> (r: Option<&mut Destination>)
        ensures
            match r {
                Some(destination) => old(self)@.settings.destination == Some(*destination)
                    && final(self)@ == old(self)@.with_settings(
                    Settings { destination: Some(*final(destination)), ..old(self)@.settings },
                ),
                None => old(self)@.settings.destination is None && final(self)@ == old(self)@,
            },
    {
        self.settings.destination.as_mut()
    }

    /// The authenticated peers of Links, which request handlers may look up. Populated on
    /// identification, pruned on link close.
    pub fn link_identities_handle(&self) -> (r: &Assoc<[u8; 16], [u8; 16]>)
        ensures
            r@ == self@.link_identities,
    {
        &self.link_identities
    }

    pub fn active_link_count(&self) -> (r: usize)
        ensures
            r == self@.links.len(),
    {
        self.links.len()
    }

    /// The ids of the Links.
    pub fn link_ids(&self) -> (r: Vec<[u8; 16]>)
        ensures
            r@ == Seq::new(self@.links.len(), |i: int| self@.links[i].0),
    {
        let mut ids: Vec<[u8; 16]> = Vec::new();
        let mut i: usize = 0;
        while i < self.links.entries.len()
            invariant
                i <= self@.links.len(),
                ids@.len() == i,
                forall|j: int| 0 <= j < i ==> ids@[j] == self@.links[j].0,
            decreases self@.links.len() - i,
        {
            ids.push(self.links.entries[i].0);
            i = i + 1;
        }
        assert(ids@ =~= Seq::new(self@.links.len(), |j: int| self@.links[j].0));
        ids
    }

    pub fn get_link(&self, link_id: &[u8; 16]) -> (r: Option<&Link>)
        ensures
            match r {
                Some(link) => find(self@.links, *link_id) == Some(*link),
                None => !present(self@.links, *link_id),
            },
    {
        self.links.get(link_id)
    }

    pub fn get_link_mut(&mut self, link_id: &[u8; 16]) -> (r: Option<&mut Link>)
        ensures
            match r {
                Some(link) => find(old(self)@.links, *link_id) == Some(*link) && final(self)@ == (
                LinkManagerModel {
                    links: put(old(self)@.links, *link_id, *final(link)),
                    ..old(self)@
                }),
                None => !present(old(self)@.links, *link_id) && final(self)@ == old(self)@,
            },
    {
        self.links.get_mut(link_id)
    }

    /// The immutable interface selected when this established Link was accepted.
    /// Established-Link callers must never infer or re-route this attachment from
    /// current path state.
    pub fn link_interface(&self, link_id: &[u8; 16]) -> (r: Option<u64>)
        ensures
            r == (match find(self@.links, *link_id) {
                Some(link) => Some(link.interface_id),
                None => None,
            }),
    {
        match self.links.get(link_id) {
            Some(link) => Some(link.interface_id),
            None => None,
        }
    }

    /// Opens the Link's channel, unless it is open, and says whether it is. `registered`
    /// says whether the channel would take the application's message types.
    pub fn get_channel(&mut self, link_id: &[u8; 16], registered: bool) -> (r: bool)
        ensures
            final(self)@ == old(self)@.channel_opened(*link_id, registered),
            r == old(self)@.channel_available(*link_id, registered),
    {
        self.ensure_link_channel(link_id, registered)
    }

    /// Sets the inbound Resource policy for current and future responder Links.
    ///
    /// Request and response Resources remain protocol-owned and bypass this policy.
    /// The manager defaults to [`ResourceStrategy::AcceptAll`] for LXMF compatibility.
    pub fn set_resource_strategy(&mut self, strategy: ResourceStrategy)
        ensures
            final(self)@ == (LinkManagerModel {
                links: with_strategy(old(self)@.links, strategy),
                settings: Settings { resource_strategy: strategy, ..old(self)@.settings },
                ..old(self)@
            }),
    {
        self.settings.resource_strategy = strategy;
        let ghost all = self.links@;
        let mut i: usize = 0;
        while i < self.links.entries.len()
            invariant
                i <= all.len(),
                all == old(self)@.links,
                self.links@.len() == all.len(),
                self@ == (LinkManagerModel {
                    links: self.links@,
                    settings: Settings { resource_strategy: strategy, ..old(self)@.settings },
                    ..old(self)@
                }),
                forall|j: int|
                    0 <= j < i ==> #[trigger] self.links@[j] == (
                        all[j].0,
                        (Link { resource_strategy: strategy, ..all[j].1 }),
                    ),
                forall|j: int| i <= j < all.len() ==> #[trigger] self.links@[j] == all[j],
            decreases all.len() - i,
        {
            assert(self.links@[i as int] == all[i as int]);
            self.links.entries[i].1.resource_strategy = strategy;
            i = i + 1;
        }
        assert(self.links@ =~= with_strategy(all, strategy));
    }

    /// Registers a user channel message type for current and future Links: every channel
    /// that is open is to take it too. A type is kept once; a type of the system is
    /// refused.
    ///
    /// Responder applications should call this before the manager runs. Once at least
    /// one type is registered, the first valid inbound channel packet may create the
    /// per-Link channel.
    pub fn register_channel_message_type(&mut self, msg_type: u16) -> (r: Result<(), ChannelError>)
        ensures
            r == (if msg_type >= old(self)@.settings.constants.system_message_type_min {
                Err::<(), ChannelError>(ChannelError::InvalidMessageType(msg_type))
            } else {
                Ok::<(), ChannelError>(())
            }),
            final(self)@ == (LinkManagerModel {
                channel_message_types: if r is Ok && !old(self)@.channel_message_types.contains(
                    msg_type,
                ) {
                    old(self)@.channel_message_types.push(msg_type)
                } else {
                    old(self)@.channel_message_types
                },
                effects: if r is Ok {
                    old(self)@.effects + channel_types_added(old(self)@.links, msg_type)
                } else {
                    old(self)@.effects
                },
                ..old(self)@
            }),
    {
        if msg_type >= self.settings.constants.system_message_type_min {
            return Err(ChannelError::InvalidMessageType(msg_type));
        }
        if !self.knows_message_type(msg_type) {
            self.channel_message_types.push(msg_type);
        }
        let ghost known = self@;
        let ghost all = self.links@;
        assert(all.take(0) =~= Seq::empty());
        assert(self@.effects =~= known.effects + channel_types_added(all.take(0), msg_type));
        let mut i: usize = 0;
        while i < self.links.entries.len()
            invariant
                i <= all.len(),
                all == self.links@,
                known.links == all,
                self@ == (LinkManagerModel {
                    effects: known.effects + channel_types_added(all.take(i as int), msg_type),
                    ..known
                }),
            decreases all.len() - i,
        {
            proof {
                assert(all.take(i + 1).drop_last() =~= all.take(i as int));
                assert(all.take(i + 1).last() == all[i as int]);
            }
            let link_id = self.links.entries[i].0;
            if self.links.entries[i].1.has_channel {
                self.effects.push(
                    Effect::ChannelTypeAdded { link_id, message_type: msg_type },
                );
            }
            i = i + 1;
            assert(self@.effects =~= known.effects + channel_types_added(
                all.take(i as int),
                msg_type,
            ));
        }
        assert(all.take(i as int) =~= all);
        Ok(())
    }

    fn knows_message_type(&self, msg_type: u16) -> (r: bool)
        ensures
            r == self@.channel_message_types.contains(msg_type),
    {
        let mut i: usize = 0;
        while i < self.channel_message_types.len()
            invariant
                i <= self.channel_message_types@.len(),
                forall|j: int| 0 <= j < i ==> self.channel_message_types@[j] != msg_type,
            decreases self.channel_message_types@.len() - i,
        {
            if self.channel_message_types[i] == msg_type {
                assert(self.channel_message_types@.contains(msg_type));
                return true;
            }
            i = i + 1;
        }
        false
    }

    /// Matches the runtime setting for destination proofs.
    pub fn set_use_implicit_proof(&mut self, use_implicit_proof: bool)
        ensures
            final(self)@ == old(self)@.with_settings(
                Settings { use_implicit_proof, ..old(self)@.settings },
            ),
    {
        self.settings.use_implicit_proof = use_implicit_proof;
    }

    /// The application installed a plain request handler.
    pub fn set_request_handler(&mut self)
        ensures
            final(self)@ == old(self)@.with_settings(
                Settings { has_request_handler: true, ..old(self)@.settings },
            ),
    {
        self.settings.has_request_handler = true;
    }

    /// The application installed a handler that may schedule a follow-up resource transfer
    /// (rncp --fetch). It takes precedence over [`Self::set_request_handler`].
    pub fn set_request_handler_ex(&mut self)
        ensures
            final(self)@ == old(self)@.with_settings(
                Settings { has_request_handler_ex: true, ..old(self)@.settings },
            ),
    {
        self.settings.has_request_handler_ex = true;
    }

    /// The application installed an announce handler of its own.
    pub fn set_announce_handler(&mut self)
        ensures
            final(self)@ == old(self)@.with_settings(
                Settings { has_announce_handler: true, ..old(self)@.settings },
            ),
    {
        self.settings.has_announce_handler = true;
    }

    /// The application installed the per-advertisement decision hook used by
    /// [`ResourceStrategy::AcceptApp`].
    pub fn set_resource_accept_handler(&mut self)
        ensures
            final(self)@ == old(self)@.with_settings(
                Settings { has_resource_accept_handler: true, ..old(self)@.settings },
            ),
    {
        self.settings.has_resource_accept_handler = true;
    }

    /// The application removed its decision hook.
    pub fn clear_resource_accept_handler(&mut self)
        ensures
            final(self)@ == old(self)@.with_settings(
                Settings { has_resource_accept_handler: false, ..old(self)@.settings },
            ),
    {
        self.settings.has_resource_accept_handler = false;
    }

    /// The application installed a gate for identified peers.
    pub fn set_link_identity_gate(&mut self)
        ensures
            final(self)@ == old(self)@.with_settings(
                Settings { has_link_identity_gate: true, ..old(self)@.settings },
            ),
    {
        self.settings.has_link_identity_gate = true;
    }

    /// Install the channel for responses to requests.
    pub fn set_response_channel(&mut self, port: Port<LinkResponse>)
        ensures
            final(self)@ == old(self)@.with_notices(
                NoticesModel { response: Some(port@), ..old(self)@.notices },
            ),
    {
        self.notices.response = Some(port);
    }

    /// Install the legacy bounded best-effort completion channel.
    pub fn set_resource_completed_channel(&mut self, port: Port<(Vec<u8>, [u8; 16])>)
        ensures
            final(self)@ == old(self)@.with_notices(
                NoticesModel { resource_completed: Some(port@), ..old(self)@.notices },
            ),
    {
        self.notices.resource_completed = Some(port);
    }

    /// Install the rich bounded best-effort completion channel.
    pub fn set_resource_completion_channel(&mut self, port: Port<ResourceCompletion>)
        ensures
            final(self)@ == old(self)@.with_notices(
                NoticesModel { resource_completion: Some(port@), ..old(self)@.notices },
            ),
    {
        self.notices.resource_completion = Some(port);
    }

    /// Fires when a link reaches the active state.
    pub fn set_link_established_channel(&mut self, port: Port<[u8; 16]>)
        ensures
            final(self)@ == old(self)@.with_notices(
                NoticesModel { link_established: Some(port@), ..old(self)@.notices },
            ),
    {
        self.notices.link_established = Some(port);
    }

    /// Fires on identification before any resource advertisement can race it.
    pub fn set_link_identified_channel(&mut self, port: Port<([u8; 16], [u8; 16])>)
        ensures
            final(self)@ == old(self)@.with_notices(
                NoticesModel { link_identified: Some(port@), ..old(self)@.notices },
            ),
    {
        self.notices.link_identified = Some(port);
    }

    /// Install the decrypted link-packet stream.
    ///
    /// Unbounded and lossless, whatever limit the port had: inbound link data is proved
    /// to the peer on receipt, so the receiver must be drained for the manager's lifetime.
    pub fn set_link_packet_channel(&mut self, port: Port<(Vec<u8>, [u8; 16])>)
        ensures
            final(self)@ == old(self)@.with_notices(
                NoticesModel {
                    link_packet: Some(PortModel { limit: None, ..port@ }),
                    ..old(self)@.notices
                },
            ),
    {
        self.notices.link_packet = Some(Port { limit: None, ..port });
    }

    /// Install the channel for proofs of link packets.
    pub fn set_link_packet_proof_channel(&mut self, port: Port<LinkPacketProof>)
        ensures
            final(self)@ == old(self)@.with_notices(
                NoticesModel { link_packet_proof: Some(port@), ..old(self)@.notices },
            ),
    {
        self.notices.link_packet_proof = Some(port);
    }

    /// Install the channel for proofs of sent Resources.
    pub fn set_outbound_resource_proof_channel(&mut self, port: Port<LinkResourceProof>)
        ensures
            final(self)@ == old(self)@.with_notices(
                NoticesModel { outbound_resource_proof: Some(port@), ..old(self)@.notices },
            ),
    {
        self.notices.outbound_resource_proof = Some(port);
    }

    /// Install the lossless application receiver for validated non-Link packet
    /// delivery proofs. The port loses its limit.
    pub fn set_destination_delivery_proof_channel(&mut self, port: Port<DestinationDeliveryProof>)
        ensures
            final(self)@ == old(self)@.with_notices(
                NoticesModel {
                    destination_delivery_proof: Some(PortModel { limit: None, ..port@ }),
                    ..old(self)@.notices
                },
            ),
    {
        self.notices.destination_delivery_proof = Some(Port { limit: None, ..port });
    }

    /// Install the bounded best-effort Resource lifecycle channel.
    pub fn set_resource_event_channel(&mut self, port: Port<LinkResourceEvent>)
        ensures
            final(self)@ == old(self)@.with_notices(
                NoticesModel { resource_event: Some(port@), ..old(self)@.notices },
            ),
    {
        self.notices.resource_event = Some(port);
    }

    /// Install one ordered, capacity-lossless non-progress accounting stream.
    ///
    /// The port loses its limit. The receiver must be drained for the manager's
    /// lifetime. Existing bounded completion, Resource-event, and Link-close channels
    /// remain independent compatibility notifications.
    pub fn set_accounting_event_channel(&mut self, port: Port<LinkManagerAccountingEvent>)
        ensures
            final(self)@ == old(self)@.with_notices(
                NoticesModel {
                    accounting: Some(PortModel { limit: None, ..port@ }),
                    ..old(self)@.notices
                },
            ),
    {
        self.notices.accounting = Some(Port { limit: None, ..port });
    }

    /// Install the channel for channel messages.
    pub fn set_channel_message_channel(&mut self, port: Port<LinkChannelMessage>)
        ensures
            final(self)@ == old(self)@.with_notices(
                NoticesModel { channel_message: Some(port@), ..old(self)@.notices },
            ),
    {
        self.notices.channel_message = Some(port);
    }

    /// Install the bounded best-effort Link-close channel.
    pub fn set_link_closed_channel(&mut self, port: Port<[u8; 16]>)
        ensures
            final(self)@ == old(self)@.with_notices(
                NoticesModel { link_closed: Some(port@), ..old(self)@.notices },
            ),
    {
        self.notices.link_closed = Some(port);
    }

    /// Raw destination-encrypted packets for app-level decryption (opportunistic LXMF).
    pub fn set_inbound_raw_channel(&mut self, port: Port<Vec<u8>>)
        ensures
            final(self)@ == old(self)@.with_notices(
                NoticesModel { inbound_raw: Some(port@), ..old(self)@.notices },
            ),
    {
        self.notices.inbound_raw = Some(port);
    }
}

} // verus!
