//! What the owner of a manager tells it, and what the transport tells it.

use vstd::prelude::*;

use crate::assoc::{cut, present, put};
use crate::destination::{DestinationAnnounceOptions, DestinationControlError};
use crate::endpoints::{pending_bind, requested_link};
use crate::events::{
    bytes_model, ChannelSendReceipt, DestinationDeliveryProof, LinkPacketSendReceipt,
    LinkPayloadSendReceipt, LinkResourceDirection, LinkResourceSendReceipt,
};
use crate::link::CloseReason;
use crate::manager::{
    AllowPolicy, Destination, Handshake, LinkManager, LinkManagerModel, RegisteredRequestHandler,
    Settings,
};
use crate::notices::NoticesModel;
use crate::packets::{FollowUp, PacketInput};
use crate::port::{notify, offered};
use crate::sending::{
    BuiltResource, ChannelError, ChannelSendError, LinkSendError, PreparedMessage, SealedPacket,
};
use crate::wire::PacketHeader;

verus! {

/// A command of the manager's owner, with what had to be prepared outside for it.
#[derive(Debug)]
pub enum LinkManagerCommand {
    SendChannelMessage {
        link_id: [u8; 16],
        registered: bool,
        prepared: Result<PreparedMessage, ChannelError>,
    },
    SendLinkPacket { link_id: [u8; 16], sealed: Option<SealedPacket> },
    SendLinkResource { link_id: [u8; 16], payload: Vec<u8>, built: BuiltResource },
    SendLinkPayload {
        link_id: [u8; 16],
        payload: Vec<u8>,
        sealed: Option<SealedPacket>,
        built: BuiltResource,
    },
    CancelLinkResource {
        link_id: [u8; 16],
        resource_id: [u8; 32],
        direction: LinkResourceDirection,
    },
    CloseLink {
        link_id: [u8; 16],
        reason: CloseReason,
        send_teardown: bool,
        teardown: Option<Vec<u8>>,
    },
    /// Broadcast an announce of the owned destination.
    Announce { managed: Result<[u8; 32], String>, raw: Result<Vec<u8>, String> },
    /// Broadcast an announce with options.
    AnnounceWith {
        options: DestinationAnnounceOptions,
        managed: Result<[u8; 32], String>,
        raw: Result<Vec<u8>, String>,
    },
    /// Change whether the owned destination accepts new inbound Links.
    SetAcceptsLinks { accepts: bool },
    /// Set or clear the owned destination's default announce application data.
    SetDefaultAppData { app_data: Option<Vec<u8>> },
    /// Register or replace the request handler for a path.
    RegisterRequestHandler {
        path: String,
        path_hash: [u8; 16],
        allow: AllowPolicy,
        allowed_list: Vec<[u8; 16]>,
        auto_compress: bool,
    },
    /// Remove the request handler for a path.
    DeregisterRequestHandler { path_hash: [u8; 16] },
    Shutdown,
}

/// What a command is answered.
#[derive(Debug)]
pub enum CommandOutcome {
    ChannelMessage(Result<ChannelSendReceipt, ChannelSendError>),
    Packet(Result<LinkPacketSendReceipt, LinkSendError>),
    Resource(Result<LinkResourceSendReceipt, LinkSendError>),
    Payload(Result<LinkPayloadSendReceipt, LinkSendError>),
    Cancelled(bool),
    Closed(bool),
    /// The application's own announce handler is to be called.
    CallAnnounceHandler,
    Destination(Result<(), DestinationControlError>),
    Handler(bool),
    /// The manager is to stop.
    Stop,
}

/// Something that the transport reports, with what the Links' own machinery made of it.
#[derive(Debug)]
pub enum DestinationEvent {
    /// A Link was requested. There is no handshake if it was not to be made or failed.
    LinkRequest { interface_id: u64, handshake: Option<Handshake> },
    InboundPacket { header: PacketHeader, interface_id: u64, input: PacketInput },
    /// A packet that is not for a Link.
    DestinationPacket {
        raw: Vec<u8>,
        header: PacketHeader,
        interface_id: u64,
        taken: bool,
        delivery_proof: Option<(Vec<u8>, [u8; 16])>,
    },
    LinkEstablished { link_id: [u8; 16] },
    LinkClosed { link_id: [u8; 16], teardown: Option<Vec<u8>> },
    DeliveryProof { msg_id: String, rtt: Option<std::time::Duration> },
    AnnounceRequested {
        path_response: bool,
        attached_interface: Option<u64>,
        managed: Result<[u8; 32], String>,
        raw: Result<Vec<u8>, String>,
    },
}

/// What is to be done next about an event.
#[derive(Debug)]
pub enum EventOutcome {
    Handled,
    Packet(FollowUp),
    /// The application's own announce handler is to be called.
    CallAnnounceHandler,
}

impl LinkManagerModel {
    /// Whether the manager owns a destination.
    pub open spec fn destination_outcome(self) -> Result<(), DestinationControlError> {
        if self.settings.destination is Some {
            Ok(())
        } else {
            Err(DestinationControlError::DestinationUnavailable)
        }
    }

    /// The owned destination, if any, accepting Links or not.
    pub open spec fn accepting_links(self, accepts: bool) -> Self {
        match self.settings.destination {
            Some(destination) => LinkManagerModel {
                settings: Settings {
                    destination: Some(
                        Destination { accept_link_requests: accepts, ..destination },
                    ),
                    ..self.settings
                },
                ..self
            },
            None => self,
        }
    }

    pub open spec fn with_default_app_data(self, app_data: Option<Seq<u8>>) -> Self {
        if self.settings.destination is Some {
            LinkManagerModel { default_app_data: app_data, ..self }
        } else {
            self
        }
    }

    /// A handler registered for a path. A path without characters is refused.
    pub open spec fn handler_registered(
        self,
        path_hash: [u8; 16],
        handler: RegisteredRequestHandler,
    ) -> Self {
        if handler.path@.len() > 0 {
            LinkManagerModel { handlers: put(self.handlers, path_hash, handler), ..self }
        } else {
            self
        }
    }

    /// What a command is answered.
    pub open spec fn command_outcome(self, command: LinkManagerCommand) -> CommandOutcome {
        match command {
            LinkManagerCommand::SendChannelMessage { link_id, registered, prepared } => {
                CommandOutcome::ChannelMessage(self.channel_result(link_id, registered, prepared))
            },
            LinkManagerCommand::SendLinkPacket { link_id, sealed } => CommandOutcome::Packet(
                self.packet_result(link_id, sealed),
            ),
            LinkManagerCommand::SendLinkResource { link_id, payload, built } => {
                CommandOutcome::Resource(self.resource_result(link_id, payload@.len(), built))
            },
            LinkManagerCommand::SendLinkPayload { link_id, payload, sealed, built } => {
                CommandOutcome::Payload(
                    self.payload_result(link_id, payload@.len() as usize, sealed, built),
                )
            },
            LinkManagerCommand::CancelLinkResource { link_id, resource_id, direction } => {
                CommandOutcome::Cancelled(
                    self.cancellation(link_id, resource_id, direction) is Some,
                )
            },
            LinkManagerCommand::CloseLink { link_id, .. } => CommandOutcome::Closed(
                present(self.links, link_id),
            ),
            LinkManagerCommand::Announce { managed, raw } => {
                if self.settings.has_announce_handler {
                    CommandOutcome::CallAnnounceHandler
                } else {
                    CommandOutcome::Destination(self.announce_outcome(managed, None, raw))
                }
            },
            LinkManagerCommand::AnnounceWith { options, managed, raw } => {
                CommandOutcome::Destination(self.announce_outcome(managed, options.ratchet, raw))
            },
            LinkManagerCommand::SetAcceptsLinks { .. } => CommandOutcome::Destination(
                self.destination_outcome(),
            ),
            LinkManagerCommand::SetDefaultAppData { .. } => CommandOutcome::Destination(
                self.destination_outcome(),
            ),
            LinkManagerCommand::RegisterRequestHandler { path, .. } => CommandOutcome::Handler(
                path@.len() > 0,
            ),
            LinkManagerCommand::DeregisterRequestHandler { path_hash } => CommandOutcome::Handler(
                present(self.handlers, path_hash),
            ),
            LinkManagerCommand::Shutdown => CommandOutcome::Stop,
        }
    }

    /// The state after a command.
    pub open spec fn commanded(self, command: LinkManagerCommand) -> Self {
        match command {
            LinkManagerCommand::SendChannelMessage { link_id, registered, prepared } => {
                self.channel_message_sent(link_id, registered, prepared)
            },
            LinkManagerCommand::SendLinkPacket { link_id, sealed } => self.link_packet_sent(
                link_id,
                crate::wire::PacketContext::Data,
                sealed,
                self.packet_result(link_id, sealed) is Ok,
            ),
            LinkManagerCommand::SendLinkResource { link_id, payload, built } => self.resource_sent(
                link_id,
                payload@.len(),
                built,
            ),
            LinkManagerCommand::SendLinkPayload { link_id, payload, sealed, built } => {
                self.payload_sent(link_id, payload@.len() as usize, sealed, built)
            },
            LinkManagerCommand::CancelLinkResource { link_id, resource_id, direction } => {
                self.resource_cancelled(link_id, resource_id, direction)
            },
            LinkManagerCommand::CloseLink { link_id, reason, send_teardown, teardown } => {
                self.link_closed(link_id, reason, send_teardown, bytes_model(teardown), false)
            },
            LinkManagerCommand::Announce { managed, raw } => {
                if self.settings.has_announce_handler {
                    self
                } else {
                    self.announced(None, managed, None, raw)
                }
            },
            LinkManagerCommand::AnnounceWith { options, managed, raw } => self.announced(
                options.attached_interface,
                managed,
                options.ratchet,
                raw,
            ),
            LinkManagerCommand::SetAcceptsLinks { accepts } => self.accepting_links(accepts),
            LinkManagerCommand::SetDefaultAppData { app_data } => self.with_default_app_data(
                bytes_model(app_data),
            ),
            LinkManagerCommand::RegisterRequestHandler {
                path,
                path_hash,
                allow,
                allowed_list,
                auto_compress,
            } => self.handler_registered(
                path_hash,
                RegisteredRequestHandler { path, allow, allowed_list, auto_compress },
            ),
            LinkManagerCommand::DeregisterRequestHandler { path_hash } => LinkManagerModel {
                handlers: cut(self.handlers, path_hash),
                ..self
            },
            LinkManagerCommand::Shutdown => self,
        }
    }

    /// Whether an announce that was asked for is left to the application's own handler.
    /// A path response never is.
    pub open spec fn defers_announce(self, path_response: bool) -> bool {
        !path_response && self.settings.has_announce_handler
    }

    /// The state after an event.
    pub open spec fn notified(self, event: DestinationEvent) -> Self {
        match event {
            DestinationEvent::LinkRequest { interface_id, handshake } => match handshake {
                Some(h) => self.link_requested(
                    h.link_id,
                    requested_link(self.settings, interface_id, h),
                    pending_bind(self, interface_id, h),
                ),
                None => self,
            },
            DestinationEvent::InboundPacket { header, interface_id, input } => {
                self.packet_handled(header, interface_id, input)
            },
            DestinationEvent::DestinationPacket {
                raw,
                header,
                interface_id,
                taken,
                delivery_proof,
            } => self.destination_packet_received(
                raw,
                interface_id,
                self.retained_proof(header, taken, delivery_proof),
            ),
            DestinationEvent::LinkEstablished { link_id } => LinkManagerModel {
                notices: NoticesModel {
                    link_established: offered(self.notices.link_established, link_id@),
                    ..self.notices
                },
                ..self
            },
            DestinationEvent::LinkClosed { link_id, teardown } => self.link_closed(
                link_id,
                CloseReason::InitiatorClosed,
                true,
                bytes_model(teardown),
                false,
            ),
            DestinationEvent::DeliveryProof { msg_id, rtt } => LinkManagerModel {
                notices: NoticesModel {
                    destination_delivery_proof: offered(
                        self.notices.destination_delivery_proof,
                        DestinationDeliveryProof { msg_id, rtt },
                    ),
                    ..self.notices
                },
                ..self
            },
            DestinationEvent::AnnounceRequested {
                path_response,
                attached_interface,
                managed,
                raw,
            } => if self.defers_announce(path_response) {
                self
            } else {
                self.announced(attached_interface, managed, None, raw)
            },
        }
    }

    /// What is to be done next about an event.
    pub open spec fn event_outcome(self, event: DestinationEvent) -> EventOutcome {
        match event {
            DestinationEvent::InboundPacket { header, interface_id, input } => {
                EventOutcome::Packet(self.follow_up(header, interface_id, input))
            },
            DestinationEvent::AnnounceRequested { path_response, .. } => {
                if self.defers_announce(path_response) {
                    EventOutcome::CallAnnounceHandler
                } else {
                    EventOutcome::Handled
                }
            },
            _ => EventOutcome::Handled,
        }
    }
}

impl LinkManager {
    fn check_destination(&self) -> (r: Result<(), DestinationControlError>)
        ensures
            r == self@.destination_outcome(),
    {
        if self.settings.destination.is_some() {
            Ok(())
        } else {
            Err(DestinationControlError::DestinationUnavailable)
        }
    }

    /// Changes whether the owned destination accepts new inbound Links.
    pub fn set_accepts_links(&mut self, accepts: bool) -> (r: Result<(), DestinationControlError>)
        ensures
            r == old(self)@.destination_outcome(),
            final(self)@ == old(self)@.accepting_links(accepts),
    {
        if let Some(destination) = self.settings.destination {
            self.settings.destination = Some(
                Destination { accept_link_requests: accepts, ..destination },
            );
        }
        self.check_destination()
    }

    /// Sets or clears the default announce application data.
    pub fn set_default_app_data(&mut self, app_data: Option<Vec<u8>>) -> (r: Result<
        (),
        DestinationControlError,
    >)
        ensures
            r == old(self)@.destination_outcome(),
            final(self)@ == old(self)@.with_default_app_data(bytes_model(app_data)),
    {
        if self.settings.destination.is_some() {
            self.default_app_data = app_data;
        }
        self.check_destination()
    }

    /// Carries out a command.
    pub fn handle_command(&mut self, command: LinkManagerCommand) -> (r: CommandOutcome)
        ensures
            r == old(self)@.command_outcome(command),
            final(self)@ == old(self)@.commanded(command),
    {
        match command {
            LinkManagerCommand::SendChannelMessage { link_id, registered, prepared } => {
                CommandOutcome::ChannelMessage(
                    self.send_channel_message(&link_id, registered, prepared),
                )
            },
            LinkManagerCommand::SendLinkPacket { link_id, sealed } => CommandOutcome::Packet(
                self.send_link_packet(&link_id, sealed),
            ),
            LinkManagerCommand::SendLinkResource { link_id, payload, built } => {
                CommandOutcome::Resource(
                    self.send_link_resource(&link_id, payload.as_slice(), built),
                )
            },
            LinkManagerCommand::SendLinkPayload { link_id, payload, sealed, built } => {
                CommandOutcome::Payload(
                    self.send_link_payload(&link_id, payload.as_slice(), sealed, built),
                )
            },
            LinkManagerCommand::CancelLinkResource { link_id, resource_id, direction } => {
                CommandOutcome::Cancelled(
                    self.cancel_link_resource(&link_id, &resource_id, direction),
                )
            },
            LinkManagerCommand::CloseLink { link_id, reason, send_teardown, teardown } => {
                CommandOutcome::Closed(
                    self.close_link(link_id, reason, send_teardown, teardown),
                )
            },
            LinkManagerCommand::Announce { managed, raw } => {
                if self.settings.has_announce_handler {
                    CommandOutcome::CallAnnounceHandler
                } else {
                    CommandOutcome::Destination(
                        self.send_destination_announce(None, managed, None, raw),
                    )
                }
            },
            LinkManagerCommand::AnnounceWith { options, managed, raw } => {
                CommandOutcome::Destination(
                    self.send_destination_announce(
                        options.attached_interface,
                        managed,
                        options.ratchet,
                        raw,
                    ),
                )
            },
            LinkManagerCommand::SetAcceptsLinks { accepts } => CommandOutcome::Destination(
                self.set_accepts_links(accepts),
            ),
            LinkManagerCommand::SetDefaultAppData { app_data } => CommandOutcome::Destination(
                self.set_default_app_data(app_data),
            ),
            LinkManagerCommand::RegisterRequestHandler {
                path,
                path_hash,
                allow,
                allowed_list,
                auto_compress,
            } => CommandOutcome::Handler(
                self.register_request_handler(
                    path,
                    path_hash,
                    allow,
                    Some(allowed_list),
                    auto_compress,
                ),
            ),
            LinkManagerCommand::DeregisterRequestHandler { path_hash } => CommandOutcome::Handler(
                self.deregister_request_handler(&path_hash),
            ),
            LinkManagerCommand::Shutdown => CommandOutcome::Stop,
        }
    }

    /// Closes exactly the requested Link owner, optionally sending a teardown packet
    /// before the endpoint is unbound.
    pub fn close_link(
        &mut self,
        link_id: [u8; 16],
        reason: CloseReason,
        send_teardown: bool,
        teardown: Option<Vec<u8>>,
    ) -> (r: bool)
        ensures
            final(self)@ == old(self)@.link_closed(
                link_id,
                reason,
                send_teardown,
                bytes_model(teardown),
                false,
            ),
            r == present(old(self)@.links, link_id),
    {
        self.close_active_link_inner(link_id, reason, send_teardown, teardown, false)
    }

    /// Deals with something that the transport reports.
    pub fn handle_event(&mut self, event: DestinationEvent) -> (r: EventOutcome)
        ensures
            r == old(self)@.event_outcome(event),
            final(self)@ == old(self)@.notified(event),
    {
        match event {
            DestinationEvent::LinkRequest { interface_id, handshake } => {
                if let Some(h) = handshake {
                    let _ = self.handle_link_request(interface_id, h);
                }
                EventOutcome::Handled
            },
            DestinationEvent::InboundPacket { header, interface_id, input } => {
                EventOutcome::Packet(self.handle_inbound_packet(&header, interface_id, input))
            },
            DestinationEvent::DestinationPacket {
                raw,
                header,
                interface_id,
                taken,
                delivery_proof,
            } => {
                let _ = self.dispatch_destination_packet(
                    raw,
                    &header,
                    interface_id,
                    taken,
                    delivery_proof,
                );
                EventOutcome::Handled
            },
            DestinationEvent::LinkEstablished { link_id } => {
                notify(&mut self.notices.link_established, link_id);
                EventOutcome::Handled
            },
            DestinationEvent::LinkClosed { link_id, teardown } => {
                let _ = self.close_link(link_id, CloseReason::InitiatorClosed, true, teardown);
                EventOutcome::Handled
            },
            DestinationEvent::DeliveryProof { msg_id, rtt } => {
                notify(
                    &mut self.notices.destination_delivery_proof,
                    DestinationDeliveryProof { msg_id, rtt },
                );
                EventOutcome::Handled
            },
            DestinationEvent::AnnounceRequested {
                path_response,
                attached_interface,
                managed,
                raw,
            } => {
                if !path_response && self.settings.has_announce_handler {
                    return EventOutcome::CallAnnounceHandler;
                }
                let _ = self.send_destination_announce(attached_interface, managed, None, raw);
                EventOutcome::Handled
            },
        }
    }
}

/// How long the manager lets pass between two ticks, in milliseconds.
pub const TICK_INTERVAL: u64 = 1000;

/// The course of a manager that takes commands.
#[derive(Debug, Clone, Copy)]
pub struct RunLoop {
    pub last_tick: u64,
    /// Whether the end of the transport's events was acted on.
    pub events_closed: bool,
}

impl RunLoop {
    pub fn new(now: u64) -> (r: Self)
        ensures
            r == (RunLoop { last_tick: now, events_closed: false }),
    {
        RunLoop { last_tick: now, events_closed: false }
    }

    /// Whether every live Link is to be closed now: transport loss is terminal for them,
    /// once. The manager remains available for commands. `events_ended` says whether the
    /// transport's events are over and all dealt with.
    pub fn closes_links(&mut self, events_ended: bool) -> (r: bool)
        ensures
            r == (events_ended && !old(self).events_closed),
            *final(self) == (RunLoop {
                events_closed: old(self).events_closed || events_ended,
                ..*old(self)
            }),
    {
        let close: bool = events_ended && !self.events_closed;
        if close {
            self.events_closed = true;
        }
        close
    }

    /// Whether a tick is due at the time `now`.
    pub fn tick_due(&self, now: u64) -> (r: bool)
        ensures
            r == (now - self.last_tick >= TICK_INTERVAL),
    {
        now >= self.last_tick && now - self.last_tick >= TICK_INTERVAL
    }

    /// Notes that a tick was over at the time `now`, from which the next one is reckoned.
    pub fn ticked(&mut self, now: u64)
        ensures
            *final(self) == (RunLoop { last_tick: now, ..*old(self) }),
    {
        self.last_tick = now;
    }

    /// Whether the manager stops at the end of a round: when nobody can send a command any
    /// more and all are dealt with.
    pub fn stops(&self, commands_closed: bool, commands_empty: bool) -> (r: bool)
        ensures
            r == (commands_closed && commands_empty),
    {
        commands_closed && commands_empty
    }
}

} // verus!
