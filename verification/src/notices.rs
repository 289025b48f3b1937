//! The application's channels.

use std::collections::VecDeque;

use vstd::prelude::*;

use crate::events::{
    AccountingModel, CompletionModel, DestinationDeliveryProof, EventModel,
    LegacyTerminalNotification, LinkChannelMessage, LinkManagerAccountingEvent, LinkPacketProof,
    LinkResourceEvent, LinkResourceProof, LinkResponse, ResourceCompletion,
};
use crate::port::{notify, offered, port_model, Port, PortModel, TrySendError};

verus! {

/// The channels that the application has installed.
pub struct Notices {
    pub response: Option<Port<LinkResponse>>,
    /// Legacy LXMF completion notifier.
    pub resource_completed: Option<Port<(Vec<u8>, [u8; 16])>>,
    /// Resource hash + metadata.
    pub resource_completion: Option<Port<ResourceCompletion>>,
    /// Fires when a link reaches the active state.
    pub link_established: Option<Port<[u8; 16]>>,
    /// Fires on LinkIdentify before a resource advertisement can race it.
    pub link_identified: Option<Port<([u8; 16], [u8; 16])>>,
    /// Decrypted link-packet stream (LXMF DIRECT). Unbounded: inbound link
    /// data is proved to the peer on receipt, so local delivery must not drop.
    pub link_packet: Option<Port<(Vec<u8>, [u8; 16])>>,
    /// Valid proof for an application link packet sent through this manager.
    pub link_packet_proof: Option<Port<LinkPacketProof>>,
    /// Valid proof for an application resource sent through this manager.
    pub outbound_resource_proof: Option<Port<LinkResourceProof>>,
    /// Fires when an active link is closed or torn down.
    pub link_closed: Option<Port<[u8; 16]>>,
    /// Terminal facts that wait for room in the three bounded channels above.
    pub pending_legacy: VecDeque<LegacyTerminalNotification>,
    /// Valid proof for a non-Link packet registered by the owning application.
    /// Unbounded because a validated terminal event must not be discarded after
    /// the network has already acknowledged delivery.
    pub destination_delivery_proof: Option<Port<DestinationDeliveryProof>>,
    /// Unified inbound/outbound Resource lifecycle.
    pub resource_event: Option<Port<LinkResourceEvent>>,
    /// Ordered non-progress accounting stream for owners that cannot tolerate
    /// capacity loss.
    pub accounting: Option<Port<LinkManagerAccountingEvent>>,
    /// Decrypted channel envelopes.
    pub channel_message: Option<Port<LinkChannelMessage>>,
    /// Raw pass-through for non-link packets (e.g. opportunistic LXMF).
    pub inbound_raw: Option<Port<Vec<u8>>>,
}

#[verifier::ext_equal]
pub struct NoticesModel {
    pub response: Option<PortModel<LinkResponse>>,
    pub resource_completed: Option<PortModel<(Seq<u8>, Seq<u8>)>>,
    pub resource_completion: Option<PortModel<CompletionModel>>,
    pub link_established: Option<PortModel<Seq<u8>>>,
    pub link_identified: Option<PortModel<(Seq<u8>, Seq<u8>)>>,
    pub link_packet: Option<PortModel<(Seq<u8>, Seq<u8>)>>,
    pub link_packet_proof: Option<PortModel<LinkPacketProof>>,
    pub outbound_resource_proof: Option<PortModel<LinkResourceProof>>,
    pub link_closed: Option<PortModel<Seq<u8>>>,
    pub pending_legacy: Seq<LegacyTerminalNotification>,
    pub destination_delivery_proof: Option<PortModel<DestinationDeliveryProof>>,
    pub resource_event: Option<PortModel<EventModel>>,
    pub accounting: Option<PortModel<AccountingModel>>,
    pub channel_message: Option<PortModel<LinkChannelMessage>>,
    pub inbound_raw: Option<PortModel<Seq<u8>>>,
}

impl View for Notices {
    type V = NoticesModel;

    open spec fn view(&self) -> NoticesModel {
        NoticesModel {
            response: port_model(self.response),
            resource_completed: port_model(self.resource_completed),
            resource_completion: port_model(self.resource_completion),
            link_established: port_model(self.link_established),
            link_identified: port_model(self.link_identified),
            link_packet: port_model(self.link_packet),
            link_packet_proof: port_model(self.link_packet_proof),
            outbound_resource_proof: port_model(self.outbound_resource_proof),
            link_closed: port_model(self.link_closed),
            pending_legacy: self.pending_legacy@,
            destination_delivery_proof: port_model(self.destination_delivery_proof),
            resource_event: port_model(self.resource_event),
            accounting: port_model(self.accounting),
            channel_message: port_model(self.channel_message),
            inbound_raw: port_model(self.inbound_raw),
        }
    }
}

impl NoticesModel {
    /// No channel installed, nothing pending.
    pub open spec fn initial() -> Self {
        NoticesModel {
            response: None,
            resource_completed: None,
            resource_completion: None,
            link_established: None,
            link_identified: None,
            link_packet: None,
            link_packet_proof: None,
            outbound_resource_proof: None,
            link_closed: None,
            pending_legacy: Seq::empty(),
            destination_delivery_proof: None,
            resource_event: None,
            accounting: None,
            channel_message: None,
            inbound_raw: None,
        }
    }

    pub open spec fn accounted(self, entry: AccountingModel) -> Self {
        NoticesModel { accounting: offered(self.accounting, entry), ..self }
    }

    /// A Resource event: on the accounting stream unless it is mere progress,
    /// then on the best-effort channel.
    pub open spec fn emitted(self, event: EventModel) -> Self {
        let s = if event is Progress {
            self
        } else {
            self.accounted(AccountingModel::ResourceEvent(event))
        };
        NoticesModel { resource_event: offered(s.resource_event, event), ..s }
    }

    /// A completed inbound Resource, on each of the three channels for it.
    pub open spec fn completed(self, completion: CompletionModel) -> Self {
        let s = self.accounted(AccountingModel::ResourceCompletion(completion));
        NoticesModel {
            resource_completion: offered(s.resource_completion, completion),
            resource_completed: offered(
                s.resource_completed,
                (completion.data, completion.link_id@),
            ),
            ..s
        }
    }

    /// The pending terminal facts, delivered in order until one has no room. One
    /// without a receiver is dropped.
    pub open spec fn legacy_flushed(self) -> Self
        decreases self.pending_legacy.len(),
    {
        if self.pending_legacy.len() == 0 {
            self
        } else {
            let rest = NoticesModel { pending_legacy: self.pending_legacy.skip(1), ..self };
            match self.pending_legacy[0] {
                LegacyTerminalNotification::PacketProof(proof) => {
                    match self.link_packet_proof {
                        Some(port) => if !port.closed && port.full() {
                            self
                        } else {
                            NoticesModel {
                                link_packet_proof: Some(port.offer(proof)),
                                ..rest
                            }.legacy_flushed()
                        },
                        None => rest.legacy_flushed(),
                    }
                },
                LegacyTerminalNotification::ResourceProof(proof) => {
                    match self.outbound_resource_proof {
                        Some(port) => if !port.closed && port.full() {
                            self
                        } else {
                            NoticesModel {
                                outbound_resource_proof: Some(port.offer(proof)),
                                ..rest
                            }.legacy_flushed()
                        },
                        None => rest.legacy_flushed(),
                    }
                },
                LegacyTerminalNotification::LinkClosed(link_id) => {
                    match self.link_closed {
                        Some(port) => if !port.closed && port.full() {
                            self
                        } else {
                            NoticesModel {
                                link_closed: Some(port.offer(link_id@)),
                                ..rest
                            }.legacy_flushed()
                        },
                        None => rest.legacy_flushed(),
                    }
                },
            }
        }
    }

    /// A terminal fact after those that are pending.
    pub open spec fn legacy_staged(self, n: LegacyTerminalNotification) -> Self {
        NoticesModel { pending_legacy: self.pending_legacy.push(n), ..self }.legacy_flushed()
    }

    /// A valid proof of an ordinary packet.
    pub open spec fn packet_proved(self, proof: LinkPacketProof) -> Self {
        self.accounted(AccountingModel::LinkPacketProof(proof)).legacy_staged(
            LegacyTerminalNotification::PacketProof(proof),
        )
    }

    /// A Link came to its end.
    pub open spec fn link_ended(self, link_id: [u8; 16]) -> Self {
        self.accounted(AccountingModel::LinkClosed { link_id }).legacy_staged(
            LegacyTerminalNotification::LinkClosed(link_id),
        )
    }
}

impl Notices {
    pub fn new() -> (r: Self)
        ensures
            r@ == NoticesModel::initial(),
    {
        Notices {
            response: None,
            resource_completed: None,
            resource_completion: None,
            link_established: None,
            link_identified: None,
            link_packet: None,
            link_packet_proof: None,
            outbound_resource_proof: None,
            link_closed: None,
            pending_legacy: VecDeque::new(),
            destination_delivery_proof: None,
            resource_event: None,
            accounting: None,
            channel_message: None,
            inbound_raw: None,
        }
    }

    pub fn account(&mut self, entry: LinkManagerAccountingEvent)
        ensures
            final(self)@ == old(self)@.accounted(entry@),
    {
        notify(&mut self.accounting, entry);
    }

    pub fn emit_resource_event(&mut self, event: LinkResourceEvent)
        ensures
            final(self)@ == old(self)@.emitted(event@),
    {
        match &event {
            LinkResourceEvent::Progress { .. } => {},
            _ => {
                if self.accounting.is_some() {
                    self.account(LinkManagerAccountingEvent::ResourceEvent(event.copy()));
                }
            },
        }
        notify(&mut self.resource_event, event);
    }

    pub fn emit_resource_completion(&mut self, completion: ResourceCompletion)
        ensures
            final(self)@ == old(self)@.completed(completion@),
    {
        if self.accounting.is_some() {
            self.account(LinkManagerAccountingEvent::ResourceCompletion(completion.copy()));
        }
        if self.resource_completion.is_some() {
            notify(&mut self.resource_completion, completion.copy());
        }
        notify(&mut self.resource_completed, (completion.data, completion.link_id));
    }

    /// Delivers the pending terminal facts in order, until one has no room.
    pub fn flush_legacy_terminal_notifications(&mut self)
        ensures
            final(self)@ == old(self)@.legacy_flushed(),
    {
        let mut going: bool = true;
        while going
            invariant
                self@.legacy_flushed() == old(self)@.legacy_flushed(),
                !going ==> self@ == old(self)@.legacy_flushed(),
            decreases self.pending_legacy@.len() + (if going {
                1int
            } else {
                0int
            }),
        {
            let ghost before = self@;
            match self.pending_legacy.pop_front() {
                None => {
                    going = false;
                },
                Some(event) => {
                    let ghost queue = before.pending_legacy;
                    assert(queue.subrange(1, queue.len() as int) =~= queue.skip(1));
                    match event {
                        LegacyTerminalNotification::PacketProof(proof) => {
                            if let Some(port) = &mut self.link_packet_proof {
                                if let Err(TrySendError::Full(_)) = port.try_send(proof) {
                                    going = false;
                                }
                            }
                        },
                        LegacyTerminalNotification::ResourceProof(proof) => {
                            if let Some(port) = &mut self.outbound_resource_proof {
                                if let Err(TrySendError::Full(_)) = port.try_send(proof) {
                                    going = false;
                                }
                            }
                        },
                        LegacyTerminalNotification::LinkClosed(link_id) => {
                            if let Some(port) = &mut self.link_closed {
                                if let Err(TrySendError::Full(_)) = port.try_send(link_id) {
                                    going = false;
                                }
                            }
                        },
                    }
                    if !going {
                        self.pending_legacy.push_front(event);
                        assert(self.pending_legacy@ =~= queue);
                        assert(self@ =~= before);
                    }
                },
            }
        }
    }

    pub fn stage_legacy_terminal_notification(&mut self, event: LegacyTerminalNotification)
        ensures
            final(self)@ == old(self)@.legacy_staged(event),
    {
        self.pending_legacy.push_back(event);
        self.flush_legacy_terminal_notifications();
    }

    pub fn packet_proof(&mut self, proof: LinkPacketProof)
        ensures
            final(self)@ == old(self)@.packet_proved(proof),
    {
        self.account(LinkManagerAccountingEvent::LinkPacketProof(proof));
        self.stage_legacy_terminal_notification(LegacyTerminalNotification::PacketProof(proof));
    }

    pub fn link_end(&mut self, link_id: [u8; 16])
        ensures
            final(self)@ == old(self)@.link_ended(link_id),
    {
        self.account(LinkManagerAccountingEvent::LinkClosed { link_id });
        self.stage_legacy_terminal_notification(LegacyTerminalNotification::LinkClosed(link_id));
    }
}

} // verus!
