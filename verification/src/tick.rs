//! What time brings: retries, overdue segments, keepalives and stale Links; and how
//! everything is given up at the end.

use vstd::prelude::*;

use crate::assoc::{find, present, put, same_bytes, Assoc, ResourceKey};
use crate::events::{ConclusionModel, LinkResourceConclusion};
use crate::link::{Action, CloseReason, Link, LinkState, TransferAction};
use crate::manager::{LinkManager, LinkManagerModel};
use crate::resources::{key_of, logical_id, overdue_ids};
use crate::transport::TransportModel;
use crate::wire::{link_packet, PacketContext, PacketType};

verus! {

/// What a channel makes of a message that was not proved in time.
#[derive(Debug)]
pub enum ChannelTimeout {
    /// It is sent again.
    Resend(Vec<u8>),
    /// It was sent too often: its Link goes.
    GiveUp,
    /// It is left alone.
    Nothing,
}

/// What a Link's own timers ask for.
#[derive(Debug)]
pub enum LinkAction {
    Nothing,
    SendKeepalive,
    TransitionedToStale,
    SendTeardownAndClose(Vec<u8>),
    Closed(CloseReason),
}

/// A Link that is to be closed at the end of a tick. `endpoint_closing` says that its
/// endpoint goes with a packet that is staged already.
#[derive(Debug, Clone, Copy)]
pub struct LinkRemoval {
    pub link_id: [u8; 16],
    pub endpoint_closing: bool,
}

/// What a segment's watchdog asks for.
#[derive(Debug)]
pub struct WatchdogAction {
    pub segment: [u8; 32],
    pub action: Action,
}

impl LinkManagerModel {
    /// A keepalive request sent at once.
    pub open spec fn keepalive_sent(self, link_id: [u8; 16]) -> Self {
        self.packet_sent(
            link_id,
            PacketContext::Keepalive,
            seq![self.settings.constants.keepalive_request],
            false,
        )
    }

    /// A channel message that was not proved in time.
    pub open spec fn channel_timed_out(self, link_id: [u8; 16], timeout: ChannelTimeout) -> Self {
        match timeout {
            ChannelTimeout::Resend(data) => self.packet_sent(
                link_id,
                PacketContext::Channel,
                data@,
                false,
            ),
            _ => self,
        }
    }

    pub open spec fn channel_timeouts(
        self,
        link_id: [u8; 16],
        timeouts: Seq<ChannelTimeout>,
    ) -> Self
        decreases timeouts.len(),
    {
        if timeouts.len() == 0 {
            self
        } else {
            self.channel_timeouts(link_id, timeouts.drop_last()).channel_timed_out(
                link_id,
                timeouts.last(),
            )
        }
    }

    /// The watchdog of an inbound segment, if the segment is still on its way.
    pub open spec fn inbound_watched(self, link_id: [u8; 16], watchdog: WatchdogAction) -> Self {
        if !present(self.resources.inbound, key_of(link_id, watchdog.segment)) {
            self
        } else {
            match watchdog.action@ {
                TransferAction::Failed(reason) => self.inbound_concluded(
                    link_id,
                    logical_id(self.resources.routes, key_of(link_id, watchdog.segment)),
                    ConclusionModel::Failed(reason),
                ),
                action => self.action_sent(link_id, action),
            }
        }
    }

    pub open spec fn inbound_watchdogs(
        self,
        link_id: [u8; 16],
        watchdogs: Seq<WatchdogAction>,
    ) -> Self
        decreases watchdogs.len(),
    {
        if watchdogs.len() == 0 {
            self
        } else {
            self.inbound_watchdogs(link_id, watchdogs.drop_last()).inbound_watched(
                link_id,
                watchdogs.last(),
            )
        }
    }

    /// The watchdog of an outbound segment.
    pub open spec fn outbound_watched(self, link_id: [u8; 16], watchdog: WatchdogAction) -> Self {
        match watchdog.action@ {
            TransferAction::Failed(reason) => self.outbound_ended(
                link_id,
                watchdog.segment,
                ConclusionModel::Failed(reason),
            ),
            action => self.action_sent(link_id, action),
        }
    }

    pub open spec fn outbound_watchdogs(
        self,
        link_id: [u8; 16],
        watchdogs: Seq<WatchdogAction>,
    ) -> Self
        decreases watchdogs.len(),
    {
        if watchdogs.len() == 0 {
            self
        } else {
            self.outbound_watchdogs(link_id, watchdogs.drop_last()).outbound_watched(
                link_id,
                watchdogs.last(),
            )
        }
    }

    /// The Resources of the Link whose next segment is overdue, given up.
    pub open spec fn overdue_failed(self, link_id: [u8; 16], now: u64) -> Self {
        self.inbound_failed_each(
            link_id,
            overdue_ids(self.resources.lifecycles, link_id, now),
            "timed out waiting for the next Resource segment"@,
        )
    }

    /// The traffic of one Link, as time goes by.
    pub open spec fn link_traffic_ticked(
        self,
        link_id: [u8; 16],
        now: u64,
        channel: Seq<ChannelTimeout>,
        inbound: Seq<WatchdogAction>,
        outbound: Seq<WatchdogAction>,
    ) -> Self {
        self.channel_timeouts(link_id, channel).inbound_watchdogs(link_id, inbound).overdue_failed(
            link_id,
            now,
        ).outbound_watchdogs(link_id, outbound)
    }

    /// Whether the Link carries Resources, which keeps it alive.
    pub open spec fn busy(self, link_id: [u8; 16]) -> bool {
        on_link(self.resources.inbound, link_id) || on_link(self.resources.outbound, link_id)
    }

    /// What the Link's timers ask for, done.
    pub open spec fn link_timer_ticked(self, link_id: [u8; 16], action: LinkAction) -> Self {
        match find(self.links, link_id) {
            None => self,
            Some(link) => match action {
                LinkAction::SendKeepalive => self.keepalive_sent(link_id),
                LinkAction::TransitionedToStale => {
                    let s = LinkManagerModel {
                        links: put(self.links, link_id, Link { state: LinkState::Stale, ..link }),
                        ..self
                    };
                    if link.is_initiator {
                        s.keepalive_sent(link_id)
                    } else {
                        s
                    }
                },
                LinkAction::SendTeardownAndClose(data) => if data@.len() > 0 {
                    LinkManagerModel {
                        transport: self.transport.final_packet_staged(
                            link_id,
                            link.role_model(),
                            link_packet(
                                link_id,
                                PacketType::Data,
                                PacketContext::LinkClose,
                                data@,
                                false,
                            ),
                        ),
                        ..self
                    }
                } else {
                    self
                },
                _ => self,
            },
        }
    }

    /// Whether the Link is to be closed at the end of the tick.
    pub open spec fn timer_removal(self, link_id: [u8; 16], action: LinkAction) -> Option<
        LinkRemoval,
    > {
        match action {
            LinkAction::SendTeardownAndClose(data) => Some(
                LinkRemoval {
                    link_id,
                    endpoint_closing: present(self.links, link_id) && data@.len() > 0
                        && self.transport.retains(true),
                },
            ),
            LinkAction::Closed(_) => Some(LinkRemoval { link_id, endpoint_closing: false }),
            _ => None,
        }
    }

    pub open spec fn links_removed(self, removals: Seq<LinkRemoval>) -> Self
        decreases removals.len(),
    {
        if removals.len() == 0 {
            self
        } else {
            let r = removals.last();
            self.links_removed(removals.drop_last()).link_closed(
                r.link_id,
                CloseReason::Timeout,
                false,
                None,
                r.endpoint_closing,
            )
        }
    }

    /// What the transport has answered, acted on, and what waits, sent as far as there
    /// is room.
    pub open spec fn attended(self) -> Self {
        let s = self.endpoints_polled();
        LinkManagerModel {
            transport: s.transport.control_flushed().announces_flushed(),
            notices: s.notices.legacy_flushed(),
            ..s
        }
    }

    /// Whether nothing of an endpoint is left.
    pub open spec fn settled(self) -> bool {
        &&& self.transport.binds.len() == 0
        &&& self.transport.sends.len() == 0
        &&& self.transport.cleanups.len() == 0
        &&& self.transport.control.len() == 0
        &&& self.transport.tombstones.len() == 0
    }

    /// Everything that only a transport that is gone could settle, given up.
    pub open spec fn abandoned(self) -> Self {
        LinkManagerModel {
            transport: TransportModel {
                binds: Seq::empty(),
                sends: Seq::empty(),
                cleanups: Seq::empty(),
                control: Seq::empty(),
                tombstones: Seq::empty(),
                owned: Seq::empty(),
                generations: Seq::empty(),
                ..self.transport
            },
            ..self
        }
    }

    /// One round of giving everything up.
    pub open spec fn shutdown_round(self) -> Self {
        let s1 = self.with_transport(self.transport.control_flushed()).endpoints_polled();
        let s2 = s1.with_transport(s1.transport.control_flushed());
        if !s2.settled() && s2.transport.port.closed {
            s2.abandoned()
        } else {
            s2
        }
    }

    /// Whether that round is the last.
    pub open spec fn shutdown_done(self) -> bool {
        let s1 = self.with_transport(self.transport.control_flushed()).endpoints_polled();
        let s2 = s1.with_transport(s1.transport.control_flushed());
        s2.settled() || s2.transport.port.closed
    }
}

/// Whether some entry is on the Link.
pub open spec fn on_link<V>(s: Seq<(ResourceKey, V)>, link_id: [u8; 16]) -> bool {
    exists|i: int| 0 <= i < s.len() && (#[trigger] s[i]).0.link_id == link_id
}

fn any_on_link<V>(s: &Assoc<ResourceKey, V>, link_id: &[u8; 16]) -> (r: bool)
    ensures
        r == on_link(s@, *link_id),
{
    let mut i: usize = 0;
    while i < s.entries.len()
        invariant
            i <= s@.len(),
            forall|j: int| 0 <= j < i ==> (#[trigger] s@[j]).0.link_id != *link_id,
        decreases s@.len() - i,
    {
        if same_bytes(&s.entries[i].0.link_id, link_id) {
            assert(s@[i as int].0.link_id == *link_id);
            return true;
        }
        i = i + 1;
    }
    false
}

/// How many of the timeouts give their Link up.
pub open spec fn given_up(timeouts: Seq<ChannelTimeout>) -> nat
    decreases timeouts.len(),
{
    if timeouts.len() == 0 {
        0
    } else {
        given_up(timeouts.drop_last()) + (if timeouts.last() is GiveUp {
            1nat
        } else {
            0nat
        })
    }
}

/// `removals` with the Link of `n` given-up messages added that often.
pub open spec fn with_removals(removals: Seq<LinkRemoval>, link_id: [u8; 16], n: nat) -> Seq<
    LinkRemoval,
>
    decreases n,
{
    if n == 0 {
        removals
    } else {
        with_removals(removals, link_id, (n - 1) as nat).push(
            LinkRemoval { link_id, endpoint_closing: false },
        )
    }
}

impl LinkManager {
    fn send_keepalive_packet(&mut self, link_id: &[u8; 16])
        ensures
            final(self)@ == old(self)@.keepalive_sent(*link_id),
    {
        let mut body: Vec<u8> = Vec::new();
        body.push(self.settings.constants.keepalive_request);
        assert(body@ =~= seq![self.settings.constants.keepalive_request]);
        self.send_packet_now(link_id, PacketContext::Keepalive, body, false);
    }

    fn tick_channel(
        &mut self,
        link_id: &[u8; 16],
        timeouts: Vec<ChannelTimeout>,
        removals: &mut Vec<LinkRemoval>,
    )
        ensures
            final(self)@ == old(self)@.channel_timeouts(*link_id, timeouts@),
            final(removals)@ == with_removals(old(removals)@, *link_id, given_up(timeouts@)),
    {
        let ghost all = timeouts@;
        let mut rest = timeouts;
        let ghost mut n: int = 0;
        while rest.len() > 0
            invariant
                0 <= n <= all.len(),
                rest@ == all.skip(n),
                self@ == old(self)@.channel_timeouts(*link_id, all.take(n)),
                removals@ == with_removals(old(removals)@, *link_id, given_up(all.take(n))),
            decreases rest@.len(),
        {
            let timeout = rest.remove(0);
            proof {
                assert(all.take(n + 1).drop_last() =~= all.take(n));
                assert(all.take(n + 1).last() == all[n]);
                assert(rest@ =~= all.skip(n + 1));
                n = n + 1;
            }
            match timeout {
                ChannelTimeout::Resend(data) => {
                    self.send_packet_now(link_id, PacketContext::Channel, data, false);
                },
                ChannelTimeout::GiveUp => {
                    removals.push(LinkRemoval { link_id: *link_id, endpoint_closing: false });
                },
                ChannelTimeout::Nothing => {},
            }
        }
        assert(all.take(n) =~= all);
    }

    fn tick_inbound(&mut self, link_id: &[u8; 16], watchdogs: Vec<WatchdogAction>)
        ensures
            final(self)@ == old(self)@.inbound_watchdogs(*link_id, watchdogs@),
    {
        let ghost all = watchdogs@;
        let mut rest = watchdogs;
        let ghost mut n: int = 0;
        while rest.len() > 0
            invariant
                0 <= n <= all.len(),
                rest@ == all.skip(n),
                self@ == old(self)@.inbound_watchdogs(*link_id, all.take(n)),
            decreases rest@.len(),
        {
            let watchdog = rest.remove(0);
            proof {
                assert(all.take(n + 1).drop_last() =~= all.take(n));
                assert(all.take(n + 1).last() == all[n]);
                assert(rest@ =~= all.skip(n + 1));
                n = n + 1;
            }
            let key = ResourceKey { link_id: *link_id, hash: watchdog.segment };
            if self.resources.inbound.contains(&key) {
                match watchdog.action {
                    TransferAction::Failed(reason) => {
                        let id = self.resources.inbound_resource_identity(
                            link_id,
                            &watchdog.segment,
                        ).id;
                        let _ = self.conclude_inbound_failure(
                            *link_id,
                            id,
                            LinkResourceConclusion::Failed(reason),
                        );
                    },
                    retry => {
                        let _ = self.send_resource_action(link_id, retry);
                    },
                }
            }
        }
        assert(all.take(n) =~= all);
    }

    fn tick_outbound(&mut self, link_id: &[u8; 16], watchdogs: Vec<WatchdogAction>)
        ensures
            final(self)@ == old(self)@.outbound_watchdogs(*link_id, watchdogs@),
    {
        let ghost all = watchdogs@;
        let mut rest = watchdogs;
        let ghost mut n: int = 0;
        while rest.len() > 0
            invariant
                0 <= n <= all.len(),
                rest@ == all.skip(n),
                self@ == old(self)@.outbound_watchdogs(*link_id, all.take(n)),
            decreases rest@.len(),
        {
            let watchdog = rest.remove(0);
            proof {
                assert(all.take(n + 1).drop_last() =~= all.take(n));
                assert(all.take(n + 1).last() == all[n]);
                assert(rest@ =~= all.skip(n + 1));
                n = n + 1;
            }
            match watchdog.action {
                TransferAction::Failed(reason) => {
                    self.fail_outbound(*link_id, watchdog.segment, reason);
                },
                retry => {
                    let _ = self.send_resource_action(link_id, retry);
                },
            }
        }
        assert(all.take(n) =~= all);
    }

    fn fail_overdue(&mut self, link_id: &[u8; 16], now: u64)
        ensures
            final(self)@ == old(self)@.overdue_failed(*link_id, now),
    {
        let ids = self.resources.overdue_inbound_logical_ids(*link_id, now);
        let ghost all = ids@;
        let mut i: usize = 0;
        while i < ids.len()
            invariant
                i <= all.len(),
                all == ids@,
                self@ == old(self)@.inbound_failed_each(
                    *link_id,
                    all.take(i as int),
                    "timed out waiting for the next Resource segment"@,
                ),
            decreases all.len() - i,
        {
            proof {
                assert(all.take(i + 1).drop_last() =~= all.take(i as int));
                assert(all.take(i + 1).last() == all[i as int]);
            }
            let _ = self.conclude_inbound_failure(
                *link_id,
                ids[i],
                LinkResourceConclusion::Failed(
                    "timed out waiting for the next Resource segment".to_owned(),
                ),
            );
            i = i + 1;
        }
        assert(all.take(i as int) =~= all);
    }

    /// Looks after the traffic of one Link at the time `now`: channel messages that were
    /// not proved in time, what the watchdogs of its segments ask for, and segments that
    /// are overdue. A Link whose channel gives up is added to `removals`. Says whether
    /// the Link still carries Resources.
    pub fn tick_link_traffic(
        &mut self,
        link_id: &[u8; 16],
        now: u64,
        channel: Vec<ChannelTimeout>,
        inbound: Vec<WatchdogAction>,
        outbound: Vec<WatchdogAction>,
        removals: &mut Vec<LinkRemoval>,
    ) -> (r: bool)
        ensures
            final(self)@ == old(self)@.link_traffic_ticked(
                *link_id,
                now,
                channel@,
                inbound@,
                outbound@,
            ),
            final(removals)@ == with_removals(old(removals)@, *link_id, given_up(channel@)),
            r == old(self)@.link_traffic_ticked(
                *link_id,
                now,
                channel@,
                inbound@,
                outbound@,
            ).busy(*link_id),
    {
        self.tick_channel(link_id, channel, removals);
        self.tick_inbound(link_id, inbound);
        self.fail_overdue(link_id, now);
        self.tick_outbound(link_id, outbound);
        any_on_link(&self.resources.inbound, link_id) || any_on_link(
            &self.resources.outbound,
            link_id,
        )
    }

    /// Does what the Link's timers ask for. A Link that is to be closed is added to
    /// `removals`.
    pub fn tick_link_timer(
        &mut self,
        link_id: &[u8; 16],
        action: LinkAction,
        removals: &mut Vec<LinkRemoval>,
    )
        ensures
            final(self)@ == old(self)@.link_timer_ticked(*link_id, action),
            final(removals)@ == (match old(self)@.timer_removal(*link_id, action) {
                Some(removal) => old(removals)@.push(removal),
                None => old(removals)@,
            }),
    {
        let link = match self.links.get(link_id) {
            Some(link) => Some(*link),
            None => None,
        };
        match action {
            LinkAction::Nothing => {},
            LinkAction::SendKeepalive => {
                self.send_keepalive_packet(link_id);
            },
            LinkAction::TransitionedToStale => {
                if let Some(mut stale) = link {
                    stale.state = LinkState::Stale;
                    let initiator: bool = stale.is_initiator;
                    self.links.insert(*link_id, stale);
                    if initiator {
                        self.send_keepalive_packet(link_id);
                    }
                }
            },
            LinkAction::SendTeardownAndClose(data) => {
                let mut endpoint_closing: bool = false;
                if let Some(stale) = link {
                    if data.len() > 0 {
                        endpoint_closing = self.transport.send_link_close_packet(
                            *link_id,
                            stale.endpoint_role(),
                            data,
                        );
                    }
                }
                removals.push(LinkRemoval { link_id: *link_id, endpoint_closing });
            },
            LinkAction::Closed(_) => {
                removals.push(LinkRemoval { link_id: *link_id, endpoint_closing: false });
            },
        }
    }

    /// Closes the Links that a tick has found to be closed.
    pub fn finish_tick(&mut self, removals: Vec<LinkRemoval>)
        ensures
            final(self)@ == old(self)@.links_removed(removals@),
    {
        let ghost all = removals@;
        let mut i: usize = 0;
        while i < removals.len()
            invariant
                i <= all.len(),
                all == removals@,
                self@ == old(self)@.links_removed(all.take(i as int)),
            decreases all.len() - i,
        {
            proof {
                assert(all.take(i + 1).drop_last() =~= all.take(i as int));
                assert(all.take(i + 1).last() == all[i as int]);
            }
            let removal = removals[i];
            let _ = self.close_active_link_inner(
                removal.link_id,
                CloseReason::Timeout,
                false,
                None,
                removal.endpoint_closing,
            );
            i = i + 1;
        }
        assert(all.take(i as int) =~= all);
    }

    /// Acts on what the transport has answered, and sends what waits. Says whether the
    /// transport had answered anything.
    pub fn attend(&mut self) -> (r: bool)
        ensures
            final(self)@ == old(self)@.attended(),
            r == old(self)@.endpoints_progress(),
    {
        let progressed: bool = self.poll_link_endpoints();
        self.transport.flush_pending_link_control();
        self.transport.flush_pending_destination_announces();
        self.notices.flush_legacy_terminal_notifications();
        progressed
    }

    /// Closes every Link without a packet to its peer.
    pub fn close_all_active_links(&mut self, reason: CloseReason)
        ensures
            final(self)@ == old(self)@.links_dropped(
                Seq::new(old(self)@.links.len(), |i: int| old(self)@.links[i].0),
                reason,
            ),
    {
        let mut ids: Vec<[u8; 16]> = Vec::new();
        let mut i: usize = 0;
        while i < self.links.entries.len()
            invariant
                i <= self@.links.len(),
                *self == *old(self),
                ids@.len() == i,
                forall|j: int| 0 <= j < i ==> ids@[j] == self@.links[j].0,
            decreases self@.links.len() - i,
        {
            ids.push(self.links.entries[i].0);
            i = i + 1;
        }
        let ghost all = ids@;
        assert(all =~= Seq::new(old(self)@.links.len(), |j: int| old(self)@.links[j].0));
        let mut k: usize = 0;
        while k < ids.len()
            invariant
                k <= all.len(),
                all == ids@,
                self@ == old(self)@.links_dropped(all.take(k as int), reason),
            decreases all.len() - k,
        {
            proof {
                assert(all.take(k + 1).drop_last() =~= all.take(k as int));
                assert(all.take(k + 1).last() == all[k as int]);
            }
            let _ = self.drop_active_link(ids[k], reason);
            k = k + 1;
        }
        assert(all.take(k as int) =~= all);
    }

    /// One round of giving up what is owned, once every Link is closed. Says whether
    /// nothing is left to wait for.
    pub fn shutdown_step(&mut self) -> (r: bool)
        ensures
            final(self)@ == old(self)@.shutdown_round(),
            r == old(self)@.shutdown_done(),
    {
        self.transport.flush_pending_link_control();
        let _ = self.poll_link_endpoints();
        self.transport.flush_pending_link_control();
        if self.transport.binds.is_empty() && self.transport.sends.len() == 0
            && self.transport.cleanups.len() == 0 && self.transport.control.len() == 0
            && self.transport.tombstones.is_empty() {
            return true;
        }
        if self.transport.port.closed {
            self.transport.binds.clear();
            self.transport.sends.clear();
            self.transport.cleanups.clear();
            self.transport.control.clear();
            self.transport.tombstones.clear();
            self.transport.owned.clear();
            self.transport.generations.clear();
            proof {
                assert(crate::transport::models(self.transport.control@) =~= Seq::empty());
            }
            return true;
        }
        false
    }
}

} // verus!
