//! What the passing of time does to a Link.

use vstd::prelude::*;

use crate::assoc::{find, lemma_find_cut, lemma_find_put, present, ResourceKey};
use crate::deliveries::{lemma_owes_no_more, open, owes_no_more, told};
use crate::endings::{other_links_live_on, tears_down_with};
use crate::events::{ConclusionModel, EventModel, LinkResourceDirection};
use crate::laws::lemma_close_transport;
use crate::link::{CloseReason, Link, LinkState, TransferAction};
use crate::manager::{Effect, LinkManagerModel};
use crate::outgoing::{
    carries, carries_out, holds_more, lemma_action_goes_out, lemma_outbound_is_over, only_sends,
    outbound_is_over, outgoing, sends_more, takes_packet,
};
use crate::port::PortModel;
use crate::tick::{ChannelTimeout, LinkAction, LinkRemoval, WatchdogAction};
use crate::wire::{MessageModel, PacketContext, PacketType};

verus! {

/// Whether a port takes `n` more messages.
pub open spec fn has_room(port: PortModel<MessageModel>, n: nat) -> bool {
    !port.closed && match port.limit {
        Some(limit) => port.sent.len() + n <= limit,
        None => true,
    }
}

/// Channel messages that were not proved in time go out again, one packet for each, in
/// order and with their own bodies. Those that are given up or left alone send nothing.
pub proof fn channel_messages_go_out_again(
    m: LinkManagerModel,
    link_id: [u8; 16],
    timeouts: Seq<ChannelTimeout>,
)
    requires
        present(m.links, link_id),
        forall|i: int| 0 <= i < timeouts.len() ==> (#[trigger] timeouts[i]) is Resend,
        has_room(m.transport.port, timeouts.len()),
    ensures
        ({
            let s = m.channel_timeouts(link_id, timeouts);
            let n = m.transport.port.sent.len();
            &&& s.transport.port.sent.len() == n + timeouts.len()
            &&& m.transport.port.sent.is_prefix_of(s.transport.port.sent)
            &&& forall|i: int|
                0 <= i < timeouts.len() ==> carries(
                    s.transport.port.sent[n + i],
                    link_id,
                    find(m.links, link_id)->0,
                    PacketType::Data,
                    PacketContext::Channel,
                    ((#[trigger] timeouts[i])->Resend_0)@,
                    false,
                )
            &&& s.transport.control == m.transport.control
            &&& only_sends(m, s)
            &&& s.effects.len() == m.effects.len() + timeouts.len()
        }),
    decreases timeouts.len(),
{
    if timeouts.len() > 0 {
        let front = timeouts.drop_last();
        assert forall|i: int| 0 <= i < front.len() implies (#[trigger] front[i]) is Resend by {
            assert(front[i] == timeouts[i]);
        }
        channel_messages_go_out_again(m, link_id, front);
        let mid = m.channel_timeouts(link_id, front);
        let s = m.channel_timeouts(link_id, timeouts);
        let n = m.transport.port.sent.len();
        assert(timeouts[timeouts.len() - 1] is Resend);
        assert(s.transport.port.sent == mid.transport.port.sent.push(s.transport.port.sent.last()));
        assert forall|i: int| 0 <= i < timeouts.len() implies carries(
            s.transport.port.sent[n + i],
            link_id,
            find(m.links, link_id)->0,
            PacketType::Data,
            PacketContext::Channel,
            ((#[trigger] timeouts[i])->Resend_0)@,
            false,
        ) by {
            if i < front.len() {
                assert(front[i] == timeouts[i]);
                assert(s.transport.port.sent[n + i] == mid.transport.port.sent[n + i]);
            }
        }
        assert forall|i: int| 0 <= i < n implies m.transport.port.sent[i]
            == s.transport.port.sent[i] by {
            assert(mid.transport.port.sent[i] == m.transport.port.sent[i]);
        }
        assert(m.transport.port.sent.is_prefix_of(s.transport.port.sent));
    }
}

/// A message that is given up, or left alone, sends nothing.
pub proof fn settled_channel_messages_stay(m: LinkManagerModel, link_id: [u8; 16])
    ensures
        m.channel_timed_out(link_id, ChannelTimeout::GiveUp) == m,
        m.channel_timed_out(link_id, ChannelTimeout::Nothing) == m,
{
}

/// What the watchdogs of inbound segments ask for goes out, one packet for each, in order
/// and with their own payloads.
pub proof fn inbound_watchdogs_are_heard(
    m: LinkManagerModel,
    link_id: [u8; 16],
    watchdogs: Seq<WatchdogAction>,
)
    requires
        present(m.links, link_id),
        (find(m.links, link_id)->0).has_session_keys,
        forall|i: int|
            0 <= i < watchdogs.len() ==> takes_packet((#[trigger] watchdogs[i]).action) && present(
                m.resources.inbound,
                ResourceKey { link_id, hash: watchdogs[i].segment },
            ),
        holds_more(m.transport, watchdogs.len()),
    ensures
        ({
            let s = m.inbound_watchdogs(link_id, watchdogs);
            &&& sends_more(m, s, watchdogs.len())
            &&& forall|i: int|
                0 <= i < watchdogs.len() ==> carries_out(
                    outgoing(s)[outgoing(m).len() + i],
                    link_id,
                    find(m.links, link_id)->0,
                    (#[trigger] watchdogs[i]).action,
                )
            &&& only_sends(m, s)
            &&& s.transport.control.len() <= m.transport.control.len() + watchdogs.len()
        }),
    decreases watchdogs.len(),
{
    if watchdogs.len() > 0 {
        let front = watchdogs.drop_last();
        let last = watchdogs.last();
        assert(watchdogs[watchdogs.len() - 1] == last);
        assert forall|i: int| 0 <= i < front.len() implies takes_packet(
            (#[trigger] front[i]).action,
        ) && present(
            m.resources.inbound,
            ResourceKey { link_id, hash: front[i].segment },
        ) by {
            assert(front[i] == watchdogs[i]);
        }
        inbound_watchdogs_are_heard(m, link_id, front);
        let mid = m.inbound_watchdogs(link_id, front);
        let s = m.inbound_watchdogs(link_id, watchdogs);
        lemma_action_goes_out(mid, link_id, last.action);
        assert(s == mid.action_sent(link_id, last.action@));
        assert forall|i: int| 0 <= i < watchdogs.len() implies carries_out(
            outgoing(s)[outgoing(m).len() + i],
            link_id,
            find(m.links, link_id)->0,
            (#[trigger] watchdogs[i]).action,
        ) by {
            if i < front.len() {
                assert(front[i] == watchdogs[i]);
                assert(outgoing(s)[outgoing(m).len() + i] == outgoing(mid)[outgoing(m).len() + i]);
            }
        }
        assert forall|i: int| 0 <= i < outgoing(m).len() implies outgoing(m)[i]
            == outgoing(s)[i] by {
            assert(outgoing(mid)[i] == outgoing(m)[i]);
        }
        assert(outgoing(m).is_prefix_of(outgoing(s)));
    }
}

/// What the watchdogs of outbound segments ask for goes out, one packet for each, in order
/// and with their own payloads.
pub proof fn outbound_watchdogs_are_heard(
    m: LinkManagerModel,
    link_id: [u8; 16],
    watchdogs: Seq<WatchdogAction>,
)
    requires
        present(m.links, link_id),
        (find(m.links, link_id)->0).has_session_keys,
        forall|i: int|
            0 <= i < watchdogs.len() ==> takes_packet((#[trigger] watchdogs[i]).action),
        holds_more(m.transport, watchdogs.len()),
    ensures
        ({
            let s = m.outbound_watchdogs(link_id, watchdogs);
            &&& sends_more(m, s, watchdogs.len())
            &&& forall|i: int|
                0 <= i < watchdogs.len() ==> carries_out(
                    outgoing(s)[outgoing(m).len() + i],
                    link_id,
                    find(m.links, link_id)->0,
                    (#[trigger] watchdogs[i]).action,
                )
            &&& only_sends(m, s)
            &&& s.transport.control.len() <= m.transport.control.len() + watchdogs.len()
        }),
    decreases watchdogs.len(),
{
    if watchdogs.len() > 0 {
        let front = watchdogs.drop_last();
        let last = watchdogs.last();
        assert(watchdogs[watchdogs.len() - 1] == last);
        assert forall|i: int| 0 <= i < front.len() implies takes_packet(
            (#[trigger] front[i]).action,
        ) by {
            assert(front[i] == watchdogs[i]);
        }
        outbound_watchdogs_are_heard(m, link_id, front);
        let mid = m.outbound_watchdogs(link_id, front);
        let s = m.outbound_watchdogs(link_id, watchdogs);
        lemma_action_goes_out(mid, link_id, last.action);
        assert(s == mid.action_sent(link_id, last.action@));
        assert forall|i: int| 0 <= i < watchdogs.len() implies carries_out(
            outgoing(s)[outgoing(m).len() + i],
            link_id,
            find(m.links, link_id)->0,
            (#[trigger] watchdogs[i]).action,
        ) by {
            if i < front.len() {
                assert(front[i] == watchdogs[i]);
                assert(outgoing(s)[outgoing(m).len() + i] == outgoing(mid)[outgoing(m).len() + i]);
            }
        }
        assert forall|i: int| 0 <= i < outgoing(m).len() implies outgoing(m)[i]
            == outgoing(s)[i] by {
            assert(outgoing(mid)[i] == outgoing(m)[i]);
        }
        assert(outgoing(m).is_prefix_of(outgoing(s)));
    }
}

/// A watchdog that has given up ends the Resource of its segment in its own words: an owed
/// inbound one fails and is owed no more, an outbound one is over.
pub proof fn watchdogs_give_up(
    m: LinkManagerModel,
    link_id: [u8; 16],
    segment: [u8; 32],
    why: String,
)
    ensures
        ({
            let key = ResourceKey { link_id, hash: segment };
            let watchdog = WatchdogAction { segment, action: TransferAction::Failed(why) };
            let id = match find(m.resources.routes, key) {
                Some(route) => route.original_hash,
                None => segment,
            };
            let s = m.inbound_watched(link_id, watchdog);
            &&& !present(m.resources.inbound, key) ==> s == m
            &&& present(m.resources.inbound, key) ==> owes_no_more(
                m.resources,
                s.resources,
                link_id,
                id,
            ) && s.transport == m.transport
            &&& present(m.resources.inbound, key) && present(
                m.resources.lifecycles,
                ResourceKey { link_id, hash: id },
            ) ==> told(
                m.notices,
                s.notices,
                EventModel::Concluded {
                    link_id,
                    resource_id: id,
                    direction: LinkResourceDirection::Inbound,
                    conclusion: ConclusionModel::Failed(why@),
                },
            )
            &&& present(m.resources.outbound, key) ==> outbound_is_over(
                m,
                m.outbound_watched(link_id, watchdog),
                link_id,
                segment,
                ConclusionModel::Failed(why@),
            )
        }),
{
    let key = ResourceKey { link_id, hash: segment };
    let id = match find(m.resources.routes, key) {
        Some(route) => route.original_hash,
        None => segment,
    };
    lemma_owes_no_more(m, link_id, id);
    if present(m.resources.outbound, key) {
        lemma_outbound_is_over(m, link_id, segment, ConclusionModel::Failed(why@));
    }
}

/// A Link whose timer asks for a keepalive sends one, with the single byte that asks for an
/// answer. A Link that has gone stale is stale from then on, and an initiator asks too.
pub proof fn timers_are_heard(m: LinkManagerModel, link_id: [u8; 16])
    requires
        present(m.links, link_id),
        open(m.transport.port),
    ensures
        ({
            let link = find(m.links, link_id)->0;
            let s = m.link_timer_ticked(link_id, LinkAction::SendKeepalive);
            let t = m.link_timer_ticked(link_id, LinkAction::TransitionedToStale);
            &&& asks_for_life(m, s, link_id)
            &&& only_sends(m, s)
            &&& find(t.links, link_id) == Some(Link { state: LinkState::Stale, ..link })
            &&& only_sends(m, LinkManagerModel { links: m.links, ..t })
            &&& link.is_initiator ==> asks_for_life(m, t, link_id)
            &&& !link.is_initiator ==> t.transport == m.transport && t.effects == m.effects
            &&& m.link_timer_ticked(link_id, LinkAction::Nothing) == m
            &&& m.timer_removal(link_id, LinkAction::Nothing) is None
            &&& m.timer_removal(link_id, LinkAction::SendKeepalive) is None
            &&& m.timer_removal(link_id, LinkAction::TransitionedToStale) is None
        }),
{
    let link = find(m.links, link_id)->0;
    lemma_find_put(m.links, link_id, Link { state: LinkState::Stale, ..link }, link_id);
}

/// Whether exactly one keepalive request went straight into the port.
pub open spec fn asks_for_life(
    before: LinkManagerModel,
    after: LinkManagerModel,
    link_id: [u8; 16],
) -> bool {
    let n = before.transport.port.sent.len();
    &&& after.transport.port.sent.len() == n + 1
    &&& before.transport.port.sent.is_prefix_of(after.transport.port.sent)
    &&& carries(
        after.transport.port.sent[n as int],
        link_id,
        find(before.links, link_id)->0,
        PacketType::Data,
        PacketContext::Keepalive,
        seq![before.settings.constants.keepalive_request],
        false,
    )
    &&& after.transport.control == before.transport.control
    &&& after.effects == before.effects.push(
        Effect::Transmitted { link_id, len: 1, sealed: false, keepalive: true },
    )
}

/// A Link whose timer has run out sends the teardown that it made, as its endpoint's last
/// packet, and is to be closed; without a teardown it is to be closed all the same, and its
/// endpoint is to be released.
pub proof fn timed_out_link_is_torn_down(m: LinkManagerModel, link_id: [u8; 16], data: Vec<u8>)
    requires
        present(m.links, link_id),
        holds_more(m.transport, 1),
    ensures
        ({
            let action = LinkAction::SendTeardownAndClose(data);
            let s = m.link_timer_ticked(link_id, action);
            let removal = m.timer_removal(link_id, action);
            &&& removal is Some
            &&& (removal->0).link_id == link_id
            &&& (removal->0).endpoint_closing == (data@.len() > 0)
            &&& data@.len() > 0 ==> sends_more(m, s, 1) && tears_down_with(
                outgoing(s).last(),
                link_id,
                find(m.links, link_id)->0,
                data@,
            )
            &&& data@.len() == 0 ==> s == m
            &&& m.timer_removal(link_id, LinkAction::Closed(CloseReason::Timeout)) == Some(
                LinkRemoval { link_id, endpoint_closing: false },
            )
        }),
{
    let s = m.link_timer_ticked(link_id, LinkAction::SendTeardownAndClose(data));
    assert(outgoing(m).is_prefix_of(outgoing(s)));
}

/// At the end of a tick exactly the Links that are to be closed are gone.
pub proof fn removed_links_are_gone(
    m: LinkManagerModel,
    removals: Seq<LinkRemoval>,
    link_id: [u8; 16],
)
    ensures
        ({
            let s = m.links_removed(removals);
            let listed = exists|i: int|
                0 <= i < removals.len() && (#[trigger] removals[i]).link_id == link_id;
            &&& listed ==> !present(s.links, link_id)
            &&& !listed ==> find(s.links, link_id) == find(m.links, link_id)
        }),
    decreases removals.len(),
{
    if removals.len() > 0 {
        let front = removals.drop_last();
        let last = removals.last();
        removed_links_are_gone(m, front, link_id);
        let mid = m.links_removed(front);
        let listed = exists|i: int|
            0 <= i < removals.len() && (#[trigger] removals[i]).link_id == link_id;
        assert(removals[removals.len() - 1] == last);
        if listed && last.link_id != link_id {
            let i = choose|i: int|
                0 <= i < removals.len() && (#[trigger] removals[i]).link_id == link_id;
            assert(front[i].link_id == link_id);
        }
        if !listed {
            assert forall|i: int| 0 <= i < front.len() implies (#[trigger] front[i]).link_id
                != link_id by {
                assert(removals[i] == front[i]);
            }
        }
        if last.link_id != link_id {
            other_links_live_on(
                mid,
                last.link_id,
                CloseReason::Timeout,
                false,
                None,
                last.endpoint_closing,
                link_id,
            );
        } else if present(mid.links, link_id) {
            lemma_close_transport(
                mid,
                link_id,
                CloseReason::Timeout,
                false,
                None,
                last.endpoint_closing,
            );
            lemma_find_cut(mid.links, link_id, link_id);
        }
    }
}

/// A Link is kept alive by the Resources that it carries, and by nothing else.
pub proof fn busy_links_carry_resources(m: LinkManagerModel, link_id: [u8; 16])
    ensures
        m.busy(link_id) <==> (exists|i: int|
            0 <= i < m.resources.inbound.len() && (
            #[trigger] m.resources.inbound[i]).0.link_id == link_id) || (exists|i: int|
            0 <= i < m.resources.outbound.len() && (
            #[trigger] m.resources.outbound[i]).0.link_id == link_id),
{
}

} // verus!
