//! Runs of a channel: what a sequence of hub operations does to one channel
//! and, in order, to the connections around it, with the laws that hold of
//! every run.

use crate::message::NotificationView;
use crate::server::{broadcast_effects, ChannelView, EffectView};
use vstd::prelude::*;

verus! {

/// One operation on a channel.
pub enum ChannelEvent {
    /// A broadcaster joins.
    Takeover(u64),
    /// A watcher joins.
    AddWatcher(u64),
    /// The broadcaster's notification is fanned out.
    Fanout(NotificationView),
    /// The handler of a broadcaster ends.
    Release(u64),
}

/// The channel after one operation, and the effects of the operation.
pub open spec fn step(channel: ChannelView, event: ChannelEvent) -> (ChannelView, Seq<EffectView>) {
    match event {
        ChannelEvent::Takeover(stream) => (channel.takeover(stream), channel.takeover_effects()),
        ChannelEvent::AddWatcher(stream) => (
            channel.add_watcher(stream),
            channel.add_watcher_effects(),
        ),
        ChannelEvent::Fanout(notification) => (channel, channel.fanout(notification)),
        ChannelEvent::Release(stream) => (channel.release(stream), Seq::empty()),
    }
}

/// The channel after a sequence of operations, and all their effects in
/// order.
pub open spec fn run(channel: ChannelView, events: Seq<ChannelEvent>) -> (ChannelView, Seq<EffectView>)
    decreases events.len(),
{
    if events.len() == 0 {
        (channel, Seq::empty())
    } else {
        let (before, effects) = run(channel, events.drop_last());
        let (after, more) = step(before, events.last());
        (after, effects + more)
    }
}

/// The notifications that the effects send to the connection `to`, in
/// order.
pub open spec fn delivered(effects: Seq<EffectView>, to: u64) -> Seq<NotificationView>
    decreases effects.len(),
{
    if effects.len() == 0 {
        Seq::empty()
    } else {
        let before = delivered(effects.drop_last(), to);
        match effects.last() {
            EffectView::Notify { to: receiver, notification } => if receiver == to {
                before.push(notification)
            } else {
                before
            },
            _ => before,
        }
    }
}

/// The notifications that the operations fan out, in order.
pub open spec fn fanned(events: Seq<ChannelEvent>) -> Seq<NotificationView>
    decreases events.len(),
{
    if events.len() == 0 {
        Seq::empty()
    } else {
        let before = fanned(events.drop_last());
        match events.last() {
            ChannelEvent::Fanout(notification) => before.push(notification),
            _ => before,
        }
    }
}

/// Whether no operation makes `stream` a broadcaster.
pub open spec fn never_broadcasts(events: Seq<ChannelEvent>, stream: u64) -> bool {
    forall|i: int| 0 <= i < events.len() ==> events[i] != ChannelEvent::Takeover(stream)
}

/// Whether no operation makes `stream` a watcher.
pub open spec fn never_watches(events: Seq<ChannelEvent>, stream: u64) -> bool {
    forall|i: int| 0 <= i < events.len() ==> events[i] != ChannelEvent::AddWatcher(stream)
}

/// The broadcasters of a channel, as a set.
pub open spec fn broadcasters(channel: ChannelView) -> Set<u64> {
    match channel.broadcaster {
        Some(stream) => set![stream],
        None => Set::empty(),
    }
}

/// Every operation keeps a well-formed channel well formed.
pub proof fn lemma_step_keeps_wf(channel: ChannelView, event: ChannelEvent)
    requires
        channel.wf(),
    ensures
        step(channel, event).0.wf(),
{
}

/// Every run keeps a well-formed channel well formed.
pub proof fn lemma_run_keeps_wf(channel: ChannelView, events: Seq<ChannelEvent>)
    requires
        channel.wf(),
    ensures
        run(channel, events).0.wf(),
    decreases events.len(),
{
    if events.len() > 0 {
        lemma_run_keeps_wf(channel, events.drop_last());
        lemma_step_keeps_wf(run(channel, events.drop_last()).0, events.last());
    }
}

/// At any point of any run, a channel has at most one broadcaster.
pub proof fn lemma_at_most_one_broadcaster(channel: ChannelView, events: Seq<ChannelEvent>)
    ensures
        broadcasters(run(channel, events).0).finite(),
        broadcasters(run(channel, events).0).len() <= 1,
{
}

/// A run of two parts is the run of the second part from where the first
/// part ended, with the effects of the first part before those of the
/// second.
pub proof fn lemma_run_concat(
    channel: ChannelView,
    first: Seq<ChannelEvent>,
    second: Seq<ChannelEvent>,
)
    ensures
        run(channel, first + second).0 == run(run(channel, first).0, second).0,
        run(channel, first + second).1 == run(channel, first).1 + run(
            run(channel, first).0,
            second,
        ).1,
    decreases second.len(),
{
    if second.len() == 0 {
        assert(first + second =~= first);
        assert(run(channel, first).1 + Seq::<EffectView>::empty() =~= run(channel, first).1);
    } else {
        assert((first + second).drop_last() =~= first + second.drop_last());
        assert((first + second).last() == second.last());
        lemma_run_concat(channel, first, second.drop_last());
        let middle = run(channel, first).0;
        let more = step(run(middle, second.drop_last()).0, second.last()).1;
        assert((run(channel, first).1 + run(middle, second.drop_last()).1) + more =~= run(
            channel,
            first,
        ).1 + (run(middle, second.drop_last()).1 + more));
    }
}

/// What two lists of effects deliver is what the first delivers, then what
/// the second delivers.
pub proof fn lemma_delivered_concat(first: Seq<EffectView>, second: Seq<EffectView>, to: u64)
    ensures
        delivered(first + second, to) == delivered(first, to) + delivered(second, to),
    decreases second.len(),
{
    if second.len() == 0 {
        assert(first + second =~= first);
        assert(delivered(first, to) + Seq::<NotificationView>::empty() =~= delivered(first, to));
    } else {
        assert((first + second).drop_last() =~= first + second.drop_last());
        assert((first + second).last() == second.last());
        lemma_delivered_concat(first, second.drop_last(), to);
        let before = delivered(second.drop_last(), to);
        match second.last() {
            EffectView::Notify { to: receiver, notification } => {
                if receiver == to {
                    assert((delivered(first, to) + before).push(notification) =~= delivered(
                        first,
                        to,
                    ) + before.push(notification));
                }
            },
            _ => {},
        }
    }
}

/// A fanout delivers its notification once to each watcher, and nothing to
/// any other connection.
pub proof fn lemma_fanout_delivers_once(
    channel: ChannelView,
    notification: NotificationView,
    to: u64,
)
    requires
        channel.wf(),
    ensures
        delivered(channel.fanout(notification), to) == if channel.watchers.contains(to) {
            seq![notification]
        } else {
            Seq::<NotificationView>::empty()
        },
    decreases channel.watchers.len(),
{
    let effects = channel.fanout(notification);
    if channel.watchers.len() > 0 {
        let shorter = ChannelView {
            broadcaster: channel.broadcaster,
            watchers: channel.watchers.drop_last(),
        };
        assert(effects.drop_last() =~= shorter.fanout(notification));
        lemma_fanout_delivers_once(shorter, notification, to);
        let last = channel.watchers.last();
        assert(effects.last() == EffectView::Notify { to: last, notification });
        if last == to {
            assert(!shorter.watchers.contains(to)) by {
                if shorter.watchers.contains(to) {
                    let k = choose|k: int| 0 <= k < shorter.watchers.len() && shorter.watchers[k] == to;
                    assert(channel.watchers[k] == to);
                    assert(channel.watchers[channel.watchers.len() - 1] == to);
                }
            }
            assert(channel.watchers.contains(to));
            assert(Seq::<NotificationView>::empty().push(notification) =~= seq![notification]);
        } else {
            assert(channel.watchers.contains(to) == shorter.watchers.contains(to)) by {
                if channel.watchers.contains(to) {
                    let k = choose|k: int| 0 <= k < channel.watchers.len() && channel.watchers[k] == to;
                    assert(shorter.watchers[k] == to);
                }
                if shorter.watchers.contains(to) {
                    let k = choose|k: int| 0 <= k < shorter.watchers.len() && shorter.watchers[k] == to;
                    assert(channel.watchers[k] == to);
                }
            }
        }
    }
}

/// A connection that is neither watcher nor broadcaster, and is made
/// neither by the run, receives nothing, and is neither at the end.
pub proof fn lemma_stranger_receives_nothing(
    channel: ChannelView,
    events: Seq<ChannelEvent>,
    stream: u64,
)
    requires
        channel.wf(),
        !channel.watchers.contains(stream),
        channel.broadcaster != Some(stream),
        never_watches(events, stream),
        never_broadcasts(events, stream),
    ensures
        delivered(run(channel, events).1, stream) == Seq::<NotificationView>::empty(),
        !run(channel, events).0.watchers.contains(stream),
        run(channel, events).0.broadcaster != Some(stream),
        run(channel, events).0.wf(),
    decreases events.len(),
{
    if events.len() > 0 {
        let earlier = events.drop_last();
        assert(never_watches(earlier, stream));
        assert(never_broadcasts(earlier, stream));
        lemma_stranger_receives_nothing(channel, earlier, stream);
        let (before, effects) = run(channel, earlier);
        let (after, more) = step(before, events.last());
        lemma_delivered_concat(effects, more, stream);
        lemma_step_keeps_wf(before, events.last());
        assert(events[events.len() - 1] == events.last());
        match events.last() {
            ChannelEvent::Takeover(new) => {
                lemma_notices_reach_only_the_broadcaster(before, stream);
            },
            ChannelEvent::AddWatcher(new) => {
                lemma_notices_reach_only_the_broadcaster(before, stream);
                if !before.watchers.contains(new) {
                    assert(!before.watchers.push(new).contains(stream)) by {
                        if before.watchers.push(new).contains(stream) {
                            let k = choose|k: int|
                                0 <= k < before.watchers.push(new).len() && before.watchers.push(
                                    new,
                                )[k] == stream;
                            assert(before.watchers[k] == stream);
                        }
                    }
                }
            },
            ChannelEvent::Fanout(notification) => {
                lemma_fanout_delivers_once(before, notification, stream);
            },
            ChannelEvent::Release(other) => {
                assert(delivered(more, stream) =~= Seq::<NotificationView>::empty());
            },
        }
        assert(delivered(effects, stream) + delivered(more, stream) =~= Seq::<
            NotificationView,
        >::empty());
    }
}

/// What a takeover and the arrival of a watcher send goes to the
/// broadcaster alone.
pub proof fn lemma_notices_reach_only_the_broadcaster(channel: ChannelView, stream: u64)
    requires
        channel.broadcaster != Some(stream),
    ensures
        delivered(channel.takeover_effects(), stream) == Seq::<NotificationView>::empty(),
        delivered(channel.add_watcher_effects(), stream) == Seq::<NotificationView>::empty(),
{
    reveal_with_fuel(delivered, 3);
    match channel.broadcaster {
        Some(former) => {
            let taken = channel.takeover_effects();
            assert(taken.drop_last() =~= seq![
                EffectView::Notify {
                    to: former,
                    notification: NotificationView::Closed("Broadcaster has changed"@),
                },
            ]);
            assert(taken.drop_last().drop_last() =~= Seq::<EffectView>::empty());
            let told = channel.add_watcher_effects();
            assert(told.drop_last() =~= Seq::<EffectView>::empty());
        },
        None => {},
    }
}

/// From the moment a watcher has joined, it receives exactly what is fanned
/// out, in order and each notification once, as long as it does not become
/// a broadcaster.
pub proof fn lemma_watcher_receives_what_is_fanned_out(
    channel: ChannelView,
    events: Seq<ChannelEvent>,
    watcher: u64,
)
    requires
        channel.wf(),
        channel.watchers.contains(watcher),
        channel.broadcaster != Some(watcher),
        never_broadcasts(events, watcher),
    ensures
        delivered(run(channel, events).1, watcher) == fanned(events),
        run(channel, events).0.watchers.contains(watcher),
        run(channel, events).0.broadcaster != Some(watcher),
        run(channel, events).0.wf(),
    decreases events.len(),
{
    if events.len() > 0 {
        let earlier = events.drop_last();
        assert(never_broadcasts(earlier, watcher));
        lemma_watcher_receives_what_is_fanned_out(channel, earlier, watcher);
        let (before, effects) = run(channel, earlier);
        let (after, more) = step(before, events.last());
        lemma_delivered_concat(effects, more, watcher);
        lemma_step_keeps_wf(before, events.last());
        assert(events[events.len() - 1] == events.last());
        match events.last() {
            ChannelEvent::Takeover(new) => {
                lemma_notices_reach_only_the_broadcaster(before, watcher);
                assert(fanned(earlier) + Seq::<NotificationView>::empty() =~= fanned(earlier));
            },
            ChannelEvent::AddWatcher(new) => {
                lemma_notices_reach_only_the_broadcaster(before, watcher);
                assert(fanned(earlier) + Seq::<NotificationView>::empty() =~= fanned(earlier));
                if !before.watchers.contains(new) {
                    let k = choose|k: int| 0 <= k < before.watchers.len() && before.watchers[k] == watcher;
                    assert(before.watchers.push(new)[k] == watcher);
                }
            },
            ChannelEvent::Fanout(notification) => {
                lemma_fanout_delivers_once(before, notification, watcher);
                assert(fanned(earlier) + seq![notification] =~= fanned(earlier).push(notification));
            },
            ChannelEvent::Release(other) => {
                assert(delivered(more, watcher) =~= Seq::<NotificationView>::empty());
                assert(fanned(earlier) + Seq::<NotificationView>::empty() =~= fanned(earlier));
            },
        }
    }
}

/// A watcher receives the notifications that are fanned out after it
/// joined, all of them, in order, each once, and none of those fanned out
/// before.
pub proof fn lemma_watcher_stream_starts_at_join(
    channel: ChannelView,
    before: Seq<ChannelEvent>,
    after: Seq<ChannelEvent>,
    watcher: u64,
)
    requires
        channel.wf(),
        !channel.watchers.contains(watcher),
        channel.broadcaster != Some(watcher),
        never_watches(before, watcher),
        never_broadcasts(before, watcher),
        never_broadcasts(after, watcher),
    ensures
        delivered(
            run(channel, before + seq![ChannelEvent::AddWatcher(watcher)] + after).1,
            watcher,
        ) == fanned(after),
{
    let join = seq![ChannelEvent::AddWatcher(watcher)];
    lemma_stranger_receives_nothing(channel, before, watcher);
    let (at_join, early) = run(channel, before);
    assert(join.drop_last() =~= Seq::<ChannelEvent>::empty());
    assert(run(at_join, join) == (at_join.add_watcher(watcher), Seq::<EffectView>::empty()
        + at_join.add_watcher_effects())) by {
        reveal_with_fuel(run, 2);
    }
    let joined = at_join.add_watcher(watcher);
    let told = Seq::<EffectView>::empty() + at_join.add_watcher_effects();
    assert(told =~= at_join.add_watcher_effects());
    lemma_notices_reach_only_the_broadcaster(at_join, watcher);
    assert(joined.watchers.last() == watcher);
    assert(joined.watchers.contains(watcher));
    lemma_step_keeps_wf(at_join, ChannelEvent::AddWatcher(watcher));
    lemma_watcher_receives_what_is_fanned_out(joined, after, watcher);
    lemma_run_concat(channel, before, join);
    lemma_run_concat(channel, before + join, after);
    let late = run(joined, after).1;
    lemma_delivered_concat(early, told, watcher);
    lemma_delivered_concat(early + told, late, watcher);
    assert(Seq::<NotificationView>::empty() + Seq::<NotificationView>::empty() + fanned(after)
        =~= fanned(after));
}

/// A takeover tells the former broadcaster that the broadcaster has changed
/// and shuts it down before anything else happens on the channel, and the
/// new broadcaster holds the channel from then on.
pub proof fn lemma_takeover_shuts_former_down_first(
    channel: ChannelView,
    former: u64,
    new: u64,
    later: Seq<ChannelEvent>,
)
    requires
        channel.broadcaster == Some(former),
    ensures
        run(channel, seq![ChannelEvent::Takeover(new)] + later).1 == seq![
            EffectView::Notify {
                to: former,
                notification: NotificationView::Closed("Broadcaster has changed"@),
            },
            EffectView::Shutdown { stream: former },
        ] + run(channel.takeover(new), later).1,
        channel.takeover(new).broadcaster == Some(new),
{
    let takeover = seq![ChannelEvent::Takeover(new)];
    assert(takeover.drop_last() =~= Seq::<ChannelEvent>::empty());
    assert(run(channel, takeover) == (channel.takeover(new), Seq::<EffectView>::empty()
        + channel.takeover_effects())) by {
        reveal_with_fuel(run, 2);
    }
    assert(Seq::<EffectView>::empty() + channel.takeover_effects() =~= channel.takeover_effects());
    lemma_run_concat(channel, takeover, later);
}

/// The fanouts that a queue of relayed messages stands for: one for each
/// message, up to the first that stands for the end of the relay.
pub open spec fn relayed_events(messages: Seq<Option<NotificationView>>) -> Seq<ChannelEvent>
    decreases messages.len(),
{
    if messages.len() == 0 {
        Seq::empty()
    } else {
        match messages[0] {
            Some(notification) => seq![ChannelEvent::Fanout(notification)] + relayed_events(
                messages.drop_first(),
            ),
            None => Seq::empty(),
        }
    }
}

/// What a broadcaster's handler does with a queue of relayed messages is a
/// run of fanouts, which leaves the channel as it is.
pub proof fn lemma_broadcast_is_a_run_of_fanouts(
    channel: ChannelView,
    messages: Seq<Option<NotificationView>>,
)
    ensures
        run(channel, relayed_events(messages)).0 == channel,
        run(channel, relayed_events(messages)).1 == broadcast_effects(channel, messages),
    decreases messages.len(),
{
    if messages.len() > 0 {
        match messages[0] {
            Some(notification) => {
                let first = seq![ChannelEvent::Fanout(notification)];
                let rest = relayed_events(messages.drop_first());
                lemma_broadcast_is_a_run_of_fanouts(channel, messages.drop_first());
                assert(first.drop_last() =~= Seq::<ChannelEvent>::empty());
                assert(run(channel, first) == (channel, Seq::<EffectView>::empty() + channel.fanout(
                    notification,
                ))) by {
                    reveal_with_fuel(run, 2);
                }
                assert(Seq::<EffectView>::empty() + channel.fanout(notification) =~= channel.fanout(
                    notification,
                ));
                lemma_run_concat(channel, first, rest);
            },
            None => {},
        }
    }
}

} // verus!
