//! The hub: a registry of named channels, each with at most one broadcaster
//! and a set of watchers.
//!
//! The hub decides and does no I/O. A connection is known to it by a handle,
//! a number that the caller gave the connection when it accepted it. Each
//! operation changes the registry and returns the effects that the caller
//! has to carry out on the connections, in order.

use crate::message::{
    message_views, Error, JoinRequest, JoinResponse, Notification, NotificationView,
};
use crate::text::same_text;
use vstd::prelude::*;

verus! {

/// Something to be done to a connection.
#[derive(Debug, PartialEq, Eq)]
pub enum Effect {
    /// Write the join response. If that fails, the connection's handler ends.
    Respond { to: u64, response: JoinResponse },
    /// Write the notification. A failure is ignored.
    Notify { to: u64, notification: Notification },
    /// Shut the connection down in both directions.
    Shutdown { stream: u64 },
}

/// An effect with its notification as a view.
pub enum EffectView {
    Respond { to: u64, response: JoinResponse },
    Notify { to: u64, notification: NotificationView },
    Shutdown { stream: u64 },
}

impl View for Effect {
    type V = EffectView;

    open spec fn view(&self) -> EffectView {
        match *self {
            Effect::Respond { to, response } => EffectView::Respond { to, response },
            Effect::Notify { to, notification } => EffectView::Notify {
                to,
                notification: notification@,
            },
            Effect::Shutdown { stream } => EffectView::Shutdown { stream },
        }
    }
}

/// The views of a list of effects.
pub open spec fn views(effects: Seq<Effect>) -> Seq<EffectView> {
    effects.map_values(|e: Effect| e@)
}

/// A channel as a value: its broadcaster, and its watchers in the order in
/// which they joined.
pub struct ChannelView {
    pub broadcaster: Option<u64>,
    pub watchers: Seq<u64>,
}

impl ChannelView {
    /// A channel that nobody has joined.
    pub open spec fn empty() -> ChannelView {
        ChannelView { broadcaster: None, watchers: Seq::empty() }
    }

    /// No connection watches twice.
    pub open spec fn wf(self) -> bool {
        self.watchers.no_duplicates()
    }

    /// The channel after `stream` has taken it over.
    pub open spec fn takeover(self, stream: u64) -> ChannelView {
        ChannelView { broadcaster: Some(stream), watchers: self.watchers }
    }

    /// What a takeover does to the former broadcaster.
    pub open spec fn takeover_effects(self) -> Seq<EffectView> {
        match self.broadcaster {
            Some(former) => seq![
                EffectView::Notify {
                    to: former,
                    notification: NotificationView::Closed("Broadcaster has changed"@),
                },
                EffectView::Shutdown { stream: former },
            ],
            None => Seq::empty(),
        }
    }

    /// The channel after `stream` has joined as a watcher.
    pub open spec fn add_watcher(self, stream: u64) -> ChannelView {
        if self.watchers.contains(stream) {
            self
        } else {
            ChannelView { broadcaster: self.broadcaster, watchers: self.watchers.push(stream) }
        }
    }

    /// What the arrival of a watcher does: the broadcaster is told.
    pub open spec fn add_watcher_effects(self) -> Seq<EffectView> {
        match self.broadcaster {
            Some(broadcaster) => seq![
                EffectView::Notify {
                    to: broadcaster,
                    notification: NotificationView::WatcherJoined(""@),
                },
            ],
            None => Seq::empty(),
        }
    }

    /// One copy of the notification for each watcher, in joining order.
    pub open spec fn fanout(self, notification: NotificationView) -> Seq<EffectView> {
        Seq::new(
            self.watchers.len(),
            |i: int| EffectView::Notify { to: self.watchers[i], notification },
        )
    }

    /// The channel after the handler of `stream` has ended: the broadcaster
    /// slot is cleared if that handler still holds it.
    pub open spec fn release(self, stream: u64) -> ChannelView {
        if self.broadcaster == Some(stream) {
            ChannelView { broadcaster: None, watchers: self.watchers }
        } else {
            self
        }
    }
}

/// A rendezvous point: at most one broadcaster, any number of watchers.
#[derive(Debug)]
pub struct Channel {
    broadcaster: Option<u64>,
    watchers: Vec<u64>,
}

impl View for Channel {
    type V = ChannelView;

    closed spec fn view(&self) -> ChannelView {
        ChannelView { broadcaster: self.broadcaster, watchers: self.watchers@ }
    }
}

impl Channel {
    #[verifier::type_invariant]
    spec fn inv(self) -> bool {
        self.watchers@.no_duplicates()
    }

    /// A channel that nobody has joined.
    pub fn new() -> (channel: Channel)
        ensures
            channel@ == ChannelView::empty(),
            channel@.wf(),
    {
        Channel { broadcaster: None, watchers: Vec::new() }
    }

    /// The broadcaster, if there is one.
    pub fn broadcaster(&self) -> (broadcaster: Option<u64>)
        ensures
            broadcaster == self@.broadcaster,
    {
        self.broadcaster
    }

    /// The watchers, in the order in which they joined.
    pub fn watchers(&self) -> (watchers: &Vec<u64>)
        ensures
            watchers@ == self@.watchers,
            self@.wf(),
    {
        proof {
            use_type_invariant(self);
        }
        &self.watchers
    }

    /// Whether `stream` watches the channel.
    pub fn is_watching(&self, stream: u64) -> (found: bool)
        ensures
            found == self@.watchers.contains(stream),
    {
        let mut i: usize = 0;
        while i < self.watchers.len()
            invariant
                i <= self.watchers.len(),
                forall|k: int| 0 <= k < i ==> self.watchers@[k] != stream,
            decreases self.watchers.len() - i,
        {
            if self.watchers[i] == stream {
                return true;
            }
            i += 1;
        }
        false
    }

    /// Installs `stream` as the broadcaster. A former broadcaster is told
    /// that the broadcaster has changed and is then shut down; the newest
    /// broadcaster always wins.
    pub fn takeover(&mut self, stream: u64) -> (effects: Vec<Effect>)
        ensures
            final(self)@ == old(self)@.takeover(stream),
            final(self)@.wf(),
            views(effects@) == old(self)@.takeover_effects(),
    {
        proof {
            use_type_invariant(&*self);
        }
        let mut effects: Vec<Effect> = Vec::new();
        match self.broadcaster {
            Some(former) => {
                let reason = "Broadcaster has changed".to_owned();
                effects.push(Effect::Notify { to: former, notification: Notification::Closed(reason) });
                effects.push(Effect::Shutdown { stream: former });
            },
            None => {},
        }
        self.broadcaster = Some(stream);
        assert(views(effects@) =~= old(self)@.takeover_effects());
        effects
    }

    /// Adds `stream` to the watchers, unless it watches already, and tells
    /// the broadcaster, if there is one, that a watcher has joined.
    pub fn add_watcher(&mut self, stream: u64) -> (effects: Vec<Effect>)
        ensures
            final(self)@ == old(self)@.add_watcher(stream),
            final(self)@.wf(),
            views(effects@) == old(self)@.add_watcher_effects(),
    {
        proof {
            use_type_invariant(&*self);
        }
        if !self.is_watching(stream) {
            // The watchers are taken out for the change and put back whole.
            let mut watchers: Vec<u64> = Vec::new();
            core::mem::swap(&mut self.watchers, &mut watchers);
            watchers.push(stream);
            self.watchers = watchers;
        }
        let mut effects: Vec<Effect> = Vec::new();
        match self.broadcaster {
            Some(broadcaster) => {
                let nothing = "".to_owned();
                effects.push(
                    Effect::Notify {
                        to: broadcaster,
                        notification: Notification::WatcherJoined(nothing),
                    },
                );
            },
            None => {},
        }
        assert(views(effects@) =~= old(self)@.add_watcher_effects());
        effects
    }

    /// One copy of the notification for each watcher, in joining order.
    pub fn fanout(&self, notification: &Notification) -> (effects: Vec<Effect>)
        ensures
            views(effects@) == self@.fanout(notification@),
    {
        let mut effects: Vec<Effect> = Vec::new();
        let mut i: usize = 0;
        while i < self.watchers.len()
            invariant
                i <= self.watchers.len(),
                effects@.len() == i,
                forall|k: int|
                    0 <= k < i ==> (#[trigger] effects@[k])@ == (EffectView::Notify {
                        to: self.watchers@[k],
                        notification: notification@,
                    }),
            decreases self.watchers.len() - i,
        {
            effects.push(Effect::Notify { to: self.watchers[i], notification: notification.clone() });
            i += 1;
        }
        assert(views(effects@) =~= self@.fanout(notification@));
        effects
    }

    /// Clears the broadcaster slot if `stream` still holds it.
    pub fn release(&mut self, stream: u64)
        ensures
            final(self)@ == old(self)@.release(stream),
            final(self)@.wf(),
    {
        proof {
            use_type_invariant(&*self);
        }
        match self.broadcaster {
            Some(current) => {
                if current == stream {
                    self.broadcaster = None;
                }
            },
            None => {},
        }
    }
}

/// The registry as a value: the channel names in the order in which they
/// were first used, and the channel of each.
pub struct ChannelsView {
    pub names: Seq<Seq<char>>,
    pub channels: Seq<ChannelView>,
}

impl ChannelsView {
    /// The registry without a channel.
    pub open spec fn empty() -> ChannelsView {
        ChannelsView { names: Seq::empty(), channels: Seq::empty() }
    }

    /// Every name has its channel, no name occurs twice, and every channel
    /// is well formed.
    pub open spec fn wf(self) -> bool {
        &&& self.names.len() == self.channels.len()
        &&& self.names.no_duplicates()
        &&& forall|i: int| 0 <= i < self.channels.len() ==> (#[trigger] self.channels[i]).wf()
    }

    /// Number of channels.
    pub open spec fn len(self) -> nat {
        self.channels.len()
    }

    /// The registry after a lookup of `name`: unchanged where the name is
    /// known, else with a fresh empty channel under that name at the end.
    pub open spec fn fetch(self, name: Seq<char>) -> ChannelsView {
        if self.names.contains(name) {
            self
        } else {
            ChannelsView {
                names: self.names.push(name),
                channels: self.channels.push(ChannelView::empty()),
            }
        }
    }

    /// The registry with the channel at `index` replaced.
    pub open spec fn with_channel(self, index: int, channel: ChannelView) -> ChannelsView {
        ChannelsView { names: self.names, channels: self.channels.update(index, channel) }
    }

    /// The registry as a mapping from channel name to channel.
    pub open spec fn as_map(self) -> Map<Seq<char>, ChannelView> {
        Map::new(
            |name: Seq<char>| self.names.contains(name),
            |name: Seq<char>| self.channels[self.names.index_of(name)],
        )
    }
}

/// In a well-formed registry, the channel that the mapping gives a name is
/// the channel at the place of the name.
pub proof fn lemma_as_map_at(registry: ChannelsView, index: int)
    requires
        registry.wf(),
        0 <= index < registry.len(),
    ensures
        registry.as_map().contains_key(registry.names[index]),
        registry.as_map()[registry.names[index]] == registry.channels[index],
{
    let name = registry.names[index];
    assert(registry.names.contains(name));
    let found = registry.names.index_of(name);
    assert(0 <= found < registry.names.len() && registry.names[found] == name);
    assert(found == index);
}

/// Seen as a mapping, a lookup leaves the channel of a known name where it
/// is and gives an unknown name a fresh empty channel; no other name is
/// touched, and the registry stays well formed.
pub proof fn lemma_fetch_looks_up_or_creates(registry: ChannelsView, name: Seq<char>)
    requires
        registry.wf(),
    ensures
        registry.fetch(name).wf(),
        registry.fetch(name).as_map() == if registry.as_map().contains_key(name) {
            registry.as_map()
        } else {
            registry.as_map().insert(name, ChannelView::empty())
        },
{
    let fetched = registry.fetch(name);
    if !registry.names.contains(name) {
        assert(fetched.wf());
        let grown = registry.as_map().insert(name, ChannelView::empty());
        assert forall|key: Seq<char>| fetched.as_map().contains_key(key) <==> grown.contains_key(
            key,
        ) by {
            if fetched.names.contains(key) {
                let at = choose|at: int| 0 <= at < fetched.names.len() && fetched.names[at] == key;
                if at < registry.names.len() {
                    assert(registry.names[at] == key);
                }
            }
            if registry.names.contains(key) {
                let at = choose|at: int| 0 <= at < registry.names.len() && registry.names[at] == key;
                assert(fetched.names[at] == key);
            }
            if key == name {
                assert(fetched.names[registry.names.len() as int] == name);
            }
        }
        assert forall|key: Seq<char>| fetched.as_map().contains_key(key) implies fetched.as_map()[key]
            == grown[key] by {
            let at = choose|at: int| 0 <= at < fetched.names.len() && fetched.names[at] == key;
            lemma_as_map_at(fetched, at);
            if at < registry.names.len() {
                assert(registry.names[at] == key);
                lemma_as_map_at(registry, at);
            }
        }
        assert(fetched.as_map() =~= grown);
    }
}

/// The registry of channels. A channel is created when its name is first
/// used and is never removed, so the index of a channel stays valid.
#[derive(Debug)]
pub struct Channels {
    names: Vec<String>,
    channels: Vec<Channel>,
}

impl View for Channels {
    type V = ChannelsView;

    closed spec fn view(&self) -> ChannelsView {
        ChannelsView {
            names: self.names@.map_values(|name: String| name@),
            channels: self.channels@.map_values(|channel: Channel| channel@),
        }
    }
}

impl Channels {
    #[verifier::type_invariant]
    spec fn inv(self) -> bool {
        self@.wf()
    }

    /// The registry without a channel.
    pub fn new() -> (channels: Channels)
        ensures
            channels@ == ChannelsView::empty(),
            channels@.wf(),
    {
        let channels = Channels { names: Vec::new(), channels: Vec::new() };
        assert(channels@.names =~= Seq::<Seq<char>>::empty());
        assert(channels@.channels =~= Seq::<ChannelView>::empty());
        channels
    }

    /// Number of channels.
    pub fn len(&self) -> (len: usize)
        ensures
            len == self@.len(),
            self@.wf(),
    {
        proof {
            use_type_invariant(self);
        }
        self.channels.len()
    }

    /// The channel at `index`.
    pub fn channel(&self, index: usize) -> (channel: &Channel)
        requires
            index < self@.len(),
        ensures
            channel@ == self@.channels[index as int],
    {
        &self.channels[index]
    }

    /// The name of the channel at `index`.
    pub fn name(&self, index: usize) -> (name: &str)
        requires
            index < self@.len(),
        ensures
            name@ == self@.names[index as int],
    {
        proof {
            use_type_invariant(self);
        }
        self.names[index].as_str()
    }

    /// The index of the channel called `key`, which is created if there is
    /// none yet.
    pub fn fetch(&mut self, key: &str) -> (index: usize)
        ensures
            final(self)@ == old(self)@.fetch(key@),
            final(self)@.wf(),
            index < final(self)@.len(),
            final(self)@.names[index as int] == key@,
    {
        proof {
            use_type_invariant(&*self);
        }
        let mut i: usize = 0;
        while i < self.names.len()
            invariant
                i <= self.names.len(),
                self@.wf(),
                forall|k: int| 0 <= k < i ==> self@.names[k] != key@,
            decreases self.names.len() - i,
        {
            if same_text(self.names[i].as_str(), key) {
                assert(self@.names[i as int] == key@);
                return i;
            }
            i += 1;
        }
        let mut taken = Channels::new();
        core::mem::swap(self, &mut taken);
        let Channels { mut names, mut channels } = taken;
        names.push(key.to_owned());
        channels.push(Channel::new());
        proof {
            let grown = ChannelsView {
                names: names@.map_values(|name: String| name@),
                channels: channels@.map_values(|channel: Channel| channel@),
            };
            assert(grown.names =~= old(self)@.names.push(key@));
            assert(grown.channels =~= old(self)@.channels.push(ChannelView::empty()));
            assert(grown.wf());
        }
        *self = Channels { names, channels };
        i
    }

    /// Puts `channel` at `index` and hands out the channel that was there.
    fn replace(&mut self, index: usize, channel: Channel) -> (former: Channel)
        requires
            index < old(self)@.len(),
        ensures
            final(self)@ == old(self)@.with_channel(index as int, channel@),
            former@ == old(self)@.channels[index as int],
    {
        proof {
            use_type_invariant(&*self);
            use_type_invariant(&channel);
        }
        let mut taken = Channels::new();
        core::mem::swap(self, &mut taken);
        let Channels { names, mut channels } = taken;
        let mut slot = channel;
        core::mem::swap(&mut channels[index], &mut slot);
        proof {
            let changed = ChannelsView {
                names: names@.map_values(|name: String| name@),
                channels: channels@.map_values(|channel: Channel| channel@),
            };
            assert(changed.names =~= old(self)@.names);
            assert(changed.channels =~= old(self)@.channels.update(index as int, channel@));
            assert(changed.wf());
        }
        *self = Channels { names, channels };
        slot
    }

    /// A takeover of the channel at `index`.
    pub fn takeover(&mut self, index: usize, stream: u64) -> (effects: Vec<Effect>)
        requires
            index < old(self)@.len(),
        ensures
            final(self)@ == old(self)@.with_channel(
                index as int,
                old(self)@.channels[index as int].takeover(stream),
            ),
            views(effects@) == old(self)@.channels[index as int].takeover_effects(),
    {
        let mut channel = self.replace(index, Channel::new());
        let effects = channel.takeover(stream);
        let _ = self.replace(index, channel);
        assert(final(self)@.channels =~= old(self)@.channels.update(
            index as int,
            old(self)@.channels[index as int].takeover(stream),
        ));
        effects
    }

    /// A watcher joins the channel at `index`.
    pub fn add_watcher(&mut self, index: usize, stream: u64) -> (effects: Vec<Effect>)
        requires
            index < old(self)@.len(),
        ensures
            final(self)@ == old(self)@.with_channel(
                index as int,
                old(self)@.channels[index as int].add_watcher(stream),
            ),
            views(effects@) == old(self)@.channels[index as int].add_watcher_effects(),
    {
        let mut channel = self.replace(index, Channel::new());
        let effects = channel.add_watcher(stream);
        let _ = self.replace(index, channel);
        assert(final(self)@.channels =~= old(self)@.channels.update(
            index as int,
            old(self)@.channels[index as int].add_watcher(stream),
        ));
        effects
    }

    /// The handler of `stream` ends: the broadcaster slot of the channel at
    /// `index` is cleared if that handler still holds it.
    pub fn release(&mut self, index: usize, stream: u64)
        requires
            index < old(self)@.len(),
        ensures
            final(self)@ == old(self)@.with_channel(
                index as int,
                old(self)@.channels[index as int].release(stream),
            ),
    {
        let mut channel = self.replace(index, Channel::new());
        channel.release(stream);
        let _ = self.replace(index, channel);
        assert(final(self)@.channels =~= old(self)@.channels.update(
            index as int,
            old(self)@.channels[index as int].release(stream),
        ));
    }
}

/// The handler of one broadcaster connection: the connection and the index
/// of its channel.
#[derive(Clone, Copy, Debug, PartialEq, Eq, Structural)]
pub struct BroadcastHandler {
    pub stream: u64,
    pub channel: usize,
}

/// The handler of one watcher connection: the connection and the index of
/// its channel.
#[derive(Clone, Copy, Debug, PartialEq, Eq, Structural)]
pub struct WatchHandler {
    pub stream: u64,
    pub channel: usize,
}

/// The handler that a join request gave its connection.
#[derive(Clone, Copy, Debug, PartialEq, Eq, Structural)]
pub enum Handler {
    Broadcast(BroadcastHandler),
    Watch(WatchHandler),
}

/// What the relay passes on of what it received: an output, and nothing
/// else. Nothing stands for the end of the relay.
pub open spec fn relayed(received: Result<NotificationView, Error>) -> Option<NotificationView> {
    match received {
        Ok(NotificationView::Output(data)) => Some(NotificationView::Output(data)),
        _ => None,
    }
}

/// The effects of a queue of relayed messages on a channel: each message is
/// fanned out, up to the first that stands for the end of the relay.
pub open spec fn broadcast_effects(
    channel: ChannelView,
    messages: Seq<Option<NotificationView>>,
) -> Seq<EffectView>
    decreases messages.len(),
{
    if messages.len() == 0 {
        Seq::empty()
    } else {
        match messages[0] {
            Some(notification) => channel.fanout(notification) + broadcast_effects(
                channel,
                messages.drop_first(),
            ),
            None => Seq::empty(),
        }
    }
}

/// Whether a queue of relayed messages holds the end of the relay.
pub open spec fn relay_ended(messages: Seq<Option<NotificationView>>) -> bool {
    exists|i: int| 0 <= i < messages.len() && messages[i] is None
}

impl BroadcastHandler {
    /// A broadcaster has joined the channel at `channel`: it takes the
    /// channel over, and is then told that it has joined.
    pub fn spawn(stream: u64, channel: usize, channels: &mut Channels) -> (spawned: (BroadcastHandler, Vec<Effect>))
        requires
            channel < old(channels)@.len(),
        ensures
            spawned.0 == (BroadcastHandler { stream, channel }),
            final(channels)@ == old(channels)@.with_channel(
                channel as int,
                old(channels)@.channels[channel as int].takeover(stream),
            ),
            views(spawned.1@) == old(channels)@.channels[channel as int].takeover_effects().push(
                EffectView::Respond { to: stream, response: JoinResponse::Success },
            ),
    {
        let mut effects = channels.takeover(channel, stream);
        effects.push(Effect::Respond { to: stream, response: JoinResponse::Success });
        assert(views(effects@) =~= old(channels)@.channels[channel as int].takeover_effects().push(
            EffectView::Respond { to: stream, response: JoinResponse::Success },
        ));
        (BroadcastHandler { stream, channel }, effects)
    }

    /// What the relay does with what it received from the broadcaster: an
    /// output is queued for the fanout; anything else, an error included,
    /// ends the relay, which is queued as nothing.
    pub fn relay(received: Result<Notification, Error>) -> (queued: Option<Notification>)
        ensures
            match received {
                Ok(notification) => relayed(Ok(notification@)) == match queued {
                    Some(output) => Some(output@),
                    None => None,
                },
                Err(_) => queued is None,
            },
    {
        match received {
            Ok(Notification::Output(data)) => Some(Notification::Output(data)),
            _ => None,
        }
    }

    /// Fans out the queued messages to the watchers of the handler's
    /// channel, up to the end of the relay, and says whether the end was
    /// reached.
    pub fn broadcast(&self, messages: &Vec<Option<Notification>>, channels: &Channels) -> (done: (Vec<Effect>, bool))
        requires
            self.channel < channels@.len(),
        ensures
            views(done.0@) == broadcast_effects(
                channels@.channels[self.channel as int],
                message_views(messages@),
            ),
            done.1 == relay_ended(message_views(messages@)),
    {
        let channel = channels.channel(self.channel);
        let ghost queue = message_views(messages@);
        let mut effects: Vec<Effect> = Vec::new();
        let mut i: usize = 0;
        assert(queue.skip(0) =~= queue);
        assert(views(effects@) + broadcast_effects(channel@, queue) =~= broadcast_effects(
            channel@,
            queue,
        ));
        while i < messages.len()
            invariant
                i <= messages.len(),
                queue == message_views(messages@),
                channel@ == channels@.channels[self.channel as int],
                views(effects@) + broadcast_effects(channel@, queue.skip(i as int))
                    == broadcast_effects(channel@, queue),
                forall|k: int| 0 <= k < i ==> queue[k] is Some,
            decreases messages.len() - i,
        {
            assert(queue.skip(i as int).drop_first() =~= queue.skip(i as int + 1));
            assert(queue.skip(i as int)[0] == queue[i as int]);
            match &messages[i] {
                Some(notification) => {
                    let mut copies = channel.fanout(notification);
                    let ghost before = effects@;
                    effects.append(&mut copies);
                    assert(views(effects@) =~= views(before) + channel@.fanout(notification@));
                    assert(views(before) + (channel@.fanout(notification@) + broadcast_effects(
                        channel@,
                        queue.skip(i as int + 1),
                    )) =~= views(effects@) + broadcast_effects(channel@, queue.skip(i as int + 1)));
                },
                None => {
                    assert(views(effects@) =~= broadcast_effects(channel@, queue));
                    return (effects, true);
                },
            }
            i += 1;
        }
        assert(views(effects@) =~= broadcast_effects(channel@, queue));
        (effects, false)
    }

    /// The handler ends, on whatever path: its connection is shut down, and
    /// the broadcaster slot is cleared if the handler still holds it.
    pub fn finish(&self, channels: &mut Channels) -> (effects: Vec<Effect>)
        requires
            self.channel < old(channels)@.len(),
        ensures
            final(channels)@ == old(channels)@.with_channel(
                self.channel as int,
                old(channels)@.channels[self.channel as int].release(self.stream),
            ),
            views(effects@) == seq![EffectView::Shutdown { stream: self.stream }],
    {
        channels.release(self.channel, self.stream);
        let mut effects: Vec<Effect> = Vec::new();
        effects.push(Effect::Shutdown { stream: self.stream });
        assert(views(effects@) =~= seq![EffectView::Shutdown { stream: self.stream }]);
        effects
    }
}

impl WatchHandler {
    /// A watcher has asked to join the channel at `channel`: it is told
    /// that it has joined.
    pub fn spawn(stream: u64, channel: usize) -> (spawned: (WatchHandler, Vec<Effect>))
        ensures
            spawned.0 == (WatchHandler { stream, channel }),
            views(spawned.1@) == seq![
                EffectView::Respond { to: stream, response: JoinResponse::Success },
            ],
    {
        let mut effects: Vec<Effect> = Vec::new();
        effects.push(Effect::Respond { to: stream, response: JoinResponse::Success });
        assert(views(effects@) =~= seq![
            EffectView::Respond { to: stream, response: JoinResponse::Success },
        ]);
        (WatchHandler { stream, channel }, effects)
    }

    /// The watcher has been told that it has joined: it is added to the
    /// watchers of its channel, and the broadcaster hears of it.
    pub fn process(&self, channels: &mut Channels) -> (effects: Vec<Effect>)
        requires
            self.channel < old(channels)@.len(),
        ensures
            final(channels)@ == old(channels)@.with_channel(
                self.channel as int,
                old(channels)@.channels[self.channel as int].add_watcher(self.stream),
            ),
            views(effects@) == old(channels)@.channels[self.channel as int].add_watcher_effects(),
    {
        channels.add_watcher(self.channel, self.stream)
    }
}

/// A connection has sent its first message, or failed to.
///
/// A request that could not be read changes nothing and has no effect: the
/// caller drops the connection. A join request looks its channel up, which
/// creates it if need be, and gets the handler of its role.
pub fn handle_client(stream: u64, request: Result<JoinRequest, Error>, channels: &mut Channels) -> (joined: Result<(Handler, Vec<Effect>), Error>)
    ensures
        match request {
            Err(e) => {
                &&& joined matches Err(f)
                &&& f == e
                &&& final(channels)@ == old(channels)@
            },
            Ok(JoinRequest::Broadcast(name)) => {
                let fetched = old(channels)@.fetch(name@);
                &&& joined matches Ok((Handler::Broadcast(handler), effects))
                &&& handler.stream == stream
                &&& handler.channel < fetched.len()
                &&& fetched.names[handler.channel as int] == name@
                &&& final(channels)@ == fetched.with_channel(
                    handler.channel as int,
                    fetched.channels[handler.channel as int].takeover(stream),
                )
                &&& views(effects@) == fetched.channels[handler.channel as int].takeover_effects().push(
                    EffectView::Respond { to: stream, response: JoinResponse::Success },
                )
            },
            Ok(JoinRequest::Watch(name)) => {
                let fetched = old(channels)@.fetch(name@);
                &&& joined matches Ok((Handler::Watch(handler), effects))
                &&& handler.stream == stream
                &&& handler.channel < fetched.len()
                &&& fetched.names[handler.channel as int] == name@
                &&& final(channels)@ == fetched
                &&& views(effects@) == seq![
                    EffectView::Respond { to: stream, response: JoinResponse::Success },
                ]
            },
        },
{
    match request {
        Err(e) => Err(e),
        Ok(JoinRequest::Broadcast(ch)) => {
            let index = channels.fetch(ch.as_str());
            let (handler, effects) = BroadcastHandler::spawn(stream, index, channels);
            Ok((Handler::Broadcast(handler), effects))
        },
        Ok(JoinRequest::Watch(ch)) => {
            let index = channels.fetch(ch.as_str());
            let (handler, effects) = WatchHandler::spawn(stream, index);
            Ok((Handler::Watch(handler), effects))
        },
    }
}

} // verus!
