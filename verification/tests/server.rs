use hokaido::message::{Error, JoinRequest, JoinResponse, Notification};
use hokaido::server::{handle_client, BroadcastHandler, Channel, Channels, Effect, Handler, WatchHandler};
use hokaido::wire::DecodeError;

fn output(text: &str) -> Notification {
    Notification::Output(text.to_string())
}

fn notify(to: u64, notification: Notification) -> Effect {
    Effect::Notify { to, notification }
}

fn welcome(to: u64) -> Effect {
    Effect::Respond { to, response: JoinResponse::Success }
}

fn changed(to: u64) -> Effect {
    notify(to, Notification::Closed("Broadcaster has changed".to_string()))
}

fn joined(to: u64) -> Effect {
    notify(to, Notification::WatcherJoined(String::new()))
}

#[test]
fn new_channel_is_empty() {
    let channel = Channel::new();
    assert_eq!(channel.broadcaster(), None);
    assert!(channel.watchers().is_empty());
    assert!(!channel.is_watching(1));
}

#[test]
fn first_takeover_has_no_effect_on_others() {
    let mut channel = Channel::new();
    let effects = channel.takeover(7);
    assert!(effects.is_empty());
    assert_eq!(channel.broadcaster(), Some(7));
}

#[test]
fn takeover_closes_and_shuts_down_the_former_broadcaster() {
    let mut channel = Channel::new();
    channel.takeover(1);
    channel.add_watcher(5);
    let effects = channel.takeover(2);
    assert_eq!(effects, vec![changed(1), Effect::Shutdown { stream: 1 }]);
    assert_eq!(channel.broadcaster(), Some(2));
    assert_eq!(channel.watchers(), &vec![5]);
}

#[test]
fn newest_broadcaster_wins() {
    let mut channel = Channel::new();
    channel.takeover(1);
    channel.takeover(2);
    let effects = channel.takeover(3);
    assert_eq!(effects, vec![changed(2), Effect::Shutdown { stream: 2 }]);
    assert_eq!(channel.broadcaster(), Some(3));
}

#[test]
fn watcher_without_broadcaster_tells_nobody() {
    let mut channel = Channel::new();
    let effects = channel.add_watcher(4);
    assert!(effects.is_empty());
    assert_eq!(channel.watchers(), &vec![4]);
    assert!(channel.is_watching(4));
}

#[test]
fn watcher_is_announced_to_the_broadcaster() {
    let mut channel = Channel::new();
    channel.takeover(1);
    let effects = channel.add_watcher(4);
    assert_eq!(effects, vec![joined(1)]);
}

#[test]
fn watchers_keep_joining_order_and_do_not_repeat() {
    let mut channel = Channel::new();
    channel.add_watcher(9);
    channel.add_watcher(3);
    channel.add_watcher(9);
    channel.add_watcher(6);
    assert_eq!(channel.watchers(), &vec![9, 3, 6]);
}

#[test]
fn fanout_reaches_each_watcher_once_in_order() {
    let mut channel = Channel::new();
    channel.takeover(1);
    channel.add_watcher(9);
    channel.add_watcher(3);
    let effects = channel.fanout(&output("hi"));
    assert_eq!(effects, vec![notify(9, output("hi")), notify(3, output("hi"))]);
    assert_eq!(channel.broadcaster(), Some(1));
    assert_eq!(channel.watchers(), &vec![9, 3]);
}

#[test]
fn fanout_without_watchers_is_empty() {
    let mut channel = Channel::new();
    channel.takeover(1);
    assert!(channel.fanout(&output("hi")).is_empty());
}

#[test]
fn release_clears_the_slot_of_its_owner_only() {
    let mut channel = Channel::new();
    channel.takeover(1);
    channel.takeover(2);
    channel.release(1);
    assert_eq!(channel.broadcaster(), Some(2));
    channel.release(2);
    assert_eq!(channel.broadcaster(), None);
    channel.release(2);
    assert_eq!(channel.broadcaster(), None);
}

#[test]
fn fetch_creates_a_channel_once() {
    let mut channels = Channels::new();
    assert_eq!(channels.len(), 0);
    let a = channels.fetch("a");
    assert_eq!(a, 0);
    assert_eq!(channels.len(), 1);
    let b = channels.fetch("b");
    assert_eq!(b, 1);
    assert_eq!(channels.fetch("a"), 0);
    assert_eq!(channels.fetch("b"), 1);
    assert_eq!(channels.len(), 2);
    assert_eq!(channels.name(0), "a");
    assert_eq!(channels.name(1), "b");
    assert_eq!(channels.channel(0).broadcaster(), None);
}

#[test]
fn fetch_keeps_the_state_of_a_known_channel() {
    let mut channels = Channels::new();
    let a = channels.fetch("a");
    channels.takeover(a, 1);
    channels.add_watcher(a, 2);
    let again = channels.fetch("a");
    assert_eq!(again, a);
    assert_eq!(channels.channel(a).broadcaster(), Some(1));
    assert_eq!(channels.channel(a).watchers(), &vec![2]);
}

#[test]
fn channels_do_not_touch_each_other() {
    let mut channels = Channels::new();
    let a = channels.fetch("a");
    let b = channels.fetch("");
    channels.takeover(a, 1);
    channels.add_watcher(b, 2);
    assert_eq!(channels.channel(a).watchers(), &Vec::<u64>::new());
    assert_eq!(channels.channel(b).broadcaster(), None);
    channels.release(b, 1);
    assert_eq!(channels.channel(a).broadcaster(), Some(1));
    channels.release(a, 1);
    assert_eq!(channels.channel(a).broadcaster(), None);
}

#[test]
fn unreadable_request_changes_nothing() {
    let mut channels = Channels::new();
    channels.fetch("c");
    for error in [Error::UnknownMessage, Error::Decode(DecodeError::Truncated), Error::Decode(DecodeError::Malformed)] {
        let result = handle_client(3, Err(error), &mut channels);
        assert_eq!(result, Err(error));
        assert_eq!(channels.len(), 1);
        assert_eq!(channels.channel(0).broadcaster(), None);
        assert!(channels.channel(0).watchers().is_empty());
    }
}

#[test]
fn handshake_with_unknown_role_is_dropped() {
    let mut stream: Vec<u8> = vec![0x94, 0x00, 0x00, 0xa8];
    stream.extend_from_slice(b"spectate");
    stream.extend_from_slice(&[0xa1, b'c']);
    let mut channels = Channels::new();
    let request = JoinRequest::receive(&stream).map(|read| read.0);
    let result = handle_client(1, request, &mut channels);
    assert_eq!(result, Err(Error::UnknownMessage));
    assert_eq!(channels.len(), 0);
}

#[test]
fn broadcaster_joins_through_the_handshake() {
    let mut channels = Channels::new();
    let (handler, effects) = handle_client(1, Ok(JoinRequest::Broadcast("c".to_string())), &mut channels).unwrap();
    assert_eq!(handler, Handler::Broadcast(BroadcastHandler { stream: 1, channel: 0 }));
    assert_eq!(effects, vec![welcome(1)]);
    assert_eq!(channels.name(0), "c");
    assert_eq!(channels.channel(0).broadcaster(), Some(1));
}

#[test]
fn watcher_joins_after_it_was_welcomed() {
    let mut channels = Channels::new();
    handle_client(1, Ok(JoinRequest::Broadcast("c".to_string())), &mut channels).unwrap();
    let (handler, effects) = handle_client(2, Ok(JoinRequest::Watch("c".to_string())), &mut channels).unwrap();
    assert_eq!(effects, vec![welcome(2)]);
    assert!(!channels.channel(0).is_watching(2));
    let watcher = match handler {
        Handler::Watch(watcher) => watcher,
        Handler::Broadcast(_) => panic!("a watcher asked"),
    };
    assert_eq!(watcher, WatchHandler { stream: 2, channel: 0 });
    let effects = watcher.process(&mut channels);
    assert_eq!(effects, vec![joined(1)]);
    assert!(channels.channel(0).is_watching(2));
}

#[test]
fn relay_passes_output_and_stops_on_anything_else() {
    assert_eq!(BroadcastHandler::relay(Ok(output("x"))), Some(output("x")));
    assert_eq!(BroadcastHandler::relay(Ok(Notification::Closed("bye".to_string()))), None);
    assert_eq!(BroadcastHandler::relay(Ok(Notification::WatcherJoined(String::new()))), None);
    assert_eq!(BroadcastHandler::relay(Err(Error::Decode(DecodeError::Truncated))), None);
    assert_eq!(BroadcastHandler::relay(Err(Error::UnknownMessage)), None);
}

#[test]
fn broadcast_stops_at_the_end_of_the_relay() {
    let mut channels = Channels::new();
    let c = channels.fetch("c");
    let (handler, _) = BroadcastHandler::spawn(1, c, &mut channels);
    channels.add_watcher(c, 5);
    channels.add_watcher(c, 6);
    let queue = vec![Some(output("a")), Some(output("b")), None, Some(output("never"))];
    let (effects, ended) = handler.broadcast(&queue, &channels);
    assert!(ended);
    assert_eq!(
        effects,
        vec![notify(5, output("a")), notify(6, output("a")), notify(5, output("b")), notify(6, output("b"))]
    );
    let (effects, ended) = handler.broadcast(&vec![Some(output("c"))], &channels);
    assert!(!ended);
    assert_eq!(effects, vec![notify(5, output("c")), notify(6, output("c"))]);
    let (effects, ended) = handler.broadcast(&Vec::new(), &channels);
    assert!(!ended);
    assert!(effects.is_empty());
}

#[test]
fn finish_shuts_down_and_releases() {
    let mut channels = Channels::new();
    let c = channels.fetch("c");
    let (first, _) = BroadcastHandler::spawn(1, c, &mut channels);
    let (second, effects) = BroadcastHandler::spawn(2, c, &mut channels);
    assert_eq!(effects, vec![changed(1), Effect::Shutdown { stream: 1 }, welcome(2)]);
    let effects = first.finish(&mut channels);
    assert_eq!(effects, vec![Effect::Shutdown { stream: 1 }]);
    assert_eq!(channels.channel(c).broadcaster(), Some(2));
    let effects = second.finish(&mut channels);
    assert_eq!(effects, vec![Effect::Shutdown { stream: 2 }]);
    assert_eq!(channels.channel(c).broadcaster(), None);
}

#[test]
fn watch_handler_spawn_welcomes() {
    let (handler, effects) = WatchHandler::spawn(8, 3);
    assert_eq!(handler, WatchHandler { stream: 8, channel: 3 });
    assert_eq!(effects, vec![welcome(8)]);
}

fn delivered_to(log: &Vec<Effect>, stream: u64) -> Vec<Notification> {
    let mut received = Vec::new();
    for effect in log {
        match effect {
            Effect::Notify { to, notification } if *to == stream => received.push(notification.clone()),
            _ => {}
        }
    }
    received
}

fn shut_down_at(log: &Vec<Effect>, stream: u64) -> Option<usize> {
    log.iter().position(|effect| *effect == Effect::Shutdown { stream })
}

#[test]
fn single_broadcaster_two_watchers() {
    let mut channels = Channels::new();
    let mut log: Vec<Effect> = Vec::new();
    let (handler, effects) = handle_client(1, Ok(JoinRequest::Broadcast("c".to_string())), &mut channels).unwrap();
    log.extend(effects);
    let broadcaster = match handler {
        Handler::Broadcast(broadcaster) => broadcaster,
        Handler::Watch(_) => panic!("a broadcaster asked"),
    };
    for stream in [2u64, 3] {
        let (handler, effects) = handle_client(stream, Ok(JoinRequest::Watch("c".to_string())), &mut channels).unwrap();
        log.extend(effects);
        match handler {
            Handler::Watch(watcher) => log.extend(watcher.process(&mut channels)),
            Handler::Broadcast(_) => panic!("a watcher asked"),
        }
    }
    let sent = vec![output("\u{1b}[8;24;80t"), output("echo hi\r\n"), output("hi\r\n")];
    for notification in &sent {
        let queued = BroadcastHandler::relay(Ok(notification.clone()));
        let (effects, ended) = broadcaster.broadcast(&vec![queued], &channels);
        assert!(!ended);
        log.extend(effects);
    }
    assert_eq!(delivered_to(&log, 2), sent);
    assert_eq!(delivered_to(&log, 3), sent);
    assert_eq!(delivered_to(&log, 1), vec![Notification::WatcherJoined(String::new()); 2]);
}

#[test]
fn watcher_receives_only_what_is_fanned_out_after_it_joined() {
    let mut channel = Channel::new();
    let mut log: Vec<Effect> = Vec::new();
    log.extend(channel.takeover(1));
    log.extend(channel.add_watcher(2));
    log.extend(channel.fanout(&output("early")));
    log.extend(channel.add_watcher(3));
    log.extend(channel.fanout(&output("late")));
    log.extend(channel.fanout(&output("later")));
    assert_eq!(delivered_to(&log, 2), vec![output("early"), output("late"), output("later")]);
    assert_eq!(delivered_to(&log, 3), vec![output("late"), output("later")]);
}

#[test]
fn takeover_keeps_the_watcher() {
    let mut channels = Channels::new();
    let mut log: Vec<Effect> = Vec::new();
    let c = channels.fetch("c");
    let (a, effects) = BroadcastHandler::spawn(10, c, &mut channels);
    log.extend(effects);
    let (w, effects) = WatchHandler::spawn(20, c);
    log.extend(effects);
    log.extend(w.process(&mut channels));
    let (effects, _) = a.broadcast(&vec![Some(output("from a"))], &channels);
    log.extend(effects);
    let (b, effects) = BroadcastHandler::spawn(11, c, &mut channels);
    log.extend(effects);
    let closed_at = shut_down_at(&log, 10).unwrap();
    // the handler of the displaced broadcaster sees its connection end
    assert_eq!(BroadcastHandler::relay(Err(Error::Decode(DecodeError::Truncated))), None);
    log.extend(a.finish(&mut channels));
    let (effects, _) = b.broadcast(&vec![Some(output("from b"))], &channels);
    let first_of_b = log.len();
    log.extend(effects);
    assert_eq!(
        delivered_to(&log, 10),
        vec![Notification::WatcherJoined(String::new()), Notification::Closed("Broadcaster has changed".to_string())]
    );
    assert!(closed_at < first_of_b);
    assert_eq!(delivered_to(&log, 20), vec![output("from a"), output("from b")]);
    assert_eq!(channels.channel(c).broadcaster(), Some(11));
    assert_eq!(channels.channel(c).watchers(), &vec![20]);
}

#[test]
fn dead_watcher_stays_and_harms_nobody() {
    let mut channel = Channel::new();
    channel.takeover(1);
    channel.add_watcher(2);
    channel.add_watcher(3);
    // the caller ignores the failed write to 2: nothing is reported back
    let effects = channel.fanout(&output("x"));
    assert_eq!(effects, vec![notify(2, output("x")), notify(3, output("x"))]);
    let effects = channel.fanout(&output("y"));
    assert_eq!(effects, vec![notify(2, output("y")), notify(3, output("y"))]);
    assert_eq!(channel.broadcaster(), Some(1));
    assert_eq!(channel.watchers(), &vec![2, 3]);
}
