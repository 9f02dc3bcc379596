use hokaido::message::{Error, Notification};
use hokaido::watch::{NotificationHandler, Step};
use hokaido::wire::DecodeError;

#[test]
fn output_is_written() {
    let step = NotificationHandler::process(Ok(Notification::Output("hi\r\n".to_string())));
    assert_eq!(step, Step::Write("hi\r\n".to_string()));
    assert_eq!(NotificationHandler::handle_output(String::new()), Step::Write(String::new()));
}

#[test]
fn closed_channel_ends_the_watcher() {
    let step = NotificationHandler::process(Ok(Notification::Closed("Broadcaster has changed".to_string())));
    assert_eq!(step, Step::Exit("Connection closed: Broadcaster has changed".to_string()));
    assert_eq!(NotificationHandler::handle_closed(String::new()), Step::Exit("Connection closed: ".to_string()));
}

#[test]
fn other_watchers_are_ignored() {
    let step = NotificationHandler::process(Ok(Notification::WatcherJoined(String::new())));
    assert_eq!(step, Step::Ignore);
}

#[test]
fn failure_to_receive_is_passed_on() {
    for error in [Error::UnknownMessage, Error::Decode(DecodeError::Truncated), Error::Decode(DecodeError::Malformed)] {
        assert_eq!(NotificationHandler::process(Err(error)), Step::Fail(error));
    }
}
