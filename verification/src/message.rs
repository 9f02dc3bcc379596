//! The three message families and their frames.
//!
//! A message is sent by appending its frame to a byte stream and received by
//! reading one frame from the front of a byte stream. The contracts speak of
//! the views of the messages, in which a string is its character sequence.

use crate::text::same_text;
use crate::wire::{
    fits, join_request_fields, join_request_frame, join_response_fields, join_response_frame,
    notification_fields, notification_frame, pack_join_request, pack_join_response,
    pack_notification, unpack_join_request, unpack_join_response, unpack_notification,
    DecodeError,
};
use vstd::prelude::*;
use vstd::utf8::{encode_utf8, is_ascii_chars, is_ascii_chars_encode_utf8};

verus! {

/// First message on a connection, from client to server.
#[derive(Debug, PartialEq, Eq)]
pub enum JoinRequest {
    Broadcast(String),
    Watch(String),
}

/// Reply of the server to a join request.
#[derive(Clone, Copy, Debug, PartialEq, Eq, Structural)]
pub enum JoinResponse {
    Success,
    Failure,
}

/// What flows after the handshake.
#[derive(Debug, PartialEq, Eq)]
pub enum Notification {
    /// Raw terminal output.
    Output(String),
    /// The session was ended, with the reason.
    Closed(String),
    /// A watcher has joined the channel.
    WatcherJoined(String),
}

/// Why a message could not be sent or received.
#[derive(Clone, Copy, Debug, PartialEq, Eq, Structural)]
pub enum Error {
    /// A string of the message is too long for a frame.
    Encode,
    /// The stream did not hold a frame.
    Decode(DecodeError),
    /// The frame is well formed and names no known role or topic.
    UnknownMessage,
}

/// A join request with its channel name as a character sequence.
pub enum JoinRequestView {
    Broadcast(Seq<char>),
    Watch(Seq<char>),
}

/// A notification with its payload as a character sequence.
pub enum NotificationView {
    Output(Seq<char>),
    Closed(Seq<char>),
    WatcherJoined(Seq<char>),
}

impl View for JoinRequest {
    type V = JoinRequestView;

    open spec fn view(&self) -> JoinRequestView {
        match *self {
            JoinRequest::Broadcast(name) => JoinRequestView::Broadcast(name@),
            JoinRequest::Watch(name) => JoinRequestView::Watch(name@),
        }
    }
}

impl View for Notification {
    type V = NotificationView;

    open spec fn view(&self) -> NotificationView {
        match *self {
            Notification::Output(data) => NotificationView::Output(data@),
            Notification::Closed(data) => NotificationView::Closed(data@),
            Notification::WatcherJoined(data) => NotificationView::WatcherJoined(data@),
        }
    }
}

impl Clone for JoinRequest {
    fn clone(&self) -> (copy: JoinRequest)
        ensures
            copy == *self,
    {
        match self {
            JoinRequest::Broadcast(name) => JoinRequest::Broadcast(name.clone()),
            JoinRequest::Watch(name) => JoinRequest::Watch(name.clone()),
        }
    }
}

impl Clone for Notification {
    fn clone(&self) -> (copy: Notification)
        ensures
            copy == *self,
    {
        match self {
            Notification::Output(data) => Notification::Output(data.clone()),
            Notification::Closed(data) => Notification::Closed(data.clone()),
            Notification::WatcherJoined(data) => Notification::WatcherJoined(data.clone()),
        }
    }
}

/// The view of a queued message: a notification, or nothing, which stands
/// for the end of the queue.
pub open spec fn message_view(message: Option<Notification>) -> Option<NotificationView> {
    match message {
        Some(notification) => Some(notification@),
        None => None,
    }
}

/// The views of a queue of messages.
pub open spec fn message_views(messages: Seq<Option<Notification>>) -> Seq<Option<NotificationView>> {
    messages.map_values(|message: Option<Notification>| message_view(message))
}

/// Number of bytes that reading took from the front of `bytes`, given what
/// it left.
pub open spec fn consumed(bytes: Seq<u8>, rest: Seq<u8>) -> nat {
    (bytes.len() - rest.len()) as nat
}

impl Error {
    /// A short text for the error.
    pub fn description(&self) -> (text: &'static str)
        ensures
            text@ == "Processing message failed"@,
    {
        "Processing message failed"
    }
}

impl JoinRequestView {
    /// The role string of the request.
    pub open spec fn role(self) -> Seq<char> {
        match self {
            JoinRequestView::Broadcast(_) => "broadcast"@,
            JoinRequestView::Watch(_) => "watch"@,
        }
    }

    /// The channel that the request names.
    pub open spec fn channel(self) -> Seq<char> {
        match self {
            JoinRequestView::Broadcast(name) => name,
            JoinRequestView::Watch(name) => name,
        }
    }

    /// The fields of the request's frame.
    pub open spec fn payload(self) -> (u8, u8, Seq<char>, Seq<char>) {
        (0u8, 0u8, self.role(), self.channel())
    }

    /// The request that the fields of a frame stand for.
    pub open spec fn from_payload(role: Seq<char>, channel: Seq<char>) -> Result<JoinRequestView, Error> {
        if role == "broadcast"@ {
            Ok(JoinRequestView::Broadcast(channel))
        } else if role == "watch"@ {
            Ok(JoinRequestView::Watch(channel))
        } else {
            Err(Error::UnknownMessage)
        }
    }

    /// Whether the request can be framed.
    pub open spec fn representable(self) -> bool {
        fits(self.channel())
    }

    /// The bytes of the request's frame.
    pub open spec fn frame(self) -> Seq<u8> {
        join_request_frame(0, 0, self.role(), self.channel())
    }

    /// What receiving from `bytes` yields: the request at the front and the
    /// number of bytes that its frame takes, or the error.
    pub open spec fn parse(bytes: Seq<u8>) -> Result<(JoinRequestView, nat), Error> {
        match join_request_fields(bytes) {
            Ok((_, _, role, channel, rest)) => match Self::from_payload(role, channel) {
                Ok(request) => Ok((request, consumed(bytes, rest))),
                Err(e) => Err(e),
            },
            Err(e) => Err(Error::Decode(e)),
        }
    }
}

/// The two role strings are short ASCII texts, and differ.
pub proof fn lemma_role_names()
    ensures
        fits("broadcast"@),
        fits("watch"@),
        "broadcast"@ != "watch"@,
{
    reveal_strlit("broadcast");
    reveal_strlit("watch");
    assert(is_ascii_chars("broadcast"@));
    assert(is_ascii_chars("watch"@));
    is_ascii_chars_encode_utf8("broadcast"@);
    is_ascii_chars_encode_utf8("watch"@);
}

/// The fields of a request's frame stand for that request.
pub proof fn lemma_request_from_its_payload(request: JoinRequestView)
    ensures
        JoinRequestView::from_payload(request.payload().2, request.payload().3) == Ok::<
            JoinRequestView,
            Error,
        >(request),
{
    lemma_role_names();
}

impl JoinRequest {
    /// The fields of the request's frame.
    pub fn payload(&self) -> (fields: (u8, u8, &str, &String))
        ensures
            (fields.0, fields.1, fields.2@, fields.3@) == self@.payload(),
    {
        let header = 0u8;
        let id = 0u8;

        match self {
            JoinRequest::Broadcast(string) => (header, id, "broadcast", string),
            JoinRequest::Watch(string) => (header, id, "watch", string),
        }
    }

    /// The request that the fields of a frame stand for.
    pub fn from_payload(role: &str, channel: String) -> (request: Result<JoinRequest, Error>)
        ensures
            request matches Ok(r) ==> JoinRequestView::from_payload(role@, channel@) == Ok::<
                JoinRequestView,
                Error,
            >(r@),
            request matches Err(e) ==> JoinRequestView::from_payload(role@, channel@) == Err::<
                JoinRequestView,
                Error,
            >(e),
    {
        if same_text(role, "broadcast") {
            Ok(JoinRequest::Broadcast(channel))
        } else if same_text(role, "watch") {
            Ok(JoinRequest::Watch(channel))
        } else {
            Err(Error::UnknownMessage)
        }
    }

    /// Appends the request's frame to `stream`.
    ///
    /// Fails, leaving the stream as it was, exactly when the channel name is
    /// too long for a frame. A frame that was sent is received as the request
    /// that it was made from.
    pub fn send(&self, stream: &mut Vec<u8>) -> (sent: Result<(), Error>)
        ensures
            sent is Ok <==> self@.representable(),
            sent is Ok ==> final(stream)@ == old(stream)@ + self@.frame(),
            sent is Ok ==> JoinRequestView::parse(self@.frame()) == Ok::<
                (JoinRequestView, nat),
                Error,
            >((self@, self@.frame().len())),
            sent is Err ==> sent == Err::<(), Error>(Error::Encode) && final(stream)@ == old(
                stream,
            )@,
    {
        let (header, id, role, channel) = self.payload();
        proof {
            lemma_role_names();
        }
        if channel.as_str().as_bytes().len() > 0xFFFF_FFFFusize {
            return Err(Error::Encode);
        }
        match pack_join_request(header, id, role, channel.as_str()) {
            Some(mut frame) => {
                stream.append(&mut frame);
                Ok(())
            },
            None => Err(Error::Encode),
        }
    }

    /// Reads one request from the front of `stream`, and says how many bytes
    /// its frame took.
    pub fn receive(stream: &[u8]) -> (received: Result<(JoinRequest, usize), Error>)
        ensures
            received matches Ok(got) ==> JoinRequestView::parse(stream@) == Ok::<
                (JoinRequestView, nat),
                Error,
            >((got.0@, got.1 as nat)) && got.1 <= stream@.len(),
            received matches Err(e) ==> JoinRequestView::parse(stream@) == Err::<
                (JoinRequestView, nat),
                Error,
            >(e),
    {
        match unpack_join_request(stream) {
            Ok((_, _, role, channel_name, rest)) => {
                let used = stream.len() - rest.len();
                match JoinRequest::from_payload(role.as_str(), channel_name) {
                    Ok(request) => Ok((request, used)),
                    Err(e) => Err(e),
                }
            },
            Err(e) => Err(Error::Decode(e)),
        }
    }
}

impl JoinResponse {
    /// The boolean that stands for the response in its frame.
    pub open spec fn result(self) -> bool {
        self == JoinResponse::Success
    }

    /// The fields of the response's frame.
    pub open spec fn spec_payload(self) -> (u8, u8, Seq<char>, bool) {
        (0u8, 0u8, ""@, self.result())
    }

    /// The response that the boolean of a frame stands for.
    pub open spec fn spec_from_payload(result: bool) -> JoinResponse {
        if result {
            JoinResponse::Success
        } else {
            JoinResponse::Failure
        }
    }

    /// The bytes of the response's frame.
    pub open spec fn frame(self) -> Seq<u8> {
        join_response_frame(0, 0, ""@, self.result())
    }

    /// What receiving from `bytes` yields: the response at the front and the
    /// number of bytes that its frame takes, or the error.
    pub open spec fn parse(bytes: Seq<u8>) -> Result<(JoinResponse, nat), Error> {
        match join_response_fields(bytes) {
            Ok((_, _, _, result, rest)) => Ok(
                (Self::spec_from_payload(result), consumed(bytes, rest)),
            ),
            Err(e) => Err(Error::Decode(e)),
        }
    }

    /// The fields of the response's frame.
    pub fn payload(&self) -> (fields: (u8, u8, &str, bool))
        ensures
            (fields.0, fields.1, fields.2@, fields.3) == self.spec_payload(),
    {
        let header = 0u8;
        let id = 0u8;

        match self {
            JoinResponse::Success => (header, id, "", true),
            JoinResponse::Failure => (header, id, "", false),
        }
    }

    /// The response that the boolean of a frame stands for.
    pub fn from_payload(result: bool) -> (response: JoinResponse)
        ensures
            response == Self::spec_from_payload(result),
    {
        if result {
            JoinResponse::Success
        } else {
            JoinResponse::Failure
        }
    }

    /// Appends the response's frame to `stream`. This cannot fail. A frame
    /// that was sent is received as the response that it was made from.
    pub fn send(&self, stream: &mut Vec<u8>) -> (sent: Result<(), Error>)
        ensures
            sent is Ok,
            final(stream)@ == old(stream)@ + self.frame(),
            Self::parse(self.frame()) == Ok::<(JoinResponse, nat), Error>(
                (*self, self.frame().len()),
            ),
    {
        let (header, id, text, result) = self.payload();
        proof {
            reveal_strlit("");
            assert(encode_utf8(""@).len() == 0);
        }
        match pack_join_response(header, id, text, result) {
            Some(mut frame) => {
                stream.append(&mut frame);
                Ok(())
            },
            None => Err(Error::Encode),
        }
    }

    /// Reads one response from the front of `stream`, and says how many bytes
    /// its frame took.
    pub fn receive(stream: &[u8]) -> (received: Result<(JoinResponse, usize), Error>)
        ensures
            received matches Ok(got) ==> Self::parse(stream@) == Ok::<(JoinResponse, nat), Error>(
                (got.0, got.1 as nat),
            ) && got.1 <= stream@.len(),
            received matches Err(e) ==> Self::parse(stream@) == Err::<(JoinResponse, nat), Error>(
                e,
            ),
    {
        match unpack_join_response(stream) {
            Ok((_, _, _, result, rest)) => {
                let used = stream.len() - rest.len();
                Ok((JoinResponse::from_payload(result), used))
            },
            Err(e) => Err(Error::Decode(e)),
        }
    }
}

impl NotificationView {
    /// The topic string of the notification.
    pub open spec fn topic(self) -> Seq<char> {
        match self {
            NotificationView::Output(_) => "out"@,
            NotificationView::Closed(_) => "closed"@,
            NotificationView::WatcherJoined(_) => "watcher_joined"@,
        }
    }

    /// The payload that the notification carries.
    pub open spec fn data(self) -> Seq<char> {
        match self {
            NotificationView::Output(data) => data,
            NotificationView::Closed(data) => data,
            NotificationView::WatcherJoined(data) => data,
        }
    }

    /// The fields of the notification's frame.
    pub open spec fn payload(self) -> (u8, Seq<char>, Seq<char>) {
        (2u8, self.topic(), self.data())
    }

    /// The notification that the fields of a frame stand for.
    pub open spec fn from_payload(topic: Seq<char>, data: Seq<char>) -> Result<NotificationView, Error> {
        if topic == "out"@ {
            Ok(NotificationView::Output(data))
        } else if topic == "closed"@ {
            Ok(NotificationView::Closed(data))
        } else if topic == "watcher_joined"@ {
            Ok(NotificationView::WatcherJoined(data))
        } else {
            Err(Error::UnknownMessage)
        }
    }

    /// Whether the notification can be framed.
    pub open spec fn representable(self) -> bool {
        fits(self.data())
    }

    /// The bytes of the notification's frame.
    pub open spec fn frame(self) -> Seq<u8> {
        notification_frame(2, self.topic(), self.data())
    }

    /// What receiving from `bytes` yields: the notification at the front and
    /// the number of bytes that its frame takes, or the error.
    pub open spec fn parse(bytes: Seq<u8>) -> Result<(NotificationView, nat), Error> {
        match notification_fields(bytes) {
            Ok((_, topic, data, rest)) => match Self::from_payload(topic, data) {
                Ok(notification) => Ok((notification, consumed(bytes, rest))),
                Err(e) => Err(e),
            },
            Err(e) => Err(Error::Decode(e)),
        }
    }
}

/// The three topic strings are short ASCII texts, and differ from each other.
pub proof fn lemma_topic_names()
    ensures
        fits("out"@),
        fits("closed"@),
        fits("watcher_joined"@),
        "out"@ != "closed"@,
        "out"@ != "watcher_joined"@,
        "closed"@ != "watcher_joined"@,
{
    reveal_strlit("out");
    reveal_strlit("closed");
    reveal_strlit("watcher_joined");
    assert("out"@.len() == 3);
    assert("closed"@.len() == 6);
    assert("watcher_joined"@.len() == 14);
    assert(is_ascii_chars("out"@));
    assert(is_ascii_chars("closed"@));
    assert(is_ascii_chars("watcher_joined"@));
    is_ascii_chars_encode_utf8("out"@);
    is_ascii_chars_encode_utf8("closed"@);
    is_ascii_chars_encode_utf8("watcher_joined"@);
}

/// The fields of a notification's frame stand for that notification,
/// payload included.
pub proof fn lemma_notification_from_its_payload(notification: NotificationView)
    ensures
        NotificationView::from_payload(notification.payload().1, notification.payload().2) == Ok::<
            NotificationView,
            Error,
        >(notification),
{
    lemma_topic_names();
}

/// The boolean of a response's frame stands for that response.
pub proof fn lemma_response_from_its_payload(response: JoinResponse)
    ensures
        JoinResponse::spec_from_payload(response.spec_payload().3) == response,
{
}

impl Notification {
    /// The fields of the notification's frame.
    pub fn payload(&self) -> (fields: (u8, &str, &String))
        ensures
            (fields.0, fields.1@, fields.2@) == self@.payload(),
    {
        let header = 2u8;

        match self {
            Notification::Output(string) => (header, "out", string),
            Notification::Closed(string) => (header, "closed", string),
            Notification::WatcherJoined(string) => (header, "watcher_joined", string),
        }
    }

    /// The notification that the fields of a frame stand for.
    pub fn from_payload(topic: &str, data: String) -> (notification: Result<Notification, Error>)
        ensures
            notification matches Ok(n) ==> NotificationView::from_payload(topic@, data@) == Ok::<
                NotificationView,
                Error,
            >(n@),
            notification matches Err(e) ==> NotificationView::from_payload(topic@, data@) == Err::<
                NotificationView,
                Error,
            >(e),
    {
        if same_text(topic, "out") {
            Ok(Notification::Output(data))
        } else if same_text(topic, "closed") {
            Ok(Notification::Closed(data))
        } else if same_text(topic, "watcher_joined") {
            Ok(Notification::WatcherJoined(data))
        } else {
            Err(Error::UnknownMessage)
        }
    }

    /// Appends the notification's frame to `stream`.
    ///
    /// Fails, leaving the stream as it was, exactly when the payload is too
    /// long for a frame. A frame that was sent is received as the
    /// notification that it was made from, payload included.
    pub fn send(&self, stream: &mut Vec<u8>) -> (sent: Result<(), Error>)
        ensures
            sent is Ok <==> self@.representable(),
            sent is Ok ==> final(stream)@ == old(stream)@ + self@.frame(),
            sent is Ok ==> NotificationView::parse(self@.frame()) == Ok::<
                (NotificationView, nat),
                Error,
            >((self@, self@.frame().len())),
            sent is Err ==> sent == Err::<(), Error>(Error::Encode) && final(stream)@ == old(
                stream,
            )@,
    {
        let (header, topic, data) = self.payload();
        proof {
            lemma_topic_names();
        }
        if data.as_str().as_bytes().len() > 0xFFFF_FFFFusize {
            return Err(Error::Encode);
        }
        match pack_notification(header, topic, data.as_str()) {
            Some(mut frame) => {
                stream.append(&mut frame);
                Ok(())
            },
            None => Err(Error::Encode),
        }
    }

    /// Reads one notification from the front of `stream`, and says how many
    /// bytes its frame took.
    pub fn receive(stream: &[u8]) -> (received: Result<(Notification, usize), Error>)
        ensures
            received matches Ok(got) ==> NotificationView::parse(stream@) == Ok::<
                (NotificationView, nat),
                Error,
            >((got.0@, got.1 as nat)) && got.1 <= stream@.len(),
            received matches Err(e) ==> NotificationView::parse(stream@) == Err::<
                (NotificationView, nat),
                Error,
            >(e),
    {
        match unpack_notification(stream) {
            Ok((_, topic, data, rest)) => {
                let used = stream.len() - rest.len();
                match Notification::from_payload(topic.as_str(), data) {
                    Ok(notification) => Ok((notification, used)),
                    Err(e) => Err(e),
                }
            },
            Err(e) => Err(Error::Decode(e)),
        }
    }
}

} // verus!
