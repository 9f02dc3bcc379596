//! The broadcasting side: the session that bridges a shell under a
//! pseudo-terminal to the server.
//!
//! The session decides and does no I/O. Its tasks report what they read,
//! and the session queues what is to be sent; the main task drains the
//! queue into the bytes for the server. A session is active until something
//! ends it (the shell exits, the server closes the session, reading from
//! the server fails), drains what was queued before that, and is then
//! terminated.

use crate::message::{
    message_view, message_views, Error, Notification, NotificationView,
};
use crate::pty_spawn::{enter_raw_mode, Attributes, AttributesView, Names};
use crate::winsize::{size_hint, Winsize};
use vstd::prelude::*;
use vstd::string::StringExecFns;
use vstd::utf8::{decode_utf8, valid_utf8};

verus! {

/// The text that `String::from_utf8_lossy` makes of bytes.
pub uninterp spec fn utf8_lossy(bytes: Seq<u8>) -> Seq<char>;

/// Calls `String::from_utf8_lossy` and takes the text as a `String`.
///
/// Trusted: the text is a function of the bytes alone, and valid UTF-8 is
/// decoded as it stands.
#[verifier::external_body]
fn lossy_text(data: &[u8]) -> (text: String)
    ensures
        text@ == utf8_lossy(data@),
        valid_utf8(data@) ==> text@ == decode_utf8(data@),
{
    String::from_utf8_lossy(data).into_owned()
}

/// The notification that carries the size of the window in band.
pub fn build_winsize_notification(size: &Winsize) -> (notification: Notification)
    ensures
        notification@ == NotificationView::Output(size_hint(size.ws_row, size.ws_col)),
{
    Notification::Output(size.hint())
}

/// Where a session stands.
#[derive(Clone, Copy, Debug, PartialEq, Eq, Structural)]
pub enum Phase {
    /// The tasks run and queue what is to be sent.
    Active,
    /// The end is queued; what was queued before it is still to be sent.
    Draining,
    /// Nothing is sent any more.
    Terminated,
}

/// How a session ended, and what is left to do: restore the terminal to
/// these attributes, wait for the shell, and leave with a failure or
/// without.
#[derive(Debug, PartialEq, Eq)]
pub struct Finish {
    pub restore: Attributes,
    pub failed: bool,
}

/// A session as a value.
pub struct SessionView {
    pub phase: Phase,
    /// What is queued for the server, oldest first. Nothing stands for the
    /// end.
    pub queue: Seq<Option<NotificationView>>,
    /// The attributes that the terminal had before the session.
    pub saved: AttributesView,
    /// Whether the session ends in failure.
    pub failed: bool,
}

/// The bytes that draining a queue sends: the frame of each notification,
/// up to the end of the queue or to a notification that has no frame.
pub open spec fn drained_frames(queue: Seq<Option<NotificationView>>) -> Seq<u8>
    decreases queue.len(),
{
    if queue.len() == 0 {
        Seq::empty()
    } else {
        match queue[0] {
            Some(notification) => if notification.representable() {
                notification.frame() + drained_frames(queue.drop_first())
            } else {
                Seq::empty()
            },
            None => Seq::empty(),
        }
    }
}

/// What stops the draining of a queue: nothing, where the queue holds only
/// notifications with a frame; else whether it was a failure, which a
/// notification without a frame is and the queued end is not.
pub open spec fn drain_stop(queue: Seq<Option<NotificationView>>) -> Option<bool>
    decreases queue.len(),
{
    if queue.len() == 0 {
        None
    } else {
        match queue[0] {
            Some(notification) => if notification.representable() {
                drain_stop(queue.drop_first())
            } else {
                Some(true)
            },
            None => Some(false),
        }
    }
}

impl SessionView {
    /// While active, a session has queued no end; while draining, the end
    /// is the last thing queued; once terminated, nothing is queued.
    pub open spec fn wf(self) -> bool {
        match self.phase {
            Phase::Active => forall|i: int| 0 <= i < self.queue.len() ==> self.queue[i] is Some,
            Phase::Draining => {
                &&& self.queue.len() > 0
                &&& self.queue.last() is None
                &&& forall|i: int| 0 <= i < self.queue.len() - 1 ==> self.queue[i] is Some
            },
            Phase::Terminated => self.queue.len() == 0,
        }
    }

    /// A session that has just started: the size of the window is queued.
    pub open spec fn started(saved: AttributesView, size: Winsize) -> SessionView {
        SessionView {
            phase: Phase::Active,
            queue: seq![Some(NotificationView::Output(size_hint(size.ws_row, size.ws_col)))],
            saved,
            failed: false,
        }
    }

    /// The session after a task has offered a message: an active session
    /// queues it, and starts draining where it is the end; any other leaves
    /// it.
    pub open spec fn offer(self, message: Option<NotificationView>) -> SessionView {
        if self.phase == Phase::Active {
            SessionView {
                phase: if message is None {
                    Phase::Draining
                } else {
                    Phase::Active
                },
                queue: self.queue.push(message),
                saved: self.saved,
                failed: self.failed,
            }
        } else {
            self
        }
    }

    /// The session after the shell has written `data`.
    pub open spec fn output(self, data: Seq<u8>) -> SessionView {
        self.offer(Some(NotificationView::Output(utf8_lossy(data))))
    }

    /// The session after the window has taken a new size.
    pub open spec fn resize(self, size: Winsize) -> SessionView {
        self.offer(Some(NotificationView::Output(size_hint(size.ws_row, size.ws_col))))
    }

    /// The session after the shell has gone.
    pub open spec fn shutdown(self) -> SessionView {
        self.offer(None)
    }

    /// The session after a read from the pseudo-terminal: a read of no byte
    /// means that the shell has gone.
    pub open spec fn read(self, data: Seq<u8>) -> SessionView {
        if data.len() == 0 {
            self.shutdown()
        } else {
            self.output(data)
        }
    }

    /// The session after the server has sent something, or reading from it
    /// has failed, while the window has the size `size`.
    pub open spec fn notified(
        self,
        received: Result<NotificationView, Error>,
        size: Winsize,
    ) -> SessionView {
        match received {
            Ok(NotificationView::Closed(_)) => self.shutdown(),
            Ok(NotificationView::WatcherJoined(_)) => self.resize(size),
            Ok(NotificationView::Output(_)) => self,
            Err(_) => if self.phase == Phase::Active {
                SessionView {
                    phase: self.phase,
                    queue: self.queue,
                    saved: self.saved,
                    failed: true,
                }.shutdown()
            } else {
                self
            },
        }
    }

    /// The session after the main task has drained the queue.
    pub open spec fn drain(self) -> SessionView {
        match drain_stop(self.queue) {
            Some(failure) => SessionView {
                phase: Phase::Terminated,
                queue: Seq::empty(),
                saved: self.saved,
                failed: self.failed || failure,
            },
            None => SessionView {
                phase: self.phase,
                queue: Seq::empty(),
                saved: self.saved,
                failed: self.failed,
            },
        }
    }

    /// The session after the bytes for the server could not be written.
    pub open spec fn send_failed(self) -> SessionView {
        SessionView {
            phase: Phase::Terminated,
            queue: Seq::empty(),
            saved: self.saved,
            failed: true,
        }
    }
}

/// Draining a queue that holds the end stops.
pub proof fn lemma_drain_stops_at_end(queue: Seq<Option<NotificationView>>, at: int)
    requires
        0 <= at < queue.len(),
        queue[at] is None,
    ensures
        drain_stop(queue) is Some,
    decreases at,
{
    if at > 0 {
        lemma_drain_stops_at_end(queue.drop_first(), at - 1);
    }
}

/// The line to print when the server has closed the session.
pub open spec fn stopped_line(reason: Seq<char>) -> Seq<char> {
    "Broadcast has stopped: "@ + reason
}

/// The session of a broadcaster.
#[derive(Debug)]
pub struct Session {
    phase: Phase,
    queue: Vec<Option<Notification>>,
    saved: Attributes,
    failed: bool,
}

impl View for Session {
    type V = SessionView;

    closed spec fn view(&self) -> SessionView {
        SessionView {
            phase: self.phase,
            queue: message_views(self.queue@),
            saved: self.saved@,
            failed: self.failed,
        }
    }
}

impl Session {
    #[verifier::type_invariant]
    spec fn inv(self) -> bool {
        self@.wf()
    }

    /// A terminated session that holds nothing, to stand in for a session
    /// that is being changed.
    fn blank() -> (session: Session)
        ensures
            session@.phase == Phase::Terminated,
    {
        Session {
            phase: Phase::Terminated,
            queue: Vec::new(),
            saved: Attributes { c_iflag: 0, c_oflag: 0, c_cflag: 0, c_lflag: 0, c_cc: Vec::new() },
            failed: false,
        }
    }

    /// Starts a session on a terminal that has `attributes` and a window of
    /// `size`: the attributes are kept for the end, the size is queued as
    /// the first thing for the server, and the terminal is to be put into
    /// the raw mode that is handed back.
    pub fn start(attributes: Attributes, names: &Names, size: &Winsize) -> (started: (Session, Attributes))
        requires
            attributes@.has_slots(*names),
        ensures
            started.0@ == SessionView::started(attributes@, *size),
            started.0@.wf(),
            started.1@ == attributes@.raw(*names),
    {
        let raw = enter_raw_mode(&attributes, names);
        let mut queue: Vec<Option<Notification>> = Vec::new();
        queue.push(Some(build_winsize_notification(size)));
        proof {
            assert(message_views(queue@) =~= seq![
                Some(NotificationView::Output(size_hint(size.ws_row, size.ws_col))),
            ]);
        }
        let session = Session { phase: Phase::Active, queue, saved: attributes, failed: false };
        (session, raw)
    }

    /// Where the session stands.
    pub fn phase(&self) -> (phase: Phase)
        ensures
            phase == self@.phase,
            self@.wf(),
    {
        proof {
            use_type_invariant(self);
        }
        self.phase
    }

    /// Number of messages that are queued.
    pub fn queued(&self) -> (len: usize)
        ensures
            len == self@.queue.len(),
    {
        self.queue.len()
    }

    /// Whether the session ends in failure.
    pub fn failed(&self) -> (failed: bool)
        ensures
            failed == self@.failed,
    {
        self.failed
    }

    /// A task offers a message for the queue.
    fn offer(&mut self, message: Option<Notification>)
        ensures
            final(self)@ == old(self)@.offer(message_view(message)),
    {
        proof {
            use_type_invariant(&*self);
        }
        match self.phase {
            Phase::Active => {
                let mut taken = Session::blank();
                core::mem::swap(self, &mut taken);
                let Session { phase, mut queue, saved, failed } = taken;
                let next = if message.is_none() {
                    Phase::Draining
                } else {
                    Phase::Active
                };
                queue.push(message);
                proof {
                    assert(message_views(queue@) =~= old(self)@.queue.push(message_view(message)));
                }
                *self = Session { phase: next, queue, saved, failed };
            },
            _ => {},
        }
    }

    /// The shell has written `data`: it is queued as output.
    pub fn output(&mut self, data: &[u8])
        ensures
            final(self)@ == old(self)@.output(data@),
    {
        let string = lossy_text(data);
        self.offer(Some(Notification::Output(string)));
    }

    /// The window has taken a new size: its size hint is queued.
    pub fn resize(&mut self, size: &Winsize)
        ensures
            final(self)@ == old(self)@.resize(*size),
    {
        self.offer(Some(build_winsize_notification(size)));
    }

    /// The shell has gone: the end is queued.
    pub fn shutdown(&mut self)
        ensures
            final(self)@ == old(self)@.shutdown(),
    {
        self.offer(None);
    }

    /// A read from the pseudo-terminal has returned `data`. A read of no
    /// byte means that the shell has gone; the task that reads stops then,
    /// which is what is handed back.
    pub fn read(&mut self, data: &[u8]) -> (stop: bool)
        ensures
            final(self)@ == old(self)@.read(data@),
            stop == (data@.len() == 0),
    {
        if data.len() == 0 {
            self.shutdown();
            true
        } else {
            self.output(data);
            false
        }
    }

    /// The server has sent something, or reading from it has failed, while
    /// the window has the size `size`.
    ///
    /// A closed session queues the end, and the line that says so is handed
    /// back; a watcher that has joined gets the size of the window; output
    /// is ignored; a failure queues the end and marks the session as failed.
    /// The task that reads stops unless the server goes on, which is the
    /// second thing handed back.
    pub fn notified(&mut self, received: Result<Notification, Error>, size: &Winsize) -> (told: (Option<String>, bool))
        ensures
            final(self)@ == old(self)@.notified(
                match received {
                    Ok(notification) => Ok(notification@),
                    Err(e) => Err(e),
                },
                *size,
            ),
            match received {
                Ok(Notification::Closed(reason)) => told.0 matches Some(line) && line@
                    == stopped_line(reason@) && told.1,
                Ok(_) => told.0 is None && !told.1,
                Err(_) => told.0 is None && told.1,
            },
    {
        proof {
            use_type_invariant(&*self);
        }
        match received {
            Ok(Notification::Closed(reason)) => {
                let mut line = String::from_str("Broadcast has stopped: ");
                line.append(reason.as_str());
                self.shutdown();
                (Some(line), true)
            },
            Ok(Notification::WatcherJoined(_)) => {
                self.resize(size);
                (None, false)
            },
            Ok(Notification::Output(_)) => (None, false),
            Err(_) => {
                match self.phase {
                    Phase::Active => {
                        let mut taken = Session::blank();
                        core::mem::swap(self, &mut taken);
                        let Session { phase, queue, saved, failed } = taken;
                        *self = Session { phase, queue, saved, failed: true };
                        self.shutdown();
                    },
                    _ => {},
                }
                (None, true)
            },
        }
    }

    /// The main task drains the queue: the frame of each queued
    /// notification is appended to `stream`, oldest first.
    ///
    /// The queued end terminates the session. So does a notification that
    /// has no frame, because its payload is too long, and that is a
    /// failure. A session that has terminated hands back how it ended; one
    /// that goes on hands back nothing.
    pub fn drain(&mut self, stream: &mut Vec<u8>) -> (finish: Option<Finish>)
        ensures
            final(self)@ == old(self)@.drain(),
            final(stream)@ == old(stream)@ + drained_frames(old(self)@.queue),
            match finish {
                Some(end) => final(self)@.phase == Phase::Terminated && end.restore@ == old(
                    self,
                )@.saved && end.failed == final(self)@.failed,
                None => final(self)@.phase != Phase::Terminated,
            },
    {
        proof {
            use_type_invariant(&*self);
        }
        let mut taken = Session::blank();
        core::mem::swap(self, &mut taken);
        let Session { phase, queue, saved, failed } = taken;
        let ghost messages = message_views(queue@);
        let mut stop: Option<bool> = None;
        let mut i: usize = 0;
        assert(messages.skip(0) =~= messages);
        assert(old(stream)@ + Seq::<u8>::empty() =~= old(stream)@);
        while i < queue.len() && stop.is_none()
            invariant
                i <= queue.len(),
                messages == message_views(queue@),
                stop is None ==> drain_stop(messages) == drain_stop(messages.skip(i as int)),
                stop is None ==> stream@ + drained_frames(messages.skip(i as int)) == old(stream)@
                    + drained_frames(messages),
                stop is Some ==> drain_stop(messages) == stop,
                stop is Some ==> stream@ == old(stream)@ + drained_frames(messages),
            decreases queue.len() - i, if stop is None { 1int } else { 0int },
        {
            assert(messages.skip(i as int).drop_first() =~= messages.skip(i as int + 1));
            assert(messages.skip(i as int)[0] == messages[i as int]);
            match &queue[i] {
                Some(notification) => {
                    let ghost before = stream@;
                    match notification.send(stream) {
                        Ok(()) => {
                            assert(before + (notification@.frame() + drained_frames(
                                messages.skip(i as int + 1),
                            )) =~= stream@ + drained_frames(messages.skip(i as int + 1)));
                            i += 1;
                        },
                        Err(_) => {
                            assert(stream@ + Seq::<u8>::empty() =~= stream@);
                            stop = Some(true);
                        },
                    }
                },
                None => {
                    assert(stream@ + Seq::<u8>::empty() =~= stream@);
                    stop = Some(false);
                },
            }
        }
        proof {
            if stop is None {
                assert(messages.skip(i as int) =~= Seq::<Option<NotificationView>>::empty());
                assert(stream@ + Seq::<u8>::empty() =~= stream@);
                if phase == Phase::Draining {
                    lemma_drain_stops_at_end(messages, messages.len() - 1);
                }
            }
        }
        let empty: Vec<Option<Notification>> = Vec::new();
        assert(message_views(empty@) =~= Seq::<Option<NotificationView>>::empty());
        match stop {
            Some(failure) => {
                let failed = failed || failure;
                let restore = saved.clone();
                *self = Session { phase: Phase::Terminated, queue: empty, saved, failed };
                Some(Finish { restore, failed })
            },
            None => {
                match phase {
                    Phase::Terminated => {
                        let restore = saved.clone();
                        *self = Session { phase, queue: empty, saved, failed };
                        Some(Finish { restore, failed })
                    },
                    _ => {
                        *self = Session { phase, queue: empty, saved, failed };
                        None
                    },
                }
            },
        }
    }

    /// The bytes for the server could not be written: the session
    /// terminates in failure.
    pub fn send_failed(&mut self) -> (finish: Finish)
        ensures
            final(self)@ == old(self)@.send_failed(),
            finish.restore@ == old(self)@.saved,
            finish.failed,
    {
        let mut taken = Session::blank();
        core::mem::swap(self, &mut taken);
        let Session { phase, queue, saved, failed } = taken;
        let restore = saved.clone();
        let empty: Vec<Option<Notification>> = Vec::new();
        assert(message_views(empty@) =~= Seq::<Option<NotificationView>>::empty());
        *self = Session { phase: Phase::Terminated, queue: empty, saved, failed: true };
        Finish { restore, failed: true }
    }
}

/// The task that notices that the window has changed its size. A signal
/// handler counts the signals and does nothing else; the task looks at the
/// count at intervals, so that a burst of signals between two looks makes
/// one resize.
#[derive(Clone, Copy, Debug, PartialEq, Eq, Structural)]
pub struct ResizeTask {
    /// The count at the last look.
    pub seen: u64,
}

/// Number of resizes that a task makes which has last seen the count `seen`
/// and then finds the counts `samples`, one at each look.
pub open spec fn resizes(seen: u64, samples: Seq<u64>) -> nat
    decreases samples.len(),
{
    if samples.len() == 0 {
        0
    } else if samples[0] != seen {
        1 + resizes(samples[0], samples.drop_first())
    } else {
        resizes(samples[0], samples.drop_first())
    }
}

impl ResizeTask {
    /// A task that starts at the count `count`.
    pub fn new(count: u64) -> (task: ResizeTask)
        ensures
            task.seen == count,
    {
        ResizeTask { seen: count }
    }

    /// One look at the count: whether the window is to be measured again,
    /// which it is when the count has moved since the last look.
    pub fn poll(&mut self, count: u64) -> (resize: bool)
        ensures
            resize == (count != old(self).seen),
            final(self).seen == count,
    {
        let resize = count != self.seen;
        self.seen = count;
        resize
    }
}

/// There is at most one resize for each look, however many signals came in
/// between.
pub proof fn lemma_one_resize_for_each_look(seen: u64, samples: Seq<u64>)
    ensures
        resizes(seen, samples) <= samples.len(),
    decreases samples.len(),
{
    if samples.len() > 0 {
        lemma_one_resize_for_each_look(samples[0], samples.drop_first());
    }
}

/// Without a signal there is no resize.
pub proof fn lemma_no_resize_without_signal(seen: u64, samples: Seq<u64>)
    requires
        forall|i: int| 0 <= i < samples.len() ==> samples[i] == seen,
    ensures
        resizes(seen, samples) == 0,
    decreases samples.len(),
{
    if samples.len() > 0 {
        lemma_no_resize_without_signal(seen, samples.drop_first());
    }
}

} // verus!
