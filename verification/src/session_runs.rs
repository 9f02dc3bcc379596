//! Runs of a broadcaster's session: what a sequence of reports and drains
//! makes of the session and sends to the server, with the laws that hold of
//! every run.

use crate::broadcast::{drained_frames, Phase, SessionView};
use crate::message::{Error, NotificationView};
use crate::pty_spawn::AttributesView;
use crate::winsize::{lemma_size_hint_fits, size_hint, Winsize};
use vstd::prelude::*;

verus! {

/// One thing that happens to a session.
pub enum SessionEvent {
    /// A read from the pseudo-terminal returned these bytes.
    Read(Seq<u8>),
    /// The window took this size.
    Resize(Winsize),
    /// The server sent this, or reading from it failed, while the window
    /// had this size.
    Notified(Result<NotificationView, Error>, Winsize),
    /// The main task drained the queue.
    Drain,
    /// The bytes for the server could not be written.
    SendFailed,
}

/// The session after one event, and the bytes that the event sends.
pub open spec fn session_step(session: SessionView, event: SessionEvent) -> (SessionView, Seq<u8>) {
    match event {
        SessionEvent::Read(data) => (session.read(data), Seq::empty()),
        SessionEvent::Resize(size) => (session.resize(size), Seq::empty()),
        SessionEvent::Notified(received, size) => (session.notified(received, size), Seq::empty()),
        SessionEvent::Drain => (session.drain(), drained_frames(session.queue)),
        SessionEvent::SendFailed => (session.send_failed(), Seq::empty()),
    }
}

/// The session after a sequence of events, and all the bytes sent.
pub open spec fn session_run(session: SessionView, events: Seq<SessionEvent>) -> (SessionView, Seq<u8>)
    decreases events.len(),
{
    if events.len() == 0 {
        (session, Seq::empty())
    } else {
        let (before, sent) = session_run(session, events.drop_last());
        let (after, more) = session_step(before, events.last());
        (after, sent + more)
    }
}

/// The frame of the size hint of a window.
pub open spec fn size_hint_frame(size: Winsize) -> Seq<u8> {
    NotificationView::Output(size_hint(size.ws_row, size.ws_col)).frame()
}

/// An offer keeps a well-formed session well formed, and keeps what the
/// session has saved.
pub proof fn lemma_offer_keeps_wf(session: SessionView, message: Option<NotificationView>)
    requires
        session.wf(),
    ensures
        session.offer(message).wf(),
        session.offer(message).saved == session.saved,
{
}

/// Every event keeps a well-formed session well formed, and keeps the
/// attributes that the session has saved.
pub proof fn lemma_step_keeps_wf(session: SessionView, event: SessionEvent)
    requires
        session.wf(),
    ensures
        session_step(session, event).0.wf(),
        session_step(session, event).0.saved == session.saved,
{
    match event {
        SessionEvent::Read(data) => {},
        SessionEvent::Resize(size) => {},
        SessionEvent::Notified(received, size) => {
            match received {
                Err(_) => {
                    if session.phase == Phase::Active {
                        let marked = SessionView {
                            phase: session.phase,
                            queue: session.queue,
                            saved: session.saved,
                            failed: true,
                        };
                        lemma_offer_keeps_wf(marked, None);
                    }
                },
                _ => {},
            }
        },
        SessionEvent::Drain => {
            if session.phase == Phase::Draining {
                crate::broadcast::lemma_drain_stops_at_end(session.queue, session.queue.len() - 1);
            }
        },
        SessionEvent::SendFailed => {},
    }
}

/// A session that has started is well formed.
pub proof fn lemma_started_is_wf(saved: AttributesView, size: Winsize)
    ensures
        SessionView::started(saved, size).wf(),
{
}

/// Whatever happens to a session, it stays well formed, so the end is
/// queued at most once and nothing is queued behind it; and the attributes
/// to restore at the end are those that the terminal had at the start.
pub proof fn lemma_run_keeps_wf(session: SessionView, events: Seq<SessionEvent>)
    requires
        session.wf(),
    ensures
        session_run(session, events).0.wf(),
        session_run(session, events).0.saved == session.saved,
    decreases events.len(),
{
    if events.len() > 0 {
        lemma_run_keeps_wf(session, events.drop_last());
        lemma_step_keeps_wf(session_run(session, events.drop_last()).0, events.last());
    }
}

/// In a well-formed session the end is queued at most once, and as the last
/// thing.
pub proof fn lemma_end_is_queued_once(session: SessionView, at: int)
    requires
        session.wf(),
        0 <= at < session.queue.len(),
        session.queue[at] is None,
    ensures
        session.phase == Phase::Draining,
        at == session.queue.len() - 1,
{
}

/// A read of no byte ends an active session: the end is queued, and no
/// later report of a task changes the queue.
pub proof fn lemma_empty_read_ends_session(
    session: SessionView,
    later: Option<NotificationView>,
)
    requires
        session.wf(),
        session.phase == Phase::Active,
    ensures
        session.read(Seq::empty()).phase == Phase::Draining,
        session.read(Seq::empty()).queue == session.queue.push(None),
        session.read(Seq::empty()).offer(later) == session.read(Seq::empty()),
{
}

/// The first thing that a session sends to the server is the size hint of
/// the window that it started with.
pub proof fn lemma_size_hint_is_sent_first(
    saved: AttributesView,
    size: Winsize,
    events: Seq<SessionEvent>,
)
    ensures
        session_run(SessionView::started(saved, size), events).1.len() > 0
            ==> size_hint_frame(size).is_prefix_of(
            session_run(SessionView::started(saved, size), events).1,
        ),
{
    lemma_first_sent(saved, size, events);
}

/// As long as nothing is sent, the size hint waits at the head of the
/// queue, unless the session has terminated; once something is sent, it
/// begins with the frame of the size hint.
proof fn lemma_first_sent(saved: AttributesView, size: Winsize, events: Seq<SessionEvent>)
    ensures
        ({
            let (session, sent) = session_run(SessionView::started(saved, size), events);
            let hint = Some(NotificationView::Output(size_hint(size.ws_row, size.ws_col)));
            &&& session.wf()
            &&& if sent.len() == 0 {
                ||| session.phase == Phase::Terminated
                ||| session.queue.len() > 0 && session.queue[0] == hint
            } else {
                size_hint_frame(size).is_prefix_of(sent)
            }
        }),
    decreases events.len(),
{
    let start = SessionView::started(saved, size);
    let notification = NotificationView::Output(size_hint(size.ws_row, size.ws_col));
    if events.len() > 0 {
        lemma_first_sent(saved, size, events.drop_last());
        let (before, sent) = session_run(start, events.drop_last());
        let (after, more) = session_step(before, events.last());
        lemma_step_keeps_wf(before, events.last());
        if sent.len() == 0 {
            assert(sent + more =~= more);
            match events.last() {
                SessionEvent::Drain => {
                    if before.phase != Phase::Terminated {
                        lemma_size_hint_fits(size.ws_row, size.ws_col);
                        assert(notification.representable());
                        assert(more == notification.frame() + drained_frames(
                            before.queue.drop_first(),
                        ));
                        assert(notification.frame().len() > 0);
                    }
                },
                _ => {},
            }
        } else {
            assert(size_hint_frame(size).is_prefix_of(sent + more));
        }
    }
}

} // verus!
