//! The watching side: what a watcher does with what the server sends.

use crate::message::{Error, Notification};
use vstd::prelude::*;
use vstd::string::StringExecFns;

verus! {

/// What the watcher does next.
#[derive(Debug, PartialEq, Eq)]
pub enum Step {
    /// Write the text to the terminal, flush, and go on reading.
    Write(String),
    /// Print the line and leave without a failure.
    Exit(String),
    /// Go on reading.
    Ignore,
    /// Leave with this failure.
    Fail(Error),
}

/// The line to print when the server has closed the channel.
pub open spec fn closed_line(reason: Seq<char>) -> Seq<char> {
    "Connection closed: "@ + reason
}

/// The handler of what the server sends to a watcher.
#[derive(Clone, Copy, Debug)]
pub struct NotificationHandler;

impl NotificationHandler {
    /// The text to write for an output.
    pub fn handle_output(data: String) -> (step: Step)
        ensures
            step matches Step::Write(text) && text@ == data@,
    {
        Step::Write(data)
    }

    /// The line to print when the channel was closed.
    pub fn handle_closed(reason: String) -> (step: Step)
        ensures
            step matches Step::Exit(line) && line@ == closed_line(reason@),
    {
        let mut line = String::from_str("Connection closed: ");
        line.append(reason.as_str());
        Step::Exit(line)
    }

    /// What the watcher does with what it received: output is written,
    /// a closed channel ends the watcher, the arrival of another watcher is
    /// ignored, and a failure to receive is the watcher's failure.
    pub fn process(received: Result<Notification, Error>) -> (step: Step)
        ensures
            match received {
                Ok(Notification::Output(data)) => step matches Step::Write(text) && text@ == data@,
                Ok(Notification::Closed(reason)) => step matches Step::Exit(line) && line@
                    == closed_line(reason@),
                Ok(Notification::WatcherJoined(_)) => step is Ignore,
                Err(e) => step matches Step::Fail(f) && f == e,
            },
    {
        match received {
            Ok(Notification::Output(data)) => Self::handle_output(data),
            Ok(Notification::Closed(reason)) => Self::handle_closed(reason),
            Ok(Notification::WatcherJoined(_)) => Step::Ignore,
            Err(e) => Step::Fail(e),
        }
    }
}

} // verus!
