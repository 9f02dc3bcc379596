//! Terminal sharing: the message frames that cross the wire, the hub that
//! fans a broadcaster's output out to the watchers of a channel, and the
//! decisions of the broadcasting and the watching side.

pub mod broadcast;
pub mod channel_runs;
pub mod message;
pub mod pty_spawn;
pub mod server;
pub mod session_runs;
pub mod text;
pub mod watch;
pub mod winsize;
pub mod wire;
