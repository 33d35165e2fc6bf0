//! The logic of an IMAP IDLE watcher: the secure transport pump's choices,
//! the line buffer, the login / select / idle state machine, the reconnection
//! policy and the run status shared with the interval timer.

pub mod config;
pub mod lines;
pub mod protocol;
pub mod pump;
pub mod reconnect;
pub mod scheduler;
pub mod tls;
