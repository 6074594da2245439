//! Verified core of a file-system monitor.
//!
//! Raw change notifications are buffered per debounce window, coalesced into
//! settled records, classified into [`event::FileSystemEvent`]s and handed to a
//! bounded channel. Everything that touches the operating system (the watch
//! backend, clocks, waiting) is left to the caller, who feeds the library plain
//! values and performs the actions it asks for.

pub mod channel;
pub mod config;
pub mod debounce;
pub mod event;
pub mod file_monitor;
pub mod pipeline;
pub mod watch;
