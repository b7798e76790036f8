//! Pane and multiplexer model for a split-screen terminal: line assembly of
//! raw output, bounded line buffers, polled-command panes, focus, layout and
//! the lifecycle of terminal sessions.

pub mod buffer;
pub mod layout;
pub mod lines;
pub mod mux;
pub mod pane;
pub mod session;
