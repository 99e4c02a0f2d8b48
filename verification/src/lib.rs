//! The client side of a session with a window-system compositor.
//!
//! A session obtains a surface, wraps it as a toplevel window, provides a
//! shared-memory buffer of pixels and shows it once the compositor has
//! configured the window. The compositor announces what it offers in no
//! fixed order, so the session is a state machine: every event is answered
//! by a change of state and a list of requests. This crate decides; sending
//! the requests and reading the events is left to the program around it.
//!
//! - [`protocol`]: events and requests as plain values.
//! - [`session`]: the state and its reaction to each event.
//! - [`client`]: batches of events and the dispatch loop.
//! - [`seat`]: the keyboard capability and the exit key.
//! - [`pixels`]: what the buffer holds.
//! - [`device`]: the choice of a rendering device.
//! - [`tally`] and [`laws`]: what is proved of every session.

pub mod client;
pub mod device;
pub mod laws;
pub mod pixels;
pub mod protocol;
pub mod seat;
pub mod session;
pub mod tally;
