//! A server-side TELNET byte-stream decoder.
//!
//! The heart of the crate is [`state::State`], a byte-by-byte state machine
//! that strips in-band TELNET command sequences out of an inbound stream,
//! answers option negotiations, applies editing controls, and collects the
//! remaining payload for the application. Its behaviour is specified against
//! the mathematical model in [`model`] and the stated laws are proved in
//! [`laws`].

pub mod laws;
pub mod model;
pub mod read;
pub mod state;
