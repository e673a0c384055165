//! The boundary between a calculator engine and the host that displays it.
//!
//! The host owns the screen and the input devices; the engine owns the
//! document. This crate holds what passes between the two: the turning of
//! key codes into editor events, the byte stream that carries one render pass
//! to the host, the text form in which a document is stored outside a session,
//! and the table that maps session handles to the resources behind them.

pub mod buckets;
pub mod buffer;
pub mod codec;
pub mod command;
pub mod encoder;
pub mod framing;
pub mod input;
pub mod session;
