//! A write-only spool driver: bytes are gathered in memory and handed to an
//! OS-managed printer in one spool handshake, whose every acquired resource is
//! released exactly once, in reverse order of acquisition.
//!
//! The handshake is a verified state machine ([`Handshake`]): it decides which
//! spooler call comes next and what the flush returns, while the caller makes
//! the calls and reports their outcomes.

pub mod driver;
pub mod error;
pub mod handshake;
pub mod laws;

pub use driver::WindowsDriver;
pub use error::PrinterError;
pub use handshake::{Action, Event, Handshake};
