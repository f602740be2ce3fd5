use vstd::prelude::*;

verus! {

/// The primary error of a flush: the first acquisition or transmit step that failed.
#[derive(Debug, Clone, Copy, PartialEq, Eq, Structural)]
pub enum PrinterError {
    /// The printer could not be opened (offline, no permission, not found).
    OpenFailure,
    /// The document or the page session could not be started after the printer was opened.
    SessionStartFailure,
    /// The write call failed, or reported fewer or more bytes than the buffer holds.
    TransmitFailure,
}

} // verus!
