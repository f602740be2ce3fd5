use vstd::prelude::*;

use crate::error::PrinterError;
use crate::handshake::{initial, Handshake};

verus! {

/// A driver that gathers outbound bytes for one printer.
///
/// Nothing reaches the device on `write`; the whole pending buffer is sent by
/// the spool handshake that `write_all` starts. The buffer is never cleared by
/// a flush: a second flush sends the same bytes again, followed by whatever
/// was written in between.
#[derive(Debug)]
pub struct WindowsDriver {
    printer_name: String,
    buffer: Vec<u8>,
}

/// What a driver holds, in mathematical terms.
pub ghost struct DriverView {
    pub printer_name: Seq<char>,
    pub pending: Seq<u8>,
}

impl View for WindowsDriver {
    type V = DriverView;

    closed spec fn view(&self) -> DriverView {
        DriverView { printer_name: self.printer_name@, pending: self.buffer@ }
    }
}

/// The pending buffer after `data` is written to a driver that held `pending`.
pub open spec fn appended(pending: Seq<u8>, data: Seq<u8>) -> Seq<u8> {
    pending + data
}

impl WindowsDriver {
    /// Makes a driver for the printer of the given name, with an empty buffer.
    /// No device is touched.
    pub fn open(printer_name: &str) -> (r: Result<WindowsDriver, PrinterError>)
        ensures
            r is Ok,
            r.unwrap()@.printer_name == printer_name@,
            r.unwrap()@.pending == Seq::<u8>::empty(),
    {
        Ok(WindowsDriver { printer_name: printer_name.to_owned(), buffer: Vec::new() })
    }

    /// The name of this transport.
    pub fn name(&self) -> (r: String)
        ensures
            r@ == "Windows Driver"@,
    {
        "Windows Driver".to_owned()
    }

    /// The name of the printer this driver sends to.
    pub fn printer_name(&self) -> (r: &str)
        ensures
            r@ == self@.printer_name,
    {
        self.printer_name.as_str()
    }

    /// The bytes a flush sends.
    pub fn pending(&self) -> (r: &[u8])
        ensures
            r@ == self@.pending,
    {
        self.buffer.as_slice()
    }

    /// Appends `data` to the pending buffer; never touches the device.
    pub fn write(&mut self, data: &[u8]) -> (r: Result<(), PrinterError>)
        ensures
            r is Ok,
            final(self)@.pending == appended(old(self)@.pending, data@),
            final(self)@.printer_name == old(self)@.printer_name,
    {
        self.buffer.extend_from_slice(data);
        assert(self.buffer@ =~= appended(old(self)@.pending, data@));
        Ok(())
    }

    /// Starts the spool handshake that sends the whole pending buffer; the
    /// buffer itself stays as it is.
    pub fn write_all(&self) -> (r: Handshake)
        ensures
            r@ == initial(self@.pending.len()),
    {
        Handshake::new(self.buffer.len())
    }

    /// The transport is write-only: reads nothing, leaves `buf` as it is.
    pub fn read(&self, buf: &mut [u8]) -> (r: Result<usize, PrinterError>)
        ensures
            r == Ok::<usize, PrinterError>(0),
            final(buf)@ == old(buf)@,
    {
        Ok(0)
    }
}

} // verus!
