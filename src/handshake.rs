use vstd::prelude::*;

use crate::error::PrinterError;

verus! {

/// A spooler call, or the end of the handshake.
#[derive(Debug, Clone, Copy, PartialEq, Eq, Structural)]
pub enum Action {
    /// Open the printer by its name and obtain a handle.
    OpenPrinter,
    /// Begin a raw document session on the handle.
    StartDocument,
    /// Begin a page session in the document.
    StartPage,
    /// Write the whole pending buffer to the handle in one call.
    Transmit,
    /// End the page session.
    EndPage,
    /// End the document session.
    EndDocument,
    /// Close the printer handle.
    ClosePrinter,
    /// Nothing more to do: the flush returns its result.
    Finish,
}

/// How the call that a handshake asked for went.
#[derive(Debug, Clone, Copy, PartialEq, Eq, Structural)]
pub enum Event {
    /// The call reported success.
    Succeeded,
    /// The call reported failure.
    Failed,
    /// The write call succeeded and reported this many bytes written.
    Wrote(usize),
}

/// The state of a handshake, in mathematical terms.
pub ghost struct HandshakeView {
    /// Length of the buffer that the transmit step sends.
    pub payload_len: nat,
    /// The call to make next.
    pub next: Action,
    /// A printer handle is held.
    pub printer_open: bool,
    /// A document session is held.
    pub doc_started: bool,
    /// A page session is held.
    pub page_started: bool,
    /// The first primary failure, if any.
    pub error: Option<PrinterError>,
    /// The release calls that reported failure, in the order they were made.
    pub warnings: Seq<Action>,
}

/// A call that acquires a resource.
pub open spec fn is_acquire(a: Action) -> bool {
    a == Action::OpenPrinter || a == Action::StartDocument || a == Action::StartPage
}

/// A call that releases a resource.
pub open spec fn is_release(a: Action) -> bool {
    a == Action::EndPage || a == Action::EndDocument || a == Action::ClosePrinter
}

/// The call that releases what `a` acquired.
pub open spec fn release_of(a: Action) -> Action {
    match a {
        Action::OpenPrinter => Action::ClosePrinter,
        Action::StartDocument => Action::EndDocument,
        Action::StartPage => Action::EndPage,
        _ => Action::Finish,
    }
}

/// Whether `event` counts as success for the call `action`. A transmit
/// succeeds only when the call reports exactly the whole buffer written.
pub open spec fn succeeds(action: Action, event: Event, payload_len: nat) -> bool {
    match action {
        Action::Transmit => match event {
            Event::Wrote(n) => n == payload_len,
            _ => false,
        },
        _ => !(event is Failed),
    }
}

/// The next call of the unwinding: the innermost held resource is released
/// first; with nothing held the handshake is over.
pub open spec fn unwind_next(page_started: bool, doc_started: bool, printer_open: bool) -> Action {
    if page_started {
        Action::EndPage
    } else if doc_started {
        Action::EndDocument
    } else if printer_open {
        Action::ClosePrinter
    } else {
        Action::Finish
    }
}

/// `s`, turned to the unwinding of what it holds.
pub open spec fn unwind(s: HandshakeView) -> HandshakeView {
    HandshakeView { next: unwind_next(s.page_started, s.doc_started, s.printer_open), ..s }
}

/// `s` after a failed acquisition or transmit: the error is kept, the
/// unwinding starts.
pub open spec fn fail_with(s: HandshakeView, e: PrinterError) -> HandshakeView {
    unwind(HandshakeView { error: Some(e), ..s })
}

/// `s` after a release call: a failure is only recorded as a warning.
pub open spec fn note_release(s: HandshakeView, ok: bool) -> HandshakeView {
    HandshakeView { warnings: if ok { s.warnings } else { s.warnings.push(s.next) }, ..s }
}

/// The state after the call `s.next` produced `event`.
pub open spec fn step(s: HandshakeView, event: Event) -> HandshakeView {
    let ok = succeeds(s.next, event, s.payload_len);
    match s.next {
        Action::OpenPrinter => if ok {
            HandshakeView { printer_open: true, next: Action::StartDocument, ..s }
        } else {
            fail_with(s, PrinterError::OpenFailure)
        },
        Action::StartDocument => if ok {
            HandshakeView { doc_started: true, next: Action::StartPage, ..s }
        } else {
            fail_with(s, PrinterError::SessionStartFailure)
        },
        Action::StartPage => if ok {
            HandshakeView { page_started: true, next: Action::Transmit, ..s }
        } else {
            fail_with(s, PrinterError::SessionStartFailure)
        },
        Action::Transmit => if ok {
            unwind(s)
        } else {
            fail_with(s, PrinterError::TransmitFailure)
        },
        Action::EndPage => unwind(HandshakeView { page_started: false, ..note_release(s, ok) }),
        Action::EndDocument => unwind(HandshakeView { doc_started: false, ..note_release(s, ok) }),
        Action::ClosePrinter => unwind(HandshakeView { printer_open: false, ..note_release(s, ok) }),
        Action::Finish => s,
    }
}

/// A handshake about to send `payload_len` bytes: nothing held, nothing failed.
pub open spec fn initial(payload_len: nat) -> HandshakeView {
    HandshakeView {
        payload_len,
        next: Action::OpenPrinter,
        printer_open: false,
        doc_started: false,
        page_started: false,
        error: None,
        warnings: Seq::empty(),
    }
}

/// What a flush that ended in `s` returns: its primary error, or success.
pub open spec fn outcome(s: HandshakeView) -> Result<(), PrinterError> {
    match s.error {
        Some(e) => Err(e),
        None => Ok(()),
    }
}

/// The handshake driven from `s` by the outcomes `events`, one per call.
pub open spec fn run(s: HandshakeView, events: Seq<Event>) -> HandshakeView
    decreases events.len(),
{
    if events.len() == 0 {
        s
    } else {
        run(step(s, events[0]), events.drop_first())
    }
}

/// The calls made while `events` drive the handshake from `s`, in order.
pub open spec fn calls(s: HandshakeView, events: Seq<Event>) -> Seq<Action>
    decreases events.len(),
{
    if events.len() == 0 || s.next == Action::Finish {
        Seq::empty()
    } else {
        seq![s.next] + calls(step(s, events[0]), events.drop_first())
    }
}

/// The acquisitions that succeeded while `events` drive the handshake from `s`, in order.
pub open spec fn acquisitions(s: HandshakeView, events: Seq<Event>) -> Seq<Action>
    decreases events.len(),
{
    if events.len() == 0 || s.next == Action::Finish {
        Seq::empty()
    } else {
        let rest = acquisitions(step(s, events[0]), events.drop_first());
        if is_acquire(s.next) && succeeds(s.next, events[0], s.payload_len) {
            seq![s.next] + rest
        } else {
            rest
        }
    }
}

/// The release calls made while `events` drive the handshake from `s`, in order.
pub open spec fn releases(s: HandshakeView, events: Seq<Event>) -> Seq<Action>
    decreases events.len(),
{
    if events.len() == 0 || s.next == Action::Finish {
        Seq::empty()
    } else {
        let rest = releases(step(s, events[0]), events.drop_first());
        if is_release(s.next) {
            seq![s.next] + rest
        } else {
            rest
        }
    }
}

/// The releases that undo the acquisitions `acq`: the last acquired first.
pub open spec fn unwinding(acq: Seq<Action>) -> Seq<Action>
    decreases acq.len(),
{
    if acq.len() == 0 {
        Seq::empty()
    } else {
        seq![release_of(acq.last())] + unwinding(acq.drop_last())
    }
}

/// The resources that `s` holds, in the order they were acquired.
pub open spec fn held(s: HandshakeView) -> Seq<Action> {
    (if s.printer_open { seq![Action::OpenPrinter] } else { Seq::empty() }) + (if s.doc_started {
        seq![Action::StartDocument]
    } else {
        Seq::empty()
    }) + (if s.page_started { seq![Action::StartPage] } else { Seq::empty() })
}

/// A flush of `payload_len` bytes whose calls had the outcomes `events` has returned.
pub open spec fn completes(payload_len: nat, events: Seq<Event>) -> bool {
    run(initial(payload_len), events).next == Action::Finish
}

/// The spool handshake of one flush.
///
/// It decides each spooler call in turn and what the flush returns; whoever
/// drives it makes the call that `next_action` names and reports the outcome
/// to `on_event`, until the action is `Finish`.
#[derive(Debug)]
pub struct Handshake {
    payload_len: usize,
    next: Action,
    printer_open: bool,
    doc_started: bool,
    page_started: bool,
    error: Option<PrinterError>,
    warnings: Vec<Action>,
}

impl View for Handshake {
    type V = HandshakeView;

    closed spec fn view(&self) -> HandshakeView {
        HandshakeView {
            payload_len: self.payload_len as nat,
            next: self.next,
            printer_open: self.printer_open,
            doc_started: self.doc_started,
            page_started: self.page_started,
            error: self.error,
            warnings: self.warnings@,
        }
    }
}

impl Handshake {
    /// A handshake that will send `payload_len` bytes.
    pub fn new(payload_len: usize) -> (r: Handshake)
        ensures
            r@ == initial(payload_len as nat),
    {
        Handshake {
            payload_len,
            next: Action::OpenPrinter,
            printer_open: false,
            doc_started: false,
            page_started: false,
            error: None,
            warnings: Vec::new(),
        }
    }

    /// The call to make next.
    pub fn next_action(&self) -> (r: Action)
        ensures
            r == self@.next,
    {
        self.next
    }

    /// Whether the handshake is over.
    pub fn is_finished(&self) -> (r: bool)
        ensures
            r == (self@.next == Action::Finish),
    {
        self.next == Action::Finish
    }

    /// The number of bytes the transmit step must report written.
    pub fn payload_len(&self) -> (r: usize)
        ensures
            r as nat == self@.payload_len,
    {
        self.payload_len
    }

    /// What the flush returns: the first primary error, or success.
    pub fn result(&self) -> (r: Result<(), PrinterError>)
        ensures
            r == outcome(self@),
    {
        match self.error {
            Some(e) => Err(e),
            None => Ok(()),
        }
    }

    /// The release calls that reported failure so far, in order.
    pub fn warnings(&self) -> (r: &[Action])
        ensures
            r@ == self@.warnings,
    {
        self.warnings.as_slice()
    }

    fn start_unwinding(&mut self)
        ensures
            final(self)@ == unwind(old(self)@),
    {
        self.next = if self.page_started {
            Action::EndPage
        } else if self.doc_started {
            Action::EndDocument
        } else if self.printer_open {
            Action::ClosePrinter
        } else {
            Action::Finish
        };
    }

    fn fail(&mut self, e: PrinterError)
        ensures
            final(self)@ == fail_with(old(self)@, e),
    {
        self.error = Some(e);
        self.start_unwinding();
    }

    /// Takes the outcome of the call that `next_action` named and moves on.
    /// After `Finish` an event changes nothing.
    pub fn on_event(&mut self, event: Event)
        ensures
            final(self)@ == step(old(self)@, event),
    {
        let ok = match self.next {
            Action::Transmit => match event {
                Event::Wrote(n) => n == self.payload_len,
                _ => false,
            },
            _ => !matches!(event, Event::Failed),
        };
        match self.next {
            Action::OpenPrinter => if ok {
                self.printer_open = true;
                self.next = Action::StartDocument;
            } else {
                self.fail(PrinterError::OpenFailure);
            },
            Action::StartDocument => if ok {
                self.doc_started = true;
                self.next = Action::StartPage;
            } else {
                self.fail(PrinterError::SessionStartFailure);
            },
            Action::StartPage => if ok {
                self.page_started = true;
                self.next = Action::Transmit;
            } else {
                self.fail(PrinterError::SessionStartFailure);
            },
            Action::Transmit => if ok {
                self.start_unwinding();
            } else {
                self.fail(PrinterError::TransmitFailure);
            },
            Action::EndPage => {
                if !ok {
                    self.warnings.push(Action::EndPage);
                }
                self.page_started = false;
                self.start_unwinding();
            },
            Action::EndDocument => {
                if !ok {
                    self.warnings.push(Action::EndDocument);
                }
                self.doc_started = false;
                self.start_unwinding();
            },
            Action::ClosePrinter => {
                if !ok {
                    self.warnings.push(Action::ClosePrinter);
                }
                self.printer_open = false;
                self.start_unwinding();
            },
            Action::Finish => {},
        }
    }
}

} // verus!
