use vstd::prelude::*;

use crate::driver::appended;
use crate::error::PrinterError;
use crate::handshake::{
    acquisitions, calls, completes, held, initial, is_acquire, is_release, outcome, release_of,
    releases, run, step, succeeds, unwind_next, unwinding, Action, Event, HandshakeView,
};

verus! {

/// Writing `a` and then `b` to an empty buffer leaves exactly `a` followed by `b` pending.
pub proof fn lemma_writes_concatenate(a: Seq<u8>, b: Seq<u8>)
    ensures
        appended(appended(Seq::empty(), a), b) == a + b,
{
    assert(appended(Seq::empty(), a) =~= a);
}

/// The shape of every state a handshake reaches from `initial`: sessions nest
/// inside the printer handle, each acquisition step holds exactly what
/// precedes it, a recorded failure means unwinding has begun, and while
/// unwinding the next call releases the innermost held resource.
pub open spec fn reachable_shape(s: HandshakeView) -> bool {
    &&& s.page_started ==> s.doc_started
    &&& s.doc_started ==> s.printer_open
    &&& s.next == Action::OpenPrinter ==> !s.printer_open
    &&& s.next == Action::StartDocument ==> s.printer_open && !s.doc_started
    &&& s.next == Action::StartPage ==> s.doc_started && !s.page_started
    &&& s.next == Action::Transmit ==> s.page_started
    &&& s.error is Some ==> is_release(s.next) || s.next == Action::Finish
    &&& (is_release(s.next) || s.next == Action::Finish) ==> s.next == unwind_next(
        s.page_started,
        s.doc_started,
        s.printer_open,
    )
}

proof fn lemma_step_keeps_shape(s: HandshakeView, e: Event)
    requires
        reachable_shape(s),
    ensures
        reachable_shape(step(s, e)),
{
}

proof fn lemma_finished_is_fixed(s: HandshakeView, events: Seq<Event>)
    requires
        s.next == Action::Finish,
    ensures
        run(s, events) == s,
        calls(s, events) == Seq::<Action>::empty(),
    decreases events.len(),
{
    if events.len() > 0 {
        lemma_finished_is_fixed(step(s, events[0]), events.drop_first());
    }
}

proof fn lemma_unwinding_acquires_nothing(s: HandshakeView, events: Seq<Event>)
    requires
        reachable_shape(s),
        is_release(s.next) || s.next == Action::Finish,
    ensures
        acquisitions(s, events) == Seq::<Action>::empty(),
    decreases events.len(),
{
    if events.len() > 0 && s.next != Action::Finish {
        lemma_unwinding_acquires_nothing(step(s, events[0]), events.drop_first());
    }
}

proof fn lemma_releases_undo_held(s: HandshakeView, events: Seq<Event>)
    requires
        reachable_shape(s),
        run(s, events).next == Action::Finish,
    ensures
        releases(s, events) == unwinding(held(s) + acquisitions(s, events)),
        held(run(s, events)) == Seq::<Action>::empty(),
    decreases events.len(),
{
    if events.len() == 0 || s.next == Action::Finish {
        if s.next == Action::Finish {
            lemma_finished_is_fixed(s, events);
        }
        assert(held(s) =~= Seq::<Action>::empty());
        assert(held(s) + acquisitions(s, events) =~= Seq::<Action>::empty());
    } else {
        let e = events[0];
        let rest = events.drop_first();
        let t = step(s, e);
        lemma_step_keeps_shape(s, e);
        lemma_releases_undo_held(t, rest);
        let acq = acquisitions(t, rest);
        if is_acquire(s.next) && succeeds(s.next, e, s.payload_len) {
            assert(held(t) =~= held(s) + seq![s.next]);
            assert(held(s) + (seq![s.next] + acq) =~= held(t) + acq);
        } else if is_release(s.next) {
            lemma_unwinding_acquires_nothing(s, events);
            lemma_unwinding_acquires_nothing(t, rest);
            let h = held(s);
            assert(h.last() == Action::StartPage || h.last() == Action::StartDocument || h.last()
                == Action::OpenPrinter);
            assert(release_of(h.last()) == s.next);
            assert(h.drop_last() =~= held(t));
            assert(h + Seq::<Action>::empty() =~= h);
            assert(held(t) + Seq::<Action>::empty() =~= held(t));
        } else {
            assert(held(t) =~= held(s));
        }
    }
}

/// Every flush that has returned has released each resource it acquired,
/// exactly once, in reverse order of acquisition, and holds nothing.
pub proof fn lemma_releases_mirror_acquisitions(payload_len: nat, events: Seq<Event>)
    requires
        completes(payload_len, events),
    ensures
        releases(initial(payload_len), events) == unwinding(
            acquisitions(initial(payload_len), events),
        ),
        held(run(initial(payload_len), events)) == Seq::<Action>::empty(),
{
    let s = initial(payload_len);
    lemma_releases_undo_held(s, events);
    assert(held(s) + acquisitions(s, events) =~= acquisitions(s, events));
}

/// A flush whose open call fails makes no other call, releases nothing, and
/// returns `OpenFailure`.
pub proof fn lemma_open_failure_short_circuits(payload_len: nat, events: Seq<Event>)
    requires
        events.len() >= 1,
        !succeeds(Action::OpenPrinter, events[0], payload_len),
    ensures
        completes(payload_len, events),
        calls(initial(payload_len), events) == seq![Action::OpenPrinter],
        releases(initial(payload_len), events) == Seq::<Action>::empty(),
        outcome(run(initial(payload_len), events)) == Err::<(), PrinterError>(
            PrinterError::OpenFailure,
        ),
{
    let s = initial(payload_len);
    let t = step(s, events[0]);
    let rest = events.drop_first();
    assert(t.next == Action::Finish);
    lemma_finished_is_fixed(t, rest);
    lemma_finished_releases_nothing(t, rest);
    assert(calls(s, events) =~= seq![Action::OpenPrinter]);
}

proof fn lemma_finished_releases_nothing(s: HandshakeView, events: Seq<Event>)
    requires
        s.next == Action::Finish,
    ensures
        releases(s, events) == Seq::<Action>::empty(),
{
}

/// A flush whose page session fails to start still ends the document and
/// closes the printer, never ends a page, and returns `SessionStartFailure`.
pub proof fn lemma_page_failure_still_unwinds(payload_len: nat, events: Seq<Event>)
    requires
        events.len() >= 3,
        succeeds(Action::OpenPrinter, events[0], payload_len),
        succeeds(Action::StartDocument, events[1], payload_len),
        !succeeds(Action::StartPage, events[2], payload_len),
        completes(payload_len, events),
    ensures
        calls(initial(payload_len), events) == seq![
            Action::OpenPrinter,
            Action::StartDocument,
            Action::StartPage,
            Action::EndDocument,
            Action::ClosePrinter,
        ],
        !calls(initial(payload_len), events).contains(Action::EndPage),
        outcome(run(initial(payload_len), events)) == Err::<(), PrinterError>(
            PrinterError::SessionStartFailure,
        ),
{
    let s0 = initial(payload_len);
    let r1 = events.drop_first();
    let s1 = step(s0, events[0]);
    let r2 = r1.drop_first();
    let s2 = step(s1, r1[0]);
    let r3 = r2.drop_first();
    let s3 = step(s2, r2[0]);
    assert(s3.next == Action::EndDocument);
    if r3.len() == 0 {
        assert(run(s0, events) == run(s1, r1));
        assert(run(s1, r1) == run(s2, r2));
        assert(run(s2, r2) == run(s3, r3));
    }
    let r4 = r3.drop_first();
    let s4 = step(s3, r3[0]);
    assert(s4.next == Action::ClosePrinter);
    if r4.len() == 0 {
        assert(run(s0, events) == run(s1, r1));
        assert(run(s1, r1) == run(s2, r2));
        assert(run(s2, r2) == run(s3, r3));
        assert(run(s3, r3) == run(s4, r4));
    }
    let r5 = r4.drop_first();
    let s5 = step(s4, r4[0]);
    assert(s5.next == Action::Finish);
    lemma_finished_is_fixed(s5, r5);
    assert(calls(s4, r4) =~= seq![Action::ClosePrinter]);
    assert(calls(s3, r3) =~= seq![Action::EndDocument, Action::ClosePrinter]);
    assert(calls(s2, r2) =~= seq![Action::StartPage, Action::EndDocument, Action::ClosePrinter]);
    assert(calls(s1, r1) =~= seq![Action::StartDocument, Action::StartPage, Action::EndDocument, Action::ClosePrinter]);
    assert(calls(s0, events) =~= seq![Action::OpenPrinter, Action::StartDocument, Action::StartPage, Action::EndDocument, Action::ClosePrinter]);
    let c = calls(s0, events);
    assert forall|i: int| 0 <= i < c.len() implies c[i] != Action::EndPage by {}
}

/// A flush whose write call succeeds but reports fewer bytes than the buffer
/// holds returns `TransmitFailure`, and still ends the page, ends the document
/// and closes the printer, in that order.
pub proof fn lemma_short_write_detected(payload_len: nat, events: Seq<Event>, written: usize)
    requires
        events.len() >= 4,
        succeeds(Action::OpenPrinter, events[0], payload_len),
        succeeds(Action::StartDocument, events[1], payload_len),
        succeeds(Action::StartPage, events[2], payload_len),
        events[3] == Event::Wrote(written),
        written < payload_len,
        completes(payload_len, events),
    ensures
        calls(initial(payload_len), events) == seq![
            Action::OpenPrinter,
            Action::StartDocument,
            Action::StartPage,
            Action::Transmit,
            Action::EndPage,
            Action::EndDocument,
            Action::ClosePrinter,
        ],
        outcome(run(initial(payload_len), events)) == Err::<(), PrinterError>(
            PrinterError::TransmitFailure,
        ),
{
    let s0 = initial(payload_len);
    let r1 = events.drop_first();
    let s1 = step(s0, events[0]);
    let r2 = r1.drop_first();
    let s2 = step(s1, r1[0]);
    let r3 = r2.drop_first();
    let s3 = step(s2, r2[0]);
    let r4 = r3.drop_first();
    let s4 = step(s3, r3[0]);
    assert(s4.next == Action::EndPage);
    if r4.len() == 0 {
        assert(run(s0, events) == run(s1, r1));
        assert(run(s1, r1) == run(s2, r2));
        assert(run(s2, r2) == run(s3, r3));
        assert(run(s3, r3) == run(s4, r4));
    }
    let r5 = r4.drop_first();
    let s5 = step(s4, r4[0]);
    assert(s5.next == Action::EndDocument);
    if r5.len() == 0 {
        assert(run(s0, events) == run(s1, r1));
        assert(run(s1, r1) == run(s2, r2));
        assert(run(s2, r2) == run(s3, r3));
        assert(run(s3, r3) == run(s4, r4));
        assert(run(s4, r4) == run(s5, r5));
    }
    let r6 = r5.drop_first();
    let s6 = step(s5, r5[0]);
    assert(s6.next == Action::ClosePrinter);
    if r6.len() == 0 {
        assert(run(s0, events) == run(s1, r1));
        assert(run(s1, r1) == run(s2, r2));
        assert(run(s2, r2) == run(s3, r3));
        assert(run(s3, r3) == run(s4, r4));
        assert(run(s4, r4) == run(s5, r5));
        assert(run(s5, r5) == run(s6, r6));
    }
    let r7 = r6.drop_first();
    let s7 = step(s6, r6[0]);
    assert(s7.next == Action::Finish);
    lemma_finished_is_fixed(s7, r7);
    assert(calls(s6, r6) =~= seq![Action::ClosePrinter]);
    assert(calls(s5, r5) =~= seq![Action::EndDocument, Action::ClosePrinter]);
    assert(calls(s4, r4) =~= seq![Action::EndPage, Action::EndDocument, Action::ClosePrinter]);
    assert(calls(s3, r3) =~= seq![Action::Transmit, Action::EndPage, Action::EndDocument, Action::ClosePrinter]);
    assert(calls(s2, r2) =~= seq![Action::StartPage, Action::Transmit, Action::EndPage, Action::EndDocument, Action::ClosePrinter]);
    assert(calls(s1, r1) =~= seq![Action::StartDocument, Action::StartPage, Action::Transmit, Action::EndPage, Action::EndDocument, Action::ClosePrinter]);
    assert(calls(s0, events) =~= seq![Action::OpenPrinter, Action::StartDocument, Action::StartPage, Action::Transmit, Action::EndPage, Action::EndDocument, Action::ClosePrinter]);
}

/// An upper bound on the calls left before a handshake in state `s` is over.
pub open spec fn calls_left(s: HandshakeView) -> nat {
    match s.next {
        Action::OpenPrinter => 7,
        Action::StartDocument => 6,
        Action::StartPage => 5,
        Action::Transmit => 4,
        Action::Finish => 0,
        _ => held(s).len(),
    }
}

proof fn lemma_ends_within_calls_left(s: HandshakeView, events: Seq<Event>)
    requires
        reachable_shape(s),
        events.len() >= calls_left(s),
    ensures
        run(s, events).next == Action::Finish,
    decreases events.len(),
{
    if s.next == Action::Finish {
        lemma_finished_is_fixed(s, events);
    } else {
        let t = step(s, events[0]);
        lemma_step_keeps_shape(s, events[0]);
        assert(calls_left(t) < calls_left(s));
        lemma_ends_within_calls_left(t, events.drop_first());
    }
}

/// Every flush returns after at most seven spooler calls, whatever their outcomes.
pub proof fn lemma_flush_ends(payload_len: nat, events: Seq<Event>)
    requires
        events.len() >= 7,
    ensures
        completes(payload_len, events),
{
    lemma_ends_within_calls_left(initial(payload_len), events);
}

proof fn lemma_run_keeps_shape(s: HandshakeView, events: Seq<Event>)
    requires
        reachable_shape(s),
    ensures
        reachable_shape(run(s, events)),
        s.error is Some ==> run(s, events).error == s.error,
    decreases events.len(),
{
    if events.len() > 0 {
        lemma_step_keeps_shape(s, events[0]);
        lemma_run_keeps_shape(step(s, events[0]), events.drop_first());
    }
}

proof fn lemma_run_splits(s: HandshakeView, events: Seq<Event>, k: int)
    requires
        0 <= k <= events.len(),
    ensures
        run(s, events) == run(run(s, events.take(k)), events.skip(k)),
    decreases k,
{
    if k == 0 {
        assert(events.skip(0) =~= events);
    } else {
        let rest = events.drop_first();
        lemma_run_splits(step(s, events[0]), rest, k - 1);
        assert(events.take(k).drop_first() =~= rest.take(k - 1));
        assert(events.skip(k) =~= rest.skip(k - 1));
    }
}

/// Only the first primary failure is returned: once the first `k` calls of a
/// flush have recorded one, no later call replaces or clears it.
pub proof fn lemma_first_failure_wins(payload_len: nat, events: Seq<Event>, k: int)
    requires
        0 <= k <= events.len(),
        run(initial(payload_len), events.take(k)).error is Some,
    ensures
        run(initial(payload_len), events).error == run(initial(payload_len), events.take(k)).error,
{
    let s = initial(payload_len);
    lemma_run_keeps_shape(s, events.take(k));
    lemma_run_splits(s, events, k);
    lemma_run_keeps_shape(run(s, events.take(k)), events.skip(k));
}

} // verus!
