use spool_driver::{Action, Event, Handshake, PrinterError, WindowsDriver};

/// Drives a handshake, answering each call with the next outcome (success
/// once they run out), and returns the calls made and the flush result.
fn drive(payload_len: usize, outcomes: &[Event]) -> (Vec<Action>, Result<(), PrinterError>, Vec<Action>) {
    let mut h = Handshake::new(payload_len);
    let mut calls = Vec::new();
    let mut i = 0;
    while !h.is_finished() {
        let action = h.next_action();
        calls.push(action);
        let event = if i < outcomes.len() {
            outcomes[i]
        } else if action == Action::Transmit {
            Event::Wrote(payload_len)
        } else {
            Event::Succeeded
        };
        i += 1;
        h.on_event(event);
        assert!(calls.len() <= 7);
    }
    (calls, h.result(), h.warnings().to_vec())
}

const FULL_UNWIND: [Action; 7] = [
    Action::OpenPrinter,
    Action::StartDocument,
    Action::StartPage,
    Action::Transmit,
    Action::EndPage,
    Action::EndDocument,
    Action::ClosePrinter,
];

#[test]
fn full_write_succeeds_and_unwinds() {
    let ok = Event::Succeeded;
    let (calls, result, warnings) = drive(10, &[ok, ok, ok, Event::Wrote(10), ok, ok, ok]);
    assert_eq!(calls, FULL_UNWIND.to_vec());
    assert_eq!(result, Ok(()));
    assert!(warnings.is_empty());
}

#[test]
fn open_failure_makes_no_other_call() {
    let (calls, result, warnings) = drive(10, &[Event::Failed]);
    assert_eq!(calls, vec![Action::OpenPrinter]);
    assert_eq!(result, Err(PrinterError::OpenFailure));
    assert!(warnings.is_empty());
}

#[test]
fn short_write_fails_and_still_unwinds() {
    let ok = Event::Succeeded;
    let (calls, result, _) = drive(10, &[ok, ok, ok, Event::Wrote(7), ok, ok, ok]);
    assert_eq!(calls, FULL_UNWIND.to_vec());
    assert_eq!(result, Err(PrinterError::TransmitFailure));
}

#[test]
fn over_long_write_report_fails() {
    let ok = Event::Succeeded;
    let (calls, result, _) = drive(10, &[ok, ok, ok, Event::Wrote(11)]);
    assert_eq!(calls, FULL_UNWIND.to_vec());
    assert_eq!(result, Err(PrinterError::TransmitFailure));
}

#[test]
fn failed_write_call_fails_and_unwinds() {
    let ok = Event::Succeeded;
    let (calls, result, _) = drive(10, &[ok, ok, ok, Event::Failed]);
    assert_eq!(calls, FULL_UNWIND.to_vec());
    assert_eq!(result, Err(PrinterError::TransmitFailure));
}

#[test]
fn write_without_count_is_not_a_full_write() {
    let ok = Event::Succeeded;
    let (_, result, _) = drive(3, &[ok, ok, ok, Event::Succeeded]);
    assert_eq!(result, Err(PrinterError::TransmitFailure));
}

#[test]
fn page_failure_ends_document_and_closes() {
    let ok = Event::Succeeded;
    let (calls, result, _) = drive(10, &[ok, ok, Event::Failed]);
    assert_eq!(
        calls,
        vec![Action::OpenPrinter, Action::StartDocument, Action::StartPage, Action::EndDocument, Action::ClosePrinter]
    );
    assert!(!calls.contains(&Action::EndPage));
    assert_eq!(result, Err(PrinterError::SessionStartFailure));
}

#[test]
fn document_failure_only_closes() {
    let ok = Event::Succeeded;
    let (calls, result, _) = drive(10, &[ok, Event::Failed]);
    assert_eq!(calls, vec![Action::OpenPrinter, Action::StartDocument, Action::ClosePrinter]);
    assert_eq!(result, Err(PrinterError::SessionStartFailure));
}

#[test]
fn cleanup_failures_are_warnings_only() {
    let ok = Event::Succeeded;
    let bad = Event::Failed;
    let (calls, result, warnings) = drive(4, &[ok, ok, ok, Event::Wrote(4), bad, bad, bad]);
    assert_eq!(calls, FULL_UNWIND.to_vec());
    assert_eq!(result, Ok(()));
    assert_eq!(warnings, vec![Action::EndPage, Action::EndDocument, Action::ClosePrinter]);
}

#[test]
fn cleanup_failure_keeps_primary_error() {
    let ok = Event::Succeeded;
    let bad = Event::Failed;
    let (calls, result, warnings) = drive(10, &[ok, ok, ok, Event::Wrote(2), ok, bad, ok]);
    assert_eq!(calls, FULL_UNWIND.to_vec());
    assert_eq!(result, Err(PrinterError::TransmitFailure));
    assert_eq!(warnings, vec![Action::EndDocument]);
}

#[test]
fn empty_payload_counts_zero_as_full() {
    let ok = Event::Succeeded;
    let (_, result, _) = drive(0, &[ok, ok, ok, Event::Wrote(0)]);
    assert_eq!(result, Ok(()));
}

#[test]
fn events_after_finish_change_nothing() {
    let mut h = Handshake::new(5);
    h.on_event(Event::Failed);
    assert!(h.is_finished());
    h.on_event(Event::Succeeded);
    h.on_event(Event::Failed);
    assert_eq!(h.next_action(), Action::Finish);
    assert_eq!(h.result(), Err(PrinterError::OpenFailure));
    assert!(h.warnings().is_empty());
}

#[test]
fn release_count_mirrors_acquisitions() {
    let ok = Event::Succeeded;
    let cases: Vec<Vec<Event>> = vec![
        vec![Event::Failed],
        vec![ok, Event::Failed],
        vec![ok, ok, Event::Failed],
        vec![ok, ok, ok, Event::Failed],
        vec![ok, ok, ok, Event::Wrote(6)],
    ];
    for outcomes in cases {
        let (calls, _, _) = drive(6, &outcomes);
        let acquired: Vec<Action> = calls
            .iter()
            .zip(outcomes.iter().chain(std::iter::repeat(&ok)))
            .filter(|(a, e)| matches!(a, Action::OpenPrinter | Action::StartDocument | Action::StartPage) && **e != Event::Failed)
            .map(|(a, _)| *a)
            .collect();
        let released: Vec<Action> = calls
            .iter()
            .copied()
            .filter(|a| matches!(a, Action::EndPage | Action::EndDocument | Action::ClosePrinter))
            .collect();
        let undo: Vec<Action> = acquired
            .iter()
            .rev()
            .map(|a| match a {
                Action::OpenPrinter => Action::ClosePrinter,
                Action::StartDocument => Action::EndDocument,
                _ => Action::EndPage,
            })
            .collect();
        assert_eq!(released, undo);
    }
}

#[test]
fn driver_flush_sends_whole_buffer() {
    let mut d = WindowsDriver::open("POS-58").unwrap();
    d.write(b"0123456789").unwrap();
    let h = d.write_all();
    assert_eq!(h.payload_len(), 10);
    assert_eq!(h.next_action(), Action::OpenPrinter);
    assert_eq!(d.pending(), b"0123456789");
}
