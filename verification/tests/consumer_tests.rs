use crossbeam_channel::{bounded, unbounded, TrySendError};
use frio::channel::{CHANNEL_CAPACITY, PER_THREAD_CONCURRENCY, POLL_TIMEOUT_MS};
use frio::consumer::{result_channel, Cursor, Event, FileContentIterator, Step};
use frio::outcome::{FailureKind, FetchError, FileError, ReadOutcome};

fn file(path: &str, bytes: &[u8]) -> ReadOutcome {
    Ok((path.to_string(), bytes.to_vec()))
}

fn failed(kind: FailureKind, path: &str) -> FileError {
    FileError { kind, path: path.to_string(), cause: "cause".to_string() }
}

#[test]
fn the_tuning_constants() {
    assert_eq!(CHANNEL_CAPACITY, 4096);
    assert_eq!(POLL_TIMEOUT_MS, 50);
    assert_eq!(PER_THREAD_CONCURRENCY, 32);
}

#[test]
fn an_active_cursor_hands_on_a_file() {
    let (cursor, step) = Cursor::Active.step(Event::Outcome(file("a.txt", &[1, 2])));
    assert_eq!(cursor, Cursor::Active);
    assert_eq!(step, Step::Yield(Ok(("a.txt".to_string(), vec![1, 2]))));
}

#[test]
fn an_active_cursor_hands_on_a_failure_and_stays_active() {
    let error = failed(FailureKind::Open, "missing.txt");
    let (cursor, step) = Cursor::Active.step(Event::Outcome(Err(error.clone())));
    assert_eq!(cursor, Cursor::Active);
    assert_eq!(step, Step::Yield(Err(FetchError::File(error))));
    let error = failed(FailureKind::Read, "torn.bin");
    let (cursor, step) = Cursor::Active.step(Event::Outcome(Err(error.clone())));
    assert_eq!(cursor, Cursor::Active);
    assert_eq!(step, Step::Yield(Err(FetchError::File(error))));
}

#[test]
fn an_idle_wait_is_repeated() {
    let (cursor, step) = Cursor::Active.step(Event::Idle { interrupted: false });
    assert_eq!(cursor, Cursor::Active);
    assert_eq!(step, Step::Retry);
}

#[test]
fn an_interrupted_wait_ends_the_stream_with_an_error() {
    let (cursor, step) = Cursor::Active.step(Event::Idle { interrupted: true });
    assert_eq!(cursor, Cursor::Terminated);
    assert_eq!(step, Step::Yield(Err(FetchError::Cancelled)));
}

#[test]
fn a_disconnect_ends_the_stream_without_an_error() {
    let (cursor, step) = Cursor::Active.step(Event::Disconnected);
    assert_eq!(cursor, Cursor::Terminated);
    assert_eq!(step, Step::Done);
}

#[test]
fn a_terminated_cursor_stays_terminated() {
    let events = vec![
        Event::Outcome(file("late", &[1])),
        Event::Outcome(Err(failed(FailureKind::Open, "late"))),
        Event::Idle { interrupted: false },
        Event::Idle { interrupted: true },
        Event::Disconnected,
    ];
    let mut cursor = Cursor::Terminated;
    for event in events {
        let (next, step) = cursor.step(event);
        assert_eq!(next, Cursor::Terminated);
        assert_eq!(step, Step::Done);
        cursor = next;
    }
}

#[test]
fn the_result_channel_has_the_fixed_capacity() {
    let (_sender, iterator) = result_channel();
    assert_eq!(iterator.capacity(), Some(4096));
    assert!(!iterator.is_terminated());
}

#[test]
fn the_result_channel_takes_its_capacity_and_no_more() {
    let (sender, _iterator) = result_channel();
    for i in 0..CHANNEL_CAPACITY {
        assert!(sender.try_send(file("f", &[(i % 256) as u8])).is_ok());
    }
    assert!(matches!(sender.try_send(file("one too many", &[])), Err(TrySendError::Full(_))));
}

#[test]
fn capacity_reports_the_channel_not_a_constant() {
    let (_s, receiver) = bounded::<ReadOutcome>(7);
    assert_eq!(FileContentIterator::new(receiver).capacity(), Some(7));
    let (_s, receiver) = bounded::<ReadOutcome>(0);
    assert_eq!(FileContentIterator::new(receiver).capacity(), Some(0));
    let (_s, receiver) = unbounded::<ReadOutcome>();
    assert_eq!(FileContentIterator::new(receiver).capacity(), None);
}

#[test]
fn poll_yields_what_was_sent_in_arrival_order() {
    let (sender, mut iterator) = result_channel();
    sender.send(file("a.txt", &[0, 1, 2, 3, 4])).unwrap();
    sender.send(Err(failed(FailureKind::Open, "missing.txt"))).unwrap();
    sender.send(file("b.txt", &[])).unwrap();
    assert_eq!(
        iterator.poll(),
        Some(Step::Yield(Ok(("a.txt".to_string(), vec![0, 1, 2, 3, 4]))))
    );
    assert_eq!(
        iterator.poll(),
        Some(Step::Yield(Err(FetchError::File(failed(FailureKind::Open, "missing.txt")))))
    );
    assert_eq!(iterator.poll(), Some(Step::Yield(Ok(("b.txt".to_string(), Vec::new())))));
    assert!(!iterator.is_terminated());
    drop(sender);
    assert_eq!(iterator.poll(), Some(Step::Done));
    assert!(iterator.is_terminated());
}

#[test]
fn poll_times_out_while_a_sender_lives() {
    let (sender, mut iterator) = result_channel();
    assert_eq!(iterator.poll(), None);
    assert!(!iterator.is_terminated());
    assert_eq!(iterator.on_event(Event::Idle { interrupted: false }), Step::Retry);
    assert!(!iterator.is_terminated());
    sender.send(file("late.txt", &[9])).unwrap();
    assert_eq!(iterator.poll(), Some(Step::Yield(Ok(("late.txt".to_string(), vec![9])))));
}

#[test]
fn poll_drains_the_channel_before_it_reports_the_disconnect() {
    let (sender, mut iterator) = result_channel();
    sender.send(file("x", &[1])).unwrap();
    sender.send(file("y", &[2])).unwrap();
    drop(sender);
    assert_eq!(iterator.poll(), Some(Step::Yield(Ok(("x".to_string(), vec![1])))));
    assert_eq!(iterator.poll(), Some(Step::Yield(Ok(("y".to_string(), vec![2])))));
    assert_eq!(iterator.poll(), Some(Step::Done));
}

#[test]
fn the_end_of_the_stream_is_permanent() {
    let (sender, mut iterator) = result_channel();
    drop(sender);
    for _ in 0..5 {
        assert_eq!(iterator.poll(), Some(Step::Done));
        assert!(iterator.is_terminated());
    }
    assert_eq!(iterator.on_event(Event::Idle { interrupted: false }), Step::Done);
    assert_eq!(iterator.on_event(Event::Outcome(file("late", &[]))), Step::Done);
    assert!(iterator.is_terminated());
}

#[test]
fn every_sender_must_be_gone_for_the_disconnect() {
    let (sender, mut iterator) = result_channel();
    let second = sender.clone();
    drop(sender);
    assert_eq!(iterator.poll(), None);
    second.send(file("from the second", &[3])).unwrap();
    drop(second);
    assert_eq!(iterator.poll(), Some(Step::Yield(Ok(("from the second".to_string(), vec![3])))));
    assert_eq!(iterator.poll(), Some(Step::Done));
}

#[test]
fn cancellation_ends_the_stream_even_with_outcomes_waiting() {
    let (sender, mut iterator) = result_channel();
    assert_eq!(iterator.poll(), None);
    assert_eq!(
        iterator.on_event(Event::Idle { interrupted: true }),
        Step::Yield(Err(FetchError::Cancelled))
    );
    assert!(iterator.is_terminated());
    sender.send(file("unseen", &[1])).unwrap();
    assert_eq!(iterator.poll(), Some(Step::Done));
    assert_eq!(iterator.poll(), Some(Step::Done));
    assert_eq!(sender.len(), 1);
}
