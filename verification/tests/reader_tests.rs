use frio::outcome::{FailureKind, FileError};
use frio::reader::{read_len, FileReader, ReaderAction, ReaderEvent, ReaderState};

fn text(s: &str) -> String {
    s.to_string()
}

#[test]
fn read_len_truncates_only_under_a_real_cap() {
    assert_eq!(read_len(10, 5), 5);
    assert_eq!(read_len(10, 1), 1);
    assert_eq!(read_len(10, 9), 9);
    assert_eq!(read_len(10, 0), 10);
    assert_eq!(read_len(10, 10), 10);
    assert_eq!(read_len(10, 11), 10);
    assert_eq!(read_len(10, usize::MAX), 10);
}

#[test]
fn read_len_of_an_empty_file_is_zero() {
    assert_eq!(read_len(0, 0), 0);
    assert_eq!(read_len(0, 5), 0);
    assert_eq!(read_len(0, usize::MAX), 0);
}

#[test]
fn read_len_at_the_machine_limit() {
    assert_eq!(read_len(usize::MAX, 0), usize::MAX);
    assert_eq!(read_len(usize::MAX, usize::MAX), usize::MAX);
    assert_eq!(read_len(usize::MAX, usize::MAX - 1), usize::MAX - 1);
}

#[test]
fn reader_begins_by_opening() {
    let (reader, action) = FileReader::begin(text("a.txt"), 5);
    assert_eq!(action, ReaderAction::Open);
    assert_eq!(reader.path, "a.txt");
    assert_eq!(reader.requested_size, 5);
    assert_eq!(reader.state, ReaderState::Opening);
    assert!(!reader.is_finished());
}

#[test]
fn reader_truncates_a_long_file() {
    let (mut reader, _) = FileReader::begin(text("a.txt"), 5);
    assert_eq!(reader.advance(ReaderEvent::Opened), Some(ReaderAction::Measure));
    assert_eq!(reader.state, ReaderState::Measuring);
    assert_eq!(
        reader.advance(ReaderEvent::Measured { file_len: 10 }),
        Some(ReaderAction::ReadExact { offset: 0, len: 5 })
    );
    assert_eq!(reader.state, ReaderState::Filling { read_len: 5 });
    assert_eq!(
        reader.advance(ReaderEvent::Filled { bytes: vec![0, 1, 2, 3, 4] }),
        Some(ReaderAction::Deliver(Ok((text("a.txt"), vec![0, 1, 2, 3, 4]))))
    );
    assert!(reader.is_finished());
}

#[test]
fn reader_reads_a_whole_file_without_a_cap() {
    let (mut reader, _) = FileReader::begin(text("whole"), 0);
    reader.advance(ReaderEvent::Opened);
    assert_eq!(
        reader.advance(ReaderEvent::Measured { file_len: 3 }),
        Some(ReaderAction::ReadExact { offset: 0, len: 3 })
    );
    assert_eq!(
        reader.advance(ReaderEvent::Filled { bytes: vec![7, 8, 9] }),
        Some(ReaderAction::Deliver(Ok((text("whole"), vec![7, 8, 9]))))
    );
}

#[test]
fn reader_reads_a_whole_file_under_a_cap_that_is_not_smaller() {
    for cap in [3usize, 4, 1000] {
        let (mut reader, _) = FileReader::begin(text("short"), cap);
        reader.advance(ReaderEvent::Opened);
        assert_eq!(
            reader.advance(ReaderEvent::Measured { file_len: 3 }),
            Some(ReaderAction::ReadExact { offset: 0, len: 3 })
        );
    }
}

#[test]
fn reader_delivers_an_empty_file_without_reading() {
    for cap in [0usize, 5] {
        let (mut reader, _) = FileReader::begin(text("b.txt"), cap);
        reader.advance(ReaderEvent::Opened);
        assert_eq!(
            reader.advance(ReaderEvent::Measured { file_len: 0 }),
            Some(ReaderAction::Deliver(Ok((text("b.txt"), Vec::new()))))
        );
        assert!(reader.is_finished());
    }
}

#[test]
fn reader_reports_a_failed_open() {
    let (mut reader, _) = FileReader::begin(text("missing.txt"), 5);
    let action = reader.advance(ReaderEvent::Failed { cause: text("No such file or directory") });
    assert_eq!(
        action,
        Some(ReaderAction::Deliver(Err(FileError {
            kind: FailureKind::Open,
            path: text("missing.txt"),
            cause: text("No such file or directory"),
        })))
    );
    assert!(reader.is_finished());
}

#[test]
fn reader_reports_a_failed_measure_as_a_read_failure() {
    let (mut reader, _) = FileReader::begin(text("dir"), 0);
    reader.advance(ReaderEvent::Opened);
    let action = reader.advance(ReaderEvent::Failed { cause: text("bad descriptor") });
    assert_eq!(
        action,
        Some(ReaderAction::Deliver(Err(FileError {
            kind: FailureKind::Read,
            path: text("dir"),
            cause: text("bad descriptor"),
        })))
    );
    assert!(reader.is_finished());
}

#[test]
fn reader_reports_a_failed_read() {
    let (mut reader, _) = FileReader::begin(text("shrunk"), 0);
    reader.advance(ReaderEvent::Opened);
    reader.advance(ReaderEvent::Measured { file_len: 8 });
    let action = reader.advance(ReaderEvent::Failed { cause: text("failed to fill whole buffer") });
    assert_eq!(
        action,
        Some(ReaderAction::Deliver(Err(FileError {
            kind: FailureKind::Read,
            path: text("shrunk"),
            cause: text("failed to fill whole buffer"),
        })))
    );
    assert!(reader.is_finished());
}

#[test]
fn reader_refuses_a_buffer_of_the_wrong_length() {
    let (mut reader, _) = FileReader::begin(text("a.txt"), 5);
    reader.advance(ReaderEvent::Opened);
    reader.advance(ReaderEvent::Measured { file_len: 10 });
    assert_eq!(reader.advance(ReaderEvent::Filled { bytes: vec![0, 1, 2, 3] }), None);
    assert_eq!(reader.state, ReaderState::Filling { read_len: 5 });
    assert_eq!(reader.advance(ReaderEvent::Filled { bytes: vec![0, 1, 2, 3, 4, 5] }), None);
    assert_eq!(reader.state, ReaderState::Filling { read_len: 5 });
    assert_eq!(
        reader.advance(ReaderEvent::Filled { bytes: vec![9, 9, 9, 9, 9] }),
        Some(ReaderAction::Deliver(Ok((text("a.txt"), vec![9, 9, 9, 9, 9]))))
    );
}

#[test]
fn reader_refuses_events_out_of_turn() {
    let (mut reader, _) = FileReader::begin(text("a.txt"), 0);
    assert_eq!(reader.advance(ReaderEvent::Measured { file_len: 3 }), None);
    assert_eq!(reader.advance(ReaderEvent::Filled { bytes: vec![1] }), None);
    assert_eq!(reader.state, ReaderState::Opening);
    reader.advance(ReaderEvent::Opened);
    assert_eq!(reader.advance(ReaderEvent::Opened), None);
    assert_eq!(reader.advance(ReaderEvent::Filled { bytes: vec![1] }), None);
    assert_eq!(reader.state, ReaderState::Measuring);
    reader.advance(ReaderEvent::Measured { file_len: 1 });
    assert_eq!(reader.advance(ReaderEvent::Opened), None);
    assert_eq!(reader.advance(ReaderEvent::Measured { file_len: 1 }), None);
    assert_eq!(reader.state, ReaderState::Filling { read_len: 1 });
}

#[test]
fn a_finished_reader_expects_nothing() {
    let (mut reader, _) = FileReader::begin(text("gone"), 0);
    reader.advance(ReaderEvent::Failed { cause: text("denied") });
    assert!(reader.is_finished());
    assert_eq!(reader.advance(ReaderEvent::Opened), None);
    assert_eq!(reader.advance(ReaderEvent::Measured { file_len: 1 }), None);
    assert_eq!(reader.advance(ReaderEvent::Filled { bytes: Vec::new() }), None);
    assert_eq!(reader.advance(ReaderEvent::Failed { cause: text("again") }), None);
    assert!(reader.is_finished());
    assert_eq!(reader.path, "gone");
}

#[test]
fn messages_name_the_step_and_the_path() {
    let open = FileError { kind: FailureKind::Open, path: text("missing.txt"), cause: text("x") };
    assert_eq!(open.message(), "Failed to open file: missing.txt");
    let read = FileError { kind: FailureKind::Read, path: text("dir/a b.bin"), cause: text("y") };
    assert_eq!(read.message(), "Failed to read file: dir/a b.bin");
    let bare = FileError { kind: FailureKind::Read, path: text(""), cause: text("") };
    assert_eq!(bare.message(), "Failed to read file: ");
}
