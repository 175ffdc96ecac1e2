use photonio::error::ErrorKind;
use photonio::read::{Read, ReadAtExt, ReadExt, ScriptStep, ScriptedReader, ScriptedReaderAt};

#[test]
fn short_source_underruns_and_leaves_tail_untouched() {
    // 3 bytes, then 2 bytes, then 0 bytes into a 6-byte destination.
    let mut src = ScriptedReader::new(vec![
        ScriptStep::Give(vec![1, 2, 3]),
        ScriptStep::Give(vec![4, 5]),
        ScriptStep::Give(vec![]),
    ]);
    let mut buf = vec![9u8; 6];
    let r = src.read_exact(&mut buf, 0);
    assert_eq!(r, Err(ErrorKind::UnexpectedEof));
    assert_eq!(buf, vec![1, 2, 3, 4, 5, 9]);
}

#[test]
fn interrupted_is_absorbed_and_never_surfaced() {
    // Interrupted, then 4 bytes into a 4-byte destination.
    let mut src = ScriptedReader::new(vec![
        ScriptStep::Fail(ErrorKind::Interrupted),
        ScriptStep::Give(vec![7, 8, 9, 10]),
    ]);
    let mut buf = vec![0u8; 4];
    let r = src.read_exact(&mut buf, 0);
    assert_eq!(r, Ok(()));
    assert_eq!(buf, vec![7, 8, 9, 10]);
}

#[test]
fn success_iff_sub_reads_sum_to_length() {
    // 2 + 2 = 4: success.
    let mut src = ScriptedReader::new(vec![
        ScriptStep::Give(vec![1, 2]),
        ScriptStep::Give(vec![3, 4]),
    ]);
    let mut buf = vec![0u8; 4];
    assert_eq!(src.read_exact(&mut buf, 0), Ok(()));
    assert_eq!(buf, vec![1, 2, 3, 4]);

    // A sub-read longer than the window is taken only up to the window.
    let mut src = ScriptedReader::new(vec![ScriptStep::Give(vec![1, 2, 3, 4, 5])]);
    let mut buf = vec![0u8; 4];
    assert_eq!(src.read_exact(&mut buf, 0), Ok(()));
    assert_eq!(buf, vec![1, 2, 3, 4]);

    // 2 + 1 < 4 and then exhaustion: underrun.
    let mut src = ScriptedReader::new(vec![
        ScriptStep::Give(vec![1, 2]),
        ScriptStep::Give(vec![3]),
    ]);
    let mut buf = vec![0u8; 4];
    assert_eq!(src.read_exact(&mut buf, 0), Err(ErrorKind::UnexpectedEof));
    assert_eq!(buf, vec![1, 2, 3, 0]);
}

#[test]
fn empty_window_succeeds_without_reading() {
    let mut src = ScriptedReader::new(vec![ScriptStep::Give(vec![1])]);
    let mut buf = vec![5u8, 6u8];
    // start == len: nothing is missing, the source is not consulted.
    assert_eq!(src.read_exact(&mut buf, 2), Ok(()));
    assert_eq!(buf, vec![5, 6]);
    // The scripted step is still there for a later read.
    let mut one = vec![0u8; 1];
    assert_eq!(src.read(&mut one, 0), Ok(1));
    assert_eq!(one, vec![1]);
}

#[test]
fn other_errors_propagate_at_once() {
    let mut src = ScriptedReader::new(vec![
        ScriptStep::Give(vec![1]),
        ScriptStep::Fail(ErrorKind::Os(-5)),
        ScriptStep::Give(vec![2]),
    ]);
    let mut buf = vec![0u8; 3];
    assert_eq!(src.read_exact(&mut buf, 0), Err(ErrorKind::Os(-5)));
    // Filled up to the last successful sub-read, nothing after.
    assert_eq!(buf, vec![1, 0, 0]);
}

#[test]
fn exhausted_source_reports_eof_immediately() {
    let mut src = ScriptedReader::new(vec![]);
    let mut buf = vec![3u8; 2];
    assert_eq!(src.read_exact(&mut buf, 0), Err(ErrorKind::UnexpectedEof));
    assert_eq!(buf, vec![3, 3]);
}

#[test]
fn single_shot_read_surfaces_interrupted() {
    // Only the exact-length loops absorb Interrupted; one attempt reports it.
    let mut src = ScriptedReader::new(vec![ScriptStep::Fail(ErrorKind::Interrupted)]);
    let mut buf = vec![4u8; 2];
    let r = src.read(&mut buf, 0);
    assert_eq!(r, Err(ErrorKind::Interrupted));
    assert!(r.unwrap_err().is_retryable());
    assert!(!ErrorKind::UnexpectedEof.is_retryable());
    assert_eq!(buf, vec![4, 4]);
}

#[test]
fn read_fills_window_suffix_only() {
    let mut src = ScriptedReader::new(vec![ScriptStep::Give(vec![7, 8, 9])]);
    let mut buf = vec![1u8; 5];
    assert_eq!(src.read(&mut buf, 2), Ok(3));
    assert_eq!(buf, vec![1, 1, 7, 8, 9]);
}

#[test]
fn positional_sub_reads_advance_by_bytes_transferred() {
    let mut src = ScriptedReaderAt::new(vec![
        ScriptStep::Give(vec![1, 2]),
        ScriptStep::Give(vec![3]),
        ScriptStep::Give(vec![4]),
    ]);
    let mut buf = vec![0u8; 4];
    assert_eq!(src.read_exact_at(&mut buf, 0, 5), Ok(()));
    assert_eq!(buf, vec![1, 2, 3, 4]);
    assert_eq!(src.positions_logged(), &vec![5, 7, 8]);
}

#[test]
fn interrupted_retry_repeats_the_same_position() {
    let mut src = ScriptedReaderAt::new(vec![
        ScriptStep::Give(vec![1, 2]),
        ScriptStep::Fail(ErrorKind::Interrupted),
        ScriptStep::Give(vec![3]),
    ]);
    let mut buf = vec![0u8; 3];
    assert_eq!(src.read_exact_at(&mut buf, 0, 100), Ok(()));
    // The retry was issued at the unchanged offset: nothing lost or repeated.
    assert_eq!(buf, vec![1, 2, 3]);
    assert_eq!(src.positions_logged(), &vec![100, 102, 102]);
}

#[test]
fn positional_underrun_reports_eof() {
    let mut src = ScriptedReaderAt::new(vec![ScriptStep::Give(vec![1]), ScriptStep::Give(vec![])]);
    let mut buf = vec![0u8; 3];
    assert_eq!(src.read_exact_at(&mut buf, 0, 10), Err(ErrorKind::UnexpectedEof));
    assert_eq!(buf, vec![1, 0, 0]);
    assert_eq!(src.positions_logged(), &vec![10, 11]);
}
