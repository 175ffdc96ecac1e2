use photonio::driver::{CompletionEvent, Driver};
use photonio::error::ErrorKind;
use photonio::op;
use photonio::op::{interpret, OpOutput, PollOutcome, SubmissionDescriptor};

#[test]
fn completion_wakes_exactly_the_submitting_future() {
    let mut d = Driver::new(8);
    let mut f1 = op::read(3, vec![0u8; 4]);
    let mut f2 = op::close(5);
    assert_eq!(f1.poll(&mut d, 71), PollOutcome::Submitted { id: 0 });
    assert_eq!(f2.poll(&mut d, 72), PollOutcome::Submitted { id: 1 });
    assert_eq!(d.num_ops(), 2);

    // One completion for the read: exactly the read's waker comes back.
    let wakes = d.drive(&vec![CompletionEvent { id: 0, raw: 4 }]);
    assert_eq!(wakes, vec![71]);

    // The read resolves; the close is still suspended.
    match f1.poll(&mut d, 71) {
        PollOutcome::Ready { result } => {
            assert_eq!(result, Ok(OpOutput::ReadBytes { n: 4, buf: vec![0u8; 4] }));
        }
        other => panic!("read did not resolve: {:?}", other),
    }
    assert_eq!(f2.poll(&mut d, 72), PollOutcome::Suspended);

    let wakes = d.drive(&vec![CompletionEvent { id: 1, raw: 0 }]);
    assert_eq!(wakes, vec![72]);
    assert_eq!(f2.poll(&mut d, 72), PollOutcome::Ready { result: Ok(OpOutput::Closed) });
}

#[test]
fn capacity_exhaustion_fails_synchronously() {
    let mut d = Driver::new(1);
    let mut f1 = op::fsync(9);
    let mut f2 = op::fsync(9);
    assert_eq!(f1.poll(&mut d, 1), PollOutcome::Submitted { id: 0 });
    assert_eq!(
        f2.poll(&mut d, 2),
        PollOutcome::Ready { result: Err(ErrorKind::ResourceExhausted) }
    );
    assert!(f2.is_consumed());
    // Capacity frees up once the first completes and is consumed.
    let wakes = d.drive(&vec![CompletionEvent { id: 0, raw: 0 }]);
    assert_eq!(wakes, vec![1]);
    assert_eq!(f1.poll(&mut d, 1), PollOutcome::Ready { result: Ok(OpOutput::Synced) });
    let mut f3 = op::fdatasync(9);
    assert_eq!(f3.poll(&mut d, 3), PollOutcome::Submitted { id: 1 });
}

#[test]
fn negative_raw_results_carry_the_os_code() {
    let mut d = Driver::new(4);
    let mut f = op::write(7, vec![1, 2, 3]);
    assert_eq!(f.poll(&mut d, 4), PollOutcome::Submitted { id: 0 });
    d.drive(&vec![CompletionEvent { id: 0, raw: -17 }]);
    assert_eq!(f.poll(&mut d, 4), PollOutcome::Ready { result: Err(ErrorKind::Os(-17)) });
}

#[test]
fn open_with_embedded_nul_submits_nothing() {
    let d = Driver::new(4);
    let r = op::open(vec![b'/', b't', 0u8, b'p'], 0, 0o644);
    match r {
        Err(e) => assert_eq!(e, ErrorKind::InvalidFilename),
        Ok(_) => panic!("embedded NUL was accepted"),
    }
    // No future exists, so nothing was ever submitted.
    assert_eq!(d.num_ops(), 0);
}

#[test]
fn open_resolves_to_the_new_descriptor() {
    let mut d = Driver::new(4);
    let mut f = op::open(vec![b'/', b't', b'm', b'p'], 0, 0).unwrap();
    assert_eq!(f.poll(&mut d, 11), PollOutcome::Submitted { id: 0 });
    let wakes = d.drive(&vec![CompletionEvent { id: 0, raw: 7 }]);
    assert_eq!(wakes, vec![11]);
    assert_eq!(f.poll(&mut d, 11), PollOutcome::Ready { result: Ok(OpOutput::Opened { fd: 7 }) });
}

#[test]
fn accept_hands_back_the_address_record() {
    let mut d = Driver::new(4);
    let mut f = op::accept(6, 16);
    assert_eq!(f.poll(&mut d, 21), PollOutcome::Submitted { id: 0 });
    d.drive(&vec![CompletionEvent { id: 0, raw: 9 }]);
    match f.poll(&mut d, 21) {
        PollOutcome::Ready { result: Ok(OpOutput::Accepted { fd, addr }) } => {
            assert_eq!(fd, 9);
            assert_eq!(addr.len(), 16);
        }
        other => panic!("accept did not resolve: {:?}", other),
    }
}

#[test]
fn fstat_hands_back_the_stat_record() {
    let mut d = Driver::new(4);
    let mut f = op::fstat(6, 256);
    assert_eq!(f.poll(&mut d, 31), PollOutcome::Submitted { id: 0 });
    d.drive(&vec![CompletionEvent { id: 0, raw: 0 }]);
    match f.poll(&mut d, 31) {
        PollOutcome::Ready { result: Ok(OpOutput::Stat { stat }) } => {
            assert_eq!(stat.len(), 256);
        }
        other => panic!("fstat did not resolve: {:?}", other),
    }
}

#[test]
fn connect_and_write_resolve_per_table() {
    let mut d = Driver::new(4);
    let mut c = op::connect(3, vec![0xAB, 0xCD]);
    let mut w = op::write(3, vec![1, 2, 3, 4, 5]);
    assert_eq!(c.poll(&mut d, 1), PollOutcome::Submitted { id: 0 });
    assert_eq!(w.poll(&mut d, 2), PollOutcome::Submitted { id: 1 });
    // Completions arrive in kernel-determined order, not submission order.
    let wakes = d.drive(&vec![
        CompletionEvent { id: 1, raw: 5 },
        CompletionEvent { id: 0, raw: 0 },
    ]);
    assert_eq!(wakes, vec![2, 1]);
    assert_eq!(
        w.poll(&mut d, 2),
        PollOutcome::Ready { result: Ok(OpOutput::Wrote { n: 5, buf: vec![1, 2, 3, 4, 5] }) }
    );
    assert_eq!(c.poll(&mut d, 1), PollOutcome::Ready { result: Ok(OpOutput::Connected) });
}

#[test]
fn latest_poll_replaces_the_registered_waker() {
    let mut d = Driver::new(4);
    let mut f = op::close(2);
    assert_eq!(f.poll(&mut d, 1), PollOutcome::Submitted { id: 0 });
    // The task is repolled under a new identity before completing.
    assert_eq!(f.poll(&mut d, 9), PollOutcome::Suspended);
    let wakes = d.drive(&vec![CompletionEvent { id: 0, raw: 0 }]);
    assert_eq!(wakes, vec![9]);
}

#[test]
fn cancelled_op_keeps_its_slot_until_the_completion_arrives() {
    let mut d = Driver::new(4);
    let mut f = op::read(3, vec![0u8; 8]);
    assert_eq!(f.poll(&mut d, 1), PollOutcome::Submitted { id: 0 });
    f.cancel(&mut d);
    // Still in flight: the kernel may yet write into the bound buffer.
    assert!(d.is_in_flight(0));
    // The confirming completion wakes nobody and releases the slot.
    let wakes = d.drive(&vec![CompletionEvent { id: 0, raw: 8 }]);
    assert_eq!(wakes, Vec::<u64>::new());
    assert!(!d.is_in_flight(0));
}

#[test]
fn result_mapping_table_on_raw_values() {
    assert_eq!(interpret(SubmissionDescriptor::Close { fd: 1 }, 0), Ok(OpOutput::Closed));
    assert_eq!(
        interpret(SubmissionDescriptor::Read { fd: 1, buf: vec![0u8; 2] }, 2),
        Ok(OpOutput::ReadBytes { n: 2, buf: vec![0u8; 2] })
    );
    assert_eq!(
        interpret(SubmissionDescriptor::Fsync { fd: 1, data_only: true }, 0),
        Ok(OpOutput::Synced)
    );
    assert_eq!(
        interpret(SubmissionDescriptor::Open { path_nul: vec![b'a', 0], flags: 0, mode: 0 }, -2),
        Err(ErrorKind::Os(-2))
    );
}
