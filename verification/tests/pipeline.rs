use std::cell::{Cell, RefCell};
use wallet_jobs::batch::{
    count_chunks, run_batches, run_batches_until, BatchOperation, BatchProgress, BatchRun,
};

#[test]
fn twenty_five_wallets_in_chunks_of_ten_with_second_attempt_failing() {
    let wallets: Vec<u32> = (0..25).collect();
    let attempts = Cell::new(0usize);
    let sizes = RefCell::new(Vec::new());
    let reported = RefCell::new(Vec::new());
    let result = run_batches(
        &wallets[..],
        10,
        |chunk: &[u32]| chunk.to_vec(),
        |tx: Vec<u32>| {
            attempts.set(attempts.get() + 1);
            sizes.borrow_mut().push(tx.len());
            if attempts.get() == 2 {
                Err(String::from("blockhash expired"))
            } else {
                Ok(format!("sig-{}", attempts.get()))
            }
        },
        |p: BatchProgress| reported.borrow_mut().push((p.completed, p.total)),
    );
    assert_eq!(attempts.get(), 3);
    assert_eq!(*sizes.borrow(), vec![10, 10, 5]);
    assert_eq!(result.chunks.len(), 3);
    assert_eq!(result.successful, 15);
    assert_eq!(result.failed, 10);
    assert_eq!(result.outcomes.len(), 25);
    assert_eq!(*reported.borrow(), vec![(10, 25), (20, 25), (25, 25)]);
}

#[test]
fn failing_last_chunk_reports_twenty_succeeded_and_five_failed() {
    let wallets: Vec<u32> = (0..25).collect();
    let attempts = Cell::new(0usize);
    let result = run_batches(
        &wallets[..],
        10,
        |chunk: &[u32]| chunk.len(),
        |_tx: usize| {
            attempts.set(attempts.get() + 1);
            if attempts.get() == 3 {
                Err(String::from("insufficient funds"))
            } else {
                Ok(format!("sig-{}", attempts.get()))
            }
        },
        |_p: BatchProgress| {},
    );
    assert_eq!(attempts.get(), 3);
    assert_eq!(result.successful, 20);
    assert_eq!(result.failed, 5);
    assert!(result.successful > 0 && result.failed > 0);
    for i in 0..20 {
        assert!(result.outcomes[i].success);
        assert_eq!(result.outcomes[i].error, None);
    }
    assert_eq!(result.outcomes[9].signature, Some("sig-1".to_string()));
    assert_eq!(result.outcomes[10].signature, Some("sig-2".to_string()));
    for i in 20..25 {
        assert!(!result.outcomes[i].success);
        assert!(!result.outcomes[i].skipped);
        assert_eq!(result.outcomes[i].signature, None);
        assert_eq!(result.outcomes[i].error, Some("insufficient funds".to_string()));
        assert_eq!(result.outcomes[i].operand_ref, i);
    }
}

#[test]
fn chunks_cover_every_operand_once_in_order() {
    let operands: Vec<u64> = (100..123).collect();
    let seen = RefCell::new(Vec::new());
    let result = run_batches(
        &operands[..],
        5,
        |chunk: &[u64]| chunk.to_vec(),
        |tx: Vec<u64>| {
            seen.borrow_mut().extend(tx);
            Ok(String::from("ok"))
        },
        |_p: BatchProgress| {},
    );
    assert_eq!(*seen.borrow(), operands);
    assert_eq!(result.chunks.len(), 5);
    let mut next = 0;
    for chunk in &result.chunks {
        assert_eq!(chunk.start, next);
        assert!(chunk.end > chunk.start && chunk.end - chunk.start <= 5);
        next = chunk.end;
    }
    assert_eq!(next, 23);
    assert_eq!(result.successful + result.failed, 23);
}

#[test]
fn empty_operand_list_submits_nothing() {
    let operands: Vec<u8> = Vec::new();
    let attempts = Cell::new(0usize);
    let result = run_batches(
        &operands[..],
        10,
        |chunk: &[u8]| chunk.len(),
        |_tx: usize| {
            attempts.set(attempts.get() + 1);
            Ok(String::new())
        },
        |_p: BatchProgress| {},
    );
    assert_eq!(attempts.get(), 0);
    assert_eq!(result.chunks.len(), 0);
    assert_eq!(result.outcomes.len(), 0);
    assert_eq!(result.successful, 0);
    assert_eq!(result.failed, 0);
}

#[test]
fn all_chunks_failing_still_attempts_all() {
    let operands: Vec<u8> = vec![1, 2, 3];
    let attempts = Cell::new(0usize);
    let result = run_batches(
        &operands[..],
        1,
        |chunk: &[u8]| chunk[0],
        |_tx: u8| {
            attempts.set(attempts.get() + 1);
            Err::<String, String>(String::from("down"))
        },
        |_p: BatchProgress| {},
    );
    assert_eq!(attempts.get(), 3);
    assert_eq!(result.successful, 0);
    assert_eq!(result.failed, 3);
}

#[test]
fn count_chunks_is_the_ceiling() {
    assert_eq!(count_chunks(0, 10), 0);
    assert_eq!(count_chunks(1, 10), 1);
    assert_eq!(count_chunks(10, 10), 1);
    assert_eq!(count_chunks(11, 10), 2);
    assert_eq!(count_chunks(25, 10), 3);
    assert_eq!(count_chunks(200, 5), 40);
    assert_eq!(count_chunks(usize::MAX, 1), usize::MAX);
    assert_eq!(count_chunks(usize::MAX, usize::MAX), 1);
}

#[test]
fn run_state_machine_steps_and_reports_progress() {
    let mut run = BatchRun::new(12, 5);
    assert!(!run.is_done());
    assert_eq!(run.completed(), 0);
    assert_eq!(run.next_operation(), Some(BatchOperation { index: 0, start: 0, end: 5 }));
    assert_eq!(run.record(Ok("a".to_string())), Some(BatchProgress { completed: 5, total: 12 }));
    assert_eq!(run.next_operation(), Some(BatchOperation { index: 1, start: 5, end: 10 }));
    assert_eq!(run.record(Err("e".to_string())), Some(BatchProgress { completed: 10, total: 12 }));
    assert_eq!(run.next_operation(), Some(BatchOperation { index: 2, start: 10, end: 12 }));
    assert_eq!(run.record(Ok("c".to_string())), Some(BatchProgress { completed: 12, total: 12 }));
    assert!(run.is_done());
    assert_eq!(run.next_operation(), None);
    assert_eq!(run.record(Ok("late".to_string())), None);
    assert_eq!(run.progress(), BatchProgress { completed: 12, total: 12 });
    let early = BatchRun::new(3, 2);
    assert!(early.finish().is_err());
    assert!(BatchRun::new(0, 2).finish().is_ok());
    let report = run.finish().ok().unwrap();
    assert_eq!(report.chunks.len(), 3);
    assert_eq!(report.successful, 7);
    assert_eq!(report.failed, 5);
    assert_eq!(report.chunks[1].result, Err("e".to_string()));
    assert_eq!(report.outcomes[11].signature, Some("c".to_string()));
}

#[test]
fn stop_signal_is_honoured_at_the_chunk_boundary() {
    let wallets: Vec<u32> = (0..25).collect();
    let attempts = Cell::new(0usize);
    let reported = RefCell::new(Vec::new());
    let result = run_batches_until(
        &wallets[..],
        10,
        |chunk: &[u32]| chunk.len(),
        |_tx: usize| {
            attempts.set(attempts.get() + 1);
            Ok(format!("sig-{}", attempts.get()))
        },
        |p: BatchProgress| reported.borrow_mut().push(p.completed),
        || attempts.get() >= 1,
    );
    assert_eq!(attempts.get(), 1);
    assert_eq!(*reported.borrow(), vec![10]);
    assert_eq!(result.chunks.len(), 3);
    assert_eq!(result.successful, 10);
    assert_eq!(result.failed, 15);
    assert_eq!(result.outcomes.len(), 25);
    assert_eq!(result.chunks[1].result, Err("cancelled".to_string()));
    assert_eq!(result.chunks[2].result, Err("cancelled".to_string()));
    assert_eq!(result.outcomes[24].error, Some("cancelled".to_string()));
    assert!(result.outcomes[9].success);
}

#[test]
fn run_without_stop_signal_submits_everything() {
    let wallets: Vec<u32> = (0..12).collect();
    let attempts = Cell::new(0usize);
    let result = run_batches_until(
        &wallets[..],
        5,
        |chunk: &[u32]| chunk.len(),
        |_tx: usize| {
            attempts.set(attempts.get() + 1);
            Ok(String::from("s"))
        },
        |_p: BatchProgress| {},
        || false,
    );
    assert_eq!(attempts.get(), 3);
    assert_eq!(result.successful, 12);
    let stopped_at_once = run_batches_until(
        &wallets[..],
        5,
        |chunk: &[u32]| chunk.len(),
        |_tx: usize| Ok(String::from("s")),
        |_p: BatchProgress| {},
        || true,
    );
    assert_eq!(stopped_at_once.successful, 0);
    assert_eq!(stopped_at_once.failed, 12);
    assert_eq!(stopped_at_once.chunks.len(), 3);
}
