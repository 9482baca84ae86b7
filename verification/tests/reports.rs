use std::cell::Cell;
use wallet_jobs::batch::{run_batches, BatchProgress};
use wallet_jobs::jobs::{JobManager, JobStatus};
use wallet_jobs::reports::{
    accepted_signatures, closures_summary, distribution_summary, job_ending, job_result,
    job_result_of, run_verdict, transfers_summary, verdict_on, RunVerdict,
};

#[test]
fn verdict_distinguishes_partial_failure_from_failure() {
    assert_eq!(run_verdict(0, 0), RunVerdict::Empty);
    assert_eq!(run_verdict(25, 0), RunVerdict::Complete);
    assert_eq!(run_verdict(20, 5), RunVerdict::PartialFailure);
    assert_eq!(run_verdict(0, 25), RunVerdict::Failed);
    assert!(RunVerdict::Empty.succeeds());
    assert!(RunVerdict::Complete.succeeds());
    assert!(RunVerdict::PartialFailure.succeeds());
    assert!(!RunVerdict::Failed.succeeds());
    assert_eq!(RunVerdict::PartialFailure.label(), "partial_failure");
    assert_eq!(RunVerdict::Complete.label(), "complete");
    assert_eq!(RunVerdict::Failed.label(), "failed");
    assert_eq!(RunVerdict::Empty.label(), "empty");
}

#[test]
fn end_to_end_partial_failure_ends_the_job_as_succeeded() {
    let mut manager = JobManager::new();
    let job = manager.spawn_job("distribute_sol", 0);
    let wallets: Vec<u32> = (0..25).collect();
    let attempts = Cell::new(0usize);
    let progress = Cell::new((0usize, 0usize));
    let report = run_batches(
        &wallets[..],
        10,
        |chunk: &[u32]| chunk.len(),
        |_tx: usize| {
            attempts.set(attempts.get() + 1);
            if attempts.get() == 3 {
                Err(String::from("failed"))
            } else {
                Ok(format!("sig{}", attempts.get()))
            }
        },
        |p: BatchProgress| progress.set((p.completed, p.total)),
    );
    assert_eq!(attempts.get(), 3);
    assert_eq!(progress.get(), (25, 25));
    assert!(manager.update_progress_items(&job, 25, 25, None, 1));
    assert_eq!((report.successful, report.failed), (20, 5));
    let verdict = verdict_on(&report);
    assert_eq!(verdict, RunVerdict::PartialFailure);
    assert_eq!(job_result_of(&report), "partial_failure: 20 succeeded, 5 failed");
    match job_ending(report.successful, report.failed) {
        Ok(text) => {
            assert!(manager.set_job_result(&job, text, 2));
            assert!(manager.finish_job(&job, Ok(()), 3));
        }
        Err(text) => {
            assert!(manager.finish_job(&job, Err(text), 3));
        }
    }
    let info = manager.get_info(&job).unwrap();
    assert_eq!(info.status, JobStatus::Succeeded);
    assert_eq!(info.result, Some("partial_failure: 20 succeeded, 5 failed".to_string()));
    assert_eq!(accepted_signatures(&report), vec!["sig1".to_string(), "sig2".to_string()]);
}

#[test]
fn job_result_carries_verdict_and_counts() {
    assert_eq!(job_result(25, 0), "complete: 25 succeeded, 0 failed");
    assert_eq!(job_result(0, 0), "empty: 0 succeeded, 0 failed");
    assert_eq!(job_result(0, 3), "failed: 0 succeeded, 3 failed");
    assert_eq!(job_ending(0, 3), Err("failed: 0 succeeded, 3 failed".to_string()));
    assert_eq!(job_ending(1, 3), Ok("partial_failure: 1 succeeded, 3 failed".to_string()));
    assert_eq!(job_ending(0, 0), Ok("empty: 0 succeeded, 0 failed".to_string()));
}

#[test]
fn seven_accounts_closed_in_two_transactions_count_as_seven() {
    let accounts: Vec<u32> = (0..7).collect();
    let attempts = Cell::new(0usize);
    let report = run_batches(
        &accounts[..],
        5,
        |chunk: &[u32]| chunk.len(),
        |_n: usize| {
            attempts.set(attempts.get() + 1);
            Ok(format!("S{}", attempts.get()))
        },
        |_p: BatchProgress| {},
    );
    assert_eq!(closures_summary(&report), "Closed 7 empty token accounts. Transactions: S1, S2");
    let none: Vec<u32> = Vec::new();
    let empty = run_batches(
        &none[..],
        5,
        |chunk: &[u32]| chunk.len(),
        |_n: usize| Ok(String::new()),
        |_p: BatchProgress| {},
    );
    assert_eq!(closures_summary(&empty), "Closed 0 empty token accounts. Transactions: ");
    let failing = run_batches(
        &accounts[..],
        5,
        |chunk: &[u32]| chunk.len(),
        |n: usize| if n == 5 { Err("e".to_string()) } else { Ok("S2".to_string()) },
        |_p: BatchProgress| {},
    );
    assert_eq!(closures_summary(&failing), "Closed 2 empty token accounts. Transactions: S2");
}

#[test]
fn summaries_list_counts_and_signatures() {
    let sigs = vec!["s1".to_string(), "s2".to_string()];
    assert_eq!(transfers_summary(&sigs), "Completed 2 individual transfers: s1, s2");
    assert_eq!(transfers_summary(&Vec::new()), "Completed 0 individual transfers: ");
    assert_eq!(
        distribution_summary("1.5", 25, &sigs),
        "Distributed 1.5 SOL to 25 wallets in 2 transactions: s1, s2"
    );
}
