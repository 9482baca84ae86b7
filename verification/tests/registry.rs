use wallet_jobs::jobs::{percentage_of_items, JobManager, JobStatus};
use wallet_jobs::{set_job_manager_instance, update_job_progress, update_job_progress_items, ManagerSlot};

#[test]
fn create_job_starts_pending_with_fresh_ids() {
    let mut manager = JobManager::new();
    let a = manager.create_job("refund_wallets", 10);
    let b = manager.create_job("close_accounts", 11);
    assert_eq!(a, "job-0");
    assert_eq!(b, "job-1");
    assert_ne!(a, b);
    let info = manager.get_info(&a).unwrap();
    assert_eq!(info.kind, "refund_wallets");
    assert_eq!(info.status, JobStatus::Pending);
    assert_eq!(info.progress.completed, 0);
    assert_eq!(info.progress.total, 0);
    assert_eq!(info.result, None);
    assert_eq!(info.created_at, 10);
    assert_eq!(info.updated_at, 10);
    assert_eq!(manager.len(), 2);
}

#[test]
fn ids_stay_distinct_past_ten_jobs() {
    let mut manager = JobManager::new();
    let mut ids = Vec::new();
    for n in 0..25u64 {
        ids.push(manager.create_job("k", n));
    }
    assert_eq!(ids[9], "job-9");
    assert_eq!(ids[10], "job-10");
    assert_eq!(ids[24], "job-24");
    for i in 0..ids.len() {
        for j in 0..i {
            assert_ne!(ids[i], ids[j]);
        }
    }
}

#[test]
fn spawn_job_runs_at_once_and_finishes_with_error_as_result() {
    let mut manager = JobManager::new();
    let id = manager.spawn_job("burn_tokens", 5);
    assert_eq!(manager.get_info(&id).unwrap().status, JobStatus::Running);
    assert!(manager.update_progress_items(&id, 1, 4, Some("one".to_string()), 6));
    assert!(manager.finish_job(&id, Err("rpc error: unreachable".to_string()), 7));
    let info = manager.get_info(&id).unwrap();
    assert_eq!(info.status, JobStatus::Failed);
    assert_eq!(info.result, Some("rpc error: unreachable".to_string()));
    assert_eq!(info.updated_at, 7);
    assert!(!manager.finish_job(&id, Ok(()), 8));
    assert_eq!(manager.get_info(&id).unwrap().status, JobStatus::Failed);
}

#[test]
fn finish_ok_keeps_attached_result() {
    let mut manager = JobManager::new();
    let id = manager.spawn_job("get_tokens_balances", 1);
    assert!(manager.set_job_result(&id, "{\"a\":1}".to_string(), 2));
    assert!(!manager.set_job_result(&id, "again".to_string(), 3));
    assert!(manager.finish_job(&id, Ok(()), 4));
    let info = manager.get_info(&id).unwrap();
    assert_eq!(info.status, JobStatus::Succeeded);
    assert_eq!(info.result, Some("{\"a\":1}".to_string()));
}

#[test]
fn result_is_set_once_even_when_the_job_fails() {
    let mut manager = JobManager::new();
    let id = manager.spawn_job("distribute_sol", 1);
    assert!(manager.set_job_result(&id, "partial_failure: 1 succeeded, 2 failed".to_string(), 2));
    assert!(manager.finish_job(&id, Err("late error".to_string()), 3));
    let info = manager.get_info(&id).unwrap();
    assert_eq!(info.status, JobStatus::Failed);
    assert_eq!(info.result, Some("partial_failure: 1 succeeded, 2 failed".to_string()));
    assert!(!manager.set_job_result(&id, "again".to_string(), 4));
}

#[test]
fn start_job_only_from_pending() {
    let mut manager = JobManager::new();
    let id = manager.create_job("distribute_sol", 1);
    assert!(manager.start_job(&id, 2));
    assert_eq!(manager.get_info(&id).unwrap().status, JobStatus::Running);
    assert!(!manager.start_job(&id, 3));
    assert!(!manager.start_job("job-77", 3));
}

#[test]
fn cancel_job_freezes_the_job() {
    let mut manager = JobManager::new();
    let id = manager.create_job("close_accounts", 1);
    assert!(manager.cancel_job(&id, 2));
    assert_eq!(manager.get_info(&id).unwrap().status, JobStatus::Cancelled);
    assert!(!manager.cancel_job(&id, 3));
    assert!(!manager.update_progress(&id, 5000, None, 3));
    assert!(!manager.set_total_items(&id, 9, 3));
    assert_eq!(manager.get_info(&id).unwrap().updated_at, 2);
}

#[test]
fn completed_never_falls_and_never_exceeds_total() {
    let mut manager = JobManager::new();
    let id = manager.spawn_job("refund_wallets", 0);
    assert!(manager.update_progress_items(&id, 3, 10, None, 1));
    assert!(!manager.update_progress_items(&id, 2, 10, None, 2));
    assert!(!manager.update_progress_items(&id, 11, 10, None, 3));
    assert!(manager.update_progress_items(&id, 3, 10, Some("same".to_string()), 4));
    assert!(manager.update_progress_items(&id, 10, 10, None, 5));
    let info = manager.get_info(&id).unwrap();
    assert_eq!(info.progress.completed, 10);
    assert_eq!(info.progress.total, 10);
    assert_eq!(info.progress.percentage_bp, 10_000);
    assert_eq!(info.progress.step, None);
    assert!(!manager.set_total_items(&id, 9, 6));
    assert!(manager.set_total_items(&id, 12, 7));
    assert_eq!(manager.get_info(&id).unwrap().progress.total, 12);
}

#[test]
fn update_on_unknown_or_terminal_job_changes_no_job() {
    let mut manager = JobManager::new();
    let a = manager.spawn_job("a", 1);
    let b = manager.spawn_job("b", 1);
    assert!(manager.update_progress_items(&b, 1, 2, Some("b".to_string()), 2));
    assert!(manager.finish_job(&a, Ok(()), 3));
    assert!(!manager.update_progress_items("job-9", 1, 2, None, 4));
    assert!(!manager.update_progress("nope", 1, None, 4));
    assert!(!manager.update_progress_items(&a, 1, 2, None, 5));
    assert!(!manager.update_progress(&a, 100, None, 5));
    let ia = manager.get_info(&a).unwrap();
    let ib = manager.get_info(&b).unwrap();
    assert_eq!(ia.progress.completed, 0);
    assert_eq!(ia.updated_at, 3);
    assert_eq!(ib.progress.completed, 1);
    assert_eq!(ib.progress.step, Some("b".to_string()));
    assert_eq!(ib.updated_at, 2);
    assert_eq!(manager.list_all().len(), 2);
}

#[test]
fn update_progress_sets_percentage_and_step() {
    let mut manager = JobManager::new();
    let id = manager.spawn_job("x", 1);
    assert!(manager.update_progress(&id, 2_550, Some("quarter".to_string()), 9));
    let info = manager.get_info(&id).unwrap();
    assert_eq!(info.progress.percentage_bp, 2_550);
    assert_eq!(info.progress.step, Some("quarter".to_string()));
    assert_eq!(info.updated_at, 9);
}

#[test]
fn percentage_of_items_rounds_down() {
    assert_eq!(percentage_of_items(0, 0), 0);
    assert_eq!(percentage_of_items(1, 3), 3_333);
    assert_eq!(percentage_of_items(2, 3), 6_666);
    assert_eq!(percentage_of_items(5, 5), 10_000);
    assert_eq!(percentage_of_items(u32::MAX, u32::MAX), 10_000);
}

#[test]
fn list_all_keeps_creation_order() {
    let mut manager = JobManager::new();
    manager.create_job("first", 1);
    manager.spawn_job("second", 2);
    let all = manager.list_all();
    assert_eq!(all.len(), 2);
    assert_eq!(all[0].kind, "first");
    assert_eq!(all[1].kind, "second");
    assert_eq!(all[1].status, JobStatus::Running);
    assert!(manager.get_info("job-2").is_none());
    assert!(manager.get_info("").is_none());
}

#[test]
fn slot_is_filled_once() {
    let mut slot = ManagerSlot::new();
    assert!(!update_job_progress_items(&mut slot, "job-0", 1, 2, "s".to_string(), 1));
    let mut first = JobManager::new();
    let id = first.spawn_job("refund_wallets", 1);
    set_job_manager_instance(&mut slot, first);
    let mut second = JobManager::new();
    second.create_job("other", 1);
    second.create_job("other", 1);
    set_job_manager_instance(&mut slot, second);
    assert_eq!(slot.manager.as_ref().unwrap().len(), 1);
    assert!(update_job_progress_items(&mut slot, &id, 1, 2, "half".to_string(), 2));
    assert!(update_job_progress(&mut slot, &id, 2, 2, "done".to_string(), 3));
    assert!(!update_job_progress(&mut slot, &id, 1, 2, "back".to_string(), 4));
    assert!(!update_job_progress(&mut slot, "job-5", 1, 2, "x".to_string(), 4));
    let info = slot.manager.as_ref().unwrap().get_info(&id).unwrap();
    assert_eq!(info.progress.completed, 2);
    assert_eq!(info.progress.percentage_bp, 10_000);
    assert_eq!(info.progress.step, Some("done".to_string()));
}

#[test]
fn status_terminal_only_for_the_three_final_states() {
    assert!(!JobStatus::Pending.is_terminal());
    assert!(!JobStatus::Running.is_terminal());
    assert!(JobStatus::Succeeded.is_terminal());
    assert!(JobStatus::Failed.is_terminal());
    assert!(JobStatus::Cancelled.is_terminal());
}
