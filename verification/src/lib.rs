//! Job orchestration and batched transaction planning for bulk wallet operations.
//!
//! The library decides; its callers act. It keeps the registry of background
//! jobs, cuts operand lists into transaction-sized chunks, decides which
//! wallets take part in an operation, and gathers what every submission came
//! to. Reading balances, signing, sending and waiting are left to the caller.

pub mod accounts;
pub mod balances;
pub mod batch;
pub mod eligibility;
pub mod jobs;
pub mod keys;
pub mod long_polling;
pub mod reports;
pub mod responses;
pub mod strategies;
pub mod text;

use vstd::prelude::*;
use crate::jobs::{advances, job_at, may_count, opt_text, registry_wf, with_items, with_job, JobManager, JobView};

verus! {

/// The place of the one registry that progress reports go to. It starts empty
/// and is filled once; a second registry offered later is turned away.
pub struct ManagerSlot {
    pub manager: Option<JobManager>,
}

impl View for ManagerSlot {
    type V = Option<Seq<JobView>>;

    open spec fn view(&self) -> Option<Seq<JobView>> {
        match self.manager {
            Some(manager) => Some(manager@),
            None => None,
        }
    }
}

impl ManagerSlot {
    /// A slot that holds no registry yet.
    pub fn new() -> (slot: ManagerSlot)
        ensures
            slot@ is None,
    {
        ManagerSlot { manager: None }
    }
}

/// Puts `manager` into the slot if the slot is empty; a slot that is filled
/// keeps the registry it has.
pub fn set_job_manager_instance(slot: &mut ManagerSlot, manager: JobManager)
    ensures
        final(slot)@ == match old(slot)@ {
            Some(jobs) => Some(jobs),
            None => Some(manager@),
        },
{
    if slot.manager.is_none() {
        slot.manager = Some(manager);
    }
}

/// Reports the item counters and the step of a job to the registry in the
/// slot. Returns false, and changes nothing, when the slot is empty or the
/// registry turns the update away: for an unknown job, one that has ended, a
/// `completed` above `total`, or a `completed` below the job's present one.
pub fn update_job_progress_items(
    slot: &mut ManagerSlot,
    job_id: &str,
    completed: u32,
    total: u32,
    step: String,
    now: u64,
) -> (accepted: bool)
    ensures
        match old(slot)@ {
            None => !accepted && final(slot)@ is None,
            Some(jobs) => {
                &&& accepted == (job_at(jobs, job_id@) matches Some(job) && may_count(
                    job,
                    completed,
                    total,
                ))
                &&& final(slot)@ == Some(
                    if accepted {
                        with_job(
                            jobs,
                            job_id@,
                            with_items(job_at(jobs, job_id@)->0, completed, total, Some(step@), now),
                        )
                    } else {
                        jobs
                    },
                )
                &&& advances(jobs, final(slot)@->0)
                &&& registry_wf(final(slot)@->0)
            },
        },
{
    let mut taken: Option<JobManager> = None;
    std::mem::swap(&mut taken, &mut slot.manager);
    match taken {
        Some(mut manager) => {
            let accepted = manager.update_progress_items(job_id, completed, total, Some(step), now);
            slot.manager = Some(manager);
            accepted
        },
        None => false,
    }
}

/// The same report under the name that the operations use.
pub fn update_job_progress(
    slot: &mut ManagerSlot,
    job_id: &str,
    completed: u32,
    total: u32,
    step: String,
    now: u64,
) -> (accepted: bool)
    ensures
        match old(slot)@ {
            None => !accepted && final(slot)@ is None,
            Some(jobs) => {
                &&& accepted == (job_at(jobs, job_id@) matches Some(job) && may_count(
                    job,
                    completed,
                    total,
                ))
                &&& final(slot)@ == Some(
                    if accepted {
                        with_job(
                            jobs,
                            job_id@,
                            with_items(job_at(jobs, job_id@)->0, completed, total, Some(step@), now),
                        )
                    } else {
                        jobs
                    },
                )
                &&& advances(jobs, final(slot)@->0)
                &&& registry_wf(final(slot)@->0)
            },
        },
{
    update_job_progress_items(slot, job_id, completed, total, step, now)
}

} // verus!
