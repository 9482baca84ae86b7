//! Long polling: a caller asks again and again for the state of a job until
//! the job has ended or the time allowed has run out. The library decides
//! after each look what to do next; the caller does the waiting.

use vstd::prelude::*;
use vstd::string::*;
use crate::batch::{chunk_count, chunk_end, chunk_start, lemma_chunk_exists, lemma_chunks_consecutive, BatchOperation};
use crate::jobs::{
    advances, job_at, job_id_text, job_views, lemma_advances_transitive, lemma_job_id_text_injective,
    new_job, registry_wf, JobInfo, JobManager, JobStatus, JobView,
};

verus! {

/// How long and how often to poll. Times are in milliseconds.
#[derive(Clone, Copy, Debug, PartialEq, Eq, Structural)]
pub struct LongPollConfig {
    pub timeout_ms: u64,
    pub poll_interval_ms: u64,
    pub max_retries: u32,
}

impl Default for LongPollConfig {
    /// Thirty seconds in all, a look every half second, three retries.
    fn default() -> (config: LongPollConfig)
        ensures
            config == (LongPollConfig { timeout_ms: 30_000, poll_interval_ms: 500, max_retries: 3 }),
    {
        LongPollConfig { timeout_ms: 30_000, poll_interval_ms: 500, max_retries: 3 }
    }
}

/// What to do after one look at a job.
#[derive(Debug)]
pub enum PollDecision {
    /// The job has ended; this is its final state.
    Done(JobInfo),
    /// No job carries the identifier.
    NotFound,
    /// The time allowed has run out while the job had not ended.
    TimedOut,
    /// Look again after this many milliseconds.
    Wait(u64),
}

/// The mathematical content of a [`PollDecision`].
pub enum PollView {
    Done(JobView),
    NotFound,
    TimedOut,
    Wait(u64),
}

impl View for PollDecision {
    type V = PollView;

    open spec fn view(&self) -> PollView {
        match self {
            PollDecision::Done(job) => PollView::Done(job@),
            PollDecision::NotFound => PollView::NotFound,
            PollDecision::TimedOut => PollView::TimedOut,
            PollDecision::Wait(ms) => PollView::Wait(*ms),
        }
    }
}

/// The decision after a look that found `job`, `elapsed_ms` after polling began.
pub open spec fn poll_decision(job: Option<JobView>, elapsed_ms: u64, config: LongPollConfig) -> PollView {
    match job {
        None => PollView::NotFound,
        Some(job) => if job.status.terminal() {
            PollView::Done(job)
        } else if elapsed_ms >= config.timeout_ms {
            PollView::TimedOut
        } else {
            PollView::Wait(config.poll_interval_ms)
        },
    }
}

/// The tally of a batch of jobs.
#[derive(Debug)]
pub struct BatchJobResult {
    pub batch_id: String,
    pub job_ids: Vec<String>,
    pub total_jobs: usize,
    pub completed_jobs: usize,
    pub failed_jobs: usize,
    pub cancelled_jobs: usize,
    pub jobs: Vec<JobInfo>,
}

/// The number of jobs among the first `upto` that have the status `status`.
pub open spec fn count_status(jobs: Seq<JobView>, status: JobStatus, upto: int) -> nat
    decreases upto,
{
    if upto <= 0 {
        0
    } else if jobs[upto - 1].status == status {
        count_status(jobs, status, upto - 1) + 1
    } else {
        count_status(jobs, status, upto - 1)
    }
}

/// The number of jobs among the first `upto` that have ended.
pub open spec fn count_terminal(jobs: Seq<JobView>, upto: int) -> nat
    decreases upto,
{
    if upto <= 0 {
        0
    } else if jobs[upto - 1].status.terminal() {
        count_terminal(jobs, upto - 1) + 1
    } else {
        count_terminal(jobs, upto - 1)
    }
}

/// The jobs that have ended are those that succeeded, failed or were
/// cancelled, each counted once.
pub proof fn lemma_terminal_is_sum(jobs: Seq<JobView>, upto: int)
    requires
        0 <= upto,
    ensures
        count_terminal(jobs, upto) == count_status(jobs, JobStatus::Succeeded, upto) + count_status(
            jobs,
            JobStatus::Failed,
            upto,
        ) + count_status(jobs, JobStatus::Cancelled, upto),
        count_terminal(jobs, upto) <= upto,
    decreases upto,
{
    if upto > 0 {
        lemma_terminal_is_sum(jobs, upto - 1);
    }
}

/// The jobs of `registry` that `ids` name, in the order of `ids`; an
/// identifier that names no job contributes nothing.
pub open spec fn named_jobs(registry: Seq<JobView>, ids: Seq<String>, upto: int) -> Seq<JobView>
    decreases upto,
{
    if upto <= 0 {
        Seq::empty()
    } else {
        match job_at(registry, ids[upto - 1]@) {
            Some(job) => named_jobs(registry, ids, upto - 1).push(job),
            None => named_jobs(registry, ids, upto - 1),
        }
    }
}

/// The service that answers poll requests.
pub struct LongPollingService;

impl LongPollingService {
    /// Decides what follows one look at the job `job_id`: done when the job
    /// has ended, timed out when `elapsed_ms` has reached the time allowed,
    /// else wait for one interval. Without a configuration the default holds.
    pub fn poll_single_job(
        job_id: &str,
        job_manager: &JobManager,
        config: Option<LongPollConfig>,
        elapsed_ms: u64,
    ) -> (decision: PollDecision)
        ensures
            decision@ == poll_decision(
                job_at(job_manager@, job_id@),
                elapsed_ms,
                match config {
                    Some(c) => c,
                    None => LongPollConfig { timeout_ms: 30_000, poll_interval_ms: 500, max_retries: 3 },
                },
            ),
    {
        let config = match config {
            Some(c) => c,
            None => LongPollConfig::default(),
        };
        match job_manager.get_info(job_id) {
            None => PollDecision::NotFound,
            Some(job) => {
                if job.status.is_terminal() {
                    PollDecision::Done(job)
                } else if elapsed_ms >= config.timeout_ms {
                    PollDecision::TimedOut
                } else {
                    PollDecision::Wait(config.poll_interval_ms)
                }
            },
        }
    }

    /// Takes one look at every job that `job_ids` names and tallies them.
    /// The second part of the result tells whether polling is over: every
    /// job found has ended, or `elapsed_ms` has reached the time allowed.
    pub fn poll_batch_jobs(
        batch_id: &str,
        job_ids: &Vec<String>,
        job_manager: &JobManager,
        config: Option<LongPollConfig>,
        elapsed_ms: u64,
    ) -> (polled: (BatchJobResult, bool))
        ensures
            polled.0.batch_id@ == batch_id@,
            polled.0.job_ids@.len() == job_ids@.len(),
            forall|i: int| 0 <= i < job_ids@.len() ==> polled.0.job_ids@[i]@ == job_ids@[i]@,
            polled.0.total_jobs == job_ids@.len(),
            job_views(polled.0.jobs@) == named_jobs(job_manager@, job_ids@, job_ids@.len() as int),
            polled.0.completed_jobs == count_status(
                job_views(polled.0.jobs@),
                JobStatus::Succeeded,
                polled.0.jobs@.len() as int,
            ),
            polled.0.failed_jobs == count_status(
                job_views(polled.0.jobs@),
                JobStatus::Failed,
                polled.0.jobs@.len() as int,
            ),
            polled.0.cancelled_jobs == count_status(
                job_views(polled.0.jobs@),
                JobStatus::Cancelled,
                polled.0.jobs@.len() as int,
            ),
            polled.1 == (count_terminal(job_views(polled.0.jobs@), polled.0.jobs@.len() as int)
                == polled.0.jobs@.len() || elapsed_ms >= (match config {
                Some(c) => c,
                None => LongPollConfig { timeout_ms: 30_000, poll_interval_ms: 500, max_retries: 3 },
            }).timeout_ms),
    {
        let config = match config {
            Some(c) => c,
            None => LongPollConfig::default(),
        };
        let mut ids: Vec<String> = Vec::new();
        let mut jobs: Vec<JobInfo> = Vec::new();
        let mut completed: usize = 0;
        let mut failed: usize = 0;
        let mut cancelled: usize = 0;
        let mut i: usize = 0;
        while i < job_ids.len()
            invariant
                i <= job_ids.len(),
                ids@.len() == i,
                forall|j: int| 0 <= j < i ==> ids@[j]@ == job_ids@[j]@,
                job_views(jobs@) == named_jobs(job_manager@, job_ids@, i as int),
                jobs@.len() <= i,
                completed == count_status(job_views(jobs@), JobStatus::Succeeded, jobs@.len() as int),
                failed == count_status(job_views(jobs@), JobStatus::Failed, jobs@.len() as int),
                cancelled == count_status(job_views(jobs@), JobStatus::Cancelled, jobs@.len() as int),
                completed + failed + cancelled <= jobs@.len(),
            decreases job_ids.len() - i,
        {
            ids.push(job_ids[i].clone());
            match job_manager.get_info(job_ids[i].as_str()) {
                Some(job) => {
                    let ghost before = job_views(jobs@);
                    let status = job.status;
                    jobs.push(job);
                    proof {
                        let after = job_views(jobs@);
                        assert(after =~= before.push(job@));
                        assert(after.len() == before.len() + 1);
                        lemma_count_status_prefix(before, after, JobStatus::Succeeded, before.len() as int);
                        lemma_count_status_prefix(before, after, JobStatus::Failed, before.len() as int);
                        lemma_count_status_prefix(before, after, JobStatus::Cancelled, before.len() as int);
                    }
                    match status {
                        JobStatus::Succeeded => {
                            completed += 1;
                        },
                        JobStatus::Failed => {
                            failed += 1;
                        },
                        JobStatus::Cancelled => {
                            cancelled += 1;
                        },
                        _ => {},
                    }
                },
                None => {},
            }
            i += 1;
        }
        proof {
            lemma_terminal_is_sum(job_views(jobs@), jobs@.len() as int);
        }
        let over = completed + failed + cancelled == jobs.len() || elapsed_ms >= config.timeout_ms;
        let result = BatchJobResult {
            batch_id: batch_id.to_owned(),
            job_ids: ids,
            total_jobs: job_ids.len(),
            completed_jobs: completed,
            failed_jobs: failed,
            cancelled_jobs: cancelled,
            jobs,
        };
        (result, over)
    }

    /// Starts one group of `count` jobs of the given kind, each running from
    /// the start. The identifiers come back in the order of the requests, one
    /// for each, and no two are alike; the jobs that were there stay as they
    /// were.
    pub fn start_job_chunk(manager: &mut JobManager, kind: &str, count: usize, now: u64) -> (ids:
        Vec<String>)
        ensures
            ids@.len() == count,
            forall|i: int|
                0 <= i < count ==> (#[trigger] ids@[i])@ == job_id_text(
                    (old(manager)@.len() + i) as nat,
                ),
            forall|i: int, j: int| 0 <= i < j < count ==> ids@[i]@ != ids@[j]@,
            final(manager)@.len() == old(manager)@.len() + count,
            forall|i: int|
                0 <= i < old(manager)@.len() ==> (#[trigger] final(manager)@[i]) == old(manager)@[i],
            forall|p: int|
                old(manager)@.len() <= p < old(manager)@.len() + count ==> (
                #[trigger] final(manager)@[p]) == new_job(p as nat, kind@, JobStatus::Running, now),
            advances(old(manager)@, final(manager)@),
            registry_wf(final(manager)@),
    {
        let mut ids: Vec<String> = Vec::new();
        let ghost start = manager@;
        let existing = manager.len();
        assert(existing == start.len());
        let mut n: usize = 0;
        while n < count
            invariant
                n <= count,
                start == old(manager)@,
                ids@.len() == n,
                manager@.len() == start.len() + n,
                registry_wf(manager@),
                advances(start, manager@),
                forall|i: int| 0 <= i < n ==> (#[trigger] ids@[i])@ == job_id_text((start.len() + i) as nat),
                forall|i: int| 0 <= i < start.len() ==> (#[trigger] manager@[i]) == start[i],
                forall|p: int|
                    start.len() <= p < start.len() + n ==> (#[trigger] manager@[p]) == new_job(
                        p as nat,
                        kind@,
                        JobStatus::Running,
                        now,
                    ),
            decreases count - n,
        {
            let ghost before = manager@;
            let id = manager.spawn_job(kind, now);
            proof {
                lemma_advances_transitive(start, before, manager@);
            }
            ids.push(id);
            n += 1;
        }
        proof {
            assert forall|i: int, j: int| 0 <= i < j < count implies ids@[i]@ != ids@[j]@ by {
                if ids@[i]@ == ids@[j]@ {
                    lemma_job_id_text_injective((start.len() + i) as nat, (start.len() + j) as nat);
                }
            }
        }
        ids
    }

    /// Cuts `requests` launch requests into the groups in which they are
    /// started: consecutive, in order, none larger than `max_concurrent`.
    /// Each group is started whole before the next one is begun.
    pub fn start_controlled_batch(requests: usize, max_concurrent: usize) -> (groups: Vec<
        BatchOperation,
    >)
        requires
            max_concurrent > 0,
        ensures
            groups@.len() == chunk_count(requests as nat, max_concurrent as nat),
            forall|k: int|
                0 <= k < groups@.len() ==> (#[trigger] groups@[k]) == (BatchOperation {
                    index: k as usize,
                    start: chunk_start(max_concurrent as nat, k as nat) as usize,
                    end: chunk_end(requests as nat, max_concurrent as nat, k as nat) as usize,
                }),
            forall|k: int|
                0 <= k < groups@.len() ==> 0 < (#[trigger] groups@[k]).end - groups@[k].start
                    <= max_concurrent,
    {
        let mut groups: Vec<BatchOperation> = Vec::new();
        let mut start: usize = 0;
        proof {
            lemma_chunk_exists(requests as nat, max_concurrent as nat, 0);
        }
        while start < requests
            invariant
                max_concurrent > 0,
                start <= requests,
                groups@.len() <= chunk_count(requests as nat, max_concurrent as nat),
                start < requests ==> start == chunk_start(max_concurrent as nat, groups@.len()),
                start < requests <==> groups@.len() < chunk_count(
                    requests as nat,
                    max_concurrent as nat,
                ),
                forall|k: int|
                    0 <= k < groups@.len() ==> (#[trigger] groups@[k]) == (BatchOperation {
                        index: k as usize,
                        start: chunk_start(max_concurrent as nat, k as nat) as usize,
                        end: chunk_end(requests as nat, max_concurrent as nat, k as nat) as usize,
                    }),
                forall|k: int|
                    0 <= k < groups@.len() ==> 0 < (#[trigger] groups@[k]).end - groups@[k].start
                        <= max_concurrent,
            decreases requests - start,
        {
            let ghost k = groups@.len();
            proof {
                lemma_chunks_consecutive(requests as nat, max_concurrent as nat, k);
                lemma_chunk_exists(requests as nat, max_concurrent as nat, k + 1);
            }
            let end = if requests - start > max_concurrent {
                start + max_concurrent
            } else {
                requests
            };
            groups.push(BatchOperation { index: groups.len(), start, end });
            start = end;
        }
        groups
    }
}

/// Counting over a list is counting over any longer list that begins with it.
pub proof fn lemma_count_status_prefix(short: Seq<JobView>, long: Seq<JobView>, status: JobStatus, upto: int)
    requires
        0 <= upto <= short.len() <= long.len(),
        forall|i: int| 0 <= i < short.len() ==> short[i] == long[i],
    ensures
        count_status(short, status, upto) == count_status(long, status, upto),
    decreases upto,
{
    if upto > 0 {
        lemma_count_status_prefix(short, long, status, upto - 1);
    }
}

} // verus!
