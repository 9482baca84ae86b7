//! The job registry: lifecycle, progress counters and results of background jobs.
//!
//! The registry is a plain value. Callers that share it between tasks guard it
//! with a lock of their own and hold that lock only for the duration of one call.
//! Time is handed in by the caller as a number; the registry never reads a clock.

use vstd::prelude::*;
use vstd::string::*;
use crate::text::{decimal_digits, lemma_decimal_digits_injective, push_decimal};

verus! {

/// Where a job stands in its life.
#[derive(Clone, Copy, Debug, PartialEq, Eq, Structural)]
pub enum JobStatus {
    Pending,
    Running,
    Succeeded,
    Failed,
    Cancelled,
}

impl JobStatus {
    /// A terminal job takes no further change.
    pub open spec fn terminal(self) -> bool {
        self is Succeeded || self is Failed || self is Cancelled
    }

    /// Whether the status is one of the three final ones.
    pub fn is_terminal(self) -> (t: bool)
        ensures
            t == self.terminal(),
    {
        match self {
            JobStatus::Pending | JobStatus::Running => false,
            JobStatus::Succeeded | JobStatus::Failed | JobStatus::Cancelled => true,
        }
    }
}

/// Progress counters of one job. `percentage_bp` counts hundredths of a percent.
#[derive(Debug)]
pub struct JobProgress {
    pub completed: u32,
    pub total: u32,
    pub percentage_bp: u32,
    pub step: Option<String>,
}

/// A snapshot of one job.
#[derive(Debug)]
pub struct JobInfo {
    pub id: String,
    pub kind: String,
    pub status: JobStatus,
    pub progress: JobProgress,
    pub result: Option<String>,
    pub created_at: u64,
    pub updated_at: u64,
}

/// The mathematical content of a [`JobInfo`].
pub struct JobView {
    pub id: Seq<char>,
    pub kind: Seq<char>,
    pub status: JobStatus,
    pub completed: u32,
    pub total: u32,
    pub percentage_bp: u32,
    pub step: Option<Seq<char>>,
    pub result: Option<Seq<char>>,
    pub created_at: u64,
    pub updated_at: u64,
}

/// The characters of an optional string.
pub open spec fn opt_text(o: Option<String>) -> Option<Seq<char>> {
    match o {
        Some(s) => Some(s@),
        None => None,
    }
}

impl View for JobInfo {
    type V = JobView;

    open spec fn view(&self) -> JobView {
        JobView {
            id: self.id@,
            kind: self.kind@,
            status: self.status,
            completed: self.progress.completed,
            total: self.progress.total,
            percentage_bp: self.progress.percentage_bp,
            step: opt_text(self.progress.step),
            result: opt_text(self.result),
            created_at: self.created_at,
            updated_at: self.updated_at,
        }
    }
}

/// A copy of an optional string.
fn copy_opt_text(o: &Option<String>) -> (c: Option<String>)
    ensures
        opt_text(c) == opt_text(*o),
{
    match o {
        Some(s) => Some(s.clone()),
        None => None,
    }
}

impl JobInfo {
    /// A copy that reads the same.
    pub fn snapshot(&self) -> (copy: JobInfo)
        ensures
            copy@ == self@,
    {
        JobInfo {
            id: self.id.clone(),
            kind: self.kind.clone(),
            status: self.status,
            progress: JobProgress {
                completed: self.progress.completed,
                total: self.progress.total,
                percentage_bp: self.progress.percentage_bp,
                step: copy_opt_text(&self.progress.step),
            },
            result: copy_opt_text(&self.result),
            created_at: self.created_at,
            updated_at: self.updated_at,
        }
    }
}

/// The identifier of the job created at position `n`.
pub open spec fn job_id_text(n: nat) -> Seq<char> {
    seq!['j', 'o', 'b', '-'] + decimal_digits(n)
}

/// Different positions have different identifiers.
pub proof fn lemma_job_id_text_injective(a: nat, b: nat)
    requires
        job_id_text(a) == job_id_text(b),
    ensures
        a == b,
{
    assert(job_id_text(a).subrange(4, job_id_text(a).len() as int) == decimal_digits(a));
    assert(job_id_text(b).subrange(4, job_id_text(b).len() as int) == decimal_digits(b));
    lemma_decimal_digits_injective(a, b);
}

/// Hundredths of a percent that `completed` of `total` items stand for.
pub open spec fn items_percentage(completed: u32, total: u32) -> int {
    if total == 0 {
        0
    } else {
        completed * 10_000 / (total as int)
    }
}

/// What every registry satisfies: the job at position `i` carries the
/// identifier of position `i`, and no job has completed more items than its total.
pub open spec fn registry_wf(jobs: Seq<JobView>) -> bool {
    forall|i: int|
        0 <= i < jobs.len() ==> (#[trigger] jobs[i]).id == job_id_text(i as nat) && jobs[i].completed
            <= jobs[i].total
}

/// The job with identifier `id`, if the registry holds one.
pub open spec fn job_at(jobs: Seq<JobView>, id: Seq<char>) -> Option<JobView> {
    if exists|i: int| 0 <= i < jobs.len() && jobs[i].id == id {
        Some(jobs[choose|i: int| 0 <= i < jobs.len() && jobs[i].id == id])
    } else {
        None
    }
}

/// The registry with every job of identifier `id` replaced by `job`.
pub open spec fn with_job(jobs: Seq<JobView>, id: Seq<char>, job: JobView) -> Seq<JobView> {
    Seq::new(jobs.len(), |i: int| if jobs[i].id == id { job } else { jobs[i] })
}

/// A fresh job as `create_job` and `spawn_job` record it.
pub open spec fn new_job(position: nat, kind: Seq<char>, status: JobStatus, now: u64) -> JobView {
    JobView {
        id: job_id_text(position),
        kind,
        status,
        completed: 0,
        total: 0,
        percentage_bp: 0,
        step: None,
        result: None,
        created_at: now,
        updated_at: now,
    }
}

/// How one job may differ between an earlier and a later state of the registry:
/// identity is kept, `completed` never falls, a result once set stays, and a
/// terminal job is frozen.
pub open spec fn job_advances(before: JobView, after: JobView) -> bool {
    &&& after.id == before.id
    &&& after.kind == before.kind
    &&& after.created_at == before.created_at
    &&& before.completed <= after.completed
    &&& before.result is Some ==> after.result == before.result
    &&& before.status.terminal() ==> after == before
}

/// How the registry may differ between an earlier and a later state:
/// no job disappears and each one advances.
pub open spec fn advances(before: Seq<JobView>, after: Seq<JobView>) -> bool {
    &&& before.len() <= after.len()
    &&& forall|i: int| 0 <= i < before.len() ==> job_advances(#[trigger] before[i], after[i])
}

/// A registry advances to itself.
pub proof fn lemma_advances_reflexive(jobs: Seq<JobView>)
    ensures
        advances(jobs, jobs),
{
}

/// Two steps in a row are one step: over any run of calls no job disappears,
/// `completed` never falls and a terminal job stays as it was.
pub proof fn lemma_advances_transitive(a: Seq<JobView>, b: Seq<JobView>, c: Seq<JobView>)
    requires
        advances(a, b),
        advances(b, c),
    ensures
        advances(a, c),
{
    assert forall|i: int| 0 <= i < a.len() implies job_advances(#[trigger] a[i], c[i]) by {
        assert(job_advances(a[i], b[i]));
        assert(job_advances(b[i], c[i]));
    }
}

/// Over the life of a job its `completed` count never falls and never exceeds
/// its `total`, whatever calls lie between the two states.
pub proof fn lemma_completed_monotone_and_bounded(before: Seq<JobView>, after: Seq<JobView>, i: int)
    requires
        registry_wf(before),
        registry_wf(after),
        advances(before, after),
        0 <= i < before.len(),
    ensures
        before[i].completed <= after[i].completed <= after[i].total,
{
    assert(job_advances(before[i], after[i]));
}

/// In a well-formed registry an identifier names at most one job.
pub proof fn lemma_job_at_unique(jobs: Seq<JobView>, i: int)
    requires
        registry_wf(jobs),
        0 <= i < jobs.len(),
    ensures
        job_at(jobs, jobs[i].id) == Some(jobs[i]),
        with_job(jobs, jobs[i].id, jobs[i]) == jobs,
        forall|job: JobView| with_job(jobs, jobs[i].id, job) == jobs.update(i, job),
{
    let id = jobs[i].id;
    assert forall|j: int| 0 <= j < jobs.len() && jobs[j].id == id implies j == i by {
        lemma_job_id_text_injective(j as nat, i as nat);
    }
    assert(with_job(jobs, id, jobs[i]) =~= jobs);
    assert forall|job: JobView| with_job(jobs, id, job) == jobs.update(i, job) by {
        assert(with_job(jobs, id, job) =~= jobs.update(i, job));
    }
}

/// A live job may start running while it is pending.
pub open spec fn may_start(job: JobView) -> bool {
    job.status is Pending
}

/// The job once it runs.
pub open spec fn started(job: JobView, now: u64) -> JobView {
    JobView { status: JobStatus::Running, updated_at: now, ..job }
}

/// A job that has not ended may end.
pub open spec fn may_end(job: JobView) -> bool {
    !job.status.terminal()
}

/// The result of a job that ends with `error`: a result attached earlier
/// stays, for a result is set once; else the error message takes the place.
pub open spec fn result_at_end(attached: Option<Seq<char>>, error: Option<Seq<char>>) -> Option<
    Seq<char>,
> {
    match attached {
        Some(payload) => Some(payload),
        None => error,
    }
}

/// The job once its work has returned: succeeded, or failed where there is an
/// error; the result as [`result_at_end`] gives it.
pub open spec fn finished(job: JobView, error: Option<Seq<char>>, now: u64) -> JobView {
    JobView {
        status: if error is Some {
            JobStatus::Failed
        } else {
            JobStatus::Succeeded
        },
        result: result_at_end(job.result, error),
        updated_at: now,
        ..job
    }
}

/// The job once it has been cancelled.
pub open spec fn cancelled(job: JobView, now: u64) -> JobView {
    JobView { status: JobStatus::Cancelled, updated_at: now, ..job }
}

/// The job after a percentage update.
pub open spec fn with_percentage(
    job: JobView,
    percentage_bp: u32,
    step: Option<Seq<char>>,
    now: u64,
) -> JobView {
    JobView { percentage_bp, step, updated_at: now, ..job }
}

/// An item update is taken while the job has not ended, `completed` does not
/// exceed `total`, and `completed` does not fall.
pub open spec fn may_count(job: JobView, completed: u32, total: u32) -> bool {
    &&& !job.status.terminal()
    &&& completed <= total
    &&& job.completed <= completed
}

/// The job after an item update.
pub open spec fn with_items(
    job: JobView,
    completed: u32,
    total: u32,
    step: Option<Seq<char>>,
    now: u64,
) -> JobView {
    JobView {
        completed,
        total,
        percentage_bp: items_percentage(completed, total) as u32,
        step,
        updated_at: now,
        ..job
    }
}

/// A new total is taken while the job has not ended and the total covers what
/// is already completed.
pub open spec fn may_resize(job: JobView, total: u32) -> bool {
    &&& !job.status.terminal()
    &&& job.completed <= total
}

/// The job after its total was declared.
pub open spec fn with_total(job: JobView, total: u32, now: u64) -> JobView {
    JobView { total, updated_at: now, ..job }
}

/// A result is attached while the job has not ended and has no result yet.
pub open spec fn may_attach(job: JobView) -> bool {
    &&& !job.status.terminal()
    &&& job.result is None
}

/// The job with a result attached.
pub open spec fn with_result(job: JobView, payload: Seq<char>, now: u64) -> JobView {
    JobView { result: Some(payload), updated_at: now, ..job }
}

/// The registry of jobs, in the order of their creation.
pub struct JobManager {
    jobs: Vec<JobInfo>,
}

impl View for JobManager {
    type V = Seq<JobView>;

    closed spec fn view(&self) -> Seq<JobView> {
        self.jobs@.map_values(|job: JobInfo| job@)
    }
}

impl JobManager {
    #[verifier::type_invariant]
    spec fn well_formed(self) -> bool {
        registry_wf(self@)
    }

    /// An empty registry.
    pub fn new() -> (manager: JobManager)
        ensures
            manager@ == Seq::<JobView>::empty(),
            registry_wf(manager@),
    {
        let manager = JobManager { jobs: Vec::new() };
        assert(manager@ =~= Seq::<JobView>::empty());
        manager
    }

    /// The number of jobs ever created.
    pub fn len(&self) -> (n: usize)
        ensures
            n == self@.len(),
            registry_wf(self@),
    {
        proof {
            use_type_invariant(self);
        }
        self.jobs.len()
    }

    /// Takes the list of jobs out, leaving the registry empty for the moment.
    fn take(&mut self) -> (jobs: Vec<JobInfo>)
        ensures
            job_views(jobs@) == old(self)@,
            registry_wf(old(self)@),
    {
        proof {
            use_type_invariant(&*self);
        }
        let mut jobs: Vec<JobInfo> = Vec::new();
        std::mem::swap(&mut jobs, &mut self.jobs);
        jobs
    }

    /// Puts a list of jobs in place.
    fn put(&mut self, jobs: Vec<JobInfo>)
        requires
            registry_wf(job_views(jobs@)),
        ensures
            final(self)@ == job_views(jobs@),
    {
        self.jobs = jobs;
    }

    /// The position of the job with identifier `job_id`.
    fn find(&self, job_id: &str) -> (found: Option<usize>)
        ensures
            registry_wf(self@),
            match found {
                Some(i) => i < self@.len() && self@[i as int].id == job_id@ && job_at(
                    self@,
                    job_id@,
                ) == Some(self@[i as int]),
                None => job_at(self@, job_id@) is None,
            },
    {
        proof {
            use_type_invariant(self);
        }
        let wanted = job_id.to_owned();
        let mut i: usize = 0;
        while i < self.jobs.len()
            invariant
                i <= self.jobs.len(),
                wanted@ == job_id@,
                registry_wf(self@),
                forall|j: int| 0 <= j < i ==> self@[j].id != job_id@,
            decreases self.jobs.len() - i,
        {
            if self.jobs[i].id == wanted {
                proof {
                    lemma_job_at_unique(self@, i as int);
                }
                return Some(i);
            }
            i += 1;
        }
        None
    }

    /// Records a new job under a fresh identifier.
    fn add(&mut self, kind: &str, status: JobStatus, now: u64) -> (job_id: String)
        ensures
            registry_wf(final(self)@),
            job_id@ == job_id_text(old(self)@.len()),
            final(self)@ == old(self)@.push(new_job(old(self)@.len(), kind@, status, now)),
            job_at(old(self)@, job_id@) is None,
            advances(old(self)@, final(self)@),
    {
        proof {
            use_type_invariant(&*self);
        }
        let position = self.jobs.len();
        let mut id = String::from_str("job-");
        proof {
            reveal_strlit("job-");
            assert("job-"@ =~= seq!['j', 'o', 'b', '-']);
        }
        push_decimal(&mut id, position as u64);
        let job_id = id.clone();
        let job = JobInfo {
            id,
            kind: kind.to_owned(),
            status,
            progress: JobProgress { completed: 0, total: 0, percentage_bp: 0, step: None },
            result: None,
            created_at: now,
            updated_at: now,
        };
        let ghost before = self@;
        proof {
            assert(job@ == new_job(before.len(), kind@, status, now));
            assert forall|j: int| 0 <= j < before.len() implies before[j].id != job_id@ by {
                if before[j].id == job_id@ {
                    lemma_job_id_text_injective(j as nat, before.len());
                }
            }
            assert(self.jobs@.push(job).map_values(|job: JobInfo| job@) =~= before.push(job@));
        }
        let mut jobs: Vec<JobInfo> = Vec::new();
        std::mem::swap(&mut jobs, &mut self.jobs);
        jobs.push(job);
        self.jobs = jobs;
        job_id
    }

    /// Creates a job of the given kind in the pending state and returns its identifier.
    pub fn create_job(&mut self, kind: &str, now: u64) -> (job_id: String)
        ensures
            registry_wf(final(self)@),
            job_id@ == job_id_text(old(self)@.len()),
            final(self)@ == old(self)@.push(
                new_job(old(self)@.len(), kind@, JobStatus::Pending, now),
            ),
            job_at(old(self)@, job_id@) is None,
            advances(old(self)@, final(self)@),
    {
        self.add(kind, JobStatus::Pending, now)
    }

    /// Creates a job of the given kind that is running from the start. The
    /// identifier is returned before any of the job's work begins; the caller
    /// reports the end of that work with [`JobManager::finish_job`].
    pub fn spawn_job(&mut self, kind: &str, now: u64) -> (job_id: String)
        ensures
            registry_wf(final(self)@),
            job_id@ == job_id_text(old(self)@.len()),
            final(self)@ == old(self)@.push(
                new_job(old(self)@.len(), kind@, JobStatus::Running, now),
            ),
            job_at(old(self)@, job_id@) is None,
            advances(old(self)@, final(self)@),
    {
        self.add(kind, JobStatus::Running, now)
    }

    /// Moves a pending job to running. Returns false, and changes nothing, for
    /// an unknown job or one that is not pending.
    pub fn start_job(&mut self, job_id: &str, now: u64) -> (accepted: bool)
        ensures
            registry_wf(final(self)@),
            accepted == (job_at(old(self)@, job_id@) matches Some(job) && may_start(job)),
            accepted ==> final(self)@ == with_job(
                old(self)@,
                job_id@,
                started(job_at(old(self)@, job_id@)->0, now),
            ),
            !accepted ==> final(self)@ == old(self)@,
            advances(old(self)@, final(self)@),
    {
        match self.find(job_id) {
            Some(i) => {
                if matches!(self.jobs[i].status, JobStatus::Pending) {
                    proof {
                        lemma_job_at_unique(self@, i as int);
                    }
                    let ghost before = self@;
                    let mut jobs = self.take();
                    jobs[i].status = JobStatus::Running;
                    jobs[i].updated_at = now;
                    proof {
                        assert(job_views(jobs@) =~= before.update(i as int, started(before[i as int], now)));
                    }
                    self.put(jobs);
                    true
                } else {
                    false
                }
            },
            None => false,
        }
    }

    /// Ends a job that has not ended yet: succeeded when `outcome` is `Ok`,
    /// failed when it is `Err`. The error message becomes the job's result
    /// unless a result was attached before, which then stays. Returns false,
    /// and changes nothing, for an unknown job or one that has ended.
    pub fn finish_job(&mut self, job_id: &str, outcome: Result<(), String>, now: u64) -> (accepted:
        bool)
        ensures
            registry_wf(final(self)@),
            accepted == (job_at(old(self)@, job_id@) matches Some(job) && may_end(job)),
            accepted ==> final(self)@ == with_job(
                old(self)@,
                job_id@,
                finished(
                    job_at(old(self)@, job_id@)->0,
                    match outcome {
                        Ok(_) => None,
                        Err(message) => Some(message@),
                    },
                    now,
                ),
            ),
            !accepted ==> final(self)@ == old(self)@,
            advances(old(self)@, final(self)@),
    {
        match self.find(job_id) {
            Some(i) => {
                if !self.jobs[i].status.is_terminal() {
                    proof {
                        lemma_job_at_unique(self@, i as int);
                    }
                    let ghost before = self@;
                    let mut jobs = self.take();
                    match outcome {
                        Ok(_) => {
                            jobs[i].status = JobStatus::Succeeded;
                            jobs[i].updated_at = now;
                            proof {
                                assert(job_views(jobs@) =~= before.update(
                                    i as int,
                                    finished(before[i as int], None, now),
                                ));
                            }
                        },
                        Err(message) => {
                            let ghost text = message@;
                            jobs[i].status = JobStatus::Failed;
                            if jobs[i].result.is_none() {
                                jobs[i].result = Some(message);
                            }
                            jobs[i].updated_at = now;
                            proof {
                                assert(job_views(jobs@) =~= before.update(
                                    i as int,
                                    finished(before[i as int], Some(text), now),
                                ));
                            }
                        },
                    }
                    self.put(jobs);
                    true
                } else {
                    false
                }
            },
            None => false,
        }
    }

    /// Cancels a job that has not ended yet. Returns false, and changes
    /// nothing, for an unknown job or one that has ended.
    pub fn cancel_job(&mut self, job_id: &str, now: u64) -> (accepted: bool)
        ensures
            registry_wf(final(self)@),
            accepted == (job_at(old(self)@, job_id@) matches Some(job) && may_end(job)),
            accepted ==> final(self)@ == with_job(
                old(self)@,
                job_id@,
                cancelled(job_at(old(self)@, job_id@)->0, now),
            ),
            !accepted ==> final(self)@ == old(self)@,
            advances(old(self)@, final(self)@),
    {
        match self.find(job_id) {
            Some(i) => {
                if !self.jobs[i].status.is_terminal() {
                    proof {
                        lemma_job_at_unique(self@, i as int);
                    }
                    let ghost before = self@;
                    let mut jobs = self.take();
                    jobs[i].status = JobStatus::Cancelled;
                    jobs[i].updated_at = now;
                    proof {
                        assert(job_views(jobs@) =~= before.update(i as int, cancelled(before[i as int], now)));
                    }
                    self.put(jobs);
                    true
                } else {
                    false
                }
            },
            None => false,
        }
    }

    /// Sets the percentage and the step of a job that has not ended. Returns
    /// false, and changes nothing, for an unknown job or one that has ended.
    pub fn update_progress(
        &mut self,
        job_id: &str,
        percentage_bp: u32,
        step: Option<String>,
        now: u64,
    ) -> (accepted: bool)
        ensures
            registry_wf(final(self)@),
            accepted == (job_at(old(self)@, job_id@) matches Some(job) && may_end(job)),
            accepted ==> final(self)@ == with_job(
                old(self)@,
                job_id@,
                with_percentage(job_at(old(self)@, job_id@)->0, percentage_bp, opt_text(step), now),
            ),
            !accepted ==> final(self)@ == old(self)@,
            advances(old(self)@, final(self)@),
    {
        match self.find(job_id) {
            Some(i) => {
                if !self.jobs[i].status.is_terminal() {
                    proof {
                        lemma_job_at_unique(self@, i as int);
                    }
                    let ghost before = self@;
                    let mut jobs = self.take();
                    let ghost text = opt_text(step);
                    jobs[i].progress.percentage_bp = percentage_bp;
                    jobs[i].progress.step = step;
                    jobs[i].updated_at = now;
                    proof {
                        assert(job_views(jobs@) =~= before.update(
                            i as int,
                            with_percentage(before[i as int], percentage_bp, text, now),
                        ));
                    }
                    self.put(jobs);
                    true
                } else {
                    false
                }
            },
            None => false,
        }
    }

    /// Sets the item counters, the percentage that follows from them, and the
    /// step of a job. Returns false, and changes nothing, for an unknown job,
    /// one that has ended, a `completed` above `total`, or a `completed` below
    /// the job's present one.
    pub fn update_progress_items(
        &mut self,
        job_id: &str,
        completed: u32,
        total: u32,
        step: Option<String>,
        now: u64,
    ) -> (accepted: bool)
        ensures
            registry_wf(final(self)@),
            accepted == (job_at(old(self)@, job_id@) matches Some(job) && may_count(
                job,
                completed,
                total,
            )),
            accepted ==> final(self)@ == with_job(
                old(self)@,
                job_id@,
                with_items(job_at(old(self)@, job_id@)->0, completed, total, opt_text(step), now),
            ),
            !accepted ==> final(self)@ == old(self)@,
            advances(old(self)@, final(self)@),
    {
        match self.find(job_id) {
            Some(i) => {
                if !self.jobs[i].status.is_terminal() && completed <= total
                    && self.jobs[i].progress.completed <= completed {
                    proof {
                        lemma_job_at_unique(self@, i as int);
                    }
                    let ghost before = self@;
                    let mut jobs = self.take();
                    let ghost text = opt_text(step);
                    let percentage = percentage_of_items(completed, total);
                    jobs[i].progress.completed = completed;
                    jobs[i].progress.total = total;
                    jobs[i].progress.percentage_bp = percentage;
                    jobs[i].progress.step = step;
                    jobs[i].updated_at = now;
                    proof {
                        assert(job_views(jobs@) =~= before.update(
                            i as int,
                            with_items(before[i as int], completed, total, text, now),
                        ));
                    }
                    self.put(jobs);
                    true
                } else {
                    false
                }
            },
            None => false,
        }
    }

    /// Declares the number of items a job expects. Returns false, and changes
    /// nothing, for an unknown job, one that has ended, or a total below what
    /// the job has already completed.
    pub fn set_total_items(&mut self, job_id: &str, total: u32, now: u64) -> (accepted: bool)
        ensures
            registry_wf(final(self)@),
            accepted == (job_at(old(self)@, job_id@) matches Some(job) && may_resize(job, total)),
            accepted ==> final(self)@ == with_job(
                old(self)@,
                job_id@,
                with_total(job_at(old(self)@, job_id@)->0, total, now),
            ),
            !accepted ==> final(self)@ == old(self)@,
            advances(old(self)@, final(self)@),
    {
        match self.find(job_id) {
            Some(i) => {
                if !self.jobs[i].status.is_terminal() && self.jobs[i].progress.completed <= total {
                    proof {
                        lemma_job_at_unique(self@, i as int);
                    }
                    let ghost before = self@;
                    let mut jobs = self.take();
                    jobs[i].progress.total = total;
                    jobs[i].updated_at = now;
                    proof {
                        assert(job_views(jobs@) =~= before.update(
                            i as int,
                            with_total(before[i as int], total, now),
                        ));
                    }
                    self.put(jobs);
                    true
                } else {
                    false
                }
            },
            None => false,
        }
    }

    /// Attaches a result to a job that has not ended and has none. Returns
    /// false, and changes nothing, otherwise.
    pub fn set_job_result(&mut self, job_id: &str, payload: String, now: u64) -> (accepted: bool)
        ensures
            registry_wf(final(self)@),
            accepted == (job_at(old(self)@, job_id@) matches Some(job) && may_attach(job)),
            accepted ==> final(self)@ == with_job(
                old(self)@,
                job_id@,
                with_result(job_at(old(self)@, job_id@)->0, payload@, now),
            ),
            !accepted ==> final(self)@ == old(self)@,
            advances(old(self)@, final(self)@),
    {
        match self.find(job_id) {
            Some(i) => {
                if !self.jobs[i].status.is_terminal() && self.jobs[i].result.is_none() {
                    proof {
                        lemma_job_at_unique(self@, i as int);
                    }
                    let ghost before = self@;
                    let mut jobs = self.take();
                    let ghost text = payload@;
                    jobs[i].result = Some(payload);
                    jobs[i].updated_at = now;
                    proof {
                        assert(job_views(jobs@) =~= before.update(
                            i as int,
                            with_result(before[i as int], text, now),
                        ));
                    }
                    self.put(jobs);
                    true
                } else {
                    false
                }
            },
            None => false,
        }
    }

    /// A snapshot of the job with identifier `job_id`.
    pub fn get_info(&self, job_id: &str) -> (info: Option<JobInfo>)
        ensures
            registry_wf(self@),
            match info {
                Some(job) => job_at(self@, job_id@) == Some(job@),
                None => job_at(self@, job_id@) is None,
            },
    {
        match self.find(job_id) {
            Some(i) => Some(self.jobs[i].snapshot()),
            None => None,
        }
    }

    /// Snapshots of all jobs, in the order of their creation.
    pub fn list_all(&self) -> (all: Vec<JobInfo>)
        ensures
            registry_wf(self@),
            job_views(all@) == self@,
    {
        proof {
            use_type_invariant(self);
        }
        let mut all: Vec<JobInfo> = Vec::new();
        let mut i: usize = 0;
        while i < self.jobs.len()
            invariant
                i <= self.jobs.len(),
                all@.len() == i,
                forall|j: int| 0 <= j < i ==> all@[j]@ == self.jobs@[j]@,
            decreases self.jobs.len() - i,
        {
            all.push(self.jobs[i].snapshot());
            i += 1;
        }
        assert(job_views(all@) =~= self@);
        all
    }
}

/// The mathematical content of a list of snapshots.
pub open spec fn job_views(jobs: Seq<JobInfo>) -> Seq<JobView> {
    jobs.map_values(|job: JobInfo| job@)
}

/// Hundredths of a percent that `completed` of `total` items stand for.
pub fn percentage_of_items(completed: u32, total: u32) -> (bp: u32)
    requires
        completed <= total,
    ensures
        bp == items_percentage(completed, total),
        bp <= 10_000,
{
    if total == 0 {
        0
    } else {
        let scaled: u64 = completed as u64 * 10_000;
        let bp: u64 = scaled / (total as u64);
        assert(bp <= 10_000) by (nonlinear_arith)
            requires
                bp == scaled / (total as u64),
                scaled == completed * 10_000,
                completed <= total,
                total > 0,
        ;
        bp as u32
    }
}

} // verus!
