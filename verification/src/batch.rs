//! The batched transaction pipeline: an ordered list of operands is cut into
//! consecutive chunks, each chunk is submitted as one transaction, and the
//! outcome of every submission is attributed to every operand of its chunk.
//! A failed chunk never stops the chunks after it.

use vstd::prelude::*;
use vstd::slice::slice_subrange;
use crate::jobs::opt_text;

verus! {

/// Accounts closed per transaction.
pub const MAX_CLOSES_PER_TX: usize = 5;

/// Plain transfers per transaction.
pub const MAX_TRANSFERS_PER_TX: usize = 10;

/// What a submission came to: the signature of the accepted transaction, or
/// the message of the error.
pub type Submission = Result<Seq<char>, Seq<char>>;

/// The mathematical content of a submission result.
pub open spec fn submission_view(result: Result<String, String>) -> Submission {
    match result {
        Ok(signature) => Ok(signature@),
        Err(message) => Err(message@),
    }
}

/// The number of chunks that `total` operands fill when each chunk holds at
/// most `chunk_size` of them: `total / chunk_size`, rounded up.
pub open spec fn chunk_count(total: nat, chunk_size: nat) -> nat
    recommends
        chunk_size > 0,
{
    ((total + chunk_size - 1) / (chunk_size as int)) as nat
}

/// The position of the first operand of chunk `k`.
pub open spec fn chunk_start(chunk_size: nat, k: nat) -> nat {
    k * chunk_size
}

/// The position after the last operand of chunk `k`.
pub open spec fn chunk_end(total: nat, chunk_size: nat, k: nat) -> nat {
    if (k + 1) * chunk_size < total {
        (k + 1) * chunk_size
    } else {
        total
    }
}

/// The number of operands that the first `k` chunks hold together.
pub open spec fn covered(total: nat, chunk_size: nat, k: nat) -> nat {
    if k * chunk_size < total {
        k * chunk_size
    } else {
        total
    }
}

/// Chunk `k` exists exactly when it has a first operand.
pub proof fn lemma_chunk_exists(total: nat, chunk_size: nat, k: nat)
    requires
        chunk_size > 0,
    ensures
        k < chunk_count(total, chunk_size) <==> k * chunk_size < total,
{
    let c = chunk_size as int;
    let q = (total + c - 1) / c;
    assert(q * c <= total + c - 1 < q * c + c) by (nonlinear_arith)
        requires
            q == (total + c - 1) / c,
            c > 0,
    ;
    if (k as int) < q {
        assert(k * c <= (q - 1) * c) by (nonlinear_arith)
            requires
                k <= q - 1,
                c > 0,
        ;
        assert((q - 1) * c == q * c - c) by (nonlinear_arith);
    } else {
        assert(k * c >= q * c) by (nonlinear_arith)
            requires
                k >= q,
                c > 0,
        ;
    }
}

/// The chunks follow one another without gap or overlap, none is empty, none
/// holds more than `chunk_size` operands, and the last one ends with the list.
pub proof fn lemma_chunks_consecutive(total: nat, chunk_size: nat, k: nat)
    requires
        chunk_size > 0,
        k < chunk_count(total, chunk_size),
    ensures
        chunk_start(chunk_size, k) == covered(total, chunk_size, k),
        chunk_end(total, chunk_size, k) == covered(total, chunk_size, k + 1),
        chunk_start(chunk_size, k) < chunk_end(total, chunk_size, k) <= total,
        chunk_end(total, chunk_size, k) - chunk_start(chunk_size, k) <= chunk_size,
        k + 1 < chunk_count(total, chunk_size) ==> chunk_end(total, chunk_size, k) == chunk_start(
            chunk_size,
            k + 1,
        ),
        k + 1 == chunk_count(total, chunk_size) ==> chunk_end(total, chunk_size, k) == total,
        chunk_end(total, chunk_size, k) == if total - chunk_start(chunk_size, k) > chunk_size {
            chunk_start(chunk_size, k) + chunk_size
        } else {
            total
        },
{
    lemma_chunk_exists(total, chunk_size, k);
    lemma_chunk_exists(total, chunk_size, k + 1);
    assert((k + 1) * chunk_size == k * chunk_size + chunk_size) by (nonlinear_arith);
}

/// Every operand lies in exactly one chunk: the one numbered by its position
/// divided by the chunk size. Nothing is left out and nothing is sent twice.
pub proof fn lemma_operand_in_one_chunk(total: nat, chunk_size: nat, i: nat, k: nat)
    requires
        chunk_size > 0,
        i < total,
    ensures
        i / chunk_size < chunk_count(total, chunk_size),
        (chunk_start(chunk_size, k) <= i < chunk_end(total, chunk_size, k)) <==> k == i
            / chunk_size,
{
    let c = chunk_size as int;
    let q = (i as int) / c;
    assert(q * c <= i < q * c + c) by (nonlinear_arith)
        requires
            q == (i as int) / c,
            c > 0,
    ;
    assert(q >= 0) by (nonlinear_arith)
        requires
            q * c + c > 0,
            c > 0,
    ;
    lemma_chunk_exists(total, chunk_size, q as nat);
    assert((q + 1) * c == q * c + c) by (nonlinear_arith);
    assert((k + 1) * c == k * c + c) by (nonlinear_arith);
    if (k as int) < q {
        assert((k + 1) * c <= q * c) by (nonlinear_arith)
            requires
                k + 1 <= q,
                c > 0,
        ;
    } else if (k as int) > q {
        assert(k * c >= (q + 1) * c) by (nonlinear_arith)
            requires
                k >= q + 1,
                c > 0,
        ;
    }
}

/// The number of chunks of a list, at most `chunk_size` operands each.
pub fn count_chunks(total: usize, chunk_size: usize) -> (count: usize)
    requires
        chunk_size > 0,
    ensures
        count == chunk_count(total as nat, chunk_size as nat),
{
    let full = total / chunk_size;
    let rest = total % chunk_size;
    proof {
        let c = chunk_size as int;
        let t = total as int;
        assert(t == full * c + rest) by (nonlinear_arith)
            requires
                full == t / c,
                rest == t % c,
                c > 0,
        ;
        if rest == 0 {
            assert((full * c + c - 1) / c == full) by (nonlinear_arith)
                requires
                    c > 0,
            ;
        } else {
            assert((full * c + rest + c - 1) / c == full + 1) by (nonlinear_arith)
                requires
                    c > 0,
                    0 < rest < c,
            ;
            assert(full * c < t);
            assert(full < t) by (nonlinear_arith)
                requires
                    full * c < t,
                    full >= 0,
                    c > 0,
            ;
        }
    }
    if rest == 0 {
        full
    } else {
        full + 1
    }
}

/// One unit of work handed to the submitter: chunk number `index`, covering
/// the operands at positions `start` up to, not including, `end`.
#[derive(Clone, Copy, Debug, PartialEq, Eq, Structural)]
pub struct BatchOperation {
    pub index: usize,
    pub start: usize,
    pub end: usize,
}

/// How far a run has come.
#[derive(Clone, Copy, Debug, PartialEq, Eq, Structural)]
pub struct BatchProgress {
    pub completed: usize,
    pub total: usize,
}

/// The outcome of one chunk.
#[derive(Debug)]
pub struct ChunkOutcome {
    pub start: usize,
    pub end: usize,
    pub result: Result<String, String>,
}

/// The outcome of one operand. `operand_ref` is the operand's position in the
/// list that was handed in.
#[derive(Debug)]
pub struct OperationOutcome {
    pub operand_ref: usize,
    pub success: bool,
    pub skipped: bool,
    pub signature: Option<String>,
    pub error: Option<String>,
}

/// What a run came to: the chunks in order, the operands in order, and how
/// many operands succeeded and failed.
#[derive(Debug)]
pub struct BatchRunResult {
    pub chunks: Vec<ChunkOutcome>,
    pub outcomes: Vec<OperationOutcome>,
    pub successful: usize,
    pub failed: usize,
}

/// The mathematical content of a [`ChunkOutcome`].
pub struct ChunkView {
    pub start: nat,
    pub end: nat,
    pub result: Submission,
}

/// The mathematical content of an [`OperationOutcome`].
pub struct OutcomeView {
    pub operand_ref: nat,
    pub success: bool,
    pub skipped: bool,
    pub signature: Option<Seq<char>>,
    pub error: Option<Seq<char>>,
}

/// The mathematical content of a [`BatchRunResult`].
pub struct BatchResultView {
    pub chunks: Seq<ChunkView>,
    pub outcomes: Seq<OutcomeView>,
    pub successful: nat,
    pub failed: nat,
}

impl View for ChunkOutcome {
    type V = ChunkView;

    open spec fn view(&self) -> ChunkView {
        ChunkView {
            start: self.start as nat,
            end: self.end as nat,
            result: submission_view(self.result),
        }
    }
}

impl View for OperationOutcome {
    type V = OutcomeView;

    open spec fn view(&self) -> OutcomeView {
        OutcomeView {
            operand_ref: self.operand_ref as nat,
            success: self.success,
            skipped: self.skipped,
            signature: opt_text(self.signature),
            error: opt_text(self.error),
        }
    }
}

/// The mathematical content of a list of chunk outcomes.
pub open spec fn chunk_views(chunks: Seq<ChunkOutcome>) -> Seq<ChunkView> {
    chunks.map_values(|chunk: ChunkOutcome| chunk@)
}

/// The mathematical content of a list of operand outcomes.
pub open spec fn outcome_views(outcomes: Seq<OperationOutcome>) -> Seq<OutcomeView> {
    outcomes.map_values(|outcome: OperationOutcome| outcome@)
}

impl View for BatchRunResult {
    type V = BatchResultView;

    open spec fn view(&self) -> BatchResultView {
        BatchResultView {
            chunks: chunk_views(self.chunks@),
            outcomes: outcome_views(self.outcomes@),
            successful: self.successful as nat,
            failed: self.failed as nat,
        }
    }
}

/// The outcome of an operand whose chunk came to `result`.
pub open spec fn attributed(operand: nat, result: Submission) -> OutcomeView {
    match result {
        Ok(signature) => OutcomeView {
            operand_ref: operand,
            success: true,
            skipped: false,
            signature: Some(signature),
            error: None,
        },
        Err(message) => OutcomeView {
            operand_ref: operand,
            success: false,
            skipped: false,
            signature: None,
            error: Some(message),
        },
    }
}

/// The outcome of chunk `k`, given the results of the submissions in order.
pub open spec fn chunk_outcome(
    total: nat,
    chunk_size: nat,
    results: Seq<Submission>,
    k: int,
) -> ChunkView {
    ChunkView {
        start: chunk_start(chunk_size, k as nat),
        end: chunk_end(total, chunk_size, k as nat),
        result: results[k],
    }
}

/// The number of operands in the first `k` chunks whose submission succeeded.
pub open spec fn succeeded_operands(
    total: nat,
    chunk_size: nat,
    results: Seq<Submission>,
    k: nat,
) -> nat
    decreases k,
{
    if k == 0 {
        0
    } else {
        let before = succeeded_operands(total, chunk_size, results, (k - 1) as nat);
        if results[k - 1] is Ok {
            (before + chunk_end(total, chunk_size, (k - 1) as nat) - chunk_start(
                chunk_size,
                (k - 1) as nat,
            )) as nat
        } else {
            before
        }
    }
}

/// The number of operands in the first `k` chunks whose submission failed.
pub open spec fn failed_operands(
    total: nat,
    chunk_size: nat,
    results: Seq<Submission>,
    k: nat,
) -> nat
    decreases k,
{
    if k == 0 {
        0
    } else {
        let before = failed_operands(total, chunk_size, results, (k - 1) as nat);
        if results[k - 1] is Err {
            (before + chunk_end(total, chunk_size, (k - 1) as nat) - chunk_start(
                chunk_size,
                (k - 1) as nat,
            )) as nat
        } else {
            before
        }
    }
}

/// What a run over `total` operands comes to when its submissions, one per
/// chunk and in order, return `results`: every chunk carries its result, every
/// operand carries the result of the chunk numbered by its position divided by
/// the chunk size, and the counters count the operands of each kind.
pub open spec fn batch_result(total: nat, chunk_size: nat, results: Seq<Submission>) -> BatchResultView {
    BatchResultView {
        chunks: Seq::new(results.len(), |k: int| chunk_outcome(total, chunk_size, results, k)),
        outcomes: Seq::new(
            total,
            |i: int| attributed(i as nat, results[i / (chunk_size as int)]),
        ),
        successful: succeeded_operands(total, chunk_size, results, results.len()),
        failed: failed_operands(total, chunk_size, results, results.len()),
    }
}

/// After `k` chunks, the operands that succeeded and those that failed are
/// together the operands that the chunks hold; after the last chunk they are
/// all operands.
pub proof fn lemma_counts_add_up(total: nat, chunk_size: nat, results: Seq<Submission>, k: nat)
    requires
        chunk_size > 0,
        k <= chunk_count(total, chunk_size),
        k <= results.len(),
    ensures
        succeeded_operands(total, chunk_size, results, k) + failed_operands(
            total,
            chunk_size,
            results,
            k,
        ) == covered(total, chunk_size, k),
        k == chunk_count(total, chunk_size) ==> covered(total, chunk_size, k) == total,
    decreases k,
{
    lemma_chunk_exists(total, chunk_size, k);
    if k > 0 {
        let j = (k - 1) as nat;
        lemma_counts_add_up(total, chunk_size, results, j);
        lemma_chunks_consecutive(total, chunk_size, j);
        let width = chunk_end(total, chunk_size, j) - chunk_start(chunk_size, j);
        assert(covered(total, chunk_size, k) == covered(total, chunk_size, j) + width);
        let succeeded = succeeded_operands(total, chunk_size, results, j);
        let failed = failed_operands(total, chunk_size, results, j);
        assert(k - 1 == j);
        if results[j as int] is Ok {
            assert(succeeded_operands(total, chunk_size, results, k) == succeeded + width);
            assert(failed_operands(total, chunk_size, results, k) == failed);
        } else {
            assert(succeeded_operands(total, chunk_size, results, k) == succeeded);
            assert(failed_operands(total, chunk_size, results, k) == failed + width);
        }
    } else {
        assert(k * chunk_size == 0) by (nonlinear_arith)
            requires
                k == 0,
        ;
    }
}

/// A run in progress: the operands are counted, not held, and the chunks
/// submitted so far are remembered with their results.
pub struct BatchRun {
    total: usize,
    chunk_size: usize,
    chunks: Vec<ChunkOutcome>,
}

/// The mathematical content of a [`BatchRun`].
pub struct BatchRunView {
    pub total: nat,
    pub chunk_size: nat,
    pub results: Seq<Submission>,
}

impl View for BatchRun {
    type V = BatchRunView;

    closed spec fn view(&self) -> BatchRunView {
        BatchRunView {
            total: self.total as nat,
            chunk_size: self.chunk_size as nat,
            results: results_of(self.chunks@),
        }
    }
}

/// The mathematical content of a list of submission results.
pub open spec fn submission_views(results: Seq<Result<String, String>>) -> Seq<Submission> {
    results.map_values(|result: Result<String, String>| submission_view(result))
}

/// The submission results that a list of chunk outcomes holds.
pub open spec fn held_results(chunks: Seq<ChunkOutcome>) -> Seq<Result<String, String>> {
    chunks.map_values(|chunk: ChunkOutcome| chunk.result)
}

/// What every run satisfies: the chunk size is positive and no more results
/// are recorded than there are chunks.
pub open spec fn run_wf(run: BatchRunView) -> bool {
    &&& run.chunk_size > 0
    &&& run.results.len() <= chunk_count(run.total, run.chunk_size)
}

/// Whether every chunk of the run has its result.
pub open spec fn run_done(run: BatchRunView) -> bool {
    run.results.len() == chunk_count(run.total, run.chunk_size)
}

/// The results that a list of chunk outcomes carries.
pub open spec fn results_of(chunks: Seq<ChunkOutcome>) -> Seq<Submission> {
    chunks.map_values(|chunk: ChunkOutcome| submission_view(chunk.result))
}

/// Whether `chunks` are the first chunks of a run over `total` operands.
spec fn chunks_fit(total: nat, chunk_size: nat, chunks: Seq<ChunkOutcome>) -> bool {
    &&& chunk_size > 0
    &&& chunks.len() <= chunk_count(total, chunk_size)
    &&& forall|k: int|
        0 <= k < chunks.len() ==> (#[trigger] chunks[k]).start == chunk_start(chunk_size, k as nat)
            && chunks[k].end == chunk_end(total, chunk_size, k as nat)
}

impl BatchRun {
    #[verifier::type_invariant]
    spec fn well_formed(self) -> bool {
        chunks_fit(self.total as nat, self.chunk_size as nat, self.chunks@)
    }

    /// The results recorded so far, as they were handed in.
    pub closed spec fn recorded(&self) -> Seq<Result<String, String>> {
        held_results(self.chunks@)
    }

    /// A run over `total` operands in chunks of at most `chunk_size`, with
    /// nothing submitted yet.
    pub fn new(total: usize, chunk_size: usize) -> (run: BatchRun)
        requires
            chunk_size > 0,
        ensures
            run@ == (BatchRunView {
                total: total as nat,
                chunk_size: chunk_size as nat,
                results: Seq::empty(),
            }),
            run.recorded() == Seq::<Result<String, String>>::empty(),
            run_wf(run@),
    {
        let run = BatchRun { total, chunk_size, chunks: Vec::new() };
        assert(run@.results =~= Seq::<Submission>::empty());
        assert(run.recorded() =~= Seq::<Result<String, String>>::empty());
        run
    }

    /// The number of operands whose chunk has been submitted.
    pub fn completed(&self) -> (n: usize)
        ensures
            run_wf(self@),
            n == covered(self@.total, self@.chunk_size, self@.results.len()),
    {
        proof {
            use_type_invariant(self);
        }
        let k = self.chunks.len();
        assert(self@.results.len() == k);
        if k == 0 {
            0
        } else {
            proof {
                lemma_chunks_consecutive(self@.total, self@.chunk_size, (k - 1) as nat);
            }
            self.chunks[k - 1].end
        }
    }

    /// How far the run has come.
    pub fn progress(&self) -> (p: BatchProgress)
        ensures
            run_wf(self@),
            p.completed == covered(self@.total, self@.chunk_size, self@.results.len()),
            p.total == self@.total,
    {
        BatchProgress { completed: self.completed(), total: self.total }
    }

    /// Whether every chunk has been submitted.
    pub fn is_done(&self) -> (done: bool)
        ensures
            run_wf(self@),
            done == run_done(self@),
    {
        let completed = self.completed();
        proof {
            use_type_invariant(self);
            lemma_chunk_exists(self@.total, self@.chunk_size, self@.results.len());
        }
        completed == self.total
    }

    /// The chunk to submit next, or `None` when every chunk has been submitted.
    pub fn next_operation(&self) -> (next: Option<BatchOperation>)
        ensures
            run_wf(self@),
            run_done(self@) <==> next is None,
            next matches Some(op) ==> {
                &&& op.index == self@.results.len()
                &&& op.start == chunk_start(self@.chunk_size, self@.results.len())
                &&& op.end == chunk_end(self@.total, self@.chunk_size, self@.results.len())
                &&& op.start < op.end <= self@.total
            },
    {
        let start = self.completed();
        proof {
            use_type_invariant(self);
            lemma_chunk_exists(self@.total, self@.chunk_size, self@.results.len());
        }
        if start == self.total {
            None
        } else {
            proof {
                lemma_chunks_consecutive(self@.total, self@.chunk_size, self@.results.len());
            }
            let end = if self.total - start > self.chunk_size {
                start + self.chunk_size
            } else {
                self.total
            };
            Some(BatchOperation { index: self.chunks.len(), start, end })
        }
    }

    /// Records the result of the chunk that [`BatchRun::next_operation`]
    /// named and returns the progress to report. When every chunk already has
    /// its result, nothing changes and `None` is returned.
    pub fn record(&mut self, result: Result<String, String>) -> (progress: Option<BatchProgress>)
        ensures
            run_wf(final(self)@),
            final(self)@.results == submission_views(final(self).recorded()),
            run_done(old(self)@) ==> {
                &&& progress is None
                &&& final(self)@ == old(self)@
                &&& final(self).recorded() == old(self).recorded()
            },
            !run_done(old(self)@) ==> {
                &&& final(self)@ == (BatchRunView {
                    results: old(self)@.results.push(submission_view(result)),
                    ..old(self)@
                })
                &&& final(self).recorded() == old(self).recorded().push(result)
                &&& progress == Some(
                    BatchProgress {
                        completed: covered(
                            old(self)@.total,
                            old(self)@.chunk_size,
                            old(self)@.results.len() + 1,
                        ) as usize,
                        total: old(self)@.total as usize,
                    },
                )
            },
    {
        proof {
            use_type_invariant(&*self);
        }
        match self.next_operation() {
            None => {
                assert(self@.results =~= submission_views(self.recorded()));
                None
            },
            Some(op) => {
                let ghost before = self@;
                let ghost held = self.recorded();
                let ghost recorded = submission_view(result);
                proof {
                    lemma_chunks_consecutive(before.total, before.chunk_size, before.results.len());
                    lemma_chunk_exists(before.total, before.chunk_size, before.results.len());
                }
                let mut taken = BatchRun { total: 0, chunk_size: 1, chunks: Vec::new() };
                std::mem::swap(self, &mut taken);
                let BatchRun { total, chunk_size, mut chunks } = taken;
                chunks.push(ChunkOutcome { start: op.start, end: op.end, result });
                proof {
                    assert(results_of(chunks@) =~= before.results.push(recorded));
                    assert(held_results(chunks@) =~= held.push(result));
                    assert(results_of(chunks@) =~= submission_views(held_results(chunks@)));
                }
                *self = BatchRun { total, chunk_size, chunks };
                Some(BatchProgress { completed: op.end, total })
            },
        }
    }

    /// Ends the run and reports it, once every chunk has its result. A run
    /// that is not done is handed back as it is.
    pub fn finish(self) -> (ended: Result<BatchRunResult, BatchRun>)
        ensures
            ended is Ok <==> run_done(self@),
            ended matches Ok(report) ==> {
                &&& report@ == batch_result(self@.total, self@.chunk_size, self@.results)
                &&& held_results(report.chunks@) == self.recorded()
                &&& report.successful + report.failed == self@.total
            },
            ended matches Err(run) ==> run@ == self@ && run.recorded() == self.recorded(),
    {
        if self.is_done() {
            Ok(self.report())
        } else {
            Err(self)
        }
    }

    /// The report of a run that is done.
    fn report(self) -> (report: BatchRunResult)
        requires
            run_done(self@),
        ensures
            report@ == batch_result(self@.total, self@.chunk_size, self@.results),
            held_results(report.chunks@) == self.recorded(),
            report.successful + report.failed == self@.total,
    {
        proof {
            use_type_invariant(&self);
        }
        let ghost run = self@;
        let BatchRun { total, chunk_size, chunks } = self;
        let mut outcomes: Vec<OperationOutcome> = Vec::new();
        let mut successful: usize = 0;
        let mut failed: usize = 0;
        let mut k: usize = 0;
        while k < chunks.len()
            invariant
                k <= chunks.len(),
                chunk_size > 0,
                run.total == total,
                run.chunk_size == chunk_size,
                run.results.len() == chunks@.len(),
                run.results.len() == chunk_count(run.total, run.chunk_size),
                run.results == results_of(chunks@),
                chunks_fit(run.total, run.chunk_size, chunks@),
                outcomes@.len() == covered(run.total, run.chunk_size, k as nat),
                forall|i: int|
                    0 <= i < outcomes@.len() ==> (#[trigger] outcomes@[i])@ == attributed(
                        i as nat,
                        run.results[i / (chunk_size as int)],
                    ),
                successful == succeeded_operands(run.total, run.chunk_size, run.results, k as nat),
                failed == failed_operands(run.total, run.chunk_size, run.results, k as nat),
            decreases chunks.len() - k,
        {
            proof {
                lemma_chunks_consecutive(run.total, run.chunk_size, k as nat);
                lemma_counts_add_up(run.total, run.chunk_size, run.results, k as nat);
                lemma_counts_add_up(run.total, run.chunk_size, run.results, (k + 1) as nat);
            }
            let start = chunks[k].start;
            let end = chunks[k].end;
            let mut i: usize = start;
            while i < end
                invariant
                    start <= i <= end <= total,
                    k < chunks.len(),
                    chunk_size > 0,
                    run.total == total,
                    run.chunk_size == chunk_size,
                    start == chunk_start(run.chunk_size, k as nat),
                    end == chunk_end(run.total, run.chunk_size, k as nat),
                    run.results == results_of(chunks@),
                    run.results.len() == chunk_count(run.total, run.chunk_size),
                    outcomes@.len() == i,
                    forall|j: int|
                        0 <= j < outcomes@.len() ==> (#[trigger] outcomes@[j])@ == attributed(
                            j as nat,
                            run.results[j / (chunk_size as int)],
                        ),
                decreases end - i,
            {
                proof {
                    lemma_operand_in_one_chunk(run.total, run.chunk_size, i as nat, k as nat);
                }
                let outcome = match &chunks[k].result {
                    Ok(signature) => OperationOutcome {
                        operand_ref: i,
                        success: true,
                        skipped: false,
                        signature: Some(signature.clone()),
                        error: None,
                    },
                    Err(message) => OperationOutcome {
                        operand_ref: i,
                        success: false,
                        skipped: false,
                        signature: None,
                        error: Some(message.clone()),
                    },
                };
                outcomes.push(outcome);
                i += 1;
            }
            match &chunks[k].result {
                Ok(_) => {
                    successful = successful + (end - start);
                },
                Err(_) => {
                    failed = failed + (end - start);
                },
            }
            k += 1;
        }
        proof {
            lemma_counts_add_up(run.total, run.chunk_size, run.results, run.results.len());
        }
        let report = BatchRunResult { chunks, outcomes, successful, failed };
        proof {
            let expected = batch_result(run.total, run.chunk_size, run.results);
            assert(report@.chunks =~= expected.chunks);
            assert(report@.outcomes =~= expected.outcomes);
        }
        report
    }
}

/// Whether `result` is what chunk `k` of `operands` came to: `build_tx` made a
/// transaction of exactly the operands of that chunk, and `submit` returned
/// `result` for that transaction.
pub open spec fn chunk_submitted<T, Tx, B: Fn(&[T]) -> Tx, S: Fn(Tx) -> Result<String, String>>(
    operands: Seq<T>,
    chunk_size: nat,
    build_tx: B,
    submit: S,
    k: int,
    result: Result<String, String>,
) -> bool {
    exists|chunk: &[T], tx: Tx|
        {
            &&& chunk@ == operands.subrange(
                chunk_start(chunk_size, k as nat) as int,
                chunk_end(operands.len(), chunk_size, k as nat) as int,
            )
            &&& #[trigger] call_ensures(build_tx, (chunk,), tx)
            &&& #[trigger] call_ensures(submit, (tx,), result)
        }
}

/// Whether the progress after chunk `k` was handed to `report`: the number of
/// operands that the chunks up to and with `k` hold, out of all.
pub open spec fn progress_reported<P: Fn(BatchProgress) -> ()>(
    report: P,
    total: nat,
    chunk_size: nat,
    k: int,
) -> bool {
    call_ensures(
        report,
        (BatchProgress {
            completed: covered(total, chunk_size, (k + 1) as nat) as usize,
            total: total as usize,
        },),
        (),
    )
}

/// The error that stands for a chunk that was never submitted because the
/// run was told to stop.
pub open spec fn cancelled_text() -> Seq<char> {
    "cancelled"@
}

/// Whether `results` are the results of a run that was cut short before
/// chunk `cut`: every chunk before it was built, submitted and reported, and
/// was allowed to go on; every chunk from `cut` on carries the cancellation
/// and was never submitted; and where the run was cut short at all, `stop`
/// had said so.
pub open spec fn run_cut_at<
    T,
    Tx,
    B: Fn(&[T]) -> Tx,
    S: Fn(Tx) -> Result<String, String>,
    P: Fn(BatchProgress) -> (),
    C: Fn() -> bool,
>(
    operands: Seq<T>,
    chunk_size: nat,
    build_tx: B,
    submit: S,
    report: P,
    stop: C,
    results: Seq<Result<String, String>>,
    cut: int,
) -> bool {
    &&& 0 <= cut <= results.len()
    &&& forall|k: int|
        0 <= k < cut ==> {
            &&& chunk_submitted(operands, chunk_size, build_tx, submit, k, #[trigger] results[k])
            &&& progress_reported(report, operands.len(), chunk_size, k)
            &&& call_ensures(stop, (), false)
        }
    &&& forall|k: int|
        cut <= k < results.len() ==> submission_view(#[trigger] results[k]) == Err::<
            Seq<char>,
            Seq<char>,
        >(cancelled_text())
    &&& cut < results.len() ==> call_ensures(stop, (), true)
}

/// Runs the pipeline over `operands` under a stop signal. Before each chunk
/// `stop` is asked; as long as it says no, the chunk is built, submitted,
/// whatever the chunks before it came to, and its progress is reported. Once
/// it says yes, nothing more is submitted: every chunk that is left is
/// recorded as failed with the cancellation as its error, so that every
/// operand still has its outcome.
pub fn run_batches_until<T, Tx, B, S, P, C>(
    operands: &[T],
    chunk_size: usize,
    build_tx: B,
    submit: S,
    report: P,
    stop: C,
) -> (result: BatchRunResult) where
    B: Fn(&[T]) -> Tx,
    S: Fn(Tx) -> Result<String, String>,
    P: Fn(BatchProgress) -> (),
    C: Fn() -> bool,

    requires
        chunk_size > 0,
        forall|chunk: &[T]| call_requires(build_tx, (chunk,)),
        forall|tx: Tx| call_requires(submit, (tx,)),
        forall|progress: BatchProgress| call_requires(report, (progress,)),
        call_requires(stop, ()),
    ensures
        result.chunks@.len() == chunk_count(operands@.len(), chunk_size as nat),
        exists|cut: int|
            run_cut_at(
                operands@,
                chunk_size as nat,
                build_tx,
                submit,
                report,
                stop,
                held_results(result.chunks@),
                cut,
            ),
        result@ == batch_result(
            operands@.len(),
            chunk_size as nat,
            submission_views(held_results(result.chunks@)),
        ),
        result.successful + result.failed == operands@.len(),
{
    let mut run = BatchRun::new(operands.len(), chunk_size);
    let mut stopped = false;
    let ghost mut cut: int = 0;
    loop
        invariant
            chunk_size > 0,
            forall|chunk: &[T]| call_requires(build_tx, (chunk,)),
            forall|tx: Tx| call_requires(submit, (tx,)),
            forall|progress: BatchProgress| call_requires(report, (progress,)),
            call_requires(stop, ()),
            run@.total == operands@.len(),
            run@.chunk_size == chunk_size,
            run_wf(run@),
            run@.results == submission_views(run.recorded()),
            run_cut_at(
                operands@,
                chunk_size as nat,
                build_tx,
                submit,
                report,
                stop,
                run.recorded(),
                cut,
            ),
            !stopped ==> cut == run.recorded().len(),
            stopped ==> call_ensures(stop, (), true),
        decreases chunk_count(run@.total, run@.chunk_size) - run@.results.len(),
    {
        match run.next_operation() {
            None => {
                let ghost held = run.recorded();
                let result = run.report();
                proof {
                    assert(held_results(result.chunks@) == held);
                }
                return result;
            },
            Some(op) => {
                let ghost held = run.recorded();
                if !stopped {
                    stopped = stop();
                }
                if stopped {
                    let progress = run.record(Err(String::from_str("cancelled")));
                    proof {
                        assert forall|k: int| 0 <= k < cut implies {
                            &&& chunk_submitted(
                                operands@,
                                chunk_size as nat,
                                build_tx,
                                submit,
                                k,
                                #[trigger] run.recorded()[k],
                            )
                            &&& progress_reported(report, operands@.len(), chunk_size as nat, k)
                            &&& call_ensures(stop, (), false)
                        } by {
                            assert(run.recorded()[k] == held[k]);
                        }
                        assert forall|k: int| cut <= k < run.recorded().len() implies submission_view(
                            #[trigger] run.recorded()[k],
                        ) == Err::<Seq<char>, Seq<char>>(cancelled_text()) by {
                            if k < held.len() {
                                assert(run.recorded()[k] == held[k]);
                            }
                        }
                    }
                } else {
                    let chunk = slice_subrange(operands, op.start, op.end);
                    let tx = build_tx(chunk);
                    let ghost built = tx;
                    let result = submit(tx);
                    proof {
                        assert(call_ensures(build_tx, (chunk,), built));
                        assert(call_ensures(submit, (built,), result));
                        assert(chunk_submitted(
                            operands@,
                            chunk_size as nat,
                            build_tx,
                            submit,
                            held.len() as int,
                            result,
                        ));
                    }
                    let progress = run.record(result);
                    match progress {
                        Some(p) => {
                            report(p);
                            assert(progress_reported(
                                report,
                                operands@.len(),
                                chunk_size as nat,
                                held.len() as int,
                            ));
                        },
                        None => {},
                    }
                    proof {
                        assert forall|k: int| 0 <= k < cut + 1 implies {
                            &&& chunk_submitted(
                                operands@,
                                chunk_size as nat,
                                build_tx,
                                submit,
                                k,
                                #[trigger] run.recorded()[k],
                            )
                            &&& progress_reported(report, operands@.len(), chunk_size as nat, k)
                            &&& call_ensures(stop, (), false)
                        } by {
                            if k < held.len() {
                                assert(run.recorded()[k] == held[k]);
                            }
                        }
                        cut = cut + 1;
                    }
                }
            },
        }
    }
}

/// Runs the pipeline over `operands`: for each chunk of at most `chunk_size`
/// operands, in order, one transaction is built and submitted, whatever the
/// chunks before it came to, and the progress is reported after it.
///
/// The report holds one outcome per chunk and one per operand; the operands
/// that succeeded and those that failed are together all operands.
pub fn run_batches<T, Tx, B, S, P>(
    operands: &[T],
    chunk_size: usize,
    build_tx: B,
    submit: S,
    report: P,
) -> (result: BatchRunResult) where
    B: Fn(&[T]) -> Tx,
    S: Fn(Tx) -> Result<String, String>,
    P: Fn(BatchProgress) -> (),

    requires
        chunk_size > 0,
        forall|chunk: &[T]| call_requires(build_tx, (chunk,)),
        forall|tx: Tx| call_requires(submit, (tx,)),
        forall|progress: BatchProgress| call_requires(report, (progress,)),
    ensures
        result.chunks@.len() == chunk_count(operands@.len(), chunk_size as nat),
        forall|k: int|
            0 <= k < result.chunks@.len() ==> {
                &&& chunk_submitted(
                    operands@,
                    chunk_size as nat,
                    build_tx,
                    submit,
                    k,
                    (#[trigger] result.chunks@[k]).result,
                )
                &&& progress_reported(report, operands@.len(), chunk_size as nat, k)
            },
        result@ == batch_result(
            operands@.len(),
            chunk_size as nat,
            submission_views(held_results(result.chunks@)),
        ),
        result.successful + result.failed == operands@.len(),
{
    let never = || -> (stop: bool)
        ensures
            !stop,
        { false };
    let result = run_batches_until(operands, chunk_size, build_tx, submit, report, never);
    proof {
        let cut = choose|cut: int|
            run_cut_at(
                operands@,
                chunk_size as nat,
                build_tx,
                submit,
                report,
                never,
                held_results(result.chunks@),
                cut,
            );
        assert(!call_ensures(never, (), true));
        assert(cut == result.chunks@.len());
        assert forall|k: int| 0 <= k < result.chunks@.len() implies {
            &&& chunk_submitted(
                operands@,
                chunk_size as nat,
                build_tx,
                submit,
                k,
                (#[trigger] result.chunks@[k]).result,
            )
            &&& progress_reported(report, operands@.len(), chunk_size as nat, k)
        } by {
            assert(held_results(result.chunks@)[k] == result.chunks@[k].result);
        }
    }
    result
}

} // verus!
