//! What a run is called once it is over, and the summary line that goes back
//! to the caller.

use vstd::prelude::*;
use vstd::string::*;
use crate::batch::BatchRunResult;
use crate::eligibility::{required_balance, FEE_BUFFER};
use crate::text::{decimal_digits, join, joined, push_decimal, texts_of};

verus! {

/// How a run ended, judged by its operands.
#[derive(Clone, Copy, Debug, PartialEq, Eq, Structural)]
pub enum RunVerdict {
    /// No operand was attempted.
    Empty,
    /// Every attempted operand succeeded.
    Complete,
    /// Some operands succeeded and some failed.
    PartialFailure,
    /// Every attempted operand failed.
    Failed,
}

/// The verdict on a run with these counts.
pub open spec fn verdict_of(successful: nat, failed: nat) -> RunVerdict {
    if successful == 0 && failed == 0 {
        RunVerdict::Empty
    } else if failed == 0 {
        RunVerdict::Complete
    } else if successful == 0 {
        RunVerdict::Failed
    } else {
        RunVerdict::PartialFailure
    }
}

/// Judges a run by its counts of succeeded and failed operands.
pub fn run_verdict(successful: usize, failed: usize) -> (verdict: RunVerdict)
    ensures
        verdict == verdict_of(successful as nat, failed as nat),
{
    if successful == 0 && failed == 0 {
        RunVerdict::Empty
    } else if failed == 0 {
        RunVerdict::Complete
    } else if successful == 0 {
        RunVerdict::Failed
    } else {
        RunVerdict::PartialFailure
    }
}

/// Whether a job whose run ended with `verdict` counts as succeeded: it does
/// unless every operand failed. A run in which some operands completed is
/// never reported as a failed job.
pub open spec fn job_succeeds(verdict: RunVerdict) -> bool {
    !(verdict is Failed)
}

/// The text that names a verdict in a job's result.
pub open spec fn verdict_text(verdict: RunVerdict) -> Seq<char> {
    match verdict {
        RunVerdict::Empty => "empty"@,
        RunVerdict::Complete => "complete"@,
        RunVerdict::PartialFailure => "partial_failure"@,
        RunVerdict::Failed => "failed"@,
    }
}

impl RunVerdict {
    /// The text that names the verdict in a job's result.
    pub fn label(&self) -> (text: &'static str)
        ensures
            text@ == verdict_text(*self),
    {
        match self {
            RunVerdict::Empty => "empty",
            RunVerdict::Complete => "complete",
            RunVerdict::PartialFailure => "partial_failure",
            RunVerdict::Failed => "failed",
        }
    }

    /// Whether a job whose run ended so counts as succeeded.
    pub fn succeeds(&self) -> (ok: bool)
        ensures
            ok == job_succeeds(*self),
    {
        !matches!(self, RunVerdict::Failed)
    }
}

/// The verdict on what the pipeline reports.
pub fn verdict_on(report: &BatchRunResult) -> (verdict: RunVerdict)
    ensures
        verdict == verdict_of(report.successful as nat, report.failed as nat),
{
    run_verdict(report.successful, report.failed)
}

/// The signatures of the chunks that succeeded, among the first `upto`.
pub open spec fn signatures_upto(results: Seq<Result<String, String>>, upto: int) -> Seq<Seq<char>>
    decreases upto,
{
    if upto <= 0 {
        Seq::empty()
    } else {
        match results[upto - 1] {
            Ok(signature) => signatures_upto(results, upto - 1).push(signature@),
            Err(_) => signatures_upto(results, upto - 1),
        }
    }
}

/// The signatures of the transactions that were accepted, in order.
pub fn accepted_signatures(report: &BatchRunResult) -> (signatures: Vec<String>)
    ensures
        texts_of(signatures@) == signatures_upto(
            crate::batch::held_results(report.chunks@),
            report.chunks@.len() as int,
        ),
{
    let mut signatures: Vec<String> = Vec::new();
    let mut k: usize = 0;
    while k < report.chunks.len()
        invariant
            k <= report.chunks.len(),
            texts_of(signatures@) == signatures_upto(
                crate::batch::held_results(report.chunks@),
                k as int,
            ),
        decreases report.chunks.len() - k,
    {
        let ghost before = texts_of(signatures@);
        match &report.chunks[k].result {
            Ok(signature) => {
                signatures.push(signature.clone());
                assert(texts_of(signatures@) =~= before.push(signature@));
            },
            Err(_) => {},
        }
        k += 1;
    }
    signatures
}

/// The summary of a redistribution: how many transfers went through, and
/// their signatures.
pub open spec fn transfers_summary_text(signatures: Seq<Seq<char>>) -> Seq<char> {
    "Completed "@ + decimal_digits(signatures.len()) + " individual transfers: "@ + joined(
        signatures,
        ", "@,
    )
}

/// Writes the summary of a redistribution.
pub fn transfers_summary(signatures: &Vec<String>) -> (text: String)
    ensures
        text@ == transfers_summary_text(texts_of(signatures@)),
{
    let mut text = String::from_str("Completed ");
    push_decimal(&mut text, signatures.len() as u64);
    text.append(" individual transfers: ");
    let list = join(signatures, ", ");
    text.append(list.as_str());
    text
}

/// The summary of a clean-up: how many accounts were closed, and the
/// signatures of the transactions that closed them.
pub open spec fn closures_summary_text(closed: nat, signatures: Seq<Seq<char>>) -> Seq<char> {
    "Closed "@ + decimal_digits(closed) + " empty token accounts. Transactions: "@ + joined(
        signatures,
        ", "@,
    )
}

/// Writes the summary of a clean-up from what the pipeline reports: the
/// number is that of the accounts in the accepted transactions.
pub fn closures_summary(report: &BatchRunResult) -> (text: String)
    ensures
        text@ == closures_summary_text(
            report.successful as nat,
            signatures_upto(crate::batch::held_results(report.chunks@), report.chunks@.len() as int),
        ),
{
    let signatures = accepted_signatures(report);
    let mut text = String::from_str("Closed ");
    push_decimal(&mut text, report.successful as u64);
    text.append(" empty token accounts. Transactions: ");
    let list = join(&signatures, ", ");
    text.append(list.as_str());
    text
}

/// The result of a job whose run ended with these counts: the verdict, then
/// how many operands succeeded and how many failed.
pub open spec fn job_result_text(successful: nat, failed: nat) -> Seq<char> {
    verdict_text(verdict_of(successful, failed)) + ": "@ + decimal_digits(successful)
        + " succeeded, "@ + decimal_digits(failed) + " failed"@
}

/// Writes the result that a job carries after its run.
pub fn job_result(successful: usize, failed: usize) -> (text: String)
    ensures
        text@ == job_result_text(successful as nat, failed as nat),
{
    let mut text = String::from_str(run_verdict(successful, failed).label());
    text.append(": ");
    push_decimal(&mut text, successful as u64);
    text.append(" succeeded, ");
    push_decimal(&mut text, failed as u64);
    text.append(" failed");
    text
}

/// Writes the result that a job carries after the pipeline has run.
pub fn job_result_of(report: &BatchRunResult) -> (text: String)
    ensures
        text@ == job_result_text(report.successful as nat, report.failed as nat),
{
    job_result(report.successful, report.failed)
}

/// How a job ends after its run: succeeded with the result that carries the
/// counts, unless every operand failed; then failed with that same text.
pub fn job_ending(successful: usize, failed: usize) -> (ending: Result<String, String>)
    ensures
        ending is Ok <==> job_succeeds(verdict_of(successful as nat, failed as nat)),
        match ending {
            Ok(text) => text@ == job_result_text(successful as nat, failed as nat),
            Err(text) => text@ == job_result_text(successful as nat, failed as nat),
        },
{
    let text = job_result(successful, failed);
    if run_verdict(successful, failed).succeeds() {
        Ok(text)
    } else {
        Err(text)
    }
}

/// The summary of a distribution of `amount` (as the caller writes it) to
/// `wallets` wallets.
pub open spec fn distribution_summary_text(
    amount: Seq<char>,
    wallets: nat,
    signatures: Seq<Seq<char>>,
) -> Seq<char> {
    "Distributed "@ + amount + " SOL to "@ + decimal_digits(wallets) + " wallets in "@
        + decimal_digits(signatures.len()) + " transactions: "@ + joined(signatures, ", "@)
}

/// Writes the summary of a distribution.
pub fn distribution_summary(amount: &str, wallets: usize, signatures: &Vec<String>) -> (text:
    String)
    ensures
        text@ == distribution_summary_text(amount@, wallets as nat, texts_of(signatures@)),
{
    let mut text = String::from_str("Distributed ");
    text.append(amount);
    text.append(" SOL to ");
    push_decimal(&mut text, wallets as u64);
    text.append(" wallets in ");
    push_decimal(&mut text, signatures.len() as u64);
    text.append(" transactions: ");
    let list = join(signatures, ", ");
    text.append(list.as_str());
    text
}

/// A wallet that is one lamport short of the amount, the reserve and the fee
/// buffer takes no part; a wallet that holds exactly that much does.
pub proof fn lemma_fixed_amount_boundary(balance: u64, amount: u64, reserve: u64)
    ensures
        balance == required_balance(amount, reserve) - 1 ==> !(balance >= required_balance(
            amount,
            reserve,
        )),
        balance == required_balance(amount, reserve) ==> balance >= required_balance(amount, reserve),
        required_balance(amount, reserve) == amount + reserve + FEE_BUFFER,
{
}

} // verus!
