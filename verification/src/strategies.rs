//! The skeleton that the wallet operations share: a pass over all operands
//! decides which of them take part, the ones that do go through the batch
//! pipeline, and at the end every operand has exactly one outcome.

use vstd::prelude::*;
use vstd::string::*;
use crate::batch::{outcome_views, BatchRunResult, OperationOutcome, OutcomeView};
use crate::eligibility::{check_balance_sufficient, get_transferable_balance, required_balance, transferable};
use crate::jobs::opt_text;
use crate::keys::{address_error_text, key_error_text, AddressError, KeyError};
use crate::text::texts_of;
use solana_sdk::pubkey::Pubkey;
use solana_sdk::signature::Keypair;

verus! {

/// For each wallet, whether its balance covers `amount`, `reserve` and the fee.
pub fn preflight_fixed_amount(balances: &Vec<u64>, amount: u64, reserve: u64) -> (eligible: Vec<
    bool,
>)
    ensures
        eligible@.len() == balances@.len(),
        forall|i: int|
            0 <= i < balances@.len() ==> eligible@[i] == (balances@[i] >= required_balance(
                amount,
                reserve,
            )),
{
    let mut eligible: Vec<bool> = Vec::new();
    let mut i: usize = 0;
    while i < balances.len()
        invariant
            i <= balances.len(),
            eligible@.len() == i,
            forall|j: int|
                0 <= j < i ==> eligible@[j] == (balances@[j] >= required_balance(amount, reserve)),
        decreases balances.len() - i,
    {
        eligible.push(check_balance_sufficient(balances[i], amount, reserve));
        i += 1;
    }
    eligible
}

/// For each wallet, what it can give away, or `None` where it takes no part.
pub fn preflight_redistribute_all(balances: &Vec<u64>, reserve: u64) -> (amounts: Vec<Option<u64>>)
    ensures
        amounts@.len() == balances@.len(),
        forall|i: int| 0 <= i < balances@.len() ==> amounts@[i] == transferable(balances@[i], reserve),
{
    let mut amounts: Vec<Option<u64>> = Vec::new();
    let mut i: usize = 0;
    while i < balances.len()
        invariant
            i <= balances.len(),
            amounts@.len() == i,
            forall|j: int| 0 <= j < i ==> amounts@[j] == transferable(balances@[j], reserve),
        decreases balances.len() - i,
    {
        amounts.push(get_transferable_balance(balances[i], reserve));
        i += 1;
    }
    amounts
}

/// Why an operand was turned away before its balance was looked at.
#[derive(Clone, Copy, Debug, PartialEq, Eq, Structural)]
pub enum Rejection {
    /// Its private key does not parse.
    Key(KeyError),
    /// Its address does not parse.
    Address(AddressError),
}

/// The message of a [`Rejection`].
pub open spec fn rejection_text(rejection: Rejection) -> Seq<char> {
    match rejection {
        Rejection::Key(error) => key_error_text(error),
        Rejection::Address(error) => address_error_text(error),
    }
}

impl Rejection {
    /// The message of the rejection.
    pub fn message(&self) -> (text: String)
        ensures
            text@ == rejection_text(*self),
    {
        match self {
            Rejection::Key(error) => error.message(),
            Rejection::Address(error) => error.message(),
        }
    }
}

/// Where an operand stands after the pass over all operands.
#[derive(Clone, Copy, Debug, PartialEq, Eq, Structural)]
pub enum Standing {
    /// It takes part and goes through the pipeline.
    Eligible,
    /// Its balance keeps it out; nothing is attempted for it.
    Skipped,
    /// It could not be made sense of; it fails on its own account.
    Rejected(Rejection),
}

/// The standing of one operand: rejected where it was turned away, else
/// eligible or skipped by its balance.
pub open spec fn standing_of(rejection: Option<Rejection>, eligible: bool) -> Standing {
    match rejection {
        Some(r) => Standing::Rejected(r),
        None => if eligible {
            Standing::Eligible
        } else {
            Standing::Skipped
        },
    }
}

/// For each private key, why it was turned away, if it was.
pub fn key_rejections(resolved: &Vec<Result<Keypair, KeyError>>) -> (rejections: Vec<
    Option<Rejection>,
>)
    ensures
        rejections@.len() == resolved@.len(),
        forall|i: int|
            0 <= i < resolved@.len() ==> (#[trigger] rejections@[i]) == match resolved@[i] {
                Ok(_) => None::<Rejection>,
                Err(e) => Some(Rejection::Key(e)),
            },
{
    let mut rejections: Vec<Option<Rejection>> = Vec::new();
    let mut i: usize = 0;
    while i < resolved.len()
        invariant
            i <= resolved.len(),
            rejections@.len() == i,
            forall|j: int|
                0 <= j < i ==> (#[trigger] rejections@[j]) == match resolved@[j] {
                    Ok(_) => None::<Rejection>,
                    Err(e) => Some(Rejection::Key(e)),
                },
        decreases resolved.len() - i,
    {
        let rejection = match &resolved[i] {
            Ok(_) => None,
            Err(e) => Some(Rejection::Key(*e)),
        };
        rejections.push(rejection);
        i += 1;
    }
    rejections
}

/// For each address, why it was turned away, if it was.
pub fn address_rejections(resolved: &Vec<Result<Pubkey, AddressError>>) -> (rejections: Vec<
    Option<Rejection>,
>)
    ensures
        rejections@.len() == resolved@.len(),
        forall|i: int|
            0 <= i < resolved@.len() ==> (#[trigger] rejections@[i]) == match resolved@[i] {
                Ok(_) => None::<Rejection>,
                Err(e) => Some(Rejection::Address(e)),
            },
{
    let mut rejections: Vec<Option<Rejection>> = Vec::new();
    let mut i: usize = 0;
    while i < resolved.len()
        invariant
            i <= resolved.len(),
            rejections@.len() == i,
            forall|j: int|
                0 <= j < i ==> (#[trigger] rejections@[j]) == match resolved@[j] {
                    Ok(_) => None::<Rejection>,
                    Err(e) => Some(Rejection::Address(e)),
                },
        decreases resolved.len() - i,
    {
        let rejection = match &resolved[i] {
            Ok(_) => None,
            Err(e) => Some(Rejection::Address(*e)),
        };
        rejections.push(rejection);
        i += 1;
    }
    rejections
}

/// The standing of every operand. An operand beyond the end of `eligible`
/// counts as not eligible.
pub fn standings(rejections: &Vec<Option<Rejection>>, eligible: &Vec<bool>) -> (all: Vec<Standing>)
    ensures
        all@.len() == rejections@.len(),
        forall|i: int|
            0 <= i < rejections@.len() ==> (#[trigger] all@[i]) == standing_of(
                rejections@[i],
                i < eligible@.len() && eligible@[i],
            ),
{
    let mut all: Vec<Standing> = Vec::new();
    let mut i: usize = 0;
    while i < rejections.len()
        invariant
            i <= rejections.len(),
            all@.len() == i,
            forall|j: int|
                0 <= j < i ==> (#[trigger] all@[j]) == standing_of(
                    rejections@[j],
                    j < eligible@.len() && eligible@[j],
                ),
        decreases rejections.len() - i,
    {
        let standing = match rejections[i] {
            Some(r) => Standing::Rejected(r),
            None => if i < eligible.len() && eligible[i] {
                Standing::Eligible
            } else {
                Standing::Skipped
            },
        };
        all.push(standing);
        i += 1;
    }
    all
}

/// The positions below `upto` of the operands that take part, in rising order.
pub open spec fn marked_positions(marks: Seq<Standing>, upto: int) -> Seq<usize>
    decreases upto,
{
    if upto <= 0 {
        Seq::empty()
    } else if marks[upto - 1] is Eligible {
        marked_positions(marks, upto - 1).push((upto - 1) as usize)
    } else {
        marked_positions(marks, upto - 1)
    }
}

/// The positions of the operands that take part: the list that goes through
/// the pipeline.
pub fn eligible_positions(all: &Vec<Standing>) -> (positions: Vec<usize>)
    ensures
        positions@ == marked_positions(all@, all@.len() as int),
{
    let mut positions: Vec<usize> = Vec::new();
    let mut i: usize = 0;
    while i < all.len()
        invariant
            i <= all.len(),
            positions@ == marked_positions(all@, i as int),
        decreases all.len() - i,
    {
        if matches!(all[i], Standing::Eligible) {
            positions.push(i);
        }
        i += 1;
    }
    positions
}

/// The number of operands in the pass that are done with before the pipeline
/// starts, because they are skipped or rejected.
pub open spec fn settled_before(all: Seq<Standing>, upto: int) -> nat
    decreases upto,
{
    if upto <= 0 {
        0
    } else if all[upto - 1] is Eligible {
        settled_before(all, upto - 1)
    } else {
        settled_before(all, upto - 1) + 1
    }
}

/// Counts the operands that are skipped or rejected.
pub fn count_settled(all: &Vec<Standing>) -> (n: usize)
    ensures
        n == settled_before(all@, all@.len() as int),
        n <= all@.len(),
{
    let mut n: usize = 0;
    let mut i: usize = 0;
    while i < all.len()
        invariant
            i <= all.len(),
            n == settled_before(all@, i as int),
            n <= i,
        decreases all.len() - i,
    {
        if !matches!(all[i], Standing::Eligible) {
            n += 1;
        }
        i += 1;
    }
    n
}

/// The number of operands that are done with once the pipeline has completed
/// `piped` of them: those settled before it and those, never more than all.
pub open spec fn overall_completed(settled: nat, piped: nat, total: nat) -> nat {
    if settled + piped <= total {
        settled + piped
    } else {
        total
    }
}

/// The progress of an operation while its pipeline runs.
pub fn overall_progress(settled: usize, piped: usize, total: usize) -> (completed: usize)
    ensures
        completed == overall_completed(settled as nat, piped as nat, total as nat),
{
    if settled > total {
        total
    } else if piped > total - settled {
        total
    } else {
        settled + piped
    }
}

/// The outcome of an operand that took no part.
pub open spec fn skipped_outcome(operand: nat) -> OutcomeView {
    OutcomeView {
        operand_ref: operand,
        success: false,
        skipped: true,
        signature: None,
        error: Some("skipped: ineligible"@),
    }
}

/// The outcome of an operand that was turned away: a failure of its own.
pub open spec fn rejected_outcome(operand: nat, rejection: Rejection) -> OutcomeView {
    OutcomeView {
        operand_ref: operand,
        success: false,
        skipped: false,
        signature: None,
        error: Some(rejection_text(rejection)),
    }
}

/// The outcome of an operand that should have taken part but for which the
/// pipeline holds no outcome.
pub open spec fn unattempted_outcome(operand: nat) -> OutcomeView {
    OutcomeView {
        operand_ref: operand,
        success: false,
        skipped: false,
        signature: None,
        error: Some("not attempted"@),
    }
}

/// The outcome of operand `i`: skipped or rejected where it took no part;
/// else the outcome that the pipeline holds for it, found at the position
/// that counts the operands before `i` that took part.
pub open spec fn merged_outcome(all: Seq<Standing>, piped: Seq<OutcomeView>, i: int) -> OutcomeView {
    match all[i] {
        Standing::Skipped => skipped_outcome(i as nat),
        Standing::Rejected(rejection) => rejected_outcome(i as nat, rejection),
        Standing::Eligible => {
            let at = marked_positions(all, i).len() as int;
            if at < piped.len() {
                OutcomeView { operand_ref: i as nat, ..piped[at] }
            } else {
                unattempted_outcome(i as nat)
            }
        },
    }
}

/// The number of successful outcomes among the first `upto`.
pub open spec fn count_successful(outcomes: Seq<OutcomeView>, upto: int) -> nat
    decreases upto,
{
    if upto <= 0 {
        0
    } else if outcomes[upto - 1].success {
        count_successful(outcomes, upto - 1) + 1
    } else {
        count_successful(outcomes, upto - 1)
    }
}

/// The number of outcomes among the first `upto` that are skipped and not
/// successful.
pub open spec fn count_skipped(outcomes: Seq<OutcomeView>, upto: int) -> nat
    decreases upto,
{
    if upto <= 0 {
        0
    } else if outcomes[upto - 1].skipped && !outcomes[upto - 1].success {
        count_skipped(outcomes, upto - 1) + 1
    } else {
        count_skipped(outcomes, upto - 1)
    }
}

/// Counting over a list is counting over any longer list that begins with it.
pub proof fn lemma_counts_prefix(short: Seq<OutcomeView>, long: Seq<OutcomeView>, upto: int)
    requires
        0 <= upto <= short.len() <= long.len(),
        forall|i: int| 0 <= i < short.len() ==> short[i] == long[i],
    ensures
        count_successful(short, upto) == count_successful(long, upto),
        count_skipped(short, upto) == count_skipped(long, upto),
    decreases upto,
{
    if upto > 0 {
        lemma_counts_prefix(short, long, upto - 1);
    }
}

/// What an operation came to, operand by operand.
#[derive(Debug)]
pub struct StrategyReport {
    pub outcomes: Vec<OperationOutcome>,
    pub successful: usize,
    pub failed: usize,
    pub skipped: usize,
}

/// A copy of an optional string.
fn copy_opt(o: &Option<String>) -> (c: Option<String>)
    ensures
        opt_text(c) == opt_text(*o),
{
    match o {
        Some(s) => Some(s.clone()),
        None => None,
    }
}

/// Brings the outcomes of the pipeline back to the operands they belong to.
/// Every operand gets exactly one outcome: skipped, succeeded or failed; the
/// three counters count them and add up to the number of operands.
pub fn merge_outcomes(all: &Vec<Standing>, piped: &BatchRunResult) -> (report: StrategyReport)
    ensures
        report.outcomes@.len() == all@.len(),
        forall|i: int|
            0 <= i < all@.len() ==> (#[trigger] report.outcomes@[i])@ == merged_outcome(
                all@,
                outcome_views(piped.outcomes@),
                i,
            ),
        report.successful == count_successful(
            outcome_views(report.outcomes@),
            all@.len() as int,
        ),
        report.skipped == count_skipped(outcome_views(report.outcomes@), all@.len() as int),
        report.successful + report.failed + report.skipped == all@.len(),
{
    let mut outcomes: Vec<OperationOutcome> = Vec::new();
    let mut successful: usize = 0;
    let mut failed: usize = 0;
    let mut skipped: usize = 0;
    let mut at: usize = 0;
    let mut i: usize = 0;
    while i < all.len()
        invariant
            i <= all.len(),
            at == marked_positions(all@, i as int).len(),
            at <= i,
            outcomes@.len() == i,
            forall|j: int|
                0 <= j < i ==> (#[trigger] outcomes@[j])@ == merged_outcome(
                    all@,
                    outcome_views(piped.outcomes@),
                    j,
                ),
            successful == count_successful(outcome_views(outcomes@), i as int),
            skipped == count_skipped(outcome_views(outcomes@), i as int),
            successful + failed + skipped == i,
        decreases all.len() - i,
    {
        let ghost before = outcome_views(outcomes@);
        let standing = all[i];
        let outcome = if let Standing::Rejected(rejection) = standing {
            OperationOutcome {
                operand_ref: i,
                success: false,
                skipped: false,
                signature: None,
                error: Some(rejection.message()),
            }
        } else if matches!(standing, Standing::Skipped) {
            OperationOutcome {
                operand_ref: i,
                success: false,
                skipped: true,
                signature: None,
                error: Some(String::from_str("skipped: ineligible")),
            }
        } else if at < piped.outcomes.len() {
            let found = &piped.outcomes[at];
            assert(outcome_views(piped.outcomes@)[at as int] == found@);
            OperationOutcome {
                operand_ref: i,
                success: found.success,
                skipped: found.skipped,
                signature: copy_opt(&found.signature),
                error: copy_opt(&found.error),
            }
        } else {
            OperationOutcome {
                operand_ref: i,
                success: false,
                skipped: false,
                signature: None,
                error: Some(String::from_str("not attempted")),
            }
        };
        assert(outcome@ == merged_outcome(all@, outcome_views(piped.outcomes@), i as int));
        let success = outcome.success;
        let was_skipped = outcome.skipped;
        outcomes.push(outcome);
        proof {
            let after = outcome_views(outcomes@);
            assert(after =~= before.push(outcome@));
            lemma_counts_prefix(before, after, i as int);
        }
        if success {
            successful += 1;
        } else if was_skipped {
            skipped += 1;
        } else {
            failed += 1;
        }
        if matches!(standing, Standing::Eligible) {
            at += 1;
        }
        i += 1;
    }
    StrategyReport { outcomes, successful, failed, skipped }
}

/// The signatures of the successful outcomes among the first `upto`, in order.
pub open spec fn signatures_among(outcomes: Seq<OutcomeView>, upto: int) -> Seq<Seq<char>>
    decreases upto,
{
    if upto <= 0 {
        Seq::empty()
    } else {
        let outcome = outcomes[upto - 1];
        if outcome.success && outcome.signature is Some {
            signatures_among(outcomes, upto - 1).push(outcome.signature->0)
        } else {
            signatures_among(outcomes, upto - 1)
        }
    }
}

/// The signatures under which operands of the report went through, in the
/// order of the operands.
pub fn report_signatures(report: &StrategyReport) -> (signatures: Vec<String>)
    ensures
        texts_of(signatures@) == signatures_among(
            outcome_views(report.outcomes@),
            report.outcomes@.len() as int,
        ),
{
    let mut signatures: Vec<String> = Vec::new();
    let mut i: usize = 0;
    while i < report.outcomes.len()
        invariant
            i <= report.outcomes.len(),
            texts_of(signatures@) == signatures_among(outcome_views(report.outcomes@), i as int),
        decreases report.outcomes.len() - i,
    {
        let ghost before = texts_of(signatures@);
        let outcome = &report.outcomes[i];
        assert(outcome_views(report.outcomes@)[i as int] == outcome@);
        if outcome.success {
            match &outcome.signature {
                Some(signature) => {
                    signatures.push(signature.clone());
                    assert(texts_of(signatures@) =~= before.push(signature@));
                },
                None => {},
            }
        }
        i += 1;
    }
    signatures
}

} // verus!
