//! Token accounts: which ones an operation touches and what closing them came to.

use vstd::prelude::*;
use vstd::string::*;
use crate::eligibility::{burn_amount, burn_plan};
use crate::jobs::opt_text;
use crate::text::{chars_of, find_from, first_occurrence, push_decimal, decimal_digits};

verus! {

/// What the ledger reports of one token account. `amount` counts raw units.
#[derive(Debug)]
pub struct TokenAccountInfo {
    pub address: String,
    pub mint: String,
    pub amount: u64,
    pub decimals: u8,
}

/// The text that stands before a mint address in the printed form of an account.
pub open spec fn mint_marker() -> Seq<char> {
    seq!['"', 'm', 'i', 'n', 't', '"', ':', ' ', 'S', 't', 'r', 'i', 'n', 'g', '(', '"']
}

/// The one-character text that ends a mint address.
pub open spec fn quote_mark() -> Seq<char> {
    seq!['"']
}

/// The mint address in the printed form of an account: the text between the
/// leftmost marker and the first quotation mark after it.
pub open spec fn mint_in_debug_text(text: Seq<char>) -> Option<Seq<char>> {
    match first_occurrence(text, mint_marker(), 0) {
        None => None,
        Some(at) => {
            let from = at + mint_marker().len();
            match first_occurrence(text, quote_mark(), from) {
                None => None,
                Some(close) => Some(text.subrange(from, close)),
            }
        },
    }
}

/// Reads the mint address out of the printed form of an account.
pub fn extract_mint_from_debug_string(debug_str: &str) -> (mint: Option<String>)
    ensures
        opt_text(mint) == mint_in_debug_text(debug_str@),
{
    let text = chars_of(debug_str);
    let marker = chars_of("\"mint\": String(\"");
    let quote = chars_of("\"");
    proof {
        reveal_strlit("\"mint\": String(\"");
        reveal_strlit("\"");
        assert(marker@ =~= mint_marker());
        assert(quote@ =~= quote_mark());
    }
    match find_from(&text, &marker, 0) {
        None => None,
        Some(at) => {
            assert(at + marker.len() <= text.len());
            let from = at + marker.len();
            match find_from(&text, &quote, from) {
                None => None,
                Some(close) => Some(debug_str.substring_char(from, close).to_owned()),
            }
        },
    }
}

/// Reads the mint address out of the printed form of an account.
pub fn extract_mint_from_account_debug(account_debug: &str) -> (mint: Option<String>)
    ensures
        opt_text(mint) == mint_in_debug_text(account_debug@),
{
    extract_mint_from_debug_string(account_debug)
}

/// Whether `at` is the first account of `accounts` that holds `mint`.
pub open spec fn is_first_account_of(accounts: Seq<TokenAccountInfo>, mint: Seq<char>, at: int) -> bool {
    &&& 0 <= at < accounts.len()
    &&& accounts[at].mint@ == mint
    &&& forall|j: int| 0 <= j < at ==> accounts[j].mint@ != mint
}

/// Finds the first account that holds `mint`.
pub fn find_account_for_mint(accounts: &Vec<TokenAccountInfo>, mint: &str) -> (found: Option<usize>)
    ensures
        match found {
            Some(at) => is_first_account_of(accounts@, mint@, at as int),
            None => forall|j: int| 0 <= j < accounts@.len() ==> accounts@[j].mint@ != mint@,
        },
{
    let wanted = mint.to_owned();
    let mut i: usize = 0;
    while i < accounts.len()
        invariant
            i <= accounts.len(),
            wanted@ == mint@,
            forall|j: int| 0 <= j < i ==> accounts@[j].mint@ != mint@,
        decreases accounts.len() - i,
    {
        if accounts[i].mint == wanted {
            return Some(i);
        }
        i += 1;
    }
    None
}

/// The positions below `upto` of the accounts that hold nothing, in order.
pub open spec fn empty_positions(accounts: Seq<TokenAccountInfo>, upto: int) -> Seq<usize>
    decreases upto,
{
    if upto <= 0 {
        Seq::empty()
    } else if accounts[upto - 1].amount == 0 {
        empty_positions(accounts, upto - 1).push((upto - 1) as usize)
    } else {
        empty_positions(accounts, upto - 1)
    }
}

/// A position is listed exactly when its account holds nothing, and the
/// positions are listed in rising order.
pub proof fn lemma_empty_positions(accounts: Seq<TokenAccountInfo>, upto: int)
    requires
        0 <= upto <= accounts.len(),
        accounts.len() <= usize::MAX,
    ensures
        forall|p: int|
            0 <= p < upto ==> (accounts[p].amount == 0 <==> empty_positions(
                accounts,
                upto,
            ).contains(p as usize)),
        forall|j: int|
            0 <= j < empty_positions(accounts, upto).len() ==> (#[trigger] empty_positions(
                accounts,
                upto,
            )[j]) < upto && accounts[empty_positions(accounts, upto)[j] as int].amount == 0,
        forall|j: int, k: int|
            0 <= j < k < empty_positions(accounts, upto).len() ==> empty_positions(
                accounts,
                upto,
            )[j] < empty_positions(accounts, upto)[k],
    decreases upto,
{
    if upto > 0 {
        lemma_empty_positions(accounts, upto - 1);
        let before = empty_positions(accounts, upto - 1);
        let now = empty_positions(accounts, upto);
        if accounts[upto - 1].amount == 0 {
            assert(now == before.push((upto - 1) as usize));
            assert(now[now.len() - 1] == (upto - 1) as usize);
            assert forall|p: int| 0 <= p < upto implies (accounts[p].amount == 0 <==> now.contains(
                p as usize,
            )) by {
                if p < upto - 1 {
                    if before.contains(p as usize) {
                        let j = choose|j: int| 0 <= j < before.len() && before[j] == p as usize;
                        assert(now[j] == p as usize);
                    }
                    if now.contains(p as usize) {
                        let j = choose|j: int| 0 <= j < now.len() && now[j] == p as usize;
                        if j < before.len() {
                            assert(before[j] == p as usize);
                        }
                    }
                }
            }
        } else {
            assert(now == before);
        }
    }
}

/// The positions of the accounts that hold nothing and can therefore be closed.
pub fn empty_accounts(accounts: &Vec<TokenAccountInfo>) -> (positions: Vec<usize>)
    ensures
        positions@ == empty_positions(accounts@, accounts@.len() as int),
{
    let mut positions: Vec<usize> = Vec::new();
    let mut i: usize = 0;
    while i < accounts.len()
        invariant
            i <= accounts.len(),
            positions@ == empty_positions(accounts@, i as int),
        decreases accounts.len() - i,
    {
        if accounts[i].amount == 0 {
            positions.push(i);
        }
        i += 1;
    }
    positions
}

/// The accounts below `upto` that hold `mint` and of which something is
/// destroyed, each with the raw amount to destroy, in order.
pub open spec fn planned_burns(
    accounts: Seq<TokenAccountInfo>,
    mint: Seq<char>,
    percentage_bp: u32,
    upto: int,
) -> Seq<(usize, u64)>
    decreases upto,
{
    if upto <= 0 {
        Seq::empty()
    } else {
        let account = accounts[upto - 1];
        let before = planned_burns(accounts, mint, percentage_bp, upto - 1);
        if account.mint@ == mint && burn_plan(account.amount, percentage_bp) is Some {
            before.push(((upto - 1) as usize, burn_plan(account.amount, percentage_bp)->0))
        } else {
            before
        }
    }
}

/// Plans the destruction of a share of a wallet's holdings of one mint: the
/// position of every account of that mint that holds something, with the raw
/// amount to destroy of it. Accounts of other mints and empty accounts are
/// left out, and a share outside the range plans nothing.
pub fn plan_burns(accounts: &Vec<TokenAccountInfo>, mint: &str, percentage_bp: u32) -> (plan: Vec<
    (usize, u64),
>)
    ensures
        plan@ == planned_burns(accounts@, mint@, percentage_bp, accounts@.len() as int),
{
    let wanted = mint.to_owned();
    let mut plan: Vec<(usize, u64)> = Vec::new();
    let mut i: usize = 0;
    while i < accounts.len()
        invariant
            i <= accounts.len(),
            wanted@ == mint@,
            plan@ == planned_burns(accounts@, mint@, percentage_bp, i as int),
        decreases accounts.len() - i,
    {
        if accounts[i].mint == wanted {
            match burn_amount(accounts[i].amount, percentage_bp) {
                Some(raw) => {
                    plan.push((i, raw));
                },
                None => {},
            }
        }
        i += 1;
    }
    plan
}

/// What closing the account of one mint came to.
#[derive(Debug)]
pub struct CloseTokenAccountResult {
    pub success: bool,
    pub token_mint: String,
    pub token_account: Option<String>,
    pub transaction_signature: Option<String>,
    pub message: String,
    pub error: Option<String>,
}

/// The mathematical content of a [`CloseTokenAccountResult`].
pub struct CloseResultView {
    pub success: bool,
    pub token_mint: Seq<char>,
    pub token_account: Option<Seq<char>>,
    pub transaction_signature: Option<Seq<char>>,
    pub message: Seq<char>,
    pub error: Option<Seq<char>>,
}

impl View for CloseTokenAccountResult {
    type V = CloseResultView;

    open spec fn view(&self) -> CloseResultView {
        CloseResultView {
            success: self.success,
            token_mint: self.token_mint@,
            token_account: opt_text(self.token_account),
            transaction_signature: opt_text(self.transaction_signature),
            message: self.message@,
            error: opt_text(self.error),
        }
    }
}

/// A request to close the accounts of several mints of one wallet.
#[derive(Debug)]
pub struct CloseTokenAccountBatchRequest {
    pub wallet_pk: String,
    pub token_mints: Vec<String>,
}

/// What closing the accounts of several mints came to.
#[derive(Debug)]
pub struct CloseTokenAccountBatchResult {
    pub total_requested: usize,
    pub successful_closures: usize,
    pub failed_closures: usize,
    pub results: Vec<CloseTokenAccountResult>,
}

/// A request to destroy the holdings of several mints of one wallet.
#[derive(Debug)]
pub struct BurnTokensBatchRequest {
    pub wallet_pk: String,
    pub token_mints: Vec<String>,
}

/// The result for a mint of which the wallet holds no account.
pub open spec fn missing_view(token_mint: Seq<char>, wallet: Seq<char>) -> CloseResultView {
    CloseResultView {
        success: false,
        token_mint,
        token_account: None,
        transaction_signature: None,
        message: "No token account found for mint "@ + token_mint + " in wallet "@ + wallet,
        error: Some("Token account not found"@),
    }
}

/// The result for an account whose closing transaction came to `submission`.
pub open spec fn closed_view(
    token_mint: Seq<char>,
    account: Seq<char>,
    amount: u64,
    submission: Result<Seq<char>, Seq<char>>,
) -> CloseResultView {
    match submission {
        Ok(signature) => CloseResultView {
            success: true,
            token_mint,
            token_account: Some(account),
            transaction_signature: Some(signature),
            message: "Token account "@ + account + " for mint "@ + token_mint
                + " closed successfully (balance: "@ + decimal_digits(amount as nat) + ")"@,
            error: None,
        },
        Err(reason) => CloseResultView {
            success: false,
            token_mint,
            token_account: Some(account),
            transaction_signature: None,
            message: "Failed to close token account "@ + account + " for mint "@ + token_mint
                + ": "@ + reason,
            error: Some(
                "Failed to close token account "@ + account + " for mint "@ + token_mint + ": "@
                    + reason,
            ),
        },
    }
}

/// The result for a mint whose closing could not even be attempted.
pub open spec fn aborted_view(token_mint: Seq<char>, reason: Seq<char>) -> CloseResultView {
    CloseResultView {
        success: false,
        token_mint,
        token_account: None,
        transaction_signature: None,
        message: "Failed to close token account: "@ + reason,
        error: Some(reason),
    }
}

impl CloseTokenAccountResult {
    /// The result for a mint of which the wallet holds no account.
    pub fn missing(token_mint: &str, wallet: &str) -> (result: CloseTokenAccountResult)
        ensures
            result@ == missing_view(token_mint@, wallet@),
    {
        let mut message = String::from_str("No token account found for mint ");
        message.append(token_mint);
        message.append(" in wallet ");
        message.append(wallet);
        CloseTokenAccountResult {
            success: false,
            token_mint: token_mint.to_owned(),
            token_account: None,
            transaction_signature: None,
            message,
            error: Some(String::from_str("Token account not found")),
        }
    }

    /// The result for an account whose closing transaction came to `submission`.
    pub fn closed(
        token_mint: &str,
        account: &TokenAccountInfo,
        submission: Result<String, String>,
    ) -> (result: CloseTokenAccountResult)
        ensures
            result@ == closed_view(
                token_mint@,
                account.address@,
                account.amount,
                crate::batch::submission_view(submission),
            ),
    {
        match submission {
            Ok(signature) => {
                let mut message = String::from_str("Token account ");
                message.append(account.address.as_str());
                message.append(" for mint ");
                message.append(token_mint);
                message.append(" closed successfully (balance: ");
                push_decimal(&mut message, account.amount);
                message.append(")");
                CloseTokenAccountResult {
                    success: true,
                    token_mint: token_mint.to_owned(),
                    token_account: Some(account.address.clone()),
                    transaction_signature: Some(signature),
                    message,
                    error: None,
                }
            },
            Err(reason) => {
                let mut message = String::from_str("Failed to close token account ");
                message.append(account.address.as_str());
                message.append(" for mint ");
                message.append(token_mint);
                message.append(": ");
                message.append(reason.as_str());
                let error = message.clone();
                CloseTokenAccountResult {
                    success: false,
                    token_mint: token_mint.to_owned(),
                    token_account: Some(account.address.clone()),
                    transaction_signature: None,
                    message,
                    error: Some(error),
                }
            },
        }
    }

    /// The result for a mint whose closing could not even be attempted.
    pub fn aborted(token_mint: &str, reason: String) -> (result: CloseTokenAccountResult)
        ensures
            result@ == aborted_view(token_mint@, reason@),
    {
        let mut message = String::from_str("Failed to close token account: ");
        message.append(reason.as_str());
        CloseTokenAccountResult {
            success: false,
            token_mint: token_mint.to_owned(),
            token_account: None,
            transaction_signature: None,
            message,
            error: Some(reason),
        }
    }
}

/// What closing the account of `token_mint` comes to before anything is
/// submitted: the position of the account to close, or the result that
/// reports that the wallet holds none.
pub fn locate_account_to_close(
    accounts: &Vec<TokenAccountInfo>,
    token_mint: &str,
    wallet: &str,
) -> (located: Result<usize, CloseTokenAccountResult>)
    ensures
        match located {
            Ok(at) => is_first_account_of(accounts@, token_mint@, at as int),
            Err(result) => {
                &&& forall|j: int| 0 <= j < accounts@.len() ==> accounts@[j].mint@ != token_mint@
                &&& result@ == missing_view(token_mint@, wallet@)
            },
        },
{
    match find_account_for_mint(accounts, token_mint) {
        Some(at) => Ok(at),
        None => Err(CloseTokenAccountResult::missing(token_mint, wallet)),
    }
}

/// The number of successful results among the first `upto`.
pub open spec fn successful_closures(results: Seq<CloseTokenAccountResult>, upto: int) -> nat
    decreases upto,
{
    if upto <= 0 {
        0
    } else if results[upto - 1].success {
        successful_closures(results, upto - 1) + 1
    } else {
        successful_closures(results, upto - 1)
    }
}

/// Gathers the results of a batch: every result is kept in order, and each
/// counts as a success or as a failure.
pub fn summarize_closures(results: Vec<CloseTokenAccountResult>) -> (summary:
    CloseTokenAccountBatchResult)
    ensures
        summary.results == results,
        summary.total_requested == results@.len(),
        summary.successful_closures == successful_closures(results@, results@.len() as int),
        summary.successful_closures + summary.failed_closures == summary.total_requested,
{
    let mut successful: usize = 0;
    let mut i: usize = 0;
    while i < results.len()
        invariant
            i <= results.len(),
            successful == successful_closures(results@, i as int),
            successful <= i,
        decreases results.len() - i,
    {
        if results[i].success {
            successful += 1;
        }
        i += 1;
    }
    let total = results.len();
    CloseTokenAccountBatchResult {
        total_requested: total,
        successful_closures: successful,
        failed_closures: total - successful,
        results,
    }
}

} // verus!
