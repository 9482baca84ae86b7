//! Token balances of wallets as they are gathered for the caller.

use vstd::prelude::*;
use vstd::string::*;

verus! {

/// The holding of one token account, in raw units.
#[derive(Debug)]
pub struct TokenBalance {
    pub balance_raw: u64,
    pub decimals: u8,
    pub token_account: String,
    pub mint: Option<String>,
}

/// The holdings of one wallet.
#[derive(Debug)]
pub struct GetTokenBalanceResult {
    pub wallet: String,
    pub balances: Vec<TokenBalance>,
    pub total_tokens: usize,
}

impl GetTokenBalanceResult {
    /// The result for a wallet with these holdings.
    pub fn new(wallet: String, balances: Vec<TokenBalance>) -> (result: GetTokenBalanceResult)
        ensures
            result.wallet == wallet,
            result.balances == balances,
            result.total_tokens == balances@.len(),
    {
        let total_tokens = balances.len();
        GetTokenBalanceResult { wallet, balances, total_tokens }
    }

    /// The result for a wallet whose holdings could not be read or which has none.
    pub fn empty(wallet: &str) -> (result: GetTokenBalanceResult)
        ensures
            result.wallet@ == wallet@,
            result.balances@.len() == 0,
            result.total_tokens == 0,
    {
        GetTokenBalanceResult { wallet: wallet.to_owned(), balances: Vec::new(), total_tokens: 0 }
    }

    /// The raw balance and the decimals of the first holding, or `None` for a
    /// wallet without holdings.
    pub fn first_balance(&self) -> (first: Option<(u64, u8)>)
        ensures
            first == if self.balances@.len() == 0 {
                None::<(u64, u8)>
            } else {
                Some((self.balances@[0].balance_raw, self.balances@[0].decimals))
            },
    {
        if self.balances.len() == 0 {
            None
        } else {
            Some((self.balances[0].balance_raw, self.balances[0].decimals))
        }
    }
}

/// Whether `at` is the first position of `results` that belongs to `wallet`.
pub open spec fn is_first_entry_of(results: Seq<GetTokenBalanceResult>, wallet: Seq<char>, at: int) -> bool {
    &&& 0 <= at < results.len()
    &&& results[at].wallet@ == wallet
    &&& forall|j: int| 0 <= j < at ==> results[j].wallet@ != wallet
}

/// Whether `after` is `before` with `result` filed: in the place of the first
/// earlier result of the same wallet, or at the end where there is none. The
/// results of other wallets stay as they are.
pub open spec fn filed(
    before: Seq<GetTokenBalanceResult>,
    after: Seq<GetTokenBalanceResult>,
    result: GetTokenBalanceResult,
) -> bool {
    &&& (exists|at: int| is_first_entry_of(before, result.wallet@, at)) ==> {
        &&& after.len() == before.len()
        &&& forall|at: int|
            is_first_entry_of(before, result.wallet@, at) ==> after == before.update(at, result)
    }
    &&& (forall|j: int| 0 <= j < before.len() ==> before[j].wallet@ != result.wallet@) ==> after
        == before.push(result)
}

/// Files the result of one wallet: it takes the place of the first earlier
/// result of the same wallet, or goes to the end where there is none. The
/// results of other wallets stay as they are.
pub fn record_wallet_result(results: &mut Vec<GetTokenBalanceResult>, result: GetTokenBalanceResult)
    ensures
        filed(old(results)@, final(results)@, result),
{
    let mut i: usize = 0;
    while i < results.len()
        invariant
            i <= results.len(),
            *results == *old(results),
            forall|j: int| 0 <= j < i ==> results@[j].wallet@ != result.wallet@,
        decreases results.len() - i,
    {
        if results[i].wallet == result.wallet {
            assert(is_first_entry_of(old(results)@, result.wallet@, i as int));
            assert forall|at: int| is_first_entry_of(old(results)@, result.wallet@, at) implies at
                == i by {
                if at < i {
                    assert(old(results)@[at].wallet@ != result.wallet@);
                }
            }
            results[i] = result;
            return ;
        }
        i += 1;
    }
    results.push(result);
}

/// Files what reading the holdings of `wallet` came to: the holdings that
/// were read, or, where the reading failed, a result without holdings under
/// the wallet's name, so that every wallet asked for has its entry.
pub fn record_fetch(
    results: &mut Vec<GetTokenBalanceResult>,
    wallet: &str,
    fetched: Result<GetTokenBalanceResult, String>,
)
    ensures
        match fetched {
            Ok(result) => filed(old(results)@, final(results)@, result),
            Err(_) => exists|blank: GetTokenBalanceResult|
                {
                    &&& blank.wallet@ == wallet@
                    &&& blank.balances@.len() == 0
                    &&& blank.total_tokens == 0
                    &&& #[trigger] filed(old(results)@, final(results)@, blank)
                },
        },
{
    match fetched {
        Ok(result) => record_wallet_result(results, result),
        Err(_) => {
            let blank = GetTokenBalanceResult::empty(wallet);
            record_wallet_result(results, blank);
        },
    }
}

} // verus!
