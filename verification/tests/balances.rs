use wallet_jobs::balances::{
    record_fetch, record_wallet_result, GetTokenBalanceResult, TokenBalance,
};

fn holding(raw: u64) -> TokenBalance {
    TokenBalance { balance_raw: raw, decimals: 6, token_account: "acct".to_string(), mint: None }
}

#[test]
fn result_counts_its_holdings() {
    let result = GetTokenBalanceResult::new("w".to_string(), vec![holding(5), holding(7)]);
    assert_eq!(result.total_tokens, 2);
    assert_eq!(result.first_balance(), Some((5, 6)));
    let empty = GetTokenBalanceResult::empty("w2");
    assert_eq!(empty.wallet, "w2");
    assert_eq!(empty.total_tokens, 0);
    assert_eq!(empty.first_balance(), None);
}

#[test]
fn later_result_of_a_wallet_replaces_the_earlier_one() {
    let mut results = Vec::new();
    record_wallet_result(&mut results, GetTokenBalanceResult::new("a".to_string(), vec![holding(1)]));
    record_wallet_result(&mut results, GetTokenBalanceResult::empty("b"));
    record_wallet_result(&mut results, GetTokenBalanceResult::new("a".to_string(), vec![holding(2), holding(3)]));
    assert_eq!(results.len(), 2);
    assert_eq!(results[0].wallet, "a");
    assert_eq!(results[0].total_tokens, 2);
    assert_eq!(results[0].first_balance(), Some((2, 6)));
    assert_eq!(results[1].wallet, "b");
}

#[test]
fn failed_fetch_leaves_an_entry_without_holdings() {
    let mut results = Vec::new();
    record_fetch(&mut results, "a", Ok(GetTokenBalanceResult::new("a".to_string(), vec![holding(4)])));
    record_fetch(&mut results, "b", Err("rpc down".to_string()));
    record_fetch(&mut results, "a", Err("rpc down".to_string()));
    assert_eq!(results.len(), 2);
    assert_eq!(results[0].wallet, "a");
    assert_eq!(results[0].total_tokens, 0);
    assert_eq!(results[1].wallet, "b");
    assert_eq!(results[1].balances.len(), 0);
}
