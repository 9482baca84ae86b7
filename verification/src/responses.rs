//! The plain shapes in which requests come in and answers go out.

use vstd::prelude::*;
use vstd::string::*;
use crate::jobs::opt_text;

verus! {

/// The answer to a request that leads to one transaction.
#[derive(Debug)]
pub struct TransactionRes {
    pub ok: bool,
    pub tx_sig: Option<String>,
    pub error: Option<String>,
}

/// The answer to a request that creates a token.
#[derive(Debug)]
pub struct CreateTokenTransactionRes {
    pub ok: bool,
    pub tx_sig: Option<String>,
    pub mint: Option<String>,
    pub error: Option<String>,
}

/// A request to sell a share of a holding.
#[derive(Debug)]
pub struct QuickSellReq {
    pub wallet: String,
    pub pk: String,
    pub percent: u8,
    pub mint: String,
    pub slippage_bps: Option<u64>,
}

/// A request to read the balances of a group of wallets again.
#[derive(Debug)]
pub struct RefreshBalancesReq {
    pub group_name: String,
}

impl TransactionRes {
    /// The answer for a transaction that came to `outcome`: its signature on
    /// success, the error message on failure.
    pub fn from_outcome(outcome: Result<String, String>) -> (res: TransactionRes)
        ensures
            res.ok == (outcome is Ok),
            opt_text(res.tx_sig) == match outcome {
                Ok(signature) => Some(signature@),
                Err(_) => None,
            },
            opt_text(res.error) == match outcome {
                Ok(_) => None,
                Err(message) => Some(message@),
            },
    {
        match outcome {
            Ok(signature) => TransactionRes { ok: true, tx_sig: Some(signature), error: None },
            Err(message) => TransactionRes { ok: false, tx_sig: None, error: Some(message) },
        }
    }
}

impl CreateTokenTransactionRes {
    /// The answer for the creation of the token `mint` that came to
    /// `outcome`: signature and mint on success, only the error message on
    /// failure.
    pub fn from_outcome(mint: String, outcome: Result<String, String>) -> (res:
        CreateTokenTransactionRes)
        ensures
            res.ok == (outcome is Ok),
            opt_text(res.tx_sig) == match outcome {
                Ok(signature) => Some(signature@),
                Err(_) => None,
            },
            opt_text(res.mint) == match outcome {
                Ok(_) => Some(mint@),
                Err(_) => None,
            },
            opt_text(res.error) == match outcome {
                Ok(_) => None,
                Err(message) => Some(message@),
            },
    {
        match outcome {
            Ok(signature) => CreateTokenTransactionRes {
                ok: true,
                tx_sig: Some(signature),
                mint: Some(mint),
                error: None,
            },
            Err(message) => CreateTokenTransactionRes {
                ok: false,
                tx_sig: None,
                mint: None,
                error: Some(message),
            },
        }
    }
}

} // verus!
