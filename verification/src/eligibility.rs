//! The rules of the wallet operations: what a request must look like, which
//! wallets take part, and how much each one moves.

use vstd::prelude::*;
use vstd::string::*;
use crate::text::{decimal_digits, push_decimal};

verus! {

/// Lamports every wallet keeps back after a transfer.
pub const MIN_RESERVE: u64 = 5_000;

/// Lamports set aside for the fee of the transfer itself.
pub const FEE_BUFFER: u64 = 5_000;

/// The largest number of operands that one call may name.
pub const MAX_OPERANDS: usize = 200;

/// Lamports in one SOL.
pub const LAMPORTS_PER_SOL: u64 = 1_000_000_000;

/// Hundredths of a percent that make the whole.
pub const FULL_BASIS_POINTS: u32 = 10_000;

/// What a wallet must hold to send `amount` and still keep `reserve` and the fee buffer.
pub open spec fn required_balance(amount: u64, reserve: u64) -> int {
    amount + reserve + FEE_BUFFER
}

/// Whether `balance` covers `amount` together with `reserve` and the fee buffer.
pub fn check_balance_sufficient(balance: u64, amount: u64, reserve: u64) -> (ok: bool)
    ensures
        ok == (balance >= required_balance(amount, reserve)),
{
    let required: u128 = amount as u128 + reserve as u128 + FEE_BUFFER as u128;
    balance as u128 >= required
}

/// What a wallet can give away when everything above `reserve` and the fee
/// buffer goes: the rest, where there is one.
pub open spec fn transferable(balance: u64, reserve: u64) -> Option<u64> {
    if balance - reserve - FEE_BUFFER > 0 {
        Some((balance - reserve - FEE_BUFFER) as u64)
    } else {
        None
    }
}

/// The balance that a wallet can give away, or `None` for a wallet that
/// holds no more than `reserve` and the fee buffer.
pub fn get_transferable_balance(balance: u64, reserve: u64) -> (amount: Option<u64>)
    ensures
        amount == transferable(balance, reserve),
{
    let kept: u128 = reserve as u128 + FEE_BUFFER as u128;
    if balance as u128 > kept {
        Some((balance as u128 - kept) as u64)
    } else {
        None
    }
}

/// What a wallet must hold to send `amount`, as far as a balance can say it:
/// the sum, or the largest balance there is where the sum is beyond it.
pub open spec fn required_lamports(amount: u64, reserve: u64) -> u64 {
    if required_balance(amount, reserve) <= u64::MAX {
        required_balance(amount, reserve) as u64
    } else {
        u64::MAX
    }
}

/// What asking a single wallet for `amount` comes to: nothing to object where
/// its balance covers the amount, the reserve and the fee buffer; else the
/// error that names what was required and what was there.
pub open spec fn balance_verdict(balance: u64, amount: u64, reserve: u64) -> Result<
    (),
    ValidationError,
> {
    if balance >= required_balance(amount, reserve) {
        Ok(())
    } else {
        Err(
            ValidationError::InsufficientSourceBalance {
                required: required_lamports(amount, reserve),
                available: balance,
            },
        )
    }
}

/// Judges whether a single wallet can send `amount`.
pub fn require_balance(balance: u64, amount: u64, reserve: u64) -> (verdict: Result<
    (),
    ValidationError,
>)
    ensures
        verdict == balance_verdict(balance, amount, reserve),
{
    let required: u128 = amount as u128 + reserve as u128 + FEE_BUFFER as u128;
    if balance as u128 >= required {
        Ok(())
    } else {
        let shown: u64 = if required <= u64::MAX as u128 {
            required as u64
        } else {
            u64::MAX
        };
        Err(ValidationError::InsufficientSourceBalance { required: shown, available: balance })
    }
}

/// The kind of operand that a request names.
#[derive(Clone, Copy, Debug, PartialEq, Eq, Structural)]
pub enum OperandKind {
    PrivateKeys,
    DestinationWallets,
    TokenMints,
    MintAddresses,
    Wallets,
}

/// Why a request was turned away before anything was sent.
#[derive(Clone, Copy, Debug, PartialEq, Eq, Structural)]
pub enum ValidationError {
    /// The request names more operands than one call may.
    TooManyOperands { kind: OperandKind, given: usize },
    /// The request names no operand.
    NoOperands { kind: OperandKind },
    /// The amount to move is zero.
    AmountNotPositive,
    /// The share to destroy is zero or more than the whole.
    PercentageOutOfRange,
    /// The source holds less than the total to hand out.
    InsufficientSourceBalance { required: u64, available: u64 },
}

/// The plural noun of an operand kind, as the messages write it.
pub open spec fn kind_text(kind: OperandKind) -> Seq<char> {
    match kind {
        OperandKind::PrivateKeys => "private keys"@,
        OperandKind::DestinationWallets => "destination wallets"@,
        OperandKind::TokenMints => "token mints"@,
        OperandKind::MintAddresses => "mint addresses"@,
        OperandKind::Wallets => "wallets"@,
    }
}

/// The message of a [`ValidationError`].
pub open spec fn validation_text(error: ValidationError) -> Seq<char> {
    match error {
        ValidationError::TooManyOperands { kind, given } => "Too many "@ + kind_text(kind)
            + " provided: "@ + decimal_digits(given as nat) + " (max: "@ + decimal_digits(
            MAX_OPERANDS as nat,
        ) + ")"@,
        ValidationError::NoOperands { kind } => "No "@ + kind_text(kind) + " provided"@,
        ValidationError::AmountNotPositive => "Amount must be greater than 0"@,
        ValidationError::PercentageOutOfRange => "Burn percentage must be between 0.1 and 100.0"@,
        ValidationError::InsufficientSourceBalance { required, available } =>
            "Insufficient balance in source wallet. Required: "@ + decimal_digits(required as nat)
                + " lamports, Available: "@ + decimal_digits(available as nat) + " lamports"@,
    }
}

/// The plural noun of an operand kind.
fn kind_name(kind: OperandKind) -> (name: &'static str)
    ensures
        name@ == kind_text(kind),
{
    match kind {
        OperandKind::PrivateKeys => "private keys",
        OperandKind::DestinationWallets => "destination wallets",
        OperandKind::TokenMints => "token mints",
        OperandKind::MintAddresses => "mint addresses",
        OperandKind::Wallets => "wallets",
    }
}

impl ValidationError {
    /// The message of the error.
    pub fn message(&self) -> (text: String)
        ensures
            text@ == validation_text(*self),
    {
        match self {
            ValidationError::TooManyOperands { kind, given } => {
                let mut text = String::from_str("Too many ");
                text.append(kind_name(*kind));
                text.append(" provided: ");
                push_decimal(&mut text, *given as u64);
                text.append(" (max: ");
                push_decimal(&mut text, MAX_OPERANDS as u64);
                text.append(")");
                text
            },
            ValidationError::NoOperands { kind } => {
                let mut text = String::from_str("No ");
                text.append(kind_name(*kind));
                text.append(" provided");
                text
            },
            ValidationError::AmountNotPositive => String::from_str("Amount must be greater than 0"),
            ValidationError::PercentageOutOfRange => String::from_str(
                "Burn percentage must be between 0.1 and 100.0",
            ),
            ValidationError::InsufficientSourceBalance { required, available } => {
                let mut text = String::from_str("Insufficient balance in source wallet. Required: ");
                push_decimal(&mut text, *required);
                text.append(" lamports, Available: ");
                push_decimal(&mut text, *available);
                text.append(" lamports");
                text
            },
        }
    }
}

/// What the shape of a request comes to: too many operands first, then none
/// at all where `allow_empty` is not set.
pub open spec fn count_verdict(kind: OperandKind, given: usize, allow_empty: bool) -> Result<
    (),
    ValidationError,
> {
    if given > MAX_OPERANDS {
        Err(ValidationError::TooManyOperands { kind, given })
    } else if given == 0 && !allow_empty {
        Err(ValidationError::NoOperands { kind })
    } else {
        Ok(())
    }
}

/// Checks the number of operands of a request.
pub fn validate_operand_count(kind: OperandKind, given: usize, allow_empty: bool) -> (verdict:
    Result<(), ValidationError>)
    ensures
        verdict == count_verdict(kind, given, allow_empty),
{
    if given > MAX_OPERANDS {
        Err(ValidationError::TooManyOperands { kind, given })
    } else if given == 0 && !allow_empty {
        Err(ValidationError::NoOperands { kind })
    } else {
        Ok(())
    }
}

/// What a request to move a fixed amount out of each of `keys` wallets comes
/// to: the number of wallets is judged first, then the amount.
pub open spec fn fixed_amount_verdict(keys: usize, amount: u64) -> Result<(), ValidationError> {
    if keys > MAX_OPERANDS {
        Err(ValidationError::TooManyOperands { kind: OperandKind::PrivateKeys, given: keys })
    } else if amount == 0 {
        Err(ValidationError::AmountNotPositive)
    } else if keys == 0 {
        Err(ValidationError::NoOperands { kind: OperandKind::PrivateKeys })
    } else {
        Ok(())
    }
}

/// Checks a request to move `amount` lamports out of each of `keys` wallets.
pub fn validate_fixed_amount(keys: usize, amount: u64) -> (verdict: Result<(), ValidationError>)
    ensures
        verdict == fixed_amount_verdict(keys, amount),
{
    if keys > MAX_OPERANDS {
        Err(ValidationError::TooManyOperands { kind: OperandKind::PrivateKeys, given: keys })
    } else if amount == 0 {
        Err(ValidationError::AmountNotPositive)
    } else if keys == 0 {
        Err(ValidationError::NoOperands { kind: OperandKind::PrivateKeys })
    } else {
        Ok(())
    }
}

/// What a request to destroy a share of `mints` holdings comes to: the share
/// is judged first, then the number of mints.
pub open spec fn burn_verdict(percentage_bp: u32, mints: usize) -> Result<(), ValidationError> {
    if percentage_bp == 0 || percentage_bp > FULL_BASIS_POINTS {
        Err(ValidationError::PercentageOutOfRange)
    } else if mints > MAX_OPERANDS {
        Err(ValidationError::TooManyOperands { kind: OperandKind::MintAddresses, given: mints })
    } else if mints == 0 {
        Err(ValidationError::NoOperands { kind: OperandKind::MintAddresses })
    } else {
        Ok(())
    }
}

/// Checks a request to destroy `percentage_bp` hundredths of a percent of the
/// holdings of `mints` mints.
pub fn validate_burn(percentage_bp: u32, mints: usize) -> (verdict: Result<(), ValidationError>)
    ensures
        verdict == burn_verdict(percentage_bp, mints),
{
    if percentage_bp == 0 || percentage_bp > FULL_BASIS_POINTS {
        Err(ValidationError::PercentageOutOfRange)
    } else if mints > MAX_OPERANDS {
        Err(ValidationError::TooManyOperands { kind: OperandKind::MintAddresses, given: mints })
    } else if mints == 0 {
        Err(ValidationError::NoOperands { kind: OperandKind::MintAddresses })
    } else {
        Ok(())
    }
}

/// The raw units that `percentage_bp` hundredths of a percent of `balance`
/// raw units are, rounded down.
pub open spec fn burn_share(balance: u64, percentage_bp: u32) -> int {
    balance * percentage_bp / (FULL_BASIS_POINTS as int)
}

/// The whole is the whole, and no share is more than the balance.
pub proof fn lemma_burn_share_bounds(balance: u64, percentage_bp: u32)
    requires
        percentage_bp <= FULL_BASIS_POINTS,
    ensures
        0 <= burn_share(balance, percentage_bp) <= balance,
        burn_share(balance, FULL_BASIS_POINTS) == balance,
{
    let b = balance as int;
    let p = percentage_bp as int;
    assert(b * p <= b * 10_000) by (nonlinear_arith)
        requires
            0 <= b,
            0 <= p <= 10_000,
    ;
    assert(0 <= b * p) by (nonlinear_arith)
        requires
            0 <= b,
            0 <= p,
    ;
    assert((b * p) / 10_000 <= (b * 10_000) / 10_000) by (nonlinear_arith)
        requires
            b * p <= b * 10_000,
    ;
    assert((b * 10_000) / 10_000 == b) by (nonlinear_arith);
    assert(0 <= (b * p) / 10_000) by (nonlinear_arith)
        requires
            0 <= b * p,
    ;
}

/// The raw amount to destroy of an account: the share of its balance, or
/// `None` for an account that holds nothing or for a share outside the range.
pub open spec fn burn_plan(balance: u64, percentage_bp: u32) -> Option<u64> {
    if balance == 0 || percentage_bp == 0 || percentage_bp > FULL_BASIS_POINTS {
        None
    } else {
        Some(burn_share(balance, percentage_bp) as u64)
    }
}

/// Computes the raw amount to destroy of an account that holds `balance` raw
/// units.
pub fn burn_amount(balance: u64, percentage_bp: u32) -> (amount: Option<u64>)
    ensures
        amount == burn_plan(balance, percentage_bp),
        amount matches Some(a) ==> a <= balance,
        percentage_bp == FULL_BASIS_POINTS && balance > 0 ==> amount == Some(balance),
{
    if balance == 0 || percentage_bp == 0 || percentage_bp > FULL_BASIS_POINTS {
        None
    } else {
        proof {
            lemma_burn_share_bounds(balance, percentage_bp);
        }
        let product: u128 = balance as u128 * percentage_bp as u128;
        Some((product / FULL_BASIS_POINTS as u128) as u64)
    }
}

/// What handing out `total` lamports in equal parts to `destinations`
/// wallets comes to: the part of each, rounded down, where the request is
/// well formed and the source holds the total.
pub open spec fn distribution_plan(source_balance: u64, total: u64, destinations: usize) -> Result<
    u64,
    ValidationError,
> {
    if destinations > MAX_OPERANDS {
        Err(
            ValidationError::TooManyOperands {
                kind: OperandKind::DestinationWallets,
                given: destinations,
            },
        )
    } else if destinations == 0 {
        Err(ValidationError::NoOperands { kind: OperandKind::DestinationWallets })
    } else if source_balance < total {
        Err(ValidationError::InsufficientSourceBalance { required: total, available: source_balance })
    } else {
        Ok((total / (destinations as u64)) as u64)
    }
}

/// Plans a distribution: the lamports that each destination receives. A
/// source that cannot cover the total ends the whole operation before any
/// chunk is sent.
pub fn plan_distribution(source_balance: u64, total: u64, destinations: usize) -> (plan: Result<
    u64,
    ValidationError,
>)
    ensures
        plan == distribution_plan(source_balance, total, destinations),
        plan matches Ok(share) ==> share * destinations <= total,
{
    match validate_operand_count(OperandKind::DestinationWallets, destinations, false) {
        Err(error) => Err(error),
        Ok(_) => {
            if source_balance < total {
                Err(
                    ValidationError::InsufficientSourceBalance {
                        required: total,
                        available: source_balance,
                    },
                )
            } else {
                let share = total / (destinations as u64);
                assert(share * destinations <= total) by (nonlinear_arith)
                    requires
                        share == total / (destinations as u64),
                        destinations > 0,
                ;
                Ok(share)
            }
        },
    }
}

} // verus!
