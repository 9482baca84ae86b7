use wallet_jobs::eligibility::{
    burn_amount, check_balance_sufficient, get_transferable_balance, plan_distribution,
    require_balance, validate_burn, validate_fixed_amount, validate_operand_count, OperandKind,
    ValidationError, FEE_BUFFER, MIN_RESERVE,
};
use wallet_jobs::keys::{resolve_keys, AddressError, KeyError};
use wallet_jobs::batch::{run_batches, BatchProgress};
use wallet_jobs::strategies::{
    count_settled, eligible_positions, key_rejections, merge_outcomes, overall_progress,
    preflight_fixed_amount, preflight_redistribute_all, report_signatures, standings, Rejection,
    Standing,
};

#[test]
fn fixed_amount_boundary_one_lamport_short_is_skipped() {
    let amount = 1_000_000u64;
    let needed = amount + MIN_RESERVE + FEE_BUFFER;
    assert_eq!(needed, 1_010_000);
    assert!(!check_balance_sufficient(needed - 1, amount, MIN_RESERVE));
    assert!(check_balance_sufficient(needed, amount, MIN_RESERVE));
    assert!(check_balance_sufficient(needed + 1, amount, MIN_RESERVE));
}

#[test]
fn sufficiency_does_not_overflow() {
    assert!(!check_balance_sufficient(u64::MAX, u64::MAX, u64::MAX));
    assert!(!check_balance_sufficient(u64::MAX, u64::MAX, 0));
    assert!(check_balance_sufficient(u64::MAX, u64::MAX - 5_000, 0));
    assert!(check_balance_sufficient(5_000, 0, 0));
    assert!(!check_balance_sufficient(4_999, 0, 0));
}

#[test]
fn transferable_balance_keeps_reserve_and_fee() {
    assert_eq!(get_transferable_balance(0, MIN_RESERVE), None);
    assert_eq!(get_transferable_balance(10_000, MIN_RESERVE), None);
    assert_eq!(get_transferable_balance(10_001, MIN_RESERVE), Some(1));
    assert_eq!(get_transferable_balance(1_000_000, MIN_RESERVE), Some(990_000));
    assert_eq!(get_transferable_balance(u64::MAX, u64::MAX), None);
    assert_eq!(get_transferable_balance(u64::MAX, 0), Some(u64::MAX - 5_000));
}

#[test]
fn burn_whole_holding_has_no_rounding_loss() {
    assert_eq!(burn_amount(1_000_000, 10_000), Some(1_000_000));
    assert_eq!(burn_amount(u64::MAX, 10_000), Some(u64::MAX));
    assert_eq!(burn_amount(1, 10_000), Some(1));
}

#[test]
fn burn_share_rounds_down() {
    assert_eq!(burn_amount(1_000_000, 5_000), Some(500_000));
    assert_eq!(burn_amount(1_000_000, 10), Some(1_000));
    assert_eq!(burn_amount(3, 5_000), Some(1));
    assert_eq!(burn_amount(1, 9_999), Some(0));
    assert_eq!(burn_amount(u64::MAX, 1), Some(u64::MAX / 10_000));
}

#[test]
fn burn_rejects_share_outside_range_and_empty_account() {
    assert_eq!(burn_amount(1_000_000, 0), None);
    assert_eq!(burn_amount(1_000_000, 10_001), None);
    assert_eq!(burn_amount(0, 5_000), None);
    assert_eq!(validate_burn(0, 1), Err(ValidationError::PercentageOutOfRange));
    assert_eq!(validate_burn(10_001, 1), Err(ValidationError::PercentageOutOfRange));
    assert_eq!(validate_burn(0, 0), Err(ValidationError::PercentageOutOfRange));
    assert_eq!(
        validate_burn(10_000, 0),
        Err(ValidationError::NoOperands { kind: OperandKind::MintAddresses })
    );
    assert_eq!(validate_burn(1, 1), Ok(()));
    assert_eq!(validate_burn(10_000, 3), Ok(()));
    assert_eq!(validate_burn(5_000, 200), Ok(()));
    assert_eq!(
        validate_burn(5_000, 201),
        Err(ValidationError::TooManyOperands { kind: OperandKind::MintAddresses, given: 201 })
    );
}

#[test]
fn operand_count_cap_is_two_hundred() {
    assert_eq!(validate_operand_count(OperandKind::PrivateKeys, 200, false), Ok(()));
    assert_eq!(
        validate_operand_count(OperandKind::PrivateKeys, 201, false),
        Err(ValidationError::TooManyOperands { kind: OperandKind::PrivateKeys, given: 201 })
    );
    assert_eq!(
        validate_operand_count(OperandKind::TokenMints, 0, false),
        Err(ValidationError::NoOperands { kind: OperandKind::TokenMints })
    );
    assert_eq!(validate_operand_count(OperandKind::TokenMints, 0, true), Ok(()));
}

#[test]
fn validation_messages_name_kind_and_numbers() {
    assert_eq!(
        ValidationError::TooManyOperands { kind: OperandKind::PrivateKeys, given: 201 }.message(),
        "Too many private keys provided: 201 (max: 200)"
    );
    assert_eq!(
        ValidationError::TooManyOperands { kind: OperandKind::DestinationWallets, given: 1000 }
            .message(),
        "Too many destination wallets provided: 1000 (max: 200)"
    );
    assert_eq!(
        ValidationError::NoOperands { kind: OperandKind::DestinationWallets }.message(),
        "No destination wallets provided"
    );
    assert_eq!(
        ValidationError::NoOperands { kind: OperandKind::TokenMints }.message(),
        "No token mints provided"
    );
    assert_eq!(
        ValidationError::NoOperands { kind: OperandKind::MintAddresses }.message(),
        "No mint addresses provided"
    );
    assert_eq!(
        ValidationError::NoOperands { kind: OperandKind::Wallets }.message(),
        "No wallets provided"
    );
    assert_eq!(ValidationError::AmountNotPositive.message(), "Amount must be greater than 0");
    assert_eq!(
        ValidationError::PercentageOutOfRange.message(),
        "Burn percentage must be between 0.1 and 100.0"
    );
    assert_eq!(
        ValidationError::InsufficientSourceBalance { required: 5_000_000_000, available: 7 }
            .message(),
        "Insufficient balance in source wallet. Required: 5000000000 lamports, Available: 7 lamports"
    );
}

#[test]
fn fixed_amount_request_is_judged_count_first() {
    assert_eq!(
        validate_fixed_amount(201, 0),
        Err(ValidationError::TooManyOperands { kind: OperandKind::PrivateKeys, given: 201 })
    );
    assert_eq!(validate_fixed_amount(3, 0), Err(ValidationError::AmountNotPositive));
    assert_eq!(
        validate_fixed_amount(0, 5),
        Err(ValidationError::NoOperands { kind: OperandKind::PrivateKeys })
    );
    assert_eq!(validate_fixed_amount(200, 1), Ok(()));
}

#[test]
fn distribution_fails_fast_when_source_cannot_cover_total() {
    assert_eq!(
        plan_distribution(999, 1_000, 4),
        Err(ValidationError::InsufficientSourceBalance { required: 1_000, available: 999 })
    );
    assert_eq!(plan_distribution(1_000, 1_000, 4), Ok(250));
    assert_eq!(plan_distribution(1_000, 1_000, 3), Ok(333));
    assert_eq!(plan_distribution(10, 0, 3), Ok(0));
    assert_eq!(
        plan_distribution(1_000, 1_000, 0),
        Err(ValidationError::NoOperands { kind: OperandKind::DestinationWallets })
    );
    assert_eq!(
        plan_distribution(0, 1_000, 201),
        Err(ValidationError::TooManyOperands { kind: OperandKind::DestinationWallets, given: 201 })
    );
}

#[test]
fn single_wallet_is_told_what_it_lacks() {
    assert_eq!(require_balance(1_010_000, 1_000_000, MIN_RESERVE), Ok(()));
    assert_eq!(
        require_balance(1_009_999, 1_000_000, MIN_RESERVE),
        Err(ValidationError::InsufficientSourceBalance { required: 1_010_000, available: 1_009_999 })
    );
    assert_eq!(
        require_balance(7, u64::MAX, MIN_RESERVE),
        Err(ValidationError::InsufficientSourceBalance { required: u64::MAX, available: 7 })
    );
}

#[test]
fn preflight_marks_each_wallet() {
    let balances = vec![0, 10_000, 10_001, 2_000_000];
    assert_eq!(
        preflight_redistribute_all(&balances, MIN_RESERVE),
        vec![None, None, Some(1), Some(1_990_000)]
    );
    assert_eq!(
        preflight_fixed_amount(&balances, 1, MIN_RESERVE),
        vec![false, false, true, true]
    );
    let all = standings(
        &vec![None, None, Some(Rejection::Key(KeyError::InvalidBase58)), None, None],
        &vec![false, true, true, true],
    );
    assert_eq!(
        all,
        vec![
            Standing::Skipped,
            Standing::Eligible,
            Standing::Rejected(Rejection::Key(KeyError::InvalidBase58)),
            Standing::Eligible,
            Standing::Skipped,
        ]
    );
    assert_eq!(eligible_positions(&all), vec![1, 3]);
    assert_eq!(count_settled(&all), 3);
    assert_eq!(eligible_positions(&Vec::new()), Vec::<usize>::new());
    assert_eq!(overall_progress(3, 0, 5), 3);
    assert_eq!(overall_progress(3, 2, 5), 5);
    assert_eq!(overall_progress(3, 9, 5), 5);
    assert_eq!(overall_progress(usize::MAX, usize::MAX, 5), 5);
    assert_eq!(Rejection::Address(AddressError::Invalid).message(), "invalid address: not base58");
}

#[test]
fn every_operand_gets_exactly_one_outcome() {
    let balances: Vec<u64> = vec![50_000, 0, 60_000, 9_000, 70_000, 80_000];
    let eligible = preflight_fixed_amount(&balances, 10_000, MIN_RESERVE);
    assert_eq!(eligible, vec![true, false, true, false, true, true]);
    let all = standings(&vec![None; 6], &eligible);
    let positions = eligible_positions(&all);
    let piped = run_batches(
        &positions[..],
        1,
        |chunk: &[usize]| chunk[0],
        |position: usize| {
            if position == 4 {
                Err(format!("wallet {} failed", position))
            } else {
                Ok(format!("sig-{}", position))
            }
        },
        |_p: BatchProgress| {},
    );
    let report = merge_outcomes(&all, &piped);
    assert_eq!(report.outcomes.len(), 6);
    assert_eq!(report.successful, 3);
    assert_eq!(report.failed, 1);
    assert_eq!(report.skipped, 2);
    for (i, outcome) in report.outcomes.iter().enumerate() {
        assert_eq!(outcome.operand_ref, i);
    }
    assert_eq!(report.outcomes[0].signature, Some("sig-0".to_string()));
    assert!(report.outcomes[1].skipped);
    assert_eq!(report.outcomes[1].error, Some("skipped: ineligible".to_string()));
    assert_eq!(report.outcomes[2].signature, Some("sig-2".to_string()));
    assert!(report.outcomes[3].skipped && !report.outcomes[3].success);
    assert_eq!(report.outcomes[4].error, Some("wallet 4 failed".to_string()));
    assert!(!report.outcomes[4].skipped);
    assert_eq!(report.outcomes[5].signature, Some("sig-5".to_string()));
    assert_eq!(
        report_signatures(&report),
        vec!["sig-0".to_string(), "sig-2".to_string(), "sig-5".to_string()]
    );
}

#[test]
fn wallet_with_undecodable_key_fails_alone() {
    let good_a = solana_sdk::signature::Keypair::new().to_base58_string();
    let good_b = solana_sdk::signature::Keypair::new().to_base58_string();
    let keys = vec![good_a, "not a key".to_string(), good_b];
    let resolved = resolve_keys(&keys);
    let rejections = key_rejections(&resolved);
    let balances = vec![1_000_000u64, 0, 1_000_000];
    let eligible = preflight_fixed_amount(&balances, 10_000, MIN_RESERVE);
    let all = standings(&rejections, &eligible);
    let positions = eligible_positions(&all);
    assert_eq!(positions, vec![0, 2]);
    let piped = run_batches(
        &positions[..],
        1,
        |chunk: &[usize]| chunk[0],
        |position: usize| Ok(format!("sig-{}", position)),
        |_p: BatchProgress| {},
    );
    let report = merge_outcomes(&all, &piped);
    assert_eq!((report.successful, report.failed, report.skipped), (2, 1, 0));
    assert!(report.outcomes[0].success);
    assert!(!report.outcomes[1].success && !report.outcomes[1].skipped);
    assert_eq!(report.outcomes[1].error, Some("invalid base58 key".to_string()));
    assert_eq!(report.outcomes[1].operand_ref, 1);
    assert!(report.outcomes[2].success);
}

#[test]
fn merge_marks_missing_pipeline_outcomes_as_failed() {
    let all = vec![Standing::Eligible, Standing::Eligible, Standing::Skipped, Standing::Eligible];
    let two = vec![0usize, 1];
    let piped = run_batches(
        &two[..],
        10,
        |chunk: &[usize]| chunk.len(),
        |_n: usize| Ok(String::from("s")),
        |_p: BatchProgress| {},
    );
    let report = merge_outcomes(&all, &piped);
    assert_eq!(report.successful, 2);
    assert_eq!(report.skipped, 1);
    assert_eq!(report.failed, 1);
    assert_eq!(report.outcomes[3].error, Some("not attempted".to_string()));
    assert_eq!(report.outcomes[3].operand_ref, 3);
}
