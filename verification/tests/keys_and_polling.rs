use solana_sdk::signature::Keypair;
use solana_sdk::signer::Signer;
use wallet_jobs::batch::BatchOperation;
use wallet_jobs::jobs::{JobManager, JobStatus};
use wallet_jobs::keys::{
    check_key_length, parse_address, parse_keypair, resolve_addresses, resolve_keys, AddressError,
    KeyError,
};
use wallet_jobs::long_polling::{LongPollConfig, LongPollingService, PollDecision};
use wallet_jobs::responses::{CreateTokenTransactionRes, TransactionRes};

#[test]
fn keypair_round_trips_through_base58() {
    let original = Keypair::new();
    let text = original.to_base58_string();
    let parsed = parse_keypair(&text).unwrap();
    assert_eq!(parsed.pubkey(), original.pubkey());
    assert_eq!(parsed.to_bytes(), original.to_bytes());
}

#[test]
fn bad_keys_are_turned_away_with_their_reason() {
    assert_eq!(parse_keypair("not base58 0OIl").err(), Some(KeyError::InvalidBase58));
    assert_eq!(parse_keypair("").err(), Some(KeyError::UnexpectedLength(0)));
    assert_eq!(
        parse_keypair("11111111111111111111111111111111").err(),
        Some(KeyError::UnexpectedLength(32))
    );
    let mut bytes = Keypair::new().to_bytes();
    bytes[40] ^= 0xff;
    let forged = bs58::encode(&bytes[..]).into_string();
    assert_eq!(parse_keypair(&forged).err(), Some(KeyError::InvalidKeypairBytes));
    assert_eq!(KeyError::InvalidBase58.message(), "invalid base58 key");
    assert_eq!(KeyError::UnexpectedLength(32).message(), "unexpected key length: 32 bytes");
    assert_eq!(KeyError::InvalidKeypairBytes.message(), "invalid keypair bytes");
}

#[test]
fn key_length_check_wants_sixty_four_bytes() {
    assert_eq!(check_key_length(&vec![0u8; 64]), Ok(()));
    assert_eq!(check_key_length(&vec![0u8; 63]), Err(KeyError::UnexpectedLength(63)));
    assert_eq!(check_key_length(&vec![0u8; 65]), Err(KeyError::UnexpectedLength(65)));
    assert_eq!(check_key_length(&Vec::new()), Err(KeyError::UnexpectedLength(0)));
}

#[test]
fn one_bad_key_stops_no_other_key() {
    let a = Keypair::new();
    let b = Keypair::new();
    let keys = vec![a.to_base58_string(), "!!".to_string(), b.to_base58_string(), "11".to_string()];
    let resolved = resolve_keys(&keys);
    assert_eq!(resolved.len(), 4);
    assert_eq!(resolved[0].as_ref().ok().map(|k| k.pubkey()), Some(a.pubkey()));
    assert_eq!(resolved[1].as_ref().err(), Some(&KeyError::InvalidBase58));
    assert_eq!(resolved[2].as_ref().ok().map(|k| k.pubkey()), Some(b.pubkey()));
    assert_eq!(resolved[3].as_ref().err(), Some(&KeyError::UnexpectedLength(2)));
    assert!(resolve_keys(&Vec::new()).is_empty());
}

#[test]
fn addresses_are_parsed_each_on_its_own() {
    let key = Keypair::new().pubkey();
    assert_eq!(parse_address(&key.to_string()), Ok(key));
    assert_eq!(
        parse_address("11111111111111111111111111111111").map(|p| p.to_bytes()),
        Ok([0u8; 32])
    );
    assert_eq!(parse_address("abc"), Err(AddressError::WrongSize));
    assert_eq!(parse_address("0OIl0OIl0OIl0OIl0OIl0OIl0OIl0OIl"), Err(AddressError::Invalid));
    assert!(parse_address(&"1".repeat(45)).is_err());
    let list = vec![key.to_string(), "bad".to_string(), key.to_string()];
    assert_eq!(resolve_addresses(&list), vec![Ok(key), Err(AddressError::WrongSize), Ok(key)]);
    assert_eq!(resolve_addresses(&Vec::new()), Vec::new());
    assert_eq!(AddressError::WrongSize.message(), "invalid address: wrong size");
    assert_eq!(AddressError::Invalid.message(), "invalid address: not base58");
}

#[test]
fn a_group_of_jobs_starts_running_with_distinct_ids_in_order() {
    let mut manager = JobManager::new();
    manager.create_job("earlier", 1);
    let ids = LongPollingService::start_job_chunk(&mut manager, "close_accounts", 3, 7);
    assert_eq!(ids, vec!["job-1".to_string(), "job-2".to_string(), "job-3".to_string()]);
    assert_eq!(manager.len(), 4);
    for id in &ids {
        let info = manager.get_info(id).unwrap();
        assert_eq!(info.status, JobStatus::Running);
        assert_eq!(info.kind, "close_accounts");
        assert_eq!(info.created_at, 7);
    }
    assert_eq!(manager.get_info("job-0").unwrap().status, JobStatus::Pending);
    assert!(LongPollingService::start_job_chunk(&mut manager, "k", 0, 8).is_empty());
    assert_eq!(manager.len(), 4);
    let mut all = Vec::new();
    for group in LongPollingService::start_controlled_batch(5, 2) {
        all.extend(LongPollingService::start_job_chunk(&mut manager, "k", group.end - group.start, 9));
    }
    assert_eq!(all.len(), 5);
    assert_eq!(all[0], "job-4");
    assert_eq!(all[4], "job-8");
}

#[test]
fn default_poll_config() {
    let config = LongPollConfig::default();
    assert_eq!(config.timeout_ms, 30_000);
    assert_eq!(config.poll_interval_ms, 500);
    assert_eq!(config.max_retries, 3);
}

#[test]
fn single_poll_decides_done_wait_or_timeout() {
    let mut manager = JobManager::new();
    let id = manager.spawn_job("x", 1);
    assert!(matches!(
        LongPollingService::poll_single_job("job-9", &manager, None, 0),
        PollDecision::NotFound
    ));
    assert!(matches!(
        LongPollingService::poll_single_job(&id, &manager, None, 29_999),
        PollDecision::Wait(500)
    ));
    assert!(matches!(
        LongPollingService::poll_single_job(&id, &manager, None, 30_000),
        PollDecision::TimedOut
    ));
    let config = LongPollConfig { timeout_ms: 100, poll_interval_ms: 7, max_retries: 0 };
    assert!(matches!(
        LongPollingService::poll_single_job(&id, &manager, Some(config), 99),
        PollDecision::Wait(7)
    ));
    assert!(matches!(
        LongPollingService::poll_single_job(&id, &manager, Some(config), 100),
        PollDecision::TimedOut
    ));
    manager.finish_job(&id, Ok(()), 2);
    match LongPollingService::poll_single_job(&id, &manager, Some(config), 1_000_000) {
        PollDecision::Done(job) => assert_eq!(job.status, JobStatus::Succeeded),
        _ => panic!("a job that has ended is done even after the time allowed"),
    }
}

#[test]
fn batch_poll_tallies_statuses() {
    let mut manager = JobManager::new();
    let a = manager.spawn_job("a", 1);
    let b = manager.spawn_job("b", 1);
    let c = manager.spawn_job("c", 1);
    let d = manager.create_job("d", 1);
    manager.finish_job(&a, Ok(()), 2);
    manager.finish_job(&b, Err("e".to_string()), 2);
    manager.cancel_job(&c, 2);
    let ids = vec![a.clone(), b.clone(), "job-99".to_string(), c.clone(), d.clone()];
    let (result, over) = LongPollingService::poll_batch_jobs("batch-1", &ids, &manager, None, 10);
    assert_eq!(result.batch_id, "batch-1");
    assert_eq!(result.job_ids, ids);
    assert_eq!(result.total_jobs, 5);
    assert_eq!(result.jobs.len(), 4);
    assert_eq!(result.completed_jobs, 1);
    assert_eq!(result.failed_jobs, 1);
    assert_eq!(result.cancelled_jobs, 1);
    assert!(!over);
    let (_, timed_out) = LongPollingService::poll_batch_jobs("batch-1", &ids, &manager, None, 30_000);
    assert!(timed_out);
    let ended = vec![a, b, c];
    let (done, over) = LongPollingService::poll_batch_jobs("batch-2", &ended, &manager, None, 0);
    assert!(over);
    assert_eq!(done.completed_jobs + done.failed_jobs + done.cancelled_jobs, 3);
}

#[test]
fn controlled_batch_groups_are_bounded() {
    assert_eq!(
        LongPollingService::start_controlled_batch(7, 3),
        vec![
            BatchOperation { index: 0, start: 0, end: 3 },
            BatchOperation { index: 1, start: 3, end: 6 },
            BatchOperation { index: 2, start: 6, end: 7 },
        ]
    );
    assert_eq!(LongPollingService::start_controlled_batch(0, 3), Vec::new());
    assert_eq!(
        LongPollingService::start_controlled_batch(2, 5),
        vec![BatchOperation { index: 0, start: 0, end: 2 }]
    );
}

#[test]
fn responses_mirror_the_outcome() {
    let ok = TransactionRes::from_outcome(Ok("sig".to_string()));
    assert!(ok.ok);
    assert_eq!(ok.tx_sig, Some("sig".to_string()));
    assert_eq!(ok.error, None);
    let err = TransactionRes::from_outcome(Err("no".to_string()));
    assert!(!err.ok);
    assert_eq!(err.tx_sig, None);
    assert_eq!(err.error, Some("no".to_string()));
    let made = CreateTokenTransactionRes::from_outcome("Mint".to_string(), Ok("sig".to_string()));
    assert!(made.ok);
    assert_eq!(made.mint, Some("Mint".to_string()));
    assert_eq!(made.tx_sig, Some("sig".to_string()));
    let lost = CreateTokenTransactionRes::from_outcome("Mint".to_string(), Err("e".to_string()));
    assert!(!lost.ok);
    assert_eq!(lost.mint, None);
    assert_eq!(lost.tx_sig, None);
    assert_eq!(lost.error, Some("e".to_string()));
}
