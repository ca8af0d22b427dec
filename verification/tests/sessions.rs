use solana_tx_retry::backoff::{jittered_delay, spread_delay};
use solana_tx_retry::config::{CommitmentLevel, RetryConfig};
use solana_tx_retry::keys::{Blockhash, Pubkey, Signature};
use solana_tx_retry::preflight_cache::SimulationResult;
use solana_tx_retry::retry_engine::{
    is_blockhash_expired, run_simulation, send_options, Action, Event, SendSession,
};
use solana_sdk::signature::keypair_from_seed;
use solana_sdk::signer::Signer;
use solana_tx_retry::transaction::{Keypair, Message, Transaction};
use solana_tx_retry::{RetryEngine, RetryError, RetryStats, TxStatus};
use std::time::Duration;

fn signature(n: u8) -> Signature {
    Signature { bytes: [n; 64] }
}

fn signature_text(n: u8) -> String {
    solana_sdk::signature::Signature::from([n; 64]).to_string()
}

fn signer() -> Keypair {
    Keypair { bytes: keypair_from_seed(&[42; 32]).unwrap().to_bytes() }
}

fn transaction(n: u8) -> Transaction {
    Transaction {
        signatures: vec![signature(n)],
        message: Message {
            num_required_signatures: 1,
            num_readonly_signed_accounts: 0,
            num_readonly_unsigned_accounts: 0,
            account_keys: vec![Pubkey {
                bytes: keypair_from_seed(&[42; 32]).unwrap().pubkey().to_bytes(),
            }],
            recent_blockhash: Blockhash { bytes: [n; 32] },
            instructions: vec![],
        },
    }
}

fn begin(config: RetryConfig) -> (RetryEngine, SendSession, Action) {
    let mut engine = RetryEngine::new(config);
    let mut session = engine.send_with_retry(transaction(1), &signer());
    let action = engine.advance(&mut session, Event::Start);
    (engine, session, action)
}

fn unrouted(max_retries: u32) -> RetryConfig {
    RetryConfig { max_retries, preflight_enabled: false, use_leader_routing: false, ..RetryConfig::default() }
}

fn success(action: Action) -> RetryStats {
    match action {
        Action::Finish(Ok(stats)) => stats,
        _ => panic!("not a success"),
    }
}

fn failure(action: Action) -> RetryError {
    match action {
        Action::Finish(Err(error)) => error,
        _ => panic!("not a failure"),
    }
}

#[test]
fn a_transaction_is_confirmed_at_the_first_attempt() {
    let (mut engine, mut session, action) = begin(RetryConfig::default());
    assert!(matches!(action, Action::Simulate));
    let action = engine.advance(&mut session, Event::Simulated(Ok(None)));
    assert!(matches!(action, Action::SendToLeader));
    assert_eq!(engine.preflight_cache.len(), 1);
    let action = engine.advance(&mut session, Event::LeaderSent(false));
    match action {
        Action::Submit(options) => {
            assert!(options.skip_preflight);
            assert_eq!(options.max_retries, 0);
        }
        _ => panic!("not submitted"),
    }
    match engine.advance(&mut session, Event::Submitted(Ok(signature(1)))) {
        Action::AwaitConfirmation { signature: s, commitment, timeout } => {
            assert_eq!(s, signature(1));
            assert_eq!(commitment, CommitmentLevel::Confirmed);
            assert_eq!(timeout, Duration::from_millis(5000));
        }
        _ => panic!("not watched"),
    }
    let stats = success(engine.advance(&mut session, Event::Watched(Ok(TxStatus::Confirmed))));
    assert_eq!(stats.signature, signature(1));
    assert_eq!(stats.attempts, 1);
    assert_eq!(stats.blockhash_refreshes, 0);
    assert!(!stats.used_leader_routing);
    assert!(engine.preflight_cache.is_empty());
}

#[test]
fn a_transaction_that_a_leader_was_handed_is_not_submitted() {
    let (mut engine, mut session, action) =
        begin(RetryConfig { preflight_enabled: false, ..RetryConfig::default() });
    assert!(matches!(action, Action::SendToLeader));
    match engine.advance(&mut session, Event::LeaderSent(true)) {
        Action::AwaitConfirmation { signature: s, .. } => assert_eq!(s, signature(1)),
        _ => panic!("not watched"),
    }
    let stats = success(engine.advance(&mut session, Event::Watched(Ok(TxStatus::Confirmed))));
    assert!(stats.used_leader_routing);
    assert_eq!(stats.attempts, 1);
    let unsigned = Transaction { signatures: vec![], ..transaction(1) };
    let mut session = engine.send_with_retry(unsigned, &signer());
    assert!(matches!(engine.advance(&mut session, Event::Start), Action::Submit(_)));
}

#[test]
fn a_failed_simulation_ends_the_session_and_is_remembered() {
    let (mut engine, mut session, _) = begin(RetryConfig::default());
    let action = engine.advance(&mut session, Event::Simulated(Ok(Some("no funds".to_string()))));
    match failure(action) {
        RetryError::PreflightFailed(why) => assert_eq!(why, "no funds"),
        other => panic!("{:?}", other),
    }
    let mut again = engine.send_with_retry(transaction(1), &signer());
    match failure(engine.advance(&mut again, Event::Start)) {
        RetryError::PreflightFailed(why) => assert_eq!(why, "no funds"),
        other => panic!("{:?}", other),
    }
    let mut renewed = engine.send_with_retry(transaction(2), &signer());
    assert!(matches!(engine.advance(&mut renewed, Event::Start), Action::Simulate));
}

#[test]
fn a_good_simulation_is_remembered_until_its_time_to_live_has_passed() {
    let (engine, _, _) = begin(RetryConfig::default());
    let mut engine = engine;
    engine.preflight_cache.insert_at(
        transaction(1).message_key(),
        SimulationResult::Success,
        Blockhash { bytes: [1; 32] },
        Duration::from_secs(100),
    );
    let mut session = engine.send_with_retry(transaction(1), &signer());
    let action = engine.advance_at(&mut session, Event::Start, Duration::from_secs(160));
    assert!(matches!(action, Action::SendToLeader));
    let mut session = engine.send_with_retry(transaction(1), &signer());
    let action = engine.advance_at(&mut session, Event::Start, Duration::from_secs(161));
    assert!(matches!(action, Action::Simulate));
}

#[test]
fn a_client_failure_during_the_simulation_ends_the_session() {
    let (mut engine, mut session, _) = begin(RetryConfig::default());
    let action = engine.advance(&mut session, Event::Simulated(Err("down".to_string())));
    match failure(action) {
        RetryError::RpcError(why) => assert_eq!(why, "down"),
        other => panic!("{:?}", other),
    }
    assert!(engine.preflight_cache.is_empty());
}

#[test]
fn a_rejected_transaction_is_not_sent_again() {
    let (mut engine, mut session, action) = begin(unrouted(5));
    assert!(matches!(action, Action::Submit(_)));
    engine.advance(&mut session, Event::Submitted(Ok(signature(7))));
    let failed = TxStatus::Failed { reason: "custom program error".to_string() };
    match failure(engine.advance(&mut session, Event::Watched(Ok(failed)))) {
        RetryError::TransactionRejected { reason, signature } => {
            assert_eq!(reason, "custom program error");
            assert_eq!(signature, signature_text(7));
        }
        other => panic!("{:?}", other),
    }
}

#[test]
fn attempts_run_out() {
    let (mut engine, mut session, _) = begin(unrouted(2));
    for attempt in 1..=2u32 {
        assert_eq!(session.attempts(), attempt);
        engine.advance(&mut session, Event::Submitted(Ok(signature(1))));
        let action = engine.advance(&mut session, Event::Watched(Ok(TxStatus::Dropped)));
        assert!(matches!(action, Action::CheckBlockhash { commitment: CommitmentLevel::Processed }));
        match engine.advance(&mut session, Event::BlockhashChecked(Ok(true))) {
            Action::Backoff { attempt: a, left } => {
                assert_eq!(a, attempt);
                assert_eq!(left, None);
            }
            _ => panic!("no backoff"),
        }
        let action = engine.advance(&mut session, Event::BackedOff);
        if attempt == 1 {
            assert!(matches!(action, Action::Submit(_)));
        } else {
            match failure(action) {
                RetryError::MaxRetriesExceeded { attempts, signature } => {
                    assert_eq!(attempts, 2);
                    assert_eq!(signature, signature_text(1));
                }
                other => panic!("{:?}", other),
            }
        }
    }
}

#[test]
fn no_attempt_is_made_where_none_is_allowed() {
    let mut engine = RetryEngine::new(unrouted(0));
    let unsigned = Transaction { signatures: vec![], ..transaction(1) };
    let mut session = engine.send_with_retry(unsigned, &signer());
    match failure(engine.advance(&mut session, Event::Start)) {
        RetryError::MaxRetriesExceeded { attempts, signature } => {
            assert_eq!(attempts, 0);
            assert_eq!(signature, "");
        }
        other => panic!("{:?}", other),
    }
}

#[test]
fn a_fresh_block_hash_is_free() {
    let (mut engine, mut session, _) = begin(unrouted(1));
    for round in 0..3u32 {
        assert_eq!(session.attempts(), 1 + round);
        assert_eq!(session.blockhash_refreshes(), round);
        let action = if round == 0 {
            engine.advance(&mut session, Event::Submitted(Err("lost".to_string())))
        } else {
            engine.advance(&mut session, Event::Submitted(Ok(signature(1))));
            let timeout = RetryError::ConfirmationTimeout { timeout_secs: 1, signature: String::new() };
            engine.advance(&mut session, Event::Watched(Err(timeout)))
        };
        assert!(matches!(action, Action::CheckBlockhash { .. }));
        let action = engine.advance(&mut session, Event::BlockhashChecked(Ok(false)));
        assert!(matches!(action, Action::RefreshBlockhash { commitment: CommitmentLevel::Finalized }));
        let action = engine.advance(&mut session, Event::Refreshed(Ok(Blockhash { bytes: [10 + round as u8; 32] })));
        assert!(matches!(action, Action::Submit(_)));
        assert_eq!(session.transaction().message.recent_blockhash.bytes, [10 + round as u8; 32]);
        assert_eq!(session.tx_key(), transaction(1).message_key());
    }
    engine.advance(&mut session, Event::Submitted(Ok(signature(9))));
    let stats = success(engine.advance(&mut session, Event::Watched(Ok(TxStatus::Finalized))));
    assert_eq!(stats.attempts, 4);
    assert_eq!(stats.blockhash_refreshes, 3);
    assert!(!stats.used_leader_routing);
}

#[test]
fn a_session_ends_within_its_bounds_and_tells_how_often_it_submitted() {
    let config = RetryConfig { skip_preflight_on_retry: false, ..RetryConfig::default() };
    let mut engine = RetryEngine::new(config);
    let mut session = engine.send_with_retry(transaction(1), &signer());
    let mut event = Event::Start;
    let (mut events, mut submitted, mut renewed) = (0u32, 0u32, 0u8);
    let stats = loop {
        events += 1;
        event = match engine.advance(&mut session, event) {
            Action::Simulate => Event::Simulated(Ok(None)),
            Action::SendToLeader => Event::LeaderSent(false),
            Action::Submit(_) => {
                submitted += 1;
                Event::Submitted(Ok(signature(1)))
            }
            Action::AwaitConfirmation { .. } => Event::Watched(Ok(if submitted == 9 {
                TxStatus::Confirmed
            } else {
                TxStatus::Pending
            })),
            Action::CheckBlockhash { .. } => Event::BlockhashChecked(Ok(submitted % 3 != 0)),
            Action::RefreshBlockhash { .. } => {
                renewed += 1;
                Event::Refreshed(Ok(Blockhash { bytes: [1 + renewed; 32] }))
            }
            Action::Backoff { .. } => Event::BackedOff,
            Action::Finish(outcome) => break outcome.unwrap(),
        };
    };
    assert_eq!(stats.blockhash_refreshes, 2);
    assert_eq!(stats.attempts, 9);
    assert_eq!(submitted, stats.attempts);
    assert!(events <= 6 * 10 + 1 + 6 * stats.blockhash_refreshes);
}

#[test]
fn the_second_try_is_the_second_attempt() {
    let (mut engine, mut session, _) = begin(unrouted(10));
    engine.advance(&mut session, Event::Submitted(Err("lost".to_string())));
    engine.advance(&mut session, Event::BlockhashChecked(Ok(false)));
    let fresh = Blockhash { bytes: [7; 32] };
    let action =
        engine.resume_at(&mut session, fresh, Some(vec![signature(7)]), Duration::from_secs(1));
    assert!(matches!(action, Action::Submit(_)));
    assert_eq!(session.transaction().message.recent_blockhash, fresh);
    assert_eq!(session.transaction().signatures, vec![signature(7)]);
    engine.advance(&mut session, Event::Submitted(Ok(signature(7))));
    let stats = success(engine.advance(&mut session, Event::Watched(Ok(TxStatus::Confirmed))));
    assert_eq!(stats.signature, signature(7));
    assert_eq!(stats.attempts, 2);
    assert_eq!(stats.blockhash_refreshes, 1);
}

#[test]
fn a_transaction_that_cannot_be_signed_anew_ends_the_session() {
    let mut two = transaction(1);
    two.message.num_required_signatures = 2;
    let mut engine = RetryEngine::new(unrouted(3));
    let mut session = engine.send_with_retry(two, &signer());
    engine.advance(&mut session, Event::Start);
    engine.advance(&mut session, Event::Submitted(Err("lost".to_string())));
    engine.advance(&mut session, Event::BlockhashChecked(Ok(false)));
    let action = engine.advance(&mut session, Event::Refreshed(Ok(Blockhash { bytes: [7; 32] })));
    assert!(matches!(failure(action), RetryError::BlockhashExpired));
}

#[test]
fn the_safe_preset_ends_within_a_minute() {
    let mut engine = RetryEngine::new(RetryConfig::safe());
    let mut session = engine.send_with_retry(transaction(1), &signer());
    let begun = Duration::from_secs(1000);
    let mut now = begun;
    let mut event = Event::Start;
    let error = loop {
        event = match engine.advance_at(&mut session, event, now) {
            Action::Simulate => Event::Simulated(Ok(None)),
            Action::SendToLeader => Event::LeaderSent(false),
            Action::Submit(_) => Event::Submitted(Ok(signature(1))),
            Action::AwaitConfirmation { timeout, .. } => {
                now += Duration::from_millis((timeout.as_millis() as u64 + 499) / 500 * 500);
                let late = RetryError::ConfirmationTimeout { timeout_secs: 14, signature: String::new() };
                Event::Watched(Err(late))
            }
            Action::CheckBlockhash { .. } => Event::BlockhashChecked(Ok(true)),
            Action::RefreshBlockhash { .. } => panic!("the block hash is valid"),
            Action::Backoff { attempt, left } => {
                now += engine.backoff_within(attempt, left);
                Event::BackedOff
            }
            Action::Finish(outcome) => break outcome.unwrap_err(),
        };
    };
    assert_eq!(now, begun + Duration::from_secs(60));
    match error {
        RetryError::ConfirmationTimeout { timeout_secs, signature } => {
            assert_eq!(timeout_secs, 60);
            assert_eq!(signature, signature_text(1));
        }
        other => panic!("{:?}", other),
    }
}

#[test]
fn a_failed_refresh_ends_the_session() {
    let (mut engine, mut session, _) = begin(unrouted(3));
    engine.advance(&mut session, Event::Submitted(Err("lost".to_string())));
    engine.advance(&mut session, Event::BlockhashChecked(Ok(false)));
    match failure(engine.advance(&mut session, Event::Refreshed(Err("down".to_string())))) {
        RetryError::RpcError(why) => assert_eq!(why, "down"),
        other => panic!("{:?}", other),
    }
}

#[test]
fn other_errors_of_the_wait_are_handed_on() {
    let (mut engine, mut session, _) = begin(unrouted(3));
    engine.advance(&mut session, Event::Submitted(Ok(signature(1))));
    let error = RetryError::Internal("odd".to_string());
    match failure(engine.advance(&mut session, Event::Watched(Err(error)))) {
        RetryError::Internal(why) => assert_eq!(why, "odd"),
        other => panic!("{:?}", other),
    }
}

#[test]
fn success_needs_the_commitment_level_asked_for() {
    for (level, enough) in [
        (CommitmentLevel::Processed, TxStatus::Processed),
        (CommitmentLevel::Confirmed, TxStatus::Confirmed),
        (CommitmentLevel::Finalized, TxStatus::Finalized),
    ] {
        let (mut engine, mut session, _) = begin(RetryConfig { commitment: level, ..unrouted(3) });
        engine.advance(&mut session, Event::Submitted(Ok(signature(1))));
        success(engine.advance(&mut session, Event::Watched(Ok(enough))));
    }
    let (mut engine, mut session, _) =
        begin(RetryConfig { commitment: CommitmentLevel::Finalized, ..unrouted(3) });
    engine.advance(&mut session, Event::Submitted(Ok(signature(1))));
    let action = engine.advance(&mut session, Event::Watched(Ok(TxStatus::Confirmed)));
    assert!(matches!(action, Action::CheckBlockhash { .. }));
}

#[test]
fn later_attempts_are_simulated_where_asked_for() {
    for (skip, simulated) in [(true, false), (false, true)] {
        let config = RetryConfig {
            preflight_enabled: true,
            skip_preflight_on_retry: skip,
            ..unrouted(3)
        };
        let (mut engine, mut session, action) = begin(config);
        assert!(matches!(action, Action::Simulate));
        engine.advance(&mut session, Event::Simulated(Ok(None)));
        engine.preflight_cache.remove(&transaction(1).message_key());
        engine.advance(&mut session, Event::Submitted(Err("lost".to_string())));
        engine.advance(&mut session, Event::BlockhashChecked(Err("down".to_string())));
        let action = engine.advance(&mut session, Event::BackedOff);
        assert_eq!(matches!(action, Action::Simulate), simulated);
        assert_eq!(session.attempts(), 2);
    }
}

#[test]
fn replies_are_read() {
    assert!(run_simulation(Ok(None)).is_ok());
    assert!(matches!(run_simulation(Ok(Some("x".to_string()))), Err(RetryError::PreflightFailed(_))));
    assert!(matches!(run_simulation(Err("x".to_string())), Err(RetryError::RpcError(_))));
    assert!(is_blockhash_expired(Ok(false)));
    assert!(!is_blockhash_expired(Ok(true)));
    assert!(!is_blockhash_expired(Err("x".to_string())));
    assert!(send_options().skip_preflight);
}

#[test]
fn the_wait_for_a_confirmation_is_shared_out() {
    assert_eq!(RetryConfig::default().attempt_timeout(), Duration::from_millis(5000));
    assert_eq!(RetryConfig::high_throughput().attempt_timeout(), Duration::from_millis(3500));
    assert_eq!(RetryConfig::safe().attempt_timeout(), Duration::from_millis(14000));
    assert!(RetryConfig::safe().has_attempt_timeout());
    let endless = RetryConfig {
        max_retries: 1,
        confirmation_timeout: Duration::from_millis(u64::MAX),
        ..RetryConfig::default()
    };
    assert!(!endless.has_attempt_timeout());
}

#[test]
fn the_backoff_is_moved_by_up_to_a_fifth() {
    assert_eq!(jittered_delay(1000, 5000, 0), 800);
    assert_eq!(jittered_delay(1000, 5000, 200), 1000);
    assert_eq!(jittered_delay(1000, 5000, 400), 1200);
    assert_eq!(jittered_delay(5000, 5000, 2000), 5000);
    assert_eq!(jittered_delay(5000, 5000, 0), 4000);
    assert_eq!(jittered_delay(4, 5000, 0), 4);
    assert_eq!(jittered_delay(u64::MAX, u64::MAX, u64::MAX), u64::MAX);
    let engine = RetryEngine::new(RetryConfig::default());
    assert_eq!(engine.backoff_within(9, Some(Duration::from_millis(7))), Duration::from_millis(7));
    assert!(engine.backoff_within(9, Some(Duration::from_secs(9))) <= Duration::from_secs(5));
    let mut seen = Vec::new();
    for _ in 0..200 {
        let wait = engine.backoff(2);
        assert!(wait >= Duration::from_millis(640) && wait <= Duration::from_millis(960));
        seen.push(wait);
        let longest = engine.backoff(40);
        assert!(longest >= Duration::from_millis(4000) && longest <= Duration::from_millis(5000));
        let shifted = spread_delay(100, 1000);
        assert!(shifted >= 80 && shifted <= 120);
    }
    assert!(seen.iter().any(|wait| *wait != seen[0]));
    assert!(seen.iter().any(|wait| *wait < Duration::from_millis(800)));
    assert!(seen.iter().any(|wait| *wait > Duration::from_millis(800)));
    assert_eq!(spread_delay(4, 1000), 4);
    assert_eq!(spread_delay(0, 0), 0);
}
