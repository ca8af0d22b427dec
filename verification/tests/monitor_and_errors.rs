use solana_tx_retry::config::CommitmentLevel;
use solana_tx_retry::keys::Signature;
use solana_tx_retry::tx_monitor::{
    ConfirmationStatus, ConfirmationWatch, SignatureStatus, TxMonitor, WatchAction, WatchEvent,
};
use solana_tx_retry::{RetryError, TxStatus};
use std::time::Duration;

fn report(
    err: Option<&str>,
    confirmation_status: Option<ConfirmationStatus>,
    confirmations: Option<usize>,
) -> SignatureStatus {
    SignatureStatus { err: err.map(|e| e.to_string()), confirmation_status, confirmations }
}

fn status(status: SignatureStatus) -> TxStatus {
    TxMonitor::new().check_status(Ok(vec![Some(status)])).unwrap()
}

fn watch(desired: CommitmentLevel) -> ConfirmationWatch {
    TxMonitor::new().wait_for_confirmation(
        &Signature { bytes: [3; 64] },
        desired,
        Duration::from_millis(2500),
    )
}

#[test]
fn reports_are_classified() {
    assert_eq!(status(report(None, Some(ConfirmationStatus::Processed), None)), TxStatus::Processed);
    assert_eq!(status(report(None, Some(ConfirmationStatus::Confirmed), None)), TxStatus::Confirmed);
    assert_eq!(status(report(None, Some(ConfirmationStatus::Finalized), None)), TxStatus::Finalized);
    assert_eq!(status(report(None, None, Some(1))), TxStatus::Confirmed);
    assert_eq!(status(report(None, None, Some(0))), TxStatus::Pending);
    assert_eq!(status(report(None, None, None)), TxStatus::Pending);
    assert_eq!(
        status(report(Some("bad"), Some(ConfirmationStatus::Finalized), Some(9))),
        TxStatus::Failed { reason: "bad".to_string() }
    );
}

#[test]
fn the_first_report_counts() {
    let monitor = TxMonitor::new();
    assert_eq!(monitor.check_status(Ok(vec![])).unwrap(), TxStatus::Pending);
    assert_eq!(
        monitor
            .check_status(Ok(vec![None, Some(report(None, Some(ConfirmationStatus::Confirmed), None))]))
            .unwrap(),
        TxStatus::Pending
    );
    match monitor.check_status(Err("down".to_string())) {
        Err(RetryError::RpcError(why)) => assert_eq!(why, "down"),
        other => panic!("{:?}", other),
    }
    assert_eq!(monitor.poll_interval, Duration::from_millis(500));
}

#[test]
fn confirmed_needs_a_supermajority() {
    let monitor = TxMonitor::new();
    let asked = |s: ConfirmationStatus| monitor.is_confirmed(Ok(vec![Some(report(None, Some(s), None))]));
    assert!(!asked(ConfirmationStatus::Processed));
    assert!(asked(ConfirmationStatus::Confirmed));
    assert!(asked(ConfirmationStatus::Finalized));
    assert!(!monitor.is_confirmed(Ok(vec![])));
    assert!(!monitor.is_confirmed(Ok(vec![Some(report(Some("e"), Some(ConfirmationStatus::Confirmed), None))])));
    assert!(!monitor.is_confirmed(Err("down".to_string())));
}

fn ending(watch: ConfirmationWatch, answer: Result<TxStatus, RetryError>) -> Option<TxStatus> {
    match watch.next(WatchEvent::Answered(answer)) {
        WatchAction::Finish(Ok(status)) => Some(status),
        WatchAction::Sleep { interval } => {
            assert_eq!(interval, Duration::from_millis(500));
            None
        }
        _ => panic!("neither an ending nor a sleep"),
    }
}

#[test]
fn the_wait_ends_at_the_desired_level() {
    let statuses = [TxStatus::Processed, TxStatus::Confirmed, TxStatus::Finalized];
    let levels = [CommitmentLevel::Processed, CommitmentLevel::Confirmed, CommitmentLevel::Finalized];
    for (i, level) in levels.iter().enumerate() {
        for (j, status) in statuses.iter().enumerate() {
            let ended = ending(watch(*level), Ok(status.clone()));
            assert_eq!(ended, if j >= i { Some(status.clone()) } else { None });
        }
        assert_eq!(ending(watch(*level), Ok(TxStatus::Pending)), None);
        assert_eq!(ending(watch(*level), Ok(TxStatus::Dropped)), Some(TxStatus::Dropped));
        let failed = TxStatus::Failed { reason: "r".to_string() };
        assert_eq!(ending(watch(*level), Ok(failed.clone())), Some(failed));
        assert_eq!(ending(watch(*level), Err(RetryError::BlockhashExpired)), None);
    }
}

#[test]
fn the_wait_ends_when_the_time_is_up() {
    let watch = watch(CommitmentLevel::Confirmed);
    for elapsed in [Duration::from_millis(0), Duration::from_nanos(2_499_999_999)] {
        assert!(matches!(watch.next(WatchEvent::Ready { elapsed }), WatchAction::Ask));
    }
    match watch.next(WatchEvent::Ready { elapsed: Duration::from_millis(2500) }) {
        WatchAction::Finish(Err(RetryError::ConfirmationTimeout { timeout_secs, signature })) => {
            assert_eq!(timeout_secs, 2);
            assert_eq!(signature, solana_sdk::signature::Signature::from([3u8; 64]).to_string());
        }
        _ => panic!("not late"),
    }
}

#[test]
fn a_wait_asks_as_often_as_intervals_cover_its_timeout() {
    for (timeout, expected) in [(0, 0), (1, 1), (499, 1), (500, 1), (1999, 4), (2000, 4), (2001, 5)] {
        let watch = TxMonitor::new().wait_for_confirmation(
            &Signature { bytes: [3; 64] },
            CommitmentLevel::Confirmed,
            Duration::from_millis(timeout),
        );
        let (mut elapsed, mut asked) = (Duration::ZERO, 0);
        let mut event = WatchEvent::Ready { elapsed };
        loop {
            event = match watch.next(event) {
                WatchAction::Ask => {
                    asked += 1;
                    WatchEvent::Answered(Ok(TxStatus::Pending))
                }
                WatchAction::Sleep { interval } => {
                    elapsed += interval;
                    WatchEvent::Ready { elapsed }
                }
                WatchAction::Finish(outcome) => {
                    assert!(outcome.is_err());
                    break;
                }
            };
        }
        assert_eq!(asked, expected);
        assert_eq!(elapsed, Duration::from_millis(500 * expected));
    }
}

#[test]
fn errors_are_told_in_sentences() {
    let s = |t: &str| t.to_string();
    assert_eq!(
        RetryError::MaxRetriesExceeded { attempts: 10, signature: s("abc") }.message(),
        "Transaction dropped after 10 attempts: abc"
    );
    assert_eq!(
        RetryError::ConfirmationTimeout { timeout_secs: 30, signature: s("abc") }.message(),
        "Confirmation timeout reached after 30s for signature abc"
    );
    assert_eq!(RetryError::BlockhashExpired.message(), "Blockhash expired, could not refresh in time");
    assert_eq!(
        RetryError::LeaderScheduleFetchFailed(s("x")).message(),
        "Failed to fetch leader schedule: x"
    );
    assert_eq!(RetryError::PreflightFailed(s("x")).message(), "Preflight simulation failed: x");
    assert_eq!(RetryError::RpcError(s("x")).message(), "RPC client error: x");
    assert_eq!(
        RetryError::TransactionRejected { reason: s("x"), signature: s("abc") }.message(),
        "Transaction rejected on-chain: x"
    );
    assert_eq!(RetryError::Internal(s("x")).message(), "Internal error: x");
}
