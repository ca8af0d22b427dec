use solana_tx_retry::keys::Pubkey;
use solana_tx_retry::leader_tracker::{
    accept_epoch, accept_nodes, accept_schedule, accept_slot, ClusterNode, EpochInfo,
    LeaderTracker, RefreshAction, RefreshEvent, TrackerRefresh,
};
use solana_tx_retry::RetryError;
use std::time::Duration;

fn key(n: u8) -> Pubkey {
    Pubkey { bytes: [n; 32] }
}

fn text(n: u8) -> String {
    solana_sdk::pubkey::Pubkey::new_from_array([n; 32]).to_string()
}

fn epoch(absolute_slot: u64, slot_index: u64) -> EpochInfo {
    EpochInfo { absolute_slot, slot_index }
}

fn tracker(lookahead: usize) -> LeaderTracker<u16> {
    let mut tracker = LeaderTracker::new(lookahead);
    let entries = vec![
        (text(1), vec![0, 1, 2, 3]),
        ("unreadable".to_string(), vec![4, 5]),
        (text(2), vec![10, 999, 1100]),
    ];
    assert!(tracker.refresh_schedule(&entries, epoch(1007, 7), Duration::from_secs(5)));
    tracker.refresh_tpu_map(&vec![
        ClusterNode { pubkey: text(1), tpu: Some(11) },
        ClusterNode { pubkey: text(2), tpu: None },
        ClusterNode { pubkey: "unreadable".to_string(), tpu: Some(99) },
    ]);
    tracker
}

#[test]
fn the_current_leader_is_that_of_the_slot_or_of_the_next_three() {
    let t = tracker(4);
    assert_eq!(t.get_current_leader(1000).unwrap(), key(1));
    assert_eq!(t.get_current_leader(1003).unwrap(), key(1));
    assert_eq!(t.get_current_leader(1007).unwrap(), key(2));
    assert_eq!(t.get_current_leader(998).unwrap(), key(1));
    match t.get_current_leader(1006) {
        Err(RetryError::LeaderScheduleFetchFailed(why)) => {
            assert_eq!(why, "No leader found for slot 1006")
        }
        other => panic!("{:?}", other),
    }
}

#[test]
fn the_address_of_the_current_leader_may_be_unknown() {
    let t = tracker(4);
    assert_eq!(t.get_current_tpu_addr(1000).unwrap(), Some(11));
    assert_eq!(t.get_current_tpu_addr(1010).unwrap(), None);
    assert!(t.get_current_tpu_addr(1005).is_err());
}

#[test]
fn upcoming_leaders_go_up_from_the_slot() {
    assert_eq!(
        tracker(4).get_upcoming_leaders(1002),
        vec![
            (1002, key(1), Some(11)),
            (1003, key(1), Some(11)),
            (1010, key(2), None),
            (1999, key(2), None)
        ]
    );
    assert_eq!(tracker(1).get_upcoming_leaders(1003), vec![(1003, key(1), Some(11))]);
    assert_eq!(tracker(0).get_upcoming_leaders(1003), vec![]);
    assert_eq!(tracker(4).get_upcoming_leaders(1100), vec![(1999, key(2), None)]);
    assert_eq!(tracker(9).get_upcoming_leaders(999).len(), 5);
    assert_eq!(tracker(9).get_upcoming_leaders(1000).len(), 6);
}

#[test]
fn the_later_leader_has_a_slot_that_is_listed_twice() {
    let mut t: LeaderTracker<u16> = LeaderTracker::new(4);
    let entries = vec![(text(1), vec![5]), (text(2), vec![5])];
    assert!(t.refresh_schedule(&entries, epoch(0, 0), Duration::from_secs(0)));
    assert_eq!(t.get_current_leader(5).unwrap(), key(2));
    t.refresh_tpu_map(&vec![
        ClusterNode { pubkey: text(2), tpu: Some(1) },
        ClusterNode { pubkey: text(2), tpu: Some(2) },
        ClusterNode { pubkey: text(2), tpu: None },
    ]);
    assert_eq!(t.get_current_tpu_addr(5).unwrap(), Some(2));
}

#[test]
fn a_refresh_replaces_what_was_known() {
    let mut t = tracker(4);
    assert!(t.refresh_schedule(&vec![(text(3), vec![0])], epoch(2000, 0), Duration::from_secs(9)));
    t.refresh_tpu_map(&vec![]);
    assert!(t.get_current_leader(1000).is_err());
    assert_eq!(t.get_current_leader(2000).unwrap(), key(3));
    assert_eq!(t.get_current_tpu_addr(2000).unwrap(), None);
}

#[test]
fn a_schedule_out_of_range_changes_nothing() {
    let mut t = tracker(4);
    let now = Duration::from_secs(1000);
    assert!(!t.refresh_schedule(&vec![(text(3), vec![0])], epoch(3, 4), now));
    assert!(!t.refresh_schedule(&vec![(text(3), vec![0, 1])], epoch(u64::MAX, 0), now));
    assert_eq!(t.get_current_leader(1000).unwrap(), key(1));
    assert!(t.is_stale(now));
    assert!(t.refresh_schedule(&vec![("?".to_string(), vec![1])], epoch(u64::MAX, 0), now));
    assert!(!t.is_stale(now));
}

#[test]
fn a_schedule_goes_stale_after_a_minute() {
    let t: LeaderTracker<u16> = LeaderTracker::new(4);
    assert!(t.is_stale(Duration::from_secs(0)));
    let t = tracker(4);
    assert!(!t.is_stale(Duration::from_secs(5)));
    assert!(!t.is_stale(Duration::from_secs(65)));
    assert!(t.is_stale(Duration::from_secs(65) + Duration::from_nanos(1)));
    assert!(!t.is_stale(Duration::from_secs(1)));
}

#[test]
fn a_missing_schedule_is_an_error() {
    assert_eq!(accept_schedule(Ok(Some(vec![(text(1), vec![1])]))).unwrap().len(), 1);
    match accept_schedule(Ok(None)) {
        Err(RetryError::LeaderScheduleFetchFailed(why)) => {
            assert_eq!(why, "RPC returned empty leader schedule")
        }
        other => panic!("{:?}", other),
    }
    match accept_schedule(Err("down".to_string())) {
        Err(RetryError::LeaderScheduleFetchFailed(why)) => assert_eq!(why, "down"),
        other => panic!("{:?}", other),
    }
}

#[test]
fn a_schedule_and_addresses_can_be_given_by_key() {
    let mut t: LeaderTracker<u16> = LeaderTracker::new(2);
    let leaders = vec![(key(3), vec![0, 2]), (key(4), vec![1])];
    assert!(t.set_schedule(&leaders, epoch(50, 10), Duration::from_secs(1)));
    t.set_addresses(vec![(key(3), 30), (key(4), 40), (key(3), 31)]);
    assert_eq!(t.get_upcoming_leaders(40), vec![(40, key(3), Some(31)), (41, key(4), Some(40))]);
    assert!(!t.set_schedule(&leaders, epoch(50, 51), Duration::from_secs(2)));
    assert!(!t.set_schedule(&leaders, epoch(u64::MAX, 1), Duration::from_secs(2)));
    assert_eq!(t.get_current_leader(42).unwrap(), key(3));
    assert!(!t.is_stale(Duration::from_secs(61)));
}

fn refresh_error(action: RefreshAction) -> String {
    match action {
        RefreshAction::Finish(Err(RetryError::LeaderScheduleFetchFailed(why))) => why,
        _ => panic!("not a failure"),
    }
}

#[test]
fn a_stale_tracker_asks_for_the_schedule_and_then_for_the_nodes() {
    let mut t: LeaderTracker<u16> = LeaderTracker::new(1);
    let now = Duration::from_secs(100);
    let (mut refresh, action) = t.ensure_fresh(now);
    assert!(matches!(action, RefreshAction::FetchSchedule));
    let entries = vec![(text(7), vec![0])];
    let action = t.advance_refresh(&mut refresh, RefreshEvent::Schedule(Ok(Some(entries))));
    assert!(matches!(action, RefreshAction::FetchEpoch));
    let action = t.advance_refresh(&mut refresh, RefreshEvent::Epoch { reply: Ok(epoch(8, 3)), now });
    assert!(matches!(action, RefreshAction::FetchNodes));
    let nodes = vec![ClusterNode { pubkey: text(7), tpu: Some(70) }];
    let action = t.advance_refresh(&mut refresh, RefreshEvent::Nodes(Ok(nodes)));
    assert!(matches!(action, RefreshAction::Finish(Ok(()))));
    assert!(matches!(refresh, TrackerRefresh::Finished));
    assert_eq!(t.get_current_tpu_addr(5).unwrap(), Some(70));
    let (_, action) = t.ensure_fresh(Duration::from_secs(160));
    assert!(matches!(action, RefreshAction::Finish(Ok(()))));
    let (_, action) = t.initialize();
    assert!(matches!(action, RefreshAction::FetchSchedule));
}

#[test]
fn a_question_that_fails_ends_the_refresh_and_changes_nothing() {
    let mut t = tracker(4);
    let now = Duration::from_secs(900);
    let (mut refresh, _) = t.ensure_fresh(now);
    let down = || "down".to_string();
    let action = t.advance_refresh(&mut refresh, RefreshEvent::Schedule(Err(down())));
    assert_eq!(refresh_error(action), "down");
    let (mut refresh, _) = t.ensure_fresh(now);
    let action = t.advance_refresh(&mut refresh, RefreshEvent::Schedule(Ok(None)));
    assert_eq!(refresh_error(action), "RPC returned empty leader schedule");
    let (mut refresh, _) = t.ensure_fresh(now);
    t.advance_refresh(&mut refresh, RefreshEvent::Schedule(Ok(Some(vec![]))));
    let action = t.advance_refresh(&mut refresh, RefreshEvent::Epoch { reply: Err(down()), now });
    assert_eq!(refresh_error(action), "down");
    assert_eq!(t.get_current_leader(1000).unwrap(), key(1));
    assert!(t.is_stale(now));
    let mut refresh = TrackerRefresh::Nodes;
    let action = t.advance_refresh(&mut refresh, RefreshEvent::Nodes(Err(down())));
    assert_eq!(refresh_error(action), "down");
    assert_eq!(t.get_current_tpu_addr(1000).unwrap(), Some(11));
    let mut refresh = TrackerRefresh::Epoch { entries: vec![] };
    let event = RefreshEvent::Epoch { reply: Ok(epoch(1, 2)), now };
    assert!(matches!(t.advance_refresh(&mut refresh, event), RefreshAction::OutOfRange));
}

#[test]
fn failed_replies_say_that_the_schedule_could_not_be_fetched() {
    let down = || "down".to_string();
    assert_eq!(accept_slot(Ok(5)).unwrap(), 5);
    assert!(matches!(accept_slot(Err(down())), Err(RetryError::LeaderScheduleFetchFailed(w)) if w == "down"));
    assert_eq!(accept_epoch(Ok(epoch(5, 2))).unwrap().slot_index, 2);
    assert!(matches!(accept_epoch(Err(down())), Err(RetryError::LeaderScheduleFetchFailed(w)) if w == "down"));
    assert_eq!(accept_nodes::<u16>(Ok(vec![])).unwrap().len(), 0);
    assert!(matches!(accept_nodes::<u16>(Err(down())), Err(RetryError::LeaderScheduleFetchFailed(w)) if w == "down"));
}
