use solana_tx_retry::keys::{Blockhash, Pubkey, Signature};
use solana_tx_retry::preflight_cache::{make_cache_key, PreflightCache, SimulationResult};
use solana_tx_retry::text::{to_decimal, to_hex};
use std::collections::hash_map::DefaultHasher;
use std::hash::Hasher;
use std::time::Duration;

fn blockhash(n: u8) -> Blockhash {
    Blockhash { bytes: [n; 32] }
}

fn ms(n: u64) -> Duration {
    Duration::from_millis(n)
}

fn is_success(found: Option<SimulationResult>) -> bool {
    matches!(found, Some(SimulationResult::Success))
}

#[test]
fn stored_result_is_found_until_its_time_to_live_has_passed() {
    let mut cache = PreflightCache::with_ttl(ms(100));
    cache.insert_at("a".to_string(), SimulationResult::Success, blockhash(1), ms(50));
    assert!(is_success(cache.get_at("a", &blockhash(1), ms(50))));
    assert!(is_success(cache.get_at("a", &blockhash(1), ms(150))));
    assert!(cache.get_at("a", &blockhash(1), ms(150) + Duration::from_nanos(1)).is_none());
    assert!(is_success(cache.get_at("a", &blockhash(1), ms(10))));
}

#[test]
fn stored_result_is_found_under_its_key_and_block_hash_only() {
    let mut cache = PreflightCache::new();
    cache.insert_at("a".to_string(), SimulationResult::Success, blockhash(1), ms(0));
    assert!(cache.get_at("b", &blockhash(1), ms(0)).is_none());
    assert!(cache.get_at("a", &blockhash(2), ms(0)).is_none());
    let mut nearly = blockhash(1);
    nearly.bytes[31] = 0;
    assert!(cache.get_at("a", &nearly, ms(0)).is_none());
}

#[test]
fn storing_again_replaces_the_result() {
    let mut cache = PreflightCache::new();
    cache.insert_at("a".to_string(), SimulationResult::Success, blockhash(1), ms(0));
    cache.insert_at("a".to_string(), SimulationResult::Failed("no".to_string()), blockhash(2), ms(1));
    assert_eq!(cache.len(), 1);
    assert!(cache.get_at("a", &blockhash(1), ms(1)).is_none());
    match cache.get_at("a", &blockhash(2), ms(1)) {
        Some(SimulationResult::Failed(why)) => assert_eq!(why, "no"),
        other => panic!("{:?}", other),
    }
}

#[test]
fn eviction_removes_the_expired_entries_only() {
    let mut cache = PreflightCache::with_ttl(ms(100));
    cache.insert_at("old".to_string(), SimulationResult::Success, blockhash(1), ms(0));
    cache.insert_at("edge".to_string(), SimulationResult::Success, blockhash(1), ms(100));
    cache.insert_at("new".to_string(), SimulationResult::Success, blockhash(1), ms(150));
    cache.evict_expired_at(ms(200));
    assert_eq!(cache.len(), 2);
    assert!(cache.get_at("old", &blockhash(1), ms(50)).is_none());
    assert!(is_success(cache.get_at("edge", &blockhash(1), ms(200))));
    assert!(is_success(cache.get_at("new", &blockhash(1), ms(250))));
}

#[test]
fn removal_leaves_the_other_entries() {
    let mut cache = PreflightCache::default();
    assert!(cache.is_empty());
    cache.insert("a".to_string(), SimulationResult::Success, blockhash(1));
    cache.insert("b".to_string(), SimulationResult::Success, blockhash(1));
    cache.remove("a");
    cache.remove("never there");
    assert!(!cache.is_empty());
    assert_eq!(cache.len(), 1);
    assert!(cache.get("a", &blockhash(1)).is_none());
    assert!(is_success(cache.get("b", &blockhash(1))));
}

#[test]
fn cache_key_is_the_digest_in_sixteen_digits() {
    let bytes: &[u8] = b"message";
    let mut hasher = DefaultHasher::new();
    std::hash::Hash::hash(bytes, &mut hasher);
    let key = make_cache_key(bytes);
    assert_eq!(key, format!("{:016x}", hasher.finish()));
    assert_eq!(key.len(), 16);
    assert_eq!(make_cache_key(b"").len(), 16);
}

#[test]
fn numbers_are_written_out() {
    assert_eq!(to_decimal(0), "0");
    assert_eq!(to_decimal(10), "10");
    assert_eq!(to_decimal(u64::MAX), "18446744073709551615");
    assert_eq!(to_hex(0xdead_beef, 16), "00000000deadbeef");
    assert_eq!(to_hex(u64::MAX, 16), "ffffffffffffffff");
    assert_eq!(to_hex(0x123, 2), "23");
    assert_eq!(to_hex(7, 0), "");
}

#[test]
fn public_key_is_read_from_its_text() {
    let key = Pubkey::from_text("11111111111111111111111111111111").unwrap();
    assert_eq!(key.bytes, [0u8; 32]);
    let other = solana_sdk::pubkey::Pubkey::new_from_array([9; 32]);
    let read = Pubkey::from_text(&other.to_string()).unwrap();
    assert_eq!(read.bytes, [9u8; 32]);
    assert!(!read.same(&key));
    assert!(read.same(&Pubkey { bytes: [9; 32] }));
    assert!(Pubkey::from_text("").is_none());
    assert!(Pubkey::from_text("not a key").is_none());
    assert!(Pubkey::from_text("1111").is_none());
}

#[test]
fn signature_is_written_in_base_58() {
    assert_eq!(Signature { bytes: [0; 64] }.to_text(), "1".repeat(64));
    let bytes = [7u8; 64];
    let expected = solana_sdk::signature::Signature::from(bytes).to_string();
    assert_eq!(Signature { bytes }.to_text(), expected);
}
