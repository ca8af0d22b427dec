//! Configuration of the retry engine.

use crate::time::{millis, nanos, whole_millis};
use solana_sdk::commitment_config::{CommitmentConfig, CommitmentLevel as SolanaLevel};
use std::time::Duration;
use vstd::prelude::*;

verus! {

/// How a transaction is retried.
#[derive(Debug)]
pub struct RetryConfig {
    /// How many attempts are made before giving up.
    pub max_retries: u32,
    /// The delay after the first attempt; it doubles with each further one.
    pub base_delay: Duration,
    /// The longest delay between two attempts.
    pub max_delay: Duration,
    /// Whether the transaction is simulated before it is sent.
    pub preflight_enabled: bool,
    /// Whether the simulation is left out on the second and later attempts.
    pub skip_preflight_on_retry: bool,
    /// How long to wait for a confirmation, shared out over the attempts.
    pub confirmation_timeout: Duration,
    /// The commitment level at which a transaction counts as confirmed.
    pub commitment: CommitmentLevel,
    /// How many upcoming leaders to list for routing.
    pub leader_lookahead: usize,
    /// Whether the transaction is handed to the current leader directly where that can be done.
    pub use_leader_routing: bool,
    /// The longest time that sending may take in all, whatever becomes of the attempts; none
    /// where only the attempts are limited.
    pub hard_timeout: Option<Duration>,
}

impl Default for RetryConfig {
    /// Ten attempts, a delay of one slot to start with, simulation on the first attempt.
    fn default() -> (config: Self)
        ensures
            config.max_retries == 10,
            nanos(config.base_delay) == 400 * 1_000_000,
            nanos(config.max_delay) == 5000 * 1_000_000,
            config.preflight_enabled,
            config.skip_preflight_on_retry,
            nanos(config.confirmation_timeout) == 30 * 1_000_000_000,
            config.commitment == CommitmentLevel::Confirmed,
            config.leader_lookahead == 4,
            config.use_leader_routing,
            config.hard_timeout is None,
    {
        RetryConfig {
            max_retries: 10,
            base_delay: Duration::from_millis(400),
            max_delay: Duration::from_millis(5000),
            preflight_enabled: true,
            skip_preflight_on_retry: true,
            confirmation_timeout: Duration::from_secs(30),
            commitment: CommitmentLevel::Confirmed,
            leader_lookahead: 4,
            use_leader_routing: true,
            hard_timeout: None,
        }
    }
}

impl Clone for RetryConfig {
    fn clone(&self) -> (copy: Self)
        ensures
            copy == *self,
    {
        RetryConfig {
            max_retries: self.max_retries,
            base_delay: self.base_delay,
            max_delay: self.max_delay,
            preflight_enabled: self.preflight_enabled,
            skip_preflight_on_retry: self.skip_preflight_on_retry,
            confirmation_timeout: self.confirmation_timeout,
            commitment: self.commitment,
            leader_lookahead: self.leader_lookahead,
            use_leader_routing: self.use_leader_routing,
            hard_timeout: self.hard_timeout,
        }
    }
}

impl RetryConfig {
    /// Shorter delays, more attempts and no simulation; the rest as by default.
    pub fn high_throughput() -> (config: Self)
        ensures
            config.max_retries == 20,
            nanos(config.base_delay) == 200 * 1_000_000,
            nanos(config.max_delay) == 2000 * 1_000_000,
            !config.preflight_enabled,
            config.skip_preflight_on_retry,
            nanos(config.confirmation_timeout) == 30 * 1_000_000_000,
            config.commitment == CommitmentLevel::Confirmed,
            config.leader_lookahead == 4,
            config.use_leader_routing,
            config.hard_timeout is None,
    {
        RetryConfig {
            max_retries: 20,
            base_delay: Duration::from_millis(200),
            max_delay: Duration::from_millis(2000),
            skip_preflight_on_retry: true,
            preflight_enabled: false,
            ..RetryConfig::default()
        }
    }

    /// Longer delays, fewer attempts, a simulation before each, and no more than a minute in all;
    /// the rest as by default.
    pub fn safe() -> (config: Self)
        ensures
            config.max_retries == 5,
            nanos(config.base_delay) == 800 * 1_000_000,
            nanos(config.max_delay) == 10000 * 1_000_000,
            config.preflight_enabled,
            !config.skip_preflight_on_retry,
            nanos(config.confirmation_timeout) == 60 * 1_000_000_000,
            config.commitment == CommitmentLevel::Confirmed,
            config.leader_lookahead == 4,
            config.use_leader_routing,
            config.hard_timeout is Some,
            nanos(config.hard_timeout->0) == 60 * 1_000_000_000,
    {
        RetryConfig {
            max_retries: 5,
            base_delay: Duration::from_millis(800),
            max_delay: Duration::from_millis(10000),
            preflight_enabled: true,
            skip_preflight_on_retry: false,
            confirmation_timeout: Duration::from_secs(60),
            hard_timeout: Some(Duration::from_secs(60)),
            ..RetryConfig::default()
        }
    }

    /// How many milliseconds one attempt waits for its confirmation: an even share of the
    /// whole time, and two seconds on top.
    pub open spec fn attempt_timeout_millis(self) -> nat {
        millis(self.confirmation_timeout) / (self.max_retries as nat) + 2000
    }

    /// Whether the wait of one attempt can be counted in 64 bits of milliseconds.
    pub open spec fn attempt_timeout_fits(self) -> bool {
        self.max_retries > 0 ==> self.attempt_timeout_millis() <= u64::MAX
    }

    /// Whether the wait of one attempt can be counted in 64 bits of milliseconds.
    pub fn has_attempt_timeout(&self) -> (fits: bool)
        ensures
            fits == self.attempt_timeout_fits(),
    {
        self.max_retries == 0 || whole_millis(&self.confirmation_timeout) / (
        self.max_retries as u64) <= u64::MAX - 2000
    }

    /// How long one attempt waits for its confirmation.
    pub fn attempt_timeout(&self) -> (timeout: Duration)
        requires
            self.max_retries > 0,
            self.attempt_timeout_fits(),
        ensures
            nanos(timeout) == self.attempt_timeout_millis() * 1_000_000,
    {
        Duration::from_millis(
            whole_millis(&self.confirmation_timeout) / (self.max_retries as u64) + 2000,
        )
    }

    /// Whether attempt number `attempt`, counted from one, starts with a simulation.
    pub open spec fn simulates(self, attempt: nat) -> bool {
        self.preflight_enabled && (attempt == 1 || !self.skip_preflight_on_retry)
    }

    /// Whether attempt number `attempt`, counted from one, starts with a simulation.
    pub fn should_simulate(&self, attempt: u32) -> (simulate: bool)
        ensures
            simulate == self.simulates(attempt as nat),
    {
        self.preflight_enabled && (attempt == 1 || !self.skip_preflight_on_retry)
    }
}

/// The wait of one attempt, less its two seconds, is the largest number of whole milliseconds that
/// all attempts together can wait in the time for all.
pub proof fn law_timeout_is_shared_out(config: RetryConfig)
    requires
        config.max_retries > 0,
    ensures
        config.attempt_timeout_millis() >= 2000,
        (config.attempt_timeout_millis() - 2000) * config.max_retries <= millis(
            config.confirmation_timeout,
        ),
        millis(config.confirmation_timeout) < (config.attempt_timeout_millis() - 1999)
            * config.max_retries,
{
    let whole = millis(config.confirmation_timeout) as int;
    let n = config.max_retries as int;
    let share = whole / n;
    assert(share >= 0 && share * n <= whole < (share + 1) * n) by (nonlinear_arith)
        requires
            n > 0,
            whole >= 0,
            share == whole / n,
    ;
}

/// Without attempts there is nothing to share out, and a time that leaves room for two seconds can
/// always be shared out.
pub proof fn law_ordinary_timeouts_fit(config: RetryConfig)
    ensures
        config.max_retries == 0 ==> config.attempt_timeout_fits(),
        millis(config.confirmation_timeout) + 2000 <= u64::MAX ==> config.attempt_timeout_fits(),
{
    let whole = millis(config.confirmation_timeout) as int;
    let n = config.max_retries as int;
    if n > 0 {
        assert(whole / n <= whole) by (nonlinear_arith)
            requires
                n > 0,
                whole >= 0,
        ;
    }
}

/// No attempt is simulated where simulations are off, the first is where they are on, and the
/// later ones are unless they are to be skipped.
pub proof fn law_first_attempt_is_simulated(config: RetryConfig, attempt: nat)
    ensures
        !config.preflight_enabled ==> !config.simulates(attempt),
        config.preflight_enabled ==> config.simulates(1),
        config.preflight_enabled && attempt != 1 ==> config.simulates(attempt)
            != config.skip_preflight_on_retry,
{
}

/// A transaction is confirmed after it is processed and finalized after it is confirmed.
pub proof fn law_levels_go_up()
    ensures
        CommitmentLevel::Processed.rank() < CommitmentLevel::Confirmed.rank(),
        CommitmentLevel::Confirmed.rank() < CommitmentLevel::Finalized.rank(),
{
}

/// How settled a transaction has to be.
#[derive(Debug, Clone, Copy, PartialEq, Eq, Structural)]
pub enum CommitmentLevel {
    /// The current leader has processed it. Lowest latency, least safe.
    Processed,
    /// A supermajority of validators has confirmed it. Recommended.
    Confirmed,
    /// It can no longer be rolled back. Highest safety.
    Finalized,
}

/// The `CommitmentConfig` of `solana_sdk`.
#[verifier::external_type_specification]
pub struct ExCommitmentConfig(CommitmentConfig);

/// The `CommitmentLevel` of `solana_sdk`.
#[verifier::external_type_specification]
pub struct ExSolanaLevel(SolanaLevel);

/// `CommitmentConfig::processed` asks for the level `Processed`.
pub assume_specification[ CommitmentConfig::processed ]() -> (config: CommitmentConfig)
    ensures
        config.commitment is Processed,
;

/// `CommitmentConfig::confirmed` asks for the level `Confirmed`.
pub assume_specification[ CommitmentConfig::confirmed ]() -> (config: CommitmentConfig)
    ensures
        config.commitment is Confirmed,
;

/// `CommitmentConfig::finalized` asks for the level `Finalized`.
pub assume_specification[ CommitmentConfig::finalized ]() -> (config: CommitmentConfig)
    ensures
        config.commitment is Finalized,
;

impl CommitmentLevel {
    /// How high the level is among the three.
    pub open spec fn rank(self) -> nat {
        match self {
            CommitmentLevel::Processed => 1,
            CommitmentLevel::Confirmed => 2,
            CommitmentLevel::Finalized => 3,
        }
    }

    /// The same level in the terms of `solana_sdk`.
    pub fn to_solana_commitment(&self) -> (config: CommitmentConfig)
        ensures
            config.commitment is Processed <==> *self is Processed,
            config.commitment is Confirmed <==> *self is Confirmed,
            config.commitment is Finalized <==> *self is Finalized,
    {
        match self {
            CommitmentLevel::Processed => CommitmentConfig::processed(),
            CommitmentLevel::Confirmed => CommitmentConfig::confirmed(),
            CommitmentLevel::Finalized => CommitmentConfig::finalized(),
        }
    }
}

} // verus!
