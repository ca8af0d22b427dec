//! The decisions of the retry loop.
//!
//! A [`SendSession`] is one transaction on its way to the ledger. The session says what has to
//! be done next (an [`Action`]), somebody does it, and what came of it (an [`Event`]) moves
//! the session on:
//!
//!  1. Simulate the transaction, unless a cached simulation answers. A transaction that would
//!     fail is not sent.
//!  2. Hand it to the current leader where routing is on and that can be done; otherwise submit it
//!     to the RPC node.
//!  3. Wait for its confirmation.
//!  4. Where none came, see whether the block hash has expired. If it has, sign anew with a
//!     fresh one and go back to step 1; this does not count against the attempts allowed.
//!     Otherwise wait for the backoff delay and go back to step 1.
//!  5. Give up once all attempts allowed are used, or once the time for all of it is up.

use crate::backoff::{can_draw, capped_delay, delay, jittered, spread, spread_delay};
use crate::config::{CommitmentLevel, RetryConfig};
use crate::error::{Reply, Result, RetryError, RetryErrorView};
use crate::keys::{signature_to_text, Blockhash, Signature};
use crate::preflight_cache::{CacheView, PreflightCache, SimulationResult, SimulationView};
use crate::time::{age, millis, nanos, shorter, shorter_span, whole_millis};
use crate::transaction::{
    signatures_view, signed_by, Keypair, Transaction, TransactionView,
};
use crate::tx_monitor::{intervals, TxStatus, TxStatusView, POLL_INTERVAL_MS};
use std::time::Duration;
use vstd::prelude::*;

verus! {

/// What is told of a transaction that was confirmed.
#[derive(Debug, Clone, Copy)]
pub struct RetryStats {
    /// The signature under which the transaction was confirmed.
    pub signature: Signature,
    /// How many attempts were made; one where the first succeeded.
    pub attempts: u32,
    /// How many times the transaction was signed anew for a fresh block hash.
    pub blockhash_refreshes: u32,
    /// Whether the transaction was handed to a leader directly.
    pub used_leader_routing: bool,
}

/// What is told of a transaction that was confirmed, with the signature in bytes.
pub struct StatsView {
    pub signature: Seq<u8>,
    pub attempts: u32,
    pub blockhash_refreshes: u32,
    pub used_leader_routing: bool,
}

impl View for RetryStats {
    type V = StatsView;

    open spec fn view(&self) -> StatsView {
        StatsView {
            signature: self.signature@,
            attempts: self.attempts,
            blockhash_refreshes: self.blockhash_refreshes,
            used_leader_routing: self.used_leader_routing,
        }
    }
}

/// How a transaction is handed to the RPC node.
#[derive(Debug, Clone, Copy, PartialEq, Eq, Structural)]
pub struct SendOptions {
    /// Whether the node leaves out its own simulation.
    pub skip_preflight: bool,
    /// How many times the node sends the transaction again by itself.
    pub max_retries: usize,
}

/// The node neither simulates nor retries: both are done here.
pub open spec fn plain_send() -> SendOptions {
    SendOptions { skip_preflight: true, max_retries: 0 }
}

/// What has to be done next.
pub enum Action {
    /// Simulate the transaction.
    Simulate,
    /// Hand the transaction to the current leader, if that can be done.
    SendToLeader,
    /// Submit the transaction to the RPC node.
    Submit(SendOptions),
    /// Wait until the transaction reaches the commitment level, for no longer than the timeout.
    AwaitConfirmation { signature: Signature, commitment: CommitmentLevel, timeout: Duration },
    /// Ask whether the block hash of the transaction is still valid at the commitment level.
    CheckBlockhash { commitment: CommitmentLevel },
    /// Fetch the latest block hash at the commitment level.
    RefreshBlockhash { commitment: CommitmentLevel },
    /// Wait for the backoff delay of the attempt, for no longer than the time that is left.
    Backoff { attempt: u32, left: Option<Duration> },
    /// Hand the outcome to the caller: the session has ended.
    Finish(Result<RetryStats>),
}

/// How many nanoseconds a monitor waits between two questions.
pub open spec fn poll_interval() -> nat {
    (POLL_INTERVAL_MS * 1_000_000) as nat
}

/// A length of time, but no longer than what is left where that is limited.
pub open spec fn within(length: nat, left: Option<nat>) -> nat {
    match left {
        Some(left) => shorter(length, left),
        None => length,
    }
}

/// A span that may be missing, in nanoseconds.
pub open spec fn span_view(span: Option<Duration>) -> Option<nat> {
    match span {
        Some(span) => Some(nanos(span)),
        None => None,
    }
}

/// What has to be done next, in bytes, characters and nanoseconds.
pub enum ActionView {
    Simulate,
    SendToLeader,
    Submit(SendOptions),
    AwaitConfirmation { signature: Seq<u8>, commitment: CommitmentLevel, timeout: nat },
    CheckBlockhash { commitment: CommitmentLevel },
    RefreshBlockhash { commitment: CommitmentLevel },
    Backoff { attempt: u32, left: Option<nat> },
    Finish(std::result::Result<StatsView, RetryErrorView>),
}

impl View for Action {
    type V = ActionView;

    open spec fn view(&self) -> ActionView {
        match self {
            Action::Simulate => ActionView::Simulate,
            Action::SendToLeader => ActionView::SendToLeader,
            Action::Submit(options) => ActionView::Submit(*options),
            Action::AwaitConfirmation { signature, commitment, timeout } => {
                ActionView::AwaitConfirmation {
                    signature: signature@,
                    commitment: *commitment,
                    timeout: nanos(*timeout),
                }
            },
            Action::CheckBlockhash { commitment } => {
                ActionView::CheckBlockhash { commitment: *commitment }
            },
            Action::RefreshBlockhash { commitment } => {
                ActionView::RefreshBlockhash { commitment: *commitment }
            },
            Action::Backoff { attempt, left } => ActionView::Backoff {
                attempt: *attempt,
                left: span_view(*left),
            },
            Action::Finish(outcome) => ActionView::Finish(
                match outcome {
                    Ok(stats) => Ok(stats@),
                    Err(error) => Err(error@),
                },
            ),
        }
    }
}

/// What came of the last action.
pub enum Event {
    /// The session begins.
    Start,
    /// The simulation ran, and found the given error or none; or the client failed.
    Simulated(Reply<Option<String>>),
    /// Whether the transaction was handed to the current leader.
    LeaderSent(bool),
    /// The transaction was submitted under the given signature; or the client failed.
    Submitted(Reply<Signature>),
    /// The wait for the confirmation ended.
    Watched(Result<TxStatus>),
    /// Whether the block hash is still valid; or the client failed.
    BlockhashChecked(Reply<bool>),
    /// The fresh block hash; or the client failed.
    Refreshed(Reply<Blockhash>),
    /// The backoff delay has passed.
    BackedOff,
}

/// What came of the last action, in bytes and characters.
pub enum EventView {
    Start,
    Simulated(std::result::Result<Option<Seq<char>>, Seq<char>>),
    LeaderSent(bool),
    Submitted(std::result::Result<Seq<u8>, Seq<char>>),
    Watched(std::result::Result<TxStatusView, RetryErrorView>),
    BlockhashChecked(std::result::Result<bool, Seq<char>>),
    Refreshed(std::result::Result<Seq<u8>, Seq<char>>),
    BackedOff,
}

impl View for Event {
    type V = EventView;

    open spec fn view(&self) -> EventView {
        match self {
            Event::Start => EventView::Start,
            Event::Simulated(reply) => EventView::Simulated(
                match reply {
                    Ok(Some(reason)) => Ok(Some(reason@)),
                    Ok(None) => Ok(None),
                    Err(why) => Err(why@),
                },
            ),
            Event::LeaderSent(sent) => EventView::LeaderSent(*sent),
            Event::Submitted(reply) => EventView::Submitted(
                match reply {
                    Ok(signature) => Ok(signature@),
                    Err(why) => Err(why@),
                },
            ),
            Event::Watched(outcome) => EventView::Watched(
                match outcome {
                    Ok(status) => Ok(status@),
                    Err(error) => Err(error@),
                },
            ),
            Event::BlockhashChecked(reply) => EventView::BlockhashChecked(
                match reply {
                    Ok(valid) => Ok(*valid),
                    Err(why) => Err(why@),
                },
            ),
            Event::Refreshed(reply) => EventView::Refreshed(
                match reply {
                    Ok(blockhash) => Ok(blockhash@),
                    Err(why) => Err(why@),
                },
            ),
            Event::BackedOff => EventView::BackedOff,
        }
    }
}

/// The action whose outcome a session waits for.
#[derive(Debug, Clone, Copy)]
enum Step {
    Start,
    Simulate,
    SendToLeader,
    Submit,
    Confirm { signature: Signature },
    CheckBlockhash,
    Refresh,
    Backoff,
    Finished,
}

/// The action whose outcome a session waits for, with the signature in bytes.
pub enum StepView {
    Start,
    Simulate,
    SendToLeader,
    Submit,
    Confirm { signature: Seq<u8> },
    CheckBlockhash,
    Refresh,
    Backoff,
    Finished,
}

impl Step {
    closed spec fn view(&self) -> StepView {
        match self {
            Step::Start => StepView::Start,
            Step::Simulate => StepView::Simulate,
            Step::SendToLeader => StepView::SendToLeader,
            Step::Submit => StepView::Submit,
            Step::Confirm { signature } => StepView::Confirm { signature: signature@ },
            Step::CheckBlockhash => StepView::CheckBlockhash,
            Step::Refresh => StepView::Refresh,
            Step::Backoff => StepView::Backoff,
            Step::Finished => StepView::Finished,
        }
    }
}

/// One transaction on its way to the ledger.
pub struct SendSession {
    tx_key: String,
    tx: Transaction,
    signer: Keypair,
    attempts: u32,
    spent: u32,
    blockhash_refreshes: u32,
    used_leader_routing: bool,
    started: Duration,
    step: Step,
}

/// One transaction on its way to the ledger, in bytes, characters and nanoseconds.
pub struct SessionView {
    pub tx_key: Seq<char>,
    pub tx: TransactionView,
    /// The key pair that signs the transaction anew.
    pub signer: Seq<u8>,
    /// How many attempts were made.
    pub attempts: u32,
    /// How many of them count against those allowed.
    pub spent: u32,
    pub blockhash_refreshes: u32,
    pub used_leader_routing: bool,
    /// When the session began.
    pub started: nat,
    pub step: StepView,
}

impl View for SendSession {
    type V = SessionView;

    closed spec fn view(&self) -> SessionView {
        SessionView {
            tx_key: self.tx_key@,
            tx: self.tx@,
            signer: self.signer@,
            attempts: self.attempts,
            spent: self.spent,
            blockhash_refreshes: self.blockhash_refreshes,
            used_leader_routing: self.used_leader_routing,
            started: nanos(self.started),
            step: self.step.view(),
        }
    }
}

impl SessionView {
    /// A session before anything was done.
    pub open spec fn start(tx: TransactionView, signer: Seq<u8>) -> SessionView {
        SessionView {
            tx_key: tx.message.key(),
            tx,
            signer,
            attempts: 0,
            spent: 0,
            blockhash_refreshes: 0,
            used_leader_routing: false,
            started: 0,
            step: StepView::Start,
        }
    }

    /// What holds of every session of an engine: no more attempts count than the engine allows,
    /// those that do not count are those that a fresh block hash gave back, an attempt is
    /// counted from its first action on, a leader is handed only what is signed, and the wait
    /// for a confirmation and the lengths of the message can be told in their bits.
    pub open spec fn wf(self, config: RetryConfig) -> bool {
        &&& self.spent <= config.max_retries
        &&& self.attempts == self.spent + self.blockhash_refreshes
        &&& self.step is Start ==> self.attempts == 0
        &&& !(self.step is Start) && !(self.step is Finished) ==> self.spent >= 1
        &&& self.step is SendToLeader ==> self.tx.signatures.len() > 0
        &&& config.attempt_timeout_fits()
        &&& self.tx.message.fits()
    }

    /// Whether an event answers the action that the session waits for, and another attempt that
    /// it may begin can be counted.
    pub open spec fn accepts(self, event: EventView) -> bool {
        match event {
            EventView::Start => self.step is Start,
            EventView::Simulated(_) => self.step is Simulate,
            EventView::LeaderSent(_) => self.step is SendToLeader,
            EventView::Submitted(_) => self.step is Submit,
            EventView::Watched(_) => self.step is Confirm,
            EventView::BlockhashChecked(_) => self.step is CheckBlockhash,
            EventView::Refreshed(reply) => self.step is Refresh && (reply is Ok ==> self.attempts
                < u32::MAX),
            EventView::BackedOff => self.step is Backoff && self.attempts < u32::MAX,
        }
    }

    /// The session waiting for another action.
    pub open spec fn at(self, step: StepView) -> SessionView {
        SessionView { step, ..self }
    }

    /// The session ended by an error.
    pub open spec fn fail(self, error: RetryErrorView) -> (SessionView, ActionView) {
        (self.at(StepView::Finished), ActionView::Finish(Err(error)))
    }

    /// How much time the session has left, where its time is limited.
    pub open spec fn left(self, config: RetryConfig, now: nat) -> Option<nat> {
        match config.hard_timeout {
            Some(limit) => Some(age(nanos(limit), age(now, self.started))),
            None => None,
        }
    }

    /// Whether the time of the session is up.
    pub open spec fn late(self, config: RetryConfig, now: nat) -> bool {
        self.left(config, now) == Some(0nat)
    }

    /// How long the session waits for a confirmation: the share of one attempt, where the
    /// intervals of a monitor that cover it pass within the time that is left, and otherwise as
    /// many whole intervals as do.
    pub open spec fn wait(self, config: RetryConfig, now: nat) -> nat {
        let share = config.attempt_timeout_millis() * 1_000_000;
        match self.left(config, now) {
            Some(left) => if intervals(share, poll_interval()) * poll_interval() <= left {
                share
            } else {
                left / poll_interval() * poll_interval()
            },
            None => share,
        }
    }

    /// The session about to send its transaction: to the leader where routing is on and there
    /// is a signature to look for, otherwise to the RPC node.
    pub open spec fn send(self, config: RetryConfig) -> (SessionView, ActionView) {
        if config.use_leader_routing && self.tx.signatures.len() > 0 {
            (self.at(StepView::SendToLeader), ActionView::SendToLeader)
        } else {
            (self.at(StepView::Submit), ActionView::Submit(plain_send()))
        }
    }

    /// The session about to wait for the confirmation under a signature.
    pub open spec fn confirm(self, config: RetryConfig, signature: Seq<u8>, now: nat) -> (
        SessionView,
        ActionView,
    ) {
        (
            self.at(StepView::Confirm { signature }),
            ActionView::AwaitConfirmation {
                signature,
                commitment: config.commitment,
                timeout: self.wait(config, now),
            },
        )
    }

    /// The session about to see why no confirmation came.
    pub open spec fn check_blockhash(self) -> (SessionView, ActionView) {
        (
            self.at(StepView::CheckBlockhash),
            ActionView::CheckBlockhash { commitment: CommitmentLevel::Processed },
        )
    }

    /// The session at the beginning of another attempt.
    pub open spec fn attempt(self, config: RetryConfig, cache: CacheView, now: nat) -> (
        SessionView,
        ActionView,
    ) {
        if self.spent >= config.max_retries {
            self.fail(
                RetryErrorView::MaxRetriesExceeded {
                    attempts: self.attempts,
                    signature: self.tx.first_signature(),
                },
            )
        } else {
            let counted = SessionView {
                attempts: (self.attempts + 1) as u32,
                spent: (self.spent + 1) as u32,
                ..self
            };
            if config.simulates(counted.spent as nat) {
                match cache.lookup(self.tx_key, self.tx.message.recent_blockhash, now) {
                    Some(SimulationView::Success) => counted.send(config),
                    Some(SimulationView::Failed(reason)) => counted.fail(
                        RetryErrorView::PreflightFailed(reason),
                    ),
                    None => (counted.at(StepView::Simulate), ActionView::Simulate),
                }
            } else {
                counted.send(config)
            }
        }
    }

    /// The session with a fresh block hash and the signatures that were made for it: the attempt
    /// before is given back, and another begins. Without signatures the session ends.
    pub open spec fn renew(
        self,
        config: RetryConfig,
        cache: CacheView,
        blockhash: Seq<u8>,
        signatures: Option<Seq<Seq<u8>>>,
        now: nat,
    ) -> (SessionView, ActionView) {
        match signatures {
            Some(signatures) => SessionView {
                tx: self.tx.renewed(blockhash, signatures),
                spent: (self.spent - 1) as u32,
                blockhash_refreshes: (self.blockhash_refreshes + 1) as u32,
                ..self
            }.attempt(config, cache, now),
            None => self.fail(RetryErrorView::BlockhashExpired),
        }
    }

    /// The session after the wait for a confirmation.
    pub open spec fn watched(
        self,
        config: RetryConfig,
        outcome: std::result::Result<TxStatusView, RetryErrorView>,
    ) -> (SessionView, ActionView) {
        match outcome {
            Ok(status) => if status.reaches(config.commitment) {
                (
                    self.at(StepView::Finished),
                    ActionView::Finish(
                        Ok(
                            StatsView {
                                signature: self.step->signature,
                                attempts: self.attempts,
                                blockhash_refreshes: self.blockhash_refreshes,
                                used_leader_routing: self.used_leader_routing,
                            },
                        ),
                    ),
                )
            } else if status is Failed {
                self.fail(
                    RetryErrorView::TransactionRejected {
                        reason: status->reason,
                        signature: signature_to_text(self.step->signature),
                    },
                )
            } else {
                self.check_blockhash()
            },
            Err(error) => if error is ConfirmationTimeout {
                self.check_blockhash()
            } else {
                self.fail(error)
            },
        }
    }

    /// The session after an event, and what has to be done next while there is time.
    pub open spec fn react(
        self,
        config: RetryConfig,
        cache: CacheView,
        event: EventView,
        now: nat,
    ) -> (SessionView, ActionView) {
        match event {
            EventView::Start => self.attempt(config, cache, now),
            EventView::BackedOff => self.attempt(config, cache, now),
            EventView::Simulated(Ok(None)) => self.send(config),
            EventView::Simulated(Ok(Some(reason))) => self.fail(
                RetryErrorView::PreflightFailed(reason),
            ),
            EventView::Simulated(Err(why)) => self.fail(RetryErrorView::RpcError(why)),
            EventView::LeaderSent(true) => SessionView {
                used_leader_routing: true,
                ..self
            }.confirm(config, self.tx.signatures[0], now),
            EventView::LeaderSent(false) => (
                self.at(StepView::Submit),
                ActionView::Submit(plain_send()),
            ),
            EventView::Submitted(Ok(signature)) => self.confirm(config, signature, now),
            EventView::Submitted(Err(_)) => self.check_blockhash(),
            EventView::Watched(outcome) => self.watched(config, outcome),
            EventView::BlockhashChecked(reply) => if reply == Ok::<bool, Seq<char>>(false) {
                (
                    self.at(StepView::Refresh),
                    ActionView::RefreshBlockhash { commitment: CommitmentLevel::Finalized },
                )
            } else {
                (
                    self.at(StepView::Backoff),
                    ActionView::Backoff { attempt: self.spent, left: self.left(config, now) },
                )
            },
            EventView::Refreshed(Ok(blockhash)) => self.renew(
                config,
                cache,
                blockhash,
                signed_by(self.tx.message.at(blockhash), self.signer),
                now,
            ),
            EventView::Refreshed(Err(why)) => self.fail(RetryErrorView::RpcError(why)),
        }
    }

    /// The session as it sees an event: one that begins begins now.
    pub open spec fn seeing(self, event: EventView, now: nat) -> SessionView {
        if event is Start {
            SessionView { started: now, ..self }
        } else {
            self
        }
    }

    /// What comes of a step that the session takes: where it would go on although its time is
    /// up, it ends.
    pub open spec fn in_time(
        self,
        config: RetryConfig,
        now: nat,
        taken: (SessionView, ActionView),
    ) -> (SessionView, ActionView) {
        if taken.1 is Finish || !self.late(config, now) {
            taken
        } else {
            taken.0.fail(
                RetryErrorView::ConfirmationTimeout {
                    timeout_secs: (nanos(config.hard_timeout->0) / 1_000_000_000) as u64,
                    signature: self.tx.first_signature(),
                },
            )
        }
    }

    /// The session after an event, and what has to be done next.
    pub open spec fn next(
        self,
        config: RetryConfig,
        cache: CacheView,
        event: EventView,
        now: nat,
    ) -> (SessionView, ActionView) {
        let session = self.seeing(event, now);
        session.in_time(config, now, session.react(config, cache, event, now))
    }

    /// The cache after an event: what a simulation found is stored, and the entry of a
    /// transaction that was confirmed is removed.
    pub open spec fn next_cache(
        self,
        config: RetryConfig,
        cache: CacheView,
        event: EventView,
        now: nat,
    ) -> CacheView {
        match event {
            EventView::Simulated(Ok(None)) => cache.store(
                self.tx_key,
                SimulationView::Success,
                self.tx.message.recent_blockhash,
                now,
            ),
            EventView::Simulated(Ok(Some(reason))) => cache.store(
                self.tx_key,
                SimulationView::Failed(reason),
                self.tx.message.recent_blockhash,
                now,
            ),
            EventView::Watched(Ok(status)) => if status.reaches(config.commitment) {
                cache.forget(self.tx_key)
            } else {
                cache
            },
            _ => cache,
        }
    }
}

impl SendSession {
    /// How many attempts were made so far.
    pub fn attempts(&self) -> (n: u32)
        ensures
            n == self@.attempts,
    {
        self.attempts
    }

    /// How many times the transaction was signed anew so far.
    pub fn blockhash_refreshes(&self) -> (n: u32)
        ensures
            n == self@.blockhash_refreshes,
    {
        self.blockhash_refreshes
    }

    /// The key under which simulations of the transaction are cached.
    pub fn tx_key(&self) -> (key: &str)
        ensures
            key@ == self@.tx_key,
    {
        self.tx_key.as_str()
    }

    /// The transaction as it was last signed.
    pub fn transaction(&self) -> (tx: &Transaction)
        ensures
            tx@ == self@.tx,
    {
        &self.tx
    }

    /// Ends the session with an error.
    fn fail(&mut self, error: RetryError) -> (action: Action)
        ensures
            (final(self)@, action@) == old(self)@.fail(error@),
    {
        self.step = Step::Finished;
        Action::Finish(Err(error))
    }

    /// How much time the session has left, where its time is limited.
    fn left(&self, config: &RetryConfig, now: Duration) -> (left: Option<Duration>)
        ensures
            span_view(left) == self@.left(*config, nanos(now)),
    {
        match config.hard_timeout {
            Some(limit) => Some(limit.saturating_sub(now.saturating_sub(self.started))),
            None => None,
        }
    }

    /// Goes on to send the transaction.
    fn send(&mut self, config: &RetryConfig) -> (action: Action)
        ensures
            (final(self)@, action@) == old(self)@.send(*config),
    {
        if config.use_leader_routing && self.tx.signatures.len() > 0 {
            self.step = Step::SendToLeader;
            Action::SendToLeader
        } else {
            self.step = Step::Submit;
            Action::Submit(send_options())
        }
    }

    /// Goes on to wait for the confirmation under a signature.
    fn confirm(&mut self, config: &RetryConfig, signature: Signature, now: Duration) -> (action:
        Action)
        requires
            config.max_retries > 0,
            config.attempt_timeout_fits(),
        ensures
            (final(self)@, action@) == old(self)@.confirm(*config, signature@, nanos(now)),
    {
        let share: Duration = config.attempt_timeout();
        let timeout: Duration = match self.left(config, now) {
            Some(left) => {
                let poll: u128 = POLL_INTERVAL_MS as u128 * 1_000_000;
                let rounds: u128 = (share.as_nanos() + (poll - 1)) / poll;
                assert(rounds * poll == rounds * 500_000_000) by (nonlinear_arith)
                    requires
                        poll == 500_000_000,
                ;
                if rounds * poll <= left.as_nanos() {
                    share
                } else {
                    let turns: u128 = left.as_nanos() / poll;
                    Duration::from_millis((turns * POLL_INTERVAL_MS as u128) as u64)
                }
            },
            None => share,
        };
        self.step = Step::Confirm { signature };
        Action::AwaitConfirmation { signature, commitment: config.commitment, timeout }
    }

    /// Goes on to see whether the block hash has expired.
    fn check_blockhash(&mut self) -> (action: Action)
        ensures
            (final(self)@, action@) == old(self)@.check_blockhash(),
    {
        self.step = Step::CheckBlockhash;
        Action::CheckBlockhash { commitment: CommitmentLevel::Processed }
    }

    /// Begins another attempt.
    fn attempt(&mut self, config: &RetryConfig, cache: &PreflightCache, now: Duration) -> (action:
        Action)
        requires
            old(self)@.spent <= old(self)@.attempts,
            old(self)@.attempts < u32::MAX,
        ensures
            (final(self)@, action@) == old(self)@.attempt(*config, cache@, nanos(now)),
    {
        if self.spent >= config.max_retries {
            let signature: String = self.tx.first_signature();
            return self.fail(
                RetryError::MaxRetriesExceeded { attempts: self.attempts, signature },
            );
        }
        self.attempts = self.attempts + 1;
        self.spent = self.spent + 1;
        if !config.should_simulate(self.spent) {
            return self.send(config);
        }
        match cache.get_at(self.tx_key.as_str(), &self.tx.message.recent_blockhash, now) {
            Some(SimulationResult::Success) => self.send(config),
            Some(SimulationResult::Failed(reason)) => self.fail(
                RetryError::PreflightFailed(reason),
            ),
            None => {
                self.step = Step::Simulate;
                Action::Simulate
            },
        }
    }

    /// Goes on after the simulation.
    fn simulated(
        &mut self,
        config: &RetryConfig,
        cache: &mut PreflightCache,
        reply: Reply<Option<String>>,
        now: Duration,
    ) -> (action: Action)
        ensures
            (final(self)@, action@) == old(self)@.react(
                *config,
                old(cache)@,
                Event::Simulated(reply)@,
                nanos(now),
            ),
            final(cache)@ == old(self)@.next_cache(
                *config,
                old(cache)@,
                Event::Simulated(reply)@,
                nanos(now),
            ),
    {
        match run_simulation(reply) {
            Ok(()) => {
                cache.insert_at(
                    self.tx_key.clone(),
                    SimulationResult::Success,
                    self.tx.message.recent_blockhash,
                    now,
                );
                self.send(config)
            },
            Err(RetryError::PreflightFailed(reason)) => {
                cache.insert_at(
                    self.tx_key.clone(),
                    SimulationResult::Failed(reason.clone()),
                    self.tx.message.recent_blockhash,
                    now,
                );
                self.fail(RetryError::PreflightFailed(reason))
            },
            Err(error) => self.fail(error),
        }
    }

    /// Goes on after the wait for the confirmation under a signature.
    fn watched(
        &mut self,
        config: &RetryConfig,
        cache: &mut PreflightCache,
        signature: Signature,
        outcome: Result<TxStatus>,
    ) -> (action: Action)
        requires
            old(self)@.step == (StepView::Confirm { signature: signature@ }),
        ensures
            (final(self)@, action@) == old(self)@.watched(
                *config,
                match outcome {
                    Ok(status) => Ok(status@),
                    Err(error) => Err(error@),
                },
            ),
            final(cache)@ == (if outcome is Ok && outcome->Ok_0@.reaches(config.commitment) {
                old(cache)@.forget(old(self)@.tx_key)
            } else {
                old(cache)@
            }),
    {
        let status = match outcome {
            Ok(status) => status,
            Err(RetryError::ConfirmationTimeout { timeout_secs: _, signature: _ }) => {
                return self.check_blockhash();
            },
            Err(error) => return self.fail(error),
        };
        if status.has_reached(config.commitment) {
            cache.remove(self.tx_key.as_str());
            self.step = Step::Finished;
            return Action::Finish(
                Ok(
                    RetryStats {
                        signature,
                        attempts: self.attempts,
                        blockhash_refreshes: self.blockhash_refreshes,
                        used_leader_routing: self.used_leader_routing,
                    },
                ),
            );
        }
        match status {
            TxStatus::Failed { reason } => self.fail(
                RetryError::TransactionRejected { reason, signature: signature.to_text() },
            ),
            _ => self.check_blockhash(),
        }
    }

    /// Goes on after the transaction was signed anew, or could not be.
    fn resume(
        &mut self,
        config: &RetryConfig,
        cache: &PreflightCache,
        signed: bool,
        now: Duration,
    ) -> (action: Action)
        requires
            1 <= old(self)@.spent <= old(self)@.attempts < u32::MAX,
            old(self)@.blockhash_refreshes < u32::MAX,
        ensures
            (final(self)@, action@) == (if signed {
                (SessionView {
                    spent: (old(self)@.spent - 1) as u32,
                    blockhash_refreshes: (old(self)@.blockhash_refreshes + 1) as u32,
                    ..old(self)@
                }).attempt(*config, cache@, nanos(now))
            } else {
                old(self)@.fail(RetryErrorView::BlockhashExpired)
            }),
    {
        if !signed {
            return self.fail(RetryError::BlockhashExpired);
        }
        self.spent = self.spent - 1;
        self.blockhash_refreshes = self.blockhash_refreshes + 1;
        self.attempt(config, cache, now)
    }

    /// Goes on after an event while there is time.
    fn react(
        &mut self,
        config: &RetryConfig,
        cache: &mut PreflightCache,
        event: Event,
        now: Duration,
    ) -> (action: Action)
        requires
            old(self)@.wf(*config),
            old(self)@.accepts(event@),
        ensures
            (final(self)@, action@) == old(self)@.react(*config, old(cache)@, event@, nanos(now)),
            final(cache)@ == old(self)@.next_cache(*config, old(cache)@, event@, nanos(now)),
            final(self)@.wf(*config),
            event@ matches EventView::Refreshed(Ok(_)) ==> !old(self)@.tx.message.is_signed_by(
                old(self)@.signer,
            ) ==> action@ == ActionView::Finish(Err(RetryErrorView::BlockhashExpired)),
    {
        match event {
            Event::Start => self.attempt(config, cache, now),
            Event::BackedOff => self.attempt(config, cache, now),
            Event::Simulated(reply) => self.simulated(config, cache, reply, now),
            Event::LeaderSent(sent) => {
                if !sent {
                    self.step = Step::Submit;
                    return Action::Submit(send_options());
                }
                self.used_leader_routing = true;
                let signature: Signature = self.tx.signatures[0];
                self.confirm(config, signature, now)
            },
            Event::Submitted(Ok(signature)) => self.confirm(config, signature, now),
            Event::Submitted(Err(_)) => self.check_blockhash(),
            Event::Watched(outcome) => match self.step {
                Step::Confirm { signature } => self.watched(config, cache, signature, outcome),
                _ => {
                    assert(false);
                    self.check_blockhash()
                },
            },
            Event::BlockhashChecked(reply) => {
                if is_blockhash_expired(reply) {
                    self.step = Step::Refresh;
                    Action::RefreshBlockhash { commitment: CommitmentLevel::Finalized }
                } else {
                    let left: Option<Duration> = self.left(config, now);
                    self.step = Step::Backoff;
                    Action::Backoff { attempt: self.spent, left }
                }
            },
            Event::Refreshed(Ok(blockhash)) => {
                let signed: bool = self.tx.refresh_blockhash(&self.signer, blockhash);
                self.resume(config, cache, signed, now)
            },
            Event::Refreshed(Err(why)) => self.fail(RetryError::RpcError(why)),
        }
    }

    /// The error that the session ends with where its time is up.
    fn late(&self, config: &RetryConfig, now: Duration) -> (late: Option<RetryError>)
        ensures
            late is Some <==> self@.late(*config, nanos(now)),
            late matches Some(error) ==> error@ == (RetryErrorView::ConfirmationTimeout {
                timeout_secs: (nanos(config.hard_timeout->0) / 1_000_000_000) as u64,
                signature: self@.tx.first_signature(),
            }),
    {
        match (config.hard_timeout, self.left(config, now)) {
            (Some(limit), Some(left)) => if left.as_nanos() == 0 {
                Some(
                    RetryError::ConfirmationTimeout {
                        timeout_secs: limit.as_secs(),
                        signature: self.tx.first_signature(),
                    },
                )
            } else {
                None
            },
            _ => None,
        }
    }

    /// Ends the session where it would go on although its time is up.
    fn in_time(&mut self, late: Option<RetryError>, action: Action) -> (outcome: Action)
        ensures
            (final(self)@, outcome@) == (if action@ is Finish || late is None {
                (old(self)@, action@)
            } else {
                old(self)@.fail(late->0@)
            }),
    {
        match (late, action) {
            (_, Action::Finish(outcome)) => Action::Finish(outcome),
            (Some(error), _) => self.fail(error),
            (None, action) => action,
        }
    }

    /// Moves the session on by an event that came at a given time on the clock of the cache.
    fn advance(
        &mut self,
        config: &RetryConfig,
        cache: &mut PreflightCache,
        event: Event,
        now: Duration,
    ) -> (action: Action)
        requires
            old(self)@.wf(*config),
            old(self)@.accepts(event@),
        ensures
            final(self)@.wf(*config),
            (final(self)@, action@) == old(self)@.next(*config, old(cache)@, event@, nanos(now)),
            final(cache)@ == old(self)@.next_cache(*config, old(cache)@, event@, nanos(now)),
            event@ matches EventView::Refreshed(Ok(_)) ==> !old(self)@.tx.message.is_signed_by(
                old(self)@.signer,
            ) ==> action@ == ActionView::Finish(Err(RetryErrorView::BlockhashExpired)),
    {
        if let Event::Start = event {
            self.started = now;
        }
        let late: Option<RetryError> = self.late(config, now);
        let action: Action = self.react(config, cache, event, now);
        self.in_time(late, action)
    }
}

/// How the transaction is handed to the RPC node.
pub fn send_options() -> (options: SendOptions)
    ensures
        options == plain_send(),
{
    SendOptions { skip_preflight: true, max_retries: 0 }
}

/// Reads the reply to a simulation: it fails where the simulation found an error or the client
/// failed.
pub fn run_simulation(reply: Reply<Option<String>>) -> (outcome: Result<()>)
    ensures
        match reply {
            Ok(None) => outcome is Ok,
            Ok(Some(reason)) => outcome is Err && outcome->Err_0@
                == RetryErrorView::PreflightFailed(reason@),
            Err(why) => outcome is Err && outcome->Err_0@ == RetryErrorView::RpcError(why@),
        },
{
    match reply {
        Ok(None) => Ok(()),
        Ok(Some(reason)) => Err(RetryError::PreflightFailed(reason)),
        Err(why) => Err(RetryError::RpcError(why)),
    }
}

/// Reads the reply to the question whether a block hash is valid. Where the client failed, the
/// block hash is taken to be valid still.
pub fn is_blockhash_expired(reply: Reply<bool>) -> (expired: bool)
    ensures
        expired == (reply is Ok && !reply->Ok_0),
{
    match reply {
        Ok(valid) => !valid,
        Err(_) => false,
    }
}

/// The retry engine: what it is configured to do and the simulations that it remembers.
pub struct RetryEngine {
    pub config: RetryConfig,
    pub preflight_cache: PreflightCache,
}

impl RetryEngine {
    /// Makes an engine that remembers nothing yet.
    pub fn new(config: RetryConfig) -> (engine: Self)
        ensures
            engine.config == config,
            engine.preflight_cache@.is_new(60_000_000_000),
    {
        RetryEngine { config, preflight_cache: PreflightCache::new() }
    }

    /// Starts to send a signed transaction. Where its block hash expires, it is signed anew with
    /// the key pair.
    pub fn send_with_retry(&self, transaction: Transaction, signer: &Keypair) -> (session:
        SendSession)
        requires
            self.config.attempt_timeout_fits(),
            transaction@.message.fits(),
        ensures
            session@ == SessionView::start(transaction@, signer@),
            session@.wf(self.config),
    {
        SendSession {
            tx_key: transaction.message_key(),
            tx: transaction,
            signer: Keypair { bytes: signer.bytes },
            attempts: 0,
            spent: 0,
            blockhash_refreshes: 0,
            used_leader_routing: false,
            started: Duration::from_millis(0),
            step: Step::Start,
        }
    }

    /// Moves a session on by an event, and says what has to be done next.
    pub fn advance(&mut self, session: &mut SendSession, event: Event) -> (action: Action)
        requires
            old(session)@.wf(old(self).config),
            old(session)@.accepts(event@),
        ensures
            final(self).config == old(self).config,
            final(session)@.wf(final(self).config),
            exists|now: Duration|
                {
                    &&& #[trigger] old(self).preflight_cache@.can_read(now)
                    &&& (final(session)@, action@) == old(session)@.next(
                        old(self).config,
                        old(self).preflight_cache@,
                        event@,
                        nanos(now),
                    )
                    &&& final(self).preflight_cache@ == old(session)@.next_cache(
                        old(self).config,
                        old(self).preflight_cache@,
                        event@,
                        nanos(now),
                    )
                },
            event@ matches EventView::Refreshed(Ok(_)) ==> !old(session)@.tx.message.is_signed_by(
                old(session)@.signer,
            ) ==> action@ == ActionView::Finish(Err(RetryErrorView::BlockhashExpired)),
    {
        let now = self.preflight_cache.now();
        self.advance_at(session, event, now)
    }

    /// Moves a session on by an event that came at a given time on the clock of the cache, and
    /// says what has to be done next.
    pub fn advance_at(&mut self, session: &mut SendSession, event: Event, now: Duration) -> (action:
        Action)
        requires
            old(session)@.wf(old(self).config),
            old(session)@.accepts(event@),
        ensures
            final(self).config == old(self).config,
            final(session)@.wf(final(self).config),
            (final(session)@, action@) == old(session)@.next(
                old(self).config,
                old(self).preflight_cache@,
                event@,
                nanos(now),
            ),
            final(self).preflight_cache@ == old(session)@.next_cache(
                old(self).config,
                old(self).preflight_cache@,
                event@,
                nanos(now),
            ),
            event@ matches EventView::Refreshed(Ok(_)) ==> !old(session)@.tx.message.is_signed_by(
                old(session)@.signer,
            ) ==> action@ == ActionView::Finish(Err(RetryErrorView::BlockhashExpired)),
    {
        session.advance(&self.config, &mut self.preflight_cache, event, now)
    }

    /// Moves a session on that waits for a fresh block hash, given the block hash and the
    /// signatures that were made for it, if they could be made.
    pub fn resume_at(
        &mut self,
        session: &mut SendSession,
        blockhash: Blockhash,
        signatures: Option<Vec<Signature>>,
        now: Duration,
    ) -> (action: Action)
        requires
            old(session)@.wf(old(self).config),
            old(session)@.accepts(EventView::Refreshed(Ok(blockhash@))),
        ensures
            final(self).config == old(self).config,
            final(self).preflight_cache@ == old(self).preflight_cache@,
            final(session)@.wf(final(self).config),
            (final(session)@, action@) == old(session)@.in_time(
                old(self).config,
                nanos(now),
                old(session)@.renew(
                    old(self).config,
                    old(self).preflight_cache@,
                    blockhash@,
                    match signatures {
                        Some(list) => Some(signatures_view(list@)),
                        None => None,
                    },
                    nanos(now),
                ),
            ),
    {
        let late: Option<RetryError> = session.late(&self.config, now);
        let signed: bool = match signatures {
            Some(list) => {
                session.tx.renew(blockhash, list);
                true
            },
            None => false,
        };
        let action: Action = session.resume(&self.config, &self.preflight_cache, signed, now);
        session.in_time(late, action)
    }

    /// The delay in milliseconds after an attempt before it is moved at random.
    pub open spec fn delay_after(&self, attempt: u32) -> nat {
        delay(millis(self.config.base_delay), millis(self.config.max_delay), attempt as nat)
    }

    /// How long to wait after an attempt: the base delay, doubled with each attempt up to the
    /// longest one, and moved at random by up to a fifth.
    pub fn backoff(&self, attempt: u32) -> (wait: Duration)
        ensures
            exists|draw: u64| #[trigger]
                can_draw(spread(self.delay_after(attempt)), draw) && draw <= 2 * spread(
                    self.delay_after(attempt),
                ) && nanos(wait) == jittered(
                    self.delay_after(attempt),
                    millis(self.config.max_delay),
                    draw as nat,
                ) * 1_000_000,
    {
        let base_ms: u64 = whole_millis(&self.config.base_delay);
        let max_ms: u64 = whole_millis(&self.config.max_delay);
        let capped_ms: u64 = capped_delay(base_ms, max_ms, attempt);
        assert(capped_ms as nat == self.delay_after(attempt));
        Duration::from_millis(spread_delay(capped_ms, max_ms))
    }

    /// How long to wait after an attempt where the time is limited: the backoff delay, but no
    /// longer than the time that is left.
    pub fn backoff_within(&self, attempt: u32, left: Option<Duration>) -> (wait: Duration)
        ensures
            exists|draw: u64| #[trigger]
                can_draw(spread(self.delay_after(attempt)), draw) && draw <= 2 * spread(
                    self.delay_after(attempt),
                ) && nanos(wait) == within(
                    jittered(
                        self.delay_after(attempt),
                        millis(self.config.max_delay),
                        draw as nat,
                    ) * 1_000_000,
                    span_view(left),
                ),
    {
        let wait: Duration = self.backoff(attempt);
        match left {
            Some(left) => shorter_span(wait, left),
            None => wait,
        }
    }
}

} // verus!
