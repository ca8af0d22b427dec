//! What a session does after each event, told in the words of its callers: what was configured,
//! what the network answered, and how much time is left.

use crate::backoff::{law_doubles, law_starts_at_base, law_starts_within_longest};
use crate::config::{CommitmentLevel, RetryConfig};
use crate::error::RetryErrorView;
use crate::keys::signature_to_text;
use crate::preflight_cache::{CacheView, EntryView, SimulationView};
use crate::retry_engine::{
    span_view, within, ActionView, EventView, RetryEngine, SendOptions, SessionView, StatsView,
    StepView,
};
use crate::time::{millis, nanos};
use crate::transaction::{is_keypair, message_bytes, signature_of, MessageView, TransactionView};
use crate::tx_monitor::{intervals, TxStatusView};
use std::time::Duration;

use vstd::prelude::*;

verus! {

/// Whether a session that began at a given time may still go on.
pub open spec fn has_time(config: RetryConfig, started: nat, now: nat) -> bool {
    config.hard_timeout matches Some(limit) ==> nanos(limit) > 0 && now < started + nanos(limit)
}

/// Whether a transaction with a given status has landed at the level asked for.
pub open spec fn has_landed(status: TxStatusView, level: CommitmentLevel) -> bool {
    ||| status is Finalized
    ||| status is Confirmed && !(level is Finalized)
    ||| status is Processed && level is Processed
}

/// The error that tells that the time is up.
pub open spec fn time_is_up(config: RetryConfig, tx: TransactionView, error: RetryErrorView) -> bool {
    &&& error is ConfirmationTimeout
    &&& config.hard_timeout is Some
    &&& error->timeout_secs == (nanos(config.hard_timeout->0) / 1_000_000_000) as u64
    &&& error->ConfirmationTimeout_signature == told_signature(tx)
}

/// The signature by which a transaction is told of: the text of its first one, if it has one.
pub open spec fn told_signature(tx: TransactionView) -> Seq<char> {
    if tx.signatures.len() == 0 {
        Seq::empty()
    } else {
        signature_to_text(tx.signatures[0])
    }
}

/// Whether an action sends the transaction off: to the leader where routing is on and the
/// transaction is signed, and otherwise to the RPC node, which neither simulates nor retries.
pub open spec fn sends_off(config: RetryConfig, tx: TransactionView, action: ActionView) -> bool {
    if config.use_leader_routing && tx.signatures.len() > 0 {
        action is SendToLeader
    } else {
        action == ActionView::Submit(SendOptions { skip_preflight: true, max_retries: 0 })
    }
}

/// Whether the cache knows what a simulation of the transaction finds: an entry stands under its
/// key, was stored for its block hash, and has not outlived its time to live.
pub open spec fn is_known(
    cache: CacheView,
    key: Seq<char>,
    tx: TransactionView,
    now: nat,
) -> bool {
    &&& cache.entries.contains_key(key)
    &&& cache.entries[key].blockhash == tx.message.recent_blockhash
    &&& now <= cache.entries[key].cached_at + cache.ttl
}

/// Whether an action is the one with which an attempt begins: a simulation, where one is wanted
/// and the cache does not know the answer; the end, where the cache knows that it would fail; and
/// otherwise the transaction is sent off.
pub open spec fn begins_attempt(
    config: RetryConfig,
    cache: CacheView,
    key: Seq<char>,
    tx: TransactionView,
    first: bool,
    now: nat,
    action: ActionView,
) -> bool {
    if !config.preflight_enabled || (!first && config.skip_preflight_on_retry) {
        sends_off(config, tx, action)
    } else if !is_known(cache, key, tx, now) {
        action is Simulate
    } else {
        match cache.entries[key].result {
            SimulationView::Success => sends_off(config, tx, action),
            SimulationView::Failed(reason) => action == ActionView::Finish(
                Err(RetryErrorView::PreflightFailed(reason)),
            ),
        }
    }
}

/// A session begins with nothing counted.
pub proof fn law_session_begins_empty(tx: TransactionView, signer: Seq<u8>)
    ensures
        ({
            let session = SessionView::start(tx, signer);
            &&& session.tx == tx
            &&& session.signer == signer
            &&& session.attempts == 0
            &&& session.spent == 0
            &&& session.blockhash_refreshes == 0
            &&& !session.used_leader_routing
            &&& session.step is Start
        }),
{
}

/// An attempt is one more that is made and one more that counts, and begins with the simulation
/// that is wanted of it or is sent off. Where as many count as are allowed, none begins, and the
/// session tells how many were made.
pub proof fn law_attempt_begins(
    session: SessionView,
    config: RetryConfig,
    cache: CacheView,
    event: EventView,
    now: nat,
)
    requires
        session.wf(config),
        session.accepts(event),
        event is Start || event is BackedOff,
        has_time(
            config,
            if event is Start {
                now
            } else {
                session.started
            },
            now,
        ),
    ensures
        ({
            let (after, action) = session.next(config, cache, event, now);
            &&& session.spent < config.max_retries ==> {
                &&& after.attempts == session.attempts + 1
                &&& after.spent == session.spent + 1
                &&& begins_attempt(
                    config,
                    cache,
                    session.tx_key,
                    session.tx,
                    session.spent == 0,
                    now,
                    action,
                )
            }
            &&& session.spent == config.max_retries ==> action == ActionView::Finish(
                Err(
                    RetryErrorView::MaxRetriesExceeded {
                        attempts: session.attempts,
                        signature: told_signature(session.tx),
                    },
                ),
            )
        }),
{
}

/// A simulation that finds nothing wrong lets the transaction be sent off; one that finds an error
/// or cannot be run ends the session with that.
pub proof fn law_simulation_decides(
    session: SessionView,
    config: RetryConfig,
    cache: CacheView,
    reply: std::result::Result<Option<Seq<char>>, Seq<char>>,
    now: nat,
)
    requires
        session.accepts(EventView::Simulated(reply)),
    ensures
        ({
            let action = session.next(config, cache, EventView::Simulated(reply), now).1;
            match reply {
                Ok(None) => has_time(config, session.started, now) ==> sends_off(
                    config,
                    session.tx,
                    action,
                ),
                Ok(Some(reason)) => action == ActionView::Finish(
                    Err(RetryErrorView::PreflightFailed(reason)),
                ),
                Err(why) => action == ActionView::Finish(Err(RetryErrorView::RpcError(why))),
            }
        }),
{
}

/// A transaction that a leader was handed is waited for under its first signature; one that none
/// was handed goes to the RPC node.
pub proof fn law_leader_comes_first(
    session: SessionView,
    config: RetryConfig,
    cache: CacheView,
    sent: bool,
    now: nat,
)
    requires
        session.wf(config),
        session.accepts(EventView::LeaderSent(sent)),
        has_time(config, session.started, now),
    ensures
        ({
            let (after, action) = session.next(config, cache, EventView::LeaderSent(sent), now);
            &&& sent ==> awaits_under(config, session.tx.signatures[0], action) && after.step == (
            StepView::Confirm { signature: session.tx.signatures[0] })
            &&& !sent ==> action == ActionView::Submit(
                SendOptions { skip_preflight: true, max_retries: 0 },
            )
            &&& after.used_leader_routing == (session.used_leader_routing || sent)
        }),
{
}

/// Whether an action is the wait for a transaction to reach the level asked for under a signature.
pub open spec fn awaits_under(
    config: RetryConfig,
    signature: Seq<u8>,
    action: ActionView,
) -> bool {
    &&& action is AwaitConfirmation
    &&& action->signature == signature
    &&& action->AwaitConfirmation_commitment == config.commitment
}

/// A transaction that was submitted is waited for under the signature that the node gave. One that
/// could not be submitted is no reason to give up, however many attempts were made: the session
/// asks whether its block hash has expired.
pub proof fn law_failed_submission_is_not_the_end(
    session: SessionView,
    config: RetryConfig,
    cache: CacheView,
    reply: std::result::Result<Seq<u8>, Seq<char>>,
    now: nat,
)
    requires
        session.accepts(EventView::Submitted(reply)),
        has_time(config, session.started, now),
    ensures
        ({
            let (after, action) = session.next(config, cache, EventView::Submitted(reply), now);
            match reply {
                Ok(signature) => awaits_under(config, signature, action) && after.step == (
                StepView::Confirm { signature }),
                Err(_) => action == (ActionView::CheckBlockhash {
                    commitment: CommitmentLevel::Processed,
                }) && after.step is CheckBlockhash,
            }
        }),
{
}

/// A transaction that has landed ends the session with its statistics, and one that was rejected
/// with the reason. One that was not seen in time, was dropped or has not come far enough is no
/// reason to give up: the session asks whether its block hash has expired. Any other error of the
/// wait is handed on.
pub proof fn law_wait_decides(
    session: SessionView,
    config: RetryConfig,
    cache: CacheView,
    outcome: std::result::Result<TxStatusView, RetryErrorView>,
    now: nat,
)
    requires
        session.accepts(EventView::Watched(outcome)),
    ensures
        ({
            let action = session.next(config, cache, EventView::Watched(outcome), now).1;
            let in_time = has_time(config, session.started, now);
            let asks = action == (ActionView::CheckBlockhash {
                commitment: CommitmentLevel::Processed,
            });
            match outcome {
                Ok(status) => {
                    &&& has_landed(status, config.commitment) ==> action == ActionView::Finish(
                        Ok(
                            StatsView {
                                signature: session.step->signature,
                                attempts: session.attempts,
                                blockhash_refreshes: session.blockhash_refreshes,
                                used_leader_routing: session.used_leader_routing,
                            },
                        ),
                    )
                    &&& status matches TxStatusView::Failed { reason } ==> action
                        == ActionView::Finish(
                        Err(
                            RetryErrorView::TransactionRejected {
                                reason,
                                signature: signature_to_text(session.step->signature),
                            },
                        ),
                    )
                    &&& !has_landed(status, config.commitment) && !(status is Failed) && in_time
                        ==> asks
                },
                Err(error) => {
                    &&& error is ConfirmationTimeout && in_time ==> asks
                    &&& !(error is ConfirmationTimeout) ==> action == ActionView::Finish(
                        Err(error),
                    )
                },
            }
        }),
{
}

/// A block hash that the network says is no longer valid is renewed. Otherwise the session backs
/// off by the delay of as many attempts as count so far, without a limit where the time is not
/// limited and with the time that is left where it is.
pub proof fn law_backs_off_by_what_counts(
    session: SessionView,
    config: RetryConfig,
    cache: CacheView,
    reply: std::result::Result<bool, Seq<char>>,
    now: nat,
)
    requires
        session.accepts(EventView::BlockhashChecked(reply)),
        has_time(config, session.started, now),
    ensures
        ({
            let action = session.next(config, cache, EventView::BlockhashChecked(reply), now).1;
            if reply is Ok && !reply->Ok_0 {
                action == (ActionView::RefreshBlockhash { commitment: CommitmentLevel::Finalized })
            } else {
                &&& action is Backoff
                &&& action->attempt == session.spent
                &&& config.hard_timeout is None <==> action->left is None
                &&& config.hard_timeout matches Some(limit) ==> now >= session.started ==> now
                    + action->left->0 == session.started + nanos(limit)
            }
        }),
{
}

/// Whenever a session backs off, after whatever event, it is by the delay of the attempts that
/// count.
pub proof fn law_every_backoff_counts(
    session: SessionView,
    config: RetryConfig,
    cache: CacheView,
    event: EventView,
    now: nat,
)
    requires
        session.accepts(event),
    ensures
        session.next(config, cache, event, now).1 matches ActionView::Backoff { attempt, left } ==> {
            &&& attempt == session.spent
            &&& attempt == session.next(config, cache, event, now).0.spent
            &&& left is None <==> config.hard_timeout is None
        },
{
}

/// A transaction whose block hash was renewed commits to the fresh one, bears exactly the signature
/// that its key pair makes over the renewed message, and is otherwise what it was. The attempt that
/// begins with it is one more that is made and none that counts. A transaction that the key pair
/// cannot sign ends the session, and so does a block hash that could not be fetched.
pub proof fn law_fresh_blockhash_is_signed(
    session: SessionView,
    config: RetryConfig,
    cache: CacheView,
    reply: std::result::Result<Seq<u8>, Seq<char>>,
    now: nat,
)
    requires
        session.wf(config),
        session.accepts(EventView::Refreshed(reply)),
    ensures
        ({
            let (after, action) = session.next(config, cache, EventView::Refreshed(reply), now);
            match reply {
                Ok(blockhash) => {
                    let message = MessageView {
                        recent_blockhash: blockhash,
                        ..session.tx.message
                    };
                    let signature = signature_of(session.signer, message_bytes(message));
                    let signs = {
                        &&& is_keypair(session.signer)
                        &&& session.tx.message.num_required_signatures == 1
                        &&& session.tx.message.account_keys.len() > 0
                        &&& session.tx.message.account_keys[0] == session.signer.subrange(32, 64)
                        &&& signature != Seq::new(64, |i: int| 0u8)
                    };
                    &&& signs ==> {
                        &&& after.tx.message == message
                        &&& after.tx.signatures == seq![signature]
                        &&& session.tx.refreshed(session.signer, blockhash) == Some(after.tx)
                        &&& after.attempts == session.attempts + 1
                        &&& after.spent == session.spent
                        &&& after.blockhash_refreshes == session.blockhash_refreshes + 1
                        &&& has_time(config, session.started, now) ==> begins_attempt(
                            config,
                            cache,
                            session.tx_key,
                            after.tx,
                            session.spent == 1,
                            now,
                            action,
                        )
                    }
                    &&& !signs ==> action == ActionView::Finish(
                        Err(RetryErrorView::BlockhashExpired),
                    ) && after.tx == session.tx
                },
                Err(why) => action == ActionView::Finish(Err(RetryErrorView::RpcError(why)))
                    && after.tx == session.tx,
            }
        }),
{
}

/// Signatures that are handed to a session with a fresh block hash are those that its transaction
/// then bears.
pub proof fn law_given_signatures_are_borne(
    session: SessionView,
    config: RetryConfig,
    cache: CacheView,
    blockhash: Seq<u8>,
    signatures: Option<Seq<Seq<u8>>>,
    now: nat,
)
    requires
        session.wf(config),
        session.accepts(EventView::Refreshed(Ok(blockhash))),
    ensures
        ({
            let (after, action) = session.in_time(
                config,
                now,
                session.renew(config, cache, blockhash, signatures, now),
            );
            match signatures {
                Some(signatures) => {
                    &&& after.tx.signatures == signatures
                    &&& after.tx.message == (MessageView {
                        recent_blockhash: blockhash,
                        ..session.tx.message
                    })
                    &&& after.attempts == session.attempts + 1
                    &&& after.spent == session.spent
                    &&& after.blockhash_refreshes == session.blockhash_refreshes + 1
                    &&& has_time(config, session.started, now) ==> begins_attempt(
                        config,
                        cache,
                        session.tx_key,
                        after.tx,
                        session.spent == 1,
                        now,
                        action,
                    )
                },
                None => after.tx == session.tx && action == ActionView::Finish(
                    Err(RetryErrorView::BlockhashExpired),
                ),
            }
        }),
{
}

/// Only what an event is about changes: the transaction with a fresh block hash, the counts with an
/// attempt, the routing with a leader that was handed the transaction, the beginning with the first
/// event. The key and the signer never do.
pub proof fn law_nothing_else_changes(
    session: SessionView,
    config: RetryConfig,
    cache: CacheView,
    event: EventView,
    now: nat,
)
    requires
        session.wf(config),
        session.accepts(event),
    ensures
        ({
            let after = session.next(config, cache, event, now).0;
            &&& after.tx_key == session.tx_key
            &&& after.signer == session.signer
            &&& !(event is Refreshed) ==> after.tx == session.tx && after.blockhash_refreshes
                == session.blockhash_refreshes
            &&& !(event is Refreshed || event is Start || event is BackedOff) ==> after.attempts
                == session.attempts && after.spent == session.spent
            &&& event != EventView::LeaderSent(true) ==> after.used_leader_routing
                == session.used_leader_routing
            &&& event is Start ==> after.started == now
            &&& !(event is Start) ==> after.started == session.started
        }),
{
}

/// A session whose time is up ends with that, whatever it would go on with.
pub proof fn law_late_session_ends(
    session: SessionView,
    config: RetryConfig,
    cache: CacheView,
    event: EventView,
    now: nat,
)
    requires
        session.wf(config),
        session.accepts(event),
        !(event is Start),
        !has_time(config, session.started, now),
    ensures
        ({
            let action = session.next(config, cache, event, now).1;
            &&& action is Finish
            &&& event is LeaderSent || event is Submitted || event is BlockhashChecked || event
                == EventView::Simulated(Ok(None)) || (event matches EventView::Watched(Ok(status))
                && !has_landed(status, config.commitment) && !(status is Failed)) || (
            event matches EventView::Watched(Err(error)) && error is ConfirmationTimeout) ==> action
                ->Finish_0 is Err && time_is_up(config, session.tx, action->Finish_0->Err_0)
        }),
{
}

/// A session ends with an error only for a reason: the attempts allowed are used, a simulation
/// failed or could not be run, the ledger rejected the transaction, the wait failed otherwise than
/// by running out of time, the fresh block hash could not be fetched or signed for, or the time is
/// up.
pub proof fn law_ends_only_for_a_reason(
    session: SessionView,
    config: RetryConfig,
    cache: CacheView,
    event: EventView,
    now: nat,
)
    requires
        session.wf(config),
        session.accepts(event),
    ensures
        session.next(config, cache, event, now).1 matches ActionView::Finish(Err(error)) ==> {
            let begins = event is Start || event is BackedOff;
            let started = if event is Start {
                now
            } else {
                session.started
            };
            ||| error is MaxRetriesExceeded && begins && session.spent == config.max_retries
            ||| error is PreflightFailed && config.preflight_enabled && (begins
                || event is Refreshed) && cache.entries.contains_key(session.tx_key)
                && cache.entries[session.tx_key].result == SimulationView::Failed(
                error->PreflightFailed_0,
            )
            ||| error is PreflightFailed && event == EventView::Simulated(
                Ok(Some(error->PreflightFailed_0)),
            )
            ||| error is RpcError && event == EventView::Simulated(Err(error->RpcError_0))
            ||| error is RpcError && event == EventView::Refreshed(Err(error->RpcError_0))
            ||| error is TransactionRejected && event == EventView::Watched(
                Ok(TxStatusView::Failed { reason: error->reason }),
            )
            ||| !(error is ConfirmationTimeout) && event == EventView::Watched(Err(error))
            ||| error is BlockhashExpired && event is Refreshed
            ||| time_is_up(config, session.tx, error) && !has_time(config, started, now)
        },
{
}

/// How long a session waits for a confirmation: an even share of the whole time, rounded down to a
/// millisecond, and two seconds. Where the time is limited and so long a wait, asking every half
/// second, would pass its end, the wait is the longest that ends with a question in time.
pub proof fn law_wait_is_a_share_of_the_time(
    session: SessionView,
    config: RetryConfig,
    cache: CacheView,
    event: EventView,
    now: nat,
)
    requires
        session.wf(config),
        session.accepts(event),
    ensures
        session.next(config, cache, event, now).1 matches ActionView::AwaitConfirmation {
            signature,
            commitment,
            timeout,
        } ==> {
            let share = (timeout / 1_000_000 - 2000) as int;
            let whole = millis(config.confirmation_timeout) as int;
            let attempts = config.max_retries as int;
            let full = timeout % 1_000_000 == 0 && share * attempts <= whole < (share + 1)
                * attempts;
            &&& config.hard_timeout is None ==> full
            &&& config.hard_timeout matches Some(limit) ==> now >= session.started ==> {
                let left = session.started + nanos(limit) - now;
                ||| full && timeout <= left
                ||| timeout % 500_000_000 == 0 && timeout <= left < timeout + 500_000_000 && (share
                    + 1) * attempts <= whole
            }
        },
{
    let whole = millis(config.confirmation_timeout) as int;
    let attempts = config.max_retries as int;
    if attempts > 0 {
        let share = whole / attempts;
        assert(share * attempts <= whole < (share + 1) * attempts) by (nonlinear_arith)
            requires
                attempts > 0,
                whole >= 0,
                share == whole / attempts,
        ;
        let action = session.next(config, cache, event, now).1;
        if action is AwaitConfirmation {
            let given = (action->timeout / 1_000_000 - 2000) as int;
            let full = (share + 2000) * 1_000_000;
            assert(full == config.attempt_timeout_millis() * 1_000_000);
            if action->timeout != full {
                let turns = action->timeout / 500_000_000;
                let rounds = (full + 499_999_999) / 500_000_000;
                assert(rounds == intervals(full as nat, 500_000_000));
                assert(turns < rounds);
                assert(given < share);
                assert((given + 1) * attempts <= whole) by (nonlinear_arith)
                    requires
                        attempts > 0,
                        given + 1 <= share,
                        share * attempts <= whole,
                ;
            }
        }
    }
}

/// What a simulation found is stored for the block hash of the transaction at the time it was
/// found, a transaction that has landed is forgotten, and nothing else touches the cache.
pub proof fn law_cache_follows(
    session: SessionView,
    config: RetryConfig,
    cache: CacheView,
    event: EventView,
    now: nat,
)
    ensures
        ({
            let after = session.next_cache(config, cache, event, now);
            let key = session.tx_key;
            &&& after.ttl == cache.ttl
            &&& after.origin == cache.origin
            &&& event matches EventView::Simulated(Ok(found)) ==> after.entries
                == cache.entries.insert(
                key,
                EntryView {
                    result: match found {
                        Some(reason) => SimulationView::Failed(reason),
                        None => SimulationView::Success,
                    },
                    blockhash: session.tx.message.recent_blockhash,
                    cached_at: now,
                },
            )
            &&& event matches EventView::Watched(Ok(status)) ==> has_landed(
                status,
                config.commitment,
            ) ==> after.entries == cache.entries.remove(key)
            &&& !(event matches EventView::Simulated(Ok(_))) && !(event matches EventView::Watched(
                Ok(status),
            ) && has_landed(status, config.commitment)) ==> after == cache
        }),
{
}

/// The delay after an attempt grows from the base delay that was configured, by doubling, to the
/// longest one that was, in milliseconds.
pub proof fn law_engine_delay_grows(engine: RetryEngine, attempt: u32)
    requires
        1 <= attempt < 11,
    ensures
        ({
            let base = millis(engine.config.base_delay);
            let longest = millis(engine.config.max_delay);
            let delay = engine.delay_after(attempt);
            let next = engine.delay_after((attempt + 1) as u32);
            &&& attempt == 1 && base <= longest ==> delay == base
            &&& attempt == 1 && base > longest ==> delay == longest
            &&& 2 * delay <= longest ==> next == 2 * delay
            &&& 2 * delay > longest ==> next == longest
        }),
{
    let base = millis(engine.config.base_delay);
    let longest = millis(engine.config.max_delay);
    if base <= longest {
        law_starts_at_base(base, longest);
    }
    law_starts_within_longest(base, longest);
    law_doubles(base, longest, attempt as nat);
}

/// The delay after an attempt stops growing once it has doubled ten times.
pub proof fn law_engine_delay_stops_growing(engine: RetryEngine, attempt: u32)
    requires
        attempt >= 11,
    ensures
        engine.delay_after(attempt) == engine.delay_after(11),
{
}

/// The delay after no attempt is that after the first.
pub proof fn law_engine_delay_starts_at_once(engine: RetryEngine)
    ensures
        engine.delay_after(0) == engine.delay_after(1),
{
}

/// A wait that is limited is as long as it would be otherwise, or as long as the time that is left
/// where that is shorter.
pub proof fn law_limited_wait_ends_in_time(length: nat, left: Option<Duration>)
    ensures
        left is None ==> within(length, span_view(left)) == length,
        left matches Some(left) ==> {
            &&& length <= nanos(left) ==> within(length, span_view(Some(left))) == length
            &&& length > nanos(left) ==> within(length, span_view(Some(left))) == nanos(left)
        },
{
}

/// A session that begins can be told to, and whatever comes of an action can be told to the session
/// that asked for it, as long as another attempt can be counted.
pub proof fn law_every_answer_is_accepted(
    session: SessionView,
    config: RetryConfig,
    cache: CacheView,
    event: EventView,
    now: nat,
    answer: EventView,
)
    requires
        session.next(config, cache, event, now).0.attempts < u32::MAX,
    ensures
        SessionView::start(session.tx, session.signer).accepts(EventView::Start),
        ({
            let (after, action) = session.next(config, cache, event, now);
            let fits = match action {
                ActionView::Simulate => answer is Simulated,
                ActionView::SendToLeader => answer is LeaderSent,
                ActionView::Submit(_) => answer is Submitted,
                ActionView::AwaitConfirmation { signature: _, commitment: _, timeout: _ } => answer
                    is Watched,
                ActionView::CheckBlockhash { commitment: _ } => answer is BlockhashChecked,
                ActionView::RefreshBlockhash { commitment: _ } => answer is Refreshed,
                ActionView::Backoff { attempt: _, left: _ } => answer is BackedOff,
                ActionView::Finish(_) => false,
            };
            fits <==> after.accepts(answer)
        }),
{
}

/// Every transaction whose lists are short can be sent with every configuration whose waits can be
/// counted.
pub proof fn law_every_session_can_begin(tx: TransactionView, signer: Seq<u8>, config: RetryConfig)
    requires
        tx.message.fits(),
        config.attempt_timeout_fits(),
    ensures
        SessionView::start(tx, signer).wf(config),
{
}

} // verus!
