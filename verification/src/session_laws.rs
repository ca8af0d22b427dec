//! What holds of every session, whatever the network answers.

use crate::config::RetryConfig;
use crate::error::RetryErrorView;
use crate::keys::signature_to_text;
use crate::preflight_cache::{CacheView, SimulationView};
use crate::retry_engine::{
    plain_send, poll_interval, ActionView, EventView, SessionView, StatsView, StepView,
};
use crate::time::{age, nanos};
use crate::transaction::TransactionView;
use crate::tx_monitor::{intervals, TxStatusView};
use vstd::prelude::*;

verus! {

/// Whether a step is the wait for the outcome of an action.
pub open spec fn awaits(step: StepView, action: ActionView) -> bool {
    match action {
        ActionView::Simulate => step is Simulate,
        ActionView::SendToLeader => step is SendToLeader,
        ActionView::Submit(_) => step is Submit,
        ActionView::AwaitConfirmation { signature, commitment: _, timeout: _ } => step
            == StepView::Confirm { signature },
        ActionView::CheckBlockhash { commitment: _ } => step is CheckBlockhash,
        ActionView::RefreshBlockhash { commitment: _ } => step is Refresh,
        ActionView::Backoff { attempt: _, left: _ } => step is Backoff,
        ActionView::Finish(_) => step is Finished,
    }
}

/// After each event the session waits for the outcome of exactly the action that it asked for.
pub proof fn law_waits_for_its_action(
    session: SessionView,
    config: RetryConfig,
    cache: CacheView,
    event: EventView,
    now: nat,
)
    ensures
        awaits(
            session.next(config, cache, event, now).0.step,
            session.next(config, cache, event, now).1,
        ),
{
}

/// No session counts more attempts than it is allowed: what holds of every session goes on
/// holding after each event.
pub proof fn law_budget_is_kept(
    session: SessionView,
    config: RetryConfig,
    cache: CacheView,
    event: EventView,
    now: nat,
)
    requires
        session.wf(config),
        session.accepts(event),
    ensures
        session.next(config, cache, event, now).0.wf(config),
{
}

/// The cache key of a transaction never changes, however often it is signed anew.
pub proof fn law_key_is_stable(
    session: SessionView,
    config: RetryConfig,
    cache: CacheView,
    event: EventView,
    now: nat,
)
    ensures
        session.next(config, cache, event, now).0.tx_key == session.tx_key,
{
}

/// The cache key of a session is that of its transaction, and stays so when the transaction is
/// signed anew.
pub proof fn law_key_is_that_of_the_transaction(
    session: SessionView,
    config: RetryConfig,
    cache: CacheView,
    event: EventView,
    now: nat,
)
    requires
        session.tx_key == session.tx.message.key(),
    ensures
        ({
            let after = session.next(config, cache, event, now).0;
            after.tx_key == after.tx.message.key()
        }),
{
}

/// A fresh block hash is free: the attempt that is made with it is one more that is made and
/// none that counts against those allowed, nothing is waited for, and the session does not run
/// out of attempts.
pub proof fn law_refresh_is_free(
    session: SessionView,
    config: RetryConfig,
    cache: CacheView,
    blockhash: Seq<u8>,
    signatures: Seq<Seq<u8>>,
    now: nat,
)
    requires
        session.wf(config),
        session.accepts(EventView::Refreshed(Ok(blockhash))),
    ensures
        ({
            let (after, action) = session.renew(config, cache, blockhash, Some(signatures), now);
            &&& after.spent == session.spent
            &&& after.attempts == session.attempts + 1
            &&& after.blockhash_refreshes == session.blockhash_refreshes + 1
            &&& after.tx == session.tx.renewed(blockhash, signatures)
            &&& !(action is Backoff)
            &&& action matches ActionView::Finish(outcome) ==> outcome is Err && outcome->Err_0
                is PreflightFailed
        }),
{
}

/// A transaction that its key pair cannot sign anew ends the session with an error.
pub proof fn law_failed_signing_is_told(
    session: SessionView,
    config: RetryConfig,
    cache: CacheView,
    blockhash: Seq<u8>,
    now: nat,
)
    requires
        session.tx.refreshed(session.signer, blockhash) is None,
    ensures
        session.next(config, cache, EventView::Refreshed(Ok(blockhash)), now).1
            == ActionView::Finish(Err(RetryErrorView::BlockhashExpired)),
{
}

/// A block hash is renewed only where the network says that it is no longer valid; where it
/// says otherwise or cannot be asked, the session backs off. Either is done exactly while there
/// is time.
pub proof fn law_refreshes_only_expired(
    session: SessionView,
    config: RetryConfig,
    cache: CacheView,
    event: EventView,
    now: nat,
)
    requires
        session.accepts(event),
    ensures
        session.next(config, cache, event, now).1 is RefreshBlockhash <==> event
            == EventView::BlockhashChecked(Ok(false)) && !session.late(config, now),
        session.next(config, cache, event, now).1 is Backoff <==> event is BlockhashChecked
            && event != EventView::BlockhashChecked(Ok(false)) && !session.late(config, now),
{
}

/// A session says that a leader was handed the transaction exactly where one was, and then does
/// not submit it to the RPC node as well; where none was, it does while there is time.
pub proof fn law_routed_means_sent_to_a_leader(
    session: SessionView,
    config: RetryConfig,
    cache: CacheView,
    event: EventView,
    now: nat,
)
    requires
        session.accepts(event),
    ensures
        ({
            let (after, action) = session.next(config, cache, event, now);
            &&& after.used_leader_routing <==> session.used_leader_routing || event
                == EventView::LeaderSent(true)
            &&& event == EventView::LeaderSent(true) ==> !(action is Submit)
            &&& event == EventView::LeaderSent(false) && !session.late(config, now) ==> action
                == ActionView::Submit(plain_send())
        }),
{
}

/// A transaction whose simulation fails is not sent: the session ends with the reason that the
/// simulation gave.
pub proof fn law_failed_simulation_is_not_sent(
    session: SessionView,
    config: RetryConfig,
    cache: CacheView,
    reason: Seq<char>,
    now: nat,
)
    ensures
        session.next(config, cache, EventView::Simulated(Ok(Some(reason))), now).1
            == ActionView::Finish(Err(RetryErrorView::PreflightFailed(reason))),
{
}

/// A transaction whose simulation failed is refused when it is sent again with the same block
/// hash, without another simulation, for as long as the cache remembers.
pub proof fn law_failed_simulation_is_remembered(
    session: SessionView,
    config: RetryConfig,
    cache: CacheView,
    reason: Seq<char>,
    now: nat,
    again: SessionView,
    later: nat,
)
    requires
        again.tx_key == session.tx_key,
        again.tx.message.recent_blockhash == session.tx.message.recent_blockhash,
        again.step is Start,
        again.wf(config),
        config.max_retries > 0,
        config.preflight_enabled,
        now <= later <= now + cache.ttl,
    ensures
        again.next(
            config,
            session.next_cache(config, cache, EventView::Simulated(Ok(Some(reason))), now),
            EventView::Start,
            later,
        ).1 == ActionView::Finish(Err(RetryErrorView::PreflightFailed(reason))),
{
}

/// A transaction whose simulation succeeded is sent again with the same block hash without
/// another simulation, for as long as the cache remembers and there is time.
pub proof fn law_good_simulation_is_remembered(
    session: SessionView,
    config: RetryConfig,
    cache: CacheView,
    now: nat,
    again: SessionView,
    event: EventView,
    later: nat,
)
    requires
        again.tx_key == session.tx_key,
        again.tx.message.recent_blockhash == session.tx.message.recent_blockhash,
        event is Start || event is BackedOff,
        again.spent < config.max_retries,
        now <= later <= now + cache.ttl,
        !again.seeing(event, later).late(config, later),
    ensures
        ({
            let remembered = session.next_cache(
                config,
                cache,
                EventView::Simulated(Ok(None)),
                now,
            );
            let action = again.next(config, remembered, event, later).1;
            action is SendToLeader || action is Submit
        }),
{
}

/// What the ledger has rejected is not sent again: the session ends with the reason.
pub proof fn law_rejection_is_final(
    session: SessionView,
    config: RetryConfig,
    cache: CacheView,
    reason: Seq<char>,
    now: nat,
)
    ensures
        session.next(
            config,
            cache,
            EventView::Watched(Ok(TxStatusView::Failed { reason })),
            now,
        ).1 == ActionView::Finish(
            Err(
                RetryErrorView::TransactionRejected {
                    reason,
                    signature: signature_to_text(session.step->signature),
                },
            ),
        ),
{
}

/// A session succeeds exactly where the transaction has reached the commitment level asked for.
/// It then tells the signature under which it did and its own counts: at least one attempt, and
/// at most those allowed and one for each fresh block hash. The cache has forgotten the
/// transaction.
pub proof fn law_success_means_confirmed(
    session: SessionView,
    config: RetryConfig,
    cache: CacheView,
    event: EventView,
    now: nat,
)
    requires
        session.wf(config),
        session.accepts(event),
    ensures
        ({
            let action = session.next(config, cache, event, now).1;
            let success = action is Finish && action->Finish_0 is Ok;
            &&& success <==> event is Watched && event->Watched_0 is Ok
                && event->Watched_0->Ok_0.reaches(config.commitment)
            &&& success ==> {
                let stats = action->Finish_0->Ok_0;
                &&& session.step == StepView::Confirm { signature: stats.signature }
                &&& 1 <= stats.attempts <= config.max_retries + stats.blockhash_refreshes
                &&& stats.attempts == session.attempts
                &&& stats.blockhash_refreshes == session.blockhash_refreshes
                &&& stats.used_leader_routing == session.used_leader_routing
                &&& !session.next_cache(config, cache, event, now).entries.contains_key(
                    session.tx_key,
                )
            }
        }),
{
}

/// A session runs out of attempts only once it has made all that it is allowed and one for each
/// fresh block hash. It hands on
/// what a wait for a confirmation tells it, so the law leaves out a wait that tells it of that
/// very error.
pub proof fn law_gives_up_only_at_the_end(
    session: SessionView,
    config: RetryConfig,
    cache: CacheView,
    event: EventView,
    now: nat,
)
    requires
        session.wf(config),
        session.accepts(event),
        !(event is Watched && event->Watched_0 is Err && event->Watched_0->Err_0
            is MaxRetriesExceeded),
    ensures
        session.next(config, cache, event, now).1 matches ActionView::Finish(outcome)
            ==> outcome matches Err(
            RetryErrorView::MaxRetriesExceeded { attempts, signature },
        ) ==> attempts == config.max_retries + session.blockhash_refreshes && signature
            == session.tx.first_signature(),
{
}

/// Every submission leaves simulating and retrying to this library.
pub proof fn law_node_does_not_retry(
    session: SessionView,
    config: RetryConfig,
    cache: CacheView,
    event: EventView,
    now: nat,
)
    ensures
        session.next(config, cache, event, now).1 matches ActionView::Submit(options)
            ==> options.skip_preflight && options.max_retries == 0,
{
}

/// Only a simulation and a confirmation touch the cache, and only under the key of the session.
pub proof fn law_other_entries_are_untouched(
    session: SessionView,
    config: RetryConfig,
    cache: CacheView,
    event: EventView,
    now: nat,
    other: Seq<char>,
)
    requires
        other != session.tx_key,
    ensures
        ({
            let after = session.next_cache(config, cache, event, now);
            &&& after.ttl == cache.ttl
            &&& after.entries.contains_key(other) == cache.entries.contains_key(other)
            &&& cache.entries.contains_key(other) ==> after.entries[other] == cache.entries[other]
        }),
{
}

/// An event, the cache as the session finds it then, and the time.
pub struct Moment {
    pub event: EventView,
    pub cache: CacheView,
    pub now: nat,
}

/// A session after a run of events.
pub open spec fn run(session: SessionView, config: RetryConfig, moments: Seq<Moment>) -> SessionView
    decreases moments.len(),
{
    if moments.len() == 0 {
        session
    } else {
        let moment = moments.last();
        run(session, config, moments.drop_last()).next(
            config,
            moment.cache,
            moment.event,
            moment.now,
        ).0
    }
}

/// Whether each event of a run answers the action before it.
pub open spec fn answers(session: SessionView, config: RetryConfig, moments: Seq<Moment>) -> bool
    decreases moments.len(),
{
    moments.len() > 0 ==> {
        &&& answers(session, config, moments.drop_last())
        &&& run(session, config, moments.drop_last()).accepts(moments.last().event)
    }
}

/// How many times the transaction is sent in a run: submitted to the RPC node, or handed to a
/// leader.
pub open spec fn submissions(session: SessionView, config: RetryConfig, moments: Seq<Moment>) -> nat
    decreases moments.len(),
{
    if moments.len() == 0 {
        0
    } else {
        let moment = moments.last();
        let action = run(session, config, moments.drop_last()).next(
            config,
            moment.cache,
            moment.event,
            moment.now,
        ).1;
        submissions(session, config, moments.drop_last()) + (if action is Submit || moment.event
            == EventView::LeaderSent(true) {
            1nat
        } else {
            0nat
        })
    }
}

/// Whether the attempt that a run of events is in was found good before it is sent: by a
/// simulation, or by the cache where the attempt began.
pub open spec fn cleared(session: SessionView, config: RetryConfig, moments: Seq<Moment>) -> bool
    decreases moments.len(),
{
    if moments.len() == 0 {
        false
    } else {
        let moment = moments.last();
        let after = run(session, config, moments);
        match moment.event {
            EventView::Simulated(reply) => reply == Ok::<Option<Seq<char>>, Seq<char>>(None),
            EventView::LeaderSent(_) => cleared(session, config, moments.drop_last()),
            _ => moment.cache.lookup(after.tx_key, after.tx.message.recent_blockhash, moment.now)
                == Some(SimulationView::Success),
        }
    }
}

/// Where an attempt is to be simulated, the transaction is sent only after a simulation found
/// nothing wrong with it, in this attempt or as far back as the cache remembers.
pub proof fn law_simulated_before_sent(
    tx: TransactionView,
    signer: Seq<u8>,
    config: RetryConfig,
    moments: Seq<Moment>,
)
    requires
        config.attempt_timeout_fits(),
        tx.message.fits(),
        answers(SessionView::start(tx, signer), config, moments),
        ({
            let end = run(SessionView::start(tx, signer), config, moments);
            (end.step is Submit || end.step is SendToLeader) && config.simulates(end.spent as nat)
        }),
    ensures
        cleared(SessionView::start(tx, signer), config, moments),
{
    lemma_cleared(tx, signer, config, moments);
}

/// An attempt that is about to be sent, or to look for the leader before, was found good where
/// it is to be simulated.
proof fn lemma_cleared(tx: TransactionView, signer: Seq<u8>, config: RetryConfig, moments: Seq<Moment>)
    requires
        config.attempt_timeout_fits(),
        tx.message.fits(),
        answers(SessionView::start(tx, signer), config, moments),
    ensures
        ({
            let end = run(SessionView::start(tx, signer), config, moments);
            (end.step is SendToLeader || end.step is Submit) && config.simulates(
                end.spent as nat,
            ) ==> cleared(SessionView::start(tx, signer), config, moments)
        }),
    decreases moments.len(),
{
    if moments.len() > 0 {
        lemma_cleared(tx, signer, config, moments.drop_last());
    }
}

/// How many actions at most are left in the attempt that a session is in.
pub open spec fn actions_left(step: StepView) -> nat {
    match step {
        StepView::Simulate => 6,
        StepView::SendToLeader => 5,
        StepView::Submit => 4,
        StepView::Confirm { signature: _ } => 3,
        StepView::CheckBlockhash => 2,
        StepView::Start => 1,
        StepView::Refresh => 1,
        StepView::Backoff => 1,
        StepView::Finished => 0,
    }
}

/// How many actions at most are left in a session that renews no more block hashes.
pub open spec fn fuel(session: SessionView, config: RetryConfig) -> int {
    6 * (config.max_retries - session.spent) + actions_left(session.step)
}

/// Each event brings a session nearer to its end, except that a fresh block hash may set it
/// back by as much as one attempt.
pub proof fn law_comes_nearer_to_its_end(
    session: SessionView,
    config: RetryConfig,
    cache: CacheView,
    event: EventView,
    now: nat,
)
    requires
        session.wf(config),
        session.accepts(event),
    ensures
        ({
            let after = session.next(config, cache, event, now).0;
            &&& fuel(after, config) >= 0
            &&& fuel(after, config) < fuel(session, config) + 6 * (after.blockhash_refreshes
                - session.blockhash_refreshes)
        }),
{
}

/// A session that starts with a transaction ends after a bounded number of events: six for
/// each attempt allowed, six for each fresh block hash, and the one that starts it. The
/// transaction is sent at most once for each attempt allowed and once more for each fresh
/// block hash.
pub proof fn law_every_run_is_bounded(
    tx: TransactionView,
    signer: Seq<u8>,
    config: RetryConfig,
    moments: Seq<Moment>,
)
    requires
        config.attempt_timeout_fits(),
        tx.message.fits(),
        answers(SessionView::start(tx, signer), config, moments),
    ensures
        ({
            let start = SessionView::start(tx, signer);
            let end = run(start, config, moments);
            &&& end.wf(config)
            &&& end.tx_key == tx.message.key()
            &&& moments.len() <= 6 * config.max_retries + 1 + 6 * end.blockhash_refreshes
            &&& submissions(start, config, moments) <= config.max_retries
                + end.blockhash_refreshes
        }),
{
    lemma_run(tx, signer, config, moments);
}

/// A session that succeeds tells exactly how often the transaction was sent: as often as it made
/// an attempt.
pub proof fn law_success_counts_submissions(
    tx: TransactionView,
    signer: Seq<u8>,
    config: RetryConfig,
    moments: Seq<Moment>,
    cache: CacheView,
    event: EventView,
    now: nat,
    stats: StatsView,
)
    requires
        config.attempt_timeout_fits(),
        tx.message.fits(),
        answers(SessionView::start(tx, signer), config, moments),
        run(SessionView::start(tx, signer), config, moments).accepts(event),
        run(SessionView::start(tx, signer), config, moments).next(config, cache, event, now).1
            == ActionView::Finish(Ok(stats)),
    ensures
        submissions(SessionView::start(tx, signer), config, moments) == stats.attempts,
{
    lemma_run(tx, signer, config, moments);
}

/// How the counts of a session keep step with what happened to it.
proof fn lemma_run(tx: TransactionView, signer: Seq<u8>, config: RetryConfig, moments: Seq<Moment>)
    requires
        config.attempt_timeout_fits(),
        tx.message.fits(),
        answers(SessionView::start(tx, signer), config, moments),
    ensures
        ({
            let start = SessionView::start(tx, signer);
            let end = run(start, config, moments);
            let sent = submissions(start, config, moments);
            &&& end.wf(config)
            &&& end.tx_key == tx.message.key()
            &&& moments.len() + fuel(end, config) <= 6 * config.max_retries + 1 + 6
                * end.blockhash_refreshes
            &&& end.step is Simulate || end.step is SendToLeader ==> sent + 1 == end.attempts
            &&& end.step is Finished ==> sent <= end.attempts
            &&& !(end.step is Simulate || end.step is SendToLeader || end.step is Finished) ==> sent
                == end.attempts
        }),
    decreases moments.len(),
{
    let start = SessionView::start(tx, signer);
    if moments.len() > 0 {
        let before = moments.drop_last();
        let moment = moments.last();
        lemma_run(tx, signer, config, before);
        law_comes_nearer_to_its_end(
            run(start, config, before),
            config,
            moment.cache,
            moment.event,
            moment.now,
        );
    }
}

/// What a run sends is the transaction that it was given: of its message only the block hash
/// changes.
pub proof fn law_sends_what_it_was_given(
    tx: TransactionView,
    signer: Seq<u8>,
    config: RetryConfig,
    moments: Seq<Moment>,
    blockhash: Seq<u8>,
)
    ensures
        run(SessionView::start(tx, signer), config, moments).tx.message.at(blockhash)
            == tx.message.at(blockhash),
    decreases moments.len(),
{
    if moments.len() > 0 {
        law_sends_what_it_was_given(tx, signer, config, moments.drop_last(), blockhash);
    }
}

/// Whoever limits the time of a session gets an answer in that time: whatever it does next, it
/// does before its time is up, and neither the intervals that its wait for a confirmation takes
/// nor its backoff go on for longer than that.
pub proof fn law_acts_within_its_time(
    session: SessionView,
    config: RetryConfig,
    cache: CacheView,
    event: EventView,
    now: nat,
)
    requires
        config.hard_timeout is Some,
    ensures
        ({
            let (after, action) = session.next(config, cache, event, now);
            let limit = nanos(config.hard_timeout->0);
            let spent = age(now, after.started);
            &&& !(action is Finish) ==> spent < limit
            &&& action matches ActionView::AwaitConfirmation {
                signature: _,
                commitment: _,
                timeout,
            } ==> spent + intervals(timeout, poll_interval()) * poll_interval() <= limit
            &&& action matches ActionView::Backoff { attempt: _, left } ==> left is Some && spent
                + left->0 == limit
        }),
{
}

/// A session whose time is limited has ended once that time has passed since its first event.
pub proof fn law_ends_when_its_time_is_up(
    tx: TransactionView,
    signer: Seq<u8>,
    config: RetryConfig,
    moments: Seq<Moment>,
)
    requires
        answers(SessionView::start(tx, signer), config, moments),
        moments.len() > 0,
        config.hard_timeout is Some,
        moments.last().now >= moments[0].now + nanos(config.hard_timeout->0),
    ensures
        run(SessionView::start(tx, signer), config, moments).step is Finished,
{
    lemma_started(tx, signer, config, moments);
    if moments.len() > 1 {
        lemma_started(tx, signer, config, moments.drop_last());
    }
}

/// A session began with its first event, and that is no event that comes later.
proof fn lemma_started(
    tx: TransactionView,
    signer: Seq<u8>,
    config: RetryConfig,
    moments: Seq<Moment>,
)
    requires
        answers(SessionView::start(tx, signer), config, moments),
        moments.len() > 0,
    ensures
        run(SessionView::start(tx, signer), config, moments).started == moments[0].now,
        !(run(SessionView::start(tx, signer), config, moments).step is Start),
    decreases moments.len(),
{
    let before = moments.drop_last();
    if before.len() > 0 {
        lemma_started(tx, signer, config, before);
    } else {
        assert(run(SessionView::start(tx, signer), config, before) == SessionView::start(
            tx,
            signer,
        ));
    }
}

} // verus!
