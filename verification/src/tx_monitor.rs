//! Watching a transaction until it is settled.
//!
//! The network is asked for the status of a signature again and again. What it answers is
//! classified here, and so is when to stop asking.

use crate::config::CommitmentLevel;
use crate::error::{Reply, Result, RetryError, RetryErrorView};
use crate::keys::{signature_to_text, Signature};
use crate::time::nanos;
use std::time::Duration;
use vstd::prelude::*;

verus! {

/// How far a transaction has come.
#[derive(Debug, PartialEq, Eq)]
pub enum TxStatus {
    /// Sent, but not seen on the ledger yet.
    Pending,
    /// Processed by the leader, not confirmed by a supermajority yet.
    Processed,
    /// Confirmed by a supermajority.
    Confirmed,
    /// Irreversible.
    Finalized,
    /// Rejected by the ledger.
    Failed { reason: String },
    /// Never seen: its block hash expired or it was lost on the way.
    Dropped,
}

/// How far a transaction has come, with the reason as a sequence of characters.
pub enum TxStatusView {
    Pending,
    Processed,
    Confirmed,
    Finalized,
    Failed { reason: Seq<char> },
    Dropped,
}

impl View for TxStatus {
    type V = TxStatusView;

    open spec fn view(&self) -> TxStatusView {
        match self {
            TxStatus::Pending => TxStatusView::Pending,
            TxStatus::Processed => TxStatusView::Processed,
            TxStatus::Confirmed => TxStatusView::Confirmed,
            TxStatus::Finalized => TxStatusView::Finalized,
            TxStatus::Failed { reason } => TxStatusView::Failed { reason: reason@ },
            TxStatus::Dropped => TxStatusView::Dropped,
        }
    }
}

impl Clone for TxStatus {
    fn clone(&self) -> (copy: Self)
        ensures
            copy@ == self@,
    {
        match self {
            TxStatus::Pending => TxStatus::Pending,
            TxStatus::Processed => TxStatus::Processed,
            TxStatus::Confirmed => TxStatus::Confirmed,
            TxStatus::Finalized => TxStatus::Finalized,
            TxStatus::Failed { reason } => TxStatus::Failed { reason: reason.clone() },
            TxStatus::Dropped => TxStatus::Dropped,
        }
    }
}

impl TxStatusView {
    /// Whether the transaction has landed at the given commitment level or above it.
    pub open spec fn reaches(self, level: CommitmentLevel) -> bool {
        match self {
            TxStatusView::Processed => CommitmentLevel::Processed.rank() >= level.rank(),
            TxStatusView::Confirmed => CommitmentLevel::Confirmed.rank() >= level.rank(),
            TxStatusView::Finalized => true,
            _ => false,
        }
    }

    /// Whether there is nothing more to wait for: the transaction has reached the level, was
    /// rejected or was dropped.
    pub open spec fn settled(self, level: CommitmentLevel) -> bool {
        self.reaches(level) || self is Failed || self is Dropped
    }
}

impl TxStatus {
    /// Whether the transaction has landed at the given commitment level or above it.
    pub fn has_reached(&self, level: CommitmentLevel) -> (reached: bool)
        ensures
            reached == self@.reaches(level),
    {
        match self {
            TxStatus::Processed => match level {
                CommitmentLevel::Processed => true,
                _ => false,
            },
            TxStatus::Confirmed => match level {
                CommitmentLevel::Finalized => false,
                _ => true,
            },
            TxStatus::Finalized => true,
            _ => false,
        }
    }

    /// Whether there is nothing more to wait for.
    pub fn is_settled(&self, level: CommitmentLevel) -> (settled: bool)
        ensures
            settled == self@.settled(level),
    {
        match self {
            TxStatus::Failed { reason: _ } => true,
            TxStatus::Dropped => true,
            _ => self.has_reached(level),
        }
    }
}

/// How the network names the progress of a transaction.
#[derive(Debug, Clone, Copy, PartialEq, Eq, Structural)]
pub enum ConfirmationStatus {
    Processed,
    Confirmed,
    Finalized,
}

/// What the network reports of one signature.
#[derive(Debug)]
pub struct SignatureStatus {
    /// The error with which the ledger rejected the transaction, if it did.
    pub err: Option<String>,
    /// The progress of the transaction, where the network names it.
    pub confirmation_status: Option<ConfirmationStatus>,
    /// How many blocks were confirmed since, where the network counts them.
    pub confirmations: Option<usize>,
}

impl SignatureStatus {
    /// How far the reported transaction has come. An error counts before anything else; where
    /// the progress is not named, one confirmation is enough.
    pub open spec fn classify(self) -> TxStatusView {
        if self.err is Some {
            TxStatusView::Failed { reason: self.err->0@ }
        } else {
            match self.confirmation_status {
                Some(ConfirmationStatus::Processed) => TxStatusView::Processed,
                Some(ConfirmationStatus::Confirmed) => TxStatusView::Confirmed,
                Some(ConfirmationStatus::Finalized) => TxStatusView::Finalized,
                None => if self.confirmations is Some && self.confirmations->0 > 0 {
                    TxStatusView::Confirmed
                } else {
                    TxStatusView::Pending
                },
            }
        }
    }
}

/// How far a transaction has come by the first report of a reply; without a report it is
/// pending.
pub open spec fn first_status(reports: Seq<Option<SignatureStatus>>) -> TxStatusView {
    if reports.len() > 0 && reports[0] is Some {
        reports[0]->0.classify()
    } else {
        TxStatusView::Pending
    }
}

/// The outcome of a status check, with its texts as sequences of characters.
pub open spec fn outcome_view(outcome: Result<TxStatus>) -> std::result::Result<
    TxStatusView,
    RetryErrorView,
> {
    match outcome {
        Ok(status) => Ok(status@),
        Err(error) => Err(error@),
    }
}

/// How many milliseconds a monitor waits between two questions.
pub const POLL_INTERVAL_MS: u64 = 500;

/// Watches transactions.
pub struct TxMonitor {
    /// How long to wait between two questions.
    pub poll_interval: Duration,
}

impl TxMonitor {
    /// Makes a monitor that asks every half second.
    pub fn new() -> (monitor: Self)
        ensures
            nanos(monitor.poll_interval) == 500 * 1_000_000,
    {
        TxMonitor { poll_interval: Duration::from_millis(POLL_INTERVAL_MS) }
    }

    /// Reads the reply to one question about one signature. A failure of the client is handed
    /// on.
    pub fn check_status(&self, reply: Reply<Vec<Option<SignatureStatus>>>) -> (outcome: Result<
        TxStatus,
    >)
        ensures
            outcome_view(outcome) == (match reply {
                Ok(reports) => Ok(first_status(reports@)),
                Err(why) => Err(RetryErrorView::RpcError(why@)),
            }),
    {
        let mut reports = match reply {
            Ok(reports) => reports,
            Err(why) => return Err(RetryError::RpcError(why)),
        };
        if reports.len() == 0 {
            return Ok(TxStatus::Pending);
        }
        let status = match reports.swap_remove(0) {
            Some(status) => status,
            None => return Ok(TxStatus::Pending),
        };
        if let Some(reason) = status.err {
            return Ok(TxStatus::Failed { reason });
        }
        match status.confirmation_status {
            Some(ConfirmationStatus::Processed) => Ok(TxStatus::Processed),
            Some(ConfirmationStatus::Confirmed) => Ok(TxStatus::Confirmed),
            Some(ConfirmationStatus::Finalized) => Ok(TxStatus::Finalized),
            None => match status.confirmations {
                Some(count) => if count > 0 {
                    Ok(TxStatus::Confirmed)
                } else {
                    Ok(TxStatus::Pending)
                },
                None => Ok(TxStatus::Pending),
            },
        }
    }

    /// Whether a reply shows the transaction as confirmed. A failure of the client shows
    /// nothing.
    pub fn is_confirmed(&self, reply: Reply<Vec<Option<SignatureStatus>>>) -> (confirmed: bool)
        ensures
            confirmed == (match reply {
                Ok(reports) => first_status(reports@).reaches(CommitmentLevel::Confirmed),
                Err(_) => false,
            }),
    {
        match self.check_status(reply) {
            Ok(TxStatus::Confirmed) => true,
            Ok(TxStatus::Finalized) => true,
            _ => false,
        }
    }

    /// Starts to wait until a transaction reaches the desired commitment level or the time is
    /// up.
    pub fn wait_for_confirmation(
        &self,
        signature: &Signature,
        desired_commitment: CommitmentLevel,
        timeout: Duration,
    ) -> (watch: ConfirmationWatch)
        ensures
            watch@ == (WatchView {
                signature: signature@,
                desired: desired_commitment,
                timeout: nanos(timeout),
                poll_interval: nanos(self.poll_interval),
            }),
    {
        ConfirmationWatch {
            signature: *signature,
            desired: desired_commitment,
            timeout,
            poll_interval: self.poll_interval,
        }
    }
}

/// A wait for the confirmation of one transaction.
///
/// The wait says what has to be done next (a [`WatchAction`]), and what came of it (a
/// [`WatchEvent`]) moves it on.
pub struct ConfirmationWatch {
    signature: Signature,
    desired: CommitmentLevel,
    timeout: Duration,
    poll_interval: Duration,
}

/// A wait for the confirmation of one transaction, in bytes and nanoseconds.
pub struct WatchView {
    pub signature: Seq<u8>,
    pub desired: CommitmentLevel,
    pub timeout: nat,
    pub poll_interval: nat,
}

impl View for ConfirmationWatch {
    type V = WatchView;

    closed spec fn view(&self) -> WatchView {
        WatchView {
            signature: self.signature@,
            desired: self.desired,
            timeout: nanos(self.timeout),
            poll_interval: nanos(self.poll_interval),
        }
    }
}

/// What came of the last action of a wait.
pub enum WatchEvent {
    /// The wait has begun, or a sleep is over; so much time has passed since it began.
    Ready { elapsed: Duration },
    /// The network was asked for the status of the transaction.
    Answered(Result<TxStatus>),
}

/// What came of the last action of a wait, in characters and nanoseconds.
pub enum WatchEventView {
    Ready { elapsed: nat },
    Answered(std::result::Result<TxStatusView, RetryErrorView>),
}

impl View for WatchEvent {
    type V = WatchEventView;

    open spec fn view(&self) -> WatchEventView {
        match self {
            WatchEvent::Ready { elapsed } => WatchEventView::Ready { elapsed: nanos(*elapsed) },
            WatchEvent::Answered(answer) => WatchEventView::Answered(outcome_view(*answer)),
        }
    }
}

/// What a wait has to do next.
pub enum WatchAction {
    /// Ask the network for the status of the transaction.
    Ask,
    /// Sleep before asking again.
    Sleep { interval: Duration },
    /// Hand the outcome to the caller: the wait has ended.
    Finish(Result<TxStatus>),
}

/// What a wait has to do next, in characters and nanoseconds.
pub enum WatchActionView {
    Ask,
    Sleep { interval: nat },
    Finish(std::result::Result<TxStatusView, RetryErrorView>),
}

impl View for WatchAction {
    type V = WatchActionView;

    open spec fn view(&self) -> WatchActionView {
        match self {
            WatchAction::Ask => WatchActionView::Ask,
            WatchAction::Sleep { interval } => WatchActionView::Sleep {
                interval: nanos(*interval),
            },
            WatchAction::Finish(outcome) => WatchActionView::Finish(outcome_view(*outcome)),
        }
    }
}

impl WatchView {
    /// What has to be done after an event. The wait fails once the time is up. An answer ends
    /// it where the transaction is settled; otherwise, and where the question failed, it is
    /// asked again after a sleep.
    pub open spec fn next(self, event: WatchEventView) -> WatchActionView {
        match event {
            WatchEventView::Ready { elapsed } => if elapsed >= self.timeout {
                WatchActionView::Finish(
                    Err(
                        RetryErrorView::ConfirmationTimeout {
                            timeout_secs: (self.timeout / 1_000_000_000) as u64,
                            signature: signature_to_text(self.signature),
                        },
                    ),
                )
            } else {
                WatchActionView::Ask
            },
            WatchEventView::Answered(Ok(status)) => if status.settled(self.desired) {
                WatchActionView::Finish(Ok(status))
            } else {
                WatchActionView::Sleep { interval: self.poll_interval }
            },
            WatchEventView::Answered(Err(_)) => WatchActionView::Sleep {
                interval: self.poll_interval,
            },
        }
    }
}

impl ConfirmationWatch {
    /// Says what has to be done after an event.
    pub fn next(&self, event: WatchEvent) -> (action: WatchAction)
        ensures
            action@ == self@.next(event@),
    {
        match event {
            WatchEvent::Ready { elapsed } => {
                if elapsed.as_nanos() >= self.timeout.as_nanos() {
                    WatchAction::Finish(
                        Err(
                            RetryError::ConfirmationTimeout {
                                timeout_secs: self.timeout.as_secs(),
                                signature: self.signature.to_text(),
                            },
                        ),
                    )
                } else {
                    WatchAction::Ask
                }
            },
            WatchEvent::Answered(Ok(status)) => {
                if status.is_settled(self.desired) {
                    WatchAction::Finish(Ok(status))
                } else {
                    WatchAction::Sleep { interval: self.poll_interval }
                }
            },
            WatchEvent::Answered(Err(_)) => WatchAction::Sleep { interval: self.poll_interval },
        }
    }
}

/// A wait ends well only with a transaction that has reached the desired level, was rejected or
/// was dropped; it fails only by running out of time, and it fails as soon as it has.
pub proof fn law_wait_ends_settled_or_late(watch: WatchView, event: WatchEventView)
    ensures
        watch.next(event) matches WatchActionView::Finish(Ok(status)) ==> status.settled(
            watch.desired,
        ) && event == WatchEventView::Answered(Ok(status)),
        watch.next(event) matches WatchActionView::Finish(Err(error)) ==> error
            is ConfirmationTimeout,
        watch.next(event) matches WatchActionView::Finish(Err(_)) <==> event is Ready
            && event->elapsed >= watch.timeout,
{
}

/// Whether a run of events is that of one wait: it begins ready, each event is what came of the
/// action before it, and nothing comes after the end.
pub open spec fn is_wait(watch: WatchView, events: Seq<WatchEventView>) -> bool {
    &&& events.len() > 0
    &&& events[0] is Ready
    &&& forall|i: int|
        #![trigger events[i]]
        0 < i < events.len() ==> match watch.next(events[i - 1]) {
            WatchActionView::Ask => events[i] is Answered,
            WatchActionView::Sleep { interval: _ } => events[i] is Ready,
            WatchActionView::Finish(_) => false,
        }
}

/// Whether an event is an answer that settles a wait.
pub open spec fn settles(watch: WatchView, event: WatchEventView) -> bool {
    event is Answered && event->Answered_0 is Ok && event->Answered_0->Ok_0.settled(watch.desired)
}

/// Whether the sleeps of a run last at least their interval.
pub open spec fn sleeps_last(watch: WatchView, events: Seq<WatchEventView>) -> bool {
    forall|i: int|
        #![trigger events[i]]
        1 < i < events.len() && events[i] is Ready && events[i - 2] is Ready ==> events[i]->elapsed
            >= events[i - 2]->elapsed + watch.poll_interval
}

/// Whether a run loses no time but in its sleeps.
pub open spec fn loses_no_time(watch: WatchView, events: Seq<WatchEventView>) -> bool {
    &&& events[0] is Ready ==> events[0]->elapsed == 0
    &&& forall|i: int|
        #![trigger events[i]]
        1 < i < events.len() && events[i] is Ready && events[i - 2] is Ready ==> events[i]->elapsed
            == events[i - 2]->elapsed + watch.poll_interval
}

/// How many times the network is asked in a run.
pub open spec fn questions(watch: WatchView, events: Seq<WatchEventView>) -> nat
    decreases events.len(),
{
    if events.len() == 0 {
        0
    } else {
        questions(watch, events.drop_last()) + (if watch.next(events.last()) is Ask {
            1nat
        } else {
            0nat
        })
    }
}

/// How many intervals it takes to cover a length of time.
pub open spec fn intervals(length: nat, interval: nat) -> nat {
    ((length + interval - 1) / interval as int) as nat
}

/// A wait ends with the first answer that settles it; where none does, with the timeout.
pub proof fn law_wait_ends_with_the_first_settled_answer(
    watch: WatchView,
    events: Seq<WatchEventView>,
    outcome: std::result::Result<TxStatusView, RetryErrorView>,
)
    requires
        is_wait(watch, events),
        watch.next(events.last()) == WatchActionView::Finish(outcome),
    ensures
        forall|i: int| 0 <= i < events.len() - 1 ==> !settles(watch, #[trigger] events[i]),
        match outcome {
            Ok(status) => settles(watch, events.last()) && events.last()
                == WatchEventView::Answered(Ok(status)),
            Err(error) => !settles(watch, events.last()) && events.last()->elapsed >= watch.timeout
                && error == (RetryErrorView::ConfirmationTimeout {
                timeout_secs: (watch.timeout / 1_000_000_000) as u64,
                signature: signature_to_text(watch.signature),
            }),
        },
{
    assert forall|i: int| 0 <= i < events.len() - 1 implies !settles(
        watch,
        #[trigger] events[i],
    ) by {
        let after = events[i + 1];
        assert(!(watch.next(events[i]) is Finish));
    }
}

/// A wait whose sleeps last their interval asks no more often than it takes intervals to cover
/// its timeout.
pub proof fn law_wait_asks_a_bounded_number_of_times(
    watch: WatchView,
    events: Seq<WatchEventView>,
)
    requires
        is_wait(watch, events),
        sleeps_last(watch, events),
        watch.poll_interval > 0,
    ensures
        questions(watch, events) <= intervals(watch.timeout, watch.poll_interval),
        events.len() <= 2 * intervals(watch.timeout, watch.poll_interval) + 1,
{
    lemma_questions(watch, events);
    let k = questions(watch, events) as int;
    if k > 0 {
        lemma_turns(watch, events, 2 * (k - 1));
        if 2 * (k - 1) + 1 < events.len() {
            lemma_turns(watch, events, 2 * (k - 1) + 1);
        }
        lemma_elapsed(watch, events, k - 1);
    }
    lemma_intervals(watch.timeout, watch.poll_interval, k - 1);
}

/// A wait that loses no time but in its sleeps is over once the intervals that cover its timeout
/// have passed.
pub proof fn law_wait_is_over_in_time(watch: WatchView, events: Seq<WatchEventView>, i: int)
    requires
        is_wait(watch, events),
        loses_no_time(watch, events),
        watch.poll_interval > 0,
        0 <= i < events.len(),
        events[i] is Ready,
    ensures
        events[i]->elapsed <= intervals(watch.timeout, watch.poll_interval) * watch.poll_interval,
{
    lemma_turns(watch, events, i);
    let k = i / 2;
    let p = watch.poll_interval as int;
    let n = intervals(watch.timeout, watch.poll_interval) as int;
    lemma_elapsed_exactly(watch, events, k);
    if k > 0 {
        lemma_turns(watch, events, i - 1);
        lemma_elapsed_exactly(watch, events, k - 1);
    }
    lemma_intervals(watch.timeout, watch.poll_interval, k - 1);
    assert(k * p <= n * p) by (nonlinear_arith)
        requires
            k <= n,
            p > 0,
    ;
}

/// The events of a wait take turns: it is ready and asks, and an answer comes.
proof fn lemma_turns(watch: WatchView, events: Seq<WatchEventView>, i: int)
    requires
        is_wait(watch, events),
        0 <= i < events.len(),
    ensures
        i % 2 == 0 ==> events[i] is Ready,
        i % 2 == 1 ==> events[i] is Answered && watch.next(events[i - 1]) is Ask,
    decreases i,
{
    if i > 0 {
        lemma_turns(watch, events, i - 1);
        assert(!(watch.next(events[i - 1]) is Finish));
    }
}

/// After `k` sleeps at least `k` intervals have passed.
proof fn lemma_elapsed(watch: WatchView, events: Seq<WatchEventView>, k: int)
    requires
        is_wait(watch, events),
        sleeps_last(watch, events),
        0 <= 2 * k < events.len(),
    ensures
        events[2 * k]->elapsed >= k * watch.poll_interval,
    decreases k,
{
    let p = watch.poll_interval as int;
    assert(k * p == (k - 1) * p + p) by (nonlinear_arith);
    lemma_turns(watch, events, 2 * k);
    if k > 0 {
        lemma_turns(watch, events, 2 * k - 2);
        lemma_elapsed(watch, events, k - 1);
    } else {
        assert(k * p == 0) by (nonlinear_arith)
            requires
                k == 0,
        ;
    }
}

/// After `k` sleeps exactly `k` intervals have passed where no other time is lost.
proof fn lemma_elapsed_exactly(watch: WatchView, events: Seq<WatchEventView>, k: int)
    requires
        is_wait(watch, events),
        loses_no_time(watch, events),
        0 <= 2 * k < events.len(),
    ensures
        events[2 * k]->elapsed == k * watch.poll_interval,
    decreases k,
{
    let p = watch.poll_interval as int;
    assert(k * p == (k - 1) * p + p) by (nonlinear_arith);
    lemma_turns(watch, events, 2 * k);
    if k > 0 {
        lemma_turns(watch, events, 2 * k - 2);
        lemma_elapsed_exactly(watch, events, k - 1);
    } else {
        assert(k * p == 0) by (nonlinear_arith)
            requires
                k == 0,
        ;
    }
}

/// How the number of questions keeps step with the number of events.
proof fn lemma_questions(watch: WatchView, events: Seq<WatchEventView>)
    requires
        is_wait(watch, events),
    ensures
        events.len() % 2 == 0 ==> questions(watch, events) == events.len() / 2,
        events.len() % 2 == 1 ==> questions(watch, events) == (events.len() - 1) / 2 + (
        if watch.next(events.last()) is Ask {
            1int
        } else {
            0int
        }),
    decreases events.len(),
{
    let before = events.drop_last();
    lemma_turns(watch, events, events.len() - 1);
    if events.len() > 1 {
        assert(is_wait(watch, before)) by {
            assert forall|i: int| #![trigger before[i]] 0 < i < before.len() implies match watch.next(
                before[i - 1],
            ) {
                WatchActionView::Ask => before[i] is Answered,
                WatchActionView::Sleep { interval: _ } => before[i] is Ready,
                WatchActionView::Finish(_) => false,
            } by {
                assert(before[i] == events[i]);
                assert(before[i - 1] == events[i - 1]);
            }
        }
        lemma_questions(watch, before);
    } else {
        assert(questions(watch, before) == 0);
    }
}

/// Where `k` intervals are shorter than a length, it takes one more at least to cover it.
proof fn lemma_intervals(length: nat, interval: nat, k: int)
    requires
        interval > 0,
        k >= -1,
        k >= 0 ==> k * interval < length,
    ensures
        k + 1 <= intervals(length, interval),
{
    let q = (length + interval - 1) / interval as int;
    if k >= 0 {
        assert(k + 1 <= q) by (nonlinear_arith)
            requires
                interval > 0,
                k * interval < length,
                q == (length + interval - 1) / interval as int,
        ;
    } else {
        assert(q >= 0) by (nonlinear_arith)
            requires
                interval > 0,
                q == (length + interval - 1) / interval as int,
        ;
    }
}

/// What settles a wait for a high level settles a wait for a lower one.
pub proof fn law_higher_levels_settle_more(
    status: TxStatusView,
    high: CommitmentLevel,
    low: CommitmentLevel,
)
    requires
        low.rank() <= high.rank(),
    ensures
        status.reaches(high) ==> status.reaches(low),
        status.settled(high) ==> status.settled(low),
{
}

/// Neither a transaction that was rejected nor one that was dropped or is pending counts as
/// landed at any level.
pub proof fn law_only_landed_reaches(status: TxStatusView, level: CommitmentLevel)
    ensures
        status.reaches(level) ==> status is Processed || status is Confirmed || status is Finalized,
        status is Finalized ==> status.reaches(level),
{
}

/// A report that names how far the transaction has come, and no error, is taken by its name,
/// whatever the number of confirmations.
pub proof fn law_named_status_counts(report: SignatureStatus)
    requires
        report.err is None,
        report.confirmation_status is Some,
    ensures
        report.confirmation_status->0 is Processed <==> report.classify() is Processed,
        report.confirmation_status->0 is Confirmed <==> report.classify() is Confirmed,
        report.confirmation_status->0 is Finalized <==> report.classify() is Finalized,
{
}

/// Two reports without an error that name the same progress are taken alike: where a progress is
/// named, the confirmations are not looked at.
pub proof fn law_confirmations_do_not_overrule_the_name(
    left: SignatureStatus,
    right: SignatureStatus,
)
    requires
        left.err is None,
        right.err is None,
        left.confirmation_status is Some,
        left.confirmation_status == right.confirmation_status,
    ensures
        left.classify() == right.classify(),
{
}

/// A report that names no progress, and no error, shows a confirmed transaction exactly where it
/// counts a confirmation, and a pending one otherwise.
pub proof fn law_confirmations_count_without_a_name(report: SignatureStatus)
    requires
        report.err is None,
        report.confirmation_status is None,
    ensures
        report.classify() is Confirmed <==> report.confirmations is Some && report.confirmations->0
            >= 1,
        report.classify() is Confirmed || report.classify() is Pending,
{
}

/// A report shows a rejected transaction exactly where it tells an error, whatever else it tells,
/// and the reason is that error. No report shows a dropped transaction.
pub proof fn law_error_counts_before_all(report: SignatureStatus)
    ensures
        report.err is Some <==> report.classify() is Failed,
        report.err matches Some(error) ==> report.classify()->reason == error@,
        !(report.classify() is Dropped),
{
}

/// Of a reply only the first report counts; where it has none, the transaction is pending.
pub proof fn law_first_report_counts(reports: Seq<Option<SignatureStatus>>)
    ensures
        reports.len() == 0 ==> first_status(reports) is Pending,
        reports.len() > 0 && reports[0] is None ==> first_status(reports) is Pending,
        reports.len() > 0 && reports[0] is Some ==> first_status(reports)
            == reports[0]->0.classify(),
{
}

/// A finalized transaction has landed at every level, a confirmed one at every level but the
/// highest, a processed one at the lowest alone, and no other at any.
pub proof fn law_landed_at_its_level_and_below(status: TxStatusView, level: CommitmentLevel)
    ensures
        status.reaches(level) <==> match status {
            TxStatusView::Finalized => true,
            TxStatusView::Confirmed => !(level is Finalized),
            TxStatusView::Processed => level is Processed,
            _ => false,
        },
        status.settled(level) <==> status.reaches(level) || status is Failed || status is Dropped,
{
}

/// A wait asks as long as there is time, sleeps for its interval after every answer that does not
/// settle it and after every question that failed, and ends otherwise: with the answer, or with the
/// timeout that it was given and the signature that it waited for.
pub proof fn law_wait_step_by_step(watch: WatchView, event: WatchEventView)
    ensures
        ({
            let action = watch.next(event);
            match event {
                WatchEventView::Ready { elapsed } => {
                    &&& elapsed < watch.timeout ==> action is Ask
                    &&& elapsed >= watch.timeout ==> action == WatchActionView::Finish(
                        Err(
                            RetryErrorView::ConfirmationTimeout {
                                timeout_secs: (watch.timeout / 1_000_000_000) as u64,
                                signature: signature_to_text(watch.signature),
                            },
                        ),
                    )
                },
                WatchEventView::Answered(Ok(status)) => {
                    let ends = match status {
                        TxStatusView::Failed { reason: _ } => true,
                        TxStatusView::Dropped => true,
                        TxStatusView::Finalized => true,
                        TxStatusView::Confirmed => !(watch.desired is Finalized),
                        TxStatusView::Processed => watch.desired is Processed,
                        TxStatusView::Pending => false,
                    };
                    &&& ends ==> action == WatchActionView::Finish(Ok(status))
                    &&& !ends ==> action == (WatchActionView::Sleep {
                        interval: watch.poll_interval,
                    })
                },
                WatchEventView::Answered(Err(_)) => action == (WatchActionView::Sleep {
                    interval: watch.poll_interval,
                }),
            }
        }),
{
}

/// The intervals that cover a length of time cover it, and one fewer would not.
pub proof fn law_intervals_cover(length: nat, interval: nat)
    requires
        interval > 0,
    ensures
        length <= intervals(length, interval) * interval,
        intervals(length, interval) * interval < length + interval,
{
    let q = (length + interval - 1) / interval as int;
    assert(q >= 0 && length <= q * interval && q * interval < length + interval)
        by (nonlinear_arith)
        requires
            interval > 0,
            q == (length + interval - 1) / interval as int,
    ;
}

} // verus!
