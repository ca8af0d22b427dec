//! The leader schedule, and where to reach the leaders.
//!
//! The leader changes every four slots. Whoever knows the schedule, and the address at which
//! each validator takes transactions, can hand a transaction to the leader directly.

use crate::error::{Reply, Result, RetryError, RetryErrorView};
use crate::keys::{pubkey_from_text, Pubkey};
use crate::text::{decimal, to_decimal};
use crate::time::{age, nanos};
use std::collections::HashMap;
use std::time::Duration;
use vstd::prelude::*;
use vstd::string::StringExecFns;

verus! {

broadcast use vstd::std_specs::hash::group_hash_axioms;

/// Where the network is within its epoch.
#[derive(Debug, Clone, Copy)]
pub struct EpochInfo {
    /// The current slot, counted from the first slot of all.
    pub absolute_slot: u64,
    /// The current slot, counted from the first slot of the epoch.
    pub slot_index: u64,
}

/// What the network tells of one of its nodes.
#[derive(Debug)]
pub struct ClusterNode<A> {
    /// The public key of the node as text.
    pub pubkey: String,
    /// The address at which the node takes transactions, if it has one.
    pub tpu: Option<A>,
}

/// The leaders whose keys can be read, each with its slots counted from the first slot of the
/// epoch.
pub open spec fn readable(entries: Seq<(String, Vec<usize>)>) -> Seq<(Seq<u8>, Seq<usize>)>
    decreases entries.len(),
{
    if entries.len() == 0 {
        Seq::empty()
    } else {
        let (text, slots) = entries.last();
        match pubkey_from_text(text@) {
            Some(key) => readable(entries.drop_last()).push((key, slots@)),
            None => readable(entries.drop_last()),
        }
    }
}

/// A schedule with each of the slots, counted from `start`, given to a leader.
pub open spec fn assign(
    schedule: Map<u64, Seq<u8>>,
    start: nat,
    leader: Seq<u8>,
    slots: Seq<usize>,
) -> Map<u64, Seq<u8>>
    decreases slots.len(),
{
    if slots.len() == 0 {
        schedule
    } else {
        assign(schedule, start, leader, slots.drop_last()).insert(
            (start + slots.last()) as u64,
            leader,
        )
    }
}

/// The schedule of an epoch that starts with the given slot. Where two leaders list the same
/// slot, the later one has it.
pub open spec fn schedule_of(leaders: Seq<(Seq<u8>, Seq<usize>)>, start: nat) -> Map<u64, Seq<u8>>
    decreases leaders.len(),
{
    if leaders.len() == 0 {
        Map::empty()
    } else {
        assign(
            schedule_of(leaders.drop_last(), start),
            start,
            leaders.last().0,
            leaders.last().1,
        )
    }
}

/// Whether each slot, counted from `start`, has a number of 64 bits.
pub open spec fn slots_fit(leaders: Seq<(Seq<u8>, Seq<usize>)>, start: nat) -> bool {
    forall|i: int, j: int|
        0 <= i < leaders.len() && 0 <= j < leaders[i].1.len() ==> start + #[trigger] leaders[i].1[j]
            <= u64::MAX
}

/// The addresses of nodes by their public keys. A node whose key cannot be read or that has no
/// address is left out; where a key occurs twice, the later node counts.
pub open spec fn addresses_of<A>(nodes: Seq<ClusterNode<A>>) -> Map<Seq<u8>, A>
    decreases nodes.len(),
{
    if nodes.len() == 0 {
        Map::empty()
    } else {
        let before = addresses_of(nodes.drop_last());
        match (pubkey_from_text(nodes.last().pubkey@), nodes.last().tpu) {
            (Some(key), Some(address)) => before.insert(key, address),
            _ => before,
        }
    }
}

/// A table as a map; where a key occurs twice, the later row counts.
pub open spec fn table<A>(rows: Seq<(Pubkey, A)>) -> Map<Seq<u8>, A>
    decreases rows.len(),
{
    if rows.len() == 0 {
        Map::empty()
    } else {
        table(rows.drop_last()).insert(rows.last().0@, rows.last().1)
    }
}

/// The first slot from `from` on and before `until` that has a leader.
pub open spec fn first_scheduled(schedule: Map<u64, Seq<u8>>, from: nat, until: nat) -> Option<u64>
    decreases until - from,
{
    if from >= until || from > u64::MAX {
        None
    } else if schedule.contains_key(from as u64) {
        Some(from as u64)
    } else {
        first_scheduled(schedule, from + 1, until)
    }
}

/// Tracks the leader schedule and the addresses of the leaders.
pub struct LeaderTracker<A> {
    schedule: HashMap<u64, Pubkey>,
    tpu_map: Vec<(Pubkey, A)>,
    last_refresh: Option<Duration>,
    refresh_interval: Duration,
    lookahead: usize,
}

/// A schedule, the addresses of the leaders, when the schedule was last refreshed and how
/// often it should be (both in nanoseconds), and how many leaders to list.
#[verifier::ext_equal]
pub struct TrackerView<A> {
    pub schedule: Map<u64, Seq<u8>>,
    pub addresses: Map<Seq<u8>, A>,
    pub last_refresh: Option<nat>,
    pub refresh_interval: nat,
    pub lookahead: nat,
}

impl<A> View for LeaderTracker<A> {
    type V = TrackerView<A>;

    closed spec fn view(&self) -> TrackerView<A> {
        TrackerView {
            schedule: self.schedule@.map_values(|key: Pubkey| key@),
            addresses: table(self.tpu_map@),
            last_refresh: match self.last_refresh {
                Some(then) => Some(nanos(then)),
                None => None,
            },
            refresh_interval: nanos(self.refresh_interval),
            lookahead: self.lookahead as nat,
        }
    }
}

impl<A> TrackerView<A> {
    /// The address of a leader, if it is known.
    pub open spec fn address(self, leader: Seq<u8>) -> Option<A> {
        if self.addresses.contains_key(leader) {
            Some(self.addresses[leader])
        } else {
            None
        }
    }

    /// Whether a slot or one of the three after it can be looked at without leaving 64 bits.
    pub open spec fn window_fits(self, slot: u64) -> bool {
        slot + 3 <= u64::MAX || exists|s: u64| slot <= s && #[trigger] self.schedule.contains_key(s)
    }

    /// The leader of a slot; where it has none, of the first of the next three that has one.
    pub open spec fn leader_at(self, slot: u64) -> Option<Seq<u8>> {
        match first_scheduled(self.schedule, slot as nat, (slot + 4) as nat) {
            Some(s) => Some(self.schedule[s]),
            None => None,
        }
    }

    /// The slots that have a leader, from `from` on and before `until`, and no more than
    /// `count` of them, each with its leader and the address of the leader.
    pub open spec fn leaders_from(self, from: nat, until: nat, count: nat) -> Seq<
        (u64, Seq<u8>, Option<A>),
    >
        decreases until - from,
    {
        if from >= until || count == 0 {
            Seq::empty()
        } else if self.schedule.contains_key(from as u64) {
            let leader = self.schedule[from as u64];
            seq![(from as u64, leader, self.address(leader))] + self.leaders_from(
                from + 1,
                until,
                (count - 1) as nat,
            )
        } else {
            self.leaders_from(from + 1, until, count)
        }
    }

    /// The upcoming leaders, looked for in the thousand slots from the given one on.
    pub open spec fn upcoming(self, slot: u64) -> Seq<(u64, Seq<u8>, Option<A>)> {
        self.leaders_from(slot as nat, (slot + 1000) as nat, self.lookahead)
    }

    /// Whether the schedule was never refreshed, or longer ago than it should be.
    pub open spec fn stale(self, now: nat) -> bool {
        match self.last_refresh {
            Some(then) => age(now, then) > self.refresh_interval,
            None => true,
        }
    }
}

/// The rows of a list of upcoming leaders, in bytes.
pub open spec fn rows_view<A>(rows: Seq<(u64, Pubkey, Option<A>)>) -> Seq<
    (u64, Seq<u8>, Option<A>),
> {
    rows.map_values(|row: (u64, Pubkey, Option<A>)| (row.0, row.1@, row.2))
}

/// Reads the reply to the question for the leader schedule: it fails where the client failed
/// and where there is no schedule.
pub fn accept_schedule(reply: Reply<Option<Vec<(String, Vec<usize>)>>>) -> (outcome: Result<
    Vec<(String, Vec<usize>)>,
>)
    ensures
        match reply {
            Ok(Some(entries)) => outcome is Ok && outcome->Ok_0 == entries,
            Ok(None) => outcome is Err && outcome->Err_0@
                == RetryErrorView::LeaderScheduleFetchFailed(
                "RPC returned empty leader schedule"@,
            ),
            Err(why) => outcome is Err && outcome->Err_0@
                == RetryErrorView::LeaderScheduleFetchFailed(why@),
        },
{
    match reply {
        Ok(Some(entries)) => Ok(entries),
        Ok(None) => Err(
            RetryError::LeaderScheduleFetchFailed("RPC returned empty leader schedule".to_owned()),
        ),
        Err(why) => Err(RetryError::LeaderScheduleFetchFailed(why)),
    }
}

/// Reads the reply to the question for the epoch: it fails where the client failed.
pub fn accept_epoch(reply: Reply<EpochInfo>) -> (outcome: Result<EpochInfo>)
    ensures
        match reply {
            Ok(epoch) => outcome is Ok && outcome->Ok_0 == epoch,
            Err(why) => outcome is Err && outcome->Err_0@
                == RetryErrorView::LeaderScheduleFetchFailed(why@),
        },
{
    match reply {
        Ok(epoch) => Ok(epoch),
        Err(why) => Err(RetryError::LeaderScheduleFetchFailed(why)),
    }
}

/// Reads the reply to the question for the nodes: it fails where the client failed.
pub fn accept_nodes<A>(reply: Reply<Vec<ClusterNode<A>>>) -> (outcome: Result<Vec<ClusterNode<A>>>)
    ensures
        match reply {
            Ok(nodes) => outcome is Ok && outcome->Ok_0 == nodes,
            Err(why) => outcome is Err && outcome->Err_0@
                == RetryErrorView::LeaderScheduleFetchFailed(why@),
        },
{
    match reply {
        Ok(nodes) => Ok(nodes),
        Err(why) => Err(RetryError::LeaderScheduleFetchFailed(why)),
    }
}

/// Reads the reply to the question for the current slot: it fails where the client failed.
pub fn accept_slot(reply: Reply<u64>) -> (outcome: Result<u64>)
    ensures
        match reply {
            Ok(slot) => outcome is Ok && outcome->Ok_0 == slot,
            Err(why) => outcome is Err && outcome->Err_0@
                == RetryErrorView::LeaderScheduleFetchFailed(why@),
        },
{
    match reply {
        Ok(slot) => Ok(slot),
        Err(why) => Err(RetryError::LeaderScheduleFetchFailed(why)),
    }
}

/// Leaders with their slots, the keys in bytes.
pub open spec fn leaders_view(leaders: Seq<(Pubkey, Vec<usize>)>) -> Seq<(Seq<u8>, Seq<usize>)> {
    leaders.map_values(|leader: (Pubkey, Vec<usize>)| (leader.0@, leader.1@))
}

/// Reads the keys of the leaders. Leaders whose keys cannot be read are left out.
pub fn readable_leaders(entries: &Vec<(String, Vec<usize>)>) -> (leaders: Vec<
    (Pubkey, Vec<usize>),
>)
    ensures
        leaders_view(leaders@) == readable(entries@),
{
    let mut leaders: Vec<(Pubkey, Vec<usize>)> = Vec::new();
    let mut i: usize = 0;
    assert(entries@.take(0) =~= Seq::empty());
    assert(leaders_view(leaders@) =~= Seq::empty());
    while i < entries.len()
        invariant
            i <= entries@.len(),
            leaders_view(leaders@) == readable(entries@.take(i as int)),
        decreases entries@.len() - i,
    {
        assert(entries@.take(i + 1).drop_last() =~= entries@.take(i as int));
        if let Some(key) = Pubkey::from_text(entries[i].0.as_str()) {
            let slots: Vec<usize> = entries[i].1.clone();
            let ghost before = leaders_view(leaders@);
            assert(slots@ =~= entries@[i as int].1@);
            leaders.push((key, slots));
            assert(leaders_view(leaders@) =~= before.push((key@, slots@)));
        }
        i = i + 1;
    }
    assert(entries@.take(i as int) =~= entries@);
    leaders
}

/// Reads the keys of the nodes. Nodes whose keys cannot be read or that have no address are left
/// out.
pub fn readable_addresses<A: Copy>(nodes: &Vec<ClusterNode<A>>) -> (rows: Vec<(Pubkey, A)>)
    ensures
        table(rows@) == addresses_of(nodes@),
{
    let mut rows: Vec<(Pubkey, A)> = Vec::new();
    let mut i: usize = 0;
    assert(nodes@.take(0) =~= Seq::empty());
    while i < nodes.len()
        invariant
            i <= nodes@.len(),
            table(rows@) == addresses_of(nodes@.take(i as int)),
        decreases nodes@.len() - i,
    {
        assert(nodes@.take(i + 1).drop_last() =~= nodes@.take(i as int));
        let ghost before = rows@;
        if let Some(key) = Pubkey::from_text(nodes[i].pubkey.as_str()) {
            if let Some(address) = nodes[i].tpu {
                rows.push((key, address));
                assert(rows@.drop_last() =~= before);
            }
        }
        i = i + 1;
    }
    assert(nodes@.take(i as int) =~= nodes@);
    rows
}

/// The schedule that a map of keys stands for.
spec fn schedule_view(schedule: Map<u64, Pubkey>) -> Map<u64, Seq<u8>> {
    schedule.map_values(|key: Pubkey| key@)
}

/// Gives each of the slots, counted from `start`, to a leader. Stops where a slot has no number
/// of 64 bits.
fn assign_slots(
    schedule: &mut HashMap<u64, Pubkey>,
    start: u64,
    leader: Pubkey,
    slots: &Vec<usize>,
) -> (done: bool)
    ensures
        done == (forall|j: int|
            0 <= j < slots@.len() ==> start + #[trigger] slots@[j] <= u64::MAX),
        done ==> schedule_view(final(schedule)@) == assign(
            schedule_view(old(schedule)@),
            start as nat,
            leader@,
            slots@,
        ),
{
    let mut i: usize = 0;
    assert(slots@.take(0) =~= Seq::<usize>::empty());
    while i < slots.len()
        invariant
            i <= slots@.len(),
            forall|j: int| 0 <= j < i ==> start + #[trigger] slots@[j] <= u64::MAX,
            schedule_view(schedule@) == assign(
                schedule_view(old(schedule)@),
                start as nat,
                leader@,
                slots@.take(i as int),
            ),
        decreases slots@.len() - i,
    {
        let offset: u64 = slots[i] as u64;
        let slot: u64 = match start.checked_add(offset) {
            Some(slot) => slot,
            None => {
                assert(start + slots@[i as int] > u64::MAX);
                return false;
            },
        };
        let ghost before = schedule@;
        schedule.insert(slot, leader);
        proof {
            assert(slots@.take(i + 1).drop_last() =~= slots@.take(i as int));
            assert(schedule_view(before.insert(slot, leader)) =~= schedule_view(before).insert(
                slot,
                leader@,
            ));
        }
        i = i + 1;
    }
    assert(slots@.take(i as int) =~= slots@);
    true
}

/// Looks a key up in a table, from the last row to the first.
fn find_address<A: Copy>(rows: &Vec<(Pubkey, A)>, key: &Pubkey) -> (found: Option<A>)
    ensures
        found == (if table(rows@).contains_key(key@) {
            Some(table(rows@)[key@])
        } else {
            None
        }),
{
    let mut i: usize = rows.len();
    assert(rows@.take(i as int) =~= rows@);
    while i > 0
        invariant
            i <= rows@.len(),
            table(rows@).contains_key(key@) <==> table(rows@.take(i as int)).contains_key(key@),
            table(rows@).contains_key(key@) ==> table(rows@)[key@] == table(
                rows@.take(i as int),
            )[key@],
        decreases i,
    {
        i = i - 1;
        assert(rows@.take(i + 1).drop_last() =~= rows@.take(i as int));
        assert(rows@.take(i + 1).last() == rows@[i as int]);
        if rows[i].0.same(key) {
            return Some(rows[i].1);
        }
    }
    None
}

impl<A: Copy> LeaderTracker<A> {
    /// Makes a tracker that knows nothing yet and wants to be refreshed every minute.
    pub fn new(lookahead: usize) -> (tracker: Self)
        ensures
            tracker@ == (TrackerView::<A> {
                schedule: Map::empty(),
                addresses: Map::empty(),
                last_refresh: None,
                refresh_interval: 60_000_000_000,
                lookahead: lookahead as nat,
            }),
    {
        let tracker = LeaderTracker {
            schedule: HashMap::new(),
            tpu_map: Vec::new(),
            last_refresh: None,
            refresh_interval: Duration::from_secs(60),
            lookahead,
        };
        assert(tracker@.schedule =~= Map::empty());
        tracker
    }

    /// Whether the schedule was never refreshed, or longer ago than it should be.
    pub fn is_stale(&self, now: Duration) -> (stale: bool)
        ensures
            stale == self@.stale(nanos(now)),
    {
        match self.last_refresh {
            Some(then) => now.as_nanos().saturating_sub(then.as_nanos())
                > self.refresh_interval.as_nanos(),
            None => true,
        }
    }

    /// Replaces the schedule by that of the current epoch. Leaders whose keys cannot be read
    /// are left out. Where the epoch would start before the first slot of all, or a slot has no
    /// number of 64 bits, nothing changes.
    pub fn refresh_schedule(
        &mut self,
        entries: &Vec<(String, Vec<usize>)>,
        epoch: EpochInfo,
        now: Duration,
    ) -> (refreshed: bool)
        ensures
            refreshed == in_range(readable(entries@), epoch),
            refreshed ==> final(self)@ == old(self)@.scheduled(
                readable(entries@),
                epoch,
                nanos(now),
            ),
            !refreshed ==> final(self)@ == old(self)@,
    {
        let leaders: Vec<(Pubkey, Vec<usize>)> = readable_leaders(entries);
        self.set_schedule(&leaders, epoch, now)
    }

    /// Replaces the schedule by that of the current epoch, given the leaders by their keys.
    /// Where the epoch would start before the first slot of all, or a slot has no number of 64
    /// bits, nothing changes.
    pub fn set_schedule(
        &mut self,
        leaders: &Vec<(Pubkey, Vec<usize>)>,
        epoch: EpochInfo,
        now: Duration,
    ) -> (refreshed: bool)
        ensures
            refreshed == in_range(leaders_view(leaders@), epoch),
            refreshed ==> final(self)@ == old(self)@.scheduled(
                leaders_view(leaders@),
                epoch,
                nanos(now),
            ),
            !refreshed ==> final(self)@ == old(self)@,
    {
        if epoch.slot_index > epoch.absolute_slot {
            return false;
        }
        let start: u64 = epoch.absolute_slot - epoch.slot_index;
        let ghost listed = leaders_view(leaders@);
        let mut schedule: HashMap<u64, Pubkey> = HashMap::new();
        let mut i: usize = 0;
        proof {
            assert(listed.take(0) =~= Seq::empty());
            assert(schedule_view(schedule@) =~= Map::empty());
        }
        while i < leaders.len()
            invariant
                i <= leaders@.len(),
                listed == leaders_view(leaders@),
                self@ == old(self)@,
                epoch.slot_index <= epoch.absolute_slot,
                start == epoch.absolute_slot - epoch.slot_index,
                slots_fit(listed.take(i as int), start as nat),
                schedule_view(schedule@) == schedule_of(listed.take(i as int), start as nat),
            decreases leaders@.len() - i,
        {
            let leader: &(Pubkey, Vec<usize>) = &leaders[i];
            proof {
                assert(listed[i as int] == (leader.0@, leader.1@));
                assert(listed.take(i + 1).drop_last() =~= listed.take(i as int));
            }
            if !assign_slots(&mut schedule, start, leader.0, &leader.1) {
                proof {
                    let j = choose|j: int|
                        0 <= j < leader.1@.len() && start + #[trigger] leader.1@[j] > u64::MAX;
                    assert(start + listed[i as int].1[j] > u64::MAX);
                }
                return false;
            }
            proof {
                assert forall|a: int, b: int|
                    0 <= a < i + 1 && 0 <= b < listed.take(i + 1)[a].1.len() implies start
                    + #[trigger] listed.take(i + 1)[a].1[b] <= u64::MAX by {
                    if a < i {
                        assert(listed.take(i as int)[a].1[b] == listed.take(i + 1)[a].1[b]);
                    } else {
                        assert(listed.take(i + 1)[a].1[b] == leader.1@[b]);
                    }
                }
            }
            i = i + 1;
        }
        assert(listed.take(i as int) =~= listed);
        self.schedule = schedule;
        self.last_refresh = Some(now);
        true
    }

    /// Replaces the addresses by those of the given nodes.
    pub fn refresh_tpu_map(&mut self, nodes: &Vec<ClusterNode<A>>)
        ensures
            final(self)@ == (TrackerView { addresses: addresses_of(nodes@), ..old(self)@ }),
    {
        self.set_addresses(readable_addresses(nodes));
    }

    /// Replaces the addresses by those of a table; where a key occurs twice, the later row
    /// counts.
    pub fn set_addresses(&mut self, rows: Vec<(Pubkey, A)>)
        ensures
            final(self)@ == (TrackerView { addresses: table(rows@), ..old(self)@ }),
    {
        self.tpu_map = rows;
    }

    /// The leader of a slot; where it has none, of the first of the next three that has one.
    pub fn get_current_leader(&self, slot: u64) -> (outcome: Result<Pubkey>)
        requires
            self@.window_fits(slot),
        ensures
            match self@.leader_at(slot) {
                Some(leader) => outcome is Ok && outcome->Ok_0@ == leader,
                None => outcome is Err && outcome->Err_0@
                    == RetryErrorView::LeaderScheduleFetchFailed(
                    "No leader found for slot "@ + decimal(slot as nat),
                ),
            },
    {
        let mut offset: u64 = 0;
        while offset < 4
            invariant
                offset <= 4,
                slot + offset <= u64::MAX + 1,
                self@.window_fits(slot),
                forall|s: u64| slot <= s < slot + offset ==> !self@.schedule.contains_key(s),
                first_scheduled(self@.schedule, slot as nat, (slot + 4) as nat)
                    == first_scheduled(
                    self@.schedule,
                    (slot + offset) as nat,
                    (slot + 4) as nat,
                ),
            decreases 4 - offset,
        {
            assert(slot + offset <= u64::MAX);
            match self.schedule.get(&(slot + offset)) {
                Some(leader) => return Ok(*leader),
                None => {},
            }
            offset = offset + 1;
        }
        let number: String = to_decimal(slot);
        let mut why: String = "No leader found for slot ".to_owned();
        why.append(number.as_str());
        Err(RetryError::LeaderScheduleFetchFailed(why))
    }

    /// The upcoming leaders from a slot on, each with its slot and its address.
    pub fn get_upcoming_leaders(&self, current_slot: u64) -> (leaders: Vec<
        (u64, Pubkey, Option<A>),
    >)
        requires
            self@.lookahead > 0 ==> current_slot + 1000 <= u64::MAX,
        ensures
            rows_view(leaders@) == self@.upcoming(current_slot),
    {
        let mut leaders: Vec<(u64, Pubkey, Option<A>)> = Vec::new();
        if self.lookahead == 0 {
            assert(rows_view(leaders@) =~= self@.upcoming(current_slot));
            return leaders;
        }
        let end: u64 = current_slot + 1000;
        let mut slot: u64 = current_slot;
        assert(rows_view(leaders@) + self@.upcoming(current_slot) =~= self@.upcoming(
            current_slot,
        ));
        while leaders.len() < self.lookahead && slot < end
            invariant
                current_slot <= slot <= end,
                end == current_slot + 1000,
                leaders@.len() <= self.lookahead,
                self@.upcoming(current_slot) == rows_view(leaders@) + self@.leaders_from(
                    slot as nat,
                    end as nat,
                    (self.lookahead - leaders@.len()) as nat,
                ),
            decreases end - slot,
        {
            match self.schedule.get(&slot) {
                Some(leader) => {
                    let address: Option<A> = find_address(&self.tpu_map, leader);
                    let ghost before = rows_view(leaders@);
                    let ghost row = (slot, leader@, address);
                    leaders.push((slot, *leader, address));
                    proof {
                        let rest = self@.leaders_from(
                            (slot + 1) as nat,
                            end as nat,
                            (self.lookahead - leaders@.len()) as nat,
                        );
                        assert(rows_view(leaders@) =~= before.push(row));
                        assert(before + (seq![row] + rest) =~= before.push(row) + rest);
                    }
                },
                None => {},
            }
            slot = slot + 1;
        }
        assert(self@.upcoming(current_slot) =~= rows_view(leaders@));
        leaders
    }

    /// The address of the current leader, if it is known.
    pub fn get_current_tpu_addr(&self, slot: u64) -> (outcome: Result<Option<A>>)
        requires
            self@.window_fits(slot),
        ensures
            match self@.leader_at(slot) {
                Some(leader) => outcome is Ok && outcome->Ok_0 == self@.address(leader),
                None => outcome is Err && outcome->Err_0@
                    == RetryErrorView::LeaderScheduleFetchFailed(
                    "No leader found for slot "@ + decimal(slot as nat),
                ),
            },
    {
        match self.get_current_leader(slot) {
            Ok(leader) => Ok(find_address(&self.tpu_map, &leader)),
            Err(error) => Err(error),
        }
    }
}

/// What came of the last action of a refresh.
pub enum RefreshEvent<A> {
    /// The network was asked for the leader schedule.
    Schedule(Reply<Option<Vec<(String, Vec<usize>)>>>),
    /// The network was asked for the epoch, and answered at the given time.
    Epoch { reply: Reply<EpochInfo>, now: Duration },
    /// The network was asked for its nodes.
    Nodes(Reply<Vec<ClusterNode<A>>>),
}

/// What came of the last action of a refresh, in bytes, characters and nanoseconds. Of a schedule
/// it holds the leaders whose keys can be read.
pub enum RefreshEventView<A> {
    Schedule(std::result::Result<Option<Seq<(Seq<u8>, Seq<usize>)>>, Seq<char>>),
    Epoch { reply: std::result::Result<EpochInfo, Seq<char>>, now: nat },
    Nodes(std::result::Result<Seq<ClusterNode<A>>, Seq<char>>),
}

impl<A> View for RefreshEvent<A> {
    type V = RefreshEventView<A>;

    open spec fn view(&self) -> RefreshEventView<A> {
        match self {
            RefreshEvent::Schedule(reply) => RefreshEventView::Schedule(
                match reply {
                    Ok(Some(entries)) => Ok(Some(readable(entries@))),
                    Ok(None) => Ok(None),
                    Err(why) => Err(why@),
                },
            ),
            RefreshEvent::Epoch { reply, now } => RefreshEventView::Epoch {
                reply: match reply {
                    Ok(epoch) => Ok(*epoch),
                    Err(why) => Err(why@),
                },
                now: nanos(*now),
            },
            RefreshEvent::Nodes(reply) => RefreshEventView::Nodes(
                match reply {
                    Ok(nodes) => Ok(nodes@),
                    Err(why) => Err(why@),
                },
            ),
        }
    }
}

/// What a refresh has to do next.
pub enum RefreshAction {
    /// Ask the network for the leader schedule.
    FetchSchedule,
    /// Ask the network for the epoch.
    FetchEpoch,
    /// Ask the network for its nodes.
    FetchNodes,
    /// Stop: the schedule that the network gave has a slot without a number of 64 bits.
    OutOfRange,
    /// Hand the outcome to the caller: the refresh has ended.
    Finish(Result<()>),
}

/// What a refresh has to do next, with its texts as sequences of characters.
pub enum RefreshActionView {
    FetchSchedule,
    FetchEpoch,
    FetchNodes,
    OutOfRange,
    Finish(std::result::Result<(), RetryErrorView>),
}

impl View for RefreshAction {
    type V = RefreshActionView;

    open spec fn view(&self) -> RefreshActionView {
        match self {
            RefreshAction::FetchSchedule => RefreshActionView::FetchSchedule,
            RefreshAction::FetchEpoch => RefreshActionView::FetchEpoch,
            RefreshAction::FetchNodes => RefreshActionView::FetchNodes,
            RefreshAction::OutOfRange => RefreshActionView::OutOfRange,
            RefreshAction::Finish(outcome) => RefreshActionView::Finish(
                match outcome {
                    Ok(()) => Ok(()),
                    Err(error) => Err(error@),
                },
            ),
        }
    }
}

/// A refresh of a tracker: the question whose answer it waits for.
pub enum TrackerRefresh {
    Schedule,
    Epoch { entries: Vec<(String, Vec<usize>)> },
    Nodes,
    Finished,
}

/// A refresh of a tracker, with the leaders whose keys can be read.
pub enum RefreshView {
    Schedule,
    Epoch { leaders: Seq<(Seq<u8>, Seq<usize>)> },
    Nodes,
    Finished,
}

impl View for TrackerRefresh {
    type V = RefreshView;

    open spec fn view(&self) -> RefreshView {
        match self {
            TrackerRefresh::Schedule => RefreshView::Schedule,
            TrackerRefresh::Epoch { entries } => RefreshView::Epoch { leaders: readable(entries@) },
            TrackerRefresh::Nodes => RefreshView::Nodes,
            TrackerRefresh::Finished => RefreshView::Finished,
        }
    }
}

impl RefreshView {
    /// Whether an event answers the question that the refresh has asked.
    pub open spec fn accepts<A>(self, event: RefreshEventView<A>) -> bool {
        match event {
            RefreshEventView::Schedule(_) => self is Schedule,
            RefreshEventView::Epoch { reply: _, now: _ } => self is Epoch,
            RefreshEventView::Nodes(_) => self is Nodes,
        }
    }
}

/// Whether the epoch starts with a slot that has a number, and so does each slot of the leaders.
pub open spec fn in_range(leaders: Seq<(Seq<u8>, Seq<usize>)>, epoch: EpochInfo) -> bool {
    epoch.slot_index <= epoch.absolute_slot && slots_fit(
        leaders,
        (epoch.absolute_slot - epoch.slot_index) as nat,
    )
}

impl<A> TrackerView<A> {
    /// The tracker with the schedule of an epoch, refreshed at a given time.
    pub open spec fn scheduled(
        self,
        leaders: Seq<(Seq<u8>, Seq<usize>)>,
        epoch: EpochInfo,
        now: nat,
    ) -> TrackerView<A> {
        TrackerView {
            schedule: schedule_of(leaders, (epoch.absolute_slot - epoch.slot_index) as nat),
            last_refresh: Some(now),
            ..self
        }
    }

    /// The tracker and the refresh after an event, and what has to be done next: first the
    /// schedule, then the epoch, and the nodes once the schedule was replaced. A question that
    /// failed ends the refresh.
    pub open spec fn refresh_next(self, refresh: RefreshView, event: RefreshEventView<A>) -> (
        TrackerView<A>,
        RefreshView,
        RefreshActionView,
    ) {
        match event {
            RefreshEventView::Schedule(Ok(Some(leaders))) => (
                self,
                RefreshView::Epoch { leaders },
                RefreshActionView::FetchEpoch,
            ),
            RefreshEventView::Schedule(Ok(None)) => self.refresh_failed(
                "RPC returned empty leader schedule"@,
            ),
            RefreshEventView::Schedule(Err(why)) => self.refresh_failed(why),
            RefreshEventView::Epoch { reply: Ok(epoch), now } => if in_range(
                refresh->leaders,
                epoch,
            ) {
                (
                    self.scheduled(refresh->leaders, epoch, now),
                    RefreshView::Nodes,
                    RefreshActionView::FetchNodes,
                )
            } else {
                (self, RefreshView::Finished, RefreshActionView::OutOfRange)
            },
            RefreshEventView::Epoch { reply: Err(why), now: _ } => self.refresh_failed(why),
            RefreshEventView::Nodes(Ok(nodes)) => (
                TrackerView { addresses: addresses_of(nodes), ..self },
                RefreshView::Finished,
                RefreshActionView::Finish(Ok(())),
            ),
            RefreshEventView::Nodes(Err(why)) => self.refresh_failed(why),
        }
    }

    /// The refresh ended by a question that failed: the tracker stays as it is.
    pub open spec fn refresh_failed(self, why: Seq<char>) -> (
        TrackerView<A>,
        RefreshView,
        RefreshActionView,
    ) {
        (
            self,
            RefreshView::Finished,
            RefreshActionView::Finish(Err(RetryErrorView::LeaderScheduleFetchFailed(why))),
        )
    }
}

impl<A: Copy> LeaderTracker<A> {
    /// Starts the first refresh.
    pub fn initialize(&self) -> (begun: (TrackerRefresh, RefreshAction))
        ensures
            begun.0@ == RefreshView::Schedule,
            begun.1@ == RefreshActionView::FetchSchedule,
    {
        (TrackerRefresh::Schedule, RefreshAction::FetchSchedule)
    }

    /// Starts a refresh where the schedule is stale; otherwise nothing has to be asked.
    pub fn ensure_fresh(&self, now: Duration) -> (begun: (TrackerRefresh, RefreshAction))
        ensures
            self@.stale(nanos(now)) ==> begun.0@ == RefreshView::Schedule && begun.1@
                == RefreshActionView::FetchSchedule,
            !self@.stale(nanos(now)) ==> begun.0@ == RefreshView::Finished && begun.1@
                == RefreshActionView::Finish(Ok(())),
    {
        if self.is_stale(now) {
            self.initialize()
        } else {
            (TrackerRefresh::Finished, RefreshAction::Finish(Ok(())))
        }
    }

    /// Moves a refresh on by an event, and says what has to be done next.
    pub fn advance_refresh(
        &mut self,
        refresh: &mut TrackerRefresh,
        event: RefreshEvent<A>,
    ) -> (action: RefreshAction)
        requires
            old(refresh)@.accepts(event@),
        ensures
            (final(self)@, final(refresh)@, action@) == old(self)@.refresh_next(
                old(refresh)@,
                event@,
            ),
    {
        match event {
            RefreshEvent::Schedule(reply) => match accept_schedule(reply) {
                Ok(entries) => {
                    *refresh = TrackerRefresh::Epoch { entries };
                    RefreshAction::FetchEpoch
                },
                Err(error) => {
                    *refresh = TrackerRefresh::Finished;
                    RefreshAction::Finish(Err(error))
                },
            },
            RefreshEvent::Epoch { reply, now } => match accept_epoch(reply) {
                Ok(epoch) => {
                    let refreshed: bool = match refresh {
                        TrackerRefresh::Epoch { entries } => self.refresh_schedule(
                            entries,
                            epoch,
                            now,
                        ),
                        _ => false,
                    };
                    if refreshed {
                        *refresh = TrackerRefresh::Nodes;
                        RefreshAction::FetchNodes
                    } else {
                        *refresh = TrackerRefresh::Finished;
                        RefreshAction::OutOfRange
                    }
                },
                Err(error) => {
                    *refresh = TrackerRefresh::Finished;
                    RefreshAction::Finish(Err(error))
                },
            },
            RefreshEvent::Nodes(reply) => {
                *refresh = TrackerRefresh::Finished;
                match accept_nodes(reply) {
                    Ok(nodes) => {
                        self.refresh_tpu_map(&nodes);
                        RefreshAction::Finish(Ok(()))
                    },
                    Err(error) => RefreshAction::Finish(Err(error)),
                }
            },
        }
    }
}

/// A refresh that fails leaves the tracker as it is, and says that the schedule could not be
/// fetched.
pub proof fn law_failed_refresh_changes_nothing<A>(
    tracker: TrackerView<A>,
    refresh: RefreshView,
    event: RefreshEventView<A>,
)
    ensures
        ({
            let (after, _, action) = tracker.refresh_next(refresh, event);
            &&& action matches RefreshActionView::Finish(Err(error)) ==> after == tracker && error
                is LeaderScheduleFetchFailed
            &&& action is OutOfRange ==> after == tracker
        }),
{
}

/// The nodes are asked for exactly once the schedule was replaced, which is then fresh; so where
/// the schedule could not be fetched, they are not asked for.
pub proof fn law_nodes_come_after_the_schedule<A>(
    tracker: TrackerView<A>,
    refresh: RefreshView,
    event: RefreshEventView<A>,
)
    requires
        refresh.accepts(event),
    ensures
        ({
            let (after, _, action) = tracker.refresh_next(refresh, event);
            &&& action is FetchNodes <==> event is Epoch && event->reply is Ok && in_range(
                refresh->leaders,
                event->reply->Ok_0,
            )
            &&& action is FetchNodes ==> after == tracker.scheduled(
                refresh->leaders,
                event->reply->Ok_0,
                event->now,
            ) && !after.stale(event->now)
        }),
{
}

/// A slot is given to a leader exactly where it is listed, or had one before.
proof fn lemma_assign(
    schedule: Map<u64, Seq<u8>>,
    start: nat,
    leader: Seq<u8>,
    slots: Seq<usize>,
    slot: u64,
)
    requires
        forall|j: int| 0 <= j < slots.len() ==> start + #[trigger] slots[j] <= u64::MAX,
    ensures
        ({
            let listed = exists|j: int| 0 <= j < slots.len() && start + #[trigger] slots[j] == slot;
            let after = assign(schedule, start, leader, slots);
            &&& after.contains_key(slot) <==> listed || schedule.contains_key(slot)
            &&& listed ==> after[slot] == leader
            &&& !listed && schedule.contains_key(slot) ==> after[slot] == schedule[slot]
        }),
    decreases slots.len(),
{
    if slots.len() > 0 {
        let front = slots.drop_last();
        assert forall|j: int| 0 <= j < front.len() implies start + #[trigger] front[j]
            <= u64::MAX by {
            assert(front[j] == slots[j]);
        }
        lemma_assign(schedule, start, leader, front, slot);
        let n = slots.len() - 1;
        assert(slots[n] == slots.last());
        if exists|j: int| 0 <= j < front.len() && start + #[trigger] front[j] == slot {
            let j = choose|j: int| 0 <= j < front.len() && start + #[trigger] front[j] == slot;
            assert(start + slots[j] == slot);
        }
        if exists|j: int| 0 <= j < slots.len() && start + #[trigger] slots[j] == slot {
            let j = choose|j: int| 0 <= j < slots.len() && start + #[trigger] slots[j] == slot;
            if j < n {
                assert(start + front[j] == slot);
            }
        }
    }
}

/// Whether a leader lists a slot.
pub open spec fn lists(leader: (Seq<u8>, Seq<usize>), start: nat, slot: u64) -> bool {
    exists|j: int| 0 <= j < leader.1.len() && start + #[trigger] leader.1[j] == slot
}

/// A slot has the last leader that lists it; so where no two leaders list the same slot, each
/// slot has the leader that lists it.
pub proof fn law_slot_has_its_leader(
    leaders: Seq<(Seq<u8>, Seq<usize>)>,
    start: nat,
    slot: u64,
    i: int,
)
    requires
        slots_fit(leaders, start),
        0 <= i < leaders.len(),
        lists(leaders[i], start, slot),
        forall|k: int| i < k < leaders.len() ==> !lists(#[trigger] leaders[k], start, slot),
    ensures
        schedule_of(leaders, start).contains_key(slot),
        schedule_of(leaders, start)[slot] == leaders[i].0,
    decreases leaders.len(),
{
    let front = leaders.drop_last();
    let last = leaders.len() - 1;
    assert forall|j: int| 0 <= j < leaders[last].1.len() implies start
        + #[trigger] leaders[last].1[j] <= u64::MAX by {}
    lemma_assign(schedule_of(front, start), start, leaders.last().0, leaders.last().1, slot);
    if i < last {
        assert forall|k: int| i < k < front.len() implies !lists(#[trigger] front[k], start, slot) by {
            assert(front[k] == leaders[k]);
        }
        assert(front[i] == leaders[i]);
        assert(slots_fit(front, start)) by {
            assert forall|a: int, b: int|
                0 <= a < front.len() && 0 <= b < front[a].1.len() implies start
                + #[trigger] front[a].1[b] <= u64::MAX by {
                assert(front[a] == leaders[a]);
            }
        }
        law_slot_has_its_leader(front, start, slot, i);
        assert(!lists(leaders[last], start, slot));
    }
}

/// A slot that no leader lists has none.
pub proof fn law_unlisted_slot_has_no_leader(
    leaders: Seq<(Seq<u8>, Seq<usize>)>,
    start: nat,
    slot: u64,
)
    requires
        slots_fit(leaders, start),
        forall|k: int| 0 <= k < leaders.len() ==> !lists(#[trigger] leaders[k], start, slot),
    ensures
        !schedule_of(leaders, start).contains_key(slot),
    decreases leaders.len(),
{
    if leaders.len() > 0 {
        let front = leaders.drop_last();
        let last = leaders.len() - 1;
        assert forall|k: int| 0 <= k < front.len() implies !lists(#[trigger] front[k], start, slot) by {
            assert(front[k] == leaders[k]);
        }
        assert(slots_fit(front, start)) by {
            assert forall|a: int, b: int|
                0 <= a < front.len() && 0 <= b < front[a].1.len() implies start
                + #[trigger] front[a].1[b] <= u64::MAX by {
                assert(front[a] == leaders[a]);
            }
        }
        law_unlisted_slot_has_no_leader(front, start, slot);
        assert(!lists(leaders[last], start, slot));
        lemma_assign(schedule_of(front, start), start, leaders.last().0, leaders.last().1, slot);
    }
}

/// The list of upcoming leaders holds no more leaders than asked for, goes up from slot to
/// slot within the range looked at, and tells of each slot its leader and the address of that
/// leader.
pub proof fn law_upcoming_goes_up<A>(tracker: TrackerView<A>, from: nat, until: nat, count: nat)
    requires
        until <= u64::MAX + 1,
    ensures
        ({
            let rows = tracker.leaders_from(from, until, count);
            &&& rows.len() <= count
            &&& forall|i: int|
                #![trigger rows[i]]
                0 <= i < rows.len() ==> {
                    &&& from <= rows[i].0 < until
                    &&& tracker.schedule.contains_key(rows[i].0)
                    &&& rows[i].1 == tracker.schedule[rows[i].0]
                    &&& rows[i].2 == tracker.address(rows[i].1)
                }
            &&& forall|i: int, j: int|
                0 <= i < j < rows.len() ==> (#[trigger] rows[i]).0 < (#[trigger] rows[j]).0
        }),
    decreases until - from,
{
    if from < until && count > 0 {
        let rows = tracker.leaders_from(from, until, count);
        if tracker.schedule.contains_key(from as u64) {
            law_upcoming_goes_up(tracker, from + 1, until, (count - 1) as nat);
            let rest = tracker.leaders_from(from + 1, until, (count - 1) as nat);
            assert forall|i: int| 0 < i < rows.len() implies #[trigger] rows[i] == rest[i - 1] by {}
        } else {
            law_upcoming_goes_up(tracker, from + 1, until, count);
        }
    }
}

/// The list of upcoming leaders skips none: a slot of the range that has a leader is in the
/// list, unless the list is full of earlier ones.
pub proof fn law_upcoming_skips_none<A>(
    tracker: TrackerView<A>,
    from: nat,
    until: nat,
    count: nat,
    slot: u64,
)
    requires
        until <= u64::MAX + 1,
        from <= slot < until,
        tracker.schedule.contains_key(slot),
    ensures
        ({
            let rows = tracker.leaders_from(from, until, count);
            ||| exists|i: int| 0 <= i < rows.len() && (#[trigger] rows[i]).0 == slot
            ||| rows.len() == count && forall|i: int|
                0 <= i < rows.len() ==> (#[trigger] rows[i]).0 < slot
        }),
    decreases until - from,
{
    let rows = tracker.leaders_from(from, until, count);
    if count > 0 {
        if tracker.schedule.contains_key(from as u64) {
            if from == slot {
                assert(rows[0].0 == slot);
            } else {
                let rest = tracker.leaders_from(from + 1, until, (count - 1) as nat);
                law_upcoming_skips_none(tracker, from + 1, until, (count - 1) as nat, slot);
                assert forall|i: int| 0 < i < rows.len() implies #[trigger] rows[i] == rest[i
                    - 1] by {}
                if exists|i: int| 0 <= i < rest.len() && (#[trigger] rest[i]).0 == slot {
                    let i = choose|i: int| 0 <= i < rest.len() && (#[trigger] rest[i]).0 == slot;
                    assert(rows[i + 1] == rest[i]);
                }
            }
        } else {
            law_upcoming_skips_none(tracker, from + 1, until, count, slot);
        }
    }
}

/// A slot that has a leader has that one as its current leader.
pub proof fn law_scheduled_leader_is_current<A>(tracker: TrackerView<A>, slot: u64)
    requires
        tracker.schedule.contains_key(slot),
    ensures
        tracker.leader_at(slot) == Some(tracker.schedule[slot]),
{
}

/// A current leader is found exactly where the slot or one of the next three has a leader.
pub proof fn law_window_of_four<A>(tracker: TrackerView<A>, slot: u64)
    ensures
        tracker.leader_at(slot) is Some <==> exists|s: u64|
            slot <= s < slot + 4 && #[trigger] tracker.schedule.contains_key(s),
{
    lemma_first_scheduled(tracker.schedule, slot as nat, (slot + 4) as nat);
}

/// The first slot that has a leader is found exactly where there is one.
proof fn lemma_first_scheduled(schedule: Map<u64, Seq<u8>>, from: nat, until: nat)
    ensures
        match first_scheduled(schedule, from, until) {
            Some(s) => from <= s < until && schedule.contains_key(s),
            None => forall|s: u64| from <= s < until ==> !#[trigger] schedule.contains_key(s),
        },
    decreases until - from,
{
    if from < until && from <= u64::MAX && !schedule.contains_key(from as u64) {
        lemma_first_scheduled(schedule, from + 1, until);
    }
}

/// The node that last tells a key and an address gives the key its address.
pub proof fn law_node_has_its_address<A>(nodes: Seq<ClusterNode<A>>, i: int, key: Seq<u8>)
    requires
        0 <= i < nodes.len(),
        pubkey_from_text(nodes[i].pubkey@) == Some(key),
        nodes[i].tpu is Some,
        forall|k: int|
            i < k < nodes.len() ==> pubkey_from_text((#[trigger] nodes[k]).pubkey@) != Some(key)
                || nodes[k].tpu is None,
    ensures
        addresses_of(nodes).contains_key(key),
        addresses_of(nodes)[key] == nodes[i].tpu->0,
    decreases nodes.len(),
{
    let front = nodes.drop_last();
    let last = nodes.len() - 1;
    if i < last {
        assert(nodes[last] == nodes.last());
        assert forall|k: int| i < k < front.len() implies pubkey_from_text(
            (#[trigger] front[k]).pubkey@,
        ) != Some(key) || front[k].tpu is None by {
            assert(front[k] == nodes[k]);
        }
        law_node_has_its_address(front, i, key);
    }
}

/// A schedule is fresh from its refresh on for as long as the interval lasts; one that was
/// never refreshed is stale.
pub proof fn law_stale_after_the_interval<A>(tracker: TrackerView<A>, now: nat)
    ensures
        tracker.last_refresh is None ==> tracker.stale(now),
        tracker.last_refresh is Some ==> (tracker.stale(now) <==> now > tracker.last_refresh->0
            + tracker.refresh_interval),
{
}

/// Whether a leader has a slot in an epoch: it lists the slot by its distance from the first slot
/// of the epoch, which is as far before the current slot as the index of the current slot says.
pub open spec fn leads(leader: (Seq<u8>, Seq<usize>), epoch: EpochInfo, slot: u64) -> bool {
    exists|j: int|
        0 <= j < leader.1.len() && epoch.absolute_slot + #[trigger] leader.1[j] == slot
            + epoch.slot_index
}

/// After a refresh a slot has a leader exactly where some leader has it in the current epoch, and
/// it is the last one that does. The addresses, the interval and the number of leaders to list
/// stay as they are, and the schedule is as old as the refresh.
pub proof fn law_refreshed_schedule_is_that_of_the_epoch<A>(
    tracker: TrackerView<A>,
    leaders: Seq<(Seq<u8>, Seq<usize>)>,
    epoch: EpochInfo,
    now: nat,
    slot: u64,
)
    requires
        in_range(leaders, epoch),
    ensures
        ({
            let after = tracker.scheduled(leaders, epoch, now);
            &&& after.schedule.contains_key(slot) <==> exists|i: int|
                0 <= i < leaders.len() && leads(#[trigger] leaders[i], epoch, slot)
            &&& forall|i: int|
                0 <= i < leaders.len() && leads(#[trigger] leaders[i], epoch, slot) && (forall|k: int|
                    i < k < leaders.len() ==> !leads(#[trigger] leaders[k], epoch, slot))
                    ==> after.schedule[slot] == leaders[i].0
            &&& after.addresses == tracker.addresses
            &&& after.refresh_interval == tracker.refresh_interval
            &&& after.lookahead == tracker.lookahead
            &&& after.last_refresh == Some(now)
        }),
{
    let start = (epoch.absolute_slot - epoch.slot_index) as nat;
    let after = tracker.scheduled(leaders, epoch, now);
    assert forall|i: int| 0 <= i < leaders.len() implies leads(#[trigger] leaders[i], epoch, slot)
        == lists(leaders[i], start, slot) by {
        lemma_leads_is_lists(leaders[i], epoch, slot);
    }
    assert forall|i: int|
        0 <= i < leaders.len() && leads(#[trigger] leaders[i], epoch, slot) && (forall|k: int|
            i < k < leaders.len() ==> !leads(#[trigger] leaders[k], epoch, slot)) implies {
        &&& after.schedule.contains_key(slot)
        &&& after.schedule[slot] == leaders[i].0
    } by {
        law_slot_has_its_leader(leaders, start, slot, i);
    }
    if exists|i: int| 0 <= i < leaders.len() && leads(#[trigger] leaders[i], epoch, slot) {
        let i = choose|i: int| 0 <= i < leaders.len() && leads(#[trigger] leaders[i], epoch, slot);
        let last = lemma_last_leader(leaders, epoch, slot, i);
        assert(leads(leaders[last], epoch, slot));
    } else {
        law_unlisted_slot_has_no_leader(leaders, start, slot);
    }
}

/// A slot that is counted from the current slot is counted from the first slot of the epoch alike.
proof fn lemma_leads_is_lists(leader: (Seq<u8>, Seq<usize>), epoch: EpochInfo, slot: u64)
    requires
        epoch.slot_index <= epoch.absolute_slot,
    ensures
        leads(leader, epoch, slot) == lists(
            leader,
            (epoch.absolute_slot - epoch.slot_index) as nat,
            slot,
        ),
{
    let start = (epoch.absolute_slot - epoch.slot_index) as nat;
    if leads(leader, epoch, slot) {
        let j = choose|j: int|
            0 <= j < leader.1.len() && epoch.absolute_slot + #[trigger] leader.1[j] == slot
                + epoch.slot_index;
        assert(start + leader.1[j] == slot);
    }
    if lists(leader, start, slot) {
        let j = choose|j: int| 0 <= j < leader.1.len() && start + #[trigger] leader.1[j] == slot;
        assert(epoch.absolute_slot + leader.1[j] == slot + epoch.slot_index);
    }
}

/// Where some leader has a slot, there is a last one that does.
proof fn lemma_last_leader(
    leaders: Seq<(Seq<u8>, Seq<usize>)>,
    epoch: EpochInfo,
    slot: u64,
    i: int,
) -> (last: int)
    requires
        0 <= i < leaders.len(),
        leads(leaders[i], epoch, slot),
    ensures
        i <= last < leaders.len(),
        leads(leaders[last], epoch, slot),
        forall|k: int| last < k < leaders.len() ==> !leads(#[trigger] leaders[k], epoch, slot),
    decreases leaders.len() - i,
{
    if exists|k: int| i < k < leaders.len() && leads(#[trigger] leaders[k], epoch, slot) {
        let k = choose|k: int| i < k < leaders.len() && leads(#[trigger] leaders[k], epoch, slot);
        lemma_last_leader(leaders, epoch, slot, k)
    } else {
        i
    }
}

/// After a refresh the last leader that has a slot in the current epoch is the one that is found
/// for it.
pub proof fn law_refreshed_leader_is_found<A>(
    tracker: TrackerView<A>,
    leaders: Seq<(Seq<u8>, Seq<usize>)>,
    epoch: EpochInfo,
    now: nat,
    slot: u64,
    i: int,
)
    requires
        in_range(leaders, epoch),
        0 <= i < leaders.len(),
        leads(leaders[i], epoch, slot),
        forall|k: int| i < k < leaders.len() ==> !leads(#[trigger] leaders[k], epoch, slot),
    ensures
        tracker.scheduled(leaders, epoch, now).leader_at(slot) == Some(leaders[i].0),
{
    law_refreshed_schedule_is_that_of_the_epoch(tracker, leaders, epoch, now, slot);
    law_scheduled_leader_is_current(tracker.scheduled(leaders, epoch, now), slot);
}

/// A schedule can be taken over exactly where the current slot is no further into its epoch than
/// into all slots, and no slot of a leader is beyond 64 bits.
pub proof fn law_schedule_is_in_range(leaders: Seq<(Seq<u8>, Seq<usize>)>, epoch: EpochInfo)
    ensures
        in_range(leaders, epoch) <==> {
            &&& epoch.slot_index <= epoch.absolute_slot
            &&& forall|i: int, j: int|
                0 <= i < leaders.len() && 0 <= j < leaders[i].1.len() ==> epoch.absolute_slot
                    + #[trigger] leaders[i].1[j] <= u64::MAX + epoch.slot_index
        },
{
    if epoch.slot_index <= epoch.absolute_slot {
        let start = (epoch.absolute_slot - epoch.slot_index) as nat;
        if !slots_fit(leaders, start) {
            let (i, j) = choose|i: int, j: int|
                0 <= i < leaders.len() && 0 <= j < leaders[i].1.len() && start
                    + #[trigger] leaders[i].1[j] > u64::MAX;
            assert(epoch.absolute_slot + leaders[i].1[j] > u64::MAX + epoch.slot_index);
        }
    }
}

/// The leaders of a list are those of its parts, in their order.
pub proof fn law_readable_joins(left: Seq<(String, Vec<usize>)>, right: Seq<(String, Vec<usize>)>)
    ensures
        readable(left + right) == readable(left) + readable(right),
    decreases right.len(),
{
    if right.len() == 0 {
        assert(left + right =~= left);
        assert(readable(left) + readable(right) =~= readable(left));
    } else {
        law_readable_joins(left, right.drop_last());
        assert((left + right).drop_last() =~= left + right.drop_last());
        assert((left + right).last() == right.last());
        assert(readable(left + right) =~= readable(left) + readable(right));
    }
}

/// A list of one leader gives that leader with its slots where the key can be read, and none
/// otherwise.
pub proof fn law_readable_leader_is_kept(entry: (String, Vec<usize>))
    ensures
        pubkey_from_text(entry.0@) matches Some(key) ==> readable(seq![entry]) == seq![
            (key, entry.1@),
        ],
        pubkey_from_text(entry.0@) is None ==> readable(seq![entry]).len() == 0,
{
    assert(seq![entry].drop_last() =~= Seq::empty());
    assert(readable(seq![entry].drop_last()) =~= Seq::empty());
    if let Some(key) = pubkey_from_text(entry.0@) {
        assert(readable(seq![entry]) =~= seq![(key, entry.1@)]);
    }
}

/// A key has an address only where some node tells both.
pub proof fn law_untold_node_has_no_address<A>(nodes: Seq<ClusterNode<A>>, key: Seq<u8>)
    requires
        forall|k: int|
            0 <= k < nodes.len() ==> pubkey_from_text((#[trigger] nodes[k]).pubkey@) != Some(key)
                || nodes[k].tpu is None,
    ensures
        !addresses_of(nodes).contains_key(key),
    decreases nodes.len(),
{
    if nodes.len() > 0 {
        let front = nodes.drop_last();
        assert(nodes[nodes.len() - 1] == nodes.last());
        assert forall|k: int| 0 <= k < front.len() implies pubkey_from_text(
            (#[trigger] front[k]).pubkey@,
        ) != Some(key) || front[k].tpu is None by {
            assert(front[k] == nodes[k]);
        }
        law_untold_node_has_no_address(front, key);
    }
}

/// The last row of a table that holds a key gives the key its address.
pub proof fn law_last_row_counts<A>(rows: Seq<(Pubkey, A)>, i: int)
    requires
        0 <= i < rows.len(),
        forall|k: int| i < k < rows.len() ==> (#[trigger] rows[k]).0@ != rows[i].0@,
    ensures
        table(rows).contains_key(rows[i].0@),
        table(rows)[rows[i].0@] == rows[i].1,
    decreases rows.len(),
{
    let front = rows.drop_last();
    let last = rows.len() - 1;
    if i < last {
        assert(rows[last] == rows.last());
        assert forall|k: int| i < k < front.len() implies (#[trigger] front[k]).0@
            != front[i].0@ by {
            assert(front[k] == rows[k]);
        }
        law_last_row_counts(front, i);
    }
}

/// A key that no row of a table holds has no address.
pub proof fn law_missing_row_has_no_address<A>(rows: Seq<(Pubkey, A)>, key: Seq<u8>)
    requires
        forall|k: int| 0 <= k < rows.len() ==> (#[trigger] rows[k]).0@ != key,
    ensures
        !table(rows).contains_key(key),
    decreases rows.len(),
{
    if rows.len() > 0 {
        let front = rows.drop_last();
        assert(rows[rows.len() - 1] == rows.last());
        assert forall|k: int| 0 <= k < front.len() implies (#[trigger] front[k]).0@ != key by {
            assert(front[k] == rows[k]);
        }
        law_missing_row_has_no_address(front, key);
    }
}

/// The current leader is that of the first slot that has one, from the given slot on and no
/// further than three slots ahead.
pub proof fn law_first_leader_of_the_window_is_current<A>(
    tracker: TrackerView<A>,
    slot: u64,
    found: u64,
)
    requires
        slot <= found < slot + 4,
        tracker.schedule.contains_key(found),
        forall|s: u64| slot <= s < found ==> !#[trigger] tracker.schedule.contains_key(s),
    ensures
        tracker.leader_at(slot) == Some(tracker.schedule[found]),
{
    lemma_first_is_found(tracker.schedule, slot as nat, (slot + 4) as nat, found);
}

/// The first slot that has a leader is the one that is found.
proof fn lemma_first_is_found(schedule: Map<u64, Seq<u8>>, from: nat, until: nat, found: u64)
    requires
        from <= found < until,
        schedule.contains_key(found),
        forall|s: u64| from <= s < found ==> !#[trigger] schedule.contains_key(s),
    ensures
        first_scheduled(schedule, from, until) == Some(found),
    decreases until - from,
{
    if from < found {
        assert(!schedule.contains_key(from as u64));
        lemma_first_is_found(schedule, from + 1, until, found);
    }
}

/// A leader has the address that stands under its key, and none where none does.
pub proof fn law_leader_has_its_address<A>(tracker: TrackerView<A>, leader: Seq<u8>)
    ensures
        tracker.address(leader) is Some <==> tracker.addresses.contains_key(leader),
        tracker.address(leader) matches Some(address) ==> address == tracker.addresses[leader],
{
}

/// The upcoming leaders are those of the thousand slots from the given one on, in the order of the
/// slots and no more than asked for, each with its address; a slot that has a leader is left out
/// only where the list is full of earlier ones.
pub proof fn law_upcoming_leaders_are_the_next_ones<A>(
    tracker: TrackerView<A>,
    slot: u64,
    scheduled: u64,
)
    requires
        slot + 1000 <= u64::MAX,
    ensures
        ({
            let rows = tracker.upcoming(slot);
            &&& rows.len() <= tracker.lookahead
            &&& forall|i: int|
                #![trigger rows[i]]
                0 <= i < rows.len() ==> {
                    &&& slot <= rows[i].0 < slot + 1000
                    &&& tracker.schedule.contains_key(rows[i].0)
                    &&& rows[i].1 == tracker.schedule[rows[i].0]
                    &&& rows[i].2 is Some <==> tracker.addresses.contains_key(rows[i].1)
                    &&& rows[i].2 is Some ==> rows[i].2->0 == tracker.addresses[rows[i].1]
                }
            &&& forall|i: int, j: int|
                0 <= i < j < rows.len() ==> (#[trigger] rows[i]).0 < (#[trigger] rows[j]).0
            &&& slot <= scheduled < slot + 1000 && tracker.schedule.contains_key(scheduled) ==> {
                ||| exists|i: int| 0 <= i < rows.len() && (#[trigger] rows[i]).0 == scheduled
                ||| rows.len() == tracker.lookahead && forall|i: int|
                    0 <= i < rows.len() ==> (#[trigger] rows[i]).0 < scheduled
            }
        }),
{
    law_upcoming_goes_up(tracker, slot as nat, (slot + 1000) as nat, tracker.lookahead);
    if slot <= scheduled < slot + 1000 && tracker.schedule.contains_key(scheduled) {
        law_upcoming_skips_none(
            tracker,
            slot as nat,
            (slot + 1000) as nat,
            tracker.lookahead,
            scheduled,
        );
    }
}

/// A refresh asks for the schedule, then for the epoch, then for the nodes. An answer that failed
/// ends it with the text of the failure, and so does a schedule that is missing; the tracker is then
/// left as it is. An epoch that can be taken over gives the schedule, and the nodes give the
/// addresses.
pub proof fn law_refresh_goes_step_by_step<A>(
    tracker: TrackerView<A>,
    refresh: RefreshView,
    event: RefreshEventView<A>,
)
    requires
        refresh.accepts(event),
    ensures
        ({
            let (after, next, action) = tracker.refresh_next(refresh, event);
            match event {
                RefreshEventView::Schedule(Ok(Some(leaders))) => {
                    &&& after == tracker
                    &&& next == RefreshView::Epoch { leaders }
                    &&& action is FetchEpoch
                },
                RefreshEventView::Schedule(Ok(None)) => {
                    &&& after == tracker
                    &&& action == RefreshActionView::Finish(
                        Err(
                            RetryErrorView::LeaderScheduleFetchFailed(
                                "RPC returned empty leader schedule"@,
                            ),
                        ),
                    )
                },
                RefreshEventView::Schedule(Err(why)) => {
                    &&& after == tracker
                    &&& action == RefreshActionView::Finish(
                        Err(RetryErrorView::LeaderScheduleFetchFailed(why)),
                    )
                },
                RefreshEventView::Epoch { reply: Ok(epoch), now } => if in_range(
                    refresh->leaders,
                    epoch,
                ) {
                    &&& after == tracker.scheduled(refresh->leaders, epoch, now)
                    &&& next is Nodes
                    &&& action is FetchNodes
                } else {
                    &&& after == tracker
                    &&& action is OutOfRange
                },
                RefreshEventView::Epoch { reply: Err(why), now: _ } => {
                    &&& after == tracker
                    &&& action == RefreshActionView::Finish(
                        Err(RetryErrorView::LeaderScheduleFetchFailed(why)),
                    )
                },
                RefreshEventView::Nodes(Ok(nodes)) => {
                    &&& after.addresses == addresses_of(nodes)
                    &&& after.schedule == tracker.schedule
                    &&& after.last_refresh == tracker.last_refresh
                    &&& after.refresh_interval == tracker.refresh_interval
                    &&& after.lookahead == tracker.lookahead
                    &&& action == RefreshActionView::Finish(Ok(()))
                },
                RefreshEventView::Nodes(Err(why)) => {
                    &&& after == tracker
                    &&& action == RefreshActionView::Finish(
                        Err(RetryErrorView::LeaderScheduleFetchFailed(why)),
                    )
                },
            }
        }),
{
}

/// The rows of a list keep their slots, leaders and addresses, and the leaders of a schedule their
/// keys and slots.
pub proof fn law_rows_are_told_whole<A>(
    rows: Seq<(u64, Pubkey, Option<A>)>,
    leaders: Seq<(Pubkey, Vec<usize>)>,
)
    ensures
        rows_view(rows).len() == rows.len(),
        forall|i: int|
            #![trigger rows_view(rows)[i]]
            0 <= i < rows.len() ==> rows_view(rows)[i].0 == rows[i].0 && rows_view(rows)[i].1
                == rows[i].1.bytes@ && rows_view(rows)[i].2 == rows[i].2,
        leaders_view(leaders).len() == leaders.len(),
        forall|i: int|
            #![trigger leaders_view(leaders)[i]]
            0 <= i < leaders.len() ==> leaders_view(leaders)[i].0 == leaders[i].0.bytes@
                && leaders_view(leaders)[i].1 == leaders[i].1@,
{
}

} // verus!
