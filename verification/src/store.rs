//! In-process map of session keys to a stored tier.
//!
//! Entries expire after an idle period and the least recently used ones leave
//! first when the map is full. Recency is a queue of stamped nodes; a node whose
//! stamp no longer matches its entry is stale and is skipped.

use std::collections::VecDeque;

use vstd::hash_map::StringHashMap;
use vstd::prelude::*;

use crate::config::{SessionFloor, Tier};
use crate::store_laws::{
    law_lookup_keeps_invariant, law_remember_keeps_invariant, law_store_stays_within_capacity,
    lemma_compacted_keeps_wf, lemma_evicted_fits, lemma_evicted_keeps_wf, lemma_forgotten_keeps_wf,
    lemma_without_stale_keeps_wf,
};

verus! {

/// Idle time after which a remembered success is dropped, in nanoseconds (30 minutes).
pub const SESSION_IDLE_TTL: u128 = 1_800_000_000_000;

/// Most sessions remembered at once.
pub const SESSION_MAX_ENTRIES: usize = 10_000;

/// Identifies one conversation across requests.
#[derive(Debug, Clone, PartialEq, Eq, Hash)]
pub struct SessionKey {
    /// Prefixed encoding (`h:` header, `o:` opening hash).
    pub inner: String,
}

impl View for SessionKey {
    type V = Seq<char>;

    open spec fn view(&self) -> Seq<char> {
        self.inner@
    }
}

impl SessionKey {
    /// Borrowed map key.
    pub fn as_str(&self) -> (text: &str)
        ensures
            text@ == self@,
    {
        self.inner.as_str()
    }
}

/// Live map value. Times are nanoseconds on one monotonic clock.
#[derive(Debug, Clone, Copy)]
pub struct SessionEntry {
    /// Stored tier: the floor when it is enabled, the last verdict otherwise.
    pub tier: Tier,
    /// Last write or hit.
    pub last_touch: u128,
    /// Stamp of the node that belongs to the latest touch.
    pub seq: u64,
}

/// Recency-queue node.
#[derive(Debug, Clone)]
pub struct RecencyNode {
    /// Key this node was pushed for.
    pub map_key: String,
    /// Stamp the entry had when this node was pushed.
    pub seq: u64,
}

/// What a recency node says: this key was touched under this stamp.
pub struct Touch {
    pub key: Seq<char>,
    pub seq: u64,
}

impl View for RecencyNode {
    type V = Touch;

    open spec fn view(&self) -> Touch {
        Touch { key: self.map_key@, seq: self.seq }
    }
}

/// What to do with the front node during a sweep.
#[derive(Debug, Clone, Copy, PartialEq, Eq, Structural)]
pub enum FrontAction {
    /// Front belongs to a live entry within its idle time.
    Keep,
    /// Stale node.
    DropNode,
    /// Front belongs to a live entry that has gone idle.
    DropEntry,
}

/// The stamp after `seq`; the last stamp repeats.
pub open spec fn next_stamp(seq: u64) -> u64 {
    if seq == u64::MAX {
        seq
    } else {
        (seq + 1) as u64
    }
}

/// Abstract state of a [`SessionStore`].
#[verifier::ext_equal]
pub struct StoreState {
    pub entries: Map<Seq<char>, SessionEntry>,
    pub recency: Seq<Touch>,
    pub next_seq: u64,
    pub ttl: u128,
    pub max_entries: usize,
}

impl StoreState {
    /// Whether `touch` is the latest one of a live entry.
    pub open spec fn is_current(self, touch: Touch) -> bool {
        self.entries.contains_key(touch.key) && self.entries[touch.key].seq == touch.seq
    }

    /// Whether an entry has not been touched for longer than the idle time.
    pub open spec fn is_idle(self, key: Seq<char>, now: u128) -> bool {
        now - self.entries[key].last_touch > self.ttl
    }

    /// Whether `touch` ends a sweep at `now`.
    pub open spec fn keeps(self, touch: Touch, now: u128) -> bool {
        self.is_current(touch) && !self.is_idle(touch.key, now)
    }

    /// Keys with a latest touch among the first `n` nodes.
    pub open spec fn current_keys(self, n: int) -> Set<Seq<char>> {
        Set::new(
            |key: Seq<char>|
                exists|i: int|
                    0 <= i < n && i < self.recency.len() && self.recency[i].key == key
                        && self.is_current(#[trigger] self.recency[i]),
        )
    }

    /// Removes the first `n` nodes and the live entries they belong to.
    pub open spec fn dropped(self, n: int) -> StoreState {
        StoreState {
            entries: self.entries.remove_keys(self.current_keys(n)),
            recency: self.recency.skip(n),
            ..self
        }
    }

    /// First position at or after `i` whose node a sweep at `now` keeps.
    pub open spec fn first_kept(self, now: u128, i: int) -> int
        decreases self.recency.len() - i,
    {
        if i >= self.recency.len() || self.keeps(self.recency[i], now) {
            i
        } else {
            self.first_kept(now, i + 1)
        }
    }

    /// Without the leading nodes that are stale or idle, and without the idle entries.
    pub open spec fn swept(self, now: u128) -> StoreState {
        self.dropped(self.first_kept(now, 0))
    }

    /// Fewest nodes, at least `i`, to drop so that the entries fit.
    pub open spec fn first_fitting(self, i: int) -> int
        decreases self.recency.len() - i,
    {
        if i >= self.recency.len() || self.dropped(i).entries.len() <= self.max_entries {
            i
        } else {
            self.first_fitting(i + 1)
        }
    }

    /// Without the least recent entries that exceed the capacity.
    pub open spec fn evicted(self) -> StoreState {
        self.dropped(self.first_fitting(0))
    }

    /// Without stale nodes.
    pub open spec fn without_stale(self) -> StoreState {
        StoreState { recency: self.recency.filter(|t: Touch| self.is_current(t)), ..self }
    }

    /// Without stale nodes once there are more than two nodes per entry.
    pub open spec fn compacted(self) -> StoreState {
        if self.recency.len() <= 2 * self.entries.len() {
            self
        } else {
            self.without_stale()
        }
    }

    /// Tier that a verdict `incoming` leaves behind for `key`.
    pub open spec fn tier_after(self, key: Seq<char>, incoming: Tier, floor: SessionFloor) -> Tier {
        if floor == SessionFloor::Enabled && self.entries.contains_key(key) {
            self.entries[key].tier.highest(incoming)
        } else {
            incoming
        }
    }

    /// Writes `tier` for `key` as the most recent entry.
    pub open spec fn touched(self, key: Seq<char>, tier: Tier, now: u128) -> StoreState {
        let seq = next_stamp(self.next_seq);
        StoreState {
            entries: self.entries.insert(key, SessionEntry { tier, last_touch: now, seq }),
            recency: self.recency.push(Touch { key, seq }),
            next_seq: seq,
            ..self
        }
    }

    /// Swept, and without the entry of `key` if that has gone idle. A sweep alone
    /// may leave an idle entry behind a node that was touched later.
    pub open spec fn refreshed(self, key: Seq<char>, now: u128) -> StoreState {
        if self.lookup(key, now) is None {
            self.swept(now).forgotten(key)
        } else {
            self.swept(now)
        }
    }

    /// Effect of [`SessionStore::remember`]. An entry that has gone idle does not
    /// count as a floor.
    pub open spec fn remembered(
        self,
        key: Seq<char>,
        tier: Tier,
        now: u128,
        floor: SessionFloor,
    ) -> StoreState {
        let fresh = self.refreshed(key, now);
        fresh.touched(key, fresh.tier_after(key, tier, floor), now).evicted().compacted()
    }

    /// Tier that a lookup of `key` at `now` finds.
    pub open spec fn lookup(self, key: Seq<char>, now: u128) -> Option<Tier> {
        if self.entries.contains_key(key) && !self.is_idle(key, now) {
            Some(self.entries[key].tier)
        } else {
            None
        }
    }

    /// Without the entry of `key`; its nodes turn stale.
    pub open spec fn forgotten(self, key: Seq<char>) -> StoreState {
        StoreState { entries: self.entries.remove(key), ..self }
    }

    /// Effect of [`SessionStore::last_success`].
    pub open spec fn looked_up(self, key: Seq<char>, now: u128) -> StoreState {
        let fresh = self.refreshed(key, now);
        match self.lookup(key, now) {
            Some(tier) => fresh.touched(key, tier, now).compacted(),
            None => fresh.compacted(),
        }
    }

    /// Structural invariant: stamps grow along the queue (only the last stamp
    /// repeats) and every live entry has a node with its stamp.
    pub open spec fn wf(self) -> bool {
        &&& self.entries.dom().finite()
        &&& forall|i: int|
            0 <= i < self.recency.len() ==> #[trigger] self.recency[i].seq <= self.next_seq
        &&& forall|i: int, j: int|
            0 <= i < j < self.recency.len() ==> #[trigger] self.recency[i].seq
                < #[trigger] self.recency[j].seq || self.recency[i].seq == u64::MAX
        &&& forall|key: Seq<char>| #[trigger]
            self.entries.contains_key(key) ==> self.recency.contains(
                Touch { key, seq: self.entries[key].seq },
            )
    }
}

/// Session keys with their stored tiers, bounded in number and in idle time.
///
/// With [`SessionFloor::Enabled`] a stored tier is a one-way floor. With
/// [`SessionFloor::Disabled`] it is the last live verdict.
pub struct SessionStore {
    entries: StringHashMap<SessionEntry>,
    recency: VecDeque<RecencyNode>,
    next_seq: u64,
    ttl: u128,
    max_entries: usize,
}

impl View for SessionStore {
    type V = StoreState;

    closed spec fn view(&self) -> StoreState {
        StoreState {
            entries: self.entries@,
            recency: self.recency@.map_values(|node: RecencyNode| node@),
            next_seq: self.next_seq,
            ttl: self.ttl,
            max_entries: self.max_entries,
        }
    }
}

/// Dropping one node more: its entry leaves exactly when the node is current.
pub proof fn lemma_dropped_step(state: StoreState, n: int)
    requires
        0 <= n < state.recency.len(),
    ensures
        ({
            let before = state.dropped(n);
            let after = state.dropped(n + 1);
            let node = state.recency[n];
            &&& before.recency.len() > 0
            &&& before.recency[0] == node
            &&& after.recency == before.recency.skip(1)
            &&& before.is_current(node) ==> after.entries == before.entries.remove(node.key)
                && state.is_current(node)
            &&& !before.is_current(node) ==> after.entries == before.entries
        }),
{
    let before = state.dropped(n);
    let after = state.dropped(n + 1);
    let node = state.recency[n];
    assert(after.recency =~= before.recency.skip(1));
    assert forall|key: Seq<char>| state.current_keys(n + 1).contains(key) implies (
    state.current_keys(n).contains(key) || (key == node.key && state.is_current(node))) by {
        let i = choose|i: int|
            0 <= i < n + 1 && i < state.recency.len() && state.recency[i].key == key
                && state.is_current(#[trigger] state.recency[i]);
        if i < n {
            assert(state.current_keys(n).contains(key));
        }
    }
    assert forall|key: Seq<char>|
        state.current_keys(n).contains(key) implies state.current_keys(n + 1).contains(key) by {
        let i = choose|i: int|
            0 <= i < n && i < state.recency.len() && state.recency[i].key == key
                && state.is_current(#[trigger] state.recency[i]);
        assert(state.is_current(state.recency[i]));
    }
    if state.is_current(node) {
        assert(state.current_keys(n + 1).contains(node.key)) by {
            assert(state.is_current(state.recency[n]));
        }
    }
    if before.is_current(node) {
        assert(after.entries =~= before.entries.remove(node.key));
    } else {
        assert(after.entries =~= before.entries);
    }
}

/// Dropping nothing changes nothing.
pub proof fn lemma_dropped_none(state: StoreState)
    ensures
        state.dropped(0) == state,
{
    assert(state.dropped(0).entries =~= state.entries);
    assert(state.dropped(0).recency =~= state.recency);
}

/// A node that a sweep passes over after `n` others is not kept in the original state.
pub proof fn lemma_sweep_passes(state: StoreState, n: int, now: u128)
    requires
        0 <= n < state.recency.len(),
        forall|i: int| 0 <= i < n ==> !state.keeps(#[trigger] state.recency[i], now),
    ensures
        state.keeps(state.recency[n], now) == state.dropped(n).keeps(state.recency[n], now),
{
    let node = state.recency[n];
    if state.keeps(node, now) && state.current_keys(n).contains(node.key) {
        let i = choose|i: int|
            0 <= i < n && i < state.recency.len() && state.recency[i].key == node.key
                && state.is_current(#[trigger] state.recency[i]);
        assert(!state.keeps(state.recency[i], now));
    }
}

impl SessionStore {
    /// Empty store with explicit idle time (nanoseconds) and capacity.
    pub fn new(ttl: u128, max_entries: usize) -> (store: Self)
        ensures
            store@ == (StoreState {
                entries: Map::empty(),
                recency: Seq::empty(),
                next_seq: 0,
                ttl,
                max_entries,
            }),
            store@.wf(),
    {
        let store = SessionStore {
            entries: StringHashMap::new(),
            recency: VecDeque::new(),
            next_seq: 0,
            ttl,
            max_entries,
        };
        assert(store@.recency =~= Seq::empty());
        store
    }

    /// 30 minutes idle, [`SESSION_MAX_ENTRIES`] entries.
    pub fn with_defaults() -> (store: Self)
        ensures
            store@ == (StoreState {
                entries: Map::empty(),
                recency: Seq::empty(),
                next_seq: 0,
                ttl: SESSION_IDLE_TTL,
                max_entries: SESSION_MAX_ENTRIES,
            }),
            store@.wf(),
    {
        Self::new(SESSION_IDLE_TTL, SESSION_MAX_ENTRIES)
    }

    /// Number of live entries.
    pub fn len(&self) -> (len: usize)
        ensures
            len == self@.entries.len(),
    {
        self.entries.len()
    }

    /// Number of recency nodes, stale ones among them.
    pub fn recency_len(&self) -> (len: usize)
        ensures
            len == self@.recency.len(),
    {
        self.recency.len()
    }

    /// Next recency stamp; saturates instead of wrapping.
    pub fn bump_seq(&mut self) -> (seq: u64)
        ensures
            seq == next_stamp(old(self)@.next_seq),
            final(self)@ == (StoreState { next_seq: seq, ..old(self)@ }),
    {
        self.next_seq = self.next_seq.saturating_add(1);
        self.next_seq
    }

    /// Floor on: the higher of stored and incoming. Floor off: incoming as-is.
    pub fn tier_to_store(
        &self,
        map_key: &str,
        incoming: Tier,
        session_floor: SessionFloor,
    ) -> (tier: Tier)
        ensures
            tier == self@.tier_after(map_key@, incoming, session_floor),
    {
        match session_floor {
            SessionFloor::Disabled => incoming,
            SessionFloor::Enabled => match self.entries.get(map_key) {
                Some(existing) => if existing.tier.is_max() {
                    existing.tier
                } else {
                    incoming
                },
                None => incoming,
            },
        }
    }

    /// Classifies the front node without changing the store.
    pub fn inspect_front(&self, now: u128) -> (action: Option<FrontAction>)
        ensures
            action == (if self@.recency.len() == 0 {
                None
            } else if !self@.is_current(self@.recency[0]) {
                Some(FrontAction::DropNode)
            } else if self@.is_idle(self@.recency[0].key, now) {
                Some(FrontAction::DropEntry)
            } else {
                Some(FrontAction::Keep)
            }),
    {
        if self.recency.len() == 0 {
            return None;
        }
        let front = &self.recency[0];
        assert(self@.recency[0] == front@);
        match self.entries.get(front.map_key.as_str()) {
            None => Some(FrontAction::DropNode),
            Some(entry) => if entry.seq != front.seq {
                Some(FrontAction::DropNode)
            } else if now.saturating_sub(entry.last_touch) > self.ttl {
                Some(FrontAction::DropEntry)
            } else {
                Some(FrontAction::Keep)
            },
        }
    }

    /// Removes the front node and the map entry under its key.
    pub fn drop_front_entry(&mut self)
        ensures
            final(self)@ == (if old(self)@.recency.len() == 0 {
                old(self)@
            } else {
                StoreState {
                    entries: old(self)@.entries.remove(old(self)@.recency[0].key),
                    recency: old(self)@.recency.skip(1),
                    ..old(self)@
                }
            }),
    {
        if let Some(node) = self.recency.pop_front() {
            self.entries.remove(node.map_key.as_str());
            assert(self@.recency =~= old(self)@.recency.skip(1));
            assert(old(self)@.recency[0] == node@);
        }
    }

    /// Drops stale nodes and idle entries from the front of the queue.
    pub fn sweep(&mut self, now: u128)
        ensures
            final(self)@ == old(self)@.swept(now),
            old(self)@.wf() ==> final(self)@.wf(),
    {
        let ghost start = self@;
        let ghost mut n: int = 0;
        proof {
            lemma_dropped_none(start);
        }
        loop
            invariant
                start == old(self)@,
                0 <= n <= start.recency.len(),
                self@ == start.dropped(n),
                forall|i: int| 0 <= i < n ==> !start.keeps(#[trigger] start.recency[i], now),
                start.first_kept(now, 0) == start.first_kept(now, n),
            ensures
                n == start.first_kept(now, 0),
                self@ == start.dropped(n),
                0 <= n <= start.recency.len(),
            decreases start.recency.len() - n,
        {
            proof {
                if n < start.recency.len() {
                    lemma_dropped_step(start, n);
                    lemma_sweep_passes(start, n, now);
                }
            }
            match self.inspect_front(now) {
                None => {
                    break;
                },
                Some(FrontAction::Keep) => {
                    break;
                },
                Some(FrontAction::DropNode) => {
                    let ghost before = self@;
                    self.recency.pop_front();
                    proof {
                        assert(self@.recency =~= before.recency.skip(1));
                        n = n + 1;
                        assert(self@ =~= start.dropped(n));
                    }
                },
                Some(FrontAction::DropEntry) => {
                    self.drop_front_entry();
                    proof {
                        n = n + 1;
                        assert(self@ =~= start.dropped(n));
                    }
                },
            }
        }
        proof {
            if start.wf() {
                lemma_dropped_keeps_wf(start, n);
            }
        }
    }

    /// Drops the key when its idle time has passed. Tells whether it is gone now.
    pub fn drop_if_idle(&mut self, key: &SessionKey, now: u128) -> (gone: bool)
        ensures
            gone == (old(self)@.lookup(key@, now) is None),
            final(self)@ == (if gone {
                old(self)@.forgotten(key@)
            } else {
                old(self)@
            }),
            old(self)@.wf() ==> final(self)@.wf(),
    {
        proof {
            if self@.wf() {
                lemma_forgotten_keeps_wf(self@, key@);
            }
        }
        let idle: bool = match self.entries.get(key.as_str()) {
            None => {
                assert(self@ =~= self@.forgotten(key@));
                return true;
            },
            Some(entry) => now.saturating_sub(entry.last_touch) > self.ttl,
        };
        if !idle {
            return false;
        }
        self.entries.remove(key.as_str());
        true
    }

    /// Drops the least recent live entries until the rest fits the capacity.
    pub fn evict_over_capacity(&mut self)
        ensures
            final(self)@ == old(self)@.evicted().compacted(),
            old(self)@.wf() ==> final(self)@.wf() && final(self)@.entries.len()
                <= final(self)@.max_entries,
    {
        let ghost start = self@;
        let ghost mut n: int = 0;
        proof {
            if start.wf() {
                lemma_evicted_keeps_wf(start);
                lemma_evicted_fits(start);
                lemma_compacted_keeps_wf(start.evicted());
            }
            lemma_dropped_none(start);
        }
        while self.entries.len() > self.max_entries
            invariant
                start == old(self)@,
                0 <= n <= start.recency.len(),
                self@ == start.dropped(n),
                start.first_fitting(0) == start.first_fitting(n),
            ensures
                n == start.first_fitting(0),
                self@ == start.dropped(n),
            decreases start.recency.len() - n,
        {
            let ghost before = self@;
            proof {
                if n < start.recency.len() {
                    lemma_dropped_step(start, n);
                }
            }
            let node = match self.recency.pop_front() {
                None => {
                    assert(self@ =~= before);
                    break;
                },
                Some(node) => node,
            };
            assert(before.recency[0] == node@);
            let current: bool = match self.entries.get(node.map_key.as_str()) {
                Some(entry) => entry.seq == node.seq,
                None => false,
            };
            if current {
                self.entries.remove(node.map_key.as_str());
            }
            proof {
                assert(self@.recency =~= before.recency.skip(1));
                n = n + 1;
                assert(self@ =~= start.dropped(n));
            }
        }
        self.maybe_compact_recency();
    }

    /// Rebuilds the queue once stale nodes outgrow the live entries.
    pub fn maybe_compact_recency(&mut self)
        ensures
            final(self)@ == old(self)@.compacted(),
            old(self)@.wf() ==> final(self)@.wf(),
    {
        match self.entries.len().checked_mul(2) {
            Some(limit) => {
                if self.recency.len() <= limit {
                    return;
                }
            },
            None => {
                assert(self@.recency.len() == self.recency.len());
                return;
            },
        }
        self.compact_recency();
    }

    /// Drops nodes whose stamp is no longer that of a live entry.
    pub fn compact_recency(&mut self)
        ensures
            final(self)@ == old(self)@.without_stale(),
            old(self)@.wf() ==> final(self)@.wf(),
    {
        let ghost start = self@;
        proof {
            if start.wf() {
                lemma_without_stale_keeps_wf(start);
            }
        }
        let ghost current = |t: Touch| start.is_current(t);
        let mut kept: VecDeque<RecencyNode> = VecDeque::new();
        let ghost mut n: int = 0;
        proof {
            reveal(Seq::filter);
            assert(kept@.map_values(|node: RecencyNode| node@) =~= start.recency.take(0).filter(
                current,
            ));
        }
        loop
            invariant
                0 <= n <= start.recency.len(),
                current == (|t: Touch| start.is_current(t)),
                self@ == (StoreState { recency: start.recency.skip(n), ..start }),
                kept@.map_values(|node: RecencyNode| node@) == start.recency.take(n).filter(
                    current,
                ),
            ensures
                n == start.recency.len(),
                self@ == (StoreState { recency: start.recency.skip(n), ..start }),
                kept@.map_values(|node: RecencyNode| node@) == start.recency.take(n).filter(
                    current,
                ),
            decreases start.recency.len() - n,
        {
            let ghost before = self@;
            let node = match self.recency.pop_front() {
                None => {
                    assert(before.recency.len() == 0);
                    assert(self@ =~= before);
                    break;
                },
                Some(node) => node,
            };
            let is_current: bool = match self.entries.get(node.map_key.as_str()) {
                Some(entry) => entry.seq == node.seq,
                None => false,
            };
            proof {
                assert(before.recency.len() == start.recency.len() - n);
                assert(before.recency[0] == node@);
                assert(self@.recency =~= before.recency.skip(1));
                assert(self@.recency =~= start.recency.skip(n + 1));
                let prefix = start.recency.take(n + 1);
                assert(prefix.drop_last() =~= start.recency.take(n));
                assert(prefix.last() == node@);
                reveal(Seq::filter);
            }
            let ghost kept_before = kept@;
            if is_current {
                kept.push_back(node);
                proof {
                    assert(kept@.map_values(|node: RecencyNode| node@) =~= kept_before.map_values(
                        |node: RecencyNode| node@,
                    ).push(node@));
                }
            }
            proof {
                n = n + 1;
            }
        }
        self.recency = kept;
        assert(start.recency.take(n) =~= start.recency);
        assert(self@ =~= start.without_stale());
    }

    /// Records a live verdict; fallbacks and rejections are not recorded.
    ///
    /// An entry that has gone idle is dropped first. With
    /// [`SessionFloor::Enabled`] the stored tier then only rises. With
    /// [`SessionFloor::Disabled`] the new verdict replaces whatever was stored.
    pub fn remember(
        &mut self,
        key: &SessionKey,
        tier: Tier,
        now: u128,
        session_floor: SessionFloor,
    )
        ensures
            final(self)@ == old(self)@.remembered(key@, tier, now, session_floor),
            old(self)@.wf() ==> final(self)@.wf() && final(self)@.entries.len()
                <= final(self)@.max_entries,
    {
        proof {
            if self@.wf() {
                law_remember_keeps_invariant(self@, key@, tier, now, session_floor);
                law_store_stays_within_capacity(self@, key@, tier, now, session_floor);
            }
            lemma_sweep_keeps_lookup(self@, key@, now);
        }
        self.sweep(now);
        self.drop_if_idle(key, now);
        let ghost fresh = self@;
        let seq: u64 = self.bump_seq();
        let map_key: String = key.as_str().to_owned();
        let effective_tier = self.tier_to_store(map_key.as_str(), tier, session_floor);
        self.entries.insert(
            map_key.clone(),
            SessionEntry { tier: effective_tier, last_touch: now, seq },
        );
        let ghost before = self@;
        self.recency.push_back(RecencyNode { map_key, seq });
        proof {
            assert(self@.recency =~= before.recency.push(Touch { key: key@, seq }));
            assert(self@ =~= fresh.touched(key@, effective_tier, now));
        }
        self.evict_over_capacity();
    }

    /// Returns the remembered tier and refreshes its idle time. Expired keys miss.
    pub fn last_success(&mut self, key: &SessionKey, now: u128) -> (tier: Option<Tier>)
        ensures
            tier == old(self)@.lookup(key@, now),
            final(self)@ == old(self)@.looked_up(key@, now),
            old(self)@.wf() ==> final(self)@.wf(),
    {
        proof {
            if self@.wf() {
                law_lookup_keeps_invariant(self@, key@, now);
            }
            lemma_sweep_keeps_lookup(self@, key@, now);
        }
        self.sweep(now);
        let ghost fresh = self@;
        if self.drop_if_idle(key, now) {
            self.maybe_compact_recency();
            return None;
        }
        let seq: u64 = self.bump_seq();
        let tier: Tier = match self.entries.get(key.as_str()) {
            None => {
                return None;
            },
            Some(entry) => entry.tier,
        };
        self.entries.insert(
            key.as_str().to_owned(),
            SessionEntry { tier, last_touch: now, seq },
        );
        let ghost before = self@;
        self.recency.push_back(RecencyNode { map_key: key.as_str().to_owned(), seq });
        proof {
            assert(self@.recency =~= before.recency.push(Touch { key: key@, seq }));
            assert(self@ =~= fresh.touched(key@, tier, now));
        }
        self.maybe_compact_recency();
        Some(tier)
    }
}

/// Bounds of [`StoreState::first_kept`].
pub proof fn lemma_first_kept_bounds(state: StoreState, now: u128, i: int)
    requires
        0 <= i <= state.recency.len(),
    ensures
        i <= state.first_kept(now, i) <= state.recency.len(),
        forall|j: int|
            i <= j < state.first_kept(now, i) ==> !state.keeps(#[trigger] state.recency[j], now),
        state.first_kept(now, i) < state.recency.len() ==> state.keeps(
            state.recency[state.first_kept(now, i)],
            now,
        ),
    decreases state.recency.len() - i,
{
    if i < state.recency.len() && !state.keeps(state.recency[i], now) {
        lemma_first_kept_bounds(state, now, i + 1);
    }
}

/// A sweep drops idle entries only, and leaves the others as they are.
pub proof fn lemma_sweep_keeps_lookup(state: StoreState, key: Seq<char>, now: u128)
    ensures
        state.swept(now).lookup(key, now) == state.lookup(key, now),
{
    let n = state.first_kept(now, 0);
    lemma_first_kept_bounds(state, now, 0);
    if state.lookup(key, now) is Some && state.current_keys(n).contains(key) {
        let i = choose|i: int|
            0 <= i < n && i < state.recency.len() && state.recency[i].key == key
                && state.is_current(#[trigger] state.recency[i]);
        assert(!state.keeps(state.recency[i], now));
    }
}

/// Dropping nodes from the front keeps the invariant.
pub proof fn lemma_dropped_keeps_wf(state: StoreState, n: int)
    requires
        state.wf(),
        0 <= n <= state.recency.len(),
    ensures
        state.dropped(n).wf(),
{
    let after = state.dropped(n);
    assert(after.entries.dom() =~= state.entries.dom().difference(state.current_keys(n)));
    assert forall|key: Seq<char>| #[trigger]
        after.entries.contains_key(key) implies after.recency.contains(
        Touch { key, seq: after.entries[key].seq },
    ) by {
        assert(state.entries.contains_key(key));
        let touch = Touch { key, seq: state.entries[key].seq };
        assert(state.recency.contains(touch));
        let i = choose|i: int| 0 <= i < state.recency.len() && state.recency[i] == touch;
        if i < n {
            assert(state.is_current(state.recency[i]));
            assert(state.current_keys(n).contains(key));
        }
        assert(after.recency[i - n] == touch);
    }
}

} // verus!
