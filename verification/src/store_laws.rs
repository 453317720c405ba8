//! What every operation of the session store keeps, and how operations relate.

use vstd::prelude::*;

use crate::config::{SessionFloor, Tier};
use crate::store::{
    lemma_dropped_keeps_wf, lemma_dropped_none, lemma_dropped_step, lemma_first_kept_bounds,
    lemma_sweep_keeps_lookup, lemma_sweep_passes, next_stamp, FrontAction, SessionStore, StoreState,
    Touch, SESSION_IDLE_TTL, SESSION_MAX_ENTRIES,
};

verus! {

// ---------------------------------------------------------------------------
// The invariant
// ---------------------------------------------------------------------------

/// Writing an entry keeps the invariant.
pub proof fn lemma_touched_keeps_wf(state: StoreState, key: Seq<char>, tier: Tier, now: u128)
    requires
        state.wf(),
    ensures
        state.touched(key, tier, now).wf(),
{
    let after = state.touched(key, tier, now);
    let seq = next_stamp(state.next_seq);
    assert(after.entries.dom() =~= state.entries.dom().insert(key));
    assert forall|k: Seq<char>| #[trigger]
        after.entries.contains_key(k) implies after.recency.contains(
        Touch { key: k, seq: after.entries[k].seq },
    ) by {
        if k == key {
            assert(after.recency[state.recency.len() as int] == Touch { key, seq });
        } else {
            assert(state.entries.contains_key(k));
            let touch = Touch { key: k, seq: state.entries[k].seq };
            assert(state.recency.contains(touch));
            let i = choose|i: int| 0 <= i < state.recency.len() && state.recency[i] == touch;
            assert(after.recency[i] == touch);
        }
    }
}

/// Forgetting an entry keeps the invariant.
pub proof fn lemma_forgotten_keeps_wf(state: StoreState, key: Seq<char>)
    requires
        state.wf(),
    ensures
        state.forgotten(key).wf(),
{
    let after = state.forgotten(key);
    assert(after.entries.dom() =~= state.entries.dom().remove(key));
    assert forall|k: Seq<char>| #[trigger]
        after.entries.contains_key(k) implies after.recency.contains(
        Touch { key: k, seq: after.entries[k].seq },
    ) by {
        assert(state.entries.contains_key(k));
    }
}

/// Stamps grow along `touches`; only the last stamp repeats.
spec fn stamps_grow(touches: Seq<Touch>) -> bool {
    forall|i: int, j: int|
        0 <= i < j < touches.len() ==> #[trigger] touches[i].seq < #[trigger] touches[j].seq
            || touches[i].seq == u64::MAX
}

/// Stamps grow strictly along `touches`.
pub open spec fn stamps_differ(touches: Seq<Touch>) -> bool {
    forall|i: int, j: int|
        0 <= i < j < touches.len() ==> #[trigger] touches[i].seq < #[trigger] touches[j].seq
}

/// Filtering keeps the order of stamps, and their growth where it is strict, and
/// picks only what was there.
proof fn lemma_filter_keeps_order(touches: Seq<Touch>, pred: spec_fn(Touch) -> bool)
    requires
        stamps_grow(touches),
    ensures
        stamps_grow(touches.filter(pred)),
        stamps_differ(touches) ==> stamps_differ(touches.filter(pred)),
        forall|t: Touch| #[trigger]
            touches.filter(pred).contains(t) <==> touches.contains(t) && pred(t),
    decreases touches.len(),
{
    reveal(Seq::filter);
    if touches.len() > 0 {
        let rest = touches.drop_last();
        let last = touches.last();
        let picked = rest.filter(pred);
        assert(stamps_grow(rest));
        assert(stamps_differ(touches) ==> stamps_differ(rest));
        lemma_filter_keeps_order(rest, pred);
        assert forall|t: Touch| #[trigger] touches.contains(t) <==> rest.contains(t) || t == last by {
            if touches.contains(t) {
                let i = choose|i: int| 0 <= i < touches.len() && touches[i] == t;
                if i < rest.len() {
                    assert(rest[i] == t);
                }
            }
            if rest.contains(t) {
                let i = choose|i: int| 0 <= i < rest.len() && rest[i] == t;
                assert(touches[i] == t);
            }
            assert(touches[touches.len() - 1] == last);
        }
        let all = touches.filter(pred);
        if pred(last) {
            assert(all == picked.push(last));
            assert forall|t: Touch| #[trigger] all.contains(t) <==> picked.contains(t) || t == last by {
                if all.contains(t) {
                    let i = choose|i: int| 0 <= i < all.len() && all[i] == t;
                    if i < picked.len() {
                        assert(picked[i] == t);
                    }
                }
                if picked.contains(t) {
                    let i = choose|i: int| 0 <= i < picked.len() && picked[i] == t;
                    assert(all[i] == t);
                }
                assert(all[all.len() - 1] == last);
            }
            assert forall|i: int, j: int| 0 <= i < j < all.len() implies (#[trigger] all[i].seq
                < #[trigger] all[j].seq || all[i].seq == u64::MAX && !stamps_differ(touches)) by {
                if j == picked.len() {
                    assert(picked[i] == all[i]);
                    assert(picked.contains(picked[i]));
                    assert(rest.contains(all[i]));
                    let k = choose|k: int| 0 <= k < rest.len() && rest[k] == all[i];
                    assert(touches[k] == all[i]);
                    assert(touches[touches.len() - 1] == last);
                } else {
                    assert(picked[i] == all[i] && picked[j] == all[j]);
                }
            }
        }
    }
}

/// Dropping stale nodes keeps the invariant.
pub proof fn lemma_without_stale_keeps_wf(state: StoreState)
    requires
        state.wf(),
    ensures
        state.without_stale().wf(),
{
    let after = state.without_stale();
    let current = |t: Touch| state.is_current(t);
    lemma_filter_keeps_order(state.recency, current);
    assert forall|i: int| 0 <= i < after.recency.len() implies #[trigger] after.recency[i].seq
        <= after.next_seq by {
        assert(after.recency.contains(after.recency[i]));
        assert(state.recency.contains(after.recency[i]));
        let k = choose|k: int| 0 <= k < state.recency.len() && state.recency[k] == after.recency[i];
        assert(state.recency[k].seq <= state.next_seq);
    }
    assert forall|k: Seq<char>| #[trigger]
        after.entries.contains_key(k) implies after.recency.contains(
        Touch { key: k, seq: after.entries[k].seq },
    ) by {
        assert(state.entries.contains_key(k));
        assert(current(Touch { key: k, seq: after.entries[k].seq }));
    }
}

/// Compaction keeps the invariant.
pub proof fn lemma_compacted_keeps_wf(state: StoreState)
    requires
        state.wf(),
    ensures
        state.compacted().wf(),
{
    lemma_without_stale_keeps_wf(state);
}

/// Bounds of [`StoreState::first_fitting`].
pub proof fn lemma_first_fitting_bounds(state: StoreState, i: int)
    requires
        0 <= i <= state.recency.len(),
    ensures
        i <= state.first_fitting(i) <= state.recency.len(),
        forall|j: int|
            i <= j < state.first_fitting(i) ==> #[trigger] state.dropped(j).entries.len()
                > state.max_entries,
        state.first_fitting(i) < state.recency.len() ==> state.dropped(
            state.first_fitting(i),
        ).entries.len() <= state.max_entries,
    decreases state.recency.len() - i,
{
    if i < state.recency.len() && state.dropped(i).entries.len() > state.max_entries {
        lemma_first_fitting_bounds(state, i + 1);
    }
}

/// Eviction keeps the invariant.
pub proof fn lemma_evicted_keeps_wf(state: StoreState)
    requires
        state.wf(),
    ensures
        state.evicted().wf(),
{
    lemma_first_fitting_bounds(state, 0);
    lemma_dropped_keeps_wf(state, state.first_fitting(0));
}

/// A sweep keeps the invariant.
pub proof fn lemma_swept_keeps_wf(state: StoreState, now: u128)
    requires
        state.wf(),
    ensures
        state.swept(now).wf(),
{
    lemma_first_kept_bounds(state, now, 0);
    lemma_dropped_keeps_wf(state, state.first_kept(now, 0));
}

/// Refreshing a session keeps the invariant.
pub proof fn lemma_refreshed_keeps_wf(state: StoreState, key: Seq<char>, now: u128)
    requires
        state.wf(),
    ensures
        state.refreshed(key, now).wf(),
{
    lemma_swept_keeps_wf(state, now);
    lemma_forgotten_keeps_wf(state.swept(now), key);
}

/// Remembering a verdict keeps the invariant.
pub proof fn law_remember_keeps_invariant(
    state: StoreState,
    key: Seq<char>,
    tier: Tier,
    now: u128,
    floor: SessionFloor,
)
    requires
        state.wf(),
    ensures
        state.remembered(key, tier, now, floor).wf(),
{
    let fresh = state.refreshed(key, now);
    let stored = fresh.tier_after(key, tier, floor);
    lemma_refreshed_keeps_wf(state, key, now);
    lemma_touched_keeps_wf(fresh, key, stored, now);
    lemma_evicted_keeps_wf(fresh.touched(key, stored, now));
    lemma_compacted_keeps_wf(fresh.touched(key, stored, now).evicted());
}

/// Looking a session up keeps the invariant.
pub proof fn law_lookup_keeps_invariant(state: StoreState, key: Seq<char>, now: u128)
    requires
        state.wf(),
    ensures
        state.looked_up(key, now).wf(),
{
    let fresh = state.refreshed(key, now);
    lemma_refreshed_keeps_wf(state, key, now);
    match state.lookup(key, now) {
        Some(tier) => {
            lemma_touched_keeps_wf(fresh, key, tier, now);
            lemma_compacted_keeps_wf(fresh.touched(key, tier, now));
        },
        None => {
            lemma_compacted_keeps_wf(fresh);
        },
    }
}

// ---------------------------------------------------------------------------
// Sweeping
// ---------------------------------------------------------------------------

/// A sweep leaves nothing for a second one at the same time.
pub proof fn law_second_sweep_changes_nothing(state: StoreState, now: u128)
    ensures
        state.swept(now).swept(now) == state.swept(now),
{
    let n = state.first_kept(now, 0);
    let after = state.swept(now);
    lemma_first_kept_bounds(state, now, 0);
    if n < state.recency.len() {
        lemma_sweep_passes(state, n, now);
        assert(after.recency[0] == state.recency[n]);
    }
    assert(after.first_kept(now, 0) == 0);
    lemma_dropped_none(after);
}

/// Whether live entries stand in the queue in the order of their last touch.
pub open spec fn in_touch_order(state: StoreState) -> bool {
    forall|i: int, j: int|
        0 <= i < j < state.recency.len() && state.is_current(#[trigger] state.recency[i])
            && state.is_current(#[trigger] state.recency[j])
            ==> state.entries[state.recency[i].key].last_touch
            <= state.entries[state.recency[j].key].last_touch
}

/// With the queue in touch order a sweep leaves no idle entry.
pub proof fn law_sweep_leaves_no_idle_entry(state: StoreState, now: u128, key: Seq<char>)
    requires
        state.wf(),
        in_touch_order(state),
        state.swept(now).entries.contains_key(key),
    ensures
        !state.swept(now).is_idle(key, now),
        state.swept(now).entries[key] == state.entries[key],
{
    let n = state.first_kept(now, 0);
    lemma_first_kept_bounds(state, now, 0);
    let touch = Touch { key, seq: state.entries[key].seq };
    assert(state.recency.contains(touch));
    let j = choose|j: int| 0 <= j < state.recency.len() && state.recency[j] == touch;
    assert(state.is_current(state.recency[j]));
    if j < n {
        assert(state.current_keys(n).contains(key));
    }
    assert(state.keeps(state.recency[n], now));
}

// ---------------------------------------------------------------------------
// Bounds
// ---------------------------------------------------------------------------

/// With every node dropped no entry is left.
proof fn lemma_dropped_all(state: StoreState)
    requires
        state.wf(),
    ensures
        state.dropped(state.recency.len() as int).entries.len() == 0,
{
    let n = state.recency.len() as int;
    let after = state.dropped(n);
    assert forall|key: Seq<char>| !after.entries.dom().contains(key) by {
        if state.entries.contains_key(key) {
            let touch = Touch { key, seq: state.entries[key].seq };
            assert(state.recency.contains(touch));
            let i = choose|i: int| 0 <= i < state.recency.len() && state.recency[i] == touch;
            assert(state.is_current(state.recency[i]));
            assert(state.current_keys(n).contains(key));
        }
    }
    assert(after.entries.dom() =~= Set::empty());
}

/// After an eviction the entries fit the capacity.
pub proof fn lemma_evicted_fits(state: StoreState)
    requires
        state.wf(),
    ensures
        state.evicted().entries.len() <= state.max_entries,
{
    lemma_first_fitting_bounds(state, 0);
    if state.first_fitting(0) == state.recency.len() {
        lemma_dropped_all(state);
    }
}

/// Remembering a verdict never leaves more entries than the capacity.
pub proof fn law_store_stays_within_capacity(
    state: StoreState,
    key: Seq<char>,
    tier: Tier,
    now: u128,
    floor: SessionFloor,
)
    requires
        state.wf(),
    ensures
        state.remembered(key, tier, now, floor).entries.len() <= state.max_entries,
{
    let fresh = state.refreshed(key, now);
    let stored = fresh.tier_after(key, tier, floor);
    lemma_refreshed_keeps_wf(state, key, now);
    lemma_touched_keeps_wf(fresh, key, stored, now);
    lemma_evicted_fits(fresh.touched(key, stored, now));
}

/// A lookup adds no entry.
pub proof fn law_lookup_adds_no_entry(state: StoreState, key: Seq<char>, now: u128)
    requires
        state.wf(),
    ensures
        state.looked_up(key, now).entries.dom().subset_of(state.entries.dom()),
        state.looked_up(key, now).entries.len() <= state.entries.len(),
{
    let after = state.looked_up(key, now);
    lemma_sweep_keeps_lookup(state, key, now);
    assert(after.entries.dom().subset_of(state.entries.dom()));
    vstd::set_lib::lemma_len_subset(after.entries.dom(), state.entries.dom());
}

/// Every stamp occurs once.
pub open spec fn stamps_distinct(state: StoreState) -> bool {
    stamps_differ(state.recency)
}

/// Before the stamps run out they are distinct.
proof fn lemma_stamps_distinct(state: StoreState)
    requires
        state.wf(),
        state.next_seq < u64::MAX,
    ensures
        stamps_distinct(state),
{
    assert forall|i: int, j: int| 0 <= i < j < state.recency.len() implies #[trigger] state.recency[i].seq
        < #[trigger] state.recency[j].seq by {
        assert(state.recency[i].seq <= state.next_seq);
    }
}

/// The stamp of a new touch is larger than every earlier one.
proof fn lemma_touched_stamps_distinct(state: StoreState, key: Seq<char>, tier: Tier, now: u128)
    requires
        state.wf(),
        state.next_seq < u64::MAX,
    ensures
        stamps_distinct(state.touched(key, tier, now)),
{
    lemma_stamps_distinct(state);
    let after = state.touched(key, tier, now);
    assert forall|i: int, j: int| 0 <= i < j < after.recency.len() implies #[trigger] after.recency[i].seq
        < #[trigger] after.recency[j].seq by {
        assert(after.recency[i] == state.recency[i]);
        assert(state.recency[i].seq <= state.next_seq);
        if j < state.recency.len() {
            assert(after.recency[j] == state.recency[j]);
        }
    }
}

/// Dropping nodes keeps distinct stamps distinct.
proof fn lemma_dropped_stamps_distinct(state: StoreState, n: int)
    requires
        stamps_distinct(state),
        0 <= n <= state.recency.len(),
    ensures
        stamps_distinct(state.dropped(n)),
{
}

/// Without stale nodes there is at most one node per entry.
proof fn lemma_without_stale_len(state: StoreState)
    requires
        state.wf(),
        stamps_distinct(state),
    ensures
        state.without_stale().recency.len() <= state.entries.len(),
{
    let current = |t: Touch| state.is_current(t);
    let kept = state.recency.filter(current);
    lemma_filter_keeps_order(state.recency, current);
    let keys = kept.map_values(|t: Touch| t.key);
    assert forall|i: int| 0 <= i < kept.len() implies current(#[trigger] kept[i]) by {
        assert(kept.contains(kept[i]));
    }
    assert(keys.no_duplicates()) by {
        assert forall|i: int, j: int|
            0 <= i < keys.len() && 0 <= j < keys.len() && i != j implies keys[i] != keys[j] by {
            assert(current(kept[i]));
            assert(current(kept[j]));
            if keys[i] == keys[j] {
                assert(kept[i].seq == kept[j].seq);
            }
        }
    }
    keys.unique_seq_to_set();
    assert forall|key: Seq<char>| keys.to_set().contains(key) implies state.entries.dom().contains(
        key,
    ) by {
        assert(keys.contains(key));
        let i = choose|i: int| 0 <= i < keys.len() && keys[i] == key;
        assert(current(kept[i]));
    }
    vstd::set_lib::lemma_len_subset(keys.to_set(), state.entries.dom());
}

/// The recency queue stays within two nodes per entry, whichever operation ran,
/// until the stamps run out.
pub proof fn law_queue_stays_bounded(
    state: StoreState,
    key: Seq<char>,
    tier: Tier,
    now: u128,
    floor: SessionFloor,
)
    requires
        state.wf(),
        state.next_seq < u64::MAX,
    ensures
        state.remembered(key, tier, now, floor).recency.len() <= 2 * state.remembered(
            key,
            tier,
            now,
            floor,
        ).entries.len(),
        state.looked_up(key, now).recency.len() <= 2 * state.looked_up(key, now).entries.len(),
{
    let fresh = state.refreshed(key, now);
    lemma_refreshed_keeps_wf(state, key, now);
    let stored = fresh.tier_after(key, tier, floor);
    let pre = fresh.touched(key, stored, now);
    lemma_touched_keeps_wf(fresh, key, stored, now);
    lemma_touched_stamps_distinct(fresh, key, stored, now);
    lemma_first_fitting_bounds(pre, 0);
    lemma_evicted_keeps_wf(pre);
    lemma_dropped_stamps_distinct(pre, pre.first_fitting(0));
    lemma_without_stale_len(pre.evicted());
    match state.lookup(key, now) {
        Some(found) => {
            lemma_touched_keeps_wf(fresh, key, found, now);
            lemma_touched_stamps_distinct(fresh, key, found, now);
            lemma_without_stale_len(fresh.touched(key, found, now));
        },
        None => {
            lemma_stamps_distinct(fresh);
            lemma_without_stale_len(fresh);
        },
    }
}

// ---------------------------------------------------------------------------
// Calls in order of time
// ---------------------------------------------------------------------------

/// Whether later stamps belong to later touches, none of them after `now`.
pub open spec fn touched_in_time(state: StoreState, now: u128) -> bool {
    &&& forall|key: Seq<char>| #[trigger]
        state.entries.contains_key(key) ==> state.entries[key].last_touch <= now
    &&& forall|a: Seq<char>, b: Seq<char>|
        #![trigger state.entries[a], state.entries[b]]
        state.entries.contains_key(a) && state.entries.contains_key(b) && state.entries[a].seq
            < state.entries[b].seq ==> state.entries[a].last_touch <= state.entries[b].last_touch
}

/// Calls that come in order of time keep the queue in touch order, until the
/// stamps run out.
pub proof fn law_calls_in_time_keep_touch_order(
    state: StoreState,
    key: Seq<char>,
    tier: Tier,
    now: u128,
    floor: SessionFloor,
)
    requires
        state.wf(),
        state.next_seq < u64::MAX,
        touched_in_time(state, now),
    ensures
        touched_in_time(state.remembered(key, tier, now, floor), now),
        touched_in_time(state.looked_up(key, now), now),
        in_touch_order(state),
{
    lemma_stamps_distinct(state);
    let fresh = state.refreshed(key, now);
    let after = state.remembered(key, tier, now, floor);
    let found = state.looked_up(key, now);
    let seq = next_stamp(state.next_seq);
    assert forall|k: Seq<char>| #[trigger] fresh.entries.contains_key(k) implies (
    state.entries.contains_key(k) && fresh.entries[k] == state.entries[k] && fresh.entries[k].seq
        < seq) by {
        lemma_entry_stamp_bounded(state, k);
    }
    assert forall|k: Seq<char>| #[trigger] after.entries.contains_key(k) implies if k == key {
        after.entries[k].last_touch == now && after.entries[k].seq == seq
    } else {
        fresh.entries.contains_key(k) && after.entries[k] == fresh.entries[k]
    } by {
    }
    assert forall|k: Seq<char>| #[trigger] found.entries.contains_key(k) implies if k == key {
        found.entries[k].last_touch == now && found.entries[k].seq == seq
    } else {
        fresh.entries.contains_key(k) && found.entries[k] == fresh.entries[k]
    } by {
    }
}

// ---------------------------------------------------------------------------
// Least recently used leaves first
// ---------------------------------------------------------------------------

/// One node more takes at most one entry more.
proof fn lemma_dropped_step_len(state: StoreState, n: int)
    requires
        state.wf(),
        0 <= n < state.recency.len(),
    ensures
        state.dropped(n + 1).entries.len() + 1 >= state.dropped(n).entries.len(),
        state.dropped(n + 1).entries.len() <= state.dropped(n).entries.len(),
{
    lemma_dropped_step(state, n);
    lemma_dropped_keeps_wf(state, n);
}

/// Eviction takes entries in order of their latest touch, no more of them than
/// needed, and leaves the others as they are.
pub proof fn law_eviction_takes_least_recent(state: StoreState)
    requires
        state.wf(),
        stamps_distinct(state),
    ensures
        state.evicted().entries.submap_of(state.entries),
        state.evicted().entries.len() == if state.entries.len() <= state.max_entries {
            state.entries.len()
        } else {
            state.max_entries as nat
        },
        forall|gone: Seq<char>, kept: Seq<char>|
            #![trigger state.entries[gone], state.entries[kept]]
            state.entries.contains_key(gone) && !state.evicted().entries.contains_key(gone)
                && state.evicted().entries.contains_key(kept) ==> state.entries[gone].seq
                < state.entries[kept].seq,
{
    let n = state.first_fitting(0);
    let after = state.evicted();
    lemma_first_fitting_bounds(state, 0);
    lemma_evicted_fits(state);
    lemma_dropped_none(state);
    if n > 0 {
        assert(state.dropped(n - 1).entries.len() > state.max_entries);
        lemma_dropped_step_len(state, n - 1);
        assert(state.dropped(0).entries.len() > state.max_entries);
    }
    assert forall|gone: Seq<char>, kept: Seq<char>|
        #![trigger state.entries[gone], state.entries[kept]]
        state.entries.contains_key(gone) && !after.entries.contains_key(gone)
            && after.entries.contains_key(kept) implies state.entries[gone].seq
        < state.entries[kept].seq by {
        assert(state.current_keys(n).contains(gone));
        let i = choose|i: int|
            0 <= i < n && i < state.recency.len() && state.recency[i].key == gone
                && state.is_current(#[trigger] state.recency[i]);
        let touch = Touch { key: kept, seq: state.entries[kept].seq };
        assert(state.recency.contains(touch));
        let j = choose|j: int| 0 <= j < state.recency.len() && state.recency[j] == touch;
        if j < n {
            assert(state.is_current(state.recency[j]));
            assert(state.current_keys(n).contains(kept));
        }
        assert(state.recency[i].seq < state.recency[j].seq);
    }
}

/// A live entry's stamp is that of one of its nodes, so no larger than the newest.
proof fn lemma_entry_stamp_bounded(state: StoreState, key: Seq<char>)
    requires
        state.wf(),
        state.entries.contains_key(key),
    ensures
        state.entries[key].seq <= state.next_seq,
{
    let touch = Touch { key, seq: state.entries[key].seq };
    assert(state.recency.contains(touch));
    let i = choose|i: int| 0 <= i < state.recency.len() && state.recency[i] == touch;
    assert(state.recency[i].seq <= state.next_seq);
}

/// The store as a verdict is written, before anything is evicted.
pub open spec fn written(
    state: StoreState,
    key: Seq<char>,
    tier: Tier,
    now: u128,
    floor: SessionFloor,
) -> StoreState {
    let fresh = state.refreshed(key, now);
    fresh.touched(key, fresh.tier_after(key, tier, floor), now)
}

/// Remembering evicts the least recently used sessions, no more of them than
/// needed, and never the session just written unless the capacity is zero.
pub proof fn law_remember_evicts_least_recent(
    state: StoreState,
    key: Seq<char>,
    tier: Tier,
    now: u128,
    floor: SessionFloor,
)
    requires
        state.wf(),
        state.next_seq < u64::MAX,
    ensures
        ({
            let pre = written(state, key, tier, now, floor);
            let after = state.remembered(key, tier, now, floor);
            &&& after.entries.submap_of(pre.entries)
            &&& after.entries.len() == if pre.entries.len() <= state.max_entries {
                pre.entries.len()
            } else {
                state.max_entries as nat
            }
            &&& forall|gone: Seq<char>, kept: Seq<char>|
                #![trigger pre.entries[gone], pre.entries[kept]]
                pre.entries.contains_key(gone) && !after.entries.contains_key(gone)
                    && after.entries.contains_key(kept) ==> pre.entries[gone].seq
                    < pre.entries[kept].seq
            &&& state.max_entries > 0 ==> after.entries.contains_key(key)
        }),
{
    let fresh = state.refreshed(key, now);
    let pre = written(state, key, tier, now, floor);
    let after = state.remembered(key, tier, now, floor);
    let stored = fresh.tier_after(key, tier, floor);
    lemma_refreshed_keeps_wf(state, key, now);
    lemma_touched_keeps_wf(fresh, key, stored, now);
    lemma_touched_stamps_distinct(fresh, key, stored, now);
    law_eviction_takes_least_recent(pre);
    assert(after.entries == pre.evicted().entries);
    if state.max_entries > 0 && !after.entries.contains_key(key) {
        lemma_evicted_keeps_wf(pre);
        assert(pre.entries.contains_key(key));
        assert(after.entries.len() > 0) by {
            if pre.entries.len() == 0 {
                assert(pre.entries.dom().len() == 0);
                assert(pre.entries.dom() =~= Set::empty());
                assert(pre.entries.dom().contains(key));
            }
        }
        let other = after.entries.dom().choose();
        assert(after.entries.dom().contains(other)) by {
            if after.entries.dom() =~= Set::empty() {
                assert(after.entries.dom().len() == 0);
            }
            vstd::set::axiom_set_choose_len(after.entries.dom());
        }
        assert(pre.entries.contains_key(other));
        assert(pre.entries[key].seq < pre.entries[other].seq);
        lemma_entry_stamp_bounded(pre, other);
    }
}

// ---------------------------------------------------------------------------
// What a read gives back
// ---------------------------------------------------------------------------

/// What a verdict leaves behind for a session that held `held` when it came.
pub open spec fn kept_tier(held: Option<Tier>, tier: Tier, floor: SessionFloor) -> Tier {
    match held {
        Some(held) => if floor == SessionFloor::Enabled {
            held.highest(tier)
        } else {
            tier
        },
        None => tier,
    }
}

/// A stored verdict is lifted by what a lookup finds at that time, and by nothing
/// else: with the floor on the higher of the two is stored, and a session that
/// is unknown or has gone idle stores the verdict as it is.
pub proof fn law_idle_tier_lifts_nothing(
    state: StoreState,
    key: Seq<char>,
    tier: Tier,
    now: u128,
    floor: SessionFloor,
)
    requires
        state.wf(),
        state.next_seq < u64::MAX,
        state.max_entries > 0,
    ensures
        state.remembered(key, tier, now, floor).entries.contains_key(key),
        state.remembered(key, tier, now, floor).entries[key].tier == kept_tier(
            state.lookup(key, now),
            tier,
            floor,
        ),
        state.remembered(key, tier, now, floor).entries[key].last_touch == now,
{
    law_remember_evicts_least_recent(state, key, tier, now, floor);
    lemma_sweep_keeps_lookup(state, key, now);
    let after = state.remembered(key, tier, now, floor);
    let pre = written(state, key, tier, now, floor);
    assert(after.entries.dom().contains(key));
    assert(after.entries[key] == pre.entries[key]);
}

/// A verdict that was remembered is what a lookup within the idle time finds:
/// as given with the floor off, and lifted to what the session held with the
/// floor on, so never below it.
pub proof fn law_remember_then_lookup(
    state: StoreState,
    key: Seq<char>,
    tier: Tier,
    now: u128,
    floor: SessionFloor,
    later: u128,
)
    requires
        state.wf(),
        state.next_seq < u64::MAX,
        state.max_entries > 0,
        later - now <= state.ttl,
    ensures
        state.remembered(key, tier, now, floor).lookup(key, later) == Some(
            kept_tier(state.lookup(key, now), tier, floor),
        ),
        floor == SessionFloor::Disabled ==> state.remembered(key, tier, now, floor).lookup(
            key,
            later,
        ) == Some(tier),
        state.remembered(key, tier, now, floor).lookup(key, later)->0.rank() >= tier.rank(),
{
    law_idle_tier_lifts_nothing(state, key, tier, now, floor);
}

/// A session not touched for longer than the idle time misses.
pub proof fn law_idle_session_misses(
    state: StoreState,
    key: Seq<char>,
    tier: Tier,
    now: u128,
    floor: SessionFloor,
    later: u128,
)
    requires
        later - now > state.ttl,
    ensures
        state.remembered(key, tier, now, floor).lookup(key, later) is None,
        state.looked_up(key, now).lookup(key, later) is None,
{
    lemma_sweep_keeps_lookup(state, key, now);
}

/// A hit refreshes the session: its idle time starts over, and it becomes the
/// most recently used one.
pub proof fn law_hit_refreshes_session(
    state: StoreState,
    key: Seq<char>,
    now: u128,
    later: u128,
    other: Seq<char>,
)
    requires
        state.wf(),
        state.next_seq < u64::MAX,
        state.lookup(key, now) is Some,
        later - now <= state.ttl,
    ensures
        state.looked_up(key, now).lookup(key, later) == state.lookup(key, now),
        other != key && state.looked_up(key, now).entries.contains_key(other) ==> state.looked_up(
            key,
            now,
        ).entries[other].seq < state.looked_up(key, now).entries[key].seq,
{
    lemma_sweep_keeps_lookup(state, key, now);
    let fresh = state.swept(now);
    lemma_swept_keeps_wf(state, now);
    if other != key && state.looked_up(key, now).entries.contains_key(other) {
        assert(fresh.entries.contains_key(other));
        lemma_entry_stamp_bounded(fresh, other);
    }
}

/// A session the store does not know stays unknown to a lookup, and one
/// session's operations never alter what another one finds: it keeps its entry,
/// or loses it by being idle or evicted.
pub proof fn law_sessions_do_not_leak(
    state: StoreState,
    key: Seq<char>,
    tier: Tier,
    now: u128,
    floor: SessionFloor,
    other: Seq<char>,
)
    requires
        other != key,
    ensures
        state.looked_up(key, now).entries.contains_key(other) ==> state.entries.contains_key(other)
            && state.looked_up(key, now).entries[other] == state.entries[other],
        state.remembered(key, tier, now, floor).entries.contains_key(other)
            ==> state.entries.contains_key(other) && state.remembered(
            key,
            tier,
            now,
            floor,
        ).entries[other] == state.entries[other],
        state.lookup(other, now) is Some ==> state.looked_up(key, now).lookup(other, now)
            == state.lookup(other, now),
{
    lemma_sweep_keeps_lookup(state, key, now);
    lemma_sweep_keeps_lookup(state, other, now);
}

// ---------------------------------------------------------------------------
// The floor
// ---------------------------------------------------------------------------

/// With the floor on, a session that has not gone idle never drops to a lower
/// tier, whichever session the verdict was for.
pub proof fn law_floor_only_rises(
    state: StoreState,
    key: Seq<char>,
    tier: Tier,
    now: u128,
    session: Seq<char>,
)
    requires
        state.lookup(session, now) is Some,
        state.remembered(key, tier, now, SessionFloor::Enabled).entries.contains_key(session),
    ensures
        state.remembered(key, tier, now, SessionFloor::Enabled).entries[session].tier.rank()
            >= state.entries[session].tier.rank(),
{
    lemma_sweep_keeps_lookup(state, session, now);
}

/// One call on a store whose floor is on.
pub enum StoreCall {
    Remember { key: Seq<char>, tier: Tier, now: u128 },
    Lookup { key: Seq<char>, now: u128 },
}

impl StoreCall {
    /// When the call happens.
    pub open spec fn at(self) -> u128 {
        match self {
            StoreCall::Remember { now, .. } => now,
            StoreCall::Lookup { now, .. } => now,
        }
    }
}

/// The store after one call with the floor on.
pub open spec fn after_call(state: StoreState, call: StoreCall) -> StoreState {
    match call {
        StoreCall::Remember { key, tier, now } => state.remembered(
            key,
            tier,
            now,
            SessionFloor::Enabled,
        ),
        StoreCall::Lookup { key, now } => state.looked_up(key, now),
    }
}

/// The store after a run of calls with the floor on.
pub open spec fn after_calls(state: StoreState, calls: Seq<StoreCall>) -> StoreState
    decreases calls.len(),
{
    if calls.len() == 0 {
        state
    } else {
        after_calls(after_call(state, calls[0]), calls.skip(1))
    }
}

/// Whether `session` is found, neither idle nor evicted, at each of the calls
/// and is still stored after the last one.
pub open spec fn stays_live(state: StoreState, calls: Seq<StoreCall>, session: Seq<char>) -> bool
    decreases calls.len(),
{
    if calls.len() == 0 {
        state.entries.contains_key(session)
    } else {
        state.lookup(session, calls[0].at()) is Some && stays_live(
            after_call(state, calls[0]),
            calls.skip(1),
            session,
        )
    }
}

/// With the floor on, a session that reached Strong stays Strong for as long as
/// it is live, through any run of calls.
pub proof fn law_strong_stays_strong(
    state: StoreState,
    calls: Seq<StoreCall>,
    session: Seq<char>,
)
    requires
        state.entries.contains_key(session),
        state.entries[session].tier == Tier::Strong,
        stays_live(state, calls, session),
    ensures
        after_calls(state, calls).entries.contains_key(session),
        after_calls(state, calls).entries[session].tier == Tier::Strong,
    decreases calls.len(),
{
    if calls.len() > 0 {
        let next = after_call(state, calls[0]);
        assert(next.entries.contains_key(session)) by {
            reveal_with_fuel(stays_live, 2);
        }
        match calls[0] {
            StoreCall::Remember { key, tier, now } => {
                law_floor_only_rises(state, key, tier, now, session);
            },
            StoreCall::Lookup { key, now } => {
                lemma_sweep_keeps_lookup(state, key, now);
                lemma_sweep_keeps_lookup(state, session, now);
            },
        }
        law_strong_stays_strong(next, calls.skip(1), session);
    }
}

// ---------------------------------------------------------------------------
// Each operation, seen from outside
// ---------------------------------------------------------------------------

/// A lookup finds the stored tier exactly up to the idle time after the last
/// touch, that time included.
pub proof fn law_lookup_finds_until_idle(state: StoreState, key: Seq<char>, now: u128, tier: Tier)
    ensures
        state.lookup(key, now) == Some(tier) <==> state.entries.contains_key(key)
            && state.entries[key].tier == tier && now <= state.entries[key].last_touch + state.ttl,
{
}

/// With the floor off a verdict is stored as given. With the floor on it is too,
/// unless the session is at Strong: it then stays there.
pub proof fn law_stored_tier_by_cases(
    state: StoreState,
    key: Seq<char>,
    tier: Tier,
    now: u128,
    floor: SessionFloor,
)
    requires
        state.wf(),
        state.next_seq < u64::MAX,
        state.max_entries > 0,
    ensures
        floor == SessionFloor::Disabled ==> state.remembered(key, tier, now, floor).entries[key].tier
            == tier,
        floor == SessionFloor::Enabled && state.lookup(key, now) == Some(Tier::Strong)
            ==> state.remembered(key, tier, now, floor).entries[key].tier == Tier::Strong,
        floor == SessionFloor::Enabled && state.lookup(key, now) != Some(Tier::Strong)
            ==> state.remembered(key, tier, now, floor).entries[key].tier == tier,
{
    law_idle_tier_lifts_nothing(state, key, tier, now, floor);
}

/// No operation changes the idle time or the capacity, and every touch takes the
/// next stamp: one more than the latest, or the last one again.
pub proof fn law_settings_never_change(
    state: StoreState,
    key: Seq<char>,
    tier: Tier,
    now: u128,
    floor: SessionFloor,
)
    ensures
        state.remembered(key, tier, now, floor).ttl == state.ttl,
        state.remembered(key, tier, now, floor).max_entries == state.max_entries,
        state.looked_up(key, now).ttl == state.ttl,
        state.looked_up(key, now).max_entries == state.max_entries,
        state.remembered(key, tier, now, floor).next_seq == if state.next_seq == u64::MAX {
            state.next_seq as int
        } else {
            state.next_seq + 1
        },
        state.looked_up(key, now).next_seq == if state.next_seq == u64::MAX || state.lookup(
            key,
            now,
        ) is None {
            state.next_seq as int
        } else {
            state.next_seq + 1
        },
{
}

/// A lookup that finds its session leaves it with its tier and the new time of
/// touch; one that does not leaves no entry under the key. No other live session
/// is lost or changed by either.
pub proof fn law_lookup_by_cases(state: StoreState, key: Seq<char>, now: u128, other: Seq<char>)
    ensures
        state.lookup(key, now) matches Some(tier) ==> state.looked_up(
            key,
            now,
        ).entries.contains_key(key) && state.looked_up(key, now).entries[key].tier == tier
            && state.looked_up(key, now).entries[key].last_touch == now,
        state.lookup(key, now) is None ==> !state.looked_up(key, now).entries.contains_key(key),
        other != key && state.lookup(other, now) is Some ==> state.looked_up(
            key,
            now,
        ).entries.contains_key(other) && state.looked_up(key, now).entries[other]
            == state.entries[other],
{
    lemma_sweep_keeps_lookup(state, key, now);
    lemma_sweep_keeps_lookup(state, other, now);
}

/// While there is room, remembering a verdict costs no other live session: each
/// is found as before.
pub proof fn law_room_keeps_every_live_session(
    state: StoreState,
    key: Seq<char>,
    tier: Tier,
    now: u128,
    floor: SessionFloor,
    other: Seq<char>,
)
    requires
        state.wf(),
        state.entries.len() < state.max_entries || state.entries.contains_key(key)
            && state.entries.len() <= state.max_entries,
        state.lookup(other, now) is Some,
        other != key,
    ensures
        state.remembered(key, tier, now, floor).entries.contains_key(other),
        state.remembered(key, tier, now, floor).entries[other] == state.entries[other],
        state.remembered(key, tier, now, floor).lookup(other, now) == state.lookup(other, now),
{
    let fresh = state.refreshed(key, now);
    let pre = written(state, key, tier, now, floor);
    lemma_refreshed_keeps_wf(state, key, now);
    lemma_sweep_keeps_lookup(state, other, now);
    assert(fresh.entries.dom().subset_of(state.entries.dom()));
    assert(pre.entries.dom() =~= fresh.entries.dom().insert(key));
    assert(pre.entries.dom().subset_of(state.entries.dom().insert(key)));
    vstd::set_lib::lemma_len_subset(pre.entries.dom(), state.entries.dom().insert(key));
    lemma_dropped_none(pre);
    assert(pre.first_fitting(0) == 0);
}

/// Where remembering a verdict costs a live session, the store is full, and every
/// other session that stays was touched no earlier than the one that left.
pub proof fn law_full_store_loses_the_oldest(
    state: StoreState,
    key: Seq<char>,
    tier: Tier,
    now: u128,
    floor: SessionFloor,
    gone: Seq<char>,
    kept: Seq<char>,
)
    requires
        state.wf(),
        state.next_seq < u64::MAX,
        touched_in_time(state, now),
        gone != key,
        state.lookup(gone, now) is Some,
        !state.remembered(key, tier, now, floor).entries.contains_key(gone),
    ensures
        state.remembered(key, tier, now, floor).entries.len() == state.max_entries,
        kept != key && state.remembered(key, tier, now, floor).entries.contains_key(kept)
            ==> state.entries[gone].last_touch <= state.entries[kept].last_touch,
{
    let pre = written(state, key, tier, now, floor);
    let after = state.remembered(key, tier, now, floor);
    let fresh = state.refreshed(key, now);
    law_remember_evicts_least_recent(state, key, tier, now, floor);
    lemma_sweep_keeps_lookup(state, gone, now);
    lemma_refreshed_keeps_wf(state, key, now);
    assert(pre.entries.contains_key(gone));
    assert(pre.entries[gone] == state.entries[gone]);
    if pre.entries.len() <= state.max_entries {
        assert(pre.entries.dom() =~= fresh.entries.dom().insert(key));
        assert(after.entries.dom().subset_of(pre.entries.dom()));
        vstd::set_lib::lemma_subset_equality(after.entries.dom(), pre.entries.dom());
        assert(after.entries.dom().contains(gone));
    }
    if kept != key && after.entries.contains_key(kept) {
        assert(after.entries.dom().contains(kept));
        assert(pre.entries.contains_key(kept));
        assert(pre.entries[kept] == state.entries[kept]);
        assert(pre.entries[gone].seq < pre.entries[kept].seq);
    }
}

/// A sweep takes the leading nodes that are stale or idle, and stops at the first
/// that is neither. An entry leaves exactly where its latest touch is among them.
pub proof fn law_sweep_takes_the_leading_nodes(state: StoreState, now: u128, key: Seq<char>) -> (n:
    int)
    ensures
        0 <= n <= state.recency.len(),
        state.swept(now).recency == state.recency.skip(n),
        forall|i: int|
            0 <= i < n ==> !state.entries.contains_key((#[trigger] state.recency[i]).key)
                || state.entries[state.recency[i].key].seq != state.recency[i].seq || now
                > state.entries[state.recency[i].key].last_touch + state.ttl,
        n < state.recency.len() ==> state.entries.contains_key(state.recency[n].key)
            && state.entries[state.recency[n].key].seq == state.recency[n].seq && now
            <= state.entries[state.recency[n].key].last_touch + state.ttl,
        state.swept(now).entries.contains_key(key) <==> state.entries.contains_key(key) && !exists|
            i: int,
        |
            0 <= i < n && (#[trigger] state.recency[i]).key == key && state.recency[i].seq
                == state.entries[key].seq,
        state.swept(now).entries.contains_key(key) ==> state.swept(now).entries[key]
            == state.entries[key],
{
    let n = state.first_kept(now, 0);
    lemma_first_kept_bounds(state, now, 0);
    assert forall|i: int| 0 <= i < n implies (!state.entries.contains_key(
        (#[trigger] state.recency[i]).key,
    ) || state.entries[state.recency[i].key].seq != state.recency[i].seq || now
        > state.entries[state.recency[i].key].last_touch + state.ttl) by {
        assert(!state.keeps(state.recency[i], now));
    }
    if state.entries.contains_key(key) {
        if state.current_keys(n).contains(key) {
            let i = choose|i: int|
                0 <= i < n && i < state.recency.len() && state.recency[i].key == key
                    && state.is_current(#[trigger] state.recency[i]);
            assert(state.recency[i].seq == state.entries[key].seq);
        }
        if exists|i: int|
            0 <= i < n && (#[trigger] state.recency[i]).key == key && state.recency[i].seq
                == state.entries[key].seq {
            let i = choose|i: int|
                0 <= i < n && (#[trigger] state.recency[i]).key == key && state.recency[i].seq
                    == state.entries[key].seq;
            assert(state.is_current(state.recency[i]));
        }
    }
    n
}

/// A touch writes one entry and one node, both under the new stamp, and leaves
/// every other entry and node alone; forgetting takes one entry and no node.
pub proof fn law_touch_writes_one_entry(
    state: StoreState,
    key: Seq<char>,
    tier: Tier,
    now: u128,
    other: Seq<char>,
)
    ensures
        state.touched(key, tier, now).entries.contains_key(key),
        state.touched(key, tier, now).entries[key].tier == tier,
        state.touched(key, tier, now).entries[key].last_touch == now,
        state.touched(key, tier, now).entries[key].seq == state.touched(key, tier, now).next_seq,
        state.touched(key, tier, now).recency == state.recency.push(
            Touch { key, seq: state.touched(key, tier, now).next_seq },
        ),
        other != key ==> (state.touched(key, tier, now).entries.contains_key(other)
            <==> state.entries.contains_key(other)) && state.touched(key, tier, now).entries[other]
            == state.entries[other],
        !state.forgotten(key).entries.contains_key(key),
        other != key ==> (state.forgotten(key).entries.contains_key(other)
            <==> state.entries.contains_key(other)),
        other != key && state.entries.contains_key(other) ==> state.forgotten(key).entries[other]
            == state.entries[other],
        state.forgotten(key).recency == state.recency,
{
}

/// Compaction waits until there are more than two nodes per entry. It then keeps
/// exactly the nodes that are the latest of a live entry; it never changes an
/// entry.
pub proof fn law_compaction_keeps_current_nodes(state: StoreState, touch: Touch)
    requires
        state.wf(),
    ensures
        state.compacted().entries == state.entries,
        state.recency.len() <= 2 * state.entries.len() ==> state.compacted() == state,
        state.recency.len() > 2 * state.entries.len() ==> (state.compacted().recency.contains(touch)
            <==> state.recency.contains(touch) && state.entries.contains_key(touch.key)
            && state.entries[touch.key].seq == touch.seq),
{
    lemma_filter_keeps_order(state.recency, |t: Touch| state.is_current(t));
}

/// Unless told otherwise a store keeps ten thousand sessions for thirty minutes
/// each, counted in nanoseconds.
pub proof fn law_default_store_settings()
    ensures
        SESSION_IDLE_TTL == 30 * 60 * 1_000_000_000,
        SESSION_MAX_ENTRIES == 10_000,
{
}

/// The tier that a verdict leaves behind is the verdict, except that with the
/// floor on an entry at Strong stays there.
pub proof fn law_tier_after_a_verdict(
    state: StoreState,
    key: Seq<char>,
    incoming: Tier,
    floor: SessionFloor,
)
    ensures
        state.tier_after(key, incoming, floor) == if floor == SessionFloor::Enabled
            && state.entries.contains_key(key) && state.entries[key].tier == Tier::Strong {
            Tier::Strong
        } else {
            incoming
        },
{
}

/// Dropping nodes from the front takes exactly those entries whose latest touch
/// is among them, and leaves the others and the settings as they are.
pub proof fn law_dropped_nodes_take_their_entries(state: StoreState, n: int, key: Seq<char>)
    requires
        0 <= n <= state.recency.len(),
    ensures
        state.dropped(n).recency == state.recency.skip(n),
        state.dropped(n).next_seq == state.next_seq,
        state.dropped(n).ttl == state.ttl,
        state.dropped(n).max_entries == state.max_entries,
        state.dropped(n).entries.contains_key(key) <==> state.entries.contains_key(key) && !exists|
            i: int,
        |
            0 <= i < n && (#[trigger] state.recency[i]).key == key && state.recency[i].seq
                == state.entries[key].seq,
        state.dropped(n).entries.contains_key(key) ==> state.dropped(n).entries[key]
            == state.entries[key],
{
    if state.entries.contains_key(key) {
        if state.current_keys(n).contains(key) {
            let i = choose|i: int|
                0 <= i < n && i < state.recency.len() && state.recency[i].key == key
                    && state.is_current(#[trigger] state.recency[i]);
            assert(state.recency[i].seq == state.entries[key].seq);
        }
        if exists|i: int|
            0 <= i < n && (#[trigger] state.recency[i]).key == key && state.recency[i].seq
                == state.entries[key].seq {
            let i = choose|i: int|
                0 <= i < n && (#[trigger] state.recency[i]).key == key && state.recency[i].seq
                    == state.entries[key].seq;
            assert(state.is_current(state.recency[i]));
        }
    }
}

/// Eviction drops the fewest leading nodes after which the entries fit, so none
/// where they fit already, whatever the stamps are.
pub proof fn law_eviction_drops_the_fewest_nodes(state: StoreState) -> (n: int)
    requires
        state.wf(),
    ensures
        0 <= n <= state.recency.len(),
        state.evicted() == state.dropped(n),
        state.dropped(n).entries.len() <= state.max_entries,
        forall|i: int|
            0 <= i < n ==> #[trigger] state.dropped(i).entries.len() > state.max_entries,
        state.entries.len() <= state.max_entries ==> state.evicted() == state,
{
    lemma_first_fitting_bounds(state, 0);
    lemma_evicted_fits(state);
    lemma_dropped_none(state);
    state.first_fitting(0)
}

/// While there is room a verdict is always stored, whatever the stamps are: as
/// given, except that with the floor on a live session at Strong stays there.
pub proof fn law_room_stores_the_verdict(
    state: StoreState,
    key: Seq<char>,
    tier: Tier,
    now: u128,
    floor: SessionFloor,
)
    requires
        state.wf(),
        state.entries.len() < state.max_entries || state.entries.contains_key(key)
            && state.entries.len() <= state.max_entries,
    ensures
        state.remembered(key, tier, now, floor).entries.contains_key(key),
        state.remembered(key, tier, now, floor).entries[key].last_touch == now,
        state.remembered(key, tier, now, floor).entries[key].tier == if floor
            == SessionFloor::Enabled && state.lookup(key, now) == Some(Tier::Strong) {
            Tier::Strong
        } else {
            tier
        },
{
    let fresh = state.refreshed(key, now);
    let pre = written(state, key, tier, now, floor);
    lemma_refreshed_keeps_wf(state, key, now);
    lemma_sweep_keeps_lookup(state, key, now);
    assert(fresh.entries.dom().subset_of(state.entries.dom()));
    assert(pre.entries.dom() =~= fresh.entries.dom().insert(key));
    assert(pre.entries.dom().subset_of(state.entries.dom().insert(key)));
    vstd::set_lib::lemma_len_subset(pre.entries.dom(), state.entries.dom().insert(key));
    lemma_dropped_none(pre);
    assert(pre.first_fitting(0) == 0);
}

/// A new store is empty and has the idle time and the capacity it was made with.
pub proof fn law_new_store_is_empty(
    ttl: u128,
    max_entries: usize,
    store: SessionStore,
    key: Seq<char>,
    now: u128,
)
    requires
        call_ensures(SessionStore::new, (ttl, max_entries), store),
    ensures
        store@.ttl == ttl,
        store@.max_entries == max_entries,
        store@.lookup(key, now) is None,
        !store@.entries.contains_key(key),
        store@.recency.len() == 0,
        store@.wf(),
{
}

/// The front node is kept exactly where it is the latest touch of an entry within
/// its idle time; it takes its entry along exactly where that has gone idle.
pub proof fn law_front_node_is_judged_by_its_entry(
    store: &SessionStore,
    now: u128,
    action: Option<FrontAction>,
)
    requires
        call_ensures(SessionStore::inspect_front, (store, now), action),
    ensures
        action is None <==> store@.recency.len() == 0,
        store@.recency.len() > 0 ==> {
            let front = store@.recency[0];
            let latest = store@.entries.contains_key(front.key) && store@.entries[front.key].seq
                == front.seq;
            let idle = now > store@.entries[front.key].last_touch + store@.ttl;
            &&& action == Some(FrontAction::Keep) <==> latest && !idle
            &&& action == Some(FrontAction::DropEntry) <==> latest && idle
            &&& action == Some(FrontAction::DropNode) <==> !latest
        },
{
}

} // verus!
