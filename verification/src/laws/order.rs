//! In which order the library stands as files come, go and are mixed.

use vstd::prelude::*;

use crate::arrivals::{
    in_order, merge_map, merge_order, merged, merging_keeps_the_order, precedes,
    put_in_order, put_in_order_sorts, sourced, Ingested, Source,
};
use crate::model::{Clip, Effect};
use crate::state::State;
use crate::tuning::SortMode;

verus! {

/// Of two clips one after the other, the first is not the older one where the newest
/// come first, nor the newer one where the oldest do; one whose date is unknown comes
/// after all whose date is known.
pub open spec fn dated(newest: bool, a: Clip, b: Clip) -> bool {
    match (a.created, b.created) {
        (Some(x), Some(y)) => if newest {
            x >= y
        } else {
            x <= y
        },
        (None, Some(_)) => false,
        _ => true,
    }
}

/// The clips stand in the order of their dates.
pub open spec fn all_dated(newest: bool, clips: Seq<Clip>) -> bool {
    forall|i: int, j: int|
        0 <= i < j < clips.len() ==> dated(newest, #[trigger] clips[i], #[trigger] clips[j])
}

proof fn order_by_date(mode: SortMode, clips: Seq<Clip>)
    requires
        mode != SortMode::Arrival,
    ensures
        in_order(mode, clips) <==> all_dated(mode == SortMode::Newest, clips),
{
    let newest = mode == SortMode::Newest;
    if in_order(mode, clips) {
        assert forall|i: int, j: int| 0 <= i < j < clips.len() implies dated(
            newest,
            #[trigger] clips[i],
            #[trigger] clips[j],
        ) by {
            assert(!precedes(mode, clips[j], clips[i]));
        }
    }
    if all_dated(newest, clips) {
        assert forall|i: int, j: int| 0 <= i < j < clips.len() implies !precedes(
            mode,
            #[trigger] clips[j],
            #[trigger] clips[i],
        ) by {
            assert(dated(newest, clips[i], clips[j]));
        }
    }
}

proof fn merged_first(
    mode: SortMode,
    old: Seq<Clip>,
    batch: Seq<Clip>,
    o: int,
    k: int,
    p: int,
)
    requires
        0 <= o <= old.len() <= usize::MAX,
        0 <= k <= batch.len() <= usize::MAX,
        0 <= p < merge_order(mode, old, batch, o, k).len(),
    ensures
        match merge_order(mode, old, batch, o, k)[p] {
            Source::Kept(q) => o <= q < old.len(),
            Source::Came(q) => k <= q < batch.len(),
        },
    decreases (old.len() - o) + (batch.len() - k),
{
    let order = merge_order(mode, old, batch, o, k);
    if o < old.len() && !(k < batch.len() && precedes(mode, batch[k], old[o])) {
        if p > 0 {
            merged_first(mode, old, batch, o + 1, k, p - 1);
            assert(order[p] == merge_order(mode, old, batch, o + 1, k)[p - 1]);
        }
    } else if k < batch.len() {
        if p > 0 {
            merged_first(mode, old, batch, o, k + 1, p - 1);
            assert(order[p] == merge_order(mode, old, batch, o, k + 1)[p - 1]);
        }
    }
}

/// Every clip that was there is in the merge, and at one place.
proof fn kept_once(mode: SortMode, old: Seq<Clip>, batch: Seq<Clip>, o: int, k: int, q: int)
    requires
        0 <= o <= q < old.len() <= usize::MAX,
        0 <= k <= batch.len() <= usize::MAX,
    ensures
        ({
            let order = merge_order(mode, old, batch, o, k);
            &&& exists|p: int| 0 <= p < order.len() && #[trigger] order[p] == Source::Kept(q as usize)
            &&& forall|a: int, b: int|
                0 <= a < order.len() && 0 <= b < order.len() && #[trigger] order[a] == Source::Kept(
                    q as usize,
                ) && #[trigger] order[b] == Source::Kept(q as usize) ==> a == b
        }),
    decreases (old.len() - o) + (batch.len() - k),
{
    let order = merge_order(mode, old, batch, o, k);
    let kept = !(k < batch.len() && precedes(mode, batch[k], old[o]));
    let (o2, k2) = if kept {
        (o + 1, k)
    } else {
        (o, k + 1)
    };
    let rest = merge_order(mode, old, batch, o2, k2);
    assert(order.len() == rest.len() + 1);
    assert forall|a: int| 0 < a < order.len() implies #[trigger] order[a] == rest[a - 1] by {}
    if kept && q == o {
        assert(order[0] == Source::Kept(q as usize));
        assert forall|a: int| 0 < a < order.len() implies #[trigger] order[a] != Source::Kept(
            q as usize,
        ) by {
            merged_first(mode, old, batch, o2, k2, a - 1);
        }
    } else {
        kept_once(mode, old, batch, o2, k2, q);
        let p = choose|p: int| 0 <= p < rest.len() && #[trigger] rest[p] == Source::Kept(q as usize);
        assert(order[p + 1] == Source::Kept(q as usize));
        assert(order[0] != Source::Kept(q as usize));
    }
}

/// Merging loses no clip and adds none.
proof fn merging_keeps_all(mode: SortMode, old: Seq<Clip>, batch: Seq<Clip>, o: int, k: int)
    requires
        0 <= o <= old.len() <= usize::MAX,
        0 <= k <= batch.len() <= usize::MAX,
    ensures
        merged(old, batch, merge_order(mode, old, batch, o, k)).to_multiset() == old.skip(
            o,
        ).to_multiset().add(batch.skip(k).to_multiset()),
    decreases (old.len() - o) + (batch.len() - k),
{
    broadcast use vstd::seq_lib::group_to_multiset_ensures;

    let order = merge_order(mode, old, batch, o, k);
    let out = merged(old, batch, order);
    if o >= old.len() && k >= batch.len() {
        assert(out =~= Seq::<Clip>::empty());
        assert(old.skip(o) =~= Seq::<Clip>::empty());
        assert(batch.skip(k) =~= Seq::<Clip>::empty());
        assert(out.to_multiset() =~= old.skip(o).to_multiset().add(batch.skip(k).to_multiset()));
    } else {
        let kept = o < old.len() && !(k < batch.len() && precedes(mode, batch[k], old[o]));
        let (o2, k2) = if kept {
            (o + 1, k)
        } else {
            (o, k + 1)
        };
        let c = if kept {
            old[o]
        } else {
            batch[k]
        };
        let tail = merge_order(mode, old, batch, o2, k2);
        let rest = merged(old, batch, tail);
        merging_keeps_all(mode, old, batch, o2, k2);
        assert(out =~= seq![c] + rest);
        vstd::seq_lib::lemma_multiset_commutative(seq![c], rest);
        assert(seq![c] =~= Seq::<Clip>::empty().push(c));
        assert(seq![c].to_multiset() =~= vstd::multiset::Multiset::singleton(c));
        if kept {
            assert(old.skip(o) =~= seq![c] + old.skip(o + 1));
            vstd::seq_lib::lemma_multiset_commutative(seq![c], old.skip(o + 1));
        } else {
            assert(batch.skip(k) =~= seq![c] + batch.skip(k + 1));
            vstd::seq_lib::lemma_multiset_commutative(seq![c], batch.skip(k + 1));
        }
        assert(out.to_multiset() =~= old.skip(o).to_multiset().add(batch.skip(k).to_multiset()));
    }
}

/// Where the library is kept in the order of dates, it stands in that order after a
/// batch has come: under the newest-first order each clip is no older than the next,
/// under the oldest-first order no newer, and unknown dates come last. No clip is lost
/// and none added, and the selection stays on its clip.
pub proof fn arrivals_stand_by_date(s: State, batch: Seq<Clip>, now: u64, i: int, j: int)
    requires
        s.setup.sort != SortMode::Arrival,
        s.refs.sort_armed,
        s.clips.len() + batch.len() <= crate::state::MAX_CLIPS,
        all_dated(s.setup.sort == SortMode::Newest, s.clips),
        0 <= i < j < s.clips.len() + batch.len(),
    ensures
        ({
            let t = s.with_arrivals(batch, now);
            &&& t.clips.len() == s.clips.len() + batch.len()
            &&& t.clips.to_multiset() == s.clips.to_multiset().add(batch.to_multiset())
            &&& all_dated(s.setup.sort == SortMode::Newest, t.clips)
            &&& s.setup.sort == SortMode::Oldest && t.clips[i].created is Some
                && t.clips[j].created is Some ==> t.clips[i].created->0 <= t.clips[j].created->0
            &&& s.setup.sort == SortMode::Newest && t.clips[i].created is Some
                && t.clips[j].created is Some ==> t.clips[i].created->0 >= t.clips[j].created->0
            &&& t.clips[i].created is None ==> t.clips[j].created is None
            &&& s.refs.selected < s.clips.len() ==> t.refs.selected < t.clips.len()
                && t.clips[t.refs.selected as int] == s.clips[s.refs.selected as int]
                && t.refs.sel_changed_at == s.refs.sel_changed_at
        }),
{
    let mode = s.setup.sort;
    let sorted = put_in_order(mode, batch);
    let order = s.arrival_order(batch);
    let t = s.with_arrivals(batch, now);
    put_in_order_sorts(mode, batch);
    order_by_date(mode, s.clips);
    merging_keeps_the_order(mode, s.clips, sorted, 0, 0);
    merging_keeps_all(mode, s.clips, sorted, 0, 0);
    assert(s.clips.skip(0) =~= s.clips);
    assert(sorted.skip(0) =~= sorted);
    let out = merged(s.clips, sorted, order);
    assert(t.clips == out);
    order_by_date(mode, out);
    out.to_multiset_ensures();
    s.clips.to_multiset_ensures();
    batch.to_multiset_ensures();
    assert(out.to_multiset().len() == s.clips.to_multiset().len() + batch.to_multiset().len());
    assert(dated(mode == SortMode::Newest, out[i], out[j]));
    if s.refs.selected < s.clips.len() {
        let q = s.refs.selected as int;
        kept_once(mode, s.clips, sorted, 0, 0, q);
        let map = merge_map(s.clips.len(), order);
        let p = choose|p: int| 0 <= p < order.len() && #[trigger] order[p] == Source::Kept(q as usize);
        assert(map[q] == Some(p as usize));
        assert(out[p] == sourced(s.clips, sorted, order[p]));
    }
}

/// A clip that came goes before one that was there only where its date asks for it:
/// it is newer, or older where the oldest come first, or the other's date is unknown.
pub proof fn arrivals_queue_behind_their_equals(
    s: State,
    batch: Seq<Clip>,
    a: int,
    b: int,
)
    requires
        s.setup.sort != SortMode::Arrival,
        s.clips.len() + batch.len() <= crate::state::MAX_CLIPS,
        all_dated(s.setup.sort == SortMode::Newest, s.clips),
        0 <= a < b < s.arrival_order(batch).len(),
        s.arrival_order(batch)[a] is Came,
        s.arrival_order(batch)[b] is Kept,
    ensures
        ({
            let order = s.arrival_order(batch);
            let out = merged(s.clips, put_in_order(s.setup.sort, batch), order);
            out[a].created matches Some(x) && (out[b].created matches Some(y) ==> (if s.setup.sort
                == SortMode::Newest {
                x > y
            } else {
                x < y
            }))
        }),
{
    let mode = s.setup.sort;
    put_in_order_sorts(mode, batch);
    order_by_date(mode, s.clips);
    came_only_before(mode, s.clips, put_in_order(mode, batch), 0, 0, a, b);
}

proof fn came_only_before(
    mode: SortMode,
    old: Seq<Clip>,
    batch: Seq<Clip>,
    o: int,
    k: int,
    a: int,
    b: int,
)
    requires
        mode != SortMode::Arrival,
        0 <= o <= old.len() <= usize::MAX,
        0 <= k <= batch.len() <= usize::MAX,
        in_order(mode, old),
        0 <= a < b < merge_order(mode, old, batch, o, k).len(),
        merge_order(mode, old, batch, o, k)[a] is Came,
        merge_order(mode, old, batch, o, k)[b] is Kept,
    ensures
        ({
            let order = merge_order(mode, old, batch, o, k);
            precedes(mode, sourced(old, batch, order[a]), sourced(old, batch, order[b]))
        }),
    decreases (old.len() - o) + (batch.len() - k),
{
    let order = merge_order(mode, old, batch, o, k);
    let kept = o < old.len() && !(k < batch.len() && precedes(mode, batch[k], old[o]));
    let (o2, k2) = if kept {
        (o + 1, k)
    } else {
        (o, k + 1)
    };
    let rest = merge_order(mode, old, batch, o2, k2);
    assert(order[b] == rest[b - 1]);
    if a > 0 {
        assert(order[a] == rest[a - 1]);
        came_only_before(mode, old, batch, o2, k2, a - 1, b - 1);
    } else {
        merged_first(mode, old, batch, o, k, b);
        let q = order[b]->Kept_0 as int;
        if o < q {
            assert(!precedes(mode, old[q], old[o]));
        }
    }
}

/// Where the library stands in the order of arrival, a batch comes after all that was
/// there, as it came.
pub proof fn arrivals_come_last(s: State, batch: Seq<Clip>, now: u64, k: int)
    requires
        s.setup.sort == SortMode::Arrival || !s.refs.sort_armed,
        0 <= k < batch.len(),
        s.clips.len() + batch.len() <= crate::state::MAX_CLIPS,
    ensures
        ({
            let t = s.with_arrivals(batch, now);
            &&& t.clips.len() == s.clips.len() + batch.len()
            &&& t.clips.take(s.clips.len() as int) == s.clips
            &&& t.clips[s.clips.len() + k] == batch[k]
            &&& t.refs == s.refs
            &&& t.index.contains_key(batch[k].path)
        }),
{
    let t = s.with_arrivals(batch, now);
    assert(t.clips.take(s.clips.len() as int) =~= s.clips);
    appended_is_found(s.index, batch, s.clips.len() as int, batch.len() as int, k);
}

proof fn appended_is_found(m: Map<u64, usize>, batch: Seq<Clip>, at: int, n: int, k: int)
    requires
        0 <= k < n <= batch.len(),
    ensures
        crate::arrivals::appended_index(m, batch, at, n).contains_key(batch[k].path),
    decreases n,
{
    if k < n - 1 {
        appended_is_found(m, batch, at, n - 1, k);
    }
}

/// A frame takes as many files as there are, but no more than 256; each becomes a clip
/// with what is known of the file. Of every file that can be read, and of no other, a
/// thumbnail is asked for.
pub proof fn a_frame_takes_the_files_that_came(
    s: State,
    items: Seq<Ingested>,
    closed: bool,
    now: u64,
    k: int,
)
    requires
        s.setup.sort == SortMode::Arrival || !s.refs.sort_armed,
        s.refs.pending_reselect is None,
        s.clips.len() + items.len() <= crate::state::MAX_CLIPS,
        0 <= k < items.len(),
        k < 256,
    ensures
        ({
            let t = s.drained(items, closed, now);
            let c = t.clips[s.clips.len() + k];
            &&& t.clips.len() == s.clips.len() + (if items.len() < 256 {
                items.len()
            } else {
                256
            })
            &&& t.clips.take(s.clips.len() as int) == s.clips
            &&& c.path == items[k].path
            &&& c.readable == items[k].readable
            &&& c.cloud == items[k].cloud
            &&& c.created == items[k].created
            &&& c.spawned == now
            &&& !c.cached
            &&& items[k].cloud ==> c.thumb is Failed && c.anim is Failed
            &&& !items[k].cloud ==> c.thumb is Absent && c.anim is Absent
            &&& items[k].readable && !items[k].cloud ==> t.fx.contains(
                Effect::RequestGen { path: items[k].path },
            )
            &&& t.refs.selected == s.refs.selected
            &&& items.len() >= 256 ==> t.refs.ingesting == s.refs.ingesting
            &&& items.len() < 256 && closed ==> !t.refs.ingesting
            &&& items.len() < 256 && !closed ==> t.refs.ingesting == s.refs.ingesting
        }),
{
    let n = crate::arrivals::taken(items.len() as int);
    let t = s.drained(items, closed, now);
    requests_are_made(s, items, n, k);
    assert(t.clips.take(s.clips.len() as int) =~= s.clips);
    let a = crate::arrivals::with_requests(s, items, n);
    if items[k].readable && !items[k].cloud {
        let e = Effect::RequestGen { path: items[k].path };
        let p = choose|p: int| 0 <= p < a.fx.len() && a.fx[p] == e;
        assert(t.fx[p] == e);
    }
}

proof fn requests_are_made(s: State, items: Seq<Ingested>, n: int, k: int)
    requires
        0 <= k < n <= items.len(),
    ensures
        ({
            let a = crate::arrivals::with_requests(s, items, n);
            &&& items[k].readable && !items[k].cloud ==> a.fx.contains(
                Effect::RequestGen { path: items[k].path },
            )
            &&& a.clips == s.clips
            &&& a.refs == s.refs
            &&& a.setup == s.setup
        }),
    decreases n,
{
    let e = Effect::RequestGen { path: items[k].path };
    let a = crate::arrivals::with_requests(s, items, n);
    let b = crate::arrivals::with_requests(s, items, n - 1);
    if n > 1 && k < n - 1 {
        requests_are_made(s, items, n - 1, k);
        if items[k].readable && !items[k].cloud {
            let p = choose|p: int| 0 <= p < b.fx.len() && b.fx[p] == e;
            assert(a.fx[p] == e);
        }
    } else {
        if n > 1 {
            requests_are_made(s, items, n - 1, 0);
        }
        if items[k].readable && !items[k].cloud {
            assert(a.fx[b.fx.len() as int] == e);
        }
    }
}

/// Taking a clip out leaves the others in their order, and with them the marks, the
/// slots and the selection; where the clip was the selection, the one before it becomes
/// it, the first one after it where there is none before.
pub proof fn taking_a_clip_out_closes_the_gap(s: State, i: int, now: u64, k: int, j: int)
    requires
        0 <= i < s.clips.len() <= crate::state::MAX_CLIPS,
        s.refs.selected < s.clips.len(),
        0 <= k < s.clips.len() - 1,
        0 <= j < s.slots.len(),
    ensures
        ({
            let t = s.without(i, now);
            let sel = s.refs.selected;
            &&& t.clips.len() == s.clips.len() - 1
            &&& t.clips[k] == s.clips[if k < i {
                k
            } else {
                k + 1
            }]
            &&& sel < i ==> t.refs.selected == sel
            &&& sel > i ==> t.refs.selected == sel - 1
            &&& sel == i && i > 0 ==> t.refs.selected == i - 1
            &&& sel == i && i == 0 ==> t.refs.selected == 0
            &&& sel != i ==> t.refs.sel_changed_at == s.refs.sel_changed_at
            &&& sel == i ==> t.refs.sel_changed_at == now
            &&& t.marked.contains(k as usize) <==> s.marked.contains(
                (if k < i {
                    k
                } else {
                    k + 1
                }) as usize,
            )
            &&& t.slots.len() == s.slots.len()
            &&& s.slots[j] is None ==> t.slots[j] is None
            &&& s.slots[j] matches Some(o) ==> (if o.clip == i {
                t.slots[j] is None
            } else {
                t.slots[j] matches Some(p) && p.kind == o.kind && p.clip == (if o.clip < i {
                    o.clip as int
                } else {
                    o.clip - 1
                }) || o.clip >= s.clips.len()
            })
        }),
{
    let map = crate::library::closing(s.clips.len(), i);
    let t = s.without(i, now);
    let from = (if k < i {
        k
    } else {
        k + 1
    }) as usize;
    assert(crate::library::moved(map, from as int) == Some(k as usize));
    if t.marked.contains(k as usize) {
        let m = choose|m: usize|
            s.marked.contains(m) && #[trigger] crate::library::moved(map, m as int) == Some(
                k as usize,
            );
        assert(m == from);
    }
    reveal_with_fuel(crate::library::nearest_survivor, 3);
}

/// A shuffle brings the cached clips to the front and leaves the others behind them in
/// the order they had; it loses none and adds none, and the selection stays on its clip.
/// With fewer than two cached clips there is nothing to mix.
pub proof fn a_shuffle_brings_cached_clips_to_the_front(
    s: State,
    seed: u64,
    now: u64,
    a: int,
    b: int,
)
    requires
        s.clips.len() <= crate::state::MAX_CLIPS,
        s.refs.selected < s.clips.len(),
        0 <= a < b < s.clips.len(),
        s.clips[a].cached,
        s.clips[b].cached,
    ensures
        ({
            let t = s.shuffled_by(seed, now);
            &&& t.clips.len() == s.clips.len()
            &&& t.clips[b].cached ==> t.clips[a].cached
            &&& t.refs.selected < t.clips.len()
            &&& t.clips[t.refs.selected as int] == s.clips[s.refs.selected as int]
            &&& exists|p: int| 0 <= p < t.clips.len() && #[trigger] t.clips[p] == s.clips[a]
            &&& !t.refs.sort_armed
        }),
{
    reveal(State::shuffled_by);
    let n = s.clips.len() as int;
    let v = crate::library::places(s.clips, true, n);
    two_places(s.clips, n, a, b);
    let order = crate::library::shuffle_order(s.clips, seed);
    crate::library::shuffle_is_a_permutation(s.clips, seed);
    crate::library::shuffle_puts_cached_clips_first(s.clips, seed, a, b);
    crate::library::ordering_carries(s.clips, order);
    let t = s.shuffled_by(seed, now);
    let map = crate::library::renumbering(order);
    let sel = s.refs.selected as int;
    assert(map[sel] is Some);
    assert(t.clips == crate::library::ordered(s.clips, order));
    assert(order.contains(a as usize));
    let p = choose|p: int| 0 <= p < order.len() && order[p] == a as usize;
    assert(t.clips[p] == s.clips[a]);
}

proof fn two_places(clips: Seq<Clip>, n: int, a: int, b: int)
    requires
        0 <= a < b < n <= clips.len(),
        clips[a].cached,
        clips[b].cached,
    ensures
        crate::library::places(clips, true, n).len() >= 2,
    decreases n,
{
    if n - 1 == b {
        one_place(clips, n - 1, a);
    } else {
        two_places(clips, n - 1, a, b);
    }
}

proof fn one_place(clips: Seq<Clip>, n: int, a: int)
    requires
        0 <= a < n <= clips.len(),
        clips[a].cached,
    ensures
        crate::library::places(clips, true, n).len() >= 1,
    decreases n,
{
    if n - 1 != a {
        one_place(clips, n - 1, a);
    }
}

} // verus!
