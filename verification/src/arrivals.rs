//! Clips that arrive: how a batch enters the library, in the order of arrival
//! or by creation date, and how a new listing takes the library's place.

use vstd::prelude::*;

use crate::library;
use crate::model::{Clip, Effect, SelLive, SlotKind, SlotOwner, Thumb};
use crate::state::{Jobs, Lanes, Modes, Refs, Scene, State, Switchblade, MAX_CLIPS};
use crate::tuning::SortMode;

verus! {

/// A file that was found.
#[derive(Clone, Copy, Debug)]
pub struct Ingested {
    pub path: u64,
    pub readable: bool,
    /// A placeholder whose data is not here.
    pub cloud: bool,
    /// When the file was created, in nanoseconds since 1970.
    pub created: Option<i128>,
    /// The file's size and when it last changed, in seconds, by which it is found
    /// in the disk cache; not known of a placeholder.
    pub fp: Option<(u64, u64)>,
}

/// The size that a tile at rest is drawn in, in millionths of its own.
pub const REST_SCALE: u32 = 1_000_000;

/// The clip that a file becomes. A placeholder never asks for a picture:
/// reading it would fetch it.
pub open spec fn arrived(item: Ingested, now: u64) -> Clip {
    Clip {
        path: item.path,
        readable: item.readable,
        cloud: item.cloud,
        cached: false,
        spawned: now,
        scale: REST_SCALE,
        emph: 0,
        thumb: if item.cloud {
            Thumb::Failed
        } else {
            Thumb::Absent
        },
        anim: if item.cloud {
            Thumb::Failed
        } else {
            Thumb::Absent
        },
        aspect: None,
        created: item.created,
    }
}

fn clip_of(item: &Ingested, now: u64) -> (c: Clip)
    ensures
        c == arrived(*item, now),
{
    Clip {
        path: item.path,
        readable: item.readable,
        cloud: item.cloud,
        cached: false,
        spawned: now,
        scale: REST_SCALE,
        emph: 0,
        thumb: if item.cloud {
            Thumb::Failed
        } else {
            Thumb::Absent
        },
        anim: if item.cloud {
            Thumb::Failed
        } else {
            Thumb::Absent
        },
        aspect: None,
        created: item.created,
    }
}

/// Clip `a` stands before clip `b` by creation date: the newer or the older
/// one, as asked. A clip of unknown date stands after all others.
pub open spec fn precedes(mode: SortMode, a: Clip, b: Clip) -> bool {
    match (a.created, b.created) {
        (None, _) => false,
        (Some(_), None) => true,
        (Some(x), Some(y)) => if mode == SortMode::Newest {
            x > y
        } else {
            x < y
        },
    }
}

fn is_before(mode: SortMode, a: &Clip, b: &Clip) -> (r: bool)
    ensures
        r == precedes(mode, *a, *b),
{
    match (a.created, b.created) {
        (None, _) => false,
        (Some(_), None) => true,
        (Some(x), Some(y)) => if mode == SortMode::Newest {
            x > y
        } else {
            x < y
        },
    }
}

/// Clips in order: none stands before one that comes earlier in the list.
pub open spec fn in_order(mode: SortMode, s: Seq<Clip>) -> bool {
    forall|i: int, j: int|
        0 <= i < j < s.len() ==> !precedes(mode, #[trigger] s[j], #[trigger] s[i])
}

/// Where `c` goes among the first `i` clips of `s`, looking from the end: after
/// the last one that it does not stand before.
pub open spec fn slot_for(mode: SortMode, s: Seq<Clip>, c: Clip, i: int) -> int
    decreases i,
{
    if i <= 0 || !precedes(mode, c, s[i - 1]) {
        i
    } else {
        slot_for(mode, s, c, i - 1)
    }
}

/// The clips put in order; those that neither stands before the other keep the
/// order they came in.
pub open spec fn put_in_order(mode: SortMode, s: Seq<Clip>) -> Seq<Clip>
    decreases s.len(),
{
    if s.len() == 0 {
        s
    } else {
        let r = put_in_order(mode, s.drop_last());
        r.insert(slot_for(mode, r, s.last(), r.len() as int), s.last())
    }
}

proof fn slot_bounds(mode: SortMode, s: Seq<Clip>, c: Clip, i: int)
    requires
        0 <= i <= s.len(),
    ensures
        0 <= slot_for(mode, s, c, i) <= i,
        forall|k: int| slot_for(mode, s, c, i) <= k < i ==> precedes(mode, c, #[trigger] s[k]),
        slot_for(mode, s, c, i) > 0 ==> !precedes(mode, c, s[slot_for(mode, s, c, i) - 1]),
    decreases i,
{
    if i > 0 && precedes(mode, c, s[i - 1]) {
        slot_bounds(mode, s, c, i - 1);
    }
}

/// Putting clips in order loses none and adds none, and orders them.
pub proof fn put_in_order_sorts(mode: SortMode, s: Seq<Clip>)
    ensures
        in_order(mode, put_in_order(mode, s)),
        put_in_order(mode, s).len() == s.len(),
        put_in_order(mode, s).to_multiset() == s.to_multiset(),
    decreases s.len(),
{
    broadcast use vstd::seq_lib::group_to_multiset_ensures;

    if s.len() > 0 {
        let rest = s.drop_last();
        let r = put_in_order(mode, rest);
        let c = s.last();
        put_in_order_sorts(mode, rest);
        slot_bounds(mode, r, c, r.len() as int);
        let at = slot_for(mode, r, c, r.len() as int);
        let out = r.insert(at, c);
        assert forall|i: int, j: int| 0 <= i < j < out.len() implies !precedes(
            mode,
            #[trigger] out[j],
            #[trigger] out[i],
        ) by {
            if j < at {
                assert(out[j] == r[j] && out[i] == r[i]);
            } else if j == at {
                assert(out[i] == r[i]);
                if i < at - 1 {
                    assert(!precedes(mode, r[at - 1], r[i]));
                }
            } else {
                assert(out[j] == r[j - 1]);
                if i < at {
                    assert(out[i] == r[i]);
                } else if i > at {
                    assert(out[i] == r[i - 1]);
                } else {
                    assert(precedes(mode, c, r[j - 1]));
                }
            }
        }
        assert(rest.push(c) =~= s);
        insert_multiset(r, at, c);
    }
}

proof fn insert_multiset(r: Seq<Clip>, at: int, c: Clip)
    requires
        0 <= at <= r.len(),
    ensures
        r.insert(at, c).to_multiset() == r.to_multiset().insert(c),
{
    broadcast use vstd::seq_lib::group_to_multiset_ensures;

    let a = r.subrange(0, at);
    let b = r.subrange(at, r.len() as int);
    assert(r =~= a + b);
    assert(r.insert(at, c) =~= a.push(c) + b);
    vstd::seq_lib::lemma_multiset_commutative(a, b);
    vstd::seq_lib::lemma_multiset_commutative(a.push(c), b);
    assert(r.insert(at, c).to_multiset() =~= r.to_multiset().insert(c));
}

/// Puts a batch in order.
fn sort_batch(mode: SortMode, batch: &Vec<Clip>) -> (r: Vec<Clip>)
    ensures
        r@ == put_in_order(mode, batch@),
{
    let mut r: Vec<Clip> = Vec::new();
    let mut k: usize = 0;
    while k < batch.len()
        invariant
            k <= batch@.len(),
            r@.len() == k,
            r@ == put_in_order(mode, batch@.take(k as int)),
        decreases batch@.len() - k,
    {
        let c: Clip = batch[k];
        let mut at: usize = r.len();
        proof {
            let t = batch@.take(k + 1);
            assert(t.drop_last() =~= batch@.take(k as int));
            assert(t.last() == c);
            put_in_order_sorts(mode, t);
        }
        while at > 0 && is_before(mode, &c, &r[at - 1])
            invariant
                at <= r@.len(),
                slot_for(mode, r@, c, at as int) == slot_for(mode, r@, c, r@.len() as int),
            decreases at,
        {
            at -= 1;
        }
        r.insert(at, c);
        k += 1;
    }
    assert(batch@.take(k as int) =~= batch@);
    r
}

/// Where a clip of a merged library comes from: it was there, or it came.
#[derive(Clone, Copy, PartialEq, Eq, Structural, Debug)]
pub enum Source {
    Kept(usize),
    Came(usize),
}

/// The order in which a library and an ordered batch merge, from the `o`th clip
/// of the library and the `k`th of the batch on: a clip that came goes before
/// those of the library that it stands before, and after all others.
pub open spec fn merge_order(mode: SortMode, old: Seq<Clip>, batch: Seq<Clip>, o: int, k: int) -> Seq<
    Source,
>
    decreases (old.len() - o) + (batch.len() - k),
    when 0 <= o <= old.len() && 0 <= k <= batch.len()
{
    if o >= old.len() && k >= batch.len() {
        Seq::empty()
    } else if o < old.len() && !(k < batch.len() && precedes(mode, batch[k], old[o])) {
        seq![Source::Kept(o as usize)] + merge_order(mode, old, batch, o + 1, k)
    } else {
        seq![Source::Came(k as usize)] + merge_order(mode, old, batch, o, k + 1)
    }
}

/// The clip that a source stands for.
pub open spec fn sourced(old: Seq<Clip>, batch: Seq<Clip>, s: Source) -> Clip {
    match s {
        Source::Kept(o) => old[o as int],
        Source::Came(k) => batch[k as int],
    }
}

/// The merged clips.
pub open spec fn merged(old: Seq<Clip>, batch: Seq<Clip>, order: Seq<Source>) -> Seq<Clip> {
    Seq::new(order.len(), |p: int| sourced(old, batch, order[p]))
}

/// Where each clip of the library goes.
pub open spec fn merge_map(n: nat, order: Seq<Source>) -> Seq<Option<usize>> {
    Seq::new(
        n,
        |o: int|
            Some(
                (choose|p: int|
                    0 <= p < order.len() && #[trigger] order[p] == Source::Kept(
                        o as usize,
                    )) as usize,
            ),
    )
}

/// The index with every clip that came, up to place `p`, entered.
pub open spec fn indexed(
    m: Map<u64, usize>,
    clips: Seq<Clip>,
    order: Seq<Source>,
    p: int,
) -> Map<u64, usize>
    decreases p,
{
    if p <= 0 {
        m
    } else {
        let r = indexed(m, clips, order, p - 1);
        if order[p - 1] is Came {
            r.insert(clips[p - 1].path, (p - 1) as usize)
        } else {
            r
        }
    }
}

/// The index with the first `k` clips of a batch entered that is appended at
/// place `at`.
pub open spec fn appended_index(m: Map<u64, usize>, batch: Seq<Clip>, at: int, k: int) -> Map<
    u64,
    usize,
>
    decreases k,
{
    if k <= 0 {
        m
    } else {
        appended_index(m, batch, at, k - 1).insert(batch[k - 1].path, (at + k - 1) as usize)
    }
}

impl State {
    /// Arrivals are merged by date.
    pub open spec fn sorting(self) -> bool {
        self.setup.sort != SortMode::Arrival && self.refs.sort_armed
    }

    /// The order in which a batch merges.
    pub open spec fn arrival_order(self, batch: Seq<Clip>) -> Seq<Source> {
        merge_order(self.setup.sort, self.clips, put_in_order(self.setup.sort, batch), 0, 0)
    }

    /// The state after a batch has arrived.
    pub open spec fn with_arrivals(self, batch: Seq<Clip>, now: u64) -> State {
        if !self.sorting() {
            State {
                clips: self.clips + batch,
                index: appended_index(
                    self.index,
                    batch,
                    self.clips.len() as int,
                    batch.len() as int,
                ),
                ..self
            }
        } else {
            let order = self.arrival_order(batch);
            let clips = merged(self.clips, put_in_order(self.setup.sort, batch), order);
            let t = self.remapped(clips, merge_map(self.clips.len(), order), now);
            State { index: indexed(t.index, clips, order, order.len() as int), ..t }
        }
    }

    /// The first place that an arrival took.
    pub open spec fn first_arrival(self, batch: Seq<Clip>, p: int) -> bool {
        if !self.sorting() {
            p == self.clips.len()
        } else {
            let order = self.arrival_order(batch);
            &&& 0 <= p
            &&& p < order.len() ==> order[p] is Came
            &&& p >= order.len() ==> p == self.clips.len()
            &&& forall|q: int| 0 <= q < p && q < order.len() ==> (#[trigger] order[q]) is Kept
        }
    }
}


/// What a merge order holds, from the `o`th clip of the library and the `k`th
/// of the batch on: each further clip of either once, in its order.
proof fn merge_order_holds(mode: SortMode, old: Seq<Clip>, batch: Seq<Clip>, o: int, k: int)
    requires
        0 <= o <= old.len() <= usize::MAX,
        0 <= k <= batch.len() <= usize::MAX,
    ensures
        ({
            let order = merge_order(mode, old, batch, o, k);
            &&& order.len() == (old.len() - o) + (batch.len() - k)
            &&& forall|p: int|
                0 <= p < order.len() ==> match #[trigger] order[p] {
                    Source::Kept(q) => o <= q < old.len(),
                    Source::Came(q) => k <= q < batch.len(),
                }
        }),
    decreases (old.len() - o) + (batch.len() - k),
{
    if o >= old.len() && k >= batch.len() {
    } else if o < old.len() && !(k < batch.len() && precedes(mode, batch[k], old[o])) {
        merge_order_holds(mode, old, batch, o + 1, k);
    } else {
        merge_order_holds(mode, old, batch, o, k + 1);
    }
}

/// A library and a batch that are in order merge into a library that is in
/// order.
pub proof fn merging_keeps_the_order(
    mode: SortMode,
    old: Seq<Clip>,
    batch: Seq<Clip>,
    o: int,
    k: int,
)
    requires
        0 <= o <= old.len() <= usize::MAX,
        0 <= k <= batch.len() <= usize::MAX,
        in_order(mode, old),
        in_order(mode, batch),
    ensures
        in_order(mode, merged(old, batch, merge_order(mode, old, batch, o, k))),
    decreases (old.len() - o) + (batch.len() - k),
{
    let order = merge_order(mode, old, batch, o, k);
    let out = merged(old, batch, order);
    merge_order_holds(mode, old, batch, o, k);
    if o >= old.len() && k >= batch.len() {
    } else {
        let kept = o < old.len() && !(k < batch.len() && precedes(mode, batch[k], old[o]));
        let (o2, k2) = if kept {
            (o + 1, k)
        } else {
            (o, k + 1)
        };
        merging_keeps_the_order(mode, old, batch, o2, k2);
        merge_order_holds(mode, old, batch, o2, k2);
        let rest = merge_order(mode, old, batch, o2, k2);
        assert forall|i: int, j: int| 0 <= i < j < out.len() implies !precedes(
            mode,
            #[trigger] out[j],
            #[trigger] out[i],
        ) by {
            assert(order[j] == rest[j - 1]);
            assert(out[j] == merged(old, batch, rest)[j - 1]);
            if i > 0 {
                assert(order[i] == rest[i - 1]);
                assert(out[i] == merged(old, batch, rest)[i - 1]);
            } else {
                match rest[j - 1] {
                    Source::Kept(q) => {
                        if kept {
                            assert(!precedes(mode, old[q as int], old[o]));
                        } else if o < old.len() {
                            if o < q {
                                assert(!precedes(mode, old[q as int], old[o]));
                            }
                        }
                    },
                    Source::Came(q) => {
                        if kept {
                            if k < q {
                                assert(!precedes(mode, batch[q as int], batch[k]));
                            }
                        } else {
                            assert(!precedes(mode, batch[q as int], batch[k]));
                        }
                    },
                }
            }
        }
    }
}

/// A merged library and where things went: the clips, the place of each clip
/// that was there, and the places of those that came.
struct Merge {
    clips: Vec<Clip>,
    map: Vec<Option<usize>>,
    came: Vec<usize>,
}

/// The list holds the places of the clips that came, ascending.
spec fn arrival_places(order: Seq<Source>, came: Seq<usize>) -> bool {
    &&& forall|i: int, j: int| 0 <= i < j < came.len() ==> #[trigger] came[i] < #[trigger] came[j]
    &&& forall|i: int|
        0 <= i < came.len() ==> #[trigger] came[i] < order.len() && order[came[i] as int] is Came
    &&& forall|p: usize|
        p < order.len() && order[p as int] is Came ==> #[trigger] came.contains(p)
}

fn merge(mode: SortMode, old: &Vec<Clip>, batch: &Vec<Clip>) -> (r: Merge)
    requires
        old@.len() + batch@.len() <= MAX_CLIPS,
    ensures
        ({
            let order = merge_order(mode, old@, batch@, 0, 0);
            &&& r.clips@ == merged(old@, batch@, order)
            &&& r.map@ == merge_map(old@.len(), order)
            &&& library::carries(old@, r.clips@, r.map@)
            &&& forall|n: int|
                0 <= n < order.len() ==> (#[trigger] order[n] is Kept <==> library::came_from(
                    r.map@,
                    n,
                ) is Some)
            &&& arrival_places(order, r.came@)
        }),
{
    let ghost order = merge_order(mode, old@, batch@, 0, 0);
    let mut clips: Vec<Clip> = Vec::new();
    let mut map: Vec<Option<usize>> = Vec::new();
    let mut came: Vec<usize> = Vec::new();
    let mut o: usize = 0;
    let mut k: usize = 0;
    proof {
        merge_order_holds(mode, old@, batch@, 0, 0);
        assert(order.skip(0) =~= order);
    }
    while o < old.len() || k < batch.len()
        invariant
            old@.len() + batch@.len() <= MAX_CLIPS,
            o <= old@.len(),
            k <= batch@.len(),
            order.len() == old@.len() + batch@.len(),
            clips@.len() == o + k,
            merge_order(mode, old@, batch@, o as int, k as int) == order.skip(o + k),
            forall|p: int|
                0 <= p < o + k ==> #[trigger] clips@[p] == sourced(old@, batch@, order[p]),
            map@.len() == o,
            forall|q: int|
                0 <= q < o ==> ((#[trigger] map@[q]) matches Some(p) && p < o + k && order[p as int]
                    == Source::Kept(q as usize)),
            forall|p: int|
                0 <= p < o + k ==> ((#[trigger] order[p]) matches Source::Kept(q) ==> q < o
                    && map@[q as int] == Some(p as usize)),
            forall|i: int, j: int|
                0 <= i < j < came@.len() ==> #[trigger] came@[i] < #[trigger] came@[j],
            forall|i: int|
                0 <= i < came@.len() ==> #[trigger] came@[i] < o + k && order[came@[i] as int] is Came,
            forall|p: usize|
                p < o + k && order[p as int] is Came ==> #[trigger] came@.contains(p),
        decreases (old@.len() - o) + (batch@.len() - k),
    {
        let ghost rest = merge_order(mode, old@, batch@, o as int, k as int);
        proof {
            assert(rest[0] == order[o + k]);
            assert(order.skip(o + k).skip(1) =~= order.skip(o + k + 1));
        }
        let p: usize = clips.len();
        if o < old.len() && !(k < batch.len() && is_before(mode, &batch[k], &old[o])) {
            proof {
                assert(rest.skip(1) =~= merge_order(mode, old@, batch@, o + 1, k as int));
                assert(rest[0] == Source::Kept(o));
            }
            clips.push(old[o]);
            map.push(Some(p));
            o += 1;
        } else {
            proof {
                assert(rest.skip(1) =~= merge_order(mode, old@, batch@, o as int, k + 1));
                assert(rest[0] == Source::Came(k));
            }
            clips.push(batch[k]);
            let ghost before = came@;
            came.push(p);
            proof {
                crate::grid::pushed_contains(before, p);
            }
            k += 1;
        }
    }
    proof {
        assert(clips@ =~= merged(old@, batch@, order));
        assert forall|q: int| 0 <= q < old@.len() implies #[trigger] map@[q] == merge_map(
            old@.len(),
            order,
        )[q] by {
            let p = map@[q]->0;
            let r = choose|r: int|
                0 <= r < order.len() && #[trigger] order[r] == Source::Kept(q as usize);
            assert(order[p as int] == Source::Kept(q as usize));
            assert(map@[q] == Some(r as usize));
        }
        assert(map@ =~= merge_map(old@.len(), order));
        assert forall|n: int| 0 <= n < order.len() implies (#[trigger] order[n] is Kept
            <==> library::came_from(map@, n) is Some) by {
            match order[n] {
                Source::Kept(q) => {
                    assert(map@[q as int] == Some(n as usize));
                },
                Source::Came(_) => {
                    if library::came_from(map@, n) is Some {
                        let q = choose|q: int|
                            0 <= q < map@.len() && #[trigger] map@[q] == Some(n as usize);
                        assert(order[n] == Source::Kept(q as usize));
                    }
                },
            }
        }
    }
    Merge { clips, map, came }
}

/// Appending a batch keeps the state sound.
proof fn appending_keeps_the_state_sound(s: State, batch: Seq<Clip>)
    requires
        s.wf(),
        s.clips.len() + batch.len() <= MAX_CLIPS,
        forall|k: int|
            0 <= k < batch.len() ==> !((#[trigger] batch[k]).thumb is Ready) && !(batch[k].anim is Ready),
    ensures
        (State {
            clips: s.clips + batch,
            index: appended_index(s.index, batch, s.clips.len() as int, batch.len() as int),
            ..s
        }).wf(),
{
    reveal(crate::state::tied);
    let clips = s.clips + batch;
    appended_index_wf(s, batch, batch.len() as int);
    let t = State {
        clips,
        index: appended_index(s.index, batch, s.clips.len() as int, batch.len() as int),
        ..s
    };
    assert forall|i: int| 0 <= i < t.clips.len() implies {
        &&& (#[trigger] t.clips[i]).thumb matches Thumb::Ready { slot, .. } ==> slot
            < t.slots.len() && t.slots[slot as int] == Some(
            SlotOwner { clip: i as usize, kind: SlotKind::Static },
        )
        &&& t.clips[i].anim matches Thumb::Ready { slot, .. } ==> slot < t.slots.len()
            && t.slots[slot as int] == Some(
            SlotOwner { clip: i as usize, kind: SlotKind::Anim },
        )
    } by {
        if i < s.clips.len() {
            assert(t.clips[i] == s.clips[i]);
        } else {
            assert(t.clips[i] == batch[i - s.clips.len()]);
        }
    }
}

proof fn appended_index_wf(s: State, batch: Seq<Clip>, k: int)
    requires
        s.wf(),
        0 <= k <= batch.len(),
        s.clips.len() + batch.len() <= MAX_CLIPS,
    ensures
        forall|p: u64| #[trigger]
            appended_index(s.index, batch, s.clips.len() as int, k).contains_key(p) ==> {
                let i = appended_index(s.index, batch, s.clips.len() as int, k)[p];
                i < s.clips.len() + batch.len() && (s.clips + batch)[i as int].path == p
            },
    decreases k,
{
    reveal(crate::state::tied);
    let clips = s.clips + batch;
    if k > 0 {
        appended_index_wf(s, batch, k - 1);
        assert(clips[s.clips.len() + k - 1] == batch[k - 1]);
    } else {
        assert forall|p: u64| #[trigger] s.index.contains_key(p) implies s.index[p] < clips.len()
            && clips[s.index[p] as int].path == p by {
            assert(clips[s.index[p] as int] == s.clips[s.index[p] as int]);
        }
    }
}

proof fn indexed_wf(m: Map<u64, usize>, clips: Seq<Clip>, order: Seq<Source>, p: int)
    requires
        0 <= p <= clips.len() <= usize::MAX,
        forall|q: u64| #[trigger]
            m.contains_key(q) ==> m[q] < clips.len() && clips[m[q] as int].path == q,
    ensures
        forall|q: u64| #[trigger]
            indexed(m, clips, order, p).contains_key(q) ==> indexed(m, clips, order, p)[q]
                < clips.len() && clips[indexed(m, clips, order, p)[q] as int].path == q,
    decreases p,
{
    if p > 0 {
        indexed_wf(m, clips, order, p - 1);
    }
}

impl Switchblade {
    /// Installs a batch: appended as it came, or, where the library is kept
    /// sorted, merged into it by date in one step. Returns the first place
    /// that an arrival took.
    pub fn install_arrivals(&mut self, batch: &Vec<Clip>, now: u64) -> (first: usize)
        requires
            old(self)@.wf(),
            old(self)@.clips.len() + batch@.len() <= MAX_CLIPS,
            forall|k: int|
                0 <= k < batch@.len() ==> !((#[trigger] batch@[k]).thumb is Ready) && !(
                batch@[k].anim is Ready),
        ensures
            final(self)@ == old(self)@.with_arrivals(batch@, now),
            old(self)@.first_arrival(batch@, first as int),
            final(self)@.wf(),
    {
        proof {
            reveal(crate::state::tied);
        }
        let ghost before = self@;
        let at: usize = self.clips.len();
        if self.setup.sort == SortMode::Arrival || !self.refs.sort_armed {
            let mut k: usize = 0;
            while k < batch.len()
                invariant
                    k <= batch@.len(),
                    at == before.clips.len(),
                    before.clips.len() + batch@.len() <= MAX_CLIPS,
                    self@ == (State {
                        clips: before.clips + batch@.take(k as int),
                        index: appended_index(before.index, batch@, at as int, k as int),
                        ..before
                    }),
                decreases batch@.len() - k,
            {
                let c: Clip = batch[k];
                self.index.insert(c.path, at + k);
                self.clips.push(c);
                proof {
                    assert(batch@.take(k + 1) =~= batch@.take(k as int).push(c));
                    assert(self.clips@ =~= before.clips + batch@.take(k + 1));
                }
                k += 1;
            }
            proof {
                assert(batch@.take(k as int) =~= batch@);
                appending_keeps_the_state_sound(before, batch@);
            }
            return at;
        }
        let mode: SortMode = self.setup.sort;
        let sorted = sort_batch(mode, batch);
        proof {
            put_in_order_sorts(mode, batch@);
            batch_has_no_pictures(batch@, sorted@);
        }
        let m = merge(mode, &self.clips, &sorted);
        let ghost order = before.arrival_order(batch@);
        proof {
            merge_order_holds(mode, before.clips, sorted@, 0, 0);
            assert forall|n: int|
                0 <= n < m.clips@.len() && library::came_from(m.map@, n) is None implies !((
            #[trigger] m.clips@[n]).thumb is Ready) && !(m.clips@[n].anim is Ready) by {
                assert(order[n] is Came);
            }
            library::remapping_keeps_the_state_sound(before, m.clips@, m.map@, now);
        }
        self.remap_refs(m.clips, &m.map, now);
        let ghost t = self@;
        let mut i: usize = 0;
        proof {
            assert(arrival_places(order, m.came@));
        }
        while i < m.came.len()
            invariant
                i <= m.came@.len(),
                arrival_places(order, m.came@),
                t.clips.len() == order.len(),
                order.len() <= MAX_CLIPS,
                self@ == (State { index: self.index@, ..t }),
                self.index@ == indexed(
                    t.index,
                    t.clips,
                    order,
                    if i == 0 {
                        0
                    } else {
                        m.came@[i - 1] + 1
                    },
                ),
            decreases m.came@.len() - i,
        {
            let p: usize = m.came[i];
            proof {
                let from = if i == 0 {
                    0
                } else {
                    m.came@[i - 1] + 1
                };
                gap_indexes_nothing(order, t.index, t.clips, m.came@, i as int, from, p as int);
            }
            self.index.insert(self.clips[p].path, p);
            i += 1;
        }
        proof {
            let from = if i == 0 {
                0
            } else {
                m.came@[i - 1] + 1
            };
            gap_indexes_nothing(
                order,
                t.index,
                t.clips,
                m.came@,
                i as int,
                from,
                order.len() as int,
            );
            indexed_wf(t.index, t.clips, order, order.len() as int);
        }
        if m.came.len() > 0 {
            let first: usize = m.came[0];
            proof {
                assert forall|q: int| 0 <= q < first && q < order.len() implies (
                #[trigger] order[q]) is Kept by {
                    if order[q] is Came {
                        assert(m.came@.contains(q as usize));
                        let j = choose|j: int| 0 <= j < m.came@.len() && m.came@[j] == q as usize;
                        if j > 0 {
                            assert(m.came@[0] < m.came@[j]);
                        }
                    }
                }
            }
            first
        } else {
            proof {
                assert forall|q: int| 0 <= q < at && q < order.len() implies (
                #[trigger] order[q]) is Kept by {
                    if order[q] is Came {
                        assert(m.came@.contains(q as usize));
                    }
                }
                if at < order.len() {
                    some_come(mode, before.clips, sorted@, 0, 0);
                    let p = choose|p: int| 0 <= p < order.len() && (#[trigger] order[p]) is Came;
                    assert(m.came@.contains(p as usize));
                }
            }
            at
        }
    }
}

/// A batch that is not used up shows in the order.
proof fn some_come(mode: SortMode, old: Seq<Clip>, batch: Seq<Clip>, o: int, k: int)
    requires
        0 <= o <= old.len() <= usize::MAX,
        0 <= k < batch.len() <= usize::MAX,
    ensures
        exists|p: int|
            0 <= p < merge_order(mode, old, batch, o, k).len() && (#[trigger] merge_order(
                mode,
                old,
                batch,
                o,
                k,
            )[p]) is Came,
    decreases old.len() - o,
{
    let order = merge_order(mode, old, batch, o, k);
    merge_order_holds(mode, old, batch, o, k);
    if o < old.len() && !precedes(mode, batch[k], old[o]) {
        some_come(mode, old, batch, o + 1, k);
        merge_order_holds(mode, old, batch, o + 1, k);
        let rest = merge_order(mode, old, batch, o + 1, k);
        let p = choose|p: int| 0 <= p < rest.len() && (#[trigger] rest[p]) is Came;
        assert(order[p + 1] == rest[p]);
    } else {
        assert(order[0] is Came);
    }
}

/// Between two places that arrivals took, the index gains nothing.
proof fn gap_indexes_nothing(
    order: Seq<Source>,
    m: Map<u64, usize>,
    clips: Seq<Clip>,
    came: Seq<usize>,
    i: int,
    from: int,
    to: int,
)
    requires
        arrival_places(order, came),
        0 <= i <= came.len(),
        from == (if i == 0 {
            0
        } else {
            came[i - 1] + 1
        }),
        from <= to <= order.len() <= usize::MAX,
        i < came.len() ==> to <= came[i],
    ensures
        indexed(m, clips, order, to) == indexed(m, clips, order, from),
    decreases to - from,
{
    if to > from {
        gap_indexes_nothing(order, m, clips, came, i, from, to - 1);
        if order[to - 1] is Came {
            assert(came.contains((to - 1) as usize));
            let j = choose|j: int| 0 <= j < came.len() && came[j] == (to - 1) as usize;
            if j < i {
                if j < i - 1 {
                    assert(came[j] < came[i - 1]);
                }
            } else if j > i {
                assert(came[i] < came[j]);
            }
        }
    }
}

proof fn batch_has_no_pictures(batch: Seq<Clip>, sorted: Seq<Clip>)
    requires
        sorted.to_multiset() == batch.to_multiset(),
        forall|k: int|
            0 <= k < batch.len() ==> !((#[trigger] batch[k]).thumb is Ready) && !(batch[k].anim is Ready),
    ensures
        forall|k: int|
            0 <= k < sorted.len() ==> !((#[trigger] sorted[k]).thumb is Ready) && !(
            sorted[k].anim is Ready),
{
    broadcast use vstd::seq_lib::group_to_multiset_ensures;

    assert forall|k: int| 0 <= k < sorted.len() implies !((#[trigger] sorted[k]).thumb is Ready)
        && !(sorted[k].anim is Ready) by {
        assert(sorted.contains(sorted[k]));
        assert(sorted.to_multiset().count(sorted[k]) > 0);
        assert(batch.contains(sorted[k]));
    }
}


/// Files taken from a source per frame, at most.
pub const INGEST_DRAIN_BUDGET: usize = 256;

/// The clips that the first `k` files become.
pub open spec fn batch_of(items: Seq<Ingested>, k: int, now: u64) -> Seq<Clip> {
    Seq::new(k as nat, |i: int| arrived(items[i], now))
}

/// The state after thumbnails have been asked for of the first `k` files: every
/// file that can be read gets its thumbnail made.
pub open spec fn with_requests(s: State, items: Seq<Ingested>, k: int) -> State
    decreases k,
{
    if k <= 0 {
        s
    } else {
        let t = with_requests(s, items, k - 1);
        let item = items[k - 1];
        if item.readable && !item.cloud {
            State {
                jobs: Jobs { total: t.jobs.total.wrapping_add(1), ..t.jobs },
                ..t
            }.asked(Effect::RequestGen { path: item.path })
        } else {
            t
        }
    }
}

/// One of the first `k` files is the one at `path`.
pub open spec fn among(items: Seq<Ingested>, k: int, path: u64) -> bool {
    exists|i: int| 0 <= i < k && (#[trigger] items[i]).path == path
}

/// How many files one frame takes.
pub open spec fn taken(n: int) -> int {
    if n < INGEST_DRAIN_BUDGET {
        n
    } else {
        INGEST_DRAIN_BUDGET as int
    }
}

impl State {
    /// The state in which a clip that was waited for is the selection again.
    pub open spec fn reselected(self, path: u64, now: u64) -> State {
        if self.index.contains_key(path) {
            let i = self.index[path];
            let t = State {
                refs: Refs { selected: i, sel_changed_at: now, ..self.refs },
                lanes: Lanes {
                    live_sel: match self.lanes.live_sel {
                        Some(l) => if l.path == self.clips[i as int].path {
                            Some(SelLive { clip: i, ..l })
                        } else {
                            Some(l)
                        },
                        None => None,
                    },
                    ..self.lanes
                },
                ..self
            }.asked(Effect::ScrollToSelected);
            if self.modes.quickview {
                t.asked(Effect::SnapStrip)
            } else {
                t
            }
        } else {
            self
        }
    }

    /// The state after a frame has taken files from the source. The clip that
    /// was waited for becomes the selection; when the source ends, waiting
    /// ends with it.
    pub open spec fn drained(self, items: Seq<Ingested>, closed: bool, now: u64) -> State {
        let k = taken(items.len() as int);
        let full = items.len() >= INGEST_DRAIN_BUDGET;
        let found = self.refs.pending_reselect matches Some(p) && among(items, k, p);
        let a = with_requests(self, items, k);
        let b = if full {
            a.asked(Effect::NextFrame)
        } else {
            a
        };
        let c = State {
            refs: Refs {
                pending_reselect: if found || (closed && !full) {
                    None
                } else {
                    self.refs.pending_reselect
                },
                ingesting: self.refs.ingesting && !(closed && !full),
                ..self.refs
            },
            ..b
        };
        let d = if k > 0 {
            c.with_arrivals(batch_of(items, k, now), now)
        } else {
            c
        };
        if found {
            d.reselected(self.refs.pending_reselect->0, now)
        } else {
            d
        }
    }
}

impl Switchblade {
    fn reselect(&mut self, path: u64, now: u64)
        requires
            old(self)@.wf(),
        ensures
            final(self)@ == old(self)@.reselected(path, now),
            final(self)@.wf(),
    {
        proof {
            reveal(crate::state::tied);
        }
        let i: usize = match self.index.get(&path) {
            Some(i) => *i,
            None => {
                return;
            },
        };
        assert(self@.index.contains_key(path));
        self.refs.selected = i;
        self.refs.sel_changed_at = now;
        match self.lanes.live_sel {
            Some(l) => {
                if l.path == self.clips[i].path {
                    self.lanes.live_sel = Some(SelLive { clip: i, ..l });
                }
            },
            None => {},
        }
        self.ask(Effect::ScrollToSelected);
        if self.modes.quickview {
            self.ask(Effect::SnapStrip);
        }
    }

    fn request_gen(&mut self, item: &Ingested)
        ensures
            final(self)@ == (if item.readable && !item.cloud {
                State {
                    jobs: Jobs {
                        total: old(self)@.jobs.total.wrapping_add(1),
                        ..old(self)@.jobs
                    },
                    ..old(self)@
                }.asked(Effect::RequestGen { path: item.path })
            } else {
                old(self)@
            }),
    {
        if item.readable && !item.cloud {
            self.jobs.total = self.jobs.total.wrapping_add(1);
            self.ask(Effect::RequestGen { path: item.path });
        }
    }

    /// Takes the files that a source has found, up to the frame's budget; the
    /// rest stays in `items` for the next frame. `closed` says that no more
    /// will come. Returns the first place that an arrival took, if any did.
    pub fn drain_ingest(&mut self, items: &mut Vec<Ingested>, closed: bool, now: u64) -> (first: Option<
        usize,
    >)
        requires
            old(self)@.wf(),
            old(self)@.clips.len() + old(items)@.len() <= MAX_CLIPS,
        ensures
            final(self)@ == old(self)@.drained(old(items)@, closed, now),
            final(items)@ == old(items)@.skip(taken(old(items)@.len() as int)),
            final(self)@.wf(),
            first is Some <==> old(items)@.len() > 0,
            first matches Some(p) ==> old(self)@.first_arrival(
                batch_of(old(items)@, taken(old(items)@.len() as int), now),
                p as int,
            ),
    {
        let ghost before = self@;
        let ghost all = items@;
        let full: bool = items.len() >= INGEST_DRAIN_BUDGET;
        let k: usize = if full {
            INGEST_DRAIN_BUDGET
        } else {
            items.len()
        };
        let waited: Option<u64> = self.refs.pending_reselect;
        let mut found: bool = false;
        let mut batch: Vec<Clip> = Vec::new();
        let mut i: usize = 0;
        while i < k
            invariant
                i <= k <= items@.len(),
                items@ == all,
                waited == before.refs.pending_reselect,
                batch@ == batch_of(all, i as int, now),
                found == (waited matches Some(p) && among(all, i as int, p)),
                self@ == with_requests(before, all, i as int),
                keeps_all_but_requests(before, self@),
            decreases k - i,
        {
            let item: Ingested = items[i];
            let hit: bool = match waited {
                Some(p) => p == item.path,
                None => false,
            };
            let ghost had = found;
            found = found || hit;
            self.request_gen(&item);
            batch.push(clip_of(&item, now));
            proof {
                assert(batch@ =~= batch_of(all, i + 1, now));
                assert(all[i as int].path == item.path);
                match waited {
                    Some(p) => {
                        assert(among(all, i + 1, p) <==> among(all, i as int, p) || p
                            == item.path) by {
                            if among(all, i as int, p) {
                                let j = choose|j: int|
                                    0 <= j < i && (#[trigger] all[j]).path == p;
                                assert(all[j].path == p);
                            }
                        }
                    },
                    None => {},
                }
            }
            i += 1;
        }
        if full {
            self.ask(Effect::NextFrame);
        }
        let ended: bool = closed && !full;
        self.refs.pending_reselect = if found || ended {
            None
        } else {
            self.refs.pending_reselect
        };
        self.refs.ingesting = self.refs.ingesting && !ended;
        let first: Option<usize> = if k > 0 {
            Some(self.install_arrivals(&batch, now))
        } else {
            None
        };
        match waited {
            Some(p) => {
                if found {
                    self.reselect(p, now);
                }
            },
            None => {},
        }
        let mut rest = items.split_off(k);
        proof {
            assert(rest@ =~= all.skip(k as int));
        }
        items.clear();
        items.append(&mut rest);
        proof {
            assert(items@ =~= all.skip(k as int));
        }
        first
    }
}

/// Nothing but the requests and the job count differs.
spec fn keeps_all_but_requests(a: State, b: State) -> bool {
    b == (State { fx: b.fx, jobs: b.jobs, ..a })
}


impl State {
    /// The state after the library has been emptied for a new listing. What
    /// referred to its clips is gone; the old grid fades out. `reselect` is the
    /// clip that is waited for.
    pub open spec fn emptied(self, reselect: Option<u64>, now: u64) -> State {
        State {
            clips: Seq::empty(),
            index: Map::empty(),
            slots: all_free(self.slots.len()),
            warm: Seq::empty(),
            marked: Set::empty(),
            reflow: Seq::empty(),
            chapters: None,
            modes: Modes { gone_to: None, ..self.modes },
            pack: None,
            refs: Refs {
                selected: 0,
                hovered: None,
                strip_hover: None,
                pending_reselect: reselect,
                sort_armed: self.setup.sort != SortMode::Arrival,
                ingesting: true,
                ..self.refs
            },
            lanes: Lanes { live_hover: None, hover_resume: None, ..self.lanes },
            scene: Scene {
                ribbon: None,
                settling: false,
                grid_rev: self.scene.grid_rev.wrapping_add(1),
                transition: if self.scene.drawn {
                    Some(now)
                } else {
                    self.scene.transition
                },
                drawn: false,
                ..self.scene
            },
            ..self
        }.woken(now, 1_000_000_000)
    }

    /// The state after the selected clip's directory has been asked for: its
    /// siblings take the library's place, and the clip is waited for. Nothing
    /// happens in the demo, while another listing is waited for, without a
    /// selected clip, or where its path names no directory.
    #[verifier::opaque]
    pub open spec fn parent_opened(self, has_dir: bool, now: u64) -> State {
        if self.setup.demo || self.refs.pending_reselect is Some || !has_dir {
            self
        } else {
            match self.selected_clip() {
                Some(c) => self.asked(Effect::ReadParent { path: c.path }).emptied(
                    Some(c.path),
                    now,
                ),
                None => self,
            }
        }
    }

    /// The state after another directory has been asked for.
    #[verifier::opaque]
    pub open spec fn library_opened(self, now: u64) -> State {
        if self.setup.demo || self.refs.pending_reselect is Some {
            self
        } else {
            self.asked(Effect::ReadLibrary).emptied(None, now)
        }
    }
}

impl Switchblade {
    /// Empties the library for a new listing.
    #[verifier::rlimit(30)]
    pub fn swap_library(&mut self, reselect: Option<u64>, now: u64)
        requires
            old(self)@.wf(),
        ensures
            final(self)@ == old(self)@.emptied(reselect, now),
            final(self)@.wf(),
    {
        proof {
            reveal(crate::state::tied);
        }
        self.chapters = None;
        self.modes.gone_to = None;
        self.clips.clear();
        self.reflow.clear();
        self.ribbon_reset();
        self.scene.grid_rev = self.scene.grid_rev.wrapping_add(1);
        self.index.clear();
        free_all(&mut self.slots);
        self.lanes.live_hover = None;
        self.warm.clear();
        self.refs.hovered = None;
        self.refs.strip_hover = None;
        self.lanes.hover_resume = None;
        self.marked.clear();
        self.refs.selected = 0;
        self.refs.pending_reselect = reselect;
        self.refs.sort_armed = self.setup.sort != SortMode::Arrival;
        self.refs.ingesting = true;
        self.scene.transition = if self.scene.drawn {
            Some(now)
        } else {
            self.scene.transition
        };
        self.scene.drawn = false;
        self.wake(now, 1_000_000_000);
    }

    /// Opens the selected clip's directory in place of the library. `has_dir`
    /// says whether the clip's path names one.
    pub fn open_parent(&mut self, has_dir: bool, now: u64)
        requires
            old(self)@.wf(),
        ensures
            final(self)@ == old(self)@.parent_opened(has_dir, now),
            final(self)@.wf(),
    {
        proof {
            reveal(State::parent_opened);
        }
        if self.setup.demo || self.refs.pending_reselect.is_some() || !has_dir {
            return;
        }
        if self.refs.selected >= self.clips.len() {
            return;
        }
        let path: u64 = self.clips[self.refs.selected].path;
        self.ask(Effect::ReadParent { path });
        self.swap_library(Some(path), now);
    }

    /// Opens another directory in place of the library.
    pub fn open_library(&mut self, now: u64)
        requires
            old(self)@.wf(),
        ensures
            final(self)@ == old(self)@.library_opened(now),
            final(self)@.wf(),
    {
        proof {
            reveal(State::library_opened);
        }
        if self.setup.demo || self.refs.pending_reselect.is_some() {
            return;
        }
        self.ask(Effect::ReadLibrary);
        self.swap_library(None, now);
    }

    /// Keeps the loop awake for a fade where the first arrival stands in a row
    /// on the screen or near it.
    pub fn wake_for_arrival(&mut self, row: usize, last_visible: usize, now: u64)
        ensures
            final(self)@ == (if row <= last_visible {
                old(self)@.woken(now, library::FADE_WAKE)
            } else {
                old(self)@
            }),
    {
        if row <= last_visible {
            self.wake(now, library::FADE_WAKE);
        }
    }
}

/// An atlas of `n` free slots.
pub open spec fn all_free(n: nat) -> Seq<Option<SlotOwner>> {
    Seq::new(n, |j: int| None::<SlotOwner>)
}

fn free_all(slots: &mut Vec<Option<SlotOwner>>)
    ensures
        final(slots)@ == all_free(old(slots)@.len()),
{
    let ghost before = slots@;
    let mut j: usize = 0;
    while j < slots.len()
        invariant
            j <= slots@.len(),
            slots@.len() == before.len(),
            forall|k: int| 0 <= k < j ==> #[trigger] slots@[k] is None,
        decreases slots@.len() - j,
    {
        slots.set(j, None);
        j += 1;
    }
    assert(slots@ =~= all_free(before.len()));
}

/// A listing that brings the waited-for clip back makes it the selection: once
/// it has been waited for and has come, the selection stands on its path.
pub proof fn waited_for_clip_is_reselected(s: State, path: u64, now: u64)
    requires
        s.wf(),
        s.index.contains_key(path),
    ensures
        ({
            let t = s.reselected(path, now);
            t.refs.selected < t.clips.len() && t.clips[t.refs.selected as int].path == path
        }),
{
    reveal(crate::state::tied);
}

} // verus!
