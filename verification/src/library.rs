//! The library's order: arrivals, removals and shuffles, and what they do to
//! everything that refers to a clip by its place.

use std::collections::HashMap;
use std::collections::HashSet;

use vstd::prelude::*;

use crate::model::{
    unplaced_tile, Clip, Effect, LiveState, Resume, SelLive, SlotKind, SlotOwner, Thumb,
    TileReflow,
};
use crate::state::{Lanes, Refs, Scene, State, Switchblade};

verus! {

/// Where a renumbering takes place `i`: nowhere, where the clip is gone or
/// there was none.
pub open spec fn moved(map: Seq<Option<usize>>, i: int) -> Option<usize> {
    if 0 <= i < map.len() {
        map[i]
    } else {
        None
    }
}

fn moved_to(map: &Vec<Option<usize>>, i: usize) -> (r: Option<usize>)
    ensures
        r == moved(map@, i as int),
{
    if i < map.len() {
        map[i]
    } else {
        None
    }
}

/// The clips `new` are the clips `old` after the renumbering, perhaps with
/// others between: every clip that stays is found at its new place, and no two
/// share one.
pub open spec fn carries(old: Seq<Clip>, new: Seq<Clip>, map: Seq<Option<usize>>) -> bool {
    &&& map.len() == old.len()
    &&& forall|o: int|
        0 <= o < old.len() ==> ((#[trigger] map[o]) matches Some(n) ==> n < new.len()
            && new[n as int] == old[o])
    &&& forall|a: int, b: int|
        0 <= a < b < map.len() && (#[trigger] map[a]) is Some && (#[trigger] map[b]) is Some
            ==> map[a] != map[b]
}

/// The place that a renumbering moves to `n`, if any.
pub open spec fn came_from(map: Seq<Option<usize>>, n: int) -> Option<int> {
    if exists|o: int| 0 <= o < map.len() && #[trigger] map[o] == Some(n as usize) {
        Some(choose|o: int| 0 <= o < map.len() && #[trigger] map[o] == Some(n as usize))
    } else {
        None
    }
}

/// The new place of the surviving clip nearest to place `sel`, looking `d`
/// places away and further: before it first, then after it.
pub open spec fn nearest_survivor(map: Seq<Option<usize>>, sel: int, d: int) -> usize
    decreases map.len() + 1 - d,
{
    if d > map.len() {
        0
    } else {
        match moved(map, sel - d) {
            Some(n) => n,
            None => match moved(map, sel + d) {
                Some(n) => n,
                None => nearest_survivor(map, sel, d + 1),
            },
        }
    }
}

/// The selection after a renumbering: the same clip, or the nearest survivor.
pub open spec fn landed(map: Seq<Option<usize>>, sel: int, len: int) -> usize {
    let n = match moved(map, sel) {
        Some(n) => n,
        None => nearest_survivor(map, sel, 1),
    };
    if len == 0 {
        0
    } else if n > len - 1 {
        (len - 1) as usize
    } else {
        n
    }
}

/// A slot after a renumbering; the slot of a clip that is gone is free.
pub open spec fn moved_slot(map: Seq<Option<usize>>, s: Option<SlotOwner>) -> Option<SlotOwner> {
    match s {
        Some(o) => match moved(map, o.clip as int) {
            Some(n) => Some(SlotOwner { clip: n, ..o }),
            None => None,
        },
        None => None,
    }
}

/// A stream after a renumbering; the stream of a clip that is gone ends.
pub open spec fn moved_lane(map: Seq<Option<usize>>, l: Option<SelLive>) -> Option<SelLive> {
    match l {
        Some(l) => match moved(map, l.clip as int) {
            Some(n) => Some(SelLive { clip: n, ..l }),
            None => None,
        },
        None => None,
    }
}

/// The hovered stream after a renumbering.
pub open spec fn moved_hover(map: Seq<Option<usize>>, l: Option<LiveState>) -> Option<LiveState> {
    match l {
        Some(l) => match moved(map, l.clip as int) {
            Some(n) => Some(LiveState { clip: n, ..l }),
            None => None,
        },
        None => None,
    }
}

/// The warm streams after a renumbering, in their order.
pub open spec fn moved_warm(map: Seq<Option<usize>>, w: Seq<SelLive>) -> Seq<SelLive>
    decreases w.len(),
{
    if w.len() == 0 {
        Seq::empty()
    } else {
        let rest = moved_warm(map, w.drop_last());
        match moved(map, w.last().clip as int) {
            Some(n) => rest.push(SelLive { clip: n, ..w.last() }),
            None => rest,
        }
    }
}

/// A place after a renumbering.
pub open spec fn moved_opt(map: Seq<Option<usize>>, i: Option<usize>) -> Option<usize> {
    match i {
        Some(i) => moved(map, i as int),
        None => None,
    }
}

pub open spec fn moved_resume(map: Seq<Option<usize>>, r: Option<Resume>) -> Option<Resume> {
    match r {
        Some(r) => match moved(map, r.clip as int) {
            Some(n) => Some(Resume { clip: n, ..r }),
            None => None,
        },
        None => None,
    }
}

impl State {
    /// The state after the clips have been renumbered: the new clips, and
    /// everything that refers to a clip by its place moved along with it.
    pub open spec fn remapped(self, clips: Seq<Clip>, map: Seq<Option<usize>>, now: u64) -> State {
        let s = State {
            clips,
            index: Map::new(
                |p: u64|
                    self.index.contains_key(p) && moved(map, self.index[p] as int) is Some,
                |p: u64| moved(map, self.index[p] as int)->0,
            ),
            slots: self.slots.map_values(|s: Option<SlotOwner>| moved_slot(map, s)),
            warm: moved_warm(map, self.warm),
            marked: Set::new(
                |n: usize|
                    exists|i: usize|
                        self.marked.contains(i) && #[trigger] moved(map, i as int) == Some(n),
            ),
            reflow: Seq::new(
                clips.len(),
                |n: int|
                    match came_from(map, n) {
                        Some(o) => if o < self.reflow.len() {
                            self.reflow[o]
                        } else {
                            crate::model::unplaced()
                        },
                        None => crate::model::unplaced(),
                    },
            ),
            refs: Refs {
                selected: landed(map, self.refs.selected as int, clips.len() as int),
                sel_changed_at: if moved(map, self.refs.selected as int) is None {
                    now
                } else {
                    self.refs.sel_changed_at
                },
                hovered: moved_opt(map, self.refs.hovered),
                strip_hover: moved_opt(map, self.refs.strip_hover),
                ..self.refs
            },
            lanes: Lanes {
                live_sel: moved_lane(map, self.lanes.live_sel),
                live_hover: moved_hover(map, self.lanes.live_hover),
                hover_resume: moved_resume(map, self.lanes.hover_resume),
                ..self.lanes
            },
            scene: Scene {
                ribbon: None,
                settling: false,
                grid_rev: self.scene.grid_rev.wrapping_add(1),
                ..self.scene
            },
            pack: None,
            ..self
        };
        if self.modes.quickview {
            s.asked(Effect::SnapStrip)
        } else {
            s
        }
    }
}

/// Renumbering keeps the state sound.
pub proof fn remapping_keeps_the_state_sound(
    s: State,
    clips: Seq<Clip>,
    map: Seq<Option<usize>>,
    now: u64,
)
    requires
        s.wf(),
        carries(s.clips, clips, map),
        clips.len() <= crate::state::MAX_CLIPS,
        forall|n: int|
            0 <= n < clips.len() && came_from(map, n) is None ==> !((
            #[trigger] clips[n]).thumb is Ready) && !(clips[n].anim is Ready),
    ensures
        s.remapped(clips, map, now).wf(),
{
    reveal(crate::state::tied);
    let t = s.remapped(clips, map, now);
    assert forall|p: u64| #[trigger] t.index.contains_key(p) implies t.index[p] < t.clips.len()
        && t.clips[t.index[p] as int].path == p by {
        let o = s.index[p] as int;
        assert(map[o] is Some);
    }
    assert forall|j: int| 0 <= j < t.slots.len() implies ((#[trigger] t.slots[j]) matches Some(o)
        ==> o.clip < t.clips.len()) by {
        match s.slots[j] {
            Some(o) => {
                assert(map[o.clip as int] == moved(map, o.clip as int));
            },
            None => {},
        }
    }
    assert forall|i: int| 0 <= i < t.clips.len() implies {
        &&& (#[trigger] t.clips[i]).thumb matches Thumb::Ready { slot, .. } ==> slot
            < t.slots.len() && t.slots[slot as int] == Some(
            SlotOwner { clip: i as usize, kind: SlotKind::Static },
        )
        &&& t.clips[i].anim matches Thumb::Ready { slot, .. } ==> slot < t.slots.len()
            && t.slots[slot as int] == Some(
            SlotOwner { clip: i as usize, kind: SlotKind::Anim },
        )
    } by {
        assert(t.clips[i] == clips[i]);
        match came_from(map, i) {
            Some(o) => {
                assert(map[o] == Some(i as usize));
                assert(clips[i] == s.clips[o]);
            },
            None => {},
        }
    }
    match s.lanes.live_hover {
        Some(l) => {
            assert(map[l.clip as int] == moved(map, l.clip as int));
        },
        None => {},
    }
    warm_within(map, s.warm, clips.len() as int, s.clips, clips);
    assert(map.len() == s.clips.len());
    if s.clips.len() > 0 {
        assert(map[s.refs.selected as int] == moved(map, s.refs.selected as int));
    }
    match s.refs.hovered {
        Some(h) => {
            assert(map[h as int] == moved(map, h as int));
        },
        None => {},
    }
    match s.refs.strip_hover {
        Some(h) => {
            assert(map[h as int] == moved(map, h as int));
        },
        None => {},
    }
    assert forall|m: usize| #[trigger] t.marked.contains(m) implies m < t.clips.len() by {
        let i = choose|i: usize|
            s.marked.contains(i) && #[trigger] moved(map, i as int) == Some(m);
        assert(map[i as int] == Some(m));
    }
}

proof fn warm_within(
    map: Seq<Option<usize>>,
    w: Seq<SelLive>,
    n: int,
    old: Seq<Clip>,
    new: Seq<Clip>,
)
    requires
        carries(old, new, map),
        n == new.len(),
    ensures
        forall|k: int| 0 <= k < moved_warm(map, w).len() ==> (#[trigger] moved_warm(map, w)[k]).clip < n,
    decreases w.len(),
{
    if w.len() > 0 {
        warm_within(map, w.drop_last(), n, old, new);
        let c = w.last().clip as int;
        if 0 <= c < map.len() {
            assert(map[c] matches Some(n) ==> n < new.len());
        }
    }
}

/// The selection follows its clip through a renumbering that keeps it.
pub proof fn selection_follows_its_clip(
    s: State,
    clips: Seq<Clip>,
    map: Seq<Option<usize>>,
    now: u64,
)
    requires
        s.wf(),
        s.clips.len() > 0,
        carries(s.clips, clips, map),
        moved(map, s.refs.selected as int) is Some,
    ensures
        s.remapped(clips, map, now).refs.selected < clips.len(),
        clips[s.remapped(clips, map, now).refs.selected as int] == s.clips[s.refs.selected as int],
        s.remapped(clips, map, now).refs.sel_changed_at == s.refs.sel_changed_at,
{
    assert(map[s.refs.selected as int] is Some);
}

/// Marks follow their clips through a renumbering that keeps them.
pub proof fn marks_follow_their_clips(
    s: State,
    clips: Seq<Clip>,
    map: Seq<Option<usize>>,
    now: u64,
    i: usize,
)
    requires
        s.wf(),
        carries(s.clips, clips, map),
        s.marked.contains(i),
        moved(map, i as int) is Some,
    ensures
        ({
            let n = moved(map, i as int)->0;
            s.remapped(clips, map, now).marked.contains(n) && clips[n as int] == s.clips[i as int]
        }),
{
    assert(map[i as int] is Some);
    assert(moved(map, i as int) == Some(moved(map, i as int)->0));
}


fn remap_index(
    index: &HashMap<u64, usize>,
    old: Ghost<Seq<Clip>>,
    clips: &Vec<Clip>,
    map: &Vec<Option<usize>>,
) -> (r: HashMap<u64, usize>)
    requires
        carries(old@, clips@, map@),
        forall|p: u64| #[trigger]
            index@.contains_key(p) ==> index@[p] < old@.len() && old@[index@[p] as int].path == p,
    ensures
        r@ == Map::new(
            |p: u64| index@.contains_key(p) && moved(map@, index@[p] as int) is Some,
            |p: u64| moved(map@, index@[p] as int)->0,
        ),
{
    let mut r: HashMap<u64, usize> = HashMap::new();
    let mut n: usize = 0;
    while n < clips.len()
        invariant
            n <= clips@.len(),
            carries(old@, clips@, map@),
            forall|p: u64| #[trigger]
                index@.contains_key(p) ==> index@[p] < old@.len() && old@[index@[p] as int].path
                    == p,
            forall|p: u64| #[trigger]
                r@.contains_key(p) <==> index@.contains_key(p) && (moved(
                    map@,
                    index@[p] as int,
                ) matches Some(k) && k < n),
            forall|p: u64| #[trigger]
                r@.contains_key(p) ==> r@[p] == moved(map@, index@[p] as int)->0,
        decreases clips@.len() - n,
    {
        let path: u64 = clips[n].path;
        match index.get(&path) {
            Some(v) => {
                match moved_to(map, *v) {
                    Some(k) => {
                        if k == n {
                            r.insert(path, n);
                        }
                    },
                    None => {},
                }
            },
            None => {},
        }
        proof {
            assert forall|p: u64| index@.contains_key(p) && moved(map@, index@[p] as int) == Some(
                n,
            ) implies p == path by {
                assert(map@[index@[p] as int] == Some(n));
            }
        }
        n += 1;
    }
    proof {
        let want = Map::new(
            |p: u64| index@.contains_key(p) && moved(map@, index@[p] as int) is Some,
            |p: u64| moved(map@, index@[p] as int)->0,
        );
        assert forall|p: u64| #[trigger] want.contains_key(p) implies r@.contains_key(p) by {
            assert(map@[index@[p] as int] is Some);
        }
        assert(r@ =~= want);
    }
    r
}

fn remap_slots(slots: &mut Vec<Option<SlotOwner>>, map: &Vec<Option<usize>>)
    ensures
        final(slots)@ == old(slots)@.map_values(|s: Option<SlotOwner>| moved_slot(map@, s)),
{
    let ghost before = slots@;
    let mut j: usize = 0;
    while j < slots.len()
        invariant
            j <= slots@.len(),
            slots@.len() == before.len(),
            forall|k: int| 0 <= k < j ==> #[trigger] slots@[k] == moved_slot(map@, before[k]),
            forall|k: int| j <= k < slots@.len() ==> #[trigger] slots@[k] == before[k],
        decreases slots@.len() - j,
    {
        let next: Option<SlotOwner> = match slots[j] {
            Some(o) => match moved_to(map, o.clip) {
                Some(n) => Some(SlotOwner { clip: n, kind: o.kind }),
                None => None,
            },
            None => None,
        };
        slots.set(j, next);
        j += 1;
    }
    assert(slots@ =~= before.map_values(|s: Option<SlotOwner>| moved_slot(map@, s)));
}

fn remap_lane(l: Option<SelLive>, map: &Vec<Option<usize>>) -> (r: Option<SelLive>)
    ensures
        r == moved_lane(map@, l),
{
    match l {
        Some(l) => match moved_to(map, l.clip) {
            Some(n) => Some(SelLive { clip: n, ..l }),
            None => None,
        },
        None => None,
    }
}

fn remap_hover(l: Option<LiveState>, map: &Vec<Option<usize>>) -> (r: Option<LiveState>)
    ensures
        r == moved_hover(map@, l),
{
    match l {
        Some(l) => match moved_to(map, l.clip) {
            Some(n) => Some(LiveState { clip: n, ..l }),
            None => None,
        },
        None => None,
    }
}

fn remap_warm(warm: &Vec<SelLive>, map: &Vec<Option<usize>>) -> (r: Vec<SelLive>)
    ensures
        r@ == moved_warm(map@, warm@),
{
    let mut r: Vec<SelLive> = Vec::new();
    let mut k: usize = 0;
    while k < warm.len()
        invariant
            k <= warm@.len(),
            r@ == moved_warm(map@, warm@.take(k as int)),
        decreases warm@.len() - k,
    {
        proof {
            let t = warm@.take(k + 1);
            assert(t.drop_last() =~= warm@.take(k as int));
            assert(t.last() == warm@[k as int]);
        }
        let w: SelLive = warm[k];
        match moved_to(map, w.clip) {
            Some(n) => {
                r.push(SelLive { clip: n, ..w });
            },
            None => {},
        }
        k += 1;
    }
    assert(warm@.take(k as int) =~= warm@);
    r
}

fn remap_marked(marked: &HashSet<usize>, map: &Vec<Option<usize>>) -> (r: HashSet<usize>)
    ensures
        r@ == Set::new(
            |n: usize|
                exists|i: usize|
                    marked@.contains(i) && #[trigger] moved(map@, i as int) == Some(n),
        ),
{
    let mut r: HashSet<usize> = HashSet::new();
    let mut i: usize = 0;
    while i < map.len()
        invariant
            i <= map@.len(),
            forall|n: usize| #[trigger]
                r@.contains(n) <==> exists|k: usize|
                    k < i && marked@.contains(k) && #[trigger] moved(map@, k as int) == Some(n),
        decreases map@.len() - i,
    {
        let ghost before = r@;
        if marked.contains(&i) {
            match map[i] {
                Some(n) => {
                    r.insert(n);
                    proof {
                        assert(moved(map@, i as int) == Some(n));
                    }
                },
                None => {},
            }
        }
        proof {
            assert forall|n: usize| #[trigger] r@.contains(n) implies exists|k: usize|
                k < i + 1 && marked@.contains(k) && #[trigger] moved(map@, k as int) == Some(n) by {
                if before.contains(n) {
                    let k = choose|k: usize|
                        k < i && marked@.contains(k) && #[trigger] moved(map@, k as int) == Some(n);
                    assert(moved(map@, k as int) == Some(n));
                } else {
                    assert(moved(map@, i as int) == Some(n));
                }
            }
            assert forall|n: usize, k: usize|
                k < i + 1 && marked@.contains(k) && #[trigger] moved(map@, k as int) == Some(
                    n,
                ) implies #[trigger] r@.contains(n) by {
                if k < i {
                    assert(before.contains(n));
                }
            }
        }
        i += 1;
    }
    proof {
        let want = Set::new(
            |n: usize|
                exists|i: usize|
                    marked@.contains(i) && #[trigger] moved(map@, i as int) == Some(n),
        );
        assert forall|n: usize| #[trigger] want.contains(n) implies r@.contains(n) by {
            let k = choose|k: usize|
                marked@.contains(k) && #[trigger] moved(map@, k as int) == Some(n);
            assert(moved(map@, k as int) == Some(n));
            assert(k < i);
        }
        assert forall|n: usize| #[trigger] r@.contains(n) implies want.contains(n) by {
            let k = choose|k: usize|
                k < i && marked@.contains(k) && #[trigger] moved(map@, k as int) == Some(n);
            assert(moved(map@, k as int) == Some(n));
        }
        assert(r@ =~= want);
    }
    r
}

fn remap_reflow(reflow: &Vec<TileReflow>, map: &Vec<Option<usize>>, len: usize) -> (r: Vec<
    TileReflow,
>)
    requires
        forall|a: int, b: int|
            0 <= a < b < map@.len() && (#[trigger] map@[a]) is Some && (#[trigger] map@[b]) is Some
                ==> map@[a] != map@[b],
    ensures
        r@ == Seq::new(
            len as nat,
            |n: int|
                match came_from(map@, n) {
                    Some(o) => if o < reflow@.len() {
                        reflow@[o]
                    } else {
                        crate::model::unplaced()
                    },
                    None => crate::model::unplaced(),
                },
        ),
{
    let mut r: Vec<TileReflow> = Vec::new();
    let mut n: usize = 0;
    while n < len
        invariant
            n <= len,
            r@.len() == n,
            forall|k: int| 0 <= k < n ==> #[trigger] r@[k] == crate::model::unplaced(),
        decreases len - n,
    {
        r.push(unplaced_tile());
        n += 1;
    }
    let mut o: usize = 0;
    while o < map.len() && o < reflow.len()
        invariant
            o <= map@.len(),
            o <= reflow@.len(),
            r@.len() == len,
            forall|a: int, b: int|
                0 <= a < b < map@.len() && (#[trigger] map@[a]) is Some && (
                #[trigger] map@[b]) is Some ==> map@[a] != map@[b],
            forall|k: int|
                0 <= k < len ==> #[trigger] r@[k] == (match came_from(map@, k) {
                    Some(q) => if q < o {
                        reflow@[q]
                    } else {
                        crate::model::unplaced()
                    },
                    None => crate::model::unplaced(),
                }),
        decreases map@.len() - o,
    {
        match map[o] {
            Some(n) => {
                proof {
                    one_source(map@, o as int, n);
                }
                if n < len {
                    r.set(n, reflow[o]);
                }
            },
            None => {},
        }
        proof {
            assert forall|k: int| 0 <= k < len && came_from(map@, k) == Some(
                o as int,
            ) implies map@[o as int] == Some(k as usize) by {}
        }
        o += 1;
    }
    proof {
        let want = Seq::new(
            len as nat,
            |n: int|
                match came_from(map@, n) {
                    Some(o) => if o < reflow@.len() {
                        reflow@[o]
                    } else {
                        crate::model::unplaced()
                    },
                    None => crate::model::unplaced(),
                },
        );
        assert(r@ =~= want);
    }
    r
}

proof fn one_source(map: Seq<Option<usize>>, o: int, n: usize)
    requires
        0 <= o < map.len(),
        map[o] == Some(n),
        forall|a: int, b: int|
            0 <= a < b < map.len() && (#[trigger] map[a]) is Some && (#[trigger] map[b]) is Some
                ==> map[a] != map[b],
    ensures
        came_from(map, n as int) == Some(o),
{
    let q = choose|q: int| 0 <= q < map.len() && #[trigger] map[q] == Some(n as int as usize);
    assert(map[o] == Some(n as int as usize));
    if q < o {
        assert(map[q] != map[o]);
    } else if o < q {
        assert(map[o] != map[q]);
    }
}

fn survivor(map: &Vec<Option<usize>>, sel: usize) -> (r: usize)
    requires
        sel + map@.len() < usize::MAX,
    ensures
        r == nearest_survivor(map@, sel as int, 1),
{
    let n: usize = map.len();
    let mut d: usize = 1;
    while d <= n
        invariant
            n == map@.len(),
            1 <= d <= n + 1,
            sel + n < usize::MAX,
            nearest_survivor(map@, sel as int, d as int) == nearest_survivor(map@, sel as int, 1),
        decreases n + 1 - d,
    {
        if sel >= d {
            match moved_to(map, sel - d) {
                Some(k) => {
                    return k;
                },
                None => {},
            }
        }
        match moved_to(map, sel + d) {
            Some(k) => {
                return k;
            },
            None => {},
        }
        d += 1;
    }
    0
}

impl Switchblade {
    /// Installs the renumbered clips and moves everything that refers to a
    /// clip by its place along with it: the index, the atlas slots, the
    /// streams, the hovers, the selection, the marks and the tiles on their
    /// way. What belongs to a clip that is gone is dropped; the selection
    /// falls to the nearest survivor.
    pub fn remap_refs(&mut self, clips: Vec<Clip>, map: &Vec<Option<usize>>, now: u64)
        requires
            old(self)@.wf(),
            carries(old(self)@.clips, clips@, map@),
        ensures
            final(self)@ == old(self)@.remapped(clips@, map@, now),
    {
        proof {
            reveal(crate::state::tied);
        }
        assert(crate::state::MAX_CLIPS == 1_000_000_000);
        let ghost before = self@;
        self.index = remap_index(&self.index, Ghost(self.clips@), &clips, map);
        remap_slots(&mut self.slots, map);
        self.warm = remap_warm(&self.warm, map);
        self.marked = remap_marked(&self.marked, map);
        self.reflow = remap_reflow(&self.reflow, map, clips.len());
        self.lanes.live_sel = remap_lane(self.lanes.live_sel, map);
        self.lanes.live_hover = remap_hover(self.lanes.live_hover, map);
        self.lanes.hover_resume = match self.lanes.hover_resume {
            Some(r) => match moved_to(map, r.clip) {
                Some(n) => Some(Resume { clip: n, pos: r.pos }),
                None => None,
            },
            None => None,
        };
        self.refs.hovered = match self.refs.hovered {
            Some(h) => moved_to(map, h),
            None => None,
        };
        self.refs.strip_hover = match self.refs.strip_hover {
            Some(h) => moved_to(map, h),
            None => None,
        };
        let sel: usize = self.refs.selected;
        let place: Option<usize> = moved_to(map, sel);
        let n: usize = match place {
            Some(n) => n,
            None => survivor(map, sel),
        };
        self.refs.selected = if clips.len() == 0 {
            0
        } else if n > clips.len() - 1 {
            clips.len() - 1
        } else {
            n
        };
        self.refs.sel_changed_at = if place.is_none() {
            now
        } else {
            self.refs.sel_changed_at
        };
        self.clips = clips;
        self.ribbon_reset();
        self.scene.grid_rev = self.scene.grid_rev.wrapping_add(1);
        if self.modes.quickview {
            self.ask(Effect::SnapStrip);
        }
    }
}


/// The renumbering that closes the gap at place `i`.
pub open spec fn closing(n: nat, i: int) -> Seq<Option<usize>> {
    Seq::new(
        n,
        |o: int|
            if o < i {
                Some(o as usize)
            } else if o == i {
                None
            } else {
                Some((o - 1) as usize)
            },
    )
}

impl State {
    /// The state without the clip at place `i`.
    pub open spec fn without(self, i: int, now: u64) -> State {
        if 0 <= i < self.clips.len() {
            self.remapped(self.clips.remove(i), closing(self.clips.len(), i), now).woken(
                now,
                FADE_WAKE,
            )
        } else {
            self
        }
    }
}

/// How long the loop stays awake for a fade.
pub const FADE_WAKE: u64 = 600_000_000;

/// Closing a gap carries the other clips along.
pub proof fn closing_carries(clips: Seq<Clip>, i: int)
    requires
        0 <= i < clips.len(),
        clips.len() <= usize::MAX,
    ensures
        carries(clips, clips.remove(i), closing(clips.len(), i)),
        forall|n: int|
            0 <= n < clips.len() - 1 ==> #[trigger] came_from(closing(clips.len(), i), n) is Some,
{
    let map = closing(clips.len(), i);
    assert forall|n: int| 0 <= n < clips.len() - 1 implies #[trigger] came_from(map, n) is Some by {
        let o = if n < i {
            n
        } else {
            n + 1
        };
        assert(map[o] == Some(n as usize));
    }
}

impl Switchblade {
    /// Takes a clip out of the library; there is no such place, nothing
    /// happens.
    pub fn remove_clip(&mut self, i: usize, now: u64)
        requires
            old(self)@.wf(),
        ensures
            final(self)@ == old(self)@.without(i as int, now),
            final(self)@.wf(),
    {
        let n: usize = self.clips.len();
        if i >= n {
            return;
        }
        let ghost before = self@;
        let mut clips: Vec<Clip> = Vec::new();
        let mut map: Vec<Option<usize>> = Vec::new();
        let mut o: usize = 0;
        while o < n
            invariant
                n == self.clips@.len(),
                i < n,
                o <= n,
                self@ == before,
                map@.len() == o,
                forall|k: int|
                    0 <= k < o ==> #[trigger] map@[k] == closing(n as nat, i as int)[k],
                clips@.len() == (if o <= i {
                    o as int
                } else {
                    o - 1
                }),
                forall|k: int|
                    0 <= k < clips@.len() ==> #[trigger] clips@[k] == self.clips@.remove(
                        i as int,
                    )[k],
            decreases n - o,
        {
            map.push(
                if o < i {
                    Some(o)
                } else if o == i {
                    None
                } else {
                    Some(o - 1)
                },
            );
            if o != i {
                clips.push(self.clips[o]);
            }
            o += 1;
        }
        proof {
            assert(map@ =~= closing(n as nat, i as int));
            assert(clips@ =~= before.clips.remove(i as int));
            closing_carries(before.clips, i as int);
            remapping_keeps_the_state_sound(before, clips@, map@, now);
        }
        self.remap_refs(clips, &map, now);
        self.wake(now, FADE_WAKE);
    }
}

/// The places of the clips before `n` that are, or are not, in the disk cache,
/// ascending.
pub open spec fn places(clips: Seq<Clip>, cached: bool, n: int) -> Seq<usize>
    decreases n,
{
    if n <= 0 {
        Seq::empty()
    } else if clips[n - 1].cached == cached {
        places(clips, cached, n - 1).push((n - 1) as usize)
    } else {
        places(clips, cached, n - 1)
    }
}

/// Two entries exchanged.
pub open spec fn swapped(v: Seq<usize>, i: int, j: int) -> Seq<usize> {
    v.update(i, v[j]).update(j, v[i])
}

/// The random shuffle of Fisher and Yates from entry `i` down, drawing from the
/// stream at `s`.
pub open spec fn shuffled(v: Seq<usize>, i: int, s: u64) -> Seq<usize>
    decreases i,
{
    if i <= 0 {
        v
    } else {
        let t = crate::rng::xorshift(s);
        let j = (t as int) % (i + 1);
        shuffled(swapped(v, i, j), i - 1, t)
    }
}

/// The order that a shuffle gives: the cached clips first, shuffled, and after
/// them the others in the order they had.
pub open spec fn shuffle_order(clips: Seq<Clip>, seed: u64) -> Seq<usize> {
    let cached = places(clips, true, clips.len() as int);
    shuffled(cached, cached.len() - 1, seed) + places(clips, false, clips.len() as int)
}

/// Each place below `n` comes exactly once in the order.
pub open spec fn is_order(order: Seq<usize>, n: int) -> bool {
    &&& order.len() == n
    &&& forall|k: int| 0 <= k < n ==> #[trigger] order[k] < n
    &&& forall|a: int, b: int|
        0 <= a < b < n ==> #[trigger] order[a] != #[trigger] order[b]
    &&& forall|o: usize| o < n ==> #[trigger] order.contains(o)
}

/// The renumbering that an order stands for: each place moves to where the
/// order has it.
pub open spec fn renumbering(order: Seq<usize>) -> Seq<Option<usize>> {
    Seq::new(
        order.len(),
        |o: int|
            Some((choose|k: int| 0 <= k < order.len() && #[trigger] order[k] == o) as usize),
    )
}

/// The clips in the given order.
pub open spec fn ordered(clips: Seq<Clip>, order: Seq<usize>) -> Seq<Clip> {
    Seq::new(order.len(), |k: int| clips[order[k] as int])
}

impl State {
    /// The state after the library has taken the given order.
    pub open spec fn rearranged(self, order: Seq<usize>, now: u64) -> State {
        let t = self.remapped(ordered(self.clips, order), renumbering(order), now);
        State {
            reflow: Seq::empty(),
            refs: Refs { hovered: None, strip_hover: None, sort_armed: false, ..t.refs },
            lanes: Lanes { hover_resume: None, ..t.lanes },
            scene: Scene {
                transition: if self.scene.drawn {
                    Some(now)
                } else {
                    self.scene.transition
                },
                drawn: false,
                ..t.scene
            },
            ..t
        }.asked(Effect::ScrollToSelected).woken(now, 1_000_000_000)
    }

    /// The state after a shuffle that draws from `seed`. With fewer than two
    /// cached clips there is nothing to shuffle.
    #[verifier::opaque]
    pub open spec fn shuffled_by(self, seed: u64, now: u64) -> State {
        if places(self.clips, true, self.clips.len() as int).len() < 2 {
            self
        } else {
            self.rearranged(shuffle_order(self.clips, seed), now)
        }
    }
}

/// What the two lists of places hold: each place below `n` that is cached, or
/// not, once, in ascending order.
proof fn places_hold(clips: Seq<Clip>, cached: bool, n: int)
    requires
        0 <= n <= clips.len(),
        clips.len() <= usize::MAX,
    ensures
        forall|o: usize| #[trigger]
            places(clips, cached, n).contains(o) <==> o < n && clips[o as int].cached == cached,
        forall|a: int, b: int|
            0 <= a < b < places(clips, cached, n).len() ==> #[trigger] places(
                clips,
                cached,
                n,
            )[a] < #[trigger] places(clips, cached, n)[b],
        places(clips, cached, n).len() <= n,
    decreases n,
{
    if n > 0 {
        places_hold(clips, cached, n - 1);
        let rest = places(clips, cached, n - 1);
        if clips[n - 1].cached == cached {
            crate::grid::pushed_contains(rest, (n - 1) as usize);
            assert forall|a: int| 0 <= a < rest.len() implies #[trigger] rest[a] < n - 1 by {
                assert(rest.contains(rest[a]));
            }
        }
    }
}

/// No entry comes twice.
pub open spec fn distinct(v: Seq<usize>) -> bool {
    forall|a: int, b: int| 0 <= a < b < v.len() ==> #[trigger] v[a] != #[trigger] v[b]
}

proof fn swapping_keeps(v: Seq<usize>, i: int, j: int)
    requires
        0 <= i < v.len(),
        0 <= j < v.len(),
        distinct(v),
    ensures
        distinct(swapped(v, i, j)),
        swapped(v, i, j).len() == v.len(),
        forall|o: usize| #[trigger] swapped(v, i, j).contains(o) <==> v.contains(o),
{
    let w = swapped(v, i, j);
    assert forall|o: usize| #[trigger] w.contains(o) <==> v.contains(o) by {
        if v.contains(o) {
            let k = choose|k: int| 0 <= k < v.len() && v[k] == o;
            if k == i {
                assert(w[j] == o);
            } else if k == j {
                assert(w[i] == o);
            } else {
                assert(w[k] == o);
            }
        }
        if w.contains(o) {
            let k = choose|k: int| 0 <= k < w.len() && w[k] == o;
            if k == i {
                assert(v[j] == o);
            } else if k == j {
                assert(v[i] == o);
            } else {
                assert(v[k] == o);
            }
        }
    }
}

proof fn shuffling_keeps(v: Seq<usize>, i: int, s: u64)
    requires
        i < v.len(),
        distinct(v),
    ensures
        distinct(shuffled(v, i, s)),
        shuffled(v, i, s).len() == v.len(),
        forall|o: usize| #[trigger] shuffled(v, i, s).contains(o) <==> v.contains(o),
    decreases i,
{
    if i > 0 {
        let t = crate::rng::xorshift(s);
        let j = (t as int) % (i + 1);
        assert(0 <= j <= i);
        swapping_keeps(v, i, j);
        shuffling_keeps(swapped(v, i, j), i - 1, t);
    }
}

/// A shuffle takes every clip to one place: it is a permutation.
pub proof fn shuffle_is_a_permutation(clips: Seq<Clip>, seed: u64)
    requires
        clips.len() <= usize::MAX,
    ensures
        is_order(shuffle_order(clips, seed), clips.len() as int),
{
    let n = clips.len() as int;
    let cached = places(clips, true, n);
    let rest = places(clips, false, n);
    let mixed = shuffled(cached, cached.len() - 1, seed);
    let order = shuffle_order(clips, seed);
    places_hold(clips, true, n);
    places_hold(clips, false, n);
    shuffling_keeps(cached, cached.len() - 1, seed);
    counts_add_up(clips, n);
    assert forall|k: int| 0 <= k < n implies #[trigger] order[k] < n by {
        if k < mixed.len() {
            assert(mixed.contains(mixed[k]));
        } else {
            assert(rest.contains(rest[k - mixed.len()]));
        }
    }
    assert forall|a: int, b: int| 0 <= a < b < n implies #[trigger] order[a] != #[trigger] order[b] by {
        if b < mixed.len() {
            assert(mixed[a] != mixed[b]);
        } else if a >= mixed.len() {
            assert(rest[a - mixed.len()] < rest[b - mixed.len()]);
        } else {
            assert(mixed.contains(mixed[a]));
            assert(rest.contains(rest[b - mixed.len()]));
        }
    }
    assert forall|o: usize| o < n implies #[trigger] order.contains(o) by {
        if clips[o as int].cached {
            assert(mixed.contains(o));
            let k = choose|k: int| 0 <= k < mixed.len() && mixed[k] == o;
            assert(order[k] == o);
        } else {
            assert(rest.contains(o));
            let k = choose|k: int| 0 <= k < rest.len() && rest[k] == o;
            assert(order[mixed.len() + k] == o);
        }
    }
}

proof fn counts_add_up(clips: Seq<Clip>, n: int)
    requires
        0 <= n <= clips.len(),
    ensures
        places(clips, true, n).len() + places(clips, false, n).len() == n,
    decreases n,
{
    if n > 0 {
        counts_add_up(clips, n - 1);
    }
}

/// A shuffle puts every cached clip before every other, and leaves the others
/// in the order they had.
pub proof fn shuffle_puts_cached_clips_first(clips: Seq<Clip>, seed: u64, a: int, b: int)
    requires
        clips.len() <= usize::MAX,
        0 <= a < b < clips.len(),
    ensures
        ({
            let order = shuffle_order(clips, seed);
            let x = clips[order[a] as int];
            let y = clips[order[b] as int];
            &&& y.cached ==> x.cached
            &&& !x.cached && !y.cached ==> order[a] < order[b]
        }),
{
    let n = clips.len() as int;
    let cached = places(clips, true, n);
    let rest = places(clips, false, n);
    let mixed = shuffled(cached, cached.len() - 1, seed);
    places_hold(clips, true, n);
    places_hold(clips, false, n);
    shuffling_keeps(cached, cached.len() - 1, seed);
    counts_add_up(clips, n);
    if b < mixed.len() {
        assert(mixed.contains(mixed[a]));
        assert(mixed.contains(mixed[b]));
    } else if a < mixed.len() {
        assert(mixed.contains(mixed[a]));
        assert(rest.contains(rest[b - mixed.len()]));
    } else {
        assert(rest.contains(rest[a - mixed.len()]));
        assert(rest.contains(rest[b - mixed.len()]));
        assert(rest[a - mixed.len()] < rest[b - mixed.len()]);
    }
}

/// An order carries every clip along.
pub proof fn ordering_carries(clips: Seq<Clip>, order: Seq<usize>)
    requires
        is_order(order, clips.len() as int),
        clips.len() <= usize::MAX,
    ensures
        carries(clips, ordered(clips, order), renumbering(order)),
        forall|n: int| 0 <= n < clips.len() ==> #[trigger] came_from(renumbering(order), n) is Some,
        forall|k: int|
            0 <= k < order.len() ==> renumbering(order)[#[trigger] order[k] as int] == Some(
                k as usize,
            ),
{
    let map = renumbering(order);
    assert forall|k: int| 0 <= k < order.len() implies map[#[trigger] order[k] as int] == Some(
        k as usize,
    ) by {
        let o = order[k] as int;
        let q = choose|q: int| 0 <= q < order.len() && #[trigger] order[q] == o;
        assert(order[k] == o);
        if q < k {
            assert(order[q] != order[k]);
        } else if k < q {
            assert(order[k] != order[q]);
        }
    }
    assert forall|o: int| 0 <= o < clips.len() implies ((#[trigger] map[o]) matches Some(n) ==> n
        < order.len() && ordered(clips, order)[n as int] == clips[o]) by {
        assert(order.contains(o as usize));
        let k = choose|k: int| 0 <= k < order.len() && order[k] == o as usize;
        assert(map[order[k] as int] == Some(k as usize));
    }
    assert forall|a: int, b: int|
        0 <= a < b < map.len() && (#[trigger] map[a]) is Some && (
        #[trigger] map[b]) is Some implies map[a] != map[b] by {
        assert(order.contains(a as usize));
        assert(order.contains(b as usize));
        let i = choose|k: int| 0 <= k < order.len() && order[k] == a as usize;
        let j = choose|k: int| 0 <= k < order.len() && order[k] == b as usize;
        assert(map[order[i] as int] == Some(i as usize));
        assert(map[order[j] as int] == Some(j as usize));
    }
    assert forall|n: int| 0 <= n < clips.len() implies #[trigger] came_from(map, n) is Some by {
        assert(map[order[n] as int] == Some(n as usize));
    }
}


fn cached_places(clips: &Vec<Clip>, cached: bool) -> (v: Vec<usize>)
    ensures
        v@ == places(clips@, cached, clips@.len() as int),
{
    let mut v: Vec<usize> = Vec::new();
    let mut i: usize = 0;
    while i < clips.len()
        invariant
            i <= clips@.len(),
            v@ == places(clips@, cached, i as int),
        decreases clips@.len() - i,
    {
        if clips[i].cached == cached {
            v.push(i);
        }
        i += 1;
    }
    v
}

fn shuffle(v: &mut Vec<usize>, seed: u64)
    requires
        old(v)@.len() <= crate::state::MAX_CLIPS,
    ensures
        final(v)@ == shuffled(old(v)@, old(v)@.len() - 1, seed),
{
    let ghost start = v@;
    let mut s: u64 = seed;
    if v.len() == 0 {
        return;
    }
    let mut i: usize = v.len() - 1;
    while i > 0
        invariant
            i < v@.len(),
            v@.len() == start.len(),
            start.len() <= crate::state::MAX_CLIPS,
            shuffled(v@, i as int, s) == shuffled(start, start.len() - 1, seed),
        decreases i,
    {
        let t: u64 = crate::rng::next_rand(&mut s);
        let j: usize = (t % (i as u64 + 1)) as usize;
        let ghost before = v@;
        let a: usize = v[i];
        let b: usize = v[j];
        v.set(i, b);
        v.set(j, a);
        proof {
            assert(v@ =~= swapped(before, i as int, j as int));
        }
        i -= 1;
    }
}

fn put_in_order(clips: &Vec<Clip>, order: &Vec<usize>) -> (r: (Vec<Clip>, Vec<Option<usize>>))
    requires
        is_order(order@, clips@.len() as int),
    ensures
        r.0@ == ordered(clips@, order@),
        r.1@ == renumbering(order@),
{
    let n: usize = clips.len();
    let mut out: Vec<Clip> = Vec::new();
    let mut map: Vec<Option<usize>> = Vec::new();
    let mut k: usize = 0;
    while k < n
        invariant
            n == clips@.len(),
            k <= n,
            map@.len() == k,
        decreases n - k,
    {
        map.push(None);
        k += 1;
    }
    k = 0;
    while k < n
        invariant
            n == clips@.len(),
            is_order(order@, n as int),
            k <= n,
            map@.len() == n,
            out@.len() == k,
            forall|i: int| 0 <= i < k ==> #[trigger] out@[i] == clips@[order@[i] as int],
            forall|i: int| 0 <= i < k ==> map@[#[trigger] order@[i] as int] == Some(i as usize),
        decreases n - k,
    {
        let o: usize = order[k];
        assert(order@[k as int] < n);
        out.push(clips[o]);
        map.set(o, Some(k));
        k += 1;
    }
    proof {
        ordering_carries(clips@, order@);
        assert(out@ =~= ordered(clips@, order@));
        assert forall|o: int| 0 <= o < n implies #[trigger] map@[o] == renumbering(order@)[o] by {
            assert(order@.contains(o as usize));
            let i = choose|i: int| 0 <= i < order@.len() && order@[i] == o as usize;
            assert(map@[order@[i] as int] == Some(i as usize));
            assert(renumbering(order@)[order@[i] as int] == Some(i as usize));
        }
        assert(map@ =~= renumbering(order@));
    }
    (out, map)
}

impl Switchblade {
    /// Shuffles the library with the random numbers that follow from `seed`:
    /// the cached clips first in random order, the others after them as they
    /// were. The selection stays on its clip; later arrivals append.
    pub fn shuffle_with(&mut self, seed: u64, now: u64)
        requires
            old(self)@.wf(),
        ensures
            final(self)@ == old(self)@.shuffled_by(seed, now),
            final(self)@.wf(),
    {
        proof {
            reveal(State::shuffled_by);
        }
        let ghost before = self@;
        let mut order = cached_places(&self.clips, true);
        if order.len() < 2 {
            return;
        }
        proof {
            places_hold(self.clips@, true, self.clips@.len() as int);
        }
        shuffle(&mut order, seed);
        let mut rest = cached_places(&self.clips, false);
        order.append(&mut rest);
        proof {
            assert(order@ =~= shuffle_order(before.clips, seed));
            shuffle_is_a_permutation(before.clips, seed);
            ordering_carries(before.clips, order@);
        }
        let (clips, map) = put_in_order(&self.clips, &order);
        proof {
            remapping_keeps_the_state_sound(before, clips@, map@, now);
        }
        self.remap_refs(clips, &map, now);
        self.reflow.clear();
        self.refs.hovered = None;
        self.refs.strip_hover = None;
        self.lanes.hover_resume = None;
        self.refs.sort_armed = false;
        self.scene.transition = if self.scene.drawn {
            Some(now)
        } else {
            self.scene.transition
        };
        self.scene.drawn = false;
        self.ask(Effect::ScrollToSelected);
        self.wake(now, 1_000_000_000);
    }

    /// Shuffles the library.
    pub fn shuffle_library(&mut self, now: u64)
        requires
            old(self)@.wf(),
        ensures
            exists|seed: u64| #[trigger] old(self)@.shuffled_by(seed, now) == final(self)@,
            final(self)@.wf(),
    {
        let seed: u64 = crate::rng::rng_seed();
        self.shuffle_with(seed, now);
    }
}

} // verus!
