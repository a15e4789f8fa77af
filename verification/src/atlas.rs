//! The slots of the atlas: which picture makes room for the next.

use vstd::prelude::*;

use crate::grid::Layout;
use crate::model::{Clip, SlotKind, SlotOwner, Thumb};
use crate::state::{Jobs, State, Switchblade};

verus! {

/// The rows on the screen and near it, and the one in the middle.
#[derive(Clone, Copy, PartialEq, Eq, Structural, Debug)]
pub struct Zone {
    pub first: usize,
    pub last: usize,
    pub center: usize,
}

impl Zone {
    pub open spec fn holds(self, row: int) -> bool {
        self.first <= row <= self.last
    }
}

/// How readily a slot is given up: not at all at zero.
pub open spec fn eviction_class(in_zone: bool, kind: SlotKind) -> u8 {
    match kind {
        SlotKind::Live => 0,
        SlotKind::Static => if in_zone {
            0
        } else {
            2
        },
        SlotKind::Anim => if in_zone {
            1
        } else {
            3
        },
    }
}

/// How readily a slot must be given up to make room for a picture of a kind.
pub open spec fn least_class(incoming: SlotKind) -> u8 {
    match incoming {
        SlotKind::Anim => 2,
        _ => 1,
    }
}

/// How far a row is from the middle.
pub open spec fn distance(row: int, center: usize) -> int {
    if row < center {
        center - row
    } else {
        row - center
    }
}

/// The class of an owner's slot.
pub open spec fn owner_class(lay: Layout, zone: Zone, o: SlotOwner) -> u8 {
    eviction_class(zone.holds(lay.row_holding(o.clip as int)), o.kind)
}

/// Slot `a` is given up before slot `b`: it is of a higher class, or further
/// from the middle.
pub open spec fn goes_before(lay: Layout, zone: Zone, a: SlotOwner, b: SlotOwner) -> bool {
    let (ca, cb) = (owner_class(lay, zone, a), owner_class(lay, zone, b));
    ca > cb || (ca == cb && distance(lay.row_holding(a.clip as int), zone.center) > distance(
        lay.row_holding(b.clip as int),
        zone.center,
    ))
}

/// The first free slot from slot `j` on.
pub open spec fn free_slot(slots: Seq<Option<SlotOwner>>, j: int) -> Option<usize>
    decreases slots.len() - j,
{
    if j >= slots.len() || j < 0 {
        None
    } else if slots[j] is None {
        Some(j as usize)
    } else {
        free_slot(slots, j + 1)
    }
}

/// Of the first `n` slots, the one that goes before all the others, the first
/// of several.
pub open spec fn first_to_go(slots: Seq<Option<SlotOwner>>, lay: Layout, zone: Zone, n: int) -> int
    decreases n,
{
    if n <= 1 {
        0
    } else {
        let b = first_to_go(slots, lay, zone, n - 1);
        if goes_before(lay, zone, slots[n - 1]->0, slots[b]->0) {
            n - 1
        } else {
            b
        }
    }
}

impl State {
    /// The slot that a picture of a kind gets: a free one, else the one that is
    /// given up first, if it may be given up for such a picture.
    pub open spec fn slot_for(self, lay: Layout, zone: Zone, incoming: SlotKind) -> Option<usize> {
        match free_slot(self.slots, 0) {
            Some(j) => Some(j),
            None => {
                let j = first_to_go(self.slots, lay, zone, self.slots.len() as int);
                if owner_class(lay, zone, self.slots[j]->0) < least_class(incoming) {
                    None
                } else {
                    Some(j as usize)
                }
            },
        }
    }

    /// The state after a slot has been given up: the clip whose picture it held
    /// is without that picture.
    pub open spec fn vacated(self, j: int) -> State {
        match self.slots[j] {
            Some(o) => State {
                clips: self.clips.update(o.clip as int, stripped(self.clips[o.clip as int], o.kind)),
                slots: self.slots.update(j, None),
                jobs: Jobs { evictions: self.jobs.evictions.wrapping_add(1), ..self.jobs },
                ..self
            },
            None => self,
        }
    }

    /// The state after a slot has been looked for.
    #[verifier::opaque]
    pub open spec fn slot_cleared(self, lay: Layout, zone: Zone, incoming: SlotKind) -> State {
        match self.slot_for(lay, zone, incoming) {
            Some(j) => self.vacated(j as int),
            None => self,
        }
    }
}

/// A clip without its picture of a kind.
pub open spec fn stripped(c: Clip, kind: SlotKind) -> Clip {
    match kind {
        SlotKind::Static => Clip { thumb: Thumb::Absent, ..c },
        SlotKind::Anim => Clip { anim: Thumb::Absent, ..c },
        SlotKind::Live => c,
    }
}

fn class_of(in_zone: bool, kind: SlotKind) -> (c: u8)
    ensures
        c == eviction_class(in_zone, kind),
{
    match kind {
        SlotKind::Live => 0,
        SlotKind::Static => if in_zone {
            0
        } else {
            2
        },
        SlotKind::Anim => if in_zone {
            1
        } else {
            3
        },
    }
}

proof fn no_free_below(slots: Seq<Option<SlotOwner>>, j: int, k: int)
    requires
        0 <= j <= k <= slots.len(),
        forall|i: int| j <= i < k ==> (#[trigger] slots[i]) is Some,
    ensures
        free_slot(slots, j) == free_slot(slots, k),
    decreases k - j,
{
    if j < k {
        assert(slots[j] is Some);
        no_free_below(slots, j + 1, k);
    }
}

/// Without a free slot every slot is taken.
pub proof fn all_taken(slots: Seq<Option<SlotOwner>>, j: int, i: int)
    requires
        0 <= j <= i < slots.len(),
        free_slot(slots, j) is None,
    ensures
        slots[i] is Some,
    decreases i - j,
{
    if j < i {
        all_taken(slots, j + 1, i);
    }
}

proof fn first_to_go_is_there(slots: Seq<Option<SlotOwner>>, lay: Layout, zone: Zone, n: int)
    requires
        n >= 1,
    ensures
        0 <= first_to_go(slots, lay, zone, n) < n,
    decreases n,
{
    if n > 1 {
        first_to_go_is_there(slots, lay, zone, n - 1);
    }
}

/// Giving a slot up keeps the state sound.
pub proof fn vacating_keeps_the_state_sound(s: State, j: int)
    requires
        s.wf(),
        0 <= j < s.slots.len(),
        s.slots[j] matches Some(o) ==> !(o.kind is Live),
    ensures
        s.vacated(j).wf(),
{
    reveal(crate::state::tied);
    match s.slots[j] {
        Some(o) => {
            let t = s.vacated(j);
            assert forall|p: u64| #[trigger] t.index.contains_key(p) implies t.index[p]
                < t.clips.len() && t.clips[t.index[p] as int].path == p by {
                assert(s.index.contains_key(p));
            }
            assert forall|k: int| 0 <= k < t.slots.len() implies ((#[trigger] t.slots[k]) matches Some(
                q,
            ) ==> q.clip < t.clips.len()) by {
                assert(k != j ==> t.slots[k] == s.slots[k]);
            }
            assert forall|i: int| 0 <= i < t.clips.len() implies {
                &&& (#[trigger] t.clips[i]).thumb matches Thumb::Ready { slot, .. } ==> slot
                    < t.slots.len() && t.slots[slot as int] == Some(
                    SlotOwner { clip: i as usize, kind: SlotKind::Static },
                )
                &&& t.clips[i].anim matches Thumb::Ready { slot, .. } ==> slot < t.slots.len()
                    && t.slots[slot as int] == Some(
                    SlotOwner { clip: i as usize, kind: SlotKind::Anim },
                )
            } by {
                let c = s.clips[i];
                if c.thumb is Ready && c.thumb->slot == j {
                    assert(o.clip == i);
                }
                if c.anim is Ready && c.anim->slot == j {
                    assert(o.clip == i);
                }
            }
        },
        None => {},
    }
}

impl Switchblade {
    /// The slot that a picture of the kind gets, emptied: the first free one,
    /// else the one given up most readily. Sheets far from the screen go first,
    /// then thumbnails far from it, then sheets on it; a thumbnail on the screen
    /// or a playing tile is never given up, and for a sheet nothing on the
    /// screen is.
    pub fn alloc_slot(&mut self, lay: &Layout, zone: Zone, incoming: SlotKind) -> (r: Option<usize>)
        requires
            old(self)@.wf(),
            lay.wf(),
        ensures
            r == old(self)@.slot_for(*lay, zone, incoming),
            final(self)@ == old(self)@.slot_cleared(*lay, zone, incoming),
            final(self)@.wf(),
            final(self)@.clips.len() == old(self)@.clips.len(),
            r matches Some(j) ==> j < final(self)@.slots.len() && final(self)@.slots[j as int] is None,
    {
        proof {
            reveal(State::slot_cleared);
            reveal(crate::state::tied);
        }
        let n: usize = self.slots.len();
        let mut j: usize = 0;
        let mut best: usize = 0;
        let mut best_class: u8 = 0;
        let mut best_dist: usize = 0;
        while j < n
            invariant
                j <= n,
                n == self.slots@.len(),
                n > 0,
                lay.wf(),
                self@ == old(self)@,
                self@.wf(),
                forall|k: int| 0 <= k < j ==> (#[trigger] self.slots@[k]) is Some,
                j > 0 ==> {
                    &&& best < j
                    &&& best == first_to_go(self.slots@, *lay, zone, j as int)
                    &&& best_class == owner_class(*lay, zone, self.slots@[best as int]->0)
                    &&& best_dist == distance(
                        lay.row_holding((self.slots@[best as int]->0).clip as int),
                        zone.center,
                    )
                },
            decreases n - j,
        {
            let o = match self.slots[j] {
                Some(o) => o,
                None => {
                    proof {
                        reveal(State::slot_cleared);
                        no_free_below(self.slots@, 0, j as int);
                    }
                    return Some(j);
                },
            };
            let row: usize = lay.row_of(o.clip);
            proof {
                crate::grid::row_of_is_one(*lay, o.clip as int, row as int);
            }
            let dist: usize = if row < zone.center {
                zone.center - row
            } else {
                row - zone.center
            };
            let class: u8 = class_of(zone.first <= row && row <= zone.last, o.kind);
            if j == 0 || class > best_class || (class == best_class && dist > best_dist) {
                best = j;
                best_class = class;
                best_dist = dist;
            }
            j += 1;
        }
        proof {
            no_free_below(self.slots@, 0, n as int);
        }
        let least: u8 = match incoming {
            SlotKind::Anim => 2,
            _ => 1,
        };
        if best_class < least {
            return None;
        }
        proof {
            vacating_keeps_the_state_sound(self@, best as int);
        }
        match self.slots[best] {
            Some(o) => {
                let c = self.clips[o.clip];
                self.jobs.evictions = self.jobs.evictions.wrapping_add(1);
                self.clips.set(
                    o.clip,
                    match o.kind {
                        SlotKind::Static => Clip { thumb: Thumb::Absent, ..c },
                        SlotKind::Anim => Clip { anim: Thumb::Absent, ..c },
                        SlotKind::Live => c,
                    },
                );
                self.slots.set(best, None);
            },
            None => {},
        }
        Some(best)
    }
}

/// What is given up for a picture was no playing tile and no thumbnail on the
/// screen, and for a sheet nothing on the screen.
pub proof fn eviction_spares_what_is_seen(s: State, lay: Layout, zone: Zone, incoming: SlotKind)
    requires
        0 < s.slots.len() <= usize::MAX,
    ensures
        s.slot_for(lay, zone, incoming) matches Some(j) ==> j < s.slots.len() && (
        s.slots[j as int] matches Some(o) ==> {
            &&& !(o.kind is Live)
            &&& zone.holds(lay.row_holding(o.clip as int)) ==> o.kind is Anim && !(incoming is Anim)
        }),
{
    if free_slot(s.slots, 0) is None {
        first_to_go_is_there(s.slots, lay, zone, s.slots.len() as int);
    } else {
        free_is_free(s.slots, 0);
    }
}

proof fn free_is_free(slots: Seq<Option<SlotOwner>>, j: int)
    requires
        0 <= j <= slots.len(),
        slots.len() <= usize::MAX,
    ensures
        free_slot(slots, j) matches Some(k) ==> j <= k < slots.len() && slots[k as int] is None,
    decreases slots.len() - j,
{
    if j < slots.len() && slots[j] is Some {
        free_is_free(slots, j + 1);
    }
}

/// Of the taken slots, the one given up goes before every other or no later.
pub proof fn given_up_slot_goes_first(
    slots: Seq<Option<SlotOwner>>,
    lay: Layout,
    zone: Zone,
    n: int,
    k: int,
)
    requires
        0 <= k < n <= slots.len(),
    ensures
        !goes_before(lay, zone, slots[k]->0, slots[first_to_go(slots, lay, zone, n)]->0),
    decreases n,
{
    if n > 1 {
        let b = first_to_go(slots, lay, zone, n - 1);
        if k < n - 1 {
            given_up_slot_goes_first(slots, lay, zone, n - 1, k);
        }
    }
}

} // verus!
