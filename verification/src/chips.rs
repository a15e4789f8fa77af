//! The chips of the filmstrip and of the chapter row, as they are to be drawn:
//! which of them, in which order, from which picture.

use vstd::prelude::*;

use crate::flex::{LENGTH_LIMIT, WHOLE};
use crate::model::Thumb;
use crate::overlay::{chapter_middle, chapter_step, storyboard_cell, ChapterRow, Chip};
use crate::scene::Source;
use crate::state::{State, Switchblade};

verus! {

/// How a chip stands out among its neighbours.
#[derive(Clone, Copy, PartialEq, Eq, Structural, Debug)]
pub enum Standing {
    Plain,
    Hovered,
    Chosen,
}

/// A chip of the filmstrip.
#[derive(Clone, Copy, PartialEq, Eq, Structural, Debug)]
pub struct ChipPlan {
    pub clip: usize,
    pub cx: i128,
    pub w: i128,
    pub standing: Standing,
    pub source: Source,
}

impl State {
    /// How the chip of a clip stands out: the selected one, else the one under
    /// the pointer.
    pub open spec fn chip_standing(self, clip: usize) -> Standing {
        if clip == self.refs.selected {
            Standing::Chosen
        } else if self.refs.strip_hover == Some(clip) {
            Standing::Hovered
        } else {
            Standing::Plain
        }
    }

    /// The picture of a clip's chip: the thumbnail, or, on the hovered chip, the
    /// stream that plays there.
    pub open spec fn chip_source(self, clip: usize) -> Source {
        let still = match self.clips[clip as int].thumb {
            Thumb::Ready { slot, tw, th, .. } => Source::Still { slot, tw, th },
            _ => Source::Blank,
        };
        match self.lanes.live_hover {
            Some(l) => if self.chip_standing(clip) is Hovered && l.clip == clip && l.first_frame
                is Some {
                Source::Lane { slot: l.slot }
            } else {
                still
            },
            None => still,
        }
    }

    pub open spec fn chip_plan(self, c: Chip) -> ChipPlan {
        ChipPlan {
            clip: c.clip,
            cx: c.cx,
            w: c.w,
            standing: self.chip_standing(c.clip),
            source: self.chip_source(c.clip),
        }
    }

    /// Of the first `n` chips, those of a standing.
    pub open spec fn chips_of(self, chips: Seq<Chip>, standing: Standing, n: int) -> Seq<ChipPlan>
        decreases n,
    {
        if n <= 0 {
            Seq::empty()
        } else {
            let rest = self.chips_of(chips, standing, n - 1);
            let c = chips[n - 1];
            if c.clip < self.clips.len() && self.chip_standing(c.clip) == standing {
                rest.push(self.chip_plan(c))
            } else {
                rest
            }
        }
    }

    /// The filmstrip, each chip over those before it: the hovered one over its
    /// neighbours, the selected one over all.
    pub open spec fn strip_planned(self, chips: Seq<Chip>) -> Seq<ChipPlan> {
        let n = chips.len() as int;
        self.chips_of(chips, Standing::Plain, n) + self.chips_of(chips, Standing::Hovered, n)
            + self.chips_of(chips, Standing::Chosen, n)
    }
}

impl Switchblade {
    fn standing_of(&self, clip: usize) -> (r: Standing)
        ensures
            r == self@.chip_standing(clip),
    {
        let hovered = match self.refs.strip_hover {
            Some(h) => h == clip,
            None => false,
        };
        if clip == self.refs.selected {
            Standing::Chosen
        } else if hovered {
            Standing::Hovered
        } else {
            Standing::Plain
        }
    }

    fn plan_chip(&self, c: Chip) -> (r: ChipPlan)
        requires
            c.clip < self@.clips.len(),
        ensures
            r == self@.chip_plan(c),
    {
        let standing = self.standing_of(c.clip);
        let still = match self.clips[c.clip].thumb {
            Thumb::Ready { slot, at: _, tw, th } => Source::Still { slot, tw, th },
            _ => Source::Blank,
        };
        let hovered = match standing {
            Standing::Hovered => true,
            _ => false,
        };
        let source = match self.lanes.live_hover {
            Some(l) => if hovered && l.clip == c.clip && l.first_frame.is_some() {
                Source::Lane { slot: l.slot }
            } else {
                still
            },
            None => still,
        };
        ChipPlan { clip: c.clip, cx: c.cx, w: c.w, standing, source }
    }

    fn plan_chips(&self, chips: &Vec<Chip>, standing: Standing, out: &mut Vec<ChipPlan>)
        ensures
            final(out)@ == old(out)@ + self@.chips_of(chips@, standing, chips@.len() as int),
    {
        let ghost before = out@;
        let mut k: usize = 0;
        assert(out@ =~= before + Seq::<ChipPlan>::empty());
        while k < chips.len()
            invariant
                k <= chips@.len(),
                out@ == before + self@.chips_of(chips@, standing, k as int),
            decreases chips@.len() - k,
        {
            let c = chips[k];
            if c.clip < self.clips.len() && self.standing_of(c.clip) == standing {
                let plan = self.plan_chip(c);
                let ghost rest = self@.chips_of(chips@, standing, k as int);
                out.push(plan);
                assert(out@ =~= before + rest.push(plan));
            }
            k += 1;
        }
    }

    /// How the filmstrip is to be drawn, each chip over those before it.
    pub fn plan_strip(&self, chips: &Vec<Chip>) -> (r: Vec<ChipPlan>)
        ensures
            r@ == self@.strip_planned(chips@),
    {
        let mut out: Vec<ChipPlan> = Vec::new();
        self.plan_chips(chips, Standing::Plain, &mut out);
        self.plan_chips(chips, Standing::Hovered, &mut out);
        self.plan_chips(chips, Standing::Chosen, &mut out);
        assert(out@ =~= self@.strip_planned(chips@));
        out
    }
}

/// A chip of the chapter row: its middle, the column and row of the storyboard's
/// cell that it shows, and whether it waits for a storyboard that may come.
#[derive(Clone, Copy, PartialEq, Eq, Debug)]
pub struct ChapterChip {
    pub chapter: usize,
    pub cx: i128,
    pub standing: Standing,
    pub cell: Option<(u64, u64)>,
    pub waits: bool,
}

/// The chapter nearest to the place that the row's middle stands on.
pub open spec fn middle_chapter(pos: int) -> int {
    if pos >= 0 {
        (pos + 500_000) / (WHOLE as int)
    } else {
        -((500_000 - pos) / (WHOLE as int))
    }
}

/// How many chips are drawn on each side of the middle one.
pub open spec fn half_range(row: ChapterRow, vw: int) -> int {
    vw / chapter_step(row.cw as int, row.gap as int) / 2 + 1
}

/// Chapter `i` is near enough to the row's middle to be drawn.
pub open spec fn in_sight(i: int, row: ChapterRow, vw: int) -> bool {
    middle_chapter(row.pos as int) - half_range(row, vw) <= i <= middle_chapter(row.pos as int)
        + half_range(row, vw)
}

/// How a chapter's chip stands out: the one that plays, else the one under the
/// pointer.
pub open spec fn chapter_standing(i: usize, current: Option<usize>, hover: Option<usize>) -> Standing {
    if current == Some(i) {
        Standing::Chosen
    } else if hover == Some(i) {
        Standing::Hovered
    } else {
        Standing::Plain
    }
}

impl State {
    /// The storyboard's cell for a chapter that starts at `start`, in a bar for a
    /// clip of length `whole`.
    pub open spec fn chapter_cell(self, start: i64, whole: Option<i64>, g: u32) -> Option<(u64, u64)> {
        match (self.selected_clip(), crate::chapters::usable(whole)) {
            (Some(c), Some(d)) => if c.anim is Ready {
                let side = crate::overlay::at_least(g as int, 1);
                let k = crate::overlay::sheet_cell(start as int, d as int, g as int);
                Some(((k % side) as u64, (k / side) as u64))
            } else {
                None
            },
            _ => None,
        }
    }

    /// The chip of chapter `i`.
    pub open spec fn chapter_chip(
        self,
        i: usize,
        start: i64,
        whole: Option<i64>,
        row: ChapterRow,
        vw: int,
        standing: Standing,
        g: u32,
    ) -> ChapterChip {
        let cell = self.chapter_cell(start, whole, g);
        ChapterChip {
            chapter: i,
            cx: chapter_middle(i as int, row.cw as int, row.gap as int, vw, row.pos as int) as i128,
            standing,
            cell,
            waits: cell is None && self.sheet_coming() && crate::chapters::usable(whole) is Some,
        }
    }

    /// Of the first `n` chapters, the chips that are drawn, of a standing.
    pub open spec fn chapter_chips(
        self,
        times: Seq<i64>,
        whole: Option<i64>,
        row: ChapterRow,
        vw: int,
        current: Option<usize>,
        hover: Option<usize>,
        g: u32,
        standing: Standing,
        n: int,
    ) -> Seq<ChapterChip>
        decreases n,
    {
        if n <= 0 {
            Seq::empty()
        } else {
            let rest = self.chapter_chips(
                times,
                whole,
                row,
                vw,
                current,
                hover,
                g,
                standing,
                n - 1,
            );
            let i = (n - 1) as usize;
            if in_sight(n - 1, row, vw) && chapter_standing(i, current, hover) == standing {
                rest.push(self.chapter_chip(i, times[n - 1], whole, row, vw, standing, g))
            } else {
                rest
            }
        }
    }

    /// The chapter row, each chip over those before it: the hovered one over its
    /// neighbours, the one that plays over all. Empty while no chapters are
    /// known.
    pub open spec fn chapters_planned(
        self,
        row: ChapterRow,
        vw: int,
        current: Option<usize>,
        hover: Option<usize>,
        g: u32,
    ) -> Seq<ChapterChip> {
        match self.chapters {
            Some(b) => match b.times {
                Some(ts) => {
                    let n = ts.len() as int;
                    let d = b.duration;
                    self.chapter_chips(ts, d, row, vw, current, hover, g, Standing::Plain, n)
                        + self.chapter_chips(
                        ts,
                        d,
                        row,
                        vw,
                        current,
                        hover,
                        g,
                        Standing::Hovered,
                        n,
                    ) + self.chapter_chips(
                        ts,
                        d,
                        row,
                        vw,
                        current,
                        hover,
                        g,
                        Standing::Chosen,
                        n,
                    )
                },
                None => Seq::empty(),
            },
            None => Seq::empty(),
        }
    }
}

fn find_middle(pos: i64) -> (r: i128)
    ensures
        r == middle_chapter(pos as int),
        -10_000_000_000_000 <= r <= 10_000_000_000_000,
{
    let p: i128 = pos as i128;
    if p >= 0 {
        (p + 500_000) / WHOLE
    } else {
        -((500_000 - p) / WHOLE)
    }
}

fn standing_among(i: usize, current: Option<usize>, hover: Option<usize>) -> (r: Standing)
    ensures
        r == chapter_standing(i, current, hover),
{
    let cur = match current {
        Some(c) => c == i,
        None => false,
    };
    let hov = match hover {
        Some(h) => h == i,
        None => false,
    };
    if cur {
        Standing::Chosen
    } else if hov {
        Standing::Hovered
    } else {
        Standing::Plain
    }
}

impl Switchblade {
    fn cell_for(&self, start: i64, whole: Option<i64>, g: u32) -> (r: Option<(u64, u64)>)
        requires
            g <= 1_000,
        ensures
            r == self@.chapter_cell(start, whole, g),
    {
        if self.refs.selected >= self.clips.len() {
            return None;
        }
        match (self.clips[self.refs.selected].anim, crate::chapters::usable_duration(whole)) {
            (Thumb::Ready { slot: _, at: _, tw: _, th: _ }, Some(d)) => Some(
                storyboard_cell(start, d, g),
            ),
            _ => None,
        }
    }

    fn plan_chapter(
        &self,
        i: usize,
        start: i64,
        whole: Option<i64>,
        row: &ChapterRow,
        vw: i128,
        standing: Standing,
        g: u32,
    ) -> (r: ChapterChip)
        requires
            row.wf(),
            0 <= vw <= LENGTH_LIMIT,
            i <= crate::state::MAX_CLIPS,
            g <= 1_000,
        ensures
            r == self@.chapter_chip(i, start, whole, *row, vw as int, standing, g),
    {
        let cell = self.cell_for(start, whole, g);
        let cx: i128 = crate::overlay::chip_middle(i, row, vw);
        let timed: bool = crate::chapters::usable_duration(whole).is_some();
        ChapterChip {
            chapter: i,
            cx,
            standing,
            cell,
            waits: cell.is_none() && self.awaits_sheet() && timed,
        }
    }

    fn plan_chapter_layer(
        &self,
        times: &Vec<i64>,
        whole: Option<i64>,
        row: &ChapterRow,
        vw: i128,
        current: Option<usize>,
        hover: Option<usize>,
        g: u32,
        standing: Standing,
        out: &mut Vec<ChapterChip>,
    )
        requires
            row.wf(),
            0 <= vw <= LENGTH_LIMIT,
            times@.len() <= crate::state::MAX_CLIPS,
            g <= 1_000,
        ensures
            final(out)@ == old(out)@ + self@.chapter_chips(
                times@,
                whole,
                *row,
                vw as int,
                current,
                hover,
                g,
                standing,
                times@.len() as int,
            ),
    {
        let ghost before = out@;
        let step: i128 = crate::overlay::chip_step_of(row);
        let half: i128 = vw / step / 2 + 1;
        let middle: i128 = find_middle(row.pos);
        proof {
            let v = vw as int;
            let t = step as int;
            assert(0 <= v / t <= v) by (nonlinear_arith)
                requires
                    0 <= v,
                    t >= 1,
            ;
            assert(half == half_range(*row, vw as int));
        }
        let mut k: usize = 0;
        assert(out@ =~= before + Seq::<ChapterChip>::empty());
        while k < times.len()
            invariant
                k <= times@.len(),
                times@.len() <= crate::state::MAX_CLIPS,
                row.wf(),
                0 <= vw <= LENGTH_LIMIT,
                g <= 1_000,
                half == half_range(*row, vw as int),
                0 <= half <= LENGTH_LIMIT + 1,
                middle == middle_chapter(row.pos as int),
                -10_000_000_000_000 <= middle <= 10_000_000_000_000,
                out@ == before + self@.chapter_chips(
                    times@,
                    whole,
                    *row,
                    vw as int,
                    current,
                    hover,
                    g,
                    standing,
                    k as int,
                ),
            decreases times@.len() - k,
        {
            let at: i128 = k as i128;
            if middle - half <= at && at <= middle + half && standing_among(k, current, hover)
                == standing {
                let chip = self.plan_chapter(k, times[k], whole, row, vw, standing, g);
                let ghost rest = self@.chapter_chips(
                    times@,
                    whole,
                    *row,
                    vw as int,
                    current,
                    hover,
                    g,
                    standing,
                    k as int,
                );
                out.push(chip);
                assert(out@ =~= before + rest.push(chip));
            }
            k += 1;
        }
    }

    /// How the chapter row is to be drawn, each chip over those before it;
    /// `current` is the chapter that plays, `hover` the one under the pointer,
    /// and `g` the number of a storyboard's cells along a side.
    pub fn plan_chapters(
        &self,
        row: &ChapterRow,
        vw: i128,
        current: Option<usize>,
        hover: Option<usize>,
        g: u32,
    ) -> (r: Vec<ChapterChip>)
        requires
            row.wf(),
            0 <= vw <= LENGTH_LIMIT,
            g <= 1_000,
            self@.chapters matches Some(b) ==> (b.times matches Some(ts) ==> ts.len()
                <= crate::state::MAX_CLIPS),
        ensures
            r@ == self@.chapters_planned(*row, vw as int, current, hover, g),
    {
        let mut out: Vec<ChapterChip> = Vec::new();
        match &self.chapters {
            Some(b) => match &b.times {
                Some(ts) => {
                    let d = b.duration;
                    self.plan_chapter_layer(
                        ts,
                        d,
                        row,
                        vw,
                        current,
                        hover,
                        g,
                        Standing::Plain,
                        &mut out,
                    );
                    self.plan_chapter_layer(
                        ts,
                        d,
                        row,
                        vw,
                        current,
                        hover,
                        g,
                        Standing::Hovered,
                        &mut out,
                    );
                    self.plan_chapter_layer(
                        ts,
                        d,
                        row,
                        vw,
                        current,
                        hover,
                        g,
                        Standing::Chosen,
                        &mut out,
                    );
                },
                None => {},
            },
            None => {},
        }
        assert(out@ =~= self@.chapters_planned(*row, vw as int, current, hover, g));
        out
    }
}

} // verus!
