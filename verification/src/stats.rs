//! Counts of frames and of what caused them, and the window's title.

use vstd::prelude::*;

use crate::state::elapsed;
use crate::text::decimal;

verus! {

/// How long the frames of one line are counted.
pub const STATS_SPAN: u64 = 1_000_000_000;

/// The frames since `at`, how many of them were idle, and what caused the
/// others; the most slots that were taken, and the most that were wanted.
#[derive(Clone, Copy, PartialEq, Eq, Structural, Debug)]
pub struct RedrawStats {
    pub at: u64,
    pub frames: u32,
    pub idle: u32,
    pub motion: u32,
    pub transition: u32,
    pub live: u32,
    pub timer: u32,
    pub slots_used: usize,
    pub slots_demand: usize,
}

/// What one frame was caused by.
#[derive(Clone, Copy, PartialEq, Eq, Structural, Debug)]
pub struct Causes {
    pub motion: bool,
    pub transition: bool,
    pub live: bool,
    pub timer: bool,
    pub animating: bool,
}

/// One more where something was so, as far as can be counted.
pub open spec fn counted(n: u32, so: bool) -> u32 {
    if so && n < u32::MAX {
        (n + 1) as u32
    } else {
        n
    }
}

fn count(n: u32, so: bool) -> (r: u32)
    ensures
        r == counted(n, so),
{
    if so && n < u32::MAX {
        n + 1
    } else {
        n
    }
}

impl RedrawStats {
    /// Nothing has been counted.
    pub open spec fn fresh(at: u64) -> RedrawStats {
        RedrawStats {
            at,
            frames: 0,
            idle: 0,
            motion: 0,
            transition: 0,
            live: 0,
            timer: 0,
            slots_used: 0,
            slots_demand: 0,
        }
    }

    /// The counts after one more frame.
    pub open spec fn with_frame(self, c: Causes) -> RedrawStats {
        RedrawStats {
            frames: counted(self.frames, true),
            idle: counted(self.idle, !c.animating),
            motion: counted(self.motion, c.motion),
            transition: counted(self.transition, c.transition),
            live: counted(self.live, c.live),
            timer: counted(self.timer, c.timer),
            ..self
        }
    }

    /// The counts as a line.
    pub open spec fn line(self) -> Seq<char> {
        "redraw: "@ + crate::text::decimal_of(self.frames as nat) + " frames/s ("@
            + crate::text::decimal_of(self.idle as nat) + " idle; causes: motion "@
            + crate::text::decimal_of(self.motion as nat) + " transition "@
            + crate::text::decimal_of(self.transition as nat) + " live "@
            + crate::text::decimal_of(self.live as nat) + " timer "@ + crate::text::decimal_of(
            self.timer as nat,
        ) + "); atlas slots used "@ + crate::text::decimal_of(self.slots_used as nat)
            + " / zone demand "@ + crate::text::decimal_of(self.slots_demand as nat)
    }

    pub fn new(now: u64) -> (s: Self)
        ensures
            s == RedrawStats::fresh(now),
    {
        RedrawStats {
            at: now,
            frames: 0,
            idle: 0,
            motion: 0,
            transition: 0,
            live: 0,
            timer: 0,
            slots_used: 0,
            slots_demand: 0,
        }
    }

    /// Notes how many slots are taken and wanted.
    pub fn slots(&mut self, used: usize, demand: usize)
        ensures
            *final(self) == (RedrawStats {
                slots_used: if old(self).slots_used < used {
                    used
                } else {
                    old(self).slots_used
                },
                slots_demand: if old(self).slots_demand < demand {
                    demand
                } else {
                    old(self).slots_demand
                },
                ..*old(self)
            }),
    {
        if self.slots_used < used {
            self.slots_used = used;
        }
        if self.slots_demand < demand {
            self.slots_demand = demand;
        }
    }

    fn to_line(&self) -> (s: String)
        ensures
            s@ == self.line(),
    {
        let mut s: String = "redraw: ".to_owned();
        s.append(decimal(self.frames as u64).as_str());
        s.append(" frames/s (");
        s.append(decimal(self.idle as u64).as_str());
        s.append(" idle; causes: motion ");
        s.append(decimal(self.motion as u64).as_str());
        s.append(" transition ");
        s.append(decimal(self.transition as u64).as_str());
        s.append(" live ");
        s.append(decimal(self.live as u64).as_str());
        s.append(" timer ");
        s.append(decimal(self.timer as u64).as_str());
        s.append("); atlas slots used ");
        s.append(decimal(self.slots_used as u64).as_str());
        s.append(" / zone demand ");
        s.append(decimal(self.slots_demand as u64).as_str());
        s
    }

    /// Counts a frame. Once a second has been counted, returns the line for it
    /// and starts anew.
    pub fn record(&mut self, c: Causes, now: u64) -> (r: Option<String>)
        ensures
            ({
                let s = old(self).with_frame(c);
                if crate::state::since(now, s.at) >= STATS_SPAN {
                    *final(self) == RedrawStats::fresh(now) && (r matches Some(t) && t@ == s.line())
                } else {
                    *final(self) == s && r is None
                }
            }),
    {
        self.frames = count(self.frames, true);
        self.idle = count(self.idle, !c.animating);
        self.motion = count(self.motion, c.motion);
        self.transition = count(self.transition, c.transition);
        self.live = count(self.live, c.live);
        self.timer = count(self.timer, c.timer);
        if elapsed(now, self.at) >= STATS_SPAN {
            let line = self.to_line();
            *self = RedrawStats::new(now);
            Some(line)
        } else {
            None
        }
    }
}

/// The window's title: how many clips there are, and the selected one's name.
pub open spec fn title_of(clips: nat, name: Seq<char>) -> Seq<char> {
    "switchblade \u{2014} "@ + crate::text::decimal_of(clips) + " clips \u{2014} "@ + name
}

/// The window's title.
pub fn title(clips: usize, name: &str) -> (s: String)
    ensures
        s@ == title_of(clips as nat, name@),
{
    let mut s: String = "switchblade \u{2014} ".to_owned();
    s.append(decimal(clips as u64).as_str());
    s.append(" clips \u{2014} ");
    s.append(name);
    s
}

/// The new title, where it differs from the one that is shown.
pub fn update_title(clips: usize, name: &str, shown: &str) -> (r: Option<String>)
    ensures
        match r {
            Some(t) => t@ == title_of(clips as nat, name@) && t@ != shown@,
            None => title_of(clips as nat, name@) == shown@,
        },
{
    let t = title(clips, name);
    if crate::text::same(t.as_str(), shown) {
        None
    } else {
        Some(t)
    }
}

} // verus!
