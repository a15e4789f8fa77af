//! Chapters: real ones, or checkpoints in a clip that has none, and the bar of
//! the full view that shows them.

use vstd::prelude::*;

use crate::model::{Clip, Effect, GoneTo};
use crate::state::{BarModel, ChapterBar, Modes, State, Switchblade};

verus! {

/// One second of a clip.
pub const SECOND: i64 = 1_000_000_000;

/// Durations up to this are not taken for durations.
pub const SHORTEST: i64 = 50_000_000;

/// Further into a chapter than this, a step back goes to its beginning.
pub const CHAPTER_RESTART: i64 = 2_000_000_000;

/// How long the loop stays awake while the bar slides.
pub const BAR_WAKE: u64 = 800_000_000;

/// How long the loop stays awake for the position that flashes up.
pub const FLASH_WAKE: u64 = 1_500_000_000;

/// The chapter that counts as playing: `nav`, the one last gone to, while the
/// position lies in it or in the one before it, where a jump to its beginning
/// may land; else the one that the position lies in.
pub open spec fn resolved(pos_idx: int, nav: Option<usize>) -> int {
    match nav {
        Some(k) => if pos_idx == k || pos_idx + 1 == k {
            k as int
        } else {
            pos_idx
        },
        None => pos_idx,
    }
}

/// The chapter that counts as playing, from the one that the position lies in
/// and the one last gone to.
pub fn resolve_chapter(pos_idx: usize, nav: Option<usize>) -> (r: usize)
    ensures
        r == resolved(pos_idx as int, nav),
{
    match nav {
        Some(k) => if pos_idx == k || (pos_idx < k && pos_idx == k - 1) {
            k
        } else {
            pos_idx
        },
        None => pos_idx,
    }
}

/// The chapter gone to counts as playing through the lead-in before it, and the
/// position counts again once it lies in a later chapter or well before.
pub proof fn resolved_pins_the_chapter_gone_to(pos_idx: int, k: usize)
    requires
        pos_idx >= 0,
    ensures
        k as int - 1 <= pos_idx <= k as int ==> resolved(pos_idx, Some(k)) == k,
        pos_idx > k ==> resolved(pos_idx, Some(k)) == pos_idx,
        pos_idx + 1 < k ==> resolved(pos_idx, Some(k)) == pos_idx,
{
}

/// How many checkpoints a clip without chapters gets.
pub open spec fn checkpoints(d: int) -> int {
    if d > 600 * SECOND {
        10
    } else if d > 180 * SECOND {
        8
    } else if d >= 60 * SECOND {
        4
    } else {
        0
    }
}

/// How many checkpoints a clip without chapters gets: none under a minute, four
/// from a minute on, eight over three minutes, ten over ten.
pub fn checkpoint_count(d: i64) -> (n: usize)
    ensures
        n == checkpoints(d as int),
{
    if d > 600 * SECOND {
        10
    } else if d > 180 * SECOND {
        8
    } else if d >= 60 * SECOND {
        4
    } else {
        0
    }
}

/// Where the checkpoints of a clip lie: evenly from its beginning.
pub open spec fn checkpoint_starts(d: int) -> Seq<i64> {
    Seq::new(checkpoints(d) as nat, |k: int| (d * k / checkpoints(d)) as i64)
}

/// Where the checkpoints of a clip lie.
pub fn synth_checkpoints(d: i64) -> (v: Vec<i64>)
    ensures
        v@ == checkpoint_starts(d as int),
{
    let n: usize = checkpoint_count(d);
    let mut v: Vec<i64> = Vec::new();
    let mut k: usize = 0;
    while k < n
        invariant
            k <= n <= 10,
            n == checkpoints(d as int),
            v@.len() == k,
            forall|j: int| 0 <= j < k ==> #[trigger] v@[j] == checkpoint_starts(d as int)[j],
        decreases n - k,
    {
        proof {
            let p = d * k;
            assert(d >= 60 * SECOND);
            assert(0 <= p <= 10 * d) by (nonlinear_arith)
                requires
                    0 <= d,
                    0 <= k <= 10,
                    p == d * k,
            ;
            assert(p / (n as int) <= d) by (nonlinear_arith)
                requires
                    0 <= d,
                    0 <= k < n,
                    p == d * k,
            {
                assert(d * k <= d * n);
            }
            assert(0 <= p / (n as int)) by (nonlinear_arith)
                requires
                    p >= 0,
                    n > 0,
            ;
        }
        let at: i128 = (d as i128) * (k as i128) / (n as i128);
        v.push(at as i64);
        k += 1;
    }
    assert(v@ =~= checkpoint_starts(d as int));
    v
}

/// Checkpoints begin with the clip, lie within it and never go back.
pub proof fn checkpoints_ascend(d: i64, i: int, j: int)
    requires
        0 <= i < j < checkpoint_starts(d as int).len(),
    ensures
        checkpoint_starts(d as int)[0] == 0,
        0 <= checkpoint_starts(d as int)[i] <= checkpoint_starts(d as int)[j] < d,
{
    let n = checkpoints(d as int);
    assert(0 <= d * i / n <= d * j / n < d) by (nonlinear_arith)
        requires
            d > 0,
            0 <= i < j < n,
    {
        assert(d * i <= d * j);
        assert(d * j <= d * (n - 1));
        assert(d * (n - 1) == d * n - d);
    }
    assert(d * 0 == 0);
}

/// A duration, where it is long enough to count.
pub open spec fn usable(d: Option<i64>) -> Option<i64> {
    match d {
        Some(d) => if d > SHORTEST {
            Some(d)
        } else {
            None
        },
        None => None,
    }
}

pub(crate) fn usable_duration(d: Option<i64>) -> (r: Option<i64>)
    ensures
        r == usable(d),
{
    match d {
        Some(d) => if d > SHORTEST {
            Some(d)
        } else {
            None
        },
        None => None,
    }
}

/// The first, if there is one, else the second.
pub open spec fn either(a: Option<i64>, b: Option<i64>) -> Option<i64> {
    match a {
        Some(_) => a,
        None => b,
    }
}

fn either_of(a: Option<i64>, b: Option<i64>) -> (r: Option<i64>)
    ensures
        r == either(a, b),
{
    match a {
        Some(_) => a,
        None => b,
    }
}

/// A clip's chapters: the real ones where there are at least two, else
/// checkpoints.
pub open spec fn plan_of(times: Seq<i64>, d: Option<i64>) -> Seq<i64> {
    if times.len() >= 2 {
        times
    } else {
        match d {
            Some(d) => checkpoint_starts(d as int),
            None => Seq::empty(),
        }
    }
}

fn plan_times(times: &Vec<i64>, d: Option<i64>) -> (r: Vec<i64>)
    ensures
        r@ == plan_of(times@, d),
{
    if times.len() >= 2 {
        copy_times(times)
    } else {
        match d {
            Some(d) => synth_checkpoints(d),
            None => Vec::new(),
        }
    }
}

fn copy_times(v: &Vec<i64>) -> (r: Vec<i64>)
    ensures
        r@ == v@,
{
    let mut r: Vec<i64> = Vec::new();
    let mut i: usize = 0;
    while i < v.len()
        invariant
            i <= v@.len(),
            r@ == v@.take(i as int),
        decreases v@.len() - i,
    {
        r.push(v[i]);
        i += 1;
        assert(r@ =~= v@.take(i as int));
    }
    assert(v@.take(i as int) =~= v@);
    r
}

/// A position within the clip: playback runs round.
pub open spec fn wrapped(pos: int, d: Option<i64>) -> int {
    match d {
        Some(d) => pos % (d as int),
        None => pos,
    }
}

fn wrap_position(pos: i64, d: Option<i64>) -> (r: i64)
    requires
        d matches Some(d) ==> d > 0,
    ensures
        r == wrapped(pos as int, d),
{
    match d {
        Some(d) => rem(pos as i128, d),
        None => pos,
    }
}

/// The remainder of `a` by `d`, never negative.
pub(crate) fn rem(a: i128, d: i64) -> (r: i64)
    requires
        d > 0,
        -100_000_000_000_000_000_000 <= a <= 100_000_000_000_000_000_000,
    ensures
        r == (a as int) % (d as int),
        0 <= r < d,
{
    let e: i128 = d as i128;
    if a >= 0 {
        (a % e) as i64
    } else {
        let m: i128 = (-a) % e;
        proof {
            let q = (-a) / (e as int);
            vstd::arithmetic::div_mod::lemma_fundamental_div_mod(-a as int, e as int);
            if m == 0 {
                assert(a == (-q) * e + 0) by (nonlinear_arith)
                    requires
                        -a == e * q + 0,
                ;
                vstd::arithmetic::div_mod::lemma_fundamental_div_mod_converse(
                    a as int,
                    e as int,
                    -q,
                    0,
                );
            } else {
                assert(a == (-q - 1) * e + (e - m)) by (nonlinear_arith)
                    requires
                        -a == e * q + m,
                ;
                vstd::arithmetic::div_mod::lemma_fundamental_div_mod_converse(
                    a as int,
                    e as int,
                    -q - 1,
                    (e - m) as int,
                );
            }
        }
        if m == 0 {
            0
        } else {
            (e - m) as i64
        }
    }
}

/// The first chapter from `i` on that starts after `p`, or their number.
pub open spec fn first_after(times: Seq<i64>, p: int, i: int) -> int
    decreases times.len() - i,
{
    if i >= times.len() || times[i] > p {
        i
    } else {
        first_after(times, p, i + 1)
    }
}

/// The chapter that position `p` lies in: the last one that starts at it or
/// before it, the first where none does.
pub open spec fn chapter_at(times: Seq<i64>, p: int) -> int {
    let k = first_after(times, p, 0);
    if k == 0 {
        0
    } else {
        k - 1
    }
}

proof fn first_after_is_near(times: Seq<i64>, p: int, i: int)
    requires
        0 <= i <= times.len(),
    ensures
        i <= first_after(times, p, i) <= times.len(),
    decreases times.len() - i,
{
    if i < times.len() {
        first_after_is_near(times, p, i + 1);
    }
}

fn find_chapter(times: &Vec<i64>, p: i64) -> (r: usize)
    ensures
        r == chapter_at(times@, p as int),
        times@.len() > 0 ==> r < times@.len(),
{
    let mut i: usize = 0;
    while i < times.len() && times[i] <= p
        invariant
            i <= times@.len(),
            first_after(times@, p as int, i as int) == first_after(times@, p as int, 0),
        decreases times@.len() - i,
    {
        i += 1;
    }
    if i == 0 {
        0
    } else {
        i - 1
    }
}

/// A position kept a moment short of the clip's end, where a jump would start
/// over.
pub open spec fn kept_short(t: int, d: Option<i64>) -> int {
    match d {
        Some(d) => {
            let hi = if d > SHORTEST {
                d - SHORTEST
            } else {
                0
            };
            if t < 0 {
                0
            } else if t > hi {
                hi
            } else {
                t
            }
        },
        None => if t < 0 {
            0
        } else {
            t
        },
    }
}

pub(crate) fn keep_short(t: i64, d: Option<i64>) -> (r: i64)
    ensures
        r == kept_short(t as int, d),
{
    match d {
        Some(d) => {
            let hi: i64 = if d > SHORTEST {
                d - SHORTEST
            } else {
                0
            };
            if t < 0 {
                0
            } else if t > hi {
                hi
            } else {
                t
            }
        },
        None => if t < 0 {
            0
        } else {
            t
        },
    }
}

/// What happens to a bar that is there.
pub open spec fn with_bar(s: State, b: BarModel) -> State {
    State { chapters: Some(b), ..s }
}

impl State {
    pub open spec fn bar_open(self) -> bool {
        self.chapters matches Some(b) && b.open
    }

    /// The state after the bar has been sent down.
    pub open spec fn bar_closed(self, now: u64) -> State {
        match self.chapters {
            Some(b) => if b.open {
                with_bar(self, BarModel { open: false, ..b }).woken(now, BAR_WAKE)
            } else {
                self
            },
            None => self,
        }
    }

    /// The duration that the selected stream knows, if it plays `path`.
    pub open spec fn stream_duration(self, path: u64) -> Option<i64> {
        match self.lanes.live_sel {
            Some(l) => if l.path == path {
                l.duration
            } else {
                None
            },
            None => None,
        }
    }

    /// The selected stream plays `path`.
    pub open spec fn streams(self, path: u64) -> bool {
        self.lanes.live_sel matches Some(l) && l.path == path
    }

    /// The chapter that the bar shows as playing, the stream being at `pos`.
    pub open spec fn current_chapter(self, b: BarModel, pos: int) -> Option<int> {
        match b.times {
            Some(ts) => if ts.len() > 0 && self.streams(b.path) {
                let d = usable(either(b.duration, self.stream_duration(b.path)));
                Some(resolved(chapter_at(ts, wrapped(pos, d)), b.nav))
            } else {
                None
            },
            None => None,
        }
    }

    /// The state after a plan has arrived for `path`: a bar that waits for it
    /// takes it over and shows the chapter that is playing; without a chapter
    /// the bar goes down.
    #[verifier::opaque]
    pub open spec fn plan_applied(
        self,
        path: u64,
        times: Seq<i64>,
        duration: Option<i64>,
        pos: int,
        now: u64,
    ) -> State {
        match self.chapters {
            Some(b) => if b.path == path && b.times is None {
                let d = usable(either(duration, b.duration));
                let plan = plan_of(times, d);
                if plan.len() == 0 {
                    self.bar_closed(now).woken(now, BAR_WAKE)
                } else {
                    let c = BarModel {
                        duration: either(d, b.duration),
                        times: Some(plan),
                        ..b
                    };
                    let chapter = match self.current_chapter(c, pos) {
                        Some(k) => k,
                        None => 0,
                    };
                    with_bar(self, c).asked(
                        Effect::CenterChapters { chapter: chapter as usize, snap: true },
                    ).woken(now, BAR_WAKE)
                }
            } else {
                self
            },
            None => self,
        }
    }

    /// The selected clip, where it can be looked into for chapters.
    pub open spec fn chaptered_clip(self) -> Option<u64> {
        match self.selected_clip() {
            Some(c) => if !self.setup.demo && c.readable && !c.cloud {
                Some(c.path)
            } else {
                None
            },
            None => None,
        }
    }

    /// A bar is not to be shown for a moment: the settings give it no time.
    pub open spec fn peekless(self, peek: bool) -> bool {
        peek && self.setup.tuning.chapter_peek == 0
    }

    /// When a bar that is shown for a moment goes down.
    pub open spec fn peek_end(self, peek: bool, now: u64) -> Option<u64> {
        if peek {
            Some(crate::state::soon(now, self.setup.tuning.chapter_peek))
        } else {
            None
        }
    }

    /// The state after a bar that is there has been brought up again. A bar
    /// that stays is not made to go.
    pub open spec fn bar_refreshed(self, peek: bool, until: Option<u64>, now: u64) -> State {
        match self.chapters {
            Some(b) => with_bar(
                self,
                BarModel {
                    open: true,
                    peek_until: if peek && b.peek_until is Some {
                        until
                    } else {
                        None
                    },
                    ..b
                },
            ).woken(now, BAR_WAKE),
            None => self,
        }
    }

    /// The state with a new bar for `path`, which keeps the chapter `nav` as the one
    /// gone to. What is known of its chapters is taken over; what was not asked yet
    /// is asked.
    pub open spec fn bar_started(
        self,
        path: u64,
        until: Option<u64>,
        nav: Option<usize>,
        pos: int,
        now: u64,
    ) -> State {
        let fresh = with_bar(
            self,
            BarModel {
                path,
                duration: self.stream_duration(path),
                times: None,
                open: true,
                peek_until: until,
                nav,
            },
        );
        let t = if self.chapter_probe.contains_key(path) {
            match self.chapter_probe[path] {
                Some(plan) => fresh.plan_applied(path, plan.times@, plan.duration, pos, now),
                None => fresh,
            }
        } else {
            State { chapter_probe: fresh.chapter_probe.insert(path, None), ..fresh }.asked(
                Effect::RequestChapters { path },
            )
        };
        t.woken(now, BAR_WAKE)
    }

    /// The state after the bar has been brought up over the full view, to stay
    /// or for a moment. Where the settings give such a moment no time, only a
    /// bar that stays comes up.
    #[verifier::opaque]
    pub open spec fn bar_opened(self, peek: bool, pos: int, now: u64) -> State {
        match self.chaptered_clip() {
            None => self,
            Some(path) => if self.peekless(peek) {
                self
            } else {
                let s = State {
                    modes: Modes { fullview: true, gone_to: None, ..self.modes },
                    ..self
                };
                let until = self.peek_end(peek, now);
                if self.chapters matches Some(b) && b.path == path {
                    s.bar_refreshed(peek, until, now)
                } else {
                    s.bar_started(path, until, self.nav_on(path), pos, now)
                }
            },
        }
    }

    /// The state after the bar has been toggled.
    #[verifier::opaque]
    pub open spec fn bar_toggled(self, pos: int, now: u64) -> State {
        if self.bar_open() {
            self.bar_closed(now)
        } else {
            self.bar_opened(false, pos, now)
        }
    }

    /// The state after the full view has stepped down to the quick view.
    #[verifier::opaque]
    pub open spec fn stepped_down(self, now: u64) -> State {
        let s = State { chapters: None, ..self };
        let t = if self.modes.quickview {
            State { modes: Modes { fullview: false, gone_to: None, ..self.modes }, ..s }
        } else {
            State {
                modes: Modes {
                    fullview: false,
                    gone_to: None,
                    quickview: true,
                    quickview_at: now,
                    ..self.modes
                },
                ..s
            }.asked(Effect::SnapStrip)
        };
        t.woken(now, 300_000_000)
    }
}


impl State {
    /// A clip's chapters whether or not the bar is up: what the bar shows, else
    /// the answer that is known; none where that is empty.
    pub open spec fn known_chapters(self, path: u64) -> Option<(Seq<i64>, Option<i64>)> {
        match self.chapters {
            Some(b) if b.path == path && b.times is Some => Some((b.times->0, b.duration)),
            _ => if self.chapter_probe.contains_key(path) {
                match self.chapter_probe[path] {
                    Some(plan) => {
                        let d = usable(either(plan.duration, self.stream_duration(path)));
                        let times = plan_of(plan.times@, d);
                        if times.len() > 0 {
                            Some((times, d))
                        } else {
                            None
                        }
                    },
                    None => None,
                }
            } else {
                None
            },
        }
    }

    /// The chapter of `path` last gone to: what its bar keeps, or what is kept
    /// without one.
    pub open spec fn nav_on(self, path: u64) -> Option<usize> {
        match self.chapters {
            Some(b) if b.path == path => b.nav,
            _ => match self.modes.gone_to {
                Some(g) if g.path == path => Some(g.chapter),
                _ => None,
            },
        }
    }

    /// The bar of `path` is up.
    pub open spec fn barred(self, path: u64) -> bool {
        self.chapters matches Some(b) && b.path == path && b.open
    }

    /// The state after the position has been made to flash up.
    pub open spec fn flashed(self, now: u64) -> State {
        State { modes: Modes { skip_flash_at: Some(now), ..self.modes }, ..self }
    }

    /// The state after a jump to chapter `i` of the bar.
    #[verifier::opaque]
    pub open spec fn chapter_sought(self, i: int, now: u64) -> State {
        match self.chapters {
            Some(b) => match b.times {
                Some(ts) => if 0 <= i < ts.len() && self.streams(b.path) {
                    let d = usable(self.lanes.live_sel->0.duration);
                    let to = kept_short(ts[i] as int, d);
                    with_bar(
                        self.asked(Effect::Seek { to: to as i64, exact: false }),
                        BarModel { nav: Some(i as usize), ..b },
                    ).flashed(now).woken(now, FLASH_WAKE)
                } else {
                    self
                },
                None => self,
            },
            None => self,
        }
    }
}

/// The chapter that a step leads to, from chapter `cur` of `times`, the stream
/// being at `pos`: the next one, round the end; or back to the beginning of this
/// one when well into it, else to the one before.
pub open spec fn step_target(times: Seq<i64>, cur: int, pos: int, forward: bool) -> int {
    let n = times.len() as int;
    if forward {
        (cur + 1) % n
    } else if pos - times[cur] > CHAPTER_RESTART {
        cur
    } else {
        (cur + n - 1) % n
    }
}

/// The chapter that a step starts from.
pub open spec fn step_from(times: Seq<i64>, pos: int, nav: Option<usize>) -> int {
    let at = chapter_at(times, pos);
    let cur = resolved(at, nav);
    if cur < times.len() {
        cur
    } else {
        at
    }
}

/// A step starts from a chapter and leads to one.
pub proof fn a_step_leads_to_a_chapter(times: Seq<i64>, pos: int, nav: Option<usize>, forward: bool)
    requires
        times.len() > 0,
    ensures
        0 <= step_from(times, pos, nav) < times.len(),
        0 <= step_target(times, step_from(times, pos, nav), pos, forward) < times.len(),
{
    let n = times.len() as int;
    let cur = step_from(times, pos, nav);
    first_after_is_near(times, pos, 0);
    vstd::arithmetic::div_mod::lemma_mod_bound(cur + 1, n);
    vstd::arithmetic::div_mod::lemma_mod_bound(cur + n - 1, n);
}

impl State {
    /// The state after a step between chapters, the stream being at `pos`. A
    /// clip without known chapters is skipped through instead.
    #[verifier::opaque]
    pub open spec fn chapter_stepped(self, forward: bool, pos: int, now: u64) -> State {
        match self.selected_clip() {
            None => self,
            Some(c) => match self.known_chapters(c.path) {
                None => self.skipped(forward, None, pos, now),
                Some((times, dur)) => if !self.streams(c.path) {
                    self
                } else {
                    let d = usable(either(dur, self.lanes.live_sel->0.duration));
                    let p = wrapped(pos, d);
                    let target = step_target(
                        times,
                        step_from(times, p, self.nav_on(c.path)),
                        p,
                        forward,
                    );
                    let to = kept_short(times[target] as int, d);
                    self.asked(Effect::Seek { to: to as i64, exact: false }).flashed(
                        now,
                    ).bar_opened(true, pos, now).navigated(c.path, target as usize, now)
                },
            },
        }
    }

    /// The state with the bar of a clip pinned to the chapter gone to.
    pub open spec fn step_pinned(self, path: u64, target: usize) -> State {
        match self.chapters {
            Some(b) => if b.path == path {
                let u = with_bar(self, BarModel { nav: Some(target), ..b });
                if b.open && b.times is Some {
                    u.asked(Effect::CenterChapters { chapter: target, snap: false })
                } else {
                    u
                }
            } else {
                self
            },
            None => self,
        }
    }

    /// The state with the chapter gone to kept without a bar, where none is up
    /// because it is to be shown for no time.
    pub open spec fn step_kept(self, path: u64, target: usize) -> State {
        if self.peekless(true) && self.chaptered_clip() == Some(path) && !self.barred(path) {
            State {
                modes: Modes { gone_to: Some(GoneTo { path, chapter: target }), ..self.modes },
                ..self
            }
        } else {
            self
        }
    }

    /// The state with the chapter gone to kept: by the bar of the clip, and without
    /// it where none is up because it is to be shown for no time.
    #[verifier::opaque]
    pub open spec fn navigated(self, path: u64, target: usize, now: u64) -> State {
        self.step_pinned(path, target).step_kept(path, target).woken(now, FLASH_WAKE)
    }

    /// The fraction of the clip that a skip jumps, in billionths.
    pub open spec fn skip_share(self, amount: Option<u32>) -> int {
        let a = match amount {
            Some(a) => a,
            None => self.setup.tuning.skip_fraction,
        };
        if a < 1_000_000 {
            1_000_000
        } else if a > 1_000_000_000 {
            1_000_000_000
        } else {
            a as int
        }
    }

    /// The state after a skip by a fraction of the selected clip, round its
    /// ends, the stream being at `pos`. Without a stream on the selected clip
    /// or without a duration nothing happens.
    #[verifier::opaque]
    pub open spec fn skipped(self, forward: bool, amount: Option<u32>, pos: int, now: u64) -> State {
        match self.selected_clip() {
            None => self,
            Some(c) => if self.streams(c.path) {
                match usable(self.lanes.live_sel->0.duration) {
                    Some(d) => {
                        let step = self.skip_share(amount) * d / 1_000_000_000;
                        let to = (if forward {
                            pos + step
                        } else {
                            pos - step
                        }) % (d as int);
                        self.asked(Effect::Seek { to: to as i64, exact: false }).flashed(
                            now,
                        ).woken(now, FLASH_WAKE)
                    },
                    None => self,
                }
            } else {
                self
            },
        }
    }

    /// The state after the selected stream has been sent to a fraction of its
    /// clip, in billionths.
    #[verifier::opaque]
    pub open spec fn scrubbed(self, share: int, exact: bool, now: u64) -> State {
        match self.selected_clip() {
            None => self,
            Some(c) => if self.streams(c.path) {
                match usable(self.lanes.live_sel->0.duration) {
                    Some(d) => self.asked(
                        Effect::Seek {
                            to: kept_short(share * d / 1_000_000_000, Some(d)) as i64,
                            exact,
                        },
                    ).woken(now, FLASH_WAKE),
                    None => self,
                }
            } else {
                self
            },
        }
    }
}

impl Switchblade {
    /// Sends the chapter bar down.
    pub fn close_chapter_bar(&mut self, now: u64)
        ensures
            final(self)@ == old(self)@.bar_closed(now),
            crate::state::unmoved(old(self)@, final(self)@),
    {
        let was_open: bool = match &self.chapters {
            Some(b) => b.open,
            None => false,
        };
        if !was_open {
            return;
        }
        match self.chapters.take() {
            Some(mut b) => {
                b.open = false;
                self.chapters = Some(b);
            },
            None => {},
        }
        self.wake(now, BAR_WAKE);
    }

    fn stream_length(&self, path: u64) -> (r: Option<i64>)
        ensures
            r == self@.stream_duration(path),
    {
        match self.lanes.live_sel {
            Some(l) => if l.path == path {
                l.duration
            } else {
                None
            },
            None => None,
        }
    }

    fn plays(&self, path: u64) -> (r: bool)
        ensures
            r == self@.streams(path),
    {
        match self.lanes.live_sel {
            Some(l) => l.path == path,
            None => false,
        }
    }

    fn playing_chapter(
        &self,
        times: &Vec<i64>,
        path: u64,
        duration: Option<i64>,
        nav: Option<usize>,
        pos: i64,
    ) -> (r: Option<usize>)
        ensures
            forall|b: BarModel|
                b.times == Some(times@) && b.path == path && b.duration == duration && b.nav == nav
                    ==> match #[trigger] self@.current_chapter(b, pos as int) {
                    Some(k) => r == Some(k as usize) && k >= 0 && k <= usize::MAX,
                    None => r is None,
                },
    {
        if times.len() == 0 || !self.plays(path) {
            return None;
        }
        let d: Option<i64> = usable_duration(either_of(duration, self.stream_length(path)));
        let p: i64 = wrap_position(pos, d);
        let at: usize = find_chapter(times, p);
        Some(resolve_chapter(at, nav))
    }

    /// The chapter that the bar shows as playing, the stream being at `pos`.
    pub fn current_chapter(&self, pos: i64) -> (r: Option<usize>)
        ensures
            match self@.chapters {
                Some(b) => match self@.current_chapter(b, pos as int) {
                    Some(k) => r == Some(k as usize) && k >= 0 && k <= usize::MAX,
                    None => r is None,
                },
                None => r is None,
            },
    {
        match &self.chapters {
            Some(b) => match &b.times {
                Some(ts) => self.playing_chapter(ts, b.path, b.duration, b.nav, pos),
                None => None,
            },
            None => None,
        }
    }

    /// Takes a plan over into the bar that waits for it.
    pub fn apply_chapter_plan(
        &mut self,
        path: u64,
        times: &Vec<i64>,
        duration: Option<i64>,
        pos: i64,
        now: u64,
    )
        ensures
            final(self)@ == old(self)@.plan_applied(path, times@, duration, pos as int, now),
            crate::state::unmoved(old(self)@, final(self)@),
    {
        proof {
            reveal(State::plan_applied);
        }
        let applies: bool = match &self.chapters {
            Some(b) => b.path == path && b.times.is_none(),
            None => false,
        };
        if !applies {
            return;
        }
        let known: Option<i64> = match &self.chapters {
            Some(b) => b.duration,
            None => None,
        };
        let nav: Option<usize> = match &self.chapters {
            Some(b) => b.nav,
            None => None,
        };
        let d: Option<i64> = usable_duration(either_of(duration, known));
        let plan = plan_times(times, d);
        if plan.len() == 0 {
            self.close_chapter_bar(now);
            self.wake(now, BAR_WAKE);
            return;
        }
        let length: Option<i64> = either_of(d, known);
        let chapter: usize = match self.playing_chapter(&plan, path, length, nav, pos) {
            Some(k) => k,
            None => 0,
        };
        proof {
            let b = self@.chapters->0;
            let c = BarModel { duration: length, times: Some(plan@), ..b };
            assert(self@.current_chapter(c, pos as int) is Some || self@.current_chapter(
                c,
                pos as int,
            ) is None);
        }
        match self.chapters.take() {
            Some(mut b) => {
                b.duration = length;
                b.times = Some(plan);
                self.chapters = Some(b);
            },
            None => {},
        }
        self.ask(Effect::CenterChapters { chapter, snap: true });
        self.wake(now, BAR_WAKE);
    }

    fn chapterable(&self) -> (r: Option<u64>)
        ensures
            r == self@.chaptered_clip(),
    {
        if self.refs.selected >= self.clips.len() {
            return None;
        }
        let c: Clip = self.clips[self.refs.selected];
        if !self.setup.demo && c.readable && !c.cloud {
            Some(c.path)
        } else {
            None
        }
    }

    fn refresh_bar(&mut self, peek: bool, until: Option<u64>, now: u64)
        ensures
            final(self)@ == old(self)@.bar_refreshed(peek, until, now),
            crate::state::unmoved(old(self)@, final(self)@),
    {
        match self.chapters.take() {
            Some(mut b) => {
                b.open = true;
                b.peek_until = if peek && b.peek_until.is_some() {
                    until
                } else {
                    None
                };
                self.chapters = Some(b);
                self.wake(now, BAR_WAKE);
            },
            None => {},
        }
    }

    fn start_bar(
        &mut self,
        path: u64,
        until: Option<u64>,
        nav: Option<usize>,
        pos: i64,
        now: u64,
    )
        ensures
            final(self)@ == old(self)@.bar_started(path, until, nav, pos as int, now),
            crate::state::unmoved(old(self)@, final(self)@),
    {
        let duration: Option<i64> = self.stream_length(path);
        let answer: Option<Option<(Vec<i64>, Option<i64>)>> = self.known_plan(path);
        self.chapters = Some(
            ChapterBar { path, duration, times: None, open: true, peek_until: until, nav },
        );
        match answer {
            Some(Some((times, d))) => {
                self.apply_chapter_plan(path, &times, d, pos, now);
            },
            Some(None) => {},
            None => {
                self.chapter_probe.insert(path, None);
                self.ask(Effect::RequestChapters { path });
            },
        }
        self.wake(now, BAR_WAKE);
    }

    fn known_plan(&self, path: u64) -> (r: Option<Option<(Vec<i64>, Option<i64>)>>)
        ensures
            r is Some <==> self@.chapter_probe.contains_key(path),
            r matches Some(e) ==> match e {
                Some((times, d)) => self@.chapter_probe[path] matches Some(plan) && times@
                    == plan.times@ && d == plan.duration,
                None => self@.chapter_probe[path] is None,
            },
    {
        match self.chapter_probe.get(&path) {
            Some(e) => match e {
                Some(plan) => Some(Some((copy_times(&plan.times), plan.duration))),
                None => Some(None),
            },
            None => None,
        }
    }

    fn gone_on(&self, path: u64) -> (r: Option<usize>)
        ensures
            r == self@.nav_on(path),
    {
        match &self.chapters {
            Some(b) => {
                if b.path == path {
                    return b.nav;
                }
            },
            None => {},
        }
        match self.modes.gone_to {
            Some(g) => if g.path == path {
                Some(g.chapter)
            } else {
                None
            },
            None => None,
        }
    }

    /// Brings the chapter bar up over the full view, to stay or, with `peek`,
    /// for as long as the settings say, which may be not at all.
    pub fn open_chapter_bar(&mut self, peek: bool, pos: i64, now: u64)
        ensures
            final(self)@ == old(self)@.bar_opened(peek, pos as int, now),
            crate::state::unmoved(old(self)@, final(self)@),
    {
        proof {
            reveal(State::bar_opened);
        }
        let path: u64 = match self.chapterable() {
            Some(p) => p,
            None => {
                return;
            },
        };
        if peek && self.setup.tuning.chapter_peek == 0 {
            return;
        }
        let until: Option<u64> = if peek {
            let ns: u64 = self.setup.tuning.chapter_peek;
            Some(
                if now > u64::MAX - ns {
                    u64::MAX
                } else {
                    now + ns
                },
            )
        } else {
            None
        };
        let nav: Option<usize> = self.gone_on(path);
        self.modes.fullview = true;
        self.modes.gone_to = None;
        let same: bool = match &self.chapters {
            Some(b) => b.path == path,
            None => false,
        };
        if same {
            self.refresh_bar(peek, until, now);
        } else {
            self.start_bar(path, until, nav, pos, now);
        }
    }

    /// How many chapters can be picked from the bar: those it shows while it is up.
    pub fn pickable_chapters(&self) -> (n: usize)
        ensures
            n == (match self@.chapters {
                Some(b) if b.open && b.times is Some => b.times->0.len() as int,
                _ => 0,
            }),
    {
        match &self.chapters {
            Some(b) => {
                if b.open {
                    match &b.times {
                        Some(ts) => ts.len(),
                        None => 0,
                    }
                } else {
                    0
                }
            },
            None => 0,
        }
    }

    /// Toggles the chapter bar.
    pub fn toggle_chapters(&mut self, pos: i64, now: u64)
        ensures
            final(self)@ == old(self)@.bar_toggled(pos as int, now),
            crate::state::unmoved(old(self)@, final(self)@),
    {
        proof {
            reveal(State::bar_toggled);
        }
        let is_open: bool = match &self.chapters {
            Some(b) => b.open,
            None => false,
        };
        if is_open {
            self.close_chapter_bar(now);
        } else {
            self.open_chapter_bar(false, pos, now);
        }
    }

    /// Steps from the full view down to the quick view.
    pub fn to_quickview(&mut self, now: u64)
        ensures
            final(self)@ == old(self)@.stepped_down(now),
            crate::state::unmoved(old(self)@, final(self)@),
    {
        proof {
            reveal(State::stepped_down);
        }
        self.chapters = None;
        self.modes.gone_to = None;
        self.modes.fullview = false;
        if !self.modes.quickview {
            self.modes.quickview = true;
            self.modes.quickview_at = now;
            self.ask(Effect::SnapStrip);
        }
        self.wake(now, 300_000_000);
    }
}


impl Switchblade {
    /// Jumps to chapter `i` of the bar.
    pub fn chapter_seek(&mut self, i: usize, now: u64)
        ensures
            final(self)@ == old(self)@.chapter_sought(i as int, now),
            crate::state::unmoved(old(self)@, final(self)@),
    {
        proof {
            reveal(State::chapter_sought);
        }
        let start: Option<(u64, i64)> = match &self.chapters {
            Some(b) => match &b.times {
                Some(ts) => if i < ts.len() {
                    Some((b.path, ts[i]))
                } else {
                    None
                },
                None => None,
            },
            None => None,
        };
        let (path, t) = match start {
            Some(s) => s,
            None => {
                return;
            },
        };
        let length: Option<i64> = match self.lanes.live_sel {
            Some(l) => {
                if l.path != path {
                    return;
                }
                l.duration
            },
            None => {
                return;
            },
        };
        let to: i64 = keep_short(t, usable_duration(length));
        self.ask(Effect::Seek { to, exact: false });
        self.set_nav(i);
        self.modes.skip_flash_at = Some(now);
        self.wake(now, FLASH_WAKE);
    }

    fn set_nav(&mut self, i: usize)
        ensures
            final(self)@ == (match old(self)@.chapters {
                Some(b) => with_bar(old(self)@, BarModel { nav: Some(i), ..b }),
                None => old(self)@,
            }),
    {
        match self.chapters.take() {
            Some(mut b) => {
                b.nav = Some(i);
                self.chapters = Some(b);
            },
            None => {},
        }
    }

    /// Jumps by a fraction of the selected clip, in billionths; without one, by
    /// the configured fraction. `pos` is where its stream is.
    pub fn skip(&mut self, forward: bool, amount: Option<u32>, pos: i64, now: u64)
        ensures
            final(self)@ == old(self)@.skipped(forward, amount, pos as int, now),
            crate::state::unmoved(old(self)@, final(self)@),
    {
        proof {
            reveal(State::skipped);
        }
        let d: i64 = match self.selected_length() {
            Some(d) => d,
            None => {
                return;
            },
        };
        let a: u32 = match amount {
            Some(a) => a,
            None => self.setup.tuning.skip_fraction,
        };
        let share: i128 = if a < 1_000_000 {
            1_000_000
        } else if a > 1_000_000_000 {
            1_000_000_000
        } else {
            a as i128
        };
        proof {
            share_fits(share as int, d as int);
        }
        let step: i128 = share * (d as i128) / 1_000_000_000;
        let to: i64 = if forward {
            rem(pos as i128 + step, d)
        } else {
            rem(pos as i128 - step, d)
        };
        self.ask(Effect::Seek { to, exact: false });
        self.modes.skip_flash_at = Some(now);
        self.wake(now, FLASH_WAKE);
    }

    /// The duration of the selected clip, where its stream plays and knows it.
    fn selected_length(&self) -> (r: Option<i64>)
        ensures
            r == (match self@.selected_clip() {
                Some(c) => if self@.streams(c.path) {
                    usable(self@.lanes.live_sel->0.duration)
                } else {
                    None
                },
                None => None,
            }),
    {
        if self.refs.selected >= self.clips.len() {
            return None;
        }
        let path: u64 = self.clips[self.refs.selected].path;
        match self.lanes.live_sel {
            Some(l) => if l.path == path {
                usable_duration(l.duration)
            } else {
                None
            },
            None => None,
        }
    }

    /// Sends the selected stream to a fraction of its clip, in billionths.
    pub fn scrub_seek(&mut self, share: u32, exact: bool, now: u64)
        requires
            share <= 1_000_000_000,
        ensures
            final(self)@ == old(self)@.scrubbed(share as int, exact, now),
            crate::state::unmoved(old(self)@, final(self)@),
    {
        proof {
            reveal(State::scrubbed);
        }
        let d: i64 = match self.selected_length() {
            Some(d) => d,
            None => {
                return;
            },
        };
        proof {
            share_fits(share as int, d as int);
        }
        let t: i128 = (share as i128) * (d as i128) / 1_000_000_000;
        let to: i64 = keep_short(t as i64, Some(d));
        self.ask(Effect::Seek { to, exact });
        self.wake(now, FLASH_WAKE);
    }

    fn plan_for(&self, path: u64) -> (r: Option<(Vec<i64>, Option<i64>)>)
        ensures
            match r {
                Some((times, d)) => self@.known_chapters(path) == Some((times@, d)) && (
                self@.chapters matches Some(b) && b.path == path && b.times is Some || times@.len()
                    > 0),
                None => self@.known_chapters(path) is None,
            },
    {
        match &self.chapters {
            Some(b) => {
                if b.path == path {
                    match &b.times {
                        Some(ts) => {
                            return Some((copy_times(ts), b.duration));
                        },
                        None => {},
                    }
                }
            },
            None => {},
        }
        match self.known_plan(path) {
            Some(Some((times, d))) => {
                let length: Option<i64> = usable_duration(
                    either_of(d, self.stream_length(path)),
                );
                let plan = plan_times(&times, length);
                if plan.len() > 0 {
                    Some((plan, length))
                } else {
                    None
                }
            },
            _ => None,
        }
    }

    /// Steps between the chapters of the selected clip, whose stream is at
    /// `pos`; without known chapters, skips.
    #[verifier::rlimit(40)]
    pub fn chapter_step(&mut self, forward: bool, pos: i64, now: u64)
        requires
            old(self)@.bar_wf(),
        ensures
            final(self)@ == old(self)@.chapter_stepped(forward, pos as int, now),
            crate::state::unmoved(old(self)@, final(self)@),
    {
        proof {
            reveal(State::chapter_stepped);
        }
        if self.refs.selected >= self.clips.len() {
            return;
        }
        let path: u64 = self.clips[self.refs.selected].path;
        let (times, dur) = match self.plan_for(path) {
            Some(p) => p,
            None => {
                self.skip(forward, None, pos, now);
                return;
            },
        };
        let length: Option<i64> = match self.lanes.live_sel {
            Some(l) => {
                if l.path != path {
                    return;
                }
                l.duration
            },
            None => {
                return;
            },
        };
        let d: Option<i64> = usable_duration(either_of(dur, length));
        let nav: Option<usize> = self.gone_on(path);
        let target: usize = step_to(&times, wrap_position(pos, d), nav, forward);
        let to: i64 = keep_short(times[target], d);
        self.ask(Effect::Seek { to, exact: false });
        self.modes.skip_flash_at = Some(now);
        self.open_chapter_bar(true, pos, now);
        self.show_step(path, target, now);
    }

    fn show_step(&mut self, path: u64, target: usize, now: u64)
        ensures
            final(self)@ == old(self)@.navigated(path, target, now),
            crate::state::unmoved(old(self)@, final(self)@),
    {
        proof {
            reveal(State::navigated);
        }
        self.pin_step(path, target);
        self.keep_step(path, target);
        self.wake(now, FLASH_WAKE);
    }

    fn keep_step(&mut self, path: u64, target: usize)
        ensures
            final(self)@ == old(self)@.step_kept(path, target),
            crate::state::unmoved(old(self)@, final(self)@),
    {
        let up: bool = match &self.chapters {
            Some(b) => b.path == path && b.open,
            None => false,
        };
        if self.setup.tuning.chapter_peek == 0 && !up {
            match self.chapterable() {
                Some(p) => {
                    if p == path {
                        self.modes.gone_to = Some(GoneTo { path, chapter: target });
                    }
                },
                None => {},
            }
        }
    }

    fn pin_step(&mut self, path: u64, target: usize)
        ensures
            final(self)@ == old(self)@.step_pinned(path, target),
            crate::state::unmoved(old(self)@, final(self)@),
    {
        let state: Option<(bool, bool)> = match &self.chapters {
            Some(b) => if b.path == path {
                Some((b.open, b.times.is_some()))
            } else {
                None
            },
            None => None,
        };
        match state {
            Some((is_open, planned)) => {
                self.set_nav(target);
                if is_open && planned {
                    self.ask(Effect::CenterChapters { chapter: target, snap: false });
                }
            },
            None => {},
        }
    }
}

fn step_to(times: &Vec<i64>, p: i64, nav: Option<usize>, forward: bool) -> (r: usize)
    requires
        times@.len() > 0,
    ensures
        r == step_target(times@, step_from(times@, p as int, nav), p as int, forward),
        r < times@.len(),
{
    let n: usize = times.len();
    let at: usize = find_chapter(times, p);
    let c: usize = resolve_chapter(at, nav);
    let cur: usize = if c < n {
        c
    } else {
        at
    };
    if forward {
        if cur + 1 < n {
            proof {
                vstd::arithmetic::div_mod::lemma_small_mod((cur + 1) as nat, n as nat);
            }
            cur + 1
        } else {
            proof {
                vstd::arithmetic::div_mod::lemma_mod_self_0(n as int);
            }
            0
        }
    } else if (p as i128) - (times[cur] as i128) > CHAPTER_RESTART as i128 {
        cur
    } else if cur == 0 {
        assert((cur + n - 1) % (n as int) == n - 1) by {
            vstd::arithmetic::div_mod::lemma_small_mod((n - 1) as nat, n as nat);
        }
        n - 1
    } else {
        assert((cur + n - 1) % (n as int) == cur - 1) by {
            vstd::arithmetic::div_mod::lemma_fundamental_div_mod_converse(
                cur + n - 1,
                n as int,
                1,
                cur - 1,
            );
        }
        cur - 1
    }
}

proof fn share_fits(share: int, d: int)
    requires
        0 <= share <= 1_000_000_000,
        0 <= d <= i64::MAX,
    ensures
        0 <= share * d <= 10_000_000_000_000_000_000_000_000_000,
        0 <= share * d / 1_000_000_000 <= d,
{
    assert(0 <= share * d <= 1_000_000_000 * d) by (nonlinear_arith)
        requires
            0 <= share <= 1_000_000_000,
            0 <= d,
    ;
}

/// Stepping forward through all chapters comes back to where it began, and a
/// step back undoes a step forward where the step back does not restart the
/// chapter.
pub proof fn steps_go_round(times: Seq<i64>, cur: int, pos: int)
    requires
        0 <= cur < times.len(),
    ensures
        ({
            let next = step_target(times, cur, pos, true);
            &&& 0 <= next < times.len()
            &&& cur + 1 == times.len() ==> next == 0
            &&& pos - times[next] <= CHAPTER_RESTART ==> step_target(times, next, pos, false)
                == cur
        }),
{
    let n = times.len() as int;
    let next = step_target(times, cur, pos, true);
    if cur + 1 == n {
        vstd::arithmetic::div_mod::lemma_mod_self_0(n);
        vstd::arithmetic::div_mod::lemma_small_mod((n - 1) as nat, n as nat);
    } else {
        vstd::arithmetic::div_mod::lemma_small_mod((cur + 1) as nat, n as nat);
        vstd::arithmetic::div_mod::lemma_fundamental_div_mod_converse(cur + 1 + n - 1, n, 1, cur);
    }
}

} // verus!
