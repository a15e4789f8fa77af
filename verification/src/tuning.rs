//! The settings that steer the library's decisions, and the watch on the file
//! that they come from.
//!
//! Lengths of time are in nanoseconds, fractions of a clip in billionths.

use vstd::prelude::*;

use crate::text;

verus! {

/// How much moves. Each level includes everything below it: `Still` snaps
/// everything and plays nothing, `Minimal` has the interface's tweens,
/// `Normal` has live video too.
#[derive(Clone, Copy, PartialEq, Eq, Structural, Debug)]
pub enum AnimLevel {
    Still,
    Minimal,
    Normal,
}

/// The level that a name stands for. `full` is an older name of `normal`.
pub open spec fn anim_level_named(s: Seq<char>) -> Option<AnimLevel> {
    if s == "none"@ {
        Some(AnimLevel::Still)
    } else if s == "minimal"@ {
        Some(AnimLevel::Minimal)
    } else if s == "normal"@ || s == "full"@ {
        Some(AnimLevel::Normal)
    } else {
        None
    }
}

impl AnimLevel {
    /// The level's place in the order `Still`, `Minimal`, `Normal`.
    pub open spec fn rank(self) -> nat {
        match self {
            AnimLevel::Still => 0,
            AnimLevel::Minimal => 1,
            AnimLevel::Normal => 2,
        }
    }

    /// The interface's tweens: camera glides, springs, fades. Off means snap.
    pub fn ui(self) -> (r: bool)
        ensures
            r == (self.rank() >= AnimLevel::Minimal.rank()),
    {
        !matches!(self, AnimLevel::Still)
    }

    /// Live video: the selected stream and the hovered tiles.
    pub fn live(self) -> (r: bool)
        ensures
            r == (self.rank() >= AnimLevel::Normal.rank()),
    {
        matches!(self, AnimLevel::Normal)
    }

    /// The level that `s` names, if it names one.
    pub fn parse(s: &str) -> (r: Option<Self>)
        ensures
            r == anim_level_named(s@),
    {
        if text::same(s, "none") {
            Some(AnimLevel::Still)
        } else if text::same(s, "minimal") {
            Some(AnimLevel::Minimal)
        } else if text::same(s, "normal") || text::same(s, "full") {
            Some(AnimLevel::Normal)
        } else {
            None
        }
    }
}

/// How the grid lays tiles out: rows of true-aspect tiles that span the
/// window, or a uniform grid.
#[derive(Clone, Copy, PartialEq, Eq, Structural, Debug)]
pub enum GridStyle {
    Fixed,
    Flexible,
}

/// The layout that a name or one of its aliases stands for.
pub open spec fn grid_style_named(s: Seq<char>) -> Option<GridStyle> {
    if s == "fixed"@ || s == "square"@ {
        Some(GridStyle::Fixed)
    } else if s == "flexible"@ || s == "variable"@ || s == "mosaic"@ {
        Some(GridStyle::Flexible)
    } else {
        None
    }
}

impl GridStyle {
    /// The layout that `s` names, if it names one.
    pub fn parse(s: &str) -> (r: Option<Self>)
        ensures
            r == grid_style_named(s@),
    {
        if text::same(s, "fixed") || text::same(s, "square") {
            Some(GridStyle::Fixed)
        } else if text::same(s, "flexible") || text::same(s, "variable") || text::same(
            s,
            "mosaic",
        ) {
            Some(GridStyle::Flexible)
        } else {
            None
        }
    }
}

/// The grid's gesture model. `Classic`: the selection plays, a click selects,
/// a click on the selection opens it. `Attention`: one stream follows the
/// hovered tile or the selection, whichever was used last, and a click on any
/// tile opens it.
#[derive(Clone, Copy, PartialEq, Eq, Structural, Debug)]
pub enum Interaction {
    Classic,
    Attention,
}

/// The gesture model that a name stands for.
pub open spec fn interaction_named(s: Seq<char>) -> Option<Interaction> {
    if s == "classic"@ {
        Some(Interaction::Classic)
    } else if s == "attention"@ {
        Some(Interaction::Attention)
    } else {
        None
    }
}

impl Interaction {
    /// The gesture model that `s` names, if it names one.
    pub fn parse(s: &str) -> (r: Option<Self>)
        ensures
            r == interaction_named(s@),
    {
        if text::same(s, "classic") {
            Some(Interaction::Classic)
        } else if text::same(s, "attention") {
            Some(Interaction::Attention)
        } else {
            None
        }
    }
}

/// What a modal view draws behind its video: the frosted grid, or an opaque
/// stage that hides it.
#[derive(Clone, Copy, PartialEq, Eq, Structural, Debug)]
pub enum BackdropStyle {
    Blur,
    Flat,
}

/// The backdrop that a name stands for.
pub open spec fn backdrop_named(s: Seq<char>) -> Option<BackdropStyle> {
    if s == "blur"@ {
        Some(BackdropStyle::Blur)
    } else if s == "flat"@ {
        Some(BackdropStyle::Flat)
    } else {
        None
    }
}

impl BackdropStyle {
    /// The backdrop that `s` names, if it names one.
    pub fn parse(s: &str) -> (r: Option<Self>)
        ensures
            r == backdrop_named(s@),
    {
        if text::same(s, "blur") {
            Some(BackdropStyle::Blur)
        } else if text::same(s, "flat") {
            Some(BackdropStyle::Flat)
        } else {
            None
        }
    }
}

/// The order in which arrivals enter the grid: as they come, or by creation
/// date.
#[derive(Clone, Copy, PartialEq, Eq, Structural, Debug)]
pub enum SortMode {
    Arrival,
    Newest,
    Oldest,
}

/// The order that a name stands for.
pub open spec fn sort_mode_named(s: Seq<char>) -> Option<SortMode> {
    if s == "none"@ {
        Some(SortMode::Arrival)
    } else if s == "newest"@ {
        Some(SortMode::Newest)
    } else if s == "oldest"@ {
        Some(SortMode::Oldest)
    } else {
        None
    }
}

impl SortMode {
    /// The order that `s` names, if it names one.
    pub fn parse(s: &str) -> (r: Option<Self>)
        ensures
            r == sort_mode_named(s@),
    {
        if text::same(s, "none") {
            Some(SortMode::Arrival)
        } else if text::same(s, "newest") {
            Some(SortMode::Newest)
        } else if text::same(s, "oldest") {
            Some(SortMode::Oldest)
        } else {
            None
        }
    }
}

/// The settings that the library's decisions read. What only shapes the
/// drawing (sizes, colours, spring strengths) belongs to whoever draws.
#[derive(Clone, Copy, PartialEq, Eq, Structural, Debug)]
pub struct Tuning {
    pub animation: AnimLevel,
    pub grid_layout: GridStyle,
    /// Play nothing while the window is unfocused.
    pub pause_unfocused: bool,
    /// Walk directories given as inputs.
    pub recurse: bool,
    /// Refuse files that cannot be video, at the door and after a failed
    /// extraction.
    pub gatekeeper: bool,
    pub sort: SortMode,
    /// Slide tiles across row boundaries when a zoom repacks the rows.
    pub zoom_wrap: bool,
    pub zoom_wrap_time: u64,
    /// Let a pinch hold the strip of tiles by the one under the fingers.
    pub zoom_ribbon: bool,
    pub zoom_ribbon_release: u64,
    /// Crossfade when the number of columns changes.
    pub zoom_fade: u64,
    /// How long the selection must rest before its video starts.
    pub live_delay: u64,
    pub interaction: Interaction,
    /// How long a hover must rest before it draws the attention stream.
    pub attention_delay: u64,
    pub skip_fraction: u32,
    /// Where in a clip its thumbnail is taken, in billionths of it.
    pub thumb_seek_fraction: u32,
    pub auto_skip: u64,
    pub thumb_width: u32,
    pub thumb_height: u32,
    /// From 1 (heavily compressed) to 10 (best).
    pub thumb_quality: u8,
    /// Side of the square grid of frames on a storyboard sheet.
    pub anim_grid: u32,
    pub atlas_width: u32,
    pub atlas_height: u32,
    pub quickview_max_width: u32,
    pub quickview_max_height: u32,
    pub seekbar_hide: u64,
    pub seekbar_fade: u64,
    /// A storyboard frame is shown while the pointer is on the seekbar.
    pub seekbar_preview: bool,
    /// Scrolling the filmstrip moves the selection with it.
    pub strip_scroll_selects: bool,
    /// How long a step between chapters shows the chapter bar; zero for not
    /// at all.
    pub chapter_peek: u64,
    pub quickview_backdrop: BackdropStyle,
    pub fullview_backdrop: BackdropStyle,
}

/// One millisecond.
pub const MILLISECOND: u64 = 1_000_000;

/// The settings that apply where no configuration says otherwise.
pub open spec fn default_tuning() -> Tuning {
    Tuning {
        animation: AnimLevel::Normal,
        grid_layout: GridStyle::Flexible,
        pause_unfocused: true,
        recurse: true,
        gatekeeper: true,
        sort: SortMode::Arrival,
        zoom_wrap: true,
        zoom_wrap_time: 320_000_000,
        zoom_ribbon: true,
        zoom_ribbon_release: 160_000_000,
        zoom_fade: 180_000_000,
        live_delay: 100_000_000,
        interaction: Interaction::Classic,
        attention_delay: 250_000_000,
        skip_fraction: 100_000_000,
        thumb_seek_fraction: 100_000_000,
        auto_skip: 5_000_000_000,
        thumb_width: 640,
        thumb_height: 360,
        thumb_quality: 7,
        anim_grid: 3,
        atlas_width: 7680,
        atlas_height: 4320,
        quickview_max_width: 1920,
        quickview_max_height: 1080,
        seekbar_hide: 1_000_000_000,
        seekbar_fade: 250_000_000,
        seekbar_preview: true,
        strip_scroll_selects: true,
        chapter_peek: 2_500_000_000,
        quickview_backdrop: BackdropStyle::Blur,
        fullview_backdrop: BackdropStyle::Flat,
    }
}

impl Default for Tuning {
    fn default() -> (t: Self)
        ensures
            t == default_tuning(),
    {
        Tuning {
            animation: AnimLevel::Normal,
            grid_layout: GridStyle::Flexible,
            pause_unfocused: true,
            recurse: true,
            gatekeeper: true,
            sort: SortMode::Arrival,
            zoom_wrap: true,
            zoom_wrap_time: 320_000_000,
            zoom_ribbon: true,
            zoom_ribbon_release: 160_000_000,
            zoom_fade: 180_000_000,
            live_delay: 100_000_000,
            interaction: Interaction::Classic,
            attention_delay: 250_000_000,
            skip_fraction: 100_000_000,
            thumb_seek_fraction: 100_000_000,
            auto_skip: 5_000_000_000,
            thumb_width: 640,
            thumb_height: 360,
            thumb_quality: 7,
            anim_grid: 3,
            atlas_width: 7680,
            atlas_height: 4320,
            quickview_max_width: 1920,
            quickview_max_height: 1080,
            seekbar_hide: 1_000_000_000,
            seekbar_fade: 250_000_000,
            seekbar_preview: true,
            strip_scroll_selects: true,
            chapter_peek: 2_500_000_000,
            quickview_backdrop: BackdropStyle::Blur,
            fullview_backdrop: BackdropStyle::Flat,
        }
    }
}

/// How often the configuration file is looked at, at most.
pub const POLL_INTERVAL: i128 = 250_000_000;

/// How far back a fresh watch dates its last look.
pub const BACKDATE: i128 = 1_000_000_000;

/// A watch on a configuration file: when it was last looked at, and the
/// modification time that was seen then.
pub struct TuningFile {
    pub path: String,
    pub last_check: i128,
    pub last_mtime: Option<i128>,
}

impl TuningFile {
    /// A watch on `path` that has seen nothing yet and is due at once.
    pub fn new(path: String, now: u64) -> (f: Self)
        ensures
            f.path == path,
            f.last_check == now - BACKDATE,
            f.last_mtime is None,
    {
        TuningFile { path, last_check: now as i128 - BACKDATE, last_mtime: None }
    }

    /// Whether it is time to look at the file again; if so, the look is
    /// counted as made at `now`.
    pub fn due(&mut self, now: u64) -> (r: bool)
        ensures
            r == (now - old(self).last_check >= POLL_INTERVAL),
            final(self).path == old(self).path,
            final(self).last_mtime == old(self).last_mtime,
            final(self).last_check == (if r {
                now as i128
            } else {
                old(self).last_check
            }),
    {
        // A look dated near the end of time leaves no later moment to be due.
        if self.last_check > i128::MAX - POLL_INTERVAL {
            return false;
        }
        if (now as i128) < self.last_check + POLL_INTERVAL {
            return false;
        }
        self.last_check = now as i128;
        true
    }

    /// Whether the modification time found now calls for loading the file:
    /// it differs from the one seen before, and is remembered. A missing file
    /// has no modification time.
    pub fn poll(&mut self, mtime: Option<i128>) -> (r: bool)
        ensures
            r == (mtime != old(self).last_mtime),
            final(self).last_mtime == mtime,
            final(self).path == old(self).path,
            final(self).last_check == old(self).last_check,
    {
        let same: bool = match (mtime, self.last_mtime) {
            (Some(a), Some(b)) => a == b,
            (None, None) => true,
            _ => false,
        };
        self.last_mtime = mtime;
        !same
    }
}

/// A fresh watch is due at once; once it has looked, it is not due again
/// before the interval has passed.
pub proof fn fresh_watch_is_due(now: u64, later: u64, last_check: i128)
    requires
        last_check == now - BACKDATE,
        now <= later < now + POLL_INTERVAL,
    ensures
        now - last_check >= POLL_INTERVAL,
        !(later - (now as i128) >= POLL_INTERVAL),
{
}


/// Where a configuration is looked for, the first that exists counting: in the
/// working directory, then in the user's configuration directory, which is the
/// given one, else the one below the home directory.
pub open spec fn config_places(config: Option<Seq<char>>, home: Option<Seq<char>>) -> Seq<Seq<char>> {
    let dir = match config {
        Some(d) => Some(d),
        None => match home {
            Some(h) => Some(crate::text::joined_path(h, ".config"@)),
            None => None,
        },
    };
    match dir {
        Some(d) => seq![
            "switchblade.toml"@,
            crate::text::joined_path(d, "switchblade.toml"@),
            crate::text::joined_path(d, "switchblade/config.toml"@),
        ],
        None => seq!["switchblade.toml"@],
    }
}

/// Where a configuration is looked for.
pub fn config_candidates(config: Option<&str>, home: Option<&str>) -> (v: Vec<String>)
    ensures
        crate::commands::texts(v@) == config_places(
            crate::commands::opt_text(config),
            crate::commands::opt_text(home),
        ),
        v@.len() >= 1,
{
    let dir: Option<String> = match config {
        Some(d) => Some(d.to_owned()),
        None => match home {
            Some(h) => Some(text::join_path(h, ".config")),
            None => None,
        },
    };
    let mut v: Vec<String> = Vec::new();
    v.push("switchblade.toml".to_owned());
    match dir {
        Some(d) => {
            v.push(text::join_path(d.as_str(), "switchblade.toml"));
            v.push(text::join_path(d.as_str(), "switchblade/config.toml"));
        },
        None => {},
    }
    assert(crate::commands::texts(v@) =~= config_places(
        crate::commands::opt_text(config),
        crate::commands::opt_text(home),
    ));
    v
}

/// The first of the places from `k` on that exists, else the first of all.
pub open spec fn first_there(there: Seq<bool>, k: int) -> int
    decreases there.len() - k,
{
    if k < 0 || k >= there.len() {
        0
    } else if there[k] {
        k
    } else {
        first_there(there, k + 1)
    }
}

/// The configuration's place among those looked at: the first that exists, else
/// the first of all, where one may yet be created.
pub fn config_choice(there: &Vec<bool>) -> (r: usize)
    ensures
        r == first_there(there@, 0),
        there@.len() > 0 ==> r < there@.len(),
{
    let mut k: usize = 0;
    while k < there.len()
        invariant
            k <= there@.len(),
            first_there(there@, k as int) == first_there(there@, 0),
        decreases there@.len() - k,
    {
        if there[k] {
            return k;
        }
        k += 1;
    }
    0
}

} // verus!
