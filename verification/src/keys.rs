//! What the keys do.

use vstd::prelude::*;

use crate::commands::{Action, ActionModel, Key};
use crate::grid::Layout;
use crate::model::{Effect, ZoomStep};
use crate::select::SETTLE_WAKE;
use crate::state::{Modes, State, Switchblade};

verus! {

/// What a key needs to know of the world: where the selected stream is, whether
/// the selected clip's path names a directory, and a random number.
#[derive(Clone, Copy, PartialEq, Eq, Structural, Debug)]
pub struct Surroundings {
    pub pos: i64,
    pub has_dir: bool,
    pub seed: u64,
}

impl State {
    /// A chapter bar is up to stay.
    pub open spec fn bar_stays(self) -> bool {
        self.chapters matches Some(b) && b.open && b.peek_until is None
    }

    /// Escape has a layer to take away.
    pub open spec fn layered(self) -> bool {
        self.bar_stays() || self.modes.fullview || self.modes.quickview || !self.marked.is_empty()
    }

    /// The state after Escape has taken the uppermost layer away: a bar that
    /// stays, the full view and a bar that does not, the quick view, the marks.
    #[verifier::opaque]
    pub open spec fn peeled(self, now: u64) -> State {
        if self.bar_stays() {
            self.bar_closed(now)
        } else if self.modes.fullview {
            State {
                chapters: None,
                modes: Modes { fullview: false, gone_to: None, ..self.modes },
                ..self
            }
        } else if self.modes.quickview {
            State { modes: Modes { quickview: false, ..self.modes }, ..self }
        } else {
            State { marked: Set::empty(), ..self }.woken(now, 300_000_000)
        }
    }

    /// The state after the quick view has been opened or closed.
    #[verifier::opaque]
    pub open spec fn quickview_toggled(self, now: u64) -> State {
        if self.modes.quickview {
            State { modes: Modes { quickview: false, ..self.modes }, ..self }
        } else {
            State {
                modes: Modes { quickview: true, quickview_at: now, ..self.modes },
                ..self
            }.asked(Effect::SnapStrip)
        }
    }

    /// The state after a move by direction. The views are a ladder: down from
    /// the full view to the quick view and on to the grid, up from the quick
    /// view to the full view. Sideways, the full view steps between chapters.
    #[verifier::opaque]
    pub open spec fn directed(
        self,
        dx: int,
        dy: int,
        lay: Layout,
        around: Surroundings,
        now: u64,
    ) -> State {
        if self.modes.fullview {
            if dx != 0 {
                self.chapter_stepped(dx > 0, around.pos as int, now)
            } else if dy < 0 {
                self.bar_closed(now)
            } else if dy > 0 {
                self.stepped_down(now)
            } else {
                self
            }
        } else if self.modes.quickview && dy < 0 {
            State { modes: Modes { fullview: true, ..self.modes }, ..self }
        } else if self.modes.quickview && dy > 0 {
            State { modes: Modes { quickview: false, ..self.modes }, ..self }
        } else {
            self.selection_moved(dx, dy, lay, now)
        }
    }

    /// The state after a zoom by key, which also gives the grid its justified
    /// rows back.
    #[verifier::opaque]
    pub open spec fn zoomed(self, step: ZoomStep) -> State {
        self.unribboned().asked(Effect::Zoom { step })
    }

    /// The state after the slide show has been switched on or off.
    #[verifier::opaque]
    pub open spec fn auto_skip_toggled(self, now: u64) -> State {
        State {
            modes: Modes {
                auto_skip_since: if self.modes.auto_skip_since is Some {
                    None
                } else {
                    Some(now)
                },
                ..self.modes
            },
            ..self
        }
    }

    /// The state after playback without the focus has been allowed or not.
    #[verifier::opaque]
    pub open spec fn focus_pause_toggled(self) -> State {
        State {
            modes: Modes { focus_pause_on: !self.modes.focus_pause_on, ..self.modes },
            ..self
        }
    }

    /// The state after the tiles have been set in motion or stilled.
    #[verifier::opaque]
    pub open spec fn animated_thumbs_toggled(self) -> State {
        State {
            modes: Modes { animated_thumbs: !self.modes.animated_thumbs, ..self.modes },
            ..self
        }
    }

    /// The state after the full view has been opened or closed.
    #[verifier::opaque]
    pub open spec fn fullview_toggled(self) -> State {
        State { modes: Modes { fullview: !self.modes.fullview, ..self.modes }, ..self }
    }

    /// The state after the selected clip's path has been handed out.
    #[verifier::opaque]
    pub open spec fn handed_out(self, launch: bool) -> State {
        match self.selected_clip() {
            Some(c) => self.asked(
                if launch {
                    Effect::Launch { path: c.path, cloud: c.cloud }
                } else {
                    Effect::CopyPath { path: c.path }
                },
            ),
            None => self,
        }
    }

    /// The state after an action.
    #[verifier::opaque]
    pub open spec fn acted(
        self,
        action: ActionModel,
        lay: Layout,
        around: Surroundings,
        now: u64,
    ) -> State {
        match action {
            ActionModel::Quit => self.asked(Effect::Quit),
            ActionModel::ToggleFullscreen { fast } => self.asked(
                Effect::ToggleFullscreen { fast },
            ),
            ActionModel::ZoomIn => self.zoomed(ZoomStep::In),
            ActionModel::ZoomOut => self.zoomed(ZoomStep::Out),
            ActionModel::ZoomReset => self.zoomed(ZoomStep::Reset),
            ActionModel::ToggleFocusPause => self.focus_pause_toggled(),
            ActionModel::ToggleAnimatedThumbs => self.animated_thumbs_toggled(),
            ActionModel::Quickview => self.quickview_toggled(now),
            ActionModel::Fullview => self.fullview_toggled(),
            ActionModel::ChapterMode => self.bar_toggled(around.pos as int, now),
            ActionModel::Skip { forward, amount } => self.skipped(
                forward,
                amount,
                around.pos as int,
                now,
            ),
            ActionModel::SelectNext => self.selection_moved(1, 0, lay, now),
            ActionModel::SelectPrev => self.selection_moved(-1, 0, lay, now),
            ActionModel::Move { dx, dy } => self.directed(dx as int, dy as int, lay, around, now),
            ActionModel::OpenParent => self.parent_opened(around.has_dir, now),
            ActionModel::OpenLibrary { .. } => self.library_opened(now),
            ActionModel::JumpRandom => self.jumped_by(around.seed, now),
            ActionModel::ShuffleLibrary => self.shuffled_by(around.seed, now),
            ActionModel::ToggleAutoSkip => self.auto_skip_toggled(now),
            ActionModel::CopyPath => self.handed_out(false),
            ActionModel::Spawn { .. } => self.handed_out(true),
        }
    }

    /// What a key stands for: nothing where Escape takes a layer away.
    pub open spec fn meaning(self, key: Key, home: Option<Seq<char>>) -> Option<ActionModel> {
        if key == Key::Escape && self.layered() {
            None
        } else {
            self.keymap.resolved(key, home)
        }
    }

    /// The state after a key, which keeps the loop awake as any input does.
    /// Escape is the one key that the key map does not decide while there is a
    /// layer to take away.
    pub open spec fn keyed(
        self,
        key: Key,
        home: Option<Seq<char>>,
        lay: Layout,
        around: Surroundings,
        now: u64,
    ) -> State {
        let s = self.woken(now, SETTLE_WAKE);
        if key == Key::Escape && s.layered() {
            s.peeled(now)
        } else {
            match s.keymap.resolved(key, home) {
                Some(a) => s.acted(a, lay, around, now),
                None => s,
            }
        }
    }
}

impl Switchblade {
    /// Takes the uppermost layer away, if there is one.
    fn peel(&mut self, now: u64) -> (r: bool)
        requires
            old(self)@.wf(),
        ensures
            r == old(self)@.layered(),
            final(self)@ == (if r {
                old(self)@.peeled(now)
            } else {
                old(self)@
            }),
            final(self)@.wf(),
    {
        proof {
            reveal(crate::state::tied);
        }
        proof {
            reveal(State::peeled);
        }
        let stays = match &self.chapters {
            Some(b) => b.open && b.peek_until.is_none(),
            None => false,
        };
        if stays {
            self.close_chapter_bar(now);
            true
        } else if self.modes.fullview {
            self.chapters = None;
            self.modes.gone_to = None;
            self.modes.fullview = false;
            true
        } else if self.modes.quickview {
            self.modes.quickview = false;
            true
        } else if !self.marked.is_empty() {
            self.marked.clear();
            self.wake(now, 300_000_000);
            true
        } else {
            false
        }
    }

    fn toggle_quickview(&mut self, now: u64)
        requires
            old(self)@.wf(),
        ensures
            final(self)@ == old(self)@.quickview_toggled(now),
            final(self)@.wf(),
    {
        proof {
            reveal(State::quickview_toggled);
        }
        if self.modes.quickview {
            self.modes.quickview = false;
        } else {
            self.modes.quickview = true;
            self.modes.quickview_at = now;
            self.ask(Effect::SnapStrip);
        }
    }

    fn direct(&mut self, dx: i32, dy: i32, lay: &Layout, around: Surroundings, now: u64)
        requires
            old(self)@.wf(),
            lay.wf(),
            lay.within_range(),
            lay.len == old(self)@.clips.len(),
        ensures
            final(self)@ == old(self)@.directed(dx as int, dy as int, *lay, around, now),
            final(self)@.wf(),
    {
        proof {
            reveal(State::directed);
        }
        if self.modes.fullview {
            if dx != 0 {
                self.chapter_step(dx > 0, around.pos, now);
            } else if dy < 0 {
                self.close_chapter_bar(now);
            } else if dy > 0 {
                self.to_quickview(now);
            }
        } else if self.modes.quickview && dy < 0 {
            self.modes.fullview = true;
        } else if self.modes.quickview && dy > 0 {
            self.modes.quickview = false;
        } else {
            self.move_selection(dx, dy, lay, now);
        }
    }

    fn zoom(&mut self, step: ZoomStep)
        requires
            old(self)@.wf(),
        ensures
            final(self)@ == old(self)@.zoomed(step),
            final(self)@.wf(),
    {
        proof {
            reveal(State::zoomed);
        }
        self.ribbon_reset();
        self.ask(Effect::Zoom { step });
    }

    fn toggle_auto_skip(&mut self, now: u64)
        requires
            old(self)@.wf(),
        ensures
            final(self)@ == old(self)@.auto_skip_toggled(now),
            final(self)@.wf(),
    {
        proof {
            reveal(State::auto_skip_toggled);
        }
        self.modes.auto_skip_since = if self.modes.auto_skip_since.is_some() {
            None
        } else {
            Some(now)
        };
    }

    /// Asks for something to be done with the selected clip's path.
    fn hand_out(&mut self, launch: bool)
        requires
            old(self)@.wf(),
        ensures
            final(self)@ == old(self)@.handed_out(launch),
            final(self)@.wf(),
    {
        proof {
            reveal(State::handed_out);
        }
        if self.refs.selected < self.clips.len() {
            let c = self.clips[self.refs.selected];
            if launch {
                self.ask(Effect::Launch { path: c.path, cloud: c.cloud });
            } else {
                self.ask(Effect::CopyPath { path: c.path });
            }
        }
    }

    fn request(&mut self, e: Effect)
        requires
            old(self)@.wf(),
        ensures
            final(self)@ == old(self)@.asked(e),
            final(self)@.wf(),
    {
        self.ask(e);
    }

    fn toggle_bar(&mut self, pos: i64, now: u64)
        requires
            old(self)@.wf(),
        ensures
            final(self)@ == old(self)@.bar_toggled(pos as int, now),
            final(self)@.wf(),
    {
        self.toggle_chapters(pos, now);
    }

    fn skip_by_key(&mut self, forward: bool, amount: Option<u32>, pos: i64, now: u64)
        requires
            old(self)@.wf(),
        ensures
            final(self)@ == old(self)@.skipped(forward, amount, pos as int, now),
            final(self)@.wf(),
    {
        self.skip(forward, amount, pos, now);
    }

    fn toggle_fullview(&mut self)
        requires
            old(self)@.wf(),
        ensures
            final(self)@ == old(self)@.fullview_toggled(),
            final(self)@.wf(),
    {
        proof {
            reveal(State::fullview_toggled);
        }
        self.modes.fullview = !self.modes.fullview;
    }

    fn toggle_focus_pause(&mut self)
        requires
            old(self)@.wf(),
        ensures
            final(self)@ == old(self)@.focus_pause_toggled(),
            final(self)@.wf(),
    {
        proof {
            reveal(State::focus_pause_toggled);
        }
        self.modes.focus_pause_on = !self.modes.focus_pause_on;
    }

    fn toggle_animated_thumbs(&mut self)
        requires
            old(self)@.wf(),
        ensures
            final(self)@ == old(self)@.animated_thumbs_toggled(),
            final(self)@.wf(),
    {
        proof {
            reveal(State::animated_thumbs_toggled);
        }
        self.modes.animated_thumbs = !self.modes.animated_thumbs;
    }

    /// Does what an action says.
    pub fn act(&mut self, action: &Action, lay: &Layout, around: Surroundings, now: u64)
        requires
            old(self)@.wf(),
            lay.wf(),
            lay.within_range(),
            lay.len == old(self)@.clips.len(),
        ensures
            final(self)@ == old(self)@.acted(action@, *lay, around, now),
            final(self)@.wf(),
    {
        proof {
            reveal(State::acted);
        }
        match action {
            Action::Quit => {
                self.request(Effect::Quit);
            },
            Action::ToggleFullscreen { fast } => {
                self.request(Effect::ToggleFullscreen { fast: *fast });
            },
            Action::ZoomIn => {
                self.zoom(ZoomStep::In);
            },
            Action::ZoomOut => {
                self.zoom(ZoomStep::Out);
            },
            Action::ZoomReset => {
                self.zoom(ZoomStep::Reset);
            },
            Action::ToggleFocusPause => {
                self.toggle_focus_pause();
            },
            Action::ToggleAnimatedThumbs => {
                self.toggle_animated_thumbs();
            },
            Action::Quickview => {
                self.toggle_quickview(now);
            },
            Action::Fullview => {
                self.toggle_fullview();
            },
            Action::ChapterMode => {
                self.toggle_bar(around.pos, now);
            },
            Action::Skip { forward, amount } => {
                self.skip_by_key(*forward, *amount, around.pos, now);
            },
            Action::SelectNext => {
                self.move_selection(1, 0, lay, now);
            },
            Action::SelectPrev => {
                self.move_selection(-1, 0, lay, now);
            },
            Action::Move { dx, dy } => {
                self.direct(*dx, *dy, lay, around, now);
            },
            Action::OpenParent => {
                self.open_parent(around.has_dir, now);
            },
            Action::OpenLibrary { dir: _ } => {
                self.open_library(now);
            },
            Action::JumpRandom => {
                self.jump_with(around.seed, now);
            },
            Action::ShuffleLibrary => {
                self.shuffle_with(around.seed, now);
            },
            Action::ToggleAutoSkip => {
                self.toggle_auto_skip(now);
            },
            Action::CopyPath => {
                self.hand_out(false);
            },
            Action::Spawn { program: _, args: _ } => {
                self.hand_out(true);
            },
        }
    }

    /// Handles a key, with a random number that the caller drew. Returns the
    /// action that it stood for, whose texts the effects do not repeat.
    pub fn key_with(
        &mut self,
        key: Key,
        home: Option<&str>,
        lay: &Layout,
        around: Surroundings,
        now: u64,
    ) -> (r: Option<Action>)
        requires
            old(self)@.wf(),
            lay.wf(),
            lay.within_range(),
            lay.len == old(self)@.clips.len(),
        ensures
            crate::commands::action_model(r) == old(self)@.meaning(
                key,
                crate::commands::opt_text(home),
            ),
            final(self)@ == old(self)@.keyed(
                key,
                crate::commands::opt_text(home),
                *lay,
                around,
                now,
            ),
            final(self)@.wf(),
    {
        self.wake(now, SETTLE_WAKE);
        let escape = match key {
            Key::Escape => true,
            _ => false,
        };
        if escape && self.peel(now) {
            return None;
        }
        let action = self.keymap.action_for(key, home);
        match &action {
            Some(a) => {
                self.act(a, lay, around, now);
            },
            None => {},
        }
        action
    }

    /// Handles a key. `pos` is where the selected stream is, `has_dir` whether
    /// the selected clip's path names a directory.
    pub fn key(
        &mut self,
        key: Key,
        home: Option<&str>,
        lay: &Layout,
        pos: i64,
        has_dir: bool,
        now: u64,
    ) -> (r: Option<Action>)
        requires
            old(self)@.wf(),
            lay.wf(),
            lay.within_range(),
            lay.len == old(self)@.clips.len(),
        ensures
            crate::commands::action_model(r) == old(self)@.meaning(
                key,
                crate::commands::opt_text(home),
            ),
            exists|seed: u64| #[trigger]
                old(self)@.keyed(
                    key,
                    crate::commands::opt_text(home),
                    *lay,
                    Surroundings { pos, has_dir, seed },
                    now,
                ) == final(self)@,
            final(self)@.wf(),
    {
        let seed: u64 = crate::rng::rng_seed();
        self.key_with(key, home, lay, Surroundings { pos, has_dir, seed }, now)
    }
}

} // verus!
