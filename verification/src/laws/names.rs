//! Names in settings and commands, and what they stand for.

use vstd::prelude::*;

use crate::commands::{
    action_named, binding_arg, binding_name, tilde_expanded, ActionModel, Key,
};
use crate::text::{drop_space, find_space, is_space_char, skip_space};
use crate::tuning::{
    anim_level_named, backdrop_named, grid_style_named, interaction_named, sort_mode_named,
    AnimLevel, BackdropStyle, GridStyle, Interaction, SortMode,
};

verus! {

/// Every action goes by its names, whatever it is given.
pub proof fn actions_go_by_their_names(
    amount: Option<u32>,
    arg: Option<Seq<char>>,
    home: Option<Seq<char>>,
)
    ensures
        ({
            let a = |n: Seq<char>| action_named(n, amount, arg, home);
            &&& a("quit"@) == Some(ActionModel::Quit)
            &&& a("fullscreen"@) == Some(ActionModel::ToggleFullscreen { fast: false })
            &&& a("toggle_fullscreen"@) == a("fullscreen"@)
            &&& a("fast_fullscreen"@) == Some(ActionModel::ToggleFullscreen { fast: true })
            &&& a("toggle_fast_fullscreen"@) == a("fast_fullscreen"@)
            &&& a("copy_path"@) == Some(ActionModel::CopyPath)
            &&& a("zoom_in"@) == Some(ActionModel::ZoomIn)
            &&& a("zoom_out"@) == Some(ActionModel::ZoomOut)
            &&& a("zoom_reset"@) == Some(ActionModel::ZoomReset)
            &&& a("toggle_focus_pause"@) == Some(ActionModel::ToggleFocusPause)
            &&& a("toggle_animated_thumbs"@) == Some(ActionModel::ToggleAnimatedThumbs)
            &&& a("quickview"@) == Some(ActionModel::Quickview)
            &&& a("fullview"@) == Some(ActionModel::Fullview)
            &&& a("toggle_fullview"@) == a("fullview"@)
            &&& a("chapter_mode"@) == Some(ActionModel::ChapterMode)
            &&& a("chapters"@) == a("chapter_mode"@)
        }),
{
    names_are_told_apart();
}

/// Actions that move go by the names of their directions.
pub proof fn moves_go_by_their_names(
    amount: Option<u32>,
    arg: Option<Seq<char>>,
    home: Option<Seq<char>>,
)
    ensures
        ({
            let a = |n: Seq<char>| action_named(n, amount, arg, home);
            &&& a("skip_forward"@) == Some(ActionModel::Skip { forward: true, amount })
            &&& a("skip_back"@) == Some(ActionModel::Skip { forward: false, amount })
            &&& a("skip_backward"@) == a("skip_back"@)
            &&& a("next"@) == Some(ActionModel::SelectNext)
            &&& a("select_next"@) == a("next"@)
            &&& a("prev"@) == Some(ActionModel::SelectPrev)
            &&& a("previous"@) == a("prev"@)
            &&& a("select_prev"@) == a("prev"@)
            &&& a("move_left"@) == Some(ActionModel::Move { dx: (-1) as i32, dy: 0 })
            &&& a("move_right"@) == Some(ActionModel::Move { dx: 1, dy: 0 })
            &&& a("move_up"@) == Some(ActionModel::Move { dx: 0, dy: (-1) as i32 })
            &&& a("move_down"@) == Some(ActionModel::Move { dx: 0, dy: 1 })
        }),
{
    names_are_told_apart();
}

/// Actions on the library go by their names, and opening one takes its directory.
pub proof fn library_actions_go_by_their_names(
    amount: Option<u32>,
    dir: Seq<char>,
    home: Option<Seq<char>>,
)
    ensures
        ({
            let a = |n: Seq<char>| action_named(n, amount, Some(dir), home);
            let o = Some(ActionModel::OpenLibrary { dir: tilde_expanded(dir, home) });
            &&& a("open_parent"@) == Some(ActionModel::OpenParent)
            &&& a("browse_parent"@) == a("open_parent"@)
            &&& a("open"@) == o
            &&& a("open_library"@) == o
            &&& a("open_dir"@) == o
            &&& a("library"@) == o
            &&& action_named("open"@, amount, None, home) is None
            &&& a("jump_random"@) == Some(ActionModel::JumpRandom)
            &&& a("jump_to_random"@) == a("jump_random"@)
            &&& a("shuffle_library"@) == Some(ActionModel::ShuffleLibrary)
            &&& a("shuffle"@) == a("shuffle_library"@)
            &&& a("toggle_auto_skip"@) == Some(ActionModel::ToggleAutoSkip)
            &&& a("auto_skip"@) == a("toggle_auto_skip"@)
            &&& a("toggle_skip_timer"@) == a("toggle_auto_skip"@)
            &&& a("skip_timer"@) == a("toggle_auto_skip"@)
        }),
{
    names_are_told_apart();
}

/// No name of an action is another's.
proof fn names_are_told_apart()
    ensures
        "auto_skip"@.len() == 9,
        "browse_parent"@.len() == 13,
        "chapter_mode"@.len() == 12,
        "chapters"@.len() == 8,
        "copy_path"@.len() == 9,
        "fast_fullscreen"@.len() == 15,
        "fullscreen"@.len() == 10,
        "fullview"@.len() == 8,
        "jump_random"@.len() == 11,
        "jump_to_random"@.len() == 14,
        "library"@.len() == 7,
        "move_down"@.len() == 9,
        "move_left"@.len() == 9,
        "move_right"@.len() == 10,
        "move_up"@.len() == 7,
        "next"@.len() == 4,
        "open"@.len() == 4,
        "open_dir"@.len() == 8,
        "open_library"@.len() == 12,
        "open_parent"@.len() == 11,
        "prev"@.len() == 4,
        "previous"@.len() == 8,
        "quickview"@.len() == 9,
        "quit"@.len() == 4,
        "select_next"@.len() == 11,
        "select_prev"@.len() == 11,
        "shuffle"@.len() == 7,
        "shuffle_library"@.len() == 15,
        "skip_back"@.len() == 9,
        "skip_backward"@.len() == 13,
        "skip_forward"@.len() == 12,
        "skip_timer"@.len() == 10,
        "toggle_animated_thumbs"@.len() == 22,
        "toggle_auto_skip"@.len() == 16,
        "toggle_fast_fullscreen"@.len() == 22,
        "toggle_focus_pause"@.len() == 18,
        "toggle_fullscreen"@.len() == 17,
        "toggle_fullview"@.len() == 15,
        "toggle_skip_timer"@.len() == 17,
        "zoom_in"@.len() == 7,
        "zoom_out"@.len() == 8,
        "zoom_reset"@.len() == 10,
        "auto_skip"@ != "copy_path"@,
        "auto_skip"@ != "move_down"@,
        "auto_skip"@ != "move_left"@,
        "auto_skip"@ != "quickview"@,
        "auto_skip"@ != "skip_back"@,
        "browse_parent"@ != "skip_backward"@,
        "chapter_mode"@ != "open_library"@,
        "chapter_mode"@ != "skip_forward"@,
        "chapters"@ != "fullview"@,
        "chapters"@ != "open_dir"@,
        "chapters"@ != "previous"@,
        "chapters"@ != "zoom_out"@,
        "copy_path"@ != "move_down"@,
        "copy_path"@ != "move_left"@,
        "copy_path"@ != "quickview"@,
        "copy_path"@ != "skip_back"@,
        "fast_fullscreen"@ != "shuffle_library"@,
        "fast_fullscreen"@ != "toggle_fullview"@,
        "fullscreen"@ != "move_right"@,
        "fullscreen"@ != "skip_timer"@,
        "fullscreen"@ != "zoom_reset"@,
        "fullview"@ != "open_dir"@,
        "fullview"@ != "previous"@,
        "fullview"@ != "zoom_out"@,
        "jump_random"@ != "open_parent"@,
        "jump_random"@ != "select_next"@,
        "jump_random"@ != "select_prev"@,
        "library"@ != "move_up"@,
        "library"@ != "shuffle"@,
        "library"@ != "zoom_in"@,
        "move_down"@ != "move_left"@,
        "move_down"@ != "quickview"@,
        "move_down"@ != "skip_back"@,
        "move_left"@ != "quickview"@,
        "move_left"@ != "skip_back"@,
        "move_right"@ != "skip_timer"@,
        "move_right"@ != "zoom_reset"@,
        "move_up"@ != "shuffle"@,
        "move_up"@ != "zoom_in"@,
        "next"@ != "open"@,
        "next"@ != "prev"@,
        "next"@ != "quit"@,
        "open"@ != "prev"@,
        "open"@ != "quit"@,
        "open_dir"@ != "previous"@,
        "open_dir"@ != "zoom_out"@,
        "open_library"@ != "skip_forward"@,
        "open_parent"@ != "select_next"@,
        "open_parent"@ != "select_prev"@,
        "prev"@ != "quit"@,
        "previous"@ != "zoom_out"@,
        "quickview"@ != "skip_back"@,
        "select_next"@ != "select_prev"@,
        "shuffle"@ != "zoom_in"@,
        "shuffle_library"@ != "toggle_fullview"@,
        "skip_timer"@ != "zoom_reset"@,
        "toggle_animated_thumbs"@ != "toggle_fast_fullscreen"@,
        "toggle_fullscreen"@ != "toggle_skip_timer"@,
{
    reveal_strlit("auto_skip");
    reveal_strlit("browse_parent");
    reveal_strlit("chapter_mode");
    reveal_strlit("chapters");
    reveal_strlit("copy_path");
    reveal_strlit("fast_fullscreen");
    reveal_strlit("fullscreen");
    reveal_strlit("fullview");
    reveal_strlit("jump_random");
    reveal_strlit("jump_to_random");
    reveal_strlit("library");
    reveal_strlit("move_down");
    reveal_strlit("move_left");
    reveal_strlit("move_right");
    reveal_strlit("move_up");
    reveal_strlit("next");
    reveal_strlit("open");
    reveal_strlit("open_dir");
    reveal_strlit("open_library");
    reveal_strlit("open_parent");
    reveal_strlit("prev");
    reveal_strlit("previous");
    reveal_strlit("quickview");
    reveal_strlit("quit");
    reveal_strlit("select_next");
    reveal_strlit("select_prev");
    reveal_strlit("shuffle");
    reveal_strlit("shuffle_library");
    reveal_strlit("skip_back");
    reveal_strlit("skip_backward");
    reveal_strlit("skip_forward");
    reveal_strlit("skip_timer");
    reveal_strlit("toggle_animated_thumbs");
    reveal_strlit("toggle_auto_skip");
    reveal_strlit("toggle_fast_fullscreen");
    reveal_strlit("toggle_focus_pause");
    reveal_strlit("toggle_fullscreen");
    reveal_strlit("toggle_fullview");
    reveal_strlit("toggle_skip_timer");
    reveal_strlit("zoom_in");
    reveal_strlit("zoom_out");
    reveal_strlit("zoom_reset");
    assert("auto_skip"@[0] != "copy_path"@[0]);
    assert("auto_skip"@[0] != "move_down"@[0]);
    assert("auto_skip"@[0] != "move_left"@[0]);
    assert("auto_skip"@[0] != "quickview"@[0]);
    assert("auto_skip"@[0] != "skip_back"@[0]);
    assert("browse_parent"@[0] != "skip_backward"@[0]);
    assert("chapter_mode"@[0] != "open_library"@[0]);
    assert("chapter_mode"@[0] != "skip_forward"@[0]);
    assert("chapters"@[0] != "fullview"@[0]);
    assert("chapters"@[0] != "open_dir"@[0]);
    assert("chapters"@[0] != "previous"@[0]);
    assert("chapters"@[0] != "zoom_out"@[0]);
    assert("copy_path"@[0] != "move_down"@[0]);
    assert("copy_path"@[0] != "move_left"@[0]);
    assert("copy_path"@[0] != "quickview"@[0]);
    assert("copy_path"@[0] != "skip_back"@[0]);
    assert("fast_fullscreen"@[0] != "shuffle_library"@[0]);
    assert("fast_fullscreen"@[0] != "toggle_fullview"@[0]);
    assert("fullscreen"@[0] != "move_right"@[0]);
    assert("fullscreen"@[0] != "skip_timer"@[0]);
    assert("fullscreen"@[0] != "zoom_reset"@[0]);
    assert("fullview"@[0] != "open_dir"@[0]);
    assert("fullview"@[0] != "previous"@[0]);
    assert("fullview"@[0] != "zoom_out"@[0]);
    assert("jump_random"@[0] != "open_parent"@[0]);
    assert("jump_random"@[0] != "select_next"@[0]);
    assert("jump_random"@[0] != "select_prev"@[0]);
    assert("library"@[0] != "move_up"@[0]);
    assert("library"@[0] != "shuffle"@[0]);
    assert("library"@[0] != "zoom_in"@[0]);
    assert("move_down"@[5] != "move_left"@[5]);
    assert("move_down"@[0] != "quickview"@[0]);
    assert("move_down"@[0] != "skip_back"@[0]);
    assert("move_left"@[0] != "quickview"@[0]);
    assert("move_left"@[0] != "skip_back"@[0]);
    assert("move_right"@[0] != "skip_timer"@[0]);
    assert("move_right"@[0] != "zoom_reset"@[0]);
    assert("move_up"@[0] != "shuffle"@[0]);
    assert("move_up"@[0] != "zoom_in"@[0]);
    assert("next"@[0] != "open"@[0]);
    assert("next"@[0] != "prev"@[0]);
    assert("next"@[0] != "quit"@[0]);
    assert("open"@[0] != "prev"@[0]);
    assert("open"@[0] != "quit"@[0]);
    assert("open_dir"@[0] != "previous"@[0]);
    assert("open_dir"@[0] != "zoom_out"@[0]);
    assert("open_library"@[0] != "skip_forward"@[0]);
    assert("open_parent"@[0] != "select_next"@[0]);
    assert("open_parent"@[0] != "select_prev"@[0]);
    assert("prev"@[0] != "quit"@[0]);
    assert("previous"@[0] != "zoom_out"@[0]);
    assert("quickview"@[0] != "skip_back"@[0]);
    assert("select_next"@[7] != "select_prev"@[7]);
    assert("shuffle"@[0] != "zoom_in"@[0]);
    assert("shuffle_library"@[0] != "toggle_fullview"@[0]);
    assert("skip_timer"@[0] != "zoom_reset"@[0]);
    assert("toggle_animated_thumbs"@[7] != "toggle_fast_fullscreen"@[7]);
    assert("toggle_fullscreen"@[7] != "toggle_skip_timer"@[7]);
}

/// A key that is pressed by its name is the key that has the name.
pub proof fn keys_go_by_their_names(key: Key)
    ensures
        crate::bench::key_named(crate::commands::key_named(key)) == Some(key),
{
    reveal_strlit("space");
    reveal_strlit("escape");
    reveal_strlit("esc");
    reveal_strlit("enter");
    reveal_strlit("return");
    reveal_strlit("tab");
    reveal_strlit("left");
    reveal_strlit("right");
    reveal_strlit("up");
    reveal_strlit("down");
    assert("space"@[0] != "enter"@[0]);
    assert("space"@[0] != "right"@[0]);
    assert("escape"@[0] != "return"@[0]);
    assert("esc"@[0] != "tab"@[0]);
    assert("enter"@[0] != "right"@[0]);
    assert("left"@[0] != "down"@[0]);
    assert("space"@.len() == 5);
    assert("escape"@.len() == 6);
    assert("esc"@.len() == 3);
    assert("enter"@.len() == 5);
    assert("return"@.len() == 6);
    assert("tab"@.len() == 3);
    assert("left"@.len() == 4);
    assert("right"@.len() == 5);
    assert("up"@.len() == 2);
    assert("down"@.len() == 4);
    if let Key::Char(c) = key {
        assert(seq![c].len() == 1);
    }
}

/// Settings go by their names, and nothing else is one.
pub proof fn settings_go_by_their_names(n: Seq<char>)
    ensures
        anim_level_named(n) == Some(AnimLevel::Still) <==> n == "none"@,
        anim_level_named(n) == Some(AnimLevel::Minimal) <==> n == "minimal"@,
        anim_level_named(n) == Some(AnimLevel::Normal) <==> n == "normal"@ || n == "full"@,
        grid_style_named(n) == Some(GridStyle::Fixed) <==> n == "fixed"@ || n == "square"@,
        grid_style_named(n) == Some(GridStyle::Flexible) <==> n == "flexible"@ || n == "variable"@
            || n == "mosaic"@,
        interaction_named(n) == Some(Interaction::Classic) <==> n == "classic"@,
        interaction_named(n) == Some(Interaction::Attention) <==> n == "attention"@,
        backdrop_named(n) == Some(BackdropStyle::Blur) <==> n == "blur"@,
        backdrop_named(n) == Some(BackdropStyle::Flat) <==> n == "flat"@,
        sort_mode_named(n) == Some(SortMode::Arrival) <==> n == "none"@,
        sort_mode_named(n) == Some(SortMode::Newest) <==> n == "newest"@,
        sort_mode_named(n) == Some(SortMode::Oldest) <==> n == "oldest"@,
{
    reveal_strlit("none");
    reveal_strlit("minimal");
    reveal_strlit("normal");
    reveal_strlit("full");
    reveal_strlit("fixed");
    reveal_strlit("square");
    reveal_strlit("flexible");
    reveal_strlit("variable");
    reveal_strlit("mosaic");
    reveal_strlit("classic");
    reveal_strlit("attention");
    reveal_strlit("blur");
    reveal_strlit("flat");
    reveal_strlit("newest");
    reveal_strlit("oldest");
    assert("none"@[0] != "full"@[0]);
    assert("square"@[0] != "mosaic"@[0]);
    assert("flexible"@[0] != "variable"@[0]);
    assert("blur"@[0] != "flat"@[0]);
    assert("newest"@[0] != "oldest"@[0]);
    assert("none"@.len() == 4);
    assert("minimal"@.len() == 7);
    assert("normal"@.len() == 6);
    assert("full"@.len() == 4);
    assert("fixed"@.len() == 5);
    assert("square"@.len() == 6);
    assert("flexible"@.len() == 8);
    assert("variable"@.len() == 8);
    assert("mosaic"@.len() == 6);
    assert("classic"@.len() == 7);
    assert("attention"@.len() == 9);
    assert("blur"@.len() == 4);
    assert("flat"@.len() == 4);
    assert("newest"@.len() == 6);
    assert("oldest"@.len() == 6);
}

/// Levels rise from nothing moving to everything.
pub proof fn levels_rise(a: AnimLevel)
    ensures
        AnimLevel::Still.rank() < AnimLevel::Minimal.rank() < AnimLevel::Normal.rank(),
        a.rank() <= AnimLevel::Normal.rank(),
{
}

/// A binding of one word names its action and gives it nothing; what stands behind the
/// first space is what the action is given.
pub proof fn a_binding_is_a_name_and_what_it_is_given(word: Seq<char>)
    requires
        word.len() > 0,
        forall|k: int| 0 <= k < word.len() ==> !is_space_char(#[trigger] word[k]),
    ensures
        binding_name(word) == word,
        binding_arg(word) is None,
{
    let n = word.len() as int;
    assert(skip_space(word, 0, n) == 0);
    assert(drop_space(word, 0, n) == n);
    let t = crate::text::trimmed(word);
    assert(t =~= word);
    super::numbers::the_first_space_is_found(word, 0, n);
    assert(find_space(word, 0, n) == n);
    assert(t.subrange(0, n) =~= word);
}

} // verus!
