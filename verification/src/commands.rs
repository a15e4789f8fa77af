//! From keys to actions: one keymap resolves a key to an internal action or to
//! a program that is run on the selected clip. A user's entries lie over the
//! built-in ones.

use vstd::prelude::*;

use crate::text;

verus! {

/// A key of the keyboard.
#[derive(Clone, Copy, PartialEq, Eq, Structural, Debug)]
pub enum Key {
    Enter,
    Space,
    Escape,
    Tab,
    Char(char),
    Left,
    Right,
    Up,
    Down,
}

/// A command of the configuration.
pub enum CommandSpec {
    /// Runs a program on the selected clip.
    Launch { program: String, args: Vec<String> },
    /// Performs an action. `amount`, in billionths, is the fraction of the
    /// clip that the skip actions jump.
    Internal { action: String, amount: Option<u32> },
}

/// What a key asks for.
pub enum Action {
    Spawn { program: String, args: Vec<String> },
    Quit,
    /// `fast` is a borderless window of the desktop's size in place of the
    /// system's own fullscreen.
    ToggleFullscreen { fast: bool },
    CopyPath,
    ZoomIn,
    ZoomOut,
    ZoomReset,
    ToggleFocusPause,
    /// Tiles cycle through their clip's storyboard, or no longer do.
    ToggleAnimatedThumbs,
    Quickview,
    /// The selected clip fills the window, or no longer does.
    Fullview,
    /// The chapter bar of the full view, up or down.
    ChapterMode,
    /// A jump by a fraction of the clip, in billionths; without one, by the
    /// configured fraction.
    Skip { forward: bool, amount: Option<u32> },
    SelectNext,
    SelectPrev,
    /// A move by direction: along the grid or the filmstrip, between chapters,
    /// or between the views.
    Move { dx: i32, dy: i32 },
    /// The library becomes the selected clip's directory.
    OpenParent,
    /// The library becomes the given directory.
    OpenLibrary { dir: String },
    JumpRandom,
    ShuffleLibrary,
    ToggleAutoSkip,
}

/// What an action is, its texts as characters.
pub enum ActionModel {
    Spawn { program: Seq<char>, args: Seq<Seq<char>> },
    Quit,
    ToggleFullscreen { fast: bool },
    CopyPath,
    ZoomIn,
    ZoomOut,
    ZoomReset,
    ToggleFocusPause,
    ToggleAnimatedThumbs,
    Quickview,
    Fullview,
    ChapterMode,
    Skip { forward: bool, amount: Option<u32> },
    SelectNext,
    SelectPrev,
    Move { dx: i32, dy: i32 },
    OpenParent,
    OpenLibrary { dir: Seq<char> },
    JumpRandom,
    ShuffleLibrary,
    ToggleAutoSkip,
}

/// The texts of a list of strings.
pub open spec fn texts(v: Seq<String>) -> Seq<Seq<char>> {
    v.map_values(|s: String| s@)
}

impl View for Action {
    type V = ActionModel;

    open spec fn view(&self) -> ActionModel {
        match *self {
            Action::Spawn { program, args } => ActionModel::Spawn {
                program: program@,
                args: texts(args@),
            },
            Action::Quit => ActionModel::Quit,
            Action::ToggleFullscreen { fast } => ActionModel::ToggleFullscreen { fast },
            Action::CopyPath => ActionModel::CopyPath,
            Action::ZoomIn => ActionModel::ZoomIn,
            Action::ZoomOut => ActionModel::ZoomOut,
            Action::ZoomReset => ActionModel::ZoomReset,
            Action::ToggleFocusPause => ActionModel::ToggleFocusPause,
            Action::ToggleAnimatedThumbs => ActionModel::ToggleAnimatedThumbs,
            Action::Quickview => ActionModel::Quickview,
            Action::Fullview => ActionModel::Fullview,
            Action::ChapterMode => ActionModel::ChapterMode,
            Action::Skip { forward, amount } => ActionModel::Skip { forward, amount },
            Action::SelectNext => ActionModel::SelectNext,
            Action::SelectPrev => ActionModel::SelectPrev,
            Action::Move { dx, dy } => ActionModel::Move { dx, dy },
            Action::OpenParent => ActionModel::OpenParent,
            Action::OpenLibrary { dir } => ActionModel::OpenLibrary { dir: dir@ },
            Action::JumpRandom => ActionModel::JumpRandom,
            Action::ShuffleLibrary => ActionModel::ShuffleLibrary,
            Action::ToggleAutoSkip => ActionModel::ToggleAutoSkip,
        }
    }
}

/// The action that an optional action is.
pub open spec fn action_model(a: Option<Action>) -> Option<ActionModel> {
    match a {
        Some(a) => Some(a@),
        None => None,
    }
}

/// The text of an optional string.
pub open spec fn opt_text(a: Option<&str>) -> Option<Seq<char>> {
    match a {
        Some(a) => Some(a@),
        None => None,
    }
}

/// A program or path with a leading `~/` taken below the home directory, where
/// one is known.
pub open spec fn tilde_expanded(s: Seq<char>, home: Option<Seq<char>>) -> Seq<char> {
    if text::begins(s, "~/"@) && home is Some {
        text::joined_path(home->0, s.subrange("~/"@.len() as int, s.len() as int))
    } else {
        s
    }
}

/// A program or path with a leading `~/` taken below the home directory, where
/// one is known.
pub fn expand_tilde(program: &str, home: Option<&str>) -> (r: String)
    ensures
        r@ == tilde_expanded(program@, opt_text(home)),
{
    proof {
        reveal_strlit("~/");
    }
    match home {
        Some(home) => if text::begins_with(program, "~/") {
            let v = text::chars_of(program);
            let rest = text::part_of(&v, 2, v.len());
            text::join_path(home, rest.as_str())
        } else {
            program.to_owned()
        },
        None => program.to_owned(),
    }
}

/// The action that a name, or one of its aliases, stands for. Opening a library
/// needs its directory as an argument.
pub open spec fn action_named(
    name: Seq<char>,
    amount: Option<u32>,
    arg: Option<Seq<char>>,
    home: Option<Seq<char>>,
) -> Option<ActionModel> {
    if name == "quit"@ {
        Some(ActionModel::Quit)
    } else if name == "fullscreen"@ || name == "toggle_fullscreen"@ {
        Some(ActionModel::ToggleFullscreen { fast: false })
    } else if name == "fast_fullscreen"@ || name == "toggle_fast_fullscreen"@ {
        Some(ActionModel::ToggleFullscreen { fast: true })
    } else if name == "copy_path"@ {
        Some(ActionModel::CopyPath)
    } else if name == "zoom_in"@ {
        Some(ActionModel::ZoomIn)
    } else if name == "zoom_out"@ {
        Some(ActionModel::ZoomOut)
    } else if name == "zoom_reset"@ {
        Some(ActionModel::ZoomReset)
    } else if name == "toggle_focus_pause"@ {
        Some(ActionModel::ToggleFocusPause)
    } else if name == "toggle_animated_thumbs"@ {
        Some(ActionModel::ToggleAnimatedThumbs)
    } else if name == "quickview"@ {
        Some(ActionModel::Quickview)
    } else if name == "fullview"@ || name == "toggle_fullview"@ {
        Some(ActionModel::Fullview)
    } else if name == "chapter_mode"@ || name == "chapters"@ {
        Some(ActionModel::ChapterMode)
    } else if name == "skip_forward"@ {
        Some(ActionModel::Skip { forward: true, amount })
    } else if name == "skip_back"@ || name == "skip_backward"@ {
        Some(ActionModel::Skip { forward: false, amount })
    } else if name == "next"@ || name == "select_next"@ {
        Some(ActionModel::SelectNext)
    } else if name == "prev"@ || name == "previous"@ || name == "select_prev"@ {
        Some(ActionModel::SelectPrev)
    } else if name == "move_left"@ {
        Some(ActionModel::Move { dx: -1i32, dy: 0 })
    } else if name == "move_right"@ {
        Some(ActionModel::Move { dx: 1, dy: 0 })
    } else if name == "move_up"@ {
        Some(ActionModel::Move { dx: 0, dy: -1i32 })
    } else if name == "move_down"@ {
        Some(ActionModel::Move { dx: 0, dy: 1 })
    } else if name == "open_parent"@ || name == "browse_parent"@ {
        Some(ActionModel::OpenParent)
    } else if name == "open"@ || name == "open_library"@ || name == "open_dir"@ || name == "library"@ {
        match arg {
            Some(a) => Some(ActionModel::OpenLibrary { dir: tilde_expanded(a, home) }),
            None => None,
        }
    } else if name == "jump_random"@ || name == "jump_to_random"@ {
        Some(ActionModel::JumpRandom)
    } else if name == "shuffle_library"@ || name == "shuffle"@ {
        Some(ActionModel::ShuffleLibrary)
    } else if name == "toggle_auto_skip"@ || name == "auto_skip"@ || name == "toggle_skip_timer"@ || name == "skip_timer"@ {
        Some(ActionModel::ToggleAutoSkip)
    } else {
        None
    }
}

/// The action that a name, or one of its aliases, stands for.
pub fn internal_action(
    name: &str,
    amount: Option<u32>,
    arg: Option<&str>,
    home: Option<&str>,
) -> (r: Option<Action>)
    ensures
        action_model(r) == action_named(name@, amount, opt_text(arg), opt_text(home)),
{
    if text::same(name, "quit") {
        Some(Action::Quit)
    } else if text::same(name, "fullscreen") || text::same(name, "toggle_fullscreen") {
        Some(Action::ToggleFullscreen { fast: false })
    } else if text::same(name, "fast_fullscreen") || text::same(name, "toggle_fast_fullscreen") {
        Some(Action::ToggleFullscreen { fast: true })
    } else if text::same(name, "copy_path") {
        Some(Action::CopyPath)
    } else if text::same(name, "zoom_in") {
        Some(Action::ZoomIn)
    } else if text::same(name, "zoom_out") {
        Some(Action::ZoomOut)
    } else if text::same(name, "zoom_reset") {
        Some(Action::ZoomReset)
    } else if text::same(name, "toggle_focus_pause") {
        Some(Action::ToggleFocusPause)
    } else if text::same(name, "toggle_animated_thumbs") {
        Some(Action::ToggleAnimatedThumbs)
    } else if text::same(name, "quickview") {
        Some(Action::Quickview)
    } else if text::same(name, "fullview") || text::same(name, "toggle_fullview") {
        Some(Action::Fullview)
    } else if text::same(name, "chapter_mode") || text::same(name, "chapters") {
        Some(Action::ChapterMode)
    } else if text::same(name, "skip_forward") {
        Some(Action::Skip { forward: true, amount })
    } else if text::same(name, "skip_back") || text::same(name, "skip_backward") {
        Some(Action::Skip { forward: false, amount })
    } else if text::same(name, "next") || text::same(name, "select_next") {
        Some(Action::SelectNext)
    } else if text::same(name, "prev") || text::same(name, "previous") || text::same(name, "select_prev") {
        Some(Action::SelectPrev)
    } else if text::same(name, "move_left") {
        Some(Action::Move { dx: -1, dy: 0 })
    } else if text::same(name, "move_right") {
        Some(Action::Move { dx: 1, dy: 0 })
    } else if text::same(name, "move_up") {
        Some(Action::Move { dx: 0, dy: -1 })
    } else if text::same(name, "move_down") {
        Some(Action::Move { dx: 0, dy: 1 })
    } else if text::same(name, "open_parent") || text::same(name, "browse_parent") {
        Some(Action::OpenParent)
    } else if text::same(name, "open") || text::same(name, "open_library") || text::same(name, "open_dir") || text::same(name, "library") {
        match arg {
            Some(a) => Some(Action::OpenLibrary { dir: expand_tilde(a, home) }),
            None => None,
        }
    } else if text::same(name, "jump_random") || text::same(name, "jump_to_random") {
        Some(Action::JumpRandom)
    } else if text::same(name, "shuffle_library") || text::same(name, "shuffle") {
        Some(Action::ShuffleLibrary)
    } else if text::same(name, "toggle_auto_skip") || text::same(name, "auto_skip") || text::same(name, "toggle_skip_timer") || text::same(name, "skip_timer") {
        Some(Action::ToggleAutoSkip)
    } else {
        None
    }
}

/// The text without one pair of quotes around it.
pub open spec fn unquoted(s: Seq<char>) -> Seq<char> {
    if s.len() >= 2 && (s[0] == '\'' || s[0] == '"') && s.last() == s[0] {
        s.subrange(1, s.len() - 1)
    } else {
        s
    }
}

/// The text without one pair of quotes around it.
pub fn unquote(s: &str) -> (r: &str)
    ensures
        r@ == unquoted(s@),
{
    let v = text::chars_of(s);
    let n: usize = v.len();
    if n >= 2 && (v[0] == '\'' || v[0] == '"') && v[n - 1] == v[0] {
        s.substring_char(1, n - 1)
    } else {
        s
    }
}

/// A binding's command name: its first word.
pub open spec fn binding_name(value: Seq<char>) -> Seq<char> {
    let t = text::trimmed(value);
    t.subrange(0, text::find_space(t, 0, t.len() as int))
}

/// A binding's argument: what follows the first word, if anything does, without
/// white space and quotes around it.
pub open spec fn binding_arg(value: Seq<char>) -> Option<Seq<char>> {
    let t = text::trimmed(value);
    let k = text::find_space(t, 0, t.len() as int);
    if k < t.len() {
        Some(unquoted(text::trimmed(t.subrange(k + 1, t.len() as int))))
    } else {
        None
    }
}

/// The text without white space at its ends.
fn trim(s: &str) -> (r: &str)
    ensures
        r@ == text::trimmed(s@),
{
    let v = text::chars_of(s);
    let (a, b) = text::trim_range(&v, 0, v.len());
    s.substring_char(a, b)
}

/// Splits a binding into its command name and its argument.
pub fn split_binding(value: &str) -> (r: (&str, Option<&str>))
    ensures
        r.0@ == binding_name(value@),
        opt_text(r.1) == binding_arg(value@),
{
    let t = trim(value);
    let v = text::chars_of(t);
    let n: usize = v.len();
    let k: usize = text::space_at(&v, 0, n);
    if k < n {
        let rest = t.substring_char(k + 1, n);
        (t.substring_char(0, k), Some(unquote(trim(rest))))
    } else {
        assert(t@.subrange(0, n as int) =~= t@);
        (t, None)
    }
}

/// The name under which a key is bound.
pub open spec fn key_named(key: Key) -> Seq<char> {
    match key {
        Key::Enter => "enter"@,
        Key::Space => "space"@,
        Key::Escape => "esc"@,
        Key::Tab => "tab"@,
        Key::Char(c) => seq![c],
        Key::Left => "left"@,
        Key::Right => "right"@,
        Key::Up => "up"@,
        Key::Down => "down"@,
    }
}

/// The name under which a key is bound.
pub fn key_name(key: Key) -> (r: String)
    ensures
        r@ == key_named(key),
{
    match key {
        Key::Enter => "enter".to_owned(),
        Key::Space => "space".to_owned(),
        Key::Escape => "esc".to_owned(),
        Key::Tab => "tab".to_owned(),
        Key::Char(c) => {
            let mut s = String::new();
            text::push_char(&mut s, c);
            assert(s@ =~= seq![c]);
            s
        },
        Key::Left => "left".to_owned(),
        Key::Right => "right".to_owned(),
        Key::Up => "up".to_owned(),
        Key::Down => "down".to_owned(),
    }
}

/// A key and the command bound to it.
pub struct KeyBinding {
    pub key: String,
    pub value: String,
}

/// A command under its name.
pub struct CommandEntry {
    pub name: String,
    pub command: CommandSpec,
}

/// What keys do: bindings, and the commands that they name. Of several entries
/// for one key or name the last one counts.
pub struct KeyMap {
    pub keys: Vec<KeyBinding>,
    pub commands: Vec<CommandEntry>,
}

/// The texts of a list of bindings.
pub open spec fn pairs(keys: Seq<KeyBinding>) -> Seq<(Seq<char>, Seq<char>)> {
    keys.map_values(|b: KeyBinding| (b.key@, b.value@))
}

/// What is bound to `key`: the value of its last entry.
pub open spec fn bound(keys: Seq<KeyBinding>, key: Seq<char>) -> Option<Seq<char>>
    decreases keys.len(),
{
    if keys.len() == 0 {
        None
    } else if keys.last().key@ == key {
        Some(keys.last().value@)
    } else {
        bound(keys.drop_last(), key)
    }
}

/// The command of the given name: its last entry.
pub open spec fn command_named(commands: Seq<CommandEntry>, name: Seq<char>) -> Option<CommandSpec>
    decreases commands.len(),
{
    if commands.len() == 0 {
        None
    } else if commands.last().name@ == name {
        Some(commands.last().command)
    } else {
        command_named(commands.drop_last(), name)
    }
}

impl KeyMap {
    /// What a key does: the command that its binding names, if there is such
    /// an entry, else the internal action of that name.
    #[verifier::opaque]
    pub open spec fn resolved(self, key: Key, home: Option<Seq<char>>) -> Option<ActionModel> {
        match bound(self.keys@, key_named(key)) {
            None => None,
            Some(value) => {
                let name = binding_name(value);
                let arg = binding_arg(value);
                match command_named(self.commands@, name) {
                    Some(CommandSpec::Launch { program, args }) => Some(
                        ActionModel::Spawn { program: program@, args: texts(args@) },
                    ),
                    Some(CommandSpec::Internal { action, amount }) => action_named(
                        action@,
                        amount,
                        arg,
                        home,
                    ),
                    None => action_named(name, None, arg, home),
                }
            },
        }
    }

    fn binding(&self, key: &str) -> (r: Option<&String>)
        ensures
            match r {
                Some(v) => bound(self.keys@, key@) == Some(v@),
                None => bound(self.keys@, key@) is None,
            },
    {
        let mut i: usize = self.keys.len();
        assert(self.keys@.take(i as int) =~= self.keys@);
        while i > 0
            invariant
                i <= self.keys@.len(),
                bound(self.keys@.take(i as int), key@) == bound(self.keys@, key@),
            decreases i,
        {
            assert(self.keys@.take(i as int).drop_last() =~= self.keys@.take(i - 1));
            i -= 1;
            if text::same(self.keys[i].key.as_str(), key) {
                return Some(&self.keys[i].value);
            }
        }
        None
    }

    fn command(&self, name: &str) -> (r: Option<&CommandSpec>)
        ensures
            match r {
                Some(c) => command_named(self.commands@, name@) == Some(*c),
                None => command_named(self.commands@, name@) is None,
            },
    {
        let mut i: usize = self.commands.len();
        assert(self.commands@.take(i as int) =~= self.commands@);
        while i > 0
            invariant
                i <= self.commands@.len(),
                command_named(self.commands@.take(i as int), name@) == command_named(
                    self.commands@,
                    name@,
                ),
            decreases i,
        {
            assert(self.commands@.take(i as int).drop_last() =~= self.commands@.take(i - 1));
            i -= 1;
            if text::same(self.commands[i].name.as_str(), name) {
                return Some(&self.commands[i].command);
            }
        }
        None
    }

    /// What a key does, if anything.
    pub fn action_for(&self, key: Key, home: Option<&str>) -> (r: Option<Action>)
        ensures
            action_model(r) == self.resolved(key, opt_text(home)),
    {
        proof {
            reveal(KeyMap::resolved);
        }
        let key_text = key_name(key);
        let value = match self.binding(key_text.as_str()) {
            Some(v) => v,
            None => {
                return None;
            },
        };
        let (name, arg) = split_binding(value.as_str());
        match self.command(name) {
            Some(CommandSpec::Launch { program, args }) => Some(
                Action::Spawn { program: program.as_str().to_owned(), args: copy_texts(args) },
            ),
            Some(CommandSpec::Internal { action, amount }) => internal_action(
                action.as_str(),
                *amount,
                arg,
                home,
            ),
            None => internal_action(name, None, arg, home),
        }
    }

    /// The built-in keymap with a user's entries over it.
    pub fn merged(user_keys: Vec<KeyBinding>, user_commands: Vec<CommandEntry>) -> (m: Self)
        ensures
            exists|base: KeyMap| #[trigger]
                is_default(base) && m.keys@ == base.keys@ + user_keys@ && m.commands@
                    == base.commands@ + user_commands@,
    {
        let base = KeyMap::default();
        let ghost built_in = base;
        let mut keys = base.keys;
        let mut commands = base.commands;
        let mut more_keys = user_keys;
        let mut more_commands = user_commands;
        keys.append(&mut more_keys);
        commands.append(&mut more_commands);
        proof {
            assert(is_default(built_in));
        }
        KeyMap { keys, commands }
    }
}

fn copy_texts(v: &Vec<String>) -> (r: Vec<String>)
    ensures
        texts(r@) == texts(v@),
{
    let mut r: Vec<String> = Vec::new();
    let mut i: usize = 0;
    while i < v.len()
        invariant
            i <= v@.len(),
            r@.len() == i,
            forall|k: int| 0 <= k < i ==> (#[trigger] r@[k])@ == v@[k]@,
        decreases v@.len() - i,
    {
        r.push(v[i].as_str().to_owned());
        i += 1;
    }
    assert(texts(r@) =~= texts(v@));
    r
}

/// The built-in bindings.
pub open spec fn default_keys() -> Seq<(Seq<char>, Seq<char>)> {
    seq![
        ("enter"@, "exec"@),
        ("o"@, "exec"@),
        ("space"@, "quickview"@),
        ("tab"@, "fullview"@),
        ("c"@, "copy_path"@),
        ("q"@, "quit"@),
        ("f"@, "fullscreen"@),
        ("-"@, "zoom_out"@),
        ("="@, "zoom_in"@),
        ("+"@, "zoom_in"@),
        ("0"@, "zoom_reset"@),
        ("a"@, "toggle_animated_thumbs"@),
        ("p"@, "toggle_focus_pause"@),
        ("r"@, "reveal"@),
        ("["@, "skip_back"@),
        ("]"@, "skip_forward"@),
        ("g"@, "chapter_mode"@),
        ("D"@, "open_parent"@),
        ("x"@, "jump_random"@),
        ("s"@, "shuffle_library"@),
        ("t"@, "toggle_auto_skip"@),
        ("h"@, "move_left"@),
        ("j"@, "move_down"@),
        ("k"@, "move_up"@),
        ("l"@, "move_right"@),
        ("left"@, "move_left"@),
        ("down"@, "move_down"@),
        ("up"@, "move_up"@),
        ("right"@, "move_right"@),
    ]
}

/// The built-in commands: the name of each, the program it runs and the
/// program's arguments.
pub open spec fn default_commands() -> Seq<(Seq<char>, Seq<char>, Seq<Seq<char>>)> {
    seq![
        ("exec"@, "mpv"@, seq!["{path}"@]),
        ("launch"@, "mpv"@, seq!["{path}"@]),
        (
            "preview"@,
            "mpv"@,
            seq![
                "--no-fs"@,
                "--loop-file=inf"@,
                "--ontop"@,
                "--no-terminal"@,
                "--force-window=immediate"@,
                "--autofit-larger=70%x70%"@,
                "{path}"@,
            ],
        ),
        ("reveal"@, "open"@, seq!["-R"@, "{path}"@]),
    ]
}

/// The texts of a list of commands that run programs.
pub open spec fn launches(commands: Seq<CommandEntry>) -> Seq<(Seq<char>, Seq<char>, Seq<Seq<char>>)> {
    commands.map_values(
        |c: CommandEntry|
            match c.command {
                CommandSpec::Launch { program, args } => (c.name@, program@, texts(args@)),
                CommandSpec::Internal { action, amount } => (c.name@, action@, Seq::empty()),
            },
    )
}

/// The keymap holds the built-in entries and nothing else.
pub open spec fn is_default(m: KeyMap) -> bool {
    &&& pairs(m.keys@) == default_keys()
    &&& launches(m.commands@) == default_commands()
    &&& forall|k: int|
        0 <= k < m.commands@.len() ==> (#[trigger] m.commands@[k]).command is Launch
}

fn bind(keys: &mut Vec<KeyBinding>, key: &str, value: &str)
    ensures
        pairs(final(keys)@) == pairs(old(keys)@).push((key@, value@)),
{
    let b = KeyBinding { key: key.to_owned(), value: value.to_owned() };
    keys.push(b);
    assert(pairs(keys@) =~= pairs(old(keys)@).push((key@, value@)));
}

fn launch(commands: &mut Vec<CommandEntry>, name: &str, program: &str, args: Vec<String>)
    requires
        forall|k: int|
            0 <= k < old(commands)@.len() ==> (#[trigger] old(commands)@[k]).command is Launch,
    ensures
        launches(final(commands)@) == launches(old(commands)@).push((name@, program@, texts(args@))),
        forall|k: int|
            0 <= k < final(commands)@.len() ==> (#[trigger] final(commands)@[k]).command is Launch,
{
    let c = CommandEntry {
        name: name.to_owned(),
        command: CommandSpec::Launch { program: program.to_owned(), args },
    };
    commands.push(c);
    assert(launches(commands@) =~= launches(old(commands)@).push(
        (name@, program@, texts(args@)),
    ));
}

fn arg(args: &mut Vec<String>, s: &str)
    ensures
        texts(final(args)@) == texts(old(args)@).push(s@),
{
    args.push(s.to_owned());
    assert(texts(args@) =~= texts(old(args)@).push(s@));
}

impl Default for KeyMap {
    fn default() -> (m: Self)
        ensures
            is_default(m),
    {
        let keys = built_in_keys();
        let commands = built_in_commands();
        KeyMap { keys, commands }
    }
}

fn built_in_keys() -> (keys: Vec<KeyBinding>)
    ensures
        pairs(keys@) == default_keys(),
{
    let mut keys: Vec<KeyBinding> = Vec::new();
    assert(pairs(keys@) =~= Seq::<(Seq<char>, Seq<char>)>::empty());
    bind(&mut keys, "enter", "exec");
    bind(&mut keys, "o", "exec");
    bind(&mut keys, "space", "quickview");
    bind(&mut keys, "tab", "fullview");
    bind(&mut keys, "c", "copy_path");
    bind(&mut keys, "q", "quit");
    bind(&mut keys, "f", "fullscreen");
    bind(&mut keys, "-", "zoom_out");
    bind(&mut keys, "=", "zoom_in");
    bind(&mut keys, "+", "zoom_in");
    bind(&mut keys, "0", "zoom_reset");
    bind(&mut keys, "a", "toggle_animated_thumbs");
    bind(&mut keys, "p", "toggle_focus_pause");
    bind(&mut keys, "r", "reveal");
    bind(&mut keys, "[", "skip_back");
    bind(&mut keys, "]", "skip_forward");
    bind(&mut keys, "g", "chapter_mode");
    bind(&mut keys, "D", "open_parent");
    bind(&mut keys, "x", "jump_random");
    bind(&mut keys, "s", "shuffle_library");
    bind(&mut keys, "t", "toggle_auto_skip");
    bind(&mut keys, "h", "move_left");
    bind(&mut keys, "j", "move_down");
    bind(&mut keys, "k", "move_up");
    bind(&mut keys, "l", "move_right");
    bind(&mut keys, "left", "move_left");
    bind(&mut keys, "down", "move_down");
    bind(&mut keys, "up", "move_up");
    bind(&mut keys, "right", "move_right");
    assert(pairs(keys@) =~= default_keys());
    keys
}

fn built_in_commands() -> (commands: Vec<CommandEntry>)
    ensures
        launches(commands@) == default_commands(),
        forall|k: int|
            0 <= k < commands@.len() ==> (#[trigger] commands@[k]).command is Launch,
{
    let mut commands: Vec<CommandEntry> = Vec::new();
    assert(launches(commands@) =~= Seq::<(Seq<char>, Seq<char>, Seq<Seq<char>>)>::empty());
    let mut exec_args: Vec<String> = Vec::new();
    assert(texts(exec_args@) =~= Seq::<Seq<char>>::empty());
    arg(&mut exec_args, "{path}");
    assert(texts(exec_args@) =~= seq!["{path}"@]);
    let launch_args = copy_texts(&exec_args);
    launch(&mut commands, "exec", "mpv", exec_args);
    launch(&mut commands, "launch", "mpv", launch_args);
    let mut preview: Vec<String> = Vec::new();
    assert(texts(preview@) =~= Seq::<Seq<char>>::empty());
    arg(&mut preview, "--no-fs");
    arg(&mut preview, "--loop-file=inf");
    arg(&mut preview, "--ontop");
    arg(&mut preview, "--no-terminal");
    arg(&mut preview, "--force-window=immediate");
    arg(&mut preview, "--autofit-larger=70%x70%");
    arg(&mut preview, "{path}");
    assert(texts(preview@) =~= default_commands()[2].2);
    launch(&mut commands, "preview", "mpv", preview);
    let mut reveal_args: Vec<String> = Vec::new();
    assert(texts(reveal_args@) =~= Seq::<Seq<char>>::empty());
    arg(&mut reveal_args, "-R");
    arg(&mut reveal_args, "{path}");
    assert(texts(reveal_args@) =~= seq!["-R"@, "{path}"@]);
    launch(&mut commands, "reveal", "open", reveal_args);
    assert(launches(commands@) =~= default_commands());
    commands
}

/// A user's binding for a key counts, and where the user binds nothing the one
/// below it does.
pub proof fn user_bindings_lie_on_top(base: Seq<KeyBinding>, user: Seq<KeyBinding>, key: Seq<char>)
    ensures
        bound(base + user, key) == (match bound(user, key) {
            Some(v) => Some(v),
            None => bound(base, key),
        }),
    decreases user.len(),
{
    if user.len() == 0 {
        assert(base + user =~= base);
    } else {
        assert((base + user).drop_last() =~= base + user.drop_last());
        user_bindings_lie_on_top(base, user.drop_last(), key);
    }
}

/// A user's command of a name counts, and where the user defines none the one
/// below it does.
pub proof fn user_commands_lie_on_top(
    base: Seq<CommandEntry>,
    user: Seq<CommandEntry>,
    name: Seq<char>,
)
    ensures
        command_named(base + user, name) == (match command_named(user, name) {
            Some(v) => Some(v),
            None => command_named(base, name),
        }),
    decreases user.len(),
{
    if user.len() == 0 {
        assert(base + user =~= base);
    } else {
        assert((base + user).drop_last() =~= base + user.drop_last());
        user_commands_lie_on_top(base, user.drop_last(), name);
    }
}


/// The directory part of a path, by the platform's rules for paths.
pub uninterp spec fn parent_text(path: Seq<char>) -> Option<Seq<char>>;

/// The last part of a path, by the platform's rules for paths.
pub uninterp spec fn file_name_text(path: Seq<char>) -> Option<Seq<char>>;

/// The text of an optional string.
pub open spec fn opt_string(a: Option<String>) -> Option<Seq<char>> {
    match a {
        Some(a) => Some(a@),
        None => None,
    }
}

/// The path without its last part.
///
/// Calls std's `Path::parent`; the contract gives the result, a function of
/// the path alone, the name `parent_text`.
#[verifier::external_body]
pub(crate) fn parent_of(path: &str) -> (r: Option<String>)
    ensures
        opt_string(r) == parent_text(path@),
{
    std::path::Path::new(path).parent().map(|p| p.to_string_lossy().into_owned())
}

/// The last part of the path.
///
/// Calls std's `Path::file_name`; the contract gives the result, a function of
/// the path alone, the name `file_name_text`.
#[verifier::external_body]
pub(crate) fn file_name_of(path: &str) -> (r: Option<String>)
    ensures
        opt_string(r) == file_name_text(path@),
{
    std::path::Path::new(path).file_name().map(|p| p.to_string_lossy().into_owned())
}

/// An argument with `{path}`, `{dir}` and `{name}` filled in, in this order.
pub open spec fn filled_in(
    arg: Seq<char>,
    path: Seq<char>,
    dir: Seq<char>,
    name: Seq<char>,
) -> Seq<char> {
    text::replaced(
        text::replaced(text::replaced(arg, "{path}"@, path), "{dir}"@, dir),
        "{name}"@,
        name,
    )
}

/// Fills `{path}`, `{dir}` and `{name}` in.
pub fn fill_in(arg: &str, path: &str, dir: &str, name: &str) -> (r: String)
    ensures
        r@ == filled_in(arg@, path@, dir@, name@),
{
    proof {
        reveal_strlit("{path}");
        reveal_strlit("{dir}");
        reveal_strlit("{name}");
    }
    let a = text::replace(arg, "{path}", path);
    let b = text::replace(a.as_str(), "{dir}", dir);
    text::replace(b.as_str(), "{name}", name)
}

/// The text, or an empty one.
pub open spec fn or_empty(a: Option<Seq<char>>) -> Seq<char> {
    match a {
        Some(a) => a,
        None => Seq::empty(),
    }
}

/// An argument with the clip's path, its directory and its file name filled in.
pub fn expand_template(arg: &str, path: &str) -> (r: String)
    ensures
        r@ == filled_in(
            arg@,
            path@,
            or_empty(parent_text(path@)),
            or_empty(file_name_text(path@)),
        ),
{
    let dir = match parent_of(path) {
        Some(d) => d,
        None => String::new(),
    };
    let name = match file_name_of(path) {
        Some(n) => n,
        None => String::new(),
    };
    fill_in(arg, path, dir.as_str(), name.as_str())
}

/// The program and the arguments that a launch on a clip runs with.
pub fn launch_line(program: &str, args: &Vec<String>, path: &str, home: Option<&str>) -> (r: (
    String,
    Vec<String>,
))
    ensures
        r.0@ == tilde_expanded(program@, opt_text(home)),
        r.1@.len() == args@.len(),
        forall|k: int|
            0 <= k < r.1@.len() ==> (#[trigger] r.1@[k])@ == filled_in(
                args@[k]@,
                path@,
                or_empty(parent_text(path@)),
                or_empty(file_name_text(path@)),
            ),
{
    let mut out: Vec<String> = Vec::new();
    let mut i: usize = 0;
    while i < args.len()
        invariant
            i <= args@.len(),
            out@.len() == i,
            forall|k: int|
                0 <= k < i ==> (#[trigger] out@[k])@ == filled_in(
                    args@[k]@,
                    path@,
                    or_empty(parent_text(path@)),
                    or_empty(file_name_text(path@)),
                ),
        decreases args@.len() - i,
    {
        out.push(expand_template(args[i].as_str(), path));
        i += 1;
    }
    (expand_tilde(program, home), out)
}

/// Reads a command entry of the configuration: its type (`external` is an older
/// name of `launch`) and the fields that the type needs. A launch without a
/// program, an internal command without an action and an unknown type are
/// refused.
pub fn command_of(
    kind: &str,
    program: Option<String>,
    args: Vec<String>,
    action: Option<String>,
    amount: Option<u32>,
) -> (r: Option<CommandSpec>)
    ensures
        r is Some <==> {
            ||| (kind@ == "launch"@ || kind@ == "external"@) && program is Some
            ||| kind@ == "internal"@ && action is Some
        },
        r matches Some(CommandSpec::Launch { program: p, args: a }) ==> (kind@ == "launch"@
            || kind@ == "external"@) && program == Some(p) && a == args,
        r matches Some(CommandSpec::Internal { action: a, amount: m }) ==> kind@ == "internal"@
            && action == Some(a) && m == amount,
{
    proof {
        reveal_strlit("launch");
        reveal_strlit("external");
        reveal_strlit("internal");
        assert("launch"@[0] != "internal"@[0]);
        assert("external"@[0] != "internal"@[0]);
    }
    if text::same(kind, "launch") || text::same(kind, "external") {
        match program {
            Some(program) => Some(CommandSpec::Launch { program, args }),
            None => None,
        }
    } else if text::same(kind, "internal") {
        match action {
            Some(action) => Some(CommandSpec::Internal { action, amount }),
            None => None,
        }
    } else {
        None
    }
}

} // verus!
