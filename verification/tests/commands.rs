use switchblade::commands::{
    command_of, expand_template, expand_tilde, internal_action, key_name, launch_line,
    split_binding, unquote, Action, CommandEntry, CommandSpec, Key, KeyBinding, KeyMap,
};

fn bind(key: &str, value: &str) -> KeyBinding {
    KeyBinding { key: key.to_string(), value: value.to_string() }
}

#[test]
fn templates_expand() {
    let p = "/clips/sub/take one.mp4";
    assert_eq!(expand_template("{path}", p), "/clips/sub/take one.mp4");
    assert_eq!(expand_template("{dir}", p), "/clips/sub");
    assert_eq!(expand_template("--title={name}", p), "--title=take one.mp4");
}

#[test]
fn defaults_resolve() {
    let map = KeyMap::default();
    assert!(matches!(map.action_for(Key::Char('q'), None), Some(Action::Quit)));
    assert!(matches!(
        map.action_for(Key::Enter, None),
        Some(Action::Spawn { ref program, .. }) if program == "mpv"
    ));
    assert!(matches!(
        map.action_for(Key::Char('a'), None),
        Some(Action::ToggleAnimatedThumbs)
    ));
    assert!(map.action_for(Key::Char('y'), None).is_none());
}

#[test]
fn movement_defaults_resolve_and_stay_remappable() {
    let map = KeyMap::default();
    for (key, dx, dy) in [
        (Key::Char('h'), -1, 0),
        (Key::Char('l'), 1, 0),
        (Key::Char('k'), 0, -1),
        (Key::Char('j'), 0, 1),
        (Key::Left, -1, 0),
        (Key::Right, 1, 0),
        (Key::Up, 0, -1),
        (Key::Down, 0, 1),
    ] {
        assert!(
            matches!(
                map.action_for(key, None),
                Some(Action::Move { dx: ax, dy: ay }) if ax == dx && ay == dy
            ),
            "wrong action for {key:?}"
        );
    }
    let map = KeyMap::merged(vec![bind("n", "next"), bind("j", "prev")], vec![]);
    assert!(matches!(map.action_for(Key::Char('n'), None), Some(Action::SelectNext)));
    assert!(matches!(map.action_for(Key::Char('j'), None), Some(Action::SelectPrev)));
}

#[test]
fn skip_and_parent_defaults_resolve() {
    let map = KeyMap::default();
    assert!(matches!(
        map.action_for(Key::Char('['), None),
        Some(Action::Skip { forward: false, amount: None })
    ));
    assert!(matches!(
        map.action_for(Key::Char(']'), None),
        Some(Action::Skip { forward: true, amount: None })
    ));
    assert!(matches!(map.action_for(Key::Char('D'), None), Some(Action::OpenParent)));
}

#[test]
fn random_shuffle_and_auto_skip_defaults_resolve() {
    let map = KeyMap::default();
    assert!(matches!(map.action_for(Key::Char('x'), None), Some(Action::JumpRandom)));
    assert!(matches!(map.action_for(Key::Char('s'), None), Some(Action::ShuffleLibrary)));
    assert!(matches!(map.action_for(Key::Char('t'), None), Some(Action::ToggleAutoSkip)));
    assert!(matches!(
        internal_action("jump_to_random", None, None, None),
        Some(Action::JumpRandom)
    ));
    assert!(matches!(
        internal_action("shuffle", None, None, None),
        Some(Action::ShuffleLibrary)
    ));
    for legacy in ["toggle_skip_timer", "skip_timer", "auto_skip"] {
        assert!(matches!(
            internal_action(legacy, None, None, None),
            Some(Action::ToggleAutoSkip)
        ));
    }
}

#[test]
fn fullview_binds_to_tab() {
    let map = KeyMap::default();
    assert!(matches!(map.action_for(Key::Tab, None), Some(Action::Fullview)));
}

#[test]
fn chapter_mode_binds_to_g() {
    let map = KeyMap::default();
    assert!(matches!(map.action_for(Key::Char('g'), None), Some(Action::ChapterMode)));
    assert!(matches!(
        internal_action("chapters", None, None, None),
        Some(Action::ChapterMode)
    ));
}

#[test]
fn fullscreen_flavors_resolve() {
    let map = KeyMap::default();
    assert!(matches!(
        map.action_for(Key::Char('f'), None),
        Some(Action::ToggleFullscreen { fast: false })
    ));
    let map = KeyMap::merged(vec![bind("F", "fast_fullscreen")], vec![]);
    assert!(matches!(
        map.action_for(Key::Char('F'), None),
        Some(Action::ToggleFullscreen { fast: true })
    ));
}

#[test]
fn internal_amount_reaches_the_action() {
    let doc: toml::Table =
        toml::from_str("type = \"internal\"\naction = \"skip_forward\"\namount = 0.25").unwrap();
    let amount = doc["amount"].as_float().unwrap();
    let spec = command_of(
        doc["type"].as_str().unwrap(),
        None,
        vec![],
        doc["action"].as_str().map(|s| s.to_string()),
        Some((amount * 1e9) as u32),
    )
    .unwrap();
    let map = KeyMap::merged(
        vec![bind("s", "big_skip")],
        vec![CommandEntry { name: "big_skip".to_string(), command: spec }],
    );
    match map.action_for(Key::Char('s'), None) {
        Some(Action::Skip { forward: true, amount: Some(a) }) => assert_eq!(a, 250_000_000),
        _ => panic!("unexpected action"),
    }
}

#[test]
fn open_library_binding_parses_an_inline_path() {
    let map = KeyMap::merged(
        vec![
            bind("1", "open '~/Movies/Prawns/'"),
            bind("2", "library /Volumes/Prawns/Movies"),
        ],
        vec![],
    );
    match map.action_for(Key::Char('1'), Some("/home/me")) {
        Some(Action::OpenLibrary { dir }) => assert_eq!(dir, "/home/me/Movies/Prawns/"),
        _ => panic!("unexpected action"),
    }
    assert!(matches!(
        map.action_for(Key::Char('2'), None),
        Some(Action::OpenLibrary { ref dir }) if dir == "/Volumes/Prawns/Movies"
    ));
    assert!(internal_action("open", None, None, None).is_none());
}

#[test]
fn several_keys_can_share_one_action() {
    let map = KeyMap::default();
    for key in [Key::Up, Key::Char('k')] {
        assert!(matches!(map.action_for(key, None), Some(Action::Move { dx: 0, dy: -1 })));
    }
    let map = KeyMap::merged(vec![bind("w", "move_up"), bind("up", "move_up")], vec![]);
    for key in [Key::Char('w'), Key::Up, Key::Char('k')] {
        assert!(
            matches!(map.action_for(key, None), Some(Action::Move { dx: 0, dy: -1 })),
            "wrong action for {key:?}"
        );
    }
}

#[test]
fn launch_parses_and_external_stays_an_alias() {
    for ty in ["launch", "external"] {
        let doc: toml::Table =
            toml::from_str(&format!("type = \"{ty}\"\nprogram = \"mpv\"")).unwrap();
        let spec = command_of(
            doc["type"].as_str().unwrap(),
            doc["program"].as_str().map(|s| s.to_string()),
            vec![],
            None,
            None,
        );
        assert!(matches!(spec, Some(CommandSpec::Launch { .. })), "type = {ty}");
    }
}

#[test]
fn user_entries_override_defaults() {
    let map = KeyMap::merged(
        vec![bind("o", "reveal")],
        vec![CommandEntry {
            name: "reveal".to_string(),
            command: CommandSpec::Launch {
                program: "open".to_string(),
                args: vec!["-R".to_string(), "{path}".to_string()],
            },
        }],
    );
    assert!(matches!(
        map.action_for(Key::Char('o'), None),
        Some(Action::Spawn { ref program, .. }) if program == "open"
    ));
    assert!(matches!(map.action_for(Key::Char('q'), None), Some(Action::Quit)));
}

#[test]
fn commands_without_their_field_are_refused() {
    assert!(command_of("launch", None, vec![], None, None).is_none());
    assert!(command_of("internal", None, vec![], None, None).is_none());
    assert!(command_of("frob", Some("mpv".to_string()), vec![], None, None).is_none());
}

#[test]
fn bindings_split_at_white_space_and_lose_their_quotes() {
    assert_eq!(split_binding("open '~/a b'"), ("open", Some("~/a b")));
    assert_eq!(split_binding("quit"), ("quit", None));
    assert_eq!(unquote("'x'"), "x");
    assert_eq!(unquote("\"x\""), "x");
    assert_eq!(unquote("'x\""), "'x\"");
    assert_eq!(key_name(Key::Char('q')), "q");
    assert_eq!(key_name(Key::Space), "space");
}

#[test]
fn a_program_below_home_is_found() {
    assert_eq!(expand_tilde("~/bin/mpv", Some("/home/me")), "/home/me/bin/mpv");
    assert_eq!(expand_tilde("mpv", Some("/home/me")), "mpv");
    let (program, args) = launch_line(
        "~/bin/mpv",
        &vec!["--title={name}".to_string(), "{path}".to_string()],
        "/clips/a.mp4",
        Some("/home/me"),
    );
    assert_eq!(program, "/home/me/bin/mpv");
    assert_eq!(args, vec!["--title=a.mp4".to_string(), "/clips/a.mp4".to_string()]);
}
