use switchblade::tuning::{
    config_candidates, config_choice, AnimLevel, BackdropStyle, GridStyle, Interaction, SortMode,
    Tuning, TuningFile,
};

#[test]
fn grid_layout_parses_with_aliases() {
    assert_eq!(Tuning::default().grid_layout, GridStyle::Flexible);
    for (s, want) in [
        ("fixed", GridStyle::Fixed),
        ("square", GridStyle::Fixed),
        ("flexible", GridStyle::Flexible),
        ("variable", GridStyle::Flexible),
        ("mosaic", GridStyle::Flexible),
    ] {
        let t: toml::Table = toml::from_str(&format!("grid_layout = \"{s}\"")).unwrap();
        assert_eq!(GridStyle::parse(t["grid_layout"].as_str().unwrap()), Some(want), "{s}");
    }
}

#[test]
fn words_of_the_configuration_parse() {
    assert_eq!(AnimLevel::parse("none"), Some(AnimLevel::Still));
    assert_eq!(AnimLevel::parse("minimal"), Some(AnimLevel::Minimal));
    assert_eq!(AnimLevel::parse("full"), Some(AnimLevel::Normal));
    assert_eq!(AnimLevel::parse("loud"), None);
    assert_eq!(Interaction::parse("attention"), Some(Interaction::Attention));
    assert_eq!(Interaction::parse("modern"), None);
    assert_eq!(BackdropStyle::parse("flat"), Some(BackdropStyle::Flat));
    assert_eq!(SortMode::parse("none"), Some(SortMode::Arrival));
    assert_eq!(GridStyle::parse("round"), None);
}

#[test]
fn levels_say_what_moves() {
    assert!(!AnimLevel::Still.ui() && !AnimLevel::Still.live());
    assert!(AnimLevel::Normal.ui() && AnimLevel::Normal.live());
    assert!(!AnimLevel::Minimal.live());
}

#[test]
fn a_watch_is_due_at_once_and_then_not_for_a_while() {
    let mut f = TuningFile::new("a.toml".to_string(), 5_000_000_000);
    assert!(f.due(5_000_000_000));
    assert!(!f.due(5_100_000_000));
    assert!(f.due(5_250_000_000));
    assert!(f.poll(Some(7)));
    assert!(!f.poll(Some(7)));
    assert!(f.poll(Some(8)));
    assert!(f.poll(None));
    assert!(!f.poll(None));
}

#[test]
fn the_first_configuration_that_is_there_is_read() {
    let places = config_candidates(None, Some("/home/me"));
    assert!(!places.is_empty());
    assert_eq!(config_choice(&vec![false, true, true]), 1);
}
