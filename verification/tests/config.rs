use quickterm::config::{
    apply_partial, config_path_for, config_path_from_env, default_config, history_path,
    legacy_config_path_for, load_config, PartialConfig, Position,
};
use quickterm::error::QuicktermError;
use quickterm::strmap::StringMap;

#[test]
fn default_config_contains_expected_shells() {
    let config = default_config();
    assert_eq!(
        config.menu,
        "rofi -dmenu -p 'quickterm: ' -no-custom -auto-select"
    );
    assert_eq!(config.term, "urxvt");
    assert_eq!(
        config.history.as_deref(),
        Some("{$HOME}/.cache/quickterm.order")
    );
    assert!((f64::from_bits(config.ratio_bits) - 0.25).abs() < f64::EPSILON);
    assert_eq!(config.pos, Position::Top);
    assert_eq!(
        config.shells.get("python").map(String::as_str),
        Some("ipython3 --no-banner")
    );
    assert_eq!(
        config.shells.get("shell").map(String::as_str),
        Some("{$SHELL}")
    );
}

#[test]
fn config_path_prefers_xdg_config_dir() {
    let path = config_path_for("/home/tester", Some("/tmp/xdg-config"));
    assert_eq!(path, "/tmp/xdg-config/quickterm.json");
}

#[test]
fn config_path_falls_back_to_home_config() {
    let path = config_path_for("/home/tester", None);
    assert_eq!(path, "/home/tester/.config/quickterm.json");
}

#[test]
fn legacy_config_path_uses_old_filename() {
    let path = legacy_config_path_for("/home/tester", Some("/tmp/xdg-config"));
    assert_eq!(path, "/tmp/xdg-config/i3-quickterm.json");
}

#[test]
fn legacy_config_path_falls_back_to_home_config() {
    let path = legacy_config_path_for("/home/tester", None);
    assert_eq!(path, "/home/tester/.config/i3-quickterm.json");
}

#[test]
fn default_config_has_four_shells() {
    let config = default_config();
    assert_eq!(config.shells.len(), 4);
    assert_eq!(config.shells.keys(), vec!["haskell", "js", "python", "shell"]);
    assert_eq!(config.shells.get("js").map(String::as_str), Some("node"));
    assert_eq!(config.shells.get("haskell").map(String::as_str), Some("ghci"));
    assert!(config.shells.get("ruby").is_none());
}

#[test]
fn missing_home_is_an_invalid_config() {
    match config_path_from_env(None, Some("/tmp/xdg")) {
        Err(QuicktermError::InvalidConfig(m)) => assert_eq!(m, "HOME is not set"),
        other => panic!("unexpected {:?}", other),
    }
    assert_eq!(
        config_path_from_env(Some("/home/a"), None).unwrap(),
        "/home/a/.config/quickterm.json"
    );
}

fn empty_partial() -> PartialConfig {
    PartialConfig {
        menu: None,
        term: None,
        history: None,
        ratio_bits: None,
        pos: None,
        shells: None,
    }
}

#[test]
fn partial_config_overrides_only_given_settings() {
    let mut partial = empty_partial();
    partial.term = Some("foot".to_string());
    partial.history = Some(None);
    partial.pos = Some(Position::Center);
    partial.ratio_bits = Some(0.5f64.to_bits());
    let config = apply_partial(default_config(), partial);
    assert_eq!(config.term, "foot");
    assert_eq!(config.history, None);
    assert_eq!(config.pos, Position::Center);
    assert_eq!(f64::from_bits(config.ratio_bits), 0.5);
    assert_eq!(
        config.menu,
        "rofi -dmenu -p 'quickterm: ' -no-custom -auto-select"
    );
    assert_eq!(config.shells.len(), 4);
}

#[test]
fn partial_config_replaces_all_shells() {
    let mut shells = StringMap::new();
    shells.insert("zsh".to_string(), "zsh".to_string());
    let mut partial = empty_partial();
    partial.shells = Some(shells);
    let config = load_config(Some(Ok(partial))).unwrap();
    assert_eq!(config.shells.keys(), vec!["zsh"]);
    assert_eq!(config.term, "urxvt");
}

#[test]
fn no_config_file_gives_defaults() {
    let config = load_config(None).unwrap();
    assert_eq!(config.term, "urxvt");
    assert_eq!(config.pos, Position::Top);
}

#[test]
fn unparsable_config_file_is_invalid() {
    match load_config(Some(Err("expected value at line 1".to_string()))) {
        Err(QuicktermError::InvalidConfig(m)) => assert_eq!(m, "expected value at line 1"),
        other => panic!("unexpected {:?}", other.map(|c| c.term)),
    }
}

#[test]
fn history_path_expands_home() {
    let mut env = StringMap::new();
    env.insert("$HOME".to_string(), "/home/tester".to_string());
    let path = history_path(&Some("{$HOME}/.cache/quickterm.order".to_string()), &env).unwrap();
    assert_eq!(path.as_deref(), Some("/home/tester/.cache/quickterm.order"));
    assert_eq!(history_path(&None, &env).unwrap(), None);
    assert!(history_path(&Some("{$NOPE}/x".to_string()), &env).is_err());
}
