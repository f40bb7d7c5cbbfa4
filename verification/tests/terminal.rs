use quickterm::error::QuicktermError;
use quickterm::strmap::StringMap;
use quickterm::terminal::{build_terminal_command, quoted, reentry_argv, term_title};

#[test]
fn term_title_matches_expected_format() {
    assert_eq!(term_title("python"), "python - quickterm");
}

#[test]
fn builds_alacritty_command() {
    let argv = build_terminal_command(
        "alacritty",
        "python - quickterm",
        &[
            "quickterm".to_string(),
            "--in-place".to_string(),
            "python".to_string(),
        ],
        &StringMap::new(),
    )
    .unwrap();

    assert_eq!(
        argv,
        vec![
            "alacritty",
            "-t",
            "python - quickterm",
            "-e",
            "quickterm",
            "--in-place",
            "python",
        ]
    );
}

#[test]
fn builds_foot_command() {
    let argv = build_terminal_command(
        "foot",
        "python - quickterm",
        &[
            "quickterm".to_string(),
            "--in-place".to_string(),
            "python".to_string(),
        ],
        &StringMap::new(),
    )
    .unwrap();

    assert_eq!(
        argv,
        vec![
            "footclient",
            "--title=python - quickterm",
            "--hold",
            "--app-id=foot-sp",
            "quickterm",
            "--in-place",
            "python",
        ]
    );
}

#[test]
fn builds_custom_terminal_command_from_template() {
    let argv = build_terminal_command(
        "urxvt -T {title} -e {expanded}",
        "python - quickterm",
        &[
            "quickterm".to_string(),
            "--in-place".to_string(),
            "python".to_string(),
        ],
        &StringMap::new(),
    )
    .unwrap();

    assert_eq!(
        argv,
        vec![
            "urxvt",
            "-T",
            "python - quickterm",
            "-e",
            "quickterm",
            "--in-place",
            "python",
        ]
    );
}

#[test]
fn custom_template_sees_string_and_environment() {
    let mut env = StringMap::new();
    env.insert("$TERMINAL".to_string(), "kitty".to_string());
    let argv = build_terminal_command(
        "{$TERMINAL} --title {title} sh -c {string}",
        "js - quickterm",
        &["quickterm".to_string(), "--in-place".to_string(), "js".to_string()],
        &env,
    )
    .unwrap();
    assert_eq!(
        argv,
        vec!["kitty", "--title", "js - quickterm", "sh", "-c", "quickterm --in-place js"]
    );
}

#[test]
fn custom_template_with_unknown_placeholder_fails() {
    match build_terminal_command("xterm {nope}", "t", &[], &StringMap::new()) {
        Err(QuicktermError::Expansion(m)) => assert_eq!(m, "missing placeholder {nope}"),
        other => panic!("unexpected {:?}", other),
    }
}

#[test]
fn quoting_and_reentry() {
    assert_eq!(quoted("a b"), "'a b'");
    assert_eq!(quoted(""), "''");
    assert_eq!(
        reentry_argv("/usr/bin/quickterm", "shell"),
        vec!["/usr/bin/quickterm", "--in-place", "shell"]
    );
}
