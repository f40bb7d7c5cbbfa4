use quickterm::config::default_config;
use quickterm::error::QuicktermError;
use quickterm::menu::{check_menu_command, menu_choice, menu_input};
use quickterm::session::{
    check_shell, launch_in_place, run_mode, select_step, toggle_step, Mode, SelectAction,
    SelectEvent, SelectState, ToggleAction, ToggleEvent, ToggleState,
};
use quickterm::strmap::StringMap;

fn env() -> StringMap {
    let mut e = StringMap::new();
    e.insert("$HOME".to_string(), "/home/t".to_string());
    e.insert("$SHELL".to_string(), "/bin/bash".to_string());
    e
}

#[test]
fn modes_follow_the_command_line() {
    assert!(matches!(run_mode(None, true), Mode::Select));
    assert!(matches!(run_mode(Some("js".to_string()), false), Mode::Toggle(s) if s == "js"));
    assert!(matches!(run_mode(Some("js".to_string()), true), Mode::InPlace(s) if s == "js"));
}

#[test]
fn unknown_shell_on_the_command_line_is_refused() {
    let config = default_config();
    assert!(check_shell(&config.shells, Some("python")).is_ok());
    assert!(check_shell(&config.shells, None).is_ok());
    match check_shell(&config.shells, Some("ruby")) {
        Err(e @ QuicktermError::UnknownShell(_)) => assert_eq!(e.message(), "unknown shell: ruby"),
        other => panic!("unexpected {:?}", other),
    }
}

#[test]
fn toggling_without_a_terminal_launches_one() {
    let config = default_config();
    let e = env();
    let (state, action) = toggle_step(&config, "qt", &e, "js", ToggleState::Start, ToggleEvent::Begin);
    assert!(matches!(&action, ToggleAction::Search { mark } if mark == "quickterm_js"));
    let (state, action) = toggle_step(&config, "qt", &e, "js", state, ToggleEvent::Found(vec![]));
    assert!(matches!(state, ToggleState::Done));
    match action {
        ToggleAction::Launch { argv } => assert_eq!(argv, vec!["urxvt"]),
        other => panic!("unexpected {:?}", other),
    }
}

#[test]
fn toggling_an_existing_terminal_hides_or_fetches_it() {
    let mut config = default_config();
    config.term = "alacritty".to_string();
    let e = env();
    let (state, _) = toggle_step(&config, "qt", &e, "js", ToggleState::Start, ToggleEvent::Begin);
    let (state, action) = toggle_step(&config, "qt", &e, "js", state, ToggleEvent::Found(vec![7, 8]));
    assert!(matches!(action, ToggleAction::Locate { node: 7 }));
    let (_, action) = toggle_step(
        &config,
        "qt",
        &e,
        "js",
        state,
        ToggleEvent::Located { current: "1".to_string(), node_workspace: Some("1".to_string()) },
    );
    match action {
        ToggleAction::Hide { command, show_mark } => {
            assert_eq!(command, "[con_id=7] floating enable, move scratchpad");
            assert_eq!(show_mark, None);
        }
        other => panic!("unexpected {:?}", other),
    }
    let located = ToggleState::Locating { mark: "quickterm_js".to_string(), node: 9 };
    let (_, action) = toggle_step(
        &config,
        "qt",
        &e,
        "js",
        located,
        ToggleEvent::Located { current: "1".to_string(), node_workspace: None },
    );
    match action {
        ToggleAction::Hide { command, show_mark } => {
            assert_eq!(command, "[con_id=9] floating enable, move scratchpad");
            assert_eq!(show_mark.as_deref(), Some("quickterm_js"));
        }
        other => panic!("unexpected {:?}", other),
    }
}

#[test]
fn toggling_an_unknown_shell_fails() {
    let config = default_config();
    let (state, action) =
        toggle_step(&config, "qt", &env(), "ruby", ToggleState::Start, ToggleEvent::Begin);
    assert!(matches!(state, ToggleState::Done));
    assert!(matches!(action, ToggleAction::Fail(QuicktermError::UnknownShell(s)) if s == "ruby"));
}

#[test]
fn launching_foot_runs_this_program_in_place() {
    let mut config = default_config();
    config.term = "foot".to_string();
    let (state, _) = toggle_step(&config, "qt", &env(), "js", ToggleState::Start, ToggleEvent::Begin);
    let (_, action) = toggle_step(&config, "qt", &env(), "js", state, ToggleEvent::Found(vec![]));
    match action {
        ToggleAction::Launch { argv } => assert_eq!(
            argv,
            vec!["footclient", "--title=js - quickterm", "--hold", "--app-id=foot-sp", "qt", "--in-place", "js"]
        ),
        other => panic!("unexpected {:?}", other),
    }
}

#[test]
fn selecting_hides_a_visible_terminal_first() {
    let config = default_config();
    let e = env();
    let (state, action) = select_step(&config, &e, SelectState::Start, SelectEvent::Begin);
    assert!(matches!(&action, SelectAction::FindVisible { pattern } if pattern == "quickterm_.*"));
    let (state, action) = select_step(&config, &e, state, SelectEvent::Visible(vec![5]));
    assert!(matches!(state, SelectState::Done));
    assert!(matches!(&action, SelectAction::Hide { command } if command == "[con_id=5] floating enable, move scratchpad"));
}

#[test]
fn selecting_runs_the_menu_and_stores_the_choice() {
    let mut config = default_config();
    config.menu = "dmenu -p pick".to_string();
    let e = env();
    let (state, _) = select_step(&config, &e, SelectState::Start, SelectEvent::Begin);
    let (state, action) = select_step(&config, &e, state, SelectEvent::Visible(vec![]));
    match &action {
        SelectAction::ReadHistory { path } => {
            assert_eq!(path.as_deref(), Some("/home/t/.cache/quickterm.order"))
        }
        other => panic!("unexpected {:?}", other),
    }
    let stored = "[\"python\",\"shell\",\"js\",\"haskell\"]".to_string();
    let (state, action) = select_step(&config, &e, state, SelectEvent::HistoryRead(Some(stored)));
    match &action {
        SelectAction::ShowMenu { argv, input } => {
            assert_eq!(argv, &vec!["dmenu", "-p", "pick"]);
            assert_eq!(input, "python\nshell\njs\nhaskell\n");
        }
        other => panic!("unexpected {:?}", other),
    }
    let (_, action) = select_step(&config, &e, state, SelectEvent::MenuOutput(b"js\n".to_vec()));
    match action {
        SelectAction::Choose { shell, history } => {
            assert_eq!(shell, "js");
            assert_eq!(history.as_deref(), Some("[\"js\",\"python\",\"shell\",\"haskell\"]"));
        }
        other => panic!("unexpected {:?}", other),
    }
}

#[test]
fn selecting_without_history_offers_sorted_shells() {
    let mut config = default_config();
    config.history = None;
    config.menu = "menu".to_string();
    let e = env();
    let (state, action) =
        select_step(&config, &e, SelectState::Probing, SelectEvent::Visible(vec![]));
    assert!(matches!(&action, SelectAction::ReadHistory { path: None }));
    let (state, action) = select_step(&config, &e, state, SelectEvent::HistoryRead(None));
    assert!(matches!(&action, SelectAction::ShowMenu { input, .. } if input == "haskell\njs\npython\nshell\n"));
    let (_, action) = select_step(&config, &e, state, SelectEvent::MenuOutput(b"  cobol \n".to_vec()));
    assert!(matches!(action, SelectAction::Nothing));
}

#[test]
fn selecting_with_an_empty_menu_command_fails() {
    let mut config = default_config();
    config.menu = "   ".to_string();
    config.history = None;
    let (_, action) =
        select_step(&config, &env(), SelectState::Loading { with_history: false }, SelectEvent::HistoryRead(None));
    match action {
        SelectAction::Fail(e @ QuicktermError::Menu(_)) => {
            assert_eq!(e.message(), "failed to run menu: empty menu command")
        }
        other => panic!("unexpected {:?}", other),
    }
}

#[test]
fn running_in_place_marks_hides_and_expands() {
    let config = default_config();
    let plan = launch_in_place(&config.shells, "shell", &env()).unwrap();
    assert_eq!(plan.mark, "quickterm_shell");
    assert_eq!(plan.mark_command, "mark quickterm_shell");
    assert_eq!(plan.hide_command, "[con_mark=quickterm_shell] floating enable, move scratchpad");
    assert_eq!(plan.argv.unwrap(), vec!["/bin/bash"]);
    let python = launch_in_place(&config.shells, "python", &env()).unwrap();
    assert_eq!(python.argv.unwrap(), vec!["ipython3", "--no-banner"]);
    assert!(matches!(
        launch_in_place(&config.shells, "ruby", &env()),
        Err(QuicktermError::UnknownShell(s)) if s == "ruby"
    ));
}

#[test]
fn menu_text_and_choice() {
    assert_eq!(menu_input(&["a".to_string(), "b c".to_string()]), "a\nb c\n");
    assert_eq!(menu_input(&[]), "");
    assert_eq!(menu_choice(b"  python\n"), "python");
    assert_eq!(menu_choice(b"a\xffb"), "a\u{fffd}b");
    assert!(check_menu_command(&[]).is_err());
    assert!(check_menu_command(&["x".to_string()]).is_ok());
}

#[test]
fn error_messages_name_their_kind() {
    assert_eq!(QuicktermError::InvalidConfig("x".to_string()).message(), "invalid config file: x");
    assert_eq!(QuicktermError::Expansion("x".to_string()).message(), "failed to expand command: x");
    assert_eq!(QuicktermError::Ipc("x".to_string()).message(), "ipc error: x");
    assert_eq!(QuicktermError::Io("x".to_string()).message(), "io error: x");
    assert_eq!(QuicktermError::Json("x".to_string()).message(), "json error: x");
}
