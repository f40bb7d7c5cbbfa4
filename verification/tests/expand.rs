use quickterm::error::QuicktermError;
use quickterm::expand::{env_map, expand_command, expand_string, expand_template};
use quickterm::strmap::StringMap;

#[test]
fn expands_environment_placeholders() {
    let mut vars = StringMap::new();
    vars.insert("$HOME".to_string(), "/home/tester".to_string());

    let result = expand_template("{$HOME}/bin", &vars).unwrap();
    assert_eq!(result, "/home/tester/bin");
}

#[test]
fn expands_named_placeholders() {
    let mut vars = StringMap::new();
    vars.insert("title".to_string(), "'python - quickterm'".to_string());

    let result = expand_template("{title}", &vars).unwrap();
    assert_eq!(result, "'python - quickterm'");
}

#[test]
fn splits_shell_like_arguments() {
    let mut vars = StringMap::new();
    vars.insert("$HOME".to_string(), "/home/tester".to_string());

    let argv = expand_command("printf '{$HOME} file' --flag", &vars).unwrap();
    assert_eq!(argv, vec!["printf", "/home/tester file", "--flag"]);
}

#[test]
fn expands_path_without_shell_splitting() {
    let mut vars = StringMap::new();
    vars.insert("$HOME".to_string(), "/home/tester".to_string());

    let result = expand_string("{$HOME}/cache file", &vars).unwrap();
    assert_eq!(result, "/home/tester/cache file");
}

#[test]
fn missing_placeholder_is_reported() {
    let vars = StringMap::new();
    match expand_template("run {nope} now", &vars) {
        Err(QuicktermError::Expansion(m)) => assert_eq!(m, "missing placeholder {nope}"),
        other => panic!("unexpected {:?}", other),
    }
}

#[test]
fn unclosed_brace_is_kept() {
    let vars = StringMap::new();
    assert_eq!(expand_template("a { b", &vars).unwrap(), "a { b");
    assert_eq!(expand_template("", &vars).unwrap(), "");
    assert_eq!(expand_template("plain text", &vars).unwrap(), "plain text");
}

#[test]
fn key_runs_to_the_first_closing_brace() {
    let mut vars = StringMap::new();
    vars.insert("a{b".to_string(), "X".to_string());
    vars.insert("c".to_string(), "Y".to_string());
    assert_eq!(expand_template("{a{b}}{c}", &vars).unwrap(), "X}Y");
    assert_eq!(expand_template("{}", &vars).is_err(), true);
}

#[test]
fn later_placeholder_value_wins() {
    let mut vars = StringMap::new();
    vars.insert("k".to_string(), "one".to_string());
    vars.insert("k".to_string(), "two".to_string());
    assert_eq!(vars.len(), 1);
    assert_eq!(expand_template("{k}{k}", &vars).unwrap(), "twotwo");
}

#[test]
fn unbalanced_quote_cannot_be_split() {
    let vars = StringMap::new();
    match expand_command("echo 'open", &vars) {
        Err(QuicktermError::Expansion(m)) => assert_eq!(m, "could not parse command: echo 'open"),
        other => panic!("unexpected {:?}", other),
    }
}

#[test]
fn command_split_handles_double_quotes_and_spaces() {
    let vars = StringMap::new();
    let argv = expand_command("  a  \"b c\"   d ", &vars).unwrap();
    assert_eq!(argv, vec!["a", "b c", "d"]);
}

#[test]
fn environment_variables_become_dollar_placeholders() {
    let vars = vec![
        ("HOME".to_string(), "/home/x".to_string()),
        ("SHELL".to_string(), "/bin/zsh".to_string()),
    ];
    let map = env_map(&vars);
    assert_eq!(map.get("$HOME").map(String::as_str), Some("/home/x"));
    assert_eq!(map.get("$SHELL").map(String::as_str), Some("/bin/zsh"));
    assert!(map.get("HOME").is_none());
    assert_eq!(expand_string("{$SHELL}", &map).unwrap(), "/bin/zsh");
}

#[test]
fn plain_prefix_and_unclosed_suffix_are_copied() {
    let mut vars = StringMap::new();
    vars.insert("k".to_string(), "V".to_string());
    let b = "x{k}y";
    let whole = expand_template(&format!("abc{}", b), &vars).unwrap();
    assert_eq!(whole, format!("abc{}", expand_template(b, &vars).unwrap()));
    let a = "{k}-{";
    let whole = expand_template(&format!("{}tail {{ more", a), &vars).unwrap();
    assert_eq!(whole, format!("{}tail {{ more", expand_template(a, &vars).unwrap()));
    assert!(expand_template("pre{nope}", &vars).is_err());
}
