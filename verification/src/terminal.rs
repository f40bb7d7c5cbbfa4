//! The command that opens a terminal running a shell.

use vstd::prelude::*;

use crate::error::QuicktermError;
use crate::expand::{command_result_matches, expand_command};
use crate::strmap::StringMap;
use crate::text::{compare_str, concat3, copy_str, copy_strings, join, joined, string_views, Cmp};

verus! {

/// `s` between single quotes.
pub open spec fn quoted_spec(s: Seq<char>) -> Seq<char> {
    seq!['\''] + s + seq!['\'']
}

/// Puts `s` between single quotes.
pub fn quoted(s: &str) -> (r: String)
    ensures
        r@ == quoted_spec(s@),
{
    let r = concat3("'", s, "'");
    proof {
        reveal_strlit("'");
    }
    r
}

/// The window title of the terminal for `shell`.
pub open spec fn term_title_spec(shell: Seq<char>) -> Seq<char> {
    shell + " - quickterm"@
}

/// The window title of the terminal for `shell`.
pub fn term_title(shell: &str) -> (r: String)
    ensures
        r@ == term_title_spec(shell@),
{
    let r = concat3(shell, " - quickterm", "");
    proof {
        reveal_strlit("");
    }
    assert(r@ == shell@ + " - quickterm"@);
    r
}

/// The placeholders a custom terminal template can use: those of the
/// environment, then `title` (quoted), `expanded` (the command words joined by
/// spaces) and `string` (the same, quoted).
pub open spec fn terminal_vars(
    env: Map<Seq<char>, Seq<char>>,
    title: Seq<char>,
    argv: Seq<Seq<char>>,
) -> Map<Seq<char>, Seq<char>> {
    env.insert("title"@, quoted_spec(title)).insert("expanded"@, joined(argv, " "@)).insert(
        "string"@,
        quoted_spec(joined(argv, " "@)),
    )
}

/// The words for `foot`: its client with a title, held open, with the
/// application id the window rules expect, then the command.
pub open spec fn foot_words(title: Seq<char>, argv: Seq<Seq<char>>) -> Seq<Seq<char>> {
    seq!["footclient"@, "--title="@ + title, "--hold"@, "--app-id=foot-sp"@] + argv
}

/// The words for `alacritty`: a title, then `-e` and the command.
pub open spec fn alacritty_words(title: Seq<char>, argv: Seq<Seq<char>>) -> Seq<Seq<char>> {
    seq!["alacritty"@, "-t"@, title, "-e"@] + argv
}

/// What [`build_terminal_command`] gives: fixed words for the two known
/// terminals, else the expansion and splitting of `term` as a template.
pub open spec fn terminal_command_matches(
    term: Seq<char>,
    title: Seq<char>,
    argv: Seq<Seq<char>>,
    env: Map<Seq<char>, Seq<char>>,
    r: Result<Vec<String>, QuicktermError>,
) -> bool {
    if term == "foot"@ {
        r matches Ok(v) && string_views(v@) == foot_words(title, argv)
    } else if term == "alacritty"@ {
        r matches Ok(v) && string_views(v@) == alacritty_words(title, argv)
    } else {
        command_result_matches(term, terminal_vars(env, title, argv), r)
    }
}

fn append_words(v: &mut Vec<String>, words: &[String])
    ensures
        string_views(final(v)@) == string_views(old(v)@) + string_views(words@),
{
    let copied = copy_strings(words);
    let ghost before = string_views(v@);
    let mut i: usize = 0;
    while i < copied.len()
        invariant
            i <= copied@.len(),
            string_views(copied@) == string_views(words@),
            string_views(v@) == before + string_views(copied@).take(i as int),
        decreases copied@.len() - i,
    {
        let ghost prev = v@;
        v.push(copied[i].clone());
        assert(string_views(v@) =~= string_views(prev).push(copied@[i as int]@));
        assert(string_views(copied@).take(i + 1) == string_views(copied@).take(i as int).push(
            copied@[i as int]@,
        ));
        assert(string_views(v@) == before + string_views(copied@).take(i + 1));
        i = i + 1;
    }
    assert(string_views(copied@).take(copied@.len() as int) == string_views(copied@));
}

/// The command that opens the terminal `term` with window title `title` and
/// runs `reentry_argv` in it. `foot` and `alacritty` are known; any other
/// `term` is a template expanded with the placeholders of [`terminal_vars`]
/// over the environment placeholders `env`, then split into words.
pub fn build_terminal_command(
    term: &str,
    title: &str,
    reentry_argv: &[String],
    env: &StringMap,
) -> (r: Result<Vec<String>, QuicktermError>)
    ensures
        terminal_command_matches(term@, title@, string_views(reentry_argv@), env@, r),
{
    proof {
        reveal_strlit("");
    }
    if compare_str(term, "foot") == Cmp::Equal {
        let mut v: Vec<String> = Vec::new();
        v.push(copy_str("footclient"));
        v.push(concat3("--title=", title, ""));
        v.push(copy_str("--hold"));
        v.push(copy_str("--app-id=foot-sp"));
        let ghost head = seq!["footclient"@, "--title="@ + title@, "--hold"@, "--app-id=foot-sp"@];
        assert(string_views(v@) == head);
        append_words(&mut v, reentry_argv);
        Ok(v)
    } else if compare_str(term, "alacritty") == Cmp::Equal {
        let mut v: Vec<String> = Vec::new();
        v.push(copy_str("alacritty"));
        v.push(copy_str("-t"));
        v.push(copy_str(title));
        v.push(copy_str("-e"));
        let ghost head = seq!["alacritty"@, "-t"@, title@, "-e"@];
        assert(string_views(v@) == head);
        append_words(&mut v, reentry_argv);
        Ok(v)
    } else {
        let mut vars = env.duplicate();
        let expanded = join(reentry_argv, " ");
        vars.insert(copy_str("title"), quoted(title));
        vars.insert(copy_str("expanded"), expanded);
        vars.insert(copy_str("string"), quoted(join(reentry_argv, " ").as_str()));
        expand_command(term, &vars)
    }
}

/// The arguments that run this program again, in place, for `shell`.
pub fn reentry_argv(program: &str, shell: &str) -> (r: Vec<String>)
    ensures
        string_views(r@) == seq![program@, "--in-place"@, shell@],
{
    let mut r: Vec<String> = Vec::new();
    r.push(copy_str(program));
    r.push(copy_str("--in-place"));
    r.push(copy_str(shell));
    assert(string_views(r@) == seq![program@, "--in-place"@, shell@]);
    r
}

} // verus!
