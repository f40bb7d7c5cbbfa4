//! Placeholder expansion in command templates: `{key}` is replaced by the
//! value stored under `key`, and a template can then be split into
//! shell-like words.

use vstd::prelude::*;

use crate::error::QuicktermError;
use crate::strmap::StringMap;
use crate::text::{chars_of, concat3, push_char, push_str, string_of_range};

verus! {

/// Index of the first `'}'` in `t` at or after `from`.
pub open spec fn close_brace(t: Seq<char>, from: int) -> Option<int>
    decreases t.len() - from,
{
    if from < 0 || from >= t.len() {
        None
    } else if t[from] == '}' {
        Some(from)
    } else {
        close_brace(t, from + 1)
    }
}

/// A closing brace found from `from` lies at or after `from`, inside `t`,
/// and no closing brace comes before it.
pub proof fn lemma_close_brace(t: Seq<char>, from: int)
    ensures
        close_brace(t, from) matches Some(k) ==> {
            &&& 0 <= from <= k < t.len()
            &&& t[k] == '}'
            &&& forall|m: int| from <= m < k ==> t[m] != '}'
        },
        close_brace(t, from) is None ==> forall|m: int| 0 <= from <= m < t.len() ==> t[m] != '}',
    decreases t.len() - from,
{
    if from >= 0 && from < t.len() && t[from] != '}' {
        lemma_close_brace(t, from + 1);
    }
}

/// `out` in front of a successful expansion; errors pass through.
pub open spec fn prefixed(out: Seq<char>, r: Result<Seq<char>, Seq<char>>) -> Result<
    Seq<char>,
    Seq<char>,
> {
    match r {
        Ok(rest) => Ok(out + rest),
        Err(key) => Err(key),
    }
}

/// Expansion of `t` from index `i` on. `Ok` holds the expanded text; `Err`
/// holds the first placeholder key that `vars` lacks.
///
/// A `{` followed (anywhere later) by a `}` opens a placeholder whose key is
/// the text between them; a `{` with no `}` after it is kept as it is.
pub open spec fn expand_from(t: Seq<char>, vars: Map<Seq<char>, Seq<char>>, i: int) -> Result<
    Seq<char>,
    Seq<char>,
>
    decreases t.len() - i,
{
    if i < 0 || i >= t.len() {
        Ok(Seq::empty())
    } else if t[i] == '{' && close_brace(t, i + 1) is Some {
        let end = close_brace(t, i + 1)->0;
        let key = t.subrange(i + 1, end);
        proof {
            lemma_close_brace(t, i + 1);
        }
        if vars.contains_key(key) {
            prefixed(vars[key], expand_from(t, vars, end + 1))
        } else {
            Err(key)
        }
    } else {
        prefixed(seq![t[i]], expand_from(t, vars, i + 1))
    }
}

/// Expansion of a whole template.
pub open spec fn expansion(t: Seq<char>, vars: Map<Seq<char>, Seq<char>>) -> Result<
    Seq<char>,
    Seq<char>,
> {
    expand_from(t, vars, 0)
}

/// The detail of the error for a missing placeholder.
pub open spec fn missing_placeholder_message(key: Seq<char>) -> Seq<char> {
    "missing placeholder {"@ + key + "}"@
}

/// The result that [`expand_template`] gives for a template.
pub open spec fn expand_result_matches(
    t: Seq<char>,
    vars: Map<Seq<char>, Seq<char>>,
    r: Result<String, QuicktermError>,
) -> bool {
    match expansion(t, vars) {
        Ok(e) => r matches Ok(s) && s@ == e,
        Err(key) => r matches Err(QuicktermError::Expansion(m)) && m@
            == missing_placeholder_message(key),
    }
}

proof fn lemma_prefixed_assoc(a: Seq<char>, b: Seq<char>, r: Result<Seq<char>, Seq<char>>)
    ensures
        prefixed(a, prefixed(b, r)) == prefixed(a + b, r),
{
    match r {
        Ok(rest) => {
            assert(a + (b + rest) == (a + b) + rest);
        },
        Err(_) => {},
    }
}

/// A template without `{` expands to itself, whatever the placeholders.
pub proof fn lemma_expand_plain(t: Seq<char>, vars: Map<Seq<char>, Seq<char>>)
    requires
        forall|i: int| 0 <= i < t.len() ==> t[i] != '{',
    ensures
        expansion(t, vars) == Ok::<Seq<char>, Seq<char>>(t),
{
    lemma_expand_plain_from(t, vars, t.len() as int);
    assert(t.skip(0) == t);
}

proof fn lemma_expand_plain_from(t: Seq<char>, vars: Map<Seq<char>, Seq<char>>, k: int)
    requires
        forall|i: int| 0 <= i < t.len() ==> t[i] != '{',
        0 <= k <= t.len(),
    ensures
        forall|i: int| t.len() - k <= i <= t.len() ==> expand_from(t, vars, i) == Ok::<
            Seq<char>,
            Seq<char>,
        >(#[trigger] t.skip(i)),
    decreases k,
{
    if k > 0 {
        lemma_expand_plain_from(t, vars, k - 1);
        let i = t.len() - k;
        assert(t.skip(i) == seq![t[i]] + t.skip(i + 1));
        assert(expand_from(t, vars, i) == prefixed(seq![t[i]], expand_from(t, vars, i + 1)));
    } else {
        assert(t.skip(t.len() as int) == Seq::<char>::empty());
    }
}

/// `tail` after a successful expansion; errors pass through.
pub open spec fn suffixed(r: Result<Seq<char>, Seq<char>>, tail: Seq<char>) -> Result<
    Seq<char>,
    Seq<char>,
> {
    match r {
        Ok(s) => Ok(s + tail),
        Err(key) => Err(key),
    }
}

proof fn lemma_close_brace_shift(a: Seq<char>, b: Seq<char>, j: int)
    requires
        0 <= j,
    ensures
        close_brace(a + b, a.len() + j) == match close_brace(b, j) {
            Some(k) => Some(a.len() + k),
            None => None::<int>,
        },
    decreases b.len() - j,
{
    if j < b.len() {
        assert((a + b)[a.len() + j] == b[j]);
        if b[j] != '}' {
            lemma_close_brace_shift(a, b, j + 1);
        }
    }
}

proof fn lemma_expand_shift(a: Seq<char>, b: Seq<char>, vars: Map<Seq<char>, Seq<char>>, j: int)
    requires
        0 <= j,
    ensures
        expand_from(a + b, vars, a.len() + j) == expand_from(b, vars, j),
    decreases b.len() - j,
{
    let t = a + b;
    if j < b.len() {
        assert(t[a.len() + j] == b[j]);
        lemma_close_brace_shift(a, b, j + 1);
        lemma_close_brace(b, j + 1);
        if b[j] == '{' && close_brace(b, j + 1) is Some {
            let end = close_brace(b, j + 1)->0;
            assert(t.subrange(a.len() + j + 1, a.len() + end) == b.subrange(j + 1, end));
            lemma_expand_shift(a, b, vars, end + 1);
        } else {
            lemma_expand_shift(a, b, vars, j + 1);
        }
    }
}

proof fn lemma_expand_plain_prefix_from(
    a: Seq<char>,
    b: Seq<char>,
    vars: Map<Seq<char>, Seq<char>>,
    i: int,
)
    requires
        forall|k: int| 0 <= k < a.len() ==> a[k] != '{',
        0 <= i <= a.len(),
    ensures
        expand_from(a + b, vars, i) == prefixed(a.skip(i), expansion(b, vars)),
    decreases a.len() - i,
{
    let t = a + b;
    if i < a.len() {
        lemma_expand_plain_prefix_from(a, b, vars, i + 1);
        assert(t[i] == a[i]);
        lemma_prefixed_assoc(seq![a[i]], a.skip(i + 1), expansion(b, vars));
        assert(seq![a[i]] + a.skip(i + 1) == a.skip(i));
    } else {
        lemma_expand_shift(a, b, vars, 0);
        assert(a.skip(i) == Seq::<char>::empty());
        match expansion(b, vars) {
            Ok(s) => {
                assert(Seq::<char>::empty() + s == s);
            },
            Err(_) => {},
        }
    }
}

/// Text without `{` in front of a template is copied as it is: expanding
/// `a + b`, where `a` has no `{`, gives `a` followed by the expansion of `b`
/// (or the same missing key).
pub proof fn lemma_expand_plain_prefix(a: Seq<char>, b: Seq<char>, vars: Map<Seq<char>, Seq<char>>)
    requires
        forall|k: int| 0 <= k < a.len() ==> a[k] != '{',
    ensures
        expansion(a + b, vars) == prefixed(a, expansion(b, vars)),
{
    lemma_expand_plain_prefix_from(a, b, vars, 0);
    assert(a.skip(0) == a);
}

proof fn lemma_close_brace_unclosed_suffix(a: Seq<char>, b: Seq<char>, from: int)
    requires
        forall|k: int| 0 <= k < b.len() ==> b[k] != '}',
        0 <= from,
    ensures
        close_brace(a + b, from) == close_brace(a, from),
    decreases (a + b).len() - from,
{
    let t = a + b;
    if from < t.len() {
        if from < a.len() {
            assert(t[from] == a[from]);
        } else {
            assert(t[from] == b[from - a.len()]);
        }
        if t[from] != '}' {
            lemma_close_brace_unclosed_suffix(a, b, from + 1);
        }
    }
}

proof fn lemma_expand_unclosed_tail(
    a: Seq<char>,
    b: Seq<char>,
    vars: Map<Seq<char>, Seq<char>>,
    j: int,
)
    requires
        forall|k: int| 0 <= k < b.len() ==> b[k] != '}',
        0 <= j <= b.len(),
    ensures
        expand_from(a + b, vars, a.len() + j) == Ok::<Seq<char>, Seq<char>>(b.skip(j)),
    decreases b.len() - j,
{
    let t = a + b;
    if j < b.len() {
        lemma_expand_unclosed_tail(a, b, vars, j + 1);
        assert(t[a.len() + j] == b[j]);
        lemma_close_brace_unclosed_suffix(a, b, a.len() + j + 1);
        assert(close_brace(a, a.len() + j + 1) is None);
        assert(seq![b[j]] + b.skip(j + 1) == b.skip(j));
    } else {
        assert(b.skip(j) == Seq::<char>::empty());
    }
}

proof fn lemma_suffixed_prefixed(x: Seq<char>, r: Result<Seq<char>, Seq<char>>, tail: Seq<char>)
    ensures
        suffixed(prefixed(x, r), tail) == prefixed(x, suffixed(r, tail)),
{
    match r {
        Ok(s) => {
            assert((x + s) + tail == x + (s + tail));
        },
        Err(_) => {},
    }
}

proof fn lemma_expand_unclosed_suffix_from(
    a: Seq<char>,
    b: Seq<char>,
    vars: Map<Seq<char>, Seq<char>>,
    i: int,
)
    requires
        forall|k: int| 0 <= k < b.len() ==> b[k] != '}',
        0 <= i <= a.len(),
    ensures
        expand_from(a + b, vars, i) == suffixed(expand_from(a, vars, i), b),
    decreases a.len() - i,
{
    let t = a + b;
    if i < a.len() {
        assert(t[i] == a[i]);
        lemma_close_brace_unclosed_suffix(a, b, i + 1);
        lemma_close_brace(a, i + 1);
        if a[i] == '{' && close_brace(a, i + 1) is Some {
            let end = close_brace(a, i + 1)->0;
            assert(t.subrange(i + 1, end) == a.subrange(i + 1, end));
            lemma_expand_unclosed_suffix_from(a, b, vars, end + 1);
            let key = a.subrange(i + 1, end);
            if vars.contains_key(key) {
                lemma_suffixed_prefixed(vars[key], expand_from(a, vars, end + 1), b);
            }
        } else {
            lemma_expand_unclosed_suffix_from(a, b, vars, i + 1);
            lemma_suffixed_prefixed(seq![a[i]], expand_from(a, vars, i + 1), b);
        }
    } else {
        lemma_expand_unclosed_tail(a, b, vars, 0);
        assert(b.skip(0) == b);
        assert(Seq::<char>::empty() + b == b);
    }
}

/// Text without `}` after a template is copied as it is: expanding `a + b`,
/// where `b` has no `}`, gives the expansion of `a` followed by `b` (or the
/// same missing key). A `{` left open in `a` or `b` stays as it is.
pub proof fn lemma_expand_unclosed_suffix(
    a: Seq<char>,
    b: Seq<char>,
    vars: Map<Seq<char>, Seq<char>>,
)
    requires
        forall|k: int| 0 <= k < b.len() ==> b[k] != '}',
    ensures
        expansion(a + b, vars) == suffixed(expansion(a, vars), b),
{
    lemma_expand_unclosed_suffix_from(a, b, vars, 0);
}

/// Position of the first `'}'` in `v` at or after `from`.
fn find_close(v: &Vec<char>, from: usize) -> (r: Option<usize>)
    ensures
        match close_brace(v@, from as int) {
            Some(k) => r == Some(k as usize),
            None => r is None,
        },
{
    let mut j = from;
    proof {
        lemma_close_brace(v@, from as int);
    }
    while j < v.len()
        invariant
            from <= j,
            close_brace(v@, from as int) == close_brace(v@, j as int),
        decreases v.len() - j,
    {
        if v[j] == '}' {
            return Some(j);
        }
        j = j + 1;
    }
    None
}

/// Replaces every `{key}` placeholder of `template` by the value stored under
/// `key` in `replacements`; fails on the first key that is missing.
pub fn expand_template(template: &str, replacements: &StringMap) -> (r: Result<
    String,
    QuicktermError,
>)
    ensures
        expand_result_matches(template@, replacements@, r),
{
    let ghost vars = replacements@;
    let chars = chars_of(template);
    let ghost t = chars@;
    let mut out = String::new();
    let mut i: usize = 0;
    while i < chars.len()
        invariant
            t == chars@,
            t == template@,
            vars == replacements@,
            i <= chars.len(),
            expansion(t, vars) == prefixed(out@, expand_from(t, vars, i as int)),
        decreases chars.len() - i,
    {
        if chars[i] == '{' {
            let close = find_close(&chars, i + 1);
            if let Some(end) = close {
                proof {
                    lemma_close_brace(t, i + 1);
                }
                let key = string_of_range(&chars, i + 1, end);
                match replacements.get(key.as_str()) {
                    Some(value) => {
                        assert(key@ == t.subrange(i + 1, end as int));
                        assert(expand_from(t, vars, i as int) == prefixed(
                            vars[key@],
                            expand_from(t, vars, end + 1),
                        ));
                        let ghost before = out@;
                        push_str(&mut out, value.as_str());
                        proof {
                            lemma_prefixed_assoc(
                                before,
                                vars[key@],
                                expand_from(t, vars, end + 1),
                            );
                        }
                        assert(out@ == before + vars[key@]);
                        assert(expansion(t, vars) == prefixed(out@, expand_from(t, vars, end + 1)));
                        i = end + 1;
                        continue ;
                    },
                    None => {
                        let msg = concat3("missing placeholder {", key.as_str(), "}");
                        return Err(QuicktermError::Expansion(msg));
                    },
                }
            }
        }
        assert(expand_from(t, vars, i as int) == prefixed(
            seq![t[i as int]],
            expand_from(t, vars, i + 1),
        ));
        let ghost before = out@;
        push_char(&mut out, chars[i]);
        proof {
            lemma_prefixed_assoc(before, seq![t[i as int]], expand_from(t, vars, i + 1));
            assert(out@ == before + seq![t[i as int]]);
            assert(expansion(t, vars) == prefixed(out@, expand_from(t, vars, i + 1)));
        }
        i = i + 1;
    }
    assert(out@ + Seq::<char>::empty() == out@);
    Ok(out)
}

/// Expands a template meant to stand as one string (a path, say), without
/// splitting it into words.
pub fn expand_string(template: &str, replacements: &StringMap) -> (r: Result<
    String,
    QuicktermError,
>)
    ensures
        expand_result_matches(template@, replacements@, r),
{
    expand_template(template, replacements)
}

/// The words that `shlex::split` makes of `line`, or `None` where it rejects
/// the line (an unterminated quote, say).
pub uninterp spec fn shlex_words(line: Seq<char>) -> Option<Seq<Seq<char>>>;

/// Splits `line` into words as a POSIX shell would.
///
/// Trusted: wraps `shlex::split`. Its result is named [`shlex_words`] of the
/// line; nothing more is claimed of it here.
#[verifier::external_body]
fn shell_words(line: &str) -> (r: Option<Vec<String>>)
    ensures
        match r {
            Some(words) => shlex_words(line@) == Some(words@.map_values(|w: String| w@)),
            None => shlex_words(line@) is None,
        },
{
    shlex::split(line)
}

/// The detail of the error for a line that cannot be split.
pub open spec fn unsplittable_message(line: Seq<char>) -> Seq<char> {
    "could not parse command: "@ + line
}

/// Turns the outcome of splitting the expanded line `expanded` into the
/// command's words, or the error for a line that could not be split.
pub fn command_from_words(expanded: &str, words: Option<Vec<String>>) -> (r: Result<
    Vec<String>,
    QuicktermError,
>)
    ensures
        match words {
            Some(w) => r matches Ok(v) && v == w,
            None => r matches Err(QuicktermError::Expansion(m)) && m@ == unsplittable_message(
                expanded@,
            ),
        },
{
    match words {
        Some(w) => Ok(w),
        None => {
            let msg = concat3("could not parse command: ", expanded, "");
            proof {
                reveal_strlit("");
            }
            assert(msg@ == unsplittable_message(expanded@));
            Err(QuicktermError::Expansion(msg))
        },
    }
}

/// What [`expand_command`] gives for a template: the expansion error, or the
/// words of the expanded text, or the error for text that cannot be split.
pub open spec fn command_result_matches(
    t: Seq<char>,
    vars: Map<Seq<char>, Seq<char>>,
    r: Result<Vec<String>, QuicktermError>,
) -> bool {
    match expansion(t, vars) {
        Err(key) => r matches Err(QuicktermError::Expansion(m)) && m@
            == missing_placeholder_message(key),
        Ok(e) => match shlex_words(e) {
            Some(ws) => r matches Ok(v) && v@.map_values(|w: String| w@) == ws,
            None => r matches Err(QuicktermError::Expansion(m)) && m@ == unsplittable_message(e),
        },
    }
}

/// Expands `template`, then splits the result into the words of a command.
pub fn expand_command(template: &str, replacements: &StringMap) -> (r: Result<
    Vec<String>,
    QuicktermError,
>)
    ensures
        command_result_matches(template@, replacements@, r),
{
    let expanded = match expand_template(template, replacements) {
        Ok(e) => e,
        Err(err) => {
            return Err(err);
        },
    };
    let words = shell_words(expanded.as_str());
    command_from_words(expanded.as_str(), words)
}

/// The placeholders of the environment: each variable `NAME` is offered
/// under the key `$NAME`; a later pair for the same name wins.
pub open spec fn env_placeholders(vars: Seq<(Seq<char>, Seq<char>)>) -> Map<Seq<char>, Seq<char>>
    decreases vars.len(),
{
    if vars.len() == 0 {
        Map::empty()
    } else {
        let last = vars.last();
        env_placeholders(vars.drop_last()).insert(seq!['$'] + last.0, last.1)
    }
}

/// Builds the placeholder map of the environment variables `vars`.
pub fn env_map(vars: &Vec<(String, String)>) -> (m: StringMap)
    ensures
        m@ == env_placeholders(vars@.map_values(|p: (String, String)| (p.0@, p.1@))),
{
    let ghost pairs = vars@.map_values(|p: (String, String)| (p.0@, p.1@));
    let mut m = StringMap::new();
    let mut i: usize = 0;
    while i < vars.len()
        invariant
            i <= vars.len(),
            pairs == vars@.map_values(|p: (String, String)| (p.0@, p.1@)),
            m@ == env_placeholders(pairs.take(i as int)),
        decreases vars.len() - i,
    {
        let key = concat3("$", vars[i].0.as_str(), "");
        proof {
            reveal_strlit("$");
            reveal_strlit("");
            assert(pairs.take(i + 1).drop_last() == pairs.take(i as int));
            assert(pairs.take(i + 1).last() == pairs[i as int]);
            assert(key@ == seq!['$'] + vars@[i as int].0@);
        }
        let value = vars[i].1.clone();
        m.insert(key, value);
        i = i + 1;
    }
    assert(pairs.take(vars.len() as int) == pairs);
    m
}

} // verus!
