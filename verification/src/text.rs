//! Character-level helpers on strings: conversion between `String` and
//! character sequences, lexicographic comparison, blank detection and
//! decimal formatting of integers.

use vstd::prelude::*;

verus! {

/// The character sequences of a sequence of strings.
pub open spec fn string_views(v: Seq<String>) -> Seq<Seq<char>> {
    v.map_values(|s: String| s@)
}

/// `words` joined with `sep` between neighbours, as `[String]::join` does.
pub open spec fn joined(words: Seq<Seq<char>>, sep: Seq<char>) -> Seq<char>
    decreases words.len(),
{
    if words.len() == 0 {
        Seq::empty()
    } else if words.len() == 1 {
        words[0]
    } else {
        joined(words.drop_last(), sep) + sep + words.last()
    }
}

/// Joins `words` with `sep` between neighbours.
pub fn join(words: &[String], sep: &str) -> (s: String)
    ensures
        s@ == joined(string_views(words@), sep@),
{
    let ghost ws = string_views(words@);
    let mut s = String::new();
    let mut i: usize = 0;
    while i < words.len()
        invariant
            i <= words@.len(),
            ws == string_views(words@),
            s@ == joined(ws.take(i as int), sep@),
        decreases words@.len() - i,
    {
        assert(ws.take(i + 1).drop_last() == ws.take(i as int));
        if i > 0 {
            push_str(&mut s, sep);
        }
        push_str(&mut s, words[i].as_str());
        assert(s@ == joined(ws.take(i + 1), sep@));
        i = i + 1;
    }
    assert(ws.take(words@.len() as int) == ws);
    s
}

/// A copy of each string of `words`, in order.
pub fn copy_strings(words: &[String]) -> (r: Vec<String>)
    ensures
        string_views(r@) == string_views(words@),
{
    let mut r: Vec<String> = Vec::new();
    let mut i: usize = 0;
    while i < words.len()
        invariant
            i <= words@.len(),
            string_views(r@) == string_views(words@).take(i as int),
        decreases words@.len() - i,
    {
        r.push(words[i].clone());
        assert(string_views(words@).take(i + 1) == string_views(words@).take(i as int).push(
            words@[i as int]@,
        ));
        assert(string_views(r@) == string_views(words@).take(i as int).push(words@[i as int]@));
        i = i + 1;
    }
    assert(string_views(words@).take(words@.len() as int) == string_views(words@));
    r
}

/// Appends one character to a string.
///
/// Trusted: wraps `String::push`, whose documentation states that it appends
/// the given `char` to the end of the string.
#[verifier::external_body]
pub(crate) fn push_char(s: &mut String, c: char)
    ensures
        final(s)@ == old(s)@.push(c),
{
    s.push(c)
}

/// Appends the characters of `t` to `s`.
pub fn push_str(s: &mut String, t: &str)
    ensures
        final(s)@ == old(s)@ + t@,
{
    let ghost start = s@;
    for c in it: t.chars()
        invariant
            s@ == start + it.seq().take(it.index() as int),
    {
        push_char(s, c);
        proof {
            assert(it.seq().take(it.index() + 1) == it.seq().take(it.index() as int).push(c));
        }
    }
    assert(t@.take(t@.len() as int) == t@);
}

/// A fresh string holding the characters of `t`.
pub fn copy_str(t: &str) -> (s: String)
    ensures
        s@ == t@,
{
    let mut s = String::new();
    push_str(&mut s, t);
    s
}

/// The characters of `s`, in order.
pub fn chars_of(s: &str) -> (v: Vec<char>)
    ensures
        v@ == s@,
{
    let mut v: Vec<char> = Vec::new();
    for c in it: s.chars()
        invariant
            v@ == it.seq().take(it.index() as int),
    {
        v.push(c);
    }
    v
}

/// The string made of `v[lo..hi]`.
pub fn string_of_range(v: &Vec<char>, lo: usize, hi: usize) -> (s: String)
    requires
        lo <= hi <= v.len(),
    ensures
        s@ == v@.subrange(lo as int, hi as int),
{
    let mut s = String::new();
    let mut i = lo;
    while i < hi
        invariant
            lo <= i <= hi <= v.len(),
            s@ == v@.subrange(lo as int, i as int),
        decreases hi - i,
    {
        push_char(&mut s, v[i]);
        assert(v@.subrange(lo as int, i + 1) == v@.subrange(lo as int, i as int).push(v@[i as int]));
        i = i + 1;
    }
    s
}

/// Concatenation of three character sequences, the usual shape of a
/// message built around a value.
pub fn concat3(a: &str, b: &str, c: &str) -> (s: String)
    ensures
        s@ == a@ + b@ + c@,
{
    let mut s = copy_str(a);
    push_str(&mut s, b);
    push_str(&mut s, c);
    s
}

/// Whether `c` has the Unicode `White_Space` property, as `char::is_whitespace`
/// documents it.
pub open spec fn is_white_space(c: char) -> bool {
    ||| ('\u{9}' <= c && c <= '\u{d}')
    ||| c == ' '
    ||| c == '\u{85}'
    ||| c == '\u{a0}'
    ||| c == '\u{1680}'
    ||| ('\u{2000}' <= c && c <= '\u{200a}')
    ||| c == '\u{2028}'
    ||| c == '\u{2029}'
    ||| c == '\u{202f}'
    ||| c == '\u{205f}'
    ||| c == '\u{3000}'
}

/// Executable form of [`is_white_space`].
pub fn white_space(c: char) -> (b: bool)
    ensures
        b == is_white_space(c),
{
    ('\u{9}' <= c && c <= '\u{d}') || c == ' ' || c == '\u{85}' || c == '\u{a0}' || c
        == '\u{1680}' || ('\u{2000}' <= c && c <= '\u{200a}') || c == '\u{2028}' || c
        == '\u{2029}' || c == '\u{202f}' || c == '\u{205f}' || c == '\u{3000}'
}

/// A sequence is blank when every character in it is white space, which is
/// when trimming it leaves nothing.
pub open spec fn is_blank(s: Seq<char>) -> bool {
    forall|i: int| 0 <= i < s.len() ==> is_white_space(#[trigger] s[i])
}

/// Whether every character of `s` is white space.
pub fn blank(s: &str) -> (b: bool)
    ensures
        b == is_blank(s@),
{
    let v = chars_of(s);
    let mut i: usize = 0;
    while i < v.len()
        invariant
            v@ == s@,
            i <= v.len(),
            forall|j: int| 0 <= j < i ==> is_white_space(#[trigger] v@[j]),
        decreases v.len() - i,
    {
        if !white_space(v[i]) {
            return false;
        }
        i = i + 1;
    }
    true
}

/// Index just after the last leading white space character.
pub open spec fn leading_blank_len(s: Seq<char>) -> nat
    decreases s.len(),
{
    if s.len() > 0 && is_white_space(s[0]) {
        1 + leading_blank_len(s.drop_first())
    } else {
        0
    }
}

/// Number of trailing white space characters.
pub open spec fn trailing_blank_len(s: Seq<char>) -> nat
    decreases s.len(),
{
    if s.len() > 0 && is_white_space(s.last()) {
        1 + trailing_blank_len(s.drop_last())
    } else {
        0
    }
}

/// `s` without its leading and trailing white space, as `str::trim` gives it.
pub open spec fn trimmed(s: Seq<char>) -> Seq<char> {
    let front = s.skip(leading_blank_len(s) as int);
    front.take(front.len() - trailing_blank_len(front))
}

proof fn lemma_leading_blank_len(s: Seq<char>, k: int)
    requires
        0 <= k <= s.len(),
        forall|j: int| 0 <= j < k ==> is_white_space(#[trigger] s[j]),
    ensures
        leading_blank_len(s) >= k,
        leading_blank_len(s) <= s.len(),
        k < s.len() && !is_white_space(s[k]) ==> leading_blank_len(s) == k,
        k == s.len() ==> leading_blank_len(s) == k,
    decreases k,
{
    if k > 0 {
        assert(is_white_space(s[0]));
        lemma_leading_blank_len(s.drop_first(), k - 1);
    } else {
        lemma_leading_blank_bound(s);
    }
}

proof fn lemma_leading_blank_bound(s: Seq<char>)
    ensures
        leading_blank_len(s) <= s.len(),
    decreases s.len(),
{
    if s.len() > 0 && is_white_space(s[0]) {
        lemma_leading_blank_bound(s.drop_first());
    }
}

proof fn lemma_trailing_blank_len(s: Seq<char>, k: int)
    requires
        0 <= k <= s.len(),
        forall|j: int| s.len() - k <= j < s.len() ==> is_white_space(#[trigger] s[j]),
    ensures
        trailing_blank_len(s) >= k,
        trailing_blank_len(s) <= s.len(),
        k < s.len() && !is_white_space(s[s.len() - k - 1]) ==> trailing_blank_len(s) == k,
        k == s.len() ==> trailing_blank_len(s) == k,
    decreases k,
{
    if k > 0 {
        assert(is_white_space(s[s.len() - 1]));
        let t = s.drop_last();
        assert forall|j: int| t.len() - (k - 1) <= j < t.len() implies is_white_space(
            #[trigger] t[j],
        ) by {
            assert(t[j] == s[j]);
        }
        lemma_trailing_blank_len(t, k - 1);
        if k < s.len() && !is_white_space(s[s.len() - k - 1]) {
            assert(t[t.len() - (k - 1) - 1] == s[s.len() - k - 1]);
        }
    } else {
        lemma_trailing_blank_bound(s);
    }
}

proof fn lemma_trailing_blank_bound(s: Seq<char>)
    ensures
        trailing_blank_len(s) <= s.len(),
    decreases s.len(),
{
    if s.len() > 0 && is_white_space(s.last()) {
        lemma_trailing_blank_bound(s.drop_last());
    }
}

/// `s` without leading and trailing white space.
pub fn trim(s: &str) -> (t: String)
    ensures
        t@ == trimmed(s@),
{
    let v = chars_of(s);
    let mut lo: usize = 0;
    while lo < v.len() && white_space(v[lo])
        invariant
            v@ == s@,
            lo <= v.len(),
            forall|j: int| 0 <= j < lo ==> is_white_space(#[trigger] v@[j]),
        decreases v.len() - lo,
    {
        lo = lo + 1;
    }
    proof {
        lemma_leading_blank_len(v@, lo as int);
    }
    let ghost front = v@.skip(lo as int);
    let mut hi: usize = v.len();
    while hi > lo && white_space(v[hi - 1])
        invariant
            v@ == s@,
            lo <= hi <= v.len(),
            front == v@.skip(lo as int),
            forall|j: int| hi <= j < v.len() ==> is_white_space(#[trigger] v@[j]),
        decreases hi,
    {
        hi = hi - 1;
    }
    proof {
        let k = v.len() - hi;
        assert forall|j: int| front.len() - k <= j < front.len() implies is_white_space(
            #[trigger] front[j],
        ) by {
            assert(front[j] == v@[lo + j]);
        }
        if hi > lo {
            assert(front[front.len() - k - 1] == v@[hi - 1]);
        }
        lemma_trailing_blank_len(front, k);
        assert(front.take(front.len() - k) == v@.subrange(lo as int, hi as int));
    }
    string_of_range(&v, lo, hi)
}

/// Lexicographic order on character sequences by code point, which is the
/// order `Ord` gives `String` (UTF-8 preserves code point order).
pub open spec fn seq_lt(a: Seq<char>, b: Seq<char>) -> bool
    decreases a.len(),
{
    if a.len() == 0 {
        b.len() > 0
    } else if b.len() == 0 {
        false
    } else if a[0] != b[0] {
        a[0] < b[0]
    } else {
        seq_lt(a.drop_first(), b.drop_first())
    }
}

/// `seq_lt` is irreflexive.
pub proof fn lemma_seq_lt_irreflexive(a: Seq<char>)
    ensures
        !seq_lt(a, a),
    decreases a.len(),
{
    if a.len() > 0 {
        lemma_seq_lt_irreflexive(a.drop_first());
    }
}

/// `seq_lt` is transitive.
pub proof fn lemma_seq_lt_transitive(a: Seq<char>, b: Seq<char>, c: Seq<char>)
    requires
        seq_lt(a, b),
        seq_lt(b, c),
    ensures
        seq_lt(a, c),
    decreases a.len(),
{
    if a.len() > 0 && b.len() > 0 && c.len() > 0 && a[0] == b[0] && b[0] == c[0] {
        lemma_seq_lt_transitive(a.drop_first(), b.drop_first(), c.drop_first());
    }
}

/// `seq_lt` is total: two sequences are equal or one is below the other.
pub proof fn lemma_seq_lt_total(a: Seq<char>, b: Seq<char>)
    ensures
        a == b || seq_lt(a, b) || seq_lt(b, a),
    decreases a.len(),
{
    if a.len() > 0 && b.len() > 0 && a[0] == b[0] {
        lemma_seq_lt_total(a.drop_first(), b.drop_first());
        if a.drop_first() == b.drop_first() {
            assert(a == seq![a[0]] + a.drop_first());
            assert(b == seq![b[0]] + b.drop_first());
        }
    } else if a.len() == 0 && b.len() == 0 {
        assert(a == b);
    }
}

/// Three-way outcome of a comparison.
#[derive(PartialEq, Eq, Structural, Clone, Copy, Debug)]
pub enum Cmp {
    Less,
    Equal,
    Greater,
}

/// Compares two strings in the order of [`seq_lt`].
pub fn compare_str(a: &str, b: &str) -> (r: Cmp)
    ensures
        r == Cmp::Less <==> seq_lt(a@, b@),
        r == Cmp::Equal <==> a@ == b@,
        r == Cmp::Greater <==> seq_lt(b@, a@),
{
    let va = chars_of(a);
    let vb = chars_of(b);
    let mut i: usize = 0;
    assert(a@.skip(0) == a@);
    assert(b@.skip(0) == b@);
    while i < va.len() && i < vb.len() && va[i] == vb[i]
        invariant
            va@ == a@,
            vb@ == b@,
            i <= va.len(),
            i <= vb.len(),
            va@.take(i as int) == vb@.take(i as int),
            seq_lt(a@, b@) == seq_lt(a@.skip(i as int), b@.skip(i as int)),
            seq_lt(b@, a@) == seq_lt(b@.skip(i as int), a@.skip(i as int)),
        decreases va.len() - i,
    {
        proof {
            let sa = a@.skip(i as int);
            let sb = b@.skip(i as int);
            assert(sa.drop_first() == a@.skip(i + 1));
            assert(sb.drop_first() == b@.skip(i + 1));
            assert(va@.take(i + 1) == va@.take(i as int).push(va@[i as int]));
            assert(vb@.take(i + 1) == vb@.take(i as int).push(vb@[i as int]));
        }
        i = i + 1;
    }
    proof {
        lemma_seq_lt_irreflexive(a@);
        lemma_seq_lt_total(a@, b@);
        if seq_lt(a@, b@) && seq_lt(b@, a@) {
            lemma_seq_lt_transitive(a@, b@, a@);
        }
        if i == va.len() && i == vb.len() {
            assert(a@ == va@.take(i as int));
            assert(b@ == vb@.take(i as int));
        }
        if i < va.len() && i < vb.len() {
            assert(a@ != b@ || va@[i as int] == vb@[i as int]);
        }
        let sa = a@.skip(i as int);
        let sb = b@.skip(i as int);
        if i < va.len() {
            assert(sa[0] == va@[i as int]);
        }
        if i < vb.len() {
            assert(sb[0] == vb@[i as int]);
        }
    }
    if i == va.len() && i == vb.len() {
        Cmp::Equal
    } else if i == va.len() {
        Cmp::Less
    } else if i == vb.len() {
        Cmp::Greater
    } else if va[i] < vb[i] {
        Cmp::Less
    } else {
        Cmp::Greater
    }
}

/// The decimal digit for `d`, which is below ten.
pub open spec fn digit_char(d: nat) -> char {
    if d == 0 { '0' }
    else if d == 1 { '1' }
    else if d == 2 { '2' }
    else if d == 3 { '3' }
    else if d == 4 { '4' }
    else if d == 5 { '5' }
    else if d == 6 { '6' }
    else if d == 7 { '7' }
    else if d == 8 { '8' }
    else { '9' }
}

/// Decimal notation of a natural number, without leading zeros.
pub open spec fn nat_decimal(n: nat) -> Seq<char>
    decreases n,
{
    if n < 10 {
        seq![digit_char(n)]
    } else {
        nat_decimal(n / 10).push(digit_char(n % 10))
    }
}

/// Decimal notation of an integer as `Display` writes it: a minus sign
/// before the digits of a negative number.
pub open spec fn int_decimal(n: int) -> Seq<char> {
    if n < 0 {
        seq!['-'] + nat_decimal((-n) as nat)
    } else {
        nat_decimal(n as nat)
    }
}

fn digit(d: u64) -> (c: char)
    requires
        d < 10,
    ensures
        c == digit_char(d as nat),
{
    if d == 0 { '0' }
    else if d == 1 { '1' }
    else if d == 2 { '2' }
    else if d == 3 { '3' }
    else if d == 4 { '4' }
    else if d == 5 { '5' }
    else if d == 6 { '6' }
    else if d == 7 { '7' }
    else if d == 8 { '8' }
    else { '9' }
}

fn push_nat_decimal(s: &mut String, n: u64)
    ensures
        final(s)@ == old(s)@ + nat_decimal(n as nat),
    decreases n,
{
    if n >= 10 {
        push_nat_decimal(s, n / 10);
        push_char(s, digit(n % 10));
    } else {
        push_char(s, digit(n));
    }
}

/// Appends the decimal notation of `n` to `s`.
pub fn push_decimal(s: &mut String, n: i64)
    ensures
        final(s)@ == old(s)@ + int_decimal(n as int),
{
    if n < 0 {
        push_char(s, '-');
        let m: u64 = if n == i64::MIN {
            9223372036854775808u64
        } else {
            (-n) as u64
        };
        push_nat_decimal(s, m);
    } else {
        push_nat_decimal(s, n as u64);
    }
}

} // verus!
