//! The order in which shells are offered: the last one chosen comes first,
//! and the order is kept as a JSON list of names between runs.

use vstd::prelude::*;

use crate::error::QuicktermError;
use crate::strmap::{strictly_sorted, StringSet};
use crate::text::{blank, compare_str, copy_str, copy_strings, is_blank, string_views, Cmp};

verus! {

broadcast use vstd::seq_lib::group_seq_properties;

/// The predicate "differs from `selected`".
pub open spec fn other_than(selected: Seq<char>) -> spec_fn(Seq<char>) -> bool {
    |name: Seq<char>| name != selected
}

/// `shells` with `selected` moved (or added) to the front, every other
/// occurrence of it removed, and the rest left in order.
pub open spec fn reordered(shells: Seq<Seq<char>>, selected: Seq<char>) -> Seq<Seq<char>> {
    seq![selected] + shells.filter(other_than(selected))
}

/// Whether a loaded order names exactly the known shells.
pub open spec fn names_exactly(loaded: Seq<Seq<char>>, known: Set<Seq<char>>) -> bool {
    loaded.to_set() == known
}

/// Keeps a loaded order only where it names exactly the known shells.
pub fn validate_history(loaded: &[String], known_shells: &StringSet) -> (r: Option<Vec<String>>)
    ensures
        r is Some <==> names_exactly(string_views(loaded@), known_shells@),
        r matches Some(v) ==> string_views(v@) == string_views(loaded@),
{
    let ghost views = string_views(loaded@);
    let mut i: usize = 0;
    while i < loaded.len()
        invariant
            i <= loaded@.len(),
            views == string_views(loaded@),
            forall|j: int| 0 <= j < i ==> known_shells@.contains(#[trigger] views[j]),
        decreases loaded@.len() - i,
    {
        if !known_shells.contains(loaded[i].as_str()) {
            proof {
                assert(views.contains(views[i as int]));
                assert(views.to_set().contains(views[i as int]));
            }
            return None;
        }
        i = i + 1;
    }
    let members = known_shells.to_sorted_vec();
    let ghost sorted = string_views(members@);
    let mut k: usize = 0;
    while k < members.len()
        invariant
            k <= members@.len(),
            views == string_views(loaded@),
            sorted == string_views(members@),
            sorted.to_set() == known_shells@,
            forall|j: int| 0 <= j < k ==> views.contains(#[trigger] sorted[j]),
        decreases members@.len() - k,
    {
        let mut found = false;
        let mut j: usize = 0;
        while j < loaded.len()
            invariant
                j <= loaded@.len(),
                views == string_views(loaded@),
                k < members@.len(),
                sorted == string_views(members@),
                found ==> views.contains(sorted[k as int]),
                !found ==> forall|m: int| 0 <= m < j ==> views[m] != sorted[k as int],
            decreases loaded@.len() - j,
        {
            if compare_str(loaded[j].as_str(), members[k].as_str()) == Cmp::Equal {
                found = true;
                assert(views[j as int] == sorted[k as int]);
            }
            j = j + 1;
        }
        if !found {
            proof {
                assert(sorted.contains(sorted[k as int]));
                assert(!views.contains(sorted[k as int]));
                assert(known_shells@.contains(sorted[k as int]));
                assert(!views.to_set().contains(sorted[k as int]));
            }
            return None;
        }
        k = k + 1;
    }
    proof {
        assert forall|x: Seq<char>| views.to_set().contains(x) <==> known_shells@.contains(x) by {
            if views.to_set().contains(x) {
                let j = choose|j: int| 0 <= j < views.len() && views[j] == x;
                assert(known_shells@.contains(views[j]));
            }
            if known_shells@.contains(x) {
                assert(sorted.to_set().contains(x));
                let j = choose|j: int| 0 <= j < sorted.len() && sorted[j] == x;
                assert(views.contains(sorted[j]));
            }
        }
        assert(views.to_set() =~= known_shells@);
    }
    Some(copy_strings(loaded))
}

/// Puts `selected` first, followed by the other shells of `shells` in their
/// order.
pub fn reorder_shells(shells: Vec<String>, selected: &str) -> (r: Vec<String>)
    ensures
        string_views(r@) == reordered(string_views(shells@), selected@),
{
    let ghost views = string_views(shells@);
    let ghost keep = other_than(selected@);
    let mut r: Vec<String> = Vec::new();
    r.push(copy_str(selected));
    let mut i: usize = 0;
    while i < shells.len()
        invariant
            i <= shells@.len(),
            views == string_views(shells@),
            keep == other_than(selected@),
            string_views(r@) == seq![selected@] + views.take(i as int).filter(keep),
        decreases shells@.len() - i,
    {
        let ghost prev = r@;
        proof {
            assert(views.take(i + 1) == views.take(i as int).push(views[i as int]));
            views.take(i as int).lemma_filter_push(views[i as int], keep);
        }
        if compare_str(shells[i].as_str(), selected) != Cmp::Equal {
            r.push(shells[i].clone());
            assert(string_views(r@) =~= string_views(prev).push(views[i as int]));
        }
        i = i + 1;
    }
    assert(views.take(shells@.len() as int) == views);
    r
}

/// Filtering twice by the same predicate is filtering once.
pub proof fn lemma_filter_idempotent(s: Seq<Seq<char>>, p: spec_fn(Seq<char>) -> bool)
    ensures
        s.filter(p).filter(p) == s.filter(p),
    decreases s.len(),
{
    if s.len() > 0 {
        let init = s.drop_last();
        lemma_filter_idempotent(init, p);
        assert(s == init.push(s.last()));
        init.lemma_filter_push(s.last(), p);
        init.filter(p).lemma_filter_push(s.last(), p);
    } else {
        reveal(Seq::filter);
    }
}

/// Choosing the same shell twice in a row gives the same order as choosing
/// it once.
pub proof fn lemma_reorder_idempotent(shells: Seq<Seq<char>>, selected: Seq<char>)
    ensures
        reordered(reordered(shells, selected), selected) == reordered(shells, selected),
{
    let p = other_than(selected);
    let rest = shells.filter(p);
    Seq::filter_distributes_over_add(seq![selected], rest, p);
    Seq::<Seq<char>>::empty().lemma_filter_push(selected, p);
    assert(seq![selected] == Seq::<Seq<char>>::empty().push(selected));
    reveal(Seq::filter);
    assert(Seq::<Seq<char>>::empty().filter(p) == Seq::<Seq<char>>::empty());
    lemma_filter_idempotent(shells, p);
    assert(seq![selected].filter(p) + rest.filter(p) == rest);
}

/// Moving a known shell to the front keeps the set of names: an order that
/// names exactly the known shells still does after a selection among them,
/// so the next load accepts what was stored.
pub proof fn lemma_reorder_keeps_names(shells: Seq<Seq<char>>, selected: Seq<char>, known: Set<
    Seq<char>,
>)
    requires
        names_exactly(shells, known),
        known.contains(selected),
    ensures
        names_exactly(reordered(shells, selected), known),
{
    let p = other_than(selected);
    let r = reordered(shells, selected);
    assert forall|x: Seq<char>| r.to_set().contains(x) <==> known.contains(x) by {
        if r.contains(x) {
            let j = choose|j: int| 0 <= j < r.len() && r[j] == x;
            if j > 0 {
                assert(shells.filter(p).contains(x));
                shells.lemma_filter_contains_rev(p, x);
            }
        }
        if known.contains(x) {
            if x == selected {
                assert(r[0] == x);
            } else {
                assert(shells.to_set().contains(x));
                let j = choose|j: int| 0 <= j < shells.len() && shells[j] == x;
                shells.lemma_filter_contains(p, j);
                let k = choose|k: int| 0 <= k < shells.filter(p).len() && shells.filter(p)[k] == x;
                assert(r[k + 1] == x);
            }
        }
    }
    assert(r.to_set() =~= known);
}

/// The order offered in the menu: a loaded order when it names exactly the
/// known shells, else the known shells sorted.
pub open spec fn offered_order(
    known: Set<Seq<char>>,
    sorted: Seq<Seq<char>>,
    loaded: Option<Seq<Seq<char>>>,
) -> Seq<Seq<char>> {
    match loaded {
        Some(order) => if names_exactly(order, known) {
            order
        } else {
            sorted
        },
        None => sorted,
    }
}

/// The menu offers every known shell and no other: the order offered names
/// exactly the known shells, whatever the history held.
pub proof fn lemma_offered_names_known(
    known: Set<Seq<char>>,
    sorted: Seq<Seq<char>>,
    loaded: Option<Seq<Seq<char>>>,
)
    requires
        sorted.to_set() == known,
    ensures
        names_exactly(offered_order(known, sorted, loaded), known),
{
}

/// Orders the known shells for the menu from what the history held, if
/// anything (`None` where there is no history or it could not be read as a
/// list of names).
pub fn load_ordered_shells(shell_names: &StringSet, loaded: Option<Vec<String>>) -> (r: Vec<
    String,
>)
    ensures
        string_views(r@) == offered_order(
            shell_names@,
            shell_names.sorted_members(),
            match loaded {
                Some(v) => Some(string_views(v@)),
                None => None,
            },
        ),
        strictly_sorted(shell_names.sorted_members()),
        shell_names.sorted_members().to_set() == shell_names@,
{
    let sorted = shell_names.to_sorted_vec();
    match loaded {
        Some(order) => match validate_history(order.as_slice(), shell_names) {
            Some(v) => v,
            None => sorted,
        },
        None => sorted,
    }
}

/// What `serde_json` reads from `text` as a JSON list of strings, or `None`
/// where `text` is not one.
pub uninterp spec fn json_string_list(text: Seq<char>) -> Option<Seq<Seq<char>>>;

/// The JSON text that `serde_json` writes for a list of strings.
pub uninterp spec fn json_text_of_strings(items: Seq<Seq<char>>) -> Seq<char>;

/// Reads `text` as a JSON list of strings.
///
/// Trusted: wraps `serde_json::from_str::<Vec<String>>`; its outcome is named
/// [`json_string_list`] of the text, the error itself is dropped.
#[verifier::external_body]
fn read_json_strings(text: &str) -> (r: Option<Vec<String>>)
    ensures
        match r {
            Some(v) => json_string_list(text@) == Some(string_views(v@)),
            None => json_string_list(text@) is None,
        },
{
    serde_json::from_str::<Vec<String>>(text).ok()
}

/// The error type of `serde_json`.
#[verifier::external_type_specification]
#[verifier::external_body]
pub struct ExJsonError(serde_json::Error);

/// Writes a list of strings as JSON text.
///
/// Trusted: wraps `serde_json::to_string` on a slice of strings. The text is
/// named [`json_text_of_strings`] of the list. Facts of `serde_json` that are
/// stated: writing strings into an in-memory buffer does not fail (the only
/// errors `to_string`, `serialize_seq` and `serialize_str` pass on come from
/// the writer, and writing into a `Vec<u8>` never fails); an array is written
/// starting with `[` (`begin_array`); reading the text back as a list of
/// strings gives the same strings.
#[verifier::external_body]
fn write_json_strings(items: &[String]) -> (r: Result<String, serde_json::Error>)
    ensures
        r is Ok,
        r matches Ok(s) ==> {
            &&& s@ == json_text_of_strings(string_views(items@))
            &&& s@.len() > 0
            &&& s@[0] == '['
            &&& json_string_list(s@) == Some(string_views(items@))
        },
{
    serde_json::to_string(items)
}

/// The message of a `serde_json` error.
///
/// Trusted: wraps the `Display` of `serde_json::Error`; nothing is claimed
/// of the text.
#[verifier::external_body]
fn json_error_message(e: &serde_json::Error) -> String {
    e.to_string()
}

/// The order a history file holds: nothing for a blank file, else the file
/// read as a JSON list of names, nothing where it is not one.
pub open spec fn history_of_text(text: Seq<char>) -> Option<Seq<Seq<char>>> {
    if is_blank(text) {
        None
    } else {
        json_string_list(text)
    }
}

/// Reads the order stored in a history file's text.
pub fn parse_history(text: &str) -> (r: Option<Vec<String>>)
    ensures
        match r {
            Some(v) => history_of_text(text@) == Some(string_views(v@)),
            None => history_of_text(text@) is None,
        },
{
    if blank(text) {
        None
    } else {
        read_json_strings(text)
    }
}

/// The text stored in a history file for an order of shells. It is always
/// produced, and what it stores reads back as the same order.
pub fn history_text(shells: &[String]) -> (r: Result<String, QuicktermError>)
    ensures
        r is Ok,
        r matches Ok(s) ==> s@ == json_text_of_strings(string_views(shells@)),
        r matches Ok(s) ==> history_of_text(s@) == Some(string_views(shells@)),
{
    match write_json_strings(shells) {
        Ok(s) => {
            proof {
                assert(!crate::text::is_white_space(s@[0]));
            }
            Ok(s)
        },
        Err(e) => Err(QuicktermError::Json(json_error_message(&e))),
    }
}

} // verus!
