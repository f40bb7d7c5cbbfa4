//! The text exchanged with the menu program: the choices it is given, one
//! per line, and the choice read back from its output.

use vstd::prelude::*;

use crate::error::QuicktermError;
use crate::text::{copy_str, push_char, push_str, string_views, trim, trimmed};

verus! {

/// The menu's input: each choice followed by a newline.
pub open spec fn menu_text(items: Seq<Seq<char>>) -> Seq<char>
    decreases items.len(),
{
    if items.len() == 0 {
        Seq::empty()
    } else {
        menu_text(items.drop_last()) + items.last() + seq!['\n']
    }
}

/// The text written to the menu program for the choices `items`.
pub fn menu_input(items: &[String]) -> (s: String)
    ensures
        s@ == menu_text(string_views(items@)),
{
    let ghost views = string_views(items@);
    let mut s = String::new();
    let mut i: usize = 0;
    while i < items.len()
        invariant
            i <= items@.len(),
            views == string_views(items@),
            s@ == menu_text(views.take(i as int)),
        decreases items@.len() - i,
    {
        push_str(&mut s, items[i].as_str());
        push_char(&mut s, '\n');
        assert(views.take(i + 1).drop_last() == views.take(i as int));
        i = i + 1;
    }
    assert(views.take(items@.len() as int) == views);
    s
}

/// Checks that the menu command has a program to run.
pub fn check_menu_command(argv: &[String]) -> (r: Result<(), QuicktermError>)
    ensures
        argv@.len() == 0 <==> r is Err,
        r matches Err(e) ==> e matches QuicktermError::Menu(m) && m@ == "empty menu command"@,
{
    if argv.len() == 0 {
        Err(QuicktermError::Menu(copy_str("empty menu command")))
    } else {
        Ok(())
    }
}

/// The text `String::from_utf8_lossy` makes of `bytes`.
pub uninterp spec fn utf8_lossy(bytes: Seq<u8>) -> Seq<char>;

/// Decodes bytes as UTF-8, replacing each invalid sequence with U+FFFD.
///
/// Trusted: wraps `String::from_utf8_lossy`. Its result is named
/// [`utf8_lossy`] of the bytes; its documentation states that valid UTF-8
/// decodes to the characters it encodes.
#[verifier::external_body]
fn decode_lossy(bytes: &[u8]) -> (s: String)
    ensures
        s@ == utf8_lossy(bytes@),
        vstd::utf8::valid_utf8(bytes@) ==> s@ == vstd::utf8::decode_utf8(bytes@),
{
    String::from_utf8_lossy(bytes).into_owned()
}

/// The choice the menu printed: its output decoded, without surrounding
/// white space.
pub fn menu_choice(output: &[u8]) -> (s: String)
    ensures
        s@ == trimmed(utf8_lossy(output@)),
        vstd::utf8::valid_utf8(output@) ==> s@ == trimmed(vstd::utf8::decode_utf8(output@)),
{
    let text = decode_lossy(output);
    trim(text.as_str())
}

} // verus!
