//! Trusted bindings to std's text functions: character classification,
//! trailing-whitespace trimming, and UTF-8 decoding.

use vstd::prelude::*;

verus! {

use vstd::utf8::{decode_utf8, valid_utf8};

/// Whether std classifies `c` as alphanumeric.  The classification covers all
/// of Unicode, so it is left uninterpreted here; `char_alphanumeric` is the
/// only source of facts about it.
pub uninterp spec fn alphanumeric(c: char) -> bool;

/// Relies on `char::is_alphanumeric`: the result depends on the character
/// alone.
#[verifier::external_body]
pub(crate) fn char_alphanumeric(c: char) -> (r: bool)
    ensures
        r == alphanumeric(c),
{
    c.is_alphanumeric()
}

/// The characters of `s` with all trailing whitespace removed, as
/// `str::trim_end` computes it.  Unicode decides which characters count as
/// whitespace, so the function is left uninterpreted.
pub uninterp spec fn trimmed_end(s: Seq<char>) -> Seq<char>;

/// Relies on `str::trim_end`: the result depends on the characters alone.
#[verifier::external_body]
pub(crate) fn trim_end_line(s: &str) -> (r: String)
    ensures
        r@ == trimmed_end(s@),
{
    s.trim_end().to_owned()
}

/// Relies on `std::str::from_utf8`: it succeeds exactly on valid UTF-8 and
/// returns the decoded characters, as vstd's `decode_utf8` states them.
#[verifier::external_body]
pub(crate) fn bytes_to_utf8(v: &[u8]) -> (r: Option<&str>)
    ensures
        match r {
            Some(s) => valid_utf8(v@) && s@ == decode_utf8(v@),
            None => !valid_utf8(v@),
        },
{
    std::str::from_utf8(v).ok()
}

} // verus!
