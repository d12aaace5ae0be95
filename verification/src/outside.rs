//! What the library takes on trust: the contracts of the functions of std
//! and of the `regex` crate that it calls. Nothing here is proved.

use vstd::prelude::*;

verus! {

/// `String::push` of std appends the character to the end of the string.
pub assume_specification[ String::push ](s: &mut String, ch: char)
    ensures
        final(s)@ == old(s)@.push(ch),
;

/// Whether `regex::Regex::new` accepts `pattern`: whether it returns a
/// regular expression and no error. The configuration that it compiles
/// with is fixed, so the pattern alone decides.
pub uninterp spec fn accepted(pattern: Seq<char>) -> bool;

/// The text that `regex::Regex::replace_all` gives for a haystack `text`,
/// with the regular expression compiled from `pattern` and with
/// `replacement` put in place of each match.
pub uninterp spec fn replaced(pattern: Seq<char>, text: Seq<char>, replacement: Seq<char>) -> Seq<
    char,
>;

/// Compiles `pattern` with `regex::Regex::new` and, where it compiles,
/// replaces every match in `text` with `regex::Regex::replace_all`.
/// Whether the pattern compiles depends on the pattern alone, and the
/// result of the replacement on the three texts alone; `None` says that
/// the pattern was not accepted.
#[verifier::external_body]
pub(crate) fn replace_all(pattern: &str, text: &str, replacement: &str) -> (out: Option<String>)
    ensures
        out is Some <==> accepted(pattern@),
        out matches Some(new) ==> new@ == replaced(pattern@, text@, replacement@),
{
    match regex::Regex::new(pattern) {
        Ok(re) => Some(re.replace_all(text, replacement).into_owned()),
        Err(_) => None,
    }
}

} // verus!
