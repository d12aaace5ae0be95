//! The grammar of option declarations, stated over sequences of characters.
//!
//! Every function here reads a line `s` from a position `at` and, where the
//! text there has the shape in question, gives the position just behind it.
//!
//! ```text
//! Line         := OptionClause (',' OptionClause)*
//! OptionClause := ws OptionForm ws RequiredArg? ws OptionalArgs? ws
//! OptionForm   := LongForm | OldForm | ShortForm
//! LongForm     := '--' Alpha (Alpha | '-')+
//! OldForm      := '-'  Alpha (Alpha | '-')+
//! ShortForm    := '-'  Alpha
//! RequiredArg  := Upper Upper+
//! OptionalArgs := '[' (any character but '[' and ']')+ ']'
//! ```
//!
//! `ws` is any number of spaces and tabs, `Alpha` one of the letters `a` to
//! `z` and `A` to `Z`, `Upper` one of `A` to `Z`. Every repetition takes as
//! much as there is, and of the three forms of an option the first that
//! fits is taken. A bracket where `OptionalArgs` may stand that is not
//! closed, or in which another bracket opens, fails the whole clause. An
//! empty pair `[]` is no placeholder: it is left to the description.

use crate::enum_::{cardinality, TokenView};
use vstd::prelude::*;

verus! {

/// Whether `c` is one of the letters `a` to `z`.
pub open spec fn is_lower(c: char) -> bool {
    'a' <= c && c <= 'z'
}

/// Whether `c` is one of the letters `A` to `Z`.
pub open spec fn is_upper(c: char) -> bool {
    'A' <= c && c <= 'Z'
}

/// Whether `c` is a letter of either case.
pub open spec fn is_alpha(c: char) -> bool {
    is_lower(c) || is_upper(c)
}

/// The kinds of character of which the grammar reads whole runs.
#[derive(Clone, Copy, Debug, PartialEq, Eq, Structural)]
pub enum CharClass {
    /// A space or a tab: what may stand between the parts of a clause.
    Blank,
    /// A letter or a dash: what an identifier goes on with.
    Name,
    /// An upper-case letter: what a required placeholder is made of.
    Upper,
    /// Anything but a square bracket: what may stand between two of them.
    Inner,
    /// Anything but a line feed: what a line of a text is made of.
    Text,
}

impl CharClass {
    /// Whether `c` is of this class.
    pub open spec fn has(self, c: char) -> bool {
        match self {
            CharClass::Blank => c == ' ' || c == '\t',
            CharClass::Name => is_alpha(c) || c == '-',
            CharClass::Upper => is_upper(c),
            CharClass::Inner => c != '[' && c != ']',
            CharClass::Text => c != '\n',
        }
    }
}

/// The end of the longest run of characters of `class` that starts at `at`:
/// the first position from `at` on that holds no such character.
pub open spec fn run_end(s: Seq<char>, class: CharClass, at: int) -> int
    decreases s.len() - at,
{
    if 0 <= at < s.len() && class.has(s[at]) {
        run_end(s, class, at + 1)
    } else {
        at
    }
}

/// Whether `name` can be the identifier of a long or an old-style option:
/// a letter, then one or more letters and dashes.
pub open spec fn is_identifier(name: Seq<char>) -> bool {
    &&& name.len() >= 2
    &&& is_alpha(name[0])
    &&& forall|i: int| 0 <= i < name.len() ==> CharClass::Name.has(#[trigger] name[i])
}

impl TokenView {
    /// Whether the token is one that help text can hold: the identifier of
    /// a long or an old-style option is a letter followed by one or more
    /// letters and dashes, and a short option is a letter.
    pub open spec fn well_formed(self) -> bool {
        match self {
            TokenView::Long(name) => is_identifier(name),
            TokenView::Short(c) => is_alpha(c),
            TokenView::Old(name) => is_identifier(name),
        }
    }
}

/// `Alpha (Alpha | '-')+` at `at`: the end of the identifier.
pub open spec fn name_at(s: Seq<char>, at: int) -> Option<int> {
    if 0 <= at && at + 1 < s.len() && is_alpha(s[at]) && CharClass::Name.has(s[at + 1]) {
        Some(run_end(s, CharClass::Name, at + 1))
    } else {
        None
    }
}

/// `LongForm` at `at`: the token and the position behind it.
pub open spec fn long_at(s: Seq<char>, at: int) -> Option<(TokenView, int)> {
    if 0 <= at && at + 1 < s.len() && s[at] == '-' && s[at + 1] == '-' {
        match name_at(s, at + 2) {
            Some(end) => Some((TokenView::Long(s.subrange(at + 2, end)), end)),
            None => None,
        }
    } else {
        None
    }
}

/// `OldForm` at `at`: the token and the position behind it.
pub open spec fn old_at(s: Seq<char>, at: int) -> Option<(TokenView, int)> {
    if 0 <= at < s.len() && s[at] == '-' {
        match name_at(s, at + 1) {
            Some(end) => Some((TokenView::Old(s.subrange(at + 1, end)), end)),
            None => None,
        }
    } else {
        None
    }
}

/// `ShortForm` at `at`: the token and the position behind it. What follows
/// the letter is not looked at.
pub open spec fn short_at(s: Seq<char>, at: int) -> Option<(TokenView, int)> {
    if 0 <= at && at + 1 < s.len() && s[at] == '-' && is_alpha(s[at + 1]) {
        Some((TokenView::Short(s[at + 1]), at + 2))
    } else {
        None
    }
}

/// `OptionForm` at `at`: the first of the long, the old and the short form
/// that the text has, in that order.
pub open spec fn form_at(s: Seq<char>, at: int) -> Option<(TokenView, int)> {
    if long_at(s, at) is Some {
        long_at(s, at)
    } else if old_at(s, at) is Some {
        old_at(s, at)
    } else {
        short_at(s, at)
    }
}

/// `RequiredArg` at `at`: the end of the run of upper-case letters, which
/// has two of them or more.
pub open spec fn required_at(s: Seq<char>, at: int) -> Option<int> {
    if 0 <= at && at + 1 < s.len() && is_upper(s[at]) && is_upper(s[at + 1]) {
        Some(run_end(s, CharClass::Upper, at + 1))
    } else {
        None
    }
}

/// Whether `inner` ends in the three dots that mark a placeholder as
/// repeatable.
pub open spec fn ends_in_ellipsis(inner: Seq<char>) -> bool {
    &&& inner.len() >= 3
    &&& inner[inner.len() - 3] == '.'
    &&& inner[inner.len() - 2] == '.'
    &&& inner[inner.len() - 1] == '.'
}

/// `OptionalArgs` at `at`: whether the placeholder is repeatable, and the
/// position behind the closing bracket.
pub open spec fn optional_at(s: Seq<char>, at: int) -> Option<(bool, int)> {
    let close = run_end(s, CharClass::Inner, at + 1);
    if 0 <= at < s.len() && s[at] == '[' && at + 1 < close < s.len() && s[close] == ']' {
        Some((ends_in_ellipsis(s.subrange(at + 1, close)), close + 1))
    } else {
        None
    }
}

/// Whether a bracket opens at `at` that is not closed, or in which another
/// bracket opens before it is.
pub open spec fn malformed_at(s: Seq<char>, at: int) -> bool {
    let close = run_end(s, CharClass::Inner, at + 1);
    0 <= at < s.len() && s[at] == '[' && (close >= s.len() || s[close] == '[')
}

/// One option clause as the grammar reads it.
pub struct Clause {
    /// The flag.
    pub token: TokenView,
    /// Whether a required placeholder follows the flag.
    pub required: bool,
    /// Whether a bracketed placeholder follows, and whether it is repeatable.
    pub optional: Option<bool>,
    /// The position behind the clause and the blanks that follow it.
    pub end: int,
}

impl Clause {
    /// Whether the clause says how many arguments its option takes.
    pub open spec fn conventional(self) -> bool {
        cardinality(self.required, self.optional) is Some
    }
}

/// `OptionClause` at `at`. With a malformed bracket where the bracketed
/// placeholder may stand, the clause does not match.
pub open spec fn clause_at(s: Seq<char>, at: int) -> Option<Clause> {
    match form_at(s, run_end(s, CharClass::Blank, at)) {
        None => None,
        Some((token, after_form)) => {
            let arg = run_end(s, CharClass::Blank, after_form);
            let required = required_at(s, arg);
            let bracket = run_end(
                s,
                CharClass::Blank,
                match required {
                    Some(after_arg) => after_arg,
                    None => arg,
                },
            );
            if malformed_at(s, bracket) {
                None
            } else {
                match optional_at(s, bracket) {
                    Some((repeatable, after_bracket)) => Some(
                        Clause {
                            token,
                            required: required is Some,
                            optional: Some(repeatable),
                            end: run_end(s, CharClass::Blank, after_bracket),
                        },
                    ),
                    None => Some(
                        Clause { token, required: required is Some, optional: None, end: bracket },
                    ),
                }
            }
        },
    }
}

/// `(',' OptionClause)*` at `at`: the clauses that follow, each behind its
/// comma, up to the first comma that no clause follows.
pub open spec fn more_clauses(s: Seq<char>, at: int) -> Seq<Clause>
    decreases s.len() - at,
{
    if 0 <= at < s.len() && s[at] == ',' {
        match clause_at(s, at + 1) {
            Some(clause) => {
                proof {
                    lemma_clause_advances(s, at + 1);
                }
                seq![clause] + more_clauses(s, clause.end)
            },
            None => Seq::empty(),
        }
    } else {
        Seq::empty()
    }
}

/// `Line`: the clauses of the line `s`, in the order in which they stand,
/// or `None` where the line does not begin with one.
pub open spec fn line(s: Seq<char>) -> Option<Seq<Clause>> {
    match clause_at(s, 0) {
        Some(first) => Some(seq![first] + more_clauses(s, first.end)),
        None => None,
    }
}

/// The description: what of the line `s` is left behind `clauses`.
pub open spec fn description(s: Seq<char>, clauses: Seq<Clause>) -> Seq<char> {
    s.skip(clauses.last().end)
}

/// A run ends at or behind its start and within the text; all of it is of
/// the class, and what stands at its end is not.
pub proof fn lemma_run_end(s: Seq<char>, class: CharClass, at: int)
    requires
        0 <= at <= s.len(),
    ensures
        at <= run_end(s, class, at) <= s.len(),
        forall|i: int| at <= i < run_end(s, class, at) ==> class.has(#[trigger] s[i]),
        run_end(s, class, at) < s.len() ==> !class.has(s[run_end(s, class, at)]),
    decreases s.len() - at,
{
    if at < s.len() && class.has(s[at]) {
        lemma_run_end(s, class, at + 1);
    }
}

/// The end of a run is the only position with the properties of
/// `lemma_run_end`.
pub proof fn lemma_run_end_is(s: Seq<char>, class: CharClass, at: int, end: int)
    requires
        0 <= at <= end <= s.len(),
        forall|i: int| at <= i < end ==> class.has(#[trigger] s[i]),
        end < s.len() ==> !class.has(s[end]),
    ensures
        run_end(s, class, at) == end,
    decreases end - at,
{
    if at < end {
        lemma_run_end_is(s, class, at + 1, end);
    }
}

/// A flag takes up two characters or more, all within the text.
pub proof fn lemma_form_advances(s: Seq<char>, at: int)
    ensures
        form_at(s, at) matches Some((_, end)) ==> 0 <= at && at + 2 <= end <= s.len(),
{
    if 0 <= at && at + 2 < s.len() {
        lemma_run_end(s, CharClass::Name, at + 2);
    }
    if 0 <= at && at + 3 < s.len() {
        lemma_run_end(s, CharClass::Name, at + 3);
    }
}

/// A clause ends behind its flag and within the text, and no blank stands
/// at its end.
pub proof fn lemma_clause_advances(s: Seq<char>, at: int)
    requires
        0 <= at,
    ensures
        clause_at(s, at) matches Some(clause) ==> {
            &&& at + 2 <= clause.end <= s.len()
            &&& clause.end < s.len() ==> !CharClass::Blank.has(s[clause.end])
        },
{
    if at <= s.len() {
        lemma_run_end(s, CharClass::Blank, at);
    }
    let start = run_end(s, CharClass::Blank, at);
    lemma_form_advances(s, start);
    if let Some((token, after_form)) = form_at(s, start) {
        lemma_run_end(s, CharClass::Blank, after_form);
        let arg = run_end(s, CharClass::Blank, after_form);
        let after_arg = match required_at(s, arg) {
            Some(after_arg) => {
                lemma_run_end(s, CharClass::Upper, arg + 1);
                after_arg
            },
            None => arg,
        };
        lemma_run_end(s, CharClass::Blank, after_arg);
        let bracket = run_end(s, CharClass::Blank, after_arg);
        if let Some((_, after_bracket)) = optional_at(s, bracket) {
            lemma_run_end(s, CharClass::Blank, after_bracket);
        }
    }
}

} // verus!
