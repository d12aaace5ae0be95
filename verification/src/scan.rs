//! Readers for the parts of the grammar, over a line held as a vector of
//! characters. Each takes a position and gives the position behind what it
//! read, as the function of `grammar` that it is named after says.

use crate::enum_::OptionToken;
use crate::grammar::{
    clause_at, form_at, is_alpha, is_lower, is_upper, lemma_run_end, long_at, malformed_at,
    name_at, old_at, optional_at, required_at, run_end, short_at, CharClass, Clause,
};
use vstd::prelude::*;

verus! {

/// Whether `c` is one of the letters `a` to `z`.
pub fn lower(c: char) -> (b: bool)
    ensures
        b == is_lower(c),
{
    'a' <= c && c <= 'z'
}

/// Whether `c` is one of the letters `A` to `Z`.
pub fn upper(c: char) -> (b: bool)
    ensures
        b == is_upper(c),
{
    'A' <= c && c <= 'Z'
}

/// Whether `c` is a letter of either case.
pub fn alpha(c: char) -> (b: bool)
    ensures
        b == is_alpha(c),
{
    lower(c) || upper(c)
}

impl CharClass {
    /// Whether `c` is of this class.
    pub fn contains(self, c: char) -> (b: bool)
        ensures
            b == self.has(c),
    {
        match self {
            CharClass::Blank => c == ' ' || c == '\t',
            CharClass::Name => alpha(c) || c == '-',
            CharClass::Upper => upper(c),
            CharClass::Inner => c != '[' && c != ']',
            CharClass::Text => c != '\n',
        }
    }
}

/// The characters of `s`, in order.
pub fn chars_of(s: &str) -> (cs: Vec<char>)
    ensures
        cs@ == s@,
{
    let mut cs: Vec<char> = Vec::new();
    for c in it: s.chars()
        invariant
            cs@ == s@.take(it.index() as int),
            it.seq() == s@,
    {
        cs.push(c);
    }
    cs
}

/// The characters of `cs` from `from` up to `to`, as a string.
pub fn text_of(cs: &Vec<char>, from: usize, to: usize) -> (s: String)
    requires
        from <= to <= cs.len(),
    ensures
        s@ == cs@.subrange(from as int, to as int),
{
    let mut s = String::new();
    let mut i: usize = from;
    while i < to
        invariant
            from <= i <= to <= cs.len(),
            s@ == cs@.subrange(from as int, i as int),
        decreases to - i,
    {
        s.push(cs[i]);
        i += 1;
    }
    s
}

/// Passes over the characters of `class` that stand at `at`.
pub fn run(cs: &Vec<char>, class: CharClass, at: usize) -> (end: usize)
    requires
        at <= cs.len(),
    ensures
        end == run_end(cs@, class, at as int),
        at <= end <= cs.len(),
{
    let mut end: usize = at;
    while end < cs.len() && class.contains(cs[end])
        invariant
            at <= end <= cs.len(),
            run_end(cs@, class, at as int) == run_end(cs@, class, end as int),
        decreases cs.len() - end,
    {
        end += 1;
    }
    end
}

/// Reads an identifier: a letter, then one or more letters and dashes.
pub fn read_name(cs: &Vec<char>, at: usize) -> (end: Option<usize>)
    requires
        at <= cs.len(),
    ensures
        end matches Some(e) ==> at + 2 <= e <= cs.len(),
        match name_at(cs@, at as int) {
            Some(e) => end matches Some(found) && found == e,
            None => end is None,
        },
{
    if at < cs.len() && cs.len() - at >= 2 && alpha(cs[at]) && CharClass::Name.contains(
        cs[at + 1],
    ) {
        proof {
            lemma_run_end(cs@, CharClass::Name, at + 2);
        }
        Some(run(cs, CharClass::Name, at + 1))
    } else {
        None
    }
}

/// Reads a long option: two dashes and an identifier.
pub fn read_long(cs: &Vec<char>, at: usize) -> (found: Option<(OptionToken, usize)>)
    requires
        at <= cs.len(),
    ensures
        found matches Some((_, end)) ==> at + 4 <= end <= cs.len(),
        match long_at(cs@, at as int) {
            Some((token, end)) => found matches Some((t, e)) && t@ == token && e == end,
            None => found is None,
        },
{
    if at < cs.len() && cs.len() - at >= 2 && cs[at] == '-' && cs[at + 1] == '-' {
        match read_name(cs, at + 2) {
            Some(end) => Some((OptionToken::LongOption(text_of(cs, at + 2, end)), end)),
            None => None,
        }
    } else {
        None
    }
}

/// Reads an old-style option: one dash and an identifier.
pub fn read_old(cs: &Vec<char>, at: usize) -> (found: Option<(OptionToken, usize)>)
    requires
        at <= cs.len(),
    ensures
        found matches Some((_, end)) ==> at + 3 <= end <= cs.len(),
        match old_at(cs@, at as int) {
            Some((token, end)) => found matches Some((t, e)) && t@ == token && e == end,
            None => found is None,
        },
{
    if at < cs.len() && cs[at] == '-' {
        match read_name(cs, at + 1) {
            Some(end) => Some((OptionToken::OldOption(text_of(cs, at + 1, end)), end)),
            None => None,
        }
    } else {
        None
    }
}

/// Reads a short option: one dash and one letter.
pub fn read_short(cs: &Vec<char>, at: usize) -> (found: Option<(OptionToken, usize)>)
    requires
        at <= cs.len(),
    ensures
        found matches Some((_, end)) ==> end == at + 2 && end <= cs.len(),
        match short_at(cs@, at as int) {
            Some((token, end)) => found matches Some((t, e)) && t@ == token && e == end,
            None => found is None,
        },
{
    if at < cs.len() && cs.len() - at >= 2 && cs[at] == '-' && alpha(cs[at + 1]) {
        Some((OptionToken::ShortOption(cs[at + 1]), at + 2))
    } else {
        None
    }
}

/// Reads an option in the first form that fits: long, old, short.
pub fn read_form(cs: &Vec<char>, at: usize) -> (found: Option<(OptionToken, usize)>)
    requires
        at <= cs.len(),
    ensures
        found matches Some((_, end)) ==> at + 2 <= end <= cs.len(),
        match form_at(cs@, at as int) {
            Some((token, end)) => found matches Some((t, e)) && t@ == token && e == end,
            None => found is None,
        },
{
    let long = read_long(cs, at);
    if long.is_some() {
        return long;
    }
    let old = read_old(cs, at);
    if old.is_some() {
        return old;
    }
    read_short(cs, at)
}

/// Reads a required placeholder: two or more upper-case letters.
pub fn read_required(cs: &Vec<char>, at: usize) -> (end: Option<usize>)
    requires
        at <= cs.len(),
    ensures
        end matches Some(e) ==> at + 2 <= e <= cs.len(),
        match required_at(cs@, at as int) {
            Some(e) => end matches Some(found) && found == e,
            None => end is None,
        },
{
    if at < cs.len() && cs.len() - at >= 2 && upper(cs[at]) && upper(cs[at + 1]) {
        proof {
            lemma_run_end(cs@, CharClass::Upper, at + 2);
        }
        Some(run(cs, CharClass::Upper, at + 1))
    } else {
        None
    }
}

/// Reads a bracketed placeholder and says whether it is repeatable.
pub fn read_optional(cs: &Vec<char>, at: usize) -> (found: Option<(bool, usize)>)
    requires
        at <= cs.len(),
    ensures
        found matches Some((_, end)) ==> at + 3 <= end <= cs.len(),
        match optional_at(cs@, at as int) {
            Some((repeatable, end)) => found matches Some((r, e)) && r == repeatable && e == end,
            None => found is None,
        },
{
    if at < cs.len() && cs[at] == '[' {
        let close = run(cs, CharClass::Inner, at + 1);
        if at + 1 < close && close < cs.len() && cs[close] == ']' {
            let repeatable = close - (at + 1) >= 3 && cs[close - 3] == '.' && cs[close - 2] == '.'
                && cs[close - 1] == '.';
            return Some((repeatable, close + 1));
        }
    }
    None
}

/// Whether a bracket opens at `at` that is not closed or is nested.
pub fn malformed(cs: &Vec<char>, at: usize) -> (b: bool)
    requires
        at <= cs.len(),
    ensures
        b == malformed_at(cs@, at as int),
{
    if at < cs.len() && cs[at] == '[' {
        let close = run(cs, CharClass::Inner, at + 1);
        close >= cs.len() || cs[close] == '['
    } else {
        false
    }
}

/// One option clause as it was read.
pub struct ParsedClause {
    /// The flag.
    pub token: OptionToken,
    /// Whether a required placeholder follows the flag.
    pub required: bool,
    /// Whether a bracketed placeholder follows, and whether it is repeatable.
    pub optional: Option<bool>,
    /// The position behind the clause and the blanks that follow it.
    pub end: usize,
}

impl View for ParsedClause {
    type V = Clause;

    open spec fn view(&self) -> Clause {
        Clause {
            token: self.token@,
            required: self.required,
            optional: self.optional,
            end: self.end as int,
        }
    }
}

/// Reads one option clause with the blanks around its parts.
pub fn read_clause(cs: &Vec<char>, at: usize) -> (found: Option<ParsedClause>)
    requires
        at <= cs.len(),
    ensures
        found matches Some(clause) ==> at + 2 <= clause.end <= cs.len(),
        match clause_at(cs@, at as int) {
            Some(clause) => found matches Some(read) && read@ == clause,
            None => found is None,
        },
{
    let start = run(cs, CharClass::Blank, at);
    let (token, after_form) = match read_form(cs, start) {
        Some(form) => form,
        None => {
            return None;
        },
    };
    let arg = run(cs, CharClass::Blank, after_form);
    let (required, after_arg) = match read_required(cs, arg) {
        Some(after_arg) => (true, after_arg),
        None => (false, arg),
    };
    let bracket = run(cs, CharClass::Blank, after_arg);
    match read_optional(cs, bracket) {
        Some((repeatable, after_bracket)) => Some(
            ParsedClause {
                token,
                required,
                optional: Some(repeatable),
                end: run(cs, CharClass::Blank, after_bracket),
            },
        ),
        None => if malformed(cs, bracket) {
            None
        } else {
            Some(ParsedClause { token, required, optional: None, end: bracket })
        },
    }
}

} // verus!
