//! What holds of the grammar on every line.

use crate::enum_::{cardinality, TokenView};
use crate::grammar::{
    clause_at, description, form_at, is_alpha, is_identifier, lemma_clause_advances,
    lemma_form_advances, lemma_run_end, lemma_run_end_is, line, long_at, more_clauses, old_at,
    run_end, short_at, CharClass, Clause,
};
use crate::text::{line_text, lines, lines_from};
use vstd::prelude::*;

verus! {

/// Two dashes and an identifier, with nothing behind it that could go on
/// the identifier, are read as the long option of that name, and no more
/// than them is read.
pub proof fn law_long_form(name: Seq<char>, rest: Seq<char>)
    requires
        is_identifier(name),
        rest.len() > 0 ==> !CharClass::Name.has(rest[0]),
    ensures
        long_at(seq!['-', '-'] + name + rest, 0) == Some(
            (TokenView::Long(name), 2 + name.len() as int),
        ),
        form_at(seq!['-', '-'] + name + rest, 0) == long_at(seq!['-', '-'] + name + rest, 0),
{
    let s = seq!['-', '-'] + name + rest;
    let end = 2 + name.len() as int;
    assert forall|i: int| 3 <= i < end implies CharClass::Name.has(#[trigger] s[i]) by {
        assert(s[i] == name[i - 2]);
    }
    assert(s[2] == name[0]);
    assert(s[3] == name[1]);
    assert(end < s.len() ==> s[end] == rest[0]);
    lemma_run_end_is(s, CharClass::Name, 3, end);
    assert(s.subrange(2, end) == name);
}

/// A line that is two dashes and an identifier declares the long option of
/// that name, without arguments and without a description.
pub proof fn law_long_form_line(name: Seq<char>)
    requires
        is_identifier(name),
    ensures
        line(seq!['-', '-'] + name) == Some(
            seq![
                Clause {
                    token: TokenView::Long(name),
                    required: false,
                    optional: None,
                    end: 2 + name.len() as int,
                },
            ],
        ),
        description(seq!['-', '-'] + name, line(seq!['-', '-'] + name)->0).len() == 0,
{
    let s = seq!['-', '-'] + name;
    assert(s == seq!['-', '-'] + name + Seq::<char>::empty());
    law_long_form(name, Seq::empty());
    lemma_bare_flag_line(s);
}

/// One dash and an identifier, with nothing behind it that could go on the
/// identifier, are read as the old-style option of that name, and no more
/// than them is read.
pub proof fn law_old_form(name: Seq<char>, rest: Seq<char>)
    requires
        is_identifier(name),
        rest.len() > 0 ==> !CharClass::Name.has(rest[0]),
    ensures
        old_at(seq!['-'] + name + rest, 0) == Some((TokenView::Old(name), 1 + name.len() as int)),
        form_at(seq!['-'] + name + rest, 0) == old_at(seq!['-'] + name + rest, 0),
{
    let s = seq!['-'] + name + rest;
    let end = 1 + name.len() as int;
    assert forall|i: int| 2 <= i < end implies CharClass::Name.has(#[trigger] s[i]) by {
        assert(s[i] == name[i - 1]);
    }
    assert(s[1] == name[0]);
    assert(s[2] == name[1]);
    assert(end < s.len() ==> s[end] == rest[0]);
    lemma_run_end_is(s, CharClass::Name, 2, end);
    assert(s.subrange(1, end) == name);
}

/// One dash and one letter, with neither a letter nor a dash behind them,
/// are read as the short option of that letter.
pub proof fn law_short_form(c: char, rest: Seq<char>)
    requires
        is_alpha(c),
        rest.len() > 0 ==> !CharClass::Name.has(rest[0]),
    ensures
        short_at(seq!['-', c] + rest, 0) == Some((TokenView::Short(c), 2int)),
        form_at(seq!['-', c] + rest, 0) == short_at(seq!['-', c] + rest, 0),
{
    let s = seq!['-', c] + rest;
    assert(s[0] == '-');
    assert(s[1] == c);
    assert(2 < s.len() ==> s[2] == rest[0]);
}

/// A line that is one dash and one letter declares the short option of that
/// letter, without arguments and without a description.
pub proof fn law_short_form_line(c: char)
    requires
        is_alpha(c),
    ensures
        line(seq!['-', c]) == Some(
            seq![Clause { token: TokenView::Short(c), required: false, optional: None, end: 2 }],
        ),
{
    let s = seq!['-', c];
    assert(s == seq!['-', c] + Seq::<char>::empty());
    law_short_form(c, Seq::empty());
    lemma_bare_flag_line(s);
}

/// A line that a flag takes up whole is one clause without placeholders.
proof fn lemma_bare_flag_line(s: Seq<char>)
    requires
        form_at(s, 0) matches Some((_, end)) && end == s.len(),
    ensures
        form_at(s, 0) matches Some((token, _)) && line(s) == Some(
            seq![Clause { token, required: false, optional: None, end: s.len() as int }],
        ),
        description(s, line(s)->0).len() == 0,
{
    assert(s[0] == '-');
    let first = clause_at(s, 0)->0;
    assert(first.end == s.len());
    assert(seq![first] + more_clauses(s, first.end) == seq![first]);
}

/// An option that was read has an identifier of the shape that its form
/// asks for: the three forms differ in the dashes and in the length of the
/// identifier alone.
pub proof fn law_token_well_formed(s: Seq<char>, at: int)
    ensures
        form_at(s, at) matches Some((token, _)) ==> token.well_formed(),
{
    if let Some((token, end)) = form_at(s, at) {
        lemma_form_advances(s, at);
        match token {
            TokenView::Long(name) => {
                lemma_run_end(s, CharClass::Name, at + 3);
                assert forall|i: int| 0 <= i < name.len() implies CharClass::Name.has(
                    #[trigger] name[i],
                ) by {
                    assert(name[i] == s[at + 2 + i]);
                }
            },
            TokenView::Old(name) => {
                lemma_run_end(s, CharClass::Name, at + 2);
                assert forall|i: int| 0 <= i < name.len() implies CharClass::Name.has(
                    #[trigger] name[i],
                ) by {
                    assert(name[i] == s[at + 1 + i]);
                }
            },
            TokenView::Short(c) => {},
        }
    }
}

/// The clauses that follow a clause each hold an option of the shape that
/// its form asks for, and each ends within the line.
proof fn lemma_more_clauses_well_formed(s: Seq<char>, at: int)
    requires
        0 <= at,
    ensures
        forall|i: int|
            0 <= i < more_clauses(s, at).len() ==> {
                &&& (#[trigger] more_clauses(s, at)[i]).token.well_formed()
                &&& at < more_clauses(s, at)[i].end <= s.len()
            },
    decreases s.len() - at,
{
    let more = more_clauses(s, at);
    if more.len() > 0 {
        let next = clause_at(s, at + 1)->0;
        lemma_clause_advances(s, at + 1);
        law_token_well_formed(s, run_end(s, CharClass::Blank, at + 1));
        lemma_more_clauses_well_formed(s, next.end);
        let tail = more_clauses(s, next.end);
        assert forall|i: int| 0 <= i < more.len() implies {
            &&& (#[trigger] more[i]).token.well_formed()
            &&& at < more[i].end <= s.len()
        } by {
            if i > 0 {
                assert(more[i] == tail[i - 1]);
            }
        }
    }
}

/// Every option that a line declares has an identifier of the shape that
/// its form asks for, and every clause ends within the line.
pub proof fn law_line_well_formed(s: Seq<char>)
    requires
        line(s) is Some,
    ensures
        forall|i: int|
            0 <= i < line(s)->0.len() ==> {
                &&& (#[trigger] line(s)->0[i]).token.well_formed()
                &&& 0 < line(s)->0[i].end <= s.len()
            },
{
    let first = clause_at(s, 0)->0;
    let more = more_clauses(s, first.end);
    lemma_clause_advances(s, 0);
    law_token_well_formed(s, run_end(s, CharClass::Blank, 0));
    lemma_more_clauses_well_formed(s, first.end);
    assert forall|i: int| 0 <= i < line(s)->0.len() implies {
        &&& (#[trigger] line(s)->0[i]).token.well_formed()
        &&& 0 < line(s)->0[i].end <= s.len()
    } by {
        if i > 0 {
            assert(line(s)->0[i] == more[i - 1]);
        }
    }
}

/// One flag is never read in two forms: a long option begins with two
/// dashes, an old-style option has a letter or a dash behind its first
/// letter, and a short option has neither.
pub proof fn law_forms_apart(s: Seq<char>, at: int)
    ensures
        match form_at(s, at) {
            Some((TokenView::Long(_), _)) => s[at + 1] == '-',
            Some((TokenView::Old(_), _)) => is_alpha(s[at + 1]) && CharClass::Name.has(s[at + 2]),
            Some((TokenView::Short(_), end)) => is_alpha(s[at + 1]) && (end == s.len()
                || !CharClass::Name.has(s[end])),
            None => true,
        },
{
}

/// Only a required placeholder with a bracketed placeholder that is not
/// repeatable has no cardinality.
pub proof fn law_cardinality(required: bool, optional: Option<bool>)
    ensures
        cardinality(required, optional) is None <==> required && optional == Some(false),
{
}

/// The clauses that follow a clause end within the line, and no blank
/// stands behind the last of them.
proof fn lemma_last_end(s: Seq<char>, first: Clause)
    requires
        0 <= first.end <= s.len(),
        first.end < s.len() ==> !CharClass::Blank.has(s[first.end]),
    ensures
        ({
            let last = (seq![first] + more_clauses(s, first.end)).last();
            &&& first.end <= last.end <= s.len()
            &&& last.end < s.len() ==> !CharClass::Blank.has(s[last.end])
        }),
    decreases s.len() - first.end,
{
    let more = more_clauses(s, first.end);
    if more.len() > 0 {
        let next = clause_at(s, first.end + 1)->0;
        lemma_clause_advances(s, first.end + 1);
        lemma_last_end(s, next);
        let tail = seq![next] + more_clauses(s, next.end);
        assert(more == tail);
        assert((seq![first] + more).last() == tail.last());
    }
}

/// A line declares one option or more, and its description is what stands
/// behind the last clause: it lies within the line and does not begin with
/// a blank.
pub proof fn law_description(s: Seq<char>)
    requires
        line(s) is Some,
    ensures
        line(s)->0.len() >= 1,
        0 <= line(s)->0.last().end <= s.len(),
        description(s, line(s)->0).len() > 0 ==> !CharClass::Blank.has(
            description(s, line(s)->0)[0],
        ),
{
    let first = clause_at(s, 0)->0;
    lemma_clause_advances(s, 0);
    lemma_last_end(s, first);
}

/// A line whose first character behind its leading blanks is no dash
/// declares nothing.
pub proof fn law_prose_has_no_options(s: Seq<char>)
    requires
        ({
            let start = run_end(s, CharClass::Blank, 0);
            start < s.len() ==> s[start] != '-'
        }),
    ensures
        line(s) is None,
{
    lemma_run_end(s, CharClass::Blank, 0);
}

/// Read again as a line of its own, the description of a line declares
/// nothing, unless it begins with a dash.
pub proof fn law_description_is_prose(s: Seq<char>)
    requires
        line(s) is Some,
    ensures
        ({
            let rest = description(s, line(s)->0);
            rest.len() > 0 && rest[0] != '-' ==> line(rest) is None
        }),
        description(s, line(s)->0).len() == 0 ==> line(description(s, line(s)->0)) is None,
{
    let rest = description(s, line(s)->0);
    law_description(s);
    if rest.len() == 0 || rest[0] != '-' {
        assert(run_end(rest, CharClass::Blank, 0) == 0);
        law_prose_has_no_options(rest);
    }
}

/// No line from `at` on holds a line feed.
proof fn lemma_lines_from(s: Seq<char>, at: int)
    requires
        0 <= at,
    ensures
        forall|i: int, j: int|
            0 <= i < lines_from(s, at).len() && 0 <= j < lines_from(s, at)[i].len()
                ==> #[trigger] lines_from(s, at)[i][j] != '\n',
    decreases s.len() - at,
{
    if at < s.len() {
        let end = run_end(s, CharClass::Text, at);
        lemma_run_end(s, CharClass::Text, at);
        let first = line_text(s, at, end);
        let more = if end < s.len() {
            lines_from(s, end + 1)
        } else {
            Seq::empty()
        };
        if end < s.len() {
            lemma_lines_from(s, end + 1);
        }
        assert forall|i: int, j: int|
            0 <= i < lines_from(s, at).len() && 0 <= j < lines_from(s, at)[i].len() implies
            #[trigger] lines_from(s, at)[i][j] != '\n' by {
            if i == 0 {
                assert(first[j] == s[at + j]);
            } else {
                assert(lines_from(s, at)[i] == more[i - 1]);
            }
        }
    }
}

/// A line of a text holds no line feed: each is one line to the grammar.
pub proof fn law_lines_hold_no_line_feed(s: Seq<char>)
    ensures
        forall|i: int, j: int|
            0 <= i < lines(s).len() && 0 <= j < lines(s)[i].len() ==> #[trigger] lines(s)[i][j]
                != '\n',
{
    lemma_lines_from(s, 0);
}

} // verus!
