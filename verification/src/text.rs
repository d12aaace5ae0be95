//! From the help text of a command to the completion directives for its
//! options: the text is freed of its wrapped lines, split into lines, and
//! each line that declares options is turned into directives.

use crate::enum_::TokenView;
use crate::grammar::{description, lemma_run_end, line, run_end, CharClass, Clause};
use crate::outside::{accepted, replace_all, replaced};
use crate::parser::{all_conventional, checked_parse_line};
use crate::render::{
    checked_generate_each_option, directives, heading, short_flags, subcommand_heading, texts,
    tokens, verb_view,
};
use crate::scan::{chars_of, run, text_of};
use vstd::prelude::*;

verus! {

/// The regular expression for the break of a wrapped line: a line feed and
/// the eight or more spaces by which what goes on is indented.
pub open spec fn wrap_pattern() -> Seq<char> {
    "\\n {8,}"@
}

/// The help text `help` with each break of a wrapped line replaced by one
/// space, as the `regex` crate does it.
pub open spec fn unwrapped(help: Seq<char>) -> Seq<char> {
    replaced(wrap_pattern(), help, " "@)
}

/// Why a help text gave no directives.
#[derive(Clone, Copy, Debug, PartialEq, Eq, Structural)]
pub enum HelpError {
    /// The pattern for the breaks of wrapped lines was not accepted.
    Pattern,
    /// A line of the text breaks a convention: it has a clause without a
    /// cardinality, or more than one short option.
    Convention,
}

/// The line of `s` that starts at `at` and ends before `end`, without the
/// carriage return that may stand before the line feed that ends it.
pub open spec fn line_text(s: Seq<char>, at: int, end: int) -> Seq<char> {
    if at < end < s.len() && s[end - 1] == '\r' {
        s.subrange(at, end - 1)
    } else {
        s.subrange(at, end)
    }
}

/// The lines of `s` from `at` on.
pub open spec fn lines_from(s: Seq<char>, at: int) -> Seq<Seq<char>>
    decreases s.len() - at,
{
    if 0 <= at < s.len() {
        proof {
            lemma_run_end(s, CharClass::Text, at);
        }
        let end = run_end(s, CharClass::Text, at);
        seq![line_text(s, at, end)] + if end < s.len() {
            lines_from(s, end + 1)
        } else {
            Seq::empty()
        }
    } else {
        Seq::empty()
    }
}

/// The lines of `s`. A line ends with a line feed, or with a carriage
/// return and a line feed, neither of which belongs to it; the last line
/// may go without, and then keeps a carriage return at its end.
pub open spec fn lines(s: Seq<char>) -> Seq<Seq<char>> {
    lines_from(s, 0)
}

/// The options of the clauses, in order.
pub open spec fn clause_tokens(clauses: Seq<Clause>) -> Seq<TokenView> {
    clauses.map_values(|clause: Clause| clause.token)
}

/// The directives for one line of help text: none for a line that declares
/// no option, and `None` for one that breaks a convention, by a clause
/// without a cardinality or by a second short option.
pub open spec fn line_directives(
    main: Seq<char>,
    sub_command: Option<Seq<char>>,
    l: Seq<char>,
) -> Option<Seq<Seq<char>>> {
    match line(l) {
        None => Some(Seq::empty()),
        Some(clauses) => if all_conventional(clauses) && short_flags(clause_tokens(clauses)).len()
            <= 1 {
            Some(directives(main, sub_command, clause_tokens(clauses), description(l, clauses)))
        } else {
            None
        },
    }
}

/// The directives for the lines `ls`, in the order of the lines, or `None`
/// where one of the lines breaks a convention.
pub open spec fn text_directives(
    main: Seq<char>,
    sub_command: Option<Seq<char>>,
    ls: Seq<Seq<char>>,
) -> Option<Seq<Seq<char>>>
    decreases ls.len(),
{
    if ls.len() == 0 {
        Some(Seq::empty())
    } else {
        match (
            text_directives(main, sub_command, ls.drop_last()),
            line_directives(main, sub_command, ls.last()),
        ) {
            (Some(before), Some(these)) => Some(before + these),
            _ => None,
        }
    }
}

/// Splits `text` into its lines.
pub fn split_lines(text: &str) -> (ls: Vec<String>)
    ensures
        texts(ls@) == lines(text@),
{
    let cs = chars_of(text);
    let mut ls: Vec<String> = Vec::new();
    let mut at: usize = 0;
    assert(texts(ls@) + lines_from(cs@, 0) == lines(text@));
    while at < cs.len()
        invariant
            cs@ == text@,
            at <= cs.len(),
            texts(ls@) + lines_from(cs@, at as int) == lines(text@),
        decreases cs.len() - at,
    {
        let start = at;
        let end = run(&cs, CharClass::Text, start);
        let ghost before = texts(ls@);
        let stop = if start < end && end < cs.len() && cs[end - 1] == '\r' {
            end - 1
        } else {
            end
        };
        ls.push(text_of(&cs, start, stop));
        at = if end < cs.len() {
            end + 1
        } else {
            end
        };
        assert(texts(ls@) == before.push(line_text(cs@, start as int, end as int)));
        assert(before + lines_from(cs@, start as int) == before.push(
            line_text(cs@, start as int, end as int),
        ) + lines_from(cs@, at as int));
    }
    assert(lines_from(cs@, at as int) == Seq::<Seq<char>>::empty());
    ls
}

/// Where the first `k` of the lines break a convention, all of them do.
proof fn lemma_broken_stays_broken(
    main: Seq<char>,
    sub_command: Option<Seq<char>>,
    ls: Seq<Seq<char>>,
    k: int,
)
    requires
        0 <= k <= ls.len(),
        text_directives(main, sub_command, ls.take(k)) is None,
    ensures
        text_directives(main, sub_command, ls) is None,
    decreases ls.len() - k,
{
    if k < ls.len() {
        assert(ls.take(k + 1).drop_last() == ls.take(k));
        lemma_broken_stays_broken(main, sub_command, ls, k + 1);
    } else {
        assert(ls.take(k) == ls);
    }
}

/// The directives for the options that the line `l` declares: none where
/// it declares no option, and `None` where it breaks a convention.
pub fn line_completions(main_command: &str, sub_command: Option<&str>, l: &str) -> (r: Option<
    Vec<String>,
>)
    ensures
        match line_directives(main_command@, verb_view(sub_command), l@) {
            Some(expected) => r matches Some(found) && texts(found@) == expected,
            None => r is None,
        },
{
    match checked_parse_line(l) {
        None => None,
        Some(Err(_)) => {
            let none: Vec<String> = Vec::new();
            assert(texts(none@) == Seq::<Seq<char>>::empty());
            Some(none)
        },
        Some(Ok((rest, found))) => {
            assert(tokens(found@) == clause_tokens(line(l@)->0));
            checked_generate_each_option(main_command, sub_command, found, rest)
        },
    }
}

/// The directives for the options that the lines of `text` declare, in the
/// order of the lines, or `None` where a line breaks a convention.
pub fn text_completions(main_command: &str, sub_command: Option<&str>, text: &str) -> (r: Option<
    Vec<String>,
>)
    ensures
        match text_directives(main_command@, verb_view(sub_command), lines(text@)) {
            Some(expected) => r matches Some(found) && texts(found@) == expected,
            None => r is None,
        },
{
    let ls = split_lines(text);
    let ghost all = texts(ls@);
    let mut found: Vec<String> = Vec::new();
    let mut i: usize = 0;
    assert(all.take(0) == Seq::<Seq<char>>::empty());
    assert(texts(found@) == Seq::<Seq<char>>::empty());
    while i < ls.len()
        invariant
            i <= ls.len(),
            all == texts(ls@),
            all == lines(text@),
            text_directives(main_command@, verb_view(sub_command), all.take(i as int)) == Some(
                texts(found@),
            ),
        decreases ls.len() - i,
    {
        assert(all.take(i + 1).drop_last() == all.take(i as int));
        assert(all.take(i + 1).last() == ls@[i as int]@);
        let ghost before = texts(found@);
        match line_completions(main_command, sub_command, ls[i].as_str()) {
            Some(mut these) => {
                let ghost added = texts(these@);
                found.append(&mut these);
                assert(texts(found@) == before + added);
            },
            None => {
                proof {
                    lemma_broken_stays_broken(
                        main_command@,
                        verb_view(sub_command),
                        all,
                        i + 1,
                    );
                }
                return None;
            },
        }
        i += 1;
    }
    assert(all.take(i as int) == all);
    Some(found)
}

/// The help text `help` with each wrapped line made one again: every line
/// feed with eight or more spaces behind it becomes one space. The `regex`
/// crate does it; `None` says that it did not accept the pattern.
pub fn join_wrapped_lines(help: &str) -> (joined: Option<String>)
    ensures
        joined is Some <==> accepted(wrap_pattern()),
        joined matches Some(text) ==> text@ == unwrapped(help@),
{
    replace_all("\\n {8,}", help, " ")
}

/// What is written for the command `main_command`, or for its subcommand
/// `sub_command`, with the help text `help`: for a subcommand the heading
/// that introduces it, then the directives for the options that the help
/// text declares. A line that was wrapped is first made one again, by the
/// `regex` crate; then every line is read by itself. The error says
/// whether the `regex` crate did not accept the pattern or a line of the
/// text breaks a convention.
pub fn generate_each_subcommand(main_command: &str, sub_command: Option<&str>, help: &str) -> (r:
    Result<Vec<String>, HelpError>)
    ensures
        match (
            accepted(wrap_pattern()),
            text_directives(main_command@, verb_view(sub_command), lines(unwrapped(help@))),
        ) {
            (true, Some(expected)) => r matches Ok(found) && texts(found@) == heading(
                main_command@,
                verb_view(sub_command),
            ) + expected,
            (true, None) => r matches Err(HelpError::Convention),
            (false, _) => r matches Err(HelpError::Pattern),
        },
{
    match join_wrapped_lines(help) {
        Some(joined) => match text_completions(main_command, sub_command, joined.as_str()) {
            Some(mut found) => {
                let mut written = subcommand_heading(main_command, sub_command);
                let ghost before = texts(written@);
                let ghost expected = texts(found@);
                written.append(&mut found);
                assert(texts(written@) == before + expected);
                Ok(written)
            },
            None => Err(HelpError::Convention),
        },
        None => Err(HelpError::Pattern),
    }
}

} // verus!
