//! Parsers for a line of help text and for the parts of an option clause.
//! Each reads from the start of its input and hands back what it did not
//! read.

use crate::enum_::{cardinality, ArgsNumType, OptionToken};
use crate::grammar::{
    clause_at, description, line, long_at, more_clauses, old_at, optional_at, required_at,
    short_at, Clause,
};
use crate::scan::{
    chars_of, read_clause, read_long, read_old, read_optional, read_required, read_short,
    ParsedClause,
};
use vstd::prelude::*;
use vstd::string::*;

verus! {

/// The input does not begin with what the parser reads.
#[derive(Clone, Copy, Debug, PartialEq, Eq)]
pub struct NoMatch;

/// An option with the number of arguments it takes.
pub type Declaration = (OptionToken, ArgsNumType);

/// Whether `found` holds, clause for clause, the flag of `clauses` and the
/// cardinality that follows from its placeholders.
pub open spec fn declares(found: Seq<Declaration>, clauses: Seq<Clause>) -> bool {
    &&& found.len() == clauses.len()
    &&& forall|i: int|
        0 <= i < found.len() ==> {
            &&& (#[trigger] found[i]).0@ == clauses[i].token
            &&& cardinality(clauses[i].required, clauses[i].optional) == Some(found[i].1)
        }
}

/// Whether every clause of `clauses` says how many arguments its option
/// takes.
pub open spec fn all_conventional(clauses: Seq<Clause>) -> bool {
    forall|i: int| 0 <= i < clauses.len() ==> (#[trigger] clauses[i]).conventional()
}

/// What of `s` stands from the position `end` on.
fn rest_of<'a>(s: &'a str, cs: &Vec<char>, end: usize) -> (rest: &'a str)
    requires
        cs@ == s@,
        end <= cs.len(),
    ensures
        rest@ == s@.skip(end as int),
{
    s.substring_char(end, cs.len())
}

/// Reads a long option, such as `--help`, from the start of `s`.
pub fn long_option(s: &str) -> (r: Result<(&str, OptionToken), NoMatch>)
    ensures
        match long_at(s@, 0) {
            Some((token, end)) => r matches Ok((rest, found)) && found@ == token && rest@
                == s@.skip(end),
            None => r is Err,
        },
{
    let cs = chars_of(s);
    match read_long(&cs, 0) {
        Some((token, end)) => Ok((rest_of(s, &cs, end), token)),
        None => Err(NoMatch),
    }
}

/// Reads an old-style option, such as `-help`, from the start of `s`.
pub fn old_option(s: &str) -> (r: Result<(&str, OptionToken), NoMatch>)
    ensures
        match old_at(s@, 0) {
            Some((token, end)) => r matches Ok((rest, found)) && found@ == token && rest@
                == s@.skip(end),
            None => r is Err,
        },
{
    let cs = chars_of(s);
    match read_old(&cs, 0) {
        Some((token, end)) => Ok((rest_of(s, &cs, end), token)),
        None => Err(NoMatch),
    }
}

/// Reads a short option, such as `-h`, from the start of `s`.
pub fn short_option(s: &str) -> (r: Result<(&str, OptionToken), NoMatch>)
    ensures
        match short_at(s@, 0) {
            Some((token, end)) => r matches Ok((rest, found)) && found@ == token && rest@
                == s@.skip(end),
            None => r is Err,
        },
{
    let cs = chars_of(s);
    match read_short(&cs, 0) {
        Some((token, end)) => Ok((rest_of(s, &cs, end), token)),
        None => Err(NoMatch),
    }
}

/// Reads a required placeholder, such as `ARG`, from the start of `s`.
pub fn required_arg(s: &str) -> (r: Result<(&str, ()), NoMatch>)
    ensures
        match required_at(s@, 0) {
            Some(end) => r matches Ok((rest, _)) && rest@ == s@.skip(end),
            None => r is Err,
        },
{
    let cs = chars_of(s);
    match read_required(&cs, 0) {
        Some(end) => Ok((rest_of(s, &cs, end), ())),
        None => Err(NoMatch),
    }
}

/// Reads a bracketed placeholder, such as `[ARG ...]`, from the start of
/// `s`, and says whether it is repeatable.
pub fn optional_args(s: &str) -> (r: Result<(&str, bool), NoMatch>)
    ensures
        match optional_at(s@, 0) {
            Some((repeatable, end)) => r matches Ok((rest, found)) && found == repeatable
                && rest@ == s@.skip(end),
            None => r is Err,
        },
{
    let cs = chars_of(s);
    match read_optional(&cs, 0) {
        Some((repeatable, end)) => Ok((rest_of(s, &cs, end), repeatable)),
        None => Err(NoMatch),
    }
}

/// The declaration that a clause makes, or `None` where its placeholders
/// have no cardinality.
fn declare(clause: ParsedClause) -> (r: Option<Declaration>)
    ensures
        match cardinality(clause.required, clause.optional) {
            Some(kind) => r matches Some(found) && found.0@ == clause@.token && found.1 == kind,
            None => r is None,
        },
{
    let required_arg = if clause.required {
        Some(())
    } else {
        None
    };
    match ArgsNumType::checked_from_parse(required_arg, clause.optional) {
        Some(kind) => Some((clause.token, kind)),
        None => None,
    }
}

/// Reads one option clause from the start of `s`, or gives `None` where the
/// clause there breaks the convention that `option_block` relies on.
pub fn checked_option_block(s: &str) -> (r: Option<Result<(&str, Declaration), NoMatch>>)
    ensures
        match clause_at(s@, 0) {
            Some(clause) => match cardinality(clause.required, clause.optional) {
                Some(kind) => r matches Some(Ok((rest, found))) && found.0@ == clause.token
                    && found.1 == kind && rest@ == s@.skip(clause.end),
                None => r is None,
            },
            None => r matches Some(Err(_)),
        },
{
    let cs = chars_of(s);
    match read_clause(&cs, 0) {
        Some(clause) => {
            let end = clause.end;
            match declare(clause) {
                Some(found) => Some(Ok((rest_of(s, &cs, end), found))),
                None => None,
            }
        },
        None => Some(Err(NoMatch)),
    }
}

/// Reads one option clause from the start of `s`: the option, how many
/// arguments it takes, and what follows the clause.
///
/// A clause with a required placeholder and a bracketed one that is not
/// repeatable is left to the caller to rule out.
pub fn option_block(s: &str) -> (r: Result<(&str, Declaration), NoMatch>)
    requires
        clause_at(s@, 0) matches Some(clause) ==> clause.conventional(),
    ensures
        match clause_at(s@, 0) {
            Some(clause) => r matches Ok((rest, found)) && found.0@ == clause.token
                && cardinality(clause.required, clause.optional) == Some(found.1) && rest@
                == s@.skip(clause.end),
            None => r is Err,
        },
{
    checked_option_block(s).unwrap()
}

/// Reads the option clauses that `s` begins with, or gives `None` where one
/// of them breaks the convention that `parse_line` relies on.
pub fn checked_parse_line(s: &str) -> (r: Option<Result<(&str, Vec<Declaration>), NoMatch>>)
    ensures
        match line(s@) {
            Some(clauses) => if all_conventional(clauses) {
                r matches Some(Ok((rest, found))) && declares(found@, clauses) && rest@
                    == description(s@, clauses)
            } else {
                r is None
            },
            None => r matches Some(Err(_)),
        },
{
    let cs = chars_of(s);
    let first = match read_clause(&cs, 0) {
        Some(clause) => clause,
        None => {
            return Some(Err(NoMatch));
        },
    };
    let ghost clauses = line(s@)->0;
    let ghost mut read = seq![first@];
    let mut at = first.end;
    let mut found: Vec<Declaration> = Vec::new();
    match declare(first) {
        Some(declaration) => found.push(declaration),
        None => {
            assert(!clauses[0].conventional());
            return None;
        },
    }
    loop
        invariant
            cs@ == s@,
            line(s@) == Some(clauses),
            clauses == read + more_clauses(cs@, at as int),
            read.len() > 0,
            read.last().end == at,
            at <= cs.len(),
            declares(found@, read),
        decreases cs.len() - at,
    {
        let next = if at < cs.len() && cs[at] == ',' {
            read_clause(&cs, at + 1)
        } else {
            None
        };
        match next {
            Some(clause) => {
                let ghost more = more_clauses(cs@, clause.end as int);
                assert(clauses == read.push(clause@) + more);
                assert(clauses[read.len() as int] == clause@);
                proof {
                    read = read.push(clause@);
                }
                at = clause.end;
                match declare(clause) {
                    Some(declaration) => found.push(declaration),
                    None => {
                        return None;
                    },
                }
            },
            None => {
                assert(clauses == read);
                assert forall|i: int| 0 <= i < clauses.len() implies (
                #[trigger] clauses[i]).conventional() by {
                    assert(found@[i].0@ == clauses[i].token);
                }
                return Some(Ok((rest_of(s, &cs, at), found)));
            },
        }
    }
}

/// Reads the option clauses that the line `s` begins with, one for each
/// alias of the option and a comma between them: the options in the order
/// in which they stand, each with the number of arguments it takes, and
/// the description that follows them.
///
/// A clause with a required placeholder and a bracketed one that is not
/// repeatable is left to the caller to rule out.
pub fn parse_line(s: &str) -> (r: Result<(&str, Vec<Declaration>), NoMatch>)
    requires
        line(s@) matches Some(clauses) ==> all_conventional(clauses),
    ensures
        match line(s@) {
            Some(clauses) => r matches Ok((rest, found)) && declares(found@, clauses) && rest@
                == description(s@, clauses),
            None => r is Err,
        },
{
    checked_parse_line(s).unwrap()
}

} // verus!
