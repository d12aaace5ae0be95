//! The completion directives that a parsed line gives rise to: one
//! `complete` command of the fish shell for each long and each old-style
//! alias of the option.

use crate::enum_::{OptionToken, TokenView};
use crate::parser::Declaration;
use vstd::prelude::*;
use vstd::string::*;

verus! {

/// The texts of `lines`, each as a sequence of characters.
pub open spec fn texts(lines: Seq<String>) -> Seq<Seq<char>> {
    lines.map_values(|line: String| line@)
}

/// The options that `found` declares, in order.
pub open spec fn tokens(found: Seq<Declaration>) -> Seq<TokenView> {
    found.map_values(|declaration: Declaration| declaration.0@)
}

/// The text of `sub_command`, where there is one.
pub open spec fn verb_view(sub_command: Option<&str>) -> Option<Seq<char>> {
    match sub_command {
        Some(verb) => Some(verb@),
        None => None,
    }
}

/// The letters of the short options among `tokens`, in order.
pub open spec fn short_flags(tokens: Seq<TokenView>) -> Seq<char>
    decreases tokens.len(),
{
    if tokens.len() == 0 {
        Seq::empty()
    } else {
        let before = short_flags(tokens.drop_last());
        match tokens.last() {
            TokenView::Short(c) => before.push(c),
            _ => before,
        }
    }
}

/// The identifiers of the long options among `tokens`, or of the old-style
/// ones where `long` is false, in order.
pub open spec fn names(tokens: Seq<TokenView>, long: bool) -> Seq<Seq<char>>
    decreases tokens.len(),
{
    if tokens.len() == 0 {
        Seq::empty()
    } else {
        let before = names(tokens.drop_last(), long);
        match tokens.last() {
            TokenView::Long(name) if long => before.push(name),
            TokenView::Old(name) if !long => before.push(name),
            _ => before,
        }
    }
}

/// The condition under which the shell offers the option: after the
/// subcommand `sub_command`, or, without one, before any subcommand.
pub open spec fn scope(sub_command: Option<Seq<char>>) -> Seq<char> {
    match sub_command {
        Some(verb) => "-n '__fish_seen_subcommand_from "@ + verb + "'"@,
        None => "-n __fish_use_subcommand"@,
    }
}

/// The part of a directive that names the short form: that of the first of
/// `shorts`, or nothing where there is none.
pub open spec fn short_part(shorts: Seq<char>) -> Seq<char> {
    if shorts.len() == 0 {
        Seq::empty()
    } else {
        "-s "@.push(shorts[0])
    }
}

/// What stands before the identifier of a long option, or of an old-style
/// one where `long` is false.
pub open spec fn switch(long: bool) -> Seq<char> {
    if long {
        " -l "@
    } else {
        " -o "@
    }
}

/// One directive: the option `name` of the command `main`.
pub open spec fn directive(
    main: Seq<char>,
    scope: Seq<char>,
    short: Seq<char>,
    switch: Seq<char>,
    name: Seq<char>,
    description: Seq<char>,
) -> Seq<char> {
    "complete -c "@ + main + " "@ + scope + " "@ + short + switch + name + " -d \""@ + description
        + "\""@
}

/// One directive for each of `names`.
pub open spec fn directives_for(
    main: Seq<char>,
    scope: Seq<char>,
    short: Seq<char>,
    switch: Seq<char>,
    names: Seq<Seq<char>>,
    description: Seq<char>,
) -> Seq<Seq<char>> {
    Seq::new(names.len(), |i: int| directive(main, scope, short, switch, names[i], description))
}

/// The directives for the options `tokens` of one line: first those for the
/// long options, then those for the old-style ones, each with the short
/// option of the line, if it has one, and with the line's description.
pub open spec fn directives(
    main: Seq<char>,
    sub_command: Option<Seq<char>>,
    tokens: Seq<TokenView>,
    description: Seq<char>,
) -> Seq<Seq<char>> {
    let short = short_part(short_flags(tokens));
    directives_for(main, scope(sub_command), short, switch(true), names(tokens, true), description)
        + directives_for(
        main,
        scope(sub_command),
        short,
        switch(false),
        names(tokens, false),
        description,
    )
}

fn scope_text(sub_command: Option<&str>) -> (text: String)
    ensures
        text@ == scope(verb_view(sub_command)),
{
    match sub_command {
        Some(verb) => {
            let mut text = String::from_str("-n '__fish_seen_subcommand_from ");
            text.append(verb);
            text.append("'");
            text
        },
        None => String::from_str("-n __fish_use_subcommand"),
    }
}

fn directive_text(
    main: &str,
    scope: &str,
    short: &str,
    long: bool,
    name: &str,
    description: &str,
) -> (text: String)
    ensures
        text@ == directive(main@, scope@, short@, switch(long), name@, description@),
{
    let mut text = String::from_str("complete -c ");
    text.append(main);
    text.append(" ");
    text.append(scope);
    text.append(" ");
    text.append(short);
    text.append(
        if long {
            " -l "
        } else {
            " -o "
        },
    );
    text.append(name);
    text.append(" -d \"");
    text.append(description);
    text.append("\"");
    text
}

/// The short option among `found`, and how many there are.
fn find_short(found: &Vec<Declaration>) -> (r: (Option<char>, usize))
    ensures
        r.1 == short_flags(tokens(found@)).len(),
        r.1 > 0 ==> r.0 == Some(short_flags(tokens(found@))[0]),
        r.1 == 0 ==> r.0 is None,
{
    let ghost all = tokens(found@);
    let mut short: Option<char> = None;
    let mut count: usize = 0;
    let mut i: usize = 0;
    while i < found.len()
        invariant
            i <= found.len(),
            all == tokens(found@),
            count <= i,
            count == short_flags(all.take(i as int)).len(),
            count > 0 ==> short == Some(short_flags(all.take(i as int))[0]),
            count == 0 ==> short is None,
        decreases found.len() - i,
    {
        assert(all.take(i + 1).drop_last() == all.take(i as int));
        assert(all.take(i + 1).last() == found@[i as int].0@);
        let declaration = &found[i];
        match &declaration.0 {
            OptionToken::ShortOption(c) => {
                if count == 0 {
                    short = Some(*c);
                }
                count += 1;
            },
            _ => {},
        }
        i += 1;
    }
    assert(all.take(i as int) == all);
    (short, count)
}

/// Appends to `out` the directives for the long options among `found`, or
/// for the old-style ones where `long` is false.
fn push_directives(
    out: &mut Vec<String>,
    main: &str,
    scope: &str,
    short: &str,
    long: bool,
    found: &Vec<Declaration>,
    description: &str,
)
    ensures
        texts(final(out)@) == texts(old(out)@) + directives_for(
            main@,
            scope@,
            short@,
            switch(long),
            names(tokens(found@), long),
            description@,
        ),
{
    let ghost all = tokens(found@);
    let ghost before = texts(out@);
    let mut i: usize = 0;
    assert(texts(out@) == before + directives_for(
        main@,
        scope@,
        short@,
        switch(long),
        names(all.take(0), long),
        description@,
    ));
    while i < found.len()
        invariant
            i <= found.len(),
            all == tokens(found@),
            texts(out@) == before + directives_for(
                main@,
                scope@,
                short@,
                switch(long),
                names(all.take(i as int), long),
                description@,
            ),
        decreases found.len() - i,
    {
        assert(all.take(i + 1).drop_last() == all.take(i as int));
        assert(all.take(i + 1).last() == found@[i as int].0@);
        let ghost so_far = names(all.take(i as int), long);
        let ghost lines = texts(out@);
        let declaration = &found[i];
        let name = match &declaration.0 {
            OptionToken::LongOption(name) if long => Some(name),
            OptionToken::OldOption(name) if !long => Some(name),
            _ => None,
        };
        if let Some(name) = name {
            let text = directive_text(main, scope, short, long, name.as_str(), description);
            out.push(text);
            assert(names(all.take(i + 1), long) == so_far.push(name@));
            assert(texts(out@) == lines.push(text@));
            assert(texts(out@) == before + directives_for(
                main@,
                scope@,
                short@,
                switch(long),
                so_far.push(name@),
                description@,
            ));
        }
        i += 1;
    }
    assert(all.take(i as int) == all);
}

/// The directives for the options `result` of one line, or `None` where
/// the line has more than one short option.
pub fn checked_generate_each_option(
    main_command: &str,
    sub_command: Option<&str>,
    result: Vec<Declaration>,
    description: &str,
) -> (lines: Option<Vec<String>>)
    ensures
        if short_flags(tokens(result@)).len() <= 1 {
            lines matches Some(lines) && texts(lines@) == directives(
                main_command@,
                verb_view(sub_command),
                tokens(result@),
                description@,
            )
        } else {
            lines is None
        },
{
    let (short, count) = find_short(&result);
    if count > 1 {
        return None;
    }
    let scope = scope_text(sub_command);
    let short = match short {
        Some(c) => {
            let mut text = String::from_str("-s ");
            text.push(c);
            text
        },
        None => String::new(),
    };
    let mut lines: Vec<String> = Vec::new();
    assert(texts(lines@) == Seq::<Seq<char>>::empty());
    push_directives(
        &mut lines,
        main_command,
        scope.as_str(),
        short.as_str(),
        true,
        &result,
        description,
    );
    push_directives(
        &mut lines,
        main_command,
        scope.as_str(),
        short.as_str(),
        false,
        &result,
        description,
    );
    Some(lines)
}

/// The directives for the options `result` of one line, all aliases of one
/// option, with the line's `description`: first one for each long option,
/// then one for each old-style option. Each names the command
/// `main_command`, the subcommand `sub_command` that the option belongs
/// to, if any, and the short option of the line, if it has one.
///
/// A line with more than one short option is left to the caller to rule
/// out.
pub fn generate_each_option(
    main_command: &str,
    sub_command: Option<&str>,
    result: Vec<Declaration>,
    description: &str,
) -> (lines: Vec<String>)
    requires
        short_flags(tokens(result@)).len() <= 1,
    ensures
        texts(lines@) == directives(
            main_command@,
            verb_view(sub_command),
            tokens(result@),
            description@,
        ),
{
    checked_generate_each_option(main_command, sub_command, result, description).unwrap()
}

/// What introduces the directives of the subcommand `verb` of the command
/// `main`: an empty line, a comment that names the subcommand, and the
/// directive that offers the subcommand itself. Nothing introduces the
/// options of the command itself.
pub open spec fn heading(main: Seq<char>, sub_command: Option<Seq<char>>) -> Seq<Seq<char>> {
    match sub_command {
        Some(verb) => seq![
            Seq::empty(),
            "# "@ + verb,
            "complete -c "@ + main + " -n __fish_use_subcommand -a "@ + verb,
        ],
        None => Seq::empty(),
    }
}

/// The arguments with which the command prints its help text, or that of
/// its subcommand `sub_command`.
pub open spec fn help_request(sub_command: Option<Seq<char>>) -> Seq<Seq<char>> {
    match sub_command {
        Some(verb) => seq![verb, "--help"@],
        None => seq!["--help"@],
    }
}

/// The lines that introduce the directives of `sub_command`.
pub fn subcommand_heading(main_command: &str, sub_command: Option<&str>) -> (lines: Vec<String>)
    ensures
        texts(lines@) == heading(main_command@, verb_view(sub_command)),
{
    let mut lines: Vec<String> = Vec::new();
    if let Some(verb) = sub_command {
        let mut comment = String::from_str("# ");
        comment.append(verb);
        let mut offer = String::from_str("complete -c ");
        offer.append(main_command);
        offer.append(" -n __fish_use_subcommand -a ");
        offer.append(verb);
        lines.push(String::new());
        lines.push(comment);
        lines.push(offer);
    }
    assert(texts(lines@) == heading(main_command@, verb_view(sub_command)));
    lines
}

/// The arguments to run the command with for its help text, or for that of
/// `sub_command`.
pub fn help_arguments<'a>(sub_command: Option<&'a str>) -> (arguments: Vec<&'a str>)
    ensures
        arguments@.map_values(|argument: &str| argument@) == help_request(verb_view(sub_command)),
{
    let mut arguments: Vec<&'a str> = Vec::new();
    if let Some(verb) = sub_command {
        arguments.push(verb);
    }
    arguments.push("--help");
    assert(arguments@.map_values(|argument: &str| argument@) == help_request(
        verb_view(sub_command),
    ));
    arguments
}

} // verus!
