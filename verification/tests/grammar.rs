use help_options::enum_::{ArgsNumType, OptionToken};
use help_options::parser::{
    checked_option_block, checked_parse_line, long_option, old_option, option_block,
    optional_args, parse_line, required_arg, short_option, NoMatch,
};
use help_options::scan::{alpha, lower, upper};

fn long_name(name: &str) -> OptionToken {
    OptionToken::LongOption(name.to_string())
}

fn old_style(name: &str) -> OptionToken {
    OptionToken::OldOption(name.to_string())
}

fn short_letter(c: char) -> OptionToken {
    OptionToken::ShortOption(c)
}

#[test]
fn letters_are_ascii_only() {
    assert!(lower('a') && lower('z') && !lower('A') && !lower('{') && !lower('`'));
    assert!(upper('A') && upper('Z') && !upper('a') && !upper('[') && !upper('@'));
    assert!(alpha('q') && alpha('Q') && !alpha('-') && !alpha('1') && !alpha('é'));
}

#[test]
fn cardinality_table() {
    assert_eq!(ArgsNumType::from_parse(Some(()), None), ArgsNumType::One);
    assert_eq!(ArgsNumType::from_parse(Some(()), Some(true)), ArgsNumType::OneOrMore);
    assert_eq!(ArgsNumType::from_parse(None, None), ArgsNumType::Zero);
    assert_eq!(ArgsNumType::from_parse(None, Some(false)), ArgsNumType::ZeroOrOne);
    assert_eq!(ArgsNumType::from_parse(None, Some(true)), ArgsNumType::Any);
}

#[test]
fn checked_cardinality_table() {
    assert_eq!(ArgsNumType::checked_from_parse(Some(()), None), Some(ArgsNumType::One));
    assert_eq!(ArgsNumType::checked_from_parse(Some(()), Some(true)), Some(ArgsNumType::OneOrMore));
    assert_eq!(ArgsNumType::checked_from_parse(Some(()), Some(false)), None);
    assert_eq!(ArgsNumType::checked_from_parse(None, None), Some(ArgsNumType::Zero));
    assert_eq!(ArgsNumType::checked_from_parse(None, Some(false)), Some(ArgsNumType::ZeroOrOne));
    assert_eq!(ArgsNumType::checked_from_parse(None, Some(true)), Some(ArgsNumType::Any));
}

#[test]
fn long_option_takes_the_whole_identifier() {
    assert_eq!(long_option("--no-deps"), Ok(("", long_name("no-deps"))));
    assert_eq!(long_option("--ab"), Ok(("", long_name("ab"))));
    assert_eq!(long_option("--a-"), Ok(("", long_name("a-"))));
    assert_eq!(long_option("--dry-run, -n"), Ok((", -n", long_name("dry-run"))));
    assert_eq!(long_option("--Xy=3"), Ok(("=3", long_name("Xy"))));
    assert_eq!(long_option("--jobs4"), Ok(("4", long_name("jobs"))));
}

#[test]
fn long_option_needs_two_dashes_a_letter_and_more() {
    assert_eq!(long_option(""), Err(NoMatch));
    assert_eq!(long_option("--"), Err(NoMatch));
    assert_eq!(long_option("--a"), Err(NoMatch));
    assert_eq!(long_option("--a b"), Err(NoMatch));
    assert_eq!(long_option("---ab"), Err(NoMatch));
    assert_eq!(long_option("--1ab"), Err(NoMatch));
    assert_eq!(long_option(" --ab"), Err(NoMatch));
    assert_eq!(long_option("--éa"), Err(NoMatch));
}

#[test]
fn old_option_needs_one_dash_a_letter_and_more() {
    assert_eq!(old_option("-ab"), Ok(("", old_style("ab"))));
    assert_eq!(old_option("-a-b-c rest"), Ok((" rest", old_style("a-b-c"))));
    assert_eq!(old_option("-a"), Err(NoMatch));
    assert_eq!(old_option("-a b"), Err(NoMatch));
    assert_eq!(old_option("-"), Err(NoMatch));
    assert_eq!(old_option(""), Err(NoMatch));
    assert_eq!(old_option("-1a"), Err(NoMatch));
}

#[test]
fn short_option_reads_one_letter() {
    assert_eq!(short_option("-h"), Ok(("", short_letter('h'))));
    assert_eq!(short_option("-Z,"), Ok((",", short_letter('Z'))));
    assert_eq!(short_option("-ab"), Ok(("b", short_letter('a'))));
    assert_eq!(short_option("-"), Err(NoMatch));
    assert_eq!(short_option("-1"), Err(NoMatch));
    assert_eq!(short_option(""), Err(NoMatch));
}

#[test]
fn required_arg_is_an_upper_case_run_of_two_or_more() {
    assert_eq!(required_arg("AB"), Ok(("", ())));
    assert_eq!(required_arg("WORKSPACE rest"), Ok((" rest", ())));
    assert_eq!(required_arg("ARGs"), Ok(("s", ())));
    assert_eq!(required_arg("ARG_NAME"), Ok(("_NAME", ())));
    assert_eq!(required_arg("A"), Err(NoMatch));
    assert_eq!(required_arg("A B"), Err(NoMatch));
    assert_eq!(required_arg("Ab"), Err(NoMatch));
    assert_eq!(required_arg(""), Err(NoMatch));
    assert_eq!(required_arg(" AB"), Err(NoMatch));
}

#[test]
fn optional_args_reads_one_bracket_pair() {
    assert_eq!(optional_args("[A]"), Ok(("", false)));
    assert_eq!(optional_args("[...]"), Ok(("", true)));
    assert_eq!(optional_args("[..]"), Ok(("", false)));
    assert_eq!(optional_args("[ARG ....]x"), Ok(("x", true)));
    assert_eq!(optional_args("[ARG ... ]"), Ok(("", false)));
    assert_eq!(optional_args("[PKG …]"), Ok(("", false)));
    assert_eq!(optional_args("[a][b]"), Ok(("[b]", false)));
}

#[test]
fn optional_args_rejects_what_is_not_one_pair() {
    assert_eq!(optional_args("[]"), Err(NoMatch));
    assert_eq!(optional_args("["), Err(NoMatch));
    assert_eq!(optional_args("[ARG"), Err(NoMatch));
    assert_eq!(optional_args("[ARG ..."), Err(NoMatch));
    assert_eq!(optional_args("[[ARG]]"), Err(NoMatch));
    assert_eq!(optional_args("]"), Err(NoMatch));
    assert_eq!(optional_args(""), Err(NoMatch));
    assert_eq!(optional_args(" [ARG]"), Err(NoMatch));
}

#[test]
fn forms_are_tried_long_then_old_then_short() {
    assert_eq!(option_block("--ab"), Ok(("", (long_name("ab"), ArgsNumType::Zero))));
    assert_eq!(option_block("-ab"), Ok(("", (old_style("ab"), ArgsNumType::Zero))));
    assert_eq!(option_block("-a"), Ok(("", (short_letter('a'), ArgsNumType::Zero))));
    assert_eq!(option_block("-a-"), Ok(("", (old_style("a-"), ArgsNumType::Zero))));
    assert_eq!(option_block("-a1"), Ok(("1", (short_letter('a'), ArgsNumType::Zero))));
    assert_eq!(option_block("--a"), Err(NoMatch));
    assert_eq!(option_block("--"), Err(NoMatch));
}

#[test]
fn clause_cardinalities() {
    assert_eq!(option_block("--x-y"), Ok(("", (long_name("x-y"), ArgsNumType::Zero))));
    assert_eq!(option_block("--x-y ARG"), Ok(("", (long_name("x-y"), ArgsNumType::One))));
    assert_eq!(option_block("--x-y [ARG]"), Ok(("", (long_name("x-y"), ArgsNumType::ZeroOrOne))));
    assert_eq!(option_block("--x-y [ARG ...]"), Ok(("", (long_name("x-y"), ArgsNumType::Any))));
    assert_eq!(
        option_block("--x-y ARG [ARG ...]"),
        Ok(("", (long_name("x-y"), ArgsNumType::OneOrMore)))
    );
}

#[test]
fn clause_skips_spaces_and_tabs_between_its_parts() {
    assert_eq!(
        option_block(" \t--jobs \t JOBS\t [MORE ...] \t text"),
        Ok(("text", (long_name("jobs"), ArgsNumType::OneOrMore)))
    );
    assert_eq!(option_block("--jobsJOBS"), Ok(("", (long_name("jobsJOBS"), ArgsNumType::Zero))));
    assert_eq!(option_block("-jJOBS"), Ok(("", (old_style("jJOBS"), ArgsNumType::Zero))));
    assert_eq!(option_block("-j4"), Ok(("4", (short_letter('j'), ArgsNumType::Zero))));
    assert_eq!(option_block("--jobs=JOBS"), Ok(("=JOBS", (long_name("jobs"), ArgsNumType::Zero))));
    assert_eq!(
        option_block("--jobs JOBS[N ...]"),
        Ok(("", (long_name("jobs"), ArgsNumType::OneOrMore)))
    );
}

#[test]
fn lower_case_word_is_description_not_placeholder() {
    assert_eq!(option_block("--input arg"), Ok(("arg", (long_name("input"), ArgsNumType::Zero))));
    assert_eq!(option_block("--input Arg"), Ok(("Arg", (long_name("input"), ArgsNumType::Zero))));
    assert_eq!(option_block("--input A b"), Ok(("A b", (long_name("input"), ArgsNumType::Zero))));
    assert_eq!(
        option_block("--input arg [ARG]"),
        Ok(("arg [ARG]", (long_name("input"), ArgsNumType::Zero)))
    );
}

#[test]
fn line_feed_and_carriage_return_are_not_blanks() {
    assert_eq!(option_block("--input\nARG"), Ok(("\nARG", (long_name("input"), ArgsNumType::Zero))));
    assert_eq!(option_block("--input \r"), Ok(("\r", (long_name("input"), ArgsNumType::Zero))));
    assert_eq!(option_block("\n--input"), Err(NoMatch));
}

#[test]
fn malformed_bracket_fails_the_clause() {
    assert_eq!(option_block("--input [ARG"), Err(NoMatch));
    assert_eq!(option_block("--input [ARG []...]"), Err(NoMatch));
    assert_eq!(option_block("--input ["), Err(NoMatch));
    assert_eq!(option_block("--input ARG ["), Err(NoMatch));
    assert_eq!(option_block("--input [["), Err(NoMatch));
    assert_eq!(option_block("--input [ARG] "), Ok(("", (long_name("input"), ArgsNumType::ZeroOrOne))));
    assert_eq!(option_block("--input [[ARG]]"), Err(NoMatch));
    assert_eq!(parse_line("--input [ARG text"), Err(NoMatch));
    assert_eq!(parse_line("  -i ARG [ARG [..."), Err(NoMatch));
}

#[test]
fn empty_pair_is_left_to_the_description() {
    assert_eq!(option_block("--input []"), Ok(("[]", (long_name("input"), ArgsNumType::Zero))));
    assert_eq!(
        option_block("--input ARG [] text"),
        Ok(("[] text", (long_name("input"), ArgsNumType::One)))
    );
    assert_eq!(option_block("-i[]]"), Ok(("[]]", (short_letter('i'), ArgsNumType::Zero))));
    assert_eq!(
        parse_line("--input [], -i"),
        Ok(("[], -i", vec![(long_name("input"), ArgsNumType::Zero)]))
    );
    assert_eq!(
        checked_parse_line("--input ARG []"),
        Some(Ok(("[]", vec![(long_name("input"), ArgsNumType::One)])))
    );
}

#[test]
fn malformed_bracket_in_a_later_clause_ends_the_list_before_its_comma() {
    assert_eq!(
        parse_line("--input ARG, -i [ARG text"),
        Ok((", -i [ARG text", vec![(long_name("input"), ArgsNumType::One)]))
    );
}

#[test]
fn bracket_behind_a_complete_clause_is_description() {
    assert_eq!(
        parse_line("--input [ARG] [MORE"),
        Ok(("[MORE", vec![(long_name("input"), ArgsNumType::ZeroOrOne)]))
    );
    assert_eq!(
        parse_line("--input text [ARG"),
        Ok(("text [ARG", vec![(long_name("input"), ArgsNumType::Zero)]))
    );
}

#[test]
fn line_with_three_aliases() {
    assert_eq!(
        parse_line("  -j JOBS, --jobs JOBS ,\t-jobs  JOBS   Number of jobs, at most."),
        Ok((
            "Number of jobs, at most.",
            vec![
                (short_letter('j'), ArgsNumType::One),
                (long_name("jobs"), ArgsNumType::One),
                (old_style("jobs"), ArgsNumType::One),
            ]
        ))
    );
}

#[test]
fn line_keeps_the_order_of_its_clauses_and_each_cardinality() {
    assert_eq!(
        parse_line("--all [PKG ...], -a, --any PKG [PKG ...],-x [Y] done"),
        Ok((
            "done",
            vec![
                (long_name("all"), ArgsNumType::Any),
                (short_letter('a'), ArgsNumType::Zero),
                (long_name("any"), ArgsNumType::OneOrMore),
                (short_letter('x'), ArgsNumType::ZeroOrOne),
            ]
        ))
    );
}

#[test]
fn line_stops_at_a_comma_that_no_clause_follows() {
    assert_eq!(
        parse_line("--verbose, more output"),
        Ok((", more output", vec![(long_name("verbose"), ArgsNumType::Zero)]))
    );
    assert_eq!(parse_line("--verbose,"), Ok((",", vec![(long_name("verbose"), ArgsNumType::Zero)])));
    assert_eq!(
        parse_line("--verbose,, -v"),
        Ok((",, -v", vec![(long_name("verbose"), ArgsNumType::Zero)]))
    );
}

#[test]
fn line_without_a_leading_clause_does_not_match() {
    assert_eq!(parse_line(""), Err(NoMatch));
    assert_eq!(parse_line("   "), Err(NoMatch));
    assert_eq!(parse_line("usage: catkin [-h]"), Err(NoMatch));
    assert_eq!(parse_line("optional arguments:"), Err(NoMatch));
    assert_eq!(parse_line(", --input"), Err(NoMatch));
    assert_eq!(parse_line("- -input"), Err(NoMatch));
    assert_eq!(parse_line("[--input]"), Err(NoMatch));
}

#[test]
fn line_that_is_one_flag_has_no_description() {
    assert_eq!(parse_line("--help"), Ok(("", vec![(long_name("help"), ArgsNumType::Zero)])));
    assert_eq!(parse_line("-h"), Ok(("", vec![(short_letter('h'), ArgsNumType::Zero)])));
    assert_eq!(parse_line("-help"), Ok(("", vec![(old_style("help"), ArgsNumType::Zero)])));
}

#[test]
fn description_keeps_what_is_not_ascii() {
    assert_eq!(
        parse_line("  --größe  Größe — in Metern"),
        Ok(("öße  Größe — in Metern", vec![(long_name("gr"), ArgsNumType::Zero)]))
    );
    assert_eq!(
        parse_line("  --size [GRÖSSE] Größe"),
        Ok(("Größe", vec![(long_name("size"), ArgsNumType::ZeroOrOne)]))
    );
}

#[test]
fn prose_description_read_again_does_not_match() {
    for line in [
        "  --input ARG, -i ARG Some description.",
        "--input ARG [ARG ...] description ...",
        "-v   be verbose",
        "--force  do it anyway, -f",
        "--list [PKG]",
    ] {
        let (rest, _) = parse_line(line).unwrap();
        assert!(!rest.starts_with(' ') && !rest.starts_with('\t'));
        assert!(!rest.starts_with('-'));
        assert_eq!(parse_line(rest), Err(NoMatch));
    }
}

#[test]
fn description_that_begins_with_a_clause_matches_again() {
    let (rest, found) = parse_line("--force --yes really").unwrap();
    assert_eq!(found, vec![(long_name("force"), ArgsNumType::Zero)]);
    assert_eq!(rest, "--yes really");
    assert_eq!(parse_line(rest), Ok(("really", vec![(long_name("yes"), ArgsNumType::Zero)])));
}

#[test]
fn unconventional_clause_is_told_apart_from_no_match() {
    assert_eq!(checked_option_block("--input ARG [ARG]"), None);
    assert_eq!(checked_option_block("--input ARG [ARG..]"), None);
    assert_eq!(
        checked_option_block("--input ARG [ARG...]"),
        Some(Ok(("", (long_name("input"), ArgsNumType::OneOrMore))))
    );
    assert_eq!(checked_option_block("input"), Some(Err(NoMatch)));
    assert_eq!(checked_parse_line("--input ARG [ARG] text"), None);
    assert_eq!(checked_parse_line("-i, --input ARG [ARG] text"), None);
    assert_eq!(checked_parse_line("-i ARG [A], --input ARG [ARG ...] text"), None);
    assert_eq!(checked_parse_line("text"), Some(Err(NoMatch)));
    assert_eq!(
        checked_parse_line("-i, --input [ARG] text"),
        Some(Ok(("text", vec![(short_letter('i'), ArgsNumType::Zero), (long_name("input"), ArgsNumType::ZeroOrOne)])))
    );
}

#[test]
fn checked_parsers_agree_with_the_plain_ones() {
    for line in ["--input ARG, -i ARG Some description.", "nothing here", "-x [Y ...], --xx"] {
        assert_eq!(checked_parse_line(line), Some(parse_line(line)));
        assert_eq!(checked_option_block(line), Some(option_block(line)));
    }
}
