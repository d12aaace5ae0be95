use help_options::text::{
    generate_each_subcommand, line_completions, split_lines, text_completions, HelpError,
};

fn std_lines(text: &str) -> Vec<String> {
    text.lines().map(|line| line.to_string()).collect()
}

#[test]
fn lines_end_at_line_feeds() {
    assert_eq!(split_lines("one\ntwo\n\nfour"), vec!["one", "two", "", "four"]);
    assert_eq!(split_lines("one\n"), vec!["one"]);
    assert_eq!(split_lines("\n"), vec![""]);
    assert_eq!(split_lines("\n\n"), vec!["", ""]);
    assert_eq!(split_lines(""), Vec::<String>::new());
    assert_eq!(split_lines("no end"), vec!["no end"]);
}

#[test]
fn carriage_return_before_a_line_feed_belongs_to_the_ending() {
    assert_eq!(split_lines("one\r\ntwo\r\n"), vec!["one", "two"]);
    assert_eq!(split_lines("one\r\r\ntwo"), vec!["one\r", "two"]);
    assert_eq!(split_lines("one\rtwo\n"), vec!["one\rtwo"]);
    assert_eq!(split_lines("\r\n"), vec![""]);
    assert_eq!(split_lines("last\r"), vec!["last\r"]);
    assert_eq!(split_lines("\r"), vec!["\r"]);
}

#[test]
fn lines_are_those_of_std() {
    for text in [
        "",
        "\n",
        "\r",
        "\r\n",
        "\n\r",
        "a",
        "a\n",
        "a\r\n",
        "a\nb",
        "a\r\nb\r",
        "a\n\nb\n\n",
        "a\r\r\nb\n\r\nc",
        "größe\r\n— ende\n",
        "  --input ARG\n        wrapped\n  -h  help\n",
    ] {
        assert_eq!(split_lines(text), std_lines(text));
    }
}

#[test]
fn line_that_declares_nothing_gives_nothing() {
    assert_eq!(line_completions("catkin", None, "usage: catkin"), Some(vec![]));
    assert_eq!(line_completions("catkin", None, ""), Some(vec![]));
    assert_eq!(line_completions("catkin", None, "  -h  short only"), Some(vec![]));
}

#[test]
fn line_with_aliases_gives_one_directive_for_each_name() {
    assert_eq!(
        line_completions("catkin", Some("build"), "  --jobs JOBS, -j JOBS, -jobs JOBS   How many."),
        Some(vec![
            "complete -c catkin -n '__fish_seen_subcommand_from build' -s j -l jobs -d \"How many.\""
                .to_string(),
            "complete -c catkin -n '__fish_seen_subcommand_from build' -s j -o jobs -d \"How many.\""
                .to_string(),
        ])
    );
}

#[test]
fn line_that_breaks_a_convention_is_refused() {
    assert_eq!(line_completions("catkin", None, "  --jobs JOBS [MORE]  text"), None);
    assert_eq!(line_completions("catkin", None, "  -j, -k, --jobs  text"), None);
}

#[test]
fn text_gives_the_directives_of_its_lines_in_order() {
    let text = "usage: tool [-h]\n\noptions:\n  -h, --help  show help\r\n  --dry-run   do nothing\n  -version    say which\n";
    assert_eq!(
        text_completions("tool", None, text),
        Some(vec![
            "complete -c tool -n __fish_use_subcommand -s h -l help -d \"show help\"".to_string(),
            "complete -c tool -n __fish_use_subcommand  -l dry-run -d \"do nothing\"".to_string(),
            "complete -c tool -n __fish_use_subcommand  -o version -d \"say which\"".to_string(),
        ])
    );
    assert_eq!(text_completions("tool", None, ""), Some(vec![]));
}

#[test]
fn text_with_one_line_that_breaks_a_convention_is_refused() {
    assert_eq!(text_completions("tool", None, "  --ok\n  --bad ARG [ARG]\n  --fine\n"), None);
    assert_eq!(text_completions("tool", None, "  -a, -b\n"), None);
}

#[test]
fn wrapped_description_is_made_one_line() {
    let help = "  --workspace WORKSPACE, -w WORKSPACE\n                        The path to the workspace\n                        (default: \".\")\n  --profile PROFILE     The name of a profile\n";
    assert_eq!(
        generate_each_subcommand("catkin", Some("build"), help),
        Ok(vec![
            "".to_string(),
            "# build".to_string(),
            "complete -c catkin -n __fish_use_subcommand -a build".to_string(),
            "complete -c catkin -n '__fish_seen_subcommand_from build' -s w -l workspace -d \"The path to the workspace (default: \".\")\"".to_string(),
            "complete -c catkin -n '__fish_seen_subcommand_from build'  -l profile -d \"The name of a profile\"".to_string(),
        ])
    );
}

#[test]
fn subcommand_without_options_has_its_heading_alone() {
    assert_eq!(
        generate_each_subcommand("catkin", Some("env"), "usage: catkin env\n\nRuns a command.\n"),
        Ok(vec![
            "".to_string(),
            "# env".to_string(),
            "complete -c catkin -n __fish_use_subcommand -a env".to_string(),
        ])
    );
    assert_eq!(generate_each_subcommand("catkin", None, "usage: catkin\n"), Ok(vec![]));
    assert_eq!(
        generate_each_subcommand("catkin", Some("env"), "  -a, -b\n"),
        Err(HelpError::Convention)
    );
}

#[test]
fn line_indented_by_less_than_eight_spaces_stays_a_line() {
    let help = "  --first\n       --second  seven spaces\n        --third  eight spaces\n";
    assert_eq!(
        generate_each_subcommand("tool", None, help),
        Ok(vec![
            "complete -c tool -n __fish_use_subcommand  -l first -d \"\"".to_string(),
            "complete -c tool -n __fish_use_subcommand  -l second -d \"seven spaces --third  eight spaces\"".to_string(),
        ])
    );
}

#[test]
fn wrapped_clause_may_break_a_convention() {
    assert_eq!(
        generate_each_subcommand("tool", None, "  --pkg PKG\n          [PKG]\n"),
        Err(HelpError::Convention)
    );
    assert_eq!(
        generate_each_subcommand("tool", None, "  --pkg PKG\n     [PKG]\n"),
        Ok(vec!["complete -c tool -n __fish_use_subcommand  -l pkg -d \"\"".to_string()])
    );
}
