use help_options::enum_::{ArgsNumType, OptionToken};
use help_options::parser::{
    long_option, old_option, option_block, optional_args, parse_line, required_arg, short_option,
};

#[test]
fn test_long_option() {
    {
        let result = long_option("--with-arg ARG").unwrap();
        assert_eq!(result.0, " ARG");
        assert_eq!(result.1, OptionToken::LongOption("with-arg".into()));
    }
    assert!(long_option("-a").is_err());
    assert!(long_option("-old-long").is_err());
    assert!(long_option("abc").is_err());
}

#[test]
fn test_old_option() {
    {
        let result = old_option("-with-arg ARG").unwrap();
        assert_eq!(result.0, " ARG");
        assert_eq!(result.1, OptionToken::OldOption("with-arg".into()));
    }
    assert!(old_option("--long").is_err());
    assert!(old_option("abc").is_err());
}

#[test]
fn test_short_option() {
    {
        let result = short_option("-a ARG").unwrap();
        assert_eq!(result.0, " ARG");
        assert_eq!(result.1, OptionToken::ShortOption('a'));
    }
    assert!(short_option("--").is_err());
    assert!(short_option("a").is_err());
}

#[test]
fn test_required_arg() {
    {
        let result = required_arg("ARG description").unwrap();
        assert_eq!(result.0, " description");
    }
    assert!(required_arg("arg").is_err());
}

#[test]
fn test_optional_arg() {
    {
        let result = optional_args("[ARG] description").unwrap();
        assert_eq!(result.0, " description");
        assert!(!result.1);
    }
    {
        let result = optional_args("[ARG ...] description").unwrap();
        assert_eq!(result.0, " description");
        assert!(result.1);
    }
    assert!(optional_args("ARG ...").is_err());
    assert!(optional_args("[ARG []...]").is_err());
}

#[test]
fn test_option_block() {
    {
        let result = option_block("--input ARG [ARG ...] description ...").unwrap();
        assert_eq!(result.0, "description ...");
        assert_eq!(result.1 .0, OptionToken::LongOption("input".into()));
        assert_eq!(result.1 .1, ArgsNumType::OneOrMore);
    }
    {
        let result = option_block("-i ARG [ARG ...] description ...").unwrap();
        assert_eq!(result.0, "description ...");
        assert_eq!(result.1 .0, OptionToken::ShortOption('i'));
        assert_eq!(result.1 .1, ArgsNumType::OneOrMore);
    }
    {
        let result = option_block("-input ARG [ARG ...] description ...").unwrap();
        assert_eq!(result.0, "description ...");
        assert_eq!(result.1 .0, OptionToken::OldOption("input".into()));
        assert_eq!(result.1 .1, ArgsNumType::OneOrMore);
    }
}

#[test]
fn test_line_parser() {
    {
        let result = parse_line("  --input ARG, -i ARG Some description.").unwrap();
        assert_eq!(result.0, "Some description.");
        assert_eq!(result.1[0].0, OptionToken::LongOption("input".into()));
        assert_eq!(result.1[0].1, ArgsNumType::One);
        assert_eq!(result.1[1].0, OptionToken::ShortOption('i'));
        assert_eq!(result.1[1].1, ArgsNumType::One);
    }
}
