//! The values a parsed option declaration is made of.

use vstd::prelude::*;

verus! {

/// How many argument values an option accepts.
#[derive(Clone, Copy, Debug, PartialEq, Eq, Structural)]
pub enum ArgsNumType {
    Zero,
    One,
    ZeroOrOne,
    OneOrMore,
    Any,
}

/// The cardinality that follows from the two facts observed in a clause:
/// whether a required placeholder was present, and whether a bracketed
/// placeholder was present and, if so, whether it was repeatable.
///
/// A required placeholder followed by a bracketed placeholder that is not
/// repeatable has no cardinality: no help text is expected to say that.
pub open spec fn cardinality(required: bool, optional: Option<bool>) -> Option<ArgsNumType> {
    match (required, optional) {
        (true, None) => Some(ArgsNumType::One),
        (true, Some(true)) => Some(ArgsNumType::OneOrMore),
        (true, Some(false)) => None,
        (false, None) => Some(ArgsNumType::Zero),
        (false, Some(false)) => Some(ArgsNumType::ZeroOrOne),
        (false, Some(true)) => Some(ArgsNumType::Any),
    }
}

impl ArgsNumType {
    /// Derives the cardinality from the two facts a clause was parsed into.
    /// The combination that has no cardinality is left to the caller to rule
    /// out; `checked_from_parse` tests for it.
    pub fn from_parse(required_arg: Option<()>, multi_args: Option<bool>) -> (kind: Self)
        requires
            cardinality(required_arg is Some, multi_args) is Some,
        ensures
            cardinality(required_arg is Some, multi_args) == Some(kind),
    {
        Self::checked_from_parse(required_arg, multi_args).unwrap()
    }

    /// The cardinality of the two facts, or `None` for the one combination
    /// that has none.
    pub fn checked_from_parse(required_arg: Option<()>, multi_args: Option<bool>) -> (kind:
        Option<Self>)
        ensures
            kind == cardinality(required_arg is Some, multi_args),
    {
        if required_arg.is_some() {
            match multi_args {
                Some(true) => Some(Self::OneOrMore),
                Some(false) => None,
                None => Some(Self::One),
            }
        } else {
            match multi_args {
                Some(true) => Some(Self::Any),
                Some(false) => Some(Self::ZeroOrOne),
                None => Some(Self::Zero),
            }
        }
    }
}

/// An option flag as it stands in help text.
#[derive(Clone, Debug, PartialEq, Eq)]
pub enum OptionToken {
    /// Two dashes and an identifier of two or more characters: `--help`.
    LongOption(String),
    /// One dash and one letter: `-h`.
    ShortOption(char),
    /// One dash and an identifier of two or more characters: `-help`.
    OldOption(String),
}

/// What an `OptionToken` holds, with its identifier as a sequence of
/// characters.
pub enum TokenView {
    Long(Seq<char>),
    Short(char),
    Old(Seq<char>),
}

impl View for OptionToken {
    type V = TokenView;

    open spec fn view(&self) -> TokenView {
        match self {
            OptionToken::LongOption(name) => TokenView::Long(name@),
            OptionToken::ShortOption(c) => TokenView::Short(*c),
            OptionToken::OldOption(name) => TokenView::Old(name@),
        }
    }
}

} // verus!
