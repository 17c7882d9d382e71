//! The command-line flags: `-usr=NAME`, `-fmt=TEMPLATE` and `-src=SERVICE`.

use crate::text::{lemma_first_index, read_until, same_text};
use vstd::prelude::*;
use vstd::std_specs::iter::IteratorSpec;

verus! {

/// What to fetch, from where, and how to show it.
#[derive(Debug, Clone, PartialEq, Eq)]
pub struct Options {
    /// The player whose ratings are wanted.
    pub user: String,
    /// The template that the ratings are rendered through.
    pub fmt: String,
    /// The name of the rating service.
    pub src: String,
}

/// The options with their texts as sequences of characters.
pub ghost struct OptionsView {
    pub user: Seq<char>,
    pub fmt: Seq<char>,
    pub src: Seq<char>,
}

impl View for Options {
    type V = OptionsView;

    open spec fn view(&self) -> OptionsView {
        OptionsView { user: self.user@, fmt: self.fmt@, src: self.src@ }
    }
}

impl OptionsView {
    /// The options that hold where no flag says otherwise.
    pub open spec fn defaults() -> OptionsView {
        OptionsView {
            user: "fabmazz"@,
            fmt: "{user}: {blitz_elo} blitz"@,
            src: "chesscom"@,
        }
    }
}

impl Default for Options {
    fn default() -> (res: Options)
        ensures
            res@ == OptionsView::defaults(),
    {
        Options {
            user: String::from_str("fabmazz"),
            fmt: String::from_str("{user}: {blitz_elo} blitz"),
            src: String::from_str("chesscom"),
        }
    }
}

/// Why the flags could not be read.
#[derive(Debug, Clone, PartialEq, Eq)]
pub enum FlagParseError {
    /// A flag was the empty text.
    EmptyFlag,
    /// The flag does not start with `-`.
    MissingMinus(String),
    /// The flag has no `=` between a name and a value.
    TooFewWords(String),
    /// The name of the flag is not one of `usr`, `fmt` and `src`.
    InvalidFlag(String),
}

/// A flag failure with its flag as a sequence of characters.
pub ghost enum FlagParseErrorView {
    EmptyFlag,
    MissingMinus(Seq<char>),
    TooFewWords(Seq<char>),
    InvalidFlag(Seq<char>),
}

impl View for FlagParseError {
    type V = FlagParseErrorView;

    open spec fn view(&self) -> FlagParseErrorView {
        match self {
            FlagParseError::EmptyFlag => FlagParseErrorView::EmptyFlag,
            FlagParseError::MissingMinus(flag) => FlagParseErrorView::MissingMinus(flag@),
            FlagParseError::TooFewWords(flag) => FlagParseErrorView::TooFewWords(flag@),
            FlagParseError::InvalidFlag(flag) => FlagParseErrorView::InvalidFlag(flag@),
        }
    }
}

impl FlagParseErrorView {
    /// The line that reports this failure.
    pub open spec fn message(self) -> Seq<char> {
        match self {
            FlagParseErrorView::EmptyFlag => "The flag is empty."@,
            FlagParseErrorView::MissingMinus(flag) => "The flag "@ + flag
                + " does not start with a minus."@,
            FlagParseErrorView::TooFewWords(flag) => "Flag "@ + flag
                + " does not contain enough words."@,
            FlagParseErrorView::InvalidFlag(flag) => "Flag "@ + flag + " is not recognized."@,
        }
    }
}

impl FlagParseError {
    /// The line that reports this failure.
    pub fn to_string(&self) -> (text: String)
        ensures
            text@ == self@.message(),
    {
        match self {
            FlagParseError::EmptyFlag => String::from_str("The flag is empty."),
            FlagParseError::MissingMinus(flag) => {
                let mut text = String::from_str("The flag ");
                text.append(flag.as_str());
                text.append(" does not start with a minus.");
                text
            },
            FlagParseError::TooFewWords(flag) => {
                let mut text = String::from_str("Flag ");
                text.append(flag.as_str());
                text.append(" does not contain enough words.");
                text
            },
            FlagParseError::InvalidFlag(flag) => {
                let mut text = String::from_str("Flag ");
                text.append(flag.as_str());
                text.append(" is not recognized.");
                text
            },
        }
    }
}

/// `text` up to its first `stop`, or all of it where it has none.
pub open spec fn up_to(text: Seq<char>, stop: char) -> Seq<char> {
    match text.index_of_first(stop) {
        Some(end) => text.take(end),
        None => text,
    }
}

/// The name and the value of a flag.
///
/// A flag is `-`, a name, `=` and a value. The name ends at the first `=`.
/// The value ends at the next `=` or, where there is none, with the flag.
pub open spec fn split_flag(flag: Seq<char>) -> Result<(Seq<char>, Seq<char>), FlagParseErrorView> {
    if flag.len() == 0 {
        Err(FlagParseErrorView::EmptyFlag)
    } else if flag[0] != '-' {
        Err(FlagParseErrorView::MissingMinus(flag))
    } else {
        let body = flag.skip(1);
        match body.index_of_first('=') {
            None => Err(FlagParseErrorView::TooFewWords(flag)),
            Some(eq) => Ok((body.take(eq), up_to(body.skip(eq + 1), '='))),
        }
    }
}

/// The options after one more flag.
pub open spec fn apply_flag(options: OptionsView, flag: Seq<char>) -> Result<
    OptionsView,
    FlagParseErrorView,
> {
    match split_flag(flag) {
        Err(e) => Err(e),
        Ok((name, value)) => if name == "usr"@ {
            Ok(OptionsView { user: value, ..options })
        } else if name == "fmt"@ {
            Ok(OptionsView { fmt: value, ..options })
        } else if name == "src"@ {
            Ok(OptionsView { src: value, ..options })
        } else {
            Err(FlagParseErrorView::InvalidFlag(flag))
        },
    }
}

/// The options after all of `flags`, taken in order: a later flag overrides
/// an earlier one of the same name, and the first flag that cannot be read
/// decides the failure.
pub open spec fn apply_flags(options: OptionsView, flags: Seq<Seq<char>>) -> Result<
    OptionsView,
    FlagParseErrorView,
>
    decreases flags.len(),
{
    if flags.len() == 0 {
        Ok(options)
    } else {
        match apply_flag(options, flags.first()) {
            Err(e) => Err(e),
            Ok(next) => apply_flags(next, flags.drop_first()),
        }
    }
}

/// The result of reading one flag with its texts as sequences of characters.
pub open spec fn flag_outcome(res: Result<(String, String), FlagParseError>) -> Result<
    (Seq<char>, Seq<char>),
    FlagParseErrorView,
> {
    match res {
        Ok((name, value)) => Ok((name@, value@)),
        Err(e) => Err(e@),
    }
}

/// The result of reading the flags with its texts as sequences of
/// characters.
pub open spec fn options_outcome(res: Result<Options, FlagParseError>) -> Result<
    OptionsView,
    FlagParseErrorView,
> {
    match res {
        Ok(options) => Ok(options@),
        Err(e) => Err(e@),
    }
}

/// Splits a flag into its name and its value.
pub fn parse_flag(flag: String) -> (res: Result<(String, String), FlagParseError>)
    ensures
        flag_outcome(res) == split_flag(flag@),
{
    let mut chars = flag.as_str().chars();
    match chars.next() {
        None => Err(FlagParseError::EmptyFlag),
        Some(first) => {
            if first != '-' {
                return Err(FlagParseError::MissingMinus(flag));
            }
            let ghost body = flag@.skip(1);
            assert(chars.remaining() =~= body);
            assert(body.index_of_first('=') matches Some(eq) ==> body.index_of_first('=')
                == Some(eq)) by {
                lemma_first_index(body, '=');
            }
            let (name, found) = read_until(&mut chars, '=');
            if !found {
                assert(body.index_of_first('=') is None) by {
                    lemma_first_index(body, '=');
                }
                return Err(FlagParseError::TooFewWords(flag));
            }
            let ghost rest = chars.remaining();
            let (value, _) = read_until(&mut chars, '=');
            assert(body.index_of_first('=') == Some(name@.len() as int)) by {
                lemma_first_index(body, '=');
            }
            assert(value@ == up_to(rest, '=')) by {
                lemma_first_index(rest, '=');
            }
            Ok((name, value))
        },
    }
}

/// Reads the flags into options, starting from the defaults.
pub fn parse_options(flags: Vec<String>) -> (res: Result<Options, FlagParseError>)
    ensures
        options_outcome(res) == apply_flags(OptionsView::defaults(), flags.deep_view()),
{
    let mut options = Options::default();
    let ghost all = flags.deep_view();
    let mut i: usize = 0;
    assert(all.skip(0) =~= all);
    while i < flags.len()
        invariant
            i <= flags.len(),
            all == flags.deep_view(),
            apply_flags(OptionsView::defaults(), all) == apply_flags(options@, all.skip(i as int)),
        decreases flags.len() - i,
    {
        let flag = flags[i].clone();
        assert(all.skip(i as int).first() == flag@);
        assert(all.skip(i as int).drop_first() =~= all.skip(i + 1));
        let (name, value) = match parse_flag(flag.clone()) {
            Ok(words) => words,
            Err(e) => {
                return Err(e);
            },
        };
        if same_text(name.as_str(), "usr") {
            options.user = value;
        } else if same_text(name.as_str(), "fmt") {
            options.fmt = value;
        } else if same_text(name.as_str(), "src") {
            options.src = value;
        } else {
            return Err(FlagParseError::InvalidFlag(flag));
        }
        i += 1;
    }
    Ok(options)
}

/// Flags are read in order: reading two lists one after the other is
/// reading the first and then, from the options it leaves, the second. A
/// failure in the first list is the failure of the whole.
pub proof fn lemma_apply_flags_concat(
    options: OptionsView,
    first: Seq<Seq<char>>,
    second: Seq<Seq<char>>,
)
    ensures
        apply_flags(options, first + second) == match apply_flags(options, first) {
            Ok(next) => apply_flags(next, second),
            Err(e) => Err(e),
        },
    decreases first.len(),
{
    if first.len() == 0 {
        assert(first + second =~= second);
    } else {
        assert((first + second).first() == first.first());
        assert((first + second).drop_first() =~= first.drop_first() + second);
        if let Ok(next) = apply_flag(options, first.first()) {
            lemma_apply_flags_concat(next, first.drop_first(), second);
        }
    }
}

/// A flag that can be read changes the one option it names, to the value
/// it gives, and no other.
pub proof fn lemma_apply_flag_sets_one(options: OptionsView, flag: Seq<char>)
    ensures
        apply_flag(options, flag) matches Ok(next) ==> {
            &&& split_flag(flag) matches Ok((name, value))
            &&& name == "usr"@ ==> next == (OptionsView { user: value, ..options })
            &&& name == "fmt"@ ==> next == (OptionsView { fmt: value, ..options })
            &&& name == "src"@ ==> next == (OptionsView { src: value, ..options })
            &&& name == "usr"@ || name == "fmt"@ || name == "src"@
        },
{
    reveal_strlit("usr");
    reveal_strlit("fmt");
    reveal_strlit("src");
    assert("usr"@[0] != "fmt"@[0]);
    assert("usr"@[0] != "src"@[0]);
    assert("fmt"@[0] != "src"@[0]);
}

} // verus!
