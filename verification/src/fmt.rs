//! The template formatter: plain text with `{key}` placeholders, rendered
//! against one record of ratings in a single forward pass.

use crate::fmt::laws::{
    lemma_prefixed_twice, lemma_render_literal_step, lemma_render_placeholder_step,
    lemma_render_plain,
};
use crate::text::{decimal, decimal_string, lemma_first_index, read_until, same_text};
use vstd::prelude::*;
use vstd::std_specs::iter::IteratorSpec;

pub mod laws;

verus! {

/// The ratings of one player, the same whichever service they came from.
#[derive(Debug, Clone, PartialEq, Eq)]
pub struct KnownData {
    pub user: String,
    pub title: String,
    pub bullet_elo: u32,
    pub blitz_elo: u32,
    pub rapid_elo: u32,
    pub classical_elo: u32,
}

/// A record with its texts as sequences of characters.
pub ghost struct KnownDataView {
    pub user: Seq<char>,
    pub title: Seq<char>,
    pub bullet_elo: u32,
    pub blitz_elo: u32,
    pub rapid_elo: u32,
    pub classical_elo: u32,
}

impl View for KnownData {
    type V = KnownDataView;

    open spec fn view(&self) -> KnownDataView {
        KnownDataView {
            user: self.user@,
            title: self.title@,
            bullet_elo: self.bullet_elo,
            blitz_elo: self.blitz_elo,
            rapid_elo: self.rapid_elo,
            classical_elo: self.classical_elo,
        }
    }
}

/// Why a template could not be rendered.
#[derive(Debug, Clone, PartialEq, Eq)]
pub enum FormatError {
    /// A placeholder was opened and the template ended before its `}`.
    UnexpectedEmpty,
    /// One character stood where another was required. The template grammar
    /// has no place where this can happen; the kind is kept for callers that
    /// match on every kind of failure.
    UnexpectedChar { found: char, expected: char },
    /// A placeholder was closed around a key that names no field.
    UnrecognizedFormat(String),
}

/// A formatting failure with its key as a sequence of characters.
pub ghost enum FormatErrorView {
    UnexpectedEmpty,
    UnexpectedChar { found: char, expected: char },
    UnrecognizedFormat(Seq<char>),
}

impl View for FormatError {
    type V = FormatErrorView;

    open spec fn view(&self) -> FormatErrorView {
        match self {
            FormatError::UnexpectedEmpty => FormatErrorView::UnexpectedEmpty,
            FormatError::UnexpectedChar { found, expected } => FormatErrorView::UnexpectedChar {
                found: *found,
                expected: *expected,
            },
            FormatError::UnrecognizedFormat(key) => FormatErrorView::UnrecognizedFormat(key@),
        }
    }
}

impl FormatErrorView {
    /// The line that reports this failure.
    pub open spec fn message(self) -> Seq<char> {
        match self {
            FormatErrorView::UnexpectedEmpty => "Unexpected end of string."@,
            FormatErrorView::UnexpectedChar { found, expected } => "Epected char '"@ + seq![
                expected,
            ] + "', found '"@ + seq![found] + "'."@,
            FormatErrorView::UnrecognizedFormat(key) => "Value "@ + key + " is not recognized."@,
        }
    }
}

impl FormatError {
    /// The line that reports this failure.
    pub fn to_string(&self) -> (text: String)
        ensures
            text@ == self@.message(),
    {
        match self {
            FormatError::UnexpectedEmpty => String::from_str("Unexpected end of string."),
            FormatError::UnexpectedChar { found, expected } => {
                let mut text = String::from_str("Epected char '");
                text.push(*expected);
                text.append("', found '");
                text.push(*found);
                text.append("'.");
                assert(text@ =~= self@.message());
                text
            },
            FormatError::UnrecognizedFormat(key) => {
                let mut text = String::from_str("Value ");
                text.append(key.as_str());
                text.append(" is not recognized.");
                text
            },
        }
    }
}

/// The result of a formatting step with its texts as sequences of characters.
pub open spec fn outcome(res: Result<String, FormatError>) -> Result<Seq<char>, FormatErrorView> {
    match res {
        Ok(text) => Ok(text@),
        Err(e) => Err(e@),
    }
}

/// The text that stands for `key`, where `key` names a field of the record.
pub open spec fn lookup(key: Seq<char>, record: KnownDataView) -> Option<Seq<char>> {
    if key == "user"@ {
        Some(record.user)
    } else if key == "title"@ {
        Some(record.title)
    } else if key == "bullet_elo"@ {
        Some(decimal(record.bullet_elo as nat))
    } else if key == "blitz_elo"@ {
        Some(decimal(record.blitz_elo as nat))
    } else if key == "rapid_elo"@ {
        Some(decimal(record.rapid_elo as nat))
    } else if key == "classical_elo"@ {
        Some(decimal(record.classical_elo as nat))
    } else {
        None
    }
}

/// What a closed placeholder around `key` turns into.
pub open spec fn resolve(key: Seq<char>, record: KnownDataView) -> Result<
    Seq<char>,
    FormatErrorView,
> {
    match lookup(key, record) {
        Some(text) => Ok(text),
        None => Err(FormatErrorView::UnrecognizedFormat(key)),
    }
}

/// `text` put in front of a successful result; a failure stays as it is.
pub open spec fn prefixed(text: Seq<char>, res: Result<Seq<char>, FormatErrorView>) -> Result<
    Seq<char>,
    FormatErrorView,
> {
    match res {
        Ok(rest) => Ok(text + rest),
        Err(e) => Err(e),
    }
}

/// The rendering of `template` against `record`.
///
/// Text before the first `{` is copied. The characters between that `{` and
/// the first `}` after it are a key, replaced by the field it names. The rest
/// of the template is rendered in the same way. The first failure met from
/// the left is the result.
pub open spec fn render(template: Seq<char>, record: KnownDataView) -> Result<
    Seq<char>,
    FormatErrorView,
>
    decreases template.len(),
    via render_decreases
{
    match template.index_of_first('{') {
        None => Ok(template),
        Some(open) => {
            let inside = template.skip(open + 1);
            match inside.index_of_first('}') {
                None => Err(FormatErrorView::UnexpectedEmpty),
                Some(close) => match resolve(inside.take(close), record) {
                    Err(e) => Err(e),
                    Ok(value) => prefixed(
                        template.take(open) + value,
                        render(inside.skip(close + 1), record),
                    ),
                },
            }
        },
    }
}

#[via_fn]
proof fn render_decreases(template: Seq<char>, record: KnownDataView) {
    template.index_of_first_ensures('{');
    if let Some(open) = template.index_of_first('{') {
        template.skip(open + 1).index_of_first_ensures('}');
    }
}

/// The template that is one placeholder around `key`.
pub open spec fn placeholder(key: Seq<char>) -> Seq<char> {
    seq!['{'] + key + seq!['}']
}

/// What is left unread of `template` when rendering it stops: nothing after
/// a success or an unterminated placeholder, and what follows the closing
/// `}` after an unrecognized key.
pub open spec fn unread(template: Seq<char>, record: KnownDataView) -> Seq<char>
    decreases template.len(),
    via unread_decreases
{
    match template.index_of_first('{') {
        None => Seq::empty(),
        Some(open) => {
            let inside = template.skip(open + 1);
            match inside.index_of_first('}') {
                None => Seq::empty(),
                Some(close) => match resolve(inside.take(close), record) {
                    Err(_) => inside.skip(close + 1),
                    Ok(_) => unread(inside.skip(close + 1), record),
                },
            }
        },
    }
}

#[via_fn]
proof fn unread_decreases(template: Seq<char>, record: KnownDataView) {
    template.index_of_first_ensures('{');
    if let Some(open) = template.index_of_first('{') {
        template.skip(open + 1).index_of_first_ensures('}');
    }
}

/// Replaces a key by the text of the field it names.
///
/// The keys are `user`, `title`, `bullet_elo`, `blitz_elo`, `rapid_elo` and
/// `classical_elo`, matched exactly. Any other key is an
/// `UnrecognizedFormat` failure that carries the key.
pub fn handle_word(word: String, data: &KnownData) -> (res: Result<String, FormatError>)
    ensures
        outcome(res) == resolve(word@, data@),
{
    let key = word.as_str();
    if same_text(key, "user") {
        Ok(data.user.clone())
    } else if same_text(key, "title") {
        Ok(data.title.clone())
    } else if same_text(key, "bullet_elo") {
        Ok(decimal_string(data.bullet_elo))
    } else if same_text(key, "blitz_elo") {
        Ok(decimal_string(data.blitz_elo))
    } else if same_text(key, "rapid_elo") {
        Ok(decimal_string(data.rapid_elo))
    } else if same_text(key, "classical_elo") {
        Ok(decimal_string(data.classical_elo))
    } else {
        Err(FormatError::UnrecognizedFormat(word))
    }
}

/// Reads the key of a placeholder whose `{` has just been read: everything
/// up to the first `}`, which is read too and dropped.
///
/// Where the stream ends before a `}`, the result is `UnexpectedEmpty` and
/// the stream is exhausted.
pub fn parse_word<T>(fmt: &mut T) -> (res: Result<String, FormatError>) where
    T: Iterator<Item = char>,

    requires
        (*old(fmt)).obeys_prophetic_iter_laws(),
        (*old(fmt)).decrease() is Some,
    ensures
        (*final(fmt)).obeys_prophetic_iter_laws(),
        (*final(fmt)).decrease() is Some,
        match (*old(fmt)).remaining().index_of_first('}') {
            Some(close) => {
                &&& (*final(fmt)).decrease()->0 < (*old(fmt)).decrease()->0
                &&& outcome(res) == Ok::<Seq<char>, FormatErrorView>(
                    (*old(fmt)).remaining().take(close),
                )
                &&& (*final(fmt)).remaining() == (*old(fmt)).remaining().skip(close + 1)
            },
            None => {
                &&& outcome(res) == Err::<Seq<char>, FormatErrorView>(
                    FormatErrorView::UnexpectedEmpty,
                )
                &&& (*final(fmt)).remaining() == Seq::<char>::empty()
            },
        },
{
    proof {
        lemma_first_index((*fmt).remaining(), '}');
    }
    let (word, closed) = read_until(fmt, '}');
    if closed {
        Ok(word)
    } else {
        Err(FormatError::UnexpectedEmpty)
    }
}

/// Renders the template that `fmt` yields against `data`.
///
/// Characters outside placeholders are copied; each `{key}` is replaced by
/// the field that `key` names. The stream is read once, front to back, and
/// no further than the failure where there is one: after
/// `UnrecognizedFormat` it stands behind the `}` of the offending
/// placeholder, otherwise it is exhausted.
///
/// The stream must be one that ends and keeps to the iterator laws, as
/// `str::chars` does.
pub fn format<T>(fmt: &mut T, data: KnownData) -> (res: Result<String, FormatError>) where
    T: Iterator<Item = char>,

    requires
        (*old(fmt)).obeys_prophetic_iter_laws(),
        (*old(fmt)).decrease() is Some,
    ensures
        (*final(fmt)).obeys_prophetic_iter_laws(),
        (*final(fmt)).decrease() is Some,
        outcome(res) == render((*old(fmt)).remaining(), data@),
        (*final(fmt)).remaining() == unread((*old(fmt)).remaining(), data@),
        !(*old(fmt)).remaining().contains('{') ==> outcome(res) == Ok::<Seq<char>, FormatErrorView>(
            (*old(fmt)).remaining(),
        ),
        (*old(fmt)).remaining().len() == 0 ==> outcome(res) == Ok::<Seq<char>, FormatErrorView>(
            Seq::empty(),
        ),
{
    let mut out = String::new();
    let ghost all = (*fmt).remaining();
    assert(!all.contains('{') ==> render(all, data@) == Ok::<Seq<char>, FormatErrorView>(all)) by {
        if !all.contains('{') {
            lemma_render_plain(all, data@);
        }
    }
    assert(all.len() == 0 ==> all =~= Seq::<char>::empty());
    assert(render(all, data@) == prefixed(out@, render(all, data@))) by {
        if let Ok(text) = render(all, data@) {
            assert(Seq::<char>::empty() + text =~= text);
        }
    }
    loop
        invariant
            all == (*old(fmt)).remaining(),
            (*fmt).obeys_prophetic_iter_laws(),
            (*fmt).decrease() is Some,
            render(all, data@) == prefixed(out@, render((*fmt).remaining(), data@)),
            unread(all, data@) == unread((*fmt).remaining(), data@),
            !all.contains('{') ==> render(all, data@) == Ok::<Seq<char>, FormatErrorView>(all),
            all.len() == 0 ==> all == Seq::<char>::empty(),
        decreases (*fmt).decrease()->0,
    {
        let ghost pending = (*fmt).remaining();
        let ghost written = out@;
        match fmt.next() {
            None => {
                assert(render(all, data@) == Ok::<Seq<char>, FormatErrorView>(written) && unread(
                    all,
                    data@,
                ) == pending) by {
                    lemma_first_index(pending, '{');
                    assert(written + pending =~= written);
                    assert(pending =~= Seq::<char>::empty());
                }
                return Ok(out);
            },
            Some(c) => {
                if c == '{' {
                    assert(pending.skip(1) =~= pending.drop_first());
                    let word = match parse_word(fmt) {
                        Ok(word) => word,
                        Err(e) => {
                            assert(render(all, data@) == Err::<Seq<char>, FormatErrorView>(e@)
                                && unread(all, data@) == Seq::<char>::empty()) by {
                                lemma_render_placeholder_step(pending, data@);
                            }
                            return Err(e);
                        },
                    };
                    let value = match handle_word(word, &data) {
                        Ok(value) => value,
                        Err(e) => {
                            assert(render(all, data@) == Err::<Seq<char>, FormatErrorView>(e@)
                                && unread(all, data@) == (*fmt).remaining()) by {
                                lemma_render_placeholder_step(pending, data@);
                            }
                            return Err(e);
                        },
                    };
                    out.append(value.as_str());
                    assert(render(all, data@) == prefixed(
                        out@,
                        render((*fmt).remaining(), data@),
                    ) && unread(all, data@) == unread((*fmt).remaining(), data@)) by {
                        lemma_render_placeholder_step(pending, data@);
                        lemma_prefixed_twice(written, value@, render((*fmt).remaining(), data@));
                    }
                } else {
                    out.push(c);
                    assert(render(all, data@) == prefixed(
                        out@,
                        render((*fmt).remaining(), data@),
                    ) && unread(all, data@) == unread((*fmt).remaining(), data@)) by {
                        lemma_render_literal_step(pending, data@);
                        lemma_prefixed_twice(
                            written,
                            seq![c],
                            render((*fmt).remaining(), data@),
                        );
                        assert(written.push(c) =~= written + seq![c]);
                    }
                }
            },
        }
    }
}

/// Renders `template` against `data`.
pub fn format_str(template: &str, data: KnownData) -> (res: Result<String, FormatError>)
    ensures
        outcome(res) == render(template@, data@),
        !template@.contains('{') ==> outcome(res) == Ok::<Seq<char>, FormatErrorView>(template@),
        template@.len() == 0 ==> outcome(res) == Ok::<Seq<char>, FormatErrorView>(Seq::empty()),
{
    let mut chars = template.chars();
    format(&mut chars, data)
}

} // verus!
