//! What holds of every rendering, proved from the definition of `render`.

use crate::fmt::{
    lookup, placeholder, prefixed, render, resolve, unread, FormatErrorView, KnownDataView,
};
use crate::text::{decimal, first_at, lemma_first_index};
use vstd::prelude::*;

verus! {

/// Putting two texts in front, one after the other, is putting their
/// concatenation in front.
pub proof fn lemma_prefixed_twice(
    first: Seq<char>,
    second: Seq<char>,
    res: Result<Seq<char>, FormatErrorView>,
)
    ensures
        prefixed(first, prefixed(second, res)) == prefixed(first + second, res),
{
    if let Ok(rest) = res {
        assert(first + (second + rest) =~= (first + second) + rest);
    }
}

/// A template that starts with a character other than `{` renders as that
/// character followed by the rendering of the rest.
pub proof fn lemma_render_literal_step(template: Seq<char>, record: KnownDataView)
    requires
        template.len() > 0,
        template[0] != '{',
    ensures
        render(template, record) == prefixed(
            seq![template[0]],
            render(template.drop_first(), record),
        ),
        unread(template, record) == unread(template.drop_first(), record),
{
    assert(seq![template[0]] + template.drop_first() =~= template);
    assert(!seq![template[0]].contains('{'));
    lemma_render_plain(seq![template[0]], record);
    lemma_render_concat(seq![template[0]], template.drop_first(), record);
}

/// A template that starts with `{` renders as the field named between that
/// `{` and the first `}`, followed by the rendering of what comes after.
pub proof fn lemma_render_placeholder_step(template: Seq<char>, record: KnownDataView)
    requires
        template.len() > 0,
        template[0] == '{',
    ensures
        match template.drop_first().index_of_first('}') {
            None => {
                &&& render(template, record) == Err::<Seq<char>, FormatErrorView>(
                    FormatErrorView::UnexpectedEmpty,
                )
                &&& unread(template, record) == Seq::<char>::empty()
            },
            Some(close) => {
                let key = template.drop_first().take(close);
                let after = template.drop_first().skip(close + 1);
                match resolve(key, record) {
                    Err(e) => {
                        &&& render(template, record) == Err::<Seq<char>, FormatErrorView>(e)
                        &&& unread(template, record) == after
                    },
                    Ok(value) => {
                        &&& render(template, record) == prefixed(value, render(after, record))
                        &&& unread(template, record) == unread(after, record)
                    },
                }
            },
        },
{
    lemma_first_index(template, '{');
    assert(first_at(template, '{', 0));
    assert(template.skip(1) =~= template.drop_first());
    let inside = template.drop_first();
    if let Some(close) = inside.index_of_first('}') {
        if let Ok(value) = resolve(inside.take(close), record) {
            assert(template.take(0) + value =~= value);
        }
    }
}

/// A template without `{` renders as itself, whatever the record.
pub proof fn lemma_render_plain(template: Seq<char>, record: KnownDataView)
    requires
        !template.contains('{'),
    ensures
        render(template, record) == Ok::<Seq<char>, FormatErrorView>(template),
        unread(template, record) == Seq::<char>::empty(),
{
    lemma_first_index(template, '{');
}

/// The empty template renders as the empty text, whatever the record.
pub proof fn lemma_render_empty(record: KnownDataView)
    ensures
        render(Seq::empty(), record) == Ok::<Seq<char>, FormatErrorView>(Seq::empty()),
{
    lemma_render_plain(Seq::empty(), record);
}

/// Rendering goes from left to right: behind a template that renders to a
/// text, a second template renders as it does alone, and its rendering
/// follows that text.
pub proof fn lemma_render_concat(first: Seq<char>, second: Seq<char>, record: KnownDataView)
    requires
        render(first, record) is Ok,
    ensures
        render(first + second, record) == prefixed(
            render(first, record)->Ok_0,
            render(second, record),
        ),
        unread(first + second, record) == unread(second, record),
    decreases first.len(),
{
    let whole = first + second;
    lemma_first_index(first, '{');
    lemma_first_index(second, '{');
    lemma_first_index(whole, '{');
    match first.index_of_first('{') {
        None => {
            first.index_of_first_ensures('{');
            match second.index_of_first('{') {
                None => {
                    second.index_of_first_ensures('{');
                    assert(!whole.contains('{')) by {
                        if whole.contains('{') {
                            let i = choose|i: int| 0 <= i < whole.len() && whole[i] == '{';
                            if i < first.len() {
                                assert(first[i] == '{');
                            } else {
                                assert(second[i - first.len()] == '{');
                            }
                        }
                    }
                },
                Some(open) => {
                    let at = first.len() + open;
                    assert(first_at(whole, '{', at)) by {
                        assert forall|j: int| 0 <= j < at implies whole[j] != '{' by {
                            if j < first.len() {
                                assert(first.contains(first[j]));
                            } else {
                                assert(second[j - first.len()] != '{');
                            }
                        }
                    }
                    assert(whole.skip(at + 1) =~= second.skip(open + 1));
                    let inside = second.skip(open + 1);
                    if let Some(close) = inside.index_of_first('}') {
                        if let Ok(value) = resolve(inside.take(close), record) {
                            assert(whole.take(at) + value =~= first + (second.take(open) + value));
                            lemma_prefixed_twice(
                                first,
                                second.take(open) + value,
                                render(inside.skip(close + 1), record),
                            );
                        }
                    }
                },
            }
        },
        Some(open) => {
            assert(first_at(whole, '{', open));
            let inside = first.skip(open + 1);
            assert(whole.skip(open + 1) =~= inside + second);
            lemma_first_index(inside, '}');
            lemma_first_index(inside + second, '}');
            let close = inside.index_of_first('}')->0;
            assert(first_at(inside + second, '}', close));
            assert((inside + second).take(close) =~= inside.take(close));
            assert((inside + second).skip(close + 1) =~= inside.skip(close + 1) + second);
            assert(whole.take(open) =~= first.take(open));
            let value = resolve(inside.take(close), record)->Ok_0;
            let rest = inside.skip(close + 1);
            lemma_render_concat(rest, second, record);
            lemma_prefixed_twice(
                first.take(open) + value,
                render(rest, record)->Ok_0,
                render(second, record),
            );
        },
    }
}

/// A placeholder around a key without `}` renders as whatever the key
/// resolves to.
pub proof fn lemma_render_placeholder(key: Seq<char>, record: KnownDataView)
    requires
        !key.contains('}'),
    ensures
        render(placeholder(key), record) == resolve(key, record),
{
    lemma_render_placeholder_then(key, Seq::empty(), record);
    assert(placeholder(key) + Seq::<char>::empty() =~= placeholder(key));
    lemma_render_empty(record);
    if let Ok(value) = resolve(key, record) {
        assert(value + Seq::<char>::empty() =~= value);
    }
}

/// A template that starts with a placeholder around a key without `}`
/// resolves that key and goes on behind the placeholder.
pub proof fn lemma_render_placeholder_then(
    key: Seq<char>,
    after: Seq<char>,
    record: KnownDataView,
)
    requires
        !key.contains('}'),
    ensures
        render(placeholder(key) + after, record) == match resolve(key, record) {
            Ok(value) => prefixed(value, render(after, record)),
            Err(e) => Err(e),
        },
        unread(placeholder(key) + after, record) == match resolve(key, record) {
            Ok(_) => unread(after, record),
            Err(_) => after,
        },
{
    let template = placeholder(key) + after;
    let inside = template.drop_first();
    assert(inside =~= key + seq!['}'] + after);
    assert(first_at(inside, '}', key.len() as int)) by {
        assert forall|j: int| 0 <= j < key.len() implies inside[j] != '}' by {
            assert(key.contains(key[j]));
        }
    }
    lemma_first_index(inside, '}');
    assert(inside.take(key.len() as int) =~= key);
    assert(inside.skip(key.len() as int + 1) =~= after);
    lemma_render_placeholder_step(template, record);
}

/// Each of the six keys, alone in a placeholder, renders as its field of
/// the record: the two texts as they are, the four ratings in decimal.
pub proof fn lemma_render_each_key(record: KnownDataView)
    ensures
        render(placeholder("user"@), record) == Ok::<Seq<char>, FormatErrorView>(record.user),
        render(placeholder("title"@), record) == Ok::<Seq<char>, FormatErrorView>(record.title),
        render(placeholder("bullet_elo"@), record) == Ok::<Seq<char>, FormatErrorView>(
            decimal(record.bullet_elo as nat),
        ),
        render(placeholder("blitz_elo"@), record) == Ok::<Seq<char>, FormatErrorView>(
            decimal(record.blitz_elo as nat),
        ),
        render(placeholder("rapid_elo"@), record) == Ok::<Seq<char>, FormatErrorView>(
            decimal(record.rapid_elo as nat),
        ),
        render(placeholder("classical_elo"@), record) == Ok::<Seq<char>, FormatErrorView>(
            decimal(record.classical_elo as nat),
        ),
{
    reveal_strlit("user");
    reveal_strlit("title");
    reveal_strlit("bullet_elo");
    reveal_strlit("blitz_elo");
    reveal_strlit("rapid_elo");
    reveal_strlit("classical_elo");
    lemma_render_placeholder("user"@, record);
    lemma_render_placeholder("title"@, record);
    lemma_render_placeholder("bullet_elo"@, record);
    lemma_render_placeholder("blitz_elo"@, record);
    lemma_render_placeholder("rapid_elo"@, record);
    lemma_render_placeholder("classical_elo"@, record);
    assert("title"@.len() != "user"@.len());
    assert("bullet_elo"@[1] != "rapid_elo"@[1]);
    assert("blitz_elo"@[1] != "rapid_elo"@[1]);
    assert("bullet_elo"@.len() != "blitz_elo"@.len());
}

/// A placeholder that is opened and never closed fails with
/// `UnexpectedEmpty`, whatever was rendered before it.
pub proof fn lemma_render_unterminated(
    before: Seq<char>,
    after: Seq<char>,
    record: KnownDataView,
)
    requires
        render(before, record) is Ok,
        !after.contains('}'),
    ensures
        render(before + seq!['{'] + after, record) == Err::<Seq<char>, FormatErrorView>(
            FormatErrorView::UnexpectedEmpty,
        ),
        unread(before + seq!['{'] + after, record) == Seq::<char>::empty(),
{
    let tail = seq!['{'] + after;
    assert(before + seq!['{'] + after =~= before + tail);
    lemma_render_concat(before, tail, record);
    assert(tail.drop_first() =~= after);
    lemma_first_index(after, '}');
    lemma_render_placeholder_step(tail, record);
}

/// A closed placeholder whose key names no field fails with
/// `UnrecognizedFormat` and carries that key, whatever was rendered before
/// it and whatever follows it.
pub proof fn lemma_render_unrecognized(
    before: Seq<char>,
    key: Seq<char>,
    after: Seq<char>,
    record: KnownDataView,
)
    requires
        render(before, record) is Ok,
        !key.contains('}'),
        lookup(key, record) is None,
    ensures
        render(before + placeholder(key) + after, record) == Err::<Seq<char>, FormatErrorView>(
            FormatErrorView::UnrecognizedFormat(key),
        ),
        unread(before + placeholder(key) + after, record) == after,
{
    let tail = placeholder(key) + after;
    assert(before + placeholder(key) + after =~= before + tail);
    lemma_render_concat(before, tail, record);
    lemma_render_placeholder_then(key, after, record);
}

/// Rendering fails in two ways only: with `UnexpectedEmpty`, or with
/// `UnrecognizedFormat` around a key that names no field. It never fails
/// with `UnexpectedChar`.
pub proof fn lemma_render_failures(template: Seq<char>, record: KnownDataView)
    ensures
        match render(template, record) {
            Ok(_) => true,
            Err(FormatErrorView::UnexpectedEmpty) => true,
            Err(FormatErrorView::UnrecognizedFormat(key)) => lookup(key, record) is None,
            Err(FormatErrorView::UnexpectedChar { .. }) => false,
        },
    decreases template.len(),
{
    template.index_of_first_ensures('{');
    if let Some(open) = template.index_of_first('{') {
        let inside = template.skip(open + 1);
        inside.index_of_first_ensures('}');
        if let Some(close) = inside.index_of_first('}') {
            if resolve(inside.take(close), record) is Ok {
                lemma_render_failures(inside.skip(close + 1), record);
            }
        }
    }
}

} // verus!
