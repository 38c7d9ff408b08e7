//! What holds of the words and parts of a text, and of texts that are
//! joined.

use crate::error::ErrorView;
use crate::text::{
    is_space, join, parse_each, position, split, split_from, trim, word, words, words_from,
};
use vstd::prelude::*;

verus! {

/// No character of the text is whitespace.
pub open spec fn spaceless(s: Seq<char>) -> bool {
    forall|i: int| 0 <= i < s.len() ==> !is_space(#[trigger] s[i])
}

/// The character `c` does not stand in the text.
pub open spec fn free_of(s: Seq<char>, c: char) -> bool {
    forall|i: int| 0 <= i < s.len() ==> #[trigger] s[i] != c
}

/// A text without whitespace holds no space and no line break.
pub proof fn lemma_spaceless_is_free(s: Seq<char>)
    requires
        spaceless(s),
    ensures
        free_of(s, ' '),
        free_of(s, '\n'),
{
}

/// What is free of `c` stays so when put together.
pub proof fn lemma_concat_free_of(a: Seq<char>, b: Seq<char>, c: char)
    requires
        free_of(a, c),
        free_of(b, c),
    ensures
        free_of(a + b, c),
{
}

/// A word that is whole goes to the word begun.
pub proof fn lemma_words_take_word(w: Seq<char>, rest: Seq<char>, current: Seq<char>)
    requires
        spaceless(w),
    ensures
        words_from(w + rest, current) == words_from(rest, current + w),
    decreases w.len(),
{
    if w.len() > 0 {
        let s = w + rest;
        assert(s.skip(1) =~= w.skip(1) + rest);
        lemma_words_take_word(w.skip(1), rest, current.push(w[0]));
        assert(current.push(w[0]) + w.skip(1) =~= current + w);
    }
}

/// The words of two texts with whitespace between them are the words of
/// the one and then those of the other.
pub proof fn lemma_words_around_space(x: Seq<char>, sp: char, y: Seq<char>, current: Seq<char>)
    requires
        is_space(sp),
    ensures
        words_from(x + seq![sp] + y, current) == words_from(x, current) + words(y),
    decreases x.len(),
{
    let s = x + seq![sp] + y;
    if x.len() == 0 {
        assert(s.skip(1) =~= y);
    } else {
        assert(s.skip(1) =~= x.skip(1) + seq![sp] + y);
        if is_space(x[0]) {
            lemma_words_around_space(x.skip(1), sp, y, Seq::empty());
        } else {
            lemma_words_around_space(x.skip(1), sp, y, current.push(x[0]));
        }
    }
}

/// Words joined by single spaces are the words of the text that they make.
pub proof fn lemma_words_of_joined(ws: Seq<Seq<char>>)
    requires
        forall|i: int| 0 <= i < ws.len() ==> (#[trigger] ws[i]).len() > 0 && spaceless(ws[i]),
    ensures
        words(join(ws, seq![' '])) == ws,
    decreases ws.len(),
{
    if ws.len() == 1 {
        lemma_words_take_word(ws[0], Seq::empty(), Seq::empty());
    } else if ws.len() > 1 {
        let init = ws.drop_last();
        lemma_words_of_joined(init);
        lemma_words_around_space(join(init, seq![' ']), ' ', ws.last(), Seq::empty());
        lemma_words_take_word(ws.last(), Seq::empty(), Seq::empty());
    }
}

/// A space before a text and one behind it change none of its words.
pub proof fn lemma_words_padded(t: Seq<char>)
    ensures
        words(seq![' '] + t + seq![' ']) == words(t),
{
    let s = seq![' '] + t + seq![' '];
    assert(s.skip(1) =~= t + seq![' '] + Seq::<char>::empty());
    lemma_words_around_space(t, ' ', Seq::empty(), Seq::empty());
}

/// Each word is not empty, holds no whitespace, and holds nothing that the
/// text does not hold.
pub proof fn lemma_words_are_words(s: Seq<char>, current: Seq<char>, c: char)
    requires
        spaceless(current),
        free_of(current, c),
        free_of(s, c),
    ensures
        forall|k: int|
            0 <= k < words_from(s, current).len() ==> {
                let w = #[trigger] words_from(s, current)[k];
                w.len() > 0 && spaceless(w) && free_of(w, c)
            },
    decreases s.len(),
{
    if s.len() > 0 {
        if is_space(s[0]) {
            lemma_words_are_words(s.skip(1), Seq::empty(), c);
            assert(words_from(s, current) == word(current) + words_from(s.skip(1), Seq::empty()));
        } else {
            lemma_words_are_words(s.skip(1), current.push(s[0]), c);
            assert(words_from(s, current) == words_from(s.skip(1), current.push(s[0])));
        }
    }
}

/// A text without `sep` is one part.
pub proof fn lemma_split_nothing(y: Seq<char>, sep: char, current: Seq<char>)
    requires
        free_of(y, sep),
    ensures
        split_from(y, sep, current) == seq![current + y],
    decreases y.len(),
{
    if y.len() > 0 {
        lemma_split_nothing(y.skip(1), sep, current.push(y[0]));
        assert(current.push(y[0]) + y.skip(1) =~= current + y);
    }
}

/// The parts of two texts with `sep` between them are the parts of the one
/// and then those of the other.
pub proof fn lemma_split_around_sep(x: Seq<char>, sep: char, y: Seq<char>, current: Seq<char>)
    ensures
        split_from(x + seq![sep] + y, sep, current) == split_from(x, sep, current) + split(y, sep),
    decreases x.len(),
{
    let s = x + seq![sep] + y;
    if x.len() == 0 {
        assert(s.skip(1) =~= y);
    } else {
        assert(s.skip(1) =~= x.skip(1) + seq![sep] + y);
        if x[0] == sep {
            lemma_split_around_sep(x.skip(1), sep, y, Seq::empty());
        } else {
            lemma_split_around_sep(x.skip(1), sep, y, current.push(x[0]));
        }
    }
}

/// Parts without `sep`, joined by `sep`, are the parts of the text that
/// they make.
pub proof fn lemma_split_of_joined(parts: Seq<Seq<char>>, sep: char)
    requires
        parts.len() > 0,
        forall|i: int| 0 <= i < parts.len() ==> free_of(#[trigger] parts[i], sep),
    ensures
        split(join(parts, seq![sep]), sep) == parts,
    decreases parts.len(),
{
    if parts.len() == 1 {
        lemma_split_nothing(parts[0], sep, Seq::empty());
    } else {
        let init = parts.drop_last();
        lemma_split_of_joined(init, sep);
        lemma_split_around_sep(join(init, seq![sep]), sep, parts.last(), Seq::empty());
        lemma_split_nothing(parts.last(), sep, Seq::empty());
    }
}

/// A text before parts that are joined stands before their join.
pub proof fn lemma_join_after(first: Seq<char>, parts: Seq<Seq<char>>, sep: Seq<char>)
    requires
        parts.len() > 0,
    ensures
        join(seq![first] + parts, sep) == first + sep + join(parts, sep),
    decreases parts.len(),
{
    let all = seq![first] + parts;
    if parts.len() == 1 {
        assert(all.drop_last() =~= seq![first]);
        assert(join(seq![first], sep) =~= first);
    } else {
        assert(all.drop_last() =~= seq![first] + parts.drop_last());
        lemma_join_after(first, parts.drop_last(), sep);
    }
}

/// The parts of `current + s`, joined by `sep`, are `current + s`.
pub proof fn lemma_join_of_split_from(s: Seq<char>, sep: char, current: Seq<char>)
    ensures
        split_from(s, sep, current).len() > 0,
        join(split_from(s, sep, current), seq![sep]) == current + s,
    decreases s.len(),
{
    if s.len() > 0 {
        if s[0] == sep {
            let rest = split_from(s.skip(1), sep, Seq::empty());
            lemma_join_of_split_from(s.skip(1), sep, Seq::empty());
            lemma_join_after(current, rest, seq![sep]);
        } else {
            lemma_join_of_split_from(s.skip(1), sep, current.push(s[0]));
        }
    }
}

/// Splitting loses nothing: the parts of a text, joined by `sep`, are the
/// text.
pub proof fn lemma_join_of_split(s: Seq<char>, sep: char)
    ensures
        join(split(s, sep), seq![sep]) == s,
{
    lemma_join_of_split_from(s, sep, Seq::empty());
}

/// No part holds `sep`.
pub proof fn lemma_split_parts_free(s: Seq<char>, sep: char, current: Seq<char>)
    requires
        free_of(current, sep),
    ensures
        split_from(s, sep, current).len() > 0,
        forall|k: int|
            0 <= k < split_from(s, sep, current).len() ==> free_of(
                #[trigger] split_from(s, sep, current)[k],
                sep,
            ),
    decreases s.len(),
{
    if s.len() > 0 {
        if s[0] == sep {
            lemma_split_parts_free(s.skip(1), sep, Seq::empty());
        } else {
            lemma_split_parts_free(s.skip(1), sep, current.push(s[0]));
        }
    }
}

/// What is free of `c` is so when joined by what is free of `c`.
pub proof fn lemma_join_free_of(parts: Seq<Seq<char>>, sep: Seq<char>, c: char)
    requires
        free_of(sep, c),
        forall|i: int| 0 <= i < parts.len() ==> free_of(#[trigger] parts[i], c),
    ensures
        free_of(join(parts, sep), c),
    decreases parts.len(),
{
    if parts.len() >= 2 {
        lemma_join_free_of(parts.drop_last(), sep, c);
        lemma_concat_free_of(join(parts.drop_last(), sep), sep, c);
        lemma_concat_free_of(join(parts.drop_last(), sep) + sep, parts.last(), c);
    }
}

/// Nothing is trimmed from a text that neither begins nor ends with
/// whitespace.
pub proof fn lemma_trim_nothing(s: Seq<char>)
    requires
        s.len() > 0,
        !is_space(s[0]),
        !is_space(s.last()),
    ensures
        trim(s) == s,
{
}

/// Where `c` first stands, nothing before it is `c`.
pub proof fn lemma_position_first(s: Seq<char>, c: char)
    ensures
        position(s, c) <= s.len(),
        forall|k: int| 0 <= k < position(s, c) ==> #[trigger] s[k] != c,
        position(s, c) < s.len() ==> s[position(s, c) as int] == c,
    decreases s.len(),
{
    if s.len() == 0 || s[0] == c {
    } else {
        lemma_position_first(s.skip(1), c);
        assert forall|k: int| 0 <= k < position(s, c) implies #[trigger] s[k] != c by {
            if k > 0 {
                assert(s.skip(1)[k - 1] == s[k]);
            }
        }
    }
}

/// Parts that each parse give the items in their order.
pub proof fn lemma_parse_each_ok<T>(
    parts: Seq<Seq<char>>,
    parse: spec_fn(Seq<char>) -> Result<T, ErrorView>,
    items: Seq<T>,
)
    requires
        items.len() == parts.len(),
        forall|i: int|
            0 <= i < parts.len() ==> parse(#[trigger] parts[i]) == Ok::<T, ErrorView>(items[i]),
    ensures
        parse_each(parts, parse) == Ok::<Seq<T>, ErrorView>(items),
    decreases parts.len(),
{
    if parts.len() == 0 {
        assert(items =~= Seq::empty());
    } else {
        lemma_parse_each_ok(parts.drop_last(), parse, items.drop_last());
        assert(items.drop_last().push(items.last()) =~= items);
    }
}

/// Where the whole parses, each part does, and gives the item in its place.
pub proof fn lemma_parse_each_items<T>(
    parts: Seq<Seq<char>>,
    parse: spec_fn(Seq<char>) -> Result<T, ErrorView>,
)
    requires
        parse_each(parts, parse) is Ok,
    ensures
        parse_each(parts, parse)->Ok_0.len() == parts.len(),
        forall|i: int|
            0 <= i < parts.len() ==> parse(#[trigger] parts[i]) == Ok::<T, ErrorView>(
                parse_each(parts, parse)->Ok_0[i],
            ),
    decreases parts.len(),
{
    if parts.len() > 0 {
        let init = parts.drop_last();
        lemma_parse_each_items(init, parse);
        let items = parse_each(parts, parse)->Ok_0;
        assert forall|i: int| 0 <= i < parts.len() implies parse(#[trigger] parts[i]) == Ok::<
            T,
            ErrorView,
        >(items[i]) by {
            if i < init.len() {
                assert(init[i] == parts[i]);
            }
        }
    }
}

} // verus!
