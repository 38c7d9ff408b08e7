//! Texts as sequences of characters: words, parts, trimming and joining.

use crate::error::ErrorView;
use vstd::prelude::*;
use vstd::slice::slice_subrange;

verus! {

broadcast use vstd::string::group_string_axioms;

/// Whether a character is whitespace: the characters that Unicode gives the
/// property `White_Space`.
pub open spec fn is_space(c: char) -> bool {
    ||| c == ' '
    ||| ('\u{9}' <= c && c <= '\u{d}')
    ||| c == '\u{85}'
    ||| c == '\u{a0}'
    ||| c == '\u{1680}'
    ||| ('\u{2000}' <= c && c <= '\u{200a}')
    ||| c == '\u{2028}'
    ||| c == '\u{2029}'
    ||| c == '\u{202f}'
    ||| c == '\u{205f}'
    ||| c == '\u{3000}'
}

/// Whether a character is whitespace.
pub fn is_whitespace(c: char) -> (r: bool)
    ensures
        r == is_space(c),
{
    c == ' ' || ('\u{9}' <= c && c <= '\u{d}') || c == '\u{85}' || c == '\u{a0}' || c
        == '\u{1680}' || ('\u{2000}' <= c && c <= '\u{200a}') || c == '\u{2028}' || c
        == '\u{2029}' || c == '\u{202f}' || c == '\u{205f}' || c == '\u{3000}'
}

/// The characters of a text, in order.
pub fn chars_of(s: &str) -> (v: Vec<char>)
    ensures
        v@ == s@,
{
    let mut v: Vec<char> = Vec::new();
    for c in it: s.chars()
        invariant
            it.seq() == s@,
            v@ == s@.take(it.index()),
    {
        v.push(c);
    }
    v
}

/// Calls `String::push` of std, of which vstd says nothing. Trusted, not
/// proved: afterwards the text is what it was, with `c` behind it.
#[verifier::external_body]
fn push_char(s: &mut String, c: char)
    ensures
        final(s)@ == old(s)@.push(c),
{
    s.push(c);
}

/// The text that holds the given characters, in order.
pub fn string_of(chars: &[char]) -> (s: String)
    ensures
        s@ == chars@,
{
    let mut s = String::new();
    let mut i: usize = 0;
    while i < chars.len()
        invariant
            i <= chars.len(),
            s@ == chars@.take(i as int),
        decreases chars.len() - i,
    {
        push_char(&mut s, chars[i]);
        i += 1;
    }
    s
}

/// What each text of a sequence holds.
pub open spec fn strings_view(v: Seq<String>) -> Seq<Seq<char>> {
    v.map_values(|s: String| s@)
}

/// What each slice of a sequence holds.
pub open spec fn slices_view(v: Seq<&[char]>) -> Seq<Seq<char>> {
    v.map_values(|s: &[char]| s@)
}

/// No word where `current` is empty, else the word `current`.
pub open spec fn word(current: Seq<char>) -> Seq<Seq<char>> {
    if current.len() == 0 {
        Seq::empty()
    } else {
        seq![current]
    }
}

/// The words of `current + s`, where `current` is the beginning of a word.
pub open spec fn words_from(s: Seq<char>, current: Seq<char>) -> Seq<Seq<char>>
    decreases s.len(),
{
    if s.len() == 0 {
        word(current)
    } else if is_space(s[0]) {
        word(current) + words_from(s.skip(1), Seq::empty())
    } else {
        words_from(s.skip(1), current.push(s[0]))
    }
}

/// The words of a text, in order: its longest runs of characters that are
/// no whitespace.
pub open spec fn words(s: Seq<char>) -> Seq<Seq<char>> {
    words_from(s, Seq::empty())
}

/// The parts of `current + s` between the occurrences of `sep` in `s`.
pub open spec fn split_from(s: Seq<char>, sep: char, current: Seq<char>) -> Seq<Seq<char>>
    decreases s.len(),
{
    if s.len() == 0 {
        seq![current]
    } else if s[0] == sep {
        seq![current] + split_from(s.skip(1), sep, Seq::empty())
    } else {
        split_from(s.skip(1), sep, current.push(s[0]))
    }
}

/// The parts of a text between the occurrences of `sep`, in order: one more
/// than there are occurrences, and each may be empty.
pub open spec fn split(s: Seq<char>, sep: char) -> Seq<Seq<char>> {
    split_from(s, sep, Seq::empty())
}

/// The text without the whitespace at its beginning.
pub open spec fn trim_start(s: Seq<char>) -> Seq<char>
    decreases s.len(),
{
    if s.len() > 0 && is_space(s[0]) {
        trim_start(s.skip(1))
    } else {
        s
    }
}

/// The text without the whitespace at its end.
pub open spec fn trim_end(s: Seq<char>) -> Seq<char>
    decreases s.len(),
{
    if s.len() > 0 && is_space(s.last()) {
        trim_end(s.drop_last())
    } else {
        s
    }
}

/// The text without the whitespace at its beginning and at its end.
pub open spec fn trim(s: Seq<char>) -> Seq<char> {
    trim_end(trim_start(s))
}

/// The parts in order, with `sep` between each two of them.
pub open spec fn join(parts: Seq<Seq<char>>, sep: Seq<char>) -> Seq<char>
    decreases parts.len(),
{
    if parts.len() == 0 {
        Seq::empty()
    } else if parts.len() == 1 {
        parts[0]
    } else {
        join(parts.drop_last(), sep) + sep + parts.last()
    }
}

/// Where `c` first stands in `s`; the length of `s` where it does not.
pub open spec fn position(s: Seq<char>, c: char) -> nat
    decreases s.len(),
{
    if s.len() == 0 || s[0] == c {
        0
    } else {
        1 + position(s.skip(1), c)
    }
}

/// Each part parsed, in order. The first part that fails gives the error.
pub open spec fn parse_each<T>(
    parts: Seq<Seq<char>>,
    parse: spec_fn(Seq<char>) -> Result<T, ErrorView>,
) -> Result<Seq<T>, ErrorView>
    decreases parts.len(),
{
    if parts.len() == 0 {
        Ok(Seq::empty())
    } else {
        match parse_each(parts.drop_last(), parse) {
            Err(e) => Err(e),
            Ok(items) => match parse(parts.last()) {
                Err(e) => Err(e),
                Ok(item) => Ok(items.push(item)),
            },
        }
    }
}

/// An error among the first `k` parts is the error of the whole.
pub proof fn lemma_parse_each_fails<T>(
    parts: Seq<Seq<char>>,
    parse: spec_fn(Seq<char>) -> Result<T, ErrorView>,
    k: int,
)
    requires
        0 <= k <= parts.len(),
        parse_each(parts.take(k), parse) is Err,
    ensures
        parse_each(parts, parse) == parse_each(parts.take(k), parse),
    decreases parts.len(),
{
    if k == parts.len() {
        assert(parts.take(k) =~= parts);
    } else {
        assert(parts.drop_last().take(k) =~= parts.take(k));
        lemma_parse_each_fails(parts.drop_last(), parse, k);
    }
}

/// One more part parsed.
pub proof fn lemma_parse_each_step<T>(
    parts: Seq<Seq<char>>,
    parse: spec_fn(Seq<char>) -> Result<T, ErrorView>,
    k: int,
)
    requires
        0 <= k < parts.len(),
    ensures
        parse_each(parts.take(k + 1), parse) == match parse_each(parts.take(k), parse) {
            Err(e) => Err(e),
            Ok(items) => match parse(parts[k]) {
                Err(e) => Err(e),
                Ok(item) => Ok(items.push(item)),
            },
        },
{
    assert(parts.take(k + 1).drop_last() =~= parts.take(k));
}

/// Where `c` first stands, told by what stands before that place.
pub proof fn lemma_position(s: Seq<char>, c: char, n: int)
    requires
        0 <= n <= s.len(),
        forall|k: int| 0 <= k < n ==> s[k] != c,
        n == s.len() || s[n] == c,
    ensures
        position(s, c) == n,
    decreases s.len(),
{
    if n > 0 {
        lemma_position(s.skip(1), c, n - 1);
    }
}

/// The words of a text, in order.
pub fn split_whitespace<'a>(s: &'a [char]) -> (out: Vec<&'a [char]>)
    ensures
        slices_view(out@) == words(s@),
{
    let mut out: Vec<&'a [char]> = Vec::new();
    let mut start: usize = 0;
    let mut i: usize = 0;
    assert(s@.skip(0) =~= s@);
    assert(s@.subrange(0, 0) =~= Seq::empty());
    while i < s.len()
        invariant
            start <= i <= s.len(),
            words(s@) == slices_view(out@) + words_from(
                s@.skip(i as int),
                s@.subrange(start as int, i as int),
            ),
        decreases s.len() - i,
    {
        let ghost current = s@.subrange(start as int, i as int);
        assert(s@.skip(i as int).skip(1) =~= s@.skip(i + 1));
        if is_whitespace(s[i]) {
            if start < i {
                let part = slice_subrange(s, start, i);
                out.push(part);
            }
            start = i + 1;
            assert(s@.subrange(start as int, i + 1) =~= Seq::empty());
        } else {
            assert(s@.subrange(start as int, i + 1) =~= current.push(s@[i as int]));
        }
        i += 1;
    }
    if start < i {
        let part = slice_subrange(s, start, i);
        out.push(part);
    }
    out
}

/// The parts of a text between the occurrences of `sep`, in order.
pub fn split_at_each<'a>(s: &'a [char], sep: char) -> (out: Vec<&'a [char]>)
    ensures
        slices_view(out@) == split(s@, sep),
{
    let mut out: Vec<&'a [char]> = Vec::new();
    let mut start: usize = 0;
    let mut i: usize = 0;
    assert(s@.skip(0) =~= s@);
    assert(s@.subrange(0, 0) =~= Seq::empty());
    while i < s.len()
        invariant
            start <= i <= s.len(),
            split(s@, sep) == slices_view(out@) + split_from(
                s@.skip(i as int),
                sep,
                s@.subrange(start as int, i as int),
            ),
        decreases s.len() - i,
    {
        let ghost current = s@.subrange(start as int, i as int);
        assert(s@.skip(i as int).skip(1) =~= s@.skip(i + 1));
        if s[i] == sep {
            let part = slice_subrange(s, start, i);
            out.push(part);
            start = i + 1;
            assert(s@.subrange(start as int, i + 1) =~= Seq::empty());
        } else {
            assert(s@.subrange(start as int, i + 1) =~= current.push(s@[i as int]));
        }
        i += 1;
    }
    let part = slice_subrange(s, start, i);
    out.push(part);
    out
}

/// The text without the whitespace at its beginning and at its end.
pub fn trimmed<'a>(s: &'a [char]) -> (out: &'a [char])
    ensures
        out@ == trim(s@),
{
    let mut a: usize = 0;
    assert(s@.skip(0) =~= s@);
    while a < s.len() && is_whitespace(s[a])
        invariant
            a <= s.len(),
            trim_start(s@) == trim_start(s@.skip(a as int)),
        decreases s.len() - a,
    {
        assert(s@.skip(a as int).skip(1) =~= s@.skip(a + 1));
        a += 1;
    }
    let mut b: usize = s.len();
    while b > a && is_whitespace(s[b - 1])
        invariant
            a <= b <= s.len(),
            trim(s@) == trim_end(s@.subrange(a as int, b as int)),
        decreases b,
    {
        assert(s@.subrange(a as int, b as int).drop_last() =~= s@.subrange(a as int, b - 1));
        b -= 1;
    }
    slice_subrange(s, a, b)
}

/// The texts in order, with `sep` between each two of them.
pub fn join_strings(parts: &Vec<String>, sep: &str) -> (out: String)
    ensures
        out@ == join(strings_view(parts@), sep@),
{
    let mut out = String::new();
    let mut i: usize = 0;
    let ghost texts = strings_view(parts@);
    while i < parts.len()
        invariant
            i <= parts.len(),
            texts == strings_view(parts@),
            out@ == join(texts.take(i as int), sep@),
        decreases parts.len() - i,
    {
        assert(texts.take(i + 1).drop_last() =~= texts.take(i as int));
        if i > 0 {
            out.append(sep);
        }
        out.append(parts[i].as_str());
        i += 1;
    }
    assert(texts.take(parts.len() as int) =~= texts);
    out
}

} // verus!
