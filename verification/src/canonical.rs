//! The canonical form: what is read from a text is written out as a text
//! that is read as the same and written out as itself.

use crate::bar::{bar_text, chord_parser, chord_texts, parse_bar};
use crate::bar_line::{bar_line_text, bar_parser, bar_texts, parse_bar_line};
use crate::chart::{bar_line_parser, chart_text, line_texts, parse_chart, validated_text};
use crate::chord::{chord_text, note_len, parse_bass, parse_chord, ChordView};
use crate::error::ErrorView;
use crate::note::{
    lemma_note_text_chars, lemma_note_text_parses, lemma_parsed_note_is_valid, parse_note_text,
    Accidental, Spelling,
};
use crate::text::{join, lemma_position, position, split, trim, words};
use crate::text_laws::{
    free_of, lemma_concat_free_of, lemma_join_free_of, lemma_parse_each_items,
    lemma_parse_each_ok, lemma_position_first, lemma_spaceless_is_free, lemma_split_of_joined,
    lemma_split_parts_free, lemma_trim_nothing, lemma_words_are_words, lemma_words_of_joined,
    lemma_words_padded, spaceless,
};
use vstd::prelude::*;

verus! {

/// A chord as a chart holds it: its notes are valid spellings, its symbols
/// hold no whitespace, no `|` and no `/`, and behind a note without
/// accidental they do not begin with one.
pub open spec fn canonical_chord(chord: ChordView) -> bool {
    &&& chord.note.is_valid()
    &&& chord.bass_note matches Some(note) ==> note.is_valid()
    &&& spaceless(chord.symbols)
    &&& free_of(chord.symbols, '|')
    &&& free_of(chord.symbols, '/')
    &&& chord.note.accidental == Accidental::Natural && chord.symbols.len() > 0
        ==> chord.symbols[0] != 'b' && chord.symbols[0] != 'B' && chord.symbols[0] != '#'
}

/// A bar of canonical chords.
pub open spec fn canonical_bar(bar: Seq<ChordView>) -> bool {
    forall|i: int| 0 <= i < bar.len() ==> canonical_chord(#[trigger] bar[i])
}

/// A bar line of canonical bars.
pub open spec fn canonical_bar_line(line: Seq<Seq<ChordView>>) -> bool {
    forall|i: int| 0 <= i < line.len() ==> canonical_bar(#[trigger] line[i])
}

/// A chart of canonical bar lines.
pub open spec fn canonical_chart(chart: Seq<Seq<Seq<ChordView>>>) -> bool {
    forall|i: int| 0 <= i < chart.len() ==> canonical_bar_line(#[trigger] chart[i])
}

/// The bar lines of a chart that have a bar, in order.
pub open spec fn lines_with_bars(chart: Seq<Seq<Seq<ChordView>>>) -> Seq<Seq<Seq<ChordView>>>
    decreases chart.len(),
{
    if chart.len() == 0 {
        Seq::empty()
    } else if chart.last().len() == 0 {
        lines_with_bars(chart.drop_last())
    } else {
        lines_with_bars(chart.drop_last()).push(chart.last())
    }
}

/// Each text with a space before it and one behind it.
pub open spec fn padded(parts: Seq<Seq<char>>) -> Seq<Seq<char>> {
    parts.map_values(|part: Seq<char>| seq![' '] + part + seq![' '])
}

/// A word that parses as a chord, and holds no `|`, gives a canonical chord.
pub proof fn lemma_parsed_chord_is_canonical(s: Seq<char>)
    requires
        parse_chord(s) is Ok,
        spaceless(s),
        free_of(s, '|'),
    ensures
        canonical_chord(parse_chord(s)->Ok_0),
{
    let chord = parse_chord(s)->Ok_0;
    let natural_ch = if s.len() > 0 {
        Some(s[0])
    } else {
        None
    };
    let accidental_ch = if s.len() > 1 {
        Some(s[1])
    } else {
        None
    };
    lemma_parsed_note_is_valid(natural_ch, accidental_ch);
    let note = chord.note;
    let from = note_len(note);
    let rest = s.skip(from);
    lemma_position_first(rest, '/');
    let cut = position(rest, '/') as int;
    let bass_text = if cut < rest.len() {
        rest.skip(cut + 1)
    } else {
        Seq::empty()
    };
    if chord.bass_note is Some {
        lemma_parsed_note_is_valid(
            if bass_text.len() > 0 {
                Some(bass_text[0])
            } else {
                None
            },
            if bass_text.len() > 1 {
                Some(bass_text[1])
            } else {
                None
            },
        );
    }
}

/// The canonical text of a canonical chord is one word without `|`.
pub proof fn lemma_chord_text_is_word(chord: ChordView)
    requires
        canonical_chord(chord),
    ensures
        chord_text(chord).len() > 0,
        spaceless(chord_text(chord)),
        free_of(chord_text(chord), '|'),
{
    lemma_note_text_chars(chord.note);
    if let Some(note) = chord.bass_note {
        lemma_note_text_chars(note);
    }
}

/// What stands behind the note in a chord's canonical text: the symbols,
/// and the bass note behind a `/`.
pub open spec fn chord_rest(chord: ChordView) -> Seq<char> {
    chord.symbols + match chord.bass_note {
        Some(note) => seq!['/'] + note.text(),
        None => Seq::empty(),
    }
}

/// What stands behind the note of a canonical chord is read as its symbols
/// and its bass note.
pub proof fn lemma_chord_rest_parses(chord: ChordView)
    requires
        canonical_chord(chord),
    ensures
        position(chord_rest(chord), '/') == chord.symbols.len(),
        chord_rest(chord).take(chord.symbols.len() as int) == chord.symbols,
        chord.bass_note is None ==> chord_rest(chord).len() == chord.symbols.len(),
        chord.bass_note is Some ==> chord_rest(chord).len() > chord.symbols.len() && parse_bass(
            chord_rest(chord).skip(chord.symbols.len() as int + 1),
        ) == Ok::<Option<Spelling>, ErrorView>(chord.bass_note),
        chord.symbols.len() == 0 && chord_rest(chord).len() > 0 ==> chord_rest(chord)[0] == '/',
        chord.symbols.len() > 0 ==> chord_rest(chord)[0] == chord.symbols[0],
{
    lemma_position(chord_rest(chord), '/', chord.symbols.len() as int);
    if let Some(note) = chord.bass_note {
        lemma_note_text_chars(note);
        assert(parse_note_text(note.text()) == Ok::<Spelling, ErrorView>(note)) by {
            lemma_note_text_parses(note, Seq::empty());
        }
    }
}

/// The canonical text of a canonical chord is read as that chord.
pub proof fn lemma_chord_text_parses(chord: ChordView)
    requires
        canonical_chord(chord),
    ensures
        parse_chord(chord_text(chord)) == Ok::<ChordView, ErrorView>(chord),
{
    let rest = chord_rest(chord);
    let t = chord_text(chord);
    lemma_chord_rest_parses(chord);
    assert(parse_note_text(t) == Ok::<Spelling, ErrorView>(chord.note)) by {
        lemma_note_text_parses(chord.note, rest);
    }
    assert(t.skip(note_len(chord.note)) =~= rest) by {
        lemma_note_text_chars(chord.note);
    }
}

/// A text without `|` that parses as a bar gives a canonical bar.
pub proof fn lemma_parsed_bar_is_canonical(s: Seq<char>)
    requires
        parse_bar(s) is Ok,
        free_of(s, '|'),
    ensures
        canonical_bar(parse_bar(s)->Ok_0),
{
    let bar = parse_bar(s)->Ok_0;
    lemma_words_are_words(s, Seq::empty(), '|');
    lemma_parse_each_items(words(s), chord_parser());
    assert forall|i: int| 0 <= i < bar.len() implies canonical_chord(#[trigger] bar[i]) by {
        let w = words(s)[i];
        lemma_parsed_chord_is_canonical(w);
    }
}

/// The canonical text of a canonical bar is read as that bar, also with a
/// space before it and one behind it, and holds neither `|` nor a line
/// break.
pub proof fn lemma_bar_text_parses(bar: Seq<ChordView>)
    requires
        canonical_bar(bar),
    ensures
        parse_bar(bar_text(bar)) == Ok::<Seq<ChordView>, ErrorView>(bar),
        parse_bar(seq![' '] + bar_text(bar) + seq![' ']) == Ok::<Seq<ChordView>, ErrorView>(bar),
        free_of(bar_text(bar), '|'),
        free_of(bar_text(bar), '\n'),
{
    let texts = chord_texts(bar);
    assert forall|i: int| 0 <= i < texts.len() implies (#[trigger] texts[i]).len() > 0
        && spaceless(texts[i]) && free_of(texts[i], '|') && free_of(texts[i], '\n')
        && chord_parser()(texts[i]) == Ok::<ChordView, ErrorView>(bar[i]) by {
        lemma_chord_text_is_word(bar[i]);
        lemma_chord_text_parses(bar[i]);
        lemma_spaceless_is_free(texts[i]);
    }
    lemma_words_of_joined(texts);
    lemma_words_padded(bar_text(bar));
    lemma_parse_each_ok(texts, chord_parser(), bar);
    lemma_join_free_of(texts, seq![' '], '|');
    lemma_join_free_of(texts, seq![' '], '\n');
}

/// A text that parses as a bar line gives a canonical bar line.
pub proof fn lemma_parsed_bar_line_is_canonical(s: Seq<char>)
    requires
        parse_bar_line(s) is Ok,
    ensures
        canonical_bar_line(parse_bar_line(s)->Ok_0),
{
    let line = parse_bar_line(s)->Ok_0;
    let t = trim(s);
    if t.len() > 0 {
        let inner = t.subrange(1, t.len() - 1);
        let parts = split(inner, '|');
        lemma_split_parts_free(inner, '|', Seq::empty());
        lemma_parse_each_items(parts, bar_parser());
        assert forall|i: int| 0 <= i < line.len() implies canonical_bar(#[trigger] line[i]) by {
            lemma_parsed_bar_is_canonical(parts[i]);
        }
    }
}

/// Texts joined by ` | `, with a space before the whole and one behind it,
/// are the padded texts joined by `|`.
pub proof fn lemma_join_padded(parts: Seq<Seq<char>>)
    requires
        parts.len() > 0,
    ensures
        seq![' '] + join(parts, seq![' ', '|', ' ']) + seq![' '] == join(padded(parts), seq!['|']),
    decreases parts.len(),
{
    if parts.len() > 1 {
        let init = parts.drop_last();
        lemma_join_padded(init);
        assert(padded(parts).drop_last() =~= padded(init));
    }
}

/// The canonical text of a canonical bar line is read as that bar line.
/// That of a line with a bar is not empty and holds no line break.
pub proof fn lemma_bar_line_text_parses(line: Seq<Seq<ChordView>>)
    requires
        canonical_bar_line(line),
    ensures
        parse_bar_line(bar_line_text(line)) == Ok::<Seq<Seq<ChordView>>, ErrorView>(line),
        free_of(bar_line_text(line), '\n'),
        line.len() > 0 ==> bar_line_text(line).len() > 0,
{
    if line.len() == 0 {
        assert(line =~= Seq::empty());
    } else {
        let t = bar_line_text(line);
        let texts = bar_texts(line);
        let parts = padded(texts);
        lemma_join_padded(texts);
        let inner = join(parts, seq!['|']);
        assert(t =~= seq!['|'] + inner + seq!['|']);
        lemma_trim_nothing(t);
        assert(t.subrange(1, t.len() - 1) =~= inner);
        assert forall|i: int| 0 <= i < parts.len() implies free_of(#[trigger] parts[i], '|')
            && free_of(parts[i], '\n') && bar_parser()(parts[i]) == Ok::<
            Seq<ChordView>,
            ErrorView,
        >(line[i]) by {
            lemma_bar_text_parses(line[i]);
            lemma_concat_free_of(seq![' '], bar_text(line[i]), '|');
            lemma_concat_free_of(seq![' '] + bar_text(line[i]), seq![' '], '|');
            lemma_concat_free_of(seq![' '], bar_text(line[i]), '\n');
            lemma_concat_free_of(seq![' '] + bar_text(line[i]), seq![' '], '\n');
        }
        lemma_split_of_joined(parts, '|');
        lemma_parse_each_ok(parts, bar_parser(), line);
        lemma_join_free_of(parts, seq!['|'], '\n');
        lemma_concat_free_of(seq!['|'], inner, '\n');
        lemma_concat_free_of(seq!['|'] + inner, seq!['|'], '\n');
    }
}

/// A text that parses as a chart gives a canonical chart.
pub proof fn lemma_parsed_chart_is_canonical(s: Seq<char>)
    requires
        parse_chart(s) is Ok,
    ensures
        canonical_chart(parse_chart(s)->Ok_0),
{
    let chart = parse_chart(s)->Ok_0;
    let parts = split(s, '\n');
    lemma_parse_each_items(parts, bar_line_parser());
    assert forall|i: int| 0 <= i < chart.len() implies canonical_bar_line(#[trigger] chart[i]) by {
        lemma_parsed_bar_line_is_canonical(parts[i]);
    }
}

/// The texts of a chart's lines are those of its lines with bars, which
/// have the same texts once more.
pub proof fn lemma_lines_with_bars(chart: Seq<Seq<Seq<ChordView>>>)
    requires
        canonical_chart(chart),
    ensures
        canonical_chart(lines_with_bars(chart)),
        line_texts(chart).len() == lines_with_bars(chart).len(),
        forall|i: int|
            0 <= i < lines_with_bars(chart).len() ==> (#[trigger] lines_with_bars(chart)[i]).len()
                > 0 && line_texts(chart)[i] == bar_line_text(lines_with_bars(chart)[i]),
        line_texts(lines_with_bars(chart)) == line_texts(chart),
    decreases chart.len(),
{
    if chart.len() > 0 {
        let init = chart.drop_last();
        lemma_lines_with_bars(init);
        if chart.last().len() > 0 {
            let kept = lines_with_bars(chart);
            assert(kept.drop_last() =~= lines_with_bars(init));
        }
    }
}

/// The canonical text of a canonical chart is read as a chart with the
/// same canonical text: as its lines with bars, where it has one, and
/// else as one line without bars.
pub proof fn lemma_chart_text_parses(chart: Seq<Seq<Seq<ChordView>>>)
    requires
        canonical_chart(chart),
    ensures
        validated_text(chart_text(chart)) == Ok::<Seq<char>, ErrorView>(chart_text(chart)),
        parse_chart(chart_text(chart)) == Ok::<Seq<Seq<Seq<ChordView>>>, ErrorView>(
            if lines_with_bars(chart).len() > 0 {
                lines_with_bars(chart)
            } else {
                seq![Seq::empty()]
            },
        ),
{
    let texts = line_texts(chart);
    let kept = lines_with_bars(chart);
    lemma_lines_with_bars(chart);
    if texts.len() == 0 {
        let blank = Seq::<Seq<ChordView>>::empty();
        lemma_bar_line_text_parses(blank);
        let parts = seq![Seq::<char>::empty()];
        lemma_parse_each_ok(parts, bar_line_parser(), seq![blank]);
        assert(seq![blank].drop_last() =~= Seq::empty());
        assert(line_texts(Seq::<Seq<Seq<ChordView>>>::empty()) =~= Seq::empty());
    } else {
        assert forall|i: int| 0 <= i < texts.len() implies free_of(#[trigger] texts[i], '\n')
            && bar_line_parser()(texts[i]) == Ok::<Seq<Seq<ChordView>>, ErrorView>(kept[i]) by {
            lemma_bar_line_text_parses(kept[i]);
        }
        lemma_split_of_joined(texts, '\n');
        lemma_parse_each_ok(texts, bar_line_parser(), kept);
    }
}

/// The canonical form is a fixed point: a text that is read as a chart is
/// written out as a text that is read as a chart and written out as itself.
pub proof fn lemma_validated_text_is_fixed(text: Seq<char>)
    requires
        validated_text(text) is Ok,
    ensures
        validated_text(validated_text(text)->Ok_0) == validated_text(text),
{
    lemma_parsed_chart_is_canonical(text);
    lemma_chart_text_parses(parse_chart(text)->Ok_0);
}

} // verus!
