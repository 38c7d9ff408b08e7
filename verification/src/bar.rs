//! Bars: chords separated by whitespace.

use crate::chord::{chord_text, parse_chord, transposed_chord, Chord, ChordView};
use crate::error::{result_is, Error, ErrorView};
use crate::text::{
    chars_of, join, join_strings, lemma_parse_each_fails, lemma_parse_each_step, parse_each,
    slices_view, split_whitespace, strings_view, words,
};
use crate::transpose::{Scale, Transpose};
use vstd::prelude::*;

verus! {

/// Chords in the order in which they are played.
#[derive(Debug)]
pub struct Bar(Vec<Chord>);

/// What each chord of a sequence holds.
pub open spec fn chords_view(chords: Seq<Chord>) -> Seq<ChordView> {
    chords.map_values(|chord: Chord| chord@)
}

impl View for Bar {
    type V = Seq<ChordView>;

    closed spec fn view(&self) -> Seq<ChordView> {
        chords_view(self.0@)
    }
}

/// [`parse_chord`] as a value.
pub open spec fn chord_parser() -> spec_fn(Seq<char>) -> Result<ChordView, ErrorView> {
    |s: Seq<char>| parse_chord(s)
}

/// The bar that a text spells: one chord for each of its words.
pub open spec fn parse_bar(s: Seq<char>) -> Result<Seq<ChordView>, ErrorView> {
    parse_each(words(s), chord_parser())
}

/// The canonical text of each chord.
pub open spec fn chord_texts(bar: Seq<ChordView>) -> Seq<Seq<char>> {
    bar.map_values(|chord: ChordView| chord_text(chord))
}

/// The canonical text of a bar: its chords with one space between each two.
pub open spec fn bar_text(bar: Seq<ChordView>) -> Seq<char> {
    join(chord_texts(bar), seq![' '])
}

/// The bar with each chord transposed.
pub open spec fn transposed_bar(bar: Seq<ChordView>, semitone_incr: int, scale: Scale) -> Seq<
    ChordView,
> {
    bar.map_values(|chord: ChordView| transposed_chord(chord, semitone_incr, scale))
}

impl Bar {
    /// Reads a bar from its characters.
    pub fn parse(s: &[char]) -> (r: Result<Bar, Error>)
        ensures
            result_is(r, parse_bar(s@)),
    {
        let tokens = split_whitespace(s);
        let ghost parts = slices_view(tokens@);
        let mut chords: Vec<Chord> = Vec::new();
        let mut i: usize = 0;
        assert(chords_view(chords@) =~= Seq::empty());
        while i < tokens.len()
            invariant
                i <= tokens.len(),
                parts == slices_view(tokens@),
                parts == words(s@),
                parse_each(parts.take(i as int), chord_parser()) == Ok::<Seq<ChordView>, ErrorView>(
                    chords_view(chords@),
                ),
            decreases tokens.len() - i,
        {
            proof {
                lemma_parse_each_step(parts, chord_parser(), i as int);
            }
            let ghost before = chords_view(chords@);
            match Chord::parse(tokens[i]) {
                Ok(chord) => {
                    chords.push(chord);
                    assert(chords_view(chords@) =~= before.push(chord@));
                },
                Err(e) => {
                    proof {
                        lemma_parse_each_fails(parts, chord_parser(), i + 1);
                    }
                    return Err(e);
                },
            }
            i += 1;
        }
        assert(parts.take(tokens.len() as int) =~= parts);
        Ok(Bar(chords))
    }

    /// Reads a bar from its text.
    pub fn from_str(s: &str) -> (r: Result<Bar, Error>)
        ensures
            result_is(r, parse_bar(s@)),
    {
        let chars = chars_of(s);
        Bar::parse(chars.as_slice())
    }

    /// The canonical text of the bar.
    pub fn to_string(&self) -> (s: String)
        ensures
            s@ == bar_text(self@),
    {
        let mut texts: Vec<String> = Vec::new();
        let mut i: usize = 0;
        while i < self.0.len()
            invariant
                i <= self.0.len(),
                strings_view(texts@) == chord_texts(self@).take(i as int),
            decreases self.0.len() - i,
        {
            let ghost before = strings_view(texts@);
            let text = self.0[i].to_string();
            texts.push(text);
            assert(strings_view(texts@) =~= before.push(text@));
            i += 1;
        }
        assert(chord_texts(self@).take(self.0.len() as int) =~= chord_texts(self@));
        proof {
            reveal_strlit(" ");
        }
        assert(" "@ =~= seq![' ']);
        join_strings(&texts, " ")
    }
}

impl Transpose for Bar {
    open spec fn transposed(v: Seq<ChordView>, semitone_incr: int, scale: Scale) -> Seq<ChordView> {
        transposed_bar(v, semitone_incr, scale)
    }

    fn transpose(&self, semitone_incr: &i32, scale: &Scale) -> (r: Bar) {
        let mut chords: Vec<Chord> = Vec::new();
        let mut i: usize = 0;
        while i < self.0.len()
            invariant
                i <= self.0.len(),
                chords_view(chords@) == transposed_bar(self@, *semitone_incr as int, *scale).take(
                    i as int,
                ),
            decreases self.0.len() - i,
        {
            let ghost before = chords_view(chords@);
            let chord = self.0[i].transpose(semitone_incr, scale);
            chords.push(chord);
            assert(chords_view(chords@) =~= before.push(chord@));
            i += 1;
        }
        assert(transposed_bar(self@, *semitone_incr as int, *scale).take(self.0.len() as int)
            =~= transposed_bar(self@, *semitone_incr as int, *scale));
        Bar(chords)
    }
}

} // verus!
