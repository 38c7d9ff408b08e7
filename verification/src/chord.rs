//! Chords: a note, symbols that are kept as they are written, and an
//! optional bass note.

use crate::error::{result_is, Error, ErrorView};
use crate::note::{parse_note_text, Accidental, Note, Spelling};
use crate::text::{chars_of, lemma_position, position, string_of};
use crate::transpose::{Scale, Transpose};
use vstd::prelude::*;
use vstd::slice::slice_subrange;

verus! {

/// What a [`Chord`] holds.
pub struct ChordView {
    pub note: Spelling,
    pub symbols: Seq<char>,
    pub bass_note: Option<Spelling>,
}

/// A note, the symbols behind it, which are kept as they are written, and
/// the bass note behind a `/`, if there is one.
#[derive(Debug, PartialEq, Eq)]
pub struct Chord {
    note: Note,
    symbols: String,
    bass_note: Option<Note>,
}

impl View for Chord {
    type V = ChordView;

    closed spec fn view(&self) -> ChordView {
        ChordView {
            note: self.note@,
            symbols: self.symbols@,
            bass_note: match self.bass_note {
                Some(note) => Some(note@),
                None => None,
            },
        }
    }
}

/// How many characters of a chord's text its note takes: the accidental
/// counts where there is one.
pub open spec fn note_len(note: Spelling) -> int {
    if note.accidental == Accidental::Natural {
        1
    } else {
        2
    }
}

/// The bass note that the text behind the `/` spells. An empty text spells
/// none.
pub open spec fn parse_bass(s: Seq<char>) -> Result<Option<Spelling>, ErrorView> {
    if s.len() == 0 {
        Ok(None)
    } else {
        match parse_note_text(s) {
            Ok(note) => Ok(Some(note)),
            Err(ErrorView::NoNatural) => Ok(None),
            Err(e) => Err(e),
        }
    }
}

/// The chord that a text spells, or why it spells none: the note, then the
/// symbols up to the first `/`, then the bass note.
pub open spec fn parse_chord(s: Seq<char>) -> Result<ChordView, ErrorView> {
    match parse_note_text(s) {
        Err(e) => Err(e),
        Ok(note) => {
            let rest = s.skip(note_len(note));
            let cut = position(rest, '/') as int;
            let bass_text = if cut < rest.len() {
                rest.skip(cut + 1)
            } else {
                Seq::empty()
            };
            match parse_bass(bass_text) {
                Err(e) => Err(e),
                Ok(bass_note) => Ok(ChordView { note, symbols: rest.take(cut), bass_note }),
            }
        },
    }
}

/// The canonical text of a chord.
pub open spec fn chord_text(chord: ChordView) -> Seq<char> {
    chord.note.text() + chord.symbols + match chord.bass_note {
        Some(note) => seq!['/'] + note.text(),
        None => Seq::empty(),
    }
}

/// The chord with both notes transposed and the symbols as they are.
pub open spec fn transposed_chord(chord: ChordView, semitone_incr: int, scale: Scale) -> ChordView {
    ChordView {
        note: chord.note.transposed(semitone_incr, scale),
        symbols: chord.symbols,
        bass_note: match chord.bass_note {
            Some(note) => Some(note.transposed(semitone_incr, scale)),
            None => None,
        },
    }
}

impl Chord {
    /// The chord with these parts.
    pub fn new(note: Note, symbols: &str, bass_note: Option<Note>) -> (chord: Chord)
        ensures
            chord@ == (ChordView {
                note: note@,
                symbols: symbols@,
                bass_note: match bass_note {
                    Some(note) => Some(note@),
                    None => None,
                },
            }),
    {
        Chord { note, symbols: symbols.to_owned(), bass_note }
    }

    /// Reads a chord from its characters.
    pub fn parse(s: &[char]) -> (r: Result<Chord, Error>)
        ensures
            result_is(r, parse_chord(s@)),
    {
        let natural_ch = if s.len() > 0 {
            Some(s[0])
        } else {
            None
        };
        let accidental_ch = if s.len() > 1 {
            Some(s[1])
        } else {
            None
        };
        let note = match Note::parse(natural_ch, accidental_ch) {
            Ok(note) => note,
            Err(e) => { return Err(e); },
        };
        let from: usize = match note.accidental() {
            Accidental::Natural => 1,
            _ => 2,
        };
        let mut cut: usize = from;
        while cut < s.len() && s[cut] != '/'
            invariant
                from <= cut <= s.len(),
                forall|k: int| from <= k < cut ==> s@[k] != '/',
            decreases s.len() - cut,
        {
            cut += 1;
        }
        let ghost rest = s@.skip(from as int);
        proof {
            lemma_position(rest, '/', cut - from);
            assert(rest.take(cut - from) =~= s@.subrange(from as int, cut as int));
        }
        let symbols = string_of(slice_subrange(s, from, cut));
        let bass_note = if cut < s.len() && cut + 1 < s.len() {
            let bass_natural_ch = Some(s[cut + 1]);
            let bass_accidental_ch = if cut + 2 < s.len() {
                Some(s[cut + 2])
            } else {
                None
            };
            match Note::parse(bass_natural_ch, bass_accidental_ch) {
                Ok(note) => Some(note),
                Err(Error::NoNatural) => None,
                Err(e) => { return Err(e); },
            }
        } else {
            None
        };
        Ok(Chord { note, symbols, bass_note })
    }

    /// Reads a chord from its text.
    pub fn from_str(s: &str) -> (r: Result<Chord, Error>)
        ensures
            result_is(r, parse_chord(s@)),
    {
        let chars = chars_of(s);
        Chord::parse(chars.as_slice())
    }

    /// The canonical text of the chord.
    pub fn to_string(&self) -> (s: String)
        ensures
            s@ == chord_text(self@),
    {
        let mut out = self.note.to_string();
        out.append(self.symbols.as_str());
        if let Some(note) = &self.bass_note {
            proof {
                reveal_strlit("/");
            }
            out.append("/");
            out.append(note.to_string().as_str());
        }
        out
    }
}

impl Transpose for Chord {
    open spec fn transposed(v: ChordView, semitone_incr: int, scale: Scale) -> ChordView {
        transposed_chord(v, semitone_incr, scale)
    }

    fn transpose(&self, semitone_incr: &i32, scale: &Scale) -> (r: Chord) {
        Chord {
            note: self.note.transpose(semitone_incr, scale),
            symbols: self.symbols.clone(),
            bass_note: match &self.bass_note {
                Some(note) => Some(note.transpose(semitone_incr, scale)),
                None => None,
            },
        }
    }
}

} // verus!
