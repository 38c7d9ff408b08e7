//! Notes: a letter with an accidental, read from one or two characters,
//! written in canonical form and transposed by pitch-class arithmetic.

use crate::error::{result_is, Error, ErrorView};
use crate::text::is_space;
use crate::transpose::{Scale, Transpose};
use vstd::prelude::*;

verus! {

broadcast use vstd::string::group_string_axioms;

/// One of the seven letters that name a pitch class.
#[derive(Debug, PartialEq, Eq, Clone, Copy, Structural)]
pub enum Natural {
    C,
    D,
    E,
    F,
    G,
    A,
    B,
}

/// What is added to a letter's pitch class.
#[derive(Debug, PartialEq, Eq, Clone, Copy, Structural)]
pub enum Accidental {
    Natural,
    Flat,
    Sharp,
}

impl Natural {
    /// The semitones from C up to this letter.
    pub open spec fn spec_value(&self) -> int {
        match self {
            Natural::C => 0,
            Natural::D => 2,
            Natural::E => 4,
            Natural::F => 5,
            Natural::G => 7,
            Natural::A => 9,
            Natural::B => 11,
        }
    }

    /// The letter as it is written.
    pub open spec fn letter(&self) -> char {
        match self {
            Natural::C => 'C',
            Natural::D => 'D',
            Natural::E => 'E',
            Natural::F => 'F',
            Natural::G => 'G',
            Natural::A => 'A',
            Natural::B => 'B',
        }
    }

    /// The semitones from C up to this letter.
    pub fn value(&self) -> (v: i32)
        ensures
            v == self.spec_value(),
    {
        match self {
            Natural::C => 0,
            Natural::D => 2,
            Natural::E => 4,
            Natural::F => 5,
            Natural::G => 7,
            Natural::A => 9,
            Natural::B => 11,
        }
    }
}

impl Accidental {
    /// The semitones that the accidental adds.
    pub open spec fn spec_value(&self) -> int {
        match self {
            Accidental::Natural => 0,
            Accidental::Flat => -1,
            Accidental::Sharp => 1,
        }
    }

    /// The accidental as it is written behind the letter.
    pub open spec fn suffix(&self) -> Seq<char> {
        match self {
            Accidental::Natural => Seq::empty(),
            Accidental::Flat => seq!['b'],
            Accidental::Sharp => seq!['#'],
        }
    }

    /// The spelling that suits a key with this accidental.
    pub open spec fn spec_scale(&self) -> Scale {
        match self {
            Accidental::Flat => Scale::Minor,
            _ => Scale::Major,
        }
    }

    /// The semitones that the accidental adds.
    pub fn value(&self) -> (v: i32)
        ensures
            v == self.spec_value(),
    {
        match self {
            Accidental::Natural => 0,
            Accidental::Flat => -1,
            Accidental::Sharp => 1,
        }
    }

    /// The spelling that suits a key with this accidental: flats for a key
    /// with a flat, else sharps.
    #[verifier::when_used_as_spec(spec_scale)]
    pub fn scale(&self) -> (s: Scale)
        ensures
            s == self.spec_scale(),
    {
        match self {
            Accidental::Flat => Scale::Minor,
            _ => Scale::Major,
        }
    }
}

/// A letter with an accidental: what a [`Note`] holds.
pub struct Spelling {
    pub natural: Natural,
    pub accidental: Accidental,
}

impl Spelling {
    /// Letter and accidental added up. For a valid spelling this is the pitch
    /// class, from 0 to 11.
    pub open spec fn pitch(self) -> int {
        self.natural.spec_value() + self.accidental.spec_value()
    }

    /// No spelling of a note: Cb, E#, Fb, B#.
    pub open spec fn is_valid(self) -> bool {
        &&& !(self.natural == Natural::C && self.accidental == Accidental::Flat)
        &&& !(self.natural == Natural::E && self.accidental == Accidental::Sharp)
        &&& !(self.natural == Natural::F && self.accidental == Accidental::Flat)
        &&& !(self.natural == Natural::B && self.accidental == Accidental::Sharp)
    }

    /// The letter and the accidental, written out: what an error reports for
    /// a spelling that is not valid.
    pub open spec fn plain_text(self) -> Seq<char> {
        seq![self.natural.letter()] + self.accidental.suffix()
    }

    /// The canonical text: B without accidental is written `H`.
    pub open spec fn text(self) -> Seq<char> {
        if self.natural == Natural::B && self.accidental == Accidental::Natural {
            seq!['H']
        } else {
            self.plain_text()
        }
    }

    /// The semitones from this spelling up to `other`, as the two are
    /// written: nothing is reduced to an octave.
    pub open spec fn semitones_to(self, other: Spelling) -> int {
        other.pitch() - self.pitch()
    }

    /// The spelling that is `semitone_incr` semitones away, spelled for `scale`.
    pub open spec fn transposed(self, semitone_incr: int, scale: Scale) -> Spelling {
        spelling_of((self.pitch() + semitone_incr) % 12, scale)
    }
}

/// The spelling of a pitch class from 0 to 11: with sharps for `Major`, with
/// flats for `Minor`.
pub open spec fn spelling_of(pitch_class: int, scale: Scale) -> Spelling {
    let sharp = scale == Scale::Major;
    if pitch_class == 0 {
        Spelling { natural: Natural::C, accidental: Accidental::Natural }
    } else if pitch_class == 1 {
        if sharp {
            Spelling { natural: Natural::C, accidental: Accidental::Sharp }
        } else {
            Spelling { natural: Natural::D, accidental: Accidental::Flat }
        }
    } else if pitch_class == 2 {
        Spelling { natural: Natural::D, accidental: Accidental::Natural }
    } else if pitch_class == 3 {
        if sharp {
            Spelling { natural: Natural::D, accidental: Accidental::Sharp }
        } else {
            Spelling { natural: Natural::E, accidental: Accidental::Flat }
        }
    } else if pitch_class == 4 {
        Spelling { natural: Natural::E, accidental: Accidental::Natural }
    } else if pitch_class == 5 {
        Spelling { natural: Natural::F, accidental: Accidental::Natural }
    } else if pitch_class == 6 {
        if sharp {
            Spelling { natural: Natural::F, accidental: Accidental::Sharp }
        } else {
            Spelling { natural: Natural::G, accidental: Accidental::Flat }
        }
    } else if pitch_class == 7 {
        Spelling { natural: Natural::G, accidental: Accidental::Natural }
    } else if pitch_class == 8 {
        if sharp {
            Spelling { natural: Natural::G, accidental: Accidental::Sharp }
        } else {
            Spelling { natural: Natural::A, accidental: Accidental::Flat }
        }
    } else if pitch_class == 9 {
        Spelling { natural: Natural::A, accidental: Accidental::Natural }
    } else if pitch_class == 10 {
        if sharp {
            Spelling { natural: Natural::A, accidental: Accidental::Sharp }
        } else {
            Spelling { natural: Natural::B, accidental: Accidental::Flat }
        }
    } else {
        Spelling { natural: Natural::B, accidental: Accidental::Natural }
    }
}

/// The letter that a character names, in either case. `H` is not among
/// them: it names a whole note.
pub open spec fn natural_of(c: char) -> Option<Natural> {
    if c == 'C' || c == 'c' {
        Some(Natural::C)
    } else if c == 'D' || c == 'd' {
        Some(Natural::D)
    } else if c == 'E' || c == 'e' {
        Some(Natural::E)
    } else if c == 'F' || c == 'f' {
        Some(Natural::F)
    } else if c == 'G' || c == 'g' {
        Some(Natural::G)
    } else if c == 'A' || c == 'a' {
        Some(Natural::A)
    } else if c == 'B' || c == 'b' {
        Some(Natural::B)
    } else {
        None
    }
}

/// The accidental that the character behind a letter stands for. A character
/// that is neither `b`, `B` nor `#`, or none at all, leaves the letter as it is.
pub open spec fn accidental_of(c: Option<char>) -> Accidental {
    if c == Some('b') || c == Some('B') {
        Accidental::Flat
    } else if c == Some('#') {
        Accidental::Sharp
    } else {
        Accidental::Natural
    }
}

/// The note that two characters spell, or why they spell none.
pub open spec fn parse_note(natural_ch: Option<char>, accidental_ch: Option<char>) -> Result<
    Spelling,
    ErrorView,
> {
    match natural_ch {
        None => Err(ErrorView::NoNatural),
        Some(c) => if c == 'H' || c == 'h' {
            match accidental_of(accidental_ch) {
                Accidental::Flat => Err(ErrorView::InvalidNote(seq!['H', 'b'])),
                Accidental::Sharp => Err(ErrorView::InvalidNote(seq!['H', '#'])),
                Accidental::Natural => Ok(
                    Spelling { natural: Natural::B, accidental: Accidental::Natural },
                ),
            }
        } else {
            match natural_of(c) {
                None => Err(ErrorView::InvalidNatural(c)),
                Some(natural) => {
                    let spelling = Spelling { natural, accidental: accidental_of(accidental_ch) };
                    if spelling.is_valid() {
                        Ok(spelling)
                    } else {
                        Err(ErrorView::InvalidNote(spelling.plain_text()))
                    }
                },
            }
        },
    }
}

/// The note that the first two characters of a text spell.
pub open spec fn parse_note_text(s: Seq<char>) -> Result<Spelling, ErrorView> {
    parse_note(
        if s.len() > 0 {
            Some(s[0])
        } else {
            None
        },
        if s.len() > 1 {
            Some(s[1])
        } else {
            None
        },
    )
}

/// A pitch class with its spelling. The notes that this library builds are
/// valid spellings.
#[derive(Debug, PartialEq, Eq, Clone, Copy, Structural)]
pub struct Note {
    natural: Natural,
    accidental: Accidental,
}

impl View for Note {
    type V = Spelling;

    closed spec fn view(&self) -> Spelling {
        Spelling { natural: self.natural, accidental: self.accidental }
    }
}

impl Note {
    /// The note with this letter and accidental, which have to spell one.
    pub fn new(natural: Natural, accidental: Accidental) -> (note: Note)
        requires
            (Spelling { natural, accidental }).is_valid(),
        ensures
            note@ == (Spelling { natural, accidental }),
    {
        Note { natural, accidental }
    }

    /// The letter of the note.
    pub fn natural(&self) -> (natural: &Natural)
        ensures
            *natural == self@.natural,
    {
        &self.natural
    }

    /// The accidental of the note.
    pub fn accidental(&self) -> (accidental: &Accidental)
        ensures
            *accidental == self@.accidental,
    {
        &self.accidental
    }

    /// Reads a note from the character of its letter and the one behind it.
    /// The second character counts only where it is `b`, `B` or `#`.
    pub fn parse(natural_ch: Option<char>, accidental_ch: Option<char>) -> (r: Result<Note, Error>)
        ensures
            result_is(r, parse_note(natural_ch, accidental_ch)),
            r is Ok ==> r->Ok_0@.is_valid(),
    {
        let c = match natural_ch {
            Some(c) => c,
            None => { return Err(Error::NoNatural); },
        };
        let accidental = match accidental_ch {
            Some('b') | Some('B') => Accidental::Flat,
            Some('#') => Accidental::Sharp,
            _ => Accidental::Natural,
        };
        proof {
            reveal_strlit("Hb");
            reveal_strlit("H#");
            reveal_strlit("Cb");
            reveal_strlit("E#");
            reveal_strlit("Fb");
            reveal_strlit("B#");
            assert("Hb"@ =~= seq!['H', 'b']);
            assert("H#"@ =~= seq!['H', '#']);
            assert("Cb"@ =~= seq!['C'] + seq!['b']);
            assert("E#"@ =~= seq!['E'] + seq!['#']);
            assert("Fb"@ =~= seq!['F'] + seq!['b']);
            assert("B#"@ =~= seq!['B'] + seq!['#']);
        }
        let natural = match c {
            'C' | 'c' => Natural::C,
            'D' | 'd' => Natural::D,
            'E' | 'e' => Natural::E,
            'F' | 'f' => Natural::F,
            'G' | 'g' => Natural::G,
            'A' | 'a' => Natural::A,
            'B' | 'b' => Natural::B,
            'H' | 'h' => {
                return match accidental {
                    Accidental::Flat => Err(Error::InvalidNote("Hb")),
                    Accidental::Sharp => Err(Error::InvalidNote("H#")),
                    Accidental::Natural => Ok(Note::new(Natural::B, Accidental::Natural)),
                };
            },
            _ => { return Err(Error::InvalidNatural(c)); },
        };
        match (natural, accidental) {
            (Natural::C, Accidental::Flat) => Err(Error::InvalidNote("Cb")),
            (Natural::E, Accidental::Sharp) => Err(Error::InvalidNote("E#")),
            (Natural::F, Accidental::Flat) => Err(Error::InvalidNote("Fb")),
            (Natural::B, Accidental::Sharp) => Err(Error::InvalidNote("B#")),
            _ => Ok(Note::new(natural, accidental)),
        }
    }

    /// Reads a note from the first two characters of a text. What follows
    /// them is not looked at.
    pub fn from_str(s: &str) -> (r: Result<Note, Error>)
        ensures
            result_is(r, parse_note_text(s@)),
            r is Ok ==> r->Ok_0@.is_valid(),
    {
        let mut chars = s.chars();
        let natural_ch = chars.next();
        let accidental_ch = chars.next();
        Note::parse(natural_ch, accidental_ch)
    }

    /// The canonical text of the note.
    pub fn to_string(&self) -> (s: String)
        ensures
            s@ == self@.text(),
    {
        proof {
            reveal_strlit("H");
            reveal_strlit("C");
            reveal_strlit("D");
            reveal_strlit("E");
            reveal_strlit("F");
            reveal_strlit("G");
            reveal_strlit("A");
            reveal_strlit("B");
            reveal_strlit("");
            reveal_strlit("b");
            reveal_strlit("#");
        }
        match (self.natural, self.accidental) {
            (Natural::B, Accidental::Natural) => {
                let s = "H".to_owned();
                s
            },
            _ => {
                let letter = match self.natural {
                    Natural::C => "C",
                    Natural::D => "D",
                    Natural::E => "E",
                    Natural::F => "F",
                    Natural::G => "G",
                    Natural::A => "A",
                    Natural::B => "B",
                };
                let suffix = match self.accidental {
                    Accidental::Natural => "",
                    Accidental::Flat => "b",
                    Accidental::Sharp => "#",
                };
                let mut s = letter.to_owned();
                s.append(suffix);
                s
            },
        }
    }

    /// The note with pitch class `semitone`, spelled for `scale`.
    fn from_semitone_and_scale(semitone: u8, scale: &Scale) -> (note: Note)
        requires
            semitone < 12,
        ensures
            note@ == spelling_of(semitone as int, *scale),
    {
        let sharp = match scale {
            Scale::Major => true,
            Scale::Minor => false,
        };
        let (natural, accidental) = match semitone {
            0 => (Natural::C, Accidental::Natural),
            1 => if sharp {
                (Natural::C, Accidental::Sharp)
            } else {
                (Natural::D, Accidental::Flat)
            },
            2 => (Natural::D, Accidental::Natural),
            3 => if sharp {
                (Natural::D, Accidental::Sharp)
            } else {
                (Natural::E, Accidental::Flat)
            },
            4 => (Natural::E, Accidental::Natural),
            5 => (Natural::F, Accidental::Natural),
            6 => if sharp {
                (Natural::F, Accidental::Sharp)
            } else {
                (Natural::G, Accidental::Flat)
            },
            7 => (Natural::G, Accidental::Natural),
            8 => if sharp {
                (Natural::G, Accidental::Sharp)
            } else {
                (Natural::A, Accidental::Flat)
            },
            9 => (Natural::A, Accidental::Natural),
            10 => if sharp {
                (Natural::A, Accidental::Sharp)
            } else {
                (Natural::B, Accidental::Flat)
            },
            _ => (Natural::B, Accidental::Natural),
        };
        Note::new(natural, accidental)
    }

    /// The semitones from this note up to `note`.
    pub fn get_semitones_diff(&self, note: &Note) -> (diff: i32)
        ensures
            diff == self@.semitones_to(note@),
    {
        (note.natural.value() + note.accidental.value()) - (self.natural.value()
            + self.accidental.value())
    }
}

impl Transpose for Note {
    open spec fn transposed(v: Spelling, semitone_incr: int, scale: Scale) -> Spelling {
        v.transposed(semitone_incr, scale)
    }

    fn transpose(&self, semitone_incr: &i32, scale: &Scale) -> (r: Note)
        ensures
            r@.is_valid(),
    {
        let pitch: i32 = self.natural.value() + self.accidental.value();
        let step: i32 = match semitone_incr.checked_rem_euclid(12) {
            Some(step) => step,
            None => vstd::pervasive::unreached(),
        };
        let semitone: i32 = (pitch + step + 12) % 12;
        Note::from_semitone_and_scale(semitone as u8, scale)
    }
}

/// A transposed note is a valid spelling of the pitch class that lies
/// `semitone_incr` semitones from the note's own.
pub proof fn lemma_transposed_pitch(note: Spelling, semitone_incr: int, scale: Scale)
    ensures
        note.transposed(semitone_incr, scale).is_valid(),
        note.transposed(semitone_incr, scale).pitch() == (note.pitch() + semitone_incr) % 12,
{
}

/// Transposing by no semitone keeps the pitch class; only the spelling may
/// change.
pub proof fn lemma_transpose_by_nothing(note: Spelling, scale: Scale)
    requires
        note.is_valid(),
    ensures
        note.transposed(0, scale).pitch() == note.pitch(),
        note.transposed(0, scale) == spelling_of(note.pitch(), scale),
{
}

/// Transposing by an octave more changes nothing.
pub proof fn lemma_transpose_by_octave(note: Spelling, semitone_incr: int, scale: Scale)
    ensures
        note.transposed(semitone_incr + 12, scale) == note.transposed(semitone_incr, scale),
        note.transposed(12, scale) == note.transposed(0, scale),
{
}

/// The way back is as long as the way there, downwards.
pub proof fn lemma_semitones_turn_round(a: Spelling, b: Spelling)
    ensures
        a.semitones_to(b) == -b.semitones_to(a),
{
}

/// What is read as a note is a valid spelling.
pub proof fn lemma_parsed_note_is_valid(natural_ch: Option<char>, accidental_ch: Option<char>)
    requires
        parse_note(natural_ch, accidental_ch) is Ok,
    ensures
        parse_note(natural_ch, accidental_ch)->Ok_0.is_valid(),
        parse_note(natural_ch, accidental_ch)->Ok_0.accidental == Accidental::Natural
            ==> accidental_of(accidental_ch) == Accidental::Natural,
        parse_note(natural_ch, accidental_ch)->Ok_0.accidental != Accidental::Natural
            ==> accidental_ch is Some,
        natural_ch is Some,
{
}

/// The canonical text of a note has one character, or two with the
/// accidental, and none of them is whitespace, `|` or `/`.
pub proof fn lemma_note_text_chars(note: Spelling)
    ensures
        note.text().len() == if note.accidental == Accidental::Natural {
            1int
        } else {
            2int
        },
        forall|i: int|
            0 <= i < note.text().len() ==> {
                let c = #[trigger] note.text()[i];
                !is_space(c) && c != '|' && c != '/'
            },
{
}

/// The canonical text of a valid note is read as that note, whatever
/// follows it, unless the note has no accidental and what follows begins
/// with one.
pub proof fn lemma_note_text_parses(note: Spelling, rest: Seq<char>)
    requires
        note.is_valid(),
        note.accidental == Accidental::Natural && rest.len() > 0 ==> rest[0] != 'b' && rest[0]
            != 'B' && rest[0] != '#',
    ensures
        parse_note_text(note.text() + rest) == Ok::<Spelling, ErrorView>(note),
{
}

} // verus!
