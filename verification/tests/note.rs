use chord_chart::note::{Accidental, Natural, Note};
use chord_chart::{Error, Scale, Transpose};

fn note(text: &str) -> Note {
    Note::from_str(text).unwrap()
}

fn check_ok(natural: Natural, accidental: Accidental, input: &str, output: &str) {
    let value = Note::from_str(input).unwrap();
    assert_eq!(value, Note::new(natural, accidental));
    assert_eq!(*value.natural(), natural);
    assert_eq!(*value.accidental(), accidental);
    assert_eq!(value.to_string(), output);
}

#[test]
fn note_basics_ok() {
    check_ok(Natural::A, Accidental::Natural, "a", "A");
    check_ok(Natural::A, Accidental::Flat, "AB", "Ab");
    check_ok(Natural::A, Accidental::Sharp, "A#", "A#");
    check_ok(Natural::A, Accidental::Natural, "Aw", "A");
    check_ok(Natural::B, Accidental::Natural, "H", "H");
    check_ok(Natural::B, Accidental::Natural, "Hw", "H");
    check_ok(Natural::B, Accidental::Natural, "h", "H");
    check_ok(Natural::B, Accidental::Natural, "b", "H");
    check_ok(Natural::B, Accidental::Flat, "bb", "Bb");
    check_ok(Natural::C, Accidental::Sharp, "c#", "C#");
    check_ok(Natural::D, Accidental::Flat, "Db", "Db");
    check_ok(Natural::E, Accidental::Flat, "eB", "Eb");
    check_ok(Natural::F, Accidental::Sharp, "F#", "F#");
    check_ok(Natural::G, Accidental::Natural, "G7", "G");
}

#[test]
fn note_basics_err() {
    assert_eq!(Note::from_str("w").unwrap_err(), Error::InvalidNatural('w'));
    assert_eq!(Note::from_str("").unwrap_err(), Error::NoNatural);
    assert_eq!(Note::from_str("Hb").unwrap_err(), Error::InvalidNote("Hb"));
    assert_eq!(Note::from_str("H#").unwrap_err(), Error::InvalidNote("H#"));
    assert_eq!(Note::from_str("cB").unwrap_err(), Error::InvalidNote("Cb"));
    assert_eq!(Note::from_str("E#").unwrap_err(), Error::InvalidNote("E#"));
    assert_eq!(Note::from_str("Fb").unwrap_err(), Error::InvalidNote("Fb"));
    assert_eq!(Note::from_str("B#").unwrap_err(), Error::InvalidNote("B#"));
    assert_eq!(Note::from_str("hB").unwrap_err(), Error::InvalidNote("Hb"));
}

#[test]
fn note_parse_from_chars() {
    assert_eq!(Note::parse(None, None).unwrap_err(), Error::NoNatural);
    assert_eq!(Note::parse(None, Some('b')).unwrap_err(), Error::NoNatural);
    assert_eq!(
        Note::parse(Some('W'), Some('#')).unwrap_err(),
        Error::InvalidNatural('W')
    );
    assert_eq!(
        Note::parse(Some('a'), None).unwrap(),
        Note::new(Natural::A, Accidental::Natural)
    );
    assert_eq!(
        Note::parse(Some('A'), Some('b')).unwrap(),
        Note::new(Natural::A, Accidental::Flat)
    );
    assert_eq!(
        Note::parse(Some('A'), Some('w')).unwrap(),
        Note::new(Natural::A, Accidental::Natural)
    );
}

#[test]
fn h_spelling() {
    let h = Note::parse(Some('H'), None).unwrap();
    assert_eq!(h, Note::new(Natural::B, Accidental::Natural));
    assert_eq!(h.to_string(), "H");
    assert_eq!(
        Note::parse(Some('H'), Some('b')).unwrap_err(),
        Error::InvalidNote("Hb")
    );
    assert_eq!(
        Note::parse(Some('H'), Some('#')).unwrap_err(),
        Error::InvalidNote("H#")
    );
}

fn check_transpose(input: &str, semitone_incr: i32, scale: Scale, output: &str) {
    assert_eq!(note(input).transpose(&semitone_incr, &scale).to_string(), output);
}

#[test]
fn note_transpose() {
    check_transpose("A", 12, Scale::Major, "A");
    check_transpose("C", 1, Scale::Major, "C#");
    check_transpose("C", -1, Scale::Minor, "H");
    check_transpose("D", 2, Scale::Major, "E");
    check_transpose("E", 2, Scale::Major, "F#");
    check_transpose("E", 2, Scale::Minor, "Gb");
    check_transpose("A", 11, Scale::Major, "G#");
    check_transpose("Bb", 1, Scale::Minor, "H");
}

#[test]
fn transpose_tables() {
    let major = ["C", "C#", "D", "D#", "E", "F", "F#", "G", "G#", "A", "A#", "H"];
    let minor = ["C", "Db", "D", "Eb", "E", "F", "Gb", "G", "Ab", "A", "Bb", "H"];
    for step in 0..12 {
        check_transpose("C", step, Scale::Major, major[step as usize]);
        check_transpose("C", step, Scale::Minor, minor[step as usize]);
    }
}

#[test]
fn transpose_far_away() {
    check_transpose("C", i32::MAX, Scale::Major, "G");
    check_transpose("C", i32::MIN, Scale::Major, "E");
    check_transpose("H", i32::MAX, Scale::Minor, "Gb");
    check_transpose("C", -13, Scale::Major, "H");
    check_transpose("C", -12, Scale::Major, "C");
    check_transpose("C", 25, Scale::Minor, "Db");
}

#[test]
fn transpose_by_nothing_keeps_the_pitch_class() {
    assert_eq!(
        note("Db").transpose(&0, &Scale::Major),
        Note::new(Natural::C, Accidental::Sharp)
    );
    assert_eq!(note("Db").transpose(&0, &Scale::Minor), note("Db"));
    assert_eq!(note("A#").transpose(&0, &Scale::Minor), note("Bb"));
    assert_eq!(note("H").transpose(&0, &Scale::Major), note("H"));
}

#[test]
fn transpose_by_an_octave_is_by_nothing() {
    for text in ["C", "C#", "Db", "E", "F#", "Bb", "H", "Ab"] {
        let n = note(text);
        assert_eq!(
            n.transpose(&12, &Scale::Major),
            n.transpose(&0, &Scale::Major)
        );
        assert_eq!(
            n.transpose(&-12, &Scale::Minor),
            n.transpose(&0, &Scale::Minor)
        );
    }
}

#[test]
fn get_semitones_diff() {
    assert_eq!(note("C").get_semitones_diff(&note("C")), 0);
    assert_eq!(note("C").get_semitones_diff(&note("C#")), 1);
    assert_eq!(note("C").get_semitones_diff(&note("H")), 11);
    assert_eq!(note("C").get_semitones_diff(&note("G#")), 8);
    assert_eq!(note("E").get_semitones_diff(&note("Db")), -3);
}

#[test]
fn semitones_diff_turns_round() {
    for a in ["C", "Db", "F#", "H", "Bb"] {
        for b in ["C", "D#", "G", "Ab", "H"] {
            assert_eq!(
                note(a).get_semitones_diff(&note(b)),
                -note(b).get_semitones_diff(&note(a))
            );
        }
    }
}

#[test]
fn values_and_scale() {
    assert_eq!(Natural::C.value(), 0);
    assert_eq!(Natural::D.value(), 2);
    assert_eq!(Natural::E.value(), 4);
    assert_eq!(Natural::F.value(), 5);
    assert_eq!(Natural::G.value(), 7);
    assert_eq!(Natural::A.value(), 9);
    assert_eq!(Natural::B.value(), 11);
    assert_eq!(Accidental::Natural.value(), 0);
    assert_eq!(Accidental::Flat.value(), -1);
    assert_eq!(Accidental::Sharp.value(), 1);
    assert_eq!(Accidental::Flat.scale(), Scale::Minor);
    assert_eq!(Accidental::Sharp.scale(), Scale::Major);
    assert_eq!(Accidental::Natural.scale(), Scale::Major);
}
