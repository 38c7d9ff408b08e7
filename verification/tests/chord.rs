use chord_chart::note::{Accidental, Natural};
use chord_chart::{Chord, Error, Note, Scale, Transpose};

fn check_ok(input: &str, output: &str) {
    assert_eq!(Chord::from_str(input).unwrap().to_string(), output);
}

#[test]
fn chord_basics_ok() {
    check_ok("A", "A");
    check_ok("g#m", "G#m");
    check_ok("Dbmaj7", "Dbmaj7");
    check_ok("C#m/Db", "C#m/Db");
    check_ok("C#m/Dbm", "C#m/Db");
    check_ok("C/db", "C/Db");
    check_ok("C/D", "C/D");
    check_ok("C/", "C");
    check_ok("Hw", "Hw");
    check_ok("Bm", "Hm");
    check_ok("A/b", "A/H");
    check_ok("Abb", "Abb");
    check_ok("Cmaj7/", "Cmaj7");
}

#[test]
fn chord_basics_err() {
    assert_eq!(Chord::from_str("w").unwrap_err(), Error::InvalidNatural('w'));
    assert_eq!(Chord::from_str("E#").unwrap_err(), Error::InvalidNote("E#"));
    assert_eq!(Chord::from_str("C/E#").unwrap_err(), Error::InvalidNote("E#"));
    assert_eq!(Chord::from_str("C/W#").unwrap_err(), Error::InvalidNatural('W'));
    assert_eq!(Chord::from_str("A//").unwrap_err(), Error::InvalidNatural('/'));
    assert_eq!(Chord::from_str("").unwrap_err(), Error::NoNatural);
    assert_eq!(Chord::from_str("C/Hb").unwrap_err(), Error::InvalidNote("Hb"));
}

#[test]
fn chord_parts() {
    let note = Note::new(Natural::C, Accidental::Sharp);
    let bass = Note::new(Natural::D, Accidental::Flat);
    assert_eq!(Chord::from_str("C#m/Db").unwrap(), Chord::new(note, "m", Some(bass)));
    assert_eq!(
        Chord::from_str("cw7").unwrap(),
        Chord::new(Note::new(Natural::C, Accidental::Natural), "w7", None)
    );
    assert_eq!(Chord::new(note, "sus4", None).to_string(), "C#sus4");
}

#[test]
fn chord_from_chars() {
    let chars: Vec<char> = "dm/f#".chars().collect();
    assert_eq!(Chord::parse(&chars).unwrap().to_string(), "Dm/F#");
}

fn check_transpose(input: &str, semitone_incr: i32, scale: Scale, output: &str) {
    assert_eq!(
        Chord::from_str(input)
            .unwrap()
            .transpose(&semitone_incr, &scale)
            .to_string(),
        output
    );
}

#[test]
fn chord_tranpose() {
    check_transpose("A", 1, Scale::Major, "A#");
    check_transpose("C#m/D", 1, Scale::Major, "Dm/D#");
    check_transpose("C#m/D", 12, Scale::Major, "C#m/D");
    check_transpose("A/D", 4, Scale::Minor, "Db/Gb");
    check_transpose("Gmaj7", -2, Scale::Major, "Fmaj7");
}
