use chord_chart::{Bar, Error, Scale, Transpose};

#[test]
fn bar_basics() {
    assert_eq!(Bar::from_str("C Dm/F#").unwrap().to_string(), "C Dm/F#");
    assert_eq!(Bar::from_str("C dm/f#  D").unwrap().to_string(), "C Dm/F# D");
    assert_eq!(Bar::from_str("").unwrap().to_string(), "");
    assert_eq!(Bar::from_str("  \t ").unwrap().to_string(), "");
    assert_eq!(Bar::from_str("\u{a0}C\u{3000}D\n").unwrap().to_string(), "C D");
}

#[test]
fn bar_first_error_wins() {
    assert_eq!(
        Bar::from_str("C W E#").unwrap_err(),
        Error::InvalidNatural('W')
    );
    assert_eq!(Bar::from_str("C E# W").unwrap_err(), Error::InvalidNote("E#"));
}

#[test]
fn bar_from_chars() {
    let chars: Vec<char> = " a  hm ".chars().collect();
    assert_eq!(Bar::parse(&chars).unwrap().to_string(), "A Hm");
}

#[test]
fn bar_tranpose() {
    assert_eq!(
        Bar::from_str("A/D C#m/D")
            .unwrap()
            .transpose(&4, &Scale::Minor)
            .to_string(),
        "Db/Gb Fm/Gb"
    )
}
