use chord_chart::{BarLine, Error, Scale, Transpose};

fn check(input: &str, output: &str) {
    assert_eq!(BarLine::from_str(input).unwrap().to_string(), output);
}

#[test]
fn basics_ok() {
    check("|C Dm/F# | C Dm/F# |", "| C Dm/F# | C Dm/F# |");
    check(" |  C Dm/F#  | ", "| C Dm/F# |");
    check("||", "|  |");
    check("", "");
}

#[test]
fn bar_line_basics_err() {
    assert_eq!(
        BarLine::from_str("C").unwrap_err(),
        Error::BarLineShouldStartWithStripe("C".into())
    );
    assert_eq!(
        BarLine::from_str("|C").unwrap_err(),
        Error::BarLineShouldEndWithStripe("|C".into())
    );
    assert_eq!(
        BarLine::from_str("|W|").unwrap_err(),
        Error::InvalidNatural('W')
    );
}

#[test]
fn bar_line_errors_hold_the_line_as_given() {
    assert_eq!(
        BarLine::from_str("  C | ").unwrap_err(),
        Error::BarLineShouldStartWithStripe("  C | ".into())
    );
    assert_eq!(
        BarLine::from_str(" | C  ").unwrap_err(),
        Error::BarLineShouldEndWithStripe(" | C  ".into())
    );
    assert_eq!(
        BarLine::from_str("|").unwrap_err(),
        Error::BarLineShouldEndWithStripe("|".into())
    );
    assert_eq!(
        BarLine::from_str(" | ").unwrap_err(),
        Error::BarLineShouldEndWithStripe(" | ".into())
    );
}

#[test]
fn bar_line_is_empty() {
    assert!(BarLine::from_str("").unwrap().is_empty());
    assert!(BarLine::from_str(" \t ").unwrap().is_empty());
    assert!(!BarLine::from_str("||").unwrap().is_empty());
    assert!(!BarLine::from_str("| C |").unwrap().is_empty());
}

#[test]
fn bar_line_empty_bars() {
    check("|||", "|  |  |");
    check("| C ||", "| C |  |");
    check("|C|D|", "| C | D |");
}

#[test]
fn bar_line_from_chars() {
    let chars: Vec<char> = " |a| ".chars().collect();
    assert_eq!(BarLine::parse(&chars).unwrap().to_string(), "| A |");
}

#[test]
fn bar_line_tranpose() {
    assert_eq!(
        BarLine::from_str("| A/D C#m/D | A/D C#m/D |")
            .unwrap()
            .transpose(&4, &Scale::Minor)
            .to_string(),
        "| Db/Gb Fm/Gb | Db/Gb Fm/Gb |"
    )
}
