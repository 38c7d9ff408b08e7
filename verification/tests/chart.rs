use chord_chart::{transpose_chart, validate_chart, Chart, Error, Scale, Transpose};

const INPUT: &str = r#"

        | G/C | Bm | A |
        | D |
        | A |

        | Bm | A | G |
        "#;

#[test]
fn basics() {
    let output = "| G/C | Hm | A |\n| D |\n| A |\n| Hm | A | G |";

    assert_eq!(Chart::from_str(INPUT).unwrap().to_string(), output);
}

#[test]
fn chart_tranpose() {
    let output = "| H/E | Ebm | Db |\n| Gb |\n| Db |\n| Ebm | Db | H |";

    assert_eq!(
        Chart::from_str(INPUT)
            .unwrap()
            .transpose(&4, &Scale::Minor)
            .to_string(),
        output
    )
}

#[test]
fn chart_blank_lines() {
    assert_eq!(Chart::from_str("").unwrap().to_string(), "");
    assert_eq!(Chart::from_str("\n\n  \n").unwrap().to_string(), "");
    assert_eq!(Chart::from_str("\n|C|\n\n").unwrap().to_string(), "| C |");
    assert_eq!(
        Chart::from_str("|C|\r\n|D|\r\n").unwrap().to_string(),
        "| C |\n| D |"
    );
}

#[test]
fn chart_first_error_wins() {
    assert_eq!(
        Chart::from_str("| C |\nD |\n| W |").unwrap_err(),
        Error::BarLineShouldStartWithStripe("D |".into())
    );
    assert_eq!(
        Chart::from_str("| C |\n| W |\nD").unwrap_err(),
        Error::InvalidNatural('W')
    );
}

#[test]
fn chart_from_chars() {
    let chars: Vec<char> = "|a|\n|h|".chars().collect();
    assert_eq!(Chart::parse(&chars).unwrap().to_string(), "| A |\n| H |");
}

#[test]
fn validate_is_parse_then_render() {
    assert_eq!(
        validate_chart(INPUT).unwrap(),
        "| G/C | Hm | A |\n| D |\n| A |\n| Hm | A | G |"
    );
    assert_eq!(
        validate_chart("| C |\n| C").unwrap_err(),
        Error::BarLineShouldEndWithStripe("| C".into())
    );
}

#[test]
fn validate_twice_is_validate_once() {
    for text in [
        INPUT,
        "",
        "||",
        "|c/| dm7/f#   g |\n\n ||| \n|Bb/h|",
        "|Abb A/b Hw|",
    ] {
        let once = validate_chart(text).unwrap();
        assert_eq!(validate_chart(&once).unwrap(), once);
    }
}

#[test]
fn transpose_chart_between_keys() {
    assert_eq!(
        transpose_chart("| A/E | E |\n| C#m |", "E", "Db").unwrap(),
        "| Gb/Db | Db |\n| Bbm |"
    );
    assert_eq!(
        transpose_chart("| C | F | G |", "C", "D").unwrap(),
        "| D | G | A |"
    );
    assert_eq!(
        transpose_chart("| C | F | G |", "C", "F#").unwrap(),
        "| F# | H | C# |"
    );
}

#[test]
fn transpose_chart_errors_in_order() {
    assert_eq!(
        transpose_chart("| W |", "x", "").unwrap_err(),
        Error::InvalidNatural('x')
    );
    assert_eq!(transpose_chart("| W |", "C", "").unwrap_err(), Error::NoNatural);
    assert_eq!(
        transpose_chart("| W |", "C", "D").unwrap_err(),
        Error::InvalidNatural('W')
    );
    assert_eq!(
        transpose_chart("| C |", "C", "Fb").unwrap_err(),
        Error::InvalidNote("Fb")
    );
}
