use chord_chart::text::{
    chars_of, is_whitespace, join_strings, split_at_each, split_whitespace, string_of, trimmed,
};

fn chars(text: &str) -> Vec<char> {
    text.chars().collect()
}

fn strings(parts: Vec<&[char]>) -> Vec<String> {
    parts.iter().map(|part| part.iter().collect()).collect()
}

#[test]
fn whitespace_is_what_std_takes_for_it() {
    for code in 0..0x11_0000u32 {
        if let Some(c) = char::from_u32(code) {
            assert_eq!(is_whitespace(c), c.is_whitespace(), "{:x}", code);
        }
    }
}

#[test]
fn chars_and_back() {
    assert_eq!(chars_of("a\u{e9}|\u{266f}"), vec!['a', '\u{e9}', '|', '\u{266f}']);
    assert_eq!(chars_of(""), Vec::<char>::new());
    assert_eq!(string_of(&['C', '#', 'm']), "C#m");
    assert_eq!(string_of(&[]), "");
}

#[test]
fn words_of_a_text() {
    let text = chars("  C dm/f#\t\tD \n");
    assert_eq!(strings(split_whitespace(&text)), vec!["C", "dm/f#", "D"]);
    assert_eq!(strings(split_whitespace(&chars(" \t"))), Vec::<String>::new());
    assert_eq!(strings(split_whitespace(&chars("x"))), vec!["x"]);
    for text in ["", " a", "a ", "a  b", "\u{2003}a\u{a0}b c\r\n"] {
        let expected: Vec<String> = text.split_whitespace().map(String::from).collect();
        assert_eq!(strings(split_whitespace(&chars(text))), expected);
    }
}

#[test]
fn parts_of_a_text() {
    assert_eq!(strings(split_at_each(&chars("a|b||c"), '|')), vec!["a", "b", "", "c"]);
    assert_eq!(strings(split_at_each(&chars(""), '|')), vec![""]);
    assert_eq!(strings(split_at_each(&chars("|"), '|')), vec!["", ""]);
    for text in ["", "\n", "a\nb", "a\n\nb\n", "\na"] {
        let expected: Vec<String> = text.split('\n').map(String::from).collect();
        assert_eq!(strings(split_at_each(&chars(text), '\n')), expected);
    }
}

#[test]
fn trimmed_text() {
    for text in ["", "  ", " a b ", "a", "\t|x|\u{3000}\n", " a"] {
        let got: String = trimmed(&chars(text)).iter().collect();
        assert_eq!(got, text.trim());
    }
}

#[test]
fn joined_strings() {
    let parts = vec!["a".to_string(), "".to_string(), "bc".to_string()];
    assert_eq!(join_strings(&parts, " | "), "a |  | bc");
    assert_eq!(join_strings(&Vec::new(), ","), "");
    assert_eq!(join_strings(&vec!["x".to_string()], ","), "x");
}
