use bdl_rust_parser::text::{chars_of, hex_digit, same_text, split_lines, string_of, whitespace};

fn every_char() -> impl Iterator<Item = char> {
    (0..=0x10FFFFu32).filter_map(char::from_u32)
}

#[test]
fn whitespace_is_what_the_standard_library_calls_whitespace() {
    for c in every_char() {
        assert_eq!(whitespace(c), c.is_whitespace(), "{:?}", c);
    }
}

#[test]
fn hex_digits_are_the_ascii_ones() {
    for c in every_char() {
        assert_eq!(hex_digit(c), c.is_ascii_hexdigit(), "{:?}", c);
    }
}

#[test]
fn characters_and_strings_convert_both_ways() {
    for text in ["", "a", "h\u{e9}llo \u{1f600} w\u{f6}rld", "line\r\nline"] {
        let chars = chars_of(text);
        assert_eq!(chars, text.chars().collect::<Vec<char>>());
        assert_eq!(string_of(&chars), text);
    }
}

#[test]
fn texts_compare_by_their_characters() {
    assert!(same_text("", ""));
    assert!(same_text("hex", "hex"));
    assert!(!same_text("hex", "Hex"));
    assert!(!same_text("hex", "hex "));
    assert!(!same_text("hex", "he"));
}

#[test]
fn lines_are_what_the_standard_library_calls_lines() {
    let texts = [
        "",
        "\n",
        "\r\n",
        "\r",
        "a",
        "a\n",
        "a\r\n",
        "a\r",
        "a\nb",
        "a\r\nb\r\n",
        "a\n\nb",
        "a\r\r\nb",
        "\r\n\r\n",
        "a\n\rb\n",
        "\na",
        "one\ntwo\r\nthree\rstill three\n",
        "tab\there | bar\n\u{a0}wide\u{2028}sep\n",
    ];
    for text in texts {
        let expected: Vec<String> = text.lines().map(String::from).collect();
        assert_eq!(split_lines(text), expected, "{:?}", text);
    }
}
