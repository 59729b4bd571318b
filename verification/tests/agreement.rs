use bdl_rust_parser::payload::{decode_hex_body, hex_digits_of_body};
use bdl_rust_parser::{find_meta_json, BdlError};

/// A small generator of numbers that gives the same numbers every time.
struct Numbers(u64);

impl Numbers {
    fn next(&mut self) -> u64 {
        self.0 ^= self.0 << 13;
        self.0 ^= self.0 >> 7;
        self.0 ^= self.0 << 17;
        self.0
    }

    fn text(&mut self, alphabet: &[&str], longest: u64) -> String {
        let length = self.next() % (longest + 1);
        let mut text = String::new();
        for _ in 0..length {
            text.push_str(alphabet[(self.next() % alphabet.len() as u64) as usize]);
        }
        text
    }
}

/// The regular expression for an offset column.
fn offset_column() -> regex::Regex {
    regex::Regex::new(r"^[0-9a-fA-F]+\s+").unwrap()
}

/// The digits of a body, found with the standard library and a regular
/// expression for the offset column.
fn digits_by_expression(offset: &regex::Regex, body: &str) -> String {
    let mut hex = String::new();
    for line in body.lines() {
        let shown = line.split('|').next().unwrap_or("");
        hex.push_str(&offset.replace(shown, ""));
        hex.push(' ');
    }
    hex.chars().filter(|c| c.is_ascii_hexdigit()).collect()
}

/// The metadata text of a block, found with the standard library.
fn meta_text_by_the_standard_library(text: &str) -> Option<String> {
    let line = text.lines().find(|l| l.trim_start().starts_with("// BDL-META:"))?;
    Some(line.splitn(2, "// BDL-META:").nth(1).unwrap().trim_start().to_string())
}

#[test]
fn dump_digits_agree_with_a_regular_expression() {
    let alphabet = [
        "0", "1", "9", "a", "F", "AA ", " ", "  ", "\t", "|", "\n", "\r\n", "\r", "g", "x", ":",
        "\u{a0}", "\u{2003}", "\u{e9}", "0000 ", "00000010  ",
    ];
    let offset = offset_column();
    let mut numbers = Numbers(0x9E37_79B9_7F4A_7C15);
    for _ in 0..5000 {
        let body = numbers.text(&alphabet, 24);
        assert_eq!(hex_digits_of_body(&body), digits_by_expression(&offset, &body), "{:?}", body);
    }
}

#[test]
fn dump_decoding_agrees_with_the_hex_crate() {
    let alphabet = ["0", "7", "c", "E", "0000 ", " ", "|", "\n", "\r\n", "zz"];
    let offset = offset_column();
    let mut numbers = Numbers(0x0123_4567_89AB_CDEF);
    for _ in 0..2000 {
        let body = numbers.text(&alphabet, 16);
        let digits = digits_by_expression(&offset, &body);
        let expected = if digits.len() % 2 != 0 {
            Err(BdlError::OddLengthHex)
        } else {
            Ok(hex::decode(&digits).unwrap())
        };
        assert_eq!(decode_hex_body(&body), expected, "{:?}", body);
    }
}

#[test]
fn metadata_text_agrees_with_the_standard_library() {
    let alphabet = [
        "// BDL-META:", "// BDL-META: ", " ", "\t", "\u{a0}", "\n", "\r\n", "\r", "{", "}", "x",
        "/", "// ", ":",
    ];
    let mut numbers = Numbers(0xDEAD_BEEF_CAFE_F00D);
    for _ in 0..5000 {
        let text = numbers.text(&alphabet, 12);
        let expected = match meta_text_by_the_standard_library(&text) {
            Some(json) => Ok(json),
            None => Err(BdlError::MetaNotFound),
        };
        assert_eq!(find_meta_json(&text), expected, "{:?}", text);
    }
}
