use bdl_rust_parser::BdlError;

#[test]
fn failures_in_words() {
    assert_eq!(BdlError::MetaNotFound.message(), "BDL-META header not found");
    assert_eq!(
        BdlError::MetaInvalid { detail: String::from("EOF while parsing") }.message(),
        "Invalid BDL-META JSON: EOF while parsing"
    );
    assert_eq!(
        BdlError::UnsupportedVersion { got: 2 }.message(),
        "Unsupported BDL-META version: 2"
    );
    assert_eq!(
        BdlError::UnsupportedVersion { got: 0 }.message(),
        "Unsupported BDL-META version: 0"
    );
    assert_eq!(
        BdlError::UnsupportedVersion { got: u32::MAX }.message(),
        "Unsupported BDL-META version: 4294967295"
    );
    assert_eq!(BdlError::MissingEncoding.message(), "BDL-META missing encoding");
    assert_eq!(BdlError::FenceNotFound.message(), "Code fence with binary body not found");
    assert_eq!(
        BdlError::FenceLanguageMismatch {
            expected: String::from("hex"),
            got: String::from("base64"),
        }
        .message(),
        "Expected hex fence, got base64"
    );
    assert_eq!(BdlError::OddLengthHex.message(), "Odd-length hex body");
    assert_eq!(
        BdlError::HexDecodeError { detail: String::from("Invalid character") }.message(),
        "Hex decode error: Invalid character"
    );
    assert_eq!(
        BdlError::Base64DecodeError { detail: String::from("Invalid padding") }.message(),
        "Base64 decode error: Invalid padding"
    );
    assert_eq!(
        BdlError::UnsupportedEncoding { name: String::from("rot13") }.message(),
        "Unsupported encoding: rot13"
    );
}

#[test]
fn failures_compare_by_what_they_hold() {
    assert_eq!(BdlError::OddLengthHex, BdlError::OddLengthHex);
    assert_ne!(BdlError::OddLengthHex, BdlError::FenceNotFound);
    assert_ne!(
        BdlError::UnsupportedVersion { got: 2 },
        BdlError::UnsupportedVersion { got: 3 }
    );
}
