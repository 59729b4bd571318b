//! The ways in which reading a block fails.

use vstd::prelude::*;
use vstd::string::StringExecFns;
use crate::text::{decimal, decimal_text};

verus! {

/// Why a block could not be read. The first four come from the metadata
/// line, the others from the fenced payload.
#[allow(inconsistent_fields)]
#[derive(Debug, Clone, PartialEq, Eq)]
pub enum BdlError {
    /// No line of the text starts with the metadata marker.
    MetaNotFound,
    /// The text after the marker is no metadata object.
    MetaInvalid { detail: String },
    /// The metadata names a version other than 1.
    UnsupportedVersion { got: u32 },
    /// The metadata names no encoding.
    MissingEncoding,
    /// The text holds no fenced region.
    FenceNotFound,
    /// The fence is tagged with another language than the metadata's encoding.
    FenceLanguageMismatch { expected: String, got: String },
    /// The hexadecimal digits of the body do not pair up.
    OddLengthHex,
    /// The hexadecimal text does not decode.
    HexDecodeError { detail: String },
    /// The base64 text does not decode.
    Base64DecodeError { detail: String },
    /// The metadata names an encoding that is neither `hex` nor `base64`.
    UnsupportedEncoding { name: String },
}

/// A `BdlError` with its texts as sequences of characters.
#[allow(inconsistent_fields)]
pub enum BdlErrorView {
    MetaNotFound,
    MetaInvalid { detail: Seq<char> },
    UnsupportedVersion { got: u32 },
    MissingEncoding,
    FenceNotFound,
    FenceLanguageMismatch { expected: Seq<char>, got: Seq<char> },
    OddLengthHex,
    HexDecodeError { detail: Seq<char> },
    Base64DecodeError { detail: Seq<char> },
    UnsupportedEncoding { name: Seq<char> },
}

impl View for BdlError {
    type V = BdlErrorView;

    open spec fn view(&self) -> BdlErrorView {
        match *self {
            BdlError::MetaNotFound => BdlErrorView::MetaNotFound,
            BdlError::MetaInvalid { detail } => BdlErrorView::MetaInvalid { detail: detail@ },
            BdlError::UnsupportedVersion { got } => BdlErrorView::UnsupportedVersion { got },
            BdlError::MissingEncoding => BdlErrorView::MissingEncoding,
            BdlError::FenceNotFound => BdlErrorView::FenceNotFound,
            BdlError::FenceLanguageMismatch { expected, got } => BdlErrorView::FenceLanguageMismatch {
                expected: expected@,
                got: got@,
            },
            BdlError::OddLengthHex => BdlErrorView::OddLengthHex,
            BdlError::HexDecodeError { detail } => BdlErrorView::HexDecodeError { detail: detail@ },
            BdlError::Base64DecodeError { detail } => BdlErrorView::Base64DecodeError {
                detail: detail@,
            },
            BdlError::UnsupportedEncoding { name } => BdlErrorView::UnsupportedEncoding { name: name@ },
        }
    }
}

/// The failure in words.
pub open spec fn message_of(e: BdlErrorView) -> Seq<char> {
    match e {
        BdlErrorView::MetaNotFound => "BDL-META header not found"@,
        BdlErrorView::MetaInvalid { detail } => "Invalid BDL-META JSON: "@ + detail,
        BdlErrorView::UnsupportedVersion { got } => "Unsupported BDL-META version: "@ + decimal(
            got as nat,
        ),
        BdlErrorView::MissingEncoding => "BDL-META missing encoding"@,
        BdlErrorView::FenceNotFound => "Code fence with binary body not found"@,
        BdlErrorView::FenceLanguageMismatch { expected, got } => "Expected "@ + expected
            + " fence, got "@ + got,
        BdlErrorView::OddLengthHex => "Odd-length hex body"@,
        BdlErrorView::HexDecodeError { detail } => "Hex decode error: "@ + detail,
        BdlErrorView::Base64DecodeError { detail } => "Base64 decode error: "@ + detail,
        BdlErrorView::UnsupportedEncoding { name } => "Unsupported encoding: "@ + name,
    }
}

impl BdlError {
    /// The failure in words.
    pub fn message(&self) -> (text: String)
        ensures
            text@ == message_of(self@),
    {
        match self {
            BdlError::MetaNotFound => String::from_str("BDL-META header not found"),
            BdlError::MetaInvalid { detail } => {
                let mut text = String::from_str("Invalid BDL-META JSON: ");
                text.append(detail.as_str());
                text
            },
            BdlError::UnsupportedVersion { got } => {
                let mut text = String::from_str("Unsupported BDL-META version: ");
                text.append(decimal_text(*got as u64).as_str());
                text
            },
            BdlError::MissingEncoding => String::from_str("BDL-META missing encoding"),
            BdlError::FenceNotFound => String::from_str("Code fence with binary body not found"),
            BdlError::FenceLanguageMismatch { expected, got } => {
                let mut text = String::from_str("Expected ");
                text.append(expected.as_str());
                text.append(" fence, got ");
                text.append(got.as_str());
                text
            },
            BdlError::OddLengthHex => String::from_str("Odd-length hex body"),
            BdlError::HexDecodeError { detail } => {
                let mut text = String::from_str("Hex decode error: ");
                text.append(detail.as_str());
                text
            },
            BdlError::Base64DecodeError { detail } => {
                let mut text = String::from_str("Base64 decode error: ");
                text.append(detail.as_str());
                text
            },
            BdlError::UnsupportedEncoding { name } => {
                let mut text = String::from_str("Unsupported encoding: ");
                text.append(name.as_str());
                text
            },
        }
    }
}

} // verus!
