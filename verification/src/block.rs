//! Reading a whole block: metadata, payload, interpretation.

use vstd::prelude::*;
use crate::blob::{parse_raw_blob, raw_blob, sha256, RawBlobAst, RawBlobView};
use crate::error::{BdlError, BdlErrorView};
use crate::hex::{hex_lower, lemma_hex_round_trip};
use crate::meta::{extract_meta, extracted_meta, meta_text, BdlMeta, SUPPORTED_VERSION};
use crate::payload::{
    extract_bytes, extracted_bytes, fence_of, lemma_plain_hex_body, HEX_ENCODING,
};
use crate::text::same_text;
use crate::tlv::{parse_example_tlv, tlv_sequence, TlvSequenceAst, TlvSequenceView};

verus! {

/// The name of the one schema that frames its payload.
pub const TLV_SCHEMA: &'static str = "ExampleTLV";

/// How a payload is interpreted.
#[derive(Debug, Clone, Copy, PartialEq, Eq)]
pub enum Schema {
    /// As a sequence of type-length-value frames.
    Tlv,
    /// As bytes of no known structure, which are summarised.
    Raw,
}

/// What a payload was interpreted as.
#[derive(Debug, Clone, PartialEq, Eq)]
pub enum Ast {
    Tlv(TlvSequenceAst),
    Raw(RawBlobAst),
}

/// An `Ast` as a value of the model.
pub enum AstView {
    Tlv(TlvSequenceView),
    Raw(RawBlobView),
}

impl View for Ast {
    type V = AstView;

    open spec fn view(&self) -> AstView {
        match *self {
            Ast::Tlv(ast) => AstView::Tlv(ast@),
            Ast::Raw(ast) => AstView::Raw(ast@),
        }
    }
}

/// The schema that a name stands for: every name but `ExampleTLV` stands
/// for the summary.
pub open spec fn schema_named(name: Seq<char>) -> Schema {
    if name == TLV_SCHEMA@ {
        Schema::Tlv
    } else {
        Schema::Raw
    }
}

/// The interpretation of a payload under a schema.
pub open spec fn interpreted(schema: Schema, bytes: Seq<u8>) -> AstView {
    match schema {
        Schema::Tlv => AstView::Tlv(tlv_sequence(bytes)),
        Schema::Raw => AstView::Raw(raw_blob(bytes)),
    }
}

/// What reading a block gives, given what decoding its metadata text gave:
/// the first failure of metadata and payload, in this order, or the
/// metadata with the interpretation of the payload.
pub open spec fn parsed_block(markdown: Seq<char>, decoded: Result<BdlMeta, String>) -> Result<
    (BdlMeta, AstView),
    BdlErrorView,
> {
    match extracted_meta(markdown, decoded) {
        Err(e) => Err(e),
        Ok(meta) => match extracted_bytes(markdown, meta.encoding@) {
            Err(e) => Err(e),
            Ok(bytes) => Ok((meta, interpreted(schema_named(meta.schemaName@), bytes))),
        },
    }
}

/// The schema that a name stands for.
pub fn schema_for(name: &str) -> (schema: Schema)
    ensures
        schema == schema_named(name@),
{
    if same_text(name, TLV_SCHEMA) {
        Schema::Tlv
    } else {
        Schema::Raw
    }
}

/// Interprets a payload under a schema.
pub fn interpret(schema: Schema, bytes: &[u8]) -> (ast: Ast)
    ensures
        ast@ == interpreted(schema, bytes@),
{
    match schema {
        Schema::Tlv => Ast::Tlv(parse_example_tlv(bytes)),
        Schema::Raw => Ast::Raw(parse_raw_blob(bytes)),
    }
}

/// Interprets a payload under the schema that the metadata names. A name
/// that stands for no framing is no error: the payload is summarised.
pub fn parse_with_schema(meta: &BdlMeta, bytes: &[u8]) -> (ast: Ast)
    ensures
        ast@ == interpreted(schema_named(meta.schemaName@), bytes@),
{
    interpret(schema_for(meta.schemaName.as_str()), bytes)
}

/// Reads a block. `decoded` is what decoding the block's metadata text
/// (see `find_meta_json`) gave.
pub fn parse_bdl_block(markdown: &str, decoded: Result<BdlMeta, String>) -> (r: Result<
    (BdlMeta, Ast),
    BdlError,
>)
    ensures
        match r {
            Ok(found) => parsed_block(markdown@, decoded) == Ok::<(BdlMeta, AstView), BdlErrorView>(
                (found.0, found.1@),
            ),
            Err(e) => parsed_block(markdown@, decoded) == Err::<(BdlMeta, AstView), BdlErrorView>(e@),
        },
{
    let meta = match extract_meta(markdown, decoded) {
        Ok(meta) => meta,
        Err(e) => {
            return Err(e);
        },
    };
    let bytes = match extract_bytes(markdown, meta.encoding.as_str()) {
        Ok(bytes) => bytes,
        Err(e) => {
            return Err(e);
        },
    };
    let ast = parse_with_schema(&meta, bytes.as_slice());
    Ok((meta, ast))
}

/// Bytes written as hexadecimal text come back from a block: where the
/// fenced region of a block is tagged `hex` and its body is the
/// hexadecimal text of `bytes`, alone or with a line end behind it, and
/// the metadata declares the encoding `hex` and names a schema other than
/// `ExampleTLV`, reading the block gives the summary of `bytes`, whose
/// length is the number of bytes and whose hash is the hash of `bytes`.
pub proof fn lemma_hex_block_round_trip(
    markdown: Seq<char>,
    meta: BdlMeta,
    tag: Seq<char>,
    body: Seq<char>,
    bytes: Seq<u8>,
)
    requires
        meta_text(markdown) is Some,
        meta.version == SUPPORTED_VERSION,
        meta.encoding@ == HEX_ENCODING@,
        meta.schemaName@ != TLV_SCHEMA@,
        tag == HEX_ENCODING@,
        body == hex_lower(bytes) || body == hex_lower(bytes).push('\n'),
    ensures
        fence_of(markdown) == Some((tag, body)) ==> parsed_block(
            markdown,
            Ok::<BdlMeta, String>(meta),
        ) == Ok::<(BdlMeta, AstView), BdlErrorView>((meta, AstView::Raw(raw_blob(bytes)))),
        fence_of(markdown) == Some((tag, body)) ==> extracted_bytes(markdown, meta.encoding@)
            == Ok::<Seq<u8>, BdlErrorView>(bytes),
        raw_blob(bytes).length == bytes.len(),
        raw_blob(bytes).sha256 == hex_lower(sha256(bytes)),
{
    lemma_hex_round_trip(bytes);
    lemma_plain_hex_body(hex_lower(bytes));
    reveal_strlit("hex");
    assert(meta.encoding@.len() > 0);
}

} // verus!
