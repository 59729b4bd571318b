//! The metadata line of a block.
//!
//! The metadata stands on the first line that, after its leading
//! whitespace, starts with `// BDL-META:`. What follows the marker on that
//! line is a structured-data object. This module finds that text and checks
//! the metadata that the caller has decoded from it; decoding the object
//! itself is the caller's part.

use vstd::prelude::*;
use vstd::slice::slice_subrange;
use crate::error::{BdlError, BdlErrorView};
use crate::text::{
    chars_of, line_extent, lines, lines_from, skip_whitespace, space_run_end, starts_with_at,
    string_of,
};

verus! {

/// The marker that starts the metadata line.
pub const META_MARKER: &'static str = "// BDL-META:";

/// The only version of the metadata that is read.
pub const SUPPORTED_VERSION: u32 = 1;

/// The metadata of a block.
#[allow(non_snake_case)]
#[derive(Debug, Clone, PartialEq, Eq)]
pub struct BdlMeta {
    pub version: u32,
    /// How the payload is written: `hex` or `base64`.
    pub encoding: String,
    pub endianness: String,
    pub framingType: String,
    /// The schema by which the payload is interpreted.
    pub schemaName: String,
    pub sampleLength: u32,
    pub safetyFlags: Vec<String>,
    pub tags: Vec<String>,
}

/// A `BdlMeta` with its texts as sequences of characters.
#[allow(non_snake_case)]
pub struct BdlMetaView {
    pub version: u32,
    pub encoding: Seq<char>,
    pub endianness: Seq<char>,
    pub framingType: Seq<char>,
    pub schemaName: Seq<char>,
    pub sampleLength: u32,
    pub safetyFlags: Seq<Seq<char>>,
    pub tags: Seq<Seq<char>>,
}

impl View for BdlMeta {
    type V = BdlMetaView;

    open spec fn view(&self) -> BdlMetaView {
        BdlMetaView {
            version: self.version,
            encoding: self.encoding@,
            endianness: self.endianness@,
            framingType: self.framingType@,
            schemaName: self.schemaName@,
            sampleLength: self.sampleLength,
            safetyFlags: self.safetyFlags@.map_values(|s: String| s@),
            tags: self.tags@.map_values(|s: String| s@),
        }
    }
}

/// The marker as a sequence of characters.
pub open spec fn marker() -> Seq<char> {
    META_MARKER@
}

/// The line starts with the marker, leading whitespace aside.
pub open spec fn is_meta_line(line: Seq<char>) -> bool {
    marker().is_prefix_of(line.skip(space_run_end(line, 0)))
}

/// What follows the marker on a metadata line, without the whitespace
/// directly behind the marker.
pub open spec fn meta_text_of_line(line: Seq<char>) -> Seq<char> {
    line.skip(space_run_end(line, space_run_end(line, 0) + marker().len()))
}

/// The metadata text of the first metadata line among `ls`.
pub open spec fn first_meta_text(ls: Seq<Seq<char>>) -> Option<Seq<char>>
    decreases ls.len(),
{
    if ls.len() == 0 {
        None
    } else if is_meta_line(ls[0]) {
        Some(meta_text_of_line(ls[0]))
    } else {
        first_meta_text(ls.drop_first())
    }
}

/// The metadata text of a block: what follows the marker on the first
/// metadata line. `None` where the block has no such line.
pub open spec fn meta_text(markdown: Seq<char>) -> Option<Seq<char>> {
    first_meta_text(lines(markdown))
}

/// What checking decoded metadata gives: the version must be 1 and the
/// encoding must be named.
pub open spec fn checked_meta(meta: BdlMeta) -> Result<BdlMeta, BdlErrorView> {
    if meta.version != SUPPORTED_VERSION {
        Err(BdlErrorView::UnsupportedVersion { got: meta.version })
    } else if meta.encoding@.len() == 0 {
        Err(BdlErrorView::MissingEncoding)
    } else {
        Ok(meta)
    }
}

/// What the metadata of a block comes to, given what decoding its metadata
/// text gave: the block must have a metadata line, the text must have
/// decoded, and the metadata must pass the checks, in this order.
pub open spec fn extracted_meta(markdown: Seq<char>, decoded: Result<BdlMeta, String>) -> Result<
    BdlMeta,
    BdlErrorView,
> {
    if meta_text(markdown) is None {
        Err(BdlErrorView::MetaNotFound)
    } else {
        match decoded {
            Err(detail) => Err(BdlErrorView::MetaInvalid { detail: detail@ }),
            Ok(meta) => checked_meta(meta),
        }
    }
}

/// A result of this module against what it should be: the same metadata,
/// or an error with the same view.
pub open spec fn meta_result_is(r: Result<BdlMeta, BdlError>, expected: Result<BdlMeta, BdlErrorView>) -> bool {
    match r {
        Ok(meta) => expected == Ok::<BdlMeta, BdlErrorView>(meta),
        Err(e) => expected == Err::<BdlMeta, BdlErrorView>(e@),
    }
}

/// Finds the metadata text of a block.
pub fn find_meta_json(markdown: &str) -> (r: Result<String, BdlError>)
    ensures
        match r {
            Ok(text) => meta_text(markdown@) == Some(text@),
            Err(e) => meta_text(markdown@) is None && e@ == BdlErrorView::MetaNotFound,
        },
{
    let chars = chars_of(markdown);
    let text = chars.as_slice();
    let mark = chars_of(META_MARKER);
    let mut start: usize = 0;
    while start < text.len()
        invariant
            start <= text.len(),
            text@ == markdown@,
            mark@ == marker(),
            meta_text(markdown@) == first_meta_text(lines_from(text@, start as int)),
        decreases text.len() - start,
    {
        let (end, next) = line_extent(text, start);
        let line = slice_subrange(text, start, end);
        proof {
            let rest = lines_from(text@, next as int);
            assert((seq![line@] + rest).drop_first() =~= rest);
        }
        let lead = skip_whitespace(line, 0);
        if starts_with_at(line, lead, mark.as_slice()) {
            let from = skip_whitespace(line, lead + mark.len());
            return Ok(string_of(slice_subrange(line, from, line.len())));
        }
        start = next;
    }
    Err(BdlError::MetaNotFound)
}

/// Checks decoded metadata.
pub fn check_meta(meta: BdlMeta) -> (r: Result<BdlMeta, BdlError>)
    ensures
        meta_result_is(r, checked_meta(meta)),
{
    if meta.version != SUPPORTED_VERSION {
        return Err(BdlError::UnsupportedVersion { got: meta.version });
    }
    if meta.encoding.as_str().is_empty() {
        return Err(BdlError::MissingEncoding);
    }
    Ok(meta)
}

/// The metadata of a block. `decoded` is what decoding the block's metadata
/// text (see `find_meta_json`) gave: the metadata, or a word on why the
/// text is no metadata object.
pub fn extract_meta(markdown: &str, decoded: Result<BdlMeta, String>) -> (r: Result<
    BdlMeta,
    BdlError,
>)
    ensures
        meta_result_is(r, extracted_meta(markdown@, decoded)),
{
    match find_meta_json(markdown) {
        Err(e) => Err(e),
        Ok(_) => match decoded {
            Err(detail) => Err(BdlError::MetaInvalid { detail }),
            Ok(meta) => check_meta(meta),
        },
    }
}

} // verus!
