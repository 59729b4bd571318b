//! The fenced payload of a block and the bytes it stands for.
//!
//! The payload is the body of the first fenced region of the text: three
//! backticks, a language tag, a line end, the body, three backticks. The
//! tag must name the encoding that the metadata declares. A `hex` body may
//! be laid out as a hex dump: on each line, what stands from the first `|`
//! on is an ASCII preview, and a leading run of hexadecimal digits with
//! whitespace behind it is an offset column; neither is payload. What is
//! left of the lines is read as hexadecimal digits, everything else in it
//! being separators. A `base64` body is decoded with its whitespace taken
//! out.

use base64::Engine;
use vstd::prelude::*;
use vstd::slice::slice_subrange;
use vstd::string::StringExecFns;
use crate::error::{BdlError, BdlErrorView};
use crate::hex::{bytes_result_view, decode_hex_digits, decoded_hex, is_hex_text};
use crate::text::{
    chars_of, find_char, hex_digits_of, hex_run_end, is_hex_digit, is_whitespace,
    lemma_hex_run, lemma_hex_run_is, lemma_position_of_is, lemma_space_run, lemma_space_run_is,
    line_extent, lines, lines_from, position_of, push_hex_digits, same_text,
    skip_hex_digits, skip_whitespace, space_run_end, strip_whitespace, without_whitespace,
};

verus! {

/// The regular expression that a fenced region matches: the opening fence,
/// the language tag (first group), a line end, the body (second group, as
/// short as can be), the closing fence.
pub const FENCE_PATTERN: &'static str = "```([A-Za-z0-9]+)\\r?\\n([\\s\\S]*?)```";

/// The encoding whose body is hexadecimal text.
pub const HEX_ENCODING: &'static str = "hex";

/// The encoding whose body is base64 text.
pub const BASE64_ENCODING: &'static str = "base64";

/// What the crate `regex` finds when it searches `text` for `pattern`: the
/// texts of the first and of the second capture group of the leftmost
/// match. `None` where the pattern is no regular expression, where nothing
/// matches, or where one of the two groups has no part in the match.
pub uninterp spec fn regex_first_match(pattern: Seq<char>, text: Seq<char>) -> Option<
    (Seq<char>, Seq<char>),
>;

/// What the crate `base64` makes of a text with its standard alphabet and
/// padding: the bytes, or its word on why the text does not decode.
pub uninterp spec fn base64_decoded(text: Seq<char>) -> Result<Seq<u8>, Seq<char>>;

/// `regex::Regex::new`, `Regex::captures` and `Captures::get`: the first
/// two capture groups of the leftmost match, which depend on the pattern
/// and the text alone.
#[verifier::external_body]
pub(crate) fn first_match_groups(pattern: &str, text: &str) -> (found: Option<(String, String)>)
    ensures
        match found {
            Some(groups) => regex_first_match(pattern@, text@) == Some((groups.0@, groups.1@)),
            None => regex_first_match(pattern@, text@) is None,
        },
{
    let found = regex::Regex::new(pattern).ok()?.captures(text)?;
    Some((found.get(1)?.as_str().to_owned(), found.get(2)?.as_str().to_owned()))
}

/// `Engine::decode` of `base64::engine::general_purpose::STANDARD`: the
/// decoded bytes or the rendered error, which depend on the text alone.
#[verifier::external_body]
pub(crate) fn base64_decode(text: &str) -> (out: Result<Vec<u8>, String>)
    ensures
        match out {
            Ok(bytes) => base64_decoded(text@) == Ok::<Seq<u8>, Seq<char>>(bytes@),
            Err(detail) => base64_decoded(text@) == Err::<Seq<u8>, Seq<char>>(detail@),
        },
{
    base64::engine::general_purpose::STANDARD.decode(text).map_err(|e| e.to_string())
}

/// The fenced region of a text: its language tag and its body.
pub open spec fn fence_of(markdown: Seq<char>) -> Option<(Seq<char>, Seq<char>)> {
    regex_first_match(FENCE_PATTERN@, markdown)
}

/// The line up to its first `|`.
pub open spec fn without_preview(line: Seq<char>) -> Seq<char> {
    line.take(position_of(line, '|', 0))
}

/// The text starts with an offset column: hexadecimal digits, at least
/// one, with whitespace directly behind them.
pub open spec fn has_offset_column(s: Seq<char>) -> bool {
    0 < hex_run_end(s, 0) && hex_run_end(s, 0) < space_run_end(s, hex_run_end(s, 0))
}

/// The text without its offset column and the whitespace behind it; the
/// text itself where it has no such column.
pub open spec fn without_offset(s: Seq<char>) -> Seq<char> {
    if has_offset_column(s) {
        s.skip(space_run_end(s, hex_run_end(s, 0)))
    } else {
        s
    }
}

/// The hexadecimal digits that a line of a dump contributes.
pub open spec fn line_hex_digits(line: Seq<char>) -> Seq<char> {
    hex_digits_of(without_offset(without_preview(line)))
}

/// The hexadecimal digits of the given lines, one after the other.
pub open spec fn lines_hex_digits(ls: Seq<Seq<char>>) -> Seq<char>
    decreases ls.len(),
{
    if ls.len() == 0 {
        Seq::empty()
    } else {
        line_hex_digits(ls[0]) + lines_hex_digits(ls.drop_first())
    }
}

/// The hexadecimal digits of a body.
pub open spec fn body_hex_digits(body: Seq<char>) -> Seq<char> {
    lines_hex_digits(lines(body))
}

/// What a fenced region decodes to under the declared encoding. The tag
/// must be the encoding, letter for letter; a mismatch hands back the tag
/// as it was found.
pub open spec fn decoded_payload(tag: Seq<char>, body: Seq<char>, encoding: Seq<char>) -> Result<
    Seq<u8>,
    BdlErrorView,
> {
    if encoding == HEX_ENCODING@ {
        if tag != HEX_ENCODING@ {
            Err(BdlErrorView::FenceLanguageMismatch { expected: HEX_ENCODING@, got: tag })
        } else {
            decoded_hex(body_hex_digits(body))
        }
    } else if encoding == BASE64_ENCODING@ {
        if tag != BASE64_ENCODING@ {
            Err(BdlErrorView::FenceLanguageMismatch { expected: BASE64_ENCODING@, got: tag })
        } else {
            match base64_decoded(without_whitespace(body)) {
                Ok(bytes) => Ok(bytes),
                Err(detail) => Err(BdlErrorView::Base64DecodeError { detail }),
            }
        }
    } else {
        Err(BdlErrorView::UnsupportedEncoding { name: encoding })
    }
}

/// The bytes of a block's payload under the declared encoding.
pub open spec fn extracted_bytes(markdown: Seq<char>, encoding: Seq<char>) -> Result<
    Seq<u8>,
    BdlErrorView,
> {
    match fence_of(markdown) {
        None => Err(BdlErrorView::FenceNotFound),
        Some((tag, body)) => decoded_payload(tag, body, encoding),
    }
}

/// Appends to `out` the hexadecimal digits that a line contributes.
pub fn push_line_hex_digits(out: &mut String, line: &[char])
    ensures
        final(out)@ == old(out)@ + line_hex_digits(line@),
{
    let bar = find_char(line, '|', 0);
    let shown = slice_subrange(line, 0, bar);
    let digits_end = skip_hex_digits(shown, 0);
    let gap_end = skip_whitespace(shown, digits_end);
    if 0 < digits_end && digits_end < gap_end {
        push_hex_digits(out, slice_subrange(shown, gap_end, shown.len()));
    } else {
        push_hex_digits(out, shown);
    }
}

/// The hexadecimal digits of a body.
pub fn hex_digits_of_body(body: &str) -> (digits: String)
    ensures
        digits@ == body_hex_digits(body@),
        forall|i: int| 0 <= i < digits@.len() ==> is_hex_digit(#[trigger] digits@[i]),
{
    let chars = chars_of(body);
    let text = chars.as_slice();
    let mut digits = String::new();
    let mut start: usize = 0;
    while start < text.len()
        invariant
            start <= text.len(),
            text@ == body@,
            body_hex_digits(body@) == digits@ + lines_hex_digits(lines_from(text@, start as int)),
        decreases text.len() - start,
    {
        let (end, next) = line_extent(text, start);
        let line = slice_subrange(text, start, end);
        proof {
            let rest = lines_from(text@, next as int);
            assert((seq![line@] + rest).drop_first() =~= rest);
            assert((digits@ + line_hex_digits(line@)) + lines_hex_digits(rest) =~= digits@ + (
            line_hex_digits(line@) + lines_hex_digits(rest)));
        }
        push_line_hex_digits(&mut digits, line);
        start = next;
    }
    proof {
        assert(digits@ + Seq::<char>::empty() =~= digits@);
        lemma_body_digits_are_digits(body@);
    }
    digits
}

/// Decodes a body of hexadecimal text, laid out as a dump or not.
pub fn decode_hex_body(body: &str) -> (r: Result<Vec<u8>, BdlError>)
    ensures
        bytes_result_view(r) == decoded_hex(body_hex_digits(body@)),
        r matches Err(e) ==> e@ == BdlErrorView::OddLengthHex,
{
    let digits = hex_digits_of_body(body);
    decode_hex_digits(digits.as_str())
}

/// Decodes a body of base64 text.
pub fn decode_base64_body(body: &str) -> (r: Result<Vec<u8>, BdlError>)
    ensures
        bytes_result_view(r) == match base64_decoded(without_whitespace(body@)) {
            Ok(bytes) => Ok::<Seq<u8>, BdlErrorView>(bytes),
            Err(detail) => Err(BdlErrorView::Base64DecodeError { detail }),
        },
{
    let chars = chars_of(body);
    let packed = strip_whitespace(chars.as_slice());
    match base64_decode(packed.as_str()) {
        Ok(bytes) => Ok(bytes),
        Err(detail) => Err(BdlError::Base64DecodeError { detail }),
    }
}

/// Decodes a fenced region, given its language tag and its body, under the
/// declared encoding.
pub fn decode_payload(tag: &str, body: &str, encoding: &str) -> (r: Result<Vec<u8>, BdlError>)
    ensures
        bytes_result_view(r) == decoded_payload(tag@, body@, encoding@),
{
    if same_text(encoding, HEX_ENCODING) {
        if !same_text(tag, HEX_ENCODING) {
            return Err(
                BdlError::FenceLanguageMismatch {
                    expected: String::from_str(HEX_ENCODING),
                    got: String::from_str(tag),
                },
            );
        }
        decode_hex_body(body)
    } else if same_text(encoding, BASE64_ENCODING) {
        if !same_text(tag, BASE64_ENCODING) {
            return Err(
                BdlError::FenceLanguageMismatch {
                    expected: String::from_str(BASE64_ENCODING),
                    got: String::from_str(tag),
                },
            );
        }
        decode_base64_body(body)
    } else {
        Err(BdlError::UnsupportedEncoding { name: String::from_str(encoding) })
    }
}

/// The bytes of a block's payload: finds the fenced region and decodes its
/// body under the declared encoding.
pub fn extract_bytes(markdown: &str, encoding: &str) -> (r: Result<Vec<u8>, BdlError>)
    ensures
        bytes_result_view(r) == extracted_bytes(markdown@, encoding@),
{
    match first_match_groups(FENCE_PATTERN, markdown) {
        None => Err(BdlError::FenceNotFound),
        Some(groups) => decode_payload(groups.0.as_str(), groups.1.as_str(), encoding),
    }
}

/// What a line contributes are hexadecimal digits.
pub proof fn lemma_line_digits_are_digits(line: Seq<char>)
    ensures
        forall|i: int|
            0 <= i < line_hex_digits(line).len() ==> is_hex_digit(#[trigger] line_hex_digits(line)[i]),
{
    let s = without_offset(without_preview(line));
    let pred = |c: char| is_hex_digit(c);
    assert forall|i: int| 0 <= i < s.filter(pred).len() implies is_hex_digit(
        #[trigger] s.filter(pred)[i],
    ) by {
        s.lemma_filter_pred(pred, i);
    }
}

/// What lines contribute are hexadecimal digits.
pub proof fn lemma_lines_digits_are_digits(ls: Seq<Seq<char>>)
    ensures
        forall|i: int|
            0 <= i < lines_hex_digits(ls).len() ==> is_hex_digit(#[trigger] lines_hex_digits(ls)[i]),
    decreases ls.len(),
{
    if ls.len() > 0 {
        let head = line_hex_digits(ls[0]);
        let tail = lines_hex_digits(ls.drop_first());
        lemma_line_digits_are_digits(ls[0]);
        lemma_lines_digits_are_digits(ls.drop_first());
        assert forall|i: int| 0 <= i < (head + tail).len() implies is_hex_digit(
            #[trigger] (head + tail)[i],
        ) by {
            if i < head.len() {
                assert((head + tail)[i] == head[i]);
            } else {
                assert((head + tail)[i] == tail[i - head.len()]);
            }
        }
    }
}

/// What is read from a body holds hexadecimal digits and nothing else, so
/// decoding it can fail on their number alone.
pub proof fn lemma_body_digits_are_digits(body: Seq<char>)
    ensures
        forall|i: int|
            0 <= i < body_hex_digits(body).len() ==> is_hex_digit(#[trigger] body_hex_digits(body)[i]),
        body_hex_digits(body).len() % 2 == 0 ==> is_hex_text(body_hex_digits(body)),
        decoded_hex(body_hex_digits(body)) is Err ==> decoded_hex(body_hex_digits(body)) == Err::<
            Seq<u8>,
            BdlErrorView,
        >(BdlErrorView::OddLengthHex),
{
    lemma_lines_digits_are_digits(lines(body));
}

/// A text of hexadecimal digits is all digits.
pub proof fn lemma_digits_kept(s: Seq<char>)
    requires
        forall|i: int| 0 <= i < s.len() ==> is_hex_digit(#[trigger] s[i]),
    ensures
        hex_digits_of(s) == s,
    decreases s.len(),
{
    reveal(Seq::filter);
    if s.len() > 0 {
        lemma_digits_kept(s.drop_last());
        assert(s.drop_last().push(s.last()) =~= s);
    }
}

/// A text without hexadecimal digits has none.
pub proof fn lemma_no_digits(s: Seq<char>)
    requires
        forall|i: int| 0 <= i < s.len() ==> !is_hex_digit(#[trigger] s[i]),
    ensures
        hex_digits_of(s) == Seq::<char>::empty(),
    decreases s.len(),
{
    reveal(Seq::filter);
    if s.len() > 0 {
        lemma_no_digits(s.drop_last());
    }
}

/// The digits of two texts in a row are the digits of the first and then
/// those of the second.
pub proof fn lemma_digits_of_concat(a: Seq<char>, b: Seq<char>)
    ensures
        hex_digits_of(a + b) == hex_digits_of(a) + hex_digits_of(b),
{
    Seq::filter_distributes_over_add(a, b, |c: char| is_hex_digit(c));
}

/// A line that holds hexadecimal digits and nothing else contributes
/// itself.
pub proof fn lemma_plain_hex_line(h: Seq<char>)
    requires
        forall|i: int| 0 <= i < h.len() ==> is_hex_digit(#[trigger] h[i]),
    ensures
        line_hex_digits(h) == h,
{
    lemma_position_of_is(h, '|', 0, h.len() as int);
    assert(h.take(h.len() as int) =~= h);
    lemma_hex_run_is(h, 0, h.len() as int);
    lemma_digits_kept(h);
}

/// A body that is one run of hexadecimal digits, with a line feed behind
/// it or not, holds those digits.
pub proof fn lemma_plain_hex_body(h: Seq<char>)
    requires
        forall|i: int| 0 <= i < h.len() ==> is_hex_digit(#[trigger] h[i]),
    ensures
        body_hex_digits(h) == h,
        body_hex_digits(h.push('\n')) == h,
{
    lemma_plain_hex_line(h);
    let empty = Seq::<Seq<char>>::empty();
    assert(lines_hex_digits(empty) =~= Seq::<char>::empty());
    if h.len() > 0 {
        lemma_position_of_is(h, '\n', 0, h.len() as int);
        assert(h.subrange(0, h.len() as int) =~= h);
        assert(lines_from(h, h.len() as int) =~= empty);
        assert(lines(h) =~= seq![h]);
        assert(seq![h].drop_first() =~= empty);
        assert(lines_hex_digits(seq![h]) =~= h);
    } else {
        assert(lines(h) =~= empty);
        assert(h =~= Seq::<char>::empty());
    }
    let b = h.push('\n');
    lemma_position_of_is(b, '\n', 0, h.len() as int);
    assert(b.subrange(0, h.len() as int) =~= h);
    assert(lines_from(b, b.len() as int) =~= empty);
    assert(lines(b) =~= seq![h]);
    assert(seq![h].drop_first() =~= empty);
    assert(lines_hex_digits(seq![h]) =~= h);
}

/// The text is an offset column: hexadecimal digits, at least one, then
/// whitespace, at least one character of it, and nothing else.
pub open spec fn is_offset_column(s: Seq<char>) -> bool {
    0 < hex_run_end(s, 0) && hex_run_end(s, 0) < s.len() && space_run_end(s, hex_run_end(s, 0))
        == s.len()
}

/// The line holds neither column: no `|`, and no leading digits with
/// whitespace behind them.
pub open spec fn is_column_free(line: Seq<char>) -> bool {
    !line.contains('|') && !has_offset_column(line)
}

/// `line` is `payload` laid out as a line of a dump: with an offset column
/// in front of it or none, and with an ASCII preview behind it or none.
/// The payload holds no `|`; where no offset column stands in front of it,
/// it does not start with what reads as one.
pub open spec fn is_dump_line_of(line: Seq<char>, payload: Seq<char>) -> bool {
    &&& !payload.contains('|')
    &&& exists|lead: Seq<char>, trail: Seq<char>|
        {
            &&& #[trigger] (lead + payload + trail) == line
            &&& is_offset_column(lead) || (lead.len() == 0 && !has_offset_column(payload))
            &&& trail.len() == 0 || trail[0] == '|'
        }
}

/// A line that holds neither column is read whole.
pub proof fn lemma_column_free_line_is_read_whole(line: Seq<char>)
    requires
        is_column_free(line),
    ensures
        line_hex_digits(line) == hex_digits_of(line),
{
    assert forall|k: int| 0 <= k < line.len() implies line[k] != '|' by {
        assert(!line.contains('|'));
    }
    lemma_position_of_is(line, '|', 0, line.len() as int);
    assert(line.take(line.len() as int) =~= line);
}

/// The columns of a dump take nothing from a line: a payload laid out with
/// an offset column, an ASCII preview, both or neither contributes the
/// hexadecimal digits of the payload. Behind an offset column the payload
/// may start with anything, digits and whitespace too: one column is taken
/// from a line and no more.
pub proof fn lemma_dump_line_is_lossless(line: Seq<char>, payload: Seq<char>)
    requires
        is_dump_line_of(line, payload),
    ensures
        line_hex_digits(line) == hex_digits_of(payload),
{
    let (lead, trail) = choose|lead: Seq<char>, trail: Seq<char>|
        {
            &&& #[trigger] (lead + payload + trail) == line
            &&& is_offset_column(lead) || (lead.len() == 0 && !has_offset_column(payload))
            &&& trail.len() == 0 || trail[0] == '|'
        };
    assert forall|k: int| 0 <= k < payload.len() implies payload[k] != '|' by {
        assert(!payload.contains('|'));
    }
    // The preview goes first.
    let shown = lead + payload;
    if lead.len() > 0 {
        lemma_hex_run(lead, 0);
        lemma_space_run(lead, hex_run_end(lead, 0));
    }
    assert forall|k: int| 0 <= k < shown.len() implies line[k] != '|' by {
        if k < lead.len() {
            assert(line[k] == lead[k]);
            assert(is_hex_digit(lead[k]) || is_whitespace(lead[k]));
        } else {
            assert(line[k] == payload[k - lead.len()]);
        }
    }
    if trail.len() > 0 {
        assert(line[shown.len() as int] == trail[0]);
    }
    lemma_position_of_is(line, '|', 0, shown.len() as int);
    assert(line.take(shown.len() as int) =~= shown);
    assert(without_preview(line) == shown);
    // Then the offset column.
    if lead.len() == 0 {
        assert(shown =~= payload);
    } else {
        let digits_end = hex_run_end(lead, 0);
        assert forall|k: int| 0 <= k < digits_end implies is_hex_digit(#[trigger] shown[k]) by {
            assert(shown[k] == lead[k]);
        }
        assert(shown[digits_end] == lead[digits_end]);
        assert(is_whitespace(lead[digits_end]));
        lemma_hex_run_is(shown, 0, digits_end);
        lemma_space_run(payload, 0);
        let inner = space_run_end(payload, 0);
        let gap_end = lead.len() + inner;
        assert forall|k: int| digits_end <= k < gap_end implies is_whitespace(
            #[trigger] shown[k],
        ) by {
            if k < lead.len() {
                assert(shown[k] == lead[k]);
            } else {
                assert(shown[k] == payload[k - lead.len()]);
            }
        }
        if gap_end < shown.len() {
            assert(shown[gap_end] == payload[inner]);
        }
        lemma_space_run_is(shown, digits_end, gap_end);
        assert(has_offset_column(shown));
        assert(without_offset(shown) == shown.skip(gap_end));
        assert(shown.skip(gap_end) =~= payload.skip(inner));
        assert(payload =~= payload.take(inner) + payload.skip(inner));
        lemma_digits_of_concat(payload.take(inner), payload.skip(inner));
        lemma_no_digits(payload.take(inner));
        assert(Seq::<char>::empty() + hex_digits_of(payload.skip(inner)) =~= hex_digits_of(
            payload.skip(inner),
        ));
    }
}

/// Two lists of lines that correspond line by line, each line of the first
/// being a line of the second laid out as a line of a dump, and the lines
/// of the second holding neither column, hold the same hexadecimal digits.
pub proof fn lemma_dump_lines_are_lossless(dump: Seq<Seq<char>>, plain: Seq<Seq<char>>)
    requires
        dump.len() == plain.len(),
        forall|i: int| 0 <= i < dump.len() ==> is_dump_line_of(#[trigger] dump[i], plain[i]),
        forall|i: int| 0 <= i < plain.len() ==> is_column_free(#[trigger] plain[i]),
    ensures
        lines_hex_digits(dump) == lines_hex_digits(plain),
    decreases dump.len(),
{
    if dump.len() > 0 {
        lemma_dump_line_is_lossless(dump[0], plain[0]);
        lemma_column_free_line_is_read_whole(plain[0]);
        assert forall|i: int| 0 <= i < dump.drop_first().len() implies is_dump_line_of(
            #[trigger] dump.drop_first()[i],
            plain.drop_first()[i],
        ) by {
            assert(is_dump_line_of(dump[i + 1], plain[i + 1]));
        }
        assert forall|i: int| 0 <= i < plain.drop_first().len() implies is_column_free(
            #[trigger] plain.drop_first()[i],
        ) by {
            assert(is_column_free(plain[i + 1]));
        }
        lemma_dump_lines_are_lossless(dump.drop_first(), plain.drop_first());
    }
}

/// Stripping the columns of a hex dump loses nothing: a body laid out as a
/// dump, with an offset column or an ASCII preview on any of its lines,
/// decodes to the same bytes, or fails in the same way, as the body that
/// holds the same lines without those columns.
pub proof fn lemma_gutter_stripping_is_lossless(dump: Seq<char>, plain: Seq<char>)
    requires
        lines(dump).len() == lines(plain).len(),
        forall|i: int|
            0 <= i < lines(dump).len() ==> is_dump_line_of(#[trigger] lines(dump)[i], lines(plain)[i]),
        forall|i: int| 0 <= i < lines(plain).len() ==> is_column_free(#[trigger] lines(plain)[i]),
    ensures
        body_hex_digits(dump) == body_hex_digits(plain),
        decoded_hex(body_hex_digits(dump)) == decoded_hex(body_hex_digits(plain)),
        decoded_payload(HEX_ENCODING@, dump, HEX_ENCODING@) == decoded_payload(
            HEX_ENCODING@,
            plain,
            HEX_ENCODING@,
        ),
{
    lemma_dump_lines_are_lossless(lines(dump), lines(plain));
}

} // verus!
