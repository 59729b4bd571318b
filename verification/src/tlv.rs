//! Type-length-value framing of a decoded payload.
//!
//! A frame is one type byte, one length byte and as many value bytes as
//! the length byte says. Framing reads frames from the start of the payload
//! until fewer than two bytes are left, a frame's value would run past the
//! end, or `MAX_FRAMES` frames have been read. What it does not read is the
//! remainder; no payload is an error.

use vstd::prelude::*;
use vstd::slice::slice_subrange;
use vstd::string::StringExecFns;
use crate::hex::{hex_encode, hex_lower};

verus! {

/// The most frames that framing reads from one payload.
pub const MAX_FRAMES: usize = 64;

/// One frame of a payload.
#[allow(non_snake_case)]
#[derive(Debug, Clone, PartialEq, Eq)]
pub struct TlvFrame {
    /// The frame's place in the sequence, from 0.
    pub index: usize,
    /// Where the frame's type byte stands in the payload.
    pub offset: usize,
    /// The type byte.
    pub frameType: u8,
    /// The length byte: how many value bytes follow.
    pub length: u8,
    /// The value bytes in lower-case hexadecimal.
    pub valueHex: String,
}

/// The frames of a payload, and how many bytes follow the last of them.
#[allow(non_snake_case)]
#[derive(Debug, Clone, PartialEq, Eq)]
pub struct TlvSequenceAst {
    /// Always `tlv-sequence`.
    pub kind: String,
    pub frames: Vec<TlvFrame>,
    pub remainderBytes: usize,
}

/// A `TlvFrame` with its text as a sequence of characters.
#[allow(non_snake_case)]
pub struct TlvFrameView {
    pub index: nat,
    pub offset: nat,
    pub frameType: u8,
    pub length: u8,
    pub valueHex: Seq<char>,
}

/// A `TlvSequenceAst` as a value of the model.
#[allow(non_snake_case)]
pub struct TlvSequenceView {
    pub kind: Seq<char>,
    pub frames: Seq<TlvFrameView>,
    pub remainderBytes: nat,
}

impl View for TlvFrame {
    type V = TlvFrameView;

    open spec fn view(&self) -> TlvFrameView {
        TlvFrameView {
            index: self.index as nat,
            offset: self.offset as nat,
            frameType: self.frameType,
            length: self.length,
            valueHex: self.valueHex@,
        }
    }
}

impl View for TlvSequenceAst {
    type V = TlvSequenceView;

    open spec fn view(&self) -> TlvSequenceView {
        TlvSequenceView {
            kind: self.kind@,
            frames: frame_views(self.frames@),
            remainderBytes: self.remainderBytes as nat,
        }
    }
}

/// The views of a list of frames.
pub open spec fn frame_views(frames: Seq<TlvFrame>) -> Seq<TlvFrameView> {
    frames.map_values(|f: TlvFrame| f@)
}

/// The text that marks a framed result.
pub open spec fn tlv_kind() -> Seq<char> {
    "tlv-sequence"@
}

/// A whole frame stands at `offset`: its two header bytes and the value
/// that the length byte announces all lie within the payload.
pub open spec fn frame_fits(bytes: Seq<u8>, offset: int) -> bool {
    0 <= offset && offset + 2 <= bytes.len() && offset + 2 + bytes[offset + 1] <= bytes.len()
}

/// Where the frame that starts at `offset` ends.
pub open spec fn frame_end(bytes: Seq<u8>, offset: int) -> int {
    offset + 2 + bytes[offset + 1]
}

/// The frame that stands at `offset`, as the `index`-th of the sequence.
pub open spec fn frame_at(bytes: Seq<u8>, offset: int, index: int) -> TlvFrameView {
    TlvFrameView {
        index: index as nat,
        offset: offset as nat,
        frameType: bytes[offset],
        length: bytes[offset + 1],
        valueHex: hex_lower(bytes.subrange(offset + 2, frame_end(bytes, offset))),
    }
}

/// The frames read from `offset` on, the first of them numbered `index`.
pub open spec fn frames_from(bytes: Seq<u8>, offset: int, index: int) -> Seq<TlvFrameView>
    decreases MAX_FRAMES - index,
{
    if index < 0 || index >= MAX_FRAMES || !frame_fits(bytes, offset) {
        Seq::empty()
    } else {
        seq![frame_at(bytes, offset, index)] + frames_from(
            bytes,
            frame_end(bytes, offset),
            index + 1,
        )
    }
}

/// Where reading stops when it starts at `offset` with frame number `index`.
pub open spec fn framing_end(bytes: Seq<u8>, offset: int, index: int) -> int
    decreases MAX_FRAMES - index,
{
    if index < 0 || index >= MAX_FRAMES || !frame_fits(bytes, offset) {
        offset
    } else {
        framing_end(bytes, frame_end(bytes, offset), index + 1)
    }
}

/// The framing of a payload.
pub open spec fn tlv_sequence(bytes: Seq<u8>) -> TlvSequenceView {
    TlvSequenceView {
        kind: tlv_kind(),
        frames: frames_from(bytes, 0, 0),
        remainderBytes: (bytes.len() - framing_end(bytes, 0, 0)) as nat,
    }
}

/// The bytes that a list of frames takes up: two header bytes and the
/// value of each.
pub open spec fn span_total(frames: Seq<TlvFrameView>) -> int
    decreases frames.len(),
{
    if frames.len() == 0 {
        0
    } else {
        2 + frames[0].length + span_total(frames.drop_first())
    }
}

/// Reading stops within the payload, and not before the place where it
/// starts.
pub proof fn lemma_framing_end_bounds(bytes: Seq<u8>, offset: int, index: int)
    requires
        0 <= offset <= bytes.len(),
    ensures
        offset <= framing_end(bytes, offset, index) <= bytes.len(),
    decreases MAX_FRAMES - index,
{
    if 0 <= index < MAX_FRAMES && frame_fits(bytes, offset) {
        lemma_framing_end_bounds(bytes, frame_end(bytes, offset), index + 1);
    }
}

/// The frames read from a place take up exactly the bytes between that
/// place and the place where reading stops.
pub proof fn lemma_frames_span(bytes: Seq<u8>, offset: int, index: int)
    requires
        0 <= offset <= bytes.len(),
        0 <= index <= MAX_FRAMES,
    ensures
        span_total(frames_from(bytes, offset, index)) == framing_end(bytes, offset, index) - offset,
        frames_from(bytes, offset, index).len() <= MAX_FRAMES - index,
    decreases MAX_FRAMES - index,
{
    if 0 <= index < MAX_FRAMES && frame_fits(bytes, offset) {
        let rest = frames_from(bytes, frame_end(bytes, offset), index + 1);
        lemma_frames_span(bytes, frame_end(bytes, offset), index + 1);
        let all = frames_from(bytes, offset, index);
        assert(all.drop_first() =~= rest);
    }
}

/// The frames of a payload and its remainder add up to the payload: the
/// sum over the frames of two plus the frame's length, plus the remainder,
/// is the number of bytes.
pub proof fn lemma_frames_and_remainder_cover_payload(bytes: Seq<u8>)
    ensures
        span_total(tlv_sequence(bytes).frames) + tlv_sequence(bytes).remainderBytes == bytes.len(),
        tlv_sequence(bytes).frames.len() <= MAX_FRAMES,
{
    lemma_frames_span(bytes, 0, 0);
    lemma_framing_end_bounds(bytes, 0, 0);
}

/// Reading depends on the bytes up to the place where it stops, and on no
/// others.
pub proof fn lemma_framing_of_prefix(bytes: Seq<u8>, offset: int, index: int)
    requires
        0 <= offset <= bytes.len(),
    ensures
        offset <= framing_end(bytes, offset, index) <= bytes.len(),
        frames_from(bytes.subrange(0, framing_end(bytes, offset, index)), offset, index)
            == frames_from(bytes, offset, index),
        framing_end(bytes.subrange(0, framing_end(bytes, offset, index)), offset, index)
            == framing_end(bytes, offset, index),
    decreases MAX_FRAMES - index,
{
    let cut = framing_end(bytes, offset, index);
    let head = bytes.subrange(0, cut);
    lemma_framing_end_bounds(bytes, offset, index);
    if 0 <= index < MAX_FRAMES && frame_fits(bytes, offset) {
        let next = frame_end(bytes, offset);
        lemma_framing_end_bounds(bytes, next, index + 1);
        lemma_framing_of_prefix(bytes, next, index + 1);
        assert(frame_fits(head, offset));
        assert(head.subrange(offset + 2, next) =~= bytes.subrange(offset + 2, next));
        assert(frame_at(head, offset, index) == frame_at(bytes, offset, index));
    }
}

/// Framing again the bytes that the frames of a payload take up gives the
/// same frames, and leaves no remainder.
pub proof fn lemma_reframing_is_idempotent(bytes: Seq<u8>)
    ensures
        0 <= framing_end(bytes, 0, 0) <= bytes.len(),
        tlv_sequence(bytes.subrange(0, framing_end(bytes, 0, 0))).frames == tlv_sequence(
            bytes,
        ).frames,
        tlv_sequence(bytes.subrange(0, framing_end(bytes, 0, 0))).remainderBytes == 0,
{
    lemma_framing_of_prefix(bytes, 0, 0);
}

/// A record to be framed: its type byte and its value.
pub type TlvRecord = (u8, Seq<u8>);

/// The bytes of a list of records: for each record its type byte, the
/// length of its value as one byte, and the value.
pub open spec fn encoded(records: Seq<TlvRecord>) -> Seq<u8>
    decreases records.len(),
{
    if records.len() == 0 {
        Seq::empty()
    } else {
        encoded(records.drop_last()) + seq![records.last().0, records.last().1.len() as u8]
            + records.last().1
    }
}

/// The frames that a list of records makes: numbered from 0, each at the
/// place where the bytes of the records before it end.
pub open spec fn framed(records: Seq<TlvRecord>) -> Seq<TlvFrameView> {
    Seq::new(
        records.len(),
        |k: int|
            TlvFrameView {
                index: k as nat,
                offset: encoded(records.take(k)).len(),
                frameType: records[k].0,
                length: records[k].1.len() as u8,
                valueHex: hex_lower(records[k].1),
            },
    )
}

/// The records are such as framing can give back: no more than
/// `MAX_FRAMES` of them, and no value longer than a length byte can say.
pub open spec fn framable(records: Seq<TlvRecord>) -> bool {
    records.len() <= MAX_FRAMES && forall|k: int|
        0 <= k < records.len() ==> (#[trigger] records[k]).1.len() <= u8::MAX
}

/// The bytes of the first `k` records are the first bytes of all of them,
/// and the `k`-th record stands right behind them.
proof fn lemma_encoded_layout(records: Seq<TlvRecord>, k: int)
    requires
        0 <= k < records.len(),
        forall|j: int| 0 <= j < records.len() ==> (#[trigger] records[j]).1.len() <= u8::MAX,
    ensures
        ({
            let bytes = encoded(records);
            let at = encoded(records.take(k)).len() as int;
            let next = encoded(records.take(k + 1)).len() as int;
            &&& next == at + 2 + records[k].1.len()
            &&& next <= bytes.len()
            &&& bytes[at] == records[k].0
            &&& bytes[at + 1] == records[k].1.len() as u8
            &&& bytes.subrange(at + 2, next) == records[k].1
            &&& encoded(records.take(records.len() as int)) == bytes
        }),
    decreases records.len(),
{
    let n = records.len() as int;
    let init = records.drop_last();
    let bytes = encoded(records);
    assert(records.take(n) =~= records);
    assert(records.take(k + 1).drop_last() =~= records.take(k));
    assert(records.take(k + 1).last() == records[k]);
    if k == n - 1 {
        assert(records.take(k) =~= init);
        assert(bytes.subrange(
            encoded(init).len() as int + 2,
            encoded(records.take(k + 1)).len() as int,
        ) =~= records[k].1);
    } else {
        lemma_encoded_layout(init, k);
        assert(init.take(k) =~= records.take(k));
        assert(init.take(k + 1) =~= records.take(k + 1));
        assert(init.take(n - 1) =~= init);
        let at = encoded(records.take(k)).len() as int;
        let next = encoded(records.take(k + 1)).len() as int;
        assert(bytes.subrange(at + 2, next) =~= encoded(init).subrange(at + 2, next));
    }
}

/// Framing from the place of the `k`-th record on gives the frames from
/// the `k`-th on, and reads to the end.
proof fn lemma_framing_of_records(records: Seq<TlvRecord>, k: int)
    requires
        framable(records),
        0 <= k <= records.len(),
    ensures
        frames_from(encoded(records), encoded(records.take(k)).len() as int, k) == framed(
            records,
        ).skip(k),
        framing_end(encoded(records), encoded(records.take(k)).len() as int, k) == encoded(
            records,
        ).len(),
    decreases records.len() - k,
{
    let bytes = encoded(records);
    let at = encoded(records.take(k)).len() as int;
    if k == records.len() {
        assert(records.take(k) =~= records);
        assert(framed(records).skip(k) =~= Seq::<TlvFrameView>::empty());
    } else {
        lemma_encoded_layout(records, k);
        lemma_framing_of_records(records, k + 1);
        let next = encoded(records.take(k + 1)).len() as int;
        assert(frame_fits(bytes, at));
        assert(frame_end(bytes, at) == next);
        assert(frame_at(bytes, at, k) == framed(records)[k]);
        assert(seq![framed(records)[k]] + framed(records).skip(k + 1) =~= framed(records).skip(k));
    }
}

/// Framing the bytes of a list of records gives those records back as
/// frames, each with its number, its place, its type, its length and its
/// value, and leaves no remainder.
pub proof fn lemma_framing_reads_back_records(records: Seq<TlvRecord>)
    requires
        framable(records),
    ensures
        tlv_sequence(encoded(records)).frames == framed(records),
        tlv_sequence(encoded(records)).remainderBytes == 0,
{
    lemma_framing_of_records(records, 0);
    assert(records.take(0) =~= Seq::<TlvRecord>::empty());
    assert(framed(records).skip(0) =~= framed(records));
}

/// Frames a payload.
pub fn parse_example_tlv(bytes: &[u8]) -> (ast: TlvSequenceAst)
    ensures
        ast@ == tlv_sequence(bytes@),
        ast.frames@.len() <= MAX_FRAMES,
        span_total(ast@.frames) + ast.remainderBytes == bytes@.len(),
{
    let mut frames: Vec<TlvFrame> = Vec::new();
    let mut offset: usize = 0;
    let mut index: usize = 0;
    let total = bytes.len();
    while total - offset >= 2 && index < MAX_FRAMES
        invariant
            total == bytes@.len(),
            offset <= total,
            index == frames@.len(),
            index <= MAX_FRAMES,
            frames_from(bytes@, 0, 0) == frame_views(frames@) + frames_from(
                bytes@,
                offset as int,
                index as int,
            ),
            framing_end(bytes@, 0, 0) == framing_end(bytes@, offset as int, index as int),
        ensures
            index >= MAX_FRAMES || !frame_fits(bytes@, offset as int),
        decreases MAX_FRAMES - index,
    {
        let frame_type = bytes[offset];
        let length = bytes[offset + 1];
        let start = offset + 2;
        if length as usize > total - start {
            break ;
        }
        let end = start + length as usize;
        let value = slice_subrange(bytes, start, end);
        let frame = TlvFrame {
            index,
            offset,
            frameType: frame_type,
            length,
            valueHex: hex_encode(value),
        };
        proof {
            assert(frame@ == frame_at(bytes@, offset as int, index as int));
            assert(frame_views(frames@.push(frame)) =~= frame_views(frames@).push(frame@));
            assert(frame_views(frames@).push(frame@) + frames_from(
                bytes@,
                end as int,
                index + 1,
            ) =~= frame_views(frames@) + frames_from(bytes@, offset as int, index as int));
        }
        frames.push(frame);
        offset = end;
        index += 1;
    }
    proof {
        assert(frame_views(frames@) + Seq::<TlvFrameView>::empty() =~= frame_views(frames@));
        lemma_frames_and_remainder_cover_payload(bytes@);
    }
    TlvSequenceAst {
        kind: String::from_str("tlv-sequence"),
        frames,
        remainderBytes: total - offset,
    }
}

} // verus!
