//! The summary of a payload that no schema frames: its length, its
//! SHA-256 hash, and how often each byte value occurs in it.

use sha2::Digest;
use vstd::prelude::*;
use vstd::string::StringExecFns;
use crate::hex::{hex_encode, hex_lower};

verus! {

/// How many byte values there are.
pub const BYTE_VALUES: usize = 256;

/// How many bytes a SHA-256 hash has.
pub const SHA256_BYTES: usize = 32;

/// The summary of a payload. The histogram is what an entropy estimate is
/// computed from: bucket `v` of `byteCounts` says how often the byte value
/// `v` occurs.
#[allow(non_snake_case)]
#[derive(Debug, Clone, PartialEq, Eq)]
pub struct RawBlobAst {
    /// Always `raw-blob`.
    pub kind: String,
    /// The number of bytes.
    pub length: usize,
    /// The SHA-256 hash of the bytes in lower-case hexadecimal.
    pub sha256: String,
    /// One bucket for each byte value, from 0 to 255.
    pub byteCounts: Vec<usize>,
}

/// A `RawBlobAst` as a value of the model.
#[allow(non_snake_case)]
pub struct RawBlobView {
    pub kind: Seq<char>,
    pub length: nat,
    pub sha256: Seq<char>,
    pub byteCounts: Seq<nat>,
}

impl View for RawBlobAst {
    type V = RawBlobView;

    open spec fn view(&self) -> RawBlobView {
        RawBlobView {
            kind: self.kind@,
            length: self.length as nat,
            sha256: self.sha256@,
            byteCounts: self.byteCounts@.map_values(|c: usize| c as nat),
        }
    }
}

/// The SHA-256 hash of a byte sequence, as the crate `sha2` computes it.
pub uninterp spec fn sha256(data: Seq<u8>) -> Seq<u8>;

/// `sha2::Sha256::digest`: the hash of the bytes, which depends on the
/// bytes alone and is 32 bytes long.
#[verifier::external_body]
pub(crate) fn sha256_digest(bytes: &[u8]) -> (digest: Vec<u8>)
    ensures
        digest@ == sha256(bytes@),
        digest@.len() == SHA256_BYTES,
{
    sha2::Sha256::digest(bytes).to_vec()
}

/// The text that marks a summary.
pub open spec fn raw_kind() -> Seq<char> {
    "raw-blob"@
}

/// How often `value` occurs among the bytes.
pub open spec fn occurrences(bytes: Seq<u8>, value: u8) -> nat
    decreases bytes.len(),
{
    if bytes.len() == 0 {
        0
    } else {
        occurrences(bytes.drop_last(), value) + if bytes.last() == value {
            1nat
        } else {
            0nat
        }
    }
}

/// The histogram of the bytes: how often each byte value occurs.
pub open spec fn byte_histogram(bytes: Seq<u8>) -> Seq<nat> {
    Seq::new(BYTE_VALUES as nat, |v: int| occurrences(bytes, v as u8))
}

/// The sum of the first `n` buckets.
pub open spec fn bucket_sum(counts: Seq<nat>, n: int) -> nat
    decreases n,
{
    if n <= 0 {
        0
    } else {
        bucket_sum(counts, n - 1) + counts[n - 1]
    }
}

/// The summary of a payload.
pub open spec fn raw_blob(bytes: Seq<u8>) -> RawBlobView {
    RawBlobView {
        kind: raw_kind(),
        length: bytes.len(),
        sha256: hex_lower(sha256(bytes)),
        byteCounts: byte_histogram(bytes),
    }
}

/// No value occurs more often than there are bytes.
pub proof fn lemma_occurrences_bound(bytes: Seq<u8>, value: u8)
    ensures
        occurrences(bytes, value) <= bytes.len(),
    decreases bytes.len(),
{
    if bytes.len() > 0 {
        lemma_occurrences_bound(bytes.drop_last(), value);
    }
}

/// One more byte adds one to the sum of the buckets up to its value.
proof fn lemma_bucket_sum_step(bytes: Seq<u8>, n: int)
    requires
        bytes.len() > 0,
        0 <= n <= BYTE_VALUES,
    ensures
        bucket_sum(byte_histogram(bytes), n) == bucket_sum(byte_histogram(bytes.drop_last()), n)
            + if bytes.last() < n {
            1nat
        } else {
            0nat
        },
    decreases n,
{
    if n > 0 {
        lemma_bucket_sum_step(bytes, n - 1);
    }
}

/// The buckets of a histogram add up to the number of bytes.
pub proof fn lemma_histogram_total(bytes: Seq<u8>)
    ensures
        bucket_sum(byte_histogram(bytes), BYTE_VALUES as int) == bytes.len(),
    decreases bytes.len(),
{
    if bytes.len() == 0 {
        lemma_empty_histogram_sum(bytes, BYTE_VALUES as int);
    } else {
        lemma_histogram_total(bytes.drop_last());
        lemma_bucket_sum_step(bytes, BYTE_VALUES as int);
    }
}

/// The buckets of no bytes add up to nothing.
proof fn lemma_empty_histogram_sum(bytes: Seq<u8>, n: int)
    requires
        bytes.len() == 0,
        0 <= n <= BYTE_VALUES,
    ensures
        bucket_sum(byte_histogram(bytes), n) == 0,
    decreases n,
{
    if n > 0 {
        lemma_empty_histogram_sum(bytes, n - 1);
    }
}

/// Where every byte has the same value, that value's bucket holds them
/// all and every other bucket is empty; with no bytes, every bucket is
/// empty.
pub proof fn lemma_histogram_of_repeated_byte(bytes: Seq<u8>, value: u8, other: u8)
    requires
        forall|i: int| 0 <= i < bytes.len() ==> bytes[i] == value,
    ensures
        occurrences(bytes, value) == bytes.len(),
        other != value ==> occurrences(bytes, other) == 0,
    decreases bytes.len(),
{
    if bytes.len() > 0 {
        lemma_histogram_of_repeated_byte(bytes.drop_last(), value, other);
    }
}

/// The histogram of a payload.
pub fn count_bytes(bytes: &[u8]) -> (counts: Vec<usize>)
    ensures
        counts@.map_values(|c: usize| c as nat) == byte_histogram(bytes@),
        counts@.len() == BYTE_VALUES,
{
    let mut counts: Vec<usize> = vec![0usize; BYTE_VALUES];
    let mut i: usize = 0;
    assert(bytes@.take(0).len() == 0);
    while i < bytes.len()
        invariant
            i <= bytes.len(),
            counts@.len() == BYTE_VALUES,
            forall|v: int|
                0 <= v < BYTE_VALUES ==> #[trigger] counts@[v] == occurrences(
                    bytes@.take(i as int),
                    v as u8,
                ),
        decreases bytes.len() - i,
    {
        let b = bytes[i];
        proof {
            lemma_occurrences_bound(bytes@.take(i as int), b);
            assert(bytes@.take(i + 1).drop_last() =~= bytes@.take(i as int));
        }
        let seen = counts[b as usize];
        counts.set(b as usize, seen + 1);
        i += 1;
    }
    proof {
        assert(bytes@.take(i as int) =~= bytes@);
        assert(counts@.map_values(|c: usize| c as nat) =~= byte_histogram(bytes@));
    }
    counts
}

/// Summarises a payload.
pub fn parse_raw_blob(bytes: &[u8]) -> (ast: RawBlobAst)
    ensures
        ast@ == raw_blob(bytes@),
        ast.sha256@.len() == 2 * SHA256_BYTES,
        ast.byteCounts@.len() == BYTE_VALUES,
{
    let digest = sha256_digest(bytes);
    RawBlobAst {
        kind: String::from_str("raw-blob"),
        length: bytes.len(),
        sha256: hex_encode(digest.as_slice()),
        byteCounts: count_bytes(bytes),
    }
}

} // verus!
