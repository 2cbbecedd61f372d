//! Binary layout of one histogram snapshot ("bundle"): a version byte,
//! then max-iterations, width and height as little-endian words, then the
//! width*height payload words, each little-endian.

use vstd::bytes::spec_u32_from_le_bytes;
use vstd::bytes::spec_u32_to_le_bytes;
use vstd::bytes::lemma_auto_spec_u32_to_from_le_bytes;
use vstd::bytes::u32_from_le_bytes;
use vstd::bytes::u32_to_le_bytes;
use vstd::prelude::*;
use vstd::slice::slice_subrange;

verus! {

/// The single recognized version tag of the bundle layout.
pub const BUNDLE_VERSION: u8 = 1;

/// Why a byte string or a set of merge inputs was rejected.
#[derive(Debug, Clone, Copy, PartialEq, Eq, Structural)]
pub enum BundleError {
    /// Shorter than the fixed thirteen-byte header.
    Truncated,
    /// The first byte is not the recognized version tag.
    BadVersion,
    /// The payload is not exactly width*height words.
    LengthMismatch,
    /// The archive around the bundle could not be read or written.
    ArchiveRead,
    /// A merge input's width or height differs from the first input's.
    GeometryMismatch,
}

/// A payload as bytes: each word in little-endian order, concatenated.
pub open spec fn spec_payload_bytes(p: Seq<u32>) -> Seq<u8> {
    Seq::new(4 * p.len(), |i: int| spec_u32_to_le_bytes(p[i / 4])[i % 4])
}

/// The words read back from a byte string whose length is a multiple of four.
pub open spec fn spec_payload_words(b: Seq<u8>) -> Seq<u32> {
    Seq::new(b.len() / 4, |i: int| spec_u32_from_le_bytes(b.subrange(4 * i, 4 * i + 4)))
}

/// The thirteen-byte header: version tag, then max-iterations, width and
/// height as little-endian words.
pub open spec fn spec_bundle_header(max_iters: u32, width: u32, height: u32) -> Seq<u8> {
    seq![BUNDLE_VERSION] + spec_u32_to_le_bytes(max_iters) + spec_u32_to_le_bytes(width)
        + spec_u32_to_le_bytes(height)
}

/// The serialized form of one bundle.
pub open spec fn spec_bundle_bytes(
    max_iters: u32,
    width: u32,
    height: u32,
    p: Seq<u32>,
) -> Seq<u8> {
    spec_bundle_header(max_iters, width, height) + spec_payload_bytes(p)
}

/// What a byte string decodes to, as (width, height, max_iters, payload):
/// rejected in this order as too short, as carrying a foreign version tag,
/// or as holding other than width*height payload words.
pub open spec fn spec_parse_bundle(b: Seq<u8>) -> Result<(u32, u32, u32, Seq<u32>), BundleError> {
    if b.len() < 13 {
        Err(BundleError::Truncated)
    } else if b[0] != BUNDLE_VERSION {
        Err(BundleError::BadVersion)
    } else {
        let width = spec_u32_from_le_bytes(b.subrange(5, 9));
        let height = spec_u32_from_le_bytes(b.subrange(9, 13));
        if b.len() - 13 == 4 * (width * height) {
            Ok(
                (
                    width,
                    height,
                    spec_u32_from_le_bytes(b.subrange(1, 5)),
                    spec_payload_words(b.skip(13)),
                ),
            )
        } else {
            Err(BundleError::LengthMismatch)
        }
    }
}

/// An accepted bundle's payload has exactly one word per pixel.
pub proof fn lemma_parse_payload_len(b: Seq<u8>)
    ensures
        spec_parse_bundle(b) matches Ok((width, height, max_iters, p)) ==> p.len() == width
            * height,
{
}

proof fn lemma_payload_bytes_snoc(p: Seq<u32>, k: int)
    requires
        0 <= k < p.len(),
    ensures
        spec_payload_bytes(p.take(k + 1)) == spec_payload_bytes(p.take(k)) + spec_u32_to_le_bytes(
            p[k],
        ),
{
    lemma_auto_spec_u32_to_from_le_bytes();
    assert(spec_payload_bytes(p.take(k + 1)) =~= spec_payload_bytes(p.take(k))
        + spec_u32_to_le_bytes(p[k]));
}

proof fn lemma_payload_round_trip(p: Seq<u32>)
    ensures
        spec_payload_words(spec_payload_bytes(p)) == p,
{
    lemma_auto_spec_u32_to_from_le_bytes();
    let b = spec_payload_bytes(p);
    assert forall|i: int| 0 <= i < p.len() implies spec_payload_words(b)[i] == p[i] by {
        assert(b.subrange(4 * i, 4 * i + 4) =~= spec_u32_to_le_bytes(p[i]));
    }
    assert(spec_payload_words(b) =~= p);
}

/// Decoding inverts encoding: a serialized bundle parses back to exactly the
/// width, height, iteration cap and payload it was built from, the all-zero
/// payload included.
pub proof fn lemma_bundle_round_trip(max_iters: u32, width: u32, height: u32, p: Seq<u32>)
    requires
        p.len() == width * height,
    ensures
        spec_parse_bundle(spec_bundle_bytes(max_iters, width, height, p)) == Ok::<
            (u32, u32, u32, Seq<u32>),
            BundleError,
        >((width, height, max_iters, p)),
{
    lemma_auto_spec_u32_to_from_le_bytes();
    let b = spec_bundle_bytes(max_iters, width, height, p);
    assert(b.subrange(1, 5) =~= spec_u32_to_le_bytes(max_iters));
    assert(b.subrange(5, 9) =~= spec_u32_to_le_bytes(width));
    assert(b.subrange(9, 13) =~= spec_u32_to_le_bytes(height));
    assert(b.skip(13) =~= spec_payload_bytes(p));
    lemma_payload_round_trip(p);
}

/// Serialize one histogram snapshot into the bundle byte layout.
pub fn encode_bundle(max_iters: u32, width: u32, height: u32, payload: &Vec<u32>) -> (r: Vec<u8>)
    requires
        payload@.len() == width * height,
    ensures
        r@ == spec_bundle_bytes(max_iters, width, height, payload@),
{
    let mut out: Vec<u8> = Vec::new();
    out.push(BUNDLE_VERSION);
    let mut word = u32_to_le_bytes(max_iters);
    out.append(&mut word);
    let mut word = u32_to_le_bytes(width);
    out.append(&mut word);
    let mut word = u32_to_le_bytes(height);
    out.append(&mut word);
    proof {
        assert(out@ =~= spec_bundle_header(max_iters, width, height));
        assert(payload@.take(0) =~= Seq::<u32>::empty());
        assert(spec_payload_bytes(payload@.take(0)) =~= Seq::<u8>::empty());
        assert(out@ =~= spec_bundle_header(max_iters, width, height) + spec_payload_bytes(
            payload@.take(0),
        ));
    }
    let n = payload.len();
    for k in 0..n
        invariant
            n == payload@.len(),
            out@ == spec_bundle_header(max_iters, width, height) + spec_payload_bytes(
                payload@.take(k as int),
            ),
    {
        let mut word = u32_to_le_bytes(payload[k]);
        out.append(&mut word);
        proof {
            lemma_payload_bytes_snoc(payload@, k as int);
        }
    }
    proof {
        assert(payload@.take(n as int) =~= payload@);
    }
    out
}

/// Deserialize a bundle byte string, as (width, height, max_iters, payload).
/// Rejects a string shorter than the header, a wrong version tag, and a
/// payload that is not exactly width*height words.
pub fn parse_bundle(bytes: &Vec<u8>) -> (r: Result<(u32, u32, u32, Vec<u32>), BundleError>)
    ensures
        match r {
            Ok((width, height, max_iters, payload)) => spec_parse_bundle(bytes@) == Ok::<
                (u32, u32, u32, Seq<u32>),
                BundleError,
            >((width, height, max_iters, payload@)),
            Err(e) => spec_parse_bundle(bytes@) == Err::<(u32, u32, u32, Seq<u32>), BundleError>(e),
        },
{
    if bytes.len() < 13 {
        return Err(BundleError::Truncated);
    }
    let s = bytes.as_slice();
    if *vstd::slice::slice_index_get(s, 0) != BUNDLE_VERSION {
        return Err(BundleError::BadVersion);
    }
    let max_iters = u32_from_le_bytes(slice_subrange(s, 1, 5));
    let width = u32_from_le_bytes(slice_subrange(s, 5, 9));
    let height = u32_from_le_bytes(slice_subrange(s, 9, 13));
    proof {
        assert((width as u64) * (height as u64) <= u64::MAX) by (nonlinear_arith)
            requires
                width <= u32::MAX,
                height <= u32::MAX,
        ;
    }
    let cells: u64 = (width as u64) * (height as u64);
    let body_len: usize = bytes.len() - 13;
    if (body_len as u128) != 4 * (cells as u128) {
        return Err(BundleError::LengthMismatch);
    }
    let n: usize = cells as usize;
    let mut payload: Vec<u32> = Vec::new();
    for k in 0..n
        invariant
            s@ == bytes@,
            bytes@.len() == 13 + 4 * n,
            13 + 4 * (n as int) <= usize::MAX,
            n == spec_u32_from_le_bytes(bytes@.subrange(5, 9)) * spec_u32_from_le_bytes(
                bytes@.subrange(9, 13),
            ),
            payload@ =~= spec_payload_words(bytes@.skip(13)).take(k as int),
    {
        let word = u32_from_le_bytes(slice_subrange(s, 13 + 4 * k, 17 + 4 * k));
        payload.push(word);
        proof {
            assert(bytes@.subrange(13 + 4 * (k as int), 17 + 4 * (k as int)) =~= bytes@.skip(
                13,
            ).subrange(4 * (k as int), 4 * (k as int) + 4));
        }
    }
    proof {
        assert(spec_payload_words(bytes@.skip(13)).take(n as int) =~= spec_payload_words(
            bytes@.skip(13),
        ));
    }
    Ok((width, height, max_iters, payload))
}

} // verus!
