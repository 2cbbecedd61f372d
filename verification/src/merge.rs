//! Merging many bundle archives into one dataset: the first input fixes the
//! geometry, every later input must match it, and the payloads are summed
//! elementwise into widened counters.

use crate::archive::read_bundle_data;
use crate::archive::spec_decode_archive;
use crate::codec::BundleError;
use vstd::prelude::*;
use vstd::std_specs::vec::vec_index;
use vstd::std_specs::vec::vec_index_mut;

verus! {

/// The byte views of a sequence of archive buffers.
pub open spec fn spec_archive_views(a: Seq<Vec<u8>>) -> Seq<Seq<u8>> {
    Seq::new(a.len(), |k: int| a[k]@)
}

/// The bundle that input number `k` decodes to.
pub open spec fn spec_decoded(avs: Seq<Seq<u8>>, k: int) -> (u32, u32, u32, Seq<u32>)
    recommends
        0 <= k < avs.len(),
        spec_decode_archive(avs[k]) is Ok,
{
    spec_decode_archive(avs[k])->Ok_0
}

/// Every input decodes as a bundle.
pub open spec fn all_decode(avs: Seq<Seq<u8>>) -> bool {
    forall|k: int| 0 <= k < avs.len() ==> #[trigger] spec_decode_archive(avs[k]) is Ok
}

/// Every input's width and height equal the first input's.
pub open spec fn geometry_uniform(avs: Seq<Seq<u8>>) -> bool
    recommends
        all_decode(avs),
{
    forall|k: int|
        0 <= k < avs.len() ==> {
            &&& #[trigger] spec_decoded(avs, k).0 == spec_decoded(avs, 0).0
            &&& spec_decoded(avs, k).1 == spec_decoded(avs, 0).1
        }
}

/// The decoded payloads of all inputs, in input order.
pub open spec fn spec_payloads(avs: Seq<Seq<u8>>) -> Seq<Seq<u32>> {
    Seq::new(avs.len(), |k: int| spec_decoded(avs, k).3)
}

/// Elementwise sum at cell `j` over a sequence of payloads.
pub open spec fn spec_merge_sum(payloads: Seq<Seq<u32>>, j: int) -> int
    decreases payloads.len(),
{
    if payloads.len() == 0 {
        0
    } else {
        spec_merge_sum(payloads.drop_last(), j) + payloads.last()[j]
    }
}

proof fn lemma_merge_sum_snoc(payloads: Seq<Seq<u32>>, k: int, j: int)
    requires
        0 <= k < payloads.len(),
    ensures
        spec_merge_sum(payloads.take(k + 1), j) == spec_merge_sum(payloads.take(k), j)
            + payloads[k][j],
{
    assert(payloads.take(k + 1).drop_last() =~= payloads.take(k));
}

/// Merge identity: over a single payload, the merged value at every cell is
/// that payload's value, merely widened.
pub proof fn lemma_merge_single(p: Seq<u32>, j: int)
    ensures
        spec_merge_sum(seq![p], j) == p[j],
{
    let s = seq![p];
    assert(s.last() == p);
    assert(s.drop_last() =~= Seq::<Seq<u32>>::empty());
    assert(spec_merge_sum(s.drop_last(), j) == 0);
}

/// Merge additivity: over two payloads, the merged value at every cell is
/// the sum of the two payloads' values there.
pub proof fn lemma_merge_pair(p1: Seq<u32>, p2: Seq<u32>, j: int)
    ensures
        spec_merge_sum(seq![p1, p2], j) == p1[j] + p2[j],
{
    assert(seq![p1, p2].drop_last() =~= seq![p1]);
    lemma_merge_single(p1, j);
}

/// Decode every archive, demand one shared geometry, and sum the payloads
/// cell by cell into widened counters. Returns (width, height, max_iters,
/// sums), the iteration cap taken from the last input.
pub fn gather_data(archives: &Vec<Vec<u8>>) -> (r: Result<(u32, u32, u32, Vec<u64>), BundleError>)
    requires
        archives@.len() >= 1,
        archives@.len() <= u32::MAX,
    ensures
        r is Ok <==> (all_decode(spec_archive_views(archives@)) && geometry_uniform(
            spec_archive_views(archives@),
        )),
        r matches Ok((width, height, max_iters, data)) ==> {
            let avs = spec_archive_views(archives@);
            &&& width == spec_decoded(avs, 0).0
            &&& height == spec_decoded(avs, 0).1
            &&& max_iters == spec_decoded(avs, avs.len() - 1).2
            &&& data@.len() == width * height
            &&& forall|j: int|
                0 <= j < data@.len() ==> data@[j] == spec_merge_sum(spec_payloads(avs), j)
        },
        (all_decode(spec_archive_views(archives@)) && !geometry_uniform(
            spec_archive_views(archives@),
        )) ==> r == Err::<(u32, u32, u32, Vec<u64>), BundleError>(BundleError::GeometryMismatch),
        r matches Err(e) ==> (e == BundleError::GeometryMismatch || exists|k: int|
            0 <= k < archives@.len() && spec_decode_archive(
                #[trigger] spec_archive_views(archives@)[k],
            ) == Err::<(u32, u32, u32, Seq<u32>), BundleError>(e)),
{
    let ghost avs = spec_archive_views(archives@);
    let n = archives.len();
    proof {
        assert(avs[0] == archives@[0]@);
    }
    let (w0, h0, it0, p0) = match read_bundle_data(vec_index(archives, 0)) {
        Ok(first) => first,
        Err(e) => {
            proof {
                assert(spec_decode_archive(avs[0]) == Err::<(u32, u32, u32, Seq<u32>), BundleError>(
                    e,
                ));
                assert(!all_decode(avs));
            }
            return Err(e);
        },
    };
    proof {
        assert(avs[0] == archives@[0]@);
        crate::archive::lemma_decode_payload_len(avs[0]);
    }
    let mut iters = it0;
    let mut data: Vec<u64> = Vec::new();
    let cells = p0.len();
    for j in 0..cells
        invariant
            cells == p0@.len(),
            data@.len() == j,
            forall|i: int| 0 <= i < j ==> data@[i] == p0@[i],
    {
        data.push(p0[j] as u64);
    }
    proof {
        assert(spec_decode_archive(avs[0]) == Ok::<(u32, u32, u32, Seq<u32>), BundleError>(
            (w0, h0, it0, p0@),
        ));
        assert(spec_payloads(avs)[0] == p0@);
        assert(spec_payloads(avs).take(1).drop_last() =~= Seq::<Seq<u32>>::empty());
        assert forall|j: int| 0 <= j < data@.len() implies data@[j] == spec_merge_sum(
            spec_payloads(avs).take(1),
            j,
        ) by {
            assert(spec_payloads(avs).take(1).last() == spec_payloads(avs)[0]);
            assert(spec_merge_sum(spec_payloads(avs).take(1).drop_last(), j) == 0);
        }
    }
    for k in 1..n
        invariant
            n == archives@.len(),
            n <= u32::MAX,
            avs == spec_archive_views(archives@),
            spec_decode_archive(avs[0]) is Ok,
            w0 == spec_decoded(avs, 0).0,
            h0 == spec_decoded(avs, 0).1,
            iters == spec_decoded(avs, k - 1).2,
            data@.len() == w0 * h0,
            forall|i: int| 0 <= i < k ==> #[trigger] spec_decode_archive(avs[i]) is Ok,
            forall|i: int|
                0 <= i < k ==> #[trigger] spec_decoded(avs, i).0 == w0 && spec_decoded(avs, i).1
                    == h0,
            forall|j: int|
                0 <= j < data@.len() ==> #[trigger] data@[j] == spec_merge_sum(
                    spec_payloads(avs).take(k as int),
                    j,
                ),
            forall|j: int| 0 <= j < data@.len() ==> #[trigger] data@[j] <= (k as int) * 0xffff_ffff,
    {
        proof {
            assert(avs[k as int] == archives@[k as int]@);
        }
        let (w, h, it, p) = match read_bundle_data(vec_index(archives, k)) {
            Ok(next) => next,
            Err(e) => {
                proof {
                    assert(spec_decode_archive(avs[k as int]) == Err::<
                        (u32, u32, u32, Seq<u32>),
                        BundleError,
                    >(e));
                    assert(!all_decode(avs));
                }
                return Err(e);
            },
        };
        proof {
            assert(spec_decode_archive(avs[k as int]) == Ok::<
                (u32, u32, u32, Seq<u32>),
                BundleError,
            >((w, h, it, p@)));
            assert(spec_decoded(avs, k as int) == (w, h, it, p@));
            assert(spec_decoded(avs, k as int).0 == w);
            assert(spec_decoded(avs, 0).0 == w0);
            assert(spec_decoded(avs, 0).1 == h0);
        }
        if w != w0 || h != h0 {
            proof {
                assert(spec_decoded(avs, k as int).0 != spec_decoded(avs, 0).0 || spec_decoded(
                    avs,
                    k as int,
                ).1 != spec_decoded(avs, 0).1);
                assert(!geometry_uniform(avs));
            }
            return Err(BundleError::GeometryMismatch);
        }
        proof {
            crate::archive::lemma_decode_payload_len(avs[k as int]);
        }
        iters = it;
        let cells = data.len();
        for j in 0..cells
            invariant
                cells == data@.len(),
                data@.len() == w0 * h0,
                p@.len() == data@.len(),
                p@ == spec_payloads(avs)[k as int],
                avs == spec_archive_views(archives@),
                n == archives@.len(),
                n <= u32::MAX,
                0 <= k < n,
                forall|i: int|
                    0 <= i < j ==> #[trigger] data@[i] == spec_merge_sum(
                        spec_payloads(avs).take(k + 1),
                        i,
                    ),
                forall|i: int|
                    j <= i < data@.len() ==> #[trigger] data@[i] == spec_merge_sum(
                        spec_payloads(avs).take(k as int),
                        i,
                    ),
                forall|i: int| 0 <= i < j ==> #[trigger] data@[i] <= (k as int + 1) * 0xffff_ffff,
                forall|i: int|
                    j <= i < data@.len() ==> #[trigger] data@[i] <= (k as int) * 0xffff_ffff,
        {
            proof {
                assert((k as int) * 0xffff_ffff + 0xffff_ffff == (k as int + 1) * 0xffff_ffff)
                    by (nonlinear_arith);
                assert((k as int + 1) * 0xffff_ffff <= (n as int) * 0xffff_ffff)
                    by (nonlinear_arith)
                    requires
                        k as int + 1 <= n as int,
                ;
                assert((n as int) * 0xffff_ffff <= 0xffff_ffff * 0xffff_ffff) by (nonlinear_arith)
                    requires
                        n as int <= 0xffff_ffff,
                ;
            }
            let v: u64 = data[j] + (p[j] as u64);
            *vec_index_mut(&mut data, j) = v;
            proof {
                lemma_merge_sum_snoc(spec_payloads(avs), k as int, j as int);
            }
        }
    }
    proof {
        assert(spec_payloads(avs).take(n as int) =~= spec_payloads(avs));
    }
    Ok((w0, h0, iters, data))
}

} // verus!
