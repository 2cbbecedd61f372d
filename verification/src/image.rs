//! Normalizing a merged histogram to a raster: every cell is scaled
//! linearly to the 16-bit range against the largest cell, and the scaled
//! sample is written big-endian into three identical channels.

use vstd::arithmetic::div_mod::lemma_div_is_ordered;
use vstd::arithmetic::div_mod::lemma_div_multiples_vanish;
use vstd::arithmetic::div_mod::lemma_div_pos_is_pos;
use vstd::arithmetic::mul::lemma_mul_inequality;
use vstd::prelude::*;

verus! {

/// Why a histogram cannot be normalized.
#[derive(Debug, Clone, Copy, PartialEq, Eq, Structural)]
pub enum ImageError {
    /// Every cell is zero: there is no maximum to scale against.
    ZeroMaximum,
}

/// Largest cell of a merged histogram; zero for the empty one.
pub open spec fn spec_data_max(s: Seq<u64>) -> int
    decreases s.len(),
{
    if s.len() == 0 {
        0
    } else if s.last() >= spec_data_max(s.drop_last()) {
        s.last() as int
    } else {
        spec_data_max(s.drop_last())
    }
}

/// A cell scaled linearly to the 16-bit range against the maximum.
pub open spec fn spec_scaled(v: u64, max: int) -> int
    recommends
        max > 0,
{
    v * 0xffff / max
}

/// The two big-endian bytes of one 16-bit sample.
pub open spec fn spec_be16(v: int) -> Seq<u8>
    recommends
        0 <= v <= 0xffff,
{
    seq![(v / 256) as u8, (v % 256) as u8]
}

/// The raster bytes: for each cell in order, its scaled sample written three
/// times over (one per channel), each time as two big-endian bytes.
pub open spec fn spec_image_bytes(data: Seq<u64>, max: int) -> Seq<u8> {
    Seq::new(6 * data.len(), |i: int| spec_be16(spec_scaled(data[i / 6], max))[i % 2])
}

/// No cell exceeds the maximum.
pub proof fn lemma_max_dominates(s: Seq<u64>, i: int)
    requires
        0 <= i < s.len(),
    ensures
        s[i] <= spec_data_max(s),
    decreases s.len(),
{
    if i < s.len() - 1 {
        lemma_max_dominates(s.drop_last(), i);
    }
}

/// A scaled cell stays within the 16-bit range.
pub proof fn lemma_scaled_bounds(v: u64, max: int)
    requires
        max > 0,
        v <= max,
    ensures
        0 <= spec_scaled(v, max) <= 0xffff,
{
    lemma_mul_inequality(v as int, max, 0xffff);
    lemma_div_is_ordered(v as int * 0xffff, max * 0xffff, max);
    lemma_div_multiples_vanish(0xffff, max);
    lemma_div_pos_is_pos(v as int * 0xffff, max);
}

/// A cell that equals the (positive) maximum scales to the full 16-bit
/// value, so all six of its raster bytes are the full byte.
pub proof fn lemma_max_cell_full_scale(data: Seq<u64>, j: int)
    requires
        0 <= j < data.len(),
        spec_data_max(data) > 0,
        data[j] == spec_data_max(data),
    ensures
        spec_scaled(data[j], spec_data_max(data)) == 0xffff,
        forall|b: int|
            6 * j <= b < 6 * j + 6 ==> #[trigger] spec_image_bytes(data, spec_data_max(data))[b]
                == 0xffu8,
{
    let max = spec_data_max(data);
    lemma_div_multiples_vanish(0xffff, max);
    assert(spec_scaled(data[j], max) == 0xffff);
    assert forall|b: int| 6 * j <= b < 6 * j + 6 implies #[trigger] spec_image_bytes(data, max)[b]
        == 0xffu8 by {
        assert(b / 6 == j) by (nonlinear_arith)
            requires
                6 * j <= b < 6 * j + 6,
        ;
        assert(spec_be16(0xffff)[b % 2] == 0xffu8);
    }
}

/// Scale every cell of a merged histogram to the 16-bit range against the
/// largest cell and write the raster bytes. Fails exactly when the largest
/// cell is zero, rather than dividing by it.
pub fn normalize_image(data: &Vec<u64>) -> (r: Result<Vec<u8>, ImageError>)
    requires
        data@.len() >= 1,
    ensures
        r is Ok <==> spec_data_max(data@) > 0,
        r is Err ==> r == Err::<Vec<u8>, ImageError>(ImageError::ZeroMaximum),
        r matches Ok(out) ==> out@ == spec_image_bytes(data@, spec_data_max(data@)),
{
    let n = data.len();
    let mut max: u64 = 0;
    for k in 0..n
        invariant
            n == data@.len(),
            max == spec_data_max(data@.take(k as int)),
    {
        proof {
            assert(data@.take(k + 1).drop_last() =~= data@.take(k as int));
        }
        let v = data[k];
        if v > max {
            max = v;
        }
    }
    proof {
        assert(data@.take(n as int) =~= data@);
    }
    if max == 0 {
        return Err(ImageError::ZeroMaximum);
    }
    let ghost gmax = max as int;
    let mut out: Vec<u8> = Vec::new();
    for k in 0..n
        invariant
            n == data@.len(),
            max > 0,
            gmax == max as int,
            gmax == spec_data_max(data@),
            out@ =~= spec_image_bytes(data@.take(k as int), gmax),
    {
        let v = data[k];
        proof {
            lemma_max_dominates(data@, k as int);
            lemma_scaled_bounds(v, gmax);
        }
        let prod: u128 = (v as u128) * 0xffff;
        let scaled: u16 = (prod / (max as u128)) as u16;
        let hi: u8 = (scaled / 256) as u8;
        let lo: u8 = (scaled % 256) as u8;
        out.push(hi);
        out.push(lo);
        out.push(hi);
        out.push(lo);
        out.push(hi);
        out.push(lo);
        proof {
            let pre = data@.take(k as int);
            let post = data@.take(k + 1);
            assert forall|i: int| 0 <= i < 6 * post.len() implies spec_image_bytes(post, gmax)[i]
                == out@[i] by {
                if i < 6 * pre.len() {
                    assert(spec_image_bytes(pre, gmax)[i] == out@[i]);
                    assert(post[i / 6] == pre[i / 6]);
                } else {
                    assert(i / 6 == k as int) by (nonlinear_arith)
                        requires
                            6 * (k as int) <= i < 6 * (k as int) + 6,
                    ;
                    assert(post[i / 6] == data@[k as int]);
                }
            }
            assert(out@ =~= spec_image_bytes(post, gmax));
        }
    }
    proof {
        assert(data@.take(n as int) =~= data@);
    }
    Ok(out)
}

} // verus!
