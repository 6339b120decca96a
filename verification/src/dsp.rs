//! Row kernels of the sharp conversion: chroma upsampling filter and the update steps.
use vstd::prelude::*;
use crate::arith;

verus! {

/// The 4-tap filter `(9 a0 + 3 a1 + 3 b0 + b1 + 8) >> 4` of the 2x upsampling.
pub open spec fn filter_tap(a0: i16, a1: i16, b0: i16, b1: i16) -> i32 {
    ((9 * a0 + 3 * a1 + 3 * b0 + b1 + 8) as i32) >> 4u32
}

/// Output `p` of the upsampling filter: the filtered chroma difference at the half-pixel
/// position `p` added to `best_y[p]`, clamped to `bit_depth` bits.
pub open spec fn filter_row_value(a: Seq<i16>, b: Seq<i16>, best_y: Seq<u16>, p: int, bit_depth: i32) -> u16 {
    let i = p / 2;
    let v = if p % 2 == 0 {
        filter_tap(a[i], a[i + 1], b[i], b[i + 1])
    } else {
        filter_tap(a[i + 1], a[i], b[i + 1], b[i])
    };
    arith::clip_spec(best_y[p] + v, arith::depth_max(bit_depth))
}

/// Lengths on which the filter row stays inside its slices.
pub open spec fn filter_row_ok(a: Seq<i16>, b: Seq<i16>, len: i32, best_y: Seq<u16>, out: Seq<u16>) -> bool {
    len <= 0 || (len < a.len() && len < b.len() && 2 * len <= best_y.len() && 2 * len <= out.len())
}

/// The filter applied to the first `2 * len` entries of `out`; the rest is kept.
pub open spec fn filter_row_result(
    a: Seq<i16>,
    b: Seq<i16>,
    len: i32,
    best_y: Seq<u16>,
    out: Seq<u16>,
    bit_depth: i32,
) -> Seq<u16> {
    Seq::new(out.len(), |p: int| if p < 2 * len { filter_row_value(a, b, best_y, p, bit_depth) } else { out[p] })
}

/// Upsamples one row of chroma differences (`A` the row, `B` its vertical neighbour) and adds it
/// to `best_y`, writing `2 * len` values to `out`.
pub fn SharpYuvFilterRow_C(A: &[i16], B: &[i16], len: i32, best_y: &[u16], out: &mut [u16], bit_depth: i32)
    requires
        filter_row_ok(A@, B@, len, best_y@, old(out)@),
    ensures
        final(out)@ == filter_row_result(A@, B@, len, best_y@, old(out)@, bit_depth),
{
    let max_y: i32 = 1i32.wrapping_shl(bit_depth as u32).wrapping_sub(1i32);
    let ghost old_out = out@;
    let mut i: i32 = 0;
    while i < len
        invariant
            0 <= i,
            len > 0 ==> i <= len,
            len <= 0 ==> i == 0,
            filter_row_ok(A@, B@, len, best_y@, old_out),
            max_y == arith::depth_max(bit_depth),
            out@.len() == old_out.len(),
            forall|p: int| 0 <= p < 2 * i ==> out@[p] == #[trigger] filter_row_value(A@, B@, best_y@, p, bit_depth),
            forall|p: int| 2 * i <= p < out@.len() ==> out@[p] == old_out[p],
        decreases len - i,
    {
        let k: usize = i as usize;
        let a0: i16 = A[k];
        let a1: i16 = A[k + 1];
        let b0: i16 = B[k];
        let b1: i16 = B[k + 1];
        let v0: i32 = (9 * (a0 as i32) + 3 * (a1 as i32) + 3 * (b0 as i32) + (b1 as i32) + 8) >> 4u32;
        let v1: i32 = (9 * (a1 as i32) + 3 * (a0 as i32) + 3 * (b1 as i32) + (b0 as i32) + 8) >> 4u32;
        proof {
            let x0: i32 = (9 * (a0 as i32) + 3 * (a1 as i32) + 3 * (b0 as i32) + (b1 as i32) + 8) as i32;
            let x1: i32 = (9 * (a1 as i32) + 3 * (a0 as i32) + 3 * (b1 as i32) + (b0 as i32) + 8) as i32;
            assert(-0x10_0000 <= v0 <= 0x10_0000) by (bit_vector)
                requires v0 == x0 >> 4u32, -0x20_0000 <= x0 <= 0x20_0000;
            assert(-0x10_0000 <= v1 <= 0x10_0000) by (bit_vector)
                requires v1 == x1 >> 4u32, -0x20_0000 <= x1 <= 0x20_0000;
        }
        let y0: i32 = best_y[2 * k] as i32;
        let y1: i32 = best_y[2 * k + 1] as i32;
        out[2 * k] = arith::clip(y0 + v0, max_y);
        out[2 * k + 1] = arith::clip(y1 + v1, max_y);
        proof {
            let ii = i as int;
            assert(filter_row_value(A@, B@, best_y@, 2 * ii, bit_depth) == out@[2 * ii]);
            assert(filter_row_value(A@, B@, best_y@, 2 * ii + 1, bit_depth) == out@[2 * ii + 1]);
        }
        i = i + 1;
    }
    assert(out@ =~= filter_row_result(A@, B@, len, best_y@, old_out, bit_depth));
}

/// See [`SharpYuvFilterRow_C`].
pub fn SharpYuvFilterRow(A: &[i16], B: &[i16], len: i32, best_y: &[u16], out: &mut [u16], bit_depth: i32)
    requires
        filter_row_ok(A@, B@, len, best_y@, old(out)@),
    ensures
        final(out)@ == filter_row_result(A@, B@, len, best_y@, old(out)@, bit_depth),
{
    SharpYuvFilterRow_C(A, B, len, best_y, out, bit_depth)
}

/// Sum of `|reference[i] - src[i]|` over the first `n` entries.
pub open spec fn abs_diff_sum(reference: Seq<u16>, src: Seq<u16>, n: int) -> nat
    decreases n,
{
    if n <= 0 {
        0
    } else {
        let d = reference[n - 1] - src[n - 1];
        abs_diff_sum(reference, src, n - 1) + (if d < 0 { -d } else { d }) as nat
    }
}

/// `dst` moved by `reference - src` and clamped to `bit_depth` bits on its first `len` entries.
pub open spec fn update_y_result(reference: Seq<u16>, src: Seq<u16>, dst: Seq<u16>, len: i32, bit_depth: i32) -> Seq<u16> {
    Seq::new(
        dst.len(),
        |i: int|
            if i < len {
                arith::clip_spec(dst[i] + reference[i] - src[i], arith::depth_max(bit_depth))
            } else {
                dst[i]
            },
    )
}

pub proof fn lemma_abs_diff_sum_bound(reference: Seq<u16>, src: Seq<u16>, n: int)
    requires
        0 <= n,
    ensures
        abs_diff_sum(reference, src, n) <= 65535 * n,
    decreases n,
{
    if n > 0 {
        lemma_abs_diff_sum_bound(reference, src, n - 1);
    }
}

/// Moves `dst` by the difference `reference - src` (clamped to `bit_depth` bits) and returns
/// the sum of the absolute differences.
pub fn SharpYuvUpdateY_C(reference: &[u16], src: &[u16], dst: &mut [u16], len: i32, bit_depth: i32) -> (diff: u64)
    requires
        len <= reference@.len(),
        len <= src@.len(),
        len <= old(dst)@.len(),
    ensures
        final(dst)@ == update_y_result(reference@, src@, old(dst)@, len, bit_depth),
        diff == abs_diff_sum(reference@, src@, len as int),
{
    let mut diff: u64 = 0u64;
    let max_y: i32 = 1i32.wrapping_shl(bit_depth as u32).wrapping_sub(1i32);
    let ghost old_dst = dst@;
    let mut i: i32 = 0;
    while i < len
        invariant
            0 <= i,
            len > 0 ==> i <= len,
            len <= 0 ==> i == 0,
            len <= reference@.len(),
            len <= src@.len(),
            len <= old_dst.len(),
            max_y == arith::depth_max(bit_depth),
            dst@.len() == old_dst.len(),
            forall|p: int| 0 <= p < i ==> #[trigger] dst@[p]
                == arith::clip_spec(old_dst[p] + reference@[p] - src@[p], arith::depth_max(bit_depth)),
            forall|p: int| i <= p < dst@.len() ==> dst@[p] == old_dst[p],
            diff == abs_diff_sum(reference@, src@, i as int),
        decreases len - i,
    {
        let k: usize = i as usize;
        let diff_y: i32 = (reference[k] as i32) - (src[k] as i32);
        let new_y: i32 = (dst[k] as i32) + diff_y;
        dst[k] = arith::clip(new_y, max_y);
        let ad: i32 = if diff_y < 0 { -diff_y } else { diff_y };
        proof {
            lemma_abs_diff_sum_bound(reference@, src@, i as int);
            assert(65535 * (i as int) <= 65535 * 0x8000_0000) by (nonlinear_arith)
                requires 0 <= i <= 0x8000_0000;
        }
        diff = diff + (ad as u64);
        i = i + 1;
    }
    assert(dst@ =~= update_y_result(reference@, src@, old_dst, len, bit_depth));
    diff
}

/// See [`SharpYuvUpdateY_C`]; the first argument plays the part of the reference.
pub fn SharpYuvUpdateY(src: &[u16], reference: &[u16], dst: &mut [u16], len: i32, bit_depth: i32) -> (diff: u64)
    requires
        len <= src@.len(),
        len <= reference@.len(),
        len <= old(dst)@.len(),
    ensures
        final(dst)@ == update_y_result(src@, reference@, old(dst)@, len, bit_depth),
        diff == abs_diff_sum(src@, reference@, len as int),
{
    SharpYuvUpdateY_C(src, reference, dst, len, bit_depth)
}

/// `dst` moved by `reference - src` on its first `len` entries, in 16-bit wrapping arithmetic.
pub open spec fn update_rgb_result(reference: Seq<i16>, src: Seq<i16>, dst: Seq<i16>, len: i32) -> Seq<i16> {
    Seq::new(dst.len(), |i: int| if i < len { (dst[i] + reference[i] - src[i]) as i16 } else { dst[i] })
}

/// Moves the chroma differences `dst` by `reference - src`.
pub fn SharpYuvUpdateRGB_C(reference: &[i16], src: &[i16], dst: &mut [i16], len: i32)
    requires
        len <= reference@.len(),
        len <= src@.len(),
        len <= old(dst)@.len(),
    ensures
        final(dst)@ == update_rgb_result(reference@, src@, old(dst)@, len),
{
    let ghost old_dst = dst@;
    let mut i: i32 = 0;
    while i < len
        invariant
            0 <= i,
            len > 0 ==> i <= len,
            len <= 0 ==> i == 0,
            len <= reference@.len(),
            len <= src@.len(),
            len <= old_dst.len(),
            dst@.len() == old_dst.len(),
            forall|p: int| 0 <= p < i ==> #[trigger] dst@[p] == (old_dst[p] + reference@[p] - src@[p]) as i16,
            forall|p: int| i <= p < dst@.len() ==> dst@[p] == old_dst[p],
        decreases len - i,
    {
        let k: usize = i as usize;
        let diff_uv: i32 = (reference[k] as i32) - (src[k] as i32);
        dst[k] = ((dst[k] as i32) + diff_uv) as i16;
        i = i + 1;
    }
    assert(dst@ =~= update_rgb_result(reference@, src@, old_dst, len));
}

/// See [`SharpYuvUpdateRGB_C`]; the first argument plays the part of the reference.
pub fn SharpYuvUpdateRGB(src: &[i16], reference: &[i16], dst: &mut [i16], len: i32)
    requires
        len <= src@.len(),
        len <= reference@.len(),
        len <= old(dst)@.len(),
    ensures
        final(dst)@ == update_rgb_result(src@, reference@, old(dst)@, len),
{
    SharpYuvUpdateRGB_C(src, reference, dst, len)
}

/// Selects the row kernels; the portable kernels above are the only ones, so there is nothing to do.
pub fn SharpYuvInitDsp() {
}

} // verus!
