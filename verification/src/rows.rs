//! Whole-row steps of the sharp conversion: import, gray and luminance rows, chroma
//! downsampling and the upsampling of two rows.
use vstd::prelude::*;
use crate::arith;
use crate::dsp;
use crate::gamma;
use crate::gamma::SharpYuvTransferTables;
use crate::types::SharpYuvTransferFunctionType;

verus! {

/// Number of passes of a loop that tests its condition after the body: at least one.
pub open spec fn n_of(w: i32) -> int {
    if w <= 0 {
        1
    } else {
        w as int
    }
}

/// Gray level of column `i` of a row held as three planes of `w` values (R, G, B).
pub open spec fn gray_at(rgb: Seq<u16>, w: i32, i: int) -> u16 {
    arith::rgb_to_gray_spec(rgb[i] as i64, rgb[w + i] as i64, rgb[2 * w + i] as i64) as u16
}

/// `y` with its first `n_of(w)` entries replaced by the gray levels of `rgb`.
pub open spec fn store_gray_result(rgb: Seq<u16>, w: i32, y: Seq<u16>) -> Seq<u16> {
    Seq::new(y.len(), |i: int| if i < n_of(w) { gray_at(rgb, w, i) } else { y[i] })
}

/// Stores the gray levels of a row (three planes of `w` values) in `y`.
pub fn StoreGray(rgb: &[u16], y: &mut [u16], w: i32)
    requires
        0 <= w,
        2 * w + n_of(w) <= rgb@.len(),
        n_of(w) <= old(y)@.len(),
    ensures
        final(y)@ == store_gray_result(rgb@, w, old(y)@),
{
    let ghost old_y = y@;
    let n: i32 = if w <= 0 { 1 } else { w };
    let wu: usize = w as usize;
    let mut i: i32 = 0;
    while i < n
        invariant
            0 <= i <= n,
            n == n_of(w),
            0 <= w,
            wu == w,
            2 * w + n_of(w) <= rgb@.len(),
            n_of(w) <= old_y.len(),
            y@.len() == old_y.len(),
            forall|p: int| 0 <= p < i ==> #[trigger] y@[p] == gray_at(rgb@, w, p),
            forall|p: int| i <= p < y@.len() ==> y@[p] == old_y[p],
        decreases n - i,
    {
        let k: usize = i as usize;
        let g: i32 = arith::RGBToGray(rgb[k] as i64, rgb[wu + k] as i64, rgb[2 * wu + k] as i64);
        y[k] = g as u16;
        i = i + 1;
    }
    assert(y@ =~= store_gray_result(rgb@, w, old_y));
}

/// Linear value of entry `i` of `src`.
pub open spec fn lin(
    tables: &SharpYuvTransferTables,
    src: Seq<u16>,
    i: int,
    bit_depth: i32,
    transfer_type: SharpYuvTransferFunctionType,
) -> u32 {
    gamma::gamma_to_linear_spec(tables, src[i], bit_depth, transfer_type)
}

/// Gray level, in linear light, of column `i` of a gamma-encoded row of three planes.
pub open spec fn linear_gray_at(
    tables: &SharpYuvTransferTables,
    src: Seq<u16>,
    w: i32,
    i: int,
    bit_depth: i32,
    transfer_type: SharpYuvTransferFunctionType,
) -> u32 {
    arith::rgb_to_gray_spec(
        lin(tables, src, i, bit_depth, transfer_type) as i64,
        lin(tables, src, w + i, bit_depth, transfer_type) as i64,
        lin(tables, src, 2 * w + i, bit_depth, transfer_type) as i64,
    ) as u32
}

/// Column `i` of a row can be converted: its three samples and their gray level stay inside
/// the transfer tables.
pub open spec fn w_point_ok(
    tables: &SharpYuvTransferTables,
    src: Seq<u16>,
    w: i32,
    i: int,
    bit_depth: i32,
    transfer_type: SharpYuvTransferFunctionType,
) -> bool {
    &&& gamma::gamma_to_linear_ok(tables, src[i], bit_depth, transfer_type)
    &&& gamma::gamma_to_linear_ok(tables, src[w + i], bit_depth, transfer_type)
    &&& gamma::gamma_to_linear_ok(tables, src[2 * w + i], bit_depth, transfer_type)
    &&& gamma::linear_to_gamma_ok(tables, linear_gray_at(tables, src, w, i, bit_depth, transfer_type), bit_depth, transfer_type)
}

/// Luminance of column `i`: the gray level computed in linear light, converted back to gamma.
pub open spec fn update_w_value(
    tables: &SharpYuvTransferTables,
    src: Seq<u16>,
    w: i32,
    i: int,
    bit_depth: i32,
    transfer_type: SharpYuvTransferFunctionType,
) -> u16 {
    gamma::linear_to_gamma_spec(tables, linear_gray_at(tables, src, w, i, bit_depth, transfer_type), bit_depth, transfer_type)
}

pub open spec fn update_w_result(
    tables: &SharpYuvTransferTables,
    src: Seq<u16>,
    dst: Seq<u16>,
    w: i32,
    bit_depth: i32,
    transfer_type: SharpYuvTransferFunctionType,
) -> Seq<u16> {
    Seq::new(dst.len(), |i: int| if i < n_of(w) { update_w_value(tables, src, w, i, bit_depth, transfer_type) } else { dst[i] })
}

/// Stores in `dst` the luminance (computed in linear light) of a row of three planes of `w` values.
pub fn UpdateW(
    src: &[u16],
    dst: &mut [u16],
    w: i32,
    bit_depth: i32,
    transfer_type: SharpYuvTransferFunctionType,
    tables: &SharpYuvTransferTables,
)
    requires
        0 <= w,
        2 * w + n_of(w) <= src@.len(),
        n_of(w) <= old(dst)@.len(),
        forall|i: int| 0 <= i < n_of(w) ==> #[trigger] w_point_ok(tables, src@, w, i, bit_depth, transfer_type),
    ensures
        final(dst)@ == update_w_result(tables, src@, old(dst)@, w, bit_depth, transfer_type),
{
    let ghost old_dst = dst@;
    let n: i32 = if w <= 0 { 1 } else { w };
    let wu: usize = w as usize;
    let mut i: i32 = 0;
    while i < n
        invariant
            0 <= i <= n,
            n == n_of(w),
            0 <= w,
            wu == w,
            2 * w + n_of(w) <= src@.len(),
            n_of(w) <= old_dst.len(),
            forall|i: int| 0 <= i < n_of(w) ==> #[trigger] w_point_ok(tables, src@, w, i, bit_depth, transfer_type),
            dst@.len() == old_dst.len(),
            forall|p: int| 0 <= p < i ==> #[trigger] dst@[p] == update_w_value(tables, src@, w, p, bit_depth, transfer_type),
            forall|p: int| i <= p < dst@.len() ==> dst@[p] == old_dst[p],
        decreases n - i,
    {
        let k: usize = i as usize;
        assert(w_point_ok(tables, src@, w, k as int, bit_depth, transfer_type));
        let r: u32 = gamma::SharpYuvGammaToLinear(src[k], bit_depth, transfer_type, tables);
        let g: u32 = gamma::SharpYuvGammaToLinear(src[wu + k], bit_depth, transfer_type, tables);
        let b: u32 = gamma::SharpYuvGammaToLinear(src[2 * wu + k], bit_depth, transfer_type, tables);
        let y: u32 = arith::RGBToGray(r as i64, g as i64, b as i64) as u32;
        dst[k] = gamma::SharpYuvLinearToGamma(y, bit_depth, transfer_type, tables);
        i = i + 1;
    }
    assert(dst@ =~= update_w_result(tables, src@, old_dst, w, bit_depth, transfer_type));
}

/// Average, in linear light, of four gamma-encoded values: `(A + B + C + D + 2) >> 2` (32-bit wrapping).
pub open spec fn linear_average(
    tables: &SharpYuvTransferTables,
    a: u16,
    b: u16,
    c: u16,
    d: u16,
    bit_depth: i32,
    transfer_type: SharpYuvTransferFunctionType,
) -> u32 {
    let la = gamma::gamma_to_linear_spec(tables, a, bit_depth, transfer_type);
    let lb = gamma::gamma_to_linear_spec(tables, b, bit_depth, transfer_type);
    let lc = gamma::gamma_to_linear_spec(tables, c, bit_depth, transfer_type);
    let ld = gamma::gamma_to_linear_spec(tables, d, bit_depth, transfer_type);
    ((la + lb + lc + ld + 2) as u32) >> 2u32
}

pub open spec fn scale_down_ok(
    tables: &SharpYuvTransferTables,
    a: u16,
    b: u16,
    c: u16,
    d: u16,
    bit_depth: i32,
    transfer_type: SharpYuvTransferFunctionType,
) -> bool {
    &&& gamma::gamma_to_linear_ok(tables, a, bit_depth, transfer_type)
    &&& gamma::gamma_to_linear_ok(tables, b, bit_depth, transfer_type)
    &&& gamma::gamma_to_linear_ok(tables, c, bit_depth, transfer_type)
    &&& gamma::gamma_to_linear_ok(tables, d, bit_depth, transfer_type)
    &&& gamma::linear_to_gamma_ok(tables, linear_average(tables, a, b, c, d, bit_depth, transfer_type), bit_depth, transfer_type)
}

/// Downsampling of a 2x2 block: the average in linear light, converted back to gamma.
pub open spec fn scale_down_spec(
    tables: &SharpYuvTransferTables,
    a: u16,
    b: u16,
    c: u16,
    d: u16,
    bit_depth: i32,
    transfer_type: SharpYuvTransferFunctionType,
) -> u32 {
    gamma::linear_to_gamma_spec(tables, linear_average(tables, a, b, c, d, bit_depth, transfer_type), bit_depth, transfer_type) as u32
}

/// Downsamples a 2x2 block of gamma-encoded values, averaging in linear light.
pub fn ScaleDown(
    a: u16,
    b: u16,
    c: u16,
    d: u16,
    bit_depth: i32,
    transfer_type: SharpYuvTransferFunctionType,
    tables: &SharpYuvTransferTables,
) -> (r: u32)
    requires
        scale_down_ok(tables, a, b, c, d, bit_depth, transfer_type),
    ensures
        r == scale_down_spec(tables, a, b, c, d, bit_depth, transfer_type),
{
    let A: u32 = gamma::SharpYuvGammaToLinear(a, bit_depth, transfer_type, tables);
    let B: u32 = gamma::SharpYuvGammaToLinear(b, bit_depth, transfer_type, tables);
    let C: u32 = gamma::SharpYuvGammaToLinear(c, bit_depth, transfer_type, tables);
    let D: u32 = gamma::SharpYuvGammaToLinear(d, bit_depth, transfer_type, tables);
    let sum: u64 = (A as u64) + (B as u64) + (C as u64) + (D as u64) + 2;
    let avg: u32 = (sum as u32) >> 2u32;
    gamma::SharpYuvLinearToGamma(avg, bit_depth, transfer_type, tables) as u32
}


/// Entries outside the first `i` columns of the three planes are none of the three written
/// at column `k < i`.
proof fn lemma_plane_offsets(p: int, k: int, w: int, i: int)
    requires
        0 <= k < i <= w,
        0 <= p,
        !(0 <= p % w < i && p < 3 * w),
    ensures
        p != k && p != w + k && p != 2 * w + k,
{
    if p == k {
        vstd::arithmetic::div_mod::lemma_small_mod(k as nat, w as nat);
    }
    if p == w + k {
        vstd::arithmetic::div_mod::lemma_small_mod(k as nat, w as nat);
        vstd::arithmetic::div_mod::lemma_mod_add_multiples_vanish(k, w);
    }
    if p == 2 * w + k {
        vstd::arithmetic::div_mod::lemma_small_mod(k as nat, w as nat);
        vstd::arithmetic::div_mod::lemma_mod_add_multiples_vanish(k, w);
        vstd::arithmetic::div_mod::lemma_mod_add_multiples_vanish(w + k, w);
    }
}

/// Offset of plane `k` (0: R, 1: G, 2: B) in a row of three planes of `2 * uv_w` values.
pub open spec fn plane_start(k: int, uv_w: i32) -> int {
    if k == 0 {
        0
    } else if k == 1 {
        2 * uv_w
    } else {
        4 * uv_w
    }
}

/// Downsampled value of plane `k` (0: R, 1: G, 2: B) at chroma column `i`, from the two rows
/// `src1` and `src2` (each three planes of `2 * uv_w` values).
pub open spec fn chroma_rgb(
    tables: &SharpYuvTransferTables,
    src1: Seq<u16>,
    src2: Seq<u16>,
    uv_w: i32,
    k: int,
    i: int,
    bit_depth: i32,
    transfer_type: SharpYuvTransferFunctionType,
) -> i32 {
    let o = plane_start(k, uv_w) + 2 * i;
    scale_down_spec(tables, src1[o], src1[o + 1], src2[o], src2[o + 1], bit_depth, transfer_type) as i32
}

pub open spec fn chroma_ok_at(
    tables: &SharpYuvTransferTables,
    src1: Seq<u16>,
    src2: Seq<u16>,
    uv_w: i32,
    k: int,
    i: int,
    bit_depth: i32,
    transfer_type: SharpYuvTransferFunctionType,
) -> bool {
    let o = plane_start(k, uv_w) + 2 * i;
    scale_down_ok(tables, src1[o], src1[o + 1], src2[o], src2[o + 1], bit_depth, transfer_type)
}

/// Chroma column `i` can be computed inside the transfer tables.
pub open spec fn chroma_point_ok(
    tables: &SharpYuvTransferTables,
    src1: Seq<u16>,
    src2: Seq<u16>,
    uv_w: i32,
    i: int,
    bit_depth: i32,
    transfer_type: SharpYuvTransferFunctionType,
) -> bool {
    &&& chroma_ok_at(tables, src1, src2, uv_w, 0, i, bit_depth, transfer_type)
    &&& chroma_ok_at(tables, src1, src2, uv_w, 1, i, bit_depth, transfer_type)
    &&& chroma_ok_at(tables, src1, src2, uv_w, 2, i, bit_depth, transfer_type)
}

/// Gray level of the downsampled R, G, B at chroma column `i`.
pub open spec fn chroma_gray(
    tables: &SharpYuvTransferTables,
    src1: Seq<u16>,
    src2: Seq<u16>,
    uv_w: i32,
    i: int,
    bit_depth: i32,
    transfer_type: SharpYuvTransferFunctionType,
) -> i32 {
    arith::rgb_to_gray_spec(
        chroma_rgb(tables, src1, src2, uv_w, 0, i, bit_depth, transfer_type) as i64,
        chroma_rgb(tables, src1, src2, uv_w, 1, i, bit_depth, transfer_type) as i64,
        chroma_rgb(tables, src1, src2, uv_w, 2, i, bit_depth, transfer_type) as i64,
    )
}

/// Chroma difference of plane `k` at column `i`: the downsampled value minus its gray level.
pub open spec fn chroma_value(
    tables: &SharpYuvTransferTables,
    src1: Seq<u16>,
    src2: Seq<u16>,
    uv_w: i32,
    k: int,
    i: int,
    bit_depth: i32,
    transfer_type: SharpYuvTransferFunctionType,
) -> i16 {
    (chroma_rgb(tables, src1, src2, uv_w, k, i, bit_depth, transfer_type)
        - chroma_gray(tables, src1, src2, uv_w, i, bit_depth, transfer_type)) as i16
}

/// `dst` with its three planes of `uv_w` chroma differences written (when `uv_w == 0` the three
/// writes fall on entry 0 and the last one, B, stays).
pub open spec fn update_chroma_result(
    tables: &SharpYuvTransferTables,
    src1: Seq<u16>,
    src2: Seq<u16>,
    dst: Seq<i16>,
    uv_w: i32,
    bit_depth: i32,
    transfer_type: SharpYuvTransferFunctionType,
) -> Seq<i16> {
    if uv_w == 0 {
        dst.update(0, chroma_value(tables, src1, src2, uv_w, 2, 0, bit_depth, transfer_type))
    } else {
        Seq::new(
            dst.len(),
            |p: int|
                if p < uv_w {
                    chroma_value(tables, src1, src2, uv_w, 0, p, bit_depth, transfer_type)
                } else if p < 2 * uv_w {
                    chroma_value(tables, src1, src2, uv_w, 1, p - uv_w, bit_depth, transfer_type)
                } else if p < 3 * uv_w {
                    chroma_value(tables, src1, src2, uv_w, 2, p - 2 * uv_w, bit_depth, transfer_type)
                } else {
                    dst[p]
                },
        )
    }
}

/// Downsamples two rows (three planes of `2 * uv_w` values each) to one row of chroma
/// differences: the R, G, B averages minus their gray level.
#[verifier::rlimit(100)]
#[verifier::spinoff_prover]
pub fn UpdateChroma(
    src1: &[u16],
    src2: &[u16],
    dst: &mut [i16],
    uv_w: i32,
    bit_depth: i32,
    transfer_type: SharpYuvTransferFunctionType,
    tables: &SharpYuvTransferTables,
)
    requires
        0 <= uv_w,
        4 * uv_w + 2 * n_of(uv_w) <= src1@.len(),
        4 * uv_w + 2 * n_of(uv_w) <= src2@.len(),
        2 * uv_w + n_of(uv_w) <= old(dst)@.len(),
        forall|i: int| 0 <= i < n_of(uv_w) ==> #[trigger] chroma_point_ok(tables, src1@, src2@, uv_w, i, bit_depth, transfer_type),
    ensures
        final(dst)@ == update_chroma_result(tables, src1@, src2@, old(dst)@, uv_w, bit_depth, transfer_type),
{
    let ghost old_dst = dst@;
    let n: i32 = if uv_w <= 0 { 1 } else { uv_w };
    let wu: usize = uv_w as usize;
    let len1: usize = src1.len();
    let mut i: i32 = 0;
    while i < n
        invariant
            0 <= i <= n,
            n == n_of(uv_w),
            len1 == src1@.len(),
            0 <= uv_w,
            wu == uv_w,
            4 * uv_w + 2 * n_of(uv_w) <= src1@.len(),
            4 * uv_w + 2 * n_of(uv_w) <= src2@.len(),
            2 * uv_w + n_of(uv_w) <= old_dst.len(),
            forall|i: int| 0 <= i < n_of(uv_w) ==> #[trigger] chroma_point_ok(tables, src1@, src2@, uv_w, i, bit_depth, transfer_type),
            dst@.len() == old_dst.len(),
            uv_w == 0 ==> (i == 0 ==> dst@ == old_dst),
            uv_w == 0 ==> (i == 1 ==> dst@ == update_chroma_result(tables, src1@, src2@, old_dst, uv_w, bit_depth, transfer_type)),
            uv_w > 0 ==> forall|p: int| 0 <= p < i ==> {
                &&& #[trigger] dst@[p] == chroma_value(tables, src1@, src2@, uv_w, 0, p, bit_depth, transfer_type)
                &&& dst@[uv_w + p] == chroma_value(tables, src1@, src2@, uv_w, 1, p, bit_depth, transfer_type)
                &&& dst@[2 * uv_w + p] == chroma_value(tables, src1@, src2@, uv_w, 2, p, bit_depth, transfer_type)
            },
            uv_w > 0 ==> forall|p: int| 0 <= p < dst@.len() && !(0 <= p % (uv_w as int) < i && p < 3 * uv_w) ==> #[trigger] dst@[p] == old_dst[p],
        decreases n - i,
    {
        let k: usize = i as usize;
        assert(chroma_point_ok(tables, src1@, src2@, uv_w, k as int, bit_depth, transfer_type));
        let o0: usize = 2 * k;
        let o1: usize = 2 * wu + 2 * k;
        let o2: usize = 4 * wu + 2 * k;
        let r: i32 = ScaleDown(src1[o0], src1[o0 + 1], src2[o0], src2[o0 + 1], bit_depth, transfer_type, tables) as i32;
        let g: i32 = ScaleDown(src1[o1], src1[o1 + 1], src2[o1], src2[o1 + 1], bit_depth, transfer_type, tables) as i32;
        let b: i32 = ScaleDown(src1[o2], src1[o2 + 1], src2[o2], src2[o2 + 1], bit_depth, transfer_type, tables) as i32;
        let W: i32 = arith::RGBToGray(r as i64, g as i64, b as i64);
        let ghost before = dst@;
        dst[k] = #[verifier::truncate] (((r as i64) - (W as i64)) as i16);
        dst[wu + k] = #[verifier::truncate] (((g as i64) - (W as i64)) as i16);
        dst[2 * wu + k] = #[verifier::truncate] (((b as i64) - (W as i64)) as i16);
        proof {
            if uv_w > 0 {
                assert(r == chroma_rgb(tables, src1@, src2@, uv_w, 0, k as int, bit_depth, transfer_type));
                assert(g == chroma_rgb(tables, src1@, src2@, uv_w, 1, k as int, bit_depth, transfer_type));
                assert(b == chroma_rgb(tables, src1@, src2@, uv_w, 2, k as int, bit_depth, transfer_type));
                assert forall|p: int| 0 <= p < i + 1 implies {
                    &&& #[trigger] dst@[p] == chroma_value(tables, src1@, src2@, uv_w, 0, p, bit_depth, transfer_type)
                    &&& dst@[uv_w + p] == chroma_value(tables, src1@, src2@, uv_w, 1, p, bit_depth, transfer_type)
                    &&& dst@[2 * uv_w + p] == chroma_value(tables, src1@, src2@, uv_w, 2, p, bit_depth, transfer_type)
                } by {
                    if p < i {
                        assert(before[p] == chroma_value(tables, src1@, src2@, uv_w, 0, p, bit_depth, transfer_type));
                    }
                }
                assert forall|p: int| 0 <= p < dst@.len() && !(0 <= p % (uv_w as int) < i + 1 && p < 3 * uv_w)
                    implies #[trigger] dst@[p] == old_dst[p] by {
                    lemma_plane_offsets(p, k as int, uv_w as int, i + 1);
                }
            } else {
                assert(dst@ =~= update_chroma_result(tables, src1@, src2@, old_dst, uv_w, bit_depth, transfer_type));
            }
        }
        i = i + 1;
    }
    proof {
        if uv_w > 0 {
            assert forall|p: int| 0 <= p < dst@.len() implies dst@[p]
                == #[trigger] update_chroma_result(tables, src1@, src2@, old_dst, uv_w, bit_depth, transfer_type)[p] by {
                if p < uv_w {
                } else if p < 2 * uv_w {
                    let q = p - uv_w;
                    assert(dst@[q] == chroma_value(tables, src1@, src2@, uv_w, 0, q, bit_depth, transfer_type));
                    assert(dst@[uv_w + q] == chroma_value(tables, src1@, src2@, uv_w, 1, q, bit_depth, transfer_type));
                } else if p < 3 * uv_w {
                    let q = p - 2 * uv_w;
                    assert(dst@[q] == chroma_value(tables, src1@, src2@, uv_w, 0, q, bit_depth, transfer_type));
                    assert(dst@[2 * uv_w + q] == chroma_value(tables, src1@, src2@, uv_w, 2, q, bit_depth, transfer_type));
                } else {
                }
            }
            assert(dst@ =~= update_chroma_result(tables, src1@, src2@, old_dst, uv_w, bit_depth, transfer_type));
        }
    }
}


/// Step between two samples of a row: halved (rounding toward zero) for samples of more than
/// 8 bits, which are counted in 16-bit units.
pub open spec fn import_step(rgb_step: i32, rgb_bit_depth: i32) -> i32 {
    if rgb_bit_depth > 8 {
        if rgb_step >= 0 {
            (rgb_step / 2) as i32
        } else {
            (-((-rgb_step) / 2)) as i32
        }
    } else {
        rgb_step
    }
}

/// Offset of sample `x`, in samples: `x * step` in 32-bit wrapping arithmetic.
pub open spec fn sample_offset(x: int, step: i32) -> i32 {
    (x * step) as i32
}

/// Sample `off` lies inside `bytes`: a byte for 8-bit input, two bytes otherwise.
pub open spec fn sample_ok(bytes: Seq<u8>, off: i32, rgb_bit_depth: i32) -> bool {
    &&& 0 <= off
    &&& if rgb_bit_depth == 8 { off < bytes.len() } else { off < bytes.len() / 2 }
}

/// Sample `off`: a byte for 8-bit input, a little-endian 16-bit value otherwise.
pub open spec fn sample_value(bytes: Seq<u8>, off: i32, rgb_bit_depth: i32) -> i32 {
    if rgb_bit_depth == 8 {
        bytes[off as int] as i32
    } else {
        (bytes[2 * off] + 256 * bytes[2 * off + 1]) as i32
    }
}

/// Sample `x` of a row, scaled to the working precision.
pub open spec fn imported(bytes: Seq<u8>, x: int, rgb_step: i32, rgb_bit_depth: i32) -> u16 {
    let off = sample_offset(x, import_step(rgb_step, rgb_bit_depth));
    arith::shift_spec(sample_value(bytes, off, rgb_bit_depth), arith::precision_shift(rgb_bit_depth)) as u16
}

/// `pic_width` rounded up to an even number.
pub open spec fn even_up(pic_width: i32) -> int {
    if pic_width % 2 == 0 {
        pic_width as int
    } else {
        pic_width + 1
    }
}

/// Entry `x` of an imported plane of even width: the sample, or the last sample repeated in the
/// padding column.
pub open spec fn imported_padded(bytes: Seq<u8>, x: int, rgb_step: i32, rgb_bit_depth: i32, pic_width: i32) -> u16 {
    if x < pic_width {
        imported(bytes, x, rgb_step, rgb_bit_depth)
    } else {
        imported(bytes, pic_width - 1, rgb_step, rgb_bit_depth)
    }
}

pub open spec fn import_ok(r: Seq<u8>, g: Seq<u8>, b: Seq<u8>, rgb_step: i32, rgb_bit_depth: i32, pic_width: i32) -> bool {
    forall|x: int| 0 <= x < n_of(pic_width) ==> {
        let off = #[trigger] sample_offset(x, import_step(rgb_step, rgb_bit_depth));
        &&& sample_ok(r, off, rgb_bit_depth)
        &&& sample_ok(g, off, rgb_bit_depth)
        &&& sample_ok(b, off, rgb_bit_depth)
    }
}

/// `dst` with the three imported planes (each padded to an even width) written at its start;
/// for an empty row the three writes fall on entry 0 and the last one, B, stays.
pub open spec fn import_result(
    r: Seq<u8>,
    g: Seq<u8>,
    b: Seq<u8>,
    rgb_step: i32,
    rgb_bit_depth: i32,
    pic_width: i32,
    dst: Seq<u16>,
) -> Seq<u16> {
    if pic_width == 0 {
        dst.update(0, imported(b, 0, rgb_step, rgb_bit_depth))
    } else {
        let w = even_up(pic_width);
        Seq::new(
            dst.len(),
            |p: int|
                if p < w {
                    imported_padded(r, p, rgb_step, rgb_bit_depth, pic_width)
                } else if p < 2 * w {
                    imported_padded(g, p - w, rgb_step, rgb_bit_depth, pic_width)
                } else if p < 3 * w {
                    imported_padded(b, p - 2 * w, rgb_step, rgb_bit_depth, pic_width)
                } else {
                    dst[p]
                },
        )
    }
}

pub(crate) fn read_sample(bytes: &[u8], off: i32, rgb_bit_depth: i32) -> (v: i32)
    requires
        sample_ok(bytes@, off, rgb_bit_depth),
    ensures
        v == sample_value(bytes@, off, rgb_bit_depth),
{
    if rgb_bit_depth == 8 {
        bytes[off as usize] as i32
    } else {
        let o: usize = off as usize;
        (bytes[2 * o] as i32) + 256 * (bytes[2 * o + 1] as i32)
    }
}

/// Imports one row of R, G, B samples (of `rgb_bit_depth` bits, `rgb_step` bytes apart) into
/// three planes of even width at the working precision; an odd width repeats the last sample.
pub fn ImportOneRow(
    r_ptr: &[u8],
    g_ptr: &[u8],
    b_ptr: &[u8],
    rgb_step: i32,
    rgb_bit_depth: i32,
    pic_width: i32,
    dst: &mut [u16],
)
    requires
        0 <= pic_width < i32::MAX,
        import_ok(r_ptr@, g_ptr@, b_ptr@, rgb_step, rgb_bit_depth, pic_width),
        1 <= old(dst)@.len(),
        3 * even_up(pic_width) <= old(dst)@.len(),
    ensures
        final(dst)@ == import_result(r_ptr@, g_ptr@, b_ptr@, rgb_step, rgb_bit_depth, pic_width, old(dst)@),
{
    let ghost old_dst = dst@;
    let step: i32 = if rgb_bit_depth > 8 {
        if rgb_step >= 0 { rgb_step / 2 } else { -((-(rgb_step as i64)) / 2) as i32 }
    } else {
        rgb_step
    };
    let shift: i32 = arith::GetPrecisionShift(rgb_bit_depth);
    let w: i32 = if pic_width % 2 == 0 { pic_width } else { pic_width + 1 };
    let wu: usize = w as usize;
    let n: i32 = if pic_width <= 0 { 1 } else { pic_width };
    let mut i: i32 = 0;
    while i < n
        invariant
            0 <= i <= n,
            n == n_of(pic_width),
            0 <= pic_width < i32::MAX,
            w == even_up(pic_width),
            wu == w,
            step == import_step(rgb_step, rgb_bit_depth),
            shift == arith::precision_shift(rgb_bit_depth),
            import_ok(r_ptr@, g_ptr@, b_ptr@, rgb_step, rgb_bit_depth, pic_width),
            1 <= old_dst.len(),
            3 * w <= old_dst.len(),
            dst@.len() == old_dst.len(),
            pic_width == 0 ==> (i == 0 ==> dst@ == old_dst),
            pic_width == 0 ==> (i == 1 ==> dst@ == import_result(r_ptr@, g_ptr@, b_ptr@, rgb_step, rgb_bit_depth, pic_width, old_dst)),
            pic_width > 0 ==> forall|p: int| 0 <= p < i ==> {
                &&& #[trigger] dst@[p] == imported(r_ptr@, p, rgb_step, rgb_bit_depth)
                &&& dst@[w + p] == imported(g_ptr@, p, rgb_step, rgb_bit_depth)
                &&& dst@[2 * w + p] == imported(b_ptr@, p, rgb_step, rgb_bit_depth)
            },
            pic_width > 0 ==> forall|p: int| 0 <= p < dst@.len() && !(0 <= p % (w as int) < i && p < 3 * w)
                ==> #[trigger] dst@[p] == old_dst[p],
        decreases n - i,
    {
        let k: usize = i as usize;
        proof {
            arith::lemma_i32_product(i, step);
        }
        let off: i32 = #[verifier::truncate] (((i as i64) * (step as i64)) as i32);
        assert(off == sample_offset(k as int, step));
        let vr: i32 = read_sample(r_ptr, off, rgb_bit_depth);
        let vg: i32 = read_sample(g_ptr, off, rgb_bit_depth);
        let vb: i32 = read_sample(b_ptr, off, rgb_bit_depth);
        let ghost before = dst@;
        dst[k] = #[verifier::truncate] (arith::Shift(vr, shift) as u16);
        dst[wu + k] = #[verifier::truncate] (arith::Shift(vg, shift) as u16);
        dst[2 * wu + k] = #[verifier::truncate] (arith::Shift(vb, shift) as u16);
        proof {
            if pic_width > 0 {
                assert forall|p: int| 0 <= p < i + 1 implies {
                    &&& #[trigger] dst@[p] == imported(r_ptr@, p, rgb_step, rgb_bit_depth)
                    &&& dst@[w + p] == imported(g_ptr@, p, rgb_step, rgb_bit_depth)
                    &&& dst@[2 * w + p] == imported(b_ptr@, p, rgb_step, rgb_bit_depth)
                } by {
                    if p < i {
                        assert(before[p] == imported(r_ptr@, p, rgb_step, rgb_bit_depth));
                    }
                }
                assert forall|p: int| 0 <= p < dst@.len() && !(0 <= p % (w as int) < i + 1 && p < 3 * w)
                    implies #[trigger] dst@[p] == old_dst[p] by {
                    lemma_plane_offsets(p, k as int, w as int, i + 1);
                }
            } else {
                assert(dst@ =~= import_result(r_ptr@, g_ptr@, b_ptr@, rgb_step, rgb_bit_depth, pic_width, old_dst));
            }
        }
        i = i + 1;
    }
    if pic_width & 1i32 != 0 {
        proof {
            assert(pic_width & 1i32 != 0 ==> pic_width % 2 == 1) by (bit_vector)
                requires pic_width >= 0;
        }
        let pw: usize = pic_width as usize;
        let ghost before = dst@;
        dst[pw] = dst[pw - 1];
        dst[wu + pw] = dst[wu + pw - 1];
        dst[2 * wu + pw] = dst[2 * wu + pw - 1];
        proof {
            assert forall|p: int| 0 <= p < dst@.len() implies dst@[p]
                == #[trigger] import_result(r_ptr@, g_ptr@, b_ptr@, rgb_step, rgb_bit_depth, pic_width, old_dst)[p] by {
                if p < w {
                    if p < pic_width {
                        assert(before[p] == imported(r_ptr@, p, rgb_step, rgb_bit_depth));
                    } else {
                        assert(before[pic_width - 1] == imported(r_ptr@, pic_width - 1, rgb_step, rgb_bit_depth));
                    }
                } else if p < 2 * w {
                    let q = p - w;
                    if q < pic_width {
                        assert(before[q] == imported(r_ptr@, q, rgb_step, rgb_bit_depth));
                    } else {
                        assert(before[pic_width - 1] == imported(r_ptr@, pic_width - 1, rgb_step, rgb_bit_depth));
                    }
                } else if p < 3 * w {
                    let q = p - 2 * w;
                    if q < pic_width {
                        assert(before[q] == imported(r_ptr@, q, rgb_step, rgb_bit_depth));
                    } else {
                        assert(before[pic_width - 1] == imported(r_ptr@, pic_width - 1, rgb_step, rgb_bit_depth));
                    }
                } else {
                    assert(p % (w as int) < w);
                    vstd::arithmetic::div_mod::lemma_mod_bound(p, w as int);
                }
            }
            assert(dst@ =~= import_result(r_ptr@, g_ptr@, b_ptr@, rgb_step, rgb_bit_depth, pic_width, old_dst));
        }
    } else {
        proof {
            if pic_width > 0 {
                assert(pic_width & 1i32 == 0 ==> pic_width % 2 == 0) by (bit_vector)
                    requires pic_width >= 0;
                assert forall|p: int| 0 <= p < dst@.len() implies dst@[p]
                    == #[trigger] import_result(r_ptr@, g_ptr@, b_ptr@, rgb_step, rgb_bit_depth, pic_width, old_dst)[p] by {
                    if p < w {
                    } else if p < 2 * w {
                        let q = p - w;
                        assert(dst@[q] == imported(r_ptr@, q, rgb_step, rgb_bit_depth));
                    } else if p < 3 * w {
                        let q = p - 2 * w;
                        assert(dst@[q] == imported(r_ptr@, q, rgb_step, rgb_bit_depth));
                    } else {
                        vstd::arithmetic::div_mod::lemma_mod_bound(p, w as int);
                    }
                }
                assert(dst@ =~= import_result(r_ptr@, g_ptr@, b_ptr@, rgb_step, rgb_bit_depth, pic_width, old_dst));
            }
        }
    }
}


/// Entry `x` of one upsampled plane row of width `w`: the two-tap filter at both ends, the
/// four-tap filter inside; `cur` is the chroma row of the block, `other` its vertical neighbour
/// and `best_y` the luminance row.
pub open spec fn plane_value(cur: Seq<i16>, other: Seq<i16>, best_y: Seq<u16>, w: i32, x: int, bit_depth: i32) -> u16 {
    let uv_w = w / 2;
    let len = (w - 1) / 2;
    if x == 0 {
        arith::filter2_spec(cur[0] as i32, other[0] as i32, best_y[0] as i32, bit_depth)
    } else if x - 1 < 2 * len {
        dsp::filter_row_value(cur, other, best_y.subrange(1, best_y.len() as int), x - 1, bit_depth)
    } else {
        arith::filter2_spec(cur[uv_w - 1] as i32, other[uv_w - 1] as i32, best_y[w - 1] as i32, bit_depth)
    }
}

pub open spec fn plane_ok(cur: Seq<i16>, other: Seq<i16>, best_y: Seq<u16>, w: i32, out: Seq<u16>) -> bool {
    &&& 1 <= w
    &&& (w - 1) / 2 < cur.len()
    &&& (w - 1) / 2 < other.len()
    &&& w / 2 <= cur.len()
    &&& w / 2 <= other.len()
    &&& w <= best_y.len()
    &&& w <= out.len()
}

/// Writes one upsampled plane row of width `w` at the start of `out`.
fn interpolate_plane(cur: &[i16], other: &[i16], best_y: &[u16], w: i32, out: &mut [u16], bit_depth: i32)
    requires
        plane_ok(cur@, other@, best_y@, w, old(out)@),
    ensures
        final(out)@ == Seq::new(
            old(out)@.len(),
            |x: int| if x < w { plane_value(cur@, other@, best_y@, w, x, bit_depth) } else { old(out)@[x] },
        ),
{
    let ghost old_out = out@;
    let uv_w: i32 = w >> 1u32;
    let wm1: i32 = w - 1;
    let len: i32 = wm1 >> 1u32;
    assert(uv_w == w / 2 && len == wm1 / 2) by (bit_vector)
        requires w >= 1i32, uv_w == w >> 1u32, len == wm1 >> 1u32;
    out[0] = arith::Filter2(cur[0] as i32, other[0] as i32, best_y[0] as i32, bit_depth);
    let ghost mid = out@;
    let by1: &[u16] = &best_y[1..best_y.len()];
    {
        let (_head, tail) = out.split_at_mut(1);
        dsp::SharpYuvFilterRow(cur, other, len, by1, tail, bit_depth);
    }
    let ghost mid2 = out@;
    assert(mid2.len() == old_out.len());
    assert forall|x: int| 1 <= x < mid2.len() implies mid2[x] == (if x - 1 < 2 * len {
        dsp::filter_row_value(cur@, other@, by1@, x - 1, bit_depth)
    } else {
        old_out[x]
    }) by {
        assert(mid2[x] == dsp::filter_row_result(cur@, other@, len, by1@, mid.subrange(1, mid.len() as int), bit_depth)[x - 1]);
    }
    if w & 1i32 == 0 {
        assert(w & 1i32 == 0 ==> w % 2 == 0) by (bit_vector) requires w >= 1i32;
        let e: usize = (uv_w - 1) as usize;
        out[(w - 1) as usize] = arith::Filter2(cur[e] as i32, other[e] as i32, best_y[(w - 1) as usize] as i32, bit_depth);
    } else {
        assert(w & 1i32 != 0 ==> w % 2 == 1) by (bit_vector) requires w >= 1i32;
    }
    assert(out@ =~= Seq::new(
        old_out.len(),
        |x: int| if x < w { plane_value(cur@, other@, best_y@, w, x, bit_depth) } else { old_out[x] },
    ));
}

/// Three upsampled plane rows (R, G, B) of width `w` written at the start of `out`, the rest kept.
pub open spec fn interpolate_result(
    cur: Seq<i16>,
    other: Seq<i16>,
    best_y: Seq<u16>,
    w: i32,
    out: Seq<u16>,
    bit_depth: i32,
) -> Seq<u16> {
    let uv_w = w / 2;
    Seq::new(
        out.len(),
        |q: int|
            if q < w {
                plane_value(cur, other, best_y, w, q, bit_depth)
            } else if q < 2 * w {
                plane_value(cur.subrange(uv_w, cur.len() as int), other.subrange(uv_w, other.len() as int), best_y, w, q - w, bit_depth)
            } else if q < 3 * w {
                plane_value(cur.subrange(2 * uv_w, cur.len() as int), other.subrange(2 * uv_w, other.len() as int), best_y, w, q - 2 * w, bit_depth)
            } else {
                out[q]
            },
    )
}

/// Lengths on which the upsampling of two rows stays inside its slices.
pub open spec fn interpolate_ok(
    best_y: Seq<u16>,
    prev_uv: Seq<i16>,
    cur_uv: Seq<i16>,
    next_uv: Seq<i16>,
    w: i32,
    out1: Seq<u16>,
    out2: Seq<u16>,
) -> bool {
    &&& 1 <= w
    &&& 2 * w <= best_y.len()
    &&& 3 * w <= out1.len()
    &&& 3 * w <= out2.len()
    &&& 2 * (w / 2) + (w - 1) / 2 < prev_uv.len()
    &&& 2 * (w / 2) + (w - 1) / 2 < cur_uv.len()
    &&& 2 * (w / 2) + (w - 1) / 2 < next_uv.len()
    &&& 3 * (w / 2) <= prev_uv.len()
    &&& 3 * (w / 2) <= cur_uv.len()
    &&& 3 * (w / 2) <= next_uv.len()
}

fn interpolate_three_planes(cur: &[i16], other: &[i16], best_y: &[u16], w: i32, out: &mut [u16], bit_depth: i32)
    requires
        1 <= w,
        w <= best_y@.len(),
        3 * w <= old(out)@.len(),
        2 * (w / 2) + (w - 1) / 2 < cur@.len(),
        2 * (w / 2) + (w - 1) / 2 < other@.len(),
        3 * (w / 2) <= cur@.len(),
        3 * (w / 2) <= other@.len(),
    ensures
        final(out)@ == interpolate_result(cur@, other@, best_y@, w, old(out)@, bit_depth),
{
    let ghost old_out = out@;
    let wu: usize = w as usize;
    let uvw: usize = (w >> 1u32) as usize;
    assert(uvw == w / 2) by (bit_vector) requires w >= 1i32, uvw == (w >> 1u32) as usize;
    interpolate_plane(cur, other, best_y, w, out, bit_depth);
    let ghost s1 = out@;
    let c1: &[i16] = &cur[uvw..cur.len()];
    let o1: &[i16] = &other[uvw..other.len()];
    {
        let (_head, tail) = out.split_at_mut(wu);
        interpolate_plane(c1, o1, best_y, w, tail, bit_depth);
    }
    let ghost s2 = out@;
    let c2: &[i16] = &cur[2 * uvw..cur.len()];
    let o2: &[i16] = &other[2 * uvw..other.len()];
    {
        let (_head, tail) = out.split_at_mut(2 * wu);
        interpolate_plane(c2, o2, best_y, w, tail, bit_depth);
    }
    assert forall|q: int| 0 <= q < out@.len() implies out@[q] == #[trigger] interpolate_result(cur@, other@, best_y@, w, old_out, bit_depth)[q] by {
        if q < 2 * w {
            assert(out@[q] == s2[q]);
            if q < w {
                assert(s2[q] == s1[q]);
            }
        }
    }
    assert(out@ =~= interpolate_result(cur@, other@, best_y@, w, old_out, bit_depth));
}

/// Upsamples the chroma differences of a block row (`cur_uv`, with its neighbours `prev_uv`
/// above and `next_uv` below) and adds them to the two luminance rows of `best_y`, writing the
/// R, G, B planes of the two rows to `out1` and `out2`.
pub fn InterpolateTwoRows(
    best_y: &[u16],
    prev_uv: &[i16],
    cur_uv: &[i16],
    next_uv: &[i16],
    w: i32,
    out1: &mut [u16],
    out2: &mut [u16],
    bit_depth: i32,
)
    requires
        interpolate_ok(best_y@, prev_uv@, cur_uv@, next_uv@, w, old(out1)@, old(out2)@),
    ensures
        final(out1)@ == interpolate_result(cur_uv@, prev_uv@, best_y@, w, old(out1)@, bit_depth),
        final(out2)@ == interpolate_result(
            cur_uv@,
            next_uv@,
            best_y@.subrange(w as int, best_y@.len() as int),
            w,
            old(out2)@,
            bit_depth,
        ),
{
    interpolate_three_planes(cur_uv, prev_uv, best_y, w, out1, bit_depth);
    let by2: &[u16] = &best_y[w as usize..best_y.len()];
    interpolate_three_planes(cur_uv, next_uv, by2, w, out2, bit_depth);
}


/// Every one of the first `n` entries of `src` converts to linear light inside the tables.
pub open spec fn row_ok(
    tables: &SharpYuvTransferTables,
    src: Seq<u16>,
    n: int,
    bit_depth: i32,
    transfer_type: SharpYuvTransferFunctionType,
) -> bool {
    forall|p: int| 0 <= p < n ==> #[trigger] gamma::gamma_to_linear_ok(tables, src[p], bit_depth, transfer_type)
}

/// Entries of at most `2^bit_depth - 1` convert inside the tables.
pub proof fn lemma_row_ok_from_bound(
    tables: &SharpYuvTransferTables,
    src: Seq<u16>,
    n: int,
    bit_depth: i32,
    transfer_type: SharpYuvTransferFunctionType,
)
    requires
        tables.wf(),
        tables.supports(transfer_type, bit_depth),
        3 <= bit_depth <= 14,
        n <= src.len(),
        forall|p: int| 0 <= p < n ==> #[trigger] src[p] <= arith::depth_max(bit_depth),
    ensures
        row_ok(tables, src, n, bit_depth, transfer_type),
{
    assert forall|p: int| 0 <= p < n implies #[trigger] gamma::gamma_to_linear_ok(tables, src[p], bit_depth, transfer_type) by {
        gamma::lemma_gamma_to_linear_range(tables, src[p], bit_depth, transfer_type);
    }
}

/// A row whose three planes convert inside the tables can have its luminance computed.
pub proof fn lemma_w_points(
    tables: &SharpYuvTransferTables,
    src: Seq<u16>,
    w: i32,
    bit_depth: i32,
    transfer_type: SharpYuvTransferFunctionType,
)
    requires
        tables.wf(),
        tables.supports(transfer_type, bit_depth),
        3 <= bit_depth <= 14,
        1 <= w,
        3 * w <= src.len(),
        row_ok(tables, src, 3 * w, bit_depth, transfer_type),
    ensures
        forall|i: int| 0 <= i < w ==> #[trigger] w_point_ok(tables, src, w, i, bit_depth, transfer_type),
{
    assert forall|i: int| 0 <= i < w implies #[trigger] w_point_ok(tables, src, w, i, bit_depth, transfer_type) by {
        assert(gamma::gamma_to_linear_ok(tables, src[i], bit_depth, transfer_type));
        assert(gamma::gamma_to_linear_ok(tables, src[w + i], bit_depth, transfer_type));
        assert(gamma::gamma_to_linear_ok(tables, src[2 * w + i], bit_depth, transfer_type));
        gamma::lemma_gamma_to_linear_bound(tables, src[i], bit_depth, transfer_type);
        gamma::lemma_gamma_to_linear_bound(tables, src[w + i], bit_depth, transfer_type);
        gamma::lemma_gamma_to_linear_bound(tables, src[2 * w + i], bit_depth, transfer_type);
        let r = lin(tables, src, i, bit_depth, transfer_type);
        let g = lin(tables, src, w + i, bit_depth, transfer_type);
        let b = lin(tables, src, 2 * w + i, bit_depth, transfer_type);
        arith::lemma_rgb_to_gray(r as i64, g as i64, b as i64);
        assert((gamma::linear_max(transfer_type) + 0) >= arith::rgb_to_gray_spec(r as i64, g as i64, b as i64));
        gamma::lemma_linear_to_gamma_range(tables, linear_gray_at(tables, src, w, i, bit_depth, transfer_type), bit_depth, transfer_type);
    }
}

/// Two rows whose planes convert inside the tables can be downsampled.
pub proof fn lemma_chroma_points(
    tables: &SharpYuvTransferTables,
    src1: Seq<u16>,
    src2: Seq<u16>,
    uv_w: i32,
    bit_depth: i32,
    transfer_type: SharpYuvTransferFunctionType,
)
    requires
        tables.wf(),
        tables.supports(transfer_type, bit_depth),
        3 <= bit_depth <= 14,
        1 <= uv_w,
        6 * uv_w <= src1.len(),
        6 * uv_w <= src2.len(),
        row_ok(tables, src1, 6 * uv_w, bit_depth, transfer_type),
        row_ok(tables, src2, 6 * uv_w, bit_depth, transfer_type),
    ensures
        forall|i: int| 0 <= i < uv_w ==> #[trigger] chroma_point_ok(tables, src1, src2, uv_w, i, bit_depth, transfer_type),
{
    assert forall|i: int| 0 <= i < uv_w implies #[trigger] chroma_point_ok(tables, src1, src2, uv_w, i, bit_depth, transfer_type) by {
        assert forall|k: int| 0 <= k < 3 implies #[trigger] chroma_ok_at(tables, src1, src2, uv_w, k, i, bit_depth, transfer_type) by {
            let o = plane_start(k, uv_w) + 2 * i;
            assert(gamma::gamma_to_linear_ok(tables, src1[o], bit_depth, transfer_type));
            assert(gamma::gamma_to_linear_ok(tables, src1[o + 1], bit_depth, transfer_type));
            assert(gamma::gamma_to_linear_ok(tables, src2[o], bit_depth, transfer_type));
            assert(gamma::gamma_to_linear_ok(tables, src2[o + 1], bit_depth, transfer_type));
            gamma::lemma_gamma_to_linear_bound(tables, src1[o], bit_depth, transfer_type);
            gamma::lemma_gamma_to_linear_bound(tables, src1[o + 1], bit_depth, transfer_type);
            gamma::lemma_gamma_to_linear_bound(tables, src2[o], bit_depth, transfer_type);
            gamma::lemma_gamma_to_linear_bound(tables, src2[o + 1], bit_depth, transfer_type);
            let avg = linear_average(tables, src1[o], src1[o + 1], src2[o], src2[o + 1], bit_depth, transfer_type);
            let t: u32 = (gamma::gamma_to_linear_spec(tables, src1[o], bit_depth, transfer_type)
                + gamma::gamma_to_linear_spec(tables, src1[o + 1], bit_depth, transfer_type)
                + gamma::gamma_to_linear_spec(tables, src2[o], bit_depth, transfer_type)
                + gamma::gamma_to_linear_spec(tables, src2[o + 1], bit_depth, transfer_type) + 2) as u32;
            assert(t <= 4 * gamma::linear_max(transfer_type) + 2);
            if gamma::is_lut_curve(transfer_type) {
                assert(t >> 2u32 <= 0x2_0000) by (bit_vector)
                    requires t <= 0x8_0002u32;
            } else {
                assert(t >> 2u32 <= 65536) by (bit_vector)
                    requires t <= 262146u32;
            }
            gamma::lemma_linear_to_gamma_range(tables, avg, bit_depth, transfer_type);
        }
        assert(chroma_ok_at(tables, src1, src2, uv_w, 0, i, bit_depth, transfer_type));
        assert(chroma_ok_at(tables, src1, src2, uv_w, 1, i, bit_depth, transfer_type));
        assert(chroma_ok_at(tables, src1, src2, uv_w, 2, i, bit_depth, transfer_type));
    }
}


/// The three imported planes of a row, each padded to the even width.
pub open spec fn import_values(
    r: Seq<u8>,
    g: Seq<u8>,
    b: Seq<u8>,
    rgb_step: i32,
    rgb_bit_depth: i32,
    pic_width: i32,
) -> Seq<u16> {
    let w = even_up(pic_width);
    Seq::new(
        (3 * w) as nat,
        |p: int|
            if p < w {
                imported_padded(r, p, rgb_step, rgb_bit_depth, pic_width)
            } else if p < 2 * w {
                imported_padded(g, p - w, rgb_step, rgb_bit_depth, pic_width)
            } else {
                imported_padded(b, p - 2 * w, rgb_step, rgb_bit_depth, pic_width)
            },
    )
}

pub proof fn lemma_import_values(
    r: Seq<u8>,
    g: Seq<u8>,
    b: Seq<u8>,
    rgb_step: i32,
    rgb_bit_depth: i32,
    pic_width: i32,
    dst: Seq<u16>,
)
    requires
        1 <= pic_width,
        dst.len() == 3 * even_up(pic_width),
    ensures
        import_result(r, g, b, rgb_step, rgb_bit_depth, pic_width, dst) == import_values(r, g, b, rgb_step, rgb_bit_depth, pic_width),
{
    assert(import_result(r, g, b, rgb_step, rgb_bit_depth, pic_width, dst) =~= import_values(r, g, b, rgb_step, rgb_bit_depth, pic_width));
}

/// The three upsampled plane rows of width `w`.
pub open spec fn interp_row(cur: Seq<i16>, other: Seq<i16>, best_y: Seq<u16>, w: i32, bit_depth: i32) -> Seq<u16> {
    let uv_w = w / 2;
    Seq::new(
        (3 * w) as nat,
        |q: int|
            if q < w {
                plane_value(cur, other, best_y, w, q, bit_depth)
            } else if q < 2 * w {
                plane_value(cur.subrange(uv_w, cur.len() as int), other.subrange(uv_w, other.len() as int), best_y, w, q - w, bit_depth)
            } else {
                plane_value(cur.subrange(2 * uv_w, cur.len() as int), other.subrange(2 * uv_w, other.len() as int), best_y, w, q - 2 * w, bit_depth)
            },
    )
}

/// Every upsampled value is clamped to `bit_depth` bits.
pub proof fn lemma_interp_row(cur: Seq<i16>, other: Seq<i16>, best_y: Seq<u16>, w: i32, bit_depth: i32, out: Seq<u16>)
    requires
        0 <= bit_depth <= 16,
        1 <= w,
        out.len() == 3 * w,
    ensures
        interpolate_result(cur, other, best_y, w, out, bit_depth) == interp_row(cur, other, best_y, w, bit_depth),
        forall|q: int| 0 <= q < 3 * w ==> #[trigger] interp_row(cur, other, best_y, w, bit_depth)[q] <= arith::depth_max(bit_depth),
{
    assert(interpolate_result(cur, other, best_y, w, out, bit_depth) =~= interp_row(cur, other, best_y, w, bit_depth));
    assert forall|q: int| 0 <= q < 3 * w implies #[trigger] interp_row(cur, other, best_y, w, bit_depth)[q] <= arith::depth_max(bit_depth) by {
        arith::lemma_clip_bit_depth_bound(0, bit_depth);
        let uv_w = w / 2;
        let (c, o, x) = if q < w {
            (cur, other, q)
        } else if q < 2 * w {
            (cur.subrange(uv_w, cur.len() as int), other.subrange(uv_w, other.len() as int), q - w)
        } else {
            (cur.subrange(2 * uv_w, cur.len() as int), other.subrange(2 * uv_w, other.len() as int), q - 2 * w)
        };
        assert(interp_row(cur, other, best_y, w, bit_depth)[q] == plane_value(c, o, best_y, w, x, bit_depth));
        let len = (w - 1) / 2;
        if x == 0 {
            arith::lemma_clip_bit_depth_bound((((3 * c[0] + o[0] + 2) as i32 >> 2u32) + best_y[0]) as i32, bit_depth);
        } else if x - 1 < 2 * len {
        } else {
            let a = c[uv_w - 1] as i32;
            let bb = o[uv_w - 1] as i32;
            arith::lemma_clip_bit_depth_bound((((3 * a + bb + 2) as i32 >> 2u32) + best_y[w - 1]) as i32, bit_depth);
        }
    }
}

/// The two gray rows of a block row.
pub open spec fn gray_pair(s1: Seq<u16>, s2: Seq<u16>, w: i32) -> Seq<u16> {
    Seq::new((2 * w) as nat, |p: int| if p < w { gray_at(s1, w, p) } else { gray_at(s2, w, p - w) })
}

/// The two luminance rows of a block row, computed in linear light.
pub open spec fn luma_pair(
    tables: &SharpYuvTransferTables,
    s1: Seq<u16>,
    s2: Seq<u16>,
    w: i32,
    bit_depth: i32,
    transfer_type: SharpYuvTransferFunctionType,
) -> Seq<u16> {
    Seq::new(
        (2 * w) as nat,
        |p: int|
            if p < w {
                update_w_value(tables, s1, w, p, bit_depth, transfer_type)
            } else {
                update_w_value(tables, s2, w, p - w, bit_depth, transfer_type)
            },
    )
}

/// The chroma differences of a block row (three planes of `uv_w` values).
pub open spec fn chroma_row(
    tables: &SharpYuvTransferTables,
    s1: Seq<u16>,
    s2: Seq<u16>,
    uv_w: i32,
    bit_depth: i32,
    transfer_type: SharpYuvTransferFunctionType,
) -> Seq<i16> {
    Seq::new(
        (3 * uv_w) as nat,
        |p: int|
            if p < uv_w {
                chroma_value(tables, s1, s2, uv_w, 0, p, bit_depth, transfer_type)
            } else if p < 2 * uv_w {
                chroma_value(tables, s1, s2, uv_w, 1, p - uv_w, bit_depth, transfer_type)
            } else {
                chroma_value(tables, s1, s2, uv_w, 2, p - 2 * uv_w, bit_depth, transfer_type)
            },
    )
}

pub proof fn lemma_chroma_row(
    tables: &SharpYuvTransferTables,
    s1: Seq<u16>,
    s2: Seq<u16>,
    dst: Seq<i16>,
    uv_w: i32,
    bit_depth: i32,
    transfer_type: SharpYuvTransferFunctionType,
)
    requires
        1 <= uv_w,
        dst.len() == 3 * uv_w,
    ensures
        update_chroma_result(tables, s1, s2, dst, uv_w, bit_depth, transfer_type) == chroma_row(tables, s1, s2, uv_w, bit_depth, transfer_type),
{
    assert(update_chroma_result(tables, s1, s2, dst, uv_w, bit_depth, transfer_type) =~= chroma_row(tables, s1, s2, uv_w, bit_depth, transfer_type));
}

} // verus!
