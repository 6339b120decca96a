//! What the stages of the conversion compute, stated over their inputs: the samples of the
//! output planes, the luminance in linear light, the chroma of 2x2 blocks, the neighbours used
//! by the refinement, and the predefined matrices.
use vstd::prelude::*;
use crate::api;
use crate::arith;
use crate::convert;
use crate::gamma;
use crate::rows;
use crate::sharp;
use crate::sharp::RgbInput;
use crate::gamma::SharpYuvTransferTables;
use crate::types::{SharpYuvMatrixType, SharpYuvTransferFunctionType};

verus! {

/// The value stored for a component `y`: clamped to 8 bits (after truncation to 16 bits) for
/// 8-bit output, to `yuv_bit_depth` bits otherwise.
pub open spec fn stored(y: i32, yuv_bit_depth: i32) -> u16 {
    if yuv_bit_depth <= 8 {
        arith::clip_8b_spec((y as i16) as int) as u16
    } else {
        arith::clip_spec(y as int, arith::depth_max(yuv_bit_depth))
    }
}

/// Sample `i` of row `j` of a plane written with `stride` bytes between rows: one byte, or two
/// bytes little-endian when `wide`, equals `v`.
pub open spec fn sample_is(plane: Seq<u8>, stride: int, j: int, i: int, wide: bool, v: u16) -> bool {
    if wide {
        &&& plane[j * stride + 2 * i] == (v % 256) as u8
        &&& plane[j * stride + 2 * i + 1] == (v / 256) as u8
    } else {
        plane[j * stride + i] == v as u8
    }
}

proof fn lemma_store_rows_len(buf: Seq<u8>, nrows: int, stride: int, vals: spec_fn(int) -> Seq<u16>, wide: bool)
    ensures
        convert::store_rows(buf, nrows, stride, vals, wide).len() == buf.len(),
    decreases nrows,
{
    if nrows > 0 {
        lemma_store_rows_len(buf, nrows - 1, stride, vals, wide);
    }
}

/// Rows of `n` values, no longer than the stride: value `i` of row `j` lands at its place.
proof fn lemma_store_rows_at(
    buf: Seq<u8>,
    nrows: int,
    stride: int,
    vals: spec_fn(int) -> Seq<u16>,
    wide: bool,
    n: int,
    j: int,
    i: int,
)
    requires
        0 <= j < nrows,
        0 <= i < n,
        forall|r: int| 0 <= r < nrows ==> (#[trigger] vals(r)).len() == n,
        convert::row_bytes(n, wide) <= stride,
        j * stride + convert::row_bytes(n, wide) <= buf.len(),
    ensures
        sample_is(convert::store_rows(buf, nrows, stride, vals, wide), stride, j, i, wide, vals(j)[i]),
    decreases nrows,
{
    let prev = convert::store_rows(buf, nrows - 1, stride, vals, wide);
    lemma_store_rows_len(buf, nrows - 1, stride, vals, wide);
    let off = (nrows - 1) * stride;
    assert(vals(nrows - 1).len() == n);
    assert(vals(j).len() == n);
    assert(0 <= j * stride) by (nonlinear_arith)
        requires 0 <= j, 0 <= stride;
    if j == nrows - 1 {
        if wide {
            assert((j * stride + 2 * i - off) / 2 == i);
            assert((j * stride + 2 * i + 1 - off) / 2 == i);
        }
    } else {
        lemma_store_rows_at(buf, nrows - 1, stride, vals, wide, n, j, i);
        assert((j + 1) * stride <= off) by (nonlinear_arith)
            requires j + 1 <= nrows - 1, 0 <= stride, off == (nrows - 1) * stride;
        assert((j + 1) * stride == j * stride + stride) by (nonlinear_arith);
    }
}

/// Each U or V sample (by `coeffs`) of block row `j`, column `i`, is the conversion, with the
/// row `coeffs` of the matrix, of the R, G and B chroma differences of that block, in that
/// order (the first, second and third plane of the block row of `best_uv`), stored clamped.
pub proof fn law_chroma_plane_samples(
    best_uv: Seq<i16>,
    buf: Seq<u8>,
    stride: i32,
    coeffs: [i32; 4],
    rgb_bit_depth: i32,
    yuv_bit_depth: i32,
    width: i32,
    height: i32,
    j: int,
    i: int,
)
    requires
        0 <= j < convert::passes(convert::padded_height(height) / 2),
        0 <= i < convert::passes(rows::even_up(width) / 2),
        convert::row_bytes(convert::passes(rows::even_up(width) / 2), yuv_bit_depth > 8) <= stride,
        j * stride + convert::row_bytes(convert::passes(rows::even_up(width) / 2), yuv_bit_depth > 8) <= buf.len(),
    ensures
        ({
            let uv_w = rows::even_up(width) / 2;
            let base = j * (3 * uv_w) + i;
            let y = arith::rgb_to_yuv_spec(
                best_uv[base] as i32,
                best_uv[base + uv_w] as i32,
                best_uv[base + 2 * uv_w] as i32,
                coeffs,
                arith::precision_shift(rgb_bit_depth),
            );
            sample_is(
                convert::chroma_plane(best_uv, buf, stride, coeffs, rgb_bit_depth, yuv_bit_depth, width, height),
                stride as int,
                j,
                i,
                yuv_bit_depth > 8,
                stored(y, yuv_bit_depth),
            )
        }),
{
    let uv_w = rows::even_up(width) / 2;
    let n = convert::passes(uv_w);
    let vals = convert::uv_rows(best_uv, uv_w, n, coeffs, arith::precision_shift(rgb_bit_depth), yuv_bit_depth);
    assert forall|r: int| 0 <= r < convert::passes(convert::padded_height(height) / 2) implies (#[trigger] vals(r)).len() == n by {}
    lemma_store_rows_at(buf, convert::passes(convert::padded_height(height) / 2), stride as int, vals, yuv_bit_depth > 8, n, j, i);
}

/// Each Y sample of row `j`, column `i`, is the conversion, with the Y row of the matrix, of
/// the luminance `best_y` of that pixel plus the R, G and B chroma differences of its 2x2
/// block (block row `j / 2`, column `i / 2`), stored clamped.
pub proof fn law_luma_plane_samples(
    best_y: Seq<u16>,
    best_uv: Seq<i16>,
    buf: Seq<u8>,
    stride: i32,
    rgb_bit_depth: i32,
    yuv_bit_depth: i32,
    width: i32,
    height: i32,
    m: crate::types::SharpYuvConversionMatrix,
    j: int,
    i: int,
)
    requires
        0 <= j < convert::passes(height as int),
        0 <= i < convert::passes(width as int),
        convert::row_bytes(convert::passes(width as int), yuv_bit_depth > 8) <= stride,
        j * stride + convert::row_bytes(convert::passes(width as int), yuv_bit_depth > 8) <= buf.len(),
    ensures
        ({
            let w = rows::even_up(width);
            let uv_w = w / 2;
            let gray = best_y[j * w + i] as int;
            let base = (j / 2) * (3 * uv_w) + i / 2;
            let y = arith::rgb_to_yuv_spec(
                (best_uv[base] + gray) as i32,
                (best_uv[base + uv_w] + gray) as i32,
                (best_uv[base + 2 * uv_w] + gray) as i32,
                m.rgb_to_y,
                arith::precision_shift(rgb_bit_depth),
            );
            sample_is(
                convert::luma_plane(best_y, best_uv, buf, stride, rgb_bit_depth, yuv_bit_depth, width, height, m),
                stride as int,
                j,
                i,
                yuv_bit_depth > 8,
                stored(y, yuv_bit_depth),
            )
        }),
{
    let w = rows::even_up(width);
    let n = convert::passes(width as int);
    let vals = convert::y_rows(best_y, best_uv, w, w / 2, n, m.rgb_to_y, arith::precision_shift(rgb_bit_depth), yuv_bit_depth);
    assert forall|r: int| 0 <= r < convert::passes(height as int) implies (#[trigger] vals(r)).len() == n by {}
    lemma_store_rows_at(buf, convert::passes(height as int), stride as int, vals, yuv_bit_depth > 8, n, j, i);
}

/// The luminance of a pixel in linear light, gamma-encoded: each of its R, G and B samples
/// converted to linear light, their luma (`RGBToGray`), converted back to gamma.
pub open spec fn linear_luma(
    tables: &SharpYuvTransferTables,
    r: u16,
    g: u16,
    b: u16,
    bit_depth: i32,
    transfer_type: SharpYuvTransferFunctionType,
) -> u16 {
    let lr = gamma::gamma_to_linear_spec(tables, r, bit_depth, transfer_type);
    let lg = gamma::gamma_to_linear_spec(tables, g, bit_depth, transfer_type);
    let lb = gamma::gamma_to_linear_spec(tables, b, bit_depth, transfer_type);
    gamma::linear_to_gamma_spec(tables, arith::rgb_to_gray_spec(lr as i64, lg as i64, lb as i64) as u32, bit_depth, transfer_type)
}

/// `UpdateW` stores, for each column `i` of a row of three planes (R at `i`, G at `w + i`, B
/// at `2 * w + i`), the luminance of that pixel computed in linear light, and keeps the rest.
pub proof fn law_update_w_is_linear_luma(
    tables: &SharpYuvTransferTables,
    src: Seq<u16>,
    dst: Seq<u16>,
    w: i32,
    bit_depth: i32,
    transfer_type: SharpYuvTransferFunctionType,
    i: int,
)
    requires
        0 <= i < dst.len(),
    ensures
        rows::update_w_result(tables, src, dst, w, bit_depth, transfer_type)[i] == if i < rows::n_of(w) {
            linear_luma(tables, src[i], src[w + i], src[2 * w + i], bit_depth, transfer_type)
        } else {
            dst[i]
        },
{
}

/// The luminance targets and the rebuilt luminance of a block row (both rows of three planes
/// `s1` and `s2`): the linear-light luminance of each pixel, upper row then lower row.
pub proof fn law_luma_pair_is_linear_luma(
    tables: &SharpYuvTransferTables,
    s1: Seq<u16>,
    s2: Seq<u16>,
    w: i32,
    bit_depth: i32,
    transfer_type: SharpYuvTransferFunctionType,
    p: int,
)
    requires
        0 <= p < 2 * w,
    ensures
        rows::luma_pair(tables, s1, s2, w, bit_depth, transfer_type)[p] == if p < w {
            linear_luma(tables, s1[p], s1[w + p], s1[2 * w + p], bit_depth, transfer_type)
        } else {
            linear_luma(tables, s2[p - w], s2[w + p - w], s2[2 * w + p - w], bit_depth, transfer_type)
        },
{
}

/// The downsampled value of a 2x2 block: the four samples converted to linear light, their
/// average rounded half up, converted back to gamma.
pub open spec fn block_average(
    tables: &SharpYuvTransferTables,
    a: u16,
    b: u16,
    c: u16,
    d: u16,
    bit_depth: i32,
    transfer_type: SharpYuvTransferFunctionType,
) -> i32 {
    let sum = gamma::gamma_to_linear_spec(tables, a, bit_depth, transfer_type) as int
        + gamma::gamma_to_linear_spec(tables, b, bit_depth, transfer_type) as int
        + gamma::gamma_to_linear_spec(tables, c, bit_depth, transfer_type) as int
        + gamma::gamma_to_linear_spec(tables, d, bit_depth, transfer_type) as int + 2;
    gamma::linear_to_gamma_spec(tables, ((sum as u32) >> 2u32) as u32, bit_depth, transfer_type) as i32
}

/// `ScaleDown` is the linear-light average of its four samples, and does not depend on their
/// order.
pub proof fn law_scale_down_is_block_average(
    tables: &SharpYuvTransferTables,
    a: u16,
    b: u16,
    c: u16,
    d: u16,
    bit_depth: i32,
    transfer_type: SharpYuvTransferFunctionType,
)
    ensures
        rows::scale_down_spec(tables, a, b, c, d, bit_depth, transfer_type) as i32
            == block_average(tables, a, b, c, d, bit_depth, transfer_type),
        rows::scale_down_spec(tables, a, b, c, d, bit_depth, transfer_type)
            == rows::scale_down_spec(tables, d, c, b, a, bit_depth, transfer_type),
        rows::scale_down_spec(tables, a, b, c, d, bit_depth, transfer_type)
            == rows::scale_down_spec(tables, b, a, c, d, bit_depth, transfer_type),
{
}

/// The chroma differences of chroma column `i` of two rows of three planes of `2 * uv_w`
/// values (R from offset 0, G from `2 * uv_w`, B from `4 * uv_w`): the 2x2 block of each
/// plane averaged in linear light, minus the gray level of the three averages.
pub open spec fn block_chroma(
    tables: &SharpYuvTransferTables,
    src1: Seq<u16>,
    src2: Seq<u16>,
    uv_w: i32,
    i: int,
    plane: int,
    bit_depth: i32,
    transfer_type: SharpYuvTransferFunctionType,
) -> i16 {
    let r = block_average(tables, src1[2 * i], src1[2 * i + 1], src2[2 * i], src2[2 * i + 1], bit_depth, transfer_type);
    let og = 2 * uv_w + 2 * i;
    let g = block_average(tables, src1[og], src1[og + 1], src2[og], src2[og + 1], bit_depth, transfer_type);
    let ob = 4 * uv_w + 2 * i;
    let b = block_average(tables, src1[ob], src1[ob + 1], src2[ob], src2[ob + 1], bit_depth, transfer_type);
    let gray = arith::rgb_to_gray_spec(r as i64, g as i64, b as i64);
    let v = if plane == 0 { r } else if plane == 1 { g } else { b };
    (v - gray) as i16
}

/// `UpdateChroma` stores, at column `i` of its three planes of `uv_w` values, the R, G and B
/// chroma differences of block `i` (see `block_chroma`), and keeps the rest.
pub proof fn law_update_chroma_is_block_chroma(
    tables: &SharpYuvTransferTables,
    src1: Seq<u16>,
    src2: Seq<u16>,
    dst: Seq<i16>,
    uv_w: i32,
    bit_depth: i32,
    transfer_type: SharpYuvTransferFunctionType,
    i: int,
)
    requires
        1 <= uv_w,
        0 <= i < uv_w,
        3 * uv_w <= dst.len(),
    ensures
        ({
            let res = rows::update_chroma_result(tables, src1, src2, dst, uv_w, bit_depth, transfer_type);
            &&& res[i] == block_chroma(tables, src1, src2, uv_w, i, 0, bit_depth, transfer_type)
            &&& res[uv_w + i] == block_chroma(tables, src1, src2, uv_w, i, 1, bit_depth, transfer_type)
            &&& res[2 * uv_w + i] == block_chroma(tables, src1, src2, uv_w, i, 2, bit_depth, transfer_type)
            &&& forall|q: int| 3 * uv_w <= q < dst.len() ==> #[trigger] res[q] == dst[q]
        }),
{
}

/// The chroma targets and the rebuilt chroma of a block row are the chroma differences of its
/// 2x2 blocks (see `block_chroma`), R, G and B planes in that order.
pub proof fn law_chroma_row_is_block_chroma(
    tables: &SharpYuvTransferTables,
    s1: Seq<u16>,
    s2: Seq<u16>,
    uv_w: i32,
    bit_depth: i32,
    transfer_type: SharpYuvTransferFunctionType,
    i: int,
)
    requires
        0 <= i < uv_w,
    ensures
        rows::chroma_row(tables, s1, s2, uv_w, bit_depth, transfer_type)[i] == block_chroma(tables, s1, s2, uv_w, i, 0, bit_depth, transfer_type),
        rows::chroma_row(tables, s1, s2, uv_w, bit_depth, transfer_type)[uv_w + i] == block_chroma(tables, s1, s2, uv_w, i, 1, bit_depth, transfer_type),
        rows::chroma_row(tables, s1, s2, uv_w, bit_depth, transfer_type)[2 * uv_w + i] == block_chroma(tables, s1, s2, uv_w, i, 2, bit_depth, transfer_type),
{
}

/// The Y of a gray pixel `(v, v, v)` at the working precision of 8 to 12-bit input (two extra
/// bits) with the Y weights of `m` and offset `offset`: the rounded dot product.
pub open spec fn gray_luma(m: crate::types::SharpYuvConversionMatrix, offset: i32, v: i32) -> i32 {
    arith::rgb_to_yuv_spec(v, v, v, [m.rgb_to_y[0], m.rgb_to_y[1], m.rgb_to_y[2], offset], 2)
}

proof fn lemma_gray_luma(m: crate::types::SharpYuvConversionMatrix, offset: i32, v: i32, weight: int)
    requires
        0 <= v <= 0x3fff,
        m.rgb_to_y[0] + m.rgb_to_y[1] + m.rgb_to_y[2] == weight,
        0 <= weight <= 65536,
        0 <= offset <= 0x100_0000,
    ensures
        gray_luma(m, offset, v) == (weight * v + offset + 0x2_0000) / 0x4_0000,
{
    vstd::arithmetic::power2::lemma2_to64();
    let c = [m.rgb_to_y[0], m.rgb_to_y[1], m.rgb_to_y[2], offset];
    assert(c[0] * v + c[1] * v + c[2] * v == weight * v) by (nonlinear_arith)
        requires c[0] + c[1] + c[2] == weight;
    assert(0 <= weight * v <= 65536 * 0x3fff) by (nonlinear_arith)
        requires 0 <= weight <= 65536, 0 <= v <= 0x3fff;
    arith::lemma_rgb_to_yuv_plain(v, v, v, c, 2);
}

/// The full-range matrices (Rec.601 and Rec.709 full range) have Y weights that add up to
/// 1.0 and no Y offset, so that a gray level keeps its value: black gives Y 0 and white the
/// largest value; their U and V weights add up to 0 around the offset 128.
pub proof fn law_full_range_matrices(t: SharpYuvMatrixType)
    requires
        t is kSharpYuvMatrixRec601Full || t is kSharpYuvMatrixRec709Full,
    ensures
        api::conversion_matrix(t) is Some,
        ({
            let m = api::conversion_matrix(t)->0;
            &&& m.rgb_to_y[0] + m.rgb_to_y[1] + m.rgb_to_y[2] == 65536
            &&& m.rgb_to_y[3] == 0
            &&& m.rgb_to_u[0] + m.rgb_to_u[1] + m.rgb_to_u[2] == 0
            &&& m.rgb_to_v[0] + m.rgb_to_v[1] + m.rgb_to_v[2] == 0
            &&& m.rgb_to_u[3] == 128 * 65536
            &&& m.rgb_to_v[3] == 128 * 65536
            &&& forall|v: i32| 0 <= v <= 0x3fff ==> #[trigger] gray_luma(m, 0, v) == (v + 2) / 4
            &&& gray_luma(m, 0, 0) == 0
            &&& gray_luma(m, 0, 1020) == 255
        }),
{
    let m = api::conversion_matrix(t)->0;
    assert forall|v: i32| 0 <= v <= 0x3fff implies #[trigger] gray_luma(m, 0, v) == (v + 2) / 4 by {
        lemma_gray_luma(m, 0, v, 65536);
    }
    assert(gray_luma(m, 0, 0) == 0);
    assert(gray_luma(m, 0, 1020) == 255);
}

/// The limited-range matrices (Rec.601 and Rec.709 limited range) have Y weights that add up
/// to 219/255 and the Y offset 16, so that black gives Y 16 and white Y 235 (at 8 bits); their
/// V weights add up to 0 around the offset 128.
pub proof fn law_limited_range_matrices(t: SharpYuvMatrixType)
    requires
        t is kSharpYuvMatrixRec601Limited || t is kSharpYuvMatrixRec709Limited,
    ensures
        api::conversion_matrix(t) is Some,
        ({
            let m = api::conversion_matrix(t)->0;
            &&& m.rgb_to_y[0] + m.rgb_to_y[1] + m.rgb_to_y[2] == 56284
            &&& m.rgb_to_y[3] == 16 * 65536
            &&& m.rgb_to_v[0] + m.rgb_to_v[1] + m.rgb_to_v[2] == 0
            &&& m.rgb_to_u[3] == 128 * 65536
            &&& m.rgb_to_v[3] == 128 * 65536
            &&& gray_luma(m, 0x40_0000i32, 0) == 16
            &&& gray_luma(m, 0x40_0000i32, 1020) == 235
        }),
{
    let m = api::conversion_matrix(t)->0;
    lemma_gray_luma(m, 0x40_0000i32, 0, 56284);
    lemma_gray_luma(m, 0x40_0000i32, 1020, 56284);
}

/// In a refinement step on block row `k`, the upper luma row is rebuilt from the chroma of
/// block row `k` and of the block row above (itself for the first): the chroma of the block
/// row below never changes the new upper luma row.
pub proof fn law_upper_row_ignores_block_row_below(
    tables: &SharpYuvTransferTables,
    inp: RgbInput,
    transfer_type: SharpYuvTransferFunctionType,
    by: Seq<Seq<u16>>,
    buv1: Seq<Seq<i16>>,
    buv2: Seq<Seq<i16>>,
    diff: u64,
    k: int,
    p: int,
)
    requires
        0 <= k,
        k + 1 < inp.uv_h(),
        3 * inp.w() <= i32::MAX,
        by.len() == inp.uv_h(),
        by[k].len() == 2 * inp.w(),
        buv1.len() == buv2.len(),
        k + 1 < buv1.len(),
        forall|q: int| 0 <= q < buv1.len() && q != k + 1 ==> #[trigger] buv1[q] == buv2[q],
        0 <= p < inp.w(),
    ensures
        sharp::pass_step(tables, inp, transfer_type, (by, buv1, diff), k).0[k][p]
            == sharp::pass_step(tables, inp, transfer_type, (by, buv2, diff), k).0[k][p],
{
    assert(buv1[k] == buv2[k]);
    if k > 0 {
        assert(buv1[k - 1] == buv2[k - 1]);
    }
    let w = inp.w() as i32;
    let yb = inp.y_bit_depth();
    let cur = buv1[k];
    let prev = if k == 0 { buv1[0] } else { buv1[k - 1] };
    assert(prev == (if k == 0 { buv2[0] } else { buv2[k - 1] }));
    let o1 = rows::interp_row(cur, prev, by[k], w, yb);
    let o2a = rows::interp_row(cur, buv1[k + 1], by[k].subrange(w as int, by[k].len() as int), w, yb);
    let o2b = rows::interp_row(cur, buv2[k + 1], by[k].subrange(w as int, by[k].len() as int), w, yb);
    let ya = rows::luma_pair(tables, o1, o2a, w, yb, transfer_type);
    let yb2 = rows::luma_pair(tables, o1, o2b, w, yb, transfer_type);
    assert(ya[p] == yb2[p]);
    let ty = sharp::target_y(tables, inp, transfer_type)[k];
    let na = crate::dsp::update_y_result(ty, ya, by[k], (2 * w) as i32, yb);
    let nb = crate::dsp::update_y_result(ty, yb2, by[k], (2 * w) as i32, yb);
    assert(na[p] == nb[p]);
    assert(sharp::pass_step(tables, inp, transfer_type, (by, buv1, diff), k).0[k] == na);
    assert(sharp::pass_step(tables, inp, transfer_type, (by, buv2, diff), k).0[k] == nb);
}

/// In a refinement step on block row `k`, the lower luma row is rebuilt from the chroma of
/// block row `k` and of the block row below (itself for the last): the chroma of the block
/// row above never changes the new lower luma row.
pub proof fn law_lower_row_ignores_block_row_above(
    tables: &SharpYuvTransferTables,
    inp: RgbInput,
    transfer_type: SharpYuvTransferFunctionType,
    by: Seq<Seq<u16>>,
    buv1: Seq<Seq<i16>>,
    buv2: Seq<Seq<i16>>,
    diff: u64,
    k: int,
    p: int,
)
    requires
        1 <= k < inp.uv_h(),
        3 * inp.w() <= i32::MAX,
        by.len() == inp.uv_h(),
        by[k].len() == 2 * inp.w(),
        buv1.len() == buv2.len(),
        buv1.len() == inp.uv_h(),
        forall|q: int| 0 <= q < buv1.len() && q != k - 1 ==> #[trigger] buv1[q] == buv2[q],
        inp.w() <= p < 2 * inp.w(),
    ensures
        sharp::pass_step(tables, inp, transfer_type, (by, buv1, diff), k).0[k][p]
            == sharp::pass_step(tables, inp, transfer_type, (by, buv2, diff), k).0[k][p],
{
    assert(buv1[k] == buv2[k]);
    if k + 1 < inp.uv_h() {
        assert(buv1[k + 1] == buv2[k + 1]);
    }
}

} // verus!
