//! Properties of the library that hold on every input or relate several of its functions.
use vstd::prelude::*;
use vstd::wrapping::{i32_specs, u32_specs};
use crate::api;
use crate::arith;
use crate::convert;
use crate::dsp;
use crate::gamma;
use crate::rows;
use crate::sharp;
use crate::sharp::RgbInput;
use crate::gamma::SharpYuvTransferTables;
use crate::types::{SharpYuvConversionMatrix, SharpYuvTransferFunctionType};

verus! {

/// The version that `SharpYuvGetVersion` reports is one that `SharpYuvOptionsInitInternal`
/// accepts.
pub proof fn law_own_version_accepted()
    ensures
        api::version_accepted(api::sharpyuv_version()),
{
}

/// A shift right by `s` (a `Shift` by `-s`) undoes a shift left by `s` (a `Shift` by `s`) on
/// values of at most 16 bits, for `0 <= s <= 15`.
pub proof fn law_shift_round_trip(v: i32, s: i32)
    requires
        0 <= v < 0x1_0000,
        0 <= s <= 15,
    ensures
        arith::shift_spec(arith::shift_spec(v, s), (0 - s) as i32) == v,
{
    let su: u32 = s as u32;
    let up: i32 = v << su;
    assert(su % 32 == su);
    assert(arith::shift_spec(v, s) == up);
    assert(up >> su == v && (up << 0u32) == up && (su == 0u32 ==> up == v)) by (bit_vector)
        requires 0 <= v < 0x1_0000i32, su <= 15u32, up == v << su;
    assert(i32_specs::wrapping_shl(v, su) == up);
    let back: i32 = (0 - s) as i32;
    if s > 0 {
        assert(back < 0 && (0 - back) as u32 == su);
        assert(i32_specs::wrapping_shr(up, su) == v);
        assert(arith::shift_spec(up, back) == i32_specs::wrapping_shr(up, su));
    } else {
        assert(i32_specs::wrapping_shl(up, 0u32) == up);
    }
}

/// The gray level of a gray triple `(v, v, v)` is `v`: the luma weights add up to one.
pub proof fn law_gray_of_gray(v: i64)
    requires
        0 <= v <= 0x10_0000,
    ensures
        arith::rgb_to_gray_spec(v, v, v) == v,
{
    arith::lemma_rgb_to_gray(v, v, v);
    assert(arith::gray_sum(v as int, v as int, v as int) == 65536 * v + 32768);
    assert((65536 * v + 32768) / 65536 == v as int) by (nonlinear_arith)
        requires 0 <= v;
}

/// The two-tap filter of two equal values `a` adds nothing to `a`: the result is `a + w0`
/// clamped to `bit_depth` bits.
pub proof fn law_filter2_flat(a: i32, w0: i32, bit_depth: i32)
    requires
        0 <= a <= 0x1_0000,
        -0x4000_0000 <= w0 <= 0x4000_0000,
    ensures
        arith::filter2_spec(a, a, w0, bit_depth) == arith::clip_bit_depth_spec((a + w0) as i32, bit_depth),
{
    let t: i32 = (3 * a + a + 2) as i32;
    assert(t >> 2u32 == a) by (bit_vector)
        requires 0 <= a <= 0x1_0000i32, t == 4 * a + 2;
}

/// When the reference luminance equals the source on the first `len` entries, an update of
/// the luminance leaves values already in range unchanged and reports no difference.
pub proof fn law_update_y_fixed_point(
    reference: Seq<u16>,
    src: Seq<u16>,
    dst: Seq<u16>,
    len: i32,
    bit_depth: i32,
)
    requires
        0 <= len,
        len <= reference.len(),
        len <= src.len(),
        len <= dst.len(),
        0 <= bit_depth <= 16,
        forall|i: int| 0 <= i < len ==> #[trigger] reference[i] == src[i],
        forall|i: int| 0 <= i < len ==> #[trigger] dst[i] <= arith::depth_max(bit_depth),
    ensures
        dsp::update_y_result(reference, src, dst, len, bit_depth) == dst,
        dsp::abs_diff_sum(reference, src, len as int) == 0,
{
    arith::lemma_depth_max(bit_depth);
    lemma_abs_diff_sum_zero(reference, src, len as int);
    assert(dsp::update_y_result(reference, src, dst, len, bit_depth) =~= dst);
}

proof fn lemma_abs_diff_sum_zero(reference: Seq<u16>, src: Seq<u16>, n: int)
    requires
        forall|i: int| 0 <= i < n ==> #[trigger] reference[i] == src[i],
    ensures
        dsp::abs_diff_sum(reference, src, n) == 0,
    decreases n,
{
    if n > 0 {
        assert(reference[n - 1] == src[n - 1]);
        lemma_abs_diff_sum_zero(reference, src, n - 1);
    }
}

/// When the reference chroma equals the source on the first `len` entries, an update of the
/// chroma differences leaves them unchanged.
pub proof fn law_update_rgb_fixed_point(reference: Seq<i16>, src: Seq<i16>, dst: Seq<i16>, len: i32)
    requires
        len <= reference.len(),
        len <= src.len(),
        forall|i: int| 0 <= i < len ==> #[trigger] reference[i] == src[i],
    ensures
        dsp::update_rgb_result(reference, src, dst, len) == dst,
{
    assert(dsp::update_rgb_result(reference, src, dst, len) =~= dst);
}

/// With the linear transfer function, converting to linear light and back gives the value back.
pub proof fn law_linear_transfer_round_trip(tables: &SharpYuvTransferTables, v: u16, bit_depth: i32)
    ensures
        gamma::gamma_to_linear_ok(tables, v, bit_depth, SharpYuvTransferFunctionType::kSharpYuvTransferFunctionLinear),
        gamma::linear_to_gamma_ok(
            tables,
            gamma::gamma_to_linear_spec(tables, v, bit_depth, SharpYuvTransferFunctionType::kSharpYuvTransferFunctionLinear),
            bit_depth,
            SharpYuvTransferFunctionType::kSharpYuvTransferFunctionLinear,
        ),
        gamma::linear_to_gamma_spec(
            tables,
            gamma::gamma_to_linear_spec(tables, v, bit_depth, SharpYuvTransferFunctionType::kSharpYuvTransferFunctionLinear),
            bit_depth,
            SharpYuvTransferFunctionType::kSharpYuvTransferFunctionLinear,
        ) == v,
{
    reveal(gamma::gamma_to_linear_ok);
    reveal(gamma::linear_to_gamma_ok);
    reveal(gamma::gamma_to_linear_spec);
    reveal(gamma::linear_to_gamma_spec);
}

/// The sRGB conversion to linear light preserves order: a brighter gamma value never gives a
/// darker linear value (working bit depths of 3 to 14 bits).
pub proof fn law_srgb_to_linear_monotone(tables: &SharpYuvTransferTables, v1: u16, v2: u16, bit_depth: i32)
    requires
        tables.wf(),
        3 <= bit_depth <= 14,
        v1 <= v2 <= arith::depth_max(bit_depth),
    ensures
        gamma::gamma_to_linear_spec(tables, v1, bit_depth, SharpYuvTransferFunctionType::kSharpYuvTransferFunctionSrgb)
            <= gamma::gamma_to_linear_spec(tables, v2, bit_depth, SharpYuvTransferFunctionType::kSharpYuvTransferFunctionSrgb),
{
    let srgb = SharpYuvTransferFunctionType::kSharpYuvTransferFunctionSrgb;
    gamma::lemma_gamma_to_linear_range(tables, v1, bit_depth, srgb);
    gamma::lemma_gamma_to_linear_range(tables, v2, bit_depth, srgb);
    reveal(gamma::gamma_to_linear_ok);
    reveal(gamma::gamma_to_linear_spec);
    reveal(gamma::to_linear_srgb_spec);
    arith::lemma_depth_max(bit_depth);
    let tab = tables.linear_table();
    let bd: u32 = bit_depth as u32;
    let m: i32 = arith::depth_max(bit_depth);
    let a: i32 = v1 as i32;
    let b: i32 = v2 as i32;
    let shift = i32_specs::wrapping_sub(10i32, bit_depth);
    assert(shift == 10 - bit_depth);
    if shift > 0 {
        let sh: u32 = shift as u32;
        let ia: i32 = a << sh;
        let ib: i32 = b << sh;
        assert(0 <= ia <= ib <= 1023) by (bit_vector)
            requires 0 <= a <= b <= m, m == (1i32 << bd) - 1, 3u32 <= bd <= 9u32,
                sh == (10 - bd) as u32, ia == a << sh, ib == b << sh;
        assert(i32_specs::wrapping_shl(a, sh) == ia);
        assert(i32_specs::wrapping_shl(b, sh) == ib);
        assert(tab[ia as int] <= tab[ib as int]);
    } else {
        let shr: i32 = (bit_depth - 10) as i32;
        assert(i32_specs::wrapping_sub(0i32, shift) == shr);
        gamma::lemma_fpi_between(a, tab, shr);
        gamma::lemma_fpi_between(b, tab, shr);
        let s: u32 = shr as u32;
        let pa: i32 = a >> s;
        let pb: i32 = b >> s;
        assert(0 <= pa <= pb && m <= 0x3fff) by (bit_vector)
            requires 0 <= a <= b, s <= 4u32, pa == a >> s, pb == b >> s, bd <= 14u32, m == (1i32 << bd) - 1;
        let ta = gamma::fpi_pos(a, shr) as int;
        let tb = gamma::fpi_pos(b, shr) as int;
        if pa < pb {
            assert(tab[ta + 1] <= tab[tb]);
        } else {
            let au: u32 = a as u32;
            let bu: u32 = b as u32;
            let p: u32 = pa as u32;
            let fa: u32 = (au - (p << s)) as u32;
            let fb: u32 = (bu - (p << s)) as u32;
            assert(fa <= fb && (p << s) <= au && fa == au - (p << s) && fb == bu - (p << s)) by (bit_vector)
                requires 0 <= a <= b <= 0x4000i32, s <= 4u32, pa == a >> s, pa == b >> s,
                    p == pa as u32, au == a as u32, bu == b as u32,
                    fa == (au - (p << s)) as u32, fb == (bu - (p << s)) as u32;
            assert(gamma::fpi_frac(a, shr) == fa);
            assert(gamma::fpi_frac(b, shr) == fb);
            let d = tab[ta + 1] - tab[ta];
            let h = gamma::fpi_half(shr);
            assert(d * fa <= d * fb) by (nonlinear_arith)
                requires 0 <= d, fa <= fb;
            let ya: u32 = (d * fa + h) as u32;
            let yb: u32 = (d * fb + h) as u32;
            assert(ya <= yb);
            arith::lemma_shr_monotone(ya, yb, s);
        }
    }
}

/// The sRGB conversion back to gamma preserves order: more linear light never gives a darker
/// gamma value (linear values up to 65536, gamma values of 1 to 15 bits).
pub proof fn law_srgb_from_linear_monotone(tables: &SharpYuvTransferTables, l1: u32, l2: u32, bit_depth: i32)
    requires
        tables.wf(),
        1 <= bit_depth <= 15,
        l1 <= l2 <= 65536,
    ensures
        gamma::linear_to_gamma_spec(tables, l1, bit_depth, SharpYuvTransferFunctionType::kSharpYuvTransferFunctionSrgb)
            <= gamma::linear_to_gamma_spec(tables, l2, bit_depth, SharpYuvTransferFunctionType::kSharpYuvTransferFunctionSrgb),
{
    let srgb = SharpYuvTransferFunctionType::kSharpYuvTransferFunctionSrgb;
    assert(tables.supports(srgb, bit_depth));
    gamma::lemma_linear_to_gamma_range(tables, l1, bit_depth, srgb);
    gamma::lemma_linear_to_gamma_range(tables, l2, bit_depth, srgb);
    reveal(gamma::linear_to_gamma_ok);
    reveal(gamma::linear_to_gamma_spec);
    reveal(gamma::from_linear_srgb_spec);
    let tab = tables.gamma_table();
    let vshift: i32 = i32_specs::wrapping_sub(bit_depth, 16i32);
    assert(vshift == bit_depth - 16);
    let a: i32 = l1 as i32;
    let b: i32 = l2 as i32;
    gamma::lemma_fpi_scaled_between(a, tab, 7i32, vshift);
    gamma::lemma_fpi_scaled_between(b, tab, 7i32, vshift);
    let k: u32 = (0 - vshift) as u32;
    let pa = gamma::fpi_pos(a, 7i32) as int;
    let pb = gamma::fpi_pos(b, 7i32) as int;
    let fa = gamma::fpi_spec(a, tab, 7i32, vshift);
    let fb = gamma::fpi_spec(b, tab, 7i32, vshift);
    let ta1: u32 = tab[pa + 1];
    let tb1: u32 = tab[pb + 1];
    let pa32: i32 = a >> 7u32;
    let pb32: i32 = b >> 7u32;
    assert(ta1 >> k <= 32768 && tb1 >> k <= 32768 && pa32 <= pb32) by (bit_vector)
        requires ta1 <= 65536u32, tb1 <= 65536u32, 1u32 <= k <= 15u32, 0 <= a <= b, pa32 == a >> 7u32, pb32 == b >> 7u32;
    assert(fa <= 32768 && fb <= 32768);
    if pa < pb {
        let t1: u32 = tab[pa + 1];
        let t2: u32 = tab[pb];
        assert(t1 <= t2);
        arith::lemma_shr_monotone(t1, t2, k);
        assert(fa <= gamma::scaled_entry(tab, pa + 1, vshift) <= gamma::scaled_entry(tab, pb, vshift) <= fb);
    } else {
        let au: u32 = a as u32;
        let bu: u32 = b as u32;
        let p: u32 = pa32 as u32;
        let xa: u32 = (au - (p << 7u32)) as u32;
        let xb: u32 = (bu - (p << 7u32)) as u32;
        assert(xa <= xb && (p << 7u32) <= au && xa == au - (p << 7u32) && xb == bu - (p << 7u32)) by (bit_vector)
            requires 0 <= a <= b <= 65536i32, pa32 == a >> 7u32, pa32 == b >> 7u32,
                p == pa32 as u32, au == a as u32, bu == b as u32,
                xa == (au - (p << 7u32)) as u32, xb == (bu - (p << 7u32)) as u32;
        assert(gamma::fpi_frac(a, 7i32) == xa);
        assert(gamma::fpi_frac(b, 7i32) == xb);
        let d = gamma::scaled_entry(tab, pa + 1, vshift) - gamma::scaled_entry(tab, pa, vshift);
        let h = gamma::fpi_half(7i32);
        assert(d * xa <= d * xb) by (nonlinear_arith)
            requires 0 <= d, xa <= xb;
        let ya: u32 = (d * xa + h) as u32;
        let yb: u32 = (d * xb + h) as u32;
        assert(ya <= yb);
        arith::lemma_shr_monotone(ya, yb, 7u32);
    }
    assert(fa as u16 == fa && fb as u16 == fb);
}

/// sRGB keeps black black both ways, and full linear light converts to `2^bit_depth`, one
/// above the largest value of `bit_depth` bits (working bit depths of 3 to 14 bits).
#[verifier::spinoff_prover]
pub proof fn law_srgb_black_and_white(tables: &SharpYuvTransferTables, bit_depth: i32)
    requires
        tables.wf(),
        3 <= bit_depth <= 14,
    ensures
        gamma::gamma_to_linear_spec(tables, 0u16, bit_depth, SharpYuvTransferFunctionType::kSharpYuvTransferFunctionSrgb) == 0,
        gamma::linear_to_gamma_spec(tables, 0u32, bit_depth, SharpYuvTransferFunctionType::kSharpYuvTransferFunctionSrgb) == 0,
        gamma::linear_to_gamma_spec(tables, 65536u32, bit_depth, SharpYuvTransferFunctionType::kSharpYuvTransferFunctionSrgb)
            == arith::depth_max(bit_depth) + 1,
{
    let srgb = SharpYuvTransferFunctionType::kSharpYuvTransferFunctionSrgb;
    arith::lemma_depth_max(bit_depth);
    gamma::lemma_gamma_to_linear_range(tables, 0u16, bit_depth, srgb);
    gamma::lemma_linear_to_gamma_range(tables, 0u32, bit_depth, srgb);
    gamma::lemma_linear_to_gamma_range(tables, 65536u32, bit_depth, srgb);
    reveal(gamma::gamma_to_linear_ok);
    reveal(gamma::gamma_to_linear_spec);
    reveal(gamma::to_linear_srgb_spec);
    reveal(gamma::linear_to_gamma_ok);
    reveal(gamma::linear_to_gamma_spec);
    reveal(gamma::from_linear_srgb_spec);
    let ltab = tables.linear_table();
    let gtab = tables.gamma_table();
    let shift = i32_specs::wrapping_sub(10i32, bit_depth);
    assert(shift == 10 - bit_depth);
    assert(ltab[0] == 0);
    assert(0u16 as i32 == 0i32);
    if shift > 0 {
        let sh: u32 = shift as u32;
        arith::lemma_shift_of_zero(sh);
        assert(i32_specs::wrapping_shl(0i32, sh) == 0i32);
    } else {
        let shr: i32 = (bit_depth - 10) as i32;
        assert(i32_specs::wrapping_sub(0i32, shift) == shr);
        gamma::lemma_fpi_between(0i32, ltab, shr);
        let s: u32 = shr as u32;
        arith::lemma_shift_of_zero(s);
        assert(gamma::fpi_frac(0i32, shr) == 0);
        let hh: u32 = if shr > 0 { 1u32 << ((shr - 1) as u32) } else { 0u32 };
        assert(hh >> s == 0u32) by (bit_vector)
            requires s <= 16u32, hh == (if s > 0 { 1u32 << ((s - 1) as u32) } else { 0u32 });
        assert(gamma::fpi_half(shr) == hh);
        assert(gamma::fpi_pos(0i32, shr) == 0);
        let d = ltab[1] - ltab[0];
        let f = gamma::fpi_frac(0i32, shr);
        assert(f == 0);
        assert(d * f == 0) by (nonlinear_arith)
            requires f == 0;
        assert(((d * gamma::fpi_frac(0i32, shr) + gamma::fpi_half(shr)) as u32) == hh);
        assert(gamma::fpi_spec(0i32, ltab, shr, 0i32) == 0);
    }
    let vshift: i32 = i32_specs::wrapping_sub(bit_depth, 16i32);
    assert(vshift == bit_depth - 16);
    let k: u32 = (16 - bit_depth) as u32;
    gamma::lemma_fpi_scaled_between(0i32, gtab, 7i32, vshift);
    gamma::lemma_fpi_scaled_between(65536i32, gtab, 7i32, vshift);
    arith::lemma_shift_of_zero(7u32);
    let top: i32 = 65536i32;
    let g0: u32 = gtab[0];
    let g512: u32 = gtab[512];
    assert(g0 == 0 && g512 == 65536);
    let e0: u32 = g0 >> k;
    let e512: u32 = g512 >> k;
    let one: i32 = 1i32 << (bit_depth as u32);
    assert(((top >> 7u32) as u32) << 7u32 == 65536u32 && (top as u32) == 65536u32 && top >> 7u32 == 512i32
        && (1u32 << 6u32) == 64u32 && (64u32 >> 7u32) == 0u32
        && e0 == 0u32 && e512 as int == one as int && e512 <= 16384u32) by (bit_vector)
        requires top == 65536i32, g0 == 0u32, g512 == 65536u32, e0 == g0 >> k, e512 == g512 >> k, 2u32 <= k <= 13u32,
            one == 1i32 << ((16u32 - k) as u32);
    assert(gamma::fpi_frac(0i32, 7i32) == 0);
    assert(gamma::fpi_frac(65536i32, 7i32) == 0);
    assert(gamma::fpi_half(7i32) == 64);
    assert(gamma::scaled_entry(gtab, 0, vshift) == e0);
    assert(gamma::scaled_entry(gtab, 512, vshift) == e512);
}

/// The curves read from lookup tables keep their end points: linear 0 converts to gamma 0;
/// gamma 0 converts to linear 0 but for the logarithmic curves; the largest gamma value and
/// full linear light (65535) correspond for `full_scale_curve`; and for the saturating curves,
/// which clamp to 1.0, every 16-bit sample converts and every linear value from 65535 on
/// converts to the largest gamma value.
pub proof fn law_lut_end_points(tables: &SharpYuvTransferTables, transfer_type: SharpYuvTransferFunctionType, bit_depth: i32)
    requires
        tables.wf(),
        gamma::is_lut_curve(transfer_type),
        tables.supports(transfer_type, bit_depth),
        1 <= bit_depth <= 16,
    ensures
        gamma::linear_to_gamma_ok(tables, 0u32, bit_depth, transfer_type),
        gamma::linear_to_gamma_spec(tables, 0u32, bit_depth, transfer_type) == 0,
        gamma::black_curve(transfer_type) ==> gamma::gamma_to_linear_ok(tables, 0u16, bit_depth, transfer_type)
            && gamma::gamma_to_linear_spec(tables, 0u16, bit_depth, transfer_type) == 0,
        gamma::full_scale_curve(transfer_type) ==> {
            &&& gamma::gamma_to_linear_ok(tables, arith::depth_max(bit_depth) as u16, bit_depth, transfer_type)
            &&& gamma::gamma_to_linear_spec(tables, arith::depth_max(bit_depth) as u16, bit_depth, transfer_type) == 65535
            &&& gamma::linear_to_gamma_spec(tables, 65535u32, bit_depth, transfer_type) == arith::depth_max(bit_depth)
        },
        gamma::saturating_curve(transfer_type) ==> forall|v: u16| #[trigger] gamma::gamma_to_linear_ok(tables, v, bit_depth, transfer_type),
        gamma::saturating_curve(transfer_type) ==> forall|l: u32| 65535 <= l ==> {
            &&& gamma::linear_to_gamma_ok(tables, l, bit_depth, transfer_type)
            &&& #[trigger] gamma::linear_to_gamma_spec(tables, l, bit_depth, transfer_type) == arith::depth_max(bit_depth)
        },
{
    reveal(gamma::gamma_to_linear_ok);
    reveal(gamma::gamma_to_linear_spec);
    reveal(gamma::linear_to_gamma_ok);
    reveal(gamma::linear_to_gamma_spec);
    arith::lemma_depth_max(bit_depth);
    arith::lemma_clip_bit_depth_bound(0i32, bit_depth);
    let lin = tables.lut_linear();
    let gam = tables.lut_gamma();
    let m = arith::depth_max(bit_depth);
    assert((m as u16) as int == m);
    if gamma::full_scale_curve(transfer_type) {
        assert(lin[m as int] == 65535);
    }
    if gamma::saturating_curve(transfer_type) {
        assert forall|v: u16| #[trigger] gamma::gamma_to_linear_ok(tables, v, bit_depth, transfer_type) by {
            assert(lin[v as int] <= 65535);
        }
        assert forall|l: u32| 65535 <= l implies {
            &&& gamma::linear_to_gamma_ok(tables, l, bit_depth, transfer_type)
            &&& #[trigger] gamma::linear_to_gamma_spec(tables, l, bit_depth, transfer_type) == arith::depth_max(bit_depth)
        } by {
            if (l as int) < gam.len() {
                assert(gam[l as int] == gam[65535]);
            } else {
                assert(gam[gam.len() - 1] == gam[65535]);
            }
        }
    }
}

/// The chroma differences stored by `UpdateChroma` carry no luminance: their gray level is 0
/// (when the downsampled R, G, B are below 2^15, so that the differences fit in 16 bits).
pub proof fn law_chroma_residuals_carry_no_luma(
    tables: &SharpYuvTransferTables,
    src1: Seq<u16>,
    src2: Seq<u16>,
    uv_w: i32,
    i: int,
    bit_depth: i32,
    transfer_type: SharpYuvTransferFunctionType,
)
    requires
        forall|k: int| 0 <= k < 3 ==> #[trigger] rows::chroma_rgb(tables, src1, src2, uv_w, k, i, bit_depth, transfer_type) < 32768,
    ensures
        arith::rgb_to_gray_spec(
            rows::chroma_value(tables, src1, src2, uv_w, 0, i, bit_depth, transfer_type) as i64,
            rows::chroma_value(tables, src1, src2, uv_w, 1, i, bit_depth, transfer_type) as i64,
            rows::chroma_value(tables, src1, src2, uv_w, 2, i, bit_depth, transfer_type) as i64,
        ) == 0,
{
    let r = rows::chroma_rgb(tables, src1, src2, uv_w, 0, i, bit_depth, transfer_type);
    let g = rows::chroma_rgb(tables, src1, src2, uv_w, 1, i, bit_depth, transfer_type);
    let b = rows::chroma_rgb(tables, src1, src2, uv_w, 2, i, bit_depth, transfer_type);
    assert(r < 32768 && g < 32768 && b < 32768);
    assert(0 <= r && 0 <= g && 0 <= b);
    arith::lemma_rgb_to_gray(r as i64, g as i64, b as i64);
    let w = arith::rgb_to_gray_spec(r as i64, g as i64, b as i64);
    let sum = arith::gray_sum(r as int, g as int, b as int);
    assert(w as int == sum / 65536);
    assert(0 <= w <= 32767) by {
        assert((32767int + 0) >= w);
    }
    let dr = rows::chroma_value(tables, src1, src2, uv_w, 0, i, bit_depth, transfer_type);
    let dg = rows::chroma_value(tables, src1, src2, uv_w, 1, i, bit_depth, transfer_type);
    let db = rows::chroma_value(tables, src1, src2, uv_w, 2, i, bit_depth, transfer_type);
    assert(dr == r - w && dg == g - w && db == b - w);
    let rest = arith::gray_sum(dr as int, dg as int, db as int);
    assert(rest == sum - 65536 * w);
    assert(0 <= sum - 65536 * (sum / 65536) < 65536) by (nonlinear_arith)
        requires 0 <= sum;
    let x: i64 = rest as i64;
    assert(x == rest);
    arith::lemma_shr16(x);
}

/// A block of gray pixels (equal R, G and B in both rows) gives zero chroma differences.
pub proof fn law_gray_block_zero_chroma(
    tables: &SharpYuvTransferTables,
    src1: Seq<u16>,
    src2: Seq<u16>,
    uv_w: i32,
    i: int,
    bit_depth: i32,
    transfer_type: SharpYuvTransferFunctionType,
)
    requires
        forall|p: int| 2 * i <= p <= 2 * i + 1 ==> {
            &&& #[trigger] src1[p] == src1[2 * uv_w + p]
            &&& src1[p] == src1[4 * uv_w + p]
            &&& src2[p] == src2[2 * uv_w + p]
            &&& src2[p] == src2[4 * uv_w + p]
        },
    ensures
        rows::chroma_value(tables, src1, src2, uv_w, 0, i, bit_depth, transfer_type) == 0,
        rows::chroma_value(tables, src1, src2, uv_w, 1, i, bit_depth, transfer_type) == 0,
        rows::chroma_value(tables, src1, src2, uv_w, 2, i, bit_depth, transfer_type) == 0,
{
    assert(src1[2 * i] == src1[2 * uv_w + 2 * i]);
    assert(src1[2 * i + 1] == src1[2 * uv_w + 2 * i + 1]);
    let r = rows::chroma_rgb(tables, src1, src2, uv_w, 0, i, bit_depth, transfer_type);
    assert(rows::chroma_rgb(tables, src1, src2, uv_w, 1, i, bit_depth, transfer_type) == r);
    assert(rows::chroma_rgb(tables, src1, src2, uv_w, 2, i, bit_depth, transfer_type) == r);
    assert(0 <= r <= 65535);
    law_gray_of_gray(r as i64);
}

/// Averaging four equal gamma values in linear light gives their linear value.
pub proof fn law_linear_average_of_equal(
    tables: &SharpYuvTransferTables,
    v: u16,
    bit_depth: i32,
    transfer_type: SharpYuvTransferFunctionType,
)
    requires
        gamma::gamma_to_linear_spec(tables, v, bit_depth, transfer_type) <= 0x2_0000,
    ensures
        rows::linear_average(tables, v, v, v, v, bit_depth, transfer_type)
            == gamma::gamma_to_linear_spec(tables, v, bit_depth, transfer_type),
{
    let l: u32 = gamma::gamma_to_linear_spec(tables, v, bit_depth, transfer_type);
    let t: u32 = (4 * l + 2) as u32;
    assert(t >> 2u32 == l) by (bit_vector)
        requires l <= 0x2_0000u32, t == 4 * l + 2;
}

/// Storing rows into a plane changes only the bytes of the rows: every other byte, such as
/// the padding between rows when the stride exceeds the row, keeps its value.
pub proof fn law_store_rows_outside_unchanged(
    buf: Seq<u8>,
    rows: int,
    stride: int,
    vals: spec_fn(int) -> Seq<u16>,
    wide: bool,
    p: int,
)
    requires
        0 <= p < buf.len(),
        forall|r: int| 0 <= r < rows ==> !(r * stride <= p < r * stride + #[trigger] convert::row_bytes(vals(r).len() as int, wide)),
    ensures
        convert::store_rows(buf, rows, stride, vals, wide).len() == buf.len(),
        convert::store_rows(buf, rows, stride, vals, wide)[p] == buf[p],
    decreases rows,
{
    if rows > 0 {
        law_store_rows_outside_unchanged(buf, rows - 1, stride, vals, wide, p);
        assert(!((rows - 1) * stride <= p < (rows - 1) * stride + convert::row_bytes(vals(rows - 1).len() as int, wide)));
    }
}

/// The working depth of a sample (its depth plus the precision shift) never exceeds
/// `kMaxBitDepth`, and the precision shift is between -2 and 2 bits.
pub proof fn law_precision_within_bounds(rgb_bit_depth: i32)
    requires
        0 <= rgb_bit_depth <= 16,
    ensures
        rgb_bit_depth + arith::precision_shift(rgb_bit_depth) <= arith::kMaxBitDepth,
        -2 <= arith::precision_shift(rgb_bit_depth) <= 2,
{
}

/// The bytes of the samples of column `x` of row `row` are the same in the two inputs.
pub open spec fn sample_bytes_agree(inp1: RgbInput, inp2: RgbInput, row: int, x: int) -> bool {
    let base = row * inp1.stride;
    let off = rows::sample_offset(x, rows::import_step(inp1.step, inp1.bit_depth));
    if inp1.bit_depth == 8 {
        &&& inp1.r[base + off] == inp2.r[base + off]
        &&& inp1.g[base + off] == inp2.g[base + off]
        &&& inp1.b[base + off] == inp2.b[base + off]
    } else {
        &&& inp1.r[base + 2 * off] == inp2.r[base + 2 * off]
        &&& inp1.g[base + 2 * off] == inp2.g[base + 2 * off]
        &&& inp1.b[base + 2 * off] == inp2.b[base + 2 * off]
        &&& inp1.r[base + 2 * off + 1] == inp2.r[base + 2 * off + 1]
        &&& inp1.g[base + 2 * off + 1] == inp2.g[base + 2 * off + 1]
        &&& inp1.b[base + 2 * off + 1] == inp2.b[base + 2 * off + 1]
    }
}

/// Two inputs with the same layout whose planes agree on every sample of the picture (they
/// may differ anywhere else: row padding, bytes between samples, bytes past the picture).
pub open spec fn same_picture(inp1: RgbInput, inp2: RgbInput) -> bool {
    &&& inp1.step == inp2.step
    &&& inp1.stride == inp2.stride
    &&& inp1.bit_depth == inp2.bit_depth
    &&& inp1.width == inp2.width
    &&& inp1.height == inp2.height
    &&& forall|row: int, x: int| 0 <= row < inp1.height && 0 <= x < inp1.width
        ==> #[trigger] sample_bytes_agree(inp1, inp2, row, x)
}

proof fn lemma_same_imported(bytes1: Seq<u8>, bytes2: Seq<u8>, full1: Seq<u8>, full2: Seq<u8>, base: int, x: int, step: i32, bit_depth: i32)
    requires
        0 <= base <= full1.len(),
        0 <= base <= full2.len(),
        bytes1 == full1.subrange(base, full1.len() as int),
        bytes2 == full2.subrange(base, full2.len() as int),
        rows::sample_ok(bytes1, rows::sample_offset(x, rows::import_step(step, bit_depth)), bit_depth),
        rows::sample_ok(bytes2, rows::sample_offset(x, rows::import_step(step, bit_depth)), bit_depth),
        ({
            let off = rows::sample_offset(x, rows::import_step(step, bit_depth));
            if bit_depth == 8 {
                full1[base + off] == full2[base + off]
            } else {
                full1[base + 2 * off] == full2[base + 2 * off] && full1[base + 2 * off + 1] == full2[base + 2 * off + 1]
            }
        }),
    ensures
        rows::imported(bytes1, x, step, bit_depth) == rows::imported(bytes2, x, step, bit_depth),
{
    let off = rows::sample_offset(x, rows::import_step(step, bit_depth));
    if bit_depth == 8 {
        assert(bytes1[off as int] == full1[base + off]);
        assert(bytes2[off as int] == full2[base + off]);
    } else {
        assert(bytes1[2 * off] == full1[base + 2 * off]);
        assert(bytes2[2 * off] == full2[base + 2 * off]);
        assert(bytes1[2 * off + 1] == full1[base + 2 * off + 1]);
        assert(bytes2[2 * off + 1] == full2[base + 2 * off + 1]);
    }
}

proof fn lemma_same_row(tables: &SharpYuvTransferTables, transfer_type: SharpYuvTransferFunctionType, inp1: RgbInput, inp2: RgbInput, row: int)
    requires
        inp1.valid(tables, transfer_type),
        inp2.valid(tables, transfer_type),
        same_picture(inp1, inp2),
        0 <= row < inp1.height,
    ensures
        inp1.row(row) == inp2.row(row),
{
    let base = row * inp1.stride;
    assert(inp1.h() == 2 * inp1.uv_h());
    assert(inp1.height <= inp1.h());
    assert(0 <= base <= 2 * inp1.uv_h() * inp1.stride) by (nonlinear_arith)
        requires 0 <= row < inp1.height, inp1.height <= 2 * inp1.uv_h(), 0 <= inp1.stride, base == row * inp1.stride;
    assert(inp1.row_readable(row));
    assert(inp2.row_readable(row));
    let r1 = inp1.r.subrange(base, inp1.r.len() as int);
    let g1 = inp1.g.subrange(base, inp1.g.len() as int);
    let b1 = inp1.b.subrange(base, inp1.b.len() as int);
    let r2 = inp2.r.subrange(base, inp2.r.len() as int);
    let g2 = inp2.g.subrange(base, inp2.g.len() as int);
    let b2 = inp2.b.subrange(base, inp2.b.len() as int);
    let step = inp1.step;
    let bd = inp1.bit_depth;
    let width = inp1.width;
    let v1 = rows::import_values(r1, g1, b1, step, bd, width);
    let v2 = rows::import_values(r2, g2, b2, step, bd, width);
    assert forall|x: int| 0 <= x < width implies {
        &&& #[trigger] rows::imported(r1, x, step, bd) == rows::imported(r2, x, step, bd)
        &&& rows::imported(g1, x, step, bd) == rows::imported(g2, x, step, bd)
        &&& rows::imported(b1, x, step, bd) == rows::imported(b2, x, step, bd)
    } by {
        assert(sample_bytes_agree(inp1, inp2, row, x));
        let off = rows::sample_offset(x, rows::import_step(step, bd));
        assert(x < rows::n_of(width));
        assert(rows::sample_ok(r1, off, bd) && rows::sample_ok(g1, off, bd) && rows::sample_ok(b1, off, bd));
        assert(rows::sample_ok(r2, off, bd) && rows::sample_ok(g2, off, bd) && rows::sample_ok(b2, off, bd));
        lemma_same_imported(r1, r2, inp1.r, inp2.r, base, x, step, bd);
        lemma_same_imported(g1, g2, inp1.g, inp2.g, base, x, step, bd);
        lemma_same_imported(b1, b2, inp1.b, inp2.b, base, x, step, bd);
    }
    let w = rows::even_up(width);
    assert forall|p: int| 0 <= p < v1.len() implies v1[p] == v2[p] by {
        let q = if p < w { p } else if p < 2 * w { p - w } else { p - 2 * w };
        let c = if q < width { q } else { width - 1 };
        assert(rows::imported(r1, c, step, bd) == rows::imported(r2, c, step, bd));
    }
    assert(v1 =~= v2);
}

proof fn lemma_same_targets(tables: &SharpYuvTransferTables, transfer_type: SharpYuvTransferFunctionType, inp1: RgbInput, inp2: RgbInput)
    requires
        inp1.valid(tables, transfer_type),
        inp2.valid(tables, transfer_type),
        same_picture(inp1, inp2),
    ensures
        sharp::initial_y(inp1) == sharp::initial_y(inp2),
        sharp::target_y(tables, inp1, transfer_type) == sharp::target_y(tables, inp2, transfer_type),
        sharp::target_uv(tables, inp1, transfer_type) == sharp::target_uv(tables, inp2, transfer_type),
{
    assert forall|k: int| 0 <= k < inp1.uv_h() implies #[trigger] inp1.row(2 * k) == inp2.row(2 * k)
        && inp1.lower_row(k) == inp2.lower_row(k) by {
        lemma_same_row(tables, transfer_type, inp1, inp2, 2 * k);
        if 2 * k != inp1.height - 1 {
            lemma_same_row(tables, transfer_type, inp1, inp2, 2 * k + 1);
        }
    }
    assert(sharp::initial_y(inp1) =~= sharp::initial_y(inp2));
    assert(sharp::target_y(tables, inp1, transfer_type) =~= sharp::target_y(tables, inp2, transfer_type));
    assert(sharp::target_uv(tables, inp1, transfer_type) =~= sharp::target_uv(tables, inp2, transfer_type));
}

proof fn lemma_same_pass(
    tables: &SharpYuvTransferTables,
    transfer_type: SharpYuvTransferFunctionType,
    inp1: RgbInput,
    inp2: RgbInput,
    by: Seq<Seq<u16>>,
    buv: Seq<Seq<i16>>,
    k: int,
)
    requires
        inp1.valid(tables, transfer_type),
        inp2.valid(tables, transfer_type),
        same_picture(inp1, inp2),
    ensures
        sharp::pass(tables, inp1, transfer_type, by, buv, k) == sharp::pass(tables, inp2, transfer_type, by, buv, k),
    decreases k,
{
    if k > 0 {
        lemma_same_pass(tables, transfer_type, inp1, inp2, by, buv, k - 1);
        lemma_same_targets(tables, transfer_type, inp1, inp2);
        let st = sharp::pass(tables, inp1, transfer_type, by, buv, k - 1);
        assert(sharp::pass_step(tables, inp1, transfer_type, st, k - 1) == sharp::pass_step(tables, inp2, transfer_type, st, k - 1));
    }
}

proof fn lemma_same_iterate(
    tables: &SharpYuvTransferTables,
    transfer_type: SharpYuvTransferFunctionType,
    inp1: RgbInput,
    inp2: RgbInput,
    by: Seq<Seq<u16>>,
    buv: Seq<Seq<i16>>,
    iter: int,
    prev_diff: u64,
)
    requires
        inp1.valid(tables, transfer_type),
        inp2.valid(tables, transfer_type),
        same_picture(inp1, inp2),
    ensures
        sharp::iterate(tables, inp1, transfer_type, by, buv, iter, prev_diff)
            == sharp::iterate(tables, inp2, transfer_type, by, buv, iter, prev_diff),
    decreases 4 - iter,
{
    if iter < 4 {
        lemma_same_pass(tables, transfer_type, inp1, inp2, by, buv, inp1.uv_h());
        let (by2, buv2, d) = sharp::pass(tables, inp1, transfer_type, by, buv, inp1.uv_h());
        lemma_same_iterate(tables, transfer_type, inp1, inp2, by2, buv2, iter + 1, d);
    }
}

/// The samples outside the picture (row padding, bytes between samples, bytes past the last
/// row) never influence the conversion: two inputs that agree on the samples of the picture
/// give the same result, and so `DoSharpArgbToYuv` writes the same planes for both.
pub proof fn law_outside_samples_ignored(
    tables: &SharpYuvTransferTables,
    transfer_type: SharpYuvTransferFunctionType,
    inp1: RgbInput,
    inp2: RgbInput,
    y: Seq<u8>,
    y_stride: i32,
    u: Seq<u8>,
    u_stride: i32,
    v: Seq<u8>,
    v_stride: i32,
    yuv_bit_depth: i32,
    m: SharpYuvConversionMatrix,
)
    requires
        inp1.valid(tables, transfer_type),
        inp2.valid(tables, transfer_type),
        same_picture(inp1, inp2),
    ensures
        sharp::sharp_result(tables, inp1, transfer_type) == sharp::sharp_result(tables, inp2, transfer_type),
        sharp::sharp_planes(tables, inp1, transfer_type, y, y_stride, u, u_stride, v, v_stride, yuv_bit_depth, m)
            == sharp::sharp_planes(tables, inp2, transfer_type, y, y_stride, u, u_stride, v, v_stride, yuv_bit_depth, m),
{
    lemma_same_targets(tables, transfer_type, inp1, inp2);
    lemma_same_iterate(
        tables,
        transfer_type,
        inp1,
        inp2,
        sharp::initial_y(inp1),
        sharp::target_uv(tables, inp1, transfer_type),
        0,
        u64::MAX,
    );
}

/// `SharpYuvConvertWithOptions` on accepted parameters is `DoSharpArgbToYuv` run with the
/// first matrix rescaled to the two depths (`scaled_matrix`): it returns 1 and writes the
/// planes of that conversion; on refused parameters it returns 0 and writes nothing.
pub proof fn law_options_call_is_sharp_conversion(
    tables: &SharpYuvTransferTables,
    inp: RgbInput,
    yuv_matrix: Seq<SharpYuvConversionMatrix>,
    transfer_type: SharpYuvTransferFunctionType,
    y: Seq<u8>,
    y_stride: i32,
    u: Seq<u8>,
    u_stride: i32,
    v: Seq<u8>,
    v_stride: i32,
    yuv_bit_depth: i32,
)
    ensures
        ({
            let ok = api::params_valid(inp.step, inp.stride, inp.bit_depth, y_stride, u_stride, v_stride, yuv_bit_depth, inp.width, inp.height);
            let (r, yp, up, vp) = api::options_result(tables, inp, yuv_matrix, transfer_type, y, y_stride, u, u_stride, v, v_stride, yuv_bit_depth);
            let m = api::scaled_matrix(yuv_matrix[0], inp.bit_depth, yuv_bit_depth);
            &&& ok ==> r == 1 && (yp, up, vp) == sharp::sharp_planes(tables, inp, transfer_type, y, y_stride, u, u_stride, v, v_stride, yuv_bit_depth, m)
            &&& !ok ==> r == 0 && yp == y && up == u && vp == v
        }),
{
}

/// `SharpYuvConvert` is `SharpYuvConvertWithOptions` with the same matrices and the sRGB
/// transfer function: same result, same planes; so it returns 0 and writes nothing exactly
/// on the parameters that the options call refuses.
pub proof fn law_convert_is_options_with_srgb(
    tables: &SharpYuvTransferTables,
    inp: RgbInput,
    yuv_matrix: Seq<SharpYuvConversionMatrix>,
    y: Seq<u8>,
    y_stride: i32,
    u: Seq<u8>,
    u_stride: i32,
    v: Seq<u8>,
    v_stride: i32,
    yuv_bit_depth: i32,
)
    ensures
        api::convert_result(tables, inp, yuv_matrix, y, y_stride, u, u_stride, v, v_stride, yuv_bit_depth)
            == api::options_result(
            tables,
            inp,
            yuv_matrix,
            SharpYuvTransferFunctionType::kSharpYuvTransferFunctionSrgb,
            y,
            y_stride,
            u,
            u_stride,
            v,
            v_stride,
            yuv_bit_depth,
        ),
{
}

} // verus!
