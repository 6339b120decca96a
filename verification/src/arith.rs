//! Fixed-point helpers: clamping, shifts and the colour-space dot products.
use vstd::prelude::*;
use vstd::wrapping::i32_specs;
use vstd::arithmetic::power2::pow2;

verus! {

/// Largest bit depth handled by the intermediate (fixed_y_t) representation.
pub const kMaxBitDepth: i32 = 14i32;

/// Maximal number of refinement passes of the sharp conversion.
pub const kNumIterations: i32 = 4i32;

/// One half in 16.16 fixed point.
pub const kYuvHalf: i32 = 32768i32;

/// `2^bit_depth - 1`, computed with the wrapping 32-bit shift and subtraction used by the code.
pub open spec fn depth_max(bit_depth: i32) -> i32 {
    i32_specs::wrapping_sub(i32_specs::wrapping_shl(1i32, bit_depth as u32), 1i32)
}

/// Clamping of a signed value to `[0, max]` (`max` is taken as a `u16` when it is returned).
pub open spec fn clip_spec(v: int, max: i32) -> u16 {
    if v < 0 {
        0u16
    } else if v > max {
        max as u16
    } else {
        v as u16
    }
}

/// Clamping of `v` to the 8-bit range `[0, 255]`.
pub open spec fn clip_8b_spec(v: int) -> u8 {
    if v < 0 {
        0u8
    } else if v > 255 {
        255u8
    } else {
        v as u8
    }
}

/// Clamping to the range of `bit_depth` bits, by the bit test on `!max` that the code performs.
pub open spec fn clip_bit_depth_spec(y: i32, bit_depth: i32) -> u16 {
    let max = depth_max(bit_depth);
    if y & !max == 0 {
        y as u16
    } else if y < 0 {
        0u16
    } else {
        max as u16
    }
}

/// `v` shifted left by `shift` when `shift >= 0`, arithmetically right by `-shift` otherwise
/// (32-bit wrapping shifts: the amount is taken modulo 32).
pub open spec fn shift_spec(v: i32, shift: i32) -> i32 {
    if shift >= 0 {
        i32_specs::wrapping_shl(v, shift as u32)
    } else {
        i32_specs::wrapping_shr(v, (0 - shift) as u32)
    }
}

/// Extra precision bits given to a sample of `rgb_bit_depth` bits, so that the working
/// representation has at most `kMaxBitDepth` bits.
pub open spec fn precision_shift(rgb_bit_depth: i32) -> i32 {
    if rgb_bit_depth <= 12 || rgb_bit_depth >= i32::MAX - 1 {
        2
    } else {
        (14 - rgb_bit_depth) as i32
    }
}

/// Luma weights (BT.709, 16.16 fixed point): they add up to 65536.
pub open spec fn gray_sum(r: int, g: int, b: int) -> int {
    13933 * r + 46871 * g + 4732 * b + 32768
}

/// Gray level of an RGB triple: `gray_sum >> 16`, computed in 64-bit wrapping arithmetic.
pub open spec fn rgb_to_gray_spec(r: i64, g: i64, b: i64) -> i32 {
    (((gray_sum(r as int, g as int, b as int)) as i64) >> 16u32) as i32
}

/// One YUV component from 16.16 coefficients `c`: `(c0 r + c1 g + c2 b + c3 + 2^(15+sfix)) >> (16+sfix)`,
/// computed in 32-bit wrapping arithmetic.
pub open spec fn rgb_to_yuv_spec(r: i32, g: i32, b: i32, c: [i32; 4], sfix: i32) -> i32 {
    let rounder = i32_specs::wrapping_shl(1i32, ((15 + sfix) as i32) as u32);
    let luma = (c[0] * r + c[1] * g + c[2] * b + c[3] + rounder) as i32;
    i32_specs::wrapping_shr(luma, ((16 + sfix) as i32) as u32)
}

/// Two-tap interpolation `(3a + b + 2) >> 2` added to `w0`, clamped to `bit_depth` bits.
pub open spec fn filter2_spec(a: i32, b: i32, w0: i32, bit_depth: i32) -> u16 {
    let v0 = ((3 * a + b + 2) as i32) >> 2u32;
    clip_bit_depth_spec((v0 + w0) as i32, bit_depth)
}

pub proof fn lemma_depth_max(bit_depth: i32)
    requires
        0 <= bit_depth <= 30,
    ensures
        depth_max(bit_depth) >= 0,
        depth_max(bit_depth) == (1i32 << (bit_depth as u32)) - 1,
        forall|y: i32| #![trigger (y & !depth_max(bit_depth))]
            (y & !depth_max(bit_depth) == 0) <==> (0 <= y <= depth_max(bit_depth)),
{
    let s = bit_depth as u32;
    let one_sh = 1i32 << s;
    assert(one_sh >= 1) by (bit_vector)
        requires s <= 30u32, one_sh == 1i32 << s;
    assert(i32_specs::wrapping_shl(1i32, s) == one_sh);
    let m = depth_max(bit_depth);
    assert(m == one_sh - 1);
    assert forall|y: i32| (y & !m == 0) <==> (0 <= y <= m) by {
        assert((y & !m == 0) <==> (0 <= y <= m)) by (bit_vector)
            requires s <= 30u32, one_sh == 1i32 << s, m == one_sh - 1;
    }
}

pub proof fn lemma_i32_product(a: i32, b: i32)
    ensures
        -0x4000_0000_0000_0000 <= (a as int) * (b as int) <= 0x4000_0000_0000_0000,
{
    assert(-0x4000_0000_0000_0000 <= (a as int) * (b as int) <= 0x4000_0000_0000_0000)
        by (nonlinear_arith)
        requires -0x8000_0000 <= a <= 0x7fff_ffff, -0x8000_0000 <= b <= 0x7fff_ffff;
}

/// For inputs of at most 20 bits the gray level is `gray_sum / 65536`; for inputs in
/// `[0, m]` it lies in `[0, m]`.
pub proof fn lemma_rgb_to_gray(r: i64, g: i64, b: i64)
    requires
        0 <= r <= 0x100000,
        0 <= g <= 0x100000,
        0 <= b <= 0x100000,
    ensures
        rgb_to_gray_spec(r, g, b) as int == gray_sum(r as int, g as int, b as int) / 65536,
        0 <= rgb_to_gray_spec(r, g, b),
        forall|m: int| r <= m && g <= m && b <= m ==> #[trigger] (m + 0) >= rgb_to_gray_spec(r, g, b),
{
    let sum = gray_sum(r as int, g as int, b as int);
    let l64: i64 = sum as i64;
    assert(0 <= sum <= 0x1000008000);
    assert(l64 == sum);
    lemma_shr16(l64);
    assert forall|m: int| r <= m && g <= m && b <= m implies #[trigger] (m + 0) >= rgb_to_gray_spec(r, g, b) by {
        assert(sum <= 65536 * m + 32768);
        assert(sum / 65536 <= m) by (nonlinear_arith)
            requires sum <= 65536 * m + 32768, 0 <= sum;
    }
}

/// Clamping to the range of `bit_depth` bits never exceeds `2^bit_depth - 1`.
pub proof fn lemma_clip_bit_depth_bound(y: i32, bit_depth: i32)
    requires
        0 <= bit_depth <= 16,
    ensures
        clip_bit_depth_spec(y, bit_depth) <= depth_max(bit_depth),
        depth_max(bit_depth) <= 65535,
{
    lemma_depth_max(bit_depth);
    let s = bit_depth as u32;
    let m = depth_max(bit_depth);
    assert(m <= 65535) by (bit_vector)
        requires s <= 16u32, m == (1i32 << s) - 1;
}

/// Clamps `v` to `[0, max]`.
pub fn clip(v: i32, max: i32) -> (r: u16)
    ensures
        r == clip_spec(v as int, max),
        0 <= max <= u16::MAX ==> r <= max,
{
    if v < 0 {
        0u16
    } else if v > max {
        max as u16
    } else {
        v as u16
    }
}

/// Clamps `v` to `[0, 255]`.
pub fn clip_8b(v: i16) -> (r: u8)
    ensures
        r == clip_8b_spec(v as int),
{
    let x: i32 = v as i32;
    let m: i32 = !255i32;
    assert((x & m == 0) <==> (0 <= x <= 255)) by (bit_vector)
        requires m == !255i32;
    if x & m == 0 {
        v as u8
    } else if x < 0 {
        0u8
    } else {
        255u8
    }
}

/// Clamps `y` to the range of `bit_depth` bits.
pub fn clip_bit_depth(y: i32, bit_depth: i32) -> (r: u16)
    ensures
        r == clip_bit_depth_spec(y, bit_depth),
        0 <= bit_depth <= 16 ==> r == clip_spec(y as int, depth_max(bit_depth)),
{
    let max: i32 = 1i32.wrapping_shl(bit_depth as u32).wrapping_sub(1i32);
    proof {
        if 0 <= bit_depth <= 16 {
            lemma_depth_max(bit_depth);
            let s = bit_depth as u32;
            let one_sh = 1i32 << s;
            assert(one_sh <= 65536) by (bit_vector)
                requires s <= 16u32, one_sh == 1i32 << s;
            assert(i32_specs::wrapping_shl(1i32, s) == one_sh);
        }
    }
    if y & !max == 0 {
        y as u16
    } else if y < 0 {
        0u16
    } else {
        max as u16
    }
}

/// Shifts `v` left by `shift` bits, or right by `-shift` bits when `shift` is negative.
pub fn Shift(v: i32, shift: i32) -> (r: i32)
    ensures
        r == shift_spec(v, shift),
{
    if shift >= 0 {
        v.wrapping_shl(shift as u32)
    } else {
        let amount: u32 = (0i64 - shift as i64) as u32;
        v.wrapping_shr(amount)
    }
}

/// Number of extra precision bits for samples of `rgb_bit_depth` bits.
pub fn GetPrecisionShift(rgb_bit_depth: i32) -> (r: i32)
    ensures
        r == precision_shift(rgb_bit_depth),
{
    if rgb_bit_depth.wrapping_add(2i32) <= kMaxBitDepth {
        2i32
    } else {
        kMaxBitDepth.wrapping_sub(rgb_bit_depth)
    }
}

/// Gray level (BT.709 luma) of an RGB triple.
pub fn RGBToGray(r: i64, g: i64, b: i64) -> (res: i32)
    ensures
        res == rgb_to_gray_spec(r, g, b),
        0 <= r <= 0x100000 && 0 <= g <= 0x100000 && 0 <= b <= 0x100000 ==> res as int
            == gray_sum(r as int, g as int, b as int) / 65536,
{
    let luma: i128 = 13933i128 * (r as i128) + 46871i128 * (g as i128) + 4732i128 * (b as i128)
        + (kYuvHalf as i128);
    let l64: i64 = luma as i64;
    let res: i32 = (l64 >> 16u32) as i32;
    proof {
        if 0 <= r <= 0x100000 && 0 <= g <= 0x100000 && 0 <= b <= 0x100000 {
            assert(0 <= luma <= 0x1000008000);
            assert(l64 == luma);
            lemma_shr16(l64);
        }
    }
    res
}

/// A shift right by 16 of a non-negative value of at most 36 bits is a division by 65536.
pub proof fn lemma_shr16(x: i64)
    by (bit_vector)
    requires
        0 <= x <= 0x1000008000i64,
    ensures
        x >> 16u32 == x / 65536,
{
}

/// Shifts by zero bits leave a value unchanged.
pub proof fn lemma_shift_by_zero(x: i32, y: u32)
    by (bit_vector)
    ensures
        x << 0u32 == x,
        x >> 0u32 == x,
        y << 0u32 == y,
        y >> 0u32 == y,
{
}

/// Shifts of zero give zero.
pub proof fn lemma_shift_of_zero(s: u32)
    by (bit_vector)
    ensures
        0i32 << s == 0i32,
        0i32 >> s == 0i32,
        0u32 << s == 0u32,
{
}

/// A shift right keeps the order of unsigned values.
pub proof fn lemma_shr_monotone(a: u32, b: u32, s: u32)
    by (bit_vector)
    requires
        a <= b,
    ensures
        a >> s <= b >> s,
{
}

/// Plain meaning of `Shift` on a non-negative value: a multiplication by `2^shift` when the
/// product fits in 32 bits, a division by `2^-shift` rounded down otherwise.
pub proof fn lemma_shift_plain(v: i32, shift: i32)
    requires
        0 <= v,
        -31 <= shift <= 30,
    ensures
        shift >= 0 && v * pow2(shift as nat) <= i32::MAX ==> shift_spec(v, shift) == v * pow2(shift as nat),
        shift < 0 ==> shift_spec(v, shift) == (v as int) / (pow2((0 - shift) as nat) as int),
{
    let vu: u32 = v as u32;
    if shift >= 0 {
        let s: u32 = shift as u32;
        assert(s % 32 == s);
        if v * pow2(s as nat) <= i32::MAX {
            vstd::bits::lemma_u32_shl_is_mul(vu, s);
            let up: u32 = vu << s;
            assert(up <= 0x7fff_ffff);
            let sh: i32 = v << s;
            assert(sh == up as i32 && sh >= 0) by (bit_vector)
                requires vu == v as u32, 0 <= v, up == vu << s, up <= 0x7fff_ffffu32, sh == v << s, s < 32u32;
        }
    } else {
        let k: u32 = (0 - shift) as u32;
        assert(k % 32 == k);
        vstd::bits::lemma_u32_shr_is_div(vu, k);
        let sh: i32 = v >> k;
        let down: u32 = vu >> k;
        assert(sh == down as i32 && sh >= 0) by (bit_vector)
            requires vu == v as u32, 0 <= v, sh == v >> k, down == vu >> k, k < 32u32;
    }
}

/// Plain meaning of a YUV component when the sum fits in 32 bits and is not negative: the dot
/// product of the coefficients with `(r, g, b, 1)`, divided by `2^(16 + sfix)` rounding half up.
pub proof fn lemma_rgb_to_yuv_plain(r: i32, g: i32, b: i32, c: [i32; 4], sfix: i32)
    requires
        -2 <= sfix <= 2,
        0 <= c[0] * r + c[1] * g + c[2] * b + c[3] + pow2((15 + sfix) as nat) <= i32::MAX,
    ensures
        rgb_to_yuv_spec(r, g, b, c, sfix) == (c[0] * r + c[1] * g + c[2] * b + c[3] + pow2((15 + sfix) as nat))
            / (pow2((16 + sfix) as nat) as int),
{
    let k1: u32 = (15 + sfix) as u32;
    let k2: u32 = (16 + sfix) as u32;
    assert(((15 + sfix) as i32) as u32 == k1 && k1 % 32 == k1);
    assert(((16 + sfix) as i32) as u32 == k2 && k2 % 32 == k2);
    vstd::bits::lemma_u32_pow2_no_overflow(k1 as nat);
    vstd::bits::lemma_u32_shl_is_mul(1u32, k1);
    let one_u: u32 = 1u32 << k1;
    let one_i: i32 = 1i32 << k1;
    assert(one_i as int == one_u as int) by (bit_vector)
        requires one_u == 1u32 << k1, one_i == 1i32 << k1, 13u32 <= k1 <= 17u32;
    assert(i32_specs::wrapping_shl(1i32, k1) == one_i);
    let sum = c[0] * r + c[1] * g + c[2] * b + c[3] + pow2(k1 as nat);
    let luma: i32 = sum as i32;
    assert(luma == sum);
    let lu: u32 = luma as u32;
    vstd::bits::lemma_u32_shr_is_div(lu, k2);
    let sh: i32 = luma >> k2;
    let down: u32 = lu >> k2;
    assert(sh == down as i32) by (bit_vector)
        requires lu == luma as u32, 0 <= luma, sh == luma >> k2, down == lu >> k2, k2 < 32u32;
}

/// One YUV component of an RGB triple, with coefficients `coeffs` and `sfix` extra precision bits.
pub fn RGBToYUVComponent(r: i32, g: i32, b: i32, coeffs: [i32; 4], sfix: i32) -> (res: i32)
    ensures
        res == rgb_to_yuv_spec(r, g, b, coeffs, sfix),
{
    let rounder: i32 = 1i32.wrapping_shl(#[verifier::truncate] ((sfix as i64 + 15) as i32) as u32);
    proof {
        lemma_i32_product(coeffs[0], r);
        lemma_i32_product(coeffs[1], g);
        lemma_i32_product(coeffs[2], b);
    }
    let luma: i128 = (coeffs[0] as i128) * (r as i128) + (coeffs[1] as i128) * (g as i128)
        + (coeffs[2] as i128) * (b as i128) + (coeffs[3] as i128) + (rounder as i128);
    let l32: i32 = luma as i32;
    l32.wrapping_shr(#[verifier::truncate] ((sfix as i64 + 16) as i32) as u32)
}

/// Interpolates `(3a + b + 2) / 4`, adds it to `W0` and clamps to `bit_depth` bits.
pub fn Filter2(A: i32, B: i32, W0: i32, bit_depth: i32) -> (r: u16)
    ensures
        r == filter2_spec(A, B, W0, bit_depth),
{
    let s: i64 = 3 * (A as i64) + (B as i64) + 2;
    let v0: i32 = (s as i32) >> 2u32;
    clip_bit_depth(((v0 as i64) + (W0 as i64)) as i32, bit_depth)
}

} // verus!
