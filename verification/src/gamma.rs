//! Conversions between gamma-encoded and linear light values.
//!
//! The sRGB curve is evaluated by fixed-point interpolation in two tables; other curves
//! are read from lookup tables that the caller precomputes for the bit depth in use.
use vstd::prelude::*;
use vstd::wrapping::{i32_specs, u32_specs};
use crate::arith;
use crate::types::SharpYuvTransferFunctionType;

verus! {

/// Number of entries of the sRGB gamma -> linear table (2^10 + 2).
pub const kGammaToLinearTabSize: usize = 1026usize;

/// Number of entries of the sRGB linear -> gamma table (2^9 + 2).
pub const kLinearToGammaTabSize: usize = 514usize;

/// Number of entries of a linear -> gamma lookup table: one per linear value in
/// `[0, 2^17]` (some curves go above 1.0 in linear light).
pub const kLinearLutSize: usize = 131073usize;

/// Number of entries of a gamma -> linear lookup table: one per 16-bit gamma value, so that
/// every sample converts, including samples above the range of the bit depth.
pub const kGammaLutSize: usize = 65536usize;

/// A table of linear values in 16-bit precision: every entry is at most 65536 and the
/// entries never decrease.
pub open spec fn monotone_table(t: Seq<u32>) -> bool {
    &&& forall|i: int| 0 <= i < t.len() ==> #[trigger] t[i] <= 65536
    &&& forall|i: int, j: int| 0 <= i <= j < t.len() ==> #[trigger] t[i] <= #[trigger] t[j]
}

/// Fixed-point interpolation in `tab`, all in 32-bit wrapping arithmetic: position
/// `v >> shr`, fraction `x = v - (pos << shr)`, entries shifted by `vshift`, and
/// `v0 + (((v1 - v0) * x + half) >> shr)` with `half = 2^(shr - 1)` (0 when `shr <= 0`).
pub open spec fn fpi_pos(v: i32, shr: i32) -> u32 {
    arith::shift_spec(v, i32_specs::wrapping_sub(0i32, shr)) as u32
}

pub open spec fn fpi_ok(v: i32, tab: Seq<u32>, shr: i32) -> bool {
    &&& (fpi_pos(v, shr) as int) < tab.len()
    &&& (u32_specs::wrapping_add(fpi_pos(v, shr), 1u32) as int) < tab.len()
}

#[verifier::opaque]
pub open spec fn fpi_spec(v: i32, tab: Seq<u32>, shr: i32, vshift: i32) -> u32 {
    let pos = fpi_pos(v, shr);
    let x = u32_specs::wrapping_sub(v as u32, u32_specs::wrapping_shl(pos, shr as u32));
    let v0 = arith::shift_spec(tab[pos as int] as i32, vshift) as u32;
    let v1 = arith::shift_spec(tab[u32_specs::wrapping_add(pos, 1u32) as int] as i32, vshift) as u32;
    let v2 = u32_specs::wrapping_mul(u32_specs::wrapping_sub(v1, v0), x);
    let half: i32 = if shr > 0 {
        i32_specs::wrapping_shl(1i32, i32_specs::wrapping_sub(shr, 1i32) as u32)
    } else {
        0i32
    };
    u32_specs::wrapping_add(
        v0,
        u32_specs::wrapping_shr(u32_specs::wrapping_add(v2, half as u32), shr as u32),
    )
}

/// Interpolates `tab` at the fixed-point position `v` (`tab_pos_shift_right` fractional bits);
/// the table entries are scaled by `arith::Shift(_, tab_value_shift)`.
pub fn FixedPointInterpolation(v: i32, tab: &[u32], tab_pos_shift_right: i32, tab_value_shift: i32) -> (r: u32)
    requires
        fpi_ok(v, tab@, tab_pos_shift_right),
    ensures
        r == fpi_spec(v, tab@, tab_pos_shift_right, tab_value_shift),
{
    reveal(fpi_spec);
    let tab_pos: u32 = arith::Shift(v, 0i32.wrapping_sub(tab_pos_shift_right)) as u32;
    let x: u32 = (v as u32).wrapping_sub(tab_pos.wrapping_shl(tab_pos_shift_right as u32));
    let v0: u32 = arith::Shift(tab[tab_pos as usize] as i32, tab_value_shift) as u32;
    let v1: u32 = arith::Shift(tab[tab_pos.wrapping_add(1u32) as usize] as i32, tab_value_shift) as u32;
    let v2: u32 = v1.wrapping_sub(v0).wrapping_mul(x);
    let half: i32 = if tab_pos_shift_right > 0 {
        1i32.wrapping_shl(tab_pos_shift_right.wrapping_sub(1i32) as u32)
    } else {
        0i32
    };
    v0.wrapping_add(v2.wrapping_add(half as u32).wrapping_shr(tab_pos_shift_right as u32))
}


/// Transfer-function tables: the two sRGB interpolation tables, and lookup tables for one
/// other curve (`lut_curve`) at one working bit depth (`lut_bit_depth`).
pub struct SharpYuvTransferTables {
    gamma_to_linear: Vec<u32>,
    linear_to_gamma: Vec<u32>,
    curve: SharpYuvTransferFunctionType,
    curve_bit_depth: i32,
    curve_to_linear: Vec<u32>,
    curve_to_gamma: Vec<u16>,
}

impl SharpYuvTransferTables {
    /// sRGB gamma -> linear table, indexed by 10-bit gamma values.
    pub closed spec fn linear_table(&self) -> Seq<u32> {
        self.gamma_to_linear@
    }

    /// sRGB linear -> gamma table, indexed by 9-bit linear values.
    pub closed spec fn gamma_table(&self) -> Seq<u32> {
        self.linear_to_gamma@
    }

    /// The curve that the lookup tables hold.
    pub closed spec fn lut_curve(&self) -> SharpYuvTransferFunctionType {
        self.curve
    }

    /// The working bit depth of the gamma side of the lookup tables.
    pub closed spec fn lut_bit_depth(&self) -> i32 {
        self.curve_bit_depth
    }

    /// Gamma -> linear lookup table of `lut_curve`.
    pub closed spec fn lut_linear(&self) -> Seq<u32> {
        self.curve_to_linear@
    }

    /// Linear -> gamma lookup table of `lut_curve`.
    pub closed spec fn lut_gamma(&self) -> Seq<u16> {
        self.curve_to_gamma@
    }

    /// Well-formedness: the sRGB tables satisfy `srgb_tables_ok`, the lookup tables `luts_ok`.
    pub open spec fn wf(&self) -> bool {
        &&& srgb_tables_ok(self.linear_table(), self.gamma_table())
        &&& luts_ok(self.lut_curve(), self.lut_bit_depth(), self.lut_linear(), self.lut_gamma())
    }

    /// The tables can evaluate `transfer_type` on values of `bit_depth` bits.
    pub open spec fn supports(&self, transfer_type: SharpYuvTransferFunctionType, bit_depth: i32) -> bool {
        match transfer_type {
            SharpYuvTransferFunctionType::kSharpYuvTransferFunctionSrgb => true,
            SharpYuvTransferFunctionType::kSharpYuvTransferFunctionLinear => true,
            SharpYuvTransferFunctionType::kSharpYuvTransferFunctionNum => true,
            _ => {
                &&& self.lut_curve() == transfer_type
                &&& self.lut_bit_depth() == bit_depth
            },
        }
    }

    /// Whether the tables are well formed (see `wf`).
    pub fn is_well_formed(&self) -> (r: bool)
        ensures
            r == self.wf(),
    {
        if self.gamma_to_linear.len() != kGammaToLinearTabSize || self.linear_to_gamma.len() != kLinearToGammaTabSize {
            return false;
        }
        if !check_monotone(&self.gamma_to_linear) || !check_monotone(&self.linear_to_gamma) {
            return false;
        }
        if !check_ends(&self.gamma_to_linear, 1024) || !check_ends(&self.linear_to_gamma, 512) {
            return false;
        }
        check_luts(self.curve, self.curve_bit_depth, &self.curve_to_linear, &self.curve_to_gamma)
    }

    /// Whether the tables can evaluate `transfer_type` at `bit_depth` bits.
    pub fn supports_transfer(&self, transfer_type: SharpYuvTransferFunctionType, bit_depth: i32) -> (r: bool)
        ensures
            r == self.supports(transfer_type, bit_depth),
    {
        match transfer_type {
            SharpYuvTransferFunctionType::kSharpYuvTransferFunctionSrgb => true,
            SharpYuvTransferFunctionType::kSharpYuvTransferFunctionLinear => true,
            SharpYuvTransferFunctionType::kSharpYuvTransferFunctionNum => true,
            _ => {
                self.curve == transfer_type && self.curve_bit_depth == bit_depth
            },
        }
    }
}

/// Installs the transfer tables (computed by the caller in floating point): the sRGB
/// gamma -> linear and linear -> gamma tables, and the lookup tables of one more curve.
/// Checks their sizes, bounds, order and end points (see `wf`); `None` when a check fails.
pub fn SharpYuvInit(
    gamma_to_linear: Vec<u32>,
    linear_to_gamma: Vec<u32>,
    curve: SharpYuvTransferFunctionType,
    curve_bit_depth: i32,
    curve_to_linear: Vec<u32>,
    curve_to_gamma: Vec<u16>,
) -> (r: Option<SharpYuvTransferTables>)
    ensures
        r is Some <==> (srgb_tables_ok(gamma_to_linear@, linear_to_gamma@)
            && luts_ok(curve, curve_bit_depth, curve_to_linear@, curve_to_gamma@)),
        r matches Some(t) ==> {
            &&& t.wf()
            &&& t.linear_table() == gamma_to_linear@
            &&& t.gamma_table() == linear_to_gamma@
            &&& t.lut_curve() == curve
            &&& t.lut_bit_depth() == curve_bit_depth
            &&& t.lut_linear() == curve_to_linear@
            &&& t.lut_gamma() == curve_to_gamma@
        },
{
    let tables = SharpYuvTransferTables {
        gamma_to_linear,
        linear_to_gamma,
        curve,
        curve_bit_depth,
        curve_to_linear,
        curve_to_gamma,
    };
    assert(tables.linear_table() == gamma_to_linear@ && tables.gamma_table() == linear_to_gamma@);
    assert(tables.lut_linear() == curve_to_linear@ && tables.lut_gamma() == curve_to_gamma@);
    if tables.is_well_formed() {
        Some(tables)
    } else {
        None
    }
}

/// The sRGB tables: sizes, never decreasing, values of at most 65536, 0 at black, 65536 at
/// 1.0 and that last entry repeated.
pub open spec fn srgb_tables_ok(gamma_to_linear: Seq<u32>, linear_to_gamma: Seq<u32>) -> bool {
    &&& gamma_to_linear.len() == kGammaToLinearTabSize
    &&& linear_to_gamma.len() == kLinearToGammaTabSize
    &&& monotone_table(gamma_to_linear)
    &&& monotone_table(linear_to_gamma)
    &&& table_ends(gamma_to_linear, 1024)
    &&& table_ends(linear_to_gamma, 512)
}

/// Curves whose linear -> gamma conversion is constant from 1.0 in linear light on: their
/// lookup value at 65535 holds for every larger linear value.
pub open spec fn saturating_curve(t: SharpYuvTransferFunctionType) -> bool {
    ||| t is kSharpYuvTransferFunctionBt709
    ||| t is kSharpYuvTransferFunctionBt601
    ||| t is kSharpYuvTransferFunctionBt2020_10Bit
    ||| t is kSharpYuvTransferFunctionBt2020_12Bit
    ||| t is kSharpYuvTransferFunctionBt470M
    ||| t is kSharpYuvTransferFunctionBt470Bg
    ||| t is kSharpYuvTransferFunctionSmpte240
    ||| t is kSharpYuvTransferFunctionLog100
    ||| t is kSharpYuvTransferFunctionLog100_Sqrt10
    ||| t is kSharpYuvTransferFunctionBt1361
}

/// Curves that map the largest gamma value to full linear light (65535) and back.
pub open spec fn full_scale_curve(t: SharpYuvTransferFunctionType) -> bool {
    saturating_curve(t) || t is kSharpYuvTransferFunctionSmpte2084
}

/// Curves that map gamma 0 to linear 0 (the logarithmic curves start above 0).
pub open spec fn black_curve(t: SharpYuvTransferFunctionType) -> bool {
    !(t is kSharpYuvTransferFunctionLog100 || t is kSharpYuvTransferFunctionLog100_Sqrt10)
}

/// The lookup tables of a curve read from tables, at `bit_depth` bits: a linear value for
/// every 16-bit gamma value (at most 2^17 within the range of the bit depth), a gamma value
/// for every linear value up to 2^17; for the saturating curves, which clamp to 1.0 both ways,
/// linear values of at most 65535 and gamma values constant from 65535 on; and
/// the end points of the curve: gamma 0 is 0, linear 0 is 0 (but for the logarithmic curves),
/// and the largest gamma value is full linear light and back (for `full_scale_curve`).
pub open spec fn luts_ok(
    curve: SharpYuvTransferFunctionType,
    bit_depth: i32,
    lin: Seq<u32>,
    gam: Seq<u16>,
) -> bool {
    is_lut_curve(curve) ==> {
        &&& lin.len() == kGammaLutSize
        &&& gam.len() == kLinearLutSize
        &&& forall|i: int| 0 <= i < kGammaLutSize && i <= arith::depth_max(bit_depth) ==> #[trigger] lin[i] <= 0x2_0000
        &&& saturating_curve(curve) ==> forall|i: int| 0 <= i < kGammaLutSize ==> #[trigger] lin[i] <= 65535
        &&& saturating_curve(curve) ==> forall|i: int| 65535 <= i < kLinearLutSize ==> #[trigger] gam[i] == gam[65535]
        &&& 1 <= bit_depth <= 16 ==> {
            &&& gam[0] == 0
            &&& black_curve(curve) ==> lin[0] == 0
            &&& full_scale_curve(curve) ==> lin[arith::depth_max(bit_depth) as int] == 65535
                && gam[65535] == arith::depth_max(bit_depth)
        }
    }
}

fn lut_curve_exec(t: SharpYuvTransferFunctionType) -> (r: bool)
    ensures
        r == is_lut_curve(t),
{
    match t {
        SharpYuvTransferFunctionType::kSharpYuvTransferFunctionSrgb => false,
        SharpYuvTransferFunctionType::kSharpYuvTransferFunctionLinear => false,
        SharpYuvTransferFunctionType::kSharpYuvTransferFunctionNum => false,
        _ => true,
    }
}

fn saturating_exec(t: SharpYuvTransferFunctionType) -> (r: bool)
    ensures
        r == saturating_curve(t),
{
    match t {
        SharpYuvTransferFunctionType::kSharpYuvTransferFunctionBt709 => true,
        SharpYuvTransferFunctionType::kSharpYuvTransferFunctionBt601 => true,
        SharpYuvTransferFunctionType::kSharpYuvTransferFunctionBt2020_10Bit => true,
        SharpYuvTransferFunctionType::kSharpYuvTransferFunctionBt2020_12Bit => true,
        SharpYuvTransferFunctionType::kSharpYuvTransferFunctionBt470M => true,
        SharpYuvTransferFunctionType::kSharpYuvTransferFunctionBt470Bg => true,
        SharpYuvTransferFunctionType::kSharpYuvTransferFunctionSmpte240 => true,
        SharpYuvTransferFunctionType::kSharpYuvTransferFunctionLog100 => true,
        SharpYuvTransferFunctionType::kSharpYuvTransferFunctionLog100_Sqrt10 => true,
        SharpYuvTransferFunctionType::kSharpYuvTransferFunctionBt1361 => true,
        _ => false,
    }
}

/// Evaluates `luts_ok`.
fn check_luts(curve: SharpYuvTransferFunctionType, bit_depth: i32, lin: &Vec<u32>, gam: &Vec<u16>) -> (r: bool)
    ensures
        r == luts_ok(curve, bit_depth, lin@, gam@),
{
    if !lut_curve_exec(curve) {
        return true;
    }
    if lin.len() != kGammaLutSize || gam.len() != kLinearLutSize {
        return false;
    }
    let max: i32 = 1i32.wrapping_shl(bit_depth as u32).wrapping_sub(1i32);
    assert(max == arith::depth_max(bit_depth));
    let mut i: usize = 0;
    while i < kGammaLutSize
        invariant
            i <= kGammaLutSize,
            is_lut_curve(curve),
            lin@.len() == kGammaLutSize,
            gam@.len() == kLinearLutSize,
            max == arith::depth_max(bit_depth),
            forall|k: int| 0 <= k < i && k <= max ==> #[trigger] lin@[k] <= 0x2_0000,
        decreases kGammaLutSize - i,
    {
        if (i as i64) <= (max as i64) && lin[i] > 0x2_0000 {
            assert(!luts_ok(curve, bit_depth, lin@, gam@)) by {
                assert(0 <= i < kGammaLutSize && i <= arith::depth_max(bit_depth) && lin@[i as int] > 0x2_0000);
            }
            return false;
        }
        i = i + 1;
    }
    if saturating_exec(curve) {
        let mut j: usize = 0;
        while j < kGammaLutSize
            invariant
                j <= kGammaLutSize,
                is_lut_curve(curve),
                saturating_curve(curve),
                lin@.len() == kGammaLutSize,
                gam@.len() == kLinearLutSize,
                forall|q: int| 0 <= q < j ==> #[trigger] lin@[q] <= 65535,
            decreases kGammaLutSize - j,
        {
            if lin[j] > 65535 {
                assert(!luts_ok(curve, bit_depth, lin@, gam@)) by {
                    assert(0 <= j < kGammaLutSize && lin@[j as int] > 65535);
                }
                return false;
            }
            j = j + 1;
        }
        let mut k: usize = 65535;
        while k < kLinearLutSize
            invariant
                65535 <= k <= kLinearLutSize,
                is_lut_curve(curve),
                saturating_curve(curve),
                lin@.len() == kGammaLutSize,
                gam@.len() == kLinearLutSize,
                forall|j: int| 65535 <= j < k ==> #[trigger] gam@[j] == gam@[65535],
            decreases kLinearLutSize - k,
        {
            if gam[k] != gam[65535] {
                assert(!luts_ok(curve, bit_depth, lin@, gam@)) by {
                    assert(saturating_curve(curve) && 65535 <= k < kLinearLutSize && gam@[k as int] != gam@[65535]);
                }
                return false;
            }
            k = k + 1;
        }
    }
    if 1 <= bit_depth && bit_depth <= 16 {
        proof {
            arith::lemma_depth_max(bit_depth);
            arith::lemma_clip_bit_depth_bound(0i32, bit_depth);
        }
        if gam[0] != 0 {
            return false;
        }
        if black_curve_exec(curve) && lin[0] != 0 {
            return false;
        }
        if full_scale_exec(curve) && (lin[max as usize] != 65535 || gam[65535] as i32 != max) {
            return false;
        }
    }
    true
}

fn black_curve_exec(t: SharpYuvTransferFunctionType) -> (r: bool)
    ensures
        r == black_curve(t),
{
    match t {
        SharpYuvTransferFunctionType::kSharpYuvTransferFunctionLog100 => false,
        SharpYuvTransferFunctionType::kSharpYuvTransferFunctionLog100_Sqrt10 => false,
        _ => true,
    }
}

fn full_scale_exec(t: SharpYuvTransferFunctionType) -> (r: bool)
    ensures
        r == full_scale_curve(t),
{
    match t {
        SharpYuvTransferFunctionType::kSharpYuvTransferFunctionSmpte2084 => true,
        _ => saturating_exec(t),
    }
}

/// The end points of an sRGB table whose entry `top` stands for 1.0: 0 at 0, 65536 at `top`,
/// and entry `top` repeated once after it.
pub open spec fn table_ends(t: Seq<u32>, top: int) -> bool {
    &&& t.len() == top + 2
    &&& t[0] == 0
    &&& t[top] == 65536
    &&& t[top + 1] == t[top]
}

fn check_ends(t: &Vec<u32>, top: usize) -> (r: bool)
    requires
        top < usize::MAX - 1,
    ensures
        r == table_ends(t@, top as int),
{
    t.len() == top + 2 && t[0] == 0 && t[top] == 65536 && t[top + 1] == t[top]
}

/// Checks that every entry is at most 65536 and that the entries never decrease.
fn check_monotone(t: &Vec<u32>) -> (r: bool)
    ensures
        r == monotone_table(t@),
{
    let mut i: usize = 0;
    while i < t.len()
        invariant
            i <= t@.len(),
            monotone_table(t@.take(i as int)),
        decreases t@.len() - i,
    {
        if t[i] > 65536 {
            assert(!monotone_table(t@)) by {
                assert(t@[i as int] > 65536);
            }
            return false;
        }
        if i > 0 && t[i - 1] > t[i] {
            assert(!monotone_table(t@)) by {
                assert(t@[i - 1] > t@[i as int]);
            }
            return false;
        }
        proof {
            let p = t@.take(i as int);
            let q = t@.take(i + 1);
            assert forall|a: int, b: int| 0 <= a <= b < q.len() implies #[trigger] q[a] <= #[trigger] q[b] by {
                if b < i {
                    assert(q[a] == p[a] && q[b] == p[b]);
                } else if a < b {
                    assert(p[a] <= p[i - 1]);
                }
            }
        }
        i = i + 1;
    }
    assert(t@.take(t@.len() as int) =~= t@);
    true
}


/// Fraction of `v` below its table position, with `shr` fractional bits.
pub open spec fn fpi_frac(v: i32, shr: i32) -> int {
    (v as u32) - ((((v >> (shr as u32)) as u32) << (shr as u32)) as u32)
}

/// Rounding term of an interpolation with `shr` fractional bits.
pub open spec fn fpi_half(shr: i32) -> int {
    if shr > 0 {
        (1u32 << ((shr - 1) as u32)) as int
    } else {
        0
    }
}

/// Entry `i` of `tab` scaled by `Shift(_, vshift)`, for `vshift <= 0`: shifted right by `-vshift`.
pub open spec fn scaled_entry(tab: Seq<u32>, i: int, vshift: i32) -> int {
    (tab[i] >> ((0 - vshift) as u32)) as int
}

/// Lower bound and upper bound of an interpolation in a table that never decreases, with the
/// entries scaled down by `-vshift` bits: the result lies between the two scaled entries
/// around the position, and equals the lower one plus the rounded fraction of the step.
pub proof fn lemma_fpi_scaled_between(v: i32, tab: Seq<u32>, shr: i32, vshift: i32)
    requires
        0 <= v <= 0x10_0000,
        0 <= shr <= 16,
        -16 <= vshift <= 0,
        monotone_table(tab),
        fpi_ok(v, tab, shr),
    ensures
        fpi_pos(v, shr) == (v >> (shr as u32)) as u32,
        u32_specs::wrapping_add(fpi_pos(v, shr), 1u32) == fpi_pos(v, shr) + 1,
        0 <= scaled_entry(tab, fpi_pos(v, shr) as int, vshift) <= scaled_entry(tab, fpi_pos(v, shr) + 1, vshift) <= 65536,
        scaled_entry(tab, fpi_pos(v, shr) as int, vshift) <= fpi_spec(v, tab, shr, vshift)
            <= scaled_entry(tab, fpi_pos(v, shr) + 1, vshift),
        0 <= fpi_frac(v, shr) < 65536,
        0 <= (scaled_entry(tab, fpi_pos(v, shr) + 1, vshift) - scaled_entry(tab, fpi_pos(v, shr) as int, vshift))
            * fpi_frac(v, shr) + fpi_half(shr) <= 0xffff_ffff,
        fpi_spec(v, tab, shr, vshift) == scaled_entry(tab, fpi_pos(v, shr) as int, vshift) + ((((scaled_entry(
            tab,
            fpi_pos(v, shr) + 1,
            vshift,
        ) - scaled_entry(tab, fpi_pos(v, shr) as int, vshift)) * fpi_frac(v, shr) + fpi_half(shr)) as u32) >> (shr as u32)),
{
    reveal(fpi_spec);
    let s: u32 = shr as u32;
    let pos = fpi_pos(v, shr);
    if shr == 0 {
        assert(i32_specs::wrapping_sub(0i32, shr) == 0i32);
        assert(arith::shift_spec(v, 0i32) == v << 0u32);
        arith::lemma_shift_by_zero(v, 0u32);
    } else {
        assert(i32_specs::wrapping_sub(0i32, shr) == -shr);
        assert(arith::shift_spec(v, -shr as i32) == v >> s);
    }
    assert(pos == (v >> s) as u32);
    let vu: u32 = v as u32;
    let p: u32 = pos;
    assert(p == vu >> s && (p << s) <= vu && vu - (p << s) < (1u32 << s) && p <= 0x10_0000u32
        && (1u32 << s) <= 65536u32 && (1u32 << s) > 0u32)
        by (bit_vector)
        requires p == (v >> s) as u32, vu == v as u32, 0 <= v <= 0x10_0000i32, s <= 16u32;
    let x: u32 = (vu - (p << s)) as u32;
    assert(u32_specs::wrapping_sub(vu, u32_specs::wrapping_shl(p, s)) == x);
    let t0: u32 = tab[p as int];
    let t1: u32 = tab[p + 1];
    assert(t0 <= t1 && t1 <= 65536);
    let k: u32 = (0 - vshift) as u32;
    let e0: u32 = t0 >> k;
    let e1: u32 = t1 >> k;
    assert(e0 <= e1 && e1 <= 65536) by (bit_vector)
        requires t0 <= t1, t1 <= 65536u32, e0 == t0 >> k, e1 == t1 >> k;
    assert(scaled_entry(tab, p as int, vshift) == e0 && scaled_entry(tab, p + 1, vshift) == e1);
    let t0i: i32 = t0 as i32;
    let t1i: i32 = t1 as i32;
    if vshift == 0 {
        arith::lemma_shift_by_zero(t0i, t0);
        arith::lemma_shift_by_zero(t1i, t1);
        assert(arith::shift_spec(t0i, vshift) as u32 == e0);
        assert(arith::shift_spec(t1i, vshift) as u32 == e1);
    } else {
        assert((t0i >> k) as u32 == e0 && (t1i >> k) as u32 == e1) by (bit_vector)
            requires t0 <= 65536u32, t1 <= 65536u32, t0i == t0 as i32, t1i == t1 as i32,
                e0 == t0 >> k, e1 == t1 >> k, k <= 16u32;
        assert((0 - vshift) as u32 == k);
        assert(arith::shift_spec(t0i, vshift) as u32 == e0);
        assert(arith::shift_spec(t1i, vshift) as u32 == e1);
    }
    let d: u32 = (e1 - e0) as u32;
    assert(u32_specs::wrapping_sub(e1, e0) == d);
    let big: u32 = 1u32 << s;
    let half: u32 = if shr > 0 { 1u32 << ((s - 1) as u32) } else { 0u32 };
    assert(half < big) by (bit_vector)
        requires
            s <= 16u32, big == 1u32 << s,
            half == (if s > 0 { 1u32 << ((s - 1) as u32) } else { 0u32 });
    let halfi: i32 = if shr > 0 {
        i32_specs::wrapping_shl(1i32, i32_specs::wrapping_sub(shr, 1i32) as u32)
    } else {
        0i32
    };
    if shr > 0 {
        let s1: u32 = (s - 1) as u32;
        assert(i32_specs::wrapping_sub(shr, 1i32) as u32 == s1);
        assert((1i32 << s1) as u32 == 1u32 << s1) by (bit_vector)
            requires s1 < 16u32;
    }
    assert(halfi as u32 == half);
    assert(d * x <= 0xffff_0000) by (nonlinear_arith)
        requires d <= 65536, x < 65536;
    let v2: u32 = (d * x) as u32;
    assert(u32_specs::wrapping_mul(d, x) == v2);
    let y: u32 = (v2 + half) as u32;
    assert(u32_specs::wrapping_add(v2, half) == y);
    let q: u32 = y >> s;
    assert(q == y / big) by (bit_vector)
        requires s <= 16u32, big == 1u32 << s, q == y >> s;
    assert(y < (d + 1) * big) by (nonlinear_arith)
        requires y == d * x + half, x < big, half < big, d >= 0;
    assert(q <= d) by (nonlinear_arith)
        requires q == y / big, y < (d + 1) * big, big > 0, y >= 0;
    assert(u32_specs::wrapping_shr(y, s) == q);
    assert(u32_specs::wrapping_add(e0, q) == e0 + q);
    assert(fpi_spec(v, tab, shr, vshift) == e0 + q);
    assert(x == fpi_frac(v, shr));
    assert(half == fpi_half(shr));
}

/// Lower bound and upper bound of an interpolation in a table that never decreases: the
/// result lies between the two table entries around the position, and equals the lower
/// entry plus the rounded fraction of the step.
pub proof fn lemma_fpi_between(v: i32, tab: Seq<u32>, shr: i32)
    requires
        0 <= v <= 0x10_0000,
        0 <= shr <= 16,
        monotone_table(tab),
        fpi_ok(v, tab, shr),
    ensures
        fpi_pos(v, shr) == (v >> (shr as u32)) as u32,
        u32_specs::wrapping_add(fpi_pos(v, shr), 1u32) == fpi_pos(v, shr) + 1,
        tab[fpi_pos(v, shr) as int] <= fpi_spec(v, tab, shr, 0) <= tab[fpi_pos(v, shr) + 1],
        0 <= fpi_frac(v, shr) < 65536,
        0 <= (tab[fpi_pos(v, shr) + 1] - tab[fpi_pos(v, shr) as int]) * fpi_frac(v, shr) + fpi_half(shr) <= 0xffff_ffff,
        fpi_spec(v, tab, shr, 0) == tab[fpi_pos(v, shr) as int] + ((((tab[fpi_pos(v, shr) + 1]
            - tab[fpi_pos(v, shr) as int]) * fpi_frac(v, shr) + fpi_half(shr)) as u32) >> (shr as u32)),
{
    lemma_fpi_scaled_between(v, tab, shr, 0);
    let p = fpi_pos(v, shr) as int;
    let t0: u32 = tab[p];
    let t1: u32 = tab[p + 1];
    arith::lemma_shift_by_zero(0i32, t0);
    arith::lemma_shift_by_zero(0i32, t1);
    assert(scaled_entry(tab, p, 0) == t0 && scaled_entry(tab, p + 1, 0) == t1);
}

/// Conditions under which the sRGB gamma -> linear lookup stays inside the table.
pub open spec fn to_linear_srgb_ok(v: u16, bit_depth: i32, tab: Seq<u32>) -> bool {
    let shift = i32_specs::wrapping_sub(10i32, bit_depth);
    if shift > 0 {
        let idx = i32_specs::wrapping_shl(v as i32, shift as u32);
        0 <= idx < tab.len()
    } else {
        fpi_ok(v as i32, tab, i32_specs::wrapping_sub(0i32, shift))
    }
}

/// sRGB gamma -> linear: a direct read when `bit_depth < 10`, an interpolation with
/// `bit_depth - 10` fractional bits otherwise.
#[verifier::opaque]
pub open spec fn to_linear_srgb_spec(v: u16, bit_depth: i32, tab: Seq<u32>) -> u32 {
    let shift = i32_specs::wrapping_sub(10i32, bit_depth);
    if shift > 0 {
        tab[i32_specs::wrapping_shl(v as i32, shift as u32) as int]
    } else {
        fpi_spec(v as i32, tab, i32_specs::wrapping_sub(0i32, shift), 0i32)
    }
}

/// sRGB linear (16 bits) -> gamma (`bit_depth` bits): interpolation with 7 fractional bits.
#[verifier::opaque]
pub open spec fn from_linear_srgb_spec(value: u32, bit_depth: i32, tab: Seq<u32>) -> u16 {
    fpi_spec(value as i32, tab, 7i32, i32_specs::wrapping_sub(bit_depth, 16i32)) as u16
}

/// The curves evaluated through the lookup tables.
pub open spec fn is_lut_curve(t: SharpYuvTransferFunctionType) -> bool {
    !(t is kSharpYuvTransferFunctionSrgb || t is kSharpYuvTransferFunctionLinear
        || t is kSharpYuvTransferFunctionNum)
}

/// Largest linear value (16-bit precision, 65536 for 1.0) that a curve produces: 1.0, or 2.0
/// for the curves read from lookup tables.
pub open spec fn linear_max(transfer_type: SharpYuvTransferFunctionType) -> int {
    if is_lut_curve(transfer_type) {
        0x2_0000
    } else {
        65536
    }
}

/// Inputs on which the gamma -> linear conversion stays inside its tables.
#[verifier::opaque]
pub open spec fn gamma_to_linear_ok(
    tables: &SharpYuvTransferTables,
    v: u16,
    bit_depth: i32,
    transfer_type: SharpYuvTransferFunctionType,
) -> bool {
    match transfer_type {
        SharpYuvTransferFunctionType::kSharpYuvTransferFunctionSrgb =>
            to_linear_srgb_ok(v, bit_depth, tables.linear_table()),
        SharpYuvTransferFunctionType::kSharpYuvTransferFunctionLinear => true,
        SharpYuvTransferFunctionType::kSharpYuvTransferFunctionNum => true,
        _ => {
            &&& tables.lut_curve() == transfer_type
            &&& tables.lut_bit_depth() == bit_depth
            &&& (v as int) < tables.lut_linear().len()
            &&& tables.lut_linear()[v as int] <= 0x2_0000
        },
    }
}

/// Gamma -> linear conversion (linear values have 16 bits).
#[verifier::opaque]
pub open spec fn gamma_to_linear_spec(
    tables: &SharpYuvTransferTables,
    v: u16,
    bit_depth: i32,
    transfer_type: SharpYuvTransferFunctionType,
) -> u32 {
    match transfer_type {
        SharpYuvTransferFunctionType::kSharpYuvTransferFunctionSrgb =>
            to_linear_srgb_spec(v, bit_depth, tables.linear_table()),
        SharpYuvTransferFunctionType::kSharpYuvTransferFunctionLinear => v as u32,
        SharpYuvTransferFunctionType::kSharpYuvTransferFunctionNum => 0u32,
        _ => tables.lut_linear()[v as int],
    }
}

/// Inputs on which the linear -> gamma conversion stays inside its tables.
#[verifier::opaque]
pub open spec fn linear_to_gamma_ok(
    tables: &SharpYuvTransferTables,
    v: u32,
    bit_depth: i32,
    transfer_type: SharpYuvTransferFunctionType,
) -> bool {
    match transfer_type {
        SharpYuvTransferFunctionType::kSharpYuvTransferFunctionSrgb =>
            fpi_ok(v as i32, tables.gamma_table(), 7i32),
        SharpYuvTransferFunctionType::kSharpYuvTransferFunctionLinear => true,
        SharpYuvTransferFunctionType::kSharpYuvTransferFunctionNum => true,
        _ => {
            &&& tables.lut_curve() == transfer_type
            &&& tables.lut_bit_depth() == bit_depth
            &&& 0 < tables.lut_gamma().len()
            &&& ((v as int) < tables.lut_gamma().len() || saturating_curve(transfer_type))
        },
    }
}

/// Linear (16 bits) -> gamma (`bit_depth` bits) conversion.
#[verifier::opaque]
pub open spec fn linear_to_gamma_spec(
    tables: &SharpYuvTransferTables,
    v: u32,
    bit_depth: i32,
    transfer_type: SharpYuvTransferFunctionType,
) -> u16 {
    match transfer_type {
        SharpYuvTransferFunctionType::kSharpYuvTransferFunctionSrgb =>
            from_linear_srgb_spec(v, bit_depth, tables.gamma_table()),
        SharpYuvTransferFunctionType::kSharpYuvTransferFunctionLinear => v as u16,
        SharpYuvTransferFunctionType::kSharpYuvTransferFunctionNum => 0u16,
        _ => if (v as int) < tables.lut_gamma().len() {
            tables.lut_gamma()[v as int]
        } else {
            tables.lut_gamma()[tables.lut_gamma().len() - 1]
        },
    }
}

/// sRGB gamma -> linear conversion of a `bit_depth`-bit value.
pub fn ToLinearSrgb(v: u16, bit_depth: i32, tables: &SharpYuvTransferTables) -> (r: u32)
    requires
        to_linear_srgb_ok(v, bit_depth, tables.linear_table()),
    ensures
        r == to_linear_srgb_spec(v, bit_depth, tables.linear_table()),
{
    reveal(to_linear_srgb_spec);
    let shift: i32 = 10i32.wrapping_sub(bit_depth);
    if shift > 0 {
        return tables.gamma_to_linear[(v as i32).wrapping_shl(shift as u32) as usize];
    }
    FixedPointInterpolation(v as i32, tables.gamma_to_linear.as_slice(), 0i32.wrapping_sub(shift), 0i32)
}

/// sRGB linear (16 bits) -> gamma (`bit_depth` bits) conversion.
pub fn FromLinearSrgb(value: u32, bit_depth: i32, tables: &SharpYuvTransferTables) -> (r: u16)
    requires
        fpi_ok(value as i32, tables.gamma_table(), 7i32),
    ensures
        r == from_linear_srgb_spec(value, bit_depth, tables.gamma_table()),
{
    reveal(from_linear_srgb_spec);
    FixedPointInterpolation(
        value as i32,
        tables.linear_to_gamma.as_slice(),
        16i32.wrapping_sub(9i32),
        bit_depth.wrapping_sub(16i32),
    ) as u16
}

/// Converts a gamma-encoded value of `bit_depth` bits to linear light (16 bits).
pub fn SharpYuvGammaToLinear(
    v: u16,
    bit_depth: i32,
    transfer_type: SharpYuvTransferFunctionType,
    tables: &SharpYuvTransferTables,
) -> (r: u32)
    requires
        gamma_to_linear_ok(tables, v, bit_depth, transfer_type),
    ensures
        r == gamma_to_linear_spec(tables, v, bit_depth, transfer_type),
{
    reveal(gamma_to_linear_spec);
    reveal(gamma_to_linear_ok);
    match transfer_type {
        SharpYuvTransferFunctionType::kSharpYuvTransferFunctionSrgb => ToLinearSrgb(v, bit_depth, tables),
        SharpYuvTransferFunctionType::kSharpYuvTransferFunctionLinear => v as u32,
        SharpYuvTransferFunctionType::kSharpYuvTransferFunctionNum => 0u32,
        _ => tables.curve_to_linear[v as usize],
    }
}

/// Converts a linear light value (16 bits) to a gamma-encoded value of `bit_depth` bits.
pub fn SharpYuvLinearToGamma(
    v: u32,
    bit_depth: i32,
    transfer_type: SharpYuvTransferFunctionType,
    tables: &SharpYuvTransferTables,
) -> (r: u16)
    requires
        linear_to_gamma_ok(tables, v, bit_depth, transfer_type),
    ensures
        r == linear_to_gamma_spec(tables, v, bit_depth, transfer_type),
{
    reveal(linear_to_gamma_spec);
    reveal(linear_to_gamma_ok);
    match transfer_type {
        SharpYuvTransferFunctionType::kSharpYuvTransferFunctionSrgb => FromLinearSrgb(v, bit_depth, tables),
        SharpYuvTransferFunctionType::kSharpYuvTransferFunctionLinear => v as u16,
        SharpYuvTransferFunctionType::kSharpYuvTransferFunctionNum => 0u16,
        _ => {
            let n: usize = tables.curve_to_gamma.len();
            if (v as usize) < n {
                tables.curve_to_gamma[v as usize]
            } else {
                tables.curve_to_gamma[n - 1]
            }
        },
    }
}


/// Whether the gamma -> linear conversion of `v` stays inside the tables.
pub fn gamma_to_linear_fits(
    tables: &SharpYuvTransferTables,
    v: u16,
    bit_depth: i32,
    transfer_type: SharpYuvTransferFunctionType,
) -> (r: bool)
    ensures
        r == gamma_to_linear_ok(tables, v, bit_depth, transfer_type),
{
    reveal(gamma_to_linear_ok);
    match transfer_type {
        SharpYuvTransferFunctionType::kSharpYuvTransferFunctionSrgb => {
            let n: usize = tables.gamma_to_linear.len();
            let shift: i32 = 10i32.wrapping_sub(bit_depth);
            if shift > 0 {
                let idx: i32 = (v as i32).wrapping_shl(shift as u32);
                0 <= idx && (idx as usize) < n
            } else {
                let shr: i32 = 0i32.wrapping_sub(shift);
                let pos: u32 = arith::Shift(v as i32, 0i32.wrapping_sub(shr)) as u32;
                (pos as usize) < n && (pos.wrapping_add(1u32) as usize) < n
            }
        },
        SharpYuvTransferFunctionType::kSharpYuvTransferFunctionLinear => true,
        SharpYuvTransferFunctionType::kSharpYuvTransferFunctionNum => true,
        _ => tables.curve == transfer_type && tables.curve_bit_depth == bit_depth
            && (v as usize) < tables.curve_to_linear.len() && tables.curve_to_linear[v as usize] <= 0x2_0000,
    }
}

/// The interpolation position of a non-negative value is the value shifted right.
pub proof fn lemma_fpi_pos(v: i32, shr: i32)
    requires
        0 <= v,
        0 <= shr <= 16,
    ensures
        fpi_pos(v, shr) == (v >> (shr as u32)) as u32,
{
    let s: u32 = shr as u32;
    if shr == 0 {
        assert(i32_specs::wrapping_sub(0i32, shr) == 0i32);
        assert(arith::shift_spec(v, 0i32) == v << 0u32);
        arith::lemma_shift_by_zero(v, 0u32);
    } else {
        assert(i32_specs::wrapping_sub(0i32, shr) == -shr);
        assert(arith::shift_spec(v, -shr as i32) == v >> s);
    }
}

/// A gamma value that converts inside the tables converts to a linear value of at most
/// `linear_max` (on working bit depths of 3 to 14 bits).
pub proof fn lemma_gamma_to_linear_bound(
    tables: &SharpYuvTransferTables,
    v: u16,
    bit_depth: i32,
    transfer_type: SharpYuvTransferFunctionType,
)
    requires
        tables.wf(),
        3 <= bit_depth <= 14,
        gamma_to_linear_ok(tables, v, bit_depth, transfer_type),
    ensures
        gamma_to_linear_spec(tables, v, bit_depth, transfer_type) <= linear_max(transfer_type),
{
    reveal(gamma_to_linear_spec);
    reveal(gamma_to_linear_ok);
    reveal(to_linear_srgb_spec);
    if transfer_type is kSharpYuvTransferFunctionSrgb {
        let shift = i32_specs::wrapping_sub(10i32, bit_depth);
        assert(shift == 10 - bit_depth);
        if shift <= 0 {
            let shr: i32 = (bit_depth - 10) as i32;
            assert(i32_specs::wrapping_sub(0i32, shift) == shr);
            lemma_fpi_between(v as i32, tables.linear_table(), shr);
        }
    }
}

/// On the working bit depths (3 to 14 bits), a gamma value of at most `2^bit_depth - 1`
/// converts inside the tables, to a linear value of at most `linear_max`.
pub proof fn lemma_gamma_to_linear_range(
    tables: &SharpYuvTransferTables,
    v: u16,
    bit_depth: i32,
    transfer_type: SharpYuvTransferFunctionType,
)
    requires
        tables.wf(),
        tables.supports(transfer_type, bit_depth),
        3 <= bit_depth <= 14,
        v <= arith::depth_max(bit_depth),
    ensures
        gamma_to_linear_ok(tables, v, bit_depth, transfer_type),
        gamma_to_linear_spec(tables, v, bit_depth, transfer_type) <= linear_max(transfer_type),
{
    reveal(gamma_to_linear_ok);
    arith::lemma_depth_max(bit_depth);
    let bd: u32 = bit_depth as u32;
    let m: i32 = arith::depth_max(bit_depth);
    let vi: i32 = v as i32;
    assert(m <= 16383) by (bit_vector)
        requires 3u32 <= bd <= 14u32, m == (1i32 << bd) - 1;
    if transfer_type is kSharpYuvTransferFunctionSrgb {
        let shift = i32_specs::wrapping_sub(10i32, bit_depth);
        assert(shift == 10 - bit_depth);
        if shift > 0 {
            let sh: u32 = shift as u32;
            let idx: i32 = vi << sh;
            assert(0 <= idx <= 1023) by (bit_vector)
                requires 0 <= vi <= m, m == (1i32 << bd) - 1, 3u32 <= bd <= 9u32,
                    sh == (10 - bd) as u32, idx == vi << sh;
            assert(i32_specs::wrapping_shl(vi, sh) == idx);
        } else {
            let shr: i32 = (bit_depth - 10) as i32;
            assert(i32_specs::wrapping_sub(0i32, shift) == shr);
            lemma_fpi_pos(vi, shr);
            let sh: u32 = shr as u32;
            let p: i32 = vi >> sh;
            assert(0 <= p <= 1023) by (bit_vector)
                requires 0 <= vi <= m, m == (1i32 << bd) - 1, 10u32 <= bd <= 14u32,
                    sh == (bd - 10) as u32, p == vi >> sh;
        }
    }
    lemma_gamma_to_linear_bound(tables, v, bit_depth, transfer_type);
}

/// A linear value of at most `linear_max` converts back to gamma inside the tables.
pub proof fn lemma_linear_to_gamma_range(
    tables: &SharpYuvTransferTables,
    v: u32,
    bit_depth: i32,
    transfer_type: SharpYuvTransferFunctionType,
)
    requires
        tables.wf(),
        tables.supports(transfer_type, bit_depth),
        v <= linear_max(transfer_type),
    ensures
        linear_to_gamma_ok(tables, v, bit_depth, transfer_type),
{
    reveal(linear_to_gamma_ok);
    if transfer_type is kSharpYuvTransferFunctionSrgb {
        let vi: i32 = v as i32;
        lemma_fpi_pos(vi, 7i32);
        let p: i32 = vi >> 7u32;
        assert(0 <= p <= 512) by (bit_vector)
            requires 0 <= vi <= 65536i32, p == vi >> 7u32;
    }
}

} // verus!
