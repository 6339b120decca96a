//! The sharp RGB -> YUV 4:2:0 conversion: import, iterative refinement, output.
use vstd::prelude::*;
use crate::arith;
use crate::dsp;
use crate::rows;
use crate::convert;
use crate::gamma::SharpYuvTransferTables;
use crate::types::SharpYuvTransferFunctionType;
use crate::types::SharpYuvConversionMatrix;

verus! {

/// The input image as seen by the conversion: three planes of bytes and their layout.
pub struct RgbInput {
    pub r: Seq<u8>,
    pub g: Seq<u8>,
    pub b: Seq<u8>,
    pub step: i32,
    pub stride: i32,
    pub bit_depth: i32,
    pub width: i32,
    pub height: i32,
}

impl RgbInput {
    /// Width of the working buffers: the width rounded up to an even number.
    pub open spec fn w(self) -> int {
        rows::even_up(self.width)
    }

    pub open spec fn h(self) -> int {
        rows::even_up(self.height)
    }

    pub open spec fn uv_w(self) -> int {
        self.w() / 2
    }

    pub open spec fn uv_h(self) -> int {
        self.h() / 2
    }

    /// Bit depth of the working (gamma-encoded) values.
    pub open spec fn y_bit_depth(self) -> i32 {
        (self.bit_depth + arith::precision_shift(self.bit_depth)) as i32
    }

    /// Image row `row` imported at the working precision (three planes of `w` values).
    pub open spec fn row(self, row: int) -> Seq<u16> {
        let off = row * self.stride;
        rows::import_values(
            self.r.subrange(off, self.r.len() as int),
            self.g.subrange(off, self.g.len() as int),
            self.b.subrange(off, self.b.len() as int),
            self.step,
            self.bit_depth,
            self.width,
        )
    }

    /// Row `row` can be read: every sample of it lies inside the three planes.
    pub open spec fn row_readable(self, row: int) -> bool {
        let off = row * self.stride;
        rows::import_ok(
            self.r.subrange(off, self.r.len() as int),
            self.g.subrange(off, self.g.len() as int),
            self.b.subrange(off, self.b.len() as int),
            self.step,
            self.bit_depth,
            self.width,
        )
    }

    /// Conditions under which the conversion of this input stays inside its buffers and tables:
    /// sizes, strides, every row readable and every imported value inside the transfer tables.
    pub open spec fn valid(self, tables: &SharpYuvTransferTables, transfer_type: SharpYuvTransferFunctionType) -> bool {
        &&& 1 <= self.width < i32::MAX
        &&& 1 <= self.height < i32::MAX
        &&& 1 <= self.bit_depth <= 16
        &&& 4 * self.w() * self.h() <= usize::MAX
        &&& 3 * self.w() <= i32::MAX
        &&& 0 <= self.stride
        &&& 2 * self.stride <= i32::MAX
        &&& 2 * self.uv_h() * self.stride <= self.r.len()
        &&& 2 * self.uv_h() * self.stride <= self.g.len()
        &&& 2 * self.uv_h() * self.stride <= self.b.len()
        &&& forall|row: int| 0 <= row < self.height ==> #[trigger] self.row_readable(row)
        &&& forall|row: int| 0 <= row < self.height
            ==> rows::row_ok(tables, #[trigger] self.row(row), 3 * self.w(), self.y_bit_depth(), transfer_type)
        &&& tables.wf()
        &&& tables.supports(transfer_type, self.y_bit_depth())
    }

    /// Lower row of block row `k`: the upper row repeated for an odd last row.
    pub open spec fn lower_row(self, k: int) -> Seq<u16> {
        if 2 * k == self.height - 1 {
            self.row(2 * k)
        } else {
            self.row(2 * k + 1)
        }
    }
}


/// Rows of a two-dimensional buffer, one after the other.
pub open spec fn concat_rows<A>(rows: Seq<Seq<A>>) -> Seq<A>
    decreases rows.len(),
{
    if rows.len() == 0 {
        Seq::empty()
    } else {
        concat_rows(rows.drop_last()) + rows.last()
    }
}

/// Views of a vector of rows.
pub open spec fn rows_view<A>(v: Seq<Vec<A>>) -> Seq<Seq<A>> {
    Seq::new(v.len(), |i: int| v[i]@)
}

/// Luminance targets: the luminance of the input computed in linear light, per block row.
pub open spec fn target_y(tables: &SharpYuvTransferTables, inp: RgbInput, transfer_type: SharpYuvTransferFunctionType) -> Seq<Seq<u16>> {
    Seq::new(
        inp.uv_h() as nat,
        |k: int| rows::luma_pair(tables, inp.row(2 * k), inp.lower_row(k), inp.w() as i32, inp.y_bit_depth(), transfer_type),
    )
}

/// Chroma targets: the chroma differences of the input, downsampled in linear light.
pub open spec fn target_uv(tables: &SharpYuvTransferTables, inp: RgbInput, transfer_type: SharpYuvTransferFunctionType) -> Seq<Seq<i16>> {
    Seq::new(
        inp.uv_h() as nat,
        |k: int| rows::chroma_row(tables, inp.row(2 * k), inp.lower_row(k), inp.uv_w() as i32, inp.y_bit_depth(), transfer_type),
    )
}

/// Initial luminance: the gray levels of the input.
pub open spec fn initial_y(inp: RgbInput) -> Seq<Seq<u16>> {
    Seq::new(inp.uv_h() as nat, |k: int| rows::gray_pair(inp.row(2 * k), inp.lower_row(k), inp.w() as i32))
}

/// One refinement step on block row `k`: upsample the current chroma, recompute luminance and
/// chroma in linear light, and move the current values by the distance to the targets.
/// Block row `k - 1` has already been refined in this pass; rows `k` and `k + 1` not yet.
pub open spec fn pass_step(
    tables: &SharpYuvTransferTables,
    inp: RgbInput,
    transfer_type: SharpYuvTransferFunctionType,
    st: (Seq<Seq<u16>>, Seq<Seq<i16>>, u64),
    k: int,
) -> (Seq<Seq<u16>>, Seq<Seq<i16>>, u64) {
    let (by, buv, diff) = st;
    let w = inp.w() as i32;
    let uv_w = inp.uv_w() as i32;
    let yb = inp.y_bit_depth();
    let cur = buv[k];
    let prev = if k == 0 { buv[0] } else { buv[k - 1] };
    let next = if k + 1 < inp.uv_h() { buv[k + 1] } else { buv[k] };
    let o1 = rows::interp_row(cur, prev, by[k], w, yb);
    let o2 = rows::interp_row(cur, next, by[k].subrange(w as int, by[k].len() as int), w, yb);
    let rgb_y = rows::luma_pair(tables, o1, o2, w, yb, transfer_type);
    let rgb_uv = rows::chroma_row(tables, o1, o2, uv_w, yb, transfer_type);
    let ty = target_y(tables, inp, transfer_type)[k];
    let tuv = target_uv(tables, inp, transfer_type)[k];
    let new_y = dsp::update_y_result(ty, rgb_y, by[k], (2 * w) as i32, yb);
    let d = dsp::abs_diff_sum(ty, rgb_y, 2 * w);
    let new_uv = dsp::update_rgb_result(tuv, rgb_uv, buv[k], (3 * uv_w) as i32);
    (by.update(k, new_y), buv.update(k, new_uv), vstd::wrapping::u64_specs::wrapping_add(diff, d as u64))
}

/// The first `k` steps of a refinement pass, from the state `(by, buv)`.
pub open spec fn pass(
    tables: &SharpYuvTransferTables,
    inp: RgbInput,
    transfer_type: SharpYuvTransferFunctionType,
    by: Seq<Seq<u16>>,
    buv: Seq<Seq<i16>>,
    k: int,
) -> (Seq<Seq<u16>>, Seq<Seq<i16>>, u64)
    decreases k,
{
    if k <= 0 {
        (by, buv, 0u64)
    } else {
        pass_step(tables, inp, transfer_type, pass(tables, inp, transfer_type, by, buv, k - 1), k - 1)
    }
}

/// Stop threshold on the total luminance change of a pass: 3 per pixel.
pub open spec fn diff_threshold(inp: RgbInput) -> u64 {
    (3 * inp.w() * inp.h()) as u64
}

/// Refinement passes `iter .. kNumIterations`: after the second pass, stop once the total
/// luminance change falls under the threshold or grows.
pub open spec fn iterate(
    tables: &SharpYuvTransferTables,
    inp: RgbInput,
    transfer_type: SharpYuvTransferFunctionType,
    by: Seq<Seq<u16>>,
    buv: Seq<Seq<i16>>,
    iter: int,
    prev_diff: u64,
) -> (Seq<Seq<u16>>, Seq<Seq<i16>>)
    decreases 4 - iter,
{
    if iter >= 4 {
        (by, buv)
    } else {
        let (by2, buv2, d) = pass(tables, inp, transfer_type, by, buv, inp.uv_h());
        if iter > 0 && (d < diff_threshold(inp) || d > prev_diff) {
            (by2, buv2)
        } else {
            iterate(tables, inp, transfer_type, by2, buv2, iter + 1, d)
        }
    }
}

/// Final luminance and chroma differences of the sharp conversion, row after row.
pub open spec fn sharp_result(
    tables: &SharpYuvTransferTables,
    inp: RgbInput,
    transfer_type: SharpYuvTransferFunctionType,
) -> (Seq<u16>, Seq<i16>) {
    let (by, buv) = iterate(tables, inp, transfer_type, initial_y(inp), target_uv(tables, inp, transfer_type), 0, u64::MAX);
    (concat_rows(by), concat_rows(buv))
}


/// The input as seen by the conversion.
pub open spec fn rgb_input(
    r: Seq<u8>,
    g: Seq<u8>,
    b: Seq<u8>,
    step: i32,
    stride: i32,
    bit_depth: i32,
    width: i32,
    height: i32,
) -> RgbInput {
    RgbInput { r, g, b, step, stride, bit_depth, width, height }
}

fn copy_u16(src: &[u16], dst: &mut [u16])
    requires
        src@.len() == old(dst)@.len(),
    ensures
        final(dst)@ == src@,
{
    let n: usize = src.len();
    let mut i: usize = 0;
    while i < n
        invariant
            n == src@.len(),
            dst@.len() == n,
            i <= n,
            forall|p: int| 0 <= p < i ==> dst@[p] == src@[p],
        decreases n - i,
    {
        dst[i] = src[i];
        i = i + 1;
    }
    assert(dst@ =~= src@);
}

fn clone_i16(src: &Vec<i16>) -> (out: Vec<i16>)
    ensures
        out@ == src@,
{
    let mut out: Vec<i16> = Vec::new();
    let mut i: usize = 0;
    while i < src.len()
        invariant
            i <= src@.len(),
            out@ == src@.take(i as int),
        decreases src@.len() - i,
    {
        out.push(src[i]);
        assert(out@ =~= src@.take(i + 1));
        i = i + 1;
    }
    assert(src@.take(src@.len() as int) =~= src@);
    out
}

fn concat_rows_exec<T: Copy>(rows: &Vec<Vec<T>>) -> (out: Vec<T>)
    ensures
        out@ == concat_rows(rows_view(rows@)),
{
    let mut out: Vec<T> = Vec::new();
    let mut k: usize = 0;
    while k < rows.len()
        invariant
            k <= rows@.len(),
            out@ == concat_rows(rows_view(rows@).take(k as int)),
        decreases rows@.len() - k,
    {
        let ghost before = out@;
        let row: &Vec<T> = &rows[k];
        let mut i: usize = 0;
        while i < row.len()
            invariant
                i <= row@.len(),
                out@ == before + row@.take(i as int),
            decreases row@.len() - i,
        {
            out.push(row[i]);
            assert(out@ =~= before + row@.take(i + 1));
            i = i + 1;
        }
        proof {
            let v = rows_view(rows@);
            assert(row@.take(row@.len() as int) =~= row@);
            assert(v.take(k + 1).drop_last() =~= v.take(k as int));
            assert(v.take(k + 1).last() == row@);
        }
        k = k + 1;
    }
    assert(rows_view(rows@).take(rows@.len() as int) =~= rows_view(rows@));
    out
}

/// Builds, per block row, the initial luminance (gray levels of the input), the luminance
/// targets, the chroma targets and the initial chroma (a copy of the targets).
#[verifier::rlimit(40)]
fn sharp_init(
    r_ptr: &[u8],
    g_ptr: &[u8],
    b_ptr: &[u8],
    rgb_step: i32,
    rgb_stride: i32,
    rgb_bit_depth: i32,
    width: i32,
    height: i32,
    transfer_type: SharpYuvTransferFunctionType,
    tables: &SharpYuvTransferTables,
) -> (res: (Vec<Vec<u16>>, Vec<Vec<u16>>, Vec<Vec<i16>>, Vec<Vec<i16>>))
    requires
        rgb_input(r_ptr@, g_ptr@, b_ptr@, rgb_step, rgb_stride, rgb_bit_depth, width, height).valid(tables, transfer_type),
    ensures
        ({
            let inp = rgb_input(r_ptr@, g_ptr@, b_ptr@, rgb_step, rgb_stride, rgb_bit_depth, width, height);
            &&& rows_view(res.0@) == initial_y(inp)
            &&& rows_view(res.1@) == target_y(tables, inp, transfer_type)
            &&& rows_view(res.2@) == target_uv(tables, inp, transfer_type)
            &&& rows_view(res.3@) == target_uv(tables, inp, transfer_type)
        }),
{
    let ghost inp = rgb_input(r_ptr@, g_ptr@, b_ptr@, rgb_step, rgb_stride, rgb_bit_depth, width, height);
    let w: i32 = if width % 2 == 0 { width } else { width + 1 };
    let h: i32 = if height % 2 == 0 { height } else { height + 1 };
    let uv_w: i32 = w / 2;
    let uv_h: i32 = h / 2;
    let yb: i32 = rgb_bit_depth + arith::GetPrecisionShift(rgb_bit_depth);
    assert(w == inp.w() && h == inp.h() && uv_w == inp.uv_w() && uv_h == inp.uv_h() && yb == inp.y_bit_depth());
    assert(w * h <= usize::MAX) by (nonlinear_arith)
        requires 4 * w * h <= usize::MAX, w >= 1, h >= 1;
    let wu: usize = w as usize;
    let stride: usize = rgb_stride as usize;
    let rl: usize = r_ptr.len();
    let gl: usize = g_ptr.len();
    let bl: usize = b_ptr.len();
    assert(3 * w <= 4 * w * h) by (nonlinear_arith)
        requires w >= 1, h >= 1;
    let mut src1: Vec<u16> = vec![0u16; 3 * wu];
    let mut src2: Vec<u16> = vec![0u16; 3 * wu];
    let mut best_y: Vec<Vec<u16>> = Vec::new();
    let mut tgt_y: Vec<Vec<u16>> = Vec::new();
    let mut best_uv: Vec<Vec<i16>> = Vec::new();
    let mut tgt_uv: Vec<Vec<i16>> = Vec::new();
    let mut k: i32 = 0;
    let mut row_off: usize = 0;
    assert(2 * k * stride == 0) by (nonlinear_arith)
        requires k == 0;
    while k < uv_h
        invariant
            inp == rgb_input(r_ptr@, g_ptr@, b_ptr@, rgb_step, rgb_stride, rgb_bit_depth, width, height),
            inp.valid(tables, transfer_type),
            w == inp.w(),
            uv_w == inp.uv_w(),
            uv_h == inp.uv_h(),
            yb == inp.y_bit_depth(),
            wu == w,
            stride == rgb_stride,
            rl == r_ptr@.len(),
            gl == g_ptr@.len(),
            bl == b_ptr@.len(),
            0 <= k <= uv_h,
            row_off == 2 * k * stride,
            src1@.len() == 3 * w,
            src2@.len() == 3 * w,
            best_y@.len() == k,
            tgt_y@.len() == k,
            best_uv@.len() == k,
            tgt_uv@.len() == k,
            rows_view(best_y@) == initial_y(inp).take(k as int),
            rows_view(tgt_y@) == target_y(tables, inp, transfer_type).take(k as int),
            rows_view(best_uv@) == target_uv(tables, inp, transfer_type).take(k as int),
            rows_view(tgt_uv@) == target_uv(tables, inp, transfer_type).take(k as int),
        decreases uv_h - k,
    {
        proof {
            assert(2 * (k + 1) * stride <= 2 * uv_h * stride) by (nonlinear_arith)
                requires k + 1 <= uv_h, stride >= 0;
            assert(2 * (k + 1) * stride == 2 * k * stride + 2 * stride) by (nonlinear_arith);
            assert(inp.row_readable(2 * k));
            assert(rows::row_ok(tables, inp.row(2 * k), 3 * inp.w(), inp.y_bit_depth(), transfer_type));
        }
        let off: usize = row_off;
        let ghost s_init1 = src1@;
        rows::ImportOneRow(&r_ptr[off..rl], &g_ptr[off..gl], &b_ptr[off..bl], rgb_step, rgb_bit_depth, width, src1.as_mut_slice());
        proof {
            rows::lemma_import_values(
                r_ptr@.subrange(off as int, rl as int), g_ptr@.subrange(off as int, gl as int), b_ptr@.subrange(off as int, bl as int),
                rgb_step, rgb_bit_depth, width, s_init1);
            assert(src1@ == inp.row(2 * k));
        }
        if 2 * k == height - 1 {
            copy_u16(src1.as_slice(), src2.as_mut_slice());
            assert(src2@ == inp.lower_row(k as int));
        } else {
            proof {
                assert(2 * k + 1 < height);
                assert(inp.row_readable(2 * k + 1));
                assert((2 * k + 1) * stride == 2 * k * stride + stride) by (nonlinear_arith);
            }
            let off2: usize = off + stride;
            let ghost s_init2 = src2@;
            rows::ImportOneRow(&r_ptr[off2..rl], &g_ptr[off2..gl], &b_ptr[off2..bl], rgb_step, rgb_bit_depth, width, src2.as_mut_slice());
            proof {
                rows::lemma_import_values(
                    r_ptr@.subrange(off2 as int, rl as int), g_ptr@.subrange(off2 as int, gl as int), b_ptr@.subrange(off2 as int, bl as int),
                    rgb_step, rgb_bit_depth, width, s_init2);
            }
            assert(src2@ == inp.lower_row(k as int));
        }
        let ghost s1 = src1@;
        let ghost s2 = src2@;
        proof {
            assert(rows::row_ok(tables, inp.row(2 * k), 3 * inp.w(), inp.y_bit_depth(), transfer_type));
            if 2 * k == height - 1 {
            } else {
                assert(rows::row_ok(tables, inp.row(2 * k + 1), 3 * inp.w(), inp.y_bit_depth(), transfer_type));
            }
            rows::lemma_w_points(tables, s1, w, yb, transfer_type);
            rows::lemma_w_points(tables, s2, w, yb, transfer_type);
            rows::lemma_chroma_points(tables, s1, s2, uv_w, yb, transfer_type);
        }
        let mut gy: Vec<u16> = vec![0u16; 2 * wu];
        {
            let (a, b) = gy.as_mut_slice().split_at_mut(wu);
            rows::StoreGray(src1.as_slice(), a, w);
            rows::StoreGray(src2.as_slice(), b, w);
        }
        assert(gy@ =~= rows::gray_pair(s1, s2, w));
        let mut ty: Vec<u16> = vec![0u16; 2 * wu];
        {
            let (a, b) = ty.as_mut_slice().split_at_mut(wu);
            rows::UpdateW(src1.as_slice(), a, w, yb, transfer_type, tables);
            rows::UpdateW(src2.as_slice(), b, w, yb, transfer_type, tables);
        }
        assert(ty@ =~= rows::luma_pair(tables, s1, s2, w, yb, transfer_type));
        let mut tuv: Vec<i16> = vec![0i16; 3 * (uv_w as usize)];
        let ghost tuv0 = tuv@;
        rows::UpdateChroma(src1.as_slice(), src2.as_slice(), tuv.as_mut_slice(), uv_w, yb, transfer_type, tables);
        proof {
            rows::lemma_chroma_row(tables, s1, s2, tuv0, uv_w, yb, transfer_type);
        }
        let buv: Vec<i16> = clone_i16(&tuv);
        let ghost pre_by = best_y@;
        let ghost pre_ty = tgt_y@;
        let ghost pre_buv = best_uv@;
        let ghost pre_tuv = tgt_uv@;
        best_y.push(gy);
        tgt_y.push(ty);
        best_uv.push(buv);
        tgt_uv.push(tuv);
        proof {
            assert(gy@ == initial_y(inp)[k as int]);
            assert(ty@ == target_y(tables, inp, transfer_type)[k as int]);
            assert forall|i: int| 0 <= i < k + 1 implies #[trigger] rows_view(best_y@)[i] == initial_y(inp).take(k + 1)[i] by {
                assert(initial_y(inp).len() == uv_h);
                assert(best_y@.len() == k + 1);
                if i < k {
                    assert(rows_view(pre_by)[i] == initial_y(inp).take(k as int)[i]);
                    assert(best_y@[i] == pre_by[i]);
                } else {
                    assert(best_y@[i] == gy);
                }
            }
            assert forall|i: int| 0 <= i < k + 1 implies #[trigger] rows_view(tgt_y@)[i] == target_y(tables, inp, transfer_type).take(k + 1)[i] by {
                if i < k {
                    assert(rows_view(pre_ty)[i] == target_y(tables, inp, transfer_type).take(k as int)[i]);
                }
            }
            assert(rows_view(best_y@) =~= initial_y(inp).take(k + 1));
            assert(rows_view(tgt_y@) =~= target_y(tables, inp, transfer_type).take(k + 1));
            assert(rows_view(best_uv@) =~= target_uv(tables, inp, transfer_type).take(k + 1));
            assert(rows_view(tgt_uv@) =~= target_uv(tables, inp, transfer_type).take(k + 1));
        }
        k = k + 1;
        row_off = row_off + 2 * stride;
    }
    proof {
        assert(initial_y(inp).take(uv_h as int) =~= initial_y(inp));
        assert(target_y(tables, inp, transfer_type).take(uv_h as int) =~= target_y(tables, inp, transfer_type));
        assert(target_uv(tables, inp, transfer_type).take(uv_h as int) =~= target_uv(tables, inp, transfer_type));
    }
    (best_y, tgt_y, best_uv, tgt_uv)
}


/// Rows `0 .. n` of `rows` all have `len` entries.
pub open spec fn rows_have_len<A>(rows: Seq<Seq<A>>, n: int, len: int) -> bool {
    &&& rows.len() == n
    &&& forall|k: int| 0 <= k < n ==> (#[trigger] rows[k]).len() == len
}

/// One refinement pass over all block rows; returns the total luminance change.
#[verifier::rlimit(80)]
fn sharp_pass(
    best_y: &mut Vec<Vec<u16>>,
    best_uv: &mut Vec<Vec<i16>>,
    tgt_y: &Vec<Vec<u16>>,
    tgt_uv: &Vec<Vec<i16>>,
    src1: &mut Vec<u16>,
    src2: &mut Vec<u16>,
    best_rgb_y: &mut Vec<u16>,
    best_rgb_uv: &mut Vec<i16>,
    w: i32,
    uv_w: i32,
    uv_h: i32,
    yb: i32,
    transfer_type: SharpYuvTransferFunctionType,
    tables: &SharpYuvTransferTables,
    Ghost(inp): Ghost<RgbInput>,
) -> (diff: u64)
    requires
        inp.valid(tables, transfer_type),
        w == inp.w(),
        uv_w == inp.uv_w(),
        uv_h == inp.uv_h(),
        yb == inp.y_bit_depth(),
        rows_view(tgt_y@) == target_y(tables, inp, transfer_type),
        rows_view(tgt_uv@) == target_uv(tables, inp, transfer_type),
        rows_have_len(rows_view(old(best_y)@), uv_h as int, 2 * w),
        rows_have_len(rows_view(old(best_uv)@), uv_h as int, 3 * uv_w),
        old(src1)@.len() == 3 * w,
        old(src2)@.len() == 3 * w,
        old(best_rgb_y)@.len() == 2 * w,
        old(best_rgb_uv)@.len() == 3 * uv_w,
    ensures
        (rows_view(final(best_y)@), rows_view(final(best_uv)@), diff)
            == pass(tables, inp, transfer_type, rows_view(old(best_y)@), rows_view(old(best_uv)@), uv_h as int),
        rows_have_len(rows_view(final(best_y)@), uv_h as int, 2 * w),
        rows_have_len(rows_view(final(best_uv)@), uv_h as int, 3 * uv_w),
        final(src1)@.len() == 3 * w,
        final(src2)@.len() == 3 * w,
        final(best_rgb_y)@.len() == 2 * w,
        final(best_rgb_uv)@.len() == 3 * uv_w,
{
    let ghost by0 = rows_view(best_y@);
    let ghost buv0 = rows_view(best_uv@);
    let wu: usize = w as usize;
    let mut diff: u64 = 0;
    let mut k: i32 = 0;
    assert(pass(tables, inp, transfer_type, by0, buv0, 0) == (by0, buv0, 0u64));
    assert(rows_view(tgt_y@).len() == tgt_y@.len() && target_y(tables, inp, transfer_type).len() == uv_h);
    assert(rows_view(tgt_uv@).len() == tgt_uv@.len() && target_uv(tables, inp, transfer_type).len() == uv_h);
    while k < uv_h
        invariant
            tgt_y@.len() == uv_h,
            tgt_uv@.len() == uv_h,
            inp.valid(tables, transfer_type),
            w == inp.w(),
            uv_w == inp.uv_w(),
            uv_h == inp.uv_h(),
            yb == inp.y_bit_depth(),
            wu == w,
            0 <= k <= uv_h,
            rows_view(tgt_y@) == target_y(tables, inp, transfer_type),
            rows_view(tgt_uv@) == target_uv(tables, inp, transfer_type),
            rows_have_len(rows_view(best_y@), uv_h as int, 2 * w),
            rows_have_len(rows_view(best_uv@), uv_h as int, 3 * uv_w),
            src1@.len() == 3 * w,
            src2@.len() == 3 * w,
            best_rgb_y@.len() == 2 * w,
            best_rgb_uv@.len() == 3 * uv_w,
            (rows_view(best_y@), rows_view(best_uv@), diff) == pass(tables, inp, transfer_type, by0, buv0, k as int),
        decreases uv_h - k,
    {
        let ku: usize = k as usize;
        let prev: usize = if k == 0 { 0 } else { ku - 1 };
        let next: usize = if k + 1 < uv_h { ku + 1 } else { ku };
        let ghost by = rows_view(best_y@);
        let ghost buv = rows_view(best_uv@);
        let ghost s1_old = src1@;
        let ghost s2_old = src2@;
        proof {
            assert(by[k as int] == best_y@[k as int]@);
            assert(buv[prev as int] == best_uv@[prev as int]@);
            assert(buv[k as int] == best_uv@[k as int]@);
            assert(buv[next as int] == best_uv@[next as int]@);
            assert(by[k as int].len() == 2 * w);
            assert(buv[prev as int].len() == 3 * uv_w);
            assert(buv[k as int].len() == 3 * uv_w);
            assert(buv[next as int].len() == 3 * uv_w);
        }
        rows::InterpolateTwoRows(
            best_y[ku].as_slice(),
            best_uv[prev].as_slice(),
            best_uv[ku].as_slice(),
            best_uv[next].as_slice(),
            w,
            src1.as_mut_slice(),
            src2.as_mut_slice(),
            yb,
        );
        let ghost o1 = src1@;
        let ghost o2 = src2@;
        proof {
            rows::lemma_interp_row(buv[k as int], buv[prev as int], by[k as int], w, yb, s1_old);
            rows::lemma_interp_row(buv[k as int], buv[next as int], by[k as int].subrange(w as int, by[k as int].len() as int), w, yb, s2_old);
            rows::lemma_row_ok_from_bound(tables, o1, 3 * w, yb, transfer_type);
            rows::lemma_row_ok_from_bound(tables, o2, 3 * w, yb, transfer_type);
            rows::lemma_w_points(tables, o1, w, yb, transfer_type);
            rows::lemma_w_points(tables, o2, w, yb, transfer_type);
            rows::lemma_chroma_points(tables, o1, o2, uv_w, yb, transfer_type);
        }
        {
            let (a, b) = best_rgb_y.as_mut_slice().split_at_mut(wu);
            rows::UpdateW(src1.as_slice(), a, w, yb, transfer_type, tables);
            rows::UpdateW(src2.as_slice(), b, w, yb, transfer_type, tables);
        }
        assert(best_rgb_y@ =~= rows::luma_pair(tables, o1, o2, w, yb, transfer_type));
        let ghost ruv_old = best_rgb_uv@;
        rows::UpdateChroma(src1.as_slice(), src2.as_slice(), best_rgb_uv.as_mut_slice(), uv_w, yb, transfer_type, tables);
        proof {
            rows::lemma_chroma_row(tables, o1, o2, ruv_old, uv_w, yb, transfer_type);
            assert(rows_view(tgt_y@)[k as int] == tgt_y@[k as int]@);
            assert(rows_view(tgt_uv@)[k as int] == tgt_uv@[k as int]@);
        }
        let d: u64 = dsp::SharpYuvUpdateY(tgt_y[ku].as_slice(), best_rgb_y.as_slice(), best_y[ku].as_mut_slice(), 2 * w, yb);
        diff = diff.wrapping_add(d);
        dsp::SharpYuvUpdateRGB(tgt_uv[ku].as_slice(), best_rgb_uv.as_slice(), best_uv[ku].as_mut_slice(), 3 * uv_w);
        proof {
            let st = pass(tables, inp, transfer_type, by0, buv0, k as int);
            let nst = pass_step(tables, inp, transfer_type, st, k as int);
            assert(pass(tables, inp, transfer_type, by0, buv0, k + 1) == nst);
            assert(rows_view(best_y@) =~= nst.0);
            assert(rows_view(best_uv@) =~= nst.1);
        }
        k = k + 1;
    }
    diff
}


pub proof fn lemma_concat_len<A>(rows: Seq<Seq<A>>, n: int, len: int)
    requires
        0 <= n,
        0 <= len,
        rows_have_len(rows, n, len),
    ensures
        concat_rows(rows).len() == n * len,
    decreases n,
{
    if n > 0 {
        let d = rows.drop_last();
        assert(rows_have_len(d, n - 1, len)) by {
            assert forall|k: int| 0 <= k < n - 1 implies (#[trigger] d[k]).len() == len by {
                assert(d[k] == rows[k]);
            }
        }
        lemma_concat_len(d, n - 1, len);
        assert(rows.last() == rows[n - 1]);
        assert((n - 1) * len + len == n * len) by (nonlinear_arith);
    } else {
        assert(n * len == 0) by (nonlinear_arith)
            requires n == 0;
    }
}

/// Sizes of the output buffers, for the working buffers of this input.
pub open spec fn output_ok(
    inp: RgbInput,
    y_len: int,
    y_stride: i32,
    u_len: int,
    u_stride: i32,
    v_len: int,
    v_stride: i32,
    yuv_bit_depth: i32,
    matrix_len: int,
) -> bool {
    convert::convert_ok(
        inp.w() * inp.h(),
        3 * inp.uv_w() * inp.uv_h(),
        y_len,
        y_stride,
        u_len,
        u_stride,
        v_len,
        v_stride,
        yuv_bit_depth,
        inp.width,
        inp.height,
        matrix_len,
    )
}

/// The Y, U and V planes written by the sharp conversion of `inp` with the matrix `m` into
/// the planes `y`, `u` and `v`.
pub open spec fn sharp_planes(
    tables: &SharpYuvTransferTables,
    inp: RgbInput,
    transfer_type: SharpYuvTransferFunctionType,
    y: Seq<u8>,
    y_stride: i32,
    u: Seq<u8>,
    u_stride: i32,
    v: Seq<u8>,
    v_stride: i32,
    yuv_bit_depth: i32,
    m: SharpYuvConversionMatrix,
) -> (Seq<u8>, Seq<u8>, Seq<u8>) {
    let (by, buv) = sharp_result(tables, inp, transfer_type);
    (
        convert::luma_plane(by, buv, y, y_stride, inp.bit_depth, yuv_bit_depth, inp.width, inp.height, m),
        convert::chroma_plane(buv, u, u_stride, m.rgb_to_u, inp.bit_depth, yuv_bit_depth, inp.width, inp.height),
        convert::chroma_plane(buv, v, v_stride, m.rgb_to_v, inp.bit_depth, yuv_bit_depth, inp.width, inp.height),
    )
}

/// Converts RGB to YUV 4:2:0 with the sharp (iterative) downsampling: the chroma is chosen so
/// that the luminance and chroma recomputed from the YUV output, in linear light, come close
/// to those of the input. The first matrix of `yuv_matrix` gives the conversion. Returns 1.
pub fn DoSharpArgbToYuv(
    r_ptr: &[u8],
    g_ptr: &[u8],
    b_ptr: &[u8],
    rgb_step: i32,
    rgb_stride: i32,
    rgb_bit_depth: i32,
    y_ptr: &mut [u8],
    y_stride: i32,
    u_ptr: &mut [u8],
    u_stride: i32,
    v_ptr: &mut [u8],
    v_stride: i32,
    yuv_bit_depth: i32,
    width: i32,
    height: i32,
    yuv_matrix: &[SharpYuvConversionMatrix],
    transfer_type: SharpYuvTransferFunctionType,
    tables: &SharpYuvTransferTables,
) -> (r: i32)
    requires
        rgb_input(r_ptr@, g_ptr@, b_ptr@, rgb_step, rgb_stride, rgb_bit_depth, width, height).valid(tables, transfer_type),
        output_ok(
            rgb_input(r_ptr@, g_ptr@, b_ptr@, rgb_step, rgb_stride, rgb_bit_depth, width, height),
            old(y_ptr)@.len() as int,
            y_stride,
            old(u_ptr)@.len() as int,
            u_stride,
            old(v_ptr)@.len() as int,
            v_stride,
            yuv_bit_depth,
            yuv_matrix@.len() as int,
        ),
    ensures
        r == 1,
        (final(y_ptr)@, final(u_ptr)@, final(v_ptr)@) == sharp_planes(
            tables,
            rgb_input(r_ptr@, g_ptr@, b_ptr@, rgb_step, rgb_stride, rgb_bit_depth, width, height),
            transfer_type,
            old(y_ptr)@,
            y_stride,
            old(u_ptr)@,
            u_stride,
            old(v_ptr)@,
            v_stride,
            yuv_bit_depth,
            yuv_matrix@[0],
        ),
{
    let ghost inp = rgb_input(r_ptr@, g_ptr@, b_ptr@, rgb_step, rgb_stride, rgb_bit_depth, width, height);
    let w: i32 = if width % 2 == 0 { width } else { width + 1 };
    let h: i32 = if height % 2 == 0 { height } else { height + 1 };
    let uv_w: i32 = w / 2;
    let uv_h: i32 = h / 2;
    let yb: i32 = rgb_bit_depth + arith::GetPrecisionShift(rgb_bit_depth);
    assert(w == inp.w() && h == inp.h() && uv_w == inp.uv_w() && uv_h == inp.uv_h() && yb == inp.y_bit_depth());
    assert(w * h <= usize::MAX && 3 * w <= 4 * w * h) by (nonlinear_arith)
        requires 4 * w * h <= usize::MAX, w >= 1, h >= 1;
    let wu: usize = w as usize;
    let (mut best_y, tgt_y, mut best_uv, tgt_uv) = sharp_init(
        r_ptr, g_ptr, b_ptr, rgb_step, rgb_stride, rgb_bit_depth, width, height, transfer_type, tables);
    let mut src1: Vec<u16> = vec![0u16; 3 * wu];
    let mut src2: Vec<u16> = vec![0u16; 3 * wu];
    let mut best_rgb_y: Vec<u16> = vec![0u16; 2 * wu];
    let mut best_rgb_uv: Vec<i16> = vec![0i16; 3 * (uv_w as usize)];
    proof {
        assert forall|k: int| 0 <= k < uv_h implies (#[trigger] rows_view(best_y@)[k]).len() == 2 * w by {
            assert(rows_view(best_y@)[k] == initial_y(inp)[k]);
        }
        assert forall|k: int| 0 <= k < uv_h implies (#[trigger] rows_view(best_uv@)[k]).len() == 3 * uv_w by {
            assert(rows_view(best_uv@)[k] == target_uv(tables, inp, transfer_type)[k]);
        }
    }
    assert(3 * w * h <= 4 * w * h && 3 * w * h >= 0) by (nonlinear_arith)
        requires w >= 1, h >= 1;
    assert(usize::MAX <= u64::MAX);
    let thr: u64 = 3 * (w as u64) * (h as u64);
    assert(thr == diff_threshold(inp));
    let ghost final_state = iterate(tables, inp, transfer_type, initial_y(inp), target_uv(tables, inp, transfer_type), 0, u64::MAX);
    let mut prev_diff: u64 = u64::MAX;
    let mut iter: i32 = 0;
    let mut done: bool = false;
    while iter < crate::arith::kNumIterations && !done
        invariant
            inp.valid(tables, transfer_type),
            w == inp.w(),
            uv_w == inp.uv_w(),
            uv_h == inp.uv_h(),
            yb == inp.y_bit_depth(),
            thr == diff_threshold(inp),
            0 <= iter <= 4,
            rows_view(tgt_y@) == target_y(tables, inp, transfer_type),
            rows_view(tgt_uv@) == target_uv(tables, inp, transfer_type),
            rows_have_len(rows_view(best_y@), uv_h as int, 2 * w),
            rows_have_len(rows_view(best_uv@), uv_h as int, 3 * uv_w),
            src1@.len() == 3 * w,
            src2@.len() == 3 * w,
            best_rgb_y@.len() == 2 * w,
            best_rgb_uv@.len() == 3 * uv_w,
            final_state == iterate(tables, inp, transfer_type, initial_y(inp), target_uv(tables, inp, transfer_type), 0, u64::MAX),
            !done ==> iterate(tables, inp, transfer_type, rows_view(best_y@), rows_view(best_uv@), iter as int, prev_diff) == final_state,
            done ==> (rows_view(best_y@), rows_view(best_uv@)) == final_state,
        decreases 4 - iter, (if done { 0int } else { 1int }),
    {
        let ghost by_before = rows_view(best_y@);
        let ghost buv_before = rows_view(best_uv@);
        let diff: u64 = sharp_pass(
            &mut best_y, &mut best_uv, &tgt_y, &tgt_uv, &mut src1, &mut src2, &mut best_rgb_y, &mut best_rgb_uv,
            w, uv_w, uv_h, yb, transfer_type, tables, Ghost(inp));
        if iter > 0 && (diff < thr || diff > prev_diff) {
            done = true;
        } else {
            prev_diff = diff;
            iter = iter + 1;
        }
    }
    let flat_y: Vec<u16> = concat_rows_exec(&best_y);
    let flat_uv: Vec<i16> = concat_rows_exec(&best_uv);
    proof {
        lemma_concat_len(rows_view(best_y@), uv_h as int, 2 * w);
        lemma_concat_len(rows_view(best_uv@), uv_h as int, 3 * uv_w);
        assert(uv_h * (2 * w) == w * h) by (nonlinear_arith)
            requires h == 2 * uv_h;
        assert(uv_h * (3 * uv_w) == 3 * uv_w * uv_h) by (nonlinear_arith);
        if !done {
            assert(iter == 4);
        }
    }
    convert::ConvertWRGBToYUV(flat_y.as_slice(), flat_uv.as_slice(), y_ptr, y_stride, u_ptr, u_stride, v_ptr, v_stride, rgb_bit_depth, yuv_bit_depth, width, height, yuv_matrix)
}

} // verus!
