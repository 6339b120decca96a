//! Run-time evaluation of the conditions that the conversion asks of its buffers and tables,
//! for callers that cannot prove them.
use vstd::prelude::*;
use crate::api;
use crate::arith;
use crate::convert;
use crate::gamma;
use crate::rows;
use crate::sharp;
use crate::gamma::SharpYuvTransferTables;
use crate::types::SharpYuvTransferFunctionType;

verus! {

/// Column `x` of a row: its three samples lie inside the planes and convert to linear light
/// inside the tables.
pub open spec fn column_fits(
    r: Seq<u8>,
    g: Seq<u8>,
    b: Seq<u8>,
    rgb_step: i32,
    rgb_bit_depth: i32,
    x: int,
    y_bit_depth: i32,
    transfer_type: SharpYuvTransferFunctionType,
    tables: &SharpYuvTransferTables,
) -> bool {
    let off = rows::sample_offset(x, rows::import_step(rgb_step, rgb_bit_depth));
    &&& rows::sample_ok(r, off, rgb_bit_depth)
    &&& rows::sample_ok(g, off, rgb_bit_depth)
    &&& rows::sample_ok(b, off, rgb_bit_depth)
    &&& gamma::gamma_to_linear_ok(tables, rows::imported(r, x, rgb_step, rgb_bit_depth), y_bit_depth, transfer_type)
    &&& gamma::gamma_to_linear_ok(tables, rows::imported(g, x, rgb_step, rgb_bit_depth), y_bit_depth, transfer_type)
    &&& gamma::gamma_to_linear_ok(tables, rows::imported(b, x, rgb_step, rgb_bit_depth), y_bit_depth, transfer_type)
}

fn sample_fits(bytes: &[u8], off: i32, rgb_bit_depth: i32) -> (r: bool)
    ensures
        r == rows::sample_ok(bytes@, off, rgb_bit_depth),
{
    if off < 0 {
        false
    } else if rgb_bit_depth == 8 {
        (off as usize) < bytes.len()
    } else {
        (off as usize) < bytes.len() / 2
    }
}

/// Whether one row can be imported and converted to linear light.
fn row_fits(
    r: &[u8],
    g: &[u8],
    b: &[u8],
    rgb_step: i32,
    rgb_bit_depth: i32,
    width: i32,
    y_bit_depth: i32,
    transfer_type: SharpYuvTransferFunctionType,
    tables: &SharpYuvTransferTables,
) -> (ok: bool)
    requires
        1 <= width < i32::MAX,
    ensures
        ok == (rows::import_ok(r@, g@, b@, rgb_step, rgb_bit_depth, width) && rows::row_ok(
            tables,
            rows::import_values(r@, g@, b@, rgb_step, rgb_bit_depth, width),
            3 * rows::even_up(width),
            y_bit_depth,
            transfer_type,
        )),
{
    let ghost vals = rows::import_values(r@, g@, b@, rgb_step, rgb_bit_depth, width);
    let ghost w = rows::even_up(width);
    let step: i32 = if rgb_bit_depth > 8 {
        if rgb_step >= 0 { rgb_step / 2 } else { -((-(rgb_step as i64)) / 2) as i32 }
    } else {
        rgb_step
    };
    assert(step == rows::import_step(rgb_step, rgb_bit_depth));
    let shift: i32 = arith::GetPrecisionShift(rgb_bit_depth);
    let mut x: i32 = 0;
    while x < width
        invariant
            0 <= x <= width,
            width < i32::MAX,
            step == rows::import_step(rgb_step, rgb_bit_depth),
            shift == arith::precision_shift(rgb_bit_depth),
            vals == rows::import_values(r@, g@, b@, rgb_step, rgb_bit_depth, width),
            w == rows::even_up(width),
            forall|k: int| 0 <= k < x ==> #[trigger] column_fits(r@, g@, b@, rgb_step, rgb_bit_depth, k, y_bit_depth, transfer_type, tables),
        decreases width - x,
    {
        proof {
            arith::lemma_i32_product(x, step);
        }
        let off: i32 = #[verifier::truncate] (((x as i64) * (step as i64)) as i32);
        assert(off == rows::sample_offset(x as int, step));
        if !sample_fits(r, off, rgb_bit_depth) || !sample_fits(g, off, rgb_bit_depth) || !sample_fits(b, off, rgb_bit_depth) {
            assert(!rows::import_ok(r@, g@, b@, rgb_step, rgb_bit_depth, width)) by {
                assert(x < rows::n_of(width));
                assert(off == rows::sample_offset(x as int, rows::import_step(rgb_step, rgb_bit_depth)));
            }
            return false;
        }
        let vr: i32 = rows::read_sample(r, off, rgb_bit_depth);
        let vg: i32 = rows::read_sample(g, off, rgb_bit_depth);
        let vb: i32 = rows::read_sample(b, off, rgb_bit_depth);
        let lr: u16 = #[verifier::truncate] (arith::Shift(vr, shift) as u16);
        let lg: u16 = #[verifier::truncate] (arith::Shift(vg, shift) as u16);
        let lb: u16 = #[verifier::truncate] (arith::Shift(vb, shift) as u16);
        assert(lr == rows::imported(r@, x as int, rgb_step, rgb_bit_depth));
        assert(lg == rows::imported(g@, x as int, rgb_step, rgb_bit_depth));
        assert(lb == rows::imported(b@, x as int, rgb_step, rgb_bit_depth));
        let fr: bool = gamma::gamma_to_linear_fits(tables, lr, y_bit_depth, transfer_type);
        let fg: bool = gamma::gamma_to_linear_fits(tables, lg, y_bit_depth, transfer_type);
        let fb: bool = gamma::gamma_to_linear_fits(tables, lb, y_bit_depth, transfer_type);
        if !fr || !fg || !fb {
            proof {
                assert(vals[x as int] == lr);
                assert(vals[w + x] == lg);
                assert(vals[2 * w + x] == lb);
                if !fr {
                    assert(!gamma::gamma_to_linear_ok(tables, vals[x as int], y_bit_depth, transfer_type));
                } else if !fg {
                    assert(!gamma::gamma_to_linear_ok(tables, vals[w + x], y_bit_depth, transfer_type));
                } else {
                    assert(!gamma::gamma_to_linear_ok(tables, vals[2 * w + x], y_bit_depth, transfer_type));
                }
            }
            return false;
        }
        assert(column_fits(r@, g@, b@, rgb_step, rgb_bit_depth, x as int, y_bit_depth, transfer_type, tables));
        x = x + 1;
    }
    proof {
        assert forall|k: int| 0 <= k < rows::n_of(width) implies {
            let off = #[trigger] rows::sample_offset(k, rows::import_step(rgb_step, rgb_bit_depth));
            &&& rows::sample_ok(r@, off, rgb_bit_depth)
            &&& rows::sample_ok(g@, off, rgb_bit_depth)
            &&& rows::sample_ok(b@, off, rgb_bit_depth)
        } by {
            assert(column_fits(r@, g@, b@, rgb_step, rgb_bit_depth, k, y_bit_depth, transfer_type, tables));
        }
        assert forall|p: int| 0 <= p < 3 * w implies #[trigger] gamma::gamma_to_linear_ok(tables, vals[p], y_bit_depth, transfer_type) by {
            let q = if p < w { p } else if p < 2 * w { p - w } else { p - 2 * w };
            let c = if q < width { q } else { width - 1 };
            assert(column_fits(r@, g@, b@, rgb_step, rgb_bit_depth, c, y_bit_depth, transfer_type, tables));
        }
    }
    true
}

/// Whether the input planes and the tables suit a conversion: evaluates `valid` of the input.
pub fn input_fits(
    r_ptr: &[u8],
    g_ptr: &[u8],
    b_ptr: &[u8],
    rgb_step: i32,
    rgb_stride: i32,
    rgb_bit_depth: i32,
    width: i32,
    height: i32,
    transfer_type: SharpYuvTransferFunctionType,
    tables: &SharpYuvTransferTables,
) -> (ok: bool)
    ensures
        ok == sharp::rgb_input(r_ptr@, g_ptr@, b_ptr@, rgb_step, rgb_stride, rgb_bit_depth, width, height).valid(
            tables,
            transfer_type,
        ),
{
    let ghost inp = sharp::rgb_input(r_ptr@, g_ptr@, b_ptr@, rgb_step, rgb_stride, rgb_bit_depth, width, height);
    if width < 1 || width == i32::MAX || height < 1 || height == i32::MAX || rgb_bit_depth < 1 || rgb_bit_depth > 16 {
        return false;
    }
    let w: i64 = if width % 2 == 0 { width as i64 } else { width as i64 + 1 };
    let h: i64 = if height % 2 == 0 { height as i64 } else { height as i64 + 1 };
    assert(w == inp.w() && h == inp.h());
    assert(4 * w * h <= 0x4_0000_0000_0000_0000) by (nonlinear_arith)
        requires 1 <= w <= 0x8000_0000, 1 <= h <= 0x8000_0000;
    let area: u128 = 4 * (w as u128) * (h as u128);
    if area > usize::MAX as u128 {
        return false;
    }
    if 3 * w > 0x7fff_ffff {
        return false;
    }
    if rgb_stride < 0 || 2 * (rgb_stride as i64) > 0x7fff_ffff {
        return false;
    }
    assert(h * rgb_stride <= 0x8000_0000 * 0x4000_0000) by (nonlinear_arith)
        requires 1 <= h <= 0x8000_0000, 0 <= rgb_stride <= 0x4000_0000;
    let span: u128 = (h as u128) * (rgb_stride as u128);
    assert(span == 2 * inp.uv_h() * inp.stride);
    if span > r_ptr.len() as u128 || span > g_ptr.len() as u128 || span > b_ptr.len() as u128 {
        return false;
    }
    if !tables.is_well_formed() {
        return false;
    }
    let yb: i32 = rgb_bit_depth + arith::GetPrecisionShift(rgb_bit_depth);
    assert(yb == inp.y_bit_depth());
    if !tables.supports_transfer(transfer_type, yb) {
        return false;
    }
    let stride: usize = rgb_stride as usize;
    let mut row: i32 = 0;
    while row < height
        invariant
            0 <= row <= height,
            1 <= width < i32::MAX,
            1 <= height < i32::MAX,
            stride == rgb_stride,
            inp == sharp::rgb_input(r_ptr@, g_ptr@, b_ptr@, rgb_step, rgb_stride, rgb_bit_depth, width, height),
            yb == inp.y_bit_depth(),
            span == 2 * inp.uv_h() * inp.stride,
            span <= r_ptr@.len() && span <= g_ptr@.len() && span <= b_ptr@.len(),
            inp.h() == 2 * inp.uv_h(),
            height <= inp.h(),
            forall|k: int| 0 <= k < row ==> #[trigger] inp.row_readable(k),
            forall|k: int| 0 <= k < row
                ==> rows::row_ok(tables, #[trigger] inp.row(k), 3 * inp.w(), inp.y_bit_depth(), transfer_type),
        decreases height - row,
    {
        assert(row * rgb_stride <= inp.h() * rgb_stride) by (nonlinear_arith)
            requires 0 <= row <= inp.h(), 0 <= rgb_stride;
        assert(row * rgb_stride <= r_ptr@.len());
        let ru: usize = row as usize;
        assert(ru * stride <= r_ptr@.len()) by (nonlinear_arith)
            requires row * rgb_stride <= r_ptr@.len(), stride == rgb_stride, ru == row, row >= 0;
        let rlen: usize = r_ptr.len();
        assert(ru * stride <= rlen);
        let off: usize = ru * stride;
        let rs: &[u8] = &r_ptr[off..r_ptr.len()];
        let gs: &[u8] = &g_ptr[off..g_ptr.len()];
        let bs: &[u8] = &b_ptr[off..b_ptr.len()];
        let fits: bool = row_fits(rs, gs, bs, rgb_step, rgb_bit_depth, width, yb, transfer_type, tables);
        assert(inp.row(row as int) == rows::import_values(rs@, gs@, bs@, rgb_step, rgb_bit_depth, width));
        assert(inp.row_readable(row as int) == rows::import_ok(rs@, gs@, bs@, rgb_step, rgb_bit_depth, width));
        if !fits {
            return false;
        }
        row = row + 1;
    }
    true
}

fn plane_fits_exec(len: usize, nrows: i128, ncols: i128, stride: i32, wide: bool) -> (ok: bool)
    requires
        1 <= nrows <= 0x8000_0000,
        0 <= ncols <= 0x8000_0000,
    ensures
        ok == convert::plane_fits(len as int, nrows as int, ncols as int, stride, wide),
{
    if stride < 0 {
        return false;
    }
    assert(nrows * stride <= 0x8000_0000 * 0x8000_0000 && 0 <= (nrows - 1) * stride <= nrows * stride) by (nonlinear_arith)
        requires 1 <= nrows <= 0x8000_0000, 0 <= stride <= 0x8000_0000;
    let bytes: i128 = if wide { 2 * ncols } else { ncols };
    let l: i128 = len as i128;
    nrows * (stride as i128) <= l && (nrows - 1) * (stride as i128) + bytes <= l
}

/// Whether the output planes suit a conversion of a `width` x `height` picture: evaluates
/// `convert_ok` on the sizes of the working buffers.
pub fn output_fits(
    width: i32,
    height: i32,
    y_len: usize,
    y_stride: i32,
    u_len: usize,
    u_stride: i32,
    v_len: usize,
    v_stride: i32,
    yuv_bit_depth: i32,
) -> (ok: bool)
    requires
        1 <= width < i32::MAX,
        1 <= height < i32::MAX,
    ensures
        ok == convert::convert_ok(
            rows::even_up(width) * rows::even_up(height),
            3 * (rows::even_up(width) / 2) * (rows::even_up(height) / 2),
            y_len as int,
            y_stride,
            u_len as int,
            u_stride,
            v_len as int,
            v_stride,
            yuv_bit_depth,
            width,
            height,
            1,
        ),
{
    let w: i128 = if width % 2 == 0 { width as i128 } else { width as i128 + 1 };
    let h: i128 = if height % 2 == 0 { height as i128 } else { height as i128 + 1 };
    assert(w == rows::even_up(width) && h == rows::even_up(height));
    let uv_w: i128 = w / 2;
    let uv_h: i128 = h / 2;
    assert(w * h <= 0x8000_0000 * 0x8000_0000 && 3 * uv_w * uv_h <= 3 * 0x4000_0000 * 0x4000_0000) by (nonlinear_arith)
        requires 1 <= w <= 0x8000_0000, 1 <= h <= 0x8000_0000, uv_w == w / 2, uv_h == h / 2;
    let y_total: i128 = w * h;
    let uv_total: i128 = 3 * uv_w * uv_h;
    let nrows: i128 = height as i128;
    let ncols: i128 = width as i128;
    assert(nrows * w <= 0x8000_0000 * 0x8000_0000 && 0 <= (nrows - 1) * w <= nrows * w
        && 0 <= ((nrows - 1) / 2) * (3 * uv_w) <= 0x4000_0000 * 3 * 0x4000_0000 && (nrows / 2) * (3 * uv_w) <= 0x4000_0000 * 3 * 0x4000_0000
        && uv_h * (3 * uv_w) <= 3 * 0x4000_0000 * 0x4000_0000) by (nonlinear_arith)
        requires 1 <= w <= 0x8000_0000, 1 <= nrows <= 0x8000_0000, uv_w == w / 2, 1 <= h <= 0x8000_0000, uv_h == h / 2;
    let wide: bool = !(yuv_bit_depth <= 8);
    let luma: bool = nrows * w <= y_total && (nrows - 1) * w + ncols <= y_total
        && (nrows / 2) * (3 * uv_w) <= uv_total
        && ((nrows - 1) / 2) * (3 * uv_w) + (ncols - 1) / 2 + 2 * uv_w < uv_total;
    let chroma: bool = uv_h * (3 * uv_w) <= uv_total && (uv_h - 1) * (3 * uv_w) + 2 * uv_w + uv_w <= uv_total;
    3 * uv_w <= 0x7fff_ffff && luma && chroma
        && plane_fits_exec(y_len, nrows, ncols, y_stride, wide)
        && plane_fits_exec(u_len, uv_h, uv_w, u_stride, wide)
        && plane_fits_exec(v_len, uv_h, uv_w, v_stride, wide)
}

/// Whether a call of `SharpYuvConvertWithOptions` with these arguments (the output planes
/// given by their lengths, the matrix slice by its length) stays inside its buffers and
/// tables: true on refused parameters, where nothing is read; else the input, the output
/// planes and the tables must suit the conversion and the matrix slice be non-empty.
pub fn conversion_fits(
    r_ptr: &[u8],
    g_ptr: &[u8],
    b_ptr: &[u8],
    rgb_step: i32,
    rgb_stride: i32,
    rgb_bit_depth: i32,
    y_len: usize,
    y_stride: i32,
    u_len: usize,
    u_stride: i32,
    v_len: usize,
    v_stride: i32,
    yuv_bit_depth: i32,
    width: i32,
    height: i32,
    matrix_len: usize,
    transfer_type: SharpYuvTransferFunctionType,
    tables: &SharpYuvTransferTables,
) -> (ok: bool)
    ensures
        ok == (api::params_valid(rgb_step, rgb_stride, rgb_bit_depth, y_stride, u_stride, v_stride, yuv_bit_depth, width, height) ==> {
            let inp = sharp::rgb_input(r_ptr@, g_ptr@, b_ptr@, rgb_step, rgb_stride, rgb_bit_depth, width, height);
            &&& 1 <= matrix_len
            &&& inp.valid(tables, transfer_type)
            &&& sharp::output_ok(inp, y_len as int, y_stride, u_len as int, u_stride, v_len as int, v_stride, yuv_bit_depth, 1)
        }),
{
    if !api::params_ok(rgb_step, rgb_stride, rgb_bit_depth, y_stride, u_stride, v_stride, yuv_bit_depth, width, height) {
        return true;
    }
    matrix_len >= 1
        && input_fits(r_ptr, g_ptr, b_ptr, rgb_step, rgb_stride, rgb_bit_depth, width, height, transfer_type, tables)
        && output_fits(width, height, y_len, y_stride, u_len, u_stride, v_len, v_stride, yuv_bit_depth)
}

} // verus!
