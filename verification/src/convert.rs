//! Final stage: YUV planes from the luminance and chroma-difference buffers.
use vstd::prelude::*;
use crate::arith;
use crate::rows;
use crate::types::SharpYuvConversionMatrix;

verus! {

/// Value stored for a component `y`: clamped to 8 bits (after truncation to 16 bits) for
/// 8-bit output, clamped to `yuv_bit_depth` bits otherwise.
pub open spec fn yuv_store_value(y: i32, yuv_bit_depth: i32) -> u16 {
    if yuv_bit_depth <= 8 {
        arith::clip_8b_spec((y as i16) as int) as u16
    } else {
        arith::clip_spec(y as int, arith::depth_max(yuv_bit_depth))
    }
}

/// `buf` with the values `vals` stored from byte `off`: one byte each, or two bytes each
/// (little-endian) when `wide`.
pub open spec fn store_row(buf: Seq<u8>, off: int, vals: Seq<u16>, wide: bool) -> Seq<u8> {
    Seq::new(
        buf.len(),
        |p: int|
            if wide {
                if off <= p < off + 2 * vals.len() {
                    let v = vals[(p - off) / 2];
                    if (p - off) % 2 == 0 {
                        (v % 256) as u8
                    } else {
                        (v / 256) as u8
                    }
                } else {
                    buf[p]
                }
            } else {
                if off <= p < off + vals.len() {
                    vals[p - off] as u8
                } else {
                    buf[p]
                }
            },
    )
}

/// `buf` with rows `0 .. rows` of `vals` stored, `stride` bytes apart, in that order.
pub open spec fn store_rows(buf: Seq<u8>, rows: int, stride: int, vals: spec_fn(int) -> Seq<u16>, wide: bool) -> Seq<u8>
    decreases rows,
{
    if rows <= 0 {
        buf
    } else {
        store_row(store_rows(buf, rows - 1, stride, vals, wide), (rows - 1) * stride, vals(rows - 1), wide)
    }
}

/// Bytes taken by `n` stored values.
pub open spec fn row_bytes(n: int, wide: bool) -> int {
    if wide { 2 * n } else { n }
}

/// A plane of `rows` rows of `cols` values, `stride` bytes apart, fits in `len` bytes, and so
/// does the stride after the last row.
pub open spec fn plane_fits(len: int, rows: int, cols: int, stride: i32, wide: bool) -> bool {
    &&& 0 <= stride
    &&& rows * stride <= len
    &&& (rows - 1) * stride + row_bytes(cols, wide) <= len
}

proof fn lemma_store_row_step(buf: Seq<u8>, off: int, vals: Seq<u16>, i: int, wide: bool)
    requires
        0 <= i < vals.len(),
        0 <= off,
        off + row_bytes(vals.len() as int, wide) <= buf.len(),
    ensures
        wide ==> store_row(buf, off, vals.take(i + 1), wide) == store_row(buf, off, vals.take(i), wide).update(
            off + 2 * i,
            (vals[i] % 256) as u8,
        ).update(off + 2 * i + 1, (vals[i] / 256) as u8),
        !wide ==> store_row(buf, off, vals.take(i + 1), wide) == store_row(buf, off, vals.take(i), wide).update(
            off + i,
            vals[i] as u8,
        ),
{
    let a = store_row(buf, off, vals.take(i + 1), wide);
    let b = store_row(buf, off, vals.take(i), wide);
    if wide {
        let c = b.update(off + 2 * i, (vals[i] % 256) as u8).update(off + 2 * i + 1, (vals[i] / 256) as u8);
        assert forall|p: int| 0 <= p < a.len() implies a[p] == c[p] by {
            if off <= p < off + 2 * i + 2 {
                let q = (p - off) / 2;
                assert(q <= i);
                if q < i {
                    assert(vals.take(i + 1)[q] == vals.take(i)[q]);
                }
            }
        }
        assert(a =~= c);
    } else {
        let c = b.update(off + i, vals[i] as u8);
        assert forall|p: int| 0 <= p < a.len() implies a[p] == c[p] by {
            if off <= p < off + i {
                assert(vals.take(i + 1)[p - off] == vals.take(i)[p - off]);
            }
        }
        assert(a =~= c);
    }
}

/// Stores `v` at byte `pos`: one byte, or two bytes little-endian when `wide`.
fn store_value(buf: &mut [u8], pos: usize, v: u16, wide: bool)
    requires
        pos + (if wide { 2int } else { 1int }) <= old(buf)@.len(),
    ensures
        wide ==> final(buf)@ == old(buf)@.update(pos as int, (v % 256) as u8).update(pos + 1, (v / 256) as u8),
        !wide ==> final(buf)@ == old(buf)@.update(pos as int, v as u8),
{
    if wide {
        buf[pos] = (v % 256) as u8;
        buf[pos + 1] = (v / 256) as u8;
    } else {
        buf[pos] = v as u8;
    }
}


/// Row `j` of a plane advances by `s`: `(j + 1) * s = j * s + s <= n * s`.
proof fn lemma_row_step(j: int, n: int, s: int)
    requires
        0 <= j < n,
        0 <= s,
    ensures
        (j + 1) * s == j * s + s,
        (j + 1) * s <= n * s,
        j * s <= (n - 1) * s,
        0 <= j * s,
{
    assert((j + 1) * s == j * s + s) by (nonlinear_arith);
    assert((j + 1) * s <= n * s) by (nonlinear_arith)
        requires j + 1 <= n, 0 <= s;
    assert(j * s <= (n - 1) * s) by (nonlinear_arith)
        requires j <= n - 1, 0 <= s;
    assert(0 <= j * s) by (nonlinear_arith)
        requires 0 <= j, 0 <= s;
}

/// Luminance output at row `j`, column `i`: the gray value `best_y` plus the chroma
/// differences of its 2x2 block give R, G, B, converted with `coeffs`.
pub open spec fn y_value(
    best_y: Seq<u16>,
    best_uv: Seq<i16>,
    w: int,
    uv_w: int,
    j: int,
    i: int,
    coeffs: [i32; 4],
    sfix: i32,
    yuv_bit_depth: i32,
) -> u16 {
    let gray = best_y[j * w + i] as int;
    let base = (j / 2) * (3 * uv_w) + i / 2;
    let r = (best_uv[base] + gray) as i32;
    let g = (best_uv[base + uv_w] + gray) as i32;
    let b = (best_uv[base + 2 * uv_w] + gray) as i32;
    yuv_store_value(arith::rgb_to_yuv_spec(r, g, b, coeffs, sfix), yuv_bit_depth)
}

pub open spec fn y_rows(
    best_y: Seq<u16>,
    best_uv: Seq<i16>,
    w: int,
    uv_w: int,
    ncols: int,
    coeffs: [i32; 4],
    sfix: i32,
    yuv_bit_depth: i32,
) -> spec_fn(int) -> Seq<u16> {
    |j: int| Seq::new(ncols as nat, |i: int| y_value(best_y, best_uv, w, uv_w, j, i, coeffs, sfix, yuv_bit_depth))
}

/// Chroma output (U or V, by `coeffs`) of block row `j`, column `i`.
pub open spec fn uv_value(best_uv: Seq<i16>, uv_w: int, j: int, i: int, coeffs: [i32; 4], sfix: i32, yuv_bit_depth: i32) -> u16 {
    let base = j * (3 * uv_w) + i;
    let r = best_uv[base] as i32;
    let g = best_uv[base + uv_w] as i32;
    let b = best_uv[base + 2 * uv_w] as i32;
    yuv_store_value(arith::rgb_to_yuv_spec(r, g, b, coeffs, sfix), yuv_bit_depth)
}

pub open spec fn uv_rows(best_uv: Seq<i16>, uv_w: int, ncols: int, coeffs: [i32; 4], sfix: i32, yuv_bit_depth: i32) -> spec_fn(int) -> Seq<u16> {
    |j: int| Seq::new(ncols as nat, |i: int| uv_value(best_uv, uv_w, j, i, coeffs, sfix, yuv_bit_depth))
}

/// The luminance reads stay inside `best_y` and `best_uv`, including the advance past the last row.
pub open spec fn luma_reads_ok(best_y_len: int, best_uv_len: int, w: int, uv_w: int, nrows: int, ncols: int) -> bool {
    &&& nrows * w <= best_y_len
    &&& (nrows - 1) * w + ncols <= best_y_len
    &&& (nrows / 2) * (3 * uv_w) <= best_uv_len
    &&& ((nrows - 1) / 2) * (3 * uv_w) + (ncols - 1) / 2 + 2 * uv_w < best_uv_len
}

fn yuv_value(y: i32, yuv_bit_depth: i32, yuv_max: i32) -> (v: u16)
    requires
        yuv_max == arith::depth_max(yuv_bit_depth),
    ensures
        v == yuv_store_value(y, yuv_bit_depth),
{
    if yuv_bit_depth <= 8 {
        arith::clip_8b(#[verifier::truncate] (y as i16)) as u16
    } else {
        arith::clip(y, yuv_max)
    }
}

/// Writes the luminance plane.
fn write_luma(
    best_y: &[u16],
    best_uv: &[i16],
    y_ptr: &mut [u8],
    y_stride: i32,
    w: usize,
    uv_w: usize,
    nrows: usize,
    ncols: usize,
    coeffs: [i32; 4],
    sfix: i32,
    yuv_bit_depth: i32,
)
    requires
        1 <= nrows,
        1 <= ncols,
        luma_reads_ok(best_y@.len() as int, best_uv@.len() as int, w as int, uv_w as int, nrows as int, ncols as int),
        plane_fits(old(y_ptr)@.len() as int, nrows as int, ncols as int, y_stride, !(yuv_bit_depth <= 8)),
    ensures
        final(y_ptr)@ == store_rows(
            old(y_ptr)@,
            nrows as int,
            y_stride as int,
            y_rows(best_y@, best_uv@, w as int, uv_w as int, ncols as int, coeffs, sfix, yuv_bit_depth),
            !(yuv_bit_depth <= 8),
        ),
{
    let ghost old_y = y_ptr@;
    let ghost vals = y_rows(best_y@, best_uv@, w as int, uv_w as int, ncols as int, coeffs, sfix, yuv_bit_depth);
    let wide: bool = !(yuv_bit_depth <= 8);
    let yuv_max: i32 = 1i32.wrapping_shl(yuv_bit_depth as u32).wrapping_sub(1i32);
    let stride: usize = y_stride as usize;
    let by_len: usize = best_y.len();
    let uv_len: usize = best_uv.len();
    let y_len: usize = y_ptr.len();
    let mut j: usize = 0;
    let mut by_off: usize = 0;
    let mut uv_off: usize = 0;
    let mut row_off: usize = 0;
    while j < nrows
        invariant
            j <= nrows,
            1 <= ncols,
            wide == !(yuv_bit_depth <= 8),
            yuv_max == arith::depth_max(yuv_bit_depth),
            stride == y_stride,
            luma_reads_ok(best_y@.len() as int, best_uv@.len() as int, w as int, uv_w as int, nrows as int, ncols as int),
            plane_fits(old_y.len() as int, nrows as int, ncols as int, y_stride, wide),
            by_off == j * w,
            uv_off == (j / 2) * (3 * uv_w),
            row_off == j * stride,
            y_ptr@.len() == old_y.len(),
            y_ptr@ == store_rows(old_y, j as int, stride as int, vals, wide),
            vals == y_rows(best_y@, best_uv@, w as int, uv_w as int, ncols as int, coeffs, sfix, yuv_bit_depth),
            by_len == best_y@.len(),
            uv_len == best_uv@.len(),
            y_len == old_y.len(),
        decreases nrows - j,
    {
        proof {
            lemma_row_step(j as int, nrows as int, w as int);
            lemma_row_step(j as int, nrows as int, stride as int);
            lemma_row_step((j / 2) as int, (nrows as int - 1) / 2 + 1, (3 * uv_w) as int);
        }
        let ghost start = y_ptr@;
        let mut i: usize = 0;
        while i < ncols
            invariant
                i <= ncols,
                j < nrows,
                wide == !(yuv_bit_depth <= 8),
                yuv_max == arith::depth_max(yuv_bit_depth),
                luma_reads_ok(best_y@.len() as int, best_uv@.len() as int, w as int, uv_w as int, nrows as int, ncols as int),
                plane_fits(old_y.len() as int, nrows as int, ncols as int, y_stride, wide),
                by_off == j * w,
                j * w <= (nrows - 1) * w,
                uv_off == (j / 2) * (3 * uv_w),
                (j / 2) * (3 * uv_w) <= ((nrows - 1) / 2) * (3 * uv_w),
                row_off == j * stride,
                j * stride <= (nrows - 1) * stride,
                stride == y_stride,
                start.len() == old_y.len(),
                y_ptr@ == store_row(start, row_off as int, vals(j as int).take(i as int), wide),
                vals == y_rows(best_y@, best_uv@, w as int, uv_w as int, ncols as int, coeffs, sfix, yuv_bit_depth),
                by_len == best_y@.len(),
                uv_len == best_uv@.len(),
                y_len == old_y.len(),
            decreases ncols - i,
        {
            let gray: i32 = best_y[by_off + i] as i32;
            let base: usize = uv_off + i / 2;
            let r: i32 = (best_uv[base] as i32) + gray;
            let g: i32 = (best_uv[base + uv_w] as i32) + gray;
            let b: i32 = (best_uv[base + 2 * uv_w] as i32) + gray;
            let y: i32 = arith::RGBToYUVComponent(r, g, b, coeffs, sfix);
            let v: u16 = yuv_value(y, yuv_bit_depth, yuv_max);
            proof {
                assert(v == vals(j as int)[i as int]);
                lemma_store_row_step(start, row_off as int, vals(j as int), i as int, wide);
            }
            if wide {
                store_value(y_ptr, row_off + 2 * i, v, wide);
            } else {
                store_value(y_ptr, row_off + i, v, wide);
            }
            i = i + 1;
        }
        proof {
            assert(vals(j as int).take(ncols as int) =~= vals(j as int));
        }
        by_off = by_off + w;
        if j % 2 == 1 {
            proof {
                lemma_row_step((j / 2) as int, (nrows / 2) as int, (3 * uv_w) as int);
            }
            uv_off = uv_off + 3 * uv_w;
        }
        row_off = row_off + stride;
        j = j + 1;
    }
}


/// The chroma reads stay inside `best_uv`, including the advance past the last block row.
pub open spec fn chroma_reads_ok(best_uv_len: int, uv_w: int, nrows: int, ncols: int) -> bool {
    &&& nrows * (3 * uv_w) <= best_uv_len
    &&& (nrows - 1) * (3 * uv_w) + 2 * uv_w + ncols <= best_uv_len
}

/// Writes the two chroma planes.
fn write_chroma(
    best_uv: &[i16],
    u_ptr: &mut [u8],
    u_stride: i32,
    v_ptr: &mut [u8],
    v_stride: i32,
    uv_w: usize,
    nrows: usize,
    ncols: usize,
    u_coeffs: [i32; 4],
    v_coeffs: [i32; 4],
    sfix: i32,
    yuv_bit_depth: i32,
)
    requires
        1 <= nrows,
        1 <= ncols,
        chroma_reads_ok(best_uv@.len() as int, uv_w as int, nrows as int, ncols as int),
        plane_fits(old(u_ptr)@.len() as int, nrows as int, ncols as int, u_stride, !(yuv_bit_depth <= 8)),
        plane_fits(old(v_ptr)@.len() as int, nrows as int, ncols as int, v_stride, !(yuv_bit_depth <= 8)),
    ensures
        final(u_ptr)@ == store_rows(
            old(u_ptr)@,
            nrows as int,
            u_stride as int,
            uv_rows(best_uv@, uv_w as int, ncols as int, u_coeffs, sfix, yuv_bit_depth),
            !(yuv_bit_depth <= 8),
        ),
        final(v_ptr)@ == store_rows(
            old(v_ptr)@,
            nrows as int,
            v_stride as int,
            uv_rows(best_uv@, uv_w as int, ncols as int, v_coeffs, sfix, yuv_bit_depth),
            !(yuv_bit_depth <= 8),
        ),
{
    let ghost old_u = u_ptr@;
    let ghost old_v = v_ptr@;
    let ghost uvals = uv_rows(best_uv@, uv_w as int, ncols as int, u_coeffs, sfix, yuv_bit_depth);
    let ghost vvals = uv_rows(best_uv@, uv_w as int, ncols as int, v_coeffs, sfix, yuv_bit_depth);
    let wide: bool = !(yuv_bit_depth <= 8);
    let yuv_max: i32 = 1i32.wrapping_shl(yuv_bit_depth as u32).wrapping_sub(1i32);
    let us: usize = u_stride as usize;
    let vs: usize = v_stride as usize;
    let uv_len: usize = best_uv.len();
    let u_len: usize = u_ptr.len();
    let v_len: usize = v_ptr.len();
    let mut j: usize = 0;
    let mut uv_off: usize = 0;
    let mut u_off: usize = 0;
    let mut v_off: usize = 0;
    while j < nrows
        invariant
            j <= nrows,
            1 <= ncols,
            wide == !(yuv_bit_depth <= 8),
            yuv_max == arith::depth_max(yuv_bit_depth),
            us == u_stride,
            vs == v_stride,
            chroma_reads_ok(uv_len as int, uv_w as int, nrows as int, ncols as int),
            plane_fits(u_len as int, nrows as int, ncols as int, u_stride, wide),
            plane_fits(v_len as int, nrows as int, ncols as int, v_stride, wide),
            uv_off == j * (3 * uv_w),
            u_off == j * us,
            v_off == j * vs,
            uv_len == best_uv@.len(),
            u_len == old_u.len(),
            v_len == old_v.len(),
            u_ptr@ == store_rows(old_u, j as int, us as int, uvals, wide),
            v_ptr@ == store_rows(old_v, j as int, vs as int, vvals, wide),
            u_ptr@.len() == old_u.len(),
            v_ptr@.len() == old_v.len(),
            uvals == uv_rows(best_uv@, uv_w as int, ncols as int, u_coeffs, sfix, yuv_bit_depth),
            vvals == uv_rows(best_uv@, uv_w as int, ncols as int, v_coeffs, sfix, yuv_bit_depth),
        decreases nrows - j,
    {
        proof {
            lemma_row_step(j as int, nrows as int, (3 * uv_w) as int);
            lemma_row_step(j as int, nrows as int, us as int);
            lemma_row_step(j as int, nrows as int, vs as int);
        }
        let ghost ustart = u_ptr@;
        let ghost vstart = v_ptr@;
        let mut i: usize = 0;
        while i < ncols
            invariant
                i <= ncols,
                j < nrows,
                wide == !(yuv_bit_depth <= 8),
                yuv_max == arith::depth_max(yuv_bit_depth),
                chroma_reads_ok(uv_len as int, uv_w as int, nrows as int, ncols as int),
                plane_fits(u_len as int, nrows as int, ncols as int, u_stride, wide),
                plane_fits(v_len as int, nrows as int, ncols as int, v_stride, wide),
                uv_off == j * (3 * uv_w),
                j * (3 * uv_w) <= (nrows - 1) * (3 * uv_w),
                u_off == j * us,
                j * us <= (nrows - 1) * us,
                v_off == j * vs,
                j * vs <= (nrows - 1) * vs,
                us == u_stride,
                vs == v_stride,
                uv_len == best_uv@.len(),
                u_len == old_u.len(),
                v_len == old_v.len(),
                ustart.len() == old_u.len(),
                vstart.len() == old_v.len(),
                u_ptr@ == store_row(ustart, u_off as int, uvals(j as int).take(i as int), wide),
                v_ptr@ == store_row(vstart, v_off as int, vvals(j as int).take(i as int), wide),
                uvals == uv_rows(best_uv@, uv_w as int, ncols as int, u_coeffs, sfix, yuv_bit_depth),
                vvals == uv_rows(best_uv@, uv_w as int, ncols as int, v_coeffs, sfix, yuv_bit_depth),
            decreases ncols - i,
        {
            let base: usize = uv_off + i;
            let r: i32 = best_uv[base] as i32;
            let g: i32 = best_uv[base + uv_w] as i32;
            let b: i32 = best_uv[base + 2 * uv_w] as i32;
            let u: i32 = arith::RGBToYUVComponent(r, g, b, u_coeffs, sfix);
            let v: i32 = arith::RGBToYUVComponent(r, g, b, v_coeffs, sfix);
            let uo: u16 = yuv_value(u, yuv_bit_depth, yuv_max);
            let vo: u16 = yuv_value(v, yuv_bit_depth, yuv_max);
            proof {
                assert(uo == uvals(j as int)[i as int]);
                assert(vo == vvals(j as int)[i as int]);
                lemma_store_row_step(ustart, u_off as int, uvals(j as int), i as int, wide);
                lemma_store_row_step(vstart, v_off as int, vvals(j as int), i as int, wide);
            }
            if wide {
                store_value(u_ptr, u_off + 2 * i, uo, wide);
                store_value(v_ptr, v_off + 2 * i, vo, wide);
            } else {
                store_value(u_ptr, u_off + i, uo, wide);
                store_value(v_ptr, v_off + i, vo, wide);
            }
            i = i + 1;
        }
        proof {
            assert(uvals(j as int).take(ncols as int) =~= uvals(j as int));
            assert(vvals(j as int).take(ncols as int) =~= vvals(j as int));
        }
        uv_off = uv_off + 3 * uv_w;
        u_off = u_off + us;
        v_off = v_off + vs;
        j = j + 1;
    }
}


/// The height rounded up to an even number in 32-bit wrapping arithmetic,
/// `(height + 1) & !1`: `i32::MIN` for `height == i32::MAX`.
pub open spec fn padded_height(height: i32) -> int {
    if height == i32::MAX {
        i32::MIN as int
    } else {
        rows::even_up(height)
    }
}

/// Passes of a loop that tests its condition after the body.
pub open spec fn passes(n: int) -> int {
    if n <= 0 { 1 } else { n }
}

/// The output has 16-bit samples.
pub open spec fn wide_output(yuv_bit_depth: i32) -> bool {
    !(yuv_bit_depth <= 8)
}

/// Sizes on which the output stage stays inside its slices.
pub open spec fn convert_ok(
    best_y_len: int,
    best_uv_len: int,
    y_len: int,
    y_stride: i32,
    u_len: int,
    u_stride: i32,
    v_len: int,
    v_stride: i32,
    yuv_bit_depth: i32,
    width: i32,
    height: i32,
    matrix_len: int,
) -> bool {
    let w = rows::even_up(width);
    let h = padded_height(height);
    let uv_w = w / 2;
    let uv_h = h / 2;
    let wide = wide_output(yuv_bit_depth);
    &&& -1 <= width < i32::MAX
    &&& 1 <= matrix_len
    &&& 3 * uv_w <= i32::MAX
    &&& luma_reads_ok(best_y_len, best_uv_len, w, uv_w, passes(height as int), passes(width as int))
    &&& chroma_reads_ok(best_uv_len, uv_w, passes(uv_h), passes(uv_w))
    &&& plane_fits(y_len, passes(height as int), passes(width as int), y_stride, wide)
    &&& plane_fits(u_len, passes(uv_h), passes(uv_w), u_stride, wide)
    &&& plane_fits(v_len, passes(uv_h), passes(uv_w), v_stride, wide)
}

/// The luminance plane written by the output stage into `y`.
pub open spec fn luma_plane(
    best_y: Seq<u16>,
    best_uv: Seq<i16>,
    y: Seq<u8>,
    y_stride: i32,
    rgb_bit_depth: i32,
    yuv_bit_depth: i32,
    width: i32,
    height: i32,
    m: SharpYuvConversionMatrix,
) -> Seq<u8> {
    let w = rows::even_up(width);
    store_rows(
        y,
        passes(height as int),
        y_stride as int,
        y_rows(best_y, best_uv, w, w / 2, passes(width as int), m.rgb_to_y, arith::precision_shift(rgb_bit_depth), yuv_bit_depth),
        wide_output(yuv_bit_depth),
    )
}

/// A chroma plane (U or V by `coeffs`) written by the output stage into `buf`.
pub open spec fn chroma_plane(
    best_uv: Seq<i16>,
    buf: Seq<u8>,
    stride: i32,
    coeffs: [i32; 4],
    rgb_bit_depth: i32,
    yuv_bit_depth: i32,
    width: i32,
    height: i32,
) -> Seq<u8> {
    let uv_w = rows::even_up(width) / 2;
    let uv_h = padded_height(height) / 2;
    store_rows(
        buf,
        passes(uv_h),
        stride as int,
        uv_rows(best_uv, uv_w, passes(uv_w), coeffs, arith::precision_shift(rgb_bit_depth), yuv_bit_depth),
        wide_output(yuv_bit_depth),
    )
}

/// Writes the Y, U and V planes from the luminance `best_y` (rows of `w` values) and the chroma
/// differences `best_uv` (block rows of three planes of `uv_w` values), converting with the
/// first matrix of `yuv_matrix`. Returns 1.
pub fn ConvertWRGBToYUV(
    best_y: &[u16],
    best_uv: &[i16],
    y_ptr: &mut [u8],
    y_stride: i32,
    u_ptr: &mut [u8],
    u_stride: i32,
    v_ptr: &mut [u8],
    v_stride: i32,
    rgb_bit_depth: i32,
    yuv_bit_depth: i32,
    width: i32,
    height: i32,
    yuv_matrix: &[SharpYuvConversionMatrix],
) -> (r: i32)
    requires
        convert_ok(
            best_y@.len() as int,
            best_uv@.len() as int,
            old(y_ptr)@.len() as int,
            y_stride,
            old(u_ptr)@.len() as int,
            u_stride,
            old(v_ptr)@.len() as int,
            v_stride,
            yuv_bit_depth,
            width,
            height,
            yuv_matrix@.len() as int,
        ),
    ensures
        r == 1,
        final(y_ptr)@ == luma_plane(best_y@, best_uv@, old(y_ptr)@, y_stride, rgb_bit_depth, yuv_bit_depth, width, height, yuv_matrix@[0]),
        final(u_ptr)@ == chroma_plane(best_uv@, old(u_ptr)@, u_stride, yuv_matrix@[0].rgb_to_u, rgb_bit_depth, yuv_bit_depth, width, height),
        final(v_ptr)@ == chroma_plane(best_uv@, old(v_ptr)@, v_stride, yuv_matrix@[0].rgb_to_v, rgb_bit_depth, yuv_bit_depth, width, height),
{
    let w: i32 = if width % 2 == 0 { width } else { width + 1 };
    assert(w == rows::even_up(width));
    let uv_w: i32 = w / 2;
    let sfix: i32 = arith::GetPrecisionShift(rgb_bit_depth);
    let m: SharpYuvConversionMatrix = yuv_matrix[0];
    let nrows: usize = if height <= 0 { 1 } else { height as usize };
    let ncols: usize = if width <= 0 { 1 } else { width as usize };
    write_luma(best_y, best_uv, y_ptr, y_stride, w as usize, uv_w as usize, nrows, ncols, m.rgb_to_y, sfix, yuv_bit_depth);
    let uv_rows_n: usize = if height <= 0 || height == i32::MAX { 1 } else { ((height as i64 + 1) / 2) as usize };
    assert(uv_rows_n == passes(padded_height(height) / 2));
    let uv_cols_n: usize = if uv_w <= 0 { 1 } else { uv_w as usize };
    write_chroma(best_uv, u_ptr, u_stride, v_ptr, v_stride, uv_w as usize, uv_rows_n, uv_cols_n, m.rgb_to_u, m.rgb_to_v, sfix, yuv_bit_depth);
    1i32
}

} // verus!
