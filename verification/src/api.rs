//! Entry points: options, versions, predefined matrices and the checked conversion.
use vstd::prelude::*;
use vstd::wrapping::i32_specs;
use crate::arith;
use crate::convert;
use crate::sharp;
use crate::gamma::SharpYuvTransferTables;
use crate::types::{SharpYuvConversionMatrix, SharpYuvMatrixType, SharpYuvOptions, SharpYuvTransferFunctionType};

verus! {

/// Version of the library: major 0, minor 4, revision 2, as `(major << 24) | (minor << 16) | revision`.
pub open spec fn sharpyuv_version() -> i32 {
    0x0004_0002
}

/// Returns the version of the library.
pub fn SharpYuvGetVersion() -> (r: i32)
    ensures
        r == sharpyuv_version(),
{
    let r: i32 = 0i32.wrapping_shl(24u32) | 4i32.wrapping_shl(16u32) | 2i32;
    assert(r == 0x0004_0002i32) by (bit_vector)
        requires r == (((0i32 << 24u32) | (4i32 << 16u32)) | 2i32);
    r
}

/// A version is accepted when its major number is 0 and its minor number is 4 (any revision).
pub open spec fn version_accepted(version: i32) -> bool {
    0x0004_0000 <= version < 0x0005_0000
}

/// Fills `options[0]` with `yuv_matrix` and the sRGB transfer function, when the version the
/// caller was built against is compatible; returns 1 then, 0 otherwise (leaving `options`).
pub fn SharpYuvOptionsInitInternal<'a>(
    yuv_matrix: &'a [SharpYuvConversionMatrix],
    options: &mut [SharpYuvOptions<'a>],
    version: i32,
) -> (r: i32)
    requires
        version_accepted(version) ==> 1 <= old(options)@.len(),
    ensures
        r == (if version_accepted(version) { 1i32 } else { 0i32 }),
        version_accepted(version) ==> final(options)@ == old(options)@.update(
            0,
            SharpYuvOptions {
                yuv_matrix: yuv_matrix,
                transfer_type: SharpYuvTransferFunctionType::kSharpYuvTransferFunctionSrgb,
            },
        ),
        !version_accepted(version) ==> final(options)@ == old(options)@,
{
    let major: i32 = version.wrapping_shr(24u32);
    let minor: i32 = version.wrapping_shr(16u32) & 255i32;
    assert((major == 0 && minor == 4) <==> (0x0004_0000 <= version && version < 0x0005_0000)) by (bit_vector)
        requires major == version >> 24u32, minor == (version >> 16u32) & 255i32;
    if major != 0i32 || minor != 4i32 {
        return 0i32;
    }
    options[0] = SharpYuvOptions {
        yuv_matrix: yuv_matrix,
        transfer_type: SharpYuvTransferFunctionType::kSharpYuvTransferFunctionSrgb,
    };
    1i32
}

/// Fills `options[0]` with `yuv_matrix` and the sRGB transfer function; returns 1.
pub fn SharpYuvOptionsInit<'a>(yuv_matrix: &'a [SharpYuvConversionMatrix], options: &mut [SharpYuvOptions<'a>]) -> (r: i32)
    requires
        1 <= old(options)@.len(),
    ensures
        r == 1,
        final(options)@ == old(options)@.update(
            0,
            SharpYuvOptions {
                yuv_matrix: yuv_matrix,
                transfer_type: SharpYuvTransferFunctionType::kSharpYuvTransferFunctionSrgb,
            },
        ),
{
    let version: i32 = 0i32.wrapping_shl(24u32) | 4i32.wrapping_shl(16u32) | 2i32;
    assert(version == 0x0004_0002i32) by (bit_vector)
        requires version == (((0i32 << 24u32) | (4i32 << 16u32)) | 2i32);
    SharpYuvOptionsInitInternal(yuv_matrix, options, version)
}

/// The predefined matrices (16.16 fixed point).
pub open spec fn conversion_matrix(matrix_type: SharpYuvMatrixType) -> Option<SharpYuvConversionMatrix> {
    match matrix_type {
        SharpYuvMatrixType::kSharpYuvMatrixWebp => Some(SharpYuvConversionMatrix {
            rgb_to_y: [16839, 33059, 6420, 0x10_0000],
            rgb_to_u: [(-9719) as i32, (-19081) as i32, 28800, 0x80_0000],
            rgb_to_v: [28800, (-24116) as i32, (-4684) as i32, 0x80_0000],
        }),
        SharpYuvMatrixType::kSharpYuvMatrixRec601Limited => Some(SharpYuvConversionMatrix {
            rgb_to_y: [16829, 33039, 6416, 0x10_0000],
            rgb_to_u: [(-9714) as i32, (-19071) as i32, 28784, 0x80_0000],
            rgb_to_v: [28784, (-24103) as i32, (-4681) as i32, 0x80_0000],
        }),
        SharpYuvMatrixType::kSharpYuvMatrixRec601Full => Some(SharpYuvConversionMatrix {
            rgb_to_y: [19595, 38470, 7471, 0],
            rgb_to_u: [(-11058) as i32, (-21710) as i32, 32768, 0x80_0000],
            rgb_to_v: [32768, (-27439) as i32, (-5329) as i32, 0x80_0000],
        }),
        SharpYuvMatrixType::kSharpYuvMatrixRec709Limited => Some(SharpYuvConversionMatrix {
            rgb_to_y: [11966, 40254, 4064, 0x10_0000],
            rgb_to_u: [(-6596) as i32, (-22189) as i32, 28784, 0x80_0000],
            rgb_to_v: [28784, (-26145) as i32, (-2639) as i32, 0x80_0000],
        }),
        SharpYuvMatrixType::kSharpYuvMatrixRec709Full => Some(SharpYuvConversionMatrix {
            rgb_to_y: [13933, 46871, 4732, 0],
            rgb_to_u: [(-7509) as i32, (-25259) as i32, 32768, 0x80_0000],
            rgb_to_v: [32768, (-29763) as i32, (-3005) as i32, 0x80_0000],
        }),
        SharpYuvMatrixType::kSharpYuvMatrixNum => None,
    }
}


/// The predefined matrix of `matrix_type`, as a slice of one matrix; empty for
/// `kSharpYuvMatrixNum`, which names no matrix.
pub fn SharpYuvGetConversionMatrix(matrix_type: SharpYuvMatrixType) -> (r: Vec<SharpYuvConversionMatrix>)
    ensures
        r@ == (match conversion_matrix(matrix_type) {
            Some(m) => seq![m],
            None => Seq::<SharpYuvConversionMatrix>::empty(),
        }),
{
    let m: SharpYuvConversionMatrix = match matrix_type {
        SharpYuvMatrixType::kSharpYuvMatrixWebp => SharpYuvConversionMatrix {
            rgb_to_y: [16839, 33059, 6420, 0x10_0000],
            rgb_to_u: [-9719, -19081, 28800, 0x80_0000],
            rgb_to_v: [28800, -24116, -4684, 0x80_0000],
        },
        SharpYuvMatrixType::kSharpYuvMatrixRec601Limited => SharpYuvConversionMatrix {
            rgb_to_y: [16829, 33039, 6416, 0x10_0000],
            rgb_to_u: [-9714, -19071, 28784, 0x80_0000],
            rgb_to_v: [28784, -24103, -4681, 0x80_0000],
        },
        SharpYuvMatrixType::kSharpYuvMatrixRec601Full => SharpYuvConversionMatrix {
            rgb_to_y: [19595, 38470, 7471, 0],
            rgb_to_u: [-11058, -21710, 32768, 0x80_0000],
            rgb_to_v: [32768, -27439, -5329, 0x80_0000],
        },
        SharpYuvMatrixType::kSharpYuvMatrixRec709Limited => SharpYuvConversionMatrix {
            rgb_to_y: [11966, 40254, 4064, 0x10_0000],
            rgb_to_u: [-6596, -22189, 28784, 0x80_0000],
            rgb_to_v: [28784, -26145, -2639, 0x80_0000],
        },
        SharpYuvMatrixType::kSharpYuvMatrixRec709Full => SharpYuvConversionMatrix {
            rgb_to_y: [13933, 46871, 4732, 0],
            rgb_to_u: [-7509, -25259, 32768, 0x80_0000],
            rgb_to_v: [32768, -29763, -3005, 0x80_0000],
        },
        SharpYuvMatrixType::kSharpYuvMatrixNum => {
            return Vec::new();
        },
    };
    let r: Vec<SharpYuvConversionMatrix> = vec![m];
    assert(r@ == seq![m]);
    r
}

/// The value `x` is even.
pub open spec fn is_even(x: i32) -> bool {
    x % 2 == 0
}

/// The parameter checks of the conversion: a positive size below `i32::MAX`, a supported
/// RGB depth (8, 10, 12 or 16) and YUV depth (8, 10 or 12), and even steps and strides
/// where samples take two bytes.
pub open spec fn params_valid(
    rgb_step: i32,
    rgb_stride: i32,
    rgb_bit_depth: i32,
    y_stride: i32,
    u_stride: i32,
    v_stride: i32,
    yuv_bit_depth: i32,
    width: i32,
    height: i32,
) -> bool {
    &&& 1 <= width < i32::MAX
    &&& 1 <= height < i32::MAX
    &&& (rgb_bit_depth == 8 || rgb_bit_depth == 10 || rgb_bit_depth == 12 || rgb_bit_depth == 16)
    &&& (yuv_bit_depth == 8 || yuv_bit_depth == 10 || yuv_bit_depth == 12)
    &&& rgb_bit_depth > 8 ==> is_even(rgb_step) && is_even(rgb_stride)
    &&& yuv_bit_depth > 8 ==> is_even(y_stride) && is_even(u_stride) && is_even(v_stride)
}

/// Division rounding towards zero.
pub open spec fn trunc_div(n: int, d: int) -> int {
    if n >= 0 {
        n / d
    } else {
        -((-n) / d)
    }
}

/// A 16.16 coefficient rescaled from `rgb_bit_depth` to `yuv_bit_depth`:
/// `(c * yuv_max + rgb_round) / rgb_max` in 32-bit wrapping arithmetic, rounded towards zero.
pub open spec fn scale_coeff(c: i32, rgb_bit_depth: i32, yuv_bit_depth: i32) -> i32 {
    let rgb_max = arith::depth_max(rgb_bit_depth);
    let rgb_round = i32_specs::wrapping_shl(1i32, i32_specs::wrapping_sub(rgb_bit_depth, 1i32) as u32);
    let yuv_max = arith::depth_max(yuv_bit_depth);
    trunc_div(i32_specs::wrapping_add(i32_specs::wrapping_mul(c, yuv_max), rgb_round) as int, rgb_max as int) as i32
}

/// One row of the matrix as used by the conversion: the three weights rescaled when the
/// depths differ, the offset shifted by the precision shift of `rgb_bit_depth`.
pub open spec fn scale_row(c: [i32; 4], rgb_bit_depth: i32, yuv_bit_depth: i32) -> [i32; 4] {
    let offset = arith::shift_spec(c[3], arith::precision_shift(rgb_bit_depth));
    if rgb_bit_depth == yuv_bit_depth {
        [c[0], c[1], c[2], offset]
    } else {
        [
            scale_coeff(c[0], rgb_bit_depth, yuv_bit_depth),
            scale_coeff(c[1], rgb_bit_depth, yuv_bit_depth),
            scale_coeff(c[2], rgb_bit_depth, yuv_bit_depth),
            offset,
        ]
    }
}

/// The matrix `m` as used by the conversion from `rgb_bit_depth` to `yuv_bit_depth`.
pub open spec fn scaled_matrix(m: SharpYuvConversionMatrix, rgb_bit_depth: i32, yuv_bit_depth: i32) -> SharpYuvConversionMatrix {
    SharpYuvConversionMatrix {
        rgb_to_y: scale_row(m.rgb_to_y, rgb_bit_depth, yuv_bit_depth),
        rgb_to_u: scale_row(m.rgb_to_u, rgb_bit_depth, yuv_bit_depth),
        rgb_to_v: scale_row(m.rgb_to_v, rgb_bit_depth, yuv_bit_depth),
    }
}

/// Evaluates `params_valid`.
pub(crate) fn params_ok(
    rgb_step: i32,
    rgb_stride: i32,
    rgb_bit_depth: i32,
    y_stride: i32,
    u_stride: i32,
    v_stride: i32,
    yuv_bit_depth: i32,
    width: i32,
    height: i32,
) -> (r: bool)
    ensures
        r == params_valid(rgb_step, rgb_stride, rgb_bit_depth, y_stride, u_stride, v_stride, yuv_bit_depth, width, height),
{
    1 <= width && width < i32::MAX && 1 <= height && height < i32::MAX
        && (rgb_bit_depth == 8 || rgb_bit_depth == 10 || rgb_bit_depth == 12 || rgb_bit_depth == 16)
        && (yuv_bit_depth == 8 || yuv_bit_depth == 10 || yuv_bit_depth == 12)
        && (rgb_bit_depth <= 8 || (even(rgb_step) && even(rgb_stride)))
        && (yuv_bit_depth <= 8 || (even(y_stride) && even(u_stride) && even(v_stride)))
}

fn even(x: i32) -> (r: bool)
    ensures
        r == is_even(x),
{
    let low: i32 = x & 1i32;
    assert((low == 0) <==> (x % 2 == 0)) by (bit_vector)
        requires low == x & 1i32;
    low == 0
}

fn scale(c: i32, yuv_max: i32, rgb_round: i32, rgb_max: i32) -> (r: i32)
    requires
        rgb_max > 0,
    ensures
        r == trunc_div(i32_specs::wrapping_add(i32_specs::wrapping_mul(c, yuv_max), rgb_round) as int, rgb_max as int),
{
    let n: i64 = c.wrapping_mul(yuv_max).wrapping_add(rgb_round) as i64;
    let d: i64 = rgb_max as i64;
    if n >= 0 {
        (n / d) as i32
    } else {
        let q: i64 = (0i64 - n) / d;
        assert(q <= 0x8000_0000) by (nonlinear_arith)
            requires q as int == (0 - n) / (d as int), d >= 1, 0 - n <= 0x8000_0000;
        (0i64 - q) as i32
    }
}

fn scale_row_exec(c: [i32; 4], rgb_bit_depth: i32, yuv_bit_depth: i32) -> (r: [i32; 4])
    requires
        rgb_bit_depth == 8 || rgb_bit_depth == 10 || rgb_bit_depth == 12 || rgb_bit_depth == 16,
        yuv_bit_depth == 8 || yuv_bit_depth == 10 || yuv_bit_depth == 12,
    ensures
        r == scale_row(c, rgb_bit_depth, yuv_bit_depth),
{
    let sfix: i32 = arith::GetPrecisionShift(rgb_bit_depth);
    let offset: i32 = arith::Shift(c[3], sfix);
    if rgb_bit_depth == yuv_bit_depth {
        return [c[0], c[1], c[2], offset];
    }
    let rgb_max: i32 = 1i32.wrapping_shl(rgb_bit_depth as u32).wrapping_sub(1i32);
    let rgb_round: i32 = 1i32.wrapping_shl(rgb_bit_depth.wrapping_sub(1i32) as u32);
    let yuv_max: i32 = 1i32.wrapping_shl(yuv_bit_depth as u32).wrapping_sub(1i32);
    proof {
        arith::lemma_depth_max(rgb_bit_depth);
        assert(rgb_max == arith::depth_max(rgb_bit_depth));
        assert((1i32 << 8u32) - 1 > 0 && (1i32 << 10u32) - 1 > 0 && (1i32 << 12u32) - 1 > 0 && (1i32 << 16u32) - 1 > 0) by (bit_vector);
    }
    let r0: i32 = scale(c[0], yuv_max, rgb_round, rgb_max);
    let r1: i32 = scale(c[1], yuv_max, rgb_round, rgb_max);
    let r2: i32 = scale(c[2], yuv_max, rgb_round, rgb_max);
    [r0, r1, r2, offset]
}

/// Result and planes of `SharpYuvConvertWithOptions` on the input `inp` with the matrices
/// `yuv_matrix` and the transfer function `transfer_type`: 0 and the planes untouched on
/// refused parameters, else 1 and the planes of the sharp conversion with the first matrix
/// rescaled to the two depths.
pub open spec fn options_result(
    tables: &SharpYuvTransferTables,
    inp: sharp::RgbInput,
    yuv_matrix: Seq<SharpYuvConversionMatrix>,
    transfer_type: SharpYuvTransferFunctionType,
    y: Seq<u8>,
    y_stride: i32,
    u: Seq<u8>,
    u_stride: i32,
    v: Seq<u8>,
    v_stride: i32,
    yuv_bit_depth: i32,
) -> (i32, Seq<u8>, Seq<u8>, Seq<u8>) {
    if params_valid(inp.step, inp.stride, inp.bit_depth, y_stride, u_stride, v_stride, yuv_bit_depth, inp.width, inp.height) {
        let m = scaled_matrix(yuv_matrix[0], inp.bit_depth, yuv_bit_depth);
        let (yp, up, vp) = sharp::sharp_planes(tables, inp, transfer_type, y, y_stride, u, u_stride, v, v_stride, yuv_bit_depth, m);
        (1i32, yp, up, vp)
    } else {
        (0i32, y, u, v)
    }
}

/// Result and planes of `SharpYuvConvert`: the conversion of `inp` with the first matrix of
/// `yuv_matrix` and the sRGB transfer function.
pub open spec fn convert_result(
    tables: &SharpYuvTransferTables,
    inp: sharp::RgbInput,
    yuv_matrix: Seq<SharpYuvConversionMatrix>,
    y: Seq<u8>,
    y_stride: i32,
    u: Seq<u8>,
    u_stride: i32,
    v: Seq<u8>,
    v_stride: i32,
    yuv_bit_depth: i32,
) -> (i32, Seq<u8>, Seq<u8>, Seq<u8>) {
    let params_ok = params_valid(inp.step, inp.stride, inp.bit_depth, y_stride, u_stride, v_stride, yuv_bit_depth, inp.width, inp.height);
    if params_ok {
        let m = scaled_matrix(yuv_matrix[0], inp.bit_depth, yuv_bit_depth);
        let (by, buv) = sharp::sharp_result(tables, inp, SharpYuvTransferFunctionType::kSharpYuvTransferFunctionSrgb);
        (
            1i32,
            convert::luma_plane(by, buv, y, y_stride, inp.bit_depth, yuv_bit_depth, inp.width, inp.height, m),
            convert::chroma_plane(buv, u, u_stride, m.rgb_to_u, inp.bit_depth, yuv_bit_depth, inp.width, inp.height),
            convert::chroma_plane(buv, v, v_stride, m.rgb_to_v, inp.bit_depth, yuv_bit_depth, inp.width, inp.height),
        )
    } else {
        (0i32, y, u, v)
    }
}

/// Converts an RGB image to YUV 4:2:0 with the sharp downsampling, with the matrix and
/// transfer function of `options[0]`. Returns 0, writing nothing, when the parameters are
/// refused (see `params_valid`); else converts with the matrix rescaled to the two depths
/// (see `scaled_matrix`) and returns 1.
pub fn SharpYuvConvertWithOptions(
    r_ptr: &[u8],
    g_ptr: &[u8],
    b_ptr: &[u8],
    rgb_step: i32,
    rgb_stride: i32,
    rgb_bit_depth: i32,
    y_ptr: &mut [u8],
    y_stride: i32,
    u_ptr: &mut [u8],
    u_stride: i32,
    v_ptr: &mut [u8],
    v_stride: i32,
    yuv_bit_depth: i32,
    width: i32,
    height: i32,
    options: &[SharpYuvOptions],
    tables: &SharpYuvTransferTables,
) -> (r: i32)
    requires
        1 <= options@.len(),
        params_valid(rgb_step, rgb_stride, rgb_bit_depth, y_stride, u_stride, v_stride, yuv_bit_depth, width, height) ==> {
            let inp = sharp::rgb_input(r_ptr@, g_ptr@, b_ptr@, rgb_step, rgb_stride, rgb_bit_depth, width, height);
            &&& 1 <= options@[0].yuv_matrix@.len()
            &&& inp.valid(tables, options@[0].transfer_type)
            &&& sharp::output_ok(inp, old(y_ptr)@.len() as int, y_stride, old(u_ptr)@.len() as int, u_stride,
                old(v_ptr)@.len() as int, v_stride, yuv_bit_depth, 1)
        },
    ensures
        (r, final(y_ptr)@, final(u_ptr)@, final(v_ptr)@) == options_result(
            tables,
            sharp::rgb_input(r_ptr@, g_ptr@, b_ptr@, rgb_step, rgb_stride, rgb_bit_depth, width, height),
            options@[0].yuv_matrix@,
            options@[0].transfer_type,
            old(y_ptr)@,
            y_stride,
            old(u_ptr)@,
            u_stride,
            old(v_ptr)@,
            v_stride,
            yuv_bit_depth,
        ),
{
    let yuv_matrix: &[SharpYuvConversionMatrix] = options[0].yuv_matrix;
    let transfer_type: SharpYuvTransferFunctionType = options[0].transfer_type;
    if width < 1 || height < 1 || width == i32::MAX || height == i32::MAX {
        return 0;
    }
    if rgb_bit_depth != 8 && rgb_bit_depth != 10 && rgb_bit_depth != 12 && rgb_bit_depth != 16 {
        return 0;
    }
    if yuv_bit_depth != 8 && yuv_bit_depth != 10 && yuv_bit_depth != 12 {
        return 0;
    }
    if rgb_bit_depth > 8 && (!even(rgb_step) || !even(rgb_stride)) {
        return 0;
    }
    if yuv_bit_depth > 8 && (!even(y_stride) || !even(u_stride) || !even(v_stride)) {
        return 0;
    }
    let m: SharpYuvConversionMatrix = yuv_matrix[0];
    let scaled: SharpYuvConversionMatrix = SharpYuvConversionMatrix {
        rgb_to_y: scale_row_exec(m.rgb_to_y, rgb_bit_depth, yuv_bit_depth),
        rgb_to_u: scale_row_exec(m.rgb_to_u, rgb_bit_depth, yuv_bit_depth),
        rgb_to_v: scale_row_exec(m.rgb_to_v, rgb_bit_depth, yuv_bit_depth),
    };
    let matrices: Vec<SharpYuvConversionMatrix> = vec![scaled];
    assert(matrices@ == seq![scaled]);
    sharp::DoSharpArgbToYuv(
        r_ptr, g_ptr, b_ptr, rgb_step, rgb_stride, rgb_bit_depth,
        y_ptr, y_stride, u_ptr, u_stride, v_ptr, v_stride,
        yuv_bit_depth, width, height, matrices.as_slice(), transfer_type, tables,
    )
}

/// `SharpYuvConvertWithOptions` with the matrix `yuv_matrix[0]` and the sRGB transfer function.
pub fn SharpYuvConvert(
    r_ptr: &[u8],
    g_ptr: &[u8],
    b_ptr: &[u8],
    rgb_step: i32,
    rgb_stride: i32,
    rgb_bit_depth: i32,
    y_ptr: &mut [u8],
    y_stride: i32,
    u_ptr: &mut [u8],
    u_stride: i32,
    v_ptr: &mut [u8],
    v_stride: i32,
    yuv_bit_depth: i32,
    width: i32,
    height: i32,
    yuv_matrix: &[SharpYuvConversionMatrix],
    tables: &SharpYuvTransferTables,
) -> (r: i32)
    requires
        params_valid(rgb_step, rgb_stride, rgb_bit_depth, y_stride, u_stride, v_stride, yuv_bit_depth, width, height) ==> {
            let inp = sharp::rgb_input(r_ptr@, g_ptr@, b_ptr@, rgb_step, rgb_stride, rgb_bit_depth, width, height);
            &&& 1 <= yuv_matrix@.len()
            &&& inp.valid(tables, SharpYuvTransferFunctionType::kSharpYuvTransferFunctionSrgb)
            &&& sharp::output_ok(inp, old(y_ptr)@.len() as int, y_stride, old(u_ptr)@.len() as int, u_stride,
                old(v_ptr)@.len() as int, v_stride, yuv_bit_depth, 1)
        },
    ensures
        (r, final(y_ptr)@, final(u_ptr)@, final(v_ptr)@) == convert_result(
            tables,
            sharp::rgb_input(r_ptr@, g_ptr@, b_ptr@, rgb_step, rgb_stride, rgb_bit_depth, width, height),
            yuv_matrix@,
            old(y_ptr)@,
            y_stride,
            old(u_ptr)@,
            u_stride,
            old(v_ptr)@,
            v_stride,
            yuv_bit_depth,
        ),
{
    let options: Vec<SharpYuvOptions> = vec![SharpYuvOptions {
        yuv_matrix: yuv_matrix,
        transfer_type: SharpYuvTransferFunctionType::kSharpYuvTransferFunctionSrgb,
    }];
    SharpYuvConvertWithOptions(
        r_ptr, g_ptr, b_ptr, rgb_step, rgb_stride, rgb_bit_depth,
        y_ptr, y_stride, u_ptr, u_stride, v_ptr, v_stride,
        yuv_bit_depth, width, height, options.as_slice(), tables,
    )
}

} // verus!
