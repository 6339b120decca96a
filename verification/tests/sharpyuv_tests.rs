use sharpyuv::api::{
    SharpYuvConvert, SharpYuvConvertWithOptions, SharpYuvGetConversionMatrix, SharpYuvGetVersion,
    SharpYuvOptionsInit, SharpYuvOptionsInitInternal,
};
use sharpyuv::arith::{
    clip, clip_8b, clip_bit_depth, Filter2, GetPrecisionShift, RGBToGray, RGBToYUVComponent, Shift,
};
use sharpyuv::convert::ConvertWRGBToYUV;
use sharpyuv::guard::{conversion_fits, input_fits, output_fits};
use sharpyuv::dsp::{SharpYuvFilterRow, SharpYuvInitDsp, SharpYuvUpdateRGB, SharpYuvUpdateY};
use sharpyuv::gamma::{
    FixedPointInterpolation, FromLinearSrgb, SharpYuvGammaToLinear, SharpYuvInit, SharpYuvLinearToGamma,
    SharpYuvTransferTables, ToLinearSrgb,
};
use sharpyuv::rows::{ImportOneRow, InterpolateTwoRows, ScaleDown, StoreGray, UpdateChroma, UpdateW};
use sharpyuv::sharp::DoSharpArgbToYuv;
use sharpyuv::types::{
    SharpYuvConversionMatrix, SharpYuvMatrixType, SharpYuvOptions, SharpYuvTransferFunctionType,
};

const SRGB: SharpYuvTransferFunctionType = SharpYuvTransferFunctionType::kSharpYuvTransferFunctionSrgb;
const LINEAR: SharpYuvTransferFunctionType = SharpYuvTransferFunctionType::kSharpYuvTransferFunctionLinear;

/// The sRGB tables as the library's initialisation computes them.
fn srgb_lists() -> (Vec<u32>, Vec<u32>) {
    let a: f64 = 0.0992968268094;
    let thresh: f64 = 0.0180539685108;
    let gamma_f: f64 = 1.0 / 0.45;
    let final_scale: f64 = 65536.0;
    let mut to_linear = vec![0u32; 1026];
    let norm = 1.0 / 1024.0;
    let a_rec = 1.0 / (1.0 + a);
    for v in 0..=1024usize {
        let g = norm * v as f64;
        let value = if g <= thresh * 4.5 { g / 4.5 } else { (a_rec * (g + a)).powf(gamma_f) };
        to_linear[v] = (value * final_scale + 0.5) as u32;
    }
    to_linear[1025] = to_linear[1024];
    let mut to_gamma = vec![0u32; 514];
    let scale = 1.0 / 512.0;
    for v in 0..=512usize {
        let g = scale * v as f64;
        let value = if g <= thresh { 4.5 * g } else { (1.0 + a) * g.powf(1.0 / gamma_f) - a };
        to_gamma[v] = (final_scale * value + 0.5) as u32;
    }
    to_gamma[513] = to_gamma[512];
    (to_linear, to_gamma)
}

fn srgb_tables() -> SharpYuvTransferTables {
    let (l, g) = srgb_lists();
    SharpYuvInit(l, g, SharpYuvTransferFunctionType::kSharpYuvTransferFunctionNum, 0, Vec::new(), Vec::new())
        .expect("valid tables")
}

fn webp() -> Vec<SharpYuvConversionMatrix> {
    SharpYuvGetConversionMatrix(SharpYuvMatrixType::kSharpYuvMatrixWebp)
}

#[test]
fn version_is_0_4_2() {
    assert_eq!(SharpYuvGetVersion(), 0x0004_0002);
}

#[test]
fn options_init_accepts_own_version() {
    let m = webp();
    let other = SharpYuvGetConversionMatrix(SharpYuvMatrixType::kSharpYuvMatrixRec601Full);
    let mut opts = [SharpYuvOptions { yuv_matrix: &other, transfer_type: LINEAR }];
    assert_eq!(SharpYuvOptionsInitInternal(&m, &mut opts, SharpYuvGetVersion()), 1);
    assert_eq!(opts[0].yuv_matrix[0], m[0]);
    assert_eq!(opts[0].transfer_type, SRGB);
    let mut opts2 = [SharpYuvOptions { yuv_matrix: &other, transfer_type: LINEAR }];
    assert_eq!(SharpYuvOptionsInit(&m, &mut opts2), 1);
    assert_eq!(opts2[0].yuv_matrix[0], m[0]);
    assert_eq!(opts2[0].transfer_type, SRGB);
}

#[test]
fn options_init_refuses_other_versions() {
    let m = webp();
    let other = SharpYuvGetConversionMatrix(SharpYuvMatrixType::kSharpYuvMatrixRec601Full);
    let mut opts = [SharpYuvOptions { yuv_matrix: &other, transfer_type: LINEAR }];
    assert_eq!(SharpYuvOptionsInitInternal(&m, &mut opts, 0x0005_0000), 0);
    assert_eq!(SharpYuvOptionsInitInternal(&m, &mut opts, 0x0003_0007), 0);
    assert_eq!(SharpYuvOptionsInitInternal(&m, &mut opts, 0x0104_0000), 0);
    assert_eq!(opts[0].yuv_matrix[0], other[0]);
    assert_eq!(opts[0].transfer_type, LINEAR);
    // any revision of 0.4 is accepted
    assert_eq!(SharpYuvOptionsInitInternal(&m, &mut opts, 0x0004_00ff), 1);
}

#[test]
fn predefined_matrices() {
    let m = webp();
    assert_eq!(m.len(), 1);
    assert_eq!(m[0].rgb_to_y, [16839, 33059, 6420, 16 << 16]);
    assert_eq!(m[0].rgb_to_u, [-9719, -19081, 28800, 128 << 16]);
    assert_eq!(m[0].rgb_to_v, [28800, -24116, -4684, 128 << 16]);
    let full = SharpYuvGetConversionMatrix(SharpYuvMatrixType::kSharpYuvMatrixRec601Full);
    assert_eq!(full[0].rgb_to_y, [19595, 38470, 7471, 0]);
    let r709 = SharpYuvGetConversionMatrix(SharpYuvMatrixType::kSharpYuvMatrixRec709Limited);
    assert_eq!(r709[0].rgb_to_v, [28784, -26145, -2639, 128 << 16]);
    assert!(SharpYuvGetConversionMatrix(SharpYuvMatrixType::kSharpYuvMatrixNum).is_empty());
}

#[test]
fn clip_values() {
    assert_eq!(clip(-5, 1023), 0);
    assert_eq!(clip(500, 1023), 500);
    assert_eq!(clip(5000, 1023), 1023);
    assert_eq!(clip_8b(-1), 0);
    assert_eq!(clip_8b(200), 200);
    assert_eq!(clip_8b(300), 255);
    assert_eq!(clip_bit_depth(-7, 10), 0);
    assert_eq!(clip_bit_depth(1023, 10), 1023);
    assert_eq!(clip_bit_depth(1024, 10), 1023);
    assert_eq!(clip_bit_depth(77, 8), 77);
}

#[test]
fn shift_and_precision() {
    assert_eq!(Shift(255, 2), 1020);
    assert_eq!(Shift(1020, -2), 255);
    assert_eq!(Shift(-8, -1), -4);
    assert_eq!(Shift(Shift(12345, 3), -3), 12345);
    assert_eq!(GetPrecisionShift(8), 2);
    assert_eq!(GetPrecisionShift(10), 2);
    assert_eq!(GetPrecisionShift(12), 2);
    assert_eq!(GetPrecisionShift(13), 1);
    assert_eq!(GetPrecisionShift(16), -2);
}

#[test]
fn gray_levels() {
    assert_eq!(RGBToGray(255, 0, 0), 54);
    assert_eq!(RGBToGray(100, 50, 200), 71);
    for v in [0i64, 1, 128, 1020, 16383, 65535] {
        assert_eq!(RGBToGray(v, v, v), v as i32);
    }
}

#[test]
fn yuv_component_values() {
    let y = [16839, 33059, 6420, 16 << 18];
    let u = [-9719, -19081, 28800, 128 << 18];
    assert_eq!(RGBToYUVComponent(1020, 0, 0, y, 2), 82);
    assert_eq!(RGBToYUVComponent(0, 1020, 0, u, 2), 54);
    assert_eq!(RGBToYUVComponent(512, 512, 512, y, 2), 126);
    assert_eq!(RGBToYUVComponent(512, 512, 512, u, 2), 128);
}

#[test]
fn filter2_values() {
    // (3 * 10 + 20 + 2) >> 2 = 13
    assert_eq!(Filter2(10, 20, 100, 10), 113);
    // equal taps add nothing
    assert_eq!(Filter2(7, 7, 50, 10), 57);
    assert_eq!(Filter2(-100, -100, 50, 10), 0);
    assert_eq!(Filter2(1000, 1000, 50, 10), 1023);
}

#[test]
fn fixed_point_interpolation_values() {
    let tab = [0u32, 100, 200, 400];
    // position 1, fraction 2 of 4: 100 + ((100 * 2 + 2) >> 2) = 150
    assert_eq!(FixedPointInterpolation(6, &tab, 2, 0), 150);
    assert_eq!(FixedPointInterpolation(4, &tab, 2, 0), 100);
    assert_eq!(FixedPointInterpolation(11, &tab, 2, 0), 350);
    // no fractional bits: a plain read
    assert_eq!(FixedPointInterpolation(2, &tab, 0, 0), 200);
}

#[test]
fn update_y_values() {
    // the first argument is the reference: dst moves by first - second
    let target = [12u16, 20, 25];
    let current = [10u16, 20, 30];
    let mut dst = [100u16, 0, 1020];
    let diff = SharpYuvUpdateY(&target, &current, &mut dst, 3, 10);
    assert_eq!(diff, 2 + 0 + 5);
    assert_eq!(dst, [102, 0, 1015]);
    let mut high = [1022u16];
    assert_eq!(SharpYuvUpdateY(&[15u16], &[10u16], &mut high, 1, 10), 5);
    assert_eq!(high, [1023]);
    let mut low = [3u16];
    assert_eq!(SharpYuvUpdateY(&[10u16], &[15u16], &mut low, 1, 10), 5);
    assert_eq!(low, [0]);
}

#[test]
fn update_y_fixed_point() {
    let reference = [10u16, 20, 30];
    let mut dst = [5u16, 6, 7];
    assert_eq!(SharpYuvUpdateY(&reference, &reference, &mut dst, 3, 10), 0);
    assert_eq!(dst, [5, 6, 7]);
}

#[test]
fn update_rgb_values() {
    let target = [12i16, -20, 25, 99];
    let current = [10i16, -20, 30, 0];
    let mut dst = [100i16, 0, -7, 42];
    SharpYuvUpdateRGB(&target, &current, &mut dst, 3);
    assert_eq!(dst, [102, 0, -12, 42]);
    let mut same = [1i16, 2, 3];
    SharpYuvUpdateRGB(&current[..3], &current[..3], &mut same, 3);
    assert_eq!(same, [1, 2, 3]);
}

#[test]
fn filter_row_values() {
    SharpYuvInitDsp();
    let a = [4i16, 8];
    let b = [0i16, 4];
    let best_y = [100u16, 100];
    let mut out = [0u16; 3];
    SharpYuvFilterRow(&a, &b, 1, &best_y, &mut out, 10);
    // (9 * 4 + 3 * 8 + 3 * 0 + 4 + 8) >> 4 = 4 and (9 * 8 + 3 * 4 + 3 * 4 + 0 + 8) >> 4 = 6
    assert_eq!(out, [104, 106, 0]);
    let mut clipped = [0u16; 2];
    SharpYuvFilterRow(&[-800i16, -800], &[-800i16, -800], 1, &best_y, &mut clipped, 10);
    assert_eq!(clipped, [0, 0]);
}

#[test]
fn init_checks_tables() {
    let (l, g) = srgb_lists();
    assert!(SharpYuvInit(l.clone(), g.clone(), LINEAR, 0, Vec::new(), Vec::new()).is_some());
    // wrong sizes
    assert!(SharpYuvInit(l[..1000].to_vec(), g.clone(), LINEAR, 0, Vec::new(), Vec::new()).is_none());
    assert!(SharpYuvInit(l.clone(), g[..10].to_vec(), LINEAR, 0, Vec::new(), Vec::new()).is_none());
    // a decreasing table
    let mut bad = l.clone();
    bad[10] = bad[11] + 1;
    assert!(SharpYuvInit(bad, g.clone(), LINEAR, 0, Vec::new(), Vec::new()).is_none());
    // lookup tables of the wrong size
    assert!(SharpYuvInit(l, g, SharpYuvTransferFunctionType::kSharpYuvTransferFunctionBt709, 10, vec![0], vec![0])
        .is_none());
}

/// Lookup tables of a clamping curve at `bd` bits: linear light proportional to the gamma
/// value up to the largest value of `bd` bits, constant above; the inverse, rounded.
fn clamp_luts(bd: u32) -> (Vec<u32>, Vec<u16>) {
    let max = (1u32 << bd) - 1;
    let lin: Vec<u32> = (0..=65535u32).map(|v| v.min(max) * 65535 / max).collect();
    let gam: Vec<u16> = (0..=0x2_0000u32).map(|l| ((l.min(65535) * max + 32767) / 65535) as u16).collect();
    (lin, gam)
}

#[test]
fn init_checks_lookup_tables() {
    let (l, g) = srgb_lists();
    let bt709 = SharpYuvTransferFunctionType::kSharpYuvTransferFunctionBt709;
    let hlg = SharpYuvTransferFunctionType::kSharpYuvTransferFunctionHlg;
    let (lin, gam) = clamp_luts(10);
    assert!(SharpYuvInit(l.clone(), g.clone(), bt709, 10, lin.clone(), gam.clone()).is_some());
    // a value inside the range of the bit depth above 2^17
    let mut big = lin.clone();
    big[500] = 200000;
    assert!(SharpYuvInit(l.clone(), g.clone(), hlg, 10, big.clone(), gam.clone()).is_none());
    // above the range of the bit depth, a curve that does not clamp may go above 2^17
    let mut big_out = lin.clone();
    big_out[5000] = 200000;
    assert!(SharpYuvInit(l.clone(), g.clone(), hlg, 10, big_out.clone(), gam.clone()).is_some());
    // ... but a clamping curve stays at most 65535
    assert!(SharpYuvInit(l.clone(), g.clone(), bt709, 10, big_out, gam.clone()).is_none());
    // end points: black, full scale, and the constant tail of a clamping curve
    let mut not_black = lin.clone();
    not_black[0] = 3;
    assert!(SharpYuvInit(l.clone(), g.clone(), bt709, 10, not_black.clone(), gam.clone()).is_none());
    let log100 = SharpYuvTransferFunctionType::kSharpYuvTransferFunctionLog100;
    assert!(SharpYuvInit(l.clone(), g.clone(), log100, 10, not_black, gam.clone()).is_some());
    let mut not_full = lin.clone();
    not_full[1023] = 65534;
    assert!(SharpYuvInit(l.clone(), g.clone(), bt709, 10, not_full, gam.clone()).is_none());
    let mut not_max = gam.clone();
    not_max[65535] = 1022;
    assert!(SharpYuvInit(l.clone(), g.clone(), bt709, 10, lin.clone(), not_max).is_none());
    let mut tail = gam.clone();
    tail[100000] = 7;
    assert!(SharpYuvInit(l.clone(), g.clone(), bt709, 10, lin.clone(), tail.clone()).is_none());
    assert!(SharpYuvInit(l, g, hlg, 10, lin, tail).is_some());
}

#[test]
fn supports_transfer_checks_luts() {
    let (l, g) = srgb_lists();
    let (lin, gam) = clamp_luts(10);
    let bt709 = SharpYuvTransferFunctionType::kSharpYuvTransferFunctionBt709;
    let t = SharpYuvInit(l, g, bt709, 10, lin, gam).expect("valid tables");
    assert!(t.supports_transfer(bt709, 10));
    assert!(!t.supports_transfer(bt709, 12));
    assert!(!t.supports_transfer(SharpYuvTransferFunctionType::kSharpYuvTransferFunctionHlg, 10));
    assert!(t.supports_transfer(SRGB, 12));
    // 100 * 65535 / 1023 = 6406, and back
    assert_eq!(SharpYuvGammaToLinear(100, 10, bt709, &t), 6406);
    assert_eq!(SharpYuvLinearToGamma(6406, 10, bt709, &t), 100);
    // end points
    assert_eq!(SharpYuvGammaToLinear(0, 10, bt709, &t), 0);
    assert_eq!(SharpYuvGammaToLinear(1023, 10, bt709, &t), 65535);
    assert_eq!(SharpYuvLinearToGamma(0, 10, bt709, &t), 0);
    assert_eq!(SharpYuvLinearToGamma(65535, 10, bt709, &t), 1023);
    // a gamma value above the range of 10 bits, and linear values past the table
    assert_eq!(SharpYuvGammaToLinear(60000, 10, bt709, &t), 65535);
    assert_eq!(SharpYuvLinearToGamma(4_000_000, 10, bt709, &t), 1023);
    assert_eq!(SharpYuvLinearToGamma(u32::MAX, 10, bt709, &t), 1023);
}

#[test]
fn convert_accepts_samples_above_the_range_with_lookup_tables() {
    let (l, g) = srgb_lists();
    // 10-bit input works at 12 bits
    let (lin, gam) = clamp_luts(12);
    let bt709 = SharpYuvTransferFunctionType::kSharpYuvTransferFunctionBt709;
    let t = SharpYuvInit(l, g, bt709, 12, lin, gam).expect("valid tables");
    let m = webp();
    // 2x2 picture of 10-bit samples 2000 (above 1023), little-endian
    let img = [0xd0u8, 0x07, 0xd0, 0x07, 0xd0, 0x07, 0xd0, 0x07];
    assert!(conversion_fits(&img, &img, &img, 2, 4, 10, 4, 2, 1, 1, 1, 1, 8, 2, 2, 1, bt709, &t));
    let opts = [SharpYuvOptions { yuv_matrix: &m, transfer_type: bt709 }];
    let mut y = [0u8; 4];
    let mut u = [0u8; 1];
    let mut v = [0u8; 1];
    let ok = SharpYuvConvertWithOptions(&img, &img, &img, 2, 4, 10, &mut y, 2, &mut u, 1, &mut v, 1, 8, 2, 2, &opts, &t);
    assert_eq!(ok, 1);
    assert_eq!(u, [128]);
    assert_eq!(v, [128]);
}

#[test]
fn srgb_conversions() {
    let t = srgb_tables();
    let (l, g) = srgb_lists();
    // 10 bits: a direct read of the table
    assert_eq!(ToLinearSrgb(0, 10, &t), 0);
    assert_eq!(ToLinearSrgb(1023, 10, &t), l[1023]);
    assert_eq!(ToLinearSrgb(1024, 10, &t), 65536);
    // 8 bits: the value scaled to 10 bits
    assert_eq!(ToLinearSrgb(128, 8, &t), l[512]);
    // 12 bits: interpolation between two entries
    let mid = ToLinearSrgb(4 * 300 + 2, 12, &t);
    assert_eq!(mid, l[300] + (((l[301] - l[300]) * 2 + 2) >> 2));
    assert!(l[300] <= mid && mid <= l[301]);
    // linear -> gamma, 7 fractional bits, scaled down from 16 bits
    assert_eq!(FromLinearSrgb(0, 16, &t), g[0] as u16);
    assert_eq!(FromLinearSrgb(65536, 16, &t), g[512] as u16);
    assert_eq!(FromLinearSrgb(128 * 10, 16, &t), g[10] as u16);
    assert_eq!(FromLinearSrgb(128 * 10, 10, &t), (g[10] >> 6) as u16);
    assert_eq!(SharpYuvGammaToLinear(128, 8, SRGB, &t), l[512]);
    assert_eq!(SharpYuvGammaToLinear(128, 8, LINEAR, &t), 128);
    assert_eq!(SharpYuvLinearToGamma(300, 8, LINEAR, &t), 300);
}

#[test]
fn srgb_to_linear_is_monotone() {
    let t = srgb_tables();
    for bd in [8, 10, 12, 14] {
        let max: u16 = ((1u32 << bd) - 1) as u16;
        let mut prev = 0u32;
        let mut v: u16 = 0;
        while v <= max {
            let l = ToLinearSrgb(v, bd, &t);
            assert!(l >= prev);
            assert!(l <= 65536);
            prev = l;
            if v == max {
                break;
            }
            v += 1;
        }
    }
}

#[test]
fn scale_down_of_equal_values() {
    let t = srgb_tables();
    let a = ScaleDown(512, 512, 512, 512, 10, SRGB, &t);
    let l = SharpYuvGammaToLinear(512, 10, SRGB, &t);
    assert_eq!(a, SharpYuvLinearToGamma(l, 10, SRGB, &t) as u32);
    assert_eq!(ScaleDown(1, 2, 3, 5, 10, LINEAR, &t), (1 + 2 + 3 + 5 + 2) >> 2);
}

#[test]
fn import_one_row_8_bits() {
    let r = [1u8, 0, 2, 0, 3];
    let g = [4u8, 0, 5, 0, 6];
    let b = [7u8, 0, 8, 0, 9];
    let mut dst = [0u16; 12];
    ImportOneRow(&r, &g, &b, 2, 8, 3, &mut dst);
    assert_eq!(dst, [4, 8, 12, 12, 16, 20, 24, 24, 28, 32, 36, 36]);
}

#[test]
fn import_one_row_16_bits_little_endian() {
    // two samples, two bytes each
    let r = [0x00u8, 0x01, 0x10, 0x00];
    let g = [0x04u8, 0x00, 0x00, 0x00];
    let b = [0xffu8, 0xff, 0x00, 0x04];
    let mut dst = [0u16; 6];
    ImportOneRow(&r, &g, &b, 2, 16, 2, &mut dst);
    assert_eq!(dst, [0x100 >> 2, 0x10 >> 2, 1, 0, 0xffff >> 2, 0x400 >> 2]);
}

#[test]
fn store_gray_and_update_w() {
    let t = srgb_tables();
    // one row of two pixels: R, G, B planes
    let rgb = [400u16, 100, 400, 100, 400, 100];
    let mut y = [0u16; 2];
    StoreGray(&rgb, &mut y, 2);
    assert_eq!(y, [400, 100]);
    let mut w = [0u16; 2];
    UpdateW(&rgb, &mut w, 2, 10, LINEAR, &t);
    assert_eq!(w, [400, 100]);
}

#[test]
fn update_chroma_gray_is_zero() {
    let t = srgb_tables();
    let row = [300u16, 300, 300, 300, 300, 300];
    let mut dst = [9i16; 3];
    UpdateChroma(&row, &row, &mut dst, 1, 10, SRGB, &t);
    assert_eq!(dst, [0, 0, 0]);
}

#[test]
fn interpolate_two_rows_without_chroma() {
    let best_y = [10u16, 20, 30, 40];
    let uv = [0i16; 3];
    let mut out1 = [0u16; 6];
    let mut out2 = [0u16; 6];
    InterpolateTwoRows(&best_y, &uv, &uv, &uv, 2, &mut out1, &mut out2, 10);
    assert_eq!(out1, [10, 20, 10, 20, 10, 20]);
    assert_eq!(out2, [30, 40, 30, 40, 30, 40]);
}

#[test]
fn convert_wrgb_to_yuv_gray() {
    let m = webp();
    let mut scaled = m[0];
    scaled.rgb_to_y[3] = Shift(scaled.rgb_to_y[3], 2);
    scaled.rgb_to_u[3] = Shift(scaled.rgb_to_u[3], 2);
    scaled.rgb_to_v[3] = Shift(scaled.rgb_to_v[3], 2);
    let best_y = [512u16; 4];
    let best_uv = [0i16; 3];
    let mut y = [0u8; 4];
    let mut u = [0u8; 1];
    let mut v = [0u8; 1];
    let ok = ConvertWRGBToYUV(&best_y, &best_uv, &mut y, 2, &mut u, 1, &mut v, 1, 8, 8, 2, 2, &[scaled]);
    assert_eq!(ok, 1);
    assert_eq!(y, [126; 4]);
    assert_eq!(u, [128]);
    assert_eq!(v, [128]);
}

fn gray_image(value: u8, width: usize, height: usize) -> Vec<u8> {
    vec![value; width * height]
}

#[test]
fn convert_gray_image_8_bits() {
    let t = srgb_tables();
    let m = webp();
    for (value, expected_y) in [(128u8, 126u8), (0, 16), (255, 235)] {
        let img = gray_image(value, 2, 2);
        let mut y = [0u8; 4];
        let mut u = [0u8; 1];
        let mut v = [0u8; 1];
        let ok = SharpYuvConvert(&img, &img, &img, 1, 2, 8, &mut y, 2, &mut u, 1, &mut v, 1, 8, 2, 2, &m, &t);
        assert_eq!(ok, 1);
        assert_eq!(y, [expected_y; 4]);
        assert_eq!(u, [128]);
        assert_eq!(v, [128]);
    }
}

#[test]
fn convert_keeps_padding_between_rows() {
    let t = srgb_tables();
    let m = webp();
    // 3x3 gray picture, rows 4 bytes apart
    let img = gray_image(128, 4, 4);
    let mut y = [7u8; 16];
    let mut u = [7u8; 6];
    let mut v = [7u8; 6];
    let ok = SharpYuvConvert(&img, &img, &img, 1, 4, 8, &mut y, 4, &mut u, 3, &mut v, 3, 8, 3, 3, &m, &t);
    assert_eq!(ok, 1);
    for row in 0..3 {
        assert_eq!(&y[row * 4..row * 4 + 3], &[126, 126, 126]);
        assert_eq!(y[row * 4 + 3], 7);
    }
    assert_eq!(&y[12..], &[7, 7, 7, 7]);
    assert_eq!(u, [128, 128, 7, 128, 128, 7]);
    assert_eq!(v, [128, 128, 7, 128, 128, 7]);
}

#[test]
fn convert_8_bits_to_10_bits() {
    let t = srgb_tables();
    let m = webp();
    let img = gray_image(128, 2, 2);
    let mut y = [0u8; 8];
    let mut u = [0u8; 2];
    let mut v = [0u8; 2];
    let ok = SharpYuvConvert(&img, &img, &img, 1, 2, 8, &mut y, 4, &mut u, 2, &mut v, 2, 10, 2, 2, &m, &t);
    assert_eq!(ok, 1);
    // 457 = 0x1c9, little-endian
    assert_eq!(y, [0xc9, 0x01, 0xc9, 0x01, 0xc9, 0x01, 0xc9, 0x01]);
    assert_eq!(u, [128, 0]);
    assert_eq!(v, [128, 0]);
}

#[test]
fn convert_with_options_linear() {
    let t = srgb_tables();
    let m = SharpYuvGetConversionMatrix(SharpYuvMatrixType::kSharpYuvMatrixRec601Full);
    let opts = [SharpYuvOptions { yuv_matrix: &m, transfer_type: LINEAR }];
    let img = gray_image(128, 2, 2);
    let mut y = [0u8; 4];
    let mut u = [0u8; 1];
    let mut v = [0u8; 1];
    let ok = SharpYuvConvertWithOptions(&img, &img, &img, 1, 2, 8, &mut y, 2, &mut u, 1, &mut v, 1, 8, 2, 2, &opts, &t);
    assert_eq!(ok, 1);
    assert_eq!(y, [128; 4]);
    assert_eq!(u, [128]);
    assert_eq!(v, [128]);
}

#[test]
fn convert_refuses_bad_parameters() {
    let t = srgb_tables();
    let m = webp();
    let img = gray_image(128, 4, 4);
    let mut y = [7u8; 16];
    let mut u = [7u8; 8];
    let mut v = [7u8; 8];
    // empty picture
    assert_eq!(SharpYuvConvert(&img, &img, &img, 1, 2, 8, &mut y, 2, &mut u, 1, &mut v, 1, 8, 0, 2, &m, &t), 0);
    assert_eq!(SharpYuvConvert(&img, &img, &img, 1, 2, 8, &mut y, 2, &mut u, 1, &mut v, 1, 8, 2, -1, &m, &t), 0);
    assert_eq!(SharpYuvConvert(&img, &img, &img, 1, 2, 8, &mut y, 2, &mut u, 1, &mut v, 1, 8, i32::MAX, 2, &m, &t), 0);
    // unsupported depths
    assert_eq!(SharpYuvConvert(&img, &img, &img, 1, 2, 9, &mut y, 2, &mut u, 1, &mut v, 1, 8, 2, 2, &m, &t), 0);
    assert_eq!(SharpYuvConvert(&img, &img, &img, 1, 2, 8, &mut y, 2, &mut u, 1, &mut v, 1, 16, 2, 2, &m, &t), 0);
    // odd step or stride with two-byte samples
    assert_eq!(SharpYuvConvert(&img, &img, &img, 3, 8, 10, &mut y, 2, &mut u, 1, &mut v, 1, 8, 1, 1, &m, &t), 0);
    assert_eq!(SharpYuvConvert(&img, &img, &img, 2, 8, 8, &mut y, 3, &mut u, 2, &mut v, 2, 10, 1, 1, &m, &t), 0);
    assert_eq!(y, [7u8; 16]);
    assert_eq!(u, [7u8; 8]);
    assert_eq!(v, [7u8; 8]);
}

#[test]
fn do_sharp_on_gray_picture() {
    let t = srgb_tables();
    let m = SharpYuvGetConversionMatrix(SharpYuvMatrixType::kSharpYuvMatrixRec601Full);
    let mut scaled = m[0];
    scaled.rgb_to_u[3] = Shift(scaled.rgb_to_u[3], 2);
    scaled.rgb_to_v[3] = Shift(scaled.rgb_to_v[3], 2);
    let img = gray_image(40, 2, 2);
    let mut y = [0u8; 4];
    let mut u = [0u8; 1];
    let mut v = [0u8; 1];
    let ok = DoSharpArgbToYuv(&img, &img, &img, 1, 2, 8, &mut y, 2, &mut u, 1, &mut v, 1, 8, 2, 2, &[scaled], SRGB, &t);
    assert_eq!(ok, 1);
    assert_eq!(y, [40; 4]);
    assert_eq!(u, [128]);
    assert_eq!(v, [128]);
}

#[test]
fn conversion_fits_cases() {
    let t = srgb_tables();
    let img = gray_image(128, 2, 2);
    assert!(conversion_fits(&img, &img, &img, 1, 2, 8, 4, 2, 1, 1, 1, 1, 8, 2, 2, 1, SRGB, &t));
    // luminance plane one byte short
    assert!(!conversion_fits(&img, &img, &img, 1, 2, 8, 3, 2, 1, 1, 1, 1, 8, 2, 2, 1, SRGB, &t));
    // no matrix
    assert!(!conversion_fits(&img, &img, &img, 1, 2, 8, 4, 2, 1, 1, 1, 1, 8, 2, 2, 0, SRGB, &t));
    // refused parameters read nothing
    assert!(conversion_fits(&[], &[], &[], 1, 2, 9, 0, 2, 0, 1, 0, 1, 8, 2, 2, 0, SRGB, &t));
    // input planes too short for the rows
    assert!(!input_fits(&img[..3], &img, &img, 1, 2, 8, 2, 2, SRGB, &t));
    assert!(input_fits(&img, &img, &img, 1, 2, 8, 2, 2, SRGB, &t));
    // a 10-bit sample with its high bits set falls outside the sRGB table
    let wide = [0xffu8, 0xff, 0, 0, 0, 0, 0, 0];
    assert!(!input_fits(&wide, &wide, &wide, 2, 4, 10, 1, 1, SRGB, &t));
    let ok10 = [0xffu8, 0x03, 0, 0, 0, 0, 0, 0];
    assert!(input_fits(&ok10, &ok10, &ok10, 2, 4, 10, 1, 1, SRGB, &t));
    assert!(output_fits(3, 3, 9, 3, 4, 2, 4, 2, 8));
    assert!(!output_fits(3, 3, 9, 3, 3, 2, 4, 2, 8));
    // 16-bit output takes two bytes per sample
    assert!(!output_fits(2, 2, 4, 2, 1, 1, 1, 1, 10));
    assert!(output_fits(2, 2, 8, 4, 2, 2, 2, 2, 10));
}

#[test]
fn convert_10_bit_input() {
    let t = srgb_tables();
    let m = webp();
    // 2x2 picture of 10-bit samples 512, little-endian, two bytes per sample
    let img = [0x00u8, 0x02, 0x00, 0x02, 0x00, 0x02, 0x00, 0x02];
    let mut y = [0u8; 8];
    let mut u = [0u8; 2];
    let mut v = [0u8; 2];
    let ok = SharpYuvConvert(&img, &img, &img, 2, 4, 10, &mut y, 4, &mut u, 2, &mut v, 2, 10, 2, 2, &m, &t);
    assert_eq!(ok, 1);
    // same depths: the matrix is used as it is; Y = (56318 * 2048 + 16 * 2^18 + 2^17) >> 18 = 456
    assert_eq!(y, [0xc8, 0x01, 0xc8, 0x01, 0xc8, 0x01, 0xc8, 0x01]);
    assert_eq!(u, [128, 0]);
    assert_eq!(v, [128, 0]);
}

#[test]
fn srgb_from_linear_is_monotone() {
    let t = srgb_tables();
    for bd in [8, 10, 12, 14] {
        let mut prev = 0u16;
        for l in 0..=65536u32 {
            let g = FromLinearSrgb(l, bd, &t);
            assert!(g >= prev);
            prev = g;
        }
        let (_, g) = srgb_lists();
        assert_eq!(prev as u32, g[512] >> (16 - bd));
    }
}

#[test]
fn convert_wrgb_to_yuv_negative_height_writes_one_row() {
    let m = webp();
    let mut scaled = m[0];
    scaled.rgb_to_y[3] = Shift(scaled.rgb_to_y[3], 2);
    scaled.rgb_to_u[3] = Shift(scaled.rgb_to_u[3], 2);
    scaled.rgb_to_v[3] = Shift(scaled.rgb_to_v[3], 2);
    let best_y = [512u16; 2];
    let best_uv = [0i16; 3];
    let mut y = [7u8; 4];
    let mut u = [7u8; 2];
    let mut v = [7u8; 2];
    let ok = ConvertWRGBToYUV(&best_y, &best_uv, &mut y, 2, &mut u, 1, &mut v, 1, 8, 8, 2, -3, &[scaled]);
    assert_eq!(ok, 1);
    assert_eq!(y, [126, 126, 7, 7]);
    assert_eq!(u, [128, 7]);
    assert_eq!(v, [128, 7]);
}

#[test]
fn init_checks_table_ends() {
    let (l, g) = srgb_lists();
    assert_eq!((l[0], l[1024], l[1025]), (0, 65536, 65536));
    assert_eq!((g[0], g[512], g[513]), (0, 65536, 65536));
    let mut not_black = l.clone();
    not_black[0] = 1;
    assert!(SharpYuvInit(not_black, g.clone(), LINEAR, 0, Vec::new(), Vec::new()).is_none());
    let mut not_white = l.clone();
    not_white[1024] = 65535;
    not_white[1025] = 65535;
    assert!(SharpYuvInit(not_white, g.clone(), LINEAR, 0, Vec::new(), Vec::new()).is_none());
    let mut no_repeat = g.clone();
    no_repeat[512] = 65535;
    assert!(SharpYuvInit(l, no_repeat, LINEAR, 0, Vec::new(), Vec::new()).is_none());
}

#[test]
fn srgb_black_and_white() {
    let t = srgb_tables();
    for bd in [3, 8, 10, 12, 14] {
        assert_eq!(ToLinearSrgb(0, bd, &t), 0);
        assert_eq!(FromLinearSrgb(0, bd, &t), 0);
        assert_eq!(FromLinearSrgb(65536, bd, &t) as u32, 1u32 << bd);
    }
}

#[test]
fn outside_samples_do_not_matter() {
    let t = srgb_tables();
    let m = webp();
    // 3x3 picture, 2 bytes between samples, rows 8 bytes apart
    let mut a = vec![0u8; 32];
    let mut b = vec![0xa5u8; 32];
    for row in 0..3 {
        for x in 0..3 {
            let v = (40 * row + 70 * x + 10) as u8;
            a[row * 8 + x * 2] = v;
            b[row * 8 + x * 2] = v;
        }
    }
    let run = |img: &[u8]| {
        let mut y = [0u8; 9];
        let mut u = [0u8; 4];
        let mut v = [0u8; 4];
        let ok = SharpYuvConvert(img, img, img, 2, 8, 8, &mut y, 3, &mut u, 2, &mut v, 2, 8, 3, 3, &m, &t);
        (ok, y, u, v)
    };
    assert_eq!(run(&a), run(&b));
}

#[test]
fn options_call_is_sharp_conversion_with_scaled_matrix() {
    let t = srgb_tables();
    let m = webp();
    let img: Vec<u8> = (0..16u32).map(|i| (i * 13 + 5) as u8).collect();
    let opts = [SharpYuvOptions { yuv_matrix: &m, transfer_type: SRGB }];
    let mut y1 = [0u8; 32];
    let mut u1 = [0u8; 8];
    let mut v1 = [0u8; 8];
    let r1 = SharpYuvConvertWithOptions(&img, &img, &img, 1, 4, 8, &mut y1, 8, &mut u1, 4, &mut v1, 4, 10, 4, 4, &opts, &t);
    // rescaled matrix: weights (c * 1023 + 128) / 255 rounded toward zero, offsets shifted by 2
    let scale = |c: i32| (c * 1023 + 128) / 255;
    let row = |c: [i32; 4]| [scale(c[0]), scale(c[1]), scale(c[2]), Shift(c[3], 2)];
    let scaled = SharpYuvConversionMatrix {
        rgb_to_y: row(m[0].rgb_to_y),
        rgb_to_u: row(m[0].rgb_to_u),
        rgb_to_v: row(m[0].rgb_to_v),
    };
    let mut y2 = [0u8; 32];
    let mut u2 = [0u8; 8];
    let mut v2 = [0u8; 8];
    let r2 = DoSharpArgbToYuv(&img, &img, &img, 1, 4, 8, &mut y2, 8, &mut u2, 4, &mut v2, 4, 10, 4, 4, &[scaled], SRGB, &t);
    assert_eq!((r1, y1, u1, v1), (r2, y2, u2, v2));
}

#[test]
fn convert_is_options_call_with_srgb() {
    let t = srgb_tables();
    let m = SharpYuvGetConversionMatrix(SharpYuvMatrixType::kSharpYuvMatrixRec709Full);
    let r: Vec<u8> = (0..16u32).map(|i| (i * 17) as u8).collect();
    let g: Vec<u8> = (0..16u32).map(|i| (255 - i * 9) as u8).collect();
    let b: Vec<u8> = (0..16u32).map(|i| (i * 31 % 256) as u8).collect();
    let opts = [SharpYuvOptions { yuv_matrix: &m, transfer_type: SRGB }];
    let mut y1 = [0u8; 16];
    let mut u1 = [0u8; 4];
    let mut v1 = [0u8; 4];
    let r1 = SharpYuvConvert(&r, &g, &b, 1, 4, 8, &mut y1, 4, &mut u1, 2, &mut v1, 2, 8, 4, 4, &m, &t);
    let mut y2 = [0u8; 16];
    let mut u2 = [0u8; 4];
    let mut v2 = [0u8; 4];
    let r2 = SharpYuvConvertWithOptions(&r, &g, &b, 1, 4, 8, &mut y2, 4, &mut u2, 2, &mut v2, 2, 8, 4, 4, &opts, &t);
    assert_eq!((r1, y1, u1, v1), (r2, y2, u2, v2));
}
