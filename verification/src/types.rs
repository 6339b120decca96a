use vstd::prelude::*;

verus! {

/// CPU features a caller may query; the portable implementation uses none of them.
#[derive(PartialEq, Eq, Structural, Clone, Copy, Debug)]
pub enum CPUFeature {
    kSSE2,
    kSSE3,
    kSlowSSSE3,
    kSSE4_1,
    kAVX,
    kAVX2,
    kNEON,
    kMIPS32,
    kMIPSdspR2,
    kMSA,
}

/// Fixed-point (16.16) coefficients of an RGB -> YUV conversion. Each row holds the
/// three channel weights and an offset: `[w_r, w_g, w_b, offset]`.
#[derive(PartialEq, Eq, Clone, Copy, Debug)]
pub struct SharpYuvConversionMatrix {
    pub rgb_to_y: [i32; 4],
    pub rgb_to_u: [i32; 4],
    pub rgb_to_v: [i32; 4],
}

/// Transfer function (gamma curve) of the RGB input.
#[derive(PartialEq, Eq, Structural, Clone, Copy, Debug)]
pub enum SharpYuvTransferFunctionType {
    kSharpYuvTransferFunctionBt709,
    kSharpYuvTransferFunctionBt470M,
    kSharpYuvTransferFunctionBt470Bg,
    kSharpYuvTransferFunctionBt601,
    kSharpYuvTransferFunctionSmpte240,
    kSharpYuvTransferFunctionLinear,
    kSharpYuvTransferFunctionLog100,
    kSharpYuvTransferFunctionLog100_Sqrt10,
    kSharpYuvTransferFunctionIec61966,
    kSharpYuvTransferFunctionBt1361,
    kSharpYuvTransferFunctionSrgb,
    kSharpYuvTransferFunctionBt2020_10Bit,
    kSharpYuvTransferFunctionBt2020_12Bit,
    kSharpYuvTransferFunctionSmpte2084,
    kSharpYuvTransferFunctionSmpte428,
    kSharpYuvTransferFunctionHlg,
    kSharpYuvTransferFunctionNum,
}

/// Options of a conversion: the matrix to use and the transfer function of the input.
#[derive(Clone, Copy)]
pub struct SharpYuvOptions<'a> {
    pub yuv_matrix: &'a [SharpYuvConversionMatrix],
    pub transfer_type: SharpYuvTransferFunctionType,
}

/// The predefined conversion matrices.
#[derive(PartialEq, Eq, Structural, Clone, Copy, Debug)]
pub enum SharpYuvMatrixType {
    kSharpYuvMatrixWebp,
    kSharpYuvMatrixRec601Limited,
    kSharpYuvMatrixRec601Full,
    kSharpYuvMatrixRec709Limited,
    kSharpYuvMatrixRec709Full,
    kSharpYuvMatrixNum,
}

/// Range of the YUV output: full or limited ("studio swing").
#[derive(PartialEq, Eq, Structural, Clone, Copy, Debug)]
pub enum SharpYuvRange {
    kSharpYuvRangeFull,
    kSharpYuvRangeLimited,
}

} // verus!
