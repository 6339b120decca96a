# sharpyuv

Sharp RGB to YUV 4:2:0 conversion, verified with Verus.

The converter downsamples the chroma iteratively: starting from the gray levels of the input
and the chroma of 2x2 blocks averaged in linear light, it upsamples the chroma, compares the
luminance of the reconstructed picture with that of the input (in linear light, through the
transfer function of the input) and corrects both, for up to four passes. The output stage
converts with a 16.16 fixed-point matrix to 8, 10 or 12-bit YUV.

## Layout

- `src/` — the verified library.
  - `api.rs`: version, options, predefined matrices, `SharpYuvConvert` and
    `SharpYuvConvertWithOptions` (parameter checks, matrix rescaling).
  - `sharp.rs`: the conversion (`DoSharpArgbToYuv`) and its specification as passes over
    block rows.
  - `rows.rs`, `dsp.rs`: row import, gray levels, linear-light luminance and chroma,
    upsampling filter, update steps.
  - `gamma.rs`: transfer functions. The sRGB curve is interpolated in two tables; other
    curves are read from lookup tables. The tables are computed in floating point by the
    caller and installed with `SharpYuvInit`, which checks them. A lookup table holds a
    linear value for every 16-bit sample, so that samples above the range of the bit depth
    convert too, and a gamma value for every linear value up to 2^17.
  - `convert.rs`: the YUV planes written from the working buffers.
  - `guard.rs`: run-time evaluation of the conditions that the conversion asks of its
    buffers, for callers that cannot prove them.
  - `laws.rs`: properties relating several functions.
- `tests/` — tests of the library.
- `app/` — the floating-point curves and table construction, the conversion matrix of a
  color space, and the C interface.

Samples of more than 8 bits are read and written as little-endian 16-bit values.
