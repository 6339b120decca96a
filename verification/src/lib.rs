//! Sharp RGB -> YUV 4:2:0 conversion: the chroma is downsampled iteratively, in linear
//! light, so that the picture recomputed from the YUV output stays close to the input.
//!
//! `api` holds the entry points, `sharp` the conversion, `rows` and `dsp` its row kernels,
//! `gamma` the transfer functions, `convert` the output stage, `guard` the run-time checks of
//! the conversion's conditions and `laws` the properties that relate the functions.
#![allow(non_snake_case)]
#![allow(non_camel_case_types)]
#![allow(non_upper_case_globals)]

pub mod types;
pub mod arith;
pub mod gamma;
pub mod dsp;
pub mod rows;
pub mod convert;
pub mod sharp;
pub mod api;
pub mod laws;
pub mod guard;
pub mod behaviour;
