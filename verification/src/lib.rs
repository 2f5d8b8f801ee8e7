//! Integer-side core of a short-time spectral analysis library.
//!
//! The modules here hold everything about the pipeline that is discrete:
//! frame layout and bin counts for the short-time Fourier transform,
//! the triangular mel filter-bank structure with exact rational weights,
//! the noise-template state machine of the spectral-subtraction reducer,
//! and the index policy of the log-frequency remapper.

pub mod logscale;
pub mod mel;
pub mod noise_reduction;
pub mod stft;
