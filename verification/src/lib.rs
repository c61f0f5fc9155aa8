//! Verified core of the ETF image tools: histograms and image previews, the
//! HDRI Merge and LUT Maker editor state, and the OCIO Maker's color spaces,
//! editor state and configuration header.
use vstd::prelude::*;

pub mod hdri_merge;
pub mod histogram;
pub mod job_helpers;
pub mod lut_maker;
pub mod ocio_maker;
pub mod text;

verus! {
} // verus!
