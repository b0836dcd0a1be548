use vstd::prelude::*;

pub mod args;
pub mod batch;
pub mod capabilities;
pub mod choices;
pub mod commands;
pub mod compare;
pub mod decoding;
pub mod emulate_run;
pub mod emulation;
pub mod encoding;
pub mod fingerprint;
pub mod field_laws;
pub mod form;
pub mod format;
pub mod laws;
pub mod media;
pub mod messages;
pub mod outcome;
pub mod output_check;
pub mod path;
pub mod pixel_format;
pub mod plan;
pub mod predict_run;
pub mod prediction;
pub mod progress;
pub mod quality;
pub mod text;
pub mod transcode_run;
pub mod vmaf;
pub mod warning;

verus! {
} // verus!
