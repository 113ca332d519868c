//! Verified core of a condensed-audio pipeline: subtitle cue intervals are
//! normalized, turned into indexed segment-extraction jobs, tracked through
//! per-job success or failure, and the surviving segments are reassembled in
//! original cue order.

pub mod digits;
pub mod filetypes;
pub mod interval;
pub mod jobs;
pub mod ledger;
pub mod naming;
pub mod reassembly;
pub mod run;

