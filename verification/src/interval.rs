//! Cue intervals: raw subtitle timestamp pairs normalized into ordered
//! microsecond ranges.

use vstd::prelude::*;

verus! {

/// A span of audio, in microseconds, with ordered endpoints.
#[derive(Clone, Copy, Debug, PartialEq, Eq, Structural)]
pub struct CueInterval {
    pub start_us: u64,
    pub end_us: u64,
}

impl CueInterval {
    /// Endpoints are in order.
    pub open spec fn wf(self) -> bool {
        self.start_us <= self.end_us
    }
}

/// The normal form of a raw endpoint pair: the same pair, with the endpoints
/// swapped when they were given reversed.
pub open spec fn spec_normalized(start: u64, end: u64) -> CueInterval {
    if start <= end {
        CueInterval { start_us: start, end_us: end }
    } else {
        CueInterval { start_us: end, end_us: start }
    }
}

/// Orders a raw cue endpoint pair, swapping the endpoints when they are
/// given reversed.
pub fn normalize_interval(raw_start: u64, raw_end: u64) -> (r: CueInterval)
    ensures
        r == spec_normalized(raw_start, raw_end),
        r.wf(),
{
    if raw_start > raw_end {
        CueInterval { start_us: raw_end, end_us: raw_start }
    } else {
        CueInterval { start_us: raw_start, end_us: raw_end }
    }
}

/// Normalizes every raw cue endpoint pair of a subtitle file, in order.
pub fn normalize_intervals(raw: &Vec<(u64, u64)>) -> (r: Vec<CueInterval>)
    ensures
        r@.len() == raw@.len(),
        forall|i: int| 0 <= i < raw@.len() ==> #[trigger] r@[i] == spec_normalized(
            raw@[i].0,
            raw@[i].1,
        ),
        forall|i: int| 0 <= i < raw@.len() ==> #[trigger] r@[i].wf(),
{
    let mut r: Vec<CueInterval> = Vec::new();
    let mut k: usize = 0;
    while k < raw.len()
        invariant
            k <= raw@.len(),
            r@.len() == k,
            forall|i: int| 0 <= i < k ==> #[trigger] r@[i] == spec_normalized(
                raw@[i].0,
                raw@[i].1,
            ),
        decreases raw@.len() - k,
    {
        let (s, e) = raw[k];
        r.push(normalize_interval(s, e));
        k += 1;
    }
    r
}

/// Normalization is total — every raw pair has a normal form, stated by
/// `spec_normalized` being defined on all pairs — and idempotent: the
/// normalized pair satisfies `start <= end`, and normalizing it again
/// changes nothing.
pub proof fn lemma_normalize_total_idempotent(start: u64, end: u64)
    ensures
        spec_normalized(start, end).wf(),
        spec_normalized(
            spec_normalized(start, end).start_us,
            spec_normalized(start, end).end_us,
        ) == spec_normalized(start, end),
{
}

} // verus!
