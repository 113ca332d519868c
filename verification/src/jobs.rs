//! Segment jobs: ordered, indexed extraction work items, one per cue, whose
//! output file name encodes the job's ordinal.

use vstd::prelude::*;

use crate::interval::CueInterval;
use crate::naming::{segment_output_path, spec_segment_output_path};

verus! {

/// One extraction work item: the cue with this ordinal, to be written to
/// this output path.
#[derive(Clone, Debug)]
pub struct SegmentJob {
    pub index: usize,
    pub range: CueInterval,
    pub output_path: String,
}

impl SegmentJob {
    /// The job is the `index`-th job of a run with workspace `dir`: its range
    /// is ordered and its output path encodes its ordinal.
    pub open spec fn wf(self, dir: Seq<char>) -> bool {
        &&& self.range.wf()
        &&& self.output_path@ == spec_segment_output_path(dir, self.index as nat)
    }
}

/// Turns the ordered cue intervals of a run into ordered segment jobs, each
/// indexed by its position and writing under the workspace directory `dir`.
pub fn build_jobs(intervals: &Vec<CueInterval>, dir: &str) -> (jobs: Vec<SegmentJob>)
    ensures
        jobs@.len() == intervals@.len(),
        forall|i: int| 0 <= i < jobs@.len() ==> {
            &&& (#[trigger] jobs@[i]).index == i
            &&& jobs@[i].range == intervals@[i]
            &&& jobs@[i].output_path@ == spec_segment_output_path(dir@, i as nat)
        },
{
    let mut jobs: Vec<SegmentJob> = Vec::new();
    let mut k: usize = 0;
    while k < intervals.len()
        invariant
            k <= intervals@.len(),
            jobs@.len() == k,
            forall|i: int| 0 <= i < k ==> {
                &&& (#[trigger] jobs@[i]).index == i
                &&& jobs@[i].range == intervals@[i]
                &&& jobs@[i].output_path@ == spec_segment_output_path(dir@, i as nat)
            },
        decreases intervals@.len() - k,
    {
        let path = segment_output_path(dir, k);
        jobs.push(SegmentJob { index: k, range: intervals[k], output_path: path });
        k += 1;
    }
    jobs
}

} // verus!
