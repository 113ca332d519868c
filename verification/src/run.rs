//! The per-run orchestration machine. A run walks a fixed course: create a
//! private workspace, parse cues, extract one segment at a time, delete the
//! leavings of failed jobs, concatenate the survivors in original cue order,
//! remove the manifest, and always remove the workspace at the end, whatever
//! happened before. The machine decides every transition; the caller performs
//! each returned action against the outside world and reports how it went.

use vstd::prelude::*;

use crate::interval::spec_normalized;
use crate::interval::normalize_intervals;
use crate::jobs::{build_jobs, SegmentJob};
use crate::ledger::OutcomeLedger;
use crate::naming::{
    lemma_recover_segment_index, lemma_workspace_dir_name_no_slash, manifest_file_name,
    spec_manifest_file_name, spec_recovered_index, spec_segment_output_path,
    spec_workspace_dir_name, workspace_dir_name,
};
use crate::reassembly::{
    manifest_content, sort_files, sorted_by_recovered_index, spec_manifest_content, views_of,
};

verus! {

/// Why a run, or one of its parts, failed.
#[derive(Clone, Copy, Debug, PartialEq, Eq, Structural)]
pub enum RunError {
    /// The workspace directory could not be created. Fatal to the run.
    Workspace,
    /// The cue source was unreadable or malformed. Fatal, before any segment
    /// work starts.
    SubtitleParse,
    /// Final assembly failed, including the case of zero surviving segments.
    Concatenation,
}

/// Where a run stands.
#[derive(Clone, Copy, Debug, PartialEq, Eq, Structural)]
pub enum RunPhase {
    /// Waiting for the workspace directory to be created.
    CreatingWorkspace,
    /// Waiting for the cue source to be parsed.
    ParsingSubtitles,
    /// Waiting for the engine's verdict on job `next`.
    Extracting { next: usize },
    /// Waiting for the leavings of failed job entry `next` to be deleted.
    RemovingFailed { next: usize },
    /// Waiting for the engine's verdict on the concatenation.
    Concatenating,
    /// Waiting for the manifest to be removed.
    RemovingManifest,
    /// Waiting for the workspace directory to be removed.
    RemovingWorkspace,
    /// The run is over.
    Done,
}

/// What a finished run reports: its primary result, and whether some cleanup
/// step failed — reported, but never overriding the primary result.
#[derive(Clone, Copy, Debug, PartialEq, Eq)]
pub struct RunReport {
    pub result: Result<(), RunError>,
    pub cleanup_failed: bool,
}

/// The next piece of outside work the run asks for.
#[derive(Debug)]
pub enum RunAction {
    /// Create the run's private workspace directory.
    CreateWorkspace { dir: String },
    /// Parse the cue source into raw (start, end) timestamp pairs.
    ParseSubtitles { path: String },
    /// Extract `[start_us, end_us)` of audio from `source` to `output_path`.
    ExtractSegment { source: String, start_us: u64, end_us: u64, output_path: String },
    /// Delete whatever a failed job left at `path`.
    RemoveFile { path: String },
    /// Write `manifest` to `manifest_path` and run the engine's stream-copy
    /// concatenation of `inputs`, in order, into `output`.
    Concatenate { manifest_path: String, manifest: String, inputs: Vec<String>, output: String },
    /// Remove the transient manifest.
    RemoveManifest { path: String },
    /// Remove the workspace directory and everything under it.
    RemoveWorkspace { dir: String },
    /// The run is over; nothing more to do.
    Stop { report: RunReport },
}

/// The state of one run.
#[derive(Debug)]
pub struct RunState {
    pub source: String,
    pub subtitle_path: String,
    pub output_path: String,
    pub run_id: u32,
    pub phase: RunPhase,
    pub jobs: Vec<SegmentJob>,
    pub ledger: OutcomeLedger,
    pub primary: Result<(), RunError>,
    pub cleanup_failed: bool,
    /// Whether the workspace directory exists on disk right now, going by
    /// the outcomes reported so far.
    pub workspace_live: bool,
}

/// The views of the surviving output paths, in the ledger's storage order.
pub open spec fn success_path_views(ledger: OutcomeLedger) -> Seq<Seq<char>> {
    ledger.successes@.map_values(|e: (usize, String)| e.1@)
}

impl RunState {
    /// The name of this run's workspace directory.
    pub open spec fn dir_view(self) -> Seq<char> {
        spec_workspace_dir_name(self.run_id)
    }

    /// Every job is the job of its own position, writing under this run's
    /// workspace.
    pub open spec fn jobs_wf(self) -> bool {
        forall|i: int|
            0 <= i < self.jobs@.len() ==> (#[trigger] self.jobs@[i]).wf(self.dir_view())
                && self.jobs@[i].index == i
    }

    /// Every recorded outcome names the output path of the job with its own
    /// ordinal.
    pub open spec fn ledger_paths_wf(self) -> bool {
        &&& forall|i: int|
            0 <= i < self.ledger.successes@.len() ==> (#[trigger] self.ledger.successes@[i]).1@
                == spec_segment_output_path(
                self.dir_view(),
                self.ledger.successes@[i].0 as nat,
            )
        &&& forall|i: int|
            0 <= i < self.ledger.failures@.len() ==> (#[trigger] self.ledger.failures@[i]).1@
                == spec_segment_output_path(self.dir_view(), self.ledger.failures@[i].0 as nat)
    }

    /// What must hold of the state in each phase. Once the run is over, the
    /// workspace directory is gone — unless its removal itself failed, which
    /// the run then reports.
    pub open spec fn wf(self) -> bool {
        &&& (self.phase == RunPhase::Done ==> (!self.workspace_live || self.cleanup_failed))
        &&& match self.phase {
            RunPhase::CreatingWorkspace => !self.workspace_live,
            RunPhase::ParsingSubtitles => true,
            RunPhase::Extracting { next } => self.jobs_wf() && (next as nat) < self.jobs@.len()
                && self.ledger.wf(next as nat) && self.ledger_paths_wf(),
            RunPhase::RemovingFailed { next } => self.jobs_wf() && self.ledger.wf(
                self.jobs@.len() as nat,
            ) && (next as nat) < self.ledger.failures@.len() && self.ledger_paths_wf(),
            RunPhase::Concatenating => true,
            RunPhase::RemovingManifest => true,
            RunPhase::RemovingWorkspace => true,
            RunPhase::Done => true,
        }
    }

    /// Begins a run: the first action is to create the run's uniquely named
    /// workspace directory.
    pub fn start(
        source: String,
        subtitle_path: String,
        output_path: String,
        run_id: u32,
    ) -> (r: (RunState, RunAction))
        ensures
            r.0.wf(),
            r.0.phase == RunPhase::CreatingWorkspace,
            r.0.run_id == run_id,
            r.0.source == source,
            r.0.subtitle_path == subtitle_path,
            r.0.output_path == output_path,
            r.0.primary == Ok::<(), RunError>(()),
            !r.0.cleanup_failed,
            !r.0.workspace_live,
            (r.1 matches RunAction::CreateWorkspace { dir } && dir@ == spec_workspace_dir_name(
                run_id,
            )),
    {
        let dir = workspace_dir_name(run_id);
        let state = RunState {
            source,
            subtitle_path,
            output_path,
            run_id,
            phase: RunPhase::CreatingWorkspace,
            jobs: Vec::new(),
            ledger: OutcomeLedger::new(),
            primary: Ok(()),
            cleanup_failed: false,
            workspace_live: false,
        };
        (state, RunAction::CreateWorkspace { dir })
    }

    /// The workspace directory exists: go parse the cue source.
    pub fn on_workspace_created(&mut self) -> (action: RunAction)
        requires
            old(self).wf(),
            old(self).phase == RunPhase::CreatingWorkspace,
        ensures
            final(self).wf(),
            final(self).phase == RunPhase::ParsingSubtitles,
            (*final(self) == RunState {
                phase: RunPhase::ParsingSubtitles,
                workspace_live: true,
                ..*old(self)
            }),
            final(self).workspace_live,
            (action matches RunAction::ParseSubtitles { path } && path@ == old(
                self,
            ).subtitle_path@),
    {
        self.workspace_live = true;
        self.phase = RunPhase::ParsingSubtitles;
        RunAction::ParseSubtitles { path: self.subtitle_path.clone() }
    }

    /// The workspace directory could not be created: the run is over before
    /// it made anything, with nothing on disk to clean up.
    pub fn on_workspace_failed(&mut self) -> (action: RunAction)
        requires
            old(self).wf(),
            old(self).phase == RunPhase::CreatingWorkspace,
        ensures
            final(self).wf(),
            final(self).phase == RunPhase::Done,
            !final(self).workspace_live,
            final(self).cleanup_failed == old(self).cleanup_failed,
            final(self).primary == Err::<(), RunError>(RunError::Workspace),
            (action matches RunAction::Stop { report } && report.result == Err::<(), RunError>(
                RunError::Workspace,
            ) && !report.cleanup_failed),
    {
        self.phase = RunPhase::Done;
        self.primary = Err(RunError::Workspace);
        RunAction::Stop {
            report: RunReport { result: Err(RunError::Workspace), cleanup_failed: false },
        }
    }

    /// The cue source could not be parsed: fatal, before any segment work —
    /// but the workspace exists and is still removed.
    pub fn on_subtitles_failed(&mut self) -> (action: RunAction)
        requires
            old(self).wf(),
            old(self).phase == RunPhase::ParsingSubtitles,
        ensures
            final(self).wf(),
            final(self).phase == RunPhase::RemovingWorkspace,
            final(self).run_id == old(self).run_id,
            final(self).cleanup_failed == old(self).cleanup_failed,
            final(self).workspace_live == old(self).workspace_live,
            final(self).primary == Err::<(), RunError>(RunError::SubtitleParse),
            (action matches RunAction::RemoveWorkspace { dir } && dir@ == old(self).dir_view()),
    {
        self.phase = RunPhase::RemovingWorkspace;
        self.primary = Err(RunError::SubtitleParse);
        RunAction::RemoveWorkspace { dir: workspace_dir_name(self.run_id) }
    }

    /// The cue source parsed into raw timestamp pairs: normalize them, build
    /// the indexed jobs, and dispatch the first — or, with no cues at all,
    /// head straight for the zero-survivor outcome.
    pub fn on_cues_parsed(&mut self, raw: Vec<(u64, u64)>) -> (action: RunAction)
        requires
            old(self).wf(),
            old(self).phase == RunPhase::ParsingSubtitles,
        ensures
            final(self).wf(),
            final(self).run_id == old(self).run_id,
            final(self).source == old(self).source,
            final(self).subtitle_path == old(self).subtitle_path,
            final(self).output_path == old(self).output_path,
            final(self).cleanup_failed == old(self).cleanup_failed,
            final(self).workspace_live == old(self).workspace_live,
            raw@.len() > 0 ==> final(self).primary == old(self).primary,
            final(self).jobs@.len() == raw@.len(),
            forall|i: int|
                0 <= i < raw@.len() ==> (#[trigger] final(self).jobs@[i]).range == spec_normalized(
                    raw@[i].0,
                    raw@[i].1,
                ),
            raw@.len() > 0 ==> final(self).phase == (RunPhase::Extracting { next: 0 }) && (
            action matches RunAction::ExtractSegment {
                source,
                start_us,
                end_us,
                output_path,
            } && source@ == old(self).source@ && start_us == final(self).jobs@[0].range.start_us
                && end_us == final(self).jobs@[0].range.end_us && output_path@
                == spec_segment_output_path(old(self).dir_view(), 0)),
            raw@.len() == 0 ==> final(self).phase == RunPhase::RemovingWorkspace
                && final(self).primary == Err::<(), RunError>(RunError::Concatenation) && (
            action matches RunAction::RemoveWorkspace { dir } && dir@ == old(self).dir_view()),
    {
        let dir = workspace_dir_name(self.run_id);
        let intervals = normalize_intervals(&raw);
        self.jobs = build_jobs(&intervals, dir.as_str());
        self.ledger = OutcomeLedger::new();
        if self.jobs.len() > 0 {
            self.phase = RunPhase::Extracting { next: 0 };
            let job = &self.jobs[0];
            RunAction::ExtractSegment {
                source: self.source.clone(),
                start_us: job.range.start_us,
                end_us: job.range.end_us,
                output_path: job.output_path.clone(),
            }
        } else {
            // No cues means no segments can survive: an explicit
            // concatenation error, never a silent empty output.
            self.phase = RunPhase::RemovingWorkspace;
            self.primary = Err(RunError::Concatenation);
            RunAction::RemoveWorkspace { dir }
        }
    }
    /// The engine answered for job `next`: record the outcome — a failure
    /// never stops the run — and dispatch the next job, or move on to
    /// cleaning up after failed jobs and reassembly.
    pub fn on_segment_result(&mut self, ok: bool) -> (action: RunAction)
        requires
            old(self).wf(),
            (old(self).phase matches RunPhase::Extracting { .. }),
        ensures
            final(self).wf(),
            final(self).jobs == old(self).jobs,
            final(self).run_id == old(self).run_id,
            final(self).source == old(self).source,
            final(self).subtitle_path == old(self).subtitle_path,
            final(self).output_path == old(self).output_path,
            final(self).cleanup_failed == old(self).cleanup_failed,
            final(self).workspace_live == old(self).workspace_live,
            final(self).phase != RunPhase::RemovingWorkspace ==> final(self).primary == old(
                self,
            ).primary,
            (old(self).phase matches RunPhase::Extracting { next } ==> {
                &&& ok ==> success_path_views(final(self).ledger) == success_path_views(
                    old(self).ledger,
                ).push(old(self).jobs@[next as int].output_path@) && final(self).ledger.failures@
                    == old(self).ledger.failures@
                &&& !ok ==> final(self).ledger.failures@.len() == old(
                    self,
                ).ledger.failures@.len() + 1 && final(self).ledger.failures@.last().1@ == old(
                    self,
                ).jobs@[next as int].output_path@ && final(self).ledger.successes@ == old(
                    self,
                ).ledger.successes@
                &&& next as int + 1 < old(self).jobs@.len() ==> (final(self).phase
                    == RunPhase::Extracting { next: (next + 1) as usize } && (
                action matches RunAction::ExtractSegment {
                    source,
                    start_us,
                    end_us,
                    output_path,
                } && source@ == old(self).source@ && start_us == old(self).jobs@[next as int
                    + 1].range.start_us && end_us == old(self).jobs@[next as int + 1].range.end_us
                    && output_path@ == spec_segment_output_path(
                    old(self).dir_view(),
                    next as nat + 1,
                )))
                &&& next as int + 1 == old(self).jobs@.len() ==> {
                    &&& final(self).ledger.failures@.len() > 0 ==> (final(self).phase
                        == RunPhase::RemovingFailed { next: 0 } && (
                    action matches RunAction::RemoveFile { path } && path@
                        == final(self).ledger.failures@[0].1@))
                    &&& final(self).ledger.failures@.len() == 0
                        && final(self).ledger.successes@.len() == 0 ==> zero_survivor_outcome(
                        *old(self),
                        *final(self),
                        action,
                    )
                    &&& final(self).ledger.failures@.len() == 0
                        && final(self).ledger.successes@.len() > 0 ==> final(self).phase
                        == RunPhase::Concatenating && concat_action_ok(*final(self), action)
                }
            }),
    {
        let ghost pre = *self;
        let phase = self.phase;
        match phase {
            RunPhase::Extracting { next } => {
                let path = self.jobs[next].output_path.clone();
                if ok {
                    self.ledger.record_success(next, path);
                    proof {
                        let f = |e: (usize, String)| e.1@;
                        assert(success_path_views(self.ledger) =~= success_path_views(
                            pre.ledger,
                        ).push(pre.jobs@[next as int].output_path@));
                    }
                } else {
                    self.ledger.record_failure(next, path);
                }
                let jobs_len = self.jobs.len();
                proof {
                    assert((next as nat) < pre.jobs@.len());
                    assert(pre.jobs@.len() == jobs_len as nat);
                }
                let next2 = next + 1;
                if next2 < jobs_len {
                    self.phase = RunPhase::Extracting { next: next2 };
                    let job = &self.jobs[next2];
                    RunAction::ExtractSegment {
                        source: self.source.clone(),
                        start_us: job.range.start_us,
                        end_us: job.range.end_us,
                        output_path: job.output_path.clone(),
                    }
                } else {
                    if self.ledger.failures.len() > 0 {
                        self.phase = RunPhase::RemovingFailed { next: 0 };
                        RunAction::RemoveFile { path: self.ledger.failures[0].1.clone() }
                    } else {
                        self.enter_concat()
                    }
                }
            },
            _ => {
                proof {
                    assert(false);
                }
                RunAction::Stop {
                    report: RunReport { result: Ok(()), cleanup_failed: false },
                }
            },
        }
    }

    /// The leavings of failed job entry `next` were dealt with (whether the
    /// deletion itself succeeded does not matter): delete the next one, or
    /// move on to reassembly.
    pub fn on_failed_file_removed(&mut self) -> (action: RunAction)
        requires
            old(self).wf(),
            (old(self).phase matches RunPhase::RemovingFailed { .. }),
        ensures
            final(self).wf(),
            final(self).ledger == old(self).ledger,
            final(self).jobs == old(self).jobs,
            final(self).run_id == old(self).run_id,
            final(self).source == old(self).source,
            final(self).subtitle_path == old(self).subtitle_path,
            final(self).output_path == old(self).output_path,
            final(self).cleanup_failed == old(self).cleanup_failed,
            final(self).workspace_live == old(self).workspace_live,
            final(self).phase != RunPhase::RemovingWorkspace ==> final(self).primary == old(
                self,
            ).primary,
            (old(self).phase matches RunPhase::RemovingFailed { next } ==> {
                &&& next as int + 1 < old(self).ledger.failures@.len() ==> (final(self).phase
                    == RunPhase::RemovingFailed { next: (next + 1) as usize } && (
                action matches RunAction::RemoveFile { path } && path@ == old(
                    self,
                ).ledger.failures@[next as int + 1].1@))
                &&& next as int + 1 == old(self).ledger.failures@.len() ==> {
                    &&& old(self).ledger.successes@.len() == 0 ==> zero_survivor_outcome(
                        *old(self),
                        *final(self),
                        action,
                    )
                    &&& old(self).ledger.successes@.len() > 0 ==> final(self).phase
                        == RunPhase::Concatenating && concat_action_ok(*final(self), action)
                }
            }),
    {
        let phase = self.phase;
        match phase {
            RunPhase::RemovingFailed { next } => {
                let fail_len = self.ledger.failures.len();
                proof {
                    assert((next as nat) < old(self).ledger.failures@.len());
                    assert(old(self).ledger.failures@.len() == fail_len as nat);
                }
                let next2 = next + 1;
                if next2 < fail_len {
                    self.phase = RunPhase::RemovingFailed { next: next2 };
                    RunAction::RemoveFile { path: self.ledger.failures[next2].1.clone() }
                } else {
                    self.enter_concat()
                }
            },
            _ => {
                proof {
                    assert(false);
                }
                RunAction::Stop {
                    report: RunReport { result: Ok(()), cleanup_failed: false },
                }
            },
        }
    }

    /// Moves the run to reassembly: with no surviving segment the run takes
    /// an explicit concatenation error and goes straight to cleanup; with
    /// survivors it asks for their stream-copy concatenation in original cue
    /// order, recovered from the file names alone.
    fn enter_concat(&mut self) -> (action: RunAction)
        requires
            old(self).ledger_paths_wf(),
        ensures
            final(self).wf(),
            final(self).ledger == old(self).ledger,
            final(self).jobs == old(self).jobs,
            final(self).run_id == old(self).run_id,
            final(self).source == old(self).source,
            final(self).subtitle_path == old(self).subtitle_path,
            final(self).output_path == old(self).output_path,
            final(self).cleanup_failed == old(self).cleanup_failed,
            final(self).workspace_live == old(self).workspace_live,
            old(self).ledger.successes@.len() == 0 ==> zero_survivor_outcome(
                *old(self),
                *final(self),
                action,
            ),
            old(self).ledger.successes@.len() > 0 ==> final(self).phase
                == RunPhase::Concatenating && final(self).primary == old(self).primary
                && concat_action_ok(*final(self), action),
    {
        let survivors = self.ledger.success_paths();
        proof {
            assert(views_of(survivors@) =~= success_path_views(self.ledger));
        }
        if survivors.len() == 0 {
            self.phase = RunPhase::RemovingWorkspace;
            self.primary = Err(RunError::Concatenation);
            RunAction::RemoveWorkspace { dir: workspace_dir_name(self.run_id) }
        } else {
            let sorted = sort_files(survivors);
            let manifest = manifest_content(&sorted);
            self.phase = RunPhase::Concatenating;
            proof {
                broadcast use vstd::seq_lib::group_to_multiset_ensures;

                lemma_workspace_dir_name_no_slash(self.run_id);
                let led = self.ledger;
                assert forall|i: int| 0 <= i < sorted@.len() implies led.has_success(
                    spec_recovered_index((#[trigger] sorted@[i])@),
                ) by {
                    let v = sorted@[i]@;
                    assert(views_of(sorted@)[i] == v);
                    assert(views_of(sorted@).contains(v));
                    assert(views_of(sorted@).to_multiset().count(v) > 0);
                    assert(success_path_views(led).to_multiset().count(v) > 0);
                    assert(success_path_views(led).contains(v));
                    let j = choose|j: int|
                        0 <= j < success_path_views(led).len() && success_path_views(led)[j] == v;
                    assert(led.successes@[j].1@ == v);
                    lemma_recover_segment_index(
                        self.dir_view(),
                        led.successes@[j].0 as nat,
                    );
                    assert(led.successes@[j].0 as nat == spec_recovered_index(v));
                    assert(led.has_success(spec_recovered_index(v)));
                }
            }
            RunAction::Concatenate {
                manifest_path: manifest_file_name(self.run_id),
                manifest,
                inputs: sorted,
                output: self.output_path.clone(),
            }
        }
    }

    /// The engine answered for the concatenation: that verdict is the run's
    /// primary result; the manifest is removed either way.
    pub fn on_concat_result(&mut self, ok: bool) -> (action: RunAction)
        requires
            old(self).wf(),
            old(self).phase == RunPhase::Concatenating,
        ensures
            final(self).wf(),
            final(self).phase == RunPhase::RemovingManifest,
            final(self).primary == if ok {
                Ok::<(), RunError>(())
            } else {
                Err::<(), RunError>(RunError::Concatenation)
            },
            final(self).cleanup_failed == old(self).cleanup_failed,
            final(self).run_id == old(self).run_id,
            final(self).workspace_live == old(self).workspace_live,
            (action matches RunAction::RemoveManifest { path } && path@ == spec_manifest_file_name(
                old(self).run_id,
            )),
    {
        self.primary = if ok {
            Ok(())
        } else {
            Err(RunError::Concatenation)
        };
        self.phase = RunPhase::RemovingManifest;
        RunAction::RemoveManifest { path: manifest_file_name(self.run_id) }
    }

    /// The manifest removal came back: a failure is noted but changes
    /// nothing else; the workspace is removed next, whatever happened.
    pub fn on_manifest_removed(&mut self, ok: bool) -> (action: RunAction)
        requires
            old(self).wf(),
            old(self).phase == RunPhase::RemovingManifest,
        ensures
            final(self).wf(),
            final(self).phase == RunPhase::RemovingWorkspace,
            final(self).primary == old(self).primary,
            final(self).cleanup_failed == (old(self).cleanup_failed || !ok),
            final(self).run_id == old(self).run_id,
            final(self).workspace_live == old(self).workspace_live,
            (action matches RunAction::RemoveWorkspace { dir } && dir@ == old(self).dir_view()),
    {
        if !ok {
            self.cleanup_failed = true;
        }
        self.phase = RunPhase::RemovingWorkspace;
        RunAction::RemoveWorkspace { dir: workspace_dir_name(self.run_id) }
    }

    /// The workspace removal came back and the run is over. A cleanup
    /// failure is reported in the run's report but never overrides the
    /// primary result.
    pub fn on_workspace_removed(&mut self, ok: bool) -> (action: RunAction)
        requires
            old(self).wf(),
            old(self).phase == RunPhase::RemovingWorkspace,
        ensures
            final(self).wf(),
            final(self).phase == RunPhase::Done,
            final(self).primary == old(self).primary,
            ok ==> !final(self).workspace_live,
            !final(self).workspace_live || final(self).cleanup_failed,
            (action matches RunAction::Stop { report } && report.result == old(self).primary
                && report.cleanup_failed == (old(self).cleanup_failed || !ok)),
    {
        if ok {
            self.workspace_live = false;
        } else {
            self.cleanup_failed = true;
        }
        self.phase = RunPhase::Done;
        RunAction::Stop {
            report: RunReport { result: self.primary, cleanup_failed: self.cleanup_failed },
        }
    }
}

/// The reassembly the machine asks for when survivors exist: the manifest
/// under this run's manifest name; the inputs a rearrangement of the
/// ledger's surviving paths into ascending order of their recovered
/// ordinals — whatever order the ledger held them in; the manifest listing
/// exactly those inputs, in that order; the output the run's output path.
pub open spec fn concat_action_ok(s: RunState, action: RunAction) -> bool {
    action matches RunAction::Concatenate { manifest_path, manifest, inputs, output } && {
        &&& manifest_path@ == spec_manifest_file_name(s.run_id)
        &&& inputs@.len() == s.ledger.successes@.len()
        &&& views_of(inputs@).to_multiset() == success_path_views(s.ledger).to_multiset()
        &&& sorted_by_recovered_index(inputs@)
        &&& forall|i: int|
            0 <= i < inputs@.len() ==> s.ledger.has_success(
                spec_recovered_index((#[trigger] inputs@[i])@),
            )
        &&& manifest@ == spec_manifest_content(views_of(inputs@))
        &&& output@ == s.output_path@
    }
}

/// The outcome when no segment survived: an explicit concatenation error —
/// never a silent empty output — and the workspace is still removed.
pub open spec fn zero_survivor_outcome(pre: RunState, post: RunState, action: RunAction) -> bool {
    &&& post.phase == RunPhase::RemovingWorkspace
    &&& post.primary == Err::<(), RunError>(RunError::Concatenation)
    &&& (action matches RunAction::RemoveWorkspace { dir } && dir@ == pre.dir_view())
}

/// However a run ends — success, partial failure, or none of the segments
/// usable — its workspace directory is gone by the time it reports, except
/// when the removal itself failed, and then the report says so.
pub proof fn lemma_run_end_workspace_gone(s: RunState)
    requires
        s.wf(),
        s.phase == RunPhase::Done,
    ensures
        !s.workspace_live || s.cleanup_failed,
{
}

/// Relies on rand::random: a freshly drawn identifier for one run. Nothing
/// is assumed of the value; distinct concurrent runs are expected, not
/// guaranteed, to draw distinct identifiers.
#[verifier::external_body]
pub fn fresh_run_id() -> u32 {
    rand::random()
}

} // verus!
