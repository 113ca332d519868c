use condensed::run::{RunAction, RunError, RunState};

fn expect_extract(action: RunAction) -> (String, u64, u64, String) {
    match action {
        RunAction::ExtractSegment { source, start_us, end_us, output_path } => {
            (source, start_us, end_us, output_path)
        },
        other => panic!("expected an extraction, got {:?}", other),
    }
}

fn expect_stop(action: RunAction) -> (Result<(), RunError>, bool) {
    match action {
        RunAction::Stop { report } => (report.result, report.cleanup_failed),
        other => panic!("expected the run to stop, got {:?}", other),
    }
}

#[test]
fn happy_path_preserves_cue_order() {
    let (mut s, a) = RunState::start(
        "movie.mkv".to_string(),
        "movie.srt".to_string(),
        "condensed.mp3".to_string(),
        42,
    );
    assert!(matches!(a, RunAction::CreateWorkspace { ref dir } if dir == "tmp_audio_dir42"));

    let a = s.on_workspace_created();
    assert!(matches!(a, RunAction::ParseSubtitles { ref path } if path == "movie.srt"));

    // The second cue arrives with reversed endpoints.
    let a = s.on_cues_parsed(vec![(0, 1_000_000), (3_000_000, 2_000_000)]);
    let (src, start, end, out) = expect_extract(a);
    assert_eq!(src, "movie.mkv");
    assert_eq!((start, end), (0, 1_000_000));
    assert_eq!(out, "tmp_audio_dir42/tmp_output0.wav");

    let a = s.on_segment_result(true);
    let (_, start, end, out) = expect_extract(a);
    assert_eq!((start, end), (2_000_000, 3_000_000));
    assert_eq!(out, "tmp_audio_dir42/tmp_output1.wav");

    let a = s.on_segment_result(true);
    match a {
        RunAction::Concatenate { manifest_path, manifest, inputs, output } => {
            assert_eq!(manifest_path, "filelist42.txt");
            assert_eq!(
                inputs,
                vec!["tmp_audio_dir42/tmp_output0.wav", "tmp_audio_dir42/tmp_output1.wav"]
            );
            assert_eq!(
                manifest,
                "file 'tmp_audio_dir42/tmp_output0.wav'\nfile 'tmp_audio_dir42/tmp_output1.wav'\n"
            );
            assert_eq!(output, "condensed.mp3");
        },
        other => panic!("expected concatenation, got {:?}", other),
    }

    let a = s.on_concat_result(true);
    assert!(matches!(a, RunAction::RemoveManifest { ref path } if path == "filelist42.txt"));

    let a = s.on_manifest_removed(true);
    assert!(matches!(a, RunAction::RemoveWorkspace { ref dir } if dir == "tmp_audio_dir42"));

    let a = s.on_workspace_removed(true);
    assert_eq!(expect_stop(a), (Ok(()), false));
}

#[test]
fn one_failed_job_does_not_stop_the_run() {
    let (mut s, _) = RunState::start(
        "movie.mkv".to_string(),
        "movie.srt".to_string(),
        "condensed.mp3".to_string(),
        7,
    );
    s.on_workspace_created();
    s.on_cues_parsed(vec![(0, 10), (20, 30), (40, 50)]);
    s.on_segment_result(true);
    let a = s.on_segment_result(false);
    let (_, _, _, out) = expect_extract(a);
    assert_eq!(out, "tmp_audio_dir7/tmp_output2.wav");

    // After the last job, the failed job's leavings are deleted first.
    let a = s.on_segment_result(true);
    assert!(
        matches!(a, RunAction::RemoveFile { ref path } if path == "tmp_audio_dir7/tmp_output1.wav")
    );

    // The survivors are concatenated in cue order, skipping the failure.
    let a = s.on_failed_file_removed();
    match a {
        RunAction::Concatenate { inputs, manifest, .. } => {
            assert_eq!(
                inputs,
                vec!["tmp_audio_dir7/tmp_output0.wav", "tmp_audio_dir7/tmp_output2.wav"]
            );
            assert_eq!(
                manifest,
                "file 'tmp_audio_dir7/tmp_output0.wav'\nfile 'tmp_audio_dir7/tmp_output2.wav'\n"
            );
        },
        other => panic!("expected concatenation, got {:?}", other),
    }

    s.on_concat_result(true);
    s.on_manifest_removed(true);
    let a = s.on_workspace_removed(true);
    assert_eq!(expect_stop(a), (Ok(()), false));
}

#[test]
fn zero_surviving_segments_is_an_explicit_error() {
    let (mut s, _) = RunState::start(
        "movie.mkv".to_string(),
        "movie.srt".to_string(),
        "condensed.mp3".to_string(),
        9,
    );
    s.on_workspace_created();
    s.on_cues_parsed(vec![(0, 10), (20, 30)]);
    s.on_segment_result(false);
    let a = s.on_segment_result(false);
    assert!(
        matches!(a, RunAction::RemoveFile { ref path } if path == "tmp_audio_dir9/tmp_output0.wav")
    );
    let a = s.on_failed_file_removed();
    assert!(
        matches!(a, RunAction::RemoveFile { ref path } if path == "tmp_audio_dir9/tmp_output1.wav")
    );

    // No survivor: no concatenation is attempted, the workspace is still
    // removed, and the run reports a concatenation error.
    let a = s.on_failed_file_removed();
    assert!(matches!(a, RunAction::RemoveWorkspace { ref dir } if dir == "tmp_audio_dir9"));
    let a = s.on_workspace_removed(true);
    assert_eq!(expect_stop(a), (Err(RunError::Concatenation), false));
}

#[test]
fn no_cues_is_an_explicit_error() {
    let (mut s, _) = RunState::start(
        "movie.mkv".to_string(),
        "movie.srt".to_string(),
        "condensed.mp3".to_string(),
        11,
    );
    s.on_workspace_created();
    let a = s.on_cues_parsed(vec![]);
    assert!(matches!(a, RunAction::RemoveWorkspace { ref dir } if dir == "tmp_audio_dir11"));
    let a = s.on_workspace_removed(true);
    assert_eq!(expect_stop(a), (Err(RunError::Concatenation), false));
}

#[test]
fn subtitle_failure_aborts_but_still_cleans_up() {
    let (mut s, _) = RunState::start(
        "movie.mkv".to_string(),
        "missing.srt".to_string(),
        "condensed.mp3".to_string(),
        13,
    );
    s.on_workspace_created();
    let a = s.on_subtitles_failed();
    assert!(matches!(a, RunAction::RemoveWorkspace { ref dir } if dir == "tmp_audio_dir13"));
    let a = s.on_workspace_removed(true);
    assert_eq!(expect_stop(a), (Err(RunError::SubtitleParse), false));
}

#[test]
fn workspace_failure_is_fatal() {
    let (mut s, _) = RunState::start(
        "movie.mkv".to_string(),
        "movie.srt".to_string(),
        "condensed.mp3".to_string(),
        17,
    );
    let a = s.on_workspace_failed();
    assert_eq!(expect_stop(a), (Err(RunError::Workspace), false));
}

#[test]
fn concat_failure_is_reported_after_cleanup() {
    let (mut s, _) = RunState::start(
        "movie.mkv".to_string(),
        "movie.srt".to_string(),
        "condensed.mp3".to_string(),
        19,
    );
    s.on_workspace_created();
    s.on_cues_parsed(vec![(0, 10)]);
    s.on_segment_result(true);
    let a = s.on_concat_result(false);
    assert!(matches!(a, RunAction::RemoveManifest { ref path } if path == "filelist19.txt"));
    s.on_manifest_removed(true);
    let a = s.on_workspace_removed(true);
    assert_eq!(expect_stop(a), (Err(RunError::Concatenation), false));
}

#[test]
fn cleanup_failure_never_overrides_the_result() {
    let (mut s, _) = RunState::start(
        "movie.mkv".to_string(),
        "movie.srt".to_string(),
        "condensed.mp3".to_string(),
        23,
    );
    s.on_workspace_created();
    s.on_cues_parsed(vec![(0, 10)]);
    s.on_segment_result(true);
    s.on_concat_result(true);
    s.on_manifest_removed(true);
    let a = s.on_workspace_removed(false);
    assert_eq!(expect_stop(a), (Ok(()), true));
}

#[test]
fn batch_isolates_one_failing_triple() {
    // Three triples; the second one's subtitle file is missing. Each run has
    // its own machine and its own workspace; the sides never touch.
    let sources = ["a.mkv", "b.mkv", "c.mkv"];
    let outputs = ["a.mp3", "b.mp3", "c.mp3"];
    let ids: [u32; 3] = [100, 200, 300];
    let mut reports = Vec::new();
    for t in 0..3 {
        let (mut s, _) = RunState::start(
            sources[t].to_string(),
            format!("subs{}.srt", t),
            outputs[t].to_string(),
            ids[t],
        );
        s.on_workspace_created();
        let a = if t == 1 {
            s.on_subtitles_failed()
        } else {
            s.on_cues_parsed(vec![(0, 10), (20, 30)])
        };
        if t != 1 {
            let (_, _, _, out) = expect_extract(a);
            assert_eq!(out, format!("tmp_audio_dir{}/tmp_output0.wav", ids[t]));
            s.on_segment_result(true);
            s.on_segment_result(true);
            s.on_concat_result(true);
            s.on_manifest_removed(true);
        }
        let a = s.on_workspace_removed(true);
        reports.push(expect_stop(a));
    }
    assert_eq!(reports[0], (Ok(()), false));
    assert_eq!(reports[1], (Err(RunError::SubtitleParse), false));
    assert_eq!(reports[2], (Ok(()), false));
}
