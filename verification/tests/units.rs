use condensed::filetypes::{
    audio_file_path, classify_paths, generate_indexed_output_files, AudioFileType,
    SubtitleFileType, VideoFileType,
};
use condensed::interval::{normalize_interval, normalize_intervals};
use condensed::naming::{
    extract_index, manifest_file_name, path_extension, segment_output_path, workspace_dir_name,
};
use condensed::reassembly::{manifest_content, sort_files, sort_paths};

#[test]
fn normalize_orders_endpoints() {
    let a = normalize_interval(5, 10);
    assert_eq!((a.start_us, a.end_us), (5, 10));
    let b = normalize_interval(10, 5);
    assert_eq!((b.start_us, b.end_us), (5, 10));
    let c = normalize_interval(7, 7);
    assert_eq!((c.start_us, c.end_us), (7, 7));
}

#[test]
fn normalize_is_idempotent() {
    let first = normalize_interval(90, 12);
    let again = normalize_interval(first.start_us, first.end_us);
    assert_eq!(first, again);
    assert!(again.start_us <= again.end_us);
}

#[test]
fn normalize_many() {
    let raw = vec![(0u64, 10u64), (30, 20), (5, 5)];
    let out = normalize_intervals(&raw);
    assert_eq!(out.len(), 3);
    assert_eq!((out[0].start_us, out[0].end_us), (0, 10));
    assert_eq!((out[1].start_us, out[1].end_us), (20, 30));
    assert_eq!((out[2].start_us, out[2].end_us), (5, 5));
}

#[test]
fn index_recovery_examples() {
    assert_eq!(extract_index("tmp_output0.wav"), 0);
    assert_eq!(extract_index("tmp_output17.wav"), 17);
    assert_eq!(extract_index("novalue.wav"), 0);
}

#[test]
fn index_recovery_edge_cases() {
    assert_eq!(extract_index("tmp_audio_dir99/tmp_output3.wav"), 3);
    assert_eq!(extract_index("a/b/c123.mp3"), 123);
    assert_eq!(extract_index("007.wav"), 7);
    // A trailing run too large for usize falls back to zero.
    assert_eq!(extract_index("x99999999999999999999999999999999.wav"), 0);
    // No extension: the whole name is the stem.
    assert_eq!(extract_index("plain42"), 42);
    // Character positions, not bytes, drive the scan.
    assert_eq!(extract_index("音声7.wav"), 7);
}

#[test]
fn run_scoped_names() {
    assert_eq!(workspace_dir_name(123), "tmp_audio_dir123");
    assert_eq!(workspace_dir_name(0), "tmp_audio_dir0");
    assert_eq!(manifest_file_name(5), "filelist5.txt");
    assert_eq!(
        segment_output_path("tmp_audio_dir1", 17),
        "tmp_audio_dir1/tmp_output17.wav"
    );
}

#[test]
fn segment_name_roundtrip() {
    let dir = workspace_dir_name(4242);
    for i in [0usize, 1, 9, 10, 17, 999] {
        let path = segment_output_path(&dir, i);
        assert_eq!(extract_index(&path), i);
    }
}

#[test]
fn distinct_runs_use_distinct_names() {
    assert_ne!(workspace_dir_name(1), workspace_dir_name(2));
    assert_ne!(manifest_file_name(1), manifest_file_name(2));
    assert_ne!(workspace_dir_name(7), workspace_dir_name(70));
}

#[test]
fn indexed_output_names() {
    let names = generate_indexed_output_files("out", AudioFileType::Wav, 3);
    assert_eq!(names, vec!["out0.wav", "out1.wav", "out2.wav"]);
    let none = generate_indexed_output_files("out", AudioFileType::Mp3, 0);
    assert!(none.is_empty());
}

#[test]
fn file_type_strings() {
    assert_eq!(AudioFileType::Mp3.as_str(), "mp3");
    assert_eq!(AudioFileType::Wav.as_str(), "wav");
    assert_eq!(AudioFileType::Opus.as_str(), "opus");
    assert_eq!(AudioFileType::Ogg.as_str(), "ogg");
    assert_eq!(AudioFileType::Aac.as_str(), "aac");
    assert_eq!(SubtitleFileType::Srt.to_str(), "srt");
    assert_eq!(SubtitleFileType::Ass.to_str(), "ass");
    assert_eq!(VideoFileType::Mkv.to_str(), "mkv");
    assert_eq!(audio_file_path("song", AudioFileType::Ogg), "song.ogg");
}

#[test]
fn sorting_recovers_cue_order() {
    let files = vec![
        "d/tmp_output2.wav".to_string(),
        "d/tmp_output0.wav".to_string(),
        "d/tmp_output10.wav".to_string(),
        "d/tmp_output1.wav".to_string(),
    ];
    let sorted = sort_files(files);
    assert_eq!(
        sorted,
        vec![
            "d/tmp_output0.wav",
            "d/tmp_output1.wav",
            "d/tmp_output2.wav",
            "d/tmp_output10.wav",
        ]
    );
}

#[test]
fn sorting_is_stable_on_equal_indices() {
    let files = vec![
        "b2.wav".to_string(),
        "first0.wav".to_string(),
        "second0.wav".to_string(),
        "a2.wav".to_string(),
    ];
    let once = sort_files(files);
    assert_eq!(once, vec!["first0.wav", "second0.wav", "b2.wav", "a2.wav"]);
    let twice = sort_files(once.clone());
    assert_eq!(twice, once);
}

#[test]
fn sorting_defaults_missing_index_to_zero() {
    let files = vec!["b3.wav".to_string(), "novalue.wav".to_string(), "a1.wav".to_string()];
    let sorted = sort_paths(files);
    assert_eq!(sorted, vec!["novalue.wav", "a1.wav", "b3.wav"]);
}

#[test]
fn manifest_lists_paths_in_order() {
    let paths = vec!["d/tmp_output0.wav".to_string(), "d/tmp_output1.wav".to_string()];
    let m = manifest_content(&paths);
    assert_eq!(m, "file 'd/tmp_output0.wav'\nfile 'd/tmp_output1.wav'\n");
    let empty: Vec<String> = vec![];
    assert_eq!(manifest_content(&empty), "");
}

#[test]
fn extension_recognition() {
    assert_eq!(path_extension("ep1.srt"), Some("srt".to_string()));
    assert_eq!(path_extension("season/ep2.mkv"), Some("mkv".to_string()));
    assert_eq!(path_extension("noext"), None);
    assert_eq!(path_extension(".hidden"), None);
}

#[test]
fn classify_buckets_and_sorts() {
    let paths = vec![
        "shows/ep2.srt".to_string(),
        "shows/ep1.mkv".to_string(),
        "shows/ep1.srt".to_string(),
        "shows/ep2.mkv".to_string(),
        "shows/readme".to_string(),
    ];
    let files = classify_paths(paths, SubtitleFileType::Srt, VideoFileType::Mkv);
    assert_eq!(files.subtitle_file_name, vec!["shows/ep1.srt", "shows/ep2.srt"]);
    assert_eq!(files.video_file_names, vec!["shows/ep1.mkv", "shows/ep2.mkv"]);
}
