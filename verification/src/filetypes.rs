//! File kinds the pipeline deals in, the indexed output names of the batch
//! driver, and the classification of a directory's files into subtitle and
//! video buckets, each sorted by the recovered-ordinal rule.

use vstd::prelude::*;

use crate::digits::{format_u64, spec_digits};
use crate::naming::{extension_part, path_extension};
use crate::reassembly::{sort_paths, sorted_by_recovered_index, views_of};

verus! {

/// Audio container kinds the engine can write.
#[derive(Debug, Clone, Copy, PartialEq, Eq, Structural)]
pub enum AudioFileType {
    Mp3,
    Wav,
    Opus,
    Ogg,
    Aac,
}

/// Subtitle file kinds the pipeline pairs with videos.
#[derive(Debug, Clone, Copy, PartialEq, Eq, Structural)]
pub enum SubtitleFileType {
    Srt,
    Ass,
}

/// Video file kinds the pipeline pairs with subtitles.
#[derive(Debug, Clone, Copy, PartialEq, Eq, Structural)]
pub enum VideoFileType {
    Mkv,
}

impl AudioFileType {
    /// The extension this kind is written under.
    pub open spec fn spec_str(self) -> Seq<char> {
        match self {
            AudioFileType::Mp3 => "mp3"@,
            AudioFileType::Wav => "wav"@,
            AudioFileType::Opus => "opus"@,
            AudioFileType::Ogg => "ogg"@,
            AudioFileType::Aac => "aac"@,
        }
    }

    pub fn as_str(self) -> (r: &'static str)
        ensures
            r@ == self.spec_str(),
    {
        match self {
            AudioFileType::Mp3 => "mp3",
            AudioFileType::Wav => "wav",
            AudioFileType::Opus => "opus",
            AudioFileType::Ogg => "ogg",
            AudioFileType::Aac => "aac",
        }
    }
}

impl SubtitleFileType {
    /// The extension this kind is recognized by.
    pub open spec fn spec_str(self) -> Seq<char> {
        match self {
            SubtitleFileType::Srt => "srt"@,
            SubtitleFileType::Ass => "ass"@,
        }
    }

    pub fn to_str(self) -> (r: &'static str)
        ensures
            r@ == self.spec_str(),
    {
        match self {
            SubtitleFileType::Srt => "srt",
            SubtitleFileType::Ass => "ass",
        }
    }
}

impl VideoFileType {
    /// The extension this kind is recognized by.
    pub open spec fn spec_str(self) -> Seq<char> {
        match self {
            VideoFileType::Mkv => "mkv"@,
        }
    }

    pub fn to_str(self) -> (r: &'static str)
        ensures
            r@ == self.spec_str(),
    {
        match self {
            VideoFileType::Mkv => "mkv",
        }
    }
}

/// A directory's files, bucketed into the subtitle and video kinds and
/// paired up by position.
#[derive(Debug)]
pub struct Files {
    pub subtitle_file_name: Vec<String>,
    pub video_file_names: Vec<String>,
}

/// The output name with ordinal `i`: the base name, the ordinal's digits,
/// a dot and the extension.
pub open spec fn spec_indexed_output_name(base: Seq<char>, i: nat, ext: Seq<char>) -> Seq<char> {
    base + spec_digits(i) + "."@ + ext
}

/// The `len` output file names of a batch, each encoding its ordinal.
pub fn generate_indexed_output_files(
    output_name: &str,
    file_type: AudioFileType,
    len: usize,
) -> (names: Vec<String>)
    ensures
        names@.len() == len,
        forall|i: int|
            0 <= i < len ==> (#[trigger] names@[i])@ == spec_indexed_output_name(
                output_name@,
                i as nat,
                file_type.spec_str(),
            ),
{
    let mut names: Vec<String> = Vec::new();
    let mut k: usize = 0;
    while k < len
        invariant
            k <= len,
            names@.len() == k,
            forall|i: int|
                0 <= i < k ==> (#[trigger] names@[i])@ == spec_indexed_output_name(
                    output_name@,
                    i as nat,
                    file_type.spec_str(),
                ),
        decreases len - k,
    {
        let mut s = output_name.to_owned();
        let ds = format_u64(k as u64);
        s.append(ds.as_str());
        s.append(".");
        s.append(file_type.as_str());
        proof {
            assert(s@ =~= spec_indexed_output_name(
                output_name@,
                k as nat,
                file_type.spec_str(),
            ));
        }
        names.push(s);
        k += 1;
    }
    names
}

/// The path of an audio file: the base name, a dot and the kind's extension.
pub fn audio_file_path(base: &str, file_type: AudioFileType) -> (s: String)
    ensures
        s@ == base@ + "."@ + file_type.spec_str(),
{
    let mut s = base.to_owned();
    s.append(".");
    s.append(file_type.as_str());
    s
}

/// The views of the paths whose file-name extension is exactly `ext`, in
/// input order.
pub open spec fn with_extension(paths: Seq<String>, ext: Seq<char>) -> Seq<Seq<char>> {
    views_of(paths).filter(|p: Seq<char>| extension_part(p) == Some(ext))
}

/// Buckets paths by extension into the subtitle and the video kind, each
/// bucket then sorted ascending by the ordinal recovered from its file
/// names. Paths without an extension are dropped. A path with any other
/// extension is rejected by precondition, not skipped — the decision is
/// that a directory being paired holds nothing else, and a caller that
/// cannot promise that must screen its paths first.
pub fn classify_paths(
    paths: Vec<String>,
    subtitle_format: SubtitleFileType,
    video_format: VideoFileType,
) -> (r: Files)
    requires
        forall|i: int|
            0 <= i < paths@.len() ==> (extension_part((#[trigger] paths@[i])@) is None
                || extension_part(paths@[i]@) == Some(subtitle_format.spec_str())
                || extension_part(paths@[i]@) == Some(video_format.spec_str())),
    ensures
        sorted_by_recovered_index(r.subtitle_file_name@),
        sorted_by_recovered_index(r.video_file_names@),
        views_of(r.subtitle_file_name@).to_multiset() == with_extension(
            paths@,
            subtitle_format.spec_str(),
        ).to_multiset(),
        views_of(r.video_file_names@).to_multiset() == with_extension(
            paths@,
            video_format.spec_str(),
        ).to_multiset(),
{
    let mut subtitles: Vec<String> = Vec::new();
    let mut videos: Vec<String> = Vec::new();
    let sub_ext = subtitle_format.to_str().to_owned();
    let vid_ext = video_format.to_str().to_owned();
    let mut k: usize = 0;
    while k < paths.len()
        invariant
            k <= paths@.len(),
            sub_ext@ == subtitle_format.spec_str(),
            vid_ext@ == video_format.spec_str(),
            views_of(subtitles@) == with_extension(
                paths@.take(k as int),
                subtitle_format.spec_str(),
            ),
            views_of(videos@) == with_extension(paths@.take(k as int), video_format.spec_str()),
            forall|i: int|
                0 <= i < paths@.len() ==> (extension_part((#[trigger] paths@[i])@) is None
                    || extension_part(paths@[i]@) == Some(subtitle_format.spec_str())
                    || extension_part(paths@[i]@) == Some(video_format.spec_str())),
        decreases paths@.len() - k,
    {
        proof {
            assert(views_of(paths@.take(k as int + 1)).drop_last() =~= views_of(
                paths@.take(k as int),
            ));
            assert(views_of(paths@.take(k as int + 1)).last() == paths@[k as int]@);
            assert(views_of(paths@.take(k as int + 1)).len() == k + 1);
        }
        let ext = path_extension(paths[k].as_str());
        match ext {
            Some(e) => {
                if e == sub_ext {
                    subtitles.push(paths[k].clone());
                    proof {
                        reveal_with_fuel(Seq::<Seq<char>>::filter, 2);
                        reveal_strlit("srt");
                        reveal_strlit("ass");
                        reveal_strlit("mkv");
                        assert(subtitle_format.spec_str()[0] != video_format.spec_str()[0]);
                        assert(extension_part(paths@[k as int]@) == Some(
                            subtitle_format.spec_str(),
                        ));
                        assert(with_extension(paths@.take(k as int + 1), subtitle_format.spec_str())
                            == with_extension(
                            paths@.take(k as int),
                            subtitle_format.spec_str(),
                        ).push(paths@[k as int]@));
                        assert(with_extension(paths@.take(k as int + 1), video_format.spec_str())
                            == with_extension(paths@.take(k as int), video_format.spec_str()));
                        assert(views_of(subtitles@) =~= with_extension(
                            paths@.take(k as int + 1),
                            subtitle_format.spec_str(),
                        ));
                        assert(views_of(videos@) =~= with_extension(
                            paths@.take(k as int + 1),
                            video_format.spec_str(),
                        ));
                    }
                } else if e == vid_ext {
                    videos.push(paths[k].clone());
                    proof {
                        reveal_with_fuel(Seq::<Seq<char>>::filter, 2);
                        reveal_strlit("srt");
                        reveal_strlit("ass");
                        reveal_strlit("mkv");
                        assert(subtitle_format.spec_str()[0] != video_format.spec_str()[0]);
                        assert(extension_part(paths@[k as int]@) == Some(video_format.spec_str()));
                        assert(with_extension(paths@.take(k as int + 1), video_format.spec_str())
                            == with_extension(
                            paths@.take(k as int),
                            video_format.spec_str(),
                        ).push(paths@[k as int]@));
                        assert(with_extension(
                            paths@.take(k as int + 1),
                            subtitle_format.spec_str(),
                        ) == with_extension(paths@.take(k as int), subtitle_format.spec_str()));
                        assert(views_of(videos@) =~= with_extension(
                            paths@.take(k as int + 1),
                            video_format.spec_str(),
                        ));
                        assert(views_of(subtitles@) =~= with_extension(
                            paths@.take(k as int + 1),
                            subtitle_format.spec_str(),
                        ));
                    }
                } else {
                    proof {
                        assert(false);
                    }
                }
            },
            None => {
                proof {
                    reveal_with_fuel(Seq::<Seq<char>>::filter, 2);
                    assert(extension_part(paths@[k as int]@) is None);
                    assert(with_extension(paths@.take(k as int + 1), subtitle_format.spec_str())
                        == with_extension(paths@.take(k as int), subtitle_format.spec_str()));
                    assert(with_extension(paths@.take(k as int + 1), video_format.spec_str())
                        == with_extension(paths@.take(k as int), video_format.spec_str()));
                    assert(views_of(subtitles@) =~= with_extension(
                        paths@.take(k as int + 1),
                        subtitle_format.spec_str(),
                    ));
                    assert(views_of(videos@) =~= with_extension(
                        paths@.take(k as int + 1),
                        video_format.spec_str(),
                    ));
                }
            },
        }
        k += 1;
    }
    proof {
        assert(paths@.take(paths@.len() as int) =~= paths@);
    }
    let subtitles = sort_paths(subtitles);
    let videos = sort_paths(videos);
    Files { subtitle_file_name: subtitles, video_file_names: videos }
}

} // verus!
