//! Classification of files by extension.
use crate::models::{str_eq, FileMetadata};
use crate::paths::{extension_of, spec_extension};
use crate::text::{eq_ignore_ascii_case, str_eq_ignore_ascii_case, to_lowercase, unicode_lowercase};
use vstd::prelude::*;

verus! {

/// The extensions of video files.
pub open spec fn video_extensions() -> Seq<Seq<char>> {
    seq!["mp4"@, "mkv"@, "avi"@, "mov"@, "webm"@, "flv"@, "wmv"@]
}

/// The extensions of audio files.
pub open spec fn audio_extensions() -> Seq<Seq<char>> {
    seq!["mp3"@, "flac"@, "wav"@, "aac"@, "ogg"@, "m4a"@, "opus"@, "wma"@]
}

/// The extensions of archives.
pub open spec fn archive_extensions() -> Seq<Seq<char>> {
    seq!["zip"@, "rar"@, "7z"@, "tar"@, "gz"@, "bz2"@, "xz"@]
}

/// The type of a file with the given extension; extensions are matched
/// exactly, so they are expected lowercased.
pub open spec fn spec_file_type(extension: Option<Seq<char>>) -> Seq<char> {
    match extension {
        Some(e) => if video_extensions().contains(e) {
            "video"@
        } else if audio_extensions().contains(e) {
            "audio"@
        } else if e == "pdf"@ {
            "pdf"@
        } else if archive_extensions().contains(e) {
            "archive"@
        } else {
            "unknown"@
        },
        None => "unknown"@,
    }
}

/// Whether `e` is one of the seven texts.
fn is_one_of(e: &str, a: &str, b: &str, c: &str, d: &str, f: &str, g: &str, h: &str) -> (r: bool)
    ensures
        r == seq![a@, b@, c@, d@, f@, g@, h@].contains(e@),
{
    let r = str_eq(e, a) || str_eq(e, b) || str_eq(e, c) || str_eq(e, d) || str_eq(e, f) || str_eq(
        e,
        g,
    ) || str_eq(e, h);
    let ghost s = seq![a@, b@, c@, d@, f@, g@, h@];
    proof {
        if r {
            if e@ == a@ {
                assert(s[0] == e@);
            } else if e@ == b@ {
                assert(s[1] == e@);
            } else if e@ == c@ {
                assert(s[2] == e@);
            } else if e@ == d@ {
                assert(s[3] == e@);
            } else if e@ == f@ {
                assert(s[4] == e@);
            } else if e@ == g@ {
                assert(s[5] == e@);
            } else {
                assert(s[6] == e@);
            }
        }
    }
    r
}

/// Whether `e` is a video extension.
fn is_video_extension(e: &str) -> (r: bool)
    ensures
        r == video_extensions().contains(e@),
{
    is_one_of(e, "mp4", "mkv", "avi", "mov", "webm", "flv", "wmv")
}

/// Whether `e` is an audio extension.
fn is_audio_extension(e: &str) -> (r: bool)
    ensures
        r == audio_extensions().contains(e@),
{
    let r = is_one_of(e, "mp3", "flac", "wav", "aac", "ogg", "m4a", "opus") || str_eq(e, "wma");
    proof {
        let s = audio_extensions();
        let s7 = seq!["mp3"@, "flac"@, "wav"@, "aac"@, "ogg"@, "m4a"@, "opus"@];
        assert(s =~= s7.push("wma"@));
        if s7.contains(e@) {
            let k = choose|k: int| 0 <= k < s7.len() && s7[k] == e@;
            assert(s[k] == e@);
        }
        if e@ == "wma"@ {
            assert(s[7] == e@);
        }
        if s.contains(e@) {
            let k = choose|k: int| 0 <= k < s.len() && s[k] == e@;
            if k < 7 {
                assert(s7[k] == e@);
            }
        }
    }
    r
}

/// Whether `e` is an archive extension.
fn is_archive_extension(e: &str) -> (r: bool)
    ensures
        r == archive_extensions().contains(e@),
{
    is_one_of(e, "zip", "rar", "7z", "tar", "gz", "bz2", "xz")
}

/// Classify a file by its extension: "video", "audio", "pdf", "archive" or
/// "unknown". The match is exact, so "MKV" is "unknown".
pub fn detect_file_type(extension: Option<&str>) -> (r: String)
    ensures
        r@ == spec_file_type(
            match extension {
                Some(e) => Some(e@),
                None => None,
            },
        ),
{
    match extension {
        Some(e) => {
            if is_video_extension(e) {
                String::from_str("video")
            } else if is_audio_extension(e) {
                String::from_str("audio")
            } else if str_eq(e, "pdf") {
                String::from_str("pdf")
            } else if is_archive_extension(e) {
                String::from_str("archive")
            } else {
                String::from_str("unknown")
            }
        },
        None => String::from_str("unknown"),
    }
}

/// The extension of a path, lowercased.
pub open spec fn lowered_extension(path: Seq<char>) -> Option<Seq<char>> {
    match spec_extension(path) {
        Some(e) => Some(unicode_lowercase(e)),
        None => None,
    }
}

/// The extension of a path, lowercased.
pub fn lowercase_extension(path: &str) -> (r: Option<String>)
    ensures
        match r {
            Some(e) => lowered_extension(path@) == Some(e@),
            None => lowered_extension(path@) is None,
        },
{
    match extension_of(path) {
        Some(e) => Some(to_lowercase(e.as_str())),
        None => None,
    }
}

/// Whether the path's extension, lowercased, is a video extension.
pub fn is_video_file(path: &str) -> (r: bool)
    ensures
        r == (lowered_extension(path@) matches Some(e) && video_extensions().contains(e)),
{
    match lowercase_extension(path) {
        Some(e) => is_video_extension(e.as_str()),
        None => false,
    }
}

/// Whether the path's extension, lowercased, is an audio extension.
pub fn is_audio_file(path: &str) -> (r: bool)
    ensures
        r == (lowered_extension(path@) matches Some(e) && audio_extensions().contains(e)),
{
    match lowercase_extension(path) {
        Some(e) => is_audio_extension(e.as_str()),
        None => false,
    }
}

/// Whether the path's extension is "pdf" in any ASCII case.
pub fn is_pdf_file(path: &str) -> (r: bool)
    ensures
        r == (spec_extension(path@) matches Some(e) && eq_ignore_ascii_case(e, "pdf"@)),
{
    match extension_of(path) {
        Some(e) => str_eq_ignore_ascii_case(e.as_str(), "pdf"),
        None => false,
    }
}

/// Whether the path's extension, lowercased, is an archive extension.
pub fn is_archive_file(path: &str) -> (r: bool)
    ensures
        r == (lowered_extension(path@) matches Some(e) && archive_extensions().contains(e)),
{
    match lowercase_extension(path) {
        Some(e) => is_archive_extension(e.as_str()),
        None => false,
    }
}

/// The metadata known from the path alone: the type given by its
/// lowercased extension.
pub fn base_metadata(path: &str) -> (r: FileMetadata)
    ensures
        r.only_type(spec_file_type(lowered_extension(path@))),
{
    let ext = lowercase_extension(path);
    let file_type = match &ext {
        Some(e) => detect_file_type(Some(e.as_str())),
        None => detect_file_type(None),
    };
    FileMetadata::with_type(file_type)
}


/// Which reader gives a file's metadata beyond its path.
#[derive(Debug, Clone, Copy, PartialEq, Eq, Structural)]
pub enum Extraction {
    /// ffprobe, as a video.
    Video,
    /// ffprobe, as an audio file.
    Audio,
    /// The PDF reader.
    Pdf,
    /// The ZIP reader.
    Zip,
    /// None: the metadata known from the path is all there is.
    PathOnly,
}

/// The reader for a file at `path`: ffprobe for videos and audio files when
/// it is available, the PDF reader for PDF documents, the ZIP reader for
/// ".zip" archives, and none otherwise.
pub open spec fn spec_extraction(path: Seq<char>, ffprobe_available: bool) -> Extraction {
    let t = spec_file_type(lowered_extension(path));
    if t == "video"@ {
        if ffprobe_available {
            Extraction::Video
        } else {
            Extraction::PathOnly
        }
    } else if t == "audio"@ {
        if ffprobe_available {
            Extraction::Audio
        } else {
            Extraction::PathOnly
        }
    } else if t == "pdf"@ {
        Extraction::Pdf
    } else if lowered_extension(path) == Some("zip"@) {
        Extraction::Zip
    } else {
        Extraction::PathOnly
    }
}

/// The reader for a file at `path`; see `spec_extraction`. Without ffprobe,
/// a video or audio file is known from its path alone.
pub fn extraction_for(path: &str, ffprobe_available: bool) -> (r: Extraction)
    ensures
        r == spec_extraction(path@, ffprobe_available),
        !ffprobe_available && (spec_file_type(lowered_extension(path@)) == "video"@
            || spec_file_type(lowered_extension(path@)) == "audio"@) ==> r
            == Extraction::PathOnly,
{
    let ext = lowercase_extension(path);
    let t = match &ext {
        Some(e) => detect_file_type(Some(e.as_str())),
        None => detect_file_type(None),
    };
    let is_zip = match &ext {
        Some(e) => str_eq(e.as_str(), "zip"),
        None => false,
    };
    if str_eq(t.as_str(), "video") {
        if ffprobe_available {
            Extraction::Video
        } else {
            Extraction::PathOnly
        }
    } else if str_eq(t.as_str(), "audio") {
        if ffprobe_available {
            Extraction::Audio
        } else {
            Extraction::PathOnly
        }
    } else if str_eq(t.as_str(), "pdf") {
        Extraction::Pdf
    } else if is_zip {
        Extraction::Zip
    } else {
        Extraction::PathOnly
    }
}


/// A file is an audio file exactly when the type its lowercased extension
/// gives is "audio": no audio extension is a video extension.
pub proof fn lemma_audio_file_is_audio_type(path: Seq<char>)
    ensures
        (lowered_extension(path) matches Some(e) && audio_extensions().contains(e)) == (
        spec_file_type(lowered_extension(path)) == "audio"@),
{
    reveal_strlit("mp4");
    reveal_strlit("mkv");
    reveal_strlit("avi");
    reveal_strlit("mov");
    reveal_strlit("webm");
    reveal_strlit("flv");
    reveal_strlit("wmv");
    reveal_strlit("mp3");
    reveal_strlit("flac");
    reveal_strlit("wav");
    reveal_strlit("aac");
    reveal_strlit("ogg");
    reveal_strlit("m4a");
    reveal_strlit("opus");
    reveal_strlit("wma");
    reveal_strlit("video");
    reveal_strlit("audio");
    reveal_strlit("pdf");
    reveal_strlit("archive");
    reveal_strlit("unknown");
    assert("mp4"@ =~= seq!['m', 'p', '4']);
    assert("mkv"@ =~= seq!['m', 'k', 'v']);
    assert("avi"@ =~= seq!['a', 'v', 'i']);
    assert("mov"@ =~= seq!['m', 'o', 'v']);
    assert("webm"@ =~= seq!['w', 'e', 'b', 'm']);
    assert("flv"@ =~= seq!['f', 'l', 'v']);
    assert("wmv"@ =~= seq!['w', 'm', 'v']);
    assert("mp3"@ =~= seq!['m', 'p', '3']);
    assert("flac"@ =~= seq!['f', 'l', 'a', 'c']);
    assert("wav"@ =~= seq!['w', 'a', 'v']);
    assert("aac"@ =~= seq!['a', 'a', 'c']);
    assert("ogg"@ =~= seq!['o', 'g', 'g']);
    assert("m4a"@ =~= seq!['m', '4', 'a']);
    assert("opus"@ =~= seq!['o', 'p', 'u', 's']);
    assert("wma"@ =~= seq!['w', 'm', 'a']);
    assert(video_extensions() =~= seq![seq!['m', 'p', '4'], seq!['m', 'k', 'v'], seq!['a', 'v', 'i'], seq!['m', 'o', 'v'], seq!['w', 'e', 'b', 'm'], seq!['f', 'l', 'v'], seq!['w', 'm', 'v']]);
    assert(audio_extensions() =~= seq![seq!['m', 'p', '3'], seq!['f', 'l', 'a', 'c'], seq!['w', 'a', 'v'], seq!['a', 'a', 'c'], seq!['o', 'g', 'g'], seq!['m', '4', 'a'], seq!['o', 'p', 'u', 's'], seq!['w', 'm', 'a']]);
    assert("video"@ =~= seq!['v', 'i', 'd', 'e', 'o']);
    assert("audio"@ =~= seq!['a', 'u', 'd', 'i', 'o']);
    assert("pdf"@ =~= seq!['p', 'd', 'f']);
    assert("archive"@ =~= seq!['a', 'r', 'c', 'h', 'i', 'v', 'e']);
    assert("unknown"@ =~= seq!['u', 'n', 'k', 'n', 'o', 'w', 'n']);
    match lowered_extension(path) {
        Some(e) => {
            if audio_extensions().contains(e) {
                let k = choose|k: int| 0 <= k < audio_extensions().len() && audio_extensions()[k] == e;
                assert forall|j: int| 0 <= j < video_extensions().len() implies video_extensions()[j]
                    != e by {
                    assert(video_extensions()[j].len() != e.len() || video_extensions()[j][0] != e[0]
                        || video_extensions()[j][1] != e[1] || video_extensions()[j][2] != e[2]);
                }
            }
        },
        None => {},
    }
}


/// The type of each extension: "mp4", "mkv", "avi", "mov", "webm", "flv"
/// and "wmv" are videos; "mp3", "flac", "wav", "aac", "ogg", "m4a", "opus"
/// and "wma" audio; "pdf" a PDF; "zip", "rar", "7z", "tar", "gz", "bz2" and
/// "xz" archives; every other extension, and none, is unknown.
pub proof fn lemma_file_type_of_extension(e: Seq<char>)
    ensures
        seq!["mp4"@, "mkv"@, "avi"@, "mov"@, "webm"@, "flv"@, "wmv"@].contains(e) ==> spec_file_type(Some(e))
            == "video"@,
        seq!["mp3"@, "flac"@, "wav"@, "aac"@, "ogg"@, "m4a"@, "opus"@, "wma"@].contains(e) ==> spec_file_type(Some(e)) == "audio"@,
        e == "pdf"@ ==> spec_file_type(Some(e)) == "pdf"@,
        seq!["zip"@, "rar"@, "7z"@, "tar"@, "gz"@, "bz2"@, "xz"@].contains(e) ==> spec_file_type(Some(e))
            == "archive"@,
        !seq!["mp4"@, "mkv"@, "avi"@, "mov"@, "webm"@, "flv"@, "wmv"@, "mp3"@, "flac"@, "wav"@, "aac"@, "ogg"@, "m4a"@, "opus"@, "wma"@, "zip"@, "rar"@, "7z"@, "tar"@, "gz"@, "bz2"@, "xz"@, "pdf"@].contains(e) ==> spec_file_type(Some(e)) == "unknown"@,
        spec_file_type(None) == "unknown"@,
{
    reveal_strlit("mp4");
    reveal_strlit("mkv");
    reveal_strlit("avi");
    reveal_strlit("mov");
    reveal_strlit("webm");
    reveal_strlit("flv");
    reveal_strlit("wmv");
    reveal_strlit("mp3");
    reveal_strlit("flac");
    reveal_strlit("wav");
    reveal_strlit("aac");
    reveal_strlit("ogg");
    reveal_strlit("m4a");
    reveal_strlit("opus");
    reveal_strlit("wma");
    reveal_strlit("zip");
    reveal_strlit("rar");
    reveal_strlit("7z");
    reveal_strlit("tar");
    reveal_strlit("gz");
    reveal_strlit("bz2");
    reveal_strlit("xz");
    reveal_strlit("pdf");
    reveal_strlit("video");
    reveal_strlit("audio");
    reveal_strlit("archive");
    reveal_strlit("unknown");
    assert("mp4"@ =~= seq!['m', 'p', '4']);
    assert("mkv"@ =~= seq!['m', 'k', 'v']);
    assert("avi"@ =~= seq!['a', 'v', 'i']);
    assert("mov"@ =~= seq!['m', 'o', 'v']);
    assert("webm"@ =~= seq!['w', 'e', 'b', 'm']);
    assert("flv"@ =~= seq!['f', 'l', 'v']);
    assert("wmv"@ =~= seq!['w', 'm', 'v']);
    assert("mp3"@ =~= seq!['m', 'p', '3']);
    assert("flac"@ =~= seq!['f', 'l', 'a', 'c']);
    assert("wav"@ =~= seq!['w', 'a', 'v']);
    assert("aac"@ =~= seq!['a', 'a', 'c']);
    assert("ogg"@ =~= seq!['o', 'g', 'g']);
    assert("m4a"@ =~= seq!['m', '4', 'a']);
    assert("opus"@ =~= seq!['o', 'p', 'u', 's']);
    assert("wma"@ =~= seq!['w', 'm', 'a']);
    assert("zip"@ =~= seq!['z', 'i', 'p']);
    assert("rar"@ =~= seq!['r', 'a', 'r']);
    assert("7z"@ =~= seq!['7', 'z']);
    assert("tar"@ =~= seq!['t', 'a', 'r']);
    assert("gz"@ =~= seq!['g', 'z']);
    assert("bz2"@ =~= seq!['b', 'z', '2']);
    assert("xz"@ =~= seq!['x', 'z']);
    assert("pdf"@ =~= seq!['p', 'd', 'f']);
    assert("video"@ =~= seq!['v', 'i', 'd', 'e', 'o']);
    assert("audio"@ =~= seq!['a', 'u', 'd', 'i', 'o']);
    assert("archive"@ =~= seq!['a', 'r', 'c', 'h', 'i', 'v', 'e']);
    assert("unknown"@ =~= seq!['u', 'n', 'k', 'n', 'o', 'w', 'n']);
    assert(video_extensions() =~= seq![seq!['m', 'p', '4'], seq!['m', 'k', 'v'], seq!['a', 'v', 'i'], seq!['m', 'o', 'v'], seq!['w', 'e', 'b', 'm'], seq!['f', 'l', 'v'], seq!['w', 'm', 'v']]);
    assert(audio_extensions() =~= seq![seq!['m', 'p', '3'], seq!['f', 'l', 'a', 'c'], seq!['w', 'a', 'v'], seq!['a', 'a', 'c'], seq!['o', 'g', 'g'], seq!['m', '4', 'a'], seq!['o', 'p', 'u', 's'], seq!['w', 'm', 'a']]);
    assert(archive_extensions() =~= seq![seq!['z', 'i', 'p'], seq!['r', 'a', 'r'], seq!['7', 'z'], seq!['t', 'a', 'r'], seq!['g', 'z'], seq!['b', 'z', '2'], seq!['x', 'z']]);
    let all = seq!["mp4"@, "mkv"@, "avi"@, "mov"@, "webm"@, "flv"@, "wmv"@, "mp3"@, "flac"@, "wav"@, "aac"@, "ogg"@, "m4a"@, "opus"@, "wma"@, "zip"@, "rar"@, "7z"@, "tar"@, "gz"@, "bz2"@, "xz"@, "pdf"@];
    assert(all =~= seq![seq!['m', 'p', '4'], seq!['m', 'k', 'v'], seq!['a', 'v', 'i'], seq!['m', 'o', 'v'], seq!['w', 'e', 'b', 'm'], seq!['f', 'l', 'v'], seq!['w', 'm', 'v'], seq!['m', 'p', '3'], seq!['f', 'l', 'a', 'c'], seq!['w', 'a', 'v'], seq!['a', 'a', 'c'], seq!['o', 'g', 'g'], seq!['m', '4', 'a'], seq!['o', 'p', 'u', 's'], seq!['w', 'm', 'a'], seq!['z', 'i', 'p'], seq!['r', 'a', 'r'], seq!['7', 'z'], seq!['t', 'a', 'r'], seq!['g', 'z'], seq!['b', 'z', '2'], seq!['x', 'z'], seq!['p', 'd', 'f']]);
}

/// A path is a video file exactly when the type its lowercased extension
/// gives is "video", so its metadata type and its reader agree with
/// `is_video_file`.
pub proof fn lemma_video_file_is_video_type(path: Seq<char>)
    ensures
        (lowered_extension(path) matches Some(e) && video_extensions().contains(e)) == (
        spec_file_type(lowered_extension(path)) == "video"@),
{
    reveal_strlit("video");
    reveal_strlit("audio");
    reveal_strlit("pdf");
    reveal_strlit("archive");
    reveal_strlit("unknown");
    assert("video"@ =~= seq!['v', 'i', 'd', 'e', 'o']);
    assert("audio"@ =~= seq!['a', 'u', 'd', 'i', 'o']);
    assert("pdf"@ =~= seq!['p', 'd', 'f']);
    assert("archive"@ =~= seq!['a', 'r', 'c', 'h', 'i', 'v', 'e']);
    assert("unknown"@ =~= seq!['u', 'n', 'k', 'n', 'o', 'w', 'n']);
}

} // verus!
