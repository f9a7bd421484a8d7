//! What ffprobe reports of a media file, read into metadata. Running
//! ffprobe and parsing its JSON output is the caller's work; the report
//! holds the parsed values.
use crate::error::AlexandriaError;
use crate::extractors::fs::{is_video_file, lowered_extension, video_extensions};
use crate::models::FileMetadata;
use crate::text::{
    chars_eq, chars_to_string, join, join_chars, opt_view, str_chars, to_lowercase,
    unicode_lowercase, views,
};
use vstd::prelude::*;

verus! {

/// One stream of a probed file.
#[derive(Debug, Clone)]
pub struct ProbeStream {
    pub codec_type: Option<String>,
    pub codec_name: Option<String>,
    pub width: Option<i64>,
    pub height: Option<i64>,
    /// The stream's "language" tag.
    pub language: Option<String>,
}

/// What ffprobe reports of a file.
#[derive(Debug, Clone)]
pub struct ProbeReport {
    /// The duration of the format, in whole seconds.
    pub duration_seconds: Option<i64>,
    pub streams: Vec<ProbeStream>,
    /// The tags of the format, as (key, value) pairs.
    pub format_tags: Vec<(String, String)>,
}

/// What the streams of a video tell, read in order.
pub ghost struct VideoStreams {
    pub width: Option<i64>,
    pub height: Option<i64>,
    pub video_codec: Option<Seq<char>>,
    pub audio_codecs: Seq<Seq<char>>,
    pub audio_tracks: Seq<Seq<char>>,
    pub has_subtitles: bool,
    pub subtitle_tracks: Seq<Seq<char>>,
}

/// The language of a stream, "und" when it has none.
pub open spec fn stream_language(s: ProbeStream) -> Seq<char> {
    match s.language {
        Some(l) => l@,
        None => "und"@,
    }
}

/// Whether a stream's type is `t`.
pub open spec fn is_type(s: ProbeStream, t: Seq<char>) -> bool {
    s.codec_type matches Some(c) && c@ == t
}

/// The streams read in order: the last video stream gives the size and
/// video codec; each audio stream with a codec adds its codec once and a
/// track "codec (language)"; each subtitle stream marks subtitles and adds
/// its language.
pub open spec fn read_streams(streams: Seq<ProbeStream>) -> VideoStreams
    decreases streams.len(),
{
    if streams.len() == 0 {
        VideoStreams {
            width: None,
            height: None,
            video_codec: None,
            audio_codecs: Seq::empty(),
            audio_tracks: Seq::empty(),
            has_subtitles: false,
            subtitle_tracks: Seq::empty(),
        }
    } else {
        let prev = read_streams(streams.drop_last());
        let s = streams.last();
        if is_type(s, "video"@) {
            VideoStreams {
                width: s.width,
                height: s.height,
                video_codec: opt_view(s.codec_name),
                ..prev
            }
        } else if is_type(s, "audio"@) {
            match s.codec_name {
                Some(c) => VideoStreams {
                    audio_codecs: if prev.audio_codecs.contains(c@) {
                        prev.audio_codecs
                    } else {
                        prev.audio_codecs.push(c@)
                    },
                    audio_tracks: prev.audio_tracks.push(
                        c@ + " ("@ + stream_language(s) + ")"@,
                    ),
                    ..prev
                },
                None => prev,
            }
        } else if is_type(s, "subtitle"@) {
            VideoStreams {
                has_subtitles: true,
                subtitle_tracks: prev.subtitle_tracks.push(stream_language(s)),
                ..prev
            }
        } else {
            prev
        }
    }
}

/// The metadata of a probed video.
pub open spec fn is_video_metadata(m: FileMetadata, report: ProbeReport) -> bool {
    let v = read_streams(report.streams@);
    &&& m.file_type@ == "video"@
    &&& m.duration_seconds == report.duration_seconds
    &&& m.width == v.width
    &&& m.height == v.height
    &&& opt_view(m.video_codec) == v.video_codec
    &&& opt_view(m.audio_codec) == Some(join(v.audio_codecs, ", "@))
    &&& m.has_subtitles == v.has_subtitles
    &&& opt_view(m.audio_tracks) == Some(join(v.audio_tracks, "; "@))
    &&& opt_view(m.subtitle_tracks) == Some(join(v.subtitle_tracks, "; "@))
    &&& m.extra_json is None
}

/// Whether a stream is a video stream, by its codec type.
pub open spec fn is_video_stream(s: ProbeStream) -> bool {
    s.codec_type matches Some(c) && c@ == "video"@
}

/// The size and video codec read from the streams are those of the last
/// video stream.
proof fn lemma_read_last_video(streams: Seq<ProbeStream>, i: int)
    requires
        0 <= i < streams.len(),
        is_video_stream(streams[i]),
        forall|j: int| i < j < streams.len() ==> !is_video_stream(#[trigger] streams[j]),
    ensures
        read_streams(streams).width == streams[i].width,
        read_streams(streams).height == streams[i].height,
        read_streams(streams).video_codec == opt_view(streams[i].codec_name),
    decreases streams.len(),
{
    if i < streams.len() - 1 {
        let front = streams.drop_last();
        assert forall|j: int| i < j < front.len() implies !is_video_stream(#[trigger] front[j]) by {
            assert(front[j] == streams[j]);
        }
        assert(front[i] == streams[i]);
        lemma_read_last_video(front, i);
        assert(!is_video_stream(streams[streams.len() - 1]));
    }
}

/// Without a video stream, no size or video codec is read.
proof fn lemma_read_no_video(streams: Seq<ProbeStream>)
    requires
        forall|j: int| 0 <= j < streams.len() ==> !is_video_stream(#[trigger] streams[j]),
    ensures
        read_streams(streams).width is None,
        read_streams(streams).height is None,
        read_streams(streams).video_codec is None,
    decreases streams.len(),
{
    if streams.len() > 0 {
        let front = streams.drop_last();
        assert forall|j: int| 0 <= j < front.len() implies !is_video_stream(#[trigger] front[j]) by {
            assert(front[j] == streams[j]);
        }
        lemma_read_no_video(front);
        assert(!is_video_stream(streams[streams.len() - 1]));
    }
}

/// The width, height and video codec of a probed video are those of its
/// last video stream, each from the same field of that stream; without a
/// video stream there are none.
pub proof fn lemma_video_size_from_last_video_stream(m: FileMetadata, report: ProbeReport)
    requires
        is_video_metadata(m, report),
    ensures
        forall|i: int|
            0 <= i < report.streams@.len() && is_video_stream(#[trigger] report.streams@[i]) && (
            forall|j: int| i < j < report.streams@.len() ==> !is_video_stream(report.streams@[j]))
                ==> m.width == report.streams@[i].width && m.height == report.streams@[i].height
                && opt_view(m.video_codec) == opt_view(report.streams@[i].codec_name),
        (forall|j: int| 0 <= j < report.streams@.len() ==> !is_video_stream(report.streams@[j]))
            ==> m.width is None && m.height is None && m.video_codec is None,
{
    let st = report.streams@;
    assert forall|i: int|
        0 <= i < st.len() && is_video_stream(#[trigger] st[i]) && (forall|j: int|
            i < j < st.len() ==> !is_video_stream(st[j])) implies m.width == st[i].width
        && m.height == st[i].height && opt_view(m.video_codec) == opt_view(st[i].codec_name) by {
        lemma_read_last_video(st, i);
    }
    if forall|j: int| 0 <= j < st.len() ==> !is_video_stream(st[j]) {
        lemma_read_no_video(st);
        assert(opt_view(m.video_codec) is None);
    }
}

/// Whether an optional text is `t`.
fn has_type(o: &Option<String>, t: &str) -> (r: bool)
    ensures
        r == (o matches Some(c) && c@ == t@),
{
    match o {
        Some(c) => chars_eq(&str_chars(c.as_str()), &str_chars(t)),
        None => false,
    }
}

/// A copy of an optional string.
fn copy_text(o: &Option<String>) -> (r: Option<String>)
    ensures
        r == *o,
{
    match o {
        Some(s) => Some(s.clone()),
        None => None,
    }
}

/// The language of a stream as characters.
fn language_of(s: &ProbeStream) -> (r: Vec<char>)
    ensures
        r@ == stream_language(*s),
{
    match &s.language {
        Some(l) => str_chars(l.as_str()),
        None => str_chars("und"),
    }
}

/// Whether `v` holds `c`.
fn holds(v: &Vec<Vec<char>>, c: &Vec<char>) -> (r: bool)
    ensures
        r == views(v@).contains(c@),
{
    let mut i: usize = 0;
    while i < v.len()
        invariant
            i <= v.len(),
            forall|j: int| 0 <= j < i ==> views(v@)[j] != c@,
        decreases v.len() - i,
    {
        if chars_eq(&v[i], c) {
            assert(views(v@)[i as int] == c@);
            return true;
        }
        i += 1;
    }
    false
}

/// The pieces joined with `sep`, as a string.
fn joined(parts: &Vec<Vec<char>>, sep: &str) -> (r: String)
    ensures
        r@ == join(views(parts@), sep@),
{
    let s = str_chars(sep);
    let j = join_chars(parts, &s);
    chars_to_string(&j)
}

/// The metadata of a video from what ffprobe reports of it.
pub fn video_metadata(report: &ProbeReport) -> (r: FileMetadata)
    ensures
        is_video_metadata(r, *report),
        forall|i: int|
            0 <= i < report.streams@.len() && is_video_stream(#[trigger] report.streams@[i]) && (
            forall|j: int| i < j < report.streams@.len() ==> !is_video_stream(report.streams@[j]))
                ==> r.width == report.streams@[i].width && r.height == report.streams@[i].height
                && opt_view(r.video_codec) == opt_view(report.streams@[i].codec_name),
{
    let streams = &report.streams;
    let mut width: Option<i64> = None;
    let mut height: Option<i64> = None;
    let mut video_codec: Option<String> = None;
    let mut codecs: Vec<Vec<char>> = Vec::new();
    let mut tracks: Vec<Vec<char>> = Vec::new();
    let mut has_subtitles = false;
    let mut subs: Vec<Vec<char>> = Vec::new();
    let mut i: usize = 0;
    while i < streams.len()
        invariant
            i <= streams.len(),
            ({
                let v = read_streams(streams@.take(i as int));
                &&& width == v.width
                &&& height == v.height
                &&& opt_view(video_codec) == v.video_codec
                &&& views(codecs@) == v.audio_codecs
                &&& views(tracks@) == v.audio_tracks
                &&& has_subtitles == v.has_subtitles
                &&& views(subs@) == v.subtitle_tracks
            }),
        decreases streams.len() - i,
    {
        let s = &streams[i];
        assert(streams@.take(i + 1).drop_last() =~= streams@.take(i as int));
        assert(streams@.take(i + 1).last() == streams@[i as int]);
        if has_type(&s.codec_type, "video") {
            width = s.width;
            height = s.height;
            video_codec = copy_text(&s.codec_name);
        } else if has_type(&s.codec_type, "audio") {
            match &s.codec_name {
                Some(c) => {
                    let cv = str_chars(c.as_str());
                    if !holds(&codecs, &cv) {
                        let ghost before = views(codecs@);
                        codecs.push(cv.clone());
                        assert(views(codecs@) =~= before.push(cv@));
                    }
                    let mut t = cv.clone();
                    let open = str_chars(" (");
                    let close = str_chars(")");
                    let lang = language_of(s);
                    t = crate::text::concat_chars(&t, &open);
                    t = crate::text::concat_chars(&t, &lang);
                    t = crate::text::concat_chars(&t, &close);
                    let ghost before_t = views(tracks@);
                    tracks.push(t);
                    assert(views(tracks@) =~= before_t.push(
                        c@ + " ("@ + stream_language(*s) + ")"@,
                    ));
                },
                None => {},
            }
        } else if has_type(&s.codec_type, "subtitle") {
            has_subtitles = true;
            let ghost before_s = views(subs@);
            subs.push(language_of(s));
            assert(views(subs@) =~= before_s.push(stream_language(*s)));
        }
        i += 1;
    }
    assert(streams@.take(streams.len() as int) =~= streams@);
    let r = FileMetadata {
        file_type: String::from_str("video"),
        duration_seconds: report.duration_seconds,
        width,
        height,
        video_codec,
        audio_codec: Some(joined(&codecs, ", ")),
        has_subtitles,
        audio_tracks: Some(joined(&tracks, "; ")),
        subtitle_tracks: Some(joined(&subs, "; ")),
        extra_json: None,
    };
    proof {
        lemma_video_size_from_last_video_stream(r, *report);
    }
    r
}

/// The codecs of the audio streams that name one, in order.
pub open spec fn audio_codecs(streams: Seq<ProbeStream>) -> Seq<Seq<char>>
    decreases streams.len(),
{
    if streams.len() == 0 {
        Seq::empty()
    } else {
        let prev = audio_codecs(streams.drop_last());
        let s = streams.last();
        if is_type(s, "audio"@) && s.codec_name is Some {
            prev.push(s.codec_name->0@)
        } else {
            prev
        }
    }
}

/// The metadata of an audio file from what ffprobe reports of it; the
/// format tags kept are given by `audio_tags`.
pub fn audio_metadata(report: &ProbeReport) -> (r: FileMetadata)
    ensures
        r.file_type@ == "audio"@,
        r.duration_seconds == report.duration_seconds,
        opt_view(r.audio_codec) == Some(join(audio_codecs(report.streams@), ", "@)),
        r.width is None,
        r.height is None,
        r.video_codec is None,
        !r.has_subtitles,
        r.audio_tracks is None,
        r.subtitle_tracks is None,
        r.extra_json is None,
{
    let streams = &report.streams;
    let mut codecs: Vec<Vec<char>> = Vec::new();
    let mut i: usize = 0;
    while i < streams.len()
        invariant
            i <= streams.len(),
            views(codecs@) == audio_codecs(streams@.take(i as int)),
        decreases streams.len() - i,
    {
        let s = &streams[i];
        assert(streams@.take(i + 1).drop_last() =~= streams@.take(i as int));
        assert(streams@.take(i + 1).last() == streams@[i as int]);
        if has_type(&s.codec_type, "audio") {
            if let Some(c) = &s.codec_name {
                let ghost before = views(codecs@);
                codecs.push(str_chars(c.as_str()));
                assert(views(codecs@) =~= before.push(c@));
            }
        }
        i += 1;
    }
    assert(streams@.take(streams.len() as int) =~= streams@);
    FileMetadata {
        file_type: String::from_str("audio"),
        duration_seconds: report.duration_seconds,
        width: None,
        height: None,
        video_codec: None,
        audio_codec: Some(joined(&codecs, ", ")),
        has_subtitles: false,
        audio_tracks: None,
        subtitle_tracks: None,
        extra_json: None,
    }
}

/// The tag keys kept for audio files.
pub open spec fn audio_tag_keys() -> Seq<Seq<char>> {
    seq!["title"@, "artist"@, "album"@, "genre"@, "date"@]
}

/// The format tags kept for an audio file, in order: those whose key,
/// lowercased, is a title, artist, album, genre or date, with that key.
pub open spec fn kept_tags(tags: Seq<(String, String)>) -> Seq<(Seq<char>, Seq<char>)>
    decreases tags.len(),
{
    if tags.len() == 0 {
        Seq::empty()
    } else {
        let prev = kept_tags(tags.drop_last());
        let k = unicode_lowercase(tags.last().0@);
        if audio_tag_keys().contains(k) {
            prev.push((k, tags.last().1@))
        } else {
            prev
        }
    }
}

/// The format tags kept for an audio file (see `kept_tags`); a later tag
/// with the same key stands for an earlier one when they are stored.
pub fn audio_tags(report: &ProbeReport) -> (r: Vec<(String, String)>)
    ensures
        r@.map_values(|p: (String, String)| (p.0@, p.1@)) == kept_tags(report.format_tags@),
{
    let tags = &report.format_tags;
    let mut out: Vec<(String, String)> = Vec::new();
    let mut i: usize = 0;
    while i < tags.len()
        invariant
            i <= tags.len(),
            out@.map_values(|p: (String, String)| (p.0@, p.1@)) == kept_tags(
                tags@.take(i as int),
            ),
        decreases tags.len() - i,
    {
        assert(tags@.take(i + 1).drop_last() =~= tags@.take(i as int));
        assert(tags@.take(i + 1).last() == tags@[i as int]);
        let key = to_lowercase(tags[i].0.as_str());
        let keep = crate::models::str_eq(key.as_str(), "title") || crate::models::str_eq(
            key.as_str(),
            "artist",
        ) || crate::models::str_eq(key.as_str(), "album") || crate::models::str_eq(
            key.as_str(),
            "genre",
        ) || crate::models::str_eq(key.as_str(), "date");
        proof {
            let s = audio_tag_keys();
            if keep {
                if key@ == "title"@ {
                    assert(s[0] == key@);
                } else if key@ == "artist"@ {
                    assert(s[1] == key@);
                } else if key@ == "album"@ {
                    assert(s[2] == key@);
                } else if key@ == "genre"@ {
                    assert(s[3] == key@);
                } else {
                    assert(s[4] == key@);
                }
            }
        }
        if keep {
            let ghost before = out@.map_values(|p: (String, String)| (p.0@, p.1@));
            let value = tags[i].1.clone();
            out.push((key, value));
            assert(out@.map_values(|p: (String, String)| (p.0@, p.1@)) =~= before.push(
                (unicode_lowercase(tags@[i as int].0@), tags@[i as int].1@),
            ));
        }
        i += 1;
    }
    assert(tags@.take(tags.len() as int) =~= tags@);
    out
}

/// Whether a file is to be probed: ffprobe is available and the file is a
/// video.
pub fn wants_probe(path: &str, ffprobe_available: bool) -> (r: bool)
    ensures
        r == (ffprobe_available && (lowered_extension(path@) matches Some(e)
            && video_extensions().contains(e))),
{
    ffprobe_available && is_video_file(path)
}

/// The metadata of a file: what the probe reported, typed as a video, when
/// there is a report; the metadata known from the path otherwise.
pub fn merge_probe(base: FileMetadata, probed: Option<FileMetadata>) -> (r: FileMetadata)
    ensures
        match probed {
            Some(m) => r.file_type@ == "video"@ && r.duration_seconds == m.duration_seconds
                && r.width == m.width && r.height == m.height && r.video_codec == m.video_codec
                && r.audio_codec == m.audio_codec && r.has_subtitles == m.has_subtitles
                && r.audio_tracks == m.audio_tracks && r.subtitle_tracks == m.subtitle_tracks
                && r.extra_json == m.extra_json,
            None => r == base,
        },
{
    match probed {
        Some(mut m) => {
            m.file_type = String::from_str("video");
            m
        },
        None => base,
    }
}

/// The error of an ffprobe run that failed on `path`.
pub fn probe_failure(path: &str, stderr: &str) -> (r: AlexandriaError)
    ensures
        r matches AlexandriaError::Ffprobe(m) && m@ == "ffprobe failed for "@ + path@ + ": "@
            + stderr@,
{
    let mut m = String::from_str("ffprobe failed for ");
    m.append(path);
    m.append(": ");
    m.append(stderr);
    AlexandriaError::Ffprobe(m)
}

/// The error of an ffprobe output that could not be parsed.
pub fn probe_parse_failure(detail: &str) -> (r: AlexandriaError)
    ensures
        r matches AlexandriaError::Ffprobe(m) && m@ == "Failed to parse ffprobe output: "@
            + detail@,
{
    let mut m = String::from_str("Failed to parse ffprobe output: ");
    m.append(detail);
    AlexandriaError::Ffprobe(m)
}

} // verus!
