//! What the media tool says of a file, and how it is asked for an audio
//! track.

use vstd::prelude::*;
use vstd::string::*;
use crate::json::{get2, json_document, member2, member_text_or, parse_json, text_or, views, Json, JsonView};
use crate::srt::{number_value, read_number, read_seconds, seconds_millis};
use crate::text::{chars_of, chars_of_range, decimal, decimal_digits, strings_view};
use crate::video::{tracks_view, AudioTrack, AudioTrackView, VideoInfo, VideoInfoView};

verus! {

/// The number that a text stands for as a 32-bit number: a decimal
/// numeral, with or without a plus sign before it.
pub open spec fn u32_text_value(s: Seq<char>) -> Option<u32> {
    let digits = if s.len() > 0 && s[0] == '+' {
        s.skip(1)
    } else {
        s
    };
    match number_value(digits) {
        Some(v) => if v <= u32::MAX {
            Some(v as u32)
        } else {
            None
        },
        None => None,
    }
}

/// Reads a 32-bit number.
pub fn read_u32(s: &str) -> (r: Option<u32>)
    ensures
        r == u32_text_value(s@),
{
    let chars = chars_of(s);
    let from: usize = if chars.len() > 0 && chars[0] == '+' {
        1
    } else {
        0
    };
    let digits = chars_of_range(&chars, from, chars.len());
    assert(chars@.skip(from as int) =~= chars@.subrange(from as int, chars.len() as int));
    assert(chars@.skip(0) =~= chars@);
    match read_number(&digits) {
        Some(v) => if v <= u32::MAX as u128 {
            Some(v as u32)
        } else {
            None
        },
        None => None,
    }
}

/// The milliseconds that a duration in seconds stands for, or 0 where the
/// text is no such duration.
pub open spec fn duration_millis(s: Seq<char>) -> u64 {
    match seconds_millis(s) {
        Some(v) => if v <= u64::MAX {
            v as u64
        } else {
            0
        },
        None => 0,
    }
}

/// Reads a duration in seconds as milliseconds.
pub fn read_duration(s: &str) -> (r: u64)
    ensures
        r == duration_millis(s@),
{
    let chars = chars_of(s);
    match read_seconds(&chars) {
        Some(v) => if v <= u64::MAX as u128 {
            v as u64
        } else {
            0
        },
        None => 0,
    }
}

/// The whole number of a value that may be missing, or `default`.
pub open spec fn signed_or(value: Option<JsonView>, default: i64) -> i64 {
    match value {
        Some(j) => match j.signed() {
            Some(n) => n,
            None => default,
        },
        None => default,
    }
}

/// The whole number of the member `key` of `doc`, or `default`.
pub fn member_signed_or(doc: &Json, key: &str, default: i64) -> (r: i64)
    ensures
        r == signed_or(doc@.member(key@), default),
{
    match doc.get(key) {
        Some(j) => match j.as_i64() {
            Some(n) => n,
            None => default,
        },
        None => default,
    }
}

/// The audio track that a stream describes. `index` is the place of the
/// stream among all streams, from 0.
pub open spec fn stream_track(stream: JsonView, index: nat) -> AudioTrackView {
    AudioTrackView {
        id: index as u32,
        language: match member2(stream, "tags"@, "language"@) {
            Some(JsonView::Text(l)) => Some(l),
            _ => None,
        },
        codec: text_or(stream.member("codec_name"@), "unknown"@),
        channels: signed_or(stream.member("channels"@), 2) as u32,
        sample_rate: match stream.member("sample_rate"@) {
            Some(JsonView::Text(r)) => match u32_text_value(r) {
                Some(v) => v,
                None => 44100,
            },
            _ => 44100,
        },
    }
}

/// What a scan of streams has found: the size of the first video stream
/// with a size, and the audio tracks.
pub struct Scan {
    pub width: i32,
    pub height: i32,
    pub tracks: Seq<AudioTrackView>,
}

/// What the first `n` streams hold.
pub open spec fn scan(streams: Seq<JsonView>, n: nat) -> Scan
    decreases n,
{
    if n == 0 || n > streams.len() {
        Scan { width: 0, height: 0, tracks: Seq::empty() }
    } else {
        let before = scan(streams, (n - 1) as nat);
        let stream = streams[n - 1];
        let kind = text_or(stream.member("codec_type"@), ""@);
        if kind == "video"@ && before.width == 0 && before.height == 0 {
            Scan {
                width: signed_or(stream.member("width"@), 0) as i32,
                height: signed_or(stream.member("height"@), 0) as i32,
                tracks: before.tracks,
            }
        } else if kind == "audio"@ {
            Scan {
                width: before.width,
                height: before.height,
                tracks: before.tracks.push(stream_track(stream, (n - 1) as nat)),
            }
        } else {
            before
        }
    }
}

/// The track that stands for the audio of a file in which none was found.
pub open spec fn default_track() -> AudioTrackView {
    AudioTrackView { id: 0, language: Some("und"@), codec: "unknown"@, channels: 2, sample_rate: 44100 }
}

/// What the description of a file by the media tool holds, or why it is
/// not understood. A file without an audio track is given one default
/// track.
pub open spec fn probe_info(file_path: Seq<char>, doc: JsonView) -> Result<
    VideoInfoView,
    Seq<char>,
> {
    match doc.member("format"@) {
        Some(JsonView::Object(m)) => {
            let format = JsonView::Object(m);
            match doc.member("streams"@) {
                Some(JsonView::Array(streams)) => {
                    let found = scan(streams, streams.len());
                    Ok(
                        VideoInfoView {
                            file_path,
                            duration: match format.member("duration"@) {
                                Some(JsonView::Text(d)) => duration_millis(d),
                                _ => 0,
                            },
                            width: found.width,
                            height: found.height,
                            audio_tracks: if found.tracks.len() == 0 {
                                seq![default_track()]
                            } else {
                                found.tracks
                            },
                        },
                    )
                },
                _ => Err("无法获取流信息"@),
            }
        },
        _ => Err("无法获取格式信息"@),
    }
}

/// A description or a diagnostic, by contents.
pub open spec fn info_view(r: Result<VideoInfo, String>) -> Result<VideoInfoView, Seq<char>> {
    match r {
        Ok(info) => Ok(info@),
        Err(e) => Err(e@),
    }
}

fn track_of_stream(stream: &Json, index: usize) -> (r: AudioTrack)
    ensures
        r@ == stream_track(stream@, index as nat),
{
    let language = match get2(stream, "tags", "language") {
        Some(j) => match j.as_str() {
            Some(l) => Some(String::from_str(l)),
            None => None,
        },
        None => None,
    };
    let rate_text = match stream.get("sample_rate") {
        Some(j) => j.as_str(),
        None => None,
    };
    let sample_rate = match rate_text {
        Some(r) => match read_u32(r) {
            Some(v) => v,
            None => 44100,
        },
        None => 44100,
    };
    AudioTrack {
        id: #[verifier::truncate]
        (index as u32),
        language,
        codec: member_text_or(stream, "codec_name", "unknown"),
        channels: #[verifier::truncate]
        (member_signed_or(stream, "channels", 2) as u32),
        sample_rate,
    }
}

/// Reads the description of a file by the media tool.
pub fn info_from_probe(file_path: &str, doc: &Json) -> (r: Result<VideoInfo, String>)
    ensures
        info_view(r) == probe_info(file_path@, doc@),
{
    let format = match doc.get("format") {
        Some(f) => {
            if !f.is_object() {
                return Err(String::from_str("无法获取格式信息"));
            }
            f
        },
        None => {
            return Err(String::from_str("无法获取格式信息"));
        },
    };
    let listed = match doc.get("streams") {
        Some(j) => j.as_array(),
        None => None,
    };
    let streams = match listed {
        Some(items) => items,
        None => {
            return Err(String::from_str("无法获取流信息"));
        },
    };
    let duration_text = match format.get("duration") {
        Some(j) => j.as_str(),
        None => None,
    };
    let duration = match duration_text {
        Some(d) => read_duration(d),
        None => 0,
    };
    let mut width: i32 = 0;
    let mut height: i32 = 0;
    let mut tracks: Vec<AudioTrack> = Vec::new();
    let mut i: usize = 0;
    assert(tracks_view(tracks@) =~= Seq::empty());
    while i < streams.len()
        invariant
            i <= streams.len(),
            scan(views(streams@), i as nat) == (Scan {
                width,
                height,
                tracks: tracks_view(tracks@),
            }),
        decreases streams.len() - i,
    {
        let stream = &streams[i];
        proof {
            assert(views(streams@)[i as int] == stream@);
        }
        let kind = member_text_or(stream, "codec_type", "");
        if crate::text::same_text(kind.as_str(), "video") && width == 0 && height == 0 {
            width = #[verifier::truncate]
            (member_signed_or(stream, "width", 0) as i32);
            height = #[verifier::truncate]
            (member_signed_or(stream, "height", 0) as i32);
        } else if crate::text::same_text(kind.as_str(), "audio") {
            let track = track_of_stream(stream, i);
            let ghost before = tracks@;
            tracks.push(track);
            assert(tracks_view(tracks@) =~= tracks_view(before).push(track@));
        }
        i += 1;
    }
    if tracks.len() == 0 {
        let track = AudioTrack {
            id: 0,
            language: Some(String::from_str("und")),
            codec: String::from_str("unknown"),
            channels: 2,
            sample_rate: 44100,
        };
        tracks.push(track);
        assert(tracks_view(tracks@) =~= seq![default_track()]);
    }
    Ok(VideoInfo { file_path: String::from_str(file_path), duration, width, height, audio_tracks: tracks })
}

/// What the text of the description of a file by the media tool holds.
pub open spec fn probe_info_text(file_path: Seq<char>, output: Seq<char>) -> Result<
    VideoInfoView,
    Seq<char>,
> {
    match json_document(output) {
        Ok(doc) => probe_info(file_path, doc),
        Err(e) => Err("解析ffprobe输出失败: "@ + e),
    }
}

/// Reads the text in which the media tool describes a file.
pub fn get_video_info(file_path: &str, output: &str) -> (r: Result<VideoInfo, String>)
    ensures
        info_view(r) == probe_info_text(file_path@, output@),
{
    match parse_json(output) {
        Ok(doc) => info_from_probe(file_path, &doc),
        Err(e) => {
            let mut out = String::from_str("解析ffprobe输出失败: ");
            out.append(e.as_str());
            Err(out)
        },
    }
}

/// The arguments with which the media tool describes a file.
pub open spec fn probe_arguments(file_path: Seq<char>) -> Seq<Seq<char>> {
    seq![
        "-v"@,
        "quiet"@,
        "-print_format"@,
        "json"@,
        "-show_format"@,
        "-show_streams"@,
        file_path,
    ]
}

/// Builds the arguments with which the media tool describes a file.
pub fn build_probe_arguments(file_path: &str) -> (r: Vec<String>)
    ensures
        strings_view(r@) == probe_arguments(file_path@),
{
    let mut out: Vec<String> = Vec::new();
    out.push(String::from_str("-v"));
    out.push(String::from_str("quiet"));
    out.push(String::from_str("-print_format"));
    out.push(String::from_str("json"));
    out.push(String::from_str("-show_format"));
    out.push(String::from_str("-show_streams"));
    out.push(String::from_str(file_path));
    assert(strings_view(out@) =~= probe_arguments(file_path@));
    out
}

/// The name of the file that holds an extracted audio track.
pub open spec fn audio_file_name(file_stem: Seq<char>, track: u32) -> Seq<char> {
    file_stem + "_audio_"@ + decimal_digits(track as nat) + ".wav"@
}

/// Writes the name of the file that holds an extracted audio track.
pub fn build_audio_file_name(file_stem: &str, track: u32) -> (r: String)
    ensures
        r@ == audio_file_name(file_stem@, track),
{
    let number = decimal(track as u64);
    let mut out = String::from_str(file_stem);
    out.append("_audio_");
    out.append(number.as_str());
    out.append(".wav");
    out
}

/// The arguments with which the media tool extracts an audio track as
/// mono sound of 16000 samples a second, over a file that may be there.
pub open spec fn extraction_arguments(
    video_path: Seq<char>,
    track: u32,
    output_path: Seq<char>,
) -> Seq<Seq<char>> {
    seq![
        "-i"@,
        video_path,
        "-map"@,
        "0:"@ + decimal_digits(track as nat),
        "-acodec"@,
        "pcm_s16le"@,
        "-ar"@,
        "16000"@,
        "-ac"@,
        "1"@,
        "-y"@,
        output_path,
    ]
}

/// Builds the arguments with which the media tool extracts an audio
/// track.
pub fn extract_audio(video_path: &str, audio_track_id: u32, output_path: &str) -> (r: Vec<String>)
    ensures
        strings_view(r@) == extraction_arguments(video_path@, audio_track_id, output_path@),
{
    let number = decimal(audio_track_id as u64);
    let mut map = String::from_str("0:");
    map.append(number.as_str());
    let mut out: Vec<String> = Vec::new();
    out.push(String::from_str("-i"));
    out.push(String::from_str(video_path));
    out.push(String::from_str("-map"));
    out.push(map);
    out.push(String::from_str("-acodec"));
    out.push(String::from_str("pcm_s16le"));
    out.push(String::from_str("-ar"));
    out.push(String::from_str("16000"));
    out.push(String::from_str("-ac"));
    out.push(String::from_str("1"));
    out.push(String::from_str("-y"));
    out.push(String::from_str(output_path));
    assert(strings_view(out@) =~= extraction_arguments(video_path@, audio_track_id, output_path@));
    out
}

} // verus!
