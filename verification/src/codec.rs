//! Subtitle files: the text of a cue list in each of the formats that can
//! be written.

use vstd::prelude::*;
use vstd::string::*;
use crate::json::{json_quote, json_string_text};
use crate::srt::{digit, format_time_srt, put_points, time_text, two_digits, with_points};
use crate::probe::u32_text_value;
use crate::srt::{arrow, read_number};
use crate::text::{chars_of, chars_of_range, decimal, decimal_digits, digit_char, find, find_from, lowercase, lowercase_text, matches_at, matches_here, same_text, split, split_text, string_of, string_of_range, texts, trim, trim_bounds};
use crate::text_laws::lemma_trim_trimmed;
use crate::video::{all_well_formed, cues_view, outcome_well_formed, Subtitle, SubtitleView};

verus! {

/// A number of milliseconds as hours, minutes and seconds, with the
/// thousandths behind a point.
pub open spec fn vtt_time_text(millis: u64) -> Seq<char> {
    with_points(time_text(millis))
}

/// Writes a time for the WebVTT format.
pub fn format_time_vtt(millis: u64) -> (r: String)
    ensures
        r@ == vtt_time_text(millis),
{
    let written = format_time_srt(millis);
    let chars = chars_of(written.as_str());
    let pointed = put_points(&chars);
    string_of(&pointed)
}

/// A number of milliseconds as hours, minutes and seconds, with the
/// hundredths behind a point and the hours without a leading zero.
pub open spec fn ass_time_text(millis: u64) -> Seq<char> {
    let n = millis as nat;
    decimal_digits(n / 3600000) + seq![':'] + two_digits((n / 60000) % 60) + seq![':']
        + two_digits((n / 1000) % 60) + seq!['.'] + two_digits((n % 1000) / 10)
}

/// Writes a time for the ASS format.
pub fn format_time_ass(millis: u64) -> (r: String)
    ensures
        r@ == ass_time_text(millis),
{
    let minutes: u64 = (millis / 60000) % 60;
    let seconds: u64 = (millis / 1000) % 60;
    let hundredths: u64 = (millis % 1000) / 10;
    let mut out = decimal(millis / 3600000);
    out.push(':');
    out.push(digit_char((minutes / 10) as u8));
    out.push(digit_char((minutes % 10) as u8));
    out.push(':');
    out.push(digit_char((seconds / 10) as u8));
    out.push(digit_char((seconds % 10) as u8));
    out.push('.');
    out.push(digit_char((hundredths / 10) as u8));
    out.push(digit_char((hundredths % 10) as u8));
    assert(out@ =~= ass_time_text(millis));
    out
}

/// The formats in which a cue list can be written.
#[derive(Debug, Clone, Copy, PartialEq, Eq, Structural)]
pub enum Format {
    Srt,
    Vtt,
    Ass,
    Txt,
    Json,
}

/// The format of a name, the case of its letters aside.
pub open spec fn format_of(name: Seq<char>) -> Option<Format> {
    let low = lowercase_text(name);
    if low == "srt"@ {
        Some(Format::Srt)
    } else if low == "vtt"@ {
        Some(Format::Vtt)
    } else if low == "ass"@ {
        Some(Format::Ass)
    } else if low == "txt"@ {
        Some(Format::Txt)
    } else if low == "json"@ {
        Some(Format::Json)
    } else {
        None
    }
}

/// Looks a format up by its name.
pub fn format_from_name(name: &str) -> (r: Option<Format>)
    ensures
        r == format_of(name@),
{
    let low = lowercase(name);
    if same_text(low.as_str(), "srt") {
        Some(Format::Srt)
    } else if same_text(low.as_str(), "vtt") {
        Some(Format::Vtt)
    } else if same_text(low.as_str(), "ass") {
        Some(Format::Ass)
    } else if same_text(low.as_str(), "txt") {
        Some(Format::Txt)
    } else if same_text(low.as_str(), "json") {
        Some(Format::Json)
    } else {
        None
    }
}

/// The ending of the name of a file in a format.
pub open spec fn extension(format: Format) -> Seq<char> {
    match format {
        Format::Srt => ".srt"@,
        Format::Vtt => ".vtt"@,
        Format::Ass => ".ass"@,
        Format::Txt => ".txt"@,
        Format::Json => ".json"@,
    }
}

/// The seconds of a number of milliseconds as a JSON number: the whole
/// seconds, a point, and the thousandths without zeros at their end, of
/// which one digit at least is written.
pub open spec fn json_seconds(millis: u64) -> Seq<char> {
    let n = millis as nat;
    let part = n % 1000;
    decimal_digits(n / 1000) + seq!['.'] + if part % 100 == 0 {
        seq![digit(part / 100)]
    } else if part % 10 == 0 {
        seq![digit(part / 100), digit((part % 100) / 10)]
    } else {
        seq![digit(part / 100), digit((part % 100) / 10), digit(part % 10)]
    }
}

/// Writes the seconds of a number of milliseconds as a JSON number.
pub fn format_json_seconds(millis: u64) -> (r: String)
    ensures
        r@ == json_seconds(millis),
{
    let part: u64 = millis % 1000;
    let mut out = decimal(millis / 1000);
    out.push('.');
    out.push(digit_char((part / 100) as u8));
    if part % 100 != 0 {
        out.push(digit_char(((part % 100) / 10) as u8));
        if part % 10 != 0 {
            out.push(digit_char((part % 10) as u8));
        }
    }
    assert(out@ =~= json_seconds(millis));
    out
}

/// The entry of one cue in a file of the given format. `number` is the
/// cue's place in the list, from 1.
pub open spec fn entry(format: Format, cue: SubtitleView, number: nat) -> Seq<char> {
    match format {
        Format::Srt => decimal_digits(number) + "\n"@ + time_text(cue.start_time) + " --> "@
            + time_text(cue.end_time) + "\n"@ + cue.text + "\n\n"@,
        Format::Vtt => decimal_digits(number) + "\n"@ + vtt_time_text(cue.start_time) + " --> "@
            + vtt_time_text(cue.end_time) + "\n"@ + cue.text + "\n\n"@,
        Format::Ass => "Dialogue: 0,"@ + ass_time_text(cue.start_time) + ","@ + ass_time_text(
            cue.end_time,
        ) + ",Default,,0,0,0,,"@ + cue.text + "\n"@,
        Format::Txt => "["@ + time_text(cue.start_time) + "] - ["@ + time_text(cue.end_time)
            + "]\n"@ + cue.text + "\n\n"@,
        Format::Json => (if number == 1 {
            "\n  {\n    \"id\": "@
        } else {
            ",\n  {\n    \"id\": "@
        }) + json_string_text(cue.id) + ",\n    \"start_time\": "@ + json_seconds(cue.start_time)
            + ",\n    \"end_time\": "@ + json_seconds(cue.end_time) + ",\n    \"text\": "@
            + json_string_text(cue.text) + "\n  }"@,
    }
}

/// What stands before the entries in a file of the given format.
pub const VTT_HEAD: &'static str = "WEBVTT\n\n";

/// What stands before the entries in a file of the ASS format: the script
/// information, one style, and the columns of the events.
pub const ASS_HEAD: &'static str =
    "[Script Info]\nTitle: FlowText Generated Subtitles\nScriptType: v4.00+\nWrapStyle: 0\nScaledBorderAndShadow: yes\nYCbCr Matrix: TV.601\n\n[V4+ Styles]\nFormat: Name, Fontname, Fontsize, PrimaryColour, SecondaryColour, OutlineColour, BackColour, Bold, Italic, Underline, StrikeOut, ScaleX, ScaleY, Spacing, Angle, BorderStyle, Outline, Shadow, Alignment, MarginL, MarginR, MarginV, Encoding\nStyle: Default,Arial,20,&H00FFFFFF,&H000000FF,&H00000000,&H80000000,0,0,0,0,100,100,0,0,1,2,2,2,10,10,10,1\n\n[Events]\nFormat: Layer, Start, End, Style, Name, MarginL, MarginR, MarginV, Effect, Text\n";

/// What stands before the entries in a file of the given format.
pub open spec fn head(format: Format) -> Seq<char> {
    match format {
        Format::Srt => Seq::empty(),
        Format::Vtt => VTT_HEAD@,
        Format::Ass => ASS_HEAD@,
        Format::Txt => Seq::empty(),
        Format::Json => "["@,
    }
}

/// What stands behind the entries in a file of the given format that has
/// `count` entries.
pub open spec fn foot(format: Format, count: nat) -> Seq<char> {
    match format {
        Format::Json => if count == 0 {
            "]"@
        } else {
            "\n]"@
        },
        _ => Seq::empty(),
    }
}

/// The entries of the first `n` cues of a list.
pub open spec fn entries(format: Format, cues: Seq<SubtitleView>, n: nat) -> Seq<char>
    decreases n,
{
    if n == 0 || n > cues.len() {
        Seq::empty()
    } else {
        entries(format, cues, (n - 1) as nat) + entry(format, cues[n - 1], n)
    }
}

/// The text of a file that holds a cue list in the given format.
pub open spec fn file_text(format: Format, cues: Seq<SubtitleView>) -> Seq<char> {
    head(format) + entries(format, cues, cues.len()) + foot(format, cues.len())
}

/// Writes the entry of one cue.
pub fn write_entry(format: Format, cue: &Subtitle, number: u64) -> (r: String)
    ensures
        r@ == entry(format, cue@, number as nat),
{
    match format {
        Format::Srt => {
            let start = format_time_srt(cue.start_time);
            let end = format_time_srt(cue.end_time);
            let mut out = decimal(number);
            out.append("\n");
            out.append(start.as_str());
            out.append(" --> ");
            out.append(end.as_str());
            out.append("\n");
            out.append(cue.text.as_str());
            out.append("\n\n");
            out
        },
        Format::Vtt => {
            let start = format_time_vtt(cue.start_time);
            let end = format_time_vtt(cue.end_time);
            let mut out = decimal(number);
            out.append("\n");
            out.append(start.as_str());
            out.append(" --> ");
            out.append(end.as_str());
            out.append("\n");
            out.append(cue.text.as_str());
            out.append("\n\n");
            out
        },
        Format::Ass => {
            let start = format_time_ass(cue.start_time);
            let end = format_time_ass(cue.end_time);
            let mut out = String::from_str("Dialogue: 0,");
            out.append(start.as_str());
            out.append(",");
            out.append(end.as_str());
            out.append(",Default,,0,0,0,,");
            out.append(cue.text.as_str());
            out.append("\n");
            out
        },
        Format::Txt => {
            let start = format_time_srt(cue.start_time);
            let end = format_time_srt(cue.end_time);
            let mut out = String::from_str("[");
            out.append(start.as_str());
            out.append("] - [");
            out.append(end.as_str());
            out.append("]\n");
            out.append(cue.text.as_str());
            out.append("\n\n");
            out
        },
        Format::Json => {
            let id = json_quote(cue.id.as_str());
            let text = json_quote(cue.text.as_str());
            let start = format_json_seconds(cue.start_time);
            let end = format_json_seconds(cue.end_time);
            let mut out = if number == 1 {
                String::from_str("\n  {\n    \"id\": ")
            } else {
                String::from_str(",\n  {\n    \"id\": ")
            };
            out.append(id.as_str());
            out.append(",\n    \"start_time\": ");
            out.append(start.as_str());
            out.append(",\n    \"end_time\": ");
            out.append(end.as_str());
            out.append(",\n    \"text\": ");
            out.append(text.as_str());
            out.append("\n  }");
            out
        },
    }
}

/// Writes the text of a file that holds a cue list in the given format.
pub fn write_file_text(format: Format, cues: &Vec<Subtitle>) -> (r: String)
    ensures
        r@ == file_text(format, cues_view(cues@)),
{
    let mut out = match format {
        Format::Srt => String::new(),
        Format::Vtt => String::from_str(VTT_HEAD),
        Format::Ass => String::from_str(ASS_HEAD),
        Format::Txt => String::new(),
        Format::Json => String::from_str("["),
    };
    let mut i: usize = 0;
    let ghost start = out@;
    let ghost all = cues_view(cues@);
    assert(start == head(format));
    assert(start + Seq::<char>::empty() =~= start);
    while i < cues.len()
        invariant
            i <= cues.len(),
            all == cues_view(cues@),
            out@ == start + entries(format, all, i as nat),
        decreases cues.len() - i,
    {
        let written = write_entry(format, &cues[i], (i + 1) as u64);
        let ghost before = out@;
        out.append(written.as_str());
        proof {
            let sofar = entries(format, all, i as nat);
            assert(all[i as int] == cues@[i as int]@);
            assert(entries(format, all, (i + 1) as nat) == sofar + written@);
            assert(start + (sofar + written@) =~= before + written@);
        }
        i += 1;
    }
    match format {
        Format::Json => {
            if cues.len() == 0 {
                out.append("]");
            } else {
                out.append("\n]");
            }
        },
        _ => {
            assert(out@ + Seq::<char>::empty() =~= out@);
        },
    }
    out
}

/// A file that is ready to be written: where, and what.
#[derive(Debug, Clone)]
pub struct ExportFile {
    pub path: String,
    pub content: String,
}

/// The file of a cue list in the format of the given name, or a
/// diagnostic where there is no format of that name.
pub open spec fn export(cues: Seq<SubtitleView>, format: Seq<char>, file_name: Seq<char>) -> Result<
    (Seq<char>, Seq<char>),
    Seq<char>,
> {
    match format_of(format) {
        Some(f) => Ok((file_name + extension(f), file_text(f, cues))),
        None => Err("不支持的字幕格式: "@ + format),
    }
}

/// Builds the file of a cue list in the format of the given name. The
/// file's path is `file_name` with the ending of the format.
pub fn export_subtitles(subtitles: &Vec<Subtitle>, format: &str, file_name: &str) -> (r: Result<
    ExportFile,
    String,
>)
    ensures
        match r {
            Ok(file) => export(cues_view(subtitles@), format@, file_name@) == Ok::<
                (Seq<char>, Seq<char>),
                Seq<char>,
            >((file.path@, file.content@)),
            Err(e) => export(cues_view(subtitles@), format@, file_name@) == Err::<
                (Seq<char>, Seq<char>),
                Seq<char>,
            >(e@),
        },
{
    match format_from_name(format) {
        None => {
            let mut out = String::from_str("不支持的字幕格式: ");
            out.append(format);
            Err(out)
        },
        Some(f) => {
            let mut path = String::from_str(file_name);
            match f {
                Format::Srt => path.append(".srt"),
                Format::Vtt => path.append(".vtt"),
                Format::Ass => path.append(".ass"),
                Format::Txt => path.append(".txt"),
                Format::Json => path.append(".json"),
            }
            Ok(ExportFile { path, content: write_file_text(f, subtitles) })
        },
    }
}

/// A line without the carriage return at its end, if it has one.
pub open spec fn without_return(line: Seq<char>) -> Seq<char> {
    if line.len() > 0 && line.last() == '\r' {
        line.drop_last()
    } else {
        line
    }
}

/// The lines of a text: what stands before each of its line breaks,
/// without the carriage return before the line break if there is one, and
/// what stands behind the last line break if anything does.
pub open spec fn file_lines(content: Seq<char>) -> Seq<Seq<char>> {
    let pieces = split(content, seq!['\n']);
    if pieces.len() == 0 {
        Seq::empty()
    } else {
        let ended = pieces.drop_last().map_values(|l: Seq<char>| without_return(l));
        if pieces.last().len() == 0 {
            ended
        } else {
            ended.push(pieces.last())
        }
    }
}

/// Cuts a text into its lines.
#[verifier::rlimit(40)]
pub fn read_lines(content: &str) -> (r: Vec<Vec<char>>)
    ensures
        texts(r@) == file_lines(content@),
{
    let chars = chars_of(content);
    let mut newline: Vec<char> = Vec::new();
    newline.push('\n');
    assert(newline@ =~= seq!['\n']);
    let mut pieces = split_text(&chars, &newline);
    assert(texts(pieces@).len() == pieces.len());
    let ghost all = texts(pieces@);
    let last = match pieces.pop() {
        Some(l) => l,
        None => {
            let none: Vec<Vec<char>> = Vec::new();
            assert(texts(none@) =~= Seq::<Seq<char>>::empty());
            return none;
        },
    };
    proof {
        assert(texts(pieces@) =~= all.drop_last());
        assert(all.last() == last@);
    }
    let ghost ended = all.drop_last().map_values(|l: Seq<char>| without_return(l));
    let mut out: Vec<Vec<char>> = Vec::new();
    let mut i: usize = 0;
    assert(texts(out@) =~= ended.take(0));
    while i < pieces.len()
        invariant
            i <= pieces.len(),
            texts(pieces@) == all.drop_last(),
            ended == all.drop_last().map_values(|l: Seq<char>| without_return(l)),
            texts(out@) == ended.take(i as int),
        decreases pieces.len() - i,
    {
        let piece = &pieces[i];
        let end: usize = if piece.len() > 0 && piece[piece.len() - 1] == '\r' {
            piece.len() - 1
        } else {
            piece.len()
        };
        let line = chars_of_range(piece, 0, end);
        let ghost before = out@;
        out.push(line);
        proof {
            assert(piece@.subrange(0, end as int) =~= without_return(piece@));
            assert(all.drop_last()[i as int] == piece@);
            assert(texts(out@) =~= texts(before).push(line@));
            assert(texts(out@) =~= ended.take(i as int + 1));
        }
        i += 1;
    }
    assert(ended.take(pieces.len() as int) =~= ended);
    if last.len() > 0 {
        let ghost before = out@;
        out.push(last);
        assert(texts(out@) =~= texts(before).push(last@));
    }
    out
}

/// The milliseconds that a time in a subtitle file stands for: hours,
/// minutes and seconds with colons between them, and a number of
/// thousandths behind `mark`. White space around the time does not count.
pub open spec fn file_time(s: Seq<char>, mark: char) -> Option<u64> {
    let fields = split(trim(s), seq![':']);
    if fields.len() != 3 {
        None
    } else {
        let last = split(fields[2], seq![mark]);
        if last.len() != 2 {
            None
        } else {
            match (
                u32_text_value(fields[0]),
                u32_text_value(fields[1]),
                u32_text_value(last[0]),
                u32_text_value(last[1]),
            ) {
                (Some(h), Some(m), Some(sec), Some(part)) => Some(
                    (h * 3600000 + m * 60000 + sec * 1000 + part) as u64,
                ),
                _ => None,
            }
        }
    }
}

fn read_u32_chars(s: &Vec<char>) -> (r: Option<u32>)
    ensures
        r == u32_text_value(s@),
{
    let from: usize = if s.len() > 0 && s[0] == '+' {
        1
    } else {
        0
    };
    let digits = chars_of_range(s, from, s.len());
    assert(s@.skip(from as int) =~= s@.subrange(from as int, s.len() as int));
    assert(s@.skip(0) =~= s@);
    match read_number(&digits) {
        Some(v) => if v <= u32::MAX as u128 {
            Some(v as u32)
        } else {
            None
        },
        None => None,
    }
}

/// Reads a time in a subtitle file.
pub fn read_file_time(s: &Vec<char>, mark: char) -> (r: Option<u64>)
    ensures
        r == file_time(s@, mark),
{
    let (a, b) = trim_bounds(s);
    let body = chars_of_range(s, a, b);
    let mut colon: Vec<char> = Vec::new();
    colon.push(':');
    assert(colon@ =~= seq![':']);
    let fields = split_text(&body, &colon);
    assert(texts(fields@).len() == fields.len());
    if fields.len() != 3 {
        return None;
    }
    assert(texts(fields@)[0] == fields@[0]@);
    assert(texts(fields@)[1] == fields@[1]@);
    assert(texts(fields@)[2] == fields@[2]@);
    let mut sep: Vec<char> = Vec::new();
    sep.push(mark);
    assert(sep@ =~= seq![mark]);
    let last = split_text(&fields[2], &sep);
    assert(texts(last@).len() == last.len());
    if last.len() != 2 {
        return None;
    }
    assert(texts(last@)[0] == last@[0]@);
    assert(texts(last@)[1] == last@[1]@);
    match (
        read_u32_chars(&fields[0]),
        read_u32_chars(&fields[1]),
        read_u32_chars(&last[0]),
        read_u32_chars(&last[1]),
    ) {
        (Some(h), Some(m), Some(sec), Some(part)) => Some(
            h as u64 * 3600000 + m as u64 * 60000 + sec as u64 * 1000 + part as u64,
        ),
        _ => None,
    }
}

/// What stands in a text before its first space.
pub open spec fn first_word(s: Seq<char>) -> Seq<char> {
    split(s, seq![' '])[0]
}

/// The two times of a line in a subtitle file: what stands before and
/// behind the one arrow of the line. In a WebVTT file, what follows a
/// space behind a time does not belong to the time.
pub open spec fn time_line(line: Seq<char>, vtt: bool) -> Option<(u64, u64)> {
    let parts = split(line, arrow());
    if parts.len() != 2 {
        None
    } else {
        let first = if vtt {
            file_time(first_word(parts[0]), '.')
        } else {
            file_time(parts[0], ',')
        };
        let second = if vtt {
            file_time(first_word(parts[1]), '.')
        } else {
            file_time(parts[1], ',')
        };
        match (first, second) {
            (Some(a), Some(b)) => Some((a, b)),
            _ => None,
        }
    }
}

fn word_of(s: &Vec<char>) -> (r: Vec<char>)
    ensures
        r@ == first_word(s@),
{
    let mut space: Vec<char> = Vec::new();
    space.push(' ');
    assert(space@ =~= seq![' ']);
    match find(s, &space, 0) {
        Some(k) => chars_of_range(s, 0, k),
        None => {
            assert(s@.skip(0) =~= s@.subrange(0, s.len() as int));
            chars_of_range(s, 0, s.len())
        },
    }
}

fn make_arrow() -> (r: Vec<char>)
    ensures
        r@ == arrow(),
{
    let mut mark: Vec<char> = Vec::new();
    mark.push(' ');
    mark.push('-');
    mark.push('-');
    mark.push('>');
    mark.push(' ');
    assert(mark@ =~= arrow());
    mark
}

/// Reads the two times of a line in a subtitle file.
pub fn read_time_line(line: &Vec<char>, vtt: bool) -> (r: Option<(u64, u64)>)
    ensures
        r == time_line(line@, vtt),
{
    let mark = make_arrow();
    let parts = split_text(line, &mark);
    assert(texts(parts@).len() == parts.len());
    if parts.len() != 2 {
        return None;
    }
    assert(texts(parts@)[0] == parts@[0]@);
    assert(texts(parts@)[1] == parts@[1]@);
    let first = if vtt {
        let word = word_of(&parts[0]);
        read_file_time(&word, '.')
    } else {
        read_file_time(&parts[0], ',')
    };
    let second = if vtt {
        let word = word_of(&parts[1]);
        read_file_time(&word, '.')
    } else {
        read_file_time(&parts[1], ',')
    };
    match (first, second) {
        (Some(a), Some(b)) => Some((a, b)),
        _ => None,
    }
}

/// Where the reading of a subtitle file stands: what it waits for, the
/// parts of the cue that it is reading, and the cues that it has read.
pub struct Reading {
    /// 0 while an identifier is waited for, 1 while the line of the times
    /// is waited for, 2 while the text is read.
    pub phase: u8,
    pub id: Seq<char>,
    pub start_time: u64,
    pub end_time: u64,
    pub text: Seq<char>,
    pub cues: Seq<SubtitleView>,
}

/// The reading of a file before its first line.
pub open spec fn reading_start() -> Reading {
    Reading {
        phase: 0,
        id: Seq::empty(),
        start_time: 0,
        end_time: 0,
        text: Seq::empty(),
        cues: Seq::empty(),
    }
}

/// The cues after the cue that is being read is closed: with that cue,
/// its text trimmed, where its text is not blank and its end does not lie
/// before its start.
pub open spec fn closed_cues(r: Reading) -> Seq<SubtitleView> {
    if trim(r.text).len() > 0 && r.start_time <= r.end_time {
        r.cues.push(
            SubtitleView {
                id: r.id,
                start_time: r.start_time,
                end_time: r.end_time,
                text: trim(r.text),
            },
        )
    } else {
        r.cues
    }
}

/// The diagnostic of a line that should hold two times and does not.
pub const BAD_TIME_LINE: &'static str = "无效的时间行: ";

/// The reading after the line of the times was read, or the diagnostic of
/// a line that holds no two times.
pub open spec fn after_times(r: Reading, line: Seq<char>, vtt: bool, id: Seq<char>) -> Result<
    Reading,
    Seq<char>,
> {
    match time_line(line, vtt) {
        Some(times) => Ok(
            Reading {
                phase: 2,
                id,
                start_time: times.0,
                end_time: times.1,
                text: Seq::empty(),
                cues: r.cues,
            },
        ),
        None => Err(BAD_TIME_LINE@ + line),
    }
}

/// The reading after one more line. The line is trimmed first. Before a
/// cue, empty lines are passed over, and in a WebVTT file notes too; the
/// first other line is the identifier of a cue, or in a WebVTT file the
/// line of its times where it holds an arrow, and the cue is then
/// numbered. Behind the identifier comes the line of the times, and behind
/// that the text, up to the next empty line.
pub open spec fn read_line(r: Reading, raw: Seq<char>, vtt: bool) -> Result<Reading, Seq<char>> {
    let line = trim(raw);
    if r.phase == 0 {
        if line.len() == 0 || (vtt && matches_at(line, "NOTE"@, 0)) {
            Ok(r)
        } else if vtt && find_from(line, arrow(), 0) >= 0 {
            after_times(r, line, vtt, decimal_digits(r.cues.len() + 1))
        } else {
            Ok(Reading { phase: 1, id: line, ..r })
        }
    } else if r.phase == 1 {
        after_times(r, line, vtt, r.id)
    } else {
        if line.len() == 0 {
            Ok(Reading { phase: 0, text: Seq::empty(), cues: closed_cues(r), ..r })
        } else if r.text.len() > 0 {
            Ok(Reading { text: r.text + seq!['\n'] + line, ..r })
        } else {
            Ok(Reading { text: line, ..r })
        }
    }
}

/// The reading after the first `n` of a list of lines, or the diagnostic
/// of the first line that is wrong.
pub open spec fn read_all(lines: Seq<Seq<char>>, n: nat, vtt: bool) -> Result<Reading, Seq<char>>
    decreases n,
{
    if n == 0 || n > lines.len() {
        Ok(reading_start())
    } else {
        match read_all(lines, (n - 1) as nat, vtt) {
            Ok(r) => read_line(r, lines[n - 1], vtt),
            Err(e) => Err(e),
        }
    }
}

/// The cues of a list of lines: those that were closed by an empty line,
/// and the one that the end of the file closes.
pub open spec fn lines_cues(lines: Seq<Seq<char>>, vtt: bool) -> Result<
    Seq<SubtitleView>,
    Seq<char>,
> {
    match read_all(lines, lines.len(), vtt) {
        Ok(r) => Ok(
            if r.phase == 2 {
                closed_cues(r)
            } else {
                r.cues
            },
        ),
        Err(e) => Err(e),
    }
}

/// Closing a cue keeps a well-formed list of cues well formed.
pub proof fn lemma_closed_cues_well_formed(r: Reading)
    requires
        all_well_formed(r.cues),
    ensures
        all_well_formed(closed_cues(r)),
{
    lemma_trim_trimmed(r.text);
    let closed = closed_cues(r);
    assert forall|i: int| 0 <= i < closed.len() implies (#[trigger] closed[i]).well_formed() by {
        if i < r.cues.len() {
            assert(closed[i] == r.cues[i]);
        }
    }
}

/// The cues that were read after any number of lines are well formed.
pub proof fn lemma_read_all_well_formed(lines: Seq<Seq<char>>, n: nat, vtt: bool)
    ensures
        read_all(lines, n, vtt) matches Ok(r) ==> all_well_formed(r.cues),
    decreases n,
{
    if !(n == 0 || n > lines.len()) {
        lemma_read_all_well_formed(lines, (n - 1) as nat, vtt);
        match read_all(lines, (n - 1) as nat, vtt) {
            Ok(r) => {
                lemma_closed_cues_well_formed(r);
            },
            Err(_) => {},
        }
    }
}

/// The cues of a list of lines are well formed: each has an end that does
/// not lie before its start, and a text that is not blank.
pub proof fn lemma_lines_cues_well_formed(lines: Seq<Seq<char>>, vtt: bool)
    ensures
        lines_cues(lines, vtt) matches Ok(cues) ==> all_well_formed(cues),
{
    lemma_read_all_well_formed(lines, lines.len(), vtt);
    match read_all(lines, lines.len(), vtt) {
        Ok(r) => {
            lemma_closed_cues_well_formed(r);
        },
        Err(_) => {},
    }
}

/// The cues of a file in the SRT format.
pub open spec fn srt_file_cues(content: Seq<char>) -> Result<Seq<SubtitleView>, Seq<char>> {
    lines_cues(file_lines(content), false)
}

/// The cues of a file in the WebVTT format, which starts with a line that
/// names the format.
pub open spec fn vtt_file_cues(content: Seq<char>) -> Result<Seq<SubtitleView>, Seq<char>> {
    let lines = file_lines(content);
    if lines.len() == 0 {
        Err("空的WebVTT文件"@)
    } else if !matches_at(trim(lines[0]), "WEBVTT"@, 0) {
        Err("无效的WebVTT文件，缺少WEBVTT头部"@)
    } else {
        lines_cues(lines.skip(1), true)
    }
}

/// Whether `s` starts with `prefix`.
pub fn starts_with(s: &Vec<char>, prefix: &str) -> (r: bool)
    ensures
        r == matches_at(s@, prefix@, 0),
{
    let p = chars_of(prefix);
    if p.len() > s.len() {
        false
    } else {
        matches_here(s, &p, 0)
    }
}

/// The reading of a subtitle file as it is kept while the file is read.
pub struct ReadingState {
    pub phase: u8,
    pub id: Vec<char>,
    pub start_time: u64,
    pub end_time: u64,
    pub text: Vec<char>,
    pub cues: Vec<Subtitle>,
}

impl View for ReadingState {
    type V = Reading;

    open spec fn view(&self) -> Reading {
        Reading {
            phase: self.phase,
            id: self.id@,
            start_time: self.start_time,
            end_time: self.end_time,
            text: self.text@,
            cues: cues_view(self.cues@),
        }
    }
}

/// A reading or a diagnostic, by contents.
pub open spec fn reading_view(r: Result<ReadingState, String>) -> Result<Reading, Seq<char>> {
    match r {
        Ok(s) => Ok(s@),
        Err(e) => Err(e@),
    }
}

fn empty_text() -> (r: Vec<char>)
    ensures
        r@ == Seq::<char>::empty(),
{
    let out: Vec<char> = Vec::new();
    assert(out@ =~= Seq::<char>::empty());
    out
}

fn take_times(state: ReadingState, line: Vec<char>, vtt: bool, id: Vec<char>) -> (r: Result<
    ReadingState,
    String,
>)
    ensures
        reading_view(r) == after_times(state@, line@, vtt, id@),
{
    match read_time_line(&line, vtt) {
        Some(times) => Ok(
            ReadingState {
                phase: 2,
                id,
                start_time: times.0,
                end_time: times.1,
                text: empty_text(),
                cues: state.cues,
            },
        ),
        None => {
            let mut out = String::from_str(BAD_TIME_LINE);
            let shown = string_of(&line);
            out.append(shown.as_str());
            Err(out)
        },
    }
}

fn close_cue(state: ReadingState) -> (r: Vec<Subtitle>)
    ensures
        cues_view(r@) == closed_cues(state@),
{
    let mut cues = state.cues;
    let (c, d) = trim_bounds(&state.text);
    if c < d && state.start_time <= state.end_time {
        let cue = Subtitle {
            id: string_of(&state.id),
            start_time: state.start_time,
            end_time: state.end_time,
            text: string_of_range(&state.text, c, d),
        };
        let ghost sofar = cues@;
        cues.push(cue);
        assert(cues_view(cues@) =~= cues_view(sofar).push(cue@));
    }
    cues
}

fn add_text(text: Vec<char>, line: &Vec<char>) -> (r: Vec<char>)
    ensures
        r@ == if text@.len() > 0 {
            text@ + seq!['\n'] + line@
        } else {
            line@
        },
{
    let mut out = text;
    let ghost old_text = out@;
    if out.len() > 0 {
        out.push('\n');
    }
    let mut j: usize = 0;
    let ghost start = out@;
    while j < line.len()
        invariant
            j <= line.len(),
            out@ == start + line@.take(j as int),
        decreases line.len() - j,
    {
        out.push(line[j]);
        assert(line@.take(j as int + 1) =~= line@.take(j as int).push(line@[j as int]));
        j += 1;
    }
    proof {
        assert(line@.take(line.len() as int) =~= line@);
        if old_text.len() > 0 {
            assert(out@ =~= old_text + seq!['\n'] + line@);
        } else {
            assert(out@ =~= line@);
        }
    }
    out
}

/// Reads one more line of a subtitle file.
#[verifier::rlimit(40)]
pub fn read_next_line(state: ReadingState, raw: &Vec<char>, vtt: bool) -> (r: Result<
    ReadingState,
    String,
>)
    ensures
        reading_view(r) == read_line(state@, raw@, vtt),
{
    let (a, b) = trim_bounds(raw);
    let line = chars_of_range(raw, a, b);
    if state.phase == 0 {
        if line.len() == 0 || (vtt && starts_with(&line, "NOTE")) {
            Ok(state)
        } else {
            let mark = make_arrow();
            if vtt && find(&line, &mark, 0).is_some() {
                let number = crate::text::decimal_wide(state.cues.len() as u128 + 1);
                let id = chars_of(number.as_str());
                take_times(state, line, vtt, id)
            } else {
                Ok(
                    ReadingState {
                        phase: 1,
                        id: line,
                        start_time: state.start_time,
                        end_time: state.end_time,
                        text: state.text,
                        cues: state.cues,
                    },
                )
            }
        }
    } else if state.phase == 1 {
        let id = chars_of_range(&state.id, 0, state.id.len());
        assert(id@ =~= state.id@);
        take_times(state, line, vtt, id)
    } else {
        if line.len() == 0 {
            let phase: u8 = 0;
            let id = chars_of_range(&state.id, 0, state.id.len());
            assert(id@ =~= state.id@);
            let start_time = state.start_time;
            let end_time = state.end_time;
            let cues = close_cue(state);
            Ok(ReadingState { phase, id, start_time, end_time, text: empty_text(), cues })
        } else {
            Ok(
                ReadingState {
                    phase: state.phase,
                    id: state.id,
                    start_time: state.start_time,
                    end_time: state.end_time,
                    text: add_text(state.text, &line),
                    cues: state.cues,
                },
            )
        }
    }
}

/// A line that is wrong stays wrong, whatever follows it.
pub proof fn lemma_error_stays(lines: Seq<Seq<char>>, k: nat, n: nat, vtt: bool)
    requires
        k <= n <= lines.len(),
        read_all(lines, k, vtt) is Err,
    ensures
        read_all(lines, n, vtt) == read_all(lines, k, vtt),
    decreases n,
{
    if n > k {
        lemma_error_stays(lines, k, (n - 1) as nat, vtt);
    }
}

/// Reads the cues of a list of lines, from line `from` on.
#[verifier::rlimit(40)]
pub fn read_cues(lines: &Vec<Vec<char>>, from: usize, vtt: bool) -> (r: Result<Vec<Subtitle>, String>)
    requires
        from <= lines.len(),
    ensures
        crate::video::outcome_view(r) == lines_cues(texts(lines@).skip(from as int), vtt),
        outcome_well_formed(r),
{
    let ghost all = texts(lines@).skip(from as int);
    proof {
        lemma_lines_cues_well_formed(all, vtt);
    }
    let cues: Vec<Subtitle> = Vec::new();
    assert(cues_view(cues@) =~= Seq::empty());
    let mut state = ReadingState {
        phase: 0,
        id: empty_text(),
        start_time: 0,
        end_time: 0,
        text: empty_text(),
        cues,
    };
    let mut i: usize = from;
    while i < lines.len()
        invariant
            from <= i <= lines.len(),
            all == texts(lines@).skip(from as int),
            read_all(all, (i - from) as nat, vtt) == Ok::<Reading, Seq<char>>(state@),
        decreases lines.len() - i,
    {
        proof {
            assert(all[i - from] == lines@[i as int]@);
        }
        match read_next_line(state, &lines[i], vtt) {
            Ok(next) => {
                state = next;
            },
            Err(e) => {
                proof {
                    lemma_error_stays(all, (i - from + 1) as nat, all.len(), vtt);
                }
                return Err(e);
            },
        }
        i += 1;
    }
    if state.phase == 2 {
        Ok(close_cue(state))
    } else {
        Ok(state.cues)
    }
}

/// Reads the cues of a file in the SRT format.
pub fn import_srt(content: &str) -> (r: Result<Vec<Subtitle>, String>)
    ensures
        crate::video::outcome_view(r) == srt_file_cues(content@),
        outcome_well_formed(r),
{
    let lines = read_lines(content);
    assert(texts(lines@).skip(0) =~= texts(lines@));
    read_cues(&lines, 0, false)
}

/// Reads the cues of a file in the WebVTT format.
pub fn import_vtt(content: &str) -> (r: Result<Vec<Subtitle>, String>)
    ensures
        crate::video::outcome_view(r) == vtt_file_cues(content@),
        outcome_well_formed(r),
{
    let lines = read_lines(content);
    assert(texts(lines@).len() == lines.len());
    if lines.len() == 0 {
        return Err(String::from_str("空的WebVTT文件"));
    }
    assert(texts(lines@)[0] == lines@[0]@);
    let (a, b) = trim_bounds(&lines[0]);
    let first = chars_of_range(&lines[0], a, b);
    if !starts_with(&first, "WEBVTT") {
        return Err(String::from_str("无效的WebVTT文件，缺少WEBVTT头部"));
    }
    read_cues(&lines, 1, true)
}

/// The cues of a subtitle file, by the ending of its name: SRT and WebVTT
/// files are read, the case of the ending's letters aside.
pub open spec fn import(extension: Seq<char>, content: Seq<char>) -> Result<
    Seq<SubtitleView>,
    Seq<char>,
> {
    let low = lowercase_text(extension);
    if low == "srt"@ {
        srt_file_cues(content)
    } else if low == "vtt"@ {
        vtt_file_cues(content)
    } else {
        Err("不支持的字幕格式: "@ + extension)
    }
}

/// Reads the cues of a subtitle file. `extension` is the ending of the
/// file's name, without the point.
pub fn import_subtitles(extension: &str, content: &str) -> (r: Result<Vec<Subtitle>, String>)
    ensures
        crate::video::outcome_view(r) == import(extension@, content@),
        outcome_well_formed(r),
{
    let low = lowercase(extension);
    if same_text(low.as_str(), "srt") {
        import_srt(content)
    } else if same_text(low.as_str(), "vtt") {
        import_vtt(content)
    } else {
        let mut out = String::from_str("不支持的字幕格式: ");
        out.append(extension);
        Err(out)
    }
}

} // verus!
