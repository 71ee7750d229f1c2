use flowtext::codec::{
    export_subtitles, format_from_name, format_json_seconds, format_time_ass, format_time_vtt,
    import_srt, import_subtitles, import_vtt, read_lines, write_file_text, Format,
};
use flowtext::video::Subtitle;

fn cue(id: &str, start: u64, end: u64, text: &str) -> Subtitle {
    Subtitle { id: id.to_string(), start_time: start, end_time: end, text: text.to_string() }
}

fn parts(cues: &[Subtitle]) -> Vec<(String, u64, u64, String)> {
    cues.iter().map(|c| (c.id.clone(), c.start_time, c.end_time, c.text.clone())).collect()
}

fn sample() -> Vec<Subtitle> {
    vec![cue("a", 0, 1500, "Hello"), cue("b", 61_250, 3_661_007, "Two\nlines \"quoted\"")]
}

#[test]
fn times_are_written_for_each_format() {
    assert_eq!(format_time_vtt(3_723_004), "01:02:03.004");
    assert_eq!(format_time_vtt(0), "00:00:00.000");
    assert_eq!(format_time_ass(3_723_004), "1:02:03.00");
    assert_eq!(format_time_ass(59_999), "0:00:59.99");
    assert_eq!(format_time_ass(36_000_450), "10:00:00.45");
    assert_eq!(format_json_seconds(0), "0.0");
    assert_eq!(format_json_seconds(5500), "5.5");
    assert_eq!(format_json_seconds(10_000), "10.0");
    assert_eq!(format_json_seconds(1234), "1.234");
    assert_eq!(format_json_seconds(1230), "1.23");
    assert_eq!(format_json_seconds(1005), "1.005");
    assert_eq!(format_json_seconds(1050), "1.05");
}

#[test]
fn formats_are_found_by_name_whatever_the_case() {
    assert_eq!(format_from_name("srt"), Some(Format::Srt));
    assert_eq!(format_from_name("VTT"), Some(Format::Vtt));
    assert_eq!(format_from_name("Ass"), Some(Format::Ass));
    assert_eq!(format_from_name("txt"), Some(Format::Txt));
    assert_eq!(format_from_name("JSON"), Some(Format::Json));
    assert_eq!(format_from_name("doc"), None);
    assert_eq!(format_from_name(""), None);
}

#[test]
fn an_srt_file_numbers_its_cues() {
    let file = export_subtitles(&sample(), "srt", "/tmp/out").unwrap();
    assert_eq!(file.path, "/tmp/out.srt");
    assert_eq!(
        file.content,
        "1\n00:00:00,000 --> 00:00:01,500\nHello\n\n2\n00:01:01,250 --> 01:01:01,007\nTwo\nlines \"quoted\"\n\n"
    );
}

#[test]
fn a_vtt_file_starts_with_its_name() {
    let file = export_subtitles(&sample(), "vtt", "out").unwrap();
    assert_eq!(file.path, "out.vtt");
    assert_eq!(
        file.content,
        "WEBVTT\n\n1\n00:00:00.000 --> 00:00:01.500\nHello\n\n2\n00:01:01.250 --> 01:01:01.007\nTwo\nlines \"quoted\"\n\n"
    );
    assert_eq!(write_file_text(Format::Vtt, &vec![]), "WEBVTT\n\n");
}

#[test]
fn an_ass_file_has_a_dialogue_line_for_each_cue() {
    let file = export_subtitles(&sample(), "ASS", "out").unwrap();
    assert_eq!(file.path, "out.ass");
    assert!(file.content.starts_with("[Script Info]\nTitle: FlowText Generated Subtitles\nScriptType: v4.00+\n"));
    assert!(file.content.ends_with(
        "[Events]\nFormat: Layer, Start, End, Style, Name, MarginL, MarginR, MarginV, Effect, Text\nDialogue: 0,0:00:00.00,0:00:01.50,Default,,0,0,0,,Hello\nDialogue: 0,0:01:01.25,1:01:01.00,Default,,0,0,0,,Two\nlines \"quoted\"\n"
    ));
}

#[test]
fn a_txt_file_puts_the_times_in_brackets() {
    let file = export_subtitles(&sample(), "txt", "out").unwrap();
    assert_eq!(file.path, "out.txt");
    assert_eq!(
        file.content,
        "[00:00:00,000] - [00:00:01,500]\nHello\n\n[00:01:01,250] - [01:01:01,007]\nTwo\nlines \"quoted\"\n\n"
    );
}

#[test]
fn a_json_file_is_an_array_of_cues_with_seconds() {
    let file = export_subtitles(&sample(), "json", "out").unwrap();
    assert_eq!(file.path, "out.json");
    assert_eq!(
        file.content,
        "[\n  {\n    \"id\": \"a\",\n    \"start_time\": 0.0,\n    \"end_time\": 1.5,\n    \"text\": \"Hello\"\n  },\n  {\n    \"id\": \"b\",\n    \"start_time\": 61.25,\n    \"end_time\": 3661.007,\n    \"text\": \"Two\\nlines \\\"quoted\\\"\"\n  }\n]"
    );
    let value: serde_json::Value = serde_json::from_str(&file.content).unwrap();
    assert_eq!(value[1]["text"], "Two\nlines \"quoted\"");
    assert_eq!(value[1]["end_time"], 3661.007);
    let expected = serde_json::to_string_pretty(&value).unwrap();
    assert_eq!(expected.len(), file.content.len());
    assert_eq!(write_file_text(Format::Json, &vec![]), "[]");
}

#[test]
fn an_unknown_format_is_refused() {
    assert_eq!(export_subtitles(&sample(), "docx", "out").err(), Some("不支持的字幕格式: docx".to_string()));
    assert_eq!(import_subtitles("txt", "x").err(), Some("不支持的字幕格式: txt".to_string()));
}

#[test]
fn lines_end_at_line_breaks_without_their_carriage_returns() {
    let lines: Vec<String> = read_lines("a\r\nb\n\nc\r").iter().map(|l| l.iter().collect()).collect();
    assert_eq!(lines, vec!["a", "b", "", "c\r"]);
    assert_eq!(read_lines("").len(), 0);
    assert_eq!(read_lines("\n").len(), 1);
    assert_eq!(read_lines("x\n").len(), 1);
    assert_eq!(read_lines("x\n\n").len(), 2);
    for text in ["", "a", "a\n", "a\r\n\r\nb", "\n\n", "a\rb\n", "tail\r"] {
        let mine: Vec<String> = read_lines(text).iter().map(|l| l.iter().collect()).collect();
        let std: Vec<String> = std::io::BufRead::lines(text.as_bytes()).map(|l| l.unwrap()).collect();
        assert_eq!(mine, std, "lines of {:?}", text);
    }
}

#[test]
fn an_srt_file_is_read_cue_by_cue() {
    let content = "\n1\r\n00:00:01,000 --> 00:00:02,500\r\n  first  \r\n\r\n\r\nsecond id\n00:01:00,5 --> 01:00:00,000\nline one\n  line two\n\n3\n00:00:03,000 --> 00:00:04,000\nlast without blank line";
    let cues = import_srt(content).unwrap();
    assert_eq!(
        parts(&cues),
        vec![
            ("1".to_string(), 1000, 2500, "first".to_string()),
            ("second id".to_string(), 60_005, 3_600_000, "line one\nline two".to_string()),
            ("3".to_string(), 3000, 4000, "last without blank line".to_string()),
        ]
    );
    assert_eq!(import_srt("").unwrap().len(), 0);
    assert_eq!(import_srt("1\n00:00:01,000 --> 00:00:02,000\n\n").unwrap().len(), 0);
}

#[test]
fn a_wrong_time_line_in_an_srt_file_is_an_error() {
    assert_eq!(import_srt("1\nno times\ntext\n").err(), Some("无效的时间行: no times".to_string()));
    assert_eq!(import_srt("1\n00:00:01.000 --> 00:00:02.000\ntext\n").err(), Some("无效的时间行: 00:00:01.000 --> 00:00:02.000".to_string()));
    assert_eq!(import_srt("1\n00:00:01,000 --> 00:00:02,000 --> 00:00:03,000\nx").err(), Some("无效的时间行: 00:00:01,000 --> 00:00:02,000 --> 00:00:03,000".to_string()));
    assert_eq!(import_srt("1\n00:00:01 --> 00:00:02\nx").err(), Some("无效的时间行: 00:00:01 --> 00:00:02".to_string()));
    assert_eq!(import_srt("1\n00:00:-1,000 --> 00:00:02,000\nx").err(), Some("无效的时间行: 00:00:-1,000 --> 00:00:02,000".to_string()));
    assert_eq!(parts(&import_srt("1\n+1:+2:+3,+4 --> 0:0:4294967295,0\nx").unwrap()), vec![("1".to_string(), 3_723_004, 4_294_967_295_000, "x".to_string())]);
    assert!(import_srt("1\n0:0:4294967296,0 --> 0:0:1,0\nx").is_err());
}

#[test]
fn a_vtt_file_is_read_with_notes_and_unnamed_cues() {
    let content = "WEBVTT - title\n\nNOTE a comment\n\n00:00:01.000 --> 00:00:02.000 align:start\nunnamed\n\nintro\n00:00:02.000 --> 00:00:03.500\nnamed\nmore\n\n00:00:04.000 --> 00:00:05.000\nthird";
    let cues = import_vtt(content).unwrap();
    assert_eq!(
        parts(&cues),
        vec![
            ("1".to_string(), 1000, 2000, "unnamed".to_string()),
            ("intro".to_string(), 2000, 3500, "named\nmore".to_string()),
            ("3".to_string(), 4000, 5000, "third".to_string()),
        ]
    );
}

#[test]
fn a_vtt_file_needs_its_header() {
    assert_eq!(import_vtt("").err(), Some("空的WebVTT文件".to_string()));
    assert_eq!(import_vtt("1\n00:00:01.000 --> 00:00:02.000\nx").err(), Some("无效的WebVTT文件，缺少WEBVTT头部".to_string()));
    assert_eq!(import_vtt("  WEBVTT\n").unwrap().len(), 0);
    assert_eq!(import_vtt("WEBVTT\n\nid\nbroken --> line\nx").err(), Some("无效的时间行: broken --> line".to_string()));
    assert_eq!(import_vtt("WEBVTT\n\n00:00:01,000 --> 00:00:02,000\nx").err(), Some("无效的时间行: 00:00:01,000 --> 00:00:02,000".to_string()));
}

#[test]
fn files_are_read_by_the_ending_of_their_name() {
    let srt = "1\n00:00:01,000 --> 00:00:02,000\nx\n";
    assert_eq!(import_subtitles("SRT", srt).unwrap().len(), 1);
    assert_eq!(import_subtitles("vtt", "WEBVTT\n\n00:00:01.000 --> 00:00:02.000\nx").unwrap().len(), 1);
}

#[test]
fn what_is_exported_as_srt_is_imported_again() {
    let cues = vec![cue("1", 0, 1500, "Hello"), cue("2", 61_250, 3_661_007, "Two\nlines")];
    let file = export_subtitles(&cues, "srt", "x").unwrap();
    assert_eq!(parts(&import_subtitles("srt", &file.content).unwrap()), parts(&cues));
    let file = export_subtitles(&cues, "vtt", "x").unwrap();
    assert_eq!(parts(&import_subtitles("vtt", &file.content).unwrap()), parts(&cues));
}

#[test]
fn a_cue_that_ends_before_it_starts_is_left_out() {
    let content = "1\n00:00:05,000 --> 00:00:01,000\nbackwards\n\n2\n00:00:01,000 --> 00:00:02,000\nforwards\n\n3\n00:00:03,000 --> 00:00:03,000\nat once\n";
    let cues = import_srt(content).unwrap();
    assert_eq!(
        parts(&cues),
        vec![("2".to_string(), 1000, 2000, "forwards".to_string()), ("3".to_string(), 3000, 3000, "at once".to_string())]
    );
    assert_eq!(import_srt("1\n00:00:05,000 --> 00:00:01,000\nbackwards\n").unwrap().len(), 0);
    let cues = import_subtitles("vtt", "WEBVTT\n\n00:00:05.000 --> 00:00:01.000\nbackwards\n\n00:00:01.000 --> 00:00:02.000\nforwards\n").unwrap();
    assert_eq!(cues.len(), 1);
    assert!(cues.iter().all(|c| c.is_well_formed()));
}
