use flowtext::baidu::{read_recognition_answer, read_token_answer, recognition_request, token_request};
use flowtext::chunks::{chunk_count, offset_time, process_large_audio_in_chunks, progress_before_chunk};
use flowtext::cos::{content_type_for, extract_object_key_from_url, object_key_from_path, upload_failure_text, CosClient, CosConfig, Transport};
use flowtext::fallback::{
    generate_audio_processing_suggestions, generate_test_data_result,
    generate_whisper_installation_guide, installation_guide, name_or_unknown, one_decimal,
    simulate_recognition_result, test_data,
};
use flowtext::job::{FailureKind, Reply};
use flowtext::probe::{build_audio_file_name, build_probe_arguments, extract_audio, get_video_info, read_duration, read_u32};
use flowtext::text::{chars_of, find, join_strings, sort_strings, split_text, text_precedes};
use flowtext::video::Subtitle;
use flowtext::whisper::{build_tool_arguments, classify_failure, fallback_script, language_argument, read_tool_run, text_contains, ToolRun};

fn cue(id: &str, start: u64, end: u64, text: &str) -> Subtitle {
    Subtitle { id: id.to_string(), start_time: start, end_time: end, text: text.to_string() }
}

fn parts(cues: &[Subtitle]) -> Vec<(String, u64, u64, String)> {
    cues.iter().map(|c| (c.id.clone(), c.start_time, c.end_time, c.text.clone())).collect()
}

fn client(domain: Option<&str>) -> CosClient {
    CosClient::new(CosConfig {
        secret_id: "AKIDexample".to_string(),
        secret_key: "secretexample".to_string(),
        bucket: "audio-1250000000".to_string(),
        region: "ap-beijing".to_string(),
        domain: domain.map(|d| d.to_string()),
    })
}

#[test]
fn guidance_has_five_cues_of_six_seconds() {
    let cues = installation_guide("talk");
    assert_eq!(cues.len(), 5);
    for (i, c) in cues.iter().enumerate() {
        assert_eq!(c.id, (i + 1).to_string());
        assert_eq!(c.start_time, 6000 * i as u64);
        assert_eq!(c.end_time, 6000 * (i as u64 + 1));
        assert!(c.is_well_formed());
    }
    assert_eq!(cues[0].text, "正在处理文件: talk - Whisper未安装");
    assert_eq!(cues[1].text, "要使用真实Whisper识别，请安装: pip install openai-whisper");
    let by_path = generate_whisper_installation_guide("/tmp/meeting.wav");
    assert_eq!(by_path[0].text, "正在处理文件: meeting - Whisper未安装");
    let no_name = generate_whisper_installation_guide("");
    assert_eq!(no_name[0].text, "正在处理文件: unknown - Whisper未安装");
}

#[test]
fn a_file_is_named_by_its_stem_or_a_fixed_word() {
    assert_eq!(name_or_unknown(Some("meeting".to_string())), "meeting");
    assert_eq!(name_or_unknown(Some(String::new())), "");
    assert_eq!(name_or_unknown(None), "unknown");
    for path in ["/tmp/meeting.wav", "a/b/c.tar.gz", "plain", "dir/", ".hidden", "x/..", "", "/"] {
        let first = &generate_whisper_installation_guide(path)[0].text;
        let name = first
            .strip_prefix("正在处理文件: ")
            .and_then(|rest| rest.strip_suffix(" - Whisper未安装"))
            .unwrap();
        assert!(name == "unknown" || path.contains(name), "name {:?} of {:?}", name, path);
    }
    assert_eq!(generate_whisper_installation_guide("a/b/c.tar.gz")[0].text, "正在处理文件: c.tar - Whisper未安装");
    assert_eq!(generate_whisper_installation_guide("x/..")[0].text, "正在处理文件: unknown - Whisper未安装");
}

#[test]
fn test_data_is_marked_as_test_data() {
    let cues = test_data("talk", "腾讯云");
    assert_eq!(
        parts(&cues),
        vec![
            ("1".to_string(), 0, 5000, "[测试数据] 使用腾讯云引擎识别文件: talk".to_string()),
            ("2".to_string(), 5500, 10000, "[测试数据] 腾讯云引擎当前处于测试模式".to_string()),
            ("3".to_string(), 10500, 15000, "[测试数据] 请配置真实API密钥以获取真实识别结果".to_string()),
            ("4".to_string(), 15500, 20000, "[测试数据] 这些是示例字幕，不是真实识别结果".to_string()),
        ]
    );
    assert_eq!(generate_test_data_result("/a/b/clip.mp3", "X")[0].text, "[测试数据] 使用X引擎识别文件: clip");
    let sample = simulate_recognition_result("ignored");
    assert_eq!(sample.len(), 4);
    assert_eq!(sample[0].text, "欢迎使用FlowText视频字幕生成工具");
    assert_eq!((sample[3].start_time, sample[3].end_time), (15500, 20000));
}

#[test]
fn quotients_are_rounded_to_one_decimal() {
    assert_eq!(one_decimal(0, 1048576), "0.0");
    assert_eq!(one_decimal(1048576, 1048576), "1.0");
    assert_eq!(one_decimal(1572864, 1048576), "1.5");
    assert_eq!(one_decimal(1048575, 1048576), "1.0");
    assert_eq!(one_decimal(52428, 1048576), "0.0");
    assert_eq!(one_decimal(52429, 1048576), "0.1");
    assert_eq!(one_decimal(262144, 1048576), "0.3");
    assert_eq!(one_decimal(7, 2), "3.5");
    assert_eq!(one_decimal(u64::MAX, 1), "18446744073709551615.0");
    assert_eq!(one_decimal(19, 20), "1.0");
}

#[test]
fn advice_names_size_length_and_file() {
    let text = generate_audio_processing_suggestions(3 * 1920000, "/tmp/a.wav");
    assert!(text.starts_with("音频文件太大 (5.5 MB，约 3.0 分钟)，超过腾讯云SentenceRecognition API限制。\n\n"));
    assert!(text.ends_with("当前文件: /tmp/a.wav\n建议：先尝试使用Whisper本地识别，或将音频分段处理。"));
}

#[test]
fn the_token_address_needs_both_keys() {
    assert_eq!(
        token_request("ak", "sk"),
        Ok("https://aip.baidubce.com/oauth/2.0/token?grant_type=client_credentials&client_id=ak&client_secret=sk".to_string())
    );
    assert_eq!(token_request("", "sk"), Err("请在设置中配置百度API密钥".to_string()));
    assert_eq!(token_request("ak", ""), Err("请在设置中配置百度API密钥".to_string()));
}

#[test]
fn the_token_is_read_from_its_answer() {
    assert!(matches!(read_token_answer(r#"{"access_token":"tok","expires_in":1}"#), Reply::Text(t) if t == "tok"));
    match read_token_answer(r#"{"error":"invalid_client","access_token":"tok"}"#) {
        Reply::Failed { kind: FailureKind::Remote, message } => assert_eq!(message, "获取访问令牌失败: invalid_client"),
        other => panic!("unexpected {:?}", other),
    }
    match read_token_answer(r#"{"expires_in":1}"#) {
        Reply::Failed { message, .. } => assert_eq!(message, "响应中未找到访问令牌"),
        other => panic!("unexpected {:?}", other),
    }
    match read_token_answer("nope") {
        Reply::Failed { message, .. } => assert!(message.starts_with("解析访问令牌响应失败: ")),
        other => panic!("unexpected {:?}", other),
    }
}

#[test]
fn the_recognition_request_carries_audio_and_model() {
    let text = recognition_request("tok", b"hello", "en-US").unwrap();
    assert_eq!(
        text,
        r#"{"channel":"1","cuid":"flow-text-app","dev_pid":"1737","format":"wav","len":"5","rate":"16000","speech":"aGVsbG8=","token":"tok"}"#
    );
    let value: serde_json::Value = serde_json::from_str(&recognition_request("t", &[1, 2, 3, 4], "zh-CN").unwrap()).unwrap();
    assert_eq!(value["dev_pid"], "1537");
    assert_eq!(value["speech"], "AQIDBA==");
    let value: serde_json::Value = serde_json::from_str(&recognition_request("t", b"", "fr").unwrap()).unwrap();
    assert_eq!(value["dev_pid"], "1537");
    assert_eq!(value["speech"], "");
    assert_eq!(value["len"], "0");
}

#[test]
fn the_recognition_answer_gives_one_cue_or_none() {
    match read_recognition_answer(r#"{"err_no":0,"result":["你好世界","second"]}"#) {
        Reply::Cues(cues) => assert_eq!(parts(&cues), vec![("1".to_string(), 0, 10000, "你好世界".to_string())]),
        other => panic!("unexpected {:?}", other),
    }
    assert!(matches!(read_recognition_answer(r#"{"result":[]}"#), Reply::Cues(c) if c.is_empty()));
    assert!(matches!(read_recognition_answer(r#"{"result":[" \t "]}"#), Reply::Cues(c) if c.is_empty()));
    assert!(matches!(read_recognition_answer(r#"{"result":[5]}"#), Reply::Cues(c) if c.is_empty()));
    assert!(matches!(read_recognition_answer(r#"{}"#), Reply::Cues(c) if c.is_empty()));
    match read_recognition_answer(r#"{"err_no":3301,"err_msg":"speech quality error"}"#) {
        Reply::Failed { message, .. } => assert_eq!(message, "百度API错误 3301: speech quality error"),
        other => panic!("unexpected {:?}", other),
    }
    match read_recognition_answer(r#"{"err_no":-7}"#) {
        Reply::Failed { message, .. } => assert_eq!(message, "百度API错误 -7: 未知错误"),
        other => panic!("unexpected {:?}", other),
    }
    match read_recognition_answer("") {
        Reply::Failed { message, .. } => assert!(message.starts_with("解析响应JSON失败: ")),
        other => panic!("unexpected {:?}", other),
    }
}

#[test]
fn the_tool_is_told_language_and_prompt() {
    assert_eq!(language_argument("en-US"), "en");
    assert_eq!(language_argument("ja"), "ja");
    assert_eq!(language_argument("ko-KR"), "ko");
    assert_eq!(language_argument("fr"), "zh");
    assert_eq!(language_argument(""), "zh");
    assert_eq!(
        build_tool_arguments("/a/b.wav", "/a", "zh-CN"),
        vec!["/a/b.wav", "--model", "base", "--output_format", "srt", "--output_dir", "/a", "--verbose", "False", "--task", "transcribe", "--language", "zh", "--initial_prompt", "以下是简体中文语音："]
    );
    assert_eq!(build_tool_arguments("b.wav", ".", "en").len(), 13);
    assert_eq!(build_tool_arguments("b.wav", ".", "fr")[12], "zh");
    assert_eq!(build_tool_arguments("b.wav", ".", "fr").len(), 13);
    assert_eq!(build_tool_arguments("b.wav", ".", "").len(), 15);
}

#[test]
fn the_script_transcribes_the_given_file() {
    let script = fallback_script("/tmp/a b.wav");
    assert!(script.starts_with("\nimport whisper\nimport sys\n"));
    assert!(script.contains("result = model.transcribe(\"/tmp/a b.wav\", language=\"zh\", initial_prompt=\"以下是简体中文语音：\")"));
    assert!(script.contains("start_time = f\"{:02d}:{:02d}:{:06.3f}\".format("));
    assert!(script.contains("print(f\"{start_time} --> {end_time}\")"));
    assert!(script.ends_with("    sys.exit(1)\n"));
}

#[test]
fn a_missing_tool_is_told_from_other_failures() {
    assert!(text_contains("xx未找到whisper。", "未找到whisper"));
    assert!(!text_contains("whisper", "未找到whisper"));
    assert!(text_contains("abc", "c"));
    assert!(!text_contains("", "c"));
    match classify_failure("未找到whisper。请安装: pip install openai-whisper") {
        Reply::Failed { kind, message } => {
            assert_eq!(kind, FailureKind::ToolMissing);
            assert_eq!(message, "Whisper识别失败: 未找到whisper。请安装: pip install openai-whisper");
        }
        other => panic!("unexpected {:?}", other),
    }
    assert!(matches!(classify_failure("Traceback: ModuleNotFoundError: No module named 'whisper'"), Reply::Failed { kind: FailureKind::ToolMissing, .. }));
    assert!(matches!(classify_failure("out of memory"), Reply::Failed { kind: FailureKind::Other, .. }));
}

#[test]
fn a_run_of_the_tool_gives_cues_or_a_labelled_failure() {
    let run = ToolRun::Transcript { content: "1\n00:00:00,000 --> 00:00:01,000\nhi\n\n".to_string() };
    match read_tool_run(&run, false) {
        Reply::Cues(cues) => assert_eq!(parts(&cues), vec![("1".to_string(), 0, 1000, "hi".to_string())]),
        other => panic!("unexpected {:?}", other),
    }
    let message = |run: ToolRun, scripted: bool| match read_tool_run(&run, scripted) {
        Reply::Failed { kind, message } => (kind, message),
        other => panic!("unexpected {:?}", other),
    };
    assert_eq!(message(ToolRun::Transcript { content: String::new() }, true), (FailureKind::Other, "Whisper识别失败: 未解析到任何字幕内容".to_string()));
    assert_eq!(message(ToolRun::NotStarted { detail: "denied".to_string() }, false), (FailureKind::Other, "Whisper识别失败: 执行whisper命令失败: denied".to_string()));
    assert_eq!(message(ToolRun::NotStarted { detail: "denied".to_string() }, true), (FailureKind::Other, "Whisper识别失败: 执行Python脚本失败: denied".to_string()));
    assert_eq!(message(ToolRun::Failed { diagnostics: "boom".to_string() }, false), (FailureKind::Other, "Whisper识别失败: Whisper执行失败: boom".to_string()));
    assert_eq!(message(ToolRun::Failed { diagnostics: "ModuleNotFoundError".to_string() }, true), (FailureKind::ToolMissing, "Whisper识别失败: Python Whisper执行失败: ModuleNotFoundError".to_string()));
    assert_eq!(message(ToolRun::NoTranscript, false), (FailureKind::Other, "Whisper识别失败: Whisper未生成SRT文件".to_string()));
    assert_eq!(message(ToolRun::Unreadable { detail: "io".to_string() }, false), (FailureKind::Other, "Whisper识别失败: 读取SRT文件失败: io".to_string()));
}

#[test]
fn the_description_of_a_file_is_read() {
    let output = r#"{"format":{"duration":"12.345000","size":"1"},"streams":[
        {"codec_type":"video","width":1920,"height":1080},
        {"codec_type":"audio","codec_name":"aac","channels":6,"sample_rate":"48000","tags":{"language":"eng"}},
        {"codec_type":"video","width":640,"height":480},
        {"codec_type":"subtitle"},
        {"codec_type":"audio","sample_rate":"fast"}
    ]}"#;
    let info = get_video_info("/v/film.mkv", output).unwrap();
    assert_eq!(info.file_path, "/v/film.mkv");
    assert_eq!(info.duration, 12345);
    assert_eq!((info.width, info.height), (1920, 1080));
    assert_eq!(info.audio_tracks.len(), 2);
    let first = &info.audio_tracks[0];
    assert_eq!((first.id, first.language.as_deref(), first.codec.as_str(), first.channels, first.sample_rate), (1, Some("eng"), "aac", 6, 48000));
    let second = &info.audio_tracks[1];
    assert_eq!((second.id, second.language.as_deref(), second.codec.as_str(), second.channels, second.sample_rate), (4, None, "unknown", 2, 44100));
}

#[test]
fn a_file_without_audio_gets_a_default_track() {
    let info = get_video_info("f", r#"{"format":{},"streams":[]}"#).unwrap();
    assert_eq!(info.duration, 0);
    assert_eq!((info.width, info.height), (0, 0));
    assert_eq!(info.audio_tracks.len(), 1);
    let track = &info.audio_tracks[0];
    assert_eq!((track.id, track.language.as_deref(), track.codec.as_str(), track.channels, track.sample_rate), (0, Some("und"), "unknown", 2, 44100));
}

#[test]
fn a_description_that_is_not_understood_is_refused() {
    assert_eq!(get_video_info("f", r#"{"streams":[]}"#).err(), Some("无法获取格式信息".to_string()));
    assert_eq!(get_video_info("f", r#"{"format":"x","streams":[]}"#).err(), Some("无法获取格式信息".to_string()));
    assert_eq!(get_video_info("f", r#"{"format":{}}"#).err(), Some("无法获取流信息".to_string()));
    assert!(get_video_info("f", "").err().unwrap().starts_with("解析ffprobe输出失败: "));
}

#[test]
fn numbers_of_the_description_are_read() {
    assert_eq!(read_u32("44100"), Some(44100));
    assert_eq!(read_u32("+7"), Some(7));
    assert_eq!(read_u32("4294967295"), Some(u32::MAX));
    assert_eq!(read_u32("4294967296"), None);
    assert_eq!(read_u32(""), None);
    assert_eq!(read_u32("+"), None);
    assert_eq!(read_u32("-1"), None);
    assert_eq!(read_u32("1 "), None);
    for text in ["0", "007", "+0", "++1", "1e3", "٣"] {
        assert_eq!(read_u32(text), text.parse::<u32>().ok(), "value of {:?}", text);
    }
    assert_eq!(read_duration("3.5"), 3500);
    assert_eq!(read_duration("120"), 120_000);
    assert_eq!(read_duration("0.0019"), 1);
    assert_eq!(read_duration("N/A"), 0);
    assert_eq!(read_duration(""), 0);
}

#[test]
fn the_media_tool_is_called_with_fixed_arguments() {
    assert_eq!(build_probe_arguments("/v/f.mp4"), vec!["-v", "quiet", "-print_format", "json", "-show_format", "-show_streams", "/v/f.mp4"]);
    assert_eq!(build_audio_file_name("film", 2), "film_audio_2.wav");
    assert_eq!(
        extract_audio("/v/film.mkv", 2, "/v/film_audio_2.wav"),
        vec!["-i", "/v/film.mkv", "-map", "0:2", "-acodec", "pcm_s16le", "-ar", "16000", "-ac", "1", "-y", "/v/film_audio_2.wav"]
    );
}

#[test]
fn pieces_are_counted_and_joined() {
    assert_eq!(chunk_count(0), 0);
    assert_eq!(chunk_count(1), 1);
    assert_eq!(chunk_count(5242880), 1);
    assert_eq!(chunk_count(5242881), 2);
    assert_eq!(chunk_count(u64::MAX), 3518437208884);
    assert_eq!(progress_before_chunk(0, 4), 300);
    assert_eq!(progress_before_chunk(1, 4), 450);
    assert_eq!(progress_before_chunk(3, 4), 750);
    assert_eq!(progress_before_chunk(1, 3), 500);
    assert_eq!(progress_before_chunk(4, 4), 900);
    assert_eq!(progress_before_chunk(0, 0), 900);
    assert_eq!(offset_time(1000, 2), 601_000);
    assert_eq!(offset_time(u64::MAX, 1), u64::MAX);
    let chunks = vec![
        Some(vec![cue("x", 0, 1000, "a"), cue("y", 1000, 2000, "b")]),
        None,
        Some(vec![]),
        Some(vec![cue("z", 500, 900, "c")]),
    ];
    let cues = process_large_audio_in_chunks(&chunks).unwrap();
    assert_eq!(
        parts(&cues),
        vec![
            ("1".to_string(), 0, 1000, "a".to_string()),
            ("2".to_string(), 1000, 2000, "b".to_string()),
            ("3".to_string(), 900_500, 900_900, "c".to_string()),
        ]
    );
    assert_eq!(process_large_audio_in_chunks(&vec![None, Some(vec![])]).err(), Some("所有片段识别都失败了，请检查网络连接和API配置".to_string()));
    assert!(process_large_audio_in_chunks(&vec![]).is_err());
}

#[test]
fn an_upload_is_signed_for_its_moment() {
    let c = client(None);
    let request = c.upload_request("talk.wav", "audio/wav", "0000-1111", 1551113065).unwrap();
    assert_eq!(request.object_key, "audio/0000-1111/talk.wav");
    assert_eq!(request.host, "audio-1250000000.cos.ap-beijing.myqcloud.com");
    assert_eq!(request.url, "https://audio-1250000000.cos.ap-beijing.myqcloud.com/audio/0000-1111/talk.wav");
    assert_eq!(request.date, "Mon, 25 Feb 2019 16:44:25 GMT");
    assert_eq!(request.content_type, "audio/wav");
    let headers = vec![
        ("Content-Type".to_string(), "audio/wav".to_string()),
        ("Date".to_string(), request.date.clone()),
        ("Host".to_string(), request.host.clone()),
    ];
    assert_eq!(Ok(request.authorization), c.generate_authorization("PUT", "audio/0000-1111/talk.wav", &headers, 1551113065));
    assert_eq!(c.host(), "audio-1250000000.cos.ap-beijing.myqcloud.com");
    assert_eq!(c.upload_request("a", "b", "c", i64::MAX).err(), Some("无效的时间戳".to_string()));
}

#[test]
fn a_deletion_signs_host_and_date_alone() {
    let c = client(None);
    let request = c.delete_request("audio/u/f.wav", 0).unwrap();
    assert_eq!(request.date, "Thu, 01 Jan 1970 00:00:00 GMT");
    assert_eq!(request.content_type, "");
    assert!(request.authorization.contains("&q-sign-time=0;3600&q-key-time=0;3600&q-header-list=date;host&"));
    assert_eq!(c.read_delete_answer(204, ""), Ok(()));
    assert_eq!(c.read_delete_answer(404, "gone"), Err("COS删除失败: HTTP 404, gone".to_string()));
}

#[test]
fn the_answer_to_an_upload_gives_the_url_or_the_reason() {
    let plain = client(None);
    let own = client(Some("cdn.example.com"));
    assert_eq!(plain.read_upload_answer("https://h/k", "k", 200, ""), Ok("https://h/k".to_string()));
    assert_eq!(own.read_upload_answer("https://h/k", "k", 299, ""), Ok("https://cdn.example.com/k".to_string()));
    assert_eq!(plain.read_upload_answer("u", "k", 500, "oops"), Err("COS上传失败: HTTP 500, oops".to_string()));
    assert_eq!(plain.read_upload_answer("u", "k", 199, "x"), Err("COS上传失败: HTTP 199, x".to_string()));
    assert_eq!(plain.read_upload_answer("u", "k", 300, "x"), Err("COS上传失败: HTTP 300, x".to_string()));
    let forbidden = plain.read_upload_answer("https://h/k", "k", 403, "denied").err().unwrap();
    assert!(forbidden.starts_with("COS上传失败: 权限被拒绝 (HTTP 403)\n\n"));
    assert!(forbidden.ends_with("当前配置：\n- 存储桶: audio-1250000000\n- 地域: ap-beijing\n- 上传URL: https://h/k\n\n详细错误: denied"));
    let missing = plain.read_upload_answer("u", "k", 404, "none").err().unwrap();
    assert!(missing.starts_with("COS上传失败: 存储桶不存在 (HTTP 404)\n\n请检查：\n1. 存储桶名称是否正确: audio-1250000000\n2. 地域是否正确: ap-beijing\n"));
    assert!(missing.ends_with("\n\n详细错误: none"));
}

#[test]
fn an_upload_that_was_not_sent_is_explained() {
    assert!(upload_failure_text(Transport::Connect, 1, "refused").starts_with("COS上传失败: 网络连接错误\n\n"));
    assert!(upload_failure_text(Transport::Connect, 1, "refused").ends_with("详细错误: refused"));
    let timed_out = upload_failure_text(Transport::Timeout, 3 * 1048576 + 524288, "slow");
    assert!(timed_out.starts_with("COS上传失败: 请求超时\n\n文件大小: 3.5 MB\n"));
    assert!(timed_out.ends_with("详细错误: slow"));
    assert_eq!(upload_failure_text(Transport::Other, 1, "x"), "上传文件到COS失败: x");
}

#[test]
fn the_key_of_an_object_is_the_path_of_its_url() {
    assert_eq!(extract_object_key_from_url("https://b.cos.r.myqcloud.com/audio/u/f.wav?sign=1#x"), Some("audio/u/f.wav".to_string()));
    assert_eq!(extract_object_key_from_url("https://example.com"), Some(String::new()));
    assert_eq!(extract_object_key_from_url("https://example.com/a b"), Some("a%20b".to_string()));
    assert_eq!(extract_object_key_from_url("mailto:someone@example.com"), Some("someone@example.com".to_string()));
    assert_eq!(extract_object_key_from_url("not a url"), None);
    assert_eq!(extract_object_key_from_url(""), None);
    assert_eq!(object_key_from_path("/a/b"), "a/b");
    assert_eq!(object_key_from_path("a/b"), "a/b");
    assert_eq!(object_key_from_path("//a"), "/a");
    assert_eq!(object_key_from_path(""), "");
}

#[test]
fn a_given_content_type_is_kept() {
    assert_eq!(content_type_for("a.wav", Some("audio/x-custom")), "audio/x-custom");
    assert_eq!(content_type_for("a.wav", None), "audio/wav");
    assert_eq!(content_type_for("a.unknownext", None), "application/octet-stream");
}

#[test]
fn texts_are_searched_cut_joined_and_sorted() {
    let s = chars_of("a--b----c");
    let sep = chars_of("--");
    assert_eq!(find(&s, &sep, 0), Some(1));
    assert_eq!(find(&s, &sep, 2), Some(4));
    assert_eq!(find(&s, &sep, 7), None);
    assert_eq!(find(&chars_of("-"), &sep, 0), None);
    let pieces: Vec<String> = split_text(&s, &sep).iter().map(|p| p.iter().collect()).collect();
    assert_eq!(pieces, vec!["a", "b", "", "c"]);
    for (text, sep) in [("", "x"), ("x", "x"), ("axbxc", "x"), ("aaa", "aa"), ("\n\n\n", "\n\n"), ("abc", "abcd")] {
        let mine: Vec<String> = split_text(&chars_of(text), &chars_of(sep)).iter().map(|p| p.iter().collect()).collect();
        let std: Vec<String> = text.split(sep).map(|p| p.to_string()).collect();
        assert_eq!(mine, std, "pieces of {:?} at {:?}", text, sep);
    }
    let parts = vec!["b".to_string(), "".to_string(), "a".to_string()];
    assert_eq!(join_strings(&parts, ", "), "b, , a");
    assert_eq!(join_strings(&vec![], ", "), "");
    assert_eq!(join_strings(&vec!["only".to_string()], ", "), "only");
    let words = vec!["host=b", "date=x", "Host", "", "date", "host=a", "日期", "date=x"];
    let mut expected: Vec<String> = words.iter().map(|w| w.to_string()).collect();
    let sorted = sort_strings(expected.clone());
    expected.sort();
    assert_eq!(sorted, expected);
    assert!(text_precedes("", "a"));
    assert!(text_precedes("a", "a"));
    assert!(text_precedes("a", "ab"));
    assert!(!text_precedes("ab", "a"));
    assert!(text_precedes("Z", "a"));
    assert!(text_precedes("z", "é"));
    assert!(!text_precedes("b", "a"));
}
