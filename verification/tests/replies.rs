use flowtext::job::{FailureKind, Reply};
use flowtext::json::{parse_document, Json};
use flowtext::replies::{
    api_error, creation_error_text, cues_from_sentences, extract_error_message,
    parse_task_status, parse_tencent_file_recognition_result, parse_tencent_rapid_result,
    parse_tencent_rec_result, read_reply, ReplyKind,
};
use flowtext::video::Subtitle;

fn parts(cues: &[Subtitle]) -> Vec<(String, u64, u64, String)> {
    cues.iter().map(|c| (c.id.clone(), c.start_time, c.end_time, c.text.clone())).collect()
}

fn failed(reply: Reply) -> String {
    match reply {
        Reply::Failed { kind, message } => {
            assert!(kind != FailureKind::Transient && kind != FailureKind::ToolMissing);
            message
        }
        other => panic!("no failure: {:?}", other),
    }
}

fn kind_of(reply: Reply) -> FailureKind {
    match reply {
        Reply::Failed { kind, .. } => kind,
        other => panic!("no failure: {:?}", other),
    }
}

#[test]
fn failures_are_told_apart_by_their_kind() {
    let creation = ReplyKind::Creation { length: 1 };
    assert_eq!(kind_of(read_reply(creation, r#"{"Response":{"Error":{"Code":"RequestSizeLimitExceeded","Message":"m"}}}"#)), FailureKind::PayloadTooLarge);
    assert_eq!(kind_of(read_reply(creation, r#"{"Response":{"Error":{"Code":"AudioTooLarge","Message":"m"}}}"#)), FailureKind::PayloadTooLarge);
    assert_eq!(kind_of(read_reply(creation, r#"{"Response":{"Error":{"Code":"AuthFailure","Message":"m"}}}"#)), FailureKind::Remote);
    assert_eq!(kind_of(read_reply(creation, r#"{"Response":{}}"#)), FailureKind::Parse);
    assert_eq!(kind_of(read_reply(creation, "not json")), FailureKind::Parse);
    assert_eq!(kind_of(read_reply(ReplyKind::Poll, r#"{"Response":{"Data":{"StatusStr":"failed"}}}"#)), FailureKind::Remote);
    assert_eq!(kind_of(read_reply(ReplyKind::Poll, r#"{"Response":{"Data":{"StatusStr":"success"}}}"#)), FailureKind::Parse);
    assert_eq!(kind_of(read_reply(ReplyKind::Query, r#"{"Response":{"Error":{}}}"#)), FailureKind::Remote);
    assert_eq!(kind_of(read_reply(ReplyKind::UrlCreation, r#"{"Response":{"Data":{}}}"#)), FailureKind::Parse);
    assert_eq!(kind_of(flowtext::replies::read_creation_answer(502, "bad gateway", 1)), FailureKind::Remote);
    assert_eq!(failed(flowtext::replies::read_creation_answer(502, "bad gateway", 1)), "录音文件识别API调用失败，状态码: 502, 响应: bad gateway");
    assert!(matches!(flowtext::replies::read_creation_answer(200, r#"{"Response":{"Data":{"TaskId":3}}}"#, 1), Reply::Number(3)));
}

#[test]
fn documents_are_read_with_their_members_and_numbers() {
    let doc = parse_document(r#"{"a":{"b":[1,-2,3.5,"x",null,true]},"n":18446744073709551615}"#).unwrap();
    let items = doc.get("a").unwrap().get("b").unwrap().as_array().unwrap();
    assert_eq!(items.len(), 6);
    assert_eq!((items[0].as_u64(), items[0].as_i64()), (Some(1), Some(1)));
    assert_eq!((items[1].as_u64(), items[1].as_i64()), (None, Some(-2)));
    assert_eq!((items[2].as_u64(), items[2].as_i64()), (None, None));
    assert_eq!(items[3].as_str(), Some("x"));
    assert!(matches!(items[4], Json::Null));
    assert!(matches!(items[5], Json::Bool(true)));
    assert_eq!(doc.get("n").unwrap().as_u64(), Some(u64::MAX));
    assert_eq!(doc.get("n").unwrap().as_i64(), None);
    assert!(doc.get("missing").is_none());
    assert!(items[0].get("a").is_none());
    assert!(doc.is_object());
    assert!(parse_document("{").is_err());
    assert!(parse_document("").is_err());
}

#[test]
fn a_reported_error_is_read_with_code_and_message() {
    let doc = parse_document(r#"{"Response":{"Error":{"Code":"AuthFailure","Message":"bad key"}}}"#).unwrap();
    assert_eq!(api_error(&doc), Some(("AuthFailure".to_string(), "bad key".to_string())));
    let doc = parse_document(r#"{"Response":{"Error":{"Code":7}}}"#).unwrap();
    assert_eq!(api_error(&doc), Some(("Unknown".to_string(), "Unknown error".to_string())));
    let doc = parse_document(r#"{"Response":{"Data":{}}}"#).unwrap();
    assert_eq!(api_error(&doc), None);
}

#[test]
fn a_detailed_result_gives_one_cue_for_each_sentence() {
    let body = r#"{"Response":{"Data":{"ResultDetail":[
        {"FinalSentence":"第一句","StartMs":0,"EndMs":1200},
        {"FinalSentence":"   ","StartMs":1200,"EndMs":1300},
        {"FinalSentence":" second ","StartMs":1300,"EndMs":2500},
        {"StartMs":5},
        {"FinalSentence":"no times"},
        {"FinalSentence":"backwards","StartMs":900,"EndMs":800},
        {"FinalSentence":"at once","StartMs":900,"EndMs":900}
    ]}}}"#;
    let cues = parse_tencent_rec_result(body).unwrap();
    assert_eq!(
        parts(&cues),
        vec![
            ("tencent_1".to_string(), 0, 1200, "第一句".to_string()),
            ("tencent_3".to_string(), 1300, 2500, " second ".to_string()),
            ("tencent_5".to_string(), 0, 0, "no times".to_string()),
            ("tencent_7".to_string(), 900, 900, "at once".to_string()),
        ]
    );
    assert!(cues.iter().all(|c| c.start_time <= c.end_time));
}

#[test]
fn a_detailed_result_that_is_wrong_is_refused_with_the_reason() {
    assert_eq!(parse_tencent_rec_result(r#"{"Response":{"Error":{"Code":"C","Message":"M"}}}"#).err().unwrap(), "腾讯云API错误: C - M");
    assert_eq!(parse_tencent_rec_result(r#"{"Response":{}}"#).err().unwrap(), "响应中没有Data字段");
    assert_eq!(parse_tencent_rec_result(r#"{"Response":{"Data":{"ResultDetail":"x"}}}"#).err().unwrap(), "响应中没有ResultDetail字段");
    assert_eq!(parse_tencent_rec_result(r#"{"Response":{"Data":{"ResultDetail":[]}}}"#).err().unwrap(), "识别结果为空");
    assert!(parse_tencent_rec_result("not json").err().unwrap().starts_with("解析JSON响应失败: "));
}

#[test]
fn a_single_sentence_spans_ten_seconds() {
    let cues = parse_tencent_rapid_result(r#"{"Response":{"Result":" 你好 "}}"#).unwrap();
    assert_eq!(parts(&cues), vec![("tencent_sentence_1".to_string(), 0, 10000, " 你好 ".to_string())]);
    assert_eq!(parse_tencent_rapid_result(r#"{"Response":{"Result":"  "}}"#).err().unwrap(), "识别结果为空");
    assert_eq!(parse_tencent_rapid_result(r#"{"Other":1}"#).err().unwrap(), "响应中没有Response字段");
    assert_eq!(
        parse_tencent_rapid_result(r#"{"Response":{"Error":{"Code":"C","Message":"M"}}}"#).err().unwrap(),
        "腾讯云SentenceRecognition API错误: C - M"
    );
}

#[test]
fn the_state_of_a_task_is_read_from_its_reply() {
    assert_eq!(parse_task_status(r#"{"Response":{"Data":{"StatusStr":"doing"}}}"#), Ok("doing".to_string()));
    assert_eq!(parse_task_status(r#"{"Response":{"Data":{}}}"#), Ok("unknown".to_string()));
    assert_eq!(parse_task_status(r#"{}"#), Ok("unknown".to_string()));
    assert_eq!(parse_task_status(r#"{"Response":{"Error":{"Code":"C","Message":"M"}}}"#), Err("腾讯云API错误: C - M".to_string()));
    assert!(parse_task_status("[").err().unwrap().starts_with("解析JSON响应失败: "));
}

#[test]
fn the_reason_of_a_failure_is_read_from_its_reply() {
    assert_eq!(extract_error_message(r#"{"Response":{"Data":{"ErrorMsg":"too noisy"}}}"#), "too noisy");
    assert_eq!(extract_error_message(r#"{"Response":{"Data":{}}}"#), "未知错误");
    assert_eq!(extract_error_message("oops"), "解析响应失败");
}

#[test]
fn a_sentence_list_gives_trimmed_cues_with_their_times() {
    let result = r#"{"Result":[
        {"Text":" 你好。 ","StartTime":0,"EndTime":1500},
        {"Text":"no times"},
        {"Text":"   ","StartTime":1,"EndTime":2},
        {"Other":true},
        {"Text":"fourth","StartTime":0,"EndTime":0},
        {"Text":"fifth","StartTime":9000,"EndTime":8000},
        {"Text":"sixth","StartTime":9000,"EndTime":9000}
    ]}"#;
    let cues = parse_tencent_file_recognition_result(result).unwrap();
    assert_eq!(
        parts(&cues),
        vec![
            ("1".to_string(), 0, 1500, "你好。".to_string()),
            ("2".to_string(), 3000, 6000, "no times".to_string()),
            ("5".to_string(), 12000, 15000, "fourth".to_string()),
            ("7".to_string(), 9000, 9000, "sixth".to_string()),
        ]
    );
    assert!(cues.iter().all(|c| c.is_well_formed()));
}

#[test]
fn a_result_text_is_cut_into_sentences_of_three_seconds() {
    let cues = parse_tencent_file_recognition_result(r#"{"Result":"今天天气很好。 我们去公园吧！  ？Really? yes. "}"#).unwrap();
    assert_eq!(
        parts(&cues),
        vec![
            ("1".to_string(), 0, 3000, "今天天气很好".to_string()),
            ("2".to_string(), 3000, 6000, "我们去公园吧".to_string()),
            ("3".to_string(), 6000, 9000, "Really".to_string()),
            ("4".to_string(), 9000, 12000, "yes".to_string()),
        ]
    );
    assert_eq!(cues_from_sentences("").len(), 0);
    assert_eq!(cues_from_sentences("。。 ！").len(), 0);
    assert_eq!(parts(&cues_from_sentences("no stop")), vec![("1".to_string(), 0, 3000, "no stop".to_string())]);
}

#[test]
fn a_result_without_a_sentence_is_refused() {
    assert_eq!(parse_tencent_file_recognition_result(r#"{"Result":[]}"#).err().unwrap(), "未能解析出有效的识别结果");
    assert_eq!(parse_tencent_file_recognition_result(r#"{"Result":"。"}"#).err().unwrap(), "未能解析出有效的识别结果");
    assert_eq!(parse_tencent_file_recognition_result(r#"{"Result":5}"#).err().unwrap(), "未能解析出有效的识别结果");
    assert_eq!(parse_tencent_file_recognition_result(r#"{}"#).err().unwrap(), "未能解析出有效的识别结果");
    assert!(parse_tencent_file_recognition_result("x").err().unwrap().starts_with("解析识别结果JSON失败: "));
}

#[test]
fn a_creation_reply_gives_the_identifier_of_the_task() {
    let kind = ReplyKind::Creation { length: 1000 };
    assert!(matches!(read_reply(kind, r#"{"Response":{"Data":{"TaskId":99}}}"#), Reply::Number(99)));
    assert_eq!(failed(read_reply(kind, r#"{"Response":{"Data":{"TaskId":"99"}}}"#)), "TaskId格式错误");
    assert_eq!(failed(read_reply(kind, r#"{"Response":{"Data":{"TaskId":-1}}}"#)), "TaskId格式错误");
    assert_eq!(failed(read_reply(kind, r#"{"Response":{"Data":{}}}"#)), "无法获取TaskId");
    assert_eq!(failed(read_reply(kind, r#"{"Response":{}}"#)), "无法获取TaskId");
    assert_eq!(failed(read_reply(kind, r#"{"Response":{"Error":{"Code":"X","Message":"Y"}}}"#)), "腾讯云录音文件识别API错误: X - Y");
    assert!(failed(read_reply(kind, "<html>")).starts_with("解析任务创建响应失败: "));
    let by_url = ReplyKind::UrlCreation;
    assert!(matches!(read_reply(by_url, r#"{"Response":{"Data":{"TaskId":5}}}"#), Reply::Number(5)));
    assert_eq!(failed(read_reply(by_url, r#"{"Response":{"Data":{"TaskId":"5"}}}"#)), "无法获取TaskId");
    assert_eq!(failed(read_reply(by_url, r#"{"Response":{"Error":{"Code":"X","Message":"Y"}}}"#)), "腾讯云CreateRecTask API错误: X - Y");
}

#[test]
fn size_errors_are_explained_with_the_sizes() {
    let text = creation_error_text("RequestSizeLimitExceeded", "too big", 6 * 1024 * 1024);
    assert!(text.starts_with("🚫 **请求体过大错误**\n\n错误详情: RequestSizeLimitExceeded - too big\n\n"));
    assert!(text.contains("• 音频文件: 6.0 MB\n• Base64编码后: 8.2 MB\n• 腾讯云请求体限制: 10 MB"));
    assert!(text.ends_with("使用更高压缩比的格式"));
    let text = creation_error_text("AudioTooLarge", "m", 1);
    assert!(text.starts_with("🚫 **音频文件过大**\n\n错误详情: AudioTooLarge - m\n\n"));
    assert!(text.ends_with("3. 分割音频文件到5MB以下"));
    assert_eq!(creation_error_text("Other", "m", 1), "腾讯云录音文件识别API错误: Other - m");
}

#[test]
fn a_poll_reply_is_done_failed_or_still_working() {
    assert!(matches!(read_reply(ReplyKind::Poll, r#"{"Response":{"Data":{"StatusStr":"running"}}}"#), Reply::Working));
    assert!(matches!(read_reply(ReplyKind::Poll, r#"{"Response":{"Data":{"StatusStr":"waiting"}}}"#), Reply::Working));
    assert!(matches!(read_reply(ReplyKind::Poll, r#"{"Response":{"Data":{}}}"#), Reply::Working));
    assert_eq!(failed(read_reply(ReplyKind::Poll, r#"{"Response":{}}"#)), "无法获取状态数据");
    assert_eq!(failed(read_reply(ReplyKind::Poll, r#"{"Response":{"Data":{"StatusStr":"failed"}}}"#)), "录音文件识别失败: 识别失败");
    assert_eq!(failed(read_reply(ReplyKind::Poll, r#"{"Response":{"Data":{"StatusStr":"success"}}}"#)), "无法获取识别结果");
    assert_eq!(failed(read_reply(ReplyKind::Poll, r#"{"Response":{"Data":{"StatusStr":"success","Result":"{\"Result\":[]}"}}}"#)), "未能解析出有效的识别结果");
    assert_eq!(failed(read_reply(ReplyKind::Poll, r#"{"Response":{"Error":{"Code":"C","Message":"M"}}}"#)), "查询识别状态错误: C - M");
    assert!(failed(read_reply(ReplyKind::Poll, "")).starts_with("解析状态响应失败: "));
    match read_reply(ReplyKind::Poll, r#"{"Response":{"Data":{"StatusStr":"success","Result":"{\"Result\":\"好。\"}"}}}"#) {
        Reply::Cues(cues) => assert_eq!(parts(&cues), vec![("1".to_string(), 0, 3000, "好".to_string())]),
        other => panic!("unexpected {:?}", other),
    }
}

#[test]
fn a_query_reply_by_url_reads_the_detailed_result() {
    let kind = ReplyKind::Query;
    assert!(matches!(read_reply(kind, r#"{"Response":{"Data":{"StatusStr":"doing"}}}"#), Reply::Working));
    assert!(matches!(read_reply(kind, r#"{"Response":{"Data":{"StatusStr":"strange"}}}"#), Reply::Working));
    assert_eq!(failed(read_reply(kind, r#"{"Response":{"Data":{"StatusStr":"failed","ErrorMsg":"bad audio"}}}"#)), "腾讯云识别任务失败: bad audio");
    assert_eq!(failed(read_reply(kind, r#"{"Response":{"Data":{"StatusStr":"failed"}}}"#)), "腾讯云识别任务失败: 任务失败");
    assert_eq!(failed(read_reply(kind, r#"{"Response":{}}"#)), "响应中没有Data字段");
    assert_eq!(failed(read_reply(kind, r#"{"Response":{"Data":{"StatusStr":"success"}}}"#)), "响应中没有ResultDetail字段");
    assert_eq!(failed(read_reply(kind, r#"{"Response":{"Data":{"StatusStr":"success","ResultDetail":[{"FinalSentence":""}]}}}"#)), "识别结果为空");
    assert_eq!(failed(read_reply(kind, r#"{"Response":{"Error":{"Code":"C","Message":"M"}}}"#)), "腾讯云DescribeTaskStatus API错误: C - M");
    assert!(failed(read_reply(kind, "{")).starts_with("解析任务状态响应失败: "));
    match read_reply(kind, r#"{"Response":{"Data":{"StatusStr":"success","ResultDetail":[{"FinalSentence":"句子","StartMs":10,"EndMs":20}]}}}"#) {
        Reply::Cues(cues) => assert_eq!(parts(&cues), vec![("tencent_cos_1".to_string(), 10, 20, "句子".to_string())]),
        other => panic!("unexpected {:?}", other),
    }
}
