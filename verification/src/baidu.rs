//! The synchronous cloud service: one token request, then one recognition
//! request with the audio sent along.

use vstd::prelude::*;
use vstd::string::*;
use crate::digest::{encode_base64, encoded};
use crate::job::{reply_well_formed, FailureKind, Reply, ReplyView};
use crate::json::{json_document, member_text_or, parse_json, text_or, views, Json, JsonView};
use crate::replies::{remote, unreadable};
use crate::tencent::{build_object_text, object_text};
use crate::text::pairs_view;
use crate::text::{decimal, decimal_digits, is_blank, same_text, signed_decimal, signed_decimal_digits, trim};
use crate::video::{cues_view, Subtitle, SubtitleView};

verus! {

/// The diagnostic of credentials that are missing.
pub const NO_KEYS: &'static str = "请在设置中配置百度API密钥";

/// The start of the address at which a token is asked for.
pub const TOKEN_ADDRESS: &'static str =
    "https://aip.baidubce.com/oauth/2.0/token?grant_type=client_credentials&client_id=";

/// The address of the recognition service.
pub const RECOGNITION_ADDRESS: &'static str = "https://vop.baidu.com/server_api";

/// The address at which a token is asked for with the two keys of an
/// account, or a diagnostic where one of them is empty.
pub open spec fn token_address(api_key: Seq<char>, secret_key: Seq<char>) -> Result<
    Seq<char>,
    Seq<char>,
> {
    if api_key.len() == 0 || secret_key.len() == 0 {
        Err(NO_KEYS@)
    } else {
        Ok(TOKEN_ADDRESS@ + api_key + "&client_secret="@ + secret_key)
    }
}

/// Writes the address at which a token is asked for.
pub fn token_request(api_key: &str, secret_key: &str) -> (r: Result<String, String>)
    ensures
        match r {
            Ok(s) => token_address(api_key@, secret_key@) == Ok::<Seq<char>, Seq<char>>(s@),
            Err(e) => token_address(api_key@, secret_key@) == Err::<Seq<char>, Seq<char>>(e@),
        },
{
    if api_key.is_empty() || secret_key.is_empty() {
        return Err(String::from_str(NO_KEYS));
    }
    let mut out = String::from_str(TOKEN_ADDRESS);
    out.append(api_key);
    out.append("&client_secret=");
    out.append(secret_key);
    Ok(out)
}

/// What the answer to a token request means: the token, or a failure with
/// the error that the answer names.
pub open spec fn token_reply(doc: JsonView) -> ReplyView {
    match doc.member("error"@) {
        Some(JsonView::Text(e)) => remote("获取访问令牌失败: "@ + e),
        _ => match doc.member("access_token"@) {
            Some(JsonView::Text(t)) => ReplyView::Text(t),
            _ => unreadable("响应中未找到访问令牌"@),
        },
    }
}

/// Reads the answer to a token request.
pub fn read_token_reply(doc: &Json) -> (r: Reply)
    ensures
        r@ == token_reply(doc@),
{
    let error = match doc.get("error") {
        Some(j) => j.as_str(),
        None => None,
    };
    match error {
        Some(e) => {
            let mut out = String::from_str("获取访问令牌失败: ");
            out.append(e);
            Reply::failure(FailureKind::Remote, out)
        },
        None => {
            let token = match doc.get("access_token") {
                Some(j) => j.as_str(),
                None => None,
            };
            match token {
                Some(t) => Reply::Text(String::from_str(t)),
                None => Reply::failure(
                    FailureKind::Parse,
                    String::from_str("响应中未找到访问令牌"),
                ),
            }
        },
    }
}

/// What the text of the answer to a token request means.
pub open spec fn token_reply_text(body: Seq<char>) -> ReplyView {
    match json_document(body) {
        Ok(doc) => token_reply(doc),
        Err(e) => unreadable("解析访问令牌响应失败: "@ + e),
    }
}

/// Reads the text of the answer to a token request.
pub fn read_token_answer(body: &str) -> (r: Reply)
    ensures
        r@ == token_reply_text(body@),
{
    match parse_json(body) {
        Ok(doc) => read_token_reply(&doc),
        Err(e) => {
            let mut out = String::from_str("解析访问令牌响应失败: ");
            out.append(e.as_str());
            Reply::failure(FailureKind::Parse, out)
        },
    }
}

/// The number by which the service knows the model of a language: one for
/// English, and the one for Mandarin for every other language.
pub open spec fn model_number(language: Seq<char>) -> Seq<char> {
    if language == "en-US"@ {
        "1737"@
    } else {
        "1537"@
    }
}

/// The parameters of a recognition request, in the order in which they
/// are written: the format of the audio, the token, the audio in base64
/// with its length in bytes, and the model.
pub open spec fn recognition_parameters(
    token: Seq<char>,
    speech: Seq<char>,
    length: nat,
    language: Seq<char>,
) -> Seq<(Seq<char>, Seq<char>)> {
    seq![
        ("format"@, "wav"@),
        ("rate"@, "16000"@),
        ("channel"@, "1"@),
        ("cuid"@, "flow-text-app"@),
        ("token"@, token),
        ("speech"@, speech),
        ("len"@, decimal_digits(length)),
        ("dev_pid"@, model_number(language)),
    ]
}

/// The content of a recognition request: the JSON object of its
/// parameters, or a diagnostic where the audio is too long to be written
/// in base64.
pub open spec fn recognition_body(token: Seq<char>, audio: Seq<u8>, language: Seq<char>) -> Result<
    Seq<char>,
    Seq<char>,
> {
    match encoded(audio) {
        Ok(speech) => Ok(object_text(recognition_parameters(token, speech, audio.len(), language))),
        Err(e) => Err(e),
    }
}

fn pair(name: &str, value: String) -> (r: (String, String))
    ensures
        r.0@ == name@,
        r.1@ == value@,
{
    (String::from_str(name), value)
}

/// Writes the content of a recognition request.
pub fn recognition_request(token: &str, audio: &[u8], language: &str) -> (r: Result<String, String>)
    ensures
        match r {
            Ok(s) => recognition_body(token@, audio@, language@) == Ok::<Seq<char>, Seq<char>>(s@),
            Err(e) => recognition_body(token@, audio@, language@) == Err::<Seq<char>, Seq<char>>(
                e@,
            ),
        },
{
    let speech = match encode_base64(audio) {
        Ok(t) => t,
        Err(e) => {
            return Err(e);
        },
    };
    let model = if same_text(language, "en-US") {
        String::from_str("1737")
    } else {
        String::from_str("1537")
    };
    let mut params: Vec<(String, String)> = Vec::new();
    params.push(pair("format", String::from_str("wav")));
    params.push(pair("rate", String::from_str("16000")));
    params.push(pair("channel", String::from_str("1")));
    params.push(pair("cuid", String::from_str("flow-text-app")));
    params.push(pair("token", String::from_str(token)));
    params.push(pair("speech", speech));
    params.push(pair("len", decimal(audio.len() as u64)));
    params.push(pair("dev_pid", model));
    assert(pairs_view(params@) =~= recognition_parameters(
        token@,
        speech@,
        audio@.len(),
        language@,
    ));
    Ok(build_object_text(&params))
}

/// What the answer to a recognition request means: a failure where it
/// names an error number other than 0; else one cue over the first ten
/// seconds with the first result as its text, or no cue where there is no
/// result or the result is blank.
pub open spec fn recognition_reply(doc: JsonView) -> ReplyView {
    let number = match doc.member("err_no"@) {
        Some(j) => j.signed(),
        None => None,
    };
    if number is Some && number->Some_0 != 0 {
        remote(
            "百度API错误 "@ + signed_decimal_digits(number->Some_0 as int) + ": "@ + text_or(
                doc.member("err_msg"@),
                "未知错误"@,
            ),
        )
    } else {
        let text = match doc.member("result"@) {
            Some(JsonView::Array(items)) => if items.len() > 0 {
                match items[0] {
                    JsonView::Text(t) => t,
                    _ => Seq::empty(),
                }
            } else {
                Seq::empty()
            },
            _ => Seq::empty(),
        };
        if trim(text).len() == 0 {
            ReplyView::Cues(Seq::empty())
        } else {
            ReplyView::Cues(
                seq![SubtitleView { id: "1"@, start_time: 0, end_time: 10000, text }],
            )
        }
    }
}

/// Reads the answer to a recognition request.
pub fn read_recognition_reply(doc: &Json) -> (r: Reply)
    ensures
        r@ == recognition_reply(doc@),
        reply_well_formed(r@),
{
    let number = match doc.get("err_no") {
        Some(j) => j.as_i64(),
        None => None,
    };
    match number {
        Some(n) => {
            if n != 0 {
                let code = signed_decimal(n);
                let detail = member_text_or(doc, "err_msg", "未知错误");
                let mut out = String::from_str("百度API错误 ");
                out.append(code.as_str());
                out.append(": ");
                out.append(detail.as_str());
                return Reply::failure(FailureKind::Remote, out);
            }
        },
        None => {},
    }
    let results = match doc.get("result") {
        Some(j) => j.as_array(),
        None => None,
    };
    let text = match results {
        Some(items) => if items.len() > 0 {
            proof {
                assert(views(items@)[0] == items@[0]@);
            }
            match items[0].as_str() {
                Some(t) => String::from_str(t),
                None => String::new(),
            }
        } else {
            String::new()
        },
        None => String::new(),
    };
    let mut out: Vec<Subtitle> = Vec::new();
    if is_blank(text.as_str()) {
        assert(cues_view(out@) =~= Seq::empty());
    } else {
        let cue = Subtitle { id: String::from_str("1"), start_time: 0, end_time: 10000, text };
        out.push(cue);
        assert(cues_view(out@) =~= seq![cue@]);
    }
    Reply::Cues(out)
}

/// What the text of the answer to a recognition request means.
pub open spec fn recognition_reply_text(body: Seq<char>) -> ReplyView {
    match json_document(body) {
        Ok(doc) => recognition_reply(doc),
        Err(e) => unreadable("解析响应JSON失败: "@ + e),
    }
}

/// Reads the text of the answer to a recognition request.
pub fn read_recognition_answer(body: &str) -> (r: Reply)
    ensures
        r@ == recognition_reply_text(body@),
        reply_well_formed(r@),
{
    match parse_json(body) {
        Ok(doc) => read_recognition_reply(&doc),
        Err(e) => {
            let mut out = String::from_str("解析响应JSON失败: ");
            out.append(e.as_str());
            Reply::failure(FailureKind::Parse, out)
        },
    }
}

} // verus!
