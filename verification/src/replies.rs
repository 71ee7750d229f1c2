//! What the replies of the size-gated cloud service mean: errors, task
//! identifiers, task states and recognised sentences.

use vstd::prelude::*;
use vstd::string::*;
use crate::json::{get2, json_document, member2, member_text_or, member_unsigned_or_zero, parse_json, text_or, unsigned_or_zero, views, Json, JsonView};
use crate::text::{chars_of, decimal, decimal_digits, decimal_wide, is_blank, same_text, string_of_range, trim, trim_bounds, chars_of_range};
use crate::fallback::{one_decimal, one_decimal_text, MEGABYTE};
use crate::job::{reply_well_formed, FailureKind, Reply, ReplyView};
use crate::text_laws::lemma_trim_trimmed;
use crate::video::{all_well_formed, cues_view, outcome_view, outcome_well_formed, Subtitle, SubtitleView};

verus! {

/// The code and the message of the error that a reply reports, if it
/// reports one. A part that is missing or no string is replaced by a fixed
/// word.
pub open spec fn reported_error(doc: JsonView) -> Option<(Seq<char>, Seq<char>)> {
    match member2(doc, "Response"@, "Error"@) {
        Some(e) => Some(
            (text_or(e.member("Code"@), "Unknown"@), text_or(e.member("Message"@), "Unknown error"@)),
        ),
        None => None,
    }
}

/// Reads the error that a reply reports.
pub fn api_error(doc: &Json) -> (r: Option<(String, String)>)
    ensures
        match r {
            Some(e) => reported_error(doc@) == Some((e.0@, e.1@)),
            None => reported_error(doc@) is None,
        },
{
    match get2(doc, "Response", "Error") {
        Some(e) => Some(
            (member_text_or(e, "Code", "Unknown"), member_text_or(e, "Message", "Unknown error")),
        ),
        None => None,
    }
}

/// A diagnostic made of a label, an error code and an error message.
pub open spec fn error_line(label: Seq<char>, code: Seq<char>, message: Seq<char>) -> Seq<char> {
    label + code + " - "@ + message
}

/// Writes a diagnostic from a label, an error code and an error message.
pub fn error_text(label: &str, code: &str, message: &str) -> (r: String)
    ensures
        r@ == error_line(label@, code@, message@),
{
    let mut out = String::from_str(label);
    out.append(code);
    out.append(" - ");
    out.append(message);
    out
}

/// A diagnostic made of a label and a detail.
pub fn labelled(label: &str, detail: &str) -> (r: String)
    ensures
        r@ == label@ + detail@,
{
    let mut out = String::from_str(label);
    out.append(detail);
    out
}

/// The cue that one entry of a detailed result stands for, where its
/// sentence is not blank and its end does not lie before its start: the
/// entry's times in milliseconds and its sentence as it is. `number` is the
/// entry's place in the list, from 1.
pub open spec fn detail_cue(item: JsonView, prefix: Seq<char>, number: nat) -> Option<SubtitleView> {
    let text = text_or(item.member("FinalSentence"@), ""@);
    if trim(text).len() == 0 || unsigned_or_zero(item.member("EndMs"@)) < unsigned_or_zero(
        item.member("StartMs"@),
    ) {
        None
    } else {
        Some(
            SubtitleView {
                id: prefix + decimal_digits(number),
                start_time: unsigned_or_zero(item.member("StartMs"@)),
                end_time: unsigned_or_zero(item.member("EndMs"@)),
                text,
            },
        )
    }
}

/// The cues of the first `n` entries of a detailed result.
pub open spec fn detail_cues(items: Seq<JsonView>, prefix: Seq<char>, n: nat) -> Seq<SubtitleView>
    decreases n,
{
    if n == 0 || n > items.len() {
        Seq::empty()
    } else {
        let before = detail_cues(items, prefix, (n - 1) as nat);
        match detail_cue(items[n - 1], prefix, n) {
            Some(cue) => before.push(cue),
            None => before,
        }
    }
}

/// The cues of a detailed result are well formed.
pub proof fn lemma_detail_cues_well_formed(items: Seq<JsonView>, prefix: Seq<char>, n: nat)
    ensures
        all_well_formed(detail_cues(items, prefix, n)),
    decreases n,
{
    if !(n == 0 || n > items.len()) {
        lemma_detail_cues_well_formed(items, prefix, (n - 1) as nat);
        let before = detail_cues(items, prefix, (n - 1) as nat);
        let all = detail_cues(items, prefix, n);
        assert forall|i: int| 0 <= i < all.len() implies (#[trigger] all[i]).well_formed() by {
            if i < before.len() {
                assert(all[i] == before[i]);
            }
        }
    }
}

/// Turns the entries of a detailed result into cues, dropping the entries
/// whose sentence is blank or whose end lies before their start.
pub fn cues_from_details(items: &Vec<Json>, prefix: &str) -> (r: Vec<Subtitle>)
    ensures
        cues_view(r@) == detail_cues(views(items@), prefix@, items@.len()),
        all_well_formed(cues_view(r@)),
{
    proof {
        lemma_detail_cues_well_formed(views(items@), prefix@, items@.len());
    }
    let mut out: Vec<Subtitle> = Vec::new();
    let mut i: usize = 0;
    while i < items.len()
        invariant
            i <= items.len(),
            cues_view(out@) == detail_cues(views(items@), prefix@, i as nat),
        decreases items.len() - i,
    {
        let item = &items[i];
        proof {
            assert(views(items@)[i as int] == item@);
        }
        let text = member_text_or(item, "FinalSentence", "");
        let start_time = member_unsigned_or_zero(item, "StartMs");
        let end_time = member_unsigned_or_zero(item, "EndMs");
        if !is_blank(text.as_str()) && start_time <= end_time {
            let number = decimal((i + 1) as u64);
            let mut id = String::from_str(prefix);
            id.append(number.as_str());
            let cue = Subtitle { id, start_time, end_time, text };
            let ghost before = out@;
            out.push(cue);
            assert(cues_view(out@) =~= cues_view(before).push(cue@));
        }
        i += 1;
    }
    out
}

/// What a reply with a detailed result holds: the cues of its entries, or
/// the reason why there are none. `label` starts the diagnostic of an
/// error that the service reports, `prefix` the identifier of each cue.
pub open spec fn detailed_result(doc: JsonView, label: Seq<char>, prefix: Seq<char>) -> Result<
    Seq<SubtitleView>,
    Seq<char>,
> {
    match reported_error(doc) {
        Some(e) => Err(error_line(label, e.0, e.1)),
        None => match member2(doc, "Response"@, "Data"@) {
            None => Err("响应中没有Data字段"@),
            Some(data) => match data.member("ResultDetail"@) {
                Some(JsonView::Array(items)) => {
                    let cues = detail_cues(items, prefix, items.len());
                    if cues.len() == 0 {
                        Err("识别结果为空"@)
                    } else {
                        Ok(cues)
                    }
                },
                _ => Err("响应中没有ResultDetail字段"@),
            },
        },
    }
}

/// Reads the cues out of a reply with a detailed result.
pub fn cues_from_detailed_reply(doc: &Json, label: &str, prefix: &str) -> (r: Result<
    Vec<Subtitle>,
    String,
>)
    ensures
        outcome_view(r) == detailed_result(doc@, label@, prefix@),
        outcome_well_formed(r),
{
    match api_error(doc) {
        Some(e) => Err(error_text(label, e.0.as_str(), e.1.as_str())),
        None => match get2(doc, "Response", "Data") {
            None => Err(String::from_str("响应中没有Data字段")),
            Some(data) => {
                let details = match data.get("ResultDetail") {
                    Some(d) => d.as_array(),
                    None => None,
                };
                match details {
                    Some(items) => {
                        let cues = cues_from_details(items, prefix);
                        if cues.len() == 0 {
                            Err(String::from_str("识别结果为空"))
                        } else {
                            Ok(cues)
                        }
                    },
                    None => Err(String::from_str("响应中没有ResultDetail字段")),
                }
            },
        },
    }
}

/// What the text of a reply with a detailed result holds.
pub open spec fn rec_result(response: Seq<char>) -> Result<Seq<SubtitleView>, Seq<char>> {
    match json_document(response) {
        Ok(doc) => detailed_result(doc, "腾讯云API错误: "@, "tencent_"@),
        Err(e) => Err("解析JSON响应失败: "@ + e),
    }
}

/// Reads the cues out of the text of a reply with a detailed result.
pub fn parse_tencent_rec_result(response: &str) -> (r: Result<Vec<Subtitle>, String>)
    ensures
        outcome_view(r) == rec_result(response@),
        outcome_well_formed(r),
{
    match parse_json(response) {
        Ok(doc) => cues_from_detailed_reply(&doc, "腾讯云API错误: ", "tencent_"),
        Err(e) => Err(labelled("解析JSON响应失败: ", e.as_str())),
    }
}

/// The label of a reply that is no JSON text.
pub const NOT_JSON: &'static str = "解析JSON响应失败: ";

/// What a reply to a single-sentence request holds: one cue over the first
/// ten seconds with the whole result as its text, or the reason why there
/// is none.
pub open spec fn sentence_result(doc: JsonView) -> Result<Seq<SubtitleView>, Seq<char>> {
    match reported_error(doc) {
        Some(e) => Err(error_line("腾讯云SentenceRecognition API错误: "@, e.0, e.1)),
        None => match doc.member("Response"@) {
            None => Err("响应中没有Response字段"@),
            Some(response) => {
                let text = text_or(response.member("Result"@), ""@);
                if trim(text).len() == 0 {
                    Err("识别结果为空"@)
                } else {
                    Ok(
                        seq![
                            SubtitleView {
                                id: "tencent_sentence_1"@,
                                start_time: 0,
                                end_time: 10000,
                                text,
                            },
                        ],
                    )
                }
            },
        },
    }
}

/// Reads the cue out of a reply to a single-sentence request.
pub fn cues_from_sentence_reply(doc: &Json) -> (r: Result<Vec<Subtitle>, String>)
    ensures
        outcome_view(r) == sentence_result(doc@),
        outcome_well_formed(r),
{
    match api_error(doc) {
        Some(e) => Err(
            error_text("腾讯云SentenceRecognition API错误: ", e.0.as_str(), e.1.as_str()),
        ),
        None => match doc.get("Response") {
            None => Err(String::from_str("响应中没有Response字段")),
            Some(response) => {
                let text = member_text_or(response, "Result", "");
                if is_blank(text.as_str()) {
                    Err(String::from_str("识别结果为空"))
                } else {
                    let cue = Subtitle {
                        id: String::from_str("tencent_sentence_1"),
                        start_time: 0,
                        end_time: 10000,
                        text,
                    };
                    let mut out: Vec<Subtitle> = Vec::new();
                    out.push(cue);
                    assert(cues_view(out@) =~= seq![cue@]);
                    Ok(out)
                }
            },
        },
    }
}

/// What the text of a reply to a single-sentence request holds.
pub open spec fn rapid_result(response: Seq<char>) -> Result<Seq<SubtitleView>, Seq<char>> {
    match json_document(response) {
        Ok(doc) => sentence_result(doc),
        Err(e) => Err(NOT_JSON@ + e),
    }
}

/// Reads the cue out of the text of a reply to a single-sentence request.
pub fn parse_tencent_rapid_result(response: &str) -> (r: Result<Vec<Subtitle>, String>)
    ensures
        outcome_view(r) == rapid_result(response@),
        outcome_well_formed(r),
{
    match parse_json(response) {
        Ok(doc) => cues_from_sentence_reply(&doc),
        Err(e) => Err(labelled(NOT_JSON, e.as_str())),
    }
}

/// The state of a task as a reply names it, or the diagnostic of the
/// error that the reply reports. A reply that names no state is read as
/// the state `unknown`.
pub open spec fn task_status(doc: JsonView) -> Result<Seq<char>, Seq<char>> {
    match reported_error(doc) {
        Some(e) => Err(error_line("腾讯云API错误: "@, e.0, e.1)),
        None => Ok(
            match member2(doc, "Response"@, "Data"@) {
                Some(data) => text_or(data.member("StatusStr"@), "unknown"@),
                None => "unknown"@,
            },
        ),
    }
}

/// Reads the state of a task out of a reply.
pub fn status_from_reply(doc: &Json) -> (r: Result<String, String>)
    ensures
        match r {
            Ok(s) => task_status(doc@) == Ok::<Seq<char>, Seq<char>>(s@),
            Err(e) => task_status(doc@) == Err::<Seq<char>, Seq<char>>(e@),
        },
{
    match api_error(doc) {
        Some(e) => Err(error_text("腾讯云API错误: ", e.0.as_str(), e.1.as_str())),
        None => Ok(
            match get2(doc, "Response", "Data") {
                Some(data) => member_text_or(data, "StatusStr", "unknown"),
                None => String::from_str("unknown"),
            },
        ),
    }
}

/// What the text of a reply says of the state of a task.
pub open spec fn task_status_text(response: Seq<char>) -> Result<Seq<char>, Seq<char>> {
    match json_document(response) {
        Ok(doc) => task_status(doc),
        Err(e) => Err(NOT_JSON@ + e),
    }
}

/// Reads the state of a task out of the text of a reply.
pub fn parse_task_status(response: &str) -> (r: Result<String, String>)
    ensures
        match r {
            Ok(s) => task_status_text(response@) == Ok::<Seq<char>, Seq<char>>(s@),
            Err(e) => task_status_text(response@) == Err::<Seq<char>, Seq<char>>(e@),
        },
{
    match parse_json(response) {
        Ok(doc) => status_from_reply(&doc),
        Err(e) => Err(labelled(NOT_JSON, e.as_str())),
    }
}

/// The reason that a reply gives for the failure of a task, or a fixed
/// word where it gives none.
pub open spec fn failure_reason(doc: JsonView) -> Seq<char> {
    match member2(doc, "Response"@, "Data"@) {
        Some(data) => text_or(data.member("ErrorMsg"@), "未知错误"@),
        None => "未知错误"@,
    }
}

/// Reads the reason for the failure of a task out of a reply.
pub fn reason_from_reply(doc: &Json) -> (r: String)
    ensures
        r@ == failure_reason(doc@),
{
    match get2(doc, "Response", "Data") {
        Some(data) => member_text_or(data, "ErrorMsg", "未知错误"),
        None => String::from_str("未知错误"),
    }
}

/// What the text of a reply gives as the reason for a failure.
pub open spec fn failure_reason_text(response: Seq<char>) -> Seq<char> {
    match json_document(response) {
        Ok(doc) => failure_reason(doc),
        Err(e) => "解析响应失败"@,
    }
}

/// Reads the reason for the failure of a task out of the text of a reply.
pub fn extract_error_message(response: &str) -> (r: String)
    ensures
        r@ == failure_reason_text(response@),
{
    match parse_json(response) {
        Ok(doc) => reason_from_reply(&doc),
        Err(e) => String::from_str("解析响应失败"),
    }
}

/// `n` where it fits in 64 bits, else the largest 64-bit number.
pub open spec fn clamp_u64(n: int) -> u64 {
    if n < 0 {
        0
    } else if n > u64::MAX {
        u64::MAX
    } else {
        n as u64
    }
}

/// The cue of a sentence without times of its own: sentence number
/// `index`, counted from 0, is given the three seconds that start at
/// `3 * index` seconds.
pub open spec fn estimated_cue(index: nat, text: Seq<char>) -> SubtitleView {
    SubtitleView {
        id: decimal_digits(index + 1),
        start_time: clamp_u64(index as int * 3000),
        end_time: clamp_u64(index as int * 3000 + 3000),
        text,
    }
}

/// Three seconds for each of `index` sentences, in milliseconds.
pub fn estimated_time(index: u64) -> (r: u64)
    ensures
        r == clamp_u64(index * 3000),
{
    if index <= 6148914691236517 {
        index * 3000
    } else {
        u64::MAX
    }
}

/// Builds the cue of a sentence without times of its own.
pub fn estimate_cue(index: usize, text: String) -> (r: Subtitle)
    ensures
        r@ == estimated_cue(index as nat, text@),
{
    let start = estimated_time(index as u64);
    let end = if start <= u64::MAX - 3000 {
        start + 3000
    } else {
        u64::MAX
    };
    Subtitle { id: decimal_wide(index as u128 + 1), start_time: start, end_time: end, text }
}

/// The marks that end a sentence.
pub open spec fn is_sentence_stop(c: char) -> bool {
    c == '。' || c == '！' || c == '？' || c == '.' || c == '!' || c == '?'
}

/// The first position at or after `i` that holds a mark that ends a
/// sentence, or the length of `s`.
pub open spec fn stop_from(s: Seq<char>, i: int) -> int
    decreases s.len() - i,
{
    if i < 0 || i >= s.len() {
        s.len() as int
    } else if is_sentence_stop(s[i]) {
        i
    } else {
        stop_from(s, i + 1)
    }
}

/// The cues of the sentences of `s` from position `start` on, after the
/// cues in `done`: the text is cut at each mark that ends a sentence, the
/// blank pieces are dropped, and each other piece, trimmed, is given three
/// seconds.
pub open spec fn sentence_cues(s: Seq<char>, start: int, done: Seq<SubtitleView>) -> Seq<
    SubtitleView,
>
    decreases s.len() - start,
{
    if start < 0 || start > s.len() {
        done
    } else {
        let k = stop_from(s, start);
        let piece = trim(s.subrange(start, k));
        let next = if piece.len() == 0 {
            done
        } else {
            done.push(estimated_cue(done.len(), piece))
        };
        if k < start || k >= s.len() {
            next
        } else {
            sentence_cues(s, k + 1, next)
        }
    }
}

/// Whether `c` is a mark that ends a sentence.
pub fn char_is_sentence_stop(c: char) -> (r: bool)
    ensures
        r == is_sentence_stop(c),
{
    c == '。' || c == '！' || c == '？' || c == '.' || c == '!' || c == '?'
}

/// The cues of the sentences of a text are well formed, where those
/// before them are.
pub proof fn lemma_sentence_cues_well_formed(s: Seq<char>, start: int, done: Seq<SubtitleView>)
    requires
        all_well_formed(done),
    ensures
        all_well_formed(sentence_cues(s, start, done)),
    decreases s.len() - start,
{
    if !(start < 0 || start > s.len()) {
        let k = stop_from(s, start);
        let piece = trim(s.subrange(start, k));
        let next = if piece.len() == 0 {
            done
        } else {
            done.push(estimated_cue(done.len(), piece))
        };
        if piece.len() > 0 {
            lemma_estimated_cue_well_formed(done.len(), s.subrange(start, k));
        }
        assert forall|i: int| 0 <= i < next.len() implies (#[trigger] next[i]).well_formed() by {
            if i < done.len() {
                assert(next[i] == done[i]);
            }
        }
        if !(k < start || k >= s.len()) {
            lemma_sentence_cues_well_formed(s, k + 1, next);
        }
    }
}

/// Cuts a text into sentences and gives each three seconds.
pub fn cues_from_sentences(text: &str) -> (r: Vec<Subtitle>)
    ensures
        cues_view(r@) == sentence_cues(text@, 0, Seq::empty()),
        all_well_formed(cues_view(r@)),
{
    proof {
        lemma_sentence_cues_well_formed(text@, 0, Seq::empty());
    }
    let chars = chars_of(text);
    let mut out: Vec<Subtitle> = Vec::new();
    let mut start: usize = 0;
    assert(cues_view(out@) =~= Seq::empty());
    loop
        invariant
            start <= chars.len(),
            chars@ == text@,
            sentence_cues(text@, 0, Seq::empty()) == sentence_cues(
                chars@,
                start as int,
                cues_view(out@),
            ),
            all_well_formed(sentence_cues(text@, 0, Seq::empty())),
        decreases chars.len() - start,
    {
        let mut k: usize = start;
        while k < chars.len() && !char_is_sentence_stop(chars[k])
            invariant
                start <= k <= chars.len(),
                stop_from(chars@, start as int) == stop_from(chars@, k as int),
            decreases chars.len() - k,
        {
            k += 1;
        }
        let piece = chars_of_range(&chars, start, k);
        let (from, to) = trim_bounds(&piece);
        if from < to {
            let sentence = string_of_range(&piece, from, to);
            let cue = estimate_cue(out.len(), sentence);
            let ghost before = out@;
            out.push(cue);
            assert(cues_view(out@) =~= cues_view(before).push(cue@));
        }
        if k >= chars.len() {
            return out;
        }
        start = k + 1;
    }
}

/// The cue that one sentence of a sentence list stands for: its text,
/// trimmed, with its own times in milliseconds, or with estimated times
/// where both of its own are 0. A sentence without a text, with a blank
/// one, or with an end that lies before its start stands for no cue.
/// `index` is the sentence's place, from 0.
pub open spec fn listed_cue(item: JsonView, index: nat) -> Option<SubtitleView> {
    match item.member("Text"@) {
        Some(JsonView::Text(t)) => {
            let start = unsigned_or_zero(item.member("StartTime"@));
            let end = unsigned_or_zero(item.member("EndTime"@));
            let estimate = estimated_cue(index, trim(t));
            if trim(t).len() == 0 || end < start {
                None
            } else if start == 0 && end == 0 {
                Some(estimate)
            } else {
                Some(
                    SubtitleView {
                        id: estimate.id,
                        start_time: start,
                        end_time: end,
                        text: estimate.text,
                    },
                )
            }
        },
        _ => None,
    }
}

/// The cues of the first `n` sentences of a sentence list.
pub open spec fn listed_cues(items: Seq<JsonView>, n: nat) -> Seq<SubtitleView>
    decreases n,
{
    if n == 0 || n > items.len() {
        Seq::empty()
    } else {
        let before = listed_cues(items, (n - 1) as nat);
        match listed_cue(items[n - 1], (n - 1) as nat) {
            Some(cue) => before.push(cue),
            None => before,
        }
    }
}

/// The cue of a sentence without times of its own is well formed where
/// its text is trimmed and not empty.
pub proof fn lemma_estimated_cue_well_formed(index: nat, text: Seq<char>)
    requires
        trim(text).len() > 0,
    ensures
        estimated_cue(index, trim(text)).well_formed(),
{
    lemma_trim_trimmed(text);
}

/// The cues of a sentence list are well formed.
pub proof fn lemma_listed_cues_well_formed(items: Seq<JsonView>, n: nat)
    ensures
        all_well_formed(listed_cues(items, n)),
    decreases n,
{
    if !(n == 0 || n > items.len()) {
        lemma_listed_cues_well_formed(items, (n - 1) as nat);
        let before = listed_cues(items, (n - 1) as nat);
        let all = listed_cues(items, n);
        match items[n - 1].member("Text"@) {
            Some(JsonView::Text(t)) => {
                if trim(t).len() > 0 {
                    lemma_estimated_cue_well_formed((n - 1) as nat, t);
                }
            },
            _ => {},
        }
        assert forall|i: int| 0 <= i < all.len() implies (#[trigger] all[i]).well_formed() by {
            if i < before.len() {
                assert(all[i] == before[i]);
            }
        }
    }
}

/// Turns a sentence list into cues.
pub fn cues_from_list(items: &Vec<Json>) -> (r: Vec<Subtitle>)
    ensures
        cues_view(r@) == listed_cues(views(items@), items@.len()),
        all_well_formed(cues_view(r@)),
{
    proof {
        lemma_listed_cues_well_formed(views(items@), items@.len());
    }
    let mut out: Vec<Subtitle> = Vec::new();
    let mut i: usize = 0;
    while i < items.len()
        invariant
            i <= items.len(),
            cues_view(out@) == listed_cues(views(items@), i as nat),
        decreases items.len() - i,
    {
        let item = &items[i];
        let text = match item.get("Text") {
            Some(t) => t.as_str(),
            None => None,
        };
        proof {
            assert(views(items@)[i as int] == item@);
        }
        match text {
            Some(t) => {
                let chars = chars_of(t);
                let (from, to) = trim_bounds(&chars);
                let start = member_unsigned_or_zero(item, "StartTime");
                let end = member_unsigned_or_zero(item, "EndTime");
                if from < to && start <= end {
                    let mut cue = estimate_cue(i, string_of_range(&chars, from, to));
                    if !(start == 0 && end == 0) {
                        cue.start_time = start;
                        cue.end_time = end;
                    }
                    let ghost before = out@;
                    out.push(cue);
                    assert(cues_view(out@) =~= cues_view(before).push(cue@));
                }
            },
            _ => {},
        }
        i += 1;
    }
    out
}

/// The diagnostic of a result without a usable sentence.
pub const NO_SENTENCES: &'static str = "未能解析出有效的识别结果";

/// What the result of a finished task holds: the cues of its sentence
/// list, or of its text cut into sentences, or the reason why there are
/// none.
pub open spec fn file_result(doc: JsonView) -> Result<Seq<SubtitleView>, Seq<char>> {
    let cues = match doc.member("Result"@) {
        Some(JsonView::Array(items)) => listed_cues(items, items.len()),
        Some(JsonView::Text(t)) => sentence_cues(t, 0, Seq::empty()),
        _ => Seq::empty(),
    };
    if cues.len() == 0 {
        Err(NO_SENTENCES@)
    } else {
        Ok(cues)
    }
}

/// Reads the cues out of the result of a finished task.
pub fn cues_from_file_result(doc: &Json) -> (r: Result<Vec<Subtitle>, String>)
    ensures
        outcome_view(r) == file_result(doc@),
        outcome_well_formed(r),
{
    let cues = match doc.get("Result") {
        Some(result) => match (result.as_array(), result.as_str()) {
            (Some(items), _) => cues_from_list(items),
            (None, Some(t)) => cues_from_sentences(t),
            (None, None) => {
                let none: Vec<Subtitle> = Vec::new();
                assert(cues_view(none@) =~= Seq::empty());
                none
            },
        },
        None => {
            let none: Vec<Subtitle> = Vec::new();
            assert(cues_view(none@) =~= Seq::empty());
            none
        },
    };
    if cues.len() == 0 {
        Err(String::from_str(NO_SENTENCES))
    } else {
        Ok(cues)
    }
}

/// What the text of the result of a finished task holds.
pub open spec fn file_result_text(result: Seq<char>) -> Result<Seq<SubtitleView>, Seq<char>> {
    match json_document(result) {
        Ok(doc) => file_result(doc),
        Err(e) => Err("解析识别结果JSON失败: "@ + e),
    }
}

/// Reads the cues out of the text of the result of a finished task.
pub fn parse_tencent_file_recognition_result(result: &str) -> (r: Result<Vec<Subtitle>, String>)
    ensures
        outcome_view(r) == file_result_text(result@),
        outcome_well_formed(r),
{
    match parse_json(result) {
        Ok(doc) => cues_from_file_result(&doc),
        Err(e) => Err(labelled("解析识别结果JSON失败: ", e.as_str())),
    }
}

/// A failure of the given kind with the given diagnostic.
pub open spec fn failure(kind: FailureKind, message: Seq<char>) -> ReplyView {
    ReplyView::Failed { kind, message }
}

/// The failure of a service that reports an error or a failed task.
pub open spec fn remote(message: Seq<char>) -> ReplyView {
    failure(FailureKind::Remote, message)
}

/// The failure of an answer that is not understood.
pub open spec fn unreadable(message: Seq<char>) -> ReplyView {
    failure(FailureKind::Parse, message)
}

/// The reply that a cue list or a diagnostic stands for.
pub open spec fn outcome_reply(outcome: Result<Seq<SubtitleView>, Seq<char>>) -> ReplyView {
    match outcome {
        Ok(cues) => ReplyView::Cues(cues),
        Err(e) => unreadable(e),
    }
}

/// Turns a cue list or a diagnostic into a reply.
pub fn reply_from_outcome(outcome: Result<Vec<Subtitle>, String>) -> (r: Reply)
    ensures
        r@ == outcome_reply(outcome_view(outcome)),
        outcome_well_formed(outcome) ==> reply_well_formed(r@),
{
    match outcome {
        Ok(cues) => Reply::Cues(cues),
        Err(e) => Reply::failure(FailureKind::Parse, e),
    }
}

fn fail(message: &str) -> (r: Reply)
    ensures
        r@ == unreadable(message@),
{
    Reply::failure(FailureKind::Parse, String::from_str(message))
}

fn remote_failure(message: String) -> (r: Reply)
    ensures
        r@ == remote(message@),
{
    Reply::failure(FailureKind::Remote, message)
}

/// The size that audio of `length` bytes has in base64, estimated as 137
/// hundredths of its length.
pub open spec fn encoded_size(length: nat) -> nat {
    length * 137 / 100
}

/// The start of the diagnostic of a request that is too large.
pub const REQUEST_TOO_LARGE_START: &'static str = "🚫 **请求体过大错误**\n\n错误详情: ";

/// The part of the diagnostic of a request that is too large that leads
/// to the size of the audio.
pub const REQUEST_TOO_LARGE_AUDIO: &'static str = "\n\n📋 **问题分析**：\n• 音频文件: ";

/// The part of the diagnostic of a request that is too large that leads
/// to the size of the encoded audio.
pub const REQUEST_TOO_LARGE_ENCODED: &'static str = " MB\n• Base64编码后: ";

/// The end of the diagnostic of a request that is too large: the limit
/// and what can be done.
pub const REQUEST_TOO_LARGE_END: &'static str =
    " MB\n• 腾讯云请求体限制: 10 MB\n\n💡 **解决方案**：\n\n1. 🏠 **使用Whisper本地识别**（强烈推荐）\n   • ✅ 无文件大小限制\n   • ✅ 识别准确度高\n   • ✅ 完全本地处理\n   • ✅ 一次性解决所有大文件问题\n\n2. ☁️ **配置腾讯云COS上传**\n   • 先上传音频到腾讯云对象存储\n   • 使用URL方式调用API\n   • 支持最大1GB文件\n\n3. 🔧 **压缩音频文件**\n   • 降低采样率到16kHz或8kHz\n   • 转换为单声道\n   • 使用更高压缩比的格式";

/// The start of the diagnostic of audio that the service finds too large.
pub const AUDIO_TOO_LARGE_START: &'static str = "🚫 **音频文件过大**\n\n错误详情: ";

/// The end of the diagnostic of audio that the service finds too large.
pub const AUDIO_TOO_LARGE_END: &'static str =
    "\n\n💡 **解决方案**：\n1. 使用Whisper本地识别（推荐）\n2. 配置腾讯云COS存储上传\n3. 分割音频文件到5MB以下";

/// The diagnostic of an error that the service reports when a task is
/// created from audio of `length` bytes: the code and the message, and
/// for the two codes that speak of size an explanation around them, with
/// the sizes and with what can be done.
pub open spec fn creation_error(code: Seq<char>, message: Seq<char>, length: nat) -> Seq<char> {
    if code == "RequestSizeLimitExceeded"@ {
        error_line(REQUEST_TOO_LARGE_START@, code, message) + REQUEST_TOO_LARGE_AUDIO@
            + one_decimal_text(
            length,
            MEGABYTE as nat,
        ) + REQUEST_TOO_LARGE_ENCODED@ + one_decimal_text(
            clamp_u64(encoded_size(length) as int) as nat,
            MEGABYTE as nat,
        ) + REQUEST_TOO_LARGE_END@
    } else if code == "AudioTooLarge"@ {
        error_line(AUDIO_TOO_LARGE_START@, code, message) + AUDIO_TOO_LARGE_END@
    } else {
        error_line("腾讯云录音文件识别API错误: "@, code, message)
    }
}

/// Writes the diagnostic of an error that the service reports when a task
/// is created.
pub fn creation_error_text(code: &str, message: &str, length: u64) -> (r: String)
    ensures
        r@ == creation_error(code@, message@, length as nat),
{
    if same_text(code, "RequestSizeLimitExceeded") {
        let wide: u128 = (length as u128) * 137 / 100;
        let encoded: u64 = if wide > u64::MAX as u128 {
            u64::MAX
        } else {
            wide as u64
        };
        let size = one_decimal(length, MEGABYTE);
        let encoded_text = one_decimal(encoded, MEGABYTE);
        let mut out = error_text(REQUEST_TOO_LARGE_START, code, message);
        out.append(REQUEST_TOO_LARGE_AUDIO);
        out.append(size.as_str());
        out.append(REQUEST_TOO_LARGE_ENCODED);
        out.append(encoded_text.as_str());
        out.append(REQUEST_TOO_LARGE_END);
        out
    } else if same_text(code, "AudioTooLarge") {
        let mut out = error_text(AUDIO_TOO_LARGE_START, code, message);
        out.append(AUDIO_TOO_LARGE_END);
        out
    } else {
        error_text("腾讯云录音文件识别API错误: ", code, message)
    }
}

/// The identifier of the task that a reply announces, if it announces one
/// as a whole number from 0 to `u64::MAX`; else whether it announces
/// anything under that name.
pub open spec fn announced_task(doc: JsonView) -> Result<u64, bool> {
    match member2(doc, "Response"@, "Data"@) {
        Some(data) => match data.member("TaskId"@) {
            Some(id) => match id.unsigned() {
                Some(n) => Ok(n),
                None => Err(true),
            },
            None => Err(false),
        },
        None => Err(false),
    }
}

/// Reads the identifier of the task that a reply announces.
pub fn task_id_from_reply(doc: &Json) -> (r: Result<u64, bool>)
    ensures
        r == announced_task(doc@),
{
    match get2(doc, "Response", "Data") {
        Some(data) => match data.get("TaskId") {
            Some(id) => match id.as_u64() {
                Some(n) => Ok(n),
                None => Err(true),
            },
            None => Err(false),
        },
        None => Err(false),
    }
}

/// The kind of an error that the service reports when a task is created:
/// the two codes that speak of size say that the payload is too large.
pub open spec fn creation_failure_kind(code: Seq<char>) -> FailureKind {
    if code == "RequestSizeLimitExceeded"@ || code == "AudioTooLarge"@ {
        FailureKind::PayloadTooLarge
    } else {
        FailureKind::Remote
    }
}

/// What the reply to a request that creates a task from audio of `length`
/// bytes means: the identifier of the task, or a failure.
pub open spec fn creation_reply(doc: JsonView, length: nat) -> ReplyView {
    match reported_error(doc) {
        Some(e) => failure(creation_failure_kind(e.0), creation_error(e.0, e.1, length)),
        None => match announced_task(doc) {
            Ok(n) => ReplyView::Number(n),
            Err(present) => if present {
                unreadable("TaskId格式错误"@)
            } else {
                unreadable("无法获取TaskId"@)
            },
        },
    }
}

/// Reads the reply to a request that creates a task from audio that was
/// sent along.
pub fn read_creation_reply(doc: &Json, length: u64) -> (r: Reply)
    ensures
        r@ == creation_reply(doc@, length as nat),
{
    match api_error(doc) {
        Some(e) => {
            let kind = if same_text(e.0.as_str(), "RequestSizeLimitExceeded") || same_text(
                e.0.as_str(),
                "AudioTooLarge",
            ) {
                FailureKind::PayloadTooLarge
            } else {
                FailureKind::Remote
            };
            Reply::failure(kind, creation_error_text(e.0.as_str(), e.1.as_str(), length))
        },
        None => match task_id_from_reply(doc) {
            Ok(n) => Reply::Number(n),
            Err(present) => if present {
                fail("TaskId格式错误")
            } else {
                fail("无法获取TaskId")
            },
        },
    }
}

/// What the reply to a request that creates a task by URL means.
pub open spec fn url_creation_reply(doc: JsonView) -> ReplyView {
    match reported_error(doc) {
        Some(e) => remote(error_line("腾讯云CreateRecTask API错误: "@, e.0, e.1)),
        None => match announced_task(doc) {
            Ok(n) => ReplyView::Number(n),
            Err(_) => unreadable("无法获取TaskId"@),
        },
    }
}

/// Reads the reply to a request that creates a task by URL.
pub fn read_url_creation_reply(doc: &Json) -> (r: Reply)
    ensures
        r@ == url_creation_reply(doc@),
{
    match api_error(doc) {
        Some(e) => remote_failure(
            error_text("腾讯云CreateRecTask API错误: ", e.0.as_str(), e.1.as_str()),
        ),
        None => match task_id_from_reply(doc) {
            Ok(n) => Reply::Number(n),
            Err(_) => fail("无法获取TaskId"),
        },
    }
}

/// What the reply to a query means for a task that was created from audio
/// sent along: its cues where it succeeded, a failure where it failed or
/// the reply is not understood, and else that it is not done.
pub open spec fn poll_reply(doc: JsonView) -> ReplyView {
    match reported_error(doc) {
        Some(e) => remote(error_line("查询识别状态错误: "@, e.0, e.1)),
        None => match member2(doc, "Response"@, "Data"@) {
            None => unreadable("无法获取状态数据"@),
            Some(data) => {
                let state = text_or(data.member("StatusStr"@), "unknown"@);
                if state == "success"@ {
                    match data.member("Result"@) {
                        Some(JsonView::Text(t)) => outcome_reply(file_result_text(t)),
                        _ => unreadable("无法获取识别结果"@),
                    }
                } else if state == "failed"@ {
                    remote("录音文件识别失败: "@ + text_or(data.member("ErrorMsg"@), "识别失败"@))
                } else {
                    ReplyView::Working
                }
            },
        },
    }
}

/// Reads the reply to a query for a task that was created from audio sent
/// along.
pub fn read_poll_reply(doc: &Json) -> (r: Reply)
    ensures
        r@ == poll_reply(doc@),
        reply_well_formed(r@),
{
    match api_error(doc) {
        Some(e) => remote_failure(error_text("查询识别状态错误: ", e.0.as_str(), e.1.as_str())),
        None => match get2(doc, "Response", "Data") {
            None => fail("无法获取状态数据"),
            Some(data) => {
                let state = member_text_or(data, "StatusStr", "unknown");
                if same_text(state.as_str(), "success") {
                    let result = match data.get("Result") {
                        Some(j) => j.as_str(),
                        None => None,
                    };
                    match result {
                        Some(t) => reply_from_outcome(parse_tencent_file_recognition_result(t)),
                        None => fail("无法获取识别结果"),
                    }
                } else if same_text(state.as_str(), "failed") {
                    let reason = member_text_or(data, "ErrorMsg", "识别失败");
                    remote_failure(labelled("录音文件识别失败: ", reason.as_str()))
                } else {
                    Reply::Working
                }
            },
        },
    }
}

/// What the reply to a query means for a task that was created by URL.
pub open spec fn query_reply(doc: JsonView) -> ReplyView {
    match reported_error(doc) {
        Some(e) => remote(error_line("腾讯云DescribeTaskStatus API错误: "@, e.0, e.1)),
        None => match member2(doc, "Response"@, "Data"@) {
            None => unreadable("响应中没有Data字段"@),
            Some(data) => {
                let state = text_or(data.member("StatusStr"@), "unknown"@);
                if state == "success"@ {
                    outcome_reply(
                        detailed_result(doc, "腾讯云DescribeTaskStatus API错误: "@, "tencent_cos_"@),
                    )
                } else if state == "failed"@ {
                    remote("腾讯云识别任务失败: "@ + text_or(data.member("ErrorMsg"@), "任务失败"@))
                } else {
                    ReplyView::Working
                }
            },
        },
    }
}

/// Reads the reply to a query for a task that was created by URL.
pub fn read_query_reply(doc: &Json) -> (r: Reply)
    ensures
        r@ == query_reply(doc@),
        reply_well_formed(r@),
{
    match api_error(doc) {
        Some(e) => remote_failure(
            error_text("腾讯云DescribeTaskStatus API错误: ", e.0.as_str(), e.1.as_str()),
        ),
        None => match get2(doc, "Response", "Data") {
            None => fail("响应中没有Data字段"),
            Some(data) => {
                let state = member_text_or(data, "StatusStr", "unknown");
                if same_text(state.as_str(), "success") {
                    reply_from_outcome(
                        cues_from_detailed_reply(
                            doc,
                            "腾讯云DescribeTaskStatus API错误: ",
                            "tencent_cos_",
                        ),
                    )
                } else if same_text(state.as_str(), "failed") {
                    let reason = member_text_or(data, "ErrorMsg", "任务失败");
                    remote_failure(labelled("腾讯云识别任务失败: ", reason.as_str()))
                } else {
                    Reply::Working
                }
            },
        },
    }
}

/// What the answer to a request that creates a task from audio of
/// `length` bytes means, by its HTTP status and its text: a failure that
/// names the status and the text where the status is not one of success,
/// else what the text means.
pub open spec fn creation_answer(status: u16, body: Seq<char>, length: u64) -> ReplyView {
    if 200 <= status <= 299 {
        text_reply(ReplyKind::Creation { length }, body)
    } else {
        remote(
            "录音文件识别API调用失败，状态码: "@ + decimal_digits(status as nat) + ", 响应: "@ + body,
        )
    }
}

/// Reads the answer to a request that creates a task from audio that was
/// sent along.
pub fn read_creation_answer(status: u16, body: &str, length: u64) -> (r: Reply)
    ensures
        r@ == creation_answer(status, body@, length),
        reply_well_formed(r@),
{
    if 200 <= status && status <= 299 {
        read_reply(ReplyKind::Creation { length }, body)
    } else {
        let code = decimal(status as u64);
        let mut out = String::from_str("录音文件识别API调用失败，状态码: ");
        out.append(code.as_str());
        out.append(", 响应: ");
        out.append(body);
        remote_failure(out)
    }
}

/// The kinds of reply that the service gives.
#[derive(Debug, Clone, Copy, PartialEq, Eq, Structural)]
pub enum ReplyKind {
    /// To a request that creates a task from audio of this many bytes.
    Creation { length: u64 },
    /// To a request that creates a task by URL.
    UrlCreation,
    /// To a query for a task that was created from audio sent along.
    Poll,
    /// To a query for a task that was created by URL.
    Query,
}

/// What a document of the given kind means.
pub open spec fn document_reply(kind: ReplyKind, doc: JsonView) -> ReplyView {
    match kind {
        ReplyKind::Creation { length } => creation_reply(doc, length as nat),
        ReplyKind::UrlCreation => url_creation_reply(doc),
        ReplyKind::Poll => poll_reply(doc),
        ReplyKind::Query => query_reply(doc),
    }
}

/// The label of the diagnostic of a reply of the given kind that is no
/// JSON text.
pub open spec fn unreadable_label(kind: ReplyKind) -> Seq<char> {
    match kind {
        ReplyKind::Creation { length } => "解析任务创建响应失败: "@,
        ReplyKind::UrlCreation => "解析任务创建响应失败: "@,
        ReplyKind::Poll => "解析状态响应失败: "@,
        ReplyKind::Query => "解析任务状态响应失败: "@,
    }
}

/// What the text of a reply of the given kind means.
pub open spec fn text_reply(kind: ReplyKind, body: Seq<char>) -> ReplyView {
    match json_document(body) {
        Ok(doc) => document_reply(kind, doc),
        Err(e) => unreadable(unreadable_label(kind) + e),
    }
}

/// Reads a document of the given kind.
pub fn read_document(kind: ReplyKind, doc: &Json) -> (r: Reply)
    ensures
        r@ == document_reply(kind, doc@),
        reply_well_formed(r@),
{
    match kind {
        ReplyKind::Creation { length } => read_creation_reply(doc, length),
        ReplyKind::UrlCreation => read_url_creation_reply(doc),
        ReplyKind::Poll => read_poll_reply(doc),
        ReplyKind::Query => read_query_reply(doc),
    }
}

/// Reads the text of a reply of the given kind.
pub fn read_reply(kind: ReplyKind, body: &str) -> (r: Reply)
    ensures
        r@ == text_reply(kind, body@),
        reply_well_formed(r@),
{
    match parse_json(body) {
        Ok(doc) => read_document(kind, &doc),
        Err(e) => {
            let label = match kind {
                ReplyKind::Creation { length } => "解析任务创建响应失败: ",
                ReplyKind::UrlCreation => "解析任务创建响应失败: ",
                ReplyKind::Poll => "解析状态响应失败: ",
                ReplyKind::Query => "解析任务状态响应失败: ",
            };
            Reply::failure(FailureKind::Parse, labelled(label, e.as_str()))
        },
    }
}

} // verus!
