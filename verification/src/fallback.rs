//! Cue lists that stand in for a recognition that did not take place, and
//! advice on audio that is too large. All of it is labelled as what it is
//! in its text.

use vstd::prelude::*;
use vstd::string::*;
use crate::text::{decimal, decimal_digit_chars, decimal_digits, digit_char};
use crate::text_laws::lemma_started_text_not_blank;
use crate::video::{all_well_formed, cues_view, Subtitle, SubtitleView};

verus! {

/// Whether `part` stands in `whole` as one piece.
pub open spec fn is_part_of(part: Seq<char>, whole: Seq<char>) -> bool {
    exists|i: int, j: int| 0 <= i <= j <= whole.len() && part == #[trigger] whole.subrange(i, j)
}

/// Calls `Path::file_stem` of std on the path and hands the stem back
/// where it is valid Unicode. The stem is the file name, or what stands in
/// it before its last point, and the file name is the last component of
/// the path: so the stem is a piece of the path. Which piece it is, and
/// whether there is one, depends on the platform, and is not claimed.
#[verifier::external_body]
pub(crate) fn file_stem(path: &str) -> (r: Option<String>)
    ensures
        r matches Some(stem) ==> is_part_of(stem@, path@),
{
    match std::path::Path::new(path).file_stem() {
        Some(stem) => stem.to_str().map(|s| s.to_owned()),
        None => None,
    }
}

/// The word under which a file without a stem is spoken of.
pub const NO_NAME: &'static str = "unknown";

/// The name that stands for a stem that may be missing: the stem, or a
/// fixed word.
pub open spec fn name_of_stem(stem: Option<Seq<char>>) -> Seq<char> {
    match stem {
        Some(s) => s,
        None => NO_NAME@,
    }
}

/// Chooses the name under which a file is spoken of, by its stem.
pub fn name_or_unknown(stem: Option<String>) -> (r: String)
    ensures
        r@ == name_of_stem(
            match stem {
                Some(s) => Some(s@),
                None => None,
            },
        ),
{
    match stem {
        Some(s) => s,
        None => String::from_str(NO_NAME),
    }
}

/// Whether a file at `path` may be spoken of as `name`: the name is a
/// piece of the path, or the fixed word for a file without a stem.
pub open spec fn may_name(name: Seq<char>, path: Seq<char>) -> bool {
    name == NO_NAME@ || is_part_of(name, path)
}

/// The name under which a file is spoken of: its stem, which is a piece
/// of its path, or a fixed word where it has none.
pub(crate) fn display_name(path: &str) -> (r: String)
    ensures
        may_name(r@, path@),
{
    name_or_unknown(file_stem(path))
}

/// A cue by its parts.
pub open spec fn cue(id: Seq<char>, start_time: u64, end_time: u64, text: Seq<char>) -> SubtitleView {
    SubtitleView { id, start_time, end_time, text }
}

fn make_cue(id: &str, start_time: u64, end_time: u64, text: String) -> (r: Subtitle)
    ensures
        r@ == cue(id@, start_time, end_time, text@),
{
    Subtitle { id: String::from_str(id), start_time, end_time, text }
}

/// Guidance on installing the local recognition program, as five cues of
/// six seconds each. The first names the file; the last says that this is
/// guidance and no recognition result.
pub open spec fn installation_guide_cues(file_name: Seq<char>) -> Seq<SubtitleView> {
    seq![
        cue("1"@, 0, 6000, "正在处理文件: "@ + file_name + " - Whisper未安装"@),
        cue("2"@, 6000, 12000, "要使用真实Whisper识别，请安装: pip install openai-whisper"@),
        cue("3"@, 12000, 18000, "或者使用Homebrew安装: brew install whisper"@),
        cue("4"@, 18000, 24000, "安装后将能够进行真实的语音识别而不是模拟数据"@),
        cue("5"@, 24000, 30000, "当前显示的是安装指导信息，不是真实识别结果"@),
    ]
}

/// The cues of the guidance are cues as they should be: none ends before
/// it starts, and none has a blank text, whatever the name of the file.
pub proof fn lemma_guidance_well_formed(file_name: Seq<char>)
    ensures
        all_well_formed(installation_guide_cues(file_name)),
{
    reveal_strlit("正在处理文件: ");
    reveal_strlit("要使用真实Whisper识别，请安装: pip install openai-whisper");
    reveal_strlit("或者使用Homebrew安装: brew install whisper");
    reveal_strlit("安装后将能够进行真实的语音识别而不是模拟数据");
    reveal_strlit("当前显示的是安装指导信息，不是真实识别结果");
    let cues = installation_guide_cues(file_name);
    assert(cues[0].text[0] == '正');
    assert(cues[1].text[0] == '要');
    assert(cues[2].text[0] == '或');
    assert(cues[3].text[0] == '安');
    assert(cues[4].text[0] == '当');
    lemma_started_text_not_blank(cues[0].text);
    lemma_started_text_not_blank(cues[1].text);
    lemma_started_text_not_blank(cues[2].text);
    lemma_started_text_not_blank(cues[3].text);
    lemma_started_text_not_blank(cues[4].text);
}

/// Builds the installation guidance for a file of the given name.
pub fn installation_guide(file_name: &str) -> (r: Vec<Subtitle>)
    ensures
        cues_view(r@) == installation_guide_cues(file_name@),
        all_well_formed(cues_view(r@)),
{
    proof {
        lemma_guidance_well_formed(file_name@);
    }
    let mut first = String::from_str("正在处理文件: ");
    first.append(file_name);
    first.append(" - Whisper未安装");
    let mut out: Vec<Subtitle> = Vec::new();
    out.push(make_cue("1", 0, 6000, first));
    out.push(
        make_cue(
            "2",
            6000,
            12000,
            String::from_str("要使用真实Whisper识别，请安装: pip install openai-whisper"),
        ),
    );
    out.push(
        make_cue("3", 12000, 18000, String::from_str("或者使用Homebrew安装: brew install whisper")),
    );
    out.push(
        make_cue(
            "4",
            18000,
            24000,
            String::from_str("安装后将能够进行真实的语音识别而不是模拟数据"),
        ),
    );
    out.push(
        make_cue(
            "5",
            24000,
            30000,
            String::from_str("当前显示的是安装指导信息，不是真实识别结果"),
        ),
    );
    assert(cues_view(out@) =~= installation_guide_cues(file_name@));
    out
}

/// Builds the installation guidance for the audio file at `audio_path`,
/// which is named by its stem: by a piece of its path, or by the fixed
/// word.
pub fn generate_whisper_installation_guide(audio_path: &str) -> (r: Vec<Subtitle>)
    ensures
        exists|file_name: Seq<char>|
            #[trigger] may_name(file_name, audio_path@) && cues_view(r@)
                == installation_guide_cues(file_name),
        all_well_formed(cues_view(r@)),
{
    let name = display_name(audio_path);
    installation_guide(name.as_str())
}

/// Four cues of test data for an engine and a file, each marked as test
/// data in its text.
pub open spec fn test_data_cues(file_name: Seq<char>, engine_name: Seq<char>) -> Seq<SubtitleView> {
    seq![
        cue("1"@, 0, 5000, "[测试数据] 使用"@ + engine_name + "引擎识别文件: "@ + file_name),
        cue("2"@, 5500, 10000, "[测试数据] "@ + engine_name + "引擎当前处于测试模式"@),
        cue("3"@, 10500, 15000, "[测试数据] 请配置真实API密钥以获取真实识别结果"@),
        cue("4"@, 15500, 20000, "[测试数据] 这些是示例字幕，不是真实识别结果"@),
    ]
}

/// The cues of the test data are cues as they should be: none ends
/// before it starts, and none has a blank text, whatever the names.
pub proof fn lemma_test_data_well_formed(file_name: Seq<char>, engine_name: Seq<char>)
    ensures
        all_well_formed(test_data_cues(file_name, engine_name)),
{
    reveal_strlit("[测试数据] 使用");
    reveal_strlit("[测试数据] ");
    reveal_strlit("[测试数据] 请配置真实API密钥以获取真实识别结果");
    reveal_strlit("[测试数据] 这些是示例字幕，不是真实识别结果");
    let cues = test_data_cues(file_name, engine_name);
    assert(cues[0].text[0] == '[');
    assert(cues[1].text[0] == '[');
    assert(cues[2].text[0] == '[');
    assert(cues[3].text[0] == '[');
    lemma_started_text_not_blank(cues[0].text);
    lemma_started_text_not_blank(cues[1].text);
    lemma_started_text_not_blank(cues[2].text);
    lemma_started_text_not_blank(cues[3].text);
}

/// Builds the test data for an engine and a file of the given name.
pub fn test_data(file_name: &str, engine_name: &str) -> (r: Vec<Subtitle>)
    ensures
        cues_view(r@) == test_data_cues(file_name@, engine_name@),
        all_well_formed(cues_view(r@)),
{
    proof {
        lemma_test_data_well_formed(file_name@, engine_name@);
    }
    let mut first = String::from_str("[测试数据] 使用");
    first.append(engine_name);
    first.append("引擎识别文件: ");
    first.append(file_name);
    let mut second = String::from_str("[测试数据] ");
    second.append(engine_name);
    second.append("引擎当前处于测试模式");
    let mut out: Vec<Subtitle> = Vec::new();
    out.push(make_cue("1", 0, 5000, first));
    out.push(make_cue("2", 5500, 10000, second));
    out.push(
        make_cue(
            "3",
            10500,
            15000,
            String::from_str("[测试数据] 请配置真实API密钥以获取真实识别结果"),
        ),
    );
    out.push(
        make_cue(
            "4",
            15500,
            20000,
            String::from_str("[测试数据] 这些是示例字幕，不是真实识别结果"),
        ),
    );
    assert(cues_view(out@) =~= test_data_cues(file_name@, engine_name@));
    out
}

/// Builds the test data for an engine and the audio file at `audio_path`,
/// which is named by its stem: by a piece of its path, or by the fixed
/// word.
pub fn generate_test_data_result(audio_path: &str, engine_name: &str) -> (r: Vec<Subtitle>)
    ensures
        exists|file_name: Seq<char>|
            #[trigger] may_name(file_name, audio_path@) && cues_view(r@) == test_data_cues(
                file_name,
                engine_name@,
            ),
        all_well_formed(cues_view(r@)),
{
    let name = display_name(audio_path);
    test_data(name.as_str(), engine_name)
}

/// Four cues that show what a result looks like.
pub open spec fn sample_cues() -> Seq<SubtitleView> {
    seq![
        cue("1"@, 0, 5000, "欢迎使用FlowText视频字幕生成工具"@),
        cue("2"@, 5500, 10000, "这是一个基于Tauri和Rust开发的应用"@),
        cue("3"@, 10500, 15000, "它可以帮助您快速生成视频字幕"@),
        cue("4"@, 15500, 20000, "支持多种语言和字幕格式"@),
    ]
}

/// The sample cues are cues as they should be: none ends before it
/// starts, and none has a blank text.
pub proof fn lemma_samples_well_formed()
    ensures
        all_well_formed(sample_cues()),
{
    reveal_strlit("欢迎使用FlowText视频字幕生成工具");
    reveal_strlit("这是一个基于Tauri和Rust开发的应用");
    reveal_strlit("它可以帮助您快速生成视频字幕");
    reveal_strlit("支持多种语言和字幕格式");
    let cues = sample_cues();
    assert(cues[0].text[0] == '欢');
    assert(cues[1].text[0] == '这');
    assert(cues[2].text[0] == '它');
    assert(cues[3].text[0] == '支');
    lemma_started_text_not_blank(cues[0].text);
    lemma_started_text_not_blank(cues[1].text);
    lemma_started_text_not_blank(cues[2].text);
    lemma_started_text_not_blank(cues[3].text);
}

/// Builds the sample cues. The path is not looked at.
pub fn simulate_recognition_result(_audio_path: &str) -> (r: Vec<Subtitle>)
    ensures
        cues_view(r@) == sample_cues(),
        all_well_formed(cues_view(r@)),
{
    proof {
        lemma_samples_well_formed();
    }
    let mut out: Vec<Subtitle> = Vec::new();
    out.push(make_cue("1", 0, 5000, String::from_str("欢迎使用FlowText视频字幕生成工具")));
    out.push(make_cue("2", 5500, 10000, String::from_str("这是一个基于Tauri和Rust开发的应用")));
    out.push(make_cue("3", 10500, 15000, String::from_str("它可以帮助您快速生成视频字幕")));
    out.push(make_cue("4", 15500, 20000, String::from_str("支持多种语言和字幕格式")));
    assert(cues_view(out@) =~= sample_cues());
    out
}

/// The quotient of `n` by `d`, rounded to one decimal place with halves
/// rounded up, as a numeral with a point.
pub open spec fn one_decimal_text(n: nat, d: nat) -> Seq<char> {
    let whole = n / d;
    let tenth = ((n % d) * 10 + d / 2) / d;
    if tenth >= 10 {
        decimal_digits(whole + 1) + "."@ + seq![decimal_digit_chars()[0]]
    } else {
        decimal_digits(whole) + "."@ + seq![decimal_digit_chars()[tenth as int]]
    }
}

/// Writes the quotient of `n` by `d` with one decimal place.
pub fn one_decimal(n: u64, d: u32) -> (r: String)
    requires
        d > 0,
    ensures
        r@ == one_decimal_text(n as nat, d as nat),
{
    let divisor: u64 = d as u64;
    let whole: u64 = n / divisor;
    let rest: u64 = n % divisor;
    let tenth: u64 = (rest * 10 + divisor / 2) / divisor;
    assert(tenth <= 10) by (nonlinear_arith)
        requires
            tenth as int == (rest as int * 10 + divisor as int / 2) / (divisor as int),
            rest < divisor,
            divisor > 0,
    ;
    assert(tenth >= 10 ==> whole < u64::MAX) by (nonlinear_arith)
        requires
            tenth as int == (rest as int * 10 + divisor as int / 2) / (divisor as int),
            rest < divisor,
            divisor > 0,
            whole as int == n as int / divisor as int,
            rest as int == n as int % divisor as int,
            n <= u64::MAX,
    ;
    let (shown, digit) = if tenth >= 10 {
        (whole + 1, 0u8)
    } else {
        (whole, tenth as u8)
    };
    let mut out = decimal(shown);
    out.append(".");
    out.push(digit_char(digit));
    out
}

/// The number of bytes in a megabyte.
pub const MEGABYTE: u32 = 1048576;

/// The number of bytes in a minute of audio: 16000 samples of two bytes
/// for each second.
pub const BYTES_PER_MINUTE: u32 = 1920000;

/// The start of the advice on audio that is too long for one request.
pub const ADVICE_START: &'static str = "音频文件太大 (";

/// The rest of the advice on audio that is too long for one request, up
/// to the name of the file.
pub const ADVICE_BODY: &'static str =
    " 分钟)，超过腾讯云SentenceRecognition API限制。\n\n💡 建议解决方案：\n\n1. 📏 使用更短的音频片段\n   • SentenceRecognition适合60秒以内的短音频\n   • 可以手动剪切音频或使用视频编辑软件\n\n2. 🔧 降低音频质量\n   • 重新提取音频时使用更低的采样率（如8kHz）\n   • 使用更低的比特率\n\n3. 🏠 使用Whisper本地识别\n   • 支持任意长度的音频文件\n   • 无需网络连接，隐私更好\n\n4. ☁️ 考虑其他腾讯云服务\n   • 录音文件识别（非极速版）支持更大文件\n   • 实时语音识别（适合流式处理）\n\n当前文件: ";

/// The end of the advice on audio that is too long for one request.
pub const ADVICE_END: &'static str = "\n建议：先尝试使用Whisper本地识别，或将音频分段处理。";

/// Advice on audio that is too long for one request: its size in
/// megabytes, its estimated length in minutes, what can be done, and the
/// file's path.
pub open spec fn processing_suggestions(audio_size: nat, audio_path: Seq<char>) -> Seq<char> {
    ADVICE_START@ + one_decimal_text(audio_size, MEGABYTE as nat) + " MB，约 "@ + one_decimal_text(
        audio_size,
        BYTES_PER_MINUTE as nat,
    ) + ADVICE_BODY@ + audio_path + ADVICE_END@
}

/// Writes the advice on audio that is too long for one request.
pub fn generate_audio_processing_suggestions(audio_size: usize, audio_path: &str) -> (r: String)
    ensures
        r@ == processing_suggestions(audio_size as nat, audio_path@),
{
    let size = one_decimal(audio_size as u64, MEGABYTE);
    let minutes = one_decimal(audio_size as u64, BYTES_PER_MINUTE);
    let mut out = String::from_str(ADVICE_START);
    out.append(size.as_str());
    out.append(" MB，约 ");
    out.append(minutes.as_str());
    out.append(ADVICE_BODY);
    out.append(audio_path);
    out.append(ADVICE_END);
    out
}

} // verus!
