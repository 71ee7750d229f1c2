//! The local recognition program: how it is called, and what its outcome
//! means.

use vstd::prelude::*;
use vstd::string::*;
use crate::job::{reply_well_formed, FailureKind, Reply, ReplyView};
use crate::srt::{parse_srt_content, srt_cues};
use crate::text::{chars_of, find, find_from, same_text, strings_view};

verus! {

/// The language that the program is told to expect: Chinese for the
/// Chinese codes and for none, English, Japanese and Korean for theirs,
/// and Chinese for any other code.
pub open spec fn tool_language(language: Seq<char>) -> Seq<char> {
    if language == "en"@ || language == "en-US"@ {
        "en"@
    } else if language == "ja"@ || language == "ja-JP"@ {
        "ja"@
    } else if language == "ko"@ || language == "ko-KR"@ {
        "ko"@
    } else {
        "zh"@
    }
}

/// Whether the program is given a prompt in simplified Chinese: for the
/// Chinese codes and for no code.
pub open spec fn wants_prompt(language: Seq<char>) -> bool {
    language == "zh"@ || language == "zh-CN"@ || language.len() == 0
}

/// The prompt that asks for simplified Chinese.
pub const CHINESE_PROMPT: &'static str = "以下是简体中文语音：";

/// The arguments with which the program is called: the audio file, the
/// base model, output in the block format into the given directory, no
/// progress output, transcription, the language, and the prompt where one
/// is wanted.
pub open spec fn tool_arguments(audio_path: Seq<char>, output_dir: Seq<char>, language: Seq<char>) -> Seq<
    Seq<char>,
> {
    let fixed = seq![
        audio_path,
        "--model"@,
        "base"@,
        "--output_format"@,
        "srt"@,
        "--output_dir"@,
        output_dir,
        "--verbose"@,
        "False"@,
        "--task"@,
        "transcribe"@,
        "--language"@,
        tool_language(language),
    ];
    if wants_prompt(language) {
        fixed + seq!["--initial_prompt"@, CHINESE_PROMPT@]
    } else {
        fixed
    }
}

/// Chooses the language that the program is told to expect.
pub fn language_argument(language: &str) -> (r: String)
    ensures
        r@ == tool_language(language@),
{
    if same_text(language, "en") || same_text(language, "en-US") {
        String::from_str("en")
    } else if same_text(language, "ja") || same_text(language, "ja-JP") {
        String::from_str("ja")
    } else if same_text(language, "ko") || same_text(language, "ko-KR") {
        String::from_str("ko")
    } else {
        String::from_str("zh")
    }
}

/// Builds the arguments with which the program is called.
pub fn build_tool_arguments(audio_path: &str, output_dir: &str, language: &str) -> (r: Vec<String>)
    ensures
        strings_view(r@) == tool_arguments(audio_path@, output_dir@, language@),
{
    let mut out: Vec<String> = Vec::new();
    out.push(String::from_str(audio_path));
    out.push(String::from_str("--model"));
    out.push(String::from_str("base"));
    out.push(String::from_str("--output_format"));
    out.push(String::from_str("srt"));
    out.push(String::from_str("--output_dir"));
    out.push(String::from_str(output_dir));
    out.push(String::from_str("--verbose"));
    out.push(String::from_str("False"));
    out.push(String::from_str("--task"));
    out.push(String::from_str("transcribe"));
    out.push(String::from_str("--language"));
    out.push(language_argument(language));
    let prompt = same_text(language, "zh") || same_text(language, "zh-CN") || language.is_empty();
    if prompt {
        out.push(String::from_str("--initial_prompt"));
        out.push(String::from_str(CHINESE_PROMPT));
    }
    assert(strings_view(out@) =~= tool_arguments(audio_path@, output_dir@, language@));
    out
}

/// The start of the script of the scripted fallback, up to the path of
/// the audio file.
pub const SCRIPT_START: &'static str =
    "\nimport whisper\nimport sys\n\ntry:\n    import opencc\n    converter = opencc.OpenCC('t2s')  # 繁体转简体\nexcept ImportError:\n    print(\"Warning: opencc not available, skipping traditional to simplified conversion\", file=sys.stderr)\n    converter = None\n\ntry:\n    model = whisper.load_model(\"base\")\n    # 强制使用中文识别，并指定简体中文提示\n    result = model.transcribe(\"";

/// The rest of the script of the scripted fallback, which prints the
/// segments in the block format.
pub const SCRIPT_END: &'static str =
    "\", language=\"zh\", initial_prompt=\"以下是简体中文语音：\")\n    \n    # 输出SRT格式\n    for i, segment in enumerate(result['segments']):\n        start = segment['start']\n        end = segment['end']\n        text = segment['text'].strip()\n        \n        # 转换为简体中文\n        if converter and text:\n            try:\n                text = converter.convert(text)\n            except:\n                pass  # 如果转换失败，保持原文\n        \n        start_time = f\"{:02d}:{:02d}:{:06.3f}\".format(\n            int(start // 3600),\n            int((start % 3600) // 60),\n            start % 60\n        )\n        end_time = f\"{:02d}:{:02d}:{:06.3f}\".format(\n            int(end // 3600),\n            int((end % 3600) // 60),\n            end % 60\n        )\n        \n        print(f\"{i+1}\")\n        print(f\"{start_time} --> {end_time}\")\n        print(text)\n        print()\nexcept Exception as e:\n    print(f\"Error: {e}\", file=sys.stderr)\n    sys.exit(1)\n";

/// Writes the script of the scripted fallback for an audio file.
pub fn fallback_script(audio_path: &str) -> (r: String)
    ensures
        r@ == SCRIPT_START@ + audio_path@ + SCRIPT_END@,
{
    let mut out = String::from_str(SCRIPT_START);
    out.append(audio_path);
    out.append(SCRIPT_END);
    out
}

/// Whether `part` occurs in `s`. The empty text occurs in every text.
pub open spec fn contains_text(s: Seq<char>, part: Seq<char>) -> bool {
    part.len() == 0 || find_from(s, part, 0) >= 0
}

/// Whether a diagnostic says that the program is not installed: it names
/// the program as not found, or a module as not found.
pub open spec fn says_missing(message: Seq<char>) -> bool {
    contains_text(message, "未找到whisper"@) || contains_text(message, "ModuleNotFoundError"@)
}

/// Whether `part` occurs in `s`.
pub fn text_contains(s: &str, part: &str) -> (r: bool)
    ensures
        r == contains_text(s@, part@),
{
    let hay = chars_of(s);
    let needle = chars_of(part);
    if needle.len() == 0 {
        true
    } else {
        find(&hay, &needle, 0).is_some()
    }
}

/// The diagnostic of a program that is not installed.
pub const NOT_FOUND: &'static str = "未找到whisper。请安装: pip install openai-whisper";

/// The label of every failure of the local recognition.
pub const FAILED: &'static str = "Whisper识别失败: ";

/// The failure that a diagnostic of the local recognition stands for: the
/// program is missing where the diagnostic says so, else a failure that
/// will not pass. The diagnostic is labelled.
pub open spec fn tool_failure(message: Seq<char>) -> ReplyView {
    ReplyView::Failed {
        kind: if says_missing(message) {
            FailureKind::ToolMissing
        } else {
            FailureKind::Other
        },
        message: FAILED@ + message,
    }
}

/// Turns a diagnostic of the local recognition into a failure.
pub fn classify_failure(message: &str) -> (r: Reply)
    ensures
        r@ == tool_failure(message@),
{
    let missing = text_contains(message, "未找到whisper") || text_contains(
        message,
        "ModuleNotFoundError",
    );
    let mut labelled = String::from_str(FAILED);
    labelled.append(message);
    Reply::Failed {
        kind: if missing {
            FailureKind::ToolMissing
        } else {
            FailureKind::Other
        },
        message: labelled,
    }
}

/// How a run of the program, or of the scripted fallback, ended.
#[derive(Debug, Clone)]
pub enum ToolRun {
    /// The program could not be started.
    NotStarted { detail: String },
    /// The program ended with an error, and wrote this to its error
    /// stream.
    Failed { diagnostics: String },
    /// The program ended well, and left no transcript.
    NoTranscript,
    /// The program ended well, and the transcript could not be read.
    Unreadable { detail: String },
    /// The program ended well, and this is its transcript.
    Transcript { content: String },
}

/// The contents of a [`ToolRun`].
pub enum ToolRunView {
    NotStarted { detail: Seq<char> },
    Failed { diagnostics: Seq<char> },
    NoTranscript,
    Unreadable { detail: Seq<char> },
    Transcript { content: Seq<char> },
}

impl View for ToolRun {
    type V = ToolRunView;

    open spec fn view(&self) -> ToolRunView {
        match self {
            ToolRun::NotStarted { detail } => ToolRunView::NotStarted { detail: detail@ },
            ToolRun::Failed { diagnostics } => ToolRunView::Failed { diagnostics: diagnostics@ },
            ToolRun::NoTranscript => ToolRunView::NoTranscript,
            ToolRun::Unreadable { detail } => ToolRunView::Unreadable { detail: detail@ },
            ToolRun::Transcript { content } => ToolRunView::Transcript { content: content@ },
        }
    }
}

/// The diagnostic of a run that did not give a transcript. `scripted`
/// says whether the scripted fallback ran.
pub open spec fn run_diagnostic(run: ToolRunView, scripted: bool) -> Seq<char> {
    match run {
        ToolRunView::NotStarted { detail } => (if scripted {
            "执行Python脚本失败: "@
        } else {
            "执行whisper命令失败: "@
        }) + detail,
        ToolRunView::Failed { diagnostics } => (if scripted {
            "Python Whisper执行失败: "@
        } else {
            "Whisper执行失败: "@
        }) + diagnostics,
        ToolRunView::NoTranscript => "Whisper未生成SRT文件"@,
        ToolRunView::Unreadable { detail } => "读取SRT文件失败: "@ + detail,
        ToolRunView::Transcript { content } => Seq::empty(),
    }
}

/// What a run means: the cues of its transcript, or a failure with its
/// diagnostic.
pub open spec fn run_reply(run: ToolRunView, scripted: bool) -> ReplyView {
    match run {
        ToolRunView::Transcript { content } => match srt_cues(content) {
            Ok(cues) => ReplyView::Cues(cues),
            Err(e) => tool_failure(e),
        },
        _ => tool_failure(run_diagnostic(run, scripted)),
    }
}

fn describe(label: &str, detail: &str) -> (r: String)
    ensures
        r@ == label@ + detail@,
{
    let mut out = String::from_str(label);
    out.append(detail);
    out
}

/// Reads what a run of the program, or of the scripted fallback, means.
pub fn read_tool_run(run: &ToolRun, scripted: bool) -> (r: Reply)
    ensures
        r@ == run_reply(run@, scripted),
        reply_well_formed(r@),
{
    let message = match run {
        ToolRun::Transcript { content } => {
            return match parse_srt_content(content.as_str()) {
                Ok(cues) => Reply::Cues(cues),
                Err(e) => classify_failure(e.as_str()),
            };
        },
        ToolRun::NotStarted { detail } => if scripted {
            describe("执行Python脚本失败: ", detail.as_str())
        } else {
            describe("执行whisper命令失败: ", detail.as_str())
        },
        ToolRun::Failed { diagnostics } => if scripted {
            describe("Python Whisper执行失败: ", diagnostics.as_str())
        } else {
            describe("Whisper执行失败: ", diagnostics.as_str())
        },
        ToolRun::NoTranscript => String::from_str("Whisper未生成SRT文件"),
        ToolRun::Unreadable { detail } => describe("读取SRT文件失败: ", detail.as_str()),
    };
    classify_failure(message.as_str())
}

} // verus!
