//! The recognition engines: their names, the languages that each accepts,
//! and the credentials that each needs.

use vstd::prelude::*;
use vstd::string::*;
use crate::json::{member_text_or, text_or, Json, JsonView};
use crate::text::{same_text, strings_view};

verus! {

/// The recognition backends that can be selected.
#[derive(Debug, Clone, Copy, PartialEq, Eq, Structural)]
pub enum Engine {
    Whisper,
    Tencent,
    Aliyun,
    Baidu,
    Google,
}

/// The engine that a name selects, if any. Names are case sensitive.
pub open spec fn engine_of(name: Seq<char>) -> Option<Engine> {
    if name == "whisper"@ {
        Some(Engine::Whisper)
    } else if name == "tencent"@ {
        Some(Engine::Tencent)
    } else if name == "aliyun"@ {
        Some(Engine::Aliyun)
    } else if name == "baidu"@ {
        Some(Engine::Baidu)
    } else if name == "google"@ {
        Some(Engine::Google)
    } else {
        None
    }
}

/// Looks an engine up by its name.
pub fn engine_from_name(name: &str) -> (r: Option<Engine>)
    ensures
        r == engine_of(name@),
{
    if same_text(name, "whisper") {
        Some(Engine::Whisper)
    } else if same_text(name, "tencent") {
        Some(Engine::Tencent)
    } else if same_text(name, "aliyun") {
        Some(Engine::Aliyun)
    } else if same_text(name, "baidu") {
        Some(Engine::Baidu)
    } else if same_text(name, "google") {
        Some(Engine::Google)
    } else {
        None
    }
}

/// A language that an engine accepts: the code handed to the engine and
/// the name shown to the user.
#[derive(Debug, Clone)]
pub struct Language {
    pub code: String,
    pub name: String,
}

impl View for Language {
    type V = (Seq<char>, Seq<char>);

    open spec fn view(&self) -> (Seq<char>, Seq<char>) {
        (self.code@, self.name@)
    }
}

/// The request named an engine that does not exist.
#[derive(Debug, Clone, Copy, PartialEq, Eq, Structural)]
pub struct UnsupportedEngine;

/// The pairs of code and display name of a list of languages.
pub open spec fn languages_view(languages: Seq<Language>) -> Seq<(Seq<char>, Seq<char>)> {
    languages.map_values(|l: Language| l@)
}

/// The fixed catalog of each engine, as pairs of code and display name.
pub open spec fn catalog(engine: Engine) -> Seq<(Seq<char>, Seq<char>)> {
    match engine {
        Engine::Whisper => seq![
            ("zh"@, "中文"@),
            ("en"@, "英语"@),
            ("ja"@, "日语"@),
            ("ko"@, "韩语"@),
            ("fr"@, "法语"@),
            ("de"@, "德语"@),
            ("es"@, "西班牙语"@),
            ("ru"@, "俄语"@),
        ],
        Engine::Tencent | Engine::Aliyun => seq![
            ("zh"@, "中文"@),
            ("en"@, "英语"@),
            ("ja"@, "日语"@),
            ("ko"@, "韩语"@),
        ],
        Engine::Baidu => seq![
            ("zh"@, "中文"@),
            ("en"@, "英语"@),
            ("jp"@, "日语"@),
            ("kor"@, "韩语"@),
        ],
        Engine::Google => seq![
            ("zh-CN"@, "中文（简体）"@),
            ("zh-TW"@, "中文（繁体）"@),
            ("en-US"@, "英语（美国）"@),
            ("en-GB"@, "英语（英国）"@),
            ("ja-JP"@, "日语"@),
            ("ko-KR"@, "韩语"@),
            ("fr-FR"@, "法语"@),
            ("de-DE"@, "德语"@),
        ],
    }
}

fn language(code: &str, name: &str) -> (r: Language)
    ensures
        r@ == (code@, name@),
{
    Language { code: code.to_owned(), name: name.to_owned() }
}

/// The catalog of an engine as a list of [`Language`] values.
pub fn engine_languages(engine: Engine) -> (r: Vec<Language>)
    ensures
        languages_view(r@) == catalog(engine),
{
    let mut out: Vec<Language> = Vec::new();
    match engine {
        Engine::Whisper => {
            out.push(language("zh", "中文"));
            out.push(language("en", "英语"));
            out.push(language("ja", "日语"));
            out.push(language("ko", "韩语"));
            out.push(language("fr", "法语"));
            out.push(language("de", "德语"));
            out.push(language("es", "西班牙语"));
            out.push(language("ru", "俄语"));
        },
        Engine::Tencent | Engine::Aliyun => {
            out.push(language("zh", "中文"));
            out.push(language("en", "英语"));
            out.push(language("ja", "日语"));
            out.push(language("ko", "韩语"));
        },
        Engine::Baidu => {
            out.push(language("zh", "中文"));
            out.push(language("en", "英语"));
            out.push(language("jp", "日语"));
            out.push(language("kor", "韩语"));
        },
        Engine::Google => {
            out.push(language("zh-CN", "中文（简体）"));
            out.push(language("zh-TW", "中文（繁体）"));
            out.push(language("en-US", "英语（美国）"));
            out.push(language("en-GB", "英语（英国）"));
            out.push(language("ja-JP", "日语"));
            out.push(language("ko-KR", "韩语"));
            out.push(language("fr-FR", "法语"));
            out.push(language("de-DE", "德语"));
        },
    }
    assert(languages_view(out@) =~= catalog(engine));
    out
}

/// The languages that the named engine accepts. An unknown name is
/// refused.
pub fn get_supported_languages(engine: &str) -> (r: Result<Vec<Language>, UnsupportedEngine>)
    ensures
        match engine_of(engine@) {
            Some(e) => r is Ok && languages_view(r->Ok_0@) == catalog(e),
            None => r is Err,
        },
{
    match engine_from_name(engine) {
        Some(e) => Ok(engine_languages(e)),
        None => Err(UnsupportedEngine),
    }
}

/// The names of the credentials that an engine needs.
pub open spec fn required_fields(engine: Engine) -> Seq<Seq<char>> {
    match engine {
        Engine::Whisper => Seq::empty(),
        Engine::Tencent => seq!["secretId"@, "secretKey"@],
        Engine::Aliyun => seq!["accessKeyId"@, "accessKeySecret"@],
        Engine::Baidu => seq!["api_key"@, "secret_key"@],
        Engine::Google => seq!["api_key"@],
    }
}

/// Those of the first `n` names that `keys` has no member for.
pub open spec fn missing_fields(keys: JsonView, names: Seq<Seq<char>>, n: nat) -> Seq<Seq<char>>
    decreases n,
{
    if n == 0 || n > names.len() {
        Seq::empty()
    } else {
        let before = missing_fields(keys, names, (n - 1) as nat);
        if keys.member(names[n - 1]) is Some {
            before
        } else {
            before.push(names[n - 1])
        }
    }
}

/// Why credentials are refused.
#[derive(Debug, Clone)]
pub enum ValidationError {
    /// There is no engine of this name.
    UnsupportedEngine,
    /// These credentials are missing.
    MissingFields(Vec<String>),
}

/// What the check of credentials gives: that they are complete, or why
/// they are refused, with the names that are missing.
pub open spec fn validation(engine: Seq<char>, keys: JsonView) -> Result<
    bool,
    Option<Seq<Seq<char>>>,
> {
    match engine_of(engine) {
        None => Err(None),
        Some(e) => {
            let missing = missing_fields(keys, required_fields(e), required_fields(e).len());
            if missing.len() == 0 {
                Ok(true)
            } else {
                Err(Some(missing))
            }
        },
    }
}

/// The result of a check of credentials, by contents.
pub open spec fn validation_view(r: Result<bool, ValidationError>) -> Result<
    bool,
    Option<Seq<Seq<char>>>,
> {
    match r {
        Ok(b) => Ok(b),
        Err(ValidationError::UnsupportedEngine) => Err(None),
        Err(ValidationError::MissingFields(names)) => Err(
            Some(strings_view(names@)),
        ),
    }
}

/// The names of the credentials that an engine needs.
pub fn engine_fields(engine: Engine) -> (r: Vec<String>)
    ensures
        strings_view(r@) == required_fields(engine),
{
    let mut out: Vec<String> = Vec::new();
    match engine {
        Engine::Whisper => {},
        Engine::Tencent => {
            out.push(String::from_str("secretId"));
            out.push(String::from_str("secretKey"));
        },
        Engine::Aliyun => {
            out.push(String::from_str("accessKeyId"));
            out.push(String::from_str("accessKeySecret"));
        },
        Engine::Baidu => {
            out.push(String::from_str("api_key"));
            out.push(String::from_str("secret_key"));
        },
        Engine::Google => {
            out.push(String::from_str("api_key"));
        },
    }
    assert(strings_view(out@) =~= required_fields(engine));
    out
}

/// Checks that the credentials of an engine are all there. Only their
/// presence is looked at; no service is asked whether they are good.
pub fn validate_api_keys(engine: &str, api_keys: &Json) -> (r: Result<bool, ValidationError>)
    ensures
        validation_view(r) == validation(engine@, api_keys@),
{
    let chosen = match engine_from_name(engine) {
        Some(e) => e,
        None => {
            return Err(ValidationError::UnsupportedEngine);
        },
    };
    let names = engine_fields(chosen);
    let mut missing: Vec<String> = Vec::new();
    let mut i: usize = 0;
    assert(strings_view(missing@) =~= Seq::empty());
    while i < names.len()
        invariant
            i <= names.len(),
            strings_view(names@) == required_fields(chosen),
            strings_view(missing@) == missing_fields(
                api_keys@,
                required_fields(chosen),
                i as nat,
            ),
        decreases names.len() - i,
    {
        assert(strings_view(names@)[i as int] == names@[i as int]@);
        if api_keys.get(names[i].as_str()).is_none() {
            let name = names[i].clone();
            let ghost before = missing@;
            missing.push(name);
            assert(strings_view(missing@) =~= strings_view(before).push(
                name@,
            ));
        }
        i += 1;
    }
    if missing.len() == 0 {
        Ok(true)
    } else {
        Err(ValidationError::MissingFields(missing))
    }
}

/// Whether `keys` holds each of the first `n` names as a text that is not
/// empty.
pub open spec fn filled(keys: JsonView, names: Seq<Seq<char>>, n: nat) -> bool
    decreases n,
{
    if n == 0 || n > names.len() {
        true
    } else {
        filled(keys, names, (n - 1) as nat) && text_or(keys.member(names[n - 1]), Seq::empty()).len()
            > 0
    }
}

/// Whether an engine can work with the credentials that were given: each
/// that it needs is there as a text that is not empty.
pub open spec fn usable_credentials(engine: Option<Engine>, keys: Option<JsonView>) -> bool {
    match engine {
        None => false,
        Some(e) => required_fields(e).len() == 0 || match keys {
            Some(k) => filled(k, required_fields(e), required_fields(e).len()),
            None => false,
        },
    }
}

/// Where one name is not filled, the names up to any later one are not
/// all filled.
pub proof fn lemma_not_filled(keys: JsonView, names: Seq<Seq<char>>, i: nat, n: nat)
    requires
        i < n <= names.len(),
        !filled(keys, names, i + 1),
    ensures
        !filled(keys, names, n),
    decreases n,
{
    if n > i + 1 {
        lemma_not_filled(keys, names, i, (n - 1) as nat);
    }
}

/// Whether an engine can work with the credentials that were given.
pub fn has_usable_credentials(engine: Option<Engine>, api_keys: Option<&Json>) -> (r: bool)
    ensures
        r == usable_credentials(
            engine,
            match api_keys {
                Some(k) => Some(k@),
                None => None,
            },
        ),
{
    let chosen = match engine {
        Some(e) => e,
        None => {
            return false;
        },
    };
    let names = engine_fields(chosen);
    if names.len() == 0 {
        return true;
    }
    let keys = match api_keys {
        Some(k) => k,
        None => {
            return false;
        },
    };
    let mut i: usize = 0;
    while i < names.len()
        invariant
            i <= names.len(),
            names.len() > 0,
            engine == Some(chosen),
            api_keys == Some(keys),
            strings_view(names@) == required_fields(chosen),
            filled(keys@, required_fields(chosen), i as nat),
        decreases names.len() - i,
    {
        assert(strings_view(names@)[i as int] == names@[i as int]@);
        let value = member_text_or(keys, names[i].as_str(), "");
        proof {
            reveal_strlit("");
            assert(""@ =~= Seq::<char>::empty());
        }
        if value.as_str().is_empty() {
            proof {
                lemma_not_filled(
                    keys@,
                    required_fields(chosen),
                    i as nat,
                    required_fields(chosen).len(),
                );
            }
            return false;
        }
        i += 1;
    }
    true
}

} // verus!
