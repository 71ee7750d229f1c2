use flowtext::json::Json;
use flowtext::recognition::{
    engine_from_name, get_supported_languages, validate_api_keys, Engine, UnsupportedEngine,
    ValidationError,
};

fn object(members: &[(&str, &str)]) -> Json {
    Json::Object(
        members.iter().map(|(k, v)| (k.to_string(), Json::Text(v.to_string()))).collect(),
    )
}

#[test]
fn whisper_catalog_lists_eight_languages() {
    let languages = get_supported_languages("whisper").unwrap();
    assert_eq!(languages.len(), 8);
    assert_eq!(languages[0].code, "zh");
    assert_eq!(languages[0].name, "中文");
    assert_eq!(languages[7].code, "ru");
    assert_eq!(languages[7].name, "俄语");
}

#[test]
fn cloud_catalogs_have_their_own_codes() {
    let tencent = get_supported_languages("tencent").unwrap();
    assert_eq!(tencent.len(), 4);
    assert_eq!(tencent[2].code, "ja");
    let baidu = get_supported_languages("baidu").unwrap();
    assert_eq!(baidu.len(), 4);
    assert_eq!(baidu[2].code, "jp");
    assert_eq!(baidu[3].code, "kor");
    let google = get_supported_languages("google").unwrap();
    assert_eq!(google.len(), 8);
    assert_eq!(google[0].code, "zh-CN");
    assert_eq!(google[0].name, "中文（简体）");
    assert_eq!(google[7].code, "de-DE");
    let aliyun = get_supported_languages("aliyun").unwrap();
    assert_eq!(aliyun.len(), 4);
    assert_eq!(aliyun[3].name, "韩语");
}

#[test]
fn unknown_engine_has_no_catalog() {
    assert_eq!(get_supported_languages("sphinx").err(), Some(UnsupportedEngine));
    assert_eq!(get_supported_languages("Whisper").err(), Some(UnsupportedEngine));
    assert_eq!(get_supported_languages("").err(), Some(UnsupportedEngine));
}

#[test]
fn engine_names_are_case_sensitive() {
    assert_eq!(engine_from_name("tencent"), Some(Engine::Tencent));
    assert_eq!(engine_from_name("Tencent"), None);
    assert_eq!(engine_from_name("google"), Some(Engine::Google));
}

#[test]
fn whisper_needs_no_credentials() {
    assert!(matches!(validate_api_keys("whisper", &Json::Null), Ok(true)));
}

#[test]
fn complete_credentials_are_accepted() {
    let keys = object(&[("secretId", "id"), ("secretKey", "key")]);
    assert!(matches!(validate_api_keys("tencent", &keys), Ok(true)));
    let keys = object(&[("api_key", "k"), ("secret_key", "s")]);
    assert!(matches!(validate_api_keys("baidu", &keys), Ok(true)));
    let keys = object(&[("api_key", "k")]);
    assert!(matches!(validate_api_keys("google", &keys), Ok(true)));
    let keys = object(&[("accessKeyId", "a"), ("accessKeySecret", "b")]);
    assert!(matches!(validate_api_keys("aliyun", &keys), Ok(true)));
}

#[test]
fn missing_credentials_are_named() {
    let keys = object(&[("secretId", "id")]);
    match validate_api_keys("tencent", &keys) {
        Err(ValidationError::MissingFields(names)) => assert_eq!(names, vec!["secretKey"]),
        other => panic!("unexpected: {:?}", other),
    }
    match validate_api_keys("baidu", &Json::Null) {
        Err(ValidationError::MissingFields(names)) => {
            assert_eq!(names, vec!["api_key", "secret_key"])
        }
        other => panic!("unexpected: {:?}", other),
    }
}

#[test]
fn credentials_for_an_unknown_engine_are_refused() {
    let keys = object(&[("api_key", "k")]);
    assert!(matches!(
        validate_api_keys("sphinx", &keys),
        Err(ValidationError::UnsupportedEngine)
    ));
}
