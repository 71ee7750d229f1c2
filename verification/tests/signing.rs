use flowtext::cos::{credential_text, storage_config, CosClient, CosConfig};
use flowtext::json::{parse_document, whole_number, write_object, write_text_object, Json};
use flowtext::text::{pair_precedes, sort_string_pairs};
use flowtext::digest::{hmac_sha1_hex, hmac_sha256_hex, sha1_hash, sha256_hex};
use flowtext::tencent::{
    build_create_task_payload, build_object_text, build_task_status_payload,
    build_tencent_authorization, create_task_request, derive_signing_key, find_parameter,
    generate_tencent_signature_v3, sign_request, task_status_request,
};
use hmac::{Hmac, Mac};
use sha1::Sha1;
use sha2::{Digest, Sha256};

fn hmac256(key: &[u8], data: &[u8]) -> Vec<u8> {
    let mut mac = Hmac::<Sha256>::new_from_slice(key).unwrap();
    mac.update(data);
    mac.finalize().into_bytes().to_vec()
}

fn hmac1(key: &[u8], data: &[u8]) -> Vec<u8> {
    let mut mac = Hmac::<Sha1>::new_from_slice(key).unwrap();
    mac.update(data);
    mac.finalize().into_bytes().to_vec()
}

fn sha256(data: &[u8]) -> String {
    hex::encode(Sha256::digest(data))
}

fn client() -> CosClient {
    CosClient::new(CosConfig {
        secret_id: "AKIDexample".to_string(),
        secret_key: "secretexample".to_string(),
        bucket: "audio-1250000000".to_string(),
        region: "ap-beijing".to_string(),
        domain: None,
    })
}

fn headers(pairs: &[(&str, &str)]) -> Vec<(String, String)> {
    pairs.iter().map(|(k, v)| (k.to_string(), v.to_string())).collect()
}

#[test]
fn digests_match_the_published_vectors() {
    assert_eq!(sha256_hex(""), "e3b0c44298fc1c149afbf4c8996fb92427ae41e4649b934ca495991b7852b855");
    assert_eq!(sha256_hex("abc"), "ba7816bf8f01cfea414140de5dae2223b00361a396177a9cb410ff61f20015ad");
    assert_eq!(sha1_hash("abc"), "a9993e364706816aba3e25717850c26c9cd0d89d");
    assert_eq!(sha1_hash(""), "da39a3ee5e6b4b0d3255bfef95601890afd80709");
}

#[test]
fn authentication_codes_match_the_published_vectors() {
    let text = "The quick brown fox jumps over the lazy dog";
    assert_eq!(
        hmac_sha256_hex(b"key", text),
        "f7bc83f430538424b13298e6aa6fb143ef4d59a14946175997479dbc2d1a3cd8"
    );
    assert_eq!(hmac_sha1_hex(b"key", text), "de7c9b85b8b78aa6bc8a7a36f70a90701c9db4d9");
    assert_eq!(
        hmac_sha256_hex(b"", ""),
        "b613679a0814d9ec772f95d778c35fc5ff1697c493715653c6c712144292c5ad"
    );
}

#[test]
fn the_signing_key_is_chained_through_date_and_service() {
    let date = hmac256(b"TC3secret", b"2019-02-25");
    let service = hmac256(&date, b"cvm");
    let signing = hmac256(&service, b"tc3_request");
    assert_eq!(derive_signing_key("secret", "2019-02-25", "cvm"), signing);
}

#[test]
fn the_cloud_authorization_follows_the_scheme_step_by_step() {
    let payload = r#"{"TaskId":42}"#;
    let canonical = format!(
        "POST\n/\n\ncontent-type:application/json; charset=utf-8\nhost:{}\n\ncontent-type;host\n{}",
        "asr.tencentcloudapi.com",
        sha256(payload.as_bytes())
    );
    let scope = "2019-02-25/asr/tc3_request";
    let to_sign = format!("TC3-HMAC-SHA256\n1551113065\n{}\n{}", scope, sha256(canonical.as_bytes()));
    let key = derive_signing_key("Gu5t9xGARNpq86cd98joQYCN3EXAMPLE", "2019-02-25", "asr");
    let signature = hex::encode(hmac256(&key, to_sign.as_bytes()));
    let expected = format!(
        "TC3-HMAC-SHA256 Credential=AKIDEXAMPLE/{}, SignedHeaders=content-type;host, Signature={}",
        scope, signature
    );
    let got = build_tencent_authorization(
        "AKIDEXAMPLE",
        "Gu5t9xGARNpq86cd98joQYCN3EXAMPLE",
        payload,
        "asr.tencentcloudapi.com",
        "DescribeTaskStatus",
        "2019-02-25",
        1551113065,
        "asr",
        "TC3-HMAC-SHA256",
    );
    assert_eq!(got, Ok(expected));
}

#[test]
fn the_cloud_authorization_is_pinned() {
    let got = build_tencent_authorization(
        "AKIDEXAMPLE",
        "Gu5t9xGARNpq86cd98joQYCN3EXAMPLE",
        r#"{"TaskId":42}"#,
        "asr.tencentcloudapi.com",
        "DescribeTaskStatus",
        "2019-02-25",
        1551113065,
        "asr",
        "TC3-HMAC-SHA256",
    )
    .unwrap();
    assert_eq!(got, "TC3-HMAC-SHA256 Credential=AKIDEXAMPLE/2019-02-25/asr/tc3_request, SignedHeaders=content-type;host, Signature=5e56de3d527e1d579141bf7fb8355e197284d3f2f56bbbd8da306caef8bc31fa");
}

#[test]
fn the_same_inputs_give_the_same_signature() {
    let sign = || {
        build_tencent_authorization("id", "key", "{}", "h", "A", "2024-01-01", 1704067200, "asr", "TC3-HMAC-SHA256")
    };
    assert_eq!(sign(), sign());
    let other = build_tencent_authorization("id", "key", "{ }", "h", "A", "2024-01-01", 1704067200, "asr", "TC3-HMAC-SHA256");
    assert_ne!(sign(), other);
    let c = client();
    let h = headers(&[("Host", "x"), ("Date", "d")]);
    assert_eq!(c.generate_authorization("PUT", "k", &h, 5), c.generate_authorization("PUT", "k", &h, 5));
    assert_ne!(c.generate_authorization("PUT", "k", &h, 5), c.generate_authorization("PUT", "k", &h, 6));
}

#[test]
fn a_signed_request_carries_the_headers_of_its_moment() {
    let request = sign_request("id", "key", "CreateRecTask", "{}".to_string(), 1551113065).unwrap();
    assert_eq!(request.url, "https://asr.tencentcloudapi.com");
    assert_eq!(request.host, "asr.tencentcloudapi.com");
    assert_eq!(request.action, "CreateRecTask");
    assert_eq!(request.timestamp, "1551113065");
    assert_eq!(request.version, "2019-06-14");
    assert_eq!(request.region, "ap-beijing");
    assert_eq!(request.body, "{}");
    let expected = build_tencent_authorization("id", "key", "{}", "asr.tencentcloudapi.com", "CreateRecTask", "2019-02-25", 1551113065, "asr", "TC3-HMAC-SHA256").unwrap();
    assert_eq!(request.authorization, expected);
    assert_eq!(sign_request("id", "key", "A", "{}".to_string(), i64::MAX).err(), Some("无效的时间戳".to_string()));
}

#[test]
fn request_bodies_are_compact_json_in_the_order_of_the_names() {
    assert_eq!(
        build_create_task_payload(b"hello").unwrap(),
        r#"{"ChannelNum":1,"ConvertNumMode":1,"Data":"aGVsbG8=","DataLen":5,"EngineModelType":"16k_zh","FilterDirty":0,"FilterModal":0,"FilterPunc":0,"OutputFileType":"txt","ResTextFormat":0,"SourceType":1,"SpeakerDiarization":0,"SpeakerNumber":0,"WordInfo":1}"#
    );
    let value: serde_json::Value = serde_json::from_str(&build_create_task_payload(&[0u8, 255, 16]).unwrap()).unwrap();
    assert_eq!(value["Data"], "AP8Q");
    assert_eq!(value["DataLen"], 3);
    assert_eq!(build_task_status_payload(0), r#"{"TaskId":0}"#);
    assert_eq!(build_task_status_payload(u64::MAX), r#"{"TaskId":18446744073709551615}"#);
    let request = create_task_request("id", "key", b"hello", 1551113065).unwrap();
    assert_eq!(request.body, build_create_task_payload(b"hello").unwrap());
    assert_eq!(request.action, "CreateRecTask");
    let request = task_status_request("id", "key", 77, 1551113065).unwrap();
    assert_eq!(request.body, r#"{"TaskId":77}"#);
    assert_eq!(request.action, "DescribeTaskStatus");
}

#[test]
fn parameters_are_written_as_an_object_of_strings() {
    let params = headers(&[("Action", "CreateRecTask"), ("Url", "https://a/b?c=\"d\"\n"), ("名字", "值")]);
    let text = build_object_text(&params);
    assert_eq!(text, "{\"Action\":\"CreateRecTask\",\"Url\":\"https://a/b?c=\\\"d\\\"\\n\",\"名字\":\"值\"}");
    let value: serde_json::Value = serde_json::from_str(&text).unwrap();
    assert_eq!(value["Url"], "https://a/b?c=\"d\"\n");
    assert_eq!(build_object_text(&vec![]), "{}");
    assert_eq!(find_parameter(&params, "Action"), "CreateRecTask");
    assert_eq!(find_parameter(&params, "action"), "");
}

#[test]
fn the_parameter_signature_follows_the_scheme_step_by_step() {
    let params = headers(&[("Action", "DescribeTaskStatus"), ("Version", "2018-05-22"), ("Region", "ap-beijing"), ("TaskId", "123")]);
    let payload = build_object_text(&params);
    let canonical = format!(
        "POST\n/\n\ncontent-type:application/json; charset=utf-8\nhost:asr.tencentcloudapi.com\nx-tc-action:DescribeTaskStatus\nx-tc-timestamp:1551113065\nx-tc-version:2018-05-22\n\ncontent-type;host;x-tc-action;x-tc-timestamp;x-tc-version\n{}",
        sha256(payload.as_bytes())
    );
    let to_sign = format!("TC3-HMAC-SHA256\n1551113065\n2019-02-25/asr/tc3_request\n{}", sha256(canonical.as_bytes()));
    let key = derive_signing_key("key", "2019-02-25", "asr");
    let expected = format!(
        "TC3-HMAC-SHA256 Credential=id/2019-02-25/asr/tc3_request, SignedHeaders=content-type;host;x-tc-action;x-tc-timestamp;x-tc-version, Signature={}",
        hex::encode(hmac256(&key, to_sign.as_bytes()))
    );
    assert_eq!(generate_tencent_signature_v3("id", "key", "asr", "ap-beijing", &params, 1551113065), Ok(expected));
    assert_eq!(
        generate_tencent_signature_v3("id", "key", "asr", "ap-beijing", &params, i64::MAX as u64),
        Err("无效的时间戳".to_string())
    );
}

#[test]
fn unreserved_characters_stand_for_themselves() {
    let c = client();
    assert_eq!(c.url_encode("AZaz09-_.~"), "AZaz09-_.~");
    assert_eq!(c.url_encode("a b/c:d"), "a%20b%2Fc%3Ad");
    assert_eq!(c.url_encode("Mon, 01 Jan 2024 00:00:00 GMT"), "Mon%2C%2001%20Jan%202024%2000%3A00%3A00%20GMT");
    assert_eq!(c.url_encode("audio/wav"), "audio%2Fwav");
    assert_eq!(c.url_encode(""), "");
    assert_eq!(c.url_encode("\n%"), "%0A%25");
}

#[test]
fn other_characters_are_written_byte_by_byte() {
    let c = client();
    assert_eq!(c.url_encode("é"), "%C3%A9");
    assert_eq!(c.url_encode("中"), "%E4%B8%AD");
    assert_eq!(c.url_encode("a中b"), "a%E4%B8%ADb");
    assert_eq!(c.url_encode("\u{7f}\u{80}"), "%7F%C2%80");
    assert_eq!(c.url_encode("😀"), "%F0%9F%98%80");
}

#[test]
fn header_lines_stand_in_the_order_of_their_names() {
    let c = client();
    let h = headers(&[("a-b", "2"), ("a", "1")]);
    assert_eq!(c.get_header_list_official(&h), "a;a-b");
    assert_eq!(c.build_header_string_official(&h), "a=1&a-b=2");
    let h = headers(&[("A", "1"), ("a-b", "2"), ("a", "0"), ("B", "x y")]);
    assert_eq!(c.get_header_list_official(&h), "a;a;a-b;b");
    assert_eq!(c.build_header_string_official(&h), "a=0&a=1&a-b=2&b=x%20y");
    let back = headers(&[("B", "x y"), ("a", "0"), ("a-b", "2"), ("A", "1")]);
    assert_eq!(c.build_header_string_official(&back), c.build_header_string_official(&h));
    assert_eq!(
        c.generate_authorization("PUT", "k", &back, 1_700_000_000),
        c.generate_authorization("PUT", "k", &h, 1_700_000_000)
    );
}

#[test]
fn pairs_are_sorted_by_their_first_texts() {
    let sorted = sort_string_pairs(headers(&[("b", "1"), ("a=", "2"), ("a", "9"), ("a", "10"), ("", "z")]));
    assert_eq!(sorted, headers(&[("", "z"), ("a", "10"), ("a", "9"), ("a=", "2"), ("b", "1")]));
    assert!(sort_string_pairs(vec![]).is_empty());
    assert!(pair_precedes(&("a".to_string(), "2".to_string()), &("a-b".to_string(), "1".to_string())));
    assert!(!pair_precedes(&("a".to_string(), "2".to_string()), &("a".to_string(), "1".to_string())));
    assert!(pair_precedes(&("a".to_string(), "1".to_string()), &("a".to_string(), "1".to_string())));
}

#[test]
fn digests_have_their_lengths() {
    assert_eq!(sha256_hex("").len(), 64);
    assert_eq!(sha1_hash("").len(), 40);
    assert_eq!(hmac_sha256_hex(b"", "").len(), 64);
    assert_eq!(hmac_sha1_hex(b"k", "data").len(), 40);
}

#[test]
fn signed_headers_are_lower_case_and_sorted() {
    let c = client();
    let h = headers(&[("Host", "b.cos.r.myqcloud.com"), ("Date", "Mon, 01 Jan"), ("Content-Type", "audio/wav")]);
    assert_eq!(c.get_header_list_official(&h), "content-type;date;host");
    assert_eq!(c.get_header_list(&h), "content-type;date;host");
    assert_eq!(
        c.build_header_string_official(&h),
        "content-type=audio%2Fwav&date=Mon%2C%2001%20Jan&host=b.cos.r.myqcloud.com"
    );
    assert_eq!(
        c.build_http_string_official("PUT", "audio/u/f.wav", &h),
        Ok("put\n/audio/u/f.wav\n\ncontent-type=audio%2Fwav&date=Mon%2C%2001%20Jan&host=b.cos.r.myqcloud.com\n".to_string())
    );
    assert_eq!(c.get_header_list_official(&vec![]), "");
    assert_eq!(c.build_header_string_official(&vec![]), "");
}

#[test]
fn listed_headers_are_found_whatever_their_case() {
    let c = client();
    let h = headers(&[("Host", " h.example "), ("date", "d"), ("X-Other", "o")]);
    assert_eq!(c.build_header_string(&h, "date;host;missing"), "date=d&host=h.example");
    assert_eq!(c.build_header_string(&h, ""), "");
    assert_eq!(c.build_header_string(&h, "Host"), "Host=h.example");
}

#[test]
fn the_storage_authorization_follows_the_scheme_step_by_step() {
    let c = client();
    let h = headers(&[("Host", "audio-1250000000.cos.ap-beijing.myqcloud.com"), ("Date", "Mon, 25 Feb 2019 16:44:25 GMT"), ("Content-Type", "audio/wav")]);
    let key_time = "1551113065;1551116665";
    let sign_key = hex::encode(hmac1(b"secretexample", key_time.as_bytes()));
    let http_string = "put\n/audio/u/f.wav\n\ncontent-type=audio%2Fwav&date=Mon%2C%2025%20Feb%202019%2016%3A44%3A25%20GMT&host=audio-1250000000.cos.ap-beijing.myqcloud.com\n";
    let to_sign = format!("sha1\n{}\n{}\n", key_time, hex::encode(Sha1::digest(http_string.as_bytes())));
    let signature = hex::encode(hmac1(sign_key.as_bytes(), to_sign.as_bytes()));
    let expected = format!(
        "q-sign-algorithm=sha1&q-ak=AKIDexample&q-sign-time={}&q-key-time={}&q-header-list=content-type;date;host&q-url-param-list=&q-signature={}",
        key_time, key_time, signature
    );
    assert_eq!(c.generate_authorization("PUT", "audio/u/f.wav", &h, 1551113065), Ok(expected));
}

#[test]
fn the_storage_authorization_is_pinned() {
    let c = client();
    let h = headers(&[("Host", "audio-1250000000.cos.ap-beijing.myqcloud.com"), ("Date", "Mon, 25 Feb 2019 16:44:25 GMT"), ("Content-Type", "audio/wav")]);
    assert_eq!(c.generate_authorization("PUT", "audio/u/f.wav", &h, 1551113065).unwrap(), "q-sign-algorithm=sha1&q-ak=AKIDexample&q-sign-time=1551113065;1551116665&q-key-time=1551113065;1551116665&q-header-list=content-type;date;host&q-url-param-list=&q-signature=7f2a1040003a3af2bf3ca700caaeebcc3043169d");
}

#[test]
fn a_window_that_cannot_be_written_is_refused() {
    let c = client();
    assert_eq!(c.generate_authorization("PUT", "k", &vec![], i64::MAX - 3599), Err("签名有效期超出时间范围".to_string()));
    assert!(c.generate_authorization("PUT", "k", &vec![], i64::MAX - 3600).is_ok());
    assert!(c.generate_authorization("PUT", "k", &vec![], -5).unwrap().contains("q-sign-time=-5;3595&"));
}

#[test]
fn the_storage_is_read_from_the_credentials() {
    let keys = parse_document(r#"{"secretId":"id","secretKey":"key","cosBucket":"b-1","cosRegion":"ap-x","cosDomain":"cdn.example","n":5}"#).unwrap();
    let config = storage_config(Some(&keys)).unwrap();
    assert_eq!(
        (config.secret_id.as_str(), config.secret_key.as_str(), config.bucket.as_str(), config.region.as_str(), config.domain.as_deref()),
        ("id", "key", "b-1", "ap-x", Some("cdn.example"))
    );
    let keys = parse_document(r#"{"cosBucket":"b-1","cosRegion":"ap-x","cosDomain":""}"#).unwrap();
    let config = storage_config(Some(&keys)).unwrap();
    assert_eq!((config.secret_id.as_str(), config.domain.is_none()), ("", true));
    let keys = parse_document(r#"{"secretId":"id","cosBucket":"b-1","cosRegion":""}"#).unwrap();
    assert!(storage_config(Some(&keys)).is_none());
    let keys = parse_document(r#"{"cosBucket":7,"cosRegion":"r"}"#).unwrap();
    assert!(storage_config(Some(&keys)).is_none());
    assert!(storage_config(None).is_none());
    assert_eq!(credential_text(Some(&keys), "cosRegion"), "r");
    assert_eq!(credential_text(Some(&keys), "cosBucket"), "");
    assert_eq!(credential_text(None, "cosRegion"), "");
}

#[test]
fn values_are_written_as_compact_text() {
    assert_eq!(write_object(vec![]), "{}");
    let members = vec![
        ("n".to_string(), whole_number(u64::MAX)),
        ("list".to_string(), Json::Array(vec![Json::Null, Json::Bool(true), Json::Text("a\"b".to_string())])),
        ("minus".to_string(), Json::Number { unsigned: None, signed: Some(-3) }),
    ];
    let text = write_object(members);
    let back: serde_json::Value = serde_json::from_str(&text).unwrap();
    assert_eq!(back["n"], u64::MAX);
    assert_eq!(back["minus"], -3);
    assert_eq!(back["list"][2], "a\"b");
    assert!(!text.contains(' '));
    assert_eq!(write_text_object(&headers(&[("k", "v w")])), r#"{"k":"v w"}"#);
}
