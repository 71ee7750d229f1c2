//! The cloud speech recognition service with size-gated submission: its
//! request signatures, request bodies and replies.

use vstd::prelude::*;
use vstd::string::*;
use vstd::utf8::encode_utf8;
use crate::clock::{utc_date, utc_date_text};
use crate::digest::{encode_base64, encoded, hex_text, hmac_sha256, hmac_sha256_code, hmac_sha256_hex, sha256_digest, sha256_hex};
use crate::json::{json_text, member_views, named, named_text, text_members, whole, whole_number, write_object, write_text_object, Json, JsonView};
use crate::text::{decimal, decimal_digits, pairs_view, same_text, signed_decimal, signed_decimal_digits};

verus! {

/// The canonical description of a signed request: a POST to the root path
/// with no query, the two signed headers in lower case, and the digest of
/// the body.
pub open spec fn canonical_request(host: Seq<char>, payload: Seq<char>) -> Seq<char> {
    "POST\n/\n\ncontent-type:application/json; charset=utf-8\nhost:"@ + host
        + "\n\ncontent-type;host\n"@ + hex_text(sha256_digest(encode_utf8(payload)))
}

/// The scope of a credential: the date, the service and a fixed
/// terminator.
pub open spec fn credential_scope(date: Seq<char>, service: Seq<char>) -> Seq<char> {
    date + "/"@ + service + "/tc3_request"@
}

/// The text that is signed: the algorithm, the time, the scope and the
/// digest of the canonical request, one per line.
pub open spec fn string_to_sign(
    algorithm: Seq<char>,
    timestamp: int,
    scope: Seq<char>,
    canonical: Seq<char>,
) -> Seq<char> {
    algorithm + "\n"@ + signed_decimal_digits(timestamp) + "\n"@ + scope + "\n"@ + hex_text(
        sha256_digest(encode_utf8(canonical)),
    )
}

/// The signing key: the secret behind a fixed prefix, chained through the
/// date, the service and a fixed terminator.
pub open spec fn signing_key(secret_key: Seq<char>, date: Seq<char>, service: Seq<char>) -> Seq<u8> {
    hmac_sha256_code(
        hmac_sha256_code(
            hmac_sha256_code(encode_utf8("TC3"@ + secret_key), encode_utf8(date)),
            encode_utf8(service),
        ),
        encode_utf8("tc3_request"@),
    )
}

/// The signature of a text under a signing key, in hexadecimal.
pub open spec fn signature(key: Seq<u8>, text: Seq<char>) -> Seq<char> {
    hex_text(hmac_sha256_code(key, encode_utf8(text)))
}

/// The value of the `Authorization` header.
pub open spec fn authorization(
    algorithm: Seq<char>,
    secret_id: Seq<char>,
    scope: Seq<char>,
    signed_headers: Seq<char>,
    signature: Seq<char>,
) -> Seq<char> {
    algorithm + " Credential="@ + secret_id + "/"@ + scope + ", SignedHeaders="@ + signed_headers
        + ", Signature="@ + signature
}

/// The `Authorization` header of a request that signs the content type
/// and the host.
pub open spec fn tencent_authorization(
    secret_id: Seq<char>,
    secret_key: Seq<char>,
    payload: Seq<char>,
    host: Seq<char>,
    date: Seq<char>,
    timestamp: int,
    service: Seq<char>,
    algorithm: Seq<char>,
) -> Seq<char> {
    let scope = credential_scope(date, service);
    authorization(
        algorithm,
        secret_id,
        scope,
        "content-type;host"@,
        signature(
            signing_key(secret_key, date, service),
            string_to_sign(algorithm, timestamp, scope, canonical_request(host, payload)),
        ),
    )
}

/// What is signed: the account, the content, where it goes and when.
pub struct Signed {
    pub secret_id: Seq<char>,
    pub secret_key: Seq<char>,
    pub payload: Seq<char>,
    pub host: Seq<char>,
    pub date: Seq<char>,
    pub timestamp: int,
    pub service: Seq<char>,
    pub algorithm: Seq<char>,
}

/// The `Authorization` header for what is signed.
pub open spec fn authorization_of(s: Signed) -> Seq<char> {
    tencent_authorization(
        s.secret_id,
        s.secret_key,
        s.payload,
        s.host,
        s.date,
        s.timestamp,
        s.service,
        s.algorithm,
    )
}

/// The signature depends on nothing but what is signed: the same secret,
/// moment, content and headers give the same authorization, character for
/// character.
pub proof fn lemma_authorization_deterministic(a: Signed, b: Signed)
    requires
        a.secret_id =~= b.secret_id,
        a.secret_key =~= b.secret_key,
        a.payload =~= b.payload,
        a.host =~= b.host,
        a.date =~= b.date,
        a.timestamp == b.timestamp,
        a.service =~= b.service,
        a.algorithm =~= b.algorithm,
    ensures
        authorization_of(a) == authorization_of(b),
{
}

/// The signature of a request with parameters depends on nothing but the
/// account, the service, the parameters and the moment.
pub proof fn lemma_parameter_authorization_deterministic(
    secret_id: Seq<char>,
    secret_key: Seq<char>,
    service: Seq<char>,
    params: Seq<(Seq<char>, Seq<char>)>,
    other_params: Seq<(Seq<char>, Seq<char>)>,
    timestamp: u64,
)
    requires
        params.len() == other_params.len(),
        forall|i: int|
            0 <= i < params.len() ==> params[i].0 =~= other_params[i].0 && params[i].1
                =~= other_params[i].1,
    ensures
        parameter_authorization(secret_id, secret_key, service, params, timestamp)
            == parameter_authorization(secret_id, secret_key, service, other_params, timestamp),
{
    assert(params =~= other_params);
}

/// Derives the signing key of a day and a service from the secret.
pub fn derive_signing_key(secret_key: &str, date: &str, service: &str) -> (r: Vec<u8>)
    ensures
        r@ == signing_key(secret_key@, date@, service@),
{
    let mut seed = String::from_str("TC3");
    seed.append(secret_key);
    let secret_date = hmac_sha256(seed.as_str().as_bytes(), date);
    let secret_service = hmac_sha256(secret_date.as_slice(), service);
    hmac_sha256(secret_service.as_slice(), "tc3_request")
}

/// Signs a request to the service. `action` names the operation; it is
/// sent as a header of its own and is not part of what is signed here.
pub fn build_tencent_authorization(
    secret_id: &str,
    secret_key: &str,
    payload: &str,
    host: &str,
    action: &str,
    date: &str,
    timestamp: i64,
    service: &str,
    algorithm: &str,
) -> (r: Result<String, String>)
    ensures
        r is Ok,
        r->Ok_0@ == tencent_authorization(
            secret_id@,
            secret_key@,
            payload@,
            host@,
            date@,
            timestamp as int,
            service@,
            algorithm@,
        ),
{
    let hashed_payload = sha256_hex(payload);
    let mut canonical = String::from_str(
        "POST\n/\n\ncontent-type:application/json; charset=utf-8\nhost:",
    );
    canonical.append(host);
    canonical.append("\n\ncontent-type;host\n");
    canonical.append(hashed_payload.as_str());

    let mut scope = String::from_str(date);
    scope.append("/");
    scope.append(service);
    scope.append("/tc3_request");

    let hashed_canonical = sha256_hex(canonical.as_str());
    let time = signed_decimal(timestamp);
    let mut to_sign = String::from_str(algorithm);
    to_sign.append("\n");
    to_sign.append(time.as_str());
    to_sign.append("\n");
    to_sign.append(scope.as_str());
    to_sign.append("\n");
    to_sign.append(hashed_canonical.as_str());

    let key = derive_signing_key(secret_key, date, service);
    let signed = hmac_sha256_hex(key.as_slice(), to_sign.as_str());

    let mut out = String::from_str(algorithm);
    out.append(" Credential=");
    out.append(secret_id);
    out.append("/");
    out.append(scope.as_str());
    out.append(", SignedHeaders=");
    out.append("content-type;host");
    out.append(", Signature=");
    out.append(signed.as_str());
    Ok(out)
}

/// The host of the speech recognition service.
pub const ASR_HOST: &'static str = "asr.tencentcloudapi.com";

/// The name under which the service signs.
pub const ASR_SERVICE: &'static str = "asr";

/// The version of the service's interface.
pub const ASR_VERSION: &'static str = "2019-06-14";

/// The region that requests are sent to.
pub const ASR_REGION: &'static str = "ap-beijing";

/// The signing algorithm.
pub const ASR_ALGORITHM: &'static str = "TC3-HMAC-SHA256";

/// The diagnostic of a moment for which there is no calendar day.
pub const BAD_TIMESTAMP: &'static str = "无效的时间戳";

/// A request to the service that is ready to be sent: a POST to `url` with
/// `body` as its content, the content type `application/json;
/// charset=utf-8`, and headers for the host, the action, the time, the
/// version, the region and the authorization.
#[derive(Debug, Clone)]
pub struct SignedRequest {
    pub url: String,
    pub host: String,
    pub action: String,
    pub timestamp: String,
    pub version: String,
    pub region: String,
    pub authorization: String,
    pub body: String,
}

/// The contents of a [`SignedRequest`].
pub struct SignedRequestView {
    pub url: Seq<char>,
    pub host: Seq<char>,
    pub action: Seq<char>,
    pub timestamp: Seq<char>,
    pub version: Seq<char>,
    pub region: Seq<char>,
    pub authorization: Seq<char>,
    pub body: Seq<char>,
}

impl View for SignedRequest {
    type V = SignedRequestView;

    open spec fn view(&self) -> SignedRequestView {
        SignedRequestView {
            url: self.url@,
            host: self.host@,
            action: self.action@,
            timestamp: self.timestamp@,
            version: self.version@,
            region: self.region@,
            authorization: self.authorization@,
            body: self.body@,
        }
    }
}

/// A request or a diagnostic, by contents.
pub open spec fn request_view(r: Result<SignedRequest, String>) -> Result<
    SignedRequestView,
    Seq<char>,
> {
    match r {
        Ok(request) => Ok(request@),
        Err(e) => Err(e@),
    }
}

/// The request for `action` with the content `payload`, signed at the
/// moment `timestamp`; a diagnostic where that moment has no calendar day.
pub open spec fn signed_request(
    secret_id: Seq<char>,
    secret_key: Seq<char>,
    action: Seq<char>,
    payload: Seq<char>,
    timestamp: int,
) -> Result<SignedRequestView, Seq<char>> {
    match utc_date_text(timestamp) {
        None => Err(BAD_TIMESTAMP@),
        Some(date) => Ok(
            SignedRequestView {
                url: "https://"@ + ASR_HOST@,
                host: ASR_HOST@,
                action,
                timestamp: signed_decimal_digits(timestamp),
                version: ASR_VERSION@,
                region: ASR_REGION@,
                authorization: tencent_authorization(
                    secret_id,
                    secret_key,
                    payload,
                    ASR_HOST@,
                    date,
                    timestamp,
                    ASR_SERVICE@,
                    ASR_ALGORITHM@,
                ),
                body: payload,
            },
        ),
    }
}

/// Signs a request for `action` with the content `payload` at the moment
/// `timestamp`.
pub fn sign_request(
    secret_id: &str,
    secret_key: &str,
    action: &str,
    payload: String,
    timestamp: i64,
) -> (r: Result<SignedRequest, String>)
    ensures
        request_view(r) == signed_request(
            secret_id@,
            secret_key@,
            action@,
            payload@,
            timestamp as int,
        ),
{
    match utc_date(timestamp) {
        None => Err(String::from_str(BAD_TIMESTAMP)),
        Some(date) => {
            let signed = build_tencent_authorization(
                secret_id,
                secret_key,
                payload.as_str(),
                ASR_HOST,
                action,
                date.as_str(),
                timestamp,
                ASR_SERVICE,
                ASR_ALGORITHM,
            );
            match signed {
                Ok(authorization) => {
                    let mut url = String::from_str("https://");
                    url.append(ASR_HOST);
                    Ok(
                        SignedRequest {
                            url,
                            host: String::from_str(ASR_HOST),
                            action: String::from_str(action),
                            timestamp: signed_decimal(timestamp),
                            version: String::from_str(ASR_VERSION),
                            region: String::from_str(ASR_REGION),
                            authorization,
                            body: payload,
                        },
                    )
                },
                Err(e) => Err(e),
            }
        },
    }
}

/// What a request that creates a recognition task from audio that is
/// sent along says: the audio in base64, its length in bytes, and how it
/// is to be recognised.
pub open spec fn create_task_document(data: Seq<char>, length: u64) -> JsonView {
    JsonView::Object(
        seq![
            ("ChannelNum"@, whole(1)),
            ("ConvertNumMode"@, whole(1)),
            ("Data"@, JsonView::Text(data)),
            ("DataLen"@, whole(length)),
            ("EngineModelType"@, JsonView::Text("16k_zh"@)),
            ("FilterDirty"@, whole(0)),
            ("FilterModal"@, whole(0)),
            ("FilterPunc"@, whole(0)),
            ("OutputFileType"@, JsonView::Text("txt"@)),
            ("ResTextFormat"@, whole(0)),
            ("SourceType"@, whole(1)),
            ("SpeakerDiarization"@, whole(0)),
            ("SpeakerNumber"@, whole(0)),
            ("WordInfo"@, whole(1)),
        ],
    )
}

/// The content of a request that creates a recognition task from audio
/// that is sent along: the JSON text of what the request says; or a
/// diagnostic where the audio is too long to be written in base64.
pub open spec fn create_task_payload(audio: Seq<u8>) -> Result<Seq<char>, Seq<char>> {
    match encoded(audio) {
        Ok(text) => Ok(json_text(create_task_document(text, audio.len() as u64))),
        Err(e) => Err(e),
    }
}

/// Writes the content of a request that creates a recognition task from
/// audio that is sent along.
pub fn build_create_task_payload(audio: &[u8]) -> (r: Result<String, String>)
    ensures
        match r {
            Ok(s) => create_task_payload(audio@) == Ok::<Seq<char>, Seq<char>>(s@),
            Err(e) => create_task_payload(audio@) == Err::<Seq<char>, Seq<char>>(e@),
        },
{
    let text = match encode_base64(audio) {
        Ok(t) => t,
        Err(e) => {
            return Err(e);
        },
    };
    let mut members: Vec<(String, Json)> = Vec::new();
    members.push(named("ChannelNum", whole_number(1)));
    members.push(named("ConvertNumMode", whole_number(1)));
    members.push(named_text("Data", text.as_str()));
    members.push(named("DataLen", whole_number(audio.len() as u64)));
    members.push(named_text("EngineModelType", "16k_zh"));
    members.push(named("FilterDirty", whole_number(0)));
    members.push(named("FilterModal", whole_number(0)));
    members.push(named("FilterPunc", whole_number(0)));
    members.push(named_text("OutputFileType", "txt"));
    members.push(named("ResTextFormat", whole_number(0)));
    members.push(named("SourceType", whole_number(1)));
    members.push(named("SpeakerDiarization", whole_number(0)));
    members.push(named("SpeakerNumber", whole_number(0)));
    members.push(named("WordInfo", whole_number(1)));
    assert(JsonView::Object(member_views(members@)) == create_task_document(
        text@,
        audio@.len() as u64,
    )) by {
        assert(member_views(members@) =~= create_task_document(
            text@,
            audio@.len() as u64,
        )->Object_0);
    }
    Ok(write_object(members))
}

/// What a request for the state of the task `task_id` says.
pub open spec fn task_status_document(task_id: u64) -> JsonView {
    JsonView::Object(seq![("TaskId"@, whole(task_id))])
}

/// The content of a request for the state of the task `task_id`.
pub open spec fn task_status_payload(task_id: u64) -> Seq<char> {
    json_text(task_status_document(task_id))
}

/// Writes the content of a request for the state of a task.
pub fn build_task_status_payload(task_id: u64) -> (r: String)
    ensures
        r@ == task_status_payload(task_id),
{
    let mut members: Vec<(String, Json)> = Vec::new();
    members.push(named("TaskId", whole_number(task_id)));
    assert(member_views(members@) =~= task_status_document(task_id)->Object_0);
    write_object(members)
}

/// The signed request that creates a recognition task from audio that is
/// sent along, or a diagnostic.
pub open spec fn creation_request(
    secret_id: Seq<char>,
    secret_key: Seq<char>,
    audio: Seq<u8>,
    timestamp: int,
) -> Result<SignedRequestView, Seq<char>> {
    match create_task_payload(audio) {
        Ok(payload) => signed_request(secret_id, secret_key, "CreateRecTask"@, payload, timestamp),
        Err(e) => Err(e),
    }
}

/// Builds the signed request that creates a recognition task from audio
/// that is sent along.
pub fn create_task_request(secret_id: &str, secret_key: &str, audio: &[u8], timestamp: i64) -> (r:
    Result<SignedRequest, String>)
    ensures
        request_view(r) == creation_request(secret_id@, secret_key@, audio@, timestamp as int),
{
    match build_create_task_payload(audio) {
        Ok(payload) => sign_request(secret_id, secret_key, "CreateRecTask", payload, timestamp),
        Err(e) => Err(e),
    }
}

/// Builds the signed request for the state of a task.
pub fn task_status_request(secret_id: &str, secret_key: &str, task_id: u64, timestamp: i64) -> (r:
    Result<SignedRequest, String>)
    ensures
        request_view(r) == signed_request(
            secret_id@,
            secret_key@,
            "DescribeTaskStatus"@,
            task_status_payload(task_id),
            timestamp as int,
        ),
{
    sign_request(
        secret_id,
        secret_key,
        "DescribeTaskStatus",
        build_task_status_payload(task_id),
        timestamp,
    )
}

/// The value of the first parameter called `name`, or the empty text.
pub open spec fn parameter(pairs: Seq<(Seq<char>, Seq<char>)>, name: Seq<char>) -> Seq<char>
    decreases pairs.len(),
{
    if pairs.len() == 0 {
        Seq::empty()
    } else if pairs[0].0 == name {
        pairs[0].1
    } else {
        parameter(pairs.drop_first(), name)
    }
}

/// Looks a parameter up by its name.
pub fn find_parameter(pairs: &Vec<(String, String)>, name: &str) -> (r: String)
    ensures
        r@ == parameter(pairs_view(pairs@), name@),
{
    let mut i: usize = 0;
    assert(pairs_view(pairs@).skip(0) =~= pairs_view(pairs@));
    while i < pairs.len()
        invariant
            i <= pairs.len(),
            parameter(pairs_view(pairs@), name@) == parameter(
                pairs_view(pairs@).skip(i as int),
                name@,
            ),
        decreases pairs.len() - i,
    {
        assert(pairs_view(pairs@).skip(i as int).drop_first() =~= pairs_view(pairs@).skip(
            i as int + 1,
        ));
        assert(pairs_view(pairs@).skip(i as int)[0] == (pairs@[i as int].0@, pairs@[i as int].1@));
        let entry = &pairs[i];
        if same_text(entry.0.as_str(), name) {
            return entry.1.clone();
        }
        i += 1;
    }
    String::new()
}

/// A list of text parameters as the text of a JSON object with a member
/// for each.
pub open spec fn object_text(pairs: Seq<(Seq<char>, Seq<char>)>) -> Seq<char> {
    json_text(JsonView::Object(text_members(pairs)))
}

/// Writes a list of text parameters as a JSON object.
pub fn build_object_text(pairs: &Vec<(String, String)>) -> (r: String)
    ensures
        r@ == object_text(pairs_view(pairs@)),
{
    write_text_object(pairs)
}

/// The parameters of a request that creates a task from audio at a URL.
pub open spec fn url_task_parameters(audio_url: Seq<char>) -> Seq<(Seq<char>, Seq<char>)> {
    seq![
        ("Action"@, "CreateRecTask"@),
        ("Version"@, ASR_VERSION@),
        ("Region"@, ASR_REGION@),
        ("EngineModelType"@, "16k_zh"@),
        ("ChannelNum"@, "1"@),
        ("ResTextFormat"@, "0"@),
        ("SourceType"@, "0"@),
        ("Url"@, audio_url),
    ]
}

/// The parameters of a query for the state of a task that was created by
/// URL.
pub open spec fn url_query_parameters(task_id: u64) -> Seq<(Seq<char>, Seq<char>)> {
    seq![
        ("Action"@, "DescribeTaskStatus"@),
        ("Version"@, "2018-05-22"@),
        ("Region"@, ASR_REGION@),
        ("TaskId"@, decimal_digits(task_id as nat)),
    ]
}

fn parameter_pair(name: &str, value: &str) -> (r: (String, String))
    ensures
        r.0@ == name@,
        r.1@ == value@,
{
    (String::from_str(name), String::from_str(value))
}

/// Builds the parameters of a request that creates a task from audio at a
/// URL.
pub fn build_url_task_parameters(audio_url: &str) -> (r: Vec<(String, String)>)
    ensures
        pairs_view(r@) == url_task_parameters(audio_url@),
{
    let mut out: Vec<(String, String)> = Vec::new();
    out.push(parameter_pair("Action", "CreateRecTask"));
    out.push(parameter_pair("Version", ASR_VERSION));
    out.push(parameter_pair("Region", ASR_REGION));
    out.push(parameter_pair("EngineModelType", "16k_zh"));
    out.push(parameter_pair("ChannelNum", "1"));
    out.push(parameter_pair("ResTextFormat", "0"));
    out.push(parameter_pair("SourceType", "0"));
    out.push(parameter_pair("Url", audio_url));
    assert(pairs_view(out@) =~= url_task_parameters(audio_url@));
    out
}

/// Builds the parameters of a query for the state of a task that was
/// created by URL.
pub fn build_url_query_parameters(task_id: u64) -> (r: Vec<(String, String)>)
    ensures
        pairs_view(r@) == url_query_parameters(task_id),
{
    let number = decimal(task_id);
    let mut out: Vec<(String, String)> = Vec::new();
    out.push(parameter_pair("Action", "DescribeTaskStatus"));
    out.push(parameter_pair("Version", "2018-05-22"));
    out.push(parameter_pair("Region", ASR_REGION));
    out.push(parameter_pair("TaskId", number.as_str()));
    assert(pairs_view(out@) =~= url_query_parameters(task_id));
    out
}

/// The headers that a request with parameters signs, by name.
pub const SIGNED_PARAMETER_HEADERS: &'static str =
    "content-type;host;x-tc-action;x-tc-timestamp;x-tc-version";

/// The host of a service.
pub open spec fn service_host(service: Seq<char>) -> Seq<char> {
    service + ".tencentcloudapi.com"@
}

/// The canonical description of a request with parameters: a POST to the
/// root path with no query, the five signed headers in lower case, and the
/// digest of the body.
pub open spec fn canonical_parameter_request(
    host: Seq<char>,
    action: Seq<char>,
    timestamp: nat,
    payload: Seq<char>,
) -> Seq<char> {
    "POST\n/\n\ncontent-type:application/json; charset=utf-8\nhost:"@ + host + "\nx-tc-action:"@
        + action + "\nx-tc-timestamp:"@ + decimal_digits(timestamp)
        + "\nx-tc-version:2018-05-22\n\n"@ + SIGNED_PARAMETER_HEADERS@ + "\n"@ + hex_text(
        sha256_digest(encode_utf8(payload)),
    )
}

/// The `Authorization` header of a request whose content is the JSON
/// object of `params`, signed at the moment `timestamp`; a diagnostic
/// where that moment has no calendar day.
pub open spec fn parameter_authorization(
    secret_id: Seq<char>,
    secret_key: Seq<char>,
    service: Seq<char>,
    params: Seq<(Seq<char>, Seq<char>)>,
    timestamp: u64,
) -> Result<Seq<char>, Seq<char>> {
    match utc_date_text((timestamp as i64) as int) {
        None => Err(BAD_TIMESTAMP@),
        Some(date) => {
            let scope = credential_scope(date, service);
            let canonical = canonical_parameter_request(
                service_host(service),
                parameter(params, "Action"@),
                timestamp as nat,
                object_text(params),
            );
            Ok(
                authorization(
                    ASR_ALGORITHM@,
                    secret_id,
                    scope,
                    SIGNED_PARAMETER_HEADERS@,
                    signature(
                        signing_key(secret_key, date, service),
                        ASR_ALGORITHM@ + "\n"@ + decimal_digits(timestamp as nat) + "\n"@ + scope
                            + "\n"@ + hex_text(sha256_digest(encode_utf8(canonical))),
                    ),
                ),
            )
        },
    }
}

/// Signs a request whose content is the JSON object of `params`. `region`
/// names where the request is sent; it is a header of its own and is not
/// part of what is signed.
pub fn generate_tencent_signature_v3(
    secret_id: &str,
    secret_key: &str,
    service: &str,
    region: &str,
    params: &Vec<(String, String)>,
    timestamp: u64,
) -> (r: Result<String, String>)
    ensures
        match r {
            Ok(s) => parameter_authorization(
                secret_id@,
                secret_key@,
                service@,
                pairs_view(params@),
                timestamp,
            ) == Ok::<Seq<char>, Seq<char>>(s@),
            Err(e) => parameter_authorization(
                secret_id@,
                secret_key@,
                service@,
                pairs_view(params@),
                timestamp,
            ) == Err::<Seq<char>, Seq<char>>(e@),
        },
{
    let payload = build_object_text(params);
    let date = match utc_date(timestamp as i64) {
        Some(d) => d,
        None => {
            return Err(String::from_str(BAD_TIMESTAMP));
        },
    };
    let time = decimal(timestamp);
    let action = find_parameter(params, "Action");
    let hashed_payload = sha256_hex(payload.as_str());

    let mut canonical = String::from_str(
        "POST\n/\n\ncontent-type:application/json; charset=utf-8\nhost:",
    );
    canonical.append(service);
    canonical.append(".tencentcloudapi.com");
    canonical.append("\nx-tc-action:");
    canonical.append(action.as_str());
    canonical.append("\nx-tc-timestamp:");
    canonical.append(time.as_str());
    canonical.append("\nx-tc-version:2018-05-22\n\n");
    canonical.append(SIGNED_PARAMETER_HEADERS);
    canonical.append("\n");
    canonical.append(hashed_payload.as_str());
    proof {
        let built = canonical_parameter_request(
            service_host(service@),
            action@,
            timestamp as nat,
            payload@,
        );
        assert(canonical@ =~= built);
    }

    let mut scope = String::from_str(date.as_str());
    scope.append("/");
    scope.append(service);
    scope.append("/tc3_request");

    let hashed_canonical = sha256_hex(canonical.as_str());
    let mut to_sign = String::from_str(ASR_ALGORITHM);
    to_sign.append("\n");
    to_sign.append(time.as_str());
    to_sign.append("\n");
    to_sign.append(scope.as_str());
    to_sign.append("\n");
    to_sign.append(hashed_canonical.as_str());

    let key = derive_signing_key(secret_key, date.as_str(), service);
    let signed = hmac_sha256_hex(key.as_slice(), to_sign.as_str());

    let mut out = String::from_str(ASR_ALGORITHM);
    out.append(" Credential=");
    out.append(secret_id);
    out.append("/");
    out.append(scope.as_str());
    out.append(", SignedHeaders=");
    out.append(SIGNED_PARAMETER_HEADERS);
    out.append(", Signature=");
    out.append(signed.as_str());
    Ok(out)
}

} // verus!
