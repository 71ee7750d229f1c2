//! Object storage for audio that is too large to be sent along with a
//! request: signed uploads and deletions, and what the storage answers.

use vstd::prelude::*;
use vstd::string::*;
use vstd::utf8::encode_utf8;
use crate::clock::{http_date, http_date_text};
use crate::digest::{hex_text, hmac_sha1_code, hmac_sha1_hex, sha1_digest, sha1_hash};
use crate::fallback::{one_decimal, one_decimal_text, MEGABYTE};
use crate::json::{member_text_or, text_or, Json, JsonView};
use vstd::relations::sorted_by;
use crate::text_laws::{lemma_pair_order_total, lemma_order_reflexive, lemma_sort_ordered, lemma_map_any_order, lemma_sort_any_order, lemma_sort_pairs_any_order, lemma_sort_pairs_ordered, lemma_sorted_unique};
use crate::text::{split, split_text, string_of, texts, trimmed, chars_of, decimal, decimal_digits, join, join_strings, lowercase, lowercase_text, pair_order, pairs_view, same_text, sort_pairs, sort_string_pairs, text_le, signed_decimal, signed_decimal_digits, sort_strings, sort_texts, strings_view, string_of_range, trim};

verus! {

/// Where the object storage is and who asks.
#[derive(Debug, Clone)]
pub struct CosConfig {
    pub secret_id: String,
    pub secret_key: String,
    pub bucket: String,
    pub region: String,
    /// A host of one's own under which uploaded objects can be read.
    pub domain: Option<String>,
}

/// The contents of a [`CosConfig`].
pub struct CosConfigView {
    pub secret_id: Seq<char>,
    pub secret_key: Seq<char>,
    pub bucket: Seq<char>,
    pub region: Seq<char>,
    pub domain: Option<Seq<char>>,
}

impl View for CosConfig {
    type V = CosConfigView;

    open spec fn view(&self) -> CosConfigView {
        CosConfigView {
            secret_id: self.secret_id@,
            secret_key: self.secret_key@,
            bucket: self.bucket@,
            region: self.region@,
            domain: match self.domain {
                Some(d) => Some(d@),
                None => None,
            },
        }
    }
}

/// The text that stands under `name` in the credentials, or the empty
/// text where there are no credentials, nothing stands under the name, or
/// what stands there is no text.
pub open spec fn credential(keys: Option<JsonView>, name: Seq<char>) -> Seq<char> {
    match keys {
        Some(k) => text_or(k.member(name), Seq::empty()),
        None => Seq::empty(),
    }
}

/// The object storage that the credentials describe: there is one where
/// they name a bucket and a region. A host of one's own is part of it
/// where the credentials name one.
pub open spec fn described_storage(keys: Option<JsonView>) -> Option<CosConfigView> {
    if credential(keys, "cosBucket"@).len() == 0 || credential(keys, "cosRegion"@).len() == 0 {
        None
    } else {
        Some(
            CosConfigView {
                secret_id: credential(keys, "secretId"@),
                secret_key: credential(keys, "secretKey"@),
                bucket: credential(keys, "cosBucket"@),
                region: credential(keys, "cosRegion"@),
                domain: if credential(keys, "cosDomain"@).len() == 0 {
                    None
                } else {
                    Some(credential(keys, "cosDomain"@))
                },
            },
        )
    }
}

/// Reads one text of the credentials.
pub fn credential_text(keys: Option<&Json>, name: &str) -> (r: String)
    ensures
        r@ == credential(
            match keys {
                Some(k) => Some(k@),
                None => None,
            },
            name@,
        ),
{
    proof {
        reveal_strlit("");
        assert(""@ =~= Seq::<char>::empty());
    }
    match keys {
        Some(k) => member_text_or(k, name, ""),
        None => String::new(),
    }
}

/// Reads the object storage that the credentials describe, if they
/// describe one.
pub fn storage_config(keys: Option<&Json>) -> (r: Option<CosConfig>)
    ensures
        match r {
            Some(config) => described_storage(
                match keys {
                    Some(k) => Some(k@),
                    None => None,
                },
            ) == Some(config@),
            None => described_storage(
                match keys {
                    Some(k) => Some(k@),
                    None => None,
                },
            ) is None,
        },
{
    let bucket = credential_text(keys, "cosBucket");
    let region = credential_text(keys, "cosRegion");
    if bucket.as_str().is_empty() || region.as_str().is_empty() {
        return None;
    }
    let domain = credential_text(keys, "cosDomain");
    let secret_id = credential_text(keys, "secretId");
    let secret_key = credential_text(keys, "secretKey");
    let domain = if domain.as_str().is_empty() {
        None
    } else {
        Some(domain)
    };
    Some(CosConfig { secret_id, secret_key, bucket, region, domain })
}

/// The side of the object storage that builds requests and reads answers.
pub struct CosClient {
    pub config: CosConfig,
}

/// The names and values of a list of headers.
pub open spec fn headers_view(headers: Seq<(String, String)>) -> Seq<(Seq<char>, Seq<char>)> {
    pairs_view(headers)
}

/// The sixteen hexadecimal digits, upper case.
pub open spec fn upper_hex_digits() -> Seq<char> {
    seq!['0', '1', '2', '3', '4', '5', '6', '7', '8', '9', 'A', 'B', 'C', 'D', 'E', 'F']
}

/// Whether a character stands for itself in an encoded text: a letter of
/// the Latin alphabet, a digit, or one of `-`, `_`, `.` and `~`.
pub open spec fn is_unreserved(c: char) -> bool {
    ('A' <= c <= 'Z') || ('a' <= c <= 'z') || ('0' <= c <= '9') || c == '-' || c == '_' || c == '.'
        || c == '~'
}

/// The encoded form of one byte: the character that it stands for where
/// that is unreserved, else a percent sign and the two upper-case
/// hexadecimal digits of the byte.
pub open spec fn encoded_byte(b: u8) -> Seq<char> {
    if is_unreserved(b as char) {
        seq![b as char]
    } else {
        seq!['%', upper_hex_digits()[b as int / 16], upper_hex_digits()[b as int % 16]]
    }
}

/// The encoded form of a byte string, byte by byte.
pub open spec fn bytes_encoded(bytes: Seq<u8>) -> Seq<char>
    decreases bytes.len(),
{
    if bytes.len() == 0 {
        Seq::empty()
    } else {
        bytes_encoded(bytes.drop_last()) + encoded_byte(bytes.last())
    }
}

/// The encoded form of a text: that of its bytes in UTF-8, so that an
/// unreserved character stands for itself and every other character is
/// written as one percent sign and two digits for each of its bytes.
pub open spec fn url_encoded(s: Seq<char>) -> Seq<char> {
    bytes_encoded(encode_utf8(s))
}

/// Whether a character is one of those that an encoded text is made of:
/// an unreserved character, a percent sign, or a hexadecimal digit.
pub open spec fn is_encoded_char(c: char) -> bool {
    is_unreserved(c) || c == '%'
}

/// An encoded text is made of unreserved characters and percent signs
/// alone: nothing in it needs to be encoded for the sake of the signature.
pub proof fn lemma_encoded_is_plain(bytes: Seq<u8>)
    ensures
        forall|i: int|
            0 <= i < bytes_encoded(bytes).len() ==> is_encoded_char(
                #[trigger] bytes_encoded(bytes)[i],
            ),
    decreases bytes.len(),
{
    if bytes.len() > 0 {
        lemma_encoded_is_plain(bytes.drop_last());
        let head = bytes_encoded(bytes.drop_last());
        let tail = encoded_byte(bytes.last());
        let b = bytes.last();
        assert(0 <= b as int / 16 < 16 && 0 <= b as int % 16 < 16);
        assert forall|i: int| 0 <= i < bytes_encoded(bytes).len() implies is_encoded_char(
            #[trigger] bytes_encoded(bytes)[i],
        ) by {
            if i < head.len() {
                assert(bytes_encoded(bytes)[i] == head[i]);
            } else {
                assert(bytes_encoded(bytes)[i] == tail[i - head.len()]);
            }
        }
    }
}

/// The character of one hexadecimal digit, upper case.
pub fn upper_hex_char(d: u8) -> (r: char)
    requires
        d < 16,
    ensures
        r == upper_hex_digits()[d as int],
{
    if d == 0 {
        '0'
    } else if d == 1 {
        '1'
    } else if d == 2 {
        '2'
    } else if d == 3 {
        '3'
    } else if d == 4 {
        '4'
    } else if d == 5 {
        '5'
    } else if d == 6 {
        '6'
    } else if d == 7 {
        '7'
    } else if d == 8 {
        '8'
    } else if d == 9 {
        '9'
    } else if d == 10 {
        'A'
    } else if d == 11 {
        'B'
    } else if d == 12 {
        'C'
    } else if d == 13 {
        'D'
    } else if d == 14 {
        'E'
    } else {
        'F'
    }
}

/// Whether a character stands for itself in an encoded text.
pub fn char_is_unreserved(c: char) -> (r: bool)
    ensures
        r == is_unreserved(c),
{
    ('A' <= c && c <= 'Z') || ('a' <= c && c <= 'z') || ('0' <= c && c <= '9') || c == '-' || c
        == '_' || c == '.' || c == '~'
}

/// The headers of a request in their signed form: each name in lower
/// case, with the encoded value.
pub open spec fn signed_pairs(headers: Seq<(Seq<char>, Seq<char>)>) -> Seq<(Seq<char>, Seq<char>)> {
    headers.map_values(|h: (Seq<char>, Seq<char>)| (lowercase_text(h.0), url_encoded(h.1)))
}

/// The signed headers of a request in the order of their names; headers
/// of one name stand in the order of their encoded values.
pub open spec fn sorted_headers(headers: Seq<(Seq<char>, Seq<char>)>) -> Seq<
    (Seq<char>, Seq<char>),
> {
    sort_pairs(signed_pairs(headers))
}

/// The lines of a list of signed headers: a name, an equals sign and the
/// value.
pub open spec fn header_lines(pairs: Seq<(Seq<char>, Seq<char>)>) -> Seq<Seq<char>> {
    pairs.map_values(|p: (Seq<char>, Seq<char>)| p.0 + "="@ + p.1)
}

/// The names of the headers of a request in lower case.
pub open spec fn header_names(headers: Seq<(Seq<char>, Seq<char>)>) -> Seq<Seq<char>> {
    headers.map_values(|h: (Seq<char>, Seq<char>)| lowercase_text(h.0))
}

/// The lines of the signed headers in the order of their names, with `&`
/// between them.
pub open spec fn header_string(headers: Seq<(Seq<char>, Seq<char>)>) -> Seq<char> {
    join(header_lines(sorted_headers(headers)), "&"@)
}

/// The names of the signed headers in the order of the dictionary, with
/// `;` between them.
pub open spec fn header_list(headers: Seq<(Seq<char>, Seq<char>)>) -> Seq<char> {
    join(sort_texts(header_names(headers)), ";"@)
}

/// The description of a request that is signed: the method in lower case,
/// the path of the object, no query, and the signed header lines, each
/// followed by a line break.
pub open spec fn http_string(
    method: Seq<char>,
    object_key: Seq<char>,
    headers: Seq<(Seq<char>, Seq<char>)>,
) -> Seq<char> {
    lowercase_text(method) + "\n/"@ + object_key + "\n\n"@ + header_string(headers) + "\n"@
}

/// The time window of a signature: its first and its last second, with a
/// semicolon between them.
pub open spec fn key_time(timestamp: int) -> Seq<char> {
    signed_decimal_digits(timestamp) + ";"@ + signed_decimal_digits(timestamp + 3600)
}

/// The value of the `Authorization` header of a request to the object
/// storage, valid for one hour from `timestamp`.
pub open spec fn cos_authorization(
    secret_id: Seq<char>,
    secret_key: Seq<char>,
    method: Seq<char>,
    object_key: Seq<char>,
    headers: Seq<(Seq<char>, Seq<char>)>,
    timestamp: int,
) -> Seq<char> {
    let window = key_time(timestamp);
    let sign_key = hex_text(hmac_sha1_code(encode_utf8(secret_key), encode_utf8(window)));
    let to_sign = "sha1\n"@ + window + "\n"@ + hex_text(
        sha1_digest(encode_utf8(http_string(method, object_key, headers))),
    ) + "\n"@;
    let signature = hex_text(hmac_sha1_code(encode_utf8(sign_key), encode_utf8(to_sign)));
    "q-sign-algorithm=sha1&q-ak="@ + secret_id + "&q-sign-time="@ + window + "&q-key-time="@
        + window + "&q-header-list="@ + header_list(headers) + "&q-url-param-list=&q-signature="@
        + signature
}

/// The signature of a request to the object storage depends on nothing
/// but the account, the request and the moment. The order in which the
/// headers are given does not count: lists that hold the same headers,
/// each as often as the other, give the same authorization.
pub proof fn lemma_storage_authorization_deterministic(
    secret_id: Seq<char>,
    secret_key: Seq<char>,
    method: Seq<char>,
    object_key: Seq<char>,
    headers: Seq<(Seq<char>, Seq<char>)>,
    other_headers: Seq<(Seq<char>, Seq<char>)>,
    timestamp: int,
)
    requires
        headers.to_multiset() == other_headers.to_multiset(),
    ensures
        header_string(headers) == header_string(other_headers),
        header_list(headers) == header_list(other_headers),
        cos_authorization(secret_id, secret_key, method, object_key, headers, timestamp)
            == cos_authorization(
            secret_id,
            secret_key,
            method,
            object_key,
            other_headers,
            timestamp,
        ),
{
    let signed = |h: (Seq<char>, Seq<char>)| (lowercase_text(h.0), url_encoded(h.1));
    let name = |h: (Seq<char>, Seq<char>)| lowercase_text(h.0);
    lemma_map_any_order(headers, other_headers, signed);
    lemma_map_any_order(headers, other_headers, name);
    lemma_sort_pairs_any_order(signed_pairs(headers), signed_pairs(other_headers));
    lemma_sort_any_order(header_names(headers), header_names(other_headers));
}

/// The sorted headers are the one list that stands in the order of pairs
/// and holds the signed headers, each as often as they occur.
pub proof fn lemma_sorted_headers_are(
    headers: Seq<(Seq<char>, Seq<char>)>,
    sorted: Seq<(Seq<char>, Seq<char>)>,
)
    requires
        sorted_by(sorted, pair_order()),
        sorted.to_multiset() == signed_pairs(headers).to_multiset(),
    ensures
        sorted_headers(headers) == sorted,
{
    lemma_pair_order_total();
    lemma_sort_pairs_ordered(signed_pairs(headers));
    vstd::seq_lib::lemma_sorted_unique(sorted_headers(headers), sorted, pair_order());
}

/// The header lines stand in the order of the list of names: the names of
/// the sorted headers, one after the other, are the sorted names.
pub proof fn lemma_header_lines_follow_names(headers: Seq<(Seq<char>, Seq<char>)>)
    ensures
        sorted_headers(headers).map_values(|p: (Seq<char>, Seq<char>)| p.0) == sort_texts(
            header_names(headers),
        ),
{
    let first = |p: (Seq<char>, Seq<char>)| p.0;
    let sorted = sorted_headers(headers);
    let names = sorted.map_values(first);
    lemma_sort_pairs_ordered(signed_pairs(headers));
    lemma_map_any_order(sorted, signed_pairs(headers), first);
    assert(signed_pairs(headers).map_values(first) =~= header_names(headers));
    assert forall|i: int, j: int| 0 <= i < j < names.len() implies text_le(names[i], names[j]) by {
        assert(pair_order()(sorted[i], sorted[j]));
        if sorted[i].0 == sorted[j].0 {
            lemma_order_reflexive(sorted[i].0);
        }
    }
    lemma_sort_ordered(header_names(headers));
    lemma_sorted_unique(names, sort_texts(header_names(headers)));
}

/// The diagnostic of a signature whose time window ends after the last
/// moment that can be written.
pub const WINDOW_OVERFLOW: &'static str = "签名有效期超出时间范围";

impl CosClient {
    /// A client for the storage that `config` describes.
    pub fn new(config: CosConfig) -> (r: CosClient)
        ensures
            r.config@ == config@,
    {
        CosClient { config }
    }

    /// Encodes a text for a signed header line.
    pub fn url_encode(&self, input: &str) -> (r: String)
        ensures
            r@ == url_encoded(input@),
    {
        let bytes = input.as_bytes();
        let mut out = String::new();
        let mut i: usize = 0;
        assert(bytes@.take(0) =~= Seq::<u8>::empty());
        while i < bytes.len()
            invariant
                i <= bytes.len(),
                out@ == bytes_encoded(bytes@.take(i as int)),
            decreases bytes.len() - i,
        {
            let b = bytes[i];
            proof {
                let done = bytes@.take(i as int + 1);
                assert(done.drop_last() =~= bytes@.take(i as int));
                assert(done.last() == b);
            }
            let c = b as char;
            if char_is_unreserved(c) {
                out.push(c);
            } else {
                out.push('%');
                out.push(upper_hex_char(b / 16));
                out.push(upper_hex_char(b % 16));
            }
            i += 1;
        }
        assert(bytes@.take(bytes.len() as int) =~= bytes@);
        out
    }

    /// The names of the signed headers, in lower case and in the order of
    /// the dictionary, with `;` between them.
    pub fn get_header_list_official(&self, headers: &Vec<(String, String)>) -> (r: String)
        ensures
            r@ == header_list(headers_view(headers@)),
    {
        let mut names: Vec<String> = Vec::new();
        let mut i: usize = 0;
        while i < headers.len()
            invariant
                i <= headers.len(),
                strings_view(names@) == header_names(headers_view(headers@)).take(i as int),
            decreases headers.len() - i,
        {
            let name = lowercase(headers[i].0.as_str());
            let ghost before = names@;
            names.push(name);
            proof {
                assert(strings_view(names@) =~= strings_view(before).push(name@));
                assert(header_names(headers_view(headers@)).take(i as int + 1) =~= header_names(
                    headers_view(headers@),
                ).take(i as int).push(lowercase_text(headers@[i as int].0@)));
            }
            i += 1;
        }
        assert(header_names(headers_view(headers@)).take(headers.len() as int) =~= header_names(
            headers_view(headers@),
        ));
        let sorted = sort_strings(names);
        join_strings(&sorted, ";")
    }

    /// The lines of the signed headers, in the order of their names, with
    /// `&` between them.
    pub fn build_header_string_official(&self, headers: &Vec<(String, String)>) -> (r: String)
        ensures
            r@ == header_string(headers_view(headers@)),
    {
        let mut pairs: Vec<(String, String)> = Vec::new();
        let mut i: usize = 0;
        let ghost signed = signed_pairs(headers_view(headers@));
        assert(pairs_view(pairs@) =~= signed.take(0));
        while i < headers.len()
            invariant
                i <= headers.len(),
                signed == signed_pairs(headers_view(headers@)),
                pairs_view(pairs@) == signed.take(i as int),
            decreases headers.len() - i,
        {
            let name = lowercase(headers[i].0.as_str());
            let value = self.url_encode(headers[i].1.as_str());
            let ghost before = pairs@;
            pairs.push((name, value));
            proof {
                assert(pairs_view(pairs@) =~= pairs_view(before).push((name@, value@)));
                assert(signed.take(i as int + 1) =~= signed.take(i as int).push(
                    (lowercase_text(headers@[i as int].0@), url_encoded(headers@[i as int].1@)),
                ));
            }
            i += 1;
        }
        assert(signed.take(headers.len() as int) =~= signed);
        let sorted = sort_string_pairs(pairs);
        let ghost ordered_pairs = pairs_view(sorted@);
        let mut lines: Vec<String> = Vec::new();
        let mut k: usize = 0;
        assert(strings_view(lines@) =~= header_lines(ordered_pairs).take(0));
        while k < sorted.len()
            invariant
                k <= sorted.len(),
                ordered_pairs == pairs_view(sorted@),
                strings_view(lines@) == header_lines(ordered_pairs).take(k as int),
            decreases sorted.len() - k,
        {
            let mut line = sorted[k].0.clone();
            line.append("=");
            line.append(sorted[k].1.as_str());
            let ghost before = lines@;
            lines.push(line);
            proof {
                assert(strings_view(lines@) =~= strings_view(before).push(line@));
                assert(header_lines(ordered_pairs).take(k as int + 1) =~= header_lines(
                    ordered_pairs,
                ).take(k as int).push(sorted@[k as int].0@ + "="@ + sorted@[k as int].1@));
            }
            k += 1;
        }
        assert(header_lines(ordered_pairs).take(sorted.len() as int) =~= header_lines(
            ordered_pairs,
        ));
        join_strings(&lines, "&")
    }

    /// The description of a request that is signed.
    pub fn build_http_string_official(
        &self,
        method: &str,
        object_key: &str,
        headers: &Vec<(String, String)>,
    ) -> (r: Result<String, String>)
        ensures
            r is Ok,
            r->Ok_0@ == http_string(method@, object_key@, headers_view(headers@)),
    {
        let mut out = lowercase(method);
        out.append("\n/");
        out.append(object_key);
        out.append("\n\n");
        let lines = self.build_header_string_official(headers);
        out.append(lines.as_str());
        out.append("\n");
        Ok(out)
    }

    /// Signs a request to the object storage for one hour from
    /// `timestamp`. A window that ends after the last moment that can be
    /// written is refused.
    pub fn generate_authorization(
        &self,
        method: &str,
        object_key: &str,
        headers: &Vec<(String, String)>,
        timestamp: i64,
    ) -> (r: Result<String, String>)
        ensures
            match r {
                Ok(s) => timestamp + 3600 <= i64::MAX && s@ == cos_authorization(
                    self.config.secret_id@,
                    self.config.secret_key@,
                    method@,
                    object_key@,
                    headers_view(headers@),
                    timestamp as int,
                ),
                Err(e) => timestamp + 3600 > i64::MAX && e@ == WINDOW_OVERFLOW@,
            },
    {
        if timestamp > i64::MAX - 3600 {
            return Err(String::from_str(WINDOW_OVERFLOW));
        }
        let expire_time = timestamp + 3600;
        let mut window = signed_decimal(timestamp);
        let end = signed_decimal(expire_time);
        window.append(";");
        window.append(end.as_str());

        let sign_key = hmac_sha1_hex(self.config.secret_key.as_str().as_bytes(), window.as_str());
        let described = match self.build_http_string_official(method, object_key, headers) {
            Ok(s) => s,
            Err(e) => {
                return Err(e);
            },
        };
        let hashed = sha1_hash(described.as_str());
        let mut to_sign = String::from_str("sha1\n");
        to_sign.append(window.as_str());
        to_sign.append("\n");
        to_sign.append(hashed.as_str());
        to_sign.append("\n");
        let signature = hmac_sha1_hex(sign_key.as_str().as_bytes(), to_sign.as_str());
        let names = self.get_header_list_official(headers);

        let mut out = String::from_str("q-sign-algorithm=sha1&q-ak=");
        out.append(self.config.secret_id.as_str());
        out.append("&q-sign-time=");
        out.append(window.as_str());
        out.append("&q-key-time=");
        out.append(window.as_str());
        out.append("&q-header-list=");
        out.append(names.as_str());
        out.append("&q-url-param-list=&q-signature=");
        out.append(signature.as_str());
        Ok(out)
    }
}

/// An upload or a deletion that is ready to be sent: the method goes to
/// `url` with the three headers `Host`, `Date` and `Authorization`, and an
/// upload with the header `Content-Type` and the file as its content.
#[derive(Debug, Clone)]
pub struct StorageRequest {
    pub url: String,
    pub object_key: String,
    pub host: String,
    pub date: String,
    /// The content type of an upload; empty for a deletion.
    pub content_type: String,
    pub authorization: String,
}

/// The contents of a [`StorageRequest`].
pub struct StorageRequestView {
    pub url: Seq<char>,
    pub object_key: Seq<char>,
    pub host: Seq<char>,
    pub date: Seq<char>,
    pub content_type: Seq<char>,
    pub authorization: Seq<char>,
}

impl View for StorageRequest {
    type V = StorageRequestView;

    open spec fn view(&self) -> StorageRequestView {
        StorageRequestView {
            url: self.url@,
            object_key: self.object_key@,
            host: self.host@,
            date: self.date@,
            content_type: self.content_type@,
            authorization: self.authorization@,
        }
    }
}

/// A storage request or a diagnostic, by contents.
pub open spec fn storage_request_view(r: Result<StorageRequest, String>) -> Result<
    StorageRequestView,
    Seq<char>,
> {
    match r {
        Ok(request) => Ok(request@),
        Err(e) => Err(e@),
    }
}

/// The host of a bucket in a region.
pub open spec fn bucket_host(bucket: Seq<char>, region: Seq<char>) -> Seq<char> {
    bucket + ".cos."@ + region + ".myqcloud.com"@
}

/// The key under which an uploaded file is stored: a folder of its own,
/// named by `unique`, under `audio`.
pub open spec fn upload_key(unique: Seq<char>, file_name: Seq<char>) -> Seq<char> {
    "audio/"@ + unique + "/"@ + file_name
}

/// The diagnostic of a moment that has no calendar day.
pub const NO_DATE: &'static str = "无效的时间戳";

/// The request that does `method` to the object `object_key` at the
/// moment `timestamp`, with the content type `content_type` where it is
/// not empty; a diagnostic where the moment has no calendar day or the
/// signature's window cannot be written.
pub open spec fn storage_request(
    config: CosConfigView,
    method: Seq<char>,
    object_key: Seq<char>,
    content_type: Seq<char>,
    timestamp: int,
) -> Result<StorageRequestView, Seq<char>> {
    let host = bucket_host(config.bucket, config.region);
    match http_date_text(timestamp) {
        None => Err(NO_DATE@),
        Some(date) => if timestamp + 3600 > i64::MAX {
            Err(WINDOW_OVERFLOW@)
        } else {
            let basic = seq![("Host"@, host), ("Date"@, date)];
            let headers = if content_type.len() == 0 {
                basic
            } else {
                basic.push(("Content-Type"@, content_type))
            };
            Ok(
                StorageRequestView {
                    url: "https://"@ + host + "/"@ + object_key,
                    object_key,
                    host,
                    date,
                    content_type,
                    authorization: cos_authorization(
                        config.secret_id,
                        config.secret_key,
                        method,
                        object_key,
                        headers,
                        timestamp,
                    ),
                },
            )
        },
    }
}

/// What became of an upload or a deletion that was sent.
#[derive(Debug, Clone, Copy, PartialEq, Eq, Structural)]
pub enum Transport {
    /// No connection could be made.
    Connect,
    /// The answer did not come in time.
    Timeout,
    /// Any other failure to send or to receive.
    Other,
}

/// The start of the diagnostic of an upload that found no connection.
pub const CONNECT_FAILED: &'static str =
    "COS上传失败: 网络连接错误\n\n可能的原因：\n1. 网络连接不稳定，请检查网络连接\n2. 腾讯云COS服务暂时不可用\n3. 防火墙或代理设置阻止了连接\n4. DNS解析问题\n\n建议：\n- 检查网络连接是否正常\n- 尝试使用Whisper本地识别（不需要网络）\n- 稍后重试\n\n详细错误: ";

/// The start of the diagnostic of an upload that timed out.
pub const TIMED_OUT_START: &'static str = "COS上传失败: 请求超时\n\n文件大小: ";

/// The end of the diagnostic of an upload that timed out, up to the
/// detail.
pub const TIMED_OUT_END: &'static str =
    " MB\n可能原因：网络速度较慢或文件过大\n\n建议：\n- 检查网络连接速度\n- 尝试使用Whisper本地识别\n- 压缩音频文件后重试\n\n详细错误: ";

/// The diagnostic of an upload of `size` bytes that could not be sent:
/// likely causes, what can be done instead, and the detail.
pub open spec fn upload_failure(transport: Transport, size: nat, detail: Seq<char>) -> Seq<char> {
    match transport {
        Transport::Connect => CONNECT_FAILED@ + detail,
        Transport::Timeout => TIMED_OUT_START@ + one_decimal_text(size, MEGABYTE as nat)
            + TIMED_OUT_END@ + detail,
        Transport::Other => "上传文件到COS失败: "@ + detail,
    }
}

/// Writes the diagnostic of an upload that could not be sent.
pub fn upload_failure_text(transport: Transport, size: u64, detail: &str) -> (r: String)
    ensures
        r@ == upload_failure(transport, size as nat, detail@),
{
    match transport {
        Transport::Connect => {
            let mut out = String::from_str(CONNECT_FAILED);
            out.append(detail);
            out
        },
        Transport::Timeout => {
            let megabytes = one_decimal(size, MEGABYTE);
            let mut out = String::from_str(TIMED_OUT_START);
            out.append(megabytes.as_str());
            out.append(TIMED_OUT_END);
            out.append(detail);
            out
        },
        Transport::Other => {
            let mut out = String::from_str("上传文件到COS失败: ");
            out.append(detail);
            out
        },
    }
}

/// The start of the diagnostic of an upload that was refused.
pub const FORBIDDEN_START: &'static str =
    "COS上传失败: 权限被拒绝 (HTTP 403)\n\n可能的原因：\n1. 存储桶权限设置不正确，请设置为'公有读私有写'\n2. API密钥缺少COS操作权限\n3. 存储桶名称或地域配置错误\n4. 存储桶不存在或已被删除\n\n当前配置：\n- 存储桶: ";

/// The start of the diagnostic of an upload to a bucket that is not there.
pub const MISSING_START: &'static str =
    "COS上传失败: 存储桶不存在 (HTTP 404)\n\n请检查：\n1. 存储桶名称是否正确: ";

/// The URL under which an uploaded object can be read: under the host of
/// one's own where one is configured, else where it was put.
pub open spec fn access_url(config: CosConfigView, url: Seq<char>, object_key: Seq<char>) -> Seq<
    char,
> {
    match config.domain {
        Some(domain) => "https://"@ + domain + "/"@ + object_key,
        None => url,
    }
}

/// Whether an HTTP status says that the request succeeded.
pub open spec fn is_success(status: u16) -> bool {
    200 <= status <= 299
}

/// What the answer to an upload means: the URL of the object where the
/// status says success, else a diagnostic with the status, the
/// configuration that may be at fault, and the answer's text.
pub open spec fn upload_result(
    config: CosConfigView,
    url: Seq<char>,
    object_key: Seq<char>,
    status: u16,
    body: Seq<char>,
) -> Result<Seq<char>, Seq<char>> {
    if is_success(status) {
        Ok(access_url(config, url, object_key))
    } else if status == 403 {
        Err(
            FORBIDDEN_START@ + config.bucket + "\n- 地域: "@ + config.region + "\n- 上传URL: "@
                + url + "\n\n详细错误: "@ + body,
        )
    } else if status == 404 {
        Err(
            MISSING_START@ + config.bucket + "\n2. 地域是否正确: "@ + config.region
                + "\n3. 存储桶是否已创建\n\n详细错误: "@ + body,
        )
    } else {
        Err("COS上传失败: HTTP "@ + decimal_digits(status as nat) + ", "@ + body)
    }
}

/// What the answer to a deletion means.
pub open spec fn delete_result(status: u16, body: Seq<char>) -> Result<(), Seq<char>> {
    if is_success(status) {
        Ok(())
    } else {
        Err("COS删除失败: HTTP "@ + decimal_digits(status as nat) + ", "@ + body)
    }
}

impl CosClient {
    /// The host of the configured bucket.
    pub fn host(&self) -> (r: String)
        ensures
            r@ == bucket_host(self.config.bucket@, self.config.region@),
    {
        let mut host = self.config.bucket.clone();
        host.append(".cos.");
        host.append(self.config.region.as_str());
        host.append(".myqcloud.com");
        host
    }

    /// Builds the signed request that does `method` to an object. An empty
    /// `content_type` stands for a request without a content type.
    pub fn build_request(
        &self,
        method: &str,
        object_key: &str,
        content_type: &str,
        timestamp: i64,
    ) -> (r: Result<StorageRequest, String>)
        ensures
            storage_request_view(r) == storage_request(
                self.config@,
                method@,
                object_key@,
                content_type@,
                timestamp as int,
            ),
    {
        let host = self.host();
        let date = match http_date(timestamp) {
            Some(d) => d,
            None => {
                return Err(String::from_str(NO_DATE));
            },
        };
        let mut headers: Vec<(String, String)> = Vec::new();
        headers.push((String::from_str("Host"), host.clone()));
        headers.push((String::from_str("Date"), date.clone()));
        let has_type = !content_type.is_empty();
        if has_type {
            headers.push((String::from_str("Content-Type"), String::from_str(content_type)));
        }
        proof {
            let basic = seq![("Host"@, host@), ("Date"@, date@)];
            if has_type {
                assert(headers_view(headers@) =~= basic.push(("Content-Type"@, content_type@)));
            } else {
                assert(headers_view(headers@) =~= basic);
            }
        }
        let authorization = match self.generate_authorization(
            method,
            object_key,
            &headers,
            timestamp,
        ) {
            Ok(a) => a,
            Err(e) => {
                return Err(e);
            },
        };
        let mut url = String::from_str("https://");
        url.append(host.as_str());
        url.append("/");
        url.append(object_key);
        Ok(
            StorageRequest {
                url,
                object_key: String::from_str(object_key),
                host,
                date,
                content_type: String::from_str(content_type),
                authorization,
            },
        )
    }

    /// Builds the signed request that uploads a file. `unique` names the
    /// folder that the file gets for itself.
    pub fn upload_request(
        &self,
        file_name: &str,
        content_type: &str,
        unique: &str,
        timestamp: i64,
    ) -> (r: Result<StorageRequest, String>)
        ensures
            storage_request_view(r) == storage_request(
                self.config@,
                "PUT"@,
                upload_key(unique@, file_name@),
                content_type@,
                timestamp as int,
            ),
    {
        let mut key = String::from_str("audio/");
        key.append(unique);
        key.append("/");
        key.append(file_name);
        self.build_request("PUT", key.as_str(), content_type, timestamp)
    }

    /// Builds the signed request that deletes an object.
    pub fn delete_request(&self, object_key: &str, timestamp: i64) -> (r: Result<
        StorageRequest,
        String,
    >)
        ensures
            storage_request_view(r) == storage_request(
                self.config@,
                "DELETE"@,
                object_key@,
                ""@,
                timestamp as int,
            ),
    {
        self.build_request("DELETE", object_key, "", timestamp)
    }

    /// Reads the answer to an upload.
    pub fn read_upload_answer(&self, url: &str, object_key: &str, status: u16, body: &str) -> (r:
        Result<String, String>)
        ensures
            match r {
                Ok(s) => upload_result(self.config@, url@, object_key@, status, body@) == Ok::<
                    Seq<char>,
                    Seq<char>,
                >(s@),
                Err(e) => upload_result(self.config@, url@, object_key@, status, body@) == Err::<
                    Seq<char>,
                    Seq<char>,
                >(e@),
            },
    {
        if 200 <= status && status <= 299 {
            match &self.config.domain {
                Some(domain) => {
                    let mut out = String::from_str("https://");
                    out.append(domain.as_str());
                    out.append("/");
                    out.append(object_key);
                    Ok(out)
                },
                None => Ok(String::from_str(url)),
            }
        } else if status == 403 {
            let mut out = String::from_str(FORBIDDEN_START);
            out.append(self.config.bucket.as_str());
            out.append("\n- 地域: ");
            out.append(self.config.region.as_str());
            out.append("\n- 上传URL: ");
            out.append(url);
            out.append("\n\n详细错误: ");
            out.append(body);
            Err(out)
        } else if status == 404 {
            let mut out = String::from_str(MISSING_START);
            out.append(self.config.bucket.as_str());
            out.append("\n2. 地域是否正确: ");
            out.append(self.config.region.as_str());
            out.append("\n3. 存储桶是否已创建\n\n详细错误: ");
            out.append(body);
            Err(out)
        } else {
            let code = decimal(status as u64);
            let mut out = String::from_str("COS上传失败: HTTP ");
            out.append(code.as_str());
            out.append(", ");
            out.append(body);
            Err(out)
        }
    }

    /// Reads the answer to a deletion.
    pub fn read_delete_answer(&self, status: u16, body: &str) -> (r: Result<(), String>)
        ensures
            match r {
                Ok(_) => delete_result(status, body@) == Ok::<(), Seq<char>>(()),
                Err(e) => delete_result(status, body@) == Err::<(), Seq<char>>(e@),
            },
    {
        if 200 <= status && status <= 299 {
            Ok(())
        } else {
            let code = decimal(status as u64);
            let mut out = String::from_str("COS删除失败: HTTP ");
            out.append(code.as_str());
            out.append(", ");
            out.append(body);
            Err(out)
        }
    }
}

/// Calls `mime_guess::from_path` and takes the first guess, or
/// `application/octet-stream` where there is none. The guess goes by the
/// extension of the path, which depends on the platform, so nothing is
/// claimed of the result.
#[verifier::external_body]
pub(crate) fn guess_content_type(file_name: &str) -> (r: String) {
    mime_guess::from_path(file_name).first_or_octet_stream().to_string()
}

/// The content type of an upload: the one that is given, else a guess by
/// the file's name.
pub fn content_type_for(file_name: &str, given: Option<&str>) -> (r: String)
    ensures
        given matches Some(t) ==> r@ == t@,
{
    match given {
        Some(t) => String::from_str(t),
        None => guess_content_type(file_name),
    }
}

/// The value of the header that is called `name`: that of the first
/// header of exactly this name, else that of the first header whose name
/// in lower case is `name`.
pub open spec fn header_value(headers: Seq<(Seq<char>, Seq<char>)>, name: Seq<char>) -> Option<
    Seq<char>,
> {
    match first_value(headers, name, false) {
        Some(v) => Some(v),
        None => first_value(headers, name, true),
    }
}

/// The value of the first header whose name, as it is or in lower case,
/// is `name`.
pub open spec fn first_value(
    headers: Seq<(Seq<char>, Seq<char>)>,
    name: Seq<char>,
    lowered: bool,
) -> Option<Seq<char>>
    decreases headers.len(),
{
    if headers.len() == 0 {
        None
    } else if (if lowered {
        lowercase_text(headers[0].0)
    } else {
        headers[0].0
    }) == name {
        Some(headers[0].1)
    } else {
        first_value(headers.drop_first(), name, lowered)
    }
}

/// The header lines for the first `n` of a list of names: for each name
/// that has a value, the name, an equals sign and the trimmed value.
pub open spec fn listed_pairs(
    headers: Seq<(Seq<char>, Seq<char>)>,
    names: Seq<Seq<char>>,
    n: nat,
) -> Seq<Seq<char>>
    decreases n,
{
    if n == 0 || n > names.len() {
        Seq::empty()
    } else {
        let before = listed_pairs(headers, names, (n - 1) as nat);
        match header_value(headers, names[n - 1]) {
            Some(v) => before.push(names[n - 1] + "="@ + trim(v)),
            None => before,
        }
    }
}

/// The header lines for the names of a list in which `;` stands between
/// the names, with `&` between the lines.
pub open spec fn listed_header_string(headers: Seq<(Seq<char>, Seq<char>)>, list: Seq<char>) -> Seq<
    char,
> {
    let names = split(list, ";"@);
    join(listed_pairs(headers, names, names.len()), "&"@)
}

fn find_value(headers: &Vec<(String, String)>, name: &str, lowered: bool) -> (r: Option<usize>)
    ensures
        match r {
            Some(i) => i < headers.len() && first_value(headers_view(headers@), name@, lowered)
                == Some(headers@[i as int].1@),
            None => first_value(headers_view(headers@), name@, lowered) is None,
        },
{
    let mut i: usize = 0;
    assert(headers_view(headers@).skip(0) =~= headers_view(headers@));
    while i < headers.len()
        invariant
            i <= headers.len(),
            first_value(headers_view(headers@), name@, lowered) == first_value(
                headers_view(headers@).skip(i as int),
                name@,
                lowered,
            ),
        decreases headers.len() - i,
    {
        proof {
            assert(headers_view(headers@).skip(i as int).drop_first() =~= headers_view(
                headers@,
            ).skip(i as int + 1));
            assert(headers_view(headers@).skip(i as int)[0] == (
                headers@[i as int].0@,
                headers@[i as int].1@,
            ));
        }
        let found = if lowered {
            let low = lowercase(headers[i].0.as_str());
            same_text(low.as_str(), name)
        } else {
            same_text(headers[i].0.as_str(), name)
        };
        if found {
            return Some(i);
        }
        i += 1;
    }
    None
}

impl CosClient {
    /// The names of the headers, in lower case and in the order of the
    /// dictionary, with `;` between them.
    pub fn get_header_list(&self, headers: &Vec<(String, String)>) -> (r: String)
        ensures
            r@ == header_list(headers_view(headers@)),
    {
        self.get_header_list_official(headers)
    }

    /// The header lines for the names in `header_list`, in the order of
    /// that list: each name with the trimmed value of the header of that
    /// name, the case of its letters aside. A name without a header is
    /// passed over.
    pub fn build_header_string(&self, headers: &Vec<(String, String)>, header_list: &str) -> (r:
        String)
        ensures
            r@ == listed_header_string(headers_view(headers@), header_list@),
    {
        let list = chars_of(header_list);
        let sep = chars_of(";");
        proof {
            reveal_strlit(";");
        }
        let names = split_text(&list, &sep);
        let mut pairs: Vec<String> = Vec::new();
        let mut i: usize = 0;
        assert(strings_view(pairs@) =~= Seq::empty());
        while i < names.len()
            invariant
                i <= names.len(),
                strings_view(pairs@) == listed_pairs(headers_view(headers@), texts(names@), i as nat),
            decreases names.len() - i,
        {
            let name = string_of(&names[i]);
            let exact = find_value(headers, name.as_str(), false);
            let place = match exact {
                Some(k) => Some(k),
                None => find_value(headers, name.as_str(), true),
            };
            match place {
                Some(k) => {
                    let value = trimmed(headers[k].1.as_str());
                    let mut pair = name;
                    pair.append("=");
                    pair.append(value.as_str());
                    let ghost before = pairs@;
                    pairs.push(pair);
                    assert(strings_view(pairs@) =~= strings_view(before).push(pair@));
                },
                None => {},
            }
            i += 1;
        }
        join_strings(&pairs, "&")
    }
}

/// The path of a URL, or nothing where the text is no URL.
pub uninterp spec fn url_path_text(url: Seq<char>) -> Option<Seq<char>>;

/// Calls `Url::parse` of the crate url and hands back the `path` of the
/// URL, or nothing where the text is refused. The result is here only
/// given a name.
#[verifier::external_body]
pub(crate) fn url_path(url: &str) -> (r: Option<String>)
    ensures
        match r {
            Some(p) => url_path_text(url@) == Some(p@),
            None => url_path_text(url@) is None,
        },
{
    match url::Url::parse(url) {
        Ok(parsed) => Some(parsed.path().to_owned()),
        Err(_) => None,
    }
}

/// The key of the object that a path names: the path without the slash
/// at its start, if it starts with one.
pub open spec fn key_of_path(path: Seq<char>) -> Seq<char> {
    if path.len() > 0 && path[0] == '/' {
        path.skip(1)
    } else {
        path
    }
}

/// Reads the key of an object out of the path of its URL.
pub fn object_key_from_path(path: &str) -> (r: String)
    ensures
        r@ == key_of_path(path@),
{
    let chars = chars_of(path);
    if chars.len() > 0 && chars[0] == '/' {
        assert(chars@.skip(1) =~= chars@.subrange(1, chars.len() as int));
        string_of_range(&chars, 1, chars.len())
    } else {
        String::from_str(path)
    }
}

/// The key of the object that a URL names, or nothing where the text is
/// no URL.
pub fn extract_object_key_from_url(url: &str) -> (r: Option<String>)
    ensures
        match r {
            Some(key) => url_path_text(url@) is Some && key@ == key_of_path(
                url_path_text(url@)->Some_0,
            ),
            None => url_path_text(url@) is None,
        },
{
    match url_path(url) {
        Some(path) => Some(object_key_from_path(path.as_str())),
        None => None,
    }
}

} // verus!
