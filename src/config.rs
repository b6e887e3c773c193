//! The configuration document, which points clients at the other endpoints.

use vstd::prelude::*;

use crate::settings::AppInfo;

verus! {

#[verifier::external_type_specification]
#[verifier::external_body]
pub struct ExJsonError(serde_json::Error);

pub open spec fn small_path() -> Seq<char> {
    "/api/v1/small"@
}

pub open spec fn large_path() -> Seq<char> {
    "/api/v1/large"@
}

pub open spec fn upload_path() -> Seq<char> {
    "/api/v1/upload"@
}

pub open spec fn config_path() -> Seq<char> {
    "/api/v1/config"@
}

/// A character that a JSON string cannot hold as it is.
pub open spec fn needs_json_escape(c: char) -> bool {
    c == '"' || c == '\\' || (c as u32) < 32
}

pub open spec fn is_json_plain(s: Seq<char>) -> bool {
    forall|i: int| 0 <= i < s.len() ==> !needs_json_escape(#[trigger] s[i])
}

/// `s` between double quotes.
pub open spec fn quoted(s: Seq<char>) -> Seq<char> {
    seq!['"'] + s + seq!['"']
}

pub open spec fn hex_digit(d: nat) -> char {
    seq!['0', '1', '2', '3', '4', '5', '6', '7', '8', '9', 'a', 'b', 'c', 'd', 'e', 'f'][d as int]
}

/// How one character is written inside a JSON string: `"` and `\` after a
/// backslash, the control characters with a short escape where JSON has one
/// and as `\u00xx` in lower-case hex otherwise, every other character as it is.
pub open spec fn json_escape_char(c: char) -> Seq<char> {
    let n = c as u32;
    if c == '"' {
        seq!['\\', '"']
    } else if c == '\\' {
        seq!['\\', '\\']
    } else if n == 8 {
        seq!['\\', 'b']
    } else if n == 9 {
        seq!['\\', 't']
    } else if n == 10 {
        seq!['\\', 'n']
    } else if n == 12 {
        seq!['\\', 'f']
    } else if n == 13 {
        seq!['\\', 'r']
    } else if n < 32 {
        seq!['\\', 'u', '0', '0', hex_digit((n / 16) as nat), hex_digit((n % 16) as nat)]
    } else {
        seq![c]
    }
}

/// The characters of `s`, each written as inside a JSON string.
pub open spec fn json_escape(s: Seq<char>) -> Seq<char>
    decreases s.len(),
{
    if s.len() == 0 {
        seq![]
    } else {
        json_escape_char(s[0]) + json_escape(s.drop_first())
    }
}

/// The JSON string literal for `s`.
pub open spec fn json_quoted(s: Seq<char>) -> Seq<char> {
    quoted(json_escape(s))
}

/// Relies on `serde_json::to_string` on a `str`: it writes the string
/// literal into a `Vec`, which cannot fail, escaping `"`, `\` and the
/// characters below U+0020 as its escape table gives and writing every other
/// character as it is.
#[verifier::external_body]
fn json_string(s: &str) -> (r: Result<String, serde_json::Error>)
    ensures
        r is Ok,
        r matches Ok(t) ==> t@ == json_quoted(s@),
{
    serde_json::to_string(s)
}

/// A string with nothing to escape is written as it is.
pub proof fn lemma_plain_escape(s: Seq<char>)
    requires
        is_json_plain(s),
    ensures
        json_escape(s) == s,
    decreases s.len(),
{
    if s.len() > 0 {
        assert(!needs_json_escape(s[0]));
        assert(json_escape_char(s[0]) == seq![s[0]]);
        assert(is_json_plain(s.drop_first())) by {
            assert forall|i: int| 0 <= i < s.drop_first().len() implies !needs_json_escape(
                #[trigger] s.drop_first()[i],
            ) by {
                assert(s.drop_first()[i] == s[i + 1]);
            }
        }
        lemma_plain_escape(s.drop_first());
        assert(s =~= seq![s[0]] + s.drop_first());
    }
}

/// A letter that may follow a backslash in a JSON string, other than `u`.
pub open spec fn is_json_escape_letter(c: char) -> bool {
    c == '"' || c == '\\' || c == '/' || c == 'b' || c == 'f' || c == 'n' || c == 'r' || c == 't'
}

pub open spec fn is_hex_char(c: char) -> bool {
    ('0' <= c && c <= '9') || ('a' <= c && c <= 'f') || ('A' <= c && c <= 'F')
}

/// `t` is what may stand between the quotes of a JSON string: characters
/// other than `"`, `\` and the control characters, and escapes `\x` for an
/// escape letter `x` or `\uXXXX` with four hex digits.
pub open spec fn is_json_string_body(t: Seq<char>) -> bool
    decreases t.len(),
{
    if t.len() == 0 {
        true
    } else if t[0] == '\\' {
        if t.len() >= 2 && is_json_escape_letter(t[1]) {
            is_json_string_body(t.subrange(2, t.len() as int))
        } else if t.len() >= 6 && t[1] == 'u' && is_hex_char(t[2]) && is_hex_char(t[3])
            && is_hex_char(t[4]) && is_hex_char(t[5]) {
            is_json_string_body(t.subrange(6, t.len() as int))
        } else {
            false
        }
    } else {
        t[0] != '"' && (t[0] as u32) >= 32 && is_json_string_body(t.subrange(1, t.len() as int))
    }
}

/// Escaping any string gives a valid JSON string body, so `json_quoted(s)`
/// is one JSON string literal: its closing quote is the first bare one.
pub proof fn lemma_escape_is_string_body(s: Seq<char>)
    ensures
        is_json_string_body(json_escape(s)),
    decreases s.len(),
{
    if s.len() > 0 {
        let c = s[0];
        let n = c as u32;
        let e = json_escape_char(c);
        let rest = json_escape(s.drop_first());
        lemma_escape_is_string_body(s.drop_first());
        let t = e + rest;
        assert(json_escape(s) == t);
        assert(t.subrange(e.len() as int, t.len() as int) =~= rest);
        if n < 32 && n != 8 && n != 9 && n != 10 && n != 12 && n != 13 {
            assert(n / 16 < 2);
            assert(is_hex_char(hex_digit((n / 16) as nat)));
            assert(is_hex_char(hex_digit((n % 16) as nat)));
            assert(t[2] == '0' && t[3] == '0');
            assert(t[4] == hex_digit((n / 16) as nat));
            assert(t[5] == hex_digit((n % 16) as nat));
        }
        assert(t[0] == e[0]);
        if e.len() >= 2 {
            assert(t[1] == e[1]);
        }
    }
}

/// The document, given the three URLs already written as JSON strings.
pub open spec fn config_text(small: Seq<char>, large: Seq<char>, upload: Seq<char>) -> Seq<char> {
    "{\"version\":1,\"urls\":{\"small_download_url\":"@ + small + ",\"large_download_url\":"@
        + large + ",\"upload_url\":"@ + upload + "}}"@
}

/// The URL of the endpoint at `path`.
pub open spec fn endpoint_url(info: AppInfo, path: Seq<char>) -> Seq<char> {
    info.url() + path
}

/// The document that describes `info`.
pub open spec fn config_of(info: AppInfo) -> Seq<char> {
    config_text(
        json_quoted(endpoint_url(info, small_path())),
        json_quoted(endpoint_url(info, large_path())),
        json_quoted(endpoint_url(info, upload_path())),
    )
}

/// Builds the document from the three URLs, each already written as a JSON
/// string: version 1, then the small, large and upload URLs in that order.
pub fn config_document(small: &str, large: &str, upload: &str) -> (r: String)
    ensures
        r@ == config_text(small@, large@, upload@),
{
    let mut out = String::from_str("{\"version\":1,\"urls\":{\"small_download_url\":");
    out.append(small);
    out.append(",\"large_download_url\":");
    out.append(large);
    out.append(",\"upload_url\":");
    out.append(upload);
    out.append("}}");
    out
}

fn endpoint(info: &AppInfo, path: &str) -> (r: String)
    ensures
        r@ == endpoint_url(*info, path@),
{
    let mut url = info.base_url();
    url.append(path);
    url
}

fn quote(s: &String) -> (r: String)
    ensures
        r@ == json_quoted(s@),
{
    match json_string(s.as_str()) {
        Ok(t) => t,
        Err(_) => String::new(),
    }
}

/// The configuration document for `info`, as JSON text. Where the URLs need
/// no escaping, they stand in it verbatim between quotes.
pub fn config(info: &AppInfo) -> (r: String)
    ensures
        r@ == config_of(*info),
        is_json_plain(info.url()) ==> r@ == config_text(
            quoted(endpoint_url(*info, small_path())),
            quoted(endpoint_url(*info, large_path())),
            quoted(endpoint_url(*info, upload_path())),
        ),
{
    let small_url = endpoint(info, "/api/v1/small");
    let large_url = endpoint(info, "/api/v1/large");
    let upload_url = endpoint(info, "/api/v1/upload");
    proof {
        if is_json_plain(info.url()) {
            lemma_plain_endpoint(*info, small_path());
            lemma_plain_endpoint(*info, large_path());
            lemma_plain_endpoint(*info, upload_path());
            lemma_plain_escape(endpoint_url(*info, small_path()));
            lemma_plain_escape(endpoint_url(*info, large_path()));
            lemma_plain_escape(endpoint_url(*info, upload_path()));
        }
    }
    let small = quote(&small_url);
    let large = quote(&large_url);
    let upload = quote(&upload_url);
    config_document(small.as_str(), large.as_str(), upload.as_str())
}

/// The endpoint paths need no escaping, so an endpoint URL needs none where
/// its base needs none.
proof fn lemma_plain_endpoint(info: AppInfo, path: Seq<char>)
    requires
        is_json_plain(info.url()),
        path == small_path() || path == large_path() || path == upload_path(),
    ensures
        is_json_plain(endpoint_url(info, path)),
{
    reveal_strlit("/api/v1/small");
    reveal_strlit("/api/v1/large");
    reveal_strlit("/api/v1/upload");
    let u = endpoint_url(info, path);
    assert forall|i: int| 0 <= i < u.len() implies !needs_json_escape(#[trigger] u[i]) by {
        if i < info.url().len() {
            assert(u[i] == info.url()[i]);
        } else {
            assert(u[i] == path[i - info.url().len()]);
        }
    }
}

/// Each advertised URL ends with its endpoint's path, after the base URL
/// that the settings describe.
pub proof fn lemma_urls_end_with_paths(info: AppInfo)
    ensures
        endpoint_url(info, small_path()).subrange(0, info.url().len() as int) == info.url(),
        endpoint_url(info, small_path()).subrange(
            info.url().len() as int,
            endpoint_url(info, small_path()).len() as int,
        ) == small_path(),
        endpoint_url(info, large_path()).subrange(
            info.url().len() as int,
            endpoint_url(info, large_path()).len() as int,
        ) == large_path(),
        endpoint_url(info, upload_path()).subrange(
            info.url().len() as int,
            endpoint_url(info, upload_path()).len() as int,
        ) == upload_path(),
{
    let u = info.url();
    assert(endpoint_url(info, small_path()).subrange(0, u.len() as int) =~= u);
    assert(endpoint_url(info, small_path()).subrange(
        u.len() as int,
        endpoint_url(info, small_path()).len() as int,
    ) =~= small_path());
    assert(endpoint_url(info, large_path()).subrange(
        u.len() as int,
        endpoint_url(info, large_path()).len() as int,
    ) =~= large_path());
    assert(endpoint_url(info, upload_path()).subrange(
        u.len() as int,
        endpoint_url(info, upload_path()).len() as int,
    ) =~= upload_path());
}

/// The document depends on the settings alone: two settings that describe
/// the same base URL give the same document, byte for byte.
pub proof fn lemma_config_deterministic(a: AppInfo, b: AppInfo)
    requires
        a.protocol@ == b.protocol@,
        a.hostname@ == b.hostname@,
        a.port == b.port,
    ensures
        config_of(a) == config_of(b),
{
}

/// The document is the fixed frame `{"version":1,"urls":{...}}` whose
/// `urls` object holds exactly `small_download_url`, `large_download_url` and
/// `upload_url`, in that order, each valued by one JSON string literal: the
/// escaped endpoint URL between quotes.
pub proof fn lemma_config_shape(info: AppInfo)
    ensures
        config_of(info) == config_text(
            quoted(json_escape(endpoint_url(info, small_path()))),
            quoted(json_escape(endpoint_url(info, large_path()))),
            quoted(json_escape(endpoint_url(info, upload_path()))),
        ),
        is_json_string_body(json_escape(endpoint_url(info, small_path()))),
        is_json_string_body(json_escape(endpoint_url(info, large_path()))),
        is_json_string_body(json_escape(endpoint_url(info, upload_path()))),
{
    lemma_escape_is_string_body(endpoint_url(info, small_path()));
    lemma_escape_is_string_body(endpoint_url(info, large_path()));
    lemma_escape_is_string_body(endpoint_url(info, upload_path()));
}

} // verus!
