//! Decisions of the web server: authentication, throttling, routing.
use vstd::prelude::*;
use vstd::string::*;
use vstd::utf8::{decode_utf8, valid_utf8};
use openssl::error::ErrorStack;

use crate::util::{hex_decode, hex_encode, hex_value, law_hex_roundtrip, read_bytes};
use crate::server::config::Config;

pub mod throttle;
pub mod config;
pub mod http;
pub mod https;
pub mod api;

verus! {

/// The HTTP status codes that the server's decisions produce.
#[allow(non_camel_case_types)]
#[derive(Debug, Clone, Copy, PartialEq, Eq, Structural)]
pub enum StatusCode {
    OK,
    ACCEPTED,
    BAD_REQUEST,
    UNAUTHORIZED,
    FORBIDDEN,
    TOO_MANY_REQUESTS,
    INTERNAL_SERVER_ERROR,
}

impl StatusCode {
    /// The numeric code that HTTP gives the status.
    pub open spec fn code(self) -> u16 {
        match self {
            StatusCode::OK => 200,
            StatusCode::ACCEPTED => 202,
            StatusCode::BAD_REQUEST => 400,
            StatusCode::UNAUTHORIZED => 401,
            StatusCode::FORBIDDEN => 403,
            StatusCode::TOO_MANY_REQUESTS => 429,
            StatusCode::INTERNAL_SERVER_ERROR => 500,
        }
    }

    /// The numeric HTTP code of the status.
    pub fn as_u16(&self) -> (c: u16)
        ensures
            c == self.code(),
    {
        match self {
            StatusCode::OK => 200,
            StatusCode::ACCEPTED => 202,
            StatusCode::BAD_REQUEST => 400,
            StatusCode::UNAUTHORIZED => 401,
            StatusCode::FORBIDDEN => 403,
            StatusCode::TOO_MANY_REQUESTS => 429,
            StatusCode::INTERNAL_SERVER_ERROR => 500,
        }
    }
}


// ---------------------------------------------------------------------------
// Outside items used to authenticate requests
// ---------------------------------------------------------------------------

#[verifier::external_type_specification]
#[verifier::external_body]
pub struct ExUtf8Error(core::str::Utf8Error);

/// `core::str::from_utf8` reads `v` as UTF-8 text: it succeeds exactly when
/// `v` is valid UTF-8, and then gives the text that `v` encodes.
pub assume_specification<'a>[ core::str::from_utf8 ](v: &'a [u8]) -> (r: Result<&'a str, core::str::Utf8Error>)
    ensures
        r is Ok <==> valid_utf8(v@),
        r matches Ok(s) ==> s@ == decode_utf8(v@),
;

/// The upper-case equivalent of a text, as `str::to_uppercase` computes it
/// (by the Unicode property Uppercase; a character may become several).
pub uninterp spec fn uppercase(s: Seq<char>) -> Seq<char>;

/// A text of ASCII characters only.
pub open spec fn ascii_text(s: Seq<char>) -> bool {
    forall|i: int| 0 <= i < s.len() ==> (#[trigger] s[i] as u32) < 128
}

/// The upper-case letter of an ASCII lower-case letter; any other character
/// itself.
pub open spec fn ascii_upper(c: char) -> char {
    if 'a' <= c && c <= 'z' { ((c as u32) - 32) as char } else { c }
}

/// The lower-case letter of an ASCII upper-case letter; any other character
/// itself.
pub open spec fn ascii_lower(c: char) -> char {
    if 'A' <= c && c <= 'Z' { ((c as u32) + 32) as char } else { c }
}

/// A text with its ASCII letters in upper case.
pub open spec fn ascii_uppercase(s: Seq<char>) -> Seq<char> {
    s.map_values(|c: char| ascii_upper(c))
}

/// A text with its ASCII letters in lower case.
pub open spec fn ascii_lowercase(s: Seq<char>) -> Seq<char> {
    s.map_values(|c: char| ascii_lower(c))
}

/// `str::to_uppercase` returns the upper-case equivalent of `s`. The contract
/// claims that it is a function of the text and, as the Unicode case mapping
/// has it, that an ASCII text has its letters `a` to `z` turned into `A` to
/// `Z` and keeps its other characters.
pub assume_specification[ str::to_uppercase ](s: &str) -> (r: String)
    ensures
        r@ == uppercase(s@),
        ascii_text(s@) ==> r@ == ascii_uppercase(s@),
;

#[verifier::external_type_specification]
#[verifier::external_body]
pub struct ExRegexError(regex::Error);

/// Whether `regex::Regex::new` compiles `pattern`.
pub uninterp spec fn regex_compiles(pattern: Seq<char>) -> bool;

/// What `regex::Regex::replace_all` returns for the regular expression
/// `pattern`, the text `text` and the replacement `replacement`.
pub uninterp spec fn regex_replaced(pattern: Seq<char>, text: Seq<char>, replacement: Seq<char>) -> Seq<char>;

/// The characters that have a meaning of their own in a regular expression
/// (those that `regex::escape` escapes).
pub open spec fn regex_meta(c: char) -> bool {
    c == '\\' || c == '.' || c == '+' || c == '*' || c == '?' || c == '(' || c == ')' || c == '|'
        || c == '[' || c == ']' || c == '{' || c == '}' || c == '^' || c == '$' || c == '#' || c == '&'
        || c == '-' || c == '~'
}

/// A regular expression that matches just its own text: nonempty, and
/// without characters of their own meaning.
pub open spec fn literal_pattern(p: Seq<char>) -> bool {
    p.len() > 0 && forall|i: int| 0 <= i < p.len() ==> !regex_meta(#[trigger] p[i])
}

/// `text` with every occurrence of the nonempty `lit` replaced by `rep`,
/// taking the occurrences from the left and without overlaps.
pub open spec fn replace_literal(text: Seq<char>, lit: Seq<char>, rep: Seq<char>) -> Seq<char>
    decreases text.len(),
{
    if lit.len() == 0 || text.len() == 0 {
        text
    } else if text.len() >= lit.len() && text.take(lit.len() as int) == lit {
        rep + replace_literal(text.skip(lit.len() as int), lit, rep)
    } else {
        seq![text[0]] + replace_literal(text.skip(1), lit, rep)
    }
}

/// Compiles `pattern` with `regex::Regex::new` and replaces all its
/// non-overlapping matches in `text` with `regex::Regex::replace_all`. The
/// contract claims that whether compiling succeeds is a function of the
/// pattern, and that the result is a function of the three texts; for a
/// pattern that matches just its own text, and a replacement without `$` (so
/// that nothing in it is expanded), that every occurrence of the pattern,
/// leftmost first, is replaced by the replacement.
#[verifier::external_body]
fn regex_replace_all(pattern: &str, text: &str, replacement: &str) -> (r: Result<String, regex::Error>)
    ensures
        r is Ok <==> regex_compiles(pattern@),
        r matches Ok(s) ==> s@ == regex_replaced(pattern@, text@, replacement@),
        r matches Ok(s) ==> (literal_pattern(pattern@) && !replacement@.contains('$') ==> s@ == replace_literal(
            text@,
            pattern@,
            replacement@,
        )),
{
    Ok(regex::Regex::new(pattern)?.replace_all(text, replacement).into_owned())
}

#[verifier::external_type_specification]
#[verifier::external_body]
pub struct ExErrorStack(ErrorStack);

/// The HMAC-SHA256 tag of `data` under `key`, as OpenSSL computes it.
pub uninterp spec fn hmac_sha256(key: Seq<u8>, data: Seq<u8>) -> Seq<u8>;

/// Computes the HMAC-SHA256 tag of `data` under `key` with OpenSSL:
/// `PKey::hmac`, `Signer::new` with `MessageDigest::sha256`, `Signer::update`
/// and `Signer::sign_to_vec`. The contract claims that a successful result is a
/// function of the key and the data, and that it has the 32 bytes of a
/// SHA-256 HMAC; it says nothing of when OpenSSL fails. `PKey::hmac` asserts
/// that the key's length fits a C `int`.
#[verifier::external_body]
fn hmac_sha256_tag(key: &[u8], data: &[u8]) -> (r: Result<Vec<u8>, ErrorStack>)
    requires
        key@.len() <= i32::MAX,
    ensures
        r matches Ok(tag) ==> tag@ == hmac_sha256(key@, data@),
        r matches Ok(tag) ==> tag@.len() == 32,
{
    let key = openssl::pkey::PKey::hmac(key)?;
    let mut signer = openssl::sign::Signer::new(openssl::hash::MessageDigest::sha256(), &key)?;
    signer.update(data)?;
    signer.sign_to_vec()
}

/// `openssl::memcmp::eq` compares two byte strings of the same length in
/// constant time; it panics on strings of different lengths.
pub assume_specification[ openssl::memcmp::eq ](a: &[u8], b: &[u8]) -> (r: bool)
    requires
        a@.len() == b@.len(),
    ensures
        r == (a@ == b@),
;

// ---------------------------------------------------------------------------
// Authentication
// ---------------------------------------------------------------------------

/// The digest that a signature header carries: its text with every
/// `sha256=` removed, in upper case (for an ASCII text, its letters `a` to `z`
/// turned into `A` to `Z`).
pub open spec fn sender_digest(header_text: Seq<char>) -> Seq<char> {
    let stripped = replace_literal(header_text, "sha256="@, ""@);
    if ascii_text(stripped) { ascii_uppercase(stripped) } else { uppercase(stripped) }
}

/// `digest` is hexadecimal text of `n` bytes.
pub open spec fn digest_of_length(digest: Seq<char>, n: nat) -> bool {
    hex_decode(digest) matches Some(d) && d.len() == n
}

/// The inputs on which checking a signature completes: the sender's digest is
/// hexadecimal text of as many bytes as the locally computed tag.
pub open spec fn digest_comparable(digest: Seq<char>, tag: Seq<u8>) -> bool {
    hex_decode(digest) matches Some(d) && d.len() == tag.len()
}

/// The answer to the sender's digest `digest` given the tag that OpenSSL
/// computed of the body, `None` when it could not compute one:
/// `INTERNAL_SERVER_ERROR` without a tag; none for a digest that is no
/// hexadecimal text of the tag's length; `ACCEPTED` when the digest denotes
/// the tag, `UNAUTHORIZED` otherwise.
pub open spec fn answer_for(digest: Seq<char>, tag: Option<Seq<u8>>) -> Option<StatusCode> {
    match tag {
        None => Some(StatusCode::INTERNAL_SERVER_ERROR),
        Some(t) => if !digest_comparable(digest, t) {
            None
        } else if hex_decode(digest) == Some(t) {
            Some(StatusCode::ACCEPTED)
        } else {
            Some(StatusCode::UNAUTHORIZED)
        },
    }
}

/// The bytes of a tag that may be missing.
pub open spec fn tag_view(tag: Option<&[u8]>) -> Option<Seq<u8>> {
    match tag {
        Some(t) => Some(t@),
        None => None,
    }
}

/// The answer to the signature header whose text is `header_text`, for a body
/// `body` and a shared key `key`: without a compiling pattern, none; else what
/// [`answer_for`] gives for the sender's digest and either the body's tag
/// under the key or, when OpenSSL fails, no tag.
pub open spec fn authentication_settled(header_text: Seq<char>, key: Seq<u8>, body: Seq<u8>, r: Option<StatusCode>) -> bool {
    if !regex_compiles("sha256="@) {
        r is None
    } else {
        exists|tag: Option<Seq<u8>>|
            (tag matches Some(t) ==> t == hmac_sha256(key, body))
            && #[trigger] answer_for(sender_digest(header_text), tag) == r
    }
}

/// The answer to the sender's digest `digest` (stripped of `sha256=` and in
/// upper case) given the tag computed of the body, `None` when OpenSSL could
/// not compute it: as [`answer_for`] says.
pub fn authentication_answer(digest: &str, tag: Option<&[u8]>) -> (r: Option<StatusCode>)
    ensures
        r == answer_for(digest@, tag_view(tag)),
{
    let hmac = match tag {
        Some(t) => t,
        None => {
            return Some(StatusCode::INTERNAL_SERVER_ERROR);
        },
    };
    match read_bytes(digest) {
        Some(bytes) => {
            if bytes.len() != hmac.len() {
                return None;
            }
            Some(check_signature(digest, hmac))
        },
        None => None,
    }
}

/// Compares the sender's digest, as hexadecimal text, with the tag computed
/// locally: `ACCEPTED` when they denote the same bytes, `UNAUTHORIZED`
/// otherwise.
pub fn check_signature(digest: &str, tag: &[u8]) -> (r: StatusCode)
    requires
        digest_comparable(digest@, tag@),
    ensures
        r == (if hex_decode(digest@) == Some(tag@) { StatusCode::ACCEPTED } else { StatusCode::UNAUTHORIZED }),
{
    let sent = read_bytes(digest);
    match sent {
        Some(bytes) => {
            if openssl::memcmp::eq(tag, bytes.as_slice()) {
                StatusCode::ACCEPTED
            } else {
                StatusCode::UNAUTHORIZED
            }
        },
        None => StatusCode::UNAUTHORIZED,
    }
}

/// Verifies the request `body` against the HMAC-SHA256 signature that the
/// sender put in a header, under the shared `hmac_token`.
///
/// `signature` is the header's value, `None` when the request has no such
/// header. The answer is `UNAUTHORIZED` without a signature or with a wrong
/// one, `BAD_REQUEST` when the header is not UTF-8, `INTERNAL_SERVER_ERROR`
/// when the tag cannot be computed, and `ACCEPTED` when the signature is the
/// tag of the body. `None` stands for the inputs on which checking cannot
/// complete: a digest that is no hexadecimal text of the tag's 32 bytes, a
/// pattern that does not compile, or a token too long for OpenSSL (more than
/// `i32::MAX` bytes) when the tag has to be computed.
pub fn is_authentic(signature: Option<&[u8]>, hmac_token: &str, body: &[u8]) -> (r: Option<StatusCode>)
    ensures
        signature is None ==> r == Some(StatusCode::UNAUTHORIZED),
        signature matches Some(sig) ==> (!valid_utf8(sig@) ==> r == Some(StatusCode::BAD_REQUEST)),
        signature matches Some(sig) ==> (valid_utf8(sig@) && hmac_token.spec_bytes().len() > i32::MAX ==> r is None),
        signature matches Some(sig) ==> (valid_utf8(sig@) && hmac_token.spec_bytes().len() <= i32::MAX
            ==> authentication_settled(decode_utf8(sig@), hmac_token.spec_bytes(), body@, r)),
        signature matches Some(sig) ==> (valid_utf8(sig@) && hmac_token.spec_bytes().len() <= i32::MAX
            && regex_compiles("sha256="@) && digest_of_length(sender_digest(decode_utf8(sig@)), 32) ==> r is Some),
{
    let sig = match signature {
        Some(s) => s,
        None => {
            return Some(StatusCode::UNAUTHORIZED);
        },
    };
    let sender_hmac = match core::str::from_utf8(sig) {
        Ok(s) => s,
        Err(_) => {
            return Some(StatusCode::BAD_REQUEST);
        },
    };
    let stripped = match regex_replace_all("sha256=", sender_hmac, "") {
        Ok(s) => s,
        Err(_) => {
            return None;
        },
    };
    proof {
        reveal_strlit("sha256=");
        reveal_strlit("");
        assert(literal_pattern("sha256="@));
        assert(stripped@ == replace_literal(sender_hmac@, "sha256="@, ""@));
    }
    let post_digest = stripped.as_str().to_uppercase();
    let key = hmac_token.as_bytes();
    if key.len() > 2147483647 {
        return None;
    }
    let computed = hmac_sha256_tag(key, body);
    let r = match &computed {
        Ok(tag) => authentication_answer(post_digest.as_str(), Some(tag.as_slice())),
        Err(_) => authentication_answer(post_digest.as_str(), None),
    };
    proof {
        let o = match computed {
            Ok(tag) => Some(tag@),
            Err(_) => None,
        };
        assert(answer_for(sender_digest(decode_utf8(sig@)), o) == r);
    }
    r
}


proof fn lemma_hex_value_lower(c: char)
    ensures
        hex_value(ascii_lower(c)) == hex_value(c),
{
}

proof fn lemma_hex_lowercase_decodes(s: Seq<char>)
    ensures
        hex_decode(ascii_lowercase(s)) == hex_decode(s),
    decreases s.len(),
{
    let l = ascii_lowercase(s);
    if s.len() >= 2 {
        lemma_hex_value_lower(s[0]);
        lemma_hex_value_lower(s[1]);
        assert(l[0] == ascii_lower(s[0]) && l[1] == ascii_lower(s[1]));
        assert(l.skip(2) =~= ascii_lowercase(s.skip(2)));
        lemma_hex_lowercase_decodes(s.skip(2));
    }
}

/// Given the tag that OpenSSL computed, the answer is never
/// `INTERNAL_SERVER_ERROR`: that answer stands for a tag that could not be
/// computed, and only for it. The hexadecimal text of the tag, in either case,
/// is `ACCEPTED`.
pub proof fn law_internal_error_only_without_tag(digest: Seq<char>, tag: Option<Seq<u8>>, t: Seq<u8>)
    ensures
        (answer_for(digest, tag) == Some(StatusCode::INTERNAL_SERVER_ERROR)) <==> tag is None,
        answer_for(hex_encode(t), Some(t)) == Some(StatusCode::ACCEPTED),
        answer_for(ascii_lowercase(hex_encode(t)), Some(t)) == Some(StatusCode::ACCEPTED),
{
    law_hex_roundtrip(t);
    lemma_hex_lowercase_decodes(hex_encode(t));
}

/// A request whose signature header carries the upper-case hexadecimal text of
/// the body's tag under the key is accepted, unless OpenSSL fails.
pub proof fn law_signed_request_accepted(header_text: Seq<char>, key: Seq<u8>, body: Seq<u8>, r: Option<StatusCode>)
    requires
        regex_compiles("sha256="@),
        sender_digest(header_text) == hex_encode(hmac_sha256(key, body)),
        authentication_settled(header_text, key, body, r),
        r != Some(StatusCode::INTERNAL_SERVER_ERROR),
    ensures
        r == Some(StatusCode::ACCEPTED),
{
    law_hex_roundtrip(hmac_sha256(key, body));
}

/// A request whose signature is the hexadecimal text of other bytes than the
/// body's tag, of the tag's length, is refused as unauthorized, unless OpenSSL
/// fails.
pub proof fn law_wrong_signature_refused(header_text: Seq<char>, key: Seq<u8>, body: Seq<u8>, r: Option<StatusCode>)
    requires
        regex_compiles("sha256="@),
        hex_decode(sender_digest(header_text)) matches Some(d) && d.len() == hmac_sha256(key, body).len()
            && d != hmac_sha256(key, body),
        authentication_settled(header_text, key, body, r),
        r != Some(StatusCode::INTERNAL_SERVER_ERROR),
    ensures
        r == Some(StatusCode::UNAUTHORIZED),
{
}

proof fn lemma_hex_char(c: char)
    requires
        hex_value(c) is Some,
    ensures
        c != 's',
        (c as u32) < 128,
        hex_value(ascii_lower(c)) is Some,
        hex_value(ascii_upper(c)) is Some,
        ascii_upper(ascii_lower(c)) == ascii_upper(c),
        ascii_upper(ascii_upper(c)) == ascii_upper(c),
{
}

proof fn lemma_without_s_unchanged(t: Seq<char>)
    requires
        forall|i: int| 0 <= i < t.len() ==> #[trigger] t[i] != 's',
    ensures
        replace_literal(t, "sha256="@, ""@) == t,
    decreases t.len(),
{
    reveal_strlit("sha256=");
    if t.len() > 0 {
        let rest = t.skip(1);
        assert forall|i: int| 0 <= i < rest.len() implies #[trigger] rest[i] != 's' by {
            assert(rest[i] == t[i + 1]);
        }
        lemma_without_s_unchanged(rest);
        if t.len() >= 7 {
            assert(t.take(7)[0] != "sha256="@[0]);
        }
        assert(seq![t[0]] + rest =~= t);
    }
}

proof fn lemma_prefix_removed(w: Seq<char>)
    ensures
        replace_literal("sha256="@ + w, "sha256="@, ""@) == replace_literal(w, "sha256="@, ""@),
{
    reveal_strlit("sha256=");
    reveal_strlit("");
    let t = "sha256="@ + w;
    assert(t.take(7) =~= "sha256="@);
    assert(t.skip(7) =~= w);
    assert(""@ + replace_literal(w, "sha256="@, ""@) =~= replace_literal(w, "sha256="@, ""@));
}

proof fn lemma_hex_text_digest(u: Seq<char>)
    requires
        forall|i: int| 0 <= i < u.len() ==> (#[trigger] hex_value(u[i])) is Some,
    ensures
        sender_digest(u) == ascii_uppercase(u),
        sender_digest("sha256="@ + u) == ascii_uppercase(u),
{
    assert forall|i: int| 0 <= i < u.len() implies #[trigger] u[i] != 's' && (u[i] as u32) < 128 by {
        lemma_hex_char(u[i]);
    }
    lemma_without_s_unchanged(u);
    lemma_prefix_removed(u);
}

/// The digest of a signature header of hexadecimal digits does not depend on
/// a `sha256=` in front of them, nor on the case of their letters: it is the
/// digits in upper case.
pub proof fn law_digest_ignores_prefix_and_case(v: Seq<char>)
    requires
        forall|i: int| 0 <= i < v.len() ==> (#[trigger] hex_value(v[i])) is Some,
    ensures
        sender_digest(v) == ascii_uppercase(v),
        sender_digest(ascii_lowercase(v)) == ascii_uppercase(v),
        sender_digest(ascii_uppercase(v)) == ascii_uppercase(v),
        sender_digest("sha256="@ + v) == ascii_uppercase(v),
        sender_digest("sha256="@ + ascii_lowercase(v)) == ascii_uppercase(v),
        sender_digest("sha256="@ + ascii_uppercase(v)) == ascii_uppercase(v),
{
    let lo = ascii_lowercase(v);
    let up = ascii_uppercase(v);
    assert forall|i: int| 0 <= i < v.len() implies (#[trigger] hex_value(lo[i])) is Some && hex_value(up[i]) is Some
        && ascii_upper(lo[i]) == ascii_upper(v[i]) && ascii_upper(up[i]) == ascii_upper(v[i]) by {
        lemma_hex_char(v[i]);
    }
    assert forall|i: int| 0 <= i < lo.len() implies (#[trigger] hex_value(lo[i])) is Some by {
        lemma_hex_char(v[i]);
    }
    assert forall|i: int| 0 <= i < up.len() implies (#[trigger] hex_value(up[i])) is Some by {
        lemma_hex_char(v[i]);
    }
    lemma_hex_text_digest(v);
    lemma_hex_text_digest(lo);
    lemma_hex_text_digest(up);
    assert(ascii_uppercase(lo) =~= up);
    assert(ascii_uppercase(up) =~= up);
}

/// A request is answered alike whether its signature header carries the
/// hexadecimal digits of the digest alone or after `sha256=`, in lower or in
/// upper case.
pub proof fn law_answer_ignores_prefix_and_case(v: Seq<char>, key: Seq<u8>, body: Seq<u8>, r: Option<StatusCode>)
    requires
        forall|i: int| 0 <= i < v.len() ==> (#[trigger] hex_value(v[i])) is Some,
    ensures
        authentication_settled("sha256="@ + v, key, body, r) <==> authentication_settled(v, key, body, r),
        authentication_settled(ascii_lowercase(v), key, body, r) <==> authentication_settled(v, key, body, r),
        authentication_settled(ascii_uppercase(v), key, body, r) <==> authentication_settled(v, key, body, r),
        authentication_settled("sha256="@ + ascii_lowercase(v), key, body, r) <==> authentication_settled(v, key, body, r),
        authentication_settled("sha256="@ + ascii_uppercase(v), key, body, r) <==> authentication_settled(v, key, body, r),
{
    law_digest_ignores_prefix_and_case(v);
}

// ---------------------------------------------------------------------------
// Cross-origin preflight requests
// ---------------------------------------------------------------------------

/// What the server does with a request, as far as cross-origin preflight
/// requests are concerned.
#[derive(Debug)]
pub enum Preflight {
    /// Not a preflight request: serve it as usual.
    PassThrough,
    /// Answer with this status and no headers.
    Respond(StatusCode),
    /// Answer `OK` with these headers.
    Allow(Vec<(String, String)>),
}

/// The headers that allow cross-origin POST requests from `origin`.
pub open spec fn cors_headers(origin: Seq<char>) -> Seq<(Seq<char>, Seq<char>)> {
    seq![
        ("Access-Control-Allow-Origin"@, origin),
        ("Access-Control-Allow-Methods"@, "POST"@),
        ("Access-Control-Allow-Headers"@, "api, content-type"@),
    ]
}

/// Answers cross-origin preflight requests (requests with an
/// `Access-Control-Request-Headers` header): without a configuration,
/// `INTERNAL_SERVER_ERROR`; with a configured origin, the headers that allow
/// it; otherwise `FORBIDDEN`.
pub fn filter_cors_preflight(has_request_headers: bool, config: Option<&Config>) -> (r: Preflight)
    ensures
        !has_request_headers ==> r is PassThrough,
        has_request_headers && config is None ==> r == Preflight::Respond(StatusCode::INTERNAL_SERVER_ERROR),
        has_request_headers ==> (config matches Some(c) ==> (c.cors_allow_address is None ==> r == Preflight::Respond(StatusCode::FORBIDDEN))),
        has_request_headers ==> (config matches Some(c) ==> (c.cors_allow_address matches Some(a) ==> (r matches Preflight::Allow(h) && h.deep_view() == cors_headers(a@)))),
{
    if !has_request_headers {
        return Preflight::PassThrough;
    }
    let c = match config {
        Some(c) => c,
        None => {
            return Preflight::Respond(StatusCode::INTERNAL_SERVER_ERROR);
        },
    };
    match &c.cors_allow_address {
        Some(a) => {
            let mut headers: Vec<(String, String)> = Vec::new();
            headers.push((String::from_str("Access-Control-Allow-Origin"), a.clone()));
            headers.push((String::from_str("Access-Control-Allow-Methods"), String::from_str("POST")));
            headers.push((String::from_str("Access-Control-Allow-Headers"), String::from_str("api, content-type")));
            assert(headers.deep_view() =~= cors_headers(a@));
            Preflight::Allow(headers)
        },
        None => Preflight::Respond(StatusCode::FORBIDDEN),
    }
}

} // verus!
