//! Percent-encoding, and the OAuth texts built from it or read with it: the
//! authorization address, the code exchange form, and the code that comes
//! back to the callback.

use vstd::prelude::*;
use vstd::utf8::{decode_utf8, encode_utf8, valid_utf8};
use crate::model::{Credentials, CredentialsView};
use crate::text::{
    after, after_char, before, before_char, chars_of, lemma_after_shorter, lemma_flat_map_first,
    lemma_no_split, lemma_split_after_prefix, slice_chars, starts_with, string_of,
};

verus! {

/// The bytes that percent-encoding leaves as they are: ASCII letters and
/// digits, `-`, `.`, `_` and `~`.
pub open spec fn unreserved(b: u8) -> bool {
    (0x30 <= b <= 0x39) || (0x41 <= b <= 0x5a) || (0x61 <= b <= 0x7a) || b == 0x2d || b == 0x2e
        || b == 0x5f || b == 0x7e
}

/// An upper-case hexadecimal digit for `d < 16`.
pub open spec fn hex_upper(d: u8) -> char {
    if d < 10 {
        (('0' as u8) + d) as char
    } else {
        (('A' as u8) + d - 10) as char
    }
}

/// One byte as percent-encoding writes it.
pub open spec fn encode_byte(b: u8) -> Seq<char> {
    if unreserved(b) {
        seq![b as char]
    } else {
        seq!['%', hex_upper(b / 16), hex_upper(b % 16)]
    }
}

/// The percent-encoding of a text: each byte of its UTF-8 form, unreserved
/// bytes as they are and every other one as `%` and two upper-case hex
/// digits.
pub open spec fn url_encoded(s: Seq<char>) -> Seq<char> {
    encoded_bytes(encode_utf8(s))
}

/// Bytes as percent-encoding writes them.
pub open spec fn encoded_bytes(bytes: Seq<u8>) -> Seq<char> {
    bytes.flat_map(|b: u8| encode_byte(b))
}

/// `urlencoding::encode`. Its contract states what the crate's source does:
/// every byte of the UTF-8 form except ASCII alphanumerics and `-._~` is
/// written as `%` followed by two upper-case hex digits.
#[verifier::external_body]
pub(crate) fn url_encode(s: &str) -> (r: String)
    ensures
        r@ == url_encoded(s@),
{
    urlencoding::encode(s).into_owned()
}

/// The value of an ASCII hexadecimal digit.
pub open spec fn hex_value(b: u8) -> Option<u8> {
    if 0x30 <= b <= 0x39 {
        Some((b - 0x30) as u8)
    } else if 0x41 <= b <= 0x46 {
        Some((b - 0x41 + 10) as u8)
    } else if 0x61 <= b <= 0x66 {
        Some((b - 0x61 + 10) as u8)
    } else {
        None
    }
}

/// Percent-decoding of bytes: `%` followed by two hex digits stands for the
/// byte they spell; every other byte, a lone `%` included, stands for itself.
/// `+` is not read as a space.
pub open spec fn percent_decoded(s: Seq<u8>) -> Seq<u8>
    decreases s.len(),
{
    if s.len() == 0 {
        seq![]
    } else if s[0] == 0x25 && s.len() >= 3 && hex_value(s[1]) is Some && hex_value(s[2]) is Some {
        seq![(hex_value(s[1])->0 * 16 + hex_value(s[2])->0) as u8] + percent_decoded(s.skip(3))
    } else {
        seq![s[0]] + percent_decoded(s.skip(1))
    }
}

/// The text that percent-decoding gives, when its bytes are valid UTF-8.
pub open spec fn url_decoded(s: Seq<char>) -> Option<Seq<char>> {
    let b = percent_decoded(encode_utf8(s));
    if valid_utf8(b) {
        Some(decode_utf8(b))
    } else {
        None
    }
}

/// `urlencoding::decode`. Its contract states what the crate's source does:
/// percent-decoding of the UTF-8 bytes, then `String::from_utf8`, which
/// fails exactly on bytes that are not valid UTF-8.
#[verifier::external_body]
pub(crate) fn url_decode(s: &str) -> (r: Option<String>)
    ensures
        r matches Some(d) ==> url_decoded(s@) == Some(d@),
        r is None ==> url_decoded(s@) is None,
{
    urlencoding::decode(s).ok().map(|d| d.into_owned())
}

/// The address LinkedIn redirects to after authorization.
pub open spec fn redirect_uri() -> Seq<char> {
    "http://localhost:8092/callback"@
}

/// The authorization address the member is sent to.
pub open spec fn authorization_url(client_id: Seq<char>) -> Seq<char> {
    "https://www.linkedin.com/oauth/v2/authorization?response_type=code&client_id="@
        + url_encoded(client_id) + "&redirect_uri="@ + url_encoded(redirect_uri())
        + "&scope=openid%20profile%20w_member_social"@
}

/// Builds the authorization address the member is sent to.
pub fn authorization_url_for(client_id: &str) -> (r: String)
    ensures
        r@ == authorization_url(client_id@),
{
    let mut r = String::from_str(
        "https://www.linkedin.com/oauth/v2/authorization?response_type=code&client_id=",
    );
    let id = url_encode(client_id);
    r.append(id.as_str());
    r.append("&redirect_uri=");
    let redirect = url_encode("http://localhost:8092/callback");
    r.append(redirect.as_str());
    r.append("&scope=openid%20profile%20w_member_social");
    r
}

/// The form that exchanges an authorization code for a token.
pub open spec fn exchange_form(code: Seq<char>, creds: CredentialsView) -> Seq<char> {
    "grant_type=authorization_code&code="@ + url_encoded(code) + "&redirect_uri="@ + url_encoded(
        redirect_uri(),
    ) + "&client_id="@ + url_encoded(creds.client_id) + "&client_secret="@ + url_encoded(
        creds.client_secret,
    )
}

/// Builds the form that exchanges an authorization code for a token.
pub fn exchange_form_for(code: &str, creds: &Credentials) -> (r: String)
    ensures
        r@ == exchange_form(code@, creds@),
{
    let mut r = String::from_str("grant_type=authorization_code&code=");
    let c = url_encode(code);
    r.append(c.as_str());
    r.append("&redirect_uri=");
    let redirect = url_encode("http://localhost:8092/callback");
    r.append(redirect.as_str());
    r.append("&client_id=");
    let id = url_encode(creds.client_id.as_str());
    r.append(id.as_str());
    r.append("&client_secret=");
    let secret = url_encode(creds.client_secret.as_str());
    r.append(secret.as_str());
    r
}

/// The query of a request: what stands between the first and the second
/// `?`, up to the first space; empty without a `?`.
pub open spec fn request_query(request: Seq<char>) -> Seq<char> {
    match after(request, '?') {
        Some(rest) => before(before(rest, '?'), ' '),
        None => before(seq![], ' '),
    }
}

/// The value of the first `&`-separated part of a query that starts with
/// `code=`, if any.
pub open spec fn code_param(query: Seq<char>) -> Option<Seq<char>>
    decreases query.len(),
{
    let part = before(query, '&');
    if "code="@.is_prefix_of(part) {
        Some(part.skip(5))
    } else {
        match after(query, '&') {
            Some(rest) => {
                proof {
                    lemma_after_shorter(query, '&');
                }
                code_param(rest)
            },
            None => None,
        }
    }
}

/// The authorization code in the callback request: the `code` parameter of
/// its query, percent-decoded where that gives valid UTF-8 and as written
/// otherwise; empty when the query has none.
pub open spec fn auth_code(request: Seq<char>) -> Seq<char> {
    let raw = match code_param(request_query(request)) {
        Some(v) => v,
        None => seq![],
    };
    match url_decoded(raw) {
        Some(d) => d,
        None => raw,
    }
}

/// Reads the authorization code from the callback request.
pub fn extract_auth_code(request: &str) -> (r: String)
    ensures
        r@ == auth_code(request@),
{
    let cs = chars_of(request);
    let first = match after_char(&cs, '?') {
        Some(rest) => before_char(&rest, '?'),
        None => Vec::new(),
    };
    let query = before_char(&first, ' ');
    let mut rest = query;
    let mut raw: Vec<char> = Vec::new();
    loop
        invariant_except_break
            code_param(rest@) == code_param(request_query(request@)),
            raw@.len() == 0,
        ensures
            raw@ == match code_param(request_query(request@)) {
                Some(v) => v,
                None => seq![],
            },
        decreases rest@.len(),
    {
        let part = before_char(&rest, '&');
        if starts_with(&part, "code=") {
            proof {
                reveal_strlit("code=");
            }
            let n = part.len();
            raw = slice_chars(&part, 5, n);
            assert(raw@ =~= part@.skip(5));
            break;
        }
        match after_char(&rest, '&') {
            Some(next) => {
                proof {
                    lemma_after_shorter(rest@, '&');
                }
                rest = next;
            },
            None => {
                break;
            },
        }
    }
    let raw = string_of(raw.as_slice());
    match url_decode(raw.as_str()) {
        Some(d) => d,
        None => raw,
    }
}

/// A character that percent-encoding may write: ASCII, and none of the
/// separators of a request line or of a query.
pub open spec fn plain_url_char(c: char) -> bool {
    '\0' <= c <= '\u{7f}' && c != '?' && c != ' ' && c != '&'
}

/// The bytes of ASCII characters.
pub open spec fn ascii_bytes(cs: Seq<char>) -> Seq<u8> {
    cs.map_values(|c: char| c as u8)
}

proof fn lemma_hex_digit(d: u8)
    requires
        d < 16,
    ensures
        hex_value(hex_upper(d) as u8) == Some(d),
        plain_url_char(hex_upper(d)),
{
}

/// One encoded byte is written in plain characters and decodes back to
/// itself, whatever follows it.
proof fn lemma_encode_byte(b: u8, rest: Seq<u8>)
    ensures
        forall|i: int| 0 <= i < encode_byte(b).len() ==> plain_url_char(#[trigger] encode_byte(b)[i]),
        percent_decoded(ascii_bytes(encode_byte(b)) + rest) == seq![b] + percent_decoded(rest),
{
    let e = ascii_bytes(encode_byte(b)) + rest;
    if unreserved(b) {
        assert(e.skip(1) =~= rest);
    } else {
        lemma_hex_digit(b / 16);
        lemma_hex_digit(b % 16);
        assert(e.skip(3) =~= rest);
        assert((b / 16) * 16 + b % 16 == b);
    }
}

/// Percent-encoded bytes are written in plain characters and decode back
/// to the bytes.
proof fn lemma_encoded_bytes(bytes: Seq<u8>)
    ensures
        forall|i: int|
            0 <= i < encoded_bytes(bytes).len() ==> plain_url_char(#[trigger] encoded_bytes(bytes)[i]),
        percent_decoded(ascii_bytes(encoded_bytes(bytes))) == bytes,
    decreases bytes.len(),
{
    let f = |b: u8| encode_byte(b);
    let enc = encoded_bytes(bytes);
    if bytes.len() == 0 {
        assert(enc =~= seq![]);
        assert(ascii_bytes(enc) =~= seq![]);
    } else {
        lemma_flat_map_first(bytes, f);
        let rest = bytes.drop_first();
        lemma_encoded_bytes(rest);
        lemma_encode_byte(bytes[0], ascii_bytes(encoded_bytes(rest)));
        let head = encode_byte(bytes[0]);
        assert(enc == head + encoded_bytes(rest));
        assert(ascii_bytes(enc) =~= ascii_bytes(head) + ascii_bytes(encoded_bytes(rest)));
        assert forall|i: int| 0 <= i < enc.len() implies plain_url_char(#[trigger] enc[i]) by {
            if i < head.len() {
                assert(enc[i] == head[i]);
            } else {
                assert(enc[i] == encoded_bytes(rest)[i - head.len()]);
            }
        }
        assert(seq![bytes[0]] + rest =~= bytes);
    }
}

/// Percent-decoding undoes percent-encoding, and the encoding holds no
/// separator of a request line or of a query.
pub proof fn law_url_decode_encoded(s: Seq<char>)
    ensures
        url_decoded(url_encoded(s)) == Some(s),
        forall|i: int| 0 <= i < url_encoded(s).len() ==> plain_url_char(#[trigger] url_encoded(s)[i]),
{
    broadcast use vstd::utf8::encode_utf8_valid_utf8, vstd::utf8::encode_utf8_decode_utf8;

    let enc = url_encoded(s);
    lemma_encoded_bytes(encode_utf8(s));
    assert(vstd::utf8::is_ascii_chars(enc)) by {
        assert forall|i: int| 0 <= i < enc.len() implies '\0' <= #[trigger] enc[i] <= '\u{7f}' by {
            assert(plain_url_char(enc[i]));
        }
    }
    vstd::utf8::is_ascii_chars_encode_utf8(enc);
    assert(encode_utf8(enc) =~= ascii_bytes(enc));
}

/// The code LinkedIn puts, percent-encoded, in the query of the callback
/// request is the code read from that request.
pub proof fn law_callback_code_read_back(path: Seq<char>, code: Seq<char>, rest: Seq<char>)
    requires
        forall|j: int| 0 <= j < path.len() ==> path[j] != '?',
        rest.len() == 0 || rest[0] == ' ',
    ensures
        auth_code(path + "?code="@ + url_encoded(code) + rest) == code,
{
    reveal_strlit("?code=");
    reveal_strlit("code=");
    law_url_decode_encoded(code);
    let enc = url_encoded(code);
    let param = "code="@ + enc;
    assert forall|j: int| 0 <= j < param.len() implies plain_url_char(#[trigger] param[j]) by {
        if j >= 5 {
            assert(param[j] == enc[j - 5]);
        }
    }
    let request = path + "?code="@ + enc + rest;
    assert(request =~= path + (seq!['?'] + (param + rest)));
    lemma_split_after_prefix(path, seq!['?'] + (param + rest), '?');
    assert((seq!['?'] + (param + rest)).skip(1) =~= param + rest);
    assert(after(request, '?') == Some(param + rest));
    lemma_split_after_prefix(param, rest, '?');
    lemma_split_after_prefix(param, before(rest, '?'), ' ');
    if rest.len() > 0 {
        assert(before(rest, '?') == seq![' '] + before(rest.skip(1), '?'));
    }
    assert(before(param + before(rest, '?'), ' ') =~= param);
    assert(request_query(request) == param);
    lemma_no_split(param, '&');
    assert("code="@.is_prefix_of(param));
    assert(param.skip(5) =~= enc);
}

} // verus!
