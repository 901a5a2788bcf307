//! JSON text: quoting of strings, field lookups in received documents, and
//! the documents this helper sends and answers with.

use vstd::prelude::*;

verus! {

/// A lower-case hexadecimal digit for `d < 16`.
pub open spec fn hex_lower(d: u32) -> char {
    if d < 10 {
        (('0' as u32) + d) as char
    } else {
        (('a' as u32) + d - 10) as char
    }
}

/// How one character stands inside a JSON string literal: `"` and `\` and
/// the control characters below U+0020 are escaped, every other character
/// stands for itself.
pub open spec fn json_escape_char(c: char) -> Seq<char> {
    if c == '"' {
        seq!['\\', '"']
    } else if c == '\\' {
        seq!['\\', '\\']
    } else if c == '\x08' {
        seq!['\\', 'b']
    } else if c == '\t' {
        seq!['\\', 't']
    } else if c == '\n' {
        seq!['\\', 'n']
    } else if c == '\x0c' {
        seq!['\\', 'f']
    } else if c == '\r' {
        seq!['\\', 'r']
    } else if (c as u32) < 0x20 {
        seq!['\\', 'u', '0', '0', hex_lower((c as u32) / 16), hex_lower((c as u32) % 16)]
    } else {
        seq![c]
    }
}

/// The JSON string literal that stands for `s`.
pub open spec fn json_quoted(s: Seq<char>) -> Seq<char> {
    seq!['"'] + s.flat_map(|c: char| json_escape_char(c)) + seq!['"']
}

/// `serde_json::to_string` on a string slice. Its contract states the
/// literal that serde_json's serializer writes: the escapes of its escape
/// table (two-character escapes for `"`, `\`, backspace, tab, line feed,
/// form feed and carriage return, `\u00xx` with lower-case hex for the
/// other control characters below U+0020), every other character as is.
/// Serializing a string cannot fail.
#[verifier::external_body]
pub(crate) fn json_string(s: &str) -> (r: String)
    ensures
        r@ == json_quoted(s@),
{
    serde_json::to_string(s).unwrap_or_default()
}

/// What a JSON document, read as a `serde_json::Value`, holds under one key.
pub enum JsonField {
    /// The document is not an object, or has no such key.
    Missing,
    /// A string.
    Text(String),
    /// A number that fits an unsigned 64-bit integer.
    Unsigned(u64),
    /// Any other value, rendered as compact JSON.
    Other(String),
}

/// The mathematical model of [`JsonField`].
pub enum JsonFieldView {
    Missing,
    Text(Seq<char>),
    Unsigned(u64),
    Other(Seq<char>),
}

impl View for JsonField {
    type V = JsonFieldView;

    open spec fn view(&self) -> JsonFieldView {
        match self {
            JsonField::Missing => JsonFieldView::Missing,
            JsonField::Text(s) => JsonFieldView::Text(s@),
            JsonField::Unsigned(n) => JsonFieldView::Unsigned(*n),
            JsonField::Other(s) => JsonFieldView::Other(s@),
        }
    }
}

/// The model of a lookup's outcome: the field, or the parser's message.
pub open spec fn lookup_view(r: Result<JsonField, String>) -> Result<JsonFieldView, Seq<char>> {
    match r {
        Ok(f) => Ok(f@),
        Err(e) => Err(e@),
    }
}

/// What serde_json makes of the text `text` (parsed as a `serde_json::Value`)
/// under the key `key`; on a parse failure, the error's message.
pub uninterp spec fn json_text_field(text: Seq<char>, key: Seq<char>) -> Result<
    JsonFieldView,
    Seq<char>,
>;

/// The same for a document given as bytes (`serde_json::from_slice`).
pub uninterp spec fn json_bytes_field(bytes: Seq<u8>, key: Seq<char>) -> Result<
    JsonFieldView,
    Seq<char>,
>;

/// `serde_json::from_str::<serde_json::Value>` on `text`, then the value under
/// `key` (`Value::get`): a string as it is, a number through `as_u64`, any
/// other value through its `Display`; a parse error through its `Display`.
/// The contract only names the outcome, which depends on `text` and `key`
/// alone; JSON's grammar is not restated.
#[verifier::external_body]
pub(crate) fn lookup_text_field(text: &str, key: &str) -> (r: Result<JsonField, String>)
    ensures
        lookup_view(r) == json_text_field(text@, key@),
{
    let doc: serde_json::Value = serde_json::from_str(text).map_err(|e| e.to_string())?;
    Ok(match doc.get(key) {
        None => JsonField::Missing,
        Some(serde_json::Value::String(s)) => JsonField::Text(s.clone()),
        Some(v) => match v.as_u64() {
            Some(n) => JsonField::Unsigned(n),
            None => JsonField::Other(v.to_string()),
        },
    })
}

/// `serde_json::from_slice::<serde_json::Value>` on `bytes`, then the value
/// under `key`, read as in [`lookup_text_field`]. The contract only names the
/// outcome, which depends on `bytes` and `key` alone; JSON's grammar and the
/// UTF-8 check are not restated.
#[verifier::external_body]
pub(crate) fn lookup_bytes_field(bytes: &[u8], key: &str) -> (r: Result<JsonField, String>)
    ensures
        lookup_view(r) == json_bytes_field(bytes@, key@),
{
    let doc: serde_json::Value = serde_json::from_slice(bytes).map_err(|e| e.to_string())?;
    Ok(match doc.get(key) {
        None => JsonField::Missing,
        Some(serde_json::Value::String(s)) => JsonField::Text(s.clone()),
        Some(v) => match v.as_u64() {
            Some(n) => JsonField::Unsigned(n),
            None => JsonField::Other(v.to_string()),
        },
    })
}

/// The string under a key, where the document holds one there
/// (`value[key].as_str()`).
pub open spec fn field_text(f: Result<JsonFieldView, Seq<char>>) -> Option<Seq<char>> {
    match f {
        Ok(JsonFieldView::Text(s)) => Some(s),
        _ => None,
    }
}

/// The unsigned number under a key, where the document holds one there
/// (`value[key].as_u64()`).
pub open spec fn field_unsigned(f: Result<JsonFieldView, Seq<char>>) -> Option<u64> {
    match f {
        Ok(JsonFieldView::Unsigned(n)) => Some(n),
        _ => None,
    }
}

/// `value[key].as_str()` on text.
pub fn text_field(text: &str, key: &str) -> (r: Option<String>)
    ensures
        r matches Some(s) ==> field_text(json_text_field(text@, key@)) == Some(s@),
        r is None ==> field_text(json_text_field(text@, key@)) is None,
{
    match lookup_text_field(text, key) {
        Ok(JsonField::Text(s)) => Some(s),
        _ => None,
    }
}

/// `value[key].as_u64()` on text.
pub fn unsigned_field(text: &str, key: &str) -> (r: Option<u64>)
    ensures
        r == field_unsigned(json_text_field(text@, key@)),
{
    match lookup_text_field(text, key) {
        Ok(JsonField::Unsigned(n)) => Some(n),
        _ => None,
    }
}

/// Appends the JSON literal of `s` to `out`.
fn push_json_string(out: &mut String, s: &str)
    ensures
        final(out)@ == old(out)@ + json_quoted(s@),
{
    let q = json_string(s);
    out.append(q.as_str());
}

/// The JSON literal of a boolean.
pub open spec fn json_bool(b: bool) -> Seq<char> {
    if b {
        "true"@
    } else {
        "false"@
    }
}

fn push_json_bool(out: &mut String, b: bool)
    ensures
        final(out)@ == old(out)@ + json_bool(b),
{
    if b {
        out.append("true");
    } else {
        out.append("false");
    }
}

/// The body of a post creation request: author, commentary, visibility and
/// the fixed distribution settings, keys in the order serde_json writes them.
pub open spec fn post_body_text(author: Seq<char>, commentary: Seq<char>, visibility: Seq<char>) -> Seq<char> {
    "{\"author\":"@ + json_quoted(author) + ",\"commentary\":"@ + json_quoted(commentary)
        + ",\"distribution\":{\"feedDistribution\":\"MAIN_FEED\",\"targetEntities\":[],\"thirdPartyDistributionChannels\":[]},\"isReshareDisabledByAuthor\":false,\"lifecycleState\":\"PUBLISHED\",\"visibility\":"@
        + json_quoted(visibility) + "}"@
}

/// Builds the JSON body of a post creation request.
pub fn post_body_json(author: &str, commentary: &str, visibility: &str) -> (r: String)
    ensures
        r@ == post_body_text(author@, commentary@, visibility@),
{
    let mut out = String::from_str("{\"author\":");
    push_json_string(&mut out, author);
    out.append(",\"commentary\":");
    push_json_string(&mut out, commentary);
    out.append(
        ",\"distribution\":{\"feedDistribution\":\"MAIN_FEED\",\"targetEntities\":[],\"thirdPartyDistributionChannels\":[]},\"isReshareDisabledByAuthor\":false,\"lifecycleState\":\"PUBLISHED\",\"visibility\":",
    );
    push_json_string(&mut out, visibility);
    out.append("}");
    out
}

/// The JSON answer that carries an error message.
pub open spec fn error_text(message: Seq<char>) -> Seq<char> {
    "{\"error\":"@ + json_quoted(message) + "}"@
}

/// Builds the JSON answer that carries an error message.
pub fn error_json(message: &str) -> (r: String)
    ensures
        r@ == error_text(message@),
{
    let mut out = String::from_str("{\"error\":");
    push_json_string(&mut out, message);
    out.append("}");
    out
}

/// The JSON answer for a created post.
pub open spec fn created_text(post_id: Seq<char>, post_url: Seq<char>) -> Seq<char> {
    "{\"post_id\":"@ + json_quoted(post_id) + ",\"post_url\":"@ + json_quoted(post_url) + "}"@
}

/// Builds the JSON answer for a created post.
pub fn created_json(post_id: &str, post_url: &str) -> (r: String)
    ensures
        r@ == created_text(post_id@, post_url@),
{
    let mut out = String::from_str("{\"post_id\":");
    push_json_string(&mut out, post_id);
    out.append(",\"post_url\":");
    push_json_string(&mut out, post_url);
    out.append("}");
    out
}

/// The JSON answer of the status endpoint.
pub open spec fn status_text(has_token: bool, person_id_present: bool, refresh_token_present: bool) -> Seq<char> {
    "{\"has_token\":"@ + json_bool(has_token) + ",\"person_id_present\":"@ + json_bool(
        person_id_present,
    ) + ",\"refresh_token_present\":"@ + json_bool(refresh_token_present) + "}"@
}

/// Builds the JSON answer of the status endpoint.
pub fn status_json(has_token: bool, person_id_present: bool, refresh_token_present: bool) -> (r: String)
    ensures
        r@ == status_text(has_token, person_id_present, refresh_token_present),
{
    let mut out = String::from_str("{\"has_token\":");
    push_json_bool(&mut out, has_token);
    out.append(",\"person_id_present\":");
    push_json_bool(&mut out, person_id_present);
    out.append(",\"refresh_token_present\":");
    push_json_bool(&mut out, refresh_token_present);
    out.append("}");
    out
}

/// Each flag of the status document is written from its own value alone:
/// the document opens with `{"has_token":` and `true` exactly when there is
/// a token, whatever the other two flags are; the person-id flag and the
/// refresh-token flag follow under their keys the same way; and documents
/// that differ in one flag differ in nothing else.
pub proof fn law_status_flags_independent(h: bool, p: bool, r: bool, h2: bool, p2: bool, r2: bool)
    ensures
        status_text(h, p, r) == "{\"has_token\":"@ + (if h {
            "true"@
        } else {
            "false"@
        }) + ",\"person_id_present\":"@ + (if p {
            "true"@
        } else {
            "false"@
        }) + ",\"refresh_token_present\":"@ + (if r {
            "true"@
        } else {
            "false"@
        }) + "}"@,
        (status_text(h, p, r) == status_text(h2, p2, r2)) <==> (h == h2 && p == p2 && r == r2),
{
    reveal_strlit("true");
    reveal_strlit("false");
    reveal_strlit("{\"has_token\":");
    reveal_strlit(",\"person_id_present\":");
    reveal_strlit(",\"refresh_token_present\":");
    reveal_strlit("}");
    let a = status_text(h, p, r);
    let b = status_text(h2, p2, r2);
    if a == b {
        // "{\"has_token\":" is 13 characters; "true" and "false" differ at
        // their first character, as do the later flags once the earlier agree.
        assert(a[13] == b[13]);
        if h == h2 {
            let k = if h { 17int } else { 18int };
            assert(a[k + 21] == b[k + 21]);
            if p == p2 {
                let m = k + 21 + if p { 4int } else { 5int };
                assert(a[m + 25] == b[m + 25]);
            }
        }
    }
}

} // verus!
