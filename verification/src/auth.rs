//! The one-time OAuth authorization: what is sent to LinkedIn, what is read
//! from its replies, how the member is identified, and the order of the
//! steps.

use vstd::prelude::*;
use crate::json::{
    field_text, field_unsigned, json_bytes_field, json_quoted, json_string, json_text_field,
    lookup_bytes_field, lookup_text_field, lookup_view, JsonField,
    JsonFieldView,
};
use crate::model::{Credentials, CredentialsView, Token, TokenView};
use crate::num::{decimal, decimal_string};
use crate::post::{HttpReply, HttpReplyView, success};
use crate::text::{after, after_char, before, before_char, chars_of, string_of, strip_trailing, strip_trailing_chars};
use crate::url::{auth_code, authorization_url, authorization_url_for, exchange_form, exchange_form_for, extract_auth_code};

verus! {

/// What the URL-safe base64 engine without padding decodes from `s`, if it
/// accepts `s`.
pub uninterp spec fn base64_url_decoded(s: Seq<char>) -> Option<Seq<u8>>;

/// `base64::engine::general_purpose::URL_SAFE_NO_PAD.decode`. The contract
/// only names the outcome, which depends on `s` alone; the alphabet and the
/// engine's rules on length, padding and trailing bits are not restated.
#[verifier::external_body]
pub(crate) fn decode_base64_url(s: &str) -> (r: Option<Vec<u8>>)
    ensures
        r matches Some(v) ==> base64_url_decoded(s@) == Some(v@),
        r is None ==> base64_url_decoded(s@) is None,
{
    base64::Engine::decode(&base64::engine::general_purpose::URL_SAFE_NO_PAD, s).ok()
}

/// The middle part of a JSON web token: what stands between its first and
/// its second `.`, when it has a `.` at all.
pub open spec fn id_token_payload(id_token: Seq<char>) -> Option<Seq<char>> {
    match after(id_token, '.') {
        Some(rest) => Some(before(rest, '.')),
        None => None,
    }
}

/// The payload with base64 padding added for its UTF-8 length: `==` when
/// the length leaves 2 modulo 4, `=` when it leaves 3.
pub open spec fn padded(payload: Seq<char>) -> Seq<char> {
    let n = vstd::utf8::encode_utf8(payload).len() % 4;
    if n == 2 {
        payload + "=="@
    } else if n == 3 {
        payload + "="@
    } else {
        payload
    }
}

/// The text handed to the base64 decoder for an id token: its payload,
/// padded and then stripped of trailing `=`; none when the token has no `.`.
pub open spec fn decoder_input(id_token: Seq<char>) -> Option<Seq<char>> {
    match id_token_payload(id_token) {
        Some(p) => Some(strip_trailing(padded(p), '=')),
        None => None,
    }
}

/// The member named by a `sub` claim: the claim when it is a string, empty
/// otherwise (and when the claims do not parse).
pub open spec fn person_in_claims(sub: Result<JsonFieldView, Seq<char>>) -> Seq<char> {
    match field_text(sub) {
        Some(s) => s,
        None => seq![],
    }
}

/// The member named by the `sub` claim of an id token; empty when the
/// token has no payload, the payload does not decode, or the claims hold no
/// string `sub`.
pub open spec fn person_in_id_token(id_token: Seq<char>) -> Seq<char> {
    match decoder_input(id_token) {
        None => seq![],
        Some(input) => match base64_url_decoded(input) {
            None => seq![],
            Some(bytes) => person_in_claims(json_bytes_field(bytes, "sub"@)),
        },
    }
}

/// Adds base64 padding to a payload.
fn pad_payload(payload: String) -> (r: String)
    ensures
        r@ == padded(payload@),
{
    let n = payload.as_str().as_bytes().len() % 4;
    let mut r = payload;
    if n == 2 {
        r.append("==");
    } else if n == 3 {
        r.append("=");
    }
    r
}

/// Builds the text handed to the base64 decoder for an id token.
pub fn id_token_decoder_input(id_token: &str) -> (r: Option<String>)
    ensures
        match r {
            Some(t) => decoder_input(id_token@) == Some(t@),
            None => decoder_input(id_token@) is None,
        },
{
    let cs = chars_of(id_token);
    let payload = match after_char(&cs, '.') {
        Some(rest) => before_char(&rest, '.'),
        None => {
            return None;
        },
    };
    let padded_payload = pad_payload(string_of(payload.as_slice()));
    let pc = chars_of(padded_payload.as_str());
    Some(string_of(strip_trailing_chars(&pc, '=').as_slice()))
}

/// Reads the member from what the claims hold under `sub`.
pub fn person_from_claims(sub: Result<JsonField, String>) -> (r: String)
    ensures
        r@ == person_in_claims(lookup_view(sub)),
{
    match sub {
        Ok(JsonField::Text(s)) => s,
        _ => String::new(),
    }
}

/// Reads the member from an id token's `sub` claim.
pub fn person_from_id_token(id_token: &str) -> (r: String)
    ensures
        r@ == person_in_id_token(id_token@),
{
    match id_token_decoder_input(id_token) {
        None => String::new(),
        Some(input) => match decode_base64_url(input.as_str()) {
            None => String::new(),
            Some(bytes) => person_from_claims(lookup_bytes_field(bytes.as_slice(), "sub")),
        },
    }
}

proof fn lemma_strip_appended(p: Seq<char>, k: nat)
    ensures
        strip_trailing(p + Seq::new(k, |i: int| '='), '=') == strip_trailing(p, '='),
    decreases k,
{
    let q = p + Seq::new(k, |i: int| '=');
    if k > 0 {
        assert(q.drop_last() =~= p + Seq::new((k - 1) as nat, |i: int| '='));
        lemma_strip_appended(p, (k - 1) as nat);
    } else {
        assert(q =~= p);
    }
}

/// Padding the payload and then trimming trailing `=` gives the same text
/// as trimming the payload alone: the padding never reaches the decoder.
pub proof fn law_padding_is_trimmed(payload: Seq<char>)
    ensures
        strip_trailing(padded(payload), '=') == strip_trailing(payload, '='),
{
    reveal_strlit("==");
    reveal_strlit("=");
    let n = vstd::utf8::encode_utf8(payload).len() % 4;
    if n == 2 {
        assert("=="@ =~= Seq::new(2, |i: int| '='));
        lemma_strip_appended(payload, 2);
    } else if n == 3 {
        assert("="@ =~= Seq::new(1, |i: int| '='));
        lemma_strip_appended(payload, 1);
    }
}

/// The member named by the userinfo endpoint's reply, from its status and
/// what its body holds under `sub`: the claim on a successful reply, empty
/// otherwise.
pub open spec fn person_in_userinfo_reply(status: u16, sub: Result<JsonFieldView, Seq<char>>) -> Seq<
    char,
> {
    if success(status) {
        person_in_claims(sub)
    } else {
        seq![]
    }
}

/// The member named by the userinfo endpoint's reply as serde_json reads
/// it; empty when no reply came.
pub open spec fn person_in_userinfo(reply: Option<HttpReplyView>) -> Seq<char> {
    match reply {
        Some(r) => person_in_userinfo_reply(r.status, json_text_field(r.body, "sub"@)),
        None => seq![],
    }
}

/// Reads the member from the userinfo reply's status and what its body
/// holds under `sub`.
pub fn person_from_userinfo_reply(status: u16, sub: Result<JsonField, String>) -> (r: String)
    ensures
        r@ == person_in_userinfo_reply(status, lookup_view(sub)),
{
    if 200 <= status && status <= 299 {
        person_from_claims(sub)
    } else {
        String::new()
    }
}

/// Reads the member from the userinfo endpoint's reply.
pub fn person_from_userinfo(reply: &Option<HttpReply>) -> (r: String)
    ensures
        r@ == person_in_userinfo(
            match reply {
                Some(x) => Some(x@),
                None => None,
            },
        ),
{
    match reply {
        Some(x) => person_from_userinfo_reply(x.status, lookup_text_field(x.body.as_str(), "sub")),
        None => String::new(),
    }
}

/// What a successful code exchange grants.
pub struct Grant {
    pub access_token: String,
    pub refresh_token: String,
    pub expires_in: u64,
    pub id_token: Option<String>,
}

/// The mathematical model of a [`Grant`].
pub struct GrantView {
    pub access_token: Seq<char>,
    pub refresh_token: Seq<char>,
    pub expires_in: u64,
    pub id_token: Option<Seq<char>>,
}

impl View for Grant {
    type V = GrantView;

    open spec fn view(&self) -> GrantView {
        GrantView {
            access_token: self.access_token@,
            refresh_token: self.refresh_token@,
            expires_in: self.expires_in,
            id_token: match self.id_token {
                Some(t) => Some(t@),
                None => None,
            },
        }
    }
}

/// Why the authorization stopped.
pub enum AuthFailure {
    /// The credentials could not be loaded.
    Credentials(String),
    /// The callback request carried no code.
    NoCode { request: String },
    /// LinkedIn refused the code exchange.
    ExchangeRejected { status_line: String, body: String },
    /// The exchange reply is not JSON.
    Unparsable { message: String, body: String },
    /// The exchange reply holds an `error` (both values rendered as JSON).
    Refused { error: String, description: String },
    /// The exchange reply holds no access token.
    NoAccessToken { body: String },
    /// Neither the id token nor the userinfo endpoint named the member.
    NoPersonId,
    /// The token could not be saved.
    Save(String),
}

/// The mathematical model of an [`AuthFailure`].
pub enum AuthFailureView {
    Credentials(Seq<char>),
    NoCode { request: Seq<char> },
    ExchangeRejected { status_line: Seq<char>, body: Seq<char> },
    Unparsable { message: Seq<char>, body: Seq<char> },
    Refused { error: Seq<char>, description: Seq<char> },
    NoAccessToken { body: Seq<char> },
    NoPersonId,
    Save(Seq<char>),
}

impl View for AuthFailure {
    type V = AuthFailureView;

    open spec fn view(&self) -> AuthFailureView {
        match self {
            AuthFailure::Credentials(e) => AuthFailureView::Credentials(e@),
            AuthFailure::NoCode { request } => AuthFailureView::NoCode { request: request@ },
            AuthFailure::ExchangeRejected { status_line, body } => AuthFailureView::ExchangeRejected {
                status_line: status_line@,
                body: body@,
            },
            AuthFailure::Unparsable { message, body } => AuthFailureView::Unparsable {
                message: message@,
                body: body@,
            },
            AuthFailure::Refused { error, description } => AuthFailureView::Refused {
                error: error@,
                description: description@,
            },
            AuthFailure::NoAccessToken { body } => AuthFailureView::NoAccessToken { body: body@ },
            AuthFailure::NoPersonId => AuthFailureView::NoPersonId,
            AuthFailure::Save(e) => AuthFailureView::Save(e@),
        }
    }
}

/// A JSON value as it is displayed: strings quoted, numbers in decimal,
/// other values as given; `null` where there is none.
pub open spec fn rendered(f: Result<JsonFieldView, Seq<char>>) -> Seq<char> {
    match f {
        Ok(JsonFieldView::Text(s)) => json_quoted(s),
        Ok(JsonFieldView::Unsigned(n)) => decimal(n as nat),
        Ok(JsonFieldView::Other(t)) => t,
        _ => "null"@,
    }
}

fn render(f: Result<JsonField, String>) -> (r: String)
    ensures
        r@ == rendered(crate::json::lookup_view(f)),
{
    match f {
        Ok(JsonField::Text(s)) => json_string(s.as_str()),
        Ok(JsonField::Unsigned(n)) => decimal_string(n),
        Ok(JsonField::Other(t)) => t,
        _ => String::from_str("null"),
    }
}

/// What the code exchange reply grants, from its status, its body and what
/// the body holds under `error`, `error_description`, `access_token`,
/// `refresh_token`, `expires_in` and `id_token`: refused unless the reply
/// succeeded, the body parses, holds no `error` and holds a non-empty access
/// token; then the access token, the refresh token (else empty), the
/// lifetime (else 0) and the id token if it is a string.
pub open spec fn grant_with(
    r: HttpReplyView,
    error: Result<JsonFieldView, Seq<char>>,
    description: Result<JsonFieldView, Seq<char>>,
    access: Result<JsonFieldView, Seq<char>>,
    refresh: Result<JsonFieldView, Seq<char>>,
    expires: Result<JsonFieldView, Seq<char>>,
    id_token: Result<JsonFieldView, Seq<char>>,
) -> Result<GrantView, AuthFailureView> {
    if !success(r.status) {
        Err(AuthFailureView::ExchangeRejected { status_line: r.status_line, body: r.body })
    } else {
        match error {
            Err(e) => Err(AuthFailureView::Unparsable { message: e, body: r.body }),
            Ok(f) => if !(f is Missing) {
                Err(
                    AuthFailureView::Refused {
                        error: rendered(Ok(f)),
                        description: rendered(description),
                    },
                )
            } else {
                let access_token = match field_text(access) {
                    Some(s) => s,
                    None => seq![],
                };
                if access_token.len() == 0 {
                    Err(AuthFailureView::NoAccessToken { body: r.body })
                } else {
                    Ok(
                        GrantView {
                            access_token: access_token,
                            refresh_token: match field_text(refresh) {
                                Some(s) => s,
                                None => seq![],
                            },
                            expires_in: match field_unsigned(expires) {
                                Some(n) => n,
                                None => 0,
                            },
                            id_token: field_text(id_token),
                        },
                    )
                }
            },
        }
    }
}

/// What the code exchange reply grants, as serde_json reads its body.
pub open spec fn grant_of(r: HttpReplyView) -> Result<GrantView, AuthFailureView> {
    grant_with(
        r,
        json_text_field(r.body, "error"@),
        json_text_field(r.body, "error_description"@),
        json_text_field(r.body, "access_token"@),
        json_text_field(r.body, "refresh_token"@),
        json_text_field(r.body, "expires_in"@),
        json_text_field(r.body, "id_token"@),
    )
}

/// The model of a grant or a failure.
pub open spec fn grant_result_view(r: Result<Grant, AuthFailure>) -> Result<GrantView, AuthFailureView> {
    match r {
        Ok(g) => Ok(g@),
        Err(f) => Err(f@),
    }
}

/// Builds the grant of a code exchange reply from its status, its body and
/// what the body holds under `error`, `error_description`, `access_token`,
/// `refresh_token`, `expires_in` and `id_token`.
pub fn grant_from(
    reply: &HttpReply,
    error: Result<JsonField, String>,
    description: Result<JsonField, String>,
    access: Result<JsonField, String>,
    refresh: Result<JsonField, String>,
    expires: Result<JsonField, String>,
    id_token: Result<JsonField, String>,
) -> (r: Result<Grant, AuthFailure>)
    ensures
        grant_result_view(r) == grant_with(
            reply@,
            lookup_view(error),
            lookup_view(description),
            lookup_view(access),
            lookup_view(refresh),
            lookup_view(expires),
            lookup_view(id_token),
        ),
{
    if !(200 <= reply.status && reply.status <= 299) {
        return Err(
            AuthFailure::ExchangeRejected {
                status_line: reply.status_line.clone(),
                body: reply.body.clone(),
            },
        );
    }
    match error {
        Err(e) => {
            return Err(AuthFailure::Unparsable { message: e, body: reply.body.clone() });
        },
        Ok(JsonField::Missing) => {},
        Ok(f) => {
            let error = render(Ok(f));
            let description = render(description);
            return Err(AuthFailure::Refused { error, description });
        },
    }
    let access_token = match access {
        Ok(JsonField::Text(s)) => s,
        _ => String::new(),
    };
    if access_token.as_str().is_empty() {
        return Err(AuthFailure::NoAccessToken { body: reply.body.clone() });
    }
    let refresh_token = match refresh {
        Ok(JsonField::Text(s)) => s,
        _ => String::new(),
    };
    let expires_in = match expires {
        Ok(JsonField::Unsigned(n)) => n,
        _ => 0,
    };
    let id_token = match id_token {
        Ok(JsonField::Text(s)) => Some(s),
        _ => None,
    };
    Ok(Grant { access_token, refresh_token, expires_in, id_token })
}

/// Reads what the code exchange reply grants.
pub fn read_grant(reply: &HttpReply) -> (r: Result<Grant, AuthFailure>)
    ensures
        grant_result_view(r) == grant_of(reply@),
{
    let body = reply.body.as_str();
    let error = lookup_text_field(body, "error");
    let description = lookup_text_field(body, "error_description");
    let access = lookup_text_field(body, "access_token");
    let refresh = lookup_text_field(body, "refresh_token");
    let expires = lookup_text_field(body, "expires_in");
    let id_token = lookup_text_field(body, "id_token");
    grant_from(reply, error, description, access, refresh, expires, id_token)
}

/// The token stored for a grant and the member it names.
pub open spec fn token_of(g: GrantView, person_id: Seq<char>) -> TokenView {
    TokenView {
        access_token: g.access_token,
        refresh_token: g.refresh_token,
        person_id: person_id,
        expires_in: g.expires_in,
    }
}

/// The member named by a grant's id token; empty without one.
pub open spec fn person_in_grant(g: GrantView) -> Seq<char> {
    match g.id_token {
        Some(t) => person_in_id_token(t),
        None => seq![],
    }
}

/// Where the authorization stands.
#[derive(PartialEq, Eq, Structural, Clone, Copy)]
pub enum AuthStage {
    /// The app's credentials are being loaded.
    AwaitCredentials,
    /// The member is sent to LinkedIn; the callback request is awaited.
    AwaitCallback,
    /// The code was sent for exchange.
    AwaitTokenReply,
    /// The userinfo endpoint was asked for the member.
    AwaitUserinfo,
    /// The token is being saved.
    AwaitSave,
    /// The outcome is known.
    Finished,
}

/// The authorization in progress: its stage and what it has learned.
pub struct AuthFlow {
    pub stage: AuthStage,
    pub creds: Option<Credentials>,
    pub grant: Option<Grant>,
    pub token: Option<Token>,
}

/// The mathematical model of an [`AuthFlow`].
pub struct AuthFlowView {
    pub stage: AuthStage,
    pub creds: Option<CredentialsView>,
    pub grant: Option<GrantView>,
    pub token: Option<TokenView>,
}

impl View for AuthFlow {
    type V = AuthFlowView;

    open spec fn view(&self) -> AuthFlowView {
        AuthFlowView {
            stage: self.stage,
            creds: match self.creds {
                Some(c) => Some(c@),
                None => None,
            },
            grant: match self.grant {
                Some(g) => Some(g@),
                None => None,
            },
            token: match self.token {
                Some(t) => Some(t@),
                None => None,
            },
        }
    }
}

/// What the caller does next for the authorization.
pub enum AuthAction {
    /// Load the app's credentials.
    LoadCredentials,
    /// Send the member to `url` and wait for the callback request.
    Authorize { url: String },
    /// Send `form` to LinkedIn's token endpoint.
    Exchange { form: String },
    /// Ask the userinfo endpoint who owns `access_token`.
    FetchUserinfo { access_token: String },
    /// Save this token.
    Save(Token),
    /// The authorization stored this token.
    Done(Token),
    /// The authorization failed.
    Fail(AuthFailure),
}

/// The mathematical model of an [`AuthAction`].
pub enum AuthActionView {
    LoadCredentials,
    Authorize { url: Seq<char> },
    Exchange { form: Seq<char> },
    FetchUserinfo { access_token: Seq<char> },
    Save(TokenView),
    Done(TokenView),
    Fail(AuthFailureView),
}

impl View for AuthAction {
    type V = AuthActionView;

    open spec fn view(&self) -> AuthActionView {
        match self {
            AuthAction::LoadCredentials => AuthActionView::LoadCredentials,
            AuthAction::Authorize { url } => AuthActionView::Authorize { url: url@ },
            AuthAction::Exchange { form } => AuthActionView::Exchange { form: form@ },
            AuthAction::FetchUserinfo { access_token } => AuthActionView::FetchUserinfo {
                access_token: access_token@,
            },
            AuthAction::Save(t) => AuthActionView::Save(t@),
            AuthAction::Done(t) => AuthActionView::Done(t@),
            AuthAction::Fail(f) => AuthActionView::Fail(f@),
        }
    }
}

/// What happened to the caller's last action.
pub enum AuthEvent {
    /// The credentials, or why they could not be loaded.
    Credentials(Result<Credentials, String>),
    /// The callback request, as text.
    Callback(String),
    /// The code exchange reply.
    TokenReply(HttpReply),
    /// The userinfo reply; none when it could not be had.
    Userinfo(Option<HttpReply>),
    /// Whether the token was saved.
    Saved(Result<(), String>),
}

/// The mathematical model of an [`AuthEvent`].
pub enum AuthEventView {
    Credentials(Result<CredentialsView, Seq<char>>),
    Callback(Seq<char>),
    TokenReply(HttpReplyView),
    Userinfo(Option<HttpReplyView>),
    Saved(Result<(), Seq<char>>),
}

impl View for AuthEvent {
    type V = AuthEventView;

    open spec fn view(&self) -> AuthEventView {
        match self {
            AuthEvent::Credentials(r) => AuthEventView::Credentials(
                match r {
                    Ok(c) => Ok(c@),
                    Err(e) => Err(e@),
                },
            ),
            AuthEvent::Callback(s) => AuthEventView::Callback(s@),
            AuthEvent::TokenReply(r) => AuthEventView::TokenReply(r@),
            AuthEvent::Userinfo(r) => AuthEventView::Userinfo(
                match r {
                    Some(x) => Some(x@),
                    None => None,
                },
            ),
            AuthEvent::Saved(r) => AuthEventView::Saved(
                match r {
                    Ok(_) => Ok(()),
                    Err(e) => Err(e@),
                },
            ),
        }
    }
}

/// The authorization's state once its outcome is known.
pub open spec fn auth_finished(st: AuthFlowView) -> AuthFlowView {
    AuthFlowView { stage: AuthStage::Finished, ..st }
}

/// One step of the authorization: the state it moves to and the next
/// action; `None` for an event that does not answer the stage's action.
pub open spec fn auth_next(st: AuthFlowView, event: AuthEventView) -> Option<
    (AuthFlowView, AuthActionView),
> {
    match (st.stage, event) {
        (AuthStage::AwaitCredentials, AuthEventView::Credentials(Err(e))) => Some(
            (auth_finished(st), AuthActionView::Fail(AuthFailureView::Credentials(e))),
        ),
        (AuthStage::AwaitCredentials, AuthEventView::Credentials(Ok(c))) => Some(
            (
                AuthFlowView { stage: AuthStage::AwaitCallback, creds: Some(c), ..st },
                AuthActionView::Authorize { url: authorization_url(c.client_id) },
            ),
        ),
        (AuthStage::AwaitCallback, AuthEventView::Callback(request)) => match st.creds {
            None => None,
            Some(c) => {
                let code = auth_code(request);
                if code.len() == 0 {
                    Some(
                        (
                            auth_finished(st),
                            AuthActionView::Fail(AuthFailureView::NoCode { request }),
                        ),
                    )
                } else {
                    Some(
                        (
                            AuthFlowView { stage: AuthStage::AwaitTokenReply, ..st },
                            AuthActionView::Exchange { form: exchange_form(code, c) },
                        ),
                    )
                }
            },
        },
        (AuthStage::AwaitTokenReply, AuthEventView::TokenReply(r)) => match grant_of(r) {
            Err(f) => Some((auth_finished(st), AuthActionView::Fail(f))),
            Ok(g) => {
                let person = person_in_grant(g);
                if person.len() != 0 {
                    Some(
                        (
                            AuthFlowView {
                                stage: AuthStage::AwaitSave,
                                grant: Some(g),
                                token: Some(token_of(g, person)),
                                ..st
                            },
                            AuthActionView::Save(token_of(g, person)),
                        ),
                    )
                } else {
                    Some(
                        (
                            AuthFlowView { stage: AuthStage::AwaitUserinfo, grant: Some(g), ..st },
                            AuthActionView::FetchUserinfo { access_token: g.access_token },
                        ),
                    )
                }
            },
        },
        (AuthStage::AwaitUserinfo, AuthEventView::Userinfo(r)) => match st.grant {
            None => None,
            Some(g) => {
                let person = person_in_userinfo(r);
                if person.len() == 0 {
                    Some((auth_finished(st), AuthActionView::Fail(AuthFailureView::NoPersonId)))
                } else {
                    Some(
                        (
                            AuthFlowView {
                                stage: AuthStage::AwaitSave,
                                token: Some(token_of(g, person)),
                                ..st
                            },
                            AuthActionView::Save(token_of(g, person)),
                        ),
                    )
                }
            },
        },
        (AuthStage::AwaitSave, AuthEventView::Saved(Err(e))) => Some(
            (auth_finished(st), AuthActionView::Fail(AuthFailureView::Save(e))),
        ),
        (AuthStage::AwaitSave, AuthEventView::Saved(Ok(()))) => match st.token {
            None => None,
            Some(t) => Some((auth_finished(st), AuthActionView::Done(t))),
        },
        _ => None,
    }
}

/// The authorization's first state: nothing learned yet.
pub open spec fn auth_initial() -> AuthFlowView {
    AuthFlowView { stage: AuthStage::AwaitCredentials, creds: None, grant: None, token: None }
}

impl AuthFlow {
    /// Whether `event` answers the action this stage waits on, with what
    /// the flow must hold at that stage: the credentials once the member is
    /// sent to LinkedIn, the grant while the userinfo endpoint is asked, the
    /// token while it is saved.
    pub open spec fn accepts(&self, event: AuthEventView) -> bool {
        match (self.stage, event) {
            (AuthStage::AwaitCredentials, AuthEventView::Credentials(_)) => true,
            (AuthStage::AwaitCallback, AuthEventView::Callback(_)) => self.creds is Some,
            (AuthStage::AwaitTokenReply, AuthEventView::TokenReply(_)) => true,
            (AuthStage::AwaitUserinfo, AuthEventView::Userinfo(_)) => self.grant is Some,
            (AuthStage::AwaitSave, AuthEventView::Saved(_)) => self.token is Some,
            _ => false,
        }
    }

    /// Starts the authorization by loading the credentials.
    pub fn start() -> (r: (AuthFlow, AuthAction))
        ensures
            r.0@ == auth_initial(),
            r.1@ == AuthActionView::LoadCredentials,
    {
        (
            AuthFlow { stage: AuthStage::AwaitCredentials, creds: None, grant: None, token: None },
            AuthAction::LoadCredentials,
        )
    }

    /// Takes the event that answers the last action and gives the next one.
    pub fn step(self, event: AuthEvent) -> (r: (AuthFlow, AuthAction))
        requires
            self.accepts(event@),
        ensures
            auth_next(self@, event@) == Some((r.0@, r.1@)),
    {
        let AuthFlow { stage, creds, grant, token } = self;
        match event {
            AuthEvent::Credentials(Err(e)) => (
                AuthFlow { stage: AuthStage::Finished, creds, grant, token },
                AuthAction::Fail(AuthFailure::Credentials(e)),
            ),
            AuthEvent::Credentials(Ok(c)) => {
                let url = authorization_url_for(c.client_id.as_str());
                (
                    AuthFlow { stage: AuthStage::AwaitCallback, creds: Some(c), grant, token },
                    AuthAction::Authorize { url },
                )
            },
            AuthEvent::Callback(request) => {
                let code = extract_auth_code(request.as_str());
                if code.as_str().is_empty() {
                    (
                        AuthFlow { stage: AuthStage::Finished, creds, grant, token },
                        AuthAction::Fail(AuthFailure::NoCode { request }),
                    )
                } else {
                    let form = match &creds {
                        Some(c) => exchange_form_for(code.as_str(), c),
                        None => {
                            proof {
                                assert(false);
                            }
                            String::new()
                        },
                    };
                    (
                        AuthFlow { stage: AuthStage::AwaitTokenReply, creds, grant, token },
                        AuthAction::Exchange { form },
                    )
                }
            },
            AuthEvent::TokenReply(reply) => match read_grant(&reply) {
                Err(f) => (
                    AuthFlow { stage: AuthStage::Finished, creds, grant, token },
                    AuthAction::Fail(f),
                ),
                Ok(g) => {
                    let person = match &g.id_token {
                        Some(t) => person_from_id_token(t.as_str()),
                        None => String::new(),
                    };
                    if !person.as_str().is_empty() {
                        let t = Token {
                            access_token: g.access_token.clone(),
                            refresh_token: g.refresh_token.clone(),
                            person_id: person,
                            expires_in: g.expires_in,
                        };
                        let copy = t.duplicate();
                        (
                            AuthFlow {
                                stage: AuthStage::AwaitSave,
                                creds,
                                grant: Some(g),
                                token: Some(t),
                            },
                            AuthAction::Save(copy),
                        )
                    } else {
                        let access = g.access_token.clone();
                        (
                            AuthFlow { stage: AuthStage::AwaitUserinfo, creds, grant: Some(g), token },
                            AuthAction::FetchUserinfo { access_token: access },
                        )
                    }
                },
            },
            AuthEvent::Userinfo(reply) => {
                let person = person_from_userinfo(&reply);
                if person.as_str().is_empty() {
                    (
                        AuthFlow { stage: AuthStage::Finished, creds, grant, token },
                        AuthAction::Fail(AuthFailure::NoPersonId),
                    )
                } else {
                    let t = match &grant {
                        Some(g) => Token {
                            access_token: g.access_token.clone(),
                            refresh_token: g.refresh_token.clone(),
                            person_id: person,
                            expires_in: g.expires_in,
                        },
                        None => {
                            proof {
                                assert(false);
                            }
                            Token {
                                access_token: String::new(),
                                refresh_token: String::new(),
                                person_id: person,
                                expires_in: 0,
                            }
                        },
                    };
                    let copy = t.duplicate();
                    (
                        AuthFlow { stage: AuthStage::AwaitSave, creds, grant, token: Some(t) },
                        AuthAction::Save(copy),
                    )
                }
            },
            AuthEvent::Saved(Err(e)) => (
                AuthFlow { stage: AuthStage::Finished, creds, grant, token },
                AuthAction::Fail(AuthFailure::Save(e)),
            ),
            AuthEvent::Saved(Ok(())) => {
                let t = match &token {
                    Some(t) => t.duplicate(),
                    None => {
                        proof {
                            assert(false);
                        }
                        Token {
                            access_token: String::new(),
                            refresh_token: String::new(),
                            person_id: String::new(),
                            expires_in: 0,
                        }
                    },
                };
                (
                    AuthFlow { stage: AuthStage::Finished, creds, grant, token },
                    AuthAction::Done(t),
                )
            },
        }
    }
}

/// The actions the authorization takes for a sequence of events; it stops
/// at the first event that does not answer its stage.
pub open spec fn auth_run(st: AuthFlowView, events: Seq<AuthEventView>) -> Seq<AuthActionView>
    decreases events.len(),
{
    if events.len() == 0 {
        seq![]
    } else {
        match auth_next(st, events[0]) {
            None => seq![],
            Some((next, action)) => seq![action] + auth_run(next, events.skip(1)),
        }
    }
}

/// A token fit to be stored: it has an access token and names a member.
pub open spec fn usable(t: TokenView) -> bool {
    t.access_token.len() > 0 && t.person_id.len() > 0
}

proof fn lemma_grant_has_access(r: HttpReplyView)
    ensures
        grant_of(r) matches Ok(g) ==> g.access_token.len() > 0,
{
}

proof fn lemma_auth_run(st: AuthFlowView, events: Seq<AuthEventView>)
    requires
        st.token matches Some(t) ==> usable(t),
        st.grant matches Some(g) ==> g.access_token.len() > 0,
    ensures
        forall|i: int|
            #![trigger auth_run(st, events)[i]]
            0 <= i < auth_run(st, events).len() ==> {
                &&& auth_run(st, events)[i] matches AuthActionView::Save(t) ==> usable(t)
                &&& auth_run(st, events)[i] matches AuthActionView::Done(t) ==> {
                    &&& usable(t)
                    &&& i == 0 ==> st.stage == AuthStage::AwaitSave && st.token == Some(t)
                    &&& i > 0 ==> auth_run(st, events)[i - 1] == AuthActionView::Save(t)
                }
            },
    decreases events.len(),
{
    let run = auth_run(st, events);
    if events.len() > 0 {
        match auth_next(st, events[0]) {
            None => {},
            Some((next, action)) => {
                if let AuthEventView::TokenReply(r) = events[0] {
                    lemma_grant_has_access(r);
                }
                assert(next.token matches Some(t) ==> usable(t));
                lemma_auth_run(next, events.skip(1));
                let rest = auth_run(next, events.skip(1));
                assert(run == seq![action] + rest);
                assert forall|i: int| #![trigger run[i]] 0 <= i < run.len() implies {
                    &&& run[i] matches AuthActionView::Save(t) ==> usable(t)
                    &&& run[i] matches AuthActionView::Done(t) ==> {
                        &&& usable(t)
                        &&& i == 0 ==> st.stage == AuthStage::AwaitSave && st.token == Some(t)
                        &&& i > 0 ==> run[i - 1] == AuthActionView::Save(t)
                    }
                } by {
                    if i > 0 {
                        assert(run[i] == rest[i - 1]);
                        if i > 1 {
                            assert(run[i - 1] == rest[i - 2]);
                        }
                    }
                }
            },
        }
    }
}

/// Whatever LinkedIn and the browser answer, the authorization saves only a
/// token that has an access token and names a member, and reports success
/// only right after asking for that very token to be saved.
pub proof fn law_auth_stores_usable_token(events: Seq<AuthEventView>)
    ensures
        forall|i: int|
            #![trigger auth_run(auth_initial(), events)[i]]
            0 <= i < auth_run(auth_initial(), events).len() ==> {
                &&& auth_run(auth_initial(), events)[i] matches AuthActionView::Save(t) ==> usable(t)
                &&& auth_run(auth_initial(), events)[i] matches AuthActionView::Done(t) ==> usable(t)
                    && i > 0 && auth_run(auth_initial(), events)[i - 1] == AuthActionView::Save(t)
            },
{
    lemma_auth_run(auth_initial(), events);
}

/// The grant a successful code exchange reply gives carries the reply's
/// access token, its refresh token (empty when the reply has no string
/// there) and its lifetime (0 when the reply has no unsigned number there).
pub proof fn law_grant_from_reply(r: HttpReplyView)
    ensures
        grant_of(r) matches Ok(g) ==> {
            &&& success(r.status)
            &&& json_text_field(r.body, "error"@) == Ok::<JsonFieldView, Seq<char>>(
                JsonFieldView::Missing,
            )
            &&& json_text_field(r.body, "access_token"@) == Ok::<JsonFieldView, Seq<char>>(
                JsonFieldView::Text(g.access_token),
            )
            &&& g.access_token.len() > 0
            &&& g.refresh_token == match json_text_field(r.body, "refresh_token"@) {
                Ok(JsonFieldView::Text(t)) => t,
                _ => seq![],
            }
            &&& g.expires_in == match json_text_field(r.body, "expires_in"@) {
                Ok(JsonFieldView::Unsigned(n)) => n,
                _ => 0u64,
            }
        },
{
}

/// The token the authorization saves is the grant's token unchanged: its
/// access token, refresh token and lifetime are those of the grant the code
/// exchange gave, whether the member was named by the id token or by the
/// userinfo reply, and the member it names is not empty.
pub proof fn law_saved_token_keeps_grant(st: AuthFlowView, event: AuthEventView)
    requires
        auth_next(st, event) matches Some((_, a)) && a is Save,
    ensures
        auth_next(st, event) matches Some((next, AuthActionView::Save(t))) && {
            &&& next.grant matches Some(g)
            &&& t.access_token == g.access_token
            &&& t.refresh_token == g.refresh_token
            &&& t.expires_in == g.expires_in
            &&& t.person_id.len() > 0
            &&& next.token == Some(t)
            &&& match event {
                AuthEventView::TokenReply(r) => grant_of(r) == Ok::<GrantView, AuthFailureView>(g)
                    && t.person_id == person_in_grant(g),
                AuthEventView::Userinfo(u) => st.grant == Some(g) && t.person_id
                    == person_in_userinfo(u),
                _ => false,
            }
        },
{
}

proof fn lemma_strip_trailing_shape(p: Seq<char>, c: char)
    ensures
        strip_trailing(p, c).len() <= p.len(),
        strip_trailing(p, c) == p.take(strip_trailing(p, c).len() as int),
        forall|i: int| strip_trailing(p, c).len() <= i < p.len() ==> p[i] == c,
        strip_trailing(p, c).len() == 0 || strip_trailing(p, c).last() != c,
    decreases p.len(),
{
    if p.len() > 0 && p.last() == c {
        lemma_strip_trailing_shape(p.drop_last(), c);
        let q = strip_trailing(p.drop_last(), c);
        assert(p.drop_last().take(q.len() as int) =~= p.take(q.len() as int));
        assert forall|i: int| q.len() <= i < p.len() implies p[i] == c by {
            if i < p.len() - 1 {
                assert(p[i] == p.drop_last()[i]);
            }
        }
    } else {
        assert(p.take(p.len() as int) =~= p);
    }
}

/// The text handed to the base64url decoder is the id token's middle
/// segment (between its first and second `.`) with its trailing `=` removed
/// and nothing else changed: a prefix of the segment, followed in it only by
/// `=`, and not itself ending in `=`. A token without `.` hands nothing to
/// the decoder.
pub proof fn law_decoder_input_is_segment(head: Seq<char>, segment: Seq<char>, tail: Seq<char>)
    requires
        forall|i: int| 0 <= i < head.len() ==> head[i] != '.',
        forall|i: int| 0 <= i < segment.len() ==> segment[i] != '.',
        tail.len() == 0 || tail[0] == '.',
    ensures
        decoder_input(head + seq!['.'] + segment + tail) matches Some(q) && {
            &&& q.len() <= segment.len()
            &&& q == segment.take(q.len() as int)
            &&& forall|i: int| q.len() <= i < segment.len() ==> segment[i] == '='
            &&& q.len() == 0 || q.last() != '='
        },
        decoder_input(head) is None,
{
    let t = head + seq!['.'] + segment + tail;
    assert(t =~= head + (seq!['.'] + (segment + tail)));
    crate::text::lemma_split_after_prefix(head, seq!['.'] + (segment + tail), '.');
    assert((seq!['.'] + (segment + tail)).skip(1) =~= segment + tail);
    crate::text::lemma_split_after_prefix(segment, tail, '.');
    if tail.len() == 0 {
        assert(segment + before(tail, '.') =~= segment);
    } else {
        assert(segment + before(tail, '.') =~= segment);
    }
    assert(id_token_payload(t) == Some(segment));
    law_padding_is_trimmed(segment);
    lemma_strip_trailing_shape(segment, '=');
    crate::text::lemma_no_split(head, '.');
}

} // verus!
