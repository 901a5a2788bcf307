//! Renewing the stored token with its refresh token: the form sent to
//! LinkedIn, what is read from the reply, and the order of the steps.

use vstd::prelude::*;
use crate::json::{
    field_text, field_unsigned, json_text_field, lookup_text_field, lookup_view, JsonField,
    JsonFieldView,
};
use crate::model::{Credentials, CredentialsView, Token, TokenView};
use crate::post::{HttpReply, HttpReplyView, success};

verus! {

/// The form that asks LinkedIn for a new access token.
pub open spec fn refresh_form(refresh_token: Seq<char>, client_id: Seq<char>, client_secret: Seq<char>) -> Seq<char> {
    "grant_type=refresh_token&refresh_token="@ + refresh_token + "&client_id="@ + client_id
        + "&client_secret="@ + client_secret
}

/// Builds the form that asks LinkedIn for a new access token.
pub fn refresh_form_of(refresh_token: &str, creds: &Credentials) -> (r: String)
    ensures
        r@ == refresh_form(refresh_token@, creds.client_id@, creds.client_secret@),
{
    let mut r = String::from_str("grant_type=refresh_token&refresh_token=");
    r.append(refresh_token);
    r.append("&client_id=");
    r.append(creds.client_id.as_str());
    r.append("&client_secret=");
    r.append(creds.client_secret.as_str());
    r
}

/// The token that a successful refresh reply's body gives, from what the
/// body holds under `access_token`, `refresh_token` and `expires_in`: the
/// access token (which must be a non-empty string), the refresh token or
/// else the current one, the current member, and the lifetime or else 0. A
/// body that does not parse fails with the parser's message.
pub open spec fn renewed_with(
    current: TokenView,
    body: Seq<char>,
    access: Result<JsonFieldView, Seq<char>>,
    refresh: Result<JsonFieldView, Seq<char>>,
    expires: Result<JsonFieldView, Seq<char>>,
) -> Result<TokenView, Seq<char>> {
    match access {
        Err(e) => Err("parse refresh response: "@ + e),
        Ok(f) => {
            let access_token = match f {
                JsonFieldView::Text(s) => s,
                _ => seq![],
            };
            if access_token.len() == 0 {
                Err("no access_token in refresh response: "@ + body)
            } else {
                Ok(
                    TokenView {
                        access_token: access_token,
                        refresh_token: match field_text(refresh) {
                            Some(s) => s,
                            None => current.refresh_token,
                        },
                        person_id: current.person_id,
                        expires_in: match field_unsigned(expires) {
                            Some(n) => n,
                            None => 0,
                        },
                    },
                )
            }
        },
    }
}

/// The token that a successful refresh reply's body gives, as serde_json
/// reads the body.
pub open spec fn renewed_from(current: TokenView, body: Seq<char>) -> Result<TokenView, Seq<char>> {
    renewed_with(
        current,
        body,
        json_text_field(body, "access_token"@),
        json_text_field(body, "refresh_token"@),
        json_text_field(body, "expires_in"@),
    )
}

/// The model of a token or a message.
pub open spec fn token_result_view(r: Result<Token, String>) -> Result<TokenView, Seq<char>> {
    match r {
        Ok(t) => Ok(t@),
        Err(e) => Err(e@),
    }
}

/// Builds the renewed token from what a refresh reply's body holds under
/// `access_token`, `refresh_token` and `expires_in`.
pub fn renew_with(
    current: &Token,
    body: &str,
    access: Result<JsonField, String>,
    refresh: Result<JsonField, String>,
    expires: Result<JsonField, String>,
) -> (r: Result<Token, String>)
    ensures
        token_result_view(r) == renewed_with(
            current@,
            body@,
            lookup_view(access),
            lookup_view(refresh),
            lookup_view(expires),
        ),
{
    let access_token = match access {
        Err(e) => {
            let mut m = String::from_str("parse refresh response: ");
            m.append(e.as_str());
            return Err(m);
        },
        Ok(JsonField::Text(s)) => s,
        Ok(_) => String::new(),
    };
    if access_token.as_str().is_empty() {
        let mut m = String::from_str("no access_token in refresh response: ");
        m.append(body);
        return Err(m);
    }
    let refresh_token = match refresh {
        Ok(JsonField::Text(s)) => s,
        _ => current.refresh_token.clone(),
    };
    let expires_in = match expires {
        Ok(JsonField::Unsigned(n)) => n,
        _ => 0,
    };
    Ok(Token { access_token, refresh_token, person_id: current.person_id.clone(), expires_in })
}

/// Reads the renewed token from a successful refresh reply's body.
pub fn renew_token(current: &Token, body: &str) -> (r: Result<Token, String>)
    ensures
        token_result_view(r) == renewed_from(current@, body@),
{
    let access = lookup_text_field(body, "access_token");
    let refresh = lookup_text_field(body, "refresh_token");
    let expires = lookup_text_field(body, "expires_in");
    renew_with(current, body, access, refresh, expires)
}

/// Why a request to LinkedIn failed: it could not be sent, or its reply's
/// body could not be read.
pub enum TransportError {
    Send(String),
    Read(String),
}

/// The model of a [`TransportError`].
pub enum TransportErrorView {
    Send(Seq<char>),
    Read(Seq<char>),
}

impl View for TransportError {
    type V = TransportErrorView;

    open spec fn view(&self) -> TransportErrorView {
        match self {
            TransportError::Send(e) => TransportErrorView::Send(e@),
            TransportError::Read(e) => TransportErrorView::Read(e@),
        }
    }
}

/// The outcome of a refresh reply: a failure message for a request that
/// failed or was refused, else the renewed token.
pub open spec fn refresh_reply_outcome(current: TokenView, reply: Result<HttpReplyView, TransportErrorView>) -> Result<
    TokenView,
    Seq<char>,
> {
    match reply {
        Err(TransportErrorView::Send(e)) => Err("refresh request failed: "@ + e),
        Err(TransportErrorView::Read(e)) => Err(e),
        Ok(r) => if !success(r.status) {
            Err("refresh failed ("@ + r.status_line + "): "@ + r.body)
        } else {
            renewed_from(current, r.body)
        },
    }
}

/// Where a token refresh stands.
#[derive(PartialEq, Eq, Structural, Clone, Copy)]
pub enum RefreshStage {
    /// The app's credentials are being loaded.
    AwaitCredentials,
    /// The refresh form was sent.
    AwaitReply,
    /// The renewed token is being saved.
    AwaitSave,
    /// The outcome is known.
    Finished,
}

/// A token refresh in progress: its stage, the token it renews, and the
/// renewed token once there is one.
pub struct RefreshFlow {
    pub stage: RefreshStage,
    pub current: Token,
    pub renewed: Option<Token>,
}

/// What the caller does next for a token refresh.
pub enum RefreshAction {
    /// Load the app's credentials.
    LoadCredentials,
    /// Send `form` to LinkedIn's token endpoint.
    Send { form: String },
    /// Save this token.
    Save(Token),
    /// The refresh gives this token (and the caller stores it), or fails
    /// with this message.
    Finish(Result<Token, String>),
}

/// The model of a [`RefreshAction`].
pub enum RefreshActionView {
    LoadCredentials,
    Send { form: Seq<char> },
    Save(TokenView),
    Finish(Result<TokenView, Seq<char>>),
}

impl View for RefreshAction {
    type V = RefreshActionView;

    open spec fn view(&self) -> RefreshActionView {
        match self {
            RefreshAction::LoadCredentials => RefreshActionView::LoadCredentials,
            RefreshAction::Send { form } => RefreshActionView::Send { form: form@ },
            RefreshAction::Save(t) => RefreshActionView::Save(t@),
            RefreshAction::Finish(r) => RefreshActionView::Finish(token_result_view(*r)),
        }
    }
}

/// What happened to the caller's last action.
pub enum RefreshEvent {
    Credentials(Result<Credentials, String>),
    Replied(Result<HttpReply, TransportError>),
    Saved(Result<(), String>),
}

/// The model of a [`RefreshEvent`].
pub enum RefreshEventView {
    Credentials(Result<CredentialsView, Seq<char>>),
    Replied(Result<HttpReplyView, TransportErrorView>),
    Saved(Result<(), Seq<char>>),
}

impl View for RefreshEvent {
    type V = RefreshEventView;

    open spec fn view(&self) -> RefreshEventView {
        match self {
            RefreshEvent::Credentials(r) => RefreshEventView::Credentials(
                match r {
                    Ok(c) => Ok(c@),
                    Err(e) => Err(e@),
                },
            ),
            RefreshEvent::Replied(r) => RefreshEventView::Replied(
                match r {
                    Ok(x) => Ok(x@),
                    Err(e) => Err(e@),
                },
            ),
            RefreshEvent::Saved(r) => RefreshEventView::Saved(
                match r {
                    Ok(_) => Ok(()),
                    Err(e) => Err(e@),
                },
            ),
        }
    }
}

/// The message of a refresh attempted without a refresh token.
pub open spec fn no_refresh_token_message() -> Seq<char> {
    "No refresh_token available. Run `chrome2linkedin-helper auth`."@
}

/// How a refresh starts: without a refresh token it fails at once,
/// otherwise the credentials are loaded.
pub open spec fn refresh_start(current: TokenView) -> (RefreshStage, RefreshActionView) {
    if current.refresh_token.len() == 0 {
        (RefreshStage::Finished, RefreshActionView::Finish(Err(no_refresh_token_message())))
    } else {
        (RefreshStage::AwaitCredentials, RefreshActionView::LoadCredentials)
    }
}

/// One step of a refresh: the stage it moves to, the renewed token it
/// holds, and the next action; `None` for an event that does not answer
/// the stage's action.
pub open spec fn refresh_next(
    stage: RefreshStage,
    current: TokenView,
    renewed: Option<TokenView>,
    event: RefreshEventView,
) -> Option<(RefreshStage, Option<TokenView>, RefreshActionView)> {
    match (stage, event) {
        (RefreshStage::AwaitCredentials, RefreshEventView::Credentials(Err(e))) => Some(
            (RefreshStage::Finished, renewed, RefreshActionView::Finish(Err(e))),
        ),
        (RefreshStage::AwaitCredentials, RefreshEventView::Credentials(Ok(c))) => Some(
            (
                RefreshStage::AwaitReply,
                renewed,
                RefreshActionView::Send {
                    form: refresh_form(current.refresh_token, c.client_id, c.client_secret),
                },
            ),
        ),
        (RefreshStage::AwaitReply, RefreshEventView::Replied(reply)) => match refresh_reply_outcome(
            current,
            reply,
        ) {
            Err(m) => Some((RefreshStage::Finished, renewed, RefreshActionView::Finish(Err(m)))),
            Ok(t) => Some((RefreshStage::AwaitSave, Some(t), RefreshActionView::Save(t))),
        },
        (RefreshStage::AwaitSave, RefreshEventView::Saved(Err(e))) => Some(
            (RefreshStage::Finished, renewed, RefreshActionView::Finish(Err(e))),
        ),
        (RefreshStage::AwaitSave, RefreshEventView::Saved(Ok(()))) => match renewed {
            Some(t) => Some((RefreshStage::Finished, renewed, RefreshActionView::Finish(Ok(t)))),
            None => None,
        },
        _ => None,
    }
}

impl RefreshFlow {
    /// The model of the renewed token.
    pub open spec fn renewed_view(&self) -> Option<TokenView> {
        match self.renewed {
            Some(t) => Some(t@),
            None => None,
        }
    }

    /// Whether `event` answers the action this stage waits on: loaded
    /// credentials, a reply to the form, or the outcome of saving the
    /// renewed token (which the flow then holds).
    pub open spec fn accepts(&self, event: RefreshEventView) -> bool {
        match (self.stage, event) {
            (RefreshStage::AwaitCredentials, RefreshEventView::Credentials(_)) => true,
            (RefreshStage::AwaitReply, RefreshEventView::Replied(_)) => true,
            (RefreshStage::AwaitSave, RefreshEventView::Saved(_)) => self.renewed is Some,
            _ => false,
        }
    }

    /// Starts renewing `current`.
    pub fn start(current: Token) -> (r: (RefreshFlow, RefreshAction))
        ensures
            (r.0.stage, r.1@) == refresh_start(current@),
            r.0.current@ == current@,
            r.0.renewed is None,
    {
        if current.refresh_token.as_str().is_empty() {
            (
                RefreshFlow { stage: RefreshStage::Finished, current, renewed: None },
                RefreshAction::Finish(
                    Err(String::from_str("No refresh_token available. Run `chrome2linkedin-helper auth`.")),
                ),
            )
        } else {
            (
                RefreshFlow { stage: RefreshStage::AwaitCredentials, current, renewed: None },
                RefreshAction::LoadCredentials,
            )
        }
    }

    /// Takes the event that answers the last action and gives the next one.
    pub fn step(self, event: RefreshEvent) -> (r: (RefreshFlow, RefreshAction))
        requires
            self.accepts(event@),
        ensures
            refresh_next(self.stage, self.current@, self.renewed_view(), event@) == Some(
                (r.0.stage, r.0.renewed_view(), r.1@),
            ),
            r.0.current@ == self.current@,
    {
        let RefreshFlow { stage, current, renewed } = self;
        match event {
            RefreshEvent::Credentials(Err(e)) => (
                RefreshFlow { stage: RefreshStage::Finished, current, renewed },
                RefreshAction::Finish(Err(e)),
            ),
            RefreshEvent::Credentials(Ok(c)) => {
                let form = refresh_form_of(current.refresh_token.as_str(), &c);
                (
                    RefreshFlow { stage: RefreshStage::AwaitReply, current, renewed },
                    RefreshAction::Send { form },
                )
            },
            RefreshEvent::Replied(Err(TransportError::Send(e))) => {
                let mut m = String::from_str("refresh request failed: ");
                m.append(e.as_str());
                (
                    RefreshFlow { stage: RefreshStage::Finished, current, renewed },
                    RefreshAction::Finish(Err(m)),
                )
            },
            RefreshEvent::Replied(Err(TransportError::Read(e))) => (
                RefreshFlow { stage: RefreshStage::Finished, current, renewed },
                RefreshAction::Finish(Err(e)),
            ),
            RefreshEvent::Replied(Ok(reply)) => {
                if !(200 <= reply.status && reply.status <= 299) {
                    let mut m = String::from_str("refresh failed (");
                    m.append(reply.status_line.as_str());
                    m.append("): ");
                    m.append(reply.body.as_str());
                    (
                        RefreshFlow { stage: RefreshStage::Finished, current, renewed },
                        RefreshAction::Finish(Err(m)),
                    )
                } else {
                    match renew_token(&current, reply.body.as_str()) {
                        Err(m) => (
                            RefreshFlow { stage: RefreshStage::Finished, current, renewed },
                            RefreshAction::Finish(Err(m)),
                        ),
                        Ok(t) => {
                            let copy = t.duplicate();
                            (
                                RefreshFlow { stage: RefreshStage::AwaitSave, current, renewed: Some(t) },
                                RefreshAction::Save(copy),
                            )
                        },
                    }
                }
            },
            RefreshEvent::Saved(Err(e)) => (
                RefreshFlow { stage: RefreshStage::Finished, current, renewed },
                RefreshAction::Finish(Err(e)),
            ),
            RefreshEvent::Saved(Ok(())) => {
                let t = match &renewed {
                    Some(t) => t.duplicate(),
                    None => {
                        proof {
                            assert(false);
                        }
                        current.duplicate()
                    },
                };
                (
                    RefreshFlow { stage: RefreshStage::Finished, current, renewed },
                    RefreshAction::Finish(Ok(t)),
                )
            },
        }
    }
}

/// The actions a token refresh takes for a sequence of events; it stops at
/// the first event that does not answer its stage.
pub open spec fn refresh_run(
    stage: RefreshStage,
    current: TokenView,
    renewed: Option<TokenView>,
    events: Seq<RefreshEventView>,
) -> Seq<RefreshActionView>
    decreases events.len(),
{
    if events.len() == 0 {
        seq![]
    } else {
        match refresh_next(stage, current, renewed, events[0]) {
            None => seq![],
            Some((next, held, action)) => seq![action] + refresh_run(
                next,
                current,
                held,
                events.skip(1),
            ),
        }
    }
}

/// A renewed token as a refresh may hand it back: it belongs to the same
/// member and has an access token.
pub open spec fn renews(current: TokenView, t: TokenView) -> bool {
    t.person_id == current.person_id && t.access_token.len() > 0
}

proof fn lemma_refresh_run(
    stage: RefreshStage,
    current: TokenView,
    renewed: Option<TokenView>,
    events: Seq<RefreshEventView>,
)
    requires
        renewed matches Some(t) ==> renews(current, t),
    ensures
        forall|i: int|
            #![trigger refresh_run(stage, current, renewed, events)[i]]
            0 <= i < refresh_run(stage, current, renewed, events).len() ==> (
            refresh_run(stage, current, renewed, events)[i] matches RefreshActionView::Finish(
                Ok(t),
            ) ==> {
                &&& renews(current, t)
                &&& i == 0 ==> stage == RefreshStage::AwaitSave && renewed == Some(t)
                &&& i > 0 ==> refresh_run(stage, current, renewed, events)[i - 1]
                    == RefreshActionView::Save(t)
            }),
    decreases events.len(),
{
    let run = refresh_run(stage, current, renewed, events);
    if events.len() > 0 {
        match refresh_next(stage, current, renewed, events[0]) {
            None => {},
            Some((next, held, action)) => {
                assert(held matches Some(t) ==> renews(current, t));
                lemma_refresh_run(next, current, held, events.skip(1));
                let rest = refresh_run(next, current, held, events.skip(1));
                assert(run == seq![action] + rest);
                assert forall|i: int| #![trigger run[i]] 0 <= i < run.len() implies (run[i] matches RefreshActionView::Finish(
                    Ok(t),
                ) ==> {
                    &&& renews(current, t)
                    &&& i == 0 ==> stage == RefreshStage::AwaitSave && renewed == Some(t)
                    &&& i > 0 ==> run[i - 1] == RefreshActionView::Save(t)
                }) by {
                    if i > 0 {
                        assert(run[i] == rest[i - 1]);
                        if i > 1 {
                            assert(run[i - 1] == rest[i - 2]);
                        }
                    }
                }
            },
        }
    }
}

/// Whatever LinkedIn answers, a refresh hands back only a token of the same
/// member with a non-empty access token, and only right after asking for
/// that very token to be saved.
pub proof fn law_refresh_saves_before_use(current: TokenView, events: Seq<RefreshEventView>)
    ensures
        forall|i: int|
            #![trigger refresh_run(refresh_start(current).0, current, None, events)[i]]
            0 <= i < refresh_run(refresh_start(current).0, current, None, events).len() ==> (
            refresh_run(refresh_start(current).0, current, None, events)[i] matches RefreshActionView::Finish(
                Ok(t),
            ) ==> renews(current, t) && i > 0 && refresh_run(
                refresh_start(current).0,
                current,
                None,
                events,
            )[i - 1] == RefreshActionView::Save(t)),
{
    lemma_refresh_run(refresh_start(current).0, current, None, events);
}

/// Two tokens that differ at most in their refresh tokens.
pub open spec fn same_but_refresh_token(t1: TokenView, t2: TokenView) -> bool {
    t1.access_token == t2.access_token && t1.person_id == t2.person_id && t1.expires_in
        == t2.expires_in
}

/// Two held renewed tokens that differ at most in their refresh tokens.
pub open spec fn same_renewed(r1: Option<TokenView>, r2: Option<TokenView>) -> bool {
    match (r1, r2) {
        (Some(t1), Some(t2)) => same_but_refresh_token(t1, t2),
        (None, None) => true,
        _ => false,
    }
}

/// Two events that differ at most in the credentials loaded.
pub open spec fn same_but_credentials(e1: RefreshEventView, e2: RefreshEventView) -> bool {
    match (e1, e2) {
        (RefreshEventView::Credentials(Ok(_)), RefreshEventView::Credentials(Ok(_))) => true,
        _ => e1 == e2,
    }
}

/// Two actions that differ at most in what carries secrets: the form sent
/// (it holds the client secret and the refresh token) and the refresh token
/// of the renewed token.
pub open spec fn same_but_secrets(a1: RefreshActionView, a2: RefreshActionView) -> bool {
    match (a1, a2) {
        (RefreshActionView::Send { .. }, RefreshActionView::Send { .. }) => true,
        (RefreshActionView::Save(t1), RefreshActionView::Save(t2)) => same_but_refresh_token(t1, t2),
        (RefreshActionView::Finish(Ok(t1)), RefreshActionView::Finish(Ok(t2))) => same_but_refresh_token(
            t1,
            t2,
        ),
        _ => a1 == a2,
    }
}

proof fn lemma_refresh_run_secrets(
    stage: RefreshStage,
    c1: TokenView,
    c2: TokenView,
    r1: Option<TokenView>,
    r2: Option<TokenView>,
    events1: Seq<RefreshEventView>,
    events2: Seq<RefreshEventView>,
)
    requires
        c1.person_id == c2.person_id,
        same_renewed(r1, r2),
        events1.len() == events2.len(),
        forall|i: int|
            0 <= i < events1.len() ==> same_but_credentials(#[trigger] events1[i], events2[i]),
    ensures
        refresh_run(stage, c1, r1, events1).len() == refresh_run(stage, c2, r2, events2).len(),
        forall|i: int|
            0 <= i < refresh_run(stage, c1, r1, events1).len() ==> same_but_secrets(
                #[trigger] refresh_run(stage, c1, r1, events1)[i],
                refresh_run(stage, c2, r2, events2)[i],
            ),
    decreases events1.len(),
{
    if events1.len() > 0 {
        assert(same_but_credentials(events1[0], events2[0]));
        let run1 = refresh_run(stage, c1, r1, events1);
        let run2 = refresh_run(stage, c2, r2, events2);
        match (refresh_next(stage, c1, r1, events1[0]), refresh_next(stage, c2, r2, events2[0])) {
            (Some((n1, h1, a1)), Some((n2, h2, a2))) => {
                assert(n1 == n2);
                assert(same_renewed(h1, h2));
                assert(same_but_secrets(a1, a2));
                let rest1 = events1.skip(1);
                let rest2 = events2.skip(1);
                assert forall|i: int| 0 <= i < rest1.len() implies same_but_credentials(
                    #[trigger] rest1[i],
                    rest2[i],
                ) by {
                    assert(rest1[i] == events1[i + 1]);
                    assert(rest2[i] == events2[i + 1]);
                }
                lemma_refresh_run_secrets(n1, c1, c2, h1, h2, rest1, rest2);
                let s1 = refresh_run(n1, c1, h1, rest1);
                let s2 = refresh_run(n1, c2, h2, rest2);
                assert(run1 == seq![a1] + s1);
                assert(run2 == seq![a2] + s2);
                assert forall|i: int| 0 <= i < run1.len() implies same_but_secrets(
                    #[trigger] run1[i],
                    run2[i],
                ) by {
                    if i > 0 {
                        assert(run1[i] == s1[i - 1]);
                        assert(run2[i] == s2[i - 1]);
                    }
                }
            },
            (None, None) => {},
            _ => {
                assert(false);
            },
        }
    }
}

/// Secrets never reach a refresh's failure message: for two refreshes of
/// tokens of the same member that differ in their refresh tokens (both
/// present), with events that differ only in the credentials loaded, the
/// actions are the same but for the forms sent and the renewed tokens'
/// refresh tokens. In particular every failure carries the same message, so
/// neither the client secret nor a refresh token is in it.
pub proof fn law_refresh_errors_ignore_secrets(
    c1: TokenView,
    c2: TokenView,
    events1: Seq<RefreshEventView>,
    events2: Seq<RefreshEventView>,
)
    requires
        c1.person_id == c2.person_id,
        c1.refresh_token.len() > 0,
        c2.refresh_token.len() > 0,
        events1.len() == events2.len(),
        forall|i: int|
            0 <= i < events1.len() ==> same_but_credentials(#[trigger] events1[i], events2[i]),
    ensures
        refresh_start(c1) == refresh_start(c2),
        refresh_run(refresh_start(c1).0, c1, None, events1).len() == refresh_run(
            refresh_start(c2).0,
            c2,
            None,
            events2,
        ).len(),
        forall|i: int|
            0 <= i < refresh_run(refresh_start(c1).0, c1, None, events1).len() ==> same_but_secrets(
                #[trigger] refresh_run(refresh_start(c1).0, c1, None, events1)[i],
                refresh_run(refresh_start(c2).0, c2, None, events2)[i],
            ),
{
    lemma_refresh_run_secrets(refresh_start(c1).0, c1, c2, None, None, events1, events2);
}

/// The refresh form carries the stored refresh token whole, for tokens of
/// any length: after `grant_type=refresh_token&refresh_token=` comes exactly
/// the refresh token, then `&client_id=`, the client id, `&client_secret=`
/// and the client secret; and forms for different refresh tokens differ.
pub proof fn law_refresh_form_carries_token(
    refresh_token: Seq<char>,
    client_id: Seq<char>,
    client_secret: Seq<char>,
    other_token: Seq<char>,
)
    ensures
        ({
            let form = refresh_form(refresh_token, client_id, client_secret);
            let head = "grant_type=refresh_token&refresh_token="@;
            &&& head.is_prefix_of(form)
            &&& form.subrange(head.len() as int, (head.len() + refresh_token.len()) as int) == refresh_token
            &&& form.skip((head.len() + refresh_token.len()) as int) == "&client_id="@ + client_id
                + "&client_secret="@ + client_secret
            &&& form.len() == head.len() + refresh_token.len() + "&client_id="@.len()
                + client_id.len() + "&client_secret="@.len() + client_secret.len()
        }),
        refresh_form(refresh_token, client_id, client_secret) == refresh_form(
            other_token,
            client_id,
            client_secret,
        ) ==> refresh_token == other_token,
{
    let head = "grant_type=refresh_token&refresh_token="@;
    let rest = "&client_id="@ + client_id + "&client_secret="@ + client_secret;
    let form = refresh_form(refresh_token, client_id, client_secret);
    assert(form =~= head + refresh_token + rest);
    assert(form.subrange(0, head.len() as int) =~= head);
    assert(form.subrange(head.len() as int, (head.len() + refresh_token.len()) as int) =~= refresh_token);
    assert(form.skip((head.len() + refresh_token.len()) as int) =~= rest);
    let other = refresh_form(other_token, client_id, client_secret);
    assert(other =~= head + other_token + rest);
    if form == other {
        assert(other_token.len() == refresh_token.len());
        assert(other.subrange(head.len() as int, (head.len() + other_token.len()) as int) =~= other_token);
    }
}

} // verus!
