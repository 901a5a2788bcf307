//! Publishing a post: the checks made on a request, the body sent to
//! LinkedIn, and the decisions taken on each reply, including the single
//! retry after a token refresh.

use vstd::prelude::*;
use crate::json::{created_json, created_text, error_json, error_text, post_body_json, post_body_text};
use crate::model::{escape_little_text, escaped, PostRequest, PostResponse, Token, TokenView};
use crate::text::{blank, is_blank, same_text, to_upper, uppercase};

verus! {

/// The visibility sent for an upper-cased requested visibility: connections
/// only for "CONNECTIONS" or "FRIENDS", public for anything else.
pub open spec fn visibility_for(upper: Seq<char>) -> Seq<char> {
    if upper == "CONNECTIONS"@ || upper == "FRIENDS"@ {
        "CONNECTIONS"@
    } else {
        "PUBLIC"@
    }
}

/// A post is sent either to the public or to the member's connections only.
pub proof fn law_visibility_is_public_or_connections(upper: Seq<char>)
    ensures
        visibility_for(upper) == "PUBLIC"@ || visibility_for(upper) == "CONNECTIONS"@,
{
}

/// The visibility sent for an already upper-cased requested visibility.
pub fn visibility_for_upper(upper: &str) -> (r: String)
    ensures
        r@ == visibility_for(upper@),
{
    if same_text(upper, "CONNECTIONS") || same_text(upper, "FRIENDS") {
        String::from_str("CONNECTIONS")
    } else {
        String::from_str("PUBLIC")
    }
}

/// The visibility sent for a requested visibility, compared without regard
/// to case.
pub fn normalize_visibility(requested: &str) -> (r: String)
    ensures
        r@ == visibility_for(uppercase(requested@)),
{
    let upper = to_upper(requested);
    visibility_for_upper(upper.as_str())
}

/// The URN that names a member as a post's author.
pub open spec fn author_urn(person_id: Seq<char>) -> Seq<char> {
    "urn:li:person:"@ + person_id
}

/// Builds the URN that names a member as a post's author.
pub fn author_urn_of(person_id: &str) -> (r: String)
    ensures
        r@ == author_urn(person_id@),
{
    let mut r = String::from_str("urn:li:person:");
    r.append(person_id);
    r
}

/// The feed address of a post.
pub open spec fn post_url(post_id: Seq<char>) -> Seq<char> {
    "https://www.linkedin.com/feed/update/"@ + post_id + "/"@
}

/// Builds the feed address of a post.
pub fn post_url_of(post_id: &str) -> (r: String)
    ensures
        r@ == post_url(post_id@),
{
    let mut r = String::from_str("https://www.linkedin.com/feed/update/");
    r.append(post_id);
    r.append("/");
    r
}

/// An HTTP reply as the flow reads it: the status code, the status as it is
/// displayed (such as "401 Unauthorized"), the `x-restli-id` header where it
/// is present and readable, and the body.
pub struct HttpReply {
    pub status: u16,
    pub status_line: String,
    pub post_id: Option<String>,
    pub body: String,
}

/// The mathematical model of an [`HttpReply`].
pub struct HttpReplyView {
    pub status: u16,
    pub status_line: Seq<char>,
    pub post_id: Option<Seq<char>>,
    pub body: Seq<char>,
}

impl View for HttpReply {
    type V = HttpReplyView;

    open spec fn view(&self) -> HttpReplyView {
        HttpReplyView {
            status: self.status,
            status_line: self.status_line@,
            post_id: match self.post_id {
                Some(s) => Some(s@),
                None => None,
            },
            body: self.body@,
        }
    }
}

/// Whether a status code reports success (2xx).
pub open spec fn success(status: u16) -> bool {
    200 <= status <= 299
}

/// The answer to a post request that failed: the status it is answered with
/// and the message it carries.
pub struct PostFailure {
    pub status: u16,
    pub message: String,
}

/// The outcome of a post request: the created post's id and address, or
/// the failure's status and message.
pub type PostOutcomeView = Result<(Seq<char>, Seq<char>), (u16, Seq<char>)>;

/// The model of an outcome.
pub open spec fn outcome_view(r: Result<PostResponse, PostFailure>) -> PostOutcomeView {
    match r {
        Ok(p) => Ok((p.post_id@, p.post_url@)),
        Err(f) => Err((f.status, f.message@)),
    }
}

/// The outcome that a final reply from LinkedIn gives: on success the post
/// id from the `x-restli-id` header ("(unknown)" without one) and its feed
/// address; otherwise a bad-gateway failure that quotes status and body.
pub open spec fn reply_outcome(r: HttpReplyView) -> PostOutcomeView {
    if success(r.status) {
        let id = match r.post_id {
            Some(s) => s,
            None => "(unknown)"@,
        };
        Ok((id, post_url(id)))
    } else {
        Err((502u16, "linkedin "@ + r.status_line + ": "@ + r.body))
    }
}

/// Decides the outcome of a final reply from LinkedIn.
pub fn conclude_reply(reply: HttpReply) -> (r: Result<PostResponse, PostFailure>)
    ensures
        outcome_view(r) == reply_outcome(reply@),
{
    if 200 <= reply.status && reply.status <= 299 {
        let id = match reply.post_id {
            Some(s) => s,
            None => String::from_str("(unknown)"),
        };
        let url = post_url_of(id.as_str());
        Ok(PostResponse { post_id: id, post_url: url })
    } else {
        let mut m = String::from_str("linkedin ");
        m.append(reply.status_line.as_str());
        m.append(": ");
        m.append(reply.body.as_str());
        Err(PostFailure { status: 502, message: m })
    }
}

/// Where a post request stands.
#[derive(PartialEq, Eq, Structural, Clone, Copy)]
pub enum PostStage {
    /// The post was sent with the stored access token.
    AwaitFirstReply,
    /// LinkedIn refused the token; a refreshed one is awaited.
    AwaitRefresh,
    /// The post was sent again with the refreshed token.
    AwaitSecondReply,
    /// The outcome is known.
    Finished,
}

/// A post request in progress: its stage and the body it sends.
pub struct PostFlow {
    pub stage: PostStage,
    pub body: String,
}

/// What the caller does next for a post request.
pub enum PostAction {
    /// Send `body` to LinkedIn's posts endpoint with `access_token`.
    Send { access_token: String, body: String },
    /// Refresh the stored token.
    Refresh,
    /// Answer the request.
    Finish(Result<PostResponse, PostFailure>),
}

/// The model of a [`PostAction`].
pub enum PostActionView {
    Send { access_token: Seq<char>, body: Seq<char> },
    Refresh,
    Finish(PostOutcomeView),
}

impl View for PostAction {
    type V = PostActionView;

    open spec fn view(&self) -> PostActionView {
        match self {
            PostAction::Send { access_token, body } => PostActionView::Send {
                access_token: access_token@,
                body: body@,
            },
            PostAction::Refresh => PostActionView::Refresh,
            PostAction::Finish(r) => PostActionView::Finish(outcome_view(*r)),
        }
    }
}

/// What happened to the caller's last action.
pub enum PostEvent {
    /// LinkedIn replied to a send, or the request failed with this message.
    Replied(Result<HttpReply, String>),
    /// The token refresh gave this token, or failed with this message.
    Refreshed(Result<Token, String>),
}

/// The model of a [`PostEvent`].
pub enum PostEventView {
    Replied(Result<HttpReplyView, Seq<char>>),
    Refreshed(Result<TokenView, Seq<char>>),
}

impl View for PostEvent {
    type V = PostEventView;

    open spec fn view(&self) -> PostEventView {
        match self {
            PostEvent::Replied(r) => PostEventView::Replied(
                match r {
                    Ok(x) => Ok(x@),
                    Err(e) => Err(e@),
                },
            ),
            PostEvent::Refreshed(r) => PostEventView::Refreshed(
                match r {
                    Ok(t) => Ok(t@),
                    Err(e) => Err(e@),
                },
            ),
        }
    }
}

/// The message of a post request with blank commentary.
pub open spec fn blank_message() -> Seq<char> {
    "commentary cannot be empty"@
}

/// The message of a post request made with a token that names no member.
pub open spec fn no_person_message() -> Seq<char> {
    "Token has no person_id. Re-run `chrome2linkedin-helper auth`."@
}

/// How a post request starts: blank commentary is refused (400), a token
/// without person id is refused (412); otherwise the post, with its
/// commentary escaped and its visibility normalized, is sent with the
/// stored access token.
pub open spec fn post_start(token: TokenView, commentary: Seq<char>, visibility: Seq<char>) -> (
    PostStage,
    PostActionView,
) {
    if blank(commentary) {
        (PostStage::Finished, PostActionView::Finish(Err((400u16, blank_message()))))
    } else if token.person_id.len() == 0 {
        (PostStage::Finished, PostActionView::Finish(Err((412u16, no_person_message()))))
    } else {
        (
            PostStage::AwaitFirstReply,
            PostActionView::Send {
                access_token: token.access_token,
                body: post_body_text(
                    author_urn(token.person_id),
                    escaped(commentary),
                    visibility_for(uppercase(visibility)),
                ),
            },
        )
    }
}

/// One step of a post request: the stage it moves to and the next action,
/// or `None` for an event that does not answer the stage's action. A failed
/// send is a bad gateway (502); a 401 to the first send asks for a token
/// refresh, and a failed refresh is answered with 401; any other reply, and
/// every reply to the second send, decides the outcome.
pub open spec fn post_next(stage: PostStage, body: Seq<char>, event: PostEventView) -> Option<
    (PostStage, PostActionView),
> {
    match (stage, event) {
        (PostStage::AwaitFirstReply, PostEventView::Replied(Err(e))) | (
            PostStage::AwaitSecondReply,
            PostEventView::Replied(Err(e)),
        ) => Some(
            (
                PostStage::Finished,
                PostActionView::Finish(Err((502u16, "linkedin request: "@ + e))),
            ),
        ),
        (PostStage::AwaitFirstReply, PostEventView::Replied(Ok(r))) => if r.status == 401 {
            Some((PostStage::AwaitRefresh, PostActionView::Refresh))
        } else {
            Some((PostStage::Finished, PostActionView::Finish(reply_outcome(r))))
        },
        (PostStage::AwaitSecondReply, PostEventView::Replied(Ok(r))) => Some(
            (PostStage::Finished, PostActionView::Finish(reply_outcome(r))),
        ),
        (PostStage::AwaitRefresh, PostEventView::Refreshed(Err(e))) => Some(
            (PostStage::Finished, PostActionView::Finish(Err((401u16, "token refresh: "@ + e)))),
        ),
        (PostStage::AwaitRefresh, PostEventView::Refreshed(Ok(t))) => Some(
            (
                PostStage::AwaitSecondReply,
                PostActionView::Send { access_token: t.access_token, body: body },
            ),
        ),
        _ => None,
    }
}

impl PostFlow {
    /// Whether `event` answers the action this stage waits on: a reply to
    /// a send, or the outcome of a refresh.
    pub open spec fn accepts(&self, event: PostEventView) -> bool {
        match (self.stage, event) {
            (PostStage::AwaitFirstReply, PostEventView::Replied(_)) => true,
            (PostStage::AwaitSecondReply, PostEventView::Replied(_)) => true,
            (PostStage::AwaitRefresh, PostEventView::Refreshed(_)) => true,
            _ => false,
        }
    }

    /// Starts a post request with the stored token.
    pub fn start(token: &Token, request: &PostRequest) -> (r: (PostFlow, PostAction))
        ensures
            (r.0.stage, r.1@) == post_start(token@, request.commentary@, request.visibility@),
            r.0.stage == PostStage::AwaitFirstReply ==> r.1@ == (PostActionView::Send {
                access_token: token@.access_token,
                body: r.0.body@,
            }),
    {
        if is_blank(request.commentary.as_str()) {
            return (
                PostFlow { stage: PostStage::Finished, body: String::new() },
                PostAction::Finish(
                    Err(PostFailure { status: 400, message: String::from_str("commentary cannot be empty") }),
                ),
            );
        }
        if token.person_id.as_str().is_empty() {
            return (
                PostFlow { stage: PostStage::Finished, body: String::new() },
                PostAction::Finish(
                    Err(
                        PostFailure {
                            status: 412,
                            message: String::from_str(
                                "Token has no person_id. Re-run `chrome2linkedin-helper auth`.",
                            ),
                        },
                    ),
                ),
            );
        }
        let owner = author_urn_of(token.person_id.as_str());
        let visibility = normalize_visibility(request.visibility.as_str());
        let commentary = escape_little_text(request.commentary.as_str());
        let body = post_body_json(owner.as_str(), commentary.as_str(), visibility.as_str());
        let action = PostAction::Send { access_token: token.access_token.clone(), body: body.clone() };
        (PostFlow { stage: PostStage::AwaitFirstReply, body }, action)
    }

    /// Takes the event that answers the last action and gives the next one.
    pub fn step(self, event: PostEvent) -> (r: (PostFlow, PostAction))
        requires
            self.accepts(event@),
        ensures
            post_next(self.stage, self.body@, event@) == Some((r.0.stage, r.1@)),
            r.0.body@ == self.body@,
    {
        let PostFlow { stage, body } = self;
        match event {
            PostEvent::Replied(Err(e)) => {
                let mut m = String::from_str("linkedin request: ");
                m.append(e.as_str());
                (
                    PostFlow { stage: PostStage::Finished, body },
                    PostAction::Finish(Err(PostFailure { status: 502, message: m })),
                )
            },
            PostEvent::Replied(Ok(reply)) => {
                if stage == PostStage::AwaitFirstReply && reply.status == 401 {
                    (PostFlow { stage: PostStage::AwaitRefresh, body }, PostAction::Refresh)
                } else {
                    let outcome = conclude_reply(reply);
                    (PostFlow { stage: PostStage::Finished, body }, PostAction::Finish(outcome))
                }
            },
            PostEvent::Refreshed(Err(e)) => {
                let mut m = String::from_str("token refresh: ");
                m.append(e.as_str());
                (
                    PostFlow { stage: PostStage::Finished, body },
                    PostAction::Finish(Err(PostFailure { status: 401, message: m })),
                )
            },
            PostEvent::Refreshed(Ok(token)) => {
                let action = PostAction::Send { access_token: token.access_token, body: body.clone() };
                (PostFlow { stage: PostStage::AwaitSecondReply, body }, action)
            },
        }
    }
}

/// The answer of the post endpoint for an outcome: status 200 with the
/// post's id and address, or the failure's status with its message.
pub open spec fn answer_of(r: PostOutcomeView) -> (u16, Seq<char>) {
    match r {
        Ok((id, url)) => (200u16, created_text(id, url)),
        Err((status, message)) => (status, error_text(message)),
    }
}

/// Builds the answer of the post endpoint for an outcome.
pub fn answer(outcome: &Result<PostResponse, PostFailure>) -> (r: (u16, String))
    ensures
        (r.0, r.1@) == answer_of(outcome_view(*outcome)),
{
    match outcome {
        Ok(p) => (200, created_json(p.post_id.as_str(), p.post_url.as_str())),
        Err(f) => (f.status, error_json(f.message.as_str())),
    }
}

/// A post as the local log of published posts records it.
pub struct PostLogEntry {
    pub post_id: String,
    pub post_url: String,
    pub commentary: String,
    pub visibility: String,
}

/// The model of a [`PostLogEntry`]: id, address, commentary as written,
/// visibility as sent.
pub type PostLogEntryView = (Seq<char>, Seq<char>, Seq<char>, Seq<char>);

impl View for PostLogEntry {
    type V = PostLogEntryView;

    open spec fn view(&self) -> PostLogEntryView {
        (self.post_id@, self.post_url@, self.commentary@, self.visibility@)
    }
}

/// What the log records for a post request's outcome: a published post
/// with the commentary as the member wrote it and the visibility it was
/// sent with; nothing for a request that failed.
pub open spec fn log_entry_of(commentary: Seq<char>, visibility: Seq<char>, outcome: PostOutcomeView) -> Option<
    PostLogEntryView,
> {
    match outcome {
        Ok((id, url)) => Some((id, url, commentary, visibility_for(uppercase(visibility)))),
        Err(_) => None,
    }
}

/// The log entry for a post request's outcome, if it published a post.
pub fn log_entry(request: &PostRequest, outcome: &Result<PostResponse, PostFailure>) -> (r: Option<PostLogEntry>)
    ensures
        match r {
            Some(e) => log_entry_of(request.commentary@, request.visibility@, outcome_view(*outcome))
                == Some(e@),
            None => log_entry_of(request.commentary@, request.visibility@, outcome_view(*outcome))
                is None,
        },
{
    match outcome {
        Ok(p) => Some(
            PostLogEntry {
                post_id: p.post_id.clone(),
                post_url: p.post_url.clone(),
                commentary: request.commentary.clone(),
                visibility: normalize_visibility(request.visibility.as_str()),
            },
        ),
        Err(_) => None,
    }
}

/// The actions a post request takes, stage by stage, for a sequence of
/// events; it stops at the first event that does not answer its stage.
pub open spec fn post_run(stage: PostStage, body: Seq<char>, events: Seq<PostEventView>) -> Seq<
    PostActionView,
>
    decreases events.len(),
{
    if events.len() == 0 {
        seq![]
    } else {
        match post_next(stage, body, events[0]) {
            None => seq![],
            Some((next, action)) => seq![action] + post_run(next, body, events.skip(1)),
        }
    }
}

/// How many of the actions are token refreshes.
pub open spec fn refresh_count(actions: Seq<PostActionView>) -> nat
    decreases actions.len(),
{
    if actions.len() == 0 {
        0
    } else {
        (if actions[0] is Refresh { 1nat } else { 0nat }) + refresh_count(actions.skip(1))
    }
}

/// How many of the actions send the post.
pub open spec fn send_count(actions: Seq<PostActionView>) -> nat
    decreases actions.len(),
{
    if actions.len() == 0 {
        0
    } else {
        (if actions[0] is Send { 1nat } else { 0nat }) + send_count(actions.skip(1))
    }
}

/// How many more steps a stage can take.
pub open spec fn steps_left(stage: PostStage) -> nat {
    match stage {
        PostStage::AwaitFirstReply => 3,
        PostStage::AwaitRefresh => 2,
        PostStage::AwaitSecondReply => 1,
        PostStage::Finished => 0,
    }
}

/// From any stage, a post request refreshes the token at most once (and
/// only before the first reply is in), sends the post again at most once,
/// sends nothing but the post it started with, and ends within three steps.
pub proof fn law_post_run_bounded(stage: PostStage, body: Seq<char>, events: Seq<PostEventView>)
    ensures
        post_run(stage, body, events).len() <= steps_left(stage),
        refresh_count(post_run(stage, body, events)) <= (if stage == PostStage::AwaitFirstReply {
            1nat
        } else {
            0nat
        }),
        send_count(post_run(stage, body, events)) <= (if stage == PostStage::AwaitFirstReply
            || stage == PostStage::AwaitRefresh {
            1nat
        } else {
            0nat
        }),
        forall|i: int|
            0 <= i < post_run(stage, body, events).len() && (#[trigger] post_run(
                stage,
                body,
                events,
            )[i]) is Send ==> post_run(stage, body, events)[i]->Send_body == body,
    decreases events.len(),
{
    let run = post_run(stage, body, events);
    if events.len() > 0 {
        match post_next(stage, body, events[0]) {
            None => {},
            Some((next, action)) => {
                law_post_run_bounded(next, body, events.skip(1));
                let rest = post_run(next, body, events.skip(1));
                assert(run == seq![action] + rest);
                assert(run.skip(1) =~= rest);
                assert forall|i: int| 0 <= i < run.len() && (#[trigger] run[i]) is Send implies run[i]->Send_body
                    == body by {
                    if i > 0 {
                        assert(run[i] == rest[i - 1]);
                    }
                }
            },
        }
    }
}

/// A token refresh is asked for only when LinkedIn answers the first send
/// with 401 Unauthorized.
pub proof fn law_refresh_only_after_unauthorized(stage: PostStage, body: Seq<char>, event: PostEventView)
    requires
        post_next(stage, body, event) matches Some((_, a)) && a is Refresh,
    ensures
        stage == PostStage::AwaitFirstReply,
        event matches PostEventView::Replied(Ok(r)) && r.status == 401,
{
}

/// A post request succeeds only on a 2xx reply from LinkedIn, and then
/// answers with the post id that reply carries (or "(unknown)").
pub proof fn law_success_only_on_2xx(stage: PostStage, body: Seq<char>, event: PostEventView)
    requires
        post_next(stage, body, event) matches Some((_, a)) && a matches PostActionView::Finish(Ok(_)),
    ensures
        event matches PostEventView::Replied(Ok(r)) && success(r.status) && (post_next(
            stage,
            body,
            event,
        ) matches Some((_, a)) && a == PostActionView::Finish(reply_outcome(r))),
{
}

/// Two events that differ at most in the token a successful refresh gave.
pub open spec fn same_but_token(e1: PostEventView, e2: PostEventView) -> bool {
    match (e1, e2) {
        (PostEventView::Refreshed(Ok(_)), PostEventView::Refreshed(Ok(_))) => true,
        _ => e1 == e2,
    }
}

/// Two actions that differ at most in the access token a send uses.
pub open spec fn same_but_access(a1: PostActionView, a2: PostActionView) -> bool {
    match (a1, a2) {
        (PostActionView::Send { body: b1, .. }, PostActionView::Send { body: b2, .. }) => b1 == b2,
        _ => a1 == a2,
    }
}

/// Access tokens never reach an answer: how a post request is started,
/// apart from the token the first send uses, does not depend on the
/// stored access token.
pub proof fn law_start_ignores_access_token(
    t1: TokenView,
    t2: TokenView,
    commentary: Seq<char>,
    visibility: Seq<char>,
)
    requires
        t1.person_id == t2.person_id,
    ensures
        post_start(t1, commentary, visibility).0 == post_start(t2, commentary, visibility).0,
        same_but_access(
            post_start(t1, commentary, visibility).1,
            post_start(t2, commentary, visibility).1,
        ),
{
}

/// Access tokens never reach an answer: for events that differ only in the
/// tokens refreshes gave, a post request takes the same actions but for the
/// access tokens its sends use, and so gives the same answer.
pub proof fn law_run_ignores_access_tokens(
    stage: PostStage,
    body: Seq<char>,
    events1: Seq<PostEventView>,
    events2: Seq<PostEventView>,
)
    requires
        events1.len() == events2.len(),
        forall|i: int| 0 <= i < events1.len() ==> same_but_token(#[trigger] events1[i], events2[i]),
    ensures
        post_run(stage, body, events1).len() == post_run(stage, body, events2).len(),
        forall|i: int|
            0 <= i < post_run(stage, body, events1).len() ==> same_but_access(
                #[trigger] post_run(stage, body, events1)[i],
                post_run(stage, body, events2)[i],
            ),
    decreases events1.len(),
{
    if events1.len() > 0 {
        assert(same_but_token(events1[0], events2[0]));
        let r1 = post_run(stage, body, events1);
        let r2 = post_run(stage, body, events2);
        match (post_next(stage, body, events1[0]), post_next(stage, body, events2[0])) {
            (Some((n1, a1)), Some((n2, a2))) => {
                assert(n1 == n2);
                assert(same_but_access(a1, a2));
                let rest1 = events1.skip(1);
                let rest2 = events2.skip(1);
                assert forall|i: int| 0 <= i < rest1.len() implies same_but_token(
                    #[trigger] rest1[i],
                    rest2[i],
                ) by {
                    assert(rest1[i] == events1[i + 1]);
                    assert(rest2[i] == events2[i + 1]);
                }
                law_run_ignores_access_tokens(n1, body, rest1, rest2);
                let s1 = post_run(n1, body, rest1);
                let s2 = post_run(n1, body, rest2);
                assert(r1 == seq![a1] + s1);
                assert(r2 == seq![a2] + s2);
                assert forall|i: int| 0 <= i < r1.len() implies same_but_access(
                    #[trigger] r1[i],
                    r2[i],
                ) by {
                    if i > 0 {
                        assert(r1[i] == s1[i - 1]);
                        assert(r2[i] == s2[i - 1]);
                    }
                }
            },
            (None, None) => {},
            _ => {
                assert(false);
            },
        }
    }
}

} // verus!
