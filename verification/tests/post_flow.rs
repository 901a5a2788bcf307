use chrome2linkedin_helper::model::{PostRequest, PostResponse, Token};
use chrome2linkedin_helper::post::{
    answer, author_urn_of, conclude_reply, log_entry, post_url_of, HttpReply, PostAction, PostEvent, PostFailure,
    PostFlow, PostStage,
};

fn token(access: &str, person: &str) -> Token {
    Token {
        access_token: access.to_string(),
        refresh_token: "refresh".to_string(),
        person_id: person.to_string(),
        expires_in: 100,
    }
}

fn request(commentary: &str, visibility: &str) -> PostRequest {
    PostRequest { commentary: commentary.to_string(), visibility: visibility.to_string() }
}

fn reply(status: u16, line: &str, id: Option<&str>, body: &str) -> HttpReply {
    HttpReply {
        status,
        status_line: line.to_string(),
        post_id: id.map(|s| s.to_string()),
        body: body.to_string(),
    }
}

fn expect_send(a: PostAction) -> (String, String) {
    match a {
        PostAction::Send { access_token, body } => (access_token, body),
        _ => panic!("expected a send"),
    }
}

fn expect_finish(a: PostAction) -> Result<PostResponse, PostFailure> {
    match a {
        PostAction::Finish(r) => r,
        _ => panic!("expected a finish"),
    }
}

#[test]
fn blank_commentary_is_refused() {
    let (flow, action) = PostFlow::start(&token("t", "p"), &request("  \n", "PUBLIC"));
    assert!(flow.stage == PostStage::Finished);
    let f = expect_finish(action).err().unwrap();
    assert_eq!(f.status, 400);
    assert_eq!(f.message, "commentary cannot be empty");
    let (code, body) = answer(&Err(f));
    assert_eq!(code, 400);
    assert_eq!(body, "{\"error\":\"commentary cannot be empty\"}");
}

#[test]
fn token_without_person_is_refused() {
    let (_, action) = PostFlow::start(&token("t", ""), &request("hi", "PUBLIC"));
    let f = expect_finish(action).err().unwrap();
    assert_eq!(f.status, 412);
    assert_eq!(f.message, "Token has no person_id. Re-run `chrome2linkedin-helper auth`.");
}

#[test]
fn post_is_sent_with_escaped_commentary() {
    let (flow, action) = PostFlow::start(&token("tok", "abc"), &request("Talk (38:15)", "friends"));
    assert!(flow.stage == PostStage::AwaitFirstReply);
    let (access, body) = expect_send(action);
    assert_eq!(access, "tok");
    assert_eq!(
        body,
        "{\"author\":\"urn:li:person:abc\",\"commentary\":\"Talk \\\\(38:15\\\\)\",\"distribution\":{\"feedDistribution\":\"MAIN_FEED\",\"targetEntities\":[],\"thirdPartyDistributionChannels\":[]},\"isReshareDisabledByAuthor\":false,\"lifecycleState\":\"PUBLISHED\",\"visibility\":\"CONNECTIONS\"}"
    );
    assert_eq!(flow.body, body);
}

#[test]
fn created_post_is_answered() {
    let (flow, _) = PostFlow::start(&token("tok", "abc"), &request("hi", "PUBLIC"));
    let (flow, action) = flow.step(PostEvent::Replied(Ok(reply(201, "201 Created", Some("urn:li:share:9"), ""))));
    assert!(flow.stage == PostStage::Finished);
    let r = expect_finish(action).ok().unwrap();
    assert_eq!(r.post_id, "urn:li:share:9");
    assert_eq!(r.post_url, "https://www.linkedin.com/feed/update/urn:li:share:9/");
    let (code, body) = answer(&Ok(r));
    assert_eq!(code, 200);
    assert_eq!(
        body,
        "{\"post_id\":\"urn:li:share:9\",\"post_url\":\"https://www.linkedin.com/feed/update/urn:li:share:9/\"}"
    );
}

#[test]
fn missing_post_id_is_unknown() {
    let r = conclude_reply(reply(200, "200 OK", None, "")).ok().unwrap();
    assert_eq!(r.post_id, "(unknown)");
    assert_eq!(r.post_url, "https://www.linkedin.com/feed/update/(unknown)/");
}

#[test]
fn refused_post_is_a_bad_gateway() {
    let f = conclude_reply(reply(422, "422 Unprocessable Entity", None, "{\"message\":\"bad\"}")).err().unwrap();
    assert_eq!(f.status, 502);
    assert_eq!(f.message, "linkedin 422 Unprocessable Entity: {\"message\":\"bad\"}");
}

#[test]
fn unauthorized_post_is_retried_after_refresh() {
    let (flow, _) = PostFlow::start(&token("old", "abc"), &request("hi", "PUBLIC"));
    let body = flow.body.clone();
    let (flow, action) = flow.step(PostEvent::Replied(Ok(reply(401, "401 Unauthorized", None, "expired"))));
    assert!(flow.stage == PostStage::AwaitRefresh);
    assert!(matches!(action, PostAction::Refresh));
    let (flow, action) = flow.step(PostEvent::Refreshed(Ok(token("new", "abc"))));
    assert!(flow.stage == PostStage::AwaitSecondReply);
    let (access, resent) = expect_send(action);
    assert_eq!(access, "new");
    assert_eq!(resent, body);
    let (flow, action) = flow.step(PostEvent::Replied(Ok(reply(201, "201 Created", Some("id2"), ""))));
    assert!(flow.stage == PostStage::Finished);
    assert_eq!(expect_finish(action).ok().unwrap().post_id, "id2");
}

#[test]
fn second_unauthorized_is_not_retried() {
    let (flow, _) = PostFlow::start(&token("old", "abc"), &request("hi", "PUBLIC"));
    let (flow, _) = flow.step(PostEvent::Replied(Ok(reply(401, "401 Unauthorized", None, ""))));
    let (flow, _) = flow.step(PostEvent::Refreshed(Ok(token("new", "abc"))));
    let (flow, action) = flow.step(PostEvent::Replied(Ok(reply(401, "401 Unauthorized", None, "still"))));
    assert!(flow.stage == PostStage::Finished);
    let f = expect_finish(action).err().unwrap();
    assert_eq!(f.status, 502);
    assert_eq!(f.message, "linkedin 401 Unauthorized: still");
}

#[test]
fn failed_refresh_is_unauthorized() {
    let (flow, _) = PostFlow::start(&token("old", "abc"), &request("hi", "PUBLIC"));
    let (flow, _) = flow.step(PostEvent::Replied(Ok(reply(401, "401 Unauthorized", None, ""))));
    let (_, action) = flow.step(PostEvent::Refreshed(Err("no way".to_string())));
    let f = expect_finish(action).err().unwrap();
    assert_eq!(f.status, 401);
    assert_eq!(f.message, "token refresh: no way");
}

#[test]
fn failed_request_is_a_bad_gateway() {
    let (flow, _) = PostFlow::start(&token("old", "abc"), &request("hi", "PUBLIC"));
    let (_, action) = flow.step(PostEvent::Replied(Err("connection refused".to_string())));
    let f = expect_finish(action).err().unwrap();
    assert_eq!(f.status, 502);
    assert_eq!(f.message, "linkedin request: connection refused");
    let (code, body) = answer(&Err(f));
    assert_eq!(code, 502);
    assert_eq!(body, "{\"error\":\"linkedin request: connection refused\"}");
}

#[test]
fn urn_and_url() {
    assert_eq!(author_urn_of("xyz"), "urn:li:person:xyz");
    assert_eq!(post_url_of("urn:li:share:1"), "https://www.linkedin.com/feed/update/urn:li:share:1/");
}

#[test]
fn published_posts_are_logged() {
    let req = request("Talk (38:15)", "friends");
    let ok: Result<PostResponse, PostFailure> = Ok(PostResponse {
        post_id: "urn:li:share:5".to_string(),
        post_url: "https://www.linkedin.com/feed/update/urn:li:share:5/".to_string(),
    });
    let e = log_entry(&req, &ok).unwrap();
    assert_eq!(e.post_id, "urn:li:share:5");
    assert_eq!(e.post_url, "https://www.linkedin.com/feed/update/urn:li:share:5/");
    assert_eq!(e.commentary, "Talk (38:15)");
    assert_eq!(e.visibility, "CONNECTIONS");
    let failed: Result<PostResponse, PostFailure> =
        Err(PostFailure { status: 502, message: "linkedin request: x".to_string() });
    assert!(log_entry(&req, &failed).is_none());
}

fn answer_after_refresh(new_access: &str, final_status: u16) -> (u16, String) {
    let (flow, _) = PostFlow::start(&token("old", "abc"), &request("hi", "PUBLIC"));
    let (flow, _) = flow.step(PostEvent::Replied(Ok(reply(401, "401 Unauthorized", None, ""))));
    let (flow, _) = flow.step(PostEvent::Refreshed(Ok(token(new_access, "abc"))));
    let (_, action) = flow.step(PostEvent::Replied(Ok(reply(final_status, "403 Forbidden", Some("i"), "denied"))));
    answer(&expect_finish(action))
}

#[test]
fn answers_do_not_depend_on_access_tokens() {
    assert_eq!(answer_after_refresh("tok-one", 403), answer_after_refresh("tok-two", 403));
    assert_eq!(answer_after_refresh("tok-one", 201), answer_after_refresh("tok-two", 201));
    let (code, body) = answer_after_refresh("tok-one", 403);
    assert_eq!(code, 502);
    assert!(!body.contains("tok-one"));
}
