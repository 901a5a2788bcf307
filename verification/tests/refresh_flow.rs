use chrome2linkedin_helper::model::{Credentials, Token};
use chrome2linkedin_helper::post::HttpReply;
use chrome2linkedin_helper::refresh::{
    refresh_form_of, renew_token, RefreshAction, RefreshEvent, RefreshFlow, RefreshStage, TransportError,
};

fn current() -> Token {
    Token {
        access_token: "old".to_string(),
        refresh_token: "rt-1".to_string(),
        person_id: "me".to_string(),
        expires_in: 10,
    }
}

fn creds() -> Credentials {
    Credentials { client_id: "cid".to_string(), client_secret: "sec&ret".to_string() }
}

fn ok_reply(body: &str) -> HttpReply {
    HttpReply { status: 200, status_line: "200 OK".to_string(), post_id: None, body: body.to_string() }
}

fn finish(a: RefreshAction) -> Result<Token, String> {
    match a {
        RefreshAction::Finish(r) => r,
        _ => panic!("expected a finish"),
    }
}

fn sent_to(flow: RefreshFlow) -> RefreshFlow {
    let (flow, action) = flow.step(RefreshEvent::Credentials(Ok(creds())));
    match action {
        RefreshAction::Send { form } => assert_eq!(
            form,
            "grant_type=refresh_token&refresh_token=rt-1&client_id=cid&client_secret=sec&ret"
        ),
        _ => panic!("expected a send"),
    }
    flow
}

#[test]
fn refresh_needs_a_refresh_token() {
    let mut t = current();
    t.refresh_token = String::new();
    let (flow, action) = RefreshFlow::start(t);
    assert!(flow.stage == RefreshStage::Finished);
    assert_eq!(finish(action).err().unwrap(), "No refresh_token available. Run `chrome2linkedin-helper auth`.");
}

#[test]
fn refresh_renews_and_saves() {
    let (flow, action) = RefreshFlow::start(current());
    assert!(matches!(action, RefreshAction::LoadCredentials));
    let flow = sent_to(flow);
    let (flow, action) = flow.step(RefreshEvent::Replied(Ok(ok_reply(
        "{\"access_token\":\"new\",\"refresh_token\":\"rt-2\",\"expires_in\":5184000}",
    ))));
    let saved = match action {
        RefreshAction::Save(t) => t,
        _ => panic!("expected a save"),
    };
    assert_eq!(saved.access_token, "new");
    assert_eq!(saved.refresh_token, "rt-2");
    assert_eq!(saved.person_id, "me");
    assert_eq!(saved.expires_in, 5184000);
    let (flow, action) = flow.step(RefreshEvent::Saved(Ok(())));
    assert!(flow.stage == RefreshStage::Finished);
    let t = finish(action).ok().unwrap();
    assert_eq!(t.access_token, "new");
    assert_eq!(t.refresh_token, "rt-2");
}

#[test]
fn refresh_keeps_old_refresh_token() {
    let t = renew_token(&current(), "{\"access_token\":\"new\"}").ok().unwrap();
    assert_eq!(t.refresh_token, "rt-1");
    assert_eq!(t.expires_in, 0);
    assert_eq!(t.person_id, "me");
    let t = renew_token(&current(), "{\"access_token\":\"new\",\"refresh_token\":7,\"expires_in\":\"9\"}").ok().unwrap();
    assert_eq!(t.refresh_token, "rt-1");
    assert_eq!(t.expires_in, 0);
}

#[test]
fn refresh_reply_errors() {
    let e = renew_token(&current(), "{\"refresh_token\":\"x\"}").err().unwrap();
    assert_eq!(e, "no access_token in refresh response: {\"refresh_token\":\"x\"}");
    let e = renew_token(&current(), "{\"access_token\":\"\"}").err().unwrap();
    assert_eq!(e, "no access_token in refresh response: {\"access_token\":\"\"}");
    let e = renew_token(&current(), "[1,2]").err().unwrap();
    assert_eq!(e, "no access_token in refresh response: [1,2]");
    let e = renew_token(&current(), "not json").err().unwrap();
    assert!(e.starts_with("parse refresh response: "), "{}", e);
    assert!(e.len() > "parse refresh response: ".len());
}

#[test]
fn refused_refresh() {
    let (flow, _) = RefreshFlow::start(current());
    let flow = sent_to(flow);
    let (_, action) = flow.step(RefreshEvent::Replied(Ok(HttpReply {
        status: 400,
        status_line: "400 Bad Request".to_string(),
        post_id: None,
        body: "{\"error\":\"invalid_grant\"}".to_string(),
    })));
    assert_eq!(finish(action).err().unwrap(), "refresh failed (400 Bad Request): {\"error\":\"invalid_grant\"}");
}

#[test]
fn refresh_transport_errors() {
    let (flow, _) = RefreshFlow::start(current());
    let flow = sent_to(flow);
    let (_, action) = flow.step(RefreshEvent::Replied(Err(TransportError::Send("dns".to_string()))));
    assert_eq!(finish(action).err().unwrap(), "refresh request failed: dns");
    let (flow, _) = RefreshFlow::start(current());
    let flow = sent_to(flow);
    let (_, action) = flow.step(RefreshEvent::Replied(Err(TransportError::Read("eof".to_string()))));
    assert_eq!(finish(action).err().unwrap(), "eof");
}

#[test]
fn refresh_credentials_and_save_errors() {
    let (flow, _) = RefreshFlow::start(current());
    let (_, action) = flow.step(RefreshEvent::Credentials(Err("Cannot read x".to_string())));
    assert_eq!(finish(action).err().unwrap(), "Cannot read x");
    let (flow, _) = RefreshFlow::start(current());
    let flow = sent_to(flow);
    let (flow, _) = flow.step(RefreshEvent::Replied(Ok(ok_reply("{\"access_token\":\"n\"}"))));
    let (_, action) = flow.step(RefreshEvent::Saved(Err("disk full".to_string())));
    assert_eq!(finish(action).err().unwrap(), "disk full");
}

#[test]
fn refresh_form() {
    assert_eq!(
        refresh_form_of("a b", &creds()),
        "grant_type=refresh_token&refresh_token=a b&client_id=cid&client_secret=sec&ret"
    );
}

use chrome2linkedin_helper::json::JsonField;
use chrome2linkedin_helper::refresh::renew_with;

#[test]
fn renewed_token_from_lookups() {
    let t = renew_with(
        &current(),
        "body",
        Ok(JsonField::Text("a2".to_string())),
        Ok(JsonField::Text("r2".to_string())),
        Ok(JsonField::Unsigned(9)),
    )
    .ok()
    .unwrap();
    assert_eq!(t.access_token, "a2");
    assert_eq!(t.refresh_token, "r2");
    assert_eq!(t.person_id, "me");
    assert_eq!(t.expires_in, 9);
    let t = renew_with(
        &current(),
        "body",
        Ok(JsonField::Text("a2".to_string())),
        Ok(JsonField::Unsigned(3)),
        Ok(JsonField::Other("\"x\"".to_string())),
    )
    .ok()
    .unwrap();
    assert_eq!(t.refresh_token, "rt-1");
    assert_eq!(t.expires_in, 0);
    let e = renew_with(&current(), "b", Err("EOF while parsing".to_string()), Ok(JsonField::Missing), Ok(JsonField::Missing))
        .err()
        .unwrap();
    assert_eq!(e, "parse refresh response: EOF while parsing");
    let e = renew_with(&current(), "b", Ok(JsonField::Missing), Ok(JsonField::Missing), Ok(JsonField::Missing))
        .err()
        .unwrap();
    assert_eq!(e, "no access_token in refresh response: b");
    let e = renew_with(&current(), "b", Ok(JsonField::Text(String::new())), Ok(JsonField::Missing), Ok(JsonField::Missing))
        .err()
        .unwrap();
    assert_eq!(e, "no access_token in refresh response: b");
}

fn error_messages(refresh_token: &str, secret: &str, body: &str) -> Vec<String> {
    let mut t = current();
    t.refresh_token = refresh_token.to_string();
    let (flow, _) = RefreshFlow::start(t);
    let (flow, _) = flow.step(RefreshEvent::Credentials(Ok(Credentials {
        client_id: "cid".to_string(),
        client_secret: secret.to_string(),
    })));
    let (_, action) = flow.step(RefreshEvent::Replied(Ok(ok_reply(body))));
    match action {
        RefreshAction::Finish(Err(m)) => vec![m],
        _ => vec![],
    }
}

#[test]
fn refresh_errors_do_not_depend_on_secrets() {
    for body in ["not json", "{}", "{\"access_token\":\"\"}"] {
        let a = error_messages("rt-one", "secret-one", body);
        let b = error_messages("rt-two", "secret-two", body);
        assert_eq!(a.len(), 1);
        assert_eq!(a, b);
        assert!(!a[0].contains("secret-one") && !a[0].contains("rt-one"));
    }
}
