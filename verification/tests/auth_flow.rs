use chrome2linkedin_helper::auth::{
    person_from_id_token, person_from_userinfo, read_grant, AuthAction, AuthEvent, AuthFailure, AuthFlow,
    AuthStage,
};
use chrome2linkedin_helper::model::Credentials;
use chrome2linkedin_helper::post::HttpReply;
use chrome2linkedin_helper::url::{authorization_url_for, exchange_form_for, extract_auth_code};

fn reply(status: u16, line: &str, body: &str) -> HttpReply {
    HttpReply { status, status_line: line.to_string(), post_id: None, body: body.to_string() }
}

fn creds() -> Credentials {
    Credentials { client_id: "my id".to_string(), client_secret: "s3cr/t+".to_string() }
}

#[test]
fn authorization_address() {
    assert_eq!(
        authorization_url_for("my id"),
        "https://www.linkedin.com/oauth/v2/authorization?response_type=code&client_id=my%20id&redirect_uri=http%3A%2F%2Flocalhost%3A8092%2Fcallback&scope=openid%20profile%20w_member_social"
    );
    assert_eq!(
        authorization_url_for("Az09-._~é"),
        "https://www.linkedin.com/oauth/v2/authorization?response_type=code&client_id=Az09-._~%C3%A9&redirect_uri=http%3A%2F%2Flocalhost%3A8092%2Fcallback&scope=openid%20profile%20w_member_social"
    );
}

#[test]
fn exchange_form() {
    assert_eq!(
        exchange_form_for("AQ/x=", &creds()),
        "grant_type=authorization_code&code=AQ%2Fx%3D&redirect_uri=http%3A%2F%2Flocalhost%3A8092%2Fcallback&client_id=my%20id&client_secret=s3cr%2Ft%2B"
    );
}

#[test]
fn code_from_callback_request() {
    assert_eq!(
        extract_auth_code("GET /callback?code=AQT%2Fxyz&state=1 HTTP/1.1\r\nHost: localhost:8092\r\n\r\n"),
        "AQT/xyz"
    );
    assert_eq!(extract_auth_code("GET /callback?state=1&code=abc HTTP/1.1\r\n"), "abc");
    assert_eq!(extract_auth_code("GET /callback?error=denied HTTP/1.1\r\n"), "");
    assert_eq!(extract_auth_code("GET /callback HTTP/1.1\r\n"), "");
    assert_eq!(extract_auth_code(""), "");
    assert_eq!(extract_auth_code("GET /?code=a+b%20c HTTP/1.1"), "a+b c");
    assert_eq!(extract_auth_code("GET /?code=%FF%FE HTTP/1.1"), "%FF%FE");
    assert_eq!(extract_auth_code("GET /?code=100%25%2 HTTP/1.1"), "100%%2");
    assert_eq!(extract_auth_code("GET /?x=1?code=2 HTTP/1.1"), "");
    assert_eq!(extract_auth_code("GET /?xcode=1&code= HTTP/1.1"), "");
    assert_eq!(extract_auth_code("GET /?code=first&code=second HTTP/1.1"), "first");
}

#[test]
fn person_from_id_token_payload() {
    assert_eq!(person_from_id_token("h.eyJzdWIiOiJhYmMxMjMifQ.sig"), "abc123");
    assert_eq!(person_from_id_token("h.eyJzdWIiOiJhYmMxMjMifQ==.sig"), "abc123");
    assert_eq!(person_from_id_token("h.eyJzdWIiOiJhYiJ9"), "ab");
    assert_eq!(person_from_id_token("h.eyJzdWIiOiJxIn0.s"), "q");
    assert_eq!(person_from_id_token("h.eyJuYW1lIjoieCJ9.s"), "");
    assert_eq!(person_from_id_token("h.eyJzdWIiOiIifQ.s"), "");
    assert_eq!(person_from_id_token("no-dots-here"), "");
    assert_eq!(person_from_id_token("h.!!!.s"), "");
}

#[test]
fn userinfo_person() {
    assert_eq!(person_from_userinfo(&Some(reply(200, "200 OK", "{\"sub\":\"u1\"}"))), "u1");
    assert_eq!(person_from_userinfo(&Some(reply(403, "403 Forbidden", "{\"sub\":\"u1\"}"))), "");
    assert_eq!(person_from_userinfo(&Some(reply(200, "200 OK", "oops"))), "");
    assert_eq!(person_from_userinfo(&None), "");
}

#[test]
fn grant_from_exchange_reply() {
    let g = read_grant(&reply(
        200,
        "200 OK",
        "{\"access_token\":\"at\",\"expires_in\":5184000,\"refresh_token\":\"rt\",\"id_token\":\"a.b.c\"}",
    ))
    .ok()
    .unwrap();
    assert_eq!(g.access_token, "at");
    assert_eq!(g.refresh_token, "rt");
    assert_eq!(g.expires_in, 5184000);
    assert_eq!(g.id_token.as_deref(), Some("a.b.c"));
    let g = read_grant(&reply(200, "200 OK", "{\"access_token\":\"at\"}")).ok().unwrap();
    assert_eq!(g.refresh_token, "");
    assert_eq!(g.expires_in, 0);
    assert!(g.id_token.is_none());
}

#[test]
fn grant_failures() {
    match read_grant(&reply(400, "400 Bad Request", "nope")).err().unwrap() {
        AuthFailure::ExchangeRejected { status_line, body } => {
            assert_eq!(status_line, "400 Bad Request");
            assert_eq!(body, "nope");
        },
        _ => panic!("wrong failure"),
    }
    match read_grant(&reply(200, "200 OK", "nope")).err().unwrap() {
        AuthFailure::Unparsable { message, body } => {
            assert!(!message.is_empty());
            assert_eq!(body, "nope");
        },
        _ => panic!("wrong failure"),
    }
    match read_grant(&reply(200, "200 OK", "{\"error\":\"invalid_request\",\"error_description\":\"bad code\"}"))
        .err()
        .unwrap()
    {
        AuthFailure::Refused { error, description } => {
            assert_eq!(error, "\"invalid_request\"");
            assert_eq!(description, "\"bad code\"");
        },
        _ => panic!("wrong failure"),
    }
    match read_grant(&reply(200, "200 OK", "{\"error\":{\"code\":7}}")).err().unwrap() {
        AuthFailure::Refused { error, description } => {
            assert_eq!(error, "{\"code\":7}");
            assert_eq!(description, "null");
        },
        _ => panic!("wrong failure"),
    }
    match read_grant(&reply(200, "200 OK", "{\"error\":12}")).err().unwrap() {
        AuthFailure::Refused { error, .. } => assert_eq!(error, "12"),
        _ => panic!("wrong failure"),
    }
    match read_grant(&reply(200, "200 OK", "{\"refresh_token\":\"r\"}")).err().unwrap() {
        AuthFailure::NoAccessToken { body } => assert_eq!(body, "{\"refresh_token\":\"r\"}"),
        _ => panic!("wrong failure"),
    }
}

fn run_to_exchange(request: &str) -> (AuthFlow, AuthAction) {
    let (flow, action) = AuthFlow::start();
    assert!(matches!(action, AuthAction::LoadCredentials));
    let (flow, action) = flow.step(AuthEvent::Credentials(Ok(creds())));
    assert!(flow.stage == AuthStage::AwaitCallback);
    match &action {
        AuthAction::Authorize { url } => assert!(url.contains("client_id=my%20id")),
        _ => panic!("expected authorize"),
    }
    flow.step(AuthEvent::Callback(request.to_string()))
}

#[test]
fn authorization_with_id_token() {
    let (flow, action) = run_to_exchange("GET /callback?code=C0DE HTTP/1.1\r\n\r\n");
    assert!(flow.stage == AuthStage::AwaitTokenReply);
    match action {
        AuthAction::Exchange { form } => assert!(form.starts_with("grant_type=authorization_code&code=C0DE&")),
        _ => panic!("expected exchange"),
    }
    let (flow, action) = flow.step(AuthEvent::TokenReply(reply(
        200,
        "200 OK",
        "{\"access_token\":\"at\",\"refresh_token\":\"rt\",\"expires_in\":60,\"id_token\":\"h.eyJzdWIiOiJhYmMxMjMifQ.s\"}",
    )));
    assert!(flow.stage == AuthStage::AwaitSave);
    match action {
        AuthAction::Save(t) => {
            assert_eq!(t.access_token, "at");
            assert_eq!(t.refresh_token, "rt");
            assert_eq!(t.person_id, "abc123");
            assert_eq!(t.expires_in, 60);
        },
        _ => panic!("expected save"),
    }
    let (flow, action) = flow.step(AuthEvent::Saved(Ok(())));
    assert!(flow.stage == AuthStage::Finished);
    match action {
        AuthAction::Done(t) => assert_eq!(t.person_id, "abc123"),
        _ => panic!("expected done"),
    }
}

#[test]
fn authorization_falls_back_to_userinfo() {
    let (flow, _) = run_to_exchange("GET /callback?code=C HTTP/1.1");
    let (flow, action) = flow.step(AuthEvent::TokenReply(reply(200, "200 OK", "{\"access_token\":\"at\"}")));
    assert!(flow.stage == AuthStage::AwaitUserinfo);
    match action {
        AuthAction::FetchUserinfo { access_token } => assert_eq!(access_token, "at"),
        _ => panic!("expected userinfo"),
    }
    let (flow, action) = flow.step(AuthEvent::Userinfo(Some(reply(200, "200 OK", "{\"sub\":\"u7\"}"))));
    match action {
        AuthAction::Save(t) => {
            assert_eq!(t.person_id, "u7");
            assert_eq!(t.refresh_token, "");
        },
        _ => panic!("expected save"),
    }
    let (_, action) = flow.step(AuthEvent::Saved(Err("read-only".to_string())));
    match action {
        AuthAction::Fail(AuthFailure::Save(e)) => assert_eq!(e, "read-only"),
        _ => panic!("expected failure"),
    }
}

#[test]
fn authorization_failures() {
    let (flow, _) = AuthFlow::start();
    let (_, action) = flow.step(AuthEvent::Credentials(Err("Cannot read".to_string())));
    assert!(matches!(action, AuthAction::Fail(AuthFailure::Credentials(_))));

    let (_, action) = run_to_exchange("GET /callback?error=access_denied HTTP/1.1");
    match action {
        AuthAction::Fail(AuthFailure::NoCode { request }) => {
            assert_eq!(request, "GET /callback?error=access_denied HTTP/1.1")
        },
        _ => panic!("expected failure"),
    }

    let (flow, _) = run_to_exchange("GET /callback?code=C HTTP/1.1");
    let (flow, _) = flow.step(AuthEvent::TokenReply(reply(200, "200 OK", "{\"access_token\":\"at\"}")));
    let (flow, action) = flow.step(AuthEvent::Userinfo(None));
    assert!(flow.stage == AuthStage::Finished);
    assert!(matches!(action, AuthAction::Fail(AuthFailure::NoPersonId)));

    let (flow, _) = run_to_exchange("GET /callback?code=C HTTP/1.1");
    let (_, action) = flow.step(AuthEvent::TokenReply(reply(401, "401 Unauthorized", "x")));
    assert!(matches!(action, AuthAction::Fail(AuthFailure::ExchangeRejected { .. })));
}

#[test]
fn encoded_code_is_read_back() {
    for code in ["AQ/x y+é", "plain", "", "%41&b=c?d", "a b\r\n"] {
        let request = format!("GET /callback?code={} HTTP/1.1\r\nHost: x\r\n\r\n", urlencoding::encode(code));
        assert_eq!(extract_auth_code(&request), code);
    }
}

use chrome2linkedin_helper::auth::{grant_from, id_token_decoder_input, person_from_claims, person_from_userinfo_reply};
use chrome2linkedin_helper::json::JsonField;

fn text(s: &str) -> Result<JsonField, String> {
    Ok(JsonField::Text(s.to_string()))
}

#[test]
fn decoder_input_of_id_tokens() {
    assert_eq!(id_token_decoder_input("h.abcdef.s"), Some("abcdef".to_string()));
    assert_eq!(id_token_decoder_input("h.abcdef==.s"), Some("abcdef".to_string()));
    assert_eq!(id_token_decoder_input("h.ab.s"), Some("ab".to_string()));
    assert_eq!(id_token_decoder_input("h..s"), Some(String::new()));
    assert_eq!(id_token_decoder_input("h.xyz"), Some("xyz".to_string()));
    assert_eq!(id_token_decoder_input("nodot"), None);
}

#[test]
fn person_from_lookups() {
    assert_eq!(person_from_claims(text("m1")), "m1");
    assert_eq!(person_from_claims(Ok(JsonField::Unsigned(5))), "");
    assert_eq!(person_from_claims(Ok(JsonField::Missing)), "");
    assert_eq!(person_from_claims(Err("bad".to_string())), "");
    assert_eq!(person_from_userinfo_reply(200, text("m2")), "m2");
    assert_eq!(person_from_userinfo_reply(299, text("m2")), "m2");
    assert_eq!(person_from_userinfo_reply(300, text("m2")), "");
    assert_eq!(person_from_userinfo_reply(401, text("m2")), "");
}

#[test]
fn grant_from_lookups() {
    let ok = reply(200, "200 OK", "body");
    let missing = || Ok(JsonField::Missing);
    let g = grant_from(&ok, missing(), missing(), text("at"), text("rt"), Ok(JsonField::Unsigned(60)), text("a.b.c"))
        .ok()
        .unwrap();
    assert_eq!(g.access_token, "at");
    assert_eq!(g.refresh_token, "rt");
    assert_eq!(g.expires_in, 60);
    assert_eq!(g.id_token.as_deref(), Some("a.b.c"));
    let g = grant_from(&ok, missing(), missing(), text("at"), Ok(JsonField::Unsigned(1)), text("60"), Ok(JsonField::Unsigned(2)))
        .ok()
        .unwrap();
    assert_eq!(g.refresh_token, "");
    assert_eq!(g.expires_in, 0);
    assert!(g.id_token.is_none());
    match grant_from(&ok, text("invalid_grant"), Ok(JsonField::Unsigned(7)), text("at"), missing(), missing(), missing()) {
        Err(AuthFailure::Refused { error, description }) => {
            assert_eq!(error, "\"invalid_grant\"");
            assert_eq!(description, "7");
        },
        _ => panic!("expected refusal"),
    }
    match grant_from(&ok, Err("expected value".to_string()), missing(), missing(), missing(), missing(), missing()) {
        Err(AuthFailure::Unparsable { message, body }) => {
            assert_eq!(message, "expected value");
            assert_eq!(body, "body");
        },
        _ => panic!("expected unparsable"),
    }
    match grant_from(&ok, missing(), missing(), text(""), missing(), missing(), missing()) {
        Err(AuthFailure::NoAccessToken { body }) => assert_eq!(body, "body"),
        _ => panic!("expected no access token"),
    }
    match grant_from(&reply(500, "500 Internal Server Error", "x"), missing(), missing(), text("at"), missing(), missing(), missing()) {
        Err(AuthFailure::ExchangeRejected { status_line, .. }) => assert_eq!(status_line, "500 Internal Server Error"),
        _ => panic!("expected rejection"),
    }
}
