use chrome2linkedin_helper::default_visibility;
use chrome2linkedin_helper::json::{created_json, error_json, post_body_json, status_json};
use chrome2linkedin_helper::model::{escape_little_text, Token};
use chrome2linkedin_helper::post::{normalize_visibility, visibility_for_upper};
use chrome2linkedin_helper::text::{chars_of, is_blank, is_white_space, same_text, string_of};

fn token(access: &str, refresh: &str, person: &str) -> Token {
    Token {
        access_token: access.to_string(),
        refresh_token: refresh.to_string(),
        person_id: person.to_string(),
        expires_in: 0,
    }
}

#[test]
fn default_visibility_is_public() {
    assert_eq!(default_visibility(), "PUBLIC");
}

#[test]
fn little_text_reserved_characters_are_escaped() {
    assert_eq!(escape_little_text("(38:15)"), "\\(38:15\\)");
    assert_eq!(
        escape_little_text("a_b *c* [x] {y} <z> @me | ~ \\"),
        "a\\_b \\*c\\* \\[x\\] \\{y\\} \\<z\\> \\@me \\| \\~ \\\\"
    );
    assert_eq!(escape_little_text("plain text #tag"), "plain text #tag");
    assert_eq!(escape_little_text(""), "");
}

fn unescape(s: &str) -> String {
    let mut out = String::new();
    let mut it = s.chars();
    while let Some(c) = it.next() {
        if c == '\\' {
            match it.next() {
                Some(n) => out.push(n),
                None => out.push(c),
            }
        } else {
            out.push(c);
        }
    }
    out
}

#[test]
fn little_text_escape_round_trips() {
    for s in ["(38:15) see [docs]", "\\\\ double", "ends with \\", "héllo ~ wörld_"] {
        assert_eq!(unescape(&escape_little_text(s)), s);
    }
}

#[test]
fn blank_commentary() {
    assert!(is_blank(""));
    assert!(is_blank("  \t\n\r "));
    assert!(is_blank("\u{A0}\u{3000}"));
    assert!(!is_blank(" a "));
    assert!(!is_blank("\u{200B}"));
}

#[test]
fn visibility_is_normalized() {
    assert_eq!(normalize_visibility("connections"), "CONNECTIONS");
    assert_eq!(normalize_visibility("Friends"), "CONNECTIONS");
    assert_eq!(normalize_visibility("CONNECTIONS"), "CONNECTIONS");
    assert_eq!(normalize_visibility("public"), "PUBLIC");
    assert_eq!(normalize_visibility("anything"), "PUBLIC");
    assert_eq!(normalize_visibility(""), "PUBLIC");
    assert_eq!(normalize_visibility("friendſ"), "CONNECTIONS");
}

#[test]
fn visibility_from_upper_case() {
    assert_eq!(visibility_for_upper("CONNECTIONS"), "CONNECTIONS");
    assert_eq!(visibility_for_upper("FRIENDS"), "CONNECTIONS");
    assert_eq!(visibility_for_upper("friends"), "PUBLIC");
    assert_eq!(visibility_for_upper("PUBLIC"), "PUBLIC");
}

#[test]
fn post_body_document() {
    assert_eq!(
        post_body_json("urn:li:person:abc", "Hello \"world\"\nbye\\", "PUBLIC"),
        "{\"author\":\"urn:li:person:abc\",\"commentary\":\"Hello \\\"world\\\"\\nbye\\\\\",\"distribution\":{\"feedDistribution\":\"MAIN_FEED\",\"targetEntities\":[],\"thirdPartyDistributionChannels\":[]},\"isReshareDisabledByAuthor\":false,\"lifecycleState\":\"PUBLISHED\",\"visibility\":\"PUBLIC\"}"
    );
}

#[test]
fn post_body_matches_serde_json() {
    let commentary = "tab\there \u{1} ctrl \u{7f} é 😀 </script>";
    let body = post_body_json("urn:li:person:x", commentary, "CONNECTIONS");
    let parsed: serde_json::Value = serde_json::from_str(&body).unwrap();
    assert_eq!(parsed["commentary"].as_str(), Some(commentary));
    assert_eq!(parsed["author"].as_str(), Some("urn:li:person:x"));
    assert_eq!(parsed["visibility"].as_str(), Some("CONNECTIONS"));
    assert!(body.contains("\\u0001"));
}

#[test]
fn error_and_created_documents() {
    assert_eq!(error_json("commentary cannot be empty"), "{\"error\":\"commentary cannot be empty\"}");
    assert_eq!(error_json("a\"b"), "{\"error\":\"a\\\"b\"}");
    assert_eq!(
        created_json("urn:li:share:1", "https://www.linkedin.com/feed/update/urn:li:share:1/"),
        "{\"post_id\":\"urn:li:share:1\",\"post_url\":\"https://www.linkedin.com/feed/update/urn:li:share:1/\"}"
    );
}

#[test]
fn status_document() {
    assert_eq!(
        status_json(true, false, true),
        "{\"has_token\":true,\"person_id_present\":false,\"refresh_token_present\":true}"
    );
    assert_eq!(
        token("a", "", "p").status_json(),
        "{\"has_token\":true,\"person_id_present\":true,\"refresh_token_present\":false}"
    );
    assert_eq!(
        token("", "r", "").status_json(),
        "{\"has_token\":false,\"person_id_present\":false,\"refresh_token_present\":true}"
    );
}

#[test]
fn char_helpers() {
    assert_eq!(chars_of("héllo"), vec!['h', 'é', 'l', 'l', 'o']);
    assert_eq!(string_of(&['a', 'ß']), "aß");
    assert!(same_text("abc", "abc"));
    assert!(!same_text("abc", "abd"));
    assert!(!same_text("abc", "ab"));
}

#[test]
fn token_duplicate_keeps_fields() {
    let t = Token { access_token: "a".into(), refresh_token: "r".into(), person_id: "p".into(), expires_in: 7 };
    let d = t.duplicate();
    assert_eq!(d.access_token, "a");
    assert_eq!(d.refresh_token, "r");
    assert_eq!(d.person_id, "p");
    assert_eq!(d.expires_in, 7);
}

#[test]
fn white_space_table() {
    let listed: Vec<u32> = vec![
        0x09, 0x0a, 0x0b, 0x0c, 0x0d, 0x20, 0x85, 0xa0, 0x1680, 0x2000, 0x2001, 0x2002, 0x2003, 0x2004,
        0x2005, 0x2006, 0x2007, 0x2008, 0x2009, 0x200a, 0x2028, 0x2029, 0x202f, 0x205f, 0x3000,
    ];
    for u in 0u32..0x11000 {
        if let Some(c) = char::from_u32(u) {
            assert_eq!(is_white_space(c), c.is_whitespace(), "U+{:04X}", u);
            assert_eq!(is_white_space(c), listed.contains(&u), "U+{:04X}", u);
        }
    }
    assert!(!is_blank("a"));
}
