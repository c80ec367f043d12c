use adrivehelper::artifact::{artifact_content, ARTIFACT_FILE_NAME};
use adrivehelper::authorize::{
    authorization_url, loopback_authorization_url, loopback_redirect_uri, manual_visit_notice,
    oob_authorization_url, DEFAULT_PORT,
};
use adrivehelper::callback::{
    response_body, route_request, Route, MISSING_CODE_BODY, NOT_FOUND_BODY, SUCCESS_BODY,
};
use adrivehelper::session::{Phase, Session};
use adrivehelper::text::decimal_string;

fn captured(url: &str) -> Option<String> {
    match route_request(url) {
        Route::Captured(c) => Some(c),
        _ => None,
    }
}

#[test]
fn happy_path_loopback() {
    let mut s = Session::new();
    let reply = s.on_request("/callback?code=ABC123&state=xyz").unwrap();
    assert_eq!(reply.persist.as_deref(), Some("ABC123"));
    assert!(reply.body.contains("授权成功"));
    assert_eq!(artifact_content("ABC123"), "{ \"driveAuthCode\": \"ABC123\" }");
    assert_eq!(ARTIFACT_FILE_NAME, "drive.json");
    assert_eq!(s.phase(), Phase::Captured);
    assert!(!s.is_listening());
    assert!(s.on_acknowledged());
    assert!(s.is_done());
}

#[test]
fn missing_code_keeps_listening() {
    let mut s = Session::new();
    let reply = s.on_request("/callback?state=xyz").unwrap();
    assert_eq!(reply.body, "Missing code in callback URL.");
    assert!(reply.persist.is_none());
    assert!(s.is_listening());
    assert!(s.code().is_none());
}

#[test]
fn unknown_path_keeps_listening() {
    let mut s = Session::new();
    let reply = s.on_request("/unrelated").unwrap();
    assert_eq!(reply.body, "Not found.");
    assert!(reply.persist.is_none());
    assert!(s.is_listening());
}

#[test]
fn code_with_trailing_parameters() {
    let mut s = Session::new();
    let reply = s.on_request("/callback?code=TOK.1-2_3&foo=bar").unwrap();
    let code = reply.persist.unwrap();
    assert_eq!(code, "TOK.1-2_3");
    assert_eq!(artifact_content(&code), "{ \"driveAuthCode\": \"TOK.1-2_3\" }");
}

#[test]
fn browser_failure_prints_url_and_capture_goes_on() {
    let url = loopback_authorization_url(DEFAULT_PORT);
    let notice = manual_visit_notice(&url);
    assert_eq!(
        notice,
        format!("Failed to open browser!\nPlease manually visit this URL:\n{}", url)
    );
    assert!(notice.ends_with(&url));
    let mut s = Session::new();
    assert!(s.on_request("/callback?code=LATE").unwrap().persist.is_some());
    assert_eq!(s.code().as_deref(), Some("LATE"));
}

#[test]
fn authorization_url_loopback() {
    assert_eq!(
        loopback_authorization_url(10304),
        "https://openapi.alipan.com/oauth/authorize?client_id=0f2cda4bb8de4f669ef4d3d763e88738\
         &redirect_uri=http://127.0.0.1:10304/callback&scope=user:base,file:all:write,file:all:read\
         &style=all&response_type=code"
    );
}

#[test]
fn authorization_url_is_stable() {
    assert_eq!(loopback_authorization_url(10304), loopback_authorization_url(10304));
    assert_ne!(loopback_authorization_url(10304), loopback_authorization_url(8080));
}

#[test]
fn authorization_url_oob() {
    assert_eq!(
        oob_authorization_url(),
        "https://openapi.alipan.com/oauth/authorize?client_id=0f2cda4bb8de4f669ef4d3d763e88738\
         &redirect_uri=oob&scope=user:base,file:all:write,file:all:read&style=all&response_type=code"
    );
}

#[test]
fn authorization_url_concatenates_tuple() {
    assert_eq!(
        authorization_url("id", "r", "s", "t"),
        "https://openapi.alipan.com/oauth/authorize?client_id=id&redirect_uri=r&scope=s&style=t&response_type=code"
    );
}

#[test]
fn redirect_uri_ports() {
    assert_eq!(loopback_redirect_uri(10304), "http://127.0.0.1:10304/callback");
    assert_eq!(loopback_redirect_uri(0), "http://127.0.0.1:0/callback");
    assert_eq!(loopback_redirect_uri(65535), "http://127.0.0.1:65535/callback");
}

#[test]
fn decimal_rendering() {
    assert_eq!(decimal_string(0), "0");
    assert_eq!(decimal_string(9), "9");
    assert_eq!(decimal_string(10), "10");
    assert_eq!(decimal_string(18446744073709551615), "18446744073709551615");
}

#[test]
fn code_round_trip() {
    for code in ["a", "Z9", "TOK.1-2_3", "abc_DEF-012.xyz"] {
        assert_eq!(captured(&format!("/callback?code={}", code)).as_deref(), Some(code));
        assert_eq!(captured(&format!("/callback?code={}&state=s", code)).as_deref(), Some(code));
    }
}

#[test]
fn first_code_wins() {
    assert_eq!(captured("/callback?code=FIRST&code=SECOND").as_deref(), Some("FIRST"));
    assert_eq!(captured("/callback?state=x&code=ONE&code=TWO").as_deref(), Some("ONE"));
}

#[test]
fn code_value_ends_at_ampersand_only() {
    assert_eq!(captured("/callback?code=abccode=x").as_deref(), Some("abccode=x"));
    assert_eq!(captured("/callback?code=a=b&c=d").as_deref(), Some("a=b"));
}

#[test]
fn code_in_path_is_not_captured() {
    let mut s = Session::new();
    let reply = s.on_request("/callback/code=x").unwrap();
    assert_eq!(reply.body, "Missing code in callback URL.");
    assert!(reply.persist.is_none());
    assert!(s.is_listening());
    assert!(matches!(route_request("/callback/code=x?state=1"), Route::MissingCode));
    assert_eq!(captured("/callback/code=x?code=y").as_deref(), Some("y"));
}

#[test]
fn code_key_searched_in_query_text() {
    assert_eq!(captured("/callback?xcode=1&code=2").as_deref(), Some("1"));
    assert_eq!(captured("/callback?a=b?code=Q").as_deref(), Some("Q"));
}

#[test]
fn empty_code_value() {
    assert_eq!(captured("/callback?code=&state=s").as_deref(), Some(""));
    assert_eq!(captured("/callback?code=").as_deref(), Some(""));
}

#[test]
fn routes_and_bodies() {
    assert!(matches!(route_request("/"), Route::NotFound));
    assert!(matches!(route_request(""), Route::NotFound));
    assert!(matches!(route_request("/callbac"), Route::NotFound));
    assert!(matches!(route_request("/unrelated?code=X"), Route::NotFound));
    assert!(matches!(route_request("/callback"), Route::MissingCode));
    assert_eq!(response_body(&Route::NotFound), NOT_FOUND_BODY);
    assert_eq!(response_body(&Route::MissingCode), MISSING_CODE_BODY);
    assert_eq!(response_body(&Route::Captured(String::from("x"))), SUCCESS_BODY);
}

#[test]
fn only_first_capture_persists() {
    let mut s = Session::new();
    assert!(s.on_request("/unrelated").unwrap().persist.is_none());
    assert!(s.on_request("/callback?state=1").unwrap().persist.is_none());
    assert_eq!(s.on_request("/callback?code=ONE").unwrap().persist.as_deref(), Some("ONE"));
    assert!(s.on_request("/callback?code=TWO").is_none());
    assert_eq!(s.code().as_deref(), Some("ONE"));
    assert!(s.on_acknowledged());
    assert!(s.on_request("/callback?code=THREE").is_none());
    assert_eq!(s.code().as_deref(), Some("ONE"));
}

#[test]
fn acknowledgement_before_capture_does_not_end() {
    let mut s = Session::new();
    assert!(!s.on_acknowledged());
    assert_eq!(s.phase(), Phase::Listening);
    assert!(!s.is_done());
}

#[test]
fn artifact_of_empty_code() {
    assert_eq!(artifact_content(""), "{ \"driveAuthCode\": \"\" }");
}
