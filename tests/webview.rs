use adrivehelper::session::{Phase, Session};
use adrivehelper::webview::{
    callback_page, compact_artifact_content, page_url_code, query_code,
};

#[test]
fn webview_in_page_navigation() {
    let mut s = Session::new();
    let url = "https://openapi.alipan.com/oauth/authorize/callback?code=WV42&state=s";
    let code = s.on_page_url(url).unwrap();
    assert_eq!(code, "WV42");
    assert_eq!(compact_artifact_content(&code), "{\"driveAuthCode\":\"WV42\"}");
    assert!(s.on_page_url(url).is_none());
    assert_eq!(s.phase(), Phase::Captured);
    assert!(s.on_acknowledged());
    assert!(s.is_done());
}

#[test]
fn webview_other_pages_are_ignored() {
    let mut s = Session::new();
    assert!(s
        .on_page_url("https://openapi.alipan.com/oauth/authorize?client_id=x&response_type=code")
        .is_none());
    assert!(s
        .on_page_url("https://openapi.alipan.com/oauth/authorize/callback?state=s")
        .is_none());
    assert!(s.is_listening());
}

#[test]
fn callback_page_prefix() {
    assert!(callback_page("https://openapi.alipan.com/oauth/authorize/callback?code=1"));
    assert!(!callback_page("https://openapi.alipan.com/oauth/authorize/callback"));
    assert!(!callback_page("http://openapi.alipan.com/oauth/authorize/callback?code=1"));
    assert!(!callback_page(""));
}

#[test]
fn query_parameters() {
    assert_eq!(query_code("https://h/p?state=s&code=A&code=B").as_deref(), Some("A"));
    assert_eq!(query_code("https://h/p?code=A#frag").as_deref(), Some("A"));
    assert_eq!(query_code("https://h/p?code").as_deref(), Some(""));
    assert_eq!(query_code("https://h/p?xcode=A&codes=B").as_deref(), None);
    assert_eq!(query_code("https://h/p?a=b=c&code=x=y").as_deref(), Some("x=y"));
    assert_eq!(query_code("https://h/p#code=A").as_deref(), None);
    assert_eq!(query_code("https://h/p").as_deref(), None);
    assert_eq!(query_code("").as_deref(), None);
}

#[test]
fn page_code_requires_callback_page() {
    assert_eq!(page_url_code("https://example.com/callback?code=A").as_deref(), None);
    assert_eq!(
        page_url_code("https://openapi.alipan.com/oauth/authorize/callback?state=1&code=Z").as_deref(),
        Some("Z")
    );
}

#[test]
fn loopback_and_page_share_one_capture() {
    let mut s = Session::new();
    assert!(s.on_request("/callback?code=FIRST").unwrap().persist.is_some());
    assert!(s
        .on_page_url("https://openapi.alipan.com/oauth/authorize/callback?code=SECOND")
        .is_none());
    assert_eq!(s.code().as_deref(), Some("FIRST"));
}
