//! The authorization request and the URL that carries it.
use vstd::prelude::*;
use vstd::string::*;
use crate::text::{decimal, decimal_string};

verus! {

/// The authorization endpoint of the cloud drive.
pub const AUTHORIZE_ENDPOINT: &'static str = "https://openapi.alipan.com/oauth/authorize";

/// The client identifier registered for the device application.
pub const CLIENT_ID: &'static str = "0f2cda4bb8de4f669ef4d3d763e88738";

/// The requested scopes, comma-separated, in order.
pub const SCOPE: &'static str = "user:base,file:all:write,file:all:read";

/// The page style of the authorization UI.
pub const STYLE: &'static str = "all";

/// The loopback port that the redirect listener binds by default.
pub const DEFAULT_PORT: u16 = 10304;

/// The out-of-band redirect target used by the embedded web-view.
pub const OOB_REDIRECT: &'static str = "oob";

/// The authorization URL for the given request tuple, with `response_type=code`.
pub open spec fn authorization_url_of(
    client_id: Seq<char>,
    redirect_uri: Seq<char>,
    scope: Seq<char>,
    style: Seq<char>,
) -> Seq<char> {
    AUTHORIZE_ENDPOINT@ + "?client_id="@ + client_id + "&redirect_uri="@ + redirect_uri
        + "&scope="@ + scope + "&style="@ + style + "&response_type=code"@
}

/// The loopback redirect target on `port`.
pub open spec fn loopback_redirect_of(port: nat) -> Seq<char> {
    "http://127.0.0.1:"@ + decimal(port) + "/callback"@
}

/// Builds the authorization URL by a single concatenation of the request tuple.
pub fn authorization_url(client_id: &str, redirect_uri: &str, scope: &str, style: &str) -> (r:
    String)
    ensures
        r@ == authorization_url_of(client_id@, redirect_uri@, scope@, style@),
{
    let mut r = String::from_str(AUTHORIZE_ENDPOINT);
    r.append("?client_id=");
    r.append(client_id);
    r.append("&redirect_uri=");
    r.append(redirect_uri);
    r.append("&scope=");
    r.append(scope);
    r.append("&style=");
    r.append(style);
    r.append("&response_type=code");
    r
}

/// The redirect target `http://127.0.0.1:<port>/callback`.
pub fn loopback_redirect_uri(port: u16) -> (r: String)
    ensures
        r@ == loopback_redirect_of(port as nat),
{
    let mut r = String::from_str("http://127.0.0.1:");
    let digits = decimal_string(port as u64);
    r.append(digits.as_str());
    r.append("/callback");
    r
}

/// The authorization URL of the loopback variant, from the built-in constants.
pub fn loopback_authorization_url(port: u16) -> (r: String)
    ensures
        r@ == authorization_url_of(CLIENT_ID@, loopback_redirect_of(port as nat), SCOPE@, STYLE@),
{
    let redirect = loopback_redirect_uri(port);
    authorization_url(CLIENT_ID, redirect.as_str(), SCOPE, STYLE)
}

/// The authorization URL of the web-view variant, which redirects out of band.
pub fn oob_authorization_url() -> (r: String)
    ensures
        r@ == authorization_url_of(CLIENT_ID@, OOB_REDIRECT@, SCOPE@, STYLE@),
{
    authorization_url(CLIENT_ID, OOB_REDIRECT, SCOPE, STYLE)
}

/// The authorization URL depends on the build constants and the port alone:
/// equal inputs give the same URL on every run.
pub proof fn lemma_authorization_url_stable(port1: u16, port2: u16)
    requires
        port1 == port2,
    ensures
        authorization_url_of(CLIENT_ID@, loopback_redirect_of(port1 as nat), SCOPE@, STYLE@)
            == authorization_url_of(CLIENT_ID@, loopback_redirect_of(port2 as nat), SCOPE@, STYLE@),
{
}

} // verus!

verus! {

/// The notice shown when the browser cannot be opened: the URL, verbatim,
/// for the user to visit by hand.
pub open spec fn manual_visit_notice_of(url: Seq<char>) -> Seq<char> {
    "Failed to open browser!\nPlease manually visit this URL:\n"@ + url
}

/// Renders the notice shown when the browser cannot be opened.
pub fn manual_visit_notice(url: &str) -> (r: String)
    ensures
        r@ == manual_visit_notice_of(url@),
{
    let mut r = String::from_str("Failed to open browser!\nPlease manually visit this URL:\n");
    r.append(url);
    r
}

} // verus!
