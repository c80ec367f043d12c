//! The embedded web-view variant: recognising the in-page navigation to the
//! callback page and reading the code from its query parameters.
use vstd::prelude::*;
use vstd::string::*;
use crate::text::{chars_of, has_prefix, index_in, index_of, match_at, opt_view};

verus! {

/// The start of every callback page URL of the authorization server.
pub const CALLBACK_PAGE_PREFIX: &'static str = "https://openapi.alipan.com/oauth/authorize/callback?";

/// The name of the code parameter.
pub const CODE_PARAM: &'static str = "code";

/// The page URL is the authorization server's callback page.
pub open spec fn is_callback_page(url: Seq<char>) -> bool {
    has_prefix(url, CALLBACK_PAGE_PREFIX@)
}

/// The query of a URL: what follows the first `?`, up to a `#`.
pub open spec fn query_of(url: Seq<char>) -> Seq<char> {
    let rest = url.skip(index_of(url, '?') + 1);
    if index_of(url, '?') < url.len() {
        rest.take(index_of(rest, '#'))
    } else {
        Seq::empty()
    }
}

/// The value of the first parameter of `query` named `code`, if any.
/// Parameters are separated by `&`; a name ends at the first `=`.
pub open spec fn code_param(query: Seq<char>) -> Option<Seq<char>>
    decreases query.len(),
{
    let n = index_of(query, '&');
    let pair = query.take(n);
    let k = index_of(pair, '=');
    if pair.take(k) == CODE_PARAM@ {
        Some(if k < pair.len() { pair.skip(k + 1) } else { Seq::empty() })
    } else if 0 <= n < query.len() {
        code_param(query.skip(n + 1))
    } else {
        None
    }
}

/// The code that a page URL carries: on the callback page, the value of its
/// first code parameter.
pub open spec fn page_code(url: Seq<char>) -> Option<Seq<char>> {
    if is_callback_page(url) {
        code_param(query_of(url))
    } else {
        None
    }
}

/// Reads the value of the first code parameter of the query `s[from..to]`.
#[verifier::rlimit(50)]
fn code_param_in(s: &Vec<char>, url: &str, from: usize, to: usize) -> (r: Option<String>)
    requires
        from <= to <= s@.len(),
        s@ == url@,
    ensures
        opt_view(r) == code_param(s@.subrange(from as int, to as int)),
    decreases to - from,
{
    let ghost q = s@.subrange(from as int, to as int);
    let n = index_in(s, '&', from, to);
    assert(s@.subrange(from as int, n as int) =~= q.take(n - from));
    let k = index_in(s, '=', from, n);
    let ghost pair = q.take(n - from);
    assert(s@.subrange(from as int, k as int) =~= pair.take(k - from));
    let name = chars_of(CODE_PARAM);
    let named = k - from == name.len() && match_at(s, &name, from);
    assert(named == (pair.take(k - from) == CODE_PARAM@)) by {
        if k - from == name@.len() {
            assert(s@.subrange(from as int, from + name@.len()) =~= pair.take(k - from));
        }
    }
    if named {
        if k < n {
            assert(url@.subrange(k + 1, n as int) =~= pair.skip(k - from + 1));
            Some(url.substring_char(k + 1, n).to_owned())
        } else {
            Some(String::new())
        }
    } else if n < to {
        assert(s@.subrange(n + 1, to as int) =~= q.skip(n - from + 1));
        code_param_in(s, url, n + 1, to)
    } else {
        None
    }
}

/// Tests whether a page URL is the callback page.
pub fn callback_page(url: &str) -> (r: bool)
    ensures
        r == is_callback_page(url@),
{
    let s = chars_of(url);
    let p = chars_of(CALLBACK_PAGE_PREFIX);
    let r = match_at(&s, &p, 0);
    proof {
        if p@.len() <= s@.len() {
            assert(s@.subrange(0, p@.len() as int) =~= s@.take(p@.len() as int));
        }
    }
    r
}

/// The value of the first code parameter in the query of `url`.
pub fn query_code(url: &str) -> (r: Option<String>)
    ensures
        opt_view(r) == code_param(query_of(url@)),
{
    let s = chars_of(url);
    let q = index_in(&s, '?', 0, s.len());
    assert(s@.subrange(0, s@.len() as int) =~= s@);
    if q == s.len() {
        assert(query_of(url@) =~= Seq::<char>::empty());
        assert(s@.subrange(q as int, q as int) =~= Seq::<char>::empty());
        return code_param_in(&s, url, q, q);
    }
    let h = index_in(&s, '#', q + 1, s.len());
    assert(s@.subrange(q + 1, s@.len() as int) =~= url@.skip(q + 1));
    assert(s@.subrange(q + 1, h as int) =~= url@.skip(q + 1).take(h - q - 1));
    code_param_in(&s, url, q + 1, h)
}

/// The code that a page URL carries, if it is the callback page.
pub fn page_url_code(url: &str) -> (r: Option<String>)
    ensures
        opt_view(r) == page_code(url@),
{
    if callback_page(url) {
        query_code(url)
    } else {
        None
    }
}

/// The web-view's artifact text for `code`: `{"driveAuthCode":"<code>"}`.
pub open spec fn compact_artifact_of(code: Seq<char>) -> Seq<char> {
    "{\"driveAuthCode\":\""@ + code + "\"}"@
}

/// Renders the web-view's artifact text for `code`.
pub fn compact_artifact_content(code: &str) -> (r: String)
    ensures
        r@ == compact_artifact_of(code@),
{
    let mut r = String::from_str("{\"driveAuthCode\":\"");
    r.append(code);
    r.append("\"}");
    r
}

} // verus!
