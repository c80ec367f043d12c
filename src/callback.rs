//! Routing of the requests that reach the loopback redirect listener, and
//! extraction of the authorization code from the callback URL.
use vstd::prelude::*;
use vstd::string::*;
use crate::text::{
    chars_of, find_from, first_match, has_prefix, index_in, index_of, is_first_match,
    lemma_first_match_is, lemma_index_of_is, match_at, matches_at, occurs_in,
};

verus! {

/// The path of the redirect endpoint.
pub const CALLBACK_PATH: &'static str = "/callback";

/// The text that introduces the code parameter.
pub const CODE_KEY: &'static str = "code=";

/// The body sent once a code was captured.
pub const SUCCESS_BODY: &'static str = "授权成功!\n授权码已保存到 drive.json 文件\n请将其放到SD卡根目录的TYSS文件夹中,并在10分钟之内启动TYSS完成客户端授权!\n此网页可安全关闭。";

/// The body sent for a callback that carries no code.
pub const MISSING_CODE_BODY: &'static str = "Missing code in callback URL.";

/// The body sent for any other path.
pub const NOT_FOUND_BODY: &'static str = "Not found.";

/// The request targets the redirect endpoint.
pub open spec fn is_callback(url: Seq<char>) -> bool {
    has_prefix(url, CALLBACK_PATH@)
}

/// The query of a request URL: what follows its first `?`, empty where
/// there is none.
pub open spec fn query_part(url: Seq<char>) -> Seq<char> {
    if index_of(url, '?') < url.len() {
        url.skip(index_of(url, '?') + 1)
    } else {
        Seq::empty()
    }
}

/// The request targets the redirect endpoint and its query carries a code.
pub open spec fn is_capture(url: Seq<char>) -> bool {
    is_callback(url) && occurs_in(query_part(url), CODE_KEY@)
}

/// The text of a query that follows its first code parameter's key.
pub open spec fn after_code_key(query: Seq<char>) -> Seq<char> {
    query.skip(first_match(query, CODE_KEY@) + CODE_KEY@.len())
}

/// The captured code: the value of the query's first code parameter, up to
/// the next `&`.
pub open spec fn captured_code(url: Seq<char>) -> Seq<char> {
    let rest = after_code_key(query_part(url));
    rest.take(index_of(rest, '&'))
}

/// What a request to the listener comes to.
pub enum Route {
    /// A callback that carries this code.
    Captured(String),
    /// A callback without a code.
    MissingCode,
    /// Any other path.
    NotFound,
}

/// The route owed to a request for `url`, given the captured text.
pub open spec fn route_matches(r: Route, url: Seq<char>) -> bool {
    &&& !is_callback(url) ==> r is NotFound
    &&& is_callback(url) && !is_capture(url) ==> r is MissingCode
    &&& is_capture(url) ==> (r matches Route::Captured(c) && c@ == captured_code(url))
}

/// The response body owed to a route.
pub open spec fn body_of(r: Route) -> Seq<char> {
    match r {
        Route::Captured(_) => SUCCESS_BODY@,
        Route::MissingCode => MISSING_CODE_BODY@,
        Route::NotFound => NOT_FOUND_BODY@,
    }
}

proof fn lemma_matches_skip(s: Seq<char>, p: Seq<char>, a: int, j: int)
    requires
        0 <= a <= s.len(),
        0 <= j,
    ensures
        matches_at(s.skip(a), p, j) == matches_at(s, p, a + j),
{
    if j + p.len() <= s.len() - a {
        assert(s.skip(a).subrange(j, j + p.len()) =~= s.subrange(a + j, a + j + p.len()));
    }
}

/// Routes one request by its URL (path and query).
pub fn route_request(url: &str) -> (r: Route)
    ensures
        route_matches(r, url@),
{
    let s = chars_of(url);
    let path = chars_of(CALLBACK_PATH);
    let key = chars_of(CODE_KEY);
    let on_path = match_at(&s, &path, 0);
    assert(on_path == is_callback(url@)) by {
        if path@.len() <= s@.len() {
            assert(s@.subrange(0, path@.len() as int) =~= s@.take(path@.len() as int));
        }
    }
    if !on_path {
        return Route::NotFound;
    }
    let n = s.len();
    let q = index_in(&s, '?', 0, n);
    assert(s@.subrange(0, n as int) =~= s@);
    if q == n {
        assert(query_part(url@) =~= Seq::<char>::empty());
        assert(!occurs_in(query_part(url@), CODE_KEY@)) by {
            reveal_strlit("code=");
        }
        return Route::MissingCode;
    }
    let ghost query = url@.skip(q + 1);
    assert(query_part(url@) == query);
    match find_from(&s, &key, q + 1) {
        None => {
            assert forall|j: int| !matches_at(query, CODE_KEY@, j) by {
                if 0 <= j {
                    lemma_matches_skip(url@, CODE_KEY@, q + 1, j);
                }
            }
            Route::MissingCode
        },
        Some(k) => {
            proof {
                let kq = k - q - 1;
                lemma_matches_skip(url@, CODE_KEY@, q + 1, kq);
                assert forall|j: int| 0 <= j < kq implies !matches_at(query, CODE_KEY@, j) by {
                    lemma_matches_skip(url@, CODE_KEY@, q + 1, j);
                }
                lemma_first_match_is(query, CODE_KEY@, kq);
            }
            assert(matches_at(s@, key@, k as int));
            let start = k + key.len();
            let end = index_in(&s, '&', start, n);
            proof {
                assert(after_code_key(query) =~= s@.subrange(start as int, n as int));
                assert(url@.subrange(start as int, end as int)
                    =~= s@.subrange(start as int, n as int).take(end - start));
            }
            let code = url.substring_char(start, end).to_owned();
            Route::Captured(code)
        },
    }
}

/// The plain-text body sent back for a route.
pub fn response_body(r: &Route) -> (b: &'static str)
    ensures
        b@ == body_of(*r),
{
    match r {
        Route::Captured(_) => SUCCESS_BODY,
        Route::MissingCode => MISSING_CODE_BODY,
        Route::NotFound => NOT_FOUND_BODY,
    }
}

/// A character that the authorization server uses in codes:
/// `[A-Za-z0-9_.-]`.
pub open spec fn is_code_char(c: char) -> bool {
    ||| ('A' as u32) <= (c as u32) <= ('Z' as u32)
    ||| ('a' as u32) <= (c as u32) <= ('z' as u32)
    ||| ('0' as u32) <= (c as u32) <= ('9' as u32)
    ||| c == '_'
    ||| c == '-'
    ||| c == '.'
}

/// A non-empty code made of code characters.
pub open spec fn is_plain_code(code: Seq<char>) -> bool {
    code.len() > 0 && forall|i: int| 0 <= i < code.len() ==> is_code_char(#[trigger] code[i])
}

proof fn lemma_capture_of(pre: Seq<char>, code: Seq<char>, suffix: Seq<char>)
    requires
        !occurs_in(pre, CODE_KEY@),
        is_plain_code(code),
        suffix.len() == 0 || suffix[0] == '&',
    ensures
        is_capture("/callback?"@ + pre + CODE_KEY@ + code + suffix),
        captured_code("/callback?"@ + pre + CODE_KEY@ + code + suffix) == code,
{
    reveal_strlit("/callback?");
    reveal_strlit("/callback");
    reveal_strlit("code=");
    let url = "/callback?"@ + pre + CODE_KEY@ + code + suffix;
    assert(url.take(CALLBACK_PATH@.len() as int) =~= CALLBACK_PATH@);
    assert forall|j: int| 0 <= j < 9 implies url[j] != '?' by {
        assert(url[j] == "/callback?"@[j]);
    }
    lemma_index_of_is(url, '?', 9);
    let query = pre + CODE_KEY@ + code + suffix;
    assert(query_part(url) =~= query);
    let l = pre.len() as int;
    assert(query.subrange(l, l + 5) =~= CODE_KEY@);
    assert forall|j: int| 0 <= j < l implies !matches_at(query, CODE_KEY@, j) by {
        if j + 5 <= l {
            assert(query.subrange(j, j + 5) =~= pre.subrange(j, j + 5));
            if matches_at(query, CODE_KEY@, j) {
                assert(matches_at(pre, CODE_KEY@, j));
            }
        } else if matches_at(query, CODE_KEY@, j) {
            assert(query.subrange(j, j + 5)[l - j] == query[l]);
        }
    }
    assert(is_first_match(query, CODE_KEY@, l));
    lemma_first_match_is(query, CODE_KEY@, l);
    let rest = code + suffix;
    assert(after_code_key(query) =~= rest);
    let m = code.len() as int;
    assert forall|k: int| 0 <= k < m implies rest[k] != '&' by {
        assert(rest[k] == code[k]);
        assert(is_code_char(code[k]));
    }
    lemma_index_of_is(rest, '&', m);
    assert(rest.take(m) =~= code);
}

/// A code made of code characters is captured as it was sent.
pub proof fn lemma_code_round_trip(code: Seq<char>)
    requires
        is_plain_code(code),
    ensures
        is_capture("/callback?code="@ + code),
        captured_code("/callback?code="@ + code) == code,
{
    reveal_strlit("/callback?code=");
    reveal_strlit("/callback?");
    reveal_strlit("code=");
    let pre = Seq::<char>::empty();
    assert forall|j: int| !matches_at(pre, CODE_KEY@, j) by {}
    lemma_capture_of(pre, code, Seq::empty());
    assert("/callback?"@ + pre + CODE_KEY@ + code + Seq::<char>::empty() =~= "/callback?code="@ + code);
}

/// Whatever follows, and however many code parameters it holds, the captured
/// code is the value of the first code parameter of the query.
pub proof fn lemma_first_code_wins(pre: Seq<char>, code: Seq<char>, tail: Seq<char>)
    requires
        !occurs_in(pre, CODE_KEY@),
        is_plain_code(code),
    ensures
        is_capture("/callback?"@ + pre + CODE_KEY@ + code + "&"@ + tail),
        captured_code("/callback?"@ + pre + CODE_KEY@ + code + "&"@ + tail) == code,
{
    reveal_strlit("&");
    let suffix = "&"@ + tail;
    lemma_capture_of(pre, code, suffix);
    assert("/callback?"@ + pre + CODE_KEY@ + code + "&"@ + tail
        =~= "/callback?"@ + pre + CODE_KEY@ + code + suffix);
}

/// A request without a query captures nothing, whatever its path holds.
pub proof fn lemma_no_query_no_capture(url: Seq<char>)
    requires
        forall|i: int| 0 <= i < url.len() ==> url[i] != '?',
    ensures
        !is_capture(url),
{
    lemma_index_of_is(url, '?', url.len() as int);
    reveal_strlit("code=");
    assert(!occurs_in(Seq::<char>::empty(), CODE_KEY@));
}

} // verus!
