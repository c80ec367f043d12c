//! The capture session: `Listening -> Captured -> Done`.
//!
//! The driver hands the session what it observes (a request to the loopback
//! listener, a navigation of the embedded web-view, the user's
//! acknowledgement) and performs what comes back: the response body to send,
//! and the code to persist, if any.
use vstd::prelude::*;
use crate::callback::{
    captured_code, is_callback, is_capture, response_body, route_request, Route, MISSING_CODE_BODY,
    NOT_FOUND_BODY, SUCCESS_BODY,
};
use crate::text::opt_view;
use crate::webview::{page_code, page_url_code};

verus! {

/// Where a session stands.
#[derive(Clone, Copy, Debug, PartialEq, Eq, Structural)]
pub enum Phase {
    /// Waiting for a callback that carries a code.
    Listening,
    /// A code was captured; the listener is gone, acknowledgement pending.
    Captured,
    /// The code was persisted and the user acknowledged: the run ends.
    Done,
}

/// The abstract state of a session.
pub struct SessionView {
    pub phase: Phase,
    pub code: Option<Seq<char>>,
}

/// What the driver observes.
pub enum Event {
    /// A request for this URL reached the loopback listener.
    Request(Seq<char>),
    /// The embedded web-view's page moved to this URL.
    PageUrl(Seq<char>),
    /// The user acknowledged the success notice.
    Acknowledged,
}

/// The state a session starts in.
pub open spec fn initial() -> SessionView {
    SessionView { phase: Phase::Listening, code: None }
}

/// A state that sessions can be in: a code is held exactly when one was captured.
pub open spec fn well_formed(s: SessionView) -> bool {
    (s.phase == Phase::Listening) == (s.code is None)
}

/// The response body owed to a request for `url`.
pub open spec fn body_for(url: Seq<char>) -> Seq<char> {
    if !is_callback(url) {
        NOT_FOUND_BODY@
    } else if !is_capture(url) {
        MISSING_CODE_BODY@
    } else {
        SUCCESS_BODY@
    }
}

/// The code that an event carries: the code of a capturing request, or of
/// the callback page.
pub open spec fn captured_by(e: Event) -> Option<Seq<char>> {
    match e {
        Event::Request(url) => if is_capture(url) {
            Some(captured_code(url))
        } else {
            None
        },
        Event::PageUrl(url) => page_code(url),
        Event::Acknowledged => None,
    }
}

/// The state after `e`.
pub open spec fn step(s: SessionView, e: Event) -> SessionView {
    if s.phase == Phase::Listening && captured_by(e) is Some {
        SessionView { phase: Phase::Captured, code: captured_by(e) }
    } else if s.phase == Phase::Captured && e is Acknowledged {
        SessionView { phase: Phase::Done, code: s.code }
    } else {
        s
    }
}

/// The code that `e` has the driver persist, if any.
pub open spec fn persisted(s: SessionView, e: Event) -> Option<Seq<char>> {
    if s.phase == Phase::Listening {
        captured_by(e)
    } else {
        None
    }
}

/// The state after a run of events.
pub open spec fn run(s: SessionView, events: Seq<Event>) -> SessionView
    decreases events.len(),
{
    if events.len() == 0 {
        s
    } else {
        run(step(s, events[0]), events.drop_first())
    }
}

/// The codes persisted over a run of events, in order.
pub open spec fn persisted_over(s: SessionView, events: Seq<Event>) -> Seq<Seq<char>>
    decreases events.len(),
{
    if events.len() == 0 {
        Seq::empty()
    } else {
        let rest = persisted_over(step(s, events[0]), events.drop_first());
        match persisted(s, events[0]) {
            Some(c) => seq![c] + rest,
            None => rest,
        }
    }
}

/// The event carries a code.
pub open spec fn is_capture_event(e: Event) -> bool {
    captured_by(e) is Some
}

/// `events[i]` is the first event of the run that carries a code.
pub open spec fn is_first_capture(events: Seq<Event>, i: int) -> bool {
    &&& 0 <= i < events.len()
    &&& is_capture_event(events[i])
    &&& forall|j: int| 0 <= j < i ==> !is_capture_event(#[trigger] events[j])
}

proof fn lemma_after_capture(s: SessionView, events: Seq<Event>)
    requires
        s.phase != Phase::Listening,
        s.code is Some,
    ensures
        persisted_over(s, events).len() == 0,
        run(s, events).phase != Phase::Listening,
        run(s, events).code == s.code,
        s.phase == Phase::Done ==> run(s, events).phase == Phase::Done,
    decreases events.len(),
{
    if events.len() > 0 {
        lemma_after_capture(step(s, events[0]), events.drop_first());
    }
}

/// Over any run of a fresh session, at most one code is persisted. When an
/// event carries a code, exactly one is persisted and it is the code of the
/// first such event; without one nothing is persisted and the session keeps
/// listening. A session that reached `Done` has persisted its
/// code: it never ends before persistence.
pub proof fn lemma_single_capture(events: Seq<Event>)
    ensures
        persisted_over(initial(), events).len() <= 1,
        forall|i: int| is_first_capture(events, i)
            ==> persisted_over(initial(), events) == seq![captured_by(events[i])->0],
        (forall|i: int| 0 <= i < events.len() ==> !is_capture_event(#[trigger] events[i]))
            ==> persisted_over(initial(), events).len() == 0 && run(initial(), events) == initial(),
        run(initial(), events).phase == Phase::Done
            ==> persisted_over(initial(), events).len() == 1,
    decreases events.len(),
{
    if events.len() > 0 {
        let e = events[0];
        let rest = events.drop_first();
        if is_capture_event(e) {
            lemma_after_capture(step(initial(), e), rest);
            assert(persisted_over(initial(), events) =~= seq![captured_by(e)->0]);
            assert forall|i: int| is_first_capture(events, i) implies i == 0 by {
                if i > 0 {
                    assert(!is_capture_event(events[0]));
                }
            }
        } else {
            assert(step(initial(), e) == initial());
            lemma_single_capture(rest);
            assert forall|i: int| is_first_capture(events, i) implies is_first_capture(rest, i - 1) by {
                assert forall|j: int| 0 <= j < i - 1 implies !is_capture_event(#[trigger] rest[j]) by {
                    assert(rest[j] == events[j + 1]);
                }
            }
            assert((forall|i: int| 0 <= i < events.len() ==> !is_capture_event(#[trigger] events[i]))
                ==> (forall|i: int| 0 <= i < rest.len() ==> !is_capture_event(#[trigger] rest[i]))) by {
                if forall|i: int| 0 <= i < events.len() ==> !is_capture_event(#[trigger] events[i]) {
                    assert forall|i: int| 0 <= i < rest.len() implies !is_capture_event(#[trigger] rest[i]) by {
                        assert(rest[i] == events[i + 1]);
                    }
                }
            }
        }
    }
}

/// A request that does not capture a code has nothing persisted, in any state.
pub proof fn lemma_no_capture_no_artifact(s: SessionView, url: Seq<char>)
    requires
        !is_capture(url),
    ensures
        persisted(s, Event::Request(url)) is None,
        step(s, Event::Request(url)) == s,
{
}

/// What the driver performs for one request.
pub struct Reply {
    /// The plain-text body of the response.
    pub body: String,
    /// The code to persist before anything else, if one was captured.
    pub persist: Option<String>,
}

/// A capture session of the loopback listener.
pub struct Session {
    phase: Phase,
    code: Option<String>,
}

impl View for Session {
    type V = SessionView;

    closed spec fn view(&self) -> SessionView {
        SessionView { phase: self.phase, code: opt_view(self.code) }
    }
}

impl Session {
    /// A fresh session, listening.
    pub fn new() -> (r: Session)
        ensures
            r@ == initial(),
            well_formed(r@),
    {
        Session { phase: Phase::Listening, code: None }
    }

    /// Where the session stands.
    pub fn phase(&self) -> (r: Phase)
        ensures
            r == self@.phase,
    {
        self.phase
    }

    /// The captured code, once there is one.
    pub fn code(&self) -> (r: Option<String>)
        ensures
            opt_view(r) == self@.code,
    {
        match &self.code {
            Some(c) => Some(c.clone()),
            None => None,
        }
    }

    /// The session has ended: persistence and acknowledgement are behind it.
    pub fn is_done(&self) -> (r: bool)
        ensures
            r == (self@.phase == Phase::Done),
    {
        self.phase == Phase::Done
    }

    /// The listener still takes requests.
    pub fn is_listening(&self) -> (r: bool)
        ensures
            r == (self@.phase == Phase::Listening),
    {
        self.phase == Phase::Listening
    }

    /// Handles a request for `url`. While listening, the reply holds the body
    /// owed to the request and, for the first capturing request, the code to
    /// persist; once a code is captured the listener is gone and requests get
    /// no reply.
    pub fn on_request(&mut self, url: &str) -> (r: Option<Reply>)
        requires
            well_formed(old(self)@),
        ensures
            well_formed(final(self)@),
            final(self)@ == step(old(self)@, Event::Request(url@)),
            old(self)@.phase != Phase::Listening ==> r is None,
            old(self)@.phase == Phase::Listening ==> (r matches Some(reply) && reply.body@ == body_for(url@)
                && opt_view(reply.persist) == persisted(old(self)@, Event::Request(url@))),
    {
        if self.phase != Phase::Listening {
            return None;
        }
        let route = route_request(url);
        let body = String::from_str(response_body(&route));
        match route {
            Route::Captured(code) => {
                self.code = Some(code.clone());
                self.phase = Phase::Captured;
                Some(Reply { body, persist: Some(code) })
            },
            _ => Some(Reply { body, persist: None }),
        }
    }

    /// Handles a navigation of the embedded web-view to `url`. While
    /// listening, the code of the callback page is captured and returned for
    /// persistence; any other page, or any page once a code is held, gives
    /// nothing.
    pub fn on_page_url(&mut self, url: &str) -> (r: Option<String>)
        requires
            well_formed(old(self)@),
        ensures
            well_formed(final(self)@),
            final(self)@ == step(old(self)@, Event::PageUrl(url@)),
            opt_view(r) == persisted(old(self)@, Event::PageUrl(url@)),
    {
        if self.phase != Phase::Listening {
            return None;
        }
        match page_url_code(url) {
            Some(code) => {
                self.code = Some(code.clone());
                self.phase = Phase::Captured;
                Some(code)
            },
            None => None,
        }
    }

    /// Handles the user's acknowledgement: a session that captured a code
    /// is then done. Returns whether the run may end.
    pub fn on_acknowledged(&mut self) -> (r: bool)
        requires
            well_formed(old(self)@),
        ensures
            well_formed(final(self)@),
            final(self)@ == step(old(self)@, Event::Acknowledged),
            r == (final(self)@.phase == Phase::Done),
    {
        if self.phase == Phase::Captured {
            self.phase = Phase::Done;
        }
        self.phase == Phase::Done
    }
}

} // verus!
