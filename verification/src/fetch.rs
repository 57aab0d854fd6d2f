//! One fetch, from the first request to its one outcome.
//!
//! The library decides; it sends nothing. Whoever runs a fetch issues the
//! request it is told to issue, reports what came back or how much time has
//! gone by, and is told what to do next. A fetch follows redirects while its
//! budget lasts, ends in exactly one outcome, and ignores whatever is
//! reported afterwards.

use crate::url::LanguageInvalidError;
use vstd::prelude::*;

verus! {

/// How many redirects a fetch follows unless it is told otherwise.
pub const CLIENT_REDIRECTS: u32 = 2;

/// Why a fetch failed.
#[derive(Debug)]
pub enum HttpError {
    /// The transport failed; the message is its own.
    Backend(String),
    /// The address could not be formed.
    UrlParseError(String),
    /// The language has no edition to ask.
    LanguageInvalidError(LanguageInvalidError),
    /// The server answered 404.
    PageNotFound,
    /// No outcome within the time allowed.
    Timeout,
    /// The response has no text.
    NoPageBody,
    /// A redirect came when the budget was spent.
    TooManyRedirects,
    /// The server sends the client elsewhere.
    Redirect(String),
    /// A status that is neither success nor redirect nor 404.
    Unknown(u16),
    /// The response is no document of the kind asked for.
    DeserialisationError(String),
}

/// What an `HttpError` says.
pub ghost enum HttpFault {
    Backend(Seq<char>),
    UrlParseError(Seq<char>),
    LanguageInvalidError,
    PageNotFound,
    Timeout,
    NoPageBody,
    TooManyRedirects,
    Redirect(Seq<char>),
    Unknown(u16),
    DeserialisationError(Seq<char>),
}

impl View for HttpError {
    type V = HttpFault;

    open spec fn view(&self) -> HttpFault {
        match self {
            HttpError::Backend(message) => HttpFault::Backend(message@),
            HttpError::UrlParseError(message) => HttpFault::UrlParseError(message@),
            HttpError::LanguageInvalidError(_) => HttpFault::LanguageInvalidError,
            HttpError::PageNotFound => HttpFault::PageNotFound,
            HttpError::Timeout => HttpFault::Timeout,
            HttpError::NoPageBody => HttpFault::NoPageBody,
            HttpError::TooManyRedirects => HttpFault::TooManyRedirects,
            HttpError::Redirect(target) => HttpFault::Redirect(target@),
            HttpError::Unknown(code) => HttpFault::Unknown(*code),
            HttpError::DeserialisationError(message) => HttpFault::DeserialisationError(message@),
        }
    }
}

/// `StatusCode::from_u16`, of which the verdict is kept: a status code is a
/// number from 100 to 999.
#[verifier::external_body]
fn status_is_code(status: u16) -> (r: bool)
    ensures
        r == (100 <= status <= 999),
{
    http::StatusCode::from_u16(status).is_ok()
}

/// `StatusCode::is_redirection`: whether the status lies from 300 to 399.
#[verifier::external_body]
fn status_is_redirection(status: u16) -> (r: bool)
    requires
        100 <= status <= 999,
    ensures
        r == (300 <= status <= 399),
{
    http::StatusCode::from_u16(status).map(|code| code.is_redirection()).unwrap_or(false)
}

/// `StatusCode::is_success`: whether the status lies from 200 to 299.
#[verifier::external_body]
fn status_is_success(status: u16) -> (r: bool)
    requires
        100 <= status <= 999,
    ensures
        r == (200 <= status <= 299),
{
    http::StatusCode::from_u16(status).map(|code| code.is_success()).unwrap_or(false)
}

/// What a status says of a response, `None` for success: a redirect where a
/// 3xx names a location, 404 as the missing page, 2xx as success, anything
/// else (a 3xx without location too) as unknown.
pub open spec fn status_fault(status: u16, location: Option<Seq<char>>) -> Option<HttpFault> {
    if !(100 <= status <= 999) {
        Some(HttpFault::Unknown(status))
    } else if 300 <= status <= 399 && location is Some {
        Some(HttpFault::Redirect(location.unwrap()))
    } else if status == 404 {
        Some(HttpFault::PageNotFound)
    } else if 200 <= status <= 299 {
        None
    } else {
        Some(HttpFault::Unknown(status))
    }
}

/// What the outcome of judging a status stands for.
pub open spec fn fault_of(r: Result<(), HttpError>) -> Option<HttpFault> {
    match r {
        Ok(_) => None,
        Err(e) => Some(e@),
    }
}

/// Judges the status of a response, given the location that it names.
pub fn parse_status_code(status: u16, location: Option<String>) -> (r: Result<(), HttpError>)
    ensures
        fault_of(r) == status_fault(status, location.deep_view()),
{
    if !status_is_code(status) {
        return Err(HttpError::Unknown(status));
    }
    if status_is_redirection(status) {
        match location {
            Some(target) => {
                return Err(HttpError::Redirect(target));
            },
            None => {},
        }
    }
    if status == 404 {
        return Err(HttpError::PageNotFound);
    }
    if status_is_success(status) {
        return Ok(());
    }
    Err(HttpError::Unknown(status))
}

/// What came back for one request.
#[derive(Debug)]
pub struct FetchResponse {
    /// The status.
    pub status: u16,
    /// The header `Location`, if the response has it.
    pub location: Option<String>,
    /// The body as text, if the response has one that is text.
    pub text: Option<String>,
}

/// What is reported to a fetch.
#[derive(Debug)]
pub enum FetchEvent {
    /// The transport delivered a response.
    Response(FetchResponse),
    /// The transport failed.
    Failure(String),
    /// The time since the fetch began, in milliseconds.
    Elapsed(u64),
}

/// What a fetch asks for in return.
#[derive(Debug)]
pub enum FetchAction {
    /// Nothing is to be done but to wait and report again.
    Wait,
    /// The address is to be requested.
    Request(String),
    /// The fetch is over; this is its outcome.
    Complete(Result<String, HttpError>),
}

/// What a `FetchEvent` says.
pub ghost enum EventView {
    Response { status: u16, location: Option<Seq<char>>, text: Option<Seq<char>> },
    Failure(Seq<char>),
    Elapsed(u64),
}

/// What a `FetchAction` says.
pub ghost enum ActionView {
    Wait,
    Request(Seq<char>),
    Complete(Result<Seq<char>, HttpFault>),
}

impl View for FetchEvent {
    type V = EventView;

    open spec fn view(&self) -> EventView {
        match self {
            FetchEvent::Response(response) => EventView::Response {
                status: response.status,
                location: response.location.deep_view(),
                text: response.text.deep_view(),
            },
            FetchEvent::Failure(message) => EventView::Failure(message@),
            FetchEvent::Elapsed(millis) => EventView::Elapsed(*millis),
        }
    }
}

impl View for FetchAction {
    type V = ActionView;

    open spec fn view(&self) -> ActionView {
        match self {
            FetchAction::Wait => ActionView::Wait,
            FetchAction::Request(url) => ActionView::Request(url@),
            FetchAction::Complete(Ok(text)) => ActionView::Complete(Ok(text@)),
            FetchAction::Complete(Err(e)) => ActionView::Complete(Err(e@)),
        }
    }
}

/// A fetch under way.
#[derive(Debug)]
pub struct FetchState {
    url: String,
    redirects_left: u32,
    timeout_millis: Option<u64>,
    done: bool,
}

/// Where a fetch stands.
pub ghost struct FetchView {
    /// The address of the request that is out.
    pub url: Seq<char>,
    /// How many redirects may still be followed.
    pub redirects_left: u32,
    /// The time allowed, in milliseconds; `None` for no limit.
    pub timeout_millis: Option<u64>,
    /// Whether the outcome has been given.
    pub done: bool,
}

/// The fetch `state` over, with nothing else changed.
pub open spec fn finished(state: FetchView) -> FetchView {
    FetchView { done: true, ..state }
}

/// What a fetch that stands at `state` makes of `event`: where it stands
/// afterwards, and what it asks for.
pub open spec fn fetch_step(state: FetchView, event: EventView) -> (FetchView, ActionView) {
    if state.done {
        (state, ActionView::Wait)
    } else {
        match event {
            EventView::Elapsed(millis) => {
                if state.timeout_millis is Some && millis >= state.timeout_millis.unwrap() {
                    (finished(state), ActionView::Complete(Err(HttpFault::Timeout)))
                } else {
                    (state, ActionView::Wait)
                }
            },
            EventView::Failure(message) => (
                finished(state),
                ActionView::Complete(Err(HttpFault::Backend(message))),
            ),
            EventView::Response { status, location, text } => match status_fault(status, location) {
                Some(HttpFault::Redirect(target)) => {
                    if state.redirects_left == 0 {
                        (finished(state), ActionView::Complete(Err(HttpFault::TooManyRedirects)))
                    } else {
                        (
                            FetchView {
                                url: target,
                                redirects_left: (state.redirects_left - 1) as u32,
                                ..state
                            },
                            ActionView::Request(target),
                        )
                    }
                },
                Some(fault) => (finished(state), ActionView::Complete(Err(fault))),
                None => match text {
                    Some(text) => (finished(state), ActionView::Complete(Ok(text))),
                    None => (finished(state), ActionView::Complete(Err(HttpFault::NoPageBody))),
                },
            },
        }
    }
}

/// Where a fetch stands after `events`, one after the other.
pub open spec fn fetch_run(state: FetchView, events: Seq<EventView>) -> FetchView
    decreases events.len(),
{
    if events.len() == 0 {
        state
    } else {
        fetch_run(fetch_step(state, events[0]).0, events.drop_first())
    }
}

/// How many outcomes a fetch gives in the course of `events`.
pub open spec fn outcomes(state: FetchView, events: Seq<EventView>) -> nat
    decreases events.len(),
{
    if events.len() == 0 {
        0
    } else {
        let (next, action) = fetch_step(state, events[0]);
        (if action is Complete {
            1nat
        } else {
            0nat
        }) + outcomes(next, events.drop_first())
    }
}

/// Whether every one of `events` is a redirect: a response with a status from
/// 300 to 399 that names a location.
pub open spec fn all_redirects(events: Seq<EventView>) -> bool {
    forall|i: int|
        0 <= i < events.len() ==> (#[trigger] events[i] matches EventView::Response {
            status,
            location,
            ..
        } && 300 <= status <= 399 && location is Some)
}

impl View for FetchState {
    type V = FetchView;

    closed spec fn view(&self) -> FetchView {
        FetchView {
            url: self.url@,
            redirects_left: self.redirects_left,
            timeout_millis: self.timeout_millis,
            done: self.done,
        }
    }
}

impl FetchState {
    /// A fetch of `url` that follows up to `redirects` redirects and waits
    /// `timeout_millis` milliseconds at most. The request for `url` is the
    /// caller's to issue.
    pub fn start(url: String, redirects: u32, timeout_millis: Option<u64>) -> (r: Self)
        ensures
            r@ == (FetchView {
                url: url@,
                redirects_left: redirects,
                timeout_millis: timeout_millis,
                done: false,
            }),
    {
        FetchState { url, redirects_left: redirects, timeout_millis, done: false }
    }

    /// The address of the request that is out.
    pub fn url(&self) -> (r: &String)
        ensures
            r@ == self@.url,
    {
        &self.url
    }

    /// How many redirects may still be followed.
    pub fn redirects_left(&self) -> (r: u32)
        ensures
            r == self@.redirects_left,
    {
        self.redirects_left
    }

    /// Whether the outcome has been given.
    pub fn is_done(&self) -> (r: bool)
        ensures
            r == self@.done,
    {
        self.done
    }

    /// Takes `event` and says what is to be done. The outcome is given once;
    /// from then on the answer is to wait, whatever is reported.
    pub fn step(&mut self, event: FetchEvent) -> (action: FetchAction)
        ensures
            (final(self)@, action@) == fetch_step(old(self)@, event@),
    {
        if self.done {
            return FetchAction::Wait;
        }
        match event {
            FetchEvent::Elapsed(millis) => {
                match self.timeout_millis {
                    Some(limit) => {
                        if millis >= limit {
                            self.done = true;
                            FetchAction::Complete(Err(HttpError::Timeout))
                        } else {
                            FetchAction::Wait
                        }
                    },
                    None => FetchAction::Wait,
                }
            },
            FetchEvent::Failure(message) => {
                self.done = true;
                FetchAction::Complete(Err(HttpError::Backend(message)))
            },
            FetchEvent::Response(response) => {
                let FetchResponse { status, location, text } = response;
                match parse_status_code(status, location) {
                    Err(HttpError::Redirect(target)) => {
                        if self.redirects_left == 0 {
                            self.done = true;
                            FetchAction::Complete(Err(HttpError::TooManyRedirects))
                        } else {
                            self.redirects_left = self.redirects_left - 1;
                            self.url = target.clone();
                            FetchAction::Request(target)
                        }
                    },
                    Err(e) => {
                        self.done = true;
                        FetchAction::Complete(Err(e))
                    },
                    Ok(_) => {
                        self.done = true;
                        match text {
                            Some(text) => FetchAction::Complete(Ok(text)),
                            None => FetchAction::Complete(Err(HttpError::NoPageBody)),
                        }
                    },
                }
            },
        }
    }
}

/// A fetch gives at most one outcome, whatever is reported to it, and none
/// once it is over.
pub proof fn lemma_at_most_one_outcome(state: FetchView, events: Seq<EventView>)
    ensures
        outcomes(state, events) <= 1,
        state.done ==> outcomes(state, events) == 0,
        outcomes(state, events) == 1 ==> fetch_run(state, events).done,
    decreases events.len(),
{
    if events.len() > 0 {
        let (next, action) = fetch_step(state, events[0]);
        lemma_at_most_one_outcome(next, events.drop_first());
        if next.done {
            lemma_done_is_final(next, events.drop_first());
        }
    }
}

/// A fetch that is over stays as it is.
pub proof fn lemma_done_is_final(state: FetchView, events: Seq<EventView>)
    requires
        state.done,
    ensures
        fetch_run(state, events) == state,
    decreases events.len(),
{
    if events.len() > 0 {
        lemma_done_is_final(state, events.drop_first());
    }
}

/// A redirect to `target` followed by a success with the text `text` ends the
/// fetch with that text, asked for at `target`, and costs one redirect of the
/// budget. What else the two responses carry changes nothing.
pub proof fn lemma_redirect_then_success(
    state: FetchView,
    redirect: u16,
    target: Seq<char>,
    redirect_text: Option<Seq<char>>,
    success: u16,
    success_location: Option<Seq<char>>,
    text: Seq<char>,
)
    requires
        !state.done,
        state.redirects_left > 0,
        300 <= redirect <= 399,
        200 <= success <= 299,
    ensures
        ({
            let first = fetch_step(
                state,
                EventView::Response {
                    status: redirect,
                    location: Some(target),
                    text: redirect_text,
                },
            );
            let second = fetch_step(
                first.0,
                EventView::Response {
                    status: success,
                    location: success_location,
                    text: Some(text),
                },
            );
            &&& first.1 == ActionView::Request(target)
            &&& first.0.url == target
            &&& first.0.redirects_left == state.redirects_left - 1
            &&& second.1 == ActionView::Complete(Ok(text))
            &&& second.0.redirects_left == state.redirects_left - 1
            &&& second.0.done
        }),
{
}

/// While the budget lasts, redirects are followed and nothing else happens.
pub proof fn lemma_redirects_spend_budget(state: FetchView, events: Seq<EventView>)
    requires
        !state.done,
        all_redirects(events),
        events.len() <= state.redirects_left,
    ensures
        !fetch_run(state, events).done,
        fetch_run(state, events).redirects_left == state.redirects_left - events.len(),
        outcomes(state, events) == 0,
    decreases events.len(),
{
    if events.len() > 0 {
        let next = fetch_step(state, events[0]).0;
        assert(events[0] is Response);
        assert(all_redirects(events.drop_first())) by {
            assert forall|i: int| 0 <= i < events.drop_first().len() implies (
            #[trigger] events.drop_first()[i] matches EventView::Response { status, location, .. }
                && 300 <= status <= 399 && location is Some) by {
                assert(events.drop_first()[i] == events[i + 1]);
            }
        }
        lemma_redirects_spend_budget(next, events.drop_first());
    }
}

/// A fetch that meets nothing but redirects ends, when the budget is spent,
/// in `TooManyRedirects`: the redirect that comes after as many redirects as
/// the budget allows is the one that ends it.
pub proof fn lemma_redirects_exhaust_budget(
    state: FetchView,
    events: Seq<EventView>,
    last: EventView,
)
    requires
        !state.done,
        all_redirects(events),
        all_redirects(seq![last]),
        events.len() == state.redirects_left,
    ensures
        fetch_step(fetch_run(state, events), last).1 == ActionView::Complete(
            Err(HttpFault::TooManyRedirects),
        ),
        fetch_step(fetch_run(state, events), last).0.done,
{
    lemma_redirects_spend_budget(state, events);
    assert(seq![last][0] == last);
}

} // verus!
