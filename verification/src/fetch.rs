//! Fetching the calendar: what is done about each outcome of a request, and about its result.

use crate::cache::{clone_events, CachedCalendarData, CachedModel};
use crate::calendar::{RawCalendarEvent, RawEventModel};
use crate::client::{doubled, law_addresses_in_order, lemma_doubled_grows, CalendarClient};
use crate::client::ClientModel;
use crate::error::{ErrorModel, RedFolderError, Result};
use crate::text::{blank, byte_len, decimal, join3, parse_u64, trimmed, u64_value, unsigned_text};
use crate::time::{TimeSpan, UtcTime, SECOND};
use crate::views::{lemma_filter_map_step, lemma_views_push, option_view, views};
use vstd::prelude::*;

verus! {

/// What came of a request, or of reading its answer.
#[derive(Debug)]
pub enum FetchEvent {
    /// No answer came.
    TransportFailed(String),
    /// An answer came: its status code, the length that it announces, when to try again by its
    /// header, and the message for its status where that is an error.
    Answered {
        status: u16,
        content_length: Option<u64>,
        retry_after: Option<String>,
        status_error: String,
    },
    /// The body broke off.
    BodyFailed(String),
    /// The body was longer than the client reads.
    BodyTooLarge,
    /// The body is no JSON array.
    BodyMalformed(String),
    /// The items of the body, each as an event if it is one.
    Items(Vec<Option<RawCalendarEvent>>),
}

/// What a [`FetchEvent`] is.
pub ghost enum FetchEventModel {
    TransportFailed(Seq<char>),
    Answered {
        status: int,
        content_length: Option<int>,
        retry_after: Option<Seq<char>>,
        status_error: Seq<char>,
    },
    BodyFailed(Seq<char>),
    BodyTooLarge,
    BodyMalformed(Seq<char>),
    Items(Seq<Option<RawEventModel>>),
}

/// The items of a body, each as what it is.
pub open spec fn items_view(items: Seq<Option<RawCalendarEvent>>) -> Seq<Option<RawEventModel>> {
    Seq::new(items.len(), |i: int| option_view(items[i]))
}

impl View for FetchEvent {
    type V = FetchEventModel;

    open spec fn view(&self) -> FetchEventModel {
        match self {
            FetchEvent::TransportFailed(s) => FetchEventModel::TransportFailed(s@),
            FetchEvent::Answered { status, content_length, retry_after, status_error } =>
                FetchEventModel::Answered {
                status: *status as int,
                content_length: match content_length {
                    Some(n) => Some(*n as int),
                    None => None,
                },
                retry_after: option_view(*retry_after),
                status_error: status_error@,
            },
            FetchEvent::BodyFailed(s) => FetchEventModel::BodyFailed(s@),
            FetchEvent::BodyTooLarge => FetchEventModel::BodyTooLarge,
            FetchEvent::BodyMalformed(s) => FetchEventModel::BodyMalformed(s@),
            FetchEvent::Items(items) => FetchEventModel::Items(items_view(items@)),
        }
    }
}

/// What is to be done next.
#[derive(Debug)]
pub enum FetchStep {
    /// Request this address.
    Get(String),
    /// Wait, and request this address again.
    GetAfter(TimeSpan, String),
    /// Read the body of the answer.
    ReadBody,
    /// Nothing: this is what the fetch came to.
    Done(Result<Vec<RawCalendarEvent>>),
}

/// What a [`FetchStep`] is.
pub ghost enum FetchStepModel {
    Get(Seq<char>),
    GetAfter(nat, Seq<char>),
    ReadBody,
    Done(std::result::Result<Seq<RawEventModel>, ErrorModel>),
}

/// What a list of events, or the error in its place, is.
pub open spec fn events_view(r: Result<Vec<RawCalendarEvent>>) -> std::result::Result<
    Seq<RawEventModel>,
    ErrorModel,
> {
    match r {
        Ok(events) => Ok(views(events@)),
        Err(e) => Err(e@),
    }
}

impl View for FetchStep {
    type V = FetchStepModel;

    open spec fn view(&self) -> FetchStepModel {
        match self {
            FetchStep::Get(url) => FetchStepModel::Get(url@),
            FetchStep::GetAfter(delay, url) => FetchStepModel::GetAfter(delay@, url@),
            FetchStep::ReadBody => FetchStepModel::ReadBody,
            FetchStep::Done(r) => FetchStepModel::Done(events_view(*r)),
        }
    }
}

/// How far a fetch has got.
#[derive(Debug)]
pub struct FetchState {
    url_index: usize,
    attempt: usize,
    url_error: Option<RedFolderError>,
    last_error: Option<RedFolderError>,
}

/// What a [`FetchState`] is: the address in use, the number of the attempt from 0, the last error of
/// this address, and that of an address before it.
pub ghost struct FetchModel {
    pub url_index: nat,
    pub attempt: nat,
    pub url_error: Option<ErrorModel>,
    pub last_error: Option<ErrorModel>,
}

impl View for FetchState {
    type V = FetchModel;

    closed spec fn view(&self) -> FetchModel {
        FetchModel {
            url_index: self.url_index as nat,
            attempt: self.attempt as nat,
            url_error: option_view(self.url_error),
            last_error: option_view(self.last_error),
        }
    }
}

impl FetchModel {
    /// A fetch that has not begun.
    pub open spec fn start() -> FetchModel {
        FetchModel { url_index: 0, attempt: 0, url_error: None, last_error: None }
    }

    /// Whether a client can have got there.
    pub open spec fn of(self, client: ClientModel) -> bool {
        self.url_index < client.urls().len() && self.attempt <= client.max_retries
    }
}

/// Whether an item of a body is an event that is well formed: it has a date, a title of at most 500
/// bytes, and a country of at most 10.
pub open spec fn usable(item: Option<RawEventModel>) -> bool {
    match item {
        Some(e) => !blank(e.date) && byte_len(e.title) <= 500 && byte_len(e.country) <= 10,
        None => false,
    }
}

/// The event that an item of a body is, if it is well formed.
pub open spec fn usable_event() -> spec_fn(Option<RawEventModel>) -> Option<RawEventModel> {
    |item: Option<RawEventModel>|
        if usable(item) {
            item
        } else {
            None
        }
}

/// The well-formed events of a body.
pub open spec fn usable_events(items: Seq<Option<RawEventModel>>) -> Seq<RawEventModel> {
    items.filter_map(usable_event())
}

/// What the items of a body come to: its well-formed events, or an error where there are more items
/// than `limit`, or more than a fifth of them are malformed.
pub open spec fn sifted(items: Seq<Option<RawEventModel>>, limit: nat) -> std::result::Result<
    Seq<RawEventModel>,
    ErrorModel,
> {
    let total = items.len();
    let events = usable_events(items);
    let malformed = total - events.len();
    if total > limit {
        Err(
            ErrorModel::Calendar(
                "upstream response contained "@ + decimal(total as int)
                    + " events, exceeding limit of "@ + decimal(limit as int),
            ),
        )
    } else if total > 0 && malformed == total {
        Err(ErrorModel::Calendar("all upstream calendar events were malformed"@))
    } else if malformed * 5 > total {
        Err(
            ErrorModel::Calendar(
                "upstream response corrupted: "@ + decimal(malformed) + "/"@ + decimal(total as int)
                    + " events malformed"@,
            ),
        )
    } else {
        Ok(events)
    }
}

/// Whether an answer of this status is worth another attempt: too many requests, a request that
/// took too long, or a fault of the server.
pub open spec fn retryable(status: int) -> bool {
    status == 429 || status == 408 || 500 <= status < 600
}

impl ClientModel {
    /// The wait that a server asks for, if it is one of too many requests and names whole seconds:
    /// at most `max_retry_after`.
    pub open spec fn asked_wait(self, status: int, retry_after: Option<Seq<char>>) -> Option<nat> {
        if status == 429 && retry_after is Some {
            match u64_value(trimmed(retry_after->Some_0)) {
                Some(secs) => if secs * SECOND <= self.max_retry_after {
                    Some((secs * SECOND) as nat)
                } else {
                    Some(self.max_retry_after)
                },
                None => None,
            }
        } else {
            None
        }
    }

    /// Another attempt at the same address after `delay`.
    pub open spec fn retry(self, state: FetchModel, delay: nat) -> (FetchModel, FetchStepModel) {
        (
            FetchModel { attempt: state.attempt + 1, ..state },
            FetchStepModel::GetAfter(delay, self.urls()[state.url_index as int]),
        )
    }

    /// The next address, or the end: the error is that of the last address that gave one.
    pub open spec fn next_url(self, state: FetchModel) -> (FetchModel, FetchStepModel) {
        let last_error = match state.url_error {
            Some(e) => Some(e),
            None => state.last_error,
        };
        if state.url_index + 1 < self.urls().len() {
            (
                FetchModel {
                    url_index: state.url_index + 1,
                    attempt: 0,
                    url_error: None,
                    last_error,
                },
                FetchStepModel::Get(self.urls()[(state.url_index + 1) as int]),
            )
        } else {
            (
                FetchModel { url_error: None, last_error, ..state },
                FetchStepModel::Done(
                    Err(
                        match last_error {
                            Some(e) => e,
                            None => ErrorModel::Calendar(
                                "fetch failed after retries on all candidate endpoints"@,
                            ),
                        },
                    ),
                ),
            )
        }
    }

    /// What is done about an attempt that failed with `error`: another attempt while there is one
    /// left, each after twice the wait, and else the next address.
    pub open spec fn failed(self, state: FetchModel, error: ErrorModel) -> (
        FetchModel,
        FetchStepModel,
    ) {
        let state = FetchModel { url_error: Some(error), ..state };
        if state.attempt < self.max_retries {
            self.retry(state, self.backoff(state.attempt))
        } else {
            self.next_url(state)
        }
    }

    /// What is done about an answer.
    pub open spec fn answered(
        self,
        state: FetchModel,
        status: int,
        content_length: Option<int>,
        retry_after: Option<Seq<char>>,
        status_error: Seq<char>,
    ) -> (FetchModel, FetchStepModel) {
        if 200 <= status < 300 {
            if content_length is Some && content_length->Some_0 > self.max_response_bytes {
                self.next_url(
                    FetchModel {
                        url_error: Some(
                            ErrorModel::Calendar(
                                "upstream response Content-Length ("@ + decimal(
                                    content_length->Some_0,
                                ) + " bytes) exceeds maximum limit of "@ + decimal(
                                    self.max_response_bytes as int,
                                ) + " bytes"@,
                            ),
                        ),
                        ..state
                    },
                )
            } else {
                (state, FetchStepModel::ReadBody)
            }
        } else {
            let state = if 400 <= status < 600 {
                FetchModel { url_error: Some(ErrorModel::Http(status_error)), ..state }
            } else {
                state
            };
            if retryable(status) && state.attempt < self.max_retries {
                self.retry(
                    state,
                    match self.asked_wait(status, retry_after) {
                        Some(delay) => delay,
                        None => self.backoff(state.attempt),
                    },
                )
            } else {
                self.next_url(state)
            }
        }
    }

    /// Whether the client waits after what came of a request, and chooses for how long itself.
    pub open spec fn backs_off(self, state: FetchModel, event: FetchEventModel) -> bool {
        state.attempt < self.max_retries && match event {
            FetchEventModel::Answered { status, content_length, retry_after, status_error } =>
                retryable(status) && self.asked_wait(status, retry_after) is None,
            FetchEventModel::Items(_) => false,
            _ => true,
        }
    }

    /// Whether the client can go on from there: the wait that it chooses, if it does, can be
    /// reckoned.
    pub open spec fn can_step(self, state: FetchModel, event: FetchEventModel) -> bool {
        self.backs_off(state, event) ==> self.reckons(state.attempt)
    }

    /// What is done about what came of a request.
    pub open spec fn step(self, state: FetchModel, event: FetchEventModel) -> (
        FetchModel,
        FetchStepModel,
    ) {
        match event {
            FetchEventModel::TransportFailed(s) => self.failed(state, ErrorModel::Http(s)),
            FetchEventModel::Answered { status, content_length, retry_after, status_error } =>
                self.answered(state, status, content_length, retry_after, status_error),
            FetchEventModel::BodyFailed(s) => self.failed(state, ErrorModel::Http(s)),
            FetchEventModel::BodyTooLarge => self.failed(
                state,
                ErrorModel::Calendar(
                    "upstream response body exceeded maximum limit of "@ + decimal(
                        self.max_response_bytes as int,
                    ) + " bytes"@,
                ),
            ),
            FetchEventModel::BodyMalformed(s) => self.failed(state, ErrorModel::Json(s)),
            FetchEventModel::Items(items) => (
                state,
                FetchStepModel::Done(sifted(items, self.max_event_count)),
            ),
        }
    }
}

/// The status codes of success.
fn is_success(status: u16) -> (r: bool)
    ensures
        r == (200 <= status < 300),
{
    200 <= status && status < 300
}

/// The status codes that are worth another attempt.
fn is_retryable(status: u16) -> (r: bool)
    ensures
        r == retryable(status as int),
{
    status == 429 || status == 408 || (500 <= status && status < 600)
}

fn error_text(head: &str, number: u64, middle: &str, limit: u64, tail: &str) -> (r: String)
    ensures
        r@ == head@ + decimal(number as int) + middle@ + decimal(limit as int) + tail@,
{
    let mut out: String = head.to_string();
    out.append(unsigned_text(number).as_str());
    out.append(middle);
    out.append(unsigned_text(limit).as_str());
    out.append(tail);
    out
}

/// Whether an item of a body is an event that is well formed.
fn is_usable(item: &Option<RawCalendarEvent>) -> (r: bool)
    ensures
        r == usable(option_view(*item)),
{
    match item {
        Some(e) => !e.date.as_str().trim().is_empty() && e.title.as_str().len() <= 500
            && e.country.as_str().len() <= 10,
        None => false,
    }
}

proof fn lemma_usable_len(items: Seq<Option<RawEventModel>>)
    ensures
        usable_events(items).len() <= items.len(),
    decreases items.len(),
{
    if items.len() > 0 {
        let n = items.len() as int;
        lemma_filter_map_step(items, n - 1, usable_event());
        assert(items.take(n) =~= items);
        lemma_usable_len(items.take(n - 1));
    }
}

/// The well-formed events of a body, or an error where there are more items than `limit`, or more
/// than a fifth of them are malformed.
pub fn sift_events(items: Vec<Option<RawCalendarEvent>>, limit: usize) -> (r: Result<
    Vec<RawCalendarEvent>,
>)
    ensures
        events_view(r) == sifted(items_view(items@), limit as nat),
{
    let total: usize = items.len();
    if total > limit {
        let text: String = error_text(
            "upstream response contained ",
            total as u64,
            " events, exceeding limit of ",
            limit as u64,
            "",
        );
        proof {
            reveal_strlit("");
            assert(text@ =~= "upstream response contained "@ + decimal(total as int)
                + " events, exceeding limit of "@ + decimal(limit as int));
        }
        return Err(RedFolderError::Calendar(text));
    }
    let ghost all = items_view(items@);
    let ghost f = usable_event();
    let mut events: Vec<RawCalendarEvent> = Vec::new();
    assert(views(events@) =~= all.take(0).filter_map(f));
    for item in it: items
        invariant
            it.seq() == items@,
            all == items_view(items@),
            f == usable_event(),
            views(events@) == all.take(it.index() as int).filter_map(f),
    {
        proof {
            lemma_filter_map_step(all, it.index() as int, f);
            assert(all[it.index() as int] == option_view(item));
        }
        if is_usable(&item) {
            if let Some(e) = item {
                proof {
                    lemma_views_push(events@, e);
                }
                events.push(e);
            }
        }
    }
    proof {
        assert(all.take(all.len() as int) =~= all);
        lemma_usable_len(all);
    }
    let malformed: usize = total - events.len();
    if total > 0 && malformed == total {
        return Err(
            RedFolderError::Calendar("all upstream calendar events were malformed".to_string()),
        );
    }
    if malformed as u128 * 5 > total as u128 {
        return Err(
            RedFolderError::Calendar(
                error_text(
                    "upstream response corrupted: ",
                    malformed as u64,
                    "/",
                    total as u64,
                    " events malformed",
                ),
            ),
        );
    }
    Ok(events)
}

impl CalendarClient {
    /// A fetch that begins with the first address.
    pub fn start_fetch(&self) -> (r: (FetchState, FetchStep))
        ensures
            r.0@ == FetchModel::start(),
            r.0@.of(self@),
            r.1@ == FetchStepModel::Get(self@.calendar_url),
    {
        (
            FetchState { url_index: 0, attempt: 0, url_error: None, last_error: None },
            FetchStep::Get(self.url(0).to_string()),
        )
    }

    /// Whether a body of which `have` bytes were read may grow by `more`.
    pub fn accepts_chunk(&self, have: usize, more: usize) -> (r: bool)
        ensures
            r == (have + more <= self@.max_response_bytes),
    {
        have as u128 + more as u128 <= self.max_response_bytes() as u128
    }

    /// The wait that a server asks for.
    fn requested_wait(&self, status: u16, retry_after: &Option<String>) -> (r: Option<TimeSpan>)
        ensures
            option_view(r) == self@.asked_wait(status as int, option_view(*retry_after)),
    {
        if status != 429 {
            return None;
        }
        match retry_after {
            Some(text) => match parse_u64(text.as_str().trim()) {
                Some(secs) => {
                    let asked: TimeSpan = TimeSpan::from_secs(secs);
                    let longest: TimeSpan = self.max_retry_after();
                    if asked.nanos <= longest.nanos {
                        Some(asked)
                    } else {
                        Some(longest)
                    }
                },
                None => None,
            },
            None => None,
        }
    }

    fn try_again(&self, state: FetchState, delay: TimeSpan) -> (r: (FetchState, FetchStep))
        requires
            state@.of(self@),
            state@.attempt < self@.max_retries,
        ensures
            (r.0@, r.1@) == self@.retry(state@, delay@),
            r.0@.of(self@),
    {
        let url: String = self.url(state.url_index).to_string();
        let last_attempt: usize = self.max_retries();
        assert(state.attempt < last_attempt);
        (
            FetchState {
                url_index: state.url_index,
                attempt: state.attempt + 1,
                url_error: state.url_error,
                last_error: state.last_error,
            },
            FetchStep::GetAfter(delay, url),
        )
    }

    fn try_next(&self, state: FetchState) -> (r: (FetchState, FetchStep))
        requires
            state@.of(self@),
        ensures
            (r.0@, r.1@) == self@.next_url(state@),
            r.0@.of(self@),
    {
        let last_error: Option<RedFolderError> = match state.url_error {
            Some(e) => Some(e),
            None => state.last_error,
        };
        if self.has_url_after(state.url_index) {
            let next: usize = state.url_index + 1;
            let url: String = self.url(next).to_string();
            (
                FetchState { url_index: next, attempt: 0, url_error: None, last_error },
                FetchStep::Get(url),
            )
        } else {
            let error: RedFolderError = match &last_error {
                Some(e) => e.clone(),
                None => RedFolderError::Calendar(
                    "fetch failed after retries on all candidate endpoints".to_string(),
                ),
            };
            (
                FetchState {
                    url_index: state.url_index,
                    attempt: state.attempt,
                    url_error: None,
                    last_error,
                },
                FetchStep::Done(Err(error)),
            )
        }
    }

    fn attempt_failed(&self, state: FetchState, error: RedFolderError) -> (r: (
        FetchState,
        FetchStep,
    ))
        requires
            state@.of(self@),
            state@.attempt < self@.max_retries ==> self@.reckons(state@.attempt),
        ensures
            (r.0@, r.1@) == self@.failed(state@, error@),
            r.0@.of(self@),
    {
        let failed: FetchState = FetchState {
            url_index: state.url_index,
            attempt: state.attempt,
            url_error: Some(error),
            last_error: state.last_error,
        };
        if failed.attempt < self.max_retries() {
            let delay: TimeSpan = self.backoff_delay(failed.attempt);
            self.try_again(failed, delay)
        } else {
            self.try_next(failed)
        }
    }

    fn on_answer(
        &self,
        state: FetchState,
        status: u16,
        content_length: Option<u64>,
        retry_after: &Option<String>,
        status_error: String,
    ) -> (r: (FetchState, FetchStep))
        requires
            state@.of(self@),
            retryable(status as int) && self@.asked_wait(status as int, option_view(*retry_after)) is None
                && state@.attempt < self@.max_retries ==> self@.reckons(state@.attempt),
        ensures
            (r.0@, r.1@) == self@.answered(
                state@,
                status as int,
                match content_length {
                    Some(n) => Some(n as int),
                    None => None,
                },
                option_view(*retry_after),
                status_error@,
            ),
            r.0@.of(self@),
    {
        if is_success(status) {
            if let Some(len) = content_length {
                if len as u128 > self.max_response_bytes() as u128 {
                    let error: RedFolderError = RedFolderError::Calendar(
                        error_text(
                            "upstream response Content-Length (",
                            len,
                            " bytes) exceeds maximum limit of ",
                            self.max_response_bytes() as u64,
                            " bytes",
                        ),
                    );
                    return self.try_next(
                        FetchState {
                            url_index: state.url_index,
                            attempt: state.attempt,
                            url_error: Some(error),
                            last_error: state.last_error,
                        },
                    );
                }
            }
            return (state, FetchStep::ReadBody);
        }
        let noted: FetchState = FetchState {
            url_index: state.url_index,
            attempt: state.attempt,
            url_error: if 400 <= status && status < 600 {
                Some(RedFolderError::Http(status_error))
            } else {
                state.url_error
            },
            last_error: state.last_error,
        };
        if is_retryable(status) && noted.attempt < self.max_retries() {
            let delay: TimeSpan = match self.requested_wait(status, retry_after) {
                Some(d) => d,
                None => self.backoff_delay(noted.attempt),
            };
            self.try_again(noted, delay)
        } else {
            self.try_next(noted)
        }
    }

    /// Whether the client can go on from there: the wait that it chooses, if it does, can be
    /// reckoned.
    pub fn can_go_on(&self, state: &FetchState, event: &FetchEvent) -> (r: bool)
        ensures
            r == self@.can_step(state@, event@),
    {
        if state.attempt >= self.max_retries() || self.can_reckon(state.attempt) {
            return true;
        }
        match event {
            FetchEvent::Answered { status, content_length, retry_after, status_error } =>
                !is_retryable(*status) || self.requested_wait(*status, retry_after).is_some(),
            FetchEvent::Items(_) => true,
            _ => false,
        }
    }

    /// What is to be done about what came of a request: another attempt at the same address after a
    /// passing failure, the next address after any other or once there is no attempt left, and the
    /// end once the events are there or no address is left.
    pub fn on_event(&self, state: FetchState, event: FetchEvent) -> (r: (FetchState, FetchStep))
        requires
            state@.of(self@),
            self@.can_step(state@, event@),
        ensures
            (r.0@, r.1@) == self@.step(state@, event@),
            r.0@.of(self@),
    {
        match event {
            FetchEvent::TransportFailed(s) => self.attempt_failed(state, RedFolderError::Http(s)),
            FetchEvent::Answered { status, content_length, retry_after, status_error } =>
                self.on_answer(state, status, content_length, &retry_after, status_error),
            FetchEvent::BodyFailed(s) => self.attempt_failed(state, RedFolderError::Http(s)),
            FetchEvent::BodyTooLarge => {
                let limit: String = unsigned_text(self.max_response_bytes() as u64);
                let text: String = join3(
                    "upstream response body exceeded maximum limit of ",
                    limit.as_str(),
                    " bytes",
                );
                self.attempt_failed(state, RedFolderError::Calendar(text))
            },
            FetchEvent::BodyMalformed(s) => self.attempt_failed(state, RedFolderError::Json(s)),
            FetchEvent::Items(items) => (
                state,
                FetchStep::Done(sift_events(items, self.max_event_count())),
            ),
        }
    }
}

/// What sifted events come to, given what a check that the client was given says of them: the events
/// if it accepts them, and else its error.
pub fn validated(events: Vec<RawCalendarEvent>, verdict: Result<()>) -> (r: Result<
    Vec<RawCalendarEvent>,
>)
    ensures
        events_view(r) == match verdict {
            Ok(_) => Ok(views(events@)),
            Err(e) => Err(e@),
        },
{
    match verdict {
        Ok(_) => Ok(events),
        Err(e) => Err(e),
    }
}

/// What a fetch came to in the end, and whether the cache is to be written with it.
#[derive(Debug)]
pub struct SettledFetch {
    pub events: Result<Vec<RawCalendarEvent>>,
    pub save: bool,
}

/// What a [`SettledFetch`] is.
pub ghost struct SettledModel {
    pub events: std::result::Result<Seq<RawEventModel>, ErrorModel>,
    pub save: bool,
}

impl View for SettledFetch {
    type V = SettledModel;

    open spec fn view(&self) -> SettledModel {
        SettledModel { events: events_view(self.events), save: self.save }
    }
}

/// What fetched events come to: themselves, to be cached, if there are any, and else the cached
/// ones.
pub open spec fn settled_answer(events: Seq<RawEventModel>, cached: Option<CachedModel>) -> SettledModel {
    if events.len() > 0 {
        SettledModel { events: Ok(events), save: true }
    } else if cached is Some && cached->Some_0.events.len() > 0 {
        SettledModel { events: Ok(cached->Some_0.events), save: false }
    } else {
        SettledModel { events: Ok(events), save: false }
    }
}

impl ClientModel {
    /// The cached events that make a fetch unnecessary at `now`.
    pub open spec fn served_from_cache(self, cached: Option<CachedModel>, now: int) -> Option<
        Seq<RawEventModel>,
    > {
        if self.cache_ttl is Some && cached is Some && cached->Some_0.valid_at(now)
            && cached->Some_0.events.len() > 0 {
            Some(cached->Some_0.events)
        } else {
            None
        }
    }

    /// What a fetch comes to, given the cache: an error only where no cached event may stand in for
    /// it.
    pub open spec fn settled(
        self,
        outcome: std::result::Result<Seq<RawEventModel>, ErrorModel>,
        cached: Option<CachedModel>,
        now: int,
    ) -> SettledModel {
        match outcome {
            Ok(events) => settled_answer(events, cached),
            Err(e) => if cached is Some && cached->Some_0.events.len() > 0
                && cached->Some_0.acceptable_at(now, self.max_stale_cache_age) {
                SettledModel { events: Ok(cached->Some_0.events), save: false }
            } else {
                SettledModel { events: Err(e), save: false }
            },
        }
    }
}

/// What fetched events come to.
fn settle_answer(events: Vec<RawCalendarEvent>, cached: &Option<CachedCalendarData>) -> (r:
    SettledFetch)
    ensures
        r@ == settled_answer(views(events@), option_view(*cached)),
{
    if events.len() > 0 {
        return SettledFetch { events: Ok(events), save: true };
    }
    if let Some(data) = cached {
        if data.events.len() > 0 {
            return SettledFetch { events: Ok(clone_events(&data.events)), save: false };
        }
    }
    SettledFetch { events: Ok(events), save: false }
}

/// What a fetch comes to where the cache may not stand in for a failure, but still does for an
/// answer without events.
pub fn settle_forced_fetch(
    outcome: Result<Vec<RawCalendarEvent>>,
    cached: &Option<CachedCalendarData>,
) -> (r: SettledFetch)
    ensures
        r@ == match events_view(outcome) {
            Ok(events) => settled_answer(events, option_view(*cached)),
            Err(e) => SettledModel { events: Err(e), save: false },
        },
{
    match outcome {
        Ok(events) => settle_answer(events, cached),
        Err(e) => SettledFetch { events: Err(e), save: false },
    }
}

impl CalendarClient {
    /// Whether there is a cache that has not expired at `now`.
    #[must_use]
    pub fn is_cache_valid(&self, cached: &Option<CachedCalendarData>, now: UtcTime) -> (r: bool)
        ensures
            r == (option_view(*cached) is Some && option_view(*cached)->Some_0.valid_at(now@)),
    {
        match cached {
            Some(data) => data.is_valid_at(now),
            None => false,
        }
    }

    /// The cached events that make a fetch unnecessary at `now`: those of a cache that has not
    /// expired, where caches have a time to live.
    pub fn serve_cached(&self, cached: &Option<CachedCalendarData>, now: UtcTime) -> (r: Option<
        Vec<RawCalendarEvent>,
    >)
        ensures
            (match r {
                Some(events) => Some(views(events@)),
                None => None,
            }) == self@.served_from_cache(option_view(*cached), now@),
    {
        if self.cache_ttl().is_none() || !self.is_cache_valid(cached, now) {
            return None;
        }
        match cached {
            Some(data) => if data.events.len() > 0 {
                Some(clone_events(&data.events))
            } else {
                None
            },
            None => None,
        }
    }

    /// What a fetch comes to, given the cache: fetched events if there are any; cached ones in place
    /// of an answer without events, and, if they are not too old, of a failure.
    pub fn settle_fetch(
        &self,
        outcome: Result<Vec<RawCalendarEvent>>,
        cached: &Option<CachedCalendarData>,
        now: UtcTime,
    ) -> (r: SettledFetch)
        requires
            now.in_range(),
        ensures
            r@ == self@.settled(events_view(outcome), option_view(*cached), now@),
    {
        match outcome {
            Ok(events) => settle_answer(events, cached),
            Err(e) => {
                if let Some(data) = cached {
                    if data.events.len() > 0 && data.is_acceptable_at(
                        now,
                        self.max_stale_cache_age(),
                    ) {
                        return SettledFetch { events: Ok(clone_events(&data.events)), save: false };
                    }
                }
                SettledFetch { events: Err(e), save: false }
            },
        }
    }
}

/// The cache is only ever written with events that were fetched, and never with none.
pub proof fn law_cache_is_written_with_fetched_events_only(
    client: ClientModel,
    outcome: std::result::Result<Seq<RawEventModel>, ErrorModel>,
    cached: Option<CachedModel>,
    now: int,
)
    ensures
        client.settled(outcome, cached, now).save <==> outcome is Ok && outcome->Ok_0.len() > 0,
        client.settled(outcome, cached, now).save ==> client.settled(outcome, cached, now).events
            == outcome,
{
}

/// An answer without events does not take the place of cached events.
pub proof fn law_empty_answer_preserves_cached_events(
    client: ClientModel,
    cached: CachedModel,
    now: int,
)
    requires
        cached.events.len() > 0,
    ensures
        client.settled(Ok(Seq::empty()), Some(cached), now) == (SettledModel {
            events: Ok(cached.events),
            save: false,
        }),
{
}

/// A failed fetch is an error unless there are cached events that are not too old, and then it is
/// not.
pub proof fn law_failed_fetch_needs_a_recent_cache(
    client: ClientModel,
    e: ErrorModel,
    cached: Option<CachedModel>,
    now: int,
)
    ensures
        client.settled(Err(e), cached, now).events is Ok <==> cached is Some
            && cached->Some_0.events.len() > 0 && cached->Some_0.acceptable_at(
            now,
            client.max_stale_cache_age,
        ),
        client.settled(Err(e), cached, now).events matches Err(f) ==> f == e,
{
}

/// A server cannot ask for a longer wait than the client allows.
pub proof fn law_asked_wait_is_capped(
    client: ClientModel,
    status: int,
    retry_after: Option<Seq<char>>,
)
    ensures
        client.asked_wait(status, retry_after) matches Some(delay) ==> delay
            <= client.max_retry_after,
{
}

/// A fetch gives up for want of an answer only at the last address.
pub proof fn law_no_address_is_skipped(
    client: ClientModel,
    state: FetchModel,
    event: FetchEventModel,
)
    requires
        state.of(client),
        !(event is Items),
    ensures
        client.step(state, event).1 is Done ==> state.url_index + 1 == client.urls().len(),
        client.step(state, event).1 matches FetchStepModel::Get(url) ==> url
            == client.urls()[(state.url_index + 1) as int],
        client.step(state, event).1 matches FetchStepModel::GetAfter(_, url) ==> url
            == client.urls()[state.url_index as int],
{
}

impl ClientModel {
    /// How many requests there can still be: the attempts left at this address, and all those at
    /// the addresses behind it.
    pub open spec fn requests_left(self, state: FetchModel) -> int {
        (self.urls().len() - 1 - state.url_index) * (self.max_retries + 1) + self.max_retries
            - state.attempt
    }

    /// How often there can still be a wait.
    pub open spec fn waits_left(self, state: FetchModel) -> int {
        (self.urls().len() - 1 - state.url_index) * self.max_retries + self.max_retries
            - state.attempt
    }

    /// The number of requests made while `events` come.
    pub open spec fn requests(self, state: FetchModel, events: Seq<FetchEventModel>) -> nat
        decreases events.len(),
    {
        if events.len() == 0 {
            0
        } else {
            let (next, step) = self.step(state, events.first());
            match step {
                FetchStepModel::Done(_) => 0,
                FetchStepModel::ReadBody => self.requests(next, events.drop_first()),
                _ => 1 + self.requests(next, events.drop_first()),
            }
        }
    }

    /// The time waited between attempts while `events` come.
    pub open spec fn waiting(self, state: FetchModel, events: Seq<FetchEventModel>) -> nat
        decreases events.len(),
    {
        if events.len() == 0 {
            0
        } else {
            let (next, step) = self.step(state, events.first());
            match step {
                FetchStepModel::Done(_) => 0,
                FetchStepModel::GetAfter(delay, _) => delay + self.waiting(
                    next,
                    events.drop_first(),
                ),
                _ => self.waiting(next, events.drop_first()),
            }
        }
    }
}

proof fn lemma_one_url_less(urls: int, index: int, times: int)
    requires
        index + 1 < urls,
        times >= 0,
    ensures
        (urls - 1 - (index + 1)) * times + times == (urls - 1 - index) * times,
        (urls - 1 - (index + 1)) * times >= 0,
{
    assert((urls - 1 - (index + 1)) * times + times == (urls - 1 - index) * times) by (nonlinear_arith);
    assert((urls - 1 - (index + 1)) * times >= 0) by (nonlinear_arith)
        requires
            index + 1 < urls,
            times >= 0,
    ;
}

proof fn lemma_left_is_not_negative(client: ClientModel, state: FetchModel)
    requires
        state.of(client),
    ensures
        client.requests_left(state) >= 0,
        client.waits_left(state) >= 0,
{
    let rest = client.urls().len() - 1 - state.url_index;
    assert(rest * (client.max_retries + 1) >= 0) by (nonlinear_arith)
        requires
            rest >= 0,
            client.max_retries >= 0,
    ;
    assert(rest * client.max_retries >= 0) by (nonlinear_arith)
        requires
            rest >= 0,
            client.max_retries >= 0,
    ;
}

/// What a step does to how far a fetch has got.
proof fn lemma_step_makes_progress(client: ClientModel, state: FetchModel, event: FetchEventModel)
    requires
        state.of(client),
    ensures
        client.step(state, event).0.of(client),
        match client.step(state, event).1 {
            FetchStepModel::Done(_) => true,
            FetchStepModel::ReadBody => client.step(state, event).0 == state,
            FetchStepModel::Get(_) => client.requests_left(client.step(state, event).0)
                <= client.requests_left(state) - 1 && client.waits_left(
                client.step(state, event).0,
            ) <= client.waits_left(state),
            FetchStepModel::GetAfter(_, _) => client.requests_left(client.step(state, event).0)
                <= client.requests_left(state) - 1 && client.waits_left(
                client.step(state, event).0,
            ) <= client.waits_left(state) - 1,
        },
{
    if state.url_index + 1 < client.urls().len() {
        lemma_one_url_less(
            client.urls().len() as int,
            state.url_index as int,
            client.max_retries as int,
        );
        lemma_one_url_less(
            client.urls().len() as int,
            state.url_index as int,
            (client.max_retries + 1) as int,
        );
    }
}

/// A fetch makes no more requests than there are attempts at all of its addresses, whatever
/// happens: with its first request, `max_retries + 1` at each.
pub proof fn law_requests_are_bounded(
    client: ClientModel,
    state: FetchModel,
    events: Seq<FetchEventModel>,
)
    requires
        state.of(client),
    ensures
        client.requests(state, events) <= client.requests_left(state),
    decreases events.len(),
{
    lemma_left_is_not_negative(client, state);
    if events.len() > 0 {
        lemma_step_makes_progress(client, state, events.first());
        let (next, step) = client.step(state, events.first());
        if !(step is Done) {
            law_requests_are_bounded(client, next, events.drop_first());
        }
    }
}

/// The longest wait between attempts: what the client allows a server to ask for, or the wait
/// before the last attempt.
pub open spec fn longest_wait(client: ClientModel) -> nat {
    let last = if client.max_retries > 0 {
        client.backoff((client.max_retries - 1) as nat)
    } else {
        0
    };
    if last > client.max_retry_after {
        last
    } else {
        client.max_retry_after
    }
}

proof fn lemma_wait_is_bounded(client: ClientModel, state: FetchModel, event: FetchEventModel)
    requires
        state.of(client),
    ensures
        client.step(state, event).1 matches FetchStepModel::GetAfter(delay, _) ==> delay
            <= longest_wait(client),
{
    if state.attempt < client.max_retries {
        lemma_doubled_grows(
            client.backoff_initial_delay,
            state.attempt,
            (client.max_retries - 1) as nat,
        );
    }
}

/// A fetch waits no longer between its attempts than the longest wait at each repetition, whatever
/// happens.
pub proof fn law_waiting_is_bounded(
    client: ClientModel,
    state: FetchModel,
    events: Seq<FetchEventModel>,
)
    requires
        state.of(client),
    ensures
        client.waiting(state, events) <= client.waits_left(state) * longest_wait(client),
    decreases events.len(),
{
    let d = longest_wait(client) as int;
    let left = client.waits_left(state);
    lemma_left_is_not_negative(client, state);
    assert(left * d >= 0) by (nonlinear_arith)
        requires
            left >= 0,
            d >= 0,
    ;
    if events.len() > 0 {
        let (next, step) = client.step(state, events.first());
        lemma_step_makes_progress(client, state, events.first());
        lemma_wait_is_bounded(client, state, events.first());
        if !(step is Done) {
            law_waiting_is_bounded(client, next, events.drop_first());
            let after = client.waits_left(next);
            assert(after * d <= left * d) by (nonlinear_arith)
                requires
                    after <= left,
                    d >= 0,
            ;
            if step is GetAfter {
                assert(after * d + d <= left * d) by (nonlinear_arith)
                    requires
                        after <= left - 1,
                        d >= 0,
                ;
            }
        }
    }
}

/// With the default settings, a fetch makes at most three requests and waits at most twenty seconds
/// between them. With a time limit of 30 seconds per request, it is over in 110 seconds.
pub proof fn law_default_fetch_is_over_in_time(
    url: Seq<char>,
    events: Seq<FetchEventModel>,
)
    ensures
        ({
            let client = ClientModel::standard(url, (30 * SECOND) as nat);
            let requests = 1 + client.requests(FetchModel::start(), events);
            let waiting = client.waiting(FetchModel::start(), events);
            &&& requests <= 3
            &&& waiting <= 20 * SECOND
            &&& requests * client.request_timeout + waiting <= 110 * SECOND
        }),
{
    let client = ClientModel::standard(url, (30 * SECOND) as nat);
    let state = FetchModel::start();
    assert(client.urls() =~= seq![url]);
    law_requests_are_bounded(client, state, events);
    law_waiting_is_bounded(client, state, events);
    let rest = client.urls().len() - 1 - state.url_index;
    assert(rest * (client.max_retries + 1) == 0 && rest * client.max_retries == 0) by (nonlinear_arith)
        requires
            rest == 0,
    ;
    assert(client.requests_left(state) == 2);
    assert(client.waits_left(state) == 2);
    assert(longest_wait(client) == 10 * SECOND) by {
        reveal_with_fuel(doubled, 2);
    }
    let left = client.waits_left(state);
    let longest = longest_wait(client);
    assert(left * longest == 20 * SECOND) by (nonlinear_arith)
        requires
            left == 2,
            longest == 10 * SECOND,
    ;
    let requests = 1 + client.requests(state, events);
    assert(requests * client.request_timeout <= 3 * client.request_timeout) by (nonlinear_arith)
        requires
            requests <= 3,
            client.request_timeout >= 0,
    ;
}

/// An item of a body counts exactly if it is an event with a date that is not blank, a title of at most
/// 500 bytes and a country of at most 10; what counts is taken in the order of the items.
pub proof fn law_items_that_count(items: Seq<Option<RawEventModel>>, e: RawEventModel)
    requires
        vstd::utf8::encode_utf8(e.title).len() <= usize::MAX,
        vstd::utf8::encode_utf8(e.country).len() <= usize::MAX,
    ensures
        usable_events(Seq::empty()).len() == 0,
        usable_events(items.push(None)) == usable_events(items),
        ({
            let counts = {
                &&& trimmed(e.date).len() > 0
                &&& vstd::utf8::encode_utf8(e.title).len() <= 500
                &&& vstd::utf8::encode_utf8(e.country).len() <= 10
            };
            &&& usable(Some(e)) <==> counts
            &&& counts ==> usable_events(items.push(Some(e))) == usable_events(items).push(e)
            &&& !counts ==> usable_events(items.push(Some(e))) == usable_events(items)
        }),
{
    let n = items.len() as int;
    let with_none = items.push(None);
    let with_event = items.push(Some(e));
    lemma_filter_map_step(with_none, n, usable_event());
    lemma_filter_map_step(with_event, n, usable_event());
    assert(with_none.take(n) =~= items);
    assert(with_none.take(n + 1) =~= with_none);
    assert(with_event.take(n) =~= items);
    assert(with_event.take(n + 1) =~= with_event);
}

/// A body with more items than the limit is rejected, and so is one whose items are all malformed, or
/// of which more than a fifth are; else its well-formed events are taken.
pub proof fn law_body_is_taken_or_rejected(items: Seq<Option<RawEventModel>>, limit: nat)
    ensures
        ({
            let total = items.len() as int;
            let malformed = total - usable_events(items).len();
            &&& total > limit ==> sifted(items, limit) == Err::<Seq<RawEventModel>, ErrorModel>(
                ErrorModel::Calendar(
                    "upstream response contained "@ + decimal(total)
                        + " events, exceeding limit of "@ + decimal(limit as int),
                ),
            )
            &&& 0 < total <= limit && malformed == total ==> sifted(items, limit) == Err::<
                Seq<RawEventModel>,
                ErrorModel,
            >(ErrorModel::Calendar("all upstream calendar events were malformed"@))
            &&& total <= limit && malformed < total && malformed * 5 > total ==> sifted(items, limit)
                == Err::<Seq<RawEventModel>, ErrorModel>(
                ErrorModel::Calendar(
                    "upstream response corrupted: "@ + decimal(malformed) + "/"@ + decimal(total)
                        + " events malformed"@,
                ),
            )
            &&& total <= limit && malformed * 5 <= total ==> sifted(items, limit) == Ok::<
                Seq<RawEventModel>,
                ErrorModel,
            >(usable_events(items))
        }),
{
    lemma_usable_len(items);
}

/// The answers that are worth another attempt are those of too many requests, of a request that took
/// too long, and of a fault of the server.
pub proof fn law_answers_worth_another_attempt(status: int)
    ensures
        retryable(status) <==> status == 408 || status == 429 || status >= 500 && status <= 599,
{
}

/// A server's wish for a wait counts exactly with an answer of too many requests, where it is a number
/// of seconds. It is granted up to the longest wait allowed.
pub proof fn law_wait_that_a_server_asks_for(
    client: ClientModel,
    status: int,
    retry_after: Option<Seq<char>>,
)
    ensures
        ({
            let wait = client.asked_wait(status, retry_after);
            &&& status != 429 || retry_after is None ==> wait is None
            &&& status == 429 ==> (retry_after matches Some(text) ==> match u64_value(trimmed(text)) {
                None => wait is None,
                Some(secs) => {
                    &&& wait is Some
                    &&& wait->Some_0 <= secs * 1_000_000_000
                    &&& wait->Some_0 <= client.max_retry_after
                    &&& wait->Some_0 == secs * 1_000_000_000 || wait->Some_0 == client.max_retry_after
                },
            })
        }),
{
}

/// A fetch begins at the first address with the first attempt, and without an error.
pub proof fn law_fetch_begins_at_the_first_address(client: ClientModel)
    ensures
        ({
            let start = FetchModel::start();
            &&& start.url_index == 0 && start.attempt == 0
            &&& start.url_error is None && start.last_error is None
            &&& start.of(client)
        }),
{
}

/// A client is at one of its addresses, and at an attempt that it may make there.
pub proof fn law_places_of_a_fetch(client: ClientModel, state: FetchModel)
    ensures
        state.of(client) <==> state.url_index <= client.fallback_urls.len() && state.attempt
            <= client.max_retries,
{
}

/// A request that comes to nothing, or whose body breaks off, is too long or is no JSON, is repeated at
/// the same address after the wait of that attempt while attempts are left. Then the next address is
/// tried from its first attempt. Behind the last the fetch ends with the error.
pub proof fn law_failed_request_is_repeated(
    client: ClientModel,
    state: FetchModel,
    event: FetchEventModel,
    error: ErrorModel,
)
    requires
        match event {
            FetchEventModel::TransportFailed(s) => error == ErrorModel::Http(s),
            FetchEventModel::BodyFailed(s) => error == ErrorModel::Http(s),
            FetchEventModel::BodyTooLarge => error == ErrorModel::Calendar(
                "upstream response body exceeded maximum limit of "@ + decimal(
                    client.max_response_bytes as int,
                ) + " bytes"@,
            ),
            FetchEventModel::BodyMalformed(s) => error == ErrorModel::Json(s),
            _ => false,
        },
    ensures
        ({
            let (next, step) = client.step(state, event);
            let more_addresses = state.url_index < client.fallback_urls.len();
            &&& state.attempt < client.max_retries ==> {
                &&& step == FetchStepModel::GetAfter(
                    client.backoff(state.attempt),
                    client.urls()[state.url_index as int],
                )
                &&& next.url_index == state.url_index && next.attempt == state.attempt + 1
                &&& next.url_error == Some(error) && next.last_error == state.last_error
            }
            &&& state.attempt >= client.max_retries && more_addresses ==> {
                &&& step == FetchStepModel::Get(client.fallback_urls[state.url_index as int])
                &&& next.url_index == state.url_index + 1 && next.attempt == 0
                &&& next.url_error is None && next.last_error == Some(error)
            }
            &&& state.attempt >= client.max_retries && !more_addresses ==> step
                == FetchStepModel::Done(Err(error))
        }),
{
    law_addresses_in_order(client, state.url_index as int);
}

/// The body of a successful answer is read, unless it announces more bytes than the client reads: then
/// the next address is tried, and behind the last the fetch ends with that error.
pub proof fn law_successful_answer_is_read(
    client: ClientModel,
    state: FetchModel,
    status: int,
    content_length: Option<int>,
    retry_after: Option<Seq<char>>,
    status_error: Seq<char>,
)
    requires
        200 <= status <= 299,
    ensures
        ({
            let (next, step) = client.step(
                state,
                FetchEventModel::Answered { status, content_length, retry_after, status_error },
            );
            let more_addresses = state.url_index < client.fallback_urls.len();
            let fits = content_length matches Some(n) ==> n <= client.max_response_bytes;
            let error = ErrorModel::Calendar(
                "upstream response Content-Length ("@ + decimal(content_length->Some_0)
                    + " bytes) exceeds maximum limit of "@ + decimal(
                    client.max_response_bytes as int,
                ) + " bytes"@,
            );
            &&& fits ==> step is ReadBody && next == state
            &&& !fits && more_addresses ==> {
                &&& step == FetchStepModel::Get(client.fallback_urls[state.url_index as int])
                &&& next.url_index == state.url_index + 1 && next.attempt == 0
                &&& next.url_error is None && next.last_error == Some(error)
            }
            &&& !fits && !more_addresses ==> step == FetchStepModel::Done(Err(error))
        }),
{
    law_addresses_in_order(client, state.url_index as int);
}

/// An answer without success is tried again at the same address where it is worth it and attempts are
/// left, after the wait that the server asks for or else that of the attempt. Otherwise the next address
/// is tried. Behind the last the fetch ends with the last error that there was, or in these words.
pub proof fn law_refused_request_is_repeated_or_passed_on(
    client: ClientModel,
    state: FetchModel,
    status: int,
    content_length: Option<int>,
    retry_after: Option<Seq<char>>,
    status_error: Seq<char>,
)
    requires
        status < 200 || status > 299,
    ensures
        ({
            let (next, step) = client.step(
                state,
                FetchEventModel::Answered { status, content_length, retry_after, status_error },
            );
            let more_addresses = state.url_index < client.fallback_urls.len();
            let worth = status == 408 || status == 429 || 500 <= status <= 599;
            let again = worth && state.attempt < client.max_retries;
            let error = if 400 <= status <= 599 {
                Some(ErrorModel::Http(status_error))
            } else {
                state.url_error
            };
            let last = if error is Some {
                error
            } else {
                state.last_error
            };
            &&& again ==> {
                &&& step == FetchStepModel::GetAfter(
                    match client.asked_wait(status, retry_after) {
                        Some(wait) => wait,
                        None => client.backoff(state.attempt),
                    },
                    client.urls()[state.url_index as int],
                )
                &&& next.url_index == state.url_index && next.attempt == state.attempt + 1
                &&& next.url_error == error && next.last_error == state.last_error
            }
            &&& !again && more_addresses ==> {
                &&& step == FetchStepModel::Get(client.fallback_urls[state.url_index as int])
                &&& next.url_index == state.url_index + 1 && next.attempt == 0
                &&& next.url_error is None && next.last_error == last
            }
            &&& !again && !more_addresses ==> match last {
                Some(e) => step == FetchStepModel::Done(Err(e)),
                None => step == FetchStepModel::Done(
                    Err(
                        ErrorModel::Calendar(
                            "fetch failed after retries on all candidate endpoints"@,
                        ),
                    ),
                ),
            }
        }),
{
    law_addresses_in_order(client, state.url_index as int);
}

/// A body of JSON ends the fetch with what its items come to.
pub proof fn law_body_ends_the_fetch(
    client: ClientModel,
    state: FetchModel,
    items: Seq<Option<RawEventModel>>,
)
    ensures
        client.step(state, FetchEventModel::Items(items)).1 == FetchStepModel::Done(
            sifted(items, client.max_event_count),
        ),
{
}

/// A client cannot go on exactly where it has to reckon a wait that it cannot: after a failure, or an
/// answer that is worth another attempt with no wait asked for, while attempts are left.
pub proof fn law_when_a_client_can_go_on(
    client: ClientModel,
    state: FetchModel,
    event: FetchEventModel,
)
    ensures
        client.can_step(state, event) <==> {
            ||| state.attempt >= client.max_retries
            ||| client.reckons(state.attempt)
            ||| event is Items
            ||| event matches FetchEventModel::Answered {
                status,
                content_length,
                retry_after,
                status_error,
            } && (!(status == 408 || status == 429 || 500 <= status <= 599) || client.asked_wait(
                status,
                retry_after,
            ) is Some)
        },
{
}

/// Cached events are served without a fetch exactly if caches have a time to live and there is a cache
/// with events that is still fresh.
pub proof fn law_fresh_cache_is_served(
    client: ClientModel,
    cached: Option<CachedModel>,
    now: int,
)
    ensures
        client.served_from_cache(cached, now) is Some <==> {
            &&& client.cache_ttl is Some
            &&& cached is Some
            &&& cached->Some_0.valid_at(now)
            &&& cached->Some_0.events.len() > 0
        },
        client.served_from_cache(cached, now) matches Some(events) ==> events
            == cached->Some_0.events,
{
}

/// Fetched events are handed on and cached. In place of an answer without events those of a cache are
/// handed on, of whatever age; in place of a failure only those of a cache that is not too old.
pub proof fn law_what_a_fetch_comes_to(
    client: ClientModel,
    events: Seq<RawEventModel>,
    e: ErrorModel,
    cached: Option<CachedModel>,
    now: int,
)
    ensures
        ({
            let held = cached is Some && cached->Some_0.events.len() > 0;
            let answer = settled_answer(events, cached);
            let failure = client.settled(Err(e), cached, now);
            &&& client.settled(Ok(events), cached, now) == answer
            &&& events.len() > 0 ==> answer.save && answer.events == Ok::<
                Seq<RawEventModel>,
                ErrorModel,
            >(events)
            &&& events.len() == 0 && held ==> !answer.save && answer.events == Ok::<
                Seq<RawEventModel>,
                ErrorModel,
            >(cached->Some_0.events)
            &&& events.len() == 0 && !held ==> !answer.save && answer.events == Ok::<
                Seq<RawEventModel>,
                ErrorModel,
            >(events)
            &&& !failure.save
            &&& held && cached->Some_0.acceptable_at(now, client.max_stale_cache_age) ==> failure.events
                == Ok::<Seq<RawEventModel>, ErrorModel>(cached->Some_0.events)
            &&& !(held && cached->Some_0.acceptable_at(now, client.max_stale_cache_age))
                ==> failure.events == Err::<Seq<RawEventModel>, ErrorModel>(e)
        }),
{
}

/// What came of a request, what is to be done, and what a fetch came to show what they hold.
pub proof fn law_fetch_by_kind(
    text: String,
    delay: TimeSpan,
    status: u16,
    content_length: Option<u64>,
    retry_after: Option<String>,
    items: Vec<Option<RawCalendarEvent>>,
    outcome: Result<Vec<RawCalendarEvent>>,
    save: bool,
    i: int,
)
    ensures
        FetchEvent::TransportFailed(text)@ == FetchEventModel::TransportFailed(text@),
        FetchEvent::BodyFailed(text)@ == FetchEventModel::BodyFailed(text@),
        FetchEvent::BodyTooLarge@ is BodyTooLarge,
        FetchEvent::BodyMalformed(text)@ == FetchEventModel::BodyMalformed(text@),
        FetchEvent::Items(items)@ matches FetchEventModel::Items(shown) && {
            &&& shown.len() == items@.len()
            &&& 0 <= i < items@.len() ==> shown[i] == option_view(items@[i])
        },
        (FetchEvent::Answered { status, content_length, retry_after, status_error: text })@ == (
        FetchEventModel::Answered {
            status: status as int,
            content_length: match content_length {
                Some(n) => Some(n as int),
                None => None,
            },
            retry_after: option_view(retry_after),
            status_error: text@,
        }),
        FetchStep::Get(text)@ == FetchStepModel::Get(text@),
        FetchStep::GetAfter(delay, text)@ == FetchStepModel::GetAfter(delay@, text@),
        FetchStep::ReadBody@ is ReadBody,
        FetchStep::Done(outcome)@ == FetchStepModel::Done(events_view(outcome)),
        (SettledFetch { events: outcome, save })@ == (SettledModel {
            events: events_view(outcome),
            save,
        }),
        outcome matches Ok(events) ==> events_view(outcome) == Ok::<Seq<RawEventModel>, ErrorModel>(
            views(events@),
        ),
        outcome matches Err(e) ==> events_view(outcome) == Err::<Seq<RawEventModel>, ErrorModel>(e@),
{
}

} // verus!
