//! Watching a page's requests and responses.

use std::collections::VecDeque;

use vstd::prelude::*;

use crate::text::{opt_copy, opt_view, same};
use crate::textmap::TextMap;

verus! {

/// How many requests are kept. A connection that never ends is never finished
/// either, so the oldest give way to new ones.
pub const MAX_INFLIGHT_REQUESTS: usize = 10_000;

/// How many events wait at most to be fetched.
pub const EVENT_QUEUE: usize = 256;

/// A request, with its response as far as it has come.
#[derive(Debug)]
pub struct CapturedRequest {
    /// The request's id.
    pub request_id: String,
    /// The URL.
    pub url: String,
    /// The method.
    pub method: String,
    /// The headers.
    pub headers: TextMap,
    /// The data that was sent.
    pub post_data: Option<String>,
    /// What the request is for.
    pub resource_type: Option<String>,
    /// The response's status code.
    pub status: Option<i32>,
    /// The response's status text.
    pub status_text: Option<String>,
    /// The response's headers.
    pub response_headers: Option<TextMap>,
    /// The response's MIME type.
    pub mime_type: Option<String>,
    /// When the request was made, as the bits of a double.
    pub timestamp: u64,
    /// Whether the response has come in full.
    pub complete: bool,
}

/// The value behind a `CapturedRequest`.
pub struct CapturedRequestView {
    pub request_id: Seq<char>,
    pub url: Seq<char>,
    pub method: Seq<char>,
    pub headers: Seq<(Seq<char>, Seq<char>)>,
    pub post_data: Option<Seq<char>>,
    pub resource_type: Option<Seq<char>>,
    pub status: Option<i32>,
    pub status_text: Option<Seq<char>>,
    pub response_headers: Option<Seq<(Seq<char>, Seq<char>)>>,
    pub mime_type: Option<Seq<char>>,
    pub timestamp: u64,
    pub complete: bool,
}

/// The view of headers that may be missing.
pub open spec fn opt_headers_view(headers: Option<TextMap>) -> Option<
    Seq<(Seq<char>, Seq<char>)>,
> {
    match headers {
        Some(h) => Some(h@),
        None => None,
    }
}

impl View for CapturedRequest {
    type V = CapturedRequestView;

    open spec fn view(&self) -> CapturedRequestView {
        CapturedRequestView {
            request_id: self.request_id@,
            url: self.url@,
            method: self.method@,
            headers: self.headers@,
            post_data: opt_view(self.post_data),
            resource_type: opt_view(self.resource_type),
            status: self.status,
            status_text: opt_view(self.status_text),
            response_headers: opt_headers_view(self.response_headers),
            mime_type: opt_view(self.mime_type),
            timestamp: self.timestamp,
            complete: self.complete,
        }
    }
}

impl CapturedRequest {
    /// A request with the same data.
    pub fn copy(&self) -> (r: CapturedRequest)
        ensures
            r@ == self@,
    {
        CapturedRequest {
            request_id: self.request_id.clone(),
            url: self.url.clone(),
            method: self.method.clone(),
            headers: self.headers.copy(),
            post_data: opt_copy(&self.post_data),
            resource_type: opt_copy(&self.resource_type),
            status: self.status,
            status_text: opt_copy(&self.status_text),
            response_headers: match &self.response_headers {
                Some(h) => Some(h.copy()),
                None => None,
            },
            mime_type: opt_copy(&self.mime_type),
            timestamp: self.timestamp,
            complete: self.complete,
        }
    }
}

/// The browser's messages about requests.
#[derive(Debug, Clone, Copy, PartialEq, Eq, Structural)]
pub enum NetworkKind {
    /// A request is about to be sent.
    RequestWillBeSent,
    /// A response's head has come.
    ResponseReceived,
    /// A response has come in full.
    LoadingFinished,
    /// No response will come.
    LoadingFailed,
}

/// What kind of message an event's name stands for.
pub open spec fn kind_named(method: Seq<char>) -> Option<NetworkKind> {
    if method == "Network.requestWillBeSent"@ {
        Some(NetworkKind::RequestWillBeSent)
    } else if method == "Network.responseReceived"@ {
        Some(NetworkKind::ResponseReceived)
    } else if method == "Network.loadingFinished"@ {
        Some(NetworkKind::LoadingFinished)
    } else if method == "Network.loadingFailed"@ {
        Some(NetworkKind::LoadingFailed)
    } else {
        None
    }
}

/// What kind of message an event's name stands for.
pub fn network_kind(method: &str) -> (r: Option<NetworkKind>)
    ensures
        r == kind_named(method@),
{
    if same(method, "Network.requestWillBeSent") {
        Some(NetworkKind::RequestWillBeSent)
    } else if same(method, "Network.responseReceived") {
        Some(NetworkKind::ResponseReceived)
    } else if same(method, "Network.loadingFinished") {
        Some(NetworkKind::LoadingFinished)
    } else if same(method, "Network.loadingFailed") {
        Some(NetworkKind::LoadingFailed)
    } else {
        None
    }
}

/// A message about a request.
pub enum NetworkPayload {
    /// A request is about to be sent.
    RequestWillBeSent {
        /// The request's id.
        request_id: String,
        /// The URL.
        url: String,
        /// The method.
        method: String,
        /// The headers.
        headers: TextMap,
        /// The data to send.
        post_data: Option<String>,
        /// What the request is for.
        resource_type: Option<String>,
        /// When it is made, as the bits of a double.
        timestamp: u64,
    },
    /// A response's head has come.
    ResponseReceived {
        /// The request's id.
        request_id: String,
        /// The status code.
        status: i32,
        /// The status text.
        status_text: String,
        /// The headers.
        headers: TextMap,
        /// The MIME type.
        mime_type: Option<String>,
    },
    /// A response has come in full.
    LoadingFinished {
        /// The request's id.
        request_id: String,
        /// How many bytes came.
        encoded_data_length: i64,
    },
    /// No response will come.
    LoadingFailed {
        /// The request's id.
        request_id: String,
        /// Why.
        error_text: String,
        /// Whether the request was given up, where the browser says.
        canceled: Option<bool>,
    },
}

/// The value behind a `NetworkPayload`.
pub enum NetworkPayloadView {
    RequestWillBeSent {
        request_id: Seq<char>,
        url: Seq<char>,
        method: Seq<char>,
        headers: Seq<(Seq<char>, Seq<char>)>,
        post_data: Option<Seq<char>>,
        resource_type: Option<Seq<char>>,
        timestamp: u64,
    },
    ResponseReceived {
        request_id: Seq<char>,
        status: i32,
        status_text: Seq<char>,
        headers: Seq<(Seq<char>, Seq<char>)>,
        mime_type: Option<Seq<char>>,
    },
    LoadingFinished { request_id: Seq<char>, encoded_data_length: i64 },
    LoadingFailed { request_id: Seq<char>, error_text: Seq<char>, canceled: Option<bool> },
}

impl View for NetworkPayload {
    type V = NetworkPayloadView;

    open spec fn view(&self) -> NetworkPayloadView {
        match self {
            NetworkPayload::RequestWillBeSent {
                request_id,
                url,
                method,
                headers,
                post_data,
                resource_type,
                timestamp,
            } => NetworkPayloadView::RequestWillBeSent {
                request_id: request_id@,
                url: url@,
                method: method@,
                headers: headers@,
                post_data: opt_view(*post_data),
                resource_type: opt_view(*resource_type),
                timestamp: *timestamp,
            },
            NetworkPayload::ResponseReceived {
                request_id,
                status,
                status_text,
                headers,
                mime_type,
            } => NetworkPayloadView::ResponseReceived {
                request_id: request_id@,
                status: *status,
                status_text: status_text@,
                headers: headers@,
                mime_type: opt_view(*mime_type),
            },
            NetworkPayload::LoadingFinished { request_id, encoded_data_length } =>
                NetworkPayloadView::LoadingFinished {
                request_id: request_id@,
                encoded_data_length: *encoded_data_length,
            },
            NetworkPayload::LoadingFailed { request_id, error_text, canceled } =>
                NetworkPayloadView::LoadingFailed {
                request_id: request_id@,
                error_text: error_text@,
                canceled: *canceled,
            },
        }
    }
}

/// What a consumer is told.
#[derive(Debug)]
pub enum NetworkEvent {
    /// A request was made.
    RequestStarted(CapturedRequest),
    /// A response's head has come.
    ResponseReceived {
        /// The request's id.
        request_id: String,
        /// The status code.
        status: i32,
        /// The status text.
        status_text: String,
        /// The headers.
        headers: TextMap,
        /// The MIME type.
        mime_type: Option<String>,
    },
    /// A response has come in full.
    RequestCompleted {
        /// The request's id.
        request_id: String,
        /// How many bytes came.
        encoded_data_length: i64,
    },
    /// No response will come.
    RequestFailed {
        /// The request's id.
        request_id: String,
        /// Why.
        error_text: String,
        /// Whether the request was given up.
        canceled: bool,
    },
}

/// The value behind a `NetworkEvent`.
pub enum NetworkEventView {
    RequestStarted(CapturedRequestView),
    ResponseReceived {
        request_id: Seq<char>,
        status: i32,
        status_text: Seq<char>,
        headers: Seq<(Seq<char>, Seq<char>)>,
        mime_type: Option<Seq<char>>,
    },
    RequestCompleted { request_id: Seq<char>, encoded_data_length: i64 },
    RequestFailed { request_id: Seq<char>, error_text: Seq<char>, canceled: bool },
}

impl View for NetworkEvent {
    type V = NetworkEventView;

    open spec fn view(&self) -> NetworkEventView {
        match self {
            NetworkEvent::RequestStarted(r) => NetworkEventView::RequestStarted(r@),
            NetworkEvent::ResponseReceived {
                request_id,
                status,
                status_text,
                headers,
                mime_type,
            } => NetworkEventView::ResponseReceived {
                request_id: request_id@,
                status: *status,
                status_text: status_text@,
                headers: headers@,
                mime_type: opt_view(*mime_type),
            },
            NetworkEvent::RequestCompleted { request_id, encoded_data_length } =>
                NetworkEventView::RequestCompleted {
                request_id: request_id@,
                encoded_data_length: *encoded_data_length,
            },
            NetworkEvent::RequestFailed { request_id, error_text, canceled } =>
                NetworkEventView::RequestFailed {
                request_id: request_id@,
                error_text: error_text@,
                canceled: *canceled,
            },
        }
    }
}

/// The view of an event that may be missing.
pub open spec fn opt_event_view(event: Option<NetworkEvent>) -> Option<NetworkEventView> {
    match event {
        Some(e) => Some(e@),
        None => None,
    }
}

/// The position of the request with the given id, looked for from `from` on.
pub open spec fn position_of(
    requests: Seq<CapturedRequestView>,
    id: Seq<char>,
    from: int,
) -> Option<int>
    decreases requests.len() - from,
{
    if from < 0 || from >= requests.len() {
        None
    } else if requests[from].request_id == id {
        Some(from)
    } else {
        position_of(requests, id, from + 1)
    }
}

/// The request with the given id.
pub open spec fn request_with(requests: Seq<CapturedRequestView>, id: Seq<char>) -> Option<
    CapturedRequestView,
> {
    match position_of(requests, id, 0) {
        Some(i) => Some(requests[i]),
        None => None,
    }
}

/// The requests with one more, which stands for the oldest where there are as many
/// as are kept.
pub open spec fn with_request(requests: Seq<CapturedRequestView>, request: CapturedRequestView) -> Seq<
    CapturedRequestView,
> {
    if requests.len() >= MAX_INFLIGHT_REQUESTS {
        requests.skip(1).push(request)
    } else {
        requests.push(request)
    }
}

/// A request as it is kept when a message says that it is about to be sent.
pub open spec fn started(payload: NetworkPayloadView) -> CapturedRequestView
    recommends
        payload is RequestWillBeSent,
{
    CapturedRequestView {
        request_id: payload->RequestWillBeSent_request_id,
        url: payload->url,
        method: payload->method,
        headers: payload->RequestWillBeSent_headers,
        post_data: payload->post_data,
        resource_type: payload->resource_type,
        status: None,
        status_text: None,
        response_headers: None,
        mime_type: None,
        timestamp: payload->timestamp,
        complete: false,
    }
}

/// What a message does to the requests that are kept, and what a consumer is told.
pub open spec fn noting(requests: Seq<CapturedRequestView>, payload: NetworkPayloadView) -> (
    Seq<CapturedRequestView>,
    Option<NetworkEventView>,
) {
    match payload {
        NetworkPayloadView::RequestWillBeSent { request_id, .. } => if position_of(
            requests,
            request_id,
            0,
        ) is Some {
            (requests, None)
        } else {
            (
                with_request(requests, started(payload)),
                Some(NetworkEventView::RequestStarted(started(payload))),
            )
        },
        NetworkPayloadView::ResponseReceived {
            request_id,
            status,
            status_text,
            headers,
            mime_type,
        } => (
            match position_of(requests, request_id, 0) {
                Some(i) => requests.update(
                    i,
                    CapturedRequestView {
                        status: Some(status),
                        status_text: Some(status_text),
                        response_headers: Some(headers),
                        mime_type,
                        ..requests[i]
                    },
                ),
                None => requests,
            },
            Some(
                NetworkEventView::ResponseReceived {
                    request_id,
                    status,
                    status_text,
                    headers,
                    mime_type,
                },
            ),
        ),
        NetworkPayloadView::LoadingFinished { request_id, encoded_data_length } => (
            match position_of(requests, request_id, 0) {
                Some(i) => requests.update(
                    i,
                    CapturedRequestView { complete: true, ..requests[i] },
                ),
                None => requests,
            },
            Some(NetworkEventView::RequestCompleted { request_id, encoded_data_length }),
        ),
        NetworkPayloadView::LoadingFailed { request_id, error_text, canceled } => (
            match position_of(requests, request_id, 0) {
                Some(i) => requests.remove(i),
                None => requests,
            },
            Some(
                NetworkEventView::RequestFailed {
                    request_id,
                    error_text,
                    canceled: canceled == Some(true),
                },
            ),
        ),
    }
}

/// No two requests have the same id, and there are no more than are kept.
pub open spec fn orderly(requests: Seq<CapturedRequestView>) -> bool {
    &&& requests.len() <= MAX_INFLIGHT_REQUESTS
    &&& forall|i: int, j: int|
        0 <= i < j < requests.len() ==> (#[trigger] requests[i]).request_id
            != (#[trigger] requests[j]).request_id
}

/// The views of requests.
pub open spec fn request_views(requests: Seq<CapturedRequest>) -> Seq<CapturedRequestView> {
    requests.map_values(|r: CapturedRequest| r@)
}

/// The requests that are kept.
pub struct RequestLog {
    requests: Vec<CapturedRequest>,
}

impl View for RequestLog {
    type V = Seq<CapturedRequestView>;

    closed spec fn view(&self) -> Seq<CapturedRequestView> {
        request_views(self.requests@)
    }
}

proof fn lemma_position_of(requests: Seq<CapturedRequestView>, id: Seq<char>, from: int)
    requires
        0 <= from,
    ensures
        match position_of(requests, id, from) {
            Some(i) => from <= i < requests.len() && requests[i].request_id == id,
            None => forall|k: int| from <= k < requests.len() ==> (#[trigger] requests[k]).request_id
                != id,
        },
    decreases requests.len() - from,
{
    if from < requests.len() && requests[from].request_id != id {
        lemma_position_of(requests, id, from + 1);
    }
}

impl RequestLog {
    /// No requests.
    pub fn new() -> (log: RequestLog)
        ensures
            log@ == Seq::<CapturedRequestView>::empty(),
            orderly(log@),
    {
        let log = RequestLog { requests: Vec::new() };
        assert(log@ =~= Seq::<CapturedRequestView>::empty());
        log
    }

    fn position(&self, id: &str) -> (r: Option<usize>)
        ensures
            match r {
                Some(i) => i < self.requests@.len() && position_of(self@, id@, 0) == Some(i as int),
                None => position_of(self@, id@, 0) is None,
            },
    {
        let key = id.to_string();
        let mut i: usize = 0;
        while i < self.requests.len()
            invariant
                i <= self.requests@.len(),
                key@ == id@,
                self@.len() == self.requests@.len(),
                position_of(self@, id@, i as int) == position_of(self@, id@, 0),
            decreases self.requests@.len() - i,
        {
            assert(self@[i as int] == self.requests@[i as int]@);
            if self.requests[i].request_id == key {
                return Some(i);
            }
            i = i + 1;
        }
        None
    }

    /// Takes note of a message. Says what a consumer is told of it.
    pub fn note(&mut self, payload: NetworkPayload) -> (event: Option<NetworkEvent>)
        requires
            orderly(old(self)@),
        ensures
            orderly(final(self)@),
            (final(self)@, opt_event_view(event)) == noting(old(self)@, payload@),
            payload matches NetworkPayload::RequestWillBeSent {
                request_id,
                url,
                method,
                headers,
                post_data,
                resource_type,
                timestamp,
            } ==> (event matches Some(NetworkEvent::RequestStarted(r)) ==> {
                &&& r.request_id@ == request_id@
                &&& r.url@ == url@
                &&& r.method@ == method@
                &&& r.headers@ == headers@
                &&& opt_view(r.post_data) == opt_view(post_data)
                &&& opt_view(r.resource_type) == opt_view(resource_type)
                &&& r.timestamp == timestamp
                &&& !r.complete && r.status is None
            }),
    {
        match payload {
            NetworkPayload::RequestWillBeSent {
                request_id,
                url,
                method,
                headers,
                post_data,
                resource_type,
                timestamp,
            } => {
                proof {
                    lemma_position_of(self@, request_id@, 0);
                }
                if self.position(request_id.as_str()).is_some() {
                    return None;
                }
                let request = CapturedRequest {
                    request_id,
                    url,
                    method,
                    headers,
                    post_data,
                    resource_type,
                    status: None,
                    status_text: None,
                    response_headers: None,
                    mime_type: None,
                    timestamp,
                    complete: false,
                };
                let told = request.copy();
                self.track(request);
                Some(NetworkEvent::RequestStarted(told))
            },
            NetworkPayload::ResponseReceived {
                request_id,
                status,
                status_text,
                headers,
                mime_type,
            } => {
                if let Some(i) = self.position(request_id.as_str()) {
                    let mut request = self.requests[i].copy();
                    request.status = Some(status);
                    request.status_text = Some(status_text.clone());
                    request.response_headers = Some(headers.copy());
                    request.mime_type = opt_copy(&mime_type);
                    self.exchange(i, request);
                }
                Some(
                    NetworkEvent::ResponseReceived {
                        request_id,
                        status,
                        status_text,
                        headers,
                        mime_type,
                    },
                )
            },
            NetworkPayload::LoadingFinished { request_id, encoded_data_length } => {
                if let Some(i) = self.position(request_id.as_str()) {
                    let mut request = self.requests[i].copy();
                    request.complete = true;
                    self.exchange(i, request);
                }
                Some(NetworkEvent::RequestCompleted { request_id, encoded_data_length })
            },
            NetworkPayload::LoadingFailed { request_id, error_text, canceled } => {
                if let Some(i) = self.position(request_id.as_str()) {
                    let ghost before = self@;
                    let _gone = self.requests.remove(i);
                    proof {
                        assert(self@ =~= before.remove(i as int));
                        lemma_orderly_remove(before, i as int);
                    }
                }
                let canceled = match canceled {
                    Some(c) => c,
                    None => false,
                };
                Some(NetworkEvent::RequestFailed { request_id, error_text, canceled })
            },
        }
    }

    fn track(&mut self, request: CapturedRequest)
        requires
            orderly(old(self)@),
            forall|k: int|
                0 <= k < old(self)@.len() ==> (#[trigger] old(self)@[k]).request_id
                    != request.request_id@,
        ensures
            orderly(final(self)@),
            final(self)@ == with_request(old(self)@, request@),
    {
        let ghost before = self@;
        if self.requests.len() >= MAX_INFLIGHT_REQUESTS {
            let _gone = self.requests.remove(0);
            proof {
                assert(self@ =~= before.remove(0));
                assert(before.remove(0) =~= before.skip(1));
                lemma_orderly_remove(before, 0);
            }
        }
        let ghost kept = self@;
        let ghost added = request@;
        self.requests.push(request);
        assert(self@ =~= kept.push(added));
    }

    fn exchange(&mut self, i: usize, request: CapturedRequest)
        requires
            orderly(old(self)@),
            i < old(self)@.len(),
            request.request_id@ == old(self)@[i as int].request_id,
        ensures
            orderly(final(self)@),
            final(self)@ == old(self)@.update(i as int, request@),
    {
        let ghost before = self@;
        let ghost changed = request@;
        self.requests.set(i, request);
        assert(self@ =~= before.update(i as int, changed));
    }

    /// The request with the given id.
    pub fn get_request(&self, request_id: &str) -> (r: Option<CapturedRequest>)
        ensures
            match r {
                Some(request) => request_with(self@, request_id@) == Some(request@),
                None => request_with(self@, request_id@) is None,
            },
    {
        match self.position(request_id) {
            Some(i) => {
                assert(self@[i as int] == self.requests@[i as int]@);
                Some(self.requests[i].copy())
            },
            None => None,
        }
    }

    /// All requests that are kept, the oldest first.
    pub fn get_all_requests(&self) -> (r: Vec<CapturedRequest>)
        ensures
            request_views(r@) == self@,
    {
        let mut r: Vec<CapturedRequest> = Vec::new();
        while r.len() < self.requests.len()
            invariant
                r.len() <= self.requests.len(),
                forall|j: int|
                    0 <= j < r.len() ==> (#[trigger] r@[j])@ == self.requests@[j]@,
            decreases self.requests.len() - r.len(),
        {
            let request = self.requests[r.len()].copy();
            r.push(request);
        }
        assert(request_views(r@) =~= self@);
        r
    }

    /// Forgets all requests.
    pub fn clear(&mut self)
        ensures
            final(self)@ == Seq::<CapturedRequestView>::empty(),
    {
        self.requests.clear();
        assert(self@ =~= Seq::<CapturedRequestView>::empty());
    }
}

/// The value behind a `NetworkWatcher`.
pub struct NetworkWatcherView {
    /// The requests that are kept.
    pub requests: Seq<CapturedRequestView>,
    /// What happened and was not fetched yet.
    pub events: Seq<NetworkEventView>,
}

/// The views of events.
pub open spec fn event_views(events: Seq<NetworkEvent>) -> Seq<NetworkEventView> {
    events.map_values(|e: NetworkEvent| e@)
}

/// The requests are in order, and no more events wait than can.
pub open spec fn tidy(w: NetworkWatcherView) -> bool {
    orderly(w.requests) && w.events.len() <= EVENT_QUEUE
}

/// The events that wait, with one more; where as many wait as can, the new one is
/// dropped.
pub open spec fn queued(events: Seq<NetworkEventView>, event: Option<NetworkEventView>) -> Seq<
    NetworkEventView,
> {
    match event {
        Some(e) => if events.len() < EVENT_QUEUE {
            events.push(e)
        } else {
            events
        },
        None => events,
    }
}

/// What a message does to a watcher.
pub open spec fn processing(
    w: NetworkWatcherView,
    payload: NetworkPayloadView,
) -> NetworkWatcherView {
    let (requests, event) = noting(w.requests, payload);
    NetworkWatcherView { requests, events: queued(w.events, event) }
}

/// Keeps track of a page's requests, and of what happened to them until somebody
/// asks.
pub struct NetworkWatcher {
    log: RequestLog,
    events: VecDeque<NetworkEvent>,
}

impl View for NetworkWatcher {
    type V = NetworkWatcherView;

    closed spec fn view(&self) -> NetworkWatcherView {
        NetworkWatcherView { requests: self.log@, events: event_views(self.events@) }
    }
}

impl Default for NetworkWatcher {
    fn default() -> (w: NetworkWatcher)
        ensures
            w@ == (NetworkWatcherView { requests: Seq::empty(), events: Seq::empty() }),
    {
        NetworkWatcher::new()
    }
}

impl NetworkWatcher {
    /// A watcher that has seen nothing.
    pub fn new() -> (w: NetworkWatcher)
        ensures
            w@ == (NetworkWatcherView { requests: Seq::empty(), events: Seq::empty() }),
            tidy(w@),
    {
        let w = NetworkWatcher { log: RequestLog::new(), events: VecDeque::new() };
        assert(w@.events =~= Seq::<NetworkEventView>::empty());
        w
    }

    /// Takes note of a message, and says whether it was one about a request. It
    /// never waits: what no room is left for is not told.
    pub fn process_event(&mut self, payload: Option<NetworkPayload>) -> (r: bool)
        requires
            tidy(old(self)@),
        ensures
            tidy(final(self)@),
            r == (payload is Some),
            final(self)@ == (match payload {
                Some(p) => processing(old(self)@, p@),
                None => old(self)@,
            }),
    {
        match payload {
            Some(p) => {
                let ghost before = event_views(self.events@);
                match self.log.note(p) {
                    Some(event) => {
                        if self.events.len() < EVENT_QUEUE {
                            self.events.push_back(event);
                            assert(event_views(self.events@) =~= before.push(event@));
                        }
                    },
                    None => {},
                }
                true
            },
            None => false,
        }
    }

    /// Whether as many events wait as can, so that the next one is dropped.
    pub fn is_full(&self) -> (r: bool)
        requires
            tidy(self@),
        ensures
            r == (self@.events.len() == EVENT_QUEUE),
    {
        self.events.len() >= EVENT_QUEUE
    }

    /// The next thing that happened, where it was not fetched yet.
    pub fn try_recv(&mut self) -> (r: Option<NetworkEvent>)
        ensures
            match r {
                Some(event) => {
                    &&& old(self)@.events.len() > 0
                    &&& event@ == old(self)@.events[0]
                    &&& final(self)@ == (NetworkWatcherView {
                        events: old(self)@.events.skip(1),
                        ..old(self)@
                    })
                },
                None => old(self)@.events.len() == 0 && final(self)@ == old(self)@,
            },
    {
        let ghost before = self@.events;
        let r = self.events.pop_front();
        proof {
            if r is Some {
                assert(event_views(self.events@) =~= before.skip(1));
            }
        }
        r
    }

    /// The request with the given id.
    pub fn get_request(&self, request_id: &str) -> (r: Option<CapturedRequest>)
        ensures
            match r {
                Some(request) => request_with(self@.requests, request_id@) == Some(request@),
                None => request_with(self@.requests, request_id@) is None,
            },
    {
        self.log.get_request(request_id)
    }

    /// All requests that are kept, the oldest first.
    pub fn get_all_requests(&self) -> (r: Vec<CapturedRequest>)
        ensures
            request_views(r@) == self@.requests,
    {
        self.log.get_all_requests()
    }

    /// Forgets all requests. What happened to them can still be fetched.
    pub fn clear(&mut self)
        ensures
            final(self)@ == (NetworkWatcherView { requests: Seq::empty(), ..old(self)@ }),
    {
        self.log.clear();
    }
}

proof fn lemma_orderly_remove(requests: Seq<CapturedRequestView>, at: int)
    requires
        orderly(requests),
        0 <= at < requests.len(),
    ensures
        orderly(requests.remove(at)),
{
    let rest = requests.remove(at);
    assert forall|i: int, j: int| 0 <= i < j < rest.len() implies (#[trigger] rest[i]).request_id
        != (#[trigger] rest[j]).request_id by {
        let a = if i < at {
            i
        } else {
            i + 1
        };
        let b = if j < at {
            j
        } else {
            j + 1
        };
        assert(rest[i] == requests[a]);
        assert(rest[j] == requests[b]);
    }
}

/// In an orderly list each request stands where its id is found.
proof fn lemma_found_at(requests: Seq<CapturedRequestView>, i: int)
    requires
        orderly(requests),
        0 <= i < requests.len(),
    ensures
        request_with(requests, requests[i].request_id) == Some(requests[i]),
        position_of(requests, requests[i].request_id, 0) == Some(i),
{
    lemma_position_of(requests, requests[i].request_id, 0);
    let at = position_of(requests, requests[i].request_id, 0)->0;
    if at < i {
        assert(requests[at].request_id != requests[i].request_id);
    } else if i < at {
        assert(requests[i].request_id != requests[at].request_id);
    }
}

/// The request that a message is about.
pub open spec fn subject(payload: NetworkPayloadView) -> Seq<char> {
    match payload {
        NetworkPayloadView::RequestWillBeSent { request_id, .. } => request_id,
        NetworkPayloadView::ResponseReceived { request_id, .. } => request_id,
        NetworkPayloadView::LoadingFinished { request_id, .. } => request_id,
        NetworkPayloadView::LoadingFailed { request_id, .. } => request_id,
    }
}

/// A redirect is announced under the id of a request that is known: the request is
/// kept as it was, and nobody is told.
pub proof fn law_redirect_keeps_first(
    requests: Seq<CapturedRequestView>,
    payload: NetworkPayloadView,
)
    requires
        payload is RequestWillBeSent,
        request_with(requests, subject(payload)) is Some,
    ensures
        noting(requests, payload) == (requests, None::<NetworkEventView>),
{
}

/// A new request is found under its id, not complete.
pub proof fn law_started_is_found(requests: Seq<CapturedRequestView>, payload: NetworkPayloadView)
    requires
        orderly(requests),
        payload is RequestWillBeSent,
        request_with(requests, subject(payload)) is None,
    ensures
        request_with(noting(requests, payload).0, subject(payload)) matches Some(r) && !r.complete
            && r.status is None && noting(requests, payload).1 == Some(
            NetworkEventView::RequestStarted(r),
        ),
        noting(requests, payload).0.len() <= MAX_INFLIGHT_REQUESTS,
{
    let after = noting(requests, payload).0;
    let id = subject(payload);
    lemma_position_of(requests, id, 0);
    lemma_position_of(after, id, 0);
    let last = after.len() - 1;
    assert(after[last].request_id == id);
    assert forall|k: int| 0 <= k < last implies (#[trigger] after[k]).request_id != id by {
        if requests.len() >= MAX_INFLIGHT_REQUESTS {
            assert(after[k] == requests[k + 1]);
        } else {
            assert(after[k] == requests[k]);
        }
    }
}

/// A request that is found under its id, and the one that a consumer is told of, are
/// what was announced: each part of the message is kept as it came, and nothing is
/// known yet of a response.
pub proof fn law_announced_request_is_kept_as_it_came(
    requests: Seq<CapturedRequestView>,
    payload: NetworkPayloadView,
)
    requires
        orderly(requests),
        payload is RequestWillBeSent,
        request_with(requests, payload->RequestWillBeSent_request_id) is None,
    ensures
        request_with(
            noting(requests, payload).0,
            payload->RequestWillBeSent_request_id,
        ) matches Some(r) && {
            &&& r.request_id == payload->RequestWillBeSent_request_id
            &&& r.url == payload->url
            &&& r.method == payload->method
            &&& r.headers == payload->RequestWillBeSent_headers
            &&& r.post_data == payload->post_data
            &&& r.resource_type == payload->resource_type
            &&& r.timestamp == payload->timestamp
            &&& !r.complete
            &&& r.status is None && r.status_text is None && r.response_headers is None
                && r.mime_type is None
        },
        noting(requests, payload).1 matches Some(NetworkEventView::RequestStarted(r)) && {
            &&& r.request_id == payload->RequestWillBeSent_request_id
            &&& r.url == payload->url
            &&& r.method == payload->method
            &&& r.headers == payload->RequestWillBeSent_headers
            &&& r.post_data == payload->post_data
            &&& r.resource_type == payload->resource_type
            &&& r.timestamp == payload->timestamp
            &&& !r.complete
            &&& r.status is None && r.status_text is None && r.response_headers is None
                && r.mime_type is None
        },
{
    law_started_is_found(requests, payload);
}

/// What a consumer is told of a response, of its end or of a failure is what the
/// message says, whether or not the request is known.
pub proof fn law_consumer_is_told_what_came(
    requests: Seq<CapturedRequestView>,
    payload: NetworkPayloadView,
)
    ensures
        payload matches NetworkPayloadView::ResponseReceived {
            request_id,
            status,
            status_text,
            headers,
            mime_type,
        } ==> (noting(requests, payload).1 matches Some(NetworkEventView::ResponseReceived {
            request_id: id,
            status: code,
            status_text: text,
            headers: hs,
            mime_type: mime,
        }) && id == request_id && code == status && text == status_text && hs == headers && mime
            == mime_type),
        payload matches NetworkPayloadView::LoadingFinished { request_id, encoded_data_length } ==> (
        noting(requests, payload).1 matches Some(NetworkEventView::RequestCompleted {
            request_id: id,
            encoded_data_length: length,
        }) && id == request_id && length == encoded_data_length),
        payload matches NetworkPayloadView::LoadingFailed { request_id, error_text, canceled } ==> (
        noting(requests, payload).1 matches Some(NetworkEventView::RequestFailed {
            request_id: id,
            error_text: text,
            canceled: given_up,
        }) && id == request_id && text == error_text && (given_up <==> canceled == Some(true))),
{
}

/// What is told waits behind what was told before, unless 256 events wait already.
pub proof fn law_told_event_waits_last(w: NetworkWatcherView, payload: NetworkPayloadView)
    ensures
        processing(w, payload).requests == noting(w.requests, payload).0,
        noting(w.requests, payload).1 matches Some(event) ==> if w.events.len() < 256 {
            &&& processing(w, payload).events.len() == w.events.len() + 1
            &&& processing(w, payload).events.last() == event
            &&& processing(w, payload).events.drop_last() == w.events
        } else {
            processing(w, payload).events == w.events
        },
        noting(w.requests, payload).1 is None ==> processing(w, payload).events == w.events,
{
    if let Some(event) = noting(w.requests, payload).1 {
        if w.events.len() < 256 {
            assert(processing(w, payload).events.drop_last() =~= w.events);
        }
    }
}

/// Where ten thousand requests are kept, a new one takes the place of the one that
/// was announced first.
pub proof fn law_oldest_request_gives_way(
    requests: Seq<CapturedRequestView>,
    payload: NetworkPayloadView,
)
    requires
        orderly(requests),
        requests.len() == 10_000,
        payload is RequestWillBeSent,
        request_with(requests, payload->RequestWillBeSent_request_id) is None,
    ensures
        request_with(noting(requests, payload).0, requests[0].request_id) is None,
        noting(requests, payload).0.len() == 10_000,
        forall|i: int|
            1 <= i < 10_000 ==> noting(requests, payload).0[i - 1] == #[trigger] requests[i],
{
    let after = noting(requests, payload).0;
    let id = payload->RequestWillBeSent_request_id;
    lemma_position_of(requests, id, 0);
    lemma_position_of(after, requests[0].request_id, 0);
    assert(requests[0].request_id != id);
    assert forall|k: int| 0 <= k < after.len() implies (#[trigger] after[k]).request_id
        != requests[0].request_id by {
        if k < 9_999 {
            assert(after[k] == requests[k + 1]);
        }
    }
}

/// What several messages do, one after the other, to the requests that are kept,
/// and what a consumer is told of each.
pub open spec fn noting_all(
    requests: Seq<CapturedRequestView>,
    payloads: Seq<NetworkPayloadView>,
) -> (Seq<CapturedRequestView>, Seq<Option<NetworkEventView>>)
    decreases payloads.len(),
{
    if payloads.len() == 0 {
        (requests, Seq::empty())
    } else {
        let (before, told) = noting_all(requests, payloads.drop_last());
        let (after, event) = noting(before, payloads.last());
        (after, told.push(event))
    }
}

/// The messages announce requests, no two of them under the same id, and none
/// under the id of one of `requests`.
pub open spec fn announce_new(
    requests: Seq<CapturedRequestView>,
    payloads: Seq<NetworkPayloadView>,
) -> bool {
    &&& forall|i: int| 0 <= i < payloads.len() ==> (#[trigger] payloads[i]) is RequestWillBeSent
    &&& forall|i: int|
        0 <= i < payloads.len() ==> request_with(requests, subject(#[trigger] payloads[i])) is None
    &&& forall|i: int, j: int|
        0 <= i < j < payloads.len() ==> subject(#[trigger] payloads[i]) != subject(
            #[trigger] payloads[j],
        )
}

/// As many new requests as there is room for are all kept, in order, each found
/// under its id, and a consumer is told of each.
pub proof fn law_new_requests_are_all_kept(
    requests: Seq<CapturedRequestView>,
    payloads: Seq<NetworkPayloadView>,
)
    requires
        orderly(requests),
        announce_new(requests, payloads),
        requests.len() + payloads.len() <= MAX_INFLIGHT_REQUESTS,
    ensures
        noting_all(requests, payloads).0 == requests + payloads.map_values(
            |p: NetworkPayloadView| started(p),
        ),
        noting_all(requests, payloads).0.len() == requests.len() + payloads.len(),
        orderly(noting_all(requests, payloads).0),
        noting_all(requests, payloads).1.len() == payloads.len(),
        forall|i: int|
            0 <= i < payloads.len() ==> {
                &&& request_with(
                    noting_all(requests, payloads).0,
                    subject(#[trigger] payloads[i]),
                ) == Some(started(payloads[i]))
                &&& noting_all(requests, payloads).1[i] == Some(
                    NetworkEventView::RequestStarted(started(payloads[i])),
                )
            },
    decreases payloads.len(),
{
    let f = |p: NetworkPayloadView| started(p);
    let all = requests + payloads.map_values(f);
    if payloads.len() == 0 {
        assert(all =~= requests);
    } else {
        let fewer = payloads.drop_last();
        let n = payloads.len() - 1;
        assert forall|i: int| 0 <= i < fewer.len() implies {
            &&& (#[trigger] fewer[i]) is RequestWillBeSent
            &&& request_with(requests, subject(fewer[i])) is None
        } by {
            assert(fewer[i] == payloads[i]);
        }
        assert forall|i: int, j: int| 0 <= i < j < fewer.len() implies subject(
            #[trigger] fewer[i],
        ) != subject(#[trigger] fewer[j]) by {
            assert(fewer[i] == payloads[i] && fewer[j] == payloads[j]);
        }
        law_new_requests_are_all_kept(requests, fewer);
        let before = noting_all(requests, fewer).0;
        let id = subject(payloads.last());
        lemma_position_of(requests, id, 0);
        lemma_position_of(before, id, 0);
        assert(request_with(requests, subject(payloads[n])) is None);
        assert forall|k: int| 0 <= k < before.len() implies (#[trigger] before[k]).request_id
            != id by {
            if k < requests.len() {
                assert(before[k] == requests[k]);
            } else {
                assert(before[k] == started(payloads[k - requests.len()]));
                assert(subject(payloads[k - requests.len()]) != subject(payloads[n]));
            }
        }
        assert(all =~= before.push(started(payloads.last())));
        let after = noting_all(requests, payloads).0;
        assert(after == all);
        assert forall|i: int, j: int| 0 <= i < j < after.len() implies (
        #[trigger] after[i]).request_id != (#[trigger] after[j]).request_id by {
            assert(after[i] == before[i]);
            if j < before.len() {
                assert(after[j] == before[j]);
            }
        }
        assert forall|i: int| 0 <= i < payloads.len() implies {
            &&& request_with(after, subject(#[trigger] payloads[i])) == Some(started(payloads[i]))
            &&& noting_all(requests, payloads).1[i] == Some(
                NetworkEventView::RequestStarted(started(payloads[i])),
            )
        } by {
            lemma_found_at(after, requests.len() + i);
            assert(after[requests.len() + i] == started(payloads[i]));
            if i < n {
                assert(fewer[i] == payloads[i]);
            }
        }
    }
}

/// What several messages do to a watcher, one after the other.
pub open spec fn processing_all(
    w: NetworkWatcherView,
    payloads: Seq<NetworkPayloadView>,
) -> NetworkWatcherView
    decreases payloads.len(),
{
    if payloads.len() == 0 {
        w
    } else {
        processing(processing_all(w, payloads.drop_last()), payloads.last())
    }
}

/// While nobody fetches anything, the first events wait in the order in which they
/// came, as many as can, and later ones are dropped; the requests are kept all the
/// same.
pub proof fn law_first_events_wait_in_order(
    w: NetworkWatcherView,
    payloads: Seq<NetworkPayloadView>,
)
    requires
        orderly(w.requests),
        w.events.len() == 0,
        announce_new(w.requests, payloads),
        w.requests.len() + payloads.len() <= MAX_INFLIGHT_REQUESTS,
    ensures
        processing_all(w, payloads).requests == w.requests + payloads.map_values(
            |p: NetworkPayloadView| started(p),
        ),
        processing_all(w, payloads).events.len() == (if payloads.len() <= EVENT_QUEUE {
            payloads.len()
        } else {
            EVENT_QUEUE as nat
        }),
        forall|i: int|
            0 <= i < processing_all(w, payloads).events.len() ==> (#[trigger] processing_all(
                w,
                payloads,
            ).events[i]) == NetworkEventView::RequestStarted(started(payloads[i])),
    decreases payloads.len(),
{
    law_new_requests_are_all_kept(w.requests, payloads);
    if payloads.len() > 0 {
        let fewer = payloads.drop_last();
        let n = payloads.len() - 1;
        assert forall|i: int| 0 <= i < fewer.len() implies {
            &&& (#[trigger] fewer[i]) is RequestWillBeSent
            &&& request_with(w.requests, subject(fewer[i])) is None
        } by {
            assert(fewer[i] == payloads[i]);
        }
        assert forall|i: int, j: int| 0 <= i < j < fewer.len() implies subject(
            #[trigger] fewer[i],
        ) != subject(#[trigger] fewer[j]) by {
            assert(fewer[i] == payloads[i] && fewer[j] == payloads[j]);
        }
        law_first_events_wait_in_order(w, fewer);
        law_new_requests_are_all_kept(w.requests, fewer);
        let before = processing_all(w, fewer);
        assert(before.requests == noting_all(w.requests, fewer).0);
        assert(noting(before.requests, payloads.last()).1 == noting_all(
            w.requests,
            payloads,
        ).1[n]);
        assert(payloads[n] == payloads.last());
        assert(noting_all(w.requests, payloads).1[n] == Some(
            NetworkEventView::RequestStarted(started(payloads[n])),
        ));
        let after = processing_all(w, payloads);
        assert forall|i: int| 0 <= i < after.events.len() implies (#[trigger] after.events[i])
            == NetworkEventView::RequestStarted(started(payloads[i])) by {
            if i < before.events.len() {
                assert(after.events[i] == before.events[i]);
                assert(fewer[i] == payloads[i]);
            }
        }
    } else {
        assert(w.requests + payloads.map_values(|p: NetworkPayloadView| started(p))
            =~= w.requests);
    }
}

/// A finished request is still found, complete and otherwise as it was.
pub proof fn law_completed_is_retained(
    requests: Seq<CapturedRequestView>,
    id: Seq<char>,
    encoded_data_length: i64,
)
    requires
        request_with(requests, id) is Some,
    ensures
        ({
            let after = noting(
                requests,
                NetworkPayloadView::LoadingFinished { request_id: id, encoded_data_length },
            ).0;
            request_with(after, id) == Some(
                CapturedRequestView { complete: true, ..request_with(requests, id)->0 },
            )
        }),
{
    let payload = NetworkPayloadView::LoadingFinished { request_id: id, encoded_data_length };
    let after = noting(requests, payload).0;
    lemma_position_of(requests, id, 0);
    lemma_same_positions(requests, after, id, 0);
}

/// A response is noted with its request.
pub proof fn law_response_is_noted(
    requests: Seq<CapturedRequestView>,
    payload: NetworkPayloadView,
)
    requires
        payload is ResponseReceived,
        request_with(requests, subject(payload)) is Some,
    ensures
        request_with(noting(requests, payload).0, subject(payload)) == Some(
            CapturedRequestView {
                status: Some(payload->status),
                status_text: Some(payload->status_text),
                response_headers: Some(payload->ResponseReceived_headers),
                mime_type: payload->mime_type,
                ..request_with(requests, subject(payload))->0
            },
        ),
{
    let after = noting(requests, payload).0;
    lemma_position_of(requests, subject(payload), 0);
    lemma_same_positions(requests, after, subject(payload), 0);
}

/// A failed request is not found any more.
pub proof fn law_failed_is_forgotten(
    requests: Seq<CapturedRequestView>,
    payload: NetworkPayloadView,
)
    requires
        orderly(requests),
        payload is LoadingFailed,
    ensures
        request_with(noting(requests, payload).0, subject(payload)) is None,
{
    let after = noting(requests, payload).0;
    let id = subject(payload);
    lemma_position_of(requests, id, 0);
    lemma_position_of(after, id, 0);
    match position_of(requests, id, 0) {
        Some(i) => {
            assert forall|k: int| 0 <= k < after.len() implies (#[trigger] after[k]).request_id
                != id by {
                if k < i {
                    assert(after[k] == requests[k]);
                } else {
                    assert(after[k] == requests[k + 1]);
                }
            }
        },
        None => {},
    }
}

proof fn lemma_same_positions(
    a: Seq<CapturedRequestView>,
    b: Seq<CapturedRequestView>,
    id: Seq<char>,
    from: int,
)
    requires
        0 <= from,
        a.len() == b.len(),
        forall|k: int| 0 <= k < a.len() ==> (#[trigger] a[k]).request_id == b[k].request_id,
    ensures
        position_of(a, id, from) == position_of(b, id, from),
    decreases a.len() - from,
{
    if from < a.len() {
        assert(a[from].request_id == b[from].request_id);
        lemma_same_positions(a, b, id, from + 1);
    }
}

/// A message changes nothing about the requests that it is not about, but that a
/// new request may take the oldest one's place.
pub proof fn law_others_are_left_alone(
    requests: Seq<CapturedRequestView>,
    payload: NetworkPayloadView,
    other: Seq<char>,
)
    requires
        orderly(requests),
        other != subject(payload),
        payload is RequestWillBeSent && request_with(requests, subject(payload)) is None
            && requests.len() >= MAX_INFLIGHT_REQUESTS ==> requests[0].request_id != other,
    ensures
        request_with(noting(requests, payload).0, other) == request_with(requests, other),
{
    let after = noting(requests, payload).0;
    let id = subject(payload);
    lemma_position_of(requests, other, 0);
    lemma_position_of(after, other, 0);
    lemma_position_of(requests, id, 0);
    match payload {
        NetworkPayloadView::ResponseReceived { .. } | NetworkPayloadView::LoadingFinished {
            ..
        } => {
            lemma_same_positions(requests, after, other, 0);
        },
        NetworkPayloadView::LoadingFailed { .. } => {
            if let Some(i) = position_of(requests, id, 0) {
                lemma_orderly_remove(requests, i);
                match position_of(requests, other, 0) {
                    Some(j) => {
                        let k = if j < i {
                            j
                        } else {
                            j - 1
                        };
                        assert(after[k] == requests[j]);
                        lemma_found_at(after, k);
                    },
                    None => {
                        if position_of(after, other, 0) is Some {
                            let k = position_of(after, other, 0)->0;
                            let j = if k < i {
                                k
                            } else {
                                k + 1
                            };
                            assert(after[k] == requests[j]);
                        }
                    },
                }
            }
        },
        NetworkPayloadView::RequestWillBeSent { .. } => {
            if position_of(requests, id, 0) is None {
                let shift: int = if requests.len() >= MAX_INFLIGHT_REQUESTS {
                    1
                } else {
                    0
                };
                assert(after.last().request_id == id);
                assert forall|k: int| 0 <= k < after.len() - 1 implies #[trigger] after[k]
                    == requests[k + shift] by {}
                match position_of(requests, other, 0) {
                    Some(j) => {
                        let k = j - shift;
                        assert(after[k] == requests[j]);
                        let at = position_of(after, other, 0)->0;
                        assert(after[at] == requests[at + shift]);
                        lemma_found_at(requests, at + shift);
                    },
                    None => {
                        if position_of(after, other, 0) is Some {
                            let k = position_of(after, other, 0)->0;
                            assert(after[k] == requests[k + shift]);
                        }
                    },
                }
            }
        },
    }
}

/// The browser's names for its messages about requests.
pub proof fn law_event_names(method: Seq<char>)
    ensures
        kind_named(method) == Some(NetworkKind::RequestWillBeSent) <==> method
            == "Network.requestWillBeSent"@,
        kind_named(method) == Some(NetworkKind::ResponseReceived) <==> method
            == "Network.responseReceived"@,
        kind_named(method) == Some(NetworkKind::LoadingFinished) <==> method
            == "Network.loadingFinished"@,
        kind_named(method) == Some(NetworkKind::LoadingFailed) <==> method
            == "Network.loadingFailed"@,
{
    reveal_strlit("Network.requestWillBeSent");
    reveal_strlit("Network.responseReceived");
    reveal_strlit("Network.loadingFinished");
    reveal_strlit("Network.loadingFailed");
    assert("Network.requestWillBeSent"@.len() == 25);
    assert("Network.responseReceived"@.len() == 24);
    assert("Network.loadingFinished"@.len() == 23);
    assert("Network.loadingFailed"@.len() == 21);
}

} // verus!
