//! Priority-ordered, concurrency-bounded network dispatch.
//!
//! Jobs are queued with a caller-assigned priority — the smallest value is
//! served first — and a counting permit pool bounds how many are in flight.
//! The host performs the actual transport call and hands the outcome back as
//! plain values; everything that decides — which job leaves the queue, how a
//! body is decoded, which failures are transport failures and which are
//! value-level decode errors — is verified here. An optional inspection tap
//! records request and response events without ever failing a job.

use vstd::prelude::*;

use vstd::string::{StrSliceExecFns, StringExecFns};

verus! {

/// Request method, carried as a closed set of plain tags.
#[derive(Clone, Copy, PartialEq, Eq, Debug, Structural)]
pub enum HttpMethod {
    Get,
    Post,
    Put,
    Delete,
    Patch,
    Head,
    Options,
}

/// How the response body is to be decoded.
#[derive(Clone, Debug)]
pub enum ResponseType {
    AsString,
    AsBytes,
    ToFile(String),
    AsJson,
}

/// One request descriptor, as handed in by a caller.
#[derive(Debug)]
pub struct RequestOption {
    pub id: u32,
    pub url: String,
    pub method: HttpMethod,
    pub body: Option<Vec<u8>>,
    pub headers: Option<Vec<(String, String)>>,
    pub timeout_ms: Option<u64>,
    pub response_type: ResponseType,
}

/// A body that is not one valid structured-data document, kept as a value
/// inside an otherwise successful response.
#[derive(Clone, Copy, PartialEq, Eq, Debug, Structural)]
pub struct JsonDecodeError;

/// Decoded response payload, one variant per decoding mode.
#[derive(Debug)]
pub enum ResponseEnum {
    String(String),
    Bytes(Vec<u8>),
    ToFile(String),
    Json(Result<serde_json::Value, JsonDecodeError>),
}

/// A completed request: the originating descriptor, status, headers when
/// captured, and the decoded payload.
#[derive(Debug)]
pub struct RequestResponse {
    pub request_option: RequestOption,
    pub status_code: u16,
    pub headers: Option<Vec<(String, String)>>,
    pub response_data: ResponseEnum,
}

/// A transport failure: carries the originating job's identity.
#[derive(Debug)]
pub struct RequestResponseError {
    pub id: u32,
    pub error_message: String,
}

#[verifier::external_type_specification]
#[verifier::external_body]
pub struct ExJsonValue(serde_json::Value);

#[verifier::external_type_specification]
#[verifier::external_body]
pub struct ExJsonError(serde_json::Error);

/// Whether a text is one valid structured-data document.
pub uninterp spec fn json_document(s: Seq<char>) -> bool;

/// Relies on serde_json::from_str: whether the parse succeeds, and what it
/// yields, depend on the characters alone.
#[verifier::external_body]
fn parse_json(s: &str) -> (r: Result<serde_json::Value, serde_json::Error>)
    ensures
        r is Ok <==> json_document(s@),
{
    serde_json::from_str::<serde_json::Value>(s)
}

/// Relies on serde_json::Value's Display: writes the value as compact
/// structured-data text, never failing; every such text has at least one
/// character. Used only for the inspection tap's body preview.
#[verifier::external_body]
fn json_value_text(v: &serde_json::Value) -> (r: String)
    ensures
        r@.len() >= 1,
{
    v.to_string()
}

/// Default per-job timeout, in milliseconds, when the caller gives none.
pub const DEFAULT_TIMEOUT_MS: u64 = 60000;

/// The timeout the transport call runs under.
pub fn effective_timeout_ms(opt: &RequestOption) -> (r: u64)
    ensures
        r == match opt.timeout_ms {
            Some(t) => t,
            None => DEFAULT_TIMEOUT_MS,
        },
{
    match opt.timeout_ms {
        Some(t) => t,
        None => DEFAULT_TIMEOUT_MS,
    }
}

/// One queued job: the descriptor, its priority (smaller is served first),
/// an optional inspection correlation identity, and the caller's single-use
/// reply slot `T`, which travels with the job so whichever dispatch attempt
/// pops it can resolve exactly this job's reply.
#[derive(Debug)]
pub struct QueueRequest<T> {
    pub priority: usize,
    pub inspect_id: Option<u64>,
    pub token: T,
    pub request_option: RequestOption,
}

impl<T> QueueRequest<T> {
    /// Whether the transport call for this job captures header and status
    /// metadata: exactly when the job carries an inspection identity, to
    /// avoid the allocation otherwise.
    pub fn wants_header_capture(&self) -> (r: bool)
        ensures
            r == self.inspect_id is Some,
    {
        self.inspect_id.is_some()
    }
}

/// Index of the job served next: the first occurrence of the smallest
/// priority value.
pub open spec fn min_index<T>(s: Seq<QueueRequest<T>>) -> int
    recommends
        s.len() > 0,
    decreases s.len(),
{
    if s.len() <= 1 {
        0
    } else {
        let m = min_index(s.drop_last());
        if s.last().priority < s[m].priority {
            s.len() - 1
        } else {
            m
        }
    }
}

/// `min_index` lands on the first job with the smallest priority.
pub proof fn lemma_min_index<T>(s: Seq<QueueRequest<T>>)
    requires
        s.len() > 0,
    ensures
        0 <= min_index(s) < s.len(),
        forall|i: int| 0 <= i < s.len() ==> s[min_index(s)].priority <= (#[trigger] s[i]).priority,
        forall|i: int| 0 <= i < min_index(s) ==> s[min_index(s)].priority < (#[trigger] s[i]).priority,
    decreases s.len(),
{
    if s.len() > 1 {
        lemma_min_index(s.drop_last());
        assert(forall|i: int| 0 <= i < s.len() - 1 ==> s.drop_last()[i] == s[i]);
    }
}

/// Dispatch state shared by all callers of one dispatcher: the priority
/// queue, the permit pool and the inspection tap's switch and counter.
///
/// Priority ordering is a strict guarantee only when the permit pool is
/// bounded at one. At higher bounds several dispatch attempts race to pop,
/// so ordering across jobs in flight is best-effort by design.
pub struct DispatcherCore<T> {
    queue: Vec<QueueRequest<T>>,
    permits_available: usize,
    max_parallel: usize,
    inspect_enabled: bool,
    next_inspect_id: u64,
}

/// "Request observed" inspection event, recorded at submission when the tap
/// is enabled: the whole request as the caller described it.
#[derive(Debug)]
pub struct InspectRequestEvent {
    pub id: u64,
    pub requester: String,
    pub url: String,
    pub method: HttpMethod,
    pub body: Option<Vec<u8>>,
    pub headers: Option<Vec<(String, String)>>,
}

/// Response-side inspection payload: status and whatever headers were
/// captured.
#[derive(Debug)]
pub struct InspectResponsePayload {
    pub status_code: u16,
    pub headers: Option<Vec<(String, String)>>,
}

/// "Response observed" inspection event: the payload and a bounded preview
/// of the decoded body on success, or the failure message.
#[derive(Debug)]
pub struct InspectResponseEvent {
    pub id: u64,
    pub outcome: Result<(InspectResponsePayload, Option<String>), String>,
}

impl<T> DispatcherCore<T> {
    /// The queued jobs, submission order.
    pub closed spec fn queue_seq(self) -> Seq<QueueRequest<T>> {
        self.queue@
    }

    /// Permits still available for new dispatch attempts.
    pub closed spec fn permits(self) -> nat {
        self.permits_available as nat
    }

    /// The configured concurrency bound.
    pub closed spec fn capacity(self) -> nat {
        self.max_parallel as nat
    }

    /// Whether the inspection tap records events.
    pub closed spec fn inspecting(self) -> bool {
        self.inspect_enabled
    }

    /// Correlation identity the next inspected request will carry.
    pub closed spec fn inspect_counter(self) -> u64 {
        self.next_inspect_id
    }

    /// At most `capacity` jobs in flight: permits never exceed the bound.
    pub closed spec fn inv(self) -> bool {
        self.permits_available <= self.max_parallel
    }

    pub fn new(max_parallel_requests: usize, inspect_enabled: bool) -> (r: DispatcherCore<T>)
        ensures
            r.inv(),
            r.queue_seq() == Seq::<QueueRequest<T>>::empty(),
            r.permits() == max_parallel_requests as nat,
            r.capacity() == max_parallel_requests as nat,
            r.inspecting() == inspect_enabled,
            r.inspect_counter() == 0,
    {
        let r = DispatcherCore {
            queue: Vec::new(),
            permits_available: max_parallel_requests,
            max_parallel: max_parallel_requests,
            inspect_enabled,
            next_inspect_id: 0,
        };
        proof {
            assert(r.queue@ =~= Seq::<QueueRequest<T>>::empty());
        }
        r
    }

    /// Queues one job together with its caller's reply slot and, when the
    /// tap is enabled, yields the "request observed" event — the whole
    /// request as described — for the host to deliver best-effort. Whether
    /// the tap is on changes nothing about the job itself.
    pub fn submit(&mut self, request_option: RequestOption, priority: usize, token: T) -> (ev:
        Option<InspectRequestEvent>)
        requires
            old(self).inv(),
        ensures
            final(self).inv(),
            final(self).permits() == old(self).permits(),
            final(self).capacity() == old(self).capacity(),
            final(self).inspecting() == old(self).inspecting(),
            ev is Some <==> old(self).inspecting(),
            match ev {
                Some(e) => {
                    &&& e.id == old(self).inspect_counter()
                    &&& e.requester@ == "global"@
                    &&& e.url@ == request_option.url@
                    &&& e.method == request_option.method
                    &&& match request_option.body {
                        Some(b) => e.body is Some && e.body.unwrap()@ == b@,
                        None => e.body is None,
                    }
                    &&& match request_option.headers {
                        Some(h) => e.headers is Some && e.headers.unwrap().deep_view()
                            == h.deep_view(),
                        None => e.headers is None,
                    }
                    &&& final(self).queue_seq() == old(self).queue_seq().push(
                        (QueueRequest {
                            priority,
                            inspect_id: Some(e.id),
                            token,
                            request_option,
                        }),
                    )
                    &&& final(self).inspect_counter() == (if old(self).inspect_counter()
                        < u64::MAX {
                        old(self).inspect_counter() + 1
                    } else {
                        old(self).inspect_counter() as int
                    })
                },
                None => {
                    &&& final(self).queue_seq() == old(self).queue_seq().push(
                        (QueueRequest { priority, inspect_id: None, token, request_option }),
                    )
                    &&& final(self).inspect_counter() == old(self).inspect_counter()
                },
            },
    {
        if self.inspect_enabled {
            let id = self.next_inspect_id;
            if self.next_inspect_id < u64::MAX {
                self.next_inspect_id = self.next_inspect_id + 1;
            }
            let body = match &request_option.body {
                Some(b) => Some(clone_bytes(b)),
                None => None,
            };
            let headers = match &request_option.headers {
                Some(h) => Some(clone_headers(h)),
                None => None,
            };
            let ev = InspectRequestEvent {
                id,
                requester: String::from_str("global"),
                url: clone_string(&request_option.url),
                method: request_option.method,
                body,
                headers,
            };
            self.queue.push(QueueRequest { priority, inspect_id: Some(id), token, request_option });
            Some(ev)
        } else {
            self.queue.push(QueueRequest { priority, inspect_id: None, token, request_option });
            None
        }
    }

    /// Takes one permit if any is free; a dispatch attempt may pop only
    /// after this succeeds.
    pub fn try_acquire_permit(&mut self) -> (r: bool)
        requires
            old(self).inv(),
        ensures
            final(self).inv(),
            final(self).queue_seq() == old(self).queue_seq(),
            final(self).capacity() == old(self).capacity(),
            final(self).inspecting() == old(self).inspecting(),
            final(self).inspect_counter() == old(self).inspect_counter(),
            r <==> old(self).permits() > 0,
            final(self).permits() == (if old(self).permits() > 0 {
                (old(self).permits() - 1) as nat
            } else {
                old(self).permits()
            }),
    {
        if self.permits_available > 0 {
            self.permits_available = self.permits_available - 1;
            true
        } else {
            false
        }
    }

    /// Returns one permit after a dispatch attempt finished.
    pub fn release_permit(&mut self)
        requires
            old(self).inv(),
            old(self).permits() < old(self).capacity(),
        ensures
            final(self).inv(),
            final(self).queue_seq() == old(self).queue_seq(),
            final(self).capacity() == old(self).capacity(),
            final(self).inspecting() == old(self).inspecting(),
            final(self).inspect_counter() == old(self).inspect_counter(),
            final(self).permits() == old(self).permits() + 1,
    {
        self.permits_available = self.permits_available + 1;
    }

    /// Removes and returns the job served next: the first job carrying the
    /// smallest priority value, which need not be the one whose submission
    /// triggered this dispatch attempt.
    pub fn pop_highest_priority(&mut self) -> (r: Option<QueueRequest<T>>)
        requires
            old(self).inv(),
        ensures
            final(self).inv(),
            final(self).permits() == old(self).permits(),
            final(self).capacity() == old(self).capacity(),
            final(self).inspecting() == old(self).inspecting(),
            final(self).inspect_counter() == old(self).inspect_counter(),
            r is None <==> old(self).queue_seq().len() == 0,
            r is None ==> final(self).queue_seq() == old(self).queue_seq(),
            r is Some ==> {
                let k = min_index(old(self).queue_seq());
                &&& r == Some(old(self).queue_seq()[k])
                &&& final(self).queue_seq() == old(self).queue_seq().remove(k)
                &&& forall|i: int|
                    0 <= i < old(self).queue_seq().len() ==> r.unwrap().priority <= (
                    #[trigger] old(self).queue_seq()[i]).priority
            },
    {
        let ghost s = self.queue@;
        let n = self.queue.len();
        if n == 0 {
            return None;
        }
        let mut best: usize = 0;
        let mut i: usize = 1;
        proof {
            assert(s.take(1) =~= seq![s[0]]);
        }
        while i < n
            invariant
                s == self.queue@,
                n == s.len(),
                1 <= i <= n,
                best < i,
                best as int == min_index(s.take(i as int)),
            decreases n - i,
        {
            proof {
                assert(s.take(i as int + 1).drop_last() =~= s.take(i as int));
                assert(s.take(i as int + 1).last() == s[i as int]);
                lemma_min_index(s.take(i as int));
            }
            if self.queue[i].priority < self.queue[best].priority {
                best = i;
            }
            i += 1;
        }
        proof {
            assert(s.take(n as int) =~= s);
            lemma_min_index(s);
        }
        let job = self.queue.remove(best);
        Some(job)
    }
}

/// A fetched body, as the transport hands it over: text for the textual
/// decoding modes, raw bytes otherwise.
#[derive(Debug)]
pub enum TransportBody {
    Text(String),
    Bytes(Vec<u8>),
}

/// Maps a transport or timeout failure onto the typed error that carries the
/// originating job's identity. Nothing is retried at this layer.
pub fn transport_failure(id: u32, error_message: String) -> (r: RequestResponseError)
    ensures
        r.id == id,
        r.error_message == error_message,
{
    RequestResponseError { id, error_message }
}

/// Decodes a fetched body under the job's response mode and assembles the
/// completed response.
///
/// A body that is not one valid structured-data document is captured as a
/// value-level `JsonDecodeError` inside an otherwise successful result —
/// distinct from a transport failure. A failed write in stream-to-file mode
/// surfaces like a transport failure, so no partially written destination is
/// ever referenced as success; a successful write yields the destination
/// path as the success value.
pub fn assemble_response(
    request_option: RequestOption,
    status_code: u16,
    headers: Option<Vec<(String, String)>>,
    body: TransportBody,
    file_write: Option<Result<(), String>>,
) -> (r: Result<RequestResponse, RequestResponseError>)
    requires
        request_option.response_type is AsString ==> body is Text,
        request_option.response_type is AsJson ==> body is Text,
        request_option.response_type is AsBytes ==> body is Bytes,
        request_option.response_type is ToFile ==> file_write is Some,
    ensures
        r is Err <==> (request_option.response_type is ToFile && file_write is Some
            && file_write.unwrap() is Err),
        r is Ok ==> {
            let resp = r.unwrap();
            &&& resp.status_code == status_code
            &&& resp.headers == headers
            &&& resp.request_option == request_option
            &&& match request_option.response_type {
                ResponseType::AsString => resp.response_data == (ResponseEnum::String(
                    body->Text_0,
                )),
                ResponseType::AsBytes => resp.response_data == (ResponseEnum::Bytes(
                    body->Bytes_0,
                )),
                ResponseType::ToFile(_) => resp.response_data is ToFile
                    && resp.response_data->ToFile_0@ == request_option.response_type->ToFile_0@,
                ResponseType::AsJson => resp.response_data is Json && (
                resp.response_data->Json_0 is Ok <==> json_document(body->Text_0@)),
            }
        },
        r is Err ==> {
            &&& r->Err_0.id == request_option.id
            &&& r->Err_0.error_message == file_write.unwrap()->Err_0
        },
{
    let response_data: ResponseEnum = match &request_option.response_type {
        ResponseType::AsString => match body {
            TransportBody::Text(t) => ResponseEnum::String(t),
            TransportBody::Bytes(b) => {
                proof {
                    assert(false);
                }
                ResponseEnum::Bytes(b)
            },
        },
        ResponseType::AsBytes => match body {
            TransportBody::Bytes(b) => ResponseEnum::Bytes(b),
            TransportBody::Text(t) => {
                proof {
                    assert(false);
                }
                ResponseEnum::String(t)
            },
        },
        ResponseType::ToFile(path) => match file_write {
            Some(Ok(())) => ResponseEnum::ToFile(clone_string(path)),
            Some(Err(error_message)) => {
                return Err(RequestResponseError { id: request_option.id, error_message });
            },
            None => {
                proof {
                    assert(false);
                }
                ResponseEnum::ToFile(clone_string(path))
            },
        },
        ResponseType::AsJson => match body {
            TransportBody::Text(t) => ResponseEnum::Json(
                match parse_json(t.as_str()) {
                    Ok(v) => Ok(v),
                    Err(_) => Err(JsonDecodeError),
                },
            ),
            TransportBody::Bytes(b) => {
                proof {
                    assert(false);
                }
                ResponseEnum::Bytes(b)
            },
        },
    };
    Ok(RequestResponse { request_option, status_code, headers, response_data })
}

/// Longest body preview an inspection event carries.
pub const PREVIEW_CHARS: usize = 10240;

/// A body preview, cut to the first `PREVIEW_CHARS` characters.
pub open spec fn preview_of(s: Seq<char>) -> Seq<char> {
    if s.len() <= PREVIEW_CHARS {
        s
    } else {
        s.take(PREVIEW_CHARS as int)
    }
}

/// Cuts a body to its inspection preview.
fn preview(s: &String) -> (r: String)
    ensures
        r@ == preview_of(s@),
{
    let n = s.as_str().unicode_len();
    if n <= PREVIEW_CHARS {
        clone_string(s)
    } else {
        let cut = s.as_str().substring_char(0, PREVIEW_CHARS);
        proof {
            assert(s@.subrange(0, PREVIEW_CHARS as int) =~= s@.take(PREVIEW_CHARS as int));
        }
        String::from_str(cut)
    }
}

/// Builds the "response observed" inspection event for a finished job: the
/// status and captured headers plus a bounded preview of a textual body,
/// of a decoded structured value's text, or the destination path — or the
/// failure message. Delivery is the host's, best-effort: a lost event never
/// fails the job.
pub fn build_inspect_response(
    id: u64,
    outcome: &Result<RequestResponse, RequestResponseError>,
) -> (ev: InspectResponseEvent)
    ensures
        ev.id == id,
        match outcome {
            Ok(resp) => {
                &&& ev.outcome is Ok
                &&& ev.outcome->Ok_0.0.status_code == resp.status_code
                &&& match resp.headers {
                    Some(h) => ev.outcome->Ok_0.0.headers is Some
                        && ev.outcome->Ok_0.0.headers.unwrap().deep_view() == h.deep_view(),
                    None => ev.outcome->Ok_0.0.headers is None,
                }
                &&& match resp.response_data {
                    ResponseEnum::String(s) => ev.outcome->Ok_0.1 is Some && ev.outcome
                        ->Ok_0.1.unwrap()@ == preview_of(s@),
                    ResponseEnum::ToFile(p) => ev.outcome->Ok_0.1 is Some && ev.outcome
                        ->Ok_0.1.unwrap()@ == p@,
                    ResponseEnum::Json(embedded) => if embedded is Ok {
                        ev.outcome->Ok_0.1 is Some && 1 <= ev.outcome->Ok_0.1.unwrap()@.len()
                            <= PREVIEW_CHARS
                    } else {
                        ev.outcome->Ok_0.1 is None
                    },
                    _ => ev.outcome->Ok_0.1 is None,
                }
            },
            Err(e) => ev.outcome is Err && ev.outcome->Err_0@ == e.error_message@,
        },
{
    match outcome {
        Ok(resp) => {
            let headers = match &resp.headers {
                Some(h) => Some(clone_headers(h)),
                None => None,
            };
            let data = match &resp.response_data {
                ResponseEnum::String(s) => Some(preview(s)),
                ResponseEnum::ToFile(p) => Some(clone_string(p)),
                ResponseEnum::Json(Ok(value)) => Some(preview(&json_value_text(value))),
                _ => None,
            };
            InspectResponseEvent {
                id,
                outcome: Ok((InspectResponsePayload { status_code: resp.status_code, headers }, data)),
            }
        },
        Err(e) => InspectResponseEvent { id, outcome: Err(clone_string(&e.error_message)) },
    }
}

/// Copies a byte payload.
fn clone_bytes(v: &Vec<u8>) -> (r: Vec<u8>)
    ensures
        r@ == v@,
{
    let r = v.clone();
    proof {
        assert(r@ =~= v@);
    }
    r
}

/// Copies a string value.
fn clone_string(s: &String) -> (r: String)
    ensures
        r@ == s@,
{
    s.clone()
}

/// Copies a header list.
fn clone_headers(h: &Vec<(String, String)>) -> (r: Vec<(String, String)>)
    ensures
        r.deep_view() == h.deep_view(),
{
    let mut r: Vec<(String, String)> = Vec::new();
    let n = h.len();
    let mut i: usize = 0;
    while i < n
        invariant
            n == h@.len(),
            i <= n,
            r@.len() == i,
            forall|j: int|
                0 <= j < i ==> (#[trigger] r.deep_view()[j]) == h.deep_view()[j],
        decreases n - i,
    {
        let ghost r_pre = r.deep_view();
        let name = clone_string(&h[i].0);
        let value = clone_string(&h[i].1);
        r.push((name, value));
        proof {
            assert(forall|j: int| 0 <= j < i ==> (#[trigger] r.deep_view()[j]) == r_pre[j]);
            assert(r.deep_view()[i as int] =~= h.deep_view()[i as int]);
        }
        i += 1;
    }
    proof {
        assert(r.deep_view() =~= h.deep_view());
    }
    r
}

} // verus!
