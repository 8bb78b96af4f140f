//! Http client requests: what a request asks, how a transfer is set up for
//! it, which queued requests a round starts, and what a finished transfer
//! makes of the response.

use vstd::prelude::*;
use std::collections::VecDeque;

verus! {

/// Most requests that one round of the client starts, less one: a round
/// starts up to `MAX_REQUESTS + 1` of them.
pub const MAX_REQUESTS: usize = 100;

/// Transfer timeout in seconds.
pub const TIMEOUT_SECS: u64 = 30;

/// Connect timeout in seconds.
pub const CONNECT_TIMEOUT_SECS: u64 = 10;

/// The method of a request.
#[derive(Debug, PartialEq, Eq, Structural, Copy, Clone)]
pub enum HttpRequestType {
    GET,
    POST,
    PUT,
    DEL,
    UNKNOWN,
}

/// A request: method, target url, body (for POST and PUT) and extra header
/// lines.
pub struct HttpRequest {
    pub request_type: HttpRequestType,
    pub url: String,
    pub data_opt: Option<String>,
    pub headers: Vec<String>,
}

/// The response of a request: status code, whether it succeeded, the body
/// and the header lines received.
pub struct HttpResponse {
    pub response_code: u32,
    pub succeed: bool,
    pub response_rawdata: String,
    pub response_headers: Vec<String>,
}

impl HttpResponse {
    /// A response with nothing received yet.
    pub fn new() -> (r: HttpResponse)
        ensures
            r.response_code == 0,
            !r.succeed,
            r.response_rawdata@ == Seq::<char>::empty(),
            r.response_headers@.len() == 0,
    {
        HttpResponse {
            response_code: 0,
            succeed: false,
            response_rawdata: String::new(),
            response_headers: Vec::new(),
        }
    }
}

/// A request together with its response.
pub struct HttpContext {
    pub request: HttpRequest,
    pub response: HttpResponse,
}

impl HttpContext {
    /// The context of `request`, with nothing received yet.
    pub fn new(request: HttpRequest) -> (r: HttpContext)
        ensures
            r.request == request,
            r.response.response_code == 0,
            !r.response.succeed,
            r.response.response_rawdata@ == Seq::<char>::empty(),
            r.response.response_headers@.len() == 0,
    {
        HttpContext { request, response: HttpResponse::new() }
    }
}

/// How a transfer is set up for a request: fixed timeouts and checks, the
/// header lines and url, then per method the verb, whether it is a form
/// post, whether redirects are followed, and the body to send.
pub struct CurlSettings {
    pub timeout_secs: u64,
    pub connect_timeout_secs: u64,
    pub ssl_verify_peer: bool,
    pub ssl_verify_host: bool,
    pub signal: bool,
    pub headers: Option<Vec<String>>,
    pub url: String,
    pub follow_location: Option<bool>,
    pub custom_request: Option<String>,
    pub post: Option<bool>,
    pub post_fields: Option<String>,
}

/// The verb that the settings send for a method; none for an unknown one.
pub open spec fn method_verb(t: HttpRequestType) -> Option<Seq<char>> {
    match t {
        HttpRequestType::GET => Some(seq!['G', 'E', 'T']),
        HttpRequestType::POST => Some(seq!['P', 'O', 'S', 'T']),
        HttpRequestType::PUT => Some(seq!['P', 'U', 'T']),
        HttpRequestType::DEL => Some(seq!['D', 'E', 'L', 'E', 'T', 'E']),
        HttpRequestType::UNKNOWN => None,
    }
}

/// The body that a request sends: its data for POST and PUT (empty when it
/// has none), nothing for the other methods.
pub open spec fn sent_body(req: HttpRequest) -> Option<Seq<char>> {
    match req.request_type {
        HttpRequestType::POST | HttpRequestType::PUT => Some(
            match req.data_opt {
                Some(d) => d@,
                None => Seq::empty(),
            },
        ),
        _ => None,
    }
}

/// Whether the transfer is a form post: yes for POST, no for the other
/// known methods, unset for an unknown one.
pub open spec fn post_flag(t: HttpRequestType) -> Option<bool> {
    match t {
        HttpRequestType::GET | HttpRequestType::PUT | HttpRequestType::DEL => Some(false),
        HttpRequestType::POST => Some(true),
        HttpRequestType::UNKNOWN => None,
    }
}

/// Whether redirects are followed: set for GET and DELETE only.
pub open spec fn follow_flag(t: HttpRequestType) -> Option<bool> {
    match t {
        HttpRequestType::GET | HttpRequestType::DEL => Some(true),
        _ => None,
    }
}

/// What a request sends per method: POST and PUT send the request's data
/// as the body (an empty body when it has none); GET, DELETE and an unknown
/// method send none. The verbs are `GET`, `POST`, `PUT` and `DELETE`; only
/// POST is a form post, an unknown method sets neither that nor a verb, and
/// only GET and DELETE follow redirects.
pub proof fn law_request_body_by_method(req: HttpRequest)
    ensures
        (req.request_type == HttpRequestType::POST || req.request_type == HttpRequestType::PUT)
            && req.data_opt is Some ==> sent_body(req) == Some(req.data_opt->0@),
        (req.request_type == HttpRequestType::POST || req.request_type == HttpRequestType::PUT)
            && req.data_opt is None ==> sent_body(req) == Some(Seq::<char>::empty()),
        req.request_type == HttpRequestType::GET || req.request_type == HttpRequestType::DEL
            || req.request_type == HttpRequestType::UNKNOWN ==> sent_body(req) is None,
        post_flag(req.request_type) == Some(true) <==> req.request_type == HttpRequestType::POST,
        post_flag(req.request_type) is None <==> req.request_type == HttpRequestType::UNKNOWN,
        req.request_type == HttpRequestType::GET ==> method_verb(req.request_type) == Some(
            seq!['G', 'E', 'T'],
        ),
        req.request_type == HttpRequestType::POST ==> method_verb(req.request_type) == Some(
            seq!['P', 'O', 'S', 'T'],
        ),
        req.request_type == HttpRequestType::PUT ==> method_verb(req.request_type) == Some(
            seq!['P', 'U', 'T'],
        ),
        req.request_type == HttpRequestType::DEL ==> method_verb(req.request_type) == Some(
            seq!['D', 'E', 'L', 'E', 'T', 'E'],
        ),
        req.request_type == HttpRequestType::UNKNOWN ==> method_verb(req.request_type) is None,
        follow_flag(req.request_type) == Some(true) <==> (req.request_type == HttpRequestType::GET
            || req.request_type == HttpRequestType::DEL),
        follow_flag(req.request_type) != Some(false),
{
}

fn verb_string(t: HttpRequestType) -> (r: Option<String>)
    ensures
        match r {
            Some(s) => method_verb(t) == Some(s@),
            None => (method_verb(t) is None),
        },
{
    match t {
        HttpRequestType::GET => {
            proof {
                reveal_strlit("GET");
            }
            Some(String::from_str("GET"))
        },
        HttpRequestType::POST => {
            proof {
                reveal_strlit("POST");
            }
            Some(String::from_str("POST"))
        },
        HttpRequestType::PUT => {
            proof {
                reveal_strlit("PUT");
            }
            Some(String::from_str("PUT"))
        },
        HttpRequestType::DEL => {
            proof {
                reveal_strlit("DELETE");
            }
            Some(String::from_str("DELETE"))
        },
        HttpRequestType::UNKNOWN => None,
    }
}

fn copy_strings(v: &Vec<String>) -> (r: Vec<String>)
    ensures
        r@.len() == v@.len(),
        forall|i: int| 0 <= i < v@.len() ==> (#[trigger] r@[i])@ == v@[i]@,
{
    let mut r: Vec<String> = Vec::new();
    let mut i: usize = 0;
    while i < v.len()
        invariant
            i <= v@.len(),
            r@.len() == i,
            forall|j: int| 0 <= j < i ==> (#[trigger] r@[j])@ == v@[j]@,
        decreases v.len() - i,
    {
        r.push(v[i].clone());
        i = i + 1;
    }
    r
}

/// The transfer settings for `req`.
pub fn curl_settings(req: &HttpRequest) -> (s: CurlSettings)
    ensures
        s.timeout_secs == TIMEOUT_SECS,
        s.connect_timeout_secs == CONNECT_TIMEOUT_SECS,
        s.ssl_verify_peer,
        s.ssl_verify_host,
        s.signal,
        match s.headers {
            Some(h) => req.headers@.len() > 0 && h@.len() == req.headers@.len() && forall|i: int|
                0 <= i < h@.len() ==> (#[trigger] h@[i])@ == req.headers@[i]@,
            None => req.headers@.len() == 0,
        },
        s.url@ == req.url@,
        match s.custom_request {
            Some(v) => method_verb(req.request_type) == Some(v@),
            None => (method_verb(req.request_type) is None),
        },
        s.post == post_flag(req.request_type),
        s.follow_location == follow_flag(req.request_type),
        match s.post_fields {
            Some(b) => sent_body(*req) == Some(b@),
            None => (sent_body(*req) is None),
        },
        (req.request_type == HttpRequestType::POST || req.request_type == HttpRequestType::PUT)
            ==> s.post_fields is Some,
        (req.request_type == HttpRequestType::POST || req.request_type == HttpRequestType::PUT)
            && req.data_opt is Some ==> s.post_fields->0@ == req.data_opt->0@,
        (req.request_type == HttpRequestType::POST || req.request_type == HttpRequestType::PUT)
            && req.data_opt is None ==> s.post_fields->0@.len() == 0,
        !(req.request_type == HttpRequestType::POST || req.request_type == HttpRequestType::PUT)
            ==> s.post_fields is None,
{
    let headers = if req.headers.len() > 0 {
        Some(copy_strings(&req.headers))
    } else {
        None
    };
    let body: Option<String> = match req.request_type {
        HttpRequestType::POST | HttpRequestType::PUT => match &req.data_opt {
            Some(d) => Some(d.clone()),
            None => Some(String::new()),
        },
        _ => None,
    };
    let post: Option<bool> = match req.request_type {
        HttpRequestType::GET | HttpRequestType::PUT | HttpRequestType::DEL => Some(false),
        HttpRequestType::POST => Some(true),
        HttpRequestType::UNKNOWN => None,
    };
    let follow: Option<bool> = match req.request_type {
        HttpRequestType::GET | HttpRequestType::DEL => Some(true),
        _ => None,
    };
    CurlSettings {
        timeout_secs: TIMEOUT_SECS,
        connect_timeout_secs: CONNECT_TIMEOUT_SECS,
        ssl_verify_peer: true,
        ssl_verify_host: true,
        signal: true,
        headers,
        url: req.url.clone(),
        follow_location: follow,
        custom_request: verb_string(req.request_type),
        post,
        post_fields: body,
    }
}

/// The queue of requests waiting for a transfer.
pub struct HttpClient {
    pub request_queue: VecDeque<HttpRequest>,
}

impl HttpClient {
    /// A client with no request waiting.
    pub fn new() -> (c: HttpClient)
        ensures
            c.request_queue@.len() == 0,
    {
        HttpClient { request_queue: VecDeque::new() }
    }

    /// Queues `req` behind the requests already waiting.
    pub fn send(&mut self, req: HttpRequest)
        ensures
            final(self).request_queue@ == old(self).request_queue@.push(req),
    {
        self.request_queue.push_back(req);
    }

    /// Takes the requests that one round starts: the first
    /// `MAX_REQUESTS + 1` waiting, in order.
    pub fn take_batch(&mut self) -> (batch: Vec<HttpRequest>)
        ensures
            batch@.len() == if old(self).request_queue@.len() <= MAX_REQUESTS + 1 {
                old(self).request_queue@.len() as int
            } else {
                MAX_REQUESTS + 1
            },
            batch@ == old(self).request_queue@.take(batch@.len() as int),
            final(self).request_queue@ == old(self).request_queue@.skip(batch@.len() as int),
    {
        let ghost q = self.request_queue@;
        let mut batch: Vec<HttpRequest> = Vec::new();
        let mut count: usize = 0;
        while count <= MAX_REQUESTS
            invariant
                count <= MAX_REQUESTS + 1,
                q == old(self).request_queue@,
                batch@.len() == count,
                count <= q.len(),
                batch@ == q.take(count as int),
                self.request_queue@ == q.skip(count as int),
            decreases MAX_REQUESTS + 1 - count,
        {
            match self.request_queue.pop_front() {
                Some(req) => {
                    batch.push(req);
                    count = count + 1;
                    assert(batch@ =~= q.take(count as int));
                    assert(self.request_queue@ =~= q.skip(count as int));
                },
                None => {
                    assert(q.skip(count as int).len() == 0);
                    return batch;
                },
            }
        }
        batch
    }
}

/// Records a finished transfer: a transfer that completed with status 200
/// sets the code and success, and its callback is to run (`true`); any
/// other outcome leaves the response as it was and runs nothing.
pub fn complete_transfer(ctx: &mut HttpContext, transfer_ok: bool, response_code: u32) -> (run_callback: bool)
    ensures
        run_callback == (transfer_ok && response_code == 200),
        run_callback ==> final(ctx).response.response_code == 200 && final(ctx).response.succeed,
        !run_callback ==> final(ctx).response.response_code == old(ctx).response.response_code
            && final(ctx).response.succeed == old(ctx).response.succeed,
        final(ctx).request == old(ctx).request,
        final(ctx).response.response_rawdata@ == old(ctx).response.response_rawdata@,
        final(ctx).response.response_headers@ == old(ctx).response.response_headers@,
{
    if transfer_ok && response_code == 200 {
        ctx.response.response_code = response_code;
        ctx.response.succeed = true;
        true
    } else {
        false
    }
}

/// Appends received body text to the response.
pub fn append_body(ctx: &mut HttpContext, data: &str)
    ensures
        final(ctx).response.response_rawdata@ == old(ctx).response.response_rawdata@ + data@,
        final(ctx).request == old(ctx).request,
        final(ctx).response.response_code == old(ctx).response.response_code,
        final(ctx).response.succeed == old(ctx).response.succeed,
        final(ctx).response.response_headers@ == old(ctx).response.response_headers@,
{
    ctx.response.response_rawdata.append(data);
}

/// Records a received header line.
pub fn append_header(ctx: &mut HttpContext, line: String)
    ensures
        final(ctx).response.response_headers@ == old(ctx).response.response_headers@.push(line),
        final(ctx).request == old(ctx).request,
        final(ctx).response.response_code == old(ctx).response.response_code,
        final(ctx).response.succeed == old(ctx).response.succeed,
        final(ctx).response.response_rawdata@ == old(ctx).response.response_rawdata@,
{
    ctx.response.response_headers.push(line);
}

} // verus!
