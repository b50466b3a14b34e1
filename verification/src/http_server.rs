//! The HTTP edge, as far as it decides anything: which routes exist, how an
//! inbound HTTP request becomes a gateway request, whether it is streamed,
//! and how a gateway response becomes an HTTP response.

use crate::grpc_server::DEFAULT_HOP_LIMIT;
use crate::message::{
    decode_headers, decoded_headers, is_stream_request, stream_flag, HeadersView, Request,
    RequestView, Response,
};
use crate::text::{concat, concat3, str_eq};
use crate::trusted::{
    header_name_ok, header_value_ok, is_header_name, is_header_value, json_bool_member,
};
use vstd::prelude::*;
use vstd::string::*;

verus! {

/// The methods the edge routes.
#[derive(Clone, Copy, Debug, PartialEq, Eq, Structural)]
pub enum HttpMethod {
    Get,
    Post,
}

/// The HTTP edge of a gateway.
#[derive(Debug)]
pub struct HttpServer {
    grpc_addr: String,
}

/// The method under which `path` is routed, if it is routed at all: `GET`
/// for the models and the info, `POST` for the five other endpoints.
pub open spec fn routed_method(path: Seq<char>) -> Option<HttpMethod> {
    if path == "/v1/models"@ || path == "/v1/info"@ {
        Some(HttpMethod::Get)
    } else if path == "/v1/chat/completions"@ || path == "/v1/completions"@ || path
        == "/v1/embeddings"@ || path == "/v1/chunks"@ || path == "/v1/audio/speech"@ {
        Some(HttpMethod::Post)
    } else {
        None
    }
}

/// The routes in the order in which they are registered.
pub open spec fn route_table() -> Seq<(Seq<char>, HttpMethod)> {
    seq![
        ("/v1/chat/completions"@, HttpMethod::Post),
        ("/v1/completions"@, HttpMethod::Post),
        ("/v1/models"@, HttpMethod::Get),
        ("/v1/embeddings"@, HttpMethod::Post),
        ("/v1/chunks"@, HttpMethod::Post),
        ("/v1/audio/speech"@, HttpMethod::Post),
        ("/v1/info"@, HttpMethod::Get),
    ]
}

/// The routes in `v`, as mathematical values.
pub open spec fn routes_view(v: Seq<(String, HttpMethod)>) -> Seq<(Seq<char>, HttpMethod)> {
    Seq::new(v.len(), |i: int| (v[i].0@, v[i].1))
}

/// The place of the first pair named `name`, or the number of pairs where
/// there is none.
pub open spec fn name_position(headers: HeadersView, name: Seq<char>) -> int
    decreases headers.len(),
{
    if headers.len() == 0 {
        0
    } else {
        let before = name_position(headers.drop_last(), name);
        if before < headers.len() - 1 {
            before
        } else if headers.last().0 == name {
            headers.len() - 1
        } else {
            headers.len() as int
        }
    }
}

/// `headers` with one more pair taken in: a name that is there already has
/// the value added to its own after a comma, a new name is put at the end.
pub open spec fn take_in(headers: HeadersView, pair: (Seq<char>, Seq<char>)) -> HeadersView {
    let at = name_position(headers, pair.0);
    if 0 <= at < headers.len() {
        headers.update(at, (headers[at].0, headers[at].1 + ","@ + pair.1))
    } else {
        headers.push(pair)
    }
}

/// `headers` with one value per name: the values of a name that occurs
/// more than once are joined with commas, in the order in which they came,
/// at the place of its first occurrence. Names are compared as they are.
pub open spec fn flattened(headers: HeadersView) -> HeadersView
    decreases headers.len(),
{
    if headers.len() == 0 {
        Seq::<(Seq<char>, Seq<char>)>::empty()
    } else {
        take_in(flattened(headers.drop_last()), headers.last())
    }
}

/// The gateway request that an inbound HTTP request becomes: path, method
/// and body as they came, the headers as text with one value per name, no
/// gateway visited yet, and the default hop limit.
pub open spec fn inbound_request(
    path: Seq<char>,
    method: Seq<char>,
    raw_headers: Seq<(String, Vec<u8>)>,
    body: Seq<u8>,
) -> RequestView {
    RequestView {
        path,
        method,
        body,
        headers: flattened(decoded_headers(raw_headers)),
        route_hops: Seq::<Seq<char>>::empty(),
        hop_limit: DEFAULT_HOP_LIMIT,
    }
}

/// An inbound HTTP request, made ready for the gateway.
#[derive(Debug)]
pub struct EdgeRequest {
    pub request: Request,
    /// Whether the response is to be streamed.
    pub streaming: bool,
}

/// An HTTP response, ready to be written.
#[derive(Debug)]
pub struct EdgeReply {
    pub status: u16,
    pub headers: Vec<(String, String)>,
    pub body: Vec<u8>,
}

/// Whether a status can be written in an HTTP response: three digits.
pub open spec fn is_http_status(status: i32) -> bool {
    100 <= status <= 999
}

/// Whether a header of a gateway response can be written in an HTTP response.
pub open spec fn is_writable(pair: (Seq<char>, Seq<char>)) -> bool {
    is_header_name(pair.0) && is_header_value(pair.1)
}

/// The place of the first pair named `name` in `headers`.
fn find_name(headers: &Vec<(String, String)>, name: &String) -> (at: usize)
    ensures
        at == name_position(headers.deep_view(), name@),
        at <= headers.len(),
{
    let mut at: usize = headers.len();
    let mut i: usize = 0;
    proof {
        assert(headers.deep_view().subrange(0, 0) =~= Seq::<(Seq<char>, Seq<char>)>::empty());
    }
    while i < headers.len()
        invariant
            i <= headers.len(),
            at < i || at == headers.len(),
            at < i ==> name_position(headers.deep_view().subrange(0, i as int), name@) == at,
            at == headers.len() ==> name_position(
                headers.deep_view().subrange(0, i as int),
                name@,
            ) == i,
        decreases headers.len() - i,
    {
        proof {
            let next = headers.deep_view().subrange(0, i + 1);
            assert(next.drop_last() =~= headers.deep_view().subrange(0, i as int));
            assert(next.last() == headers.deep_view()[i as int]);
            assert(headers.deep_view()[i as int].0 == headers[i as int].0@);
        }
        if at == headers.len() && headers[i].0 == *name {
            at = i;
        }
        i = i + 1;
    }
    proof {
        assert(headers.deep_view().subrange(0, headers.len() as int) =~= headers.deep_view());
    }
    at
}

/// Gives `headers` one value per name: see `flattened`.
pub fn flatten_headers(headers: &Vec<(String, String)>) -> (flat: Vec<(String, String)>)
    ensures
        flat.deep_view() == flattened(headers.deep_view()),
{
    let mut flat: Vec<(String, String)> = Vec::new();
    let mut i: usize = 0;
    proof {
        assert(headers.deep_view().subrange(0, 0) =~= Seq::<(Seq<char>, Seq<char>)>::empty());
        assert(flat.deep_view() =~= Seq::<(Seq<char>, Seq<char>)>::empty());
    }
    while i < headers.len()
        invariant
            i <= headers.len(),
            flat.deep_view() == flattened(headers.deep_view().subrange(0, i as int)),
        decreases headers.len() - i,
    {
        proof {
            let next = headers.deep_view().subrange(0, i + 1);
            assert(next.drop_last() =~= headers.deep_view().subrange(0, i as int));
            assert(next.last() == headers.deep_view()[i as int]);
            assert(headers.deep_view()[i as int] == (headers[i as int].0@, headers[i as int].1@));
        }
        let ghost before = flat.deep_view();
        let at = find_name(&flat, &headers[i].0);
        if at < flat.len() {
            let joined = concat3(flat[at].1.as_str(), ",", headers[i].1.as_str());
            let name = flat[at].0.clone();
            proof {
                assert(before[at as int] == (flat[at as int].0@, flat[at as int].1@));
            }
            flat.set(at, (name, joined));
            proof {
                assert(flat.deep_view() =~= before.update(
                    at as int,
                    (before[at as int].0, before[at as int].1 + ","@ + headers[i as int].1@),
                ));
            }
        } else {
            flat.push((headers[i].0.clone(), headers[i].1.clone()));
            proof {
                assert(flat.deep_view() =~= before.push((headers[i as int].0@, headers[i as int].1@)));
            }
        }
        i = i + 1;
    }
    proof {
        assert(headers.deep_view().subrange(0, headers.len() as int) =~= headers.deep_view());
    }
    flat
}

/// The headers of a streamed HTTP response.
pub open spec fn stream_headers() -> HeadersView {
    seq![
        ("Content-Type"@, "text/event-stream"@),
        ("Cache-Control"@, "no-cache"@),
        ("Connection"@, "keep-alive"@),
    ]
}

impl HttpServer {
    /// The edge of the gateway whose RPC listens at `grpc_addr`.
    pub fn new(grpc_addr: String) -> (server: HttpServer)
        ensures
            server.grpc_addr() == grpc_addr@,
    {
        HttpServer { grpc_addr }
    }

    /// The address of the gateway RPC.
    pub closed spec fn grpc_addr(&self) -> Seq<char> {
        self.grpc_addr@
    }

    /// Where the edge reaches the gateway RPC: `http://` and its address.
    pub fn gateway_url(&self) -> (url: String)
        ensures
            url@ == "http://"@ + self.grpc_addr(),
    {
        concat("http://", self.grpc_addr.as_str())
    }

    /// The routes of the edge, in the order in which they are registered.
    pub fn routes() -> (routes: Vec<(String, HttpMethod)>)
        ensures
            routes_view(routes@) == route_table(),
    {
        let mut routes: Vec<(String, HttpMethod)> = Vec::new();
        routes.push(("/v1/chat/completions".to_owned(), HttpMethod::Post));
        routes.push(("/v1/completions".to_owned(), HttpMethod::Post));
        routes.push(("/v1/models".to_owned(), HttpMethod::Get));
        routes.push(("/v1/embeddings".to_owned(), HttpMethod::Post));
        routes.push(("/v1/chunks".to_owned(), HttpMethod::Post));
        routes.push(("/v1/audio/speech".to_owned(), HttpMethod::Post));
        routes.push(("/v1/info".to_owned(), HttpMethod::Get));
        proof {
            assert(routes_view(routes@) =~= route_table());
        }
        routes
    }

    /// The method under which `path` is routed: see `routed_method`.
    pub fn route_method(path: &str) -> (method: Option<HttpMethod>)
        ensures
            method == routed_method(path@),
    {
        if str_eq(path, "/v1/models") || str_eq(path, "/v1/info") {
            Some(HttpMethod::Get)
        } else if str_eq(path, "/v1/chat/completions") || str_eq(path, "/v1/completions")
            || str_eq(path, "/v1/embeddings") || str_eq(path, "/v1/chunks") || str_eq(
            path,
            "/v1/audio/speech",
        ) {
            Some(HttpMethod::Post)
        } else {
            None
        }
    }
}

/// Makes an inbound HTTP request ready for the gateway.
///
/// Path, method and body go through unchanged; header values that are no
/// UTF-8 become empty, and the values of a name that occurs more than once
/// are joined with commas. The request is streamed exactly where its body
/// is a JSON object with the boolean member `stream` set to true.
pub fn handle_request(
    path: String,
    method: String,
    raw_headers: &Vec<(String, Vec<u8>)>,
    body: Vec<u8>,
) -> (edge: EdgeRequest)
    ensures
        edge.request@ == inbound_request(path@, method@, raw_headers@, body@),
        edge.streaming == stream_flag(json_bool_member(body@, "stream"@)),
{
    let streaming = is_stream_request(body.as_slice());
    let decoded = decode_headers(raw_headers);
    let headers = flatten_headers(&decoded);
    let route_hops: Vec<String> = Vec::new();
    proof {
        assert(route_hops.deep_view() =~= Seq::<Seq<char>>::empty());
    }
    EdgeRequest {
        request: Request { path, method, body, headers, route_hops, hop_limit: DEFAULT_HOP_LIMIT },
        streaming,
    }
}

/// The headers among `headers` that can be written in an HTTP response, in
/// the order in which they stand.
pub open spec fn writable_headers(headers: HeadersView) -> HeadersView {
    headers.filter(|pair: (Seq<char>, Seq<char>)| is_writable(pair))
}

/// Keeps the headers that can be written: see `writable_headers`.
pub fn keep_writable(headers: Vec<(String, String)>) -> (kept: Vec<(String, String)>)
    ensures
        kept.deep_view() == writable_headers(headers.deep_view()),
{
    let mut kept: Vec<(String, String)> = Vec::new();
    let mut i: usize = 0;
    let ghost keep = |pair: (Seq<char>, Seq<char>)| is_writable(pair);
    proof {
        assert(headers.deep_view().subrange(0, 0) =~= Seq::<(Seq<char>, Seq<char>)>::empty());
        assert(kept.deep_view() =~= Seq::<(Seq<char>, Seq<char>)>::empty());
        assert(Seq::<(Seq<char>, Seq<char>)>::empty().filter(keep) =~= Seq::<
            (Seq<char>, Seq<char>),
        >::empty()) by {
            reveal(Seq::filter);
        }
    }
    while i < headers.len()
        invariant
            i <= headers.len(),
            keep == |pair: (Seq<char>, Seq<char>)| is_writable(pair),
            kept.deep_view() == headers.deep_view().subrange(0, i as int).filter(keep),
        decreases headers.len() - i,
    {
        let ghost before = kept.deep_view();
        proof {
            let next = headers.deep_view().subrange(0, i + 1);
            assert(next.drop_last() =~= headers.deep_view().subrange(0, i as int));
            assert(next.last() == headers.deep_view()[i as int]);
            assert(headers.deep_view()[i as int] == (headers[i as int].0@, headers[i as int].1@));
            reveal(Seq::filter);
        }
        if header_name_ok(headers[i].0.as_str()) && header_value_ok(headers[i].1.as_str()) {
            kept.push((headers[i].0.clone(), headers[i].1.clone()));
            proof {
                assert(kept.deep_view() =~= before.push((headers[i as int].0@, headers[i as int].1@)));
            }
        }
        i = i + 1;
    }
    proof {
        assert(headers.deep_view().subrange(0, headers.len() as int) =~= headers.deep_view());
    }
    kept
}

/// Turns the response of the gateway into the HTTP response of a buffered
/// request: the status and the body as they are, and the headers that can
/// be written. A status of other than three digits cannot be written:
/// `None`, and the edge answers with an internal server error.
pub fn unary_reply(response: Response) -> (reply: Option<EdgeReply>)
    ensures
        reply.is_some() == is_http_status(response.status),
        reply matches Some(r) ==> r.status == response.status && r.body@ == response.body@
            && r.headers.deep_view() == writable_headers(response.headers.deep_view()),
{
    if response.status < 100 || response.status > 999 {
        return None;
    }
    Some(
        EdgeReply {
            status: response.status as u16,
            headers: keep_writable(response.headers),
            body: response.body,
        },
    )
}

/// The head of the HTTP response of a streamed request: status 200 and
/// the headers of a server-sent event stream; the body follows chunk by
/// chunk.
pub fn stream_reply_head() -> (head: EdgeReply)
    ensures
        head.status == 200,
        head.headers.deep_view() == stream_headers(),
        head.body@.len() == 0,
{
    let mut headers: Vec<(String, String)> = Vec::new();
    headers.push(("Content-Type".to_owned(), "text/event-stream".to_owned()));
    headers.push(("Cache-Control".to_owned(), "no-cache".to_owned()));
    headers.push(("Connection".to_owned(), "keep-alive".to_owned()));
    proof {
        assert(headers.deep_view() =~= stream_headers());
    }
    EdgeReply { status: 200, headers, body: Vec::new() }
}

/// The bytes that one item of a streamed response adds to the HTTP body.
pub fn chunk_body(item: Response) -> (bytes: Vec<u8>)
    ensures
        bytes@ == item.body@,
{
    item.body
}

/// The names of name/value pairs, in order.
pub open spec fn header_names(headers: HeadersView) -> Seq<Seq<char>> {
    Seq::new(headers.len(), |i: int| headers[i].0)
}

/// `name_position` is the place of a pair with the name, or the number of
/// pairs where no pair has it.
pub proof fn lemma_name_position(headers: HeadersView, name: Seq<char>)
    ensures
        0 <= name_position(headers, name) <= headers.len(),
        name_position(headers, name) < headers.len() ==> headers[name_position(
            headers,
            name,
        )].0 == name,
        name_position(headers, name) == headers.len() ==> forall|k: int|
            0 <= k < headers.len() ==> (#[trigger] headers[k]).0 != name,
    decreases headers.len(),
{
    if headers.len() > 0 {
        let before = headers.drop_last();
        lemma_name_position(before, name);
        let at = name_position(before, name);
        if at < before.len() {
            assert(before[at] == headers[at]);
        } else {
            assert forall|k: int| 0 <= k < headers.len() && name_position(headers, name)
                == headers.len() implies (#[trigger] headers[k]).0 != name by {
                if k < before.len() {
                    assert(before[k] == headers[k]);
                }
            }
        }
    }
}

/// Headers with one value per name stand for a map: in `flattened` headers
/// each name occurs once.
pub proof fn law_flattened_names_once(headers: HeadersView)
    ensures
        crate::text::names_once(header_names(flattened(headers))),
    decreases headers.len(),
{
    if headers.len() > 0 {
        let before = flattened(headers.drop_last());
        let pair = headers.last();
        law_flattened_names_once(headers.drop_last());
        lemma_name_position(before, pair.0);
        let after = take_in(before, pair);
        let old_names = header_names(before);
        let names = header_names(after);
        let at = name_position(before, pair.0);
        assert forall|i: int, j: int| 0 <= i < j < names.len() implies #[trigger] names[i]
            != #[trigger] names[j] by {
            if at < before.len() {
                assert(names[i] == old_names[i]);
                assert(names[j] == old_names[j]);
            } else {
                if j < before.len() {
                    assert(names[i] == old_names[i]);
                    assert(names[j] == old_names[j]);
                } else {
                    assert(names[i] == before[i].0);
                    assert(names[j] == pair.0);
                }
            }
        }
    }
}

} // verus!
