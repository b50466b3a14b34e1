//! The messages of the gateway RPC: what a gateway takes from its clients
//! and from its peers, and what it hands back.

use crate::text::{clone_bytes, clone_pairs, clone_texts};
use crate::trusted::{json_bool_member, json_lookup_bool, text_from_utf8};
use vstd::prelude::*;
use vstd::string::*;
use vstd::utf8::{decode_utf8, valid_utf8};

verus! {

/// Name/value pairs as mathematical text.
pub type HeadersView = Seq<(Seq<char>, Seq<char>)>;

/// A request as it travels between gateways.
#[derive(Debug)]
pub struct Request {
    /// Relative path; begins with `/`.
    pub path: String,
    /// The HTTP verb.
    pub method: String,
    /// Opaque to the gateway.
    pub body: Vec<u8>,
    /// Forwarded as they came.
    pub headers: Vec<(String, String)>,
    /// The gateways this request has visited, in order.
    pub route_hops: Vec<String>,
    /// How many gateways the request may visit.
    pub hop_limit: u32,
}

/// A `Request` as mathematical values.
pub struct RequestView {
    pub path: Seq<char>,
    pub method: Seq<char>,
    pub body: Seq<u8>,
    pub headers: HeadersView,
    pub route_hops: Seq<Seq<char>>,
    pub hop_limit: u32,
}

impl View for Request {
    type V = RequestView;

    open spec fn view(&self) -> RequestView {
        RequestView {
            path: self.path@,
            method: self.method@,
            body: self.body@,
            headers: self.headers.deep_view(),
            route_hops: self.route_hops.deep_view(),
            hop_limit: self.hop_limit,
        }
    }
}

impl Clone for Request {
    fn clone(&self) -> (copy: Self)
        ensures
            copy@ == self@,
    {
        Request {
            path: self.path.clone(),
            method: self.method.clone(),
            body: clone_bytes(&self.body),
            headers: clone_pairs(&self.headers),
            route_hops: clone_texts(&self.route_hops),
            hop_limit: self.hop_limit,
        }
    }
}

/// A response as it travels between gateways; one chunk of a streamed
/// response has the same shape.
#[derive(Debug)]
pub struct Response {
    /// HTTP status.
    pub status: i32,
    pub body: Vec<u8>,
    pub headers: Vec<(String, String)>,
}

/// A `Response` as mathematical values.
pub struct ResponseView {
    pub status: i32,
    pub body: Seq<u8>,
    pub headers: HeadersView,
}

impl View for Response {
    type V = ResponseView;

    open spec fn view(&self) -> ResponseView {
        ResponseView { status: self.status, body: self.body@, headers: self.headers.deep_view() }
    }
}

impl Clone for Response {
    fn clone(&self) -> (copy: Self)
        ensures
            copy@ == self@,
    {
        Response {
            status: self.status,
            body: clone_bytes(&self.body),
            headers: clone_pairs(&self.headers),
        }
    }
}

/// What a gateway says of itself.
#[derive(Debug)]
pub struct Info {
    /// Version of the gateway software.
    pub version: String,
    /// The chat model files of the live instances.
    pub models: Vec<String>,
    /// The HTTP endpoints the edge exposes.
    pub endpoints: Vec<String>,
}

/// Whether a request asks for a streamed response, given the boolean that
/// its body holds under `stream`, if it holds one.
pub open spec fn stream_flag(member: Option<bool>) -> bool {
    member == Some(true)
}

/// Decides `stream_flag`.
pub fn wants_stream(member: Option<bool>) -> (yes: bool)
    ensures
        yes == stream_flag(member),
{
    match member {
        Some(b) => b,
        None => false,
    }
}

/// Whether a body asks for a streamed response: it is a JSON object with
/// the boolean member `stream` set to true. A body that is no JSON, or has
/// no such member, does not.
pub fn is_stream_request(body: &[u8]) -> (yes: bool)
    ensures
        yes == stream_flag(json_bool_member(body@, "stream"@)),
{
    wants_stream(json_lookup_bool(body, "stream"))
}

impl Request {
    /// The `stream` flag of the request, derived from its body.
    pub fn is_stream(&self) -> (yes: bool)
        ensures
            yes == stream_flag(json_bool_member(self@.body, "stream"@)),
    {
        is_stream_request(self.body.as_slice())
    }
}

/// The text of a header value: what its bytes encode in UTF-8, or the empty
/// text where they encode none.
pub open spec fn header_text(bytes: Seq<u8>) -> Seq<char> {
    if valid_utf8(bytes) {
        decode_utf8(bytes)
    } else {
        Seq::<char>::empty()
    }
}

/// The pairs of `raw` with each value as text.
pub open spec fn decoded_headers(raw: Seq<(String, Vec<u8>)>) -> HeadersView {
    Seq::new(raw.len(), |i: int| (raw[i].0@, header_text(raw[i].1@)))
}

/// Decodes one header value.
pub fn decode_header_value(bytes: &[u8]) -> (text: String)
    ensures
        text@ == header_text(bytes@),
{
    match text_from_utf8(bytes) {
        Some(s) => s,
        None => String::new(),
    }
}

/// Converts headers as the HTTP layer holds them, values as raw bytes, to
/// the shape they have in a message; order and names are kept.
pub fn decode_headers(raw: &Vec<(String, Vec<u8>)>) -> (headers: Vec<(String, String)>)
    ensures
        headers.deep_view() == decoded_headers(raw@),
{
    let mut headers: Vec<(String, String)> = Vec::new();
    let mut i: usize = 0;
    while i < raw.len()
        invariant
            i <= raw.len(),
            headers.len() == i,
            forall|k: int|
                0 <= k < i ==> (#[trigger] headers[k]).deep_view() == (
                    raw[k].0@,
                    header_text(raw[k].1@),
                ),
        decreases raw.len() - i,
    {
        let value = decode_header_value(raw[i].1.as_slice());
        headers.push((raw[i].0.clone(), value));
        i = i + 1;
    }
    proof {
        assert(headers.deep_view() =~= decoded_headers(raw@));
    }
    headers
}

/// The code of a character with the upper-case ASCII letters taken for
/// their lower-case ones.
pub open spec fn folded(c: char) -> u32 {
    if 'A' <= c <= 'Z' {
        (c as u32 + 32) as u32
    } else {
        c as u32
    }
}

/// Whether two header names are the same name: they differ at most in the
/// case of ASCII letters.
pub open spec fn same_header_name(a: Seq<char>, b: Seq<char>) -> bool {
    a.len() == b.len() && forall|i: int| 0 <= i < a.len() ==> folded(#[trigger] a[i]) == folded(
        b[i],
    )
}

/// Whether `i` is the place of the first header named `name`.
pub open spec fn is_first_header(headers: HeadersView, name: Seq<char>, i: int) -> bool {
    &&& 0 <= i < headers.len()
    &&& same_header_name(headers[i].0, name)
    &&& forall|k: int| 0 <= k < i ==> !same_header_name((#[trigger] headers[k]).0, name)
}

/// The value of the first header named `name`, whatever the case of its
/// letters, if there is one.
pub open spec fn header_named(headers: HeadersView, name: Seq<char>) -> Option<Seq<char>> {
    if exists|i: int| is_first_header(headers, name, i) {
        Some(headers[choose|i: int| is_first_header(headers, name, i)].1)
    } else {
        None
    }
}

fn fold_char(c: char) -> (code: u32)
    ensures
        code == folded(c),
{
    let code: u32 = c as u32;
    if 65 <= code && code <= 90 {
        code + 32
    } else {
        code
    }
}

/// Decides `same_header_name`.
pub fn header_names_match(a: &str, b: &str) -> (same: bool)
    ensures
        same == same_header_name(a@, b@),
{
    let len = a.unicode_len();
    if len != b.unicode_len() {
        return false;
    }
    let mut i: usize = 0;
    while i < len
        invariant
            i <= len,
            len == a@.len(),
            len == b@.len(),
            forall|k: int| 0 <= k < i ==> folded(#[trigger] a@[k]) == folded(b@[k]),
        decreases len - i,
    {
        if fold_char(a.get_char(i)) != fold_char(b.get_char(i)) {
            return false;
        }
        i = i + 1;
    }
    true
}

/// Looks a header up by its name, whatever the case of its letters; the
/// headers themselves keep the names they came with.
pub fn header_value<'a>(headers: &'a Vec<(String, String)>, name: &str) -> (value: Option<
    &'a String,
>)
    ensures
        value.is_some() == header_named(headers.deep_view(), name@).is_some(),
        value matches Some(v) ==> Some(v@) == header_named(headers.deep_view(), name@),
{
    let ghost all = headers.deep_view();
    let mut i: usize = 0;
    while i < headers.len()
        invariant
            i <= headers.len(),
            all == headers.deep_view(),
            forall|k: int| 0 <= k < i ==> !same_header_name((#[trigger] all[k]).0, name@),
        decreases headers.len() - i,
    {
        proof {
            assert(all[i as int] == (headers[i as int].0@, headers[i as int].1@));
        }
        if header_names_match(headers[i].0.as_str(), name) {
            proof {
                assert(is_first_header(all, name@, i as int));
                let c = choose|c: int| is_first_header(all, name@, c);
                assert(is_first_header(all, name@, c));
                if c < i {
                    assert(!same_header_name(all[c].0, name@));
                }
                if i < c {
                    assert(!same_header_name(all[i as int].0, name@));
                }
            }
            return Some(&headers[i].1);
        }
        i = i + 1;
    }
    proof {
        if exists|c: int| is_first_header(all, name@, c) {
            let c = choose|c: int| is_first_header(all, name@, c);
            assert(!same_header_name(all[c].0, name@));
        }
    }
    None
}

} // verus!
