use assistant::grpc_server::DEFAULT_HOP_LIMIT;
use assistant::http_server::{
    chunk_body, flatten_headers, handle_request, keep_writable, stream_reply_head, unary_reply,
    HttpMethod, HttpServer,
};
use assistant::message::{
    header_names_match, header_value, is_stream_request, wants_stream, Request, Response,
};

fn pairs(items: &[(&str, &str)]) -> Vec<(String, String)> {
    items.iter().map(|(n, v)| (n.to_string(), v.to_string())).collect()
}

#[test]
fn stream_flag_is_read_from_the_body() {
    assert!(is_stream_request(b"{\"stream\":true}"));
    assert!(is_stream_request(
        b"{\"model\":\"m\",\"stream\":true,\"messages\":[{\"role\":\"user\",\"content\":\"hi\"}]}"
    ));
    assert!(is_stream_request(b" { \"stream\" : true } "));
    assert!(!is_stream_request(b"{\"stream\":false}"));
    assert!(!is_stream_request(
        b"{\"model\":\"m\",\"messages\":[{\"role\":\"user\",\"content\":\"hi\"}]}"
    ));
    assert!(!is_stream_request(b"{\"stream\":\"true\"}"));
    assert!(!is_stream_request(b"{\"stream\":1}"));
    assert!(!is_stream_request(b"{\"stream\":null}"));
    assert!(!is_stream_request(b"{\"nested\":{\"stream\":true}}"));
    assert!(!is_stream_request(b"[true]"));
    assert!(!is_stream_request(b"true"));
    assert!(!is_stream_request(b""));
    assert!(!is_stream_request(b"{\"stream\":true"));
    assert!(!is_stream_request(&[0xff, 0xfe, 0x00]));
    assert!(!is_stream_request(b"{\"stream\":true}\xff"));
}

#[test]
fn stream_flag_of_a_member() {
    assert!(wants_stream(Some(true)));
    assert!(!wants_stream(Some(false)));
    assert!(!wants_stream(None));
}

#[test]
fn request_knows_its_stream_flag() {
    let mut r = Request {
        path: "/v1/completions".to_string(),
        method: "POST".to_string(),
        body: b"{\"stream\":true,\"prompt\":\"x\"}".to_vec(),
        headers: vec![],
        route_hops: vec![],
        hop_limit: 3,
    };
    assert!(r.is_stream());
    r.body = b"{\"prompt\":\"x\"}".to_vec();
    assert!(!r.is_stream());
    let copy = r.clone();
    assert_eq!(copy.path, r.path);
    assert_eq!(copy.body, r.body);
    assert_eq!(copy.hop_limit, 3);
}

#[test]
fn inbound_request_goes_through_unchanged() {
    let raw = vec![
        ("content-type".to_string(), b"application/json".to_vec()),
        ("accept".to_string(), b"text/html".to_vec()),
        ("x-bin".to_string(), vec![0x80]),
        ("accept".to_string(), b"application/json".to_vec()),
    ];
    let body = b"{\"stream\":true}".to_vec();
    let edge = handle_request("/v1/chat/completions".to_string(), "POST".to_string(), &raw, body);
    assert!(edge.streaming);
    assert_eq!(edge.request.path, "/v1/chat/completions");
    assert_eq!(edge.request.method, "POST");
    assert_eq!(edge.request.body, b"{\"stream\":true}".to_vec());
    assert_eq!(
        edge.request.headers,
        pairs(&[
            ("content-type", "application/json"),
            ("accept", "text/html,application/json"),
            ("x-bin", ""),
        ])
    );
    assert!(edge.request.route_hops.is_empty());
    assert_eq!(edge.request.hop_limit, DEFAULT_HOP_LIMIT);
    assert_eq!(DEFAULT_HOP_LIMIT, 3);
    let plain = handle_request("/v1/models".to_string(), "GET".to_string(), &vec![], vec![]);
    assert!(!plain.streaming);
    assert!(plain.request.headers.is_empty());
}

#[test]
fn multi_valued_headers_are_joined_with_commas() {
    assert!(flatten_headers(&vec![]).is_empty());
    assert_eq!(flatten_headers(&pairs(&[("a", "1")])), pairs(&[("a", "1")]));
    assert_eq!(
        flatten_headers(&pairs(&[("a", "1"), ("b", "2"), ("a", "3"), ("c", ""), ("a", "4")])),
        pairs(&[("a", "1,3,4"), ("b", "2"), ("c", "")])
    );
    assert_eq!(
        flatten_headers(&pairs(&[("Accept", "x"), ("accept", "y")])),
        pairs(&[("Accept", "x"), ("accept", "y")])
    );
}

#[test]
fn headers_are_looked_up_without_regard_to_case() {
    let headers = pairs(&[("Content-Type", "a/b"), ("X-One", "1"), ("content-type", "c/d")]);
    assert_eq!(header_value(&headers, "content-type").map(|s| s.as_str()), Some("a/b"));
    assert_eq!(header_value(&headers, "CONTENT-TYPE").map(|s| s.as_str()), Some("a/b"));
    assert_eq!(header_value(&headers, "x-one").map(|s| s.as_str()), Some("1"));
    assert_eq!(header_value(&headers, "x-two"), None);
    assert_eq!(header_value(&headers, "content_type"), None);
    assert_eq!(headers[0].0, "Content-Type");
    assert!(header_names_match("ETag", "etag"));
    assert!(header_names_match("", ""));
    assert!(!header_names_match("etag", "etags"));
    assert!(!header_names_match("[", "{"));
    assert!(!header_names_match("@", "`"));
    assert!(!header_names_match("\u{c4}", "\u{e4}"));
}

#[test]
fn routes_of_the_edge() {
    let routes = HttpServer::routes();
    let expected = vec![
        ("/v1/chat/completions", HttpMethod::Post),
        ("/v1/completions", HttpMethod::Post),
        ("/v1/models", HttpMethod::Get),
        ("/v1/embeddings", HttpMethod::Post),
        ("/v1/chunks", HttpMethod::Post),
        ("/v1/audio/speech", HttpMethod::Post),
        ("/v1/info", HttpMethod::Get),
    ];
    assert_eq!(routes.len(), 7);
    for (got, want) in routes.iter().zip(expected.iter()) {
        assert_eq!(got.0, want.0);
        assert_eq!(got.1, want.1);
        assert_eq!(HttpServer::route_method(want.0), Some(want.1));
    }
    assert_eq!(HttpServer::route_method("/v1/unknown"), None);
    assert_eq!(HttpServer::route_method("/v1/models/"), None);
    assert_eq!(HttpServer::route_method(""), None);
}

#[test]
fn edge_reaches_the_gateway_over_http() {
    let edge = HttpServer::new("0.0.0.0:50051".to_string());
    assert_eq!(edge.gateway_url(), "http://0.0.0.0:50051");
}

#[test]
fn unary_reply_keeps_status_body_and_writable_headers() {
    let response = Response {
        status: 404,
        body: b"not found".to_vec(),
        headers: pairs(&[
            ("content-type", "text/plain"),
            ("bad name", "x"),
            ("x-ctl", "a\u{1}b"),
            ("", "empty"),
            ("X-Upper", "tab\tok"),
            ("x-del", "a\u{7f}"),
            ("x-latin", "gr\u{fc}n"),
        ]),
    };
    let reply = unary_reply(response).unwrap();
    assert_eq!(reply.status, 404);
    assert_eq!(reply.body, b"not found".to_vec());
    assert_eq!(
        reply.headers,
        pairs(&[
            ("content-type", "text/plain"),
            ("X-Upper", "tab\tok"),
            ("x-latin", "gr\u{fc}n"),
        ])
    );
}

#[test]
fn status_of_other_than_three_digits_cannot_be_written() {
    for status in [0, 99, 1000, -1, 65736, i32::MAX, i32::MIN] {
        assert!(unary_reply(Response { status, body: vec![], headers: vec![] }).is_none());
    }
    for status in [100, 200, 599, 999] {
        let reply = unary_reply(Response { status, body: vec![], headers: vec![] }).unwrap();
        assert_eq!(reply.status as i32, status);
    }
}

#[test]
fn writable_headers_keep_their_order() {
    assert!(keep_writable(vec![]).is_empty());
    assert_eq!(
        keep_writable(pairs(&[("b", "2"), ("a b", "x"), ("a", "1"), ("c", "\n")])),
        pairs(&[("b", "2"), ("a", "1")])
    );
}

#[test]
fn streamed_reply_is_an_event_stream() {
    let head = stream_reply_head();
    assert_eq!(head.status, 200);
    assert_eq!(
        head.headers,
        pairs(&[
            ("Content-Type", "text/event-stream"),
            ("Cache-Control", "no-cache"),
            ("Connection", "keep-alive"),
        ])
    );
    assert!(head.body.is_empty());
    let mut body: Vec<u8> = Vec::new();
    for chunk in ["a", "b", "c"] {
        body.extend(chunk_body(Response {
            status: 200,
            body: chunk.as_bytes().to_vec(),
            headers: vec![],
        }));
    }
    assert_eq!(body, b"abc".to_vec());
}

#[test]
fn header_names_are_tokens_of_bounded_length() {
    let longest = "a".repeat(65535);
    let too_long = "a".repeat(65536);
    let kept = keep_writable(pairs(&[
        (longest.as_str(), "1"),
        (too_long.as_str(), "2"),
        ("X-Token!#$%&'*+-.^_`|~09", "3"),
        ("x:y", "4"),
        ("x y", "5"),
        ("x\u{e9}", "6"),
        ("(x)", "7"),
    ]));
    assert_eq!(kept, pairs(&[(longest.as_str(), "1"), ("X-Token!#$%&'*+-.^_`|~09", "3")]));
}

#[test]
fn flattened_headers_have_each_name_once() {
    let flat = flatten_headers(&pairs(&[
        ("a", "1"),
        ("b", "2"),
        ("a", "3"),
        ("b", "4"),
        ("c", "5"),
        ("a", "6"),
    ]));
    assert_eq!(flat, pairs(&[("a", "1,3,6"), ("b", "2,4"), ("c", "5")]));
    assert!(assistant::text::names_are_unique(&flat));
}
