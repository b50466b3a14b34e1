//! The local dispatcher: the call that carries a request to a worker, what
//! comes back from it, and the relay of a streamed response.

use crate::message::{decode_headers, decoded_headers, HeadersView, Response, ResponseView};
use crate::text::clone_pairs;
use vstd::prelude::*;
use vstd::string::*;

verus! {

/// How many items of a streamed response may wait in the sink for their
/// consumer; a producer that finds the sink full waits, and drops nothing.
pub const STREAM_SINK_CAPACITY: usize = 4;

/// Why a request was not served by the local pool.
#[derive(Debug)]
pub enum DispatchError {
    /// No instance is running.
    NoCandidate,
    /// The call to the worker failed; the cause is kept as it was reported.
    Upstream(String),
}

/// A `DispatchError` as mathematical values.
pub enum DispatchErrorView {
    NoCandidate,
    Upstream(Seq<char>),
}

impl View for DispatchError {
    type V = DispatchErrorView;

    open spec fn view(&self) -> DispatchErrorView {
        match self {
            DispatchError::NoCandidate => DispatchErrorView::NoCandidate,
            DispatchError::Upstream(cause) => DispatchErrorView::Upstream(cause@),
        }
    }
}

/// The HTTP call that carries a request to a worker. It is made without
/// any ambient proxy.
#[derive(Debug)]
pub struct UpstreamCall {
    /// `http://`, the worker's address, and the path of the request.
    pub url: String,
    pub method: String,
    /// The headers of the request, as they came.
    pub headers: Vec<(String, String)>,
    pub body: Vec<u8>,
}

/// An `UpstreamCall` as mathematical values.
pub struct UpstreamCallView {
    pub url: Seq<char>,
    pub method: Seq<char>,
    pub headers: HeadersView,
    pub body: Seq<u8>,
}

impl View for UpstreamCall {
    type V = UpstreamCallView;

    open spec fn view(&self) -> UpstreamCallView {
        UpstreamCallView {
            url: self.url@,
            method: self.method@,
            headers: self.headers.deep_view(),
            body: self.body@,
        }
    }
}

/// The address a request for `path` is sent to on the worker at `server_addr`.
pub open spec fn upstream_url(server_addr: Seq<char>, path: Seq<char>) -> Seq<char> {
    "http://"@ + server_addr + path
}

/// What the HTTP layer reports that is said of a method it does not accept.
pub open spec fn invalid_method_cause() -> Seq<char> {
    "invalid HTTP method"@
}

/// What a worker answered, as the HTTP layer holds it.
#[derive(Debug)]
pub struct UpstreamReply {
    pub status: u16,
    /// Header values are raw bytes.
    pub headers: Vec<(String, Vec<u8>)>,
    pub body: Vec<u8>,
}

/// The buffered response: status, body and headers.
pub type Forwarded = (u16, Vec<u8>, Vec<(String, String)>);

/// Turns the outcome of a call to a worker into the result of the dispatch:
/// a reply gives its status, its body and its headers as text, a failure
/// gives `Upstream` with its cause.
pub fn complete_forward(outcome: Result<UpstreamReply, String>) -> (result: Result<
    Forwarded,
    DispatchError,
>)
    ensures
        match outcome {
            Ok(reply) => result matches Ok(f) && f.0 == reply.status && f.1@ == reply.body@
                && f.2.deep_view() == decoded_headers(reply.headers@),
            Err(cause) => result matches Err(e) && e@ == DispatchErrorView::Upstream(cause@),
        },
{
    match outcome {
        Ok(reply) => {
            let headers = decode_headers(&reply.headers);
            Ok((reply.status, reply.body, headers))
        },
        Err(cause) => Err(DispatchError::Upstream(cause)),
    }
}

/// What the upstream call of a streamed response reports, one event at a time.
#[derive(Debug)]
pub enum StreamEvent {
    /// The next span of bytes of the body.
    Chunk(Vec<u8>),
    /// The body has ended.
    End,
    /// The call failed.
    Failed(String),
    /// The consumer has gone away.
    SinkClosed,
}

/// A `StreamEvent` as mathematical values.
pub enum StreamEventView {
    Chunk(Seq<u8>),
    End,
    Failed(Seq<char>),
    SinkClosed,
}

impl View for StreamEvent {
    type V = StreamEventView;

    open spec fn view(&self) -> StreamEventView {
        match self {
            StreamEvent::Chunk(bytes) => StreamEventView::Chunk(bytes@),
            StreamEvent::End => StreamEventView::End,
            StreamEvent::Failed(cause) => StreamEventView::Failed(cause@),
            StreamEvent::SinkClosed => StreamEventView::SinkClosed,
        }
    }
}

/// What the relay does on an event.
#[derive(Debug)]
pub enum StreamAction {
    /// Send this item into the sink, waiting while the sink is full.
    Emit(Response),
    /// Send this error into the sink, then close it.
    EmitError(String),
    /// Close the sink.
    Close,
    /// Drop the upstream call; nothing more is read from it.
    Abort,
    /// The stream is over; the event is dropped.
    Ignore,
}

/// A `StreamAction` as mathematical values.
pub enum StreamActionView {
    Emit(ResponseView),
    EmitError(Seq<char>),
    Close,
    Abort,
    Ignore,
}

impl View for StreamAction {
    type V = StreamActionView;

    open spec fn view(&self) -> StreamActionView {
        match self {
            StreamAction::Emit(item) => StreamActionView::Emit(item@),
            StreamAction::EmitError(cause) => StreamActionView::EmitError(cause@),
            StreamAction::Close => StreamActionView::Close,
            StreamAction::Abort => StreamActionView::Abort,
            StreamAction::Ignore => StreamActionView::Ignore,
        }
    }
}

/// The relay of one streamed response: it knows the status and headers of
/// the upstream response and whether the stream is over.
#[derive(Debug)]
pub struct StreamRelay {
    status: i32,
    headers: Vec<(String, String)>,
    over: bool,
}

/// A `StreamRelay` as mathematical values.
pub struct StreamRelayView {
    pub status: i32,
    pub headers: HeadersView,
    pub over: bool,
}

impl View for StreamRelay {
    type V = StreamRelayView;

    closed spec fn view(&self) -> StreamRelayView {
        StreamRelayView { status: self.status, headers: self.headers.deep_view(), over: self.over }
    }
}

/// The item that carries `chunk` on a relay in the state `relay`.
pub open spec fn chunk_item(relay: StreamRelayView, chunk: Seq<u8>) -> ResponseView {
    ResponseView { status: relay.status, body: chunk, headers: relay.headers }
}

/// One step of the relay: the state after the event, and what to do.
///
/// While the stream is open, a chunk is sent on with the status and headers
/// of the upstream response and leaves the stream open; the end of the
/// body closes the sink; a failure is sent into the sink, which is then
/// closed; a closed sink drops the upstream call. Each of the last three
/// ends the stream, after which every event is dropped.
pub open spec fn relay_step(relay: StreamRelayView, event: StreamEventView) -> (
    StreamRelayView,
    StreamActionView,
) {
    if relay.over {
        (relay, StreamActionView::Ignore)
    } else {
        match event {
            StreamEventView::Chunk(bytes) => (
                relay,
                StreamActionView::Emit(chunk_item(relay, bytes)),
            ),
            StreamEventView::End => (
                StreamRelayView { over: true, ..relay },
                StreamActionView::Close,
            ),
            StreamEventView::Failed(cause) => (
                StreamRelayView { over: true, ..relay },
                StreamActionView::EmitError(cause),
            ),
            StreamEventView::SinkClosed => (
                StreamRelayView { over: true, ..relay },
                StreamActionView::Abort,
            ),
        }
    }
}

/// What the relay does on a sequence of events, one action per event.
pub open spec fn relay_run(relay: StreamRelayView, events: Seq<StreamEventView>) -> Seq<
    StreamActionView,
>
    decreases events.len(),
{
    if events.len() == 0 {
        Seq::<StreamActionView>::empty()
    } else {
        let (next, action) = relay_step(relay, events[0]);
        seq![action] + relay_run(next, events.drop_first())
    }
}

/// The bodies of the items among `actions`, in order.
pub open spec fn emitted_bodies(actions: Seq<StreamActionView>) -> Seq<Seq<u8>>
    decreases actions.len(),
{
    if actions.len() == 0 {
        Seq::<Seq<u8>>::empty()
    } else {
        let rest = emitted_bodies(actions.drop_first());
        match actions[0] {
            StreamActionView::Emit(item) => seq![item.body] + rest,
            _ => rest,
        }
    }
}

/// The events of a stream that runs to its end: its chunks, then `End`.
pub open spec fn completed_stream(chunks: Seq<Seq<u8>>) -> Seq<StreamEventView> {
    Seq::new(chunks.len(), |i: int| StreamEventView::Chunk(chunks[i])).push(StreamEventView::End)
}

/// The bytes of `chunks` in one sequence.
pub open spec fn joined(chunks: Seq<Seq<u8>>) -> Seq<u8>
    decreases chunks.len(),
{
    if chunks.len() == 0 {
        Seq::<u8>::empty()
    } else {
        chunks[0] + joined(chunks.drop_first())
    }
}

impl StreamRelay {
    /// The relay of a response with this status and these headers, open.
    pub fn begin(status: u16, raw_headers: &Vec<(String, Vec<u8>)>) -> (relay: StreamRelay)
        ensures
            relay@ == (StreamRelayView {
                status: status as i32,
                headers: decoded_headers(raw_headers@),
                over: false,
            }),
    {
        StreamRelay { status: status as i32, headers: decode_headers(raw_headers), over: false }
    }

    /// Whether the stream is over.
    pub fn is_over(&self) -> (over: bool)
        ensures
            over == self@.over,
    {
        self.over
    }

    /// Takes one event and says what to do.
    pub fn on_event(&mut self, event: StreamEvent) -> (action: StreamAction)
        ensures
            (final(self)@, action@) == relay_step(old(self)@, event@),
    {
        if self.over {
            return StreamAction::Ignore;
        }
        match event {
            StreamEvent::Chunk(bytes) => StreamAction::Emit(
                Response { status: self.status, body: bytes, headers: clone_pairs(&self.headers) },
            ),
            StreamEvent::End => {
                self.over = true;
                StreamAction::Close
            },
            StreamEvent::Failed(cause) => {
                self.over = true;
                StreamAction::EmitError(cause)
            },
            StreamEvent::SinkClosed => {
                self.over = true;
                StreamAction::Abort
            },
        }
    }
}

/// On a stream that runs to its end, the relay sends one item per chunk, in
/// the order of the chunks and each with the body of its chunk, and the
/// bodies taken together are the body that the worker sent.
pub proof fn law_stream_preserves_body(relay: StreamRelayView, chunks: Seq<Seq<u8>>)
    requires
        !relay.over,
    ensures
        emitted_bodies(relay_run(relay, completed_stream(chunks))) == chunks,
        joined(emitted_bodies(relay_run(relay, completed_stream(chunks)))) == joined(chunks),
        relay_run(relay, completed_stream(chunks)).len() == chunks.len() + 1,
        relay_run(relay, completed_stream(chunks)).last() == StreamActionView::Close,
        forall|i: int|
            0 <= i < chunks.len() ==> #[trigger] relay_run(relay, completed_stream(chunks))[i]
                == StreamActionView::Emit(chunk_item(relay, chunks[i])),
    decreases chunks.len(),
{
    let events = completed_stream(chunks);
    let actions = relay_run(relay, events);
    if chunks.len() == 0 {
        assert(events.drop_first() =~= Seq::<StreamEventView>::empty());
        let closed = StreamRelayView { over: true, ..relay };
        assert(relay_run(closed, events.drop_first()) =~= Seq::<StreamActionView>::empty());
        assert(actions =~= seq![StreamActionView::Close]);
        assert(actions.drop_first() =~= Seq::<StreamActionView>::empty());
        assert(emitted_bodies(actions.drop_first()) =~= Seq::<Seq<u8>>::empty());
        assert(actions[0] == StreamActionView::Close);
        assert(emitted_bodies(actions) =~= chunks);
    } else {
        let rest = chunks.drop_first();
        assert(events.drop_first() =~= completed_stream(rest));
        law_stream_preserves_body(relay, rest);
        let tail = relay_run(relay, completed_stream(rest));
        let head = StreamActionView::Emit(chunk_item(relay, chunks[0]));
        assert(actions =~= seq![head] + tail);
        assert(actions.drop_first() =~= tail);
        assert(emitted_bodies(actions) =~= seq![chunks[0]] + rest);
        assert(seq![chunks[0]] + rest =~= chunks);
        assert forall|i: int| 0 <= i < chunks.len() implies #[trigger] actions[i]
            == StreamActionView::Emit(chunk_item(relay, chunks[i])) by {
            if i > 0 {
                assert(actions[i] == tail[i - 1]);
                assert(rest[i - 1] == chunks[i]);
            }
        }
    }
}

} // verus!
