//! The gateway RPC: for each request the sequence load gate, local
//! dispatch, peer fan-out, as a machine that is told what happened and says
//! what to do next. The calls themselves, to a worker or to a peer, are
//! made by whoever drives the machine.

use crate::dispatch::{
    complete_forward, DispatchError, UpstreamCall, UpstreamCallView, UpstreamReply,
};
use crate::launch::path_or_empty;
use crate::load::{load_at_least, LoadThreshold};
use crate::message::{decoded_headers, Info, Request, RequestView, Response, ResponseView};
use crate::pool::{first_running, running_count, PoolView};
use crate::scheduler::Scheduler;
use crate::text::{clone_bytes, clone_pairs, clone_texts, concat, unwrap_or_empty};
use crate::trusted::{fresh_id, is_method_token};
use vstd::prelude::*;
use vstd::string::*;

verus! {

/// How many gateways a request may visit where nothing else is configured.
pub const DEFAULT_HOP_LIMIT: u32 = 3;

/// The version of the gateway software.
pub const GATEWAY_VERSION: &'static str = "0.1.0";

/// One declared peer gateway.
#[derive(Debug)]
pub struct RemoteServerConfig {
    /// The identity under which the peer enters the hops of a request.
    pub name: String,
    /// `host:port` of the peer's gateway RPC.
    pub grpc_addr: String,
    /// Reserved: peers are tried in declaration order.
    pub weight: u32,
    pub enabled: bool,
}

/// A peer as mathematical values.
pub struct PeerView {
    pub name: Seq<char>,
    pub grpc_addr: Seq<char>,
    pub weight: u32,
    pub enabled: bool,
}

impl View for RemoteServerConfig {
    type V = PeerView;

    open spec fn view(&self) -> PeerView {
        PeerView {
            name: self.name@,
            grpc_addr: self.grpc_addr@,
            weight: self.weight,
            enabled: self.enabled,
        }
    }
}

impl Clone for RemoteServerConfig {
    fn clone(&self) -> (copy: Self)
        ensures
            copy@ == self@,
    {
        RemoteServerConfig {
            name: self.name.clone(),
            grpc_addr: self.grpc_addr.clone(),
            weight: self.weight,
            enabled: self.enabled,
        }
    }
}

/// The peers in `v`, as mathematical values.
pub open spec fn peers_view(v: Seq<RemoteServerConfig>) -> Seq<PeerView> {
    v.map_values(|p: RemoteServerConfig| p@)
}

/// The peers of a gateway as its configuration declares them, in order.
pub fn peers_from_config(declared: &Vec<crate::config::RemoteServerConfig>) -> (peers: Vec<
    RemoteServerConfig,
>)
    ensures
        peers@.len() == declared@.len(),
        forall|i: int|
            0 <= i < declared@.len() ==> (#[trigger] peers@[i])@ == (PeerView {
                name: declared@[i].name@,
                grpc_addr: declared@[i].grpc_addr@,
                weight: declared@[i].weight,
                enabled: declared@[i].enabled,
            }),
{
    let mut peers: Vec<RemoteServerConfig> = Vec::new();
    let mut i: usize = 0;
    while i < declared.len()
        invariant
            i <= declared.len(),
            peers@.len() == i,
            forall|k: int|
                0 <= k < i ==> (#[trigger] peers@[k])@ == (PeerView {
                    name: declared@[k].name@,
                    grpc_addr: declared@[k].grpc_addr@,
                    weight: declared@[k].weight,
                    enabled: declared@[k].enabled,
                }),
        decreases declared.len() - i,
    {
        peers.push(
            RemoteServerConfig {
                name: declared[i].name.clone(),
                grpc_addr: declared[i].grpc_addr.clone(),
                weight: declared[i].weight,
                enabled: declared[i].enabled,
            },
        );
        i = i + 1;
    }
    peers
}

/// Why a request was not answered.
#[derive(Debug)]
pub enum GatewayError {
    /// The call to a worker failed. Such a request is not retried on a
    /// peer: the worker may already have acted on it.
    Upstream(String),
    /// A streamed request found the local pool unable to serve it; streams
    /// are not relayed through peers.
    AllBusy,
    /// No peer is enabled, or every peer that could be called was called
    /// and none answered.
    AllPeersBusy,
    /// The request has been at this gateway before, or at every enabled
    /// peer: to pass it on would send it round in a circle.
    CycleDetected,
    /// The request has visited as many gateways as it may.
    HopLimitExceeded,
}

/// A `GatewayError` as mathematical values.
pub enum GatewayErrorView {
    Upstream(Seq<char>),
    AllBusy,
    AllPeersBusy,
    CycleDetected,
    HopLimitExceeded,
}

impl View for GatewayError {
    type V = GatewayErrorView;

    open spec fn view(&self) -> GatewayErrorView {
        match self {
            GatewayError::Upstream(cause) => GatewayErrorView::Upstream(cause@),
            GatewayError::AllBusy => GatewayErrorView::AllBusy,
            GatewayError::AllPeersBusy => GatewayErrorView::AllPeersBusy,
            GatewayError::CycleDetected => GatewayErrorView::CycleDetected,
            GatewayError::HopLimitExceeded => GatewayErrorView::HopLimitExceeded,
        }
    }
}

impl GatewayError {
    /// Whether the error is reported as exhausted resources, which a
    /// client may retry later; the one other kind is an internal error.
    pub fn is_resource_exhausted(&self) -> (yes: bool)
        ensures
            yes == !(self@ is Upstream),
    {
        match self {
            GatewayError::Upstream(_) => false,
            _ => true,
        }
    }

    /// The text the error is reported with.
    pub fn message(&self) -> (text: String)
        ensures
            text@ == match self@ {
                GatewayErrorView::Upstream(cause) => cause,
                GatewayErrorView::AllBusy => "All servers are busy"@,
                GatewayErrorView::AllPeersBusy => "All servers are busy"@,
                GatewayErrorView::CycleDetected => "Request would visit a gateway again"@,
                GatewayErrorView::HopLimitExceeded => "Request has exhausted its hop limit"@,
            },
    {
        match self {
            GatewayError::Upstream(cause) => cause.clone(),
            GatewayError::AllBusy => "All servers are busy".to_owned(),
            GatewayError::AllPeersBusy => "All servers are busy".to_owned(),
            GatewayError::CycleDetected => "Request would visit a gateway again".to_owned(),
            GatewayError::HopLimitExceeded => "Request has exhausted its hop limit".to_owned(),
        }
    }
}

/// One call to a peer gateway.
#[derive(Debug)]
pub struct PeerCall {
    /// The place of the peer among the declared ones.
    pub index: usize,
    /// `http://` and the peer's address.
    pub url: String,
    /// The request as the peer is to see it.
    pub request: Request,
}

/// A `PeerCall` as mathematical values.
pub struct PeerCallView {
    pub index: int,
    pub url: Seq<char>,
    pub request: RequestView,
}

impl View for PeerCall {
    type V = PeerCallView;

    open spec fn view(&self) -> PeerCallView {
        PeerCallView { index: self.index as int, url: self.url@, request: self.request@ }
    }
}

/// What the driver of the machine is to do next.
#[derive(Debug)]
pub enum GatewayAction {
    /// Make this call to a worker and report its outcome.
    CallWorker(UpstreamCall),
    /// Make this call to a worker and relay what comes back as a stream.
    StreamFromWorker(UpstreamCall),
    /// Make this call to a peer and report its outcome.
    CallPeer(PeerCall),
    /// Answer the request with this response.
    Return(Response),
    /// Answer the request with this error.
    Fail(GatewayError),
    /// Do nothing: the request was cancelled, or the event was not awaited.
    Nothing,
}

/// A `GatewayAction` as mathematical values.
pub enum GatewayActionView {
    CallWorker(UpstreamCallView),
    StreamFromWorker(UpstreamCallView),
    CallPeer(PeerCallView),
    Return(ResponseView),
    Fail(GatewayErrorView),
    Nothing,
}

impl View for GatewayAction {
    type V = GatewayActionView;

    open spec fn view(&self) -> GatewayActionView {
        match self {
            GatewayAction::CallWorker(call) => GatewayActionView::CallWorker(call@),
            GatewayAction::StreamFromWorker(call) => GatewayActionView::StreamFromWorker(call@),
            GatewayAction::CallPeer(call) => GatewayActionView::CallPeer(call@),
            GatewayAction::Return(response) => GatewayActionView::Return(response@),
            GatewayAction::Fail(error) => GatewayActionView::Fail(error@),
            GatewayAction::Nothing => GatewayActionView::Nothing,
        }
    }
}

/// Where the handling of one request stands.
#[derive(Debug)]
pub enum GatewayState {
    /// A worker was called; its reply is awaited.
    AwaitingWorker,
    /// The peer at `index` was called with `request` on its way; its reply
    /// is awaited.
    AwaitingPeer { index: usize, request: Request },
    /// The request is settled.
    Finished,
}

/// A `GatewayState` as mathematical values.
pub enum GatewayStateView {
    AwaitingWorker,
    AwaitingPeer { index: int, request: RequestView },
    Finished,
}

impl View for GatewayState {
    type V = GatewayStateView;

    open spec fn view(&self) -> GatewayStateView {
        match self {
            GatewayState::AwaitingWorker => GatewayStateView::AwaitingWorker,
            GatewayState::AwaitingPeer { index, request } => GatewayStateView::AwaitingPeer {
                index: *index as int,
                request: request@,
            },
            GatewayState::Finished => GatewayStateView::Finished,
        }
    }
}

/// What happened since the last action.
#[derive(Debug)]
pub enum GatewayEvent {
    /// The call to the worker ended: with a reply, or with the cause of its
    /// failure.
    WorkerReplied(Result<UpstreamReply, String>),
    /// The call to the peer ended: with a response, or with the cause of
    /// its failure.
    PeerReplied(Result<Response, String>),
    /// The caller has gone away.
    Cancelled,
}

/// A `GatewayEvent` as mathematical values.
pub enum GatewayEventView {
    WorkerReplied(Result<ResponseView, Seq<char>>),
    PeerReplied(Result<ResponseView, Seq<char>>),
    Cancelled,
}

/// The response that a reply of a worker becomes.
pub open spec fn reply_response(reply: UpstreamReply) -> ResponseView {
    ResponseView {
        status: reply.status as i32,
        body: reply.body@,
        headers: decoded_headers(reply.headers@),
    }
}

impl View for GatewayEvent {
    type V = GatewayEventView;

    open spec fn view(&self) -> GatewayEventView {
        match self {
            GatewayEvent::WorkerReplied(Ok(reply)) => GatewayEventView::WorkerReplied(
                Ok(reply_response(*reply)),
            ),
            GatewayEvent::WorkerReplied(Err(cause)) => GatewayEventView::WorkerReplied(
                Err(cause@),
            ),
            GatewayEvent::PeerReplied(Ok(response)) => GatewayEventView::PeerReplied(
                Ok(response@),
            ),
            GatewayEvent::PeerReplied(Err(cause)) => GatewayEventView::PeerReplied(Err(cause@)),
            GatewayEvent::Cancelled => GatewayEventView::Cancelled,
        }
    }
}

/// A state and the action that goes with entering it.
#[derive(Debug)]
pub struct Step {
    pub state: GatewayState,
    pub action: GatewayAction,
}

/// A `Step` as mathematical values.
pub struct StepView {
    pub state: GatewayStateView,
    pub action: GatewayActionView,
}

impl View for Step {
    type V = StepView;

    open spec fn view(&self) -> StepView {
        StepView { state: self.state@, action: self.action@ }
    }
}

/// A step that settles the request with an error.
pub open spec fn failed(error: GatewayErrorView) -> StepView {
    StepView { state: GatewayStateView::Finished, action: GatewayActionView::Fail(error) }
}

/// Whether a peer may be called for a request that has visited the
/// gateways `visited`: it is enabled, and it is not one of them. A gateway
/// is known to its peers by the name under which they declare it.
pub open spec fn is_candidate(peer: PeerView, visited: Seq<Seq<char>>) -> bool {
    peer.enabled && !visited.contains(peer.name)
}

/// Whether `i` is the place of the first candidate at or after `from`.
pub open spec fn is_next_candidate(
    peers: Seq<PeerView>,
    visited: Seq<Seq<char>>,
    from: int,
    i: int,
) -> bool {
    &&& 0 <= from <= i < peers.len()
    &&& is_candidate(peers[i], visited)
    &&& forall|k: int| from <= k < i ==> !is_candidate(#[trigger] peers[k], visited)
}

/// The place of the first candidate at or after `from`, or the number of
/// peers where there is none.
pub open spec fn next_candidate(peers: Seq<PeerView>, visited: Seq<Seq<char>>, from: int) -> int {
    if exists|i: int| is_next_candidate(peers, visited, from, i) {
        choose|i: int| is_next_candidate(peers, visited, from, i)
    } else {
        peers.len() as int
    }
}

/// No peer is enabled.
pub open spec fn no_peer_enabled(peers: Seq<PeerView>) -> bool {
    forall|i: int| 0 <= i < peers.len() ==> !(#[trigger] peers[i]).enabled
}

/// The gateways a request has visited once this gateway has taken it up.
pub open spec fn visited_with(request: RequestView, identity: Seq<char>) -> Seq<Seq<char>> {
    request.route_hops.push(identity)
}

/// The smaller of the limit a request carries and the ceiling of the gateway.
pub open spec fn effective_hop_limit(hop_limit: u32, ceiling: u32) -> u32 {
    if hop_limit <= ceiling {
        hop_limit
    } else {
        ceiling
    }
}

/// The request as a peer is to see it: as it came, with this gateway added
/// to the gateways visited, and with a hop limit within the ceiling.
pub open spec fn outbound_request(request: RequestView, identity: Seq<char>, ceiling: u32) -> RequestView {
    RequestView {
        route_hops: request.route_hops.push(identity),
        hop_limit: effective_hop_limit(request.hop_limit, ceiling),
        ..request
    }
}

/// The address of the gateway RPC of a peer.
pub open spec fn peer_url(grpc_addr: Seq<char>) -> Seq<char> {
    "http://"@ + grpc_addr
}

/// A gateway as mathematical values.
pub struct GatewayView {
    pub identity: Seq<char>,
    pub max_load_numer: nat,
    pub max_load_denom: nat,
    pub hop_ceiling: u32,
    pub peers: Seq<PeerView>,
}

/// The step that calls the first candidate at or after `from`, or settles
/// the request with `AllPeersBusy` where there is none.
pub open spec fn try_peers_from(gateway: GatewayView, request: RequestView, from: int) -> StepView {
    let index = next_candidate(gateway.peers, visited_with(request, gateway.identity), from);
    if index < gateway.peers.len() {
        StepView {
            state: GatewayStateView::AwaitingPeer { index, request },
            action: GatewayActionView::CallPeer(
                PeerCallView {
                    index,
                    url: peer_url(gateway.peers[index].grpc_addr),
                    request: outbound_request(request, gateway.identity, gateway.hop_ceiling),
                },
            ),
        }
    } else {
        failed(GatewayErrorView::AllPeersBusy)
    }
}

/// The peer path. Without an enabled peer the request is settled with
/// `AllPeersBusy` at once. A request that has been at this gateway before
/// is refused with `CycleDetected`, and one that has visited as many
/// gateways as it may with `HopLimitExceeded`. A request is never sent to
/// a gateway that it has visited: where every enabled peer is among them,
/// the request is refused with `CycleDetected`. All this comes before any
/// peer is called. Otherwise the first candidate is called.
pub open spec fn peer_path(gateway: GatewayView, request: RequestView) -> StepView {
    if no_peer_enabled(gateway.peers) {
        failed(GatewayErrorView::AllPeersBusy)
    } else if request.route_hops.contains(gateway.identity) {
        failed(GatewayErrorView::CycleDetected)
    } else if request.route_hops.len() >= effective_hop_limit(
        request.hop_limit,
        gateway.hop_ceiling,
    ) {
        failed(GatewayErrorView::HopLimitExceeded)
    } else if next_candidate(gateway.peers, visited_with(request, gateway.identity), 0)
        >= gateway.peers.len() {
        failed(GatewayErrorView::CycleDetected)
    } else {
        try_peers_from(gateway, request, 0)
    }
}

/// Whether the pool is busy for this gateway.
pub open spec fn gateway_busy(gateway: GatewayView, pool: PoolView, capacity: nat) -> bool {
    load_at_least(running_count(pool), capacity, gateway.max_load_numer, gateway.max_load_denom)
}

/// The call that carries `request` to the worker at `server_addr`.
pub open spec fn worker_call(server_addr: Seq<char>, request: RequestView) -> UpstreamCallView {
    UpstreamCallView {
        url: crate::dispatch::upstream_url(server_addr, request.path),
        method: request.method,
        headers: request.headers,
        body: request.body,
    }
}

/// The first step on a buffered request. A busy pool sends it down the
/// peer path, and so does a pool in which nothing runs. Otherwise the
/// first running worker is called; a method that is no HTTP token is an
/// upstream error.
pub open spec fn unary_admission(
    gateway: GatewayView,
    pool: PoolView,
    capacity: nat,
    request: RequestView,
) -> StepView {
    if gateway_busy(gateway, pool, capacity) {
        peer_path(gateway, request)
    } else {
        match first_running(pool) {
            None => peer_path(gateway, request),
            Some(instance) => if is_method_token(request.method) {
                StepView {
                    state: GatewayStateView::AwaitingWorker,
                    action: GatewayActionView::CallWorker(
                        worker_call(instance.server_addr, request),
                    ),
                }
            } else {
                failed(GatewayErrorView::Upstream(crate::dispatch::invalid_method_cause()))
            },
        }
    }
}

/// The first step on a streamed request. It is served by the local pool
/// or not at all: where a buffered request would go down the peer path, a
/// streamed one is refused with `AllBusy`.
pub open spec fn stream_admission(
    gateway: GatewayView,
    pool: PoolView,
    capacity: nat,
    request: RequestView,
) -> StepView {
    if gateway_busy(gateway, pool, capacity) {
        failed(GatewayErrorView::AllBusy)
    } else {
        match first_running(pool) {
            None => failed(GatewayErrorView::AllBusy),
            Some(instance) => if is_method_token(request.method) {
                StepView {
                    state: GatewayStateView::Finished,
                    action: GatewayActionView::StreamFromWorker(
                        worker_call(instance.server_addr, request),
                    ),
                }
            } else {
                failed(GatewayErrorView::Upstream(crate::dispatch::invalid_method_cause()))
            },
        }
    }
}

/// One step of the machine.
///
/// The reply of a worker settles the request: with its response, or with
/// an upstream error, which is never retried on a peer. The response of a
/// peer settles it too; the failure of a peer moves on to the next peer
/// that may be called, and to `AllPeersBusy` after the last. A cancellation
/// settles the request without an answer. An event that the state does
/// not await changes nothing.
pub open spec fn gateway_step(
    gateway: GatewayView,
    state: GatewayStateView,
    event: GatewayEventView,
) -> StepView {
    match (state, event) {
        (GatewayStateView::Finished, _) => StepView { state, action: GatewayActionView::Nothing },
        (_, GatewayEventView::Cancelled) => StepView {
            state: GatewayStateView::Finished,
            action: GatewayActionView::Nothing,
        },
        (GatewayStateView::AwaitingWorker, GatewayEventView::WorkerReplied(Ok(response))) => StepView {
            state: GatewayStateView::Finished,
            action: GatewayActionView::Return(response),
        },
        (GatewayStateView::AwaitingWorker, GatewayEventView::WorkerReplied(Err(cause))) => failed(
            GatewayErrorView::Upstream(cause),
        ),
        (
            GatewayStateView::AwaitingPeer { index, request },
            GatewayEventView::PeerReplied(Ok(response)),
        ) => StepView {
            state: GatewayStateView::Finished,
            action: GatewayActionView::Return(response),
        },
        (
            GatewayStateView::AwaitingPeer { index, request },
            GatewayEventView::PeerReplied(Err(cause)),
        ) => try_peers_from(gateway, request, index + 1),
        _ => StepView { state, action: GatewayActionView::Nothing },
    }
}

/// The HTTP endpoints of the edge, in the order in which they are reported.
pub open spec fn endpoint_list() -> Seq<Seq<char>> {
    seq![
        "/v1/chat/completions"@,
        "/v1/completions"@,
        "/v1/models"@,
        "/v1/embeddings"@,
        "/v1/chunks"@,
        "/v1/audio/speech"@,
        "/v1/info"@,
    ]
}

/// The chat model files of the records of a pool, in order; the empty text
/// stands for a record without one.
pub open spec fn loaded_models(pool: PoolView) -> Seq<Seq<char>> {
    Seq::new(pool.len(), |i: int| path_or_empty(pool[i].config.chat_model_path))
}

/// The gateway: who it is, when it hands requests to peers, and to whom.
pub struct GrpcServer {
    identity: String,
    max_load: LoadThreshold,
    hop_ceiling: u32,
    remote_servers: Vec<RemoteServerConfig>,
}

impl View for GrpcServer {
    type V = GatewayView;

    closed spec fn view(&self) -> GatewayView {
        GatewayView {
            identity: self.identity@,
            max_load_numer: self.max_load.numer(),
            max_load_denom: self.max_load.denom(),
            hop_ceiling: self.hop_ceiling,
            peers: peers_view(self.remote_servers@),
        }
    }
}

impl GrpcServer {
    /// A gateway with a fresh identity and the default hop ceiling.
    pub fn new(max_load: LoadThreshold, remote_servers: Vec<RemoteServerConfig>) -> (server:
        GrpcServer)
        ensures
            server@.max_load_numer == max_load.numer(),
            server@.max_load_denom == max_load.denom(),
            server@.hop_ceiling == DEFAULT_HOP_LIMIT,
            server@.peers == peers_view(remote_servers@),
            server@.identity.len() == 36,
    {
        GrpcServer {
            identity: fresh_id(),
            max_load,
            hop_ceiling: DEFAULT_HOP_LIMIT,
            remote_servers,
        }
    }

    /// The same gateway under the identity `identity`: the name under which
    /// its peers declare it, where they are to know it again.
    pub fn with_identity(self, identity: String) -> (server: GrpcServer)
        ensures
            server@ == (GatewayView { identity: identity@, ..self@ }),
    {
        GrpcServer {
            identity,
            max_load: self.max_load,
            hop_ceiling: self.hop_ceiling,
            remote_servers: self.remote_servers,
        }
    }

    /// The same gateway with the hop ceiling `hop_ceiling`.
    pub fn with_hop_ceiling(self, hop_ceiling: u32) -> (server: GrpcServer)
        ensures
            server@ == (GatewayView { hop_ceiling, ..self@ }),
    {
        GrpcServer {
            identity: self.identity,
            max_load: self.max_load,
            hop_ceiling,
            remote_servers: self.remote_servers,
        }
    }

    /// The identity under which this gateway enters the hops of a request.
    pub fn identity(&self) -> (id: &String)
        ensures
            id@ == self@.identity,
    {
        &self.identity
    }

    /// Whether no peer is enabled.
    fn none_enabled(&self) -> (none: bool)
        ensures
            none == no_peer_enabled(self@.peers),
    {
        let mut i: usize = 0;
        while i < self.remote_servers.len()
            invariant
                i <= self.remote_servers.len(),
                forall|k: int| 0 <= k < i ==> !(#[trigger] self@.peers[k]).enabled,
            decreases self.remote_servers.len() - i,
        {
            if self.remote_servers[i].enabled {
                proof {
                    assert(self@.peers[i as int].enabled);
                }
                return false;
            }
            i = i + 1;
        }
        true
    }

    /// The place of the first candidate at or after `from`.
    fn find_candidate(&self, visited: &Vec<String>, from: usize) -> (at: usize)
        ensures
            at == next_candidate(self@.peers, visited.deep_view(), from as int),
            at <= self@.peers.len(),
            at < self@.peers.len() ==> from <= at,
    {
        let mut i: usize = from;
        if i >= self.remote_servers.len() {
            proof {
                lemma_no_candidate(self@.peers, visited.deep_view(), from as int);
            }
            return self.remote_servers.len();
        }
        while i < self.remote_servers.len()
            invariant
                from <= i <= self.remote_servers.len(),
                forall|k: int|
                    from <= k < i ==> !is_candidate(#[trigger] self@.peers[k], visited.deep_view()),
            decreases self.remote_servers.len() - i,
        {
            proof {
                assert(self@.peers[i as int] == self.remote_servers@[i as int]@);
            }
            if self.remote_servers[i].enabled && !contains_text(
                visited,
                &self.remote_servers[i].name,
            ) {
                proof {
                    lemma_candidate_found(self@.peers, visited.deep_view(), from as int, i as int);
                }
                return i;
            }
            i = i + 1;
        }
        proof {
            lemma_no_candidate(self@.peers, visited.deep_view(), from as int);
        }
        i
    }

    /// The request as a peer is to see it.
    fn outbound(&self, request: &Request) -> (out: Request)
        ensures
            out@ == outbound_request(request@, self@.identity, self@.hop_ceiling),
    {
        let mut route_hops = clone_texts(&request.route_hops);
        let ghost before = route_hops.deep_view();
        route_hops.push(self.identity.clone());
        proof {
            assert(route_hops.deep_view() =~= before.push(self@.identity));
        }
        Request {
            path: request.path.clone(),
            method: request.method.clone(),
            body: clone_bytes(&request.body),
            headers: clone_pairs(&request.headers),
            route_hops,
            hop_limit: if request.hop_limit <= self.hop_ceiling {
                request.hop_limit
            } else {
                self.hop_ceiling
            },
        }
    }

    /// Calls the first candidate at or after `from`.
    fn try_from(&self, request: Request, from: usize) -> (step: Step)
        ensures
            step@ == try_peers_from(self@, request@, from as int),
    {
        let out = self.outbound(&request);
        let index = self.find_candidate(&out.route_hops, from);
        if index < self.remote_servers.len() {
            let url = concat("http://", self.remote_servers[index].grpc_addr.as_str());
            Step {
                state: GatewayState::AwaitingPeer { index, request },
                action: GatewayAction::CallPeer(PeerCall { index, url, request: out }),
            }
        } else {
            Step {
                state: GatewayState::Finished,
                action: GatewayAction::Fail(GatewayError::AllPeersBusy),
            }
        }
    }

    /// Sends a request down the peer path: see `peer_path`.
    pub fn try_remote_forward(&self, request: Request) -> (step: Step)
        ensures
            step@ == peer_path(self@, request@),
    {
        if self.none_enabled() {
            return Step {
                state: GatewayState::Finished,
                action: GatewayAction::Fail(GatewayError::AllPeersBusy),
            };
        }
        if contains_text(&request.route_hops, &self.identity) {
            return Step {
                state: GatewayState::Finished,
                action: GatewayAction::Fail(GatewayError::CycleDetected),
            };
        }
        let limit: u32 = if request.hop_limit <= self.hop_ceiling {
            request.hop_limit
        } else {
            self.hop_ceiling
        };
        if request.route_hops.len() >= limit as usize {
            return Step {
                state: GatewayState::Finished,
                action: GatewayAction::Fail(GatewayError::HopLimitExceeded),
            };
        }
        let step = self.try_from(request, 0);
        match step.state {
            GatewayState::AwaitingPeer { .. } => step,
            _ => Step {
                state: GatewayState::Finished,
                action: GatewayAction::Fail(GatewayError::CycleDetected),
            },
        }
    }

    /// Takes up a buffered request: see `unary_admission`.
    pub fn forward_request(&self, scheduler: &Scheduler, request: Request) -> (step: Step)
        ensures
            step@ == unary_admission(self@, scheduler@, scheduler.capacity(), request@),
    {
        if scheduler.is_busy(self.max_load) {
            return self.try_remote_forward(request);
        }
        let planned = scheduler.forward_request(
            request.path.as_str(),
            request.method.as_str(),
            clone_bytes(&request.body),
            clone_pairs(&request.headers),
        );
        match planned {
            Ok(call) => Step {
                state: GatewayState::AwaitingWorker,
                action: GatewayAction::CallWorker(call),
            },
            Err(DispatchError::NoCandidate) => self.try_remote_forward(request),
            Err(DispatchError::Upstream(cause)) => Step {
                state: GatewayState::Finished,
                action: GatewayAction::Fail(GatewayError::Upstream(cause)),
            },
        }
    }

    /// Takes up a streamed request: see `stream_admission`.
    pub fn forward_request_stream(&self, scheduler: &Scheduler, request: Request) -> (step: Step)
        ensures
            step@ == stream_admission(self@, scheduler@, scheduler.capacity(), request@),
    {
        if scheduler.is_busy(self.max_load) {
            return Step {
                state: GatewayState::Finished,
                action: GatewayAction::Fail(GatewayError::AllBusy),
            };
        }
        let planned = scheduler.forward_request_stream(
            request.path.as_str(),
            request.method.as_str(),
            request.body,
            request.headers,
        );
        match planned {
            Ok(call) => Step {
                state: GatewayState::Finished,
                action: GatewayAction::StreamFromWorker(call),
            },
            Err(DispatchError::NoCandidate) => Step {
                state: GatewayState::Finished,
                action: GatewayAction::Fail(GatewayError::AllBusy),
            },
            Err(DispatchError::Upstream(cause)) => Step {
                state: GatewayState::Finished,
                action: GatewayAction::Fail(GatewayError::Upstream(cause)),
            },
        }
    }

    /// Takes one event: see `gateway_step`.
    pub fn on_event(&self, state: GatewayState, event: GatewayEvent) -> (step: Step)
        ensures
            step@ == gateway_step(self@, state@, event@),
    {
        match state {
            GatewayState::Finished => Step {
                state: GatewayState::Finished,
                action: GatewayAction::Nothing,
            },
            GatewayState::AwaitingWorker => match event {
                GatewayEvent::Cancelled => Step {
                    state: GatewayState::Finished,
                    action: GatewayAction::Nothing,
                },
                GatewayEvent::WorkerReplied(outcome) => match complete_forward(outcome) {
                    Ok(forwarded) => Step {
                        state: GatewayState::Finished,
                        action: GatewayAction::Return(
                            Response {
                                status: forwarded.0 as i32,
                                body: forwarded.1,
                                headers: forwarded.2,
                            },
                        ),
                    },
                    Err(DispatchError::Upstream(cause)) => Step {
                        state: GatewayState::Finished,
                        action: GatewayAction::Fail(GatewayError::Upstream(cause)),
                    },
                    Err(DispatchError::NoCandidate) => Step {
                        state: GatewayState::Finished,
                        action: GatewayAction::Nothing,
                    },
                },
                GatewayEvent::PeerReplied(_) => Step {
                    state: GatewayState::AwaitingWorker,
                    action: GatewayAction::Nothing,
                },
            },
            GatewayState::AwaitingPeer { index, request } => match event {
                GatewayEvent::Cancelled => Step {
                    state: GatewayState::Finished,
                    action: GatewayAction::Nothing,
                },
                GatewayEvent::PeerReplied(Ok(response)) => Step {
                    state: GatewayState::Finished,
                    action: GatewayAction::Return(response),
                },
                GatewayEvent::PeerReplied(Err(_)) => {
                    if index < self.remote_servers.len() {
                        self.try_from(request, index + 1)
                    } else {
                        proof {
                            lemma_no_candidate(
                                self@.peers,
                                visited_with(request@, self@.identity),
                                index + 1,
                            );
                        }
                        Step {
                            state: GatewayState::Finished,
                            action: GatewayAction::Fail(GatewayError::AllPeersBusy),
                        }
                    }
                },
                GatewayEvent::WorkerReplied(_) => Step {
                    state: GatewayState::AwaitingPeer { index, request },
                    action: GatewayAction::Nothing,
                },
            },
        }
    }

    /// What this gateway says of itself: its version, the chat model files
    /// of the records of the pool, and the endpoints of the edge.
    pub fn get_info(&self, scheduler: &Scheduler) -> (info: Info)
        ensures
            info.version@ == GATEWAY_VERSION@,
            info.models.deep_view() == loaded_models(scheduler@),
            info.endpoints.deep_view() == endpoint_list(),
    {
        let instances = scheduler.list_instances();
        let mut models: Vec<String> = Vec::new();
        let mut i: usize = 0;
        while i < instances.len()
            invariant
                i <= instances.len(),
                models.len() == i,
                crate::scheduler::pool_view(instances@) == scheduler@,
                forall|k: int|
                    0 <= k < i ==> (#[trigger] models[k])@ == path_or_empty(
                        scheduler@[k].config.chat_model_path,
                    ),
            decreases instances.len() - i,
        {
            proof {
                assert(crate::scheduler::pool_view(instances@)[i as int] == instances@[i as int]@);
            }
            models.push(unwrap_or_empty(&instances[i].config.chat_model_path));
            i = i + 1;
        }
        proof {
            assert(crate::scheduler::pool_view(instances@).len() == instances@.len());
            assert(models.deep_view() =~= loaded_models(scheduler@));
        }
        let mut endpoints: Vec<String> = Vec::new();
        endpoints.push("/v1/chat/completions".to_owned());
        endpoints.push("/v1/completions".to_owned());
        endpoints.push("/v1/models".to_owned());
        endpoints.push("/v1/embeddings".to_owned());
        endpoints.push("/v1/chunks".to_owned());
        endpoints.push("/v1/audio/speech".to_owned());
        endpoints.push("/v1/info".to_owned());
        proof {
            assert(endpoints.deep_view() =~= endpoint_list());
        }
        Info { version: GATEWAY_VERSION.to_owned(), models, endpoints }
    }
}

/// Whether `wanted` is among `list`.
fn contains_text(list: &Vec<String>, wanted: &String) -> (found: bool)
    ensures
        found == list.deep_view().contains(wanted@),
{
    let mut i: usize = 0;
    while i < list.len()
        invariant
            i <= list.len(),
            forall|k: int| 0 <= k < i ==> (#[trigger] list.deep_view()[k]) != wanted@,
        decreases list.len() - i,
    {
        proof {
            assert(list.deep_view()[i as int] == list[i as int]@);
        }
        if list[i] == *wanted {
            return true;
        }
        i = i + 1;
    }
    false
}

/// The candidate found by a scan from `from` is `next_candidate`.
pub proof fn lemma_candidate_found(
    peers: Seq<PeerView>,
    visited: Seq<Seq<char>>,
    from: int,
    i: int,
)
    requires
        is_next_candidate(peers, visited, from, i),
    ensures
        next_candidate(peers, visited, from) == i,
{
    let c = choose|c: int| is_next_candidate(peers, visited, from, c);
    assert(is_next_candidate(peers, visited, from, c));
    if c < i {
        assert(!is_candidate(peers[c], visited));
    }
    if i < c {
        assert(!is_candidate(peers[i], visited));
    }
}

/// A scan from `from` that finds no candidate.
pub proof fn lemma_no_candidate(peers: Seq<PeerView>, visited: Seq<Seq<char>>, from: int)
    requires
        forall|k: int| from <= k < peers.len() ==> !is_candidate(#[trigger] peers[k], visited),
    ensures
        next_candidate(peers, visited, from) == peers.len(),
{
    if exists|i: int| is_next_candidate(peers, visited, from, i) {
        let c = choose|c: int| is_next_candidate(peers, visited, from, c);
        assert(!is_candidate(peers[c], visited));
    }
}

/// `next_candidate` is at or after `from`, and within the peers exactly
/// where it is the place of a candidate.
pub proof fn lemma_next_candidate_range(peers: Seq<PeerView>, visited: Seq<Seq<char>>, from: int)
    requires
        0 <= from,
    ensures
        next_candidate(peers, visited, from) <= peers.len(),
        next_candidate(peers, visited, from) < peers.len() ==> is_next_candidate(
            peers,
            visited,
            from,
            next_candidate(peers, visited, from),
        ),
        next_candidate(peers, visited, from) == peers.len() ==> forall|k: int|
            from <= k < peers.len() ==> !is_candidate(#[trigger] peers[k], visited),
{
    if exists|i: int| is_next_candidate(peers, visited, from, i) {
        let c = choose|c: int| is_next_candidate(peers, visited, from, c);
        assert(is_next_candidate(peers, visited, from, c));
    } else {
        assert forall|k: int| from <= k < peers.len() implies !is_candidate(
            #[trigger] peers[k],
            visited,
        ) by {
            if is_candidate(peers[k], visited) {
                lemma_some_candidate(peers, visited, from, k);
            }
        }
    }
}

proof fn lemma_some_candidate(peers: Seq<PeerView>, visited: Seq<Seq<char>>, from: int, w: int)
    requires
        0 <= from <= w < peers.len(),
        is_candidate(peers[w], visited),
    ensures
        exists|i: int| is_next_candidate(peers, visited, from, i),
    decreases w - from,
{
    if forall|k: int| from <= k < w ==> !is_candidate(#[trigger] peers[k], visited) {
        assert(is_next_candidate(peers, visited, from, w));
    } else {
        let k = choose|k: int| from <= k < w && is_candidate(#[trigger] peers[k], visited);
        lemma_some_candidate(peers, visited, from, k);
    }
}

/// Whether a step calls a peer.
pub open spec fn calls_peer(step: StepView) -> bool {
    step.action is CallPeer
}

/// With every peer disabled the peer path settles the request with
/// `AllPeersBusy` at once, whatever the request.
pub proof fn law_no_enabled_peer_all_busy(gateway: GatewayView, request: RequestView)
    requires
        forall|i: int| 0 <= i < gateway.peers.len() ==> !(#[trigger] gateway.peers[i]).enabled,
    ensures
        peer_path(gateway, request) == failed(GatewayErrorView::AllPeersBusy),
{
}

/// A request that has been at this gateway before is refused, and no peer
/// is called: with `CycleDetected` where a peer is enabled, with
/// `AllPeersBusy` where none is.
pub proof fn law_cycle_refused(gateway: GatewayView, request: RequestView)
    requires
        request.route_hops.contains(gateway.identity),
    ensures
        !calls_peer(peer_path(gateway, request)),
        peer_path(gateway, request) == failed(GatewayErrorView::CycleDetected) || peer_path(
            gateway,
            request,
        ) == failed(GatewayErrorView::AllPeersBusy),
{
}

/// A request is never sent to a gateway that it has visited: whenever a
/// peer is called, on the first step of the peer path or after the failure
/// of another peer, that peer is enabled, its name is not among the
/// gateways the request has visited, and it is not this gateway itself.
pub proof fn law_never_sent_to_visited(gateway: GatewayView, request: RequestView, from: int)
    requires
        0 <= from,
    ensures
        peer_path(gateway, request).action matches GatewayActionView::CallPeer(call) ==> {
            &&& 0 <= call.index < gateway.peers.len()
            &&& gateway.peers[call.index].enabled
            &&& !request.route_hops.contains(gateway.peers[call.index].name)
            &&& gateway.peers[call.index].name != gateway.identity
        },
        try_peers_from(gateway, request, from).action matches GatewayActionView::CallPeer(call)
            ==> {
            &&& from <= call.index < gateway.peers.len()
            &&& gateway.peers[call.index].enabled
            &&& !request.route_hops.contains(gateway.peers[call.index].name)
            &&& gateway.peers[call.index].name != gateway.identity
        },
{
    let visited = visited_with(request, gateway.identity);
    lemma_called_peer_is_new(gateway, request, from);
    lemma_called_peer_is_new(gateway, request, 0);
}

proof fn lemma_called_peer_is_new(gateway: GatewayView, request: RequestView, from: int)
    requires
        0 <= from,
    ensures
        try_peers_from(gateway, request, from).action matches GatewayActionView::CallPeer(call)
            ==> {
            &&& from <= call.index < gateway.peers.len()
            &&& gateway.peers[call.index].enabled
            &&& !request.route_hops.contains(gateway.peers[call.index].name)
            &&& gateway.peers[call.index].name != gateway.identity
        },
{
    let visited = visited_with(request, gateway.identity);
    let index = next_candidate(gateway.peers, visited, from);
    lemma_next_candidate_range(gateway.peers, visited, from);
    if index < gateway.peers.len() {
        let name = gateway.peers[index].name;
        assert(!visited.contains(name));
        assert(visited[visited.len() - 1] == gateway.identity);
        if request.route_hops.contains(name) {
            let k = choose|k: int| 0 <= k < request.route_hops.len() && request.route_hops[k]
                == name;
            assert(visited[k] == name);
        }
    }
}

/// A request that has visited as many gateways as its hop limit allows is
/// refused, and no peer is called: with `HopLimitExceeded`, unless no peer
/// is enabled or the request has been at this gateway before, which are
/// answered first.
pub proof fn law_hop_bound_refused(gateway: GatewayView, request: RequestView)
    requires
        request.route_hops.len() >= request.hop_limit,
    ensures
        !calls_peer(peer_path(gateway, request)),
        peer_path(gateway, request).state == GatewayStateView::Finished,
        peer_path(gateway, request).action is Fail,
        !no_peer_enabled(gateway.peers) && !request.route_hops.contains(gateway.identity)
            ==> peer_path(gateway, request) == failed(GatewayErrorView::HopLimitExceeded),
{
}

/// A call to a peer carries the request with this gateway added to the
/// gateways it has visited, so that the peer can tell where it has been.
pub proof fn law_peer_call_marks_hop(gateway: GatewayView, request: RequestView, from: int)
    requires
        0 <= from,
    ensures
        try_peers_from(gateway, request, from).action matches GatewayActionView::CallPeer(call)
            ==> call.request.route_hops == request.route_hops.push(gateway.identity)
            && call.request.route_hops.contains(gateway.identity),
{
    let hops = request.route_hops.push(gateway.identity);
    assert(hops[hops.len() - 1] == gateway.identity);
}

/// An upstream error is final: after a worker was called, no peer is.
pub proof fn law_upstream_error_not_retried(gateway: GatewayView, event: GatewayEventView)
    ensures
        !calls_peer(gateway_step(gateway, GatewayStateView::AwaitingWorker, event)),
{
}

/// Whether the peer at `j` is the first at or after `from` that is a
/// candidate and answers, `replies[k]` being what the peer at `k` does when
/// called.
pub open spec fn is_first_answering(
    peers: Seq<PeerView>,
    visited: Seq<Seq<char>>,
    replies: Seq<Result<ResponseView, Seq<char>>>,
    from: int,
    j: int,
) -> bool {
    &&& 0 <= from <= j < peers.len()
    &&& is_candidate(peers[j], visited) && replies[j] is Ok
    &&& forall|k: int|
        from <= k < j ==> !(is_candidate(#[trigger] peers[k], visited) && replies[k] is Ok)
}

/// What the machine settles on when it is driven from `step` and every call
/// to the peer at `k` ends as `replies[k]` says; `fuel` bounds the calls.
pub open spec fn fan_out_outcome(
    gateway: GatewayView,
    step: StepView,
    replies: Seq<Result<ResponseView, Seq<char>>>,
    fuel: nat,
) -> GatewayActionView
    decreases fuel,
{
    match step.state {
        GatewayStateView::AwaitingPeer { index, request } => if fuel == 0 || !(0 <= index
            < replies.len()) {
            step.action
        } else {
            fan_out_outcome(
                gateway,
                gateway_step(gateway, step.state, GatewayEventView::PeerReplied(replies[index])),
                replies,
                (fuel - 1) as nat,
            )
        },
        _ => step.action,
    }
}

/// The fan-out answers with the response of the first candidate, in the
/// order of declaration, whose call succeeds, and with `AllPeersBusy` where
/// no candidate answers. Peers that are disabled, and peers that the
/// request has visited, are never called.
pub proof fn law_fan_out_first_answer(
    gateway: GatewayView,
    request: RequestView,
    replies: Seq<Result<ResponseView, Seq<char>>>,
    from: int,
    fuel: nat,
)
    requires
        replies.len() == gateway.peers.len(),
        0 <= from <= gateway.peers.len(),
        fuel >= gateway.peers.len() - from,
    ensures
        forall|j: int|
            is_first_answering(
                gateway.peers,
                visited_with(request, gateway.identity),
                replies,
                from,
                j,
            ) ==> (replies[j] matches Ok(response) && fan_out_outcome(
                gateway,
                try_peers_from(gateway, request, from),
                replies,
                fuel,
            ) == GatewayActionView::Return(response)),
        (forall|k: int|
            from <= k < gateway.peers.len() ==> !(is_candidate(
                #[trigger] gateway.peers[k],
                visited_with(request, gateway.identity),
            ) && replies[k] is Ok)) ==> fan_out_outcome(
            gateway,
            try_peers_from(gateway, request, from),
            replies,
            fuel,
        ) == GatewayActionView::Fail(GatewayErrorView::AllPeersBusy),
    decreases gateway.peers.len() - from,
{
    let peers = gateway.peers;
    let visited = visited_with(request, gateway.identity);
    let step = try_peers_from(gateway, request, from);
    let outcome = fan_out_outcome(gateway, step, replies, fuel);
    let index = next_candidate(peers, visited, from);
    lemma_next_candidate_range(peers, visited, from);
    if index < peers.len() {
        assert(is_next_candidate(peers, visited, from, index));
        let next = gateway_step(gateway, step.state, GatewayEventView::PeerReplied(replies[index]));
        assert(outcome == fan_out_outcome(gateway, next, replies, (fuel - 1) as nat));
        match replies[index] {
            Ok(response) => {
                assert(outcome == GatewayActionView::Return(response));
                assert forall|j: int| is_first_answering(peers, visited, replies, from, j) implies j
                    == index by {
                    if j < index {
                        assert(!is_candidate(peers[j], visited));
                    }
                    if index < j {
                        assert(!(is_candidate(peers[index], visited) && replies[index] is Ok));
                    }
                }
                assert(is_candidate(peers[index], visited) && replies[index] is Ok);
            },
            Err(cause) => {
                assert(next == try_peers_from(gateway, request, index + 1));
                law_fan_out_first_answer(gateway, request, replies, index + 1, (fuel - 1) as nat);
                assert forall|j: int| is_first_answering(
                    peers,
                    visited,
                    replies,
                    from,
                    j,
                ) implies is_first_answering(peers, visited, replies, index + 1, j) by {
                    if j < index {
                        assert(!is_candidate(peers[j], visited));
                    }
                }
            },
        }
    } else {
        assert(outcome == GatewayActionView::Fail(GatewayErrorView::AllPeersBusy));
        assert forall|j: int| is_first_answering(peers, visited, replies, from, j) implies false by {
            assert(!is_candidate(peers[j], visited));
        }
    }
}

/// Two gateways that declare each other, each under the other's identity,
/// do not send a request to and fro. A request that has visited no gateway
/// and may visit one goes from the first gateway to the second, with the
/// first among its hops; the second calls nobody and refuses it with
/// `CycleDetected`, or with `HopLimitExceeded` where one visit is all the
/// request may make; and the first then settles it with `AllPeersBusy`.
pub proof fn law_two_gateways_one_hop(
    first: GatewayView,
    second: GatewayView,
    request: RequestView,
    cause: Seq<char>,
)
    requires
        first.peers.len() == 1 && first.peers[0].enabled && first.peers[0].name
            == second.identity,
        second.peers.len() == 1 && second.peers[0].enabled && second.peers[0].name
            == first.identity,
        first.identity != second.identity,
        request.route_hops.len() == 0,
        effective_hop_limit(request.hop_limit, first.hop_ceiling) >= 1,
    ensures
        peer_path(first, request).action matches GatewayActionView::CallPeer(call) && {
            &&& call.index == 0
            &&& call.request.route_hops == seq![first.identity]
            &&& !calls_peer(peer_path(second, call.request))
            &&& peer_path(second, call.request) == failed(GatewayErrorView::CycleDetected)
                || peer_path(second, call.request) == failed(GatewayErrorView::HopLimitExceeded)
        },
        gateway_step(
            first,
            peer_path(first, request).state,
            GatewayEventView::PeerReplied(Err(cause)),
        ) == failed(GatewayErrorView::AllPeersBusy),
{
    let visited = visited_with(request, first.identity);
    assert(visited =~= seq![first.identity]);
    assert(first.peers[0].enabled);
    assert(!request.route_hops.contains(first.identity));
    assert(!visited.contains(second.identity)) by {
        if visited.contains(second.identity) {
            let k = choose|k: int| 0 <= k < visited.len() && visited[k] == second.identity;
            assert(visited[k] == first.identity);
        }
    }
    assert(is_next_candidate(first.peers, visited, 0, 0));
    lemma_candidate_found(first.peers, visited, 0, 0);
    let sent = outbound_request(request, first.identity, first.hop_ceiling);
    assert(sent.route_hops =~= seq![first.identity]);
    assert(second.peers[0].enabled);
    assert(!sent.route_hops.contains(second.identity)) by {
        if sent.route_hops.contains(second.identity) {
            let k = choose|k: int|
                0 <= k < sent.route_hops.len() && sent.route_hops[k] == second.identity;
            assert(sent.route_hops[k] == first.identity);
        }
    }
    let seen = visited_with(sent, second.identity);
    assert(seen[0] == first.identity);
    assert(seen.contains(second.peers[0].name));
    lemma_no_candidate(second.peers, seen, 0);
    lemma_no_candidate(first.peers, visited, 1);
}

} // verus!
