use assistant::config::LlamaServerConfig;
use assistant::dispatch::UpstreamReply;
use assistant::grpc_server::{
    peers_from_config, GatewayAction, GatewayError, GatewayEvent, GatewayState, GrpcServer,
    RemoteServerConfig, Step, DEFAULT_HOP_LIMIT, GATEWAY_VERSION,
};
use assistant::load::LoadThreshold;
use assistant::message::{Request, Response};
use assistant::scheduler::Scheduler;

const CHAT_BODY: &str = "{\"model\":\"m\",\"messages\":[{\"role\":\"user\",\"content\":\"hi\"}]}";
const STREAM_BODY: &str =
    "{\"model\":\"m\",\"stream\":true,\"messages\":[{\"role\":\"user\",\"content\":\"hi\"}]}";

fn pool(max_instances: usize, running: usize) -> Scheduler {
    let mut s = Scheduler::new("/d".to_string(), max_instances);
    for i in 0..running {
        let cfg = LlamaServerConfig {
            name: format!("w{}", i),
            chat_model_path: Some(format!("/m/{}.gguf", i)),
            embedding_model_path: None,
            tts_model_path: None,
            config_path: Some(format!("/w/{}.toml", i)),
        };
        let toml = format!("[server]\nsocket_addr = \"127.0.0.1:{}\"\n", 9000 + i);
        s.start_instance_with_config(cfg, Some(toml), "/").unwrap();
    }
    s
}

fn peer(name: &str, addr: &str, enabled: bool) -> RemoteServerConfig {
    RemoteServerConfig {
        name: name.to_string(),
        grpc_addr: addr.to_string(),
        weight: 1,
        enabled,
    }
}

fn gateway(identity: &str, numer: u32, denom: u32, peers: Vec<RemoteServerConfig>) -> GrpcServer {
    GrpcServer::new(LoadThreshold::new(numer, denom).unwrap(), peers)
        .with_identity(identity.to_string())
}

fn chat_request(body: &str) -> Request {
    Request {
        path: "/v1/chat/completions".to_string(),
        method: "POST".to_string(),
        body: body.as_bytes().to_vec(),
        headers: vec![("content-type".to_string(), "application/json".to_string())],
        route_hops: vec![],
        hop_limit: DEFAULT_HOP_LIMIT,
    }
}

fn ok_response(body: &str) -> Response {
    Response { status: 200, body: body.as_bytes().to_vec(), headers: vec![] }
}

fn failed_with(step: &Step) -> Option<&GatewayError> {
    match &step.action {
        GatewayAction::Fail(e) => Some(e),
        _ => None,
    }
}

#[test]
fn single_instance_unary() {
    let nine_tenths = LoadThreshold::new(9, 10).unwrap();
    let g = GrpcServer::new(nine_tenths, vec![]);
    // A pool of one is not busy at 0.9 while nothing runs in it, and is
    // once its one worker runs: the load is then 1.0.
    assert!(!pool(1, 0).is_busy(nine_tenths));
    assert!(pool(1, 1).is_busy(nine_tenths));
    // With room to spare the one worker serves the request.
    let s = pool(2, 1);
    assert!(!s.is_busy(nine_tenths));
    let step = g.forward_request(&s, chat_request(CHAT_BODY));
    let call = match step.action {
        GatewayAction::CallWorker(call) => call,
        other => panic!("{:?}", other),
    };
    assert_eq!(call.url, "http://127.0.0.1:9000/v1/chat/completions");
    assert_eq!(call.method, "POST");
    assert_eq!(call.body, CHAT_BODY.as_bytes().to_vec());
    assert_eq!(call.headers, vec![("content-type".to_string(), "application/json".to_string())]);
    assert!(matches!(step.state, GatewayState::AwaitingWorker));
    let worker_body = b"{\"choices\":[]}".to_vec();
    let reply = UpstreamReply {
        status: 200,
        headers: vec![("content-type".to_string(), b"application/json".to_vec())],
        body: worker_body.clone(),
    };
    let done = g.on_event(step.state, GatewayEvent::WorkerReplied(Ok(reply)));
    assert!(matches!(done.state, GatewayState::Finished));
    match done.action {
        GatewayAction::Return(response) => {
            assert_eq!(response.status, 200);
            assert_eq!(response.body, worker_body);
            assert_eq!(
                response.headers,
                vec![("content-type".to_string(), "application/json".to_string())]
            );
        }
        other => panic!("{:?}", other),
    }
}

#[test]
fn single_instance_at_full_load_hands_over_to_the_peers() {
    let s = pool(1, 1);
    let g = GrpcServer::new(LoadThreshold::new(9, 10).unwrap(), vec![]);
    let step = g.forward_request(&s, chat_request(CHAT_BODY));
    assert!(matches!(failed_with(&step), Some(GatewayError::AllPeersBusy)));
}

#[test]
fn local_busy_peer_admits() {
    let s = pool(1, 1);
    let g = gateway("g1", 1, 2, vec![peer("p", "10.0.0.2:50051", true)]);
    let step = g.forward_request(&s, chat_request(CHAT_BODY));
    let call = match &step.action {
        GatewayAction::CallPeer(call) => call,
        other => panic!("the local worker must not be called: {:?}", other),
    };
    assert_eq!(call.index, 0);
    assert_eq!(call.url, "http://10.0.0.2:50051");
    assert_eq!(call.request.path, "/v1/chat/completions");
    assert_eq!(call.request.method, "POST");
    assert_eq!(call.request.body, CHAT_BODY.as_bytes().to_vec());
    assert_eq!(call.request.route_hops, vec!["g1".to_string()]);
    let done = g.on_event(step.state, GatewayEvent::PeerReplied(Ok(ok_response("ok"))));
    match done.action {
        GatewayAction::Return(response) => {
            assert_eq!(response.status, 200);
            assert_eq!(response.body, b"ok".to_vec());
        }
        other => panic!("{:?}", other),
    }
    assert!(matches!(done.state, GatewayState::Finished));
}

#[test]
fn all_peers_refuse() {
    let s = pool(1, 1);
    let g = gateway("g1", 1, 2, vec![peer("p", "10.0.0.2:50051", true)]);
    let step = g.forward_request(&s, chat_request(CHAT_BODY));
    assert!(matches!(step.action, GatewayAction::CallPeer(_)));
    let done = g.on_event(step.state, GatewayEvent::PeerReplied(Err("unavailable".to_string())));
    let error = failed_with(&done).expect("the request must fail");
    assert!(matches!(error, GatewayError::AllPeersBusy));
    assert!(error.is_resource_exhausted());
    assert_eq!(error.message(), "All servers are busy");
    assert!(matches!(done.state, GatewayState::Finished));
}

#[test]
fn no_candidate_goes_to_the_peers() {
    let s = pool(2, 0);
    let g = gateway("g1", 9, 10, vec![peer("p", "10.0.0.2:50051", true)]);
    let step = g.forward_request(&s, chat_request(CHAT_BODY));
    assert!(matches!(step.action, GatewayAction::CallPeer(_)));
}

#[test]
fn upstream_error_is_not_retried_on_a_peer() {
    let s = pool(2, 1);
    let g = gateway("g1", 9, 10, vec![peer("p", "10.0.0.2:50051", true)]);
    let step = g.forward_request(&s, chat_request(CHAT_BODY));
    assert!(matches!(step.action, GatewayAction::CallWorker(_)));
    let done = g.on_event(step.state, GatewayEvent::WorkerReplied(Err("timed out".to_string())));
    match failed_with(&done) {
        Some(GatewayError::Upstream(cause)) => assert_eq!(cause, "timed out"),
        other => panic!("{:?}", other),
    }
    assert!(!failed_with(&done).unwrap().is_resource_exhausted());
    assert_eq!(failed_with(&done).unwrap().message(), "timed out");
}

#[test]
fn peers_are_tried_in_order_and_disabled_ones_skipped() {
    let s = pool(1, 1);
    let g = gateway(
        "g1",
        1,
        2,
        vec![
            peer("off", "10.0.0.1:1", false),
            peer("a", "10.0.0.2:2", true),
            peer("off2", "10.0.0.3:3", false),
            peer("b", "10.0.0.4:4", true),
        ],
    );
    let first = g.forward_request(&s, chat_request(CHAT_BODY));
    match &first.action {
        GatewayAction::CallPeer(call) => {
            assert_eq!(call.index, 1);
            assert_eq!(call.url, "http://10.0.0.2:2");
        }
        other => panic!("{:?}", other),
    }
    let second = g.on_event(first.state, GatewayEvent::PeerReplied(Err("down".to_string())));
    match &second.action {
        GatewayAction::CallPeer(call) => {
            assert_eq!(call.index, 3);
            assert_eq!(call.url, "http://10.0.0.4:4");
            assert_eq!(call.request.body, CHAT_BODY.as_bytes().to_vec());
            assert_eq!(call.request.route_hops, vec!["g1".to_string()]);
        }
        other => panic!("{:?}", other),
    }
    let third = g.on_event(second.state, GatewayEvent::PeerReplied(Err("down".to_string())));
    assert!(matches!(failed_with(&third), Some(GatewayError::AllPeersBusy)));
}

#[test]
fn fan_out_with_every_peer_disabled_is_a_no_op() {
    let g = gateway(
        "g1",
        1,
        2,
        vec![peer("a", "10.0.0.1:1", false), peer("b", "10.0.0.2:2", false)],
    );
    let step = g.try_remote_forward(chat_request(CHAT_BODY));
    assert!(matches!(failed_with(&step), Some(GatewayError::AllPeersBusy)));
    assert!(matches!(step.state, GatewayState::Finished));
    let none = gateway("g1", 1, 2, vec![]);
    let step = none.try_remote_forward(chat_request(CHAT_BODY));
    assert!(matches!(failed_with(&step), Some(GatewayError::AllPeersBusy)));
}

#[test]
fn request_that_was_here_before_is_refused() {
    let g = gateway("g1", 1, 2, vec![peer("p", "10.0.0.2:50051", true)]);
    let mut request = chat_request(CHAT_BODY);
    request.route_hops = vec!["g0".to_string(), "g1".to_string()];
    request.hop_limit = 10;
    let g = g.with_hop_ceiling(10);
    let step = g.try_remote_forward(request);
    assert!(matches!(failed_with(&step), Some(GatewayError::CycleDetected)));
    assert!(failed_with(&step).unwrap().is_resource_exhausted());
    assert!(matches!(step.state, GatewayState::Finished));
}

#[test]
fn request_at_its_hop_limit_is_refused() {
    let g = gateway("g9", 1, 2, vec![peer("p", "10.0.0.2:50051", true)]);
    let mut request = chat_request(CHAT_BODY);
    request.route_hops = vec!["a".to_string(), "b".to_string(), "c".to_string()];
    request.hop_limit = 3;
    let step = g.try_remote_forward(request);
    assert!(matches!(failed_with(&step), Some(GatewayError::HopLimitExceeded)));
    let mut request = chat_request(CHAT_BODY);
    request.route_hops = vec!["a".to_string(), "b".to_string()];
    request.hop_limit = 3;
    assert!(matches!(g.try_remote_forward(request).action, GatewayAction::CallPeer(_)));
    let mut request = chat_request(CHAT_BODY);
    request.hop_limit = 0;
    let step = g.try_remote_forward(request);
    assert!(matches!(failed_with(&step), Some(GatewayError::HopLimitExceeded)));
}

#[test]
fn hop_limit_of_a_request_is_held_to_the_ceiling() {
    let g = gateway("g9", 1, 2, vec![peer("p", "10.0.0.2:50051", true)]).with_hop_ceiling(2);
    let mut request = chat_request(CHAT_BODY);
    request.route_hops = vec!["a".to_string(), "b".to_string()];
    request.hop_limit = 100;
    let step = g.try_remote_forward(request);
    assert!(matches!(failed_with(&step), Some(GatewayError::HopLimitExceeded)));
    let mut request = chat_request(CHAT_BODY);
    request.route_hops = vec!["a".to_string()];
    request.hop_limit = 100;
    match g.try_remote_forward(request).action {
        GatewayAction::CallPeer(call) => assert_eq!(call.request.hop_limit, 2),
        other => panic!("{:?}", other),
    }
}

// Runs a request through two gateways that list each other, both with an
// empty pool, and gives the gateways called and the error that ends it.
// Where `named`, each gateway goes by the name under which the other
// declares it.
fn ping_pong(ceiling: u32, named: bool) -> (Vec<&'static str>, GatewayError) {
    let empty = pool(1, 0);
    let (name_of_g1, name_of_g2) = if named { ("g1", "g2") } else { ("left", "right") };
    let g1 = gateway("g1", 1, 2, vec![peer(name_of_g2, "g2:50051", true)])
        .with_hop_ceiling(ceiling);
    let g2 = gateway("g2", 1, 2, vec![peer(name_of_g1, "g1:50051", true)])
        .with_hop_ceiling(ceiling);
    let mut visited = vec!["g1"];
    let mut at_g1 = true;
    let mut request = chat_request(CHAT_BODY);
    request.hop_limit = ceiling;
    for _ in 0..16 {
        let here = if at_g1 { &g1 } else { &g2 };
        let step = here.forward_request(&empty, request);
        match step.action {
            GatewayAction::CallPeer(call) => {
                request = call.request;
                at_g1 = !at_g1;
                visited.push(if at_g1 { "g1" } else { "g2" });
            }
            GatewayAction::Fail(error) => return (visited, error),
            other => panic!("{:?}", other),
        }
    }
    panic!("the request ping-pongs");
}

#[test]
fn cycle_guard() {
    let (visited, error) = ping_pong(DEFAULT_HOP_LIMIT, true);
    assert_eq!(visited, vec!["g1", "g2"]);
    assert!(matches!(error, GatewayError::CycleDetected));
    assert!(error.is_resource_exhausted());
}

#[test]
fn cycle_guard_by_the_hop_limit() {
    let (visited, error) = ping_pong(1, true);
    assert_eq!(visited, vec!["g1", "g2"]);
    assert!(matches!(error, GatewayError::HopLimitExceeded));
    let (visited, error) = ping_pong(1, false);
    assert_eq!(visited, vec!["g1", "g2"]);
    assert!(matches!(error, GatewayError::HopLimitExceeded));
}

#[test]
fn cycle_guard_between_gateways_that_do_not_know_each_other_by_name() {
    let (visited, error) = ping_pong(DEFAULT_HOP_LIMIT, false);
    assert_eq!(visited, vec!["g1", "g2", "g1"]);
    assert!(matches!(error, GatewayError::CycleDetected));
}

#[test]
fn visited_peers_are_passed_over() {
    let g = gateway(
        "g3",
        1,
        2,
        vec![peer("g1", "g1:1", true), peer("g4", "g4:1", true), peer("g3", "g3:1", true)],
    );
    let mut request = chat_request(CHAT_BODY);
    request.route_hops = vec!["g1".to_string(), "g2".to_string()];
    request.hop_limit = 10;
    let g = g.with_hop_ceiling(10);
    let step = g.try_remote_forward(request);
    match &step.action {
        GatewayAction::CallPeer(call) => {
            assert_eq!(call.index, 1);
            assert_eq!(call.url, "http://g4:1");
            assert_eq!(
                call.request.route_hops,
                vec!["g1".to_string(), "g2".to_string(), "g3".to_string()]
            );
        }
        other => panic!("{:?}", other),
    }
    let done = g.on_event(step.state, GatewayEvent::PeerReplied(Err("down".to_string())));
    assert!(matches!(failed_with(&done), Some(GatewayError::AllPeersBusy)));
}

#[test]
fn streamed_request_is_served_locally() {
    let s = pool(2, 1);
    let g = gateway("g1", 9, 10, vec![peer("p", "10.0.0.2:50051", true)]);
    let step = g.forward_request_stream(&s, chat_request(STREAM_BODY));
    match step.action {
        GatewayAction::StreamFromWorker(call) => {
            assert_eq!(call.url, "http://127.0.0.1:9000/v1/chat/completions");
            assert_eq!(call.body, STREAM_BODY.as_bytes().to_vec());
        }
        other => panic!("{:?}", other),
    }
}

#[test]
fn streamed_request_is_not_relayed_through_peers() {
    let g = gateway("g1", 1, 2, vec![peer("p", "10.0.0.2:50051", true)]);
    let busy = pool(1, 1);
    let step = g.forward_request_stream(&busy, chat_request(STREAM_BODY));
    assert!(matches!(failed_with(&step), Some(GatewayError::AllBusy)));
    let empty = pool(4, 0);
    let step = g.forward_request_stream(&empty, chat_request(STREAM_BODY));
    assert!(matches!(failed_with(&step), Some(GatewayError::AllBusy)));
    assert!(failed_with(&step).unwrap().is_resource_exhausted());
}

#[test]
fn cancellation_settles_without_an_answer() {
    let s = pool(1, 1);
    let g = gateway("g1", 1, 2, vec![peer("a", "a:1", true), peer("b", "b:1", true)]);
    let step = g.forward_request(&s, chat_request(CHAT_BODY));
    let cancelled = g.on_event(step.state, GatewayEvent::Cancelled);
    assert!(matches!(cancelled.action, GatewayAction::Nothing));
    assert!(matches!(cancelled.state, GatewayState::Finished));
    let after = g.on_event(cancelled.state, GatewayEvent::PeerReplied(Err("late".to_string())));
    assert!(matches!(after.action, GatewayAction::Nothing));
    assert!(matches!(after.state, GatewayState::Finished));
}

#[test]
fn event_that_is_not_awaited_changes_nothing() {
    let g = gateway("g1", 1, 2, vec![peer("a", "a:1", true)]);
    let step = g.on_event(
        GatewayState::AwaitingWorker,
        GatewayEvent::PeerReplied(Ok(ok_response("x"))),
    );
    assert!(matches!(step.action, GatewayAction::Nothing));
    assert!(matches!(step.state, GatewayState::AwaitingWorker));
}

#[test]
fn info_lists_models_and_endpoints() {
    let s = pool(3, 2);
    let g = gateway("g1", 1, 2, vec![]);
    let info = g.get_info(&s);
    assert_eq!(info.version, GATEWAY_VERSION);
    assert_eq!(info.models, vec!["/m/0.gguf".to_string(), "/m/1.gguf".to_string()]);
    assert_eq!(
        info.endpoints,
        vec![
            "/v1/chat/completions",
            "/v1/completions",
            "/v1/models",
            "/v1/embeddings",
            "/v1/chunks",
            "/v1/audio/speech",
            "/v1/info",
        ]
    );
}

#[test]
fn fresh_gateway_has_an_identity_of_its_own() {
    let a = GrpcServer::new(LoadThreshold::full(), vec![]);
    let b = GrpcServer::new(LoadThreshold::full(), vec![]);
    assert_eq!(a.identity().chars().count(), 36);
    assert_ne!(a.identity(), b.identity());
}

#[test]
fn peers_are_taken_from_the_configuration_in_order() {
    let declared = vec![
        assistant::config::RemoteServerConfig {
            name: "a".to_string(),
            grpc_addr: "a:1".to_string(),
            weight: 3,
            enabled: false,
        },
        assistant::config::RemoteServerConfig {
            name: "b".to_string(),
            grpc_addr: "b:2".to_string(),
            weight: 1,
            enabled: true,
        },
    ];
    let peers = peers_from_config(&declared);
    assert_eq!(peers.len(), 2);
    assert_eq!(peers[0].name, "a");
    assert_eq!(peers[0].grpc_addr, "a:1");
    assert_eq!(peers[0].weight, 3);
    assert!(!peers[0].enabled);
    assert_eq!(peers[1].name, "b");
    assert!(peers[1].enabled);
}
