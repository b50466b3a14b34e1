use assistant::config::{Config, LlamaServerConfig};
use assistant::launch::{
    build_worker_args, plan_launch, DEFAULT_LLAMA_WASM_PATH, DEFAULT_WASM_URL, WORKER_RUNTIME,
};
use assistant::scheduler::Scheduler;

fn declared(chat: Option<&str>, embedding: Option<&str>, tts: Option<&str>) -> LlamaServerConfig {
    LlamaServerConfig {
        name: "w".to_string(),
        chat_model_path: chat.map(|s| s.to_string()),
        embedding_model_path: embedding.map(|s| s.to_string()),
        tts_model_path: tts.map(|s| s.to_string()),
        config_path: Some("/etc/w/config.toml".to_string()),
    }
}

#[test]
fn args_for_chat_only() {
    let args = build_worker_args(&declared(Some("/m/chat.gguf"), None, None), "config.toml");
    assert_eq!(
        args,
        vec![
            "--dir",
            ".:.",
            "--nn-preload",
            "default:GGML:AUTO:/m/chat.gguf",
            "/etc/assistant/bin/llama-api-server.wasm",
            "config",
            "--file",
            "config.toml",
            "--chat",
        ]
    );
}

#[test]
fn args_for_all_three_families() {
    let args = build_worker_args(
        &declared(Some("/m/chat.gguf"), Some("/m/emb.gguf"), Some("/m/tts.gguf")),
        "w.toml",
    );
    assert_eq!(
        args,
        vec![
            "--dir",
            ".:.",
            "--nn-preload",
            "default:GGML:AUTO:/m/chat.gguf",
            "--nn-preload",
            "embedding:GGML:AUTO:/m/emb.gguf",
            "--nn-preload",
            "tts:GGML:AUTO:/m/tts.gguf",
            "/etc/assistant/bin/llama-api-server.wasm",
            "config",
            "--file",
            "w.toml",
            "--chat",
            "--embedding",
            "--tts",
        ]
    );
}

#[test]
fn empty_model_paths_are_not_preloaded() {
    let args = build_worker_args(&declared(None, Some(""), Some("/m/tts.gguf")), "w.toml");
    assert_eq!(
        args,
        vec![
            "--dir",
            ".:.",
            "--nn-preload",
            "default:GGML:AUTO:",
            "--nn-preload",
            "tts:GGML:AUTO:/m/tts.gguf",
            "/etc/assistant/bin/llama-api-server.wasm",
            "config",
            "--file",
            "w.toml",
            "--chat",
            "--tts",
        ]
    );
}

#[test]
fn plan_names_runtime_directory_and_binary() {
    let plan = plan_launch(&declared(Some("c"), None, None), "/etc/w".to_string(), "config.toml");
    assert_eq!(plan.program, "wasmedge");
    assert_eq!(plan.program, WORKER_RUNTIME);
    assert_eq!(plan.work_dir, "/etc/w");
    assert_eq!(plan.config_file, "config.toml");
    assert_eq!(plan.binary_path, DEFAULT_LLAMA_WASM_PATH);
    assert_eq!(plan.binary_url, DEFAULT_WASM_URL);
    assert_eq!(plan.args[7], "config.toml");
}

#[test]
fn absolute_config_path_gives_parent_and_basename() {
    let mut s = Scheduler::new("/d".to_string(), 1);
    let launch = s
        .start_instance_with_config(
            declared(Some("c"), None, None),
            Some("[server]\nsocket_addr = \"h:1\"\n".to_string()),
            "/somewhere/else",
        )
        .unwrap();
    assert_eq!(launch.plan.work_dir, "/etc/w");
    assert_eq!(launch.plan.config_file, "config.toml");
    assert_eq!(launch.plan.args[launch.plan.args.len() - 2], "config.toml");
}

#[test]
fn relative_config_path_is_resolved_against_the_current_directory() {
    let mut s = Scheduler::new("/d".to_string(), 1);
    let mut cfg = declared(Some("c"), None, None);
    cfg.config_path = Some("workers/a/w.toml".to_string());
    let launch = s
        .start_instance_with_config(
            cfg,
            Some("[server]\nsocket_addr = \"h:1\"\n".to_string()),
            "/srv/gateway",
        )
        .unwrap();
    assert_eq!(launch.plan.work_dir, "/srv/gateway/workers/a");
    assert_eq!(launch.plan.config_file, "w.toml");
}

#[test]
fn default_configuration() {
    let cfg = Config::default();
    assert_eq!(cfg.server.grpc_addr, "0.0.0.0:50051");
    assert_eq!(cfg.server.http_addr.as_deref(), Some("0.0.0.0:8000"));
    assert_eq!(cfg.scheduler.config_dir, "/etc/assistant/models");
    assert_eq!(cfg.scheduler.max_instances, 10);
    assert_eq!(cfg.scheduler.max_load.numerator(), 4);
    assert_eq!(cfg.scheduler.max_load.denominator(), 5);
    assert!(cfg.remote_servers.is_empty());
    assert_eq!(cfg.llama_servers.len(), 1);
    assert_eq!(cfg.llama_servers[0].name, "default");
    assert_eq!(cfg.llama_servers[0].chat_model_path.as_deref(), Some(""));
    assert_eq!(cfg.llama_servers[0].embedding_model_path.as_deref(), Some(""));
    assert_eq!(cfg.llama_servers[0].tts_model_path.as_deref(), Some(""));
    assert_eq!(cfg.llama_servers[0].config_path.as_deref(), Some(""));
}

#[test]
fn default_worker_cannot_be_launched_without_a_config_path() {
    let cfg = Config::default();
    let mut s = Scheduler::new(cfg.scheduler.config_dir.clone(), cfg.scheduler.max_instances);
    let outcomes = s.load_instances(cfg.llama_servers, &vec![None], "/");
    assert_eq!(outcomes.len(), 1);
    assert!(outcomes[0].is_err());
    assert_eq!(s.live_count(), 0);
}

#[test]
fn worker_runs_in_the_parent_of_its_configuration() {
    let placed = assistant::launch::place_worker(
        Some("/etc/w".to_string()),
        Some("config.toml".to_string()),
    )
    .unwrap();
    assert_eq!(placed.work_dir, "/etc/w");
    assert_eq!(placed.config_file, "config.toml");
    let here = assistant::launch::place_worker(None, Some("w.toml".to_string())).unwrap();
    assert_eq!(here.work_dir, ".");
    assert_eq!(here.config_file, "w.toml");
    let empty_parent =
        assistant::launch::place_worker(Some(String::new()), Some("w.toml".to_string())).unwrap();
    assert_eq!(empty_parent.work_dir, "");
}

#[test]
fn path_without_a_last_component_names_no_file() {
    assert!(assistant::launch::place_worker(Some("/".to_string()), None).is_none());
    assert!(assistant::launch::place_worker(None, None).is_none());
    let mut s = Scheduler::new("/d".to_string(), 1);
    let mut cfg = declared(Some("c"), None, None);
    cfg.config_path = Some("/etc/w/..".to_string());
    let refused = s.start_instance_with_config(
        cfg,
        Some("[server]\nsocket_addr = \"h:1\"\n".to_string()),
        "/",
    );
    assert_eq!(refused.err(), Some(assistant::launch::LaunchError::ConfigUnreadable));
    assert_eq!(s.live_count(), 0);
}
