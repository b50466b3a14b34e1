//! The operator's configuration of a gateway.

use crate::load::LoadThreshold;
use crate::text::{clone_opt_text, opt_text};
use vstd::prelude::*;
use vstd::string::*;

verus! {

/// Where the gateway listens.
#[derive(Debug)]
pub struct ServerConfig {
    /// Bind address of the gateway RPC.
    pub grpc_addr: String,
    /// Bind address of the HTTP edge; without one the edge is not started.
    pub http_addr: Option<String>,
}

/// Limits of the local pool.
#[derive(Debug)]
pub struct SchedulerConfig {
    /// Scratch directory for per-instance files.
    pub config_dir: String,
    /// The most instances the pool may hold.
    pub max_instances: usize,
    /// The load at or above which requests are handed to peers.
    pub max_load: LoadThreshold,
}

/// One declared model worker.
#[derive(Debug)]
pub struct LlamaServerConfig {
    pub name: String,
    pub chat_model_path: Option<String>,
    pub embedding_model_path: Option<String>,
    pub tts_model_path: Option<String>,
    /// Path of the worker's own TOML configuration.
    pub config_path: Option<String>,
}

/// One declared peer gateway.
#[derive(Debug)]
pub struct RemoteServerConfig {
    pub name: String,
    pub grpc_addr: String,
    /// Reserved: peers are tried in declaration order.
    pub weight: u32,
    pub enabled: bool,
}

/// The whole configuration.
#[derive(Debug)]
pub struct Config {
    pub server: ServerConfig,
    pub scheduler: SchedulerConfig,
    pub remote_servers: Vec<RemoteServerConfig>,
    pub llama_servers: Vec<LlamaServerConfig>,
}

/// What a `LlamaServerConfig` says, as mathematical text.
pub struct LlamaServerConfigView {
    pub name: Seq<char>,
    pub chat_model_path: Option<Seq<char>>,
    pub embedding_model_path: Option<Seq<char>>,
    pub tts_model_path: Option<Seq<char>>,
    pub config_path: Option<Seq<char>>,
}

impl View for LlamaServerConfig {
    type V = LlamaServerConfigView;

    open spec fn view(&self) -> LlamaServerConfigView {
        LlamaServerConfigView {
            name: self.name@,
            chat_model_path: opt_text(self.chat_model_path),
            embedding_model_path: opt_text(self.embedding_model_path),
            tts_model_path: opt_text(self.tts_model_path),
            config_path: opt_text(self.config_path),
        }
    }
}

impl Clone for LlamaServerConfig {
    fn clone(&self) -> (copy: Self)
        ensures
            copy@ == self@,
    {
        LlamaServerConfig {
            name: self.name.clone(),
            chat_model_path: clone_opt_text(&self.chat_model_path),
            embedding_model_path: clone_opt_text(&self.embedding_model_path),
            tts_model_path: clone_opt_text(&self.tts_model_path),
            config_path: clone_opt_text(&self.config_path),
        }
    }
}

/// What a `RemoteServerConfig` says, as mathematical text.
pub struct RemoteServerConfigView {
    pub name: Seq<char>,
    pub grpc_addr: Seq<char>,
    pub weight: u32,
    pub enabled: bool,
}

impl View for RemoteServerConfig {
    type V = RemoteServerConfigView;

    open spec fn view(&self) -> RemoteServerConfigView {
        RemoteServerConfigView {
            name: self.name@,
            grpc_addr: self.grpc_addr@,
            weight: self.weight,
            enabled: self.enabled,
        }
    }
}

impl Clone for RemoteServerConfig {
    fn clone(&self) -> (copy: Self)
        ensures
            copy@ == self@,
    {
        RemoteServerConfig {
            name: self.name.clone(),
            grpc_addr: self.grpc_addr.clone(),
            weight: self.weight,
            enabled: self.enabled,
        }
    }
}

impl Config {
    /// The configuration a gateway starts with when none is found: RPC on
    /// port 50051, HTTP on port 8000, at most ten instances, busy from a
    /// load of 0.8, no peers, and one worker named `default` whose paths are
    /// all empty.
    pub fn default() -> (cfg: Config)
        ensures
            cfg.server.grpc_addr@ == "0.0.0.0:50051"@,
            opt_text(cfg.server.http_addr) == Some("0.0.0.0:8000"@),
            cfg.scheduler.config_dir@ == "/etc/assistant/models"@,
            cfg.scheduler.max_instances == 10,
            cfg.scheduler.max_load.numer() == 4,
            cfg.scheduler.max_load.denom() == 5,
            cfg.remote_servers@.len() == 0,
            cfg.llama_servers@.len() == 1,
            cfg.llama_servers@[0]@ == (LlamaServerConfigView {
                name: "default"@,
                chat_model_path: Some(""@),
                embedding_model_path: Some(""@),
                tts_model_path: Some(""@),
                config_path: Some(""@),
            }),
    {
        let max_load = match LoadThreshold::new(4, 5) {
            Some(t) => t,
            None => LoadThreshold::full(),
        };
        let worker = LlamaServerConfig {
            name: "default".to_owned(),
            chat_model_path: Some("".to_owned()),
            embedding_model_path: Some("".to_owned()),
            tts_model_path: Some("".to_owned()),
            config_path: Some("".to_owned()),
        };
        let mut llama_servers: Vec<LlamaServerConfig> = Vec::new();
        llama_servers.push(worker);
        Config {
            server: ServerConfig {
                grpc_addr: "0.0.0.0:50051".to_owned(),
                http_addr: Some("0.0.0.0:8000".to_owned()),
            },
            scheduler: SchedulerConfig {
                config_dir: DEFAULT_MODEL_PATH.to_owned(),
                max_instances: 10,
                max_load,
            },
            remote_servers: Vec::new(),
            llama_servers,
        }
    }
}

/// Where the gateway's own configuration is kept.
pub const DEFAULT_CONFIG_PATH: &'static str = "/etc/assistant/config.toml";

/// The default scratch directory of the scheduler.
pub const DEFAULT_MODEL_PATH: &'static str = "/etc/assistant/models";

} // verus!
