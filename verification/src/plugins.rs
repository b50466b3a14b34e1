//! Plugins of the assistant service: their configuration, their errors,
//! and the manager that keeps them in the order of their registration.

use crate::text::{concat, entry_names, names_are_unique, names_once};
use vstd::prelude::*;
use vstd::string::*;

verus! {

/// Configuration of the HTTP plugin.
#[derive(Debug)]
pub struct HttpConfig {
    /// Listen address.
    pub host: String,
    /// Listen port.
    pub port: u16,
    /// Whether cross-origin requests are allowed.
    pub enable_cors: bool,
    /// Whether requests are logged.
    pub enable_logging: bool,
}

impl Default for HttpConfig {
    /// Listens on 127.0.0.1:8000 with CORS and logging on.
    fn default() -> (cfg: HttpConfig)
        ensures
            cfg.host@ == "127.0.0.1"@,
            cfg.port == 8000,
            cfg.enable_cors,
            cfg.enable_logging,
    {
        HttpConfig {
            host: "127.0.0.1".to_owned(),
            port: 8000,
            enable_cors: true,
            enable_logging: true,
        }
    }
}

/// Configuration of the plugin that offers the public chat-completions API.
#[derive(Debug)]
pub struct OpenAIConfig {
    pub enabled: bool,
    /// The keys a client may present; `*` admits every key.
    pub api_keys: Vec<String>,
    /// From the model names of the public API to local models; see `wf`.
    pub model_mapping: Vec<(String, String)>,
}

/// The model mapping a plugin starts with.
pub open spec fn default_model_mapping() -> Seq<(Seq<char>, Seq<char>)> {
    seq![
        ("gpt-3.5-turbo"@, "default"@),
        ("gpt-4"@, "default"@),
        ("gpt-4o"@, "default"@),
    ]
}

impl Default for OpenAIConfig {
    /// Enabled, with one placeholder key and the three public model names
    /// mapped to the local model `default`.
    fn default() -> (cfg: OpenAIConfig)
        ensures
            cfg.enabled,
            cfg.api_keys.deep_view() == seq!["YOUR_API_KEY"@],
            cfg.model_mapping.deep_view() == default_model_mapping(),
            cfg.wf(),
    {
        let mut api_keys: Vec<String> = Vec::new();
        api_keys.push("YOUR_API_KEY".to_owned());
        let mut model_mapping: Vec<(String, String)> = Vec::new();
        model_mapping.push(("gpt-3.5-turbo".to_owned(), "default".to_owned()));
        model_mapping.push(("gpt-4".to_owned(), "default".to_owned()));
        model_mapping.push(("gpt-4o".to_owned(), "default".to_owned()));
        proof {
            assert(api_keys.deep_view() =~= seq!["YOUR_API_KEY"@]);
            assert(model_mapping.deep_view() =~= default_model_mapping());
            reveal_strlit("gpt-3.5-turbo");
            reveal_strlit("gpt-4");
            reveal_strlit("gpt-4o");
            let names = entry_names(model_mapping@);
            assert(names[0].len() == 13 && names[1].len() == 5 && names[2].len() == 6);
        }
        OpenAIConfig { enabled: true, api_keys, model_mapping }
    }
}

/// Whether `key` is among `keys`, or `keys` admits every key.
pub open spec fn key_accepted(keys: Seq<Seq<char>>, key: Seq<char>) -> bool {
    keys.contains(key) || keys.contains("*"@)
}

impl OpenAIConfig {
    /// The model mapping is a map: each model name of the public API occurs
    /// once in it.
    pub open spec fn wf(&self) -> bool {
        names_once(entry_names(self.model_mapping@))
    }

    /// Decides `wf`.
    pub fn is_well_formed(&self) -> (ok: bool)
        ensures
            ok == self.wf(),
    {
        names_are_unique(&self.model_mapping)
    }

    /// Whether a client that presents `key` is let in.
    pub fn accepts_key(&self, key: &str) -> (ok: bool)
        ensures
            ok == key_accepted(self.api_keys.deep_view(), key@),
    {
        let wanted = key.to_owned();
        let star = "*".to_owned();
        let mut i: usize = 0;
        while i < self.api_keys.len()
            invariant
                i <= self.api_keys.len(),
                wanted@ == key@,
                star@ == "*"@,
                forall|k: int|
                    0 <= k < i ==> (#[trigger] self.api_keys.deep_view()[k]) != key@
                        && self.api_keys.deep_view()[k] != "*"@,
            decreases self.api_keys.len() - i,
        {
            proof {
                assert(self.api_keys.deep_view()[i as int] == self.api_keys[i as int]@);
            }
            if self.api_keys[i] == wanted || self.api_keys[i] == star {
                return true;
            }
            i = i + 1;
        }
        false
    }
}

/// Configuration of all plugins.
#[derive(Debug)]
pub struct PluginsConfig {
    pub http: HttpConfig,
    pub openai: OpenAIConfig,
}

impl Default for PluginsConfig {
    /// The defaults of both plugins.
    fn default() -> (cfg: PluginsConfig)
        ensures
            cfg.http.host@ == "127.0.0.1"@,
            cfg.http.port == 8000,
            cfg.http.enable_cors,
            cfg.http.enable_logging,
            cfg.openai.enabled,
            cfg.openai.api_keys.deep_view() == seq!["YOUR_API_KEY"@],
            cfg.openai.model_mapping.deep_view() == default_model_mapping(),
            cfg.openai.wf(),
    {
        PluginsConfig { http: HttpConfig::default(), openai: OpenAIConfig::default() }
    }
}

/// What can go wrong in a plugin; each kind carries its cause.
#[derive(Debug)]
pub enum PluginError {
    InitError(String),
    StartError(String),
    StopError(String),
    HttpError(String),
    RequestParseError(String),
    ResponseGenerationError(String),
    ModelServiceError(String),
    Unknown(String),
}

/// The kinds of `PluginError`.
#[derive(Clone, Copy, Debug, PartialEq, Eq, Structural)]
pub enum PluginErrorKind {
    InitError,
    StartError,
    StopError,
    HttpError,
    RequestParseError,
    ResponseGenerationError,
    ModelServiceError,
    Unknown,
}

impl PluginError {
    /// The kind of the error.
    pub open spec fn spec_kind(&self) -> PluginErrorKind {
        match self {
            PluginError::InitError(_) => PluginErrorKind::InitError,
            PluginError::StartError(_) => PluginErrorKind::StartError,
            PluginError::StopError(_) => PluginErrorKind::StopError,
            PluginError::HttpError(_) => PluginErrorKind::HttpError,
            PluginError::RequestParseError(_) => PluginErrorKind::RequestParseError,
            PluginError::ResponseGenerationError(_) => PluginErrorKind::ResponseGenerationError,
            PluginError::ModelServiceError(_) => PluginErrorKind::ModelServiceError,
            PluginError::Unknown(_) => PluginErrorKind::Unknown,
        }
    }

    /// The cause the error carries.
    pub open spec fn spec_cause(&self) -> Seq<char> {
        match self {
            PluginError::InitError(c) => c@,
            PluginError::StartError(c) => c@,
            PluginError::StopError(c) => c@,
            PluginError::HttpError(c) => c@,
            PluginError::RequestParseError(c) => c@,
            PluginError::ResponseGenerationError(c) => c@,
            PluginError::ModelServiceError(c) => c@,
            PluginError::Unknown(c) => c@,
        }
    }

    /// The kind of the error.
    pub fn kind(&self) -> (kind: PluginErrorKind)
        ensures
            kind == self.spec_kind(),
    {
        match self {
            PluginError::InitError(_) => PluginErrorKind::InitError,
            PluginError::StartError(_) => PluginErrorKind::StartError,
            PluginError::StopError(_) => PluginErrorKind::StopError,
            PluginError::HttpError(_) => PluginErrorKind::HttpError,
            PluginError::RequestParseError(_) => PluginErrorKind::RequestParseError,
            PluginError::ResponseGenerationError(_) => PluginErrorKind::ResponseGenerationError,
            PluginError::ModelServiceError(_) => PluginErrorKind::ModelServiceError,
            PluginError::Unknown(_) => PluginErrorKind::Unknown,
        }
    }

    /// The HTTP status the error is answered with: 400 for a request that
    /// could not be parsed, 503 for a failing model service, 500 otherwise.
    pub fn status_code(&self) -> (status: u16)
        ensures
            status == match self.spec_kind() {
                PluginErrorKind::RequestParseError => 400u16,
                PluginErrorKind::ModelServiceError => 503u16,
                _ => 500u16,
            },
    {
        match self {
            PluginError::RequestParseError(_) => 400,
            PluginError::ModelServiceError(_) => 503,
            _ => 500,
        }
    }

    /// The name of the kind, as it is reported in the `type` of an error body.
    pub fn kind_label(&self) -> (name: String)
        ensures
            name@ == kind_name(self.spec_kind()),
    {
        match self {
            PluginError::InitError(_) => "InitError".to_owned(),
            PluginError::StartError(_) => "StartError".to_owned(),
            PluginError::StopError(_) => "StopError".to_owned(),
            PluginError::HttpError(_) => "HttpError".to_owned(),
            PluginError::RequestParseError(_) => "RequestParseError".to_owned(),
            PluginError::ResponseGenerationError(_) => "ResponseGenerationError".to_owned(),
            PluginError::ModelServiceError(_) => "ModelServiceError".to_owned(),
            PluginError::Unknown(_) => "Unknown".to_owned(),
        }
    }

    /// The message of the error: what its kind says, a colon, and the cause.
    pub fn message(&self) -> (text: String)
        ensures
            text@ == kind_prefix(self.spec_kind()) + self.spec_cause(),
    {
        match self {
            PluginError::InitError(c) => concat("插件初始化失败: ", c.as_str()),
            PluginError::StartError(c) => concat("插件启动失败: ", c.as_str()),
            PluginError::StopError(c) => concat("插件停止失败: ", c.as_str()),
            PluginError::HttpError(c) => concat("HTTP服务错误: ", c.as_str()),
            PluginError::RequestParseError(c) => concat("请求解析错误: ", c.as_str()),
            PluginError::ResponseGenerationError(c) => concat("响应生成错误: ", c.as_str()),
            PluginError::ModelServiceError(c) => concat("模型服务错误: ", c.as_str()),
            PluginError::Unknown(c) => concat("未知错误: ", c.as_str()),
        }
    }
}

/// The name of a kind of error.
pub open spec fn kind_name(kind: PluginErrorKind) -> Seq<char> {
    match kind {
        PluginErrorKind::InitError => "InitError"@,
        PluginErrorKind::StartError => "StartError"@,
        PluginErrorKind::StopError => "StopError"@,
        PluginErrorKind::HttpError => "HttpError"@,
        PluginErrorKind::RequestParseError => "RequestParseError"@,
        PluginErrorKind::ResponseGenerationError => "ResponseGenerationError"@,
        PluginErrorKind::ModelServiceError => "ModelServiceError"@,
        PluginErrorKind::Unknown => "Unknown"@,
    }
}

/// What a kind of error says before the cause.
pub open spec fn kind_prefix(kind: PluginErrorKind) -> Seq<char> {
    match kind {
        PluginErrorKind::InitError => "插件初始化失败: "@,
        PluginErrorKind::StartError => "插件启动失败: "@,
        PluginErrorKind::StopError => "插件停止失败: "@,
        PluginErrorKind::HttpError => "HTTP服务错误: "@,
        PluginErrorKind::RequestParseError => "请求解析错误: "@,
        PluginErrorKind::ResponseGenerationError => "响应生成错误: "@,
        PluginErrorKind::ModelServiceError => "模型服务错误: "@,
        PluginErrorKind::Unknown => "未知错误: "@,
    }
}

/// A plugin of the service. Implementations are written by the users of
/// this crate; nothing is assumed of them.
pub trait Plugin {
    /// The name of the plugin.
    fn name(&self) -> String;

    /// Prepares the plugin.
    fn init(&mut self) -> Result<(), PluginError>;

    /// Starts the plugin.
    fn start(&self) -> Result<(), PluginError>;

    /// Stops the plugin.
    fn stop(&self) -> Result<(), PluginError>;
}

/// The plugins of a service, in the order of their registration.
pub struct PluginManager<P: Plugin> {
    plugins: Vec<P>,
}

impl<P: Plugin> View for PluginManager<P> {
    type V = Seq<P>;

    closed spec fn view(&self) -> Seq<P> {
        self.plugins@
    }
}

impl<P: Plugin> PluginManager<P> {
    /// A manager without plugins.
    pub fn new() -> (manager: Self)
        ensures
            manager@ == Seq::<P>::empty(),
    {
        PluginManager { plugins: Vec::new() }
    }

    /// Registers `plugin` after those that are there.
    pub fn register(&mut self, plugin: P)
        ensures
            final(self)@ == old(self)@.push(plugin),
    {
        self.plugins.push(plugin);
    }

    /// How many plugins are registered.
    pub fn len(&self) -> (n: usize)
        ensures
            n == self@.len(),
    {
        self.plugins.len()
    }

    /// The plugin that was registered as the `index`-th, if there are so many.
    pub fn get(&self, index: usize) -> (plugin: Option<&P>)
        ensures
            plugin.is_some() == (index < self@.len()),
            plugin matches Some(p) ==> *p == self@[index as int],
    {
        if index < self.plugins.len() {
            Some(&self.plugins[index])
        } else {
            None
        }
    }
}

} // verus!
