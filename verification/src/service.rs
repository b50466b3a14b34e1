//! The assistant service behind the gateway: its configuration, the chat
//! templates of the model families, and the shapes its models exchange.

use crate::text::{entry_names, names_are_unique, names_once};
use vstd::prelude::*;
use vstd::string::*;

verus! {

/// Where the service listens and how often a request is passed on.
#[derive(Debug)]
pub struct ServerConfig {
    pub grpc_addr: Option<String>,
    pub http_addr: Option<String>,
    pub try_max_time: Option<u32>,
}

/// The servers a request may be passed on to.
#[derive(Debug)]
pub struct RemoteServerConfig {
    pub endpoints: Vec<String>,
    /// Milliseconds.
    pub timeout: Option<u64>,
}

/// One remote model.
#[derive(Debug)]
pub struct ModelConfig {
    pub enabled: bool,
    /// The smaller the number, the sooner the model is tried.
    pub priority: i32,
    pub model_path: String,
    pub model_name: String,
    pub api_key: String,
    pub stream: bool,
    /// Further parameters by name; see `wf`.
    pub parameters: Option<Vec<(String, String)>>,
}

impl ModelConfig {
    /// The parameters, where there are any, are a map: each name occurs
    /// once among them.
    pub open spec fn wf(&self) -> bool {
        match self.parameters {
            Some(parameters) => names_once(entry_names(parameters@)),
            None => true,
        }
    }

    /// Decides `wf`.
    pub fn is_well_formed(&self) -> (ok: bool)
        ensures
            ok == self.wf(),
    {
        match &self.parameters {
            Some(parameters) => names_are_unique(parameters),
            None => true,
        }
    }
}

/// One local model.
#[derive(Debug)]
pub struct LocalModelConfig {
    pub enabled: bool,
    pub priority: i32,
    pub wasm_path: String,
    pub model_path: String,
    pub n_gpu_layers: i32,
    pub ctx_size: i32,
    pub instance_count: i32,
    pub model_type: String,
    pub stream: bool,
}

/// The speech-to-text model.
#[derive(Debug)]
pub struct VoiceChatConfig {
    pub model_path: Option<String>,
    pub model_name: Option<String>,
    pub api_key: Option<String>,
}

/// The chat models, local and remote.
#[derive(Debug)]
pub struct ChatConfig {
    pub knowledge_base: Option<String>,
    pub local_models: Vec<LocalModelConfig>,
    pub remote_models: Vec<ModelConfig>,
}

/// The text-to-speech model.
#[derive(Debug)]
pub struct ChatVoiceConfig {
    pub model_path: Option<String>,
}

/// How one model family wants a conversation written.
#[derive(Debug)]
pub struct ModelTemplate {
    pub user: String,
    pub assistant: String,
    pub system: String,
    pub chat_template: String,
}

/// A `ModelTemplate` as mathematical text.
pub struct ModelTemplateView {
    pub user: Seq<char>,
    pub assistant: Seq<char>,
    pub system: Seq<char>,
    pub chat_template: Seq<char>,
}

impl View for ModelTemplate {
    type V = ModelTemplateView;

    open spec fn view(&self) -> ModelTemplateView {
        ModelTemplateView {
            user: self.user@,
            assistant: self.assistant@,
            system: self.system@,
            chat_template: self.chat_template@,
        }
    }
}

impl Clone for ModelTemplate {
    fn clone(&self) -> (copy: Self)
        ensures
            copy@ == self@,
    {
        ModelTemplate {
            user: self.user.clone(),
            assistant: self.assistant.clone(),
            system: self.system.clone(),
            chat_template: self.chat_template.clone(),
        }
    }
}

/// The templates of the model families by name; see `wf`.
#[derive(Debug)]
pub struct ChatTemplateConfig {
    pub templates: Vec<(String, ModelTemplate)>,
}

/// Named templates as mathematical text.
pub type TemplatesView = Seq<(Seq<char>, ModelTemplateView)>;

/// The named templates in `v`, as mathematical text.
pub open spec fn templates_view(v: Seq<(String, ModelTemplate)>) -> TemplatesView {
    Seq::new(v.len(), |i: int| (v[i].0@, v[i].1@))
}

/// A template with nothing in it.
pub open spec fn empty_template() -> ModelTemplateView {
    ModelTemplateView {
        user: Seq::<char>::empty(),
        assistant: Seq::<char>::empty(),
        system: Seq::<char>::empty(),
        chat_template: Seq::<char>::empty(),
    }
}

/// The template of the DeepSeek family.
pub open spec fn deepseek_template() -> ModelTemplateView {
    ModelTemplateView {
        user: "Human: {prompt}\n"@,
        assistant: "Assistant: "@,
        system: "{system_prompt}\n"@,
        chat_template: "{system}{user}{assistant}"@,
    }
}

/// The templates that are built in.
pub open spec fn builtin_templates() -> TemplatesView {
    seq![
        (
            "qwen"@,
            ModelTemplateView {
                user: "<|im_start|>user\n{prompt}\n<|im_end|>"@,
                assistant: "<|im_start|>assistant\n"@,
                system: "<|im_start|>system\n{system_prompt}<|im_end|>"@,
                chat_template: "{system}\n{user}\n{assistant}"@,
            },
        ),
        ("deepseek"@, deepseek_template()),
        ("deepseek-ai"@, deepseek_template()),
        (
            "default"@,
            ModelTemplateView {
                user: "{prompt}"@,
                assistant: "{response}"@,
                system: "{system_prompt}"@,
                chat_template: "{user}"@,
            },
        ),
    ]
}

/// Whether `i` is the place of the first template named `name`.
pub open spec fn is_first_named(templates: TemplatesView, name: Seq<char>, i: int) -> bool {
    &&& 0 <= i < templates.len()
    &&& templates[i].0 == name
    &&& forall|k: int| 0 <= k < i ==> (#[trigger] templates[k]).0 != name
}

/// The first template named `name`, if there is one.
pub open spec fn named_template(templates: TemplatesView, name: Seq<char>) -> Option<
    ModelTemplateView,
> {
    if exists|i: int| is_first_named(templates, name, i) {
        Some(templates[choose|i: int| is_first_named(templates, name, i)].1)
    } else {
        None
    }
}

/// The template for a model family: its own, else the one named `default`,
/// else the empty one.
pub open spec fn template_for(templates: TemplatesView, model_type: Seq<char>) -> ModelTemplateView {
    match named_template(templates, model_type) {
        Some(t) => t,
        None => match named_template(templates, "default"@) {
            Some(t) => t,
            None => empty_template(),
        },
    }
}

fn template(user: &str, assistant: &str, system: &str, chat_template: &str) -> (t: ModelTemplate)
    ensures
        t@ == (ModelTemplateView {
            user: user@,
            assistant: assistant@,
            system: system@,
            chat_template: chat_template@,
        }),
{
    ModelTemplate {
        user: user.to_owned(),
        assistant: assistant.to_owned(),
        system: system.to_owned(),
        chat_template: chat_template.to_owned(),
    }
}

impl ChatTemplateConfig {
    /// The built-in templates: `qwen`, `deepseek`, `deepseek-ai` and `default`.
    pub fn new() -> (cfg: ChatTemplateConfig)
        ensures
            templates_view(cfg.templates@) == builtin_templates(),
            cfg.wf(),
    {
        let mut templates: Vec<(String, ModelTemplate)> = Vec::new();
        templates.push(
            (
                "qwen".to_owned(),
                template(
                    "<|im_start|>user\n{prompt}\n<|im_end|>",
                    "<|im_start|>assistant\n",
                    "<|im_start|>system\n{system_prompt}<|im_end|>",
                    "{system}\n{user}\n{assistant}",
                ),
            ),
        );
        templates.push(
            (
                "deepseek".to_owned(),
                template(
                    "Human: {prompt}\n",
                    "Assistant: ",
                    "{system_prompt}\n",
                    "{system}{user}{assistant}",
                ),
            ),
        );
        templates.push(
            (
                "deepseek-ai".to_owned(),
                template(
                    "Human: {prompt}\n",
                    "Assistant: ",
                    "{system_prompt}\n",
                    "{system}{user}{assistant}",
                ),
            ),
        );
        templates.push(
            ("default".to_owned(), template("{prompt}", "{response}", "{system_prompt}", "{user}")),
        );
        proof {
            assert(templates_view(templates@) =~= builtin_templates());
            reveal_strlit("qwen");
            reveal_strlit("deepseek");
            reveal_strlit("deepseek-ai");
            reveal_strlit("default");
            let names = entry_names(templates@);
            assert(names[0].len() == 4 && names[1].len() == 8 && names[2].len() == 11
                && names[3].len() == 7);
        }
        ChatTemplateConfig { templates }
    }

    /// The templates are a map: each model family occurs once among them.
    pub open spec fn wf(&self) -> bool {
        names_once(entry_names(self.templates@))
    }

    /// Decides `wf`.
    pub fn is_well_formed(&self) -> (ok: bool)
        ensures
            ok == self.wf(),
    {
        names_are_unique(&self.templates)
    }

    /// The first template named `name`.
    fn find(&self, name: &str) -> (found: Option<ModelTemplate>)
        ensures
            found.is_some() == named_template(templates_view(self.templates@), name@).is_some(),
            found matches Some(t) ==> Some(t@) == named_template(
                templates_view(self.templates@),
                name@,
            ),
    {
        let wanted = name.to_owned();
        let ghost all = templates_view(self.templates@);
        let mut i: usize = 0;
        while i < self.templates.len()
            invariant
                i <= self.templates.len(),
                wanted@ == name@,
                all == templates_view(self.templates@),
                forall|k: int| 0 <= k < i ==> (#[trigger] all[k]).0 != name@,
            decreases self.templates.len() - i,
        {
            if self.templates[i].0 == wanted {
                proof {
                    assert(all[i as int].0 == name@);
                    assert(is_first_named(all, name@, i as int));
                    let c = choose|c: int| is_first_named(all, name@, c);
                    assert(is_first_named(all, name@, c));
                    if c < i {
                        assert(all[c].0 != name@);
                    }
                    if i < c {
                        assert(all[i as int].0 != name@);
                    }
                }
                return Some(self.templates[i].1.clone());
            }
            i = i + 1;
        }
        proof {
            if exists|c: int| is_first_named(all, name@, c) {
                let c = choose|c: int| is_first_named(all, name@, c);
                assert(all[c].0 != name@);
            }
        }
        None
    }

    /// The template for a model family: see `template_for`.
    pub fn get_template(&self, model_type: &str) -> (t: ModelTemplate)
        ensures
            t@ == template_for(templates_view(self.templates@), model_type@),
    {
        match self.find(model_type) {
            Some(t) => t,
            None => match self.find("default") {
                Some(t) => t,
                None => ModelTemplate {
                    user: String::new(),
                    assistant: String::new(),
                    system: String::new(),
                    chat_template: String::new(),
                },
            },
        }
    }
}

/// How a request to a model ended.
#[derive(Clone, Copy, Debug, PartialEq, Eq, Structural)]
pub enum ResponseStatus {
    Success,
    Error,
    Timeout,
}

/// What a local model answered.
#[derive(Debug)]
pub struct ModelResponse {
    pub text: String,
    pub request_id: String,
    pub status: ResponseStatus,
    pub error: Option<String>,
}

impl ModelResponse {
    /// The answer `text` to the request `request_id`.
    pub fn success(text: String, request_id: String) -> (r: ModelResponse)
        ensures
            r.text@ == text@,
            r.request_id@ == request_id@,
            r.status == ResponseStatus::Success,
            r.error.is_none(),
    {
        ModelResponse { text, request_id, status: ResponseStatus::Success, error: None }
    }

    /// The failure of the request `request_id`, with its cause and no text.
    pub fn failure(cause: String, request_id: String) -> (r: ModelResponse)
        ensures
            r.text@.len() == 0,
            r.request_id@ == request_id@,
            r.status == ResponseStatus::Error,
            crate::text::opt_text(r.error) == Some(cause@),
    {
        ModelResponse {
            text: String::new(),
            request_id,
            status: ResponseStatus::Error,
            error: Some(cause),
        }
    }

    /// What is reported when no answer came in time.
    pub fn timeout(request_id: String) -> (r: ModelResponse)
        ensures
            r.text@.len() == 0,
            r.request_id@ == request_id@,
            r.status == ResponseStatus::Timeout,
            crate::text::opt_text(r.error) == Some("Request timeout"@),
    {
        ModelResponse {
            text: String::new(),
            request_id,
            status: ResponseStatus::Timeout,
            error: Some("Request timeout".to_owned()),
        }
    }
}

/// The named pipes a model process reads from and writes to.
#[derive(Debug)]
pub struct IoOption {
    pub stdout: Option<String>,
    pub stderr: Option<String>,
    pub stdin: Option<String>,
}

/// A model that answers requests of type `S` with values of type `R`,
/// online or offline. Implementations are written by the users of this
/// crate; nothing is assumed of them.
pub trait ModelDeal<S, R> {
    /// Asks the model over the network.
    fn get_response_online(&self, inputdata: S) -> Result<R, String>;

    /// Asks the model on this machine.
    fn get_response_offline(&self, inputdata: S) -> Result<R, String>;
}

/// The chat model.
#[derive(Debug)]
pub struct DialogueModel {
    pub config: ChatConfig,
}

/// The text-to-speech model.
#[derive(Debug)]
pub struct VoiceModel {
    pub config: ChatVoiceConfig,
}

/// The speech-to-text model.
#[derive(Debug)]
pub struct SpeechModel {
    pub config: VoiceChatConfig,
}

/// `text` cut into pieces of `size` characters, the last one shorter where
/// the length is no multiple of `size`.
pub open spec fn chunks_of(text: Seq<char>, size: nat) -> Seq<Seq<char>>
    decreases text.len(),
{
    if text.len() == 0 || size == 0 {
        Seq::<Seq<char>>::empty()
    } else if text.len() <= size {
        seq![text]
    } else {
        seq![text.subrange(0, size as int)] + chunks_of(
            text.subrange(size as int, text.len() as int),
            size,
        )
    }
}

/// The pieces in `chunks`, one after the other.
pub open spec fn rejoined(chunks: Seq<Seq<char>>) -> Seq<char>
    decreases chunks.len(),
{
    if chunks.len() == 0 {
        Seq::<char>::empty()
    } else {
        chunks[0] + rejoined(chunks.drop_first())
    }
}

impl DialogueModel {
    /// Cuts `text` into pieces of `chunk_size` characters: see `chunks_of`.
    pub fn split_into_chunks(text: &str, chunk_size: usize) -> (chunks: Vec<String>)
        requires
            chunk_size > 0,
        ensures
            chunks.deep_view() == chunks_of(text@, chunk_size as nat),
    {
        let len = text.unicode_len();
        let mut chunks: Vec<String> = Vec::new();
        let mut start: usize = 0;
        proof {
            assert(text@.subrange(0, len as int) =~= text@);
            assert(chunks.deep_view() =~= Seq::<Seq<char>>::empty());
        }
        while start < len
            invariant
                start <= len,
                len == text@.len(),
                chunk_size > 0,
                chunks.deep_view() + chunks_of(
                    text@.subrange(start as int, len as int),
                    chunk_size as nat,
                ) == chunks_of(text@, chunk_size as nat),
            decreases len - start,
        {
            let end: usize = if len - start <= chunk_size {
                len
            } else {
                start + chunk_size
            };
            let piece = text.substring_char(start, end).to_owned();
            let ghost before = chunks.deep_view();
            let ghost rest = text@.subrange(start as int, len as int);
            chunks.push(piece);
            proof {
                assert(chunks.deep_view() =~= before.push(text@.subrange(start as int, end as int)));
                if len - start <= chunk_size {
                    assert(text@.subrange(end as int, len as int) =~= Seq::<char>::empty());
                    assert(chunks_of(rest, chunk_size as nat) =~= seq![rest]);
                    assert(chunks_of(text@.subrange(end as int, len as int), chunk_size as nat)
                        =~= Seq::<Seq<char>>::empty());
                    assert(before.push(rest) + Seq::<Seq<char>>::empty() =~= before + seq![rest]);
                } else {
                    assert(rest.subrange(0, chunk_size as int) =~= text@.subrange(
                        start as int,
                        end as int,
                    ));
                    assert(rest.subrange(chunk_size as int, rest.len() as int) =~= text@.subrange(
                        end as int,
                        len as int,
                    ));
                    let tail = chunks_of(text@.subrange(end as int, len as int), chunk_size as nat);
                    assert(chunks_of(rest, chunk_size as nat) =~= seq![
                        text@.subrange(start as int, end as int),
                    ] + tail);
                    assert(before.push(text@.subrange(start as int, end as int)) + tail =~= before
                        + (seq![text@.subrange(start as int, end as int)] + tail));
                }
            }
            start = end;
        }
        proof {
            assert(text@.subrange(len as int, len as int) =~= Seq::<char>::empty());
            assert(chunks.deep_view() + Seq::<Seq<char>>::empty() =~= chunks.deep_view());
        }
        chunks
    }
}

/// The pieces of a text, put together again, are the text; none of them is
/// empty and none is longer than the size asked for.
pub proof fn law_chunks_rejoin(text: Seq<char>, size: nat)
    requires
        size > 0,
    ensures
        rejoined(chunks_of(text, size)) == text,
        forall|i: int|
            0 <= i < chunks_of(text, size).len() ==> 0 < (#[trigger] chunks_of(text, size)[i]).len()
                <= size,
    decreases text.len(),
{
    let chunks = chunks_of(text, size);
    if text.len() == 0 {
        assert(rejoined(chunks) =~= text);
    } else if text.len() <= size {
        assert(chunks.drop_first() =~= Seq::<Seq<char>>::empty());
        assert(rejoined(chunks.drop_first()) =~= Seq::<char>::empty());
        assert(rejoined(chunks) =~= text);
    } else {
        let head = text.subrange(0, size as int);
        let rest = text.subrange(size as int, text.len() as int);
        law_chunks_rejoin(rest, size);
        assert(chunks.drop_first() =~= chunks_of(rest, size));
        assert(head + rest =~= text);
        assert forall|i: int| 0 <= i < chunks.len() implies 0 < (#[trigger] chunks[i]).len()
            <= size by {
            if i > 0 {
                assert(chunks[i] == chunks_of(rest, size)[i - 1]);
            }
        }
    }
}

/// Where each family occurs once, the template of a family is the one
/// template that stands under its name.
pub proof fn law_template_of_a_family_is_the_only_one(
    config: ChatTemplateConfig,
    model_type: Seq<char>,
    i: int,
)
    requires
        config.wf(),
        0 <= i < config.templates@.len(),
        config.templates@[i].0@ == model_type,
    ensures
        template_for(templates_view(config.templates@), model_type) == config.templates@[i].1@,
        forall|k: int|
            0 <= k < config.templates@.len() && k != i ==> (#[trigger] config.templates@[k]).0@
                != model_type,
{
    let all = templates_view(config.templates@);
    let names = entry_names(config.templates@);
    assert forall|k: int| 0 <= k < config.templates@.len() && k != i implies (
    #[trigger] config.templates@[k]).0@ != model_type by {
        assert(names[k] == config.templates@[k].0@);
        assert(names[i] == config.templates@[i].0@);
        if k < i {
            assert(names[k] != names[i]);
        } else {
            assert(names[i] != names[k]);
        }
    }
    assert(is_first_named(all, model_type, i)) by {
        assert forall|k: int| 0 <= k < i implies (#[trigger] all[k]).0 != model_type by {
            assert(all[k].0 == config.templates@[k].0@);
        }
    }
    let c = choose|c: int| is_first_named(all, model_type, c);
    assert(is_first_named(all, model_type, c));
    if c != i {
        assert(all[c].0 == config.templates@[c].0@);
    }
}

} // verus!
