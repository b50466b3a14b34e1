//! How a worker process is started: the command line, the directory it runs
//! in, and where its binary is kept.

use crate::config::{LlamaServerConfig, LlamaServerConfigView};
use crate::text::{begins_with, concat};
use crate::trusted::{
    path_file_name, path_file_name_of, path_join, path_joined, path_parent, path_parent_of,
};
use vstd::prelude::*;
use vstd::string::*;

verus! {

/// The runtime that hosts a worker.
pub const WORKER_RUNTIME: &'static str = "wasmedge";

/// Where the worker binary is kept.
pub const DEFAULT_LLAMA_WASM_PATH: &'static str = "/etc/assistant/bin/llama-api-server.wasm";

/// Where the worker binary is fetched from, once, when it is not there.
pub const DEFAULT_WASM_URL: &'static str =
    "https://github.com/LlamaEdge/LlamaEdge/releases/latest/download/llama-api-server.wasm";

/// Why a launch was refused.
#[derive(Clone, Copy, Debug, PartialEq, Eq, Structural)]
pub enum LaunchError {
    /// The pool already holds as many instances as it may.
    CapacityReached,
    /// The declaration names no worker configuration.
    MissingConfigPath,
    /// The worker configuration could not be read, is no TOML, or names no
    /// `server.socket_addr`.
    ConfigUnreadable,
}

/// Everything needed to spawn one worker.
#[derive(Debug)]
pub struct LaunchPlan {
    /// The program to run.
    pub program: String,
    /// The directory to run it in.
    pub work_dir: String,
    /// The name of the worker's configuration file in that directory.
    pub config_file: String,
    /// Its arguments, in order.
    pub args: Vec<String>,
    /// Where the worker binary must be before the spawn.
    pub binary_path: String,
    /// Where to fetch the binary from if it is not there.
    pub binary_url: String,
}

/// A `LaunchPlan` as mathematical values.
pub struct LaunchPlanView {
    pub program: Seq<char>,
    pub work_dir: Seq<char>,
    pub config_file: Seq<char>,
    pub args: Seq<Seq<char>>,
    pub binary_path: Seq<char>,
    pub binary_url: Seq<char>,
}

impl View for LaunchPlan {
    type V = LaunchPlanView;

    open spec fn view(&self) -> LaunchPlanView {
        LaunchPlanView {
            program: self.program@,
            work_dir: self.work_dir@,
            config_file: self.config_file@,
            args: self.args.deep_view(),
            binary_path: self.binary_path@,
            binary_url: self.binary_url@,
        }
    }
}

/// Whether a model path is given: present and not empty.
pub open spec fn is_given(path: Option<Seq<char>>) -> bool {
    path matches Some(p) && p.len() > 0
}

/// The path inside `path`, or the empty text.
pub open spec fn path_or_empty(path: Option<Seq<char>>) -> Seq<char> {
    match path {
        Some(p) => p,
        None => Seq::<char>::empty(),
    }
}

/// The preload directive for a model file under the alias `alias`.
pub open spec fn preload_directive(alias: Seq<char>, path: Seq<char>) -> Seq<char> {
    alias + ":GGML:AUTO:"@ + path
}

/// The two arguments that preload one model family, or none where its path
/// is not given.
pub open spec fn optional_preload(alias: Seq<char>, path: Option<Seq<char>>) -> Seq<Seq<char>> {
    if is_given(path) {
        seq!["--nn-preload"@, preload_directive(alias, path_or_empty(path))]
    } else {
        Seq::<Seq<char>>::empty()
    }
}

/// The feature flag of one model family, or none where its path is not given.
pub open spec fn optional_flag(flag: Seq<char>, path: Option<Seq<char>>) -> Seq<Seq<char>> {
    if is_given(path) {
        seq![flag]
    } else {
        Seq::<Seq<char>>::empty()
    }
}

/// The arguments of a worker: the current directory is mapped, the chat
/// model is preloaded as `default`, the embedding and TTS models where
/// their paths are given; then the worker binary, `config --file` with the
/// name of the configuration file, and one flag per preloaded family.
pub open spec fn worker_args(config: LlamaServerConfigView, config_file: Seq<char>) -> Seq<
    Seq<char>,
> {
    seq![
        "--dir"@,
        ".:."@,
        "--nn-preload"@,
        preload_directive("default"@, path_or_empty(config.chat_model_path)),
    ] + optional_preload("embedding"@, config.embedding_model_path) + optional_preload(
        "tts"@,
        config.tts_model_path,
    ) + seq![DEFAULT_LLAMA_WASM_PATH@, "config"@, "--file"@, config_file, "--chat"@]
        + optional_flag("--embedding"@, config.embedding_model_path) + optional_flag(
        "--tts"@,
        config.tts_model_path,
    )
}

/// The plan that starts the worker declared by `config` in `work_dir`,
/// reading the configuration file named `config_file` there.
pub open spec fn launch_plan(
    config: LlamaServerConfigView,
    work_dir: Seq<char>,
    config_file: Seq<char>,
) -> LaunchPlanView {
    LaunchPlanView {
        program: WORKER_RUNTIME@,
        work_dir,
        config_file,
        args: worker_args(config, config_file),
        binary_path: DEFAULT_LLAMA_WASM_PATH@,
        binary_url: DEFAULT_WASM_URL@,
    }
}

/// Appends the preload of one model family to `args`, and says whether its
/// path was given.
fn push_optional_preload(args: &mut Vec<String>, alias: &str, path: &Option<String>) -> (given:
    bool)
    ensures
        given == is_given(crate::text::opt_text(*path)),
        final(args).deep_view() == old(args).deep_view() + optional_preload(
            alias@,
            crate::text::opt_text(*path),
        ),
{
    let ghost before = args.deep_view();
    match path {
        Some(p) => {
            if p.as_str().is_empty() {
                proof {
                    assert(args.deep_view() =~= before + Seq::<Seq<char>>::empty());
                }
                false
            } else {
                args.push("--nn-preload".to_owned());
                let head = concat(alias, ":GGML:AUTO:");
                args.push(concat(head.as_str(), p.as_str()));
                proof {
                    assert(args.deep_view() =~= before + seq![
                        "--nn-preload"@,
                        preload_directive(alias@, p@),
                    ]);
                }
                true
            }
        },
        None => {
            proof {
                assert(args.deep_view() =~= before + Seq::<Seq<char>>::empty());
            }
            false
        },
    }
}

/// Appends `flag` to `args` where `given`.
fn push_optional_flag(args: &mut Vec<String>, flag: &str, given: bool)
    ensures
        final(args).deep_view() == old(args).deep_view() + (if given {
            seq![flag@]
        } else {
            Seq::<Seq<char>>::empty()
        }),
{
    let ghost before = args.deep_view();
    if given {
        args.push(flag.to_owned());
        proof {
            assert(args.deep_view() =~= before + seq![flag@]);
        }
    } else {
        proof {
            assert(args.deep_view() =~= before + Seq::<Seq<char>>::empty());
        }
    }
}

/// Builds the arguments of a worker.
pub fn build_worker_args(config: &LlamaServerConfig, config_file: &str) -> (args: Vec<String>)
    ensures
        args.deep_view() == worker_args(config@, config_file@),
{
    let mut args: Vec<String> = Vec::new();
    args.push("--dir".to_owned());
    args.push(".:.".to_owned());
    args.push("--nn-preload".to_owned());
    let chat = crate::text::unwrap_or_empty(&config.chat_model_path);
    args.push(concat("default:GGML:AUTO:", chat.as_str()));
    proof {
        assert(args.deep_view() =~= seq![
            "--dir"@,
            ".:."@,
            "--nn-preload"@,
            preload_directive("default"@, path_or_empty(config@.chat_model_path)),
        ]) by {
            reveal_strlit("default:GGML:AUTO:");
            reveal_strlit("default");
            reveal_strlit(":GGML:AUTO:");
            assert("default:GGML:AUTO:"@ =~= "default"@ + ":GGML:AUTO:"@);
        }
    }
    let embedding = push_optional_preload(&mut args, "embedding", &config.embedding_model_path);
    let tts = push_optional_preload(&mut args, "tts", &config.tts_model_path);
    let ghost before_tail = args.deep_view();
    args.push(DEFAULT_LLAMA_WASM_PATH.to_owned());
    args.push("config".to_owned());
    args.push("--file".to_owned());
    args.push(config_file.to_owned());
    args.push("--chat".to_owned());
    proof {
        assert(args.deep_view() =~= before_tail + seq![
            DEFAULT_LLAMA_WASM_PATH@,
            "config"@,
            "--file"@,
            config_file@,
            "--chat"@,
        ]);
    }
    push_optional_flag(&mut args, "--embedding", embedding);
    push_optional_flag(&mut args, "--tts", tts);
    args
}

/// Builds the plan that starts a worker.
pub fn plan_launch(config: &LlamaServerConfig, work_dir: String, config_file: &str) -> (plan:
    LaunchPlan)
    ensures
        plan@ == launch_plan(config@, work_dir@, config_file@),
{
    LaunchPlan {
        program: WORKER_RUNTIME.to_owned(),
        work_dir,
        config_file: config_file.to_owned(),
        args: build_worker_args(config, config_file),
        binary_path: DEFAULT_LLAMA_WASM_PATH.to_owned(),
        binary_url: DEFAULT_WASM_URL.to_owned(),
    }
}

/// Where a worker runs and what its configuration file is called there.
#[derive(Debug)]
pub struct WorkerLocation {
    /// The parent of the resolved configuration path, or `.` where it has none.
    pub work_dir: String,
    /// The last component of the resolved configuration path.
    pub config_file: String,
}

/// The configuration path in absolute form: itself where it begins with
/// `/`, else seen from `current_dir`.
pub open spec fn resolved_config_path(config_path: Seq<char>, current_dir: Seq<char>) -> Seq<char> {
    if config_path.len() > 0 && config_path[0] == '/' {
        config_path
    } else {
        path_joined(current_dir, config_path)
    }
}

/// The directory a worker runs in: the parent of its resolved
/// configuration path, or `.` where the path has none.
pub open spec fn worker_dir(resolved: Seq<char>) -> Seq<char> {
    match path_parent_of(resolved) {
        Some(dir) => dir,
        None => "."@,
    }
}

/// Resolves the configuration path: see `resolved_config_path`.
pub(crate) fn resolve_config_path(config_path: &str, current_dir: &str) -> (resolved: String)
    ensures
        resolved@ == resolved_config_path(config_path@, current_dir@),
{
    if begins_with(config_path, '/') {
        config_path.to_owned()
    } else {
        path_join(current_dir, config_path)
    }
}

/// Splits the resolved configuration path into the worker's directory and
/// the name of the file; `None` where the path names no file.
pub(crate) fn locate_worker(config_path: &str, current_dir: &str) -> (location: Option<WorkerLocation>)
    ensures
        location.is_some() == path_file_name_of(
            resolved_config_path(config_path@, current_dir@),
        ).is_some(),
        location matches Some(l) ==> {
            &&& Some(l.config_file@) == path_file_name_of(
                resolved_config_path(config_path@, current_dir@),
            )
            &&& l.work_dir@ == worker_dir(resolved_config_path(config_path@, current_dir@))
        },
{
    let resolved = resolve_config_path(config_path, current_dir);
    let parent = path_parent(resolved.as_str());
    let file_name = path_file_name(resolved.as_str());
    place_worker(parent, file_name)
}

/// Where a worker runs, given the parent and the last component of its
/// resolved configuration path as far as the path has them: it runs in the
/// parent, or in `.` where there is none, and its configuration file goes
/// by the last component. A path without a last component names no file,
/// and there is no place for the worker.
pub fn place_worker(parent: Option<String>, file_name: Option<String>) -> (location: Option<
    WorkerLocation,
>)
    ensures
        location.is_some() == file_name.is_some(),
        location matches Some(l) ==> {
            &&& Some(l.config_file@) == crate::text::opt_text(file_name)
            &&& l.work_dir@ == match parent {
                Some(dir) => dir@,
                None => "."@,
            }
        },
{
    let work_dir = match parent {
        Some(dir) => dir,
        None => ".".to_owned(),
    };
    match file_name {
        Some(config_file) => Some(WorkerLocation { work_dir, config_file }),
        None => None,
    }
}

} // verus!
