//! The launcher: how it is configured by the environment, and what it does in which order.
use vstd::prelude::*;
use vstd::string::StringExecFns;

use crate::paths::{join_path, joined_path};
use crate::protocol::EnvMap;
use crate::shell::{quote_words, quoted, quoted_words, shell_quote};
use crate::text::{enclosed, joined, lower_text, optional_text, prefixed, same, texts, to_lower};

verus! {

/// The role that the environment asks for.
#[derive(Clone, Copy, Debug, PartialEq, Eq, Structural)]
pub enum Role {
    Auto,
    Master,
    Worker,
}

/// How the launcher runs its processes.
#[derive(Clone, Copy, Debug, PartialEq, Eq, Structural)]
pub enum Mode {
    Foreground,
    Tmux,
}

/// The role of this node.
#[derive(Clone, Copy, Debug, PartialEq, Eq, Structural)]
pub enum ResolvedRole {
    Master,
    Worker,
}

/// A variable whose value is none of those it may have.
#[derive(Debug)]
pub struct InvalidVariable {
    pub key: String,
    pub value: String,
}

impl InvalidVariable {
    /// The error in words.
    pub fn message(&self) -> (r: String)
        ensures
            r@ == "invalid "@ + self.key@ + "="@ + self.value@,
    {
        let mut r = enclosed("invalid ", self.key.as_str(), "=");
        r.append(self.value.as_str());
        r
    }
}

/// The value of a variable, if it is set.
pub open spec fn value_of(env: Map<Seq<char>, String>, key: Seq<char>) -> Option<Seq<char>> {
    if env.contains_key(key) {
        Some(env[key]@)
    } else {
        None
    }
}

/// The value of a variable, or else the given text.
pub open spec fn value_or(
    env: Map<Seq<char>, String>,
    key: Seq<char>,
    default: Seq<char>,
) -> Seq<char> {
    match value_of(env, key) {
        Some(value) => value,
        None => default,
    }
}

/// The value of a variable, or else the given text.
fn env_or(env: &EnvMap, key: &str, default: &str) -> (r: String)
    ensures
        r@ == value_or(env@, key@, default@),
{
    match env.get(key) {
        Some(value) => value.clone(),
        None => default.to_owned(),
    }
}

/// The role with a name, in whatever case.
pub open spec fn role_named(name: Seq<char>) -> Option<Role> {
    if lower_text(name) == "auto"@ {
        Some(Role::Auto)
    } else if lower_text(name) == "master"@ {
        Some(Role::Master)
    } else if lower_text(name) == "worker"@ {
        Some(Role::Worker)
    } else {
        None
    }
}

/// The mode with a name, in whatever case.
pub open spec fn mode_named(name: Seq<char>) -> Option<Mode> {
    if lower_text(name) == "foreground"@ {
        Some(Mode::Foreground)
    } else if lower_text(name) == "tmux"@ {
        Some(Mode::Tmux)
    } else {
        None
    }
}

/// The role that the environment asks for, if it asks for one that there is.
pub open spec fn role_of(env: Map<Seq<char>, String>) -> Option<Role> {
    match value_of(env, "ROLE"@) {
        Some(name) => role_named(name),
        None => Some(Role::Auto),
    }
}

/// The mode that the environment asks for, if it asks for one that there is.
pub open spec fn mode_of(env: Map<Seq<char>, String>) -> Option<Mode> {
    match value_of(env, "MODE"@) {
        Some(name) => mode_named(name),
        None => Some(Mode::Foreground),
    }
}

/// The role with a name, in whatever case.
pub fn parse_role(name: &str) -> (r: Option<Role>)
    ensures
        r == role_named(name@),
{
    let lower = to_lower(name);
    if same(lower.as_str(), "auto") {
        Some(Role::Auto)
    } else if same(lower.as_str(), "master") {
        Some(Role::Master)
    } else if same(lower.as_str(), "worker") {
        Some(Role::Worker)
    } else {
        None
    }
}

/// The mode with a name, in whatever case.
pub fn parse_mode(name: &str) -> (r: Option<Mode>)
    ensures
        r == mode_named(name@),
{
    let lower = to_lower(name);
    if same(lower.as_str(), "foreground") {
        Some(Mode::Foreground)
    } else if same(lower.as_str(), "tmux") {
        Some(Mode::Tmux)
    } else {
        None
    }
}

/// The role that the environment asks for.
fn env_role(env: &EnvMap) -> (r: Result<Role, InvalidVariable>)
    ensures
        match r {
            Ok(role) => role_of(env@) == Some(role),
            Err(e) => role_of(env@) is None && e.key@ == "ROLE"@ && Some(e.value@) == value_of(
                env@,
                "ROLE"@,
            ),
        },
{
    match env.get("ROLE") {
        Some(value) => match parse_role(value.as_str()) {
            Some(role) => Ok(role),
            None => Err(InvalidVariable { key: "ROLE".to_owned(), value: value.clone() }),
        },
        None => Ok(Role::Auto),
    }
}

/// The mode that the environment asks for.
fn env_mode(env: &EnvMap) -> (r: Result<Mode, InvalidVariable>)
    ensures
        match r {
            Ok(mode) => mode_of(env@) == Some(mode),
            Err(e) => mode_of(env@) is None && e.key@ == "MODE"@ && Some(e.value@) == value_of(
                env@,
                "MODE"@,
            ),
        },
{
    match env.get("MODE") {
        Some(value) => match parse_mode(value.as_str()) {
            Some(mode) => Ok(mode),
            None => Err(InvalidVariable { key: "MODE".to_owned(), value: value.clone() }),
        },
        None => Ok(Mode::Foreground),
    }
}

/// The directory in which the runtime keeps its files unless told otherwise.
pub open spec fn default_dir(env: Map<Seq<char>, String>) -> Seq<char> {
    joined_path(value_or(env, "HOME"@, "."@), ".agent-runtime"@)
}

/// The directory in which the runtime keeps its files unless told otherwise.
pub fn default_runtime_dir(env: &EnvMap) -> (r: String)
    ensures
        r@ == default_dir(env@),
{
    let home = env_or(env, "HOME", ".");
    join_path(home.as_str(), ".agent-runtime")
}

/// The database of a coordinator unless told otherwise.
pub fn default_db_path(env: &EnvMap) -> (r: String)
    ensures
        r@ == joined_path(default_dir(env@), "coordinator.sqlite"@),
{
    let dir = default_runtime_dir(env);
    join_path(dir.as_str(), "coordinator.sqlite")
}

/// How the launcher is configured.
#[derive(Debug)]
pub struct Config {
    pub rank: String,
    pub role: Role,
    pub mode: Mode,
    pub session: String,
    pub port: String,
    pub listen: String,
    pub coordinator_url: String,
    pub runtime_dir: String,
    pub worker_token_file: String,
    pub client_token_file: String,
    pub db: String,
    pub node_name: String,
    pub policy: Option<String>,
    pub coordinator_bin: String,
    pub worker_bin: String,
}

/// The port of the coordinator.
pub open spec fn port_of(env: Map<Seq<char>, String>) -> Seq<char> {
    value_or(env, "PORT"@, value_or(env, "MASTER_PORT"@, "8765"@))
}

/// The host of the coordinator.
pub open spec fn addr_of(env: Map<Seq<char>, String>) -> Seq<char> {
    value_or(env, "COORDINATOR_ADDR"@, value_or(env, "MASTER_ADDR"@, "127.0.0.1"@))
}

/// The directory in which the runtime keeps its files.
pub open spec fn dir_of(env: Map<Seq<char>, String>) -> Seq<char> {
    value_or(env, "RUNTIME_DIR"@, default_dir(env))
}

impl Config {
    /// Whether the texts of a configuration are those that an environment gives on a host.
    pub open spec fn is_from(self, env: Map<Seq<char>, String>, hostname: Seq<char>) -> bool {
        let rank = value_or(env, "RANK"@, "0"@);
        &&& self.rank@ == rank
        &&& self.port@ == port_of(env)
        &&& self.coordinator_url@ == value_or(
            env,
            "COORDINATOR_URL"@,
            "ws://"@ + addr_of(env) + ":"@ + port_of(env),
        )
        &&& self.listen@ == value_or(env, "LISTEN"@, "0.0.0.0:"@ + port_of(env))
        &&& self.runtime_dir@ == dir_of(env)
        &&& self.worker_token_file@ == value_or(
            env,
            "WORKER_TOKEN_FILE"@,
            joined_path(dir_of(env), "worker.token"@),
        )
        &&& self.client_token_file@ == value_or(
            env,
            "CLIENT_TOKEN_FILE"@,
            joined_path(dir_of(env), "client.token"@),
        )
        &&& self.db@ == value_or(env, "DB"@, joined_path(dir_of(env), "coordinator.sqlite"@))
        &&& self.node_name@ == value_or(env, "NODE_NAME"@, hostname + "-rank-"@ + rank)
        &&& optional_text(self.policy) == value_of(env, "POLICY"@)
        &&& self.session@ == value_or(env, "SESSION"@, "agent-runtime-"@ + port_of(env))
        &&& self.coordinator_bin@ == value_or(
            env,
            "AGENT_COORDINATOR_BIN"@,
            "agent-coordinator"@,
        )
        &&& self.worker_bin@ == value_or(env, "AGENT_WORKER_BIN"@, "agent-worker"@)
    }

    /// The configuration that an environment gives on a host. A host without a name is `node`.
    pub fn from_env(env: &EnvMap, hostname: Option<&str>) -> (r: Result<Self, InvalidVariable>)
        ensures
            match r {
                Ok(config) => {
                    &&& config.is_from(
                        env@,
                        (match hostname {
                            Some(name) => name@,
                            None => "node"@,
                        }),
                    )
                    &&& role_of(env@) == Some(config.role)
                    &&& mode_of(env@) == Some(config.mode)
                },
                Err(e) => if role_of(env@) is None {
                    e.key@ == "ROLE"@ && Some(e.value@) == value_of(env@, "ROLE"@)
                } else {
                    mode_of(env@) is None && e.key@ == "MODE"@ && Some(e.value@) == value_of(
                        env@,
                        "MODE"@,
                    )
                },
            },
    {
        let host = match hostname {
            Some(name) => name,
            None => "node",
        };
        let rank = env_or(env, "RANK", "0");
        let master_port = env_or(env, "MASTER_PORT", "8765");
        let port = env_or(env, "PORT", master_port.as_str());
        let master_addr = env_or(env, "MASTER_ADDR", "127.0.0.1");
        let addr = env_or(env, "COORDINATOR_ADDR", master_addr.as_str());
        let mut url = enclosed("ws://", addr.as_str(), ":");
        url.append(port.as_str());
        let coordinator_url = env_or(env, "COORDINATOR_URL", url.as_str());
        let any = prefixed("0.0.0.0:", port.as_str());
        let listen = env_or(env, "LISTEN", any.as_str());
        let usual_dir = default_runtime_dir(env);
        let runtime_dir = env_or(env, "RUNTIME_DIR", usual_dir.as_str());
        let worker_token = join_path(runtime_dir.as_str(), "worker.token");
        let worker_token_file = env_or(env, "WORKER_TOKEN_FILE", worker_token.as_str());
        let client_token = join_path(runtime_dir.as_str(), "client.token");
        let client_token_file = env_or(env, "CLIENT_TOKEN_FILE", client_token.as_str());
        let database = join_path(runtime_dir.as_str(), "coordinator.sqlite");
        let db = env_or(env, "DB", database.as_str());
        let name = enclosed(host, "-rank-", rank.as_str());
        let node_name = env_or(env, "NODE_NAME", name.as_str());
        let policy = match env.get("POLICY") {
            Some(path) => Some(path.clone()),
            None => None,
        };
        let usual_session = prefixed("agent-runtime-", port.as_str());
        let session = env_or(env, "SESSION", usual_session.as_str());
        let role = match env_role(env) {
            Ok(role) => role,
            Err(e) => {
                return Err(e);
            },
        };
        let mode = match env_mode(env) {
            Ok(mode) => mode,
            Err(e) => {
                return Err(e);
            },
        };
        let coordinator_bin = env_or(env, "AGENT_COORDINATOR_BIN", "agent-coordinator");
        let worker_bin = env_or(env, "AGENT_WORKER_BIN", "agent-worker");
        Ok(
            Config {
                rank,
                role,
                mode,
                session,
                port,
                listen,
                coordinator_url,
                runtime_dir,
                worker_token_file,
                client_token_file,
                db,
                node_name,
                policy,
                coordinator_bin,
                worker_bin,
            },
        )
    }

    /// The role of this node: the one that is asked for, or else master for rank 0 alone.
    pub open spec fn own_role(self) -> ResolvedRole {
        match self.role {
            Role::Master => ResolvedRole::Master,
            Role::Worker => ResolvedRole::Worker,
            Role::Auto => if self.rank@ == "0"@ {
                ResolvedRole::Master
            } else {
                ResolvedRole::Worker
            },
        }
    }

    /// The role of this node.
    pub fn resolved_role(&self) -> (r: ResolvedRole)
        ensures
            r == self.own_role(),
    {
        match self.role {
            Role::Master => ResolvedRole::Master,
            Role::Worker => ResolvedRole::Worker,
            Role::Auto => if same(self.rank.as_str(), "0") {
                ResolvedRole::Master
            } else {
                ResolvedRole::Worker
            },
        }
    }

    /// The words of the coordinator's command.
    pub open spec fn coordinator_words(self) -> Seq<Seq<char>> {
        seq![
            self.coordinator_bin@,
            "--listen"@,
            self.listen@,
            "--db"@,
            self.db@,
            "--worker-token-file"@,
            self.worker_token_file@,
            "--client-token-file"@,
            self.client_token_file@,
        ]
    }

    /// The words of the worker's command.
    pub open spec fn worker_words(self) -> Seq<Seq<char>> {
        let words = seq![
            self.worker_bin@,
            "--coordinator"@,
            self.coordinator_url@,
            "--node-name"@,
            self.node_name@,
            "--token-file"@,
            self.worker_token_file@,
        ];
        match self.policy {
            Some(policy) => words.push("--policy"@).push(policy@),
            None => words,
        }
    }

    /// The coordinator's log file.
    pub open spec fn coordinator_log(self) -> Seq<char> {
        joined_path(self.runtime_dir@, "coordinator.log"@)
    }

    /// The worker's log file.
    pub open spec fn worker_log(self) -> Seq<char> {
        joined_path(self.runtime_dir@, "worker-"@ + self.node_name@ + ".log"@)
    }

    /// The lines that tell how the runtime can be reached.
    pub open spec fn info(self, master: bool) -> Seq<Seq<char>> {
        let lines = seq![
            "coordinator: "@ + self.coordinator_url@,
            "node: "@ + self.node_name@,
            "runtime dir: "@ + self.runtime_dir@,
            "port: "@ + self.port@,
        ];
        if master {
            lines.push("client token: "@ + self.client_token_file@)
        } else {
            lines
        }
    }
}

/// The command that starts the coordinator.
pub fn coordinator_command(config: &Config) -> (r: Vec<String>)
    ensures
        texts(r@) == config.coordinator_words(),
{
    let mut r: Vec<String> = Vec::new();
    r.push(config.coordinator_bin.clone());
    r.push("--listen".to_owned());
    r.push(config.listen.clone());
    r.push("--db".to_owned());
    r.push(config.db.clone());
    r.push("--worker-token-file".to_owned());
    r.push(config.worker_token_file.clone());
    r.push("--client-token-file".to_owned());
    r.push(config.client_token_file.clone());
    proof {
        assert(texts(r@) =~= config.coordinator_words());
    }
    r
}

/// The command that starts the worker.
pub fn worker_command(config: &Config) -> (r: Vec<String>)
    ensures
        texts(r@) == config.worker_words(),
{
    let mut r: Vec<String> = Vec::new();
    r.push(config.worker_bin.clone());
    r.push("--coordinator".to_owned());
    r.push(config.coordinator_url.clone());
    r.push("--node-name".to_owned());
    r.push(config.node_name.clone());
    r.push("--token-file".to_owned());
    r.push(config.worker_token_file.clone());
    match &config.policy {
        Some(policy) => {
            r.push("--policy".to_owned());
            r.push(policy.clone());
        },
        None => {},
    }
    proof {
        assert(texts(r@) =~= config.worker_words());
    }
    r
}

/// The coordinator's log file.
pub fn coordinator_log_path(config: &Config) -> (r: String)
    ensures
        r@ == config.coordinator_log(),
{
    join_path(config.runtime_dir.as_str(), "coordinator.log")
}

/// The worker's log file.
pub fn worker_log_path(config: &Config) -> (r: String)
    ensures
        r@ == config.worker_log(),
{
    let file = enclosed("worker-", config.node_name.as_str(), ".log");
    join_path(config.runtime_dir.as_str(), file.as_str())
}

/// The lines that tell how the runtime can be reached.
pub fn runtime_info(config: &Config, master: bool) -> (r: Vec<String>)
    ensures
        texts(r@) == config.info(master),
{
    let mut r: Vec<String> = Vec::new();
    r.push(prefixed("coordinator: ", config.coordinator_url.as_str()));
    r.push(prefixed("node: ", config.node_name.as_str()));
    r.push(prefixed("runtime dir: ", config.runtime_dir.as_str()));
    r.push(prefixed("port: ", config.port.as_str()));
    if master {
        r.push(prefixed("client token: ", config.client_token_file.as_str()));
    }
    proof {
        assert(texts(r@) =~= config.info(master));
    }
    r
}

/// A shell command that runs a command with all output appended to a file.
pub open spec fn logged_command(words: Seq<Seq<char>>, log_path: Seq<char>) -> Seq<char> {
    joined(words.map_values(|word: Seq<char>| quoted(word)), " "@) + " >> "@ + quoted(log_path)
        + " 2>&1"@
}

/// A shell command that runs a command with all output appended to a file.
pub fn shell_command(command: &Vec<String>, log_path: &str) -> (r: String)
    ensures
        r@ == logged_command(texts(command@), log_path@),
{
    let words = quote_words(command);
    proof {
        assert(quoted_words(command@) =~= texts(command@).map_values(
            |word: Seq<char>| quoted(word),
        ));
    }
    let mut r = enclosed(words.as_str(), " >> ", shell_quote(log_path).as_str());
    r.append(" 2>&1");
    r
}

/// A session as tmux is told of it: by its exact name.
pub fn tmux_target(session: &str) -> (r: String)
    ensures
        r@ == "="@ + session@,
{
    prefixed("=", session)
}

/// One thing that the launcher does.
#[derive(Debug)]
pub enum Step {
    /// Create a directory and those above it.
    CreateDir(String),
    /// Write a fresh token unless the file holds one.
    EnsureToken(String),
    /// Stop unless the file holds something.
    RequireFile { path: String, label: String },
    /// Take note of requests to shut down from here on.
    WatchSignals,
    /// Stop unless tmux runs.
    RequireTmux,
    /// Stop if there is a tmux session of this name.
    RequireNoSession(String),
    /// Make a log file empty.
    ResetLog(String),
    /// Start a process whose output is appended to a file.
    Spawn { command: Vec<String>, label: String, log: String },
    /// Start a tmux session.
    NewSession { session: String, window: String, command: String },
    /// Start a window in a tmux session.
    NewWindow { session: String, window: String, command: String },
    /// Wait.
    Pause { seconds: u64 },
    /// Tell the user.
    Print(String),
    /// Wait for the processes that were started.
    WaitForProcesses,
}

/// What a `Step` says.
pub enum StepView {
    CreateDir(Seq<char>),
    EnsureToken(Seq<char>),
    RequireFile { path: Seq<char>, label: Seq<char> },
    WatchSignals,
    RequireTmux,
    RequireNoSession(Seq<char>),
    ResetLog(Seq<char>),
    Spawn { command: Seq<Seq<char>>, label: Seq<char>, log: Seq<char> },
    NewSession { session: Seq<char>, window: Seq<char>, command: Seq<char> },
    NewWindow { session: Seq<char>, window: Seq<char>, command: Seq<char> },
    Pause { seconds: u64 },
    Print(Seq<char>),
    WaitForProcesses,
}

impl View for Step {
    type V = StepView;

    open spec fn view(&self) -> StepView {
        match *self {
            Step::CreateDir(path) => StepView::CreateDir(path@),
            Step::EnsureToken(path) => StepView::EnsureToken(path@),
            Step::RequireFile { path, label } => StepView::RequireFile {
                path: path@,
                label: label@,
            },
            Step::WatchSignals => StepView::WatchSignals,
            Step::RequireTmux => StepView::RequireTmux,
            Step::RequireNoSession(session) => StepView::RequireNoSession(session@),
            Step::ResetLog(path) => StepView::ResetLog(path@),
            Step::Spawn { command, label, log } => StepView::Spawn {
                command: texts(command@),
                label: label@,
                log: log@,
            },
            Step::NewSession { session, window, command } => StepView::NewSession {
                session: session@,
                window: window@,
                command: command@,
            },
            Step::NewWindow { session, window, command } => StepView::NewWindow {
                session: session@,
                window: window@,
                command: command@,
            },
            Step::Pause { seconds } => StepView::Pause { seconds },
            Step::Print(line) => StepView::Print(line@),
            Step::WaitForProcesses => StepView::WaitForProcesses,
        }
    }
}

/// What steps say.
pub open spec fn said(steps: Seq<Step>) -> Seq<StepView> {
    steps.map_values(|step: Step| step@)
}

/// The steps that print lines.
pub open spec fn printed(lines: Seq<Seq<char>>) -> Seq<StepView> {
    lines.map_values(|line: Seq<char>| StepView::Print(line))
}

impl Config {
    /// The steps that see to the files that a node needs: the master makes its tokens, a worker
    /// needs to have been given its own.
    pub open spec fn file_steps(self) -> Seq<StepView> {
        let dir = seq![StepView::CreateDir(self.runtime_dir@)];
        match self.own_role() {
            ResolvedRole::Master => dir.push(
                StepView::EnsureToken(self.worker_token_file@),
            ).push(StepView::EnsureToken(self.client_token_file@)),
            ResolvedRole::Worker => dir.push(
                StepView::RequireFile {
                    path: self.worker_token_file@,
                    label: "worker token"@,
                },
            ),
        }
    }

    /// The start of the coordinator's process.
    pub open spec fn coordinator_process(self) -> StepView {
        StepView::Spawn {
            command: self.coordinator_words(),
            label: "coordinator"@,
            log: self.coordinator_log(),
        }
    }

    /// The start of the worker's process.
    pub open spec fn worker_process(self) -> StepView {
        StepView::Spawn {
            command: self.worker_words(),
            label: "worker"@,
            log: self.worker_log(),
        }
    }

    /// The steps that start a node whose processes the launcher waits for. A master starts its
    /// worker a second after its coordinator.
    pub open spec fn foreground_steps(self) -> Seq<StepView> {
        match self.own_role() {
            ResolvedRole::Master => seq![
                StepView::WatchSignals,
                StepView::ResetLog(self.coordinator_log()),
                StepView::ResetLog(self.worker_log()),
                self.coordinator_process(),
                StepView::Pause { seconds: 1 },
                self.worker_process(),
                StepView::Print("started role=master mode=foreground"@),
            ] + printed(self.info(true)) + seq![StepView::WaitForProcesses],
            ResolvedRole::Worker => seq![
                StepView::WatchSignals,
                StepView::ResetLog(self.worker_log()),
                StepView::Print("started role=worker mode=foreground"@),
            ] + printed(self.info(false)) + seq![self.worker_process(), StepView::WaitForProcesses],
        }
    }

    /// The steps that start a node in a tmux session.
    pub open spec fn tmux_steps(self) -> Seq<StepView> {
        match self.own_role() {
            ResolvedRole::Master => seq![
                StepView::RequireTmux,
                StepView::RequireNoSession(self.session@),
                StepView::ResetLog(self.coordinator_log()),
                StepView::ResetLog(self.worker_log()),
                StepView::NewSession {
                    session: self.session@,
                    window: "coordinator"@,
                    command: logged_command(self.coordinator_words(), self.coordinator_log()),
                },
                StepView::Pause { seconds: 1 },
                StepView::NewWindow {
                    session: self.session@,
                    window: "worker"@,
                    command: logged_command(self.worker_words(), self.worker_log()),
                },
                StepView::Print("started role=master mode=tmux"@),
            ] + printed(self.info(true)),
            ResolvedRole::Worker => seq![
                StepView::RequireTmux,
                StepView::RequireNoSession(self.session@),
                StepView::ResetLog(self.worker_log()),
                StepView::NewSession {
                    session: self.session@,
                    window: "worker"@,
                    command: logged_command(self.worker_words(), self.worker_log()),
                },
                StepView::Print("started role=worker mode=tmux"@),
            ] + printed(self.info(false)),
        }
    }

    /// All steps of a start.
    pub open spec fn start_steps(self) -> Seq<StepView> {
        self.file_steps() + (match self.mode {
            Mode::Foreground => self.foreground_steps(),
            Mode::Tmux => self.tmux_steps(),
        })
    }
}

/// Adds a step.
fn then_do(steps: &mut Vec<Step>, step: Step)
    ensures
        said(final(steps)@) == said(old(steps)@).push(step@),
{
    let ghost before = steps@;
    steps.push(step);
    proof {
        assert(said(steps@) =~= said(before).push(step@));
    }
}

/// Adds the steps that print how the runtime can be reached.
fn then_print_info(steps: &mut Vec<Step>, config: &Config, master: bool)
    ensures
        said(final(steps)@) == said(old(steps)@) + printed(config.info(master)),
{
    let lines = runtime_info(config, master);
    let ghost before = said(steps@);
    proof {
        assert(before + printed(texts(lines@).take(0)) =~= before);
    }
    for i in 0..lines.len()
        invariant
            said(steps@) == before + printed(texts(lines@).take(i as int)),
    {
        then_do(steps, Step::Print(lines[i].clone()));
        proof {
            assert(printed(texts(lines@).take(i + 1)) =~= printed(
                texts(lines@).take(i as int),
            ).push(StepView::Print(lines@[i as int]@)));
            assert(before + printed(texts(lines@).take(i + 1)) =~= (before + printed(
                texts(lines@).take(i as int),
            )).push(StepView::Print(lines@[i as int]@)));
        }
    }
    proof {
        assert(texts(lines@).take(lines.len() as int) =~= texts(lines@));
    }
}

/// The steps that see to the files that a node needs.
fn plan_files(config: &Config) -> (r: Vec<Step>)
    ensures
        said(r@) == config.file_steps(),
{
    let mut steps: Vec<Step> = Vec::new();
    then_do(&mut steps, Step::CreateDir(config.runtime_dir.clone()));
    match config.resolved_role() {
        ResolvedRole::Master => {
            then_do(&mut steps, Step::EnsureToken(config.worker_token_file.clone()));
            then_do(&mut steps, Step::EnsureToken(config.client_token_file.clone()));
        },
        ResolvedRole::Worker => {
            then_do(
                &mut steps,
                Step::RequireFile {
                    path: config.worker_token_file.clone(),
                    label: "worker token".to_owned(),
                },
            );
        },
    }
    proof {
        assert(said(steps@) =~= config.file_steps());
    }
    steps
}

/// The start of the coordinator's process.
fn spawn_coordinator(config: &Config) -> (r: Step)
    ensures
        r@ == config.coordinator_process(),
{
    Step::Spawn {
        command: coordinator_command(config),
        label: "coordinator".to_owned(),
        log: coordinator_log_path(config),
    }
}

/// The start of the worker's process.
fn spawn_worker(config: &Config) -> (r: Step)
    ensures
        r@ == config.worker_process(),
{
    Step::Spawn {
        command: worker_command(config),
        label: "worker".to_owned(),
        log: worker_log_path(config),
    }
}

/// The steps that start a node whose processes the launcher waits for.
pub fn start_foreground(config: &Config) -> (r: Vec<Step>)
    ensures
        said(r@) == config.foreground_steps(),
{
    let mut steps: Vec<Step> = Vec::new();
    then_do(&mut steps, Step::WatchSignals);
    match config.resolved_role() {
        ResolvedRole::Master => {
            then_do(&mut steps, Step::ResetLog(coordinator_log_path(config)));
            then_do(&mut steps, Step::ResetLog(worker_log_path(config)));
            then_do(&mut steps, spawn_coordinator(config));
            then_do(&mut steps, Step::Pause { seconds: 1 });
            then_do(&mut steps, spawn_worker(config));
            then_do(&mut steps, Step::Print("started role=master mode=foreground".to_owned()));
            then_print_info(&mut steps, config, true);
            then_do(&mut steps, Step::WaitForProcesses);
        },
        ResolvedRole::Worker => {
            then_do(&mut steps, Step::ResetLog(worker_log_path(config)));
            then_do(&mut steps, Step::Print("started role=worker mode=foreground".to_owned()));
            then_print_info(&mut steps, config, false);
            then_do(&mut steps, spawn_worker(config));
            then_do(&mut steps, Step::WaitForProcesses);
        },
    }
    proof {
        assert(said(steps@) =~= config.foreground_steps());
    }
    steps
}

/// The steps that start a node in a tmux session.
pub fn start_tmux(config: &Config) -> (r: Vec<Step>)
    ensures
        said(r@) == config.tmux_steps(),
{
    let mut steps: Vec<Step> = Vec::new();
    then_do(&mut steps, Step::RequireTmux);
    then_do(&mut steps, Step::RequireNoSession(config.session.clone()));
    let worker_log = worker_log_path(config);
    let worker = shell_command(&worker_command(config), worker_log.as_str());
    match config.resolved_role() {
        ResolvedRole::Master => {
            let coordinator_log = coordinator_log_path(config);
            let coordinator = shell_command(
                &coordinator_command(config),
                coordinator_log.as_str(),
            );
            then_do(&mut steps, Step::ResetLog(coordinator_log));
            then_do(&mut steps, Step::ResetLog(worker_log));
            then_do(
                &mut steps,
                Step::NewSession {
                    session: config.session.clone(),
                    window: "coordinator".to_owned(),
                    command: coordinator,
                },
            );
            then_do(&mut steps, Step::Pause { seconds: 1 });
            then_do(
                &mut steps,
                Step::NewWindow {
                    session: config.session.clone(),
                    window: "worker".to_owned(),
                    command: worker,
                },
            );
            then_do(&mut steps, Step::Print("started role=master mode=tmux".to_owned()));
            then_print_info(&mut steps, config, true);
        },
        ResolvedRole::Worker => {
            then_do(&mut steps, Step::ResetLog(worker_log));
            then_do(
                &mut steps,
                Step::NewSession {
                    session: config.session.clone(),
                    window: "worker".to_owned(),
                    command: worker,
                },
            );
            then_do(&mut steps, Step::Print("started role=worker mode=tmux".to_owned()));
            then_print_info(&mut steps, config, false);
        },
    }
    proof {
        assert(said(steps@) =~= config.tmux_steps());
    }
    steps
}

/// All steps of a start.
pub fn start(config: &Config) -> (r: Vec<Step>)
    ensures
        said(r@) == config.start_steps(),
{
    let mut steps = plan_files(config);
    let mut more = match config.mode {
        Mode::Foreground => start_foreground(config),
        Mode::Tmux => start_tmux(config),
    };
    let ghost first = steps@;
    let ghost second = more@;
    steps.append(&mut more);
    proof {
        assert(said(steps@) =~= said(first) + said(second));
    }
    steps
}

/// The words that follow `tmux` on its command line, and what is said where it fails.
#[derive(Debug)]
pub struct TmuxCall {
    pub args: Vec<String>,
    pub failure: String,
}

/// A request that only a runtime in a tmux session can meet.
#[derive(Debug)]
pub struct OnlyWithTmux {
    pub request: String,
}

impl OnlyWithTmux {
    /// The error in words.
    pub fn message(&self) -> (r: String)
        ensures
            r@ == "agent-runtime "@ + self.request@ + " is only available with MODE=tmux"@,
    {
        enclosed("agent-runtime ", self.request.as_str(), " is only available with MODE=tmux")
    }
}

/// A call of tmux on a session by its exact name.
fn session_call(verb: &str, session: &str, failure: String) -> (r: TmuxCall)
    ensures
        texts(r.args@) == seq![verb@, "-t"@, "="@ + session@],
        r.failure == failure,
{
    let mut args: Vec<String> = Vec::new();
    args.push(verb.to_owned());
    args.push("-t".to_owned());
    args.push(tmux_target(session));
    proof {
        assert(texts(args@) =~= seq![verb@, "-t"@, "="@ + session@]);
    }
    TmuxCall { args, failure }
}

/// The call that ends the session of the runtime.
pub fn stop(config: &Config) -> (r: Result<TmuxCall, OnlyWithTmux>)
    ensures
        match r {
            Ok(call) => {
                &&& config.mode == Mode::Tmux
                &&& texts(call.args@) == seq!["kill-session"@, "-t"@, "="@ + config.session@]
                &&& call.failure@ == "tmux session "@ + config.session@ + " was not stopped"@
            },
            Err(e) => config.mode != Mode::Tmux && e.request@ == "stop"@,
        },
{
    if config.mode != Mode::Tmux {
        return Err(OnlyWithTmux { request: "stop".to_owned() });
    }
    let failure = enclosed("tmux session ", config.session.as_str(), " was not stopped");
    Ok(session_call("kill-session", config.session.as_str(), failure))
}

/// The call that shows the session of the runtime.
pub fn status(config: &Config) -> (r: Result<TmuxCall, OnlyWithTmux>)
    ensures
        match r {
            Ok(call) => {
                &&& config.mode == Mode::Tmux
                &&& texts(call.args@) == seq!["list-windows"@, "-t"@, "="@ + config.session@]
                &&& call.failure@ == "tmux session "@ + config.session@ + " was not found"@
            },
            Err(e) => config.mode != Mode::Tmux && e.request@ == "status"@,
        },
{
    if config.mode != Mode::Tmux {
        return Err(OnlyWithTmux { request: "status".to_owned() });
    }
    let failure = enclosed("tmux session ", config.session.as_str(), " was not found");
    Ok(session_call("list-windows", config.session.as_str(), failure))
}

/// The call that tells by its success whether there is a session.
pub fn tmux_has_session(session: &str) -> (r: Vec<String>)
    ensures
        texts(r@) == seq!["has-session"@, "-t"@, "="@ + session@],
{
    let call = session_call("has-session", session, "".to_owned());
    call.args
}

/// What is said of a session that is there already.
pub fn session_exists(session: &str) -> (r: String)
    ensures
        r@ == "tmux session "@ + session@ + " already exists"@,
{
    enclosed("tmux session ", session, " already exists")
}

/// The call that starts a session with one window in the background.
pub fn tmux_new_session(session: &str, window: &str, command: &str) -> (r: TmuxCall)
    ensures
        texts(r.args@) == seq![
            "new-session"@,
            "-d"@,
            "-s"@,
            session@,
            "-n"@,
            window@,
            command@,
        ],
        r.failure@ == "failed to create tmux session "@ + session@,
{
    let mut args: Vec<String> = Vec::new();
    args.push("new-session".to_owned());
    args.push("-d".to_owned());
    args.push("-s".to_owned());
    args.push(session.to_owned());
    args.push("-n".to_owned());
    args.push(window.to_owned());
    args.push(command.to_owned());
    proof {
        assert(texts(args@) =~= seq![
            "new-session"@,
            "-d"@,
            "-s"@,
            session@,
            "-n"@,
            window@,
            command@,
        ]);
    }
    TmuxCall { args, failure: prefixed("failed to create tmux session ", session) }
}

/// The call that starts a window in a session.
pub fn tmux_new_window(session: &str, window: &str, command: &str) -> (r: TmuxCall)
    ensures
        texts(r.args@) == seq![
            "new-window"@,
            "-t"@,
            "="@ + session@,
            "-n"@,
            window@,
            command@,
        ],
        r.failure@ == "failed to create tmux window "@ + window@,
{
    let mut args: Vec<String> = Vec::new();
    args.push("new-window".to_owned());
    args.push("-t".to_owned());
    args.push(tmux_target(session));
    args.push("-n".to_owned());
    args.push(window.to_owned());
    args.push(command.to_owned());
    proof {
        assert(texts(args@) =~= seq![
            "new-window"@,
            "-t"@,
            "="@ + session@,
            "-n"@,
            window@,
            command@,
        ]);
    }
    TmuxCall { args, failure: prefixed("failed to create tmux window ", window) }
}

/// Whether a file holds something; `size` is its number of bytes if it is there.
pub fn holds_something(size: Option<u64>) -> (r: bool)
    ensures
        r == (size matches Some(n) && n > 0),
{
    match size {
        Some(n) => n > 0,
        None => false,
    }
}

/// Asks for a file that holds something.
pub fn require_file(path: &str, label: &str, size: Option<u64>) -> (r: Result<(), String>)
    ensures
        match r {
            Ok(_) => size matches Some(n) && n > 0,
            Err(text) => !(size matches Some(n) && n > 0) && text@ == "missing "@ + label@ + ": "@
                + path@,
        },
{
    if holds_something(size) {
        Ok(())
    } else {
        let mut text = enclosed("missing ", label, ": ");
        text.append(path);
        Err(text)
    }
}

/// What becomes of a launcher that waits: which of its processes it ends, and how it ends itself.
#[derive(Debug)]
pub struct Outcome {
    pub stop_first: bool,
    pub stop_second: bool,
    pub error: Option<String>,
}

/// Looks at the processes of a master: the coordinator first, then the worker. `terminate` says
/// whether a shutdown was asked for; a status is there once a process has ended.
pub fn check_children(terminate: bool, coordinator: Option<&str>, worker: Option<&str>) -> (r:
    Option<Outcome>)
    ensures
        if terminate {
            r matches Some(o) && o.stop_first && o.stop_second && optional_text(o.error) == Some(
                "received shutdown signal"@,
            )
        } else if coordinator is Some {
            r matches Some(o) && !o.stop_first && o.stop_second && optional_text(o.error) == Some(
                "coordinator exited with "@ + (coordinator->0)@,
            )
        } else if worker is Some {
            r matches Some(o) && o.stop_first && !o.stop_second && optional_text(o.error) == Some(
                "worker exited with "@ + (worker->0)@,
            )
        } else {
            r is None
        },
{
    if terminate {
        return Some(
            Outcome {
                stop_first: true,
                stop_second: true,
                error: Some("received shutdown signal".to_owned()),
            },
        );
    }
    match coordinator {
        Some(status) => {
            return Some(
                Outcome {
                    stop_first: false,
                    stop_second: true,
                    error: Some(prefixed("coordinator exited with ", status)),
                },
            );
        },
        None => {},
    }
    match worker {
        Some(status) => Some(
            Outcome {
                stop_first: true,
                stop_second: false,
                error: Some(prefixed("worker exited with ", status)),
            },
        ),
        None => None,
    }
}

/// How a process ended: whether well, and its status in words.
#[derive(Debug)]
pub struct ExitStatus {
    pub success: bool,
    pub text: String,
}

/// Looks at the one process of a worker.
pub fn check_child(terminate: bool, status: Option<ExitStatus>, label: &str) -> (r: Option<Outcome>)
    ensures
        if terminate {
            r matches Some(o) && o.stop_first && !o.stop_second && optional_text(o.error) == Some(
                "received shutdown signal"@,
            )
        } else {
            match status {
                Some(status) => r matches Some(o) && !o.stop_first && !o.stop_second && if status.success {
                    o.error is None
                } else {
                    optional_text(o.error) == Some(label@ + " exited with "@ + status.text@)
                },
                None => r is None,
            }
        },
{
    if terminate {
        return Some(
            Outcome {
                stop_first: true,
                stop_second: false,
                error: Some("received shutdown signal".to_owned()),
            },
        );
    }
    match status {
        Some(status) => {
            let error = if status.success {
                None
            } else {
                Some(enclosed(label, " exited with ", status.text.as_str()))
            };
            Some(Outcome { stop_first: false, stop_second: false, error })
        },
        None => None,
    }
}

/// A program that writes a fresh token to its standard output.
#[derive(Clone, Copy, Debug, PartialEq, Eq, Structural)]
pub enum TokenSource {
    Python,
    OpenSsl,
}

/// The command of a token source.
pub fn token_command(source: TokenSource) -> (r: Vec<String>)
    ensures
        texts(r@) == (match source {
            TokenSource::Python => seq![
                "python3"@,
                "-c"@,
                "import secrets; print(secrets.token_urlsafe(32))"@,
            ],
            TokenSource::OpenSsl => seq!["openssl"@, "rand"@, "-base64"@, "32"@],
        }),
{
    let mut r: Vec<String> = Vec::new();
    match source {
        TokenSource::Python => {
            r.push("python3".to_owned());
            r.push("-c".to_owned());
            r.push("import secrets; print(secrets.token_urlsafe(32))".to_owned());
            proof {
                assert(texts(r@) =~= seq![
                    "python3"@,
                    "-c"@,
                    "import secrets; print(secrets.token_urlsafe(32))"@,
                ]);
            }
        },
        TokenSource::OpenSsl => {
            r.push("openssl".to_owned());
            r.push("rand".to_owned());
            r.push("-base64".to_owned());
            r.push("32".to_owned());
            proof {
                assert(texts(r@) =~= seq!["openssl"@, "rand"@, "-base64"@, "32"@]);
            }
        },
    }
    r
}

/// The token source to try next, after the given one has failed.
pub fn next_token_source(failed: Option<TokenSource>) -> (r: Option<TokenSource>)
    ensures
        r == (match failed {
            None => Some(TokenSource::Python),
            Some(TokenSource::Python) => Some(TokenSource::OpenSsl),
            Some(TokenSource::OpenSsl) => None,
        }),
{
    match failed {
        None => Some(TokenSource::Python),
        Some(TokenSource::Python) => Some(TokenSource::OpenSsl),
        Some(TokenSource::OpenSsl) => None,
    }
}

/// Whether a step starts a coordinator: as a process, or in a window of a tmux session.
pub open spec fn starts_coordinator(step: StepView) -> bool {
    match step {
        StepView::Spawn { label, .. } => label == "coordinator"@,
        StepView::NewSession { window, .. } => window == "coordinator"@,
        StepView::NewWindow { window, .. } => window == "coordinator"@,
        _ => false,
    }
}

/// In either mode, a start on the master starts a coordinator and makes the tokens that are
/// missing; a start on another node does neither, and needs the worker's token to be there.
pub proof fn law_only_the_master_coordinates(config: Config)
    ensures
        config.own_role() == ResolvedRole::Worker ==> {
            &&& forall|i: int|
                0 <= i < config.start_steps().len() ==> !starts_coordinator(
                    #[trigger] config.start_steps()[i],
                )
            &&& forall|path: Seq<char>|
                !#[trigger] config.start_steps().contains(StepView::EnsureToken(path))
            &&& config.start_steps()[1] == (StepView::RequireFile {
                path: config.worker_token_file@,
                label: "worker token"@,
            })
        },
        config.own_role() == ResolvedRole::Master ==> {
            &&& exists|i: int|
                0 <= i < config.start_steps().len() && starts_coordinator(
                    #[trigger] config.start_steps()[i],
                )
            &&& config.start_steps().contains(StepView::EnsureToken(config.worker_token_file@))
            &&& config.start_steps().contains(StepView::EnsureToken(config.client_token_file@))
        },
{
    reveal_strlit("coordinator");
    reveal_strlit("worker");
    assert("coordinator"@.len() != "worker"@.len());
    let steps = config.start_steps();
    match config.own_role() {
        ResolvedRole::Master => {
            assert(steps[1] == StepView::EnsureToken(config.worker_token_file@));
            assert(steps[2] == StepView::EnsureToken(config.client_token_file@));
            match config.mode {
                Mode::Foreground => {
                    assert(steps[6] == config.foreground_steps()[3]);
                    assert(starts_coordinator(steps[6]));
                },
                Mode::Tmux => {
                    assert(steps[7] == config.tmux_steps()[4]);
                    assert(starts_coordinator(steps[7]));
                },
            }
        },
        ResolvedRole::Worker => {
            let lines = printed(config.info(false));
            assert forall|i: int| 0 <= i < lines.len() implies #[trigger] lines[i] is Print by {}
        },
    }
}

/// Where no role is given, the node of rank 0 is the master, and so is a node without a rank.
pub proof fn law_rank_zero_is_master(
    config: Config,
    env: Map<Seq<char>, String>,
    hostname: Seq<char>,
)
    requires
        config.is_from(env, hostname),
        role_of(env) == Some(config.role),
        value_of(env, "ROLE"@) is None,
    ensures
        config.own_role() == ResolvedRole::Master <==> value_or(env, "RANK"@, "0"@) == "0"@,
{
}

/// The port and the host of the coordinator are those of the launcher's own variables, else of
/// the variables of the training run, else the usual ones; its address goes by them unless it is
/// given as a whole.
pub proof fn law_coordinator_is_where_the_variables_say(
    config: Config,
    env: Map<Seq<char>, String>,
    hostname: Seq<char>,
)
    requires
        config.is_from(env, hostname),
    ensures
        env.contains_key("PORT"@) ==> config.port@ == env["PORT"@]@,
        !env.contains_key("PORT"@) && env.contains_key("MASTER_PORT"@) ==> config.port@
            == env["MASTER_PORT"@]@,
        !env.contains_key("PORT"@) && !env.contains_key("MASTER_PORT"@) ==> config.port@
            == "8765"@,
        env.contains_key("COORDINATOR_URL"@) ==> config.coordinator_url@
            == env["COORDINATOR_URL"@]@,
        !env.contains_key("COORDINATOR_URL"@) && env.contains_key("COORDINATOR_ADDR"@)
            ==> config.coordinator_url@ == "ws://"@ + env["COORDINATOR_ADDR"@]@ + ":"@
            + config.port@,
        !env.contains_key("COORDINATOR_URL"@) && !env.contains_key("COORDINATOR_ADDR"@)
            && env.contains_key("MASTER_ADDR"@) ==> config.coordinator_url@ == "ws://"@
            + env["MASTER_ADDR"@]@ + ":"@ + config.port@,
        !env.contains_key("COORDINATOR_URL"@) && !env.contains_key("COORDINATOR_ADDR"@)
            && !env.contains_key("MASTER_ADDR"@) ==> config.coordinator_url@ == "ws://"@
            + "127.0.0.1"@ + ":"@ + config.port@,
        env.contains_key("LISTEN"@) ==> config.listen@ == env["LISTEN"@]@,
        !env.contains_key("LISTEN"@) ==> config.listen@ == "0.0.0.0:"@ + config.port@,
        env.contains_key("SESSION"@) ==> config.session@ == env["SESSION"@]@,
        !env.contains_key("SESSION"@) ==> config.session@ == "agent-runtime-"@ + config.port@,
{
}

/// The files of the runtime are where the variables say, else in the directory of the runtime,
/// which is where its variable says, else under the home directory.
pub proof fn law_files_are_where_the_variables_say(
    config: Config,
    env: Map<Seq<char>, String>,
    hostname: Seq<char>,
)
    requires
        config.is_from(env, hostname),
    ensures
        env.contains_key("RUNTIME_DIR"@) ==> config.runtime_dir@ == env["RUNTIME_DIR"@]@,
        !env.contains_key("RUNTIME_DIR"@) && env.contains_key("HOME"@) ==> config.runtime_dir@
            == joined_path(env["HOME"@]@, ".agent-runtime"@),
        !env.contains_key("RUNTIME_DIR"@) && !env.contains_key("HOME"@) ==> config.runtime_dir@
            == joined_path("."@, ".agent-runtime"@),
        env.contains_key("WORKER_TOKEN_FILE"@) ==> config.worker_token_file@ == env["WORKER_TOKEN_FILE"@]@,
        !env.contains_key("WORKER_TOKEN_FILE"@) ==> config.worker_token_file@ == joined_path(
            config.runtime_dir@,
            "worker.token"@,
        ),
        env.contains_key("CLIENT_TOKEN_FILE"@) ==> config.client_token_file@ == env["CLIENT_TOKEN_FILE"@]@,
        !env.contains_key("CLIENT_TOKEN_FILE"@) ==> config.client_token_file@ == joined_path(
            config.runtime_dir@,
            "client.token"@,
        ),
        env.contains_key("DB"@) ==> config.db@ == env["DB"@]@,
        !env.contains_key("DB"@) ==> config.db@ == joined_path(
            config.runtime_dir@,
            "coordinator.sqlite"@,
        ),
        config.coordinator_log() == joined_path(config.runtime_dir@, "coordinator.log"@),
        config.worker_log() == joined_path(
            config.runtime_dir@,
            "worker-"@ + config.node_name@ + ".log"@,
        ),
{
}

/// The name of a node is the one that is given, else made of host and rank; a policy is there
/// exactly if one is given; the programs are those that are given, else the usual ones.
pub proof fn law_node_is_what_the_variables_say(
    config: Config,
    env: Map<Seq<char>, String>,
    hostname: Seq<char>,
)
    requires
        config.is_from(env, hostname),
    ensures
        env.contains_key("RANK"@) ==> config.rank@ == env["RANK"@]@,
        !env.contains_key("RANK"@) ==> config.rank@ == "0"@,
        env.contains_key("NODE_NAME"@) ==> config.node_name@ == env["NODE_NAME"@]@,
        !env.contains_key("NODE_NAME"@) ==> config.node_name@ == hostname + "-rank-"@ + config.rank@,
        config.policy is Some <==> env.contains_key("POLICY"@),
        config.policy matches Some(policy) ==> policy@ == env["POLICY"@]@,
        env.contains_key("AGENT_COORDINATOR_BIN"@) ==> config.coordinator_bin@ == env["AGENT_COORDINATOR_BIN"@]@,
        !env.contains_key("AGENT_COORDINATOR_BIN"@) ==> config.coordinator_bin@ == "agent-coordinator"@,
        env.contains_key("AGENT_WORKER_BIN"@) ==> config.worker_bin@ == env["AGENT_WORKER_BIN"@]@,
        !env.contains_key("AGENT_WORKER_BIN"@) ==> config.worker_bin@ == "agent-worker"@,
{
}

/// The role and the mode are those that are named, in capitals or not, else to be found out and
/// the foreground; another name is none.
pub proof fn law_role_and_mode_are_named(env: Map<Seq<char>, String>)
    ensures
        !env.contains_key("ROLE"@) ==> role_of(env) == Some(Role::Auto),
        env.contains_key("ROLE"@) ==> {
            let name = lower_text(env["ROLE"@]@);
            &&& role_of(env) == Some(Role::Auto) <==> name == "auto"@
            &&& role_of(env) == Some(Role::Master) <==> name == "master"@
            &&& role_of(env) == Some(Role::Worker) <==> name == "worker"@
            &&& role_of(env) is None <==> name != "auto"@ && name != "master"@ && name != "worker"@
        },
        !env.contains_key("MODE"@) ==> mode_of(env) == Some(Mode::Foreground),
        env.contains_key("MODE"@) ==> {
            let name = lower_text(env["MODE"@]@);
            &&& mode_of(env) == Some(Mode::Foreground) <==> name == "foreground"@
            &&& mode_of(env) == Some(Mode::Tmux) <==> name == "tmux"@
            &&& mode_of(env) is None <==> name != "foreground"@ && name != "tmux"@
        },
{
    reveal_strlit("auto");
    reveal_strlit("master");
    reveal_strlit("worker");
    reveal_strlit("foreground");
    reveal_strlit("tmux");
    assert("auto"@.len() != "master"@.len());
    assert("auto"@.len() != "worker"@.len());
    assert("master"@[0] != "worker"@[0]);
    assert("foreground"@.len() != "tmux"@.len());
}

/// A role that is given is taken; without one the node of rank 0 alone is the master.
pub proof fn law_role_of_a_node(config: Config)
    ensures
        config.role == Role::Master ==> config.own_role() == ResolvedRole::Master,
        config.role == Role::Worker ==> config.own_role() == ResolvedRole::Worker,
        config.role == Role::Auto ==> (config.own_role() == ResolvedRole::Master <==> config.rank@
            == "0"@),
{
}

/// The coordinator is told where to listen, which database to keep and which tokens to ask for;
/// the worker which coordinator to connect to, its name, its token and its policy if it has one,
/// and nothing of the client's token.
pub proof fn law_commands_tell_what_is_configured(config: Config)
    ensures
        ({
            let words = config.coordinator_words();
            &&& words.len() == 9
            &&& words[0] == config.coordinator_bin@
            &&& words[1] == "--listen"@ && words[2] == config.listen@
            &&& words[3] == "--db"@ && words[4] == config.db@
            &&& words[5] == "--worker-token-file"@ && words[6] == config.worker_token_file@
            &&& words[7] == "--client-token-file"@ && words[8] == config.client_token_file@
        }),
        ({
            let words = config.worker_words();
            &&& words.len() == if config.policy is Some {
                9int
            } else {
                7
            }
            &&& words[0] == config.worker_bin@
            &&& words[1] == "--coordinator"@ && words[2] == config.coordinator_url@
            &&& words[3] == "--node-name"@ && words[4] == config.node_name@
            &&& words[5] == "--token-file"@ && words[6] == config.worker_token_file@
            &&& config.policy matches Some(policy) ==> words[7] == "--policy"@ && words[8]
                == policy@
        }),
{
}

/// What is told of a runtime: where it is, and on the master where the client's token is.
pub proof fn law_info_tells_how_to_reach_the_runtime(config: Config)
    ensures
        config.info(false).len() == 4,
        config.info(true).len() == 5,
        forall|i: int| 0 <= i < 4 ==> #[trigger] config.info(true)[i] == config.info(false)[i],
        config.info(false)[0] == "coordinator: "@ + config.coordinator_url@,
        config.info(false)[1] == "node: "@ + config.node_name@,
        config.info(false)[2] == "runtime dir: "@ + config.runtime_dir@,
        config.info(false)[3] == "port: "@ + config.port@,
        config.info(true)[4] == "client token: "@ + config.client_token_file@,
{
}

/// In the foreground the master makes both logs empty, starts its coordinator, waits a second,
/// starts its worker and then waits for both; another node makes its log empty, starts its
/// worker and waits for it. Before that come the directory and the tokens.
pub proof fn law_foreground_start_goes_step_by_step(config: Config)
    requires
        config.mode == Mode::Foreground,
    ensures
        ({
            let steps = config.start_steps();
            &&& steps[0] == StepView::CreateDir(config.runtime_dir@)
            &&& steps.last() == StepView::WaitForProcesses
            &&& config.own_role() == ResolvedRole::Master ==> {
                &&& steps.len() == 16
                &&& steps[1] == StepView::EnsureToken(config.worker_token_file@)
                &&& steps[2] == StepView::EnsureToken(config.client_token_file@)
                &&& steps[3] == StepView::WatchSignals
                &&& steps[4] == StepView::ResetLog(config.coordinator_log())
                &&& steps[5] == StepView::ResetLog(config.worker_log())
                &&& steps[6] == StepView::Spawn {
                    command: config.coordinator_words(),
                    label: "coordinator"@,
                    log: config.coordinator_log(),
                }
                &&& steps[7] == StepView::Pause { seconds: 1 }
                &&& steps[8] == StepView::Spawn {
                    command: config.worker_words(),
                    label: "worker"@,
                    log: config.worker_log(),
                }
            }
            &&& config.own_role() == ResolvedRole::Worker ==> {
                &&& steps.len() == 11
                &&& steps[1] == StepView::RequireFile {
                    path: config.worker_token_file@,
                    label: "worker token"@,
                }
                &&& steps[2] == StepView::WatchSignals
                &&& steps[3] == StepView::ResetLog(config.worker_log())
                &&& steps[9] == StepView::Spawn {
                    command: config.worker_words(),
                    label: "worker"@,
                    log: config.worker_log(),
                }
            }
        }),
{
    let steps = config.start_steps();
    let rest = config.foreground_steps();
    let files = config.file_steps();
    assert(steps == files + rest);
    let lines = printed(config.info(config.own_role() == ResolvedRole::Master));
    assert(lines.len() == config.info(config.own_role() == ResolvedRole::Master).len());
}

/// With tmux nothing is started unless tmux is there and the session is not; then the master
/// makes both logs empty, starts a session with its coordinator, waits a second and adds a window
/// with its worker; another node starts a session with its worker.
pub proof fn law_tmux_start_goes_step_by_step(config: Config)
    requires
        config.mode == Mode::Tmux,
    ensures
        ({
            let steps = config.start_steps();
            let worker = logged_command(config.worker_words(), config.worker_log());
            &&& steps[0] == StepView::CreateDir(config.runtime_dir@)
            &&& config.own_role() == ResolvedRole::Master ==> {
                &&& steps.len() == 16
                &&& steps[1] == StepView::EnsureToken(config.worker_token_file@)
                &&& steps[2] == StepView::EnsureToken(config.client_token_file@)
                &&& steps[3] == StepView::RequireTmux
                &&& steps[4] == StepView::RequireNoSession(config.session@)
                &&& steps[5] == StepView::ResetLog(config.coordinator_log())
                &&& steps[6] == StepView::ResetLog(config.worker_log())
                &&& steps[7] == StepView::NewSession {
                    session: config.session@,
                    window: "coordinator"@,
                    command: logged_command(config.coordinator_words(), config.coordinator_log()),
                }
                &&& steps[8] == StepView::Pause { seconds: 1 }
                &&& steps[9] == StepView::NewWindow {
                    session: config.session@,
                    window: "worker"@,
                    command: worker,
                }
            }
            &&& config.own_role() == ResolvedRole::Worker ==> {
                &&& steps.len() == 11
                &&& steps[1] == StepView::RequireFile {
                    path: config.worker_token_file@,
                    label: "worker token"@,
                }
                &&& steps[2] == StepView::RequireTmux
                &&& steps[3] == StepView::RequireNoSession(config.session@)
                &&& steps[4] == StepView::ResetLog(config.worker_log())
                &&& steps[5] == StepView::NewSession {
                    session: config.session@,
                    window: "worker"@,
                    command: worker,
                }
            }
        }),
{
    let steps = config.start_steps();
    let rest = config.tmux_steps();
    let files = config.file_steps();
    assert(steps == files + rest);
    let lines = printed(config.info(config.own_role() == ResolvedRole::Master));
    assert(lines.len() == config.info(config.own_role() == ResolvedRole::Master).len());
}

/// A command in a shell is its words, each quoted so that the shell reads it as it is, one blank
/// between two of them, with all output appended to the quoted log file.
pub proof fn law_logged_command_quotes_every_word(
    words: Seq<Seq<char>>,
    word: Seq<char>,
    log_path: Seq<char>,
)
    ensures
        logged_command(seq![word], log_path) == quoted(word) + " >> "@ + quoted(log_path)
            + " 2>&1"@,
        words.len() > 0 ==> exists|line: Seq<char>|
            logged_command(words, log_path) == #[trigger] (line + " >> "@ + quoted(log_path)
                + " 2>&1"@) && logged_command(words.push(word), log_path) == line + " "@ + quoted(
                word,
            ) + " >> "@ + quoted(log_path) + " 2>&1"@,
{
    let f = |w: Seq<char>| quoted(w);
    assert(seq![word].map_values(f) =~= seq![quoted(word)]);
    if words.len() > 0 {
        let line = joined(words.map_values(f), " "@);
        assert(words.push(word).map_values(f) =~= words.map_values(f).push(quoted(word)));
        assert(words.push(word).map_values(f).drop_last() =~= words.map_values(f));
        assert(logged_command(words, log_path) == line + " >> "@ + quoted(log_path) + " 2>&1"@);
    }
}

/// What steps say is said one by one.
pub proof fn law_steps_are_said_one_by_one(steps: Seq<Step>, lines: Seq<Seq<char>>, i: int)
    ensures
        said(steps).len() == steps.len(),
        0 <= i < steps.len() ==> said(steps)[i] == steps[i]@,
        printed(lines).len() == lines.len(),
        0 <= i < lines.len() ==> printed(lines)[i] == StepView::Print(lines[i]),
{
}

/// What a step says is what is in it.
pub proof fn law_step_says_what_is_in_it(step: Step)
    ensures
        match step {
            Step::CreateDir(path) => step@ == StepView::CreateDir(path@),
            Step::EnsureToken(path) => step@ == StepView::EnsureToken(path@),
            Step::RequireFile { path, label } => step@ == (StepView::RequireFile {
                path: path@,
                label: label@,
            }),
            Step::WatchSignals => step@ == StepView::WatchSignals,
            Step::RequireTmux => step@ == StepView::RequireTmux,
            Step::RequireNoSession(session) => step@ == StepView::RequireNoSession(session@),
            Step::ResetLog(path) => step@ == StepView::ResetLog(path@),
            Step::Spawn { command, label, log } => step@ == (StepView::Spawn {
                command: texts(command@),
                label: label@,
                log: log@,
            }),
            Step::NewSession { session, window, command } => step@ == (StepView::NewSession {
                session: session@,
                window: window@,
                command: command@,
            }),
            Step::NewWindow { session, window, command } => step@ == (StepView::NewWindow {
                session: session@,
                window: window@,
                command: command@,
            }),
            Step::Pause { seconds } => step@ == (StepView::Pause { seconds }),
            Step::Print(line) => step@ == StepView::Print(line@),
            Step::WaitForProcesses => step@ == StepView::WaitForProcesses,
        },
{
}

/// A start says in which role and mode it was, and then, line by line, how the runtime can be
/// reached: the master after it has started its worker; another node before that in the
/// foreground, and after it with tmux.
pub proof fn law_start_tells_how_to_reach_the_runtime(config: Config, i: int)
    ensures
        ({
            let steps = config.start_steps();
            let master = config.own_role() == ResolvedRole::Master;
            let info = config.info(master);
            &&& master && config.mode == Mode::Foreground ==> {
                &&& steps[9] == StepView::Print("started role=master mode=foreground"@)
                &&& 0 <= i < info.len() ==> steps[10 + i] == StepView::Print(info[i])
            }
            &&& !master && config.mode == Mode::Foreground ==> {
                &&& steps[4] == StepView::Print("started role=worker mode=foreground"@)
                &&& 0 <= i < info.len() ==> steps[5 + i] == StepView::Print(info[i])
            }
            &&& master && config.mode == Mode::Tmux ==> {
                &&& steps[10] == StepView::Print("started role=master mode=tmux"@)
                &&& 0 <= i < info.len() ==> steps[11 + i] == StepView::Print(info[i])
            }
            &&& !master && config.mode == Mode::Tmux ==> {
                &&& steps[6] == StepView::Print("started role=worker mode=tmux"@)
                &&& 0 <= i < info.len() ==> steps[7 + i] == StepView::Print(info[i])
            }
        }),
{
    let master = config.own_role() == ResolvedRole::Master;
    let lines = printed(config.info(master));
    assert(lines.len() == config.info(master).len());
    assert(config.start_steps() == config.file_steps() + (match config.mode {
        Mode::Foreground => config.foreground_steps(),
        Mode::Tmux => config.tmux_steps(),
    }));
}

} // verus!
