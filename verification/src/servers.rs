//! The local servers of the application: their addresses, how they are launched, how long they
//! are waited for, and how they are started and stopped.

use vstd::prelude::*;

use crate::{numbers, text};

verus! {

pub const SIDECAR_PORT: u16 = 8765;

pub const JUPYTER_PORT: u16 = 8766;

/// How long a process group is given to end before it is ended by force, in milliseconds.
pub const TERMINATION_GRACE_MILLIS: u64 = 250;

/// The signal that asks a process to end.
pub const SIGTERM: i32 = 15;

/// The signal that ends a process by force.
pub const SIGKILL: i32 = 9;

/// A running processing server.
#[derive(Debug)]
pub struct SidecarServerInfo {
    pub base_url: String,
    pub port: u16,
}

/// A running notebook server.
#[derive(Debug)]
pub struct JupyterServerInfo {
    pub url: String,
    pub port: u16,
    pub token: String,
}

/// The local servers.
#[derive(Debug, Clone, Copy, PartialEq, Eq, Structural)]
pub enum Server {
    Martin,
    Sidecar,
    Jupyter,
}

// ---------------------------------------------------------------------------
// Addresses

/// The address of a server on this machine.
pub open spec fn local_url(port: u16) -> Seq<char> {
    "http://127.0.0.1:"@ + numbers::decimal(port as nat)
}

fn to_local_url(port: u16) -> (url: String)
    ensures
        url@ == local_url(port),
{
    let digits = numbers::to_decimal(port as u64);
    text::chained("http://127.0.0.1:", digits.as_str())
}

pub fn sidecar_base_url() -> (url: String)
    ensures
        url@ == local_url(SIDECAR_PORT),
{
    to_local_url(SIDECAR_PORT)
}

pub fn jupyter_base_url() -> (url: String)
    ensures
        url@ == local_url(JUPYTER_PORT),
{
    to_local_url(JUPYTER_PORT)
}

/// Where a server answers whether it is ready.
pub open spec fn health_path(server: Server) -> Seq<char> {
    match server {
        Server::Jupyter => "/api/status"@,
        _ => "/health"@,
    }
}

/// Where the server at `base_url` answers whether it is ready.
pub fn health_url(server: Server, base_url: &str) -> (url: String)
    ensures
        url@ == base_url@ + health_path(server),
{
    match server {
        Server::Jupyter => text::chained(base_url, "/api/status"),
        _ => text::chained(base_url, "/health"),
    }
}

/// Where the processing server is asked to end.
pub fn shutdown_url(base_url: &str) -> (url: String)
    ensures
        url@ == base_url@ + "/shutdown"@,
{
    text::chained(base_url, "/shutdown")
}

/// How a request to the notebook server is authorized.
pub fn token_header(token: &str) -> (header: String)
    ensures
        header@ == "token "@ + token@,
{
    text::chained("token ", token)
}

pub fn sidecar_info() -> (info: SidecarServerInfo)
    ensures
        info.base_url@ == local_url(SIDECAR_PORT),
        info.port == SIDECAR_PORT,
{
    SidecarServerInfo { base_url: sidecar_base_url(), port: SIDECAR_PORT }
}

/// What a start of the notebook server answers: address, port and token.
pub open spec fn jupyter_answer(token: Option<Seq<char>>) -> (Seq<char>, u16, Seq<char>) {
    (
        local_url(JUPYTER_PORT),
        JUPYTER_PORT,
        match token {
            Some(token) => token,
            None => Seq::empty(),
        },
    )
}

pub fn jupyter_info(token: Option<String>) -> (info: JupyterServerInfo)
    ensures
        (info.url@, info.port, info.token@) == jupyter_answer(text::view_of(token)),
{
    let token = match token {
        Some(token) => token,
        None => String::new(),
    };
    JupyterServerInfo { url: jupyter_base_url(), port: JUPYTER_PORT, token }
}

/// The token of a server that was just started, else the one that was kept for a running server.
pub open spec fn current_token(made: Option<Seq<char>>, kept: Option<Seq<char>>) -> Option<
    Seq<char>,
> {
    match made {
        Some(token) => Some(token),
        None => kept,
    }
}

/// The token of the notebook server after a start: the one that the start has made, else the one
/// that was kept.
pub fn jupyter_token(made: Option<String>, kept: Option<String>) -> (token: Option<String>)
    ensures
        text::view_of(token) == current_token(text::view_of(made), text::view_of(kept)),
{
    match made {
        Some(token) => Some(token),
        None => kept,
    }
}

// ---------------------------------------------------------------------------
// The token of the notebook server

/// How many random bytes a token is made of.
pub const TOKEN_BYTES: usize = 16;

/// `getrandom::getrandom`: fills a buffer with random bytes of the operating system, or fails.
/// Nothing is said of the bytes but how many there are.
#[verifier::external_body]
fn random_bytes(count: usize) -> (bytes: Option<Vec<u8>>)
    ensures
        bytes matches Some(bytes) ==> bytes@.len() == count,
{
    let mut bytes = vec![0u8; count];
    match getrandom::getrandom(&mut bytes) {
        Ok(()) => Some(bytes),
        Err(_) => None,
    }
}

/// The token that random bytes make: their hexadecimal digits.
pub fn token_from_bytes(bytes: &[u8]) -> (token: String)
    ensures
        token@ == numbers::hex_of(bytes@),
{
    numbers::to_hex(bytes)
}

/// The hexadecimal digits of sixteen bytes.
pub open spec fn token_form(token: Seq<char>) -> bool {
    exists|bytes: Seq<u8>| bytes.len() == TOKEN_BYTES && token == #[trigger] numbers::hex_of(bytes)
}

/// A new token for the notebook server, if the operating system has random bytes. Whether it has
/// them is up to the operating system, so that is left unsaid.
pub fn generate_jupyter_token() -> (token: Option<String>)
    ensures
        token matches Some(token) ==> token_form(token@),
{
    token_from_reply(random_bytes(TOKEN_BYTES))
}

/// The token that the operating system's reply to a request for random bytes makes: there is one
/// exactly where the reply holds bytes.
pub fn token_from_reply(reply: Option<Vec<u8>>) -> (token: Option<String>)
    ensures
        text::view_of(token) == match reply {
            Some(bytes) => Some(numbers::hex_of(bytes@)),
            None => None,
        },
{
    match reply {
        Some(bytes) => Some(token_from_bytes(bytes.as_slice())),
        None => None,
    }
}

/// A token has thirty-two characters, each a digit or a letter from `a` to `f`, so it can stand
/// in a command line and in a header as it is.
pub proof fn tokens_are_plain(token: Seq<char>)
    requires
        token_form(token),
    ensures
        token.len() == 32,
        forall|i: int|
            0 <= i < token.len() ==> {
                ||| '0' <= #[trigger] token[i] <= '9'
                ||| 'a' <= token[i] <= 'f'
            },
{
    let bytes = choose|bytes: Seq<u8>|
        bytes.len() == TOKEN_BYTES && token == #[trigger] numbers::hex_of(bytes);
    numbers::hex_has_two_digits_per_byte(bytes);
}

// ---------------------------------------------------------------------------
// Launching

/// A value on a command line or in the environment of a server.
#[derive(Debug)]
pub enum LaunchValue {
    Word(String),
    /// The path of the uv executable.
    Uv,
    /// The directory of the server's project.
    ProjectDirectory,
    /// The directory of the application's runtime data.
    RuntimeDirectory,
    /// A directory in the directory of the runtime data.
    InRuntimeDirectory(String),
}

pub enum LaunchValueModel {
    Word { word: Seq<char> },
    Uv,
    ProjectDirectory,
    RuntimeDirectory,
    InRuntimeDirectory { name: Seq<char> },
}

impl LaunchValue {
    pub open spec fn model(self) -> LaunchValueModel {
        match self {
            LaunchValue::Word(word) => LaunchValueModel::Word { word: word@ },
            LaunchValue::Uv => LaunchValueModel::Uv,
            LaunchValue::ProjectDirectory => LaunchValueModel::ProjectDirectory,
            LaunchValue::RuntimeDirectory => LaunchValueModel::RuntimeDirectory,
            LaunchValue::InRuntimeDirectory(name) => LaunchValueModel::InRuntimeDirectory {
                name: name@,
            },
        }
    }
}

/// How a server is launched: uv runs it in the directory of its project, with these arguments
/// and these variables in its environment.
#[derive(Debug)]
pub struct ServerLaunch {
    pub arguments: Vec<LaunchValue>,
    pub environment: Vec<(String, LaunchValue)>,
}

pub open spec fn argument_models(arguments: Seq<LaunchValue>) -> Seq<LaunchValueModel> {
    arguments.map_values(|argument: LaunchValue| argument.model())
}

pub open spec fn environment_models(environment: Seq<(String, LaunchValue)>) -> Seq<
    (Seq<char>, LaunchValueModel),
> {
    environment.map_values(|variable: (String, LaunchValue)| (variable.0@, variable.1.model()))
}

fn word(text: &str) -> (value: LaunchValue)
    ensures
        value.model() == (LaunchValueModel::Word { word: text@ }),
{
    LaunchValue::Word(text.to_owned())
}

fn in_runtime(name: &str) -> (value: LaunchValue)
    ensures
        value.model() == (LaunchValueModel::InRuntimeDirectory { name: name@ }),
{
    LaunchValue::InRuntimeDirectory(name.to_owned())
}

pub open spec fn word_model(word: Seq<char>) -> LaunchValueModel {
    LaunchValueModel::Word { word }
}

/// The environment of a server that uv runs, with its own environment of packages.
pub open spec fn uv_environment(packages: Seq<char>) -> Seq<(Seq<char>, LaunchValueModel)> {
    seq![
        ("GEOLIBRE_UV"@, LaunchValueModel::Uv),
        ("GEOLIBRE_RUNTIME_DIR"@, LaunchValueModel::RuntimeDirectory),
        ("UV_CACHE_DIR"@, LaunchValueModel::InRuntimeDirectory { name: "uv-cache"@ }),
        ("UV_PYTHON_INSTALL_DIR"@, LaunchValueModel::InRuntimeDirectory { name: "uv-python"@ }),
        ("UV_PROJECT_ENVIRONMENT"@, LaunchValueModel::InRuntimeDirectory { name: packages }),
    ]
}

fn to_uv_environment(packages: &str) -> (environment: Vec<(String, LaunchValue)>)
    ensures
        environment_models(environment@) == uv_environment(packages@),
{
    let environment: Vec<(String, LaunchValue)> = vec![
        ("GEOLIBRE_UV".to_owned(), LaunchValue::Uv),
        ("GEOLIBRE_RUNTIME_DIR".to_owned(), LaunchValue::RuntimeDirectory),
        ("UV_CACHE_DIR".to_owned(), in_runtime("uv-cache")),
        ("UV_PYTHON_INSTALL_DIR".to_owned(), in_runtime("uv-python")),
        ("UV_PROJECT_ENVIRONMENT".to_owned(), in_runtime(packages)),
    ];
    assert(environment_models(environment@) == uv_environment(packages@));
    environment
}

/// The command line of the processing server.
pub open spec fn sidecar_arguments() -> Seq<LaunchValueModel> {
    seq![
        word_model("run"@),
        word_model("--project"@),
        LaunchValueModel::ProjectDirectory,
        word_model("--extra"@),
        word_model("ml"@),
        word_model("uvicorn"@),
        word_model("geolibre_server.app.main:app"@),
        word_model("--host"@),
        word_model("127.0.0.1"@),
        word_model("--port"@),
        word_model(numbers::decimal(SIDECAR_PORT as nat)),
    ]
}

/// How the processing server is launched.
pub fn sidecar_launch() -> (launch: ServerLaunch)
    ensures
        argument_models(launch.arguments@) == sidecar_arguments(),
        environment_models(launch.environment@) == uv_environment("sidecar-server"@),
{
    let port = numbers::to_decimal(SIDECAR_PORT as u64);
    let arguments: Vec<LaunchValue> = vec![
        word("run"),
        word("--project"),
        LaunchValue::ProjectDirectory,
        word("--extra"),
        word("ml"),
        word("uvicorn"),
        word("geolibre_server.app.main:app"),
        word("--host"),
        word("127.0.0.1"),
        word("--port"),
        LaunchValue::Word(port),
    ];
    assert(argument_models(arguments@) == sidecar_arguments());
    ServerLaunch { arguments, environment: to_uv_environment("sidecar-server") }
}

/// The command line of the notebook server, given the paths of its settings and notebooks.
pub open spec fn jupyter_arguments(
    config: Seq<char>,
    notebooks: Seq<char>,
    token: Seq<char>,
) -> Seq<LaunchValueModel> {
    seq![
        word_model("run"@),
        word_model("--project"@),
        LaunchValueModel::ProjectDirectory,
        word_model("--extra"@),
        word_model("notebook"@),
        word_model("jupyter"@),
        word_model("lab"@),
        word_model("--no-browser"@),
        word_model("--config="@ + config),
        word_model("--ServerApp.ip=127.0.0.1"@),
        word_model("--ServerApp.port="@ + numbers::decimal(JUPYTER_PORT as nat)),
        word_model("--ServerApp.port_retries=0"@),
        word_model("--ServerApp.root_dir="@ + notebooks),
        word_model("--IdentityProvider.token="@ + token),
    ]
}

/// How the notebook server is launched, given the paths of its settings and notebooks, its token,
/// and the import path of its kernels.
pub fn jupyter_launch(config: &str, notebooks: &str, token: &str, import_path: &str) -> (launch:
    ServerLaunch)
    ensures
        argument_models(launch.arguments@) == jupyter_arguments(config@, notebooks@, token@),
        environment_models(launch.environment@) == uv_environment("jupyter-server"@).push(
            ("PYTHONPATH"@, word_model(import_path@)),
        ),
{
    let port = numbers::to_decimal(JUPYTER_PORT as u64);
    let arguments: Vec<LaunchValue> = vec![
        word("run"),
        word("--project"),
        LaunchValue::ProjectDirectory,
        word("--extra"),
        word("notebook"),
        word("jupyter"),
        word("lab"),
        word("--no-browser"),
        LaunchValue::Word(text::chained("--config=", config)),
        word("--ServerApp.ip=127.0.0.1"),
        LaunchValue::Word(text::chained("--ServerApp.port=", port.as_str())),
        word("--ServerApp.port_retries=0"),
        LaunchValue::Word(text::chained("--ServerApp.root_dir=", notebooks)),
        LaunchValue::Word(text::chained("--IdentityProvider.token=", token)),
    ];
    assert(argument_models(arguments@) == jupyter_arguments(config@, notebooks@, token@));
    let mut environment = to_uv_environment("jupyter-server");
    let ghost before = environment_models(environment@);
    environment.push(("PYTHONPATH".to_owned(), word(import_path)));
    assert(environment_models(environment@) == before.push(
        ("PYTHONPATH"@, word_model(import_path@)),
    ));
    ServerLaunch { arguments, environment }
}

// ---------------------------------------------------------------------------
// Waiting until a server is ready

/// How often a server is asked whether it is ready.
pub open spec fn health_attempts(server: Server) -> u32 {
    match server {
        Server::Martin => 30,
        Server::Sidecar => 180,
        Server::Jupyter => 240,
    }
}

fn max_attempts(server: Server) -> (attempts: u32)
    ensures
        attempts == health_attempts(server),
{
    match server {
        Server::Martin => 30,
        Server::Sidecar => 180,
        Server::Jupyter => 240,
    }
}

/// How long to wait before a server is asked again, in milliseconds.
pub open spec fn health_interval(server: Server) -> u64 {
    match server {
        Server::Martin => 100,
        _ => 1000,
    }
}

/// How long to wait before a server is asked again, in milliseconds.
pub fn health_interval_millis(server: Server) -> (millis: u64)
    ensures
        millis == health_interval(server),
{
    match server {
        Server::Martin => 100,
        _ => 1000,
    }
}

/// The message that the process of a server could not be inspected.
pub open spec fn uninspected(server: Server, error: Seq<char>) -> Seq<char> {
    (match server {
        Server::Martin => "Could not inspect Martin process: "@,
        Server::Sidecar => "Could not inspect sidecar process: "@,
        Server::Jupyter => "Could not inspect Jupyter process: "@,
    }) + error
}

fn uninspected_message(server: Server, error: &str) -> (message: String)
    ensures
        message@ == uninspected(server, error@),
{
    match server {
        Server::Martin => text::chained("Could not inspect Martin process: ", error),
        Server::Sidecar => text::chained("Could not inspect sidecar process: ", error),
        Server::Jupyter => text::chained("Could not inspect Jupyter process: ", error),
    }
}

/// The output of a process that has ended, or its exit status where it has written nothing.
pub open spec fn last_words(status: Seq<char>, output: Seq<char>) -> Seq<char> {
    if text::trim(output).len() == 0 {
        status
    } else {
        output
    }
}

/// The message that a server has ended before it was ready. The output of the notebook server is
/// not captured.
pub open spec fn ended_early(server: Server, status: Seq<char>, output: Seq<char>) -> Seq<char> {
    match server {
        Server::Martin => "Martin exited before it was ready: "@ + last_words(status, output),
        Server::Sidecar => "GeoLibre sidecar exited before it was ready: "@ + last_words(
            status,
            output,
        ),
        Server::Jupyter => "Jupyter server exited before it was ready (exit status: "@ + status
            + "). Check the terminal for the Jupyter/uv startup output."@,
    }
}

fn ended_early_message(server: Server, status: &str, output: &str) -> (message: String)
    ensures
        message@ == ended_early(server, status@, output@),
{
    let trimmed = text::trimmed(output);
    let words = if trimmed.as_str().is_empty() {
        status
    } else {
        output
    };
    match server {
        Server::Martin => text::chained("Martin exited before it was ready: ", words),
        Server::Sidecar => text::chained("GeoLibre sidecar exited before it was ready: ", words),
        Server::Jupyter => {
            let mut message = text::chained(
                "Jupyter server exited before it was ready (exit status: ",
                status,
            );
            message.append("). Check the terminal for the Jupyter/uv startup output.");
            message
        },
    }
}

/// The message that a server was not ready in time.
pub open spec fn too_late(server: Server) -> Seq<char> {
    match server {
        Server::Martin => "Martin did not become ready in time."@,
        Server::Sidecar => "GeoLibre sidecar did not become ready in time."@,
        Server::Jupyter => "Jupyter server did not become ready in time."@,
    }
}

/// A process that has ended: its exit status, and what it has written.
#[derive(Debug)]
pub struct ProcessExit {
    pub status: String,
    pub output: String,
}

pub open spec fn exit_view(exit: Result<Option<ProcessExit>, String>) -> Result<
    Option<(Seq<char>, Seq<char>)>,
    Seq<char>,
> {
    match exit {
        Ok(Some(exit)) => Ok(Some((exit.status@, exit.output@))),
        Ok(None) => Ok(None),
        Err(error) => Err(error@),
    }
}

/// What to do next while a server is waited for.
#[derive(Debug)]
pub enum WaitStep {
    /// Inspect the process.
    Inspect,
    /// Ask the server whether it is ready.
    Ask,
    /// Wait for the server's interval.
    Pause,
    Ready,
    Failed(String),
}

pub enum WaitModel {
    Inspect,
    Ask,
    Pause,
    Ready,
    Failed { message: Seq<char> },
}

impl WaitStep {
    pub open spec fn model(self) -> WaitModel {
        match self {
            WaitStep::Inspect => WaitModel::Inspect,
            WaitStep::Ask => WaitModel::Ask,
            WaitStep::Pause => WaitModel::Pause,
            WaitStep::Ready => WaitModel::Ready,
            WaitStep::Failed(message) => WaitModel::Failed { message: message@ },
        }
    }
}

/// Each round begins with the process, as long as there are rounds left.
pub open spec fn wait_round(server: Server, round: nat) -> WaitModel {
    if round < health_attempts(server) {
        WaitModel::Inspect
    } else {
        WaitModel::Failed { message: too_late(server) }
    }
}

/// A process that has ended will not become ready; one that runs is asked.
pub open spec fn after_inspection(
    server: Server,
    exit: Result<Option<(Seq<char>, Seq<char>)>, Seq<char>>,
) -> WaitModel {
    match exit {
        Err(error) => WaitModel::Failed { message: uninspected(server, error) },
        Ok(Some((status, output))) => WaitModel::Failed {
            message: ended_early(server, status, output),
        },
        Ok(None) => WaitModel::Ask,
    }
}

/// The rounds of waiting for a server.
#[derive(Debug)]
pub struct HealthWait {
    server: Server,
    round: u32,
}

impl HealthWait {
    pub closed spec fn server(self) -> Server {
        self.server
    }

    /// How many rounds are over.
    pub closed spec fn round(self) -> nat {
        self.round as nat
    }

    pub fn new(server: Server) -> (wait: Self)
        ensures
            wait.server() == server,
            wait.round() == 0,
    {
        HealthWait { server, round: 0 }
    }

    /// Begins a round.
    pub fn begin_round(&self) -> (step: WaitStep)
        ensures
            step.model() == wait_round(self.server(), self.round()),
    {
        if self.round < max_attempts(self.server) {
            WaitStep::Inspect
        } else {
            let message = match self.server {
                Server::Martin => "Martin did not become ready in time.",
                Server::Sidecar => "GeoLibre sidecar did not become ready in time.",
                Server::Jupyter => "Jupyter server did not become ready in time.",
            };
            WaitStep::Failed(message.to_owned())
        }
    }

    /// Goes on once the process was inspected.
    pub fn inspected(&self, exit: Result<Option<ProcessExit>, String>) -> (step: WaitStep)
        ensures
            step.model() == after_inspection(self.server(), exit_view(exit)),
    {
        match exit {
            Err(error) => WaitStep::Failed(uninspected_message(self.server, error.as_str())),
            Ok(Some(exit)) => WaitStep::Failed(
                ended_early_message(self.server, exit.status.as_str(), exit.output.as_str()),
            ),
            Ok(None) => WaitStep::Ask,
        }
    }

    /// Ends a round with the server's answer.
    pub fn answered(&mut self, ready: bool) -> (step: WaitStep)
        ensures
            step.model() == if ready {
                WaitModel::Ready
            } else {
                WaitModel::Pause
            },
            final(self).server() == old(self).server(),
            old(self).round() < health_attempts(old(self).server()) ==> final(self).round()
                == old(self).round() + if ready {
                0int
            } else {
                1int
            },
            old(self).round() >= health_attempts(old(self).server()) ==> final(self).round()
                == old(self).round(),
    {
        if ready {
            return WaitStep::Ready;
        }
        if self.round < max_attempts(self.server) {
            self.round = self.round + 1;
        }
        WaitStep::Pause
    }
}

/// What becomes of waiting from a round on, where `exits` and `answers` are what inspecting the
/// process and asking the server give in each round.
pub open spec fn wait_run(
    server: Server,
    round: nat,
    exits: spec_fn(nat) -> Result<Option<(Seq<char>, Seq<char>)>, Seq<char>>,
    answers: spec_fn(nat) -> bool,
) -> WaitModel
    decreases health_attempts(server) - round,
{
    if wait_round(server, round) is Inspect {
        match after_inspection(server, exits(round)) {
            WaitModel::Ask => if answers(round) {
                WaitModel::Ready
            } else {
                wait_run(server, round + 1, exits, answers)
            },
            other => other,
        }
    } else {
        wait_round(server, round)
    }
}

/// In a round the process runs and the server is not ready.
pub open spec fn undecided(
    round: nat,
    exits: spec_fn(nat) -> Result<Option<(Seq<char>, Seq<char>)>, Seq<char>>,
    answers: spec_fn(nat) -> bool,
) -> bool {
    exits(round) == Ok::<Option<(Seq<char>, Seq<char>)>, Seq<char>>(None) && !answers(round)
}

/// A server is asked in each round until it is ready or its process has ended: what the first
/// such round gives is the outcome. Where there is none before the limit, it was too late, and
/// the server is not asked again.
pub proof fn waiting_ends(
    server: Server,
    start: nat,
    end: nat,
    exits: spec_fn(nat) -> Result<Option<(Seq<char>, Seq<char>)>, Seq<char>>,
    answers: spec_fn(nat) -> bool,
)
    requires
        start <= end <= health_attempts(server),
        forall|round: nat| start <= round < end ==> #[trigger] undecided(round, exits, answers),
    ensures
        end == health_attempts(server) ==> wait_run(server, start, exits, answers) == (
        WaitModel::Failed { message: too_late(server) }),
        end < health_attempts(server) && exits(end) == Ok::<_, Seq<char>>(
            None::<(Seq<char>, Seq<char>)>,
        ) && answers(end) ==> wait_run(server, start, exits, answers) is Ready,
        end < health_attempts(server) && !(after_inspection(server, exits(end)) is Ask) ==> wait_run(
            server,
            start,
            exits,
            answers,
        ) == after_inspection(server, exits(end)),
    decreases end - start,
{
    if start < end {
        assert(undecided(start, exits, answers));
        waiting_ends(server, start + 1, end, exits, answers);
    }
}

// ---------------------------------------------------------------------------
// Brief waits

/// How often a port or a server is looked at while it is given up.
pub const BRIEF_POLLS: u32 = 20;

/// How long to wait before it is looked at again, in milliseconds.
pub const BRIEF_POLL_MILLIS: u64 = 100;

/// A brief wait for a port to become free, or for a server to stop.
#[derive(Debug)]
pub struct BriefWait {
    polls: u32,
}

impl BriefWait {
    /// How often it was looked without success.
    pub closed spec fn polls(self) -> nat {
        self.polls as nat
    }

    pub fn new() -> (wait: Self)
        ensures
            wait.polls() == 0,
    {
        BriefWait { polls: 0 }
    }

    /// Whether to look once more.
    pub fn goes_on(&self) -> (answer: bool)
        ensures
            answer == (self.polls() < BRIEF_POLLS),
    {
        self.polls < BRIEF_POLLS
    }

    /// Whether to pause before looking again: not once the wait is over.
    pub fn looked(&mut self, over: bool) -> (pause: bool)
        ensures
            pause == !over,
            over ==> final(self).polls() == BRIEF_POLLS,
            !over && old(self).polls() < BRIEF_POLLS ==> final(self).polls() == old(self).polls()
                + 1,
            !over && old(self).polls() >= BRIEF_POLLS ==> final(self).polls()
                == old(self).polls(),
    {
        if over {
            self.polls = BRIEF_POLLS;
            return false;
        }
        if self.polls < BRIEF_POLLS {
            self.polls = self.polls + 1;
        }
        true
    }
}

// ---------------------------------------------------------------------------
// Starting

/// What to do about a server that was started before.
#[derive(Debug, Clone, Copy, PartialEq, Eq, Structural)]
pub enum SlotPlan {
    /// There is none: start one.
    Start,
    /// It runs: use it.
    Reuse,
    /// It has ended: forget it and start one.
    Replace,
}

/// A server that runs is used again; one that has ended is replaced. `earlier` says whether an
/// earlier process still runs, or why that is not known.
pub open spec fn slot_plan(server: Server, earlier: Option<Result<bool, Seq<char>>>) -> Result<
    SlotPlan,
    Seq<char>,
> {
    match earlier {
        None => Ok(SlotPlan::Start),
        Some(Ok(true)) => Ok(SlotPlan::Reuse),
        Some(Ok(false)) => Ok(SlotPlan::Replace),
        Some(Err(error)) => Err(uninspected(server, error)),
    }
}

pub open spec fn earlier_view(earlier: Option<Result<bool, String>>) -> Option<
    Result<bool, Seq<char>>,
> {
    match earlier {
        None => None,
        Some(Ok(runs)) => Some(Ok(runs)),
        Some(Err(error)) => Some(Err(error@)),
    }
}

pub open spec fn slot_view(plan: Result<SlotPlan, String>) -> Result<SlotPlan, Seq<char>> {
    match plan {
        Ok(plan) => Ok(plan),
        Err(message) => Err(message@),
    }
}

/// What to do about a server that was started before.
pub fn plan_slot(server: Server, earlier: Option<Result<bool, String>>) -> (plan: Result<
    SlotPlan,
    String,
>)
    ensures
        slot_view(plan) == slot_plan(server, earlier_view(earlier)),
{
    match earlier {
        None => Ok(SlotPlan::Start),
        Some(Ok(runs)) => {
            if runs {
                Ok(SlotPlan::Reuse)
            } else {
                Ok(SlotPlan::Replace)
            }
        },
        Some(Err(error)) => Err(uninspected_message(server, error.as_str())),
    }
}

/// What to do with a process that was started.
#[derive(Debug)]
pub enum StartedPlan {
    /// Keep it as the server.
    Keep,
    /// Another server was started meanwhile: end this one.
    EndDuplicate,
    /// It did not become ready: end it and report why.
    EndFailed(String),
}

pub enum StartedModel {
    Keep,
    EndDuplicate,
    EndFailed { message: Seq<char> },
}

impl StartedPlan {
    pub open spec fn model(self) -> StartedModel {
        match self {
            StartedPlan::Keep => StartedModel::Keep,
            StartedPlan::EndDuplicate => StartedModel::EndDuplicate,
            StartedPlan::EndFailed(message) => StartedModel::EndFailed { message: message@ },
        }
    }
}

/// A process that became ready is kept, unless another server was started meanwhile.
pub open spec fn started_plan(ready: Result<(), Seq<char>>, other_started: bool) -> StartedModel {
    match ready {
        Err(message) => StartedModel::EndFailed { message },
        Ok(_) => if other_started {
            StartedModel::EndDuplicate
        } else {
            StartedModel::Keep
        },
    }
}

/// What to do with a process that was started, once it was waited for.
pub fn plan_started(ready: Result<(), String>, other_started: bool) -> (plan: StartedPlan)
    ensures
        plan.model() == started_plan(text::check_view(ready), other_started),
{
    match ready {
        Err(message) => StartedPlan::EndFailed(message),
        Ok(_) => {
            if other_started {
                StartedPlan::EndDuplicate
            } else {
                StartedPlan::Keep
            }
        },
    }
}

/// There is never more than one server: a new one is kept only where there is none, and every
/// process that is not kept is ended.
pub proof fn at_most_one_server(
    server: Server,
    earlier: Option<Result<bool, Seq<char>>>,
    ready: Result<(), Seq<char>>,
    other_started: bool,
)
    ensures
        earlier == Some(Ok::<bool, Seq<char>>(true)) <==> slot_plan(server, earlier) == Ok::<
            SlotPlan,
            Seq<char>,
        >(SlotPlan::Reuse),
        started_plan(ready, other_started) is Keep <==> ready is Ok && !other_started,
        started_plan(ready, other_started) is Keep || started_plan(ready, other_started)
            is EndDuplicate || started_plan(ready, other_started) is EndFailed,
{
}

// ---------------------------------------------------------------------------
// Stopping

/// The looks at the processing server while it is stopped.
#[derive(Debug, Clone, Copy, PartialEq, Eq, Structural)]
pub enum StopLook {
    First,
    Second,
    Last,
}

/// What to do after a look at the processing server while it is stopped.
#[derive(Debug)]
pub enum StopStep {
    /// Ask the server to end, and wait for it.
    RequestShutdown,
    /// End the processes that listen on the server's port, and wait for them.
    EndListeners,
    /// Look again.
    LookAgain,
    Stopped,
    Failed(String),
}

pub enum StopModel {
    RequestShutdown,
    EndListeners,
    LookAgain,
    Stopped,
    Failed { message: Seq<char> },
}

impl StopStep {
    pub open spec fn model(self) -> StopModel {
        match self {
            StopStep::RequestShutdown => StopModel::RequestShutdown,
            StopStep::EndListeners => StopModel::EndListeners,
            StopStep::LookAgain => StopModel::LookAgain,
            StopStep::Stopped => StopModel::Stopped,
            StopStep::Failed(message) => StopModel::Failed { message: message@ },
        }
    }
}

/// A server that still answers is first asked to end, and then its processes are ended; if it
/// answers even then, stopping it has failed.
pub open spec fn stop_step(look: StopLook, answers: bool) -> StopModel {
    match look {
        StopLook::First => if answers {
            StopModel::RequestShutdown
        } else {
            StopModel::LookAgain
        },
        StopLook::Second => if answers {
            StopModel::EndListeners
        } else {
            StopModel::LookAgain
        },
        StopLook::Last => if answers {
            StopModel::Failed {
                message: "GeoLibre sidecar is still running on port "@ + numbers::decimal(
                    SIDECAR_PORT as nat,
                ) + "."@,
            }
        } else {
            StopModel::Stopped
        },
    }
}

/// What to do after a look at the processing server while it is stopped.
pub fn sidecar_stop_step(look: StopLook, answers: bool) -> (step: StopStep)
    ensures
        step.model() == stop_step(look, answers),
{
    match look {
        StopLook::First => {
            if answers {
                StopStep::RequestShutdown
            } else {
                StopStep::LookAgain
            }
        },
        StopLook::Second => {
            if answers {
                StopStep::EndListeners
            } else {
                StopStep::LookAgain
            }
        },
        StopLook::Last => {
            if answers {
                let port = numbers::to_decimal(SIDECAR_PORT as u64);
                let mut message = text::chained(
                    "GeoLibre sidecar is still running on port ",
                    port.as_str(),
                );
                message.append(".");
                StopStep::Failed(message)
            } else {
                StopStep::Stopped
            }
        },
    }
}

/// Stopping reports success only where the server no longer answers, and ends processes only
/// where asking was not enough.
pub proof fn stopping_is_honest(look: StopLook, answers: bool)
    ensures
        stop_step(look, answers) is Stopped <==> look == StopLook::Last && !answers,
        stop_step(look, answers) is Failed <==> look == StopLook::Last && answers,
        stop_step(look, answers) is EndListeners <==> look == StopLook::Second && answers,
{
}

// ---------------------------------------------------------------------------
// Process groups

/// The target of a signal to the process group that a process leads: the negative of its number.
pub open spec fn group_target(process: u32) -> Option<int> {
    if 0 < process <= i32::MAX {
        Some(-process)
    } else {
        None
    }
}

/// The target of a signal to the process group that a process leads. A number that is no process
/// has none, so that a signal never reaches the caller's own group.
pub fn process_group_target(process: u32) -> (target: Option<i32>)
    ensures
        match target {
            Some(target) => group_target(process) == Some(target as int) && target < 0,
            None => group_target(process) is None,
        },
{
    if 0 < process && process <= 0x7fff_ffff {
        Some(-(process as i32))
    } else {
        None
    }
}

// ---------------------------------------------------------------------------
// Laws

/// The servers listen on this machine alone, each on its own port, and answer under paths of
/// their own whether they are ready.
pub proof fn servers_have_their_addresses(port: u16, token: Seq<char>)
    ensures
        local_url(SIDECAR_PORT) == "http://127.0.0.1:8765"@,
        local_url(JUPYTER_PORT) == "http://127.0.0.1:8766"@,
        SIDECAR_PORT == 8765,
        JUPYTER_PORT == 8766,
        local_url(port) == "http://127.0.0.1:"@ + numbers::decimal(port as nat),
        health_path(Server::Martin) == "/health"@,
        health_path(Server::Sidecar) == "/health"@,
        health_path(Server::Jupyter) == "/api/status"@,
        jupyter_answer(Some(token)) == ("http://127.0.0.1:8766"@, 8766u16, token),
        jupyter_answer(None) == ("http://127.0.0.1:8766"@, 8766u16, Seq::<char>::empty()),
{
    reveal_strlit("http://127.0.0.1:");
    reveal_strlit("http://127.0.0.1:8765");
    reveal_strlit("http://127.0.0.1:8766");
    reveal_with_fuel(numbers::decimal, 4);
    assert(numbers::decimal(8765) == seq!['8', '7', '6', '5']);
    assert(numbers::decimal(8766) == seq!['8', '7', '6', '6']);
    assert(local_url(8765) == "http://127.0.0.1:8765"@);
    assert(local_url(8766) == "http://127.0.0.1:8766"@);
}

/// A token that was just made counts before one that was kept.
pub proof fn new_tokens_count_first(made: Seq<char>, kept: Option<Seq<char>>)
    ensures
        current_token(Some(made), kept) == Some(made),
        current_token(None, kept) == kept,
{
}

/// What a word or a directory on a command line stands for is shown as it is.
pub proof fn launch_values_are_shown(
    text: String,
    values: Seq<LaunchValue>,
    variables: Seq<(String, LaunchValue)>,
    at: int,
)
    ensures
        LaunchValue::Word(text).model() == (LaunchValueModel::Word { word: text@ }),
        LaunchValue::Uv.model() is Uv,
        LaunchValue::ProjectDirectory.model() is ProjectDirectory,
        LaunchValue::RuntimeDirectory.model() is RuntimeDirectory,
        LaunchValue::InRuntimeDirectory(text).model() == (LaunchValueModel::InRuntimeDirectory {
            name: text@,
        }),
        argument_models(values).len() == values.len(),
        0 <= at < values.len() ==> argument_models(values)[at] == values[at].model(),
        environment_models(variables).len() == variables.len(),
        0 <= at < variables.len() ==> environment_models(variables)[at] == (
            variables[at].0@,
            variables[at].1.model(),
        ),
{
}

/// A server that uv runs is told where uv and the runtime data are, and keeps uv's cache, its
/// Python and its own packages in the directory of the runtime data.
pub proof fn uv_servers_know_their_directories(packages: Seq<char>)
    ensures
        uv_environment(packages).len() == 5,
        uv_environment(packages)[0] == ("GEOLIBRE_UV"@, LaunchValueModel::Uv),
        uv_environment(packages)[1] == ("GEOLIBRE_RUNTIME_DIR"@, LaunchValueModel::RuntimeDirectory),
        uv_environment(packages)[2] == (
            "UV_CACHE_DIR"@,
            LaunchValueModel::InRuntimeDirectory { name: "uv-cache"@ },
        ),
        uv_environment(packages)[3] == (
            "UV_PYTHON_INSTALL_DIR"@,
            LaunchValueModel::InRuntimeDirectory { name: "uv-python"@ },
        ),
        uv_environment(packages)[4] == (
            "UV_PROJECT_ENVIRONMENT"@,
            LaunchValueModel::InRuntimeDirectory { name: packages },
        ),
{
}

/// The processing server is run by uv in its project, on this machine and on its own port.
pub proof fn the_processing_server_is_run_by_uv()
    ensures
        ({
            let word = |text: Seq<char>| LaunchValueModel::Word { word: text };
            sidecar_arguments() == seq![
                word("run"@),
                word("--project"@),
                LaunchValueModel::ProjectDirectory,
                word("--extra"@),
                word("ml"@),
                word("uvicorn"@),
                word("geolibre_server.app.main:app"@),
                word("--host"@),
                word("127.0.0.1"@),
                word("--port"@),
                word("8765"@),
            ]
        }),
{
    reveal_strlit("8765");
    reveal_with_fuel(numbers::decimal, 4);
    assert(numbers::decimal(8765) == "8765"@);
}

/// The notebook server is run by uv in its project, on this machine and on its own port alone,
/// with the given settings and notebooks, and asks for the given token.
pub proof fn the_notebook_server_is_run_by_uv(
    config: Seq<char>,
    notebooks: Seq<char>,
    token: Seq<char>,
)
    ensures
        ({
            let word = |text: Seq<char>| LaunchValueModel::Word { word: text };
            jupyter_arguments(config, notebooks, token) == seq![
                word("run"@),
                word("--project"@),
                LaunchValueModel::ProjectDirectory,
                word("--extra"@),
                word("notebook"@),
                word("jupyter"@),
                word("lab"@),
                word("--no-browser"@),
                word("--config="@ + config),
                word("--ServerApp.ip=127.0.0.1"@),
                word("--ServerApp.port=8766"@),
                word("--ServerApp.port_retries=0"@),
                word("--ServerApp.root_dir="@ + notebooks),
                word("--IdentityProvider.token="@ + token),
            ]
        }),
{
    reveal_strlit("--ServerApp.port=");
    reveal_strlit("--ServerApp.port=8766");
    reveal_with_fuel(numbers::decimal, 4);
    assert(numbers::decimal(8766) == seq!['8', '7', '6', '6']);
    assert("--ServerApp.port="@ + numbers::decimal(8766) == "--ServerApp.port=8766"@);
}

/// How often and in what intervals a server is asked whether it is ready: Martin thirty times in
/// three seconds, the processing server for three minutes, and the notebook server for four.
pub proof fn servers_are_given_their_time(server: Server)
    ensures
        health_attempts(server) == match server {
            Server::Martin => 30u32,
            Server::Sidecar => 180,
            Server::Jupyter => 240,
        },
        health_interval(server) == match server {
            Server::Martin => 100u64,
            Server::Sidecar => 1000,
            Server::Jupyter => 1000,
        },
{
}

/// A port or a server that is given up is looked at for two seconds, and a process is asked to end
/// by one signal before it is ended by the other.
pub proof fn endings_are_given_their_time()
    ensures
        BRIEF_POLLS * BRIEF_POLL_MILLIS == 2_000,
        BRIEF_POLLS == 20,
        TERMINATION_GRACE_MILLIS == 250,
        SIGTERM == 15,
        SIGKILL == 9,
        TOKEN_BYTES == 16,
{
}

/// A round begins with a look at the process while there are rounds left, and else it is too late.
/// A process that has ended, or could not be inspected, ends the wait with its message.
pub proof fn waits_look_at_the_process_first(
    server: Server,
    round: nat,
    status: Seq<char>,
    output: Seq<char>,
    error: Seq<char>,
)
    ensures
        round < health_attempts(server) ==> wait_round(server, round) is Inspect,
        round >= health_attempts(server) ==> wait_round(server, round) == (WaitModel::Failed {
            message: match server {
                Server::Martin => "Martin did not become ready in time."@,
                Server::Sidecar => "GeoLibre sidecar did not become ready in time."@,
                Server::Jupyter => "Jupyter server did not become ready in time."@,
            },
        }),
        after_inspection(server, Ok(None)) is Ask,
        after_inspection(server, Err(error)) == (WaitModel::Failed {
            message: (match server {
                Server::Martin => "Could not inspect Martin process: "@,
                Server::Sidecar => "Could not inspect sidecar process: "@,
                Server::Jupyter => "Could not inspect Jupyter process: "@,
            }) + error,
        }),
        ({
            let words = if text::trim(output).len() == 0 {
                status
            } else {
                output
            };
            after_inspection(server, Ok(Some((status, output)))) == (WaitModel::Failed {
                message: match server {
                    Server::Martin => "Martin exited before it was ready: "@ + words,
                    Server::Sidecar => "GeoLibre sidecar exited before it was ready: "@ + words,
                    Server::Jupyter => "Jupyter server exited before it was ready (exit status: "@
                        + status + "). Check the terminal for the Jupyter/uv startup output."@,
                },
            })
        }),
{
}

/// What was seen of a process, and what to do next, is shown as it is.
pub proof fn waits_are_shown(exit: ProcessExit, message: String, earlier: bool, plan: SlotPlan)
    ensures
        exit_view(Ok(Some(exit))) == Ok::<Option<(Seq<char>, Seq<char>)>, Seq<char>>(
            Some((exit.status@, exit.output@)),
        ),
        exit_view(Ok(None)) == Ok::<Option<(Seq<char>, Seq<char>)>, Seq<char>>(None),
        exit_view(Err(message)) == Err::<Option<(Seq<char>, Seq<char>)>, Seq<char>>(message@),
        WaitStep::Inspect.model() is Inspect,
        WaitStep::Ask.model() is Ask,
        WaitStep::Pause.model() is Pause,
        WaitStep::Ready.model() is Ready,
        WaitStep::Failed(message).model() == (WaitModel::Failed { message: message@ }),
        earlier_view(None) is None,
        earlier_view(Some(Ok(earlier))) == Some(Ok::<bool, Seq<char>>(earlier)),
        earlier_view(Some(Err(message))) == Some(Err::<bool, Seq<char>>(message@)),
        slot_view(Ok(plan)) == Ok::<SlotPlan, Seq<char>>(plan),
        slot_view(Err(message)) == Err::<SlotPlan, Seq<char>>(message@),
        StartedPlan::Keep.model() is Keep,
        StartedPlan::EndDuplicate.model() is EndDuplicate,
        StartedPlan::EndFailed(message).model() == (StartedModel::EndFailed { message: message@ }),
        StopStep::RequestShutdown.model() is RequestShutdown,
        StopStep::EndListeners.model() is EndListeners,
        StopStep::LookAgain.model() is LookAgain,
        StopStep::Stopped.model() is Stopped,
        StopStep::Failed(message).model() == (StopModel::Failed { message: message@ }),
{
}

/// A server that runs is used again, one that has ended is replaced, and where there is none one is
/// started; where it is not known whether it runs, that is reported.
pub proof fn earlier_servers_decide_the_start(server: Server, error: Seq<char>)
    ensures
        slot_plan(server, None) == Ok::<SlotPlan, Seq<char>>(SlotPlan::Start),
        slot_plan(server, Some(Ok(true))) == Ok::<SlotPlan, Seq<char>>(SlotPlan::Reuse),
        slot_plan(server, Some(Ok(false))) == Ok::<SlotPlan, Seq<char>>(SlotPlan::Replace),
        slot_plan(server, Some(Err(error))) == Err::<SlotPlan, Seq<char>>(
            (match server {
                Server::Martin => "Could not inspect Martin process: "@,
                Server::Sidecar => "Could not inspect sidecar process: "@,
                Server::Jupyter => "Could not inspect Jupyter process: "@,
            }) + error,
        ),
{
}

/// A process that became ready is kept where no other was started meanwhile, and ended where one
/// was; one that did not is ended, and its message is reported.
pub proof fn ready_servers_are_kept(message: Seq<char>, other_started: bool)
    ensures
        started_plan(Ok(()), false) is Keep,
        started_plan(Ok(()), true) is EndDuplicate,
        started_plan(Err(message), other_started) == (StartedModel::EndFailed { message }),
{
}

/// A processing server that answers is asked to end at the first look, and its processes are ended
/// at the second. At the last look it has stopped, or it is reported that it still runs.
pub proof fn stopping_asks_before_it_ends(look: StopLook, answers: bool)
    ensures
        stop_step(look, answers) == match (look, answers) {
            (StopLook::First, true) => StopModel::RequestShutdown,
            (StopLook::First, false) => StopModel::LookAgain,
            (StopLook::Second, true) => StopModel::EndListeners,
            (StopLook::Second, false) => StopModel::LookAgain,
            (StopLook::Last, false) => StopModel::Stopped,
            (StopLook::Last, true) => (StopModel::Failed {
                message: "GeoLibre sidecar is still running on port 8765."@,
            }),
        },
{
    reveal_strlit("GeoLibre sidecar is still running on port ");
    reveal_strlit(".");
    reveal_strlit("GeoLibre sidecar is still running on port 8765.");
    reveal_with_fuel(numbers::decimal, 4);
    assert(numbers::decimal(8765) == seq!['8', '7', '6', '5']);
    assert("GeoLibre sidecar is still running on port "@ + numbers::decimal(8765) + "."@
        == "GeoLibre sidecar is still running on port 8765."@);
}

/// A signal to the group of a process goes to the negative of its number; what is no number of a
/// process has no group, so a signal never reaches the caller's own.
pub proof fn groups_are_the_negative_of_their_process(process: u32)
    ensures
        1 <= process <= 0x7fff_ffff ==> group_target(process) == Some(-(process as int)),
        process == 0 || process > 0x7fff_ffff ==> group_target(process) is None,
{
}

/// A token is thirty-two hexadecimal digits of sixteen bytes.
pub proof fn tokens_have_sixteen_bytes(bytes: Seq<u8>)
    requires
        bytes.len() == 16,
    ensures
        token_form(numbers::hex_of(bytes)),
        numbers::hex_of(bytes).len() == 32,
{
    numbers::hex_has_two_digits_per_byte(bytes);
}

} // verus!
