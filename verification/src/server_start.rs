//! Starting the processing server and the notebook server, as the steps between what is done to
//! start them.

use vstd::prelude::*;

use crate::servers::SlotPlan;
use crate::{numbers, servers, text};

verus! {

/// The servers that uv runs.
#[derive(Debug, Clone, Copy, PartialEq, Eq, Structural)]
pub enum UvServer {
    Sidecar,
    Jupyter,
}

/// A step of starting a server.
#[derive(Debug, Clone, Copy, PartialEq, Eq, Structural)]
pub enum StartStage {
    /// See what became of the server that was started before.
    CheckSlot,
    /// Ask whether a server of an earlier session answers.
    AskEarlierServer,
    /// End the servers of earlier sessions that hold the port, and wait until it is free.
    ClearPort,
    FindUv,
    FindProject,
    FindRuntimeDirectory,
    /// Put the files of the notebooks in their place.
    PrepareNotebooks,
    MakeToken,
    Launch,
    AwaitReadiness,
    /// Take note of the new server.
    Keep,
    /// Take note of the new server's token.
    KeepToken,
}

/// What became of a step.
#[derive(Debug)]
pub enum StartEvent {
    Done,
    /// What to do about the server that was started before.
    Slot(SlotPlan),
    /// Whether a server of an earlier session answers.
    EarlierServer(bool),
    Failed(String),
}

pub enum StartEventModel {
    Done,
    Slot { plan: SlotPlan },
    EarlierServer { answers: bool },
    Failed { error: Seq<char> },
}

impl StartEvent {
    pub open spec fn model(self) -> StartEventModel {
        match self {
            StartEvent::Done => StartEventModel::Done,
            StartEvent::Slot(plan) => StartEventModel::Slot { plan },
            StartEvent::EarlierServer(answers) => StartEventModel::EarlierServer { answers },
            StartEvent::Failed(error) => StartEventModel::Failed { error: error@ },
        }
    }
}

/// What comes next.
#[derive(Debug)]
pub enum StartStep {
    Do(StartStage),
    /// The server runs.
    Running,
    /// The server could not be started. A process that was launched may have to be ended.
    Failed { message: String, end_process: bool },
}

pub enum StartModel {
    Do { stage: StartStage },
    Running,
    Failed { message: Seq<char>, end_process: bool },
}

impl StartStep {
    pub open spec fn model(self) -> StartModel {
        match self {
            StartStep::Do(stage) => StartModel::Do { stage },
            StartStep::Running => StartModel::Running,
            StartStep::Failed { message, end_process } => StartModel::Failed {
                message: message@,
                end_process,
            },
        }
    }
}

/// What stands in front of the cause when a step has failed. The other steps name their cause
/// completely.
pub open spec fn failure_start(server: UvServer, stage: StartStage) -> Seq<char> {
    match stage {
        StartStage::FindRuntimeDirectory => "Could not resolve app data directory: "@,
        StartStage::Launch => match server {
            UvServer::Sidecar => "Could not start GeoLibre sidecar: "@,
            UvServer::Jupyter => "Could not start Jupyter server: "@,
        },
        _ => ""@,
    }
}

/// What follows the look at the server that was started before, where that does not run. A
/// processing server of an earlier session can be used; a notebook server can not, since its
/// token is not known.
pub open spec fn without_server(server: UvServer) -> StartStage {
    match server {
        UvServer::Sidecar => StartStage::AskEarlierServer,
        UvServer::Jupyter => StartStage::ClearPort,
    }
}

/// What follows a step that was done.
pub open spec fn stage_after(server: UvServer, stage: StartStage) -> StartModel {
    match stage {
        StartStage::CheckSlot => StartModel::Do { stage: without_server(server) },
        StartStage::AskEarlierServer => StartModel::Do { stage: StartStage::FindUv },
        StartStage::ClearPort => StartModel::Do { stage: StartStage::FindUv },
        StartStage::FindUv => StartModel::Do { stage: StartStage::FindProject },
        StartStage::FindProject => StartModel::Do { stage: StartStage::FindRuntimeDirectory },
        StartStage::FindRuntimeDirectory => StartModel::Do {
            stage: match server {
                UvServer::Sidecar => StartStage::Launch,
                UvServer::Jupyter => StartStage::PrepareNotebooks,
            },
        },
        StartStage::PrepareNotebooks => StartModel::Do { stage: StartStage::MakeToken },
        StartStage::MakeToken => StartModel::Do { stage: StartStage::Launch },
        StartStage::Launch => StartModel::Do { stage: StartStage::AwaitReadiness },
        StartStage::AwaitReadiness => StartModel::Do { stage: StartStage::Keep },
        StartStage::Keep => match server {
            UvServer::Sidecar => StartModel::Running,
            UvServer::Jupyter => StartModel::Do { stage: StartStage::KeepToken },
        },
        StartStage::KeepToken => StartModel::Running,
    }
}

/// A process that did not become ready is ended, and so is a notebook server that no note can be
/// taken of.
pub open spec fn failure_ends_process(server: UvServer, stage: StartStage) -> bool {
    stage == StartStage::AwaitReadiness || (server == UvServer::Jupyter && stage
        == StartStage::Keep)
}

/// What follows a step. A server that runs already is used: starting ends at once.
pub open spec fn start_after(server: UvServer, stage: StartStage, event: StartEventModel) -> StartModel {
    match event {
        StartEventModel::Failed { error } => StartModel::Failed {
            message: failure_start(server, stage) + error,
            end_process: failure_ends_process(server, stage),
        },
        StartEventModel::Slot { plan } => if stage == StartStage::CheckSlot && plan
            == SlotPlan::Reuse {
            StartModel::Running
        } else {
            stage_after(server, stage)
        },
        StartEventModel::EarlierServer { answers } => if stage == StartStage::AskEarlierServer
            && answers {
            StartModel::Running
        } else {
            stage_after(server, stage)
        },
        StartEventModel::Done => stage_after(server, stage),
    }
}

fn failure_text(server: UvServer, stage: StartStage) -> (text: &'static str)
    ensures
        text@ == failure_start(server, stage),
{
    match stage {
        StartStage::FindRuntimeDirectory => "Could not resolve app data directory: ",
        StartStage::Launch => match server {
            UvServer::Sidecar => "Could not start GeoLibre sidecar: ",
            UvServer::Jupyter => "Could not start Jupyter server: ",
        },
        _ => "",
    }
}

fn next_stage(server: UvServer, stage: StartStage) -> (step: StartStep)
    ensures
        step.model() == stage_after(server, stage),
{
    match stage {
        StartStage::CheckSlot => match server {
            UvServer::Sidecar => StartStep::Do(StartStage::AskEarlierServer),
            UvServer::Jupyter => StartStep::Do(StartStage::ClearPort),
        },
        StartStage::AskEarlierServer => StartStep::Do(StartStage::FindUv),
        StartStage::ClearPort => StartStep::Do(StartStage::FindUv),
        StartStage::FindUv => StartStep::Do(StartStage::FindProject),
        StartStage::FindProject => StartStep::Do(StartStage::FindRuntimeDirectory),
        StartStage::FindRuntimeDirectory => match server {
            UvServer::Sidecar => StartStep::Do(StartStage::Launch),
            UvServer::Jupyter => StartStep::Do(StartStage::PrepareNotebooks),
        },
        StartStage::PrepareNotebooks => StartStep::Do(StartStage::MakeToken),
        StartStage::MakeToken => StartStep::Do(StartStage::Launch),
        StartStage::Launch => StartStep::Do(StartStage::AwaitReadiness),
        StartStage::AwaitReadiness => StartStep::Do(StartStage::Keep),
        StartStage::Keep => match server {
            UvServer::Sidecar => StartStep::Running,
            UvServer::Jupyter => StartStep::Do(StartStage::KeepToken),
        },
        StartStage::KeepToken => StartStep::Running,
    }
}

/// What follows a step of starting a server.
pub fn advance_start(server: UvServer, stage: StartStage, event: StartEvent) -> (step: StartStep)
    ensures
        step.model() == start_after(server, stage, event.model()),
{
    match event {
        StartEvent::Failed(error) => StartStep::Failed {
            message: text::chained(failure_text(server, stage), error.as_str()),
            end_process: match (server, stage) {
                (_, StartStage::AwaitReadiness) => true,
                (UvServer::Jupyter, StartStage::Keep) => true,
                _ => false,
            },
        },
        StartEvent::Slot(plan) => {
            let reuse = match plan {
                SlotPlan::Reuse => true,
                _ => false,
            };
            match stage {
                StartStage::CheckSlot if reuse => StartStep::Running,
                _ => next_stage(server, stage),
            }
        },
        StartEvent::EarlierServer(answers) => match stage {
            StartStage::AskEarlierServer if answers => StartStep::Running,
            _ => next_stage(server, stage),
        },
        StartEvent::Done => next_stage(server, stage),
    }
}

/// The place of a step in the order of the steps.
pub open spec fn stage_rank(stage: StartStage) -> int {
    match stage {
        StartStage::CheckSlot => 0,
        StartStage::AskEarlierServer => 1,
        StartStage::ClearPort => 1,
        StartStage::FindUv => 2,
        StartStage::FindProject => 3,
        StartStage::FindRuntimeDirectory => 4,
        StartStage::PrepareNotebooks => 5,
        StartStage::MakeToken => 6,
        StartStage::Launch => 7,
        StartStage::AwaitReadiness => 8,
        StartStage::Keep => 9,
        StartStage::KeepToken => 10,
    }
}

/// Starting goes on to later steps only, so it ends. It ends with a running server only where one
/// ran already, or once a launched one became ready and was taken note of; and a launched process
/// that did not become ready, or a notebook server that no note can be taken of, is ended.
pub proof fn starting_ends(server: UvServer, stage: StartStage, event: StartEventModel)
    ensures
        match start_after(server, stage, event) {
            StartModel::Do { stage: next } => stage_rank(next) > stage_rank(stage) && !(event
                is Failed),
            StartModel::Running => {
                ||| stage == StartStage::Keep && server == UvServer::Sidecar
                ||| stage == StartStage::KeepToken
                ||| stage == StartStage::CheckSlot && event == (StartEventModel::Slot {
                    plan: SlotPlan::Reuse,
                })
                ||| stage == StartStage::AskEarlierServer && event
                    == (StartEventModel::EarlierServer { answers: true })
            },
            StartModel::Failed { message, end_process } => event is Failed && (end_process <==> (
            stage == StartStage::AwaitReadiness || (server == UvServer::Jupyter && stage
                == StartStage::Keep))),
        },
{
}

/// A notebook server of an earlier session is never used, and a processing server is started
/// without a token: each server takes the steps that are its own.
pub proof fn servers_take_their_own_steps(server: UvServer, stage: StartStage, event: StartEventModel)
    requires
        server == UvServer::Sidecar ==> stage != StartStage::ClearPort && stage
            != StartStage::PrepareNotebooks && stage != StartStage::MakeToken && stage
            != StartStage::KeepToken,
        server == UvServer::Jupyter ==> stage != StartStage::AskEarlierServer,
    ensures
        start_after(server, stage, event) matches StartModel::Do { stage: next } ==> {
            &&& server == UvServer::Sidecar ==> next != StartStage::ClearPort && next
                != StartStage::PrepareNotebooks && next != StartStage::MakeToken && next
                != StartStage::KeepToken
            &&& server == UvServer::Jupyter ==> next != StartStage::AskEarlierServer
        },
{
}

/// The notebook server as one start leaves it for the next: the token that is kept of it, and the
/// answer that was given.
pub struct JupyterStart {
    pub kept: Option<Seq<char>>,
    pub answer: (Seq<char>, u16, Seq<char>),
}

/// What a start leaves behind, where `made` is the token of a server that it has launched, and
/// `kept` the token that was kept before. A start that has found a server running makes no token.
pub open spec fn jupyter_start(made: Option<Seq<char>>, kept: Option<Seq<char>>) -> JupyterStart {
    let token = servers::current_token(made, kept);
    JupyterStart { kept: token, answer: servers::jupyter_answer(token) }
}

/// Starting the notebook server while it runs gives the answer of the start that launched it: the
/// same address, port and token. The look at the running server is the only step of such a start,
/// so nothing is launched and nothing is ended.
pub proof fn a_repeated_start_gives_the_same_answer(made: Seq<char>, kept: Option<Seq<char>>)
    ensures
        servers::slot_plan(servers::Server::Jupyter, Some(Ok(true))) == Ok::<SlotPlan, Seq<char>>(
            SlotPlan::Reuse,
        ),
        start_after(
            UvServer::Jupyter,
            StartStage::CheckSlot,
            StartEventModel::Slot { plan: SlotPlan::Reuse },
        ) is Running,
        jupyter_start(None, jupyter_start(Some(made), kept).kept) == jupyter_start(Some(made), kept),
        jupyter_start(Some(made), kept).kept == Some(made),
        jupyter_start(Some(made), kept).answer == ("http://127.0.0.1:8766"@, 8766u16, made),
{
    reveal_strlit("http://127.0.0.1:");
    reveal_strlit("http://127.0.0.1:8766");
    reveal_with_fuel(numbers::decimal, 4);
    assert(numbers::decimal(8766) == seq!['8', '7', '6', '6']);
    assert(servers::local_url(8766) == "http://127.0.0.1:8766"@);
}

/// The steps of a start, each behind the one that it needs. The processing server looks for one of
/// an earlier session, the notebook server clears its port and makes a token.
pub proof fn starts_take_every_step()
    ensures
        ({
            let next = |server: UvServer, stage: StartStage|
                start_after(server, stage, StartEventModel::Done);
            let goes = |stage: StartStage| StartModel::Do { stage };
            let sidecar = UvServer::Sidecar;
            let jupyter = UvServer::Jupyter;
            &&& next(sidecar, StartStage::CheckSlot) == goes(StartStage::AskEarlierServer)
            &&& next(sidecar, StartStage::AskEarlierServer) == goes(StartStage::FindUv)
            &&& next(sidecar, StartStage::FindUv) == goes(StartStage::FindProject)
            &&& next(sidecar, StartStage::FindProject) == goes(StartStage::FindRuntimeDirectory)
            &&& next(sidecar, StartStage::FindRuntimeDirectory) == goes(StartStage::Launch)
            &&& next(sidecar, StartStage::Launch) == goes(StartStage::AwaitReadiness)
            &&& next(sidecar, StartStage::AwaitReadiness) == goes(StartStage::Keep)
            &&& next(sidecar, StartStage::Keep) is Running
            &&& next(jupyter, StartStage::CheckSlot) == goes(StartStage::ClearPort)
            &&& next(jupyter, StartStage::ClearPort) == goes(StartStage::FindUv)
            &&& next(jupyter, StartStage::FindUv) == goes(StartStage::FindProject)
            &&& next(jupyter, StartStage::FindProject) == goes(StartStage::FindRuntimeDirectory)
            &&& next(jupyter, StartStage::FindRuntimeDirectory) == goes(
                StartStage::PrepareNotebooks,
            )
            &&& next(jupyter, StartStage::PrepareNotebooks) == goes(StartStage::MakeToken)
            &&& next(jupyter, StartStage::MakeToken) == goes(StartStage::Launch)
            &&& next(jupyter, StartStage::Launch) == goes(StartStage::AwaitReadiness)
            &&& next(jupyter, StartStage::AwaitReadiness) == goes(StartStage::Keep)
            &&& next(jupyter, StartStage::Keep) == goes(StartStage::KeepToken)
            &&& next(jupyter, StartStage::KeepToken) is Running
        }),
{
}

/// A server that runs, or a processing server of an earlier session that answers, ends a start at
/// once; where there is none, the start goes on.
pub proof fn running_servers_end_a_start(server: UvServer)
    ensures
        start_after(
            server,
            StartStage::CheckSlot,
            StartEventModel::Slot { plan: SlotPlan::Reuse },
        ) is Running,
        ({
            let started = start_after(
                server,
                StartStage::CheckSlot,
                StartEventModel::Slot { plan: SlotPlan::Start },
            );
            let replaced = start_after(
                server,
                StartStage::CheckSlot,
                StartEventModel::Slot { plan: SlotPlan::Replace },
            );
            let first = StartModel::Do {
                stage: match server {
                    UvServer::Sidecar => StartStage::AskEarlierServer,
                    UvServer::Jupyter => StartStage::ClearPort,
                },
            };
            started == first && replaced == first
        }),
        start_after(
            UvServer::Sidecar,
            StartStage::AskEarlierServer,
            StartEventModel::EarlierServer { answers: true },
        ) is Running,
        start_after(
            UvServer::Sidecar,
            StartStage::AskEarlierServer,
            StartEventModel::EarlierServer { answers: false },
        ) == (StartModel::Do { stage: StartStage::FindUv }),
{
}

/// A step that fails ends the start with its message; a process that was launched is ended where
/// it did not become ready, and a notebook server also where no note can be taken of it.
pub proof fn failed_starts_say_why(server: UvServer, stage: StartStage, error: String)
    ensures
        start_after(server, stage, StartEvent::Failed(error).model()) == (StartModel::Failed {
            message: (if stage == StartStage::FindRuntimeDirectory {
                "Could not resolve app data directory: "@
            } else if stage == StartStage::Launch && server == UvServer::Sidecar {
                "Could not start GeoLibre sidecar: "@
            } else if stage == StartStage::Launch {
                "Could not start Jupyter server: "@
            } else {
                ""@
            }) + error@,
            end_process: stage == StartStage::AwaitReadiness || (stage == StartStage::Keep && server
                == UvServer::Jupyter),
        }),
{
}

/// Events and steps are shown as they are.
pub proof fn starts_are_shown(
    plan: SlotPlan,
    answers: bool,
    stage: StartStage,
    message: String,
    end_process: bool,
)
    ensures
        StartEvent::Done.model() is Done,
        StartEvent::Slot(plan).model() == (StartEventModel::Slot { plan }),
        StartEvent::EarlierServer(answers).model() == (StartEventModel::EarlierServer { answers }),
        StartStep::Do(stage).model() == (StartModel::Do { stage }),
        StartStep::Running.model() is Running,
        (StartStep::Failed { message, end_process }).model() == (StartModel::Failed {
            message: message@,
            end_process,
        }),
{
}

} // verus!
