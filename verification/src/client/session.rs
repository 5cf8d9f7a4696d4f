//! A build as the client sees it, from the installable to its outputs.
//!
//! The session is a machine: something happens, and the machine says what is
//! done next. Nix, the connection and the terminal are left to whoever runs
//! it.

use vstd::prelude::*;

use crate::client;
use crate::client::summary;
use crate::client::summary::{build_text, count_paths, local_outputs_text, BuildSummary};
use crate::client::{BuildAuth, BuildAuthView, KeySource, KeySourceView};
use crate::endpoint::{EndpointAddr, EndpointAddrView};
use crate::error;
use crate::error::Error;
use crate::nix;
use crate::nix::{clone_store_paths, store_paths, store_paths_to_strings, StorePath};
use crate::proto;
use crate::proto::{
    BuildRequest, BuildRequestView, Hello, Incoming, Message, MessageView, OutputMode,
    VERSION,
};
use crate::protocol::path_chunks;
use crate::protocol::path_chunks::{
    write_messages, PathListKind, ReadLimits, ReadState, ReadStateView, ReadStep,
};
use crate::text;
use crate::text::{clone_strings, concat2, concat3};

verus! {

/// How long the builder may take for a list of paths, in seconds.
pub const SERVER_PATH_LIST_TIMEOUT_SECS: u64 = 600;

/// How long connecting may take, in seconds.
pub const CONNECT_TIMEOUT_SECS: u64 = 30;

pub open spec fn server_list_limits() -> ReadLimits {
    ReadLimits { chunks: 512, paths: 100_000, bytes: 16_777_216 }
}

/// How much is read of a list of paths from the builder.
pub fn server_path_list_limits() -> (r: ReadLimits)
    ensures
        r == server_list_limits(),
{
    ReadLimits { chunks: 512, paths: 100_000, bytes: 16_777_216 }
}

// ---------------------------------------------------------------------------
// What is wanted, and what is known
// ---------------------------------------------------------------------------

/// What the user wants.
pub struct BuildPlan {
    pub installable: String,
    pub auth: Option<BuildAuth>,
    pub key_file: Option<String>,
    pub output_mode: OutputMode,
    pub rebuild: bool,
}

/// The view of what the user wants.
pub struct PlanView {
    pub installable: Seq<char>,
    pub auth: Option<BuildAuthView>,
    pub key_file: Option<Seq<char>>,
    pub output_mode: OutputMode,
    pub rebuild: bool,
}

impl View for BuildPlan {
    type V = PlanView;

    open spec fn view(&self) -> PlanView {
        PlanView {
            installable: self.installable@,
            auth: match self.auth {
                Some(auth) => Some(auth@),
                None => None,
            },
            key_file: text::optional_text(self.key_file),
            output_mode: self.output_mode,
            rebuild: self.rebuild,
        }
    }
}

/// What the client has found out.
pub struct Facts {
    /// The outputs that are wanted.
    pub outputs: Vec<String>,
    pub builder_public_key: String,
    pub drv_path: String,
    pub closure_path_count: usize,
    pub missing_path_count: usize,
    /// The outputs that were built.
    pub output_paths: Vec<String>,
}

/// The view of what the client has found out.
pub struct FactsView {
    pub outputs: Seq<Seq<char>>,
    pub builder_public_key: Seq<char>,
    pub drv_path: Seq<char>,
    pub closure_path_count: nat,
    pub missing_path_count: nat,
    pub output_paths: Seq<Seq<char>>,
}

impl View for Facts {
    type V = FactsView;

    open spec fn view(&self) -> FactsView {
        FactsView {
            outputs: text::texts(self.outputs@),
            builder_public_key: self.builder_public_key@,
            drv_path: self.drv_path@,
            closure_path_count: self.closure_path_count as nat,
            missing_path_count: self.missing_path_count as nat,
            output_paths: text::texts(self.output_paths@),
        }
    }
}

pub open spec fn no_facts() -> FactsView {
    FactsView {
        outputs: Seq::empty(),
        builder_public_key: Seq::empty(),
        drv_path: Seq::empty(),
        closure_path_count: 0,
        missing_path_count: 0,
        output_paths: Seq::empty(),
    }
}

// ---------------------------------------------------------------------------
// What is done, and what happens
// ---------------------------------------------------------------------------

/// What is done next.
pub enum ClientAction {
    /// Show what is going on.
    Phase { message: String },
    /// Show nothing.
    ClearPhase,
    /// Find the outputs of the installable.
    ResolveOutputs,
    /// Find the paths that the store lacks.
    FindMissing { paths: Vec<StorePath> },
    /// Get ready to connect.
    Bind { key: KeySource },
    Connect { addr: EndpointAddr },
    Send { messages: Vec<Message> },
    /// Wait for a message; where there is a limit, so many seconds at most.
    Read { seconds: Option<u64> },
    /// See whether outputs that a key signed can be imported.
    CheckTrust { builder_public_key: String },
    /// Find the derivation of the installable.
    ResolveDerivation,
    /// Find the closure of a derivation.
    FindClosure { drv_path: StorePath },
    Upload { paths: Vec<StorePath>, message: String },
    StartLogs { output_mode: OutputMode },
    Log { line: String },
    /// End the log, and where that fails complain so, if at all.
    FinishLogs { complaint: Option<String> },
    /// Import outputs from the builder's cache.
    Import {
        builder_public_key: String,
        closure_paths: Vec<StorePath>,
        copy_paths: Vec<StorePath>,
    },
    Print { lines: Vec<String> },
    Close,
    Succeed,
    Fail { error: Error },
}

/// The view of what is done.
pub enum ClientActionView {
    Phase { message: Seq<char> },
    ClearPhase,
    ResolveOutputs,
    FindMissing { paths: Seq<Seq<char>> },
    Bind { key: KeySourceView },
    Connect { addr: EndpointAddrView },
    Send { messages: Seq<MessageView> },
    Read { seconds: Option<u64> },
    CheckTrust { builder_public_key: Seq<char> },
    ResolveDerivation,
    FindClosure { drv_path: Seq<char> },
    Upload { paths: Seq<Seq<char>>, message: Seq<char> },
    StartLogs { output_mode: OutputMode },
    Log { line: Seq<char> },
    FinishLogs { complaint: Option<Seq<char>> },
    Import {
        builder_public_key: Seq<char>,
        closure_paths: Seq<Seq<char>>,
        copy_paths: Seq<Seq<char>>,
    },
    Print { lines: Seq<Seq<char>> },
    Close,
    Succeed,
    Fail { error: Seq<Seq<char>> },
}

impl View for ClientAction {
    type V = ClientActionView;

    open spec fn view(&self) -> ClientActionView {
        match *self {
            ClientAction::Phase { message } => ClientActionView::Phase { message: message@ },
            ClientAction::ClearPhase => ClientActionView::ClearPhase,
            ClientAction::ResolveOutputs => ClientActionView::ResolveOutputs,
            ClientAction::FindMissing { paths } => ClientActionView::FindMissing {
                paths: nix::path_texts(paths@),
            },
            ClientAction::Bind { key } => ClientActionView::Bind { key: key@ },
            ClientAction::Connect { addr } => ClientActionView::Connect { addr: addr@ },
            ClientAction::Send { messages } => ClientActionView::Send {
                messages: path_chunks::message_views(messages@),
            },
            ClientAction::Read { seconds } => ClientActionView::Read { seconds },
            ClientAction::CheckTrust { builder_public_key } => ClientActionView::CheckTrust {
                builder_public_key: builder_public_key@,
            },
            ClientAction::ResolveDerivation => ClientActionView::ResolveDerivation,
            ClientAction::FindClosure { drv_path } => ClientActionView::FindClosure {
                drv_path: drv_path@,
            },
            ClientAction::Upload { paths, message } => ClientActionView::Upload {
                paths: nix::path_texts(paths@),
                message: message@,
            },
            ClientAction::StartLogs { output_mode } => ClientActionView::StartLogs { output_mode },
            ClientAction::Log { line } => ClientActionView::Log { line: line@ },
            ClientAction::FinishLogs { complaint } => ClientActionView::FinishLogs {
                complaint: text::optional_text(complaint),
            },
            ClientAction::Import {
                builder_public_key,
                closure_paths,
                copy_paths,
            } => ClientActionView::Import {
                builder_public_key: builder_public_key@,
                closure_paths: nix::path_texts(closure_paths@),
                copy_paths: nix::path_texts(copy_paths@),
            },
            ClientAction::Print { lines } => ClientActionView::Print {
                lines: text::texts(lines@),
            },
            ClientAction::Close => ClientActionView::Close,
            ClientAction::Succeed => ClientActionView::Succeed,
            ClientAction::Fail { error } => ClientActionView::Fail { error: error@ },
        }
    }
}

pub open spec fn client_action_views(list: Seq<ClientAction>) -> Seq<ClientActionView> {
    Seq::new(list.len(), |i: int| list[i]@)
}

/// What happens to a build.
pub enum ClientEvent {
    OutputsResolved { paths: Vec<StorePath> },
    MissingFound { missing: Vec<StorePath> },
    Connected { node_id: String },
    Received { incoming: Incoming },
    /// Outputs of the builder can be imported.
    TrustChecked,
    DerivationResolved { drv_path: StorePath },
    ClosureFound { closure: Vec<StorePath> },
    Uploaded,
    /// So many bytes were received, or the import failed.
    Imported { result: Result<u64, Error> },
    /// The connection was closed.
    Closed,
    /// Nothing came in time; the clock says so in these words.
    TimedOut { cause: String },
    /// Something that was to be done failed.
    Failed { error: Error },
}

/// The view of what happens to a build.
pub enum ClientEventView {
    OutputsResolved { paths: Seq<Seq<char>> },
    MissingFound { missing: Seq<Seq<char>> },
    Connected { node_id: Seq<char> },
    Received { message: MessageView, shown: Seq<char> },
    TrustChecked,
    DerivationResolved { drv_path: Seq<char> },
    ClosureFound { closure: Seq<Seq<char>> },
    Uploaded,
    Imported { result: Result<u64, Seq<Seq<char>>> },
    Closed,
    TimedOut { cause: Seq<char> },
    Failed { error: Seq<Seq<char>> },
}

impl View for ClientEvent {
    type V = ClientEventView;

    open spec fn view(&self) -> ClientEventView {
        match *self {
            ClientEvent::OutputsResolved { paths } => ClientEventView::OutputsResolved {
                paths: nix::path_texts(paths@),
            },
            ClientEvent::MissingFound { missing } => ClientEventView::MissingFound {
                missing: nix::path_texts(missing@),
            },
            ClientEvent::Connected { node_id } => ClientEventView::Connected { node_id: node_id@ },
            ClientEvent::Received { incoming } => ClientEventView::Received {
                message: incoming.message@,
                shown: incoming.shown@,
            },
            ClientEvent::TrustChecked => ClientEventView::TrustChecked,
            ClientEvent::DerivationResolved { drv_path } => ClientEventView::DerivationResolved {
                drv_path: drv_path@,
            },
            ClientEvent::ClosureFound { closure } => ClientEventView::ClosureFound {
                closure: nix::path_texts(closure@),
            },
            ClientEvent::Uploaded => ClientEventView::Uploaded,
            ClientEvent::Imported { result } => ClientEventView::Imported {
                result: error::outcome(result),
            },
            ClientEvent::Closed => ClientEventView::Closed,
            ClientEvent::TimedOut { cause } => ClientEventView::TimedOut { cause: cause@ },
            ClientEvent::Failed { error } => ClientEventView::Failed { error: error@ },
        }
    }
}

/// How far a build is.
pub enum ClientStage {
    ResolvingOutputs,
    CheckingLocal,
    Connecting,
    AwaitAuthOk,
    CheckingTrust,
    ResolvingDerivation,
    FindingClosure,
    AwaitQueued,
    ReadingMissing { list: ReadState },
    AwaitUploadReady { missing: Vec<String> },
    Uploading,
    Building,
    ReadingClosure { list: ReadState },
    CheckingOutputs { closure: Vec<StorePath> },
    AwaitCache { closure: Vec<StorePath> },
    Importing,
    AwaitDone { import: Result<u64, Error> },
    /// The connection is being closed; it is known what the build came to.
    Closing { verdict: Result<(), Error> },
    Ended,
}

/// The view of how far a build is.
pub enum ClientStageView {
    ResolvingOutputs,
    CheckingLocal,
    Connecting,
    AwaitAuthOk,
    CheckingTrust,
    ResolvingDerivation,
    FindingClosure,
    AwaitQueued,
    ReadingMissing { list: ReadStateView },
    AwaitUploadReady { missing: Seq<Seq<char>> },
    Uploading,
    Building,
    ReadingClosure { list: ReadStateView },
    CheckingOutputs { closure: Seq<Seq<char>> },
    AwaitCache { closure: Seq<Seq<char>> },
    Importing,
    AwaitDone { import: Result<u64, Seq<Seq<char>>> },
    Closing { verdict: Result<(), Seq<Seq<char>>> },
    Ended,
}

impl View for ClientStage {
    type V = ClientStageView;

    open spec fn view(&self) -> ClientStageView {
        match *self {
            ClientStage::ResolvingOutputs => ClientStageView::ResolvingOutputs,
            ClientStage::CheckingLocal => ClientStageView::CheckingLocal,
            ClientStage::Connecting => ClientStageView::Connecting,
            ClientStage::AwaitAuthOk => ClientStageView::AwaitAuthOk,
            ClientStage::CheckingTrust => ClientStageView::CheckingTrust,
            ClientStage::ResolvingDerivation => ClientStageView::ResolvingDerivation,
            ClientStage::FindingClosure => ClientStageView::FindingClosure,
            ClientStage::AwaitQueued => ClientStageView::AwaitQueued,
            ClientStage::ReadingMissing { list } => ClientStageView::ReadingMissing { list: list@ },
            ClientStage::AwaitUploadReady { missing } => ClientStageView::AwaitUploadReady {
                missing: text::texts(missing@),
            },
            ClientStage::Uploading => ClientStageView::Uploading,
            ClientStage::Building => ClientStageView::Building,
            ClientStage::ReadingClosure { list } => ClientStageView::ReadingClosure { list: list@ },
            ClientStage::CheckingOutputs { closure } => ClientStageView::CheckingOutputs {
                closure: nix::path_texts(closure@),
            },
            ClientStage::AwaitCache { closure } => ClientStageView::AwaitCache {
                closure: nix::path_texts(closure@),
            },
            ClientStage::Importing => ClientStageView::Importing,
            ClientStage::AwaitDone { import } => ClientStageView::AwaitDone {
                import: error::outcome(import),
            },
            ClientStage::Closing { verdict } => ClientStageView::Closing {
                verdict: error::outcome(verdict),
            },
            ClientStage::Ended => ClientStageView::Ended,
        }
    }
}

// ---------------------------------------------------------------------------
// The model
// ---------------------------------------------------------------------------

/// Where a step leads: how far the build then is, and what is done.
pub type StepView = (ClientStageView, Seq<ClientActionView>);

pub open spec fn phase(message: Seq<char>) -> ClientActionView {
    ClientActionView::Phase { message }
}

pub open spec fn read_any() -> ClientActionView {
    ClientActionView::Read { seconds: None }
}

pub open spec fn read_list() -> ClientActionView {
    ClientActionView::Read { seconds: Some(SERVER_PATH_LIST_TIMEOUT_SECS) }
}

pub open spec fn fails(error: Seq<Seq<char>>) -> StepView {
    (ClientStageView::Ended, seq![ClientActionView::Fail { error }])
}

/// The builder said that something went wrong, or what nobody expected.
pub open spec fn not_expected(message: MessageView, shown: Seq<char>) -> Seq<Seq<char>> {
    match message {
        MessageView::Error { message } => seq![message],
        _ => proto::unexpected("unexpected server message"@, shown),
    }
}

/// The build needs a builder.
pub open spec fn needs_builder(plan: PlanView) -> StepView {
    match plan.auth {
        None => fails(
            seq![
                "build requires either --server or --ticket when requested outputs are missing locally or --rebuild is set"@,
            ],
        ),
        Some(auth) => (
            ClientStageView::Connecting,
            seq![
                ClientActionView::Bind { key: client::key_for(auth, plan.key_file) },
                phase("connecting"@),
                ClientActionView::Connect { addr: client::addr_for(auth) },
            ],
        ),
    }
}

/// The outputs that are wanted are known. Where they are to be built again,
/// nobody asks whether they are there.
pub open spec fn after_outputs(plan: PlanView, paths: Seq<Seq<char>>) -> StepView {
    if plan.rebuild {
        let (stage, actions) = needs_builder(plan);
        (stage, seq![phase("checking local outputs"@)] + actions)
    } else {
        (
            ClientStageView::CheckingLocal,
            seq![phase("checking local outputs"@), ClientActionView::FindMissing { paths }],
        )
    }
}

/// Where everything is there already, nothing is built.
pub open spec fn after_local_check(
    plan: PlanView,
    facts: FactsView,
    missing: Seq<Seq<char>>,
) -> StepView {
    if missing.len() == 0 {
        (
            ClientStageView::Ended,
            seq![
                ClientActionView::ClearPhase,
                ClientActionView::Print {
                    lines: summary::local_lines(plan.installable, facts.outputs),
                },
                ClientActionView::Succeed,
            ],
        )
    } else {
        needs_builder(plan)
    }
}

pub open spec fn greetings(plan: PlanView, node_id: Seq<char>) -> Seq<MessageView> {
    match plan.auth {
        Some(auth) => seq![
            MessageView::Hello { version: VERSION, node_id },
            client::auth_for(auth),
        ],
        None => seq![MessageView::Hello { version: VERSION, node_id }],
    }
}

pub open spec fn authorized_phase(client_name: Option<Seq<char>>) -> Seq<char> {
    match client_name {
        Some(name) => "authorized as "@ + name,
        None => "authorized"@,
    }
}

pub open spec fn request(plan: PlanView, facts: FactsView) -> MessageView {
    MessageView::BuildRequest(
        BuildRequestView {
            installable: plan.installable,
            drv_path: facts.drv_path,
            output_paths: facts.outputs,
            output_mode: plan.output_mode,
            rebuild: plan.rebuild,
        },
    )
}

/// The inputs are there, and the builder builds.
pub open spec fn watches(plan: PlanView) -> StepView {
    (
        ClientStageView::Building,
        match plan.output_mode {
            OutputMode::Nom => seq![
                phase("building via nom"@),
                ClientActionView::ClearPhase,
                ClientActionView::StartLogs { output_mode: plan.output_mode },
                read_any(),
            ],
            OutputMode::Plain => seq![
                phase("building"@),
                ClientActionView::StartLogs { output_mode: plan.output_mode },
                read_any(),
            ],
        },
    )
}

pub open spec fn after_missing(
    plan: PlanView,
    read: path_chunks::ReadStepView,
) -> StepView {
    match read {
        path_chunks::ReadStepView::Failed { error } => fails(error),
        path_chunks::ReadStepView::More { state } => (
            ClientStageView::ReadingMissing { list: state },
            seq![read_list()],
        ),
        path_chunks::ReadStepView::Finished { paths } => if paths.len() == 0 {
            watches(plan)
        } else {
            (ClientStageView::AwaitUploadReady { missing: paths }, seq![read_any()])
        },
    }
}

pub open spec fn uploads(missing: Seq<Seq<char>>) -> StepView {
    match nix::checked_store_paths(missing) {
        Err(error) => (
            ClientStageView::Ended,
            seq![phase("preparing input upload"@), ClientActionView::Fail { error }],
        ),
        Ok(paths) => (
            ClientStageView::Uploading,
            seq![
                phase("preparing input upload"@),
                ClientActionView::Upload {
                    paths,
                    message: "send "@ + summary::counted_paths(paths.len()),
                },
            ],
        ),
    }
}

/// What is said of a build at its end.
pub open spec fn report(
    plan: PlanView,
    facts: FactsView,
    success: bool,
    received_bytes: u64,
) -> ClientActionView {
    ClientActionView::Print {
        lines: summary::build_lines(
            summary::SummaryView {
                server_id: match plan.auth {
                    Some(auth) => client::addr_for(auth).id,
                    None => Seq::empty(),
                },
                installable: plan.installable,
                drv_path: facts.drv_path,
                closure_path_count: facts.closure_path_count,
                missing_path_count: facts.missing_path_count,
                build_success: success,
                output_paths: facts.output_paths,
                received_bytes,
            },
        ),
    }
}

/// The builder says how the build went.
pub open spec fn while_building(
    plan: PlanView,
    facts: FactsView,
    message: MessageView,
    shown: Seq<char>,
) -> StepView {
    match message {
        MessageView::BuildStarted => (ClientStageView::Building, seq![read_any()]),
        MessageView::NixLog { line } => (
            ClientStageView::Building,
            seq![ClientActionView::Log { line }, read_any()],
        ),
        MessageView::BuildFinished { success, .. } => if success {
            (
                ClientStageView::ReadingClosure { list: path_chunks::nothing_read() },
                seq![
                    ClientActionView::FinishLogs { complaint: Some("nom cleanup failed"@) },
                    ClientActionView::ClearPhase,
                    phase("receiving output closure"@),
                    read_list(),
                ],
            )
        } else {
            (
                ClientStageView::Closing { verdict: Err(seq!["remote build failed"@]) },
                seq![
                    ClientActionView::FinishLogs { complaint: None },
                    ClientActionView::ClearPhase,
                    report(plan, facts, false, 0),
                    ClientActionView::Close,
                ],
            )
        },
        MessageView::Error { message } => (
            ClientStageView::Ended,
            seq![
                ClientActionView::FinishLogs {
                    complaint: Some("nom cleanup failed after server error"@),
                },
                ClientActionView::ClearPhase,
                ClientActionView::Fail { error: seq![message] },
            ],
        ),
        _ => fails(proto::unexpected("unexpected server message"@, shown)),
    }
}

pub open spec fn after_closure(read: path_chunks::ReadStepView) -> StepView {
    match read {
        path_chunks::ReadStepView::Failed { error } => fails(error),
        path_chunks::ReadStepView::More { state } => (
            ClientStageView::ReadingClosure { list: state },
            seq![read_list()],
        ),
        path_chunks::ReadStepView::Finished { paths } => match nix::checked_store_paths(paths) {
            Err(error) => (
                ClientStageView::Ended,
                seq![phase("checking local outputs"@), ClientActionView::Fail { error }],
            ),
            Ok(closure) => (
                ClientStageView::CheckingOutputs { closure },
                seq![
                    phase("checking local outputs"@),
                    ClientActionView::FindMissing { paths: closure },
                ],
            ),
        },
    }
}

/// The outputs are there.
pub open spec fn succeeds(plan: PlanView, facts: FactsView, received_bytes: u64) -> StepView {
    (
        ClientStageView::Closing { verdict: Ok(()) },
        seq![
            phase("done"@),
            ClientActionView::ClearPhase,
            report(plan, facts, true, received_bytes),
            ClientActionView::Close,
        ],
    )
}

/// The connection was closed, and the user is told what the build came to.
pub open spec fn is_closed(verdict: Result<(), Seq<Seq<char>>>) -> StepView {
    match verdict {
        Ok(()) => (ClientStageView::Ended, seq![ClientActionView::Succeed]),
        Err(error) => fails(error),
    }
}

/// The builder is told that its cache is not needed any more.
pub open spec fn says_done(import: Result<u64, Seq<Seq<char>>>) -> StepView {
    (
        ClientStageView::AwaitDone { import },
        seq![
            ClientActionView::Send { messages: seq![MessageView::OutputCacheDone] },
            read_any(),
        ],
    )
}

pub open spec fn after_cache_reply(
    plan: PlanView,
    facts: FactsView,
    closure: Seq<Seq<char>>,
    message: MessageView,
    shown: Seq<char>,
) -> StepView {
    match message {
        MessageView::OutputCacheReady { copy_paths, .. } => match nix::checked_store_paths(
            copy_paths,
        ) {
            Err(error) => says_done(Err(error)),
            Ok(copy_paths) => (
                ClientStageView::Importing,
                seq![
                    ClientActionView::Import {
                        builder_public_key: facts.builder_public_key,
                        closure_paths: closure,
                        copy_paths,
                    },
                ],
            ),
        },
        MessageView::Done => succeeds(plan, facts, 0),
        _ => fails(not_expected(message, shown)),
    }
}

/// The error of an import counts more than what came after it.
pub open spec fn import_error(
    import: Result<u64, Seq<Seq<char>>>,
    later: Seq<Seq<char>>,
) -> Seq<Seq<char>> {
    match import {
        Ok(_) => later,
        Err(error) => error,
    }
}

/// What the client knows after something happened.
pub open spec fn learned(
    facts: FactsView,
    stage: ClientStageView,
    event: ClientEventView,
) -> FactsView {
    match (stage, event) {
        (ClientStageView::ResolvingOutputs, ClientEventView::OutputsResolved { paths }) => FactsView {
            outputs: paths,
            ..facts
        },
        (
            ClientStageView::AwaitAuthOk,
            ClientEventView::Received { message: MessageView::AuthOk { builder_public_key, .. }, .. },
        ) => FactsView { builder_public_key, ..facts },
        (
            ClientStageView::ResolvingDerivation,
            ClientEventView::DerivationResolved { drv_path },
        ) => FactsView { drv_path, ..facts },
        (ClientStageView::FindingClosure, ClientEventView::ClosureFound { closure }) => FactsView {
            closure_path_count: closure.len(),
            ..facts
        },
        (
            ClientStageView::ReadingMissing { list },
            ClientEventView::Received { message, shown },
        ) => match path_chunks::read_message(
            list,
            PathListKind::MissingPaths,
            server_list_limits(),
            message,
            shown,
            "unexpected server message"@,
        ) {
            path_chunks::ReadStepView::Finished { paths } => FactsView {
                missing_path_count: paths.len(),
                ..facts
            },
            _ => facts,
        },
        (
            ClientStageView::Building,
            ClientEventView::Received { message: MessageView::BuildFinished { output_paths, .. }, .. },
        ) => FactsView { output_paths, ..facts },
        _ => facts,
    }
}

/// What happens next to a build, and how far it then is. `facts` are what the
/// client knows after what happened.
pub open spec fn client_step(
    plan: PlanView,
    facts: FactsView,
    stage: ClientStageView,
    event: ClientEventView,
) -> StepView {
    match (stage, event) {
        (ClientStageView::Ended, _) => (stage, Seq::empty()),
        (
            ClientStageView::AwaitDone { import },
            ClientEventView::Failed { error },
        ) => fails(import_error(import, error)),
        (_, ClientEventView::Failed { error }) => fails(error),
        (ClientStageView::Closing { verdict }, ClientEventView::Closed) => is_closed(verdict),
        (ClientStageView::Connecting, ClientEventView::TimedOut { cause }) => fails(
            seq!["connect timed out"@, cause],
        ),
        (_, ClientEventView::TimedOut { cause }) => fails(seq!["read timed out"@, cause]),
        (ClientStageView::ResolvingOutputs, ClientEventView::OutputsResolved { paths }) =>
            after_outputs(plan, paths),
        (ClientStageView::CheckingLocal, ClientEventView::MissingFound { missing }) =>
            after_local_check(plan, facts, missing),
        (ClientStageView::Connecting, ClientEventView::Connected { node_id }) => (
            ClientStageView::AwaitAuthOk,
            seq![ClientActionView::Send { messages: greetings(plan, node_id) }, read_any()],
        ),
        (
            ClientStageView::AwaitAuthOk,
            ClientEventView::Received { message, shown },
        ) => match message {
            MessageView::AuthOk { client_name, builder_public_key } => (
                ClientStageView::CheckingTrust,
                seq![
                    phase(authorized_phase(client_name)),
                    phase("checking output import trust"@),
                    ClientActionView::CheckTrust { builder_public_key },
                ],
            ),
            _ => fails(not_expected(message, shown)),
        },
        (ClientStageView::CheckingTrust, ClientEventView::TrustChecked) => (
            ClientStageView::ResolvingDerivation,
            seq![phase("resolving derivation"@), ClientActionView::ResolveDerivation],
        ),
        (
            ClientStageView::ResolvingDerivation,
            ClientEventView::DerivationResolved { drv_path },
        ) => (
            ClientStageView::FindingClosure,
            seq![phase("checking closure"@), ClientActionView::FindClosure { drv_path }],
        ),
        (ClientStageView::FindingClosure, ClientEventView::ClosureFound { closure }) => (
            ClientStageView::AwaitQueued,
            seq![
                ClientActionView::Send { messages: seq![request(plan, facts)] },
                ClientActionView::Send {
                    messages: path_chunks::list_messages(PathListKind::BuildPaths, closure),
                },
                read_any(),
            ],
        ),
        (
            ClientStageView::AwaitQueued,
            ClientEventView::Received { message, shown },
        ) => match message {
            MessageView::BuildQueued => (
                ClientStageView::ReadingMissing { list: path_chunks::nothing_read() },
                seq![phase("queued"@), read_list()],
            ),
            _ => fails(not_expected(message, shown)),
        },
        (
            ClientStageView::ReadingMissing { list },
            ClientEventView::Received { message, shown },
        ) => after_missing(
            plan,
            path_chunks::read_message(
                list,
                PathListKind::MissingPaths,
                server_list_limits(),
                message,
                shown,
                "unexpected server message"@,
            ),
        ),
        (
            ClientStageView::AwaitUploadReady { missing },
            ClientEventView::Received { message, shown },
        ) => match message {
            MessageView::InputUploadReady => uploads(missing),
            _ => fails(not_expected(message, shown)),
        },
        (ClientStageView::Uploading, ClientEventView::Uploaded) => watches(plan),
        (
            ClientStageView::Building,
            ClientEventView::Received { message, shown },
        ) => while_building(plan, facts, message, shown),
        (
            ClientStageView::ReadingClosure { list },
            ClientEventView::Received { message, shown },
        ) => after_closure(
            path_chunks::read_message(
                list,
                PathListKind::OutputClosure,
                server_list_limits(),
                message,
                shown,
                "unexpected server message"@,
            ),
        ),
        (
            ClientStageView::CheckingOutputs { closure },
            ClientEventView::MissingFound { missing },
        ) => (
            ClientStageView::AwaitCache { closure },
            seq![
                ClientActionView::Send {
                    messages: path_chunks::list_messages(PathListKind::OutputRequest, missing),
                },
                phase("waiting for signed output cache"@),
                read_any(),
            ],
        ),
        (
            ClientStageView::AwaitCache { closure },
            ClientEventView::Received { message, shown },
        ) => after_cache_reply(plan, facts, closure, message, shown),
        (ClientStageView::Importing, ClientEventView::Imported { result }) => says_done(result),
        (
            ClientStageView::AwaitDone { import },
            ClientEventView::Received { message, shown },
        ) => match (import, message) {
            (Ok(bytes), MessageView::Done) => succeeds(plan, facts, bytes),
            _ => fails(import_error(import, not_expected(message, shown))),
        },
        _ => (stage, Seq::empty()),
    }
}

// ---------------------------------------------------------------------------
// The machine
// ---------------------------------------------------------------------------

/// Where a step leads.
type Step = (ClientStage, Vec<ClientAction>);

pub open spec fn step_view(step: (ClientStage, Vec<ClientAction>)) -> StepView {
    (step.0@, client_action_views(step.1@))
}

fn show(message: &str) -> (a: ClientAction)
    ensures
        a@ == phase(message@),
{
    ClientAction::Phase { message: message.to_string() }
}

fn await_message() -> (a: ClientAction)
    ensures
        a@ == read_any(),
{
    ClientAction::Read { seconds: None }
}

fn await_list() -> (a: ClientAction)
    ensures
        a@ == read_list(),
{
    ClientAction::Read { seconds: Some(SERVER_PATH_LIST_TIMEOUT_SECS) }
}

fn push(list: &mut Vec<ClientAction>, action: ClientAction)
    ensures
        client_action_views(final(list)@) == client_action_views(old(list)@).push(action@),
{
    let ghost earlier = client_action_views(list@);
    list.push(action);
    assert(client_action_views(list@) =~= earlier.push(action@));
}

fn none() -> (r: Vec<ClientAction>)
    ensures
        client_action_views(r@) == Seq::<ClientActionView>::empty(),
{
    let list: Vec<ClientAction> = Vec::new();
    assert(client_action_views(list@) =~= Seq::<ClientActionView>::empty());
    list
}

fn one(a: ClientAction) -> (r: Vec<ClientAction>)
    ensures
        client_action_views(r@) == seq![a@],
{
    let mut list: Vec<ClientAction> = none();
    push(&mut list, a);
    assert(client_action_views(list@) =~= seq![a@]);
    list
}

fn two(a: ClientAction, b: ClientAction) -> (r: Vec<ClientAction>)
    ensures
        client_action_views(r@) == seq![a@, b@],
{
    let mut list: Vec<ClientAction> = one(a);
    push(&mut list, b);
    assert(client_action_views(list@) =~= seq![a@, b@]);
    list
}

fn three(a: ClientAction, b: ClientAction, c: ClientAction) -> (r: Vec<ClientAction>)
    ensures
        client_action_views(r@) == seq![a@, b@, c@],
{
    let mut list: Vec<ClientAction> = two(a, b);
    push(&mut list, c);
    assert(client_action_views(list@) =~= seq![a@, b@, c@]);
    list
}

fn four(a: ClientAction, b: ClientAction, c: ClientAction, d: ClientAction) -> (r: Vec<
    ClientAction,
>)
    ensures
        client_action_views(r@) == seq![a@, b@, c@, d@],
{
    let mut list: Vec<ClientAction> = three(a, b, c);
    push(&mut list, d);
    assert(client_action_views(list@) =~= seq![a@, b@, c@, d@]);
    list
}

fn fail(error: Error) -> (r: Step)
    ensures
        step_view(r) == fails(error@),
{
    (ClientStage::Ended, one(ClientAction::Fail { error }))
}

fn unexpected_error(message: Message, shown: &str) -> (e: Error)
    ensures
        e@ == not_expected(message@, shown@),
{
    match message {
        Message::Error(err) => Error::new(err.message),
        _ => Error::new(concat3("unexpected server message", ": ", shown)),
    }
}

fn send_one(message: Message) -> (a: ClientAction)
    ensures
        a@ == (ClientActionView::Send { messages: seq![message@] }),
{
    let mut messages: Vec<Message> = Vec::new();
    messages.push(message);
    assert(path_chunks::message_views(messages@) =~= seq![message@]);
    ClientAction::Send { messages }
}

fn send_paths(kind: PathListKind, paths: &[StorePath]) -> (a: ClientAction)
    ensures
        a@ == (ClientActionView::Send {
            messages: path_chunks::list_messages(kind, nix::path_texts(paths@)),
        }),
{
    let texts: Vec<String> = store_paths_to_strings(paths);
    ClientAction::Send { messages: write_messages(kind, texts.as_slice()) }
}

fn ask_builder(plan: &BuildPlan) -> (r: Step)
    ensures
        step_view(r) == needs_builder(plan@),
{
    match &plan.auth {
        None => fail(
            Error::of(
                "build requires either --server or --ticket when requested outputs are missing locally or --rebuild is set",
            ),
        ),
        Some(auth) => (
            ClientStage::Connecting,
            three(
                ClientAction::Bind { key: auth.key_source(&plan.key_file) },
                show("connecting"),
                ClientAction::Connect { addr: auth.server_addr() },
            ),
        ),
    }
}

fn take_outputs(plan: &BuildPlan, paths: Vec<StorePath>) -> (r: Step)
    ensures
        step_view(r) == after_outputs(plan@, nix::path_texts(paths@)),
{
    if plan.rebuild {
        let (stage, rest): Step = ask_builder(plan);
        let mut actions: Vec<ClientAction> = one(show("checking local outputs"));
        let ghost first = client_action_views(actions@);
        let mut rest: Vec<ClientAction> = rest;
        let ghost later = client_action_views(rest@);
        actions.append(&mut rest);
        assert(client_action_views(actions@) =~= first + later);
        return (stage, actions);
    }
    (
        ClientStage::CheckingLocal,
        two(show("checking local outputs"), ClientAction::FindMissing { paths }),
    )
}

fn take_local_check(plan: &BuildPlan, facts: &Facts, missing: &[StorePath]) -> (r: Step)
    ensures
        step_view(r) == after_local_check(plan@, facts@, nix::path_texts(missing@)),
{
    assert(nix::path_texts(missing@).len() == missing@.len());
    if missing.len() == 0 {
        let lines: Vec<String> = local_outputs_text(
            plan.installable.as_str(),
            facts.outputs.as_slice(),
        );
        return (
            ClientStage::Ended,
            three(
                ClientAction::ClearPhase,
                ClientAction::Print { lines },
                ClientAction::Succeed,
            ),
        );
    }
    ask_builder(plan)
}

fn greet(plan: &BuildPlan, node_id: String) -> (r: Vec<Message>)
    ensures
        path_chunks::message_views(r@) == greetings(plan@, node_id@),
{
    let ghost id = node_id@;
    let mut messages: Vec<Message> = Vec::new();
    messages.push(Message::Hello(Hello { version: VERSION, node_id }));
    match &plan.auth {
        Some(auth) => {
            messages.push(auth.message());
        },
        None => {},
    }
    assert(path_chunks::message_views(messages@) =~= greetings(plan@, id));
    messages
}

fn take_auth_reply(message: Message, shown: &str) -> (r: Step)
    ensures
        step_view(r) == (match message@ {
            MessageView::AuthOk { client_name, builder_public_key } => (
                ClientStageView::CheckingTrust,
                seq![
                    phase(authorized_phase(client_name)),
                    phase("checking output import trust"@),
                    ClientActionView::CheckTrust { builder_public_key },
                ],
            ),
            _ => fails(not_expected(message@, shown@)),
        }),
{
    match message {
        Message::AuthOk(auth_ok) => {
            let said: String = match &auth_ok.client_name {
                Some(name) => concat2("authorized as ", name.as_str()),
                None => "authorized".to_string(),
            };
            (
                ClientStage::CheckingTrust,
                three(
                    ClientAction::Phase { message: said },
                    show("checking output import trust"),
                    ClientAction::CheckTrust { builder_public_key: auth_ok.builder_public_key },
                ),
            )
        },
        other => fail(unexpected_error(other, shown)),
    }
}

fn request_message(plan: &BuildPlan, facts: &Facts) -> (m: Message)
    ensures
        m@ == request(plan@, facts@),
{
    Message::BuildRequest(
        BuildRequest {
            installable: plan.installable.clone(),
            drv_path: facts.drv_path.clone(),
            output_paths: clone_strings(facts.outputs.as_slice()),
            output_mode: plan.output_mode,
            rebuild: plan.rebuild,
        },
    )
}

fn watch(plan: &BuildPlan) -> (r: Step)
    ensures
        step_view(r) == watches(plan@),
{
    let logs: ClientAction = ClientAction::StartLogs { output_mode: plan.output_mode };
    match plan.output_mode {
        OutputMode::Nom => (
            ClientStage::Building,
            four(show("building via nom"), ClientAction::ClearPhase, logs, await_message()),
        ),
        OutputMode::Plain => (
            ClientStage::Building,
            three(show("building"), logs, await_message()),
        ),
    }
}

fn take_missing(plan: &BuildPlan, read: ReadStep) -> (r: Step)
    ensures
        step_view(r) == after_missing(plan@, read@),
{
    match read {
        ReadStep::Failed { error } => fail(error),
        ReadStep::More { state } => (
            ClientStage::ReadingMissing { list: state },
            one(await_list()),
        ),
        ReadStep::Finished { paths } => {
            assert(text::texts(paths@).len() == paths@.len());
            if paths.len() == 0 {
                watch(plan)
            } else {
                (ClientStage::AwaitUploadReady { missing: paths }, one(await_message()))
            }
        },
    }
}

fn upload(missing: &[String]) -> (r: Step)
    ensures
        step_view(r) == uploads(text::texts(missing@)),
{
    match store_paths(missing) {
        Err(error) => (
            ClientStage::Ended,
            two(show("preparing input upload"), ClientAction::Fail { error }),
        ),
        Ok(paths) => {
            assert(nix::path_texts(paths@).len() == paths@.len());
            let message: String = concat2("send ", count_paths(paths.len()).as_str());
            (
                ClientStage::Uploading,
                two(show("preparing input upload"), ClientAction::Upload { paths, message }),
            )
        },
    }
}

/// Whether the build has gone to a builder.
pub open spec fn is_remote(stage: ClientStageView) -> bool {
    match stage {
        ClientStageView::ResolvingOutputs => false,
        ClientStageView::CheckingLocal => false,
        ClientStageView::Ended => false,
        _ => true,
    }
}

fn report_build(plan: &BuildPlan, facts: &Facts, success: bool, received_bytes: u64) -> (a:
    ClientAction)
    requires
        plan.auth is Some,
    ensures
        a@ == report(plan@, facts@, success, received_bytes),
{
    match &plan.auth {
        Some(auth) => {
            let lines: Vec<String> = build_text(
                &BuildSummary {
                    server_id: auth.server_addr().id(),
                    installable: plan.installable.clone(),
                    drv_path: facts.drv_path.clone(),
                    closure_path_count: facts.closure_path_count,
                    missing_path_count: facts.missing_path_count,
                    build_success: success,
                    output_paths: clone_strings(facts.output_paths.as_slice()),
                    received_bytes,
                },
            );
            ClientAction::Print { lines }
        },
        None => {
            assert(false);
            ClientAction::Close
        },
    }
}

fn watch_message(plan: &BuildPlan, facts: &Facts, message: Message, shown: &str) -> (r: Step)
    requires
        plan.auth is Some,
    ensures
        step_view(r) == while_building(plan@, facts@, message@, shown@),
{
    match message {
        Message::BuildStarted => (ClientStage::Building, one(await_message())),
        Message::NixLog(log) => (
            ClientStage::Building,
            two(ClientAction::Log { line: log.line }, await_message()),
        ),
        Message::BuildFinished(finished) => {
            if finished.success {
                (
                    ClientStage::ReadingClosure { list: ReadState::new() },
                    four(
                        ClientAction::FinishLogs {
                            complaint: Some("nom cleanup failed".to_string()),
                        },
                        ClientAction::ClearPhase,
                        show("receiving output closure"),
                        await_list(),
                    ),
                )
            } else {
                (
                    ClientStage::Closing { verdict: Err(Error::of("remote build failed")) },
                    four(
                        ClientAction::FinishLogs { complaint: None },
                        ClientAction::ClearPhase,
                        report_build(plan, facts, false, 0),
                        ClientAction::Close,
                    ),
                )
            }
        },
        Message::Error(err) => (
            ClientStage::Ended,
            three(
                ClientAction::FinishLogs {
                    complaint: Some("nom cleanup failed after server error".to_string()),
                },
                ClientAction::ClearPhase,
                ClientAction::Fail { error: Error::new(err.message) },
            ),
        ),
        other => fail(unexpected_error(other, shown)),
    }
}

fn take_closure(read: ReadStep) -> (r: Step)
    ensures
        step_view(r) == after_closure(read@),
{
    match read {
        ReadStep::Failed { error } => fail(error),
        ReadStep::More { state } => (
            ClientStage::ReadingClosure { list: state },
            one(await_list()),
        ),
        ReadStep::Finished { paths } => match store_paths(paths.as_slice()) {
            Err(error) => (
                ClientStage::Ended,
                two(show("checking local outputs"), ClientAction::Fail { error }),
            ),
            Ok(closure) => {
                let wanted: Vec<StorePath> = clone_store_paths(closure.as_slice());
                (
                    ClientStage::CheckingOutputs { closure },
                    two(
                        show("checking local outputs"),
                        ClientAction::FindMissing { paths: wanted },
                    ),
                )
            },
        },
    }
}

fn succeed(plan: &BuildPlan, facts: &Facts, received_bytes: u64) -> (r: Step)
    requires
        plan.auth is Some,
    ensures
        step_view(r) == succeeds(plan@, facts@, received_bytes),
{
    (
        ClientStage::Closing { verdict: Ok(()) },
        four(
            show("done"),
            ClientAction::ClearPhase,
            report_build(plan, facts, true, received_bytes),
            ClientAction::Close,
        ),
    )
}

fn tell_verdict(verdict: Result<(), Error>) -> (r: Step)
    ensures
        step_view(r) == is_closed(error::outcome(verdict)),
{
    match verdict {
        Ok(()) => (ClientStage::Ended, one(ClientAction::Succeed)),
        Err(error) => fail(error),
    }
}

fn say_done(import: Result<u64, Error>) -> (r: Step)
    ensures
        step_view(r) == says_done(error::outcome(import)),
{
    (
        ClientStage::AwaitDone { import },
        two(send_one(Message::OutputCacheDone), await_message()),
    )
}

fn take_cache_reply(
    plan: &BuildPlan,
    facts: &Facts,
    closure: Vec<StorePath>,
    message: Message,
    shown: &str,
) -> (r: Step)
    requires
        plan.auth is Some,
    ensures
        step_view(r) == after_cache_reply(
            plan@,
            facts@,
            nix::path_texts(closure@),
            message@,
            shown@,
        ),
{
    match message {
        Message::OutputCacheReady(cache) => match store_paths(cache.copy_paths.as_slice()) {
            Err(error) => say_done(Err(error)),
            Ok(copy_paths) => (
                ClientStage::Importing,
                one(
                    ClientAction::Import {
                        builder_public_key: facts.builder_public_key.clone(),
                        closure_paths: closure,
                        copy_paths,
                    },
                ),
            ),
        },
        Message::Done => succeed(plan, facts, 0),
        other => fail(unexpected_error(other, shown)),
    }
}

fn take_done(
    plan: &BuildPlan,
    facts: &Facts,
    import: Result<u64, Error>,
    message: Message,
    shown: &str,
) -> (r: Step)
    requires
        plan.auth is Some,
    ensures
        step_view(r) == (match (error::outcome(import), message@) {
            (Ok(bytes), MessageView::Done) => succeeds(plan@, facts@, bytes),
            _ => fails(import_error(error::outcome(import), not_expected(message@, shown@))),
        }),
{
    match import {
        Err(error) => fail(error),
        Ok(bytes) => match message {
            Message::Done => succeed(plan, facts, bytes),
            other => fail(unexpected_error(other, shown)),
        },
    }
}

fn read_server_list(list: ReadState, kind: PathListKind, incoming: Incoming) -> (r: ReadStep)
    ensures
        r@ == path_chunks::read_message(
            list@,
            kind,
            server_list_limits(),
            incoming.message@,
            incoming.shown@,
            "unexpected server message"@,
        ),
{
    let Incoming { message, shown } = incoming;
    list.read(
        kind,
        server_path_list_limits(),
        message,
        shown.as_str(),
        "unexpected server message",
    )
}

/// A build as the client sees it.
pub struct ClientSession {
    plan: BuildPlan,
    facts: Facts,
    stage: ClientStage,
}

/// The view of a build as the client sees it.
pub struct SessionView {
    pub plan: PlanView,
    pub facts: FactsView,
    pub stage: ClientStageView,
}

impl View for ClientSession {
    type V = SessionView;

    closed spec fn view(&self) -> SessionView {
        SessionView { plan: self.plan@, facts: self.facts@, stage: self.stage@ }
    }
}

/// What happens next in a session, and what it then is.
pub open spec fn session_step(s: SessionView, event: ClientEventView) -> (
    SessionView,
    Seq<ClientActionView>,
) {
    let facts = learned(s.facts, s.stage, event);
    let (stage, actions) = client_step(s.plan, facts, s.stage, event);
    (SessionView { plan: s.plan, facts, stage }, actions)
}

impl ClientSession {
    /// A build that has gone to a builder is one that may.
    #[verifier::type_invariant]
    spec fn remote_builds_are_authorized(&self) -> bool {
        is_remote(self.stage@) ==> self.plan.auth is Some
    }

    /// A build begins with the outputs that are wanted.
    pub fn new(plan: BuildPlan) -> (r: (ClientSession, Vec<ClientAction>))
        ensures
            r.0@ == (SessionView {
                plan: plan@,
                facts: no_facts(),
                stage: ClientStageView::ResolvingOutputs,
            }),
            client_action_views(r.1@) == seq![
                phase("resolving outputs"@),
                ClientActionView::ResolveOutputs,
            ],
    {
        let outputs: Vec<String> = Vec::new();
        let output_paths: Vec<String> = Vec::new();
        let empty: String = text::string_of(Vec::<char>::new().as_slice());
        let facts: Facts = Facts {
            outputs,
            builder_public_key: empty.clone(),
            drv_path: empty,
            closure_path_count: 0,
            missing_path_count: 0,
            output_paths,
        };
        assert(text::texts(outputs@) =~= Seq::<Seq<char>>::empty());
        assert(facts@.builder_public_key =~= Seq::<char>::empty());
        (
            ClientSession { plan, facts, stage: ClientStage::ResolvingOutputs },
            two(show("resolving outputs"), ClientAction::ResolveOutputs),
        )
    }

    /// Whether the build is over.
    pub fn has_ended(&self) -> (r: bool)
        ensures
            r == (self@.stage is Ended),
    {
        match &self.stage {
            ClientStage::Ended => true,
            _ => false,
        }
    }

    /// Takes what happened and says what is done next.
    #[verifier::rlimit(40)]
    pub fn step(self, event: ClientEvent) -> (r: (ClientSession, Vec<ClientAction>))
        ensures
            (r.0@, client_action_views(r.1@)) == session_step(self@, event@),
    {
        proof {
            use_type_invariant(&self);
        }
        let ghost before = self@;
        let ClientSession { plan, facts, stage } = self;
        let mut facts: Facts = facts;
        let (stage, actions): Step = match (stage, event) {
            (ClientStage::Ended, _) => (ClientStage::Ended, none()),
            (ClientStage::AwaitDone { import }, ClientEvent::Failed { error }) => match import {
                Ok(_) => fail(error),
                Err(earlier) => fail(earlier),
            },
            (_, ClientEvent::Failed { error }) => fail(error),
            (ClientStage::Closing { verdict }, ClientEvent::Closed) => tell_verdict(verdict),
            (ClientStage::Connecting, ClientEvent::TimedOut { cause }) => fail(
                Error::caused("connect timed out".to_string(), cause),
            ),
            (_, ClientEvent::TimedOut { cause }) => fail(
                Error::caused("read timed out".to_string(), cause),
            ),
            (ClientStage::ResolvingOutputs, ClientEvent::OutputsResolved { paths }) => {
                facts.outputs = store_paths_to_strings(paths.as_slice());
                take_outputs(&plan, paths)
            },
            (ClientStage::CheckingLocal, ClientEvent::MissingFound { missing }) => take_local_check(
                &plan,
                &facts,
                missing.as_slice(),
            ),
            (ClientStage::Connecting, ClientEvent::Connected { node_id }) => (
                ClientStage::AwaitAuthOk,
                two(
                    ClientAction::Send { messages: greet(&plan, node_id) },
                    await_message(),
                ),
            ),
            (ClientStage::AwaitAuthOk, ClientEvent::Received { incoming }) => {
                let Incoming { message, shown } = incoming;
                match &message {
                    Message::AuthOk(auth_ok) => {
                        facts.builder_public_key = auth_ok.builder_public_key.clone();
                    },
                    _ => {},
                }
                take_auth_reply(message, shown.as_str())
            },
            (ClientStage::CheckingTrust, ClientEvent::TrustChecked) => (
                ClientStage::ResolvingDerivation,
                two(show("resolving derivation"), ClientAction::ResolveDerivation),
            ),
            (ClientStage::ResolvingDerivation, ClientEvent::DerivationResolved { drv_path }) => {
                facts.drv_path = drv_path.as_str().to_string();
                (
                    ClientStage::FindingClosure,
                    two(show("checking closure"), ClientAction::FindClosure { drv_path }),
                )
            },
            (ClientStage::FindingClosure, ClientEvent::ClosureFound { closure }) => {
                facts.closure_path_count = closure.len();
                (
                    ClientStage::AwaitQueued,
                    three(
                        send_one(request_message(&plan, &facts)),
                        send_paths(PathListKind::BuildPaths, closure.as_slice()),
                        await_message(),
                    ),
                )
            },
            (ClientStage::AwaitQueued, ClientEvent::Received { incoming }) => {
                let Incoming { message, shown } = incoming;
                match message {
                    Message::BuildQueued => (
                        ClientStage::ReadingMissing { list: ReadState::new() },
                        two(show("queued"), await_list()),
                    ),
                    other => fail(unexpected_error(other, shown.as_str())),
                }
            },
            (ClientStage::ReadingMissing { list }, ClientEvent::Received { incoming }) => {
                let read: ReadStep = read_server_list(list, PathListKind::MissingPaths, incoming);
                match &read {
                    ReadStep::Finished { paths } => {
                        facts.missing_path_count = paths.len();
                    },
                    _ => {},
                }
                take_missing(&plan, read)
            },
            (ClientStage::AwaitUploadReady { missing }, ClientEvent::Received { incoming }) => {
                let Incoming { message, shown } = incoming;
                match message {
                    Message::InputUploadReady => upload(missing.as_slice()),
                    other => fail(unexpected_error(other, shown.as_str())),
                }
            },
            (ClientStage::Uploading, ClientEvent::Uploaded) => watch(&plan),
            (ClientStage::Building, ClientEvent::Received { incoming }) => {
                let Incoming { message, shown } = incoming;
                match &message {
                    Message::BuildFinished(finished) => {
                        facts.output_paths = clone_strings(finished.output_paths.as_slice());
                    },
                    _ => {},
                }
                watch_message(&plan, &facts, message, shown.as_str())
            },
            (ClientStage::ReadingClosure { list }, ClientEvent::Received { incoming }) => {
                take_closure(read_server_list(list, PathListKind::OutputClosure, incoming))
            },
            (ClientStage::CheckingOutputs { closure }, ClientEvent::MissingFound { missing }) => (
                ClientStage::AwaitCache { closure },
                three(
                    send_paths(PathListKind::OutputRequest, missing.as_slice()),
                    show("waiting for signed output cache"),
                    await_message(),
                ),
            ),
            (ClientStage::AwaitCache { closure }, ClientEvent::Received { incoming }) => {
                let Incoming { message, shown } = incoming;
                take_cache_reply(&plan, &facts, closure, message, shown.as_str())
            },
            (ClientStage::Importing, ClientEvent::Imported { result }) => say_done(result),
            (ClientStage::AwaitDone { import }, ClientEvent::Received { incoming }) => {
                let Incoming { message, shown } = incoming;
                take_done(&plan, &facts, import, message, shown.as_str())
            },
            (other, _) => (other, none()),
        };
        assert(facts@ == learned(before.facts, before.stage, event@));
        (ClientSession { plan, facts, stage }, actions)
    }
}

// ---------------------------------------------------------------------------
// Laws
// ---------------------------------------------------------------------------

pub open spec fn new_session(plan: PlanView) -> SessionView {
    SessionView { plan, facts: no_facts(), stage: ClientStageView::ResolvingOutputs }
}

/// What a session is after a series of events.
pub open spec fn session_run(plan: PlanView, events: Seq<ClientEventView>) -> SessionView
    decreases events.len(),
{
    if events.len() == 0 {
        new_session(plan)
    } else {
        session_step(session_run(plan, events.drop_last()), events.last()).0
    }
}

/// What is done at the last of a series of events.
pub open spec fn last_actions(plan: PlanView, events: Seq<ClientEventView>) -> Seq<
    ClientActionView,
> {
    session_step(session_run(plan, events.drop_last()), events.last()).1
}

/// How a build is reported to the user.
pub open spec fn is_verdict(action: ClientActionView) -> bool {
    action is Succeed || action is Fail
}

/// Whatever happens, the user is told once how the build ended: with the step
/// that ends it, as the last that is done.
#[verifier::rlimit(40)]
pub proof fn law_every_build_has_one_verdict(s: SessionView, event: ClientEventView)
    ensures
        ({
            let (after, actions) = session_step(s, event);
            if after.stage is Ended && s.stage !is Ended {
                &&& actions.len() > 0
                &&& is_verdict(actions.last())
                &&& forall|i: int|
                    0 <= i < actions.len() - 1 ==> !is_verdict(#[trigger] actions[i])
            } else {
                forall|i: int| 0 <= i < actions.len() ==> !is_verdict(#[trigger] actions[i])
            }
        }),
{
}

/// The builder said that the build succeeded.
pub open spec fn is_success(event: ClientEventView) -> bool {
    event matches ClientEventView::Received { message, .. }
        && message matches MessageView::BuildFinished { success, .. } && success
}

/// The store was found to lack nothing.
pub open spec fn is_nothing_missing(event: ClientEventView) -> bool {
    event matches ClientEventView::MissingFound { missing } && missing.len() == 0
}

pub open spec fn some_success(events: Seq<ClientEventView>) -> bool {
    exists|i: int| 0 <= i < events.len() && is_success(#[trigger] events[i])
}

/// Whether the builder has built.
pub open spec fn is_built(stage: ClientStageView) -> bool {
    match stage {
        ClientStageView::ReadingClosure { .. } => true,
        ClientStageView::CheckingOutputs { .. } => true,
        ClientStageView::AwaitCache { .. } => true,
        ClientStageView::Importing => true,
        ClientStageView::AwaitDone { .. } => true,
        ClientStageView::Closing { verdict } => verdict is Ok,
        _ => false,
    }
}

/// The builder said that it is done.
pub open spec fn is_done(event: ClientEventView) -> bool {
    event matches ClientEventView::Received { message, .. } && message is Done
}

pub open spec fn some_done(events: Seq<ClientEventView>) -> bool {
    exists|i: int| 0 <= i < events.len() && is_done(#[trigger] events[i])
}

/// At this event an import went well, or the builder, asked for the outputs that
/// are missing, said that it is done.
pub open spec fn is_delivery(plan: PlanView, events: Seq<ClientEventView>, i: int) -> bool {
    match session_run(plan, events.take(i)).stage {
        ClientStageView::Importing => events[i] matches ClientEventView::Imported { result }
            && result is Ok,
        ClientStageView::AwaitCache { .. } => is_done(events[i]),
        _ => false,
    }
}

pub open spec fn some_delivery(plan: PlanView, events: Seq<ClientEventView>) -> bool {
    exists|i: int| 0 <= i < events.len() && #[trigger] is_delivery(plan, events, i)
}

#[verifier::rlimit(40)]
proof fn lemma_plan_stays(plan: PlanView, events: Seq<ClientEventView>)
    ensures
        session_run(plan, events).plan == plan,
    decreases events.len(),
{
    if events.len() > 0 {
        lemma_plan_stays(plan, events.drop_last());
    }
}

#[verifier::rlimit(40)]
proof fn lemma_built_stages(plan: PlanView, events: Seq<ClientEventView>)
    ensures
        is_built(session_run(plan, events).stage) ==> some_success(events),
        session_run(plan, events).stage matches ClientStageView::Closing { verdict } && verdict is Ok
            ==> some_done(events),
    decreases events.len(),
{
    if events.len() > 0 {
        let earlier = events.drop_last();
        let before = session_run(plan, earlier);
        lemma_built_stages(plan, earlier);
        if some_success(earlier) {
            let i = choose|i: int| 0 <= i < earlier.len() && is_success(#[trigger] earlier[i]);
            assert(events[i] == earlier[i]);
        }
        if some_done(earlier) {
            let i = choose|i: int| 0 <= i < earlier.len() && is_done(#[trigger] earlier[i]);
            assert(events[i] == earlier[i]);
        }
        if is_built(session_run(plan, events).stage) && !is_built(before.stage) {
            assert(is_success(events[events.len() - 1]));
        }
        if session_run(plan, events).stage is Closing && before.stage !is Closing {
            if is_built(session_run(plan, events).stage) {
                assert(is_done(events[events.len() - 1]));
            }
        }
    }
}

/// What was delivered stays delivered.
proof fn lemma_delivery_stays(plan: PlanView, events: Seq<ClientEventView>)
    requires
        events.len() > 0,
        some_delivery(plan, events.drop_last()),
    ensures
        some_delivery(plan, events),
{
    let earlier = events.drop_last();
    let i = choose|i: int| 0 <= i < earlier.len() && #[trigger] is_delivery(plan, earlier, i);
    assert(earlier.take(i) =~= events.take(i));
    assert(events[i] == earlier[i]);
    assert(is_delivery(plan, events, i));
}

/// The steps that lead to waiting for the end of a good import, and to closing a
/// build which succeeded.
#[verifier::rlimit(40)]
proof fn lemma_delivery_step(s: SessionView, event: ClientEventView)
    ensures
        session_step(s, event).0.stage matches ClientStageView::AwaitDone { import } && import is Ok
            ==> s.stage == session_step(s, event).0.stage || s.stage is Importing && (
        event matches ClientEventView::Imported { result } && result is Ok),
        session_step(s, event).0.stage matches ClientStageView::Closing { verdict } && verdict is Ok
            ==> s.stage == session_step(s, event).0.stage || s.stage is AwaitCache && is_done(
            event,
        ) || (s.stage matches ClientStageView::AwaitDone { import } && import is Ok),
{
}

/// A build whose import went well, or that succeeded, was delivered.
proof fn lemma_good_ends_are_delivered(plan: PlanView, events: Seq<ClientEventView>)
    ensures
        session_run(plan, events).stage matches ClientStageView::AwaitDone { import } && import is Ok
            ==> some_delivery(plan, events),
        session_run(plan, events).stage matches ClientStageView::Closing { verdict } && verdict is Ok
            ==> some_delivery(plan, events),
    decreases events.len(),
{
    if events.len() > 0 {
        let earlier = events.drop_last();
        let last = events.len() - 1;
        lemma_good_ends_are_delivered(plan, earlier);
        lemma_delivery_step(session_run(plan, earlier), events.last());
        assert(events.take(last) =~= earlier);
        if is_delivery(plan, events, last) {
        } else if some_delivery(plan, earlier) {
            lemma_delivery_stays(plan, events);
        }
    }
}

/// A step calls a build a success at two points only.
#[verifier::rlimit(40)]
proof fn lemma_success_is_told(s: SessionView, event: ClientEventView, k: int)
    requires
        0 <= k < session_step(s, event).1.len(),
        session_step(s, event).1[k] is Succeed,
    ensures
        ({
            ||| s.stage is CheckingLocal && is_nothing_missing(event)
            ||| (s.stage matches ClientStageView::Closing { verdict } && verdict is Ok)
                && event is Closed
        }),
{
}

/// A build is called a success only where its outputs were there already and
/// were not to be built again, or where the builder built them and said that it
/// is done, the import went well unless the builder said so in place of it, and
/// the connection was closed without a fault.
#[verifier::rlimit(40)]
pub proof fn law_successes_are_earned(plan: PlanView, events: Seq<ClientEventView>, k: int)
    requires
        events.len() > 0,
        0 <= k < last_actions(plan, events).len(),
        last_actions(plan, events)[k] is Succeed,
    ensures
        ({
            ||| !plan.rebuild && is_nothing_missing(events.last())
            ||| some_success(events) && some_delivery(plan, events) && some_done(events)
                && events.last() is Closed
        }),
{
    let earlier = events.drop_last();
    let before = session_run(plan, earlier);
    lemma_plan_stays(plan, earlier);
    lemma_built_stages(plan, earlier);
    lemma_local_checks_are_for_builds(plan, earlier);
    lemma_success_is_told(before, events.last(), k);
    lemma_good_ends_are_delivered(plan, earlier);
    if some_delivery(plan, earlier) {
        lemma_delivery_stays(plan, events);
    }
    if some_success(earlier) {
        let i = choose|i: int| 0 <= i < earlier.len() && is_success(#[trigger] earlier[i]);
        assert(events[i] == earlier[i]);
    }
    if some_done(earlier) {
        let i = choose|i: int| 0 <= i < earlier.len() && is_done(#[trigger] earlier[i]);
        assert(events[i] == earlier[i]);
    }
}

/// A build that came to its end, and whose connection could not be closed, fails
/// with the fault of that.
pub proof fn law_faults_of_the_end_are_told(s: SessionView, error: Seq<Seq<char>>)
    requires
        s.stage is Closing,
    ensures
        session_step(s, ClientEventView::Failed { error }) == (
            SessionView { stage: ClientStageView::Ended, ..s },
            seq![ClientActionView::Fail { error }],
        ),
{
}

#[verifier::rlimit(40)]
proof fn lemma_local_checks_are_for_builds(plan: PlanView, events: Seq<ClientEventView>)
    ensures
        session_run(plan, events).stage is CheckingLocal ==> !plan.rebuild,
    decreases events.len(),
{
    if events.len() > 0 {
        let earlier = events.drop_last();
        lemma_local_checks_are_for_builds(plan, earlier);
        lemma_plan_stays(plan, earlier);
    }
}

/// A build whose outputs are all there, and are not to be built again, needs
/// no builder: nobody is connected to, and the build is a success.
pub proof fn law_outputs_that_are_there_need_no_builder(plan: PlanView, paths: Seq<Seq<char>>)
    requires
        !plan.rebuild,
    ensures
        ({
            let (asked, first) = session_step(
                new_session(plan),
                ClientEventView::OutputsResolved { paths },
            );
            let (after, then_done) = session_step(
                asked,
                ClientEventView::MissingFound { missing: Seq::empty() },
            );
            let actions = first + then_done;
            &&& after.stage is Ended
            &&& actions.last() is Succeed
            &&& forall|i: int|
                0 <= i < actions.len() ==> !(#[trigger] actions[i] is Connect || actions[i] is Send)
        }),
{
}

/// A client without a builder fails where outputs are missing or are to be
/// built again, and says what is needed.
pub proof fn law_missing_outputs_need_a_builder(
    plan: PlanView,
    facts: FactsView,
    missing: Seq<Seq<char>>,
)
    requires
        plan.auth is None,
        missing.len() > 0,
    ensures
        client_step(
            plan,
            facts,
            ClientStageView::CheckingLocal,
            ClientEventView::MissingFound { missing },
        ) == needs_builder(plan),
        needs_builder(plan).1.last() is Fail,
        plan.rebuild ==> forall|paths: Seq<Seq<char>>|
            (#[trigger] after_outputs(plan, paths)).1.last() is Fail,
{
}

// ---------------------------------------------------------------------------
// What each step is for
// ---------------------------------------------------------------------------

/// The client uploads all paths that the builder lacks, in one upload, and never
/// uploads anything else.
#[verifier::rlimit(40)]
pub proof fn law_all_that_is_missing_is_uploaded(
    s: SessionView,
    missing: Seq<Seq<char>>,
    shown: Seq<char>,
)
    requires
        s.stage == (ClientStageView::AwaitUploadReady { missing }),
        forall|i: int| 0 <= i < missing.len() ==> nix::is_store_path(#[trigger] missing[i]),
    ensures
        ({
            let (after, actions) = session_step(
                s,
                ClientEventView::Received { message: MessageView::InputUploadReady, shown },
            );
            &&& after.stage is Uploading
            &&& actions.last() matches ClientActionView::Upload { paths, .. } && paths == missing
            &&& forall|k: int|
                0 <= k < actions.len() - 1 ==> (#[trigger] actions[k]) is Phase
        }),
{
    nix::law_store_path_lists_are_accepted(missing);
}

/// Whatever happens, an upload is of the paths that the builder said it lacks.
#[verifier::rlimit(60)]
pub proof fn law_uploads_are_of_what_is_missing(s: SessionView, event: ClientEventView, k: int)
    requires
        0 <= k < session_step(s, event).1.len(),
        session_step(s, event).1[k] is Upload,
    ensures
        s.stage matches ClientStageView::AwaitUploadReady { missing }
            && session_step(s, event).1[k]->Upload_paths == missing,
{
    match s.stage {
        ClientStageView::AwaitUploadReady { missing } => {
            nix::law_store_path_lists_are_accepted(missing);
        },
        _ => {},
    }
}

/// The list that the client keeps of what the builder lacks grows by each piece that
/// comes, and is complete with the last one: up to 512 pieces, 100000 paths and
/// 16 MiB of them.
#[verifier::rlimit(60)]
pub proof fn law_missing_paths_are_collected(
    s: SessionView,
    list: path_chunks::ReadStateView,
    chunk: crate::proto::PathListChunkView,
    shown: Seq<char>,
)
    requires
        s.stage == (ClientStageView::ReadingMissing { list }),
        list.chunks < 512,
        list.paths.len() + chunk.paths.len() <= 100_000,
        list.path_bytes + path_chunks::byte_len(chunk.paths) <= 16_777_216,
    ensures
        ({
            let (after, actions) = session_step(
                s,
                ClientEventView::Received { message: MessageView::MissingPaths(chunk), shown },
            );
            let all = list.paths + chunk.paths;
            &&& chunk.done && all.len() > 0 ==> after.stage == (ClientStageView::AwaitUploadReady {
                missing: all,
            })
            &&& chunk.done && all.len() == 0 ==> after.stage is Building
            &&& chunk.done ==> after.facts == FactsView {
                missing_path_count: all.len(),
                ..s.facts
            }
            &&& !chunk.done ==> (after.stage matches ClientStageView::ReadingMissing { list: longer }
                && longer.paths == all && longer.chunks == list.chunks + 1)
            &&& actions.len() > 0 && actions.last() is Read
        }),
{
}

/// The closure of what was built is collected likewise, and then the store is asked
/// which of it is missing: all of it is asked about.
#[verifier::rlimit(60)]
pub proof fn law_closures_are_collected(
    s: SessionView,
    list: path_chunks::ReadStateView,
    chunk: crate::proto::PathListChunkView,
    shown: Seq<char>,
)
    requires
        s.stage == (ClientStageView::ReadingClosure { list }),
        list.chunks < 512,
        list.paths.len() + chunk.paths.len() <= 100_000,
        list.path_bytes + path_chunks::byte_len(chunk.paths) <= 16_777_216,
        forall|i: int|
            0 <= i < (list.paths + chunk.paths).len() ==> nix::is_store_path(
                #[trigger] (list.paths + chunk.paths)[i],
            ),
    ensures
        ({
            let (after, actions) = session_step(
                s,
                ClientEventView::Received { message: MessageView::OutputClosure(chunk), shown },
            );
            let all = list.paths + chunk.paths;
            &&& chunk.done ==> after.stage == (ClientStageView::CheckingOutputs { closure: all })
            &&& chunk.done ==> actions.last() == (ClientActionView::FindMissing { paths: all })
            &&& !chunk.done ==> (after.stage matches ClientStageView::ReadingClosure { list: longer }
                && longer.paths == all && longer.chunks == list.chunks + 1)
            &&& !chunk.done ==> actions.last() is Read
            &&& after.facts == s.facts
        }),
{
    nix::law_store_path_lists_are_accepted(list.paths + chunk.paths);
}

/// A client that has to build connects to its builder, which is the one that the
/// user named or the one that gave the ticket, and with the key that fits; it
/// greets under its own id, and then says why it may build.
#[verifier::rlimit(40)]
pub proof fn law_clients_go_to_their_builder(
    s: SessionView,
    auth: BuildAuthView,
    paths: Seq<Seq<char>>,
    node_id: Seq<char>,
)
    requires
        s.plan.auth == Some(auth),
        paths.len() > 0,
    ensures
        ({
            let started = SessionView { stage: ClientStageView::CheckingLocal, ..s };
            let (after, actions) = session_step(
                started,
                ClientEventView::MissingFound { missing: paths },
            );
            let first = SessionView { stage: ClientStageView::ResolvingOutputs, ..s };
            let (again, rebuild_actions) = session_step(
                first,
                ClientEventView::OutputsResolved { paths },
            );
            &&& after.stage is Connecting && after.plan == s.plan
            &&& is_way_to_builder(actions, auth, s.plan.key_file)
            &&& s.plan.rebuild ==> again.stage is Connecting && is_way_to_builder(
                rebuild_actions,
                auth,
                s.plan.key_file,
            )
            &&& !s.plan.rebuild ==> again.stage is CheckingLocal && rebuild_actions.last() == (
            ClientActionView::FindMissing { paths })
            &&& again.facts.outputs == paths
        }),
        ({
            let connecting = SessionView { stage: ClientStageView::Connecting, ..s };
            let (after, actions) = session_step(connecting, ClientEventView::Connected { node_id });
            &&& after.stage is AwaitAuthOk
            &&& actions.len() == 2 && actions[1] is Read
            &&& actions[0] matches ClientActionView::Send { messages } && messages.len() == 2
                && messages[0] == (MessageView::Hello { version: VERSION, node_id })
                && messages[1] == (match auth {
                BuildAuthView::TrustedClient { .. } => MessageView::AuthTrustedClient,
                BuildAuthView::Ticket(ticket) => MessageView::AuthTicket { secret: ticket.secret },
            })
        }),
{
}

/// The last that is done is to connect to the builder, after getting ready with the
/// key: the one in the file that was named, or else that of the user for a builder
/// that trusts it, and a fresh one for a ticket.
pub open spec fn is_way_to_builder(
    actions: Seq<ClientActionView>,
    auth: BuildAuthView,
    key_file: Option<Seq<char>>,
) -> bool {
    &&& actions.len() >= 3
    &&& actions[actions.len() - 3] == (ClientActionView::Bind {
        key: if key_file is Some {
            KeySourceView::File { path: key_file->0 }
        } else if auth is Ticket {
            KeySourceView::Fresh
        } else {
            KeySourceView::Default
        },
    })
    &&& actions.last() matches ClientActionView::Connect { addr } && match auth {
        BuildAuthView::TrustedClient { server_id, relay_url } => {
            &&& addr.id == server_id
            &&& addr.direct_addrs.len() == 0
            &&& relay_url is None ==> addr.relay_urls.len() == 0
            &&& relay_url matches Some(url) ==> addr.relay_urls == seq![url]
        },
        BuildAuthView::Ticket(ticket) => addr == ticket.addr,
    }
}

/// An admitted client looks whether it can import what this builder signs, finds the
/// derivation and then its closure, and sends the request: what the user wants
/// built, its derivation and outputs, and the whole closure.
#[verifier::rlimit(60)]
pub proof fn law_requests_say_what_is_wanted(
    s: SessionView,
    client_name: Option<Seq<char>>,
    builder_public_key: Seq<char>,
    drv_path: Seq<char>,
    closure: Seq<Seq<char>>,
    shown: Seq<char>,
)
    ensures
        ({
            let waiting = SessionView { stage: ClientStageView::AwaitAuthOk, ..s };
            let (after, actions) = session_step(
                waiting,
                ClientEventView::Received {
                    message: MessageView::AuthOk { client_name, builder_public_key },
                    shown,
                },
            );
            &&& after.stage is CheckingTrust
            &&& after.facts == FactsView { builder_public_key, ..s.facts }
            &&& actions.last() == (ClientActionView::CheckTrust { builder_public_key })
        }),
        ({
            let checking = SessionView { stage: ClientStageView::CheckingTrust, ..s };
            let (after, actions) = session_step(checking, ClientEventView::TrustChecked);
            &&& after.stage is ResolvingDerivation && after.facts == s.facts
            &&& actions.last() is ResolveDerivation
        }),
        ({
            let resolving = SessionView { stage: ClientStageView::ResolvingDerivation, ..s };
            let (after, actions) = session_step(
                resolving,
                ClientEventView::DerivationResolved { drv_path },
            );
            &&& after.stage is FindingClosure && after.facts == FactsView { drv_path, ..s.facts }
            &&& actions.last() == (ClientActionView::FindClosure { drv_path })
        }),
        ({
            let finding = SessionView { stage: ClientStageView::FindingClosure, ..s };
            let (after, actions) = session_step(finding, ClientEventView::ClosureFound { closure });
            &&& after.stage is AwaitQueued
            &&& after.facts == FactsView { closure_path_count: closure.len(), ..s.facts }
            &&& actions.len() == 3 && actions[2] is Read
            &&& actions[0] matches ClientActionView::Send { messages } && messages == seq![
                MessageView::BuildRequest(
                    BuildRequestView {
                        installable: s.plan.installable,
                        drv_path: s.facts.drv_path,
                        output_paths: s.facts.outputs,
                        output_mode: s.plan.output_mode,
                        rebuild: s.plan.rebuild,
                    },
                ),
            ]
            &&& actions[1] == (ClientActionView::Send {
                messages: path_chunks::list_messages(PathListKind::BuildPaths, closure),
            })
        }),
{
}

/// While the builder builds, the user sees its log line by line. What the builder
/// says it built is kept; a build that failed is reported as such, and one that
/// succeeded goes on with the closure of its outputs.
#[verifier::rlimit(60)]
pub proof fn law_builds_are_watched(
    s: SessionView,
    line: Seq<char>,
    success: bool,
    output_paths: Seq<Seq<char>>,
    shown: Seq<char>,
)
    requires
        s.stage is Building,
    ensures
        ({
            let (after, actions) = session_step(
                s,
                ClientEventView::Received { message: MessageView::NixLog { line }, shown },
            );
            &&& after == s
            &&& actions.len() == 2 && actions[1] is Read
            &&& actions[0] == (ClientActionView::Log { line })
        }),
        ({
            let (after, actions) = session_step(
                s,
                ClientEventView::Received { message: MessageView::BuildStarted, shown },
            );
            after == s && actions.len() == 1 && actions[0] is Read
        }),
        ({
            let (after, actions) = session_step(
                s,
                ClientEventView::Received {
                    message: MessageView::BuildFinished { success, output_paths },
                    shown,
                },
            );
            &&& after.facts == FactsView { output_paths, ..s.facts }
            &&& success ==> after.stage == (ClientStageView::ReadingClosure {
                list: path_chunks::ReadStateView {
                    paths: Seq::empty(),
                    chunks: 0,
                    path_bytes: 0,
                },
            }) && actions.last() is Read
            &&& !success ==> (after.stage matches ClientStageView::Closing { verdict }
                && verdict == Err::<(), Seq<Seq<char>>>(seq!["remote build failed"@]))
                && actions.last() is Close
            &&& actions[0] is FinishLogs
        }),
{
}

/// The client asks the builder for the outputs that its store lacks, all of them and
/// no others.
pub proof fn law_missing_outputs_are_asked_for(
    s: SessionView,
    closure: Seq<Seq<char>>,
    missing: Seq<Seq<char>>,
)
    requires
        s.stage == (ClientStageView::CheckingOutputs { closure }),
    ensures
        ({
            let (after, actions) = session_step(s, ClientEventView::MissingFound { missing });
            &&& after == SessionView { stage: ClientStageView::AwaitCache { closure }, ..s }
            &&& actions[0] == (ClientActionView::Send {
                messages: path_chunks::list_messages(PathListKind::OutputRequest, missing),
            })
            &&& actions.last() is Read
        }),
{
}

/// What the builder has ready is imported, all of it, as signed by the key that the
/// builder gave when it let the client in; the builder is then told that the
/// client is done, whatever came of it, and its farewell ends the build with what
/// came of it.
#[verifier::rlimit(60)]
pub proof fn law_outputs_are_imported(
    s: SessionView,
    closure: Seq<Seq<char>>,
    copy_paths: Seq<Seq<char>>,
    closure_path_count: usize,
    import: Result<u64, Seq<Seq<char>>>,
    shown: Seq<char>,
)
    requires
        forall|i: int| 0 <= i < copy_paths.len() ==> nix::is_store_path(#[trigger] copy_paths[i]),
    ensures
        ({
            let waiting = SessionView { stage: ClientStageView::AwaitCache { closure }, ..s };
            let (after, actions) = session_step(
                waiting,
                ClientEventView::Received {
                    message: MessageView::OutputCacheReady { copy_paths, closure_path_count },
                    shown,
                },
            );
            &&& after == SessionView { stage: ClientStageView::Importing, ..s }
            &&& actions == seq![
                ClientActionView::Import {
                    builder_public_key: s.facts.builder_public_key,
                    closure_paths: closure,
                    copy_paths,
                },
            ]
        }),
        ({
            let importing = SessionView { stage: ClientStageView::Importing, ..s };
            let (after, actions) = session_step(
                importing,
                ClientEventView::Imported { result: import },
            );
            &&& after == SessionView { stage: ClientStageView::AwaitDone { import }, ..s }
            &&& actions == seq![
                ClientActionView::Send { messages: seq![MessageView::OutputCacheDone] },
                ClientActionView::Read { seconds: None },
            ]
        }),
        ({
            let waiting = SessionView { stage: ClientStageView::AwaitDone { import }, ..s };
            let (after, actions) = session_step(
                waiting,
                ClientEventView::Received { message: MessageView::Done, shown },
            );
            match import {
                Ok(received) => {
                    &&& after.stage matches ClientStageView::Closing { verdict } && verdict is Ok
                    &&& actions.last() is Close
                    &&& is_report(actions[actions.len() - 2], s, true, received)
                },
                Err(error) => after.stage is Ended && actions == seq![
                    ClientActionView::Fail { error },
                ],
            }
        }),
{
    nix::law_store_path_lists_are_accepted(copy_paths);
    match import {
        Ok(received) => {
            lemma_report(s, true, received);
        },
        Err(_) => {},
    }
}

/// The user is told of a build: whether it succeeded, of what, with which derivation,
/// how many inputs there were and how many had to be sent, how many bytes came
/// back, and the outputs.
pub open spec fn is_report(
    action: ClientActionView,
    s: SessionView,
    success: bool,
    received: u64,
) -> bool {
    action matches ClientActionView::Print { lines } && {
        let outputs = s.facts.output_paths;
        &&& lines.len() == 12 + outputs.len()
        &&& lines[0] == (if success {
            "drv-thru: build complete"@
        } else {
            "drv-thru: remote build failed"@
        })
        &&& lines[3] == "installable  "@ + s.plan.installable
        &&& lines[4] == "drv          "@ + s.facts.drv_path
        &&& lines[5] == "inputs       "@ + text::decimal(s.facts.missing_path_count)
            + " missing / "@ + (text::decimal(s.facts.closure_path_count) + " "@ + (if
        s.facts.closure_path_count == 1 {
            "path"@
        } else {
            "paths"@
        }))
        &&& lines[7] == (if success {
            "build        succeeded"@
        } else {
            "build        failed; see logs above"@
        })
        &&& lines[8] == "outputs      "@ + (text::decimal(outputs.len()) + " "@ + (if outputs.len()
            == 1 {
            "path"@
        } else {
            "paths"@
        }))
        &&& lines[9] == "received     "@ + crate::human::human_bytes_text(received) + " ("@
            + text::decimal(received as nat) + " bytes)"@
        &&& lines[11] == "output paths:"@
        &&& lines.skip(12) == outputs
    }
}

proof fn lemma_report(s: SessionView, success: bool, received: u64)
    ensures
        is_report(report(s.plan, s.facts, success, received), s, success, received),
{
    let lines = report(s.plan, s.facts, success, received)->lines;
    assert(lines.skip(12) =~= s.facts.output_paths);
}

/// A build that failed on the builder is reported as failed, and one whose outputs
/// need not be imported as complete.
#[verifier::rlimit(60)]
pub proof fn law_builds_are_reported(
    s: SessionView,
    closure: Seq<Seq<char>>,
    output_paths: Seq<Seq<char>>,
    shown: Seq<char>,
)
    ensures
        ({
            let building = SessionView { stage: ClientStageView::Building, ..s };
            let (after, actions) = session_step(
                building,
                ClientEventView::Received {
                    message: MessageView::BuildFinished { success: false, output_paths },
                    shown,
                },
            );
            is_report(actions[actions.len() - 2], after, false, 0)
        }),
        ({
            let waiting = SessionView { stage: ClientStageView::AwaitCache { closure }, ..s };
            let (after, actions) = session_step(
                waiting,
                ClientEventView::Received { message: MessageView::Done, shown },
            );
            &&& after.stage matches ClientStageView::Closing { verdict } && verdict is Ok
            &&& actions.last() is Close
            &&& is_report(actions[actions.len() - 2], s, true, 0)
        }),
{
    lemma_report(s, true, 0);
    let facts = FactsView { output_paths, ..s.facts };
    lemma_report(SessionView { facts, ..s }, false, 0);
}

/// Where the client waits for the builder and the builder says that something went
/// wrong, the build fails with just what the builder said.
#[verifier::rlimit(60)]
pub proof fn law_errors_of_the_builder_are_told(
    s: SessionView,
    message: Seq<char>,
    shown: Seq<char>,
)
    requires
        s.stage is AwaitAuthOk || s.stage is AwaitQueued || s.stage is ReadingMissing
            || s.stage is AwaitUploadReady || s.stage is Building || s.stage is ReadingClosure || s.stage is AwaitCache || (
        s.stage matches ClientStageView::AwaitDone { import } && import is Ok),
    ensures
        ({
            let (after, actions) = session_step(
                s,
                ClientEventView::Received { message: MessageView::Error { message }, shown },
            );
            &&& after.stage is Ended
            &&& actions.len() > 0 && actions.last() == (ClientActionView::Fail {
                error: seq![message],
            })
        }),
{
}

/// A failure ends a build that is not over with that failure, unless an import
/// failed before, which is then told.
#[verifier::rlimit(40)]
pub proof fn law_failures_end_a_build(s: SessionView, error: Seq<Seq<char>>)
    requires
        s.stage !is Ended,
    ensures
        ({
            let (after, actions) = session_step(s, ClientEventView::Failed { error });
            &&& after.stage is Ended
            &&& actions == seq![
                ClientActionView::Fail {
                    error: match s.stage {
                        ClientStageView::AwaitDone { import: Err(earlier) } => earlier,
                        _ => error,
                    },
                },
            ]
        }),
{
}

/// How long a client waits for a builder to answer and to list paths.
pub proof fn law_how_long_a_client_waits()
    ensures
        CONNECT_TIMEOUT_SECS == 30,
        SERVER_PATH_LIST_TIMEOUT_SECS == 10 * 60,
{
}

/// What the client reads of a list from the builder: at most 512 pieces, 100000
/// paths and 16 MiB of them.
pub proof fn law_how_much_a_client_reads()
    ensures
        server_list_limits().chunks == 512,
        server_list_limits().paths == 100_000,
        server_list_limits().bytes == 16 * 1024 * 1024,
        read_list() == (ClientActionView::Read { seconds: Some(600) }),
{
}

/// A build that has to go to a builder but has none is refused, with what the
/// user can do.
pub proof fn law_builds_need_a_builder(s: SessionView, missing: Seq<Seq<char>>)
    requires
        s.stage is CheckingLocal,
        s.plan.auth is None,
        missing.len() > 0,
    ensures
        session_step(s, ClientEventView::MissingFound { missing }).1 == seq![
            ClientActionView::Fail {
                error: seq![
                    "build requires either --server or --ticket when requested outputs are missing locally or --rebuild is set"@,
                ],
            },
        ],
{
}

/// The user sees on what the client is: before the build.
#[verifier::rlimit(60)]
pub proof fn law_the_way_to_a_build_is_shown(
    s: SessionView,
    auth: BuildAuthView,
    paths: Seq<Seq<char>>,
    client_name: Option<Seq<char>>,
    builder_public_key: Seq<char>,
    drv_path: Seq<char>,
    shown: Seq<char>,
)
    requires
        s.plan.auth == Some(auth),
    ensures
        session_step(
            SessionView { stage: ClientStageView::ResolvingOutputs, ..s },
            ClientEventView::OutputsResolved { paths },
        ).1[0] == (ClientActionView::Phase { message: "checking local outputs"@ }),
        paths.len() > 0 ==> session_step(
            SessionView { stage: ClientStageView::CheckingLocal, ..s },
            ClientEventView::MissingFound { missing: paths },
        ).1[1] == (ClientActionView::Phase { message: "connecting"@ }),
        ({
            let actions = session_step(
                SessionView { stage: ClientStageView::AwaitAuthOk, ..s },
                ClientEventView::Received {
                    message: MessageView::AuthOk { client_name, builder_public_key },
                    shown,
                },
            ).1;
            &&& actions[0] == (ClientActionView::Phase {
                message: match client_name {
                    Some(name) => "authorized as "@ + name,
                    None => "authorized"@,
                },
            })
            &&& actions[1] == (ClientActionView::Phase {
                message: "checking output import trust"@,
            })
        }),
        session_step(
            SessionView { stage: ClientStageView::CheckingTrust, ..s },
            ClientEventView::TrustChecked,
        ).1[0] == (ClientActionView::Phase { message: "resolving derivation"@ }),
        session_step(
            SessionView { stage: ClientStageView::ResolvingDerivation, ..s },
            ClientEventView::DerivationResolved { drv_path },
        ).1[0] == (ClientActionView::Phase { message: "checking closure"@ }),
        session_step(
            SessionView { stage: ClientStageView::AwaitQueued, ..s },
            ClientEventView::Received { message: MessageView::BuildQueued, shown },
        ).1 == seq![
            ClientActionView::Phase { message: "queued"@ },
            ClientActionView::Read { seconds: Some(600) },
        ],
{
}

/// The user sees on what the client is: from the upload on.
#[verifier::rlimit(60)]
pub proof fn law_the_way_from_a_build_is_shown(
    s: SessionView,
    missing: Seq<Seq<char>>,
    closure: Seq<Seq<char>>,
    output_paths: Seq<Seq<char>>,
    received: u64,
    message: Seq<char>,
    shown: Seq<char>,
)
    requires
        forall|i: int| 0 <= i < missing.len() ==> nix::is_store_path(#[trigger] missing[i]),
    ensures
        ({
            let actions = session_step(
                SessionView { stage: ClientStageView::AwaitUploadReady { missing }, ..s },
                ClientEventView::Received { message: MessageView::InputUploadReady, shown },
            ).1;
            &&& actions[0] == (ClientActionView::Phase { message: "preparing input upload"@ })
            &&& actions[1] matches ClientActionView::Upload { message: told, .. }
            &&& told == "send "@ + (text::decimal(missing.len()) + " "@ + (if missing.len() == 1 {
                "path"@
            } else {
                "paths"@
            }))
        }),
        s.plan.output_mode is Nom ==> watches(s.plan).1 == seq![
            ClientActionView::Phase { message: "building via nom"@ },
            ClientActionView::ClearPhase,
            ClientActionView::StartLogs { output_mode: OutputMode::Nom },
            ClientActionView::Read { seconds: None },
        ],
        s.plan.output_mode is Plain ==> watches(s.plan).1 == seq![
            ClientActionView::Phase { message: "building"@ },
            ClientActionView::StartLogs { output_mode: OutputMode::Plain },
            ClientActionView::Read { seconds: None },
        ],
        session_step(
            SessionView { stage: ClientStageView::Building, ..s },
            ClientEventView::Received {
                message: MessageView::BuildFinished { success: true, output_paths },
                shown,
            },
        ).1 == seq![
            ClientActionView::FinishLogs { complaint: Some("nom cleanup failed"@) },
            ClientActionView::ClearPhase,
            ClientActionView::Phase { message: "receiving output closure"@ },
            ClientActionView::Read { seconds: Some(600) },
        ],
        session_step(
            SessionView { stage: ClientStageView::Building, ..s },
            ClientEventView::Received { message: MessageView::Error { message }, shown },
        ).1[0] == (ClientActionView::FinishLogs {
            complaint: Some("nom cleanup failed after server error"@),
        }),
        after_closure(path_chunks::ReadStepView::Finished { paths: missing }).1[0] == (
        ClientActionView::Phase { message: "checking local outputs"@ }),
        session_step(
            SessionView { stage: ClientStageView::CheckingOutputs { closure }, ..s },
            ClientEventView::MissingFound { missing },
        ).1[1] == (ClientActionView::Phase { message: "waiting for signed output cache"@ }),
        session_step(
            SessionView { stage: ClientStageView::AwaitDone { import: Ok(received) }, ..s },
            ClientEventView::Received { message: MessageView::Done, shown },
        ).1[0] == (ClientActionView::Phase { message: "done"@ }),
{
    nix::law_store_path_lists_are_accepted(missing);
}

/// A builder that falls silent, or says what only a client says, fails the build,
/// and the user is told.
#[verifier::rlimit(60)]
pub proof fn law_silence_and_nonsense_are_told(
    s: SessionView,
    message: MessageView,
    cause: Seq<char>,
    shown: Seq<char>,
)
    requires
        s.stage is AwaitAuthOk || s.stage is AwaitQueued || s.stage is ReadingMissing
            || s.stage is AwaitUploadReady || s.stage is Building || s.stage is ReadingClosure || s.stage is AwaitCache,
        message is Hello || message is AuthTrustedClient || message is AuthTicket
            || message is BuildRequest || message is BuildPaths || message is OutputRequest
            || message is OutputCacheDone || message is CacheFileRequest,
    ensures
        session_step(s, ClientEventView::Received { message, shown }).1.last() == (
        ClientActionView::Fail { error: seq!["unexpected server message"@ + ": "@ + shown] }),
        session_step(s, ClientEventView::TimedOut { cause }).1 == seq![
            ClientActionView::Fail { error: seq!["read timed out"@, cause] },
        ],
        session_step(
            SessionView { stage: ClientStageView::Connecting, ..s },
            ClientEventView::TimedOut { cause },
        ).1 == seq![ClientActionView::Fail { error: seq!["connect timed out"@, cause] }],
{
}

} // verus!
