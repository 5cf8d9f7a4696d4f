//! A build from the queue to its end.
//!
//! As with the connection before it, the build is a machine: something
//! happens, and the machine says what is done next.

use vstd::prelude::*;

use crate::error::Error;
use crate::nix;
use crate::nix::commands::RealiseResult;
use crate::nix::{clone_store_paths, store_paths_to_strings, StorePath};
use crate::proto;
use crate::proto::{error_message, Incoming, Message, MessageView, OutputCacheReady};
use crate::protocol::path_chunks;
use crate::protocol::path_chunks::{
    write_messages, PathListKind, ReadState, ReadStateView, ReadStep,
};
use crate::server::auth::{AuthorizedConnection, AuthorizedView};
use crate::server::builds;
use crate::server::builds::{
    check_upload_complete, delivered_outputs, finished_message, CheckedBuildRequest,
    CheckedBuildView,
};
use crate::server::connection;
use crate::server::connection::{one, push_action, three, two, Action, ActionView};
use crate::server::output_cache;
use crate::server::output_cache::requested_output_paths;
use crate::server::status::BuildResult;
use crate::server::{path_list_limits, CLIENT_NIX_TIMEOUT_SECS};
use crate::text;

verus! {

/// How far a build is.
pub enum BuildStage {
    /// It waits for its turn.
    Waiting,
    CheckingInputs,
    Uploading,
    Building,
    FindingClosure,
    ReadingRequest { closure: Vec<StorePath>, list: ReadState },
    Serving,
    /// The client wants no more, and what is being served comes to its end.
    Draining,
    /// The client is being told how the build ended.
    Telling { success: bool },
    /// It was noted how the build ended, and the connection is being closed.
    Closing,
    Ended,
}

/// The view of how far a build is.
pub enum BuildStageView {
    Waiting,
    CheckingInputs,
    Uploading,
    Building,
    FindingClosure,
    ReadingRequest { closure: Seq<Seq<char>>, list: ReadStateView },
    Serving,
    Draining,
    Telling { success: bool },
    Closing,
    Ended,
}

impl View for BuildStage {
    type V = BuildStageView;

    open spec fn view(&self) -> BuildStageView {
        match *self {
            BuildStage::Waiting => BuildStageView::Waiting,
            BuildStage::CheckingInputs => BuildStageView::CheckingInputs,
            BuildStage::Uploading => BuildStageView::Uploading,
            BuildStage::Building => BuildStageView::Building,
            BuildStage::FindingClosure => BuildStageView::FindingClosure,
            BuildStage::ReadingRequest { closure, list } => BuildStageView::ReadingRequest {
                closure: nix::path_texts(closure@),
                list: list@,
            },
            BuildStage::Serving => BuildStageView::Serving,
            BuildStage::Draining => BuildStageView::Draining,
            BuildStage::Telling { success } => BuildStageView::Telling { success },
            BuildStage::Closing => BuildStageView::Closing,
            BuildStage::Ended => BuildStageView::Ended,
        }
    }
}

/// What happens to a build.
pub enum BuildEvent {
    /// It is the build's turn.
    Permitted,
    QueueClosed,
    /// The store lacks these paths.
    InputsChecked { missing: Vec<StorePath> },
    /// The upload came, and the store still lacks these paths.
    Uploaded { still_missing: Vec<StorePath> },
    Realised { result: RealiseResult },
    ClosureFound { closure: Vec<StorePath> },
    Received { incoming: Incoming },
    /// What was being served came to its end.
    Served,
    /// All that was to be done was done.
    Performed,
    TimedOut,
    /// Something that was to be done failed.
    Failed { error: Error },
}

/// The view of what happens to a build.
pub enum BuildEventView {
    Permitted,
    QueueClosed,
    InputsChecked { missing: Seq<Seq<char>> },
    Uploaded { still_missing: Seq<Seq<char>> },
    Realised { success: bool, output_paths: Seq<Seq<char>> },
    ClosureFound { closure: Seq<Seq<char>> },
    Received { message: MessageView, shown: Seq<char> },
    Served,
    Performed,
    TimedOut,
    Failed { error: Seq<Seq<char>> },
}

impl View for BuildEvent {
    type V = BuildEventView;

    open spec fn view(&self) -> BuildEventView {
        match *self {
            BuildEvent::Permitted => BuildEventView::Permitted,
            BuildEvent::QueueClosed => BuildEventView::QueueClosed,
            BuildEvent::InputsChecked { missing } => BuildEventView::InputsChecked {
                missing: nix::path_texts(missing@),
            },
            BuildEvent::Uploaded { still_missing } => BuildEventView::Uploaded {
                still_missing: nix::path_texts(still_missing@),
            },
            BuildEvent::Realised { result } => BuildEventView::Realised {
                success: result.success,
                output_paths: nix::path_texts(result.output_paths@),
            },
            BuildEvent::ClosureFound { closure } => BuildEventView::ClosureFound {
                closure: nix::path_texts(closure@),
            },
            BuildEvent::Received { incoming } => BuildEventView::Received {
                message: incoming.message@,
                shown: incoming.shown@,
            },
            BuildEvent::Served => BuildEventView::Served,
            BuildEvent::Performed => BuildEventView::Performed,
            BuildEvent::TimedOut => BuildEventView::TimedOut,
            BuildEvent::Failed { error } => BuildEventView::Failed { error: error@ },
        }
    }
}

// ---------------------------------------------------------------------------
// The model
// ---------------------------------------------------------------------------

pub open spec fn sends(messages: Seq<MessageView>) -> Seq<ActionView> {
    Seq::new(messages.len(), |i: int| ActionView::Send { message: messages[i] })
}

/// The build ends with an error, which the client is told.
pub open spec fn failed(fault: Seq<char>) -> (BuildStageView, Seq<ActionView>) {
    (
        BuildStageView::Closing,
        seq![
            ActionView::Finish { result: BuildResult::Error, fault: Some(fault) },
            ActionView::Send { message: MessageView::Error { message: fault } },
            ActionView::Close,
        ],
    )
}

/// The inputs are there, and the build begins.
pub open spec fn building(build: CheckedBuildView, authorized: AuthorizedView) -> Seq<ActionView> {
    seq![
        ActionView::Phase {
            phase: if build.rebuild {
                "rebuilding"@
            } else {
                "building"@
            },
        },
        ActionView::Send { message: MessageView::BuildStarted },
        ActionView::Realise {
            drv_path: build.drv_path,
            output_mode: build.output_mode,
            rebuild: build.rebuild,
            max_seconds: authorized.max_build_time,
        },
    ]
}

/// What the client is told of the inputs: what is missing is asked for, and
/// where nothing is, the build begins.
pub open spec fn after_check(
    build: CheckedBuildView,
    authorized: AuthorizedView,
    missing: Seq<Seq<char>>,
) -> (BuildStageView, Seq<ActionView>) {
    let told = sends(path_chunks::list_messages(PathListKind::MissingPaths, missing));
    if missing.len() == 0 {
        (BuildStageView::Building, told + building(build, authorized))
    } else {
        (
            BuildStageView::Uploading,
            told + seq![
                ActionView::Phase { phase: "uploading inputs"@ },
                ActionView::Send { message: MessageView::InputUploadReady },
                ActionView::ReceiveUpload { missing, max_bytes: authorized.max_upload_bytes },
            ],
        )
    }
}

/// Where the end of a build leads.
pub open spec fn after_build(
    build: CheckedBuildView,
    success: bool,
    realised: Seq<Seq<char>>,
) -> (BuildStageView, Seq<ActionView>) {
    match builds::delivered(success, build.output_paths, realised) {
        Err(error) => failed(error[0]),
        Ok(outputs) => {
            let told = ActionView::Send {
                message: MessageView::BuildFinished { success, output_paths: outputs },
            };
            if success {
                (
                    BuildStageView::FindingClosure,
                    seq![
                        told,
                        ActionView::Phase { phase: "serving output cache"@ },
                        ActionView::FindClosure { paths: outputs },
                    ],
                )
            } else {
                (BuildStageView::Telling { success: false }, seq![told])
            }
        },
    }
}

/// The client has all that it wants.
pub open spec fn all_served() -> (BuildStageView, Seq<ActionView>) {
    (
        BuildStageView::Telling { success: true },
        seq![ActionView::Send { message: MessageView::Done }],
    )
}

/// Where a message on the outputs that the client wants leads.
pub open spec fn after_request(
    closure: Seq<Seq<char>>,
    read: path_chunks::ReadStepView,
) -> (BuildStageView, Seq<ActionView>) {
    match read {
        path_chunks::ReadStepView::Failed { error } => failed(error[0]),
        path_chunks::ReadStepView::More { state } => (
            BuildStageView::ReadingRequest { closure, list: state },
            seq![ActionView::Read { seconds: CLIENT_NIX_TIMEOUT_SECS }],
        ),
        path_chunks::ReadStepView::Finished { paths } => match output_cache::requested_paths(
            paths,
            closure,
        ) {
            Err(error) => failed(error[0]),
            Ok(requested) => if requested.len() == 0 {
                all_served()
            } else {
                (
                    BuildStageView::Serving,
                    seq![
                        ActionView::Send {
                            message: MessageView::OutputCacheReady {
                                copy_paths: requested,
                                closure_path_count: closure.len() as usize,
                            },
                        },
                        ActionView::Serve { closure, requested },
                    ],
                )
            },
        },
    }
}

/// Why a build that took too long failed.
pub open spec fn timeout_fault(stage: BuildStageView) -> Seq<char> {
    match stage {
        BuildStageView::Uploading => "input upload timed out"@,
        BuildStageView::Building => "build timed out"@,
        _ => "read timed out"@,
    }
}

/// What happens next to a build, and how far it then is.
pub open spec fn build_step(
    stage: BuildStageView,
    event: BuildEventView,
    build: CheckedBuildView,
    authorized: AuthorizedView,
) -> (BuildStageView, Seq<ActionView>) {
    match (stage, event) {
        (BuildStageView::Ended, _) => (stage, Seq::empty()),
        (BuildStageView::Closing, BuildEventView::Failed { error }) => (
            BuildStageView::Ended,
            seq![ActionView::Abort { error }],
        ),
        (BuildStageView::Closing, BuildEventView::Performed) => (
            BuildStageView::Ended,
            Seq::empty(),
        ),
        (BuildStageView::Closing, _) => (stage, Seq::empty()),
        (BuildStageView::Waiting, BuildEventView::Failed { error }) => (
            BuildStageView::Ended,
            seq![
                ActionView::Finish { result: BuildResult::Error, fault: Some(error[0]) },
                ActionView::Abort { error },
            ],
        ),
        (_, BuildEventView::Failed { error }) => failed(error[0]),
        (_, BuildEventView::TimedOut) => failed(timeout_fault(stage)),
        (BuildStageView::Waiting, BuildEventView::QueueClosed) => failed("build queue is closed"@),
        (BuildStageView::Waiting, BuildEventView::Permitted) => (
            BuildStageView::CheckingInputs,
            seq![
                ActionView::Start,
                ActionView::Phase { phase: "checking inputs"@ },
                ActionView::FindMissing { paths: build.closure_paths },
            ],
        ),
        (
            BuildStageView::CheckingInputs,
            BuildEventView::InputsChecked { missing },
        ) => after_check(build, authorized, missing),
        (
            BuildStageView::Uploading,
            BuildEventView::Uploaded { still_missing },
        ) => match builds::upload_incomplete(still_missing) {
            Some(fault) => failed(fault),
            None => (BuildStageView::Building, building(build, authorized)),
        },
        (
            BuildStageView::Building,
            BuildEventView::Realised { success, output_paths },
        ) => after_build(build, success, output_paths),
        (BuildStageView::FindingClosure, BuildEventView::ClosureFound { closure }) => (
            BuildStageView::ReadingRequest { closure, list: path_chunks::nothing_read() },
            sends(path_chunks::list_messages(PathListKind::OutputClosure, closure)).push(
                ActionView::Read { seconds: CLIENT_NIX_TIMEOUT_SECS },
            ),
        ),
        (
            BuildStageView::ReadingRequest { closure, list },
            BuildEventView::Received { message, shown },
        ) => after_request(
            closure,
            path_chunks::read_message(
                list,
                PathListKind::OutputRequest,
                connection::list_limits(),
                message,
                shown,
                "unexpected path list message"@,
            ),
        ),
        (
            BuildStageView::Serving,
            BuildEventView::Received { message, shown },
        ) => match message {
            MessageView::OutputCacheDone => (
                BuildStageView::Draining,
                seq![ActionView::FinishServing],
            ),
            MessageView::Error { message } => failed(message),
            _ => failed("unexpected output cache message: "@ + shown),
        },
        (BuildStageView::Draining, BuildEventView::Served) => all_served(),
        (BuildStageView::Telling { success }, BuildEventView::Performed) => (
            BuildStageView::Closing,
            seq![
                if success {
                    ActionView::Finish { result: BuildResult::Success, fault: None }
                } else {
                    ActionView::Finish {
                        result: BuildResult::Failed,
                        fault: Some("nix build failed"@),
                    }
                },
                ActionView::Close,
            ],
        ),
        _ => (stage, Seq::empty()),
    }
}

/// What is done when a build was accepted.
pub open spec fn queueing(build: CheckedBuildView, authorized: AuthorizedView) -> Seq<ActionView> {
    seq![
        ActionView::Enqueue {
            client_label: authorized.client_label,
            installable: build.installable,
        },
        ActionView::Send { message: MessageView::BuildQueued },
        ActionView::Acquire,
    ]
}

// ---------------------------------------------------------------------------
// The machine
// ---------------------------------------------------------------------------

/// A build that was accepted.
pub struct QueuedBuild {
    pub authorized: AuthorizedConnection,
    pub build: CheckedBuildRequest,
    pub stage: BuildStage,
}

fn send_list(kind: PathListKind, paths: &[StorePath]) -> (r: Vec<Action>)
    ensures
        connection::action_views(r@) == sends(
            path_chunks::list_messages(kind, nix::path_texts(paths@)),
        ),
{
    let texts: Vec<String> = store_paths_to_strings(paths);
    let mut messages: Vec<Message> = write_messages(kind, texts.as_slice());
    let ghost all = path_chunks::list_messages(kind, nix::path_texts(paths@));
    let mut reversed: Vec<Message> = Vec::new();
    assert(path_chunks::message_views(messages@) == all);
    assert(messages@.len() == all.len());
    while messages.len() > 0
        invariant
            messages@.len() + reversed@.len() == all.len(),
            path_chunks::message_views(messages@) == all.take(messages@.len() as int),
            forall|i: int|
                0 <= i < reversed@.len() ==> (#[trigger] reversed@[i])@ == all[all.len() - 1 - i],
        decreases messages@.len(),
    {
        let ghost n = messages@.len() as int;
        assert(path_chunks::message_views(messages@)[n - 1] == all[n - 1]);
        match messages.pop() {
            Some(message) => reversed.push(message),
            None => {},
        }
        assert(path_chunks::message_views(messages@) =~= all.take(n - 1));
    }
    let mut out: Vec<Action> = Vec::new();
    while reversed.len() > 0
        invariant
            reversed@.len() + out@.len() == all.len(),
            forall|i: int|
                0 <= i < reversed@.len() ==> (#[trigger] reversed@[i])@ == all[all.len() - 1 - i],
            forall|i: int|
                0 <= i < out@.len() ==> (#[trigger] out@[i])@ == (ActionView::Send {
                    message: all[i],
                }),
        decreases reversed@.len(),
    {
        let ghost n = reversed@.len() as int;
        assert(reversed@[n - 1]@ == all[all.len() - n]);
        match reversed.pop() {
            Some(message) => out.push(Action::Send { message }),
            None => {},
        }
    }
    assert(connection::action_views(out@) =~= sends(all));
    out
}

fn fail(fault: String) -> (r: (BuildStage, Vec<Action>))
    ensures
        (r.0@, connection::action_views(r.1@)) == failed(fault@),
{
    let message: Message = error_message(fault.as_str());
    (
        BuildStage::Closing,
        three(
            Action::Finish { result: BuildResult::Error, fault: Some(fault) },
            Action::Send { message },
            Action::Close,
        ),
    )
}

fn say_done() -> (r: (BuildStage, Vec<Action>))
    ensures
        (r.0@, connection::action_views(r.1@)) == all_served(),
{
    (BuildStage::Telling { success: true }, one(Action::Send { message: Message::Done }))
}

fn nothing(stage: BuildStage) -> (r: (BuildStage, Vec<Action>))
    ensures
        (r.0@, connection::action_views(r.1@)) == (stage@, Seq::<ActionView>::empty()),
{
    let list: Vec<Action> = Vec::new();
    assert(connection::action_views(list@) =~= Seq::<ActionView>::empty());
    (stage, list)
}

fn push_building(
    actions: &mut Vec<Action>,
    build: &CheckedBuildRequest,
    authorized: &AuthorizedConnection,
)
    ensures
        connection::action_views(final(actions)@) == connection::action_views(old(actions)@)
            + building(build@, authorized@),
{
    let ghost before = connection::action_views(actions@);
    let phase: String = if build.rebuild {
        "rebuilding".to_string()
    } else {
        "building".to_string()
    };
    push_action(actions, Action::Phase { phase });
    push_action(actions, Action::Send { message: Message::BuildStarted });
    push_action(
        actions,
        Action::Realise {
            drv_path: build.drv_path.clone(),
            output_mode: build.output_mode,
            rebuild: build.rebuild,
            max_seconds: authorized.max_build_time,
        },
    );
    assert(connection::action_views(actions@) =~= before + building(build@, authorized@));
}

fn check_inputs(
    build: &CheckedBuildRequest,
    authorized: &AuthorizedConnection,
    missing: Vec<StorePath>,
) -> (r: (BuildStage, Vec<Action>))
    ensures
        (r.0@, connection::action_views(r.1@)) == after_check(
            build@,
            authorized@,
            nix::path_texts(missing@),
        ),
{
    let mut actions: Vec<Action> = send_list(PathListKind::MissingPaths, missing.as_slice());
    let ghost told = connection::action_views(actions@);
    assert(nix::path_texts(missing@).len() == missing@.len());
    if missing.len() == 0 {
        push_building(&mut actions, build, authorized);
        return (BuildStage::Building, actions);
    }
    push_action(&mut actions, Action::Phase { phase: "uploading inputs".to_string() });
    push_action(&mut actions, Action::Send { message: Message::InputUploadReady });
    let ghost wanted = nix::path_texts(missing@);
    push_action(
        &mut actions,
        Action::ReceiveUpload { missing, max_bytes: authorized.max_upload_bytes },
    );
    assert(connection::action_views(actions@) =~= told + seq![
        ActionView::Phase { phase: "uploading inputs"@ },
        ActionView::Send { message: MessageView::InputUploadReady },
        ActionView::ReceiveUpload { missing: wanted, max_bytes: authorized@.max_upload_bytes },
    ]);
    (BuildStage::Uploading, actions)
}

fn end_build(build: &CheckedBuildRequest, result: &RealiseResult) -> (r: (BuildStage, Vec<Action>))
    ensures
        (r.0@, connection::action_views(r.1@)) == after_build(
            build@,
            result.success,
            nix::path_texts(result.output_paths@),
        ),
{
    let outputs: Vec<StorePath> = match delivered_outputs(result, build.output_paths.as_slice()) {
        Ok(outputs) => outputs,
        Err(error) => {
            return fail(error.message());
        },
    };
    let message: Message = finished_message(result.success, outputs.as_slice());
    if result.success {
        (
            BuildStage::FindingClosure,
            three(
                Action::Send { message },
                Action::Phase { phase: "serving output cache".to_string() },
                Action::FindClosure { paths: outputs },
            ),
        )
    } else {
        (BuildStage::Telling { success: false }, one(Action::Send { message }))
    }
}

fn read_request(closure: Vec<StorePath>, read: ReadStep) -> (r: (BuildStage, Vec<Action>))
    ensures
        (r.0@, connection::action_views(r.1@)) == after_request(nix::path_texts(closure@), read@),
{
    match read {
        ReadStep::Failed { error } => fail(error.message()),
        ReadStep::More { state } => (
            BuildStage::ReadingRequest { closure, list: state },
            one(Action::Read { seconds: CLIENT_NIX_TIMEOUT_SECS }),
        ),
        ReadStep::Finished { paths } => match requested_output_paths(
            paths.as_slice(),
            closure.as_slice(),
        ) {
            Err(error) => fail(error.message()),
            Ok(requested) => {
                assert(nix::path_texts(requested@).len() == requested@.len());
                if requested.len() == 0 {
                    return say_done();
                }
                let message: Message = Message::OutputCacheReady(
                    OutputCacheReady {
                        copy_paths: store_paths_to_strings(requested.as_slice()),
                        closure_path_count: closure.len(),
                    },
                );
                assert(nix::path_texts(closure@).len() as usize == closure@.len());
                (
                    BuildStage::Serving,
                    two(Action::Send { message }, Action::Serve { closure, requested }),
                )
            },
        },
    }
}

fn while_serving(incoming: Incoming) -> (r: (BuildStage, Vec<Action>))
    ensures
        (r.0@, connection::action_views(r.1@)) == (match incoming.message@ {
            MessageView::OutputCacheDone => (
                BuildStageView::Draining,
                seq![ActionView::FinishServing],
            ),
            MessageView::Error { message } => failed(message),
            _ => failed("unexpected output cache message: "@ + incoming.shown@),
        }),
{
    let Incoming { message, shown } = incoming;
    match message {
        Message::OutputCacheDone => (BuildStage::Draining, one(Action::FinishServing)),
        Message::Error(err) => fail(err.message),
        _ => fail(text::concat2("unexpected output cache message: ", shown.as_str())),
    }
}

fn conclude(success: bool) -> (r: (BuildStage, Vec<Action>))
    ensures
        forall|build: CheckedBuildView, authorized: AuthorizedView|
            (r.0@, connection::action_views(r.1@)) == #[trigger] build_step(
                BuildStageView::Telling { success },
                BuildEventView::Performed,
                build,
                authorized,
            ),
{
    let finish: Action = if success {
        Action::Finish { result: BuildResult::Success, fault: None }
    } else {
        Action::Finish {
            result: BuildResult::Failed,
            fault: Some("nix build failed".to_string()),
        }
    };
    (BuildStage::Closing, two(finish, Action::Close))
}

impl QueuedBuild {
    /// A build that was accepted goes into the queue.
    pub fn new(authorized: AuthorizedConnection, build: CheckedBuildRequest) -> (r: (
        QueuedBuild,
        Vec<Action>,
    ))
        ensures
            r.0.authorized == authorized,
            r.0.build == build,
            r.0.stage@ == BuildStageView::Waiting,
            connection::action_views(r.1@) == queueing(build@, authorized@),
    {
        let actions: Vec<Action> = three(
            Action::Enqueue {
                client_label: authorized.client_label.clone(),
                installable: build.installable.clone(),
            },
            Action::Send { message: Message::BuildQueued },
            Action::Acquire,
        );
        (QueuedBuild { authorized, build, stage: BuildStage::Waiting }, actions)
    }

    /// Takes what happened and says what is done next.
    #[verifier::rlimit(40)]
    pub fn step(self, event: BuildEvent) -> (r: (QueuedBuild, Vec<Action>))
        ensures
            r.0.authorized == self.authorized,
            r.0.build == self.build,
            (r.0.stage@, connection::action_views(r.1@)) == build_step(
                self.stage@,
                event@,
                self.build@,
                self.authorized@,
            ),
    {
        let QueuedBuild { authorized, build, stage } = self;
        let (stage, actions): (BuildStage, Vec<Action>) = match (stage, event) {
            (BuildStage::Ended, _) => nothing(BuildStage::Ended),
            (BuildStage::Closing, BuildEvent::Failed { error }) => (
                BuildStage::Ended,
                one(Action::Abort { error }),
            ),
            (BuildStage::Closing, BuildEvent::Performed) => nothing(BuildStage::Ended),
            (BuildStage::Closing, _) => nothing(BuildStage::Closing),
            (BuildStage::Waiting, BuildEvent::Failed { error }) => (
                BuildStage::Ended,
                two(
                    Action::Finish { result: BuildResult::Error, fault: Some(error.message()) },
                    Action::Abort { error },
                ),
            ),
            (_, BuildEvent::Failed { error }) => fail(error.message()),
            (BuildStage::Uploading, BuildEvent::TimedOut) => fail(
                "input upload timed out".to_string(),
            ),
            (BuildStage::Building, BuildEvent::TimedOut) => fail("build timed out".to_string()),
            (_, BuildEvent::TimedOut) => fail("read timed out".to_string()),
            (BuildStage::Waiting, BuildEvent::QueueClosed) => fail(
                "build queue is closed".to_string(),
            ),
            (BuildStage::Waiting, BuildEvent::Permitted) => (
                BuildStage::CheckingInputs,
                three(
                    Action::Start,
                    Action::Phase { phase: "checking inputs".to_string() },
                    Action::FindMissing {
                        paths: clone_store_paths(build.closure_paths.as_slice()),
                    },
                ),
            ),
            (BuildStage::CheckingInputs, BuildEvent::InputsChecked { missing }) => check_inputs(
                &build,
                &authorized,
                missing,
            ),
            (
                BuildStage::Uploading,
                BuildEvent::Uploaded { still_missing },
            ) => match check_upload_complete(still_missing.as_slice()) {
                Err(error) => fail(error.message()),
                Ok(()) => {
                    let mut actions: Vec<Action> = Vec::new();
                    push_building(&mut actions, &build, &authorized);
                    assert(connection::action_views(actions@) =~= building(build@, authorized@));
                    (BuildStage::Building, actions)
                },
            },
            (BuildStage::Building, BuildEvent::Realised { result }) => end_build(&build, &result),
            (BuildStage::FindingClosure, BuildEvent::ClosureFound { closure }) => {
                let mut actions: Vec<Action> = send_list(
                    PathListKind::OutputClosure,
                    closure.as_slice(),
                );
                push_action(&mut actions, Action::Read { seconds: CLIENT_NIX_TIMEOUT_SECS });
                (BuildStage::ReadingRequest { closure, list: ReadState::new() }, actions)
            },
            (BuildStage::ReadingRequest { closure, list }, BuildEvent::Received { incoming }) => {
                let Incoming { message, shown } = incoming;
                let read: ReadStep = list.read(
                    PathListKind::OutputRequest,
                    path_list_limits(),
                    message,
                    shown.as_str(),
                    "unexpected path list message",
                );
                read_request(closure, read)
            },
            (BuildStage::Serving, BuildEvent::Received { incoming }) => while_serving(incoming),
            (BuildStage::Draining, BuildEvent::Served) => say_done(),
            (BuildStage::Telling { success }, BuildEvent::Performed) => conclude(success),
            (other, _) => nothing(other),
        };
        (QueuedBuild { authorized, build, stage }, actions)
    }
}

// ---------------------------------------------------------------------------
// Laws
// ---------------------------------------------------------------------------

/// How far a build is after a series of events.
pub open spec fn build_run(
    events: Seq<BuildEventView>,
    build: CheckedBuildView,
    authorized: AuthorizedView,
) -> BuildStageView
    decreases events.len(),
{
    if events.len() == 0 {
        BuildStageView::Waiting
    } else {
        build_step(
            build_run(events.drop_last(), build, authorized),
            events.last(),
            build,
            authorized,
        ).0
    }
}

/// All that was done for a build over a series of events.
pub open spec fn build_trace(
    events: Seq<BuildEventView>,
    build: CheckedBuildView,
    authorized: AuthorizedView,
) -> Seq<ActionView>
    decreases events.len(),
{
    if events.len() == 0 {
        queueing(build, authorized)
    } else {
        build_trace(events.drop_last(), build, authorized) + build_step(
            build_run(events.drop_last(), build, authorized),
            events.last(),
            build,
            authorized,
        ).1
    }
}

/// How often it was noted how a build ended.
pub open spec fn finish_count(actions: Seq<ActionView>) -> nat
    decreases actions.len(),
{
    if actions.len() == 0 {
        0
    } else {
        finish_count(actions.drop_last()) + (if actions.last() is Finish {
            1nat
        } else {
            0nat
        })
    }
}

proof fn lemma_finish_count_concat(a: Seq<ActionView>, b: Seq<ActionView>)
    ensures
        finish_count(a + b) == finish_count(a) + finish_count(b),
    decreases b.len(),
{
    if b.len() == 0 {
        assert(a + b =~= a);
    } else {
        assert((a + b).drop_last() =~= a + b.drop_last());
        lemma_finish_count_concat(a, b.drop_last());
    }
}

proof fn lemma_no_finish(actions: Seq<ActionView>)
    requires
        forall|i: int| 0 <= i < actions.len() ==> !(#[trigger] actions[i] is Finish),
    ensures
        finish_count(actions) == 0,
    decreases actions.len(),
{
    if actions.len() > 0 {
        lemma_no_finish(actions.drop_last());
    }
}

/// The end of a build is noted first of all, and once.
proof fn lemma_finish_first(actions: Seq<ActionView>)
    requires
        actions.len() > 0,
        actions[0] is Finish,
        forall|i: int| 1 <= i < actions.len() ==> !(#[trigger] actions[i] is Finish),
    ensures
        finish_count(actions) == 1,
{
    let rest = actions.skip(1);
    assert(actions =~= seq![actions[0]] + rest);
    lemma_finish_count_concat(seq![actions[0]], rest);
    lemma_no_finish(rest);
    assert(seq![actions[0]].drop_last() =~= Seq::<ActionView>::empty());
    reveal_with_fuel(finish_count, 2);
}

/// It was noted how the build ended.
pub open spec fn is_over(stage: BuildStageView) -> bool {
    stage is Closing || stage is Ended
}

/// A step notes the end of a build exactly where the build ends with it.
#[verifier::rlimit(40)]
proof fn lemma_step_finishes(
    stage: BuildStageView,
    event: BuildEventView,
    build: CheckedBuildView,
    authorized: AuthorizedView,
)
    ensures
        ({
            let (after, actions) = build_step(stage, event, build, authorized);
            finish_count(actions) == (if is_over(after) && !is_over(stage) {
                1nat
            } else {
                0nat
            })
        }),
{
    let (after, actions) = build_step(stage, event, build, authorized);
    if is_over(after) && !is_over(stage) {
        lemma_finish_first(actions);
    } else {
        match (stage, event) {
            (BuildStageView::CheckingInputs, BuildEventView::InputsChecked { missing }) => {
                let told = sends(path_chunks::list_messages(PathListKind::MissingPaths, missing));
                let rest = actions.skip(told.len() as int);
                assert(actions =~= told + rest);
                lemma_finish_count_concat(told, rest);
                lemma_no_finish(told);
                lemma_no_finish(rest);
            },
            (BuildStageView::FindingClosure, BuildEventView::ClosureFound { closure }) => {
                let told = sends(path_chunks::list_messages(PathListKind::OutputClosure, closure));
                assert(actions.drop_last() =~= told);
                lemma_no_finish(told);
            },
            _ => {
                lemma_no_finish(actions);
            },
        }
    }
}

/// Whatever happens, the end of a build is noted exactly once: when the build
/// is over, and not before.
#[verifier::rlimit(40)]
pub proof fn law_the_end_of_a_build_is_noted_once(
    events: Seq<BuildEventView>,
    build: CheckedBuildView,
    authorized: AuthorizedView,
)
    ensures
        finish_count(build_trace(events, build, authorized)) == (if is_over(
            build_run(events, build, authorized),
        ) {
            1nat
        } else {
            0nat
        }),
    decreases events.len(),
{
    if events.len() == 0 {
        lemma_no_finish(queueing(build, authorized));
    } else {
        let earlier = events.drop_last();
        let stage = build_run(earlier, build, authorized);
        let (after, actions) = build_step(stage, events.last(), build, authorized);
        law_the_end_of_a_build_is_noted_once(earlier, build, authorized);
        lemma_finish_count_concat(build_trace(earlier, build, authorized), actions);
        lemma_step_finishes(stage, events.last(), build, authorized);
    }
}

/// The store was found to have all that a build needs.
pub open spec fn inputs_are_there(event: BuildEventView) -> bool {
    match event {
        BuildEventView::InputsChecked { missing } => missing.len() == 0,
        BuildEventView::Uploaded { still_missing } => still_missing.len() == 0,
        _ => false,
    }
}

/// A build is run only where its inputs were just found to be there.
#[verifier::rlimit(40)]
proof fn lemma_run_builds_are_complete(
    stage: BuildStageView,
    event: BuildEventView,
    build: CheckedBuildView,
    authorized: AuthorizedView,
    k: int,
)
    requires
        0 <= k < build_step(stage, event, build, authorized).1.len(),
        build_step(stage, event, build, authorized).1[k] is Realise,
    ensures
        inputs_are_there(event),
        build_step(stage, event, build, authorized).1[k] == (ActionView::Realise {
            drv_path: build.drv_path,
            output_mode: build.output_mode,
            rebuild: build.rebuild,
            max_seconds: authorized.max_build_time,
        }),
{
    match (stage, event) {
        (BuildStageView::CheckingInputs, BuildEventView::InputsChecked { .. }) => {},
        (BuildStageView::FindingClosure, BuildEventView::ClosureFound { .. }) => {},
        _ => {},
    }
}

/// It was the build's turn.
pub open spec fn was_permitted(events: Seq<BuildEventView>) -> bool {
    exists|i: int| 0 <= i < events.len() && (#[trigger] events[i]) is Permitted
}

/// A build gets beyond the queue only when it is its turn.
#[verifier::rlimit(40)]
proof fn lemma_builds_wait_for_their_turn(
    events: Seq<BuildEventView>,
    build: CheckedBuildView,
    authorized: AuthorizedView,
)
    ensures
        build_run(events, build, authorized) is Waiting || is_over(
            build_run(events, build, authorized),
        ) || was_permitted(events),
    decreases events.len(),
{
    if events.len() > 0 {
        let earlier = events.drop_last();
        lemma_builds_wait_for_their_turn(earlier, build, authorized);
        assert(events[events.len() - 1] == events.last());
        if was_permitted(earlier) {
            let i = choose|i: int| 0 <= i < earlier.len() && (#[trigger] earlier[i]) is Permitted;
            assert(events[i] == earlier[i]);
        }
    }
}

/// Nothing is built before it is the build's turn and, after that, the store was
/// found to have all inputs; nothing is built but the derivation that was asked
/// for, and for no longer than the client may.
#[verifier::rlimit(40)]
pub proof fn law_only_complete_builds_are_run(
    events: Seq<BuildEventView>,
    build: CheckedBuildView,
    authorized: AuthorizedView,
    k: int,
)
    requires
        0 <= k < build_trace(events, build, authorized).len(),
        build_trace(events, build, authorized)[k] is Realise,
    ensures
        exists|turn: int, i: int|
            0 <= turn < i < events.len() && (#[trigger] events[turn]) is Permitted
                && inputs_are_there(#[trigger] events[i]),
        build_trace(events, build, authorized)[k] == (ActionView::Realise {
            drv_path: build.drv_path,
            output_mode: build.output_mode,
            rebuild: build.rebuild,
            max_seconds: authorized.max_build_time,
        }),
    decreases events.len(),
{
    if events.len() > 0 {
        let earlier = events.drop_last();
        let trace = build_trace(earlier, build, authorized);
        if k < trace.len() {
            law_only_complete_builds_are_run(earlier, build, authorized, k);
            let (turn, i) = choose|turn: int, i: int|
                0 <= turn < i < earlier.len() && (#[trigger] earlier[turn]) is Permitted
                    && inputs_are_there(#[trigger] earlier[i]);
            assert(events[turn] == earlier[turn]);
            assert(events[i] == earlier[i]);
        } else {
            lemma_builds_wait_for_their_turn(earlier, build, authorized);
            lemma_run_builds_are_complete(
                build_run(earlier, build, authorized),
                events.last(),
                build,
                authorized,
                k - trace.len(),
            );
            assert(inputs_are_there(events[events.len() - 1]));
            let turn = choose|turn: int|
                0 <= turn < earlier.len() && (#[trigger] earlier[turn]) is Permitted;
            assert(events[turn] == earlier[turn]);
        }
    }
}

/// The build succeeded with all outputs that were asked for.
pub open spec fn is_complete_success(event: BuildEventView, build: CheckedBuildView) -> bool {
    event matches BuildEventView::Realised { success, output_paths } && success && forall|i: int|
        0 <= i < build.output_paths.len() ==> output_paths.contains(
            #[trigger] build.output_paths[i],
        )
}

pub open spec fn succeeded(events: Seq<BuildEventView>, build: CheckedBuildView) -> bool {
    exists|i: int| 0 <= i < events.len() && is_complete_success(#[trigger] events[i], build)
}

/// What has happened to a build that is so far.
pub open spec fn stage_is_earned(
    stage: BuildStageView,
    events: Seq<BuildEventView>,
    build: CheckedBuildView,
) -> bool {
    match stage {
        BuildStageView::FindingClosure => succeeded(events, build),
        BuildStageView::ReadingRequest { .. } => succeeded(events, build),
        BuildStageView::Serving => succeeded(events, build),
        BuildStageView::Draining => succeeded(events, build),
        BuildStageView::Telling { success } => success ==> succeeded(events, build),
        _ => true,
    }
}

#[verifier::rlimit(40)]
proof fn lemma_stages_are_earned(
    events: Seq<BuildEventView>,
    build: CheckedBuildView,
    authorized: AuthorizedView,
)
    ensures
        stage_is_earned(build_run(events, build, authorized), events, build),
    decreases events.len(),
{
    if events.len() > 0 {
        let earlier = events.drop_last();
        lemma_stages_are_earned(earlier, build, authorized);
        if succeeded(earlier, build) {
            let i = choose|i: int|
                0 <= i < earlier.len() && is_complete_success(#[trigger] earlier[i], build);
            assert(events[i] == earlier[i]);
        }
        match (build_run(earlier, build, authorized), events.last()) {
            (BuildStageView::Building, BuildEventView::Realised { success, output_paths }) => {
                builds::law_delivered_outputs_were_asked_for(
                    success,
                    build.output_paths,
                    output_paths,
                );
                if build_run(events, build, authorized) is FindingClosure {
                    assert(is_complete_success(events[events.len() - 1], build));
                }
            },
            _ => {},
        }
    }
}

/// Only a build whose client was told so is noted as a success.
#[verifier::rlimit(40)]
proof fn lemma_success_was_told(
    stage: BuildStageView,
    event: BuildEventView,
    build: CheckedBuildView,
    authorized: AuthorizedView,
    k: int,
)
    requires
        0 <= k < build_step(stage, event, build, authorized).1.len(),
        build_step(stage, event, build, authorized).1[k] == (ActionView::Finish {
            result: BuildResult::Success,
            fault: None,
        }),
    ensures
        stage == (BuildStageView::Telling { success: true }),
{
    match (stage, event) {
        (BuildStageView::CheckingInputs, BuildEventView::InputsChecked { .. }) => {},
        (BuildStageView::FindingClosure, BuildEventView::ClosureFound { .. }) => {},
        _ => {},
    }
}

/// Where the client cannot be told the end of a build, or the connection cannot
/// be closed, the connection ends with the fault of that.
pub proof fn law_faults_of_the_end_are_told(
    error: Seq<Seq<char>>,
    build: CheckedBuildView,
    authorized: AuthorizedView,
)
    ensures
        build_step(
            BuildStageView::Closing,
            BuildEventView::Failed { error },
            build,
            authorized,
        ) == (BuildStageView::Ended, seq![ActionView::Abort { error }]),
{
}

/// A build is noted as a success only where Nix built it and realised all
/// outputs that were asked for.
#[verifier::rlimit(40)]
pub proof fn law_successes_are_complete(
    events: Seq<BuildEventView>,
    build: CheckedBuildView,
    authorized: AuthorizedView,
    k: int,
)
    requires
        0 <= k < build_trace(events, build, authorized).len(),
        build_trace(events, build, authorized)[k] == (ActionView::Finish {
            result: BuildResult::Success,
            fault: None,
        }),
    ensures
        succeeded(events, build),
    decreases events.len(),
{
    if events.len() > 0 {
        let earlier = events.drop_last();
        let trace = build_trace(earlier, build, authorized);
        if k < trace.len() {
            law_successes_are_complete(earlier, build, authorized, k);
        } else {
            lemma_stages_are_earned(earlier, build, authorized);
            lemma_success_was_told(
                build_run(earlier, build, authorized),
                events.last(),
                build,
                authorized,
                k - trace.len(),
            );
        }
        let i = choose|i: int|
            0 <= i < earlier.len() && is_complete_success(#[trigger] earlier[i], build);
        assert(events[i] == earlier[i]);
    }
}

// ---------------------------------------------------------------------------
// What each step is for
// ---------------------------------------------------------------------------

/// A build that was accepted is put into the queue under the name of its client, the
/// client hears so, and the build waits for its turn.
pub proof fn law_accepted_builds_are_queued(build: CheckedBuildView, authorized: AuthorizedView)
    ensures
        ({
            let actions = queueing(build, authorized);
            &&& actions.len() == 3
            &&& actions[0] == (ActionView::Enqueue {
                client_label: authorized.client_label,
                installable: build.installable,
            })
            &&& actions[1] == (ActionView::Send { message: MessageView::BuildQueued })
            &&& actions[2] is Acquire
        }),
{
}

/// A build whose turn it is has the whole closure looked up in the store.
pub proof fn law_all_inputs_are_checked(build: CheckedBuildView, authorized: AuthorizedView)
    ensures
        ({
            let (stage, actions) = build_step(
                BuildStageView::Waiting,
                BuildEventView::Permitted,
                build,
                authorized,
            );
            &&& stage is CheckingInputs
            &&& actions.len() == 3 && actions[0] is Start
            &&& actions.last() == (ActionView::FindMissing { paths: build.closure_paths })
        }),
        build_step(BuildStageView::Waiting, BuildEventView::QueueClosed, build, authorized).1[0] == (
        ActionView::Finish {
            result: BuildResult::Error,
            fault: Some("build queue is closed"@),
        }),
{
}

/// The last that is done is to build the derivation of the request as it was asked
/// for, for as long as the client may.
pub open spec fn begins_build(
    actions: Seq<ActionView>,
    build: CheckedBuildView,
    authorized: AuthorizedView,
) -> bool {
    &&& actions.len() >= 2
    &&& actions[actions.len() - 2] == (ActionView::Send { message: MessageView::BuildStarted })
    &&& actions.last() == (ActionView::Realise {
        drv_path: build.drv_path,
        output_mode: build.output_mode,
        rebuild: build.rebuild,
        max_seconds: authorized.max_build_time,
    })
}

/// The client is told of all inputs that are missing. Where there are some, it is
/// asked to upload them, as many bytes as it may; where there are none, the build
/// begins.
pub proof fn law_missing_inputs_are_asked_for(
    missing: Seq<Seq<char>>,
    build: CheckedBuildView,
    authorized: AuthorizedView,
)
    ensures
        ({
            let (stage, actions) = build_step(
                BuildStageView::CheckingInputs,
                BuildEventView::InputsChecked { missing },
                build,
                authorized,
            );
            let told = path_chunks::list_messages(PathListKind::MissingPaths, missing);
            &&& actions.len() > told.len()
            &&& forall|i: int|
                0 <= i < told.len() ==> (#[trigger] actions[i]) == (ActionView::Send {
                    message: told[i],
                })
            &&& missing.len() == 0 ==> stage is Building && begins_build(actions, build, authorized)
            &&& missing.len() > 0 ==> {
                &&& stage is Uploading
                &&& actions[actions.len() - 2] == (ActionView::Send {
                    message: MessageView::InputUploadReady,
                })
                &&& actions.last() == (ActionView::ReceiveUpload {
                    missing,
                    max_bytes: authorized.max_upload_bytes,
                })
            }
        }),
{
}

/// A build begins after an upload exactly where nothing is missing any more.
pub proof fn law_uploads_lead_to_builds(
    still_missing: Seq<Seq<char>>,
    build: CheckedBuildView,
    authorized: AuthorizedView,
)
    ensures
        ({
            let (stage, actions) = build_step(
                BuildStageView::Uploading,
                BuildEventView::Uploaded { still_missing },
                build,
                authorized,
            );
            &&& still_missing.len() == 0 ==> stage is Building && begins_build(
                actions,
                build,
                authorized,
            )
            &&& still_missing.len() > 0 ==> stage is Closing && is_told_fault(
                actions,
                "missing paths after import: "@ + text::decimal(still_missing.len()),
            )
        }),
{
}

/// The end of a build is noted as an error, which the client is told.
pub open spec fn is_told_fault(actions: Seq<ActionView>, fault: Seq<char>) -> bool {
    &&& actions.len() == 3
    &&& actions[0] == (ActionView::Finish { result: BuildResult::Error, fault: Some(fault) })
    &&& actions[1] == (ActionView::Send { message: MessageView::Error { message: fault } })
    &&& actions[2] is Close
}

/// A client hears whether its build succeeded, and of a build that did, of all outputs
/// that it asked for, whose closure is then found. Of a build that failed it hears
/// just that.
pub proof fn law_outputs_are_announced(
    success: bool,
    realised: Seq<Seq<char>>,
    build: CheckedBuildView,
    authorized: AuthorizedView,
)
    requires
        forall|i: int|
            0 <= i < build.output_paths.len() ==> realised.contains(
                #[trigger] build.output_paths[i],
            ),
    ensures
        ({
            let (stage, actions) = build_step(
                BuildStageView::Building,
                BuildEventView::Realised { success, output_paths: realised },
                build,
                authorized,
            );
            &&& actions.len() > 0
            &&& success ==> {
                &&& stage is FindingClosure
                &&& actions[0] == (ActionView::Send {
                    message: MessageView::BuildFinished {
                        success: true,
                        output_paths: build.output_paths,
                    },
                })
                &&& actions.last() == (ActionView::FindClosure { paths: build.output_paths })
            }
            &&& !success ==> {
                &&& stage == (BuildStageView::Telling { success: false })
                &&& actions.len() == 1
                &&& actions[0] matches ActionView::Send { message }
                    && message matches MessageView::BuildFinished { success: told, output_paths }
                    && !told && output_paths.len() == 0
            }
        }),
{
    builds::law_realised_outputs_are_delivered(build.output_paths, realised);
    builds::law_delivered_outputs_were_asked_for(false, build.output_paths, realised);
}

/// The client is told the whole closure of its outputs, and may then ask for any of
/// it.
pub proof fn law_closures_are_announced(
    closure: Seq<Seq<char>>,
    build: CheckedBuildView,
    authorized: AuthorizedView,
)
    ensures
        ({
            let (stage, actions) = build_step(
                BuildStageView::FindingClosure,
                BuildEventView::ClosureFound { closure },
                build,
                authorized,
            );
            let told = path_chunks::list_messages(PathListKind::OutputClosure, closure);
            &&& stage matches BuildStageView::ReadingRequest { closure: kept, list } && kept == closure
                && list.paths.len() == 0 && list.chunks == 0 && list.path_bytes == 0
            &&& actions.len() == told.len() + 1 && actions.last() is Read
            &&& forall|i: int|
                0 <= i < told.len() ==> (#[trigger] actions[i]) == (ActionView::Send {
                    message: told[i],
                })
        }),
{
}

/// What the client asks for of the closure is served, each path once: all of it and
/// nothing else. A client that asks for nothing is sent away, and one that asks
/// for what was not built is refused.
pub proof fn law_requested_outputs_are_served(
    closure: Seq<Seq<char>>,
    list: path_chunks::ReadStateView,
    chunk: proto::PathListChunkView,
    shown: Seq<char>,
    build: CheckedBuildView,
    authorized: AuthorizedView,
)
    requires
        list.chunks < 512,
        list.paths.len() + chunk.paths.len() <= 100_000,
        list.path_bytes + path_chunks::byte_len(chunk.paths) <= 16_777_216,
    ensures
        ({
            let (stage, actions) = build_step(
                BuildStageView::ReadingRequest { closure, list },
                BuildEventView::Received { message: MessageView::OutputRequest(chunk), shown },
                build,
                authorized,
            );
            let all = list.paths + chunk.paths;
            let allowed = forall|i: int|
                0 <= i < all.len() ==> nix::is_store_path(#[trigger] all[i]) && closure.contains(
                    all[i],
                );
            &&& !chunk.done ==> (stage matches BuildStageView::ReadingRequest {
                closure: kept,
                list: longer,
            } && kept == closure && longer.paths == all) && actions.len() == 1 && actions[0] is Read
            &&& chunk.done && all.len() == 0 ==> stage == (BuildStageView::Telling {
                success: true,
            }) && actions == seq![ActionView::Send { message: MessageView::Done }]
            &&& chunk.done && all.len() > 0 && allowed ==> {
                &&& stage is Serving
                &&& actions.len() == 2
                &&& actions[0] matches ActionView::Send { message }
                    && message matches MessageView::OutputCacheReady { copy_paths, .. }
                    && copy_paths.no_duplicates() && copy_paths.to_set() == all.to_set()
                    && actions[1] == (ActionView::Serve { closure, requested: copy_paths })
            }
            &&& chunk.done && !allowed ==> stage is Closing && actions[0] is Finish
        }),
{
    let all = list.paths + chunk.paths;
    output_cache::law_requested_paths_were_built(all, closure);
    crate::nix::commands::law_distinct(all);
    if forall|i: int|
        0 <= i < all.len() ==> nix::is_store_path(#[trigger] all[i]) && closure.contains(all[i]) {
        assert forall|i: int| 0 <= i < all.len() implies output_cache::request_fault(
            #[trigger] all[i],
            closure,
        ) is None by {
            nix::law_store_paths_are_accepted(all[i]);
        }
    }
    if all.len() > 0 {
        assert(all.contains(all[0]));
        assert(all.to_set().contains(all[0]));
        assert(crate::nix::commands::distinct(all).to_set().contains(all[0]));
    }
}

/// A served client that says it is done is bidden farewell once all was served, and
/// the build is then noted as what it was.
pub proof fn law_served_builds_end(
    success: bool,
    message: Seq<char>,
    shown: Seq<char>,
    build: CheckedBuildView,
    authorized: AuthorizedView,
)
    ensures
        build_step(
            BuildStageView::Serving,
            BuildEventView::Received { message: MessageView::OutputCacheDone, shown },
            build,
            authorized,
        ) == (BuildStageView::Draining, seq![ActionView::FinishServing]),
        build_step(BuildStageView::Draining, BuildEventView::Served, build, authorized) == (
            BuildStageView::Telling { success: true },
            seq![ActionView::Send { message: MessageView::Done }],
        ),
        build_step(
            BuildStageView::Telling { success },
            BuildEventView::Performed,
            build,
            authorized,
        ) == (
            BuildStageView::Closing,
            seq![
                ActionView::Finish {
                    result: if success {
                        BuildResult::Success
                    } else {
                        BuildResult::Failed
                    },
                    fault: if success {
                        None
                    } else {
                        Some("nix build failed"@)
                    },
                },
                ActionView::Close,
            ],
        ),
        ({
            let (stage, actions) = build_step(
                BuildStageView::Serving,
                BuildEventView::Received { message: MessageView::Error { message }, shown },
                build,
                authorized,
            );
            stage is Closing && is_told_fault(actions, message)
        }),
{
}

/// Whatever goes wrong with a build that is under way, the client is told what, and
/// the build is noted as an error.
pub proof fn law_faults_of_builds_are_told(
    stage: BuildStageView,
    error: Seq<Seq<char>>,
    build: CheckedBuildView,
    authorized: AuthorizedView,
)
    requires
        stage !is Waiting && stage !is Closing && stage !is Ended,
    ensures
        ({
            let (after, actions) = build_step(
                stage,
                BuildEventView::Failed { error },
                build,
                authorized,
            );
            after is Closing && is_told_fault(actions, error[0])
        }),
        ({
            let (after, actions) = build_step(stage, BuildEventView::TimedOut, build, authorized);
            after is Closing && is_told_fault(
                actions,
                if stage is Uploading {
                    "input upload timed out"@
                } else if stage is Building {
                    "build timed out"@
                } else {
                    "read timed out"@
                },
            )
        }),
{
}

/// What the builder is doing for a build is told as it goes on.
pub proof fn law_phases_of_builds_are_told(
    build: CheckedBuildView,
    authorized: AuthorizedView,
    missing: Seq<Seq<char>>,
    shown: Seq<char>,
    message: MessageView,
)
    ensures
        build_step(BuildStageView::Waiting, BuildEventView::Permitted, build, authorized).1[1] == (
        ActionView::Phase { phase: "checking inputs"@ }),
        building(build, authorized)[0] == (ActionView::Phase {
            phase: if build.rebuild {
                "rebuilding"@
            } else {
                "building"@
            },
        }),
        missing.len() > 0 ==> ({
            let actions = build_step(
                BuildStageView::CheckingInputs,
                BuildEventView::InputsChecked { missing },
                build,
                authorized,
            ).1;
            &&& actions[actions.len() - 3] == (ActionView::Phase { phase: "uploading inputs"@ })
            &&& actions[actions.len() - 2] == (ActionView::Send {
                message: MessageView::InputUploadReady,
            })
        }),
        builds::delivered(true, build.output_paths, missing) is Ok ==> build_step(
            BuildStageView::Building,
            BuildEventView::Realised { success: true, output_paths: missing },
            build,
            authorized,
        ).1[1] == (ActionView::Phase { phase: "serving output cache"@ }),
        message !is OutputCacheDone && message !is Error ==> build_step(
            BuildStageView::Serving,
            BuildEventView::Received { message, shown },
            build,
            authorized,
        ) == failed("unexpected output cache message: "@ + shown),
{
}

/// A message that is no part of a list of outputs fails the build, with what it
/// was.
pub proof fn law_other_messages_are_no_request(
    build: CheckedBuildView,
    authorized: AuthorizedView,
    closure: Seq<Seq<char>>,
    list: path_chunks::ReadStateView,
    message: MessageView,
    shown: Seq<char>,
)
    requires
        message !is OutputRequest,
        message !is Error,
    ensures
        build_step(
            BuildStageView::ReadingRequest { closure, list },
            BuildEventView::Received { message, shown },
            build,
            authorized,
        ) == failed("unexpected path list message"@ + ": "@ + shown),
{
}

} // verus!
