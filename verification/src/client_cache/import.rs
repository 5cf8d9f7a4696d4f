//! An import of outputs from the builder's cache, step by step.

use vstd::prelude::*;

use crate::client_cache;
use crate::client_cache::mirror;
use crate::client_cache::mirror::{
    parallel_nar_fetches, plan_mirror, NarinfoFetch, NarinfoFetchView,
};
use crate::client_cache::{choose_output_import_method, import_result, OutputImportMethod};
use crate::error;
use crate::error::Error;
use crate::import_helper::{
    HelperSocketStatus, ImportRequest, ImportRequestView, DEFAULT_SOCKET_PATH,
};
use crate::nix;
use crate::nix::commands::SignedCacheImportTrust;
use crate::nix::{clone_store_paths, store_paths_to_strings, StorePath};
use crate::text;

verus! {

// ---------------------------------------------------------------------------
// What is done, and what happens
// ---------------------------------------------------------------------------

/// What is done next.
pub enum ImportAction {
    /// Show what is going on.
    Phase { message: String },
    /// See whether Nix trusts outputs that a key signed.
    CheckTrust { builder_public_key: String },
    /// See whether there is a helper.
    InspectHelper { socket: String },
    /// Show what comes.
    StartTransfer { message: String },
    /// Copy files of the builder's cache into a directory, so many archives at
    /// once.
    Mirror { plan: Vec<NarinfoFetch>, archives: usize, nar_fetches: usize },
    /// Serve the directory on this machine.
    StartServer { dir: String },
    /// Have Nix copy paths from what is served.
    Copy {
        cache_url: String,
        builder_public_key: String,
        trust: SignedCacheImportTrust,
        paths: Vec<StorePath>,
    },
    /// Have the helper do so.
    AskHelper { socket: String, request: ImportRequest },
    StopServer,
    RemoveMirror { dir: String },
    FinishTransfer,
    /// So many bytes came, or the import failed.
    End { result: Result<u64, Error> },
}

/// The view of what is done.
pub enum ImportActionView {
    Phase { message: Seq<char> },
    CheckTrust { builder_public_key: Seq<char> },
    InspectHelper { socket: Seq<char> },
    StartTransfer { message: Seq<char> },
    Mirror { plan: Seq<NarinfoFetchView>, archives: nat, nar_fetches: usize },
    StartServer { dir: Seq<char> },
    Copy {
        cache_url: Seq<char>,
        builder_public_key: Seq<char>,
        trust: SignedCacheImportTrust,
        paths: Seq<Seq<char>>,
    },
    AskHelper { socket: Seq<char>, request: ImportRequestView },
    StopServer,
    RemoveMirror { dir: Seq<char> },
    FinishTransfer,
    End { result: Result<u64, Seq<Seq<char>>> },
}

impl View for ImportAction {
    type V = ImportActionView;

    open spec fn view(&self) -> ImportActionView {
        match *self {
            ImportAction::Phase { message } => ImportActionView::Phase { message: message@ },
            ImportAction::CheckTrust { builder_public_key } => ImportActionView::CheckTrust {
                builder_public_key: builder_public_key@,
            },
            ImportAction::InspectHelper { socket } => ImportActionView::InspectHelper {
                socket: socket@,
            },
            ImportAction::StartTransfer { message } => ImportActionView::StartTransfer {
                message: message@,
            },
            ImportAction::Mirror { plan, archives, nar_fetches } => ImportActionView::Mirror {
                plan: mirror::fetch_views(plan@),
                archives: archives as nat,
                nar_fetches,
            },
            ImportAction::StartServer { dir } => ImportActionView::StartServer { dir: dir@ },
            ImportAction::Copy {
                cache_url,
                builder_public_key,
                trust,
                paths,
            } => ImportActionView::Copy {
                cache_url: cache_url@,
                builder_public_key: builder_public_key@,
                trust,
                paths: nix::path_texts(paths@),
            },
            ImportAction::AskHelper { socket, request } => ImportActionView::AskHelper {
                socket: socket@,
                request: request@,
            },
            ImportAction::StopServer => ImportActionView::StopServer,
            ImportAction::RemoveMirror { dir } => ImportActionView::RemoveMirror { dir: dir@ },
            ImportAction::FinishTransfer => ImportActionView::FinishTransfer,
            ImportAction::End { result } => ImportActionView::End {
                result: error::outcome(result),
            },
        }
    }
}

pub open spec fn import_action_views(list: Seq<ImportAction>) -> Seq<ImportActionView> {
    Seq::new(list.len(), |i: int| list[i]@)
}

/// What happens to an import. The steps from the copy on tell how they went;
/// each one before them may fail.
pub enum ImportEvent {
    /// How Nix trusts the builder, or why it does not.
    TrustChecked { direct: Result<SignedCacheImportTrust, String> },
    HelperInspected { status: HelperSocketStatus },
    /// What comes is shown. The environment may say how many archives are
    /// fetched at once, and the machine can do so much at once.
    TransferStarted { environment: Option<String>, available: Option<usize> },
    Mirrored { dir: String },
    ServerStarted { url: String },
    Copied { result: Result<(), Error> },
    ServerStopped { result: Result<(), Error> },
    /// So many bytes came in all.
    MirrorRemoved { result: Result<(), Error>, bytes: u64 },
    Failed { error: Error },
}

/// The view of what happens to an import.
pub enum ImportEventView {
    TrustChecked { direct: Result<SignedCacheImportTrust, Seq<char>> },
    HelperInspected { status: HelperSocketStatus },
    TransferStarted { environment: Option<Seq<char>>, available: Option<usize> },
    Mirrored { dir: Seq<char> },
    ServerStarted { url: Seq<char> },
    Copied { result: Result<(), Seq<Seq<char>>> },
    ServerStopped { result: Result<(), Seq<Seq<char>>> },
    MirrorRemoved { result: Result<(), Seq<Seq<char>>>, bytes: u64 },
    Failed { error: Seq<Seq<char>> },
}

/// What Nix said, in words.
pub open spec fn trust_view(direct: Result<SignedCacheImportTrust, String>) -> Result<
    SignedCacheImportTrust,
    Seq<char>,
> {
    match direct {
        Ok(trust) => Ok(trust),
        Err(why) => Err(why@),
    }
}

impl View for ImportEvent {
    type V = ImportEventView;

    open spec fn view(&self) -> ImportEventView {
        match *self {
            ImportEvent::TrustChecked { direct } => ImportEventView::TrustChecked {
                direct: trust_view(direct),
            },
            ImportEvent::HelperInspected { status } => ImportEventView::HelperInspected { status },
            ImportEvent::TransferStarted {
                environment,
                available,
            } => ImportEventView::TransferStarted {
                environment: text::optional_text(environment),
                available,
            },
            ImportEvent::Mirrored { dir } => ImportEventView::Mirrored { dir: dir@ },
            ImportEvent::ServerStarted { url } => ImportEventView::ServerStarted { url: url@ },
            ImportEvent::Copied { result } => ImportEventView::Copied {
                result: error::outcome(result),
            },
            ImportEvent::ServerStopped { result } => ImportEventView::ServerStopped {
                result: error::outcome(result),
            },
            ImportEvent::MirrorRemoved { result, bytes } => ImportEventView::MirrorRemoved {
                result: error::outcome(result),
                bytes,
            },
            ImportEvent::Failed { error } => ImportEventView::Failed { error: error@ },
        }
    }
}

/// How far an import is.
pub enum ImportStage {
    CheckingTrust,
    InspectingHelper { why: String },
    StartingTransfer { method: OutputImportMethod },
    Mirroring { method: OutputImportMethod },
    StartingServer { method: OutputImportMethod, dir: String },
    Copying { dir: String },
    Stopping { dir: String, copy: Result<(), Error> },
    Removing { copy: Result<(), Error>, server: Result<(), Error> },
    Ended,
}

/// The view of how far an import is.
pub enum ImportStageView {
    CheckingTrust,
    InspectingHelper { why: Seq<char> },
    StartingTransfer { method: OutputImportMethod },
    Mirroring { method: OutputImportMethod },
    StartingServer { method: OutputImportMethod, dir: Seq<char> },
    Copying { dir: Seq<char> },
    Stopping { dir: Seq<char>, copy: Result<(), Seq<Seq<char>>> },
    Removing { copy: Result<(), Seq<Seq<char>>>, server: Result<(), Seq<Seq<char>>> },
    Ended,
}

impl View for ImportStage {
    type V = ImportStageView;

    open spec fn view(&self) -> ImportStageView {
        match *self {
            ImportStage::CheckingTrust => ImportStageView::CheckingTrust,
            ImportStage::InspectingHelper { why } => ImportStageView::InspectingHelper {
                why: why@,
            },
            ImportStage::StartingTransfer { method } => ImportStageView::StartingTransfer {
                method,
            },
            ImportStage::Mirroring { method } => ImportStageView::Mirroring { method },
            ImportStage::StartingServer { method, dir } => ImportStageView::StartingServer {
                method,
                dir: dir@,
            },
            ImportStage::Copying { dir } => ImportStageView::Copying { dir: dir@ },
            ImportStage::Stopping { dir, copy } => ImportStageView::Stopping {
                dir: dir@,
                copy: error::outcome(copy),
            },
            ImportStage::Removing { copy, server } => ImportStageView::Removing {
                copy: error::outcome(copy),
                server: error::outcome(server),
            },
            ImportStage::Ended => ImportStageView::Ended,
        }
    }
}

/// What is to be imported.
pub struct ImportPlan {
    pub builder_public_key: String,
    /// All that is in the cache.
    pub closure_paths: Vec<StorePath>,
    /// What is copied out of it.
    pub copy_paths: Vec<StorePath>,
    /// How many archives are fetched at once, where the user says so.
    pub nar_fetches: Option<usize>,
}

/// The view of what is to be imported.
pub struct ImportPlanView {
    pub builder_public_key: Seq<char>,
    pub closure_paths: Seq<Seq<char>>,
    pub copy_paths: Seq<Seq<char>>,
    pub nar_fetches: Option<usize>,
}

impl View for ImportPlan {
    type V = ImportPlanView;

    open spec fn view(&self) -> ImportPlanView {
        ImportPlanView {
            builder_public_key: self.builder_public_key@,
            closure_paths: nix::path_texts(self.closure_paths@),
            copy_paths: nix::path_texts(self.copy_paths@),
            nar_fetches: self.nar_fetches,
        }
    }
}

// ---------------------------------------------------------------------------
// The model
// ---------------------------------------------------------------------------

pub open spec fn ends(result: Result<u64, Seq<Seq<char>>>) -> (
    ImportStageView,
    Seq<ImportActionView>,
) {
    (ImportStageView::Ended, seq![ImportActionView::End { result }])
}

/// It is known how outputs are imported.
pub open spec fn goes_by(method: OutputImportMethod) -> (ImportStageView, Seq<ImportActionView>) {
    (
        ImportStageView::StartingTransfer { method },
        seq![ImportActionView::StartTransfer { message: "mirroring signed output cache"@ }],
    )
}

/// How the paths are copied from what is served.
pub open spec fn copies(plan: ImportPlanView, method: OutputImportMethod, url: Seq<char>) ->
    ImportActionView {
    match method {
        OutputImportMethod::Direct(trust) => ImportActionView::Copy {
            cache_url: url,
            builder_public_key: plan.builder_public_key,
            trust,
            paths: plan.copy_paths,
        },
        OutputImportMethod::Helper => ImportActionView::AskHelper {
            socket: DEFAULT_SOCKET_PATH@,
            request: ImportRequestView {
                builder_public_key: plan.builder_public_key,
                cache_url: url,
                paths: plan.copy_paths,
            },
        },
    }
}

/// What happens next to an import, and how far it then is.
pub open spec fn import_step(
    plan: ImportPlanView,
    stage: ImportStageView,
    event: ImportEventView,
) -> (ImportStageView, Seq<ImportActionView>) {
    match (stage, event) {
        (ImportStageView::CheckingTrust, ImportEventView::TrustChecked { direct }) => match direct {
            Ok(trust) => goes_by(OutputImportMethod::Direct(trust)),
            Err(why) => (
                ImportStageView::InspectingHelper { why },
                seq![ImportActionView::InspectHelper { socket: DEFAULT_SOCKET_PATH@ }],
            ),
        },
        (
            ImportStageView::InspectingHelper { why },
            ImportEventView::HelperInspected { status },
        ) => match client_cache::import_method(Err(why), status) {
            Ok(method) => goes_by(method),
            Err(message) => ends(Err(seq![message])),
        },
        (
            ImportStageView::StartingTransfer { method },
            ImportEventView::TransferStarted { environment, available },
        ) => match mirror::fetches(plan.nar_fetches, environment, available) {
            Err(error) => ends(Err(error)),
            Ok(nar_fetches) => (
                ImportStageView::Mirroring { method },
                seq![
                    ImportActionView::Mirror {
                        plan: mirror::fetch_plan(plan.closure_paths, plan.copy_paths),
                        archives: plan.copy_paths.len(),
                        nar_fetches,
                    },
                ],
            ),
        },
        (ImportStageView::Mirroring { method }, ImportEventView::Mirrored { dir }) => (
            ImportStageView::StartingServer { method, dir },
            seq![ImportActionView::StartServer { dir }],
        ),
        (
            ImportStageView::StartingServer { method, dir },
            ImportEventView::ServerStarted { url },
        ) => (ImportStageView::Copying { dir }, seq![copies(plan, method, url)]),
        (ImportStageView::Copying { dir }, ImportEventView::Copied { result }) => (
            ImportStageView::Stopping { dir, copy: result },
            seq![ImportActionView::StopServer],
        ),
        (
            ImportStageView::Stopping { dir, copy },
            ImportEventView::ServerStopped { result },
        ) => (
            ImportStageView::Removing { copy, server: result },
            seq![ImportActionView::RemoveMirror { dir }],
        ),
        (
            ImportStageView::Removing { copy, server },
            ImportEventView::MirrorRemoved { result, bytes },
        ) => (
            ImportStageView::Ended,
            seq![
                ImportActionView::FinishTransfer,
                ImportActionView::End {
                    result: client_cache::imported(
                        copy,
                        client_cache::first_failure(server, result),
                        bytes,
                    ),
                },
            ],
        ),
        (ImportStageView::CheckingTrust, ImportEventView::Failed { error }) => ends(Err(error)),
        (ImportStageView::InspectingHelper { .. }, ImportEventView::Failed { error }) => ends(
            Err(error),
        ),
        (ImportStageView::StartingTransfer { .. }, ImportEventView::Failed { error }) => ends(
            Err(error),
        ),
        (ImportStageView::Mirroring { .. }, ImportEventView::Failed { error }) => ends(Err(error)),
        (ImportStageView::StartingServer { .. }, ImportEventView::Failed { error }) => ends(
            Err(error),
        ),
        _ => (stage, Seq::empty()),
    }
}

// ---------------------------------------------------------------------------
// The machine
// ---------------------------------------------------------------------------

fn one(action: ImportAction) -> (r: Vec<ImportAction>)
    ensures
        import_action_views(r@) == seq![action@],
{
    let mut list: Vec<ImportAction> = Vec::new();
    list.push(action);
    assert(import_action_views(list@) =~= seq![action@]);
    list
}

fn two(first: ImportAction, second: ImportAction) -> (r: Vec<ImportAction>)
    ensures
        import_action_views(r@) == seq![first@, second@],
{
    let mut list: Vec<ImportAction> = Vec::new();
    list.push(first);
    list.push(second);
    assert(import_action_views(list@) =~= seq![first@, second@]);
    list
}

fn end(result: Result<u64, Error>) -> (r: (ImportStage, Vec<ImportAction>))
    ensures
        (r.0@, import_action_views(r.1@)) == ends(error::outcome(result)),
{
    (ImportStage::Ended, one(ImportAction::End { result }))
}

fn go_by(method: OutputImportMethod) -> (r: (ImportStage, Vec<ImportAction>))
    ensures
        (r.0@, import_action_views(r.1@)) == goes_by(method),
{
    (
        ImportStage::StartingTransfer { method },
        one(ImportAction::StartTransfer { message: "mirroring signed output cache".to_string() }),
    )
}

fn copy(plan: &ImportPlan, method: OutputImportMethod, url: String) -> (a: ImportAction)
    ensures
        a@ == copies(plan@, method, url@),
{
    match method {
        OutputImportMethod::Direct(trust) => ImportAction::Copy {
            cache_url: url,
            builder_public_key: plan.builder_public_key.as_str().to_string(),
            trust,
            paths: clone_store_paths(plan.copy_paths.as_slice()),
        },
        OutputImportMethod::Helper => ImportAction::AskHelper {
            socket: DEFAULT_SOCKET_PATH.to_string(),
            request: ImportRequest {
                builder_public_key: plan.builder_public_key.as_str().to_string(),
                cache_url: url,
                paths: store_paths_to_strings(plan.copy_paths.as_slice()),
            },
        },
    }
}

fn mirror_files(
    plan: &ImportPlan,
    method: OutputImportMethod,
    environment: Option<String>,
    available: Option<usize>,
) -> (r: (ImportStage, Vec<ImportAction>))
    ensures
        (r.0@, import_action_views(r.1@)) == import_step(
            plan@,
            ImportStageView::StartingTransfer { method },
            ImportEventView::TransferStarted {
                environment: text::optional_text(environment),
                available,
            },
        ),
{
    let value: Option<&str> = match &environment {
        Some(value) => Some(value.as_str()),
        None => None,
    };
    match parallel_nar_fetches(plan.nar_fetches, value, available) {
        Err(error) => end(Err(error)),
        Ok(nar_fetches) => (
            ImportStage::Mirroring { method },
            one(
                ImportAction::Mirror {
                    plan: plan_mirror(plan.closure_paths.as_slice(), plan.copy_paths.as_slice()),
                    archives: plan.copy_paths.len(),
                    nar_fetches,
                },
            ),
        ),
    }
}

fn go_on(plan: &ImportPlan, stage: ImportStage, event: ImportEvent) -> (r: (
    ImportStage,
    Vec<ImportAction>,
))
    ensures
        (r.0@, import_action_views(r.1@)) == import_step(plan@, stage@, event@),
{
    match (stage, event) {
        (ImportStage::CheckingTrust, ImportEvent::TrustChecked { direct }) => match direct {
            Ok(trust) => go_by(OutputImportMethod::Direct(trust)),
            Err(why) => (
                ImportStage::InspectingHelper { why },
                one(ImportAction::InspectHelper { socket: DEFAULT_SOCKET_PATH.to_string() }),
            ),
        },
        (
            ImportStage::InspectingHelper { why },
            ImportEvent::HelperInspected { status },
        ) => match choose_output_import_method(Err(why), status) {
            Ok(method) => go_by(method),
            Err(message) => end(Err(Error::new(message))),
        },
        (
            ImportStage::StartingTransfer { method },
            ImportEvent::TransferStarted { environment, available },
        ) => mirror_files(plan, method, environment, available),
        (ImportStage::Mirroring { method }, ImportEvent::Mirrored { dir }) => {
            let served: String = dir.as_str().to_string();
            (
                ImportStage::StartingServer { method, dir },
                one(ImportAction::StartServer { dir: served }),
            )
        },
        (
            ImportStage::StartingServer { method, dir },
            ImportEvent::ServerStarted { url },
        ) => (ImportStage::Copying { dir }, one(copy(plan, method, url))),
        (ImportStage::Copying { dir }, ImportEvent::Copied { result }) => (
            ImportStage::Stopping { dir, copy: result },
            one(ImportAction::StopServer),
        ),
        (
            ImportStage::Stopping { dir, copy },
            ImportEvent::ServerStopped { result },
        ) => (
            ImportStage::Removing { copy, server: result },
            one(ImportAction::RemoveMirror { dir }),
        ),
        (
            ImportStage::Removing { copy, server },
            ImportEvent::MirrorRemoved { result, bytes },
        ) => (
            ImportStage::Ended,
            two(
                ImportAction::FinishTransfer,
                ImportAction::End { result: import_result(copy, server, result, bytes) },
            ),
        ),
        (ImportStage::CheckingTrust, ImportEvent::Failed { error }) => end(Err(error)),
        (ImportStage::InspectingHelper { .. }, ImportEvent::Failed { error }) => end(Err(error)),
        (ImportStage::StartingTransfer { .. }, ImportEvent::Failed { error }) => end(Err(error)),
        (ImportStage::Mirroring { .. }, ImportEvent::Failed { error }) => end(Err(error)),
        (ImportStage::StartingServer { .. }, ImportEvent::Failed { error }) => end(Err(error)),
        (stage, _) => {
            let none: Vec<ImportAction> = Vec::new();
            assert(import_action_views(none@) =~= Seq::<ImportActionView>::empty());
            (stage, none)
        },
    }
}

/// An import.
pub struct OutputImport {
    pub plan: ImportPlan,
    pub stage: ImportStage,
}

impl OutputImport {
    /// An import begins with the question whether Nix trusts the builder.
    pub fn new(plan: ImportPlan) -> (r: (OutputImport, Vec<ImportAction>))
        ensures
            r.0.plan@ == plan@,
            r.0.stage@ is CheckingTrust,
            import_action_views(r.1@) == seq![
                ImportActionView::Phase { message: "checking output import trust"@ },
                ImportActionView::CheckTrust { builder_public_key: plan@.builder_public_key },
            ],
    {
        let actions: Vec<ImportAction> = two(
            ImportAction::Phase { message: "checking output import trust".to_string() },
            ImportAction::CheckTrust {
                builder_public_key: plan.builder_public_key.as_str().to_string(),
            },
        );
        (OutputImport { plan, stage: ImportStage::CheckingTrust }, actions)
    }

    /// Goes on with what happened.
    pub fn step(self, event: ImportEvent) -> (r: (OutputImport, Vec<ImportAction>))
        ensures
            r.0.plan@ == self.plan@,
            (r.0.stage@, import_action_views(r.1@)) == import_step(
                self.plan@,
                self.stage@,
                event@,
            ),
    {
        let OutputImport { plan, stage } = self;
        let (stage, actions): (ImportStage, Vec<ImportAction>) = go_on(&plan, stage, event);
        (OutputImport { plan, stage }, actions)
    }

    pub fn has_ended(&self) -> (r: bool)
        ensures
            r == (self.stage@ is Ended),
    {
        match &self.stage {
            ImportStage::Ended => true,
            _ => false,
        }
    }
}

// ---------------------------------------------------------------------------
// Laws
// ---------------------------------------------------------------------------

/// How far an import is after a series of events.
pub open spec fn import_run(plan: ImportPlanView, events: Seq<ImportEventView>) -> ImportStageView
    decreases events.len(),
{
    if events.len() == 0 {
        ImportStageView::CheckingTrust
    } else {
        import_step(plan, import_run(plan, events.drop_last()), events.last()).0
    }
}

/// All that was done for an import over a series of events.
pub open spec fn import_trace(plan: ImportPlanView, events: Seq<ImportEventView>) -> Seq<
    ImportActionView,
>
    decreases events.len(),
{
    if events.len() == 0 {
        seq![
            ImportActionView::Phase { message: "checking output import trust"@ },
            ImportActionView::CheckTrust { builder_public_key: plan.builder_public_key },
        ]
    } else {
        import_trace(plan, events.drop_last()) + import_step(
            plan,
            import_run(plan, events.drop_last()),
            events.last(),
        ).1
    }
}

/// Whatever happens, it is told once what an import came to: with the step
/// that ends it, as the last that is done.
pub proof fn law_every_import_has_one_result(
    plan: ImportPlanView,
    stage: ImportStageView,
    event: ImportEventView,
)
    ensures
        ({
            let (after, actions) = import_step(plan, stage, event);
            if after is Ended && stage !is Ended {
                &&& actions.len() > 0
                &&& actions.last() is End
                &&& forall|i: int| 0 <= i < actions.len() - 1 ==> !(#[trigger] actions[i] is End)
            } else {
                forall|i: int| 0 <= i < actions.len() ==> !(#[trigger] actions[i] is End)
            }
        }),
{
}

/// Paths are copied into the store.
pub open spec fn is_copy(action: ImportActionView) -> bool {
    action is Copy || action is AskHelper
}

pub open spec fn some_copy(trace: Seq<ImportActionView>) -> bool {
    exists|k: int| 0 <= k < trace.len() && is_copy(#[trigger] trace[k])
}

/// What was set up in a directory was taken down again.
pub open spec fn is_taken_down(trace: Seq<ImportActionView>, dir: Seq<char>) -> bool {
    &&& trace.contains(ImportActionView::StartServer { dir })
    &&& trace.contains(ImportActionView::StopServer)
    &&& trace.contains(ImportActionView::RemoveMirror { dir })
}

pub open spec fn is_tidy(trace: Seq<ImportActionView>) -> bool {
    exists|dir: Seq<char>| #[trigger] is_taken_down(trace, dir)
}

/// What was done for an import that is so far.
pub open spec fn stage_is_tidy(stage: ImportStageView, trace: Seq<ImportActionView>) -> bool {
    match stage {
        ImportStageView::StartingServer { dir, .. } => !some_copy(trace) && trace.contains(
            ImportActionView::StartServer { dir },
        ),
        ImportStageView::Copying { dir } => trace.contains(ImportActionView::StartServer { dir }),
        ImportStageView::Stopping { dir, .. } => trace.contains(
            ImportActionView::StartServer { dir },
        ) && trace.contains(ImportActionView::StopServer),
        ImportStageView::Removing { .. } => is_tidy(trace),
        ImportStageView::Ended => some_copy(trace) ==> is_tidy(trace),
        _ => !some_copy(trace),
    }
}

proof fn lemma_contained(a: Seq<ImportActionView>, b: Seq<ImportActionView>, x: ImportActionView)
    ensures
        (a + b).contains(x) == (a.contains(x) || b.contains(x)),
{
    if a.contains(x) {
        let i = choose|i: int| 0 <= i < a.len() && a[i] == x;
        assert((a + b)[i] == x);
    }
    if b.contains(x) {
        let i = choose|i: int| 0 <= i < b.len() && b[i] == x;
        assert((a + b)[a.len() + i] == x);
    }
    if (a + b).contains(x) {
        let i = choose|i: int| 0 <= i < (a + b).len() && (a + b)[i] == x;
        if i < a.len() {
            assert(a[i] == x);
        } else {
            assert(b[i - a.len()] == x);
        }
    }
}

proof fn lemma_copies(a: Seq<ImportActionView>, b: Seq<ImportActionView>)
    ensures
        some_copy(a + b) == (some_copy(a) || some_copy(b)),
{
    if some_copy(a) {
        let k = choose|k: int| 0 <= k < a.len() && is_copy(#[trigger] a[k]);
        assert((a + b)[k] == a[k]);
    }
    if some_copy(b) {
        let k = choose|k: int| 0 <= k < b.len() && is_copy(#[trigger] b[k]);
        assert((a + b)[a.len() + k] == b[k]);
    }
    if some_copy(a + b) {
        let k = choose|k: int| 0 <= k < (a + b).len() && is_copy(#[trigger] (a + b)[k]);
        if k < a.len() {
            assert(is_copy(a[k]));
        } else {
            assert(is_copy(b[k - a.len()]));
        }
    }
}

proof fn lemma_stages_are_tidy(plan: ImportPlanView, events: Seq<ImportEventView>)
    ensures
        stage_is_tidy(import_run(plan, events), import_trace(plan, events)),
    decreases events.len(),
{
    if events.len() > 0 {
        let earlier = events.drop_last();
        let stage = import_run(plan, earlier);
        let before = import_trace(plan, earlier);
        let (after, actions) = import_step(plan, stage, events.last());
        let trace = before + actions;
        lemma_stages_are_tidy(plan, earlier);
        lemma_copies(before, actions);
        if is_tidy(before) {
            let dir = choose|dir: Seq<char>| #[trigger] is_taken_down(before, dir);
            lemma_contained(before, actions, ImportActionView::StartServer { dir });
            lemma_contained(before, actions, ImportActionView::StopServer);
            lemma_contained(before, actions, ImportActionView::RemoveMirror { dir });
            assert(is_taken_down(trace, dir));
        }
        match after {
            ImportStageView::StartingServer { dir, .. } => {
                lemma_contained(before, actions, ImportActionView::StartServer { dir });
                if stage is Mirroring {
                    assert(actions[0] == (ImportActionView::StartServer { dir }));
                }
            },
            ImportStageView::Copying { dir } => {
                lemma_contained(before, actions, ImportActionView::StartServer { dir });
            },
            ImportStageView::Stopping { dir, .. } => {
                lemma_contained(before, actions, ImportActionView::StartServer { dir });
                lemma_contained(before, actions, ImportActionView::StopServer);
                if stage is Copying {
                    assert(actions[0] == ImportActionView::StopServer);
                }
            },
            ImportStageView::Removing { .. } => {
                if let ImportStageView::Stopping { dir, .. } = stage {
                    lemma_contained(before, actions, ImportActionView::StartServer { dir });
                    lemma_contained(before, actions, ImportActionView::StopServer);
                    lemma_contained(before, actions, ImportActionView::RemoveMirror { dir });
                    assert(actions[0] == (ImportActionView::RemoveMirror { dir }));
                    assert(is_taken_down(trace, dir));
                }
            },
            _ => {},
        }
    }
}

/// An import that got as far as copying leaves nothing behind when it has
/// ended, however the copy went: the server was stopped, and the directory that
/// it served was removed.
pub proof fn law_imports_tidy_up(plan: ImportPlanView, events: Seq<ImportEventView>)
    requires
        import_run(plan, events) is Ended,
        some_copy(import_trace(plan, events)),
    ensures
        is_tidy(import_trace(plan, events)),
{
    lemma_stages_are_tidy(plan, events);
}

/// What vouches for a way to import: Nix trusts the builder, or there is a
/// helper, which decides for itself.
pub open spec fn vouches(event: ImportEventView, method: OutputImportMethod) -> bool {
    match method {
        OutputImportMethod::Direct(trust) => event == (ImportEventView::TrustChecked {
            direct: Ok(trust),
        }),
        OutputImportMethod::Helper => event == (ImportEventView::HelperInspected {
            status: HelperSocketStatus::Available,
        }),
    }
}

pub open spec fn is_vouched_for(
    events: Seq<ImportEventView>,
    method: OutputImportMethod,
) -> bool {
    exists|i: int| 0 <= i < events.len() && vouches(#[trigger] events[i], method)
}

pub open spec fn stage_is_vouched_for(
    stage: ImportStageView,
    events: Seq<ImportEventView>,
) -> bool {
    match stage {
        ImportStageView::StartingTransfer { method } => is_vouched_for(events, method),
        ImportStageView::Mirroring { method } => is_vouched_for(events, method),
        ImportStageView::StartingServer { method, .. } => is_vouched_for(events, method),
        _ => true,
    }
}

proof fn lemma_stages_are_vouched_for(plan: ImportPlanView, events: Seq<ImportEventView>)
    ensures
        stage_is_vouched_for(import_run(plan, events), events),
    decreases events.len(),
{
    if events.len() > 0 {
        let earlier = events.drop_last();
        lemma_stages_are_vouched_for(plan, earlier);
        assert forall|method: OutputImportMethod| #[trigger]
            is_vouched_for(earlier, method) implies is_vouched_for(events, method) by {
            let i = choose|i: int| 0 <= i < earlier.len() && vouches(#[trigger] earlier[i], method);
            assert(events[i] == earlier[i]);
        }
        if let ImportStageView::StartingTransfer { method } = import_run(plan, events) {
            if import_run(plan, earlier) !is StartingTransfer {
                assert(vouches(events[events.len() - 1], method));
            }
        }
    }
}

/// Nothing is copied into the store but what was asked for, signed by the
/// builder's key, and only by Nix where it trusts the builder, or by a helper
/// that is there.
pub proof fn law_copies_are_vouched_for(
    plan: ImportPlanView,
    events: Seq<ImportEventView>,
    k: int,
)
    requires
        0 <= k < import_trace(plan, events).len(),
        is_copy(import_trace(plan, events)[k]),
    ensures
        exists|method: OutputImportMethod, url: Seq<char>|
            #![trigger copies(plan, method, url)]
            is_vouched_for(events, method) && import_trace(plan, events)[k] == copies(
                plan,
                method,
                url,
            ),
    decreases events.len(),
{
    if events.len() > 0 {
        let earlier = events.drop_last();
        let before = import_trace(plan, earlier);
        assert forall|method: OutputImportMethod| #[trigger]
            is_vouched_for(earlier, method) implies is_vouched_for(events, method) by {
            let i = choose|i: int| 0 <= i < earlier.len() && vouches(#[trigger] earlier[i], method);
            assert(events[i] == earlier[i]);
        }
        if k < before.len() {
            law_copies_are_vouched_for(plan, earlier, k);
        } else {
            lemma_stages_are_vouched_for(plan, earlier);
            match (import_run(plan, earlier), events.last()) {
                (
                    ImportStageView::StartingServer { method, .. },
                    ImportEventView::ServerStarted { url },
                ) => {
                    assert(import_trace(plan, events)[k] == copies(plan, method, url));
                },
                _ => {},
            }
        }
    }
}

/// How Nix or the helper come to be the way to import.
pub open spec fn way_found(direct: Result<SignedCacheImportTrust, Seq<char>>) -> Seq<
    ImportEventView,
> {
    match direct {
        Ok(_) => seq![ImportEventView::TrustChecked { direct }],
        Err(_) => seq![
            ImportEventView::TrustChecked { direct },
            ImportEventView::HelperInspected { status: HelperSocketStatus::Available },
        ],
    }
}

/// An import where nothing goes wrong tells how many bytes came, whether Nix
/// trusts the builder or the helper is asked.
pub proof fn law_good_imports_succeed(
    plan: ImportPlanView,
    direct: Result<SignedCacheImportTrust, Seq<char>>,
    environment: Option<Seq<char>>,
    available: Option<usize>,
    dir: Seq<char>,
    url: Seq<char>,
    bytes: u64,
)
    requires
        mirror::fetches(plan.nar_fetches, environment, available) is Ok,
    ensures
        ({
            let events = way_found(direct) + seq![
                ImportEventView::TransferStarted { environment, available },
                ImportEventView::Mirrored { dir },
                ImportEventView::ServerStarted { url },
                ImportEventView::Copied { result: Ok(()) },
                ImportEventView::ServerStopped { result: Ok(()) },
                ImportEventView::MirrorRemoved { result: Ok(()), bytes },
            ];
            &&& import_run(plan, events) is Ended
            &&& import_trace(plan, events).last() == (ImportActionView::End { result: Ok(bytes) })
        }),
{
    let e0 = seq![ImportEventView::TrustChecked { direct }];
    let e1 = way_found(direct);
    let e2 = e1.push(ImportEventView::TransferStarted { environment, available });
    let e3 = e2.push(ImportEventView::Mirrored { dir });
    let e4 = e3.push(ImportEventView::ServerStarted { url });
    let e5 = e4.push(ImportEventView::Copied { result: Ok(()) });
    let e6 = e5.push(ImportEventView::ServerStopped { result: Ok(()) });
    let e7 = e6.push(ImportEventView::MirrorRemoved { result: Ok(()), bytes });
    assert(e0.drop_last() =~= Seq::<ImportEventView>::empty());
    assert(import_run(plan, Seq::empty()) is CheckingTrust);
    assert(import_run(plan, e1) is StartingTransfer) by {
        if direct is Err {
            assert(import_run(plan, e0) is InspectingHelper);
            assert(e1.drop_last() =~= e0);
        }
    }
    assert(e2.drop_last() =~= e1);
    assert(import_run(plan, e2) is Mirroring);
    assert(e3.drop_last() =~= e2);
    assert(import_run(plan, e3) is StartingServer);
    assert(e4.drop_last() =~= e3);
    assert(import_run(plan, e4) == (ImportStageView::Copying { dir }));
    assert(e5.drop_last() =~= e4);
    assert(import_run(plan, e5) == (ImportStageView::Stopping { dir, copy: Ok(()) }));
    assert(e6.drop_last() =~= e5);
    assert(import_run(plan, e6) == (ImportStageView::Removing { copy: Ok(()), server: Ok(()) }));
    assert(e7.drop_last() =~= e6);
    let last = import_step(plan, import_run(plan, e6), e7.last()).1;
    assert(import_trace(plan, e7) == import_trace(plan, e6) + last);
    assert(import_trace(plan, e7).last() == last.last());
    assert(e7 =~= way_found(direct) + seq![
        ImportEventView::TransferStarted { environment, available },
        ImportEventView::Mirrored { dir },
        ImportEventView::ServerStarted { url },
        ImportEventView::Copied { result: Ok(()) },
        ImportEventView::ServerStopped { result: Ok(()) },
        ImportEventView::MirrorRemoved { result: Ok(()), bytes },
    ]);
}

// ---------------------------------------------------------------------------
// What each step is for
// ---------------------------------------------------------------------------

/// Outputs are imported directly where Nix trusts the builder, and otherwise by the
/// helper, which is looked for at its place.
pub proof fn law_imports_go_where_there_is_trust(
    plan: ImportPlanView,
    trust: SignedCacheImportTrust,
    why: Seq<char>,
)
    ensures
        ({
            let (stage, actions) = import_step(
                plan,
                ImportStageView::CheckingTrust,
                ImportEventView::TrustChecked { direct: Ok(trust) },
            );
            &&& stage == (ImportStageView::StartingTransfer {
                method: OutputImportMethod::Direct(trust),
            })
            &&& actions.len() == 1 && actions[0] is StartTransfer
        }),
        import_step(
            plan,
            ImportStageView::CheckingTrust,
            ImportEventView::TrustChecked { direct: Err(why) },
        ) == (
            ImportStageView::InspectingHelper { why },
            seq![
                ImportActionView::InspectHelper { socket: "/run/drv-thru/import-helper.sock"@ },
            ],
        ),
        ({
            let (stage, actions) = import_step(
                plan,
                ImportStageView::InspectingHelper { why },
                ImportEventView::HelperInspected { status: HelperSocketStatus::Available },
            );
            &&& stage == (ImportStageView::StartingTransfer { method: OutputImportMethod::Helper })
            &&& actions.len() == 1 && actions[0] is StartTransfer
        }),
{
}

/// The builder's cache is mirrored for the whole closure, with the archives of what is
/// copied, and the mirror is then served.
pub proof fn law_the_closure_is_mirrored(
    plan: ImportPlanView,
    method: OutputImportMethod,
    environment: Option<Seq<char>>,
    available: Option<usize>,
    dir: Seq<char>,
)
    ensures
        ({
            let (stage, actions) = import_step(
                plan,
                ImportStageView::StartingTransfer { method },
                ImportEventView::TransferStarted { environment, available },
            );
            match mirror::fetches(plan.nar_fetches, environment, available) {
                Ok(nar_fetches) => stage == (ImportStageView::Mirroring { method }) && actions
                    == seq![
                    ImportActionView::Mirror {
                        plan: mirror::fetch_plan(plan.closure_paths, plan.copy_paths),
                        archives: plan.copy_paths.len(),
                        nar_fetches,
                    },
                ],
                Err(error) => stage is Ended && actions == seq![
                    ImportActionView::End { result: Err(error) },
                ],
            }
        }),
        import_step(
            plan,
            ImportStageView::Mirroring { method },
            ImportEventView::Mirrored { dir },
        ) == (
            ImportStageView::StartingServer { method, dir },
            seq![ImportActionView::StartServer { dir }],
        ),
{
}

/// What is served is copied, all that is to be copied and nothing else, from the URL
/// of the server and as signed by the key of the builder: by Nix, or by the helper
/// at its place.
pub proof fn law_all_is_copied_from_the_mirror(
    plan: ImportPlanView,
    trust: SignedCacheImportTrust,
    dir: Seq<char>,
    url: Seq<char>,
)
    ensures
        import_step(
            plan,
            ImportStageView::StartingServer { method: OutputImportMethod::Direct(trust), dir },
            ImportEventView::ServerStarted { url },
        ) == (
            ImportStageView::Copying { dir },
            seq![
                ImportActionView::Copy {
                    cache_url: url,
                    builder_public_key: plan.builder_public_key,
                    trust,
                    paths: plan.copy_paths,
                },
            ],
        ),
        import_step(
            plan,
            ImportStageView::StartingServer { method: OutputImportMethod::Helper, dir },
            ImportEventView::ServerStarted { url },
        ) == (
            ImportStageView::Copying { dir },
            seq![
                ImportActionView::AskHelper {
                    socket: "/run/drv-thru/import-helper.sock"@,
                    request: ImportRequestView {
                        builder_public_key: plan.builder_public_key,
                        cache_url: url,
                        paths: plan.copy_paths,
                    },
                },
            ],
        ),
{
}

/// After the copy, however it went, the server is stopped and the mirror removed, and
/// the import then comes to what these came to.
pub proof fn law_imports_are_wound_up(
    plan: ImportPlanView,
    dir: Seq<char>,
    copy: Result<(), Seq<Seq<char>>>,
    server: Result<(), Seq<Seq<char>>>,
    removal: Result<(), Seq<Seq<char>>>,
    bytes: u64,
)
    ensures
        import_step(
            plan,
            ImportStageView::Copying { dir },
            ImportEventView::Copied { result: copy },
        ) == (
            ImportStageView::Stopping { dir, copy },
            seq![ImportActionView::StopServer],
        ),
        import_step(
            plan,
            ImportStageView::Stopping { dir, copy },
            ImportEventView::ServerStopped { result: server },
        ) == (
            ImportStageView::Removing { copy, server },
            seq![ImportActionView::RemoveMirror { dir }],
        ),
        ({
            let (stage, actions) = import_step(
                plan,
                ImportStageView::Removing { copy, server },
                ImportEventView::MirrorRemoved { result: removal, bytes },
            );
            &&& stage is Ended
            &&& actions.len() == 2 && actions[0] is FinishTransfer
            &&& actions[1] matches ImportActionView::End { result } && {
                &&& result is Ok <==> copy is Ok && server is Ok && removal is Ok
                &&& result is Ok ==> result->Ok_0 == bytes
                &&& copy is Ok && server is Err ==> result->Err_0 == server->Err_0
                &&& copy is Ok && server is Ok && removal is Err ==> result->Err_0
                    == removal->Err_0
                &&& copy is Err ==> copy->Err_0.is_suffix_of(result->Err_0)
            }
        }),
{
    client_cache::law_imports_come_to_what_their_parts_came_to(copy, server, removal, bytes);
    client_cache::law_imports_hide_no_failure(
        copy,
        client_cache::first_failure(server, removal),
        bytes,
    );
}

/// Where an import goes its way, the user sees the cache being mirrored.
pub proof fn law_mirroring_is_shown(method: OutputImportMethod)
    ensures
        goes_by(method).0 == (ImportStageView::StartingTransfer { method }),
        goes_by(method).1 == seq![
            ImportActionView::StartTransfer { message: "mirroring signed output cache"@ },
        ],
{
}

} // verus!
