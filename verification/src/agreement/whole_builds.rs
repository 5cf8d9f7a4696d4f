//! Builds where nothing goes wrong: client and builder come to the end of
//! them, each hearing from the other just what that one says.

use vstd::prelude::*;

use crate::agreement;
use crate::client::session;
use crate::client::session::{ClientActionView, ClientEventView, SessionView};
use crate::nix;
use crate::nix::commands;
use crate::proto::{MessageView, PathListChunkView};
use crate::protocol::path_chunks;
use crate::protocol::path_chunks::PathListKind;
use crate::server::auth::AuthorizedView;
use crate::server::builds;
use crate::server::builds::CheckedBuildView;
use crate::server::connection;
use crate::server::connection::ActionView;
use crate::server::output_cache;
use crate::server::queued;
use crate::server::queued::{BuildEventView, BuildStageView};
use crate::server::status::BuildResult;

verus! {

// ---------------------------------------------------------------------------
// What is said and heard
// ---------------------------------------------------------------------------

/// The messages that pass on a log.
pub open spec fn log_messages(log: Seq<Seq<char>>) -> Seq<MessageView> {
    Seq::new(log.len(), |i: int| MessageView::NixLog { line: log[i] })
}

/// The messages that a builder sends when it does this. While it builds, it
/// passes on the log.
pub open spec fn builder_said(actions: Seq<ActionView>, log: Seq<Seq<char>>) -> Seq<MessageView>
    decreases actions.len(),
{
    if actions.len() == 0 {
        Seq::empty()
    } else {
        let earlier = builder_said(actions.drop_last(), log);
        match actions.last() {
            ActionView::Send { message } => earlier.push(message),
            ActionView::Realise { .. } => earlier + log_messages(log),
            _ => earlier,
        }
    }
}

/// The messages that a client sends when it does this.
pub open spec fn client_said(actions: Seq<ClientActionView>) -> Seq<MessageView>
    decreases actions.len(),
{
    if actions.len() == 0 {
        Seq::empty()
    } else {
        let earlier = client_said(actions.drop_last());
        match actions.last() {
            ClientActionView::Send { messages } => earlier + messages,
            _ => earlier,
        }
    }
}

/// The messages that come to a builder when this happens.
pub open spec fn builder_heard(events: Seq<BuildEventView>) -> Seq<MessageView>
    decreases events.len(),
{
    if events.len() == 0 {
        Seq::empty()
    } else {
        let earlier = builder_heard(events.drop_last());
        match events.last() {
            BuildEventView::Received { message, .. } => earlier.push(message),
            _ => earlier,
        }
    }
}

/// The messages that come to a client when this happens.
pub open spec fn client_heard(events: Seq<ClientEventView>) -> Seq<MessageView>
    decreases events.len(),
{
    if events.len() == 0 {
        Seq::empty()
    } else {
        let earlier = client_heard(events.drop_last());
        match events.last() {
            ClientEventView::Received { message, .. } => earlier.push(message),
            _ => earlier,
        }
    }
}

/// Messages come to a builder.
pub open spec fn to_builder(messages: Seq<MessageView>, shown: Seq<char>) -> Seq<BuildEventView> {
    Seq::new(
        messages.len(),
        |i: int| BuildEventView::Received { message: messages[i], shown },
    )
}

/// Messages come to a client.
pub open spec fn to_client(messages: Seq<MessageView>, shown: Seq<char>) -> Seq<ClientEventView> {
    Seq::new(
        messages.len(),
        |i: int| ClientEventView::Received { message: messages[i], shown },
    )
}

pub proof fn lemma_builder_said_concat(
    a: Seq<ActionView>,
    b: Seq<ActionView>,
    log: Seq<Seq<char>>,
)
    ensures
        builder_said(a + b, log) == builder_said(a, log) + builder_said(b, log),
    decreases b.len(),
{
    if b.len() == 0 {
        assert(a + b =~= a);
        assert(builder_said(a, log) + builder_said(b, log) =~= builder_said(a, log));
    } else {
        assert((a + b).drop_last() =~= a + b.drop_last());
        lemma_builder_said_concat(a, b.drop_last(), log);
        assert(builder_said(a + b, log) =~= builder_said(a, log) + builder_said(b, log));
    }
}

pub proof fn lemma_client_said_concat(a: Seq<ClientActionView>, b: Seq<ClientActionView>)
    ensures
        client_said(a + b) == client_said(a) + client_said(b),
    decreases b.len(),
{
    if b.len() == 0 {
        assert(a + b =~= a);
        assert(client_said(a) + client_said(b) =~= client_said(a));
    } else {
        assert((a + b).drop_last() =~= a + b.drop_last());
        lemma_client_said_concat(a, b.drop_last());
        assert(client_said(a + b) =~= client_said(a) + client_said(b));
    }
}

proof fn lemma_builder_heard_concat(a: Seq<BuildEventView>, b: Seq<BuildEventView>)
    ensures
        builder_heard(a + b) == builder_heard(a) + builder_heard(b),
    decreases b.len(),
{
    if b.len() == 0 {
        assert(a + b =~= a);
        assert(builder_heard(a) + builder_heard(b) =~= builder_heard(a));
    } else {
        assert((a + b).drop_last() =~= a + b.drop_last());
        lemma_builder_heard_concat(a, b.drop_last());
        assert(builder_heard(a + b) =~= builder_heard(a) + builder_heard(b));
    }
}

pub proof fn lemma_client_heard_concat(a: Seq<ClientEventView>, b: Seq<ClientEventView>)
    ensures
        client_heard(a + b) == client_heard(a) + client_heard(b),
    decreases b.len(),
{
    if b.len() == 0 {
        assert(a + b =~= a);
        assert(client_heard(a) + client_heard(b) =~= client_heard(a));
    } else {
        assert((a + b).drop_last() =~= a + b.drop_last());
        lemma_client_heard_concat(a, b.drop_last());
        assert(client_heard(a + b) =~= client_heard(a) + client_heard(b));
    }
}

proof fn lemma_sends_are_said(messages: Seq<MessageView>, log: Seq<Seq<char>>)
    ensures
        builder_said(queued::sends(messages), log) == messages,
    decreases messages.len(),
{
    if messages.len() > 0 {
        lemma_sends_are_said(messages.drop_last(), log);
        assert(queued::sends(messages).drop_last() =~= queued::sends(messages.drop_last()));
        assert(messages.drop_last().push(messages.last()) =~= messages);
    }
}

proof fn lemma_to_builder_is_heard(messages: Seq<MessageView>, shown: Seq<char>)
    ensures
        builder_heard(to_builder(messages, shown)) == messages,
    decreases messages.len(),
{
    if messages.len() > 0 {
        lemma_to_builder_is_heard(messages.drop_last(), shown);
        assert(to_builder(messages, shown).drop_last() =~= to_builder(
            messages.drop_last(),
            shown,
        ));
        assert(messages.drop_last().push(messages.last()) =~= messages);
    }
}

proof fn lemma_to_client_is_heard(messages: Seq<MessageView>, shown: Seq<char>)
    ensures
        client_heard(to_client(messages, shown)) == messages,
    decreases messages.len(),
{
    if messages.len() > 0 {
        lemma_to_client_is_heard(messages.drop_last(), shown);
        assert(to_client(messages, shown).drop_last() =~= to_client(messages.drop_last(), shown));
        assert(messages.drop_last().push(messages.last()) =~= messages);
    }
}

// ---------------------------------------------------------------------------
// What a series of events does
// ---------------------------------------------------------------------------

/// How far a build is after events, and all that was done for it.
pub open spec fn builder_run(
    stage: BuildStageView,
    events: Seq<BuildEventView>,
    build: CheckedBuildView,
    authorized: AuthorizedView,
) -> (BuildStageView, Seq<ActionView>)
    decreases events.len(),
{
    if events.len() == 0 {
        (stage, Seq::empty())
    } else {
        let (before, earlier) = builder_run(stage, events.drop_last(), build, authorized);
        let (after, actions) = queued::build_step(before, events.last(), build, authorized);
        (after, earlier + actions)
    }
}

/// What a session is after events, and all that was done in it.
pub open spec fn client_run(s: SessionView, events: Seq<ClientEventView>) -> (
    SessionView,
    Seq<ClientActionView>,
)
    decreases events.len(),
{
    if events.len() == 0 {
        (s, Seq::empty())
    } else {
        let (before, earlier) = client_run(s, events.drop_last());
        let (after, actions) = session::session_step(before, events.last());
        (after, earlier + actions)
    }
}

proof fn lemma_builder_run_concat(
    stage: BuildStageView,
    a: Seq<BuildEventView>,
    b: Seq<BuildEventView>,
    build: CheckedBuildView,
    authorized: AuthorizedView,
)
    ensures
        ({
            let (middle, first) = builder_run(stage, a, build, authorized);
            let (after, second) = builder_run(middle, b, build, authorized);
            builder_run(stage, a + b, build, authorized) == (after, first + second)
        }),
    decreases b.len(),
{
    let (middle, first) = builder_run(stage, a, build, authorized);
    let (after, second) = builder_run(middle, b, build, authorized);
    if b.len() == 0 {
        assert(a + b =~= a);
        assert(first + second =~= first);
    } else {
        assert((a + b).drop_last() =~= a + b.drop_last());
        lemma_builder_run_concat(stage, a, b.drop_last(), build, authorized);
        let (before, earlier) = builder_run(middle, b.drop_last(), build, authorized);
        let actions = queued::build_step(before, b.last(), build, authorized).1;
        assert((first + earlier) + actions =~= first + (earlier + actions));
    }
}

pub proof fn lemma_client_run_concat(
    s: SessionView,
    a: Seq<ClientEventView>,
    b: Seq<ClientEventView>,
)
    ensures
        ({
            let (middle, first) = client_run(s, a);
            let (after, second) = client_run(middle, b);
            client_run(s, a + b) == (after, first + second)
        }),
    decreases b.len(),
{
    let (middle, first) = client_run(s, a);
    let (after, second) = client_run(middle, b);
    if b.len() == 0 {
        assert(a + b =~= a);
        assert(first + second =~= first);
    } else {
        assert((a + b).drop_last() =~= a + b.drop_last());
        lemma_client_run_concat(s, a, b.drop_last());
        let (before, earlier) = client_run(middle, b.drop_last());
        let actions = session::session_step(before, b.last()).1;
        assert((first + earlier) + actions =~= first + (earlier + actions));
    }
}

// ---------------------------------------------------------------------------
// Good builds
// ---------------------------------------------------------------------------

/// What there is to a build where nothing goes wrong.
pub struct GoodBuild {
    /// The inputs that the builder lacks.
    pub missing: Seq<Seq<char>>,
    /// The lines that are written while it builds.
    pub log: Seq<Seq<char>>,
    /// What the builder builds.
    pub realised: Seq<Seq<char>>,
    /// All that the outputs need.
    pub closure: Seq<Seq<char>>,
    /// What the client lacks of it.
    pub wanted: Seq<Seq<char>>,
    /// How many bytes the client gets.
    pub bytes: u64,
    /// How messages look when they are complained about.
    pub shown: Seq<char>,
}

/// Nothing goes wrong: the outputs are built, the paths are store paths, the
/// lists keep within the limits, and the client lacks but what was built.
pub open spec fn is_good(g: GoodBuild, build: CheckedBuildView) -> bool {
    &&& agreement::is_takeable(g.missing)
    &&& agreement::is_takeable(g.closure)
    &&& agreement::is_takeable(g.wanted)
    &&& forall|i: int| 0 <= i < g.missing.len() ==> nix::is_store_path(#[trigger] g.missing[i])
    &&& forall|i: int|
        0 <= i < build.output_paths.len() ==> g.realised.contains(#[trigger] build.output_paths[i])
    &&& forall|i: int| 0 <= i < g.closure.len() ==> nix::is_store_path(#[trigger] g.closure[i])
    &&& forall|i: int| 0 <= i < g.wanted.len() ==> g.closure.contains(#[trigger] g.wanted[i])
}

/// Something that is there only where a list is not empty.
pub open spec fn where_some<A>(list: Seq<Seq<char>>, items: Seq<A>) -> Seq<A> {
    if list.len() == 0 {
        Seq::empty()
    } else {
        items
    }
}

/// All that the builder says, from the time when it accepts the build.
pub open spec fn builder_says(g: GoodBuild, build: CheckedBuildView) -> Seq<MessageView> {
    seq![MessageView::BuildQueued] + path_chunks::list_messages(
        PathListKind::MissingPaths,
        g.missing,
    ) + where_some(g.missing, seq![MessageView::InputUploadReady]) + seq![
        MessageView::BuildStarted,
    ] + log_messages(g.log) + seq![
        MessageView::BuildFinished { success: true, output_paths: build.output_paths },
    ] + path_chunks::list_messages(PathListKind::OutputClosure, g.closure) + where_some(
        g.wanted,
        seq![
            MessageView::OutputCacheReady {
                copy_paths: commands::distinct(g.wanted),
                closure_path_count: g.closure.len() as usize,
            },
        ],
    ) + seq![MessageView::Done]
}

/// All that the client says from then on.
pub open spec fn client_says(g: GoodBuild) -> Seq<MessageView> {
    path_chunks::list_messages(PathListKind::OutputRequest, g.wanted) + where_some(
        g.wanted,
        seq![MessageView::OutputCacheDone],
    )
}

/// What happens to the builder.
pub open spec fn builder_events(g: GoodBuild) -> Seq<BuildEventView> {
    seq![BuildEventView::Permitted, BuildEventView::InputsChecked { missing: g.missing }]
        + where_some(g.missing, seq![BuildEventView::Uploaded { still_missing: Seq::empty() }])
        + seq![
        BuildEventView::Realised { success: true, output_paths: g.realised },
        BuildEventView::ClosureFound { closure: g.closure },
    ] + to_builder(path_chunks::list_messages(PathListKind::OutputRequest, g.wanted), g.shown)
        + where_some(
        g.wanted,
        seq![
            BuildEventView::Received { message: MessageView::OutputCacheDone, shown: g.shown },
            BuildEventView::Served,
        ],
    ) + seq![BuildEventView::Performed, BuildEventView::Performed]
}

/// What the client is told while its outputs are built and after that.
pub open spec fn told_of_outputs(g: GoodBuild, build: CheckedBuildView) -> Seq<MessageView> {
    seq![MessageView::BuildStarted] + log_messages(g.log) + seq![
        MessageView::BuildFinished { success: true, output_paths: build.output_paths },
    ] + path_chunks::list_messages(PathListKind::OutputClosure, g.closure)
}

/// What happens to the client.
pub open spec fn client_events(g: GoodBuild, build: CheckedBuildView) -> Seq<ClientEventView> {
    to_client(
        seq![MessageView::BuildQueued] + path_chunks::list_messages(
            PathListKind::MissingPaths,
            g.missing,
        ),
        g.shown,
    ) + where_some(
        g.missing,
        seq![
            ClientEventView::Received { message: MessageView::InputUploadReady, shown: g.shown },
            ClientEventView::Uploaded,
        ],
    ) + to_client(
        told_of_outputs(g, build),
        g.shown,
    ) + seq![ClientEventView::MissingFound { missing: g.wanted }] + where_some(
        g.wanted,
        seq![
            ClientEventView::Received {
                message: MessageView::OutputCacheReady {
                    copy_paths: commands::distinct(g.wanted),
                    closure_path_count: g.closure.len() as usize,
                },
                shown: g.shown,
            },
            ClientEventView::Imported { result: Ok(g.bytes) },
        ],
    ) + seq![
        ClientEventView::Received { message: MessageView::Done, shown: g.shown },
        ClientEventView::Closed,
    ]
}

proof fn lemma_inputs_come(
    g: GoodBuild,
    build: CheckedBuildView,
    authorized: AuthorizedView,
)
    ensures
        ({
            let events = seq![
                BuildEventView::Permitted,
                BuildEventView::InputsChecked { missing: g.missing },
            ] + where_some(
                g.missing,
                seq![BuildEventView::Uploaded { still_missing: Seq::empty() }],
            );
            let (after, actions) = builder_run(
                BuildStageView::Waiting,
                events,
                build,
                authorized,
            );
            &&& after is Building
            &&& builder_said(actions, g.log) == path_chunks::list_messages(
                PathListKind::MissingPaths,
                g.missing,
            ) + where_some(g.missing, seq![MessageView::InputUploadReady]) + (seq![
                MessageView::BuildStarted,
            ] + log_messages(g.log))
            &&& builder_heard(events) == Seq::<MessageView>::empty()
        }),
{
    let list = path_chunks::list_messages(PathListKind::MissingPaths, g.missing);
    let e0 = Seq::<BuildEventView>::empty();
    let e1 = e0.push(BuildEventView::Permitted);
    let e2 = e1.push(BuildEventView::InputsChecked { missing: g.missing });
    let e3 = e2.push(BuildEventView::Uploaded { still_missing: Seq::empty() });
    assert(e1.drop_last() =~= e0);
    assert(e2.drop_last() =~= e1);
    assert(e3.drop_last() =~= e2);
    reveal_with_fuel(builder_heard, 4);
    let (s0, a0) = builder_run(BuildStageView::Waiting, e0, build, authorized);
    let (s1, a1) = builder_run(BuildStageView::Waiting, e1, build, authorized);
    assert(s0 is Waiting && a0.len() == 0);
    assert(s1 is CheckingInputs);
    assert(builder_said(a1, g.log) =~= Seq::<MessageView>::empty()) by {
        reveal_with_fuel(builder_said, 5);
    }
    let (s2, a2) = builder_run(BuildStageView::Waiting, e2, build, authorized);
    let told = queued::sends(list);
    lemma_sends_are_said(list, g.log);
    let begun = queued::building(build, authorized);
    assert(builder_said(begun, g.log) =~= seq![MessageView::BuildStarted] + log_messages(g.log))
        by {
        reveal_with_fuel(builder_said, 4);
    }
    if g.missing.len() == 0 {
        assert(a2 == a1 + (told + begun));
        lemma_builder_said_concat(told, begun, g.log);
        lemma_builder_said_concat(a1, told + begun, g.log);
        assert(e2 =~= seq![
            BuildEventView::Permitted,
            BuildEventView::InputsChecked { missing: g.missing },
        ] + Seq::<BuildEventView>::empty());
        assert(builder_said(a2, g.log) =~= list + Seq::<MessageView>::empty() + (seq![
            MessageView::BuildStarted,
        ] + log_messages(g.log)));
    } else {
        let asked = seq![
            ActionView::Phase { phase: "uploading inputs"@ },
            ActionView::Send { message: MessageView::InputUploadReady },
            ActionView::ReceiveUpload {
                missing: g.missing,
                max_bytes: authorized.max_upload_bytes,
            },
        ];
        assert(builder_said(asked, g.log) =~= seq![MessageView::InputUploadReady]) by {
            reveal_with_fuel(builder_said, 4);
        }
        assert(a2 == a1 + (told + asked));
        assert(s2 is Uploading);
        let (s3, a3) = builder_run(BuildStageView::Waiting, e3, build, authorized);
        assert(s3 is Building);
        assert(a3 == a2 + begun);
        lemma_builder_said_concat(told, asked, g.log);
        lemma_builder_said_concat(a1, told + asked, g.log);
        lemma_builder_said_concat(a2, begun, g.log);
        assert(e3 =~= seq![
            BuildEventView::Permitted,
            BuildEventView::InputsChecked { missing: g.missing },
        ] + seq![BuildEventView::Uploaded { still_missing: Seq::empty() }]);
        assert(builder_said(a3, g.log) =~= list + seq![MessageView::InputUploadReady] + (seq![
            MessageView::BuildStarted,
        ] + log_messages(g.log)));
    }
}

proof fn lemma_outputs_are_built(
    g: GoodBuild,
    build: CheckedBuildView,
    authorized: AuthorizedView,
)
    requires
        is_good(g, build),
    ensures
        ({
            let events = seq![
                BuildEventView::Realised { success: true, output_paths: g.realised },
                BuildEventView::ClosureFound { closure: g.closure },
            ];
            let (after, actions) = builder_run(
                BuildStageView::Building,
                events,
                build,
                authorized,
            );
            &&& after == (BuildStageView::ReadingRequest {
                closure: g.closure,
                list: path_chunks::nothing_read(),
            })
            &&& builder_said(actions, g.log) == seq![
                MessageView::BuildFinished { success: true, output_paths: build.output_paths },
            ] + path_chunks::list_messages(PathListKind::OutputClosure, g.closure)
            &&& builder_heard(events) == Seq::<MessageView>::empty()
        }),
{
    let list = path_chunks::list_messages(PathListKind::OutputClosure, g.closure);
    let e0 = Seq::<BuildEventView>::empty();
    let e1 = e0.push(BuildEventView::Realised { success: true, output_paths: g.realised });
    let e2 = e1.push(BuildEventView::ClosureFound { closure: g.closure });
    assert(e1.drop_last() =~= e0);
    assert(e2.drop_last() =~= e1);
    assert(e2 =~= seq![
        BuildEventView::Realised { success: true, output_paths: g.realised },
        BuildEventView::ClosureFound { closure: g.closure },
    ]);
    reveal_with_fuel(builder_heard, 3);
    builds::law_realised_outputs_are_delivered(build.output_paths, g.realised);
    let (s0, a0) = builder_run(BuildStageView::Building, e0, build, authorized);
    let (s1, a1) = builder_run(BuildStageView::Building, e1, build, authorized);
    assert(s0 is Building && a0.len() == 0);
    assert(s1 is FindingClosure);
    assert(builder_said(a1, g.log) =~= seq![
        MessageView::BuildFinished { success: true, output_paths: build.output_paths },
    ]) by {
        reveal_with_fuel(builder_said, 4);
        let told = queued::after_build(build, true, g.realised).1;
        assert(a1 =~= told);
    }
    let (s2, a2) = builder_run(BuildStageView::Building, e2, build, authorized);
    let told = queued::sends(list);
    let read = seq![
        ActionView::Read { seconds: crate::server::CLIENT_NIX_TIMEOUT_SECS },
    ];
    assert(builder_said(read, g.log) =~= Seq::<MessageView>::empty()) by {
        reveal_with_fuel(builder_said, 2);
    }
    assert(told.push(read[0]) =~= told + read);
    assert(a2 =~= a1 + (told + read));
    lemma_sends_are_said(list, g.log);
    lemma_builder_said_concat(told, read, g.log);
    lemma_builder_said_concat(a1, told + read, g.log);
    assert(list + Seq::<MessageView>::empty() =~= list);
}

/// One event is one step.
proof fn lemma_builder_step(
    stage: BuildStageView,
    event: BuildEventView,
    build: CheckedBuildView,
    authorized: AuthorizedView,
)
    ensures
        builder_run(stage, seq![event], build, authorized) == queued::build_step(
            stage,
            event,
            build,
            authorized,
        ),
{
    let none = Seq::<BuildEventView>::empty();
    assert(seq![event].drop_last() =~= none);
    assert(builder_run(stage, none, build, authorized) == (stage, Seq::<ActionView>::empty()));
    let actions = queued::build_step(stage, event, build, authorized).1;
    assert(Seq::<ActionView>::empty() + actions =~= actions);
}

pub proof fn lemma_client_step(s: SessionView, event: ClientEventView)
    ensures
        client_run(s, seq![event]) == session::session_step(s, event),
{
    let none = Seq::<ClientEventView>::empty();
    assert(seq![event].drop_last() =~= none);
    assert(client_run(s, none) == (s, Seq::<ClientActionView>::empty()));
    let actions = session::session_step(s, event).1;
    assert(Seq::<ClientActionView>::empty() + actions =~= actions);
}

proof fn lemma_request_is_read(
    closure: Seq<Seq<char>>,
    list: path_chunks::ReadStateView,
    pieces: Seq<PathListChunkView>,
    paths: Seq<Seq<char>>,
    shown: Seq<char>,
    build: CheckedBuildView,
    authorized: AuthorizedView,
    log: Seq<Seq<char>>,
)
    requires
        agreement::ends_with_its_end(pieces),
        path_chunks::read_pieces(list, pieces, connection::list_limits()) == (
        path_chunks::ReadStepView::Finished { paths }),
    ensures
        ({
            let (after, actions) = builder_run(
                BuildStageView::ReadingRequest { closure, list },
                to_builder(agreement::carrying(PathListKind::OutputRequest, pieces), shown),
                build,
                authorized,
            );
            let (last, done) = queued::after_request(
                closure,
                path_chunks::ReadStepView::Finished { paths },
            );
            after == last && builder_said(actions, log) == builder_said(done, log)
        }),
    decreases pieces.len(),
{
    let stage = BuildStageView::ReadingRequest { closure, list };
    let messages = agreement::carrying(PathListKind::OutputRequest, pieces);
    agreement::lemma_rest(PathListKind::OutputRequest, pieces);
    let event = BuildEventView::Received { message: messages[0], shown };
    let later = to_builder(messages.skip(1), shown);
    assert(to_builder(messages, shown) =~= seq![event] + later);
    lemma_builder_run_concat(stage, seq![event], later, build, authorized);
    lemma_builder_step(stage, event, build, authorized);
    let (next, first) = queued::build_step(stage, event, build, authorized);
    let (after, second) = builder_run(next, later, build, authorized);
    lemma_builder_said_concat(first, second, log);
    match path_chunks::read_piece(list, pieces[0], connection::list_limits()) {
        path_chunks::ReadStepView::More { state } => {
            lemma_request_is_read(
                closure,
                state,
                pieces.skip(1),
                paths,
                shown,
                build,
                authorized,
                log,
            );
            assert(builder_said(first, log) =~= Seq::<MessageView>::empty()) by {
                reveal_with_fuel(builder_said, 2);
            }
            assert(builder_said(first, log) + builder_said(second, log) =~= builder_said(
                second,
                log,
            ));
        },
        _ => {
            assert(pieces.len() == 1);
            assert(later =~= Seq::<BuildEventView>::empty());
            assert(builder_said(first, log) + builder_said(second, log) =~= builder_said(
                first,
                log,
            ));
        },
    }
}

/// What a client lacks of what was built, it may ask for.
proof fn lemma_wanted_paths(g: GoodBuild, build: CheckedBuildView)
    requires
        is_good(g, build),
    ensures
        output_cache::requested_paths(g.wanted, g.closure) == Ok::<Seq<Seq<char>>, Seq<Seq<char>>>(
            commands::distinct(g.wanted),
        ),
        (commands::distinct(g.wanted).len() == 0) == (g.wanted.len() == 0),
        nix::checked_store_paths(commands::distinct(g.wanted)) == Ok::<
            Seq<Seq<char>>,
            Seq<Seq<char>>,
        >(commands::distinct(g.wanted)),
{
    let list = commands::distinct(g.wanted);
    assert forall|i: int| 0 <= i < g.wanted.len() implies nix::is_store_path(
        #[trigger] g.wanted[i],
    ) by {
        let k = choose|k: int| 0 <= k < g.closure.len() && g.closure[k] == g.wanted[i];
        assert(nix::is_store_path(g.closure[k]));
    }
    assert forall|i: int| 0 <= i < g.wanted.len() implies output_cache::request_fault(
        #[trigger] g.wanted[i],
        g.closure,
    ) is None by {
        nix::law_store_paths_are_accepted(g.wanted[i]);
        assert(g.closure.contains(g.wanted[i]));
    }
    output_cache::law_requested_paths_were_built(g.wanted, g.closure);
    commands::law_distinct(g.wanted);
    assert forall|i: int| 0 <= i < list.len() implies nix::is_store_path(#[trigger] list[i]) by {
        assert(list.to_set().contains(list[i]));
        assert(g.wanted.to_set().contains(list[i]));
        let k = choose|k: int| 0 <= k < g.wanted.len() && g.wanted[k] == list[i];
        assert(nix::is_store_path(g.wanted[k]));
    }
    nix::law_store_path_lists_are_accepted(list);
    if g.wanted.len() > 0 {
        assert(g.wanted.to_set().contains(g.wanted[0]));
        assert(list.to_set().contains(g.wanted[0]));
    }
    if list.len() > 0 {
        assert(list.to_set().contains(list[0]));
        assert(g.wanted.to_set().contains(list[0]));
    }
}

proof fn lemma_outputs_are_served(
    g: GoodBuild,
    build: CheckedBuildView,
    authorized: AuthorizedView,
)
    requires
        is_good(g, build),
    ensures
        ({
            let asked = to_builder(
                path_chunks::list_messages(PathListKind::OutputRequest, g.wanted),
                g.shown,
            );
            let served = where_some(
                g.wanted,
                seq![
                    BuildEventView::Received {
                        message: MessageView::OutputCacheDone,
                        shown: g.shown,
                    },
                    BuildEventView::Served,
                ],
            );
            let (after, actions) = builder_run(
                BuildStageView::ReadingRequest {
                    closure: g.closure,
                    list: path_chunks::nothing_read(),
                },
                asked + served,
                build,
                authorized,
            );
            &&& after == (BuildStageView::Telling { success: true })
            &&& builder_said(actions, g.log) == where_some(
                g.wanted,
                seq![
                    MessageView::OutputCacheReady {
                        copy_paths: commands::distinct(g.wanted),
                        closure_path_count: g.closure.len() as usize,
                    },
                ],
            ) + seq![MessageView::Done]
            &&& builder_heard(asked + served) == client_says(g)
        }),
{
    let stage = BuildStageView::ReadingRequest {
        closure: g.closure,
        list: path_chunks::nothing_read(),
    };
    let list = path_chunks::list_messages(PathListKind::OutputRequest, g.wanted);
    let pieces = path_chunks::written(g.wanted);
    let asked = to_builder(list, g.shown);
    agreement::lemma_written(g.wanted);
    lemma_wanted_paths(g, build);
    assert(list =~= agreement::carrying(PathListKind::OutputRequest, pieces));
    lemma_request_is_read(
        g.closure,
        path_chunks::nothing_read(),
        pieces,
        g.wanted,
        g.shown,
        build,
        authorized,
        g.log,
    );
    lemma_to_builder_is_heard(list, g.shown);
    let (middle, first) = builder_run(stage, asked, build, authorized);
    let last = queued::after_request(
        g.closure,
        path_chunks::ReadStepView::Finished { paths: g.wanted },
    ).1;
    let done = queued::all_served().1;
    assert(builder_said(done, g.log) =~= seq![MessageView::Done]) by {
        reveal_with_fuel(builder_said, 2);
    }
    if g.wanted.len() == 0 {
        assert(asked + Seq::<BuildEventView>::empty() =~= asked);
        assert(list + Seq::<MessageView>::empty() =~= list);
        assert(Seq::<MessageView>::empty() + seq![MessageView::Done] =~= seq![MessageView::Done]);
    } else {
        let ready = MessageView::OutputCacheReady {
            copy_paths: commands::distinct(g.wanted),
            closure_path_count: g.closure.len() as usize,
        };
        assert(builder_said(last, g.log) =~= seq![ready]) by {
            reveal_with_fuel(builder_said, 3);
        }
        let e1 = seq![
            BuildEventView::Received { message: MessageView::OutputCacheDone, shown: g.shown },
        ];
        let e2 = seq![BuildEventView::Served];
        let served = seq![
            BuildEventView::Received { message: MessageView::OutputCacheDone, shown: g.shown },
            BuildEventView::Served,
        ];
        assert(served =~= e1 + e2);
        lemma_builder_run_concat(stage, asked, served, build, authorized);
        lemma_builder_run_concat(middle, e1, e2, build, authorized);
        lemma_builder_step(middle, e1[0], build, authorized);
        let (third, second) = builder_run(middle, e1, build, authorized);
        lemma_builder_step(third, e2[0], build, authorized);
        assert(builder_said(second, g.log) =~= Seq::<MessageView>::empty()) by {
            reveal_with_fuel(builder_said, 2);
        }
        lemma_builder_said_concat(second, done, g.log);
        lemma_builder_said_concat(first, second + done, g.log);
        assert(builder_said(first, g.log) + builder_said(second + done, g.log) =~= seq![ready]
            + seq![MessageView::Done]);
        lemma_builder_heard_concat(asked, served);
        assert(builder_heard(served) =~= seq![MessageView::OutputCacheDone]) by {
            reveal_with_fuel(builder_heard, 3);
            assert(served.drop_last() =~= e1);
            assert(e1.drop_last() =~= Seq::<BuildEventView>::empty());
        }
    }
}

/// A build where nothing goes wrong ends for the builder with a success, and
/// the client is told of every step of it.
proof fn lemma_builder_ends_well(
    g: GoodBuild,
    build: CheckedBuildView,
    authorized: AuthorizedView,
)
    requires
        is_good(g, build),
    ensures
        ({
            let (after, actions) = builder_run(
                BuildStageView::Waiting,
                builder_events(g),
                build,
                authorized,
            );
            &&& after is Ended
            &&& actions.contains(
                ActionView::Finish { result: BuildResult::Success, fault: None },
            )
            &&& builder_said(queued::queueing(build, authorized) + actions, g.log) == builder_says(
                g,
                build,
            )
            &&& builder_heard(builder_events(g)) == client_says(g)
        }),
{
    let e1 = seq![
        BuildEventView::Permitted,
        BuildEventView::InputsChecked { missing: g.missing },
    ] + where_some(g.missing, seq![BuildEventView::Uploaded { still_missing: Seq::empty() }]);
    let e2 = seq![
        BuildEventView::Realised { success: true, output_paths: g.realised },
        BuildEventView::ClosureFound { closure: g.closure },
    ];
    let e3 = to_builder(
        path_chunks::list_messages(PathListKind::OutputRequest, g.wanted),
        g.shown,
    ) + where_some(
        g.wanted,
        seq![
            BuildEventView::Received { message: MessageView::OutputCacheDone, shown: g.shown },
            BuildEventView::Served,
        ],
    );
    let e4 = seq![BuildEventView::Performed];
    let e5 = seq![BuildEventView::Performed];
    let events = builder_events(g);
    assert(events =~= (((e1 + e2) + e3) + e4) + e5);
    lemma_inputs_come(g, build, authorized);
    lemma_outputs_are_built(g, build, authorized);
    lemma_outputs_are_served(g, build, authorized);
    let (s1, a1) = builder_run(BuildStageView::Waiting, e1, build, authorized);
    let (s2, a2) = builder_run(s1, e2, build, authorized);
    let (s3, a3) = builder_run(s2, e3, build, authorized);
    lemma_builder_run_concat(BuildStageView::Waiting, e1, e2, build, authorized);
    lemma_builder_run_concat(BuildStageView::Waiting, e1 + e2, e3, build, authorized);
    lemma_builder_run_concat(BuildStageView::Waiting, (e1 + e2) + e3, e4, build, authorized);
    lemma_builder_run_concat(
        BuildStageView::Waiting,
        ((e1 + e2) + e3) + e4,
        e5,
        build,
        authorized,
    );
    lemma_builder_step(s3, e4[0], build, authorized);
    let (s4, a4) = queued::build_step(s3, e4[0], build, authorized);
    lemma_builder_step(s4, e5[0], build, authorized);
    let a5 = queued::build_step(s4, e5[0], build, authorized).1;
    let actions = (((a1 + a2) + a3) + a4) + a5;
    assert(actions[((a1 + a2) + a3).len() as int] == a4[0]);
    let before = queued::queueing(build, authorized);
    assert(builder_said(before, g.log) =~= seq![MessageView::BuildQueued]) by {
        reveal_with_fuel(builder_said, 4);
    }
    assert(builder_said(a4, g.log) =~= Seq::<MessageView>::empty()) by {
        reveal_with_fuel(builder_said, 3);
    }
    lemma_builder_said_concat(a1, a2, g.log);
    lemma_builder_said_concat(a1 + a2, a3, g.log);
    lemma_builder_said_concat((a1 + a2) + a3, a4, g.log);
    lemma_builder_said_concat(((a1 + a2) + a3) + a4, a5, g.log);
    lemma_builder_said_concat(before, actions, g.log);
    assert(builder_said(before + actions, g.log) =~= builder_says(g, build));
    lemma_builder_heard_concat(e1, e2);
    lemma_builder_heard_concat(e1 + e2, e3);
    lemma_builder_heard_concat((e1 + e2) + e3, e4);
    lemma_builder_heard_concat(((e1 + e2) + e3) + e4, e5);
    assert(builder_heard(e4) =~= Seq::<MessageView>::empty()) by {
        reveal_with_fuel(builder_heard, 2);
    }
    assert(builder_heard(events) =~= client_says(g));
}

proof fn lemma_missing_is_read(
    s: SessionView,
    list: path_chunks::ReadStateView,
    pieces: Seq<PathListChunkView>,
    paths: Seq<Seq<char>>,
    shown: Seq<char>,
)
    requires
        s.stage == (session::ClientStageView::ReadingMissing { list }),
        agreement::ends_with_its_end(pieces),
        path_chunks::read_pieces(list, pieces, session::server_list_limits()) == (
        path_chunks::ReadStepView::Finished { paths }),
    ensures
        ({
            let (after, actions) = client_run(
                s,
                to_client(agreement::carrying(PathListKind::MissingPaths, pieces), shown),
            );
            &&& after == (SessionView {
                plan: s.plan,
                facts: session::FactsView { missing_path_count: paths.len(), ..s.facts },
                stage: session::after_missing(
                    s.plan,
                    path_chunks::ReadStepView::Finished { paths },
                ).0,
            })
            &&& client_said(actions) == Seq::<MessageView>::empty()
        }),
    decreases pieces.len(),
{
    let messages = agreement::carrying(PathListKind::MissingPaths, pieces);
    agreement::lemma_rest(PathListKind::MissingPaths, pieces);
    let event = ClientEventView::Received { message: messages[0], shown };
    let later = to_client(messages.skip(1), shown);
    assert(to_client(messages, shown) =~= seq![event] + later);
    lemma_client_run_concat(s, seq![event], later);
    lemma_client_step(s, event);
    let (next, first) = session::session_step(s, event);
    let (after, second) = client_run(next, later);
    lemma_client_said_concat(first, second);
    assert(client_said(first) =~= Seq::<MessageView>::empty()) by {
        reveal_with_fuel(client_said, 5);
    }
    match path_chunks::read_piece(list, pieces[0], session::server_list_limits()) {
        path_chunks::ReadStepView::More { state } => {
            lemma_missing_is_read(next, state, pieces.skip(1), paths, shown);
        },
        _ => {
            assert(pieces.len() == 1);
            assert(later =~= Seq::<ClientEventView>::empty());
        },
    }
}

proof fn lemma_closure_is_read(
    s: SessionView,
    list: path_chunks::ReadStateView,
    pieces: Seq<PathListChunkView>,
    paths: Seq<Seq<char>>,
    shown: Seq<char>,
)
    requires
        s.stage == (session::ClientStageView::ReadingClosure { list }),
        agreement::ends_with_its_end(pieces),
        path_chunks::read_pieces(list, pieces, session::server_list_limits()) == (
        path_chunks::ReadStepView::Finished { paths }),
    ensures
        ({
            let (after, actions) = client_run(
                s,
                to_client(agreement::carrying(PathListKind::OutputClosure, pieces), shown),
            );
            &&& after == (SessionView {
                stage: session::after_closure(path_chunks::ReadStepView::Finished { paths }).0,
                ..s
            })
            &&& client_said(actions) == Seq::<MessageView>::empty()
        }),
    decreases pieces.len(),
{
    let messages = agreement::carrying(PathListKind::OutputClosure, pieces);
    agreement::lemma_rest(PathListKind::OutputClosure, pieces);
    let event = ClientEventView::Received { message: messages[0], shown };
    let later = to_client(messages.skip(1), shown);
    assert(to_client(messages, shown) =~= seq![event] + later);
    lemma_client_run_concat(s, seq![event], later);
    lemma_client_step(s, event);
    let (next, first) = session::session_step(s, event);
    let (after, second) = client_run(next, later);
    lemma_client_said_concat(first, second);
    assert(client_said(first) =~= Seq::<MessageView>::empty()) by {
        reveal_with_fuel(client_said, 3);
    }
    match path_chunks::read_piece(list, pieces[0], session::server_list_limits()) {
        path_chunks::ReadStepView::More { state } => {
            lemma_closure_is_read(next, state, pieces.skip(1), paths, shown);
        },
        _ => {
            assert(pieces.len() == 1);
            assert(later =~= Seq::<ClientEventView>::empty());
        },
    }
}

/// The client uploads what is missing, and watches the build.
proof fn lemma_client_uploads(g: GoodBuild, build: CheckedBuildView, s: SessionView)
    requires
        is_good(g, build),
        s.stage is AwaitQueued,
    ensures
        ({
            let events = to_client(
                seq![MessageView::BuildQueued] + path_chunks::list_messages(
                    PathListKind::MissingPaths,
                    g.missing,
                ),
                g.shown,
            ) + where_some(
                g.missing,
                seq![
                    ClientEventView::Received {
                        message: MessageView::InputUploadReady,
                        shown: g.shown,
                    },
                    ClientEventView::Uploaded,
                ],
            );
            let (after, actions) = client_run(s, events);
            &&& after == (SessionView {
                plan: s.plan,
                facts: session::FactsView { missing_path_count: g.missing.len(), ..s.facts },
                stage: session::ClientStageView::Building,
            })
            &&& client_said(actions) == Seq::<MessageView>::empty()
            &&& client_heard(events) == seq![MessageView::BuildQueued]
                + path_chunks::list_messages(PathListKind::MissingPaths, g.missing) + where_some(
                g.missing,
                seq![MessageView::InputUploadReady],
            )
        }),
{
    let list = path_chunks::list_messages(PathListKind::MissingPaths, g.missing);
    let pieces = path_chunks::written(g.missing);
    let messages = seq![MessageView::BuildQueued] + list;
    let told = to_client(messages, g.shown);
    let queued_event = ClientEventView::Received {
        message: MessageView::BuildQueued,
        shown: g.shown,
    };
    let read = to_client(list, g.shown);
    agreement::lemma_written(g.missing);
    assert(list =~= agreement::carrying(PathListKind::MissingPaths, pieces));
    assert(told =~= seq![queued_event] + read);
    lemma_client_run_concat(s, seq![queued_event], read);
    lemma_client_step(s, queued_event);
    let (s1, a1) = session::session_step(s, queued_event);
    lemma_missing_is_read(s1, path_chunks::nothing_read(), pieces, g.missing, g.shown);
    let (s2, a2) = client_run(s1, read);
    lemma_client_said_concat(a1, a2);
    assert(client_said(a1) =~= Seq::<MessageView>::empty()) by {
        reveal_with_fuel(client_said, 3);
    }
    assert(client_said(a1 + a2) =~= Seq::<MessageView>::empty());
    lemma_to_client_is_heard(messages, g.shown);
    if g.missing.len() == 0 {
        assert(told + Seq::<ClientEventView>::empty() =~= told);
        assert(messages + Seq::<MessageView>::empty() =~= messages);
    } else {
        let e1 = seq![
            ClientEventView::Received { message: MessageView::InputUploadReady, shown: g.shown },
        ];
        let e2 = seq![ClientEventView::Uploaded];
        let uploaded = seq![
            ClientEventView::Received { message: MessageView::InputUploadReady, shown: g.shown },
            ClientEventView::Uploaded,
        ];
        assert(uploaded =~= e1 + e2);
        nix::law_store_path_lists_are_accepted(g.missing);
        lemma_client_run_concat(s, told, uploaded);
        lemma_client_run_concat(s2, e1, e2);
        lemma_client_step(s2, e1[0]);
        let (s3, a3) = session::session_step(s2, e1[0]);
        lemma_client_step(s3, e2[0]);
        let (s4, a4) = session::session_step(s3, e2[0]);
        assert(client_said(a3) =~= Seq::<MessageView>::empty()) by {
            reveal_with_fuel(client_said, 3);
        }
        assert(client_said(a4) =~= Seq::<MessageView>::empty()) by {
            reveal_with_fuel(client_said, 5);
        }
        lemma_client_said_concat(a3, a4);
        lemma_client_said_concat(a1 + a2, a3 + a4);
        lemma_client_heard_concat(told, uploaded);
        assert(client_heard(uploaded) =~= seq![MessageView::InputUploadReady]) by {
            reveal_with_fuel(client_heard, 3);
            assert(uploaded.drop_last() =~= e1);
            assert(e1.drop_last() =~= Seq::<ClientEventView>::empty());
        }
    }
}

/// The client shows the log, and goes on watching.
proof fn lemma_log_is_watched(s: SessionView, log: Seq<Seq<char>>, shown: Seq<char>)
    requires
        s.stage is Building,
    ensures
        ({
            let (after, actions) = client_run(s, to_client(log_messages(log), shown));
            after == s && client_said(actions) == Seq::<MessageView>::empty()
        }),
    decreases log.len(),
{
    let events = to_client(log_messages(log), shown);
    if log.len() > 0 {
        let shorter = log.drop_last();
        assert(events.drop_last() =~= to_client(log_messages(shorter), shown));
        lemma_log_is_watched(s, shorter, shown);
        let (before, earlier) = client_run(s, events.drop_last());
        let actions = session::session_step(before, events.last()).1;
        lemma_client_said_concat(earlier, actions);
        assert(client_said(actions) =~= Seq::<MessageView>::empty()) by {
            reveal_with_fuel(client_said, 3);
        }
    }
}

/// The client learns of the outputs, and of what they need.
proof fn lemma_client_learns_outputs(g: GoodBuild, build: CheckedBuildView, s: SessionView)
    requires
        is_good(g, build),
        s.stage is Building,
    ensures
        ({
            let (after, actions) = client_run(
                s,
                to_client(told_of_outputs(g, build), g.shown),
            );
            &&& after == (SessionView {
                plan: s.plan,
                facts: session::FactsView { output_paths: build.output_paths, ..s.facts },
                stage: session::ClientStageView::CheckingOutputs { closure: g.closure },
            })
            &&& client_said(actions) == Seq::<MessageView>::empty()
        }),
{
    let list = path_chunks::list_messages(PathListKind::OutputClosure, g.closure);
    let pieces = path_chunks::written(g.closure);
    let finished = MessageView::BuildFinished { success: true, output_paths: build.output_paths };
    let e1 = seq![ClientEventView::Received { message: MessageView::BuildStarted, shown: g.shown }];
    let watched = to_client(log_messages(g.log), g.shown);
    let e2 = seq![ClientEventView::Received { message: finished, shown: g.shown }];
    let read = to_client(list, g.shown);
    agreement::lemma_written(g.closure);
    nix::law_store_path_lists_are_accepted(g.closure);
    assert(list =~= agreement::carrying(PathListKind::OutputClosure, pieces));
    assert(to_client(told_of_outputs(g, build), g.shown) =~= ((e1 + watched) + e2) + read);
    lemma_client_run_concat(s, e1, watched);
    lemma_client_run_concat(s, e1 + watched, e2);
    lemma_client_run_concat(s, (e1 + watched) + e2, read);
    lemma_client_step(s, e1[0]);
    let (s1, a1) = session::session_step(s, e1[0]);
    lemma_log_is_watched(s1, g.log, g.shown);
    let (s2, a2) = client_run(s1, watched);
    lemma_client_step(s2, e2[0]);
    let (s3, a3) = session::session_step(s2, e2[0]);
    lemma_closure_is_read(s3, path_chunks::nothing_read(), pieces, g.closure, g.shown);
    let (s4, a4) = client_run(s3, read);
    assert(client_said(a1) =~= Seq::<MessageView>::empty()) by {
        reveal_with_fuel(client_said, 2);
    }
    assert(client_said(a3) =~= Seq::<MessageView>::empty()) by {
        reveal_with_fuel(client_said, 5);
    }
    lemma_client_said_concat(a1, a2);
    lemma_client_said_concat(a1 + a2, a3);
    lemma_client_said_concat((a1 + a2) + a3, a4);
}

/// The client asks for what it lacks, imports it, and is done.
#[verifier::rlimit(60)]
proof fn lemma_client_imports(g: GoodBuild, build: CheckedBuildView, s: SessionView)
    requires
        is_good(g, build),
        s.stage == (session::ClientStageView::CheckingOutputs { closure: g.closure }),
    ensures
        ({
            let events = seq![ClientEventView::MissingFound { missing: g.wanted }] + where_some(
                g.wanted,
                seq![
                    ClientEventView::Received {
                        message: MessageView::OutputCacheReady {
                            copy_paths: commands::distinct(g.wanted),
                            closure_path_count: g.closure.len() as usize,
                        },
                        shown: g.shown,
                    },
                    ClientEventView::Imported { result: Ok(g.bytes) },
                ],
            ) + seq![ClientEventView::Received { message: MessageView::Done, shown: g.shown }];
            let (after, actions) = client_run(s, events);
            &&& after == (SessionView {
                stage: session::ClientStageView::Closing { verdict: Ok(()) },
                ..s
            })
            &&& client_said(actions) == client_says(g)
            &&& client_heard(events) == where_some(
                g.wanted,
                seq![
                    MessageView::OutputCacheReady {
                        copy_paths: commands::distinct(g.wanted),
                        closure_path_count: g.closure.len() as usize,
                    },
                ],
            ) + seq![MessageView::Done]
        }),
{
    let list = path_chunks::list_messages(PathListKind::OutputRequest, g.wanted);
    let ready = MessageView::OutputCacheReady {
        copy_paths: commands::distinct(g.wanted),
        closure_path_count: g.closure.len() as usize,
    };
    let e1 = seq![ClientEventView::MissingFound { missing: g.wanted }];
    let e2 = seq![ClientEventView::Received { message: ready, shown: g.shown }];
    let e3 = seq![ClientEventView::Imported { result: Ok(g.bytes) }];
    let e4 = seq![ClientEventView::Received { message: MessageView::Done, shown: g.shown }];
    lemma_wanted_paths(g, build);
    lemma_client_step(s, e1[0]);
    let (s1, a1) = session::session_step(s, e1[0]);
    assert(client_said(a1) =~= list) by {
        reveal_with_fuel(client_said, 4);
    }
    assert(client_heard(e1) =~= Seq::<MessageView>::empty()) by {
        reveal_with_fuel(client_heard, 2);
    }
    assert(client_heard(e4) =~= seq![MessageView::Done]) by {
        reveal_with_fuel(client_heard, 2);
        assert(e4.drop_last() =~= Seq::<ClientEventView>::empty());
    }
    if g.wanted.len() == 0 {
        let events = (e1 + Seq::<ClientEventView>::empty()) + e4;
        assert(events =~= e1 + e4);
        lemma_client_run_concat(s, e1, e4);
        lemma_client_step(s1, e4[0]);
        let (s2, a2) = session::session_step(s1, e4[0]);
        assert(client_said(a2) =~= Seq::<MessageView>::empty()) by {
            reveal_with_fuel(client_said, 5);
        }
        lemma_client_said_concat(a1, a2);
        lemma_client_heard_concat(e1, e4);
    } else {
        let fetched = seq![
            ClientEventView::Received { message: ready, shown: g.shown },
            ClientEventView::Imported { result: Ok(g.bytes) },
        ];
        assert((e1 + fetched) + e4 =~= ((e1 + e2) + e3) + e4);
        lemma_client_run_concat(s, e1, e2);
        lemma_client_run_concat(s, e1 + e2, e3);
        lemma_client_run_concat(s, (e1 + e2) + e3, e4);
        lemma_client_step(s1, e2[0]);
        let (s2, a2) = session::session_step(s1, e2[0]);
        lemma_client_step(s2, e3[0]);
        let (s3, a3) = session::session_step(s2, e3[0]);
        lemma_client_step(s3, e4[0]);
        let (s4, a4) = session::session_step(s3, e4[0]);
        assert(client_said(a2) =~= Seq::<MessageView>::empty()) by {
            reveal_with_fuel(client_said, 2);
        }
        assert(client_said(a3) =~= seq![MessageView::OutputCacheDone]) by {
            reveal_with_fuel(client_said, 3);
        }
        assert(client_said(a4) =~= Seq::<MessageView>::empty()) by {
            reveal_with_fuel(client_said, 5);
        }
        lemma_client_said_concat(a1, a2);
        lemma_client_said_concat(a1 + a2, a3);
        lemma_client_said_concat((a1 + a2) + a3, a4);
        lemma_client_heard_concat(e1, e2);
        lemma_client_heard_concat(e1 + e2, e3);
        lemma_client_heard_concat((e1 + e2) + e3, e4);
        assert(client_heard(e2) =~= seq![ready]) by {
            reveal_with_fuel(client_heard, 2);
            assert(e2.drop_last() =~= Seq::<ClientEventView>::empty());
        }
        assert(client_heard(e3) =~= Seq::<MessageView>::empty()) by {
            reveal_with_fuel(client_heard, 2);
        }
    }
}

/// A build where nothing goes wrong ends for the client with its outputs.
proof fn lemma_client_ends_well(g: GoodBuild, build: CheckedBuildView, s: SessionView)
    requires
        is_good(g, build),
        s.stage is AwaitQueued,
    ensures
        ({
            let (after, actions) = client_run(s, client_events(g, build));
            &&& after == (SessionView {
                plan: s.plan,
                facts: session::FactsView {
                    missing_path_count: g.missing.len(),
                    output_paths: build.output_paths,
                    ..s.facts
                },
                stage: session::ClientStageView::Ended,
            })
            &&& actions.len() > 0
            &&& actions.last() is Succeed
            &&& client_said(actions) == client_says(g)
            &&& client_heard(client_events(g, build)) == builder_says(g, build)
        }),
{
    let e1 = to_client(
        seq![MessageView::BuildQueued] + path_chunks::list_messages(
            PathListKind::MissingPaths,
            g.missing,
        ),
        g.shown,
    ) + where_some(
        g.missing,
        seq![
            ClientEventView::Received { message: MessageView::InputUploadReady, shown: g.shown },
            ClientEventView::Uploaded,
        ],
    );
    let told = told_of_outputs(g, build);
    let e2 = to_client(told, g.shown);
    let e3 = seq![ClientEventView::MissingFound { missing: g.wanted }] + where_some(
        g.wanted,
        seq![
            ClientEventView::Received {
                message: MessageView::OutputCacheReady {
                    copy_paths: commands::distinct(g.wanted),
                    closure_path_count: g.closure.len() as usize,
                },
                shown: g.shown,
            },
            ClientEventView::Imported { result: Ok(g.bytes) },
        ],
    ) + seq![ClientEventView::Received { message: MessageView::Done, shown: g.shown }];
    let e4 = seq![ClientEventView::Closed];
    assert(client_events(g, build) =~= ((e1 + e2) + e3) + e4);
    lemma_client_uploads(g, build, s);
    let (s1, a1) = client_run(s, e1);
    lemma_client_learns_outputs(g, build, s1);
    let (s2, a2) = client_run(s1, e2);
    lemma_client_imports(g, build, s2);
    let (s3, a3) = client_run(s2, e3);
    lemma_client_run_concat(s, e1, e2);
    lemma_client_run_concat(s, e1 + e2, e3);
    lemma_client_run_concat(s, (e1 + e2) + e3, e4);
    lemma_client_step(s3, e4[0]);
    let a4 = session::session_step(s3, e4[0]).1;
    lemma_client_said_concat(a1, a2);
    lemma_client_said_concat(a1 + a2, a3);
    lemma_client_said_concat((a1 + a2) + a3, a4);
    assert(client_said(a4) =~= Seq::<MessageView>::empty()) by {
        reveal_with_fuel(client_said, 2);
    }
    assert(client_said(((a1 + a2) + a3) + a4) =~= client_says(g));
    assert((((a1 + a2) + a3) + a4).last() == a4.last());
    lemma_to_client_is_heard(told, g.shown);
    lemma_client_heard_concat(e1, e2);
    lemma_client_heard_concat(e1 + e2, e3);
    lemma_client_heard_concat((e1 + e2) + e3, e4);
    assert(client_heard(e4) =~= Seq::<MessageView>::empty()) by {
        reveal_with_fuel(client_heard, 2);
    }
    assert(client_heard(((e1 + e2) + e3) + e4) =~= builder_says(g, build));
}

// ---------------------------------------------------------------------------
// Laws
// ---------------------------------------------------------------------------

/// A build that was accepted, and where nothing goes wrong, ends well on both
/// sides: the builder notes a success, and the client has the outputs. Each
/// side hears just what the other one says, in that order, whatever the log of
/// the build is.
pub proof fn law_good_builds_end_well(
    g: GoodBuild,
    build: CheckedBuildView,
    authorized: AuthorizedView,
    s: SessionView,
)
    requires
        is_good(g, build),
        s.stage is AwaitQueued,
    ensures
        ({
            let (built, done) = builder_run(
                BuildStageView::Waiting,
                builder_events(g),
                build,
                authorized,
            );
            let (ended, shown) = client_run(s, client_events(g, build));
            &&& built is Ended
            &&& done.contains(ActionView::Finish { result: BuildResult::Success, fault: None })
            &&& ended.stage is Ended
            &&& ended.facts.output_paths == build.output_paths
            &&& ended.facts.missing_path_count == g.missing.len()
            &&& shown.last() is Succeed
            &&& builder_heard(builder_events(g)) == client_said(shown)
            &&& client_heard(client_events(g, build)) == builder_said(
                queued::queueing(build, authorized) + done,
                g.log,
            )
        }),
{
    lemma_builder_ends_well(g, build, authorized);
    lemma_client_ends_well(g, build, s);
}

} // verus!
