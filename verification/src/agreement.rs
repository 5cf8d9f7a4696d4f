//! Client and builder understand each other: what one of them sends, the
//! other one takes as it was meant.

pub mod admission;
pub mod whole_builds;

use vstd::prelude::*;

use crate::access;
use crate::chunks;
use crate::client;
use crate::client::session;
use crate::endpoint;
use crate::hex;
use crate::proto::{BuildRequestView, MessageView, PathListChunkView};
use crate::protocol::path_chunks;
use crate::protocol::path_chunks::PathListKind;
use crate::server::auth;
use crate::server::builds;
use crate::server::connection;
use crate::server::output_cache;
use crate::server::queued;

verus! {

// ---------------------------------------------------------------------------
// What a series of messages does
// ---------------------------------------------------------------------------

/// How far a connection is after messages came.
pub open spec fn connection_after(
    state: connection::HandshakeView,
    messages: Seq<MessageView>,
    shown: Seq<char>,
    peer: Seq<u8>,
    trusted: Seq<access::TrustedEndpointView>,
    builder_public_key: Seq<char>,
) -> connection::HandshakeView
    decreases messages.len(),
{
    if messages.len() == 0 {
        state
    } else {
        connection_after(
            connection::handshake_step(
                state,
                connection::HandshakeEventView::Received { message: messages[0], shown },
                peer,
                trusted,
                builder_public_key,
            ).0,
            messages.skip(1),
            shown,
            peer,
            trusted,
            builder_public_key,
        )
    }
}

/// How far a build is after messages came.
pub open spec fn build_after(
    stage: queued::BuildStageView,
    messages: Seq<MessageView>,
    shown: Seq<char>,
    build: builds::CheckedBuildView,
    authorized: auth::AuthorizedView,
) -> queued::BuildStageView
    decreases messages.len(),
{
    if messages.len() == 0 {
        stage
    } else {
        build_after(
            queued::build_step(
                stage,
                queued::BuildEventView::Received { message: messages[0], shown },
                build,
                authorized,
            ).0,
            messages.skip(1),
            shown,
            build,
            authorized,
        )
    }
}

/// What a session is after messages came.
pub open spec fn session_after(
    s: session::SessionView,
    messages: Seq<MessageView>,
    shown: Seq<char>,
) -> session::SessionView
    decreases messages.len(),
{
    if messages.len() == 0 {
        s
    } else {
        session_after(
            session::session_step(
                s,
                session::ClientEventView::Received { message: messages[0], shown },
            ).0,
            messages.skip(1),
            shown,
        )
    }
}

// ---------------------------------------------------------------------------
// Lists
// ---------------------------------------------------------------------------

/// The messages that carry pieces.
pub open spec fn carrying(kind: PathListKind, pieces: Seq<PathListChunkView>) -> Seq<MessageView> {
    Seq::new(pieces.len(), |i: int| path_chunks::carried(kind, pieces[i]))
}

/// Only the last piece says that it is the last.
pub open spec fn ends_with_its_end(pieces: Seq<PathListChunkView>) -> bool {
    forall|i: int| 0 <= i < pieces.len() - 1 ==> !(#[trigger] pieces[i]).done
}

/// A list that both sides take: within the limits on paths and bytes.
pub open spec fn is_takeable(paths: Seq<Seq<char>>) -> bool {
    paths.len() <= 100_000 && path_chunks::byte_len(paths) <= 16_777_216
}

proof fn lemma_piece_count(paths: Seq<Seq<char>>)
    ensures
        512 * chunks::pieces(paths, 512).len() < paths.len() + 512,
    decreases paths.len(),
{
    if paths.len() > 512 {
        lemma_piece_count(paths.skip(512));
    }
}

proof fn lemma_written(paths: Seq<Seq<char>>)
    requires
        is_takeable(paths),
    ensures
        path_chunks::read_pieces(
            path_chunks::nothing_read(),
            path_chunks::written(paths),
            connection::list_limits(),
        ) == (path_chunks::ReadStepView::Finished { paths }),
        ends_with_its_end(path_chunks::written(paths)),
        path_chunks::written(paths).len() > 0,
{
    lemma_piece_count(paths);
    path_chunks::law_lists_are_read_as_written(paths, connection::list_limits());
    chunks::law_pieces_assemble(paths, 512);
}

proof fn lemma_rest(kind: PathListKind, pieces: Seq<PathListChunkView>)
    requires
        pieces.len() > 0,
        ends_with_its_end(pieces),
    ensures
        carrying(kind, pieces)[0] == path_chunks::carried(kind, pieces[0]),
        carrying(kind, pieces).skip(1) == carrying(kind, pieces.skip(1)),
        ends_with_its_end(pieces.skip(1)),
        pieces.len() > 1 ==> !pieces[0].done,
{
    assert(carrying(kind, pieces).skip(1) =~= carrying(kind, pieces.skip(1)));
    let rest = pieces.skip(1);
    assert forall|i: int| 0 <= i < rest.len() - 1 implies !(#[trigger] rest[i]).done by {
        assert(rest[i] == pieces[i + 1]);
    }
}

proof fn lemma_connection_reads(
    authorized: auth::AuthorizedView,
    request: BuildRequestView,
    list: path_chunks::ReadStateView,
    pieces: Seq<PathListChunkView>,
    paths: Seq<Seq<char>>,
    shown: Seq<char>,
    peer: Seq<u8>,
    trusted: Seq<access::TrustedEndpointView>,
    builder_public_key: Seq<char>,
)
    requires
        ends_with_its_end(pieces),
        path_chunks::read_pieces(list, pieces, connection::list_limits()) == (
        path_chunks::ReadStepView::Finished { paths }),
    ensures
        connection_after(
            connection::HandshakeView::ReadingPaths { authorized, request, list },
            carrying(PathListKind::BuildPaths, pieces),
            shown,
            peer,
            trusted,
            builder_public_key,
        ) == connection::after_paths(
            authorized,
            request,
            path_chunks::ReadStepView::Finished { paths },
        ).0,
    decreases pieces.len(),
{
    let messages = carrying(PathListKind::BuildPaths, pieces);
    lemma_rest(PathListKind::BuildPaths, pieces);
    let step = path_chunks::read_piece(list, pieces[0], connection::list_limits());
    let next = connection::handshake_step(
        connection::HandshakeView::ReadingPaths { authorized, request, list },
        connection::HandshakeEventView::Received { message: messages[0], shown },
        peer,
        trusted,
        builder_public_key,
    ).0;
    assert(next == connection::after_paths(authorized, request, step).0);
    match step {
        path_chunks::ReadStepView::More { state } => {
            lemma_connection_reads(
                authorized,
                request,
                state,
                pieces.skip(1),
                paths,
                shown,
                peer,
                trusted,
                builder_public_key,
            );
        },
        _ => {
            assert(pieces.len() == 1);
            assert(connection_after(
                next,
                messages.skip(1),
                shown,
                peer,
                trusted,
                builder_public_key,
            ) == next);
        },
    }
}

proof fn lemma_build_reads(
    closure: Seq<Seq<char>>,
    list: path_chunks::ReadStateView,
    pieces: Seq<PathListChunkView>,
    paths: Seq<Seq<char>>,
    shown: Seq<char>,
    build: builds::CheckedBuildView,
    authorized: auth::AuthorizedView,
)
    requires
        ends_with_its_end(pieces),
        path_chunks::read_pieces(list, pieces, connection::list_limits()) == (
        path_chunks::ReadStepView::Finished { paths }),
    ensures
        build_after(
            queued::BuildStageView::ReadingRequest { closure, list },
            carrying(PathListKind::OutputRequest, pieces),
            shown,
            build,
            authorized,
        ) == queued::after_request(closure, path_chunks::ReadStepView::Finished { paths }).0,
    decreases pieces.len(),
{
    let messages = carrying(PathListKind::OutputRequest, pieces);
    lemma_rest(PathListKind::OutputRequest, pieces);
    let step = path_chunks::read_piece(list, pieces[0], connection::list_limits());
    let next = queued::build_step(
        queued::BuildStageView::ReadingRequest { closure, list },
        queued::BuildEventView::Received { message: messages[0], shown },
        build,
        authorized,
    ).0;
    assert(next == queued::after_request(closure, step).0);
    match step {
        path_chunks::ReadStepView::More { state } => {
            lemma_build_reads(closure, state, pieces.skip(1), paths, shown, build, authorized);
        },
        _ => {
            assert(pieces.len() == 1);
            assert(build_after(next, messages.skip(1), shown, build, authorized) == next);
        },
    }
}

proof fn lemma_session_reads_missing(
    s: session::SessionView,
    list: path_chunks::ReadStateView,
    pieces: Seq<PathListChunkView>,
    paths: Seq<Seq<char>>,
    shown: Seq<char>,
)
    requires
        s.stage == (session::ClientStageView::ReadingMissing { list }),
        ends_with_its_end(pieces),
        path_chunks::read_pieces(list, pieces, session::server_list_limits()) == (
        path_chunks::ReadStepView::Finished { paths }),
    ensures
        session_after(s, carrying(PathListKind::MissingPaths, pieces), shown) == (
        session::SessionView {
            plan: s.plan,
            facts: session::FactsView { missing_path_count: paths.len(), ..s.facts },
            stage: session::after_missing(
                s.plan,
                path_chunks::ReadStepView::Finished { paths },
            ).0,
        }),
    decreases pieces.len(),
{
    let messages = carrying(PathListKind::MissingPaths, pieces);
    lemma_rest(PathListKind::MissingPaths, pieces);
    let step = path_chunks::read_piece(list, pieces[0], session::server_list_limits());
    let next = session::session_step(
        s,
        session::ClientEventView::Received { message: messages[0], shown },
    ).0;
    assert(next.stage == session::after_missing(s.plan, step).0);
    match step {
        path_chunks::ReadStepView::More { state } => {
            assert(next.facts == s.facts);
            lemma_session_reads_missing(next, state, pieces.skip(1), paths, shown);
        },
        _ => {
            assert(pieces.len() == 1);
            assert(session_after(next, messages.skip(1), shown) == next);
        },
    }
}

proof fn lemma_session_reads_closure(
    s: session::SessionView,
    list: path_chunks::ReadStateView,
    pieces: Seq<PathListChunkView>,
    paths: Seq<Seq<char>>,
    shown: Seq<char>,
)
    requires
        s.stage == (session::ClientStageView::ReadingClosure { list }),
        ends_with_its_end(pieces),
        path_chunks::read_pieces(list, pieces, session::server_list_limits()) == (
        path_chunks::ReadStepView::Finished { paths }),
    ensures
        session_after(s, carrying(PathListKind::OutputClosure, pieces), shown) == (
        session::SessionView {
            stage: session::after_closure(path_chunks::ReadStepView::Finished { paths }).0,
            ..s
        }),
    decreases pieces.len(),
{
    let messages = carrying(PathListKind::OutputClosure, pieces);
    lemma_rest(PathListKind::OutputClosure, pieces);
    let step = path_chunks::read_piece(list, pieces[0], session::server_list_limits());
    let next = session::session_step(
        s,
        session::ClientEventView::Received { message: messages[0], shown },
    ).0;
    assert(next.stage == session::after_closure(step).0);
    assert(next.facts == s.facts);
    match step {
        path_chunks::ReadStepView::More { state } => {
            lemma_session_reads_closure(next, state, pieces.skip(1), paths, shown);
        },
        _ => {
            assert(pieces.len() == 1);
            assert(session_after(next, messages.skip(1), shown) == next);
        },
    }
}

// ---------------------------------------------------------------------------
// Laws
// ---------------------------------------------------------------------------

/// A client that greets under its own id gets to the point where the builder
/// decides about it: by its key, or by the secret of its ticket.
pub proof fn law_builders_understand_greetings(
    plan: session::PlanView,
    auth: client::BuildAuthView,
    peer: Seq<u8>,
    trusted: Seq<access::TrustedEndpointView>,
    builder_public_key: Seq<char>,
    shown: Seq<char>,
)
    requires
        plan.auth == Some(auth),
        endpoint::is_endpoint_key(peer),
    ensures
        connection_after(
            connection::HandshakeView::AwaitHello,
            session::greetings(plan, hex::hex_text(peer)),
            shown,
            peer,
            trusted,
            builder_public_key,
        ) == (match auth {
            client::BuildAuthView::TrustedClient { .. } => connection::after_auth(
                auth::trusted_outcome(peer, access::entry_for(trusted, peer), builder_public_key),
            ).0,
            client::BuildAuthView::Ticket(ticket) => connection::HandshakeView::CheckingTicket {
                secret: ticket.secret,
            },
        }),
{
    let messages = session::greetings(plan, hex::hex_text(peer));
    auth::law_honest_greetings_are_accepted(peer);
    let rest = messages.skip(1);
    assert(rest =~= seq![client::auth_for(auth)]);
    assert(rest.skip(1) =~= Seq::<MessageView>::empty());
    reveal_with_fuel(connection_after, 3);
}

/// A client that the builder lets in knows it, and learns the builder's key.
pub proof fn law_clients_understand_admission(
    s: session::SessionView,
    shown: Seq<char>,
    name: Option<Seq<char>>,
    builder_public_key: Seq<char>,
)
    requires
        s.stage is AwaitAuthOk,
    ensures
        ({
            let after = session_after(
                s,
                seq![auth::auth_ok(name, builder_public_key)],
                shown,
            );
            &&& after.stage is CheckingTrust
            &&& after.facts.builder_public_key == builder_public_key
        }),
{
    let messages = seq![auth::auth_ok(name, builder_public_key)];
    assert(messages.skip(1) =~= Seq::<MessageView>::empty());
    reveal_with_fuel(session_after, 2);
}

/// The builder reads a request with its closure as the client sent it.
pub proof fn law_builders_read_requests(
    authorized: auth::AuthorizedView,
    request: BuildRequestView,
    closure: Seq<Seq<char>>,
    shown: Seq<char>,
    peer: Seq<u8>,
    trusted: Seq<access::TrustedEndpointView>,
    builder_public_key: Seq<char>,
)
    requires
        is_takeable(closure),
    ensures
        connection_after(
            connection::HandshakeView::AwaitRequest { authorized },
            seq![MessageView::BuildRequest(request)] + path_chunks::list_messages(
                PathListKind::BuildPaths,
                closure,
            ),
            shown,
            peer,
            trusted,
            builder_public_key,
        ) == connection::after_paths(
            authorized,
            request,
            path_chunks::ReadStepView::Finished { paths: closure },
        ).0,
{
    let list = path_chunks::list_messages(PathListKind::BuildPaths, closure);
    let pieces = path_chunks::written(closure);
    let messages = seq![MessageView::BuildRequest(request)] + list;
    lemma_written(closure);
    assert(messages.skip(1) =~= list);
    assert(list =~= carrying(PathListKind::BuildPaths, pieces));
    lemma_connection_reads(
        authorized,
        request,
        path_chunks::nothing_read(),
        pieces,
        closure,
        shown,
        peer,
        trusted,
        builder_public_key,
    );
}

/// The client reads the paths that the builder lacks as the builder sent them:
/// where there are some it waits to upload just these, and otherwise it
/// watches the build.
pub proof fn law_clients_read_missing_paths(
    s: session::SessionView,
    missing: Seq<Seq<char>>,
    shown: Seq<char>,
)
    requires
        s.stage is AwaitQueued,
        is_takeable(missing),
    ensures
        ({
            let after = session_after(
                s,
                seq![MessageView::BuildQueued] + path_chunks::list_messages(
                    PathListKind::MissingPaths,
                    missing,
                ),
                shown,
            );
            &&& after.facts.missing_path_count == missing.len()
            &&& after.stage == (if missing.len() == 0 {
                session::ClientStageView::Building
            } else {
                session::ClientStageView::AwaitUploadReady { missing }
            })
        }),
{
    let list = path_chunks::list_messages(PathListKind::MissingPaths, missing);
    let pieces = path_chunks::written(missing);
    let messages = seq![MessageView::BuildQueued] + list;
    lemma_written(missing);
    assert(messages.skip(1) =~= list);
    assert(list =~= carrying(PathListKind::MissingPaths, pieces));
    let next = session::session_step(
        s,
        session::ClientEventView::Received { message: messages[0], shown },
    ).0;
    lemma_session_reads_missing(next, path_chunks::nothing_read(), pieces, missing, shown);
}

/// The client reads the closure of what was built as the builder sent it.
pub proof fn law_clients_read_closures(
    s: session::SessionView,
    closure: Seq<Seq<char>>,
    shown: Seq<char>,
)
    requires
        s.stage == (session::ClientStageView::ReadingClosure {
            list: path_chunks::nothing_read(),
        }),
        is_takeable(closure),
    ensures
        session_after(
            s,
            path_chunks::list_messages(PathListKind::OutputClosure, closure),
            shown,
        ) == (session::SessionView {
            stage: session::after_closure(
                path_chunks::ReadStepView::Finished { paths: closure },
            ).0,
            ..s
        }),
{
    let pieces = path_chunks::written(closure);
    lemma_written(closure);
    assert(path_chunks::list_messages(PathListKind::OutputClosure, closure) =~= carrying(
        PathListKind::OutputClosure,
        pieces,
    ));
    lemma_session_reads_closure(s, path_chunks::nothing_read(), pieces, closure, shown);
}

/// The builder reads what a client lacks of the outputs as the client sent it.
/// Nothing is served to a client that lacks nothing, and all that another one
/// asks for of the closure is.
pub proof fn law_builders_read_output_requests(
    closure: Seq<Seq<char>>,
    missing: Seq<Seq<char>>,
    shown: Seq<char>,
    build: builds::CheckedBuildView,
    authorized: auth::AuthorizedView,
)
    requires
        is_takeable(missing),
        forall|i: int|
            0 <= i < missing.len() ==> output_cache::request_fault(
                #[trigger] missing[i],
                closure,
            ) is None,
    ensures
        build_after(
            queued::BuildStageView::ReadingRequest {
                closure,
                list: path_chunks::nothing_read(),
            },
            path_chunks::list_messages(PathListKind::OutputRequest, missing),
            shown,
            build,
            authorized,
        ) == (if missing.len() == 0 {
            queued::BuildStageView::Telling { success: true }
        } else {
            queued::BuildStageView::Serving
        }),
{
    let pieces = path_chunks::written(missing);
    lemma_written(missing);
    assert(path_chunks::list_messages(PathListKind::OutputRequest, missing) =~= carrying(
        PathListKind::OutputRequest,
        pieces,
    ));
    lemma_build_reads(
        closure,
        path_chunks::nothing_read(),
        pieces,
        missing,
        shown,
        build,
        authorized,
    );
    output_cache::law_requested_paths_were_built(missing, closure);
    crate::nix::commands::law_distinct(missing);
    if missing.len() > 0 {
        let list = crate::nix::commands::distinct(missing);
        assert(missing.contains(missing[0]));
        assert(missing.to_set().contains(missing[0]));
        assert(list.to_set().contains(missing[0]));
    }
}

} // verus!
