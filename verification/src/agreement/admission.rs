//! Clients that the builder lets in: client and builder come to the point
//! where the build is accepted, each hearing from the other just what that one
//! says.

use vstd::prelude::*;

use crate::access;
use crate::agreement;
use crate::agreement::whole_builds;
use crate::client;
use crate::client::session;
use crate::client::session::{ClientEventView, PlanView, SessionView};
use crate::endpoint;
use crate::hex;
use crate::nix;
use crate::proto::{BuildRequestView, MessageView, PathListChunkView};
use crate::protocol::path_chunks;
use crate::protocol::path_chunks::PathListKind;
use crate::server::auth;
use crate::server::auth::AuthorizedView;
use crate::server::builds;
use crate::server::builds::CheckedBuildView;
use crate::server::connection;
use crate::server::connection::{ActionView, HandshakeEventView, HandshakeView};
use crate::ticket::TicketRecord;

verus! {

// ---------------------------------------------------------------------------
// What a series of events does
// ---------------------------------------------------------------------------

/// A connection: who made it, and what the builder goes by.
pub struct Door {
    pub peer: Seq<u8>,
    pub trusted: Seq<access::TrustedEndpointView>,
    pub builder_public_key: Seq<char>,
}

pub open spec fn door_step(state: HandshakeView, event: HandshakeEventView, door: Door) -> (
    HandshakeView,
    Seq<ActionView>,
) {
    connection::handshake_step(state, event, door.peer, door.trusted, door.builder_public_key)
}

/// How far a connection is after events, and all that was done on it.
pub open spec fn door_run(state: HandshakeView, events: Seq<HandshakeEventView>, door: Door) -> (
    HandshakeView,
    Seq<ActionView>,
)
    decreases events.len(),
{
    if events.len() == 0 {
        (state, Seq::empty())
    } else {
        let (before, earlier) = door_run(state, events.drop_last(), door);
        let (after, actions) = door_step(before, events.last(), door);
        (after, earlier + actions)
    }
}

/// The messages that come to the builder when this happens.
pub open spec fn door_heard(events: Seq<HandshakeEventView>) -> Seq<MessageView>
    decreases events.len(),
{
    if events.len() == 0 {
        Seq::empty()
    } else {
        let earlier = door_heard(events.drop_last());
        match events.last() {
            HandshakeEventView::Received { message, .. } => earlier.push(message),
            _ => earlier,
        }
    }
}

/// Messages come to the builder.
pub open spec fn to_door(messages: Seq<MessageView>, shown: Seq<char>) -> Seq<HandshakeEventView> {
    Seq::new(
        messages.len(),
        |i: int| HandshakeEventView::Received { message: messages[i], shown },
    )
}

proof fn lemma_door_run_concat(
    state: HandshakeView,
    a: Seq<HandshakeEventView>,
    b: Seq<HandshakeEventView>,
    door: Door,
)
    ensures
        ({
            let (middle, first) = door_run(state, a, door);
            let (after, second) = door_run(middle, b, door);
            door_run(state, a + b, door) == (after, first + second)
        }),
    decreases b.len(),
{
    let (middle, first) = door_run(state, a, door);
    let (after, second) = door_run(middle, b, door);
    if b.len() == 0 {
        assert(a + b =~= a);
        assert(first + second =~= first);
    } else {
        assert((a + b).drop_last() =~= a + b.drop_last());
        lemma_door_run_concat(state, a, b.drop_last(), door);
        let (before, earlier) = door_run(middle, b.drop_last(), door);
        let actions = door_step(before, b.last(), door).1;
        assert((first + earlier) + actions =~= first + (earlier + actions));
    }
}

proof fn lemma_door_step(state: HandshakeView, event: HandshakeEventView, door: Door)
    ensures
        door_run(state, seq![event], door) == door_step(state, event, door),
{
    let none = Seq::<HandshakeEventView>::empty();
    assert(seq![event].drop_last() =~= none);
    assert(door_run(state, none, door) == (state, Seq::<ActionView>::empty()));
    let actions = door_step(state, event, door).1;
    assert(Seq::<ActionView>::empty() + actions =~= actions);
}

proof fn lemma_door_heard_concat(a: Seq<HandshakeEventView>, b: Seq<HandshakeEventView>)
    ensures
        door_heard(a + b) == door_heard(a) + door_heard(b),
    decreases b.len(),
{
    if b.len() == 0 {
        assert(a + b =~= a);
        assert(door_heard(a) + door_heard(b) =~= door_heard(a));
    } else {
        assert((a + b).drop_last() =~= a + b.drop_last());
        lemma_door_heard_concat(a, b.drop_last());
        assert(door_heard(a + b) =~= door_heard(a) + door_heard(b));
    }
}

proof fn lemma_to_door_is_heard(messages: Seq<MessageView>, shown: Seq<char>)
    ensures
        door_heard(to_door(messages, shown)) == messages,
    decreases messages.len(),
{
    if messages.len() > 0 {
        lemma_to_door_is_heard(messages.drop_last(), shown);
        assert(to_door(messages, shown).drop_last() =~= to_door(messages.drop_last(), shown));
        assert(messages.drop_last().push(messages.last()) =~= messages);
    }
}

// ---------------------------------------------------------------------------
// Good clients
// ---------------------------------------------------------------------------

/// What there is to a client that the builder lets in.
pub struct GoodClient {
    pub auth: client::BuildAuthView,
    /// The outputs that are wanted.
    pub outputs: Seq<Seq<char>>,
    /// Those of them that the client lacks.
    pub absent: Seq<Seq<char>>,
    pub drv_path: Seq<char>,
    /// All that the derivation needs.
    pub inputs: Seq<Seq<char>>,
    /// The ticket when it was checked, and when it was redeemed.
    pub checked: TicketRecord,
    pub redeemed: TicketRecord,
    /// How messages look when they are complained about.
    pub shown: Seq<char>,
}

/// What the builder decides about a client.
pub open spec fn decision(c: GoodClient, door: Door) -> auth::AuthOutcomeView {
    match c.auth {
        client::BuildAuthView::TrustedClient { .. } => auth::trusted_outcome(
            door.peer,
            access::entry_for(door.trusted, door.peer),
            door.builder_public_key,
        ),
        client::BuildAuthView::Ticket(ticket) => auth::ticket_outcome(
            door.peer,
            Ok(c.checked),
            ticket.secret,
            door.builder_public_key,
        ),
    }
}

/// The name under which a client is let in.
pub open spec fn known_name(c: GoodClient, door: Door) -> Option<Seq<char>> {
    match decision(c, door) {
        auth::AuthOutcomeView::Accepted {
            reply: MessageView::AuthOk { client_name, .. },
            ..
        } => client_name,
        _ => None,
    }
}

/// The builder lets the client in, its ticket is redeemed where it has one, and
/// there is something for it to build.
pub open spec fn is_welcome(c: GoodClient, plan: PlanView, door: Door) -> bool {
    &&& plan.auth == Some(c.auth)
    &&& endpoint::is_endpoint_key(door.peer)
    &&& decision(c, door) is Accepted
    &&& c.auth is Ticket ==> auth::ticket_limits(c.redeemed) is Ok
    &&& plan.rebuild || c.absent.len() > 0
    &&& c.outputs.len() > 0
    &&& agreement::is_takeable(c.inputs)
    &&& nix::is_store_path(c.drv_path)
    &&& forall|i: int| 0 <= i < c.outputs.len() ==> nix::is_store_path(#[trigger] c.outputs[i])
    &&& forall|i: int| 0 <= i < c.inputs.len() ==> nix::is_store_path(#[trigger] c.inputs[i])
}

/// What the client asks for.
pub open spec fn asked(c: GoodClient, plan: PlanView) -> BuildRequestView {
    BuildRequestView {
        installable: plan.installable,
        drv_path: c.drv_path,
        output_paths: c.outputs,
        output_mode: plan.output_mode,
        rebuild: plan.rebuild,
    }
}

/// What the builder builds for it.
pub open spec fn accepted(c: GoodClient, plan: PlanView) -> CheckedBuildView {
    CheckedBuildView {
        installable: plan.installable,
        drv_path: c.drv_path,
        output_mode: plan.output_mode,
        rebuild: plan.rebuild,
        closure_paths: builds::completed(c.inputs, c.drv_path),
        output_paths: c.outputs,
    }
}

/// The messages with which a client asks for a build.
pub open spec fn request_messages(c: GoodClient, plan: PlanView) -> Seq<MessageView> {
    seq![MessageView::BuildRequest(asked(c, plan))] + path_chunks::list_messages(
        PathListKind::BuildPaths,
        c.inputs,
    )
}

/// What is there only for clients with a ticket.
pub open spec fn for_tickets<A>(c: GoodClient, items: Seq<A>) -> Seq<A> {
    if c.auth is Ticket {
        items
    } else {
        Seq::empty()
    }
}

/// What happens to the builder.
pub open spec fn door_events(c: GoodClient, plan: PlanView, door: Door) -> Seq<
    HandshakeEventView,
> {
    to_door(session::greetings(plan, hex::hex_text(door.peer)), c.shown) + for_tickets(
        c,
        seq![HandshakeEventView::TicketChecked { checked: Ok(c.checked) }],
    ) + to_door(request_messages(c, plan), c.shown) + for_tickets(
        c,
        seq![HandshakeEventView::TicketRedeemed { redeemed: Ok(c.redeemed) }],
    )
}

/// What happens to the client.
pub open spec fn client_events(c: GoodClient, plan: PlanView, door: Door) -> Seq<
    ClientEventView,
> {
    seq![ClientEventView::OutputsResolved { paths: c.outputs }] + (if plan.rebuild {
        Seq::empty()
    } else {
        seq![ClientEventView::MissingFound { missing: c.absent }]
    }) + seq![
        ClientEventView::Connected { node_id: hex::hex_text(door.peer) },
        ClientEventView::Received {
            message: auth::auth_ok(known_name(c, door), door.builder_public_key),
            shown: c.shown,
        },
        ClientEventView::TrustChecked,
        ClientEventView::DerivationResolved { drv_path: c.drv_path },
        ClientEventView::ClosureFound { closure: c.inputs },
    ]
}

proof fn lemma_greetings_are_heard(c: GoodClient, plan: PlanView, door: Door)
    requires
        is_welcome(c, plan, door),
    ensures
        ({
            let events = to_door(
                session::greetings(plan, hex::hex_text(door.peer)),
                c.shown,
            ) + for_tickets(
                c,
                seq![HandshakeEventView::TicketChecked { checked: Ok(c.checked) }],
            );
            let (after, actions) = door_run(HandshakeView::AwaitHello, events, door);
            &&& after matches HandshakeView::AwaitRequest { authorized }
            &&& authorized.ticket_secret == (match c.auth {
                client::BuildAuthView::Ticket(ticket) => Some(ticket.secret),
                _ => None,
            })
            &&& whole_builds::builder_said(actions, Seq::empty()) == seq![
                auth::auth_ok(known_name(c, door), door.builder_public_key),
            ]
            &&& door_heard(events) == session::greetings(plan, hex::hex_text(door.peer))
        }),
{
    let messages = session::greetings(plan, hex::hex_text(door.peer));
    let e1 = HandshakeEventView::Received { message: messages[0], shown: c.shown };
    let e2 = HandshakeEventView::Received { message: messages[1], shown: c.shown };
    let told = to_door(messages, c.shown);
    assert(told =~= seq![e1] + seq![e2]);
    auth::law_honest_greetings_are_accepted(door.peer);
    lemma_door_run_concat(HandshakeView::AwaitHello, seq![e1], seq![e2], door);
    lemma_door_step(HandshakeView::AwaitHello, e1, door);
    let (s1, a1) = door_step(HandshakeView::AwaitHello, e1, door);
    assert(s1 is AwaitAuth);
    lemma_door_step(s1, e2, door);
    let (s2, a2) = door_step(s1, e2, door);
    assert(whole_builds::builder_said(a1, Seq::empty()) =~= Seq::<MessageView>::empty()) by {
        reveal_with_fuel(whole_builds::builder_said, 2);
    }
    whole_builds::lemma_builder_said_concat(a1, a2, Seq::empty());
    lemma_to_door_is_heard(messages, c.shown);
    let reply = auth::auth_ok(known_name(c, door), door.builder_public_key);
    match c.auth {
        client::BuildAuthView::TrustedClient { .. } => {
            assert(told + Seq::<HandshakeEventView>::empty() =~= told);
            assert(whole_builds::builder_said(a2, Seq::empty()) =~= seq![reply]) by {
                reveal_with_fuel(whole_builds::builder_said, 3);
            }
        },
        client::BuildAuthView::Ticket(ticket) => {
            let e3 = HandshakeEventView::TicketChecked { checked: Ok(c.checked) };
            assert(s2 == (HandshakeView::CheckingTicket { secret: ticket.secret }));
            lemma_door_run_concat(HandshakeView::AwaitHello, told, seq![e3], door);
            lemma_door_step(s2, e3, door);
            let (s3, a3) = door_step(s2, e3, door);
            assert(whole_builds::builder_said(a2, Seq::empty()) =~= Seq::<
                MessageView,
            >::empty()) by {
                reveal_with_fuel(whole_builds::builder_said, 2);
            }
            assert(whole_builds::builder_said(a3, Seq::empty()) =~= seq![reply]) by {
                reveal_with_fuel(whole_builds::builder_said, 3);
            }
            whole_builds::lemma_builder_said_concat(a1 + a2, a3, Seq::empty());
            lemma_door_heard_concat(told, seq![e3]);
            assert(door_heard(seq![e3]) =~= Seq::<MessageView>::empty()) by {
                reveal_with_fuel(door_heard, 2);
            }
        },
    }
}

proof fn lemma_paths_are_read(
    authorized: AuthorizedView,
    request: BuildRequestView,
    list: path_chunks::ReadStateView,
    pieces: Seq<PathListChunkView>,
    paths: Seq<Seq<char>>,
    shown: Seq<char>,
    door: Door,
)
    requires
        agreement::ends_with_its_end(pieces),
        path_chunks::read_pieces(list, pieces, connection::list_limits()) == (
        path_chunks::ReadStepView::Finished { paths }),
    ensures
        ({
            let (after, actions) = door_run(
                HandshakeView::ReadingPaths { authorized, request, list },
                to_door(agreement::carrying(PathListKind::BuildPaths, pieces), shown),
                door,
            );
            let (last, done) = connection::after_paths(
                authorized,
                request,
                path_chunks::ReadStepView::Finished { paths },
            );
            &&& after == last
            &&& whole_builds::builder_said(actions, Seq::empty()) == whole_builds::builder_said(
                done,
                Seq::empty(),
            )
        }),
    decreases pieces.len(),
{
    let state = HandshakeView::ReadingPaths { authorized, request, list };
    let messages = agreement::carrying(PathListKind::BuildPaths, pieces);
    agreement::lemma_rest(PathListKind::BuildPaths, pieces);
    let event = HandshakeEventView::Received { message: messages[0], shown };
    let later = to_door(messages.skip(1), shown);
    assert(to_door(messages, shown) =~= seq![event] + later);
    lemma_door_run_concat(state, seq![event], later, door);
    lemma_door_step(state, event, door);
    let (next, first) = door_step(state, event, door);
    let (after, second) = door_run(next, later, door);
    whole_builds::lemma_builder_said_concat(first, second, Seq::empty());
    match path_chunks::read_piece(list, pieces[0], connection::list_limits()) {
        path_chunks::ReadStepView::More { state } => {
            lemma_paths_are_read(authorized, request, state, pieces.skip(1), paths, shown, door);
            assert(whole_builds::builder_said(first, Seq::empty()) =~= Seq::<
                MessageView,
            >::empty()) by {
                reveal_with_fuel(whole_builds::builder_said, 2);
            }
            assert(whole_builds::builder_said(first, Seq::empty()) + whole_builds::builder_said(
                second,
                Seq::empty(),
            ) =~= whole_builds::builder_said(second, Seq::empty()));
        },
        _ => {
            assert(pieces.len() == 1);
            assert(later =~= Seq::<HandshakeEventView>::empty());
            assert(whole_builds::builder_said(first, Seq::empty()) + whole_builds::builder_said(
                second,
                Seq::empty(),
            ) =~= whole_builds::builder_said(first, Seq::empty()));
        },
    }
}

/// The request of a welcome client is in order.
proof fn lemma_request_is_in_order(c: GoodClient, plan: PlanView, door: Door)
    requires
        is_welcome(c, plan, door),
    ensures
        builds::checked_request(asked(c, plan), c.inputs) == Ok::<CheckedBuildView, Seq<Seq<char>>>(
            accepted(c, plan),
        ),
{
    nix::law_store_paths_are_accepted(c.drv_path);
    nix::law_store_path_lists_are_accepted(c.outputs);
    nix::law_store_path_lists_are_accepted(c.inputs);
}

proof fn lemma_door_opens(c: GoodClient, plan: PlanView, door: Door)
    requires
        is_welcome(c, plan, door),
    ensures
        ({
            let events = door_events(c, plan, door);
            let (after, actions) = door_run(HandshakeView::AwaitHello, events, door);
            &&& after matches HandshakeView::Accepted { build, .. }
            &&& build == accepted(c, plan)
            &&& whole_builds::builder_said(actions, Seq::empty()) == seq![
                auth::auth_ok(known_name(c, door), door.builder_public_key),
            ]
            &&& door_heard(events) == session::greetings(plan, hex::hex_text(door.peer))
                + request_messages(c, plan)
        }),
{
    let e1 = to_door(
        session::greetings(plan, hex::hex_text(door.peer)),
        c.shown,
    ) + for_tickets(
        c,
        seq![HandshakeEventView::TicketChecked { checked: Ok(c.checked) }],
    );
    let messages = request_messages(c, plan);
    let list = path_chunks::list_messages(PathListKind::BuildPaths, c.inputs);
    let pieces = path_chunks::written(c.inputs);
    let e2 = to_door(messages, c.shown);
    let first = HandshakeEventView::Received { message: messages[0], shown: c.shown };
    let read = to_door(list, c.shown);
    lemma_greetings_are_heard(c, plan, door);
    let (s1, a1) = door_run(HandshakeView::AwaitHello, e1, door);
    let authorized = s1->AwaitRequest_authorized;
    agreement::lemma_written(c.inputs);
    assert(list =~= agreement::carrying(PathListKind::BuildPaths, pieces));
    assert(e2 =~= seq![first] + read);
    lemma_door_run_concat(s1, seq![first], read, door);
    lemma_door_step(s1, first, door);
    let (s2, a2) = door_step(s1, first, door);
    lemma_paths_are_read(
        authorized,
        asked(c, plan),
        path_chunks::nothing_read(),
        pieces,
        c.inputs,
        c.shown,
        door,
    );
    let (s3, a3) = door_run(s2, read, door);
    lemma_request_is_in_order(c, plan, door);
    let done = connection::after_paths(
        authorized,
        asked(c, plan),
        path_chunks::ReadStepView::Finished { paths: c.inputs },
    ).1;
    assert(whole_builds::builder_said(a2, Seq::empty()) =~= Seq::<MessageView>::empty()) by {
        reveal_with_fuel(whole_builds::builder_said, 2);
    }
    assert(whole_builds::builder_said(done, Seq::empty()) =~= Seq::<MessageView>::empty()) by {
        reveal_with_fuel(whole_builds::builder_said, 2);
    }
    whole_builds::lemma_builder_said_concat(a2, a3, Seq::empty());
    lemma_door_run_concat(HandshakeView::AwaitHello, e1, e2, door);
    whole_builds::lemma_builder_said_concat(a1, a2 + a3, Seq::empty());
    lemma_to_door_is_heard(messages, c.shown);
    lemma_door_heard_concat(e1, e2);
    match c.auth {
        client::BuildAuthView::TrustedClient { .. } => {
            assert(door_events(c, plan, door) =~= e1 + e2);
        },
        client::BuildAuthView::Ticket(ticket) => {
            let e3 = HandshakeEventView::TicketRedeemed { redeemed: Ok(c.redeemed) };
            assert(door_events(c, plan, door) =~= (e1 + e2) + seq![e3]);
            lemma_door_run_concat(HandshakeView::AwaitHello, e1 + e2, seq![e3], door);
            lemma_door_step(s3, e3, door);
            let (s4, a4) = door_step(s3, e3, door);
            assert(whole_builds::builder_said(a4, Seq::empty()) =~= Seq::<MessageView>::empty());
            whole_builds::lemma_builder_said_concat(a1 + (a2 + a3), a4, Seq::empty());
            lemma_door_heard_concat(e1 + e2, seq![e3]);
            assert(door_heard(seq![e3]) =~= Seq::<MessageView>::empty()) by {
                reveal_with_fuel(door_heard, 2);
            }
        },
    }
}

/// One more event is one more step.
proof fn lemma_one_more(s: SessionView, events: Seq<ClientEventView>, event: ClientEventView)
    ensures
        ({
            let (before, earlier) = whole_builds::client_run(s, events);
            let (after, actions) = session::session_step(before, event);
            let (end, all) = whole_builds::client_run(s, events.push(event));
            &&& end == after
            &&& whole_builds::client_said(all) == whole_builds::client_said(earlier)
                + whole_builds::client_said(actions)
        }),
        whole_builds::client_heard(events.push(event)) == (match event {
            ClientEventView::Received { message, .. } => whole_builds::client_heard(events).push(
                message,
            ),
            _ => whole_builds::client_heard(events),
        }),
{
    assert(events.push(event).drop_last() =~= events);
    let (before, earlier) = whole_builds::client_run(s, events);
    let actions = session::session_step(before, event).1;
    whole_builds::lemma_client_said_concat(earlier, actions);
}

/// The client finds out that it needs a builder.
proof fn lemma_client_needs_a_builder(c: GoodClient, plan: PlanView, door: Door)
    requires
        is_welcome(c, plan, door),
    ensures
        ({
            let events = seq![ClientEventView::OutputsResolved { paths: c.outputs }] + (
            if plan.rebuild {
                Seq::<ClientEventView>::empty()
            } else {
                seq![ClientEventView::MissingFound { missing: c.absent }]
            });
            let (after, actions) = whole_builds::client_run(session::new_session(plan), events);
            &&& after.stage is Connecting
            &&& after.plan == plan
            &&& after.facts.outputs == c.outputs
            &&& whole_builds::client_said(actions) == Seq::<MessageView>::empty()
            &&& whole_builds::client_heard(events) == Seq::<MessageView>::empty()
        }),
{
    let s = session::new_session(plan);
    let e0 = Seq::<ClientEventView>::empty();
    let e1 = e0.push(ClientEventView::OutputsResolved { paths: c.outputs });
    let e2 = e1.push(ClientEventView::MissingFound { missing: c.absent });
    lemma_one_more(s, e0, e1.last());
    let (s0, a0) = whole_builds::client_run(s, e0);
    assert(s0 == s && whole_builds::client_said(a0) =~= Seq::<MessageView>::empty());
    let (s1, d1) = session::session_step(s, e1.last());
    assert(whole_builds::client_said(d1) =~= Seq::<MessageView>::empty()) by {
        reveal_with_fuel(whole_builds::client_said, 5);
    }
    if plan.rebuild {
        assert(e1 =~= seq![ClientEventView::OutputsResolved { paths: c.outputs }]
            + Seq::<ClientEventView>::empty());
    } else {
        lemma_one_more(s, e1, e2.last());
        let (s2, d2) = session::session_step(s1, e2.last());
        assert(whole_builds::client_said(d2) =~= Seq::<MessageView>::empty()) by {
            reveal_with_fuel(whole_builds::client_said, 4);
        }
        assert(e2 =~= seq![ClientEventView::OutputsResolved { paths: c.outputs }] + seq![
            ClientEventView::MissingFound { missing: c.absent },
        ]);
    }
}

#[verifier::rlimit(60)]
proof fn lemma_client_asks(c: GoodClient, plan: PlanView, door: Door)
    requires
        is_welcome(c, plan, door),
    ensures
        ({
            let events = client_events(c, plan, door);
            let (after, actions) = whole_builds::client_run(session::new_session(plan), events);
            &&& after.stage is AwaitQueued
            &&& after.plan == plan
            &&& after.facts.builder_public_key == door.builder_public_key
            &&& after.facts.drv_path == c.drv_path
            &&& whole_builds::client_said(actions) == session::greetings(
                plan,
                hex::hex_text(door.peer),
            ) + request_messages(c, plan)
            &&& whole_builds::client_heard(events) == seq![
                auth::auth_ok(known_name(c, door), door.builder_public_key),
            ]
        }),
{
    let s = session::new_session(plan);
    let reply = auth::auth_ok(known_name(c, door), door.builder_public_key);
    let e0 = seq![ClientEventView::OutputsResolved { paths: c.outputs }] + (if plan.rebuild {
        Seq::<ClientEventView>::empty()
    } else {
        seq![ClientEventView::MissingFound { missing: c.absent }]
    });
    let e1 = e0.push(ClientEventView::Connected { node_id: hex::hex_text(door.peer) });
    let e2 = e1.push(ClientEventView::Received { message: reply, shown: c.shown });
    let e3 = e2.push(ClientEventView::TrustChecked);
    let e4 = e3.push(ClientEventView::DerivationResolved { drv_path: c.drv_path });
    let e5 = e4.push(ClientEventView::ClosureFound { closure: c.inputs });
    lemma_client_needs_a_builder(c, plan, door);
    let (s0, a0) = whole_builds::client_run(s, e0);
    lemma_one_more(s, e0, e1.last());
    let (s1, d1) = session::session_step(s0, e1.last());
    assert(s1.stage is AwaitAuthOk && s1.facts == s0.facts);
    lemma_one_more(s, e1, e2.last());
    let (s2, d2) = session::session_step(s1, e2.last());
    assert(s2.stage is CheckingTrust && s2.facts.outputs == c.outputs);
    lemma_one_more(s, e2, e3.last());
    let (s3, d3) = session::session_step(s2, e3.last());
    assert(s3.stage is ResolvingDerivation && s3.facts == s2.facts);
    lemma_one_more(s, e3, e4.last());
    let (s4, d4) = session::session_step(s3, e4.last());
    assert(s4.stage is FindingClosure && s4.facts.outputs == c.outputs);
    lemma_one_more(s, e4, e5.last());
    let (s5, d5) = session::session_step(s4, e5.last());
    assert(s5.stage is AwaitQueued && s5.facts.outputs == c.outputs);
    let list = path_chunks::list_messages(PathListKind::BuildPaths, c.inputs);
    assert(whole_builds::client_said(d1) =~= session::greetings(plan, hex::hex_text(door.peer)))
        by {
        reveal_with_fuel(whole_builds::client_said, 3);
    }
    assert(whole_builds::client_said(d2) =~= Seq::<MessageView>::empty()) by {
        reveal_with_fuel(whole_builds::client_said, 4);
    }
    assert(whole_builds::client_said(d3) =~= Seq::<MessageView>::empty()) by {
        reveal_with_fuel(whole_builds::client_said, 3);
    }
    assert(whole_builds::client_said(d4) =~= Seq::<MessageView>::empty()) by {
        reveal_with_fuel(whole_builds::client_said, 3);
    }
    assert(session::request(plan, s5.facts) == MessageView::BuildRequest(asked(c, plan)));
    assert(whole_builds::client_said(d5) =~= request_messages(c, plan)) by {
        reveal_with_fuel(whole_builds::client_said, 4);
    }
    assert(client_events(c, plan, door) =~= e5);
    let (end, all) = whole_builds::client_run(s, e5);
    assert(whole_builds::client_said(all) =~= session::greetings(plan, hex::hex_text(door.peer))
        + request_messages(c, plan));
    assert(whole_builds::client_heard(e5) =~= seq![reply]);
}

// ---------------------------------------------------------------------------
// Laws
// ---------------------------------------------------------------------------

/// A client that the builder trusts, or whose ticket is good, is let in and
/// gets its build accepted: the one that it asked for. It then knows the key of
/// the builder, and waits for its turn. Each side hears just what the other
/// one says, in that order.
pub proof fn law_welcome_clients_are_let_in(c: GoodClient, plan: PlanView, door: Door)
    requires
        is_welcome(c, plan, door),
    ensures
        ({
            let (let_in, done) = door_run(
                HandshakeView::AwaitHello,
                door_events(c, plan, door),
                door,
            );
            let (waits, said) = whole_builds::client_run(
                session::new_session(plan),
                client_events(c, plan, door),
            );
            &&& let_in matches HandshakeView::Accepted { build, .. }
            &&& build == accepted(c, plan)
            &&& waits.stage is AwaitQueued
            &&& waits.facts.builder_public_key == door.builder_public_key
            &&& door_heard(door_events(c, plan, door)) == whole_builds::client_said(said)
            &&& whole_builds::client_heard(client_events(c, plan, door))
                == whole_builds::builder_said(done, Seq::empty())
        }),
{
    lemma_door_opens(c, plan, door);
    lemma_client_asks(c, plan, door);
}

} // verus!
