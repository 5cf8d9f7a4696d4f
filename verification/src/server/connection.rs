//! A connection of a client, up to the point where its build is queued.
//!
//! The connection is a machine: something happens, and the machine says what
//! is done next. Sending, reading and the files of the tickets are left to
//! whoever runs it.

use vstd::prelude::*;

use crate::access;
use crate::access::AccessPolicy;
use crate::endpoint::EndpointId;
use crate::error;
use crate::error::Error;
use crate::nix;
use crate::nix::StorePath;
use crate::proto::{
    error_message, BuildRequest, BuildRequestView, Incoming, Message, MessageView, OutputMode,
};
use crate::protocol::path_chunks;
use crate::protocol::path_chunks::{PathListKind, ReadLimits, ReadState, ReadStateView, ReadStep};
use crate::server::auth;
use crate::server::auth::{
    authorize_ticket, authorize_trusted_client, check_hello, redeem_ticket, AuthOutcome,
    AuthorizedConnection, AuthorizedView, RedeemOutcome,
};
use crate::server::builds;
use crate::server::builds::{check_build_request, CheckedBuildRequest, CheckedBuildView};
use crate::server::status::BuildResult;
use crate::server::{path_list_limits, CLIENT_NIX_TIMEOUT_SECS, CONTROL_TIMEOUT_SECS};
use crate::text;
use crate::text::concat2;
use crate::ticket::TicketRecord;

verus! {

// ---------------------------------------------------------------------------
// What is done
// ---------------------------------------------------------------------------

/// What is done next on a connection.
pub enum Action {
    /// Send a message.
    Send { message: Message },
    /// Wait for a message, so many seconds at most.
    Read { seconds: u64 },
    /// See whether a ticket is of use to the client.
    CheckTicket { secret: [u8; 32] },
    /// Take a use of a ticket.
    RedeemTicket { secret: [u8; 32] },
    /// Put the build into the queue.
    Enqueue { client_label: String, installable: String },
    /// Wait for the build's turn.
    Acquire,
    /// Note that the build has begun.
    Start,
    /// Note how far the build is.
    Phase { phase: String },
    /// Find the paths that the store lacks.
    FindMissing { paths: Vec<StorePath> },
    /// Take an upload, and find which of its paths the store still lacks.
    ReceiveUpload { missing: Vec<StorePath>, max_bytes: Option<u64> },
    /// Build a derivation, so many seconds at most.
    Realise {
        drv_path: StorePath,
        output_mode: OutputMode,
        rebuild: bool,
        max_seconds: Option<u64>,
    },
    /// Find the closure of what was built.
    FindClosure { paths: Vec<StorePath> },
    /// Serve a closure, some paths of which the client lacks.
    Serve { closure: Vec<StorePath>, requested: Vec<StorePath> },
    /// Bring what is being served to its end.
    FinishServing,
    /// Note how the build ended.
    Finish { result: BuildResult, fault: Option<String> },
    /// Say no more and wait for the client to leave.
    Close,
    /// Drop the connection.
    Abort { error: Error },
}

/// The view of what is done.
pub enum ActionView {
    Send { message: MessageView },
    Read { seconds: u64 },
    CheckTicket { secret: Seq<u8> },
    RedeemTicket { secret: Seq<u8> },
    Enqueue { client_label: Seq<char>, installable: Seq<char> },
    Acquire,
    Start,
    Phase { phase: Seq<char> },
    FindMissing { paths: Seq<Seq<char>> },
    ReceiveUpload { missing: Seq<Seq<char>>, max_bytes: Option<u64> },
    Realise {
        drv_path: Seq<char>,
        output_mode: OutputMode,
        rebuild: bool,
        max_seconds: Option<u64>,
    },
    FindClosure { paths: Seq<Seq<char>> },
    Serve { closure: Seq<Seq<char>>, requested: Seq<Seq<char>> },
    FinishServing,
    Finish { result: BuildResult, fault: Option<Seq<char>> },
    Close,
    Abort { error: Seq<Seq<char>> },
}

impl View for Action {
    type V = ActionView;

    open spec fn view(&self) -> ActionView {
        match *self {
            Action::Send { message } => ActionView::Send { message: message@ },
            Action::Read { seconds } => ActionView::Read { seconds },
            Action::CheckTicket { secret } => ActionView::CheckTicket { secret: secret@ },
            Action::RedeemTicket { secret } => ActionView::RedeemTicket { secret: secret@ },
            Action::Enqueue { client_label, installable } => ActionView::Enqueue {
                client_label: client_label@,
                installable: installable@,
            },
            Action::Acquire => ActionView::Acquire,
            Action::Start => ActionView::Start,
            Action::Phase { phase } => ActionView::Phase { phase: phase@ },
            Action::FindMissing { paths } => ActionView::FindMissing {
                paths: nix::path_texts(paths@),
            },
            Action::ReceiveUpload { missing, max_bytes } => ActionView::ReceiveUpload {
                missing: nix::path_texts(missing@),
                max_bytes,
            },
            Action::Realise { drv_path, output_mode, rebuild, max_seconds } => ActionView::Realise {
                drv_path: drv_path@,
                output_mode,
                rebuild,
                max_seconds,
            },
            Action::FindClosure { paths } => ActionView::FindClosure {
                paths: nix::path_texts(paths@),
            },
            Action::Serve { closure, requested } => ActionView::Serve {
                closure: nix::path_texts(closure@),
                requested: nix::path_texts(requested@),
            },
            Action::FinishServing => ActionView::FinishServing,
            Action::Finish { result, fault } => ActionView::Finish {
                result,
                fault: text::optional_text(fault),
            },
            Action::Close => ActionView::Close,
            Action::Abort { error } => ActionView::Abort { error: error@ },
        }
    }
}

pub open spec fn action_views(list: Seq<Action>) -> Seq<ActionView> {
    Seq::new(list.len(), |i: int| list[i]@)
}

/// A list of one action.
pub fn one(a: Action) -> (r: Vec<Action>)
    ensures
        action_views(r@) == seq![a@],
{
    let mut list: Vec<Action> = Vec::new();
    list.push(a);
    assert(action_views(list@) =~= seq![a@]);
    list
}

/// A list of two actions.
pub fn two(a: Action, b: Action) -> (r: Vec<Action>)
    ensures
        action_views(r@) == seq![a@, b@],
{
    let mut list: Vec<Action> = Vec::new();
    list.push(a);
    list.push(b);
    assert(action_views(list@) =~= seq![a@, b@]);
    list
}

/// A list of three actions.
pub fn three(a: Action, b: Action, c: Action) -> (r: Vec<Action>)
    ensures
        action_views(r@) == seq![a@, b@, c@],
{
    let mut list: Vec<Action> = Vec::new();
    list.push(a);
    list.push(b);
    list.push(c);
    assert(action_views(list@) =~= seq![a@, b@, c@]);
    list
}

/// Puts one more action at the end of a list.
pub fn push_action(list: &mut Vec<Action>, action: Action)
    ensures
        action_views(final(list)@) == action_views(old(list)@).push(action@),
{
    let ghost earlier = action_views(list@);
    list.push(action);
    assert(action_views(list@) =~= earlier.push(action@));
}

// ---------------------------------------------------------------------------
// The handshake
// ---------------------------------------------------------------------------

/// How far a connection is.
pub enum Handshake {
    AwaitHello,
    AwaitAuth,
    CheckingTicket { secret: [u8; 32] },
    AwaitRequest { authorized: AuthorizedConnection },
    ReadingPaths { authorized: AuthorizedConnection, request: BuildRequest, list: ReadState },
    Redeeming { authorized: AuthorizedConnection, build: CheckedBuildRequest },
    /// The build can be queued.
    Accepted { authorized: AuthorizedConnection, build: CheckedBuildRequest },
    /// The client is being told what is wrong.
    Refusing,
    Ended,
}

/// The view of how far a connection is.
pub enum HandshakeView {
    AwaitHello,
    AwaitAuth,
    CheckingTicket { secret: Seq<u8> },
    AwaitRequest { authorized: AuthorizedView },
    ReadingPaths { authorized: AuthorizedView, request: BuildRequestView, list: ReadStateView },
    Redeeming { authorized: AuthorizedView, build: CheckedBuildView },
    Accepted { authorized: AuthorizedView, build: CheckedBuildView },
    Refusing,
    Ended,
}

impl View for Handshake {
    type V = HandshakeView;

    open spec fn view(&self) -> HandshakeView {
        match *self {
            Handshake::AwaitHello => HandshakeView::AwaitHello,
            Handshake::AwaitAuth => HandshakeView::AwaitAuth,
            Handshake::CheckingTicket { secret } => HandshakeView::CheckingTicket {
                secret: secret@,
            },
            Handshake::AwaitRequest { authorized } => HandshakeView::AwaitRequest {
                authorized: authorized@,
            },
            Handshake::ReadingPaths { authorized, request, list } => HandshakeView::ReadingPaths {
                authorized: authorized@,
                request: request@,
                list: list@,
            },
            Handshake::Redeeming { authorized, build } => HandshakeView::Redeeming {
                authorized: authorized@,
                build: build@,
            },
            Handshake::Accepted { authorized, build } => HandshakeView::Accepted {
                authorized: authorized@,
                build: build@,
            },
            Handshake::Refusing => HandshakeView::Refusing,
            Handshake::Ended => HandshakeView::Ended,
        }
    }
}

/// What happens on a connection.
pub enum HandshakeEvent {
    Received { incoming: Incoming },
    TicketChecked { checked: Result<TicketRecord, Error> },
    TicketRedeemed { redeemed: Result<TicketRecord, Error> },
    /// Nothing came in time; the clock says so in these words.
    TimedOut { cause: String },
    /// All that was to be done was done.
    Performed,
    /// Something that was to be done failed.
    Failed { error: Error },
}

/// The view of what happens.
pub enum HandshakeEventView {
    Received { message: MessageView, shown: Seq<char> },
    TicketChecked { checked: Result<TicketRecord, Seq<Seq<char>>> },
    TicketRedeemed { redeemed: Result<TicketRecord, Seq<Seq<char>>> },
    TimedOut { cause: Seq<char> },
    Performed,
    Failed { error: Seq<Seq<char>> },
}

impl View for HandshakeEvent {
    type V = HandshakeEventView;

    open spec fn view(&self) -> HandshakeEventView {
        match *self {
            HandshakeEvent::Received { incoming } => HandshakeEventView::Received {
                message: incoming.message@,
                shown: incoming.shown@,
            },
            HandshakeEvent::TicketChecked { checked } => HandshakeEventView::TicketChecked {
                checked: error::outcome(checked),
            },
            HandshakeEvent::TicketRedeemed { redeemed } => HandshakeEventView::TicketRedeemed {
                redeemed: error::outcome(redeemed),
            },
            HandshakeEvent::TimedOut { cause } => HandshakeEventView::TimedOut { cause: cause@ },
            HandshakeEvent::Performed => HandshakeEventView::Performed,
            HandshakeEvent::Failed { error } => HandshakeEventView::Failed { error: error@ },
        }
    }
}

/// The client is told what is wrong, and nothing more.
pub open spec fn refused(message: Seq<char>) -> (HandshakeView, Seq<ActionView>) {
    (
        HandshakeView::Refusing,
        seq![
            ActionView::Send { message: MessageView::Error { message } },
            ActionView::Close,
        ],
    )
}

/// The connection is dropped.
pub open spec fn aborted(error: Seq<Seq<char>>) -> (HandshakeView, Seq<ActionView>) {
    (HandshakeView::Ended, seq![ActionView::Abort { error }])
}

/// Where a decision about a client leads.
pub open spec fn after_auth(outcome: auth::AuthOutcomeView) -> (HandshakeView, Seq<ActionView>) {
    match outcome {
        auth::AuthOutcomeView::Accepted { reply, authorized } => (
            HandshakeView::AwaitRequest { authorized },
            seq![
                ActionView::Send { message: reply },
                ActionView::Read { seconds: CLIENT_NIX_TIMEOUT_SECS },
            ],
        ),
        auth::AuthOutcomeView::Refused { message } => refused(message),
        auth::AuthOutcomeView::Failed { error } => aborted(error),
    }
}

/// Where a message on the paths of a build leads. A ticket is redeemed only
/// once the whole request was found to be in order.
pub open spec fn after_paths(
    authorized: AuthorizedView,
    request: BuildRequestView,
    read: path_chunks::ReadStepView,
) -> (HandshakeView, Seq<ActionView>) {
    match read {
        path_chunks::ReadStepView::Failed { error } => refused(error[0]),
        path_chunks::ReadStepView::More { state } => (
            HandshakeView::ReadingPaths { authorized, request, list: state },
            seq![ActionView::Read { seconds: CLIENT_NIX_TIMEOUT_SECS }],
        ),
        path_chunks::ReadStepView::Finished { paths } => match builds::checked_request(
            request,
            paths,
        ) {
            Err(error) => refused(error[0]),
            Ok(build) => match authorized.ticket_secret {
                None => (HandshakeView::Accepted { authorized, build }, Seq::empty()),
                Some(secret) => (
                    HandshakeView::Redeeming { authorized, build },
                    seq![ActionView::RedeemTicket { secret }],
                ),
            },
        },
    }
}

/// Where the redemption of a ticket leads.
pub open spec fn after_redemption(
    build: CheckedBuildView,
    outcome: auth::RedeemOutcomeView,
) -> (HandshakeView, Seq<ActionView>) {
    match outcome {
        auth::RedeemOutcomeView::Granted { authorized } => (
            HandshakeView::Accepted { authorized, build },
            Seq::empty(),
        ),
        auth::RedeemOutcomeView::Refused { message } => refused(message),
        auth::RedeemOutcomeView::Failed { error } => aborted(error),
    }
}

/// How much of a list of paths is read.
pub open spec fn list_limits() -> ReadLimits {
    ReadLimits { chunks: 512, paths: 100_000, bytes: 16_777_216 }
}

/// What happens next on a connection of `peer`, and how far it then is.
pub open spec fn handshake_step(
    state: HandshakeView,
    event: HandshakeEventView,
    peer: Seq<u8>,
    trusted: Seq<access::TrustedEndpointView>,
    builder_public_key: Seq<char>,
) -> (HandshakeView, Seq<ActionView>) {
    match (state, event) {
        (HandshakeView::Ended, _) => (state, Seq::empty()),
        (HandshakeView::Accepted { .. }, _) => (state, Seq::empty()),
        (HandshakeView::Refusing, HandshakeEventView::Failed { error }) => aborted(error),
        (HandshakeView::Refusing, HandshakeEventView::Performed) => (
            HandshakeView::Ended,
            Seq::empty(),
        ),
        (HandshakeView::Refusing, _) => (state, Seq::empty()),
        (HandshakeView::ReadingPaths { .. }, HandshakeEventView::Failed { error }) => refused(
            error[0],
        ),
        (HandshakeView::ReadingPaths { .. }, HandshakeEventView::TimedOut { .. }) => refused(
            "read timed out"@,
        ),
        (_, HandshakeEventView::Failed { error }) => aborted(error),
        (_, HandshakeEventView::TimedOut { cause }) => aborted(seq!["read timed out"@, cause]),
        (
            HandshakeView::AwaitHello,
            HandshakeEventView::Received { message, shown },
        ) => match message {
            MessageView::Hello { version, node_id } => match auth::hello_fault(
                peer,
                version,
                node_id,
            ) {
                Some(fault) => aborted(fault),
                None => (
                    HandshakeView::AwaitAuth,
                    seq![ActionView::Read { seconds: CONTROL_TIMEOUT_SECS }],
                ),
            },
            _ => aborted(seq!["expected hello, got "@ + shown]),
        },
        (
            HandshakeView::AwaitAuth,
            HandshakeEventView::Received { message, shown },
        ) => match message {
            MessageView::AuthTrustedClient => after_auth(
                auth::trusted_outcome(peer, access::entry_for(trusted, peer), builder_public_key),
            ),
            MessageView::AuthTicket { secret } => (
                HandshakeView::CheckingTicket { secret },
                seq![ActionView::CheckTicket { secret }],
            ),
            _ => refused("expected auth message, got "@ + shown),
        },
        (
            HandshakeView::CheckingTicket { secret },
            HandshakeEventView::TicketChecked { checked },
        ) => after_auth(auth::ticket_outcome(peer, checked, secret, builder_public_key)),
        (
            HandshakeView::AwaitRequest { authorized },
            HandshakeEventView::Received { message, shown },
        ) => match message {
            MessageView::BuildRequest(request) => (
                HandshakeView::ReadingPaths {
                    authorized,
                    request,
                    list: path_chunks::nothing_read(),
                },
                seq![ActionView::Read { seconds: CLIENT_NIX_TIMEOUT_SECS }],
            ),
            _ => aborted(seq!["expected build request, got "@ + shown]),
        },
        (
            HandshakeView::ReadingPaths { authorized, request, list },
            HandshakeEventView::Received { message, shown },
        ) => after_paths(
            authorized,
            request,
            path_chunks::read_message(
                list,
                PathListKind::BuildPaths,
                list_limits(),
                message,
                shown,
                "unexpected path list message"@,
            ),
        ),
        (
            HandshakeView::Redeeming { authorized, build },
            HandshakeEventView::TicketRedeemed { redeemed },
        ) => after_redemption(build, auth::redeem_outcome(authorized, redeemed)),
        _ => (state, Seq::empty()),
    }
}

fn refuse(message: String) -> (r: (Handshake, Vec<Action>))
    ensures
        (r.0@, action_views(r.1@)) == refused(message@),
{
    let reply: Message = error_message(message.as_str());
    (Handshake::Refusing, two(Action::Send { message: reply }, Action::Close))
}

fn abort(error: Error) -> (r: (Handshake, Vec<Action>))
    ensures
        (r.0@, action_views(r.1@)) == aborted(error@),
{
    (Handshake::Ended, one(Action::Abort { error }))
}

fn no_actions() -> (r: Vec<Action>)
    ensures
        action_views(r@) == Seq::<ActionView>::empty(),
{
    let list: Vec<Action> = Vec::new();
    assert(action_views(list@) =~= Seq::<ActionView>::empty());
    list
}

fn continue_after_auth(outcome: AuthOutcome) -> (r: (Handshake, Vec<Action>))
    ensures
        (r.0@, action_views(r.1@)) == after_auth(outcome@),
{
    match outcome {
        AuthOutcome::Accepted { reply, authorized } => (
            Handshake::AwaitRequest { authorized },
            two(
                Action::Send { message: reply },
                Action::Read { seconds: CLIENT_NIX_TIMEOUT_SECS },
            ),
        ),
        AuthOutcome::Refused { message } => refuse(message),
        AuthOutcome::Failed { error } => abort(error),
    }
}

fn continue_after_paths(
    authorized: AuthorizedConnection,
    request: BuildRequest,
    read: ReadStep,
) -> (r: (Handshake, Vec<Action>))
    ensures
        (r.0@, action_views(r.1@)) == after_paths(authorized@, request@, read@),
{
    match read {
        ReadStep::Failed { error } => refuse(error.message()),
        ReadStep::More { state } => (
            Handshake::ReadingPaths { authorized, request, list: state },
            one(Action::Read { seconds: CLIENT_NIX_TIMEOUT_SECS }),
        ),
        ReadStep::Finished { paths } => match check_build_request(request, paths.as_slice()) {
            Err(error) => refuse(error.message()),
            Ok(build) => match authorized.ticket_secret {
                None => (Handshake::Accepted { authorized, build }, no_actions()),
                Some(secret) => (
                    Handshake::Redeeming { authorized, build },
                    one(Action::RedeemTicket { secret }),
                ),
            },
        },
    }
}

impl Handshake {
    /// A connection that was just made: the client has to greet.
    pub fn new() -> (r: (Handshake, Vec<Action>))
        ensures
            r.0@ == HandshakeView::AwaitHello,
            action_views(r.1@) == seq![ActionView::Read { seconds: CONTROL_TIMEOUT_SECS }],
    {
        (Handshake::AwaitHello, one(Action::Read { seconds: CONTROL_TIMEOUT_SECS }))
    }

    fn receive(
        self,
        incoming: Incoming,
        peer: &EndpointId,
        access_policy: &AccessPolicy,
        builder_public_key: &str,
    ) -> (r: (Handshake, Vec<Action>))
        ensures
            (r.0@, action_views(r.1@)) == handshake_step(
                self@,
                HandshakeEventView::Received { message: incoming.message@, shown: incoming.shown@ },
                peer@,
                access_policy@,
                builder_public_key@,
            ),
    {
        let Incoming { message, shown } = incoming;
        match self {
            Handshake::AwaitHello => match message {
                Message::Hello(hello) => match check_hello(peer, &hello) {
                    Ok(()) => (
                        Handshake::AwaitAuth,
                        one(Action::Read { seconds: CONTROL_TIMEOUT_SECS }),
                    ),
                    Err(error) => abort(error),
                },
                _ => abort(Error::new(concat2("expected hello, got ", shown.as_str()))),
            },
            Handshake::AwaitAuth => match message {
                Message::AuthTrustedClient => continue_after_auth(
                    authorize_trusted_client(peer, access_policy, builder_public_key),
                ),
                Message::AuthTicket(auth) => (
                    Handshake::CheckingTicket { secret: auth.secret },
                    one(Action::CheckTicket { secret: auth.secret }),
                ),
                _ => refuse(concat2("expected auth message, got ", shown.as_str())),
            },
            Handshake::AwaitRequest { authorized } => match message {
                Message::BuildRequest(request) => (
                    Handshake::ReadingPaths { authorized, request, list: ReadState::new() },
                    one(Action::Read { seconds: CLIENT_NIX_TIMEOUT_SECS }),
                ),
                _ => abort(Error::new(concat2("expected build request, got ", shown.as_str()))),
            },
            Handshake::ReadingPaths { authorized, request, list } => {
                let read: ReadStep = list.read(
                    PathListKind::BuildPaths,
                    path_list_limits(),
                    message,
                    shown.as_str(),
                    "unexpected path list message",
                );
                continue_after_paths(authorized, request, read)
            },
            other => (other, no_actions()),
        }
    }

    /// Takes what happened and says what is done next.
    #[verifier::rlimit(40)]
    pub fn step(
        self,
        event: HandshakeEvent,
        peer: &EndpointId,
        access_policy: &AccessPolicy,
        builder_public_key: &str,
    ) -> (r: (Handshake, Vec<Action>))
        ensures
            (r.0@, action_views(r.1@)) == handshake_step(
                self@,
                event@,
                peer@,
                access_policy@,
                builder_public_key@,
            ),
    {
        match event {
            HandshakeEvent::Received { incoming } => self.receive(
                incoming,
                peer,
                access_policy,
                builder_public_key,
            ),
            HandshakeEvent::TicketChecked { checked } => match self {
                Handshake::CheckingTicket { secret } => continue_after_auth(
                    authorize_ticket(peer, checked, &secret, builder_public_key),
                ),
                other => (other, no_actions()),
            },
            HandshakeEvent::TicketRedeemed { redeemed } => match self {
                Handshake::Redeeming { authorized, build } => match redeem_ticket(
                    authorized,
                    redeemed,
                ) {
                    RedeemOutcome::Granted { authorized } => (
                        Handshake::Accepted { authorized, build },
                        no_actions(),
                    ),
                    RedeemOutcome::Refused { message } => refuse(message),
                    RedeemOutcome::Failed { error } => abort(error),
                },
                other => (other, no_actions()),
            },
            HandshakeEvent::TimedOut { cause } => match self {
                Handshake::Ended => (self, no_actions()),
                Handshake::Accepted { .. } => (self, no_actions()),
                Handshake::Refusing => (self, no_actions()),
                Handshake::ReadingPaths { .. } => refuse("read timed out".to_string()),
                _ => {
                    let error: Error = Error::caused("read timed out".to_string(), cause);
                    abort(error)
                },
            },
            HandshakeEvent::Performed => match self {
                Handshake::Refusing => (Handshake::Ended, no_actions()),
                other => (other, no_actions()),
            },
            HandshakeEvent::Failed { error } => match self {
                Handshake::Ended => (self, no_actions()),
                Handshake::Accepted { .. } => (self, no_actions()),
                Handshake::ReadingPaths { .. } => refuse(error.message()),
                _ => abort(error),
            },
        }
    }
}

// ---------------------------------------------------------------------------
// Laws
// ---------------------------------------------------------------------------

/// How far a connection is after a series of events.
pub open spec fn handshake_run(
    events: Seq<HandshakeEventView>,
    peer: Seq<u8>,
    trusted: Seq<access::TrustedEndpointView>,
    builder_public_key: Seq<char>,
) -> HandshakeView
    decreases events.len(),
{
    if events.len() == 0 {
        HandshakeView::AwaitHello
    } else {
        handshake_step(
            handshake_run(events.drop_last(), peer, trusted, builder_public_key),
            events.last(),
            peer,
            trusted,
            builder_public_key,
        ).0
    }
}

/// A greeting under the id of the connection.
pub open spec fn is_greeting(event: HandshakeEventView, peer: Seq<u8>) -> bool {
    event matches HandshakeEventView::Received { message, .. } && message matches MessageView::Hello {
        version,
        node_id,
    } && auth::hello_fault(peer, version, node_id) is None
}

pub open spec fn greeted(events: Seq<HandshakeEventView>, peer: Seq<u8>) -> bool {
    exists|i: int| 0 <= i < events.len() && is_greeting(#[trigger] events[i], peer)
}

/// The message in an event is a build request.
pub open spec fn is_request(event: HandshakeEventView, request: BuildRequestView) -> bool {
    event matches HandshakeEventView::Received { message, .. } && message
        == MessageView::BuildRequest(request)
}

pub open spec fn was_sent(events: Seq<HandshakeEventView>, request: BuildRequestView) -> bool {
    exists|i: int| 0 <= i < events.len() && is_request(#[trigger] events[i], request)
}

/// A build is what some request of the client came to.
pub open spec fn was_asked_for(events: Seq<HandshakeEventView>, build: CheckedBuildView) -> bool {
    exists|request: BuildRequestView, paths: Seq<Seq<char>>|
        was_sent(events, request) && #[trigger] builds::checked_request(request, paths) == Ok::<
            CheckedBuildView,
            Seq<Seq<char>>,
        >(build)
}

/// A use of a ticket was taken, and the limits are those of the ticket.
pub open spec fn is_redemption(event: HandshakeEventView, authorized: AuthorizedView) -> bool {
    event matches HandshakeEventView::TicketRedeemed { redeemed } && redeemed matches Ok(record)
        && auth::ticket_limits(record) matches Ok((time, bytes)) && authorized.max_build_time
        == Some(time) && authorized.max_upload_bytes == Some(bytes)
}

pub open spec fn was_redeemed(
    events: Seq<HandshakeEventView>,
    authorized: AuthorizedView,
) -> bool {
    exists|i: int| 0 <= i < events.len() && is_redemption(#[trigger] events[i], authorized)
}

pub open spec fn is_trusted(trusted: Seq<access::TrustedEndpointView>, peer: Seq<u8>) -> bool {
    exists|i: int| 0 <= i < trusted.len() && (#[trigger] trusted[i]).endpoint_id == peer
}

/// What is known of a client at each point.
pub open spec fn is_vouched_for(
    state: HandshakeView,
    events: Seq<HandshakeEventView>,
    peer: Seq<u8>,
    trusted: Seq<access::TrustedEndpointView>,
) -> bool {
    match state {
        HandshakeView::AwaitHello => true,
        HandshakeView::AwaitAuth => greeted(events, peer),
        HandshakeView::CheckingTicket { .. } => greeted(events, peer),
        HandshakeView::AwaitRequest { authorized } => greeted(events, peer) && (
        authorized.ticket_secret is None ==> is_trusted(trusted, peer)),
        HandshakeView::ReadingPaths { authorized, request, .. } => greeted(events, peer) && (
        authorized.ticket_secret is None ==> is_trusted(trusted, peer)) && was_sent(
            events,
            request,
        ),
        HandshakeView::Redeeming { authorized, build } => greeted(events, peer) && was_asked_for(
            events,
            build,
        ) && authorized.ticket_secret is Some,
        HandshakeView::Accepted { authorized, build } => greeted(events, peer) && was_asked_for(
            events,
            build,
        ) && authorized.ticket_secret is None && (is_trusted(trusted, peer) || was_redeemed(
            events,
            authorized,
        )),
        HandshakeView::Refusing => true,
        HandshakeView::Ended => true,
    }
}

proof fn lemma_more_events(
    earlier: Seq<HandshakeEventView>,
    events: Seq<HandshakeEventView>,
    peer: Seq<u8>,
)
    requires
        events.len() > 0,
        earlier == events.drop_last(),
    ensures
        greeted(earlier, peer) ==> greeted(events, peer),
        forall|request: BuildRequestView|
            was_sent(earlier, request) ==> #[trigger] was_sent(events, request),
        forall|build: CheckedBuildView|
            was_asked_for(earlier, build) ==> #[trigger] was_asked_for(events, build),
{
    if greeted(earlier, peer) {
        let i = choose|i: int| 0 <= i < earlier.len() && is_greeting(#[trigger] earlier[i], peer);
        assert(events[i] == earlier[i]);
    }
    assert forall|request: BuildRequestView| was_sent(earlier, request) implies #[trigger] was_sent(
        events,
        request,
    ) by {
        let i = choose|i: int| 0 <= i < earlier.len() && is_request(#[trigger] earlier[i], request);
        assert(events[i] == earlier[i]);
    }
    assert forall|build: CheckedBuildView| was_asked_for(
        earlier,
        build,
    ) implies #[trigger] was_asked_for(events, build) by {
        let (request, paths) = choose|request: BuildRequestView, paths: Seq<Seq<char>>|
            was_sent(earlier, request) && #[trigger] builds::checked_request(request, paths) == Ok::<
                CheckedBuildView,
                Seq<Seq<char>>,
            >(build);
        assert(was_sent(events, request));
    }
}

/// Whatever a client sends and whatever becomes of it, a build is accepted
/// only where the client greeted under the id of its connection, is trusted or
/// had a use of its ticket taken, and asked for that build in a request that
/// is in order.
#[verifier::rlimit(40)]
pub proof fn law_only_vouched_builds_are_accepted(
    events: Seq<HandshakeEventView>,
    peer: Seq<u8>,
    trusted: Seq<access::TrustedEndpointView>,
    builder_public_key: Seq<char>,
)
    ensures
        is_vouched_for(
            handshake_run(events, peer, trusted, builder_public_key),
            events,
            peer,
            trusted,
        ),
    decreases events.len(),
{
    if events.len() > 0 {
        let earlier = events.drop_last();
        let event = events.last();
        let before = handshake_run(earlier, peer, trusted, builder_public_key);
        let after = handshake_run(events, peer, trusted, builder_public_key);
        law_only_vouched_builds_are_accepted(earlier, peer, trusted, builder_public_key);
        lemma_more_events(earlier, events, peer);
        assert(events[events.len() - 1] == event);
        match (before, event) {
            (HandshakeView::AwaitHello, _) => {
                if after is AwaitAuth {
                    assert(is_greeting(events[events.len() - 1], peer));
                }
            },
            (HandshakeView::AwaitAuth, _) => {
                access::law_recognised_exactly_if_trusted(trusted, peer);
            },
            (HandshakeView::AwaitRequest { .. }, HandshakeEventView::Received { message, .. }) => {
                if let MessageView::BuildRequest(request) = message {
                    assert(is_request(events[events.len() - 1], request));
                }
            },
            (
                HandshakeView::ReadingPaths { authorized, request, list },
                HandshakeEventView::Received { message, shown },
            ) => {
                assert(was_sent(events, request));
                let read = path_chunks::read_message(
                    list,
                    PathListKind::BuildPaths,
                    list_limits(),
                    message,
                    shown,
                    "unexpected path list message"@,
                );
                if let path_chunks::ReadStepView::Finished { paths } = read {
                    if let Ok(build) = builds::checked_request(request, paths) {
                        assert(was_asked_for(events, build));
                    }
                }
            },
            (HandshakeView::Redeeming { build, .. }, _) => {
                assert(was_asked_for(events, build));
                if let HandshakeView::Accepted { authorized, .. } = after {
                    if event is TicketRedeemed {
                        assert(is_redemption(events[events.len() - 1], authorized));
                    }
                }
            },
            (HandshakeView::Accepted { authorized, build }, _) => {
                assert(was_asked_for(events, build));
                if !is_trusted(trusted, peer) {
                    let i = choose|i: int|
                        0 <= i < earlier.len() && is_redemption(#[trigger] earlier[i], authorized);
                    assert(events[i] == earlier[i]);
                }
            },
            _ => {},
        }
    }
}

/// How many times a use of a ticket is to be taken, over a series of events.
pub open spec fn redemptions(
    events: Seq<HandshakeEventView>,
    peer: Seq<u8>,
    trusted: Seq<access::TrustedEndpointView>,
    builder_public_key: Seq<char>,
) -> nat
    decreases events.len(),
{
    if events.len() == 0 {
        0
    } else {
        let earlier = events.drop_last();
        let actions = handshake_step(
            handshake_run(earlier, peer, trusted, builder_public_key),
            events.last(),
            peer,
            trusted,
            builder_public_key,
        ).1;
        redemptions(earlier, peer, trusted, builder_public_key) + (if exists|i: int|
            0 <= i < actions.len() && #[trigger] actions[i] is RedeemTicket {
            1nat
        } else {
            0nat
        })
    }
}

/// A connection takes one use of a ticket at most, and none before its request
/// was found to be in order.
#[verifier::rlimit(40)]
pub proof fn law_a_connection_takes_one_use_at_most(
    events: Seq<HandshakeEventView>,
    peer: Seq<u8>,
    trusted: Seq<access::TrustedEndpointView>,
    builder_public_key: Seq<char>,
)
    ensures
        redemptions(events, peer, trusted, builder_public_key) <= (match handshake_run(
            events,
            peer,
            trusted,
            builder_public_key,
        ) {
            HandshakeView::Redeeming { .. } => 1nat,
            HandshakeView::Accepted { .. } => 1nat,
            HandshakeView::Refusing => 1nat,
            HandshakeView::Ended => 1nat,
            _ => 0nat,
        }),
    decreases events.len(),
{
    if events.len() > 0 {
        law_a_connection_takes_one_use_at_most(
            events.drop_last(),
            peer,
            trusted,
            builder_public_key,
        );
    }
}

/// The client has a ticket.
pub open spec fn is_ticket(event: HandshakeEventView) -> bool {
    event matches HandshakeEventView::Received { message, .. } && message is AuthTicket
}

/// Before its build was accepted, the client came with a ticket.
pub open spec fn came_with_ticket(
    events: Seq<HandshakeEventView>,
    peer: Seq<u8>,
    trusted: Seq<access::TrustedEndpointView>,
    builder_public_key: Seq<char>,
) -> bool {
    exists|i: int|
        0 <= i < events.len() && is_ticket(#[trigger] events[i]) && handshake_run(
            events.take(i),
            peer,
            trusted,
            builder_public_key,
        ) !is Accepted
}

/// What is known of a client with a ticket at each point.
pub open spec fn is_held_to_ticket(state: HandshakeView, events: Seq<HandshakeEventView>) -> bool {
    match state {
        HandshakeView::AwaitHello => false,
        HandshakeView::AwaitAuth => false,
        HandshakeView::AwaitRequest { authorized } => authorized.ticket_secret is Some,
        HandshakeView::ReadingPaths { authorized, .. } => authorized.ticket_secret is Some,
        HandshakeView::Accepted { authorized, .. } => was_redeemed(events, authorized),
        _ => true,
    }
}

/// A build is accepted from a client that came with a ticket only where a use of
/// the ticket was taken, whether or not the client is trusted as well, and with
/// the limits of the ticket.
#[verifier::rlimit(40)]
pub proof fn law_tickets_are_redeemed(
    events: Seq<HandshakeEventView>,
    peer: Seq<u8>,
    trusted: Seq<access::TrustedEndpointView>,
    builder_public_key: Seq<char>,
)
    requires
        came_with_ticket(events, peer, trusted, builder_public_key),
    ensures
        is_held_to_ticket(
            handshake_run(events, peer, trusted, builder_public_key),
            events,
        ),
        handshake_run(events, peer, trusted, builder_public_key) matches HandshakeView::Accepted {
            authorized,
            ..
        } ==> was_redeemed(events, authorized),
    decreases events.len(),
{
    let earlier = events.drop_last();
    let event = events.last();
    let before = handshake_run(earlier, peer, trusted, builder_public_key);
    let after = handshake_run(events, peer, trusted, builder_public_key);
    let i = choose|i: int|
        0 <= i < events.len() && is_ticket(#[trigger] events[i]) && handshake_run(
            events.take(i),
            peer,
            trusted,
            builder_public_key,
        ) !is Accepted;
    law_only_vouched_builds_are_accepted(earlier, peer, trusted, builder_public_key);
    if i < earlier.len() {
        assert(earlier[i] == events[i]);
        assert(earlier.take(i) =~= events.take(i));
        law_tickets_are_redeemed(earlier, peer, trusted, builder_public_key);
        match before {
            HandshakeView::Redeeming { .. } => {
                if let HandshakeView::Accepted { authorized, .. } = after {
                    assert(is_redemption(events[events.len() - 1], authorized));
                }
            },
            HandshakeView::Accepted { authorized, .. } => {
                let k = choose|k: int|
                    0 <= k < earlier.len() && is_redemption(#[trigger] earlier[k], authorized);
                assert(events[k] == earlier[k]);
            },
            _ => {},
        }
    } else {
        assert(events.take(i) =~= earlier);
        assert(event == events[i]);
    }
}

/// A client that is refused is told why, and nothing is done for it any more;
/// that it could not be told is not hidden.
#[verifier::rlimit(40)]
pub proof fn law_refused_clients_get_nothing(
    state: HandshakeView,
    event: HandshakeEventView,
    later: HandshakeEventView,
    peer: Seq<u8>,
    trusted: Seq<access::TrustedEndpointView>,
    builder_public_key: Seq<char>,
)
    ensures
        ({
            let (after, actions) = handshake_step(state, event, peer, trusted, builder_public_key);
            &&& after is Refusing && state !is Refusing ==> actions.len() == 2 && (
            actions[0] matches ActionView::Send { message } && message is Error)
                && actions[1] is Close
            &&& after is Ended && state !is Ended && state !is Refusing ==> actions.len() == 1
                && actions[0] is Abort
        }),
        handshake_step(
            HandshakeView::Refusing,
            later,
            peer,
            trusted,
            builder_public_key,
        ) == (match later {
            HandshakeEventView::Performed => (HandshakeView::Ended, Seq::<ActionView>::empty()),
            HandshakeEventView::Failed { error } => (
                HandshakeView::Ended,
                seq![ActionView::Abort { error }],
            ),
            _ => (HandshakeView::Refusing, Seq::<ActionView>::empty()),
        }),
        handshake_step(
            HandshakeView::Ended,
            later,
            peer,
            trusted,
            builder_public_key,
        ) == (HandshakeView::Ended, Seq::<ActionView>::empty()),
{
}

// ---------------------------------------------------------------------------
// What each step is for
// ---------------------------------------------------------------------------

/// A client that may build is let in with its own limits and told so; the message
/// that it sends to say why it may build decides how it is looked up.
#[verifier::rlimit(40)]
pub proof fn law_clients_are_looked_up(
    secret: Seq<u8>,
    shown: Seq<char>,
    peer: Seq<u8>,
    trusted: Seq<access::TrustedEndpointView>,
    builder_public_key: Seq<char>,
)
    ensures
        handshake_step(
            HandshakeView::AwaitAuth,
            HandshakeEventView::Received { message: MessageView::AuthTicket { secret }, shown },
            peer,
            trusted,
            builder_public_key,
        ) == (
            HandshakeView::CheckingTicket { secret },
            seq![ActionView::CheckTicket { secret }],
        ),
        ({
            let (after, actions) = handshake_step(
                HandshakeView::AwaitAuth,
                HandshakeEventView::Received { message: MessageView::AuthTrustedClient, shown },
                peer,
                trusted,
                builder_public_key,
            );
            match auth::trusted_outcome(
                peer,
                access::entry_for(trusted, peer),
                builder_public_key,
            ) {
                auth::AuthOutcomeView::Accepted { reply, authorized } => after == (
                HandshakeView::AwaitRequest { authorized }) && actions.len() == 2 && actions[0] == (
                ActionView::Send { message: reply }) && actions[1] is Read,
                auth::AuthOutcomeView::Refused { message } => after is Refusing && is_told(
                    actions,
                    message,
                ),
                auth::AuthOutcomeView::Failed { error } => after is Ended && actions == seq![
                    ActionView::Abort { error },
                ],
            }
        }),
{
}

/// The client is told, and the connection is closed.
pub open spec fn is_told(actions: Seq<ActionView>, message: Seq<char>) -> bool {
    &&& actions.len() == 2
    &&& actions[0] == (ActionView::Send { message: MessageView::Error { message } })
    &&& actions[1] is Close
}

/// A ticket that passed its check lets the client in, one that did not sends it away
/// with the reason; a use is taken only later, and what that came to decides.
#[verifier::rlimit(40)]
pub proof fn law_tickets_decide(
    secret: Seq<u8>,
    checked: Result<TicketRecord, Seq<Seq<char>>>,
    authorized: AuthorizedView,
    build: CheckedBuildView,
    redeemed: Result<TicketRecord, Seq<Seq<char>>>,
    peer: Seq<u8>,
    trusted: Seq<access::TrustedEndpointView>,
    builder_public_key: Seq<char>,
)
    ensures
        ({
            let (after, actions) = handshake_step(
                HandshakeView::CheckingTicket { secret },
                HandshakeEventView::TicketChecked { checked },
                peer,
                trusted,
                builder_public_key,
            );
            match checked {
                Err(error) => after is Refusing && is_told(actions, error[0]),
                Ok(record) => match auth::ticket_limits(record) {
                    Ok((seconds, bytes)) => {
                        &&& after matches HandshakeView::AwaitRequest { authorized: let_in }
                            && let_in.ticket_secret == Some(secret) && let_in.max_build_time == Some(
                            seconds,
                        ) && let_in.max_upload_bytes == Some(bytes)
                        &&& actions.len() == 2 && actions[0] is Send && actions[1] is Read
                    },
                    Err(error) => after is Ended && actions == seq![ActionView::Abort { error }],
                },
            }
        }),
        ({
            let (after, actions) = handshake_step(
                HandshakeView::Redeeming { authorized, build },
                HandshakeEventView::TicketRedeemed { redeemed },
                peer,
                trusted,
                builder_public_key,
            );
            match redeemed {
                Err(error) => after is Refusing && is_told(actions, error[0]),
                Ok(record) => match auth::ticket_limits(record) {
                    Ok((seconds, bytes)) => {
                        &&& after matches HandshakeView::Accepted {
                            authorized: granted,
                            build: accepted,
                        } && accepted == build && granted.ticket_secret is None
                            && granted.client_label == authorized.client_label
                            && granted.max_build_time == Some(seconds) && granted.max_upload_bytes
                            == Some(bytes)
                        &&& actions.len() == 0
                    },
                    Err(error) => after is Ended && actions == seq![ActionView::Abort { error }],
                },
            }
        }),
{
}

/// The paths of a request are collected piece by piece, up to 512 pieces, 100000 paths
/// and 16 MiB of them. A request that is in order is accepted as it is, at once or
/// after a use of the ticket was taken; another one is refused with the reason.
#[verifier::rlimit(60)]
pub proof fn law_requests_are_collected(
    authorized: AuthorizedView,
    request: BuildRequestView,
    list: ReadStateView,
    chunk: crate::proto::PathListChunkView,
    shown: Seq<char>,
    peer: Seq<u8>,
    trusted: Seq<access::TrustedEndpointView>,
    builder_public_key: Seq<char>,
)
    requires
        list.chunks < 512,
        list.paths.len() + chunk.paths.len() <= 100_000,
        list.path_bytes + path_chunks::byte_len(chunk.paths) <= 16_777_216,
    ensures
        ({
            let (after, actions) = handshake_step(
                HandshakeView::AwaitRequest { authorized },
                HandshakeEventView::Received {
                    message: MessageView::BuildRequest(request),
                    shown,
                },
                peer,
                trusted,
                builder_public_key,
            );
            &&& after matches HandshakeView::ReadingPaths {
                authorized: kept,
                request: kept_request,
                list,
            } && kept == authorized && kept_request == request && list.paths.len() == 0
                && list.chunks == 0 && list.path_bytes == 0
            &&& actions.len() == 1 && actions[0] is Read
        }),
        ({
            let (after, actions) = handshake_step(
                HandshakeView::ReadingPaths { authorized, request, list },
                HandshakeEventView::Received { message: MessageView::BuildPaths(chunk), shown },
                peer,
                trusted,
                builder_public_key,
            );
            let all = list.paths + chunk.paths;
            &&& !chunk.done ==> (after matches HandshakeView::ReadingPaths {
                authorized: kept,
                request: kept_request,
                list: longer,
            } && kept == authorized && kept_request == request && longer.paths == all)
                && actions.len() == 1 && actions[0] is Read
            &&& chunk.done ==> match builds::checked_request(request, all) {
                Err(error) => after is Refusing && is_told(actions, error[0]),
                Ok(build) => {
                    &&& authorized.ticket_secret is None ==> after == (HandshakeView::Accepted {
                        authorized,
                        build,
                    }) && actions.len() == 0
                    &&& authorized.ticket_secret matches Some(secret) ==> after == (
                    HandshakeView::Redeeming { authorized, build }) && actions == seq![
                        ActionView::RedeemTicket { secret },
                    ]
                },
            }
        }),
{
}

/// A client that greets honestly may say why it may build.
pub proof fn law_honest_clients_go_on(
    version: u32,
    node_id: Seq<char>,
    shown: Seq<char>,
    peer: Seq<u8>,
    trusted: Seq<access::TrustedEndpointView>,
    builder_public_key: Seq<char>,
)
    ensures
        ({
            let (after, actions) = handshake_step(
                HandshakeView::AwaitHello,
                HandshakeEventView::Received {
                    message: MessageView::Hello { version, node_id },
                    shown,
                },
                peer,
                trusted,
                builder_public_key,
            );
            match auth::hello_fault(peer, version, node_id) {
                None => after is AwaitAuth && actions.len() == 1 && actions[0] is Read,
                Some(fault) => after is Ended && actions == seq![
                    ActionView::Abort { error: fault },
                ],
            }
        }),
{
}

/// A connection that fails or falls silent is dropped, with the reason. A client
/// whose list of paths stops on the way is told so first.
pub proof fn law_broken_connections_are_dropped(
    state: HandshakeView,
    error: Seq<Seq<char>>,
    cause: Seq<char>,
    peer: Seq<u8>,
    trusted: Seq<access::TrustedEndpointView>,
    builder_public_key: Seq<char>,
)
    requires
        state !is Ended,
        state !is Accepted,
        state !is Refusing,
    ensures
        ({
            let failed = handshake_step(
                state,
                HandshakeEventView::Failed { error },
                peer,
                trusted,
                builder_public_key,
            );
            let silent = handshake_step(
                state,
                HandshakeEventView::TimedOut { cause },
                peer,
                trusted,
                builder_public_key,
            );
            &&& state !is ReadingPaths ==> {
                &&& failed.0 is Ended
                &&& failed.1 == seq![ActionView::Abort { error }]
                &&& silent.0 is Ended
                &&& silent.1 == seq![ActionView::Abort { error: seq!["read timed out"@, cause] }]
            }
            &&& state is ReadingPaths ==> {
                &&& failed.0 is Refusing
                &&& failed.1 == seq![
                    ActionView::Send { message: MessageView::Error { message: error[0] } },
                    ActionView::Close,
                ]
                &&& silent.0 is Refusing
                &&& silent.1 == seq![
                    ActionView::Send { message: MessageView::Error { message: "read timed out"@ } },
                    ActionView::Close,
                ]
            }
        }),
{
}

/// A client that says something else than it should is told, or the connection
/// is dropped with what it said.
pub proof fn law_other_messages_are_refused(
    authorized: AuthorizedView,
    message: MessageView,
    shown: Seq<char>,
    peer: Seq<u8>,
    trusted: Seq<access::TrustedEndpointView>,
    builder_public_key: Seq<char>,
)
    ensures
        ({
            let event = HandshakeEventView::Received { message, shown };
            let at_hello = handshake_step(
                HandshakeView::AwaitHello,
                event,
                peer,
                trusted,
                builder_public_key,
            );
            let at_auth = handshake_step(
                HandshakeView::AwaitAuth,
                event,
                peer,
                trusted,
                builder_public_key,
            );
            let at_request = handshake_step(
                HandshakeView::AwaitRequest { authorized },
                event,
                peer,
                trusted,
                builder_public_key,
            );
            &&& message !is Hello ==> at_hello.0 is Ended && at_hello.1 == seq![
                ActionView::Abort { error: seq!["expected hello, got "@ + shown] },
            ]
            &&& message !is AuthTrustedClient && message !is AuthTicket ==> at_auth.0 is Refusing
                && at_auth.1 == seq![
                ActionView::Send {
                    message: MessageView::Error { message: "expected auth message, got "@ + shown },
                },
                ActionView::Close,
            ]
            &&& message !is BuildRequest ==> at_request.0 is Ended && at_request.1 == seq![
                ActionView::Abort { error: seq!["expected build request, got "@ + shown] },
            ]
        }),
{
}

/// A client has half a minute to say who it is, and ten minutes for each message
/// of its request. It may ask for a hundred thousand paths, in no more than five
/// hundred and twelve messages and sixteen mebibytes.
pub proof fn law_how_long_and_how_much_a_client_may_send(
    version: u32,
    node_id: Seq<char>,
    authorized: AuthorizedView,
    reply: MessageView,
    request: BuildRequestView,
    shown: Seq<char>,
    peer: Seq<u8>,
    trusted: Seq<access::TrustedEndpointView>,
    builder_public_key: Seq<char>,
)
    requires
        auth::hello_fault(peer, version, node_id) is None,
    ensures
        handshake_step(
            HandshakeView::AwaitHello,
            HandshakeEventView::Received { message: MessageView::Hello { version, node_id }, shown },
            peer,
            trusted,
            builder_public_key,
        ).1 == seq![ActionView::Read { seconds: 30 }],
        after_auth(auth::AuthOutcomeView::Accepted { reply, authorized }).1 == seq![
            ActionView::Send { message: reply },
            ActionView::Read { seconds: 600 },
        ],
        handshake_step(
            HandshakeView::AwaitRequest { authorized },
            HandshakeEventView::Received { message: MessageView::BuildRequest(request), shown },
            peer,
            trusted,
            builder_public_key,
        ).1 == seq![ActionView::Read { seconds: 600 }],
        list_limits().chunks == 512,
        list_limits().paths == 100_000,
        list_limits().bytes == 16 * 1024 * 1024,
{
}

} // verus!
