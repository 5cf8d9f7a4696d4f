//! Who may build: trusted clients, and clients with a ticket.

use vstd::prelude::*;

use crate::access;
use crate::access::{AccessPolicy, AuthorizedClient};
use crate::config;
use crate::config::{parse_byte_count, parse_duration};
use crate::endpoint;
use crate::endpoint::EndpointId;
use crate::error::Error;
use crate::hex;
use crate::proto::{AuthOk, Hello, Message, MessageView, VERSION};
use crate::text;
use crate::text::{concat2, concat4, decimal_string};
use crate::ticket::TicketRecord;

verus! {

/// A client that may build, and how much.
pub struct AuthorizedConnection {
    pub client_label: String,
    /// In seconds.
    pub max_build_time: Option<u64>,
    pub max_upload_bytes: Option<u64>,
    /// The secret of a ticket that is yet to be redeemed.
    pub ticket_secret: Option<[u8; 32]>,
}

/// The view of a client that may build.
pub struct AuthorizedView {
    pub client_label: Seq<char>,
    pub max_build_time: Option<u64>,
    pub max_upload_bytes: Option<u64>,
    pub ticket_secret: Option<Seq<u8>>,
}

impl View for AuthorizedConnection {
    type V = AuthorizedView;

    open spec fn view(&self) -> AuthorizedView {
        AuthorizedView {
            client_label: self.client_label@,
            max_build_time: self.max_build_time,
            max_upload_bytes: self.max_upload_bytes,
            ticket_secret: endpoint::optional_bytes(self.ticket_secret),
        }
    }
}

/// What a request to build comes to: the client may build and is told so, the
/// client is told why not, or the connection fails.
pub enum AuthOutcome {
    Accepted { reply: Message, authorized: AuthorizedConnection },
    Refused { message: String },
    Failed { error: Error },
}

/// The view of such an outcome.
pub enum AuthOutcomeView {
    Accepted { reply: MessageView, authorized: AuthorizedView },
    Refused { message: Seq<char> },
    Failed { error: Seq<Seq<char>> },
}

impl View for AuthOutcome {
    type V = AuthOutcomeView;

    open spec fn view(&self) -> AuthOutcomeView {
        match *self {
            AuthOutcome::Accepted { reply, authorized } => AuthOutcomeView::Accepted {
                reply: reply@,
                authorized: authorized@,
            },
            AuthOutcome::Refused { message } => AuthOutcomeView::Refused { message: message@ },
            AuthOutcome::Failed { error } => AuthOutcomeView::Failed { error: error@ },
        }
    }
}

// ---------------------------------------------------------------------------
// The greeting
// ---------------------------------------------------------------------------

/// What is wrong with a greeting whose id was read as `claimed`: another
/// version, or another identity than the connection has.
pub open spec fn claim_fault(
    peer: Seq<u8>,
    version: u32,
    node_id: Seq<char>,
    claimed: Result<Seq<u8>, Seq<char>>,
) -> Option<Seq<Seq<char>>> {
    if version != VERSION {
        Some(seq!["unsupported protocol version: "@ + text::decimal(version as nat)])
    } else {
        match claimed {
            Err(why) => Some(seq!["parse hello node id: "@ + node_id, why]),
            Ok(claimed) => if claimed != peer {
                Some(
                    seq![
                        "hello node id "@ + hex::hex_text(claimed)
                            + " does not match connection peer "@ + hex::hex_text(peer),
                    ],
                )
            } else {
                None
            },
        }
    }
}

/// What is wrong with a greeting.
pub open spec fn hello_fault(peer: Seq<u8>, version: u32, node_id: Seq<char>) -> Option<
    Seq<Seq<char>>,
> {
    claim_fault(peer, version, node_id, endpoint::endpoint_id_read(node_id))
}

/// Refuses a greeting of another version or from somebody else.
pub fn check_hello(peer: &EndpointId, hello: &Hello) -> (r: Result<(), Error>)
    ensures
        match r {
            Ok(()) => hello_fault(peer@, hello.version, hello.node_id@) is None,
            Err(e) => hello_fault(peer@, hello.version, hello.node_id@) == Some(e@),
        },
{
    check_claim(peer, hello, EndpointId::parse(hello.node_id.as_str()))
}

/// Refuses a greeting of another version, or one whose id was not read as that
/// of the connection.
pub fn check_claim(
    peer: &EndpointId,
    hello: &Hello,
    claimed: Result<EndpointId, String>,
) -> (r: Result<(), Error>)
    ensures
        match r {
            Ok(()) => claim_fault(
                peer@,
                hello.version,
                hello.node_id@,
                endpoint::read_id(claimed),
            ) is None,
            Err(e) => claim_fault(
                peer@,
                hello.version,
                hello.node_id@,
                endpoint::read_id(claimed),
            ) == Some(e@),
        },
{
    if hello.version != VERSION {
        return Err(
            Error::new(
                concat2(
                    "unsupported protocol version: ",
                    decimal_string(hello.version as u64).as_str(),
                ),
            ),
        );
    }
    match claimed {
        Err(why) => Err(
            Error::caused(concat2("parse hello node id: ", hello.node_id.as_str()), why),
        ),
        Ok(claimed) => {
            if !claimed.same(peer) {
                return Err(
                    Error::new(
                        concat4(
                            "hello node id ",
                            claimed.to_text().as_str(),
                            " does not match connection peer ",
                            peer.to_text().as_str(),
                        ),
                    ),
                );
            }
            Ok(())
        },
    }
}

// ---------------------------------------------------------------------------
// Trusted clients
// ---------------------------------------------------------------------------

/// A limit that may be absent.
pub open spec fn optional_limit(
    value: Option<Seq<char>>,
    read: spec_fn(Seq<char>) -> Result<u64, Seq<Seq<char>>>,
) -> Result<Option<u64>, Seq<Seq<char>>> {
    match value {
        None => Ok(None),
        Some(value) => match read(value) {
            Ok(limit) => Ok(Some(limit)),
            Err(e) => Err(e),
        },
    }
}

/// How a client is called: by its name, or by its key.
pub open spec fn label(kind: Seq<char>, name: Option<Seq<char>>, peer: Seq<u8>) -> Seq<char> {
    match name {
        Some(name) => kind + name,
        None => kind + hex::hex_text(peer),
    }
}

pub open spec fn auth_ok(name: Option<Seq<char>>, builder_public_key: Seq<char>) -> MessageView {
    MessageView::AuthOk { client_name: name, builder_public_key }
}

/// What a client that says it is trusted gets.
pub open spec fn trusted_outcome(
    peer: Seq<u8>,
    entry: Option<access::TrustedEndpointView>,
    builder_public_key: Seq<char>,
) -> AuthOutcomeView {
    match entry {
        None => AuthOutcomeView::Refused { message: "client is not trusted"@ },
        Some(entry) => match optional_limit(
            entry.policy.max_build_time,
            |value: Seq<char>| config::duration_seconds(value),
        ) {
            Err(error) => AuthOutcomeView::Failed { error },
            Ok(max_build_time) => match optional_limit(
                entry.policy.max_upload_bytes,
                |value: Seq<char>| config::byte_count(value),
            ) {
                Err(error) => AuthOutcomeView::Failed { error },
                Ok(max_upload_bytes) => AuthOutcomeView::Accepted {
                    reply: auth_ok(entry.name, builder_public_key),
                    authorized: AuthorizedView {
                        client_label: label("client:"@, entry.name, peer),
                        max_build_time,
                        max_upload_bytes,
                        ticket_secret: None,
                    },
                },
            },
        },
    }
}

fn client_label(kind: &str, name: &Option<String>, peer: &EndpointId) -> (r: String)
    ensures
        r@ == label(kind@, text::optional_text(*name), peer@),
{
    match name {
        Some(name) => concat2(kind, name.as_str()),
        None => concat2(kind, peer.to_text().as_str()),
    }
}

fn auth_ok_message(name: Option<String>, builder_public_key: &str) -> (m: Message)
    ensures
        m@ == auth_ok(text::optional_text(name), builder_public_key@),
{
    Message::AuthOk(
        AuthOk { client_name: name, builder_public_key: builder_public_key.to_string() },
    )
}

/// Decides about a client that says it is trusted.
pub fn authorize_trusted_client(
    peer: &EndpointId,
    access_policy: &AccessPolicy,
    builder_public_key: &str,
) -> (r: AuthOutcome)
    ensures
        r@ == trusted_outcome(
            peer@,
            access::entry_for(access_policy@, peer@),
            builder_public_key@,
        ),
{
    let client: AuthorizedClient = match access_policy.authorize(peer) {
        Some(client) => client,
        None => {
            return AuthOutcome::Refused { message: "client is not trusted".to_string() };
        },
    };
    let max_build_time: Option<u64> = match &client.policy.max_build_time {
        Some(value) => match parse_duration(value.as_str()) {
            Ok(seconds) => Some(seconds),
            Err(error) => {
                return AuthOutcome::Failed { error };
            },
        },
        None => None,
    };
    let max_upload_bytes: Option<u64> = match &client.policy.max_upload_bytes {
        Some(value) => match parse_byte_count(value.as_str()) {
            Ok(bytes) => Some(bytes),
            Err(error) => {
                return AuthOutcome::Failed { error };
            },
        },
        None => None,
    };
    AuthOutcome::Accepted {
        authorized: AuthorizedConnection {
            client_label: client_label("client:", &client.name, peer),
            max_build_time,
            max_upload_bytes,
            ticket_secret: None,
        },
        reply: auth_ok_message(client.name, builder_public_key),
    }
}

// ---------------------------------------------------------------------------
// Tickets
// ---------------------------------------------------------------------------

/// The limits of a ticket.
pub open spec fn ticket_limits(record: TicketRecord) -> Result<(u64, u64), Seq<Seq<char>>> {
    match config::duration_seconds(record.max_build_time@) {
        Err(e) => Err(e),
        Ok(max_build_time) => match config::byte_count(record.max_upload_bytes@) {
            Err(e) => Err(e),
            Ok(max_upload_bytes) => Ok((max_build_time, max_upload_bytes)),
        },
    }
}

/// What a client with a ticket gets, by what the check of the ticket said.
pub open spec fn ticket_outcome(
    peer: Seq<u8>,
    checked: Result<TicketRecord, Seq<Seq<char>>>,
    secret: Seq<u8>,
    builder_public_key: Seq<char>,
) -> AuthOutcomeView {
    match checked {
        Err(error) => AuthOutcomeView::Refused { message: error[0] },
        Ok(record) => match ticket_limits(record) {
            Err(error) => AuthOutcomeView::Failed { error },
            Ok((max_build_time, max_upload_bytes)) => AuthOutcomeView::Accepted {
                reply: auth_ok(text::optional_text(record.name), builder_public_key),
                authorized: AuthorizedView {
                    client_label: label("ticket:"@, text::optional_text(record.name), peer),
                    max_build_time: Some(max_build_time),
                    max_upload_bytes: Some(max_upload_bytes),
                    ticket_secret: Some(secret),
                },
            },
        },
    }
}

fn read_ticket_limits(record: &TicketRecord) -> (r: Result<(u64, u64), Error>)
    ensures
        crate::error::outcome(r) == ticket_limits(*record),
{
    let max_build_time: u64 = match parse_duration(record.max_build_time.as_str()) {
        Ok(seconds) => seconds,
        Err(e) => {
            return Err(e);
        },
    };
    match parse_byte_count(record.max_upload_bytes.as_str()) {
        Ok(bytes) => Ok((max_build_time, bytes)),
        Err(e) => Err(e),
    }
}

/// Decides about a client with a ticket, by what the check of the ticket said.
pub fn authorize_ticket(
    peer: &EndpointId,
    checked: Result<TicketRecord, Error>,
    secret: &[u8; 32],
    builder_public_key: &str,
) -> (r: AuthOutcome)
    ensures
        r@ == ticket_outcome(
            peer@,
            crate::error::outcome(checked),
            secret@,
            builder_public_key@,
        ),
{
    let record: TicketRecord = match checked {
        Ok(record) => record,
        Err(e) => {
            return AuthOutcome::Refused { message: e.message() };
        },
    };
    match read_ticket_limits(&record) {
        Err(error) => AuthOutcome::Failed { error },
        Ok((max_build_time, max_upload_bytes)) => AuthOutcome::Accepted {
            authorized: AuthorizedConnection {
                client_label: client_label("ticket:", &record.name, peer),
                max_build_time: Some(max_build_time),
                max_upload_bytes: Some(max_upload_bytes),
                ticket_secret: Some(*secret),
            },
            reply: auth_ok_message(record.name, builder_public_key),
        },
    }
}

/// What redeeming the ticket of a client comes to: the client may build, is
/// told why not, or the connection fails.
pub enum RedeemOutcome {
    Granted { authorized: AuthorizedConnection },
    Refused { message: String },
    Failed { error: Error },
}

/// The view of such an outcome.
pub enum RedeemOutcomeView {
    Granted { authorized: AuthorizedView },
    Refused { message: Seq<char> },
    Failed { error: Seq<Seq<char>> },
}

impl View for RedeemOutcome {
    type V = RedeemOutcomeView;

    open spec fn view(&self) -> RedeemOutcomeView {
        match *self {
            RedeemOutcome::Granted { authorized } => RedeemOutcomeView::Granted {
                authorized: authorized@,
            },
            RedeemOutcome::Refused { message } => RedeemOutcomeView::Refused { message: message@ },
            RedeemOutcome::Failed { error } => RedeemOutcomeView::Failed { error: error@ },
        }
    }
}

/// What a client gets whose ticket was redeemed, or was not.
pub open spec fn redeem_outcome(
    authorized: AuthorizedView,
    redeemed: Result<TicketRecord, Seq<Seq<char>>>,
) -> RedeemOutcomeView {
    match redeemed {
        Err(error) => RedeemOutcomeView::Refused { message: error[0] },
        Ok(record) => match ticket_limits(record) {
            Err(error) => RedeemOutcomeView::Failed { error },
            Ok((max_build_time, max_upload_bytes)) => RedeemOutcomeView::Granted {
                authorized: AuthorizedView {
                    max_build_time: Some(max_build_time),
                    max_upload_bytes: Some(max_upload_bytes),
                    ticket_secret: None,
                    ..authorized
                },
            },
        },
    }
}

/// Decides about a client whose ticket was redeemed, or was not. The limits
/// are those of the ticket as it is now.
pub fn redeem_ticket(
    authorized: AuthorizedConnection,
    redeemed: Result<TicketRecord, Error>,
) -> (r: RedeemOutcome)
    ensures
        r@ == redeem_outcome(authorized@, crate::error::outcome(redeemed)),
{
    let record: TicketRecord = match redeemed {
        Ok(record) => record,
        Err(e) => {
            return RedeemOutcome::Refused { message: e.message() };
        },
    };
    match read_ticket_limits(&record) {
        Err(error) => RedeemOutcome::Failed { error },
        Ok((max_build_time, max_upload_bytes)) => RedeemOutcome::Granted {
            authorized: AuthorizedConnection {
                client_label: authorized.client_label,
                max_build_time: Some(max_build_time),
                max_upload_bytes: Some(max_upload_bytes),
                ticket_secret: None,
            },
        },
    }
}

// ---------------------------------------------------------------------------
// Laws
// ---------------------------------------------------------------------------

/// A client that greets with the version of the protocol and the id under
/// which it is connected is let in.
pub proof fn law_honest_greetings_are_accepted(peer: Seq<u8>)
    requires
        endpoint::is_endpoint_key(peer),
    ensures
        hello_fault(peer, VERSION, hex::hex_text(peer)) is None,
{
}

/// No greeting is accepted under an id other than that of the connection.
pub proof fn law_nobody_greets_as_another(peer: Seq<u8>, version: u32, node_id: Seq<char>)
    requires
        hello_fault(peer, version, node_id) is None,
    ensures
        version == VERSION,
        endpoint::endpoint_id_of_text(node_id) == Some(peer),
{
}

/// A client is let in as trusted only where some entry is for its key, and
/// then without a ticket.
pub proof fn law_only_trusted_clients_are_let_in(
    peer: Seq<u8>,
    entries: Seq<access::TrustedEndpointView>,
    builder_public_key: Seq<char>,
)
    ensures
        trusted_outcome(
            peer,
            access::entry_for(entries, peer),
            builder_public_key,
        ) matches AuthOutcomeView::Accepted { authorized, .. } ==> authorized.ticket_secret is None
            && exists|i: int|
            0 <= i < entries.len() && (#[trigger] entries[i]).endpoint_id == peer,
{
    access::law_recognised_exactly_if_trusted(entries, peer);
}

/// A trusted client is let in with the limits of its own entry: as long a build as
/// the entry's time allows, and as large an upload as its byte count allows, each
/// unlimited exactly where the entry does not limit it. It is called by the
/// name of the entry, or else by its key, and is told that name and the key of the
/// builder. Only a limit that cannot be read keeps it out.
pub proof fn law_trusted_clients_get_their_limits(
    peer: Seq<u8>,
    entry: access::TrustedEndpointView,
    builder_public_key: Seq<char>,
)
    ensures
        match trusted_outcome(peer, Some(entry), builder_public_key) {
            AuthOutcomeView::Accepted { reply, authorized } => {
                &&& authorized.max_upload_bytes is None <==> entry.policy.max_upload_bytes is None
                &&& entry.policy.max_upload_bytes matches Some(written) ==> config::byte_count(
                    written,
                ) == Ok::<u64, Seq<Seq<char>>>(authorized.max_upload_bytes->0)
                &&& authorized.max_build_time is None <==> entry.policy.max_build_time is None
                &&& entry.policy.max_build_time matches Some(written) ==> config::duration_seconds(
                    written,
                ) == Ok::<u64, Seq<Seq<char>>>(authorized.max_build_time->0)
                &&& entry.name matches Some(name) ==> authorized.client_label == "client:"@ + name
                &&& entry.name is None ==> authorized.client_label == "client:"@ + hex::hex_text(
                    peer,
                )
                &&& reply == MessageView::AuthOk { client_name: entry.name, builder_public_key }
            },
            AuthOutcomeView::Refused { .. } => false,
            AuthOutcomeView::Failed { error } => {
                ||| entry.policy.max_build_time matches Some(written) && config::duration_seconds(
                    written,
                ) == Err::<u64, Seq<Seq<char>>>(error)
                ||| entry.policy.max_upload_bytes matches Some(written) && config::byte_count(
                    written,
                ) == Err::<u64, Seq<Seq<char>>>(error)
            },
        },
        trusted_outcome(peer, None, builder_public_key) == (AuthOutcomeView::Refused {
            message: "client is not trusted"@,
        }),
{
}

/// The holder of a ticket is let in with the limits that the ticket says, both of
/// them, and keeps the secret until the ticket is redeemed. A ticket that did
/// not pass its check is refused with the reason of that.
pub proof fn law_ticket_holders_get_the_limits_of_the_ticket(
    peer: Seq<u8>,
    checked: Result<TicketRecord, Seq<Seq<char>>>,
    secret: Seq<u8>,
    builder_public_key: Seq<char>,
)
    ensures
        match ticket_outcome(peer, checked, secret, builder_public_key) {
            AuthOutcomeView::Accepted { reply, authorized } => checked matches Ok(record) && {
                let name = text::optional_text(record.name);
                &&& authorized.max_build_time is Some && config::duration_seconds(
                    record.max_build_time@,
                ) == Ok::<u64, Seq<Seq<char>>>(authorized.max_build_time->0)
                &&& authorized.max_upload_bytes is Some && config::byte_count(
                    record.max_upload_bytes@,
                ) == Ok::<u64, Seq<Seq<char>>>(authorized.max_upload_bytes->0)
                &&& authorized.ticket_secret == Some(secret)
                &&& authorized.client_label == "ticket:"@ + (if name is Some {
                    name->0
                } else {
                    hex::hex_text(peer)
                })
                &&& reply == MessageView::AuthOk { client_name: name, builder_public_key }
            },
            AuthOutcomeView::Refused { message } => checked matches Err(error) && message
                == error[0],
            AuthOutcomeView::Failed { .. } => checked matches Ok(record) && (
            config::duration_seconds(record.max_build_time@) is Err || config::byte_count(
                record.max_upload_bytes@,
            ) is Err),
        },
{
}

/// A redeemed ticket gives the limits that it says as it was redeemed, and is then
/// done with; the client stays who it was. A ticket that could not be redeemed
/// gives nothing.
pub proof fn law_redeemed_tickets_give_their_limits(
    authorized: AuthorizedView,
    redeemed: Result<TicketRecord, Seq<Seq<char>>>,
)
    ensures
        match redeem_outcome(authorized, redeemed) {
            RedeemOutcomeView::Granted { authorized: granted } => redeemed matches Ok(record) && {
                &&& granted.max_build_time is Some && config::duration_seconds(
                    record.max_build_time@,
                ) == Ok::<u64, Seq<Seq<char>>>(granted.max_build_time->0)
                &&& granted.max_upload_bytes is Some && config::byte_count(
                    record.max_upload_bytes@,
                ) == Ok::<u64, Seq<Seq<char>>>(granted.max_upload_bytes->0)
                &&& granted.ticket_secret is None
                &&& granted.client_label == authorized.client_label
            },
            RedeemOutcomeView::Refused { message } => redeemed matches Err(error) && message
                == error[0],
            RedeemOutcomeView::Failed { .. } => redeemed matches Ok(record) && (
            config::duration_seconds(record.max_build_time@) is Err || config::byte_count(
                record.max_upload_bytes@,
            ) is Err),
        },
{
}

/// A dishonest greeting is told apart: another version of the protocol, an id that
/// is none, or the id of somebody else.
pub proof fn law_greetings_are_refused_for_a_reason(
    peer: Seq<u8>,
    version: u32,
    node_id: Seq<char>,
    claimed: Result<Seq<u8>, Seq<char>>,
)
    ensures
        claim_fault(peer, version, node_id, claimed) is None <==> version == VERSION && claimed
            == Ok::<Seq<u8>, Seq<char>>(peer),
        claim_fault(peer, version, node_id, claimed) matches Some(fault) ==> {
            &&& version != VERSION ==> fault == seq![
                "unsupported protocol version: "@ + text::decimal(version as nat),
            ]
            &&& version == VERSION && claimed is Err ==> fault == seq![
                "parse hello node id: "@ + node_id,
                claimed->Err_0,
            ]
            &&& version == VERSION && claimed is Ok ==> fault == seq![
                "hello node id "@ + hex::hex_text(claimed->Ok_0)
                    + " does not match connection peer "@ + hex::hex_text(peer),
            ]
        },
{
}

} // verus!
