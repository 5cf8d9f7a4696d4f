//! The client.

pub mod session;
pub mod summary;

use vstd::prelude::*;

use crate::endpoint::{EndpointAddr, EndpointAddrView, EndpointId};
use crate::proto::{AuthTicket, Message, MessageView};
use crate::text;
use crate::ticket;
use crate::ticket::BuildTicket;

verus! {

/// How a client gets to build: as one that the builder trusts, or by a ticket.
pub enum BuildAuth {
    TrustedClient { server_id: EndpointId, relay_url: Option<String> },
    Ticket(BuildTicket),
}

/// The view of how a client gets to build.
pub enum BuildAuthView {
    TrustedClient { server_id: Seq<u8>, relay_url: Option<Seq<char>> },
    Ticket(ticket::BuildTicketView),
}

impl View for BuildAuth {
    type V = BuildAuthView;

    open spec fn view(&self) -> BuildAuthView {
        match *self {
            BuildAuth::TrustedClient { server_id, relay_url } => BuildAuthView::TrustedClient {
                server_id: server_id@,
                relay_url: text::optional_text(relay_url),
            },
            BuildAuth::Ticket(ticket) => BuildAuthView::Ticket(ticket@),
        }
    }
}

/// Where the builder is.
pub open spec fn addr_for(auth: BuildAuthView) -> EndpointAddrView {
    match auth {
        BuildAuthView::TrustedClient { server_id, relay_url } => EndpointAddrView {
            id: server_id,
            relay_urls: match relay_url {
                Some(relay_url) => seq![relay_url],
                None => Seq::empty(),
            },
            direct_addrs: Seq::empty(),
        },
        BuildAuthView::Ticket(ticket) => ticket.addr,
    }
}

/// How the client says why it may build.
pub open spec fn auth_for(auth: BuildAuthView) -> MessageView {
    match auth {
        BuildAuthView::TrustedClient { .. } => MessageView::AuthTrustedClient,
        BuildAuthView::Ticket(ticket) => MessageView::AuthTicket { secret: ticket.secret },
    }
}

/// Which key a client uses.
pub enum KeySource {
    /// The key in a file, which is made where there is none.
    File { path: String },
    /// The key of the user, likewise.
    Default,
    /// A key that was never used and will not be kept.
    Fresh,
}

/// The view of which key a client uses.
pub enum KeySourceView {
    File { path: Seq<char> },
    Default,
    Fresh,
}

impl View for KeySource {
    type V = KeySourceView;

    open spec fn view(&self) -> KeySourceView {
        match *self {
            KeySource::File { path } => KeySourceView::File { path: path@ },
            KeySource::Default => KeySourceView::Default,
            KeySource::Fresh => KeySourceView::Fresh,
        }
    }
}

/// A key file that is named is used. Otherwise a trusted client needs the key
/// that the builder knows, and a client with a ticket any.
pub open spec fn key_for(auth: BuildAuthView, key_file: Option<Seq<char>>) -> KeySourceView {
    match key_file {
        Some(path) => KeySourceView::File { path },
        None => match auth {
            BuildAuthView::TrustedClient { .. } => KeySourceView::Default,
            BuildAuthView::Ticket(_) => KeySourceView::Fresh,
        },
    }
}

impl BuildAuth {
    pub fn server_addr(&self) -> (addr: EndpointAddr)
        ensures
            addr@ == addr_for(self@),
    {
        match self {
            BuildAuth::TrustedClient { server_id, relay_url } => match relay_url {
                Some(relay_url) => EndpointAddr::new(*server_id).with_relay_url(relay_url.clone()),
                None => EndpointAddr::new(*server_id),
            },
            BuildAuth::Ticket(ticket) => ticket.addr().clone(),
        }
    }

    /// The message that says why the client may build.
    pub fn message(&self) -> (m: Message)
        ensures
            m@ == auth_for(self@),
    {
        match self {
            BuildAuth::TrustedClient { .. } => Message::AuthTrustedClient,
            BuildAuth::Ticket(ticket) => Message::AuthTicket(
                AuthTicket { secret: ticket.secret() },
            ),
        }
    }

    /// The key with which the client connects.
    pub fn key_source(&self, key_file: &Option<String>) -> (r: KeySource)
        ensures
            r@ == key_for(self@, text::optional_text(*key_file)),
    {
        match key_file {
            Some(path) => KeySource::File { path: path.clone() },
            None => match self {
                BuildAuth::TrustedClient { .. } => KeySource::Default,
                BuildAuth::Ticket(_) => KeySource::Fresh,
            },
        }
    }
}

/// A client goes to the builder that it was told of: with the id and the relay
/// that it was given, or the address in its ticket.
pub proof fn law_clients_go_where_they_are_told(auth: BuildAuthView)
    ensures
        match auth {
            BuildAuthView::TrustedClient { server_id, relay_url } => {
                &&& addr_for(auth).id == server_id
                &&& addr_for(auth).relay_urls.len() == if relay_url is Some {
                    1nat
                } else {
                    0nat
                }
                &&& relay_url is Some ==> addr_for(auth).relay_urls[0] == relay_url->0
                &&& addr_for(auth).direct_addrs.len() == 0
                &&& auth_for(auth) is AuthTrustedClient
            },
            BuildAuthView::Ticket(ticket) => {
                &&& addr_for(auth) == ticket.addr
                &&& auth_for(auth) matches MessageView::AuthTicket { secret }
                &&& secret == ticket.secret
            },
        },
{
}

/// A client uses the key file that it was given. Without one, only a client
/// that the builder knows uses its own key.
pub proof fn law_keys_of_clients(auth: BuildAuthView, path: Seq<char>)
    ensures
        key_for(auth, Some(path)) == (KeySourceView::File { path }),
        auth is TrustedClient ==> key_for(auth, None) is Default,
        auth is Ticket ==> key_for(auth, None) is Fresh,
{
}

} // verus!
