//! What the command line asks for.

pub mod builders;
pub mod data_dir;
pub mod status;
pub mod tickets;

use vstd::prelude::*;

use crate::client::{BuildAuth, BuildAuthView};
use crate::endpoint::EndpointId;
use crate::error::Error;
use crate::proto::OutputMode;
use crate::text;
use crate::ticket;
use crate::ticket::BuildTicket;

verus! {

/// Logs are shown by nom unless the user wants them plain.
pub fn output_mode(no_nom: bool) -> (mode: OutputMode)
    ensures
        mode == (if no_nom {
            OutputMode::Plain
        } else {
            OutputMode::Nom
        }),
{
    if no_nom {
        OutputMode::Plain
    } else {
        OutputMode::Nom
    }
}

/// Refuses to fetch nothing at once.
pub fn check_nar_fetches(nar_fetches: Option<usize>) -> (r: Result<(), Error>)
    ensures
        match r {
            Ok(()) => nar_fetches != Some(0usize),
            Err(e) => nar_fetches == Some(0usize) && e@ == seq![
                "--nar-fetches must be at least 1"@,
            ],
        },
{
    match nar_fetches {
        Some(n) => {
            if n == 0 {
                return Err(Error::of("--nar-fetches must be at least 1"));
            }
            Ok(())
        },
        None => Ok(()),
    }
}

// ---------------------------------------------------------------------------
// Builders
// ---------------------------------------------------------------------------

/// Which builder is to build.
pub enum AuthChoice {
    /// One that is configured under a name.
    Named { name: String },
    /// One that the command line gives.
    Given { auth: BuildAuth },
    /// None.
    Nobody,
}

/// The view of which builder is to build.
pub enum AuthChoiceView {
    Named { name: Seq<char> },
    Given { auth: BuildAuthView },
    Nobody,
}

impl View for AuthChoice {
    type V = AuthChoiceView;

    open spec fn view(&self) -> AuthChoiceView {
        match *self {
            AuthChoice::Named { name } => AuthChoiceView::Named { name: name@ },
            AuthChoice::Given { auth } => AuthChoiceView::Given { auth: auth@ },
            AuthChoice::Nobody => AuthChoiceView::Nobody,
        }
    }
}

/// What the options that name a builder come to. At most one of a name, an
/// endpoint and a ticket is given, and a relay only with an endpoint.
pub open spec fn chosen_auth(
    builder: Option<Seq<char>>,
    server: Option<Seq<u8>>,
    relay_url: Option<Seq<char>>,
    ticket: Option<ticket::BuildTicketView>,
) -> Result<AuthChoiceView, Seq<Seq<char>>> {
    if builder is Some && (server is Some || relay_url is Some || ticket is Some) {
        Err(seq!["--builder cannot be used with --server, --relay-url, or --ticket"@])
    } else if ticket is Some && relay_url is Some {
        Err(seq!["--relay-url cannot be used with --ticket"@])
    } else if server is None && relay_url is Some {
        Err(seq!["--relay-url requires --server"@])
    } else {
        match (builder, server, ticket) {
            (Some(name), _, _) => Ok(AuthChoiceView::Named { name }),
            (None, Some(_), Some(_)) => Err(
                seq!["--server and --ticket cannot be used together"@],
            ),
            (None, Some(server_id), None) => Ok(
                AuthChoiceView::Given { auth: BuildAuthView::TrustedClient { server_id, relay_url } },
            ),
            (None, None, Some(ticket)) => Ok(
                AuthChoiceView::Given { auth: BuildAuthView::Ticket(ticket) },
            ),
            (None, None, None) => Ok(AuthChoiceView::Nobody),
        }
    }
}

pub open spec fn choice_outcome(r: Result<AuthChoice, Error>) -> Result<
    AuthChoiceView,
    Seq<Seq<char>>,
> {
    match r {
        Ok(choice) => Ok(choice@),
        Err(e) => Err(e@),
    }
}

pub open spec fn optional_key(id: Option<EndpointId>) -> Option<Seq<u8>> {
    match id {
        Some(id) => Some(id@),
        None => None,
    }
}

pub open spec fn optional_ticket(ticket: Option<BuildTicket>) -> Option<ticket::BuildTicketView> {
    match ticket {
        Some(ticket) => Some(ticket@),
        None => None,
    }
}

/// Reads the options that name a builder.
pub fn build_auth(
    builder: Option<String>,
    server: Option<EndpointId>,
    relay_url: Option<String>,
    ticket: Option<BuildTicket>,
) -> (r: Result<AuthChoice, Error>)
    ensures
        choice_outcome(r) == chosen_auth(
            text::optional_text(builder),
            optional_key(server),
            text::optional_text(relay_url),
            optional_ticket(ticket),
        ),
{
    if builder.is_some() && (server.is_some() || relay_url.is_some() || ticket.is_some()) {
        return Err(
            Error::of("--builder cannot be used with --server, --relay-url, or --ticket"),
        );
    }
    if ticket.is_some() && relay_url.is_some() {
        return Err(Error::of("--relay-url cannot be used with --ticket"));
    }
    if server.is_none() && relay_url.is_some() {
        return Err(Error::of("--relay-url requires --server"));
    }
    match (builder, server, ticket) {
        (Some(name), _, _) => Ok(AuthChoice::Named { name }),
        (None, Some(_), Some(_)) => Err(
            Error::of("--server and --ticket cannot be used together"),
        ),
        (None, Some(server_id), None) => Ok(
            AuthChoice::Given { auth: BuildAuth::TrustedClient { server_id, relay_url } },
        ),
        (None, None, Some(ticket)) => Ok(AuthChoice::Given { auth: BuildAuth::Ticket(ticket) }),
        (None, None, None) => Ok(AuthChoice::Nobody),
    }
}

// ---------------------------------------------------------------------------
// Serving
// ---------------------------------------------------------------------------

/// What the options of a builder come to: a data directory, which may be left
/// open, or a configuration file.
pub enum ServeChoice {
    DataDir { data_dir: Option<String>, trusted_clients: Vec<EndpointId> },
    Config { path: String },
}

/// Reads the options of a builder.
pub fn serve_choice(
    data_dir: Option<String>,
    config: Option<String>,
    trusted_clients: Vec<EndpointId>,
) -> (r: Result<ServeChoice, Error>)
    ensures
        match r {
            Ok(ServeChoice::DataDir { data_dir: dir, trusted_clients: trusted }) => config is None
                && dir == data_dir && trusted == trusted_clients,
            Ok(ServeChoice::Config { path }) => config == Some(path) && data_dir is None
                && trusted_clients@.len() == 0,
            Err(e) => config is Some && (if data_dir is Some {
                e@ == seq!["--data-dir and --config cannot be used together"@]
            } else {
                trusted_clients@.len() > 0 && e@ == seq![
                    "--trusted-client cannot be used with --config"@,
                ]
            }),
        },
{
    match config {
        None => Ok(ServeChoice::DataDir { data_dir, trusted_clients }),
        Some(path) => {
            if data_dir.is_some() {
                return Err(Error::of("--data-dir and --config cannot be used together"));
            }
            if trusted_clients.len() > 0 {
                return Err(Error::of("--trusted-client cannot be used with --config"));
            }
            Ok(ServeChoice::Config { path })
        },
    }
}

/// A builder is named in one way: by its name, by its endpoint with or without a
/// relay, or by a ticket. Any one of these is taken as it is given, and nothing
/// but one of these.
pub proof fn law_one_way_to_name_a_builder(
    name: Seq<char>,
    server_id: Seq<u8>,
    url: Seq<char>,
    given: ticket::BuildTicketView,
)
    ensures
        chosen_auth(Some(name), None, None, None) == Ok::<AuthChoiceView, Seq<Seq<char>>>(
            AuthChoiceView::Named { name },
        ),
        chosen_auth(None, Some(server_id), None, None) == Ok::<AuthChoiceView, Seq<Seq<char>>>(
            AuthChoiceView::Given {
                auth: BuildAuthView::TrustedClient { server_id, relay_url: None },
            },
        ),
        chosen_auth(None, Some(server_id), Some(url), None) == Ok::<AuthChoiceView, Seq<Seq<char>>>(
            AuthChoiceView::Given {
                auth: BuildAuthView::TrustedClient { server_id, relay_url: Some(url) },
            },
        ),
        chosen_auth(None, None, None, Some(given)) == Ok::<AuthChoiceView, Seq<Seq<char>>>(
            AuthChoiceView::Given { auth: BuildAuthView::Ticket(given) },
        ),
        chosen_auth(None, None, None, None) == Ok::<AuthChoiceView, Seq<Seq<char>>>(
            AuthChoiceView::Nobody,
        ),
{
}

/// Whoever names a builder in two ways is told which of them exclude each other.
pub proof fn law_ways_exclude_each_other(
    builder: Option<Seq<char>>,
    server: Option<Seq<u8>>,
    relay_url: Option<Seq<char>>,
    given: Option<ticket::BuildTicketView>,
)
    ensures
        builder is Some && (server is Some || relay_url is Some || given is Some) ==> chosen_auth(
            builder,
            server,
            relay_url,
            given,
        ) == Err::<AuthChoiceView, Seq<Seq<char>>>(
            seq!["--builder cannot be used with --server, --relay-url, or --ticket"@],
        ),
        builder is None && given is Some && relay_url is Some ==> chosen_auth(
            builder,
            server,
            relay_url,
            given,
        ) == Err::<AuthChoiceView, Seq<Seq<char>>>(
            seq!["--relay-url cannot be used with --ticket"@],
        ),
        builder is None && given is None && server is None && relay_url is Some ==> chosen_auth(
            builder,
            server,
            relay_url,
            given,
        ) == Err::<AuthChoiceView, Seq<Seq<char>>>(seq!["--relay-url requires --server"@]),
        builder is None && relay_url is None && server is Some && given is Some ==> chosen_auth(
            builder,
            server,
            relay_url,
            given,
        ) == Err::<AuthChoiceView, Seq<Seq<char>>>(
            seq!["--server and --ticket cannot be used together"@],
        ),
{
}

} // verus!
