//! Copy-paste build tickets and the builder's record of them.

use vstd::prelude::*;

use crate::collections::StrMap;
use crate::endpoint;
use crate::endpoint::{
    parse_relay_url, EndpointAddr, EndpointAddrView, EndpointId, SocketAddr, SocketAddrView,
};
use crate::error;
use crate::error::Error;
use crate::hex;
use crate::order;
use crate::paths;
use crate::paths::{join_path, lock_path_for};
use crate::text;
use crate::text::{chars_of, concat2, decimal_string, trim_chars};

verus! {

pub const TICKETS_FILE: &'static str = "tickets.json";

pub const SERVER_ADDR_FILE: &'static str = "server-addr.json";

// ---------------------------------------------------------------------------
// The bytes of a ticket
// ---------------------------------------------------------------------------

/// A direct address as a ticket writes it: without flow and scope.
type WireAddr = Result<([u8; 4], u16), ([u8; 16], u16)>;

/// A ticket as it is written: the version of its form, the builder's key,
/// relay URL and direct addresses, and the secret.
type WireTicket = (u32, ([u8; 32], Option<String>, Vec<WireAddr>), [u8; 32]);

/// The bytes that stand for the fields of a ticket, as postcard writes them.
pub uninterp spec fn wire_bytes(
    version: u32,
    key: Seq<u8>,
    relay_url: Option<Seq<char>>,
    direct_addrs: Seq<Result<(Seq<u8>, u16), (Seq<u8>, u16)>>,
    secret: Seq<u8>,
) -> Seq<u8>;

/// The fields of a ticket that bytes stand for, as postcard reads them.
pub uninterp spec fn wire_fields(bytes: Seq<u8>) -> Option<
    (
        u32,
        Seq<u8>,
        Option<Seq<char>>,
        Seq<Result<(Seq<u8>, u16), (Seq<u8>, u16)>>,
        Seq<u8>,
    ),
>;

pub open spec fn wire_addr_view(addr: Result<([u8; 4], u16), ([u8; 16], u16)>) -> Result<
    (Seq<u8>, u16),
    (Seq<u8>, u16),
> {
    match addr {
        Ok((octets, port)) => Ok((octets@, port)),
        Err((bytes, port)) => Err((bytes@, port)),
    }
}

pub open spec fn wire_addr_views(list: Seq<Result<([u8; 4], u16), ([u8; 16], u16)>>) -> Seq<
    Result<(Seq<u8>, u16), (Seq<u8>, u16)>,
> {
    Seq::new(list.len(), |i: int| wire_addr_view(list[i]))
}

/// `postcard::to_stdvec`: the bytes of a ticket's fields. They are named; what
/// is said of them is that `postcard::from_bytes` reads the fields back.
#[verifier::external_body]
fn write_wire(ticket: &WireTicket) -> (r: Vec<u8>)
    ensures
        r@ == wire_bytes(
            ticket.0,
            ticket.1.0@,
            text::optional_text(ticket.1.1),
            wire_addr_views(ticket.1.2@),
            ticket.2@,
        ),
        wire_fields(r@) == Some(
            (
                ticket.0,
                ticket.1.0@,
                text::optional_text(ticket.1.1),
                wire_addr_views(ticket.1.2@),
                ticket.2@,
            ),
        ),
{
    postcard::to_stdvec(ticket).expect("postcard serialization failed")
}

/// `postcard::from_bytes`: the fields of a ticket that the bytes stand for,
/// where they stand for any. What is read is named.
#[verifier::external_body]
fn read_wire(bytes: &[u8]) -> (r: Option<WireTicket>)
    ensures
        match r {
            Some(ticket) => wire_fields(bytes@) == Some(
                (
                    ticket.0,
                    ticket.1.0@,
                    text::optional_text(ticket.1.1),
                    wire_addr_views(ticket.1.2@),
                    ticket.2@,
                ),
            ),
            None => wire_fields(bytes@) is None,
        },
{
    postcard::from_bytes(bytes).ok()
}

/// A direct address as a ticket writes it.
pub open spec fn wired(addr: SocketAddrView) -> Result<(Seq<u8>, u16), (Seq<u8>, u16)> {
    match addr {
        SocketAddrView::V4 { octets, port } => Ok((octets, port)),
        SocketAddrView::V6 { bytes, port, .. } => Err((bytes, port)),
    }
}

/// The direct address that a ticket writes.
pub open spec fn unwired(addr: Result<(Seq<u8>, u16), (Seq<u8>, u16)>) -> SocketAddrView {
    match addr {
        Ok((octets, port)) => SocketAddrView::V4 { octets, port },
        Err((bytes, port)) => SocketAddrView::V6 { bytes, port, flowinfo: 0, scope_id: 0 },
    }
}

pub open spec fn wired_list(list: Seq<SocketAddrView>) -> Seq<
    Result<(Seq<u8>, u16), (Seq<u8>, u16)>,
> {
    Seq::new(list.len(), |i: int| wired(list[i]))
}

/// The addresses that a ticket writes, in ascending order and each once.
pub open spec fn unwired_list(list: Seq<Result<(Seq<u8>, u16), (Seq<u8>, u16)>>) -> Seq<
    SocketAddrView,
>
    decreases list.len(),
{
    if list.len() == 0 {
        Seq::empty()
    } else {
        endpoint::with_addr(unwired_list(list.drop_last()), unwired(list.last()))
    }
}

pub open spec fn first_of(list: Seq<Seq<char>>) -> Option<Seq<char>> {
    if list.len() > 0 {
        Some(list[0])
    } else {
        None
    }
}

/// A relay URL that may be absent, as Iroh reads it.
pub open spec fn read_url(relay_url: Option<Seq<char>>) -> Option<Seq<char>> {
    match relay_url {
        Some(written) => endpoint::relay_url_of_text(written),
        None => None,
    }
}

/// The relay URLs of an address: the one that is written, if any, which was
/// read as `url`.
pub open spec fn relay_urls_with(is_written: bool, url: Option<Seq<char>>) -> Option<
    Seq<Seq<char>>,
> {
    if !is_written {
        Some(Seq::empty())
    } else {
        match url {
            Some(url) => Some(seq![url]),
            None => None,
        }
    }
}

/// The relay URLs of a ticket: the one that it writes, as Iroh reads it.
pub open spec fn ticket_relay_urls(relay_url: Option<Seq<char>>) -> Option<Seq<Seq<char>>> {
    relay_urls_with(relay_url is Some, read_url(relay_url))
}

/// The view of a ticket: where the builder is, and the secret.
pub struct BuildTicketView {
    pub addr: EndpointAddrView,
    pub secret: Seq<u8>,
}

/// The ticket that bytes stand for.
pub open spec fn ticket_of_bytes(bytes: Seq<u8>) -> Option<BuildTicketView> {
    match wire_fields(bytes) {
        Some((version, key, relay_url, direct_addrs, secret)) => ticket_with(
            version,
            if endpoint::is_endpoint_key(key) {
                Some(key)
            } else {
                None
            },
            relay_url is Some,
            read_url(relay_url),
            direct_addrs,
            secret,
        ),
        None => None,
    }
}

/// The ticket with these fields, whose key is `key`, where it is one, and whose
/// relay URL, where it has one, was read as `url`.
pub open spec fn ticket_with(
    version: u32,
    key: Option<Seq<u8>>,
    has_relay_url: bool,
    url: Option<Seq<char>>,
    direct_addrs: Seq<Result<(Seq<u8>, u16), (Seq<u8>, u16)>>,
    secret: Seq<u8>,
) -> Option<BuildTicketView> {
    if version != 0 {
        None
    } else {
        match (key, relay_urls_with(has_relay_url, url)) {
            (Some(id), Some(relay_urls)) => Some(
                BuildTicketView {
                    addr: EndpointAddrView {
                        id,
                        relay_urls,
                        direct_addrs: unwired_list(direct_addrs),
                    },
                    secret,
                },
            ),
            _ => None,
        }
    }
}

/// The bytes of a ticket.
pub open spec fn bytes_of_ticket(ticket: BuildTicketView) -> Seq<u8> {
    wire_bytes(
        0,
        ticket.addr.id,
        first_of(ticket.addr.relay_urls),
        wired_list(ticket.addr.direct_addrs),
        ticket.secret,
    )
}

/// What a ticket can write down of an address: a key that is one, a relay URL
/// in the form in which it is printed, and addresses without flow and scope.
pub open spec fn is_writable(addr: EndpointAddrView) -> bool {
    &&& addr.well_formed()
    &&& endpoint::is_endpoint_key(addr.id)
    &&& addr.relay_urls.len() <= 1
    &&& addr.relay_urls.len() == 1 ==> endpoint::relay_url_of_text(addr.relay_urls[0]) == Some(
        addr.relay_urls[0],
    )
    &&& forall|i: int|
        0 <= i < addr.direct_addrs.len() ==> unwired(wired(#[trigger] addr.direct_addrs[i]))
            == addr.direct_addrs[i]
}

/// What is written of ascending addresses is read back.
proof fn lemma_addrs_read_back(list: Seq<SocketAddrView>)
    requires
        endpoint::addrs_ascending(list),
        forall|i: int| 0 <= i < list.len() ==> unwired(wired(#[trigger] list[i])) == list[i],
    ensures
        unwired_list(wired_list(list)) == list,
    decreases list.len(),
{
    if list.len() > 0 {
        let shorter = list.drop_last();
        assert forall|i: int| 0 <= i < shorter.len() implies unwired(wired(#[trigger] shorter[i]))
            == shorter[i] by {
            assert(shorter[i] == list[i]);
        }
        assert(endpoint::addrs_ascending(shorter)) by {
            assert forall|i: int, j: int| 0 <= i < j < shorter.len() implies endpoint::addr_before(
                #[trigger] shorter[i],
                #[trigger] shorter[j],
            ) by {
                assert(endpoint::addr_before(list[i], list[j]));
            }
        }
        lemma_addrs_read_back(shorter);
        let written = wired_list(list);
        assert(written.drop_last() =~= wired_list(shorter));
        assert(written.last() == wired(list.last()));
        assert(unwired(wired(list[list.len() - 1])) == list.last());
        if shorter.len() > 0 {
            assert(endpoint::addr_before(list[list.len() - 2], list[list.len() - 1]));
            assert(shorter.last() == list[list.len() - 2]);
        }
        assert(shorter.push(list.last()) =~= list);
    } else {
        assert(unwired_list(wired_list(list)) =~= list);
    }
}

// ---------------------------------------------------------------------------
// Tickets
// ---------------------------------------------------------------------------

/// What a client needs to build: where the builder is, and a secret that the
/// builder knows.
pub struct BuildTicket {
    addr: EndpointAddr,
    secret: [u8; 32],
}

impl View for BuildTicket {
    type V = BuildTicketView;

    closed spec fn view(&self) -> BuildTicketView {
        BuildTicketView { addr: self.addr@, secret: self.secret@ }
    }
}

impl Clone for BuildTicket {
    fn clone(&self) -> (r: Self)
        ensures
            r@ == self@,
    {
        BuildTicket { addr: self.addr.clone(), secret: self.secret }
    }
}

/// The name under which the builder knows a secret.
pub open spec fn ticket_id_of(secret: Seq<u8>) -> Seq<char> {
    hex::hex_text(endpoint::public_key_of(secret))
}

/// The id of a ticket: the public key of its secret.
pub fn ticket_id(secret: &[u8; 32]) -> (r: String)
    ensures
        r@ == ticket_id_of(secret@),
{
    EndpointId::of_secret(secret).to_text()
}

/// The part of an address that goes into a ticket: the first relay URL, or the
/// direct addresses where there is none.
pub open spec fn compact(addr: EndpointAddrView) -> EndpointAddrView {
    if addr.relay_urls.len() > 0 {
        EndpointAddrView {
            id: addr.id,
            relay_urls: seq![addr.relay_urls[0]],
            direct_addrs: Seq::empty(),
        }
    } else {
        addr
    }
}

pub fn compact_ticket_addr(addr: &EndpointAddr) -> (r: EndpointAddr)
    ensures
        r@ == compact(addr@),
{
    let urls: &Vec<String> = addr.relay_urls();
    assert(text::texts(urls@).len() == urls@.len());
    if urls.len() > 0 {
        let compact_addr: EndpointAddr = EndpointAddr::new(addr.id());
        return compact_addr.with_relay_url(urls[0].clone());
    }
    addr.clone()
}

fn wire_addrs(list: &Vec<SocketAddr>) -> (r: Vec<WireAddr>)
    ensures
        wire_addr_views(r@) == wired_list(endpoint::addr_views(list@)),
{
    let mut out: Vec<WireAddr> = Vec::new();
    let ghost all = wired_list(endpoint::addr_views(list@));
    let mut i: usize = 0;
    assert(wire_addr_views(out@) =~= all.take(0));
    while i < list.len()
        invariant
            i <= list@.len(),
            all == wired_list(endpoint::addr_views(list@)),
            wire_addr_views(out@) == all.take(i as int),
        decreases list@.len() - i,
    {
        let ghost earlier = wire_addr_views(out@);
        let written: WireAddr = match list[i] {
            SocketAddr::V4 { octets, port } => Ok((octets, port)),
            SocketAddr::V6 { bytes, port, flowinfo: _, scope_id: _ } => Err((bytes, port)),
        };
        out.push(written);
        proof {
            assert(all[i as int] == wired(list@[i as int]@));
            assert(wire_addr_views(out@) =~= earlier.push(wire_addr_view(written)));
            assert(wire_addr_views(out@) =~= all.take(i + 1));
        }
        i = i + 1;
    }
    assert(all.take(i as int) =~= all);
    out
}

impl BuildTicket {
    /// A ticket with a given secret.
    pub fn with_secret(addr: EndpointAddr, secret: [u8; 32]) -> (ticket: Self)
        ensures
            ticket@ == (BuildTicketView { addr: addr@, secret: secret@ }),
    {
        BuildTicket { addr, secret }
    }

    /// A new ticket for the builder at an address, with a secret by chance.
    pub fn generate(addr: &EndpointAddr) -> (ticket: Self)
        ensures
            ticket@.addr == compact(addr@),
            ticket@.secret.len() == 32,
    {
        BuildTicket::with_secret(compact_ticket_addr(addr), endpoint::generate_secret())
    }

    pub fn addr(&self) -> (r: &EndpointAddr)
        ensures
            r@ == self@.addr,
    {
        &self.addr
    }

    pub fn secret(&self) -> (r: [u8; 32])
        ensures
            r@ == self@.secret,
    {
        self.secret
    }

    pub fn id(&self) -> (r: String)
        ensures
            r@ == ticket_id_of(self@.secret),
    {
        ticket_id(&self.secret)
    }

    /// The bytes of the ticket. What a ticket can write down is read back from
    /// them.
    pub fn encode_bytes(&self) -> (r: Vec<u8>)
        ensures
            r@ == bytes_of_ticket(self@),
            is_writable(self@.addr) ==> ticket_of_bytes(r@) == Some(self@),
    {
        let urls: &Vec<String> = self.addr.relay_urls();
        let relay_url: Option<String> = if urls.len() > 0 {
            Some(urls[0].clone())
        } else {
            None
        };
        let id: EndpointId = self.addr.id();
        let key: [u8; 32] = *id.as_bytes();
        let direct_addrs: Vec<WireAddr> = wire_addrs(self.addr.ip_addrs());
        let wire: WireTicket = (0, (key, relay_url, direct_addrs), self.secret);
        proof {
            assert(text::texts(urls@) == self@.addr.relay_urls);
            assert(text::optional_text(wire.1.1) == first_of(self@.addr.relay_urls));
            if is_writable(self@.addr) {
                lemma_addrs_read_back(self@.addr.direct_addrs);
                let read_urls = ticket_relay_urls(first_of(self@.addr.relay_urls));
                assert(read_urls->0 =~= self@.addr.relay_urls);
            }
        }
        write_wire(&wire)
    }

    /// The ticket that bytes stand for, where they stand for one.
    pub fn decode_bytes(bytes: &[u8]) -> (r: Option<Self>)
        ensures
            match r {
                Some(ticket) => ticket_of_bytes(bytes@) == Some(ticket@),
                None => ticket_of_bytes(bytes@) is None,
            },
    {
        let (version, (key, relay_url, direct_addrs), secret): WireTicket = match read_wire(bytes) {
            Some(wire) => wire,
            None => {
                return None;
            },
        };
        let url: Option<String> = match &relay_url {
            Some(written) => match parse_relay_url(written.as_str()) {
                Ok(url) => Some(url),
                Err(_) => None,
            },
            None => None,
        };
        BuildTicket::from_fields(
            version,
            EndpointId::from_bytes(key),
            relay_url.is_some(),
            url,
            direct_addrs.as_slice(),
            secret,
        )
    }

    /// The ticket with these fields: `id` is its key, where it is one, and `url`
    /// its relay URL as it was read, where it has one.
    pub fn from_fields(
        version: u32,
        id: Option<EndpointId>,
        has_relay_url: bool,
        url: Option<String>,
        direct_addrs: &[Result<([u8; 4], u16), ([u8; 16], u16)>],
        secret: [u8; 32],
    ) -> (r: Option<Self>)
        ensures
            match r {
                Some(ticket) => ticket_with(
                    version,
                    endpoint::optional_id(id),
                    has_relay_url,
                    text::optional_text(url),
                    wire_addr_views(direct_addrs@),
                    secret@,
                ) == Some(ticket@),
                None => ticket_with(
                    version,
                    endpoint::optional_id(id),
                    has_relay_url,
                    text::optional_text(url),
                    wire_addr_views(direct_addrs@),
                    secret@,
                ) is None,
            },
    {
        if version != 0 {
            return None;
        }
        let id: EndpointId = match id {
            Some(id) => id,
            None => {
                return None;
            },
        };
        let mut addr: EndpointAddr = EndpointAddr::new(id);
        if has_relay_url {
            match url {
                Some(url) => {
                    addr = addr.with_relay_url(url);
                },
                None => {
                    return None;
                },
            }
        }
        let ghost written = wire_addr_views(direct_addrs@);
        let ghost urls = addr@.relay_urls;
        let mut i: usize = 0;
        assert(written.take(0).len() == 0);
        while i < direct_addrs.len()
            invariant
                i <= direct_addrs@.len(),
                written == wire_addr_views(direct_addrs@),
                addr@.id == id@,
                addr@.relay_urls == urls,
                addr@.direct_addrs == unwired_list(written.take(i as int)),
            decreases direct_addrs@.len() - i,
        {
            proof {
                assert(written.take(i + 1).drop_last() =~= written.take(i as int));
                assert(written.take(i + 1).last() == wire_addr_view(direct_addrs@[i as int]));
            }
            let direct: SocketAddr = match direct_addrs[i] {
                Ok((octets, port)) => SocketAddr::V4 { octets, port },
                Err((bytes, port)) => SocketAddr::V6 { bytes, port, flowinfo: 0, scope_id: 0 },
            };
            addr = addr.with_ip_addr(direct);
            i = i + 1;
        }
        assert(written.take(i as int) =~= written);
        Some(BuildTicket { addr, secret })
    }
}

/// The part of an address that goes into a ticket can be written down where
/// the address can, whatever other relays and direct addresses it has.
pub proof fn law_compact_addresses_are_writable(addr: EndpointAddrView)
    requires
        addr.well_formed(),
        endpoint::is_endpoint_key(addr.id),
        addr.relay_urls.len() > 0 ==> endpoint::relay_url_of_text(addr.relay_urls[0]) == Some(
            addr.relay_urls[0],
        ),
        addr.relay_urls.len() == 0 ==> forall|i: int|
            0 <= i < addr.direct_addrs.len() ==> unwired(wired(#[trigger] addr.direct_addrs[i]))
                == addr.direct_addrs[i],
    ensures
        is_writable(compact(addr)),
{
}

// ---------------------------------------------------------------------------
// The builder's record of tickets
// ---------------------------------------------------------------------------

/// What the builder knows of a ticket.
#[derive(Debug)]
pub struct TicketRecord {
    pub created_at_unix: u64,
    pub name: Option<String>,
    pub expires_at_unix: u64,
    pub uses_remaining: Option<u64>,
    pub max_build_time: String,
    pub max_upload_bytes: String,
    pub bound_client: Option<String>,
    pub revoked: bool,
    pub encoded_ticket: String,
}

impl Clone for TicketRecord {
    fn clone(&self) -> (r: Self)
        ensures
            r == *self,
    {
        TicketRecord {
            created_at_unix: self.created_at_unix,
            name: text::clone_optional(&self.name),
            expires_at_unix: self.expires_at_unix,
            uses_remaining: self.uses_remaining,
            max_build_time: self.max_build_time.clone(),
            max_upload_bytes: self.max_upload_bytes.clone(),
            bound_client: text::clone_optional(&self.bound_client),
            revoked: self.revoked,
            encoded_ticket: self.encoded_ticket.clone(),
        }
    }
}

/// The tickets of a builder, by their ids.
pub struct TicketState {
    pub tickets: StrMap<TicketRecord>,
}

impl View for TicketState {
    type V = Map<Seq<char>, TicketRecord>;

    open spec fn view(&self) -> Map<Seq<char>, TicketRecord> {
        self.tickets@
    }
}

impl Default for TicketState {
    fn default() -> (r: Self)
        ensures
            r@ == Map::<Seq<char>, TicketRecord>::empty(),
    {
        TicketState { tickets: StrMap::new() }
    }
}

/// What a new ticket allows.
pub struct CreateTicket {
    pub name: Option<String>,
    pub bound_client: Option<String>,
    /// In seconds.
    pub expires_after: u64,
    pub uses_remaining: Option<u64>,
    pub max_build_time: String,
    pub max_upload_bytes: String,
}

pub open spec fn default_name(unix_secs: u64) -> Seq<char> {
    "ticket-"@ + text::decimal(unix_secs as nat)
}

/// The name of a ticket that was given none.
pub fn default_ticket_name(unix_secs: u64) -> (r: String)
    ensures
        r@ == default_name(unix_secs),
{
    concat2("ticket-", decimal_string(unix_secs).as_str())
}

/// The client that a ticket is bound to, as it is read.
pub open spec fn bound_read(record: TicketRecord) -> Option<Result<Seq<u8>, Seq<char>>> {
    match record.bound_client {
        Some(bound) => Some(endpoint::endpoint_id_read(bound@)),
        None => None,
    }
}

/// The client that a ticket is bound to, where it can be read.
pub open spec fn bound_key(record: TicketRecord) -> Option<Seq<u8>> {
    match record.bound_client {
        Some(bound) => endpoint::endpoint_id_of_text(bound@),
        None => None,
    }
}

/// Why a ticket is of no use to a client at a time.
pub open spec fn record_fault(
    id: Seq<char>,
    record: TicketRecord,
    remote: Seq<u8>,
    now: u64,
) -> Option<Seq<Seq<char>>> {
    bound_record_fault(id, record, bound_read(record), remote, now)
}

/// Why a ticket whose bound client was read as `bound` is of no use to a client
/// at a time.
pub open spec fn bound_record_fault(
    id: Seq<char>,
    record: TicketRecord,
    bound: Option<Result<Seq<u8>, Seq<char>>>,
    remote: Seq<u8>,
    now: u64,
) -> Option<Seq<Seq<char>>> {
    if record.revoked {
        Some(seq!["ticket revoked"@])
    } else if now >= record.expires_at_unix {
        Some(seq!["ticket expired"@])
    } else {
        match bound {
            Some(Err(why)) => Some(seq!["parse bound client for ticket "@ + id, why]),
            Some(Ok(key)) if key != remote => Some(seq!["ticket bound to a different client"@]),
            _ => if record.uses_remaining == Some(0u64) {
                Some(seq!["ticket has no uses remaining"@])
            } else {
                None
            },
        }
    }
}

/// Refuses a ticket that is revoked, expired, bound to another client or used
/// up.
pub fn validate_ticket_record(id: &str, record: &TicketRecord, remote: &EndpointId, now: u64) -> (r:
    Result<(), Error>)
    ensures
        match r {
            Ok(()) => record_fault(id@, *record, remote@, now) is None,
            Err(e) => record_fault(id@, *record, remote@, now) == Some(e@),
        },
{
    let bound: Option<Result<EndpointId, String>> = match &record.bound_client {
        Some(bound) => Some(EndpointId::parse(bound.as_str())),
        None => None,
    };
    validate_bound_record(id, record, bound, remote, now)
}

/// The view of a bound client that was read.
pub open spec fn bound_view(bound: Option<Result<EndpointId, String>>) -> Option<
    Result<Seq<u8>, Seq<char>>,
> {
    match bound {
        Some(read) => Some(endpoint::read_id(read)),
        None => None,
    }
}

/// Refuses a ticket likewise, where the client that it is bound to, if any, was
/// read as `bound`.
pub fn validate_bound_record(
    id: &str,
    record: &TicketRecord,
    bound: Option<Result<EndpointId, String>>,
    remote: &EndpointId,
    now: u64,
) -> (r: Result<(), Error>)
    ensures
        match r {
            Ok(()) => bound_record_fault(
                id@,
                *record,
                bound_view(bound),
                remote@,
                now,
            ) is None,
            Err(e) => bound_record_fault(id@, *record, bound_view(bound), remote@, now) == Some(
                e@,
            ),
        },
{
    if record.revoked {
        return Err(Error::of("ticket revoked"));
    }
    if now >= record.expires_at_unix {
        return Err(Error::of("ticket expired"));
    }
    match bound {
        Some(Err(why)) => {
            return Err(Error::caused(concat2("parse bound client for ticket ", id), why));
        },
        Some(Ok(key)) => {
            if !key.same(remote) {
                return Err(Error::of("ticket bound to a different client"));
            }
        },
        None => {},
    }
    match record.uses_remaining {
        Some(uses) => {
            if uses == 0 {
                return Err(Error::of("ticket has no uses remaining"));
            }
        },
        None => {},
    }
    Ok(())
}

/// A record after one more use.
pub open spec fn used(record: TicketRecord) -> TicketRecord {
    match record.uses_remaining {
        Some(uses) => TicketRecord { uses_remaining: Some((uses - 1) as u64), ..record },
        None => record,
    }
}

/// What showing a ticket's secret comes to: its record, where it is of use.
pub open spec fn checked(
    tickets: Map<Seq<char>, TicketRecord>,
    id: Seq<char>,
    remote: Seq<u8>,
    now: u64,
) -> Result<TicketRecord, Seq<Seq<char>>> {
    if !tickets.contains_key(id) {
        Err(seq!["ticket not found: "@ + id])
    } else {
        match record_fault(id, tickets[id], remote, now) {
            Some(fault) => Err(fault),
            None => Ok(tickets[id]),
        }
    }
}

/// The tickets after one was redeemed.
pub open spec fn after_redeem(
    tickets: Map<Seq<char>, TicketRecord>,
    id: Seq<char>,
    remote: Seq<u8>,
    now: u64,
) -> Map<Seq<char>, TicketRecord> {
    match checked(tickets, id, remote, now) {
        Ok(record) => tickets.insert(id, used(record)),
        Err(_) => tickets,
    }
}

/// The tickets after one was revoked.
pub open spec fn after_revoke(tickets: Map<Seq<char>, TicketRecord>, id: Seq<char>) -> Map<
    Seq<char>,
    TicketRecord,
> {
    if tickets.contains_key(id) {
        tickets.insert(id, TicketRecord { revoked: true, ..tickets[id] })
    } else {
        tickets
    }
}

/// Why no ticket is made.
pub open spec fn create_fault(
    tickets: Map<Seq<char>, TicketRecord>,
    id: Seq<char>,
    now: u64,
    options: CreateTicket,
) -> Option<Seq<char>> {
    if now + options.expires_after > u64::MAX {
        Some("ticket expiry overflow"@)
    } else if options.name matches Some(name) && text::trim(name@).len() == 0 {
        Some("ticket name cannot be empty"@)
    } else if tickets.contains_key(id) {
        Some("ticket id collision: "@ + id)
    } else {
        None
    }
}

/// Whether a record is what a new ticket with these options has.
pub open spec fn is_new_record(
    record: TicketRecord,
    now: u64,
    options: CreateTicket,
    encoded_ticket: String,
) -> bool {
    &&& record.created_at_unix == now
    &&& text::optional_text(record.name) == Some(
        match options.name {
            Some(name) => name@,
            None => default_name(now),
        },
    )
    &&& record.expires_at_unix == now + options.expires_after
    &&& record.uses_remaining == options.uses_remaining
    &&& record.max_build_time == options.max_build_time
    &&& record.max_upload_bytes == options.max_upload_bytes
    &&& record.bound_client == options.bound_client
    &&& !record.revoked
    &&& record.encoded_ticket == encoded_ticket
}

/// The builder's tickets: a file that holds their state.
#[derive(Debug)]
pub struct TicketStore {
    path: String,
}

impl View for TicketStore {
    type V = Seq<char>;

    closed spec fn view(&self) -> Seq<char> {
        self.path@
    }
}

pub open spec fn record_outcome(r: Result<TicketRecord, Error>) -> Result<
    TicketRecord,
    Seq<Seq<char>>,
> {
    error::outcome(r)
}

impl TicketStore {
    pub fn new(data_dir: &str) -> (store: Self)
        ensures
            store@ == paths::joined(data_dir@, "tickets.json"@),
    {
        TicketStore { path: join_path(data_dir, TICKETS_FILE) }
    }

    /// The file that holds the tickets.
    pub fn path(&self) -> (r: &str)
        ensures
            r@ == self@,
    {
        self.path.as_str()
    }

    /// The lock beside the file.
    pub fn lock_path(&self) -> (r: Result<String, Error>)
        ensures
            error::text_outcome(r) == paths::lock_path(
                self@,
                "path has no UTF-8 file name: "@ + self@,
            ),
            r matches Ok(lock) ==> paths::components(lock@) == paths::beside(
                self@,
                paths::lock_name(paths::file_name_of(self@)->0),
            ),
    {
        lock_path_for(
            self.path.as_str(),
            concat2("path has no UTF-8 file name: ", self.path.as_str()).as_str(),
        )
    }

    /// Records a new ticket.
    pub fn create(
        &self,
        state: &mut TicketState,
        ticket: &BuildTicket,
        encoded_ticket: String,
        options: CreateTicket,
        now: u64,
    ) -> (r: Result<(), Error>)
        ensures
            match r {
                Ok(()) => {
                    let id = ticket_id_of(ticket@.secret);
                    &&& create_fault(old(state)@, id, now, options) is None
                    &&& final(state)@.contains_key(id)
                    &&& final(state)@ == old(state)@.insert(id, final(state)@[id])
                    &&& is_new_record(final(state)@[id], now, options, encoded_ticket)
                },
                Err(e) => {
                    &&& create_fault(
                        old(state)@,
                        ticket_id_of(ticket@.secret),
                        now,
                        options,
                    ) matches Some(fault) && e@ == seq![fault]
                    &&& final(state)@ == old(state)@
                },
            },
    {
        let expires_at_unix: u64 = match now.checked_add(options.expires_after) {
            Some(expires_at) => expires_at,
            None => {
                return Err(Error::of("ticket expiry overflow"));
            },
        };
        let CreateTicket {
            name: given_name,
            bound_client,
            expires_after: _,
            uses_remaining,
            max_build_time,
            max_upload_bytes,
        } = options;
        let name: String = match given_name {
            Some(name) => {
                let chars: Vec<char> = chars_of(name.as_str());
                if trim_chars(chars.as_slice()).len() == 0 {
                    return Err(Error::of("ticket name cannot be empty"));
                }
                name
            },
            None => default_ticket_name(now),
        };
        let id: String = ticket.id();
        match state.tickets.get(id.as_str()) {
            Some(_) => {
                return Err(Error::new(concat2("ticket id collision: ", id.as_str())));
            },
            None => {},
        }
        let record: TicketRecord = TicketRecord {
            created_at_unix: now,
            name: Some(name),
            expires_at_unix,
            uses_remaining,
            max_build_time,
            max_upload_bytes,
            bound_client,
            revoked: false,
            encoded_ticket,
        };
        let _ = state.tickets.insert(id, record);
        Ok(())
    }

    /// The record of a ticket, where there is one.
    pub fn record(&self, state: &TicketState, id: &str) -> (r: Option<TicketRecord>)
        ensures
            match r {
                Some(record) => state@.contains_key(id@) && record == state@[id@],
                None => !state@.contains_key(id@),
            },
    {
        match state.tickets.get(id) {
            Some(record) => Some(record.clone()),
            None => None,
        }
    }

    /// The ids of the tickets, in ascending order, with their records.
    pub fn records(&self, state: &TicketState) -> (r: Vec<(String, TicketRecord)>)
        ensures
            r@.len() == state.tickets.keys().len(),
            order::ascending(state.tickets.keys()),
            forall|i: int|
                0 <= i < r@.len() ==> (#[trigger] r@[i]).0@ == state.tickets.keys()[i] && r@[i].1
                    == state@[state.tickets.keys()[i]],
            forall|id: Seq<char>|
                state@.contains_key(id) == #[trigger] state.tickets.keys().contains(id),
    {
        let ids: &Vec<String> = state.tickets.key_list();
        let mut out: Vec<(String, TicketRecord)> = Vec::new();
        let mut i: usize = 0;
        assert(text::texts(ids@).len() == ids@.len());
        while i < ids.len()
            invariant
                i <= ids@.len(),
                text::texts(ids@) == state.tickets.keys(),
                ids@.len() == state.tickets.keys().len(),
                out@.len() == i,
                forall|j: int|
                    0 <= j < i ==> (#[trigger] out@[j]).0@ == state.tickets.keys()[j] && out@[j].1
                        == state@[state.tickets.keys()[j]],
            decreases ids@.len() - i,
        {
            let record: &TicketRecord = state.tickets.value_at(i);
            assert(text::texts(ids@)[i as int] == ids@[i as int]@);
            out.push((ids[i].clone(), record.clone()));
            i = i + 1;
        }
        out
    }

    /// The record of the ticket with a secret, where the ticket is of use to a
    /// client now. Nothing is used up.
    pub fn check(&self, state: &TicketState, secret: &[u8; 32], remote: &EndpointId, now: u64) -> (r:
        Result<TicketRecord, Error>)
        ensures
            record_outcome(r) == checked(state@, ticket_id_of(secret@), remote@, now),
    {
        self.check_id(state, ticket_id(secret).as_str(), remote, now)
    }

    /// The record of the ticket with an id, likewise.
    pub fn check_id(&self, state: &TicketState, id: &str, remote: &EndpointId, now: u64) -> (r:
        Result<TicketRecord, Error>)
        ensures
            record_outcome(r) == checked(state@, id@, remote@, now),
    {
        match state.tickets.get(id) {
            None => Err(Error::new(concat2("ticket not found: ", id))),
            Some(record) => match validate_ticket_record(id, record, remote, now) {
                Ok(()) => Ok(record.clone()),
                Err(e) => Err(e),
            },
        }
    }

    /// Uses the ticket with a secret once, and gives its record after that.
    pub fn redeem(
        &self,
        state: &mut TicketState,
        secret: &[u8; 32],
        remote: &EndpointId,
        now: u64,
    ) -> (r: Result<TicketRecord, Error>)
        ensures
            final(state)@ == after_redeem(old(state)@, ticket_id_of(secret@), remote@, now),
            match r {
                Ok(record) => checked(old(state)@, ticket_id_of(secret@), remote@, now) matches Ok(
                    unused,
                ) && record == used(unused),
                Err(e) => checked(old(state)@, ticket_id_of(secret@), remote@, now) == Err::<
                    TicketRecord,
                    Seq<Seq<char>>,
                >(e@),
            },
    {
        self.redeem_id(state, ticket_id(secret).as_str(), remote, now)
    }

    /// Uses the ticket with an id once, likewise.
    pub fn redeem_id(
        &self,
        state: &mut TicketState,
        id: &str,
        remote: &EndpointId,
        now: u64,
    ) -> (r: Result<TicketRecord, Error>)
        ensures
            final(state)@ == after_redeem(old(state)@, id@, remote@, now),
            match r {
                Ok(record) => checked(old(state)@, id@, remote@, now) matches Ok(unused) && record
                    == used(unused),
                Err(e) => checked(old(state)@, id@, remote@, now) == Err::<
                    TicketRecord,
                    Seq<Seq<char>>,
                >(e@),
            },
    {
        let record: TicketRecord = match self.check_id(state, id, remote, now) {
            Ok(record) => record,
            Err(e) => {
                return Err(e);
            },
        };
        match record.uses_remaining {
            Some(uses) => {
                let redeemed: TicketRecord = TicketRecord {
                    uses_remaining: Some(uses - 1),
                    ..record
                };
                let _ = state.tickets.insert(id.to_string(), redeemed.clone());
                Ok(redeemed)
            },
            None => {
                assert(old(state)@.insert(id@, record) =~= old(state)@);
                Ok(record)
            },
        }
    }

    /// Revokes a ticket.
    pub fn revoke(&self, state: &mut TicketState, id: &str) -> (r: Result<(), Error>)
        ensures
            final(state)@ == after_revoke(old(state)@, id@),
            match r {
                Ok(()) => old(state)@.contains_key(id@),
                Err(e) => !old(state)@.contains_key(id@) && e@ == seq!["ticket not found: "@ + id@],
            },
    {
        let record: TicketRecord = match state.tickets.get(id) {
            Some(record) => record.clone(),
            None => {
                return Err(Error::new(concat2("ticket not found: ", id)));
            },
        };
        let revoked: TicketRecord = TicketRecord { revoked: true, ..record };
        let _ = state.tickets.insert(id.to_string(), revoked);
        Ok(())
    }
}

// ---------------------------------------------------------------------------
// The builder's address
// ---------------------------------------------------------------------------

/// The address of a builder as its file holds it.
pub struct ServerAddrFile {
    pub endpoint_id: String,
    pub relay_url: Option<String>,
    pub direct_addrs: Vec<String>,
}

/// The addresses that were read from texts, up to the first that could not be.
pub open spec fn read_addrs(
    written: Seq<Seq<char>>,
    read: Seq<Result<SocketAddr, String>>,
) -> Result<Seq<SocketAddrView>, Seq<Seq<char>>>
    decreases read.len(),
{
    if read.len() == 0 {
        Ok(Seq::empty())
    } else {
        match read_addrs(written.drop_last(), read.drop_last()) {
            Err(e) => Err(e),
            Ok(earlier) => match read.last() {
                Ok(addr) => Ok(endpoint::with_addr(earlier, addr@)),
                Err(why) => Err(seq!["parse direct addr: "@ + written.last(), why@]),
            },
        }
    }
}

/// The address that a file holds. `read` are its direct addresses, as far as
/// they are addresses.
pub open spec fn file_addr(
    endpoint_id: Seq<char>,
    relay_url: Option<Seq<char>>,
    direct_addrs: Seq<Seq<char>>,
    read: Seq<Result<SocketAddr, String>>,
) -> Result<EndpointAddrView, Seq<Seq<char>>> {
    addr_with(
        endpoint_id,
        relay_url,
        direct_addrs,
        endpoint::endpoint_id_read(endpoint_id),
        url_read(relay_url),
        read,
    )
}

/// The address that a file holds whose id was read as `id`, its relay URL, where
/// it has one, as `url`, and its direct addresses as `read`.
pub open spec fn addr_with(
    endpoint_id: Seq<char>,
    relay_url: Option<Seq<char>>,
    direct_addrs: Seq<Seq<char>>,
    id: Result<Seq<u8>, Seq<char>>,
    url: Result<Option<Seq<char>>, Seq<char>>,
    read: Seq<Result<SocketAddr, String>>,
) -> Result<EndpointAddrView, Seq<Seq<char>>> {
    match id {
        Err(why) => Err(seq!["parse endpoint id: "@ + endpoint_id, why]),
        Ok(id) => match url {
            Err(why) => Err(seq!["parse relay url: "@ + text::text_or_empty(relay_url), why]),
            Ok(url) => match read_addrs(direct_addrs, read) {
                Err(e) => Err(e),
                Ok(direct_addrs) => Ok(
                    EndpointAddrView {
                        id,
                        relay_urls: match url {
                            Some(url) => seq![url],
                            None => Seq::empty(),
                        },
                        direct_addrs,
                    },
                ),
            },
        },
    }
}

/// A relay URL that may be absent, as Iroh reads it, or what Iroh says of it.
pub open spec fn url_read(relay_url: Option<Seq<char>>) -> Result<Option<Seq<char>>, Seq<char>> {
    match relay_url {
        None => Ok(None),
        Some(written) => match endpoint::relay_url_read(written) {
            Ok(url) => Ok(Some(url)),
            Err(why) => Err(why),
        },
    }
}

/// The view of a relay URL that was read.
pub open spec fn url_view(url: Result<Option<String>, String>) -> Result<
    Option<Seq<char>>,
    Seq<char>,
> {
    match url {
        Ok(url) => Ok(text::optional_text(url)),
        Err(why) => Err(why@),
    }
}

fn read_relay(relay_url: &Option<String>) -> (r: Result<Option<String>, String>)
    ensures
        url_view(r) == url_read(text::optional_text(*relay_url)),
{
    match relay_url {
        None => Ok(None),
        Some(written) => match parse_relay_url(written.as_str()) {
            Ok(url) => Ok(Some(url)),
            Err(why) => Err(why),
        },
    }
}

proof fn lemma_read_addrs_fails(
    written: Seq<Seq<char>>,
    read: Seq<Result<SocketAddr, String>>,
    n: int,
)
    requires
        written.len() == read.len(),
        0 <= n <= read.len(),
        read_addrs(written.take(n), read.take(n)) is Err,
    ensures
        read_addrs(written, read) == read_addrs(written.take(n), read.take(n)),
    decreases read.len() - n,
{
    if n < read.len() {
        assert(read.take(n + 1).drop_last() =~= read.take(n));
        assert(written.take(n + 1).drop_last() =~= written.take(n));
        lemma_read_addrs_fails(written, read, n + 1);
    } else {
        assert(read.take(n) =~= read);
        assert(written.take(n) =~= written);
    }
}

impl ServerAddrFile {
    /// What the file holds for an address whose direct addresses are written
    /// as `direct_addrs`.
    pub fn from_addr(addr: &EndpointAddr, direct_addrs: Vec<String>) -> (file: Self)
        ensures
            file.endpoint_id@ == hex::hex_text(addr@.id),
            text::optional_text(file.relay_url) == first_of(addr@.relay_urls),
            file.direct_addrs == direct_addrs,
    {
        let urls: &Vec<String> = addr.relay_urls();
        assert(text::texts(urls@).len() == urls@.len());
        ServerAddrFile {
            endpoint_id: addr.id().to_text(),
            relay_url: if urls.len() > 0 {
                Some(urls[0].clone())
            } else {
                None
            },
            direct_addrs,
        }
    }

    /// The address that the file holds. `read` are its direct addresses, as
    /// far as they are addresses.
    pub fn into_addr(&self, read: &[Result<SocketAddr, String>]) -> (r: Result<EndpointAddr, Error>)
        requires
            read@.len() == self.direct_addrs@.len(),
        ensures
            match r {
                Ok(addr) => file_addr(
                    self.endpoint_id@,
                    text::optional_text(self.relay_url),
                    text::texts(self.direct_addrs@),
                    read@,
                ) == Ok::<EndpointAddrView, Seq<Seq<char>>>(addr@),
                Err(e) => file_addr(
                    self.endpoint_id@,
                    text::optional_text(self.relay_url),
                    text::texts(self.direct_addrs@),
                    read@,
                ) == Err::<EndpointAddrView, Seq<Seq<char>>>(e@),
            },
    {
        self.addr_of(
            EndpointId::parse(self.endpoint_id.as_str()),
            read_relay(&self.relay_url),
            read,
        )
    }

    /// The address that the file holds, whose id was read as `id`, its relay
    /// URL, where it has one, as `url`, and its direct addresses as `read`.
    pub fn addr_of(
        &self,
        id: Result<EndpointId, String>,
        url: Result<Option<String>, String>,
        read: &[Result<SocketAddr, String>],
    ) -> (r: Result<EndpointAddr, Error>)
        requires
            read@.len() == self.direct_addrs@.len(),
        ensures
            match r {
                Ok(addr) => addr_with(
                    self.endpoint_id@,
                    text::optional_text(self.relay_url),
                    text::texts(self.direct_addrs@),
                    endpoint::read_id(id),
                    url_view(url),
                    read@,
                ) == Ok::<EndpointAddrView, Seq<Seq<char>>>(addr@),
                Err(e) => addr_with(
                    self.endpoint_id@,
                    text::optional_text(self.relay_url),
                    text::texts(self.direct_addrs@),
                    endpoint::read_id(id),
                    url_view(url),
                    read@,
                ) == Err::<EndpointAddrView, Seq<Seq<char>>>(e@),
            },
    {
        let key: EndpointId = match id {
            Ok(key) => key,
            Err(why) => {
                return Err(
                    Error::caused(
                        concat2("parse endpoint id: ", self.endpoint_id.as_str()),
                        why,
                    ),
                );
            },
        };
        let mut addr: EndpointAddr = EndpointAddr::new(key);
        match &url {
            Ok(Some(url)) => {
                addr = addr.with_relay_url(url.clone());
            },
            Ok(None) => {},
            Err(why) => {
                proof {
                    reveal_strlit("");
                    assert(""@ =~= Seq::<char>::empty());
                }
                let written: &str = match &self.relay_url {
                    Some(written) => written.as_str(),
                    None => "",
                };
                return Err(
                    Error::caused(
                        concat2("parse relay url: ", written),
                        why.as_str().to_string(),
                    ),
                );
            },
        }
        let ghost written = text::texts(self.direct_addrs@);
        let ghost urls = addr@.relay_urls;
        let mut i: usize = 0;
        assert(read@.take(0).len() == 0);
        while i < read.len()
            invariant
                i <= read@.len(),
                read@.len() == self.direct_addrs@.len(),
                written == text::texts(self.direct_addrs@),
                addr@.id == key@,
                addr@.relay_urls == urls,
                id == Ok::<EndpointId, String>(key),
                url_view(url) matches Ok(read_url) && urls == (match read_url {
                    Some(url) => seq![url],
                    None => Seq::empty(),
                }),
                read_addrs(written.take(i as int), read@.take(i as int)) == Ok::<
                    Seq<SocketAddrView>,
                    Seq<Seq<char>>,
                >(addr@.direct_addrs),
            decreases read@.len() - i,
        {
            proof {
                assert(read@.take(i + 1).drop_last() =~= read@.take(i as int));
                assert(written.take(i + 1).drop_last() =~= written.take(i as int));
                assert(read@.take(i + 1).last() == read@[i as int]);
                assert(written.take(i + 1).last() == self.direct_addrs@[i as int]@);
            }
            match &read[i] {
                Ok(direct) => {
                    addr = addr.with_ip_addr(*direct);
                },
                Err(why) => {
                    proof {
                        lemma_read_addrs_fails(written, read@, i + 1);
                    }
                    return Err(
                        Error::caused(
                            concat2("parse direct addr: ", self.direct_addrs[i].as_str()),
                            why.as_str().to_string(),
                        ),
                    );
                },
            }
            i = i + 1;
        }
        assert(read@.take(i as int) =~= read@);
        assert(written.take(i as int) =~= written);
        Ok(addr)
    }
}

/// The file that holds a builder's address.
pub fn server_addr_path(data_dir: &str) -> (r: String)
    ensures
        r@ == paths::joined(data_dir@, "server-addr.json"@),
{
    join_path(data_dir, SERVER_ADDR_FILE)
}

/// The error where a builder has not written its address yet.
pub fn server_addr_missing(path: &str) -> (e: Error)
    ensures
        e@ == seq![
            "server address file "@ + path@ + " is missing; start `drv-thru serve` first"@,
        ],
{
    Error::new(
        text::concat3(
            "server address file ",
            path,
            " is missing; start `drv-thru serve` first",
        ),
    )
}

// ---------------------------------------------------------------------------
// Laws
// ---------------------------------------------------------------------------

/// The tickets after a series of attempts to redeem one of them, each by some
/// client at some time.
pub open spec fn after_attempts(
    tickets: Map<Seq<char>, TicketRecord>,
    id: Seq<char>,
    attempts: Seq<(Seq<u8>, u64)>,
) -> Map<Seq<char>, TicketRecord>
    decreases attempts.len(),
{
    if attempts.len() == 0 {
        tickets
    } else {
        let (remote, now) = attempts.last();
        after_redeem(after_attempts(tickets, id, attempts.drop_last()), id, remote, now)
    }
}

/// How many of the attempts succeed.
pub open spec fn successes(
    tickets: Map<Seq<char>, TicketRecord>,
    id: Seq<char>,
    attempts: Seq<(Seq<u8>, u64)>,
) -> nat
    decreases attempts.len(),
{
    if attempts.len() == 0 {
        0
    } else {
        let (remote, now) = attempts.last();
        let earlier = successes(tickets, id, attempts.drop_last());
        if checked(after_attempts(tickets, id, attempts.drop_last()), id, remote, now) is Ok {
            earlier + 1
        } else {
            earlier
        }
    }
}

/// A ticket with `uses` uses is redeemed at most so often, whoever tries and
/// whenever: each success takes one use, and nothing else of it or of any
/// other ticket changes.
pub proof fn law_uses_are_spent_one_by_one(
    tickets: Map<Seq<char>, TicketRecord>,
    id: Seq<char>,
    uses: u64,
    attempts: Seq<(Seq<u8>, u64)>,
)
    requires
        tickets.contains_key(id),
        tickets[id].uses_remaining == Some(uses),
    ensures
        successes(tickets, id, attempts) <= uses,
        after_attempts(tickets, id, attempts) == tickets.insert(
            id,
            TicketRecord {
                uses_remaining: Some((uses - successes(tickets, id, attempts)) as u64),
                ..tickets[id]
            },
        ),
    decreases attempts.len(),
{
    if attempts.len() == 0 {
        assert(tickets =~= tickets.insert(id, tickets[id]));
    } else {
        law_uses_are_spent_one_by_one(tickets, id, uses, attempts.drop_last());
        assert(after_attempts(tickets, id, attempts) =~= tickets.insert(
            id,
            TicketRecord {
                uses_remaining: Some((uses - successes(tickets, id, attempts)) as u64),
                ..tickets[id]
            },
        ));
    }
}

/// While a ticket is neither revoked nor expired nor bound to somebody else,
/// every attempt succeeds until its uses are spent, and none after that.
pub proof fn law_every_use_can_be_redeemed(
    tickets: Map<Seq<char>, TicketRecord>,
    id: Seq<char>,
    uses: u64,
    attempts: Seq<(Seq<u8>, u64)>,
)
    requires
        tickets.contains_key(id),
        tickets[id].uses_remaining == Some(uses),
        forall|i: int|
            0 <= i < attempts.len() ==> record_fault(
                id,
                (TicketRecord { uses_remaining: None, ..tickets[id] }),
                (#[trigger] attempts[i]).0,
                attempts[i].1,
            ) is None,
    ensures
        successes(tickets, id, attempts) == (if attempts.len() <= uses {
            attempts.len()
        } else {
            uses as nat
        }),
    decreases attempts.len(),
{
    if attempts.len() > 0 {
        let earlier = attempts.drop_last();
        assert forall|i: int| 0 <= i < earlier.len() implies record_fault(
            id,
            (TicketRecord { uses_remaining: None, ..tickets[id] }),
            (#[trigger] earlier[i]).0,
            earlier[i].1,
        ) is None by {
            assert(earlier[i] == attempts[i]);
        }
        law_every_use_can_be_redeemed(tickets, id, uses, earlier);
        law_uses_are_spent_one_by_one(tickets, id, uses, earlier);
        assert(record_fault(
            id,
            (TicketRecord { uses_remaining: None, ..tickets[id] }),
            attempts[attempts.len() - 1].0,
            attempts[attempts.len() - 1].1,
        ) is None);
    }
}

/// A ticket without a limit on its uses is never used up.
pub proof fn law_unlimited_tickets_stay(
    tickets: Map<Seq<char>, TicketRecord>,
    id: Seq<char>,
    attempts: Seq<(Seq<u8>, u64)>,
)
    requires
        tickets.contains_key(id),
        tickets[id].uses_remaining is None,
    ensures
        after_attempts(tickets, id, attempts) == tickets,
    decreases attempts.len(),
{
    if attempts.len() > 0 {
        law_unlimited_tickets_stay(tickets, id, attempts.drop_last());
        assert(tickets.insert(id, tickets[id]) =~= tickets);
    }
}

/// Nobody can use a ticket once it is revoked, and other tickets stay as they
/// were.
pub proof fn law_revoked_tickets_are_refused(
    tickets: Map<Seq<char>, TicketRecord>,
    id: Seq<char>,
    remote: Seq<u8>,
    now: u64,
    other: Seq<char>,
)
    requires
        tickets.contains_key(id),
        other != id,
    ensures
        checked(after_revoke(tickets, id), id, remote, now) == Err::<
            TicketRecord,
            Seq<Seq<char>>,
        >(seq!["ticket revoked"@]),
        after_revoke(tickets, id).contains_key(other) == tickets.contains_key(other),
        after_revoke(tickets, id)[other] == tickets[other],
{
}

/// A new ticket is of use until it expires: to anybody, or to the client that
/// it is bound to.
pub proof fn law_new_tickets_are_of_use_until_they_expire(
    tickets: Map<Seq<char>, TicketRecord>,
    id: Seq<char>,
    record: TicketRecord,
    options: CreateTicket,
    encoded_ticket: String,
    created: u64,
    remote: Seq<u8>,
    now: u64,
)
    requires
        is_new_record(record, created, options, encoded_ticket),
        options.uses_remaining != Some(0u64),
        options.bound_client matches Some(bound) ==> endpoint::endpoint_id_of_text(bound@) == Some(
            remote,
        ),
    ensures
        now < created + options.expires_after ==> checked(
            tickets.insert(id, record),
            id,
            remote,
            now,
        ) == Ok::<TicketRecord, Seq<Seq<char>>>(record),
        now >= created + options.expires_after ==> checked(
            tickets.insert(id, record),
            id,
            remote,
            now,
        ) == Err::<TicketRecord, Seq<Seq<char>>>(seq!["ticket expired"@]),
{
}

/// A ticket that is bound to a client is of use to no other.
pub proof fn law_bound_tickets_are_for_one_client(
    tickets: Map<Seq<char>, TicketRecord>,
    id: Seq<char>,
    bound: Seq<u8>,
    remote: Seq<u8>,
    now: u64,
)
    requires
        tickets.contains_key(id),
        tickets[id].bound_client matches Some(written) && endpoint::endpoint_id_of_text(written@)
            == Some(bound),
        bound != remote,
    ensures
        checked(tickets, id, remote, now) is Err,
        after_redeem(tickets, id, remote, now) == tickets,
{
}

/// The address that a builder writes down is read back, where it has at most
/// one relay URL, in the form in which it is printed, and its direct addresses
/// are read as they were.
pub proof fn law_written_addresses_are_read_back(
    addr: EndpointAddrView,
    written: Seq<Seq<char>>,
    read: Seq<Result<SocketAddr, String>>,
)
    requires
        addr.well_formed(),
        endpoint::is_endpoint_key(addr.id),
        addr.relay_urls.len() <= 1,
        addr.relay_urls.len() == 1 ==> endpoint::relay_url_of_text(addr.relay_urls[0]) == Some(
            addr.relay_urls[0],
        ),
        written.len() == addr.direct_addrs.len(),
        read.len() == addr.direct_addrs.len(),
        forall|i: int|
            0 <= i < read.len() ==> ((#[trigger] read[i]) matches Ok(a) && a@
                == addr.direct_addrs[i]),
    ensures
        file_addr(hex::hex_text(addr.id), first_of(addr.relay_urls), written, read) == Ok::<
            EndpointAddrView,
            Seq<Seq<char>>,
        >(addr),
{
    lemma_read_addrs_all(addr.direct_addrs, written, read);
    let urls = ticket_relay_urls(first_of(addr.relay_urls));
    assert(urls->0 =~= addr.relay_urls);
}

proof fn lemma_read_addrs_all(
    addrs: Seq<SocketAddrView>,
    written: Seq<Seq<char>>,
    read: Seq<Result<SocketAddr, String>>,
)
    requires
        endpoint::addrs_ascending(addrs),
        written.len() == addrs.len(),
        read.len() == addrs.len(),
        forall|i: int|
            0 <= i < read.len() ==> ((#[trigger] read[i]) matches Ok(a) && a@ == addrs[i]),
    ensures
        read_addrs(written, read) == Ok::<Seq<SocketAddrView>, Seq<Seq<char>>>(addrs),
    decreases addrs.len(),
{
    if addrs.len() > 0 {
        let shorter = addrs.drop_last();
        let read_before = read.drop_last();
        assert(endpoint::addrs_ascending(shorter)) by {
            assert forall|i: int, j: int| 0 <= i < j < shorter.len() implies endpoint::addr_before(
                #[trigger] shorter[i],
                #[trigger] shorter[j],
            ) by {
                assert(endpoint::addr_before(addrs[i], addrs[j]));
            }
        }
        assert forall|i: int| 0 <= i < read_before.len() implies ((
        #[trigger] read_before[i]) matches Ok(a) && a@ == shorter[i]) by {
            assert(read_before[i] == read[i]);
        }
        lemma_read_addrs_all(shorter, written.drop_last(), read_before);
        assert(read[read.len() - 1] matches Ok(a) && a@ == addrs[addrs.len() - 1]);
        if shorter.len() > 0 {
            assert(endpoint::addr_before(addrs[addrs.len() - 2], addrs[addrs.len() - 1]));
            assert(shorter.last() == addrs[addrs.len() - 2]);
        }
        assert(shorter.push(addrs.last()) =~= addrs);
    } else {
        assert(addrs =~= Seq::<SocketAddrView>::empty());
    }
}

/// A ticket is of use to a client exactly where nobody revoked it, its time has
/// not come, it is bound to nobody or to that very client, and it has a use
/// left. A client whose ticket is of no use is told the first reason there is.
pub proof fn law_tickets_are_refused_for_a_reason(
    id: Seq<char>,
    record: TicketRecord,
    bound: Option<Result<Seq<u8>, Seq<char>>>,
    remote: Seq<u8>,
    now: u64,
)
    ensures
        bound_record_fault(id, record, bound, remote, now) is None <==> {
            &&& !record.revoked
            &&& now < record.expires_at_unix
            &&& bound is None || bound == Some(Ok::<Seq<u8>, Seq<char>>(remote))
            &&& record.uses_remaining is None || record.uses_remaining->0 > 0
        },
        record.revoked ==> bound_record_fault(id, record, bound, remote, now) == Some(
            seq!["ticket revoked"@],
        ),
        !record.revoked && record.expires_at_unix <= now ==> bound_record_fault(
            id,
            record,
            bound,
            remote,
            now,
        ) == Some(seq!["ticket expired"@]),
        !record.revoked && now < record.expires_at_unix ==> match bound {
            Some(Err(why)) => bound_record_fault(id, record, bound, remote, now) == Some(
                seq!["parse bound client for ticket "@ + id, why],
            ),
            Some(Ok(key)) => key != remote ==> bound_record_fault(id, record, bound, remote, now)
                == Some(seq!["ticket bound to a different client"@]),
            None => true,
        },
        !record.revoked && now < record.expires_at_unix && record.uses_remaining == Some(0u64) && (
        bound is None || bound == Some(Ok::<Seq<u8>, Seq<char>>(remote))) ==> bound_record_fault(
            id,
            record,
            bound,
            remote,
            now,
        ) == Some(seq!["ticket has no uses remaining"@]),
{
}

/// Showing a ticket that the builder does not know comes to nothing, and one
/// that it knows gives its record just as it is kept.
pub proof fn law_unknown_tickets_are_refused(
    tickets: Map<Seq<char>, TicketRecord>,
    id: Seq<char>,
    remote: Seq<u8>,
    now: u64,
)
    ensures
        !tickets.contains_key(id) ==> checked(tickets, id, remote, now) == Err::<
            TicketRecord,
            Seq<Seq<char>>,
        >(seq!["ticket not found: "@ + id]),
        match checked(tickets, id, remote, now) {
            Ok(record) => {
                &&& tickets.contains_key(id)
                &&& record == tickets[id]
                &&& !record.revoked
                &&& now < record.expires_at_unix
            },
            Err(_) => true,
        },
{
}

/// Redeeming a ticket takes one use of it, if its uses are counted, and changes
/// nothing else of it and of no other. A refusal changes nothing.
pub proof fn law_redeeming_takes_one_use(
    tickets: Map<Seq<char>, TicketRecord>,
    id: Seq<char>,
    remote: Seq<u8>,
    now: u64,
)
    ensures
        match checked(tickets, id, remote, now) {
            Ok(record) => {
                let after = after_redeem(tickets, id, remote, now);
                &&& after.dom() == tickets.dom()
                &&& forall|other: Seq<char>|
                    other != id ==> #[trigger] after[other] == tickets[other]
                &&& match record.uses_remaining {
                    Some(uses) => uses > 0 && after[id].uses_remaining == Some((uses - 1) as u64),
                    None => after[id].uses_remaining is None,
                }
                &&& after[id].created_at_unix == record.created_at_unix
                &&& after[id].name == record.name
                &&& after[id].expires_at_unix == record.expires_at_unix
                &&& after[id].max_build_time == record.max_build_time
                &&& after[id].max_upload_bytes == record.max_upload_bytes
                &&& after[id].bound_client == record.bound_client
                &&& after[id].revoked == record.revoked
                &&& after[id].encoded_ticket == record.encoded_ticket
            },
            Err(_) => after_redeem(tickets, id, remote, now) == tickets,
        },
{
    assert(checked(tickets, id, remote, now) is Ok ==> after_redeem(
        tickets,
        id,
        remote,
        now,
    ).dom() =~= tickets.dom());
}

/// Revoking a ticket twice is the same as once, and leaves all that is known of
/// it but that it is revoked.
pub proof fn law_revoking_keeps_the_record(tickets: Map<Seq<char>, TicketRecord>, id: Seq<char>)
    ensures
        after_revoke(after_revoke(tickets, id), id) == after_revoke(tickets, id),
        after_revoke(tickets, id).dom() == tickets.dom(),
        tickets.contains_key(id) ==> {
            let after = after_revoke(tickets, id)[id];
            &&& after.revoked
            &&& after.created_at_unix == tickets[id].created_at_unix
            &&& after.name == tickets[id].name
            &&& after.expires_at_unix == tickets[id].expires_at_unix
            &&& after.uses_remaining == tickets[id].uses_remaining
            &&& after.max_build_time == tickets[id].max_build_time
            &&& after.max_upload_bytes == tickets[id].max_upload_bytes
            &&& after.bound_client == tickets[id].bound_client
            &&& after.encoded_ticket == tickets[id].encoded_ticket
        },
{
    assert(after_revoke(after_revoke(tickets, id), id) =~= after_revoke(tickets, id));
    assert(after_revoke(tickets, id).dom() =~= tickets.dom());
}

/// A ticket is made exactly where its expiry can be told, its name is not
/// blank, and its id is new.
pub proof fn law_why_no_ticket_is_made(
    tickets: Map<Seq<char>, TicketRecord>,
    id: Seq<char>,
    now: u64,
    options: CreateTicket,
)
    ensures
        create_fault(tickets, id, now, options) is None <==> {
            &&& now + options.expires_after < 0x1_0000_0000_0000_0000
            &&& options.name is Some ==> text::trim(options.name->0@).len() > 0
            &&& !tickets.contains_key(id)
        },
        now + options.expires_after >= 0x1_0000_0000_0000_0000 ==> create_fault(
            tickets,
            id,
            now,
            options,
        ) == Some("ticket expiry overflow"@),
        now + options.expires_after < 0x1_0000_0000_0000_0000 && options.name is Some && text::trim(
            options.name->0@,
        ).len() == 0 ==> create_fault(tickets, id, now, options) == Some(
            "ticket name cannot be empty"@,
        ),
        now + options.expires_after < 0x1_0000_0000_0000_0000 && options.name is None
            && tickets.contains_key(id) ==> create_fault(tickets, id, now, options) == Some(
            "ticket id collision: "@ + id,
        ),
{
}

/// A new ticket allows what it was made to allow: for so long, to that client,
/// so often, and within those limits. It has its own name, or one that names
/// the time at which it was made.
pub proof fn law_new_tickets_allow_what_was_asked(
    record: TicketRecord,
    now: u64,
    options: CreateTicket,
    encoded_ticket: String,
)
    requires
        is_new_record(record, now, options, encoded_ticket),
    ensures
        record.created_at_unix == now,
        record.expires_at_unix - record.created_at_unix == options.expires_after,
        record.uses_remaining == options.uses_remaining,
        record.max_build_time@ == options.max_build_time@,
        record.max_upload_bytes@ == options.max_upload_bytes@,
        record.bound_client == options.bound_client,
        record.encoded_ticket@ == encoded_ticket@,
        !record.revoked,
        record.name is Some,
        options.name is Some ==> record.name->0@ == options.name->0@,
        options.name is None ==> record.name->0@ == "ticket-"@ + text::decimal(now as nat),
        options.name is None ==> "ticket-"@.is_prefix_of(record.name->0@),
{
    if options.name is None {
        assert("ticket-"@ =~= record.name->0@.subrange(0, "ticket-"@.len() as int));
    }
}

/// Tickets with different public keys have different ids, and an id is the
/// hexadecimal text of the key: two characters for each of its bytes.
pub proof fn law_ids_tell_tickets_apart(secret: Seq<u8>, other: Seq<u8>)
    ensures
        ticket_id_of(secret).len() == 2 * endpoint::public_key_of(secret).len(),
        ticket_id_of(secret) == ticket_id_of(other) ==> endpoint::public_key_of(secret)
            == endpoint::public_key_of(other),
{
    hex::lemma_hex_len(endpoint::public_key_of(secret));
    if ticket_id_of(secret) == ticket_id_of(other) {
        hex::law_hex_text_is_injective(
            endpoint::public_key_of(secret),
            endpoint::public_key_of(other),
        );
    }
}

/// A ticket names the builder, and one way to it that the builder has: its
/// first relay alone, or all direct addresses where there is no relay.
pub proof fn law_tickets_name_a_way_to_the_builder(addr: EndpointAddrView)
    ensures
        compact(addr).id == addr.id,
        addr.relay_urls.len() > 0 ==> compact(addr).relay_urls == addr.relay_urls.take(1)
            && compact(addr).direct_addrs.len() == 0,
        addr.relay_urls.len() == 0 ==> compact(addr).relay_urls.len() == 0
            && compact(addr).direct_addrs == addr.direct_addrs,
        compact(compact(addr)) == compact(addr),
{
    if addr.relay_urls.len() > 0 {
        assert(compact(addr).relay_urls =~= addr.relay_urls.take(1));
        assert(compact(compact(addr)).relay_urls =~= compact(addr).relay_urls);
        assert(compact(compact(addr)).direct_addrs =~= compact(addr).direct_addrs);
    }
}

/// The direct addresses of a ticket are those that it writes, in ascending
/// order.
pub proof fn law_direct_addresses_are_those_written(
    list: Seq<Result<(Seq<u8>, u16), (Seq<u8>, u16)>>,
)
    requires
        forall|i: int| 0 <= i < list.len() ==> endpoint::is_addr(unwired(#[trigger] list[i])),
    ensures
        endpoint::addrs_ascending(unwired_list(list)),
        forall|i: int|
            0 <= i < unwired_list(list).len() ==> endpoint::is_addr(
                #[trigger] unwired_list(list)[i],
            ),
        forall|i: int|
            0 <= i < list.len() ==> unwired_list(list).contains(unwired(#[trigger] list[i])),
        forall|addr: SocketAddrView| #[trigger]
            unwired_list(list).contains(addr) ==> exists|i: int|
                0 <= i < list.len() && unwired(#[trigger] list[i]) == addr,
    decreases list.len(),
{
    if list.len() > 0 {
        let earlier = list.drop_last();
        let before = unwired_list(earlier);
        let last = unwired(list.last());
        assert(list[list.len() - 1] == list.last());
        assert forall|i: int| 0 <= i < earlier.len() implies endpoint::is_addr(
            unwired(#[trigger] earlier[i]),
        ) by {
            assert(earlier[i] == list[i]);
        }
        law_direct_addresses_are_those_written(earlier);
        endpoint::lemma_with_addr(before, last);
        let all = unwired_list(list);
        assert(all == endpoint::with_addr(before, last));
        assert(all.to_set() == before.to_set().insert(last));
        assert forall|i: int| 0 <= i < list.len() implies all.contains(
            unwired(#[trigger] list[i]),
        ) by {
            if i < earlier.len() {
                assert(earlier[i] == list[i]);
                assert(before.to_set().contains(unwired(list[i])));
            }
            assert(all.to_set().contains(unwired(list[i])));
        }
        assert forall|addr: SocketAddrView| #[trigger] all.contains(addr) implies exists|i: int|
            0 <= i < list.len() && unwired(#[trigger] list[i]) == addr by {
            assert(all.to_set().contains(addr));
            if addr == last {
                assert(unwired(list[list.len() - 1]) == addr);
            } else {
                assert(before.to_set().contains(addr));
                assert(before.contains(addr));
                let i = choose|i: int|
                    0 <= i < earlier.len() && unwired(#[trigger] earlier[i]) == addr;
                assert(list[i] == earlier[i]);
            }
        }
    }
}

/// An address of either kind is written with its bytes and its port, and read
/// with the same.
pub proof fn law_addresses_keep_their_bytes_and_port(addr: SocketAddrView)
    ensures
        match (addr, unwired(wired(addr))) {
            (
                SocketAddrView::V4 { octets, port },
                SocketAddrView::V4 { octets: read_octets, port: read_port },
            ) => octets == read_octets && port == read_port,
            (
                SocketAddrView::V6 { bytes, port, .. },
                SocketAddrView::V6 { bytes: read_bytes, port: read_port, flowinfo, scope_id },
            ) => bytes == read_bytes && port == read_port && flowinfo == 0 && scope_id == 0,
            _ => false,
        },
{
}

/// A ticket of the one form that there is, with a key that is one and a relay
/// URL that is one where it has any, is read; any other is not. What is read
/// has the key, the relay URL and the secret of the ticket.
pub proof fn law_good_tickets_are_read(
    version: u32,
    key: Option<Seq<u8>>,
    has_relay_url: bool,
    url: Option<Seq<char>>,
    direct_addrs: Seq<Result<(Seq<u8>, u16), (Seq<u8>, u16)>>,
    secret: Seq<u8>,
)
    ensures
        ticket_with(version, key, has_relay_url, url, direct_addrs, secret) is Some <==> {
            &&& version == 0
            &&& key is Some
            &&& has_relay_url ==> url is Some
        },
        match ticket_with(version, key, has_relay_url, url, direct_addrs, secret) {
            Some(ticket) => {
                &&& Some(ticket.addr.id) == key
                &&& ticket.secret == secret
                &&& has_relay_url ==> ticket.addr.relay_urls.len() == 1 && Some(
                    ticket.addr.relay_urls[0],
                ) == url
                &&& !has_relay_url ==> ticket.addr.relay_urls.len() == 0
                &&& ticket.addr.direct_addrs == unwired_list(direct_addrs)
            },
            None => true,
        },
{
}

/// The address in a builder's file is read where all that it holds can be read,
/// and has the id and the relay URL that were read. A reader is told of the
/// first that cannot be.
pub proof fn law_addresses_of_builders_are_read(
    endpoint_id: Seq<char>,
    relay_url: Option<Seq<char>>,
    direct_addrs: Seq<Seq<char>>,
    id: Result<Seq<u8>, Seq<char>>,
    url: Result<Option<Seq<char>>, Seq<char>>,
    read: Seq<Result<SocketAddr, String>>,
)
    requires
        direct_addrs.len() == read.len(),
    ensures
        addr_with(endpoint_id, relay_url, direct_addrs, id, url, read) is Ok <==> {
            &&& id is Ok
            &&& url is Ok
            &&& forall|i: int| 0 <= i < read.len() ==> (#[trigger] read[i]) is Ok
        },
        match addr_with(endpoint_id, relay_url, direct_addrs, id, url, read) {
            Ok(addr) => {
                &&& addr.id == id->Ok_0
                &&& url->Ok_0 is Some ==> addr.relay_urls.len() == 1 && addr.relay_urls[0]
                    == url->Ok_0->0
                &&& url->Ok_0 is None ==> addr.relay_urls.len() == 0
            },
            Err(_) => true,
        },
        id is Err ==> addr_with(endpoint_id, relay_url, direct_addrs, id, url, read) == Err::<
            EndpointAddrView,
            Seq<Seq<char>>,
        >(seq!["parse endpoint id: "@ + endpoint_id, id->Err_0]),
        id is Ok && url is Err && relay_url is Some ==> addr_with(
            endpoint_id,
            relay_url,
            direct_addrs,
            id,
            url,
            read,
        ) == Err::<EndpointAddrView, Seq<Seq<char>>>(
            seq!["parse relay url: "@ + relay_url->0, url->Err_0],
        ),
{
    lemma_read_addrs_outcome(direct_addrs, read);
}

proof fn lemma_read_addrs_outcome(
    written: Seq<Seq<char>>,
    read: Seq<Result<SocketAddr, String>>,
)
    requires
        written.len() == read.len(),
    ensures
        read_addrs(written, read) is Ok <==> forall|i: int|
            0 <= i < read.len() ==> (#[trigger] read[i]) is Ok,
    decreases read.len(),
{
    if read.len() > 0 {
        let earlier = read.drop_last();
        lemma_read_addrs_outcome(written.drop_last(), earlier);
        assert(read[read.len() - 1] == read.last());
        if forall|i: int| 0 <= i < read.len() ==> (#[trigger] read[i]) is Ok {
            assert forall|i: int| 0 <= i < earlier.len() implies (#[trigger] earlier[i]) is Ok by {
                assert(earlier[i] == read[i]);
            }
        }
        if read_addrs(written, read) is Ok {
            assert forall|i: int| 0 <= i < read.len() implies (#[trigger] read[i]) is Ok by {
                if i < earlier.len() {
                    assert(earlier[i] == read[i]);
                }
            }
        }
    }
}

/// The first direct address that cannot be read is the one that a reader is
/// told of.
pub proof fn law_bad_addresses_are_named(
    written: Seq<Seq<char>>,
    read: Seq<Result<SocketAddr, String>>,
    n: int,
)
    requires
        written.len() == read.len(),
        0 <= n < read.len(),
        read[n] is Err,
        forall|i: int| 0 <= i < n ==> (#[trigger] read[i]) is Ok,
    ensures
        read_addrs(written, read) == Err::<Seq<SocketAddrView>, Seq<Seq<char>>>(
            seq!["parse direct addr: "@ + written[n], read[n]->Err_0@],
        ),
{
    let longer = read.take(n + 1);
    lemma_read_addrs_outcome(written.take(n), read.take(n));
    assert forall|i: int| 0 <= i < n implies (#[trigger] read.take(n)[i]) is Ok by {
        assert(read.take(n)[i] == read[i]);
    }
    assert(longer.drop_last() =~= read.take(n));
    assert(written.take(n + 1).drop_last() =~= written.take(n));
    assert(longer.last() == read[n]);
    assert(written.take(n + 1).last() == written[n]);
    lemma_read_addrs_fails(written, read, n + 1);
}

/// The files of a builder's tickets and of its address.
pub proof fn law_files_of_tickets()
    ensures
        TICKETS_FILE@ == "tickets.json"@,
        SERVER_ADDR_FILE@ == "server-addr.json"@,
{
}

} // verus!
