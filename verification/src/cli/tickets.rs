//! What the command line does with tickets.

use vstd::prelude::*;

use crate::config;
use crate::config::{parse_byte_count, parse_duration};
use crate::endpoint::EndpointId;
use crate::error;
use crate::error::Error;
use crate::hex;
use crate::text;
use crate::text::{
    chars_of, concat2, concat5, decimal_string, lowered_chars, parse_unsigned, push_text,
    same_text, string_of,
};
use crate::ticket;
use crate::ticket::{BuildTicket, CreateTicket, TicketRecord};

verus! {

// ---------------------------------------------------------------------------
// New tickets
// ---------------------------------------------------------------------------

/// How long a ticket is of use, unless something else is said.
pub const DEFAULT_TICKET_EXPIRY: &'static str = "2h";

/// How often a ticket can be used: once, unless something else is said.
pub open spec fn wanted_uses(uses: Option<Seq<char>>, unlimited: bool) -> Result<
    Option<u64>,
    Seq<Seq<char>>,
> {
    if unlimited {
        if uses is Some {
            Err(seq!["--uses and --unlimited cannot be used together"@])
        } else {
            Ok(None)
        }
    } else {
        match uses {
            None => Ok(Some(1)),
            Some(uses) => if text::lowered(uses) == "unlimited"@ {
                Ok(None)
            } else {
                match text::unsigned_value(uses, u64::MAX as int) {
                    None => Err(seq!["parse --uses "@ + uses, text::u64_error_of(uses)]),
                    Some(n) => if n == 0 {
                        Err(seq!["--uses must be at least 1 or unlimited"@])
                    } else {
                        Ok(Some(n as u64))
                    },
                }
            },
        }
    }
}

pub fn parse_ticket_uses(uses: Option<&str>, unlimited: bool) -> (r: Result<Option<u64>, Error>)
    ensures
        error::outcome(r) == wanted_uses(
            match uses {
                Some(uses) => Some(uses@),
                None => None,
            },
            unlimited,
        ),
{
    if unlimited {
        if uses.is_some() {
            return Err(Error::of("--uses and --unlimited cannot be used together"));
        }
        return Ok(None);
    }
    let uses: &str = match uses {
        Some(uses) => uses,
        None => {
            return Ok(Some(1));
        },
    };
    let chars: Vec<char> = chars_of(uses);
    let lower: Vec<char> = lowered_chars(chars.as_slice());
    if same_text(string_of(lower.as_slice()).as_str(), "unlimited") {
        return Ok(None);
    }
    match parse_unsigned(chars.as_slice(), u64::MAX) {
        None => Err(Error::caused(concat2("parse --uses ", uses), text::u64_error(uses))),
        Some(n) => {
            if n == 0 {
                return Err(Error::of("--uses must be at least 1 or unlimited"));
            }
            Ok(Some(n))
        },
    }
}

/// What the command line says of a new ticket.
pub struct TicketCreateArgs {
    pub name: Option<String>,
    pub bind_client: Option<EndpointId>,
    pub expires: String,
    pub uses: Option<String>,
    pub unlimited: bool,
    pub max_build_time: String,
    pub max_upload_bytes: String,
}

/// The error of an option, with what was wrong with it.
pub open spec fn option_fault(option: Seq<char>, value: Seq<char>, cause: Seq<Seq<char>>) -> Seq<
    Seq<char>,
> {
    seq!["parse "@ + option + " "@ + value] + cause
}

/// What is wrong with what is said of a new ticket.
pub open spec fn create_fault(args: TicketCreateArgs) -> Option<Seq<Seq<char>>> {
    match config::duration_seconds(args.expires@) {
        Err(e) => Some(option_fault("--expires"@, args.expires@, e)),
        Ok(_) => match wanted_uses(text::optional_text(args.uses), args.unlimited) {
            Err(e) => Some(e),
            Ok(_) => match config::duration_seconds(args.max_build_time@) {
                Err(e) => Some(option_fault("--max-build-time"@, args.max_build_time@, e)),
                Ok(_) => match config::byte_count(args.max_upload_bytes@) {
                    Err(e) => Some(option_fault("--max-upload-bytes"@, args.max_upload_bytes@, e)),
                    Ok(_) => None,
                },
            },
        },
    }
}

fn with_option(e: Error, option: &str, value: &str) -> (r: Error)
    ensures
        r@ == option_fault(option@, value@, e@),
{
    let place: String = text::concat4("parse ", option, " ", value);
    e.context(place)
}

/// Reads what the command line says of a new ticket.
pub fn create_options(args: TicketCreateArgs) -> (r: Result<CreateTicket, Error>)
    ensures
        match r {
            Ok(options) => {
                &&& create_fault(args) is None
                &&& options.name == args.name
                &&& text::optional_text(options.bound_client) == (match args.bind_client {
                    Some(id) => Some(hex::hex_text(id@)),
                    None => None,
                })
                &&& config::duration_seconds(args.expires@) == Ok::<u64, Seq<Seq<char>>>(
                    options.expires_after,
                )
                &&& wanted_uses(text::optional_text(args.uses), args.unlimited) == Ok::<
                    Option<u64>,
                    Seq<Seq<char>>,
                >(options.uses_remaining)
                &&& options.max_build_time == args.max_build_time
                &&& options.max_upload_bytes == args.max_upload_bytes
            },
            Err(e) => create_fault(args) == Some(e@),
        },
{
    let expires_after: u64 = match parse_duration(args.expires.as_str()) {
        Ok(seconds) => seconds,
        Err(e) => {
            return Err(with_option(e, "--expires", args.expires.as_str()));
        },
    };
    let uses: Option<&str> = match &args.uses {
        Some(uses) => Some(uses.as_str()),
        None => None,
    };
    let uses_remaining: Option<u64> = match parse_ticket_uses(uses, args.unlimited) {
        Ok(uses) => uses,
        Err(e) => {
            return Err(e);
        },
    };
    match parse_duration(args.max_build_time.as_str()) {
        Ok(_) => {},
        Err(e) => {
            return Err(with_option(e, "--max-build-time", args.max_build_time.as_str()));
        },
    }
    match parse_byte_count(args.max_upload_bytes.as_str()) {
        Ok(_) => {},
        Err(e) => {
            return Err(with_option(e, "--max-upload-bytes", args.max_upload_bytes.as_str()));
        },
    }
    let bound_client: Option<String> = match args.bind_client {
        Some(id) => Some(id.to_text()),
        None => None,
    };
    Ok(
        CreateTicket {
            name: args.name,
            bound_client,
            expires_after,
            uses_remaining,
            max_build_time: args.max_build_time,
            max_upload_bytes: args.max_upload_bytes,
        },
    )
}

// ---------------------------------------------------------------------------
// What is shown of tickets
// ---------------------------------------------------------------------------

pub open spec fn uses_text(uses: Option<u64>) -> Seq<char> {
    match uses {
        Some(uses) => text::decimal(uses as nat),
        None => "unlimited"@,
    }
}

pub fn format_uses(uses: Option<u64>) -> (r: String)
    ensures
        r@ == uses_text(uses),
{
    match uses {
        Some(uses) => decimal_string(uses),
        None => "unlimited".to_string(),
    }
}

/// Whether a ticket is of use, and if not, why.
pub open spec fn record_status(record: TicketRecord, now: u64) -> Seq<char> {
    if record.revoked {
        "revoked"@
    } else if now >= record.expires_at_unix {
        "expired"@
    } else if record.uses_remaining == Some(0u64) {
        "exhausted"@
    } else {
        "active"@
    }
}

pub fn ticket_record_status(record: &TicketRecord, now: u64) -> (r: &'static str)
    ensures
        r@ == record_status(*record, now),
{
    if record.revoked {
        return "revoked";
    }
    if now >= record.expires_at_unix {
        return "expired";
    }
    match record.uses_remaining {
        Some(uses) => {
            if uses == 0 {
                return "exhausted";
            }
        },
        None => {},
    }
    "active"
}

pub open spec fn text_or(value: Option<String>, otherwise: Seq<char>) -> Seq<char> {
    match value {
        Some(value) => value@,
        None => otherwise,
    }
}

fn str_or<'a>(value: &'a Option<String>, otherwise: &'a str) -> (r: &'a str)
    ensures
        r@ == text_or(*value, otherwise@),
{
    match value {
        Some(value) => value.as_str(),
        None => otherwise,
    }
}

/// A ticket in a list.
pub open spec fn list_line(id: Seq<char>, record: TicketRecord, now: u64) -> Seq<char> {
    id + "\t"@ + text_or(record.name, "-"@) + "\t"@ + record_status(record, now) + "\t"@
        + uses_text(record.uses_remaining) + "\t"@ + text::decimal(record.expires_at_unix as nat)
        + "\t"@ + text_or(record.bound_client, "-"@)
}

/// All tickets.
pub open spec fn list_lines(records: Seq<(String, TicketRecord)>, now: u64) -> Seq<Seq<char>> {
    if records.len() == 0 {
        seq!["no tickets"@]
    } else {
        seq!["id\tname\tstatus\tuses\texpires_unix\tbound_client"@] + Seq::new(
            records.len(),
            |i: int| list_line(records[i].0@, records[i].1, now),
        )
    }
}

fn list_text(id: &str, record: &TicketRecord, now: u64) -> (r: String)
    ensures
        r@ == list_line(id@, *record, now),
{
    let mut line: String = concat5(
        id,
        "\t",
        str_or(&record.name, "-"),
        "\t",
        ticket_record_status(record, now),
    );
    line.append("\t");
    line.append(format_uses(record.uses_remaining).as_str());
    line.append("\t");
    line.append(decimal_string(record.expires_at_unix).as_str());
    line.append("\t");
    line.append(str_or(&record.bound_client, "-"));
    line
}

/// Lists tickets.
pub fn list_tickets(records: &[(String, TicketRecord)], now: u64) -> (r: Vec<String>)
    ensures
        text::texts(r@) == list_lines(records@, now),
{
    let mut lines: Vec<String> = Vec::new();
    assert(text::texts(lines@) =~= Seq::<Seq<char>>::empty());
    if records.len() == 0 {
        push_text(&mut lines, "no tickets");
        assert(text::texts(lines@) =~= list_lines(records@, now));
        return lines;
    }
    let ghost all = list_lines(records@, now);
    push_text(&mut lines, "id\tname\tstatus\tuses\texpires_unix\tbound_client");
    assert(text::texts(lines@) =~= all.take(1));
    let mut i: usize = 0;
    while i < records.len()
        invariant
            i <= records@.len(),
            records@.len() > 0,
            all == list_lines(records@, now),
            text::texts(lines@) == all.take(i + 1),
        decreases records@.len() - i,
    {
        let line: String = list_text(records[i].0.as_str(), &records[i].1, now);
        assert(all[i + 1] == line@);
        push_text(&mut lines, line.as_str());
        assert(all.take(i + 2) =~= all.take(i + 1).push(line@));
        i = i + 1;
    }
    assert(all.take(i + 1) =~= all);
    lines
}

/// What the builder knows of a ticket.
pub open spec fn record_lines(record: TicketRecord) -> Seq<Seq<char>> {
    seq![
        "name: "@ + text_or(record.name, "<none>"@),
        "created unix: "@ + text::decimal(record.created_at_unix as nat),
        "expires unix: "@ + text::decimal(record.expires_at_unix as nat),
        "uses remaining: "@ + uses_text(record.uses_remaining),
        "max build time: "@ + record.max_build_time@,
        "max upload bytes: "@ + record.max_upload_bytes@,
    ] + (match record.bound_client {
        Some(client) => seq!["bound client: "@ + client@],
        None => Seq::<Seq<char>>::empty(),
    }) + seq![
        if record.revoked {
            "revoked: true"@
        } else {
            "revoked: false"@
        },
    ]
}

/// Says what the builder knows of a ticket.
pub fn show_record(record: &TicketRecord) -> (r: Vec<String>)
    ensures
        text::texts(r@) == record_lines(*record),
{
    let mut lines: Vec<String> = Vec::new();
    assert(text::texts(lines@) =~= Seq::<Seq<char>>::empty());
    push_text(&mut lines, concat2("name: ", str_or(&record.name, "<none>")).as_str());
    push_text(
        &mut lines,
        concat2("created unix: ", decimal_string(record.created_at_unix).as_str()).as_str(),
    );
    push_text(
        &mut lines,
        concat2("expires unix: ", decimal_string(record.expires_at_unix).as_str()).as_str(),
    );
    push_text(
        &mut lines,
        concat2("uses remaining: ", format_uses(record.uses_remaining).as_str()).as_str(),
    );
    push_text(&mut lines, concat2("max build time: ", record.max_build_time.as_str()).as_str());
    push_text(&mut lines, concat2("max upload bytes: ", record.max_upload_bytes.as_str()).as_str());
    match &record.bound_client {
        Some(client) => {
            push_text(&mut lines, concat2("bound client: ", client.as_str()).as_str());
        },
        None => {},
    }
    push_text(
        &mut lines,
        if record.revoked {
            "revoked: true"
        } else {
            "revoked: false"
        },
    );
    assert(text::texts(lines@) =~= record_lines(*record));
    lines
}

/// The ticket itself, as it is handed out.
pub open spec fn revealed(id: Seq<char>, record: Option<TicketRecord>) -> Result<
    Seq<char>,
    Seq<Seq<char>>,
> {
    match record {
        Some(record) => Ok(record.encoded_ticket@),
        None => Err(seq!["ticket not found: "@ + id]),
    }
}

/// Gives a ticket as it is handed out.
pub fn reveal_ticket(id: &str, record: Option<TicketRecord>) -> (r: Result<String, Error>)
    ensures
        match r {
            Ok(encoded) => revealed(id@, record) == Ok::<Seq<char>, Seq<Seq<char>>>(encoded@),
            Err(e) => revealed(id@, record) == Err::<Seq<char>, Seq<Seq<char>>>(e@),
        },
{
    match record {
        Some(record) => Ok(record.encoded_ticket),
        None => Err(Error::new(concat2("ticket not found: ", id))),
    }
}

/// Lines with a word before each.
pub open spec fn marked_lines(word: Seq<char>, list: Seq<Seq<char>>) -> Seq<Seq<char>> {
    Seq::new(list.len(), |i: int| word + list[i])
}

fn push_marked(lines: &mut Vec<String>, word: &str, list: &[String])
    ensures
        text::texts(final(lines)@) == text::texts(old(lines)@) + marked_lines(
            word@,
            text::texts(list@),
        ),
{
    let ghost before = text::texts(lines@);
    let ghost all = marked_lines(word@, text::texts(list@));
    let mut i: usize = 0;
    assert(before + all.take(0) =~= before);
    while i < list.len()
        invariant
            i <= list@.len(),
            all == marked_lines(word@, text::texts(list@)),
            text::texts(lines@) == before + all.take(i as int),
        decreases list@.len() - i,
    {
        assert(all[i as int] == word@ + list@[i as int]@);
        push_text(lines, concat2(word, list[i].as_str()).as_str());
        assert(before + all.take(i + 1) =~= (before + all.take(i as int)).push(all[i as int]));
        i = i + 1;
    }
    assert(all.take(i as int) =~= all);
}

/// What a ticket says of itself and the builder of it.
pub open spec fn inspect_lines(
    ticket: ticket::BuildTicketView,
    encoded: Seq<char>,
    direct_addrs: Seq<Seq<char>>,
    record: Option<TicketRecord>,
) -> Seq<Seq<char>> {
    seq![
        "ticket: "@ + encoded,
        "ticket id: "@ + ticket::ticket_id_of(ticket.secret),
        "server endpoint id: "@ + hex::hex_text(ticket.addr.id),
    ] + marked_lines("server relay url: "@, ticket.addr.relay_urls) + marked_lines(
        "server direct addr: "@,
        direct_addrs,
    ) + (match record {
        Some(record) => record_lines(record),
        None => seq!["store: ticket record not found"@],
    })
}

/// Says what a ticket says of itself, and the builder of it. `encoded` is the
/// ticket as it is handed out, `direct_addrs` are its direct addresses as they
/// are printed.
pub fn inspect_ticket(
    ticket: &BuildTicket,
    encoded: &str,
    direct_addrs: &[String],
    record: Option<&TicketRecord>,
) -> (r: Vec<String>)
    ensures
        text::texts(r@) == inspect_lines(
            ticket@,
            encoded@,
            text::texts(direct_addrs@),
            match record {
                Some(record) => Some(*record),
                None => None,
            },
        ),
{
    let mut lines: Vec<String> = Vec::new();
    assert(text::texts(lines@) =~= Seq::<Seq<char>>::empty());
    push_text(&mut lines, concat2("ticket: ", encoded).as_str());
    push_text(&mut lines, concat2("ticket id: ", ticket.id().as_str()).as_str());
    let id: EndpointId = ticket.addr().id();
    push_text(&mut lines, concat2("server endpoint id: ", id.to_text().as_str()).as_str());
    let ghost head = text::texts(lines@);
    assert(head =~= seq![
        "ticket: "@ + encoded@,
        "ticket id: "@ + ticket::ticket_id_of(ticket@.secret),
        "server endpoint id: "@ + hex::hex_text(ticket@.addr.id),
    ]);
    push_marked(&mut lines, "server relay url: ", ticket.addr().relay_urls().as_slice());
    push_marked(&mut lines, "server direct addr: ", direct_addrs);
    let ghost before = text::texts(lines@);
    match record {
        Some(record) => {
            let mut known: Vec<String> = show_record(record);
            text::push_texts(&mut lines, known.as_slice());
        },
        None => {
            push_text(&mut lines, "store: ticket record not found");
            assert(text::texts(lines@) =~= before + seq!["store: ticket record not found"@]);
        },
    }
    lines
}

// ---------------------------------------------------------------------------
// Laws
// ---------------------------------------------------------------------------

/// A ticket is shown as active exactly where the builder would accept it from
/// the client that it is for.
pub proof fn law_active_tickets_are_accepted(
    id: Seq<char>,
    record: TicketRecord,
    remote: Seq<u8>,
    now: u64,
)
    requires
        record.bound_client is Some ==> ticket::bound_key(record) == Some(remote),
    ensures
        record_status(record, now) == "active"@ <==> ticket::record_fault(
            id,
            record,
            remote,
            now,
        ) is None,
{
    reveal_strlit("active");
    reveal_strlit("revoked");
    reveal_strlit("expired");
    reveal_strlit("exhausted");
    assert("active"@.len() == 6);
    assert("revoked"@.len() == 7);
    assert("expired"@.len() == 7);
    assert("exhausted"@.len() == 9);
}

/// Two records that tell the same of a ticket, whatever the ticket itself is.
pub open spec fn is_same_but_for_the_ticket(a: TicketRecord, b: TicketRecord) -> bool {
    a == (TicketRecord { encoded_ticket: a.encoded_ticket, ..b })
}

/// A list of tickets gives none of them away, nor does what is told of one: what
/// is shown is the same whatever the tickets themselves are.
pub proof fn law_lists_show_no_tickets(
    a: Seq<(String, TicketRecord)>,
    b: Seq<(String, TicketRecord)>,
    now: u64,
)
    requires
        a.len() == b.len(),
        forall|i: int|
            #![trigger a[i]]
            0 <= i < a.len() ==> a[i].0 == b[i].0 && is_same_but_for_the_ticket(a[i].1, b[i].1),
    ensures
        list_lines(a, now) == list_lines(b, now),
        forall|i: int|
            #![trigger a[i]]
            0 <= i < a.len() ==> record_lines(a[i].1) == record_lines(b[i].1),
{
    assert forall|i: int| 0 <= i < a.len() implies list_line(
        (#[trigger] a[i]).0@,
        a[i].1,
        now,
    ) == list_line(b[i].0@, b[i].1, now) by {
        assert(is_same_but_for_the_ticket(a[i].1, b[i].1));
    }
    assert(list_lines(a, now) =~= list_lines(b, now));
}

/// No ticket is made that can never be used.
pub proof fn law_new_tickets_have_uses(uses: Option<Seq<char>>, unlimited: bool)
    ensures
        wanted_uses(uses, unlimited) matches Ok(Some(n)) ==> n > 0,
        uses is None && !unlimited ==> wanted_uses(uses, unlimited) == Ok::<
            Option<u64>,
            Seq<Seq<char>>,
        >(Some(1)),
{
    if let Some(uses) = uses {
        let digits = if uses.len() > 0 && uses[0] == '+' {
            uses.skip(1)
        } else {
            uses
        };
        if text::all_digits(digits) {
            text::lemma_digits_value_grows(digits, 0);
            assert(digits.take(0).len() == 0);
        }
    }
}

/// As many uses are allowed as are asked for. Without a limit a ticket has one
/// where the user says so in either way, and a number that is none, or no use at
/// all, is refused.
pub proof fn law_uses_are_those_asked_for(n: u64, uses: Seq<char>)
    ensures
        n > 0 ==> wanted_uses(Some(text::decimal(n as nat)), false) == Ok::<
            Option<u64>,
            Seq<Seq<char>>,
        >(Some(n)),
        wanted_uses(Some(text::decimal(0)), false) == Err::<Option<u64>, Seq<Seq<char>>>(
            seq!["--uses must be at least 1 or unlimited"@],
        ),
        wanted_uses(None, true) == Ok::<Option<u64>, Seq<Seq<char>>>(None),
        wanted_uses(None, false) == Ok::<Option<u64>, Seq<Seq<char>>>(Some(1)),
        text::lowered(uses) == "unlimited"@ ==> wanted_uses(Some(uses), false) == Ok::<
            Option<u64>,
            Seq<Seq<char>>,
        >(None),
        wanted_uses(Some(uses), true) == Err::<Option<u64>, Seq<Seq<char>>>(
            seq!["--uses and --unlimited cannot be used together"@],
        ),
        text::lowered(uses) != "unlimited"@ && text::unsigned_value(uses, u64::MAX as int) is None
            ==> (wanted_uses(Some(uses), false) matches Err(e) && e.len() == 2 && e[0]
            == "parse --uses "@ + uses),
{
    text::law_decimal_names_its_number(n as nat);
    text::law_decimal_names_its_number(0);
    reveal_strlit("unlimited");
    lemma_numbers_are_limits(n as nat);
    lemma_numbers_are_limits(0);
}

proof fn lemma_numbers_are_limits(n: nat)
    ensures
        text::lowered(text::decimal(n)) != "unlimited"@,
{
    reveal_strlit("unlimited");
    let digits = text::decimal(n);
    text::law_decimal_names_its_number(n);
    text::law_lowering_changes_capitals_only(digits, 0);
    assert(text::is_digit(digits[0]));
    assert("unlimited"@[0] == 'u');
}

/// A new ticket is refused exactly where its expiry, its uses or one of its
/// limits cannot be read, and the user is told which, and what was said of it.
pub proof fn law_bad_options_are_named(args: TicketCreateArgs)
    ensures
        create_fault(args) is None <==> {
            &&& config::duration_seconds(args.expires@) is Ok
            &&& wanted_uses(text::optional_text(args.uses), args.unlimited) is Ok
            &&& config::duration_seconds(args.max_build_time@) is Ok
            &&& config::byte_count(args.max_upload_bytes@) is Ok
        },
        match config::duration_seconds(args.expires@) {
            Err(e) => create_fault(args) == Some(seq!["parse --expires "@ + args.expires@] + e),
            Ok(_) => match wanted_uses(text::optional_text(args.uses), args.unlimited) {
                Err(e) => create_fault(args) == Some(e),
                Ok(_) => match config::duration_seconds(args.max_build_time@) {
                    Err(e) => create_fault(args) == Some(
                        seq!["parse --max-build-time "@ + args.max_build_time@] + e,
                    ),
                    Ok(_) => config::byte_count(args.max_upload_bytes@) matches Err(e)
                        ==> create_fault(args) == Some(
                        seq!["parse --max-upload-bytes "@ + args.max_upload_bytes@] + e,
                    ),
                },
            },
        },
{
    reveal_strlit("parse ");
    reveal_strlit("--expires");
    reveal_strlit("--max-build-time");
    reveal_strlit("--max-upload-bytes");
    reveal_strlit(" ");
    reveal_strlit("parse --expires ");
    reveal_strlit("parse --max-build-time ");
    reveal_strlit("parse --max-upload-bytes ");
    assert("parse "@ + "--expires"@ + " "@ =~= "parse --expires "@);
    assert("parse "@ + "--max-build-time"@ + " "@ =~= "parse --max-build-time "@);
    assert("parse "@ + "--max-upload-bytes"@ + " "@ =~= "parse --max-upload-bytes "@);
}

/// A ticket is shown as what it is: revoked, else expired, else without uses,
/// else active.
pub proof fn law_statuses_are_shown(record: TicketRecord, now: u64)
    ensures
        record.revoked ==> record_status(record, now) == "revoked"@,
        !record.revoked && record.expires_at_unix <= now ==> record_status(record, now)
            == "expired"@,
        !record.revoked && now < record.expires_at_unix && record.uses_remaining == Some(0u64)
            ==> record_status(record, now) == "exhausted"@,
        !record.revoked && now < record.expires_at_unix && record.uses_remaining != Some(0u64)
            ==> record_status(record, now) == "active"@,
        uses_text(None) == "unlimited"@,
        record.uses_remaining is Some ==> uses_text(record.uses_remaining) == text::decimal(
            record.uses_remaining->0 as nat,
        ),
{
}

/// The fields of a ticket in a list stand between tabs, in the order of the
/// list's head.
pub proof fn law_lists_have_columns(
    id: Seq<char>,
    record: TicketRecord,
    now: u64,
    name: Seq<char>,
    bound: Seq<char>,
)
    requires
        !id.contains('\t'),
        !name.contains('\t'),
        !bound.contains('\t'),
        record.name is Some ==> record.name->0@ == name,
        record.name is None ==> name == "-"@,
        record.bound_client is Some ==> record.bound_client->0@ == bound,
        record.bound_client is None ==> bound == "-"@,
    ensures
        text::split("id\tname\tstatus\tuses\texpires_unix\tbound_client"@, '\t') == seq![
            "id"@,
            "name"@,
            "status"@,
            "uses"@,
            "expires_unix"@,
            "bound_client"@,
        ],
        text::split(list_line(id, record, now), '\t') == seq![
            id,
            name,
            record_status(record, now),
            uses_text(record.uses_remaining),
            text::decimal(record.expires_at_unix as nat),
            bound,
        ],
{
    reveal_strlit("\t");
    reveal_strlit("id");
    reveal_strlit("name");
    reveal_strlit("status");
    reveal_strlit("uses");
    reveal_strlit("expires_unix");
    reveal_strlit("bound_client");
    reveal_strlit("id\tname\tstatus\tuses\texpires_unix\tbound_client");
    reveal_strlit("active");
    reveal_strlit("revoked");
    reveal_strlit("expired");
    reveal_strlit("exhausted");
    reveal_strlit("unlimited");
    assert("\t"@ =~= seq!['\t']);
    lemma_six_columns("id"@, "name"@, "status"@, "uses"@, "expires_unix"@, "bound_client"@);
    assert("id"@ + "\t"@ + "name"@ + "\t"@ + "status"@ + "\t"@ + "uses"@ + "\t"@ + "expires_unix"@
        + "\t"@ + "bound_client"@ =~= "id\tname\tstatus\tuses\texpires_unix\tbound_client"@);
    let expires = text::decimal(record.expires_at_unix as nat);
    let uses = uses_text(record.uses_remaining);
    lemma_numbers_have_no_tab(record.expires_at_unix as nat);
    if record.uses_remaining is Some {
        lemma_numbers_have_no_tab(record.uses_remaining->0 as nat);
    }
    lemma_six_columns(id, name, record_status(record, now), uses, expires, bound);
}

proof fn lemma_numbers_have_no_tab(n: nat)
    ensures
        !text::decimal(n).contains('\t'),
{
    text::law_decimal_names_its_number(n);
    let digits = text::decimal(n);
    if digits.contains('\t') {
        let i = choose|i: int| 0 <= i < digits.len() && digits[i] == '\t';
        assert(text::is_digit(digits[i]));
    }
}

proof fn lemma_six_columns(
    a: Seq<char>,
    b: Seq<char>,
    c: Seq<char>,
    d: Seq<char>,
    e: Seq<char>,
    f: Seq<char>,
)
    requires
        !a.contains('\t'),
        !b.contains('\t'),
        !c.contains('\t'),
        !d.contains('\t'),
        !e.contains('\t'),
        !f.contains('\t'),
    ensures
        text::split(
            a + "\t"@ + b + "\t"@ + c + "\t"@ + d + "\t"@ + e + "\t"@ + f,
            '\t',
        ) == seq![a, b, c, d, e, f],
{
    reveal_strlit("\t");
    let tab = seq!['\t'];
    assert("\t"@ =~= tab);
    let pieces = seq![a, b, c, d, e, f];
    assert(pieces.drop_last() =~= seq![a, b, c, d, e]);
    assert(seq![a, b, c, d, e].drop_last() =~= seq![a, b, c, d]);
    assert(seq![a, b, c, d].drop_last() =~= seq![a, b, c]);
    assert(seq![a, b, c].drop_last() =~= seq![a, b]);
    assert(seq![a, b].drop_last() =~= seq![a]);
    reveal_with_fuel(text::join, 7);
    assert(text::join(pieces, tab) == a + tab + b + tab + c + tab + d + tab + e + tab + f);
    text::law_joined_pieces_are_split(pieces, '\t');
}

/// A list has a head and a line for each ticket, and says so where there is
/// none.
pub proof fn law_all_tickets_are_listed(records: Seq<(String, TicketRecord)>, now: u64, i: int)
    ensures
        records.len() == 0 ==> list_lines(records, now) == seq!["no tickets"@],
        records.len() > 0 ==> {
            &&& list_lines(records, now).len() == records.len() + 1
            &&& list_lines(records, now)[0]
                == "id\tname\tstatus\tuses\texpires_unix\tbound_client"@
            &&& 0 <= i < records.len() ==> list_lines(records, now)[i + 1] == list_line(
                records[i].0@,
                records[i].1,
                now,
            )
        },
{
}

/// All that is known of a ticket is told, each on a line of its own. A ticket
/// that is bound to nobody has no line on that.
pub proof fn law_records_are_told(record: TicketRecord)
    ensures
        record_lines(record)[0] == "name: "@ + (if record.name is Some {
            record.name->0@
        } else {
            "<none>"@
        }),
        record_lines(record)[1] == "created unix: "@ + text::decimal(
            record.created_at_unix as nat,
        ),
        record_lines(record)[2] == "expires unix: "@ + text::decimal(
            record.expires_at_unix as nat,
        ),
        record_lines(record)[3] == "uses remaining: "@ + uses_text(record.uses_remaining),
        record_lines(record)[4] == "max build time: "@ + record.max_build_time@,
        record_lines(record)[5] == "max upload bytes: "@ + record.max_upload_bytes@,
        record.bound_client is Some ==> record_lines(record).len() == 8 && record_lines(record)[6]
            == "bound client: "@ + record.bound_client->0@,
        record.bound_client is None ==> record_lines(record).len() == 7,
        record.revoked ==> record_lines(record).last() == "revoked: true"@,
        !record.revoked ==> record_lines(record).last() == "revoked: false"@,
{
}

/// A ticket that is known is handed out as it was made, and any other is not
/// found.
pub proof fn law_tickets_are_handed_out(id: Seq<char>, record: TicketRecord)
    ensures
        revealed(id, Some(record)) == Ok::<Seq<char>, Seq<Seq<char>>>(record.encoded_ticket@),
        revealed(id, None) == Err::<Seq<char>, Seq<Seq<char>>>(seq!["ticket not found: "@ + id]),
        DEFAULT_TICKET_EXPIRY@ == "2h"@,
{
}

/// Of a ticket is told: itself, its id, the builder with every way to it, and
/// what the builder knows of it.
pub proof fn law_tickets_are_inspected(
    given: ticket::BuildTicketView,
    encoded: Seq<char>,
    direct_addrs: Seq<Seq<char>>,
    record: Option<TicketRecord>,
    i: int,
)
    ensures
        ({
            let lines = inspect_lines(given, encoded, direct_addrs, record);
            let relays = given.addr.relay_urls.len();
            let at = 3 + relays + direct_addrs.len();
            &&& lines[0] == "ticket: "@ + encoded
            &&& lines[1] == "ticket id: "@ + ticket::ticket_id_of(given.secret)
            &&& lines[2] == "server endpoint id: "@ + hex::hex_text(given.addr.id)
            &&& 0 <= i < relays ==> lines[3 + i] == "server relay url: "@
                + given.addr.relay_urls[i]
            &&& 0 <= i < direct_addrs.len() ==> lines[3 + relays + i] == "server direct addr: "@
                + direct_addrs[i]
            &&& record is Some ==> lines.skip(at as int) == record_lines(record->0)
            &&& record is None ==> lines.skip(at as int) == seq![
                "store: ticket record not found"@,
            ]
        }),
{
    let lines = inspect_lines(given, encoded, direct_addrs, record);
    let at = 3 + given.addr.relay_urls.len() + direct_addrs.len();
    match record {
        Some(record) => {
            assert(lines.skip(at as int) =~= record_lines(record));
        },
        None => {
            assert(lines.skip(at as int) =~= seq!["store: ticket record not found"@]);
        },
    }
}

} // verus!
