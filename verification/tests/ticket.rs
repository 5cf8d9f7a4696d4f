use drv_thru::endpoint::{EndpointAddr, EndpointId, SocketAddr};
use drv_thru::ticket::{
    compact_ticket_addr, default_ticket_name, server_addr_missing, server_addr_path, ticket_id,
    validate_bound_record, BuildTicket, CreateTicket, ServerAddrFile, TicketState, TicketStore,
};
use iroh_tickets::{ParseError, Ticket};

fn new_id() -> EndpointId {
    EndpointId::from_bytes(*iroh::SecretKey::generate().public().as_bytes()).unwrap()
}

/// A ticket as it is handed out.
struct Handed(BuildTicket);

impl Ticket for Handed {
    const KIND: &'static str = "drvthru";

    fn encode_bytes(&self) -> Vec<u8> {
        self.0.encode_bytes()
    }

    fn decode_bytes(bytes: &[u8]) -> Result<Self, ParseError> {
        BuildTicket::decode_bytes(bytes)
            .map(Handed)
            .ok_or_else(|| ParseError::verification_failed("no build ticket"))
    }
}

fn local_addr() -> SocketAddr {
    SocketAddr::V4 {
        octets: [127, 0, 0, 1],
        port: 1234,
    }
}

#[test]
fn ticket_round_trips() {
    let server_id = new_id();
    let addr = EndpointAddr::new(server_id).with_ip_addr(local_addr());
    let ticket = Handed(BuildTicket::with_secret(
        addr,
        iroh::SecretKey::generate().to_bytes(),
    ));

    let encoded = ticket.encode_string();
    assert!(encoded.starts_with("drvthru"));
    let Handed(decoded) = Handed::decode_string(&encoded).unwrap_or_else(|_| panic!("no ticket"));

    assert_eq!(decoded.addr().id(), server_id);
    assert_eq!(decoded.secret(), ticket.0.secret());
    assert_eq!(decoded.addr().ip_addrs().len(), 1);
    assert_eq!(decoded.addr().ip_addrs()[0], local_addr());
}

#[test]
fn ticket_prefers_relay_over_direct_addrs() {
    let addr = EndpointAddr::new(new_id())
        .with_relay_url("https://use1-1.relay.n0.iroh.link./".to_string())
        .with_ip_addr(local_addr());
    let ticket = BuildTicket::generate(&addr);

    assert_eq!(ticket.addr().relay_urls().len(), 1);
    assert_eq!(ticket.addr().ip_addrs().len(), 0);
}

#[test]
fn tickets_without_a_relay_keep_their_direct_addrs() {
    let addr = EndpointAddr::new(new_id()).with_ip_addr(local_addr());
    assert_eq!(compact_ticket_addr(&addr).ip_addrs().len(), 1);
    let a = BuildTicket::generate(&addr);
    let b = BuildTicket::generate(&addr);
    assert_ne!(a.secret(), b.secret());
    assert_ne!(a.id(), b.id());
}

#[test]
fn tickets_with_a_relay_round_trip() {
    let addr = EndpointAddr::new(new_id())
        .with_relay_url("https://use1-1.relay.n0.iroh.link./".to_string());
    let ticket = BuildTicket::generate(&addr);
    let bytes = ticket.encode_bytes();
    let read = BuildTicket::decode_bytes(&bytes).unwrap_or_else(|| panic!("no ticket"));
    assert_eq!(read.addr().relay_urls(), ticket.addr().relay_urls());
    assert_eq!(read.id(), ticket.id());
    let v6 = SocketAddr::V6 {
        bytes: [7; 16],
        port: 9,
        flowinfo: 0,
        scope_id: 0,
    };
    let ticket = BuildTicket::generate(&EndpointAddr::new(new_id()).with_ip_addr(v6));
    let read = BuildTicket::decode_bytes(&ticket.encode_bytes()).unwrap_or_else(|| panic!("none"));
    assert_eq!(read.addr().ip_addrs()[0], v6);
}

#[test]
fn tickets_are_written_as_postcard_writes_their_fields() {
    let id = new_id();
    let ticket = BuildTicket::with_secret(EndpointAddr::new(id), [3; 32]);
    let addrs: Vec<String> = Vec::new();
    let url: Option<String> = None;
    let expected =
        postcard::to_stdvec(&(0u32, (*id.as_bytes(), url, addrs), [3u8; 32])).unwrap();
    assert_eq!(ticket.encode_bytes(), expected);
    assert!(BuildTicket::decode_bytes(b"nonsense").is_none());
    assert!(BuildTicket::decode_bytes(&[]).is_none());
}

#[test]
fn addresses_of_iroh_are_written_the_same() {
    let secret = iroh::SecretKey::generate();
    let key: iroh::PublicKey = secret.public();
    let addr = iroh::EndpointAddr::new(key).with_ip_addr("127.0.0.1:1234".parse().unwrap());
    let direct: Vec<_> = addr.ip_addrs().collect();
    let url: Option<iroh::RelayUrl> = None;
    let theirs =
        postcard::to_stdvec(&(0u32, (addr.id, url, direct), [9u8; 32])).unwrap();
    let ours = BuildTicket::with_secret(
        EndpointAddr::new(EndpointId::from_bytes(*key.as_bytes()).unwrap()).with_ip_addr(local_addr()),
        [9; 32],
    );
    assert_eq!(ours.encode_bytes(), theirs);

    let url: iroh::RelayUrl = "https://use1-1.relay.n0.iroh.link./".parse().unwrap();
    let direct: Vec<String> = Vec::new();
    let theirs =
        postcard::to_stdvec(&(0u32, (addr.id, Some(url.clone()), direct), [9u8; 32])).unwrap();
    let ours = BuildTicket::with_secret(
        EndpointAddr::new(EndpointId::from_bytes(*key.as_bytes()).unwrap()).with_relay_url(url.to_string()),
        [9; 32],
    );
    assert_eq!(ours.encode_bytes(), theirs);
}

#[test]
fn tickets_are_put_together_from_their_fields() {
    let id = EndpointId::of_secret(&[1; 32]);
    let url = || Some("https://relay.example/".to_string());
    let made = |version, id, has_url, url: Option<String>| {
        BuildTicket::from_fields(version, id, has_url, url, &[Ok(([127, 0, 0, 1], 1234))], [5; 32])
    };
    let ticket = made(0, Some(id), true, url()).unwrap_or_else(|| panic!("no ticket"));
    assert_eq!(ticket.addr().id(), id);
    assert_eq!(ticket.addr().ip_addrs()[0], local_addr());
    assert_eq!(ticket.addr().relay_urls()[0], "https://relay.example/");
    assert_eq!(ticket.secret(), [5; 32]);
    let ticket = made(0, Some(id), false, None).unwrap_or_else(|| panic!("no ticket"));
    assert!(ticket.addr().relay_urls().is_empty());
    assert!(made(1, Some(id), true, url()).is_none());
    assert!(made(0, None, true, url()).is_none());
    assert!(made(0, Some(id), true, None).is_none());
}

#[test]
fn the_id_of_a_ticket_is_the_public_key_of_its_secret() {
    let secret = iroh::SecretKey::generate();
    assert_eq!(ticket_id(&secret.to_bytes()), secret.public().to_string());
}

fn options(name: Option<&str>, expires_after: u64, uses: Option<u64>) -> CreateTicket {
    CreateTicket {
        name: name.map(str::to_string),
        bound_client: None,
        expires_after,
        uses_remaining: uses,
        max_build_time: "30m".to_string(),
        max_upload_bytes: "20G".to_string(),
    }
}

fn new_ticket() -> BuildTicket {
    BuildTicket::generate(&EndpointAddr::new(new_id()))
}

#[test]
fn ticket_store_redeems_once() {
    let store = TicketStore::new("/tmp/redeems-once");
    let mut state = TicketState::default();
    let ticket = new_ticket();
    store
        .create(&mut state, &ticket, "x".to_string(), options(Some("test"), 60, Some(1)), 1000)
        .unwrap();
    let remote = new_id();

    let record = store.redeem(&mut state, &ticket.secret(), &remote, 1001).unwrap();
    assert_eq!(record.uses_remaining, Some(0));
    assert!(store.redeem(&mut state, &ticket.secret(), &remote, 1001).is_err());
    assert_eq!(
        store.record(&state, &ticket.id()).unwrap().uses_remaining,
        Some(0)
    );
}

#[test]
fn ticket_store_check_does_not_consume_use() {
    let store = TicketStore::new("/tmp/check-does-not-consume");
    let mut state = TicketState::default();
    let ticket = new_ticket();
    store
        .create(&mut state, &ticket, "x".to_string(), options(Some("test"), 60, Some(1)), 1000)
        .unwrap();
    let remote = new_id();

    let checked = store.check(&state, &ticket.secret(), &remote, 1001).unwrap();
    assert_eq!(checked.uses_remaining, Some(1));
    assert_eq!(
        store.record(&state, &ticket.id()).unwrap().uses_remaining,
        Some(1)
    );
    assert_eq!(
        store
            .redeem(&mut state, &ticket.secret(), &remote, 1001)
            .unwrap()
            .uses_remaining,
        Some(0)
    );
}

#[test]
fn ticket_store_rejects_expired() {
    let store = TicketStore::new("/tmp/expired");
    let mut state = TicketState::default();
    let ticket = new_ticket();
    store
        .create(&mut state, &ticket, "x".to_string(), options(None, 0, Some(1)), 1000)
        .unwrap();
    let remote = new_id();

    assert_eq!(
        store
            .redeem(&mut state, &ticket.secret(), &remote, 1000)
            .unwrap_err()
            .message(),
        "ticket expired"
    );
    assert_eq!(
        store.record(&state, &ticket.id()).unwrap().uses_remaining,
        Some(1)
    );
    assert_eq!(
        store.record(&state, &ticket.id()).unwrap().name.as_deref(),
        Some("ticket-1000")
    );
}

#[test]
fn tickets_that_are_refused() {
    let store = TicketStore::new("/d");
    let mut state = TicketState::default();
    let ticket = new_ticket();
    let friend = new_id();
    let bound = CreateTicket {
        bound_client: Some(friend.to_text()),
        ..options(None, 60, None)
    };
    store.create(&mut state, &ticket, "x".to_string(), bound, 0).unwrap();
    let message = |state: &TicketState, remote: &EndpointId, now| {
        store.check(state, &ticket.secret(), remote, now).unwrap_err().message()
    };
    assert_eq!(
        message(&state, &new_id(), 1),
        "ticket bound to a different client"
    );
    assert!(store.check(&state, &ticket.secret(), &friend, 1).is_ok());
    assert!(store.redeem(&mut state, &ticket.secret(), &friend, 1).is_ok());
    assert!(store.redeem(&mut state, &ticket.secret(), &friend, 1).is_ok());
    store.revoke(&mut state, &ticket.id()).unwrap();
    assert_eq!(message(&state, &friend, 1), "ticket revoked");
    assert_eq!(
        store.revoke(&mut state, "nobody").unwrap_err().message(),
        "ticket not found: nobody"
    );
    let other = new_ticket();
    assert_eq!(
        store.check(&state, &other.secret(), &friend, 1).unwrap_err().message(),
        format!("ticket not found: {}", other.id())
    );
    assert_eq!(store.records(&state).len(), 1);
}

#[test]
fn tickets_that_cannot_be_made() {
    let store = TicketStore::new("/d");
    let mut state = TicketState::default();
    let ticket = new_ticket();
    let mut message = |options| {
        store
            .create(&mut state, &ticket, "x".to_string(), options, 10)
            .unwrap_err()
            .message()
    };
    assert_eq!(message(options(Some("  "), 1, None)), "ticket name cannot be empty");
    assert_eq!(message(options(None, u64::MAX, None)), "ticket expiry overflow");
    store
        .create(&mut state, &ticket, "x".to_string(), options(None, 1, None), 10)
        .unwrap();
    assert_eq!(
        store
            .create(&mut state, &ticket, "x".to_string(), options(None, 1, None), 10)
            .unwrap_err()
            .message(),
        format!("ticket id collision: {}", ticket.id())
    );
    assert_eq!(default_ticket_name(5), "ticket-5");
    assert_eq!(store.path(), "/d/tickets.json");
    assert_eq!(store.lock_path().unwrap(), "/d/.tickets.json.lock");
}

#[test]
fn the_address_of_a_builder_is_read_back() {
    let id = new_id();
    let addr = EndpointAddr::new(id)
        .with_relay_url("https://use1-1.relay.n0.iroh.link./".to_string())
        .with_ip_addr(local_addr());
    let file = ServerAddrFile::from_addr(&addr, vec!["127.0.0.1:1234".to_string()]);
    assert_eq!(file.endpoint_id, id.to_text());
    let read = file.into_addr(&[Ok(local_addr())]).unwrap();
    assert_eq!(read.id(), id);
    assert_eq!(read.relay_urls(), addr.relay_urls());
    assert_eq!(read.ip_addrs(), addr.ip_addrs());
    assert_eq!(
        file.into_addr(&[Err("why".to_string())]).unwrap_err().messages(),
        ["parse direct addr: 127.0.0.1:1234", "why"]
    );
    assert_eq!(server_addr_path("/d"), "/d/server-addr.json");
    assert!(server_addr_missing("/d/server-addr.json").message().contains("/d/server-addr.json"));
}

#[test]
fn bound_tickets_are_compared_with_the_client() {
    let store = TicketStore::new("/d");
    let mut state = TicketState::default();
    let ticket = new_ticket();
    let bound = CreateTicket {
        bound_client: Some("nobody".to_string()),
        ..options(None, 60, Some(1))
    };
    store.create(&mut state, &ticket, "x".to_string(), bound, 0).unwrap();
    let record = store.record(&state, &ticket.id()).unwrap();
    let me = EndpointId::of_secret(&[1; 32]);
    let other = EndpointId::of_secret(&[2; 32]);
    assert!(validate_bound_record("id", &record, Some(Ok(me)), &me, 1).is_ok());
    let messages = |bound, now| {
        validate_bound_record("id", &record, bound, &me, now).unwrap_err().messages()
    };
    assert_eq!(
        messages(Some(Ok(other)), 1),
        ["ticket bound to a different client"]
    );
    assert_eq!(
        messages(Some(Err("why".to_string())), 1),
        ["parse bound client for ticket id", "why"]
    );
    assert_eq!(messages(Some(Ok(me)), 60), ["ticket expired"]);
    assert!(messages(None, 60).len() == 1);
    assert_eq!(
        store.check(&state, &ticket.secret(), &me, 1).unwrap_err().messages(),
        [
            format!("parse bound client for ticket {}", ticket.id()),
            "nobody".parse::<iroh::EndpointId>().unwrap_err().to_string()
        ]
    );
}

#[test]
fn tickets_are_found_by_their_ids() {
    let store = TicketStore::new("/d");
    let mut state = TicketState::default();
    let ticket = new_ticket();
    store
        .create(&mut state, &ticket, "x".to_string(), options(None, 60, Some(1)), 0)
        .unwrap();
    let me = new_id();
    assert_eq!(
        store.check_id(&state, &ticket.id(), &me, 1).unwrap().uses_remaining,
        Some(1)
    );
    assert_eq!(
        store.redeem_id(&mut state, &ticket.id(), &me, 1).unwrap().uses_remaining,
        Some(0)
    );
    assert_eq!(
        store.redeem_id(&mut state, &ticket.id(), &me, 1).unwrap_err().message(),
        "ticket has no uses remaining"
    );
    assert_eq!(
        store.check_id(&state, "nobody", &me, 1).unwrap_err().message(),
        "ticket not found: nobody"
    );
}

#[test]
fn the_address_of_a_builder_is_put_together() {
    let file = ServerAddrFile {
        endpoint_id: "me".to_string(),
        relay_url: Some("there".to_string()),
        direct_addrs: Vec::new(),
    };
    let id = EndpointId::of_secret(&[1; 32]);
    let url = || Ok(Some("https://relay.example/".to_string()));
    let why = || "why".to_string();
    let addr = file.addr_of(Ok(id), url(), &[]).unwrap();
    assert_eq!(addr.id(), id);
    assert_eq!(addr.relay_urls()[0], "https://relay.example/");
    assert_eq!(
        file.addr_of(Err(why()), url(), &[]).unwrap_err().messages(),
        ["parse endpoint id: me", "why"]
    );
    assert_eq!(
        file.addr_of(Ok(id), Err(why()), &[]).unwrap_err().messages(),
        ["parse relay url: there", "why"]
    );
    assert!(file.addr_of(Ok(id), Ok(None), &[]).unwrap().relay_urls().is_empty());
    assert_eq!(
        file.into_addr(&[]).unwrap_err().messages(),
        [
            "parse endpoint id: me".to_string(),
            "me".parse::<iroh::EndpointId>().unwrap_err().to_string()
        ]
    );
    let file = ServerAddrFile {
        endpoint_id: id.to_text(),
        ..file
    };
    assert_eq!(
        file.into_addr(&[]).unwrap_err().messages(),
        [
            "parse relay url: there".to_string(),
            "there".parse::<iroh::RelayUrl>().unwrap_err().to_string()
        ]
    );
}
