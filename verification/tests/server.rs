use drv_thru::access::AccessPolicy;
use drv_thru::endpoint::{EndpointAddr, EndpointId};
use drv_thru::error::Error;
use drv_thru::nix::commands::RealiseResult;
use drv_thru::nix::StorePath;
use drv_thru::proto::{
    AuthTicket, BuildRequest, Hello, Incoming, Message, OutputMode, PathListChunk, VERSION,
};
use drv_thru::server::auth::{check_claim, AuthorizedConnection};
use drv_thru::server::builds::{check_build_request, selected_outputs, CheckedBuildRequest};
use drv_thru::server::connection::{Action, Handshake, HandshakeEvent};
use drv_thru::server::queued::{BuildEvent, BuildStage, QueuedBuild};
use drv_thru::server::status::BuildResult;
use drv_thru::server::{
    default_output_cache_max_parallel_fills, path_list_limits, ResolvedServeMode,
};
use drv_thru::ticket::{BuildTicket, CreateTicket, TicketState, TicketStore};

const DRV: &str = "/nix/store/00000000000000000000000000000000-a.drv";
const OUT: &str = "/nix/store/11111111111111111111111111111111-a";

fn new_id() -> EndpointId {
    EndpointId::from_bytes(*iroh::SecretKey::generate().public().as_bytes()).unwrap()
}

fn incoming(message: Message) -> Incoming {
    Incoming {
        message,
        shown: "Shown".to_string(),
    }
}

fn received(message: Message) -> HandshakeEvent {
    HandshakeEvent::Received {
        incoming: incoming(message),
    }
}

fn hello(id: &EndpointId) -> Message {
    Message::Hello(Hello {
        version: VERSION,
        node_id: id.to_text(),
    })
}

fn request() -> BuildRequest {
    BuildRequest {
        installable: ".#a".to_string(),
        drv_path: DRV.to_string(),
        output_paths: vec![OUT.to_string()],
        output_mode: OutputMode::Plain,
        rebuild: false,
    }
}

fn last_paths(paths: &[&str]) -> Message {
    Message::BuildPaths(PathListChunk {
        paths: paths.iter().map(|path| path.to_string()).collect(),
        done: true,
    })
}

fn drive(peer: &EndpointId, policy: &AccessPolicy, events: Vec<HandshakeEvent>) -> (Handshake, Vec<Action>) {
    let (mut state, mut actions) = Handshake::new();
    for event in events {
        let (next, done) = state.step(event, peer, policy, "drv-thru:key");
        state = next;
        actions = done;
    }
    (state, actions)
}

fn timed_out() -> HandshakeEvent {
    HandshakeEvent::TimedOut {
        cause: "deadline has elapsed".to_string(),
    }
}

fn told(actions: &[Action]) -> String {
    match &actions[0] {
        Action::Send {
            message: Message::Error(err),
        } => err.message.clone(),
        Action::Abort { error } => error.message(),
        _ => panic!("nobody was told anything"),
    }
}

#[test]
fn trusted_clients_get_to_build() {
    let peer = new_id();
    let policy = AccessPolicy::from_endpoint_ids(vec![peer]);
    let (state, actions) = drive(
        &peer,
        &policy,
        vec![
            received(hello(&peer)),
            received(Message::AuthTrustedClient),
            received(Message::BuildRequest(request())),
            received(last_paths(&[])),
        ],
    );
    assert!(actions.is_empty());
    let Handshake::Accepted { authorized, build } = state else {
        panic!("refused a trusted client");
    };
    assert_eq!(authorized.client_label, format!("client:{}", peer.to_text()));
    assert_eq!(build.closure_paths.len(), 1);
    assert_eq!(build.drv_path.as_str(), DRV);
}

#[test]
fn strangers_are_told_so() {
    let peer = new_id();
    let policy = AccessPolicy::from_endpoint_ids(vec![new_id()]);
    let (state, actions) = drive(
        &peer,
        &policy,
        vec![received(hello(&peer)), received(Message::AuthTrustedClient)],
    );
    assert!(matches!(state, Handshake::Refusing));
    assert_eq!(told(&actions), "client is not trusted");
    assert!(matches!(actions[1], Action::Close));
    let (state, actions) = state.step(HandshakeEvent::Performed, &peer, &policy, "k");
    assert!(matches!(state, Handshake::Ended));
    assert!(actions.is_empty());
}

#[test]
fn refusals_that_cannot_be_told_end_the_connection() {
    let peer = new_id();
    let policy = AccessPolicy::from_endpoint_ids(Vec::new());
    let (state, actions) = drive(
        &peer,
        &policy,
        vec![
            received(hello(&peer)),
            received(Message::AuthTrustedClient),
            HandshakeEvent::Failed {
                error: Error::of("lost"),
            },
        ],
    );
    assert!(matches!(state, Handshake::Ended));
    assert_eq!(actions.len(), 1);
    assert!(matches!(&actions[0], Action::Abort { error } if error.messages() == ["lost"]));
}

#[test]
fn greetings_have_to_be_honest() {
    let peer = new_id();
    let other = new_id();
    let policy = AccessPolicy::from_endpoint_ids(vec![other]);
    let after = |message| {
        let (state, actions) = drive(&peer, &policy, vec![received(message)]);
        assert!(matches!(state, Handshake::Ended));
        told(&actions)
    };
    assert_eq!(
        after(hello(&other)),
        format!(
            "hello node id {} does not match connection peer {}",
            other.to_text(),
            peer.to_text()
        )
    );
    assert_eq!(
        after(Message::Hello(Hello {
            version: VERSION + 1,
            node_id: peer.to_text()
        })),
        format!("unsupported protocol version: {}", VERSION + 1)
    );
    assert_eq!(
        after(Message::Hello(Hello {
            version: VERSION,
            node_id: "zz".to_string()
        })),
        "parse hello node id: zz"
    );
    assert_eq!(after(Message::Done), "expected hello, got Shown");
}

#[test]
fn tickets_are_redeemed_after_the_request() {
    let peer = new_id();
    let policy = AccessPolicy::from_endpoint_ids(Vec::new());
    let ticket = BuildTicket::generate(&EndpointAddr::new(new_id()));
    let store = TicketStore::new("/d");
    let mut tickets = TicketState::default();
    store
        .create(
            &mut tickets,
            &ticket,
            "x".to_string(),
            CreateTicket {
                name: Some("friend".to_string()),
                bound_client: None,
                expires_after: 60,
                uses_remaining: Some(1),
                max_build_time: "30m".to_string(),
                max_upload_bytes: "2K".to_string(),
            },
            0,
        )
        .unwrap();
    let secret = ticket.secret();
    let (state, _) = Handshake::new();
    let (state, _) = state.step(received(hello(&peer)), &peer, &policy, "k");
    let (state, actions) = state.step(
        received(Message::AuthTicket(AuthTicket { secret })),
        &peer,
        &policy,
        "k",
    );
    assert!(matches!(actions[0], Action::CheckTicket { .. }));
    let checked = store.check(&tickets, &secret, &peer, 1);
    let (state, actions) =
        state.step(HandshakeEvent::TicketChecked { checked }, &peer, &policy, "k");
    assert!(matches!(
        actions[0],
        Action::Send {
            message: Message::AuthOk(_)
        }
    ));
    let (state, _) = state.step(received(Message::BuildRequest(request())), &peer, &policy, "k");
    let (state, actions) = state.step(received(last_paths(&[DRV])), &peer, &policy, "k");
    assert!(matches!(actions[0], Action::RedeemTicket { .. }));
    let redeemed = store.redeem(&mut tickets, &secret, &peer, 1);
    let (state, _) =
        state.step(HandshakeEvent::TicketRedeemed { redeemed }, &peer, &policy, "k");
    let Handshake::Accepted { authorized, .. } = state else {
        panic!("refused a ticket");
    };
    assert_eq!(authorized.client_label, "ticket:friend");
    assert_eq!(authorized.max_build_time, Some(1800));
    assert_eq!(authorized.max_upload_bytes, Some(2048));
    assert_eq!(authorized.ticket_secret, None);
    assert!(store.check(&tickets, &secret, &peer, 1).is_err());
}

#[test]
fn bad_requests_cost_no_use() {
    let peer = new_id();
    let policy = AccessPolicy::from_endpoint_ids(vec![peer]);
    let after = |message| {
        let (_, actions) = drive(
            &peer,
            &policy,
            vec![
                received(hello(&peer)),
                received(Message::AuthTrustedClient),
                received(Message::BuildRequest(request())),
                received(message),
            ],
        );
        assert!(matches!(actions[1], Action::Close));
        told(&actions)
    };
    assert!(after(last_paths(&["/tmp/x"])).contains("/tmp/x"));
    assert_eq!(after(Message::Done), "unexpected path list message: Shown");
    let (_, actions) = drive(
        &peer,
        &policy,
        vec![
            received(hello(&peer)),
            received(Message::AuthTrustedClient),
            received(Message::BuildRequest(request())),
            timed_out(),
        ],
    );
    assert_eq!(told(&actions), "read timed out");
    let (_, actions) = drive(&peer, &policy, vec![timed_out()]);
    assert!(matches!(
        &actions[0],
        Action::Abort { error } if error.messages() == ["read timed out", "deadline has elapsed"]
    ));
    let (_, actions) = drive(
        &peer,
        &policy,
        vec![received(hello(&peer)), received(Message::Done)],
    );
    assert_eq!(told(&actions), "expected auth message, got Shown");
    let (_, actions) = drive(
        &peer,
        &policy,
        vec![
            received(hello(&peer)),
            received(Message::AuthTrustedClient),
            received(Message::Done),
        ],
    );
    assert_eq!(told(&actions), "expected build request, got Shown");
    let (state, actions) = drive(
        &peer,
        &policy,
        vec![HandshakeEvent::Failed {
            error: Error::of("lost"),
        }],
    );
    assert!(matches!(state, Handshake::Ended));
    assert_eq!(told(&actions), "lost");
}

#[test]
fn requests_are_checked() {
    let Ok(build) = check_build_request(request(), &[]) else {
        panic!("refused a request");
    };
    assert_eq!(build.closure_paths[0].as_str(), DRV);
    let none = BuildRequest {
        output_paths: Vec::new(),
        ..request()
    };
    let Err(err) = check_build_request(none, &[]) else {
        panic!("accepted a request for nothing");
    };
    assert_eq!(err.message(), "build request did not include output paths");
    let out = StorePath::new(OUT).unwrap();
    let drv = StorePath::new(DRV).unwrap();
    assert!(selected_outputs(&[out.clone()], &[drv.clone(), out.clone()]).is_ok());
    let Err(err) = selected_outputs(&[out], &[drv]) else {
        panic!("selected what is not there");
    };
    assert_eq!(err.message(), format!("requested output was not realised: {OUT}"));
}

fn accepted() -> (AuthorizedConnection, CheckedBuildRequest) {
    let Ok(build) = check_build_request(request(), &[]) else {
        panic!("refused a request");
    };
    (
        AuthorizedConnection {
            client_label: "client:a".to_string(),
            max_build_time: Some(5),
            max_upload_bytes: Some(10),
            ticket_secret: None,
        },
        build,
    )
}

fn run_build(events: Vec<BuildEvent>) -> (BuildStage, Vec<Action>) {
    let (authorized, build) = accepted();
    let (mut queued, mut actions) = QueuedBuild::new(authorized, build);
    assert!(matches!(actions[0], Action::Enqueue { .. }));
    for event in events {
        let (next, done) = queued.step(event);
        queued = next;
        actions = done;
    }
    (queued.stage, actions)
}

fn out_paths() -> Vec<StorePath> {
    vec![StorePath::new(OUT).unwrap()]
}

fn realised(success: bool) -> BuildEvent {
    BuildEvent::Realised {
        result: RealiseResult {
            success,
            output_paths: out_paths(),
        },
    }
}

fn wanted(paths: &[&str]) -> BuildEvent {
    BuildEvent::Received {
        incoming: incoming(Message::OutputRequest(PathListChunk {
            paths: paths.iter().map(|path| path.to_string()).collect(),
            done: true,
        })),
    }
}

fn up_to_closure() -> Vec<BuildEvent> {
    vec![
        BuildEvent::Permitted,
        BuildEvent::InputsChecked {
            missing: Vec::new(),
        },
        realised(true),
        BuildEvent::ClosureFound {
            closure: out_paths(),
        },
    ]
}

fn ended_with(actions: &[Action]) -> (BuildResult, Option<String>) {
    match &actions[0] {
        Action::Finish { result, fault } => (*result, fault.clone()),
        _ => panic!("the build has not ended"),
    }
}

#[test]
fn builds_go_through() {
    let mut events = up_to_closure();
    events.push(wanted(&[]));
    events.push(BuildEvent::Performed);
    let (stage, actions) = run_build(events);
    assert!(matches!(stage, BuildStage::Closing));
    assert_eq!(ended_with(&actions), (BuildResult::Success, None));
    assert!(matches!(actions[1], Action::Close));

    let mut events = up_to_closure();
    events.push(wanted(&[]));
    events.push(BuildEvent::Performed);
    events.push(BuildEvent::Performed);
    let (stage, actions) = run_build(events);
    assert!(matches!(stage, BuildStage::Ended));
    assert!(actions.is_empty());

    let mut events = up_to_closure();
    events.push(wanted(&[]));
    events.push(BuildEvent::Performed);
    events.push(BuildEvent::Failed {
        error: Error::of("lost"),
    });
    let (stage, actions) = run_build(events);
    assert!(matches!(stage, BuildStage::Ended));
    assert!(matches!(&actions[0], Action::Abort { error } if error.messages() == ["lost"]));

    let mut events = up_to_closure();
    events.push(wanted(&[OUT]));
    let (stage, actions) = run_build(events);
    assert!(matches!(stage, BuildStage::Serving));
    assert!(matches!(actions[1], Action::Serve { .. }));

    let mut events = up_to_closure();
    events.push(wanted(&[OUT]));
    events.push(BuildEvent::Received {
        incoming: incoming(Message::OutputCacheDone),
    });
    events.push(BuildEvent::Served);
    let (stage, actions) = run_build(events);
    assert!(matches!(stage, BuildStage::Telling { success: true }));
    assert!(matches!(
        actions[0],
        Action::Send {
            message: Message::Done
        }
    ));
}

#[test]
fn builds_wait_for_their_turn() {
    let checked = || BuildEvent::InputsChecked {
        missing: Vec::new(),
    };
    let (stage, actions) = run_build(vec![checked()]);
    assert!(matches!(stage, BuildStage::Waiting));
    assert!(actions.is_empty());
    let (_, actions) = run_build(vec![BuildEvent::Permitted, checked()]);
    assert!(actions.iter().any(|action| matches!(action, Action::Realise { .. })));
}

#[test]
fn missing_inputs_are_uploaded() {
    let missing = || vec![StorePath::new(DRV).unwrap()];
    let (stage, actions) = run_build(vec![
        BuildEvent::Permitted,
        BuildEvent::InputsChecked { missing: missing() },
    ]);
    assert!(matches!(stage, BuildStage::Uploading));
    assert!(matches!(
        actions.last().unwrap(),
        Action::ReceiveUpload {
            max_bytes: Some(10),
            ..
        }
    ));
    let (stage, actions) = run_build(vec![
        BuildEvent::Permitted,
        BuildEvent::InputsChecked { missing: missing() },
        BuildEvent::Uploaded {
            still_missing: Vec::new(),
        },
    ]);
    assert!(matches!(stage, BuildStage::Building));
    assert!(matches!(
        actions.last().unwrap(),
        Action::Realise {
            max_seconds: Some(5),
            ..
        }
    ));
    let (_, actions) = run_build(vec![
        BuildEvent::Permitted,
        BuildEvent::InputsChecked { missing: missing() },
        BuildEvent::Uploaded {
            still_missing: missing(),
        },
    ]);
    assert_eq!(
        ended_with(&actions),
        (
            BuildResult::Error,
            Some("missing paths after import: 1".to_string())
        )
    );
}

#[test]
fn builds_fail_in_many_ways() {
    let fault = |events| ended_with(&run_build(events).1);
    let error = |text: &str| (BuildResult::Error, Some(text.to_string()));
    assert_eq!(fault(vec![BuildEvent::QueueClosed]), error("build queue is closed"));
    assert_eq!(
        fault(vec![
            BuildEvent::Permitted,
            BuildEvent::InputsChecked {
                missing: Vec::new()
            },
            BuildEvent::TimedOut
        ]),
        error("build timed out")
    );
    assert_eq!(
        fault(vec![
            BuildEvent::Permitted,
            BuildEvent::InputsChecked {
                missing: out_paths()
            },
            BuildEvent::TimedOut
        ]),
        error("input upload timed out")
    );
    assert_eq!(
        fault(vec![
            BuildEvent::Permitted,
            BuildEvent::InputsChecked {
                missing: Vec::new()
            },
            realised(false),
            BuildEvent::Performed
        ]),
        (BuildResult::Failed, Some("nix build failed".to_string()))
    );
    let mut events = up_to_closure();
    events.push(wanted(&[DRV]));
    assert_eq!(
        fault(events),
        error(&format!("requested output path was not built: {DRV}"))
    );
    let mut events = up_to_closure();
    events.push(wanted(&[OUT]));
    events.push(BuildEvent::Received {
        incoming: incoming(Message::Done),
    });
    assert_eq!(fault(events), error("unexpected output cache message: Shown"));
    let (_, actions) = run_build(vec![BuildEvent::Failed {
        error: Error::of("lost"),
    }]);
    assert_eq!(ended_with(&actions), error("lost"));
    assert!(matches!(actions[1], Action::Abort { .. }));
    let (_, actions) = run_build(vec![
        BuildEvent::Permitted,
        BuildEvent::Failed {
            error: Error::of("lost"),
        },
    ]);
    assert!(matches!(actions[2], Action::Close));
}

#[test]
fn defaults_of_a_builder() {
    let mode = ResolvedServeMode::from_data_dir("/d".to_string(), vec![new_id()]);
    assert_eq!(mode.max_concurrent_builds, 1);
    assert_eq!(mode.recent_builds_limit, 20);
    assert_eq!(mode.cache_fills(Some(3)), 3);
    assert_eq!(mode.key_path(), "/d/secret.key");
    let mode = ResolvedServeMode {
        output_cache_max_parallel_fills: Some(40),
        secret_key_file: Some("/k".to_string()),
        ..mode
    };
    assert_eq!(mode.cache_fills(Some(3)), 40);
    assert_eq!(mode.key_path(), "/k");
    assert_eq!(default_output_cache_max_parallel_fills(None), 4);
    assert_eq!(default_output_cache_max_parallel_fills(Some(64)), 16);
    assert_eq!(default_output_cache_max_parallel_fills(Some(0)), 1);
    assert_eq!(path_list_limits().paths, 100_000);
}

#[test]
fn claims_are_compared_with_the_connection() {
    let peer = EndpointId::of_secret(&[1; 32]);
    let other = EndpointId::of_secret(&[2; 32]);
    let hello = |version| Hello {
        version,
        node_id: "me".to_string(),
    };
    assert!(check_claim(&peer, &hello(VERSION), Ok(peer)).is_ok());
    assert_eq!(
        check_claim(&peer, &hello(VERSION), Ok(other)).unwrap_err().message(),
        format!(
            "hello node id {} does not match connection peer {}",
            other.to_text(),
            peer.to_text()
        )
    );
    assert_eq!(
        check_claim(&peer, &hello(VERSION), Err("why".to_string())).unwrap_err().messages(),
        ["parse hello node id: me", "why"]
    );
    assert_eq!(
        check_claim(&peer, &hello(7), Ok(peer)).unwrap_err().message(),
        "unsupported protocol version: 7"
    );
}
