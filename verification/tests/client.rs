use drv_thru::client::session::{BuildPlan, ClientAction, ClientEvent, ClientSession};
use drv_thru::client::summary::{
    build_text, build_text_with, local_outputs_text, path_word, short_endpoint_id, BuildSummary,
};
use drv_thru::client::{BuildAuth, KeySource};
use drv_thru::client_status::{
    fit_line, format_elapsed, transfer_line, ClientStatus, Moment, CLEAR_LINE,
};
use drv_thru::endpoint::{EndpointAddr, EndpointId};
use drv_thru::error::Error;
use drv_thru::nix::StorePath;
use drv_thru::proto::{
    error_message, AuthOk, BuildFinished, Incoming, Message, NixLog, OutputCacheReady, OutputMode,
    PathListChunk,
};
use drv_thru::ticket::BuildTicket;

const OUT: &str = "/nix/store/11111111111111111111111111111111-a";

fn new_id() -> EndpointId {
    EndpointId::from_bytes(*iroh::SecretKey::generate().public().as_bytes()).unwrap()
}

fn out_paths() -> Vec<StorePath> {
    vec![StorePath::new(OUT).unwrap()]
}

fn plan(auth: Option<BuildAuth>, rebuild: bool) -> BuildPlan {
    BuildPlan {
        installable: ".#a".to_string(),
        auth,
        key_file: None,
        output_mode: OutputMode::Plain,
        rebuild,
    }
}

fn trusted() -> Option<BuildAuth> {
    Some(BuildAuth::TrustedClient {
        server_id: new_id(),
        relay_url: None,
    })
}

fn received(message: Message) -> ClientEvent {
    ClientEvent::Received {
        incoming: Incoming {
            message,
            shown: "Shown".to_string(),
        },
    }
}

fn chunk(paths: &[&str]) -> PathListChunk {
    PathListChunk {
        paths: paths.iter().map(|path| path.to_string()).collect(),
        done: true,
    }
}

fn run(plan: BuildPlan, events: Vec<ClientEvent>) -> (ClientSession, Vec<ClientAction>) {
    let (mut session, mut actions) = ClientSession::new(plan);
    assert!(matches!(actions[1], ClientAction::ResolveOutputs));
    for event in events {
        let (next, done) = session.step(event);
        session = next;
        actions = done;
    }
    (session, actions)
}

fn failure(actions: &[ClientAction]) -> String {
    match actions.last() {
        Some(ClientAction::Fail { error }) => error.message(),
        _ => panic!("no failure"),
    }
}

fn timed_out() -> ClientEvent {
    ClientEvent::TimedOut {
        cause: "deadline has elapsed".to_string(),
    }
}

fn failures(actions: &[ClientAction]) -> Vec<String> {
    match actions.last() {
        Some(ClientAction::Fail { error }) => error.messages(),
        _ => panic!("no failure"),
    }
}

fn resolved() -> ClientEvent {
    ClientEvent::OutputsResolved { paths: out_paths() }
}

#[test]
fn outputs_that_are_there_are_not_built() {
    let (session, actions) = run(
        plan(None, false),
        vec![
            resolved(),
            ClientEvent::MissingFound {
                missing: Vec::new(),
            },
        ],
    );
    assert!(session.has_ended());
    assert!(matches!(actions.last(), Some(ClientAction::Succeed)));
    let ClientAction::Print { lines } = &actions[1] else {
        panic!("nothing was said");
    };
    assert_eq!(lines[0], "drv-thru: outputs already present locally");
    assert_eq!(lines[2], "installable  .#a");
    assert_eq!(lines[3], "outputs      1 path");
    assert_eq!(lines[7], OUT);
}

#[test]
fn missing_outputs_need_a_builder() {
    let needed = "build requires either --server or --ticket when requested outputs are missing locally or --rebuild is set";
    let (_, actions) = run(
        plan(None, false),
        vec![
            resolved(),
            ClientEvent::MissingFound {
                missing: out_paths(),
            },
        ],
    );
    assert_eq!(failure(&actions), needed);
    let (_, actions) = run(plan(None, true), vec![resolved()]);
    assert_eq!(failure(&actions), needed);
}

fn up_to_build() -> Vec<ClientEvent> {
    vec![
        resolved(),
        ClientEvent::MissingFound {
            missing: out_paths(),
        },
        ClientEvent::Connected {
            node_id: "me".to_string(),
        },
        received(Message::AuthOk(AuthOk {
            client_name: Some("laptop".to_string()),
            builder_public_key: "drv-thru:key".to_string(),
        })),
        ClientEvent::TrustChecked,
        ClientEvent::DerivationResolved {
            drv_path: StorePath::new("/nix/store/00000000000000000000000000000000-a.drv").unwrap(),
        },
        ClientEvent::ClosureFound {
            closure: out_paths(),
        },
        received(Message::BuildQueued),
    ]
}

fn finished(success: bool) -> ClientEvent {
    received(Message::BuildFinished(BuildFinished {
        success,
        output_paths: vec![OUT.to_string()],
    }))
}

fn up_to_outputs() -> Vec<ClientEvent> {
    let mut events = up_to_build();
    events.push(received(Message::MissingPaths(chunk(&[]))));
    events.push(received(Message::BuildStarted));
    events.push(received(Message::NixLog(NixLog {
        line: "building".to_string(),
    })));
    events.push(finished(true));
    events.push(received(Message::OutputClosure(chunk(&[OUT]))));
    events.push(ClientEvent::MissingFound {
        missing: out_paths(),
    });
    events
}

#[test]
fn builds_bring_their_outputs() {
    let mut events = up_to_outputs();
    events.push(received(Message::OutputCacheReady(OutputCacheReady {
        copy_paths: vec![OUT.to_string()],
        closure_path_count: 1,
    })));
    events.push(ClientEvent::Imported { result: Ok(1500) });
    events.push(received(Message::Done));
    let (session, actions) = run(plan(trusted(), false), events);
    assert!(!session.has_ended());
    assert!(matches!(actions.last(), Some(ClientAction::Close)));
    let (session, ending) = session.step(ClientEvent::Closed);
    assert!(session.has_ended());
    assert!(matches!(ending[..], [ClientAction::Succeed]));
    let ClientAction::Print { lines } = &actions[2] else {
        panic!("nothing was said");
    };
    assert_eq!(lines[0], "drv-thru: build complete");
    assert_eq!(lines[5], "inputs       0 missing / 1 path");
    assert_eq!(lines[9], "received     1.46 KiB (1500 bytes)");
    assert_eq!(lines.last().unwrap(), OUT);
}

#[test]
fn failed_imports_are_told_to_the_builder_first() {
    let mut events = up_to_outputs();
    events.push(received(Message::OutputCacheReady(OutputCacheReady {
        copy_paths: vec![OUT.to_string()],
        closure_path_count: 1,
    })));
    events.push(ClientEvent::Imported {
        result: Err(Error::of("no copy")),
    });
    let (session, actions) = run(plan(trusted(), false), events);
    let ClientAction::Send { messages } = &actions[0] else {
        panic!("the builder was not told");
    };
    assert!(matches!(messages[0], Message::OutputCacheDone));
    let (session, actions) = session.step(received(Message::Done));
    assert!(session.has_ended());
    assert_eq!(failures(&actions), ["no copy"]);

    let mut events = up_to_outputs();
    events.push(received(Message::OutputCacheReady(OutputCacheReady {
        copy_paths: vec!["/tmp/x".to_string()],
        closure_path_count: 1,
    })));
    events.push(ClientEvent::Failed {
        error: Error::of("lost"),
    });
    let (_, actions) = run(plan(trusted(), false), events);
    assert!(failure(&actions).contains("/tmp/x"));
}

#[test]
fn failed_builds_are_reported() {
    let mut events = up_to_build();
    events.push(received(Message::MissingPaths(chunk(&[]))));
    events.push(finished(false));
    let (session, actions) = run(plan(trusted(), false), events);
    let (_, ending) = session.step(ClientEvent::Closed);
    assert_eq!(failures(&ending), ["remote build failed"]);
    let ClientAction::Print { lines } = &actions[2] else {
        panic!("nothing was said");
    };
    assert_eq!(lines[0], "drv-thru: remote build failed");
    assert!(matches!(actions[3], ClientAction::Close));

    let mut events = up_to_build();
    events.push(received(Message::MissingPaths(chunk(&[]))));
    events.push(received(error_message("build timed out")));
    let (_, actions) = run(plan(trusted(), false), events);
    assert_eq!(failure(&actions), "build timed out");
}

#[test]
fn builds_that_cannot_be_closed_fail() {
    for success in [true, false] {
        let mut events = up_to_build();
        events.push(received(Message::MissingPaths(chunk(&[]))));
        events.push(finished(success));
        if success {
            events.push(received(Message::OutputClosure(chunk(&[OUT]))));
            events.push(ClientEvent::MissingFound {
                missing: Vec::new(),
            });
            events.push(received(Message::Done));
        }
        let (session, actions) = run(plan(trusted(), false), events);
        assert!(matches!(actions.last(), Some(ClientAction::Close)));
        let (session, actions) = session.step(ClientEvent::Failed {
            error: Error::of("lost"),
        });
        assert!(session.has_ended());
        assert_eq!(failures(&actions), ["lost"]);
    }
}

#[test]
fn missing_inputs_are_sent() {
    let mut events = up_to_build();
    events.push(received(Message::MissingPaths(chunk(&[OUT]))));
    events.push(received(Message::InputUploadReady));
    let (_, actions) = run(plan(trusted(), false), events);
    let ClientAction::Upload { paths, message } = &actions[1] else {
        panic!("nothing is sent");
    };
    assert_eq!(paths[0].as_str(), OUT);
    assert_eq!(message, "send 1 path");
}

#[test]
fn builders_can_say_anything() {
    let mut events = up_to_build();
    events.push(received(Message::Done));
    let (_, actions) = run(plan(trusted(), false), events);
    assert_eq!(failure(&actions), "unexpected server message: Shown");
    let (_, actions) = run(
        plan(trusted(), true),
        vec![resolved(), timed_out()],
    );
    assert_eq!(
        failures(&actions),
        ["connect timed out", "deadline has elapsed"]
    );
    let mut events = up_to_build();
    events.push(timed_out());
    let (_, actions) = run(plan(trusted(), false), events);
    assert_eq!(
        failures(&actions),
        ["read timed out", "deadline has elapsed"]
    );
}

#[test]
fn keys_and_addresses_of_a_client() {
    let id = new_id();
    let auth = BuildAuth::TrustedClient {
        server_id: id,
        relay_url: Some("https://relay.example/".to_string()),
    };
    assert_eq!(auth.server_addr().id(), id);
    assert_eq!(auth.server_addr().relay_urls().len(), 1);
    assert!(matches!(auth.message(), Message::AuthTrustedClient));
    assert!(matches!(auth.key_source(&None), KeySource::Default));
    let ticket = BuildTicket::generate(&EndpointAddr::new(id));
    let auth = BuildAuth::Ticket(ticket);
    assert_eq!(auth.server_addr().id(), id);
    assert!(matches!(auth.message(), Message::AuthTicket(_)));
    assert!(matches!(auth.key_source(&None), KeySource::Fresh));
    assert!(matches!(
        auth.key_source(&Some("/k".to_string())),
        KeySource::File { .. }
    ));
}

#[test]
fn summaries() {
    assert_eq!(path_word(1), "path");
    assert_eq!(path_word(2), "paths");
    let id = new_id();
    let text = id.to_text();
    assert_eq!(
        short_endpoint_id(&id),
        format!("{}...{}", &text[..8], &text[60..])
    );
    let summary = BuildSummary {
        server_id: id,
        installable: ".#a".to_string(),
        drv_path: "/d".to_string(),
        closure_path_count: 2,
        missing_path_count: 1,
        build_success: false,
        output_paths: Vec::new(),
        received_bytes: 15,
    };
    let lines = build_text(&summary);
    assert_eq!(
        build_text_with(&summary, "little")[9],
        "received     little (15 bytes)"
    );
    assert_eq!(lines[4], "drv          /d");
    assert_eq!(lines[5], "inputs       1 missing / 2 paths");
    assert_eq!(lines[7], "build        failed; see logs above");
    assert_eq!(lines[8], "outputs      0 paths");
    assert_eq!(lines[9], "received     15 B (15 bytes)");
    assert_eq!(local_outputs_text("x", &[])[4], "remote       skipped");
    assert_eq!(
        lines[8],
        format!("{:<12} {} {}", "outputs", 0, path_word(0))
    );
}

fn moment(now: u64) -> Moment<'static> {
    Moment {
        now,
        columns: Some("40"),
    }
}

#[test]
fn the_status_line() {
    let mut status = ClientStatus::new(true, 0);
    let written = status.phase("connecting".to_string(), &moment(1000));
    assert_eq!(written, "\rdrv-thru: connecting [00:00]");
    let written = status.draw(&moment(66_000));
    assert_eq!(written, format!("{CLEAR_LINE}\rdrv-thru: connecting [01:05]"));
    assert_eq!(status.suspend(), CLEAR_LINE);
    assert_eq!(status.suspend(), "");
    let (transfer, written) = status.transfer("send".to_string(), &moment(100_000));
    assert_eq!(written, "\rdrv-thru: send: 0 B (0 B/s) 00:00");
    assert_eq!(transfer.add_bytes(&mut status, 1000, &moment(100_050)), "");
    let written = transfer.add_bytes(&mut status, 500, &moment(102_000));
    assert_eq!(
        written,
        format!("{CLEAR_LINE}\rdrv-thru: send: 1.46 KiB (750 B/s) 00:…")
    );
    assert_eq!(transfer.bytes(&status), 1500);
    let written = transfer.message(&mut status, "s".to_string(), &moment(102_000));
    assert!(written.ends_with("drv-thru: s: 1.46 KiB (750 B/s) 00:02"));
    assert_eq!(transfer.finish_and_clear(&mut status), CLEAR_LINE);
    assert_eq!(transfer.bytes(&status), 1500);
    assert_eq!(status.clear_phase(), "");
}

#[test]
fn nobody_sees_a_status_line() {
    let mut status = ClientStatus::new(false, 0);
    assert_eq!(status.phase("x".to_string(), &moment(0)), "");
    let (transfer, written) = status.transfer("x".to_string(), &moment(0));
    assert_eq!(written, "");
    assert_eq!(transfer.add_bytes(&mut status, 9, &moment(1000)), "");
    assert_eq!(transfer.bytes(&status), 9);
}

#[test]
fn lines_fit_the_terminal() {
    assert_eq!(fit_line("abcdef", Some("7")), "abcdef");
    assert_eq!(fit_line("abcdef", Some("6")), "abcd…");
    assert_eq!(fit_line("abcdef", Some("0")), "…");
    assert_eq!(fit_line("abcdef", Some("x")), "abcdef");
    assert_eq!(fit_line(&"x".repeat(80), None).chars().count(), 79);
    assert_eq!(format_elapsed(3661), "1:01:01");
    assert_eq!(format_elapsed(59), "00:59");
    assert_eq!(
        transfer_line("send", "much", "fast", 61),
        "drv-thru: send: much (fast/s) 01:01"
    );
}
