use std::collections::VecDeque;

use drv_thru::access::AccessPolicy;
use drv_thru::client::session::{BuildPlan, ClientAction, ClientEvent, ClientSession};
use drv_thru::client::BuildAuth;
use drv_thru::endpoint::{EndpointAddr, EndpointId};
use drv_thru::nix::commands::RealiseResult;
use drv_thru::nix::StorePath;
use drv_thru::proto::{Incoming, Message, NixLog, OutputMode};
use drv_thru::server::connection::{Action, Handshake, HandshakeEvent};
use drv_thru::server::queued::{BuildEvent, QueuedBuild};
use drv_thru::server::status::BuildResult;
use drv_thru::ticket::{BuildTicket, CreateTicket, TicketState, TicketStore};

const DRV: &str = "/nix/store/00000000000000000000000000000000-a.drv";
const OUT: &str = "/nix/store/11111111111111111111111111111111-a";
const LIB: &str = "/nix/store/22222222222222222222222222222222-lib";

fn new_id() -> EndpointId {
    EndpointId::from_bytes(*iroh::SecretKey::generate().public().as_bytes()).unwrap()
}

fn paths(list: &[&str]) -> Vec<StorePath> {
    list.iter().map(|path| StorePath::new(path).unwrap()).collect()
}

fn texts(list: &[StorePath]) -> Vec<String> {
    list.iter().map(|path| path.as_str().to_string()).collect()
}

fn incoming(message: Message) -> Incoming {
    Incoming {
        message,
        shown: "Shown".to_string(),
    }
}

enum Builder {
    Door(Handshake),
    Build(QueuedBuild),
}

/// A client and a builder, and what is on its way between them.
struct World {
    peer: EndpointId,
    policy: AccessPolicy,
    store: TicketStore,
    tickets: TicketState,
    missing: Vec<&'static str>,
    wanted: Vec<&'static str>,
    log: Vec<&'static str>,
    to_client: VecDeque<Message>,
    to_builder: VecDeque<Message>,
    uploaded: Vec<String>,
    imported: Vec<String>,
    logged: Vec<String>,
    told: Vec<String>,
    success: Option<bool>,
    noted: Option<BuildResult>,
}

impl World {
    fn client_does(&mut self, action: ClientAction) -> Option<ClientEvent> {
        match action {
            ClientAction::ResolveOutputs => Some(ClientEvent::OutputsResolved {
                paths: paths(&[OUT]),
            }),
            ClientAction::FindMissing { paths: asked } => Some(ClientEvent::MissingFound {
                missing: if asked.len() == 1 {
                    asked
                } else {
                    paths(&self.wanted)
                },
            }),
            ClientAction::Connect { .. } => Some(ClientEvent::Connected {
                node_id: self.peer.to_text(),
            }),
            ClientAction::Send { messages } => {
                self.to_builder.extend(messages);
                None
            }
            ClientAction::CheckTrust { builder_public_key } => {
                assert_eq!(builder_public_key, "drv-thru:key");
                Some(ClientEvent::TrustChecked)
            }
            ClientAction::ResolveDerivation => Some(ClientEvent::DerivationResolved {
                drv_path: StorePath::new(DRV).unwrap(),
            }),
            ClientAction::FindClosure { .. } => Some(ClientEvent::ClosureFound {
                closure: paths(&[LIB, DRV]),
            }),
            ClientAction::Upload { paths, .. } => {
                self.uploaded = texts(&paths);
                Some(ClientEvent::Uploaded)
            }
            ClientAction::Import { copy_paths, .. } => {
                self.imported = texts(&copy_paths);
                Some(ClientEvent::Imported { result: Ok(7) })
            }
            ClientAction::Print { lines } => {
                self.told = lines;
                None
            }
            ClientAction::Log { line } => {
                self.logged.push(line);
                None
            }
            ClientAction::Close => Some(ClientEvent::Closed),
            ClientAction::Succeed => {
                self.success = Some(true);
                None
            }
            ClientAction::Fail { .. } => {
                self.success = Some(false);
                None
            }
            _ => None,
        }
    }

    fn door_does(&mut self, action: Action) -> Option<HandshakeEvent> {
        match action {
            Action::Send { message } => {
                self.to_client.push_back(message);
                None
            }
            Action::CheckTicket { secret } => Some(HandshakeEvent::TicketChecked {
                checked: self.store.check(&self.tickets, &secret, &self.peer, 1),
            }),
            Action::RedeemTicket { secret } => Some(HandshakeEvent::TicketRedeemed {
                redeemed: self.store.redeem(&mut self.tickets, &secret, &self.peer, 1),
            }),
            Action::Close => Some(HandshakeEvent::Performed),
            _ => None,
        }
    }

    fn build_does(&mut self, action: Action) -> Option<BuildEvent> {
        match action {
            Action::Send { message } => {
                let last = matches!(message, Message::Done);
                self.to_client.push_back(message);
                if last {
                    Some(BuildEvent::Performed)
                } else {
                    None
                }
            }
            Action::Acquire => Some(BuildEvent::Permitted),
            Action::FindMissing { .. } => Some(BuildEvent::InputsChecked {
                missing: paths(&self.missing),
            }),
            Action::ReceiveUpload { .. } => Some(BuildEvent::Uploaded {
                still_missing: Vec::new(),
            }),
            Action::Realise { .. } => {
                for line in &self.log {
                    self.to_client.push_back(Message::NixLog(NixLog {
                        line: line.to_string(),
                    }));
                }
                Some(BuildEvent::Realised {
                    result: RealiseResult {
                        success: true,
                        output_paths: paths(&[OUT]),
                    },
                })
            }
            Action::FindClosure { .. } => Some(BuildEvent::ClosureFound {
                closure: paths(&[OUT, LIB]),
            }),
            Action::FinishServing => Some(BuildEvent::Served),
            Action::Finish { result, .. } => {
                self.noted = Some(result);
                None
            }
            Action::Close => Some(BuildEvent::Performed),
            _ => None,
        }
    }

    fn door(&mut self, mut door: Handshake, event: HandshakeEvent) -> Builder {
        let mut events = VecDeque::from([event]);
        while let Some(event) = events.pop_front() {
            let (next, actions) = door.step(event, &self.peer, &self.policy, "drv-thru:key");
            door = next;
            for action in actions {
                events.extend(self.door_does(action));
            }
        }
        let Handshake::Accepted { authorized, build } = door else {
            return Builder::Door(door);
        };
        let (mut build, actions) = QueuedBuild::new(authorized, build);
        for action in actions {
            if let Some(event) = self.build_does(action) {
                build = self.build(build, event);
            }
        }
        Builder::Build(build)
    }

    fn build(&mut self, mut build: QueuedBuild, event: BuildEvent) -> QueuedBuild {
        let mut events = VecDeque::from([event]);
        while let Some(event) = events.pop_front() {
            let (next, actions) = build.step(event);
            build = next;
            for action in actions {
                events.extend(self.build_does(action));
            }
        }
        build
    }

    fn client(&mut self, mut session: ClientSession, event: ClientEvent) -> ClientSession {
        let mut events = VecDeque::from([event]);
        while let Some(event) = events.pop_front() {
            let (next, actions) = session.step(event);
            session = next;
            for action in actions {
                events.extend(self.client_does(action));
            }
        }
        session
    }

    fn run(&mut self, auth: BuildAuth) {
        let (mut session, actions) = ClientSession::new(BuildPlan {
            installable: ".#a".to_string(),
            auth: Some(auth),
            key_file: None,
            output_mode: OutputMode::Plain,
            rebuild: false,
        });
        let (door, _) = Handshake::new();
        let mut builder = Builder::Door(door);
        for action in actions {
            if let Some(event) = self.client_does(action) {
                session = self.client(session, event);
            }
        }
        loop {
            if let Some(message) = self.to_builder.pop_front() {
                let incoming = incoming(message);
                builder = match builder {
                    Builder::Door(door) => self.door(door, HandshakeEvent::Received { incoming }),
                    Builder::Build(build) => {
                        Builder::Build(self.build(build, BuildEvent::Received { incoming }))
                    }
                };
            } else if let Some(message) = self.to_client.pop_front() {
                let incoming = incoming(message);
                session = self.client(session, ClientEvent::Received { incoming });
            } else {
                break;
            }
        }
    }
}

fn world(peer: EndpointId, trusted: Vec<EndpointId>) -> World {
    World {
        peer,
        policy: AccessPolicy::from_endpoint_ids(trusted),
        store: TicketStore::new("/d"),
        tickets: TicketState::default(),
        missing: Vec::new(),
        wanted: Vec::new(),
        log: Vec::new(),
        to_client: VecDeque::new(),
        to_builder: VecDeque::new(),
        uploaded: Vec::new(),
        imported: Vec::new(),
        logged: Vec::new(),
        told: Vec::new(),
        success: None,
        noted: None,
    }
}

fn trusted() -> BuildAuth {
    BuildAuth::TrustedClient {
        server_id: new_id(),
        relay_url: None,
    }
}

#[test]
fn trusted_clients_get_their_outputs() {
    let peer = new_id();
    let mut world = world(peer, vec![peer]);
    world.missing = vec![LIB, DRV];
    world.wanted = vec![OUT, LIB, OUT];
    world.log = vec!["unpacking", "building"];
    world.run(trusted());
    assert_eq!(world.success, Some(true));
    assert_eq!(world.logged, ["unpacking", "building"]);
    assert!(matches!(world.noted, Some(BuildResult::Success)));
    assert_eq!(world.uploaded, [LIB, DRV]);
    assert_eq!(world.imported, [OUT, LIB]);
    assert_eq!(world.told[0], "drv-thru: build complete");
}

#[test]
fn nothing_is_moved_that_is_there() {
    let peer = new_id();
    let mut world = world(peer, vec![peer]);
    world.run(trusted());
    assert_eq!(world.success, Some(true));
    assert!(matches!(world.noted, Some(BuildResult::Success)));
    assert!(world.uploaded.is_empty());
    assert!(world.imported.is_empty());
}

#[test]
fn tickets_bring_outputs_as_often_as_they_say() {
    let ticket = BuildTicket::generate(&EndpointAddr::new(new_id()));
    let mut world = world(new_id(), Vec::new());
    world.wanted = vec![OUT];
    let options = CreateTicket {
        name: None,
        bound_client: None,
        expires_after: 60,
        uses_remaining: Some(1),
        max_build_time: "30m".to_string(),
        max_upload_bytes: "2K".to_string(),
    };
    world
        .store
        .create(&mut world.tickets, &ticket, "x".to_string(), options, 0)
        .unwrap();
    let secret = ticket.secret();
    let addr = EndpointAddr::new(ticket.addr().id());
    world.run(BuildAuth::Ticket(ticket));
    assert_eq!(world.success, Some(true));
    assert!(matches!(world.noted, Some(BuildResult::Success)));
    assert_eq!(world.imported, [OUT]);

    world.success = None;
    world.noted = None;
    world.run(BuildAuth::Ticket(BuildTicket::with_secret(addr, secret)));
    assert_eq!(world.success, Some(false));
    assert!(world.noted.is_none());
}

#[test]
fn strangers_get_nothing() {
    let mut world = world(new_id(), vec![new_id()]);
    world.missing = vec![LIB];
    world.run(trusted());
    assert_eq!(world.success, Some(false));
    assert!(world.noted.is_none());
    assert!(world.uploaded.is_empty());
}
