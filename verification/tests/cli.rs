use drv_thru::cli::builders::{
    auth_of, builder_auth, collect_configs, config_paths, endpoint_file, endpoint_id_text, BuildersConfig, ReadConfig,
    SavedBuilder,
};
use drv_thru::cli::data_dir::{choose_data_dir, probe_path, user_data_dir};
use drv_thru::cli::status::{capacity_bar, format_duration, render};
use drv_thru::cli::tickets::{
    create_options, format_uses, inspect_ticket, list_tickets, parse_ticket_uses, reveal_ticket,
    show_record, ticket_record_status, TicketCreateArgs, DEFAULT_TICKET_EXPIRY,
};
use drv_thru::cli::{
    build_auth, check_nar_fetches, output_mode, serve_choice, AuthChoice, ServeChoice,
};
use drv_thru::client::BuildAuth;
use drv_thru::collections::StrMap;
use drv_thru::config::{
    parse_byte_count, parse_duration, DEFAULT_MAX_BUILD_TIME, DEFAULT_MAX_UPLOAD_BYTES,
};
use drv_thru::endpoint::{EndpointAddr, EndpointId};
use drv_thru::error::Error;
use drv_thru::proto::OutputMode;
use drv_thru::server::status::{
    ActiveBuildStatus, BuildResult, QueuedBuildStatus, RecentBuildStatus, ServerStatus,
    StatusSnapshot,
};
use drv_thru::ticket::{BuildTicket, TicketRecord};

fn new_id() -> EndpointId {
    EndpointId::from_bytes(*iroh::SecretKey::generate().public().as_bytes()).unwrap()
}

fn parse_config(json: &str) -> BuildersConfig {
    let value: serde_json::Value = serde_json::from_str(json).unwrap();
    let mut builders = StrMap::new();
    for (name, entry) in value["builders"].as_object().unwrap() {
        let text = |key: &str| entry[key].as_str().map(str::to_string);
        builders.insert(
            name.clone(),
            SavedBuilder {
                endpoint_id: text("endpoint_id"),
                endpoint_id_file: text("endpoint_id_file"),
                relay_url: text("relay_url"),
            },
        );
    }
    BuildersConfig { builders }
}

#[test]
fn resolves_named_builder_from_config() {
    let server_id = new_id();
    let config = parse_config(&format!(
        r#"{{"builders":{{"leviathan":{{"endpoint_id":"{}","relay_url":"https://use1-1.relay.n0.iroh.link./"}}}}}}"#,
        server_id.to_text()
    ));

    let BuildAuth::TrustedClient {
        server_id: resolved,
        relay_url,
    } = builder_auth("leviathan", &config, Ok(String::new())).unwrap_or_else(|_| panic!("refused"))
    else {
        panic!("expected trusted client auth");
    };

    assert_eq!(resolved, server_id);
    assert_eq!(
        relay_url.unwrap(),
        "https://use1-1.relay.n0.iroh.link./"
    );
}

#[test]
fn resolves_named_builder_endpoint_from_file() {
    let server_id = new_id();
    let config = parse_config(
        r#"{"builders":{"leviathan":{"endpoint_id_file":"/tmp/drv-thru-builder-endpoint"}}}"#,
    );
    assert_eq!(
        endpoint_file("leviathan", &config),
        Some("/tmp/drv-thru-builder-endpoint")
    );
    let content = format!("{}\n", server_id.to_text());

    let BuildAuth::TrustedClient {
        server_id: resolved,
        relay_url,
    } = builder_auth("leviathan", &config, Ok(content)).unwrap_or_else(|_| panic!("refused"))
    else {
        panic!("expected trusted client auth");
    };

    assert_eq!(resolved, server_id);
    assert_eq!(relay_url, None);
}

#[test]
fn rejects_unknown_named_builder() {
    let config = parse_config(r#"{"builders":{}}"#);
    let Err(err) = builder_auth("leviathan", &config, Ok(String::new())) else {
        panic!("accepted unknown builder");
    };
    assert!(err.message().contains("was not found"));
}

#[test]
fn user_builder_config_overrides_system_config() {
    let env_config = None;
    let paths = config_paths(env_config, None, Some("/home/alex"));

    assert_eq!(paths[0], "/etc/drv-thru/builders.json");
    assert!(paths.last().unwrap().ends_with("drv-thru/builders.json"));
    assert_eq!(paths[1], "/home/alex/.config/drv-thru/builders.json");
}

#[test]
fn later_builders_come_in_the_place_of_earlier_ones() {
    let first = parse_config(r#"{"builders":{"a":{"endpoint_id":"1"},"b":{"endpoint_id":"2"}}}"#);
    let second = parse_config(r#"{"builders":{"b":{"endpoint_id":"3"}}}"#);
    let paths = config_paths(None, Some("/x"), None);
    let all = collect_configs(
        &paths,
        vec![
            ReadConfig::Loaded { config: first },
            ReadConfig::Loaded { config: second },
        ],
        false,
    )
    .unwrap();
    assert_eq!(
        all.builders.get("b").unwrap().endpoint_id.as_deref(),
        Some("3")
    );
    assert_eq!(
        all.builders.get("a").unwrap().endpoint_id.as_deref(),
        Some("1")
    );
}

#[test]
fn builders_have_to_be_configured_somewhere() {
    let paths = config_paths(None, None, None);
    let missing = || ReadConfig::Missing {
        error: Error::of("no file"),
    };
    let err = collect_configs(&paths, vec![missing()], false).unwrap_err();
    assert!(err
        .message()
        .starts_with("builder config not found; checked /etc/drv-thru/builders.json; "));
    let err = collect_configs(&config_paths(Some("/b"), None, None), vec![missing()], true)
        .unwrap_err();
    assert_eq!(err.message(), "no file");
    let failed = ReadConfig::Failed {
        error: Error::of("parse x"),
    };
    assert!(collect_configs(&paths, vec![failed], false).is_err());
}

#[test]
fn says_what_is_wrong_with_a_builder() {
    let config = parse_config(
        r#"{"builders":{
            "both":{"endpoint_id":"a","endpoint_id_file":"b"},
            "none":{},
            "file":{"endpoint_id_file":"/f"},
            "bad":{"endpoint_id":"zz"},
            "empty":{"endpoint_id":""}
        }}"#,
    );
    let messages = |name: &str, file: Result<&str, Error>| {
        match builder_auth(name, &config, file.map(str::to_string)) {
            Ok(_) => panic!("accepted {name}"),
            Err(e) => e.messages(),
        }
    };
    let message = |name: &str| messages(name, Ok("")).remove(0);
    assert_eq!(
        message("both"),
        "builder both must set only one of endpoint_id or endpoint_id_file"
    );
    assert_eq!(
        message("none"),
        "builder none must set endpoint_id or endpoint_id_file"
    );
    assert_eq!(
        messages("file", Err(Error::of("Permission denied (os error 13)"))),
        [
            "read endpoint_id_file for builder file: /f",
            "Permission denied (os error 13)"
        ]
    );
    assert_eq!(
        messages("file", Ok("  \n")),
        ["endpoint id for builder file is empty"]
    );
    assert_eq!(
        messages("bad", Ok("")),
        [
            "parse endpoint id for builder bad".to_string(),
            "zz".parse::<iroh::EndpointId>().unwrap_err().to_string()
        ]
    );
    assert_eq!(message("empty"), "endpoint id for builder empty is empty");
    assert_eq!(
        message("x"),
        "builder 'x' was not found; configured builders: bad, both, empty, file, none"
    );
    let id = new_id().to_text();
    let config = parse_config(&format!(
        r#"{{"builders":{{"a":{{"endpoint_id":"{id}","relay_url":"no url"}}}}}}"#
    ));
    let Err(err) = builder_auth("a", &config, Ok(String::new())) else {
        panic!("accepted a bad relay");
    };
    assert_eq!(
        err.messages(),
        [
            "parse relay_url for builder a".to_string(),
            "no url".parse::<iroh::RelayUrl>().unwrap_err().to_string()
        ]
    );
}

fn snapshot() -> StatusSnapshot {
    StatusSnapshot {
        version: 1,
        server: ServerStatus {
            endpoint_id: "server-id".to_string(),
            configured_concurrency: 3,
            active_count: 1,
            queued_count: 1,
            recent_limit: 20,
            started_at_unix: 100,
            updated_at_unix: 110,
        },
        queued: vec![QueuedBuildStatus {
            request_id: "build-2".to_string(),
            client_label: "ticket:friend".to_string(),
            installable: ".#demo".to_string(),
            queued_at_unix: 100,
            queued_for_seconds: 10,
            position: 1,
        }],
        active: vec![ActiveBuildStatus {
            request_id: "build-1".to_string(),
            client_label: "client:alex".to_string(),
            installable: ".#demo".to_string(),
            phase: "building".to_string(),
            queued_at_unix: 90,
            started_at_unix: 100,
            elapsed_seconds: 10,
        }],
        recent: vec![RecentBuildStatus {
            request_id: "build-0".to_string(),
            client_label: "client:alex".to_string(),
            installable: ".#old".to_string(),
            result: BuildResult::Success,
            queued_at_unix: 1,
            started_at_unix: Some(2),
            finished_at_unix: 3,
            duration_seconds: Some(1),
            short_error: None,
        }],
    }
}

#[test]
fn renders_live_status_without_recent_builds() {
    let output = render(&snapshot(), 110);

    assert!(output.contains("capacity: [#..] active 1/3, queued 1"));
    assert!(output.contains("active"));
    assert!(output.contains("queued"));
    assert!(!output.contains("build-0"));
    assert!(!output.contains(".#old"));
}

#[test]
fn renders_every_line_of_a_status() {
    assert_eq!(
        render(&snapshot(), 165),
        "server: server-id\n\
         capacity: [#..] active 1/3, queued 1\n\
         \nactive\n\
         \u{20}\u{20}build-1 client:alex building elapsed 1m05s\n\
         \u{20}\u{20}\u{20}\u{20}\u{20}\u{20}\u{20}.#demo\n\
         \nqueued\n\
         \u{20}\u{20}\u{20}1. build-2 ticket:friend waiting 1m05s\n\
         \u{20}\u{20}\u{20}\u{20}\u{20}\u{20}\u{20}.#demo\n"
    );
    let mut idle = snapshot();
    idle.active.clear();
    idle.queued.clear();
    assert!(render(&idle, 0).ends_with("\nidle\n"));
}

#[test]
fn renders_capacity_bar() {
    assert_eq!(capacity_bar(0, 3), "[...]");
    assert_eq!(capacity_bar(2, 3), "[##.]");
    assert_eq!(capacity_bar(5, 3), "[###]");
    assert_eq!(capacity_bar(0, 0), "[.]");
}

#[test]
fn renders_durations() {
    assert_eq!(format_duration(59), "59s");
    assert_eq!(format_duration(60), "1m00s");
    assert_eq!(format_duration(3599), "59m59s");
    assert_eq!(format_duration(3600), "1h00m");
    assert_eq!(format_duration(90061), "25h01m");
}

#[test]
fn options_for_builders_exclude_each_other() {
    let id = new_id();
    let ticket = || BuildTicket::generate(&EndpointAddr::new(id));
    let url = || Some("https://relay.example/".to_string());
    let message = |r: Result<AuthChoice, Error>| match r {
        Ok(_) => panic!("accepted"),
        Err(e) => e.message(),
    };
    assert_eq!(
        message(build_auth(Some("a".to_string()), Some(id), None, None)),
        "--builder cannot be used with --server, --relay-url, or --ticket"
    );
    assert_eq!(
        message(build_auth(None, None, url(), Some(ticket()))),
        "--relay-url cannot be used with --ticket"
    );
    assert_eq!(
        message(build_auth(None, None, url(), None)),
        "--relay-url requires --server"
    );
    assert_eq!(
        message(build_auth(None, Some(id), None, Some(ticket()))),
        "--server and --ticket cannot be used together"
    );
    assert!(matches!(
        build_auth(None, Some(id), url(), None),
        Ok(AuthChoice::Given {
            auth: BuildAuth::TrustedClient { .. }
        })
    ));
    assert!(matches!(
        build_auth(None, None, None, Some(ticket())),
        Ok(AuthChoice::Given {
            auth: BuildAuth::Ticket(_)
        })
    ));
    assert!(matches!(
        build_auth(Some("a".to_string()), None, None, None),
        Ok(AuthChoice::Named { .. })
    ));
    assert!(matches!(
        build_auth(None, None, None, None),
        Ok(AuthChoice::Nobody)
    ));
}

#[test]
fn options_for_serving_exclude_each_other() {
    let dir = || Some("/d".to_string());
    let config = || Some("/c".to_string());
    assert!(matches!(
        serve_choice(dir(), None, vec![new_id()]),
        Ok(ServeChoice::DataDir { .. })
    ));
    assert!(matches!(
        serve_choice(None, config(), Vec::new()),
        Ok(ServeChoice::Config { .. })
    ));
    assert!(serve_choice(dir(), config(), Vec::new()).is_err());
    assert!(serve_choice(None, config(), vec![new_id()]).is_err());
    assert!(check_nar_fetches(Some(0)).is_err());
    assert!(check_nar_fetches(Some(1)).is_ok());
    assert_eq!(output_mode(true), OutputMode::Plain);
    assert_eq!(output_mode(false), OutputMode::Nom);
}

#[test]
fn data_directories() {
    assert_eq!(
        choose_data_dir(Some("/given".to_string()), true, None, None).unwrap(),
        "/given"
    );
    assert_eq!(
        choose_data_dir(None, true, None, None).unwrap(),
        "/var/lib/drv-thru"
    );
    assert_eq!(
        choose_data_dir(None, false, Some("/state"), Some("/home/a")).unwrap(),
        "/state/drv-thru"
    );
    assert_eq!(
        user_data_dir(None, Some("/home/a")).unwrap(),
        "/home/a/.local/state/drv-thru"
    );
    assert!(user_data_dir(None, None).is_err());
    assert_eq!(probe_path("/d", 7), "/d/.access-check-7");
}

#[test]
fn uses_of_a_ticket() {
    assert_eq!(parse_ticket_uses(None, false).unwrap(), Some(1));
    assert_eq!(parse_ticket_uses(None, true).unwrap(), None);
    assert_eq!(parse_ticket_uses(Some("UNLIMITED"), false).unwrap(), None);
    assert_eq!(parse_ticket_uses(Some("3"), false).unwrap(), Some(3));
    assert!(parse_ticket_uses(Some("3"), true).is_err());
    assert!(parse_ticket_uses(Some("0"), false).is_err());
    assert_eq!(
        parse_ticket_uses(Some("many"), false).unwrap_err().messages(),
        [
            "parse --uses many".to_string(),
            "many".parse::<u64>().unwrap_err().to_string()
        ]
    );
    assert_eq!(format_uses(None), "unlimited");
    assert_eq!(format_uses(Some(2)), "2");
}

fn record() -> TicketRecord {
    TicketRecord {
        created_at_unix: 1,
        name: None,
        expires_at_unix: 100,
        uses_remaining: Some(1),
        max_build_time: "30m".to_string(),
        max_upload_bytes: "20G".to_string(),
        bound_client: None,
        revoked: false,
        encoded_ticket: "drvthruabc".to_string(),
    }
}

#[test]
fn tickets_are_listed_with_their_status() {
    assert_eq!(ticket_record_status(&record(), 99), "active");
    assert_eq!(ticket_record_status(&record(), 100), "expired");
    let used = TicketRecord {
        uses_remaining: Some(0),
        ..record()
    };
    assert_eq!(ticket_record_status(&used, 0), "exhausted");
    let revoked = TicketRecord {
        revoked: true,
        ..record()
    };
    assert_eq!(ticket_record_status(&revoked, 0), "revoked");
    assert_eq!(list_tickets(&[], 0), ["no tickets"]);
    assert_eq!(
        list_tickets(&[("id1".to_string(), record())], 0),
        [
            "id\tname\tstatus\tuses\texpires_unix\tbound_client",
            "id1\t-\tactive\t1\t100\t-"
        ]
    );
}

#[test]
fn tickets_have_defaults() {
    let options = create_options(TicketCreateArgs {
        name: None,
        bind_client: None,
        expires: DEFAULT_TICKET_EXPIRY.to_string(),
        uses: None,
        unlimited: false,
        max_build_time: DEFAULT_MAX_BUILD_TIME.to_string(),
        max_upload_bytes: DEFAULT_MAX_UPLOAD_BYTES.to_string(),
    })
    .unwrap_or_else(|_| panic!("refused"));
    assert_eq!(options.expires_after, 2 * 60 * 60);
    assert_eq!(options.uses_remaining, Some(1));
    assert_eq!(parse_duration(&options.max_build_time).ok(), Some(30 * 60));
    assert_eq!(
        parse_byte_count(&options.max_upload_bytes).ok(),
        Some(20 * 1024 * 1024 * 1024)
    );
}

#[test]
fn only_revealing_gives_a_ticket_away() {
    let other = TicketRecord {
        encoded_ticket: "drvthruxyz".to_string(),
        ..record()
    };
    assert_eq!(
        list_tickets(&[("id1".to_string(), record())], 0),
        list_tickets(&[("id1".to_string(), other.clone())], 0)
    );
    assert_eq!(show_record(&record()), show_record(&other));
    assert_eq!(reveal_ticket("id1", Some(record())).ok().unwrap(), "drvthruabc");
    assert_eq!(
        reveal_ticket("id2", None).err().unwrap().messages(),
        ["ticket not found: id2"]
    );
}

#[test]
fn tickets_are_inspected() {
    let secret = iroh::SecretKey::generate();
    let id = new_id();
    let ticket = BuildTicket::with_secret(EndpointAddr::new(id), secret.to_bytes());
    let lines = inspect_ticket(&ticket, "drvthruabc", &["1.2.3.4:5".to_string()], None);
    assert_eq!(
        lines,
        [
            "ticket: drvthruabc".to_string(),
            format!("ticket id: {}", secret.public()),
            format!("server endpoint id: {}", id.to_text()),
            "server direct addr: 1.2.3.4:5".to_string(),
            "store: ticket record not found".to_string(),
        ]
    );
    let lines = inspect_ticket(&ticket, "x", &[], Some(&record()));
    assert_eq!(lines[3], "name: <none>");
    assert_eq!(lines.last().unwrap(), "revoked: false");
}

fn create_args() -> TicketCreateArgs {
    TicketCreateArgs {
        name: Some("friend".to_string()),
        bind_client: None,
        expires: "2h".to_string(),
        uses: None,
        unlimited: false,
        max_build_time: "30m".to_string(),
        max_upload_bytes: "20G".to_string(),
    }
}

#[test]
fn new_tickets_are_read_from_the_command_line() {
    let options = create_options(create_args()).unwrap_or_else(|_| panic!("refused"));
    assert_eq!(options.expires_after, 7200);
    assert_eq!(options.uses_remaining, Some(1));
    let message = |args: TicketCreateArgs| match create_options(args) {
        Ok(_) => panic!("accepted"),
        Err(e) => e.messages(),
    };
    let messages = message(TicketCreateArgs {
        expires: "soon".to_string(),
        ..create_args()
    });
    assert_eq!(messages[0], "parse --expires soon");
    assert_eq!(messages.len(), 2);
    let messages = message(TicketCreateArgs {
        max_build_time: "1d".to_string(),
        ..create_args()
    });
    assert_eq!(messages[0], "parse --max-build-time 1d");
    let messages = message(TicketCreateArgs {
        max_upload_bytes: "1X".to_string(),
        ..create_args()
    });
    assert_eq!(messages[0], "parse --max-upload-bytes 1X");
}

#[test]
fn builders_are_put_together_from_what_was_read() {
    let id = EndpointId::of_secret(&[1; 32]);
    let Ok(BuildAuth::TrustedClient { server_id, relay_url }) =
        auth_of("a", Ok(id), Some(Ok("https://relay.example/".to_string())))
    else {
        panic!("refused");
    };
    assert_eq!(server_id, id);
    assert_eq!(relay_url.as_deref(), Some("https://relay.example/"));
    let messages = |id, url| match auth_of("a", id, url) {
        Ok(_) => panic!("accepted"),
        Err(err) => err.messages(),
    };
    let why = || "why".to_string();
    assert_eq!(
        messages(Err(why()), None),
        ["parse endpoint id for builder a", "why"]
    );
    assert_eq!(
        messages(Ok(id), Some(Err(why()))),
        ["parse relay_url for builder a", "why"]
    );
    assert!(auth_of("a", Ok(id), None).is_ok());

    let builder = SavedBuilder {
        endpoint_id: None,
        endpoint_id_file: Some("/f".to_string()),
        relay_url: None,
    };
    assert_eq!(endpoint_id_text("a", &builder, Ok(" me\n".to_string())).unwrap(), "me");
    assert_eq!(
        endpoint_id_text("a", &builder, Ok("\n".to_string())).unwrap_err().message(),
        "endpoint id for builder a is empty"
    );
    assert_eq!(
        endpoint_id_text("a", &builder, Err(Error::of("gone"))).unwrap_err().messages(),
        ["read endpoint_id_file for builder a: /f", "gone"]
    );
}
