use drv_thru::client_cache::import::{ImportAction, ImportEvent, ImportPlan, OutputImport};
use drv_thru::client_cache::local_server::{
    answer_file, answer_request, http_head, parse_http_request, HttpMethod, HttpReader,
    HttpRequest, LocalAnswer,
};
use drv_thru::client_cache::mirror::{
    archive_to_fetch, auto_parallel_nar_fetches, check_metadata_size, metadata_missing,
    parallel_nar_fetches, payload_missing, plan_mirror, DEFAULT_PARALLEL_NAR_FETCHES, MAX_AUTO_PARALLEL_NAR_FETCHES,
};
use drv_thru::client_cache::{
    cache_bridge_status_error, cache_file_request, choose_output_import_method, import_result,
    progress_count, read_file_reply, CacheProgress, OutputImportMethod,
};
use drv_thru::error::Error;
use drv_thru::import_helper::{HelperSocketStatus, DEFAULT_SOCKET_PATH};
use drv_thru::nix::commands::SignedCacheImportTrust;
use drv_thru::nix::StorePath;
use drv_thru::proto::{error_message, CacheFileResponse, Incoming, Message};
use drv_thru::server::output_cache::narinfo_path_for_store_path;

#[test]
fn trusted_user_uses_direct_nix_copy() {
    assert_eq!(
        choose_output_import_method(
            Ok(SignedCacheImportTrust::CanPassPublicKey),
            HelperSocketStatus::Missing,
        )
        .unwrap(),
        OutputImportMethod::Direct(SignedCacheImportTrust::CanPassPublicKey)
    );
}

#[test]
fn globally_trusted_builder_key_uses_direct_nix_copy_without_restricted_options() {
    assert_eq!(
        choose_output_import_method(
            Ok(SignedCacheImportTrust::KeyAlreadyTrusted),
            HelperSocketStatus::Missing,
        )
        .unwrap(),
        OutputImportMethod::Direct(SignedCacheImportTrust::KeyAlreadyTrusted)
    );
}

#[test]
fn untrusted_user_with_helper_socket_uses_helper() {
    assert_eq!(
        choose_output_import_method(
            Err("setup required".to_string()),
            HelperSocketStatus::Available,
        )
        .unwrap(),
        OutputImportMethod::Helper
    );
}

#[test]
fn untrusted_user_without_helper_socket_gets_clear_failure() {
    let err = choose_output_import_method(
        Err("setup required".to_string()),
        HelperSocketStatus::Missing,
    )
    .expect_err("expected setup failure");

    assert!(err.contains("This client cannot import outputs"));
    assert!(err.contains("No drv-thru import helper socket was found"));
    assert!(err.contains("services.drv-thru.client.ticketHelper.enable = true"));
    assert!(err.contains("services.drv-thru.client.trustedBuilders.<name>.publicKey"));
    assert!(err.contains("nix run github:adeci/drv-thru#drv-thru"));
}

#[test]
fn untrusted_user_with_inaccessible_helper_gets_group_hint() {
    let err = choose_output_import_method(
        Err("setup required".to_string()),
        HelperSocketStatus::Inaccessible("permission denied".to_string()),
    )
    .expect_err("expected setup failure");

    assert!(err.contains("could not be inspected: permission denied"));
    assert!(err.contains("extraGroups = [ \"drv-thru\" ]"));
    assert!(err.contains("log out and back in"));
}

#[test]
fn auto_parallel_nar_fetches_clamps_to_sane_bounds() {
    assert_eq!(auto_parallel_nar_fetches(1), DEFAULT_PARALLEL_NAR_FETCHES);
    assert_eq!(auto_parallel_nar_fetches(16), 16);
    assert_eq!(
        auto_parallel_nar_fetches(128),
        MAX_AUTO_PARALLEL_NAR_FETCHES
    );
}

#[test]
fn maps_store_path_to_narinfo_path() {
    let path = StorePath::new("/nix/store/00000000000000000000000000000000-hello").unwrap();

    assert_eq!(
        narinfo_path_for_store_path(&path),
        "00000000000000000000000000000000.narinfo"
    );
}

#[test]
fn fetches_are_configured_somewhere() {
    assert_eq!(parallel_nar_fetches(Some(3), Some("9"), Some(1)).unwrap(), 3);
    assert_eq!(parallel_nar_fetches(None, Some("9"), Some(1)).unwrap(), 9);
    assert_eq!(parallel_nar_fetches(None, None, Some(20)).unwrap(), 20);
    assert_eq!(parallel_nar_fetches(None, None, None).unwrap(), 8);
    assert_eq!(
        parallel_nar_fetches(None, Some("x"), None).unwrap_err().messages(),
        [
            "parse DRV_THRU_NAR_FETCHES=x".to_string(),
            "x".parse::<usize>().unwrap_err().to_string()
        ]
    );
    assert_eq!(
        parallel_nar_fetches(None, Some(""), None).unwrap_err().messages(),
        [
            "parse DRV_THRU_NAR_FETCHES=".to_string(),
            "".parse::<usize>().unwrap_err().to_string()
        ]
    );
    assert_eq!(
        parallel_nar_fetches(None, Some("0"), None).unwrap_err().message(),
        "DRV_THRU_NAR_FETCHES must be at least 1"
    );
}

#[test]
fn archives_are_fetched_for_what_is_copied() {
    let a = StorePath::new("/nix/store/00000000000000000000000000000000-a").unwrap();
    let b = StorePath::new("/nix/store/11111111111111111111111111111111-b").unwrap();
    let plan = plan_mirror(&[a.clone(), b.clone()], &[b]);
    assert_eq!(plan.len(), 2);
    assert!(!plan[0].with_archive);
    assert!(plan[1].with_archive);
    assert_eq!(plan[0].narinfo_path, narinfo_path_for_store_path(&a));
    let narinfo = b"URL: nar/x.nar\n";
    assert_eq!(
        archive_to_fetch(true, narinfo).unwrap().as_deref(),
        Some("nar/x.nar")
    );
    assert_eq!(archive_to_fetch(false, narinfo).unwrap(), None);
    assert!(check_metadata_size(1024 * 1024, "x").is_ok());
    assert_eq!(
        check_metadata_size(1024 * 1024 + 1, "x").unwrap_err().message(),
        "cache metadata too large: 1048577 bytes for x"
    );
}

#[test]
fn progress_counts_each_file_once() {
    let mut progress = CacheProgress::new(2, 1, 8);
    assert_eq!(progress.message(), "cache metadata 0/2, payloads 0/1, nar 8x");
    progress.record_cache_file("a.narinfo", true);
    progress.record_cache_file("a.narinfo", true);
    progress.record_cache_file("nar/a.nar", false);
    progress.record_cache_file("nar/a.nar", true);
    assert_eq!(progress.message(), "cache metadata 1/2, payloads 1/1, nar 8x");
    assert_eq!(progress_count(3, 0), "3");
}

#[test]
fn failures_of_an_import_are_not_hidden() {
    let e = |text: &str| Err(Error::of(text));
    assert_eq!(import_result(Ok(()), Ok(()), Ok(()), 7).unwrap(), 7);
    assert_eq!(
        import_result(e("copy"), Ok(()), e("mirror"), 7).unwrap_err().messages(),
        ["copy"]
    );
    assert_eq!(
        import_result(Ok(()), e("server"), e("mirror"), 7).unwrap_err().messages(),
        ["server"]
    );
    assert_eq!(
        import_result(e("copy"), e("cache bridge returned 404 x"), Ok(()), 7)
            .unwrap_err()
            .messages(),
        ["cache bridge returned 404 x", "copy"]
    );
    assert!(cache_bridge_status_error(&Error::of("cache bridge returned 502")));
    assert!(!cache_bridge_status_error(&Error::of("cache bridge returned 500")));
}

fn incoming(message: Message) -> Incoming {
    Incoming {
        message,
        shown: "Shown".to_string(),
    }
}

#[test]
fn replies_about_files() {
    let reply = |found, byte_count| {
        read_file_reply(incoming(Message::CacheFileResponse(CacheFileResponse {
            found,
            byte_count,
        })))
    };
    assert_eq!(reply(true, 5).unwrap(), Some(5));
    assert_eq!(reply(false, 5).unwrap(), None);
    assert_eq!(
        read_file_reply(incoming(error_message("oops"))).unwrap_err().message(),
        "oops"
    );
    assert_eq!(
        read_file_reply(incoming(Message::Done)).unwrap_err().message(),
        "unexpected cache response: Shown"
    );
    assert!(matches!(
        cache_file_request("nar/x.nar", true),
        Message::CacheFileRequest(_)
    ));
}

#[test]
fn http_requests_are_read() {
    let request = parse_http_request(b"GET /nix-cache-info HTTP/1.1\r\nHost: x\r\n\r\n").unwrap();
    assert_eq!(request.method, HttpMethod::Get);
    assert_eq!(request.target, "/nix-cache-info");
    let message = |bytes: &[u8]| parse_http_request(bytes).unwrap_err().message();
    assert_eq!(message(b""), "HTTP request missing line");
    assert_eq!(message(b"\r\n\r\n"), "HTTP request missing method");
    assert_eq!(message(b"GET\r\n"), "HTTP request missing target");
    assert_eq!(message(b"GET /\r\n"), "HTTP request missing version");
    assert_eq!(message(b"GET / HTTP/2\r\n"), "invalid HTTP request line");
    assert_eq!(message(b"GET / HTTP/1.1 x\r\n"), "invalid HTTP request line");
    assert_eq!(
        parse_http_request(&[0xff]).unwrap_err().messages(),
        [
            "HTTP request was not UTF-8".to_string(),
            String::from_utf8(vec![0xff]).unwrap_err().to_string()
        ]
    );
}

#[test]
fn http_requests_come_in_pieces() {
    let mut reader = HttpReader::new();
    assert!(reader.feed(b"HEAD /nar/x.nar HT").unwrap().is_none());
    assert!(reader.feed(b"TP/1.0\r\n\r").unwrap().is_none());
    let request = reader.feed(b"\n").unwrap().unwrap();
    assert_eq!(request.method, HttpMethod::Head);
    assert_eq!(request.target, "/nar/x.nar");
    let mut reader = HttpReader::new();
    assert_eq!(
        reader.feed(b"").unwrap_err().message(),
        "HTTP request closed before headers"
    );
    let mut reader = HttpReader::new();
    assert_eq!(
        reader.feed(&[b'x'; 16 * 1024 + 1]).unwrap_err().message(),
        "HTTP request headers too large"
    );
}

#[test]
fn http_requests_are_answered() {
    let answer = |method, target: &str| {
        answer_request(
            "/cache",
            &HttpRequest {
                method,
                target: target.to_string(),
            },
        )
    };
    assert!(matches!(
        answer(HttpMethod::Other, "/nix-cache-info"),
        LocalAnswer::Head { code: 405 }
    ));
    assert!(matches!(
        answer(HttpMethod::Get, "/../x"),
        LocalAnswer::Head { code: 400 }
    ));
    let LocalAnswer::File {
        file_path,
        path,
        body,
    } = answer(HttpMethod::Head, "/nar/x.nar?a=b")
    else {
        panic!("refused a cache path");
    };
    assert_eq!(file_path, "/cache/nar/x.nar");
    assert_eq!(path, "nar/x.nar");
    assert!(!body);
    assert_eq!(
        answer_file("nar/x.nar", None),
        (
            "HTTP/1.1 404 Not Found\r\nContent-Length: 32\r\nContent-Type: application/octet-stream\r\nConnection: close\r\n\r\ncache file not found: nar/x.nar\n".to_string(),
            false
        )
    );
    assert_eq!(
        answer_file("x", Some(5)).0,
        "HTTP/1.1 200 OK\r\nContent-Length: 5\r\nContent-Type: application/octet-stream\r\nConnection: close\r\n\r\n"
    );
    assert!(http_head(405, 0).starts_with("HTTP/1.1 405 Method Not Allowed\r\n"));
    assert!(http_head(400, 0).contains(" Bad Request\r\n"));
    assert!(http_head(502, 0).contains(" Bad Gateway\r\n"));
    assert!(http_head(599, 0).contains(" Error\r\n"));
}

const CACHED: &str = "/nix/store/11111111111111111111111111111111-a";

fn import_plan(nar_fetches: Option<usize>) -> ImportPlan {
    ImportPlan {
        builder_public_key: "drv-thru:key".to_string(),
        closure_paths: vec![StorePath::new(CACHED).unwrap()],
        copy_paths: vec![StorePath::new(CACHED).unwrap()],
        nar_fetches,
    }
}

fn import(nar_fetches: Option<usize>, events: Vec<ImportEvent>) -> (OutputImport, Vec<ImportAction>) {
    let (mut import, mut actions) = OutputImport::new(import_plan(nar_fetches));
    assert!(matches!(actions[1], ImportAction::CheckTrust { .. }));
    for event in events {
        let (next, done) = import.step(event);
        import = next;
        actions = done;
    }
    (import, actions)
}

fn outcome(actions: &[ImportAction]) -> Result<u64, String> {
    match actions.last() {
        Some(ImportAction::End { result: Ok(bytes) }) => Ok(*bytes),
        Some(ImportAction::End { result: Err(err) }) => Err(err.message()),
        _ => panic!("the import goes on"),
    }
}

fn no_helper() -> ImportEvent {
    ImportEvent::TrustChecked {
        direct: Err("not trusted".to_string()),
    }
}

fn transfer_started(environment: Option<&str>) -> ImportEvent {
    ImportEvent::TransferStarted {
        environment: environment.map(str::to_string),
        available: Some(100),
    }
}

fn up_to_copy() -> Vec<ImportEvent> {
    vec![
        ImportEvent::TrustChecked {
            direct: Ok(SignedCacheImportTrust::KeyAlreadyTrusted),
        },
        transfer_started(None),
        ImportEvent::Mirrored {
            dir: "/tmp/m".to_string(),
        },
        ImportEvent::ServerStarted {
            url: "http://127.0.0.1:1".to_string(),
        },
    ]
}

#[test]
fn outputs_are_imported_by_nix() {
    let (_, actions) = import(None, up_to_copy().into_iter().take(2).collect());
    let [ImportAction::Mirror {
        plan,
        archives: 1,
        nar_fetches,
    }] = actions.as_slice()
    else {
        panic!("nothing is mirrored");
    };
    assert_eq!(*nar_fetches, MAX_AUTO_PARALLEL_NAR_FETCHES);
    assert_eq!(plan[0].narinfo_path, "11111111111111111111111111111111.narinfo");
    assert!(plan[0].with_archive);

    let (_, actions) = import(None, up_to_copy());
    let [ImportAction::Copy {
        cache_url,
        builder_public_key,
        trust,
        paths,
    }] = actions.as_slice()
    else {
        panic!("nothing is copied");
    };
    assert_eq!(cache_url, "http://127.0.0.1:1");
    assert_eq!(builder_public_key, "drv-thru:key");
    assert_eq!(*trust, SignedCacheImportTrust::KeyAlreadyTrusted);
    assert_eq!(paths[0].as_str(), CACHED);

    let mut events = up_to_copy();
    events.push(ImportEvent::Copied { result: Ok(()) });
    let (_, actions) = import(None, events);
    assert!(matches!(actions.as_slice(), [ImportAction::StopServer]));
}

#[test]
fn outputs_are_imported_by_the_helper() {
    let (_, actions) = import(None, vec![no_helper()]);
    let [ImportAction::InspectHelper { socket }] = actions.as_slice() else {
        panic!("nobody looks for the helper");
    };
    assert_eq!(socket, DEFAULT_SOCKET_PATH);
    let mut events = up_to_copy();
    events[0] = no_helper();
    events.insert(
        1,
        ImportEvent::HelperInspected {
            status: HelperSocketStatus::Available,
        },
    );
    let (_, actions) = import(Some(3), events);
    let [ImportAction::AskHelper { socket, request }] = actions.as_slice() else {
        panic!("the helper is not asked");
    };
    assert_eq!(socket, DEFAULT_SOCKET_PATH);
    assert_eq!(request.builder_public_key, "drv-thru:key");
    assert_eq!(request.cache_url, "http://127.0.0.1:1");
    assert_eq!(request.paths, [CACHED]);
}

#[test]
fn imports_tidy_up_whatever_happened() {
    let finish = |copy: Result<(), Error>, server: Result<(), Error>, mirror: Result<(), Error>| {
        let mut events = up_to_copy();
        events.push(ImportEvent::Copied { result: copy });
        events.push(ImportEvent::ServerStopped { result: server });
        let (import, actions) = import(None, events);
        let [ImportAction::RemoveMirror { dir }] = actions.as_slice() else {
            panic!("the mirror stays");
        };
        assert_eq!(dir, "/tmp/m");
        assert!(!import.has_ended());
        let (import, actions) = import.step(ImportEvent::MirrorRemoved {
            result: mirror,
            bytes: 9,
        });
        assert!(import.has_ended());
        assert!(matches!(actions[0], ImportAction::FinishTransfer));
        outcome(&actions)
    };
    assert_eq!(finish(Ok(()), Ok(()), Ok(())), Ok(9));
    let failed = |why: &str| Err(Error::of(why));
    assert_eq!(finish(failed("a"), Ok(()), Ok(())), Err("a".to_string()));
    assert_eq!(finish(Ok(()), failed("b"), failed("c")), Err("b".to_string()));
    assert_eq!(finish(Ok(()), Ok(()), failed("c")), Err("c".to_string()));
    assert_eq!(finish(failed("a"), failed("b"), Ok(())), Err("a".to_string()));
    assert_eq!(
        finish(failed("a"), failed("cache bridge returned 404: x"), Ok(())),
        Err("cache bridge returned 404: x".to_string())
    );
}

#[test]
fn imports_fail_early() {
    let helper_is_missing = ImportEvent::HelperInspected {
        status: HelperSocketStatus::Missing,
    };
    let (import_state, actions) = import(None, vec![no_helper(), helper_is_missing]);
    assert!(import_state.has_ended());
    assert!(outcome(&actions)
        .unwrap_err()
        .starts_with("This client cannot import outputs from this ticket builder."));

    let trusted = up_to_copy().remove(0);
    let (_, actions) = import(None, vec![trusted, transfer_started(Some("0"))]);
    assert_eq!(
        outcome(&actions),
        Err("DRV_THRU_NAR_FETCHES must be at least 1".to_string())
    );

    for stage in 0..4 {
        let mut events: Vec<ImportEvent> = up_to_copy().into_iter().take(stage).collect();
        events.push(ImportEvent::Failed {
            error: Error::of("lost"),
        });
        let (import_state, actions) = import(None, events);
        assert!(import_state.has_ended());
        assert_eq!(outcome(&actions), Err("lost".to_string()));
    }
}

#[test]
fn missing_files_are_named() {
    assert_eq!(
        metadata_missing("a.narinfo").message(),
        "cache metadata not found: a.narinfo"
    );
    assert_eq!(
        payload_missing("nar/a.nar").message(),
        "cache payload not found: nar/a.nar"
    );
}
