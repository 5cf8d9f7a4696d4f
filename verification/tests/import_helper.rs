use drv_thru::collections::StrSet;
use drv_thru::error::Error;
use drv_thru::import_helper::{
    connect_error, helper_socket_status, import_response, load_trusted_public_keys,
    public_key_names, request_log, response_outcome, stale_socket, validate_loopback_http_url,
    validate_nix_public_key, validate_request_shape, validate_trusted_request, ConnectFault,
    HelperSocketStatus, ImportRequest, ImportResponse, SocketFile, MAX_ERROR_CHARS,
    MAX_IMPORT_PATHS,
};

const KEY: &str = "drv-thru-1:AAAAAAAAAAAAAAAAAAAAAAAAAAAAAAAAAAAAAAAAAAA=";
const OTHER_KEY_SAME_NAME: &str = "drv-thru-1:BBBBBBBBBBBBBBBBBBBBBBBBBBBBBBBBBBBBBBBBBBB=";
const PATH: &str = "/nix/store/00000000000000000000000000000000-test";

fn valid_request() -> ImportRequest {
    ImportRequest {
        builder_public_key: KEY.to_string(),
        cache_url: "http://127.0.0.1:1234".to_string(),
        paths: vec![PATH.to_string()],
    }
}

fn trusted_keys(keys: &[&str]) -> StrSet {
    let mut set = StrSet::new();
    for key in keys {
        set.insert((*key).to_string());
    }
    set
}

#[test]
fn accepts_loopback_http_urls() {
    validate_loopback_http_url("http://127.0.0.1:1234").unwrap();
    validate_loopback_http_url("http://[::1]:1234").unwrap();
}

#[test]
fn rejects_non_loopback_http_urls() {
    for url in [
        "https://127.0.0.1:1234",
        "http://localhost:1234",
        "http://127.0.0.2:1234",
        "http://127.0.0.1",
        "http://127.0.0.1:0",
        "http://127.0.0.1:1234/cache",
        "http://127.0.0.1:1234?x=1",
        "file:///nix/store/cache",
        " http://127.0.0.1:1234",
    ] {
        assert!(validate_loopback_http_url(url).is_err(), "accepted {url}");
    }
}

#[test]
fn says_what_is_wrong_with_a_url() {
    let message = |url: &str| validate_loopback_http_url(url).unwrap_err().message();
    assert_eq!(message("http://[::1]:x"), "cache URL must include a numeric port");
    assert_eq!(
        validate_loopback_http_url("http://[::1]:65536").unwrap_err().messages(),
        [
            "cache URL port is out of range".to_string(),
            "65536".parse::<u16>().unwrap_err().to_string()
        ]
    );
    assert_eq!(message("http://[::1]:0"), "cache URL port must be non-zero");
    assert_eq!(message("http://"), "cache URL must be a loopback HTTP origin only");
    assert_eq!(message("http://x:1"), "cache URL host must be 127.0.0.1 or [::1]");
    validate_loopback_http_url("http://[::1]:65535").unwrap();
}

#[test]
fn accepts_valid_import_request() {
    let Ok(_) = validate_request_shape(&valid_request()) else {
        panic!("refused a valid request");
    };
}

#[test]
fn rejects_invalid_import_requests() {
    let mut request = valid_request();
    request.builder_public_key = String::new();
    assert!(validate_request_shape(&request).is_err());

    let mut request = valid_request();
    request.cache_url = "http://example.com:80".to_string();
    assert!(validate_request_shape(&request).is_err());

    let mut request = valid_request();
    request.paths.clear();
    assert!(validate_request_shape(&request).is_err());

    let mut request = valid_request();
    request.paths = vec!["/tmp/nope".to_string()];
    assert!(validate_request_shape(&request).is_err());
}

#[test]
fn rejects_too_many_import_paths() {
    let mut request = valid_request();
    request.paths = vec![PATH.to_string(); MAX_IMPORT_PATHS + 1];
    assert!(validate_request_shape(&request).is_err());
}

#[test]
fn accepts_helper_trusted_builder_key() {
    let Ok(_) = validate_trusted_request(&valid_request(), &trusted_keys(&[KEY])) else {
        panic!("refused a trusted key");
    };
}

#[test]
fn rejects_builder_key_missing_from_helper_allowlist() {
    let Err(err) = validate_trusted_request(&valid_request(), &trusted_keys(&[])) else {
        panic!("accepted untrusted builder key");
    };
    assert!(err.message().contains("not allowed"));
}

#[test]
fn helper_allowlist_matches_full_builder_key() {
    let mut request = valid_request();
    request.builder_public_key = OTHER_KEY_SAME_NAME.to_string();

    assert!(validate_trusted_request(&request, &trusted_keys(&[KEY])).is_err());
}

#[test]
fn validates_nix_public_key_shape() {
    validate_nix_public_key(KEY).unwrap();
    for key in [
        "drv-thru-1",
        "drv thru:AAAAAAAAAAAAAAAAAAAAAAAAAAAAAAAAAAAAAAAAAAA=",
        "drv-thru-1:",
        "drv-thru-1:not base64!",
        " drv-thru-1:AAAAAAAAAAAAAAAAAAAAAAAAAAAAAAAAAAAAAAAAAAA=",
    ] {
        assert!(validate_nix_public_key(key).is_err(), "accepted {key}");
    }
}

#[test]
fn says_what_is_wrong_with_a_key() {
    let message = |key: &str| validate_nix_public_key(key).unwrap_err().message();
    assert_eq!(
        message(""),
        "builder public key is empty or has surrounding whitespace"
    );
    assert_eq!(message("a b:c"), "builder public key contains whitespace");
    assert_eq!(message("abc"), "builder public key must be name:key");
    assert_eq!(message(":abc"), "builder public key name is invalid");
    assert_eq!(message("a:b!"), "builder public key body is invalid");
}

#[test]
fn trust_files_are_read() {
    let content = format!("# keys\n\n  {KEY}  \n{OTHER_KEY_SAME_NAME}\r\n{KEY}\n");
    let keys = load_trusted_public_keys("/etc/keys", &content).unwrap();
    assert_eq!(keys.len(), 2);
    assert!(keys.contains(KEY));
    assert_eq!(public_key_names(&keys), "drv-thru-1,drv-thru-1");
    assert_eq!(public_key_names(&StrSet::new()), "<none>");
    let err = load_trusted_public_keys("/etc/keys", "# x\nnonsense\n").unwrap_err();
    assert_eq!(
        err.messages(),
        [
            "invalid trusted builder public key at /etc/keys:2",
            "builder public key must be name:key"
        ]
    );
}

#[test]
fn answers_of_the_helper() {
    let good = import_response(Ok(()));
    assert!(good.success && good.error.is_none());
    response_outcome(good).unwrap();
    let long: String = std::iter::repeat('x').take(MAX_ERROR_CHARS + 1).collect();
    let bad = import_response(Err(Error::of(&long)));
    assert!(!bad.success);
    assert!(bad.error.as_deref().unwrap().ends_with("x\n[truncated]"));
    let err = response_outcome(ImportResponse {
        success: false,
        error: None,
    })
    .unwrap_err();
    assert_eq!(err.message(), "import helper failed: unknown error");
    assert_eq!(
        request_log(1, 2, &valid_request(), &trusted_keys(&[KEY])),
        "drv-thru import-helper: uid=1 gid=2 builder=drv-thru-1 trusted=true paths=1"
    );
}

#[test]
fn sockets_of_the_helper() {
    assert_eq!(
        helper_socket_status(Ok(SocketFile::Socket)),
        HelperSocketStatus::Available
    );
    assert_eq!(
        helper_socket_status(Ok(SocketFile::NotSocket)),
        HelperSocketStatus::NotSocket
    );
    assert_eq!(
        helper_socket_status(Ok(SocketFile::Missing)),
        HelperSocketStatus::Missing
    );
    assert_eq!(
        helper_socket_status(Err("no".to_string())),
        HelperSocketStatus::Inaccessible("no".to_string())
    );
    assert!(stale_socket("/s", SocketFile::Socket).unwrap());
    assert!(!stale_socket("/s", SocketFile::Missing).unwrap());
    assert_eq!(
        stale_socket("/s", SocketFile::NotSocket).unwrap_err().message(),
        "/s exists and is not a Unix socket"
    );
    assert!(connect_error("/s", ConnectFault::PermissionDenied)
        .message()
        .contains("at /s: permission denied\n\nAdd this user"));
    assert!(connect_error("/s", ConnectFault::NotFound)
        .message()
        .contains("at /s: socket not found\n\nEnable"));
    let other = ConnectFault::Other {
        cause: "refused".to_string(),
    };
    assert_eq!(
        connect_error("/s", other).messages(),
        ["connect import helper socket /s", "refused"]
    );
}
