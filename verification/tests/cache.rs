use drv_thru::cache::{
    cache_file_path, narinfo_nar_path, sanitize_cache_path, sanitize_http_cache_path,
};

#[test]
fn accepts_cache_paths() {
    for path in [
        "nix-cache-info",
        "00000000000000000000000000000000.narinfo",
        "nar/abc123.nar",
        "nar/abc123.nar.xz",
        "nar/subdir/abc123.nar.zst",
    ] {
        assert_eq!(sanitize_cache_path(path).unwrap(), path);
    }
}

#[test]
fn accepts_http_cache_paths() {
    assert_eq!(
        sanitize_http_cache_path("/nix-cache-info?priority=40").unwrap(),
        "nix-cache-info"
    );
    assert_eq!(
        sanitize_http_cache_path("/nar/abc123.nar.xz").unwrap(),
        "nar/abc123.nar.xz"
    );
}

#[test]
fn rejects_bad_cache_paths() {
    for path in [
        "",
        "/nix-cache-info",
        "../nix-cache-info",
        "nar/../x.nar",
        "nar//x.nar",
        "nar/./x.nar",
        "nar/x",
        "nar/x nar",
        "nar/%2e%2e/x.nar",
        "nar\\x.nar",
        "foo",
        "0000000000000000000000000000000.narinfo",
        "00000000000000000000000000000000.narinfo/evil",
    ] {
        assert!(sanitize_cache_path(path).is_err(), "accepted {path}");
    }
}

#[test]
fn says_what_is_wrong_with_a_cache_path() {
    let message = |path: &str| sanitize_cache_path(path).unwrap_err().message();
    assert_eq!(message("/x"), "invalid cache path: /x");
    assert_eq!(message("nar\\x"), "invalid cache path: nar\\x");
    assert_eq!(message("x.narinfo"), "invalid narinfo path: x.narinfo");
    assert_eq!(message("nar/x"), "invalid NAR path: nar/x");
    assert_eq!(message("foo"), "unsupported cache path: foo");
    assert_eq!(
        sanitize_http_cache_path("nix-cache-info").unwrap_err().message(),
        "HTTP cache path must start with /: nix-cache-info"
    );
}

#[test]
fn cache_files_are_below_their_directory() {
    assert_eq!(
        cache_file_path("/var/cache", "nar/abc.nar").unwrap(),
        "/var/cache/nar/abc.nar"
    );
    assert!(cache_file_path("/var/cache", "../abc").is_err());
}

#[test]
fn reads_the_archive_of_a_narinfo() {
    let narinfo = b"StorePath: /nix/store/x\nURL: nar/abc.nar.xz\nSig: a:b\n";
    assert_eq!(
        narinfo_nar_path(narinfo).unwrap().as_deref(),
        Some("nar/abc.nar.xz")
    );
    assert_eq!(narinfo_nar_path(b"StorePath: x\n").unwrap(), None);
    assert!(narinfo_nar_path(b"URL: ../x\n").is_err());
    assert!(narinfo_nar_path(&[0xff]).is_err());
}
