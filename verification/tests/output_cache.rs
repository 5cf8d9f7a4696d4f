use drv_thru::nix::StorePath;
use drv_thru::proto::{CacheFileRequest, Incoming, Message};
use drv_thru::server::output_cache::{
    cache_entry_archive, cache_file_response, check_copied, fill_failed, fill_step,
    map_narinfo_to_allowed_store_path, narinfo_signed_by, output_cache_allowed_paths,
    output_cache_dir, read_cache_file_request, requested_output_paths, signing_cache_dir_name,
    CacheFilePlan, FillStage, FillStep, OutputCacheAccess,
};

#[test]
fn maps_narinfo_hash_to_allowed_store_path() {
    let store_path = StorePath::new("/nix/store/00000000000000000000000000000000-hello").unwrap();
    let allowed = output_cache_allowed_paths(std::slice::from_ref(&store_path));

    let mapped =
        map_narinfo_to_allowed_store_path("00000000000000000000000000000000.narinfo", &allowed)
            .unwrap()
            .unwrap();

    assert_eq!(mapped.as_str(), store_path.as_str());
}

#[test]
fn signing_cache_dir_name_depends_on_full_public_key() {
    assert_ne!(
        signing_cache_dir_name("drv-thru:abc"),
        signing_cache_dir_name("drv-thru:def")
    );
    assert!(signing_cache_dir_name("drv-thru:abc").starts_with("key-"));
    assert_eq!(signing_cache_dir_name("a:"), "key-613a");
    assert_eq!(output_cache_dir("/d", "a:"), "/d/cache/key-613a");
}

#[test]
fn detects_current_signing_key_in_narinfo() {
    let narinfo = b"Sig: drv-thru:abc
";
    assert!(narinfo_signed_by(narinfo, "drv-thru:public-key").unwrap());
    assert!(!narinfo_signed_by(narinfo, "other:public-key").unwrap());
}

#[test]
fn rejects_unknown_narinfo_hash() {
    let store_path = StorePath::new("/nix/store/00000000000000000000000000000000-hello").unwrap();
    let allowed = output_cache_allowed_paths(&[store_path]);

    let mapped =
        map_narinfo_to_allowed_store_path("11111111111111111111111111111111.narinfo", &allowed)
            .unwrap();

    assert!(mapped.is_none());
}

#[test]
fn narinfos_that_cannot_be_checked() {
    assert_eq!(
        narinfo_signed_by(b"", "no-colon").unwrap_err().message(),
        "invalid signing public key"
    );
    assert_eq!(
        narinfo_signed_by(&[b'a', 0xc3], "a:b").unwrap_err().messages(),
        [
            "narinfo is not UTF-8".to_string(),
            String::from_utf8(vec![b'a', 0xc3]).unwrap_err().to_string()
        ]
    );
    let allowed = output_cache_allowed_paths(&[]);
    assert!(map_narinfo_to_allowed_store_path("x", &allowed).is_err());
    assert!(map_narinfo_to_allowed_store_path("a/b.narinfo", &allowed).is_err());
}

#[test]
fn archives_are_served_after_their_narinfos() {
    let store_path = StorePath::new("/nix/store/00000000000000000000000000000000-hello").unwrap();
    let mut access = OutputCacheAccess::new(&[store_path]);
    assert!(matches!(access.plan("nix-cache-info"), CacheFilePlan::Info));
    assert!(matches!(access.plan("nar/a.nar"), CacheFilePlan::Missing));
    assert!(matches!(
        access.plan("11111111111111111111111111111111.narinfo"),
        CacheFilePlan::Missing
    ));
    assert!(matches!(
        access.plan("00000000000000000000000000000000.narinfo"),
        CacheFilePlan::Narinfo { .. }
    ));
    access.allow_archive_of(b"URL: nar/a.nar\n").unwrap();
    assert!(matches!(access.plan("nar/a.nar"), CacheFilePlan::Nar));
    assert!(matches!(access.plan("nar/b.nar"), CacheFilePlan::Missing));
    access.allow_archive_of(b"StorePath: x\n").unwrap();
    assert!(access.allow_archive_of(&[0xff]).is_err());
    assert!(matches!(access.plan("nar/a.nar"), CacheFilePlan::Nar));
    assert!(matches!(access.plan("nar/b.nar"), CacheFilePlan::Missing));
    access.allow_archive_of(b"URL: nar/b.nar\n").unwrap();
    assert!(matches!(access.plan("nar/a.nar"), CacheFilePlan::Nar));
    assert!(matches!(access.plan("nar/b.nar"), CacheFilePlan::Nar));
    assert!(matches!(access.plan("nar/c.nar"), CacheFilePlan::Missing));
    assert!(matches!(access.plan("../x"), CacheFilePlan::Failed { .. }));
}

#[test]
fn entries_are_made_once() {
    assert_eq!(fill_step(FillStage::Unlocked, true), FillStep::Serve);
    assert_eq!(fill_step(FillStage::Unlocked, false), FillStep::TakeLock);
    assert_eq!(fill_step(FillStage::Locked, false), FillStep::Fill);
    assert_eq!(fill_step(FillStage::Filled, false), FillStep::Fail);
    let narinfo = b"URL: nar/a.nar\nSig: k:x\n";
    assert_eq!(
        cache_entry_archive("/c", "k:y", Some(narinfo)).unwrap().as_deref(),
        Some("/c/nar/a.nar")
    );
    assert_eq!(cache_entry_archive("/c", "other:y", Some(narinfo)).unwrap(), None);
    assert_eq!(cache_entry_archive("/c", "k:y", None).unwrap(), None);
    let path = StorePath::new("/nix/store/00000000000000000000000000000000-hello").unwrap();
    assert!(fill_failed(&path).message().ends_with("-hello"));
}

#[test]
fn only_what_was_built_can_be_asked_for() {
    let a = StorePath::new("/nix/store/00000000000000000000000000000000-a").unwrap();
    let asked = vec![a.as_str().to_string(), a.as_str().to_string()];
    assert_eq!(
        requested_output_paths(&asked, &[a.clone()]).unwrap_or_else(|_| panic!("refused")).len(),
        1
    );
    let Err(err) = requested_output_paths(&asked, &[]) else {
        panic!("served what was not built");
    };
    assert_eq!(
        err.message(),
        format!("requested output path was not built: {}", a.as_str())
    );
    assert!(requested_output_paths(&["/tmp/x".to_string()], &[a]).is_err());
}

#[test]
fn requests_and_answers() {
    let read = |message| {
        read_cache_file_request(Incoming {
            message,
            shown: "Done".to_string(),
        })
    };
    let Ok(request) = read(Message::CacheFileRequest(CacheFileRequest {
        path: "x".to_string(),
        send_body: true,
    })) else {
        panic!("refused a request");
    };
    assert_eq!(request.path, "x");
    let Err(err) = read(Message::Done) else {
        panic!("accepted another message");
    };
    assert_eq!(err.message(), "unexpected cache file request: Done");
    let Message::CacheFileResponse(response) = cache_file_response(true, 9) else {
        panic!("another message");
    };
    assert!(response.found && response.byte_count == 9);
    assert!(check_copied("short", 1, 1).is_ok());
    assert_eq!(
        check_copied("short cache body", 1, 2).unwrap_err().message(),
        "short cache body: 1 of 2 bytes"
    );
}
