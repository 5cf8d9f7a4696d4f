use drv_thru::collections::{StrMap, StrSet};
use drv_thru::nix::commands::{
    after_upload, args_with_paths, build_plan_outputs, chunked_args, closure_args, command_text,
    copy_from_cache_args, copy_from_cache_error, copy_to_cache_args, eval_args, eval_options,
    export_args, file_cache_url, import_args, is_signature_or_trust_error, missing_paths,
    missing_paths_queries, nix_command_outcome, outputs_args, parse_closure, parse_derivation,
    realise_args, store_program_outcome, upload_outcome, upload_read_limit, BuildPlanEntry,
    EvalOptions, OverrideInput, SignedCacheImportTrust, UploadStep,
};
use drv_thru::nix::trust::{
    parse_nix_config_values, question_command, signed_cache_import_allowed,
    signed_cache_import_trust, TrustQuestion, TrustStep,
};
use drv_thru::nix::{store_path_hash, StorePath};
use drv_thru::proto::OutputMode;

#[test]
fn accepts_store_paths() {
    let path =
        StorePath::new("/nix/store/00000000000000000000000000000000-foo+bar_1.0?x=y").unwrap();
    assert_eq!(
        path.as_str(),
        "/nix/store/00000000000000000000000000000000-foo+bar_1.0?x=y"
    );
}

#[test]
fn rejects_invalid_store_paths() {
    for path in [
        "/tmp/abc",
        "/nix/store/abc-source",
        "/nix/store/00000000000000000000000000000000",
        "/nix/store/00000000000000000000000000000000-",
        "/nix/store/00000000000000000000000000000000-foo/bar",
        "/nix/store/00000000000000000000000000000000-foo bar",
    ] {
        assert!(StorePath::new(path).is_err(), "accepted {path}");
    }
}

#[test]
fn maps_eval_options_to_nix_args() {
    let options = EvalOptions {
        impure: true,
        refresh: true,
        override_inputs: vec![OverrideInput {
            input_path: "nixpkgs".to_string(),
            flake_url: "github:NixOS/nixpkgs/nixos-unstable".to_string(),
        }],
    };

    assert_eq!(
        eval_args(&["build", "--dry-run", "--json"], ".#pkg", &options),
        vec![
            "build",
            "--dry-run",
            "--json",
            "--impure",
            "--refresh",
            "--override-input",
            "nixpkgs",
            "github:NixOS/nixpkgs/nixos-unstable",
            ".#pkg",
        ]
    );
}

#[test]
fn maps_rebuild_to_nix_store_check() {
    assert_eq!(
        realise_args(OutputMode::Plain, true),
        vec!["--realise", "--check", "--log-format", "raw", "-v"]
    );
    assert_eq!(
        realise_args(OutputMode::Nom, false),
        vec!["--realise", "--log-format", "internal-json", "-v"]
    );
}

#[test]
fn parses_requested_build_outputs() {
    let output = r#"[{"drvPath":"/nix/store/00000000000000000000000000000000-git.drv","outputs":{"debug":"/nix/store/11111111111111111111111111111111-git-debug","doc":"/nix/store/22222222222222222222222222222222-git-doc","out":"/nix/store/33333333333333333333333333333333-git"}}]"#;
    let parsed: serde_json::Value = serde_json::from_str(output).unwrap();
    let mut plan = Vec::new();
    for entry in parsed.as_array().unwrap() {
        let mut outputs = StrMap::new();
        for (name, path) in entry["outputs"].as_object().unwrap() {
            outputs.insert(name.clone(), path.as_str().unwrap().to_string());
        }
        plan.push(BuildPlanEntry { outputs });
    }
    let paths = build_plan_outputs(&plan).unwrap();
    assert_eq!(
        paths.iter().map(StorePath::as_str).collect::<Vec<_>>(),
        [
            "/nix/store/11111111111111111111111111111111-git-debug",
            "/nix/store/22222222222222222222222222222222-git-doc",
            "/nix/store/33333333333333333333333333333333-git",
        ]
    );
}

#[test]
fn parses_trusted_users_config() {
    assert_eq!(
        parse_nix_config_values("trusted-users = root alex @wheel", "trusted-users"),
        set(&["root", "alex", "@wheel"])
    );
    assert_eq!(
        parse_nix_config_values("root *", "trusted-users"),
        set(&["root", "*"])
    );
}

#[test]
fn detects_trusted_public_key_config() {
    let keys = parse_nix_config_values(
        "trusted-public-keys = cache.nixos.org-1:abc drv-thru:builder-key",
        "trusted-public-keys",
    );

    assert!(keys.contains("drv-thru:builder-key"));
    assert!(!keys.contains("drv-thru:other-key"));
}

#[test]
fn accepts_root_or_trusted_user_for_signed_cache_import() {
    let empty = StrSet::new();
    assert!(signed_cache_import_allowed(
        true,
        "nobody",
        &empty,
        &empty,
        &empty,
        "drv-thru:builder-key"
    ));
    assert!(signed_cache_import_allowed(
        false,
        "alex",
        &empty,
        &set(&["root", "alex"]),
        &empty,
        "drv-thru:builder-key"
    ));
    assert!(signed_cache_import_allowed(
        false,
        "alex",
        &set(&["wheel"]),
        &set(&["root", "@wheel"]),
        &empty,
        "drv-thru:builder-key"
    ));
    assert!(signed_cache_import_allowed(
        false,
        "alex",
        &empty,
        &set(&["*"]),
        &empty,
        "drv-thru:builder-key"
    ));
}

#[test]
fn accepts_globally_trusted_builder_key_for_signed_cache_import() {
    let empty = StrSet::new();
    assert!(signed_cache_import_allowed(
        false,
        "alex",
        &empty,
        &set(&["root"]),
        &set(&["drv-thru:builder-key"]),
        "drv-thru:builder-key"
    ));
}

#[test]
fn rejects_untrusted_user_unknown_builder_key_for_signed_cache_import() {
    let empty = StrSet::new();
    assert!(!signed_cache_import_allowed(
        false,
        "alex",
        &empty,
        &set(&["root"]),
        &set(&["drv-thru:other-key"]),
        "drv-thru:builder-key"
    ));
}

fn set(values: &[&str]) -> StrSet {
    let mut set = StrSet::new();
    for value in values {
        set.insert(value.to_string());
    }
    set
}

#[test]
fn detects_signature_or_trust_errors() {
    assert!(is_signature_or_trust_error(
        "cannot add path because it lacks a signature by a trusted key"
    ));
    assert!(is_signature_or_trust_error(
        "unknown public key in trusted-public-keys"
    ));
    assert!(!is_signature_or_trust_error("HTTP error 404"));
}

fn path(digit: char, name: &str) -> StorePath {
    let hash: String = std::iter::repeat(digit).take(32).collect();
    StorePath::new(&format!("/nix/store/{hash}-{name}")).unwrap()
}

#[test]
fn store_paths_have_hashes() {
    assert_eq!(
        store_path_hash(&path('0', "hello")),
        "00000000000000000000000000000000"
    );
}

#[test]
fn override_inputs_come_in_pairs() {
    let options = eval_options(
        false,
        true,
        &["a".to_string(), "b".to_string()],
    )
    .unwrap();
    assert_eq!(options.override_inputs.len(), 1);
    assert_eq!(options.override_inputs[0].flake_url, "b");
    let Err(err) = eval_options(false, false, &["a".to_string()]) else {
        panic!("accepted half a pair");
    };
    assert_eq!(
        err.message(),
        "--override-input requires INPUT_PATH and FLAKE_URL"
    );
}

#[test]
fn trust_is_found_out_step_by_step() {
    let key = "drv-thru:key";
    let mut answers: Vec<String> = Vec::new();
    assert!(matches!(
        signed_cache_import_trust(key, &answers),
        TrustStep::Ask(TrustQuestion::UserId)
    ));
    answers.push("1000\n".to_string());
    assert!(matches!(
        signed_cache_import_trust(key, &answers),
        TrustStep::Ask(TrustQuestion::UserName)
    ));
    answers.push("alex\n".to_string());
    answers.push("users wheel\n".to_string());
    assert!(matches!(
        signed_cache_import_trust(key, &answers),
        TrustStep::Ask(TrustQuestion::TrustedUsers)
    ));
    answers.push("root\n".to_string());
    answers.push("other:key drv-thru:key\n".to_string());
    assert!(matches!(
        signed_cache_import_trust(key, &answers),
        TrustStep::Trusted(SignedCacheImportTrust::KeyAlreadyTrusted)
    ));
    answers[3] = "root @wheel".to_string();
    assert!(matches!(
        signed_cache_import_trust(key, &answers),
        TrustStep::Trusted(SignedCacheImportTrust::CanPassPublicKey)
    ));
    answers[3] = "root".to_string();
    answers[4] = "other:key".to_string();
    let TrustStep::Refused(err) = signed_cache_import_trust(key, &answers) else {
        panic!("trusted an unknown key");
    };
    assert!(err.message().contains("Current user: alex\nBuilder key: drv-thru:key"));
    assert!(matches!(
        signed_cache_import_trust("  ", &[]),
        TrustStep::Refused(_)
    ));
    assert!(matches!(
        signed_cache_import_trust(key, &["0".to_string()]),
        TrustStep::Trusted(SignedCacheImportTrust::CanPassPublicKey)
    ));
}

#[test]
fn long_lists_are_asked_about_in_pieces() {
    let paths: Vec<StorePath> = (0..600).map(|_| path('0', "a")).collect();
    let lines = chunked_args(&["x"], &paths);
    let total: usize = lines.iter().map(|line| line.len() - 1).sum();
    assert_eq!(total, 600);
    assert_eq!(lines.len(), 2);
    assert_eq!(lines[0].len(), 513);
    assert!(missing_paths_queries(&[]).is_empty());
    assert_eq!(args_with_paths(&["a"], &[path('1', "b")]).len(), 2);
}

#[test]
fn missing_paths_keep_their_order() {
    let all = [path('0', "a"), path('1', "b"), path('2', "c")];
    let output = format!("{}\n{}\n", all[2].as_str(), all[0].as_str());
    let missing = missing_paths(&all, &[output]).unwrap();
    assert_eq!(
        missing.iter().map(StorePath::as_str).collect::<Vec<_>>(),
        [all[0].as_str(), all[2].as_str()]
    );
    assert!(missing_paths(&all, &["nonsense".to_string()]).is_err());
}

#[test]
fn closures_have_no_repetitions() {
    let a = path('0', "a");
    let b = path('1', "b");
    let text = format!("{}\n{}\n{}\n", a.as_str(), b.as_str(), a.as_str());
    let closure = parse_closure(&text).unwrap();
    assert_eq!(closure.len(), 2);
    assert!(parse_derivation("\n").is_err());
    assert_eq!(parse_derivation(&text).unwrap().as_str(), a.as_str());
}

#[test]
fn uploads_are_limited() {
    assert_eq!(upload_read_limit(None), None);
    assert_eq!(upload_read_limit(Some(10)), Some(11));
    assert_eq!(upload_read_limit(Some(u64::MAX)), Some(u64::MAX));
    let waits = |copied, max_bytes| matches!(after_upload(Ok(copied), max_bytes), UploadStep::Wait { .. });
    assert!(waits(10, Some(10)));
    assert!(waits(u64::MAX, None));
    assert!(!waits(11, Some(10)));
    let UploadStep::Kill { error } = after_upload(Ok(11), Some(10)) else {
        panic!("imported too much");
    };
    assert_eq!(error.message(), "upload exceeded max bytes: 11");
}

#[test]
fn imports_of_uploads_tell_what_went_wrong() {
    let UploadStep::Wait { copied } = after_upload(Err("lost".to_string()), Some(1)) else {
        panic!("stopped an importer without need");
    };
    assert_eq!(
        upload_outcome(copied, true, " why\n").err().unwrap().message(),
        "stream nix-store import: lost; nix-store stderr: why"
    );
    assert_eq!(upload_outcome(Ok(5), true, "").ok(), Some(5));
    assert_eq!(
        upload_outcome(Ok(5), false, "bad\n").err().unwrap().message(),
        "nix-store --import failed: bad"
    );
    assert_eq!(
        store_program_outcome("nix-store --export", false, "bad\n")
            .err()
            .unwrap()
            .message(),
        "nix-store --export failed: bad"
    );
}

#[test]
fn store_commands() {
    let a = path('0', "a");
    assert_eq!(import_args(), ["--option", "require-sigs", "false", "--import"]);
    assert_eq!(export_args(&[]), None);
    assert_eq!(export_args(&[a.clone()]).unwrap(), ["--export", a.as_str()]);
    assert_eq!(closure_args(&[]), None);
    assert_eq!(closure_args(&[a.clone()]).unwrap(), ["-qR", a.as_str()]);
    assert_eq!(outputs_args(&a), ["-q", "--outputs", a.as_str()]);
    let command = question_command(TrustQuestion::GroupNames);
    assert_eq!(command.program, "id");
    assert_eq!(command.args, ["-Gn"]);
    assert_eq!(command.purpose, "read current groups");
    let command = question_command(TrustQuestion::TrustedUsers);
    assert_eq!(command.program, "nix");
    assert_eq!(command.args, ["config", "show", "trusted-users"]);
    assert_eq!(command.purpose, "read nix config trusted-users");
}

#[test]
fn cache_urls_and_copies() {
    assert_eq!(file_cache_url("/var/cache", None), "file:///var/cache");
    let lines = copy_to_cache_args(&[path('0', "a")], "/c", "/k");
    assert_eq!(lines[0].last().unwrap(), path('0', "a").as_str());
    let lines = copy_from_cache_args(
        "http://127.0.0.1:1",
        "drv-thru:key",
        SignedCacheImportTrust::CanPassPublicKey,
        &[path('0', "a")],
    )
    .unwrap();
    assert_eq!(lines.len(), 1);
    let plain = drv_thru::error::Error::of("HTTP error 404");
    assert_eq!(copy_from_cache_error(plain).message(), "HTTP error 404");
    let trust = drv_thru::error::Error::of("lacks a signature by a trusted key");
    assert_eq!(
        copy_from_cache_error(trust).message(),
        "signed cache/public key import failed; Nix rejected cache signatures/trust: lacks a signature by a trusted key"
    );
}

#[test]
fn commands_that_fail_say_so() {
    assert_eq!(command_text("id", true, b"alex\n", "").unwrap(), "alex\n");
    assert!(command_text("id", false, b"", "no").is_err());
    assert!(command_text("id", true, &[0xff], "").is_err());
    assert!(nix_command_outcome("copy", true, "exit status: 0", "").is_ok());
    assert!(nix_command_outcome("copy", false, "exit status: 1", "oops").is_err());
}
