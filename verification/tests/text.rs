use drv_thru::collections::{StrMap, StrSet};
use drv_thru::hex::hex_string;
use drv_thru::keys::{
    check_key_permissions, default_client_key_path, key_contents, key_file_lock_path, key_of_text,
    read_key, server_key_path, KeyContents,
};
use drv_thru::order::text_comes_before;
use drv_thru::paths::{join_path, lock_file_name, temp_file_name, temp_path_for};
use drv_thru::process_lock::{
    current_owner_text, lock_holder, owner_is_live, parse_owner, process_start_time, stale_lock,
    StaleLock,
};
use drv_thru::text::{
    chars_of, decimal_string, join_strings, lines_of, parse_unsigned, space_char, split_chars,
    string_of, trim_text, truncate_text, words_of,
};

fn chars(s: &str) -> Vec<char> {
    chars_of(s)
}

#[test]
fn white_space_is_that_of_std() {
    for n in 0..=0x10ffff_u32 {
        if let Some(c) = char::from_u32(n) {
            assert_eq!(space_char(c), c.is_whitespace(), "{n:x}");
        }
    }
}

#[test]
fn texts_are_cut_as_std_cuts_them() {
    for s in [
        "", " ", "a", " a b ", "\u{a0}x\u{2003}", "a\nb", "a\r\nb\r\n", "\n\n", "a\rb", "x\n\r\n",
        "one  two\tthree\n",
    ] {
        assert_eq!(trim_text(s), s.trim());
        assert_eq!(lines_of(&chars(s)), s.lines().collect::<Vec<_>>());
        assert_eq!(words_of(&chars(s)), s.split_whitespace().collect::<Vec<_>>());
        assert_eq!(split_chars(&chars(s), ' '), s.split(' ').collect::<Vec<_>>());
        assert_eq!(string_of(&chars(s)), s);
    }
    let pieces: Vec<String> = vec!["a".to_string(), "b".to_string()];
    assert_eq!(join_strings(&pieces, ", "), "a, b");
    assert_eq!(truncate_text("abcd", 3), "abc\n[truncated]");
    assert_eq!(truncate_text("abc", 3), "abc");
}

#[test]
fn numbers_are_read_and_written_as_std_does() {
    for n in [0, 1, 9, 10, 255, 1_000_000, u64::MAX] {
        assert_eq!(decimal_string(n), n.to_string());
    }
    for s in ["", "0", "+7", "-1", "007", "18446744073709551615", "18446744073709551616", "1a", "+"] {
        assert_eq!(parse_unsigned(&chars(s), u64::MAX), s.parse::<u64>().ok(), "{s}");
        assert_eq!(
            parse_unsigned(&chars(s), 255),
            s.parse::<u8>().ok().map(u64::from),
            "{s}"
        );
    }
}

#[test]
fn texts_are_ordered_as_std_orders_them() {
    let list = ["", "a", "ab", "b", "B", "é", "日本", "\u{10000}", "\u{ffff}"];
    for a in list {
        for b in list {
            assert_eq!(text_comes_before(a, b), a < b, "{a} {b}");
        }
    }
}

#[test]
fn sets_and_maps_keep_their_order() {
    let mut set = StrSet::new();
    assert!(set.insert("b".to_string()));
    assert!(set.insert("a".to_string()));
    assert!(!set.insert("b".to_string()));
    assert_eq!(set.items(), &["a".to_string(), "b".to_string()]);
    let mut map: StrMap<u32> = StrMap::new();
    assert_eq!(map.insert("b".to_string(), 1), None);
    assert_eq!(map.insert("a".to_string(), 2), None);
    assert_eq!(map.insert("b".to_string(), 3), Some(1));
    assert_eq!(map.get("b"), Some(&3));
    assert_eq!(map.get("c"), None);
    assert_eq!(map.len(), 2);
}

#[test]
fn paths_are_joined_as_std_joins_them() {
    for (dir, name) in [
        ("/a", "b"),
        ("/a/", "b"),
        ("", "b"),
        ("a", "/b"),
        ("/a", ""),
        ("/", "b/c"),
    ] {
        let expected = std::path::Path::new(dir).join(name);
        assert_eq!(join_path(dir, name), expected.to_str().unwrap());
    }
    assert_eq!(temp_path_for("/d/status.json", 7).unwrap(), "/d/.status.json.7.tmp");
    assert!(temp_path_for("/", 7).is_err());
    for path in ["", ".", "..", "/", "//", "./", "/..", "a/..", "../.", "a/../.", "/./"] {
        assert!(temp_path_for(path, 7).is_err());
        assert_eq!(std::path::Path::new(path).file_name(), None);
    }
    for path in ["a", "/a", "./a", "d/a/", "d//a", "d/./a", "d/a/.", "../a", "/d/../a//", "...", "a b"] {
        let name = std::path::Path::new(path).file_name().unwrap().to_str().unwrap();
        let lock = key_file_lock_path(path).unwrap();
        assert_eq!(
            std::path::Path::new(&lock),
            std::path::Path::new(path).with_file_name(format!(".{name}.lock"))
        );
    }
    assert_eq!(lock_file_name("a"), ".a.lock");
    assert_eq!(temp_file_name("a", 12), ".a.12.tmp");
    assert_eq!(hex_string(&[0, 0x1f, 0xff]), "001fff");
}

#[test]
fn keys_are_kept_in_files() {
    assert_eq!(server_key_path("/d"), "/d/secret.key");
    assert_eq!(
        default_client_key_path(Some("/home/a")).unwrap(),
        "/home/a/.config/drv-thru/secret.key"
    );
    assert!(default_client_key_path(None).is_err());
    assert_eq!(key_file_lock_path("/d/secret.key").unwrap(), "/d/.secret.key.lock");
    let secret = iroh::SecretKey::generate();
    assert_eq!(read_key("/k", &secret.to_bytes()).unwrap(), secret.to_bytes());
    let hex = format!("{}\n", hex_string(&secret.to_bytes()));
    assert_eq!(read_key("/k", hex.as_bytes()).unwrap(), secret.to_bytes());
    assert_eq!(
        read_key("/k", b"nonsense").unwrap_err().messages(),
        [
            "parse /k".to_string(),
            "nonsense".parse::<iroh::SecretKey>().unwrap_err().to_string()
        ]
    );
    assert_eq!(
        read_key("/k", &[0xff]).unwrap_err().messages(),
        [
            "/k is not a raw or text secret key".to_string(),
            String::from_utf8(vec![0xff]).unwrap_err().to_string()
        ]
    );
    assert!(matches!(
        key_contents("/k", &[7; 32]),
        Ok(KeyContents::Raw { key }) if key == [7; 32]
    ));
    assert!(matches!(
        key_contents("/k", b" abc\n"),
        Ok(KeyContents::Text { text }) if text == "abc"
    ));
    assert!(key_contents("/k", &[0xff]).is_err());
    assert_eq!(key_of_text("/k", Ok([7; 32])).unwrap(), [7; 32]);
    assert_eq!(
        key_of_text("/k", Err("why".to_string())).unwrap_err().messages(),
        ["parse /k", "why"]
    );
    assert!(check_key_permissions("/k", 0o100600).is_ok());
    assert!(check_key_permissions("/k", 0o100640).is_err());
}

#[test]
fn locks_have_owners() {
    let text = current_owner_text(7, Some("99"));
    let owner = parse_owner(&text).unwrap();
    assert_eq!(owner.pid, 7);
    assert_eq!(owner.start_time.as_deref(), Some("99"));
    assert!(owner_is_live(&text, Some("99")));
    assert!(!owner_is_live(&text, Some("98")));
    assert!(!owner_is_live(&text, None));
    assert!(!owner_is_live("nonsense", Some("99")));
    assert_eq!(lock_holder(" 12\n"), Some(12));
    assert_eq!(stale_lock("12", true), StaleLock::Keep);
    assert_eq!(stale_lock("12", false), StaleLock::Remove);
    assert_eq!(stale_lock("x", true), StaleLock::Remove);
    let fields: Vec<String> = (3..=30).map(|n| n.to_string()).collect();
    let stat = format!("12 (a ) b) {}", fields.join(" "));
    assert_eq!(process_start_time(&stat).as_deref(), Some("22"));
    assert_eq!(process_start_time("12 (x) S"), None);
}
