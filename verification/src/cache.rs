//! The paths of a Nix binary cache, and what they may be.

use vstd::prelude::*;

use crate::error;
use crate::error::Error;
use crate::paths;
use crate::paths::join_path;
use crate::text;
use crate::text::{
    chars_of, concat2, contains_char, contains_str, ends_with, letter_or_digit_char, lines_of,
    nix_base32_char, same_text, split_chars, split_once_chars, starts_with, string_of,
    strip_prefix_chars, strip_suffix_chars,
};

verus! {

/// A store hash: thirty-two characters of the Nix alphabet.
pub open spec fn is_store_hash(s: Seq<char>) -> bool {
    &&& s.len() == 32
    &&& forall|i: int| 0 <= i < s.len() ==> text::is_nix_base32(#[trigger] s[i])
}

pub open spec fn is_cache_file_char(c: char) -> bool {
    ||| text::is_ascii_letter_or_digit(c)
    ||| c == '-'
    ||| c == '_'
    ||| c == '.'
    ||| c == '+'
    ||| c == '='
}

/// A component that names an entry of its directory.
pub open spec fn is_plain_segment(s: Seq<char>) -> bool {
    &&& s.len() > 0
    &&& s != "."@
    &&& s != ".."@
    &&& forall|i: int| 0 <= i < s.len() ==> is_cache_file_char(#[trigger] s[i])
}

/// A path whose components all name entries.
pub open spec fn is_plain_path(s: Seq<char>) -> bool {
    let segments = text::split(s, '/');
    forall|i: int| 0 <= i < segments.len() ==> is_plain_segment(#[trigger] segments[i])
}

/// The name of an archive, which may be compressed.
pub open spec fn is_nar_name(name: Seq<char>) -> bool {
    ".nar"@.is_suffix_of(name) || text::contains_text(name, ".nar."@)
}

/// A `.narinfo` file: named by a store hash, at the top of the cache.
pub open spec fn is_narinfo_path(path: Seq<char>) -> bool {
    match text::strip_suffix(path, ".narinfo"@) {
        Some(stem) => !path.contains('/') && is_store_hash(stem),
        None => false,
    }
}

/// An archive: a plain path below `nar/` to a file with an archive's name.
pub open spec fn is_nar_path(path: Seq<char>) -> bool {
    match text::strip_prefix(path, "nar/"@) {
        Some(rest) => is_plain_path(rest) && is_nar_name(text::split(rest, '/').last()),
        None => false,
    }
}

/// What a request for a cache path comes to: the path itself, or what is wrong
/// with it.
pub open spec fn checked_cache_path(path: Seq<char>) -> Result<Seq<char>, Seq<Seq<char>>> {
    if path == "nix-cache-info"@ {
        Ok(path)
    } else if "/"@.is_prefix_of(path) || path.contains('\\') {
        Err(seq!["invalid cache path: "@ + path])
    } else if ".narinfo"@.is_suffix_of(path) {
        if is_narinfo_path(path) {
            Ok(path)
        } else {
            Err(seq!["invalid narinfo path: "@ + path])
        }
    } else if "nar/"@.is_prefix_of(path) {
        if is_nar_path(path) {
            Ok(path)
        } else {
            Err(seq!["invalid NAR path: "@ + path])
        }
    } else {
        Err(seq!["unsupported cache path: "@ + path])
    }
}

/// The path of an HTTP request target, without its query.
pub open spec fn target_path(target: Seq<char>) -> Seq<char> {
    match text::split_once(target, '?') {
        Some((path, _query)) => path,
        None => target,
    }
}

pub open spec fn checked_http_path(target: Seq<char>) -> Result<Seq<char>, Seq<Seq<char>>> {
    match text::strip_prefix(target_path(target), "/"@) {
        Some(path) => checked_cache_path(path),
        None => Err(seq!["HTTP cache path must start with /: "@ + target]),
    }
}

pub open spec fn checked_cache_file(cache_dir: Seq<char>, path: Seq<char>) -> Result<
    Seq<char>,
    Seq<Seq<char>>,
> {
    match checked_cache_path(path) {
        Ok(path) => Ok(paths::joined(cache_dir, path)),
        Err(e) => Err(e),
    }
}

/// The cache path that an HTTP request target asks for.
pub fn sanitize_http_cache_path(target: &str) -> (r: Result<String, Error>)
    ensures
        error::text_outcome(r) == checked_http_path(target@),
{
    let chars: Vec<char> = chars_of(target);
    let path: &[char] = match split_once_chars(chars.as_slice(), '?') {
        Some((path, _query)) => path,
        None => chars.as_slice(),
    };
    match strip_prefix_chars(path, "/") {
        Some(path) => sanitize_cache_path(string_of(path).as_str()),
        None => Err(Error::new(concat2("HTTP cache path must start with /: ", target))),
    }
}

/// Accepts the paths of a binary cache, unchanged, and nothing else.
pub fn sanitize_cache_path(path: &str) -> (r: Result<String, Error>)
    ensures
        error::text_outcome(r) == checked_cache_path(path@),
{
    if same_text(path, "nix-cache-info") {
        return Ok(path.to_string());
    }
    let chars: Vec<char> = chars_of(path);
    let whole: &[char] = chars.as_slice();
    if starts_with(whole, "/") || contains_char(whole, '\\') {
        return Err(Error::new(concat2("invalid cache path: ", path)));
    }
    match strip_suffix_chars(whole, ".narinfo") {
        Some(stem) => {
            if !contains_char(whole, '/') && valid_narinfo_stem(stem) {
                return Ok(path.to_string());
            }
            return Err(Error::new(concat2("invalid narinfo path: ", path)));
        },
        None => {},
    }
    match strip_prefix_chars(whole, "nar/") {
        Some(rest) => {
            if valid_relative_segments(rest) && valid_nar_file_name(rest) {
                return Ok(path.to_string());
            }
            return Err(Error::new(concat2("invalid NAR path: ", path)));
        },
        None => {},
    }
    Err(Error::new(concat2("unsupported cache path: ", path)))
}

/// Where a cache path is kept on disk.
pub fn cache_file_path(cache_dir: &str, path: &str) -> (r: Result<String, Error>)
    ensures
        error::text_outcome(r) == checked_cache_file(cache_dir@, path@),
{
    match sanitize_cache_path(path) {
        Ok(path) => Ok(join_path(cache_dir, path.as_str())),
        Err(e) => Err(e),
    }
}

/// Whether a slice of characters is a store hash.
pub fn valid_narinfo_stem(stem: &[char]) -> (r: bool)
    ensures
        r == is_store_hash(stem@),
{
    if stem.len() != 32 {
        return false;
    }
    let mut i: usize = 0;
    while i < stem.len()
        invariant
            i <= stem.len(),
            forall|j: int| 0 <= j < i ==> text::is_nix_base32(#[trigger] stem@[j]),
        decreases stem.len() - i,
    {
        if !nix_base32_char(stem[i]) {
            return false;
        }
        i = i + 1;
    }
    true
}

fn valid_cache_file_char(c: char) -> (r: bool)
    ensures
        r == is_cache_file_char(c),
{
    letter_or_digit_char(c) || c == '-' || c == '_' || c == '.' || c == '+' || c == '='
}

fn valid_segment(segment: &str) -> (r: bool)
    ensures
        r == is_plain_segment(segment@),
{
    let chars: Vec<char> = chars_of(segment);
    if chars.len() == 0 || same_text(segment, ".") || same_text(segment, "..") {
        return false;
    }
    let mut i: usize = 0;
    while i < chars.len()
        invariant
            i <= chars@.len(),
            chars@ == segment@,
            forall|j: int| 0 <= j < i ==> is_cache_file_char(#[trigger] chars@[j]),
        decreases chars@.len() - i,
    {
        if !valid_cache_file_char(chars[i]) {
            assert(!is_cache_file_char(segment@[i as int]));
            return false;
        }
        i = i + 1;
    }
    true
}

fn valid_relative_segments(path: &[char]) -> (r: bool)
    ensures
        r == is_plain_path(path@),
{
    let segments: Vec<String> = split_chars(path, '/');
    let mut i: usize = 0;
    while i < segments.len()
        invariant
            i <= segments@.len(),
            text::texts(segments@) == text::split(path@, '/'),
            forall|j: int|
                0 <= j < i ==> is_plain_segment(#[trigger] text::split(path@, '/')[j]),
        decreases segments@.len() - i,
    {
        assert(text::texts(segments@)[i as int] == segments@[i as int]@);
        if !valid_segment(segments[i].as_str()) {
            assert(!is_plain_segment(text::split(path@, '/')[i as int]));
            return false;
        }
        i = i + 1;
    }
    true
}

fn valid_nar_file_name(path: &[char]) -> (r: bool)
    ensures
        r == is_nar_name(text::split(path@, '/').last()),
{
    let segments: Vec<String> = split_chars(path, '/');
    proof {
        text::lemma_split_not_empty(path@, '/');
        assert(text::texts(segments@).len() == segments@.len());
    }
    let name: Vec<char> = chars_of(segments[segments.len() - 1].as_str());
    ends_with(name.as_slice(), ".nar") || contains_str(name.as_slice(), ".nar.")
}

// ---------------------------------------------------------------------------
// What a narinfo says
// ---------------------------------------------------------------------------

/// The first of the lines that starts with `prefix`, without the prefix.
pub open spec fn first_field(lines: Seq<Seq<char>>, prefix: Seq<char>) -> Option<Seq<char>>
    decreases lines.len(),
{
    if lines.len() == 0 {
        None
    } else {
        match text::strip_prefix(lines[0], prefix) {
            Some(value) => Some(value),
            None => first_field(lines.skip(1), prefix),
        }
    }
}

/// The archive that a narinfo names: its `URL` field, which must be a path
/// below `nar/`.
pub open spec fn narinfo_nar(narinfo: Seq<char>) -> Result<Option<Seq<char>>, Seq<Seq<char>>> {
    match first_field(text::lines(narinfo), "URL: "@) {
        Some(url) => match checked_cache_path(text::trim(url)) {
            Ok(path) => if is_nar_path(path) {
                Ok(Some(path))
            } else {
                Err(seq!["narinfo URL is not a NAR path: "@ + path])
            },
            Err(e) => Err(e),
        },
        None => Ok(None),
    }
}

pub open spec fn narinfo_nar_of_bytes(bytes: Seq<u8>) -> Result<
    Option<Seq<char>>,
    Seq<Seq<char>>,
> {
    if vstd::utf8::valid_utf8(bytes) {
        narinfo_nar(vstd::utf8::decode_utf8(bytes))
    } else {
        Err(seq!["narinfo is not UTF-8"@, text::utf8_error_of(bytes)])
    }
}

/// The views of an optional path, or of an error.
pub open spec fn optional_outcome(r: Result<Option<String>, Error>) -> Result<
    Option<Seq<char>>,
    Seq<Seq<char>>,
> {
    match r {
        Ok(value) => Ok(text::optional_text(value)),
        Err(e) => Err(e@),
    }
}

/// The archive that a narinfo names, where it names one.
pub fn narinfo_nar_path(bytes: &[u8]) -> (r: Result<Option<String>, Error>)
    ensures
        optional_outcome(r) == narinfo_nar_of_bytes(bytes@),
{
    let narinfo: String = match text::text_of_utf8(bytes) {
        Ok(narinfo) => narinfo,
        Err(why) => {
            return Err(Error::caused("narinfo is not UTF-8".to_string(), why));
        },
    };
    let chars: Vec<char> = chars_of(narinfo.as_str());
    let lines: Vec<String> = lines_of(chars.as_slice());
    let url: String = match find_field(lines.as_slice(), "URL: ") {
        Some(url) => text::trim_text(url.as_str()),
        None => {
            return Ok(None);
        },
    };
    let path: String = match sanitize_cache_path(url.as_str()) {
        Ok(path) => path,
        Err(e) => {
            return Err(e);
        },
    };
    let name: Vec<char> = chars_of(path.as_str());
    proof {
        lemma_nar_path(path@);
    }
    if starts_with(name.as_slice(), "nar/") && !ends_with(name.as_slice(), ".narinfo") {
        Ok(Some(path))
    } else {
        Err(Error::new(concat2("narinfo URL is not a NAR path: ", path.as_str())))
    }
}

pub fn find_field(lines: &[String], prefix: &str) -> (r: Option<String>)
    ensures
        text::optional_text(r) == first_field(text::texts(lines@), prefix@),
{
    let ghost all = text::texts(lines@);
    let mut i: usize = 0;
    assert(all.skip(0) =~= all);
    while i < lines.len()
        invariant
            i <= lines.len(),
            all == text::texts(lines@),
            first_field(all, prefix@) == first_field(all.skip(i as int), prefix@),
        decreases lines.len() - i,
    {
        let line: Vec<char> = chars_of(lines[i].as_str());
        assert(all.skip(i as int)[0] == lines@[i as int]@);
        match strip_prefix_chars(line.as_slice(), prefix) {
            Some(value) => {
                return Some(string_of(value));
            },
            None => {},
        }
        assert(all.skip(i as int).skip(1) =~= all.skip(i + 1));
        i = i + 1;
    }
    None
}

/// An accepted path is an archive exactly where it starts with `nar/` and is
/// no narinfo.
proof fn lemma_nar_path(path: Seq<char>)
    requires
        checked_cache_path(path) is Ok,
    ensures
        is_nar_path(path) == ("nar/"@.is_prefix_of(path) && !".narinfo"@.is_suffix_of(path)),
{
    reveal_strlit("nar/");
    reveal_strlit("nix-cache-info");
    if "nar/"@.is_prefix_of(path) {
        assert(path[3] == "nar/"@[3]);
        assert(path[1] == "nar/"@[1]);
        assert(path.contains('/'));
    }
}

/// A text without a separator is its own only component.
proof fn lemma_single_segment(s: Seq<char>)
    requires
        !s.contains('/'),
    ensures
        text::split(s, '/') == seq![s],
{
    text::lemma_find(s, '/');
}

// ---------------------------------------------------------------------------
// Laws
// ---------------------------------------------------------------------------

/// An accepted path is handed back unchanged.
pub proof fn law_accepted_path_is_unchanged(path: Seq<char>)
    requires
        checked_cache_path(path) is Ok,
    ensures
        checked_cache_path(path) == Ok::<Seq<char>, Seq<Seq<char>>>(path),
{
}

/// No accepted path leads out of the cache: it is relative, and each of its
/// components names an entry of the directory before it.
pub proof fn law_accepted_path_stays_inside(path: Seq<char>)
    requires
        checked_cache_path(path) is Ok,
    ensures
        paths::relative(path),
        is_plain_path(path),
{
    reveal_strlit("/");
    reveal_strlit(".");
    reveal_strlit("..");
    if path == "nix-cache-info"@ {
        reveal_strlit("nix-cache-info");
        assert(path[0] == 'n');
        assert(!"/"@.is_prefix_of(path)) by {
            if "/"@.is_prefix_of(path) {
                assert("/"@[0] == path.subrange(0, 1)[0]);
            }
        }
        if path.contains('/') {
            let i = choose|i: int| 0 <= i < path.len() && path[i] == '/';
            assert(path[i] != '/');
        }
        lemma_single_segment(path);
    } else if ".narinfo"@.is_suffix_of(path) {
        reveal_strlit(".narinfo");
        let stem = path.take(path.len() - 8);
        assert forall|i: int| 0 <= i < path.len() implies is_cache_file_char(#[trigger] path[i]) by {
            if i < 32 {
                assert(path[i] == stem[i]);
            } else {
                assert(path[i] == ".narinfo"@[i - 32]);
            }
        }
        lemma_single_segment(path);
    } else {
        reveal_strlit("nar/");
        let rest = path.skip(4);
        assert forall|i: int| 0 <= i < 4 implies path[i] == "nar/"@[i] by {
            assert(path.subrange(0, 4)[i] == path[i]);
        }
        text::lemma_find_is(path, '/', 3);
        assert(text::split(path, '/') == seq![path.take(3)] + text::split(rest, '/'));
        let segments = text::split(path, '/');
        assert forall|i: int| 0 <= i < segments.len() implies is_plain_segment(
            #[trigger] segments[i],
        ) by {
            if i == 0 {
                assert(segments[0] == path.take(3));
            } else {
                assert(segments[i] == text::split(rest, '/')[i - 1]);
            }
        }
    }
}

/// A character that a name in the cache may have.
pub open spec fn is_file_character(c: char) -> bool {
    ('a' <= c <= 'z') || ('A' <= c <= 'Z') || ('0' <= c <= '9') || c == '-' || c == '_' || c == '.'
        || c == '+' || c == '='
}

/// An archive directly below `nar/`, compressed or not, is a path of the cache.
pub proof fn law_archives_are_cache_paths(name: Seq<char>)
    requires
        forall|i: int| 0 <= i < name.len() ==> is_file_character(#[trigger] name[i]),
        ".nar"@.is_suffix_of(name) || text::contains_text(name, ".nar."@),
        !".narinfo"@.is_suffix_of(name),
    ensures
        is_nar_path("nar/"@ + name),
        checked_cache_path("nar/"@ + name) == Ok::<Seq<char>, Seq<Seq<char>>>("nar/"@ + name),
{
    let path = "nar/"@ + name;
    reveal_strlit("nar/");
    reveal_strlit(".nar");
    reveal_strlit(".nar.");
    reveal_strlit(".");
    reveal_strlit("..");
    reveal_strlit("/");
    reveal_strlit(".narinfo");
    reveal_strlit("nix-cache-info");
    if ".nar"@.is_suffix_of(name) {
        assert(name.len() >= 4);
    } else {
        let at = choose|at: int| text::stands_at(name, ".nar."@, at);
        assert(name.len() >= 5);
    }
    assert("nar/"@ =~= path.subrange(0, 4));
    assert(path.skip(4) =~= name);
    assert(text::strip_prefix(path, "nar/"@) == Some(name));
    assert forall|i: int| 0 <= i < name.len() implies name[i] != '/' && is_cache_file_char(
        #[trigger] name[i],
    ) by {
        assert(is_file_character(name[i]));
    }
    assert(!name.contains('/'));
    lemma_single_segment(name);
    assert(is_plain_segment(name));
    assert(text::split(name, '/').last() == name);
    assert(path[0] == 'n' && path[1] == 'a');
    assert(path != "nix-cache-info"@) by {
        if path == "nix-cache-info"@ {
            assert("nix-cache-info"@[1] == 'i');
        }
    }
    assert(!"/"@.is_prefix_of(path)) by {
        if "/"@.is_prefix_of(path) {
            assert(path.subrange(0, 1)[0] == '/');
        }
    }
    assert(!path.contains('\\')) by {
        if path.contains('\\') {
            let i = choose|i: int| 0 <= i < path.len() && path[i] == '\\';
            if i >= 4 {
                assert(path[i] == name[i - 4]);
                assert(is_file_character(name[i - 4]));
            }
        }
    }
    assert(!".narinfo"@.is_suffix_of(path)) by {
        if ".narinfo"@.is_suffix_of(path) {
            let end = path.subrange(path.len() - 8, path.len() as int);
            assert(end == ".narinfo"@);
            if name.len() >= 8 {
                assert(name.subrange(name.len() - 8, name.len() as int) =~= end);
            } else {
                let slash = 3 - (path.len() - 8);
                assert(path[3] == '/');
                assert(end[slash] == path[3]);
            }
        }
    }
}

/// Nothing is a path of the cache but what the cache says of itself, the narinfo of a
/// hash, and an archive below `nar/`.
pub proof fn law_cache_paths_are_of_three_kinds(path: Seq<char>)
    ensures
        checked_cache_path("nix-cache-info"@) is Ok,
        checked_cache_path(path) is Ok ==> path == "nix-cache-info"@ || is_narinfo_path(path)
            || is_nar_path(path),
        is_narinfo_path(path) ==> ".narinfo"@.is_suffix_of(path) && is_store_hash(
            path.take(path.len() - ".narinfo"@.len()),
        ),
        is_nar_path(path) ==> "nar/"@.is_prefix_of(path),
{
}

/// The field of a narinfo is what follows its name in the first line that begins with
/// that.
pub proof fn law_fields_are_found(lines: Seq<Seq<char>>, prefix: Seq<char>, i: int)
    requires
        0 <= i < lines.len(),
        prefix.is_prefix_of(lines[i]),
        forall|j: int| 0 <= j < i ==> !prefix.is_prefix_of(#[trigger] lines[j]),
    ensures
        first_field(lines, prefix) == Some(lines[i].skip(prefix.len() as int)),
    decreases i,
{
    if i > 0 {
        let rest = lines.skip(1);
        assert forall|j: int| 0 <= j < i - 1 implies !prefix.is_prefix_of(#[trigger] rest[j]) by {
            assert(rest[j] == lines[j + 1]);
        }
        assert(rest[i - 1] == lines[i]);
        assert(!prefix.is_prefix_of(lines[0]));
        law_fields_are_found(rest, prefix, i - 1);
    }
}

/// A narinfo names the archive in its first `URL` line; one without such a line names
/// none, and one whose URL is no archive is refused.
pub proof fn law_narinfos_name_their_archive(narinfo: Seq<char>, i: int, nar: Seq<char>)
    requires
        0 <= i < text::lines(narinfo).len(),
        "URL: "@.is_prefix_of(text::lines(narinfo)[i]),
        forall|j: int| 0 <= j < i ==> !"URL: "@.is_prefix_of(#[trigger] text::lines(narinfo)[j]),
        nar == text::trim(text::lines(narinfo)[i].skip("URL: "@.len() as int)),
    ensures
        checked_cache_path(nar) is Ok && is_nar_path(nar) ==> narinfo_nar(narinfo) == Ok::<
            Option<Seq<char>>,
            Seq<Seq<char>>,
        >(Some(nar)),
        !(checked_cache_path(nar) is Ok && is_nar_path(nar)) ==> narinfo_nar(narinfo) is Err,
{
    law_fields_are_found(text::lines(narinfo), "URL: "@, i);
}

/// A narinfo without a `URL` line names no archive.
pub proof fn law_narinfos_without_url_name_nothing(narinfo: Seq<char>)
    requires
        forall|j: int|
            0 <= j < text::lines(narinfo).len() ==> !"URL: "@.is_prefix_of(
                #[trigger] text::lines(narinfo)[j],
            ),
    ensures
        narinfo_nar(narinfo) == Ok::<Option<Seq<char>>, Seq<Seq<char>>>(None),
{
    lemma_no_field(text::lines(narinfo), "URL: "@);
}

proof fn lemma_no_field(lines: Seq<Seq<char>>, prefix: Seq<char>)
    requires
        forall|j: int| 0 <= j < lines.len() ==> !prefix.is_prefix_of(#[trigger] lines[j]),
    ensures
        first_field(lines, prefix) is None,
    decreases lines.len(),
{
    if lines.len() > 0 {
        let rest = lines.skip(1);
        assert forall|j: int| 0 <= j < rest.len() implies !prefix.is_prefix_of(
            #[trigger] rest[j],
        ) by {
            assert(rest[j] == lines[j + 1]);
        }
        assert(!prefix.is_prefix_of(lines[0]));
        lemma_no_field(rest, prefix);
    }
}

/// A cache path is asked for over HTTP with a slash before it, and with or without a
/// query behind it.
pub proof fn law_targets_name_cache_paths(path: Seq<char>, query: Seq<char>)
    requires
        !path.contains('?'),
    ensures
        checked_http_path("/"@ + path) == checked_cache_path(path),
        checked_http_path("/"@ + path + "?"@ + query) == checked_cache_path(path),
        (path.len() == 0 || path[0] != '/') ==> checked_http_path(path) is Err,
{
    reveal_strlit("/");
    reveal_strlit("?");
    let target = "/"@ + path;
    assert forall|j: int| 0 <= j < target.len() implies target[j] != '?' by {
        if j > 0 {
            assert(target[j] == path[j - 1]);
            if target[j] == '?' {
                assert(path.contains('?'));
            }
        }
    }
    text::lemma_find_is(target, '?', target.len() as int);
    assert("/"@ =~= target.subrange(0, 1));
    assert(target.skip(1) =~= path);
    let long = target + "?"@ + query;
    assert forall|j: int| 0 <= j < target.len() implies long[j] != '?' by {
        assert(long[j] == target[j]);
    }
    text::lemma_find_is(long, '?', target.len() as int);
    assert(long.take(target.len() as int) =~= target);
    text::lemma_find(path, '?');
    if path.len() == 0 || path[0] != '/' {
        assert(!"/"@.is_prefix_of(path)) by {
            if "/"@.is_prefix_of(path) {
                assert(path.subrange(0, 1)[0] == '/');
            }
        }
    }
}

/// An archive is no narinfo and is not what the cache says of itself.
pub proof fn lemma_archives_are_no_narinfos(path: Seq<char>)
    requires
        is_nar_path(path),
        checked_cache_path(path) is Ok,
    ensures
        path != "nix-cache-info"@,
        !".narinfo"@.is_suffix_of(path),
        "nar/"@.is_prefix_of(path),
{
    reveal_strlit("nar/");
    reveal_strlit("nix-cache-info");
    assert(path.subrange(0, 4)[1] == "nar/"@[1]);
    assert(path.subrange(0, 4)[3] == "nar/"@[3]);
    assert(path.contains('/')) by {
        assert(path[3] == '/');
    }
    if path == "nix-cache-info"@ {
        assert("nix-cache-info"@[1] == 'i');
    }
}

/// What is no path of a cache is refused, for the first reason there is, and
/// with the path.
pub proof fn law_other_cache_paths_are_refused(path: Seq<char>)
    requires
        path != "nix-cache-info"@,
    ensures
        "/"@.is_prefix_of(path) || path.contains('\\') ==> checked_cache_path(path) == Err::<
            Seq<char>,
            Seq<Seq<char>>,
        >(seq!["invalid cache path: "@ + path]),
        !"/"@.is_prefix_of(path) && !path.contains('\\') ==> {
            &&& ".narinfo"@.is_suffix_of(path) && !is_narinfo_path(path) ==> checked_cache_path(
                path,
            ) == Err::<Seq<char>, Seq<Seq<char>>>(seq!["invalid narinfo path: "@ + path])
            &&& !".narinfo"@.is_suffix_of(path) && "nar/"@.is_prefix_of(path) && !is_nar_path(path)
                ==> checked_cache_path(path) == Err::<Seq<char>, Seq<Seq<char>>>(
                seq!["invalid NAR path: "@ + path],
            )
            &&& !".narinfo"@.is_suffix_of(path) && !"nar/"@.is_prefix_of(path)
                ==> checked_cache_path(path) == Err::<Seq<char>, Seq<Seq<char>>>(
                seq!["unsupported cache path: "@ + path],
            )
        },
{
}

/// A request target that does not begin with `/` is refused. A narinfo whose URL
/// names something else of the cache than an archive is refused too, as is one
/// that is no text.
pub proof fn law_other_targets_are_refused(target: Seq<char>, narinfo: Seq<char>, bytes: Seq<u8>)
    ensures
        !target.contains('?') && !"/"@.is_prefix_of(target) ==> checked_http_path(target) == Err::<
            Seq<char>,
            Seq<Seq<char>>,
        >(seq!["HTTP cache path must start with /: "@ + target]),
        match first_field(text::lines(narinfo), "URL: "@) {
            Some(url) => match checked_cache_path(text::trim(url)) {
                Ok(path) => !is_nar_path(path) ==> narinfo_nar(narinfo) == Err::<
                    Option<Seq<char>>,
                    Seq<Seq<char>>,
                >(seq!["narinfo URL is not a NAR path: "@ + path]),
                Err(e) => narinfo_nar(narinfo) == Err::<Option<Seq<char>>, Seq<Seq<char>>>(e),
            },
            None => narinfo_nar(narinfo) == Ok::<Option<Seq<char>>, Seq<Seq<char>>>(None),
        },
        !vstd::utf8::valid_utf8(bytes) ==> (narinfo_nar_of_bytes(bytes) matches Err(e) && e.len()
            == 2 && e[0] == "narinfo is not UTF-8"@),
        vstd::utf8::valid_utf8(bytes) ==> narinfo_nar_of_bytes(bytes) == narinfo_nar(
            vstd::utf8::decode_utf8(bytes),
        ),
{
    text::lemma_find(target, '?');
    if !target.contains('?') && text::find(target, '?') < target.len() {
        assert(target[text::find(target, '?')] == '?');
    }
}

/// A name of a file in a cache that stands for a directory is none.
pub proof fn law_no_path_leads_upwards()
    ensures
        !is_plain_segment("."@),
        !is_plain_segment(".."@),
        !is_plain_segment(Seq::empty()),
{
}

} // verus!
