//! The builder's signed binary cache, and which of its files a client may
//! read.

use vstd::prelude::*;

use crate::cache;
use crate::cache::{cache_file_path, narinfo_nar_path, sanitize_cache_path};
use crate::collections::{StrMap, StrSet};
use crate::error;
use crate::error::Error;
use crate::hex;
use crate::hex::hex_string;
use crate::nix;
use crate::nix::commands;
use crate::nix::{contains_path, store_path_hash, StorePath};
use crate::paths;
use crate::paths::join_path;
use crate::proto;
use crate::proto::{CacheFileRequest, CacheFileResponse, Incoming, Message, MessageView};
use crate::text;
use crate::text::{
    chars_of, concat2, concat3, contains_char, decimal_string, ends_with, lines_of, same_text,
    split_once_chars, starts_with, string_of, strip_suffix_chars,
};

verus! {

/// What every binary cache says of itself.
pub const NIX_CACHE_INFO: &'static str = "StoreDir: /nix/store\n";

// ---------------------------------------------------------------------------
// Where the cache is
// ---------------------------------------------------------------------------

/// The directory for what a key signed: named by the whole key.
pub open spec fn key_dir(public_key: Seq<char>) -> Seq<char> {
    "key-"@ + hex::hex_text(vstd::utf8::encode_utf8(public_key))
}

pub fn signing_cache_dir_name(public_key: &str) -> (r: String)
    ensures
        r@ == key_dir(public_key@),
{
    concat2("key-", hex_string(public_key.as_bytes()).as_str())
}

/// The cache of a builder that signs with a key.
pub fn output_cache_dir(data_dir: &str, public_key: &str) -> (r: String)
    ensures
        r@ == paths::joined(paths::joined(data_dir@, "cache"@), key_dir(public_key@)),
{
    let cache_dir: String = join_path(data_dir, "cache");
    join_path(cache_dir.as_str(), signing_cache_dir_name(public_key).as_str())
}

/// What different keys signed is kept apart.
pub proof fn law_keys_have_their_own_caches(a: Seq<char>, b: Seq<char>)
    requires
        key_dir(a) == key_dir(b),
    ensures
        a == b,
{
    let prefix = "key-"@;
    let x = vstd::utf8::encode_utf8(a);
    let y = vstd::utf8::encode_utf8(b);
    assert(hex::hex_text(x) =~= key_dir(a).skip(prefix.len() as int));
    assert(hex::hex_text(y) =~= key_dir(b).skip(prefix.len() as int));
    hex::law_hex_text_is_injective(x, y);
    vstd::utf8::encode_utf8_decode_utf8(a);
    vstd::utf8::encode_utf8_decode_utf8(b);
}

// ---------------------------------------------------------------------------
// What is in the cache
// ---------------------------------------------------------------------------

/// Whether some line starts with a prefix.
pub open spec fn has_line(lines: Seq<Seq<char>>, prefix: Seq<char>) -> bool {
    exists|i: int| 0 <= i < lines.len() && prefix.is_prefix_of(#[trigger] lines[i])
}

/// Whether a narinfo is signed by the key with a name, as its lines say.
pub open spec fn signed_by(narinfo: Seq<u8>, public_key: Seq<char>) -> Result<
    bool,
    Seq<Seq<char>>,
> {
    match text::split_once(public_key, ':') {
        None => Err(seq!["invalid signing public key"@]),
        Some((name, _key)) => if !vstd::utf8::valid_utf8(narinfo) {
            Err(seq!["narinfo is not UTF-8"@, text::utf8_error_of(narinfo)])
        } else {
            Ok(
                has_line(
                    text::lines(vstd::utf8::decode_utf8(narinfo)),
                    "Sig: "@ + name + ":"@,
                ),
            )
        },
    }
}

pub fn narinfo_signed_by(bytes: &[u8], public_key: &str) -> (r: Result<bool, Error>)
    ensures
        error::outcome(r) == signed_by(bytes@, public_key@),
{
    let key_chars: Vec<char> = chars_of(public_key);
    let name: String = match split_once_chars(key_chars.as_slice(), ':') {
        Some((name, _key)) => string_of(name),
        None => {
            return Err(Error::of("invalid signing public key"));
        },
    };
    let narinfo: String = match text::text_of_utf8(bytes) {
        Ok(narinfo) => narinfo,
        Err(why) => {
            return Err(Error::caused("narinfo is not UTF-8".to_string(), why));
        },
    };
    let prefix: String = concat3("Sig: ", name.as_str(), ":");
    let chars: Vec<char> = chars_of(narinfo.as_str());
    let lines: Vec<String> = lines_of(chars.as_slice());
    let ghost all = text::texts(lines@);
    let mut i: usize = 0;
    while i < lines.len()
        invariant
            i <= lines@.len(),
            all == text::texts(lines@),
            signed_by(bytes@, public_key@) == Ok::<bool, Seq<Seq<char>>>(has_line(all, prefix@)),
            forall|j: int| 0 <= j < i ==> !prefix@.is_prefix_of(#[trigger] all[j]),
        decreases lines@.len() - i,
    {
        let line: Vec<char> = chars_of(lines[i].as_str());
        assert(all[i as int] == line@);
        if starts_with(line.as_slice(), prefix.as_str()) {
            assert(prefix@.is_prefix_of(all[i as int]));
            return Ok(true);
        }
        i = i + 1;
    }
    Ok(false)
}

/// The archive on disk that an entry of the cache needs, where the entry is
/// there, signed and complete.
pub open spec fn entry_archive(
    cache_dir: Seq<char>,
    public_key: Seq<char>,
    narinfo: Option<Seq<u8>>,
) -> Result<Option<Seq<char>>, Seq<Seq<char>>> {
    match narinfo {
        None => Ok(None),
        Some(bytes) => match signed_by(bytes, public_key) {
            Err(e) => Err(e),
            Ok(false) => Ok(None),
            Ok(true) => match cache::narinfo_nar_of_bytes(bytes) {
                Err(e) => Err(e),
                Ok(None) => Ok(None),
                Ok(Some(nar)) => match cache::checked_cache_file(cache_dir, nar) {
                    Err(e) => Err(e),
                    Ok(file) => Ok(Some(file)),
                },
            },
        },
    }
}

pub open spec fn optional_slice(bytes: Option<&[u8]>) -> Option<Seq<u8>> {
    match bytes {
        Some(bytes) => Some(bytes@),
        None => None,
    }
}

/// The archive that has to be on disk for an entry to be ready, or `None`
/// where the entry has to be made. `narinfo` is what the entry's narinfo
/// holds, where there is one.
pub fn cache_entry_archive(cache_dir: &str, public_key: &str, narinfo: Option<&[u8]>) -> (r: Result<
    Option<String>,
    Error,
>)
    ensures
        cache::optional_outcome(r) == entry_archive(
            cache_dir@,
            public_key@,
            optional_slice(narinfo),
        ),
{
    let bytes: &[u8] = match narinfo {
        Some(bytes) => bytes,
        None => {
            return Ok(None);
        },
    };
    match narinfo_signed_by(bytes, public_key) {
        Err(e) => {
            return Err(e);
        },
        Ok(signed) => {
            if !signed {
                return Ok(None);
            }
        },
    }
    match narinfo_nar_path(bytes) {
        Err(e) => Err(e),
        Ok(None) => Ok(None),
        Ok(Some(nar)) => match cache_file_path(cache_dir, nar.as_str()) {
            Err(e) => Err(e),
            Ok(file) => Ok(Some(file)),
        },
    }
}

/// How far the making of a cache entry has come when its readiness is looked
/// at.
#[derive(Debug, Clone, Copy, PartialEq, Eq, Structural)]
pub enum FillStage {
    /// Nothing is held.
    Unlocked,
    /// The lock of the entry is held.
    Locked,
    /// The entry was made.
    Filled,
}

/// What is done about a cache entry.
#[derive(Debug, Clone, Copy, PartialEq, Eq, Structural)]
pub enum FillStep {
    /// It is ready.
    Serve,
    /// Take its lock and look again.
    TakeLock,
    /// Make it, and look again.
    Fill,
    /// It was made and is still not ready.
    Fail,
}

/// An entry that is ready is served; one that is not is made under its lock,
/// once.
pub fn fill_step(stage: FillStage, ready: bool) -> (step: FillStep)
    ensures
        step == (if ready {
            FillStep::Serve
        } else {
            match stage {
                FillStage::Unlocked => FillStep::TakeLock,
                FillStage::Locked => FillStep::Fill,
                FillStage::Filled => FillStep::Fail,
            }
        }),
{
    if ready {
        return FillStep::Serve;
    }
    match stage {
        FillStage::Unlocked => FillStep::TakeLock,
        FillStage::Locked => FillStep::Fill,
        FillStage::Filled => FillStep::Fail,
    }
}

/// The error where an entry was made and is still not ready.
pub fn fill_failed(store_path: &StorePath) -> (e: Error)
    ensures
        e@ == seq!["cache entry was not ready after fill: "@ + store_path@],
{
    Error::new(concat2("cache entry was not ready after fill: ", store_path.as_str()))
}

/// The narinfo of a store path.
pub open spec fn narinfo_of(path: Seq<char>) -> Seq<char> {
    nix::hash_of(path) + ".narinfo"@
}

pub fn narinfo_path_for_store_path(path: &StorePath) -> (r: String)
    ensures
        r@ == narinfo_of(path@),
{
    concat2(store_path_hash(path).as_str(), ".narinfo")
}

/// The narinfo of a store path is a path of the cache.
pub proof fn law_narinfo_paths_are_cache_paths(path: Seq<char>)
    requires
        nix::is_store_path(path),
    ensures
        cache::checked_cache_path(narinfo_of(path)) == Ok::<Seq<char>, Seq<Seq<char>>>(
            narinfo_of(path),
        ),
{
    let hash = nix::hash_of(path);
    let name = narinfo_of(path);
    reveal_strlit(".narinfo");
    reveal_strlit("/");
    assert(name.take(name.len() - 8) =~= hash);
    assert(name.subrange(name.len() - 8, name.len() as int) =~= ".narinfo"@);
    assert forall|i: int| 0 <= i < name.len() implies name[i] != '/' && name[i] != '\\' by {
        if i < 32 {
            assert(name[i] == hash[i]);
            assert(text::is_nix_base32(hash[i]));
        } else {
            assert(name[i] == ".narinfo"@[i - 32]);
        }
    }
    assert(!"/"@.is_prefix_of(name)) by {
        if "/"@.is_prefix_of(name) {
            assert("/"@[0] == name.subrange(0, 1)[0]);
        }
    }
}

// ---------------------------------------------------------------------------
// What a client may read
// ---------------------------------------------------------------------------

/// Store paths by their hashes. Of paths with one hash the last counts.
pub open spec fn by_hash(list: Seq<StorePath>) -> Map<Seq<char>, StorePath>
    decreases list.len(),
{
    if list.len() == 0 {
        Map::empty()
    } else {
        by_hash(list.drop_last()).insert(nix::hash_of(list.last()@), list.last())
    }
}

pub fn output_cache_allowed_paths(list: &[StorePath]) -> (r: StrMap<StorePath>)
    ensures
        r@ == by_hash(list@),
{
    let mut map: StrMap<StorePath> = StrMap::new();
    let mut i: usize = 0;
    assert(list@.take(0).len() == 0);
    while i < list.len()
        invariant
            i <= list@.len(),
            map@ == by_hash(list@.take(i as int)),
        decreases list@.len() - i,
    {
        proof {
            assert(list@.take(i + 1).drop_last() =~= list@.take(i as int));
            assert(list@.take(i + 1).last() == list@[i as int]);
        }
        let _ = map.insert(store_path_hash(&list[i]), list[i].clone());
        i = i + 1;
    }
    assert(list@.take(i as int) =~= list@);
    map
}

/// The store path whose narinfo a client asks for, where it may be read.
pub open spec fn allowed_path(path: Seq<char>, allowed: Map<Seq<char>, StorePath>) -> Result<
    Option<Seq<char>>,
    Seq<Seq<char>>,
> {
    match text::strip_suffix(path, ".narinfo"@) {
        None => Err(seq!["not a narinfo path: "@ + path]),
        Some(hash) => if path.contains('/') {
            Err(seq!["invalid narinfo path: "@ + path])
        } else if allowed.contains_key(hash) {
            Ok(Some(allowed[hash]@))
        } else {
            Ok(None)
        },
    }
}

pub fn map_narinfo_to_allowed_store_path<'a>(path: &str, allowed: &'a StrMap<StorePath>) -> (r:
    Result<Option<&'a StorePath>, Error>)
    ensures
        match r {
            Ok(Some(found)) => allowed_path(path@, allowed@) == Ok::<
                Option<Seq<char>>,
                Seq<Seq<char>>,
            >(Some(found@)),
            Ok(None) => allowed_path(path@, allowed@) == Ok::<Option<Seq<char>>, Seq<Seq<char>>>(
                None,
            ),
            Err(e) => allowed_path(path@, allowed@) == Err::<Option<Seq<char>>, Seq<Seq<char>>>(
                e@,
            ),
        },
{
    let chars: Vec<char> = chars_of(path);
    let hash: String = match strip_suffix_chars(chars.as_slice(), ".narinfo") {
        Some(hash) => string_of(hash),
        None => {
            return Err(Error::new(concat2("not a narinfo path: ", path)));
        },
    };
    if contains_char(chars.as_slice(), '/') {
        return Err(Error::new(concat2("invalid narinfo path: ", path)));
    }
    Ok(allowed.get(hash.as_str()))
}

/// What a client may read of the cache: the narinfos of a closure, and the
/// archives that narinfos which it has read name.
pub struct OutputCacheAccess {
    paths_by_hash: StrMap<StorePath>,
    allowed_nar_paths: StrSet,
}

/// The view of what a client may read.
pub struct AccessView {
    pub paths_by_hash: Map<Seq<char>, StorePath>,
    pub nars: Set<Seq<char>>,
}

impl View for OutputCacheAccess {
    type V = AccessView;

    closed spec fn view(&self) -> AccessView {
        AccessView {
            paths_by_hash: self.paths_by_hash@,
            nars: self.allowed_nar_paths@.to_set(),
        }
    }
}

/// What is done about a file that a client asks for.
pub enum CacheFilePlan {
    /// It is what the cache says of itself.
    Info,
    /// The client is told that there is none.
    Missing,
    /// It is the narinfo of a store path, which is made where it is not there.
    Narinfo { store_path: StorePath },
    /// It is an archive.
    Nar,
    /// The request makes no sense.
    Failed { error: Error },
}

/// The view of such a plan.
pub enum CacheFilePlanView {
    Info,
    Missing,
    Narinfo { store_path: Seq<char> },
    Nar,
    Failed { error: Seq<Seq<char>> },
}

impl View for CacheFilePlan {
    type V = CacheFilePlanView;

    open spec fn view(&self) -> CacheFilePlanView {
        match *self {
            CacheFilePlan::Info => CacheFilePlanView::Info,
            CacheFilePlan::Missing => CacheFilePlanView::Missing,
            CacheFilePlan::Narinfo { store_path } => CacheFilePlanView::Narinfo {
                store_path: store_path@,
            },
            CacheFilePlan::Nar => CacheFilePlanView::Nar,
            CacheFilePlan::Failed { error } => CacheFilePlanView::Failed { error: error@ },
        }
    }
}

/// What is done about a file that a client asks for.
pub open spec fn cache_file_plan(path: Seq<char>, access: AccessView) -> CacheFilePlanView {
    match cache::checked_cache_path(path) {
        Err(error) => CacheFilePlanView::Failed { error },
        Ok(path) => if path == "nix-cache-info"@ {
            CacheFilePlanView::Info
        } else if ".narinfo"@.is_suffix_of(path) {
            match allowed_path(path, access.paths_by_hash) {
                Err(error) => CacheFilePlanView::Failed { error },
                Ok(None) => CacheFilePlanView::Missing,
                Ok(Some(store_path)) => CacheFilePlanView::Narinfo { store_path },
            }
        } else if "nar/"@.is_prefix_of(path) {
            if access.nars.contains(path) {
                CacheFilePlanView::Nar
            } else {
                CacheFilePlanView::Missing
            }
        } else {
            CacheFilePlanView::Failed { error: seq!["unsupported cache path: "@ + path] }
        },
    }
}

/// What a client may read that gets a closure, before it read anything.
pub open spec fn first_access(closure: Seq<StorePath>) -> AccessView {
    AccessView { paths_by_hash: by_hash(closure), nars: Set::empty() }
}

/// What a client may read once it gets a narinfo to read.
pub open spec fn with_archive_of(access: AccessView, narinfo: Seq<u8>) -> AccessView {
    match cache::narinfo_nar_of_bytes(narinfo) {
        Ok(Some(nar)) => AccessView { nars: access.nars.insert(nar), ..access },
        _ => access,
    }
}

/// What a client may read that gets a closure, after it got these narinfos to
/// read.
pub open spec fn access_after(closure: Seq<StorePath>, narinfos: Seq<Seq<u8>>) -> AccessView
    decreases narinfos.len(),
{
    if narinfos.len() == 0 {
        first_access(closure)
    } else {
        with_archive_of(access_after(closure, narinfos.drop_last()), narinfos.last())
    }
}

impl OutputCacheAccess {
    /// What a client may read that gets a closure: its narinfos, and no
    /// archive yet.
    pub fn new(list: &[StorePath]) -> (access: Self)
        ensures
            access@ == first_access(list@),
    {
        let access: OutputCacheAccess = OutputCacheAccess {
            paths_by_hash: output_cache_allowed_paths(list),
            allowed_nar_paths: StrSet::new(),
        };
        assert(access@.nars =~= Set::<Seq<char>>::empty());
        access
    }

    /// Decides about a file that the client asks for.
    pub fn plan(&self, path: &str) -> (r: CacheFilePlan)
        ensures
            r@ == cache_file_plan(path@, self@),
    {
        let path: String = match sanitize_cache_path(path) {
            Ok(path) => path,
            Err(error) => {
                return CacheFilePlan::Failed { error };
            },
        };
        if same_text(path.as_str(), "nix-cache-info") {
            return CacheFilePlan::Info;
        }
        let chars: Vec<char> = chars_of(path.as_str());
        if ends_with(chars.as_slice(), ".narinfo") {
            return match map_narinfo_to_allowed_store_path(path.as_str(), &self.paths_by_hash) {
                Err(error) => CacheFilePlan::Failed { error },
                Ok(None) => CacheFilePlan::Missing,
                Ok(Some(store_path)) => CacheFilePlan::Narinfo { store_path: store_path.clone() },
            };
        }
        if starts_with(chars.as_slice(), "nar/") {
            return if self.allowed_nar_paths.contains(path.as_str()) {
                CacheFilePlan::Nar
            } else {
                CacheFilePlan::Missing
            };
        }
        CacheFilePlan::Failed {
            error: Error::new(concat2("unsupported cache path: ", path.as_str())),
        }
    }

    /// The client is about to read a narinfo: it may read the archive that the
    /// narinfo names.
    pub fn allow_archive_of(&mut self, narinfo: &[u8]) -> (r: Result<(), Error>)
        ensures
            final(self)@ == with_archive_of(old(self)@, narinfo@),
            match r {
                Ok(()) => cache::narinfo_nar_of_bytes(narinfo@) is Ok,
                Err(e) => cache::narinfo_nar_of_bytes(narinfo@) == Err::<
                    Option<Seq<char>>,
                    Seq<Seq<char>>,
                >(e@),
            },
    {
        match narinfo_nar_path(narinfo) {
            Err(e) => Err(e),
            Ok(None) => Ok(()),
            Ok(Some(nar)) => {
                let _ = self.allowed_nar_paths.insert(nar);
                Ok(())
            },
        }
    }
}

/// What the client asks for.
pub open spec fn asked_file(message: MessageView, shown: Seq<char>) -> Result<
    (Seq<char>, bool),
    Seq<Seq<char>>,
> {
    match message {
        MessageView::CacheFileRequest { path, send_body } => Ok((path, send_body)),
        _ => Err(proto::unexpected("unexpected cache file request"@, shown)),
    }
}

/// Reads what the client asks for.
pub fn read_cache_file_request(incoming: Incoming) -> (r: Result<CacheFileRequest, Error>)
    ensures
        match r {
            Ok(request) => asked_file(incoming.message@, incoming.shown@) == Ok::<
                (Seq<char>, bool),
                Seq<Seq<char>>,
            >((request.path@, request.send_body)),
            Err(e) => asked_file(incoming.message@, incoming.shown@) == Err::<
                (Seq<char>, bool),
                Seq<Seq<char>>,
            >(e@),
        },
{
    let Incoming { message, shown } = incoming;
    match message {
        Message::CacheFileRequest(request) => Ok(request),
        _ => Err(Error::new(concat3("unexpected cache file request", ": ", shown.as_str()))),
    }
}

/// The message that says whether there is a file, and how long it is.
pub fn cache_file_response(found: bool, byte_count: u64) -> (m: Message)
    ensures
        m@ == (MessageView::CacheFileResponse { found, byte_count }),
{
    Message::CacheFileResponse(CacheFileResponse { found, byte_count })
}

pub open spec fn short_read(what: Seq<char>, copied: u64, byte_count: u64) -> Option<Seq<char>> {
    if copied != byte_count {
        Some(
            what + ": "@ + text::decimal(copied as nat) + " of "@ + text::decimal(
                byte_count as nat,
            ) + " bytes"@,
        )
    } else {
        None
    }
}

/// Fails where not all of a file was copied.
pub fn check_copied(what: &str, copied: u64, byte_count: u64) -> (r: Result<(), Error>)
    ensures
        match r {
            Ok(()) => short_read(what@, copied, byte_count) is None,
            Err(e) => short_read(what@, copied, byte_count) matches Some(fault) && e@ == seq![
                fault,
            ],
        },
{
    if copied != byte_count {
        let mut message: String = concat3(what, ": ", decimal_string(copied).as_str());
        message.append(" of ");
        message.append(decimal_string(byte_count).as_str());
        message.append(" bytes");
        return Err(Error::new(message));
    }
    Ok(())
}

// ---------------------------------------------------------------------------
// What a client asks for
// ---------------------------------------------------------------------------

/// What is wrong with a path that a client asks for.
pub open spec fn request_fault(path: Seq<char>, allowed: Seq<Seq<char>>) -> Option<Seq<char>> {
    match nix::store_path_fault(path) {
        Some(fault) => Some(fault),
        None => if !allowed.contains(path) {
            Some("requested output path was not built: "@ + path)
        } else {
            None
        },
    }
}

/// The paths that a client asks for, each once, or what is wrong with the
/// first that it may not have.
pub open spec fn requested_paths(request: Seq<Seq<char>>, allowed: Seq<Seq<char>>) -> Result<
    Seq<Seq<char>>,
    Seq<Seq<char>>,
>
    decreases request.len(),
{
    if request.len() == 0 {
        Ok(Seq::empty())
    } else {
        match requested_paths(request.drop_last(), allowed) {
            Err(e) => Err(e),
            Ok(earlier) => match request_fault(request.last(), allowed) {
                Some(fault) => Err(seq![fault]),
                None => Ok(
                    if earlier.contains(request.last()) {
                        earlier
                    } else {
                        earlier.push(request.last())
                    },
                ),
            },
        }
    }
}

proof fn lemma_requested_fails(request: Seq<Seq<char>>, allowed: Seq<Seq<char>>, n: int)
    requires
        0 <= n <= request.len(),
        requested_paths(request.take(n), allowed) is Err,
    ensures
        requested_paths(request, allowed) == requested_paths(request.take(n), allowed),
    decreases request.len() - n,
{
    if n < request.len() {
        assert(request.take(n + 1).drop_last() =~= request.take(n));
        lemma_requested_fails(request, allowed, n + 1);
    } else {
        assert(request.take(n) =~= request);
    }
}

pub fn requested_output_paths(request: &[String], allowed_paths: &[StorePath]) -> (r: Result<
    Vec<StorePath>,
    Error,
>)
    ensures
        nix::paths_outcome(r) == requested_paths(
            text::texts(request@),
            nix::path_texts(allowed_paths@),
        ),
{
    let ghost asked = text::texts(request@);
    let ghost allowed = nix::path_texts(allowed_paths@);
    let mut out: Vec<StorePath> = Vec::new();
    let mut i: usize = 0;
    assert(asked.take(0).len() == 0);
    assert(nix::path_texts(out@) =~= Seq::<Seq<char>>::empty());
    while i < request.len()
        invariant
            i <= request@.len(),
            asked == text::texts(request@),
            allowed == nix::path_texts(allowed_paths@),
            requested_paths(asked.take(i as int), allowed) == Ok::<Seq<Seq<char>>, Seq<Seq<char>>>(
                nix::path_texts(out@),
            ),
        decreases request@.len() - i,
    {
        proof {
            assert(asked.take(i + 1).drop_last() =~= asked.take(i as int));
            assert(asked.take(i + 1).last() == request@[i as int]@);
        }
        let path: StorePath = match StorePath::new(request[i].as_str()) {
            Ok(path) => path,
            Err(e) => {
                proof {
                    lemma_requested_fails(asked, allowed, i + 1);
                }
                return Err(e);
            },
        };
        if !contains_path(allowed_paths, &path) {
            proof {
                lemma_requested_fails(asked, allowed, i + 1);
            }
            return Err(
                Error::new(concat2("requested output path was not built: ", path.as_str())),
            );
        }
        if !contains_path(out.as_slice(), &path) {
            let ghost earlier = nix::path_texts(out@);
            let ghost added = path@;
            out.push(path);
            assert(nix::path_texts(out@) =~= earlier.push(added));
        }
        i = i + 1;
    }
    assert(asked.take(i as int) =~= asked);
    Ok(out)
}

// ---------------------------------------------------------------------------
// Laws
// ---------------------------------------------------------------------------

/// What a client gets of what it asks for: each path once, nothing that it did
/// not ask for, and nothing that was not built.
pub proof fn law_requested_paths_were_built(request: Seq<Seq<char>>, allowed: Seq<Seq<char>>)
    ensures
        requested_paths(request, allowed) matches Ok(list) ==> {
            &&& list == commands::distinct(request)
            &&& forall|i: int|
                0 <= i < request.len() ==> nix::is_store_path(#[trigger] request[i])
                    && allowed.contains(request[i])
        },
        (forall|i: int|
            0 <= i < request.len() ==> request_fault(#[trigger] request[i], allowed) is None)
            ==> requested_paths(request, allowed) is Ok,
    decreases request.len(),
{
    if request.len() > 0 {
        let shorter = request.drop_last();
        law_requested_paths_were_built(shorter, allowed);
        if requested_paths(request, allowed) is Ok {
            assert forall|i: int| 0 <= i < request.len() implies nix::is_store_path(
                #[trigger] request[i],
            ) && allowed.contains(request[i]) by {
                if i < shorter.len() {
                    assert(shorter[i] == request[i]);
                }
            }
        }
        if forall|i: int|
            0 <= i < request.len() ==> request_fault(#[trigger] request[i], allowed) is None {
            assert forall|i: int| 0 <= i < shorter.len() implies request_fault(
                #[trigger] shorter[i],
                allowed,
            ) is None by {
                assert(shorter[i] == request[i]);
            }
            assert(request_fault(request[request.len() - 1], allowed) is None);
        }
    } else {
        assert(commands::distinct(request) =~= Seq::<Seq<char>>::empty());
    }
}

/// The paths that are found by their hashes are those of the list.
pub proof fn lemma_by_hash(list: Seq<StorePath>, hash: Seq<char>)
    ensures
        by_hash(list).contains_key(hash) == (exists|i: int|
            0 <= i < list.len() && nix::hash_of((#[trigger] list[i])@) == hash),
        by_hash(list).contains_key(hash) ==> list.contains(by_hash(list)[hash]) && nix::hash_of(
            by_hash(list)[hash]@,
        ) == hash,
    decreases list.len(),
{
    if list.len() > 0 {
        let shorter = list.drop_last();
        lemma_by_hash(shorter, hash);
        assert(list[list.len() - 1] == list.last());
        if exists|i: int| 0 <= i < list.len() && nix::hash_of((#[trigger] list[i])@) == hash {
            let i = choose|i: int|
                0 <= i < list.len() && nix::hash_of((#[trigger] list[i])@) == hash;
            if i < shorter.len() {
                assert(shorter[i] == list[i]);
            }
        }
        if by_hash(shorter).contains_key(hash) {
            let i = choose|i: int| 0 <= i < shorter.len() && shorter[i] == by_hash(shorter)[hash];
            assert(list[i] == shorter[i]);
        }
    }
}

/// An archive that one of these narinfos names.
pub open spec fn names_archive(narinfos: Seq<Seq<u8>>, i: int, path: Seq<char>) -> bool {
    cache::narinfo_nar_of_bytes(narinfos[i]) == Ok::<Option<Seq<char>>, Seq<Seq<char>>>(Some(path))
}

/// However many narinfos a client got to read, it may read the archives that
/// these narinfos name, and no others. The narinfos that it may read stay those
/// of its closure.
pub proof fn law_archives_are_named_by_narinfos(
    path: Seq<char>,
    closure: Seq<StorePath>,
    narinfos: Seq<Seq<u8>>,
)
    ensures
        access_after(closure, narinfos).paths_by_hash == by_hash(closure),
        access_after(closure, narinfos).nars.contains(path) <==> exists|i: int|
            0 <= i < narinfos.len() && #[trigger] names_archive(narinfos, i, path),
    decreases narinfos.len(),
{
    if narinfos.len() > 0 {
        let earlier = narinfos.drop_last();
        let last = narinfos.len() - 1;
        law_archives_are_named_by_narinfos(path, closure, earlier);
        assert forall|i: int| 0 <= i < last implies #[trigger] names_archive(narinfos, i, path)
            == names_archive(earlier, i, path) by {
            assert(earlier[i] == narinfos[i]);
        }
        if exists|i: int| 0 <= i < earlier.len() && #[trigger] names_archive(earlier, i, path) {
            let i = choose|i: int|
                0 <= i < earlier.len() && #[trigger] names_archive(earlier, i, path);
            assert(names_archive(narinfos, i, path));
        }
        if names_archive(narinfos, last, path) {
            assert(access_after(closure, narinfos).nars.contains(path));
        }
    }
}

/// A client reads no narinfo but those of the closure that it gets, each under
/// its own name, and no archive but those that the narinfos name which it got to
/// read.
pub proof fn law_clients_read_their_closure_only(
    path: Seq<char>,
    closure: Seq<StorePath>,
    narinfos: Seq<Seq<u8>>,
)
    ensures
        match cache_file_plan(path, access_after(closure, narinfos)) {
            CacheFilePlanView::Narinfo { store_path } => nix::path_texts(closure).contains(
                store_path,
            ) && path == narinfo_of(store_path),
            CacheFilePlanView::Nar => cache::is_nar_path(path) && exists|i: int|
                0 <= i < narinfos.len() && #[trigger] names_archive(narinfos, i, path),
            CacheFilePlanView::Info => path == "nix-cache-info"@,
            _ => true,
        },
{
    law_archives_are_named_by_narinfos(path, closure, narinfos);
    match cache_file_plan(path, access_after(closure, narinfos)) {
        CacheFilePlanView::Narinfo { store_path } => {
            let hash = text::strip_suffix(path, ".narinfo"@)->0;
            lemma_by_hash(closure, hash);
            let i = choose|i: int| 0 <= i < closure.len() && closure[i] == by_hash(closure)[hash];
            assert(nix::path_texts(closure)[i] == store_path);
            assert(path =~= hash + ".narinfo"@) by {
                let n = path.len() - ".narinfo"@.len();
                assert(path.subrange(n, path.len() as int) == ".narinfo"@);
                assert(path =~= path.take(n) + path.subrange(n, path.len() as int));
            }
        },
        _ => {},
    }
}

/// Every narinfo of the closure is served, as that of a path of the closure with this
/// hash, and so are what the cache says of itself and each archive that a narinfo
/// names which the client got to read.
pub proof fn law_closures_are_served(
    closure: Seq<StorePath>,
    narinfos: Seq<Seq<u8>>,
    i: int,
    k: int,
    nar: Seq<char>,
)
    requires
        0 <= i < closure.len(),
        nix::is_store_path(closure[i]@),
    ensures
        cache_file_plan("nix-cache-info"@, access_after(closure, narinfos)) is Info,
        cache_file_plan(
            nix::hash_of(closure[i]@) + ".narinfo"@,
            access_after(closure, narinfos),
        ) matches CacheFilePlanView::Narinfo { store_path } && nix::hash_of(store_path)
            == nix::hash_of(closure[i]@) && nix::path_texts(closure).contains(store_path),
        (forall|j: int|
            0 <= j < closure.len() && j != i ==> nix::hash_of((#[trigger] closure[j])@)
                != nix::hash_of(closure[i]@)) ==> cache_file_plan(
            nix::hash_of(closure[i]@) + ".narinfo"@,
            access_after(closure, narinfos),
        ) == (CacheFilePlanView::Narinfo { store_path: closure[i]@ }),
        0 <= k < narinfos.len() && names_archive(narinfos, k, nar) ==> cache_file_plan(
            nar,
            access_after(closure, narinfos),
        ) is Nar,
{
    let path = closure[i]@;
    let hash = nix::hash_of(path);
    let name = narinfo_of(path);
    law_archives_are_named_by_narinfos(nar, closure, narinfos);
    law_narinfo_paths_are_cache_paths(path);
    lemma_by_hash(closure, hash);
    reveal_strlit(".narinfo");
    reveal_strlit("nix-cache-info");
    reveal_strlit("nar/");
    assert(name.take(name.len() - 8) =~= hash);
    assert(name.subrange(name.len() - 8, name.len() as int) =~= ".narinfo"@);
    assert(name != "nix-cache-info"@) by {
        assert(name.len() == 40);
        assert("nix-cache-info"@.len() == 14);
    }
    assert(!name.contains('/')) by {
        assert(cache::is_narinfo_path(name));
    }
    let found = by_hash(closure)[hash];
    let at = choose|at: int| 0 <= at < closure.len() && closure[at] == found;
    assert(nix::path_texts(closure)[at] == found@);
    if 0 <= k < narinfos.len() && names_archive(narinfos, k, nar) {
        assert(cache::is_nar_path(nar));
        cache::lemma_archives_are_no_narinfos(nar);
    }
}

/// A narinfo is signed by a key exactly where it has a line with a signature under the
/// name of that key.
pub proof fn law_signatures_name_their_key(narinfo: Seq<u8>, name: Seq<char>, key: Seq<char>)
    requires
        !name.contains(':'),
        vstd::utf8::valid_utf8(narinfo),
    ensures
        ({
            let lines = text::lines(vstd::utf8::decode_utf8(narinfo));
            signed_by(narinfo, name + ":"@ + key) == Ok::<bool, Seq<Seq<char>>>(
                exists|i: int|
                    0 <= i < lines.len() && ("Sig: "@ + name + ":"@).is_prefix_of(
                        #[trigger] lines[i],
                    ),
            )
        }),
{
    reveal_strlit(":");
    let whole = name + ":"@ + key;
    assert forall|j: int| 0 <= j < name.len() implies whole[j] != ':' by {
        assert(whole[j] == name[j]);
    }
    text::lemma_find_is(whole, ':', name.len() as int);
    assert(whole.take(name.len() as int) =~= name);
}

/// An entry of the cache is ready where its narinfo is signed and its archive is in
/// the cache; where there is no narinfo, or one without a signature or an archive,
/// the entry has to be made.
pub proof fn law_entries_need_a_signature_and_an_archive(
    cache_dir: Seq<char>,
    public_key: Seq<char>,
    narinfo: Seq<u8>,
    nar: Seq<char>,
)
    ensures
        entry_archive(cache_dir, public_key, None) == Ok::<Option<Seq<char>>, Seq<Seq<char>>>(None),
        signed_by(narinfo, public_key) == Ok::<bool, Seq<Seq<char>>>(false) ==> entry_archive(
            cache_dir,
            public_key,
            Some(narinfo),
        ) == Ok::<Option<Seq<char>>, Seq<Seq<char>>>(None),
        signed_by(narinfo, public_key) == Ok::<bool, Seq<Seq<char>>>(true)
            && cache::narinfo_nar_of_bytes(narinfo) == Ok::<Option<Seq<char>>, Seq<Seq<char>>>(
            None,
        ) ==> entry_archive(cache_dir, public_key, Some(narinfo)) == Ok::<
            Option<Seq<char>>,
            Seq<Seq<char>>,
        >(None),
        signed_by(narinfo, public_key) == Ok::<bool, Seq<Seq<char>>>(true)
            && cache::narinfo_nar_of_bytes(narinfo) == Ok::<Option<Seq<char>>, Seq<Seq<char>>>(
            Some(nar),
        ) ==> entry_archive(cache_dir, public_key, Some(narinfo)) == Ok::<
            Option<Seq<char>>,
            Seq<Seq<char>>,
        >(Some(paths::joined(cache_dir, nar))),
{
}

/// A file is copied whole or it is said how much of it was.
pub proof fn law_short_copies_are_told(what: Seq<char>, copied: u64, byte_count: u64)
    ensures
        short_read(what, copied, byte_count) is None <==> copied == byte_count,
        copied != byte_count ==> short_read(what, copied, byte_count) == Some(
            what + ": "@ + text::decimal(copied as nat) + " of "@ + text::decimal(
                byte_count as nat,
            ) + " bytes"@,
        ),
{
}

/// A cache says of itself that it is of the Nix store.
pub proof fn law_caches_are_of_the_store()
    ensures
        NIX_CACHE_INFO@ == "StoreDir: /nix/store\n"@,
{
}

/// A key that has no name is refused, and so is a narinfo that is no text.
pub proof fn law_bad_keys_and_narinfos_are_refused(
    narinfo: Seq<u8>,
    name: Seq<char>,
    body: Seq<char>,
)
    requires
        !name.contains(':'),
    ensures
        signed_by(narinfo, name) == Err::<bool, Seq<Seq<char>>>(
            seq!["invalid signing public key"@],
        ),
        !vstd::utf8::valid_utf8(narinfo) ==> (signed_by(narinfo, name + seq![':'] + body) matches Err(
            e,
        ) && e.len() == 2 && e[0] == "narinfo is not UTF-8"@),
        key_dir(name) == "key-"@ + hex::hex_text(vstd::utf8::encode_utf8(name)),
{
    text::lemma_find_is(name, ':', name.len() as int);
    let whole = name + seq![':'] + body;
    let n = name.len() as int;
    assert forall|j: int| 0 <= j < n implies whole[j] != ':' by {
        assert(whole[j] == name[j]);
    }
    text::lemma_find_is(whole, ':', n);
}

/// A client gets the narinfos of its closure, the archives that these name, and
/// what the cache is. It finds nothing else, and is told of a path that is none.
pub proof fn law_what_a_client_may_read(
    path: Seq<char>,
    hash: Seq<char>,
    access: AccessView,
    shown: Seq<char>,
    send_body: bool,
    message: MessageView,
)
    ensures
        cache_file_plan("nix-cache-info"@, access) is Info,
        cache::checked_cache_path(path) is Err ==> cache_file_plan(path, access) == (
        CacheFilePlanView::Failed { error: cache::checked_cache_path(path)->Err_0 }),
        !".narinfo"@.is_suffix_of(path) ==> allowed_path(path, access.paths_by_hash) == Err::<
            Option<Seq<char>>,
            Seq<Seq<char>>,
        >(seq!["not a narinfo path: "@ + path]),
        ".narinfo"@.is_suffix_of(path) && path.contains('/') ==> allowed_path(
            path,
            access.paths_by_hash,
        ) == Err::<Option<Seq<char>>, Seq<Seq<char>>>(seq!["invalid narinfo path: "@ + path]),
        !(hash + ".narinfo"@).contains('/') && access.paths_by_hash.contains_key(hash)
            ==> allowed_path(hash + ".narinfo"@, access.paths_by_hash) == Ok::<
            Option<Seq<char>>,
            Seq<Seq<char>>,
        >(Some(access.paths_by_hash[hash]@)),
        !(hash + ".narinfo"@).contains('/') && !access.paths_by_hash.contains_key(hash)
            ==> allowed_path(hash + ".narinfo"@, access.paths_by_hash) == Ok::<
            Option<Seq<char>>,
            Seq<Seq<char>>,
        >(None),
        asked_file(MessageView::CacheFileRequest { path, send_body }, shown) == Ok::<
            (Seq<char>, bool),
            Seq<Seq<char>>,
        >((path, send_body)),
        message !is CacheFileRequest ==> asked_file(message, shown) == Err::<
            (Seq<char>, bool),
            Seq<Seq<char>>,
        >(seq!["unexpected cache file request"@ + ": "@ + shown]),
        NIX_CACHE_INFO@ == "StoreDir: /nix/store\n"@,
{
    text::law_texts_are_found(Seq::empty(), hash, ".narinfo"@);
    reveal_strlit("nix-cache-info");
}

/// A client that asks for an output that was not built is told so.
pub proof fn law_other_outputs_are_refused(path: Seq<char>, allowed: Seq<Seq<char>>)
    ensures
        nix::store_path_fault(path) is Some ==> request_fault(path, allowed)
            == nix::store_path_fault(path),
        nix::store_path_fault(path) is None && !allowed.contains(path) ==> request_fault(
            path,
            allowed,
        ) == Some("requested output path was not built: "@ + path),
        nix::store_path_fault(path) is None && allowed.contains(path) ==> request_fault(
            path,
            allowed,
        ) is None,
{
}

} // verus!
