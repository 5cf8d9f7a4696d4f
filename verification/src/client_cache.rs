//! How the client gets outputs out of the builder's cache.

pub mod import;
pub mod local_server;
pub mod mirror;

use vstd::prelude::*;

use crate::collections::StrSet;
use crate::error;
use crate::error::Error;
use crate::import_helper::{HelperSocketStatus, DEFAULT_SOCKET_PATH};
use crate::nix::commands::SignedCacheImportTrust;
use crate::proto;
use crate::proto::{CacheFileRequest, Incoming, Message, MessageView};
use crate::text;
use crate::text::{
    chars_of, concat2, concat3, concat5, decimal_string, ends_with, starts_with,
};

verus! {

/// How long opening a stream may take, in seconds.
pub const CACHE_FILE_STREAM_OPEN_TIMEOUT_SECS: u64 = 30;

/// How long the builder may take to answer, in seconds.
pub const CACHE_FILE_RESPONSE_TIMEOUT_SECS: u64 = 1800;

// ---------------------------------------------------------------------------
// How outputs are imported
// ---------------------------------------------------------------------------

/// How outputs get into the store: by Nix itself, or by the helper.
#[derive(Clone, Copy, Debug, PartialEq, Eq, Structural)]
pub enum OutputImportMethod {
    Direct(SignedCacheImportTrust),
    Helper,
}

/// What is said of the helper.
pub open spec fn helper_sentence(status: HelperSocketStatus) -> Seq<char> {
    match status {
        HelperSocketStatus::Available => "A drv-thru import helper is available at "@
            + DEFAULT_SOCKET_PATH@ + ", but it was not selected."@,
        HelperSocketStatus::Missing => "No drv-thru import helper socket was found at "@
            + DEFAULT_SOCKET_PATH@ + "."@,
        HelperSocketStatus::NotSocket => "The path "@ + DEFAULT_SOCKET_PATH@
            + " exists, but it is not a Unix socket."@,
        HelperSocketStatus::Inaccessible(why) => "The drv-thru import helper socket at "@
            + DEFAULT_SOCKET_PATH@ + " could not be inspected: "@ + why@,
    }
}

pub const SETUP_BEGINNING: &'static str = "This client cannot import outputs from this ticket builder.\n\nNix does not trust this builder key for the current user, and no usable drv-thru import helper is available.\n";

pub const SETUP_END: &'static str = "\n\nFor one-off tickets on normal multi-user NixOS clients, install the helper:\n\nservices.drv-thru.client.enable = true;\nservices.drv-thru.client.ticketHelper.enable = true;\nusers.users.<name>.extraGroups = [ \"drv-thru\" ];\n\nThen rebuild, log out and back in if group membership changed, and retry.\n\nFor a persistent trusted builder, add its signing key to:\n\nservices.drv-thru.client.trustedBuilders.<name>.publicKey\n\n`nix run github:adeci/drv-thru#drv-thru` only runs the CLI; it does not install the helper or change Nix trust.";

/// What a client is told that cannot import outputs.
pub open spec fn setup_error(status: HelperSocketStatus) -> Seq<char> {
    SETUP_BEGINNING@ + helper_sentence(status) + SETUP_END@
}

pub fn output_import_setup_error(status: &HelperSocketStatus) -> (r: String)
    ensures
        r@ == setup_error(*status),
{
    let sentence: String = match status {
        HelperSocketStatus::Available => concat3(
            "A drv-thru import helper is available at ",
            DEFAULT_SOCKET_PATH,
            ", but it was not selected.",
        ),
        HelperSocketStatus::Missing => concat3(
            "No drv-thru import helper socket was found at ",
            DEFAULT_SOCKET_PATH,
            ".",
        ),
        HelperSocketStatus::NotSocket => concat3(
            "The path ",
            DEFAULT_SOCKET_PATH,
            " exists, but it is not a Unix socket.",
        ),
        HelperSocketStatus::Inaccessible(why) => {
            let head: String = concat3(
                "The drv-thru import helper socket at ",
                DEFAULT_SOCKET_PATH,
                " could not be inspected: ",
            );
            concat2(head.as_str(), why.as_str())
        },
    };
    concat3(SETUP_BEGINNING, sentence.as_str(), SETUP_END)
}

/// How outputs are imported: by Nix where it trusts the builder, otherwise by
/// the helper where there is one.
pub open spec fn import_method(
    direct: Result<SignedCacheImportTrust, Seq<char>>,
    helper: HelperSocketStatus,
) -> Result<OutputImportMethod, Seq<char>> {
    match direct {
        Ok(trust) => Ok(OutputImportMethod::Direct(trust)),
        Err(_) => match helper {
            HelperSocketStatus::Available => Ok(OutputImportMethod::Helper),
            _ => Err(setup_error(helper)),
        },
    }
}

pub fn choose_output_import_method(
    direct_import: Result<SignedCacheImportTrust, String>,
    helper_socket_status: HelperSocketStatus,
) -> (r: Result<OutputImportMethod, String>)
    ensures
        match r {
            Ok(method) => import_method(
                match direct_import {
                    Ok(trust) => Ok(trust),
                    Err(e) => Err(e@),
                },
                helper_socket_status,
            ) == Ok::<OutputImportMethod, Seq<char>>(method),
            Err(e) => import_method(
                match direct_import {
                    Ok(trust) => Ok(trust),
                    Err(e) => Err(e@),
                },
                helper_socket_status,
            ) == Err::<OutputImportMethod, Seq<char>>(e@),
        },
{
    match direct_import {
        Ok(trust) => Ok(OutputImportMethod::Direct(trust)),
        Err(_) => match &helper_socket_status {
            HelperSocketStatus::Available => Ok(OutputImportMethod::Helper),
            other => Err(output_import_setup_error(other)),
        },
    }
}

// ---------------------------------------------------------------------------
// What an import came to
// ---------------------------------------------------------------------------

/// A message that says that a file of the cache could not be had.
pub open spec fn is_bridge_status(message: Seq<char>) -> bool {
    "cache bridge returned 404"@.is_prefix_of(message)
        || "cache bridge returned 502"@.is_prefix_of(message)
}

pub open spec fn has_bridge_status(chain: Seq<Seq<char>>) -> bool {
    exists|i: int| 0 <= i < chain.len() && is_bridge_status(#[trigger] chain[i])
}

pub fn cache_bridge_status_error(err: &Error) -> (r: bool)
    ensures
        r == has_bridge_status(err@),
{
    let messages: Vec<String> = err.messages();
    let mut i: usize = 0;
    while i < messages.len()
        invariant
            i <= messages@.len(),
            text::texts(messages@) == err@,
            forall|j: int| 0 <= j < i ==> !is_bridge_status(#[trigger] err@[j]),
        decreases messages@.len() - i,
    {
        assert(err@[i as int] == messages@[i as int]@);
        let message: Vec<char> = chars_of(messages[i].as_str());
        if starts_with(message.as_slice(), "cache bridge returned 404") || starts_with(
            message.as_slice(),
            "cache bridge returned 502",
        ) {
            assert(is_bridge_status(err@[i as int]));
            return true;
        }
        i = i + 1;
    }
    assert(text::texts(messages@).len() == messages@.len());
    false
}

/// What an import comes to, by what the copy and the cache said. A copy that
/// failed counts more than a cache that did; what the cache says is added
/// where it tells why.
pub open spec fn imported(
    copy: Result<(), Seq<Seq<char>>>,
    cache: Result<(), Seq<Seq<char>>>,
    bytes: u64,
) -> Result<u64, Seq<Seq<char>>> {
    match (copy, cache) {
        (Ok(()), Ok(())) => Ok(bytes),
        (Err(e), Ok(())) => Err(e),
        (Ok(()), Err(e)) => Err(e),
        (Err(copy), Err(cache)) => if has_bridge_status(cache) {
            Err(seq![cache[0]] + copy)
        } else {
            Err(copy)
        },
    }
}

/// The first of two failures.
pub open spec fn first_failure(
    a: Result<(), Seq<Seq<char>>>,
    b: Result<(), Seq<Seq<char>>>,
) -> Result<(), Seq<Seq<char>>> {
    match a {
        Err(e) => Err(e),
        Ok(()) => b,
    }
}

/// Combines what the copy, the server of the local cache and its removal came
/// to.
pub fn import_result(
    copy_result: Result<(), Error>,
    server_result: Result<(), Error>,
    mirror_result: Result<(), Error>,
    bytes: u64,
) -> (r: Result<u64, Error>)
    ensures
        error::outcome(r) == imported(
            error::outcome(copy_result),
            first_failure(error::outcome(server_result), error::outcome(mirror_result)),
            bytes,
        ),
{
    let cache_result: Result<(), Error> = match server_result {
        Err(e) => Err(e),
        Ok(()) => mirror_result,
    };
    match (copy_result, cache_result) {
        (Ok(()), Ok(())) => Ok(bytes),
        (Err(e), Ok(())) => Err(e),
        (Ok(()), Err(e)) => Err(e),
        (Err(copy), Err(cache)) => {
            if cache_bridge_status_error(&cache) {
                Err(copy.context(cache.message()))
            } else {
                Err(copy)
            }
        },
    }
}

// ---------------------------------------------------------------------------
// Progress
// ---------------------------------------------------------------------------

pub open spec fn count_text(done: nat, total: nat) -> Seq<char> {
    if total == 0 {
        text::decimal(done)
    } else {
        text::decimal(done) + "/"@ + text::decimal(total)
    }
}

pub fn progress_count(done: usize, total: usize) -> (r: String)
    ensures
        r@ == count_text(done as nat, total as nat),
{
    if total == 0 {
        decimal_string(done as u64)
    } else {
        concat3(
            decimal_string(done as u64).as_str(),
            "/",
            decimal_string(total as u64).as_str(),
        )
    }
}

/// Which files of a cache have come.
pub struct CacheProgress {
    metadata_seen: StrSet,
    payload_seen: StrSet,
    metadata_total: usize,
    payload_total: usize,
    nar_fetches: usize,
}

/// The view of which files have come.
pub struct CacheProgressView {
    pub metadata_seen: Seq<Seq<char>>,
    pub payload_seen: Seq<Seq<char>>,
    pub metadata_total: nat,
    pub payload_total: nat,
    pub nar_fetches: nat,
}

impl View for CacheProgress {
    type V = CacheProgressView;

    closed spec fn view(&self) -> CacheProgressView {
        CacheProgressView {
            metadata_seen: self.metadata_seen@,
            payload_seen: self.payload_seen@,
            metadata_total: self.metadata_total as nat,
            payload_total: self.payload_total as nat,
            nar_fetches: self.nar_fetches as nat,
        }
    }
}

/// What is said of the files that have come.
pub open spec fn progress_text(p: CacheProgressView) -> Seq<char> {
    "cache metadata "@ + count_text(p.metadata_seen.len(), p.metadata_total) + ", payloads "@
        + count_text(p.payload_seen.len(), p.payload_total) + ", nar "@ + text::decimal(
        p.nar_fetches,
    ) + "x"@
}

impl CacheProgress {
    pub fn new(metadata_total: usize, payload_total: usize, nar_fetches: usize) -> (progress: Self)
        ensures
            progress@ == (CacheProgressView {
                metadata_seen: Seq::empty(),
                payload_seen: Seq::empty(),
                metadata_total: metadata_total as nat,
                payload_total: payload_total as nat,
                nar_fetches: nar_fetches as nat,
            }),
    {
        CacheProgress {
            metadata_seen: StrSet::new(),
            payload_seen: StrSet::new(),
            metadata_total,
            payload_total,
            nar_fetches,
        }
    }

    /// A file has come. Each is counted once.
    pub fn record_cache_file(&mut self, path: &str, send_body: bool)
        ensures
            final(self)@.metadata_total == old(self)@.metadata_total,
            final(self)@.payload_total == old(self)@.payload_total,
            final(self)@.nar_fetches == old(self)@.nar_fetches,
            if ".narinfo"@.is_suffix_of(path@) {
                &&& final(self)@.metadata_seen.to_set() == old(self)@.metadata_seen.to_set().insert(
                    path@,
                )
                &&& final(self)@.metadata_seen.len() == old(self)@.metadata_seen.len() + (if old(
                    self,
                )@.metadata_seen.contains(path@) {
                    0nat
                } else {
                    1nat
                })
                &&& final(self)@.payload_seen == old(self)@.payload_seen
            } else if send_body && "nar/"@.is_prefix_of(path@) {
                &&& final(self)@.payload_seen.to_set() == old(self)@.payload_seen.to_set().insert(
                    path@,
                )
                &&& final(self)@.payload_seen.len() == old(self)@.payload_seen.len() + (if old(
                    self,
                )@.payload_seen.contains(path@) {
                    0nat
                } else {
                    1nat
                })
                &&& final(self)@.metadata_seen == old(self)@.metadata_seen
            } else {
                final(self)@ == old(self)@
            },
    {
        let chars: Vec<char> = chars_of(path);
        if ends_with(chars.as_slice(), ".narinfo") {
            let _ = self.metadata_seen.insert(path.to_string());
        } else if send_body && starts_with(chars.as_slice(), "nar/") {
            let _ = self.payload_seen.insert(path.to_string());
        }
    }

    /// What is said of the files that have come.
    pub fn message(&self) -> (r: String)
        ensures
            r@ == progress_text(self@),
    {
        let mut line: String = concat5(
            "cache metadata ",
            progress_count(self.metadata_seen.len(), self.metadata_total).as_str(),
            ", payloads ",
            progress_count(self.payload_seen.len(), self.payload_total).as_str(),
            ", nar ",
        );
        line.append(decimal_string(self.nar_fetches as u64).as_str());
        line.append("x");
        line
    }
}

// ---------------------------------------------------------------------------
// Files of the cache
// ---------------------------------------------------------------------------

/// The message that asks for a file.
pub fn cache_file_request(path: &str, send_body: bool) -> (m: Message)
    ensures
        m@ == (MessageView::CacheFileRequest { path: path@, send_body }),
{
    Message::CacheFileRequest(CacheFileRequest { path: path.to_string(), send_body })
}

/// What the builder says of a file: how long it is, where there is one.
pub open spec fn file_reply(message: MessageView, shown: Seq<char>) -> Result<
    Option<u64>,
    Seq<Seq<char>>,
> {
    match message {
        MessageView::CacheFileResponse { found, byte_count } => Ok(
            if found {
                Some(byte_count)
            } else {
                None
            },
        ),
        MessageView::Error { message } => Err(seq![message]),
        _ => Err(proto::unexpected("unexpected cache response"@, shown)),
    }
}

/// Reads what the builder says of a file.
pub fn read_file_reply(incoming: Incoming) -> (r: Result<Option<u64>, Error>)
    ensures
        error::outcome(r) == file_reply(incoming.message@, incoming.shown@),
{
    let Incoming { message, shown } = incoming;
    match message {
        Message::CacheFileResponse(response) => {
            if response.found {
                Ok(Some(response.byte_count))
            } else {
                Ok(None)
            }
        },
        Message::Error(err) => Err(Error::new(err.message)),
        _ => Err(Error::new(concat3("unexpected cache response", ": ", shown.as_str()))),
    }
}

// ---------------------------------------------------------------------------
// Laws
// ---------------------------------------------------------------------------

/// Nix imports where it trusts the builder, and the helper is not needed.
pub proof fn law_trusted_builders_need_no_helper(
    trust: SignedCacheImportTrust,
    helper: HelperSocketStatus,
)
    ensures
        import_method(Ok(trust), helper) == Ok::<OutputImportMethod, Seq<char>>(
            OutputImportMethod::Direct(trust),
        ),
{
}

/// That a builder builds for a client does not let its outputs into the store:
/// they are imported exactly where Nix trusts the builder or the helper is
/// there to be asked.
pub proof fn law_admission_is_not_trust(
    direct: Result<SignedCacheImportTrust, Seq<char>>,
    helper: HelperSocketStatus,
)
    ensures
        import_method(direct, helper) is Ok <==> direct is Ok || helper is Available,
        import_method(direct, helper) matches Err(message) ==> message == setup_error(helper),
{
}

/// An import is a success only where the copy and the cache both were, and a
/// copy that failed is never hidden by the cache.
pub proof fn law_imports_hide_no_failure(
    copy: Result<(), Seq<Seq<char>>>,
    cache: Result<(), Seq<Seq<char>>>,
    bytes: u64,
)
    ensures
        imported(copy, cache, bytes) is Ok <==> copy is Ok && cache is Ok,
        copy matches Err(e) ==> imported(copy, cache, bytes) matches Err(all) && e.is_suffix_of(all),
{
    if let Err(e) = copy {
        if let Err(all) = imported(copy, cache, bytes) {
            assert(e =~= all.subrange(all.len() - e.len(), all.len() as int));
        }
    }
}

/// A copy and a cache that went well make an import of all bytes that came. Where one
/// of them failed, its failure is the failure of the import; where both did, that
/// of the copy is, under what the cache says where that is why the copy failed.
pub proof fn law_imports_come_to_what_their_parts_came_to(
    copy: Result<(), Seq<Seq<char>>>,
    server: Result<(), Seq<Seq<char>>>,
    removal: Result<(), Seq<Seq<char>>>,
    bytes: u64,
)
    ensures
        ({
            let cache = first_failure(server, removal);
            &&& cache is Ok <==> server is Ok && removal is Ok
            &&& server matches Err(e) ==> cache == Err::<(), Seq<Seq<char>>>(e)
            &&& server is Ok ==> cache == removal
            &&& copy is Ok && cache is Ok ==> imported(copy, cache, bytes) == Ok::<
                u64,
                Seq<Seq<char>>,
            >(bytes)
            &&& copy is Ok && cache is Err ==> imported(copy, cache, bytes) == Err::<
                u64,
                Seq<Seq<char>>,
            >(cache->Err_0)
            &&& copy is Err && cache is Ok ==> imported(copy, cache, bytes) == Err::<
                u64,
                Seq<Seq<char>>,
            >(copy->Err_0)
            &&& copy is Err && cache is Err ==> {
                let told = exists|i: int|
                    0 <= i < cache->Err_0.len() && (
                    "cache bridge returned 404"@.is_prefix_of(#[trigger] cache->Err_0[i])
                        || "cache bridge returned 502"@.is_prefix_of(cache->Err_0[i]));
                imported(copy, cache, bytes) == Err::<u64, Seq<Seq<char>>>(
                    if told {
                        seq![cache->Err_0[0]] + copy->Err_0
                    } else {
                        copy->Err_0
                    },
                )
            }
        }),
{
    if copy is Err && first_failure(server, removal) is Err {
        let chain = first_failure(server, removal)->Err_0;
        if has_bridge_status(chain) {
            let i = choose|i: int| 0 <= i < chain.len() && is_bridge_status(#[trigger] chain[i]);
            assert("cache bridge returned 404"@.is_prefix_of(chain[i])
                || "cache bridge returned 502"@.is_prefix_of(chain[i]));
        }
        if exists|i: int|
            0 <= i < chain.len() && ("cache bridge returned 404"@.is_prefix_of(#[trigger] chain[i])
                || "cache bridge returned 502"@.is_prefix_of(chain[i])) {
            let i = choose|i: int|
                0 <= i < chain.len() && ("cache bridge returned 404"@.is_prefix_of(
                    #[trigger] chain[i],
                ) || "cache bridge returned 502"@.is_prefix_of(chain[i]));
            assert(is_bridge_status(chain[i]));
        }
    }
}

/// Where Nix does not trust the builder, the helper is asked that is there. A user
/// without one is told what is at the place where it would be.
pub proof fn law_users_are_told_of_the_helper(why: Seq<char>, status: HelperSocketStatus)
    ensures
        import_method(Err(why), HelperSocketStatus::Available) == Ok::<
            OutputImportMethod,
            Seq<char>,
        >(OutputImportMethod::Helper),
        status is Missing ==> import_method(Err(why), status) == Err::<
            OutputImportMethod,
            Seq<char>,
        >(
            SETUP_BEGINNING@ + ("No drv-thru import helper socket was found at "@
                + DEFAULT_SOCKET_PATH@ + "."@) + SETUP_END@,
        ),
        status is NotSocket ==> import_method(Err(why), status) == Err::<
            OutputImportMethod,
            Seq<char>,
        >(
            SETUP_BEGINNING@ + ("The path "@ + DEFAULT_SOCKET_PATH@
                + " exists, but it is not a Unix socket."@) + SETUP_END@,
        ),
        status matches HelperSocketStatus::Inaccessible(found) ==> import_method(Err(why), status)
            == Err::<OutputImportMethod, Seq<char>>(
            SETUP_BEGINNING@ + ("The drv-thru import helper socket at "@ + DEFAULT_SOCKET_PATH@
                + " could not be inspected: "@ + found@) + SETUP_END@,
        ),
        DEFAULT_SOCKET_PATH@ == "/run/drv-thru/import-helper.sock"@,
{
}

/// What the builder says of a file is taken as it is said: how long it is, that there
/// is none, or what went wrong.
pub proof fn law_replies_are_taken_at_their_word(
    found: bool,
    byte_count: u64,
    message: Seq<char>,
    shown: Seq<char>,
)
    ensures
        file_reply(MessageView::CacheFileResponse { found: true, byte_count }, shown) == Ok::<
            Option<u64>,
            Seq<Seq<char>>,
        >(Some(byte_count)),
        file_reply(MessageView::CacheFileResponse { found: false, byte_count }, shown) == Ok::<
            Option<u64>,
            Seq<Seq<char>>,
        >(None),
        file_reply(MessageView::Error { message }, shown) == Err::<Option<u64>, Seq<Seq<char>>>(
            seq![message],
        ),
{
}

/// The user sees how many files have come, and of how many where that is known.
pub proof fn law_progress_is_counted(p: CacheProgressView)
    ensures
        p.metadata_total > 0 && p.payload_total > 0 ==> progress_text(p) == "cache metadata "@ + (
        text::decimal(p.metadata_seen.len()) + "/"@ + text::decimal(p.metadata_total))
            + ", payloads "@ + (text::decimal(p.payload_seen.len()) + "/"@ + text::decimal(
            p.payload_total,
        )) + ", nar "@ + text::decimal(p.nar_fetches) + "x"@,
        p.metadata_total == 0 && p.payload_total == 0 ==> progress_text(p) == "cache metadata "@
            + text::decimal(p.metadata_seen.len()) + ", payloads "@ + text::decimal(
            p.payload_seen.len(),
        ) + ", nar "@ + text::decimal(p.nar_fetches) + "x"@,
{
}

/// How long a file of the builder's cache is waited for: half a minute for a stream,
/// and half an hour for an answer, since the file may have to be made.
pub proof fn law_how_long_files_are_waited_for()
    ensures
        CACHE_FILE_STREAM_OPEN_TIMEOUT_SECS == 30,
        CACHE_FILE_RESPONSE_TIMEOUT_SECS == 30 * 60,
{
}

/// A client that cannot import is told all of it: that Nix does not trust the
/// builder, how the helper stands, and how to get it.
pub proof fn law_how_to_get_the_helper_is_told(status: HelperSocketStatus)
    ensures
        SETUP_BEGINNING@.is_prefix_of(setup_error(status)),
        SETUP_END@.is_suffix_of(setup_error(status)),
        SETUP_BEGINNING@ == "This client cannot import outputs from this ticket builder.\n\nNix does not trust this builder key for the current user, and no usable drv-thru import helper is available.\n"@,
        SETUP_END@ == "\n\nFor one-off tickets on normal multi-user NixOS clients, install the helper:\n\nservices.drv-thru.client.enable = true;\nservices.drv-thru.client.ticketHelper.enable = true;\nusers.users.<name>.extraGroups = [ \"drv-thru\" ];\n\nThen rebuild, log out and back in if group membership changed, and retry.\n\nFor a persistent trusted builder, add its signing key to:\n\nservices.drv-thru.client.trustedBuilders.<name>.publicKey\n\n`nix run github:adeci/drv-thru#drv-thru` only runs the CLI; it does not install the helper or change Nix trust."@,
        status is Available ==> setup_error(status) == SETUP_BEGINNING@
            + ("A drv-thru import helper is available at "@ + "/run/drv-thru/import-helper.sock"@
            + ", but it was not selected."@) + SETUP_END@,
{
    let said = setup_error(status);
    assert(SETUP_BEGINNING@ =~= said.subrange(0, SETUP_BEGINNING@.len() as int));
    assert(SETUP_END@ =~= said.subrange(
        said.len() - SETUP_END@.len(),
        said.len() as int,
    ));
}

/// What is no answer to a request for a file is told as such.
pub proof fn law_other_replies_are_told(message: MessageView, shown: Seq<char>)
    requires
        message !is CacheFileResponse,
        message !is Error,
    ensures
        file_reply(message, shown) == Err::<Option<u64>, Seq<Seq<char>>>(
            seq!["unexpected cache response"@ + ": "@ + shown],
        ),
{
}

} // verus!
