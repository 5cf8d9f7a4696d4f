//! The helper that imports outputs for users whom Nix does not trust.

use vstd::prelude::*;

use crate::collections::StrSet;
use crate::error;
use crate::error::Error;
use crate::nix;
use crate::nix::{store_paths, StorePath};
use crate::text;
use crate::text::{
    all_digit_chars, chars_of, concat2, concat3, concat4, concat5, contains_char, decimal_string,
    digits_value_of, find_space_char, join_strings, letter_or_digit_char, lines_of, push_text,
    same_text, split_once_chars, starts_with, string_of, strip_prefix_chars, trim_text,
    truncate_text,
};

verus! {

pub const DEFAULT_SOCKET_PATH: &'static str = "/run/drv-thru/import-helper.sock";

/// The most paths that are imported at once.
pub const MAX_IMPORT_PATHS: usize = 8192;

/// The most characters of an error that are sent to a client.
pub const MAX_ERROR_CHARS: usize = 16_384;

/// What a client wants imported.
#[derive(Debug)]
pub struct ImportRequest {
    pub builder_public_key: String,
    pub cache_url: String,
    pub paths: Vec<String>,
}

/// The view of what a client wants imported.
pub struct ImportRequestView {
    pub builder_public_key: Seq<char>,
    pub cache_url: Seq<char>,
    pub paths: Seq<Seq<char>>,
}

impl View for ImportRequest {
    type V = ImportRequestView;

    open spec fn view(&self) -> ImportRequestView {
        ImportRequestView {
            builder_public_key: self.builder_public_key@,
            cache_url: self.cache_url@,
            paths: text::texts(self.paths@),
        }
    }
}

/// What became of an import.
#[derive(Debug)]
pub struct ImportResponse {
    pub success: bool,
    pub error: Option<String>,
}

/// A request all of whose parts are in order.
pub struct ValidatedImportRequest {
    pub builder_public_key: String,
    pub cache_url: String,
    pub paths: Vec<StorePath>,
}

impl View for ValidatedImportRequest {
    type V = ImportRequestView;

    open spec fn view(&self) -> ImportRequestView {
        ImportRequestView {
            builder_public_key: self.builder_public_key@,
            cache_url: self.cache_url@,
            paths: nix::path_texts(self.paths@),
        }
    }
}

// ---------------------------------------------------------------------------
// Cache URLs
// ---------------------------------------------------------------------------

/// What is wrong with a port: it is a number from 1 to 65535.
pub open spec fn port_fault(port: Seq<char>) -> Option<Seq<Seq<char>>> {
    if port.len() == 0 || !text::all_digits(port) {
        Some(seq!["cache URL must include a numeric port"@])
    } else if text::digits_value(port) > 65535 {
        Some(seq!["cache URL port is out of range"@, text::u16_error_of(port)])
    } else if text::digits_value(port) == 0 {
        Some(seq!["cache URL port must be non-zero"@])
    } else {
        None
    }
}

/// What is wrong with the URL of a cache: it is the origin of a server on this
/// machine, and nothing more.
pub open spec fn url_fault(url: Seq<char>) -> Option<Seq<Seq<char>>> {
    if text::trim(url) != url {
        Some(seq!["cache URL has surrounding whitespace"@])
    } else {
        match text::strip_prefix(url, "http://"@) {
            None => Some(seq!["cache URL must use http://"@]),
            Some(authority) => if authority.len() == 0 || authority.contains('/')
                || authority.contains('?') || authority.contains('#') || authority.contains('@') {
                Some(seq!["cache URL must be a loopback HTTP origin only"@])
            } else {
                match text::strip_prefix(authority, "127.0.0.1:"@) {
                    Some(port) => port_fault(port),
                    None => match text::strip_prefix(authority, "[::1]:"@) {
                        Some(port) => port_fault(port),
                        None => Some(seq!["cache URL host must be 127.0.0.1 or [::1]"@]),
                    },
                }
            },
        }
    }
}

pub open spec fn is_chain(r: Result<(), Error>, fault: Option<Seq<Seq<char>>>) -> bool {
    match r {
        Ok(()) => fault is None,
        Err(e) => fault == Some(e@),
    }
}

pub open spec fn is_fault(r: Result<(), Error>, fault: Option<Seq<char>>) -> bool {
    match r {
        Ok(()) => fault is None,
        Err(e) => fault matches Some(message) && e@ == seq![message],
    }
}

fn validate_port(port: &[char]) -> (r: Result<(), Error>)
    ensures
        is_chain(r, port_fault(port@)),
{
    if port.len() == 0 || !all_digit_chars(port) {
        return Err(Error::of("cache URL must include a numeric port"));
    }
    match digits_value_of(port, 65535) {
        None => {
            proof {
                assert(text::is_digit(port@[0]));
            }
            let why: String = text::u16_error(string_of(port).as_str());
            Err(Error::caused("cache URL port is out of range".to_string(), why))
        },
        Some(value) => {
            if value == 0 {
                return Err(Error::of("cache URL port must be non-zero"));
            }
            Ok(())
        },
    }
}

pub fn validate_loopback_http_url(url: &str) -> (r: Result<(), Error>)
    ensures
        is_chain(r, url_fault(url@)),
{
    if !same_text(trim_text(url).as_str(), url) {
        return Err(Error::of("cache URL has surrounding whitespace"));
    }
    let chars: Vec<char> = chars_of(url);
    let authority: &[char] = match strip_prefix_chars(chars.as_slice(), "http://") {
        Some(authority) => authority,
        None => {
            return Err(Error::of("cache URL must use http://"));
        },
    };
    if authority.len() == 0 || contains_char(authority, '/') || contains_char(authority, '?')
        || contains_char(authority, '#') || contains_char(authority, '@') {
        return Err(Error::of("cache URL must be a loopback HTTP origin only"));
    }
    match strip_prefix_chars(authority, "127.0.0.1:") {
        Some(port) => validate_port(port),
        None => match strip_prefix_chars(authority, "[::1]:") {
            Some(port) => validate_port(port),
            None => Err(Error::of("cache URL host must be 127.0.0.1 or [::1]")),
        },
    }
}

// ---------------------------------------------------------------------------
// Keys
// ---------------------------------------------------------------------------

pub open spec fn is_key_name_char(c: char) -> bool {
    text::is_ascii_letter_or_digit(c) || c == '.' || c == '_' || c == '-'
}

pub open spec fn is_base64_char(c: char) -> bool {
    text::is_ascii_letter_or_digit(c) || c == '+' || c == '/' || c == '='
}

/// What is wrong with a Nix public key: it is a name, a colon and the key in
/// base 64.
pub open spec fn key_fault(public_key: Seq<char>) -> Option<Seq<char>> {
    if text::trim(public_key) != public_key || public_key.len() == 0 {
        Some("builder public key is empty or has surrounding whitespace"@)
    } else if exists|i: int| 0 <= i < public_key.len() && text::is_space(#[trigger] public_key[i]) {
        Some("builder public key contains whitespace"@)
    } else {
        match text::split_once(public_key, ':') {
            None => Some("builder public key must be name:key"@),
            Some((name, key)) => if name.len() == 0 || !(forall|i: int|
                0 <= i < name.len() ==> is_key_name_char(#[trigger] name[i])) {
                Some("builder public key name is invalid"@)
            } else if key.len() == 0 || !(forall|i: int|
                0 <= i < key.len() ==> is_base64_char(#[trigger] key[i])) {
                Some("builder public key body is invalid"@)
            } else {
                None
            },
        }
    }
}

fn valid_key_name(name: &[char]) -> (r: bool)
    ensures
        r == (name@.len() > 0 && forall|i: int|
            0 <= i < name@.len() ==> is_key_name_char(#[trigger] name@[i])),
{
    let mut i: usize = 0;
    while i < name.len()
        invariant
            i <= name@.len(),
            forall|j: int| 0 <= j < i ==> is_key_name_char(#[trigger] name@[j]),
        decreases name@.len() - i,
    {
        let c: char = name[i];
        if !(letter_or_digit_char(c) || c == '.' || c == '_' || c == '-') {
            assert(!is_key_name_char(name@[i as int]));
            return false;
        }
        i = i + 1;
    }
    name.len() > 0
}

fn valid_base64(key: &[char]) -> (r: bool)
    ensures
        r == (key@.len() > 0 && forall|i: int|
            0 <= i < key@.len() ==> is_base64_char(#[trigger] key@[i])),
{
    let mut i: usize = 0;
    while i < key.len()
        invariant
            i <= key@.len(),
            forall|j: int| 0 <= j < i ==> is_base64_char(#[trigger] key@[j]),
        decreases key@.len() - i,
    {
        let c: char = key[i];
        if !(letter_or_digit_char(c) || c == '+' || c == '/' || c == '=') {
            assert(!is_base64_char(key@[i as int]));
            return false;
        }
        i = i + 1;
    }
    key.len() > 0
}

pub fn validate_nix_public_key(public_key: &str) -> (r: Result<(), Error>)
    ensures
        is_fault(r, key_fault(public_key@)),
{
    let chars: Vec<char> = chars_of(public_key);
    if !same_text(trim_text(public_key).as_str(), public_key) || chars.len() == 0 {
        return Err(Error::of("builder public key is empty or has surrounding whitespace"));
    }
    let space: usize = find_space_char(chars.as_slice());
    proof {
        text::lemma_find_space(public_key@);
    }
    if space < chars.len() {
        assert(text::is_space(public_key@[space as int]));
        return Err(Error::of("builder public key contains whitespace"));
    }
    match split_once_chars(chars.as_slice(), ':') {
        None => Err(Error::of("builder public key must be name:key")),
        Some((name, key)) => {
            if !valid_key_name(name) {
                return Err(Error::of("builder public key name is invalid"));
            }
            if !valid_base64(key) {
                return Err(Error::of("builder public key body is invalid"));
            }
            Ok(())
        },
    }
}

/// The name of a key.
pub open spec fn key_name(public_key: Seq<char>) -> Seq<char> {
    match text::split_once(public_key, ':') {
        Some((name, _)) => name,
        None => "<invalid>"@,
    }
}

pub fn public_key_name(public_key: &str) -> (r: String)
    ensures
        r@ == key_name(public_key@),
{
    let chars: Vec<char> = chars_of(public_key);
    match split_once_chars(chars.as_slice(), ':') {
        Some((name, _)) => string_of(name),
        None => "<invalid>".to_string(),
    }
}

pub open spec fn key_names(public_keys: Seq<Seq<char>>) -> Seq<char> {
    if public_keys.len() == 0 {
        "<none>"@
    } else {
        text::join(Seq::new(public_keys.len(), |i: int| key_name(public_keys[i])), ","@)
    }
}

pub fn public_key_names(public_keys: &StrSet) -> (r: String)
    ensures
        r@ == key_names(public_keys@),
{
    let keys: &Vec<String> = public_keys.items();
    let mut names: Vec<String> = Vec::new();
    let mut i: usize = 0;
    assert(text::texts(names@) =~= Seq::<Seq<char>>::empty());
    while i < keys.len()
        invariant
            i <= keys@.len(),
            text::texts(keys@) == public_keys@,
            text::texts(names@) == Seq::new(i as nat, |j: int| key_name(public_keys@[j])),
        decreases keys@.len() - i,
    {
        assert(public_keys@[i as int] == keys@[i as int]@);
        push_text(&mut names, public_key_name(keys[i].as_str()).as_str());
        assert(text::texts(names@) =~= Seq::new(
            (i + 1) as nat,
            |j: int| key_name(public_keys@[j]),
        ));
        i = i + 1;
    }
    assert(public_keys@.len() == keys@.len());
    if names.len() == 0 {
        assert(text::texts(names@).len() == 0);
        return "<none>".to_string();
    }
    assert(text::texts(names@).len() == keys@.len());
    join_strings(names.as_slice(), ",")
}

/// What is read of a line of the helper's trust file: a key, or nothing.
pub open spec fn line_key(line: Seq<char>) -> Option<Seq<char>> {
    let key = text::trim(line);
    if key.len() == 0 || "#"@.is_prefix_of(key) {
        None
    } else {
        Some(key)
    }
}

/// The keys in a trust file, or what is wrong with the first that is none.
pub open spec fn trusted_keys(path: Seq<char>, lines: Seq<Seq<char>>) -> Result<
    Set<Seq<char>>,
    Seq<Seq<char>>,
>
    decreases lines.len(),
{
    if lines.len() == 0 {
        Ok(Set::empty())
    } else {
        match trusted_keys(path, lines.drop_last()) {
            Err(e) => Err(e),
            Ok(earlier) => match line_key(lines.last()) {
                None => Ok(earlier),
                Some(key) => match key_fault(key) {
                    Some(fault) => Err(
                        seq![
                            "invalid trusted builder public key at "@ + path + ":"@
                                + text::decimal(lines.len()),
                            fault,
                        ],
                    ),
                    None => Ok(earlier.insert(key)),
                },
            },
        }
    }
}

proof fn lemma_trusted_keys_fail(path: Seq<char>, lines: Seq<Seq<char>>, n: int)
    requires
        0 <= n <= lines.len(),
        trusted_keys(path, lines.take(n)) is Err,
    ensures
        trusted_keys(path, lines) == trusted_keys(path, lines.take(n)),
    decreases lines.len() - n,
{
    if n < lines.len() {
        assert(lines.take(n + 1).drop_last() =~= lines.take(n));
        lemma_trusted_keys_fail(path, lines, n + 1);
    } else {
        assert(lines.take(n) =~= lines);
    }
}

pub open spec fn keys_outcome(r: Result<StrSet, Error>) -> Result<
    Set<Seq<char>>,
    Seq<Seq<char>>,
> {
    match r {
        Ok(keys) => Ok(keys@.to_set()),
        Err(e) => Err(e@),
    }
}

/// Reads the keys that a trust file holds, one on a line. Empty lines and
/// those that start with `#` hold none.
pub fn load_trusted_public_keys(path: &str, content: &str) -> (r: Result<StrSet, Error>)
    ensures
        keys_outcome(r) == trusted_keys(path@, text::lines(content@)),
{
    let chars: Vec<char> = chars_of(content);
    let lines: Vec<String> = lines_of(chars.as_slice());
    let ghost all = text::lines(content@);
    let mut keys: StrSet = StrSet::new();
    let mut i: usize = 0;
    assert(keys@.to_set() =~= Set::<Seq<char>>::empty());
    assert(all.take(0).len() == 0);
    while i < lines.len()
        invariant
            i <= lines@.len(),
            all == text::lines(content@),
            text::texts(lines@) == all,
            trusted_keys(path@, all.take(i as int)) == Ok::<Set<Seq<char>>, Seq<Seq<char>>>(
                keys@.to_set(),
            ),
        decreases lines@.len() - i,
    {
        proof {
            assert(all.take(i + 1).drop_last() =~= all.take(i as int));
            assert(all.take(i + 1).last() == lines@[i as int]@);
        }
        let key: String = trim_text(lines[i].as_str());
        let key_chars: Vec<char> = chars_of(key.as_str());
        if key_chars.len() > 0 && !starts_with(key_chars.as_slice(), "#") {
            match validate_nix_public_key(key.as_str()) {
                Ok(()) => {
                    let _ = keys.insert(key);
                },
                Err(e) => {
                    let place: String = concat4(
                        "invalid trusted builder public key at ",
                        path,
                        ":",
                        decimal_string(i as u64 + 1).as_str(),
                    );
                    proof {
                        lemma_trusted_keys_fail(path@, all, i + 1);
                        assert(all.take(i + 1).len() == i + 1);
                    }
                    let ghost fault = e@[0];
                    let r: Error = e.context(place);
                    assert(r@ =~= seq![place@, fault]);
                    return Err(r);
                },
            }
        }
        i = i + 1;
    }
    assert(text::texts(lines@).len() == lines@.len());
    assert(all.take(i as int) =~= all);
    Ok(keys)
}

// ---------------------------------------------------------------------------
// Requests
// ---------------------------------------------------------------------------

/// What a request comes to: itself, or what is wrong with it.
pub open spec fn checked_import(request: ImportRequestView) -> Result<
    ImportRequestView,
    Seq<Seq<char>>,
> {
    match url_fault(request.cache_url) {
        Some(fault) => Err(fault),
        None => match key_fault(request.builder_public_key) {
            Some(fault) => Err(seq![fault]),
            None => if request.paths.len() == 0 {
                Err(seq!["import request path list is empty"@])
            } else if request.paths.len() > MAX_IMPORT_PATHS {
                Err(
                    seq![
                        "import request has too many paths: "@ + text::decimal(request.paths.len())
                            + " > "@ + text::decimal(MAX_IMPORT_PATHS as nat),
                    ],
                )
            } else {
                match nix::checked_store_paths(request.paths) {
                    Err(e) => Err(e),
                    Ok(paths) => Ok(ImportRequestView { paths, ..request }),
                }
            },
        },
    }
}

/// The same, where the helper has to trust the key as well.
pub open spec fn checked_trusted_import(
    request: ImportRequestView,
    trusted: Seq<Seq<char>>,
) -> Result<ImportRequestView, Seq<Seq<char>>> {
    match checked_import(request) {
        Err(e) => Err(e),
        Ok(checked) => if !trusted.contains(checked.builder_public_key) {
            Err(
                seq![
                    "builder public key is not allowed by local import helper trust config: "@
                        + checked.builder_public_key
                        + "\n\nAdd this key to services.drv-thru.client.ticketHelper.trustedBuilderPublicKeys, rebuild, log out and back in if group membership changed, then retry."@,
                ],
            )
        } else {
            Ok(checked)
        },
    }
}

pub open spec fn import_outcome(r: Result<ValidatedImportRequest, Error>) -> Result<
    ImportRequestView,
    Seq<Seq<char>>,
> {
    match r {
        Ok(request) => Ok(request@),
        Err(e) => Err(e@),
    }
}

/// Checks a request.
pub fn validate_request_shape(request: &ImportRequest) -> (r: Result<ValidatedImportRequest, Error>)
    ensures
        import_outcome(r) == checked_import(request@),
{
    match validate_loopback_http_url(request.cache_url.as_str()) {
        Ok(()) => {},
        Err(e) => {
            return Err(e);
        },
    }
    match validate_nix_public_key(request.builder_public_key.as_str()) {
        Ok(()) => {},
        Err(e) => {
            return Err(e);
        },
    }
    assert(request@.paths.len() == request.paths@.len());
    if request.paths.len() == 0 {
        return Err(Error::of("import request path list is empty"));
    }
    if request.paths.len() > MAX_IMPORT_PATHS {
        return Err(
            Error::new(
                concat4(
                    "import request has too many paths: ",
                    decimal_string(request.paths.len() as u64).as_str(),
                    " > ",
                    decimal_string(MAX_IMPORT_PATHS as u64).as_str(),
                ),
            ),
        );
    }
    match store_paths(request.paths.as_slice()) {
        Err(e) => Err(e),
        Ok(paths) => Ok(
            ValidatedImportRequest {
                builder_public_key: request.builder_public_key.clone(),
                cache_url: request.cache_url.clone(),
                paths,
            },
        ),
    }
}

/// Checks a request that is to be carried out.
pub fn validate_trusted_request(request: &ImportRequest, trusted_public_keys: &StrSet) -> (r: Result<
    ValidatedImportRequest,
    Error,
>)
    ensures
        import_outcome(r) == checked_trusted_import(request@, trusted_public_keys@),
{
    let checked: ValidatedImportRequest = match validate_request_shape(request) {
        Ok(checked) => checked,
        Err(e) => {
            return Err(e);
        },
    };
    if !trusted_public_keys.contains(checked.builder_public_key.as_str()) {
        return Err(
            Error::new(
                concat3(
                    "builder public key is not allowed by local import helper trust config: ",
                    checked.builder_public_key.as_str(),
                    "\n\nAdd this key to services.drv-thru.client.ticketHelper.trustedBuilderPublicKeys, rebuild, log out and back in if group membership changed, then retry.",
                ),
            ),
        );
    }
    Ok(checked)
}

/// What the helper writes down of a request.
pub fn request_log(uid: u32, gid: u32, request: &ImportRequest, trusted_public_keys: &StrSet) -> (r:
    String)
    ensures
        r@ == "drv-thru import-helper: uid="@ + text::decimal(uid as nat) + " gid="@
            + text::decimal(gid as nat) + " builder="@ + key_name(request@.builder_public_key)
            + " trusted="@ + (if trusted_public_keys@.contains(request@.builder_public_key) {
            "true"@
        } else {
            "false"@
        }) + " paths="@ + text::decimal(request@.paths.len()),
{
    let mut line: String = concat5(
        "drv-thru import-helper: uid=",
        decimal_string(uid as u64).as_str(),
        " gid=",
        decimal_string(gid as u64).as_str(),
        " builder=",
    );
    line.append(public_key_name(request.builder_public_key.as_str()).as_str());
    line.append(" trusted=");
    if trusted_public_keys.contains(request.builder_public_key.as_str()) {
        line.append("true");
    } else {
        line.append("false");
    }
    line.append(" paths=");
    assert(request@.paths.len() == request.paths@.len());
    line.append(decimal_string(request.paths.len() as u64).as_str());
    line
}

/// What the helper answers.
pub fn import_response(result: Result<(), Error>) -> (response: ImportResponse)
    ensures
        response.success == (result is Ok),
        text::optional_text(response.error) == (match result {
            Ok(()) => None,
            Err(e) => Some(text::truncated(e@[0], MAX_ERROR_CHARS as int)),
        }),
{
    match result {
        Ok(()) => ImportResponse { success: true, error: None },
        Err(e) => ImportResponse {
            success: false,
            error: Some(truncate_text(e.message().as_str(), MAX_ERROR_CHARS)),
        },
    }
}

/// What the helper's answer comes to.
pub fn response_outcome(response: ImportResponse) -> (r: Result<(), Error>)
    ensures
        match r {
            Ok(()) => response.success,
            Err(e) => !response.success && e@ == seq![
                "import helper failed: "@ + (match text::optional_text(response.error) {
                    Some(error) => error,
                    None => "unknown error"@,
                }),
            ],
        },
{
    if response.success {
        return Ok(());
    }
    let message: String = match response.error {
        Some(error) => concat2("import helper failed: ", error.as_str()),
        None => concat2("import helper failed: ", "unknown error"),
    };
    Err(Error::new(message))
}

// ---------------------------------------------------------------------------
// The socket
// ---------------------------------------------------------------------------

/// What stands at the path of a socket.
#[derive(Clone, Copy, Debug, PartialEq, Eq, Structural)]
pub enum SocketFile {
    Socket,
    NotSocket,
    Missing,
}

/// Whether the helper can be reached.
#[derive(Debug, PartialEq, Eq)]
pub enum HelperSocketStatus {
    Available,
    Missing,
    NotSocket,
    Inaccessible(String),
}

/// Whether the helper can be reached, by what was found at the path of its
/// socket, or why nobody could look.
pub fn helper_socket_status(found: Result<SocketFile, String>) -> (status: HelperSocketStatus)
    ensures
        match found {
            Ok(SocketFile::Socket) => status is Available,
            Ok(SocketFile::NotSocket) => status is NotSocket,
            Ok(SocketFile::Missing) => status is Missing,
            Err(why) => status == HelperSocketStatus::Inaccessible(why),
        },
{
    match found {
        Ok(SocketFile::Socket) => HelperSocketStatus::Available,
        Ok(SocketFile::NotSocket) => HelperSocketStatus::NotSocket,
        Ok(SocketFile::Missing) => HelperSocketStatus::Missing,
        Err(why) => HelperSocketStatus::Inaccessible(why),
    }
}

/// Whether a socket of an earlier run is in the way and can be removed.
pub fn stale_socket(path: &str, found: SocketFile) -> (r: Result<bool, Error>)
    ensures
        error::outcome(r) == (match found {
            SocketFile::Socket => Ok::<bool, Seq<Seq<char>>>(true),
            SocketFile::Missing => Ok(false),
            SocketFile::NotSocket => Err(seq![path@ + " exists and is not a Unix socket"@]),
        }),
{
    match found {
        SocketFile::Socket => Ok(true),
        SocketFile::Missing => Ok(false),
        SocketFile::NotSocket => Err(
            Error::new(concat2(path, " exists and is not a Unix socket")),
        ),
    }
}

/// Why nobody answers at a socket.
pub enum ConnectFault {
    PermissionDenied,
    NotFound,
    Other { cause: String },
}

/// What a client is told that cannot reach the helper.
pub fn connect_error(socket: &str, fault: ConnectFault) -> (e: Error)
    ensures
        e@ == (match fault {
            ConnectFault::PermissionDenied => seq![
                "cannot connect to drv-thru import helper at "@ + socket@
                    + ": permission denied\n\nAdd this user to services.drv-thru.client.ticketHelper.group (default: wheel), rebuild, log out and back in, then retry."@,
            ],
            ConnectFault::NotFound => seq![
                "cannot connect to drv-thru import helper at "@ + socket@
                    + ": socket not found\n\nEnable services.drv-thru.client.ticketHelper, rebuild, log out and back in, then retry."@,
            ],
            ConnectFault::Other { cause } => seq![
                "connect import helper socket "@ + socket@,
                cause@,
            ],
        }),
{
    match fault {
        ConnectFault::PermissionDenied => Error::new(
            concat3(
                "cannot connect to drv-thru import helper at ",
                socket,
                ": permission denied\n\nAdd this user to services.drv-thru.client.ticketHelper.group (default: wheel), rebuild, log out and back in, then retry.",
            ),
        ),
        ConnectFault::NotFound => Error::new(
            concat3(
                "cannot connect to drv-thru import helper at ",
                socket,
                ": socket not found\n\nEnable services.drv-thru.client.ticketHelper, rebuild, log out and back in, then retry.",
            ),
        ),
        ConnectFault::Other { cause } => {
            let place: String = concat2("connect import helper socket ", socket);
            let ghost said = cause@;
            let e: Error = Error::new(cause).context(place);
            assert(e@ =~= seq![place@, said]);
            e
        },
    }
}

// ---------------------------------------------------------------------------
// Laws
// ---------------------------------------------------------------------------

/// The helper reads from this machine only: a URL that it accepts names one of
/// the two loopback addresses, and a port.
pub proof fn law_caches_are_local(url: Seq<char>)
    requires
        url_fault(url) is None,
    ensures
        exists|port: Seq<char>|
            #![trigger port_fault(port)]
            port_fault(port) is None && (url == "http://"@ + "127.0.0.1:"@ + port || url
                == "http://"@ + "[::1]:"@ + port),
{
    let scheme = "http://"@;
    let authority = text::strip_prefix(url, scheme)->0;
    assert(url =~= scheme + authority) by {
        assert(url.subrange(0, scheme.len() as int) == scheme);
        assert(url =~= url.subrange(0, scheme.len() as int) + url.skip(scheme.len() as int));
    }
    let v4 = "127.0.0.1:"@;
    let v6 = "[::1]:"@;
    match text::strip_prefix(authority, v4) {
        Some(port) => {
            assert(authority =~= v4 + port) by {
                assert(authority.subrange(0, v4.len() as int) == v4);
            }
            assert(port_fault(port) is None);
            assert(url =~= scheme + v4 + port);
        },
        None => {
            let port = text::strip_prefix(authority, v6)->0;
            assert(authority =~= v6 + port) by {
                assert(authority.subrange(0, v6.len() as int) == v6);
            }
            assert(port_fault(port) is None);
            assert(url =~= scheme + v6 + port);
        },
    }
}

/// What the helper carries out was checked in every part, changes nothing of
/// the request, and is signed with a key that the helper trusts, the whole of
/// it.
pub proof fn law_carried_out_requests_are_trusted(
    request: ImportRequestView,
    trusted: Seq<Seq<char>>,
)
    ensures
        checked_trusted_import(request, trusted) matches Ok(checked) ==> {
            &&& checked == request
            &&& trusted.contains(request.builder_public_key)
            &&& url_fault(request.cache_url) is None
            &&& key_fault(request.builder_public_key) is None
            &&& 0 < request.paths.len() <= MAX_IMPORT_PATHS
            &&& forall|i: int|
                0 <= i < request.paths.len() ==> nix::is_store_path(#[trigger] request.paths[i])
        },
{
    nix::law_store_path_lists_are_accepted(request.paths);
}

/// The keys that the helper trusts are Nix public keys.
pub proof fn law_trusted_keys_are_keys(path: Seq<char>, lines: Seq<Seq<char>>, key: Seq<char>)
    requires
        trusted_keys(path, lines) matches Ok(keys) && keys.contains(key),
    ensures
        key_fault(key) is None,
        exists|i: int| 0 <= i < lines.len() && line_key(#[trigger] lines[i]) == Some(key),
    decreases lines.len(),
{
    if lines.len() > 0 {
        let earlier = lines.drop_last();
        if line_key(lines.last()) == Some(key) {
            assert(line_key(lines[lines.len() - 1]) == Some(key));
        } else {
            law_trusted_keys_are_keys(path, earlier, key);
            let i = choose|i: int|
                0 <= i < earlier.len() && line_key(#[trigger] earlier[i]) == Some(key);
            assert(lines[i] == earlier[i]);
        }
    }
}

/// A server on this machine is accepted as a cache under either loopback address and
/// every port but zero.
pub proof fn law_local_caches_are_accepted(port: u16)
    requires
        port > 0,
    ensures
        url_fault("http://127.0.0.1:"@ + text::decimal(port as nat)) is None,
        url_fault("http://[::1]:"@ + text::decimal(port as nat)) is None,
{
    let digits = text::decimal(port as nat);
    text::law_decimal_names_its_number(port as nat);
    reveal_strlit("http://127.0.0.1:");
    reveal_strlit("http://[::1]:");
    reveal_strlit("http://");
    reveal_strlit("127.0.0.1:");
    reveal_strlit("[::1]:");
    assert("http://127.0.0.1:"@ =~= "http://"@ + "127.0.0.1:"@);
    assert("http://[::1]:"@ =~= "http://"@ + "[::1]:"@);
    assert(text::is_digit(digits[0]));
    assert(text::is_digit(digits[digits.len() - 1]));
    lemma_origin_is_accepted("127.0.0.1:"@, digits);
    lemma_origin_is_accepted("[::1]:"@, digits);
    let v4 = "127.0.0.1:"@ + digits;
    assert("127.0.0.1:"@ =~= v4.take("127.0.0.1:"@.len() as int));
    assert(v4.skip("127.0.0.1:"@.len() as int) =~= digits);
    assert(text::strip_prefix(v4, "127.0.0.1:"@) == Some(digits));
    let v6 = "[::1]:"@ + digits;
    assert("[::1]:"@ =~= v6.take("[::1]:"@.len() as int));
    assert(v6.skip("[::1]:"@.len() as int) =~= digits);
    assert(text::strip_prefix(v6, "[::1]:"@) == Some(digits));
    assert(v6[0] == '[');
    assert(text::strip_prefix(v6, "127.0.0.1:"@) is None) by {
        if "127.0.0.1:"@.is_prefix_of(v6) {
            assert(v6.subrange(0, "127.0.0.1:"@.len() as int)[0] == '1');
        }
    }
    assert("http://"@ + v4 =~= "http://127.0.0.1:"@ + digits);
    assert("http://"@ + v6 =~= "http://[::1]:"@ + digits);
}

/// A host and a port are an origin, whose parts are read back.
proof fn lemma_origin_is_accepted(host: Seq<char>, digits: Seq<char>)
    requires
        host == "127.0.0.1:"@ || host == "[::1]:"@,
        digits.len() > 0,
        text::all_digits(digits),
    ensures
        ({
            let authority = host + digits;
            let url = "http://"@ + authority;
            &&& text::trim(url) == url
            &&& text::strip_prefix(url, "http://"@) == Some(authority)
            &&& authority.len() > 0
            &&& !authority.contains('/') && !authority.contains('?') && !authority.contains('#')
                && !authority.contains('@')
        }),
{
    let authority = host + digits;
    let url = "http://"@ + authority;
    reveal_strlit("http://");
    reveal_strlit("127.0.0.1:");
    reveal_strlit("[::1]:");
    assert(url[0] == 'h');
    assert(text::is_digit(digits[digits.len() - 1]));
    assert(url.last() == digits[digits.len() - 1]);
    assert(text::trim(url) == url);
    assert("http://"@ =~= url.take("http://"@.len() as int));
    assert(url.skip("http://"@.len() as int) =~= authority);
    assert forall|i: int| 0 <= i < authority.len() implies {
        let c = #[trigger] authority[i];
        c != '/' && c != '?' && c != '#' && c != '@'
    } by {
        if i < host.len() {
            assert(authority[i] == host[i]);
        } else {
            assert(authority[i] == digits[i - host.len()]);
            assert(text::is_digit(digits[i - host.len()]));
        }
    }
}

/// A character that the name of a key may have.
pub open spec fn is_key_name_character(c: char) -> bool {
    ('a' <= c <= 'z') || ('A' <= c <= 'Z') || ('0' <= c <= '9') || c == '.' || c == '_' || c == '-'
}

/// A character of the alphabet in which keys are written.
pub open spec fn is_key_character(c: char) -> bool {
    ('a' <= c <= 'z') || ('A' <= c <= 'Z') || ('0' <= c <= '9') || c == '+' || c == '/' || c == '='
}

/// A name, a colon and a body are a key of that name.
pub proof fn law_name_and_body_make_a_key(name: Seq<char>, body: Seq<char>)
    requires
        name.len() > 0,
        forall|i: int| 0 <= i < name.len() ==> is_key_name_character(#[trigger] name[i]),
        body.len() > 0,
        forall|i: int| 0 <= i < body.len() ==> is_key_character(#[trigger] body[i]),
    ensures
        key_fault(name + ":"@ + body) is None,
        key_name(name + ":"@ + body) == name,
{
    let key = name + ":"@ + body;
    reveal_strlit(":");
    let n = name.len() as int;
    assert forall|i: int| 0 <= i < key.len() implies !text::is_space(#[trigger] key[i]) by {
        if i < n {
            assert(key[i] == name[i]);
            assert(is_key_name_character(name[i]));
        } else if i > n {
            assert(key[i] == body[i - n - 1]);
            assert(is_key_character(body[i - n - 1]));
        }
    }
    assert(!text::is_space(key[0]));
    assert(!text::is_space(key[key.len() - 1]));
    assert(text::trim(key) == key);
    assert forall|j: int| 0 <= j < n implies key[j] != ':' by {
        assert(key[j] == name[j]);
        assert(is_key_name_character(name[j]));
    }
    text::lemma_find_is(key, ':', n);
    assert(key.take(n) =~= name);
    assert(key.skip(n + 1) =~= body);
    assert forall|i: int| 0 <= i < name.len() implies is_key_name_char(#[trigger] name[i]) by {
        assert(is_key_name_character(name[i]));
    }
    assert forall|i: int| 0 <= i < body.len() implies is_base64_char(#[trigger] body[i]) by {
        assert(is_key_character(body[i]));
    }
}

/// Every key is a name, a colon and a body.
pub proof fn law_keys_have_a_name_and_a_body(public_key: Seq<char>)
    requires
        key_fault(public_key) is None,
    ensures
        exists|body: Seq<char>|
            #![trigger key_name(public_key) + ":"@ + body]
            public_key == key_name(public_key) + ":"@ + body && body.len() > 0 && (forall|i: int|
                0 <= i < body.len() ==> is_key_character(#[trigger] body[i])),
        key_name(public_key).len() > 0,
        forall|i: int|
            0 <= i < key_name(public_key).len() ==> is_key_name_character(
                #[trigger] key_name(public_key)[i],
            ),
{
    reveal_strlit(":");
    let (name, body) = text::split_once(public_key, ':')->0;
    text::lemma_find(public_key, ':');
    assert(public_key =~= name + ":"@ + body);
    assert(public_key == key_name(public_key) + ":"@ + body);
    assert forall|i: int| 0 <= i < name.len() implies is_key_name_character(
        #[trigger] name[i],
    ) by {
        assert(is_key_name_char(name[i]));
    }
    assert forall|i: int| 0 <= i < body.len() implies is_key_character(#[trigger] body[i]) by {
        assert(is_base64_char(body[i]));
    }
}

/// A request for up to 8192 store paths from a cache on this machine, signed with a
/// well-formed key, is accepted as it is, and carried out wherever the helper
/// trusts the key. Nothing else is.
pub proof fn law_good_requests_are_accepted(request: ImportRequestView, trusted: Seq<Seq<char>>)
    ensures
        ({
            let good = {
                &&& url_fault(request.cache_url) is None
                &&& key_fault(request.builder_public_key) is None
                &&& 0 < request.paths.len() <= 8192
                &&& forall|i: int|
                    0 <= i < request.paths.len() ==> nix::is_store_path(#[trigger] request.paths[i])
            };
            &&& good ==> checked_import(request) == Ok::<ImportRequestView, Seq<Seq<char>>>(request)
            &&& checked_import(request) is Ok ==> good
            &&& good && trusted.contains(request.builder_public_key) ==> checked_trusted_import(
                request,
                trusted,
            ) == Ok::<ImportRequestView, Seq<Seq<char>>>(request)
            &&& !trusted.contains(request.builder_public_key) ==> checked_trusted_import(
                request,
                trusted,
            ) is Err
        }),
{
    nix::law_store_path_lists_are_accepted(request.paths);
}

/// The helper trusts every key that stands alone on a line of its trust file, and
/// does not mind empty lines and lines that begin with `#`. A line with anything
/// else is an error.
pub proof fn law_trust_files_are_read_whole(path: Seq<char>, lines: Seq<Seq<char>>)
    ensures
        trusted_keys(path, lines) is Ok <==> forall|i: int|
            0 <= i < lines.len() ==> {
                let said = text::trim(#[trigger] lines[i]);
                said.len() == 0 || said[0] == '#' || key_fault(said) is None
            },
        trusted_keys(path, lines) matches Ok(keys) ==> forall|i: int|
            0 <= i < lines.len() ==> {
                let said = text::trim(#[trigger] lines[i]);
                said.len() > 0 && said[0] != '#' ==> keys.contains(said)
            },
    decreases lines.len(),
{
    reveal_strlit("#");
    if lines.len() > 0 {
        let earlier = lines.drop_last();
        law_trust_files_are_read_whole(path, earlier);
        assert forall|i: int| 0 <= i < earlier.len() implies #[trigger] earlier[i] == lines[i] by {}
        let said = text::trim(lines.last());
        assert(lines[lines.len() - 1] == lines.last());
        assert("#"@.is_prefix_of(said) <==> said.len() > 0 && said[0] == '#') by {
            if said.len() > 0 && said[0] == '#' {
                assert("#"@ =~= said.take(1));
            }
            if "#"@.is_prefix_of(said) {
                assert(said.take(1)[0] == "#"@[0]);
            }
        }
        assert forall|i: int| 0 <= i < lines.len() && i != lines.len() - 1 implies #[trigger] lines[i]
            == earlier[i] by {}
        if trusted_keys(path, lines) is Ok {
            assert forall|i: int| 0 <= i < lines.len() implies {
                let said = text::trim(#[trigger] lines[i]);
                said.len() == 0 || said[0] == '#' || key_fault(said) is None
            } by {
                if i < earlier.len() {
                    assert(lines[i] == earlier[i]);
                }
            }
            assert forall|i: int| 0 <= i < lines.len() implies {
                let said = text::trim(#[trigger] lines[i]);
                said.len() > 0 && said[0] != '#' ==> trusted_keys(path, lines)->Ok_0.contains(said)
            } by {
                if i < earlier.len() {
                    assert(lines[i] == earlier[i]);
                }
            }
        } else if trusted_keys(path, earlier) is Err {
            let i = choose|i: int|
                0 <= i < earlier.len() && !({
                    let said = text::trim(#[trigger] earlier[i]);
                    said.len() == 0 || said[0] == '#' || key_fault(said) is None
                });
            assert(lines[i] == earlier[i]);
        }
    }
}

/// What the helper answers is what the client hears: that the import went well, or
/// why it did not, all of it up to a length that no reason needs.
pub proof fn law_long_complaints_are_cut(message: Seq<char>)
    ensures
        message.len() <= 16_384 ==> text::truncated(message, MAX_ERROR_CHARS as int) == message,
        message.len() > 16_384 ==> text::truncated(message, MAX_ERROR_CHARS as int) == message.take(
            16_384,
        ) + "\n[truncated]"@,
{
}

/// A request that has no path or too many is refused and told so, and one that
/// is in order but signed with a key that the helper does not trust is told what
/// would help.
pub proof fn law_refused_requests_are_told_why(
    request: ImportRequestView,
    trusted: Seq<Seq<char>>,
)
    requires
        url_fault(request.cache_url) is None,
        key_fault(request.builder_public_key) is None,
    ensures
        request.paths.len() == 0 ==> checked_import(request) == Err::<
            ImportRequestView,
            Seq<Seq<char>>,
        >(seq!["import request path list is empty"@]),
        request.paths.len() > 8192 ==> checked_import(request) == Err::<
            ImportRequestView,
            Seq<Seq<char>>,
        >(
            seq!["import request has too many paths: "@ + text::decimal(request.paths.len())
                + " > "@ + text::decimal(8192)],
        ),
        checked_import(request) is Err ==> checked_trusted_import(request, trusted)
            == checked_import(request),
        checked_import(request) is Ok && !trusted.contains(request.builder_public_key)
            ==> checked_trusted_import(request, trusted) == Err::<
            ImportRequestView,
            Seq<Seq<char>>,
        >(
            seq!["builder public key is not allowed by local import helper trust config: "@
                + request.builder_public_key
                + "\n\nAdd this key to services.drv-thru.client.ticketHelper.trustedBuilderPublicKeys, rebuild, log out and back in if group membership changed, then retry."@],
        ),
{
}

/// Where the helper listens, and how much it takes and says.
pub proof fn law_limits_of_the_helper()
    ensures
        DEFAULT_SOCKET_PATH@ == "/run/drv-thru/import-helper.sock"@,
        MAX_IMPORT_PATHS == 8192,
        MAX_ERROR_CHARS == 16 * 1024,
{
}

/// What is no origin of a server on this machine is refused as the cache's URL,
/// for the first reason there is.
pub proof fn law_other_urls_are_refused(url: Seq<char>, authority: Seq<char>, port: Seq<char>)
    ensures
        text::trim(url) != url ==> url_fault(url) == Some(
            seq!["cache URL has surrounding whitespace"@],
        ),
        text::trim(url) == url && !"http://"@.is_prefix_of(url) ==> url_fault(url) == Some(
            seq!["cache URL must use http://"@],
        ),
        text::trim(url) == url && text::strip_prefix(url, "http://"@) == Some(authority) ==> {
            let is_more = authority.len() == 0 || authority.contains('/') || authority.contains('?')
                || authority.contains('#') || authority.contains('@');
            &&& is_more ==> url_fault(url) == Some(
                seq!["cache URL must be a loopback HTTP origin only"@],
            )
            &&& !is_more && text::strip_prefix(authority, "127.0.0.1:"@) == Some(port) ==> url_fault(
                url,
            ) == port_fault(port)
            &&& !is_more && !"127.0.0.1:"@.is_prefix_of(authority) && text::strip_prefix(
                authority,
                "[::1]:"@,
            ) == Some(port) ==> url_fault(url) == port_fault(port)
            &&& !is_more && !"127.0.0.1:"@.is_prefix_of(authority) && !"[::1]:"@.is_prefix_of(
                authority,
            ) ==> url_fault(url) == Some(seq!["cache URL host must be 127.0.0.1 or [::1]"@])
        },
{
}

/// A port is a number from one to sixty-five thousand five hundred and
/// thirty-five.
pub proof fn law_other_ports_are_refused(port: Seq<char>)
    ensures
        port_fault(port) is None <==> port.len() > 0 && text::all_digits(port) && 1
            <= text::digits_value(port) <= 65535,
        port.len() == 0 || !text::all_digits(port) ==> port_fault(port) == Some(
            seq!["cache URL must include a numeric port"@],
        ),
        port.len() > 0 && text::all_digits(port) && text::digits_value(port) > 65535 ==> (
        port_fault(port) matches Some(fault) && fault.len() == 2 && fault[0]
            == "cache URL port is out of range"@),
        port.len() > 0 && text::all_digits(port) && text::digits_value(port) == 0 ==> port_fault(
            port,
        ) == Some(seq!["cache URL port must be non-zero"@]),
{
    if text::all_digits(port) {
        text::lemma_digits_value_grows(port, 0);
        assert(port.take(0).len() == 0);
    }
}

/// What is no key is refused, for the first reason there is.
pub proof fn law_other_keys_are_refused(public_key: Seq<char>, i: int)
    ensures
        public_key.len() == 0 || text::trim(public_key) != public_key ==> key_fault(public_key)
            == Some("builder public key is empty or has surrounding whitespace"@),
        text::trim(public_key) == public_key && 0 <= i < public_key.len() && text::is_space(
            public_key[i],
        ) ==> key_fault(public_key) == Some("builder public key contains whitespace"@),
        public_key.len() > 0 && text::trim(public_key) == public_key && (forall|j: int|
            0 <= j < public_key.len() ==> !text::is_space(#[trigger] public_key[j])) ==> {
            &&& !public_key.contains(':') ==> key_fault(public_key) == Some(
                "builder public key must be name:key"@,
            )
            &&& public_key[0] == ':' ==> key_fault(public_key) == Some(
                "builder public key name is invalid"@,
            )
            &&& match text::split_once(public_key, ':') {
                Some((name, body)) => {
                    let is_named = name.len() > 0 && forall|j: int|
                        0 <= j < name.len() ==> is_key_name_char(#[trigger] name[j]);
                    let is_whole = body.len() > 0 && forall|j: int|
                        0 <= j < body.len() ==> is_base64_char(#[trigger] body[j]);
                    &&& !is_named ==> key_fault(public_key) == Some(
                        "builder public key name is invalid"@,
                    )
                    &&& is_named && !is_whole ==> key_fault(public_key) == Some(
                        "builder public key body is invalid"@,
                    )
                },
                None => true,
            }
        },
{
    text::lemma_find(public_key, ':');
    if public_key.len() > 0 && !public_key.contains(':') {
        let at = text::find(public_key, ':');
        if at < public_key.len() {
            assert(public_key[at] == ':');
        }
    }
    if public_key.len() > 0 && public_key[0] == ':' {
        text::lemma_find_is(public_key, ':', 0);
        assert(public_key.take(0).len() == 0);
    }
}

/// A key is named by what stands before its colon, and keys by their names with
/// commas between them.
pub proof fn law_keys_are_named(name: Seq<char>, body: Seq<char>, public_keys: Seq<Seq<char>>)
    requires
        !name.contains(':'),
    ensures
        key_name(name + seq![':'] + body) == name,
        key_name(name) == "<invalid>"@,
        key_names(Seq::empty()) == "<none>"@,
        public_keys.len() > 0 ==> key_names(public_keys) == text::join(
            Seq::new(public_keys.len(), |i: int| key_name(public_keys[i])),
            ","@,
        ),
{
    let whole = name + seq![':'] + body;
    let n = name.len() as int;
    assert forall|j: int| 0 <= j < n implies whole[j] != ':' by {
        assert(whole[j] == name[j]);
    }
    text::lemma_find_is(whole, ':', n);
    assert(whole.take(n) =~= name);
    text::lemma_find_is(name, ':', n);
}

/// The first line of a trust file that holds no key is told with the file, its
/// number and what is wrong with it.
pub proof fn law_bad_lines_are_named(path: Seq<char>, lines: Seq<Seq<char>>, line: Seq<char>)
    requires
        trusted_keys(path, lines) is Ok,
        text::trim(line).len() > 0,
        text::trim(line)[0] != '#',
        key_fault(text::trim(line)) is Some,
    ensures
        trusted_keys(path, lines.push(line)) == Err::<Set<Seq<char>>, Seq<Seq<char>>>(
            seq![
                "invalid trusted builder public key at "@ + path + ":"@ + text::decimal(
                    lines.len() + 1,
                ),
                key_fault(text::trim(line))->0,
            ],
        ),
{
    reveal_strlit("#");
    let longer = lines.push(line);
    assert(longer.drop_last() =~= lines);
    assert(longer.last() == line);
    let key = text::trim(line);
    if "#"@.is_prefix_of(key) {
        assert("#"@[0] == key.subrange(0, 1)[0]);
    }
}

} // verus!
