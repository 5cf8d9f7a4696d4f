//! Where secret keys are kept, and how they are read.

use vstd::prelude::*;

use crate::endpoint;
use crate::error;
use crate::error::Error;
use crate::paths;
use crate::paths::{join_path, lock_path_for};
use crate::text;
use crate::text::{concat2, trim_text};

verus! {

/// The lock beside a key file.
pub struct KeyFileLock {
    pub path: String,
}

/// Where a client keeps its key by default.
pub open spec fn client_key_path(home: Option<Seq<char>>) -> Result<Seq<char>, Seq<Seq<char>>> {
    match home {
        Some(home) => Ok(paths::joined(home, ".config/drv-thru/secret.key"@)),
        None => Err(seq!["HOME is not set; pass --key-file"@]),
    }
}

pub fn default_client_key_path(home: Option<&str>) -> (r: Result<String, Error>)
    ensures
        error::text_outcome(r) == client_key_path(
            match home {
                Some(home) => Some(home@),
                None => None,
            },
        ),
{
    match home {
        Some(home) => Ok(join_path(home, ".config/drv-thru/secret.key")),
        None => Err(Error::of("HOME is not set; pass --key-file")),
    }
}

/// Where a builder keeps its key.
pub fn server_key_path(data_dir: &str) -> (r: String)
    ensures
        r@ == paths::joined(data_dir@, "secret.key"@),
{
    join_path(data_dir, "secret.key")
}

/// The lock beside a key file.
pub fn key_file_lock_path(path: &str) -> (r: Result<String, Error>)
    ensures
        error::text_outcome(r) == paths::lock_path(
            path@,
            "key file path must include a file name"@,
        ),
        r matches Ok(lock) ==> paths::components(lock@) == paths::beside(
            path@,
            paths::lock_name(paths::file_name_of(path@)->0),
        ),
{
    lock_path_for(path, "key file path must include a file name")
}

/// What a key file holds: the key's bytes, or a text that writes it.
pub enum KeyContents {
    Raw { key: [u8; 32] },
    Text { text: String },
}

/// The view of what a key file holds.
pub enum KeyContentsView {
    Raw { key: Seq<u8> },
    Text { text: Seq<char> },
}

impl View for KeyContents {
    type V = KeyContentsView;

    open spec fn view(&self) -> KeyContentsView {
        match *self {
            KeyContents::Raw { key } => KeyContentsView::Raw { key: key@ },
            KeyContents::Text { text } => KeyContentsView::Text { text: text@ },
        }
    }
}

/// What the bytes of a key file are: thirty-two raw bytes, or a key as text.
pub open spec fn contents_of_file(path: Seq<char>, bytes: Seq<u8>) -> Result<
    KeyContentsView,
    Seq<Seq<char>>,
> {
    if bytes.len() == 32 {
        Ok(KeyContentsView::Raw { key: bytes })
    } else if !vstd::utf8::valid_utf8(bytes) {
        Err(seq![path + " is not a raw or text secret key"@, text::utf8_error_of(bytes)])
    } else {
        Ok(KeyContentsView::Text { text: text::trim(vstd::utf8::decode_utf8(bytes)) })
    }
}

/// The key of a file whose text was read as `read`.
pub open spec fn written_key(path: Seq<char>, read: Result<Seq<u8>, Seq<char>>) -> Result<
    Seq<u8>,
    Seq<Seq<char>>,
> {
    match read {
        Ok(key) => Ok(key),
        Err(why) => Err(seq!["parse "@ + path, why]),
    }
}

/// The key that a file holds.
pub open spec fn key_of_file(path: Seq<char>, bytes: Seq<u8>) -> Result<
    Seq<u8>,
    Seq<Seq<char>>,
> {
    match contents_of_file(path, bytes) {
        Err(e) => Err(e),
        Ok(KeyContentsView::Raw { key }) => Ok(key),
        Ok(KeyContentsView::Text { text }) => written_key(
            path,
            endpoint::secret_key_read(text),
        ),
    }
}

fn raw_key(bytes: &[u8]) -> (key: [u8; 32])
    requires
        bytes@.len() == 32,
    ensures
        key@ == bytes@,
{
    let mut key: [u8; 32] = [0u8;32];
    let mut i: usize = 0;
    while i < 32
        invariant
            i <= 32,
            bytes@.len() == 32,
            forall|j: int| 0 <= j < i ==> key@[j] == bytes@[j],
        decreases 32 - i,
    {
        key[i] = bytes[i];
        i = i + 1;
    }
    assert(key@ =~= bytes@);
    key
}

/// Tells what the bytes of a key file are.
pub fn key_contents(path: &str, bytes: &[u8]) -> (r: Result<KeyContents, Error>)
    ensures
        match r {
            Ok(contents) => contents_of_file(path@, bytes@) == Ok::<
                KeyContentsView,
                Seq<Seq<char>>,
            >(contents@),
            Err(e) => contents_of_file(path@, bytes@) == Err::<KeyContentsView, Seq<Seq<char>>>(
                e@,
            ),
        },
{
    if bytes.len() == 32 {
        return Ok(KeyContents::Raw { key: raw_key(bytes) });
    }
    match text::text_of_utf8(bytes) {
        Ok(contents) => Ok(KeyContents::Text { text: trim_text(contents.as_str()) }),
        Err(why) => Err(Error::caused(concat2(path, " is not a raw or text secret key"), why)),
    }
}

/// The key of a file whose text was read as `read`, where it writes a key.
pub fn key_of_text(path: &str, read: Result<[u8; 32], String>) -> (r: Result<[u8; 32], Error>)
    ensures
        match r {
            Ok(key) => written_key(path@, endpoint::read_bytes(read)) == Ok::<
                Seq<u8>,
                Seq<Seq<char>>,
            >(key@),
            Err(e) => written_key(path@, endpoint::read_bytes(read)) == Err::<
                Seq<u8>,
                Seq<Seq<char>>,
            >(e@),
        },
{
    match read {
        Ok(key) => Ok(key),
        Err(why) => Err(Error::caused(concat2("parse ", path), why)),
    }
}

/// Reads the contents of a key file.
pub fn read_key(path: &str, bytes: &[u8]) -> (r: Result<[u8; 32], Error>)
    ensures
        match r {
            Ok(key) => key_of_file(path@, bytes@) == Ok::<Seq<u8>, Seq<Seq<char>>>(key@),
            Err(e) => key_of_file(path@, bytes@) == Err::<Seq<u8>, Seq<Seq<char>>>(e@),
        },
{
    match key_contents(path, bytes) {
        Err(e) => Err(e),
        Ok(KeyContents::Raw { key }) => Ok(key),
        Ok(KeyContents::Text { text }) => key_of_text(
            path,
            endpoint::read_secret_key(text.as_str()),
        ),
    }
}

/// Whether others than the owner of a file may use it.
pub open spec fn is_too_open(mode: u32) -> bool {
    mode & 0o077 != 0
}

/// Refuses a key file that others may use.
pub fn check_key_permissions(path: &str, mode: u32) -> (r: Result<(), Error>)
    ensures
        match r {
            Ok(()) => !is_too_open(mode),
            Err(e) => is_too_open(mode) && e@ == seq![
                path@ + " permissions are too open; run chmod 600"@,
            ],
        },
{
    if mode & 0o077 != 0 {
        return Err(Error::new(concat2(path, " permissions are too open; run chmod 600")));
    }
    Ok(())
}

/// A key file that is written as thirty-two raw bytes is read back as these
/// bytes.
pub proof fn law_raw_keys_are_read_back(path: Seq<char>, key: Seq<u8>)
    requires
        key.len() == 32,
    ensures
        key_of_file(path, key) == Ok::<Seq<u8>, Seq<Seq<char>>>(key),
{
}

/// A key file of thirty-two bytes is those bytes. Any other is a text, without
/// the space around it; where it is none, or writes no key, a reader is told
/// the file.
pub proof fn law_key_files_are_raw_or_text(path: Seq<char>, bytes: Seq<u8>)
    ensures
        bytes.len() == 32 ==> contents_of_file(path, bytes) == Ok::<
            KeyContentsView,
            Seq<Seq<char>>,
        >(KeyContentsView::Raw { key: bytes }),
        bytes.len() != 32 && vstd::utf8::valid_utf8(bytes) ==> contents_of_file(path, bytes) == Ok::<
            KeyContentsView,
            Seq<Seq<char>>,
        >(KeyContentsView::Text { text: text::trim(vstd::utf8::decode_utf8(bytes)) }),
        bytes.len() != 32 && !vstd::utf8::valid_utf8(bytes) ==> (contents_of_file(
            path,
            bytes,
        ) matches Err(e) && e[0] == path + " is not a raw or text secret key"@ && e.len() == 2),
{
}

/// A key that was read from a text is that key, and what cannot be read is told
/// with the file's path.
pub proof fn law_written_keys_are_taken(path: Seq<char>, key: Seq<u8>, why: Seq<char>)
    ensures
        written_key(path, Ok(key)) == Ok::<Seq<u8>, Seq<Seq<char>>>(key),
        written_key(path, Err(why)) == Err::<Seq<u8>, Seq<Seq<char>>>(seq!["parse "@ + path, why]),
{
}

/// A key file is refused exactly where its mode gives anything to the group or
/// to others.
pub proof fn law_keys_are_for_their_owner(mode: u32)
    ensures
        is_too_open(mode) == (mode % 64 != 0),
{
    assert(mode & 0o077 == mode % 64) by (bit_vector);
}

/// A client's key is below the home directory, and there is none without one.
pub proof fn law_keys_of_clients_are_at_home(home: Seq<char>)
    ensures
        client_key_path(Some(home)) == Ok::<Seq<char>, Seq<Seq<char>>>(
            paths::joined(home, ".config/drv-thru/secret.key"@),
        ),
        client_key_path(Some(home)) matches Ok(path) && home.is_prefix_of(path),
        client_key_path(None) == Err::<Seq<char>, Seq<Seq<char>>>(
            seq!["HOME is not set; pass --key-file"@],
        ),
{
    reveal_strlit(".config/drv-thru/secret.key");
    reveal_strlit("/");
    let name = ".config/drv-thru/secret.key"@;
    assert(name[0] == '.');
    if "/"@.is_prefix_of(name) {
        assert("/"@[0] == name.subrange(0, 1)[0]);
    }
    paths::law_joined_relative_is_below(home, name);
}

} // verus!
