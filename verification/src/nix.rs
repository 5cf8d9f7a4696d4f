//! Nix store paths, and what is said to and read from Nix's programs.

pub mod commands;
pub mod trust;

use vstd::prelude::*;

use crate::cache;
use crate::cache::valid_narinfo_stem;
use crate::error::Error;
use crate::text;
use crate::text::{
    chars_of, concat2, letter_or_digit_char, same_text, split_once_chars, string_of,
    strip_prefix_chars,
};

verus! {

// ---------------------------------------------------------------------------
// Store paths
// ---------------------------------------------------------------------------

pub open spec fn is_store_name_char(c: char) -> bool {
    ||| text::is_ascii_letter_or_digit(c)
    ||| c == '+'
    ||| c == '-'
    ||| c == '.'
    ||| c == '_'
    ||| c == '?'
    ||| c == '='
}

pub open spec fn is_store_name(s: Seq<char>) -> bool {
    &&& s.len() > 0
    &&& forall|i: int| 0 <= i < s.len() ==> is_store_name_char(#[trigger] s[i])
}

/// The hash and the name of a path below the store, which a dash parts.
pub open spec fn store_path_parts(path: Seq<char>) -> Option<(Seq<char>, Seq<char>)> {
    match text::strip_prefix(path, "/nix/store/"@) {
        Some(rest) => text::split_once(rest, '-'),
        None => None,
    }
}

/// A path of the Nix store: `/nix/store/`, a hash, a dash and a name.
pub open spec fn is_store_path(path: Seq<char>) -> bool {
    match store_path_parts(path) {
        Some((hash, name)) => cache::is_store_hash(hash) && is_store_name(name),
        None => false,
    }
}

/// What is wrong with a text that is no store path.
pub open spec fn store_path_fault(path: Seq<char>) -> Option<Seq<char>> {
    if !"/nix/store/"@.is_prefix_of(path) {
        Some("not a Nix store path: "@ + path)
    } else {
        match store_path_parts(path) {
            None => Some("invalid Nix store path: "@ + path),
            Some((hash, name)) => if !cache::is_store_hash(hash) {
                Some("invalid Nix store path hash: "@ + path)
            } else if !is_store_name(name) {
                Some("invalid Nix store path name: "@ + path)
            } else {
                None
            },
        }
    }
}

pub open spec fn checked_store_path(path: Seq<char>) -> Result<Seq<char>, Seq<Seq<char>>> {
    match store_path_fault(path) {
        None => Ok(path),
        Some(fault) => Err(seq![fault]),
    }
}

/// A path of the Nix store. The view is its text.
#[derive(Debug, PartialEq, Eq)]
pub struct StorePath(String);

impl View for StorePath {
    type V = Seq<char>;

    closed spec fn view(&self) -> Seq<char> {
        self.0@
    }
}

impl Clone for StorePath {
    fn clone(&self) -> (r: Self)
        ensures
            r@ == self@,
            r == *self,
    {
        proof {
            use_type_invariant(self);
        }
        StorePath(self.0.clone())
    }
}

/// The view of a fallible store path.
pub open spec fn path_outcome(r: Result<StorePath, Error>) -> Result<Seq<char>, Seq<Seq<char>>> {
    match r {
        Ok(path) => Ok(path@),
        Err(e) => Err(e@),
    }
}

/// The texts of a list of store paths.
pub open spec fn path_texts(list: Seq<StorePath>) -> Seq<Seq<char>> {
    Seq::new(list.len(), |i: int| list[i]@)
}

/// The view of a fallible list of store paths.
pub open spec fn paths_outcome(r: Result<Vec<StorePath>, Error>) -> Result<
    Seq<Seq<char>>,
    Seq<Seq<char>>,
> {
    match r {
        Ok(list) => Ok(path_texts(list@)),
        Err(e) => Err(e@),
    }
}

impl StorePath {
    #[verifier::type_invariant]
    pub closed spec fn well_formed(&self) -> bool {
        is_store_path(self.0@)
    }

    pub fn new(path: &str) -> (r: Result<Self, Error>)
        ensures
            path_outcome(r) == checked_store_path(path@),
    {
        match validate_store_path(path) {
            Ok(()) => Ok(StorePath(path.to_string())),
            Err(e) => Err(e),
        }
    }

    pub fn as_str(&self) -> (r: &str)
        ensures
            r@ == self@,
            is_store_path(self@),
    {
        proof {
            use_type_invariant(self);
        }
        self.0.as_str()
    }
}

/// Accepts store paths, and says of another text what is wrong with it.
pub fn validate_store_path(path: &str) -> (r: Result<(), Error>)
    ensures
        match r {
            Ok(()) => is_store_path(path@) && store_path_fault(path@) is None,
            Err(e) => store_path_fault(path@) matches Some(fault) && e@ == seq![fault],
        },
{
    let chars: Vec<char> = chars_of(path);
    let rest: &[char] = match strip_prefix_chars(chars.as_slice(), "/nix/store/") {
        Some(rest) => rest,
        None => {
            return Err(Error::new(concat2("not a Nix store path: ", path)));
        },
    };
    let (hash, name): (&[char], &[char]) = match split_once_chars(rest, '-') {
        Some(parts) => parts,
        None => {
            return Err(Error::new(concat2("invalid Nix store path: ", path)));
        },
    };
    if !valid_narinfo_stem(hash) {
        return Err(Error::new(concat2("invalid Nix store path hash: ", path)));
    }
    if !valid_store_name(name) {
        return Err(Error::new(concat2("invalid Nix store path name: ", path)));
    }
    Ok(())
}

fn valid_store_name_char(c: char) -> (r: bool)
    ensures
        r == is_store_name_char(c),
{
    letter_or_digit_char(c) || c == '+' || c == '-' || c == '.' || c == '_' || c == '?' || c == '='
}

fn valid_store_name(name: &[char]) -> (r: bool)
    ensures
        r == is_store_name(name@),
{
    let mut i: usize = 0;
    while i < name.len()
        invariant
            i <= name.len(),
            forall|j: int| 0 <= j < i ==> is_store_name_char(#[trigger] name@[j]),
        decreases name.len() - i,
    {
        if !valid_store_name_char(name[i]) {
            assert(!is_store_name_char(name@[i as int]));
            return false;
        }
        i = i + 1;
    }
    name.len() > 0
}

/// The hash of a store path.
pub open spec fn hash_of(path: Seq<char>) -> Seq<char> {
    match store_path_parts(path) {
        Some((hash, _name)) => hash,
        None => Seq::empty(),
    }
}

pub fn store_path_hash(path: &StorePath) -> (r: String)
    ensures
        r@ == hash_of(path@),
        cache::is_store_hash(r@),
{
    let chars: Vec<char> = chars_of(path.as_str());
    match strip_prefix_chars(chars.as_slice(), "/nix/store/") {
        Some(rest) => match split_once_chars(rest, '-') {
            Some((hash, _name)) => string_of(hash),
            None => String::new(),
        },
        None => String::new(),
    }
}

/// A list of texts as store paths: the list itself, or what is wrong with the
/// first text that is none.
pub open spec fn checked_store_paths(list: Seq<Seq<char>>) -> Result<
    Seq<Seq<char>>,
    Seq<Seq<char>>,
>
    decreases list.len(),
{
    if list.len() == 0 {
        Ok(list)
    } else {
        match store_path_fault(list[0]) {
            Some(fault) => Err(seq![fault]),
            None => match checked_store_paths(list.skip(1)) {
                Ok(_) => Ok(list),
                Err(e) => Err(e),
            },
        }
    }
}

pub proof fn lemma_checked_store_paths(list: Seq<Seq<char>>, i: int)
    requires
        0 <= i <= list.len(),
        forall|j: int| 0 <= j < i ==> store_path_fault(#[trigger] list[j]) is None,
        i < list.len() ==> store_path_fault(list[i]) is Some,
    ensures
        checked_store_paths(list) == (if i < list.len() {
            Err::<Seq<Seq<char>>, Seq<Seq<char>>>(seq![store_path_fault(list[i])->0])
        } else {
            Ok(list)
        }),
    decreases list.len(),
{
    if i > 0 {
        let rest = list.skip(1);
        assert forall|j: int| 0 <= j < i - 1 implies store_path_fault(#[trigger] rest[j]) is None by {
            assert(rest[j] == list[j + 1]);
        }
        lemma_checked_store_paths(rest, i - 1);
        assert(store_path_fault(list[0]) is None);
    }
}

pub fn store_paths(list: &[String]) -> (r: Result<Vec<StorePath>, Error>)
    ensures
        paths_outcome(r) == checked_store_paths(text::texts(list@)),
{
    let ghost all = text::texts(list@);
    let mut out: Vec<StorePath> = Vec::new();
    let mut i: usize = 0;
    while i < list.len()
        invariant
            i <= list.len(),
            all == text::texts(list@),
            path_texts(out@) == all.take(i as int),
            forall|j: int| 0 <= j < i ==> store_path_fault(#[trigger] all[j]) is None,
        decreases list.len() - i,
    {
        let ghost earlier = path_texts(out@);
        assert(all[i as int] == list@[i as int]@);
        match StorePath::new(list[i].as_str()) {
            Ok(path) => {
                out.push(path);
                assert(path_texts(out@) =~= earlier.push(all[i as int]));
            },
            Err(e) => {
                proof {
                    lemma_checked_store_paths(all, i as int);
                }
                return Err(e);
            },
        }
        i = i + 1;
    }
    proof {
        lemma_checked_store_paths(all, i as int);
        assert(all.take(i as int) =~= all);
    }
    Ok(out)
}

pub fn store_paths_to_strings(paths: &[StorePath]) -> (r: Vec<String>)
    ensures
        text::texts(r@) == path_texts(paths@),
{
    let mut out: Vec<String> = Vec::new();
    let mut i: usize = 0;
    while i < paths.len()
        invariant
            i <= paths.len(),
            text::texts(out@) == path_texts(paths@).take(i as int),
        decreases paths.len() - i,
    {
        let ghost earlier = text::texts(out@);
        out.push(paths[i].as_str().to_string());
        assert(text::texts(out@) =~= earlier.push(paths@[i as int]@));
        i = i + 1;
    }
    assert(path_texts(paths@).take(i as int) =~= path_texts(paths@));
    out
}

pub fn clone_store_paths(paths: &[StorePath]) -> (r: Vec<StorePath>)
    ensures
        r@ == paths@,
{
    let mut out: Vec<StorePath> = Vec::new();
    let mut i: usize = 0;
    while i < paths.len()
        invariant
            i <= paths.len(),
            out@ == paths@.take(i as int),
        decreases paths.len() - i,
    {
        out.push(paths[i].clone());
        i = i + 1;
    }
    out
}

/// Whether a path is in a list.
pub fn contains_path(paths: &[StorePath], path: &StorePath) -> (r: bool)
    ensures
        r == path_texts(paths@).contains(path@),
{
    let mut i: usize = 0;
    while i < paths.len()
        invariant
            i <= paths.len(),
            forall|j: int| 0 <= j < i ==> path_texts(paths@)[j] != path@,
        decreases paths.len() - i,
    {
        if same_text(paths[i].as_str(), path.as_str()) {
            assert(path_texts(paths@)[i as int] == path@);
            return true;
        }
        i = i + 1;
    }
    false
}

/// A text is accepted exactly where it is a store path, and then unchanged.
pub proof fn law_store_paths_are_accepted(path: Seq<char>)
    ensures
        (checked_store_path(path) is Ok) == is_store_path(path),
        checked_store_path(path) matches Ok(accepted) ==> accepted == path,
{
}

/// A list is accepted exactly where each of its texts is a store path, and
/// then unchanged.
pub proof fn law_store_path_lists_are_accepted(list: Seq<Seq<char>>)
    ensures
        (checked_store_paths(list) is Ok) == (forall|i: int|
            0 <= i < list.len() ==> is_store_path(#[trigger] list[i])),
        checked_store_paths(list) matches Ok(accepted) ==> accepted == list,
    decreases list.len(),
{
    if list.len() > 0 {
        let rest = list.skip(1);
        law_store_path_lists_are_accepted(rest);
        if forall|i: int| 0 <= i < list.len() ==> is_store_path(#[trigger] list[i]) {
            assert forall|i: int| 0 <= i < rest.len() implies is_store_path(#[trigger] rest[i]) by {
                assert(rest[i] == list[i + 1]);
            }
            assert(is_store_path(list[0]));
        }
        if checked_store_paths(list) is Ok {
            assert forall|i: int| 0 <= i < list.len() implies is_store_path(#[trigger] list[i]) by {
                if i > 0 {
                    assert(list[i] == rest[i - 1]);
                }
            }
        }
    }
}

/// A character that a store path may have in its name.
pub open spec fn is_name_character(c: char) -> bool {
    ('a' <= c <= 'z') || ('A' <= c <= 'Z') || ('0' <= c <= '9') || c == '+' || c == '-' || c == '.'
        || c == '_' || c == '?' || c == '='
}

/// A character of the hash in a store path: a digit or a letter, but for four
/// letters.
pub open spec fn is_hash_character(c: char) -> bool {
    (('a' <= c <= 'z') || ('0' <= c <= '9')) && c != 'e' && c != 'o' && c != 't' && c != 'u'
}

/// The store directory, a hash, a dash and a name are a store path with that
/// hash.
pub proof fn law_hash_and_name_make_a_store_path(hash: Seq<char>, name: Seq<char>)
    requires
        hash.len() == 32,
        forall|i: int| 0 <= i < hash.len() ==> is_hash_character(#[trigger] hash[i]),
        name.len() > 0,
        forall|i: int| 0 <= i < name.len() ==> is_name_character(#[trigger] name[i]),
    ensures
        is_store_path("/nix/store/"@ + hash + "-"@ + name),
        hash_of("/nix/store/"@ + hash + "-"@ + name) == hash,
{
    let path = "/nix/store/"@ + hash + "-"@ + name;
    let rest = hash + "-"@ + name;
    reveal_strlit("-");
    assert(path.subrange(0, "/nix/store/"@.len() as int) =~= "/nix/store/"@);
    assert(path.skip("/nix/store/"@.len() as int) =~= rest);
    assert("/nix/store/"@.is_prefix_of(path));
    assert(text::strip_prefix(path, "/nix/store/"@) == Some(rest));
    assert forall|j: int| 0 <= j < 32 implies rest[j] != '-' by {
        assert(rest[j] == hash[j]);
        assert(is_hash_character(hash[j]));
    }
    assert(rest[32] == '-');
    text::lemma_find_is(rest, '-', 32);
    assert(rest.take(32) =~= hash);
    assert(rest.skip(33) =~= name);
    assert(cache::is_store_hash(hash)) by {
        assert forall|i: int| 0 <= i < hash.len() implies text::is_nix_base32(
            #[trigger] hash[i],
        ) by {
            assert(is_hash_character(hash[i]));
        }
    }
    assert(is_store_name(name)) by {
        assert forall|i: int| 0 <= i < name.len() implies is_store_name_char(
            #[trigger] name[i],
        ) by {
            assert(is_name_character(name[i]));
        }
    }
}

/// Every store path is the store directory, a hash, a dash and a name.
pub proof fn law_store_paths_have_a_hash_and_a_name(path: Seq<char>)
    requires
        is_store_path(path),
    ensures
        hash_of(path).len() == 32,
        forall|i: int| 0 <= i < 32 ==> is_hash_character(#[trigger] hash_of(path)[i]),
        exists|name: Seq<char>|
            #![trigger is_store_name(name)]
            is_store_name(name) && path == "/nix/store/"@ + hash_of(path) + "-"@ + name && name.len()
                > 0 && forall|i: int| 0 <= i < name.len() ==> is_name_character(#[trigger] name[i]),
{
    reveal_strlit("-");
    let start = "/nix/store/"@;
    let rest = text::strip_prefix(path, start)->0;
    let (hash, name) = text::split_once(rest, '-')->0;
    text::lemma_find(rest, '-');
    assert(path.subrange(0, start.len() as int) == start);
    assert(path =~= start + rest);
    assert(rest =~= hash + "-"@ + name);
    assert(path =~= start + hash + "-"@ + name);
    assert forall|i: int| 0 <= i < 32 implies is_hash_character(#[trigger] hash[i]) by {
        assert(text::is_nix_base32(hash[i]));
    }
    assert forall|i: int| 0 <= i < name.len() implies is_name_character(#[trigger] name[i]) by {
        assert(is_store_name_char(name[i]));
    }
    assert(is_store_name(name));
}

/// A store path has no white space in it.
pub proof fn law_store_paths_have_no_space(path: Seq<char>)
    requires
        is_store_path(path),
    ensures
        path.len() > 0,
        forall|i: int| 0 <= i < path.len() ==> !text::is_space(#[trigger] path[i]),
        text::trim(path) == path,
{
    law_store_paths_have_a_hash_and_a_name(path);
    reveal_strlit("/nix/store/");
    reveal_strlit("-");
    let hash = hash_of(path);
    let name = choose|name: Seq<char>|
        #![trigger is_store_name(name)]
        is_store_name(name) && path == "/nix/store/"@ + hash_of(path) + "-"@ + name && name.len() > 0
            && forall|i: int| 0 <= i < name.len() ==> is_name_character(#[trigger] name[i]);
    let start = "/nix/store/"@;
    assert forall|i: int| 0 <= i < path.len() implies !text::is_space(#[trigger] path[i]) by {
        if i < start.len() {
            assert(path[i] == start[i]);
        } else if i < start.len() + 32 {
            assert(path[i] == hash[i - start.len()]);
            assert(is_hash_character(hash[i - start.len()]));
        } else if i > start.len() + 32 {
            assert(path[i] == name[i - start.len() - 33]);
            assert(is_name_character(name[i - start.len() - 33]));
        }
    }
    assert(!text::is_space(path[0]));
    assert(!text::is_space(path[path.len() - 1]));
}

/// What is no store path is refused, for the first reason there is, and with the
/// text.
pub proof fn law_other_paths_are_refused(path: Seq<char>, hash: Seq<char>, name: Seq<char>)
    ensures
        !"/nix/store/"@.is_prefix_of(path) ==> checked_store_path(path) == Err::<
            Seq<char>,
            Seq<Seq<char>>,
        >(seq!["not a Nix store path: "@ + path]),
        !name.contains('-') ==> checked_store_path("/nix/store/"@ + name) == Err::<
            Seq<char>,
            Seq<Seq<char>>,
        >(seq!["invalid Nix store path: "@ + ("/nix/store/"@ + name)]),
        !hash.contains('-') && !cache::is_store_hash(hash) ==> checked_store_path(
            "/nix/store/"@ + (hash + seq!['-'] + name),
        ) == Err::<Seq<char>, Seq<Seq<char>>>(
            seq!["invalid Nix store path hash: "@ + ("/nix/store/"@ + (hash + seq!['-'] + name))],
        ),
        !hash.contains('-') && cache::is_store_hash(hash) && !is_store_name(name)
            ==> checked_store_path("/nix/store/"@ + (hash + seq!['-'] + name)) == Err::<
            Seq<char>,
            Seq<Seq<char>>,
        >(seq!["invalid Nix store path name: "@ + ("/nix/store/"@ + (hash + seq!['-'] + name))]),
{
    let store = "/nix/store/"@;
    text::law_texts_are_found(store, name, Seq::empty());
    let rest = hash + seq!['-'] + name;
    text::law_texts_are_found(store, rest, Seq::empty());
    assert(store =~= (store + name).subrange(0, store.len() as int));
    assert(store =~= (store + rest).subrange(0, store.len() as int));
    if !name.contains('-') {
        text::lemma_find(name, '-');
        if text::find(name, '-') < name.len() {
            assert(name[text::find(name, '-')] == '-');
        }
    }
    if !hash.contains('-') {
        let n = hash.len() as int;
        assert forall|j: int| 0 <= j < n implies rest[j] != '-' by {
            assert(rest[j] == hash[j]);
        }
        text::lemma_find_is(rest, '-', n);
        assert(rest.take(n) =~= hash);
        assert(rest.skip(n + 1) =~= name);
    }
}

} // verus!
