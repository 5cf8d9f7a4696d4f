//! File paths as text.

use vstd::prelude::*;

use crate::error;
use crate::error::Error;
use crate::text;
use crate::text::{chars_of, concat2, concat3, decimal_string};

verus! {

/// A path below a directory: an absolute name stands for itself, another one
/// follows the directory and a separator.
pub open spec fn joined(dir: Seq<char>, name: Seq<char>) -> Seq<char> {
    if name.len() > 0 && name[0] == '/' {
        name
    } else if dir.len() == 0 || dir.last() == '/' {
        dir + name
    } else {
        dir + "/"@ + name
    }
}

pub fn join_path(dir: &str, name: &str) -> (r: String)
    ensures
        r@ == joined(dir@, name@),
{
    let d: Vec<char> = chars_of(dir);
    let n: Vec<char> = chars_of(name);
    if n.len() > 0 && n[0] == '/' {
        return name.to_string();
    }
    if d.len() == 0 || d[d.len() - 1] == '/' {
        concat2(dir, name)
    } else {
        concat3(dir, "/", name)
    }
}

/// The names between the separators of a path. Repeated and trailing separators
/// part nothing, and `.` names nothing.
pub open spec fn names(path: Seq<char>) -> Seq<Seq<char>> {
    text::split(path, '/').filter(|name: Seq<char>| name.len() > 0 && name != "."@)
}

/// The components of a path: the root of an absolute path, the `.` that another
/// one may begin with, and the names that follow.
pub open spec fn components(path: Seq<char>) -> Seq<Seq<char>> {
    if path.len() > 0 && path[0] == '/' {
        seq!["/"@] + names(path)
    } else if path.len() > 0 && text::split(path, '/')[0] == "."@ {
        seq!["."@] + names(path)
    } else {
        names(path)
    }
}

/// The last component of a path, where it names a file: it is not the root, not
/// `.` and not `..`.
pub open spec fn file_name_of(path: Seq<char>) -> Option<Seq<char>> {
    let parts = components(path);
    if parts.len() == 0 || parts.last() == "/"@ || parts.last() == "."@ || parts.last() == ".."@ {
        None
    } else {
        Some(parts.last())
    }
}

/// The components of the file of this name that stands beside another.
pub open spec fn beside(path: Seq<char>, name: Seq<char>) -> Seq<Seq<char>> {
    components(path).drop_last().push(name)
}

/// A path with its last component replaced, as `Path::with_file_name` gives it.
pub uninterp spec fn with_file_name_of(path: Seq<char>, name: Seq<char>) -> Seq<char>;

/// `std::path::Path::file_name` on Unix, where `/` is the separator: the last
/// component of the path, where it names a file or directory.
#[verifier::external_body]
fn file_name(path: &str) -> (r: Option<String>)
    ensures
        text::optional_text(r) == file_name_of(path@),
{
    std::path::Path::new(path).file_name().map(|name| name.to_string_lossy().into_owned())
}

/// `std::path::Path::with_file_name` on Unix: the path with its last component
/// replaced. Where the path names a file and the new name is a single name, the
/// result has the components of a sibling. How many separators and `.` stand
/// between its components is not said: the text is named.
#[verifier::external_body]
fn with_file_name(path: &str, name: &str) -> (r: String)
    ensures
        r@ == with_file_name_of(path@, name@),
        file_name_of(path@) is Some && components(name@) == seq![name@] && file_name_of(name@)
            is Some ==> components(r@) == beside(path@, name@),
{
    std::path::Path::new(path).with_file_name(name).to_string_lossy().into_owned()
}

/// A text without a separator, other than the empty one, `.` and `..`, is one
/// component, and names a file.
proof fn lemma_plain_name(name: Seq<char>)
    requires
        !name.contains('/'),
        name.len() > 2,
    ensures
        components(name) == seq![name],
        file_name_of(name) == Some(name),
{
    reveal_strlit("/");
    reveal_strlit(".");
    reveal_strlit("..");
    text::lemma_find(name, '/');
    assert(text::split(name, '/') == seq![name]);
    let kept = |name: Seq<char>| name.len() > 0 && name != "."@;
    let parts = seq![name];
    assert(parts.drop_last() =~= Seq::<Seq<char>>::empty());
    assert(parts.filter(kept) =~= seq![name]) by {
        reveal(Seq::filter);
        assert(parts.drop_last().filter(kept) =~= Seq::<Seq<char>>::empty());
    }
    if name[0] == '/' {
        assert(name.contains('/'));
    }
}

/// No part of a split text holds the separator.
proof fn lemma_parts_are_plain(s: Seq<char>, c: char, i: int)
    requires
        0 <= i < text::split(s, c).len(),
    ensures
        !text::split(s, c)[i].contains(c),
    decreases s.len(),
{
    text::lemma_find(s, c);
    let f = text::find(s, c);
    if f < s.len() {
        if i == 0 {
            assert(text::split(s, c)[0] == s.take(f));
        } else {
            lemma_parts_are_plain(s.skip(f + 1), c, i - 1);
            assert(text::split(s, c)[i] == text::split(s.skip(f + 1), c)[i - 1]);
        }
    }
}

/// What is kept of a sequence stands in it.
proof fn lemma_kept_is_there(all: Seq<Seq<char>>, keep: spec_fn(Seq<char>) -> bool, i: int)
    requires
        0 <= i < all.filter(keep).len(),
    ensures
        all.contains(all.filter(keep)[i]),
        keep(all.filter(keep)[i]),
    decreases all.len(),
{
    reveal(Seq::filter);
    if all.len() > 0 {
        let rest = all.drop_last().filter(keep);
        if i < rest.len() {
            lemma_kept_is_there(all.drop_last(), keep, i);
            let j = choose|j: int|
                0 <= j < all.drop_last().len() && all.drop_last()[j] == rest[i];
            assert(all[j] == rest[i]);
        } else {
            assert(all[all.len() - 1] == all.last());
        }
    }
}

/// A file name is not empty and holds no separator.
proof fn lemma_file_name_is_plain(path: Seq<char>)
    requires
        file_name_of(path) is Some,
    ensures
        file_name_of(path)->0.len() > 0,
        !file_name_of(path)->0.contains('/'),
{
    let parts = text::split(path, '/');
    let keep = |name: Seq<char>| name.len() > 0 && name != "."@;
    let found = names(path);
    if found.len() == 0 {
        assert(components(path) =~= seq!["/"@] || components(path) =~= seq!["."@]
            || components(path).len() == 0);
    } else {
        let name = found.last();
        assert(components(path).last() == name);
        lemma_kept_is_there(parts, keep, found.len() - 1);
        let i = choose|i: int| 0 <= i < parts.len() && parts[i] == name;
        lemma_parts_are_plain(path, '/', i);
    }
}

/// The name of the lock beside a file: hidden, with the suffix `.lock`.
pub open spec fn lock_name(name: Seq<char>) -> Seq<char> {
    "."@ + name + ".lock"@
}

/// The name of the file that a process writes before it renames it into place.
pub open spec fn temp_name(name: Seq<char>, pid: nat) -> Seq<char> {
    "."@ + name + "."@ + text::decimal(pid) + ".tmp"@
}

/// The lock beside a file.
pub open spec fn lock_path(path: Seq<char>, complaint: Seq<char>) -> Result<
    Seq<char>,
    Seq<Seq<char>>,
> {
    match file_name_of(path) {
        Some(name) => Ok(with_file_name_of(path, lock_name(name))),
        None => Err(seq![complaint]),
    }
}

/// The temporary file beside a file.
pub open spec fn temp_path(path: Seq<char>, pid: nat) -> Result<Seq<char>, Seq<Seq<char>>> {
    match file_name_of(path) {
        Some(name) => Ok(with_file_name_of(path, temp_name(name, pid))),
        None => Err(seq!["path has no UTF-8 file name: "@ + path]),
    }
}

/// The name of the lock beside a file of this name.
pub fn lock_file_name(name: &str) -> (r: String)
    ensures
        r@ == lock_name(name@),
{
    concat3(".", name, ".lock")
}

/// The name of the file that a process writes before it renames it to `name`.
pub fn temp_file_name(name: &str, pid: u32) -> (r: String)
    ensures
        r@ == temp_name(name@, pid as nat),
{
    let mut hidden: String = concat3(".", name, ".");
    hidden.append(decimal_string(pid as u64).as_str());
    hidden.append(".tmp");
    hidden
}

/// The lock beside a file, or the complaint where the path names no file.
pub fn lock_path_for(path: &str, complaint: &str) -> (r: Result<String, Error>)
    ensures
        error::text_outcome(r) == lock_path(path@, complaint@),
        r matches Ok(lock) ==> components(lock@) == beside(
            path@,
            lock_name(file_name_of(path@)->0),
        ),
{
    match file_name(path) {
        Some(name) => {
            proof {
                lemma_file_name_is_plain(path@);
                reveal_strlit(".");
                reveal_strlit(".lock");
                lemma_plain_name(lock_name(name@));
            }
            Ok(with_file_name(path, lock_file_name(name.as_str()).as_str()))
        },
        None => Err(Error::of(complaint)),
    }
}

/// The file that a process writes before it renames it to `path`.
pub fn temp_path_for(path: &str, pid: u32) -> (r: Result<String, Error>)
    ensures
        error::text_outcome(r) == temp_path(path@, pid as nat),
        r matches Ok(temp) ==> components(temp@) == beside(
            path@,
            temp_name(file_name_of(path@)->0, pid as nat),
        ),
{
    match file_name(path) {
        Some(name) => {
            proof {
                lemma_file_name_is_plain(path@);
                text::law_decimal_names_its_number(pid as nat);
                reveal_strlit(".");
                reveal_strlit(".tmp");
                lemma_plain_name(temp_name(name@, pid as nat));
            }
            Ok(with_file_name(path, temp_file_name(name.as_str(), pid).as_str()))
        },
        None => Err(Error::new(concat2("path has no UTF-8 file name: ", path))),
    }
}

/// Whether a path is relative.
pub open spec fn relative(path: Seq<char>) -> bool {
    !"/"@.is_prefix_of(path)
}

/// A relative path stays below the directory that it is joined to.
pub proof fn law_joined_relative_is_below(dir: Seq<char>, name: Seq<char>)
    requires
        relative(name),
    ensures
        dir.is_prefix_of(joined(dir, name)),
        name.is_suffix_of(joined(dir, name)),
{
    reveal_strlit("/");
    if name.len() > 0 && name[0] == '/' {
        assert("/"@ =~= name.take(1));
    }
    assert(dir =~= joined(dir, name).take(dir.len() as int));
    let all = joined(dir, name);
    assert(name =~= all.subrange(all.len() - name.len(), all.len() as int));
}

/// A name that is joined to a directory follows it after exactly one `/`,
/// unless the directory ends with one or is empty. An absolute path stands for
/// itself.
pub proof fn law_joined_paths(dir: Seq<char>, name: Seq<char>)
    ensures
        !relative(name) ==> joined(dir, name) == name,
        relative(name) && dir.len() > 0 && dir.last() != '/' ==> joined(dir, name) == dir + seq![
            '/',
        ] + name,
        relative(name) && (dir.len() == 0 || dir.last() == '/') ==> joined(dir, name) == dir + name,
{
    reveal_strlit("/");
    assert("/"@ =~= seq!['/']);
    if name.len() > 0 {
        assert(name.subrange(0, 1)[0] == name[0]);
        if name[0] == '/' {
            assert("/"@ =~= name.subrange(0, 1));
        }
    }
}

/// The lock and the temporary file of a file are hidden, hold its name, and are
/// told apart by how they end. Different processes write different temporary
/// files.
pub proof fn law_names_beside_a_file(name: Seq<char>, other: Seq<char>, pid: nat, other_pid: nat)
    ensures
        lock_name(name) == "."@ + name + ".lock"@,
        temp_name(name, pid) == "."@ + name + "."@ + text::decimal(pid) + ".tmp"@,
        lock_name(name) == lock_name(other) ==> name == other,
        temp_name(name, pid) == temp_name(name, other_pid) ==> pid == other_pid,
        lock_name(name) != temp_name(other, pid),
{
    reveal_strlit(".lock");
    reveal_strlit(".tmp");
    let lock = lock_name(name);
    let temp = temp_name(other, pid);
    assert(lock[lock.len() - 1] == 'k');
    assert(temp[temp.len() - 1] == 'p');
    if lock_name(name) == lock_name(other) {
        assert(name =~= lock.subrange(
            "."@.len() as int,
            lock.len() - ".lock"@.len(),
        ));
        assert(other =~= lock.subrange("."@.len() as int, lock.len() - ".lock"@.len()));
    }
    if temp_name(name, pid) == temp_name(name, other_pid) {
        let whole = temp_name(name, pid);
        let from = ("."@ + name + "."@).len() as int;
        assert(text::decimal(pid) =~= whole.subrange(from, whole.len() - ".tmp"@.len()));
        assert(text::decimal(other_pid) =~= whole.subrange(from, whole.len() - ".tmp"@.len()));
        text::law_decimal_names_its_number(pid);
        text::law_decimal_names_its_number(other_pid);
    }
}

/// A file that has a name has a lock and a temporary file beside it; one that
/// has none has neither, and its user is told.
pub proof fn law_files_without_a_name_have_no_lock(
    path: Seq<char>,
    complaint: Seq<char>,
    pid: nat,
)
    ensures
        (lock_path(path, complaint) is Ok) == (file_name_of(path) is Some),
        (temp_path(path, pid) is Ok) == (file_name_of(path) is Some),
        file_name_of(path) is None ==> lock_path(path, complaint) == Err::<
            Seq<char>,
            Seq<Seq<char>>,
        >(seq![complaint]),
        file_name_of(path) is None ==> temp_path(path, pid) == Err::<Seq<char>, Seq<Seq<char>>>(
            seq!["path has no UTF-8 file name: "@ + path],
        ),
        file_name_of(path) is Some ==> lock_path(path, complaint) == Ok::<
            Seq<char>,
            Seq<Seq<char>>,
        >(with_file_name_of(path, "."@ + file_name_of(path)->0 + ".lock"@)),
{
}

} // verus!
