//! The client's copy of a part of the builder's cache.

use vstd::prelude::*;

use crate::cache;
use crate::cache::narinfo_nar_path;
use crate::collections::StrSet;
use crate::error;
use crate::error::Error;
use crate::nix;
use crate::nix::StorePath;
use crate::server::output_cache;
use crate::server::output_cache::narinfo_path_for_store_path;
use crate::text;
use crate::text::{chars_of, concat2, concat4, decimal_string, parse_unsigned};

verus! {

pub const MAX_PARALLEL_METADATA_FETCHES: usize = 64;

pub const DEFAULT_PARALLEL_NAR_FETCHES: usize = 8;

pub const MAX_AUTO_PARALLEL_NAR_FETCHES: usize = 32;

pub const NAR_FETCHES_ENV: &'static str = "DRV_THRU_NAR_FETCHES";

/// The longest narinfo that is read, in bytes.
pub const MAX_NARINFO_BYTES: u64 = 1_048_576;

// ---------------------------------------------------------------------------
// How much at once
// ---------------------------------------------------------------------------

pub open spec fn auto_fetches(available: nat) -> nat {
    if available < DEFAULT_PARALLEL_NAR_FETCHES {
        DEFAULT_PARALLEL_NAR_FETCHES as nat
    } else if available > MAX_AUTO_PARALLEL_NAR_FETCHES {
        MAX_AUTO_PARALLEL_NAR_FETCHES as nat
    } else {
        available
    }
}

/// How many archives are fetched at once on a machine that can do so much.
pub fn auto_parallel_nar_fetches(available: usize) -> (n: usize)
    ensures
        n == auto_fetches(available as nat),
{
    if available < DEFAULT_PARALLEL_NAR_FETCHES {
        DEFAULT_PARALLEL_NAR_FETCHES
    } else if available > MAX_AUTO_PARALLEL_NAR_FETCHES {
        MAX_AUTO_PARALLEL_NAR_FETCHES
    } else {
        available
    }
}

/// How many archives are fetched at once: as many as the user says, on the
/// command line or in the environment, or as fits the machine.
pub open spec fn fetches(
    configured: Option<usize>,
    environment: Option<Seq<char>>,
    available: Option<usize>,
) -> Result<usize, Seq<Seq<char>>> {
    match configured {
        Some(configured) => Ok(configured),
        None => match environment {
            Some(value) => match text::unsigned_value(value, usize::MAX as int) {
                None => Err(
                    seq![
                        "parse "@ + NAR_FETCHES_ENV@ + "="@ + value,
                        text::usize_error_of(value),
                    ],
                ),
                Some(n) => if n == 0 {
                    Err(seq![NAR_FETCHES_ENV@ + " must be at least 1"@])
                } else {
                    Ok(n as usize)
                },
            },
            None => Ok(
                auto_fetches(
                    match available {
                        Some(available) => available as nat,
                        None => DEFAULT_PARALLEL_NAR_FETCHES as nat,
                    },
                ) as usize,
            ),
        },
    }
}

pub fn parallel_nar_fetches(
    configured: Option<usize>,
    environment: Option<&str>,
    available: Option<usize>,
) -> (r: Result<usize, Error>)
    ensures
        error::outcome(r) == fetches(
            configured,
            match environment {
                Some(value) => Some(value@),
                None => None,
            },
            available,
        ),
{
    match configured {
        Some(configured) => {
            return Ok(configured);
        },
        None => {},
    }
    match environment {
        Some(value) => {
            let chars: Vec<char> = chars_of(value);
            match parse_unsigned(chars.as_slice(), usize::MAX as u64) {
                None => Err(
                    Error::caused(
                        concat4("parse ", NAR_FETCHES_ENV, "=", value),
                        text::usize_error(value),
                    ),
                ),
                Some(n) => {
                    if n == 0 {
                        return Err(Error::new(concat2(NAR_FETCHES_ENV, " must be at least 1")));
                    }
                    Ok(n as usize)
                },
            }
        },
        None => {
            let available: usize = match available {
                Some(available) => available,
                None => DEFAULT_PARALLEL_NAR_FETCHES,
            };
            Ok(auto_parallel_nar_fetches(available))
        },
    }
}

// ---------------------------------------------------------------------------
// What is fetched
// ---------------------------------------------------------------------------

/// A narinfo that is fetched, and whether its archive is as well.
pub struct NarinfoFetch {
    pub narinfo_path: String,
    pub with_archive: bool,
}

/// The view of what is fetched.
pub struct NarinfoFetchView {
    pub narinfo_path: Seq<char>,
    pub with_archive: bool,
}

impl View for NarinfoFetch {
    type V = NarinfoFetchView;

    open spec fn view(&self) -> NarinfoFetchView {
        NarinfoFetchView { narinfo_path: self.narinfo_path@, with_archive: self.with_archive }
    }
}

pub open spec fn fetch_views(list: Seq<NarinfoFetch>) -> Seq<NarinfoFetchView> {
    Seq::new(list.len(), |i: int| list[i]@)
}

/// The narinfos of a list of paths.
pub open spec fn narinfos(paths: Seq<Seq<char>>) -> Seq<Seq<char>> {
    Seq::new(paths.len(), |i: int| output_cache::narinfo_of(paths[i]))
}

/// All narinfos of the closure are fetched, and the archives of the paths that
/// are copied.
pub open spec fn fetch_plan(closure: Seq<Seq<char>>, copied: Seq<Seq<char>>) -> Seq<
    NarinfoFetchView,
> {
    Seq::new(
        closure.len(),
        |i: int|
            NarinfoFetchView {
                narinfo_path: output_cache::narinfo_of(closure[i]),
                with_archive: narinfos(copied).contains(output_cache::narinfo_of(closure[i])),
            },
    )
}

fn narinfo_set(paths: &[StorePath]) -> (r: StrSet)
    ensures
        forall|name: Seq<char>|
            r@.contains(name) == #[trigger] narinfos(nix::path_texts(paths@)).contains(name),
{
    let ghost all = narinfos(nix::path_texts(paths@));
    let mut set: StrSet = StrSet::new();
    let mut i: usize = 0;
    assert(all.take(0).to_set() =~= set@.to_set());
    while i < paths.len()
        invariant
            i <= paths@.len(),
            all == narinfos(nix::path_texts(paths@)),
            set@.to_set() == all.take(i as int).to_set(),
        decreases paths@.len() - i,
    {
        let name: String = narinfo_path_for_store_path(&paths[i]);
        assert(all[i as int] == name@);
        let ghost added = name@;
        let _ = set.insert(name);
        proof {
            let shorter = all.take(i as int);
            let longer = all.take(i + 1);
            assert forall|x: Seq<char>| longer.contains(x) == (shorter.contains(x) || x
                == added) by {
                assert(longer[i as int] == added);
                if shorter.contains(x) {
                    let k = choose|k: int| 0 <= k < shorter.len() && shorter[k] == x;
                    assert(longer[k] == x);
                }
                if longer.contains(x) {
                    let k = choose|k: int| 0 <= k < longer.len() && longer[k] == x;
                    if k < i {
                        assert(shorter[k] == x);
                    }
                }
            }
            assert(longer.to_set() =~= shorter.to_set().insert(added));
        }
        i = i + 1;
    }
    proof {
        assert(all.take(i as int) =~= all);
        assert forall|name: Seq<char>| set@.contains(name) == #[trigger] all.contains(name) by {
            assert(set@.to_set().contains(name) == all.to_set().contains(name));
        }
    }
    set
}

/// Plans what is fetched of the builder's cache.
pub fn plan_mirror(closure_paths: &[StorePath], copy_paths: &[StorePath]) -> (r: Vec<NarinfoFetch>)
    ensures
        fetch_views(r@) == fetch_plan(
            nix::path_texts(closure_paths@),
            nix::path_texts(copy_paths@),
        ),
{
    let copied: StrSet = narinfo_set(copy_paths);
    let ghost plan = fetch_plan(nix::path_texts(closure_paths@), nix::path_texts(copy_paths@));
    let mut out: Vec<NarinfoFetch> = Vec::new();
    let mut i: usize = 0;
    while i < closure_paths.len()
        invariant
            i <= closure_paths@.len(),
            plan == fetch_plan(nix::path_texts(closure_paths@), nix::path_texts(copy_paths@)),
            forall|name: Seq<char>|
                copied@.contains(name) == #[trigger] narinfos(
                    nix::path_texts(copy_paths@),
                ).contains(name),
            fetch_views(out@) == plan.take(i as int),
        decreases closure_paths@.len() - i,
    {
        let narinfo_path: String = narinfo_path_for_store_path(&closure_paths[i]);
        let with_archive: bool = copied.contains(narinfo_path.as_str());
        let fetch: NarinfoFetch = NarinfoFetch { narinfo_path, with_archive };
        assert(fetch@ == plan[i as int]);
        let ghost earlier = fetch_views(out@);
        out.push(fetch);
        assert(fetch_views(out@) =~= earlier.push(plan[i as int]));
        assert(plan.take(i + 1) =~= plan.take(i as int).push(plan[i as int]));
        i = i + 1;
    }
    assert(plan.take(i as int) =~= plan);
    out
}

/// The error where the builder has no such narinfo.
pub fn metadata_missing(narinfo_path: &str) -> (e: Error)
    ensures
        e@ == seq!["cache metadata not found: "@ + narinfo_path@],
{
    Error::new(concat2("cache metadata not found: ", narinfo_path))
}

/// The error where the builder has no such archive.
pub fn payload_missing(nar_path: &str) -> (e: Error)
    ensures
        e@ == seq!["cache payload not found: "@ + nar_path@],
{
    Error::new(concat2("cache payload not found: ", nar_path))
}

/// Refuses a narinfo that is too long to be one.
pub fn check_metadata_size(byte_count: u64, path: &str) -> (r: Result<(), Error>)
    ensures
        match r {
            Ok(()) => byte_count <= MAX_NARINFO_BYTES,
            Err(e) => byte_count > MAX_NARINFO_BYTES && e@ == seq![
                "cache metadata too large: "@ + text::decimal(byte_count as nat) + " bytes for "@
                    + path@,
            ],
        },
{
    if byte_count > MAX_NARINFO_BYTES {
        return Err(
            Error::new(
                concat4(
                    "cache metadata too large: ",
                    decimal_string(byte_count).as_str(),
                    " bytes for ",
                    path,
                ),
            ),
        );
    }
    Ok(())
}

/// The archive that is fetched after a narinfo, if any.
pub fn archive_to_fetch(with_archive: bool, narinfo: &[u8]) -> (r: Result<Option<String>, Error>)
    ensures
        cache::optional_outcome(r) == (if with_archive {
            cache::narinfo_nar_of_bytes(narinfo@)
        } else {
            Ok(None)
        }),
{
    if with_archive {
        narinfo_nar_path(narinfo)
    } else {
        Ok(None)
    }
}

// ---------------------------------------------------------------------------
// Laws
// ---------------------------------------------------------------------------

/// Every narinfo of the closure is fetched, and the archive of every path that
/// is copied and in the closure.
pub proof fn law_copied_paths_are_fetched_whole(
    closure: Seq<Seq<char>>,
    copied: Seq<Seq<char>>,
    i: int,
)
    requires
        0 <= i < closure.len(),
    ensures
        fetch_plan(closure, copied).len() == closure.len(),
        fetch_plan(closure, copied)[i].narinfo_path == output_cache::narinfo_of(closure[i]),
        copied.contains(closure[i]) ==> fetch_plan(closure, copied)[i].with_archive,
{
    if copied.contains(closure[i]) {
        let k = choose|k: int| 0 <= k < copied.len() && copied[k] == closure[i];
        assert(narinfos(copied)[k] == output_cache::narinfo_of(closure[i]));
    }
}

/// The archive of a path is fetched only where a path with its hash is copied.
pub proof fn law_only_copied_archives_are_fetched(
    closure: Seq<Seq<char>>,
    copied: Seq<Seq<char>>,
    i: int,
)
    requires
        0 <= i < closure.len(),
        fetch_plan(closure, copied)[i].with_archive,
    ensures
        exists|k: int|
            0 <= k < copied.len() && crate::nix::hash_of(#[trigger] copied[k])
                == crate::nix::hash_of(closure[i]),
{
    let name = output_cache::narinfo_of(closure[i]);
    let k = choose|k: int| 0 <= k < narinfos(copied).len() && narinfos(copied)[k] == name;
    let suffix = ".narinfo"@;
    let ours = crate::nix::hash_of(closure[i]);
    let theirs = crate::nix::hash_of(copied[k]);
    assert((ours + suffix).take(ours.len() as int) =~= ours);
    assert((theirs + suffix).take(theirs.len() as int) =~= theirs);
    assert(ours + suffix == theirs + suffix);
    assert(ours.len() == theirs.len());
}

/// As many archives are fetched at once as the user says, on the command line or else
/// in the environment, whatever the number is; else as many as the machine can do,
/// but from eight to thirty-two.
pub proof fn law_fetches_follow_the_user(configured: usize, n: usize, available: usize)
    ensures
        forall|environment: Option<Seq<char>>, machine: Option<usize>|
            #[trigger] fetches(Some(configured), environment, machine) == Ok::<
                usize,
                Seq<Seq<char>>,
            >(configured),
        n > 0 ==> forall|machine: Option<usize>|
            #[trigger] fetches(None, Some(text::decimal(n as nat)), machine) == Ok::<
                usize,
                Seq<Seq<char>>,
            >(n),
        forall|machine: Option<usize>|
            (#[trigger] fetches(None, Some(text::decimal(0)), machine)) is Err,
        8 <= available <= 32 ==> fetches(None, None, Some(available)) == Ok::<
            usize,
            Seq<Seq<char>>,
        >(available),
        available < 8 ==> fetches(None, None, Some(available)) == Ok::<usize, Seq<Seq<char>>>(8),
        available > 32 ==> fetches(None, None, Some(available)) == Ok::<usize, Seq<Seq<char>>>(32),
        fetches(None, None, None) == Ok::<usize, Seq<Seq<char>>>(8),
{
    text::law_decimal_names_its_number(n as nat);
    text::law_decimal_names_its_number(0);
}

/// A narinfo of up to a megabyte is read.
pub proof fn law_narinfos_are_short()
    ensures
        MAX_NARINFO_BYTES == 1024 * 1024,
        NAR_FETCHES_ENV@ == "DRV_THRU_NAR_FETCHES"@,
{
}

/// How much is fetched at once.
pub proof fn law_how_much_is_fetched_at_once()
    ensures
        MAX_PARALLEL_METADATA_FETCHES == 64,
        DEFAULT_PARALLEL_NAR_FETCHES == 8,
        MAX_AUTO_PARALLEL_NAR_FETCHES == 32,
{
}

/// A number of fetches in the environment that is none is refused, with what was
/// said, and so is none at all.
pub proof fn law_bad_numbers_of_fetches_are_refused(value: Seq<char>, available: Option<usize>)
    ensures
        text::unsigned_value(value, usize::MAX as int) is None ==> (fetches(
            None,
            Some(value),
            available,
        ) matches Err(e) && e.len() == 2 && e[0] == "parse "@ + "DRV_THRU_NAR_FETCHES"@ + "="@
            + value),
        text::unsigned_value(value, usize::MAX as int) == Some(0int) ==> fetches(
            None,
            Some(value),
            available,
        ) == Err::<usize, Seq<Seq<char>>>(
            seq!["DRV_THRU_NAR_FETCHES"@ + " must be at least 1"@],
        ),
{
}

} // verus!
