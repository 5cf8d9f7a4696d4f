//! Where a builder keeps its state.

use vstd::prelude::*;

use crate::error;
use crate::error::Error;
use crate::paths;
use crate::paths::join_path;
use crate::text;
use crate::text::concat2;
use crate::text::decimal_string;

verus! {

pub const SYSTEM_DATA_DIR: &'static str = "/var/lib/drv-thru";

/// The data directory of a user.
pub open spec fn user_dir(state_home: Option<Seq<char>>, home: Option<Seq<char>>) -> Result<
    Seq<char>,
    Seq<Seq<char>>,
> {
    match state_home {
        Some(state_home) => Ok(paths::joined(state_home, "drv-thru"@)),
        None => match home {
            Some(home) => Ok(paths::joined(home, ".local/state/drv-thru"@)),
            None => Err(seq!["HOME is not set; pass --data-dir"@]),
        },
    }
}

/// The data directory of a user, by what `XDG_STATE_HOME` and `HOME` say.
pub fn user_data_dir(state_home: Option<&str>, home: Option<&str>) -> (r: Result<String, Error>)
    ensures
        error::text_outcome(r) == user_dir(
            text::optional_str(state_home),
            text::optional_str(home),
        ),
{
    match state_home {
        Some(state_home) => Ok(join_path(state_home, "drv-thru")),
        None => match home {
            Some(home) => Ok(join_path(home, ".local/state/drv-thru")),
            None => Err(Error::of("HOME is not set; pass --data-dir")),
        },
    }
}

/// The data directory: the one that was given, or that of the system where it
/// can be written, or that of the user.
pub fn choose_data_dir(
    given: Option<String>,
    system_is_accessible: bool,
    state_home: Option<&str>,
    home: Option<&str>,
) -> (r: Result<String, Error>)
    ensures
        error::text_outcome(r) == (match text::optional_text(given) {
            Some(dir) => Ok::<Seq<char>, Seq<Seq<char>>>(dir),
            None => if system_is_accessible {
                Ok(SYSTEM_DATA_DIR@)
            } else {
                user_dir(text::optional_str(state_home), text::optional_str(home))
            },
        }),
{
    match given {
        Some(dir) => Ok(dir),
        None => {
            if system_is_accessible {
                Ok(SYSTEM_DATA_DIR.to_string())
            } else {
                user_data_dir(state_home, home)
            }
        },
    }
}

/// The file by which it is found out whether a directory can be written.
pub fn probe_path(dir: &str, pid: u32) -> (r: String)
    ensures
        r@ == paths::joined(dir@, ".access-check-"@ + text::decimal(pid as nat)),
{
    join_path(dir, concat2(".access-check-", decimal_string(pid as u64).as_str()).as_str())
}

/// A user's data is below the state directory that the user names, or else below
/// the home directory, and nowhere without either.
pub proof fn law_users_keep_their_data_at_home(state_home: Seq<char>, home: Seq<char>)
    ensures
        user_dir(Some(state_home), Some(home)) == Ok::<Seq<char>, Seq<Seq<char>>>(
            paths::joined(state_home, "drv-thru"@),
        ),
        user_dir(Some(state_home), None) == user_dir(Some(state_home), Some(home)),
        user_dir(None, Some(home)) == Ok::<Seq<char>, Seq<Seq<char>>>(
            paths::joined(home, ".local/state/drv-thru"@),
        ),
        user_dir(None, None) == Err::<Seq<char>, Seq<Seq<char>>>(
            seq!["HOME is not set; pass --data-dir"@],
        ),
        SYSTEM_DATA_DIR@ == "/var/lib/drv-thru"@,
{
}

} // verus!
