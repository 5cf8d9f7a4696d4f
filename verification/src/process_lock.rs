//! Who holds a lock, and whether that process still lives.

use vstd::prelude::*;

use crate::text;
use crate::text::{
    chars_of, concat3, decimal_string, parse_unsigned, same_text, split_once_chars, string_of,
    trim_chars, words_of,
};
use vstd::slice::slice_subrange;

verus! {

/// A process, and when it started where that is known.
pub struct LockOwner {
    pub pid: u32,
    pub start_time: Option<String>,
}

/// The owner that a text names: a process id, which a colon and the start time
/// may follow.
pub open spec fn owner_of_text(owner: Seq<char>) -> Option<(u32, Option<Seq<char>>)> {
    let trimmed = text::trim(owner);
    let (pid, start_time) = match text::split_once(trimmed, ':') {
        Some((pid, start_time)) => (pid, Some(start_time)),
        None => (trimmed, None),
    };
    match text::unsigned_value(pid, u32::MAX as int) {
        Some(n) => Some((n as u32, start_time)),
        None => None,
    }
}

pub open spec fn owner_text(pid: u32, start_time: Option<Seq<char>>) -> Seq<char> {
    match start_time {
        Some(start_time) => text::decimal(pid as nat) + ":"@ + start_time,
        None => text::decimal(pid as nat),
    }
}

/// How a process writes itself down as the owner of a lock.
pub fn current_owner_text(pid: u32, start_time: Option<&str>) -> (r: String)
    ensures
        r@ == owner_text(
            pid,
            match start_time {
                Some(s) => Some(s@),
                None => None,
            },
        ),
{
    let pid_text: String = decimal_string(pid as u64);
    match start_time {
        Some(start_time) => concat3(pid_text.as_str(), ":", start_time),
        None => pid_text,
    }
}

/// Reads the owner of a lock.
pub fn parse_owner(owner_text: &str) -> (r: Option<LockOwner>)
    ensures
        match r {
            Some(owner) => owner_of_text(owner_text@) == Some(
                (owner.pid, text::optional_text(owner.start_time)),
            ),
            None => owner_of_text(owner_text@) is None,
        },
{
    let chars: Vec<char> = chars_of(owner_text);
    let trimmed: &[char] = trim_chars(chars.as_slice());
    match split_once_chars(trimmed, ':') {
        Some((pid, start_time)) => match parse_unsigned(pid, u32::MAX as u64) {
            Some(n) => Some(LockOwner { pid: n as u32, start_time: Some(string_of(start_time)) }),
            None => None,
        },
        None => match parse_unsigned(trimmed, u32::MAX as u64) {
            Some(n) => Some(LockOwner { pid: n as u32, start_time: None }),
            None => None,
        },
    }
}

/// Whether an owner lives, by the start time of the process that has its id
/// now: the owner must have started then, where it said when.
pub open spec fn is_live(owner: Seq<char>, current_start_time: Option<Seq<char>>) -> bool {
    match (owner_of_text(owner), current_start_time) {
        (Some((_pid, Some(start_time))), Some(current)) => start_time == current,
        (Some((_pid, None)), Some(_)) => true,
        _ => false,
    }
}

/// Whether the owner of a lock still lives. `current_start_time` is when the
/// process with the owner's id started, where there is one.
pub fn owner_is_live(owner_text: &str, current_start_time: Option<&str>) -> (r: bool)
    ensures
        r == is_live(
            owner_text@,
            match current_start_time {
                Some(s) => Some(s@),
                None => None,
            },
        ),
{
    match (parse_owner(owner_text), current_start_time) {
        (Some(owner), Some(current)) => match owner.start_time {
            Some(start_time) => same_text(start_time.as_str(), current),
            None => true,
        },
        _ => false,
    }
}

/// Where `needle` stands last in `s` at or before `at`.
pub open spec fn last_place(s: Seq<char>, needle: Seq<char>, at: int) -> Option<int>
    decreases at + 1,
{
    if at < 0 {
        None
    } else if text::stands_at(s, needle, at) {
        Some(at)
    } else {
        last_place(s, needle, at - 1)
    }
}

/// The start time in the `stat` file of a process: the twentieth word after
/// the command's name, which round brackets enclose.
pub open spec fn start_time_of_stat(stat: Seq<char>) -> Option<Seq<char>> {
    match last_place(stat, ") "@, stat.len() as int) {
        Some(at) => {
            let words = text::words(stat.skip(at + 2));
            if words.len() > 19 {
                Some(words[19])
            } else {
                None
            }
        },
        None => None,
    }
}

/// When a process started, from the contents of its `stat` file.
pub fn process_start_time(stat: &str) -> (r: Option<String>)
    ensures
        text::optional_text(r) == start_time_of_stat(stat@),
{
    let chars: Vec<char> = chars_of(stat);
    let needle: Vec<char> = chars_of(") ");
    proof {
        reveal_strlit(") ");
    }
    let mut n: usize = chars.len();
    loop
        invariant
            n <= chars@.len(),
            chars@ == stat@,
            needle@ == ") "@,
            ") "@.len() == 2,
            last_place(stat@, ") "@, stat@.len() as int) == last_place(stat@, ") "@, n as int),
        decreases n,
    {
        if text::chars_at(chars.as_slice(), needle.as_slice(), n) {
            assert(n + needle@.len() <= chars@.len());
            assert(chars@.len() == chars.len());
            let rest: &[char] = slice_subrange(chars.as_slice(), n + 2, chars.len());
            assert(rest@ =~= stat@.skip(n + 2));
            let words: Vec<String> = words_of(rest);
            assert(text::texts(words@).len() == words@.len());
            if words.len() > 19 {
                return Some(words[19].clone());
            }
            return None;
        }
        if n == 0 {
            return None;
        }
        n = n - 1;
    }
}

/// What is done about a lock that is already there.
#[derive(Debug, Clone, Copy, PartialEq, Eq, Structural)]
pub enum StaleLock {
    /// Its owner lives: wait.
    Keep,
    /// Nobody holds it: remove it.
    Remove,
}

/// The process that holds a lock which names it by its id alone.
pub open spec fn holder_of(pid_text: Seq<char>) -> Option<u32> {
    match text::unsigned_value(text::trim(pid_text), u32::MAX as int) {
        Some(pid) => Some(pid as u32),
        None => None,
    }
}

pub fn lock_holder(pid_text: &str) -> (r: Option<u32>)
    ensures
        r == holder_of(pid_text@),
{
    let chars: Vec<char> = chars_of(pid_text);
    match parse_unsigned(trim_chars(chars.as_slice()), u32::MAX as u64) {
        Some(pid) => Some(pid as u32),
        None => None,
    }
}

/// Decides about a lock by whether the process that it names exists.
pub fn stale_lock(pid_text: &str, holder_exists: bool) -> (r: StaleLock)
    ensures
        r == (if holder_of(pid_text@) is Some && holder_exists {
            StaleLock::Keep
        } else {
            StaleLock::Remove
        }),
{
    match lock_holder(pid_text) {
        Some(_pid) => if holder_exists {
            StaleLock::Keep
        } else {
            StaleLock::Remove
        },
        None => StaleLock::Remove,
    }
}

// ---------------------------------------------------------------------------
// Laws
// ---------------------------------------------------------------------------

/// What a process writes down as the owner of a lock names that process and
/// its start time. (A start time does not begin or end in white space.)
pub proof fn law_owner_text_names_its_process(pid: u32, start_time: Option<Seq<char>>)
    requires
        start_time matches Some(t) ==> t.len() > 0 && !text::is_space(t.last()),
    ensures
        owner_of_text(owner_text(pid, start_time)) == Some((pid, start_time)),
{
    let digits = text::decimal(pid as nat);
    let whole = owner_text(pid, start_time);
    text::law_decimal_names_its_number(pid as nat);
    reveal_strlit(":");
    assert(text::is_digit(digits[0]));
    assert(text::is_digit(digits[digits.len() - 1]));
    assert(whole[0] == digits[0]);
    assert forall|i: int| 0 <= i < digits.len() implies digits[i] != ':' by {
        assert(text::is_digit(digits[i]));
    }
    match start_time {
        Some(t) => {
            assert(whole.last() == t.last());
            assert(text::trim(whole) == whole);
            let n = digits.len() as int;
            assert forall|i: int| 0 <= i < n implies whole[i] != ':' by {
                assert(whole[i] == digits[i]);
            }
            assert(whole[n] == ":"@[0]);
            text::lemma_find_is(whole, ':', n);
            assert(whole.take(n) =~= digits);
            assert(whole.skip(n + 1) =~= t);
        },
        None => {
            assert(text::trim(whole) == whole);
            text::lemma_find_is(whole, ':', whole.len() as int);
        },
    }
}

/// A lock is live for as long as the process that wrote it runs, and no longer
/// once another process has its id.
pub proof fn law_own_lock_is_live(pid: u32, start_time: Seq<char>, current: Option<Seq<char>>)
    requires
        start_time.len() > 0,
        !text::is_space(start_time.last()),
    ensures
        is_live(owner_text(pid, Some(start_time)), current) == (current == Some(start_time)),
{
    law_owner_text_names_its_process(pid, Some(start_time));
}

/// A process that wrote down its id alone is taken to live while any process
/// has that id. What names no process is nobody's.
pub proof fn law_locks_without_start_time(
    pid: u32,
    owner: Seq<char>,
    current: Option<Seq<char>>,
)
    ensures
        is_live(owner_text(pid, None), current) == (current is Some),
        owner_of_text(owner) is None ==> !is_live(owner, current),
        !is_live(owner, None),
{
    law_owner_text_names_its_process(pid, None);
}

/// The id that a lock holds is read off it, with white space around it or not.
pub proof fn law_holders_are_named(pid: u32, before: Seq<char>, after: Seq<char>)
    requires
        forall|i: int| 0 <= i < before.len() ==> text::is_space(#[trigger] before[i]),
        forall|i: int| 0 <= i < after.len() ==> text::is_space(#[trigger] after[i]),
    ensures
        holder_of(before + text::decimal(pid as nat) + after) == Some(pid),
        holder_of(Seq::empty()) is None,
{
    let digits = text::decimal(pid as nat);
    text::law_decimal_names_its_number(pid as nat);
    assert(text::is_digit(digits[0]));
    assert(text::is_digit(digits[digits.len() - 1]));
    text::law_space_around_is_dropped(before, digits, after);
    assert(text::trim(Seq::empty()) =~= Seq::<char>::empty());
}

/// The last place of a text is the one behind which it stands nowhere.
proof fn lemma_last_place_is(s: Seq<char>, needle: Seq<char>, at: int, from: int)
    requires
        0 <= at <= from,
        text::stands_at(s, needle, at),
        forall|i: int| at < i <= from ==> !text::stands_at(s, needle, i),
    ensures
        last_place(s, needle, from) == Some(at),
    decreases from - at,
{
    if from > at {
        lemma_last_place_is(s, needle, at, from - 1);
    }
}

/// The start time is the twentieth word behind the command's name, whatever
/// that name is, and there is none where there are fewer words.
pub proof fn law_start_times_are_found(
    pid: Seq<char>,
    command: Seq<char>,
    list: Seq<Seq<char>>,
)
    requires
        list.len() > 0,
        forall|i: int|
            0 <= i < list.len() ==> (#[trigger] list[i]).len() > 0 && forall|j: int|
                0 <= j < list[i].len() ==> !text::is_space(#[trigger] list[i][j]) && list[i][j]
                    != ')',
    ensures
        start_time_of_stat(pid + " ("@ + command + ") "@ + text::spaced(list)) == (if list.len()
            >= 20 {
            Some(list[19])
        } else {
            None
        }),
{
    reveal_strlit(") ");
    let words = text::spaced(list);
    let head = pid + " ("@ + command;
    let stat = head + ") "@ + words;
    let at = head.len() as int;
    assert(stat.subrange(at, at + 2) =~= ") "@);
    assert forall|i: int| at < i <= stat.len() implies !text::stands_at(stat, ") "@, i) by {
        if text::stands_at(stat, ") "@, i) {
            assert(stat[i] == stat.subrange(i, i + 2)[0]);
            assert(stat[i] == ')');
            if i == at + 1 {
                assert(stat[i] == ") "@[1]);
            } else {
                let k = i - at - 2;
                assert(stat[i] == words[k]);
                text::lemma_spaced_shape(list, k);
                let (m, j) = choose|m: int, j: int|
                    #![trigger list[m][j]]
                    0 <= m < list.len() && 0 <= j < list[m].len() && list[m][j] == words[k];
                assert(list[m][j] != ')');
            }
        }
    }
    lemma_last_place_is(stat, ") "@, at, stat.len() as int);
    assert(stat.skip(at + 2) =~= words);
    assert forall|i: int| 0 <= i < list.len() implies (#[trigger] list[i]).len() > 0 && (forall|
        j: int,
    | 0 <= j < list[i].len() ==> !text::is_space(#[trigger] list[i][j])) by {}
    text::law_words_are_found(list);
}

} // verus!
