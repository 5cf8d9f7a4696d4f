//! What is shown of a builder's status.

use vstd::prelude::*;

use crate::client_status;
use crate::server::status;
use crate::server::status::{ActiveBuildStatus, QueuedBuildStatus, StatusSnapshot};
use crate::text;
use crate::text::{concat2, concat3, concat4, concat5, decimal_string};

verus! {

// ---------------------------------------------------------------------------
// Pieces
// ---------------------------------------------------------------------------

/// So many times the same character.
pub open spec fn repeated(c: char, n: nat) -> Seq<char> {
    Seq::new(n, |i: int| c)
}

fn push_repeated(s: &mut String, c: char, n: usize)
    ensures
        final(s)@ == old(s)@ + repeated(c, n as nat),
{
    let ghost before = s@;
    let mut i: usize = 0;
    while i < n
        invariant
            i <= n,
            s@ == before + repeated(c, i as nat),
        decreases n - i,
    {
        s.push(c);
        i = i + 1;
        assert(s@ =~= before + repeated(c, i as nat));
    }
    assert(s@ =~= before + repeated(c, n as nat));
}

pub open spec fn larger(a: nat, b: nat) -> nat {
    if a >= b {
        a
    } else {
        b
    }
}

pub open spec fn smaller(a: nat, b: nat) -> nat {
    if a <= b {
        a
    } else {
        b
    }
}

/// A bar with a place for each build that can run, of which some are taken.
pub open spec fn bar(active: nat, total: nat) -> Seq<char> {
    let places = larger(total, 1);
    let taken = smaller(active, places);
    "["@ + repeated('#', taken) + repeated('.', (places - taken) as nat) + "]"@
}

pub fn capacity_bar(active: usize, total: usize) -> (r: String)
    ensures
        r@ == bar(active as nat, total as nat),
{
    let places: usize = if total >= 1 {
        total
    } else {
        1
    };
    let taken: usize = if active <= places {
        active
    } else {
        places
    };
    let mut r: String = "[".to_string();
    push_repeated(&mut r, '#', taken);
    push_repeated(&mut r, '.', places - taken);
    r.append("]");
    r
}

/// A number of seconds as people say it.
pub open spec fn duration_text(seconds: nat) -> Seq<char> {
    if seconds < 60 {
        text::decimal(seconds) + "s"@
    } else if seconds < 3600 {
        text::decimal(seconds / 60) + "m"@ + client_status::two_digits(seconds % 60) + "s"@
    } else {
        text::decimal(seconds / 3600) + "h"@ + client_status::two_digits(seconds / 60 % 60) + "m"@
    }
}

pub fn format_duration(seconds: u64) -> (r: String)
    ensures
        r@ == duration_text(seconds as nat),
{
    if seconds < 60 {
        return concat2(decimal_string(seconds).as_str(), "s");
    }
    let minutes: u64 = seconds / 60;
    let rest: u64 = seconds % 60;
    if minutes < 60 {
        return concat4(
            decimal_string(minutes).as_str(),
            "m",
            client_status::two_digit_text(rest).as_str(),
            "s",
        );
    }
    let hours: u64 = minutes / 60;
    let minutes: u64 = minutes % 60;
    assert(seconds / 60 / 60 == seconds / 3600);
    concat4(
        decimal_string(hours).as_str(),
        "h",
        client_status::two_digit_text(minutes).as_str(),
        "m",
    )
}

// ---------------------------------------------------------------------------
// Builds
// ---------------------------------------------------------------------------

pub open spec fn active_text(build: status::ActiveView, now: u64) -> Seq<char> {
    "  "@ + build.id + " "@ + build.label + " "@ + build.phase + " elapsed "@ + duration_text(
        status::since(now, build.started_at) as nat,
    ) + "\n       "@ + build.installable + "\n"@
}

pub open spec fn active_texts(list: Seq<status::ActiveView>, now: u64) -> Seq<char>
    decreases list.len(),
{
    if list.len() == 0 {
        Seq::empty()
    } else {
        active_texts(list.drop_last(), now) + active_text(list.last(), now)
    }
}

/// A number, moved to the right so that two digits have place.
pub open spec fn right_aligned(n: nat) -> Seq<char> {
    if n < 10 {
        " "@ + text::decimal(n)
    } else {
        text::decimal(n)
    }
}

pub open spec fn queued_text(build: status::QueuedView, now: u64) -> Seq<char> {
    "  "@ + right_aligned(build.position as nat) + ". "@ + build.id + " "@ + build.label
        + " waiting "@ + duration_text(status::since(now, build.queued_at) as nat) + "\n       "@
        + build.installable + "\n"@
}

pub open spec fn queued_texts(list: Seq<status::QueuedView>, now: u64) -> Seq<char>
    decreases list.len(),
{
    if list.len() == 0 {
        Seq::empty()
    } else {
        queued_texts(list.drop_last(), now) + queued_text(list.last(), now)
    }
}

fn passed(now: u64, then_: u64) -> (r: u64)
    ensures
        r == status::since(now, then_),
{
    if now >= then_ {
        now - then_
    } else {
        0
    }
}

fn active_line(build: &ActiveBuildStatus, now: u64) -> (r: String)
    ensures
        r@ == active_text(build@, now),
{
    let mut r: String = concat5(
        "  ",
        build.request_id.as_str(),
        " ",
        build.client_label.as_str(),
        " ",
    );
    r.append(build.phase.as_str());
    r.append(" elapsed ");
    r.append(format_duration(passed(now, build.started_at_unix)).as_str());
    r.append("\n       ");
    r.append(build.installable.as_str());
    r.append("\n");
    r
}

fn queued_line(build: &QueuedBuildStatus, now: u64) -> (r: String)
    ensures
        r@ == queued_text(build@, now),
{
    let position: String = if build.position < 10 {
        concat2(" ", decimal_string(build.position as u64).as_str())
    } else {
        decimal_string(build.position as u64)
    };
    let mut r: String = concat5("  ", position.as_str(), ". ", build.request_id.as_str(), " ");
    r.append(build.client_label.as_str());
    r.append(" waiting ");
    r.append(format_duration(passed(now, build.queued_at_unix)).as_str());
    r.append("\n       ");
    r.append(build.installable.as_str());
    r.append("\n");
    r
}

fn render_active(list: &[ActiveBuildStatus], now: u64, out: &mut String)
    ensures
        final(out)@ == old(out)@ + (if list@.len() == 0 {
            Seq::<char>::empty()
        } else {
            "\nactive\n"@ + active_texts(status::active_views(list@), now)
        }),
{
    let ghost before = out@;
    let ghost all = status::active_views(list@);
    if list.len() == 0 {
        assert(out@ =~= before + Seq::<char>::empty());
        return;
    }
    out.append("\nactive\n");
    let mut i: usize = 0;
    assert(all.take(0).len() == 0);
    assert(out@ =~= before + ("\nactive\n"@ + active_texts(all.take(0), now)));
    while i < list.len()
        invariant
            i <= list@.len(),
            all == status::active_views(list@),
            out@ == before + ("\nactive\n"@ + active_texts(all.take(i as int), now)),
        decreases list@.len() - i,
    {
        proof {
            assert(all.take(i + 1).drop_last() =~= all.take(i as int));
            assert(all.take(i + 1).last() == list@[i as int]@);
        }
        out.append(active_line(&list[i], now).as_str());
        i = i + 1;
        assert(out@ =~= before + ("\nactive\n"@ + active_texts(all.take(i as int), now)));
    }
    assert(all.take(i as int) =~= all);
}

fn render_queued(list: &[QueuedBuildStatus], now: u64, out: &mut String)
    ensures
        final(out)@ == old(out)@ + (if list@.len() == 0 {
            Seq::<char>::empty()
        } else {
            "\nqueued\n"@ + queued_texts(status::queued_views(list@), now)
        }),
{
    let ghost before = out@;
    let ghost all = status::queued_views(list@);
    if list.len() == 0 {
        assert(out@ =~= before + Seq::<char>::empty());
        return;
    }
    out.append("\nqueued\n");
    let mut i: usize = 0;
    assert(all.take(0).len() == 0);
    assert(out@ =~= before + ("\nqueued\n"@ + queued_texts(all.take(0), now)));
    while i < list.len()
        invariant
            i <= list@.len(),
            all == status::queued_views(list@),
            out@ == before + ("\nqueued\n"@ + queued_texts(all.take(i as int), now)),
        decreases list@.len() - i,
    {
        proof {
            assert(all.take(i + 1).drop_last() =~= all.take(i as int));
            assert(all.take(i + 1).last() == list@[i as int]@);
        }
        out.append(queued_line(&list[i], now).as_str());
        i = i + 1;
        assert(out@ =~= before + ("\nqueued\n"@ + queued_texts(all.take(i as int), now)));
    }
    assert(all.take(i as int) =~= all);
}

// ---------------------------------------------------------------------------
// The whole
// ---------------------------------------------------------------------------

pub open spec fn head_text(s: status::SnapshotView) -> Seq<char> {
    "server: "@ + s.server.endpoint_id + "\ncapacity: "@ + bar(
        s.server.active_count as nat,
        s.server.configured_concurrency as nat,
    ) + " active "@ + text::decimal(s.server.active_count as nat) + "/"@ + text::decimal(
        s.server.configured_concurrency as nat,
    ) + ", queued "@ + text::decimal(s.server.queued_count as nat) + "\n"@
}

/// What is shown: how busy the builder is, and the builds that run and wait.
/// Builds that ended are not shown.
pub open spec fn status_text(s: status::SnapshotView, now: u64) -> Seq<char> {
    head_text(s) + (if s.active.len() == 0 && s.queued.len() == 0 {
        "\nidle\n"@
    } else {
        (if s.active.len() == 0 {
            Seq::<char>::empty()
        } else {
            "\nactive\n"@ + active_texts(s.active, now)
        }) + (if s.queued.len() == 0 {
            Seq::<char>::empty()
        } else {
            "\nqueued\n"@ + queued_texts(s.queued, now)
        })
    })
}

pub fn render(snapshot: &StatusSnapshot, now: u64) -> (r: String)
    ensures
        r@ == status_text(snapshot@, now),
{
    let mut out: String = concat3("server: ", snapshot.server.endpoint_id.as_str(), "\ncapacity: ");
    out.append(
        capacity_bar(
            snapshot.server.active_count,
            snapshot.server.configured_concurrency,
        ).as_str(),
    );
    out.append(" active ");
    out.append(decimal_string(snapshot.server.active_count as u64).as_str());
    out.append("/");
    out.append(decimal_string(snapshot.server.configured_concurrency as u64).as_str());
    out.append(", queued ");
    out.append(decimal_string(snapshot.server.queued_count as u64).as_str());
    out.append("\n");
    let ghost head = out@;
    assert(head =~= head_text(snapshot@));
    assert(snapshot@.active.len() == snapshot.active@.len());
    assert(snapshot@.queued.len() == snapshot.queued@.len());
    if snapshot.active.len() == 0 && snapshot.queued.len() == 0 {
        out.append("\nidle\n");
        return out;
    }
    render_active(snapshot.active.as_slice(), now, &mut out);
    render_queued(snapshot.queued.as_slice(), now, &mut out);
    assert(out@ =~= status_text(snapshot@, now));
    out
}

// ---------------------------------------------------------------------------
// Laws
// ---------------------------------------------------------------------------

/// The bar has a place for each build that can run, and at least one.
pub proof fn law_bars_are_as_long_as_the_capacity(active: nat, total: nat)
    ensures
        bar(active, total).len() == larger(total, 1) + 2,
{
    reveal_strlit("[");
    reveal_strlit("]");
}

/// Builds that ended change nothing of what is shown.
pub proof fn law_recent_builds_are_not_shown(
    s: status::SnapshotView,
    recent: Seq<status::RecentView>,
    now: u64,
)
    ensures
        status_text(status::SnapshotView { recent, ..s }, now) == status_text(s, now),
{
}

/// The bar has a `#` for each build that runs, as far as it reaches, and a `.`
/// for each place that is free.
pub proof fn law_bars_show_who_runs(active: nat, total: nat, i: int)
    requires
        total > 0,
    ensures
        bar(active, total).len() == total + 2,
        bar(active, total)[0] == '[',
        bar(active, total).last() == ']',
        0 <= i < total && i < active ==> bar(active, total)[i + 1] == '#',
        active <= i < total ==> bar(active, total)[i + 1] == '.',
        bar(active, 0) == bar(active, 1),
{
    reveal_strlit("[");
    reveal_strlit("]");
}

/// A duration is shown in seconds, from a minute on in minutes and seconds, and
/// from an hour on in hours and minutes.
pub proof fn law_durations_are_shown(hours: nat, minutes: nat, seconds: nat)
    requires
        minutes < 60,
        seconds < 60,
    ensures
        duration_text(seconds) == text::decimal(seconds) + "s"@,
        minutes > 0 ==> duration_text(minutes * 60 + seconds) == text::decimal(minutes) + "m"@
            + client_status::two_digits(seconds) + "s"@,
        hours > 0 ==> duration_text(hours * 3600 + minutes * 60 + seconds) == text::decimal(hours)
            + "h"@ + client_status::two_digits(minutes) + "m"@,
{
    let some = minutes * 60 + seconds;
    assert(some / 60 == minutes && some % 60 == seconds);
    let all = hours * 3600 + some;
    assert(all / 3600 == hours);
    assert(all == (hours * 60 + minutes) * 60 + seconds);
    assert(all / 60 == hours * 60 + minutes);
    assert(all / 60 % 60 == minutes);
}

/// Each build that runs is shown with its client, its phase, for how long, and
/// what it builds.
pub proof fn law_running_builds_are_shown(
    list: Seq<status::ActiveView>,
    build: status::ActiveView,
    now: u64,
)
    ensures
        active_texts(list.push(build), now) == active_texts(list, now) + active_text(build, now),
        build.started_at <= now ==> active_text(build, now) == "  "@ + build.id + " "@
            + build.label + " "@ + build.phase + " elapsed "@ + duration_text(
            (now - build.started_at) as nat,
        ) + "\n       "@ + build.installable + "\n"@,
{
    assert(list.push(build).drop_last() =~= list);
}

/// Each build that waits is shown with its place, its client, for how long, and
/// what it builds.
pub proof fn law_waiting_builds_are_shown(
    list: Seq<status::QueuedView>,
    build: status::QueuedView,
    now: u64,
)
    ensures
        queued_texts(list.push(build), now) == queued_texts(list, now) + queued_text(build, now),
        build.queued_at <= now && 10 <= build.position ==> queued_text(build, now) == "  "@
            + text::decimal(build.position as nat) + ". "@ + build.id + " "@ + build.label
            + " waiting "@ + duration_text((now - build.queued_at) as nat) + "\n       "@
            + build.installable + "\n"@,
        build.queued_at <= now && 0 <= build.position < 10 ==> queued_text(build, now) == "  "@ + (
        " "@ + text::decimal(build.position as nat)) + ". "@ + build.id + " "@ + build.label
            + " waiting "@ + duration_text((now - build.queued_at) as nat) + "\n       "@
            + build.installable + "\n"@,
{
    assert(list.push(build).drop_last() =~= list);
}

/// What is shown begins with the builder and how busy it is. All builds that run
/// and wait follow, or that there are none.
pub proof fn law_all_builds_are_shown(s: status::SnapshotView, now: u64)
    ensures
        head_text(s) == "server: "@ + s.server.endpoint_id + "\ncapacity: "@ + bar(
            s.server.active_count as nat,
            s.server.configured_concurrency as nat,
        ) + " active "@ + text::decimal(s.server.active_count as nat) + "/"@ + text::decimal(
            s.server.configured_concurrency as nat,
        ) + ", queued "@ + text::decimal(s.server.queued_count as nat) + "\n"@,
        s.active.len() == 0 && s.queued.len() == 0 ==> status_text(s, now) == head_text(s)
            + "\nidle\n"@,
        s.active.len() > 0 && s.queued.len() == 0 ==> status_text(s, now) == head_text(s)
            + "\nactive\n"@ + active_texts(s.active, now),
        s.active.len() == 0 && s.queued.len() > 0 ==> status_text(s, now) == head_text(s)
            + "\nqueued\n"@ + queued_texts(s.queued, now),
        s.active.len() > 0 && s.queued.len() > 0 ==> status_text(s, now) == head_text(s)
            + "\nactive\n"@ + active_texts(s.active, now) + "\nqueued\n"@ + queued_texts(
            s.queued,
            now,
        ),
{
    assert(status_text(s, now) =~= status_text(s, now) + Seq::<char>::empty());
}

} // verus!
