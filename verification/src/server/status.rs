//! What the builder is doing, as it tells those who ask.

use vstd::multiset::Multiset;
use vstd::prelude::*;

use crate::paths;
use crate::paths::join_path;
use crate::text;
use crate::text::{concat2, decimal_string, same_text, truncate_text};

verus! {

pub const STATUS_FILE: &'static str = "status.json";

pub const STATUS_VERSION: u32 = 1;

pub const MAX_SHORT_ERROR_CHARS: usize = 512;

// ---------------------------------------------------------------------------
// What is told
// ---------------------------------------------------------------------------

#[derive(Debug)]
pub struct StatusSnapshot {
    pub version: u32,
    pub server: ServerStatus,
    pub queued: Vec<QueuedBuildStatus>,
    pub active: Vec<ActiveBuildStatus>,
    pub recent: Vec<RecentBuildStatus>,
}

#[derive(Debug)]
pub struct ServerStatus {
    pub endpoint_id: String,
    pub configured_concurrency: usize,
    pub active_count: usize,
    pub queued_count: usize,
    pub recent_limit: usize,
    pub started_at_unix: u64,
    pub updated_at_unix: u64,
}

/// A build that waits.
#[derive(Debug)]
pub struct QueuedBuildStatus {
    pub request_id: String,
    pub client_label: String,
    pub installable: String,
    pub queued_at_unix: u64,
    pub queued_for_seconds: u64,
    pub position: usize,
}

/// A build that runs.
#[derive(Debug)]
pub struct ActiveBuildStatus {
    pub request_id: String,
    pub client_label: String,
    pub installable: String,
    pub phase: String,
    pub queued_at_unix: u64,
    pub started_at_unix: u64,
    pub elapsed_seconds: u64,
}

/// A build that ended.
#[derive(Debug)]
pub struct RecentBuildStatus {
    pub request_id: String,
    pub client_label: String,
    pub installable: String,
    pub result: BuildResult,
    pub queued_at_unix: u64,
    pub started_at_unix: Option<u64>,
    pub finished_at_unix: u64,
    pub duration_seconds: Option<u64>,
    pub short_error: Option<String>,
}

#[derive(Clone, Copy, Debug, Eq, PartialEq, Structural)]
pub enum BuildResult {
    Success,
    Failed,
    Error,
}

// ---------------------------------------------------------------------------
// The model
// ---------------------------------------------------------------------------

pub struct QueuedView {
    pub id: Seq<char>,
    pub label: Seq<char>,
    pub installable: Seq<char>,
    pub queued_at: u64,
    pub queued_for: u64,
    pub position: int,
}

pub struct ActiveView {
    pub id: Seq<char>,
    pub label: Seq<char>,
    pub installable: Seq<char>,
    pub phase: Seq<char>,
    pub queued_at: u64,
    pub started_at: u64,
    pub elapsed: u64,
}

pub struct RecentView {
    pub id: Seq<char>,
    pub label: Seq<char>,
    pub installable: Seq<char>,
    pub result: BuildResult,
    pub queued_at: u64,
    pub started_at: Option<u64>,
    pub finished_at: u64,
    pub duration: Option<u64>,
    pub short_error: Option<Seq<char>>,
}

pub struct ServerView {
    pub endpoint_id: Seq<char>,
    pub configured_concurrency: int,
    pub active_count: int,
    pub queued_count: int,
    pub recent_limit: int,
    pub started_at: u64,
    pub updated_at: u64,
}

/// The view of what is told.
pub struct SnapshotView {
    pub version: u32,
    pub server: ServerView,
    pub queued: Seq<QueuedView>,
    pub active: Seq<ActiveView>,
    pub recent: Seq<RecentView>,
}

impl View for QueuedBuildStatus {
    type V = QueuedView;

    open spec fn view(&self) -> QueuedView {
        QueuedView {
            id: self.request_id@,
            label: self.client_label@,
            installable: self.installable@,
            queued_at: self.queued_at_unix,
            queued_for: self.queued_for_seconds,
            position: self.position as int,
        }
    }
}

impl View for ActiveBuildStatus {
    type V = ActiveView;

    open spec fn view(&self) -> ActiveView {
        ActiveView {
            id: self.request_id@,
            label: self.client_label@,
            installable: self.installable@,
            phase: self.phase@,
            queued_at: self.queued_at_unix,
            started_at: self.started_at_unix,
            elapsed: self.elapsed_seconds,
        }
    }
}

impl View for RecentBuildStatus {
    type V = RecentView;

    open spec fn view(&self) -> RecentView {
        RecentView {
            id: self.request_id@,
            label: self.client_label@,
            installable: self.installable@,
            result: self.result,
            queued_at: self.queued_at_unix,
            started_at: self.started_at_unix,
            finished_at: self.finished_at_unix,
            duration: self.duration_seconds,
            short_error: text::optional_text(self.short_error),
        }
    }
}

impl View for ServerStatus {
    type V = ServerView;

    open spec fn view(&self) -> ServerView {
        ServerView {
            endpoint_id: self.endpoint_id@,
            configured_concurrency: self.configured_concurrency as int,
            active_count: self.active_count as int,
            queued_count: self.queued_count as int,
            recent_limit: self.recent_limit as int,
            started_at: self.started_at_unix,
            updated_at: self.updated_at_unix,
        }
    }
}

pub open spec fn queued_views(list: Seq<QueuedBuildStatus>) -> Seq<QueuedView> {
    Seq::new(list.len(), |i: int| list[i]@)
}

pub open spec fn active_views(list: Seq<ActiveBuildStatus>) -> Seq<ActiveView> {
    Seq::new(list.len(), |i: int| list[i]@)
}

pub open spec fn recent_views(list: Seq<RecentBuildStatus>) -> Seq<RecentView> {
    Seq::new(list.len(), |i: int| list[i]@)
}

impl View for StatusSnapshot {
    type V = SnapshotView;

    open spec fn view(&self) -> SnapshotView {
        SnapshotView {
            version: self.version,
            server: self.server@,
            queued: queued_views(self.queued@),
            active: active_views(self.active@),
            recent: recent_views(self.recent@),
        }
    }
}

pub open spec fn queued_ids(list: Seq<QueuedView>) -> Seq<Seq<char>> {
    Seq::new(list.len(), |i: int| list[i].id)
}

pub open spec fn active_ids(list: Seq<ActiveView>) -> Seq<Seq<char>> {
    Seq::new(list.len(), |i: int| list[i].id)
}

pub open spec fn recent_ids(list: Seq<RecentView>) -> Seq<Seq<char>> {
    Seq::new(list.len(), |i: int| list[i].id)
}

/// The time that has passed since a time, none where that is yet to come.
pub open spec fn since(now: u64, then: u64) -> u64 {
    if now >= then {
        (now - then) as u64
    } else {
        0
    }
}

/// The builds that wait, with their places and how long they have waited.
pub open spec fn refreshed_queue(list: Seq<QueuedView>, now: u64) -> Seq<QueuedView> {
    Seq::new(
        list.len(),
        |i: int| QueuedView {
            position: i + 1,
            queued_for: since(now, list[i].queued_at),
            ..list[i]
        },
    )
}

/// The builds that run, with how long they have run.
pub open spec fn refreshed_active(list: Seq<ActiveView>, now: u64) -> Seq<ActiveView> {
    Seq::new(
        list.len(),
        |i: int| ActiveView { elapsed: since(now, list[i].started_at), ..list[i] },
    )
}

/// What is told, brought up to a time.
pub open spec fn refreshed(s: SnapshotView, now: u64) -> SnapshotView {
    SnapshotView {
        server: ServerView {
            active_count: s.active.len() as int,
            queued_count: s.queued.len() as int,
            updated_at: now,
            ..s.server
        },
        queued: refreshed_queue(s.queued, now),
        active: refreshed_active(s.active, now),
        ..s
    }
}

/// The id of the nth build.
pub open spec fn build_id(n: nat) -> Seq<char> {
    "build-"@ + text::decimal(n)
}

/// A build joins the queue at its end.
pub open spec fn enqueued(
    s: SnapshotView,
    id: Seq<char>,
    label: Seq<char>,
    installable: Seq<char>,
    now: u64,
) -> SnapshotView {
    refreshed(
        SnapshotView {
            queued: s.queued.push(
                QueuedView {
                    id,
                    label,
                    installable,
                    queued_at: now,
                    queued_for: 0,
                    position: 0,
                },
            ),
            ..s
        },
        now,
    )
}

/// A build that waits begins to run.
pub open spec fn started(s: SnapshotView, id: Seq<char>, now: u64) -> SnapshotView {
    match text::place_in(queued_ids(s.queued), id) {
        None => refreshed(s, now),
        Some(i) => refreshed(
            SnapshotView {
                queued: s.queued.remove(i),
                active: s.active.push(
                    ActiveView {
                        id: s.queued[i].id,
                        label: s.queued[i].label,
                        installable: s.queued[i].installable,
                        phase: "starting"@,
                        queued_at: s.queued[i].queued_at,
                        started_at: now,
                        elapsed: 0,
                    },
                ),
                ..s
            },
            now,
        ),
    }
}

/// A build that runs enters a phase.
pub open spec fn in_phase(
    s: SnapshotView,
    id: Seq<char>,
    phase: Seq<char>,
    now: u64,
) -> SnapshotView {
    match text::place_in(active_ids(s.active), id) {
        None => refreshed(s, now),
        Some(i) => refreshed(
            SnapshotView {
                active: s.active.update(i, ActiveView { phase, ..s.active[i] }),
                ..s
            },
            now,
        ),
    }
}

pub open spec fn shortened(error: Option<Seq<char>>) -> Option<Seq<char>> {
    match error {
        Some(message) => Some(text::truncated(message, MAX_SHORT_ERROR_CHARS as int)),
        None => None,
    }
}

/// A build that ran, once it ended.
pub open spec fn ended_active(
    build: ActiveView,
    result: BuildResult,
    error: Option<Seq<char>>,
    now: u64,
) -> RecentView {
    RecentView {
        id: build.id,
        label: build.label,
        installable: build.installable,
        result,
        queued_at: build.queued_at,
        started_at: Some(build.started_at),
        finished_at: now,
        duration: Some(since(now, build.started_at)),
        short_error: shortened(error),
    }
}

/// A build that never ran, once it ended.
pub open spec fn ended_queued(
    build: QueuedView,
    result: BuildResult,
    error: Option<Seq<char>>,
    now: u64,
) -> RecentView {
    RecentView {
        id: build.id,
        label: build.label,
        installable: build.installable,
        result,
        queued_at: build.queued_at,
        started_at: None,
        finished_at: now,
        duration: None,
        short_error: shortened(error),
    }
}

/// The ended builds with one more, the latest first, as many as are kept.
pub open spec fn remembered(
    recent: Seq<RecentView>,
    build: RecentView,
    limit: int,
) -> Seq<RecentView> {
    let all = recent.insert(0, build);
    if all.len() > limit {
        all.take(limit)
    } else {
        all
    }
}

/// A build ends, whether it ran or waited.
pub open spec fn finished(
    s: SnapshotView,
    id: Seq<char>,
    result: BuildResult,
    error: Option<Seq<char>>,
    now: u64,
) -> SnapshotView {
    match text::place_in(active_ids(s.active), id) {
        Some(i) => refreshed(
            SnapshotView {
                active: s.active.remove(i),
                recent: remembered(
                    s.recent,
                    ended_active(s.active[i], result, error, now),
                    s.server.recent_limit,
                ),
                ..s
            },
            now,
        ),
        None => match text::place_in(queued_ids(s.queued), id) {
            Some(i) => refreshed(
                SnapshotView {
                    queued: s.queued.remove(i),
                    recent: remembered(
                        s.recent,
                        ended_queued(s.queued[i], result, error, now),
                        s.server.recent_limit,
                    ),
                    ..s
                },
                now,
            ),
            None => refreshed(s, now),
        },
    }
}

// ---------------------------------------------------------------------------
// The registry
// ---------------------------------------------------------------------------

/// The builds of a builder.
pub struct StatusRegistry {
    path: String,
    next_request_seq: u64,
    snapshot: StatusSnapshot,
}

impl View for StatusRegistry {
    type V = SnapshotView;

    closed spec fn view(&self) -> SnapshotView {
        self.snapshot@
    }
}

fn find_queued(list: &Vec<QueuedBuildStatus>, id: &str) -> (r: Option<usize>)
    ensures
        match r {
            Some(i) => text::place_in(queued_ids(queued_views(list@)), id@) == Some(i as int) && i
                < list@.len(),
            None => text::place_in(queued_ids(queued_views(list@)), id@) is None,
        },
{
    let ghost ids = queued_ids(queued_views(list@));
    let mut i: usize = 0;
    proof {
        text::lemma_place_in(ids, id@);
    }
    while i < list.len()
        invariant
            i <= list@.len(),
            ids == queued_ids(queued_views(list@)),
            forall|j: int| 0 <= j < i ==> ids[j] != id@,
        decreases list@.len() - i,
    {
        assert(ids[i as int] == list@[i as int].request_id@);
        if same_text(list[i].request_id.as_str(), id) {
            proof {
                text::lemma_place_in(ids, id@);
            }
            return Some(i);
        }
        i = i + 1;
    }
    None
}

fn find_active(list: &Vec<ActiveBuildStatus>, id: &str) -> (r: Option<usize>)
    ensures
        match r {
            Some(i) => text::place_in(active_ids(active_views(list@)), id@) == Some(i as int) && i
                < list@.len(),
            None => text::place_in(active_ids(active_views(list@)), id@) is None,
        },
{
    let ghost ids = active_ids(active_views(list@));
    let mut i: usize = 0;
    proof {
        text::lemma_place_in(ids, id@);
    }
    while i < list.len()
        invariant
            i <= list@.len(),
            ids == active_ids(active_views(list@)),
            forall|j: int| 0 <= j < i ==> ids[j] != id@,
        decreases list@.len() - i,
    {
        assert(ids[i as int] == list@[i as int].request_id@);
        if same_text(list[i].request_id.as_str(), id) {
            proof {
                text::lemma_place_in(ids, id@);
            }
            return Some(i);
        }
        i = i + 1;
    }
    None
}

/// Brings what is told up to a time.
pub fn refresh_snapshot(snapshot: &mut StatusSnapshot, now: u64)
    ensures
        final(snapshot)@ == refreshed(old(snapshot)@, now),
{
    snapshot.server.active_count = snapshot.active.len();
    snapshot.server.queued_count = snapshot.queued.len();
    snapshot.server.updated_at_unix = now;
    let ghost queue = queued_views(old(snapshot).queued@);
    let ghost running = active_views(old(snapshot).active@);
    let mut i: usize = 0;
    while i < snapshot.queued.len()
        invariant
            i <= snapshot.queued@.len(),
            snapshot.queued@.len() == queue.len(),
            forall|j: int|
                0 <= j < i ==> (#[trigger] snapshot.queued@[j])@ == refreshed_queue(queue, now)[j],
            forall|j: int|
                i <= j < queue.len() ==> (#[trigger] snapshot.queued@[j])@ == queue[j],
            snapshot.version == old(snapshot).version,
            snapshot.server@ == refreshed(old(snapshot)@, now).server,
            snapshot.active == old(snapshot).active,
            snapshot.recent == old(snapshot).recent,
        decreases snapshot.queued@.len() - i,
    {
        let waited: u64 = now.saturating_sub(snapshot.queued[i].queued_at_unix);
        snapshot.queued[i].position = i + 1;
        snapshot.queued[i].queued_for_seconds = waited;
        i = i + 1;
    }
    assert(queued_views(snapshot.queued@) =~= refreshed_queue(queue, now));
    let mut k: usize = 0;
    while k < snapshot.active.len()
        invariant
            k <= snapshot.active@.len(),
            snapshot.active@.len() == running.len(),
            forall|j: int|
                0 <= j < k ==> (#[trigger] snapshot.active@[j])@ == refreshed_active(
                    running,
                    now,
                )[j],
            forall|j: int|
                k <= j < running.len() ==> (#[trigger] snapshot.active@[j])@ == running[j],
            snapshot.version == old(snapshot).version,
            snapshot.server@ == refreshed(old(snapshot)@, now).server,
            queued_views(snapshot.queued@) == refreshed_queue(queue, now),
            snapshot.recent == old(snapshot).recent,
        decreases snapshot.active@.len() - k,
    {
        let ran: u64 = now.saturating_sub(snapshot.active[k].started_at_unix);
        snapshot.active[k].elapsed_seconds = ran;
        k = k + 1;
    }
    assert(active_views(snapshot.active@) =~= refreshed_active(running, now));
}

fn truncate_error(error: Option<String>) -> (r: Option<String>)
    ensures
        text::optional_text(r) == shortened(text::optional_text(error)),
{
    match error {
        Some(message) => Some(truncate_text(message.as_str(), MAX_SHORT_ERROR_CHARS)),
        None => None,
    }
}

impl StatusRegistry {
    /// How many builds were ever queued.
    pub closed spec fn requests(&self) -> nat {
        self.next_request_seq as nat
    }

    /// The file that what is told is written to.
    pub closed spec fn file(&self) -> Seq<char> {
        self.path@
    }

    pub fn new(
        data_dir: &str,
        endpoint_id: String,
        configured_concurrency: usize,
        recent_limit: usize,
        now: u64,
    ) -> (registry: Self)
        ensures
            registry.requests() == 0,
            registry.file() == paths::joined(data_dir@, "status.json"@),
            registry@ == (SnapshotView {
                version: 1,
                server: ServerView {
                    endpoint_id: endpoint_id@,
                    configured_concurrency: configured_concurrency as int,
                    active_count: 0,
                    queued_count: 0,
                    recent_limit: recent_limit as int,
                    started_at: now,
                    updated_at: now,
                },
                queued: Seq::empty(),
                active: Seq::empty(),
                recent: Seq::empty(),
            }),
    {
        let queued: Vec<QueuedBuildStatus> = Vec::new();
        let active: Vec<ActiveBuildStatus> = Vec::new();
        let recent: Vec<RecentBuildStatus> = Vec::new();
        assert(queued_views(queued@) =~= Seq::<QueuedView>::empty());
        assert(active_views(active@) =~= Seq::<ActiveView>::empty());
        assert(recent_views(recent@) =~= Seq::<RecentView>::empty());
        StatusRegistry {
            path: status_path(data_dir),
            next_request_seq: 0,
            snapshot: StatusSnapshot {
                version: STATUS_VERSION,
                server: ServerStatus {
                    endpoint_id,
                    configured_concurrency,
                    active_count: 0,
                    queued_count: 0,
                    recent_limit,
                    started_at_unix: now,
                    updated_at_unix: now,
                },
                queued,
                active,
                recent,
            },
        }
    }

    /// The file that what is told is written to.
    pub fn path(&self) -> (r: &str)
        ensures
            r@ == self.file(),
    {
        self.path.as_str()
    }

    /// What is told.
    pub fn snapshot(&self) -> (r: &StatusSnapshot)
        ensures
            r@ == self@,
    {
        &self.snapshot
    }

    /// How many builds were ever queued.
    pub fn request_count(&self) -> (n: u64)
        ensures
            n == self.requests(),
    {
        self.next_request_seq
    }

    /// A build joins the queue; it gets an id.
    pub fn enqueue(&mut self, client_label: String, installable: String, now: u64) -> (id: String)
        requires
            old(self).requests() < u64::MAX,
        ensures
            id@ == build_id(old(self).requests() + 1),
            final(self).requests() == old(self).requests() + 1,
            final(self).file() == old(self).file(),
            final(self)@ == enqueued(old(self)@, id@, client_label@, installable@, now),
    {
        self.next_request_seq = self.next_request_seq + 1;
        let request_id: String = concat2(
            "build-",
            decimal_string(self.next_request_seq).as_str(),
        );
        let ghost queue = queued_views(self.snapshot.queued@);
        let build: QueuedBuildStatus = QueuedBuildStatus {
            request_id: request_id.clone(),
            client_label,
            installable,
            queued_at_unix: now,
            queued_for_seconds: 0,
            position: 0,
        };
        let ghost added = build@;
        self.snapshot.queued.push(build);
        assert(queued_views(self.snapshot.queued@) =~= queue.push(added));
        refresh_snapshot(&mut self.snapshot, now);
        request_id
    }

    /// A build that waits begins to run.
    pub fn start(&mut self, request_id: &str, now: u64)
        ensures
            final(self).requests() == old(self).requests(),
            final(self).file() == old(self).file(),
            final(self)@ == started(old(self)@, request_id@, now),
    {
        match find_queued(&self.snapshot.queued, request_id) {
            Some(i) => {
                let ghost queue = queued_views(self.snapshot.queued@);
                let ghost running = active_views(self.snapshot.active@);
                let queued: QueuedBuildStatus = self.snapshot.queued.remove(i);
                assert(queued_views(self.snapshot.queued@) =~= queue.remove(i as int));
                let build: ActiveBuildStatus = ActiveBuildStatus {
                    request_id: queued.request_id,
                    client_label: queued.client_label,
                    installable: queued.installable,
                    phase: "starting".to_string(),
                    queued_at_unix: queued.queued_at_unix,
                    started_at_unix: now,
                    elapsed_seconds: 0,
                };
                let ghost added = build@;
                self.snapshot.active.push(build);
                assert(active_views(self.snapshot.active@) =~= running.push(added));
            },
            None => {},
        }
        refresh_snapshot(&mut self.snapshot, now);
    }

    /// A build that runs enters a phase.
    pub fn phase(&mut self, request_id: &str, phase: &str, now: u64)
        ensures
            final(self).requests() == old(self).requests(),
            final(self).file() == old(self).file(),
            final(self)@ == in_phase(old(self)@, request_id@, phase@, now),
    {
        match find_active(&self.snapshot.active, request_id) {
            Some(i) => {
                let ghost running = active_views(self.snapshot.active@);
                self.snapshot.active[i].phase = phase.to_string();
                assert(active_views(self.snapshot.active@) =~= running.update(
                    i as int,
                    ActiveView { phase: phase@, ..running[i as int] },
                ));
            },
            None => {},
        }
        refresh_snapshot(&mut self.snapshot, now);
    }

    /// A build ends, whether it ran or waited.
    pub fn finish(
        &mut self,
        request_id: &str,
        result: BuildResult,
        short_error: Option<String>,
        now: u64,
    )
        ensures
            final(self).requests() == old(self).requests(),
            final(self).file() == old(self).file(),
            final(self)@ == finished(
                old(self)@,
                request_id@,
                result,
                text::optional_text(short_error),
                now,
            ),
    {
        let recent: RecentBuildStatus = match find_active(&self.snapshot.active, request_id) {
            Some(i) => {
                let ghost running = active_views(self.snapshot.active@);
                let active: ActiveBuildStatus = self.snapshot.active.remove(i);
                assert(active_views(self.snapshot.active@) =~= running.remove(i as int));
                RecentBuildStatus {
                    request_id: active.request_id,
                    client_label: active.client_label,
                    installable: active.installable,
                    result,
                    queued_at_unix: active.queued_at_unix,
                    started_at_unix: Some(active.started_at_unix),
                    finished_at_unix: now,
                    duration_seconds: Some(now.saturating_sub(active.started_at_unix)),
                    short_error: truncate_error(short_error),
                }
            },
            None => match find_queued(&self.snapshot.queued, request_id) {
                Some(i) => {
                    let ghost queue = queued_views(self.snapshot.queued@);
                    let queued: QueuedBuildStatus = self.snapshot.queued.remove(i);
                    assert(queued_views(self.snapshot.queued@) =~= queue.remove(i as int));
                    RecentBuildStatus {
                        request_id: queued.request_id,
                        client_label: queued.client_label,
                        installable: queued.installable,
                        result,
                        queued_at_unix: queued.queued_at_unix,
                        started_at_unix: None,
                        finished_at_unix: now,
                        duration_seconds: None,
                        short_error: truncate_error(short_error),
                    }
                },
                None => {
                    refresh_snapshot(&mut self.snapshot, now);
                    return;
                },
            },
        };
        let ghost ended = recent_views(self.snapshot.recent@);
        let ghost added = recent@;
        self.snapshot.recent.insert(0, recent);
        assert(recent_views(self.snapshot.recent@) =~= ended.insert(0, added));
        let limit: usize = self.snapshot.server.recent_limit;
        if self.snapshot.recent.len() > limit {
            self.snapshot.recent.truncate(limit);
            assert(recent_views(self.snapshot.recent@) =~= ended.insert(0, added).take(
                limit as int,
            ));
        }
        refresh_snapshot(&mut self.snapshot, now);
    }

    /// Whether any build waits or runs.
    pub fn has_live_builds(&self) -> (r: bool)
        ensures
            r == (self@.queued.len() > 0 || self@.active.len() > 0),
    {
        self.snapshot.queued.len() > 0 || self.snapshot.active.len() > 0
    }

    /// Brings what is told up to a time.
    pub fn refresh(&mut self, now: u64)
        ensures
            final(self).requests() == old(self).requests(),
            final(self).file() == old(self).file(),
            final(self)@ == refreshed(old(self)@, now),
    {
        refresh_snapshot(&mut self.snapshot, now);
    }
}

/// The file that what is told is written to.
pub fn status_path(data_dir: &str) -> (r: String)
    ensures
        r@ == paths::joined(data_dir@, "status.json"@),
{
    join_path(data_dir, STATUS_FILE)
}

// ---------------------------------------------------------------------------
// Laws
// ---------------------------------------------------------------------------

/// The ids of all builds that are told of, as often as they are.
pub open spec fn tally(s: SnapshotView) -> Multiset<Seq<char>> {
    queued_ids(s.queued).to_multiset().add(active_ids(s.active).to_multiset()).add(
        recent_ids(s.recent).to_multiset(),
    )
}

/// What always holds of what is told, after `requests` builds were queued:
/// each build is told of at most once, as waiting, running or ended, under an
/// id that was given; no more ended builds are kept than the limit says; and
/// the numbers and places fit the lists.
pub open spec fn consistent(s: SnapshotView, requests: nat) -> bool {
    &&& forall|id: Seq<char>| #[trigger] tally(s).count(id) <= 1
    &&& forall|id: Seq<char>| #[trigger]
        tally(s).count(id) > 0 ==> exists|n: nat| 1 <= n <= requests && id == #[trigger] build_id(n)
    &&& s.recent.len() <= s.server.recent_limit
    &&& s.server.active_count == s.active.len()
    &&& s.server.queued_count == s.queued.len()
    &&& forall|i: int| 0 <= i < s.queued.len() ==> (#[trigger] s.queued[i]).position == i + 1
}

proof fn lemma_refresh_keeps_ids(s: SnapshotView, now: u64)
    ensures
        queued_ids(refreshed(s, now).queued) == queued_ids(s.queued),
        active_ids(refreshed(s, now).active) == active_ids(s.active),
        recent_ids(refreshed(s, now).recent) == recent_ids(s.recent),
        tally(refreshed(s, now)) == tally(s),
{
    assert(queued_ids(refreshed(s, now).queued) =~= queued_ids(s.queued));
    assert(active_ids(refreshed(s, now).active) =~= active_ids(s.active));
}

/// Numbers that differ give different ids.
proof fn lemma_build_ids_differ(m: nat, n: nat)
    ensures
        build_id(m) == build_id(n) ==> m == n,
{
    if build_id(m) == build_id(n) {
        let prefix = "build-"@;
        assert(text::decimal(m) =~= build_id(m).skip(prefix.len() as int));
        assert(text::decimal(n) =~= build_id(n).skip(prefix.len() as int));
        text::law_decimal_names_its_number(m);
        text::law_decimal_names_its_number(n);
    }
}

/// A part of a list holds nothing more often than the list.
proof fn lemma_take_count(list: Seq<Seq<char>>, n: int, id: Seq<char>)
    requires
        0 <= n <= list.len(),
    ensures
        list.take(n).to_multiset().count(id) <= list.to_multiset().count(id),
{
    broadcast use vstd::multiset::group_multiset_axioms;

    assert(list.take(n) + list.skip(n) =~= list);
    vstd::seq_lib::lemma_multiset_commutative(list.take(n), list.skip(n));
}

/// A builder that has just started tells of nothing.
pub proof fn law_new_registry_is_consistent(s: SnapshotView)
    requires
        s.queued.len() == 0,
        s.active.len() == 0,
        s.recent.len() == 0,
        s.server.active_count == 0,
        s.server.queued_count == 0,
        s.server.recent_limit >= 0,
    ensures
        consistent(s, 0),
{
    broadcast use vstd::multiset::group_multiset_axioms;
    broadcast use vstd::seq_lib::group_to_multiset_ensures;

    assert forall|id: Seq<char>| #[trigger] tally(s).count(id) == 0 by {
        assert(!queued_ids(s.queued).contains(id));
        assert(!active_ids(s.active).contains(id));
        assert(!recent_ids(s.recent).contains(id));
    }
}

/// A build that joins the queue is told of from then on, last in the queue,
/// and everything else stays as it was.
pub proof fn law_enqueue_keeps_consistency(
    s: SnapshotView,
    requests: nat,
    label: Seq<char>,
    installable: Seq<char>,
    now: u64,
)
    requires
        consistent(s, requests),
    ensures
        consistent(enqueued(s, build_id(requests + 1), label, installable, now), requests + 1),
        tally(enqueued(s, build_id(requests + 1), label, installable, now)) == tally(s).insert(
            build_id(requests + 1),
        ),
        queued_ids(enqueued(s, build_id(requests + 1), label, installable, now).queued)
            == queued_ids(s.queued).push(build_id(requests + 1)),
{
    broadcast use vstd::multiset::group_multiset_axioms;
    broadcast use vstd::seq_lib::group_to_multiset_ensures;

    let id = build_id(requests + 1);
    let added = QueuedView { id, label, installable, queued_at: now, queued_for: 0, position: 0 };
    let t = SnapshotView { queued: s.queued.push(added), ..s };
    lemma_refresh_keeps_ids(t, now);
    assert(queued_ids(t.queued) =~= queued_ids(s.queued).push(id));
    assert(tally(t) =~= tally(s).insert(id));
    assert(tally(s).count(id) == 0) by {
        if tally(s).count(id) > 0 {
            let n = choose|n: nat| 1 <= n <= requests && id == #[trigger] build_id(n);
            lemma_build_ids_differ(n, requests + 1);
        }
    }
    let u = enqueued(s, id, label, installable, now);
    assert forall|other: Seq<char>| #[trigger] tally(u).count(other) > 0 implies exists|n: nat|
        1 <= n <= requests + 1 && other == #[trigger] build_id(n) by {
        if other == id {
            assert(other == build_id(requests + 1));
        } else {
            assert(tally(s).count(other) > 0);
        }
    }
}

/// A build that begins to run leaves the queue for the running builds, and the
/// others keep their order.
pub proof fn law_start_keeps_consistency(
    s: SnapshotView,
    requests: nat,
    id: Seq<char>,
    now: u64,
)
    requires
        consistent(s, requests),
    ensures
        consistent(started(s, id, now), requests),
        tally(started(s, id, now)) == tally(s),
        queued_ids(s.queued).contains(id) ==> {
            &&& !queued_ids(started(s, id, now).queued).contains(id)
            &&& active_ids(started(s, id, now).active) == active_ids(s.active).push(id)
        },
{
    broadcast use vstd::multiset::group_multiset_axioms;
    broadcast use vstd::seq_lib::group_to_multiset_ensures;

    let ids = queued_ids(s.queued);
    text::lemma_place_in(ids, id);
    match text::place_in(ids, id) {
        None => {
            lemma_refresh_keeps_ids(s, now);
        },
        Some(i) => {
            let running = ActiveView {
                id: s.queued[i].id,
                label: s.queued[i].label,
                installable: s.queued[i].installable,
                phase: "starting"@,
                queued_at: s.queued[i].queued_at,
                started_at: now,
                elapsed: 0,
            };
            let t = SnapshotView {
                queued: s.queued.remove(i),
                active: s.active.push(running),
                ..s
            };
            lemma_refresh_keeps_ids(t, now);
            assert(queued_ids(t.queued) =~= ids.remove(i));
            assert(active_ids(t.active) =~= active_ids(s.active).push(id));
            assert(ids.to_multiset().count(id) > 0);
            assert(tally(t) =~= tally(s));
            assert(tally(s).count(id) <= 1);
            assert(ids.remove(i).to_multiset().count(id) == 0);
        },
    }
}

/// A phase changes nothing but what is told of one running build.
pub proof fn law_phase_keeps_consistency(
    s: SnapshotView,
    requests: nat,
    id: Seq<char>,
    phase: Seq<char>,
    now: u64,
)
    requires
        consistent(s, requests),
    ensures
        consistent(in_phase(s, id, phase, now), requests),
        tally(in_phase(s, id, phase, now)) == tally(s),
        active_ids(in_phase(s, id, phase, now).active) == active_ids(s.active),
{
    let ids = active_ids(s.active);
    text::lemma_place_in(ids, id);
    match text::place_in(ids, id) {
        None => {
            lemma_refresh_keeps_ids(s, now);
        },
        Some(i) => {
            let t = SnapshotView {
                active: s.active.update(i, ActiveView { phase, ..s.active[i] }),
                ..s
            };
            lemma_refresh_keeps_ids(t, now);
            assert(active_ids(t.active) =~= ids);
            assert(tally(t) == tally(s));
            assert(in_phase(s, id, phase, now) == refreshed(t, now));
            assert forall|other: Seq<char>| #[trigger]
                tally(refreshed(t, now)).count(other) <= 1 && (tally(refreshed(t, now)).count(other)
                    > 0 ==> exists|n: nat|
                    1 <= n <= requests && other == #[trigger] build_id(n)) by {
                assert(tally(s).count(other) <= 1);
            }
        },
    }
}

/// A build that ends is neither waiting nor running any more; it is told of as
/// the latest that ended, as far as any are kept.
pub proof fn law_finish_keeps_consistency(
    s: SnapshotView,
    requests: nat,
    id: Seq<char>,
    result: BuildResult,
    error: Option<Seq<char>>,
    now: u64,
)
    requires
        consistent(s, requests),
    ensures
        consistent(finished(s, id, result, error, now), requests),
        !queued_ids(finished(s, id, result, error, now).queued).contains(id),
        !active_ids(finished(s, id, result, error, now).active).contains(id),
        (queued_ids(s.queued).contains(id) || active_ids(s.active).contains(id))
            && s.server.recent_limit > 0 ==> {
            let recent = finished(s, id, result, error, now).recent;
            recent.len() > 0 && recent[0].id == id && recent[0].result == result
                && recent[0].finished_at == now
        },
{
    broadcast use vstd::multiset::group_multiset_axioms;
    broadcast use vstd::seq_lib::group_to_multiset_ensures;

    let waiting = queued_ids(s.queued);
    let running = active_ids(s.active);
    text::lemma_place_in(waiting, id);
    text::lemma_place_in(running, id);
    let limit = s.server.recent_limit;
    match text::place_in(running, id) {
        Some(i) => {
            let ended = ended_active(s.active[i], result, error, now);
            let t = SnapshotView {
                active: s.active.remove(i),
                recent: remembered(s.recent, ended, limit),
                ..s
            };
            lemma_refresh_keeps_ids(t, now);
            assert(active_ids(t.active) =~= running.remove(i));
            assert(running.to_multiset().count(id) > 0);
            lemma_remembered(s.recent, ended, limit);
            assert(tally(s).count(id) <= 1);
            assert(running.remove(i).to_multiset().count(id) == 0);
            assert(waiting.to_multiset().count(id) == 0);
            assert forall|other: Seq<char>| #[trigger] tally(t).count(other) <= tally(s).count(
                other,
            ) by {}
        },
        None => match text::place_in(waiting, id) {
            Some(i) => {
                let ended = ended_queued(s.queued[i], result, error, now);
                let t = SnapshotView {
                    queued: s.queued.remove(i),
                    recent: remembered(s.recent, ended, limit),
                    ..s
                };
                lemma_refresh_keeps_ids(t, now);
                assert(queued_ids(t.queued) =~= waiting.remove(i));
                assert(waiting.to_multiset().count(id) > 0);
                lemma_remembered(s.recent, ended, limit);
                assert(tally(s).count(id) <= 1);
                assert(waiting.remove(i).to_multiset().count(id) == 0);
                assert forall|other: Seq<char>| #[trigger] tally(t).count(other) <= tally(s).count(
                    other,
                ) by {}
            },
            None => {
                lemma_refresh_keeps_ids(s, now);
            },
        },
    }
}

/// Remembering a build adds its id at most once.
proof fn lemma_remembered(recent: Seq<RecentView>, build: RecentView, limit: int)
    requires
        limit >= 0,
    ensures
        remembered(recent, build, limit).len() <= limit,
        limit > 0 ==> remembered(recent, build, limit).len() > 0 && remembered(
            recent,
            build,
            limit,
        )[0] == build,
        forall|id: Seq<char>|
            #[trigger] recent_ids(remembered(recent, build, limit)).to_multiset().count(id)
                <= recent_ids(recent).to_multiset().insert(build.id).count(id),
{
    broadcast use vstd::multiset::group_multiset_axioms;
    broadcast use vstd::seq_lib::group_to_multiset_ensures;

    let all = recent.insert(0, build);
    let ids = recent_ids(recent).insert(0, build.id);
    assert(recent_ids(all) =~= ids);
    vstd::seq_lib::to_multiset_insert(recent_ids(recent), 0, build.id);
    if all.len() > limit {
        assert(recent_ids(all.take(limit)) =~= ids.take(limit));
        assert forall|id: Seq<char>|
            #[trigger] recent_ids(remembered(recent, build, limit)).to_multiset().count(id)
                <= recent_ids(recent).to_multiset().insert(build.id).count(id) by {
            lemma_take_count(ids, limit, id);
        }
    }
}

/// Telling the state of a later time keeps it consistent.
pub proof fn law_refresh_keeps_consistency(s: SnapshotView, requests: nat, now: u64)
    requires
        consistent(s, requests),
    ensures
        consistent(refreshed(s, now), requests),
        tally(refreshed(s, now)) == tally(s),
{
    lemma_refresh_keeps_ids(s, now);
}

/// Whether two entries tell of the same waiting build.
pub open spec fn is_same_queued(a: QueuedView, b: QueuedView) -> bool {
    &&& a.id == b.id
    &&& a.label == b.label
    &&& a.installable == b.installable
    &&& a.queued_at == b.queued_at
}

/// Whether two entries tell of the same running build.
pub open spec fn is_same_active(a: ActiveView, b: ActiveView) -> bool {
    &&& a.id == b.id
    &&& a.label == b.label
    &&& a.installable == b.installable
    &&& a.queued_at == b.queued_at
    &&& a.started_at == b.started_at
}

/// Whether two tales are of the same builder.
pub open spec fn is_same_builder(a: SnapshotView, b: SnapshotView) -> bool {
    &&& a.version == b.version
    &&& a.server.endpoint_id == b.server.endpoint_id
    &&& a.server.configured_concurrency == b.server.configured_concurrency
    &&& a.server.recent_limit == b.server.recent_limit
    &&& a.server.started_at == b.server.started_at
}

/// What is told at a time says that time, how many builds wait and run, the
/// place of each that waits, and for how long each has waited or run. The
/// builds stay the same.
pub proof fn law_times_are_told(s: SnapshotView, now: u64, i: int)
    ensures
        is_same_builder(refreshed(s, now), s),
        refreshed(s, now).server.updated_at == now,
        refreshed(s, now).server.queued_count == s.queued.len(),
        refreshed(s, now).server.active_count == s.active.len(),
        refreshed(s, now).queued.len() == s.queued.len(),
        refreshed(s, now).active.len() == s.active.len(),
        refreshed(s, now).recent == s.recent,
        0 <= i < s.queued.len() ==> {
            let build = refreshed(s, now).queued[i];
            &&& is_same_queued(build, s.queued[i])
            &&& build.position == i + 1
            &&& build.queued_at <= now ==> build.queued_at + build.queued_for == now
            &&& now < build.queued_at ==> build.queued_for == 0
        },
        0 <= i < s.active.len() ==> {
            let build = refreshed(s, now).active[i];
            &&& is_same_active(build, s.active[i])
            &&& build.phase == s.active[i].phase
            &&& build.started_at <= now ==> build.started_at + build.elapsed == now
            &&& now < build.started_at ==> build.elapsed == 0
        },
{
}

/// A build that joins the queue is told of last, with its client, what it
/// builds and since when it waits. The builds before it stay the same.
pub proof fn law_queued_builds_are_told(
    s: SnapshotView,
    id: Seq<char>,
    label: Seq<char>,
    installable: Seq<char>,
    now: u64,
    i: int,
)
    ensures
        is_same_builder(enqueued(s, id, label, installable, now), s),
        ({
            let after = enqueued(s, id, label, installable, now);
            let build = after.queued.last();
            &&& after.server.updated_at == now
            &&& after.queued.len() == s.queued.len() + 1
            &&& build.id == id
            &&& build.label == label
            &&& build.installable == installable
            &&& build.queued_at == now
            &&& build.queued_for == 0
            &&& build.position == s.queued.len() + 1
            &&& 0 <= i < s.queued.len() ==> is_same_queued(after.queued[i], s.queued[i])
            &&& after.active.len() == s.active.len()
            &&& 0 <= i < s.active.len() ==> is_same_active(after.active[i], s.active[i])
                && after.active[i].phase == s.active[i].phase
            &&& after.recent == s.recent
        }),
{
}

/// A build that begins is told of as the last that runs, with all that was told
/// of it while it waited, as starting now. The others wait on in their order.
pub proof fn law_started_builds_are_told(s: SnapshotView, id: Seq<char>, now: u64, at: int, i: int)
    requires
        0 <= at < s.queued.len(),
        s.queued[at].id == id,
        forall|j: int| 0 <= j < at ==> (#[trigger] s.queued[j]).id != id,
    ensures
        is_same_builder(started(s, id, now), s),
        ({
            let after = started(s, id, now);
            let build = after.active.last();
            &&& after.active.len() == s.active.len() + 1
            &&& build.id == id
            &&& build.label == s.queued[at].label
            &&& build.installable == s.queued[at].installable
            &&& build.phase == "starting"@
            &&& build.queued_at == s.queued[at].queued_at
            &&& build.started_at == now
            &&& build.elapsed == 0
            &&& 0 <= i < s.active.len() ==> is_same_active(after.active[i], s.active[i])
                && after.active[i].phase == s.active[i].phase
            &&& after.queued.len() == s.queued.len() - 1
            &&& 0 <= i < at ==> is_same_queued(after.queued[i], s.queued[i])
            &&& at < i < s.queued.len() ==> is_same_queued(after.queued[i - 1], s.queued[i])
            &&& after.recent == s.recent
        }),
{
    lemma_queued_place(s, id, at);
}

proof fn lemma_queued_place(s: SnapshotView, id: Seq<char>, at: int)
    requires
        0 <= at < s.queued.len(),
        s.queued[at].id == id,
        forall|j: int| 0 <= j < at ==> (#[trigger] s.queued[j]).id != id,
    ensures
        text::place_in(queued_ids(s.queued), id) == Some(at),
{
    let ids = queued_ids(s.queued);
    text::lemma_place_in(ids, id);
    assert(ids[at] == id);
    let found = text::place_in(ids, id)->0;
    if found < at {
        assert(ids[found] == s.queued[found].id);
    }
}

proof fn lemma_active_place(s: SnapshotView, id: Seq<char>, at: int)
    requires
        0 <= at < s.active.len(),
        s.active[at].id == id,
        forall|j: int| 0 <= j < at ==> (#[trigger] s.active[j]).id != id,
    ensures
        text::place_in(active_ids(s.active), id) == Some(at),
{
    let ids = active_ids(s.active);
    text::lemma_place_in(ids, id);
    assert(ids[at] == id);
    let found = text::place_in(ids, id)->0;
    if found < at {
        assert(ids[found] == s.active[found].id);
    }
}

/// A build that enters a phase is told of in that phase, and no other build
/// changes its own.
pub proof fn law_phases_are_told(
    s: SnapshotView,
    id: Seq<char>,
    phase: Seq<char>,
    now: u64,
    at: int,
    i: int,
)
    requires
        0 <= at < s.active.len(),
        s.active[at].id == id,
        forall|j: int| 0 <= j < at ==> (#[trigger] s.active[j]).id != id,
    ensures
        is_same_builder(in_phase(s, id, phase, now), s),
        ({
            let after = in_phase(s, id, phase, now);
            &&& after.active.len() == s.active.len()
            &&& after.active[at].phase == phase
            &&& 0 <= i < s.active.len() ==> is_same_active(after.active[i], s.active[i])
            &&& 0 <= i < s.active.len() && i != at ==> after.active[i].phase == s.active[i].phase
            &&& after.queued.len() == s.queued.len()
            &&& 0 <= i < s.queued.len() ==> is_same_queued(after.queued[i], s.queued[i])
            &&& after.recent == s.recent
        }),
{
    lemma_active_place(s, id, at);
}

/// Whether an entry tells of an ended build with these fields.
pub open spec fn is_ended(
    build: RecentView,
    result: BuildResult,
    error: Option<Seq<char>>,
    now: u64,
) -> bool {
    &&& build.result == result
    &&& build.finished_at == now
    &&& error is None ==> build.short_error is None
    &&& match error {
        Some(message) => if message.len() <= 512 {
            build.short_error == Some(message)
        } else {
            build.short_error == Some(message.take(512) + "\n[truncated]"@)
        },
        None => true,
    }
}

/// The latest build that ended is told of first, and those before it follow, as
/// many as are kept.
pub open spec fn is_put_first(
    after: Seq<RecentView>,
    before: Seq<RecentView>,
    limit: int,
) -> bool {
    &&& before.len() < limit ==> after.len() == before.len() + 1
    &&& before.len() >= limit ==> after.len() == limit
    &&& forall|i: int| 0 < i < after.len() ==> #[trigger] after[i] == before[i - 1]
}

/// A running build that ends is told of as ended: with all that was told of it,
/// how it ended and when, how long it ran, and why it failed, in at most five
/// hundred and twelve characters.
pub proof fn law_ended_builds_are_told(
    s: SnapshotView,
    id: Seq<char>,
    result: BuildResult,
    error: Option<Seq<char>>,
    now: u64,
    at: int,
    i: int,
)
    requires
        0 <= at < s.active.len(),
        s.active[at].id == id,
        forall|j: int| 0 <= j < at ==> (#[trigger] s.active[j]).id != id,
        0 < s.server.recent_limit,
    ensures
        is_same_builder(finished(s, id, result, error, now), s),
        ({
            let after = finished(s, id, result, error, now);
            let build = after.recent[0];
            &&& is_put_first(after.recent, s.recent, s.server.recent_limit)
            &&& is_ended(build, result, error, now)
            &&& build.id == id
            &&& build.label == s.active[at].label
            &&& build.installable == s.active[at].installable
            &&& build.queued_at == s.active[at].queued_at
            &&& build.started_at == Some(s.active[at].started_at)
            &&& build.duration is Some
            &&& s.active[at].started_at <= now ==> s.active[at].started_at + build.duration->0
                == now
            &&& after.active.len() == s.active.len() - 1
            &&& 0 <= i < at ==> is_same_active(after.active[i], s.active[i])
                && after.active[i].phase == s.active[i].phase
            &&& at < i < s.active.len() ==> is_same_active(after.active[i - 1], s.active[i])
                && after.active[i - 1].phase == s.active[i].phase
            &&& after.queued.len() == s.queued.len()
            &&& 0 <= i < s.queued.len() ==> is_same_queued(after.queued[i], s.queued[i])
        }),
{
    lemma_active_place(s, id, at);
}

/// A build that ends before it ran is told of as ended too, and never started.
pub proof fn law_builds_that_never_ran_are_told(
    s: SnapshotView,
    id: Seq<char>,
    result: BuildResult,
    error: Option<Seq<char>>,
    now: u64,
    at: int,
    i: int,
)
    requires
        forall|j: int| 0 <= j < s.active.len() ==> (#[trigger] s.active[j]).id != id,
        0 <= at < s.queued.len(),
        s.queued[at].id == id,
        forall|j: int| 0 <= j < at ==> (#[trigger] s.queued[j]).id != id,
        0 < s.server.recent_limit,
    ensures
        is_same_builder(finished(s, id, result, error, now), s),
        ({
            let after = finished(s, id, result, error, now);
            let build = after.recent[0];
            &&& is_put_first(after.recent, s.recent, s.server.recent_limit)
            &&& is_ended(build, result, error, now)
            &&& build.id == id
            &&& build.label == s.queued[at].label
            &&& build.installable == s.queued[at].installable
            &&& build.queued_at == s.queued[at].queued_at
            &&& build.started_at is None
            &&& build.duration is None
            &&& after.queued.len() == s.queued.len() - 1
            &&& 0 <= i < at ==> is_same_queued(after.queued[i], s.queued[i])
            &&& at < i < s.queued.len() ==> is_same_queued(after.queued[i - 1], s.queued[i])
            &&& after.active.len() == s.active.len()
            &&& 0 <= i < s.active.len() ==> is_same_active(after.active[i], s.active[i])
                && after.active[i].phase == s.active[i].phase
        }),
{
    let ids = active_ids(s.active);
    text::lemma_place_in(ids, id);
    if let Some(found) = text::place_in(ids, id) {
        assert(ids[found] == s.active[found].id);
    }
    lemma_queued_place(s, id, at);
}

/// Builds are numbered, and their ids name the numbers.
pub proof fn law_build_ids_name_their_number(n: nat, other: nat)
    ensures
        build_id(n) == "build-"@ + text::decimal(n),
        build_id(n) == build_id(other) ==> n == other,
        STATUS_FILE@ == "status.json"@,
        STATUS_VERSION == 1,
        MAX_SHORT_ERROR_CHARS == 512,
{
    lemma_build_ids_differ(n, other);
}

} // verus!
