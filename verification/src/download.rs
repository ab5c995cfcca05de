//! The download manager: the table of downloads with their statuses, the
//! queue that keeps at most a given number of downloads running, the
//! activity log and the records kept for resuming partial downloads.
//!
//! The manager is pure state. Whoever drives it (network transfers, timers,
//! persistence) feeds it events and carries out what its methods return:
//! the ids of downloads to start, or to signal to stop.
use vstd::prelude::*;
use crate::text::{push_str, timestamp_shape};

verus! {

// ---------------------------------------------------------------------------
// Data
// ---------------------------------------------------------------------------

#[derive(Clone, Copy, Debug, PartialEq, Eq, Structural)]
pub enum DownloadStatus {
    Downloading,
    Paused,
    Completed,
    Error,
    Cancelled,
    Queued,
}

#[derive(Clone, Copy, Debug, PartialEq, Eq, Structural)]
pub enum ActivityType {
    DownloadStarted,
    DownloadPaused,
    DownloadResumed,
    DownloadCancelled,
    DownloadCompleted,
    DownloadError,
    FileAdded,
    StatusChanged,
    UserInteraction,
}

/// One download. Its progress in percent is `downloaded_size` over
/// `total_size`; the speed is in bytes per second and the remaining time in
/// seconds.
#[derive(Clone, Debug)]
pub struct DownloadItem {
    pub id: String,
    pub file_name: String,
    pub file_extension: String,
    pub total_size: u64,
    pub downloaded_size: u64,
    pub speed: u64,
    pub status: DownloadStatus,
    pub time_remaining: u64,
    pub url: String,
    pub file_path: String,
    pub start_time: u64,
    pub end_time: Option<u64>,
    pub error_message: Option<String>,
    pub user_paused: bool,
}

#[derive(Clone, Debug)]
pub struct DownloadStats {
    pub total_downloads: u32,
    pub active_downloads: u32,
    pub completed_downloads: u32,
    pub total_downloaded_size: u64,
    pub average_speed: u64,
}

#[derive(Clone, Debug)]
pub struct ActivityEntry {
    pub id: String,
    pub timestamp: String,
    pub action_type: ActivityType,
    pub file_name: Option<String>,
    pub identifier: Option<String>,
    pub status: Option<String>,
    pub details: Option<String>,
}

/// What is kept to resume a download that stopped part way.
#[derive(Clone, Debug)]
pub struct PartialDownloadInfo {
    pub id: String,
    pub url: String,
    pub file_path: String,
    pub downloaded_size: u64,
    pub total_size: u64,
    pub last_modified: Option<String>,
    pub etag: Option<String>,
    pub resume_supported: bool,
    pub checksum: Option<String>,
}

/// The download manager's state. Downloads are kept in the order they were
/// added; ids are distinct (see `wf`).
pub struct DownloadManager {
    pub downloads: Vec<DownloadItem>,
    pub activities: Vec<ActivityEntry>,
    pub partial_downloads: Vec<PartialDownloadInfo>,
    pub download_directory: String,
    pub auto_save_enabled: bool,
    pub state_version: u32,
}

// ---------------------------------------------------------------------------
// Model
// ---------------------------------------------------------------------------

/// No two downloads share an id.
pub open spec fn ids_distinct(s: Seq<DownloadItem>) -> bool {
    forall|i: int, j: int|
        0 <= i < s.len() && 0 <= j < s.len() && i != j ==> #[trigger] s[i].id@ != #[trigger] s[j].id@
}

/// No two partial-download records share an id.
pub open spec fn partial_ids_distinct(s: Seq<PartialDownloadInfo>) -> bool {
    forall|i: int, j: int|
        0 <= i < s.len() && 0 <= j < s.len() && i != j ==> #[trigger] s[i].id@ != #[trigger] s[j].id@
}

/// The position of the download with the given id, if there is one.
pub open spec fn find_id(s: Seq<DownloadItem>, id: Seq<char>) -> Option<int> {
    if exists|i: int| 0 <= i < s.len() && #[trigger] s[i].id@ == id {
        Some(choose|i: int| 0 <= i < s.len() && #[trigger] s[i].id@ == id)
    } else {
        None
    }
}

/// The position of the partial-download record with the given id, if
/// there is one.
pub open spec fn find_partial_id(s: Seq<PartialDownloadInfo>, id: Seq<char>) -> Option<int> {
    if exists|i: int| 0 <= i < s.len() && #[trigger] s[i].id@ == id {
        Some(choose|i: int| 0 <= i < s.len() && #[trigger] s[i].id@ == id)
    } else {
        None
    }
}

/// How many downloads have status `st`.
pub open spec fn count_status(s: Seq<DownloadItem>, st: DownloadStatus) -> nat
    decreases s.len(),
{
    if s.len() == 0 {
        0
    } else {
        count_status(s.drop_last(), st) + if s.last().status == st {
            1nat
        } else {
            0nat
        }
    }
}

/// `item` with a new status and error message.
pub open spec fn with_status(
    item: DownloadItem,
    st: DownloadStatus,
    err: Option<String>,
) -> DownloadItem {
    DownloadItem { status: st, error_message: err, ..item }
}

impl DownloadManager {
    /// Well-formedness: download ids are distinct, as are the ids of the
    /// partial-download records, and the table stays countable in `u32`.
    pub open spec fn wf(&self) -> bool {
        &&& ids_distinct(self.downloads@)
        &&& partial_ids_distinct(self.partial_downloads@)
        &&& self.downloads@.len() < 0xffff_ffff
    }
}

// ---------------------------------------------------------------------------
// Lemmas on the model
// ---------------------------------------------------------------------------

/// A status is held by at most all downloads.
pub proof fn lemma_count_bound(s: Seq<DownloadItem>, st: DownloadStatus)
    ensures
        count_status(s, st) <= s.len(),
    decreases s.len(),
{
    if s.len() > 0 {
        lemma_count_bound(s.drop_last(), st);
    }
}

/// Replacing download `i` by `x` moves one count from the old status to
/// the new one.
pub proof fn lemma_count_update(s: Seq<DownloadItem>, i: int, x: DownloadItem, st: DownloadStatus)
    requires
        0 <= i < s.len(),
    ensures
        count_status(s.update(i, x), st) + (if s[i].status == st {
            1nat
        } else {
            0nat
        }) == count_status(s, st) + (if x.status == st {
            1nat
        } else {
            0nat
        }),
    decreases s.len(),
{
    if i == s.len() - 1 {
        assert(s.update(i, x).drop_last() =~= s.drop_last());
    } else {
        lemma_count_update(s.drop_last(), i, x, st);
        assert(s.update(i, x).drop_last() =~= s.drop_last().update(i, x));
    }
}

/// Appending `x` adds one to the count of its status.
pub proof fn lemma_count_push(s: Seq<DownloadItem>, x: DownloadItem, st: DownloadStatus)
    ensures
        count_status(s.push(x), st) == count_status(s, st) + (if x.status == st {
            1nat
        } else {
            0nat
        }),
{
    assert(s.push(x).drop_last() =~= s);
}

/// Removing download `i` takes one from the count of its status.
pub proof fn lemma_count_remove(s: Seq<DownloadItem>, i: int, st: DownloadStatus)
    requires
        0 <= i < s.len(),
    ensures
        count_status(s.remove(i), st) + (if s[i].status == st {
            1nat
        } else {
            0nat
        }) == count_status(s, st),
    decreases s.len(),
{
    if i == s.len() - 1 {
        assert(s.remove(i) =~= s.drop_last());
    } else {
        lemma_count_remove(s.drop_last(), i, st);
        assert(s.remove(i).drop_last() =~= s.drop_last().remove(i));
    }
}

/// The count of a status is the number of positions holding it.
pub proof fn lemma_count_zero(s: Seq<DownloadItem>, st: DownloadStatus)
    ensures
        count_status(s, st) == 0 <==> forall|i: int| 0 <= i < s.len() ==> #[trigger] s[i].status != st,
    decreases s.len(),
{
    if s.len() > 0 {
        lemma_count_zero(s.drop_last(), st);
        if count_status(s, st) == 0 {
            assert forall|i: int| 0 <= i < s.len() implies #[trigger] s[i].status != st by {
                if i < s.len() - 1 {
                    assert(s[i] == s.drop_last()[i]);
                }
            }
        } else if forall|i: int| 0 <= i < s.len() ==> #[trigger] s[i].status != st {
            assert forall|i: int| 0 <= i < s.drop_last().len() implies #[trigger] s.drop_last()[i].status
                != st by {
                assert(s.drop_last()[i] == s[i]);
            }
            assert(s.last().status != st);
        }
    }
}

/// With distinct ids, a download is found at its own position.
pub proof fn lemma_find_id(s: Seq<DownloadItem>, id: Seq<char>, i: int)
    requires
        ids_distinct(s),
        0 <= i < s.len(),
        s[i].id@ == id,
    ensures
        find_id(s, id) == Some(i),
{
}

/// With distinct ids, a partial-download record is found at its own
/// position.
pub proof fn lemma_find_partial_id(s: Seq<PartialDownloadInfo>, id: Seq<char>, i: int)
    requires
        partial_ids_distinct(s),
        0 <= i < s.len(),
        s[i].id@ == id,
    ensures
        find_partial_id(s, id) == Some(i),
{
}

// ---------------------------------------------------------------------------
// Copies and lookups
// ---------------------------------------------------------------------------

fn clone_opt_string(o: &Option<String>) -> (r: Option<String>)
    ensures
        r == *o,
{
    match o {
        Some(s) => Some(s.clone()),
        None => None,
    }
}

impl DownloadItem {
    /// An exact copy of the item.
    pub fn duplicate(&self) -> (r: DownloadItem)
        ensures
            r == *self,
    {
        DownloadItem {
            id: self.id.clone(),
            file_name: self.file_name.clone(),
            file_extension: self.file_extension.clone(),
            total_size: self.total_size,
            downloaded_size: self.downloaded_size,
            speed: self.speed,
            status: self.status,
            time_remaining: self.time_remaining,
            url: self.url.clone(),
            file_path: self.file_path.clone(),
            start_time: self.start_time,
            end_time: self.end_time,
            error_message: clone_opt_string(&self.error_message),
            user_paused: self.user_paused,
        }
    }
}

impl ActivityEntry {
    /// An exact copy of the entry.
    pub fn duplicate(&self) -> (r: ActivityEntry)
        ensures
            r == *self,
    {
        ActivityEntry {
            id: self.id.clone(),
            timestamp: self.timestamp.clone(),
            action_type: self.action_type,
            file_name: clone_opt_string(&self.file_name),
            identifier: clone_opt_string(&self.identifier),
            status: clone_opt_string(&self.status),
            details: clone_opt_string(&self.details),
        }
    }
}

impl PartialDownloadInfo {
    /// An exact copy of the record.
    pub fn duplicate(&self) -> (r: PartialDownloadInfo)
        ensures
            r == *self,
    {
        PartialDownloadInfo {
            id: self.id.clone(),
            url: self.url.clone(),
            file_path: self.file_path.clone(),
            downloaded_size: self.downloaded_size,
            total_size: self.total_size,
            last_modified: clone_opt_string(&self.last_modified),
            etag: clone_opt_string(&self.etag),
            resume_supported: self.resume_supported,
            checksum: clone_opt_string(&self.checksum),
        }
    }
}

impl DownloadManager {
    /// An empty manager saving into `download_directory`, with auto-save on
    /// and state version 1.
    pub fn new(download_directory: String) -> (r: DownloadManager)
        ensures
            r.wf(),
            r.downloads@.len() == 0,
            r.activities@.len() == 0,
            r.partial_downloads@.len() == 0,
            r.download_directory == download_directory,
            r.auto_save_enabled,
            r.state_version == 1,
    {
        DownloadManager {
            downloads: Vec::new(),
            activities: Vec::new(),
            partial_downloads: Vec::new(),
            download_directory,
            auto_save_enabled: true,
            state_version: 1,
        }
    }

    /// The position of the download with id `id`.
    pub fn find(&self, id: &String) -> (r: Option<usize>)
        requires
            self.wf(),
        ensures
            match find_id(self.downloads@, id@) {
                Some(i) => r == Some(i as usize),
                None => r is None,
            },
            r matches Some(i) ==> i < self.downloads@.len() && self.downloads@[i as int].id@ == id@,
    {
        let mut i: usize = 0;
        while i < self.downloads.len()
            invariant
                self.wf(),
                i <= self.downloads.len(),
                forall|k: int| 0 <= k < i ==> #[trigger] self.downloads@[k].id@ != id@,
            decreases self.downloads.len() - i,
        {
            if self.downloads[i].id == *id {
                proof {
                    lemma_find_id(self.downloads@, id@, i as int);
                }
                return Some(i);
            }
            i = i + 1;
        }
        None
    }

    pub(crate) fn find_partial(&self, id: &String) -> (r: Option<usize>)
        requires
            self.wf(),
        ensures
            match find_partial_id(self.partial_downloads@, id@) {
                Some(i) => r == Some(i as usize),
                None => r is None,
            },
            r matches Some(i) ==> i < self.partial_downloads@.len()
                && self.partial_downloads@[i as int].id@ == id@,
    {
        let mut i: usize = 0;
        while i < self.partial_downloads.len()
            invariant
                self.wf(),
                i <= self.partial_downloads.len(),
                forall|k: int| 0 <= k < i ==> #[trigger] self.partial_downloads@[k].id@ != id@,
            decreases self.partial_downloads.len() - i,
        {
            if self.partial_downloads[i].id == *id {
                proof {
                    lemma_find_partial_id(self.partial_downloads@, id@, i as int);
                }
                return Some(i);
            }
            i = i + 1;
        }
        None
    }

    /// Number of downloads whose status is `Downloading`.
    pub fn count_downloading_only(&self) -> (r: u32)
        requires
            self.wf(),
        ensures
            r == count_status(self.downloads@, DownloadStatus::Downloading),
    {
        self.count_with_status(DownloadStatus::Downloading)
    }

    /// Number of downloads whose status is `st`.
    pub fn count_with_status(&self, st: DownloadStatus) -> (r: u32)
        requires
            self.wf(),
        ensures
            r == count_status(self.downloads@, st),
    {
        let mut n: u32 = 0;
        let mut i: usize = 0;
        while i < self.downloads.len()
            invariant
                self.wf(),
                i <= self.downloads.len(),
                n == count_status(self.downloads@.subrange(0, i as int), st),
            decreases self.downloads.len() - i,
        {
            proof {
                assert(self.downloads@.subrange(0, i + 1).drop_last() =~= self.downloads@.subrange(
                    0,
                    i as int,
                ));
                lemma_count_bound(self.downloads@.subrange(0, i as int), st);
            }
            if self.downloads[i].status == st {
                n = n + 1;
            }
            i = i + 1;
        }
        assert(self.downloads@.subrange(0, self.downloads@.len() as int) =~= self.downloads@);
        n
    }

    /// The download with id `id`, if any (`get_download_status`).
    pub fn get_download(&self, id: &String) -> (r: Option<DownloadItem>)
        requires
            self.wf(),
        ensures
            match find_id(self.downloads@, id@) {
                Some(i) => r == Some(self.downloads@[i]),
                None => r is None,
            },
    {
        match self.find(id) {
            Some(i) => Some(self.downloads[i].duplicate()),
            None => None,
        }
    }

    /// All downloads, in the order they were added (`get_active_downloads`).
    pub fn all_downloads(&self) -> (r: Vec<DownloadItem>)
        ensures
            r@ == self.downloads@,
    {
        let mut r: Vec<DownloadItem> = Vec::new();
        let mut i: usize = 0;
        while i < self.downloads.len()
            invariant
                i <= self.downloads.len(),
                r@ == self.downloads@.subrange(0, i as int),
            decreases self.downloads.len() - i,
        {
            r.push(self.downloads[i].duplicate());
            i = i + 1;
        }
        assert(r@ =~= self.downloads@);
        r
    }

    /// Sets the status and error message of download `id`, if there is
    /// one, and touches nothing else.
    pub fn set_download_status_no_cleanup(
        &mut self,
        id: &String,
        status: DownloadStatus,
        error_message: Option<String>,
    )
        requires
            old(self).wf(),
        ensures
            final(self).wf(),
            final(self).downloads@ == match find_id(old(self).downloads@, id@) {
                Some(i) => old(self).downloads@.update(
                    i,
                    with_status(old(self).downloads@[i], status, error_message),
                ),
                None => old(self).downloads@,
            },
            final(self).activities == old(self).activities,
            final(self).partial_downloads == old(self).partial_downloads,
            final(self).download_directory == old(self).download_directory,
            final(self).auto_save_enabled == old(self).auto_save_enabled,
            final(self).state_version == old(self).state_version,
    {
        match self.find(id) {
            Some(i) => {
                let mut item = self.downloads[i].duplicate();
                item.status = status;
                item.error_message = error_message;
                self.downloads.set(i, item);
                assert(ids_distinct(self.downloads@)) by {
                    assert forall|a: int, b: int|
                        0 <= a < self.downloads@.len() && 0 <= b < self.downloads@.len() && a
                            != b implies #[trigger] self.downloads@[a].id@
                        != #[trigger] self.downloads@[b].id@ by {
                        assert(self.downloads@[a].id == old(self).downloads@[a].id);
                        assert(self.downloads@[b].id == old(self).downloads@[b].id);
                    }
                }
            },
            None => {},
        }
    }
}


// ---------------------------------------------------------------------------
// The queue
// ---------------------------------------------------------------------------

/// Download `i` is older than download `j`: it was started earlier, or at
/// the same second and added before it.
pub open spec fn older(s: Seq<DownloadItem>, i: int, j: int) -> bool {
    s[i].start_time < s[j].start_time || (s[i].start_time == s[j].start_time && i < j)
}

/// `t` differs from `s` only in status changes from `from` to `to` (with
/// the error message cleared); ids and start times are kept.
pub open spec fn only_moves(
    s: Seq<DownloadItem>,
    t: Seq<DownloadItem>,
    from: DownloadStatus,
    to: DownloadStatus,
) -> bool {
    &&& t.len() == s.len()
    &&& forall|i: int|
        0 <= i < s.len() ==> (#[trigger] t[i] == s[i] || (s[i].status == from && t[i]
            == with_status(s[i], to, None)))
}

/// Download `i` was moved from `from` to `to` between `s` and `t`.
pub open spec fn moved(
    s: Seq<DownloadItem>,
    t: Seq<DownloadItem>,
    i: int,
    from: DownloadStatus,
    to: DownloadStatus,
) -> bool {
    s[i].status == from && t[i].status == to
}

/// The ids in `ids` are exactly those of the downloads moved from `from`
/// to `to`.
pub open spec fn ids_of_moved(
    ids: Seq<String>,
    s: Seq<DownloadItem>,
    t: Seq<DownloadItem>,
    from: DownloadStatus,
    to: DownloadStatus,
) -> bool {
    &&& forall|k: int|
        0 <= k < ids.len() ==> exists|i: int|
            0 <= i < s.len() && #[trigger] moved(s, t, i, from, to) && #[trigger] ids[k]@ == s[i].id@
    &&& forall|i: int|
        0 <= i < s.len() && #[trigger] moved(s, t, i, from, to) ==> exists|k: int|
            0 <= k < ids.len() && ids[k]@ == s[i].id@
}

/// How many queued downloads `start_next_queued_download` starts: enough
/// to fill the free slots, as far as there are queued ones.
pub open spec fn starts_allowed(s: Seq<DownloadItem>, max_downloads: nat) -> nat {
    let running = count_status(s, DownloadStatus::Downloading);
    let waiting = count_status(s, DownloadStatus::Queued);
    if running >= max_downloads {
        0
    } else if max_downloads - running <= waiting {
        (max_downloads - running) as nat
    } else {
        waiting
    }
}

/// How many running downloads `enforce_download_limit` sends back to the
/// queue.
pub open spec fn excess_running(s: Seq<DownloadItem>, max_downloads: nat) -> nat {
    let running = count_status(s, DownloadStatus::Downloading);
    if running > max_downloads {
        (running - max_downloads) as nat
    } else {
        0
    }
}

/// `t` is `s` after `start_next_queued_download(max_downloads)` returned
/// `started`: the oldest queued downloads were started, as many as the
/// free slots allow and as there are queued ones.
pub open spec fn queue_filled(
    s: Seq<DownloadItem>,
    t: Seq<DownloadItem>,
    started: Seq<String>,
    max_downloads: nat,
) -> bool {
    &&& only_moves(s, t, DownloadStatus::Queued, DownloadStatus::Downloading)
    &&& started.len() == starts_allowed(s, max_downloads)
    &&& count_status(t, DownloadStatus::Downloading) == count_status(s, DownloadStatus::Downloading)
        + started.len()
    &&& count_status(t, DownloadStatus::Queued) + started.len() == count_status(
        s,
        DownloadStatus::Queued,
    )
    &&& forall|i: int, j: int|
        0 <= i < s.len() && 0 <= j < s.len() && #[trigger] moved(
            s,
            t,
            i,
            DownloadStatus::Queued,
            DownloadStatus::Downloading,
        ) && #[trigger] t[j].status == DownloadStatus::Queued ==> older(s, i, j)
    &&& ids_of_moved(started, s, t, DownloadStatus::Queued, DownloadStatus::Downloading)
}

/// `t` is `s` after `enforce_download_limit(max_downloads)` returned
/// `queued`: the newest running downloads went back to the queue, as many
/// as run beyond the limit.
pub open spec fn queue_trimmed(
    s: Seq<DownloadItem>,
    t: Seq<DownloadItem>,
    queued: Seq<String>,
    max_downloads: nat,
) -> bool {
    &&& only_moves(s, t, DownloadStatus::Downloading, DownloadStatus::Queued)
    &&& queued.len() == excess_running(s, max_downloads)
    &&& count_status(t, DownloadStatus::Downloading) + queued.len() == count_status(
        s,
        DownloadStatus::Downloading,
    )
    &&& forall|i: int, j: int|
        0 <= i < s.len() && 0 <= j < s.len() && #[trigger] moved(
            s,
            t,
            j,
            DownloadStatus::Downloading,
            DownloadStatus::Queued,
        ) && #[trigger] t[i].status == DownloadStatus::Downloading ==> older(s, i, j)
    &&& ids_of_moved(queued, s, t, DownloadStatus::Downloading, DownloadStatus::Queued)
}

proof fn lemma_step_only_moves(
    s0: Seq<DownloadItem>,
    before: Seq<DownloadItem>,
    t: Seq<DownloadItem>,
    i: int,
    from: DownloadStatus,
    to: DownloadStatus,
)
    requires
        only_moves(s0, before, from, to),
        0 <= i < before.len(),
        before[i].status == from,
        from != to,
        t == before.update(i, with_status(before[i], to, None)),
    ensures
        only_moves(s0, t, from, to),
        t[i].status == to,
        s0[i].status == from,
        s0[i] == before[i],
{
    assert(before[i] == s0[i] || before[i] == with_status(s0[i], to, None));
    assert forall|k: int| 0 <= k < s0.len() implies (#[trigger] t[k] == s0[k] || (s0[k].status
        == from && t[k] == with_status(s0[k], to, None))) by {
        if k != i {
            assert(t[k] == before[k]);
        }
    }
}

proof fn lemma_step_ids(
    s0: Seq<DownloadItem>,
    before: Seq<DownloadItem>,
    t: Seq<DownloadItem>,
    i: int,
    old_ids: Seq<String>,
    ids: Seq<String>,
    from: DownloadStatus,
    to: DownloadStatus,
)
    requires
        only_moves(s0, before, from, to),
        0 <= i < before.len(),
        before[i].status == from,
        from != to,
        t == before.update(i, with_status(before[i], to, None)),
        ids_of_moved(old_ids, s0, before, from, to),
        ids.len() == old_ids.len() + 1,
        forall|k: int| 0 <= k < old_ids.len() ==> ids[k] == old_ids[k],
        ids[old_ids.len() as int]@ == before[i].id@,
    ensures
        ids_of_moved(ids, s0, t, from, to),
{
    lemma_step_only_moves(s0, before, t, i, from, to);
    assert forall|k: int| 0 <= k < ids.len() implies exists|x: int|
        0 <= x < s0.len() && #[trigger] moved(s0, t, x, from, to) && #[trigger] ids[k]@ == s0[x].id@ by {
        if k == old_ids.len() {
            assert(moved(s0, t, i, from, to));
        } else {
            assert(ids[k] == old_ids[k]);
            let x = choose|x: int|
                0 <= x < s0.len() && #[trigger] moved(s0, before, x, from, to) && old_ids[k]@
                    == s0[x].id@;
            if x != i {
                assert(t[x] == before[x]);
            }
            assert(moved(s0, t, x, from, to));
        }
    }
    assert forall|x: int| 0 <= x < s0.len() && #[trigger] moved(s0, t, x, from, to) implies exists|k: int|
        0 <= k < ids.len() && ids[k]@ == s0[x].id@ by {
        if x == i {
            assert(ids[old_ids.len() as int]@ == s0[x].id@);
        } else {
            assert(t[x] == before[x]);
            assert(moved(s0, before, x, from, to));
            let k = choose|k: int| 0 <= k < old_ids.len() && old_ids[k]@ == s0[x].id@;
            assert(ids[k] == old_ids[k]);
        }
    }
}

proof fn lemma_step_order_oldest(
    s0: Seq<DownloadItem>,
    before: Seq<DownloadItem>,
    t: Seq<DownloadItem>,
    i: int,
    from: DownloadStatus,
    to: DownloadStatus,
)
    requires
        only_moves(s0, before, from, to),
        0 <= i < before.len(),
        before[i].status == from,
        from != to,
        t == before.update(i, with_status(before[i], to, None)),
        forall|j: int|
            0 <= j < before.len() && j != i && #[trigger] before[j].status == from ==> older(
                before,
                i,
                j,
            ),
        forall|a: int, b: int|
            0 <= a < s0.len() && 0 <= b < s0.len() && #[trigger] moved(s0, before, a, from, to)
                && #[trigger] before[b].status == from ==> older(s0, a, b),
    ensures
        forall|a: int, b: int|
            0 <= a < s0.len() && 0 <= b < s0.len() && #[trigger] moved(s0, t, a, from, to)
                && #[trigger] t[b].status == from ==> older(s0, a, b),
{
    lemma_step_only_moves(s0, before, t, i, from, to);
    assert forall|a: int, b: int|
        0 <= a < s0.len() && 0 <= b < s0.len() && #[trigger] moved(s0, t, a, from, to)
            && #[trigger] t[b].status == from implies older(s0, a, b) by {
        assert(b != i);
        assert(t[b] == before[b]);
        assert(before[a].start_time == s0[a].start_time);
        assert(before[b].start_time == s0[b].start_time);
        if a == i {
            assert(older(before, a, b));
        } else {
            assert(t[a] == before[a]);
            assert(moved(s0, before, a, from, to));
        }
    }
}

proof fn lemma_step_order_newest(
    s0: Seq<DownloadItem>,
    before: Seq<DownloadItem>,
    t: Seq<DownloadItem>,
    i: int,
    from: DownloadStatus,
    to: DownloadStatus,
)
    requires
        only_moves(s0, before, from, to),
        0 <= i < before.len(),
        before[i].status == from,
        from != to,
        t == before.update(i, with_status(before[i], to, None)),
        forall|j: int|
            0 <= j < before.len() && j != i && #[trigger] before[j].status == from ==> older(
                before,
                j,
                i,
            ),
        forall|a: int, b: int|
            0 <= a < s0.len() && 0 <= b < s0.len() && #[trigger] moved(s0, before, b, from, to)
                && #[trigger] before[a].status == from ==> older(s0, a, b),
    ensures
        forall|a: int, b: int|
            0 <= a < s0.len() && 0 <= b < s0.len() && #[trigger] moved(s0, t, b, from, to)
                && #[trigger] t[a].status == from ==> older(s0, a, b),
{
    lemma_step_only_moves(s0, before, t, i, from, to);
    assert forall|a: int, b: int|
        0 <= a < s0.len() && 0 <= b < s0.len() && #[trigger] moved(s0, t, b, from, to)
            && #[trigger] t[a].status == from implies older(s0, a, b) by {
        assert(a != i);
        assert(t[a] == before[a]);
        assert(before[a].start_time == s0[a].start_time);
        assert(before[b].start_time == s0[b].start_time);
        if b == i {
            assert(older(before, a, b));
        } else {
            assert(t[b] == before[b]);
            assert(moved(s0, before, b, from, to));
        }
    }
}

impl DownloadManager {
    /// Sets the status of download `i` and clears its error message.
    pub(crate) fn set_status_at(&mut self, i: usize, st: DownloadStatus)
        requires
            old(self).wf(),
            i < old(self).downloads@.len(),
        ensures
            final(self).wf(),
            final(self).downloads@ == old(self).downloads@.update(
                i as int,
                with_status(old(self).downloads@[i as int], st, None),
            ),
            final(self).activities == old(self).activities,
            final(self).partial_downloads == old(self).partial_downloads,
            final(self).download_directory == old(self).download_directory,
            final(self).auto_save_enabled == old(self).auto_save_enabled,
            final(self).state_version == old(self).state_version,
    {
        let mut item = self.downloads[i].duplicate();
        item.status = st;
        item.error_message = None;
        self.downloads.set(i, item);
        assert(ids_distinct(self.downloads@)) by {
            assert forall|a: int, b: int|
                0 <= a < self.downloads@.len() && 0 <= b < self.downloads@.len() && a
                    != b implies #[trigger] self.downloads@[a].id@ != #[trigger] self.downloads@[b].id@ by {
                assert(self.downloads@[a].id == old(self).downloads@[a].id);
                assert(self.downloads@[b].id == old(self).downloads@[b].id);
            }
        }
    }

    /// The oldest download with status `st`.
    fn oldest_with_status(&self, st: DownloadStatus) -> (r: Option<usize>)
        ensures
            match r {
                Some(i) => i < self.downloads@.len() && self.downloads@[i as int].status == st
                    && forall|j: int|
                    0 <= j < self.downloads@.len() && j != i && #[trigger] self.downloads@[j].status
                        == st ==> older(self.downloads@, i as int, j),
                None => forall|j: int|
                    0 <= j < self.downloads@.len() ==> #[trigger] self.downloads@[j].status != st,
            },
    {
        let mut best: Option<usize> = None;
        let mut i: usize = 0;
        while i < self.downloads.len()
            invariant
                i <= self.downloads.len(),
                match best {
                    Some(b) => b < i && self.downloads@[b as int].status == st && forall|j: int|
                        0 <= j < i && j != b && #[trigger] self.downloads@[j].status == st ==> older(
                            self.downloads@,
                            b as int,
                            j,
                        ),
                    None => forall|j: int| 0 <= j < i ==> #[trigger] self.downloads@[j].status != st,
                },
            decreases self.downloads.len() - i,
        {
            if self.downloads[i].status == st {
                match best {
                    Some(b) => {
                        if self.downloads[i].start_time < self.downloads[b].start_time {
                            best = Some(i);
                        }
                    },
                    None => {
                        best = Some(i);
                    },
                }
            }
            i = i + 1;
        }
        best
    }

    /// The newest download with status `st`.
    fn newest_with_status(&self, st: DownloadStatus) -> (r: Option<usize>)
        ensures
            match r {
                Some(i) => i < self.downloads@.len() && self.downloads@[i as int].status == st
                    && forall|j: int|
                    0 <= j < self.downloads@.len() && j != i && #[trigger] self.downloads@[j].status
                        == st ==> older(self.downloads@, j, i as int),
                None => forall|j: int|
                    0 <= j < self.downloads@.len() ==> #[trigger] self.downloads@[j].status != st,
            },
    {
        let mut best: Option<usize> = None;
        let mut i: usize = 0;
        while i < self.downloads.len()
            invariant
                i <= self.downloads.len(),
                match best {
                    Some(b) => b < i && self.downloads@[b as int].status == st && forall|j: int|
                        0 <= j < i && j != b && #[trigger] self.downloads@[j].status == st ==> older(
                            self.downloads@,
                            j,
                            b as int,
                        ),
                    None => forall|j: int| 0 <= j < i ==> #[trigger] self.downloads@[j].status != st,
                },
            decreases self.downloads.len() - i,
        {
            if self.downloads[i].status == st {
                match best {
                    Some(b) => {
                        if self.downloads[i].start_time >= self.downloads[b].start_time {
                            best = Some(i);
                        }
                    },
                    None => {
                        best = Some(i);
                    },
                }
            }
            i = i + 1;
        }
        best
    }

    /// Starts queued downloads, oldest first, until `max_downloads` are
    /// running or none is queued. Returns the ids it started; the caller
    /// runs their transfers.
    pub fn start_next_queued_download(&mut self, max_downloads: u32) -> (started: Vec<String>)
        requires
            old(self).wf(),
        ensures
            final(self).wf(),
            queue_filled(old(self).downloads@, final(self).downloads@, started@, max_downloads as nat),
            final(self).activities == old(self).activities,
            final(self).partial_downloads == old(self).partial_downloads,
            final(self).download_directory == old(self).download_directory,
            final(self).auto_save_enabled == old(self).auto_save_enabled,
            final(self).state_version == old(self).state_version,
    {
        self.move_by_age(DownloadStatus::Queued, DownloadStatus::Downloading, max_downloads, true)
    }

    /// Sends the newest running downloads back to the queue until at most
    /// `max_downloads` run. Returns their ids; the caller stops their
    /// transfers.
    pub fn enforce_download_limit(&mut self, max_downloads: u32) -> (queued: Vec<String>)
        requires
            old(self).wf(),
        ensures
            final(self).wf(),
            queue_trimmed(old(self).downloads@, final(self).downloads@, queued@, max_downloads as nat),
            final(self).activities == old(self).activities,
            final(self).partial_downloads == old(self).partial_downloads,
            final(self).download_directory == old(self).download_directory,
            final(self).auto_save_enabled == old(self).auto_save_enabled,
            final(self).state_version == old(self).state_version,
    {
        self.move_by_age(DownloadStatus::Downloading, DownloadStatus::Queued, max_downloads, false)
    }

    /// Moves downloads from `from` to `to`: when `fill`, the oldest ones
    /// until `max_downloads` have status `to` (or none has `from`); else the
    /// newest ones until at most `max_downloads` have status `from`.
    #[verifier::rlimit(60)]
    fn move_by_age(
        &mut self,
        from: DownloadStatus,
        to: DownloadStatus,
        max_downloads: u32,
        fill: bool,
    ) -> (ids: Vec<String>)
        requires
            old(self).wf(),
            from != to,
            fill ==> (from == DownloadStatus::Queued && to == DownloadStatus::Downloading),
            !fill ==> (from == DownloadStatus::Downloading && to == DownloadStatus::Queued),
        ensures
            final(self).wf(),
            only_moves(old(self).downloads@, final(self).downloads@, from, to),
            fill ==> ids@.len() == starts_allowed(old(self).downloads@, max_downloads as nat),
            !fill ==> ids@.len() == excess_running(old(self).downloads@, max_downloads as nat),
            count_status(final(self).downloads@, to) == count_status(old(self).downloads@, to)
                + ids@.len(),
            count_status(final(self).downloads@, from) + ids@.len() == count_status(
                old(self).downloads@,
                from,
            ),
            fill ==> forall|i: int, j: int|
                0 <= i < old(self).downloads@.len() && 0 <= j < old(self).downloads@.len()
                    && #[trigger] moved(old(self).downloads@, final(self).downloads@, i, from, to)
                    && #[trigger] final(self).downloads@[j].status == from ==> older(
                    old(self).downloads@,
                    i,
                    j,
                ),
            !fill ==> forall|i: int, j: int|
                0 <= i < old(self).downloads@.len() && 0 <= j < old(self).downloads@.len()
                    && #[trigger] moved(old(self).downloads@, final(self).downloads@, j, from, to)
                    && #[trigger] final(self).downloads@[i].status == from ==> older(
                    old(self).downloads@,
                    i,
                    j,
                ),
            ids_of_moved(ids@, old(self).downloads@, final(self).downloads@, from, to),
            final(self).activities == old(self).activities,
            final(self).partial_downloads == old(self).partial_downloads,
            final(self).download_directory == old(self).download_directory,
            final(self).auto_save_enabled == old(self).auto_save_enabled,
            final(self).state_version == old(self).state_version,
    {
        let ghost s0 = self.downloads@;
        let ghost a0 = self.activities;
        let ghost p0 = self.partial_downloads;
        let ghost d0 = self.download_directory;
        let ghost e0 = self.auto_save_enabled;
        let ghost v0 = self.state_version;
        let mut ids: Vec<String> = Vec::new();
        let mut running: u32 = self.count_downloading_only();
        let ghost goal: nat = if fill {
            starts_allowed(s0, max_downloads as nat)
        } else {
            excess_running(s0, max_downloads as nat)
        };
        proof {
            lemma_count_bound(s0, DownloadStatus::Downloading);
            lemma_count_bound(s0, DownloadStatus::Queued);
        }
        loop
            invariant
                self.wf(),
                only_moves(s0, self.downloads@, from, to),
                from != to,
                fill ==> (from == DownloadStatus::Queued && to == DownloadStatus::Downloading),
                !fill ==> (from == DownloadStatus::Downloading && to == DownloadStatus::Queued),
                goal == if fill {
                    starts_allowed(s0, max_downloads as nat)
                } else {
                    excess_running(s0, max_downloads as nat)
                },
                ids@.len() <= goal,
                running == count_status(self.downloads@, DownloadStatus::Downloading),
                count_status(self.downloads@, to) == count_status(s0, to) + ids@.len(),
                count_status(self.downloads@, from) + ids@.len() == count_status(s0, from),
                s0.len() < 0xffff_ffff,
                fill ==> forall|i: int, j: int|
                    0 <= i < s0.len() && 0 <= j < s0.len() && #[trigger] moved(s0, self.downloads@, i, from, to)
                        && #[trigger] self.downloads@[j].status == from ==> older(s0, i, j),
                !fill ==> forall|i: int, j: int|
                    0 <= i < s0.len() && 0 <= j < s0.len() && #[trigger] moved(s0, self.downloads@, j, from, to)
                        && #[trigger] self.downloads@[i].status == from ==> older(s0, i, j),
                ids_of_moved(ids@, s0, self.downloads@, from, to),
                self.activities == a0,
                self.partial_downloads == p0,
                self.download_directory == d0,
                self.auto_save_enabled == e0,
                self.state_version == v0,
            ensures
                ids@.len() == goal,
                self.wf(),
                only_moves(s0, self.downloads@, from, to),
                count_status(self.downloads@, to) == count_status(s0, to) + ids@.len(),
                count_status(self.downloads@, from) + ids@.len() == count_status(s0, from),
                fill ==> forall|i: int, j: int|
                    0 <= i < s0.len() && 0 <= j < s0.len() && #[trigger] moved(s0, self.downloads@, i, from, to)
                        && #[trigger] self.downloads@[j].status == from ==> older(s0, i, j),
                !fill ==> forall|i: int, j: int|
                    0 <= i < s0.len() && 0 <= j < s0.len() && #[trigger] moved(s0, self.downloads@, j, from, to)
                        && #[trigger] self.downloads@[i].status == from ==> older(s0, i, j),
                ids_of_moved(ids@, s0, self.downloads@, from, to),
                self.activities == a0,
                self.partial_downloads == p0,
                self.download_directory == d0,
                self.auto_save_enabled == e0,
                self.state_version == v0,
            decreases goal - ids@.len(),
        {
            let go = if fill {
                running < max_downloads
            } else {
                running > max_downloads
            };
            if !go {
                proof {
                    lemma_count_bound(self.downloads@, from);
                }
                break;
            }
            let pick = if fill {
                self.oldest_with_status(from)
            } else {
                self.newest_with_status(from)
            };
            let i = match pick {
                Some(i) => i,
                None => {
                    proof {
                        lemma_count_zero(self.downloads@, from);
                    }
                    break;
                },
            };
            let ghost before = self.downloads@;
            proof {
                lemma_count_update(before, i as int, with_status(before[i as int], to, None), to);
                lemma_count_update(before, i as int, with_status(before[i as int], to, None), from);
                lemma_count_update(
                    before,
                    i as int,
                    with_status(before[i as int], to, None),
                    DownloadStatus::Downloading,
                );
                lemma_count_bound(before, from);
            }
            let id = self.downloads[i].id.clone();
            let ghost old_ids = ids@;
            self.set_status_at(i, to);
            ids.push(id);
            if fill {
                running = running + 1;
            } else {
                running = running - 1;
            }
            proof {
                let t = self.downloads@;
                lemma_step_only_moves(s0, before, t, i as int, from, to);
                lemma_step_ids(s0, before, t, i as int, old_ids, ids@, from, to);
                if fill {
                    lemma_step_order_oldest(s0, before, t, i as int, from, to);
                } else {
                    lemma_step_order_newest(s0, before, t, i as int, from, to);
                }
            }
        }
        ids
    }
}

// ---------------------------------------------------------------------------
// Activity log
// ---------------------------------------------------------------------------

pub open spec fn is_lower_hex_digit(c: char) -> bool {
    ('0' <= c && c <= '9') || ('a' <= c && c <= 'f')
}

/// The shape of a version-4 UUID in hyphenated lowercase form.
pub open spec fn uuid_text_shape(s: Seq<char>) -> bool {
    &&& s.len() == 36
    &&& forall|i: int|
        0 <= i < 36 ==> if i == 8 || i == 13 || i == 18 || i == 23 {
            #[trigger] s[i] == '-'
        } else {
            is_lower_hex_digit(s[i])
        }
    &&& s[14] == '4'
}

/// `Uuid::new_v4().to_string()`: a fresh random UUID. Being random, only
/// its form is stated: the hyphenated lowercase text of a version-4 UUID.
#[verifier::external_body]
pub(crate) fn new_uuid_text() -> (r: String)
    ensures
        uuid_text_shape(r@),
{
    uuid::Uuid::new_v4().to_string()
}

/// `Utc::now().format("%Y-%m-%d %H:%M:%S").to_string()`: the current UTC
/// time as text. It depends on the clock, so only its shape is stated:
/// chrono writes the year zero-padded to four digits (with a sign outside
/// years 1 to 9999) and the other fields zero-padded to two.
#[verifier::external_body]
fn utc_timestamp_text() -> (r: String)
    ensures
        timestamp_shape(r@),
{
    chrono::Utc::now().format("%Y-%m-%d %H:%M:%S").to_string()
}

/// `a` is the entry the log gets for the given fields (its id is a fresh
/// UUID, its timestamp the time of the call as `YYYY-MM-DD HH:MM:SS`).
pub open spec fn entry_has(
    a: ActivityEntry,
    action_type: ActivityType,
    file_name: Option<Seq<char>>,
    identifier: Option<Seq<char>>,
    status: Option<Seq<char>>,
    details: Option<Seq<char>>,
) -> bool {
    &&& uuid_text_shape(a.id@)
    &&& timestamp_shape(a.timestamp@)
    &&& a.action_type == action_type
    &&& opt_view(a.file_name) == file_name
    &&& opt_view(a.identifier) == identifier
    &&& opt_view(a.status) == status
    &&& opt_view(a.details) == details
}

/// The text an optional string holds.
pub open spec fn opt_view(o: Option<String>) -> Option<Seq<char>> {
    match o {
        Some(s) => Some(s@),
        None => None,
    }
}

/// `t` is the log `s` with one entry for the given fields appended.
pub open spec fn logged(
    s: Seq<ActivityEntry>,
    t: Seq<ActivityEntry>,
    action_type: ActivityType,
    file_name: Option<Seq<char>>,
    identifier: Option<Seq<char>>,
    status: Option<Seq<char>>,
    details: Option<Seq<char>>,
) -> bool {
    &&& t.len() == s.len() + 1
    &&& t.drop_last() == s
    &&& entry_has(t.last(), action_type, file_name, identifier, status, details)
}

/// The word a status is written as.
pub open spec fn status_word(st: DownloadStatus) -> Seq<char> {
    match st {
        DownloadStatus::Completed => "completed"@,
        DownloadStatus::Error => "error"@,
        DownloadStatus::Cancelled => "cancelled"@,
        DownloadStatus::Paused => "paused"@,
        DownloadStatus::Downloading => "downloading"@,
        DownloadStatus::Queued => "queued"@,
    }
}

/// The kind of log entry a status change to `st` makes. A change to
/// `Downloading` is logged as a plain status change.
pub open spec fn status_activity(st: DownloadStatus) -> ActivityType {
    match st {
        DownloadStatus::Completed => ActivityType::DownloadCompleted,
        DownloadStatus::Error => ActivityType::DownloadError,
        DownloadStatus::Cancelled => ActivityType::DownloadCancelled,
        DownloadStatus::Paused => ActivityType::DownloadPaused,
        DownloadStatus::Queued => ActivityType::StatusChanged,
        DownloadStatus::Downloading => ActivityType::StatusChanged,
    }
}

/// The details text of a status change.
pub open spec fn status_details(st: DownloadStatus, err: Option<String>) -> Seq<char> {
    match err {
        Some(e) => "Status changed to "@ + status_word(st) + " - "@ + e@,
        None => "Status changed to "@ + status_word(st),
    }
}

/// A status after which a download does not continue.
pub open spec fn is_final_status(st: DownloadStatus) -> bool {
    st == DownloadStatus::Completed || st == DownloadStatus::Error || st
        == DownloadStatus::Cancelled
}

/// Every status in which a download neither runs nor waits is final: a
/// change to completed, failed (`Error`) or cancelled stamps the end time,
/// drops the partial-download record and frees the slot for the queue,
/// while a change to running, paused or queued does none of that.
pub proof fn lemma_final_statuses(st: DownloadStatus)
    ensures
        is_final_status(st) <==> (st != DownloadStatus::Downloading && st != DownloadStatus::Paused
            && st != DownloadStatus::Queued),
{
}

fn status_word_text(st: DownloadStatus) -> (r: String)
    ensures
        r@ == status_word(st),
{
    let mut r = String::new();
    match st {
        DownloadStatus::Completed => push_str(&mut r, "completed"),
        DownloadStatus::Error => push_str(&mut r, "error"),
        DownloadStatus::Cancelled => push_str(&mut r, "cancelled"),
        DownloadStatus::Paused => push_str(&mut r, "paused"),
        DownloadStatus::Downloading => push_str(&mut r, "downloading"),
        DownloadStatus::Queued => push_str(&mut r, "queued"),
    }
    r
}

pub(crate) fn text_of(s: &str) -> (r: String)
    ensures
        r@ == s@,
{
    let mut r = String::new();
    push_str(&mut r, s);
    r
}

impl DownloadManager {
    /// Appends an entry to the activity log.
    pub fn add_activity(
        &mut self,
        action_type: ActivityType,
        file_name: Option<String>,
        identifier: Option<String>,
        status: Option<String>,
        details: Option<String>,
    )
        requires
            old(self).wf(),
        ensures
            final(self).wf(),
            logged(
                old(self).activities@,
                final(self).activities@,
                action_type,
                opt_view(file_name),
                opt_view(identifier),
                opt_view(status),
                opt_view(details),
            ),
            final(self).downloads == old(self).downloads,
            final(self).partial_downloads == old(self).partial_downloads,
            final(self).download_directory == old(self).download_directory,
            final(self).auto_save_enabled == old(self).auto_save_enabled,
            final(self).state_version == old(self).state_version,
    {
        let entry = ActivityEntry {
            id: new_uuid_text(),
            timestamp: utc_timestamp_text(),
            action_type,
            file_name,
            identifier,
            status,
            details,
        };
        self.activities.push(entry);
        assert(self.activities@.drop_last() =~= old(self).activities@);
    }

    /// Empties the activity log.
    pub fn clear_activities(&mut self)
        requires
            old(self).wf(),
        ensures
            final(self).wf(),
            final(self).activities@.len() == 0,
            final(self).downloads == old(self).downloads,
            final(self).partial_downloads == old(self).partial_downloads,
            final(self).download_directory == old(self).download_directory,
            final(self).auto_save_enabled == old(self).auto_save_enabled,
            final(self).state_version == old(self).state_version,
    {
        self.activities.clear();
    }

    /// The activity log, newest entry first.
    pub fn get_activities(&self) -> (r: Vec<ActivityEntry>)
        ensures
            r@ == self.activities@.reverse(),
    {
        let mut r: Vec<ActivityEntry> = Vec::new();
        let n = self.activities.len();
        let mut i: usize = 0;
        while i < n
            invariant
                n == self.activities@.len(),
                i <= n,
                r@ == self.activities@.subrange(n - i, n as int).reverse(),
            decreases n - i,
        {
            r.push(self.activities[n - 1 - i].duplicate());
            i = i + 1;
            assert(r@ =~= self.activities@.subrange(n - i, n as int).reverse());
        }
        assert(self.activities@.subrange(0, n as int) =~= self.activities@);
        r
    }

    /// Logs a user action: the details, or the action itself when there
    /// are none.
    pub fn add_user_interaction_activity(&mut self, action: String, details: Option<String>)
        requires
            old(self).wf(),
        ensures
            final(self).wf(),
            logged(
                old(self).activities@,
                final(self).activities@,
                ActivityType::UserInteraction,
                None,
                None,
                None,
                Some(
                    match details {
                        Some(d) => d@,
                        None => action@,
                    },
                ),
            ),
            final(self).downloads == old(self).downloads,
            final(self).partial_downloads == old(self).partial_downloads,
    {
        let text = match details {
            Some(d) => d,
            None => action,
        };
        self.add_activity(ActivityType::UserInteraction, None, None, None, Some(text));
    }

    /// Drops the partial-download record of `id`, if there is one.
    fn remove_partial(&mut self, id: &String)
        requires
            old(self).wf(),
        ensures
            final(self).wf(),
            final(self).partial_downloads@ == match find_partial_id(
                old(self).partial_downloads@,
                id@,
            ) {
                Some(i) => old(self).partial_downloads@.remove(i),
                None => old(self).partial_downloads@,
            },
            final(self).downloads == old(self).downloads,
            final(self).activities == old(self).activities,
            final(self).download_directory == old(self).download_directory,
            final(self).auto_save_enabled == old(self).auto_save_enabled,
            final(self).state_version == old(self).state_version,
    {
        match self.find_partial(id) {
            Some(i) => {
                proof {
                    lemma_find_partial_id(old(self).partial_downloads@, id@, i as int);
                }
                self.partial_downloads.remove(i);
                assert(partial_ids_distinct(self.partial_downloads@)) by {
                    let o = old(self).partial_downloads@;
                    assert forall|a: int, b: int|
                        0 <= a < self.partial_downloads@.len() && 0 <= b
                            < self.partial_downloads@.len() && a != b implies #[trigger] self.partial_downloads@[a].id@
                        != #[trigger] self.partial_downloads@[b].id@ by {
                        let a0 = if a < i {
                            a
                        } else {
                            a + 1
                        };
                        let b0 = if b < i {
                            b
                        } else {
                            b + 1
                        };
                        assert(self.partial_downloads@[a] == o[a0]);
                        assert(self.partial_downloads@[b] == o[b0]);
                    }
                }
            },
            None => {},
        }
    }

    /// Changes the status of download `id` (if there is one) and logs the
    /// change. A final status (completed, error, cancelled) also stamps the
    /// end time `now`, drops the partial-download record and starts queued
    /// downloads into the freed slot, whose ids are returned.
    pub fn set_download_status(
        &mut self,
        id: &String,
        status: DownloadStatus,
        error_message: Option<String>,
        now: u64,
        max_downloads: u32,
    ) -> (started: Vec<String>)
        requires
            old(self).wf(),
        ensures
            final(self).wf(),
            match find_id(old(self).downloads@, id@) {
                None => {
                    &&& final(self).downloads == old(self).downloads
                    &&& final(self).activities == old(self).activities
                    &&& final(self).partial_downloads == old(self).partial_downloads
                    &&& started@.len() == 0
                },
                Some(i) => {
                    let item = with_status(old(self).downloads@[i], status, error_message);
                    &&& logged(
                        old(self).activities@,
                        final(self).activities@,
                        status_activity(status),
                        Some(old(self).downloads@[i].file_name@),
                        Some(id@),
                        Some(status_word(status)),
                        Some(status_details(status, error_message)),
                    )
                    &&& if is_final_status(status) {
                        &&& queue_filled(
                            old(self).downloads@.update(
                                i,
                                DownloadItem { end_time: Some(now), ..item },
                            ),
                            final(self).downloads@,
                            started@,
                            max_downloads as nat,
                        )
                        &&& final(self).partial_downloads@ == match find_partial_id(
                            old(self).partial_downloads@,
                            id@,
                        ) {
                            Some(k) => old(self).partial_downloads@.remove(k),
                            None => old(self).partial_downloads@,
                        }
                    } else {
                        &&& final(self).downloads@ == old(self).downloads@.update(i, item)
                        &&& final(self).partial_downloads == old(self).partial_downloads
                        &&& started@.len() == 0
                    }
                },
            },
            final(self).download_directory == old(self).download_directory,
            final(self).auto_save_enabled == old(self).auto_save_enabled,
            final(self).state_version == old(self).state_version,
    {
        let i = match self.find(id) {
            Some(i) => i,
            None => {
                return Vec::new();
            },
        };
        let mut item = self.downloads[i].duplicate();
        item.status = status;
        let details = {
            let mut d = String::new();
            push_str(&mut d, "Status changed to ");
            let w = status_word_text(status);
            push_str(&mut d, w.as_str());
            match &error_message {
                Some(e) => {
                    push_str(&mut d, " - ");
                    push_str(&mut d, e.as_str());
                },
                None => {},
            }
            d
        };
        item.error_message = error_message;
        let file_name = item.file_name.clone();
        let is_final = status == DownloadStatus::Completed || status == DownloadStatus::Error
            || status == DownloadStatus::Cancelled;
        if is_final {
            item.end_time = Some(now);
        }
        self.downloads.set(i, item);
        assert(ids_distinct(self.downloads@)) by {
            assert forall|a: int, b: int|
                0 <= a < self.downloads@.len() && 0 <= b < self.downloads@.len() && a
                    != b implies #[trigger] self.downloads@[a].id@ != #[trigger] self.downloads@[b].id@ by {
                assert(self.downloads@[a].id == old(self).downloads@[a].id);
                assert(self.downloads@[b].id == old(self).downloads@[b].id);
            }
        }
        let activity = match status {
            DownloadStatus::Completed => ActivityType::DownloadCompleted,
            DownloadStatus::Error => ActivityType::DownloadError,
            DownloadStatus::Cancelled => ActivityType::DownloadCancelled,
            DownloadStatus::Paused => ActivityType::DownloadPaused,
            DownloadStatus::Queued => ActivityType::StatusChanged,
            DownloadStatus::Downloading => ActivityType::StatusChanged,
        };
        let word = status_word_text(status);
        self.add_activity(activity, Some(file_name), Some(id.clone()), Some(word), Some(details));
        if is_final {
            self.remove_partial(id);
            self.start_next_queued_download(max_downloads)
        } else {
            Vec::new()
        }
    }
}

// ---------------------------------------------------------------------------
// Progress and partial-download records
// ---------------------------------------------------------------------------

/// A download that is running or paused, whose partial file is worth
/// keeping a record of.
pub open spec fn is_active_status(st: DownloadStatus) -> bool {
    st == DownloadStatus::Downloading || st == DownloadStatus::Paused
}

/// The record kept for resuming `d` with the given sizes.
pub open spec fn partial_record(d: DownloadItem, downloaded: u64, total: u64) -> PartialDownloadInfo {
    PartialDownloadInfo {
        id: d.id,
        url: d.url,
        file_path: d.file_path,
        downloaded_size: downloaded,
        total_size: total,
        last_modified: None,
        etag: None,
        resume_supported: true,
        checksum: None,
    }
}

/// `s` with `r` in place of the record with the same id, or with `r`
/// appended if there is none.
pub open spec fn upsert_partial(s: Seq<PartialDownloadInfo>, r: PartialDownloadInfo) -> Seq<
    PartialDownloadInfo,
> {
    match find_partial_id(s, r.id@) {
        Some(k) => s.update(k, r),
        None => s.push(r),
    }
}

/// Seconds left at `speed` bytes per second, 0 when unknown.
pub open spec fn remaining_time(downloaded: u64, total: u64, speed: u64) -> u64 {
    if speed > 0 && total > downloaded {
        ((total - downloaded) / (speed as int)) as u64
    } else {
        0
    }
}

/// `d` with new progress figures.
pub open spec fn with_progress(d: DownloadItem, downloaded: u64, total: u64, speed: u64) -> DownloadItem {
    DownloadItem {
        downloaded_size: downloaded,
        total_size: total,
        speed: speed,
        time_remaining: remaining_time(downloaded, total, speed),
        ..d
    }
}

/// The partial-download records after `save_state` refreshed them from the
/// downloads `s`, in order.
pub open spec fn refreshed_partials(p: Seq<PartialDownloadInfo>, s: Seq<DownloadItem>) -> Seq<
    PartialDownloadInfo,
>
    decreases s.len(),
{
    if s.len() == 0 {
        p
    } else {
        let q = refreshed_partials(p, s.drop_last());
        let d = s.last();
        if is_active_status(d.status) {
            upsert_partial(q, partial_record(d, d.downloaded_size, d.total_size))
        } else {
            q
        }
    }
}

fn partial_record_of(d: &DownloadItem, downloaded: u64, total: u64) -> (r: PartialDownloadInfo)
    ensures
        r == partial_record(*d, downloaded, total),
{
    PartialDownloadInfo {
        id: d.id.clone(),
        url: d.url.clone(),
        file_path: d.file_path.clone(),
        downloaded_size: downloaded,
        total_size: total,
        last_modified: None,
        etag: None,
        resume_supported: true,
        checksum: None,
    }
}

/// What `resume_download` decided.
pub enum ResumeAction {
    /// Nothing to resume (unknown, or not paused).
    Unchanged,
    /// No free slot: the download was queued.
    Queued,
    /// The download is running again: its transfer is to be started.
    Start { url: String, file_path: String },
}

impl DownloadManager {
    fn upsert_partial_record(&mut self, r: PartialDownloadInfo)
        requires
            old(self).wf(),
        ensures
            final(self).wf(),
            final(self).partial_downloads@ == upsert_partial(old(self).partial_downloads@, r),
            final(self).downloads == old(self).downloads,
            final(self).activities == old(self).activities,
            final(self).download_directory == old(self).download_directory,
            final(self).auto_save_enabled == old(self).auto_save_enabled,
            final(self).state_version == old(self).state_version,
    {
        let ghost o = self.partial_downloads@;
        match self.find_partial(&r.id) {
            Some(k) => {
                self.partial_downloads.set(k, r);
                assert(partial_ids_distinct(self.partial_downloads@)) by {
                    assert forall|a: int, b: int|
                        0 <= a < self.partial_downloads@.len() && 0 <= b
                            < self.partial_downloads@.len() && a != b implies #[trigger] self.partial_downloads@[a].id@
                        != #[trigger] self.partial_downloads@[b].id@ by {
                        if a != k {
                            assert(self.partial_downloads@[a] == o[a]);
                        }
                        if b != k {
                            assert(self.partial_downloads@[b] == o[b]);
                        }
                    }
                }
            },
            None => {
                self.partial_downloads.push(r);
                assert(partial_ids_distinct(self.partial_downloads@)) by {
                    assert forall|a: int, b: int|
                        0 <= a < self.partial_downloads@.len() && 0 <= b
                            < self.partial_downloads@.len() && a != b implies #[trigger] self.partial_downloads@[a].id@
                        != #[trigger] self.partial_downloads@[b].id@ by {
                        if a < o.len() {
                            assert(self.partial_downloads@[a] == o[a]);
                        }
                        if b < o.len() {
                            assert(self.partial_downloads@[b] == o[b]);
                        }
                    }
                }
            },
        }
    }

    /// Records the sizes of download `id` for resuming, if it is running
    /// or paused.
    pub fn update_partial_download_info(&mut self, id: &String, downloaded: u64, total: u64)
        requires
            old(self).wf(),
        ensures
            final(self).wf(),
            final(self).partial_downloads@ == match find_id(old(self).downloads@, id@) {
                Some(i) => if is_active_status(old(self).downloads@[i].status) {
                    upsert_partial(
                        old(self).partial_downloads@,
                        partial_record(old(self).downloads@[i], downloaded, total),
                    )
                } else {
                    old(self).partial_downloads@
                },
                None => old(self).partial_downloads@,
            },
            final(self).downloads == old(self).downloads,
            final(self).activities == old(self).activities,
            final(self).download_directory == old(self).download_directory,
            final(self).auto_save_enabled == old(self).auto_save_enabled,
            final(self).state_version == old(self).state_version,
    {
        match self.find(id) {
            Some(i) => {
                let st = self.downloads[i].status;
                if st == DownloadStatus::Downloading || st == DownloadStatus::Paused {
                    let r = partial_record_of(&self.downloads[i], downloaded, total);
                    self.upsert_partial_record(r);
                }
            },
            None => {},
        }
    }

    /// Refreshes the partial-download record of every running or paused
    /// download from its current sizes (done on every save).
    pub fn refresh_partial_downloads(&mut self)
        requires
            old(self).wf(),
        ensures
            final(self).wf(),
            final(self).partial_downloads@ == refreshed_partials(
                old(self).partial_downloads@,
                old(self).downloads@,
            ),
            final(self).downloads == old(self).downloads,
            final(self).activities == old(self).activities,
            final(self).download_directory == old(self).download_directory,
            final(self).auto_save_enabled == old(self).auto_save_enabled,
            final(self).state_version == old(self).state_version,
    {
        let ghost p0 = self.partial_downloads@;
        let mut i: usize = 0;
        while i < self.downloads.len()
            invariant
                self.wf(),
                i <= self.downloads.len(),
                self.downloads == old(self).downloads,
                self.activities == old(self).activities,
                self.download_directory == old(self).download_directory,
                self.auto_save_enabled == old(self).auto_save_enabled,
                self.state_version == old(self).state_version,
                p0 == old(self).partial_downloads@,
                self.partial_downloads@ == refreshed_partials(
                    p0,
                    self.downloads@.subrange(0, i as int),
                ),
            decreases self.downloads.len() - i,
        {
            assert(self.downloads@.subrange(0, i + 1).drop_last() =~= self.downloads@.subrange(
                0,
                i as int,
            ));
            let st = self.downloads[i].status;
            if st == DownloadStatus::Downloading || st == DownloadStatus::Paused {
                let d = &self.downloads[i];
                let r = partial_record_of(d, d.downloaded_size, d.total_size);
                self.upsert_partial_record(r);
            }
            i = i + 1;
        }
        assert(self.downloads@.subrange(0, self.downloads@.len() as int) =~= self.downloads@);
    }

    /// Sets the sizes and speed of download `id` (and the remaining time
    /// they give), and refreshes its partial-download record.
    pub fn update_download_progress(&mut self, id: &String, downloaded: u64, total: u64, speed: u64)
        requires
            old(self).wf(),
        ensures
            final(self).wf(),
            match find_id(old(self).downloads@, id@) {
                Some(i) => {
                    &&& final(self).downloads@ == old(self).downloads@.update(
                        i,
                        with_progress(old(self).downloads@[i], downloaded, total, speed),
                    )
                    &&& final(self).partial_downloads@ == if is_active_status(
                        old(self).downloads@[i].status,
                    ) {
                        upsert_partial(
                            old(self).partial_downloads@,
                            partial_record(old(self).downloads@[i], downloaded, total),
                        )
                    } else {
                        old(self).partial_downloads@
                    }
                },
                None => {
                    &&& final(self).downloads == old(self).downloads
                    &&& final(self).partial_downloads == old(self).partial_downloads
                },
            },
            final(self).activities == old(self).activities,
            final(self).download_directory == old(self).download_directory,
            final(self).auto_save_enabled == old(self).auto_save_enabled,
            final(self).state_version == old(self).state_version,
    {
        let i = match self.find(id) {
            Some(i) => i,
            None => {
                return ;
            },
        };
        let mut item = self.downloads[i].duplicate();
        item.downloaded_size = downloaded;
        item.total_size = total;
        item.speed = speed;
        item.time_remaining = if speed > 0 && total > downloaded {
            (total - downloaded) / speed
        } else {
            0
        };
        self.downloads.set(i, item);
        assert(ids_distinct(self.downloads@)) by {
            assert forall|a: int, b: int|
                0 <= a < self.downloads@.len() && 0 <= b < self.downloads@.len() && a
                    != b implies #[trigger] self.downloads@[a].id@ != #[trigger] self.downloads@[b].id@ by {
                assert(self.downloads@[a].id == old(self).downloads@[a].id);
                assert(self.downloads@[b].id == old(self).downloads@[b].id);
            }
        }
        proof {
            lemma_find_id(self.downloads@, id@, i as int);
        }
        self.update_partial_download_info(id, downloaded, total);
    }

    /// Replaces download `i` by `x`, which keeps its id.
    pub(crate) fn replace_at(&mut self, i: usize, x: DownloadItem)
        requires
            old(self).wf(),
            i < old(self).downloads@.len(),
            x.id@ == old(self).downloads@[i as int].id@,
        ensures
            final(self).wf(),
            final(self).downloads@ == old(self).downloads@.update(i as int, x),
            final(self).activities == old(self).activities,
            final(self).partial_downloads == old(self).partial_downloads,
            final(self).download_directory == old(self).download_directory,
            final(self).auto_save_enabled == old(self).auto_save_enabled,
            final(self).state_version == old(self).state_version,
    {
        self.downloads.set(i, x);
        assert(ids_distinct(self.downloads@)) by {
            assert forall|a: int, b: int|
                0 <= a < self.downloads@.len() && 0 <= b < self.downloads@.len() && a
                    != b implies #[trigger] self.downloads@[a].id@ != #[trigger] self.downloads@[b].id@ by {
                assert(self.downloads@[a].id@ == old(self).downloads@[a].id@);
                assert(self.downloads@[b].id@ == old(self).downloads@[b].id@);
            }
        }
    }

    /// Pauses running download `id` at the user's request, and starts
    /// queued downloads into the freed slot (their ids are returned). A
    /// download that is not running is refused; an unknown id is ignored.
    pub fn pause_download(&mut self, id: &String, max_downloads: u32) -> (r: Result<Vec<String>, String>)
        requires
            old(self).wf(),
        ensures
            final(self).wf(),
            match find_id(old(self).downloads@, id@) {
                None => {
                    &&& r matches Ok(v) && v@.len() == 0
                    &&& final(self).downloads == old(self).downloads
                },
                Some(i) => if old(self).downloads@[i].status != DownloadStatus::Downloading {
                    &&& r matches Err(e) && e@ == "Download is not active"@
                    &&& final(self).downloads == old(self).downloads
                } else {
                    r matches Ok(started) && queue_filled(
                        old(self).downloads@.update(
                            i,
                            DownloadItem {
                                user_paused: true,
                                status: DownloadStatus::Paused,
                                error_message: None,
                                ..old(self).downloads@[i]
                            },
                        ),
                        final(self).downloads@,
                        started@,
                        max_downloads as nat,
                    )
                },
            },
            final(self).activities == old(self).activities,
            final(self).partial_downloads == old(self).partial_downloads,
            final(self).download_directory == old(self).download_directory,
            final(self).auto_save_enabled == old(self).auto_save_enabled,
            final(self).state_version == old(self).state_version,
    {
        let i = match self.find(id) {
            Some(i) => i,
            None => {
                return Ok(Vec::new());
            },
        };
        if self.downloads[i].status != DownloadStatus::Downloading {
            return Err(text_of("Download is not active"));
        }
        let mut item = self.downloads[i].duplicate();
        item.user_paused = true;
        item.status = DownloadStatus::Paused;
        item.error_message = None;
        self.replace_at(i, item);
        let started = self.start_next_queued_download(max_downloads);
        Ok(started)
    }

    /// Resumes paused download `id`: queued when `max_downloads` already
    /// run, else marked running (and no longer user-paused) with its URL and
    /// path handed back for the transfer.
    pub fn resume_download(&mut self, id: &String, max_downloads: u32) -> (r: ResumeAction)
        requires
            old(self).wf(),
        ensures
            final(self).wf(),
            match find_id(old(self).downloads@, id@) {
                Some(i) if old(self).downloads@[i].status == DownloadStatus::Paused => if count_status(
                    old(self).downloads@,
                    DownloadStatus::Downloading,
                ) >= max_downloads {
                    &&& r is Queued
                    &&& final(self).downloads@ == old(self).downloads@.update(
                        i,
                        with_status(old(self).downloads@[i], DownloadStatus::Queued, None),
                    )
                } else {
                    &&& r matches ResumeAction::Start { url, file_path } && url == old(
                        self,
                    ).downloads@[i].url && file_path == old(self).downloads@[i].file_path
                    &&& final(self).downloads@ == old(self).downloads@.update(
                        i,
                        DownloadItem {
                            user_paused: false,
                            status: DownloadStatus::Downloading,
                            error_message: None,
                            ..old(self).downloads@[i]
                        },
                    )
                },
                _ => {
                    &&& r is Unchanged
                    &&& final(self).downloads == old(self).downloads
                },
            },
            count_status(old(self).downloads@, DownloadStatus::Downloading) <= max_downloads
                ==> count_status(final(self).downloads@, DownloadStatus::Downloading) <= max_downloads,
            final(self).activities == old(self).activities,
            final(self).partial_downloads == old(self).partial_downloads,
            final(self).download_directory == old(self).download_directory,
            final(self).auto_save_enabled == old(self).auto_save_enabled,
            final(self).state_version == old(self).state_version,
    {
        let i = match self.find(id) {
            Some(i) => i,
            None => {
                return ResumeAction::Unchanged;
            },
        };
        if self.downloads[i].status != DownloadStatus::Paused {
            return ResumeAction::Unchanged;
        }
        let running = self.count_downloading_only();
        let ghost s0 = self.downloads@;
        if running >= max_downloads {
            self.set_status_at(i, DownloadStatus::Queued);
            proof {
                lemma_count_update(
                    s0,
                    i as int,
                    with_status(s0[i as int], DownloadStatus::Queued, None),
                    DownloadStatus::Downloading,
                );
            }
            return ResumeAction::Queued;
        }
        let url = self.downloads[i].url.clone();
        let file_path = self.downloads[i].file_path.clone();
        let mut item = self.downloads[i].duplicate();
        item.user_paused = false;
        item.status = DownloadStatus::Downloading;
        item.error_message = None;
        let ghost it = item;
        self.replace_at(i, item);
        proof {
            lemma_count_update(s0, i as int, it, DownloadStatus::Downloading);
        }
        ResumeAction::Start { url, file_path }
    }

    /// Restarts failed or cancelled download `id` from the beginning:
    /// running again with no progress, its URL and path handed back for the
    /// transfer. Other downloads are left alone.
    pub fn restart_download(&mut self, id: &String) -> (r: Option<(String, String)>)
        requires
            old(self).wf(),
        ensures
            final(self).wf(),
            match find_id(old(self).downloads@, id@) {
                Some(i) if old(self).downloads@[i].status == DownloadStatus::Error || old(
                    self,
                ).downloads@[i].status == DownloadStatus::Cancelled => {
                    let d = old(self).downloads@[i];
                    let running = with_status(d, DownloadStatus::Downloading, None);
                    &&& r == Some((d.url, d.file_path))
                    &&& final(self).downloads@ == old(self).downloads@.update(
                        i,
                        with_progress(running, 0, d.total_size, 0),
                    )
                    &&& final(self).partial_downloads@ == upsert_partial(
                        old(self).partial_downloads@,
                        partial_record(running, 0, d.total_size),
                    )
                },
                _ => {
                    &&& r is None
                    &&& final(self).downloads == old(self).downloads
                    &&& final(self).partial_downloads == old(self).partial_downloads
                },
            },
            final(self).activities == old(self).activities,
            final(self).download_directory == old(self).download_directory,
            final(self).auto_save_enabled == old(self).auto_save_enabled,
            final(self).state_version == old(self).state_version,
    {
        let i = match self.find(id) {
            Some(i) => i,
            None => {
                return None;
            },
        };
        let st = self.downloads[i].status;
        if !(st == DownloadStatus::Error || st == DownloadStatus::Cancelled) {
            return None;
        }
        let total = self.downloads[i].total_size;
        let url = self.downloads[i].url.clone();
        let file_path = self.downloads[i].file_path.clone();
        self.set_status_at(i, DownloadStatus::Downloading);
        proof {
            lemma_find_id(self.downloads@, id@, i as int);
        }
        self.update_download_progress(id, 0, total, 0);
        Some((url, file_path))
    }

    /// Removes download `id` for good (its file is to be deleted), logging
    /// it when it has a file name. Returns its path, empty when unknown.
    pub fn cancel_and_delete_download(&mut self, id: &String) -> (r: String)
        requires
            old(self).wf(),
        ensures
            final(self).wf(),
            match find_id(old(self).downloads@, id@) {
                Some(i) => {
                    let d = old(self).downloads@[i];
                    &&& r == d.file_path
                    &&& final(self).downloads@ == old(self).downloads@.remove(i)
                    &&& if d.file_name@.len() > 0 {
                        logged(
                            old(self).activities@,
                            final(self).activities@,
                            ActivityType::DownloadCancelled,
                            Some(d.file_name@),
                            Some(id@),
                            Some("deleted"@),
                            Some("Download cancelled and file deleted"@),
                        )
                    } else {
                        final(self).activities == old(self).activities
                    }
                },
                None => {
                    &&& r@.len() == 0
                    &&& final(self).downloads == old(self).downloads
                    &&& final(self).activities == old(self).activities
                },
            },
            final(self).partial_downloads == old(self).partial_downloads,
            final(self).download_directory == old(self).download_directory,
            final(self).auto_save_enabled == old(self).auto_save_enabled,
            final(self).state_version == old(self).state_version,
    {
        let i = match self.find(id) {
            Some(i) => i,
            None => {
                return String::new();
            },
        };
        let file_path = self.downloads[i].file_path.clone();
        let file_name = self.downloads[i].file_name.clone();
        if file_name.unicode_len() > 0 {
            self.add_activity(
                ActivityType::DownloadCancelled,
                Some(file_name),
                Some(id.clone()),
                Some(text_of("deleted")),
                Some(text_of("Download cancelled and file deleted")),
            );
        }
        let ghost before = self.downloads@;
        self.downloads.remove(i);
        assert(ids_distinct(self.downloads@)) by {
            assert forall|a: int, b: int|
                0 <= a < self.downloads@.len() && 0 <= b < self.downloads@.len() && a
                    != b implies #[trigger] self.downloads@[a].id@ != #[trigger] self.downloads@[b].id@ by {
                let a0 = if a < i {
                    a
                } else {
                    a + 1
                };
                let b0 = if b < i {
                    b
                } else {
                    b + 1
                };
                assert(self.downloads@[a] == before[a0]);
                assert(self.downloads@[b] == before[b0]);
            }
        }
        file_path
    }
}

} // verus!
