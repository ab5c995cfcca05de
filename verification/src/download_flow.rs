//! Commands of the download manager built on the queue: cancelling,
//! adding, recovering interrupted downloads after a restart, statistics,
//! clearing finished downloads, restoring saved state and reacting to a
//! new limit on simultaneous downloads.
use vstd::prelude::*;
use crate::text::{
    chars_of, contains_seq, decimal, push_decimal, push_str, string_from_chars, trim_end_char,
    trim_end_char_vec, trim_white, trim_white_vec,
};
use crate::utils::{final_piece, name_extension, path_extension, path_file_name, plain_path};
use crate::download::{
    count_status, entry_has, find_id, find_partial_id, ids_distinct, lemma_count_bound,
    logged, new_uuid_text, uuid_text_shape, only_moves, queue_filled, queue_trimmed, starts_allowed,
    status_details, status_word, text_of, with_status, ActivityType, DownloadItem, DownloadManager,
    DownloadStats, DownloadStatus, ActivityEntry,
};

verus! {

// ---------------------------------------------------------------------------
// Laws of the queue
// ---------------------------------------------------------------------------

/// Moving downloads out of status `from` lowers its count, and leaves the
/// table unchanged when the count stays the same.
pub proof fn lemma_only_moves_count(
    t: Seq<DownloadItem>,
    u: Seq<DownloadItem>,
    from: DownloadStatus,
    to: DownloadStatus,
)
    requires
        only_moves(t, u, from, to),
        from != to,
    ensures
        count_status(u, from) <= count_status(t, from),
        count_status(u, from) == count_status(t, from) ==> u == t,
    decreases t.len(),
{
    if t.len() == 0 {
        assert(u =~= t);
    } else {
        let t0 = t.drop_last();
        let u0 = u.drop_last();
        assert(only_moves(t0, u0, from, to)) by {
            assert forall|i: int| 0 <= i < t0.len() implies (#[trigger] u0[i] == t0[i] || (
            t0[i].status == from && u0[i] == with_status(t0[i], to, None))) by {
                assert(u0[i] == u[i] && t0[i] == t[i]);
            }
        }
        lemma_only_moves_count(t0, u0, from, to);
        let k = t.len() - 1;
        assert(u[k] == t[k] || (t[k].status == from && u[k] == with_status(t[k], to, None)));
        if count_status(u, from) == count_status(t, from) {
            assert(u[k] == t[k]);
            assert forall|i: int| 0 <= i < t.len() implies #[trigger] u[i] == t[i] by {
                if i < k {
                    assert(u0[i] == u[i] && t0[i] == t[i]);
                }
            }
            assert(u =~= t);
        }
    }
}

/// Filling the queue a second time starts nothing: after
/// `start_next_queued_download` either the limit is reached or nothing
/// is queued.
pub proof fn lemma_fill_twice(
    s: Seq<DownloadItem>,
    t: Seq<DownloadItem>,
    u: Seq<DownloadItem>,
    first: Seq<String>,
    second: Seq<String>,
    max_downloads: nat,
)
    requires
        queue_filled(s, t, first, max_downloads),
        queue_filled(t, u, second, max_downloads),
    ensures
        second.len() == 0,
        u == t,
{
    assert(starts_allowed(t, max_downloads) == 0);
    lemma_only_moves_count(t, u, DownloadStatus::Queued, DownloadStatus::Downloading);
}

/// After filling, the limit is reached or no download is left queued.
pub proof fn lemma_fill_saturates(
    s: Seq<DownloadItem>,
    t: Seq<DownloadItem>,
    started: Seq<String>,
    max_downloads: nat,
)
    requires
        queue_filled(s, t, started, max_downloads),
    ensures
        count_status(t, DownloadStatus::Downloading) >= max_downloads || count_status(
            t,
            DownloadStatus::Queued,
        ) == 0,
        count_status(s, DownloadStatus::Downloading) <= max_downloads ==> count_status(
            t,
            DownloadStatus::Downloading,
        ) <= max_downloads,
{
}

/// After trimming, at most `max_downloads` downloads run.
pub proof fn lemma_trim_bounds(
    s: Seq<DownloadItem>,
    t: Seq<DownloadItem>,
    queued: Seq<String>,
    max_downloads: nat,
)
    requires
        queue_trimmed(s, t, queued, max_downloads),
    ensures
        count_status(t, DownloadStatus::Downloading) <= max_downloads,
        count_status(s, DownloadStatus::Downloading) <= max_downloads ==> t == s,
{
    lemma_only_moves_count(s, t, DownloadStatus::Downloading, DownloadStatus::Queued);
}

/// A download removed from the table is no longer found.
pub proof fn lemma_removed_is_gone(s: Seq<DownloadItem>, id: Seq<char>)
    requires
        ids_distinct(s),
        find_id(s, id) is Some,
    ensures
        find_id(s.remove(find_id(s, id)->0), id) is None,
{
    let i = find_id(s, id)->0;
    let t = s.remove(i);
    if exists|k: int| 0 <= k < t.len() && #[trigger] t[k].id@ == id {
        let k = choose|k: int| 0 <= k < t.len() && #[trigger] t[k].id@ == id;
        let k0 = if k < i {
            k
        } else {
            k + 1
        };
        assert(t[k] == s[k0]);
        assert(s[i].id@ == id);
    }
}

// ---------------------------------------------------------------------------
// Cancelling and the limit
// ---------------------------------------------------------------------------

/// What a change of the download limit did to the queue.
pub enum QueueChange {
    /// The limit went down: these running downloads were sent back to the
    /// queue, and their transfers are to be stopped.
    Trimmed(Vec<String>),
    /// The limit went up: these queued downloads were started.
    Filled(Vec<String>),
    /// The limit did not change.
    Unchanged,
}

/// `max_downloads` is an accepted limit on simultaneous downloads.
pub open spec fn valid_max_downloads(max_downloads: u32) -> bool {
    1 <= max_downloads <= 64
}

/// Checks a new limit on simultaneous downloads: from 1 to 64.
pub fn validate_max_simultaneous_downloads(max_downloads: u32) -> (r: Result<(), String>)
    ensures
        valid_max_downloads(max_downloads) <==> r is Ok,
        r matches Err(e) ==> e@ == "Max simultaneous downloads must be between 1 and 64"@,
{
    if max_downloads < 1 || max_downloads > 64 {
        return Err(text_of("Max simultaneous downloads must be between 1 and 64"));
    }
    Ok(())
}

/// Whether the state is due to be saved: auto-save is on and at least 30
/// seconds passed since the last save (or that time cannot be told).
pub fn should_auto_save(auto_save_enabled: bool, seconds_since_save: Option<u64>) -> (r: bool)
    ensures
        r == (auto_save_enabled && match seconds_since_save {
            Some(s) => s >= 30,
            None => true,
        }),
{
    if !auto_save_enabled {
        return false;
    }
    match seconds_since_save {
        Some(s) => s >= 30,
        None => true,
    }
}

/// Applies a new limit on simultaneous downloads: a lower one sends the
/// newest running downloads back to the queue, a higher one starts queued
/// downloads.
pub fn trigger_queue_management_on_settings_change(
    manager: &mut DownloadManager,
    max_downloads: u32,
    old_limit: u32,
) -> (r: QueueChange)
    requires
        old(manager).wf(),
    ensures
        final(manager).wf(),
        if max_downloads < old_limit {
            r matches QueueChange::Trimmed(q) && queue_trimmed(
                old(manager).downloads@,
                final(manager).downloads@,
                q@,
                max_downloads as nat,
            )
        } else if max_downloads > old_limit {
            r matches QueueChange::Filled(q) && queue_filled(
                old(manager).downloads@,
                final(manager).downloads@,
                q@,
                max_downloads as nat,
            )
        } else {
            r is Unchanged && final(manager).downloads == old(manager).downloads
        },
        final(manager).activities == old(manager).activities,
        final(manager).partial_downloads == old(manager).partial_downloads,
{
    if max_downloads < old_limit {
        QueueChange::Trimmed(manager.enforce_download_limit(max_downloads))
    } else if max_downloads > old_limit {
        QueueChange::Filled(manager.start_next_queued_download(max_downloads))
    } else {
        QueueChange::Unchanged
    }
}

impl DownloadManager {
    /// Cancels download `id`: its status becomes cancelled (logged, end time
    /// `now`, partial record dropped) and queued downloads start into a
    /// freed slot; their ids are returned. A second pass over the queue, made
    /// when the download was running, starts nothing more.
    pub fn cancel_download(&mut self, id: &String, now: u64, max_downloads: u32) -> (started: Vec<
        String,
    >)
        requires
            old(self).wf(),
        ensures
            final(self).wf(),
            match find_id(old(self).downloads@, id@) {
                None => {
                    &&& final(self).downloads == old(self).downloads
                    &&& final(self).activities == old(self).activities
                    &&& final(self).partial_downloads == old(self).partial_downloads
                    &&& started@.len() == 0
                },
                Some(i) => {
                    let item = with_status(old(self).downloads@[i], DownloadStatus::Cancelled, None);
                    &&& logged(
                        old(self).activities@,
                        final(self).activities@,
                        ActivityType::DownloadCancelled,
                        Some(old(self).downloads@[i].file_name@),
                        Some(id@),
                        Some(status_word(DownloadStatus::Cancelled)),
                        Some(status_details(DownloadStatus::Cancelled, None)),
                    )
                    &&& queue_filled(
                        old(self).downloads@.update(i, DownloadItem { end_time: Some(now), ..item }),
                        final(self).downloads@,
                        started@,
                        max_downloads as nat,
                    )
                    &&& final(self).partial_downloads@ == match find_partial_id(
                        old(self).partial_downloads@,
                        id@,
                    ) {
                        Some(k) => old(self).partial_downloads@.remove(k),
                        None => old(self).partial_downloads@,
                    }
                },
            },
            final(self).download_directory == old(self).download_directory,
            final(self).auto_save_enabled == old(self).auto_save_enabled,
            final(self).state_version == old(self).state_version,
    {
        let was_downloading = match self.find(id) {
            Some(i) => self.downloads[i].status == DownloadStatus::Downloading,
            None => false,
        };
        let started = self.set_download_status(id, DownloadStatus::Cancelled, None, now, max_downloads);
        if was_downloading {
            let ghost mid = self.downloads@;
            let ghost mid_self = *self;
            let more = self.start_next_queued_download(max_downloads);
            proof {
                let i = find_id(old(self).downloads@, id@).unwrap();
                let item = with_status(old(self).downloads@[i], DownloadStatus::Cancelled, None);
                lemma_fill_twice(
                    old(self).downloads@.update(i, DownloadItem { end_time: Some(now), ..item }),
                    mid,
                    self.downloads@,
                    started@,
                    more@,
                    max_downloads as nat,
                );
            }
        }
        started
    }
}

// ---------------------------------------------------------------------------
// Recovery after a restart
// ---------------------------------------------------------------------------

/// A download that was running when the program stopped, part way through.
pub open spec fn is_interrupted(d: DownloadItem) -> bool {
    d.status == DownloadStatus::Downloading && 0 < d.downloaded_size && d.downloaded_size
        < d.total_size
}

/// A paused download that the user did not pause.
pub open spec fn is_auto_resumable(d: DownloadItem) -> bool {
    d.status == DownloadStatus::Paused && !d.user_paused
}

pub open spec fn interrupted_pred() -> spec_fn(DownloadItem) -> bool {
    |d: DownloadItem| is_interrupted(d)
}

pub open spec fn auto_resumable_pred() -> spec_fn(DownloadItem) -> bool {
    |d: DownloadItem| is_auto_resumable(d)
}

/// An interrupted download is paused, to be resumed automatically.
pub open spec fn after_interruption(d: DownloadItem) -> DownloadItem {
    if is_interrupted(d) {
        DownloadItem {
            user_paused: false,
            status: DownloadStatus::Paused,
            error_message: None,
            ..d
        }
    } else {
        d
    }
}

/// The log entry for a detected interruption of `d`.
pub open spec fn interruption_logged(a: ActivityEntry, d: DownloadItem) -> bool {
    entry_has(
        a,
        ActivityType::StatusChanged,
        Some(d.file_name@),
        Some(d.id@),
        Some("paused"@),
        Some("Download was interrupted and will be auto-resumed."@),
    )
}

/// After recovery no download is left interrupted.
pub proof fn lemma_recovered_not_interrupted(s: Seq<DownloadItem>)
    ensures
        forall|i: int| 0 <= i < s.len() ==> !is_interrupted(#[trigger] after_interruption(s[i])),
        forall|i: int|
            0 <= i < s.len() ==> s.map_values(|d: DownloadItem| after_interruption(d))[i]
                == after_interruption(s[i]),
{
}

/// What a filter keeps comes from the sequence filtered.
proof fn lemma_filter_from(s: Seq<DownloadItem>, p: spec_fn(DownloadItem) -> bool, k: int)
    requires
        0 <= k < s.filter(p).len(),
    ensures
        s.contains(s.filter(p)[k]),
    decreases s.len(),
{
    reveal(Seq::filter);
    if s.len() > 0 {
        let sub = s.drop_last().filter(p);
        if p(s.last()) && k == sub.len() {
            assert(s.filter(p)[k] == s[s.len() - 1]);
        } else {
            assert(s.filter(p)[k] == sub[k]);
            lemma_filter_from(s.drop_last(), p, k);
            let j = choose|j: int| 0 <= j < s.drop_last().len() && s.drop_last()[j] == sub[k];
            assert(s[j] == sub[k]);
        }
    }
}

/// Recovery never hands back a download that the user paused: each
/// download whose id it returns (the interrupted ones, then the paused
/// ones, as `resume_interrupted_downloads` orders them) is in the table and
/// was either running part way through when the program stopped, or is
/// paused without the user having paused it. Every download that is paused
/// without the user having paused it is among them.
pub proof fn lemma_recovery_skips_user_paused(s: Seq<DownloadItem>)
    ensures
        forall|k: int|
            0 <= k < s.filter(interrupted_pred()).len() + s.filter(auto_resumable_pred()).len()
                ==> {
                let d = #[trigger] (s.filter(interrupted_pred()) + s.filter(
                    auto_resumable_pred(),
                ))[k];
                &&& s.contains(d)
                &&& (d.status == DownloadStatus::Downloading && 0 < d.downloaded_size
                    && d.downloaded_size < d.total_size) || (d.status == DownloadStatus::Paused
                    && !d.user_paused)
            },
        forall|i: int|
            0 <= i < s.len() && s[i].status == DownloadStatus::Paused && !s[i].user_paused
                ==> s.filter(auto_resumable_pred()).contains(#[trigger] s[i]),
{
    let a = s.filter(interrupted_pred());
    let b = s.filter(auto_resumable_pred());
    s.filter_lemma(interrupted_pred());
    s.filter_lemma(auto_resumable_pred());
    assert forall|k: int| 0 <= k < a.len() + b.len() implies {
        let d = #[trigger] (a + b)[k];
        &&& s.contains(d)
        &&& (d.status == DownloadStatus::Downloading && 0 < d.downloaded_size && d.downloaded_size
            < d.total_size) || (d.status == DownloadStatus::Paused && !d.user_paused)
    } by {
        if k < a.len() {
            assert((a + b)[k] == a[k]);
            assert(interrupted_pred()(a[k]));
            lemma_filter_from(s, interrupted_pred(), k);
        } else {
            assert((a + b)[k] == b[k - a.len()]);
            assert(auto_resumable_pred()(b[k - a.len()]));
            lemma_filter_from(s, auto_resumable_pred(), k - a.len());
        }
    }
    assert forall|i: int|
        0 <= i < s.len() && s[i].status == DownloadStatus::Paused && !s[i].user_paused implies b.contains(
        #[trigger] s[i],
    ) by {
        assert(auto_resumable_pred()(s[i]));
        s.lemma_filter_contains(auto_resumable_pred(), i);
    }
}

impl DownloadManager {
    /// After a restart: pauses the downloads that were interrupted while
    /// running (logging each), so that they can be resumed. Returns the ids
    /// of the interrupted downloads, then those of the paused downloads that
    /// the user did not pause, each group in table order.
    #[verifier::rlimit(40)]
    pub fn resume_interrupted_downloads(&mut self) -> (r: Vec<String>)
        requires
            old(self).wf(),
        ensures
            final(self).wf(),
            ({
                let s = old(self).downloads@;
                let a = s.filter(interrupted_pred());
                let b = s.filter(auto_resumable_pred());
                let n0 = old(self).activities@.len();
                &&& r@.len() == a.len() + b.len()
                &&& forall|k: int| 0 <= k < a.len() ==> #[trigger] r@[k]@ == a[k].id@
                &&& forall|k: int| 0 <= k < b.len() ==> #[trigger] r@[a.len() + k]@ == b[k].id@
                &&& final(self).downloads@ == s.map_values(|d: DownloadItem| after_interruption(d))
                &&& final(self).activities@.len() == n0 + a.len()
                &&& final(self).activities@.subrange(0, n0 as int) == old(self).activities@
                &&& forall|k: int|
                    0 <= k < a.len() ==> interruption_logged(
                        #[trigger] final(self).activities@[n0 + k],
                        a[k],
                    )
            }),
            final(self).partial_downloads == old(self).partial_downloads,
            final(self).download_directory == old(self).download_directory,
            final(self).auto_save_enabled == old(self).auto_save_enabled,
            final(self).state_version == old(self).state_version,
    {
        let ghost s = self.downloads@;
        let ghost acts0 = self.activities@;
        let ghost n0 = acts0.len();
        let ghost ip = interrupted_pred();
        let ghost bp = auto_resumable_pred();
        let mut ra: Vec<String> = Vec::new();
        let mut rb: Vec<String> = Vec::new();
        let n = self.downloads.len();
        let mut i: usize = 0;
        while i < n
            invariant
                self.wf(),
                n == s.len(),
                i <= n,
                self.downloads@.len() == n,
                forall|j: int| 0 <= j < i ==> #[trigger] self.downloads@[j] == after_interruption(s[j]),
                forall|j: int| i <= j < n ==> #[trigger] self.downloads@[j] == s[j],
                ra@.len() == s.subrange(0, i as int).filter(ip).len(),
                forall|k: int| 0 <= k < ra@.len() ==> #[trigger] ra@[k]@ == s.subrange(0, i as int).filter(ip)[k].id@,
                rb@.len() == s.subrange(0, i as int).filter(bp).len(),
                forall|k: int| 0 <= k < rb@.len() ==> #[trigger] rb@[k]@ == s.subrange(0, i as int).filter(bp)[k].id@,
                self.activities@.len() == n0 + ra@.len(),
                self.activities@.subrange(0, n0 as int) == acts0,
                forall|k: int|
                    0 <= k < ra@.len() ==> interruption_logged(
                        #[trigger] self.activities@[n0 + k],
                        s.subrange(0, i as int).filter(ip)[k],
                    ),
                ip == interrupted_pred(),
                bp == auto_resumable_pred(),
                self.partial_downloads == old(self).partial_downloads,
                self.download_directory == old(self).download_directory,
                self.auto_save_enabled == old(self).auto_save_enabled,
                self.state_version == old(self).state_version,
            decreases n - i,
        {
            let ghost pre = s.subrange(0, i as int);
            proof {
                assert(s.subrange(0, i + 1) =~= pre.push(s[i as int]));
                pre.lemma_filter_push(s[i as int], ip);
                pre.lemma_filter_push(s[i as int], bp);
            }
            let d = self.downloads[i].duplicate();
            if d.status == DownloadStatus::Downloading && d.downloaded_size > 0 && d.downloaded_size
                < d.total_size {
                let fixed = DownloadItem {
                    user_paused: false,
                    status: DownloadStatus::Paused,
                    error_message: None,
                    ..d.duplicate()
                };
                self.replace_at(i, fixed);
                let ghost acts_before = self.activities@;
                self.add_activity(
                    ActivityType::StatusChanged,
                    Some(d.file_name.clone()),
                    Some(d.id.clone()),
                    Some(text_of("paused")),
                    Some(text_of("Download was interrupted and will be auto-resumed.")),
                );
                ra.push(d.id.clone());
                proof {
                    assert(self.activities@.subrange(0, n0 as int) =~= acts0) by {
                        assert forall|k: int| 0 <= k < n0 implies self.activities@[k] == acts0[k] by {
                            assert(self.activities@[k] == acts_before[k]);
                            assert(acts_before.subrange(0, n0 as int)[k] == acts_before[k]);
                        }
                    }
                    assert forall|k: int| 0 <= k < ra@.len() implies interruption_logged(
                        #[trigger] self.activities@[n0 + k],
                        s.subrange(0, i + 1).filter(ip)[k],
                    ) by {
                        if k < ra@.len() - 1 {
                            assert(self.activities@[n0 + k] == acts_before[n0 + k]);
                        }
                    }
                }
            } else if d.status == DownloadStatus::Paused && !d.user_paused {
                rb.push(d.id.clone());
            }
            i = i + 1;
        }
        proof {
            assert(s.subrange(0, n as int) =~= s);
            assert(self.downloads@ =~= s.map_values(|d: DownloadItem| after_interruption(d)));
        }
        let ghost la = ra@;
        let ghost lb = rb@;
        ra.append(&mut rb);
        proof {
            assert forall|k: int| 0 <= k < lb.len() implies #[trigger] ra@[la.len() + k]@ == s.filter(
                bp,
            )[k].id@ by {
                assert(ra@[la.len() + k] == lb[k]);
            }
        }
        ra
    }
}

// ---------------------------------------------------------------------------
// Statistics and clearing
// ---------------------------------------------------------------------------

/// Total bytes downloaded over all downloads.
pub open spec fn sum_downloaded(s: Seq<DownloadItem>) -> nat
    decreases s.len(),
{
    if s.len() == 0 {
        0
    } else {
        sum_downloaded(s.drop_last()) + (s.last().downloaded_size as nat)
    }
}

/// Total speed of the running downloads.
pub open spec fn sum_running_speed(s: Seq<DownloadItem>) -> nat
    decreases s.len(),
{
    if s.len() == 0 {
        0
    } else {
        sum_running_speed(s.drop_last()) + if s.last().status == DownloadStatus::Downloading {
            s.last().speed as nat
        } else {
            0nat
        }
    }
}

proof fn lemma_sums_prefix(s: Seq<DownloadItem>, k: int)
    requires
        0 <= k <= s.len(),
    ensures
        sum_downloaded(s.subrange(0, k)) <= sum_downloaded(s),
        sum_running_speed(s.subrange(0, k)) <= sum_running_speed(s),
    decreases s.len(),
{
    if k == s.len() {
        assert(s.subrange(0, k) =~= s);
    } else {
        lemma_sums_prefix(s.drop_last(), k);
        assert(s.drop_last().subrange(0, k) =~= s.subrange(0, k));
    }
}

/// Two different statuses count at most all downloads.
pub proof fn lemma_count_two(s: Seq<DownloadItem>, a: DownloadStatus, b: DownloadStatus)
    requires
        a != b,
    ensures
        count_status(s, a) + count_status(s, b) <= s.len(),
    decreases s.len(),
{
    if s.len() > 0 {
        lemma_count_two(s.drop_last(), a, b);
    }
}

/// Keeps the downloads for which `keep` holds.
pub open spec fn not_completed_pred() -> spec_fn(DownloadItem) -> bool {
    |d: DownloadItem| d.status != DownloadStatus::Completed
}

/// After clearing, no completed download is left.
pub proof fn lemma_cleared_has_no_completed(s: Seq<DownloadItem>)
    ensures
        count_status(s.filter(not_completed_pred()), DownloadStatus::Completed) == 0,
{
    let t = s.filter(not_completed_pred());
    assert forall|i: int| 0 <= i < t.len() implies #[trigger] t[i].status != DownloadStatus::Completed by {
        s.lemma_filter_pred(not_completed_pred(), i);
    }
    crate::download::lemma_count_zero(t, DownloadStatus::Completed);
}

impl DownloadManager {
    /// Counts of all, active (running or paused) and completed downloads,
    /// the bytes downloaded over all of them, and the mean speed of the
    /// running ones (0 when none runs).
    pub fn get_stats(&self) -> (r: DownloadStats)
        requires
            self.wf(),
            sum_downloaded(self.downloads@) <= u64::MAX,
            sum_running_speed(self.downloads@) <= u64::MAX,
        ensures
            r.total_downloads == self.downloads@.len(),
            r.active_downloads == count_status(self.downloads@, DownloadStatus::Downloading)
                + count_status(self.downloads@, DownloadStatus::Paused),
            r.completed_downloads == count_status(self.downloads@, DownloadStatus::Completed),
            r.total_downloaded_size == sum_downloaded(self.downloads@),
            r.average_speed == if count_status(self.downloads@, DownloadStatus::Downloading) > 0 {
                sum_running_speed(self.downloads@) / count_status(
                    self.downloads@,
                    DownloadStatus::Downloading,
                )
            } else {
                0
            },
    {
        let ghost s = self.downloads@;
        let mut bytes: u64 = 0;
        let mut speeds: u64 = 0;
        let mut i: usize = 0;
        while i < self.downloads.len()
            invariant
                self.downloads@ == s,
                i <= s.len(),
                bytes == sum_downloaded(s.subrange(0, i as int)),
                speeds == sum_running_speed(s.subrange(0, i as int)),
                sum_downloaded(s) <= u64::MAX,
                sum_running_speed(s) <= u64::MAX,
            decreases s.len() - i,
        {
            proof {
                assert(s.subrange(0, i + 1).drop_last() =~= s.subrange(0, i as int));
                lemma_sums_prefix(s, i + 1);
            }
            bytes = bytes + self.downloads[i].downloaded_size;
            if self.downloads[i].status == DownloadStatus::Downloading {
                speeds = speeds + self.downloads[i].speed;
            }
            i = i + 1;
        }
        proof {
            assert(s.subrange(0, s.len() as int) =~= s);
            lemma_count_two(s, DownloadStatus::Downloading, DownloadStatus::Paused);
            lemma_count_bound(s, DownloadStatus::Completed);
        }
        let running = self.count_with_status(DownloadStatus::Downloading);
        let paused = self.count_with_status(DownloadStatus::Paused);
        let completed = self.count_with_status(DownloadStatus::Completed);
        let total = self.downloads.len() as u32;
        DownloadStats {
            total_downloads: total,
            active_downloads: running + paused,
            completed_downloads: completed,
            total_downloaded_size: bytes,
            average_speed: if running > 0 {
                speeds / (running as u64)
            } else {
                0
            },
        }
    }

    /// Drops the completed downloads, keeping the others in order.
    pub fn clear_completed_downloads(&mut self)
        requires
            old(self).wf(),
        ensures
            final(self).wf(),
            final(self).downloads@ == old(self).downloads@.filter(not_completed_pred()),
            final(self).activities == old(self).activities,
            final(self).partial_downloads == old(self).partial_downloads,
            final(self).download_directory == old(self).download_directory,
            final(self).auto_save_enabled == old(self).auto_save_enabled,
            final(self).state_version == old(self).state_version,
    {
        let ghost s = self.downloads@;
        let ghost p = not_completed_pred();
        let mut kept: Vec<DownloadItem> = Vec::new();
        let mut i: usize = 0;
        while i < self.downloads.len()
            invariant
                self.downloads@ == s,
                ids_distinct(s),
                i <= s.len(),
                p == not_completed_pred(),
                kept@ == s.subrange(0, i as int).filter(p),
                ids_distinct(kept@),
                forall|k: int, j: int|
                    0 <= k < kept@.len() && i <= j < s.len() ==> #[trigger] kept@[k].id@
                        != #[trigger] s[j].id@,
            decreases s.len() - i,
        {
            proof {
                assert(s.subrange(0, i + 1) =~= s.subrange(0, i as int).push(s[i as int]));
                s.subrange(0, i as int).lemma_filter_push(s[i as int], p);
            }
            if self.downloads[i].status != DownloadStatus::Completed {
                let ghost before = kept@;
                kept.push(self.downloads[i].duplicate());
                proof {
                    assert forall|k: int, j: int|
                        0 <= k < kept@.len() && i + 1 <= j < s.len() implies #[trigger] kept@[k].id@
                        != #[trigger] s[j].id@ by {
                        if k < before.len() {
                            assert(kept@[k] == before[k]);
                        }
                    }
                    assert forall|a: int, b: int|
                        0 <= a < kept@.len() && 0 <= b < kept@.len() && a != b implies #[trigger] kept@[a].id@
                        != #[trigger] kept@[b].id@ by {
                        if a < before.len() && b < before.len() {
                            assert(kept@[a] == before[a] && kept@[b] == before[b]);
                        } else if a < before.len() {
                            assert(kept@[a] == before[a]);
                        } else if b < before.len() {
                            assert(kept@[b] == before[b]);
                        }
                    }
                }
            }
            i = i + 1;
        }
        proof {
            assert(s.subrange(0, s.len() as int) =~= s);
            s.lemma_filter_len(p);
        }
        self.downloads = kept;
    }
}

// ---------------------------------------------------------------------------
// Adding downloads and restoring saved state
// ---------------------------------------------------------------------------

/// The table `s` with `d` in it: it replaces the download with the same
/// id, or is appended.
pub open spec fn upsert_download(s: Seq<DownloadItem>, d: DownloadItem) -> Seq<DownloadItem> {
    match find_id(s, d.id@) {
        Some(j) => s.update(j, d),
        None => s.push(d),
    }
}

/// The table `s` with each of `items` put in, in order.
pub open spec fn upsert_all(s: Seq<DownloadItem>, items: Seq<DownloadItem>) -> Seq<DownloadItem>
    decreases items.len(),
{
    if items.len() == 0 {
        s
    } else {
        upsert_download(upsert_all(s, items.drop_last()), items.last())
    }
}

/// Restoring a saved table whose ids are distinct gives back the same
/// table.
pub proof fn lemma_restore_saved(s: Seq<DownloadItem>)
    requires
        ids_distinct(s),
    ensures
        upsert_all(Seq::empty(), s) == s,
    decreases s.len(),
{
    if s.len() > 0 {
        let t = s.drop_last();
        assert(ids_distinct(t)) by {
            assert forall|a: int, b: int|
                0 <= a < t.len() && 0 <= b < t.len() && a != b implies #[trigger] t[a].id@
                != #[trigger] t[b].id@ by {
                assert(t[a] == s[a] && t[b] == s[b]);
            }
        }
        lemma_restore_saved(t);
        if exists|i: int| 0 <= i < t.len() && #[trigger] t[i].id@ == s.last().id@ {
            let i = choose|i: int| 0 <= i < t.len() && #[trigger] t[i].id@ == s.last().id@;
            assert(t[i] == s[i]);
            assert(s[s.len() - 1] == s.last());
        }
        assert(t.push(s.last()) =~= s);
    }
}

/// A URL as it is stored: without surrounding white space, then without
/// trailing commas, then without trailing semicolons.
pub open spec fn clean_url(url: Seq<char>) -> Seq<char> {
    trim_end_char(trim_end_char(trim_white(url), ','), ';')
}

/// The file name a download gets: the one given, else the last component
/// of its path (for a `plain_path`, the part after its last `/`), else
/// `download`.
pub open spec fn chosen_file_name(given: Option<String>, path: Seq<char>, name: Seq<char>) -> bool {
    match given {
        Some(g) => name == g@,
        None => if plain_path(path) {
            name == final_piece(path)
        } else {
            name == "download"@ || (name.len() > 0 && contains_seq(path, name) && forall|i: int|
                0 <= i < name.len() ==> name[i] != '/')
        },
    }
}

/// The extension a download is shown with: empty, or a dot and text with
/// no dot in it, as it occurs in the path; empty when the path has no dot.
/// For a `plain_path` it is the dot and the extension of its file name, or
/// empty when that name has none.
pub open spec fn shown_extension(e: Seq<char>, path: Seq<char>) -> bool {
    &&& e.len() == 0 || (e[0] == '.' && (forall|i: int| 1 <= i < e.len() ==> e[i] != '.')
        && contains_seq(path, e))
    &&& (forall|i: int| 0 <= i < path.len() ==> path[i] != '.') ==> e.len() == 0
    &&& plain_path(path) ==> e == match name_extension(final_piece(path)) {
        Some(x) => seq!['.'] + x,
        None => Seq::<char>::empty(),
    }
}

/// `d` is a download just added with the given fields.
pub open spec fn new_download(
    d: DownloadItem,
    url: Seq<char>,
    file_path: Seq<char>,
    file_name: Option<String>,
    status: DownloadStatus,
    now: u64,
) -> bool {
    &&& uuid_text_shape(d.id@)
    &&& chosen_file_name(file_name, file_path, d.file_name@)
    &&& shown_extension(d.file_extension@, file_path)
    &&& d.total_size == 0
    &&& d.downloaded_size == 0
    &&& d.speed == 0
    &&& d.status == status
    &&& d.time_remaining == 0
    &&& d.url@ == clean_url(url)
    &&& d.file_path@ == file_path
    &&& d.start_time == now
    &&& d.end_time is None
    &&& d.error_message is None
    &&& !d.user_paused
}

/// Stores a URL in its cleaned form.
pub fn cleaned_url(url: &str) -> (r: String)
    ensures
        r@ == clean_url(url@),
{
    let cs = chars_of(url);
    let a = trim_white_vec(&cs);
    let b = trim_end_char_vec(&a, ',');
    let c = trim_end_char_vec(&b, ';');
    string_from_chars(&c)
}

impl DownloadManager {
    /// Puts `d` in the table, replacing the download with the same id.
    pub fn upsert_download(&mut self, d: DownloadItem)
        requires
            old(self).wf(),
            old(self).downloads@.len() + 1 < 0xffff_ffff,
        ensures
            final(self).wf(),
            final(self).downloads@ == upsert_download(old(self).downloads@, d),
            final(self).activities == old(self).activities,
            final(self).partial_downloads == old(self).partial_downloads,
            final(self).download_directory == old(self).download_directory,
            final(self).auto_save_enabled == old(self).auto_save_enabled,
            final(self).state_version == old(self).state_version,
    {
        match self.find(&d.id) {
            Some(j) => {
                self.replace_at(j, d);
            },
            None => {
                let ghost before = self.downloads@;
                self.downloads.push(d);
                assert(ids_distinct(self.downloads@)) by {
                    assert forall|a: int, b: int|
                        0 <= a < self.downloads@.len() && 0 <= b < self.downloads@.len() && a
                            != b implies #[trigger] self.downloads@[a].id@
                        != #[trigger] self.downloads@[b].id@ by {
                        if a < before.len() {
                            assert(self.downloads@[a] == before[a]);
                        }
                        if b < before.len() {
                            assert(self.downloads@[b] == before[b]);
                        }
                    }
                }
            },
        }
    }

    /// Applies a saved state: its downloads are put in the table (a later
    /// one replacing an earlier one with the same id), and its download
    /// directory and version are taken over.
    pub fn restore_state(&mut self, downloads: Vec<DownloadItem>, directory: String, version: u32)
        requires
            old(self).wf(),
            downloads@.len() + 1 < 0xffff_ffff,
        ensures
            final(self).wf(),
            final(self).downloads@ == upsert_all(Seq::empty(), downloads@),
            final(self).download_directory == directory,
            final(self).state_version == version,
            final(self).activities == old(self).activities,
            final(self).partial_downloads == old(self).partial_downloads,
            final(self).auto_save_enabled == old(self).auto_save_enabled,
    {
        self.downloads = Vec::new();
        let mut i: usize = 0;
        while i < downloads.len()
            invariant
                self.wf(),
                i <= downloads@.len(),
                downloads@.len() + 1 < 0xffff_ffff,
                self.downloads@ == upsert_all(Seq::empty(), downloads@.subrange(0, i as int)),
                self.downloads@.len() <= i,
                self.activities == old(self).activities,
                self.partial_downloads == old(self).partial_downloads,
                self.auto_save_enabled == old(self).auto_save_enabled,
                self.download_directory == old(self).download_directory,
                self.state_version == old(self).state_version,
            decreases downloads@.len() - i,
        {
            proof {
                assert(downloads@.subrange(0, i + 1).drop_last() =~= downloads@.subrange(0, i as int));
            }
            self.upsert_download(downloads[i].duplicate());
            i = i + 1;
        }
        assert(downloads@.subrange(0, downloads@.len() as int) =~= downloads@);
        self.download_directory = directory;
        self.state_version = version;
    }

    /// Adds a download of `url` to `file_path`, started at `now`: running
    /// when fewer than `max_downloads` run, else queued. Logs the addition
    /// and the start or queueing, and returns the new download's id.
    #[verifier::rlimit(40)]
    pub fn add_download(
        &mut self,
        url: &str,
        file_path: String,
        file_name: Option<String>,
        max_downloads: u32,
        now: u64,
    ) -> (id: String)
        requires
            old(self).wf(),
            old(self).downloads@.len() + 1 < 0xffff_ffff,
        ensures
            final(self).wf(),
            ({
                let status = if count_status(old(self).downloads@, DownloadStatus::Downloading)
                    >= max_downloads {
                    DownloadStatus::Queued
                } else {
                    DownloadStatus::Downloading
                };
                exists|d: DownloadItem|
                    #![trigger upsert_download(old(self).downloads@, d)]
                    {
                        &&& d.id@ == id@
                        &&& new_download(d, url@, file_path@, file_name, status, now)
                        &&& final(self).downloads@ == upsert_download(old(self).downloads@, d)
                        &&& final(self).activities@.len() == old(self).activities@.len() + 2
                        &&& final(self).activities@.subrange(0, old(self).activities@.len() as int)
                            == old(self).activities@
                        &&& entry_has(
                            final(self).activities@[old(self).activities@.len() as int],
                            ActivityType::FileAdded,
                            Some(d.file_name@),
                            Some(id@),
                            None,
                            Some("Added download from URL: "@ + clean_url(url@)),
                        )
                        &&& if status == DownloadStatus::Downloading {
                            entry_has(
                                final(self).activities@.last(),
                                ActivityType::DownloadStarted,
                                Some(d.file_name@),
                                Some(id@),
                                Some("downloading"@),
                                Some("Download started for file: "@ + file_path@),
                            )
                        } else {
                            entry_has(
                                final(self).activities@.last(),
                                ActivityType::StatusChanged,
                                Some(d.file_name@),
                                Some(id@),
                                Some("queued"@),
                                Some(
                                    "Download queued (max "@ + decimal(max_downloads as nat)
                                        + " simultaneous downloads reached): "@ + file_path@,
                                ),
                            )
                        }
                    }
            }),
            uuid_text_shape(id@),
            count_status(old(self).downloads@, DownloadStatus::Downloading) <= max_downloads
                ==> count_status(final(self).downloads@, DownloadStatus::Downloading) <= max_downloads,
            final(self).partial_downloads == old(self).partial_downloads,
            final(self).download_directory == old(self).download_directory,
            final(self).auto_save_enabled == old(self).auto_save_enabled,
            final(self).state_version == old(self).state_version,
    {
        let id = new_uuid_text();
        let url_in = url;
        let url = cleaned_url(url);
        let name = match file_name {
            Some(n) => n,
            None => match path_file_name(file_path.as_str()) {
                Some(n) => n,
                None => text_of("download"),
            },
        };
        let extension = match path_extension(file_path.as_str()) {
            Some(e) => {
                let mut x = String::new();
                push_str(&mut x, ".");
                push_str(&mut x, e.as_str());
                proof {
                    reveal_strlit(".");
                    assert(x@ == "."@ + e@);
                    assert(x@ =~= seq!['.'] + e@);
                    assert forall|i: int| 1 <= i < x@.len() implies x@[i] != '.' by {
                        assert(x@[i] == e@[i - 1]);
                    }
                }
                x
            },
            None => String::new(),
        };
        let running = self.count_downloading_only();
        let status = if running >= max_downloads {
            DownloadStatus::Queued
        } else {
            DownloadStatus::Downloading
        };
        let mut added = String::new();
        push_str(&mut added, "Added download from URL: ");
        push_str(&mut added, url.as_str());
        let d = DownloadItem {
            id: id.clone(),
            file_name: name.clone(),
            file_extension: extension,
            total_size: 0,
            downloaded_size: 0,
            speed: 0,
            status,
            time_remaining: 0,
            url,
            file_path: file_path.clone(),
            start_time: now,
            end_time: None,
            error_message: None,
            user_paused: false,
        };
        let ghost acts0 = self.activities@;
        self.add_activity(
            ActivityType::FileAdded,
            Some(name.clone()),
            Some(id.clone()),
            None,
            Some(added),
        );
        let ghost acts1 = self.activities@;
        if status == DownloadStatus::Downloading {
            let mut details = String::new();
            push_str(&mut details, "Download started for file: ");
            push_str(&mut details, file_path.as_str());
            self.add_activity(
                ActivityType::DownloadStarted,
                Some(name),
                Some(id.clone()),
                Some(text_of("downloading")),
                Some(details),
            );
        } else {
            let mut details = String::new();
            push_str(&mut details, "Download queued (max ");
            push_decimal(&mut details, max_downloads as u64);
            push_str(&mut details, " simultaneous downloads reached): ");
            push_str(&mut details, file_path.as_str());
            self.add_activity(
                ActivityType::StatusChanged,
                Some(name),
                Some(id.clone()),
                Some(text_of("queued")),
                Some(details),
            );
        }
        proof {
            assert(self.activities@[acts0.len() as int] == acts1[acts0.len() as int]);
            assert(self.activities@.subrange(0, acts0.len() as int) =~= acts0) by {
                assert forall|k: int| 0 <= k < acts0.len() implies self.activities@[k] == acts0[k] by {
                    assert(self.activities@[k] == acts1[k]);
                    assert(acts1[k] == acts1.drop_last()[k]);
                }
            }
        }
        let ghost dd = d;
        self.upsert_download(d);
        proof {
            assert(new_download(dd, url_in@, file_path@, file_name, status, now));
            assert(upsert_download(old(self).downloads@, dd) == self.downloads@);
            let s0 = old(self).downloads@;
            match find_id(s0, dd.id@) {
                Some(j) => crate::download::lemma_count_update(s0, j, dd, DownloadStatus::Downloading),
                None => crate::download::lemma_count_push(s0, dd, DownloadStatus::Downloading),
            }
        }
        id
    }
}

} // verus!
