//! The decisions a single transfer makes between network reads: the size
//! of the file from response headers, how much of a chunk to write, when
//! to give up after errors and how long to wait before retrying, and what
//! a stopped transfer means for its download.
//!
//! The transfer itself (requests, file writes, sleeps) is driven from
//! outside; it hands each event to these functions and does what they say.
use vstd::prelude::*;
use crate::download::DownloadStatus;
use std::collections::hash_map::DefaultHasher;
use std::hash::{Hash, Hasher};
use crate::text::{chars_of, parse_unsigned, push_decimal, push_str, split_chars, split_on, decimal};

verus! {

// ---------------------------------------------------------------------------
// Sizes from headers
// ---------------------------------------------------------------------------

/// `str::parse::<u64>`, with its error as text. The documentation of
/// `FromStr` for integers fixes which texts parse: an optional `+`, then
/// decimal digits whose value fits. The error's wording is not stated.
#[verifier::external_body]
fn parse_u64(s: &str) -> (r: Result<u64, String>)
    ensures
        match parse_unsigned(s@, u64::MAX as nat) {
            Some(v) => r == Ok::<u64, String>(v as u64),
            None => r is Err,
        },
{
    s.parse::<u64>().map_err(|e| e.to_string())
}

/// The second `/`-separated piece of a `Content-Range` value (in `bytes
/// 0-0/1234`, the total size), if there is one.
pub open spec fn content_range_total_text(range: Seq<char>) -> Option<Seq<char>> {
    let pieces = split_on(range, '/');
    if pieces.len() > 1 {
        Some(pieces[1])
    } else {
        None
    }
}

/// The total size a `Content-Range` value gives, if it names one that
/// parses.
pub open spec fn content_range_total(range: Seq<char>) -> Option<nat> {
    match content_range_total_text(range) {
        Some(t) => parse_unsigned(t, u64::MAX as nat),
        None => None,
    }
}

fn total_piece(range: &str) -> (r: Option<String>)
    ensures
        match content_range_total_text(range@) {
            Some(t) => r matches Some(x) && x@ == t,
            None => r is None,
        },
{
    let cs = chars_of(range);
    let pieces = split_chars(&cs, '/');
    if pieces.len() > 1 {
        let mut x = String::new();
        let mut i: usize = 0;
        while i < pieces[1].len()
            invariant
                pieces@.len() > 1,
                i <= pieces@[1]@.len(),
                x@ == pieces@[1]@.subrange(0, i as int),
            decreases pieces@[1]@.len() - i,
        {
            crate::text::push_char(&mut x, pieces[1][i]);
            i = i + 1;
        }
        assert(pieces@[1]@.subrange(0, pieces@[1]@.len() as int) =~= pieces@[1]@);
        Some(x)
    } else {
        None
    }
}

/// The size a `HEAD` response gives in its `Content-Length` header.
pub fn file_size_from_head(content_length: Option<String>) -> (r: Result<u64, String>)
    ensures
        match content_length {
            None => r matches Err(e) && e@ == "Content-Length header not found"@,
            Some(v) => match parse_unsigned(v@, u64::MAX as nat) {
                Some(n) => r == Ok::<u64, String>(n as u64),
                None => r matches Err(e) && crate::text::starts_with(
                    e@,
                    "Failed to parse content-length: "@,
                ),
            },
        },
{
    match content_length {
        None => Err(crate::download::text_of("Content-Length header not found")),
        Some(v) => match parse_u64(v.as_str()) {
            Ok(n) => Ok(n),
            Err(e) => {
                let mut m = String::new();
                push_str(&mut m, "Failed to parse content-length: ");
                let ghost head = m@;
                push_str(&mut m, e.as_str());
                assert(m@.subrange(0, head.len() as int) =~= head);
                Err(m)
            },
        },
    }
}

/// The size a ranged `GET` response gives in its `Content-Range` header.
pub fn file_size_from_range(content_range: Option<String>) -> (r: Result<u64, String>)
    ensures
        match content_range {
            Some(v) if content_range_total_text(v@) is Some => match content_range_total(v@) {
                Some(n) => r == Ok::<u64, String>(n as u64),
                None => r matches Err(e) && crate::text::starts_with(
                    e@,
                    "Failed to parse total size from content-range: "@,
                ),
            },
            _ => r matches Err(e) && e@ == "Could not determine file size from range request"@,
        },
{
    match content_range {
        Some(v) => match total_piece(v.as_str()) {
            Some(t) => match parse_u64(t.as_str()) {
                Ok(n) => Ok(n),
                Err(e) => {
                    let mut m = String::new();
                    push_str(&mut m, "Failed to parse total size from content-range: ");
                    let ghost head = m@;
                    push_str(&mut m, e.as_str());
                    assert(m@.subrange(0, head.len() as int) =~= head);
                    Err(m)
                },
            },
            None => Err(crate::download::text_of("Could not determine file size from range request")),
        },
        None => Err(crate::download::text_of("Could not determine file size from range request")),
    }
}

/// The total size a transfer settles on from a successful response, when
/// it did not know it yet (`known` is 0): for a partial response, the
/// `Content-Range` total, else its `Content-Length` plus what was already
/// downloaded; for a full response, its `Content-Length`; 0 when unknown.
pub open spec fn total_after_response(
    known: u64,
    partial: bool,
    content_range: Option<Seq<char>>,
    content_length: Option<u64>,
    downloaded: u64,
) -> nat {
    if known != 0 {
        known as nat
    } else if partial {
        let from_range: nat = match content_range {
            Some(r) => match content_range_total(r) {
                Some(n) => n,
                None => 0,
            },
            None => 0,
        };
        if from_range != 0 {
            from_range
        } else {
            match content_length {
                Some(l) => (l + downloaded) as nat,
                None => 0,
            }
        }
    } else {
        match content_length {
            Some(l) => l as nat,
            None => 0,
        }
    }
}

/// Settles the total size after a successful response (see
/// `total_after_response`).
pub fn resolve_total_size(
    known: u64,
    partial: bool,
    content_range: Option<String>,
    content_length: Option<u64>,
    downloaded: u64,
) -> (r: u64)
    requires
        content_length matches Some(l) ==> l + downloaded <= u64::MAX,
    ensures
        r == total_after_response(
            known,
            partial,
            match content_range {
                Some(v) => Some(v@),
                None => None,
            },
            content_length,
            downloaded,
        ),
{
    if known != 0 {
        return known;
    }
    if partial {
        let from_range: u64 = match content_range {
            Some(v) => match total_piece(v.as_str()) {
                Some(t) => match parse_u64(t.as_str()) {
                    Ok(n) => n,
                    Err(_) => 0,
                },
                None => 0,
            },
            None => 0,
        };
        if from_range != 0 {
            return from_range;
        }
        match content_length {
            Some(l) => l + downloaded,
            None => 0,
        }
    } else {
        match content_length {
            Some(l) => l,
            None => 0,
        }
    }
}

// ---------------------------------------------------------------------------
// Chunks
// ---------------------------------------------------------------------------

/// What to do with a chunk that arrived.
pub enum ChunkPlan {
    /// An empty chunk: nothing to write.
    Skip,
    /// Write the whole chunk and go on.
    Write,
    /// Write only the first bytes, which complete the file, and stop.
    WriteFinal(u64),
    /// The file is already complete: write nothing and stop.
    Done,
}

/// Plans the write of a chunk of `chunk_len` bytes when `downloaded` of
/// `total` bytes (0 when unknown) are on disk: never past the total.
pub fn plan_chunk(total: u64, downloaded: u64, chunk_len: u64) -> (r: ChunkPlan)
    requires
        total > 0 ==> downloaded <= total,
    ensures
        chunk_len == 0 ==> r is Skip,
        chunk_len > 0 && (total == 0 || downloaded + chunk_len <= total) ==> r is Write,
        chunk_len > 0 && total > 0 && downloaded + chunk_len > total ==> if downloaded == total {
            r is Done
        } else {
            r == ChunkPlan::WriteFinal((total - downloaded) as u64)
        },
{
    if chunk_len == 0 {
        ChunkPlan::Skip
    } else if total > 0 && chunk_len > total - downloaded {
        if total == downloaded {
            ChunkPlan::Done
        } else {
            ChunkPlan::WriteFinal(total - downloaded)
        }
    } else {
        ChunkPlan::Write
    }
}

// ---------------------------------------------------------------------------
// Retries
// ---------------------------------------------------------------------------

/// A transfer gives up after this many errors in a row.
pub const MAX_CONSECUTIVE_ERRORS: u32 = 5;

/// A transfer gives up after this many failed attempts in all.
pub const MAX_TOTAL_RETRIES: u32 = 15;

/// The error counters of a transfer and its current base delay.
pub struct RetryState {
    pub consecutive_errors: u32,
    pub total_retries: u32,
    pub base_delay_ms: u64,
    pub success_count: u32,
}

/// What to do after a failed request or chunk read.
pub enum RetryDecision {
    /// Wait this many milliseconds, then try again.
    Retry(u64),
    /// Too many errors in a row: give up.
    TooManyConsecutive,
    /// Too many attempts in all: give up.
    TooManyTotal,
}

pub open spec fn pow2(k: nat) -> nat
    decreases k,
{
    if k == 0 {
        1
    } else {
        2 * pow2((k - 1) as nat)
    }
}

pub open spec fn min_nat(a: nat, b: nat) -> nat {
    if a <= b {
        a
    } else {
        b
    }
}

/// The wait after a failed request: the base delay doubled once per error
/// in a row beyond the first, capped at a minute, plus 100 ms per attempt
/// so far, modulo a second.
pub open spec fn request_delay_ms(base_ms: nat, consecutive: nat, total: nat) -> nat {
    min_nat(base_ms * pow2((consecutive - 1) as nat), 60_000) + (total * 100) % 1000
}

/// The back-off after a failed chunk read: the base delay doubled once
/// per error in a row (at most 6 times), capped at a minute.
pub open spec fn chunk_backoff_ms(base_ms: nat, consecutive: nat) -> nat {
    min_nat(base_ms * pow2(min_nat(consecutive, 6)), 60_000)
}

/// A chunk wait lies within a quarter of its back-off either way.
pub proof fn lemma_chunk_delay_bounds(base_ms: nat, consecutive: nat, hash: nat)
    ensures
        ({
            let backoff = chunk_backoff_ms(base_ms, consecutive);
            let d = chunk_delay_ms(base_ms, consecutive, hash);
            backoff - backoff / 4 <= d <= backoff + backoff / 4
        }),
{
    let backoff = chunk_backoff_ms(base_ms, consecutive);
    let range = backoff / 4;
    if range > 0 {
        assert(hash % (range * 2 + 1) <= range * 2) by (nonlinear_arith)
            requires
                range > 0,
        ;
    }
}

/// The wait after a failed chunk read: the base delay doubled once per
/// error in a row (at most 6 times), capped at a minute, moved by a jitter
/// of up to a quarter either way taken from `hash`.
pub open spec fn chunk_delay_ms(base_ms: nat, consecutive: nat, hash: nat) -> nat {
    let backoff = chunk_backoff_ms(base_ms, consecutive);
    let range = backoff / 4;
    let jitter: nat = if range > 0 {
        hash % (range * 2 + 1)
    } else {
        0
    };
    (backoff - range) as nat + jitter
}

proof fn lemma_pow2_bound(k: nat)
    requires
        k <= 6,
    ensures
        1 <= pow2(k) <= 64,
{
    reveal_with_fuel(pow2, 7);
}

fn pow2_small(k: u32) -> (r: u64)
    requires
        k <= 6,
    ensures
        r == pow2(k as nat),
        1 <= r <= 64,
{
    let mut r: u64 = 1;
    let mut i: u32 = 0;
    while i < k
        invariant
            i <= k <= 6,
            r == pow2(i as nat),
            1 <= r <= 64,
        decreases k - i,
    {
        proof {
            lemma_pow2_bound((i + 1) as nat);
        }
        r = r * 2;
        i = i + 1;
    }
    r
}

/// `Hash::hash` of a `u32` into a `DefaultHasher`. Which bytes it writes
/// is not documented, so nothing is stated of the hasher after it.
#[verifier::external_body]
fn hash_u32_into(a: u32, h: &mut DefaultHasher) {
    a.hash(h)
}

/// A `DefaultHasher` fed `a` then `b`, finished. The hasher starts from
/// fixed keys, but what `hash` writes is not documented, so nothing is
/// stated of the value: it only spreads the retry times.
fn hash_pair(a: u32, b: u32) -> (r: u64) {
    let mut h = DefaultHasher::new();
    hash_u32_into(a, &mut h);
    hash_u32_into(b, &mut h);
    h.finish()
}

impl RetryState {
    /// A fresh transfer: no errors, a base delay of one second.
    pub fn new() -> (r: RetryState)
        ensures
            r.consecutive_errors == 0,
            r.total_retries == 0,
            r.base_delay_ms == 1000,
            r.success_count == 0,
    {
        RetryState { consecutive_errors: 0, total_retries: 0, base_delay_ms: 1000, success_count: 0 }
    }

    /// The limits of a transfer: base delays stay within 10 seconds and
    /// the counters below their limits between errors.
    pub open spec fn wf(&self) -> bool {
        &&& self.consecutive_errors < MAX_CONSECUTIVE_ERRORS
        &&& self.total_retries < MAX_TOTAL_RETRIES
        &&& 1 <= self.base_delay_ms <= 10_000
        &&& self.success_count < 5
    }

    /// A response came back: the errors in a row are reset.
    pub fn on_response_ok(&mut self)
        requires
            old(self).wf(),
        ensures
            final(self).wf(),
            *final(self) == (RetryState { consecutive_errors: 0, ..*old(self) }),
    {
        self.consecutive_errors = 0;
    }

    /// A chunk was written: errors in a row are reset, and after five good
    /// chunks the base delay drops to 100 ms.
    pub fn on_chunk_ok(&mut self)
        requires
            old(self).wf(),
        ensures
            final(self).wf(),
            final(self).consecutive_errors == 0,
            final(self).total_retries == old(self).total_retries,
            if old(self).success_count + 1 >= 5 {
                final(self).base_delay_ms == 100 && final(self).success_count == 0
            } else {
                final(self).base_delay_ms == old(self).base_delay_ms && final(self).success_count
                    == old(self).success_count + 1
            },
    {
        self.consecutive_errors = 0;
        self.success_count = self.success_count + 1;
        if self.success_count >= 5 {
            self.base_delay_ms = 100;
            self.success_count = 0;
        }
    }

    /// The server answered with an error status: counts it as an error in
    /// a row (not as an attempt), and either gives up (`None`) or says to
    /// wait one second per error in a row.
    pub fn on_http_error(&mut self) -> (r: Option<u64>)
        requires
            old(self).wf(),
        ensures
            final(self).consecutive_errors == old(self).consecutive_errors + 1,
            final(self).total_retries == old(self).total_retries,
            final(self).base_delay_ms == old(self).base_delay_ms,
            final(self).success_count == old(self).success_count,
            final(self).consecutive_errors >= MAX_CONSECUTIVE_ERRORS ==> r is None,
            final(self).consecutive_errors < MAX_CONSECUTIVE_ERRORS ==> r == Some(
                (1000 * final(self).consecutive_errors) as u64,
            ) && final(self).wf(),
    {
        self.consecutive_errors = self.consecutive_errors + 1;
        if self.consecutive_errors >= MAX_CONSECUTIVE_ERRORS {
            None
        } else {
            Some(1000 * (self.consecutive_errors as u64))
        }
    }

    /// A request failed: counts it, and either gives up or says how long
    /// to wait; after three errors in a row the base delay doubles, up to
    /// 10 seconds.
    pub fn on_request_error(&mut self) -> (r: RetryDecision)
        requires
            old(self).wf(),
        ensures
            final(self).consecutive_errors == old(self).consecutive_errors + 1,
            final(self).total_retries == old(self).total_retries + 1,
            final(self).success_count == old(self).success_count,
            if final(self).consecutive_errors >= MAX_CONSECUTIVE_ERRORS {
                r is TooManyConsecutive && final(self).base_delay_ms == old(self).base_delay_ms
            } else if final(self).total_retries >= MAX_TOTAL_RETRIES {
                r is TooManyTotal && final(self).base_delay_ms == old(self).base_delay_ms
            } else {
                &&& final(self).wf()
                &&& r == RetryDecision::Retry(
                    request_delay_ms(
                        old(self).base_delay_ms as nat,
                        final(self).consecutive_errors as nat,
                        final(self).total_retries as nat,
                    ) as u64,
                )
                &&& final(self).base_delay_ms == if final(self).consecutive_errors >= 3 {
                    min_nat(old(self).base_delay_ms as nat * 2, 10_000)
                } else {
                    old(self).base_delay_ms as nat
                }
            },
    {
        self.consecutive_errors = self.consecutive_errors + 1;
        self.total_retries = self.total_retries + 1;
        if self.consecutive_errors >= MAX_CONSECUTIVE_ERRORS {
            return RetryDecision::TooManyConsecutive;
        }
        if self.total_retries >= MAX_TOTAL_RETRIES {
            return RetryDecision::TooManyTotal;
        }
        let factor = pow2_small(self.consecutive_errors - 1);
        assert(self.base_delay_ms * factor <= 640_000) by (nonlinear_arith)
            requires
                self.base_delay_ms <= 10_000,
                factor <= 64,
        ;
        let scaled = self.base_delay_ms * factor;
        let capped = if scaled < 60_000 {
            scaled
        } else {
            60_000
        };
        let jitter = ((self.total_retries as u64) * 100) % 1000;
        let delay = capped + jitter;
        if self.consecutive_errors >= 3 {
            let doubled = self.base_delay_ms * 2;
            self.base_delay_ms = if doubled < 10_000 {
                doubled
            } else {
                10_000
            };
        }
        RetryDecision::Retry(delay)
    }

    /// A chunk read failed: counts it, and either gives up or says how long
    /// to wait, with a jitter taken from `hash`; after three errors in a row
    /// the base delay doubles, up to 5 seconds.
    pub fn on_chunk_error_with(&mut self, hash: u64) -> (r: RetryDecision)
        requires
            old(self).wf(),
        ensures
            final(self).consecutive_errors == old(self).consecutive_errors + 1,
            final(self).total_retries == old(self).total_retries + 1,
            final(self).success_count == old(self).success_count,
            if final(self).consecutive_errors >= MAX_CONSECUTIVE_ERRORS {
                r is TooManyConsecutive && final(self).base_delay_ms == old(self).base_delay_ms
            } else if final(self).total_retries >= MAX_TOTAL_RETRIES {
                r is TooManyTotal && final(self).base_delay_ms == old(self).base_delay_ms
            } else {
                &&& final(self).wf()
                &&& r == RetryDecision::Retry(
                    chunk_delay_ms(
                        old(self).base_delay_ms as nat,
                        final(self).consecutive_errors as nat,
                        hash as nat,
                    ) as u64,
                )
                &&& final(self).base_delay_ms == if final(self).consecutive_errors >= 3 {
                    min_nat(old(self).base_delay_ms as nat * 2, 5_000)
                } else {
                    old(self).base_delay_ms as nat
                }
            },
    {
        self.consecutive_errors = self.consecutive_errors + 1;
        self.total_retries = self.total_retries + 1;
        if self.consecutive_errors >= MAX_CONSECUTIVE_ERRORS {
            return RetryDecision::TooManyConsecutive;
        }
        if self.total_retries >= MAX_TOTAL_RETRIES {
            return RetryDecision::TooManyTotal;
        }
        let e = if self.consecutive_errors < 6 {
            self.consecutive_errors
        } else {
            6
        };
        let factor = pow2_small(e);
        assert(self.base_delay_ms * factor <= 640_000) by (nonlinear_arith)
            requires
                self.base_delay_ms <= 10_000,
                factor <= 64,
        ;
        let scaled = self.base_delay_ms * factor;
        let backoff = if scaled < 60_000 {
            scaled
        } else {
            60_000
        };
        let range = backoff / 4;
        let jitter = if range > 0 {
            hash % (range * 2 + 1)
        } else {
            0
        };
        let delay = (backoff - range) + jitter;
        if self.consecutive_errors >= 3 {
            let doubled = self.base_delay_ms * 2;
            self.base_delay_ms = if doubled < 5_000 {
                doubled
            } else {
                5_000
            };
        }
        RetryDecision::Retry(delay)
    }

    /// A chunk read failed: as `on_chunk_error_with`, the jitter taken from
    /// a hash of the error counters. The hash is not documented, so the wait
    /// is stated for some hash: it lies within a quarter of the back-off
    /// either way.
    pub fn on_chunk_error(&mut self) -> (r: RetryDecision)
        requires
            old(self).wf(),
        ensures
            final(self).consecutive_errors == old(self).consecutive_errors + 1,
            final(self).total_retries == old(self).total_retries + 1,
            final(self).success_count == old(self).success_count,
            if final(self).consecutive_errors >= MAX_CONSECUTIVE_ERRORS {
                r is TooManyConsecutive && final(self).base_delay_ms == old(self).base_delay_ms
            } else if final(self).total_retries >= MAX_TOTAL_RETRIES {
                r is TooManyTotal && final(self).base_delay_ms == old(self).base_delay_ms
            } else {
                let backoff = chunk_backoff_ms(
                    old(self).base_delay_ms as nat,
                    final(self).consecutive_errors as nat,
                );
                &&& final(self).wf()
                &&& r matches RetryDecision::Retry(ms) && (exists|h: u64|
                    ms == #[trigger] chunk_delay_ms(
                        old(self).base_delay_ms as nat,
                        final(self).consecutive_errors as nat,
                        h as nat,
                    )) && backoff - backoff / 4 <= ms <= backoff + backoff / 4
                &&& final(self).base_delay_ms == if final(self).consecutive_errors >= 3 {
                    min_nat(old(self).base_delay_ms as nat * 2, 5_000)
                } else {
                    old(self).base_delay_ms as nat
                }
            },
    {
        let h = hash_pair(self.consecutive_errors + 1, self.total_retries + 1);
        let ghost base0 = self.base_delay_ms as nat;
        let r = self.on_chunk_error_with(h);
        proof {
            lemma_chunk_delay_bounds(base0, self.consecutive_errors as nat, h as nat);
        }
        r
    }
}

// ---------------------------------------------------------------------------
// Progress and outcome
// ---------------------------------------------------------------------------

/// No progress for longer than this many seconds ends a transfer.
pub const PROGRESS_TIMEOUT_SECS: u64 = 180;

/// Whether a transfer stalled: the file is not known to be complete and no
/// chunk came for more than three minutes.
pub fn progress_timed_out(total: u64, downloaded: u64, seconds_since_progress: u64) -> (r: bool)
    ensures
        r == ((total == 0 || downloaded < total) && seconds_since_progress > 180),
{
    (total == 0 || downloaded < total) && seconds_since_progress > PROGRESS_TIMEOUT_SECS
}

/// Whether a transfer keeps going (`.0`) and whether the download is
/// already done (`.1`), given its current status and size, and the total
/// the transfer knows (0 when unknown). A download that is gone stops.
pub fn transfer_check(status: Option<DownloadStatus>, downloaded: u64, total: u64) -> (r: (bool, bool))
    ensures
        match status {
            Some(st) => {
                let done = st == DownloadStatus::Completed || (total > 0 && downloaded >= total);
                r == (st == DownloadStatus::Downloading || done, done)
            },
            None => r == (false, false),
        },
{
    match status {
        Some(st) => {
            let done = st == DownloadStatus::Completed || (total > 0 && downloaded >= total);
            (st == DownloadStatus::Downloading || done, done)
        },
        None => (false, false),
    }
}

/// Whether a download whose transfer ended without error is to be marked
/// completed: it is still running or paused, and all of a known size is
/// there.
pub fn completes_after_transfer(status: DownloadStatus, downloaded: u64, total: u64) -> (r: bool)
    ensures
        r == ((status == DownloadStatus::Downloading || status == DownloadStatus::Paused)
            && total > 0 && downloaded >= total),
{
    (status == DownloadStatus::Downloading || status == DownloadStatus::Paused) && total > 0
        && downloaded >= total
}

/// Which command set a transfer going; each decides on its own what a
/// transfer that ended without error means for its download.
pub enum TransferOrigin {
    /// A newly added download.
    Started,
    /// A paused download taken up again.
    Resumed,
    /// A download begun again from the start.
    Restarted,
    /// A queued download let through when a place came free.
    Queued,
}

/// Whether the command that set a transfer going marks its download
/// completed once the transfer ended without error, given the download's
/// status and sizes then (`None` when it is gone). A newly added download
/// is marked completed whatever its sizes; a resumed one when all of a
/// known size is there and it is not completed yet; a restarted one unless
/// it is paused or completed, when what is there reaches the total (0 when
/// unknown); a queued one never.
pub fn marks_completed_after(
    origin: TransferOrigin,
    status: Option<DownloadStatus>,
    downloaded: u64,
    total: u64,
) -> (r: bool)
    ensures
        r == match status {
            None => false,
            Some(st) => match origin {
                TransferOrigin::Started => true,
                TransferOrigin::Resumed => downloaded >= total && total > 0 && st
                    != DownloadStatus::Completed,
                TransferOrigin::Restarted => st != DownloadStatus::Paused && st
                    != DownloadStatus::Completed && downloaded >= total,
                TransferOrigin::Queued => false,
            },
        },
{
    match status {
        None => false,
        Some(st) => match origin {
            TransferOrigin::Started => true,
            TransferOrigin::Resumed => downloaded >= total && total > 0 && st
                != DownloadStatus::Completed,
            TransferOrigin::Restarted => st != DownloadStatus::Paused && st
                != DownloadStatus::Completed && downloaded >= total,
            TransferOrigin::Queued => false,
        },
    }
}

/// The `Range` header a request carries: `bytes=N-` to resume after the
/// `N` bytes already there, none for a fresh start (which also writes a
/// new file rather than appending).
pub fn range_header_value(downloaded: u64) -> (r: Option<String>)
    ensures
        downloaded == 0 ==> r is None,
        downloaded > 0 ==> (r matches Some(v) && v@ == "bytes="@ + decimal(downloaded as nat)
            + "-"@),
{
    if downloaded == 0 {
        None
    } else {
        let mut v = String::new();
        push_str(&mut v, "bytes=");
        push_decimal(&mut v, downloaded);
        push_str(&mut v, "-");
        Some(v)
    }
}

/// What a response's status code calls for.
pub enum ResponseVerdict {
    /// A success (206 Partial Content among them): write the body.
    Proceed,
    /// 416, the asked range cannot be served: drop the partial file and
    /// ask again from the first byte.
    RestartFresh,
    /// Any other code: an HTTP error, retried a few times.
    HttpError,
}

/// Sorts a response's status code.
pub fn response_verdict(code: u16) -> (r: ResponseVerdict)
    ensures
        200 <= code <= 299 ==> r is Proceed,
        code == 416 ==> r is RestartFresh,
        !(200 <= code <= 299) && code != 416 ==> r is HttpError,
{
    if 200 <= code && code <= 299 {
        ResponseVerdict::Proceed
    } else if code == 416 {
        ResponseVerdict::RestartFresh
    } else {
        ResponseVerdict::HttpError
    }
}

/// The check of a finished file's size on disk against the total.
pub fn final_size_check(expected: u64, actual: u64) -> (r: Result<(), String>)
    ensures
        r is Ok <==> actual == expected,
        r matches Err(e) ==> e@ == "File size mismatch: expected "@ + decimal(expected as nat)
            + " bytes, got "@ + decimal(actual as nat) + " bytes"@,
{
    if actual == expected {
        Ok(())
    } else {
        let mut m = String::new();
        push_str(&mut m, "File size mismatch: expected ");
        push_decimal(&mut m, expected);
        push_str(&mut m, " bytes, got ");
        push_decimal(&mut m, actual);
        push_str(&mut m, " bytes");
        Err(m)
    }
}

/// After asking for the size with HEAD failed on attempt `attempt` (from
/// 1): the seconds to wait before asking again, or `None` after the third
/// attempt, when the size is left to the transfer.
pub fn head_retry_delay(attempt: u32) -> (r: Option<u64>)
    ensures
        r == if attempt < 3 {
            Some(2u64)
        } else {
            None::<u64>
        },
{
    if attempt < 3 {
        Some(2)
    } else {
        None
    }
}

/// What a check of a running download's file on disk calls for.
pub enum StallAction {
    /// The file holds the whole download: record its size, mark it done.
    Complete,
    /// The file grew past what was recorded: record its size.
    UpdateProgress,
    /// Nothing to do.
    Nothing,
}

/// Compares a running download's file size on disk with its record: a
/// file of at least the known total completes it; one more than 1 KiB past
/// the recorded size updates its progress.
pub fn stall_check(total: u64, recorded: u64, on_disk: u64) -> (r: StallAction)
    ensures
        total > 0 && on_disk >= total ==> r is Complete,
        !(total > 0 && on_disk >= total) && on_disk > recorded + 1024 ==> r is UpdateProgress,
        !(total > 0 && on_disk >= total) && on_disk <= recorded + 1024 ==> r is Nothing,
{
    if total > 0 && on_disk >= total {
        StallAction::Complete
    } else if on_disk > recorded && on_disk - recorded > 1024 {
        StallAction::UpdateProgress
    } else {
        StallAction::Nothing
    }
}

/// The size a partial file is cut back to: never past the expected size.
pub fn repaired_size(on_disk: u64, expected: u64) -> (r: u64)
    ensures
        r == if on_disk > expected {
            expected
        } else {
            on_disk
        },
{
    if on_disk > expected {
        expected
    } else {
        on_disk
    }
}

/// What verifying a download's file found.
pub enum IntegrityVerdict {
    /// The file has the expected size.
    Intact,
    /// The file has another size; it is repaired to this one.
    Repair(u64),
}

/// Verifying a download's file: it can only be checked against a known
/// size; a file of that size is intact, any other is cut back to it at
/// most.
pub fn integrity_verdict(expected: u64, on_disk: u64) -> (r: Result<IntegrityVerdict, String>)
    ensures
        expected == 0 ==> (r matches Err(e) && e@ == "Cannot verify file: unknown expected size"@),
        expected != 0 && on_disk == expected ==> (r matches Ok(IntegrityVerdict::Intact)),
        expected != 0 && on_disk != expected ==> r == Ok::<IntegrityVerdict, String>(
            IntegrityVerdict::Repair(
                if on_disk > expected {
                    expected
                } else {
                    on_disk
                },
            ),
        ),
{
    if expected == 0 {
        return Err(crate::download::text_of("Cannot verify file: unknown expected size"));
    }
    if on_disk == expected {
        Ok(IntegrityVerdict::Intact)
    } else {
        Ok(IntegrityVerdict::Repair(repaired_size(on_disk, expected)))
    }
}

/// The message for a file repaired to `size` bytes.
pub fn repaired_message(size: u64) -> (r: String)
    ensures
        r@ == "File repaired successfully - size corrected to "@ + decimal(size as nat)
            + " bytes"@,
{
    let mut m = String::new();
    push_str(&mut m, "File repaired successfully - size corrected to ");
    push_decimal(&mut m, size);
    push_str(&mut m, " bytes");
    m
}

} // verus!
