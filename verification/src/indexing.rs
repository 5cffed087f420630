use vstd::prelude::*;

use crate::index_query::opt_str_view;
use crate::proposal_store::UtcTime;
use crate::records::{BucketIndexMeta, BucketIndexProgress};
use crate::s3_ops::{normalize_prefix_spec, PrefixSizeProgress, PrefixSizeResult};
use crate::text::{chars_of, decimal_int, i64_to_decimal, push_all, push_str, string_of};

verus! {

// ---------------------------------------------------------------------------
// Age of a completed index
// ---------------------------------------------------------------------------

/// The instant an RFC 3339 timestamp denotes, as Unix seconds and the
/// nanoseconds within that second, or `None` where it does not parse.
pub uninterp spec fn rfc3339_instant(s: Seq<char>) -> Option<(i64, u32)>;

/// chrono: `DateTime::parse_from_rfc3339`, read back as `timestamp()` and
/// `timestamp_subsec_nanos()`.  Its result is named by [`rfc3339_instant`].
#[verifier::external_body]
fn parse_rfc3339(s: &str) -> (r: Option<UtcTime>)
    ensures
        r == match rfc3339_instant(s@) {
            Some((secs, nanos)) => Some(UtcTime { secs, nanos }),
            None => None,
        },
{
    match chrono::DateTime::parse_from_rfc3339(s) {
        Ok(t) => Some(UtcTime { secs: t.timestamp(), nanos: t.timestamp_subsec_nanos() }),
        Err(_) => None,
    }
}

/// Whole seconds from `then` to `now`, never below zero (and no more than
/// `u64::MAX`).
pub open spec fn whole_secs_between(then: UtcTime, now: UtcTime) -> u64 {
    let d = (now.secs - then.secs) * 1_000_000_000int + (now.nanos - then.nanos);
    if d <= 0 {
        0
    } else if d / 1_000_000_000int > u64::MAX {
        u64::MAX
    } else {
        (d / 1_000_000_000int) as u64
    }
}

/// How old a completed index is at `now`: `None` where it has no completion
/// time or that time does not parse.
pub fn compute_index_age_secs(completed_at: Option<&str>, now: UtcTime) -> (r: Option<u64>)
    ensures
        r == match completed_at {
            None => None,
            Some(ts) => match rfc3339_instant(ts@) {
                None => None,
                Some((secs, nanos)) => Some(whole_secs_between(UtcTime { secs, nanos }, now)),
            },
        },
{
    let ts = match completed_at {
        None => {
            return None;
        },
        Some(ts) => ts,
    };
    let then = match parse_rfc3339(ts) {
        None => {
            return None;
        },
        Some(t) => t,
    };
    let d: i128 = (now.secs as i128 - then.secs as i128) * 1_000_000_000i128 + (now.nanos as i128
        - then.nanos as i128);
    if d <= 0 {
        Some(0)
    } else {
        let q: i128 = d / 1_000_000_000i128;
        if q > u64::MAX as i128 {
            Some(u64::MAX)
        } else {
            Some(q as u64)
        }
    }
}

// ---------------------------------------------------------------------------
// Indexing a bucket
// ---------------------------------------------------------------------------

/// Where an indexing job is.
#[derive(Debug, Clone, Copy, PartialEq, Eq, Structural)]
pub enum IndexPhase {
    Running,
    Cancelled,
    Failed,
    Completed,
}

/// The status word of a phase, as stored and reported.
pub open spec fn phase_name(p: IndexPhase) -> Seq<char> {
    match p {
        IndexPhase::Running => "running"@,
        IndexPhase::Cancelled => "cancelled"@,
        IndexPhase::Failed => "failed"@,
        IndexPhase::Completed => "completed"@,
    }
}

fn phase_text(p: IndexPhase) -> (r: String)
    ensures
        r@ == phase_name(p),
{
    let s = match p {
        IndexPhase::Running => "running",
        IndexPhase::Cancelled => "cancelled",
        IndexPhase::Failed => "failed",
        IndexPhase::Completed => "completed",
    };
    string_of(&chars_of(s))
}

/// What happened since the last step of an indexing job.
pub enum IndexEvent {
    /// The job was cancelled, before a page or while paused.
    Cancelled,
    /// Listing a page failed with this message.
    PageFailed(String),
    /// A page of `count` objects was listed and stored; `next_token` is the
    /// continuation token when the listing is truncated.
    Page { count: u64, is_truncated: bool, next_token: Option<String> },
}

/// An indexing job of one bucket.
pub struct IndexJob {
    pub connection_id: String,
    pub bucket: String,
    pub started_at: String,
    pub object_count: u64,
    pub continuation_token: Option<String>,
    pub phase: IndexPhase,
}

/// A record to store and a progress event to send, for one phase.
pub struct IndexReport {
    pub meta: BucketIndexMeta,
    pub progress: BucketIndexProgress,
}

/// The report of a job in `phase` with `count` objects: the stored record
/// and the progress event agree on the status and count; a finished phase
/// carries its completion time, a failure its message.
pub open spec fn report_matches(
    r: IndexReport,
    job: IndexJob,
    phase: IndexPhase,
    count: u64,
    completed_at: Option<Seq<char>>,
    error: Option<Seq<char>>,
) -> bool {
    &&& r.meta.connection_id@ == job.connection_id@
    &&& r.meta.bucket@ == job.bucket@
    &&& r.meta.status@ == phase_name(phase)
    &&& r.meta.object_count == count
    &&& opt_str_view(r.meta.started_at) == Some(job.started_at@)
    &&& opt_str_view(r.meta.completed_at) == completed_at
    &&& opt_str_view(r.meta.error) == error
    &&& r.progress.connection_id@ == job.connection_id@
    &&& r.progress.bucket@ == job.bucket@
    &&& r.progress.object_count == count
    &&& r.progress.status@ == phase_name(phase)
    &&& r.progress.done == (phase != IndexPhase::Running)
    &&& opt_str_view(r.progress.error) == error
}

fn copy_str(s: &String) -> (r: String)
    ensures
        r@ == s@,
{
    string_of(&chars_of(s.as_str()))
}

fn make_report(
    job: &IndexJob,
    phase: IndexPhase,
    count: u64,
    completed_at: Option<String>,
    error: Option<String>,
) -> (r: IndexReport)
    ensures
        report_matches(
            r,
            *job,
            phase,
            count,
            opt_str_view(completed_at),
            opt_str_view(error),
        ),
{
    let error2 = crate::plans::copy_opt(&error);
    IndexReport {
        meta: BucketIndexMeta {
            connection_id: copy_str(&job.connection_id),
            bucket: copy_str(&job.bucket),
            status: phase_text(phase),
            object_count: count,
            started_at: Some(copy_str(&job.started_at)),
            completed_at,
            error,
        },
        progress: BucketIndexProgress {
            connection_id: copy_str(&job.connection_id),
            bucket: copy_str(&job.bucket),
            object_count: count,
            status: phase_text(phase),
            done: phase != IndexPhase::Running,
            error: error2,
        },
    }
}

/// What one step of an indexing job asks the caller to do: store and send
/// `report`, then (for a final page) store and send `completion`; the job
/// goes on while `phase` is running.
pub struct IndexStep {
    pub report: IndexReport,
    pub completion: Option<IndexReport>,
    pub error: Option<String>,
}

impl IndexJob {
    /// A job started at `started_at`, and the report that announces it.
    pub fn start(connection_id: &str, bucket: &str, started_at: &str) -> (r: (IndexJob, IndexReport))
        ensures
            r.0.connection_id@ == connection_id@,
            r.0.bucket@ == bucket@,
            r.0.started_at@ == started_at@,
            r.0.object_count == 0,
            r.0.continuation_token is None,
            r.0.phase == IndexPhase::Running,
            report_matches(r.1, r.0, IndexPhase::Running, 0, None, None),
    {
        let job = IndexJob {
            connection_id: string_of(&chars_of(connection_id)),
            bucket: string_of(&chars_of(bucket)),
            started_at: string_of(&chars_of(started_at)),
            object_count: 0,
            continuation_token: None,
            phase: IndexPhase::Running,
        };
        let report = make_report(&job, IndexPhase::Running, 0, None, None);
        (job, report)
    }

    /// Advances a running job by one event; `now` is the current time, for
    /// the completion stamp.
    pub fn step(&mut self, event: IndexEvent, now: &str) -> (r: IndexStep)
        requires
            old(self).phase == IndexPhase::Running,
            event matches IndexEvent::Page { count, .. } ==> old(self).object_count + count
                <= u64::MAX,
        ensures
            final(self).connection_id == old(self).connection_id,
            final(self).bucket == old(self).bucket,
            final(self).started_at == old(self).started_at,
            match event {
                IndexEvent::Cancelled => {
                    &&& final(self).phase == IndexPhase::Cancelled
                    &&& final(self).object_count == old(self).object_count
                    &&& report_matches(
                        r.report,
                        *old(self),
                        IndexPhase::Cancelled,
                        old(self).object_count,
                        Some(now@),
                        None,
                    )
                    &&& r.completion is None
                    &&& r.error is None
                },
                IndexEvent::PageFailed(m) => {
                    &&& final(self).phase == IndexPhase::Failed
                    &&& final(self).object_count == old(self).object_count
                    &&& report_matches(
                        r.report,
                        *old(self),
                        IndexPhase::Failed,
                        old(self).object_count,
                        Some(now@),
                        Some(m@),
                    )
                    &&& r.completion is None
                    &&& r.error matches Some(e) && e@ == "index_bucket_flat failed: "@ + m@
                },
                IndexEvent::Page { count, is_truncated, next_token } => {
                    let n = (old(self).object_count + count) as u64;
                    let more = is_truncated && next_token is Some;
                    &&& final(self).object_count == n
                    &&& report_matches(r.report, *old(self), IndexPhase::Running, n, None, None)
                    &&& r.error is None
                    &&& more ==> (final(self).phase == IndexPhase::Running && opt_str_view(
                        final(self).continuation_token,
                    ) == opt_str_view(next_token) && r.completion is None)
                    &&& !more ==> (final(self).phase == IndexPhase::Completed && (
                    r.completion matches Some(c) && report_matches(
                        c,
                        *old(self),
                        IndexPhase::Completed,
                        n,
                        Some(now@),
                        None,
                    )))
                },
            },
    {
        match event {
            IndexEvent::Cancelled => {
                let report = make_report(
                    self,
                    IndexPhase::Cancelled,
                    self.object_count,
                    Some(string_of(&chars_of(now))),
                    None,
                );
                self.phase = IndexPhase::Cancelled;
                IndexStep { report, completion: None, error: None }
            },
            IndexEvent::PageFailed(m) => {
                let report = make_report(
                    self,
                    IndexPhase::Failed,
                    self.object_count,
                    Some(string_of(&chars_of(now))),
                    Some(copy_str(&m)),
                );
                let mut e = chars_of("index_bucket_flat failed: ");
                push_str(&mut e, m.as_str());
                self.phase = IndexPhase::Failed;
                IndexStep { report, completion: None, error: Some(string_of(&e)) }
            },
            IndexEvent::Page { count, is_truncated, next_token } => {
                let n = self.object_count + count;
                let report = make_report(self, IndexPhase::Running, n, None, None);
                self.object_count = n;
                if is_truncated && next_token.is_some() {
                    self.continuation_token = next_token;
                    IndexStep { report, completion: None, error: None }
                } else {
                    let ghost before = *self;
                    let c = make_report(
                        self,
                        IndexPhase::Completed,
                        n,
                        Some(string_of(&chars_of(now))),
                        None,
                    );
                    self.phase = IndexPhase::Completed;
                    IndexStep { report, completion: Some(c), error: None }
                }
            },
        }
    }
}

// ---------------------------------------------------------------------------
// Measuring a prefix
// ---------------------------------------------------------------------------

/// One listed object: its key (if the listing gave one) and its size.
pub struct ListedObject {
    pub key: Option<String>,
    pub size: i64,
}

/// An object counts towards a prefix's size unless it has no key or is an
/// empty folder marker (a key ending in `/` with no bytes).
pub open spec fn counts(o: ListedObject) -> bool {
    match o.key {
        None => false,
        Some(k) => !(k@.len() > 0 && k@.last() == '/' && o.size <= 0),
    }
}

pub open spec fn clamp_size(s: i64) -> nat {
    if s > 0 {
        s as nat
    } else {
        0
    }
}

pub open spec fn page_count(s: Seq<ListedObject>) -> nat
    decreases s.len(),
{
    if s.len() == 0 {
        0
    } else {
        page_count(s.drop_last()) + if counts(s.last()) {
            1nat
        } else {
            0
        }
    }
}

pub open spec fn page_bytes(s: Seq<ListedObject>) -> nat
    decreases s.len(),
{
    if s.len() == 0 {
        0
    } else {
        page_bytes(s.drop_last()) + if counts(s.last()) {
            clamp_size(s.last().size)
        } else {
            0
        }
    }
}

/// The running total of a prefix's objects and bytes.
pub struct PrefixTally {
    pub prefix: String,
    pub object_count: u64,
    pub total_bytes: u64,
}

impl PrefixTally {
    /// An empty tally of a prefix, which is normalised to end in `/`.
    pub fn new(prefix: &str) -> (r: PrefixTally)
        ensures
            r.prefix@ == normalize_prefix_spec(prefix@),
            r.object_count == 0,
            r.total_bytes == 0,
    {
        PrefixTally {
            prefix: crate::s3_ops::normalize_prefix(prefix),
            object_count: 0,
            total_bytes: 0,
        }
    }

    /// Adds a listed page and returns the progress to report.
    pub fn add_page(&mut self, page: &Vec<ListedObject>) -> (r: PrefixSizeProgress)
        requires
            old(self).object_count + page_count(page@) <= u64::MAX,
            old(self).total_bytes + page_bytes(page@) <= u64::MAX,
        ensures
            final(self).prefix == old(self).prefix,
            final(self).object_count == old(self).object_count + page_count(page@),
            final(self).total_bytes == old(self).total_bytes + page_bytes(page@),
            r.prefix@ == final(self).prefix@,
            r.object_count == final(self).object_count,
            r.total_bytes == final(self).total_bytes,
            !r.done,
            r.error is None,
    {
        let mut i: usize = 0;
        while i < page.len()
            invariant
                i <= page.len(),
                self.prefix == old(self).prefix,
                old(self).object_count + page_count(page@) <= u64::MAX,
                old(self).total_bytes + page_bytes(page@) <= u64::MAX,
                self.object_count == old(self).object_count + page_count(page@.subrange(0, i as int)),
                self.total_bytes == old(self).total_bytes + page_bytes(page@.subrange(0, i as int)),
            decreases page.len() - i,
        {
            let ghost pre = page@.subrange(0, i as int);
            assert(page@.subrange(0, i + 1).drop_last() =~= pre);
            proof {
                lemma_page_prefix(page@, i + 1);
            }
            let o = &page[i];
            match &o.key {
                None => {},
                Some(k) => {
                    let kc = chars_of(k.as_str());
                    let size: u64 = if o.size > 0 {
                        o.size as u64
                    } else {
                        0
                    };
                    if !(kc.len() > 0 && kc[kc.len() - 1] == '/' && size == 0) {
                        self.object_count = self.object_count + 1;
                        self.total_bytes = self.total_bytes + size;
                    }
                },
            }
            i += 1;
        }
        assert(page@.subrange(0, i as int) =~= page@);
        PrefixSizeProgress {
            prefix: copy_str(&self.prefix),
            object_count: self.object_count,
            total_bytes: self.total_bytes,
            done: false,
            error: None,
        }
    }

    /// The final result and the last progress event.
    pub fn finish(&self) -> (r: (PrefixSizeResult, PrefixSizeProgress))
        ensures
            r.0.prefix@ == self.prefix@,
            r.0.object_count == self.object_count,
            r.0.total_bytes == self.total_bytes,
            r.1.prefix@ == self.prefix@,
            r.1.object_count == self.object_count,
            r.1.total_bytes == self.total_bytes,
            r.1.done,
            r.1.error is None,
    {
        (
            PrefixSizeResult {
                prefix: copy_str(&self.prefix),
                object_count: self.object_count,
                total_bytes: self.total_bytes,
            },
            PrefixSizeProgress {
                prefix: copy_str(&self.prefix),
                object_count: self.object_count,
                total_bytes: self.total_bytes,
                done: true,
                error: None,
            },
        )
    }
}

pub proof fn lemma_page_prefix(s: Seq<ListedObject>, n: int)
    requires
        0 <= n <= s.len(),
    ensures
        page_count(s.subrange(0, n)) <= page_count(s),
        page_bytes(s.subrange(0, n)) <= page_bytes(s),
    decreases s.len() - n,
{
    if n < s.len() {
        lemma_page_prefix(s, n + 1);
        assert(s.subrange(0, n + 1).drop_last() =~= s.subrange(0, n));
    } else {
        assert(s.subrange(0, n) =~= s);
    }
}

// ---------------------------------------------------------------------------
// Uploads
// ---------------------------------------------------------------------------

/// Files larger than this (5 MiB) are uploaded in parts.
pub const MULTIPART_THRESHOLD: u64 = 5_242_880;

/// The size of one part of a multipart upload (5 MiB).
pub const PART_SIZE: usize = 5_242_880;

/// Whether a file of `total` bytes is uploaded in parts.
pub fn use_multipart(total: u64) -> (b: bool)
    ensures
        b == (total > 5_242_880),
{
    total > MULTIPART_THRESHOLD
}

/// The parts uploaded so far of a multipart upload.
pub struct MultipartProgress {
    pub part_number: i32,
    pub uploaded: u64,
    /// `(part number, ETag)` of each uploaded part, in order.
    pub parts: Vec<(i32, String)>,
}

impl MultipartProgress {
    /// No part uploaded; the first part is number 1.
    pub fn new() -> (r: MultipartProgress)
        ensures
            r.part_number == 1,
            r.uploaded == 0,
            r.parts.len() == 0,
    {
        MultipartProgress { part_number: 1, uploaded: 0, parts: Vec::new() }
    }

    /// Records an uploaded part of `read` bytes; an upload response without
    /// an ETag fails the upload.
    pub fn record_part(&mut self, read: usize, etag: Option<String>) -> (r: Result<(), String>)
        requires
            old(self).part_number < i32::MAX,
            old(self).uploaded + read <= u64::MAX,
        ensures
            etag is None ==> (r matches Err(m) && m@ == "upload_part "@ + decimal_int(
                old(self).part_number as int,
            ) + " missing etag"@ && final(self).part_number == old(self).part_number
                && final(self).uploaded == old(self).uploaded && final(self).parts@ == old(
                self,
            ).parts@),
            etag matches Some(e) ==> (r is Ok && final(self).part_number == old(self).part_number
                + 1 && final(self).uploaded == old(self).uploaded + read && final(self).parts.len()
                == old(self).parts.len() + 1 && final(self).parts@.last().0 == old(
                self,
            ).part_number && final(self).parts@.last().1@ == e@ && final(self).parts@.drop_last()
                == old(self).parts@),
    {
        match etag {
            None => {
                let mut m = chars_of("upload_part ");
                push_all(&mut m, &i64_to_decimal(self.part_number as i64));
                push_str(&mut m, " missing etag");
                Err(string_of(&m))
            },
            Some(e) => {
                let ghost before = self.parts@;
                self.parts.push((self.part_number, e));
                assert(self.parts@.drop_last() =~= before);
                self.uploaded = self.uploaded + read as u64;
                self.part_number = self.part_number + 1;
                Ok(())
            },
        }
    }
}

} // verus!
