use vstd::prelude::*;

use crate::proposal_store::{uuid_char, uuid_v4_text};
use crate::s3_ops::{file_name_of, file_name_spec, TransferProgress};
use crate::text::{chars_of, string_from, string_of};

verus! {

/// Which way a transfer goes.
#[derive(Debug, Clone, Copy, PartialEq, Eq, Structural)]
pub enum Direction {
    Upload,
    Download,
}

/// The direction word of progress events.
pub open spec fn direction_name(d: Direction) -> Seq<char> {
    match d {
        Direction::Upload => "upload"@,
        Direction::Download => "download"@,
    }
}

/// The status a progress event reports.
#[derive(Debug, Clone, Copy, PartialEq, Eq, Structural)]
pub enum TransferStatus {
    Started,
    InProgress,
    Paused,
    Cancelled,
    Completed,
    Failed,
}

/// The status word of progress events.
pub open spec fn status_name(s: TransferStatus) -> Seq<char> {
    match s {
        TransferStatus::Started => "started"@,
        TransferStatus::InProgress => "in_progress"@,
        TransferStatus::Paused => "paused"@,
        TransferStatus::Cancelled => "cancelled"@,
        TransferStatus::Completed => "completed"@,
        TransferStatus::Failed => "failed"@,
    }
}

/// What happened to a running transfer.
pub enum TransferEvent {
    /// The download's response gave the object's length.
    Sized(u64),
    /// A chunk of this many bytes was written, or a part of this many bytes
    /// uploaded.
    Chunk(u64),
    /// The transfer is paused; the caller waits for it to resume.
    Paused,
    /// The transfer was cancelled, before a chunk or while paused.
    Cancelled,
    /// Every byte went through.
    Finished,
    /// The transfer failed for another reason.
    Failed,
}

/// What the caller does after an event.
#[derive(Debug, Clone, Copy, PartialEq, Eq, Structural)]
pub enum TransferAction {
    /// Go on with the transfer.
    Continue,
    /// Stop, and remove what the transfer left behind: the partial file of
    /// a download, the multipart upload of an upload.
    CleanUpAndStop,
    /// Stop; the transfer is over.
    Stop,
}

/// One upload or download under way.
pub struct TransferRun {
    pub transfer_id: String,
    pub file_name: String,
    pub direction: Direction,
    /// Bytes through so far.
    pub done: u64,
    /// Bytes in all (zero for a download until its length is known).
    pub total: u64,
}

/// `p` reports `run` at `bytes` bytes with status `s`.
pub open spec fn progress_is(p: TransferProgress, run: TransferRun, bytes: u64, s: TransferStatus) -> bool {
    &&& p.transfer_id@ == run.transfer_id@
    &&& p.file_name@ == run.file_name@
    &&& p.direction@ == direction_name(run.direction)
    &&& p.bytes == bytes
    &&& p.total == run.total
    &&& p.status@ == status_name(s)
}

/// The name a transfer is shown under: the file name of `path`, else
/// `fallback`.
pub open spec fn shown_name(path: Seq<char>, fallback: Seq<char>) -> Seq<char> {
    match file_name_spec(path) {
        Some(n) => n,
        None => fallback,
    }
}

fn status_text(s: TransferStatus) -> (r: String)
    ensures
        r@ == status_name(s),
{
    match s {
        TransferStatus::Started => string_from("started"),
        TransferStatus::InProgress => string_from("in_progress"),
        TransferStatus::Paused => string_from("paused"),
        TransferStatus::Cancelled => string_from("cancelled"),
        TransferStatus::Completed => string_from("completed"),
        TransferStatus::Failed => string_from("failed"),
    }
}

fn direction_text(d: Direction) -> (r: String)
    ensures
        r@ == direction_name(d),
{
    match d {
        Direction::Upload => string_from("upload"),
        Direction::Download => string_from("download"),
    }
}

impl TransferRun {
    fn report(&self, bytes: u64, s: TransferStatus) -> (p: TransferProgress)
        ensures
            progress_is(p, *self, bytes, s),
    {
        TransferProgress {
            transfer_id: string_of(&chars_of(self.transfer_id.as_str())),
            file_name: string_of(&chars_of(self.file_name.as_str())),
            direction: direction_text(self.direction),
            bytes,
            total: self.total,
            status: status_text(s),
        }
    }

    /// Starts a transfer of `total` bytes (zero for a download, whose
    /// length comes with its response).  It is shown under the file name of
    /// `path` (the key of a download, the local file of an upload), else
    /// under `fallback` (the key); without an id it gets a fresh UUID.  The
    /// first event reports it started at zero bytes.
    pub fn start(
        transfer_id: Option<String>,
        path: &str,
        fallback: &str,
        direction: Direction,
        total: u64,
    ) -> (r: (TransferRun, TransferProgress))
        ensures
            match transfer_id {
                Some(t) => r.0.transfer_id@ == t@,
                None => r.0.transfer_id@.len() == 36 && forall|i: int|
                    0 <= i < 36 ==> uuid_char(#[trigger] r.0.transfer_id@[i]),
            },
            r.0.file_name@ == shown_name(path@, fallback@),
            r.0.direction == direction,
            r.0.done == 0,
            r.0.total == total,
            progress_is(r.1, r.0, 0, TransferStatus::Started),
    {
        let id = match transfer_id {
            Some(t) => t,
            None => uuid_v4_text(),
        };
        let name = match file_name_of(path) {
            Some(n) => n,
            None => string_from(fallback),
        };
        let run = TransferRun { transfer_id: id, file_name: name, direction, done: 0, total };
        let p = run.report(0, TransferStatus::Started);
        (run, p)
    }

    /// Takes in an event: the progress to report, if any, and what to do
    /// next.  A chunk adds to the bytes through; a pause and a cancel report
    /// where the transfer stands, and a cancel has the caller clean up and
    /// stop; the end reports every byte through; a failed upload reports
    /// failure at zero bytes, while a failed download reports nothing.
    pub fn on_event(&mut self, e: TransferEvent) -> (r: (Option<TransferProgress>, TransferAction))
        requires
            e matches TransferEvent::Chunk(n) ==> old(self).done + n <= u64::MAX,
        ensures
            final(self).transfer_id@ == old(self).transfer_id@,
            final(self).file_name@ == old(self).file_name@,
            final(self).direction == old(self).direction,
            match e {
                TransferEvent::Sized(t) => final(self).total == t && final(self).done == old(
                    self,
                ).done && r.0 is None && r.1 == TransferAction::Continue,
                TransferEvent::Chunk(n) => final(self).done == old(self).done + n && final(self).total
                    == old(self).total && (r.0 matches Some(p) && progress_is(
                    p,
                    *final(self),
                    final(self).done,
                    TransferStatus::InProgress,
                )) && r.1 == TransferAction::Continue,
                TransferEvent::Paused => final(self).done == old(self).done && final(self).total
                    == old(self).total && (r.0 matches Some(p) && progress_is(
                    p,
                    *final(self),
                    old(self).done,
                    TransferStatus::Paused,
                )) && r.1 == TransferAction::Continue,
                TransferEvent::Cancelled => final(self).done == old(self).done && final(self).total
                    == old(self).total && (r.0 matches Some(p) && progress_is(
                    p,
                    *final(self),
                    old(self).done,
                    TransferStatus::Cancelled,
                )) && r.1 == TransferAction::CleanUpAndStop,
                TransferEvent::Finished => final(self).done == old(self).total && final(self).total
                    == old(self).total && (r.0 matches Some(p) && progress_is(
                    p,
                    *final(self),
                    old(self).total,
                    TransferStatus::Completed,
                )) && r.1 == TransferAction::Stop,
                TransferEvent::Failed => final(self).done == old(self).done && final(self).total
                    == old(self).total && r.1 == TransferAction::Stop && match old(self).direction {
                    Direction::Upload => r.0 matches Some(p) && progress_is(
                        p,
                        *final(self),
                        0,
                        TransferStatus::Failed,
                    ),
                    Direction::Download => r.0 is None,
                },
            },
    {
        match e {
            TransferEvent::Sized(t) => {
                self.total = t;
                (None, TransferAction::Continue)
            },
            TransferEvent::Chunk(n) => {
                self.done = self.done + n;
                (Some(self.report(self.done, TransferStatus::InProgress)), TransferAction::Continue)
            },
            TransferEvent::Paused => {
                (Some(self.report(self.done, TransferStatus::Paused)), TransferAction::Continue)
            },
            TransferEvent::Cancelled => {
                (Some(self.report(self.done, TransferStatus::Cancelled)), TransferAction::CleanUpAndStop)
            },
            TransferEvent::Finished => {
                self.done = self.total;
                (Some(self.report(self.total, TransferStatus::Completed)), TransferAction::Stop)
            },
            TransferEvent::Failed => {
                match self.direction {
                    Direction::Upload => (
                        Some(self.report(0, TransferStatus::Failed)),
                        TransferAction::Stop,
                    ),
                    Direction::Download => (None, TransferAction::Stop),
                }
            },
        }
    }
}

} // verus!
