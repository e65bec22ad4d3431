//! The decisions of the download daemon: how many jobs run at once, when
//! progress is written to the database, what a failed job becomes, and what
//! the daemon's answers mean to a client.

use vstd::prelude::*;
use crate::cli::DaemonStatus;
use crate::elapsed::Elapsed;
use crate::format::should_persist_progress;
use crate::text::{chars_of, parse_usize_chars, parse_usize_spec, str_eq, string_of};

verus! {

/// The number of jobs the daemon runs at once: the saved setting when it is a
/// number, else 3; never below 1.
pub fn max_concurrent_setting(value: Option<String>) -> (n: usize)
    ensures
        n == ({
            let v: usize = match value {
                Some(s) => match parse_usize_spec(s@) {
                    Some(v) => v,
                    None => 3,
                },
                None => 3,
            };
            if v < 1 { 1 } else { v }
        }),
{
    let v: usize = match value {
        Some(s) => match parse_usize_chars(&chars_of(s.as_str())) {
            Some(v) => v,
            None => 3,
        },
        None => 3,
    };
    if v < 1 { 1 } else { v }
}

/// The daemon's scheduling state: how many jobs may run at once and whether
/// it is shutting down.
#[derive(Clone, Copy, Debug, PartialEq, Eq)]
pub struct Scheduler {
    pub max_concurrent: usize,
    pub stopping: bool,
}

impl Scheduler {
    pub fn new(max_concurrent: usize) -> (s: Scheduler)
        ensures
            s == (Scheduler { max_concurrent, stopping: false }),
    {
        Scheduler { max_concurrent, stopping: false }
    }

    /// Whether a new job is accepted into the queue: not while stopping.
    pub fn accepts_jobs(&self) -> (b: bool)
        ensures
            b == !self.stopping,
    {
        !self.stopping
    }

    /// Whether another queued job may start while `active` jobs run: not while
    /// stopping, and only below the limit.
    pub fn can_start_more(&self, active: usize) -> (b: bool)
        ensures
            b == (!self.stopping && active < self.max_concurrent),
    {
        !self.stopping && active < self.max_concurrent
    }

    /// Starts shutting down. Returns true the first time, when the running jobs
    /// must be requeued and paused; later calls change nothing.
    pub fn begin_shutdown(&mut self) -> (first: bool)
        ensures
            first == !old(self).stopping,
            *final(self) == (Scheduler { stopping: true, ..*old(self) }),
    {
        if self.stopping {
            return false;
        }
        self.stopping = true;
        true
    }

    /// Whether the daemon is done: shutting down with no job left running.
    pub fn is_done(&self, active: usize) -> (b: bool)
        ensures
            b == (self.stopping && active == 0),
    {
        self.stopping && active == 0
    }
}

/// The job id the daemon answers with when it refuses a new job because it is stopping.
pub const REFUSED_JOB_ID: i64 = -1;

/// Progress of a running job as last written to the database.
#[derive(Clone, Copy, Debug, PartialEq, Eq)]
pub struct ActiveProgress {
    pub downloaded_bytes: u64,
    pub last_db_bytes: u64,
}

impl ActiveProgress {
    /// A job that has not reported anything yet.
    pub fn new() -> (p: ActiveProgress)
        ensures
            p == (ActiveProgress { downloaded_bytes: 0, last_db_bytes: 0 }),
    {
        ActiveProgress { downloaded_bytes: 0, last_db_bytes: 0 }
    }

    /// The job started with `resumed_bytes` already on disk.
    pub fn on_started(&mut self, resumed_bytes: u64)
        ensures
            *final(self) == (ActiveProgress { downloaded_bytes: resumed_bytes, ..*old(self) }),
    {
        self.downloaded_bytes = resumed_bytes;
    }

    /// The job reports `downloaded` bytes, `since_last_write` after the last
    /// database write. Returns whether to write now; a write remembers the count.
    pub fn on_progress(&mut self, downloaded: u64, since_last_write: Elapsed) -> (write: bool)
        ensures
            write == (since_last_write.total_nanos() >= 500_000_000 || downloaded - old(self).last_db_bytes
                >= 512 * 1024),
            final(self).downloaded_bytes == downloaded,
            final(self).last_db_bytes == if write { downloaded } else { old(self).last_db_bytes },
    {
        self.downloaded_bytes = downloaded;
        let write = should_persist_progress(since_last_write, self.last_db_bytes, downloaded);
        if write {
            self.last_db_bytes = downloaded;
        }
        write
    }
}

/// What a job that ended with an error becomes.
#[derive(Clone, Copy, Debug, PartialEq, Eq)]
pub enum FailureDisposition {
    /// It was interrupted (paused for shutdown): back to the queue with its progress.
    Requeue,
    /// It failed: recorded as failed with its message.
    MarkFailed,
}

/// An error text of `interrupted` puts the job back in the queue; anything else marks it failed.
pub fn failure_disposition(message: &str) -> (d: FailureDisposition)
    ensures
        d == if message@ == "interrupted"@ { FailureDisposition::Requeue } else { FailureDisposition::MarkFailed },
{
    if str_eq(message, "interrupted") {
        FailureDisposition::Requeue
    } else {
        FailureDisposition::MarkFailed
    }
}

/// An answer of the daemon.
#[derive(Clone, Debug)]
pub enum DaemonResponse {
    Pong(DaemonStatus),
    Enqueued { id: i64 },
    ShuttingDown,
    Error { message: String },
}

/// The text `unexpected daemon response`.
pub open spec fn unexpected_text() -> Seq<char> {
    "unexpected daemon response"@
}

fn text(s: &str) -> (r: String)
    ensures
        r@ == s@,
{
    string_of(chars_of(s).as_slice())
}

/// What an answer to an enqueue request means: the job id, or why there is none.
pub fn enqueue_result(response: DaemonResponse) -> (r: Result<i64, String>)
    ensures
        match response {
            DaemonResponse::Enqueued { id } => if id >= 0 {
                r == Ok::<i64, String>(id)
            } else {
                r matches Err(m) && m@ == "daemon is stopping"@
            },
            DaemonResponse::Error { message } => r matches Err(m) && m@ == message@,
            DaemonResponse::Pong(_) => r matches Err(m) && m@ == unexpected_text(),
            DaemonResponse::ShuttingDown => r matches Err(m) && m@ == "daemon is shutting down"@,
        },
{
    match response {
        DaemonResponse::Enqueued { id } => if id >= 0 {
            Ok(id)
        } else {
            Err(text("daemon is stopping"))
        },
        DaemonResponse::Error { message } => Err(message),
        DaemonResponse::Pong(_) => Err(text("unexpected daemon response")),
        DaemonResponse::ShuttingDown => Err(text("daemon is shutting down")),
    }
}

/// What an answer to a ping means: the daemon's status, or why there is none.
pub fn status_result(response: DaemonResponse) -> (r: Result<DaemonStatus, String>)
    ensures
        match response {
            DaemonResponse::Pong(status) => r == Ok::<DaemonStatus, String>(status),
            DaemonResponse::Error { message } => r matches Err(m) && m@ == message@,
            DaemonResponse::Enqueued { .. } => r matches Err(m) && m@ == unexpected_text(),
            DaemonResponse::ShuttingDown => r matches Err(m) && m@ == "daemon is shutting down"@,
        },
{
    match response {
        DaemonResponse::Pong(status) => Ok(status),
        DaemonResponse::Error { message } => Err(message),
        DaemonResponse::Enqueued { .. } => Err(text("unexpected daemon response")),
        DaemonResponse::ShuttingDown => Err(text("daemon is shutting down")),
    }
}

/// What an answer to a shutdown request means: accepted, or why not.
pub fn stop_result(response: DaemonResponse) -> (r: Result<(), String>)
    ensures
        match response {
            DaemonResponse::ShuttingDown => r is Ok,
            DaemonResponse::Error { message } => r matches Err(m) && m@ == message@,
            DaemonResponse::Pong(_) => r matches Err(m) && m@ == unexpected_text(),
            DaemonResponse::Enqueued { .. } => r matches Err(m) && m@ == unexpected_text(),
        },
{
    match response {
        DaemonResponse::ShuttingDown => Ok(()),
        DaemonResponse::Error { message } => Err(message),
        DaemonResponse::Pong(_) => Err(text("unexpected daemon response")),
        DaemonResponse::Enqueued { .. } => Err(text("unexpected daemon response")),
    }
}

/// Law: a job stopped by a pause (as at daemon shutdown) goes back to the
/// queue, while a cancelled job does not: the text of `Error::Paused` is the
/// one that `failure_disposition` requeues, and the text of
/// `Error::Cancelled` is not.
pub proof fn lemma_paused_job_is_requeued()
    ensures
        crate::error::error_text(crate::error::Error::Paused) == "interrupted"@,
        crate::error::error_text(crate::error::Error::Cancelled) != "interrupted"@,
{
    reveal_strlit("interrupted");
    assert(crate::error::error_text(crate::error::Error::Paused) =~= "interrupted"@);
    assert(crate::error::error_text(crate::error::Error::Cancelled).len() != "interrupted"@.len());
}

} // verus!
