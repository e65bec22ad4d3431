//! Download history records, the file layout of the data directory, and the
//! presentation of job states.

use vstd::prelude::*;
use crate::api::DownloadRequest;
use crate::elapsed::Elapsed;
use crate::output::{join_path, joined_path};
use crate::text::str_eq;

verus! {

/// One row of the download history.
#[derive(Clone, Debug)]
pub struct DownloadRecord {
    pub id: i64,
    pub url: String,
    pub output_path: String,
    pub status: String,
    pub error_message: Option<String>,
    pub queue_name: String,
    pub priority: i64,
    pub total_bytes: Option<i64>,
    pub downloaded_bytes: i64,
    pub started_at: i64,
    pub finished_at: Option<i64>,
    pub created_at: i64,
    pub updated_at: i64,
}

/// The output path recorded for a queued job: the requested one, or empty
/// while it is still to be inferred.
pub fn queued_output_path(request: &DownloadRequest) -> (p: &str)
    ensures
        p@ == match request.output {
            Some(o) => o@,
            None => Seq::<char>::empty(),
        },
{
    match &request.output {
        Some(o) => o.as_str(),
        None => {
            proof {
                reveal_strlit("");
            }
            ""
        },
    }
}

/// A timestamp in whole seconds since the Unix epoch, given how long ago the
/// epoch was (`None` when the clock reads earlier than the epoch, which gives 0).
pub fn now_ts(since_epoch: Option<Elapsed>) -> (t: i64)
    ensures
        t == match since_epoch {
            Some(d) => (d.spec_secs() as u64) as i64,
            None => 0,
        },
{
    match since_epoch {
        Some(d) => d.as_secs() as i64,
        None => 0,
    }
}

/// The database file in the data directory.
pub fn db_path(data_dir: &str) -> (p: String)
    ensures
        p@ == joined_path(data_dir@, "arkama.sqlite"@),
{
    join_path(data_dir, "arkama.sqlite")
}

/// The file in the data directory where the daemon publishes its address.
pub fn daemon_addr_path(data_dir: &str) -> (p: String)
    ensures
        p@ == joined_path(data_dir@, "daemon.addr"@),
{
    join_path(data_dir, "daemon.addr")
}

/// The daemon's log file in the data directory.
pub fn daemon_log_path(data_dir: &str) -> (p: String)
    ensures
        p@ == joined_path(data_dir@, "daemon.log"@),
{
    join_path(data_dir, "daemon.log")
}

/// The colour a job state is shown in.
#[derive(Clone, Copy, Debug, PartialEq, Eq)]
pub enum StatusColor {
    Red,
    Green,
    Cyan,
    Blue,
    Yellow,
    DarkYellow,
    White,
}

/// Failed states are red, finished green, queued cyan, starting and running
/// blue, paused yellow, cancelled dark yellow, anything else white.
pub fn status_color(status: &str) -> (c: StatusColor)
    ensures
        c == if crate::http::has_prefix(status@, "failed"@) {
            StatusColor::Red
        } else if status@ == "finished"@ {
            StatusColor::Green
        } else if status@ == "queued"@ {
            StatusColor::Cyan
        } else if status@ == "starting"@ || status@ == "running"@ {
            StatusColor::Blue
        } else if status@ == "paused"@ {
            StatusColor::Yellow
        } else if status@ == "cancelled"@ {
            StatusColor::DarkYellow
        } else {
            StatusColor::White
        },
{
    let chars = crate::text::chars_of(status);
    let failed = crate::text::chars_of("failed");
    if crate::http::starts_with_chars(&chars, &failed) {
        StatusColor::Red
    } else if str_eq(status, "finished") {
        StatusColor::Green
    } else if str_eq(status, "queued") {
        StatusColor::Cyan
    } else if str_eq(status, "starting") || str_eq(status, "running") {
        StatusColor::Blue
    } else if str_eq(status, "paused") {
        StatusColor::Yellow
    } else if str_eq(status, "cancelled") {
        StatusColor::DarkYellow
    } else {
        StatusColor::White
    }
}

} // verus!
