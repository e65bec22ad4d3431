//! The decisions of the desktop window: its settings, its queue of waiting
//! downloads, the request it builds for each one, and what becomes of a
//! download that the user stopped or that failed.

use vstd::prelude::*;
use std::collections::VecDeque;
use crate::api::DownloadRequest;
use crate::cli::{byte_size_of, read_byte_size};
use crate::http::{has_prefix, starts_with_chars};
use crate::text::{
    chars_of, decimal, parse_usize_chars, parse_usize_spec, push_decimal, push_str, str_eq, string_of,
    trim_chars, trimmed,
};

verus! {

/// The window's settings as saved in the database (`None` when never set).
#[derive(Clone, Debug)]
pub struct SavedSettings {
    pub download_dir: Option<String>,
    pub max_concurrent: Option<String>,
    pub connections: Option<String>,
    pub speed_limit: Option<String>,
    pub user_agent: Option<String>,
    pub dark_mode: Option<String>,
    pub onboarding_complete: Option<String>,
}

/// The settings the window works with.
#[derive(Clone, Debug)]
pub struct WindowSettings {
    pub download_dir: String,
    pub max_concurrent: usize,
    pub connections: usize,
    pub speed_limit: String,
    pub user_agent: String,
    pub dark_mode: bool,
    pub show_onboarding: bool,
}

/// A saved number, or `default` when it is absent or not a number.
pub open spec fn number_or(v: Option<String>, default: usize) -> usize {
    match v {
        Some(s) => match parse_usize_spec(s@) {
            Some(n) => n,
            None => default,
        },
        None => default,
    }
}

/// A saved switch: on exactly when it reads `true`; `default` when absent.
pub open spec fn switch_or(v: Option<String>, default: bool) -> bool {
    match v {
        Some(s) => s@ == "true"@,
        None => default,
    }
}

/// A saved text, or the empty text when absent.
pub open spec fn text_or_empty(v: Option<String>) -> Seq<char> {
    match v {
        Some(s) => s@,
        None => Seq::empty(),
    }
}

fn number_setting(v: Option<String>, default: usize) -> (n: usize)
    ensures
        n == number_or(v, default),
{
    match v {
        Some(s) => match parse_usize_chars(&chars_of(s.as_str())) {
            Some(n) => n,
            None => default,
        },
        None => default,
    }
}

fn switch_setting(v: Option<String>, default: bool) -> (b: bool)
    ensures
        b == switch_or(v, default),
{
    match v {
        Some(s) => str_eq(s.as_str(), "true"),
        None => default,
    }
}

fn text_setting(v: Option<String>) -> (s: String)
    ensures
        s@ == text_or_empty(v),
{
    match v {
        Some(s) => s,
        None => String::new(),
    }
}

/// The window's settings from the saved ones: the saved download folder or
/// `default_dir`; at most 3 downloads at once and 4 connections each unless
/// saved; empty speed limit and user agent unless saved; dark mode unless
/// switched off; the welcome screen until it was completed once.
pub fn window_settings(saved: SavedSettings, default_dir: String) -> (w: WindowSettings)
    ensures
        w.download_dir == match saved.download_dir {
            Some(d) => d,
            None => default_dir,
        },
        w.max_concurrent == number_or(saved.max_concurrent, 3),
        w.connections == number_or(saved.connections, 4),
        w.speed_limit@ == text_or_empty(saved.speed_limit),
        w.user_agent@ == text_or_empty(saved.user_agent),
        w.dark_mode == switch_or(saved.dark_mode, true),
        w.show_onboarding == !switch_or(saved.onboarding_complete, false),
{
    let download_dir = match saved.download_dir {
        Some(d) => d,
        None => default_dir,
    };
    WindowSettings {
        download_dir,
        max_concurrent: number_setting(saved.max_concurrent, 3),
        connections: number_setting(saved.connections, 4),
        speed_limit: text_setting(saved.speed_limit),
        user_agent: text_setting(saved.user_agent),
        dark_mode: switch_setting(saved.dark_mode, true),
        show_onboarding: !switch_setting(saved.onboarding_complete, false),
    }
}

/// A count typed into the settings window: a number, raised to at least 1;
/// `None` (the setting stays as it was) when it is not a number.
pub fn count_setting_input(input: &str) -> (r: Option<usize>)
    ensures
        r == match parse_usize_spec(input@) {
            Some(v) => Some(if v < 1 { 1 } else { v }),
            None => None::<usize>,
        },
{
    match parse_usize_chars(&chars_of(input)) {
        Some(v) => Some(if v < 1 { 1 } else { v }),
        None => None,
    }
}

/// Text typed into a field, trimmed; `None` when nothing but blanks is left
/// (a download needs a URL, the download folder a path).
pub fn nonblank_input(input: &str) -> (r: Option<String>)
    ensures
        match r {
            Some(s) => trimmed(input@).len() > 0 && s@ == trimmed(input@),
            None => trimmed(input@).len() == 0,
        },
{
    let t = trim_chars(&chars_of(input));
    if t.len() == 0 {
        None
    } else {
        Some(string_of(t.as_slice()))
    }
}

/// Whether pasted text is taken as the URL to download: it starts with
/// `http://` or `https://`.
pub fn is_pasteable_url(text: &str) -> (b: bool)
    ensures
        b == (has_prefix(text@, "http://"@) || has_prefix(text@, "https://"@)),
{
    let t = chars_of(text);
    starts_with_chars(&t, &chars_of("http://")) || starts_with_chars(&t, &chars_of("https://"))
}

/// A download waiting for a free slot: its URL, and its output path when one
/// is already fixed.
#[derive(Clone, Debug)]
pub struct PendingDownload {
    pub url: String,
    pub output: Option<String>,
}

/// Resuming a download from the history queues its URL again, with its
/// recorded output path when one was recorded.
pub fn resume_pending(url: String, output_path: String) -> (p: PendingDownload)
    ensures
        p.url == url,
        p.output == if output_path@.len() == 0 { None } else { Some(output_path) },
{
    let output = if output_path.as_str().is_empty() {
        None
    } else {
        Some(output_path)
    };
    PendingDownload { url, output }
}

/// Downloads waiting for a free slot, oldest first.
pub struct PendingQueue {
    items: VecDeque<PendingDownload>,
}

impl PendingQueue {
    /// The waiting downloads, oldest first.
    pub closed spec fn waiting(&self) -> Seq<PendingDownload> {
        self.items@
    }

    pub fn new() -> (q: PendingQueue)
        ensures
            q.waiting() == Seq::<PendingDownload>::empty(),
    {
        PendingQueue { items: VecDeque::new() }
    }

    pub fn len(&self) -> (n: usize)
        ensures
            n == self.waiting().len(),
    {
        self.items.len()
    }

    /// Puts a download at the back of the queue.
    pub fn push(&mut self, p: PendingDownload)
        ensures
            final(self).waiting() == old(self).waiting().push(p),
    {
        self.items.push_back(p);
    }

    /// The oldest waiting download, which leaves the queue, when fewer than
    /// `max_concurrent` downloads are running; otherwise nothing changes.
    pub fn next_to_start(&mut self, running: usize, max_concurrent: usize) -> (r: Option<PendingDownload>)
        ensures
            running < max_concurrent && old(self).waiting().len() > 0 ==> {
                &&& r == Some(old(self).waiting()[0])
                &&& final(self).waiting() == old(self).waiting().drop_first()
            },
            !(running < max_concurrent && old(self).waiting().len() > 0) ==> {
                &&& r is None
                &&& final(self).waiting() == old(self).waiting()
            },
    {
        if running >= max_concurrent {
            return None;
        }
        let r = self.items.pop_front();
        proof {
            if r is Some {
                assert(old(self).waiting().subrange(1, old(self).waiting().len() as int)
                    =~= old(self).waiting().drop_first());
            }
        }
        r
    }
}

/// Why the user stopped a running download.
#[derive(Clone, Copy, Debug, PartialEq, Eq)]
pub enum StopReason {
    Pause,
    Cancel,
}

/// The number of downloads that still run: those the user has not stopped.
pub open spec fn running_in(stops: Seq<Option<StopReason>>) -> nat {
    stops.filter(|s: Option<StopReason>| s is None).len()
}

/// How many of the downloads, given what the user did to each, still run.
pub fn running_count(stops: &Vec<Option<StopReason>>) -> (n: usize)
    ensures
        n == running_in(stops@),
{
    let mut n: usize = 0;
    let mut i: usize = 0;
    assert(stops@.take(0) =~= Seq::<Option<StopReason>>::empty());
    while i < stops.len()
        invariant
            i <= stops@.len(),
            n == running_in(stops@.take(i as int)),
            n <= i,
        decreases stops.len() - i,
    {
        proof {
            assert(stops@.take(i + 1) =~= stops@.take(i as int).push(stops@[i as int]));
            stops@.take(i as int).lemma_filter_push(stops@[i as int], |s: Option<StopReason>| s is None);
        }
        if stops[i].is_none() {
            n += 1;
        }
        i += 1;
    }
    assert(stops@.take(stops@.len() as int) =~= stops@);
    n
}

/// The request the window sends for a waiting download: into the download
/// folder with the configured connections, no speed limit when the field is
/// empty or is not a byte size, no user agent when that field is empty, and
/// never in entropy mode.
pub fn window_request(
    pending: PendingDownload,
    download_dir: String,
    connections: usize,
    speed_limit_input: &str,
    user_agent_input: &str,
) -> (r: DownloadRequest)
    ensures
        r.url == pending.url,
        r.output == pending.output,
        r.output_dir == Some(download_dir),
        r.connections == connections,
        r.limit == if speed_limit_input@.len() == 0 { None } else { byte_size_of(speed_limit_input@) },
        match r.user_agent {
            Some(a) => user_agent_input@.len() > 0 && a@ == user_agent_input@,
            None => user_agent_input@.len() == 0,
        },
        !r.experimental_entropy,
{
    let limit = if speed_limit_input.is_empty() {
        None
    } else {
        match read_byte_size(speed_limit_input) {
            Ok(v) => Some(v),
            Err(_) => None,
        }
    };
    let user_agent = if user_agent_input.is_empty() {
        None
    } else {
        Some(string_of(chars_of(user_agent_input).as_slice()))
    };
    DownloadRequest {
        url: pending.url,
        output: pending.output,
        output_dir: Some(download_dir),
        connections,
        user_agent,
        limit,
        experimental_entropy: false,
    }
}

/// What the window does with a download that ended with an error.
#[derive(Clone, Copy, Debug, PartialEq, Eq)]
pub enum WindowFailure {
    /// Paused by the user: the history already says so; nothing more.
    KeepPaused,
    /// Cancelled by the user: delete the partial output and its resume state.
    RemoveOutput,
    /// Interrupted without a request of the user: nothing is recorded.
    Ignore,
    /// Any other error: recorded as failed with its message.
    MarkFailed,
}

/// A download that the user paused stays paused, one that the user
/// cancelled loses its partial output, an interruption is ignored, and any
/// other error is recorded.
pub fn window_failure(stop: Option<StopReason>, message: &str) -> (f: WindowFailure)
    ensures
        f == match stop {
            Some(StopReason::Pause) => WindowFailure::KeepPaused,
            Some(StopReason::Cancel) => WindowFailure::RemoveOutput,
            None => if message@ == "interrupted"@ {
                WindowFailure::Ignore
            } else {
                WindowFailure::MarkFailed
            },
        },
{
    match stop {
        Some(StopReason::Pause) => WindowFailure::KeepPaused,
        Some(StopReason::Cancel) => WindowFailure::RemoveOutput,
        None => if str_eq(message, "interrupted") {
            WindowFailure::Ignore
        } else {
            WindowFailure::MarkFailed
        },
    }
}

/// The status bar: `Active: <running> | Queued: <waiting>`.
pub fn status_line(active: usize, queued: usize) -> (s: String)
    ensures
        s@ == "Active: "@ + decimal(active as nat) + " | Queued: "@ + decimal(queued as nat),
{
    let mut out: Vec<char> = Vec::new();
    push_str(&mut out, "Active: ");
    push_decimal(&mut out, active as u128);
    push_str(&mut out, " | Queued: ");
    push_decimal(&mut out, queued as u128);
    string_of(out.as_slice())
}

} // verus!
