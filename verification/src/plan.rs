//! The plan of a download: whether saved resume state still applies, how the
//! file is split, how much of it is already on disk, which transfer strategy
//! runs, and what a failed segmented transfer leads to.

use vstd::prelude::*;
use crate::http::{HttpMeta, opt_view};
use crate::text::str_eq;
use crate::error::Error;
use crate::segment::{
    Segment, build_segments, build_segments_with_chunk_size, chunk_count, downloaded_sum,
    is_fresh_tiling, segment_count, even_split, chunked_split, effective_chunk,
};

verus! {

/// Segment size of experimental entropy mode: 4 MiB.
pub const EXPERIMENTAL_SEGMENT_SIZE: u64 = 4 * 1024 * 1024;

/// A request to stop a running download.
#[derive(Clone, Copy, Debug, PartialEq, Eq)]
pub enum StopSignal {
    NoStop,
    Pause,
    Cancel,
}

impl StopSignal {
    /// The text that a stop produces as an error: `none`, `interrupted`, `cancelled`.
    pub fn message(&self) -> (s: &'static str)
        ensures
            s@ == match *self {
                StopSignal::NoStop => "none"@,
                StopSignal::Pause => "interrupted"@,
                StopSignal::Cancel => "cancelled"@,
            },
    {
        match self {
            StopSignal::NoStop => "none",
            StopSignal::Pause => "interrupted",
            StopSignal::Cancel => "cancelled",
        }
    }
}

/// The resume state saved next to the output of a segmented download.
#[derive(Clone, Debug)]
pub struct DownloadState {
    pub url: String,
    pub output: String,
    pub total_size: Option<u64>,
    pub etag: Option<String>,
    pub last_modified: Option<String>,
    pub mime_type: Option<String>,
    pub final_url: Option<String>,
    pub segments: Vec<Segment>,
    pub segment_size: Option<u64>,
    pub experimental_entropy: bool,
}

/// How a download is carried out.
#[derive(Clone, Debug)]
pub struct DownloadPlan {
    pub url: String,
    pub output: String,
    pub total_size: Option<u64>,
    pub accept_ranges: bool,
    pub segments: Vec<Segment>,
    pub connections: usize,
    pub segment_size: Option<u64>,
    pub etag: Option<String>,
    pub last_modified: Option<String>,
    pub mime_type: Option<String>,
    pub final_url: String,
    pub if_range: Option<String>,
    pub experimental_entropy: bool,
}

/// The segment size a download uses: 4 MiB chunks in entropy mode, none otherwise.
pub open spec fn planned_segment_size(experimental_entropy: bool) -> Option<u64> {
    if experimental_entropy { Some(EXPERIMENTAL_SEGMENT_SIZE) } else { None }
}

/// Whether saved state `s` describes the same remote file fetched the same
/// way, so that its segments can be resumed.
pub open spec fn state_matches(
    s: DownloadState,
    url: Seq<char>,
    meta: HttpMeta,
    experimental_entropy: bool,
) -> bool {
    &&& s.url@ == url
    &&& s.total_size == meta.size
    &&& opt_view(s.etag) == opt_view(meta.etag)
    &&& opt_view(s.last_modified) == opt_view(meta.last_modified)
    &&& opt_view(s.mime_type) == opt_view(meta.mime_type)
    &&& opt_view(s.final_url) == Some(meta.final_url@)
    &&& s.experimental_entropy == experimental_entropy
    &&& s.segment_size == planned_segment_size(experimental_entropy)
}

fn clone_text(a: &Option<String>) -> (r: Option<String>)
    ensures
        opt_view(r) == opt_view(*a),
{
    match a {
        Some(x) => Some(x.clone()),
        None => None,
    }
}

fn same_size(a: Option<u64>, b: Option<u64>) -> (r: bool)
    ensures
        r == (a == b),
{
    match (a, b) {
        (Some(x), Some(y)) => x == y,
        (None, None) => true,
        _ => false,
    }
}

fn same_text(a: &Option<String>, b: &Option<String>) -> (r: bool)
    ensures
        r == (opt_view(*a) == opt_view(*b)),
{
    match (a, b) {
        (Some(x), Some(y)) => str_eq(x.as_str(), y.as_str()),
        (None, None) => true,
        _ => false,
    }
}

fn matches_state(s: &DownloadState, url: &str, meta: &HttpMeta, experimental_entropy: bool) -> (r: bool)
    ensures
        r == state_matches(*s, url@, *meta, experimental_entropy),
{
    let segment_size = if experimental_entropy { Some(EXPERIMENTAL_SEGMENT_SIZE) } else { None };
    let same_url = str_eq(s.url.as_str(), url);
    let same_final = match &s.final_url {
        Some(f) => str_eq(f.as_str(), meta.final_url.as_str()),
        None => false,
    };
    same_url && same_size(s.total_size, meta.size) && same_text(&s.etag, &meta.etag) && same_text(
        &s.last_modified,
        &meta.last_modified,
    ) && same_text(&s.mime_type, &meta.mime_type) && same_final && s.experimental_entropy
        == experimental_entropy && same_size(s.segment_size, segment_size)
}

/// The fields that a plan made for `url`, the probed `meta` and the entropy
/// mode carries (see `DownloadPlan::new`).
pub open spec fn planned_for(p: DownloadPlan, url: Seq<char>, meta: HttpMeta, experimental_entropy: bool) -> bool {
    &&& p.url@ == url
    &&& p.total_size == meta.size
    &&& opt_view(p.etag) == opt_view(meta.etag)
    &&& opt_view(p.last_modified) == opt_view(meta.last_modified)
    &&& opt_view(p.mime_type) == opt_view(meta.mime_type)
    &&& p.final_url@ == meta.final_url@
    &&& p.segment_size == planned_segment_size(experimental_entropy)
    &&& p.experimental_entropy == experimental_entropy
}

/// `s` is the resume state that plan `p` saves while its segments are `segments`
/// (see `DownloadPlan::resume_state`).
pub open spec fn saved_by(s: DownloadState, p: DownloadPlan, segments: Seq<Segment>) -> bool {
    &&& s.url@ == p.url@
    &&& s.output@ == p.output@
    &&& s.total_size == p.total_size
    &&& opt_view(s.etag) == opt_view(p.etag)
    &&& opt_view(s.last_modified) == opt_view(p.last_modified)
    &&& opt_view(s.mime_type) == opt_view(p.mime_type)
    &&& opt_view(s.final_url) == Some(p.final_url@)
    &&& s.segments@ == segments
    &&& s.segment_size == p.segment_size
    &&& s.experimental_entropy == p.experimental_entropy
}

/// Where a plan's segments come from.
pub open spec fn plan_segments_ok(
    p: DownloadPlan,
    url: Seq<char>,
    meta: HttpMeta,
    connections: nat,
    resume: Option<DownloadState>,
    experimental_entropy: bool,
    output_exists: bool,
) -> bool {
    let resumed = output_exists && resume is Some && state_matches(resume->0, url, meta, experimental_entropy);
    if resumed {
        p.segments@ == resume->0.segments@
    } else if !output_exists && p.accept_ranges {
        let total = p.total_size->0;
        if experimental_entropy {
            chunked_split(p.segments@, total as nat, EXPERIMENTAL_SEGMENT_SIZE as nat)
        } else {
            even_split(p.segments@, total as nat, connections)
        }
    } else {
        p.segments@.len() == 0
    }
}

impl DownloadPlan {
    /// Plans a download of `url` into `output` from the probed metadata:
    /// resumes the saved segments when the output exists and the state still
    /// matches; ranges count only when the size is known; a fresh download with
    /// ranges is split into `connections` parts, or 4 MiB chunks in entropy mode.
    pub fn new(
        url: &str,
        output: String,
        meta: HttpMeta,
        connections: usize,
        resume: Option<DownloadState>,
        experimental_entropy: bool,
        output_exists: bool,
    ) -> (p: DownloadPlan)
        requires
            (!output_exists && experimental_entropy && meta.accept_ranges && meta.size is Some) ==> {
                &&& chunk_count(meta.size->0 as nat, EXPERIMENTAL_SEGMENT_SIZE as nat)
                    * EXPERIMENTAL_SEGMENT_SIZE <= u64::MAX
                &&& chunk_count(meta.size->0 as nat, EXPERIMENTAL_SEGMENT_SIZE as nat) <= usize::MAX
            },
        ensures
            p.url@ == url@,
            p.output == output,
            p.total_size == meta.size,
            p.accept_ranges == (meta.accept_ranges && meta.size is Some),
            p.connections == connection_count(connections as nat),
            p.segment_size == planned_segment_size(experimental_entropy),
            opt_view(p.etag) == opt_view(meta.etag),
            opt_view(p.last_modified) == opt_view(meta.last_modified),
            opt_view(p.mime_type) == opt_view(meta.mime_type),
            p.final_url@ == meta.final_url@,
            opt_view(p.if_range) == if meta.etag is Some { opt_view(meta.etag) } else { opt_view(meta.last_modified) },
            p.experimental_entropy == experimental_entropy,
            planned_for(p, url@, meta, experimental_entropy),
            plan_segments_ok(p, url@, meta, connections as nat, resume, experimental_entropy, output_exists),
    {
        let segment_size = if experimental_entropy { Some(EXPERIMENTAL_SEGMENT_SIZE) } else { None };
        let if_range = if meta.etag.is_some() { clone_text(&meta.etag) } else { clone_text(&meta.last_modified) };
        let mut segments: Vec<Segment> = Vec::new();
        let resumed = match &resume {
            Some(state) => output_exists && matches_state(state, url, &meta, experimental_entropy),
            None => false,
        };
        if resumed {
            match resume {
                Some(state) => {
                    segments = state.segments;
                },
                None => {},
            }
        }
        let accept_ranges = meta.accept_ranges && meta.size.is_some();
        if !output_exists && segments.len() == 0 && accept_ranges {
            match meta.size {
                Some(total) => {
                    segments = if experimental_entropy {
                        build_segments_with_chunk_size(total, EXPERIMENTAL_SEGMENT_SIZE)
                    } else {
                        build_segments(total, connections)
                    };
                },
                None => {},
            }
        }
        DownloadPlan {
            url: crate::text::string_of(crate::text::chars_of(url).as_slice()),
            output,
            total_size: meta.size,
            accept_ranges,
            segments,
            connections: effective_connections(connections),
            segment_size,
            etag: meta.etag,
            last_modified: meta.last_modified,
            mime_type: meta.mime_type,
            final_url: meta.final_url,
            if_range,
            experimental_entropy,
        }
    }
}

/// The transfer strategy of a plan.
#[derive(Clone, Copy, Debug, PartialEq, Eq)]
pub enum Strategy {
    /// One worker per planned segment.
    Segmented,
    /// A fixed pool of workers taking 4 MiB segments from a queue.
    SegmentedQueue,
    /// One stream for the whole file.
    Single,
}

/// The strategy of a plan: segmented when ranges are honored and there are
/// segments (a worker queue in entropy mode, and only with a known size),
/// else a single stream.
pub open spec fn planned_strategy(p: DownloadPlan) -> Strategy {
    if p.accept_ranges && p.segments@.len() > 0 && p.total_size is Some {
        if p.experimental_entropy { Strategy::SegmentedQueue } else { Strategy::Segmented }
    } else {
        Strategy::Single
    }
}

/// What happens after a segmented transfer failed.
#[derive(Clone, Copy, Debug, PartialEq, Eq)]
pub enum FailureAction {
    /// Paused: save the resume state, then report the pause.
    SaveStateAndStop,
    /// Cancelled: delete the output and its resume state, then report the cancel.
    DiscardAndStop,
    /// Ranges turned out unsupported: delete the output and its resume state,
    /// then download the whole file over one stream.
    FallBackToSingle,
    /// Report the failure as it is.
    Fail,
}

/// Why a segmented transfer failed.
#[derive(Clone, Copy, Debug, PartialEq, Eq)]
pub enum SegmentedFailure {
    Stopped(StopSignal),
    RangeUnsupported,
    Other,
}

/// Where the progress of the segment with `id` is recorded: at position `id`
/// when that segment has that id, else at the first segment with that id.
pub open spec fn progress_slot(segs: Seq<Segment>, id: usize) -> Option<int> {
    if (id as int) < segs.len() && segs[id as int].id == id {
        Some(id as int)
    } else if exists|k: int| 0 <= k < segs.len() && segs[k].id == id {
        Some(choose|k: int| 0 <= k < segs.len() && segs[k].id == id && forall|j: int| 0 <= j < k ==> segs[j].id != id)
    } else {
        None
    }
}

/// Records the progress of `updated` in the saved segments (the segment with
/// its id takes its downloaded count; nothing changes when no segment has it).
pub fn apply_segment_progress(segments: &mut Vec<Segment>, updated: &Segment)
    ensures
        final(segments)@.len() == old(segments)@.len(),
        forall|k: int| 0 <= k < old(segments)@.len() ==> #[trigger] final(segments)@[k] == if Some(k) == progress_slot(old(segments)@, updated.id) {
            Segment { downloaded: updated.downloaded, ..old(segments)@[k] }
        } else {
            old(segments)@[k]
        },
{
    let id = updated.id;
    if id < segments.len() && segments[id].id == id {
        let mut seg = segments[id];
        seg.downloaded = updated.downloaded;
        segments.set(id, seg);
        return;
    }
    let mut index: usize = 0;
    while index < segments.len()
        invariant
            segments@ == old(segments)@,
            id == updated.id,
            !((id as int) < segments@.len() && segments@[id as int].id == id),
            index <= segments@.len(),
            forall|j: int| 0 <= j < index ==> segments@[j].id != id,
        decreases segments.len() - index,
    {
        if segments[index].id == id {
            let ghost olds = segments@;
            proof {
                let k = choose|k: int| 0 <= k < olds.len() && olds[k].id == id && forall|j: int| 0 <= j < k ==> olds[j].id != id;
                assert(olds[index as int].id == id);
                if k < index {
                    assert(olds[k].id != id);
                } else if k > index {
                    assert(olds[index as int].id != id);
                }
                assert(progress_slot(olds, id) == Some(index as int));
            }
            let mut seg = segments[index];
            seg.downloaded = updated.downloaded;
            segments.set(index, seg);
            assert forall|k: int| 0 <= k < olds.len() implies #[trigger] segments@[k] == if Some(k) == progress_slot(olds, id) {
                Segment { downloaded: updated.downloaded, ..olds[k] }
            } else {
                olds[k]
            } by {
                if k == index {
                } else {
                    assert(Some(k) != progress_slot(olds, id));
                }
            }
            return;
        }
        index += 1;
    }
    assert(progress_slot(old(segments)@, id) is None);
}

impl DownloadPlan {
    /// How many bytes are already on disk: with ranges and planned segments the
    /// sum of their downloaded counts; with ranges and an existing output its
    /// length (`existing_len`); otherwise 0.
    pub fn already_downloaded(&self, existing_len: Option<u64>) -> (n: u64)
        requires
            downloaded_sum(self.segments@) <= u64::MAX,
        ensures
            n == if self.accept_ranges && self.segments@.len() > 0 {
                downloaded_sum(self.segments@)
            } else if self.accept_ranges && existing_len is Some {
                existing_len->0 as int
            } else {
                0
            },
    {
        if self.accept_ranges && self.segments.len() > 0 {
            return sum_downloaded(&self.segments);
        }
        if self.accept_ranges {
            if let Some(len) = existing_len {
                return len;
            }
        }
        0
    }

    /// The strategy of the plan: segmented when ranges are honored and there
    /// are segments (a worker queue in entropy mode, and only with a known
    /// size), else a single stream.
    pub fn strategy(&self) -> (s: Strategy)
        ensures
            s == planned_strategy(*self),
    {
        if self.accept_ranges && self.segments.len() > 0 && self.total_size.is_some() {
            if self.experimental_entropy {
                Strategy::SegmentedQueue
            } else {
                Strategy::Segmented
            }
        } else {
            Strategy::Single
        }
    }

    /// Where a single-stream transfer starts, given the length of an existing
    /// output (`None` when there is none), and whether that output must be
    /// deleted first: with ranges it is continued, without them it is replaced.
    pub fn single_start(&self, existing_len: Option<u64>) -> (r: (u64, bool))
        ensures
            r == match existing_len {
                Some(len) => if self.accept_ranges { (len, false) } else { (0u64, true) },
                None => (0u64, false),
            },
    {
        match existing_len {
            Some(len) => if self.accept_ranges { (len, false) } else { (0, true) },
            None => (0, false),
        }
    }

    /// Decides what a failed segmented transfer leads to; falling back to a
    /// single stream stops using ranges.
    pub fn on_segmented_failure(&mut self, failure: SegmentedFailure) -> (a: FailureAction)
        ensures
            a == match failure {
                SegmentedFailure::Stopped(StopSignal::Pause) => FailureAction::SaveStateAndStop,
                SegmentedFailure::Stopped(StopSignal::Cancel) => FailureAction::DiscardAndStop,
                SegmentedFailure::RangeUnsupported => FailureAction::FallBackToSingle,
                _ => FailureAction::Fail,
            },
            *final(self) == if a == FailureAction::FallBackToSingle {
                DownloadPlan { accept_ranges: false, ..*old(self) }
            } else {
                *old(self)
            },
    {
        match failure {
            SegmentedFailure::Stopped(StopSignal::Pause) => FailureAction::SaveStateAndStop,
            SegmentedFailure::Stopped(StopSignal::Cancel) => FailureAction::DiscardAndStop,
            SegmentedFailure::RangeUnsupported => {
                self.accept_ranges = false;
                FailureAction::FallBackToSingle
            },
            _ => FailureAction::Fail,
        }
    }

    /// The resume state to save for this plan, holding `segments`.
    pub fn resume_state(&self, segments: Vec<Segment>) -> (s: DownloadState)
        ensures
            s.url@ == self.url@,
            s.output@ == self.output@,
            s.total_size == self.total_size,
            opt_view(s.etag) == opt_view(self.etag),
            opt_view(s.last_modified) == opt_view(self.last_modified),
            opt_view(s.mime_type) == opt_view(self.mime_type),
            opt_view(s.final_url) == Some(self.final_url@),
            s.segments == segments,
            s.segment_size == self.segment_size,
            s.experimental_entropy == self.experimental_entropy,
            saved_by(s, *self, segments@),
    {
        DownloadState {
            url: self.url.clone(),
            output: self.output.clone(),
            total_size: self.total_size,
            etag: clone_text(&self.etag),
            last_modified: clone_text(&self.last_modified),
            mime_type: clone_text(&self.mime_type),
            final_url: Some(self.final_url.clone()),
            segments,
            segment_size: self.segment_size,
            experimental_entropy: self.experimental_entropy,
        }
    }
}

/// Law: the state a plan saves is resumed as it was saved. When a later plan
/// is made for the same URL, the remote file still looks the same (size,
/// validators, type, final URL), the entropy mode is unchanged and the output
/// exists, that plan continues exactly the saved segments.
pub proof fn lemma_saved_state_is_resumed(
    p: DownloadPlan,
    url: Seq<char>,
    meta: HttpMeta,
    experimental_entropy: bool,
    s: DownloadState,
    segments: Seq<Segment>,
    later: DownloadPlan,
    connections: nat,
)
    requires
        planned_for(p, url, meta, experimental_entropy),
        saved_by(s, p, segments),
        plan_segments_ok(later, url, meta, connections, Some(s), experimental_entropy, true),
    ensures
        state_matches(s, url, meta, experimental_entropy),
        later.segments@ == segments,
{
}

/// Law: saved state that does not match the download (another URL, a changed
/// remote file, or another entropy setting) is never reused: the plan either
/// has no segments or splits the file afresh.
pub proof fn lemma_incompatible_state_is_not_reused(
    s: DownloadState,
    url: Seq<char>,
    meta: HttpMeta,
    experimental_entropy: bool,
    p: DownloadPlan,
    connections: nat,
    output_exists: bool,
)
    requires
        !state_matches(s, url, meta, experimental_entropy),
        plan_segments_ok(p, url, meta, connections, Some(s), experimental_entropy, output_exists),
    ensures
        p.segments@.len() == 0 || is_fresh_tiling(p.segments@, p.total_size->0 as nat),
{
}

/// Law: a saved state made in one entropy mode never matches a download in the
/// other mode, so switching the mode starts afresh.
pub proof fn lemma_entropy_switch_mismatches(s: DownloadState, url: Seq<char>, meta: HttpMeta, experimental_entropy: bool)
    requires
        s.experimental_entropy != experimental_entropy,
    ensures
        !state_matches(s, url, meta, experimental_entropy),
{
}

/// Law: a fresh download of a file whose size is known and whose server
/// honors ranges is segmented (over a worker queue in entropy mode), as long
/// as the file is not empty.
pub proof fn lemma_fresh_ranged_download_is_segmented(
    p: DownloadPlan,
    url: Seq<char>,
    meta: HttpMeta,
    connections: nat,
    experimental_entropy: bool,
)
    requires
        planned_for(p, url, meta, experimental_entropy),
        p.accept_ranges == (meta.accept_ranges && meta.size is Some),
        plan_segments_ok(p, url, meta, connections, None, experimental_entropy, false),
        meta.accept_ranges,
        meta.size matches Some(total) && total > 0,
    ensures
        planned_strategy(p) == if experimental_entropy { Strategy::SegmentedQueue } else { Strategy::Segmented },
{
    let total = meta.size->0 as int;
    let c = EXPERIMENTAL_SEGMENT_SIZE as int;
    vstd::arithmetic::div_mod::lemma_div_is_ordered(c, total + c - 1, c);
    vstd::arithmetic::div_mod::lemma_div_basics(c);
}

/// Law: when the server turns out not to honor ranges, the plan falls back to
/// one stream for the whole file.
pub proof fn lemma_range_refusal_falls_back_to_single(p: DownloadPlan)
    ensures
        planned_strategy(DownloadPlan { accept_ranges: false, ..p }) == Strategy::Single,
{
}

/// Law: asking for 0 connections is asking for 1. A plan's segments are
/// right for 0 connections exactly when they are right for 1, and the plan
/// then works with the same connection count, so both downloads split and
/// fetch the file the same way.
pub proof fn lemma_zero_connections_plan_like_one(
    p: DownloadPlan,
    url: Seq<char>,
    meta: HttpMeta,
    resume: Option<DownloadState>,
    experimental_entropy: bool,
    output_exists: bool,
)
    ensures
        plan_segments_ok(p, url, meta, 0, resume, experimental_entropy, output_exists)
            == plan_segments_ok(p, url, meta, 1, resume, experimental_entropy, output_exists),
        connection_count(0) == connection_count(1),
{
}

/// Law: saved state counts as matching only for the same remote file fetched
/// the same way: the same URL, size, ETag, Last-Modified, content type and
/// final URL as the probe found, and the same entropy mode and segment size.
pub proof fn lemma_matching_state_has_same_validators(
    s: DownloadState,
    url: Seq<char>,
    meta: HttpMeta,
    experimental_entropy: bool,
)
    requires
        state_matches(s, url, meta, experimental_entropy),
    ensures
        s.url@ == url,
        s.total_size == meta.size,
        opt_view(s.etag) == opt_view(meta.etag),
        opt_view(s.last_modified) == opt_view(meta.last_modified),
        opt_view(s.mime_type) == opt_view(meta.mime_type),
        opt_view(s.final_url) == Some(meta.final_url@),
        s.experimental_entropy == experimental_entropy,
        s.segment_size == (if experimental_entropy { Some(EXPERIMENTAL_SEGMENT_SIZE) } else { None::<u64> }),
{
}

/// Law: when the output exists, a plan carries saved segments only if the
/// remote file is unchanged since they were saved (same size, ETag and
/// Last-Modified) and then carries exactly those segments; otherwise it has
/// no segments at all.
pub proof fn lemma_resumed_segments_come_from_an_unchanged_file(
    p: DownloadPlan,
    url: Seq<char>,
    meta: HttpMeta,
    connections: nat,
    s: DownloadState,
    experimental_entropy: bool,
)
    requires
        plan_segments_ok(p, url, meta, connections, Some(s), experimental_entropy, true),
        p.segments@.len() > 0,
    ensures
        p.segments@ == s.segments@,
        s.total_size == meta.size,
        opt_view(s.etag) == opt_view(meta.etag),
        opt_view(s.last_modified) == opt_view(meta.last_modified),
        s.url@ == url,
{
}

/// Law: a saved state whose Last-Modified differs from the probed one is
/// never resumed: a plan for an existing output then has no segments.
pub proof fn lemma_changed_last_modified_is_not_resumed(
    p: DownloadPlan,
    url: Seq<char>,
    meta: HttpMeta,
    connections: nat,
    s: DownloadState,
    experimental_entropy: bool,
)
    requires
        plan_segments_ok(p, url, meta, connections, Some(s), experimental_entropy, true),
        opt_view(s.last_modified) != opt_view(meta.last_modified),
    ensures
        p.segments@.len() == 0,
{
}

/// The segments of `segs` with the same ranges, copied.
pub fn copy_segments(segs: &Vec<Segment>) -> (r: Vec<Segment>)
    ensures
        r@ == segs@,
{
    let mut r: Vec<Segment> = Vec::new();
    let mut i: usize = 0;
    while i < segs.len()
        invariant
            i <= segs@.len(),
            r@ == segs@.take(i as int),
        decreases segs.len() - i,
    {
        r.push(segs[i]);
        i += 1;
        assert(r@ =~= segs@.take(i as int));
    }
    assert(segs@.take(segs@.len() as int) =~= segs@);
    r
}

proof fn lemma_downloaded_prefix(segs: Seq<Segment>, k: int)
    requires
        0 <= k <= segs.len(),
    ensures
        downloaded_sum(segs.take(k)) <= downloaded_sum(segs),
    decreases segs.len() - k,
{
    if k < segs.len() {
        lemma_downloaded_prefix(segs, k + 1);
        assert(segs.take(k + 1).drop_last() =~= segs.take(k));
    } else {
        assert(segs.take(k) =~= segs);
    }
}

/// The bytes of `segs` already on disk.
pub fn sum_downloaded(segs: &Vec<Segment>) -> (n: u64)
    requires
        downloaded_sum(segs@) <= u64::MAX,
    ensures
        n == downloaded_sum(segs@),
{
    let mut total: u64 = 0;
    let mut i: usize = 0;
    while i < segs.len()
        invariant
            i <= segs@.len(),
            downloaded_sum(segs@) <= u64::MAX,
            total == downloaded_sum(segs@.take(i as int)),
        decreases segs.len() - i,
    {
        proof {
            lemma_downloaded_prefix(segs@, i + 1);
            assert(segs@.take(i + 1).drop_last() =~= segs@.take(i as int));
        }
        total = total + segs[i].downloaded;
        i += 1;
    }
    assert(segs@.take(segs@.len() as int) =~= segs@);
    total
}

/// Whether the output is already complete before any transfer: it exists,
/// its size is known and at least that many bytes are already on disk.
pub fn complete_before_start(output_exists: bool, total_size: Option<u64>, already: u64) -> (r: Option<u64>)
    ensures
        r == match total_size {
            Some(t) => if output_exists && already >= t { Some(t) } else { None },
            None => None,
        },
{
    match total_size {
        Some(t) => if output_exists && already >= t { Some(t) } else { None },
        None => None,
    }
}

/// Whether a failed download must delete its output and resume state: only
/// when it was cancelled.
pub fn discard_on_failure(stop: Option<StopSignal>) -> (b: bool)
    ensures
        b == (stop == Some(StopSignal::Cancel)),
{
    match stop {
        Some(StopSignal::Cancel) => true,
        _ => false,
    }
}

/// The number of connections a download uses when `connections` are asked
/// for: 0 counts as 1.
pub open spec fn connection_count(connections: nat) -> nat {
    if connections == 0 { 1 } else { connections }
}

/// The connection count a download uses: 0 counts as 1.
pub fn effective_connections(connections: usize) -> (c: usize)
    ensures
        c == connection_count(connections as nat),
{
    if connections == 0 { 1 } else { connections }
}

/// The error a stopped download ends with: `Error::Paused` for a pause,
/// `Error::Cancelled` for a cancel, none when no stop was requested.
pub fn stop_error(signal: StopSignal) -> (e: Option<Error>)
    ensures
        e == match signal {
            StopSignal::Pause => Some(Error::Paused),
            StopSignal::Cancel => Some(Error::Cancelled),
            StopSignal::NoStop => None::<Error>,
        },
{
    match signal {
        StopSignal::Pause => Some(Error::Paused),
        StopSignal::Cancel => Some(Error::Cancelled),
        StopSignal::NoStop => None,
    }
}

} // verus!
