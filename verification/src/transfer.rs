//! The decisions of a transfer worker, as state machines driven by the I/O
//! loop: when to retry and after how long, where the next request starts,
//! where each received chunk goes, when progress is synced to the shared
//! resume state, and when a transfer is finished or has failed.

use vstd::prelude::*;
use crate::elapsed::Elapsed;
use crate::segment::{Segment, spec_remaining_start};

verus! {

/// Attempts allowed after the first failure before a transfer gives up.
pub const MAX_RETRIES: u32 = 5;

/// Written bytes after which a segment worker syncs its progress into the shared resume state.
pub const STATE_SYNC_BATCH_BYTES: u64 = 84 * 1024;

/// The retry delay after `attempt` failures, in milliseconds: 500 ms doubled
/// per attempt (counting at most 5 doublings), capped at 10 s.
pub open spec fn backoff_millis(attempt: nat) -> nat {
    let doublings: nat = if attempt < 5 { attempt } else { 5 };
    let d = 500 * pow2_small(doublings);
    if d < 10_000 { d } else { 10_000 }
}

pub open spec fn pow2_small(n: nat) -> nat
    decreases n,
{
    if n == 0 { 1 } else { 2 * pow2_small((n - 1) as nat) }
}

/// How long to wait before the next attempt after `attempt` failures.
pub fn backoff_delay(attempt: u32) -> (d: Elapsed)
    ensures
        d.total_nanos() == backoff_millis(attempt as nat) * 1_000_000,
{
    let doublings: u64 = if attempt < 5 { attempt as u64 } else { 5 };
    let mut pow: u64 = 1;
    let mut i: u64 = 0;
    while i < doublings
        invariant
            i <= doublings <= 5,
            pow == pow2_small(i as nat),
            pow <= 32,
        decreases doublings - i,
    {
        proof {
            reveal_with_fuel(pow2_small, 6);
            assert(pow2_small((i + 1) as nat) == 2 * pow2_small(i as nat));
            assert(i + 1 <= 5);
            if i + 1 <= 5 {
                assert(pow2_small((i + 1) as nat) <= 32) by {
                    reveal_with_fuel(pow2_small, 6);
                }
            }
        }
        pow = pow * 2;
        i = i + 1;
    }
    let delay = 500 * pow;
    let ms = if delay < 10_000 { delay } else { 10_000 };
    Elapsed::from_millis(ms)
}

proof fn lemma_pow2_small_monotone(a: nat, b: nat)
    requires
        a <= b,
    ensures
        pow2_small(a) <= pow2_small(b),
        pow2_small(a) >= 1,
    decreases b,
{
    if b > 0 && a < b {
        lemma_pow2_small_monotone(a, (b - 1) as nat);
    } else if b > 0 {
        lemma_pow2_small_monotone((a - 1) as nat, (b - 1) as nat);
    }
}

/// Law: retry delays never shrink as failures accumulate, start at 500 ms and
/// never exceed 10 s.
pub proof fn lemma_backoff_grows_and_is_capped(a: nat, b: nat)
    requires
        a <= b,
    ensures
        backoff_millis(a) <= backoff_millis(b),
        500 <= backoff_millis(a) <= 10_000,
{
    let da: nat = if a < 5 { a } else { 5 };
    let db: nat = if b < 5 { b } else { 5 };
    lemma_pow2_small_monotone(da, db);
    lemma_pow2_small_monotone(0, da);
}

/// Why a transfer stopped without finishing.
#[derive(Clone, Copy, Debug, PartialEq, Eq)]
pub enum TransferFailure {
    /// The request kept failing.
    RequestFailed,
    /// The server did not answer a range request with 206 Partial Content.
    RangeUnsupported,
    /// The body stream kept failing.
    StreamFailed,
    /// The body kept ending before all expected bytes arrived.
    EndedEarly,
    /// Slow connections were recycled too often.
    RecyclingExhausted,
}

/// What the worker does after a failed attempt.
#[derive(Clone, Copy, Debug, PartialEq, Eq)]
pub enum Retry {
    /// Wait this long, then send the next request.
    After(Elapsed),
    /// Give up with this failure.
    GiveUp(TransferFailure),
}

/// `r` is the decision after a failure that has raised the attempt count to
/// `attempts`: give up with `failure` beyond `MAX_RETRIES`, else wait the backoff.
pub open spec fn is_retry_decision(r: Retry, attempts: nat, failure: TransferFailure) -> bool {
    match r {
        Retry::After(d) => attempts <= MAX_RETRIES && d.total_nanos() == backoff_millis(attempts) * 1_000_000,
        Retry::GiveUp(f) => attempts > MAX_RETRIES && f == failure,
    }
}

fn decide_retry(attempts: u32, failure: TransferFailure) -> (r: Retry)
    ensures
        is_retry_decision(r, attempts as nat, failure),
{
    if attempts > MAX_RETRIES {
        Retry::GiveUp(failure)
    } else {
        Retry::After(backoff_delay(attempts))
    }
}

/// The transfer of one segment by one worker.
#[derive(Clone, Debug)]
pub struct SegmentTransfer {
    /// The segment, with the bytes of it that are on disk.
    pub segment: Segment,
    /// Failed attempts so far.
    pub attempts: u32,
    /// Offset at which the current request starts.
    pub start: u64,
    /// Offset at which the next received byte is written.
    pub offset: u64,
    /// Bytes written since progress was last synced to the shared state.
    pub pending_sync: u64,
}

/// What the worker does once a body stream stops.
#[derive(Clone, Copy, Debug, PartialEq, Eq)]
pub enum StreamOutcome {
    /// The segment is complete.
    Finished,
    /// Request again from `start`, immediately or after the backoff.
    Again(Retry),
}

/// The transfer after a failed attempt: one more attempt counted, nothing
/// pending, and, when it is retried, the next request starting at the first
/// missing byte of the segment.
pub open spec fn retried(t: SegmentTransfer, again: bool) -> SegmentTransfer {
    SegmentTransfer {
        attempts: (t.attempts + 1) as u32,
        start: if again { (t.segment.start + t.segment.downloaded) as u64 } else { t.start },
        pending_sync: 0,
        ..t
    }
}

/// The segment holds every byte of its range (`end - start + 1` bytes,
/// counting an inverted range as one byte).
pub open spec fn segment_complete(seg: Segment) -> bool {
    seg.downloaded >= if seg.end >= seg.start { seg.end - seg.start + 1 } else { 1 }
}

/// The transfer once `len` more bytes arrived: written at the current offset,
/// which moves past them; the segment counts them; a full batch of pending
/// progress is synced.
pub open spec fn segment_chunk(t: SegmentTransfer, len: nat) -> SegmentTransfer {
    SegmentTransfer {
        offset: (t.offset + len) as u64,
        segment: Segment { downloaded: (t.segment.downloaded + len) as u64, ..t.segment },
        pending_sync: if t.pending_sync + len >= STATE_SYNC_BATCH_BYTES { 0 } else { (t.pending_sync + len) as u64 },
        ..t
    }
}

/// The sum of the lengths in `lens`.
pub open spec fn total_len(lens: Seq<nat>) -> nat
    decreases lens.len(),
{
    if lens.len() == 0 { 0 } else { total_len(lens.drop_last()) + lens.last() }
}

/// The transfer after chunks of the lengths in `lens` arrived, in order.
pub open spec fn segment_chunks(t: SegmentTransfer, lens: Seq<nat>) -> SegmentTransfer
    decreases lens.len(),
{
    if lens.len() == 0 { t } else { segment_chunk(segment_chunks(t, lens.drop_last()), lens.last()) }
}

proof fn lemma_segment_chunks_advance(t: SegmentTransfer, lens: Seq<nat>)
    requires
        t.offset + total_len(lens) <= u64::MAX,
        t.segment.downloaded + total_len(lens) <= u64::MAX,
    ensures
        segment_chunks(t, lens).offset == t.offset + total_len(lens),
        segment_chunks(t, lens).segment.downloaded == t.segment.downloaded + total_len(lens),
        segment_chunks(t, lens).segment == (Segment { downloaded: segment_chunks(t, lens).segment.downloaded, ..t.segment }),
        segment_chunks(t, lens).start == t.start,
        segment_chunks(t, lens).attempts == t.attempts,
    decreases lens.len(),
{
    if lens.len() > 0 {
        lemma_segment_chunks_advance(t, lens.drop_last());
    }
}

/// Law: one uninterrupted response completes a segment. A transfer whose
/// request starts at the first missing byte and was answered with 206 (so its
/// offset is that byte) writes each arriving chunk right after the previous
/// one, and once the chunks add up to the missing bytes the segment holds its
/// whole range and the stream end reports it finished.
pub proof fn lemma_segment_run_completes(t: SegmentTransfer, lens: Seq<nat>)
    requires
        t.segment.start <= t.segment.end < u64::MAX,
        t.start == t.segment.start + t.segment.downloaded,
        t.offset == t.start,
        t.start <= t.segment.end,
        total_len(lens) == t.segment.end + 1 - t.start,
    ensures
        forall|i: int| 0 <= i < lens.len() ==> (#[trigger] segment_chunks(t, lens.take(i))).offset == t.start
            + total_len(lens.take(i)),
        segment_chunks(t, lens).offset == t.segment.end + 1,
        segment_chunks(t, lens).segment.downloaded == t.segment.end - t.segment.start + 1,
        segment_complete(segment_chunks(t, lens).segment),
{
    lemma_segment_chunks_advance(t, lens);
    assert forall|i: int| 0 <= i < lens.len() implies (#[trigger] segment_chunks(t, lens.take(i))).offset == t.start
        + total_len(lens.take(i)) by {
        lemma_total_len_prefix(lens, i);
        lemma_segment_chunks_advance(t, lens.take(i));
    }
}

proof fn lemma_total_len_prefix(lens: Seq<nat>, i: int)
    requires
        0 <= i <= lens.len(),
    ensures
        total_len(lens.take(i)) <= total_len(lens),
    decreases lens.len() - i,
{
    if i < lens.len() {
        lemma_total_len_prefix(lens, i + 1);
        assert(lens.take(i + 1).drop_last() =~= lens.take(i));
    } else {
        assert(lens.take(i) =~= lens);
    }
}

impl SegmentTransfer {
    /// Starts the transfer of `segment`, or `None` when every byte of it is
    /// already on disk. The first request starts at the first missing byte.
    pub fn begin(segment: Segment) -> (t: Option<SegmentTransfer>)
        requires
            segment.start + segment.downloaded <= u64::MAX,
        ensures
            t is None <==> spec_remaining_start(segment) is None,
            t matches Some(t) ==> t == (SegmentTransfer {
                segment,
                attempts: 0,
                start: spec_remaining_start(segment)->0,
                offset: spec_remaining_start(segment)->0,
                pending_sync: 0,
            }),
    {
        match segment.remaining_start() {
            Some(start) => Some(SegmentTransfer { segment, attempts: 0, start, offset: start, pending_sync: 0 }),
            None => None,
        }
    }

    /// The byte range `start..=end` that the next request asks for.
    pub fn request_range(&self) -> (r: (u64, u64))
        ensures
            r == (self.start, self.segment.end),
    {
        (self.start, self.segment.end)
    }

    /// The request failed: count the attempt and decide whether to retry the same range.
    pub fn on_request_failed(&mut self) -> (r: Retry)
        requires
            old(self).attempts <= MAX_RETRIES,
        ensures
            *final(self) == (SegmentTransfer { attempts: (old(self).attempts + 1) as u32, ..*old(self) }),
            is_retry_decision(r, final(self).attempts as nat, TransferFailure::RequestFailed),
    {
        self.attempts = self.attempts + 1;
        decide_retry(self.attempts, TransferFailure::RequestFailed)
    }

    /// A response arrived with `status`: anything but 206 means the server
    /// ignores ranges; otherwise writing starts at the requested offset.
    pub fn on_response(&mut self, status: u16) -> (r: Result<(), TransferFailure>)
        ensures
            status != crate::http::PARTIAL_CONTENT ==> r == Err::<(), TransferFailure>(TransferFailure::RangeUnsupported)
                && *final(self) == *old(self),
            status == crate::http::PARTIAL_CONTENT ==> r is Ok && *final(self) == (SegmentTransfer {
                offset: old(self).start,
                pending_sync: 0,
                ..*old(self)
            }),
    {
        if status != crate::http::PARTIAL_CONTENT {
            return Err(TransferFailure::RangeUnsupported);
        }
        self.offset = self.start;
        self.pending_sync = 0;
        Ok(())
    }

    /// `len` bytes arrived: they go at the current offset, which then moves
    /// past them; the segment counts them as downloaded. Returns the offset to
    /// write at and whether progress must now be synced (a full batch is pending).
    pub fn on_chunk(&mut self, len: u64) -> (r: (u64, bool))
        requires
            old(self).offset + len <= u64::MAX,
            old(self).segment.downloaded + len <= u64::MAX,
            old(self).pending_sync + len <= u64::MAX,
        ensures
            r.0 == old(self).offset,
            r.1 == (old(self).pending_sync + len >= STATE_SYNC_BATCH_BYTES),
            *final(self) == segment_chunk(*old(self), len as nat),
    {
        let at = self.offset;
        self.offset = self.offset + len;
        self.segment.downloaded = self.segment.downloaded + len;
        let pending = self.pending_sync + len;
        let sync = pending >= STATE_SYNC_BATCH_BYTES;
        self.pending_sync = if sync { 0 } else { pending };
        (at, sync)
    }

    /// Whether unsynced progress must be written out before the worker stops
    /// (on a stop request, a stream error, the stream end or a recycle).
    pub fn needs_sync(&self) -> (b: bool)
        ensures
            b == (self.pending_sync > 0),
    {
        self.pending_sync > 0
    }

    fn retry_from_progress(&mut self, failure: TransferFailure) -> (r: Retry)
        requires
            old(self).attempts <= MAX_RETRIES,
            old(self).segment.start + old(self).segment.downloaded <= u64::MAX,
        ensures
            is_retry_decision(r, final(self).attempts as nat, failure),
            *final(self) == retried(*old(self), r is After),
    {
        self.attempts = self.attempts + 1;
        self.pending_sync = 0;
        let r = decide_retry(self.attempts, failure);
        if let Retry::After(_) = r {
            self.start = self.segment.start + self.segment.downloaded;
        }
        r
    }

    /// The body stream failed: retry from the first missing byte after the
    /// backoff, or give up.
    pub fn on_stream_error(&mut self) -> (r: Retry)
        requires
            old(self).attempts <= MAX_RETRIES,
            old(self).segment.start + old(self).segment.downloaded <= u64::MAX,
        ensures
            is_retry_decision(r, final(self).attempts as nat, TransferFailure::StreamFailed),
            *final(self) == retried(*old(self), r is After),
    {
        self.retry_from_progress(TransferFailure::StreamFailed)
    }

    /// A slow connection is recycled: request again from the first missing
    /// byte right away, or give up when attempts are exhausted.
    pub fn on_recycle(&mut self) -> (r: Option<TransferFailure>)
        requires
            old(self).attempts <= MAX_RETRIES,
            old(self).segment.start + old(self).segment.downloaded <= u64::MAX,
        ensures
            r is None <==> old(self).attempts + 1 <= MAX_RETRIES,
            r matches Some(f) ==> f == TransferFailure::RecyclingExhausted,
            *final(self) == retried(*old(self), r is None),
    {
        match self.retry_from_progress(TransferFailure::RecyclingExhausted) {
            Retry::After(_) => None,
            Retry::GiveUp(f) => Some(f),
        }
    }

    /// The body stream ended: the segment is finished when it holds
    /// `end - start + 1` bytes (saturating), otherwise retry from the first
    /// missing byte after the backoff, or give up.
    pub fn on_stream_end(&mut self) -> (r: StreamOutcome)
        requires
            old(self).attempts <= MAX_RETRIES,
            old(self).segment.start + old(self).segment.downloaded <= u64::MAX,
            !(old(self).segment.start == 0 && old(self).segment.end == u64::MAX),
        ensures
            ({
                &&& segment_complete(old(self).segment) == (r is Finished)
                &&& r is Finished ==> *final(self) == (SegmentTransfer { pending_sync: 0, ..*old(self) })
                &&& r matches StreamOutcome::Again(retry) ==> {
                    &&& is_retry_decision(retry, final(self).attempts as nat, TransferFailure::EndedEarly)
                    &&& *final(self) == retried(*old(self), retry is After)
                }
            }),
    {
        let seg = self.segment;
        let span = if seg.end >= seg.start { seg.end - seg.start } else { 0 };
        let expected = span + 1;
        if seg.downloaded < expected {
            return StreamOutcome::Again(self.retry_from_progress(TransferFailure::EndedEarly));
        }
        self.pending_sync = 0;
        StreamOutcome::Finished
    }
}

/// How a single-stream worker asks for the file.
#[derive(Clone, Copy, Debug, PartialEq, Eq)]
pub enum SingleRequest {
    /// Ask for everything from this offset (a range request).
    From(u64),
    /// Ask for the whole file.
    Whole,
}

/// The transfer of a whole file over one connection.
#[derive(Clone, Debug)]
pub struct SingleTransfer {
    /// Failed attempts so far.
    pub attempts: u32,
    /// Offset at which the next received byte is written.
    pub offset: u64,
    /// Offset at which the current request started.
    pub request_start: u64,
    /// Whether the server is taken to honor range requests.
    pub accept_ranges: bool,
    /// The size of the file, when known.
    pub total_size: Option<u64>,
}

/// What to do with a response to a single-stream request.
#[derive(Clone, Copy, Debug, PartialEq, Eq)]
pub enum SingleResponse {
    /// Write the body from the current offset.
    Accept,
    /// The server ignored the range: delete the partial output, reset the
    /// progress counter and request the whole file again at once.
    Restart,
}

/// The single-stream transfer after a failed attempt: one more attempt
/// counted, and back to offset 0 when the download starts over (`reset`).
pub open spec fn single_retried(t: SingleTransfer, reset: bool) -> SingleTransfer {
    SingleTransfer { attempts: (t.attempts + 1) as u32, offset: if reset { 0 } else { t.offset }, ..t }
}

/// The transfer once a request starts at its current offset.
pub open spec fn single_began(t: SingleTransfer) -> SingleTransfer {
    SingleTransfer { request_start: t.offset, ..t }
}

/// The request that starts at the transfer's offset.
pub open spec fn single_request(t: SingleTransfer) -> SingleRequest {
    if t.accept_ranges && t.offset > 0 { SingleRequest::From(t.offset) } else { SingleRequest::Whole }
}

/// Whether the stream that started at `request_start` delivered fewer bytes
/// than the rest of the file of known size.
pub open spec fn single_short(t: SingleTransfer) -> bool {
    let got: int = if t.offset >= t.request_start { t.offset - t.request_start } else { 0 };
    match t.total_size {
        Some(total) => got < (if total >= t.request_start { total - t.request_start } else { 0 }),
        None => false,
    }
}

/// The transfer after chunks of the lengths in `lens` arrived, in order.
pub open spec fn single_chunks(t: SingleTransfer, lens: Seq<nat>) -> SingleTransfer
    decreases lens.len(),
{
    if lens.len() == 0 {
        t
    } else {
        let before = single_chunks(t, lens.drop_last());
        SingleTransfer { offset: (before.offset + lens.last()) as u64, ..before }
    }
}

proof fn lemma_single_chunks_advance(t: SingleTransfer, lens: Seq<nat>)
    requires
        t.offset + total_len(lens) <= u64::MAX,
    ensures
        single_chunks(t, lens) == (SingleTransfer { offset: (t.offset + total_len(lens)) as u64, ..t }),
    decreases lens.len(),
{
    if lens.len() > 0 {
        lemma_single_chunks_advance(t, lens.drop_last());
    }
}

/// Law: a broken stream without range support starts the download over and
/// the retry delivers exactly the file. After the break is retried with a
/// reset, the next request asks for the whole file from byte 0; its chunks are
/// written one after the other from 0, and once they add up to the file's size
/// the transfer ends at that size and the stream end finds nothing missing.
pub proof fn lemma_unranged_restart_delivers_file(t: SingleTransfer, lens: Seq<nat>)
    requires
        !t.accept_ranges,
        t.total_size matches Some(size) && total_len(lens) == size,
    ensures
        ({
            let again = single_began(single_retried(t, true));
            let done = single_chunks(again, lens);
            &&& single_request(single_retried(t, true)) == SingleRequest::Whole
            &&& again.request_start == 0
            &&& again.total_size == t.total_size
            &&& forall|i: int| 0 <= i < lens.len() ==> (#[trigger] single_chunks(again, lens.take(i))).offset
                == total_len(lens.take(i))
            &&& done.offset == total_len(lens)
            &&& !single_short(done)
        }),
{
    let again = single_began(single_retried(t, true));
    lemma_single_chunks_advance(again, lens);
    assert forall|i: int| 0 <= i < lens.len() implies (#[trigger] single_chunks(again, lens.take(i))).offset
        == total_len(lens.take(i)) by {
        lemma_total_len_prefix(lens, i);
        lemma_single_chunks_advance(again, lens.take(i));
    }
}

/// Law: a stream that ran from `request_start` is short exactly when the
/// file's size is known and the offset has not reached it: what is expected
/// is the rest of the file from where the request started, not the whole file.
pub proof fn lemma_single_short_means_offset_below_size(t: SingleTransfer)
    requires
        t.request_start <= t.offset,
    ensures
        single_short(t) <==> (t.total_size matches Some(size) && t.offset < size),
        t.total_size == Some(t.offset) ==> !single_short(t),
{
}

impl SingleTransfer {
    /// A transfer that resumes at `start` (0 for a fresh download).
    pub fn new(start: u64, accept_ranges: bool, total_size: Option<u64>) -> (t: SingleTransfer)
        ensures
            t == (SingleTransfer { attempts: 0, offset: start, request_start: start, accept_ranges, total_size }),
    {
        SingleTransfer { attempts: 0, offset: start, request_start: start, accept_ranges, total_size }
    }

    /// Starts a request at the current offset: a range request when ranges are
    /// honored and the offset is past 0, otherwise a request for the whole file.
    pub fn begin_request(&mut self) -> (r: SingleRequest)
        ensures
            *final(self) == single_began(*old(self)),
            r == single_request(*old(self)),
    {
        self.request_start = self.offset;
        if self.accept_ranges && self.offset > 0 {
            SingleRequest::From(self.offset)
        } else {
            SingleRequest::Whole
        }
    }

    /// The request failed: count the attempt and decide whether to retry.
    pub fn on_request_failed(&mut self) -> (r: Retry)
        requires
            old(self).attempts <= MAX_RETRIES,
        ensures
            *final(self) == (SingleTransfer { attempts: (old(self).attempts + 1) as u32, ..*old(self) }),
            is_retry_decision(r, final(self).attempts as nat, TransferFailure::RequestFailed),
    {
        self.attempts = self.attempts + 1;
        decide_retry(self.attempts, TransferFailure::RequestFailed)
    }

    /// A response arrived with `status`. A request that started past 0 and was
    /// not answered with 206 restarts the download from 0, no longer using ranges.
    pub fn on_response(&mut self, status: u16) -> (r: SingleResponse)
        ensures
            (old(self).request_start > 0 && status != crate::http::PARTIAL_CONTENT) ==> r == SingleResponse::Restart
                && *final(self) == (SingleTransfer { offset: 0, accept_ranges: false, ..*old(self) }),
            !(old(self).request_start > 0 && status != crate::http::PARTIAL_CONTENT) ==> r == SingleResponse::Accept
                && *final(self) == *old(self),
    {
        if self.request_start > 0 && status != crate::http::PARTIAL_CONTENT {
            self.offset = 0;
            self.accept_ranges = false;
            return SingleResponse::Restart;
        }
        SingleResponse::Accept
    }

    /// `len` bytes arrived: returns the offset they are written at, which then moves past them.
    pub fn on_chunk(&mut self, len: u64) -> (at: u64)
        requires
            old(self).offset + len <= u64::MAX,
        ensures
            at == old(self).offset,
            *final(self) == (SingleTransfer { offset: (old(self).offset + len) as u64, ..*old(self) }),
    {
        let at = self.offset;
        self.offset = self.offset + len;
        at
    }

    fn retry_after_partial(&mut self, failure: TransferFailure) -> (r: (Retry, bool))
        requires
            old(self).attempts <= MAX_RETRIES,
        ensures
            final(self).attempts == old(self).attempts + 1,
            is_retry_decision(r.0, final(self).attempts as nat, failure),
            r.1 == (r.0 is After && !old(self).accept_ranges),
            *final(self) == single_retried(*old(self), r.1),
    {
        self.attempts = self.attempts + 1;
        let r = decide_retry(self.attempts, failure);
        let mut reset = false;
        if let Retry::After(_) = r {
            if !self.accept_ranges {
                self.offset = 0;
                reset = true;
            }
        }
        (r, reset)
    }

    /// The body stream failed. Returns the retry decision and whether the
    /// partial output must be deleted and progress reset first (when ranges
    /// are not honored the download starts over).
    pub fn on_stream_error(&mut self) -> (r: (Retry, bool))
        requires
            old(self).attempts <= MAX_RETRIES,
        ensures
            final(self).attempts == old(self).attempts + 1,
            is_retry_decision(r.0, final(self).attempts as nat, TransferFailure::StreamFailed),
            r.1 == (r.0 is After && !old(self).accept_ranges),
            *final(self) == single_retried(*old(self), r.1),
    {
        self.retry_after_partial(TransferFailure::StreamFailed)
    }

    /// The body stream ended. When the size is known and fewer than
    /// `size - request_start` bytes (saturating) arrived since the request
    /// started, it is retried like a stream error; otherwise the download is done.
    pub fn on_stream_end(&mut self) -> (r: Option<(Retry, bool)>)
        requires
            old(self).attempts <= MAX_RETRIES,
        ensures
            ({
                let short = single_short(*old(self));
                &&& (r is None) == !short
                &&& r is None ==> *final(self) == *old(self)
                &&& r matches Some(x) ==> {
                    &&& final(self).attempts == old(self).attempts + 1
                    &&& is_retry_decision(x.0, final(self).attempts as nat, TransferFailure::EndedEarly)
                    &&& x.1 == (x.0 is After && !old(self).accept_ranges)
                    &&& *final(self) == single_retried(*old(self), x.1)
                }
            }),
    {
        let got = if self.offset >= self.request_start { self.offset - self.request_start } else { 0 };
        match self.total_size {
            Some(total) => {
                let expected = if total >= self.request_start { total - self.request_start } else { 0 };
                if got < expected {
                    return Some(self.retry_after_partial(TransferFailure::EndedEarly));
                }
                None
            },
            None => None,
        }
    }
}

} // verus!
