//! The order of a download's events: `Started` first, then any number of
//! `Progress` events, then at most one final `Finished` or `Failed`.

use vstd::prelude::*;
use crate::api::DownloadEvent;

verus! {

/// The kind of a download event.
#[derive(Clone, Copy, Debug, PartialEq, Eq)]
pub enum EventKind {
    Started,
    Progress,
    Finished,
    Failed,
}

/// The kind of `e`.
pub open spec fn kind_of(e: DownloadEvent) -> EventKind {
    match e {
        DownloadEvent::Started { .. } => EventKind::Started,
        DownloadEvent::Progress { .. } => EventKind::Progress,
        DownloadEvent::Finished { .. } => EventKind::Finished,
        DownloadEvent::Failed { .. } => EventKind::Failed,
    }
}

/// The kind of `e`.
pub fn event_kind(e: &DownloadEvent) -> (k: EventKind)
    ensures
        k == kind_of(*e),
{
    match e {
        DownloadEvent::Started { .. } => EventKind::Started,
        DownloadEvent::Progress { .. } => EventKind::Progress,
        DownloadEvent::Finished { .. } => EventKind::Finished,
        DownloadEvent::Failed { .. } => EventKind::Failed,
    }
}

/// Where a download's event stream stands.
#[derive(Clone, Copy, Debug, PartialEq, Eq)]
pub enum EventPhase {
    /// Nothing reported yet.
    Waiting,
    /// `Started` was reported; the download runs.
    Running,
    /// The final event was reported.
    Closed,
}

/// Whether an event of `kind` is reported in `phase`, and the phase after it.
pub open spec fn order_step(phase: EventPhase, kind: EventKind) -> (EventPhase, bool) {
    match (phase, kind) {
        (EventPhase::Waiting, EventKind::Started) => (EventPhase::Running, true),
        (EventPhase::Running, EventKind::Progress) => (EventPhase::Running, true),
        (EventPhase::Running, EventKind::Finished) => (EventPhase::Closed, true),
        (EventPhase::Running, EventKind::Failed) => (EventPhase::Closed, true),
        _ => (phase, false),
    }
}

/// Lets through the events of one download in their order and holds back
/// any that would break it (a second start, progress before the start or
/// after the end, a second final event).
#[derive(Clone, Copy, Debug)]
pub struct EventOrder {
    pub phase: EventPhase,
}

impl EventOrder {
    /// An order keeper before any event.
    pub fn new() -> (g: EventOrder)
        ensures
            g.phase == EventPhase::Waiting,
    {
        EventOrder { phase: EventPhase::Waiting }
    }

    /// Whether the event `e` is reported now; it moves on when it is.
    pub fn let_through(&mut self, e: &DownloadEvent) -> (ok: bool)
        ensures
            (final(self).phase, ok) == order_step(old(self).phase, kind_of(*e)),
    {
        let kind = event_kind(e);
        match (self.phase, kind) {
            (EventPhase::Waiting, EventKind::Started) => {
                self.phase = EventPhase::Running;
                true
            },
            (EventPhase::Running, EventKind::Progress) => true,
            (EventPhase::Running, EventKind::Finished) => {
                self.phase = EventPhase::Closed;
                true
            },
            (EventPhase::Running, EventKind::Failed) => {
                self.phase = EventPhase::Closed;
                true
            },
            _ => false,
        }
    }
}

/// The phase after offering the events of kinds `kinds`, in order, from `Waiting`.
pub open spec fn phase_after(kinds: Seq<EventKind>) -> EventPhase
    decreases kinds.len(),
{
    if kinds.len() == 0 {
        EventPhase::Waiting
    } else {
        order_step(phase_after(kinds.drop_last()), kinds.last()).0
    }
}

/// The kinds of the events that get through when events of kinds `kinds` are offered in order.
pub open spec fn reported(kinds: Seq<EventKind>) -> Seq<EventKind>
    decreases kinds.len(),
{
    if kinds.len() == 0 {
        Seq::empty()
    } else if order_step(phase_after(kinds.drop_last()), kinds.last()).1 {
        reported(kinds.drop_last()).push(kinds.last())
    } else {
        reported(kinds.drop_last())
    }
}

/// `evs` is in the documented order: `Started` first and only
/// there, and a `Finished` or `Failed` only as the last event.
pub open spec fn well_ordered(evs: Seq<EventKind>) -> bool {
    &&& forall|i: int| 0 <= i < evs.len() ==> ((#[trigger] evs[i] == EventKind::Started) <==> i == 0)
    &&& forall|i: int|
        0 <= i < evs.len() && (#[trigger] evs[i] == EventKind::Finished || evs[i] == EventKind::Failed)
            ==> i == evs.len() - 1
}

/// Law: whatever events a download offers, in whatever order, the ones that
/// are reported start with `Started` and end with at most one `Finished` or
/// `Failed`; once a final event is reported nothing follows it.
pub proof fn lemma_reported_events_are_well_ordered(kinds: Seq<EventKind>)
    ensures
        well_ordered(reported(kinds)),
        phase_after(kinds) == EventPhase::Waiting <==> reported(kinds).len() == 0,
        phase_after(kinds) == EventPhase::Running ==> reported(kinds).len() > 0 && reported(kinds).last()
            != EventKind::Finished && reported(kinds).last() != EventKind::Failed,
        phase_after(kinds) == EventPhase::Closed ==> reported(kinds).len() > 0 && (reported(kinds).last()
            == EventKind::Finished || reported(kinds).last() == EventKind::Failed),
    decreases kinds.len(),
{
    if kinds.len() > 0 {
        let before = kinds.drop_last();
        lemma_reported_events_are_well_ordered(before);
        let r0 = reported(before);
        let k = kinds.last();
        if order_step(phase_after(before), k).1 {
            let r = r0.push(k);
            assert forall|i: int| 0 <= i < r.len() implies ((#[trigger] r[i] == EventKind::Started) <==> i == 0) by {
                if i < r0.len() {
                    assert(r[i] == r0[i]);
                }
            }
            assert forall|i: int|
                0 <= i < r.len() && (#[trigger] r[i] == EventKind::Finished || r[i] == EventKind::Failed)
                implies i == r.len() - 1 by {
                if i < r0.len() {
                    assert(r[i] == r0[i]);
                }
            }
        }
    }
}

} // verus!
