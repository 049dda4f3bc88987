//! Event types emitted by pane lifecycles.
//!
//! Every event is pane-scoped, sequence-numbered, and timestamped so that
//! consumers can reconstruct ordering and detect gaps.

use std::time::SystemTime;

use vstd::prelude::*;

use crate::error::{ErrorView, PaneError};
use crate::pane::{PaneId, PaneState, Size, StateView};
use crate::time::Duration;

verus! {

/// Wall-clock time, carried through events and never looked into.
#[verifier::external_type_specification]
#[verifier::external_body]
pub struct ExSystemTime(std::time::SystemTime);

/// `SystemTime::UNIX_EPOCH`. Which value it is stays unsaid: the type is opaque.
#[verifier::external_body]
fn unix_epoch() -> SystemTime {
    std::time::SystemTime::UNIX_EPOCH
}

/// `SystemTime::now`. Nothing is promised of the reading.
pub assume_specification[ std::time::SystemTime::now ]() -> SystemTime
;

/// A pane-scoped event with sequence metadata.
///
/// Events are ordered by `seq` within a single pane. Timestamps are wall-clock
/// and may not be monotonic across system clock adjustments.
#[derive(Debug, PartialEq, Eq)]
pub struct PaneEvent {
    /// Pane that emitted the event.
    pub pane_id: PaneId,
    /// Monotonically-increasing sequence number for this pane.
    pub seq: u64,
    /// Wall-clock timestamp when the event was created.
    pub at: SystemTime,
    /// The kind of event and its payload.
    pub kind: PaneEventKind,
}

impl PaneEvent {
    /// Whether the two events say the same.
    pub open spec fn same(self, other: Self) -> bool {
        &&& self.pane_id == other.pane_id
        &&& self.seq == other.seq
        &&& self.at == other.at
        &&& self.kind@ == other.kind@
    }
}

/// An event without its time.
pub ghost struct EventEntry {
    pub pane: PaneId,
    pub seq: u64,
    pub kind: EventView,
}

impl PaneEvent {
    /// The event without its time.
    pub open spec fn entry(self) -> EventEntry {
        EventEntry { pane: self.pane_id, seq: self.seq, kind: self.kind@ }
    }
}

/// The events without their times.
pub open spec fn entries(events: Seq<PaneEvent>) -> Seq<EventEntry> {
    Seq::new(events.len(), |i: int| events[i].entry())
}

/// Whether events were gone on with: all that were there stay as they were, in
/// their places.
pub open spec fn goes_on(later: Seq<PaneEvent>, earlier: Seq<PaneEvent>) -> bool {
    &&& earlier.len() <= later.len()
    &&& forall|i: int| 0 <= i < earlier.len() ==> #[trigger] later[i] == earlier[i]
}

/// The events of one pane, in their order.
pub open spec fn of_pane(events: Seq<PaneEvent>, id: PaneId) -> Seq<PaneEvent>
    decreases events.len(),
{
    if events.len() == 0 {
        seq![]
    } else {
        let rest = of_pane(events.drop_last(), id);
        if events.last().pane_id == id {
            rest.push(events.last())
        } else {
            rest
        }
    }
}

/// Whether a log was reported: the last events of its pane among all events
/// say the same as the log, one by one and in order, their times among it.
pub open spec fn reports(events: Seq<PaneEvent>, log: Seq<PaneEvent>, id: PaneId) -> bool {
    let own = of_pane(events, id);
    let skipped = own.len() - log.len();
    &&& log.len() <= own.len()
    &&& forall|i: int| 0 <= i < log.len() ==> own[skipped + i].same(#[trigger] log[i])
}

pub(crate) proof fn lemma_reports_more(
    events: Seq<PaneEvent>,
    event: PaneEvent,
    log: Seq<PaneEvent>,
    logged: PaneEvent,
    id: PaneId,
)
    requires
        reports(events, log, id),
        event.same(logged),
        event.pane_id == id,
    ensures
        reports(events.push(event), log.push(logged), id),
{
    let all = events.push(event);
    assert(all.drop_last() =~= events);
    let own = of_pane(events, id);
    assert(of_pane(all, id) == own.push(event));
    let longer = log.push(logged);
    assert forall|i: int| 0 <= i < longer.len() implies own.push(event)[own.len() - log.len()
        + i].same(#[trigger] longer[i]) by {
        if i < log.len() {
            assert(longer[i] == log[i]);
        }
    }
}

pub(crate) proof fn lemma_reports_other(
    events: Seq<PaneEvent>,
    event: PaneEvent,
    log: Seq<PaneEvent>,
    id: PaneId,
)
    requires
        reports(events, log, id),
        event.pane_id != id,
    ensures
        reports(events.push(event), log, id),
{
    assert(events.push(event).drop_last() =~= events);
}

impl Clone for PaneEvent {
    fn clone(&self) -> (copy: Self)
        ensures
            copy.same(*self),
    {
        PaneEvent { pane_id: self.pane_id, seq: self.seq, at: self.at, kind: self.kind.clone() }
    }
}

impl PaneEvent {
    /// Returns a synthetic placeholder event for testing and wiring.
    ///
    /// The sequence number is `0` and the timestamp is the Unix epoch.
    pub fn placeholder(pane_id: PaneId) -> (event: Self)
        ensures
            event.pane_id == pane_id,
            event.seq == 0,
            event.kind@ == (EventView::StateChanged {
                old: StateView::Starting,
                new: StateView::Starting,
            }),
    {
        PaneEvent {
            pane_id,
            seq: 0,
            at: unix_epoch(),
            kind: PaneEventKind::StateChanged(
                Box::new(StateChangedEvent { old: PaneState::Starting, new: PaneState::Starting }),
            ),
        }
    }

    /// Compares this event's sequence number with another's.
    ///
    /// Returns `None` when the two events belong to different panes, because
    /// sequence numbers are only meaningful within a single pane.
    pub fn seq_cmp(&self, other: &Self) -> (r: Option<std::cmp::Ordering>)
        ensures
            r is None <==> self.pane_id != other.pane_id,
            r == Some(std::cmp::Ordering::Less) <==> self.pane_id == other.pane_id && self.seq
                < other.seq,
            r == Some(std::cmp::Ordering::Equal) <==> self.pane_id == other.pane_id && self.seq
                == other.seq,
            r == Some(std::cmp::Ordering::Greater) <==> self.pane_id == other.pane_id && self.seq
                > other.seq,
    {
        if self.pane_id != other.pane_id {
            return None;
        }
        if self.seq < other.seq {
            Some(std::cmp::Ordering::Less)
        } else if self.seq == other.seq {
            Some(std::cmp::Ordering::Equal)
        } else {
            Some(std::cmp::Ordering::Greater)
        }
    }

    /// Returns `true` if this event occurred after `other` by sequence number.
    ///
    /// Returns `false` when the two events belong to different panes.
    pub fn is_after(&self, other: &Self) -> (r: bool)
        ensures
            r == self.spec_after(other),
    {
        self.pane_id == other.pane_id && self.seq > other.seq
    }

    /// Returns `true` if this event occurred before `other` by sequence number.
    ///
    /// Returns `false` when the two events belong to different panes.
    pub fn is_before(&self, other: &Self) -> (r: bool)
        ensures
            r == self.spec_before(other),
    {
        self.pane_id == other.pane_id && self.seq < other.seq
    }

    /// Same pane, larger sequence number.
    pub open spec fn spec_after(&self, other: &Self) -> bool {
        self.pane_id == other.pane_id && self.seq > other.seq
    }

    /// Same pane, smaller sequence number.
    pub open spec fn spec_before(&self, other: &Self) -> bool {
        self.pane_id == other.pane_id && self.seq < other.seq
    }
}

/// One event is after another exactly when the other is before it, and of two
/// events of one pane with distinct numbers exactly one is the earlier: the one
/// with the smaller number.
pub proof fn law_event_order(a: PaneEvent, b: PaneEvent)
    ensures
        a.spec_after(&b) <==> b.spec_before(&a),
        !(a.spec_after(&b) && a.spec_before(&b)),
        a.pane_id == b.pane_id && a.seq != b.seq ==> a.spec_after(&b) || a.spec_before(&b),
        a.spec_after(&b) ==> a.seq > b.seq,
        a.spec_before(&b) ==> a.seq < b.seq,
        a.pane_id != b.pane_id ==> !a.spec_after(&b) && !a.spec_before(&b),
{
}

/// The order of events within a pane is transitive.
pub proof fn law_event_order_transitive(a: PaneEvent, b: PaneEvent, c: PaneEvent)
    requires
        a.spec_before(&b),
        b.spec_before(&c),
    ensures
        a.spec_before(&c),
{
}

/// The kind of pane event and its associated payload.
#[derive(Debug, PartialEq, Eq)]
pub enum PaneEventKind {
    /// The pane's child process was spawned.
    Spawned(SpawnedEvent),
    /// The pane's lifecycle state changed.
    StateChanged(Box<StateChangedEvent>),
    /// The pane received output from its PTY.
    Output(OutputEvent),
    /// The pane's terminal surface changed.
    SurfaceChanged(SurfaceChangedEvent),
    /// Input was sent to the pane's PTY.
    InputSent(InputSentEvent),
    /// The pane was resized.
    Resized(ResizedEvent),
    /// Fullscreen attach started.
    AttachStarted(AttachStartedEvent),
    /// Fullscreen attach ended.
    AttachEnded(AttachEndedEvent),
    /// Transcript scrollback was rotated/dropped.
    TranscriptRotated(TranscriptRotatedEvent),
    /// An internal queue overflowed and data was dropped.
    Overflow(OverflowEvent),
    /// An error occurred in the pane.
    Error(ErrorEvent),
    /// The pane's child process exited.
    Exited(ExitedEvent),
}

/// A [`PaneEventKind`] with its texts as character sequences.
pub ghost enum EventView {
    Spawned { program: Seq<char> },
    StateChanged { old: StateView, new: StateView },
    Output(OutputEvent),
    SurfaceChanged(SurfaceChangedEvent),
    InputSent(InputSentEvent),
    Resized(ResizedEvent),
    AttachStarted(AttachStartedEvent),
    AttachEnded(AttachEndedEvent),
    TranscriptRotated(TranscriptRotatedEvent),
    Overflow(OverflowEvent),
    Error(ErrorView),
    Exited(ExitedEvent),
}

impl View for PaneEventKind {
    type V = EventView;

    open spec fn view(&self) -> EventView {
        match self {
            PaneEventKind::Spawned(e) => EventView::Spawned { program: e.program@ },
            PaneEventKind::StateChanged(e) => EventView::StateChanged { old: e.old@, new: e.new@ },
            PaneEventKind::Output(e) => EventView::Output(*e),
            PaneEventKind::SurfaceChanged(e) => EventView::SurfaceChanged(*e),
            PaneEventKind::InputSent(e) => EventView::InputSent(*e),
            PaneEventKind::Resized(e) => EventView::Resized(*e),
            PaneEventKind::AttachStarted(e) => EventView::AttachStarted(*e),
            PaneEventKind::AttachEnded(e) => EventView::AttachEnded(*e),
            PaneEventKind::TranscriptRotated(e) => EventView::TranscriptRotated(*e),
            PaneEventKind::Overflow(e) => EventView::Overflow(*e),
            PaneEventKind::Error(e) => EventView::Error(e.error@),
            PaneEventKind::Exited(e) => EventView::Exited(*e),
        }
    }
}

impl Clone for PaneEventKind {
    fn clone(&self) -> (copy: Self)
        ensures
            copy@ == self@,
    {
        match self {
            PaneEventKind::Spawned(e) => PaneEventKind::Spawned(
                SpawnedEvent { program: e.program.clone() },
            ),
            PaneEventKind::StateChanged(e) => PaneEventKind::StateChanged(
                Box::new(StateChangedEvent { old: e.old.clone(), new: e.new.clone() }),
            ),
            PaneEventKind::Output(e) => PaneEventKind::Output(*e),
            PaneEventKind::SurfaceChanged(e) => PaneEventKind::SurfaceChanged(*e),
            PaneEventKind::InputSent(e) => PaneEventKind::InputSent(*e),
            PaneEventKind::Resized(e) => PaneEventKind::Resized(*e),
            PaneEventKind::AttachStarted(e) => PaneEventKind::AttachStarted(*e),
            PaneEventKind::AttachEnded(e) => PaneEventKind::AttachEnded(*e),
            PaneEventKind::TranscriptRotated(e) => PaneEventKind::TranscriptRotated(*e),
            PaneEventKind::Overflow(e) => PaneEventKind::Overflow(*e),
            PaneEventKind::Error(e) => PaneEventKind::Error(ErrorEvent { error: e.error.clone() }),
            PaneEventKind::Exited(e) => PaneEventKind::Exited(*e),
        }
    }
}

/// Event payload for a spawned child process.
#[derive(Debug, Clone, PartialEq, Eq)]
pub struct SpawnedEvent {
    /// The program that was executed.
    pub program: String,
}

/// Event payload for a state transition.
#[derive(Debug, Clone, PartialEq, Eq)]
pub struct StateChangedEvent {
    /// The previous state.
    pub old: PaneState,
    /// The new state.
    pub new: PaneState,
}

/// Metadata about output received from the PTY.
///
/// Raw bytes are **not** part of the event, to avoid leaking secrets or
/// capturing huge payloads.
#[derive(Debug, Clone, Copy, PartialEq, Eq, Structural)]
pub struct OutputEvent {
    /// Number of bytes in the output frame.
    pub bytes_len: usize,
    /// Absolute offset into the transcript, if recorded.
    ///
    /// In plain-text mode this is a byte offset into the logical plain-text
    /// transcript stream. In raw-byte and both mode this is a byte offset into
    /// the raw PTY byte stream.
    pub transcript_offset: Option<u64>,
    /// Whether the output contains escape sequences.
    pub contains_escape: bool,
}

/// Policy for how much output data to capture and surface in events.
///
/// This is a configuration type, not an event payload. Event producers decide
/// how much payload data they can safely add.
#[derive(Debug, Clone, Copy, PartialEq, Eq, Structural)]
pub enum OutputCapturePolicy {
    /// Only metadata; no raw bytes.
    MetadataOnly,
    /// A preview of escaped bytes up to a limit.
    EscapedPreview {
        /// Maximum number of bytes in the preview.
        max_bytes: usize,
    },
    /// All raw bytes.
    RawBytes,
}

impl Default for OutputCapturePolicy {
    fn default() -> (policy: Self)
        ensures
            policy == OutputCapturePolicy::MetadataOnly,
    {
        OutputCapturePolicy::MetadataOnly
    }
}

/// Event payload for terminal surface changes.
///
/// Helps renderers avoid unnecessary work and helps tests assert state
/// changes without snapshotting the full surface every time.
#[derive(Debug, Clone, Copy, PartialEq, Eq, Structural)]
pub struct SurfaceChangedEvent {
    /// Surface generation counter.
    pub generation: u64,
    /// Which rows are dirty, if known.
    pub dirty_rows: DirtyRows,
    /// Whether the cursor position changed.
    pub cursor_changed: bool,
    /// Whether the terminal title changed.
    pub title_changed: bool,
    /// Whether terminal modes changed.
    pub modes_changed: bool,
    /// Whether scrollback content changed.
    pub scrollback_changed: bool,
}

/// Description of dirty rows in a surface update.
#[derive(Debug, Clone, Copy, PartialEq, Eq, Structural)]
pub enum DirtyRows {
    /// The entire surface is dirty.
    All,
    /// A contiguous range of rows is dirty.
    Range {
        /// First dirty row (inclusive).
        start: u16,
        /// Last dirty row (exclusive).
        end: u16,
    },
    /// No rows are dirty (e.g. only modes changed).
    NoRows,
}

/// Event payload for input sent to a pane.
///
/// Full input bytes are **not** part of the event, to avoid leaking pasted
/// text or passwords.
#[derive(Debug, Clone, Copy, PartialEq, Eq, Structural)]
pub struct InputSentEvent {
    /// The kind of input that was sent.
    pub input_kind: InputKind,
    /// Number of bytes sent.
    pub bytes_len: usize,
    /// Whether the input was recorded in the transcript.
    pub recorded: bool,
}

/// Kinds of input that can be sent to a pane.
#[derive(Debug, Clone, Copy, PartialEq, Eq, Structural)]
pub enum InputKind {
    /// Raw byte sequence.
    Bytes,
    /// Encoded key press.
    Key,
    /// Pasted text.
    Paste,
}

/// Event payload for a resize operation.
#[derive(Debug, Clone, Copy, PartialEq, Eq, Structural)]
pub struct ResizedEvent {
    /// The new size after resizing.
    pub size: Size,
}

/// Event payload emitted when fullscreen attach starts.
#[derive(Debug, Clone, Copy, PartialEq, Eq, Structural)]
pub struct AttachStartedEvent {
    /// The real terminal size used during attach.
    pub terminal_size: Size,
    /// The embedded size that will be restored on detach.
    pub embedded_size: Size,
    /// The screen policy applied during attach.
    pub screen_policy: AttachScreenPolicy,
}

/// Policy for handling the terminal screen during attach.
#[derive(Debug, Clone, Copy, PartialEq, Eq, Structural)]
pub enum AttachScreenPolicy {
    /// Reuse the host's alternate screen buffer.
    ReuseHostAlternateScreen,
    /// Leave the alternate screen buffer.
    LeaveAlternateScreen,
    /// Enter a fresh alternate screen buffer.
    EnterFreshAlternateScreen,
}

impl Default for AttachScreenPolicy {
    fn default() -> (policy: Self)
        ensures
            policy == AttachScreenPolicy::ReuseHostAlternateScreen,
    {
        AttachScreenPolicy::ReuseHostAlternateScreen
    }
}

/// Event payload emitted when fullscreen attach ends.
#[derive(Debug, Clone, Copy, PartialEq, Eq, Structural)]
pub struct AttachEndedEvent {
    /// The reason attach ended.
    pub reason: DetachReason,
    /// The size restored after detach.
    pub restored_size: Size,
    /// How long the attach session lasted.
    pub duration: Duration,
}

/// Reasons that fullscreen attach can end.
#[derive(Debug, Clone, Copy, PartialEq, Eq, Structural)]
pub enum DetachReason {
    /// The user pressed the detach chord.
    UserChord,
    /// The child process exited.
    ChildExited,
    /// The host application requested detach.
    HostRequested,
    /// An error forced detach.
    Error,
}

/// Event payload for transcript rotation/drop.
#[derive(Debug, Clone, Copy, PartialEq, Eq, Structural)]
pub struct TranscriptRotatedEvent {
    /// Number of chunks dropped from the transcript.
    pub chunks_dropped: u64,
    /// Total bytes dropped (raw + plain).
    pub bytes_dropped: u64,
    /// Raw bytes dropped from the raw transcript buffer.
    pub raw_bytes_dropped: u64,
    /// Plain bytes dropped from the plain transcript buffer.
    pub plain_bytes_dropped: u64,
}

/// Event payload for queue overflow.
///
/// PTY output can overwhelm queues. Loss must be explicit.
#[derive(Debug, Clone, Copy, PartialEq, Eq, Structural)]
pub struct OverflowEvent {
    /// Number of dropped frames.
    pub dropped_frames: u64,
    /// Number of dropped bytes.
    pub dropped_bytes: u64,
    /// Which queue overflowed.
    pub queue: OverflowQueue,
}

/// Queues that can overflow.
#[derive(Debug, Clone, Copy, PartialEq, Eq, Structural)]
pub enum OverflowQueue {
    /// PTY output frames.
    PtyOutputFrames,
    /// Pane event queue.
    PaneEvents,
    /// Transcript chunks.
    TranscriptChunks,
    /// Render cache updates.
    RenderCacheUpdates,
}

/// Event payload for a pane error.
#[derive(Debug, Clone, PartialEq, Eq)]
pub struct ErrorEvent {
    /// The error that occurred.
    pub error: PaneError,
}

/// Event payload for child process exit.
#[derive(Debug, Clone, Copy, PartialEq, Eq, Structural)]
pub struct ExitedEvent {
    /// The process exit code, if available.
    pub code: Option<i32>,
}

} // verus!
