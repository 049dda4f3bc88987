//! The books of one pane: its state, its event log, its transcript and the
//! modes its output selected.
//!
//! [`PaneCore`] performs no I/O. What a surface or a process answered is handed
//! in, and the books say what follows from it.

use std::time::SystemTime;

use vstd::prelude::*;

use crate::attach_error::attach_failure_to_pane_error;
use crate::attach_plan::{AttachNote, NoteView};
use crate::error::{ErrorView, IoOperation, PaneError, Result};
use crate::event::{
    entries, goes_on, AttachEndedEvent, AttachScreenPolicy, AttachStartedEvent, DirtyRows,
    ErrorEvent, EventEntry, EventView, ExitedEvent, InputKind, InputSentEvent, OutputEvent,
    OverflowEvent, OverflowQueue, PaneEvent, PaneEventKind, ResizedEvent, SpawnedEvent,
    StateChangedEvent, SurfaceChangedEvent, TranscriptRotatedEvent,
};
use crate::mode_overlay::{OverlayView, TerminalModeOverlay};
use crate::pane::{
    clone_opt_text, opt_text, InputConfig, KillReason, PaneConfig, PaneId, PaneInteractionMode,
    PaneState, Size, StateView, TranscriptConfig, TranscriptMode,
};
use crate::pty::FrameView;
use crate::repro::ReproSizeEvent;
use crate::surface::{PaneStats, SurfaceUpdate};
use crate::time::Duration;
use crate::transcript::{Transcript, TranscriptRotation, TranscriptView};

verus! {

/// Outcome of a pane's removal from the manager.
#[derive(Debug, PartialEq, Eq)]
pub enum PaneExit {
    /// The child process exited normally.
    Exited {
        /// The process exit code, if available.
        code: Option<i32>,
    },
    /// The pane was killed.
    Killed {
        /// The reason the pane was killed.
        reason: KillReason,
    },
    /// The pane failed.
    Failed {
        /// The error that caused the failure.
        error: PaneError,
    },
}

/// A [`PaneExit`] with its texts as characters.
pub ghost enum ExitView {
    Exited { code: Option<i32> },
    Killed { reason: KillReason },
    Failed { error: ErrorView },
}

impl View for PaneExit {
    type V = ExitView;

    open spec fn view(&self) -> ExitView {
        match self {
            PaneExit::Exited { code } => ExitView::Exited { code: *code },
            PaneExit::Killed { reason } => ExitView::Killed { reason: *reason },
            PaneExit::Failed { error } => ExitView::Failed { error: error@ },
        }
    }
}

impl Clone for PaneExit {
    fn clone(&self) -> (copy: Self)
        ensures
            copy@ == self@,
    {
        match self {
            PaneExit::Exited { code } => PaneExit::Exited { code: *code },
            PaneExit::Killed { reason } => PaneExit::Killed { reason: *reason },
            PaneExit::Failed { error } => PaneExit::Failed { error: error.clone() },
        }
    }
}

/// An optional exit as a view.
pub open spec fn opt_exit(exit: Option<PaneExit>) -> Option<ExitView> {
    match exit {
        Some(exit) => Some(exit@),
        None => None,
    }
}

/// What a surface answered to output.
pub type FeedView = core::result::Result<SurfaceUpdate, ErrorView>;

/// A surface's answer as a view.
pub open spec fn feed_view(feed: Result<SurfaceUpdate>) -> FeedView {
    match feed {
        Ok(update) => Ok(update),
        Err(error) => Err(error@),
    }
}

/// Whether an update changed anything worth an event.
pub open spec fn worth_reporting(update: SurfaceUpdate) -> bool {
    ||| !(update.dirty_rows is NoRows)
    ||| update.cursor_changed
    ||| update.title_changed
    ||| update.modes_changed
    ||| update.scrollback_changed
}

/// Whether an update is worth an event.
pub fn should_emit_surface_event(update: SurfaceUpdate) -> (b: bool)
    ensures
        b == worth_reporting(update),
{
    let rows = match update.dirty_rows {
        DirtyRows::NoRows => false,
        _ => true,
    };
    rows || update.cursor_changed || update.title_changed || update.modes_changed
        || update.scrollback_changed
}

/// An error of any kind as a surface error.
pub open spec fn as_surface_error(error: ErrorView) -> ErrorView {
    match error {
        ErrorView::Surface { .. } => error,
        other => ErrorView::Surface { message: other.sentence() },
    }
}

/// Turns an error into a surface error.
pub fn surface_error(error: PaneError) -> (r: PaneError)
    ensures
        r@ == as_surface_error(error@),
{
    match error {
        PaneError::Surface { message } => PaneError::Surface { message },
        other => PaneError::Surface { message: other.to_string() },
    }
}

/// The name of a state.
pub open spec fn state_name(state: StateView) -> Seq<char> {
    match state {
        StateView::Starting => "Starting"@,
        StateView::Running => "Running"@,
        StateView::Exited { .. } => "Exited"@,
        StateView::Failed { .. } => "Failed"@,
        StateView::Killed { .. } => "Killed"@,
    }
}

/// Names a state.
pub fn state_label(state: &PaneState) -> (label: String)
    ensures
        label@ == state_name(state@),
{
    match state {
        PaneState::Starting => "Starting".to_owned(),
        PaneState::Running => "Running".to_owned(),
        PaneState::Exited { .. } => "Exited".to_owned(),
        PaneState::Failed { .. } => "Failed".to_owned(),
        PaneState::Killed { .. } => "Killed".to_owned(),
    }
}

/// The kind of an event about a rotation.
pub open spec fn rotation_kind(rotation: TranscriptRotation) -> EventView {
    EventView::TranscriptRotated(
        TranscriptRotatedEvent {
            chunks_dropped: rotation.chunks_dropped,
            bytes_dropped: rotation.bytes_dropped,
            raw_bytes_dropped: rotation.raw_bytes_dropped,
            plain_bytes_dropped: rotation.plain_bytes_dropped,
        },
    )
}

/// The books of a pane as plain values.
pub ghost struct CoreView {
    pub pane: PaneId,
    pub title: Option<Seq<char>>,
    pub config: PaneConfig,
    pub state: StateView,
    pub mode: PaneInteractionMode,
    pub input: InputConfig,
    pub stats: PaneStats,
    pub generation: u64,
    pub log: Seq<EventEntry>,
    pub sizes: Seq<ReproSizeEvent>,
    pub exit: Option<ExitView>,
    pub exit_seen: bool,
    pub overlay: OverlayView,
    pub transcript: TranscriptView,
}

/// The number after `n`, or `n` when there is none.
pub open spec fn next64(n: u64) -> u64 {
    if n == u64::MAX {
        n
    } else {
        (n + 1) as u64
    }
}

/// The sum of two numbers, or the greatest number.
pub open spec fn sum64(a: u64, b: u64) -> u64 {
    if a + b > u64::MAX {
        u64::MAX
    } else {
        (a + b) as u64
    }
}

/// Counters count one by one, add up, and stop at their greatest value.
pub proof fn law_counters_stop(n: u64, a: u64, b: u64)
    ensures
        n < u64::MAX ==> next64(n) == n + 1,
        next64(u64::MAX) == u64::MAX,
        a + b <= u64::MAX ==> sum64(a, b) == a + b,
        a + b > u64::MAX ==> sum64(a, b) == u64::MAX,
{
}

impl CoreView {
    /// Whether the log is numbered from one, without gaps, for this pane.
    pub open spec fn numbered(self) -> bool {
        &&& self.log.len() <= u64::MAX
        &&& forall|i: int|
            0 <= i < self.log.len() ==> (#[trigger] self.log[i]).seq == i + 1 && self.log[i].pane
                == self.pane
    }

    /// The books after an event.
    pub open spec fn logged(self, kind: EventView) -> CoreView {
        CoreView {
            log: self.log.push(
                EventEntry { pane: self.pane, seq: (self.log.len() + 1) as u64, kind },
            ),
            ..self
        }
    }

    /// The books after a rotation, if there was one.
    pub open spec fn noted_rotation(self, rotation: Option<TranscriptRotation>) -> CoreView {
        match rotation {
            Some(rotation) => self.logged(rotation_kind(rotation)),
            None => self,
        }
    }

    /// The books once output has been recorded, before the surface sees it.
    pub open spec fn recorded(self, bytes: Seq<u8>) -> CoreView {
        let rotated = self.transcript.added(bytes).rotated();
        CoreView {
            overlay: self.overlay.after(bytes),
            transcript: rotated.0,
            ..self
        }.noted_rotation(rotated.1)
    }

    /// The offset that output is reported at.
    pub open spec fn output_offset(self) -> Option<u64> {
        if self.transcript.config.mode == TranscriptMode::Disabled {
            None
        } else {
            Some(self.transcript.next_offset())
        }
    }

    /// The event that reports output.
    pub open spec fn output_kind(self, bytes: Seq<u8>) -> EventView {
        EventView::Output(
            OutputEvent {
                bytes_len: bytes.len() as usize,
                transcript_offset: self.output_offset(),
                contains_escape: bytes.contains(0x1b),
            },
        )
    }

    /// The event that reports a surface update.
    pub open spec fn update_kind(self, update: SurfaceUpdate) -> EventView {
        EventView::SurfaceChanged(
            SurfaceChangedEvent {
                generation: self.generation,
                dirty_rows: update.dirty_rows,
                cursor_changed: update.cursor_changed,
                title_changed: update.title_changed,
                modes_changed: update.modes_changed,
                scrollback_changed: update.scrollback_changed,
            },
        )
    }

    /// The books after the surface consumed output: a new generation, and the
    /// lines it dropped.
    pub open spec fn fed(self, update: SurfaceUpdate) -> CoreView {
        CoreView {
            generation: next64(self.generation),
            stats: PaneStats {
                scrollback_lines_dropped: sum64(
                    self.stats.scrollback_lines_dropped,
                    update.scrollback_lines_dropped,
                ),
            },
            ..self
        }
    }

    /// The books after a surface update was reported, if it is worth it.
    pub open spec fn reported(self, update: SurfaceUpdate) -> CoreView {
        if worth_reporting(update) {
            self.logged(self.update_kind(update))
        } else {
            self
        }
    }

    /// The books after output, whatever the surface answered.
    pub open spec fn output(self, bytes: Seq<u8>, feed: FeedView) -> CoreView {
        let kind = self.output_kind(bytes);
        match feed {
            Ok(update) => self.recorded(bytes).fed(update).logged(kind).reported(update),
            Err(_) => self.recorded(bytes).logged(kind),
        }
    }

    /// The books after output that the pane lives or fails by.
    pub open spec fn survived(self, bytes: Seq<u8>, feed: FeedView) -> CoreView {
        match feed {
            Ok(_) => self.output(bytes, feed),
            Err(error) => self.output(bytes, feed).failed(as_surface_error(error)),
        }
    }

    /// The books with what the transcript held back recorded.
    pub open spec fn flushed(self) -> CoreView {
        if self.transcript.pending.len() == 0 {
            self
        } else {
            let rotated = self.transcript.settled().rotated();
            CoreView { transcript: rotated.0, ..self }.noted_rotation(rotated.1)
        }
    }

    /// The exit that is kept when another one is reported: being killed or
    /// having failed outlasts everything later.
    pub open spec fn exit_after(self, exit: ExitView) -> Option<ExitView> {
        match self.exit {
            Some(ExitView::Killed { .. }) => self.exit,
            Some(ExitView::Failed { .. }) => self.exit,
            _ => Some(exit),
        }
    }

    /// The books after a change of state.
    pub open spec fn moved(self, state: StateView) -> CoreView {
        CoreView { state, ..self }.logged(EventView::StateChanged { old: self.state, new: state })
    }

    /// The books after a failure. Only a live pane changes its state by it.
    pub open spec fn failed(self, error: ErrorView) -> CoreView {
        let told = self.flushed().logged(EventView::Error(error));
        if told.state.is_live() {
            CoreView {
                exit: told.exit_after(ExitView::Failed { error }),
                ..told
            }.moved(StateView::Failed { error })
        } else {
            told
        }
    }

    /// The books after the child exited. Only a live pane changes its state by
    /// it.
    pub open spec fn exited(self, code: Option<i32>) -> CoreView {
        let told = CoreView { exit_seen: true, ..self }.flushed().logged(
            EventView::Exited(ExitedEvent { code }),
        );
        if told.state.is_live() {
            CoreView {
                exit: told.exit_after(ExitView::Exited { code }),
                ..told
            }.moved(StateView::Exited { code })
        } else {
            told
        }
    }

    /// The books after the pane was killed.
    pub open spec fn killed(self, reason: KillReason) -> CoreView {
        CoreView {
            exit: self.exit_after(ExitView::Killed { reason }),
            ..self
        }.moved(StateView::Killed { reason })
    }

    /// The books after lost output was reported.
    pub open spec fn lost(self, dropped_frames: u64, dropped_bytes: u64) -> CoreView {
        self.logged(
            EventView::Overflow(
                OverflowEvent {
                    dropped_frames,
                    dropped_bytes,
                    queue: OverflowQueue::PtyOutputFrames,
                },
            ),
        )
    }

    /// The books after a frame, given what the surface answered if it was
    /// output.
    pub open spec fn took(self, frame: FrameView, feed: FeedView) -> CoreView {
        match frame {
            FrameView::Output(bytes) => self.survived(bytes, feed),
            FrameView::Overflow { dropped_frames, dropped_bytes } => self.lost(
                dropped_frames,
                dropped_bytes,
            ),
            FrameView::Error(message) => self.failed(
                ErrorView::Io { operation: IoOperation::Read, message },
            ),
            FrameView::Exited(code) => self.exited(code),
            FrameView::CursorPositionRequest => self,
        }
    }

    /// The books after a row of frames.
    pub open spec fn took_all(self, frames: Seq<(FrameView, FeedView)>) -> CoreView
        decreases frames.len(),
    {
        if frames.len() == 0 {
            self
        } else {
            self.took_all(frames.drop_last()).took(frames.last().0, frames.last().1)
        }
    }

    /// The books after a resize.
    pub open spec fn resized(self, size: Size) -> CoreView {
        CoreView {
            sizes: self.sizes.push(
                ReproSizeEvent { transcript_offset: self.transcript.next_raw(), size },
            ),
            ..self
        }.logged(EventView::Resized(ResizedEvent { size }))
    }

    /// The books after input was sent.
    pub open spec fn sent(self, input_kind: InputKind, len: nat) -> CoreView {
        self.logged(
            EventView::InputSent(
                InputSentEvent { input_kind, bytes_len: len as usize, recorded: false },
            ),
        )
    }

    /// The books of a pane that is about to be removed: nothing is held back,
    /// and a pane that was killed or failed has its exit reported.
    pub open spec fn retired(self) -> CoreView {
        let flushed = self.flushed();
        if (flushed.state is Killed || flushed.state is Failed) && !flushed.exit_seen {
            CoreView { exit_seen: true, ..flushed }.logged(
                EventView::Exited(ExitedEvent { code: None }),
            )
        } else {
            flushed
        }
    }

    /// How the pane ended, if it did.
    pub open spec fn outcome(self) -> Option<ExitView> {
        match self.exit {
            Some(exit) => Some(exit),
            None => match self.state {
                StateView::Exited { code } => Some(ExitView::Exited { code }),
                StateView::Killed { reason } => Some(ExitView::Killed { reason }),
                StateView::Failed { error } => Some(ExitView::Failed { error }),
                StateView::Starting => None,
                StateView::Running => None,
            },
        }
    }

    /// The books after a note of an attach to a pane of size `embedded`.
    pub open spec fn attach_noted(
        self,
        note: NoteView,
        embedded: Size,
        screen: AttachScreenPolicy,
    ) -> CoreView {
        match note {
            NoteView::Started { terminal_size } => self.logged(
                EventView::AttachStarted(
                    AttachStartedEvent {
                        terminal_size,
                        embedded_size: embedded,
                        screen_policy: screen,
                    },
                ),
            ),
            NoteView::Resized(size) => self.resized(size),
            NoteView::InputSent(len) => self.sent(InputKind::Bytes, len),
            NoteView::ChildExited(code) => self.exited(code),
            NoteView::ChildFault(message) => self.failed(
                ErrorView::Io { operation: IoOperation::Read, message },
            ),
            NoteView::OutputLost { dropped_frames, dropped_bytes } => self.lost(
                dropped_frames,
                dropped_bytes,
            ),
            NoteView::Failed(failure) => self.logged(EventView::Error(failure.pane_error())),
            NoteView::Ended { reason, nanos } => self.logged(
                EventView::AttachEnded(
                    AttachEndedEvent {
                        reason,
                        restored_size: embedded,
                        duration: Duration { nanos: nanos as u128 },
                    },
                ),
            ),
        }
    }

    /// The books of a pane that has just been spawned.
    pub open spec fn spawned(pane: PaneId, config: PaneConfig) -> CoreView {
        CoreView {
            pane,
            title: opt_text(config.title),
            config,
            state: StateView::Starting,
            mode: PaneInteractionMode::Embedded,
            input: config.input,
            stats: PaneStats { scrollback_lines_dropped: 0 },
            generation: 0,
            log: seq![],
            sizes: seq![ReproSizeEvent { transcript_offset: 0, size: config.size }],
            exit: None,
            exit_seen: false,
            overlay: OverlayView::fresh(),
            transcript: TranscriptView {
                config: config.transcript,
                chunks: seq![],
                raw_start: 0,
                plain_start: 0,
                pending: seq![],
            },
        }.logged(EventView::Spawned { program: config.command.program@ }).moved(StateView::Running)
    }

    /// What no later step changes: the log up to now, the pane, and how it was
    /// spawned.
    pub open spec fn grew_from(self, before: CoreView) -> bool {
        &&& before.log.len() <= self.log.len()
        &&& self.log.take(before.log.len() as int) == before.log
        &&& self.pane == before.pane
        &&& self.config == before.config
    }
}

/// Whether books follow from others by at most `k` further events, which go on
/// with the numbering as long as there are numbers.
pub open spec fn follows(later: CoreView, before: CoreView, k: nat) -> bool {
    &&& later.grew_from(before)
    &&& before.numbered() && before.log.len() + k <= u64::MAX ==> later.numbered()
    &&& later.log.len() <= before.log.len() + k
}

proof fn lemma_logged(core: CoreView, kind: EventView)
    ensures
        follows(core.logged(kind), core, 1),
{
    let later = core.logged(kind);
    assert(later.log.take(core.log.len() as int) =~= core.log);
}

pub(crate) proof fn lemma_follows(last: CoreView, middle: CoreView, first: CoreView, j: nat, k: nat)
    requires
        follows(last, middle, j),
        follows(middle, first, k),
    ensures
        follows(last, first, j + k),
{
    assert(last.log.take(first.log.len() as int) =~= last.log.take(middle.log.len() as int).take(
        first.log.len() as int,
    ));
}

proof fn lemma_same_log(later: CoreView, before: CoreView)
    requires
        later.log == before.log,
        later.pane == before.pane,
        later.config == before.config,
    ensures
        follows(later, before, 0),
{
    assert(later.log.take(before.log.len() as int) =~= before.log);
}

proof fn lemma_rotation(core: CoreView, rotation: Option<TranscriptRotation>)
    ensures
        follows(core.noted_rotation(rotation), core, 1),
{
    lemma_same_log(core, core);
    if let Some(r) = rotation {
        lemma_logged(core, rotation_kind(r));
    }
}

proof fn lemma_flushed(core: CoreView)
    ensures
        follows(core.flushed(), core, 1),
        core.flushed().state == core.state,
        core.flushed().exit == core.exit,
        core.flushed().exit_seen == core.exit_seen,
{
    lemma_same_log(core, core);
    let rotated = core.transcript.settled().rotated();
    let kept = CoreView { transcript: rotated.0, ..core };
    lemma_same_log(kept, core);
    lemma_rotation(kept, rotated.1);
    lemma_follows(kept.noted_rotation(rotated.1), kept, core, 1, 0);
}

proof fn lemma_moved(core: CoreView, state: StateView)
    ensures
        follows(core.moved(state), core, 1),
{
    let changed = CoreView { state, ..core };
    lemma_same_log(changed, core);
    lemma_logged(changed, EventView::StateChanged { old: core.state, new: state });
    lemma_follows(core.moved(state), changed, core, 1, 0);
}

pub(crate) proof fn lemma_failed(core: CoreView, error: ErrorView)
    ensures
        follows(core.failed(error), core, 3),
{
    lemma_flushed(core);
    let flushed = core.flushed();
    let told = flushed.logged(EventView::Error(error));
    lemma_logged(flushed, EventView::Error(error));
    lemma_follows(told, flushed, core, 1, 1);
    if told.state.is_live() {
        let kept = CoreView { exit: told.exit_after(ExitView::Failed { error }), ..told };
        lemma_same_log(kept, told);
        lemma_moved(kept, StateView::Failed { error });
        lemma_follows(core.failed(error), kept, told, 1, 0);
        lemma_follows(core.failed(error), told, core, 1, 2);
    }
}

proof fn lemma_exited(core: CoreView, code: Option<i32>)
    ensures
        follows(core.exited(code), core, 3),
{
    let seen = CoreView { exit_seen: true, ..core };
    lemma_same_log(seen, core);
    lemma_flushed(seen);
    let flushed = seen.flushed();
    lemma_follows(flushed, seen, core, 1, 0);
    let kind = EventView::Exited(ExitedEvent { code });
    let told = flushed.logged(kind);
    lemma_logged(flushed, kind);
    lemma_follows(told, flushed, core, 1, 1);
    if told.state.is_live() {
        let kept = CoreView { exit: told.exit_after(ExitView::Exited { code }), ..told };
        lemma_same_log(kept, told);
        lemma_moved(kept, StateView::Exited { code });
        lemma_follows(core.exited(code), kept, told, 1, 0);
        lemma_follows(core.exited(code), told, core, 1, 2);
    }
}

proof fn lemma_recorded(core: CoreView, bytes: Seq<u8>)
    ensures
        follows(core.recorded(bytes), core, 1),
        core.recorded(bytes).state == core.state,
        core.recorded(bytes).exit == core.exit,
{
    let rotated = core.transcript.added(bytes).rotated();
    let kept = CoreView {
        overlay: core.overlay.after(bytes),
        transcript: rotated.0,
        ..core
    };
    lemma_same_log(kept, core);
    lemma_rotation(kept, rotated.1);
    lemma_follows(core.recorded(bytes), kept, core, 1, 0);
}

proof fn lemma_output(core: CoreView, bytes: Seq<u8>, feed: FeedView)
    ensures
        follows(core.output(bytes, feed), core, 3),
        core.output(bytes, feed).state == core.state,
        core.output(bytes, feed).exit == core.exit,
{
    let kind = core.output_kind(bytes);
    let recorded = core.recorded(bytes);
    lemma_recorded(core, bytes);
    match feed {
        Ok(update) => {
            let fed = recorded.fed(update);
            lemma_same_log(fed, recorded);
            lemma_follows(fed, recorded, core, 0, 1);
            let told = fed.logged(kind);
            lemma_logged(fed, kind);
            lemma_follows(told, fed, core, 1, 1);
            if worth_reporting(update) {
                lemma_logged(told, told.update_kind(update));
                lemma_follows(told.reported(update), told, core, 1, 2);
            }
        },
        Err(_) => {
            lemma_logged(recorded, kind);
            lemma_follows(recorded.logged(kind), recorded, core, 1, 1);
        },
    }
}

/// The event stream of a pane has no gaps and is never rewritten: whatever
/// frame comes and whatever the surface answers, the log grows at its end, each
/// event with the next number.
pub proof fn law_log_only_grows(core: CoreView, frame: FrameView, feed: FeedView)
    ensures
        follows(core.took(frame, feed), core, 6),
{
    lemma_same_log(core, core);
    match frame {
        FrameView::Output(bytes) => {
            lemma_output(core, bytes, feed);
            if let Err(error) = feed {
                let told = core.output(bytes, feed);
                lemma_failed(told, as_surface_error(error));
                lemma_follows(core.survived(bytes, feed), told, core, 3, 3);
            }
        },
        FrameView::Overflow { dropped_frames, dropped_bytes } => {
            lemma_logged(
                core,
                EventView::Overflow(
                    OverflowEvent {
                        dropped_frames,
                        dropped_bytes,
                        queue: OverflowQueue::PtyOutputFrames,
                    },
                ),
            );
        },
        FrameView::Error(message) => {
            lemma_failed(core, ErrorView::Io { operation: IoOperation::Read, message });
        },
        FrameView::Exited(code) => {
            lemma_exited(core, code);
        },
        FrameView::CursorPositionRequest => {},
    }
}

/// An ended pane stays as it ended: no further frame changes its state or how
/// it will be said to have ended.
pub proof fn law_ended_panes_stay_ended(core: CoreView, frame: FrameView, feed: FeedView)
    requires
        !core.state.is_live(),
    ensures
        core.took(frame, feed).state == core.state,
        core.took(frame, feed).exit == core.exit,
        core.took(frame, feed).outcome() == core.outcome(),
{
    match frame {
        FrameView::Output(bytes) => {
            lemma_output(core, bytes, feed);
            if let Err(error) = feed {
                lemma_flushed(core.output(bytes, feed));
            }
        },
        FrameView::Error(message) => {
            lemma_flushed(core);
        },
        FrameView::Exited(code) => {
            lemma_flushed(CoreView { exit_seen: true, ..core });
        },
        _ => {},
    }
}

/// A pane that was killed is removed as killed, whatever its process still
/// sends.
pub proof fn law_killed_panes_end_killed(
    core: CoreView,
    reason: KillReason,
    frames: Seq<(FrameView, FeedView)>,
)
    requires
        core.exit is None,
    ensures
        core.killed(reason).took_all(frames).outcome() == Some(ExitView::Killed { reason }),
        core.killed(reason).took_all(frames).state == (StateView::Killed { reason }),
        follows(core.killed(reason).took_all(frames), core, (1 + 6 * frames.len()) as nat),
    decreases frames.len(),
{
    let kept = CoreView { exit: core.exit_after(ExitView::Killed { reason }), ..core };
    if frames.len() == 0 {
        lemma_same_log(kept, core);
        lemma_moved(kept, StateView::Killed { reason });
        lemma_follows(core.killed(reason), kept, core, 1, 0);
    } else {
        let shorter = frames.drop_last();
        law_killed_panes_end_killed(core, reason, shorter);
        let before = core.killed(reason).took_all(shorter);
        law_log_only_grows(before, frames.last().0, frames.last().1);
        law_ended_panes_stay_ended(before, frames.last().0, frames.last().1);
        lemma_follows(
            core.killed(reason).took_all(frames),
            before,
            core,
            6,
            (1 + 6 * shorter.len()) as nat,
        );
    }
}

/// The exit of a child is reported once: a pane whose exit has been reported is
/// retired without another report.
pub proof fn law_exit_is_reported_once(core: CoreView, code: Option<i32>)
    ensures
        core.exited(code).retired() == core.exited(code).flushed(),
{
    lemma_exited(core, code);
    lemma_flushed(CoreView { exit_seen: true, ..core });
    lemma_flushed(core.exited(code));
}

/// A note of an attach continues the books of its pane.
pub proof fn law_attach_notes_grow(
    core: CoreView,
    note: NoteView,
    embedded: Size,
    screen: AttachScreenPolicy,
)
    ensures
        follows(core.attach_noted(note, embedded, screen), core, 3),
{
    match note {
        NoteView::Started { terminal_size } => {
            lemma_logged(
                core,
                EventView::AttachStarted(
                    AttachStartedEvent {
                        terminal_size,
                        embedded_size: embedded,
                        screen_policy: screen,
                    },
                ),
            );
        },
        NoteView::Resized(size) => {
            let sized = CoreView {
                sizes: core.sizes.push(
                    ReproSizeEvent { transcript_offset: core.transcript.next_raw(), size },
                ),
                ..core
            };
            lemma_same_log(sized, core);
            lemma_logged(sized, EventView::Resized(ResizedEvent { size }));
            lemma_follows(core.resized(size), sized, core, 1, 0);
        },
        NoteView::InputSent(len) => {
            lemma_logged(
                core,
                EventView::InputSent(
                    InputSentEvent {
                        input_kind: InputKind::Bytes,
                        bytes_len: len as usize,
                        recorded: false,
                    },
                ),
            );
        },
        NoteView::ChildExited(code) => {
            lemma_exited(core, code);
        },
        NoteView::ChildFault(message) => {
            lemma_failed(core, ErrorView::Io { operation: IoOperation::Read, message });
        },
        NoteView::OutputLost { dropped_frames, dropped_bytes } => {
            lemma_logged(
                core,
                EventView::Overflow(
                    OverflowEvent {
                        dropped_frames,
                        dropped_bytes,
                        queue: OverflowQueue::PtyOutputFrames,
                    },
                ),
            );
        },
        NoteView::Failed(failure) => {
            lemma_logged(core, EventView::Error(failure.pane_error()));
        },
        NoteView::Ended { reason, nanos } => {
            lemma_logged(
                core,
                EventView::AttachEnded(
                    AttachEndedEvent {
                        reason,
                        restored_size: embedded,
                        duration: Duration { nanos: nanos as u128 },
                    },
                ),
            );
        },
    }
}

/// Retiring a pane reports at most what was held back and its exit, and leaves
/// how it ended alone.
pub proof fn law_retiring(core: CoreView)
    ensures
        follows(core.retired(), core, 2),
        core.retired().state == core.state,
        core.retired().exit == core.exit,
        core.retired().outcome() == core.outcome(),
{
    lemma_flushed(core);
    let flushed = core.flushed();
    if (flushed.state is Killed || flushed.state is Failed) && !flushed.exit_seen {
        let seen = CoreView { exit_seen: true, ..flushed };
        let kind = EventView::Exited(ExitedEvent { code: None });
        lemma_same_log(seen, flushed);
        lemma_logged(seen, kind);
        lemma_follows(seen.logged(kind), seen, flushed, 1, 0);
        lemma_follows(seen.logged(kind), flushed, core, 1, 1);
    }
}

/// The books of one pane.
#[derive(Debug)]
pub struct PaneCore {
    pane_id: PaneId,
    title: Option<String>,
    spawn_config: PaneConfig,
    state: PaneState,
    interaction_mode: PaneInteractionMode,
    input_config: InputConfig,
    stats: PaneStats,
    surface_generation: u64,
    event_log: Vec<PaneEvent>,
    size_history: Vec<ReproSizeEvent>,
    exit: Option<PaneExit>,
    exit_event_observed: bool,
    mode_overlay: TerminalModeOverlay,
    transcript: Transcript,
}

impl View for PaneCore {
    type V = CoreView;

    closed spec fn view(&self) -> CoreView {
        CoreView {
            pane: self.pane_id,
            title: opt_text(self.title),
            config: self.spawn_config,
            state: self.state@,
            mode: self.interaction_mode,
            input: self.input_config,
            stats: self.stats,
            generation: self.surface_generation,
            log: entries(self.event_log@),
            sizes: self.size_history@,
            exit: opt_exit(self.exit),
            exit_seen: self.exit_event_observed,
            overlay: self.mode_overlay@,
            transcript: self.transcript@,
        }
    }
}

impl PaneCore {
    /// The events that were logged, with their times.
    pub closed spec fn events(self) -> Seq<PaneEvent> {
        self.event_log@
    }

    /// Whether the books are in order.
    pub closed spec fn wf(self) -> bool {
        &&& self.transcript.wf()
        &&& self@.numbered()
    }

    /// The log is numbered, and the view of it has all of it.
    pub proof fn law_log_is_numbered(self)
        requires
            self.wf(),
        ensures
            self@.numbered(),
            entries(self.events()) == self@.log,
    {
    }

    fn push_event(&mut self, kind: PaneEventKind)
        requires
            old(self).wf(),
        ensures
            goes_on(final(self).events(), old(self).events()),
            final(self).wf(),
            final(self)@ == old(self)@.logged(kind@),
    {
        let ghost log = self.event_log@;
        let event = PaneEvent {
            pane_id: self.pane_id,
            seq: 0,
            at: SystemTime::now(),
            kind,
        };
        self.event_log.push(event);
        let n = self.event_log.len();
        self.event_log[n - 1].seq = n as u64;
        proof {
            assert(entries(self.event_log@) =~= entries(log).push(
                EventEntry { pane: self.pane_id, seq: n as u64, kind: kind@ },
            ));
        }
    }

    fn note_rotation(&mut self, rotation: Option<TranscriptRotation>)
        requires
            old(self).wf(),
        ensures
            goes_on(final(self).events(), old(self).events()),
            final(self).wf(),
            final(self)@ == old(self)@.noted_rotation(rotation),
    {
        if let Some(rotation) = rotation {
            self.push_event(
                PaneEventKind::TranscriptRotated(
                    TranscriptRotatedEvent {
                        chunks_dropped: rotation.chunks_dropped,
                        bytes_dropped: rotation.bytes_dropped,
                        raw_bytes_dropped: rotation.raw_bytes_dropped,
                        plain_bytes_dropped: rotation.plain_bytes_dropped,
                    },
                ),
            );
        }
    }

    fn flush_transcript(&mut self)
        requires
            old(self).wf(),
        ensures
            goes_on(final(self).events(), old(self).events()),
            final(self).wf(),
            final(self)@ == old(self)@.flushed(),
    {
        let rotated = self.transcript.flush_pending();
        self.note_rotation(rotated);
    }

    fn transition_state(&mut self, new: PaneState)
        requires
            old(self).wf(),
        ensures
            goes_on(final(self).events(), old(self).events()),
            final(self).wf(),
            final(self)@ == old(self)@.moved(new@),
    {
        let old = self.state.clone();
        self.state = new.clone();
        self.push_event(PaneEventKind::StateChanged(Box::new(StateChangedEvent { old, new })));
    }

    fn set_exit_if_not_killed_or_failed(&mut self, exit: PaneExit)
        requires
            old(self).wf(),
        ensures
            goes_on(final(self).events(), old(self).events()),
            final(self).wf(),
            final(self)@ == (CoreView { exit: old(self)@.exit_after(exit@), ..old(self)@ }),
    {
        let kept = match &self.exit {
            Some(PaneExit::Killed { .. }) => true,
            Some(PaneExit::Failed { .. }) => true,
            _ => false,
        };
        if !kept {
            self.exit = Some(exit);
        }
    }

    /// Books of a pane that has just been spawned.
    pub fn spawned(pane_id: PaneId, config: PaneConfig) -> (core: Self)
        ensures
            core.wf(),
            core@ == CoreView::spawned(pane_id, config),
    {
        let program = config.command.program.clone();
        let mut core = Self::fresh(pane_id, config, PaneState::Starting);
        core.push_event(PaneEventKind::Spawned(SpawnedEvent { program }));
        core.transition_state(PaneState::Running);
        core
    }

    /// Books of a pane with nothing in its log.
    pub(crate) fn fresh(pane_id: PaneId, config: PaneConfig, state: PaneState) -> (core: Self)
        ensures
            core.wf(),
            core@ == (CoreView {
                pane: pane_id,
                title: opt_text(config.title),
                config,
                state: state@,
                mode: PaneInteractionMode::Embedded,
                input: config.input,
                stats: PaneStats { scrollback_lines_dropped: 0 },
                generation: 0,
                log: seq![],
                sizes: seq![ReproSizeEvent { transcript_offset: 0, size: config.size }],
                exit: None,
                exit_seen: false,
                overlay: OverlayView::fresh(),
                transcript: TranscriptView {
                    config: config.transcript,
                    chunks: seq![],
                    raw_start: 0,
                    plain_start: 0,
                    pending: seq![],
                },
            }),
    {
        let core = PaneCore {
            pane_id,
            title: clone_opt_text(&config.title),
            state,
            interaction_mode: PaneInteractionMode::Embedded,
            input_config: config.input,
            stats: PaneStats::default(),
            surface_generation: 0,
            event_log: Vec::new(),
            size_history: vec![ReproSizeEvent { transcript_offset: 0, size: config.size }],
            exit: None,
            exit_event_observed: false,
            mode_overlay: TerminalModeOverlay::default(),
            transcript: Transcript::new(config.transcript),
            spawn_config: config,
        };
        assert(core@.log =~= seq![]);
        assert(core@.sizes =~= seq![ReproSizeEvent { transcript_offset: 0, size: config.size }]);
        core
    }

    /// Records output before the surface sees it, and returns the event that
    /// will report it.
    pub fn record_output(&mut self, bytes: &[u8]) -> (event: OutputEvent)
        requires
            old(self).wf(),
        ensures
            goes_on(final(self).events(), old(self).events()),
            final(self).wf(),
            final(self)@ == old(self)@.recorded(bytes@),
            EventView::Output(event) == old(self)@.output_kind(bytes@),
    {
        let _ = self.mode_overlay.update_from_output(bytes);
        let record = self.transcript.record(bytes);
        let transcript_offset = if self.transcript.mode() == TranscriptMode::Disabled {
            None
        } else {
            Some(record.offset)
        };
        self.note_rotation(record.rotated);
        let contains_escape = has_escape(bytes);
        OutputEvent { bytes_len: bytes.len(), transcript_offset, contains_escape }
    }

    /// Reports recorded output once the surface has answered. An error of the
    /// surface comes back.
    pub fn report_output(&mut self, event: OutputEvent, feed: Result<SurfaceUpdate>) -> (r: Result<
        (),
    >)
        requires
            old(self).wf(),
        ensures
            goes_on(final(self).events(), old(self).events()),
            final(self).wf(),
            match feed {
                Ok(update) => r is Ok && final(self)@ == old(self)@.fed(update).logged(
                    EventView::Output(event),
                ).reported(update),
                Err(error) => r matches Err(e) && e@ == error@ && final(self)@ == old(
                    self,
                )@.logged(EventView::Output(event)),
            },
    {
        match feed {
            Ok(update) => {
                self.note_feed(update);
                self.push_event(PaneEventKind::Output(event));
                self.report_update(update);
                Ok(())
            },
            Err(error) => {
                self.push_event(PaneEventKind::Output(event));
                Err(error)
            },
        }
    }

    /// Takes note that the surface consumed output.
    pub(crate) fn note_feed(&mut self, update: SurfaceUpdate)
        requires
            old(self).wf(),
        ensures
            goes_on(final(self).events(), old(self).events()),
            final(self).wf(),
            final(self)@ == old(self)@.fed(update),
    {
        self.surface_generation = self.surface_generation.saturating_add(1);
        self.stats = PaneStats {
            scrollback_lines_dropped: self.stats.scrollback_lines_dropped.saturating_add(
                update.scrollback_lines_dropped,
            ),
        };
    }

    /// Reports a surface update that is worth it.
    pub(crate) fn report_update(&mut self, update: SurfaceUpdate)
        requires
            old(self).wf(),
        ensures
            goes_on(final(self).events(), old(self).events()),
            final(self).wf(),
            final(self)@ == old(self)@.reported(update),
    {
        if should_emit_surface_event(update) {
            self.push_event(
                PaneEventKind::SurfaceChanged(
                    SurfaceChangedEvent {
                        generation: self.surface_generation,
                        dirty_rows: update.dirty_rows,
                        cursor_changed: update.cursor_changed,
                        title_changed: update.title_changed,
                        modes_changed: update.modes_changed,
                        scrollback_changed: update.scrollback_changed,
                    },
                ),
            );
        }
    }

    /// Books a failure.
    pub fn fail(&mut self, error: PaneError)
        requires
            old(self).wf(),
        ensures
            goes_on(final(self).events(), old(self).events()),
            final(self).wf(),
            final(self)@ == old(self)@.failed(error@),
    {
        self.flush_transcript();
        self.push_event(PaneEventKind::Error(ErrorEvent { error: error.clone() }));
        if self.is_live() {
            self.set_exit_if_not_killed_or_failed(PaneExit::Failed { error: error.clone() });
            self.transition_state(PaneState::Failed { error });
        }
    }

    /// Books the exit of the child.
    pub fn exit(&mut self, code: Option<i32>)
        requires
            old(self).wf(),
        ensures
            goes_on(final(self).events(), old(self).events()),
            final(self).wf(),
            final(self)@ == old(self)@.exited(code),
    {
        self.exit_event_observed = true;
        self.flush_transcript();
        self.push_event(PaneEventKind::Exited(ExitedEvent { code }));
        if self.is_live() {
            self.set_exit_if_not_killed_or_failed(PaneExit::Exited { code });
            self.transition_state(PaneState::Exited { code });
        }
    }

    /// Books that the pane was killed.
    pub fn kill(&mut self, reason: KillReason)
        requires
            old(self).wf(),
        ensures
            goes_on(final(self).events(), old(self).events()),
            final(self).wf(),
            final(self)@ == old(self)@.killed(reason),
    {
        self.set_exit_if_not_killed_or_failed(PaneExit::Killed { reason });
        self.transition_state(PaneState::Killed { reason });
    }

    /// Books that output was lost.
    pub fn lose(&mut self, dropped_frames: u64, dropped_bytes: u64)
        requires
            old(self).wf(),
        ensures
            goes_on(final(self).events(), old(self).events()),
            final(self).wf(),
            final(self)@ == old(self)@.lost(dropped_frames, dropped_bytes),
    {
        self.push_event(
            PaneEventKind::Overflow(
                OverflowEvent {
                    dropped_frames,
                    dropped_bytes,
                    queue: OverflowQueue::PtyOutputFrames,
                },
            ),
        );
    }

    /// Books a resize.
    pub fn resize(&mut self, size: Size)
        requires
            old(self).wf(),
        ensures
            goes_on(final(self).events(), old(self).events()),
            final(self).wf(),
            final(self)@ == old(self)@.resized(size),
    {
        let offset = self.transcript.next_raw_offset();
        self.size_history.push(ReproSizeEvent { transcript_offset: offset, size });
        self.push_event(PaneEventKind::Resized(ResizedEvent { size }));
    }

    /// Books input that was sent.
    pub fn send(&mut self, input_kind: InputKind, bytes_len: usize)
        requires
            old(self).wf(),
        ensures
            goes_on(final(self).events(), old(self).events()),
            final(self).wf(),
            final(self)@ == old(self)@.sent(input_kind, bytes_len as nat),
    {
        self.push_event(
            PaneEventKind::InputSent(InputSentEvent { input_kind, bytes_len, recorded: false }),
        );
    }

    /// Books an error that does not end the pane.
    pub fn report_error(&mut self, error: PaneError)
        requires
            old(self).wf(),
        ensures
            goes_on(final(self).events(), old(self).events()),
            final(self).wf(),
            final(self)@ == old(self)@.logged(EventView::Error(error@)),
    {
        self.push_event(PaneEventKind::Error(ErrorEvent { error }));
    }

    /// Settles the books of a pane that is about to be removed.
    pub fn retire(&mut self)
        requires
            old(self).wf(),
        ensures
            goes_on(final(self).events(), old(self).events()),
            final(self).wf(),
            final(self)@ == old(self)@.retired(),
    {
        self.flush_transcript();
        let ended = match &self.state {
            PaneState::Killed { .. } => true,
            PaneState::Failed { .. } => true,
            _ => false,
        };
        if ended && !self.exit_event_observed {
            self.exit_event_observed = true;
            self.push_event(PaneEventKind::Exited(ExitedEvent { code: None }));
        }
    }

    /// How the pane ended, if it did.
    pub fn remove_exit(self) -> (exit: Option<PaneExit>)
        ensures
            opt_exit(exit) == self@.outcome(),
    {
        match self.exit {
            Some(exit) => Some(exit),
            None => match self.state {
                PaneState::Exited { code } => Some(PaneExit::Exited { code }),
                PaneState::Killed { reason } => Some(PaneExit::Killed { reason }),
                PaneState::Failed { error } => Some(PaneExit::Failed { error }),
                PaneState::Starting => None,
                PaneState::Running => None,
            },
        }
    }

    /// Books a note of an attach.
    pub fn note_attach(&mut self, note: &AttachNote, embedded: Size, screen: AttachScreenPolicy)
        requires
            old(self).wf(),
        ensures
            goes_on(final(self).events(), old(self).events()),
            final(self).wf(),
            final(self)@ == old(self)@.attach_noted(note@, embedded, screen),
    {
        match note {
            AttachNote::Started { terminal_size } => {
                self.push_event(
                    PaneEventKind::AttachStarted(
                        AttachStartedEvent {
                            terminal_size: *terminal_size,
                            embedded_size: embedded,
                            screen_policy: screen,
                        },
                    ),
                );
            },
            AttachNote::Resized(size) => {
                self.resize(*size);
            },
            AttachNote::InputSent(len) => {
                self.send(InputKind::Bytes, *len);
            },
            AttachNote::ChildExited(code) => {
                self.exit(*code);
            },
            AttachNote::ChildFault(message) => {
                self.fail(
                    PaneError::Io { operation: IoOperation::Read, message: message.clone() },
                );
            },
            AttachNote::OutputLost { dropped_frames, dropped_bytes } => {
                self.lose(*dropped_frames, *dropped_bytes);
            },
            AttachNote::Failed(failure) => {
                self.report_error(attach_failure_to_pane_error(failure));
            },
            AttachNote::Ended { reason, duration } => {
                self.push_event(
                    PaneEventKind::AttachEnded(
                        AttachEndedEvent {
                            reason: *reason,
                            restored_size: embedded,
                            duration: *duration,
                        },
                    ),
                );
            },
        }
    }

    /// Sets the interaction mode.
    pub fn set_interaction_mode(&mut self, mode: PaneInteractionMode)
        requires
            old(self).wf(),
        ensures
            goes_on(final(self).events(), old(self).events()),
            final(self).wf(),
            final(self)@ == (CoreView { mode, ..old(self)@ }),
    {
        self.interaction_mode = mode;
    }

    /// Replaces the transcript by an empty one.
    pub(crate) fn set_transcript(&mut self, config: TranscriptConfig)
        requires
            old(self).wf(),
        ensures
            goes_on(final(self).events(), old(self).events()),
            final(self).wf(),
            final(self)@ == (CoreView {
                transcript: TranscriptView {
                    config,
                    chunks: seq![],
                    raw_start: 0,
                    plain_start: 0,
                    pending: seq![],
                },
                ..old(self)@
            }),
    {
        self.transcript = Transcript::new(config);
    }

    /// Sets the title that snapshots show.
    pub(crate) fn set_title(&mut self, title: Option<String>)
        requires
            old(self).wf(),
        ensures
            goes_on(final(self).events(), old(self).events()),
            final(self).wf(),
            final(self)@ == (CoreView { title: opt_text(title), ..old(self)@ }),
    {
        self.title = title;
    }

    /// Whether the child is starting or running.
    pub fn is_live(&self) -> (b: bool)
        ensures
            b == self@.state.is_live(),
    {
        match &self.state {
            PaneState::Starting => true,
            PaneState::Running => true,
            _ => false,
        }
    }

    /// Whether the child is running.
    pub fn is_running(&self) -> (b: bool)
        ensures
            b == (self@.state is Running),
    {
        match &self.state {
            PaneState::Running => true,
            _ => false,
        }
    }

    /// The pane.
    pub fn pane_id(&self) -> (id: PaneId)
        ensures
            id == self@.pane,
    {
        self.pane_id
    }

    /// The title.
    pub fn title(&self) -> (title: &Option<String>)
        ensures
            opt_text(*title) == self@.title,
    {
        &self.title
    }

    /// How the pane was spawned.
    pub fn spawn_config(&self) -> (config: &PaneConfig)
        ensures
            *config == self@.config,
    {
        &self.spawn_config
    }

    /// The state.
    pub fn state(&self) -> (state: &PaneState)
        ensures
            state@ == self@.state,
    {
        &self.state
    }

    /// The interaction mode.
    pub fn interaction_mode(&self) -> (mode: PaneInteractionMode)
        ensures
            mode == self@.mode,
    {
        self.interaction_mode
    }

    /// The input configuration.
    pub fn input_config(&self) -> (config: InputConfig)
        ensures
            config == self@.input,
    {
        self.input_config
    }

    /// The statistics.
    pub fn stats(&self) -> (stats: PaneStats)
        ensures
            stats == self@.stats,
    {
        self.stats
    }

    /// The event log.
    pub fn event_log(&self) -> (log: &Vec<PaneEvent>)
        ensures
            entries(log@) == self@.log,
            log@ == self.events(),
    {
        &self.event_log
    }

    /// The sizes the pane had.
    pub fn size_history(&self) -> (sizes: &Vec<ReproSizeEvent>)
        ensures
            sizes@ == self@.sizes,
    {
        &self.size_history
    }

    /// The modes that the output selected.
    pub fn mode_overlay(&self) -> (overlay: &TerminalModeOverlay)
        ensures
            overlay@ == self@.overlay,
    {
        &self.mode_overlay
    }

    /// The transcript.
    pub fn transcript(&self) -> (transcript: &Transcript)
        requires
            self.wf(),
        ensures
            transcript@ == self@.transcript,
            transcript.wf(),
    {
        &self.transcript
    }
}

fn has_escape(bytes: &[u8]) -> (b: bool)
    ensures
        b == bytes@.contains(0x1b),
{
    let at = crate::bytes::find_byte(bytes, 0x1b);
    proof {
        crate::bytes::lemma_index_of_byte(bytes@, 0x1b);
        if bytes@.contains(0x1b) {
            let i = choose|i: int| 0 <= i < bytes@.len() && bytes@[i] == 0x1b;
            assert(at <= i);
        } else if at < bytes@.len() {
            assert(bytes@[at as int] == 0x1b);
        }
    }
    at < bytes.len()
}

} // verus!
