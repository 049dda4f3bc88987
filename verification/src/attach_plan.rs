//! The course of a fullscreen attach: what is asked for, what may come back,
//! and the step that each reply leads to, stated over plain values.

use vstd::prelude::*;

use crate::attach::AttachState;
use crate::attach_error::{AttachFailure, AttachStepKind, FailureView};
use crate::attach_viewport::{moved_by, split_controls, AttachViewportAction, ContentRows};
use crate::command::{AttachOptions, AttachOutputPolicy, AttachResizePolicy};
use crate::detach::MatcherView;
use crate::event::{AttachScreenPolicy, DetachReason};
use crate::pane::Size;
use crate::pty::{FrameView, PtyFrame};
use crate::time::{elapsed_nanos, Duration, Instant};
use crate::viewport::{tail_viewport, TerminalViewport, TerminalViewportMetrics};

verus! {

/// How many PTY frames one round of the loop takes at most.
pub const MAX_PTY_FRAMES_PER_TICK: usize = 32;

/// How long the child must be quiet before a detach completes, in nanoseconds.
pub const DETACH_DRAIN_QUIET_NANOS: u128 = 200_000_000;

/// How long a detach waits for a quiet child at most, in nanoseconds.
pub const DETACH_DRAIN_MAX_WAIT_NANOS: u128 = 2_000_000_000;

/// A chunk of raw stdin bytes captured for attach-mode forwarding.
#[derive(Debug, Clone, PartialEq, Eq)]
pub struct AttachInputChunk {
    /// Capture timestamp used for detach-chord timeout handling.
    pub at: Instant,
    /// Raw bytes read from the host terminal.
    pub bytes: Vec<u8>,
}

/// Successful result from a blocking attach session.
#[derive(Debug, Clone, PartialEq, Eq)]
pub struct BlockingAttachOutcome {
    /// Why attach ended.
    pub reason: DetachReason,
    /// Exit code observed while attached, if the child exited.
    pub child_exit_code: Option<i32>,
    /// The real-terminal size used during attach.
    pub terminal_size: Size,
    /// The embedded size restored on detach.
    pub restored_size: Size,
    /// Bytes read after the detach chord in the same stdin chunk.
    pub remaining_input: Vec<u8>,
}

/// A [`BlockingAttachOutcome`] with its bytes as a sequence.
pub ghost struct OutcomeView {
    pub reason: DetachReason,
    pub child_exit_code: Option<i32>,
    pub terminal_size: Size,
    pub restored_size: Size,
    pub remaining_input: Seq<u8>,
}

impl View for BlockingAttachOutcome {
    type V = OutcomeView;

    open spec fn view(&self) -> OutcomeView {
        OutcomeView {
            reason: self.reason,
            child_exit_code: self.child_exit_code,
            terminal_size: self.terminal_size,
            restored_size: self.restored_size,
            remaining_input: self.remaining_input@,
        }
    }
}

/// What the attach loop needs next.
#[derive(Debug, PartialEq, Eq)]
pub enum AttachRequest {
    /// The current real-terminal size.
    TerminalSize,
    /// The next chunk of host input, if there is one.
    ReadInput,
    /// Bytes to write to the host terminal.
    WriteOutput(Vec<u8>),
    /// The host terminal to be suspended.
    Suspend(AttachScreenPolicy),
    /// The host terminal to be restored.
    Restore,
    /// A reading of the clock.
    Clock,
    /// A pause.
    Sleep(Duration),
    /// The child and its surface to be resized.
    Resize(Size),
    /// Bytes to write to the child.
    SendInput(Vec<u8>),
    /// The next PTY frame, if there is one.
    Receive,
    /// Child output to feed to the surface.
    Feed(Vec<u8>),
    /// The rows of the surface and its scrollback.
    Measure,
    /// What a viewport shows, as bytes for the host terminal.
    Render {
        /// The viewport.
        viewport: TerminalViewport,
        /// The size of the host terminal.
        size: Size,
    },
    /// Nothing: the attach is over.
    Finished(core::result::Result<BlockingAttachOutcome, AttachFailure>),
}

/// An [`AttachRequest`] with its bytes as sequences.
pub ghost enum RequestView {
    TerminalSize,
    ReadInput,
    WriteOutput(Seq<u8>),
    Suspend(AttachScreenPolicy),
    Restore,
    Clock,
    Sleep(Duration),
    Resize(Size),
    SendInput(Seq<u8>),
    Receive,
    Feed(Seq<u8>),
    Measure,
    Render { viewport: TerminalViewport, size: Size },
    Finished(core::result::Result<OutcomeView, FailureView>),
}

impl View for AttachRequest {
    type V = RequestView;

    open spec fn view(&self) -> RequestView {
        match self {
            AttachRequest::TerminalSize => RequestView::TerminalSize,
            AttachRequest::ReadInput => RequestView::ReadInput,
            AttachRequest::WriteOutput(bytes) => RequestView::WriteOutput(bytes@),
            AttachRequest::Suspend(policy) => RequestView::Suspend(*policy),
            AttachRequest::Restore => RequestView::Restore,
            AttachRequest::Clock => RequestView::Clock,
            AttachRequest::Sleep(span) => RequestView::Sleep(*span),
            AttachRequest::Resize(size) => RequestView::Resize(*size),
            AttachRequest::SendInput(bytes) => RequestView::SendInput(bytes@),
            AttachRequest::Receive => RequestView::Receive,
            AttachRequest::Feed(bytes) => RequestView::Feed(bytes@),
            AttachRequest::Measure => RequestView::Measure,
            AttachRequest::Render { viewport, size } => RequestView::Render {
                viewport: *viewport,
                size: *size,
            },
            AttachRequest::Finished(Ok(outcome)) => RequestView::Finished(Ok(outcome@)),
            AttachRequest::Finished(Err(failure)) => RequestView::Finished(Err(failure@)),
        }
    }
}

/// What came back from an [`AttachRequest`]. Host failures are handed in as
/// text.
#[derive(Debug, PartialEq, Eq)]
pub enum AttachReply {
    /// To [`AttachRequest::TerminalSize`].
    Size(core::result::Result<Size, String>),
    /// To [`AttachRequest::ReadInput`].
    Input(core::result::Result<Option<AttachInputChunk>, String>),
    /// To [`AttachRequest::WriteOutput`].
    Output(core::result::Result<(), String>),
    /// To [`AttachRequest::Suspend`].
    Suspended(core::result::Result<(), String>),
    /// To [`AttachRequest::Restore`].
    Restored(core::result::Result<(), String>),
    /// To [`AttachRequest::Clock`].
    Clock(Instant),
    /// To [`AttachRequest::Sleep`].
    Slept,
    /// To [`AttachRequest::Resize`].
    Resized(core::result::Result<(), AttachFailure>),
    /// To [`AttachRequest::SendInput`].
    Sent(core::result::Result<(), AttachFailure>),
    /// To [`AttachRequest::Receive`].
    Received(core::result::Result<Option<PtyFrame>, AttachFailure>),
    /// To [`AttachRequest::Feed`].
    Fed(core::result::Result<(), AttachFailure>),
    /// To [`AttachRequest::Measure`].
    Measured(ContentRows),
    /// To [`AttachRequest::Render`].
    Rendered(core::result::Result<Vec<u8>, AttachFailure>),
}

/// An [`AttachReply`] with its bytes and texts as sequences.
pub ghost enum ReplyView {
    Size(core::result::Result<Size, Seq<char>>),
    Input(core::result::Result<Option<(Instant, Seq<u8>)>, Seq<char>>),
    Output(core::result::Result<(), Seq<char>>),
    Suspended(core::result::Result<(), Seq<char>>),
    Restored(core::result::Result<(), Seq<char>>),
    Clock(Instant),
    Slept,
    Resized(core::result::Result<(), FailureView>),
    Sent(core::result::Result<(), FailureView>),
    Received(core::result::Result<Option<FrameView>, FailureView>),
    Fed(core::result::Result<(), FailureView>),
    Measured(ContentRows),
    Rendered(core::result::Result<Seq<u8>, FailureView>),
}

/// A host result with its error text as characters.
pub open spec fn host_result<T>(r: core::result::Result<T, String>) -> core::result::Result<
    T,
    Seq<char>,
> {
    match r {
        Ok(value) => Ok(value),
        Err(message) => Err(message@),
    }
}

/// A pane-side result with its failure as a view.
pub open spec fn pane_result(r: core::result::Result<(), AttachFailure>) -> core::result::Result<
    (),
    FailureView,
> {
    match r {
        Ok(_) => Ok(()),
        Err(failure) => Err(failure@),
    }
}

impl View for AttachReply {
    type V = ReplyView;

    open spec fn view(&self) -> ReplyView {
        match self {
            AttachReply::Size(r) => ReplyView::Size(host_result(*r)),
            AttachReply::Input(Ok(Some(chunk))) => ReplyView::Input(
                Ok(Some((chunk.at, chunk.bytes@))),
            ),
            AttachReply::Input(Ok(None)) => ReplyView::Input(Ok(None)),
            AttachReply::Input(Err(message)) => ReplyView::Input(Err(message@)),
            AttachReply::Output(r) => ReplyView::Output(host_result(*r)),
            AttachReply::Suspended(r) => ReplyView::Suspended(host_result(*r)),
            AttachReply::Restored(r) => ReplyView::Restored(host_result(*r)),
            AttachReply::Clock(now) => ReplyView::Clock(*now),
            AttachReply::Slept => ReplyView::Slept,
            AttachReply::Resized(r) => ReplyView::Resized(pane_result(*r)),
            AttachReply::Sent(r) => ReplyView::Sent(pane_result(*r)),
            AttachReply::Received(Ok(Some(frame))) => ReplyView::Received(Ok(Some(frame@))),
            AttachReply::Received(Ok(None)) => ReplyView::Received(Ok(None)),
            AttachReply::Received(Err(failure)) => ReplyView::Received(Err(failure@)),
            AttachReply::Fed(r) => ReplyView::Fed(pane_result(*r)),
            AttachReply::Measured(content) => ReplyView::Measured(*content),
            AttachReply::Rendered(Ok(bytes)) => ReplyView::Rendered(Ok(bytes@)),
            AttachReply::Rendered(Err(failure)) => ReplyView::Rendered(Err(failure@)),
        }
    }
}

/// Something the attach loop reports to whoever keeps its books.
#[derive(Debug, PartialEq, Eq)]
pub enum AttachNote {
    /// The attach started on a terminal of this size.
    Started {
        /// The real-terminal size.
        terminal_size: Size,
    },
    /// The child and its surface now have this size.
    Resized(Size),
    /// So many bytes were sent to the child.
    InputSent(usize),
    /// The child exited.
    ChildExited(Option<i32>),
    /// The child's PTY reported an error.
    ChildFault(String),
    /// Child output was lost.
    OutputLost {
        /// Frames dropped.
        dropped_frames: u64,
        /// Bytes dropped.
        dropped_bytes: u64,
    },
    /// A step failed.
    Failed(AttachFailure),
    /// The attach ended.
    Ended {
        /// Why.
        reason: DetachReason,
        /// How long it lasted.
        duration: Duration,
    },
}

/// An [`AttachNote`] with its texts as characters.
pub ghost enum NoteView {
    Started { terminal_size: Size },
    Resized(Size),
    InputSent(nat),
    ChildExited(Option<i32>),
    ChildFault(Seq<char>),
    OutputLost { dropped_frames: u64, dropped_bytes: u64 },
    Failed(FailureView),
    Ended { reason: DetachReason, nanos: int },
}

impl View for AttachNote {
    type V = NoteView;

    open spec fn view(&self) -> NoteView {
        match self {
            AttachNote::Started { terminal_size } => NoteView::Started {
                terminal_size: *terminal_size,
            },
            AttachNote::Resized(size) => NoteView::Resized(*size),
            AttachNote::InputSent(len) => NoteView::InputSent(*len as nat),
            AttachNote::ChildExited(code) => NoteView::ChildExited(*code),
            AttachNote::ChildFault(message) => NoteView::ChildFault(message@),
            AttachNote::OutputLost { dropped_frames, dropped_bytes } => NoteView::OutputLost {
                dropped_frames: *dropped_frames,
                dropped_bytes: *dropped_bytes,
            },
            AttachNote::Failed(failure) => NoteView::Failed(failure@),
            AttachNote::Ended { reason, duration } => NoteView::Ended {
                reason: *reason,
                nanos: duration.nanos as int,
            },
        }
    }
}

/// The notes as views.
pub open spec fn note_views(notes: Seq<AttachNote>) -> Seq<NoteView> {
    Seq::new(notes.len(), |i: int| notes[i]@)
}

/// The notes of one step and what the loop needs next.
#[derive(Debug, PartialEq, Eq)]
pub struct AttachStep {
    /// What to report, in order.
    pub notes: Vec<AttachNote>,
    /// What to do next.
    pub request: AttachRequest,
}

/// Where the loop goes on once the viewport is painted.
#[derive(Debug, Clone, Copy, PartialEq, Eq, Structural)]
pub enum AfterPaint {
    /// Starts the next round.
    Tick,
    /// Reads host input.
    Read,
    /// Takes child output.
    Drain,
}

/// What the attach loop waits for.
#[derive(Debug, Clone, Copy, PartialEq, Eq, Structural)]
pub enum AttachPhase {
    /// To be started.
    Idle,
    /// The terminal size before anything else.
    InitialSize,
    /// The suspension of the host terminal.
    Suspending,
    /// The start time.
    StartClock,
    /// The resize to the real terminal.
    FirstResize,
    /// The terminal size once attached.
    ConfirmSize,
    /// The bytes that the viewport shows.
    Rendering(AfterPaint),
    /// The write of those bytes.
    Painting(AfterPaint),
    /// The terminal size of this round.
    TickSize,
    /// The resize of this round.
    TickResize,
    /// Host input.
    Reading,
    /// The time, to expire a partial chord.
    InputClock,
    /// The content rows, to move the viewport.
    InputMeasure,
    /// The write of input to the child.
    Sending,
    /// The content rows before child output.
    OutputMeasure,
    /// A frame.
    Receiving,
    /// The write of child output.
    Writing,
    /// The feed of the surface.
    Feeding,
    /// The content rows after child output.
    OutputRemeasure,
    /// The end of an idle pause.
    Sleeping,
    /// The content rows at the start of a detach.
    DetachMeasure,
    /// The time at which draining starts.
    DrainStart,
    /// The time at which output was last seen.
    DrainActivity,
    /// The time, to end draining.
    DrainNow,
    /// The end of a pause while draining.
    DrainSleep,
    /// The feed of the output that was held back.
    Replaying,
    /// The resize to the embedded size.
    DetachResize,
    /// The restoration of the host terminal.
    Restoring,
    /// The end time.
    EndClock,
    /// The resize to the embedded size after a failure.
    AbortResize,
    /// The restoration of the host terminal after a failure.
    AbortRestore,
    /// The second attempt at that restoration.
    AbortRetry,
    /// The end time after a failure.
    AbortClock,
    /// Nothing.
    Done,
}

/// How the host terminal stands.
#[derive(Debug, Clone, Copy, PartialEq, Eq, Structural)]
pub enum HostTerminal {
    /// As the host left it.
    Untouched,
    /// Suspended, to be restored.
    Suspended,
    /// Restored.
    Restored,
    /// Suspended, and two attempts to restore it were refused.
    Abandoned,
}

/// The attach loop as plain values.
pub ghost struct LoopView {
    pub options: AttachOptions,
    pub managed: bool,
    pub embedded_size: Size,
    pub poll_interval: Duration,
    pub phase: AttachPhase,
    pub stage: AttachState,
    pub host: HostTerminal,
    pub matcher: MatcherView,
    pub viewport: TerminalViewport,
    pub terminal_size: Size,
    pub started_at: Instant,
    pub replay: Seq<u8>,
    pub exit_code: Option<i32>,
    pub reason: DetachReason,
    pub chord_seen: bool,
    pub remaining: Seq<u8>,
    pub restored_size: bool,
    pub pending: Seq<u8>,
    pub actions: Seq<AttachViewportAction>,
    pub viewport_changed: bool,
    pub progress: bool,
    pub forward: bool,
    pub before: TerminalViewportMetrics,
    pub frames_left: nat,
    pub saw_output: bool,
    pub child_exited: bool,
    pub detaching: bool,
    pub drain_started: Instant,
    pub last_activity: Instant,
    pub failure: Option<FailureView>,
}

/// A step of the attach loop: the state after it, its notes, and what is needed
/// next.
pub ghost struct LoopStep {
    pub state: LoopView,
    pub notes: Seq<NoteView>,
    pub request: RequestView,
}

/// Whether a loop of this kind can meet the failure: a pane can be refused only
/// where the loop is managed, and reading frames can fail only where it is not.
pub open spec fn failure_fits(failure: FailureView, managed: bool) -> bool {
    match failure {
        FailureView::Pane(_) => managed,
        FailureView::Step { kind, .. } => managed ==> kind != AttachStepKind::PtyRead,
    }
}

/// Whether a pane-side result can come back in a loop of this kind.
pub open spec fn result_fits<T>(r: core::result::Result<T, FailureView>, managed: bool) -> bool {
    r matches Err(failure) ==> failure_fits(failure, managed)
}

/// The failure of a host step.
pub open spec fn host_failure(kind: AttachStepKind, message: Seq<char>) -> FailureView {
    FailureView::Step { kind, message }
}

/// Whether a reply answers a request, in a loop that is managed or not.
pub open spec fn answers(reply: ReplyView, request: RequestView, managed: bool) -> bool {
    match request {
        RequestView::TerminalSize => reply is Size,
        RequestView::ReadInput => reply is Input,
        RequestView::WriteOutput(_) => reply is Output,
        RequestView::Suspend(_) => reply is Suspended,
        RequestView::Restore => reply is Restored,
        RequestView::Clock => reply is Clock,
        RequestView::Sleep(_) => reply is Slept,
        RequestView::Resize(_) => reply matches ReplyView::Resized(r) && result_fits(r, managed),
        RequestView::SendInput(_) => reply matches ReplyView::Sent(r) && result_fits(r, managed),
        RequestView::Receive => reply matches ReplyView::Received(r) && result_fits(r, managed),
        RequestView::Feed(_) => reply matches ReplyView::Fed(r) && result_fits(r, managed),
        RequestView::Measure => reply is Measured,
        RequestView::Render { .. } => reply matches ReplyView::Rendered(r) && result_fits(
            r,
            managed,
        ),
        RequestView::Finished(_) => false,
    }
}

impl LoopView {
    /// Whether `reply` answers what the loop waits for.
    pub open spec fn awaits(self, reply: ReplyView) -> bool {
        match self.phase {
            AttachPhase::InitialSize | AttachPhase::ConfirmSize | AttachPhase::TickSize => {
                reply is Size
            },
            AttachPhase::Suspending => reply is Suspended,
            AttachPhase::StartClock | AttachPhase::InputClock | AttachPhase::DrainStart
            | AttachPhase::DrainActivity | AttachPhase::DrainNow | AttachPhase::EndClock
            | AttachPhase::AbortClock => reply is Clock,
            AttachPhase::FirstResize | AttachPhase::TickResize | AttachPhase::DetachResize
            | AttachPhase::AbortResize => reply matches ReplyView::Resized(r) && result_fits(
                r,
                self.managed,
            ),
            AttachPhase::Rendering(_) => reply matches ReplyView::Rendered(r) && result_fits(
                r,
                self.managed,
            ),
            AttachPhase::Painting(_) | AttachPhase::Writing => reply is Output,
            AttachPhase::Reading => reply is Input,
            AttachPhase::InputMeasure | AttachPhase::OutputMeasure | AttachPhase::OutputRemeasure
            | AttachPhase::DetachMeasure => reply is Measured,
            AttachPhase::Sending => reply matches ReplyView::Sent(r) && result_fits(
                r,
                self.managed,
            ),
            AttachPhase::Receiving => reply matches ReplyView::Received(r) && result_fits(
                r,
                self.managed,
            ),
            AttachPhase::Feeding | AttachPhase::Replaying => reply matches ReplyView::Fed(r)
                && result_fits(r, self.managed),
            AttachPhase::Sleeping | AttachPhase::DrainSleep => reply is Slept,
            AttachPhase::Restoring | AttachPhase::AbortRestore | AttachPhase::AbortRetry => {
                reply is Restored
            },
            AttachPhase::Idle | AttachPhase::Done => false,
        }
    }

    /// The loop in another phase, with what it needs there.
    pub open spec fn ask(
        self,
        phase: AttachPhase,
        notes: Seq<NoteView>,
        request: RequestView,
    ) -> LoopStep {
        LoopStep { state: LoopView { phase, ..self }, notes, request }
    }

    /// Whether the child follows the size of the real terminal.
    pub open spec fn follows_terminal(self) -> bool {
        self.options.resize == AttachResizePolicy::UseRealTerminalSize
    }

    /// A loop that has not started.
    pub open spec fn fresh(
        options: AttachOptions,
        managed: bool,
        embedded_size: Size,
        poll_interval: Duration,
    ) -> LoopView {
        LoopView {
            options,
            managed,
            embedded_size,
            poll_interval,
            phase: AttachPhase::Idle,
            stage: AttachState::Embedded,
            host: HostTerminal::Untouched,
            matcher: MatcherView::fresh(options.detach),
            viewport: tail_viewport(),
            terminal_size: embedded_size,
            started_at: Instant { nanos: 0 },
            replay: seq![],
            exit_code: None,
            reason: DetachReason::Error,
            chord_seen: false,
            remaining: seq![],
            restored_size: false,
            pending: seq![],
            actions: seq![],
            viewport_changed: false,
            progress: false,
            forward: false,
            before: TerminalViewportMetrics {
                total_rows: 0,
                visible_rows: 0,
                max_scroll_offset: 0,
                effective_scroll_offset: 0,
                start_row: 0,
                end_row: 0,
            },
            frames_left: 0,
            saw_output: false,
            child_exited: false,
            detaching: false,
            drain_started: Instant { nanos: 0 },
            last_activity: Instant { nanos: 0 },
            failure: None,
        }
    }

    /// Asks for the terminal size before anything else.
    pub open spec fn begun(self) -> LoopStep {
        self.ask(AttachPhase::InitialSize, seq![], RequestView::TerminalSize)
    }

    /// Ends an attach that never took the terminal.
    #[verifier::opaque]
    pub open spec fn refused(self, failure: FailureView) -> LoopStep {
        LoopView {
            failure: Some(failure),
            stage: AttachState::Embedded,
            ..self
        }.ask(
            AttachPhase::Done,
            seq![NoteView::Failed(failure)],
            RequestView::Finished(Err(failure)),
        )
    }

    /// The attach is on: a managed loop paints its viewport, another one reads
    /// the size once more.
    #[verifier::opaque]
    pub open spec fn attached(self, notes: Seq<NoteView>) -> LoopStep {
        let on = LoopView { stage: AttachState::Attached, ..self };
        if self.managed {
            on.paint(AfterPaint::Tick, notes)
        } else {
            on.ask(AttachPhase::ConfirmSize, notes, RequestView::TerminalSize)
        }
    }

    /// Shows the viewport, then goes on.
    #[verifier::opaque]
    pub open spec fn paint(self, then: AfterPaint, notes: Seq<NoteView>) -> LoopStep {
        self.ask(
            AttachPhase::Rendering(then),
            notes,
            RequestView::Render { viewport: self.viewport, size: self.terminal_size },
        )
    }

    /// Starts a round.
    #[verifier::opaque]
    pub open spec fn tick(self, notes: Seq<NoteView>) -> LoopStep {
        LoopView { progress: false, ..self }.ask(
            AttachPhase::TickSize,
            notes,
            RequestView::TerminalSize,
        )
    }

    /// Goes on once the size of this round has been dealt with.
    #[verifier::opaque]
    pub open spec fn sized(self, notes: Seq<NoteView>) -> LoopStep {
        if self.managed {
            self.paint(AfterPaint::Read, notes)
        } else {
            self.read(notes)
        }
    }

    /// Asks for host input.
    #[verifier::opaque]
    pub open spec fn read(self, notes: Seq<NoteView>) -> LoopStep {
        self.ask(AttachPhase::Reading, notes, RequestView::ReadInput)
    }

    /// Takes viewport controls out of the input of a managed loop.
    #[verifier::opaque]
    pub open spec fn sift(self, input: Seq<u8>) -> LoopStep {
        if self.managed {
            let parts = split_controls(input);
            let held = LoopView { pending: parts.0, actions: parts.1, ..self };
            if parts.1.len() > 0 {
                held.ask(AttachPhase::InputMeasure, seq![], RequestView::Measure)
            } else {
                LoopView { viewport_changed: false, ..held }.send()
            }
        } else {
            LoopView { pending: input, viewport_changed: false, ..self }.send()
        }
    }

    /// Sends what is pending to the child, if anything is.
    #[verifier::opaque]
    pub open spec fn send(self) -> LoopStep {
        if self.pending.len() > 0 {
            self.ask(AttachPhase::Sending, seq![], RequestView::SendInput(self.pending))
        } else {
            self.input_done(seq![])
        }
    }

    /// Goes on once host input has been dealt with.
    #[verifier::opaque]
    pub open spec fn input_done(self, notes: Seq<NoteView>) -> LoopStep {
        if self.chord_seen {
            self.detach(DetachReason::UserChord, notes)
        } else {
            let on = LoopView { progress: true, ..self };
            if self.viewport_changed {
                on.paint(AfterPaint::Drain, notes)
            } else {
                on.drain(notes)
            }
        }
    }

    /// Takes child output.
    #[verifier::opaque]
    pub open spec fn drain(self, notes: Seq<NoteView>) -> LoopStep {
        if self.managed {
            self.ask(AttachPhase::OutputMeasure, notes, RequestView::Measure)
        } else {
            LoopView { forward: true, ..self }.receive_first(notes)
        }
    }

    /// Asks for the first frame of a round.
    #[verifier::opaque]
    pub open spec fn receive_first(self, notes: Seq<NoteView>) -> LoopStep {
        LoopView {
            frames_left: MAX_PTY_FRAMES_PER_TICK as nat,
            saw_output: false,
            child_exited: false,
            ..self
        }.ask(AttachPhase::Receiving, notes, RequestView::Receive)
    }

    /// Asks for another frame, if the round still has room.
    #[verifier::opaque]
    pub open spec fn receive_more(self, notes: Seq<NoteView>) -> LoopStep {
        if self.frames_left == 0 {
            self.drained(notes)
        } else {
            self.ask(AttachPhase::Receiving, notes, RequestView::Receive)
        }
    }

    /// The loop once a frame has been taken.
    pub open spec fn took_frame(self) -> LoopView {
        LoopView { saw_output: true, frames_left: (self.frames_left - 1) as nat, ..self }
    }

    /// Deals with child output.
    #[verifier::opaque]
    pub open spec fn output(self, bytes: Seq<u8>) -> LoopStep {
        let held = LoopView { pending: bytes, ..self };
        if self.forward {
            held.ask(AttachPhase::Writing, seq![], RequestView::WriteOutput(bytes))
        } else {
            held.absorb()
        }
    }

    /// Deals with the exit of the child.
    #[verifier::opaque]
    pub open spec fn exited(self, code: Option<i32>) -> LoopStep {
        LoopView {
            exit_code: if self.exit_code is None {
                code
            } else {
                self.exit_code
            },
            child_exited: true,
            ..self
        }.receive_more(seq![NoteView::ChildExited(code)])
    }

    /// Deals with a frame.
    #[verifier::opaque]
    pub open spec fn frame(self, frame: FrameView) -> LoopStep {
        let on = self.took_frame();
        match frame {
            FrameView::Output(bytes) => on.output(bytes),
            FrameView::Exited(code) => on.exited(code),
            FrameView::Error(message) => on.fail(
                host_failure(AttachStepKind::PtyRuntime, message),
                seq![NoteView::ChildFault(message)],
            ),
            FrameView::Overflow { dropped_frames, dropped_bytes } => on.receive_more(
                seq![NoteView::OutputLost { dropped_frames, dropped_bytes }],
            ),
            FrameView::CursorPositionRequest => on.receive_more(seq![]),
        }
    }

    /// Feeds the pending output to the surface, or holds it back for later.
    #[verifier::opaque]
    pub open spec fn absorb(self) -> LoopStep {
        if self.options.output == AttachOutputPolicy::FanoutToSurfaceAndStdout {
            self.ask(AttachPhase::Feeding, seq![], RequestView::Feed(self.pending))
        } else {
            LoopView { replay: self.replay + self.pending, ..self }.receive_more(seq![])
        }
    }

    /// Goes on once the frames of a round are taken.
    #[verifier::opaque]
    pub open spec fn drained(self, notes: Seq<NoteView>) -> LoopStep {
        if self.detaching {
            self.ask(
                if self.saw_output {
                    AttachPhase::DrainActivity
                } else {
                    AttachPhase::DrainNow
                },
                notes,
                RequestView::Clock,
            )
        } else {
            let on = LoopView { progress: self.progress || self.saw_output, ..self };
            if self.managed && !self.forward && self.saw_output {
                on.ask(AttachPhase::OutputRemeasure, notes, RequestView::Measure)
            } else {
                on.round_done(notes)
            }
        }
    }

    /// Ends a round: a managed loop stops with its child, an idle one pauses.
    #[verifier::opaque]
    pub open spec fn round_done(self, notes: Seq<NoteView>) -> LoopStep {
        if self.managed && self.child_exited {
            LoopView { remaining: seq![], ..self }.detach(DetachReason::ChildExited, notes)
        } else if !self.progress {
            self.ask(AttachPhase::Sleeping, notes, RequestView::Sleep(self.poll_interval))
        } else {
            self.tick(notes)
        }
    }

    /// Starts to detach.
    #[verifier::opaque]
    pub open spec fn detach(self, reason: DetachReason, notes: Seq<NoteView>) -> LoopStep {
        let off = LoopView { stage: AttachState::Detaching, detaching: true, reason, ..self };
        if self.managed {
            off.ask(AttachPhase::DetachMeasure, notes, RequestView::Measure)
        } else {
            LoopView { forward: true, ..off }.ask(
                AttachPhase::DrainStart,
                notes,
                RequestView::Clock,
            )
        }
    }

    /// Whether a detach has waited long enough for the child to fall silent.
    pub open spec fn drain_over(self, now: Instant) -> bool {
        ||| elapsed_nanos(self.last_activity, now) >= DETACH_DRAIN_QUIET_NANOS
        ||| elapsed_nanos(self.drain_started, now) >= DETACH_DRAIN_MAX_WAIT_NANOS
    }

    /// Feeds what was held back, if anything was.
    #[verifier::opaque]
    pub open spec fn replay_held(self) -> LoopStep {
        if self.options.output == AttachOutputPolicy::StdoutOnlyThenReplay && self.replay.len()
            > 0 {
            self.ask(AttachPhase::Replaying, seq![], RequestView::Feed(self.replay))
        } else {
            self.resize_back()
        }
    }

    /// Gives the child its embedded size back.
    #[verifier::opaque]
    pub open spec fn resize_back(self) -> LoopStep {
        if self.follows_terminal() {
            self.ask(AttachPhase::DetachResize, seq![], RequestView::Resize(self.embedded_size))
        } else {
            self.restore(seq![])
        }
    }

    /// Gives the terminal back.
    #[verifier::opaque]
    pub open spec fn restore(self, notes: Seq<NoteView>) -> LoopStep {
        self.ask(AttachPhase::Restoring, notes, RequestView::Restore)
    }

    /// Gives up: reports the failure and starts to undo what was done.
    #[verifier::opaque]
    pub open spec fn fail(self, failure: FailureView, notes: Seq<NoteView>) -> LoopStep {
        let off = LoopView {
            failure: Some(failure),
            stage: if self.stage == AttachState::Attached {
                AttachState::Detaching
            } else {
                self.stage
            },
            ..self
        };
        let more = notes.push(NoteView::Failed(failure));
        if self.follows_terminal() && !self.restored_size {
            off.ask(AttachPhase::AbortResize, more, RequestView::Resize(self.embedded_size))
        } else {
            off.ask(AttachPhase::AbortRestore, more, RequestView::Restore)
        }
    }

    /// Why an attach that failed is said to have ended.
    pub open spec fn abort_reason(self) -> DetachReason {
        if !self.managed && self.detaching {
            DetachReason::UserChord
        } else {
            DetachReason::Error
        }
    }

    /// The result of a completed attach.
    pub open spec fn outcome(self) -> OutcomeView {
        OutcomeView {
            reason: self.reason,
            child_exit_code: self.exit_code,
            terminal_size: self.terminal_size,
            restored_size: self.embedded_size,
            remaining_input: self.remaining,
        }
    }

    /// Goes on once the viewport is painted.
    #[verifier::opaque]
    pub open spec fn painted(self, then: AfterPaint) -> LoopStep {
        match then {
            AfterPaint::Tick => self.tick(seq![]),
            AfterPaint::Read => self.read(seq![]),
            AfterPaint::Drain => self.drain(seq![]),
        }
    }

    /// The step that a terminal size leads to.
    #[verifier::opaque]
    pub open spec fn after_size(self, r: core::result::Result<Size, Seq<char>>) -> LoopStep {
        match r {
            Err(message) => {
                let failure = host_failure(AttachStepKind::TerminalSize, message);
                if self.phase == AttachPhase::InitialSize {
                    self.refused(failure)
                } else {
                    self.fail(failure, seq![])
                }
            },
            Ok(size) => {
                if self.phase == AttachPhase::InitialSize {
                    LoopView {
                        terminal_size: size,
                        stage: AttachState::Attaching,
                        ..self
                    }.ask(
                        AttachPhase::Suspending,
                        seq![],
                        RequestView::Suspend(self.options.screen),
                    )
                } else if self.phase == AttachPhase::ConfirmSize {
                    self.tick(seq![])
                } else if size == self.terminal_size {
                    self.read(seq![])
                } else {
                    let on = LoopView { terminal_size: size, progress: true, ..self };
                    if self.follows_terminal() {
                        on.ask(AttachPhase::TickResize, seq![], RequestView::Resize(size))
                    } else {
                        on.sized(seq![])
                    }
                }
            },
        }
    }

    /// The attach starts at `now`.
    #[verifier::opaque]
    pub open spec fn started(self, now: Instant) -> LoopStep {
        let on = LoopView { started_at: now, ..self };
        let notes = seq![NoteView::Started { terminal_size: self.terminal_size }];
        if self.follows_terminal() {
            on.ask(AttachPhase::FirstResize, notes, RequestView::Resize(self.terminal_size))
        } else {
            on.attached(notes)
        }
    }

    /// There was no input: a partial chord that is too old goes to the child.
    #[verifier::opaque]
    pub open spec fn no_input(self, now: Instant) -> LoopStep {
        if self.matcher.expired(now) {
            LoopView { matcher: self.matcher.settled(now), ..self }.sift(self.matcher.held)
        } else {
            self.drain(seq![])
        }
    }

    /// Starts draining at `now`.
    #[verifier::opaque]
    pub open spec fn drain_from(self, now: Instant) -> LoopStep {
        LoopView { drain_started: now, last_activity: now, ..self }.receive_first(seq![])
    }

    /// Output was seen at `now`.
    #[verifier::opaque]
    pub open spec fn drain_active(self, now: Instant) -> LoopStep {
        LoopView { last_activity: now, ..self }.ask(
            AttachPhase::DrainNow,
            seq![],
            RequestView::Clock,
        )
    }

    /// Ends draining, or pauses.
    #[verifier::opaque]
    pub open spec fn drain_at(self, now: Instant) -> LoopStep {
        if self.drain_over(now) {
            self.replay_held()
        } else {
            self.ask(AttachPhase::DrainSleep, seq![], RequestView::Sleep(self.poll_interval))
        }
    }

    /// The attach ends well at `now`.
    #[verifier::opaque]
    pub open spec fn ended(self, now: Instant) -> LoopStep {
        self.ask(
            AttachPhase::Done,
            seq![
                NoteView::Ended {
                    reason: self.reason,
                    nanos: elapsed_nanos(self.started_at, now),
                },
            ],
            RequestView::Finished(Ok(self.outcome())),
        )
    }

    /// What the attach failed of.
    pub open spec fn cause(self) -> FailureView {
        match self.failure {
            Some(failure) => failure,
            None => host_failure(AttachStepKind::Restore, seq![]),
        }
    }

    /// The attach ends with a failure at `now`.
    #[verifier::opaque]
    pub open spec fn aborted(self, now: Instant) -> LoopStep {
        LoopView { stage: AttachState::Embedded, ..self }.ask(
            AttachPhase::Done,
            seq![
                NoteView::Ended {
                    reason: self.abort_reason(),
                    nanos: elapsed_nanos(self.started_at, now),
                },
            ],
            RequestView::Finished(Err(self.cause())),
        )
    }

    /// The step that a reading of the clock leads to.
    #[verifier::opaque]
    pub open spec fn after_clock(self, now: Instant) -> LoopStep {
        match self.phase {
            AttachPhase::StartClock => self.started(now),
            AttachPhase::InputClock => self.no_input(now),
            AttachPhase::DrainStart => self.drain_from(now),
            AttachPhase::DrainActivity => self.drain_active(now),
            AttachPhase::DrainNow => self.drain_at(now),
            AttachPhase::EndClock => self.ended(now),
            _ => self.aborted(now),
        }
    }

    /// The step that a resize leads to.
    #[verifier::opaque]
    pub open spec fn after_resize(self, r: core::result::Result<(), FailureView>) -> LoopStep {
        match r {
            Err(failure) => {
                if self.phase == AttachPhase::AbortResize {
                    self.ask(
                        AttachPhase::AbortRestore,
                        seq![NoteView::Failed(failure)],
                        RequestView::Restore,
                    )
                } else {
                    self.fail(failure, seq![])
                }
            },
            Ok(_) => match self.phase {
                AttachPhase::FirstResize => self.attached(
                    seq![NoteView::Resized(self.terminal_size)],
                ),
                AttachPhase::TickResize => self.sized(seq![NoteView::Resized(self.terminal_size)]),
                AttachPhase::DetachResize => LoopView { restored_size: true, ..self }.restore(
                    seq![NoteView::Resized(self.embedded_size)],
                ),
                _ => self.ask(
                    AttachPhase::AbortRestore,
                    seq![NoteView::Resized(self.embedded_size)],
                    RequestView::Restore,
                ),
            },
        }
    }

    /// The step that an attempt to restore the terminal leads to.
    #[verifier::opaque]
    pub open spec fn after_restore(self, r: core::result::Result<(), Seq<char>>) -> LoopStep {
        match r {
            Ok(_) => {
                let back = LoopView { host: HostTerminal::Restored, ..self };
                if self.phase == AttachPhase::Restoring {
                    LoopView { stage: AttachState::Embedded, ..back }.ask(
                        AttachPhase::EndClock,
                        seq![],
                        RequestView::Clock,
                    )
                } else {
                    back.ask(AttachPhase::AbortClock, seq![], RequestView::Clock)
                }
            },
            Err(message) => {
                let failure = host_failure(AttachStepKind::Restore, message);
                match self.phase {
                    AttachPhase::Restoring => self.fail(failure, seq![]),
                    AttachPhase::AbortRestore => self.ask(
                        AttachPhase::AbortRetry,
                        seq![NoteView::Failed(failure)],
                        RequestView::Restore,
                    ),
                    _ => LoopView { host: HostTerminal::Abandoned, ..self }.ask(
                        AttachPhase::AbortClock,
                        seq![NoteView::Failed(failure)],
                        RequestView::Clock,
                    ),
                }
            },
        }
    }

    /// The metrics of the viewport over the measured content.
    pub open spec fn over(self, content: ContentRows) -> TerminalViewportMetrics {
        content.under(self.viewport, self.terminal_size.rows as usize)
    }

    /// Moves the viewport, then sends what is pending.
    #[verifier::opaque]
    pub open spec fn scrolled(self, content: ContentRows) -> LoopStep {
        let next = moved_by(
            self.viewport,
            self.actions,
            content,
            self.terminal_size.rows as usize,
        );
        LoopView { viewport: next, viewport_changed: next != self.viewport, ..self }.send()
    }

    /// Child output reaches the terminal only while the viewport is at the tail.
    #[verifier::opaque]
    pub open spec fn measured(self, content: ContentRows) -> LoopStep {
        LoopView {
            before: self.over(content),
            forward: self.over(content).effective_scroll_offset == 0,
            ..self
        }.receive_first(seq![])
    }

    /// The step that a measurement of the content leads to.
    #[verifier::opaque]
    pub open spec fn after_measure(self, content: ContentRows) -> LoopStep {
        match self.phase {
            AttachPhase::InputMeasure => self.scrolled(content),
            AttachPhase::OutputMeasure => self.measured(content),
            AttachPhase::OutputRemeasure => LoopView {
                viewport: self.viewport.clamped(self.over(content)),
                ..self
            }.round_done(seq![]),
            _ => LoopView {
                forward: self.over(content).effective_scroll_offset == 0,
                ..self
            }.ask(AttachPhase::DrainStart, seq![], RequestView::Clock),
        }
    }

    /// The step that host input leads to.
    #[verifier::opaque]
    pub open spec fn after_input(
        self,
        r: core::result::Result<Option<(Instant, Seq<u8>)>, Seq<char>>,
    ) -> LoopStep {
        match r {
            Err(message) => self.fail(
                host_failure(AttachStepKind::TerminalInput, message),
                seq![],
            ),
            Ok(None) => self.ask(AttachPhase::InputClock, seq![], RequestView::Clock),
            Ok(Some((at, bytes))) => {
                let run = self.matcher.run(bytes, at);
                LoopView {
                    matcher: MatcherView { held: run.held, times: run.times, ..self.matcher },
                    chord_seen: run.detached,
                    remaining: run.remaining,
                    ..self
                }.sift(self.matcher.flushed(at) + run.forward)
            },
        }
    }

    /// The step that a write to the terminal leads to.
    #[verifier::opaque]
    pub open spec fn after_output(self, r: core::result::Result<(), Seq<char>>) -> LoopStep {
        match r {
            Err(message) => self.fail(
                host_failure(AttachStepKind::TerminalOutput, message),
                seq![],
            ),
            Ok(_) => match self.phase {
                AttachPhase::Painting(then) => self.painted(then),
                _ => self.absorb(),
            },
        }
    }

    /// The step that suspending the terminal leads to.
    #[verifier::opaque]
    pub open spec fn after_suspend(self, r: core::result::Result<(), Seq<char>>) -> LoopStep {
        match r {
            Err(message) => self.refused(host_failure(AttachStepKind::Suspend, message)),
            Ok(_) => LoopView { host: HostTerminal::Suspended, ..self }.ask(
                AttachPhase::StartClock,
                seq![],
                RequestView::Clock,
            ),
        }
    }

    /// The step that a frame, or the lack of one, leads to.
    #[verifier::opaque]
    pub open spec fn after_receive(
        self,
        r: core::result::Result<Option<FrameView>, FailureView>,
    ) -> LoopStep {
        match r {
            Err(failure) => self.fail(failure, seq![]),
            Ok(None) => self.drained(seq![]),
            Ok(Some(frame)) => self.frame(frame),
        }
    }

    /// The step that a feed of the surface leads to.
    #[verifier::opaque]
    pub open spec fn after_feed(self, r: core::result::Result<(), FailureView>) -> LoopStep {
        match r {
            Err(failure) => self.fail(failure, seq![]),
            Ok(_) => match self.phase {
                AttachPhase::Feeding => self.receive_more(seq![]),
                _ => LoopView { replay: seq![], ..self }.resize_back(),
            },
        }
    }

    /// The step that rendered bytes lead to.
    #[verifier::opaque]
    pub open spec fn after_render(
        self,
        r: core::result::Result<Seq<u8>, FailureView>,
    ) -> LoopStep {
        match r {
            Err(failure) => self.fail(failure, seq![]),
            Ok(bytes) => self.ask(
                match self.phase {
                    AttachPhase::Rendering(then) => AttachPhase::Painting(then),
                    phase => phase,
                },
                seq![],
                RequestView::WriteOutput(bytes),
            ),
        }
    }

    /// The step that a write to the child leads to.
    #[verifier::opaque]
    pub open spec fn after_send(self, r: core::result::Result<(), FailureView>) -> LoopStep {
        match r {
            Err(failure) => self.fail(failure, seq![]),
            Ok(_) => self.input_done(seq![NoteView::InputSent(self.pending.len())]),
        }
    }

    /// The step that the end of a pause leads to.
    #[verifier::opaque]
    pub open spec fn after_sleep(self) -> LoopStep {
        match self.phase {
            AttachPhase::Sleeping => self.tick(seq![]),
            _ => self.receive_first(seq![]),
        }
    }

    /// The step that a reply leads to.
    pub open spec fn after(self, reply: ReplyView) -> LoopStep {
        match reply {
            ReplyView::Size(r) => self.after_size(r),
            ReplyView::Input(r) => self.after_input(r),
            ReplyView::Output(r) => self.after_output(r),
            ReplyView::Suspended(r) => self.after_suspend(r),
            ReplyView::Restored(r) => self.after_restore(r),
            ReplyView::Clock(now) => self.after_clock(now),
            ReplyView::Slept => self.after_sleep(),
            ReplyView::Resized(r) => self.after_resize(r),
            ReplyView::Sent(r) => self.after_send(r),
            ReplyView::Received(r) => self.after_receive(r),
            ReplyView::Fed(r) => self.after_feed(r),
            ReplyView::Measured(content) => self.after_measure(content),
            ReplyView::Rendered(r) => self.after_render(r),
        }
    }

    /// How stage and host terminal stand in each phase.
    pub open spec fn settled(self) -> bool {
        match self.phase {
            AttachPhase::Idle | AttachPhase::InitialSize => !self.detaching && self.stage
                == AttachState::Embedded && self.host == HostTerminal::Untouched,
            AttachPhase::Suspending => !self.detaching && self.stage == AttachState::Attaching
                && self.host == HostTerminal::Untouched,
            AttachPhase::StartClock | AttachPhase::FirstResize => !self.detaching && self.stage
                == AttachState::Attaching && self.host == HostTerminal::Suspended,
            AttachPhase::Receiving | AttachPhase::Writing | AttachPhase::Feeding => self.host
                == HostTerminal::Suspended && self.stage == (if self.detaching {
                AttachState::Detaching
            } else {
                AttachState::Attached
            }) && (self.phase == AttachPhase::Receiving ==> self.frames_left > 0),
            AttachPhase::DetachMeasure | AttachPhase::DrainStart | AttachPhase::DrainActivity
            | AttachPhase::DrainNow | AttachPhase::DrainSleep | AttachPhase::Replaying
            | AttachPhase::DetachResize | AttachPhase::Restoring => self.detaching && self.stage
                == AttachState::Detaching && self.host == HostTerminal::Suspended,
            AttachPhase::EndClock => self.stage == AttachState::Embedded && self.host
                == HostTerminal::Restored,
            AttachPhase::AbortResize | AttachPhase::AbortRestore | AttachPhase::AbortRetry => {
                (self.stage == AttachState::Attaching || self.stage == AttachState::Detaching)
                    && self.host == HostTerminal::Suspended && self.failure is Some
            },
            AttachPhase::AbortClock => (self.stage == AttachState::Attaching || self.stage
                == AttachState::Detaching) && (self.host == HostTerminal::Restored || self.host
                == HostTerminal::Abandoned) && self.failure is Some,
            AttachPhase::Done => self.stage == AttachState::Embedded && self.host
                != HostTerminal::Suspended && (self.failure is None ==> self.host
                == HostTerminal::Restored),
            _ => !self.detaching && self.stage == AttachState::Attached && self.host
                == HostTerminal::Suspended && (self.phase == AttachPhase::InputMeasure
                ==> self.managed),
        }
    }

    /// Whether the loop is in order.
    pub open spec fn valid(self) -> bool {
        self.sound() && self.settled()
    }
}

impl LoopView {
    /// What holds of the loop in every phase.
    pub open spec fn sound(self) -> bool {
        &&& self.matcher.valid()
        &&& self.frames_left <= MAX_PTY_FRAMES_PER_TICK
        &&& self.failure matches Some(failure) ==> failure_fits(failure, self.managed)
        &&& self.viewport_changed ==> self.managed
    }

    /// Whether the pane is attached.
    pub open spec fn on(self) -> bool {
        &&& self.sound()
        &&& !self.detaching
        &&& self.stage == AttachState::Attached
        &&& self.host == HostTerminal::Suspended
    }

    /// Whether the pane is being detached.
    pub open spec fn off(self) -> bool {
        &&& self.sound()
        &&& self.detaching
        &&& self.stage == AttachState::Detaching
        &&& self.host == HostTerminal::Suspended
    }
}

/// Whether a lifecycle may go from one state to another in a step: it may stay,
/// go to the next state, or fall back to the embedded state.
pub open spec fn stage_moves(from: AttachState, to: AttachState) -> bool {
    to == from || to == from.successor() || to == AttachState::Embedded
}

/// Whether a loop in this phase waits for the host terminal to be suspended or
/// restored.
pub open spec fn handles_host(phase: AttachPhase) -> bool {
    match phase {
        AttachPhase::Suspending | AttachPhase::Restoring | AttachPhase::AbortRestore
        | AttachPhase::AbortRetry => true,
        _ => false,
    }
}

/// Whether a step keeps the loop in order, with at most one note after the
/// first `n`.
pub open spec fn orderly(step: LoopStep, from: LoopView, n: nat) -> bool {
    &&& step.state.valid()
    &&& step.state.managed == from.managed
    &&& step.state.options == from.options
    &&& step.state.embedded_size == from.embedded_size
    &&& !(step.state.phase is Idle)
    &&& step.notes.len() <= n + 1
    &&& stage_moves(from.stage, step.state.stage)
    &&& step.state.host == from.host || handles_host(from.phase)
    &&& step.request is Finished <==> step.state.phase is Done
    &&& forall|reply: ReplyView| #[trigger]
        answers(reply, step.request, from.managed) ==> step.state.awaits(reply)
    &&& !from.managed ==> !(step.request is Measure) && !(step.request is Render)
    &&& step.request matches RequestView::Finished(Ok(_)) ==> step.state.host
        == HostTerminal::Restored
    &&& step.request matches RequestView::Finished(Err(failure)) ==> failure_fits(
        failure,
        from.managed,
    )
}

/// Whether a step goes on without a start or an end, after these notes and at
/// most a failure.
pub open spec fn quiet(step: LoopStep, from: LoopView, notes: Seq<NoteView>) -> bool {
    &&& orderly(step, from, notes.len())
    &&& !(step.request is Finished)
    &&& step.notes == notes || (step.notes.len() == notes.len() + 1 && step.notes.drop_last()
        == notes && step.notes.last() is Failed)
}

/// Whether a step ends an attach that had taken the terminal.
pub open spec fn gives_back(step: LoopStep) -> bool {
    step.request is Finished && step.state.host != HostTerminal::Untouched
}

/// Whether the start and the end of an attach are told of when they come, each
/// in a note of its own, and at no other time.
pub open spec fn bookended(step: LoopStep, from: LoopView) -> bool {
    &&& from.phase == AttachPhase::StartClock ==> step.notes == seq![
        NoteView::Started { terminal_size: from.terminal_size },
    ]
    &&& gives_back(step) ==> step.notes.len() == 1 && step.notes[0] is Ended
    &&& forall|i: int|
        0 <= i < step.notes.len() ==> {
            &&& #[trigger] step.notes[i] is Started ==> from.phase == AttachPhase::StartClock
            &&& step.notes[i] is Ended ==> gives_back(step)
        }
}

/// Whether a step keeps the loop in order, with two notes at most, and tells of
/// the start and the end of the attach.
pub open spec fn told(step: LoopStep, from: LoopView) -> bool {
    orderly(step, from, 1) && bookended(step, from)
}

proof fn lemma_told(step: LoopStep, from: LoopView, notes: Seq<NoteView>)
    requires
        quiet(step, from, notes),
        from.phase != AttachPhase::StartClock,
        notes.len() <= 1,
        notes.len() == 1 ==> !(notes[0] is Started) && !(notes[0] is Ended),
    ensures
        told(step, from),
{
    assert forall|i: int| 0 <= i < step.notes.len() implies !(#[trigger] step.notes[i] is Started)
        && !(step.notes[i] is Ended) by {
        if i < notes.len() {
            if step.notes != notes {
                assert(step.notes.drop_last()[i] == step.notes[i]);
            }
        } else {
            assert(step.notes[i] == step.notes.last());
        }
    }
}

proof fn lemma_fail(state: LoopView, failure: FailureView, notes: Seq<NoteView>)
    requires
        state.sound(),
        failure_fits(failure, state.managed),
        state.host == HostTerminal::Suspended,
        state.stage != AttachState::Embedded,
    ensures
        quiet(state.fail(failure, notes), state, notes),
{
    reveal(LoopView::fail);
    assert(notes.push(NoteView::Failed(failure)).drop_last() =~= notes);
}

proof fn lemma_round_starts(state: LoopView, notes: Seq<NoteView>)
    requires
        state.on(),
    ensures
        quiet(state.tick(notes), state, notes),
        quiet(state.read(notes), state, notes),
        state.managed ==> quiet(state.paint(AfterPaint::Tick, notes), state, notes),
        state.managed ==> quiet(state.paint(AfterPaint::Read, notes), state, notes),
        state.managed ==> quiet(state.paint(AfterPaint::Drain, notes), state, notes),
        quiet(state.sized(notes), state, notes),
{
    reveal(LoopView::tick);
    reveal(LoopView::read);
    reveal(LoopView::paint);
    reveal(LoopView::sized);
}

proof fn lemma_detach(state: LoopView, reason: DetachReason, notes: Seq<NoteView>)
    requires
        state.on(),
    ensures
        quiet(state.detach(reason, notes), state, notes),
{
    reveal(LoopView::detach);
}

proof fn lemma_round_done(state: LoopView, notes: Seq<NoteView>)
    requires
        state.on(),
    ensures
        quiet(state.round_done(notes), state, notes),
{
    reveal(LoopView::round_done);
    lemma_round_starts(state, notes);
    lemma_detach(LoopView { remaining: seq![], ..state }, DetachReason::ChildExited, notes);
}

proof fn lemma_drained(state: LoopView, notes: Seq<NoteView>)
    requires
        state.on() || state.off(),
    ensures
        quiet(state.drained(notes), state, notes),
{
    reveal(LoopView::drained);
    if !state.detaching {
        lemma_round_done(
            LoopView { progress: state.progress || state.saw_output, ..state },
            notes,
        );
    }
}

proof fn lemma_receive(state: LoopView, notes: Seq<NoteView>)
    requires
        state.on() || state.off(),
    ensures
        quiet(state.receive_first(notes), state, notes),
        quiet(state.receive_more(notes), state, notes),
{
    reveal(LoopView::receive_first);
    reveal(LoopView::receive_more);
    lemma_drained(state, notes);
}

proof fn lemma_absorb(state: LoopView)
    requires
        state.on() || state.off(),
    ensures
        quiet(state.absorb(), state, seq![]),
{
    reveal(LoopView::absorb);
    lemma_receive(LoopView { replay: state.replay + state.pending, ..state }, seq![]);
}

proof fn lemma_frame(state: LoopView, frame: FrameView)
    requires
        state.on() || state.off(),
        state.frames_left > 0,
        state.phase == AttachPhase::Receiving,
    ensures
        told(state.frame(frame), state),
{
    reveal(LoopView::frame);
    let on = state.took_frame();
    match frame {
        FrameView::Output(bytes) => {
            reveal(LoopView::output);
            lemma_absorb(LoopView { pending: bytes, ..on });
            lemma_told(state.frame(frame), state, seq![]);
        },
        FrameView::Exited(code) => {
            reveal(LoopView::exited);
            lemma_receive(
                LoopView {
                    exit_code: if state.exit_code is None {
                        code
                    } else {
                        state.exit_code
                    },
                    child_exited: true,
                    ..on
                },
                seq![NoteView::ChildExited(code)],
            );
            lemma_told(state.frame(frame), state, seq![NoteView::ChildExited(code)]);
        },
        FrameView::Error(message) => {
            lemma_fail(
                on,
                host_failure(AttachStepKind::PtyRuntime, message),
                seq![NoteView::ChildFault(message)],
            );
            lemma_told(state.frame(frame), state, seq![NoteView::ChildFault(message)]);
        },
        FrameView::Overflow { dropped_frames, dropped_bytes } => {
            let notes = seq![NoteView::OutputLost { dropped_frames, dropped_bytes }];
            lemma_receive(on, notes);
            lemma_told(state.frame(frame), state, notes);
        },
        FrameView::CursorPositionRequest => {
            lemma_receive(on, seq![]);
            lemma_told(state.frame(frame), state, seq![]);
        },
    }
}

proof fn lemma_drain(state: LoopView, notes: Seq<NoteView>)
    requires
        state.on(),
    ensures
        quiet(state.drain(notes), state, notes),
{
    reveal(LoopView::drain);
    lemma_receive(LoopView { forward: true, ..state }, notes);
}

proof fn lemma_input_done(state: LoopView, notes: Seq<NoteView>)
    requires
        state.on(),
    ensures
        quiet(state.input_done(notes), state, notes),
{
    reveal(LoopView::input_done);
    let on = LoopView { progress: true, ..state };
    lemma_detach(state, DetachReason::UserChord, notes);
    lemma_round_starts(on, notes);
    lemma_drain(on, notes);
}

proof fn lemma_send(state: LoopView)
    requires
        state.on(),
    ensures
        quiet(state.send(), state, seq![]),
{
    reveal(LoopView::send);
    lemma_input_done(state, seq![]);
}

proof fn lemma_sift(state: LoopView, input: Seq<u8>)
    requires
        state.on(),
    ensures
        quiet(state.sift(input), state, seq![]),
{
    reveal(LoopView::sift);
    let parts = split_controls(input);
    lemma_send(
        LoopView { pending: parts.0, actions: parts.1, viewport_changed: false, ..state },
    );
    lemma_send(LoopView { pending: input, viewport_changed: false, ..state });
}

proof fn lemma_wind_down(state: LoopView, notes: Seq<NoteView>)
    requires
        state.off(),
    ensures
        quiet(state.restore(notes), state, notes),
        quiet(state.resize_back(), state, seq![]),
        quiet(state.replay_held(), state, seq![]),
{
    reveal(LoopView::restore);
    reveal(LoopView::resize_back);
    reveal(LoopView::replay_held);
}

proof fn lemma_attached(state: LoopView, notes: Seq<NoteView>)
    requires
        state.sound(),
        !state.detaching,
        state.stage == AttachState::Attaching,
        state.host == HostTerminal::Suspended,
    ensures
        quiet(state.attached(notes), state, notes),
{
    reveal(LoopView::attached);
    reveal(LoopView::paint);
    lemma_round_starts(LoopView { stage: AttachState::Attached, ..state }, notes);
}

proof fn lemma_after_size(state: LoopView, r: core::result::Result<Size, Seq<char>>)
    requires
        state.valid(),
        state.awaits(ReplyView::Size(r)),
    ensures
        told(state.after_size(r), state),
{
    reveal(LoopView::after_size);
    match r {
        Err(message) => {
            let failure = host_failure(AttachStepKind::TerminalSize, message);
            if state.phase == AttachPhase::InitialSize {
                reveal(LoopView::refused);
            } else {
                lemma_fail(state, failure, seq![]);
            }
        },
        Ok(size) => {
            if state.phase != AttachPhase::InitialSize {
                lemma_round_starts(state, seq![]);
                lemma_round_starts(
                    LoopView { terminal_size: size, progress: true, ..state },
                    seq![],
                );
            }
        },
    }
}

proof fn lemma_after_clock(state: LoopView, now: Instant)
    requires
        state.valid(),
        state.awaits(ReplyView::Clock(now)),
    ensures
        told(state.after_clock(now), state),
{
    reveal(LoopView::after_clock);
    match state.phase {
        AttachPhase::StartClock => {
            reveal(LoopView::started);
            reveal(LoopView::attached);
            reveal(LoopView::paint);
            lemma_attached(
                LoopView { started_at: now, ..state },
                seq![NoteView::Started { terminal_size: state.terminal_size }],
            );
        },
        AttachPhase::InputClock => {
            reveal(LoopView::no_input);
            assert(Seq::<u8>::empty() =~= state.matcher.chord.take(0));
            if state.matcher.expired(now) {
                lemma_sift(
                    LoopView { matcher: state.matcher.settled(now), ..state },
                    state.matcher.held,
                );
            } else {
                lemma_drain(state, seq![]);
            }
        },
        AttachPhase::DrainStart => {
            reveal(LoopView::drain_from);
            lemma_receive(LoopView { drain_started: now, last_activity: now, ..state }, seq![]);
        },
        AttachPhase::DrainNow => {
            reveal(LoopView::drain_at);
            lemma_wind_down(state, seq![]);
        },
        AttachPhase::DrainActivity => {
            reveal(LoopView::drain_active);
        },
        AttachPhase::EndClock => {
            reveal(LoopView::ended);
        },
        _ => {
            reveal(LoopView::aborted);
        },
    }
}

proof fn lemma_after_resize(state: LoopView, r: core::result::Result<(), FailureView>)
    requires
        state.valid(),
        state.awaits(ReplyView::Resized(r)),
    ensures
        told(state.after_resize(r), state),
{
    reveal(LoopView::after_resize);
    match r {
        Err(failure) => {
            lemma_fail(state, failure, seq![]);
            if state.phase != AttachPhase::AbortResize {
                lemma_told(state.after_resize(r), state, seq![]);
            }
        },
        Ok(_) => match state.phase {
            AttachPhase::FirstResize => {
                let notes = seq![NoteView::Resized(state.terminal_size)];
                lemma_attached(state, notes);
                lemma_told(state.after_resize(r), state, notes);
            },
            AttachPhase::TickResize => {
                let notes = seq![NoteView::Resized(state.terminal_size)];
                lemma_round_starts(state, notes);
                lemma_told(state.after_resize(r), state, notes);
            },
            AttachPhase::DetachResize => {
                let notes = seq![NoteView::Resized(state.embedded_size)];
                let off = LoopView { restored_size: true, ..state };
                lemma_wind_down(off, notes);
                lemma_told(state.after_resize(r), off, notes);
            },
            _ => {},
        },
    }
}

proof fn lemma_after_restore(state: LoopView, r: core::result::Result<(), Seq<char>>)
    requires
        state.valid(),
        state.awaits(ReplyView::Restored(r)),
    ensures
        told(state.after_restore(r), state),
{
    reveal(LoopView::after_restore);
    if let Err(message) = r {
        lemma_fail(state, host_failure(AttachStepKind::Restore, message), seq![]);
    }
}

proof fn lemma_after_measure(state: LoopView, content: ContentRows)
    requires
        state.valid(),
        state.awaits(ReplyView::Measured(content)),
    ensures
        told(state.after_measure(content), state),
{
    reveal(LoopView::after_measure);
    let metrics = state.over(content);
    match state.phase {
        AttachPhase::InputMeasure => {
            reveal(LoopView::scrolled);
            let next = moved_by(
                state.viewport,
                state.actions,
                content,
                state.terminal_size.rows as usize,
            );
            lemma_send(
                LoopView { viewport: next, viewport_changed: next != state.viewport, ..state },
            );
        },
        AttachPhase::OutputMeasure => {
            reveal(LoopView::measured);
            lemma_receive(
                LoopView {
                    before: metrics,
                    forward: metrics.effective_scroll_offset == 0,
                    ..state
                },
                seq![],
            );
        },
        AttachPhase::OutputRemeasure => {
            lemma_round_done(
                LoopView { viewport: state.viewport.clamped(metrics), ..state },
                seq![],
            );
        },
        _ => {},
    }
}

proof fn lemma_after_input(
    state: LoopView,
    r: core::result::Result<Option<(Instant, Seq<u8>)>, Seq<char>>,
)
    requires
        state.valid(),
        state.awaits(ReplyView::Input(r)),
    ensures
        told(state.after_input(r), state),
{
    reveal(LoopView::after_input);
    match r {
        Err(message) => {
            lemma_fail(state, host_failure(AttachStepKind::TerminalInput, message), seq![]);
        },
        Ok(None) => {},
        Ok(Some((at, bytes))) => {
            let settled = state.matcher.settled(at);
            assert(Seq::<u8>::empty() =~= state.matcher.chord.take(0));
            crate::detach::law_run_conserves_bytes(
                settled.held,
                settled.times,
                bytes,
                state.matcher.chord,
                at,
            );
            let run = state.matcher.run(bytes, at);
            lemma_sift(
                LoopView {
                    matcher: MatcherView { held: run.held, times: run.times, ..state.matcher },
                    chord_seen: run.detached,
                    remaining: run.remaining,
                    ..state
                },
                state.matcher.flushed(at) + run.forward,
            );
        },
    }
}

proof fn lemma_after_output(state: LoopView, r: core::result::Result<(), Seq<char>>)
    requires
        state.valid(),
        state.awaits(ReplyView::Output(r)),
    ensures
        told(state.after_output(r), state),
{
    reveal(LoopView::after_output);
    if let Err(message) = r {
        lemma_fail(state, host_failure(AttachStepKind::TerminalOutput, message), seq![]);
    } else if let AttachPhase::Painting(then) = state.phase {
        reveal(LoopView::painted);
        lemma_round_starts(state, seq![]);
        lemma_drain(state, seq![]);
    } else {
        lemma_absorb(state);
    }
}

proof fn lemma_after_receive(
    state: LoopView,
    r: core::result::Result<Option<FrameView>, FailureView>,
)
    requires
        state.valid(),
        state.awaits(ReplyView::Received(r)),
    ensures
        told(state.after_receive(r), state),
{
    reveal(LoopView::after_receive);
    match r {
        Err(failure) => lemma_fail(state, failure, seq![]),
        Ok(None) => lemma_drained(state, seq![]),
        Ok(Some(frame)) => lemma_frame(state, frame),
    }
}

proof fn lemma_after_feed(state: LoopView, r: core::result::Result<(), FailureView>)
    requires
        state.valid(),
        state.awaits(ReplyView::Fed(r)),
    ensures
        told(state.after_feed(r), state),
{
    reveal(LoopView::after_feed);
    if let Err(failure) = r {
        lemma_fail(state, failure, seq![]);
    } else if state.phase == AttachPhase::Feeding {
        lemma_receive(state, seq![]);
    } else {
        lemma_wind_down(LoopView { replay: seq![], ..state }, seq![]);
    }
}

proof fn lemma_after_rest(state: LoopView, reply: ReplyView)
    requires
        state.valid(),
        state.awaits(reply),
        reply is Suspended || reply is Slept || reply is Sent || reply is Rendered,
    ensures
        told(state.after(reply), state),
{
    match reply {
        ReplyView::Suspended(r) => {
            reveal(LoopView::after_suspend);
            reveal(LoopView::refused);
        },
        ReplyView::Slept => {
            reveal(LoopView::after_sleep);
            if state.phase == AttachPhase::Sleeping {
                lemma_round_starts(state, seq![]);
            } else {
                lemma_receive(state, seq![]);
            }
        },
        ReplyView::Sent(r) => {
            reveal(LoopView::after_send);
            match r {
                Err(failure) => {
                    lemma_fail(state, failure, seq![]);
                    lemma_told(state.after(reply), state, seq![]);
                },
                Ok(_) => {
                    let notes = seq![NoteView::InputSent(state.pending.len())];
                    lemma_input_done(state, notes);
                    lemma_told(state.after(reply), state, notes);
                },
            }
        },
        ReplyView::Rendered(r) => {
            reveal(LoopView::after_render);
            if let Err(failure) = r {
                lemma_fail(state, failure, seq![]);
            }
        },
        _ => {},
    }
}

proof fn lemma_after(state: LoopView, reply: ReplyView)
    requires
        state.valid(),
        state.awaits(reply),
    ensures
        told(state.after(reply), state),
{
    match reply {
        ReplyView::Size(r) => lemma_after_size(state, r),
        ReplyView::Input(r) => lemma_after_input(state, r),
        ReplyView::Output(r) => lemma_after_output(state, r),
        ReplyView::Restored(r) => lemma_after_restore(state, r),
        ReplyView::Clock(now) => lemma_after_clock(state, now),
        ReplyView::Resized(r) => lemma_after_resize(state, r),
        ReplyView::Received(r) => lemma_after_receive(state, r),
        ReplyView::Fed(r) => lemma_after_feed(state, r),
        ReplyView::Measured(content) => lemma_after_measure(state, content),
        _ => lemma_after_rest(state, reply),
    }
}

/// A step leaves a loop that is in order in order, and leaves two notes at
/// most.
pub proof fn law_attach_loop_stays_valid(state: LoopView, reply: ReplyView)
    requires
        state.valid(),
        state.awaits(reply),
    ensures
        state.after(reply).state.valid(),
        state.after(reply).notes.len() <= 2,
{
    lemma_after(state, reply);
}

/// The lifecycle never skips ahead: a step stays in its state, goes to the next
/// one, or falls back to the embedded state.
pub proof fn law_attach_stage_moves(state: LoopView, reply: ReplyView)
    requires
        state.valid(),
        state.awaits(reply),
    ensures
        stage_moves(state.stage, state.after(reply).state.stage),
{
    lemma_after(state, reply);
}

/// Attaching undoes itself: when the loop finishes, the pane is embedded again
/// and the terminal is no longer suspended, unless two attempts to restore it
/// were refused. A loop that finishes well has restored the terminal.
pub proof fn law_attach_ends_embedded(state: LoopView, reply: ReplyView)
    requires
        state.valid(),
        state.awaits(reply),
    ensures
        state.after(reply).request matches RequestView::Finished(r) ==> ({
            let end = state.after(reply).state;
            &&& end.stage == AttachState::Embedded
            &&& end.host != HostTerminal::Suspended
            &&& r is Ok ==> end.host == HostTerminal::Restored
        }),
{
    lemma_after(state, reply);
}

/// Every step asks for something whose answer the loop then waits for, stays in
/// its mode, and is over exactly when it says so. A failure that it ends with is one
/// that a loop of its kind can meet.
pub proof fn law_attach_advances(state: LoopView, reply: ReplyView)
    requires
        state.valid(),
        state.awaits(reply),
    ensures
        ({
            let step = state.after(reply);
            &&& step.state.managed == state.managed
            &&& step.state.phase != AttachPhase::Idle
            &&& step.request is Finished <==> step.state.phase == AttachPhase::Done
            &&& forall|next: ReplyView| #[trigger]
                answers(next, step.request, state.managed) ==> step.state.awaits(next)
            &&& step.request matches RequestView::Finished(Err(failure)) ==> failure_fits(
                failure,
                state.managed,
            )
        }),
{
    lemma_after(state, reply);
}

/// A loop that is not managed has no viewport: it never asks for one to be
/// measured or rendered.
pub proof fn law_unmanaged_requests(state: LoopView, reply: ReplyView)
    requires
        state.valid(),
        state.awaits(reply),
        !state.managed,
    ensures
        !(state.after(reply).request is Measure),
        !(state.after(reply).request is Render),
{
    lemma_after(state, reply);
}

/// The steps that are left at most once the loop has given up.
pub open spec fn abort_steps_left(phase: AttachPhase) -> nat {
    match phase {
        AttachPhase::AbortResize => 4,
        AttachPhase::AbortRestore => 3,
        AttachPhase::AbortRetry => 2,
        AttachPhase::AbortClock => 1,
        _ => 0,
    }
}

/// A loop that has given up comes to an end: each further reply brings it
/// closer, whatever the reply says.
pub proof fn law_abort_comes_to_an_end(state: LoopView, reply: ReplyView)
    requires
        state.valid(),
        state.awaits(reply),
        abort_steps_left(state.phase) > 0,
    ensures
        ({
            let next = state.after(reply);
            &&& abort_steps_left(next.state.phase) < abort_steps_left(state.phase)
            &&& abort_steps_left(next.state.phase) == 0 ==> next.request is Finished
        }),
{
    reveal(LoopView::after_clock);
    reveal(LoopView::aborted);
    reveal(LoopView::after_resize);
    reveal(LoopView::after_restore);
}

/// Child output is shown and kept: a frame of output goes to the host terminal,
/// unless the viewport is scrolled away from the tail, and then to the surface
/// or, where the surface is fed on detach, behind what is held back for it.
pub proof fn law_output_is_fanned_out(state: LoopView, bytes: Seq<u8>)
    requires
        state.valid(),
        state.phase == AttachPhase::Receiving,
    ensures
        ({
            let received = state.after(ReplyView::Received(Ok(Some(FrameView::Output(bytes)))));
            let shown = if state.forward {
                received.state.after(ReplyView::Output(Ok(())))
            } else {
                received
            };
            &&& state.forward ==> received.request == RequestView::WriteOutput(bytes)
            &&& if state.options.output == AttachOutputPolicy::FanoutToSurfaceAndStdout {
                shown.request == RequestView::Feed(bytes) && shown.state.replay == state.replay
            } else {
                shown.state.replay == state.replay + bytes
            }
        }),
{
    reveal(LoopView::after_receive);
    reveal(LoopView::frame);
    reveal(LoopView::output);
    reveal(LoopView::after_output);
    reveal(LoopView::absorb);
    reveal(LoopView::receive_more);
    reveal(LoopView::drained);
    reveal(LoopView::round_done);
    reveal(LoopView::detach);
    reveal(LoopView::tick);
}

/// Output that was held back is not lost: when a detach has drained the child,
/// all of it is fed to the surface at once.
pub proof fn law_held_output_is_replayed(state: LoopView, now: Instant)
    requires
        state.valid(),
        state.phase == AttachPhase::DrainNow,
        state.drain_over(now),
        state.options.output == AttachOutputPolicy::StdoutOnlyThenReplay,
        state.replay.len() > 0,
    ensures
        state.after(ReplyView::Clock(now)).request == RequestView::Feed(state.replay),
{
    reveal(LoopView::after_clock);
    reveal(LoopView::drain_at);
    reveal(LoopView::replay_held);
}

/// A loop takes an untouched terminal for suspended when a suspension went
/// well, a suspended one for restored when a restoration did, and nothing else
/// changes what it takes it for but a restoration that is refused.
pub proof fn law_terminal_follows_its_control(state: LoopView, reply: ReplyView)
    requires
        state.valid(),
        state.awaits(reply),
    ensures
        ({
            let host = state.after(reply).state.host;
            match reply {
                ReplyView::Suspended(Ok(_)) => host == HostTerminal::Suspended && state.host
                    == HostTerminal::Untouched,
                ReplyView::Suspended(Err(_)) => host == state.host,
                ReplyView::Restored(Ok(_)) => host == HostTerminal::Restored && state.host
                    == HostTerminal::Suspended,
                ReplyView::Restored(Err(_)) => (host == HostTerminal::Suspended || host
                    == HostTerminal::Abandoned) && state.host == HostTerminal::Suspended,
                _ => host == state.host,
            }
        }),
{
    lemma_after(state, reply);
    reveal(LoopView::after_restore);
    reveal(LoopView::after_suspend);
    reveal(LoopView::refused);
    reveal(LoopView::fail);
    reveal(LoopView::restore);
}

/// Every attach that takes the terminal is told of exactly twice: its start,
/// once, when it has taken the terminal, and its end, once, with the step that
/// finishes it, however it ends. An attach that never takes the terminal is
/// told of by its failure alone.
pub proof fn law_attach_is_bookended(state: LoopView, reply: ReplyView)
    requires
        state.valid(),
        state.awaits(reply),
    ensures
        bookended(state.after(reply), state),
        state.phase == AttachPhase::StartClock ==> !(state.after(reply).request is Finished),
{
    lemma_after(state, reply);
    if state.phase == AttachPhase::StartClock {
        reveal(LoopView::after_clock);
        reveal(LoopView::started);
        reveal(LoopView::attached);
        reveal(LoopView::paint);
    }
}

} // verus!
