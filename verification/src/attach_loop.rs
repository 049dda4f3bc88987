//! The attach loop: what a fullscreen attach does next, given what came back
//! from the last thing it asked for.
//!
//! [`AttachLoop`] performs no I/O. It names the next [`AttachRequest`], its
//! driver carries that out and hands back the [`AttachReply`]; together they
//! move child output to the host terminal, host input to the child, and sizes
//! both ways until the detach chord is typed, the child exits, or a step
//! fails. On the way the loop leaves [`AttachNote`]s: lifecycle moves and what
//! is to be reported.

use vstd::prelude::*;
use vstd::slice::slice_to_vec;

use crate::attach::AttachState;
use crate::attach_error::{AttachFailure, AttachStepKind};
use crate::attach_plan::{
    host_failure, host_result, law_attach_loop_stays_valid, note_views, pane_result, AfterPaint,
    AttachInputChunk, AttachNote, AttachPhase, AttachReply, AttachRequest, AttachStep,
    BlockingAttachOutcome, HostTerminal, LoopStep, LoopView, NoteView, DETACH_DRAIN_MAX_WAIT_NANOS,
    DETACH_DRAIN_QUIET_NANOS, MAX_PTY_FRAMES_PER_TICK,
};
use crate::attach_viewport::{
    apply_attach_viewport_actions, split_attach_viewport_controls,
    stabilize_attach_viewport_after_output, AttachViewportAction, ContentRows,
};
use crate::bytes::push_all;
use crate::command::{AttachOptions, AttachOutputPolicy, AttachResizePolicy};
use crate::detach::DetachMatcher;
use crate::event::DetachReason;
use crate::pane::Size;
use crate::pty::PtyFrame;
use crate::time::{Duration, Instant};
use crate::viewport::{TerminalViewport, TerminalViewportMetrics};

verus! {

/// The attach loop.
#[derive(Debug, PartialEq, Eq)]
pub struct AttachLoop {
    options: AttachOptions,
    managed: bool,
    embedded_size: Size,
    poll_interval: Duration,
    phase: AttachPhase,
    stage: AttachState,
    host: HostTerminal,
    matcher: DetachMatcher,
    viewport: TerminalViewport,
    terminal_size: Size,
    started_at: Instant,
    replay: Vec<u8>,
    exit_code: Option<i32>,
    reason: DetachReason,
    chord_seen: bool,
    remaining: Vec<u8>,
    restored_size: bool,
    pending: Vec<u8>,
    actions: Vec<AttachViewportAction>,
    viewport_changed: bool,
    progress: bool,
    forward: bool,
    before: TerminalViewportMetrics,
    frames_left: usize,
    saw_output: bool,
    child_exited: bool,
    detaching: bool,
    drain_started: Instant,
    last_activity: Instant,
    failure: Option<AttachFailure>,
}

impl View for AttachLoop {
    type V = LoopView;

    closed spec fn view(&self) -> LoopView {
        LoopView {
            options: self.options,
            managed: self.managed,
            embedded_size: self.embedded_size,
            poll_interval: self.poll_interval,
            phase: self.phase,
            stage: self.stage,
            host: self.host,
            matcher: self.matcher@,
            viewport: self.viewport,
            terminal_size: self.terminal_size,
            started_at: self.started_at,
            replay: self.replay@,
            exit_code: self.exit_code,
            reason: self.reason,
            chord_seen: self.chord_seen,
            remaining: self.remaining@,
            restored_size: self.restored_size,
            pending: self.pending@,
            actions: self.actions@,
            viewport_changed: self.viewport_changed,
            progress: self.progress,
            forward: self.forward,
            before: self.before,
            frames_left: self.frames_left as nat,
            saw_output: self.saw_output,
            child_exited: self.child_exited,
            detaching: self.detaching,
            drain_started: self.drain_started,
            last_activity: self.last_activity,
            failure: match self.failure {
                Some(failure) => Some(failure@),
                None => None,
            },
        }
    }
}

/// Whether the executed step is the wanted one.
pub open spec fn performs(step: AttachStep, state: LoopView, want: LoopStep) -> bool {
    &&& state == want.state
    &&& note_views(step.notes@) == want.notes
    &&& step.request@ == want.request
}

fn no_notes() -> (notes: Vec<AttachNote>)
    ensures
        note_views(notes@) == Seq::<NoteView>::empty(),
{
    let notes: Vec<AttachNote> = Vec::new();
    assert(note_views(notes@) =~= seq![]);
    notes
}

fn one_note(note: AttachNote) -> (notes: Vec<AttachNote>)
    ensures
        note_views(notes@) == seq![note@],
{
    let mut notes: Vec<AttachNote> = Vec::new();
    notes.push(note);
    assert(note_views(notes@) =~= seq![note@]);
    notes
}

fn push_note(notes: &mut Vec<AttachNote>, note: AttachNote)
    ensures
        note_views(final(notes)@) == note_views(old(notes)@).push(note@),
{
    notes.push(note);
    assert(note_views(notes@) =~= note_views(old(notes)@).push(note@));
}

fn step_failure(kind: AttachStepKind, message: String) -> (failure: AttachFailure)
    ensures
        failure@ == host_failure(kind, message@),
{
    AttachFailure::Step { kind, message }
}

impl AttachLoop {
    /// A loop that is ready to start. A managed loop serves the viewport
    /// controls and ends with its child.
    pub fn new(
        options: AttachOptions,
        managed: bool,
        embedded_size: Size,
        poll_interval: Duration,
    ) -> (made: Self)
        ensures
            made@ == LoopView::fresh(options, managed, embedded_size, poll_interval),
            made@.valid(),
    {
        let matcher = DetachMatcher::new(&options.detach);
        let made = AttachLoop {
            options,
            managed,
            embedded_size,
            poll_interval,
            phase: AttachPhase::Idle,
            stage: AttachState::Embedded,
            host: HostTerminal::Untouched,
            matcher,
            viewport: TerminalViewport::default(),
            terminal_size: embedded_size,
            started_at: Instant { nanos: 0 },
            replay: Vec::new(),
            exit_code: None,
            reason: DetachReason::Error,
            chord_seen: false,
            remaining: Vec::new(),
            restored_size: false,
            pending: Vec::new(),
            actions: Vec::new(),
            viewport_changed: false,
            progress: false,
            forward: false,
            before: TerminalViewportMetrics::default(),
            frames_left: 0,
            saw_output: false,
            child_exited: false,
            detaching: false,
            drain_started: Instant { nanos: 0 },
            last_activity: Instant { nanos: 0 },
            failure: None,
        };
        proof {
            let want = LoopView::fresh(options, managed, embedded_size, poll_interval);
            assert(made@.replay =~= want.replay);
            assert(made@.remaining =~= want.remaining);
            assert(made@.pending =~= want.pending);
            assert(made@.actions =~= want.actions);
        }
        made
    }

    /// The lifecycle state.
    pub fn stage(&self) -> (stage: AttachState)
        ensures
            stage == self@.stage,
    {
        self.stage
    }

    /// What the loop waits for.
    pub fn phase(&self) -> (phase: AttachPhase)
        ensures
            phase == self@.phase,
    {
        self.phase
    }

    fn ask(
        &mut self,
        phase: AttachPhase,
        notes: Vec<AttachNote>,
        request: AttachRequest,
    ) -> (step: AttachStep)
        ensures
            performs(
                step,
                final(self)@,
                old(self)@.ask(phase, note_views(notes@), request@),
            ),
    {
        self.phase = phase;
        AttachStep { notes, request }
    }

    fn follows_terminal(&self) -> (b: bool)
        ensures
            b == self@.follows_terminal(),
    {
        self.options.resize == AttachResizePolicy::UseRealTerminalSize
    }

    /// Starts the loop.
    pub fn begin(&mut self) -> (step: AttachStep)
        requires
            old(self)@.valid(),
            old(self)@.phase == AttachPhase::Idle,
        ensures
            performs(step, final(self)@, old(self)@.begun()),
            final(self)@.valid(),
    {
        self.ask(AttachPhase::InitialSize, no_notes(), AttachRequest::TerminalSize)
    }

    fn refused(&mut self, failure: AttachFailure) -> (step: AttachStep)
        ensures
            performs(step, final(self)@, old(self)@.refused(failure@)),
    {
        proof {
            reveal(LoopView::refused);
        }
        let notes = one_note(AttachNote::Failed(failure.clone()));
        self.stage = AttachState::Embedded;
        self.failure = Some(failure.clone());
        self.ask(AttachPhase::Done, notes, AttachRequest::Finished(Err(failure)))
    }

    fn attached(&mut self, notes: Vec<AttachNote>) -> (step: AttachStep)
        ensures
            performs(step, final(self)@, old(self)@.attached(note_views(notes@))),
    {
        proof {
            reveal(LoopView::attached);
        }
        self.stage = AttachState::Attached;
        if self.managed {
            self.paint(AfterPaint::Tick, notes)
        } else {
            self.ask(AttachPhase::ConfirmSize, notes, AttachRequest::TerminalSize)
        }
    }

    fn paint(&mut self, then: AfterPaint, notes: Vec<AttachNote>) -> (step: AttachStep)
        ensures
            performs(step, final(self)@, old(self)@.paint(then, note_views(notes@))),
    {
        proof {
            reveal(LoopView::paint);
        }
        let request = AttachRequest::Render { viewport: self.viewport, size: self.terminal_size };
        self.ask(AttachPhase::Rendering(then), notes, request)
    }

    fn tick(&mut self, notes: Vec<AttachNote>) -> (step: AttachStep)
        ensures
            performs(step, final(self)@, old(self)@.tick(note_views(notes@))),
    {
        proof {
            reveal(LoopView::tick);
        }
        self.progress = false;
        self.ask(AttachPhase::TickSize, notes, AttachRequest::TerminalSize)
    }

    fn sized(&mut self, notes: Vec<AttachNote>) -> (step: AttachStep)
        ensures
            performs(step, final(self)@, old(self)@.sized(note_views(notes@))),
    {
        proof {
            reveal(LoopView::sized);
        }
        if self.managed {
            self.paint(AfterPaint::Read, notes)
        } else {
            self.read(notes)
        }
    }

    fn read(&mut self, notes: Vec<AttachNote>) -> (step: AttachStep)
        ensures
            performs(step, final(self)@, old(self)@.read(note_views(notes@))),
    {
        proof {
            reveal(LoopView::read);
        }
        self.ask(AttachPhase::Reading, notes, AttachRequest::ReadInput)
    }

    fn sift(&mut self, input: Vec<u8>) -> (step: AttachStep)
        ensures
            performs(step, final(self)@, old(self)@.sift(input@)),
    {
        proof {
            reveal(LoopView::sift);
        }
        if self.managed {
            let (forward, actions) = split_attach_viewport_controls(input.as_slice());
            self.pending = forward;
            self.actions = actions;
            if self.actions.len() > 0 {
                return self.ask(AttachPhase::InputMeasure, no_notes(), AttachRequest::Measure);
            }
        } else {
            self.pending = input;
        }
        self.viewport_changed = false;
        self.send()
    }

    fn send(&mut self) -> (step: AttachStep)
        ensures
            performs(step, final(self)@, old(self)@.send()),
    {
        proof {
            reveal(LoopView::send);
        }
        if self.pending.len() > 0 {
            let bytes = slice_to_vec(self.pending.as_slice());
            self.ask(AttachPhase::Sending, no_notes(), AttachRequest::SendInput(bytes))
        } else {
            self.input_done(no_notes())
        }
    }

    fn input_done(&mut self, notes: Vec<AttachNote>) -> (step: AttachStep)
        ensures
            performs(step, final(self)@, old(self)@.input_done(note_views(notes@))),
    {
        proof {
            reveal(LoopView::input_done);
        }
        if self.chord_seen {
            return self.start_detach(DetachReason::UserChord, notes);
        }
        self.progress = true;
        if self.viewport_changed {
            self.paint(AfterPaint::Drain, notes)
        } else {
            self.drain(notes)
        }
    }

    fn drain(&mut self, notes: Vec<AttachNote>) -> (step: AttachStep)
        ensures
            performs(step, final(self)@, old(self)@.drain(note_views(notes@))),
    {
        proof {
            reveal(LoopView::drain);
        }
        if self.managed {
            self.ask(AttachPhase::OutputMeasure, notes, AttachRequest::Measure)
        } else {
            self.forward = true;
            self.receive_first(notes)
        }
    }

    fn receive_first(&mut self, notes: Vec<AttachNote>) -> (step: AttachStep)
        ensures
            performs(step, final(self)@, old(self)@.receive_first(note_views(notes@))),
    {
        proof {
            reveal(LoopView::receive_first);
        }
        self.frames_left = MAX_PTY_FRAMES_PER_TICK;
        self.saw_output = false;
        self.child_exited = false;
        self.ask(AttachPhase::Receiving, notes, AttachRequest::Receive)
    }

    fn receive_more(&mut self, notes: Vec<AttachNote>) -> (step: AttachStep)
        ensures
            performs(step, final(self)@, old(self)@.receive_more(note_views(notes@))),
    {
        proof {
            reveal(LoopView::receive_more);
        }
        if self.frames_left == 0 {
            self.drained(notes)
        } else {
            self.ask(AttachPhase::Receiving, notes, AttachRequest::Receive)
        }
    }

    fn output(&mut self, bytes: Vec<u8>) -> (step: AttachStep)
        ensures
            performs(step, final(self)@, old(self)@.output(bytes@)),
    {
        proof {
            reveal(LoopView::output);
        }
        self.pending = bytes;
        if self.forward {
            let copy = slice_to_vec(self.pending.as_slice());
            self.ask(AttachPhase::Writing, no_notes(), AttachRequest::WriteOutput(copy))
        } else {
            self.absorb()
        }
    }

    fn exited(&mut self, code: Option<i32>) -> (step: AttachStep)
        ensures
            performs(step, final(self)@, old(self)@.exited(code)),
    {
        proof {
            reveal(LoopView::exited);
        }
        if self.exit_code.is_none() {
            self.exit_code = code;
        }
        self.child_exited = true;
        self.receive_more(one_note(AttachNote::ChildExited(code)))
    }

    fn take_frame(&mut self, frame: PtyFrame) -> (step: AttachStep)
        requires
            old(self)@.frames_left > 0,
        ensures
            performs(step, final(self)@, old(self)@.frame(frame@)),
    {
        proof {
            reveal(LoopView::frame);
        }
        self.saw_output = true;
        self.frames_left = self.frames_left - 1;
        assert(self@ == old(self)@.took_frame());
        match frame {
            PtyFrame::Output { bytes, .. } => self.output(bytes),
            PtyFrame::Exited { code, .. } => self.exited(code),
            PtyFrame::Error { message, .. } => {
                let notes = one_note(AttachNote::ChildFault(message.clone()));
                self.fail(step_failure(AttachStepKind::PtyRuntime, message), notes)
            },
            PtyFrame::Overflow { dropped_frames, dropped_bytes, .. } => self.receive_more(
                one_note(AttachNote::OutputLost { dropped_frames, dropped_bytes }),
            ),
            PtyFrame::CursorPositionRequest { .. } => self.receive_more(no_notes()),
        }
    }

    fn absorb(&mut self) -> (step: AttachStep)
        ensures
            performs(step, final(self)@, old(self)@.absorb()),
    {
        proof {
            reveal(LoopView::absorb);
        }
        if self.options.output == AttachOutputPolicy::FanoutToSurfaceAndStdout {
            let bytes = slice_to_vec(self.pending.as_slice());
            self.ask(AttachPhase::Feeding, no_notes(), AttachRequest::Feed(bytes))
        } else {
            push_all(&mut self.replay, self.pending.as_slice());
            self.receive_more(no_notes())
        }
    }

    fn drained(&mut self, notes: Vec<AttachNote>) -> (step: AttachStep)
        ensures
            performs(step, final(self)@, old(self)@.drained(note_views(notes@))),
    {
        proof {
            reveal(LoopView::drained);
        }
        if self.detaching {
            let phase = if self.saw_output {
                AttachPhase::DrainActivity
            } else {
                AttachPhase::DrainNow
            };
            return self.ask(phase, notes, AttachRequest::Clock);
        }
        self.progress = self.progress || self.saw_output;
        if self.managed && !self.forward && self.saw_output {
            self.ask(AttachPhase::OutputRemeasure, notes, AttachRequest::Measure)
        } else {
            self.round_done(notes)
        }
    }

    fn round_done(&mut self, notes: Vec<AttachNote>) -> (step: AttachStep)
        ensures
            performs(step, final(self)@, old(self)@.round_done(note_views(notes@))),
    {
        proof {
            reveal(LoopView::round_done);
        }
        if self.managed && self.child_exited {
            self.remaining = Vec::new();
            assert(self.remaining@ =~= seq![]);
            self.start_detach(DetachReason::ChildExited, notes)
        } else if !self.progress {
            let request = AttachRequest::Sleep(self.poll_interval);
            self.ask(AttachPhase::Sleeping, notes, request)
        } else {
            self.tick(notes)
        }
    }

    fn start_detach(&mut self, reason: DetachReason, notes: Vec<AttachNote>) -> (step: AttachStep)
        ensures
            performs(step, final(self)@, old(self)@.detach(reason, note_views(notes@))),
    {
        proof {
            reveal(LoopView::detach);
        }
        self.stage = AttachState::Detaching;
        self.detaching = true;
        self.reason = reason;
        if self.managed {
            self.ask(AttachPhase::DetachMeasure, notes, AttachRequest::Measure)
        } else {
            self.forward = true;
            self.ask(AttachPhase::DrainStart, notes, AttachRequest::Clock)
        }
    }

    fn replay_held(&mut self) -> (step: AttachStep)
        ensures
            performs(step, final(self)@, old(self)@.replay_held()),
    {
        proof {
            reveal(LoopView::replay_held);
        }
        if self.options.output == AttachOutputPolicy::StdoutOnlyThenReplay && self.replay.len()
            > 0 {
            let bytes = slice_to_vec(self.replay.as_slice());
            self.ask(AttachPhase::Replaying, no_notes(), AttachRequest::Feed(bytes))
        } else {
            self.resize_back()
        }
    }

    fn resize_back(&mut self) -> (step: AttachStep)
        ensures
            performs(step, final(self)@, old(self)@.resize_back()),
    {
        proof {
            reveal(LoopView::resize_back);
        }
        if self.follows_terminal() {
            let request = AttachRequest::Resize(self.embedded_size);
            self.ask(AttachPhase::DetachResize, no_notes(), request)
        } else {
            self.restore(no_notes())
        }
    }

    fn restore(&mut self, notes: Vec<AttachNote>) -> (step: AttachStep)
        ensures
            performs(step, final(self)@, old(self)@.restore(note_views(notes@))),
    {
        proof {
            reveal(LoopView::restore);
        }
        self.ask(AttachPhase::Restoring, notes, AttachRequest::Restore)
    }

    fn fail(&mut self, failure: AttachFailure, notes: Vec<AttachNote>) -> (step: AttachStep)
        ensures
            performs(step, final(self)@, old(self)@.fail(failure@, note_views(notes@))),
    {
        proof {
            reveal(LoopView::fail);
        }
        let mut more = notes;
        push_note(&mut more, AttachNote::Failed(failure.clone()));
        self.failure = Some(failure);
        if self.stage == AttachState::Attached {
            self.stage = AttachState::Detaching;
        }
        if self.follows_terminal() && !self.restored_size {
            let request = AttachRequest::Resize(self.embedded_size);
            self.ask(AttachPhase::AbortResize, more, request)
        } else {
            self.ask(AttachPhase::AbortRestore, more, AttachRequest::Restore)
        }
    }

    fn painted(&mut self, then: AfterPaint) -> (step: AttachStep)
        ensures
            performs(step, final(self)@, old(self)@.painted(then)),
    {
        proof {
            reveal(LoopView::painted);
        }
        match then {
            AfterPaint::Tick => self.tick(no_notes()),
            AfterPaint::Read => self.read(no_notes()),
            AfterPaint::Drain => self.drain(no_notes()),
        }
    }

    fn after_size(&mut self, r: core::result::Result<Size, String>) -> (step: AttachStep)
        ensures
            performs(step, final(self)@, old(self)@.after_size(host_result(r))),
    {
        proof {
            reveal(LoopView::after_size);
        }
        let size = match r {
            Ok(size) => size,
            Err(message) => {
                let failure = step_failure(AttachStepKind::TerminalSize, message);
                if self.phase == AttachPhase::InitialSize {
                    return self.refused(failure);
                }
                return self.fail(failure, no_notes());
            },
        };
        if self.phase == AttachPhase::InitialSize {
            self.terminal_size = size;
            self.stage = AttachState::Attaching;
            let request = AttachRequest::Suspend(self.options.screen);
            self.ask(
                AttachPhase::Suspending,
                no_notes(),
                request,
            )
        } else if self.phase == AttachPhase::ConfirmSize {
            self.tick(no_notes())
        } else if size == self.terminal_size {
            self.read(no_notes())
        } else {
            self.terminal_size = size;
            self.progress = true;
            if self.follows_terminal() {
                self.ask(AttachPhase::TickResize, no_notes(), AttachRequest::Resize(size))
            } else {
                self.sized(no_notes())
            }
        }
    }

    fn started(&mut self, now: Instant) -> (step: AttachStep)
        ensures
            performs(step, final(self)@, old(self)@.started(now)),
    {
        proof {
            reveal(LoopView::started);
        }
        self.started_at = now;
        let notes = one_note(AttachNote::Started { terminal_size: self.terminal_size });
        if self.follows_terminal() {
            let request = AttachRequest::Resize(self.terminal_size);
            self.ask(AttachPhase::FirstResize, notes, request)
        } else {
            self.attached(notes)
        }
    }

    fn no_input(&mut self, now: Instant) -> (step: AttachStep)
        requires
            old(self)@.matcher.valid(),
        ensures
            performs(step, final(self)@, old(self)@.no_input(now)),
    {
        proof {
            reveal(LoopView::no_input);
        }
        match self.matcher.check_timeout(now) {
            Some(held) => self.sift(held),
            None => {
                assert(self@ == old(self)@);
                self.drain(no_notes())
            },
        }
    }

    fn drain_from(&mut self, now: Instant) -> (step: AttachStep)
        ensures
            performs(step, final(self)@, old(self)@.drain_from(now)),
    {
        proof {
            reveal(LoopView::drain_from);
        }
        self.drain_started = now;
        self.last_activity = now;
        self.receive_first(no_notes())
    }

    fn drain_active(&mut self, now: Instant) -> (step: AttachStep)
        ensures
            performs(step, final(self)@, old(self)@.drain_active(now)),
    {
        proof {
            reveal(LoopView::drain_active);
        }
        self.last_activity = now;
        self.ask(AttachPhase::DrainNow, no_notes(), AttachRequest::Clock)
    }

    fn drain_at(&mut self, now: Instant) -> (step: AttachStep)
        ensures
            performs(step, final(self)@, old(self)@.drain_at(now)),
    {
        proof {
            reveal(LoopView::drain_at);
        }
        if now.duration_since(self.last_activity).nanos >= DETACH_DRAIN_QUIET_NANOS
            || now.duration_since(self.drain_started).nanos >= DETACH_DRAIN_MAX_WAIT_NANOS {
            self.replay_held()
        } else {
            let request = AttachRequest::Sleep(self.poll_interval);
            self.ask(AttachPhase::DrainSleep, no_notes(), request)
        }
    }

    fn ended(&mut self, now: Instant) -> (step: AttachStep)
        ensures
            performs(step, final(self)@, old(self)@.ended(now)),
    {
        proof {
            reveal(LoopView::ended);
        }
        let notes = one_note(
            AttachNote::Ended {
                reason: self.reason,
                duration: now.duration_since(self.started_at),
            },
        );
        let outcome = BlockingAttachOutcome {
            reason: self.reason,
            child_exit_code: self.exit_code,
            terminal_size: self.terminal_size,
            restored_size: self.embedded_size,
            remaining_input: slice_to_vec(self.remaining.as_slice()),
        };
        self.ask(AttachPhase::Done, notes, AttachRequest::Finished(Ok(outcome)))
    }

    fn aborted(&mut self, now: Instant) -> (step: AttachStep)
        ensures
            performs(step, final(self)@, old(self)@.aborted(now)),
    {
        proof {
            reveal(LoopView::aborted);
        }
        let reason = if !self.managed && self.detaching {
            DetachReason::UserChord
        } else {
            DetachReason::Error
        };
        let duration = now.duration_since(self.started_at);
        let notes = one_note(AttachNote::Ended { reason, duration });
        self.stage = AttachState::Embedded;
        let failure = match &self.failure {
            Some(failure) => failure.clone(),
            None => {
                let text = String::new();
                assert(text@ =~= seq![]);
                step_failure(AttachStepKind::Restore, text)
            },
        };
        self.ask(AttachPhase::Done, notes, AttachRequest::Finished(Err(failure)))
    }

    fn after_clock(&mut self, now: Instant) -> (step: AttachStep)
        requires
            old(self)@.matcher.valid(),
        ensures
            performs(step, final(self)@, old(self)@.after_clock(now)),
    {
        proof {
            reveal(LoopView::after_clock);
        }
        match self.phase {
            AttachPhase::StartClock => self.started(now),
            AttachPhase::InputClock => self.no_input(now),
            AttachPhase::DrainStart => self.drain_from(now),
            AttachPhase::DrainActivity => self.drain_active(now),
            AttachPhase::DrainNow => self.drain_at(now),
            AttachPhase::EndClock => self.ended(now),
            _ => self.aborted(now),
        }
    }

    fn after_resize(&mut self, r: core::result::Result<(), AttachFailure>) -> (step: AttachStep)
        ensures
            performs(step, final(self)@, old(self)@.after_resize(pane_result(r))),
    {
        proof {
            reveal(LoopView::after_resize);
        }
        match r {
            Err(failure) => {
                if self.phase == AttachPhase::AbortResize {
                    self.ask(
                        AttachPhase::AbortRestore,
                        one_note(AttachNote::Failed(failure)),
                        AttachRequest::Restore,
                    )
                } else {
                    self.fail(failure, no_notes())
                }
            },
            Ok(_) => match self.phase {
                AttachPhase::FirstResize => {
                    let notes = one_note(AttachNote::Resized(self.terminal_size));
                    self.attached(notes)
                },
                AttachPhase::TickResize => {
                    let notes = one_note(AttachNote::Resized(self.terminal_size));
                    self.sized(notes)
                },
                AttachPhase::DetachResize => {
                    self.restored_size = true;
                    let notes = one_note(AttachNote::Resized(self.embedded_size));
                    self.restore(notes)
                },
                _ => {
                    let notes = one_note(AttachNote::Resized(self.embedded_size));
                    self.ask(AttachPhase::AbortRestore, notes, AttachRequest::Restore)
                },
            },
        }
    }

    fn after_restore(&mut self, r: core::result::Result<(), String>) -> (step: AttachStep)
        ensures
            performs(step, final(self)@, old(self)@.after_restore(host_result(r))),
    {
        proof {
            reveal(LoopView::after_restore);
        }
        match r {
            Ok(_) => {
                self.host = HostTerminal::Restored;
                if self.phase == AttachPhase::Restoring {
                    self.stage = AttachState::Embedded;
                    self.ask(
                        AttachPhase::EndClock,
                        no_notes(),
                        AttachRequest::Clock,
                    )
                } else {
                    self.ask(AttachPhase::AbortClock, no_notes(), AttachRequest::Clock)
                }
            },
            Err(message) => {
                let failure = step_failure(AttachStepKind::Restore, message);
                match self.phase {
                    AttachPhase::Restoring => self.fail(failure, no_notes()),
                    AttachPhase::AbortRestore => self.ask(
                        AttachPhase::AbortRetry,
                        one_note(AttachNote::Failed(failure)),
                        AttachRequest::Restore,
                    ),
                    _ => {
                        self.host = HostTerminal::Abandoned;
                        self.ask(
                            AttachPhase::AbortClock,
                            one_note(AttachNote::Failed(failure)),
                            AttachRequest::Clock,
                        )
                    },
                }
            },
        }
    }

    fn scrolled(&mut self, content: ContentRows) -> (step: AttachStep)
        ensures
            performs(step, final(self)@, old(self)@.scrolled(content)),
    {
        proof {
            reveal(LoopView::scrolled);
        }
        let next = apply_attach_viewport_actions(
            self.viewport,
            self.actions.as_slice(),
            content,
            self.terminal_size.rows as usize,
        );
        self.viewport_changed = next != self.viewport;
        self.viewport = next;
        self.send()
    }

    fn measured(&mut self, content: ContentRows) -> (step: AttachStep)
        ensures
            performs(step, final(self)@, old(self)@.measured(content)),
    {
        proof {
            reveal(LoopView::measured);
        }
        let metrics = content.metrics(self.viewport, self.terminal_size.rows as usize);
        self.before = metrics;
        self.forward = metrics.is_at_tail();
        self.receive_first(no_notes())
    }

    fn after_measure(&mut self, content: ContentRows) -> (step: AttachStep)
        ensures
            performs(step, final(self)@, old(self)@.after_measure(content)),
    {
        proof {
            reveal(LoopView::after_measure);
        }
        match self.phase {
            AttachPhase::InputMeasure => self.scrolled(content),
            AttachPhase::OutputMeasure => self.measured(content),
            AttachPhase::OutputRemeasure => {
                let metrics = content.metrics(self.viewport, self.terminal_size.rows as usize);
                self.viewport = stabilize_attach_viewport_after_output(
                    self.viewport,
                    self.before,
                    metrics,
                );
                self.round_done(no_notes())
            },
            _ => {
                let metrics = content.metrics(self.viewport, self.terminal_size.rows as usize);
                self.forward = metrics.is_at_tail();
                self.ask(AttachPhase::DrainStart, no_notes(), AttachRequest::Clock)
            },
        }
    }

    fn after_input(
        &mut self,
        r: core::result::Result<Option<AttachInputChunk>, String>,
    ) -> (step: AttachStep)
        requires
            old(self)@.valid(),
        ensures
            performs(
                step,
                final(self)@,
                old(self)@.after_input(
                    match r {
                        Ok(Some(chunk)) => Ok(Some((chunk.at, chunk.bytes@))),
                        Ok(None) => Ok(None),
                        Err(message) => Err(message@),
                    },
                ),
            ),
    {
        proof {
            reveal(LoopView::after_input);
        }
        match r {
            Err(message) => self.fail(
                step_failure(AttachStepKind::TerminalInput, message),
                no_notes(),
            ),
            Ok(None) => self.ask(AttachPhase::InputClock, no_notes(), AttachRequest::Clock),
            Ok(Some(chunk)) => {
                let fed = self.matcher.feed_bytes(chunk.bytes.as_slice(), chunk.at);
                self.chord_seen = fed.detached;
                self.remaining = slice_to_vec(fed.remaining);
                self.sift(fed.forward)
            },
        }
    }

    fn after_output(&mut self, r: core::result::Result<(), String>) -> (step: AttachStep)
        ensures
            performs(step, final(self)@, old(self)@.after_output(host_result(r))),
    {
        proof {
            reveal(LoopView::after_output);
        }
        match r {
            Err(message) => self.fail(
                step_failure(AttachStepKind::TerminalOutput, message),
                no_notes(),
            ),
            Ok(_) => match self.phase {
                AttachPhase::Painting(then) => self.painted(then),
                _ => self.absorb(),
            },
        }
    }

    fn after_suspend(&mut self, r: core::result::Result<(), String>) -> (step: AttachStep)
        ensures
            performs(step, final(self)@, old(self)@.after_suspend(host_result(r))),
    {
        proof {
            reveal(LoopView::after_suspend);
        }
        match r {
            Err(message) => self.refused(step_failure(AttachStepKind::Suspend, message)),
            Ok(_) => {
                self.host = HostTerminal::Suspended;
                self.ask(AttachPhase::StartClock, no_notes(), AttachRequest::Clock)
            },
        }
    }

    fn after_receive(
        &mut self,
        r: core::result::Result<Option<PtyFrame>, AttachFailure>,
    ) -> (step: AttachStep)
        requires
            old(self)@.frames_left > 0,
        ensures
            performs(
                step,
                final(self)@,
                old(self)@.after_receive(
                    match r {
                        Ok(Some(frame)) => Ok(Some(frame@)),
                        Ok(None) => Ok(None),
                        Err(failure) => Err(failure@),
                    },
                ),
            ),
    {
        proof {
            reveal(LoopView::after_receive);
        }
        match r {
            Err(failure) => self.fail(failure, no_notes()),
            Ok(None) => self.drained(no_notes()),
            Ok(Some(frame)) => self.take_frame(frame),
        }
    }

    fn after_feed(&mut self, r: core::result::Result<(), AttachFailure>) -> (step: AttachStep)
        ensures
            performs(step, final(self)@, old(self)@.after_feed(pane_result(r))),
    {
        proof {
            reveal(LoopView::after_feed);
        }
        match r {
            Err(failure) => self.fail(failure, no_notes()),
            Ok(_) => match self.phase {
                AttachPhase::Feeding => self.receive_more(no_notes()),
                _ => {
                    self.replay = Vec::new();
                    assert(self.replay@ =~= seq![]);
                    self.resize_back()
                },
            },
        }
    }

    fn after_render(
        &mut self,
        r: core::result::Result<Vec<u8>, AttachFailure>,
    ) -> (step: AttachStep)
        ensures
            performs(
                step,
                final(self)@,
                old(self)@.after_render(
                    match r {
                        Ok(bytes) => Ok(bytes@),
                        Err(failure) => Err(failure@),
                    },
                ),
            ),
    {
        proof {
            reveal(LoopView::after_render);
        }
        match r {
            Err(failure) => self.fail(failure, no_notes()),
            Ok(bytes) => {
                let phase = match self.phase {
                    AttachPhase::Rendering(then) => AttachPhase::Painting(then),
                    phase => phase,
                };
                self.ask(phase, no_notes(), AttachRequest::WriteOutput(bytes))
            },
        }
    }

    fn after_send(&mut self, r: core::result::Result<(), AttachFailure>) -> (step: AttachStep)
        ensures
            performs(step, final(self)@, old(self)@.after_send(pane_result(r))),
    {
        proof {
            reveal(LoopView::after_send);
        }
        match r {
            Err(failure) => self.fail(failure, no_notes()),
            Ok(_) => {
                let notes = one_note(AttachNote::InputSent(self.pending.len()));
                self.input_done(notes)
            },
        }
    }

    fn after_sleep(&mut self) -> (step: AttachStep)
        ensures
            performs(step, final(self)@, old(self)@.after_sleep()),
    {
        proof {
            reveal(LoopView::after_sleep);
        }
        match self.phase {
            AttachPhase::Sleeping => self.tick(no_notes()),
            _ => self.receive_first(no_notes()),
        }
    }

    /// Goes on with what came back from the last request.
    pub fn advance(&mut self, reply: AttachReply) -> (step: AttachStep)
        requires
            old(self)@.valid(),
            old(self)@.awaits(reply@),
        ensures
            performs(step, final(self)@, old(self)@.after(reply@)),
            final(self)@.valid(),
            step.notes@.len() <= 2,
    {
        proof {
            law_attach_loop_stays_valid(self@, reply@);
        }
        match reply {
            AttachReply::Size(r) => self.after_size(r),
            AttachReply::Input(r) => self.after_input(r),
            AttachReply::Output(r) => self.after_output(r),
            AttachReply::Suspended(r) => self.after_suspend(r),
            AttachReply::Restored(r) => self.after_restore(r),
            AttachReply::Clock(now) => self.after_clock(now),
            AttachReply::Slept => self.after_sleep(),
            AttachReply::Resized(r) => self.after_resize(r),
            AttachReply::Sent(r) => self.after_send(r),
            AttachReply::Received(r) => self.after_receive(r),
            AttachReply::Fed(r) => self.after_feed(r),
            AttachReply::Measured(content) => self.after_measure(content),
            AttachReply::Rendered(r) => self.after_render(r),
        }
    }
}

} // verus!
