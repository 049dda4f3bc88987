//! What a fullscreen attach does at each turn, told by what goes in and what
//! comes out: sizes, input, output, viewport, detaching and giving up.

use vstd::prelude::*;

use crate::attach::AttachState;
use crate::attach_error::{AttachStepKind, FailureView};
use crate::attach_plan::{
    AfterPaint, AttachPhase, HostTerminal, LoopView, NoteView, ReplyView, RequestView,
};
use crate::attach_viewport::{moved_by, split_controls, ContentRows};
use crate::command::{AttachOptions, AttachOutputPolicy, AttachResizePolicy};
use crate::detach::law_run_conserves_bytes;
use crate::detach_encoding::normalized;
use crate::event::DetachReason;
use crate::pane::Size;
use crate::pty::FrameView;
use crate::time::{Duration, Instant};

verus! {

/// An attach begins with the size of the terminal, which it keeps, and then
/// takes the terminal as its options say. Where the size cannot be told, the
/// attach is over and the terminal was never touched.
pub proof fn law_attach_begins(
    options: AttachOptions,
    managed: bool,
    embedded: Size,
    interval: Duration,
    size: Size,
    message: Seq<char>,
)
    ensures
        ({
            let first = LoopView::fresh(options, managed, embedded, interval).begun();
            let sized = first.state.after(ReplyView::Size(Ok(size)));
            let refused = first.state.after(ReplyView::Size(Err(message)));
            let failure = FailureView::Step { kind: AttachStepKind::TerminalSize, message };
            &&& first.request == RequestView::TerminalSize
            &&& first.notes.len() == 0
            &&& sized.request == RequestView::Suspend(options.screen)
            &&& sized.notes.len() == 0
            &&& sized.state.terminal_size == size
            &&& sized.state.embedded_size == embedded
            &&& sized.state.stage == AttachState::Attaching
            &&& refused.request == RequestView::Finished(Err(failure))
            &&& refused.notes == seq![NoteView::Failed(failure)]
            &&& refused.state.host == HostTerminal::Untouched
        }),
{
    reveal(LoopView::after_size);
    reveal(LoopView::refused);
}

/// Once the terminal is taken, the time is read, the attach is told of with the
/// size of the terminal, and the child is given that size, unless it keeps its
/// own. Then the viewport is shown where there is one. Where the terminal cannot
/// be taken, the attach is over.
pub proof fn law_attach_takes_hold(state: LoopView, now: Instant, message: Seq<char>)
    requires
        state.valid(),
        state.phase == AttachPhase::Suspending,
    ensures
        ({
            let taken = state.after(ReplyView::Suspended(Ok(())));
            let refused = state.after(ReplyView::Suspended(Err(message)));
            let started = taken.state.after(ReplyView::Clock(now));
            let resized = started.state.after(ReplyView::Resized(Ok(())));
            let failure = FailureView::Step { kind: AttachStepKind::Suspend, message };
            let size = state.terminal_size;
            let on = if state.managed {
                RequestView::Render { viewport: state.viewport, size }
            } else {
                RequestView::TerminalSize
            };
            &&& taken.request == RequestView::Clock
            &&& taken.notes.len() == 0
            &&& started.notes == seq![NoteView::Started { terminal_size: size }]
            &&& started.state.started_at == now
            &&& if state.options.resize == AttachResizePolicy::UseRealTerminalSize {
                &&& started.request == RequestView::Resize(size)
                &&& resized.request == on
                &&& resized.notes == seq![NoteView::Resized(size)]
                &&& resized.state.stage == AttachState::Attached
            } else {
                &&& started.request == on
                &&& started.state.stage == AttachState::Attached
            }
            &&& refused.request == RequestView::Finished(Err(failure))
            &&& refused.notes == seq![NoteView::Failed(failure)]
        }),
{
    reveal(LoopView::after_suspend);
    reveal(LoopView::refused);
    reveal(LoopView::after_clock);
    reveal(LoopView::started);
    reveal(LoopView::attached);
    reveal(LoopView::paint);
    reveal(LoopView::after_resize);
}

/// The attach keeps in step with the terminal: a size that is new is taken over,
/// the child is resized to it where it follows the terminal, and the viewport,
/// where there is one, is shown anew at that size. A size that is not new
/// changes nothing.
pub proof fn law_attach_follows_the_terminal(state: LoopView, size: Size)
    requires
        state.valid(),
        state.phase == AttachPhase::TickSize,
    ensures
        ({
            let next = state.after(ReplyView::Size(Ok(size)));
            let resized = next.state.after(ReplyView::Resized(Ok(())));
            let shown = if state.managed {
                RequestView::Render { viewport: state.viewport, size }
            } else {
                RequestView::ReadInput
            };
            &&& next.state.terminal_size == size
            &&& next.notes.len() == 0
            &&& if size == state.terminal_size {
                next.request == RequestView::ReadInput && next.state == (LoopView {
                    phase: next.state.phase,
                    ..state
                })
            } else if state.options.resize == AttachResizePolicy::UseRealTerminalSize {
                &&& next.request == RequestView::Resize(size)
                &&& resized.request == shown
                &&& resized.notes == seq![NoteView::Resized(size)]
                &&& resized.state.terminal_size == size
            } else {
                next.request == shown
            }
        }),
{
    reveal(LoopView::after_size);
    reveal(LoopView::read);
    reveal(LoopView::sized);
    reveal(LoopView::paint);
    reveal(LoopView::after_resize);
}

/// Whether a step leaves alone what the attach was told of its terminal, its
/// pane, its start and its child, and its viewport.
pub open spec fn keeps_facts(after: LoopView, before: LoopView) -> bool {
    keeps_told(after, before) && after.viewport == before.viewport
}

/// Whether a step leaves alone what the attach was told of its terminal, its
/// pane, its start and its child.
pub open spec fn keeps_told(after: LoopView, before: LoopView) -> bool {
    &&& after.terminal_size == before.terminal_size
    &&& after.embedded_size == before.embedded_size
    &&& after.options == before.options
    &&& after.managed == before.managed
    &&& after.poll_interval == before.poll_interval
    &&& after.started_at == before.started_at
    &&& after.exit_code == before.exit_code
    &&& after.matcher == before.matcher
}

proof fn lemma_turns_keep(state: LoopView, notes: Seq<NoteView>)
    ensures
        keeps_facts(state.tick(notes).state, state),
        keeps_facts(state.read(notes).state, state),
        keeps_facts(state.receive_first(notes).state, state),
        keeps_facts(state.restore(notes).state, state),
        forall|then: AfterPaint| keeps_facts(#[trigger] state.paint(then, notes).state, state),
        forall|reason: DetachReason| keeps_facts(#[trigger] state.detach(reason, notes).state, state),
        forall|failure: FailureView| keeps_facts(#[trigger] state.fail(failure, notes).state, state),
        forall|failure: FailureView| keeps_facts(#[trigger] state.refused(failure).state, state),
{
    reveal(LoopView::tick);
    reveal(LoopView::read);
    reveal(LoopView::paint);
    reveal(LoopView::receive_first);
    reveal(LoopView::detach);
    reveal(LoopView::restore);
    reveal(LoopView::fail);
    reveal(LoopView::refused);
}

proof fn lemma_ways_keep(state: LoopView, notes: Seq<NoteView>)
    ensures
        keeps_facts(state.sized(notes).state, state),
        keeps_facts(state.attached(notes).state, state),
        keeps_facts(state.drain(notes).state, state),
        keeps_facts(state.resize_back().state, state),
        keeps_facts(state.replay_held().state, state),
        keeps_facts(state.round_done(notes).state, state),
{
    reveal(LoopView::sized);
    reveal(LoopView::attached);
    reveal(LoopView::drain);
    reveal(LoopView::resize_back);
    reveal(LoopView::replay_held);
    reveal(LoopView::round_done);
    lemma_turns_keep(state, notes);
    lemma_turns_keep(state, seq![]);
    lemma_turns_keep(LoopView { stage: AttachState::Attached, ..state }, notes);
    lemma_turns_keep(LoopView { forward: true, ..state }, notes);
    lemma_turns_keep(LoopView { remaining: seq![], ..state }, notes);
}

proof fn lemma_rounds_keep(state: LoopView, notes: Seq<NoteView>)
    ensures
        keeps_facts(state.tick(notes).state, state),
        keeps_facts(state.read(notes).state, state),
        keeps_facts(state.sized(notes).state, state),
        keeps_facts(state.attached(notes).state, state),
        keeps_facts(state.receive_first(notes).state, state),
        keeps_facts(state.drain(notes).state, state),
        keeps_facts(state.round_done(notes).state, state),
        keeps_facts(state.drained(notes).state, state),
        keeps_facts(state.receive_more(notes).state, state),
        keeps_facts(state.input_done(notes).state, state),
        keeps_facts(state.send().state, state),
        keeps_facts(state.restore(notes).state, state),
        keeps_facts(state.resize_back().state, state),
        keeps_facts(state.replay_held().state, state),
        keeps_facts(state.absorb().state, state),
        forall|then: AfterPaint| keeps_facts(#[trigger] state.painted(then).state, state),
        forall|reason: DetachReason| keeps_facts(#[trigger] state.detach(reason, notes).state, state),
        forall|failure: FailureView| keeps_facts(#[trigger] state.fail(failure, notes).state, state),
        forall|failure: FailureView| keeps_facts(#[trigger] state.refused(failure).state, state),
{
    lemma_turns_keep(state, notes);
    lemma_ways_keep(state, notes);
    lemma_frames_keep(state, notes);
    lemma_frames_keep(state, seq![]);
    lemma_frames_keep(LoopView { replay: state.replay + state.pending, ..state }, seq![]);
    lemma_sending_keeps(state, notes);
    lemma_sending_keeps(state, seq![]);
    assert(keeps_facts(state.send().state, state)) by {
        reveal(LoopView::send);
    }
    assert(keeps_facts(state.absorb().state, state)) by {
        reveal(LoopView::absorb);
    }
    lemma_turns_keep(state, seq![]);
    lemma_ways_keep(state, seq![]);
    assert forall|then: AfterPaint| keeps_facts(#[trigger] state.painted(then).state, state) by {
        reveal(LoopView::painted);
    }
}

proof fn lemma_frames_keep(state: LoopView, notes: Seq<NoteView>)
    ensures
        keeps_facts(state.drained(notes).state, state),
        keeps_facts(state.receive_more(notes).state, state),
{
    reveal(LoopView::drained);
    reveal(LoopView::receive_more);
    lemma_ways_keep(
        LoopView { progress: state.progress || state.saw_output, ..state },
        notes,
    );
}

proof fn lemma_sending_keeps(state: LoopView, notes: Seq<NoteView>)
    ensures
        keeps_facts(state.input_done(notes).state, state),
{
    reveal(LoopView::input_done);
    let on = LoopView { progress: true, ..state };
    lemma_turns_keep(state, notes);
    lemma_turns_keep(on, notes);
    lemma_ways_keep(on, notes);
}

/// What an attach knows of its terminal is what the terminal told last, and
/// nothing else changes it: no reply but a size changes the size, no reply but
/// the first reading the start, and no reply but an exit the exit code, which is
/// the first that was told. Options and embedded size never change.
#[verifier::spinoff_prover]
#[verifier::rlimit(60)]
pub proof fn law_attach_knows_what_it_was_told(state: LoopView, reply: ReplyView)
    requires
        state.valid(),
        state.awaits(reply),
    ensures
        ({
            let next = state.after(reply).state;
            &&& next.options == state.options
            &&& next.managed == state.managed
            &&& next.embedded_size == state.embedded_size
            &&& next.poll_interval == state.poll_interval
            &&& next.terminal_size == match reply {
                ReplyView::Size(Ok(size)) => if state.phase == AttachPhase::ConfirmSize {
                    state.terminal_size
                } else {
                    size
                },
                _ => state.terminal_size,
            }
            &&& next.started_at == match reply {
                ReplyView::Clock(now) => if state.phase == AttachPhase::StartClock {
                    now
                } else {
                    state.started_at
                },
                _ => state.started_at,
            }
            &&& next.exit_code == match reply {
                ReplyView::Received(Ok(Some(FrameView::Exited(code)))) => if state.exit_code
                    is None {
                    code
                } else {
                    state.exit_code
                },
                _ => state.exit_code,
            }
            &&& !(reply is Measured) ==> next.viewport == state.viewport
        }),
{
    lemma_rounds_keep(state, seq![]);
    match reply {
        ReplyView::Size(r) => {
            reveal(LoopView::after_size);
            if let Ok(size) = r {
                let on = LoopView { terminal_size: size, progress: true, ..state };
                lemma_rounds_keep(on, seq![]);
            }
        },
        ReplyView::Input(r) => {
            reveal(LoopView::after_input);
            reveal(LoopView::sift);
            if let Ok(Some((at, bytes))) = r {
                let run = state.matcher.run(bytes, at);
                let on = LoopView {
                    matcher: crate::detach::MatcherView {
                        held: run.held,
                        times: run.times,
                        ..state.matcher
                    },
                    chord_seen: run.detached,
                    remaining: run.remaining,
                    ..state
                };
                let input = state.matcher.flushed(at) + run.forward;
                lemma_sift_keeps(on, input);
            }
        },
        ReplyView::Output(_) => {
            reveal(LoopView::after_output);
        },
        ReplyView::Suspended(_) => {
            reveal(LoopView::after_suspend);
        },
        ReplyView::Restored(_) => {
            reveal(LoopView::after_restore);
        },
        ReplyView::Clock(now) => {
            reveal(LoopView::after_clock);
            reveal(LoopView::started);
            reveal(LoopView::no_input);
            reveal(LoopView::drain_from);
            reveal(LoopView::drain_active);
            reveal(LoopView::drain_at);
            reveal(LoopView::ended);
            reveal(LoopView::aborted);
            lemma_rounds_keep(
                LoopView { started_at: now, ..state },
                seq![NoteView::Started { terminal_size: state.terminal_size }],
            );
            lemma_rounds_keep(
                LoopView { drain_started: now, last_activity: now, ..state },
                seq![],
            );
            lemma_sift_keeps(
                LoopView { matcher: state.matcher.settled(now), ..state },
                state.matcher.held,
            );
        },
        ReplyView::Slept => {
            reveal(LoopView::after_sleep);
        },
        ReplyView::Resized(_) => {
            reveal(LoopView::after_resize);
            let notes = seq![NoteView::Resized(state.terminal_size)];
            lemma_rounds_keep(state, notes);
            lemma_rounds_keep(
                LoopView { restored_size: true, ..state },
                seq![NoteView::Resized(state.embedded_size)],
            );
        },
        ReplyView::Sent(_) => {
            reveal(LoopView::after_send);
            lemma_rounds_keep(state, seq![NoteView::InputSent(state.pending.len())]);
        },
        ReplyView::Received(r) => {
            reveal(LoopView::after_receive);
            if let Ok(Some(frame)) = r {
                lemma_frame_keeps(state, frame);
            }
        },
        ReplyView::Fed(_) => {
            reveal(LoopView::after_feed);
            lemma_rounds_keep(LoopView { replay: seq![], ..state }, seq![]);
        },
        ReplyView::Measured(content) => {
            lemma_measure_keeps(state, content);
        },
        ReplyView::Rendered(_) => {
            reveal(LoopView::after_render);
        },
    }
}

proof fn lemma_sift_keeps(state: LoopView, input: Seq<u8>)
    ensures
        keeps_facts(state.sift(input).state, state),
{
    reveal(LoopView::sift);
    let parts = split_controls(input);
    lemma_rounds_keep(
        LoopView { pending: parts.0, actions: parts.1, viewport_changed: false, ..state },
        seq![],
    );
    lemma_rounds_keep(LoopView { pending: input, viewport_changed: false, ..state }, seq![]);
}

#[verifier::spinoff_prover]
#[verifier::rlimit(40)]
proof fn lemma_measure_keeps(state: LoopView, content: ContentRows)
    ensures
        keeps_told(state.after(ReplyView::Measured(content)).state, state),
{
    reveal(LoopView::after_measure);
    match state.phase {
        AttachPhase::InputMeasure => {
            reveal(LoopView::scrolled);
            let moved = moved_by(
                state.viewport,
                state.actions,
                content,
                state.terminal_size.rows as usize,
            );
            lemma_rounds_keep(
                LoopView { viewport: moved, viewport_changed: moved != state.viewport, ..state },
                seq![],
            );
        },
        AttachPhase::OutputMeasure => {
            reveal(LoopView::measured);
            lemma_turns_keep(
                LoopView {
                    before: state.over(content),
                    forward: state.over(content).effective_scroll_offset == 0,
                    ..state
                },
                seq![],
            );
        },
        AttachPhase::OutputRemeasure => {
            lemma_ways_keep(
                LoopView { viewport: state.viewport.clamped(state.over(content)), ..state },
                seq![],
            );
        },
        _ => {},
    }
}

proof fn lemma_frame_keeps(state: LoopView, frame: FrameView)
    ensures
        keeps_facts(
            LoopView { exit_code: state.exit_code, ..state.frame(frame).state },
            state,
        ),
        state.frame(frame).state.exit_code == match frame {
            FrameView::Exited(code) => if state.exit_code is None {
                code
            } else {
                state.exit_code
            },
            _ => state.exit_code,
        },
{
    reveal(LoopView::frame);
    reveal(LoopView::output);
    reveal(LoopView::exited);
    let on = state.took_frame();
    match frame {
        FrameView::Output(bytes) => {
            lemma_rounds_keep(LoopView { pending: bytes, ..on }, seq![]);
        },
        FrameView::Exited(code) => {
            lemma_rounds_keep(
                LoopView {
                    exit_code: if on.exit_code is None {
                        code
                    } else {
                        on.exit_code
                    },
                    child_exited: true,
                    ..on
                },
                seq![NoteView::ChildExited(code)],
            );
        },
        FrameView::Error(message) => {
            lemma_rounds_keep(on, seq![NoteView::ChildFault(message)]);
        },
        FrameView::Overflow { dropped_frames, dropped_bytes } => {
            lemma_rounds_keep(on, seq![NoteView::OutputLost { dropped_frames, dropped_bytes }]);
        },
        FrameView::CursorPositionRequest => {
            lemma_rounds_keep(on, seq![]);
        },
    }
}

/// What was rendered is written to the terminal as it is, and then the attach
/// goes on where it was.
pub proof fn law_rendered_bytes_are_shown(state: LoopView, bytes: Seq<u8>, then: AfterPaint)
    requires
        state.valid(),
        state.managed,
        state.phase == AttachPhase::Rendering(then),
    ensures
        ({
            let painting = state.after(ReplyView::Rendered(Ok(bytes)));
            let painted = painting.state.after(ReplyView::Output(Ok(())));
            &&& painting.request == RequestView::WriteOutput(bytes)
            &&& painting.notes.len() == 0 && painted.notes.len() == 0
            &&& painted.request == match then {
                AfterPaint::Tick => RequestView::TerminalSize,
                AfterPaint::Read => RequestView::ReadInput,
                AfterPaint::Drain => RequestView::Measure,
            }
        }),
{
    reveal(LoopView::after_render);
    reveal(LoopView::after_output);
    reveal(LoopView::painted);
    reveal(LoopView::tick);
    reveal(LoopView::read);
    reveal(LoopView::drain);
}

/// What is typed reaches the child: of what was held back and what was typed,
/// all is sent in order, but for a beginning of the chord that is held on to, or
/// the chord and what follows it, which is kept for the host. A managed attach
/// takes the viewport controls out of what it sends.
pub proof fn law_typed_input_is_sent(state: LoopView, at: Instant, bytes: Seq<u8>)
    requires
        state.valid(),
        state.phase == AttachPhase::Reading,
    ensures
        ({
            let next = state.after(ReplyView::Input(Ok(Some((at, bytes)))));
            let chord = state.matcher.chord;
            let typed = state.matcher.held + normalized(bytes, chord);
            &&& next.notes.len() == 0
            &&& exists|stream: Seq<u8>|
                {
                    &&& if next.state.chord_seen {
                        (#[trigger] (stream + chord)) + normalized(next.state.remaining, chord)
                            == typed
                    } else {
                        stream + next.state.matcher.held == typed
                    }
                    &&& state.managed ==> {
                        &&& next.state.pending == split_controls(stream).0
                        &&& next.state.actions == split_controls(stream).1
                        &&& next.state.actions.len() > 0 ==> next.request == RequestView::Measure
                    }
                    &&& !state.managed ==> next.state.pending == stream
                }
            &&& next.state.pending.len() > 0 && !(next.request is Measure && state.managed)
                ==> next.request == RequestView::SendInput(next.state.pending)
        }),
{
    reveal(LoopView::after_input);
    reveal(LoopView::sift);
    reveal(LoopView::send);
    reveal(LoopView::input_done);
    reveal(LoopView::paint);
    reveal(LoopView::drain);
    reveal(LoopView::receive_first);
    reveal(LoopView::detach);
    let settled = state.matcher.settled(at);
    let chord = state.matcher.chord;
    let run = state.matcher.run(bytes, at);
    assert(Seq::<u8>::empty() =~= chord.take(0));
    law_run_conserves_bytes(settled.held, settled.times, bytes, chord, at);
    let stream = state.matcher.flushed(at) + run.forward;
    let clean = normalized(bytes, chord);
    assert(state.matcher.flushed(at) + settled.held =~= state.matcher.held);
    if run.detached {
        assert((stream + chord) + normalized(run.remaining, chord) =~= state.matcher.flushed(at) + (
        run.forward + chord + normalized(run.remaining, chord)));
    } else {
        assert(stream + run.held =~= state.matcher.flushed(at) + (run.forward + run.held));
        assert(stream + chord == stream + chord);
    }
    assert(state.matcher.flushed(at) + (settled.held + clean) =~= state.matcher.held + clean);
}

/// Viewport controls move the viewport by what they ask for, over the content
/// that is there and in a window as high as the terminal, and what was typed
/// besides them goes to the child.
pub proof fn law_controls_move_the_viewport(state: LoopView, content: ContentRows)
    requires
        state.valid(),
        state.phase == AttachPhase::InputMeasure,
    ensures
        ({
            let next = state.after(ReplyView::Measured(content));
            let moved = moved_by(
                state.viewport,
                state.actions,
                content,
                state.terminal_size.rows as usize,
            );
            &&& next.state.viewport == moved
            &&& state.pending.len() > 0 ==> next.request == RequestView::SendInput(state.pending)
            &&& state.pending.len() == 0 && !state.chord_seen && moved != state.viewport
                ==> next.request == (RequestView::Render {
                viewport: moved,
                size: state.terminal_size,
            })
        }),
{
    reveal(LoopView::after_measure);
    reveal(LoopView::scrolled);
    reveal(LoopView::send);
    reveal(LoopView::input_done);
    reveal(LoopView::paint);
    reveal(LoopView::drain);
    reveal(LoopView::receive_first);
    reveal(LoopView::detach);
}

/// Input that was sent is told of by its length. Then the attach detaches if the
/// chord was typed, shows the viewport if it moved, and goes on to the child's
/// output otherwise.
pub proof fn law_sent_input_is_told_of(state: LoopView)
    requires
        state.valid(),
        state.phase == AttachPhase::Sending,
    ensures
        ({
            let next = state.after(ReplyView::Sent(Ok(())));
            &&& next.notes == seq![NoteView::InputSent(state.pending.len())]
            &&& next.state.detaching == state.chord_seen
            &&& if state.chord_seen {
                &&& next.state.reason == DetachReason::UserChord
                &&& next.state.stage == AttachState::Detaching
                &&& next.state.remaining == state.remaining
                &&& next.request == if state.managed {
                    RequestView::Measure
                } else {
                    RequestView::Clock
                }
            } else if state.viewport_changed {
                next.request == (RequestView::Render {
                    viewport: state.viewport,
                    size: state.terminal_size,
                })
            } else {
                next.request == if state.managed {
                    RequestView::Measure
                } else {
                    RequestView::Receive
                }
            }
        }),
{
    reveal(LoopView::after_send);
    reveal(LoopView::input_done);
    reveal(LoopView::paint);
    reveal(LoopView::drain);
    reveal(LoopView::receive_first);
    reveal(LoopView::detach);
}

/// A beginning of the chord that was held for too long goes to the child after
/// all; one that was not is held on to.
pub proof fn law_partial_chords_expire(state: LoopView, now: Instant)
    requires
        state.valid(),
        state.phase == AttachPhase::InputClock,
        state.matcher.held.len() > 0,
    ensures
        ({
            let next = state.after(ReplyView::Clock(now));
            let held = state.matcher.held;
            let age = if now.nanos >= state.matcher.times[0].nanos {
                now.nanos - state.matcher.times[0].nanos
            } else {
                0
            };
            if age >= state.matcher.timeout.nanos {
                &&& next.state.matcher.held.len() == 0
                &&& !state.managed ==> next.request == RequestView::SendInput(held)
                &&& state.managed ==> next.state.pending == split_controls(held).0
                    && next.state.actions == split_controls(held).1
            } else {
                next.state.matcher == state.matcher && !(next.request is SendInput)
            }
        }),
{
    reveal(LoopView::after_clock);
    reveal(LoopView::no_input);
    reveal(LoopView::sift);
    reveal(LoopView::send);
    reveal(LoopView::input_done);
    reveal(LoopView::paint);
    reveal(LoopView::drain);
    reveal(LoopView::receive_first);
    reveal(LoopView::detach);
}

/// Where nothing was typed the time is read, and where nothing is held on to
/// the attach goes on to the child's output.
pub proof fn law_no_input_is_passed_over(state: LoopView, now: Instant)
    requires
        state.valid(),
        state.phase == AttachPhase::Reading,
        state.matcher.held.len() == 0,
    ensures
        ({
            let asked = state.after(ReplyView::Input(Ok(None)));
            let next = asked.state.after(ReplyView::Clock(now));
            &&& asked.request == RequestView::Clock
            &&& next.request == if state.managed {
                RequestView::Measure
            } else {
                RequestView::Receive
            }
            &&& asked.notes.len() == 0 && next.notes.len() == 0
        }),
{
    reveal(LoopView::after_input);
    reveal(LoopView::after_clock);
    reveal(LoopView::no_input);
    reveal(LoopView::drain);
    reveal(LoopView::receive_first);
}

/// Output goes to the terminal while the viewport shows the last rows, and not
/// while it is scrolled away from them; an attach without a viewport always
/// shows it. A round takes frames anew.
pub proof fn law_output_is_shown_at_the_tail(state: LoopView, content: ContentRows)
    requires
        state.valid(),
        state.phase == AttachPhase::OutputMeasure,
    ensures
        ({
            let next = state.after(ReplyView::Measured(content));
            let shown = content.under(state.viewport, state.terminal_size.rows as usize);
            &&& next.request == RequestView::Receive
            &&& next.state.forward == (shown.effective_scroll_offset == 0)
            &&& next.state.viewport == state.viewport
            &&& next.state.frames_left == 32
            &&& !next.state.saw_output && !next.state.child_exited
        }),
{
    reveal(LoopView::after_measure);
    reveal(LoopView::measured);
    reveal(LoopView::receive_first);
}

/// What each frame leads to besides output: an exit is told of and ends the
/// round of a managed attach in a detach; a fault of the child fails the attach;
/// lost output is told of. Each frame counts as progress.
pub proof fn law_frames_are_told_of(state: LoopView, frame: FrameView)
    requires
        state.valid(),
        state.phase == AttachPhase::Receiving,
        state.frames_left > 1,
    ensures
        ({
            let next = state.after(ReplyView::Received(Ok(Some(frame))));
            let failure = |message: Seq<char>|
                FailureView::Step { kind: AttachStepKind::PtyRuntime, message };
            match frame {
                FrameView::Output(_) => next.notes.len() == 0,
                FrameView::Exited(code) => {
                    &&& next.notes == seq![NoteView::ChildExited(code)]
                    &&& next.request == RequestView::Receive
                    &&& next.state.child_exited && next.state.saw_output
                    &&& next.state.frames_left == state.frames_left - 1
                },
                FrameView::Error(message) => {
                    &&& next.notes == seq![
                        NoteView::ChildFault(message),
                        NoteView::Failed(failure(message)),
                    ]
                    &&& next.state.failure == Some(failure(message))
                },
                FrameView::Overflow { dropped_frames, dropped_bytes } => {
                    &&& next.notes == seq![NoteView::OutputLost { dropped_frames, dropped_bytes }]
                    &&& next.request == RequestView::Receive
                    &&& next.state.saw_output
                },
                FrameView::CursorPositionRequest => {
                    &&& next.notes.len() == 0
                    &&& next.request == RequestView::Receive
                    &&& next.state.saw_output
                },
            }
        }),
{
    reveal(LoopView::after_receive);
    reveal(LoopView::frame);
    reveal(LoopView::output);
    reveal(LoopView::absorb);
    reveal(LoopView::exited);
    reveal(LoopView::receive_more);
    reveal(LoopView::fail);
    if let FrameView::Error(message) = frame {
        let failure = FailureView::Step { kind: AttachStepKind::PtyRuntime, message };
        assert(seq![NoteView::ChildFault(message)].push(NoteView::Failed(failure)) =~= seq![
            NoteView::ChildFault(message),
            NoteView::Failed(failure),
        ]);
    }
}

/// Once the child has no more frames, a managed attach whose child exited
/// detaches; an attach that took in or sent nothing in this round waits for its
/// interval; any other starts the next round. Output that was not shown has the
/// viewport measured first.
pub proof fn law_rounds_end(state: LoopView)
    requires
        state.valid(),
        state.phase == AttachPhase::Receiving,
        !state.detaching,
    ensures
        ({
            let next = state.after(ReplyView::Received(Ok(None)));
            &&& next.notes.len() == 0
            &&& if state.managed && !state.forward && state.saw_output {
                next.request == RequestView::Measure && !next.state.detaching
            } else if state.managed && state.child_exited {
                &&& next.state.detaching
                &&& next.state.reason == DetachReason::ChildExited
                &&& next.state.remaining.len() == 0
                &&& next.request == RequestView::Measure
            } else if state.progress || state.saw_output {
                next.request == RequestView::TerminalSize && !next.state.detaching
            } else {
                next.request == RequestView::Sleep(state.poll_interval) && !next.state.detaching
            }
        }),
{
    reveal(LoopView::after_receive);
    reveal(LoopView::drained);
    reveal(LoopView::round_done);
    reveal(LoopView::tick);
    reveal(LoopView::detach);
}

/// After output that was not shown, the viewport is kept within the content, and
/// the round ends as any other.
pub proof fn law_viewports_are_kept_within(state: LoopView, content: ContentRows)
    requires
        state.valid(),
        state.phase == AttachPhase::OutputRemeasure,
        state.managed,
    ensures
        ({
            let next = state.after(ReplyView::Measured(content));
            let visible = state.terminal_size.rows as usize;
            &&& content.under(next.state.viewport, visible) == content.under(
                state.viewport,
                visible,
            )
            &&& next.state.viewport.follow_tail == (state.viewport.follow_tail || content.under(
                state.viewport,
                visible,
            ).effective_scroll_offset == 0)
            &&& next.state.detaching == state.child_exited
            &&& !state.child_exited ==> next.request == if state.progress {
                RequestView::TerminalSize
            } else {
                RequestView::Sleep(state.poll_interval)
            }
        }),
{
    reveal(LoopView::after_measure);
    reveal(LoopView::round_done);
    reveal(LoopView::tick);
    reveal(LoopView::detach);
}

/// A pause is over when it is over: a round begins, or the child is looked at
/// again while the attach detaches.
pub proof fn law_pauses_end(state: LoopView)
    requires
        state.valid(),
        state.phase == AttachPhase::Sleeping || state.phase == AttachPhase::DrainSleep,
    ensures
        ({
            let next = state.after(ReplyView::Slept);
            &&& next.notes.len() == 0
            &&& next.request == if state.detaching {
                RequestView::Receive
            } else {
                RequestView::TerminalSize
            }
        }),
{
    reveal(LoopView::after_sleep);
    reveal(LoopView::tick);
    reveal(LoopView::receive_first);
}

/// A detach takes in what the child still puts out: it waits until the child has
/// been quiet for a fifth of a second, but two seconds at most, and looks again
/// after each pause until then. Output that comes starts the quiet anew.
pub proof fn law_detach_waits_for_quiet(state: LoopView, now: Instant)
    requires
        state.valid(),
        state.phase == AttachPhase::DrainStart || state.phase == AttachPhase::DrainActivity
            || state.phase == AttachPhase::DrainNow,
    ensures
        ({
            let next = state.after(ReplyView::Clock(now));
            let quiet: int = if now.nanos >= state.last_activity.nanos {
                now.nanos - state.last_activity.nanos
            } else {
                0
            };
            let waited: int = if now.nanos >= state.drain_started.nanos {
                now.nanos - state.drain_started.nanos
            } else {
                0
            };
            &&& next.notes.len() == 0
            &&& state.phase == AttachPhase::DrainStart ==> {
                &&& next.state.drain_started == now
                &&& next.state.last_activity == now
                &&& next.request == RequestView::Receive
            }
            &&& state.phase == AttachPhase::DrainActivity ==> {
                &&& next.state.drain_started == state.drain_started
                &&& next.state.last_activity == now
                &&& next.request == RequestView::Clock
                &&& next.state.phase == AttachPhase::DrainNow
            }
            &&& state.phase == AttachPhase::DrainNow ==> {
                let held = state.options.output == AttachOutputPolicy::StdoutOnlyThenReplay
                    && state.replay.len() > 0;
                if quiet < 200_000_000 && waited < 2_000_000_000 {
                    next.request == RequestView::Sleep(state.poll_interval)
                } else if held {
                    next.request == RequestView::Feed(state.replay)
                } else if state.options.resize == AttachResizePolicy::UseRealTerminalSize {
                    next.request == RequestView::Resize(state.embedded_size)
                } else {
                    next.request == RequestView::Restore
                }
            }
        }),
{
    reveal(LoopView::after_clock);
    reveal(LoopView::drain_from);
    reveal(LoopView::drain_active);
    reveal(LoopView::drain_at);
    reveal(LoopView::receive_first);
    reveal(LoopView::replay_held);
    reveal(LoopView::resize_back);
    reveal(LoopView::restore);
}

/// While an attach detaches, the child's output is taken in as before, and then
/// the time is read; output that came counts from that reading.
pub proof fn law_detach_takes_output_in(state: LoopView, content: ContentRows)
    requires
        state.valid(),
        state.detaching,
        state.phase == AttachPhase::Receiving || state.phase == AttachPhase::DetachMeasure,
    ensures
        state.phase == AttachPhase::Receiving ==> ({
            let next = state.after(ReplyView::Received(Ok(None)));
            &&& next.request == RequestView::Clock
            &&& next.state.phase == if state.saw_output {
                AttachPhase::DrainActivity
            } else {
                AttachPhase::DrainNow
            }
        }),
        state.phase == AttachPhase::DetachMeasure ==> ({
            let next = state.after(ReplyView::Measured(content));
            let shown = content.under(state.viewport, state.terminal_size.rows as usize);
            &&& next.request == RequestView::Clock
            &&& next.state.phase == AttachPhase::DrainStart
            &&& next.state.forward == (shown.effective_scroll_offset == 0)
            &&& next.state.viewport == state.viewport
        }),
{
    reveal(LoopView::after_receive);
    reveal(LoopView::drained);
    reveal(LoopView::after_measure);
}

/// A detach gives everything back: what was held back is fed, the child gets the
/// size it had embedded if it followed the terminal, the terminal is restored,
/// and the attach is over with why it ended, the exit that was seen, the size of
/// the terminal, the embedded size and what was typed behind the chord. Its end
/// is told of with how long it lasted.
pub proof fn law_detach_gives_back(state: LoopView, now: Instant)
    requires
        state.valid(),
        state.phase == AttachPhase::Replaying || state.phase == AttachPhase::DetachResize
            || state.phase == AttachPhase::Restoring || state.phase == AttachPhase::EndClock,
    ensures
        state.phase == AttachPhase::Replaying ==> ({
            let next = state.after(ReplyView::Fed(Ok(())));
            &&& next.state.replay.len() == 0
            &&& next.request == if state.options.resize == AttachResizePolicy::UseRealTerminalSize {
                RequestView::Resize(state.embedded_size)
            } else {
                RequestView::Restore
            }
        }),
        state.phase == AttachPhase::DetachResize ==> ({
            let next = state.after(ReplyView::Resized(Ok(())));
            &&& next.notes == seq![NoteView::Resized(state.embedded_size)]
            &&& next.request == RequestView::Restore
            &&& next.state.restored_size
        }),
        state.phase == AttachPhase::Restoring ==> ({
            let next = state.after(ReplyView::Restored(Ok(())));
            &&& next.request == RequestView::Clock
            &&& next.state.stage == AttachState::Embedded
            &&& next.state.host == HostTerminal::Restored
            &&& next.state.phase == AttachPhase::EndClock
        }),
        state.phase == AttachPhase::EndClock ==> ({
            let next = state.after(ReplyView::Clock(now));
            &&& next.request matches RequestView::Finished(Ok(outcome)) && {
                &&& outcome.reason == state.reason
                &&& outcome.child_exit_code == state.exit_code
                &&& outcome.terminal_size == state.terminal_size
                &&& outcome.restored_size == state.embedded_size
                &&& outcome.remaining_input == state.remaining
            }
            &&& next.notes == seq![
                NoteView::Ended {
                    reason: state.reason,
                    nanos: if now.nanos >= state.started_at.nanos {
                        now.nanos - state.started_at.nanos
                    } else {
                        0
                    },
                },
            ]
        }),
{
    reveal(LoopView::after_feed);
    reveal(LoopView::resize_back);
    reveal(LoopView::restore);
    reveal(LoopView::after_resize);
    reveal(LoopView::after_restore);
    reveal(LoopView::after_clock);
    reveal(LoopView::ended);
}

/// The failure that a reply tells of, if it tells of one.
pub open spec fn told_failure(reply: ReplyView) -> Option<FailureView> {
    match reply {
        ReplyView::Size(Err(message)) => Some(
            FailureView::Step { kind: AttachStepKind::TerminalSize, message },
        ),
        ReplyView::Input(Err(message)) => Some(
            FailureView::Step { kind: AttachStepKind::TerminalInput, message },
        ),
        ReplyView::Output(Err(message)) => Some(
            FailureView::Step { kind: AttachStepKind::TerminalOutput, message },
        ),
        ReplyView::Restored(Err(message)) => Some(
            FailureView::Step { kind: AttachStepKind::Restore, message },
        ),
        ReplyView::Resized(Err(failure)) => Some(failure),
        ReplyView::Sent(Err(failure)) => Some(failure),
        ReplyView::Received(Err(failure)) => Some(failure),
        ReplyView::Fed(Err(failure)) => Some(failure),
        ReplyView::Rendered(Err(failure)) => Some(failure),
        _ => None,
    }
}

/// A step that fails is told of, and the attach gives up for that reason: the
/// child gets its embedded size back, unless it kept it or has it already, and
/// the terminal is restored.
pub proof fn law_failed_steps_give_up(state: LoopView, reply: ReplyView)
    requires
        state.valid(),
        state.awaits(reply),
        told_failure(reply) is Some,
        state.host == HostTerminal::Suspended,
        state.phase != AttachPhase::AbortResize,
        state.phase != AttachPhase::AbortRestore,
        state.phase != AttachPhase::AbortRetry,
    ensures
        ({
            let next = state.after(reply);
            let failure = told_failure(reply)->0;
            &&& next.notes == seq![NoteView::Failed(failure)]
            &&& next.state.failure == Some(failure)
            &&& next.request == if state.options.resize == AttachResizePolicy::UseRealTerminalSize
                && !state.restored_size {
                RequestView::Resize(state.embedded_size)
            } else {
                RequestView::Restore
            }
            &&& next.state.phase == if state.options.resize
                == AttachResizePolicy::UseRealTerminalSize && !state.restored_size {
                AttachPhase::AbortResize
            } else {
                AttachPhase::AbortRestore
            }
        }),
{
    reveal(LoopView::after_size);
    reveal(LoopView::after_input);
    reveal(LoopView::after_output);
    reveal(LoopView::after_restore);
    reveal(LoopView::after_resize);
    reveal(LoopView::after_send);
    reveal(LoopView::after_receive);
    reveal(LoopView::after_feed);
    reveal(LoopView::after_render);
    reveal(LoopView::fail);
    let failure = told_failure(reply)->0;
    assert(Seq::<NoteView>::empty().push(NoteView::Failed(failure)) =~= seq![
        NoteView::Failed(failure),
    ]);
}

/// An attach that gives up restores the terminal whatever becomes of the size,
/// tries that twice, tells of each further failure, and ends with what it first
/// failed of. Its end is told of as an error, but as the chord where an attach
/// without a manager had begun to detach.
pub proof fn law_giving_up_gives_back(state: LoopView, reply: ReplyView)
    requires
        state.valid(),
        state.awaits(reply),
        state.phase == AttachPhase::AbortResize || state.phase == AttachPhase::AbortRestore
            || state.phase == AttachPhase::AbortRetry || state.phase == AttachPhase::AbortClock,
    ensures
        ({
            let next = state.after(reply);
            &&& next.state.failure == state.failure
            &&& state.phase == AttachPhase::AbortResize ==> {
                &&& next.request == RequestView::Restore
                &&& next.notes == match reply {
                    ReplyView::Resized(Err(failure)) => seq![NoteView::Failed(failure)],
                    _ => seq![NoteView::Resized(state.embedded_size)],
                }
            }
            &&& state.phase == AttachPhase::AbortRestore || state.phase == AttachPhase::AbortRetry
                ==> match reply {
                ReplyView::Restored(Err(message)) => {
                    &&& next.notes == seq![
                        NoteView::Failed(
                            FailureView::Step { kind: AttachStepKind::Restore, message },
                        ),
                    ]
                    &&& next.request == if state.phase == AttachPhase::AbortRestore {
                        RequestView::Restore
                    } else {
                        RequestView::Clock
                    }
                },
                _ => next.request == RequestView::Clock && next.notes.len() == 0
                    && next.state.host == HostTerminal::Restored,
            }
            &&& state.phase == AttachPhase::AbortClock ==> {
                &&& reply matches ReplyView::Clock(now) && next.notes == seq![
                    NoteView::Ended {
                        reason: if !state.managed && state.detaching {
                            DetachReason::UserChord
                        } else {
                            DetachReason::Error
                        },
                        nanos: if now.nanos >= state.started_at.nanos {
                            now.nanos - state.started_at.nanos
                        } else {
                            0
                        },
                    },
                ]
                &&& next.request == RequestView::Finished(Err(state.failure->0))
            }
        }),
{
    reveal(LoopView::after_resize);
    reveal(LoopView::after_restore);
    reveal(LoopView::after_clock);
    reveal(LoopView::aborted);
}

} // verus!
