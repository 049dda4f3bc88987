//! How attach loops keep account of child output.
//!
//! Output that a loop takes in is owed to the surface until it was fed. The
//! account says that nothing is lost, repeated or put out of order on the way.

use vstd::prelude::*;

use crate::attach::AttachState;
use crate::attach_error::FailureView;
use crate::attach_plan::{
    AfterPaint, AttachPhase, LoopStep, LoopView, NoteView, ReplyView, RequestView,
};
use crate::attach_viewport::{moved_by, split_controls, ContentRows};
use crate::command::AttachOutputPolicy;
use crate::detach::MatcherView;
use crate::event::DetachReason;
use crate::pty::FrameView;
use crate::time::Instant;

verus! {

impl LoopView {
    /// Output that the loop has taken in and not handed on to the surface yet,
    /// in the order in which it came.
    pub open spec fn owed(self) -> Seq<u8> {
        if self.phase == AttachPhase::Writing || self.phase == AttachPhase::Feeding {
            self.replay + self.pending
        } else {
            self.replay
        }
    }

    /// What the loop hands to the surface in the phase that it is in.
    pub open spec fn handed(self) -> Seq<u8> {
        match self.phase {
            AttachPhase::Feeding => self.pending,
            AttachPhase::Replaying => self.replay,
            _ => seq![],
        }
    }

    /// Whether the loop has not failed and keeps account of output: output is
    /// held back only where the surface is fed on detach, and none is once that
    /// was done.
    pub open spec fn accounts(self) -> bool {
        &&& self.failure is None
        &&& self.options.output == AttachOutputPolicy::FanoutToSurfaceAndStdout
            ==> self.replay.len() == 0
        &&& self.phase == AttachPhase::Feeding ==> self.options.output
            == AttachOutputPolicy::FanoutToSurfaceAndStdout
        &&& self.phase == AttachPhase::DetachResize || self.phase == AttachPhase::Restoring
            || self.phase == AttachPhase::EndClock || self.phase == AttachPhase::Done
            ==> self.replay.len() == 0
    }
}

/// The output that a reply brings.
pub open spec fn brought(reply: ReplyView) -> Seq<u8> {
    match reply {
        ReplyView::Received(Ok(Some(FrameView::Output(bytes)))) => bytes,
        _ => seq![],
    }
}

/// The output that a reply says was fed to the surface.
pub open spec fn taken(state: LoopView, reply: ReplyView) -> Seq<u8> {
    match reply {
        ReplyView::Fed(Ok(_)) => state.handed(),
        _ => seq![],
    }
}

/// Whether a loop that failed is undoing what it did, or is done.
pub open spec fn undoes(state: LoopView) -> bool {
    &&& state.failure is Some
    &&& match state.phase {
        AttachPhase::AbortResize | AttachPhase::AbortRestore | AttachPhase::AbortRetry
        | AttachPhase::AbortClock | AttachPhase::Done => true,
        _ => false,
    }
}

/// Whether a loop gives up: it undoes what it did, and does not end well.
pub open spec fn gives_up(state: LoopView, request: RequestView) -> bool {
    undoes(state) && (request matches RequestView::Finished(r) ==> r is Err)
}

/// Whether a step fails, or keeps account and then owes this.
pub open spec fn balanced(step: LoopStep, owed: Seq<u8>) -> bool {
    ||| gives_up(step.state, step.request)
    ||| {
        &&& step.state.accounts()
        &&& step.state.owed() == owed
        &&& step.request matches RequestView::Feed(bytes) ==> bytes == step.state.handed() && (
        step.state.phase == AttachPhase::Feeding || step.state.phase == AttachPhase::Replaying)
        &&& step.request is Finished ==> step.state.phase == AttachPhase::Done
    }
}

/// Whether nothing has failed, and output is held back only where the surface
/// is fed on detach.
pub open spec fn between_frames(state: LoopView) -> bool {
    &&& state.failure is None
    &&& state.options.output == AttachOutputPolicy::FanoutToSurfaceAndStdout
        ==> state.replay.len() == 0
}

/// Whether a phase is one of the end of an attach that went well.
pub open spec fn closing(phase: AttachPhase) -> bool {
    match phase {
        AttachPhase::DetachResize | AttachPhase::Restoring | AttachPhase::EndClock
        | AttachPhase::Done => true,
        _ => false,
    }
}

/// Whether a step keeps account and the loop goes on.
pub open spec fn goes_round(step: LoopStep, from: LoopView, owed: Seq<u8>) -> bool {
    &&& balanced(step, owed)
    &&& gives_up(step.state, step.request) || {
        &&& !closing(step.state.phase)
        &&& step.state.options == from.options
        &&& step.state.embedded_size == from.embedded_size
    }
}

/// Whether a step that does not fail comes to the end in order: the child is
/// given its embedded size back, if it followed the terminal, then the terminal
/// is restored, and then the attach is over.
pub open spec fn closes_in_order(step: LoopStep, from: LoopView, reply: ReplyView) -> bool {
    gives_up(step.state, step.request) || {
        &&& step.state.options == from.options
        &&& step.state.embedded_size == from.embedded_size
        &&& match step.state.phase {
            AttachPhase::DetachResize => step.request == RequestView::Resize(from.embedded_size),
            AttachPhase::Restoring => from.follows_terminal() ==> from.phase
                == AttachPhase::DetachResize && reply matches ReplyView::Resized(Ok(_)),
            AttachPhase::EndClock => from.phase == AttachPhase::Restoring,
            AttachPhase::Done => from.phase == AttachPhase::EndClock,
            _ => true,
        }
    }
}

proof fn lemma_rounds_balance(state: LoopView, notes: Seq<NoteView>)
    requires
        between_frames(state),
    ensures
        goes_round(state.tick(notes), state, state.replay),
        goes_round(state.read(notes), state, state.replay),
        goes_round(state.sized(notes), state, state.replay),
        forall|then: AfterPaint| goes_round(#[trigger] state.paint(then, notes), state, state.replay),
        goes_round(state.detach(DetachReason::ChildExited, notes), state, state.replay),
        goes_round(state.detach(DetachReason::UserChord, notes), state, state.replay),
        goes_round(state.round_done(notes), state, state.replay),
        goes_round(state.drained(notes), state, state.replay),
        goes_round(state.receive_first(notes), state, state.replay),
        goes_round(state.receive_more(notes), state, state.replay),
        goes_round(state.drain(notes), state, state.replay),
{
    reveal(LoopView::tick);
    reveal(LoopView::read);
    reveal(LoopView::sized);
    reveal(LoopView::paint);
    reveal(LoopView::detach);
    reveal(LoopView::round_done);
    reveal(LoopView::drained);
    reveal(LoopView::receive_first);
    reveal(LoopView::receive_more);
    reveal(LoopView::drain);
}

proof fn lemma_input_done_balances(state: LoopView, notes: Seq<NoteView>)
    requires
        between_frames(state),
    ensures
        goes_round(state.input_done(notes), state, state.replay),
{
    reveal(LoopView::input_done);
    lemma_rounds_balance(state, notes);
    lemma_rounds_balance(LoopView { progress: true, ..state }, notes);
}

proof fn lemma_send_balances(state: LoopView)
    requires
        between_frames(state),
    ensures
        goes_round(state.send(), state, state.replay),
{
    reveal(LoopView::send);
    lemma_input_done_balances(state, seq![]);
}

proof fn lemma_input_balances(state: LoopView, notes: Seq<NoteView>, input: Seq<u8>)
    requires
        between_frames(state),
    ensures
        goes_round(state.input_done(notes), state, state.replay),
        goes_round(state.send(), state, state.replay),
        goes_round(state.sift(input), state, state.replay),
{
    reveal(LoopView::sift);
    lemma_input_done_balances(state, notes);
    lemma_send_balances(state);
    let parts = split_controls(input);
    let held = LoopView { pending: parts.0, actions: parts.1, ..state };
    lemma_send_balances(LoopView { viewport_changed: false, ..held });
    lemma_send_balances(LoopView { pending: input, viewport_changed: false, ..state });
}

proof fn lemma_frames_balance(state: LoopView, frame: FrameView)
    requires
        between_frames(state),
    ensures
        goes_round(
            state.frame(frame),
            state,
            state.replay + brought(ReplyView::Received(Ok(Some(frame)))),
        ),
{
    reveal(LoopView::frame);
    reveal(LoopView::output);
    reveal(LoopView::exited);
    reveal(LoopView::fail);
    let on = state.took_frame();
    let nothing = Seq::<u8>::empty();
    assert(state.replay + nothing =~= state.replay);
    match frame {
        FrameView::Output(bytes) => {
            let held = LoopView { pending: bytes, ..on };
            lemma_absorbing_balances(held);
        },
        FrameView::Exited(code) => {
            let gone = LoopView {
                exit_code: if on.exit_code is None {
                    code
                } else {
                    on.exit_code
                },
                child_exited: true,
                ..on
            };
            lemma_rounds_balance(gone, seq![NoteView::ChildExited(code)]);
        },
        FrameView::Overflow { dropped_frames, dropped_bytes } => {
            lemma_rounds_balance(
                on,
                seq![NoteView::OutputLost { dropped_frames, dropped_bytes }],
            );
        },
        FrameView::CursorPositionRequest => {
            lemma_rounds_balance(on, seq![]);
        },
        FrameView::Error(_) => {},
    }
}

proof fn lemma_absorbing_balances(state: LoopView)
    requires
        between_frames(state),
    ensures
        goes_round(state.absorb(), state, state.replay + state.pending),
{
    reveal(LoopView::absorb);
    let kept = LoopView { replay: state.replay + state.pending, ..state };
    if state.options.output == AttachOutputPolicy::FanoutToSurfaceAndStdout {
        assert(state.replay + state.pending =~= state.pending);
    } else {
        lemma_rounds_balance(kept, seq![]);
    }
}

proof fn lemma_endings_balance(state: LoopView, now: Instant)
    requires
        between_frames(state),
    ensures
        balanced(state.drain_at(now), state.replay),
        closes_in_order(state.drain_at(now), state, ReplyView::Clock(now)),
        state.replay.len() == 0 ==> balanced(state.resize_back(), seq![]),
        closes_in_order(state.resize_back(), state, ReplyView::Clock(now)),
        state.replay.len() == 0 ==> forall|notes: Seq<NoteView>|
            balanced(#[trigger] state.restore(notes), seq![]),
{
    reveal(LoopView::drain_at);
    reveal(LoopView::replay_held);
    reveal(LoopView::resize_back);
    reveal(LoopView::restore);
    if state.replay.len() == 0 {
        assert(state.replay =~= seq![]);
    }
}

#[verifier::spinoff_prover]
#[verifier::rlimit(60)]
proof fn lemma_clock_balances(state: LoopView, now: Instant)
    requires
        state.valid(),
        state.accounts(),
        state.awaits(ReplyView::Clock(now)),
    ensures
        balanced(state.after(ReplyView::Clock(now)), state.replay),
        closes_in_order(state.after(ReplyView::Clock(now)), state, ReplyView::Clock(now)),
{
    reveal(LoopView::after_clock);
    reveal(LoopView::started);
    reveal(LoopView::attached);
    reveal(LoopView::no_input);
    reveal(LoopView::drain_from);
    reveal(LoopView::drain_active);
    reveal(LoopView::ended);
    reveal(LoopView::aborted);
    let notes = seq![NoteView::Started { terminal_size: state.terminal_size }];
    let on = LoopView { started_at: now, ..state };
    lemma_rounds_balance(LoopView { stage: AttachState::Attached, ..on }, notes);
    lemma_rounds_balance(state, seq![]);
    lemma_input_balances(
        LoopView { matcher: state.matcher.settled(now), ..state },
        seq![],
        state.matcher.held,
    );
    lemma_rounds_balance(LoopView { drain_started: now, last_activity: now, ..state }, seq![]);
    lemma_endings_balance(state, now);
}

#[verifier::spinoff_prover]
#[verifier::rlimit(60)]
proof fn lemma_sizes_balance(state: LoopView, reply: ReplyView)
    requires
        state.accounts(),
        state.awaits(reply),
        reply is Size || reply is Resized || reply is Restored || reply is Suspended,
    ensures
        balanced(state.after(reply), state.replay),
        closes_in_order(state.after(reply), state, reply),
{
    reveal(LoopView::after_size);
    reveal(LoopView::after_resize);
    reveal(LoopView::after_restore);
    reveal(LoopView::after_suspend);
    reveal(LoopView::refused);
    reveal(LoopView::restore);
    reveal(LoopView::fail);
    reveal(LoopView::attached);
    lemma_rounds_balance(state, seq![]);
    lemma_rounds_balance(state, seq![NoteView::Resized(state.terminal_size)]);
    lemma_rounds_balance(
        LoopView { stage: AttachState::Attached, ..state },
        seq![NoteView::Resized(state.terminal_size)],
    );
    if let ReplyView::Size(Ok(size)) = reply {
        lemma_rounds_balance(LoopView { terminal_size: size, progress: true, ..state }, seq![]);
    }
    let back = LoopView { restored_size: true, ..state };
    lemma_endings_balance(back, state.started_at);
    if state.replay.len() == 0 {
        assert(state.replay =~= seq![]);
    }
}

#[verifier::spinoff_prover]
#[verifier::rlimit(60)]
proof fn lemma_measures_balance(state: LoopView, content: ContentRows)
    requires
        state.accounts(),
        state.awaits(ReplyView::Measured(content)),
    ensures
        balanced(state.after(ReplyView::Measured(content)), state.replay),
        closes_in_order(state.after(ReplyView::Measured(content)), state, ReplyView::Measured(content)),
{
    reveal(LoopView::after_measure);
    reveal(LoopView::scrolled);
    reveal(LoopView::measured);
    let next = moved_by(
        state.viewport,
        state.actions,
        content,
        state.terminal_size.rows as usize,
    );
    lemma_input_balances(
        LoopView { viewport: next, viewport_changed: next != state.viewport, ..state },
        seq![],
        seq![],
    );
    lemma_rounds_balance(
        LoopView {
            before: state.over(content),
            forward: state.over(content).effective_scroll_offset == 0,
            ..state
        },
        seq![],
    );
    lemma_rounds_balance(
        LoopView { viewport: state.viewport.clamped(state.over(content)), ..state },
        seq![],
    );
}

#[verifier::spinoff_prover]
#[verifier::rlimit(60)]
proof fn lemma_inputs_balance(state: LoopView, reply: ReplyView)
    requires
        state.accounts(),
        state.awaits(reply),
        reply is Input || reply is Sent || reply is Slept || reply is Rendered,
    ensures
        balanced(state.after(reply), state.replay),
        closes_in_order(state.after(reply), state, reply),
{
    reveal(LoopView::after_input);
    reveal(LoopView::after_send);
    reveal(LoopView::after_sleep);
    reveal(LoopView::after_render);
    reveal(LoopView::fail);
    lemma_rounds_balance(state, seq![]);
    lemma_input_balances(
        state,
        seq![NoteView::InputSent(state.pending.len())],
        seq![],
    );
    if let ReplyView::Input(Ok(Some((at, bytes)))) = reply {
        let run = state.matcher.run(bytes, at);
        lemma_input_balances(
            LoopView {
                matcher: MatcherView { held: run.held, times: run.times, ..state.matcher },
                chord_seen: run.detached,
                remaining: run.remaining,
                ..state
            },
            seq![],
            state.matcher.flushed(at) + run.forward,
        );
    }
}

#[verifier::spinoff_prover]
#[verifier::rlimit(60)]
proof fn lemma_outputs_balance(state: LoopView, reply: ReplyView)
    requires
        state.accounts(),
        state.awaits(reply),
        reply is Output || reply is Received,
    ensures
        balanced(state.after(reply), state.owed() + brought(reply)),
        closes_in_order(state.after(reply), state, reply),
{
    reveal(LoopView::after_output);
    reveal(LoopView::after_receive);
    reveal(LoopView::painted);
    reveal(LoopView::fail);
    lemma_rounds_balance(state, seq![]);
    lemma_absorbing_balances(state);
    assert(state.owed() + Seq::<u8>::empty() =~= state.owed());
    if let ReplyView::Received(Ok(Some(frame))) = reply {
        lemma_frames_balance(state, frame);
    }
}

#[verifier::spinoff_prover]
#[verifier::rlimit(60)]
proof fn lemma_feeds_balance(state: LoopView, r: core::result::Result<(), FailureView>)
    requires
        state.accounts(),
        state.awaits(ReplyView::Fed(r)),
    ensures
        balanced(state.after(ReplyView::Fed(r)), seq![]),
        closes_in_order(state.after(ReplyView::Fed(r)), state, ReplyView::Fed(r)),
        r is Ok ==> state.owed() == state.handed(),
{
    reveal(LoopView::after_feed);
    reveal(LoopView::fail);
    lemma_rounds_balance(state, seq![]);
    lemma_endings_balance(LoopView { replay: seq![], ..state }, state.started_at);
    if state.phase == AttachPhase::Feeding {
        assert(state.replay =~= seq![]);
        assert(state.replay + state.pending =~= state.pending);
    }
}

/// A loop that failed stays failed, and goes on undoing what it did.
pub proof fn law_failed_loops_stay_failed(state: LoopView, reply: ReplyView)
    requires
        state.awaits(reply),
        undoes(state),
    ensures
        gives_up(state.after(reply).state, state.after(reply).request),
{
    reveal(LoopView::after_resize);
    reveal(LoopView::after_restore);
    reveal(LoopView::after_clock);
    reveal(LoopView::aborted);
}

/// No output is lost, repeated or put out of order: what a loop owed the surface
/// and what a reply brings is what the reply says was fed and what the loop owes
/// then, unless the step fails. The surface is asked for just what is due, and a
/// loop that ends well owes nothing.
pub proof fn law_output_is_accounted_for(state: LoopView, reply: ReplyView)
    requires
        state.valid(),
        state.awaits(reply),
        state.accounts(),
    ensures
        reply matches ReplyView::Fed(Err(_)) ==> gives_up(
            state.after(reply).state,
            state.after(reply).request,
        ),
        ({
            let step = state.after(reply);
            ||| gives_up(step.state, step.request)
            ||| {
                &&& step.state.accounts()
                &&& state.owed() + brought(reply) == taken(state, reply) + step.state.owed()
                &&& step.request matches RequestView::Feed(bytes) ==> bytes == step.state.handed()
                &&& step.request is Finished ==> step.state.owed() == Seq::<u8>::empty()
            }
        }),
{
    let nothing = Seq::<u8>::empty();
    let step = state.after(reply);
    assert(state.owed() + nothing =~= state.owed());
    assert(nothing + step.state.owed() =~= step.state.owed());
    assert(taken(state, reply) + nothing =~= taken(state, reply));
    match reply {
        ReplyView::Size(_) | ReplyView::Resized(_) | ReplyView::Restored(_)
        | ReplyView::Suspended(_) => {
            lemma_sizes_balance(state, reply);
        },
        ReplyView::Clock(now) => {
            lemma_clock_balances(state, now);
        },
        ReplyView::Measured(content) => {
            lemma_measures_balance(state, content);
        },
        ReplyView::Input(_) | ReplyView::Sent(_) | ReplyView::Slept | ReplyView::Rendered(_) => {
            lemma_inputs_balance(state, reply);
        },
        ReplyView::Output(_) | ReplyView::Received(_) => {
            lemma_outputs_balance(state, reply);
        },
        ReplyView::Fed(r) => {
            lemma_feeds_balance(state, r);
            if r is Err {
                reveal(LoopView::after_feed);
                reveal(LoopView::fail);
            }
        },
    }
    if step.state.owed().len() == 0 {
        assert(step.state.owed() =~= nothing);
    }
}

/// An attach that ends well comes to its end in order: the child is given its
/// embedded size back, if it followed the terminal, then the terminal is
/// restored, and then the attach is over.
pub proof fn law_attaches_close_in_order(state: LoopView, reply: ReplyView)
    requires
        state.valid(),
        state.awaits(reply),
        state.accounts(),
    ensures
        closes_in_order(state.after(reply), state, reply),
{
    match reply {
        ReplyView::Size(_) | ReplyView::Resized(_) | ReplyView::Restored(_)
        | ReplyView::Suspended(_) => {
            lemma_sizes_balance(state, reply);
        },
        ReplyView::Clock(now) => {
            lemma_clock_balances(state, now);
        },
        ReplyView::Measured(content) => {
            lemma_measures_balance(state, content);
        },
        ReplyView::Input(_) | ReplyView::Sent(_) | ReplyView::Slept | ReplyView::Rendered(_) => {
            lemma_inputs_balance(state, reply);
        },
        ReplyView::Output(_) | ReplyView::Received(_) => {
            lemma_outputs_balance(state, reply);
        },
        ReplyView::Fed(r) => {
            lemma_feeds_balance(state, r);
        },
    }
}

} // verus!
