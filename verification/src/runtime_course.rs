//! What a pane asks of its surface and its process for each thing that is asked
//! of it, in which order, and what it answers.

use vstd::prelude::*;

use crate::attach_error::{AttachStepKind, FailureView};
use crate::attach_plan::{ReplyView, RequestView};
use crate::attach_viewport::ContentRows;
use crate::calls::{frame_calls, lemma_frame_calls_both, PaneCall, PaneScreen};
use crate::error::{ErrorView, IoOperation};
use crate::event::{EventView, InputKind, InputSentEvent};
use crate::mode_overlay::law_merged_modes;
use crate::pane::{KillReason, MouseMode, PaneInteractionMode, Size, StateView};
use crate::pane_core::{CoreView, FeedView};
use crate::pane_course::{ends_with, law_kills_are_booked, law_resizes_are_booked};
use crate::pane_runtime::{
    attach_fed, attach_refusal, attach_resizes, fed_directly, feed_reply, kills, measured,
    pane_sends, pane_served, resizes, RuntimeView, Showing,
};
use crate::pty::FrameView;
use crate::surface::LineView;

verus! {

/// The refusal of a pane that has no process.
pub open spec fn without_a_process() -> ErrorView {
    ErrorView::InvalidState { expected: "pty-backed pane"@, actual: "surface-only pane"@ }
}

/// Whether this is the refusal of what only a running pane can do.
pub open spec fn not_running(error: ErrorView, state: StateView) -> bool {
    error matches ErrorView::InvalidState { expected, actual } && expected == "Running"@ && (
    match state {
        StateView::Starting => actual == "Starting"@,
        StateView::Running => false,
        StateView::Exited { .. } => actual == "Exited"@,
        StateView::Failed { .. } => actual == "Failed"@,
        StateView::Killed { .. } => actual == "Killed"@,
    })
}

/// A pane can be attached when it has a process, runs and is embedded, and only
/// then. What stands in the way is told by what was looked for and what was
/// found, first the process, then the state, then the interaction mode.
pub proof fn law_what_can_be_attached(pane: RuntimeView)
    ensures
        ({
            let refusal = attach_refusal(pane);
            let running = pane.core.state is Running;
            &&& refusal is None <==> pane.backed && running && pane.core.mode
                == PaneInteractionMode::Embedded
            &&& !pane.backed ==> refusal == Some(without_a_process())
            &&& pane.backed && !running ==> (refusal matches Some(error) && not_running(
                error,
                pane.core.state,
            ))
            &&& pane.backed && running && pane.core.mode == PaneInteractionMode::Attaching
                ==> refusal == Some(
                ErrorView::InvalidState {
                    expected: "Embedded interaction mode"@,
                    actual: "Attaching"@,
                },
            )
            &&& pane.backed && running && pane.core.mode == PaneInteractionMode::Attached
                ==> refusal == Some(
                ErrorView::InvalidState {
                    expected: "Embedded interaction mode"@,
                    actual: "Attached"@,
                },
            )
            &&& pane.backed && running && pane.core.mode == PaneInteractionMode::Detaching
                ==> refusal == Some(
                ErrorView::InvalidState {
                    expected: "Embedded interaction mode"@,
                    actual: "Detaching"@,
                },
            )
        }),
{
}

/// A snapshot has the identity, the title, the state, the interaction mode and
/// the counts of the books, and the rows, the size and the cursor of the
/// surface. A mode is on in it when the surface or the output has it on, and
/// the mouse mode that the output selected goes before the surface's.
pub proof fn law_snapshots_show_the_pane(core: CoreView, showing: Showing)
    ensures
        ({
            let shot = core.pictured(showing);
            let flags = core.overlay.flags;
            &&& shot.id == core.pane
            &&& shot.title == core.title
            &&& shot.state == core.state
            &&& shot.interaction_mode == core.mode
            &&& shot.stats == core.stats
            &&& shot.size == showing.surface.size
            &&& shot.surface.size == showing.surface.size
            &&& shot.surface.rows == showing.surface.rows
            &&& shot.surface.title == showing.surface.title
            &&& shot.cursor == showing.cursor
            &&& shot.surface.cursor == showing.cursor
            &&& shot.surface.modes == shot.modes
            &&& shot.modes.bracketed_paste <==> flags.bracketed_paste
                || showing.modes.bracketed_paste
            &&& shot.modes.focus_events <==> flags.focus_events || showing.modes.focus_events
            &&& shot.modes.application_cursor <==> flags.application_cursor
                || showing.modes.application_cursor
            &&& shot.modes.alternate_screen <==> flags.alternate_screen
                || showing.modes.alternate_screen
            &&& flags.sgr ==> shot.modes.mouse == MouseMode::Sgr
            &&& !flags.x10 && !flags.normal && !flags.button_event && !flags.any_event
                && !flags.sgr ==> shot.modes.mouse == showing.modes.mouse
        }),
{
    law_merged_modes(core.overlay.flags, showing.modes);
}

/// A kill reaches the process of a running pane, once. The pane is then booked
/// as killed for the reason given, unless the process refused, which changes
/// nothing in the books. Without a process, or not running, the pane is left
/// alone and says why.
pub proof fn law_kills_reach_running_panes(
    after: RuntimeView,
    before: RuntimeView,
    reason: KillReason,
    r: Option<ErrorView>,
)
    requires
        kills(after, before, reason, r),
    ensures
        !before.backed ==> r == Some(without_a_process()) && after == before,
        before.backed && !(before.core.state is Running) ==> after == before && (r matches Some(
            error,
        ) && not_running(error, before.core.state)),
        before.backed && before.core.state is Running ==> {
            &&& after.calls == before.calls.push(PaneCall::Kill { answer: r })
            &&& after.backed && after.screen == before.screen
            &&& r is Some ==> after.core == before.core
            &&& r is None ==> {
                &&& after.core.state == (StateView::Killed { reason })
                &&& after.core.log.len() == before.core.log.len() + 1
                &&& ends_with(
                    after.core,
                    seq![
                        EventView::StateChanged {
                            old: StateView::Running,
                            new: StateView::Killed { reason },
                        },
                    ],
                )
            }
        },
{
    law_kills_are_booked(before.core, reason);
    if before.backed && before.core.state is Running {
        assert(before.calls + seq![PaneCall::Kill { answer: r }] =~= before.calls.push(
            PaneCall::Kill { answer: r },
        ));
    }
}

/// Bytes that are sent to a pane that has not ended are given to the writer of
/// its process, as they are and once, and the answer is the writer's. What went
/// out is told of by its kind and its length, what failed by the error. A pane
/// that has ended writes nothing and says so; one without a process also books
/// nothing.
pub proof fn law_bytes_are_sent(
    after: RuntimeView,
    before: RuntimeView,
    bytes: Seq<u8>,
    input_kind: InputKind,
    r: Option<ErrorView>,
)
    requires
        pane_sends(after, before, bytes, input_kind, r),
        bytes.len() <= usize::MAX,
    ensures
        !before.backed ==> r == Some(without_a_process()) && after == before,
        before.backed && !(before.core.state is Starting) && !(before.core.state is Running)
            ==> after.calls == before.calls && r == Some(
            ErrorView::Io {
                operation: IoOperation::Write,
                message: "pane has already terminated; cannot write input"@,
            },
        ),
        before.backed && (before.core.state is Starting || before.core.state is Running)
            ==> after.calls == before.calls.push(PaneCall::Write { bytes, answer: r }),
        before.backed ==> {
            &&& after.process == before.process && after.screen == before.screen
            &&& after.core.state == before.core.state
            &&& after.core.log.len() == before.core.log.len() + 1
            &&& r is None ==> ends_with(
                after.core,
                seq![
                    EventView::InputSent(
                        InputSentEvent {
                            input_kind,
                            bytes_len: bytes.len() as usize,
                            recorded: false,
                        },
                    ),
                ],
            )
            &&& r matches Some(error) ==> ends_with(after.core, seq![EventView::Error(error)])
        },
{
    if before.backed {
        assert(before.calls + seq![PaneCall::Write { bytes, answer: r }] =~= before.calls.push(
            PaneCall::Write { bytes, answer: r },
        ));
    }
}

/// A resize asks the surface whether it can have the size, then resizes the
/// process of a running pane, then the surface. The first of the three to
/// refuse is the last to be asked, its error is the answer, and nothing is
/// booked. A resize that went well is told of, with its size.
pub proof fn law_resizes_go_in_order(
    after: RuntimeView,
    before: RuntimeView,
    size: Size,
    r: Option<ErrorView>,
)
    requires
        resizes(after, before, size, r),
    ensures
        ({
            let refit = PaneCall::Refit { size, answer: None };
            let with_process = before.backed && before.core.state is Running;
            let first = if with_process {
                before.calls.push(refit)
            } else {
                before.calls
            };
            &&& after.backed == before.backed
            &&& r is None ==> {
                &&& after.calls == first.push(PaneCall::Reshape { size, answer: None })
                &&& after.core.log.len() == before.core.log.len() + 1
                &&& after.core.log.last().kind matches EventView::Resized(told) && told.size
                    == size
                &&& after.core.sizes.len() == before.core.sizes.len() + 1
                &&& after.core.sizes.last().size == size
            }
            &&& r is Some ==> {
                &&& after.core == before.core
                &&& {
                    ||| after == before
                    ||| with_process && after.screen == before.screen && after.calls
                        == before.calls.push(PaneCall::Refit { size, answer: r })
                    ||| after.calls == first.push(PaneCall::Reshape { size, answer: r })
                }
            }
            &&& !with_process ==> after.process == before.process
        }),
{
    law_resizes_are_booked(before.core, size);
    let refit = PaneCall::Refit { size, answer: None };
    assert(before.calls + seq![refit] =~= before.calls.push(refit));
    assert(before.calls + seq![PaneCall::Refit { size, answer: r }] =~= before.calls.push(
        PaneCall::Refit { size, answer: r },
    ));
    assert(before.calls + seq![PaneCall::Reshape { size, answer: r }] =~= before.calls.push(
        PaneCall::Reshape { size, answer: r },
    ));
    assert(before.calls.push(refit) + seq![PaneCall::Reshape { size, answer: r }]
        =~= before.calls.push(refit).push(PaneCall::Reshape { size, answer: r }));
}

/// A direct feed hands the surface the bytes, once. What the surface shows of
/// them is told of, and nothing is told of bytes that it refused.
pub proof fn law_direct_feeds(
    pane: RuntimeView,
    bytes: Seq<u8>,
    feed: FeedView,
    screen: PaneScreen,
)
    ensures
        ({
            let after = fed_directly(pane, bytes, feed, screen);
            &&& after.calls == pane.calls.push(PaneCall::Feed { bytes, answer: feed })
            &&& after.screen == screen
            &&& after.process == pane.process && after.backed == pane.backed
            &&& feed is Err ==> after.core == pane.core
            &&& after.core.state == pane.core.state
            &&& after.core.transcript == pane.core.transcript
            &&& after.core.overlay == pane.core.overlay
        }),
{
    assert(pane.calls + seq![PaneCall::Feed { bytes, answer: feed }] =~= pane.calls.push(
        PaneCall::Feed { bytes, answer: feed },
    ));
}

/// Frames are taken in one by one: each is received, and what is output is fed
/// to the surface, as it is, before the next one is received. Nothing else is
/// asked.
pub proof fn law_frames_are_taken_in_turn(frames: Seq<(FrameView, FeedView)>, n: int)
    requires
        0 <= n < frames.len(),
    ensures
        ({
            let asked = PaneCall::Receive { answer: Some(frames[n].0) };
            let earlier = frame_calls(frames.take(n));
            let later = frame_calls(frames.skip(n + 1));
            frame_calls(frames) == earlier + (match frames[n].0 {
                FrameView::Output(bytes) => seq![
                    asked,
                    PaneCall::Feed { bytes, answer: frames[n].1 },
                ],
                _ => seq![asked],
            }) + later
        }),
        frame_calls(seq![]) == Seq::<PaneCall>::empty(),
{
    let one = seq![frames[n]];
    assert(one.drop_last() =~= seq![]);
    assert(frame_calls(one.drop_last()) =~= seq![]);
    assert(frames =~= frames.take(n) + one + frames.skip(n + 1));
    lemma_frame_calls_both(frames.take(n) + one, frames.skip(n + 1));
    lemma_frame_calls_both(frames.take(n), one);
    let asked = PaneCall::Receive { answer: Some(frames[n].0) };
    match frames[n].0 {
        FrameView::Output(bytes) => {
            assert(frame_calls(one) =~= seq![asked, PaneCall::Feed { bytes, answer: frames[n].1 }]);
        },
        _ => {
            assert(frame_calls(one) =~= seq![asked]);
        },
    }
}

/// Frames are booked in the order in which they came: those of one row and then
/// of another as those of both rows.
#[verifier::spinoff_prover]
#[verifier::rlimit(60)]
pub proof fn law_frames_are_booked_in_turn(
    core: CoreView,
    first: Seq<(FrameView, FeedView)>,
    second: Seq<(FrameView, FeedView)>,
)
    ensures
        core.took_all(first + second) == core.took_all(first).took_all(second),
    decreases second.len(),
{
    let both = first + second;
    if second.len() == 0 {
        assert(both =~= first);
    } else {
        law_frames_are_booked_in_turn(core, first, second.drop_last());
        assert(both.drop_last() =~= first + second.drop_last());
        assert(both.last() == second.last());
        lemma_last_frame(core, both);
        lemma_last_frame(core.took_all(first), second);
    }
}

proof fn lemma_last_frame(core: CoreView, frames: Seq<(FrameView, FeedView)>)
    requires
        frames.len() > 0,
    ensures
        core.took_all(frames) == core.took_all(frames.drop_last()).took(
            frames.last().0,
            frames.last().1,
        ),
{
}

/// No frames leave the books as they are, and one alone is booked as it is.
pub proof fn law_few_frames_are_booked(core: CoreView, frame: FrameView, feed: FeedView)
    ensures
        core.took_all(seq![]) == core,
        core.took_all(seq![(frame, feed)]) == core.took(frame, feed),
{
    let one = seq![(frame, feed)];
    assert(one.drop_last() =~= seq![]);
    lemma_last_frame(core, one);
}

/// What an attach asks of a pane goes to the surface or to the process, as it
/// was asked: input is written, once and as it is, a frame is received, output
/// is fed, and to measure or to render changes nothing. Without a process there
/// is neither input nor output.
pub proof fn law_attaches_are_served(
    reply: ReplyView,
    after: RuntimeView,
    before: RuntimeView,
    request: RequestView,
)
    requires
        pane_served(reply, after, before, request),
    ensures
        after.backed == before.backed,
        request matches RequestView::SendInput(bytes) ==> {
            &&& after.core == before.core
            &&& !before.backed ==> after == before && reply == ReplyView::Sent(
                Err(FailureView::Pane(without_a_process())),
            )
            &&& before.backed ==> after.calls.len() == before.calls.len() + 1 && (
            after.calls.last() matches PaneCall::Write { bytes: sent, answer } && sent == bytes && (
            answer is None ==> reply == ReplyView::Sent(Ok(()))) && (answer is Some ==> (reply
                matches ReplyView::Sent(Err(FailureView::Step { kind, .. })) && kind
                == AttachStepKind::PtyWrite)))
        },
        request is Receive ==> {
            &&& after.core == before.core
            &&& !before.backed ==> after == before && reply == ReplyView::Received(
                Err(FailureView::Pane(without_a_process())),
            )
            &&& before.backed ==> after.calls.len() == before.calls.len() + 1 && (
            after.calls.last() matches PaneCall::Receive { answer } && reply
                == ReplyView::Received(Ok(answer)))
        },
        request matches RequestView::Feed(bytes) ==> after.calls.len() == before.calls.len() + 1
            && after.process == before.process && (after.calls.last() matches PaneCall::Feed {
            bytes: fed,
            answer,
        } && fed == bytes && (answer is Ok ==> reply == ReplyView::Fed(Ok(()))) && (answer is Err
            ==> (reply matches ReplyView::Fed(Err(FailureView::Step { kind, .. })) && kind
            == AttachStepKind::SurfaceFeed))),
        request is Measure || request is Render ==> after == before,
        request is Render ==> reply matches ReplyView::Rendered(Ok(_)),
        request matches RequestView::Resize(size) && (size.rows == 0 || size.cols == 0) ==> after
            == before && reply == ReplyView::Resized(
            Err(
                FailureView::Pane(
                    ErrorView::InvalidSize {
                        rows: (request->Resize_0).rows,
                        cols: (request->Resize_0).cols,
                    },
                ),
            ),
        ),
{
    if let RequestView::Feed(bytes) = request {
        reveal(attach_fed);
        let feed = choose|feed: FeedView|
            after == #[trigger] before.took_frame(FrameView::Output(bytes), feed, after.screen)
                && reply == feed_reply(feed);
        assert(after.calls =~= before.calls + seq![PaneCall::Feed { bytes, answer: feed }]);
    }
}

/// A resize for an attach goes like any other, only that it reaches the process
/// of every pane that has not ended, and that nothing is booked. A refusal is
/// told with what refused.
pub proof fn law_attaches_resize_in_order(
    after: RuntimeView,
    before: RuntimeView,
    size: Size,
    r: core::result::Result<(), FailureView>,
)
    requires
        attach_resizes(after, before, size, r),
    ensures
        ({
            let refit = PaneCall::Refit { size, answer: None };
            let with_process = before.backed && (before.core.state is Starting
                || before.core.state is Running);
            let first = if with_process {
                before.calls.push(refit)
            } else {
                before.calls
            };
            &&& after.core == before.core && after.backed == before.backed
            &&& r is Ok ==> after.calls == first.push(PaneCall::Reshape { size, answer: None })
            &&& r matches Err(failure) ==> (failure matches FailureView::Step { kind, .. } && {
                ||| after == before && kind == AttachStepKind::SurfaceResize
                ||| with_process && kind == AttachStepKind::PtyResize && after.screen
                    == before.screen && after.calls.len() == before.calls.len() + 1
                    && after.calls.last() is Refit
                ||| kind == AttachStepKind::SurfaceResize && after.calls.len() == first.len() + 1
                    && after.calls.last() is Reshape && (first.len() > before.calls.len()
                    ==> after.calls[before.calls.len() as int] == refit)
            })
            &&& !with_process ==> after.process == before.process
        }),
{
    let refit = PaneCall::Refit { size, answer: None };
    let shape = PaneCall::Reshape { size, answer: None };
    assert(before.calls + seq![refit] =~= before.calls.push(refit));
    assert(before.calls + seq![shape] =~= before.calls.push(shape));
    assert(before.calls.push(refit) + seq![shape] =~= before.calls.push(refit).push(shape));
}

/// Content rows are counted of the surface and of the scrollback apart.
pub proof fn law_content_is_counted(pane: RuntimeView, rows: ContentRows)
    requires
        measured(pane, rows),
    ensures
        exists|size: Size, lines: Seq<LineView>|
            {
                &&& #[trigger] pane.screen.measures(size)
                &&& #[trigger] pane.screen.keeps(lines)
                &&& size.rows as int == rows.surface as int
                &&& lines.len() == rows.scrollback as int
            },
{
}

} // verus!
