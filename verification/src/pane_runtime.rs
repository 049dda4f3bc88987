//! One pane at run time: its books, its surface and its process.
//!
//! What the surface and the process answer is theirs to decide. The contracts
//! say what each answer does to the books, and what every call does whatever
//! the answer.

use vstd::prelude::*;

use crate::attach_error::{
    error_debug, error_debug_text, AttachFailure, AttachStepKind, FailureView,
};
use crate::attach_plan::{
    answers, host_failure, pane_result, result_fits, AttachReply, AttachRequest, ReplyView,
    RequestView,
};
use crate::attach_viewport::{render_attach_viewport_bytes, viewport_bytes, ContentRows};
use crate::calls::{
    continues, feed_calls, frame_calls, lemma_attempt_leads, lemma_continues_both,
    lemma_continues_happened, lemma_feed_leads, lemma_no_call, lemma_one_call,
    lemma_reshape_leads, opt_frame, process_asked, process_killed, process_resized, screen_fed,
    PaneCall, PaneProcess, PaneScreen, Parties,
};
use crate::error::{error_of, ErrorView, IoOperation, PaneError, Result};
use crate::event::{entries, goes_on, EventView, InputKind, PaneEvent};
use crate::input_plan::{lines_text, rows_text, verification_text};
use crate::mode_overlay::merged;
use crate::pane::{clone_opt_text, KillReason, PaneInteractionMode, Size, TerminalModes};
use crate::pane_core::{
    as_surface_error, feed_view, follows, law_ended_panes_stay_ended, law_log_only_grows,
    lemma_follows, state_label, state_name, surface_error, CoreView, FeedView,
    PaneCore,
};
use crate::pty::{
    fits, writes, FrameView, PtyFrame, WriteAttempt, WriteReply,
};
use crate::surface::{
    CursorState, LineView, PaneSnapshot, PaneView, ScrollbackSnapshot, SurfaceBackendMetadata,
    SurfaceSnapshot, SurfaceUpdate, SurfaceView,
};
use crate::viewport::TerminalViewport;

verus! {

/// A pane: its books, whether it has a process, the process, the surface, and
/// what it has asked of the two so far.
#[verifier::ext_equal]
pub ghost struct RuntimeView {
    pub core: CoreView,
    pub backed: bool,
    pub process: Option<PaneProcess>,
    pub screen: PaneScreen,
    pub calls: Seq<PaneCall>,
}

/// What a surface shows: its snapshot, its cursor and its modes.
pub ghost struct Showing {
    pub surface: SurfaceView,
    pub cursor: CursorState,
    pub modes: TerminalModes,
}

impl CoreView {
    /// What a surface shows, with the modes that the output selected.
    pub open spec fn shown(self, showing: Showing) -> SurfaceView {
        SurfaceView {
            cursor: showing.cursor,
            modes: merged(self.overlay.flags, showing.modes),
            ..showing.surface
        }
    }

    /// The snapshot of a pane whose surface shows this.
    pub open spec fn pictured(self, showing: Showing) -> PaneView {
        let surface = self.shown(showing);
        PaneView {
            id: self.pane,
            title: self.title,
            state: self.state,
            interaction_mode: self.mode,
            size: surface.size,
            surface,
            cursor: surface.cursor,
            modes: surface.modes,
            stats: self.stats,
        }
    }
}

impl RuntimeView {
    /// The pane after calls that left its process like this.
    pub open spec fn ran(
        self,
        process: Option<PaneProcess>,
        calls: Seq<PaneCall>,
    ) -> RuntimeView {
        RuntimeView { process, calls: self.calls + calls, ..self }
    }

    /// The pane after calls that left its surface and its process alone.
    pub open spec fn asked(self, calls: Seq<PaneCall>) -> RuntimeView {
        RuntimeView { calls: self.calls + calls, ..self }
    }

    /// The pane after calls that left its surface like this.
    pub open spec fn turned(self, screen: PaneScreen, calls: Seq<PaneCall>) -> RuntimeView {
        RuntimeView { screen, calls: self.calls + calls, ..self }
    }

    /// The pane with its books continued.
    pub open spec fn booked(self, core: CoreView) -> RuntimeView {
        RuntimeView { core, ..self }
    }

    /// The pane after a frame that was received, with the surface as the feed
    /// left it.
    pub open spec fn took_frame(
        self,
        frame: FrameView,
        feed: FeedView,
        screen: PaneScreen,
    ) -> RuntimeView {
        self.turned(screen, feed_calls(frame, feed)).booked(self.core.took(frame, feed))
    }

    /// Whether the surface of the pane shows this.
    pub open spec fn shows(self, showing: Showing) -> bool {
        &&& self.screen.shows(showing.surface)
        &&& self.screen.points(showing.cursor)
        &&& self.screen.tells(showing.modes)
    }

    /// Whether this is the text against which an echo on the pane is verified:
    /// what the surface keeps as scrollback, then what it shows.
    pub open spec fn reads(self, text: Seq<char>) -> bool {
        exists|lines: Seq<LineView>, picture: SurfaceView|
            {
                &&& #[trigger] self.screen.keeps(lines)
                &&& #[trigger] self.screen.shows(picture)
                &&& text == lines_text(lines) + rows_text(picture.rows)
            }
    }

    /// The surface and the process of the pane.
    pub open spec fn parties(self) -> Parties {
        Parties { screen: self.screen, process: self.process }
    }

    /// Whether everything the pane says it has asked was asked and answered.
    pub open spec fn truthful(self) -> bool {
        forall|i: int| 0 <= i < self.calls.len() ==> (#[trigger] self.calls[i]).happened()
    }
}

/// Whether a pane came of another by the calls it has logged since: each was
/// made once, on the surface and the process as the call before left them, the
/// first on those of the one pane, and the last left those of the other.
pub open spec fn went_on(after: RuntimeView, before: RuntimeView) -> bool {
    continues(after.calls, after.parties(), before.calls, before.parties())
}

/// Nothing happens to a pane in no calls, and what happened to it in some calls
/// and then in others, happened in all of them.
pub proof fn law_going_on(last: RuntimeView, middle: RuntimeView, first: RuntimeView)
    ensures
        went_on(first, first),
        went_on(last, middle) && went_on(middle, first) ==> went_on(last, first),
{
    lemma_no_call(first.calls, first.parties());
    if went_on(last, middle) && went_on(middle, first) {
        lemma_continues_both(
            last.calls,
            last.parties(),
            middle.calls,
            middle.parties(),
            first.calls,
            first.parties(),
        );
    }
}

/// Whether a pane comes of another by taking in these frames, one after the
/// other, and is quiet: its process then had no more, which it was asked. The
/// surface is as the feeds left it, the process as the receiving left it.
pub open spec fn absorbs(
    after: RuntimeView,
    before: RuntimeView,
    frames: Seq<(FrameView, FeedView)>,
    quiet: bool,
) -> bool {
    &&& went_on(after, before)
    &&& after.core == before.core.took_all(frames)
    &&& after.backed == before.backed
    &&& after.calls == before.calls + frame_calls(frames) + (if quiet && before.backed {
        seq![PaneCall::Receive { answer: None }]
    } else {
        seq![]
    })
    &&& frames.len() == 0 ==> after.screen == before.screen
    &&& frames.len() == 0 && !quiet ==> after.process == before.process
    &&& !before.backed ==> frames.len() == 0 && after.process == before.process
}

/// Whether a pane comes of another by taking in pending frames: `limit` of
/// them, or fewer and then it was quiet.
pub open spec fn absorbed_to(
    after: RuntimeView,
    before: RuntimeView,
    limit: nat,
    quiet: bool,
) -> bool {
    exists|frames: Seq<(FrameView, FeedView)>|
        #[trigger] absorbs(after, before, frames, quiet) && if quiet {
            frames.len() < limit
        } else {
            frames.len() == limit
        }
}

/// The same, quiet or not.
pub open spec fn absorbed(after: RuntimeView, before: RuntimeView, limit: nat) -> bool {
    exists|quiet: bool| #[trigger] absorbed_to(after, before, limit, quiet)
}

/// The error of an operation that needs a process, on a pane without one.
pub open spec fn needs_process() -> ErrorView {
    ErrorView::InvalidState { expected: "pty-backed pane"@, actual: "surface-only pane"@ }
}

/// The error of an operation that needs a running pane.
pub open spec fn needs_running(core: CoreView) -> ErrorView {
    ErrorView::InvalidState { expected: "Running"@, actual: state_name(core.state) }
}

/// The error of input to a pane that has ended.
pub open spec fn too_late() -> ErrorView {
    ErrorView::Io {
        operation: IoOperation::Write,
        message: "pane has already terminated; cannot write input"@,
    }
}

/// The name of an interaction mode.
pub open spec fn mode_name(mode: PaneInteractionMode) -> Seq<char> {
    match mode {
        PaneInteractionMode::Embedded => "Embedded"@,
        PaneInteractionMode::Attaching => "Attaching"@,
        PaneInteractionMode::Attached => "Attached"@,
        PaneInteractionMode::Detaching => "Detaching"@,
    }
}

/// Why a pane cannot be attached, if it cannot.
pub open spec fn attach_refusal(pane: RuntimeView) -> Option<ErrorView> {
    if !pane.backed {
        Some(needs_process())
    } else if !(pane.core.state is Running) {
        Some(needs_running(pane.core))
    } else if pane.core.mode != PaneInteractionMode::Embedded {
        Some(
            ErrorView::InvalidState {
                expected: "Embedded interaction mode"@,
                actual: mode_name(pane.core.mode),
            },
        )
    } else {
        None
    }
}

/// Whether an attach asks the pane for this, and not the host.
pub open spec fn for_pane(request: RequestView) -> bool {
    match request {
        RequestView::Resize(_) | RequestView::SendInput(_) | RequestView::Receive
        | RequestView::Feed(_) | RequestView::Measure | RequestView::Render { .. } => true,
        _ => false,
    }
}

/// What an attach is told when the surface answered to output.
pub open spec fn feed_reply(feed: FeedView) -> ReplyView {
    match feed {
        Ok(_) => ReplyView::Fed(Ok(())),
        Err(error) => ReplyView::Fed(
            Err(host_failure(AttachStepKind::SurfaceFeed, as_surface_error(error).sentence())),
        ),
    }
}

/// Whether a pane and a reply come of feeding output for an attach.
#[verifier::opaque]
pub open spec fn attach_fed(
    after: RuntimeView,
    before: RuntimeView,
    bytes: Seq<u8>,
    reply: ReplyView,
) -> bool {
    exists|feed: FeedView|
        after == #[trigger] before.took_frame(FrameView::Output(bytes), feed, after.screen)
            && reply == feed_reply(feed)
}

/// The reply to a request that came to an error of the pane, or to none.
pub open spec fn step_result(kind: AttachStepKind, answer: Option<ErrorView>) -> core::result::Result<
    (),
    FailureView,
> {
    match answer {
        None => Ok(()),
        Some(error) => Err(host_failure(kind, error_debug(error))),
    }
}

/// The pane after its process was asked for a frame.
pub open spec fn received(
    pane: RuntimeView,
    answer: Option<FrameView>,
    process: Option<PaneProcess>,
) -> RuntimeView {
    pane.ran(process, seq![PaneCall::Receive { answer }])
}

/// The pane after the writer of its process was given bytes.
pub open spec fn written(pane: RuntimeView, bytes: Seq<u8>, answer: Option<ErrorView>) -> RuntimeView {
    pane.asked(seq![PaneCall::Write { bytes, answer }])
}

/// Whether a pane and a reply come of a resize for an attach, to a size that a
/// terminal can have: the surface judges the size, the process of a pane that
/// has not ended is resized, then the surface. The first failure is the reply.
pub open spec fn attach_resizes(
    after: RuntimeView,
    before: RuntimeView,
    size: Size,
    r: core::result::Result<(), FailureView>,
) -> bool {
    exists|judged: Result<()>|
        #[trigger] before.screen.judges(size, judged) && match judged {
            Err(e) => after == before && r == step_result(
                AttachStepKind::SurfaceResize,
                Some(e@),
            ),
            Ok(_) => resizes_both(
                after,
                before,
                size,
                before.backed && before.core.state.is_live(),
                |answer: Option<ErrorView>| r == step_result(AttachStepKind::PtyResize, answer),
                |answer: Option<ErrorView>| r == step_result(AttachStepKind::SurfaceResize, answer),
            ),
        }
}

/// Whether a pane comes of another by resizing its process, if it is to be, and
/// then its surface. A process that refuses leaves the surface alone. What the
/// last of the two answers is as told.
pub open spec fn resizes_both(
    after: RuntimeView,
    before: RuntimeView,
    size: Size,
    refits: bool,
    process_said: spec_fn(Option<ErrorView>) -> bool,
    surface_said: spec_fn(Option<ErrorView>) -> bool,
) -> bool {
    if refits {
        ||| exists|e: ErrorView| process_said(Some(e)) && after == #[trigger] refitted(
            before,
            size,
            Some(e),
            after.process,
        )
        ||| exists|answer: Option<ErrorView>|
            surface_said(answer) && after == #[trigger] reshaped(
                refitted(before, size, None, after.process),
                size,
                answer,
                after.screen,
            )
    } else {
        exists|answer: Option<ErrorView>|
            surface_said(answer) && after == #[trigger] reshaped(
                before,
                size,
                answer,
                after.screen,
            )
    }
}

/// The pane after its process was resized.
pub open spec fn refitted(
    pane: RuntimeView,
    size: Size,
    answer: Option<ErrorView>,
    process: Option<PaneProcess>,
) -> RuntimeView {
    pane.ran(process, seq![PaneCall::Refit { size, answer }])
}

/// The pane after its surface was resized.
pub open spec fn reshaped(
    pane: RuntimeView,
    size: Size,
    answer: Option<ErrorView>,
    screen: PaneScreen,
) -> RuntimeView {
    pane.turned(screen, seq![PaneCall::Reshape { size, answer }])
}

/// Whether content rows are those of a pane's surface.
pub open spec fn measured(pane: RuntimeView, rows: ContentRows) -> bool {
    exists|size: Size, lines: Seq<LineView>|
        {
            &&& #[trigger] pane.screen.measures(size)
            &&& #[trigger] pane.screen.keeps(lines)
            &&& rows.surface == size.rows
            &&& rows.scrollback == lines.len()
        }
}

/// Whether bytes paint a pane into a viewport.
pub open spec fn rendered(
    pane: RuntimeView,
    viewport: TerminalViewport,
    size: Size,
    bytes: Seq<u8>,
) -> bool {
    exists|showing: Showing, lines: Seq<LineView>|
        {
            &&& #[trigger] pane.shows(showing)
            &&& #[trigger] pane.screen.keeps(lines)
            &&& bytes == viewport_bytes(pane.core.pictured(showing), lines, viewport, size)
        }
}

/// Whether a pane and a reply come of what an attach asks of the pane. The
/// reply is what the surface or the process answered; a pane that has lost its
/// process refuses input and frames.
pub open spec fn pane_served(
    reply: ReplyView,
    after: RuntimeView,
    before: RuntimeView,
    request: RequestView,
) -> bool {
    went_on(after, before) && match request {
        RequestView::Resize(size) => reply matches ReplyView::Resized(r) && if size.valid() {
            attach_resizes(after, before, size, r)
        } else {
            after == before && r == Err::<(), FailureView>(
                FailureView::Pane(ErrorView::InvalidSize { rows: size.rows, cols: size.cols }),
            )
        },
        RequestView::SendInput(bytes) => if before.backed {
            exists|answer: Option<ErrorView>|
                after == #[trigger] written(before, bytes, answer) && reply == ReplyView::Sent(
                    step_result(AttachStepKind::PtyWrite, answer),
                )
        } else {
            after == before && reply == ReplyView::Sent(Err(FailureView::Pane(needs_process())))
        },
        RequestView::Receive => if before.backed {
            exists|answer: Option<FrameView>|
                after == #[trigger] received(before, answer, after.process) && reply == ReplyView::Received(
                    Ok(answer),
                )
        } else {
            after == before && reply == ReplyView::Received(
                Err(FailureView::Pane(needs_process())),
            )
        },
        RequestView::Feed(bytes) => attach_fed(after, before, bytes, reply),
        RequestView::Measure => after == before && (reply matches ReplyView::Measured(rows)
            && measured(before, rows)),
        RequestView::Render { viewport, size } => after == before && (reply
            matches ReplyView::Rendered(Ok(bytes)) && rendered(before, viewport, size, bytes)),
        _ => false,
    }
}

proof fn lemma_took_one(
    core: CoreView,
    frames: Seq<(FrameView, FeedView)>,
    frame: FrameView,
    feed: FeedView,
)
    ensures
        core.took_all(frames.push((frame, feed))) == core.took_all(frames).took(frame, feed),
        frame_calls(frames.push((frame, feed))) == frame_calls(frames) + seq![
            PaneCall::Receive { answer: Some(frame) },
        ] + feed_calls(frame, feed),
{
    assert(frames.push((frame, feed)).drop_last() =~= frames);
}

pub(crate) proof fn lemma_took_frame(
    pane: RuntimeView,
    frame: FrameView,
    feed: FeedView,
    screen: PaneScreen,
)
    ensures
        pane.took_frame(frame, feed, screen).core.grew_from(pane.core),
        pane.took_frame(frame, feed, screen).backed == pane.backed,
{
    law_log_only_grows(pane.core, frame, feed);
}

proof fn lemma_truthful(after: RuntimeView, before: RuntimeView)
    requires
        before.truthful(),
        went_on(after, before),
    ensures
        after.truthful(),
{
    lemma_continues_happened(after.calls, after.parties(), before.calls, before.parties());
}

proof fn lemma_absorbs_more(
    after: RuntimeView,
    before: RuntimeView,
    start: RuntimeView,
    frames: Seq<(FrameView, FeedView)>,
    frame: FrameView,
    feed: FeedView,
)
    requires
        absorbs(before, start, frames, false),
        start.backed,
        went_on(after, before),
        after == received(before, Some(frame), after.process).took_frame(
            frame,
            feed,
            after.screen,
        ),
    ensures
        absorbs(after, start, frames.push((frame, feed)), false),
{
    lemma_took_one(start.core, frames, frame, feed);
    law_going_on(after, before, start);
    assert(after.calls =~= start.calls + frame_calls(frames.push((frame, feed))) + seq![]);
}

proof fn lemma_absorbs_no_more(
    after: RuntimeView,
    before: RuntimeView,
    start: RuntimeView,
    frames: Seq<(FrameView, FeedView)>,
)
    requires
        absorbs(before, start, frames, false),
        went_on(after, before),
        after == (if start.backed {
            received(before, None, after.process)
        } else {
            before
        }),
    ensures
        absorbs(after, start, frames, true),
{
    law_going_on(after, before, start);
    assert(before.calls =~= start.calls + frame_calls(frames));
}

/// No frame changes a pane's title or interaction mode.
proof fn lemma_took(core: CoreView, frame: FrameView, feed: FeedView)
    ensures
        core.took(frame, feed).mode == core.mode,
        core.took(frame, feed).title == core.title,
{
}

/// What no frames change: the log only grows, the pane keeps its identity, its
/// configuration and its interaction mode, and an ended pane stays as it ended.
pub proof fn law_absorbing(core: CoreView, frames: Seq<(FrameView, FeedView)>)
    ensures
        follows(core.took_all(frames), core, 6 * frames.len()),
        core.took_all(frames).mode == core.mode,
        core.took_all(frames).title == core.title,
        !core.state.is_live() ==> core.took_all(frames).state == core.state && core.took_all(
            frames,
        ).exit == core.exit,
    decreases frames.len(),
{
    if frames.len() > 0 {
        let shorter = frames.drop_last();
        law_absorbing(core, shorter);
        let before = core.took_all(shorter);
        lemma_took(before, frames.last().0, frames.last().1);
        law_log_only_grows(before, frames.last().0, frames.last().1);
        lemma_follows(core.took_all(frames), before, core, 6, 6 * shorter.len());
        if !core.state.is_live() {
            law_ended_panes_stay_ended(before, frames.last().0, frames.last().1);
        }
    } else {
        assert(core.log.take(core.log.len() as int) =~= core.log);
    }
}

/// The same, of a pane that absorbed some frames.
pub proof fn law_absorbed(after: RuntimeView, before: RuntimeView, limit: nat)
    requires
        absorbed(after, before, limit),
    ensures
        after.backed == before.backed,
        after.core.grew_from(before.core),
        after.core.mode == before.core.mode,
        after.core.title == before.core.title,
        !before.core.state.is_live() ==> after.core.state == before.core.state && after.core.exit
            == before.core.exit,
{
    let quiet = choose|quiet: bool| #[trigger] absorbed_to(after, before, limit, quiet);
    let frames = choose|frames: Seq<(FrameView, FeedView)>|
        #[trigger] absorbs(after, before, frames, quiet) && if quiet {
            frames.len() < limit
        } else {
            frames.len() == limit
        };
    law_absorbing(before.core, frames);
}

/// Makes the snapshot of a pane from what its surface shows.
pub fn pane_snapshot<'a>(
    core: &PaneCore,
    surface: SurfaceSnapshot<'a>,
    cursor: CursorState,
    modes: TerminalModes,
) -> (snapshot: PaneSnapshot<'a>)
    ensures
        snapshot@ == core@.pictured(Showing { surface: surface@, cursor, modes }),
{
    let merged_modes = core.mode_overlay().merge_with(modes);
    let mut surface = surface;
    surface.cursor = cursor;
    surface.modes = merged_modes;
    PaneSnapshot {
        id: core.pane_id(),
        title: clone_opt_text(core.title()),
        state: core.state().clone(),
        interaction_mode: core.interaction_mode(),
        size: surface.size,
        cursor: surface.cursor,
        modes: surface.modes,
        stats: core.stats(),
        surface,
    }
}

pub(crate) fn no_process() -> (error: PaneError)
    ensures
        error@ == needs_process(),
{
    PaneError::InvalidState {
        expected: "pty-backed pane".to_owned(),
        actual: "surface-only pane".to_owned(),
    }
}

fn mode_label(mode: PaneInteractionMode) -> (label: String)
    ensures
        label@ == mode_name(mode),
{
    match mode {
        PaneInteractionMode::Embedded => "Embedded".to_owned(),
        PaneInteractionMode::Attaching => "Attaching".to_owned(),
        PaneInteractionMode::Attached => "Attached".to_owned(),
        PaneInteractionMode::Detaching => "Detaching".to_owned(),
    }
}

fn step_failure(kind: AttachStepKind, error: &PaneError) -> (failure: AttachFailure)
    ensures
        failure@ == host_failure(kind, error_debug(error@)),
{
    AttachFailure::Step { kind, message: error_debug_text(error) }
}

/// A pane at run time.
pub struct PaneRuntime {
    core: PaneCore,
    screen: PaneScreen,
    process: Option<PaneProcess>,
    calls: Ghost<Seq<PaneCall>>,
}

impl View for PaneRuntime {
    type V = RuntimeView;

    closed spec fn view(&self) -> RuntimeView {
        RuntimeView {
            core: self.core@,
            backed: self.process is Some,
            process: self.process,
            screen: self.screen,
            calls: self.calls@,
        }
    }
}

/// Whether a pane and a result come of a resize to a size that a terminal can
/// have: the surface judges the size, the process of a running pane is resized,
/// then the surface. The first failure is the result, and nothing is asked
/// after it. A resize that went well is booked.
pub open spec fn resizes(
    after: RuntimeView,
    before: RuntimeView,
    size: Size,
    r: Option<ErrorView>,
) -> bool {
    &&& went_on(after, before)
    &&& exists|judged: Result<()>|
        #[trigger] before.screen.judges(size, judged) && match judged {
            Err(e) => after == before && r == Some(e@),
            Ok(_) => {
                &&& after.core == (if r is None {
                    before.core.resized(size)
                } else {
                    before.core
                })
                &&& resizes_both(
                    after.booked(before.core),
                    before,
                    size,
                    before.backed && before.core.state is Running,
                    |answer: Option<ErrorView>| r == answer,
                    |answer: Option<ErrorView>| r == answer,
                )
            },
        }
}

/// The pane after the writer of its process made an attempt on bytes.
pub open spec fn attempted(
    pane: RuntimeView,
    attempt: WriteAttempt,
    bytes: Seq<u8>,
    reply: WriteReply,
) -> RuntimeView {
    pane.asked(seq![PaneCall::Attempt { attempt, bytes, reply }])
}

/// Whether a pane and a result come of sending bytes: without a process it is
/// refused, a pane that has ended fails without a write, and else the bytes are
/// written once and the result is the writer's. What was sent, and what failed,
/// is booked.
pub open spec fn pane_sends(
    after: RuntimeView,
    before: RuntimeView,
    bytes: Seq<u8>,
    input_kind: InputKind,
    r: Option<ErrorView>,
) -> bool {
    &&& went_on(after, before)
    &&& if !before.backed {
        r == Some(needs_process()) && after == before
    } else {
        let core = match r {
            None => before.core.sent(input_kind, bytes.len()),
            Some(e) => before.core.logged(EventView::Error(e)),
        };
        if before.core.state.is_live() {
            (r matches Some(e) ==> e is Io) && after == written(before, bytes, r).booked(core)
        } else {
            r == Some(too_late()) && after == before.booked(core)
        }
    }
}

/// Whether a pane and a result come of a kill: the process of a running pane is
/// killed once and the result is its answer; any other pane is refused and asks
/// nothing.
pub open spec fn kills(
    after: RuntimeView,
    before: RuntimeView,
    reason: KillReason,
    r: Option<ErrorView>,
) -> bool {
    &&& went_on(after, before)
    &&& if !before.backed {
        r == Some(needs_process()) && after == before
    } else if !(before.core.state is Running) {
        r == Some(needs_running(before.core)) && after == before
    } else {
        after == before.ran(after.process, seq![PaneCall::Kill { answer: r }]).booked(
            if r is None {
                before.core.killed(reason)
            } else {
                before.core
            },
        )
    }
}

/// The books after a direct feed that was answered like this.
pub open spec fn noted(core: CoreView, feed: FeedView) -> CoreView {
    match feed {
        Ok(update) => core.fed(update).reported(update),
        Err(_) => core,
    }
}

/// The pane after a direct feed that was answered like this.
pub open spec fn fed_directly(
    pane: RuntimeView,
    bytes: Seq<u8>,
    feed: FeedView,
    screen: PaneScreen,
) -> RuntimeView {
    pane.turned(screen, seq![PaneCall::Feed { bytes, answer: feed }]).booked(noted(pane.core, feed))
}

impl PaneRuntime {
    /// Whether the books are in order, and no call is claimed that was not made.
    pub closed spec fn wf(self) -> bool {
        self.core.wf() && self@.truthful()
    }

    /// The events that were logged, with their times.
    pub closed spec fn events(self) -> Seq<PaneEvent> {
        self.core.events()
    }

    /// A pane with its books, its surface and its process, if it has one.
    pub fn new(
        core: PaneCore,
        screen: PaneScreen,
        process: Option<PaneProcess>,
    ) -> (pane: Self)
        requires
            core.wf(),
        ensures
            pane.wf(),
            pane.events() == core.events(),
            pane@ == (RuntimeView {
                core: core@,
                backed: process is Some,
                process,
                screen,
                calls: seq![],
            }),
    {
        PaneRuntime { core, screen, process, calls: Ghost(Seq::empty()) }
    }

    /// Every call that a pane claims was made, and answered as it says.
    pub proof fn law_calls_happened(self)
        requires
            self.wf(),
        ensures
            self@.truthful(),
    {
    }

    /// The log is numbered from one, without gaps, and the view of it has all of
    /// it.
    pub proof fn law_log_is_numbered(self)
        requires
            self.wf(),
        ensures
            self@.core.numbered(),
            entries(self.events()) == self@.core.log,
    {
        self.core.law_log_is_numbered();
    }

    /// The books.
    pub fn books(&self) -> (core: &PaneCore)
        requires
            self.wf(),
        ensures
            core@ == self@.core,
            core.wf(),
            core.events() == self.events(),
    {
        &self.core
    }

    /// The books, to be written in.
    pub(crate) fn books_mut(&mut self) -> (core: &mut PaneCore)
        requires
            old(self).wf(),
        ensures
            core@ == old(self)@.core,
            core.wf(),
            final(self)@ == (RuntimeView { core: (*final(core))@, ..old(self)@ }),
            final(self).wf() == (*final(core)).wf(),
            core.events() == old(self).events(),
            final(self).events() == (*final(core)).events(),
    {
        &mut self.core
    }

    /// Whether the pane has a process.
    pub fn has_process(&self) -> (b: bool)
        ensures
            b == self@.backed,
    {
        self.process.is_some()
    }

    /// Gives the pane another process.
    pub(crate) fn set_process(&mut self, process: PaneProcess)
        requires
            old(self).wf(),
        ensures
            goes_on(final(self).events(), old(self).events()),
            final(self).wf(),
            final(self)@ == (RuntimeView {
                backed: true,
                process: Some(process),
                ..old(self)@
            }),
    {
        self.process = Some(process);
    }

    /// Puts the pane away and says how it ended, if it did.
    pub fn remove_exit(self) -> (exit: Option<crate::pane_core::PaneExit>)
        ensures
            crate::pane_core::opt_exit(exit) == self@.core.outcome(),
    {
        self.core.remove_exit()
    }

    /// Records output, feeds it to the surface, and fails the pane if the
    /// surface refuses it. The surface's answer comes back, an error as the
    /// surface error that the pane failed with.
    fn feed_output(&mut self, bytes: &[u8]) -> (r: (Result<()>, Ghost<FeedView>))
        requires
            old(self).wf(),
        ensures
            goes_on(final(self).events(), old(self).events()),
            final(self).wf(),
            final(self)@ == old(self)@.took_frame(
                FrameView::Output(bytes@),
                r.1@,
                final(self)@.screen,
            ),
            went_on(final(self)@, old(self)@),
            match r.0 {
                Ok(_) => r.1@ is Ok,
                Err(error) => r.1@ matches Err(e) && error@ == as_surface_error(e),
            },
    {
        let ghost before = self@;
        let event = self.core.record_output(bytes);
        let (fed, _) = self.screen.feed(bytes);
        let ghost feed = feed_view(fed);
        proof {
            let call = PaneCall::Feed { bytes: bytes@, answer: feed };
            lemma_feed_leads(before.parties(), self@.parties(), bytes, fed);
            lemma_one_call(before.calls, call, before.parties(), self@.parties());
            self.calls@ = self.calls@ + seq![call];
            lemma_truthful(self@, before);
        }
        match self.core.report_output(event, fed) {
            Ok(_) => (Ok(()), Ghost(feed)),
            Err(error) => {
                let error = surface_error(error);
                self.core.fail(error.clone());
                (Err(error), Ghost(feed))
            },
        }
    }

    fn next_frame(&mut self) -> (frame: Option<PtyFrame>)
        requires
            old(self).wf(),
        ensures
            goes_on(final(self).events(), old(self).events()),
            final(self).wf(),
            old(self)@.backed ==> final(self)@ == received(
                old(self)@,
                opt_frame(frame),
                final(self)@.process,
            ),
            !old(self)@.backed ==> frame is None && final(self)@ == old(self)@,
            went_on(final(self)@, old(self)@),
    {
        let ghost before = self@;
        proof {
            law_going_on(before, before, before);
        }
        let (frame, _) = match &mut self.process {
            Some(process) => process.receive(),
            None => {
                return None;
            },
        };
        proof {
            let call = PaneCall::Receive { answer: opt_frame(frame) };
            assert(process_asked(before.process->0, self@.process->0, frame));
            assert(call.leads(before.parties(), self@.parties()));
            lemma_one_call(before.calls, call, before.parties(), self@.parties());
            self.calls@ = self.calls@ + seq![call];
            lemma_truthful(self@, before);
        }
        frame
    }

    /// Takes in one frame.
    pub fn take_frame(&mut self, frame: PtyFrame)
        requires
            old(self).wf(),
        ensures
            goes_on(final(self).events(), old(self).events()),
            final(self).wf(),
            exists|feed: FeedView|
                final(self)@ == #[trigger] old(self)@.took_frame(
                    frame@,
                    feed,
                    final(self)@.screen,
                ),
            !(frame@ is Output) ==> final(self)@.screen == old(self)@.screen,
            went_on(final(self)@, old(self)@),
    {
        let ghost before = self@;
        let ghost refused: FeedView = Err(needs_process());
        proof {
            assert(before.calls + seq![] =~= before.calls);
            law_going_on(before, before, before);
        }
        match frame {
            PtyFrame::Output { bytes, .. } => {
                let (_, feed) = self.feed_output(bytes.as_slice());
                assert(self@ == before.took_frame(frame@, feed@, self@.screen));
            },
            PtyFrame::Overflow { dropped_frames, dropped_bytes, .. } => {
                self.core.lose(dropped_frames, dropped_bytes);
                assert(self@ =~= before.took_frame(frame@, refused, self@.screen));
            },
            PtyFrame::Error { message, .. } => {
                self.core.fail(PaneError::Io { operation: IoOperation::Read, message });
                assert(self@ =~= before.took_frame(frame@, refused, self@.screen));
            },
            PtyFrame::Exited { code, .. } => {
                self.core.exit(code);
                assert(self@ =~= before.took_frame(frame@, refused, self@.screen));
            },
            PtyFrame::CursorPositionRequest { .. } => {
                assert(self@ =~= before.took_frame(frame@, refused, self@.screen));
            },
        }
    }

    /// Takes in pending frames, `limit` at most, and tells whether none was
    /// pending at the end. A pane without a process has none.
    pub fn poll(&mut self, limit: u64) -> (quiet: bool)
        requires
            old(self).wf(),
        ensures
            goes_on(final(self).events(), old(self).events()),
            final(self).wf(),
            final(self)@.backed == old(self)@.backed,
            absorbed_to(final(self)@, old(self)@, limit as nat, quiet),
            !old(self)@.backed && limit > 0 ==> quiet,
            !old(self)@.backed || limit == 0 ==> final(self)@ == old(self)@,
    {
        let ghost start = self@;
        let ghost logged = self.events();
        let ghost mut frames = Seq::<(FrameView, FeedView)>::empty();
        let mut left = limit;
        let mut quiet = false;
        proof {
            assert(start.calls + frame_calls(frames) + seq![] =~= start.calls);
            law_going_on(start, start, start);
        }
        while left > 0 && !quiet
            invariant
                self.wf(),
                left <= limit,
                frames.len() + left + (if quiet { 1int } else { 0 }) == limit,
                absorbs(self@, start, frames, quiet),
                goes_on(self.events(), logged),
                !start.backed ==> self@ == start && (left < limit ==> quiet),
                left == limit ==> self@ == start,
            decreases left,
        {
            let ghost before = self@;
            match self.next_frame() {
                Some(frame) => {
                    let ghost handed = self@;
                    self.take_frame(frame);
                    proof {
                        let feed = choose|feed: FeedView|
                            self@ == #[trigger] handed.took_frame(frame@, feed, self@.screen);
                        law_going_on(self@, handed, before);
                        lemma_absorbs_more(self@, before, start, frames, frame@, feed);
                        frames = frames.push((frame@, feed));
                    }
                },
                None => {
                    quiet = true;
                    proof {
                        lemma_absorbs_no_more(self@, before, start, frames);
                    }
                },
            }
            left = left - 1;
        }
        assert(absorbs(self@, start, frames, quiet));
        quiet
    }

    /// Sends raw bytes to the child.
    ///
    /// # Errors
    ///
    /// Returns an error if the pane has no process, has ended, or if the write
    /// fails. All but the first are reported as events.
    pub fn write(&mut self, bytes: &[u8], input_kind: InputKind) -> (r: Result<()>)
        requires
            old(self).wf(),
        ensures
            goes_on(final(self).events(), old(self).events()),
            final(self).wf(),
            pane_sends(final(self)@, old(self)@, bytes@, input_kind, error_of(r)),
    {
        let ghost before = self@;
        proof {
            law_going_on(before, before, before);
        }
        let writer = match &self.process {
            None => {
                return Err(no_process());
            },
            Some(process) => if self.core.is_live() {
                Some(process.writer())
            } else {
                None
            },
        };
        let written = match writer {
            Some(mut writer) => {
                let ghost lent = writer;
                let written = writer.write_bytes(bytes);
                proof {
                    let call = PaneCall::Write { bytes: bytes@, answer: error_of(written) };
                    assert(before.process->0.lends(lent) && writes(
                        lent.sink(),
                        writer.sink(),
                        bytes,
                        written,
                    ));
                    assert(call.leads(before.parties(), before.parties()));
                    lemma_one_call(before.calls, call, before.parties(), before.parties());
                    self.calls@ = self.calls@ + seq![call];
                    lemma_truthful(self@, before);
                }
                written
            },
            None => Err(
                PaneError::Io {
                    operation: IoOperation::Write,
                    message: "pane has already terminated; cannot write input".to_owned(),
                },
            ),
        };
        assert(self@.truthful());
        let ghost calls = self@.calls;
        match written {
            Ok(_) => {
                self.core.send(input_kind, bytes.len());
                assert(self@.calls == calls);
                Ok(())
            },
            Err(error) => {
                self.core.report_error(error.clone());
                Err(error)
            },
        }
    }

    /// Makes one attempt to write `bytes` to the child, or flushes. The attempt
    /// is made on the bytes from where it says on.
    pub fn attempt(&mut self, attempt: WriteAttempt, bytes: &[u8]) -> (r: Result<WriteReply>)
        requires
            old(self).wf(),
            attempt matches WriteAttempt::Write { from } ==> from <= bytes@.len(),
        ensures
            goes_on(final(self).events(), old(self).events()),
            final(self).wf(),
            match r {
                Ok(reply) => {
                    &&& old(self)@.backed
                    &&& fits(reply, attempt, bytes@.len())
                    &&& final(self)@ == attempted(old(self)@, attempt, bytes@, reply)
                    &&& went_on(final(self)@, old(self)@)
                },
                Err(e) => !old(self)@.backed && e@ == needs_process() && final(self)@ == old(
                    self,
                )@,
            },
    {
        let ghost before = self@;
        let mut writer = match &self.process {
            None => {
                return Err(no_process());
            },
            Some(process) => process.writer(),
        };
        let ghost lent = writer;
        let reply = writer.attempt(attempt, bytes);
        proof {
            let call = PaneCall::Attempt { attempt, bytes: bytes@, reply };
            lemma_attempt_leads(
                before.parties(),
                lent,
                writer.sink(),
                attempt,
                bytes@,
                reply,
            );
            lemma_one_call(before.calls, call, before.parties(), before.parties());
            self.calls@ = self.calls@ + seq![call];
            lemma_truthful(self@, before);
        }
        Ok(reply)
    }

    /// Kills the child of a running pane.
    ///
    /// # Errors
    ///
    /// Returns an error if the pane has no process or is not running, or if
    /// the process cannot be killed. The books stay as they are then.
    pub fn kill(&mut self, reason: KillReason) -> (r: Result<()>)
        requires
            old(self).wf(),
        ensures
            goes_on(final(self).events(), old(self).events()),
            final(self).wf(),
            final(self)@.backed == old(self)@.backed,
            !old(self)@.backed ==> error_of(r) == Some(needs_process()),
            old(self)@.backed && !(old(self)@.core.state is Running) ==> error_of(r) == Some(
                needs_running(old(self)@.core),
            ),
            kills(final(self)@, old(self)@, reason, error_of(r)),
    {
        let ghost before = self@;
        proof {
            law_going_on(before, before, before);
        }
        let (killed, _) = match &mut self.process {
            None => {
                return Err(no_process());
            },
            Some(process) => {
                if !self.core.is_running() {
                    return Err(
                        PaneError::InvalidState {
                            expected: "Running".to_owned(),
                            actual: state_label(self.core.state()),
                        },
                    );
                }
                process.kill()
            },
        };
        proof {
            let call = PaneCall::Kill { answer: error_of(killed) };
            assert(process_killed(before.process->0, self@.process->0, killed));
            assert(call.leads(before.parties(), self@.parties()));
            lemma_one_call(before.calls, call, before.parties(), self@.parties());
            self.calls@ = self.calls@ + seq![call];
            lemma_truthful(self@, before);
        }
        if killed.is_ok() {
            self.core.kill(reason);
        }
        killed
    }

    /// Resizes the child of a running pane, and the surface.
    ///
    /// # Errors
    ///
    /// Returns an error if the size is not one a terminal can have, or if the
    /// surface or the process refuses it. The books stay as they are then.
    pub fn resize(&mut self, size: Size) -> (r: Result<()>)
        requires
            old(self).wf(),
        ensures
            goes_on(final(self).events(), old(self).events()),
            final(self).wf(),
            final(self)@.backed == old(self)@.backed,
            !size.valid() ==> error_of(r) == Some(
                ErrorView::InvalidSize { rows: size.rows, cols: size.cols },
            ),
            !size.valid() ==> final(self)@ == old(self)@,
            size.valid() ==> resizes(final(self)@, old(self)@, size, error_of(r)),
    {
        let ghost before = self@;
        proof {
            law_going_on(before, before, before);
        }
        if let Err(error) = Size::try_new(size.rows, size.cols) {
            return Err(error);
        }
        let judged = self.screen.judge(size);
        assert(before.screen.judges(size, judged));
        if let Err(error) = judged {
            return Err(error);
        }
        let running = self.core.is_running();
        if let Err(error) = self.resize_process(size, running) {
            return Err(error);
        }
        let ghost middle = self@;
        let r = self.resize_screen(size);
        proof {
            law_going_on(self@, middle, before);
        }
        if r.is_ok() {
            self.core.resize(size);
        }
        proof {
            let now = self@.booked(before.core);
            assert(now == reshaped(middle, size, error_of(r), now.screen));
            assert(now.booked(before.core) == now);
        }
        r
    }

    fn resize_process(&mut self, size: Size, due: bool) -> (r: Result<()>)
        requires
            old(self).wf(),
        ensures
            goes_on(final(self).events(), old(self).events()),
            final(self).wf(),
            old(self)@.backed && due ==> final(self)@ == refitted(
                old(self)@,
                size,
                error_of(r),
                final(self)@.process,
            ),
            !(old(self)@.backed && due) ==> r is Ok && final(self)@ == old(self)@,
            went_on(final(self)@, old(self)@),
    {
        let ghost before = self@;
        proof {
            law_going_on(before, before, before);
        }
        if !due {
            return Ok(());
        }
        let (r, _) = match &mut self.process {
            None => {
                return Ok(());
            },
            Some(process) => process.refit(size),
        };
        proof {
            let call = PaneCall::Refit { size, answer: error_of(r) };
            assert(process_resized(before.process->0, self@.process->0, size, r));
            assert(call.leads(before.parties(), self@.parties()));
            lemma_one_call(before.calls, call, before.parties(), self@.parties());
            self.calls@ = self.calls@ + seq![call];
            lemma_truthful(self@, before);
        }
        r
    }

    fn resize_screen(&mut self, size: Size) -> (r: Result<()>)
        requires
            old(self).wf(),
        ensures
            goes_on(final(self).events(), old(self).events()),
            final(self).wf(),
            final(self)@ == reshaped(old(self)@, size, error_of(r), final(self)@.screen),
            went_on(final(self)@, old(self)@),
    {
        let ghost before = self@;
        let (r, _) = self.screen.resize(size);
        proof {
            let call = PaneCall::Reshape { size, answer: error_of(r) };
            lemma_reshape_leads(before.parties(), self@.parties(), size, r);
            lemma_one_call(before.calls, call, before.parties(), self@.parties());
            self.calls@ = self.calls@ + seq![call];
            lemma_truthful(self@, before);
        }
        r
    }

    /// The modes of the terminal: those of the surface and those that the
    /// output selected.
    pub fn modes(&self) -> (modes: TerminalModes)
        requires
            self.wf(),
        ensures
            exists|told: TerminalModes|
                modes == #[trigger] merged(self@.core.overlay.flags, told) && self@.screen.tells(
                    told,
                ),
    {
        self.core.mode_overlay().merge_with(self.screen.modes())
    }

    /// A snapshot of the pane.
    pub fn snapshot(&self) -> (snapshot: PaneSnapshot<'_>)
        requires
            self.wf(),
        ensures
            exists|showing: Showing|
                snapshot@ == #[trigger] self@.core.pictured(showing) && self@.shows(showing),
    {
        let cursor = self.screen.cursor();
        let modes = self.screen.modes();
        let surface = self.screen.snapshot();
        let ghost showing = Showing { surface: surface@, cursor, modes };
        let snapshot = pane_snapshot(&self.core, surface, cursor, modes);
        assert(snapshot@ == self@.core.pictured(showing));
        snapshot
    }

    /// The retained scrollback.
    pub fn scrollback(&self) -> (scrollback: ScrollbackSnapshot<'_>)
        requires
            self.wf(),
        ensures
            self@.screen.keeps(scrollback@),
    {
        self.screen.scrollback()
    }

    /// What the surface says of itself.
    pub fn metadata(&self) -> (metadata: SurfaceBackendMetadata)
        requires
            self.wf(),
        ensures
            self@.screen.describes(metadata),
    {
        self.screen.metadata()
    }

    /// The text against which an echo is verified: what the surface keeps as
    /// scrollback, then what it shows.
    pub fn text(&self) -> (text: String)
        requires
            self.wf(),
        ensures
            self@.reads(text@),
    {
        let scrollback = self.screen.scrollback();
        let screen = self.screen.snapshot();
        assert(self@.screen.keeps(scrollback@) && self@.screen.shows(screen@));
        verification_text(&scrollback, &screen)
    }

    /// Feeds the surface without recording anything but the change.
    ///
    /// # Errors
    ///
    /// Returns what the surface answered. The books stay as they are if it
    /// refused.
    pub fn feed_surface(&mut self, bytes: &[u8]) -> (r: Result<SurfaceUpdate>)
        requires
            old(self).wf(),
        ensures
            goes_on(final(self).events(), old(self).events()),
            final(self).wf(),
            screen_fed(old(self)@.screen, final(self)@.screen, bytes, r),
            final(self)@ == fed_directly(old(self)@, bytes@, feed_view(r), final(self)@.screen),
            went_on(final(self)@, old(self)@),
    {
        let ghost before = self@;
        let (answer, _) = self.screen.feed(bytes);
        proof {
            let call = PaneCall::Feed { bytes: bytes@, answer: feed_view(answer) };
            lemma_feed_leads(before.parties(), self@.parties(), bytes, answer);
            lemma_one_call(before.calls, call, before.parties(), self@.parties());
            self.calls@ = self.calls@ + seq![call];
            lemma_truthful(self@, before);
        }
        self.note_answer(answer)
    }

    /// Books what the surface answered to a feed, and returns it.
    pub fn note_answer(&mut self, answer: Result<SurfaceUpdate>) -> (r: Result<SurfaceUpdate>)
        requires
            old(self).wf(),
        ensures
            goes_on(final(self).events(), old(self).events()),
            final(self).wf(),
            r == answer,
            final(self)@ == old(self)@.booked(noted(old(self)@.core, feed_view(answer))),
    {
        if let Ok(update) = &answer {
            self.core.note_feed(*update);
            self.core.report_update(*update);
        }
        answer
    }

    /// Takes in output that came from elsewhere than the process.
    pub fn take_output(&mut self, bytes: &[u8])
        requires
            old(self).wf(),
        ensures
            goes_on(final(self).events(), old(self).events()),
            final(self).wf(),
            exists|feed: FeedView|
                final(self)@ == #[trigger] old(self)@.took_frame(
                    FrameView::Output(bytes@),
                    feed,
                    final(self)@.screen,
                ),
            went_on(final(self)@, old(self)@),
    {
        let _ = self.feed_output(bytes);
    }

    /// Checks that the pane can be attached, and returns the size it has.
    ///
    /// # Errors
    ///
    /// Returns an error if the pane has no process, is not running, or is
    /// attached already.
    pub fn prepare_attach(&self) -> (r: Result<Size>)
        requires
            self.wf(),
        ensures
            match r {
                Ok(size) => attach_refusal(self@) is None && self@.screen.measures(size),
                Err(e) => attach_refusal(self@) == Some(e@),
            },
    {
        if self.process.is_none() {
            return Err(no_process());
        }
        if !self.core.is_running() {
            return Err(
                PaneError::InvalidState {
                    expected: "Running".to_owned(),
                    actual: state_label(self.core.state()),
                },
            );
        }
        if self.core.interaction_mode() != PaneInteractionMode::Embedded {
            return Err(
                PaneError::InvalidState {
                    expected: "Embedded interaction mode".to_owned(),
                    actual: mode_label(self.core.interaction_mode()),
                },
            );
        }
        Ok(self.screen.size())
    }

    fn attach_resize(&mut self, size: Size) -> (r: core::result::Result<(), AttachFailure>)
        requires
            old(self).wf(),
        ensures
            goes_on(final(self).events(), old(self).events()),
            final(self).wf(),
            pane_served(
                ReplyView::Resized(pane_result(r)),
                final(self)@,
                old(self)@,
                RequestView::Resize(size),
            ),
            result_fits(pane_result(r), true),
    {
        let ghost before = self@;
        proof {
            law_going_on(before, before, before);
        }
        if let Err(error) = Size::try_new(size.rows, size.cols) {
            return Err(AttachFailure::Pane { error });
        }
        let judged = self.screen.judge(size);
        assert(before.screen.judges(size, judged));
        if let Err(error) = judged {
            return Err(step_failure(AttachStepKind::SurfaceResize, &error));
        }
        let live = self.core.is_live();
        if let Err(error) = self.resize_process(size, live) {
            assert(self@ == refitted(before, size, Some(error@), self@.process));
            return Err(step_failure(AttachStepKind::PtyResize, &error));
        }
        let ghost middle = self@;
        let reshape = self.resize_screen(size);
        proof {
            law_going_on(self@, middle, before);
        }
        assert(self@ == reshaped(middle, size, error_of(reshape), self@.screen));
        match reshape {
            Ok(_) => Ok(()),
            Err(error) => Err(step_failure(AttachStepKind::SurfaceResize, &error)),
        }
    }

    fn attach_feed(&mut self, bytes: &[u8]) -> (reply: AttachReply)
        requires
            old(self).wf(),
        ensures
            goes_on(final(self).events(), old(self).events()),
            final(self).wf(),
            attach_fed(final(self)@, old(self)@, bytes@, reply@),
            went_on(final(self)@, old(self)@),
            reply@ matches ReplyView::Fed(r) && result_fits(r, true),
    {
        let ghost before = self@;
        let (fed, feed) = self.feed_output(bytes);
        let reply = AttachReply::Fed(
            match fed {
                Ok(_) => Ok(()),
                Err(error) => Err(
                    AttachFailure::Step {
                        kind: AttachStepKind::SurfaceFeed,
                        message: error.to_string(),
                    },
                ),
            },
        );
        proof {
            reveal(attach_fed);
            assert(self@ == before.took_frame(FrameView::Output(bytes@), feed@, self@.screen)
                && reply@ == feed_reply(feed@));
        }
        reply
    }

    /// Does what an attach asks of the pane. Only output that is fed changes
    /// the books; a pane that has lost its process refuses input and frames.
    pub fn serve(&mut self, request: &AttachRequest) -> (reply: AttachReply)
        requires
            old(self).wf(),
            for_pane(request@),
        ensures
            goes_on(final(self).events(), old(self).events()),
            final(self).wf(),
            answers(reply@, request@, true),
            pane_served(reply@, final(self)@, old(self)@, request@),
    {
        proof {
            law_going_on(self@, self@, self@);
        }
        match request {
            AttachRequest::Resize(size) => AttachReply::Resized(self.attach_resize(*size)),
            AttachRequest::SendInput(bytes) => self.attach_send(bytes.as_slice()),
            AttachRequest::Receive => if self.process.is_none() {
                AttachReply::Received(Err(AttachFailure::Pane { error: no_process() }))
            } else {
                let ghost before = self@;
                let frame = self.next_frame();
                assert(self@ == received(before, opt_frame(frame), self@.process));
                AttachReply::Received(Ok(frame))
            },
            AttachRequest::Feed(bytes) => self.attach_feed(bytes.as_slice()),
            AttachRequest::Measure => {
                let scrollback = self.screen.scrollback();
                let size = self.screen.size();
                let rows = ContentRows {
                    surface: size.rows as usize,
                    scrollback: scrollback.lines.len(),
                };
                assert(self@.screen.measures(size) && self@.screen.keeps(scrollback@));
                AttachReply::Measured(rows)
            },
            AttachRequest::Render { viewport, size } => {
                let snapshot = self.snapshot();
                let scrollback = self.screen.scrollback();
                let bytes = render_attach_viewport_bytes(&snapshot, &scrollback, *viewport, *size);
                proof {
                    let showing = choose|showing: Showing|
                        snapshot@ == #[trigger] self@.core.pictured(showing) && self@.shows(
                            showing,
                        );
                    assert(self@.shows(showing) && self@.screen.keeps(scrollback@));
                }
                AttachReply::Rendered(Ok(bytes))
            },
            _ => AttachReply::Slept,
        }
    }

    fn attach_send(&mut self, bytes: &[u8]) -> (reply: AttachReply)
        requires
            old(self).wf(),
        ensures
            goes_on(final(self).events(), old(self).events()),
            final(self).wf(),
            answers(reply@, RequestView::SendInput(bytes@), true),
            pane_served(reply@, final(self)@, old(self)@, RequestView::SendInput(bytes@)),
    {
        let ghost before = self@;
        proof {
            law_going_on(before, before, before);
        }
        let mut writer = match &self.process {
            None => {
                return AttachReply::Sent(Err(AttachFailure::Pane { error: no_process() }));
            },
            Some(process) => process.writer(),
        };
        let ghost lent = writer;
        let sent = writer.write_bytes(bytes);
        proof {
            let call = PaneCall::Write { bytes: bytes@, answer: error_of(sent) };
            assert(before.process->0.lends(lent) && writes(
                lent.sink(),
                writer.sink(),
                bytes,
                sent,
            ));
            assert(call.leads(before.parties(), before.parties()));
            lemma_one_call(before.calls, call, before.parties(), before.parties());
            self.calls@ = self.calls@ + seq![call];
            lemma_truthful(self@, before);
            assert(self@ == written(before, bytes@, error_of(sent)));
        }
        AttachReply::Sent(
            match sent {
                Ok(_) => Ok(()),
                Err(error) => Err(step_failure(AttachStepKind::PtyWrite, &error)),
            },
        )
    }
}

} // verus!
