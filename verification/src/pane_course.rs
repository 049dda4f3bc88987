//! What each happening does to the books of a pane: its state, how it will be
//! said to have ended, and the events that tell of it.

use vstd::prelude::*;

use crate::attach_plan::NoteView;
use crate::error::{ErrorView, IoOperation};
use crate::event::{
    AttachEndedEvent, AttachScreenPolicy, AttachStartedEvent, DirtyRows, EventEntry, EventView,
    ExitedEvent, InputKind, InputSentEvent, OutputEvent, OverflowEvent, OverflowQueue, ResizedEvent,
    SurfaceChangedEvent, TranscriptRotatedEvent,
};
use crate::pane::{
    opt_text, KillReason, PaneConfig, PaneId, PaneInteractionMode, Size, StateView, TranscriptMode,
};
use crate::pane_core::{CoreView, ExitView};
use crate::pty::FrameView;
use crate::repro::ReproSizeEvent;
use crate::surface::SurfaceUpdate;
use crate::time::Duration;

verus! {

/// Whether the last events of a log are of these kinds, in this order, and
/// numbered as they stand.
pub open spec fn ends_with(core: CoreView, kinds: Seq<EventView>) -> bool {
    &&& core.log.len() >= kinds.len()
    &&& forall|i: int|
        0 <= i < kinds.len() ==> #[trigger] core.log[core.log.len() - kinds.len() + i] == (
        EventEntry {
            pane: core.pane,
            seq: (core.log.len() - kinds.len() + i + 1) as u64,
            kind: kinds[i],
        })
}

/// Whether all but the log, the transcript and what is told of an exit is as it
/// was.
pub open spec fn otherwise_kept(after: CoreView, before: CoreView) -> bool {
    &&& after.pane == before.pane
    &&& after.title == before.title
    &&& after.config == before.config
    &&& after.mode == before.mode
    &&& after.input == before.input
}

/// How a pane that ends like this will be said to have ended: as it was killed
/// or failed before, if it was.
pub open spec fn end_kept(before: Option<ExitView>, exit: ExitView) -> Option<ExitView> {
    match before {
        Some(ExitView::Killed { reason }) => Some(ExitView::Killed { reason }),
        Some(ExitView::Failed { error }) => Some(ExitView::Failed { error }),
        _ => Some(exit),
    }
}

/// A pane starts with its start and its first change of state told of, runs
/// embedded at the size it was given, has put nothing out and has not ended.
pub proof fn law_panes_start(pane: PaneId, config: PaneConfig)
    ensures
        ({
            let core = CoreView::spawned(pane, config);
            &&& core.pane == pane
            &&& core.config == config
            &&& core.title == opt_text(config.title)
            &&& core.input == config.input
            &&& core.state is Running
            &&& core.mode == PaneInteractionMode::Embedded
            &&& core.exit is None && !core.exit_seen
            &&& core.outcome() is None
            &&& core.log.len() == 2
            &&& ends_with(
                core,
                seq![
                    EventView::Spawned { program: config.command.program@ },
                    EventView::StateChanged { old: StateView::Starting, new: StateView::Running },
                ],
            )
            &&& core.sizes == seq![ReproSizeEvent { transcript_offset: 0, size: config.size }]
            &&& core.generation == 0 && core.stats.scrollback_lines_dropped == 0
            &&& core.transcript.chunks.len() == 0 && core.transcript.pending.len() == 0
            &&& core.transcript.raw_start == 0 && core.transcript.plain_start == 0
            &&& core.transcript.config == config.transcript
        }),
{
}

/// Output that the surface takes in is recorded, scanned for modes, counted and
/// told of: where it stands in the transcript, how long it is and whether it
/// holds an escape byte, and what it changed on the surface, if anything.
pub proof fn law_output_is_booked(core: CoreView, bytes: Seq<u8>, update: SurfaceUpdate)
    requires
        bytes.len() <= usize::MAX,
        core.generation < u64::MAX,
        core.stats.scrollback_lines_dropped + update.scrollback_lines_dropped <= u64::MAX,
    ensures
        ({
            let next = core.took(FrameView::Output(bytes), Ok(update));
            let rotated = core.transcript.added(bytes).rotated();
            let output = EventView::Output(
                OutputEvent {
                    bytes_len: bytes.len() as usize,
                    transcript_offset: if core.transcript.config.mode == TranscriptMode::Disabled {
                        None
                    } else {
                        Some(core.transcript.next_offset())
                    },
                    contains_escape: exists|i: int| 0 <= i < bytes.len() && bytes[i] == 0x1b,
                },
            );
            let changed = EventView::SurfaceChanged(
                SurfaceChangedEvent {
                    generation: (core.generation + 1) as u64,
                    dirty_rows: update.dirty_rows,
                    cursor_changed: update.cursor_changed,
                    title_changed: update.title_changed,
                    modes_changed: update.modes_changed,
                    scrollback_changed: update.scrollback_changed,
                },
            );
            let shown = update.dirty_rows != DirtyRows::NoRows || update.cursor_changed
                || update.title_changed || update.modes_changed || update.scrollback_changed;
            let more: int = if rotated.1 is Some {
                1
            } else {
                0
            };
            &&& otherwise_kept(next, core)
            &&& next.state == core.state && next.exit == core.exit
            &&& next.exit_seen == core.exit_seen && next.sizes == core.sizes
            &&& next.overlay == core.overlay.after(bytes)
            &&& next.transcript == rotated.0
            &&& next.generation == core.generation + 1
            &&& next.stats.scrollback_lines_dropped == core.stats.scrollback_lines_dropped
                + update.scrollback_lines_dropped
            &&& if shown {
                ends_with(next, seq![output, changed]) && next.log.len() == core.log.len() + more
                    + 2
            } else {
                ends_with(next, seq![output]) && next.log.len() == core.log.len() + more + 1
            }
            &&& rotated.1 matches Some(rotation) ==> next.log[core.log.len() as int].kind
                == EventView::TranscriptRotated(
                TranscriptRotatedEvent {
                    chunks_dropped: rotation.chunks_dropped,
                    bytes_dropped: rotation.bytes_dropped,
                    raw_bytes_dropped: rotation.raw_bytes_dropped,
                    plain_bytes_dropped: rotation.plain_bytes_dropped,
                },
            )
        }),
{
    assert(bytes.contains(0x1b) <==> exists|i: int| 0 <= i < bytes.len() && bytes[i] == 0x1b);
}

/// Whether a running pane has failed with an error, and that is told of last: the
/// error, then the change of state.
pub open spec fn failed_with(after: CoreView, before: CoreView, error: ErrorView) -> bool {
    &&& after.state == (StateView::Failed { error })
    &&& after.exit == end_kept(before.exit, ExitView::Failed { error })
    &&& ends_with(
        after,
        seq![
            EventView::Error(error),
            EventView::StateChanged { old: before.state, new: after.state },
        ],
    )
    &&& otherwise_kept(after, before)
    &&& after.sizes == before.sizes
    &&& after.transcript.pending.len() == 0
}

proof fn lemma_failed_with(core: CoreView, error: ErrorView)
    requires
        core.state.is_live(),
    ensures
        failed_with(core.failed(error), core, error),
        core.failed(error).overlay == core.overlay,
        core.failed(error).generation == core.generation,
        core.failed(error).log.len() > core.log.len(),
        core.failed(error).log.take(core.log.len() as int) == core.log,
{
    let flushed = core.flushed();
    assert(flushed.log.take(core.log.len() as int) =~= core.log);
    assert(core.failed(error).log.take(core.log.len() as int) =~= core.log);
}

/// A running pane that fails is told of as failed and stays so. What the reader
/// of the process reports fails it as an error of reading.
pub proof fn law_failures_are_booked(core: CoreView, message: Seq<char>)
    requires
        core.state.is_live(),
    ensures
        failed_with(
            core.took(FrameView::Error(message), Err(ErrorView::Surface { message })),
            core,
            ErrorView::Io { operation: IoOperation::Read, message },
        ),
{
    lemma_failed_with(core, ErrorView::Io { operation: IoOperation::Read, message });
}

/// Output that the surface refuses is recorded and told of all the same, and
/// fails a running pane as an error of the surface.
pub proof fn law_refused_output_is_booked(core: CoreView, bytes: Seq<u8>, message: Seq<char>)
    requires
        core.state.is_live(),
    ensures
        ({
            let error = ErrorView::Surface { message };
            let next = core.took(FrameView::Output(bytes), Err(error));
            &&& failed_with(next, core, error)
            &&& next.overlay == core.overlay.after(bytes)
            &&& next.generation == core.generation
            &&& exists|i: int|
                core.log.len() <= i < next.log.len() && (#[trigger] next.log[i]).kind is Output
        }),
{
    let error = ErrorView::Surface { message };
    let told = core.output(bytes, Err(error));
    lemma_failed_with(told, error);
    let next = core.took(FrameView::Output(bytes), Err(error));
    let at = told.log.len() - 1;
    assert(told.log[at].kind is Output);
    assert(next.log.take(told.log.len() as int)[at] == next.log[at]);
}

/// A child that exits leaves a running pane exited, with its code; the exit is
/// told of, then the change of state, and what the transcript held back is
/// recorded. A pane that ended before stays as it ended, and the exit is told of.
pub proof fn law_exits_are_booked(core: CoreView, code: Option<i32>)
    ensures
        ({
            let next = core.took(FrameView::Exited(code), Err(ErrorView::Surface { message: seq![] }));
            let exit = EventView::Exited(ExitedEvent { code });
            &&& next.exit_seen
            &&& next.transcript.pending.len() == 0
            &&& otherwise_kept(next, core)
            &&& if core.state.is_live() {
                &&& next.state == (StateView::Exited { code })
                &&& next.exit == end_kept(core.exit, ExitView::Exited { code })
                &&& ends_with(
                    next,
                    seq![exit, EventView::StateChanged { old: core.state, new: next.state }],
                )
            } else {
                &&& next.state == core.state
                &&& next.exit == core.exit
                &&& ends_with(next, seq![exit])
            }
        }),
{
}

/// A pane that is killed is told of as killed, for its reason, and will be said
/// to have ended so, unless it was killed or had failed before.
pub proof fn law_kills_are_booked(core: CoreView, reason: KillReason)
    ensures
        ({
            let next = core.killed(reason);
            &&& next.state == (StateView::Killed { reason })
            &&& next.exit == end_kept(core.exit, ExitView::Killed { reason })
            &&& next.log.len() == core.log.len() + 1
            &&& ends_with(
                next,
                seq![EventView::StateChanged { old: core.state, new: next.state }],
            )
            &&& otherwise_kept(next, core) && next.transcript == core.transcript
        }),
{
}

/// A resize is told of and kept with the place in the raw output at which it
/// came.
pub proof fn law_resizes_are_booked(core: CoreView, size: Size)
    ensures
        ({
            let next = core.resized(size);
            &&& next.sizes == core.sizes.push(
                ReproSizeEvent { transcript_offset: core.transcript.next_raw(), size },
            )
            &&& next.log.len() == core.log.len() + 1
            &&& ends_with(next, seq![EventView::Resized(ResizedEvent { size })])
            &&& otherwise_kept(next, core) && next.state == core.state && next.exit == core.exit
        }),
{
}

/// Input that was sent is told of by its kind and length, lost output by how
/// much was lost, and a request for the cursor's place leaves no trace.
pub proof fn law_traffic_is_booked(
    core: CoreView,
    input_kind: InputKind,
    len: nat,
    dropped_frames: u64,
    dropped_bytes: u64,
)
    requires
        len <= usize::MAX,
    ensures
        ({
            let sent = core.sent(input_kind, len);
            let none = Err(ErrorView::Surface { message: seq![] });
            let lost = core.took(FrameView::Overflow { dropped_frames, dropped_bytes }, none);
            &&& sent.log.len() == core.log.len() + 1
            &&& ends_with(
                sent,
                seq![
                    EventView::InputSent(
                        InputSentEvent { input_kind, bytes_len: len as usize, recorded: false },
                    ),
                ],
            )
            &&& otherwise_kept(sent, core) && sent.state == core.state
            &&& lost.log.len() == core.log.len() + 1
            &&& ends_with(
                lost,
                seq![
                    EventView::Overflow(
                        OverflowEvent {
                            dropped_frames,
                            dropped_bytes,
                            queue: OverflowQueue::PtyOutputFrames,
                        },
                    ),
                ],
            )
            &&& otherwise_kept(lost, core) && lost.state == core.state
            &&& core.took(FrameView::CursorPositionRequest, none) == core
        }),
{
}

/// How a pane is said to have ended: as it was kept, else as its state says; a
/// pane that runs has not ended.
pub proof fn law_ends_are_told(core: CoreView)
    ensures
        core.exit is Some ==> core.outcome() == core.exit,
        core.exit is None && core.state.is_live() ==> core.outcome() is None,
        core.exit is None ==> (core.state matches StateView::Exited { code } ==> core.outcome()
            == Some(ExitView::Exited { code })),
        core.exit is None ==> (core.state matches StateView::Killed { reason } ==> core.outcome()
            == Some(ExitView::Killed { reason })),
        core.exit is None ==> (core.state matches StateView::Failed { error } ==> core.outcome()
            == Some(ExitView::Failed { error })),
{
}

/// A pane that is put away has nothing held back any more, and if it was killed
/// or failed and its exit was never told of, that is told of now.
pub proof fn law_panes_are_put_away(core: CoreView)
    ensures
        ({
            let next = core.retired();
            let owed = (core.state is Killed || core.state is Failed) && !core.exit_seen;
            &&& next.transcript.pending.len() == 0
            &&& next.exit_seen == (core.exit_seen || owed)
            &&& owed ==> ends_with(next, seq![EventView::Exited(ExitedEvent { code: None })])
            &&& !owed && core.transcript.pending.len() == 0 ==> next == core
            &&& otherwise_kept(next, core)
        }),
{
}

/// What an attach tells of is booked as what it is: its start with both sizes
/// and how the screen is used, its end with why, the size given back and how
/// long it lasted, and everything between as it is booked without an attach.
pub proof fn law_attaches_are_booked(
    core: CoreView,
    note: NoteView,
    embedded: Size,
    screen: AttachScreenPolicy,
)
    ensures
        ({
            let next = core.attach_noted(note, embedded, screen);
            let none = Err(ErrorView::Surface { message: seq![] });
            match note {
                NoteView::Started { terminal_size } => {
                    &&& next.log.len() == core.log.len() + 1
                    &&& ends_with(
                        next,
                        seq![
                            EventView::AttachStarted(
                                AttachStartedEvent {
                                    terminal_size,
                                    embedded_size: embedded,
                                    screen_policy: screen,
                                },
                            ),
                        ],
                    )
                    &&& next.state == core.state && next.sizes == core.sizes
                },
                NoteView::Ended { reason, nanos } => {
                    &&& next.log.len() == core.log.len() + 1
                    &&& ends_with(
                        next,
                        seq![
                            EventView::AttachEnded(
                                AttachEndedEvent {
                                    reason,
                                    restored_size: embedded,
                                    duration: Duration { nanos: nanos as u128 },
                                },
                            ),
                        ],
                    )
                    &&& next.state == core.state && next.sizes == core.sizes
                },
                NoteView::Failed(failure) => {
                    &&& next.log.len() == core.log.len() + 1
                    &&& ends_with(next, seq![EventView::Error(failure.pane_error())])
                    &&& next.state == core.state && next.sizes == core.sizes
                },
                NoteView::Resized(size) => next == core.resized(size),
                NoteView::InputSent(len) => next == core.sent(InputKind::Bytes, len),
                NoteView::ChildExited(code) => next == core.took(FrameView::Exited(code), none),
                NoteView::ChildFault(message) => next == core.took(
                    FrameView::Error(message),
                    none,
                ),
                NoteView::OutputLost { dropped_frames, dropped_bytes } => next == core.took(
                    FrameView::Overflow { dropped_frames, dropped_bytes },
                    none,
                ),
            }
        }),
{
}

} // verus!
