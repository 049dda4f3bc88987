//! How attaches of panes end.

use vstd::prelude::*;

use crate::attach_account::{
    closing, gives_up, law_attaches_close_in_order, law_failed_loops_stay_failed,
    law_output_is_accounted_for,
};
use crate::attach_error::AttachStepKind;
use crate::attach_plan::{
    law_attach_advances, law_attach_is_bookended, AttachPhase, HostTerminal, NoteView, ReplyView,
    RequestView,
};
use crate::calls::PaneCall;
use crate::command::{AttachOptions, AttachResizePolicy};
use crate::error::ErrorView;
use crate::event::EventView;
use crate::manager::attach::{
    attach_chain, attach_driven, attach_linked, attach_opening, attach_served, attach_steps,
    law_attach_notes, lemma_served_grows, AttachScene, PaneAttachView,
};
use crate::manager::attach_output::{
    in_place, lemma_opening_kept, lemma_output_kept, output_kept,
};
use crate::manager::{law_booking, law_renewing, stands_at, ManagerView};
use crate::pane::{PaneId, Size};
use crate::pane_runtime::{
    attach_resizes, for_pane, pane_served, refitted, reshaped, step_result, RuntimeView,
};
use crate::session::AttachClock;

verus! {

/// Whether the last thing that was asked of the surface and the process of a
/// pane was to resize the surface to this size, which went well.
pub open spec fn last_reshaped(pane: RuntimeView, size: Size) -> bool {
    pane.calls.len() > 0 && pane.calls.last() == (PaneCall::Reshape { size, answer: None })
}

/// Whether an attach that is about to end well, and followed the terminal, has
/// given the child its embedded size back, and asked nothing of the pane since.
pub open spec fn size_given_back<Clock>(scene: AttachScene<Clock>, options: AttachOptions) -> bool {
    let state = scene.attach.attach;
    gives_up(state, scene.request) || {
        &&& state.accounts()
        &&& state.options == options
        &&& state.embedded_size == scene.attach.embedded
        &&& state.phase == AttachPhase::DetachResize ==> scene.request == RequestView::Resize(
            state.embedded_size,
        )
        &&& closing(state.phase) && state.phase != AttachPhase::DetachResize
            && state.follows_terminal() ==> last_reshaped(
            scene.manager.pane(scene.attach.pane),
            scene.attach.embedded,
        )
    }
}

proof fn lemma_good_resize(after: RuntimeView, before: RuntimeView, size: Size)
    requires
        pane_served(ReplyView::Resized(Ok(())), after, before, RequestView::Resize(size)),
    ensures
        last_reshaped(after, size),
{
    let done = Ok::<(), crate::attach_error::FailureView>(());
    assert(attach_resizes(after, before, size, done));
    let judged = choose|judged: crate::error::Result<()>|
        #[trigger] before.screen.judges(size, judged) && judged is Ok;
    if before.backed && before.core.state.is_live() {
        let answer = choose|answer: Option<ErrorView>|
            done == step_result(AttachStepKind::SurfaceResize, answer) && after
                == #[trigger] reshaped(
                refitted(before, size, None, after.process),
                size,
                answer,
                after.screen,
            );
        assert(answer is None);
    } else {
        let answer = choose|answer: Option<ErrorView>|
            done == step_result(AttachStepKind::SurfaceResize, answer) && after
                == #[trigger] reshaped(before, size, answer, after.screen);
        assert(answer is None);
    }
}

#[verifier::spinoff_prover]
#[verifier::rlimit(80)]
proof fn lemma_step_gives_size_back<Clock: AttachClock>(
    after: AttachScene<Clock>,
    before: AttachScene<Clock>,
    options: AttachOptions,
    reply: ReplyView,
    served: ManagerView,
)
    requires
        in_place(before, before.attach.pane),
        size_given_back(before, options),
        !(before.request is Finished),
        attach_served::<Clock>(reply, served, after.asked, after.clock, before),
        ({
            let id = before.attach.pane;
            let step = before.attach.attach.after(reply);
            &&& after.manager == served.booked(
                id,
                served.pane(id).core.attach_stepped(
                    step.notes,
                    step.state.stage,
                    before.attach.embedded,
                    before.attach.screen,
                ),
            )
            &&& after.attach == (PaneAttachView { attach: step.state, ..before.attach })
            &&& after.request == step.request
        }),
    ensures
        size_given_back(after, options),
        after.request is Finished ==> after.attach.attach.phase == AttachPhase::Done,
        ({
            let core = after.manager.pane(after.attach.pane).core;
            after.request is Finished && after.attach.attach.host != HostTerminal::Untouched
                ==> core.log.len() > 0 && (core.log.last().kind matches EventView::AttachEnded(
                ended,
            ) && ended.restored_size == before.attach.embedded)
        }),
{
    reveal(attach_served);
    let id = before.attach.pane;
    let state = before.attach.attach;
    let step = state.after(reply);
    let pane = before.manager.pane(id);
    let now = served.pane(id);
    assert(stands_at(before.manager.panes, id, before.manager.place(id)));
    if for_pane(before.request) {
        lemma_served_grows(reply, now, pane, before.request);
        law_renewing(before.manager, id, now);
    }
    assert(stands_at(served.panes, id, served.place(id)));
    let core = now.core.attach_stepped(
        step.notes,
        step.state.stage,
        before.attach.embedded,
        before.attach.screen,
    );
    law_attach_notes(now.core, step.notes, before.attach.embedded, before.attach.screen);
    law_booking(served, id, core);
    law_attach_is_bookended(state, reply);
    law_attach_advances(state, reply);
    if after.request is Finished && step.state.host != HostTerminal::Untouched {
        assert(step.notes.drop_last() =~= Seq::<NoteView>::empty());
        assert(now.core.attach_noted_all(
            step.notes.drop_last(),
            before.attach.embedded,
            before.attach.screen,
        ) == now.core);
        assert(step.notes.last() == step.notes[0]);
    }
    if gives_up(state, before.request) {
        law_failed_loops_stay_failed(state, reply);
    } else {
        law_output_is_accounted_for(state, reply);
        law_attaches_close_in_order(state, reply);
        if !gives_up(step.state, step.request) && closing(step.state.phase) && step.state.phase
            != AttachPhase::DetachResize && state.follows_terminal() {
            if step.state.phase == AttachPhase::Restoring {
                assert(before.request == RequestView::Resize(before.attach.embedded));
                lemma_good_resize(now, pane, before.attach.embedded);
            } else {
                assert(!for_pane(before.request));
                assert(now == pane);
            }
            assert(last_reshaped(now, before.attach.embedded));
            assert(after.manager.pane(id).calls == now.calls);
        }
    }
}

proof fn lemma_size_given_back<Clock: AttachClock>(
    scenes: Seq<AttachScene<Clock>>,
    options: AttachOptions,
    k: int,
)
    requires
        attach_chain::<Clock>(scenes),
        0 <= k < scenes.len(),
        in_place(scenes[0], scenes[0].attach.pane),
        output_kept(scenes[0], scenes[0]),
        size_given_back(scenes[0], options),
        !(scenes[0].request is Finished),
    ensures
        scenes[k].attach.pane == scenes[0].attach.pane,
        scenes[k].attach.embedded == scenes[0].attach.embedded,
        size_given_back(scenes[k], options),
        scenes[k].request is Finished ==> scenes[k].attach.attach.phase == AttachPhase::Done,
        ({
            let core = scenes[k].manager.pane(scenes[0].attach.pane).core;
            scenes[k].request is Finished && scenes[k].attach.attach.host != HostTerminal::Untouched
                ==> core.log.len() > 0 && (core.log.last().kind matches EventView::AttachEnded(
                ended,
            ) && ended.restored_size == scenes[0].attach.embedded)
        }),
    decreases k,
{
    if k > 0 {
        lemma_size_given_back::<Clock>(scenes, options, k - 1);
        lemma_output_kept::<Clock>(scenes, k - 1);
        assert(attach_linked::<Clock>(scenes, k - 1));
        reveal(attach_steps);
        let before = scenes[k - 1];
        let after = scenes[k];
        let id = before.attach.pane;
        let (reply, served) = choose|reply: ReplyView, served: ManagerView|
            {
                let step = before.attach.attach.after(reply);
                &&& #[trigger] attach_served::<Clock>(
                    reply,
                    served,
                    after.asked,
                    after.clock,
                    before,
                )
                &&& after.manager == served.booked(
                    id,
                    served.pane(id).core.attach_stepped(
                        step.notes,
                        step.state.stage,
                        before.attach.embedded,
                        before.attach.screen,
                    ),
                )
                &&& after.attach == (PaneAttachView { attach: step.state, ..before.attach })
                &&& after.request == step.request
            };
        lemma_step_gives_size_back::<Clock>(after, before, options, reply, served);
    }
}

/// An attach that took the terminal and has ended is told of by the last event
/// of its pane. One that ended well, and let the child follow the terminal, has
/// given it its embedded size back, and that was the last thing it asked of the
/// pane.
pub proof fn law_ended_attaches_put_the_pane_back<Clock: AttachClock>(
    last: AttachScene<Clock>,
    first: AttachScene<Clock>,
    count: nat,
    manager: ManagerView,
    id: PaneId,
    options: AttachOptions,
)
    requires
        manager.valid(),
        manager.has(id),
        attach_opening(first, manager, id, options),
        first.attach.open(first.request),
        attach_driven::<Clock>(last, first, count),
        last.request is Finished,
    ensures
        ({
            let pane = last.manager.pane(id);
            let log = pane.core.log;
            &&& last.attach.attach.host != HostTerminal::Untouched ==> log.len() > 0 && (
            log.last().kind matches EventView::AttachEnded(ended) && ended.restored_size
                == first.attach.embedded)
            &&& options.resize == AttachResizePolicy::UseRealTerminalSize ==> (last.request
                matches RequestView::Finished(Ok(_)) ==> last_reshaped(
                pane,
                first.attach.embedded,
            ))
        }),
{
    lemma_opening_kept(first, manager, id, options);
    reveal(attach_driven);
    let scenes = choose|scenes: Seq<AttachScene<Clock>>|
        {
            &&& #[trigger] attach_chain::<Clock>(scenes)
            &&& scenes.len() == count + 1
            &&& scenes.first() == first
            &&& scenes.last() == last
        };
    lemma_size_given_back::<Clock>(scenes, options, count as int);
}

} // verus!
