//! Output that comes in while a pane is attached.

use vstd::prelude::*;

use crate::attach_account::{
    brought, gives_up, law_failed_loops_stay_failed, law_output_is_accounted_for, taken,
};
use crate::attach_plan::{
    law_attach_advances, law_attach_ends_embedded, law_attach_loop_stays_valid, NoteView,
    ReplyView, RequestView,
};
use crate::calls::PaneCall;
use crate::command::AttachOptions;
use crate::event::AttachScreenPolicy;
use crate::manager::attach::{
    attach_chain, attach_driven, attach_linked, attach_opening, attach_served, attach_steps,
    law_attach_notes, lemma_served_grows, AttachScene, PaneAttachView,
};
use crate::manager::{law_booking, law_renewing, stands_at, ManagerView};
use crate::output_flow::{
    fed_output, lemma_output_both, lemma_output_of_one, lemma_stream_one, lemma_took_transcript,
    lemma_transcribes_one, lemma_transcribes_settled, received_output, records, settles, stream,
    transcribes,
};
use crate::pane::{PaneId, Size};
use crate::pane_core::{CoreView, FeedView};
use crate::pane_runtime::{
    attach_fed, for_pane, pane_served, received, refitted, reshaped, written, RuntimeView,
};
use crate::pty::FrameView;
use crate::session::AttachClock;

verus! {

/// The pieces that one request hands to the surface.
pub open spec fn asked_to_feed(request: RequestView) -> Seq<Seq<u8>> {
    match request {
        RequestView::Feed(bytes) => seq![bytes],
        _ => seq![],
    }
}

/// The pieces that one reply brings.
pub open spec fn pieces_brought(reply: ReplyView) -> Seq<Seq<u8>> {
    match reply {
        ReplyView::Received(Ok(Some(FrameView::Output(bytes)))) => seq![bytes],
        _ => seq![],
    }
}

/// Whether a pane comes of another by calls that brought and handed on just
/// these pieces of output.
pub open spec fn flowed(
    after: RuntimeView,
    before: RuntimeView,
    came: Seq<Seq<u8>>,
    went: Seq<Seq<u8>>,
) -> bool {
    let made = after.calls.skip(before.calls.len() as int);
    &&& before.calls.len() <= after.calls.len()
    &&& after.calls.take(before.calls.len() as int) == before.calls
    &&& received_output(made) == came
    &&& fed_output(made) == went
}

proof fn lemma_no_flow(pane: RuntimeView)
    ensures
        flowed(pane, pane, seq![], seq![]),
{
    assert(pane.calls.skip(pane.calls.len() as int) =~= Seq::<PaneCall>::empty());
    assert(pane.calls.take(pane.calls.len() as int) =~= pane.calls);
}

proof fn lemma_flow_of_one(after: RuntimeView, before: RuntimeView, call: PaneCall)
    requires
        after.calls == before.calls + seq![call],
    ensures
        flowed(after, before, received_output(seq![call]), fed_output(seq![call])),
{
    assert(after.calls.skip(before.calls.len() as int) =~= seq![call]);
    assert(after.calls.take(before.calls.len() as int) =~= before.calls);
}

proof fn lemma_flow_both(
    last: RuntimeView,
    middle: RuntimeView,
    first: RuntimeView,
    came: Seq<Seq<u8>>,
    went: Seq<Seq<u8>>,
    more_came: Seq<Seq<u8>>,
    more_went: Seq<Seq<u8>>,
)
    requires
        flowed(middle, first, came, went),
        flowed(last, middle, more_came, more_went),
    ensures
        flowed(last, first, came + more_came, went + more_went),
{
    let n = first.calls.len() as int;
    let m = middle.calls.len() as int;
    assert(middle.calls == last.calls.take(m));
    assert(last.calls.skip(n) =~= middle.calls.skip(n) + last.calls.skip(m));
    assert(last.calls.take(n) =~= last.calls.take(m).take(n));
    lemma_output_both(middle.calls.skip(n), last.calls.skip(m));
}

proof fn lemma_resize_flows(after: RuntimeView, before: RuntimeView, request: RequestView, reply: ReplyView)
    requires
        pane_served(reply, after, before, request),
        request is Resize,
    ensures
        flowed(after, before, seq![], seq![]),
        after.core == before.core,
{
    lemma_no_flow(before);
    let size = request->Resize_0;
    let nothing = Seq::<Seq<u8>>::empty();
    assert(nothing + nothing =~= nothing);
    if after != before {
        assert forall|answer, process| #[trigger] refitted(before, size, answer, process).core
            == before.core && flowed(
            refitted(before, size, answer, process),
            before,
            seq![],
            seq![],
        ) by {
            let call = PaneCall::Refit { size, answer };
            lemma_output_of_one(call);
            lemma_flow_of_one(refitted(before, size, answer, process), before, call);
        }
        assert forall|pane: RuntimeView, answer, screen| #[trigger]
            reshaped(pane, size, answer, screen).core == pane.core && (flowed(
            pane,
            before,
            seq![],
            seq![],
        ) ==> flowed(reshaped(pane, size, answer, screen), before, seq![], seq![])) by {
            let call = PaneCall::Reshape { size, answer };
            let shaped = reshaped(pane, size, answer, screen);
            lemma_output_of_one(call);
            lemma_flow_of_one(shaped, pane, call);
            if flowed(pane, before, seq![], seq![]) {
                lemma_flow_both(shaped, pane, before, nothing, nothing, nothing, nothing);
            }
        }
    }
}

/// What a pane serves an attach brings the output that is replied, and hands on
/// and records the output that is asked to be fed.
proof fn lemma_served_flows(
    reply: ReplyView,
    after: RuntimeView,
    before: RuntimeView,
    request: RequestView,
)
    requires
        pane_served(reply, after, before, request),
    ensures
        flowed(after, before, pieces_brought(reply), asked_to_feed(request)),
        match request {
            RequestView::Feed(bytes) => records(
                after.core.transcript,
                before.core.transcript,
                bytes,
            ),
            _ => after.core == before.core,
        },
{
    lemma_no_flow(before);
    match request {
        RequestView::Resize(_) => {
            lemma_resize_flows(after, before, request, reply);
        },
        RequestView::SendInput(bytes) => {
            if before.backed {
                let answer = choose|answer| after == #[trigger] written(before, bytes, answer);
                let call = PaneCall::Write { bytes, answer };
                lemma_output_of_one(call);
                lemma_flow_of_one(after, before, call);
            }
        },
        RequestView::Receive => {
            if before.backed {
                let answer = choose|answer: Option<FrameView>|
                    after == #[trigger] received(before, answer, after.process) && reply
                        == ReplyView::Received(Ok(answer));
                let call = PaneCall::Receive { answer };
                lemma_output_of_one(call);
                lemma_flow_of_one(after, before, call);
            }
        },
        RequestView::Feed(bytes) => {
            reveal(attach_fed);
            let frame = FrameView::Output(bytes);
            let feed = choose|feed: FeedView|
                after == #[trigger] before.took_frame(frame, feed, after.screen);
            let call = PaneCall::Feed { bytes, answer: feed };
            lemma_output_of_one(call);
            lemma_flow_of_one(after, before, call);
            lemma_took_transcript(before.core, frame, feed);
        },
        _ => {},
    }
}

proof fn lemma_notes_settle(
    core: CoreView,
    notes: Seq<NoteView>,
    embedded: Size,
    screen: AttachScreenPolicy,
)
    ensures
        settles(core.attach_noted_all(notes, embedded, screen).transcript, core.transcript),
    decreases notes.len(),
{
    if notes.len() > 0 {
        lemma_notes_settle(core, notes.drop_last(), embedded, screen);
    }
}

/// Whether a scene of an attach keeps account of the output since another one:
/// what was received is what was fed and what is still owed, and what was fed
/// was recorded.
pub open spec fn output_kept<Clock>(scene: AttachScene<Clock>, first: AttachScene<Clock>) -> bool {
    let id = first.attach.pane;
    let pane = scene.manager.pane(id);
    let start = first.manager.pane(id);
    let state = scene.attach.attach;
    let made = pane.calls.skip(start.calls.len() as int);
    &&& start.calls.len() <= pane.calls.len()
    &&& pane.calls.take(start.calls.len() as int) == start.calls
    &&& transcribes(pane.core.transcript, start.core.transcript, fed_output(made))
    &&& gives_up(state, scene.request) || {
        &&& state.accounts()
        &&& stream(received_output(made)) == stream(fed_output(made)) + state.owed()
        &&& scene.request matches RequestView::Feed(bytes) ==> bytes == state.handed()
        &&& scene.request is Finished ==> state.owed() == Seq::<u8>::empty()
    }
}

/// Whether a scene of an attach of a pane stands in order.
pub open spec fn in_place<Clock>(scene: AttachScene<Clock>, id: PaneId) -> bool {
    &&& scene.manager.valid()
    &&& scene.manager.has(id)
    &&& scene.attach.pane == id
    &&& scene.attach.open(scene.request)
}

#[verifier::spinoff_prover]
#[verifier::rlimit(80)]
proof fn lemma_step_keeps_output<Clock: AttachClock>(
    after: AttachScene<Clock>,
    before: AttachScene<Clock>,
    first: AttachScene<Clock>,
    reply: ReplyView,
    served: ManagerView,
)
    requires
        in_place(before, first.attach.pane),
        output_kept(before, first),
        !(before.request is Finished),
        attach_served::<Clock>(reply, served, after.asked, after.clock, before),
        ({
            let id = first.attach.pane;
            let step = before.attach.attach.after(reply);
            &&& after.manager == served.booked(
                id,
                served.pane(id).core.attach_stepped(
                    step.notes,
                    step.state.stage,
                    before.attach.embedded,
                    before.attach.screen,
                ),
            )
            &&& after.attach == (PaneAttachView { attach: step.state, ..before.attach })
            &&& after.request == step.request
        }),
    ensures
        in_place(after, first.attach.pane),
        output_kept(after, first),
{
    reveal(attach_served);
    let id = first.attach.pane;
    let state = before.attach.attach;
    let step = state.after(reply);
    let start = first.manager.pane(id);
    let pane = before.manager.pane(id);
    let now = served.pane(id);
    assert(stands_at(before.manager.panes, id, before.manager.place(id)));
    assert(pane.core.pane == id);
    lemma_no_flow(pane);
    let came = pieces_brought(reply);
    let went = asked_to_feed(before.request);
    if for_pane(before.request) {
        lemma_served_grows(reply, now, pane, before.request);
        law_renewing(before.manager, id, now);
        lemma_served_flows(reply, now, pane, before.request);
    }
    assert(flowed(now, pane, came, went));
    assert(stands_at(served.panes, id, served.place(id)));
    let core = now.core.attach_stepped(
        step.notes,
        step.state.stage,
        before.attach.embedded,
        before.attach.screen,
    );
    law_attach_notes(now.core, step.notes, before.attach.embedded, before.attach.screen);
    law_booking(served, id, core);
    lemma_notes_settle(now.core, step.notes, before.attach.embedded, before.attach.screen);
    law_attach_advances(state, reply);
    law_attach_loop_stays_valid(state, reply);
    law_attach_ends_embedded(state, reply);
    let n = start.calls.len() as int;
    let old_came = received_output(pane.calls.skip(n));
    let old_went = fed_output(pane.calls.skip(n));
    assert(flowed(pane, start, old_came, old_went));
    lemma_flow_both(now, pane, start, old_came, old_went, came, went);
    // The transcript.
    match before.request {
        RequestView::Feed(bytes) => {
            lemma_transcribes_one(
                now.core.transcript,
                pane.core.transcript,
                start.core.transcript,
                old_went,
                bytes,
            );
            assert(old_went + went =~= old_went.push(bytes));
            lemma_stream_one(old_went, bytes);
        },
        _ => {
            assert(old_went + went =~= old_went);
        },
    }
    lemma_transcribes_settled(
        core.transcript,
        now.core.transcript,
        start.core.transcript,
        old_went + went,
    );
    // The account.
    match reply {
        ReplyView::Received(Ok(Some(FrameView::Output(bytes)))) => {
            assert(old_came + came =~= old_came.push(bytes));
            lemma_stream_one(old_came, bytes);
        },
        _ => {
            assert(old_came + came =~= old_came);
        },
    }
    if gives_up(state, before.request) {
        law_failed_loops_stay_failed(state, reply);
    } else {
        law_output_is_accounted_for(state, reply);
        if !gives_up(step.state, step.request) {
            let owed = state.owed();
            if before.request is Feed {
                assert(taken(state, reply) == before.request->Feed_0);
            } else {
                assert(taken(state, reply) == Seq::<u8>::empty());
            }
            assert(stream(old_went) + Seq::<u8>::empty() =~= stream(old_went));
            assert(stream(old_came) + Seq::<u8>::empty() =~= stream(old_came));
            assert(stream(old_came + came) == stream(old_came) + brought(reply));
            assert(stream(old_went + went) == stream(old_went) + taken(state, reply));
            assert(stream(old_came) + brought(reply) == stream(old_went) + owed + brought(reply));
            assert(stream(old_went) + owed + brought(reply) =~= stream(old_went) + (owed
                + brought(reply)));
            assert(stream(old_went) + (taken(state, reply) + step.state.owed()) =~= stream(old_went)
                + taken(state, reply) + step.state.owed());
        }
    }
}

pub(crate) proof fn lemma_output_kept<Clock: AttachClock>(scenes: Seq<AttachScene<Clock>>, k: int)
    requires
        attach_chain::<Clock>(scenes),
        0 <= k < scenes.len(),
        in_place(scenes[0], scenes[0].attach.pane),
        output_kept(scenes[0], scenes[0]),
    ensures
        in_place(scenes[k], scenes[0].attach.pane),
        output_kept(scenes[k], scenes[0]),
    decreases k,
{
    if k > 0 {
        lemma_output_kept::<Clock>(scenes, k - 1);
        assert(attach_linked::<Clock>(scenes, k - 1));
        reveal(attach_steps);
        let before = scenes[k - 1];
        let after = scenes[k];
        let id = before.attach.pane;
        let (reply, served) = choose|reply: ReplyView, served: ManagerView|
            {
                let step = before.attach.attach.after(reply);
                &&& #[trigger] attach_served::<Clock>(
                    reply,
                    served,
                    after.asked,
                    after.clock,
                    before,
                )
                &&& after.manager == served.booked(
                    id,
                    served.pane(id).core.attach_stepped(
                        step.notes,
                        step.state.stage,
                        before.attach.embedded,
                        before.attach.screen,
                    ),
                )
                &&& after.attach == (PaneAttachView { attach: step.state, ..before.attach })
                &&& after.request == step.request
            };
        lemma_step_keeps_output::<Clock>(after, before, scenes[0], reply, served);
    }
}

pub(crate) proof fn lemma_opening_kept<Clock>(
    first: AttachScene<Clock>,
    manager: ManagerView,
    id: PaneId,
    options: AttachOptions,
)
    requires
        attach_opening(first, manager, id, options),
    ensures
        output_kept(first, first),
{
    lemma_no_flow(manager.pane(id));
    let nothing = Seq::<u8>::empty();
    assert(nothing + nothing =~= nothing);
}

/// Output that comes in while a pane is attached reaches its surface and its
/// transcript. What the surface was fed was recorded, piece by piece, each once
/// and in order. As long as nothing fails, what was received is what was fed and
/// what is still owed, and an attach that ended well owes nothing: every byte
/// that was received was fed, once and in order.
pub proof fn law_attached_output_is_taken_in_once<Clock: AttachClock>(
    last: AttachScene<Clock>,
    first: AttachScene<Clock>,
    count: nat,
    manager: ManagerView,
    id: PaneId,
    options: AttachOptions,
)
    requires
        manager.valid(),
        manager.has(id),
        attach_opening(first, manager, id, options),
        first.attach.open(first.request),
        attach_driven::<Clock>(last, first, count),
    ensures
        output_kept(last, first),
        ({
            let made = last.manager.pane(id).calls.skip(manager.pane(id).calls.len() as int);
            &&& transcribes(
                last.manager.pane(id).core.transcript,
                manager.pane(id).core.transcript,
                fed_output(made),
            )
            &&& last.request matches RequestView::Finished(Ok(_)) ==> stream(received_output(made))
                == stream(fed_output(made))
        }),
{
    reveal(attach_driven);
    let scenes = choose|scenes: Seq<AttachScene<Clock>>|
        {
            &&& #[trigger] attach_chain::<Clock>(scenes)
            &&& scenes.len() == count + 1
            &&& scenes.first() == first
            &&& scenes.last() == last
        };
    let pane = manager.pane(id);
    let nothing = Seq::<u8>::empty();
    lemma_opening_kept(first, manager, id, options);
    lemma_output_kept::<Clock>(scenes, count as int);
    let made = last.manager.pane(id).calls.skip(pane.calls.len() as int);
    assert(stream(fed_output(made)) + nothing =~= stream(fed_output(made)));
}

} // verus!
