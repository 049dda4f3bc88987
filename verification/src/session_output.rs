//! Output that comes in during a blocking attach session.

use vstd::prelude::*;

use crate::attach_account::{
    brought, gives_up, law_failed_loops_stay_failed, law_output_is_accounted_for, taken,
};
use crate::attach_plan::{
    answers, law_attach_advances, law_attach_loop_stays_valid, ReplyView, RequestView,
};
use crate::session::{
    session_chain, session_driven, session_linked, session_opening, session_served, AttachClock,
    Exchange, SessionScene, SessionView,
};

verus! {

/// The output that exchanges brought, as one stream.
pub open spec fn output_brought(asked: Seq<Exchange>) -> Seq<u8>
    decreases asked.len(),
{
    if asked.len() == 0 {
        seq![]
    } else {
        output_brought(asked.drop_last()) + brought(asked.last().reply)
    }
}

/// The output that exchanges handed to the surface, as one stream.
pub open spec fn output_fed(asked: Seq<Exchange>) -> Seq<u8>
    decreases asked.len(),
{
    if asked.len() == 0 {
        seq![]
    } else {
        output_fed(asked.drop_last()) + match asked.last().request {
            RequestView::Feed(bytes) => bytes,
            _ => seq![],
        }
    }
}

/// Whether a scene of a session that is under way keeps account of the output
/// since `from`: it gives up, or what was brought is what was fed and what is
/// still owed.
pub open spec fn session_accounts<Clock>(scene: SessionScene<Clock>, from: int) -> bool {
    let state = scene.session.attach->0;
    let asked = scene.asked.skip(from);
    &&& scene.session.attach is Some
    &&& state.valid()
    &&& !state.managed
    &&& forall|reply: ReplyView| #[trigger]
        answers(reply, scene.request, false) ==> state.awaits(reply)
    &&& gives_up(state, scene.request) || {
        &&& state.accounts()
        &&& output_brought(asked) == output_fed(asked) + state.owed()
        &&& scene.request matches RequestView::Feed(bytes) ==> bytes == state.handed()
    }
}

/// Whether a scene of a session keeps account: it does so while it is under way,
/// and when it has ended well, all that was brought was fed.
pub open spec fn session_keeps_output<Clock>(scene: SessionScene<Clock>, from: int) -> bool {
    &&& 0 <= from <= scene.asked.len()
    &&& if scene.request is Finished {
        scene.request matches RequestView::Finished(Ok(_)) ==> output_brought(
            scene.asked.skip(from),
        ) == output_fed(scene.asked.skip(from))
    } else {
        session_accounts(scene, from)
    }
}

#[verifier::spinoff_prover]
#[verifier::rlimit(60)]
proof fn lemma_step_keeps_account<Clock: AttachClock>(
    after: SessionScene<Clock>,
    before: SessionScene<Clock>,
    from: int,
    reply: ReplyView,
)
    requires
        session_keeps_output(before, from),
        !(before.request is Finished),
        session_served::<Clock>(reply, after.asked, after.clock, before),
        ({
            let step = before.session.attach->0.after(reply);
            &&& after.session == before.session.stepped(step.state, step.notes, step.request)
            &&& after.request == step.request
        }),
    ensures
        session_keeps_output(after, from),
{
    let state = before.session.attach->0;
    let step = state.after(reply);
    let old = before.asked.skip(from);
    let now = after.asked.skip(from);
    let nothing = Seq::<u8>::empty();
    law_attach_loop_stays_valid(state, reply);
    law_attach_advances(state, reply);
    let next = Exchange { request: before.request, reply };
    assert(output_brought(old) + nothing =~= output_brought(old));
    assert(output_fed(old) + nothing =~= output_fed(old));
    if after.asked == before.asked.push(next) {
        assert(now =~= old.push(next));
        assert(old.push(next).drop_last() =~= old);
    }
    if gives_up(state, before.request) {
        law_failed_loops_stay_failed(state, reply);
    } else {
        law_output_is_accounted_for(state, reply);
        if !gives_up(step.state, step.request) {
            assert(output_brought(now) == output_brought(old) + brought(reply));
            assert(output_fed(now) == output_fed(old) + taken(state, reply));
            assert(output_fed(old) + state.owed() + brought(reply) =~= output_fed(old) + (
            state.owed() + brought(reply)));
            assert(output_fed(old) + (taken(state, reply) + step.state.owed()) =~= output_fed(old)
                + taken(state, reply) + step.state.owed());
            assert(output_fed(now) + nothing =~= output_fed(now));
        }
    }
}

proof fn lemma_session_keeps_output<Clock: AttachClock>(
    scenes: Seq<SessionScene<Clock>>,
    from: int,
    k: int,
)
    requires
        session_chain::<Clock>(scenes),
        0 <= k < scenes.len(),
        session_keeps_output(scenes[0], from),
    ensures
        session_keeps_output(scenes[k], from),
    decreases k,
{
    if k > 0 {
        lemma_session_keeps_output::<Clock>(scenes, from, k - 1);
        assert(session_linked::<Clock>(scenes, k - 1));
        let before = scenes[k - 1];
        let after = scenes[k];
        let reply = choose|reply: ReplyView|
            {
                let step = before.session.attach->0.after(reply);
                &&& #[trigger] session_served::<Clock>(reply, after.asked, after.clock, before)
                &&& after.session == before.session.stepped(step.state, step.notes, step.request)
                &&& after.request == step.request
            };
        lemma_step_keeps_account::<Clock>(after, before, from, reply);
    }
}

/// Output that comes in during a session reaches the surface: as long as nothing
/// fails, what was received is what was fed and what is still owed, and of a
/// session that ended well every byte that was received was fed, once and in
/// order.
pub proof fn law_session_output_is_fed_once<Clock: AttachClock>(
    last: SessionScene<Clock>,
    first: SessionScene<Clock>,
    count: nat,
    session: SessionView,
)
    requires
        session_opening(first, session),
        first.session.valid(),
        first.session.attach is Some,
        session_driven::<Clock>(last, first, count),
    ensures
        session_keeps_output(last, first.asked.len() as int),
{
    reveal(session_driven);
    let scenes = choose|scenes: Seq<SessionScene<Clock>>|
        {
            &&& #[trigger] session_chain::<Clock>(scenes)
            &&& scenes.len() == count + 1
            &&& scenes.first() == first
            &&& scenes.last() == last
        };
    let from = first.asked.len() as int;
    let nothing = Seq::<u8>::empty();
    assert(first.asked.skip(from) =~= Seq::<Exchange>::empty());
    assert(nothing + nothing =~= nothing);
    assert(session_accounts(first, from));
    lemma_session_keeps_output::<Clock>(scenes, from, count as int);
}

} // verus!
