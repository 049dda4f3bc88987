//! What each operation makes of a manager: of the pane it is about, of the other
//! panes, and of the events that are passed on.

use std::sync::mpsc::Sender;
use vstd::prelude::*;
use vstd::utf8::encode_utf8;

use crate::attach::AttachState;
use crate::calls::{PaneCall, PaneScreen};
use crate::command::AttachOptions;
use crate::encoder::input_bytes;
use crate::error::{error_of, ErrorView, Result};
use crate::event::{entries, EventEntry, EventView, InputKind, PaneEvent};
use crate::input::HostInput;
use crate::input_plan::{lines_text, rows_text};
use crate::input_run::{
    RunPhase, RunView, TransactionNoteView, TransactionReply, TransactionRequest,
};
use crate::input_transaction::{InputTransaction, InputVerification};
use crate::manager::attach::{attach_opening, attach_poll_interval, mode_of, AttachScene};
use crate::manager::inspect::{dumps, never_quiet, surface_only, visited};
use crate::manager::lifecycle::taken;
use crate::manager::transaction::{observes, run_opening, run_refusal, serves, RunScene};
use crate::manager::{
    law_joining, law_polling, law_removing, law_renewing, lemma_place, parts, polled, polled_to,
    sends_input, stands_at, survivors, ManagerView,
};
use crate::mode_overlay::merged;
use crate::pane::{lemma_pane_id_value, PaneConfig, PaneId, PaneInteractionMode, TerminalModes};
use crate::pane_runtime::{absorbed, absorbed_to, attempted, RuntimeView};
use crate::repro::{law_redacted_events, law_what_redaction_shows, ReproDump, ReproDumpOptions};
use crate::runtime_course::without_a_process;
use crate::session::AttachClock;
use crate::surface::{LineView, SurfaceView};
use crate::text::decimal;

verus! {

/// Events that are emitted are queued after those that wait, sent to the
/// subscribers, and handed to the sink, if there is one, each in its order.
/// Nothing else changes.
pub proof fn law_events_are_passed_on(view: ManagerView, events: Seq<EventEntry>)
    ensures
        ({
            let next = view.emitted(events);
            let n = view.heard.len();
            &&& next.queue == view.queue + events
            &&& next.mailed == view.mailed + events
            &&& next.heard.take(n as int) == view.heard
            &&& view.sink is None ==> next.heard == view.heard
            &&& view.sink is Some ==> next.heard.len() == n + events.len()
            &&& view.sink is Some ==> forall|i: int|
                0 <= i < events.len() ==> #[trigger] next.heard[n + i] == (view.sink->0, events[i])
            &&& next.panes == view.panes && next.next_id == view.next_id
            &&& next.config == view.config && next.sink == view.sink
        }),
{
}

/// A pane that goes on has its new events passed on, and none that were told of
/// before.
pub proof fn law_news_is_passed_on(
    view: ManagerView,
    id: PaneId,
    pane: RuntimeView,
    news: Seq<EventEntry>,
)
    requires
        view.valid(),
        view.has(id),
        pane.core.pane == id,
        pane.core.log == view.pane(id).core.log + news,
    ensures
        view.renewed(id, pane).queue == view.queue + news,
        view.renewed(id, pane).mailed == view.mailed + news,
        view.renewed(id, pane).panes.len() == view.panes.len(),
        view.renewed(id, pane).next_id == view.next_id,
        view.renewed(id, pane).config == view.config,
        view.renewed(id, pane).sink == view.sink,
{
    assert(pane.core.log.skip(view.pane(id).core.log.len() as int) =~= news);
    assert(stands_at(view.panes, id, view.place(id)));
}

/// A pane that joins is found, with its log passed on, and every other pane is
/// found as before; no other one is there.
pub proof fn law_panes_join(view: ManagerView, pane: RuntimeView, k: int, other: PaneId)
    requires
        view.valid(),
        parts(view.panes, pane.core.pane, k),
        pane.core.pane.value() <= view.next_id,
        other != pane.core.pane,
    ensures
        view.joined(pane).has(pane.core.pane),
        view.joined(pane).pane(pane.core.pane) == pane,
        view.joined(pane).panes.len() == view.panes.len() + 1,
        view.joined(pane).queue == view.queue + pane.core.log,
        view.joined(pane).mailed == view.mailed + pane.core.log,
        view.joined(pane).has(other) <==> view.has(other),
        view.has(other) ==> view.joined(pane).pane(other) == view.pane(other),
{
    law_joining(view, pane, k);
    let all = view.joined(pane).panes;
    if view.has(other) {
        let p = view.place(other);
        assert(stands_at(view.panes, other, p));
        let q = if p < k {
            p
        } else {
            p + 1
        };
        assert(stands_at(all, other, q));
        lemma_place(view.joined(pane), other, q);
    }
    if view.joined(pane).has(other) {
        let q = view.joined(pane).place(other);
        assert(stands_at(all, other, q));
        let p = if q < k {
            q
        } else {
            q - 1
        };
        assert(q != k);
        assert(stands_at(view.panes, other, p));
    }
}

/// A pane that leaves is not found again, every other pane is found as before,
/// and nothing is told of it.
pub proof fn law_panes_leave(view: ManagerView, id: PaneId, other: PaneId)
    requires
        view.valid(),
        view.has(id),
        other != id,
    ensures
        !view.without(id).has(id),
        view.without(id).panes.len() == view.panes.len() - 1,
        view.without(id).has(other) <==> view.has(other),
        view.has(other) ==> view.without(id).pane(other) == view.pane(other),
        view.without(id).queue == view.queue && view.without(id).mailed == view.mailed,
        view.without(id).next_id == view.next_id,
{
    law_removing(view, id);
    let k = view.place(id);
    assert(stands_at(view.panes, id, k));
    let rest = view.without(id).panes;
    if view.has(other) {
        let p = view.place(other);
        assert(stands_at(view.panes, other, p));
        let q = if p < k {
            p
        } else {
            p - 1
        };
        assert(p != k);
        assert(stands_at(rest, other, q));
        lemma_place(view.without(id), other, q);
    }
    if view.without(id).has(other) {
        let q = view.without(id).place(other);
        assert(stands_at(rest, other, q));
        let p = if q < k {
            q
        } else {
            q + 1
        };
        assert(stands_at(view.panes, other, p));
    }
}

/// A pane gets the identifier that its configuration asks for. An identifier
/// that was given out, or asked for, is not chosen again: the last one never
/// goes back.
pub proof fn law_identifiers(view: ManagerView, config: PaneConfig, id: PaneId)
    ensures
        config.id matches Some(wanted) ==> view.next_pane(config) == wanted,
        config.id is None && id.value() == view.next_id + 1 ==> view.next_pane(config) == id,
        view.reserved(id).next_id >= view.next_id,
        view.reserved(id).next_id >= id.value(),
        view.reserved(id).next_id == view.next_id || view.reserved(id).next_id == id.value(),
        view.reserved(id).panes == view.panes && view.reserved(id).queue == view.queue,
        taken(id) == (ErrorView::Spawn {
            message: "pane "@ + decimal(id.value() as nat) + " already exists"@,
        }),
        ManagerView::unknown(id) == (ErrorView::NotFound { pane_id: id }),
{
    if config.id is None && id.value() == view.next_id + 1 {
        lemma_pane_id_value(view.next_pane(config), id);
    }
}

/// Those who accept what they are sent stay, in their order, and the others do
/// not.
pub proof fn law_who_accepts_stays(
    first: Seq<Sender<PaneEvent>>,
    second: Seq<Sender<PaneEvent>>,
    answers: Seq<bool>,
    more: Seq<bool>,
    one: Sender<PaneEvent>,
)
    requires
        first.len() == answers.len(),
        second.len() == more.len(),
    ensures
        survivors(first + second, answers + more) == survivors(first, answers) + survivors(
            second,
            more,
        ),
        survivors(seq![one], seq![true]) == seq![one],
        survivors(seq![one], seq![false]) == Seq::<Sender<PaneEvent>>::empty(),
    decreases second.len(),
{
    assert(seq![one].drop_last() =~= seq![]);
    assert(survivors(seq![one].drop_last(), seq![true].drop_last()) =~= seq![]);
    assert(survivors(seq![one].drop_last(), seq![false].drop_last()) =~= seq![]);
    assert(survivors(seq![one], seq![true]) =~= seq![one]);
    let (all, said) = (first + second, answers + more);
    if second.len() == 0 {
        assert(all =~= first);
        assert(said =~= answers);
        assert(survivors(second, more) =~= seq![]);
        assert(survivors(first, answers) + survivors(second, more) =~= survivors(first, answers));
    } else {
        law_who_accepts_stays(first, second.drop_last(), answers, more.drop_last(), one);
        assert(all.drop_last() =~= first + second.drop_last());
        assert(said.drop_last() =~= answers + more.drop_last());
        assert(said.last() == more.last() && all.last() == second.last());
        let rest = survivors(second.drop_last(), more.drop_last());
        assert(survivors(first, answers) + rest.push(second.last()) =~= (survivors(first, answers)
            + rest).push(second.last()));
    }
}

/// A surface that is registered without a process is a running, embedded pane of
/// the surface's size, with the title it was given, and has told of nothing.
pub proof fn law_registered_surfaces(
    pane: RuntimeView,
    id: PaneId,
    title: Option<Seq<char>>,
    screen: PaneScreen,
)
    requires
        surface_only(pane, id, title, screen),
    ensures
        !pane.backed && pane.process is None && pane.calls.len() == 0,
        pane.screen == screen,
        screen.measures(pane.core.config.size),
        pane.core.pane == id && pane.core.title == title,
        pane.core.state is Running && pane.core.mode == PaneInteractionMode::Embedded,
        pane.core.log.len() == 0 && pane.core.generation == 0,
        pane.core.config.command.program@ == "registered-surface"@,
        pane.core.config.command.args@.len() == 0,
        pane.core.config.id == Some(id),
        pane.core.sizes.len() == 1 && pane.core.sizes[0].size == pane.core.config.size,
        pane.core.sizes[0].transcript_offset == 0,
        pane.core.exit is None && !pane.core.exit_seen,
        pane.core.transcript.chunks.len() == 0 && pane.core.transcript.pending.len() == 0,
        pane.core.stats.scrollback_lines_dropped == 0,
{
}

/// A dump names its pane, has its sizes and its events, in their order, and the
/// raw transcript where one is kept. Unless it is told to keep them, it shows
/// neither the program, nor the arguments, nor the values of variables, and
/// every event that names the program says no more than the configuration.
pub proof fn law_what_dumps_show(
    dump: ReproDump,
    pane: RuntimeView,
    options: ReproDumpOptions,
    name: Seq<char>,
    i: int,
)
    requires
        dumps(dump, pane, options),
        0 <= i < pane.core.log.len(),
    ensures
        dump.pane_id == pane.core.pane,
        dump.size_history@ == pane.core.sizes,
        dump.events@.len() == pane.core.log.len(),
        ({
            let (shown, told) = (dump.events@[i].entry(), pane.core.log[i]);
            &&& shown.seq == told.seq && shown.pane == told.pane
            &&& !(told.kind is Spawned) ==> shown.kind == told.kind
            &&& told.kind is Spawned ==> shown.kind == EventView::Spawned {
                program: dump.spawn_config.command.program@,
            }
        }),
        !options.keep_spawn_metadata ==> {
            let shown = dump.spawn_config;
            &&& shown.command.program@ == "<redacted>"@
            &&& shown.command.args@.len() == pane.core.config.command.args@.len()
            &&& shown.env@.dom().contains(name) ==> shown.env@[name] == "<redacted>"@
        },
        options.keep_spawn_metadata ==> dump.spawn_config.command.program@
            == pane.core.config.command.program@,
        dump.raw_transcript is Some <==> pane.core.transcript.keeps_raw(),
        dump.raw_transcript matches Some(raw) ==> raw.start_offset
            == pane.core.transcript.raw_start,
{
    let program = dump.spawn_config.command.program@;
    law_redacted_events(pane.core.log, program, i);
    assert(entries(dump.events@)[i] == dump.events@[i].entry());
    assert(entries(dump.events@).len() == dump.events@.len());
    if !options.keep_spawn_metadata {
        law_what_redaction_shows(dump.spawn_config, pane.core.config, name);
    }
}

/// A dump of a pane that does not fall silent fails, and says after how many
/// frames.
pub proof fn law_restless_panes(limit: usize)
    ensures
        never_quiet(limit) == (ErrorView::Surface {
            message: "repro dump exceeded the PTY frame drain limit ("@ + decimal(limit as nat)
                + ") while the pane still had queued output"@,
        }),
{
}

/// When the first panes of a manager are visited, each of them takes its pending
/// frames in, up to the limit, and the others are left alone.
pub proof fn law_visits(after: ManagerView, before: ManagerView, k: nat, i: int)
    requires
        before.valid(),
        visited(after, before, k),
        k <= before.panes.len(),
        0 <= i < before.panes.len(),
    ensures
        after.valid(),
        after.panes.len() == before.panes.len(),
        after.panes[i].core.pane == before.panes[i].core.pane,
        i < k ==> absorbed(after.panes[i], before.panes[i], before.config.drain_limit as nat),
        i >= k ==> after.panes[i] == before.panes[i],
        after.next_id == before.next_id && after.config == before.config,
    decreases k,
{
    if k > 0 {
        let id = before.panes[k - 1].core.pane;
        let limit = before.config.drain_limit as nat;
        let middle = choose|middle: ManagerView|
            visited(middle, before, (k - 1) as nat) && #[trigger] polled(after, middle, id, limit);
        law_visits(middle, before, (k - 1) as nat, i);
        law_visits(middle, before, (k - 1) as nat, k - 1);
        assert(stands_at(middle.panes, id, k - 1));
        lemma_place(middle, id, k - 1);
        law_polling(after, middle, id, limit);
        let pane = after.pane(id);
        assert(pane.core.pane == id);
        law_renewing(middle, id, pane);
        reveal(polled_to);
        let quiet = choose|quiet: bool| #[trigger] polled_to(after, middle, id, limit, quiet);
        assert(absorbed_to(after.pane(id), middle.pane(id), limit, quiet));
    }
}

/// Input that encodes to nothing changes nothing and is no error. Any other
/// input is written, as it encodes under the modes of the surface and of the
/// output, and told of.
pub proof fn law_input_is_sent(
    r: Result<()>,
    after: ManagerView,
    before: ManagerView,
    id: PaneId,
    input: HostInput,
    told: TerminalModes,
)
    requires
        sends_input(r, after, before, id, input, told),
        before.valid(),
        before.has(id),
        after.pane(id).core.pane == id,
    ensures
        ({
            let core = before.pane(id).core;
            let modes = merged(core.overlay.flags, told);
            let bytes = input_bytes(input, core.input, modes);
            &&& bytes.len() == 0 ==> r is Ok && after == before
            &&& bytes.len() > 0 && !before.pane(id).backed ==> error_of(r) == Some(
                without_a_process(),
            )
            &&& bytes.len() > 0 && before.pane(id).backed && (core.state is Starting || core.state
                is Running) ==> {
                &&& after.pane(id).calls.len() == before.pane(id).calls.len() + 1
                &&& after.pane(id).calls.last() matches PaneCall::Write {
                    bytes: sent,
                    answer,
                } && sent == bytes && answer == error_of(r)
            }
        }),
{
}

/// A run goes on as long as its pane is known and, while it writes, has a
/// process.
pub proof fn law_runs_can_go_on<Clock>(scene: RunScene<Clock>, id: PaneId)
    ensures
        !scene.manager.has(id) ==> run_refusal(scene, id) == Some(
            ErrorView::NotFound { pane_id: id },
        ),
        scene.manager.has(id) && scene.manager.pane(id).backed ==> run_refusal(scene, id) is None,
        scene.manager.has(id) && !scene.manager.pane(id).backed ==> (if scene.run.phase
            == RunPhase::Writing {
            run_refusal(scene, id) == Some(without_a_process())
        } else {
            run_refusal(scene, id) is None
        }),
{
}

/// A transaction on a pane that has ended has no steps and ends at once.
pub proof fn law_runs_on_ended_panes(
    run: RunView,
    transaction: InputTransaction,
    pane: RuntimeView,
)
    requires
        run_opening(run, transaction, pane),
        !(pane.core.state is Starting) && !(pane.core.state is Running),
    ensures
        run.steps.len() == 0,
        run.retry == transaction.retry,
{
}

/// What a run asks for is done as it was asked: a look at the pane tells whether
/// it has ended and changes nothing, an attempt to write is made once, on the
/// bytes of the step, and polling or looking for the echo only takes in what is
/// pending. Only a look at the clock and a pause have to do with the clock.
pub proof fn law_runs_are_served<Clock: AttachClock>(
    reply: TransactionReply,
    served: ManagerView,
    before: ManagerView,
    run: RunView,
    awaited: InputVerification,
    id: PaneId,
    clocks: (Clock, Clock),
)
    requires
        serves::<Clock>(reply, served, before, run, awaited, id, clocks),
        before.valid(),
        before.has(id),
    ensures
        ({
            let asked = run.request();
            let (now, then) = (served.pane(id), before.pane(id));
            let limit = before.config.drain_limit as nat;
            &&& asked is Status || asked is Clock || asked is Sleep ==> served == before
            &&& asked is Status ==> (reply matches TransactionReply::Ended(ended) && (ended <==> !(
            then.core.state is Starting) && !(then.core.state is Running)))
            &&& asked is Poll ==> polled(served, before, id, limit) && (reply
                matches TransactionReply::Ended(ended) && (ended <==> !(now.core.state is Starting)
                && !(now.core.state is Running)))
            &&& asked is Observe ==> polled(served, before, id, limit) && (reply
                matches TransactionReply::Observed { ended, echoed } && (ended <==> !(now.core.state
                is Starting) && !(now.core.state is Running)) && observes(now, awaited, echoed))
            &&& asked matches TransactionRequest::Write(attempt) ==> (reply
                matches TransactionReply::Wrote(answer) && then.backed && now.core == then.core
                && now.calls == then.calls.push(
                PaneCall::Attempt { attempt, bytes: run.step().bytes, reply: answer },
            ) && served.queue == before.queue)
            &&& asked is Clock ==> reply is Clock
            &&& !(asked is Clock) && !(asked is Sleep) ==> clocks.0 == clocks.1
        }),
{
    if let TransactionRequest::Write(attempt) = run.request() {
        if let TransactionReply::Wrote(answer) = reply {
            let then = before.pane(id);
            let next = attempted(then, attempt, run.step().bytes, answer);
            assert(stands_at(before.panes, id, before.place(id)));
            law_renewing(before, id, next);
            let call = PaneCall::Attempt { attempt, bytes: run.step().bytes, reply: answer };
            assert(then.calls + seq![call] =~= then.calls.push(call));
            assert(then.core.log.skip(then.core.log.len() as int) =~= seq![]);
            assert(served.queue =~= before.queue);
        }
    }
}

/// An echo is looked for in what the surface has kept and then in what it shows,
/// in this order and as one text.
pub proof fn law_where_echoes_are_looked_for(
    pane: RuntimeView,
    awaited: InputVerification,
    echoed: bool,
)
    requires
        observes(pane, awaited, echoed),
    ensures
        exists|lines: Seq<LineView>, picture: SurfaceView|
            {
                &&& #[trigger] pane.screen.keeps(lines)
                &&& #[trigger] pane.screen.shows(picture)
                &&& echoed <==> awaited.accepts(
                    encode_utf8(lines_text(lines) + rows_text(picture.rows)),
                )
            },
{
    let text = choose|text: Seq<char>|
        #[trigger] pane.reads(text) && echoed == awaited.accepts(encode_utf8(text));
    assert(pane.reads(text));
}

/// What a run has to tell is booked of its pane: what was sent, by its kind and
/// its length, or what failed. With nothing to tell nothing changes.
pub proof fn law_run_notes_are_booked(
    view: ManagerView,
    id: PaneId,
    input_kind: InputKind,
    bytes_len: usize,
    error: ErrorView,
)
    requires
        view.valid(),
        view.has(id),
    ensures
        view.noting(id, None) == view,
        ({
            let next = view.noting(id, Some(TransactionNoteView::Sent { input_kind, bytes_len }));
            &&& next.pane(id).core.log.len() == view.pane(id).core.log.len() + 1
            &&& next.pane(id).core.log.last().kind matches EventView::InputSent(event)
                && event.input_kind == input_kind && event.bytes_len == bytes_len
            &&& next.queue.len() == view.queue.len() + 1
        }),
        ({
            let next = view.noting(id, Some(TransactionNoteView::Failed(error)));
            &&& next.pane(id).core.log.len() == view.pane(id).core.log.len() + 1
            &&& next.pane(id).core.log.last().kind == EventView::Error(error)
            &&& next.queue.len() == view.queue.len() + 1
        }),
{
    let core = view.pane(id).core;
    assert(stands_at(view.panes, id, view.place(id)));
    let sent = core.sent(input_kind, bytes_len as nat);
    let failed = core.logged(EventView::Error(error));
    law_renewing(view, id, view.pane(id).booked(sent));
    law_renewing(view, id, view.pane(id).booked(failed));
}

/// The interaction mode of a pane follows the stage of its attach.
pub proof fn law_modes_follow_stages()
    ensures
        mode_of(AttachState::Embedded) == PaneInteractionMode::Embedded,
        mode_of(AttachState::Attaching) == PaneInteractionMode::Attaching,
        mode_of(AttachState::Attached) == PaneInteractionMode::Attached,
        mode_of(AttachState::Detaching) == PaneInteractionMode::Detaching,
{
}

/// An attach of a pane starts out to ask for the size of the terminal, knows the
/// size that the surface has as the one to return to, and looks for input and
/// output a hundred times a second.
pub proof fn law_attaches_open<Clock>(
    scene: AttachScene<Clock>,
    manager: ManagerView,
    id: PaneId,
    options: AttachOptions,
)
    requires
        attach_opening(scene, manager, id, options),
    ensures
        scene.manager == manager,
        scene.request is TerminalSize,
        scene.attach.pane == id,
        scene.attach.screen == options.screen,
        manager.pane(id).screen.measures(scene.attach.embedded),
        scene.attach.attach.managed,
        scene.attach.attach.embedded_size == scene.attach.embedded,
        scene.attach.attach.options == options,
        scene.attach.attach.poll_interval == attach_poll_interval(),
        attach_poll_interval().nanos * 100 == 1_000_000_000,
{
}

} // verus!
