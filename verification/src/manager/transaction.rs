//! Input transactions on panes.

use vstd::prelude::*;

use crate::error::{error_of, ErrorView, Result};
use crate::event::{
    goes_on, EventView,
};
use crate::input_plan::{plan_input_transaction, planned, step_views, InputWriteStep};
use crate::input_run::{
    fresh_run, InputRun, RunPhase, RunView, TransactionNote, TransactionNoteView,
    TransactionReply, TransactionRequest,
};
use crate::input_transaction::{InputTransaction, InputVerification};
use crate::manager::{
    law_renewing, lemma_books_kept, lemma_place, not_found, polled, polled_to, stands_at, ManagerView, PaneManager,
};
use crate::mode_overlay::merged;
use crate::pane::{PaneId, TerminalModes};
use crate::pane_runtime::{attempted, needs_process, went_on, RuntimeView};
use crate::pty::fits;
use crate::session::{ask_pause, ask_reading, clock_paused, clock_read, AttachClock};

verus! {

/// Whether a run is one of a transaction on a pane whose surface tells of these
/// modes.
pub open spec fn runs(
    run: RunView,
    transaction: InputTransaction,
    pane: RuntimeView,
    told: TerminalModes,
) -> bool {
    &&& pane.screen.tells(told)
    &&& run == fresh_run(
        planned(transaction, pane.core.input, merged(pane.core.overlay.flags, told)),
        transaction.verification.deadline(),
        transaction.retry,
        false,
    )
}

/// Whether a pane shows, or does not show, what is awaited: its text passes the
/// verification or does not.
pub open spec fn observes(pane: RuntimeView, awaited: InputVerification, echoed: bool) -> bool {
    exists|text: Seq<char>|
        #[trigger] pane.reads(text) && echoed == awaited.accepts(vstd::utf8::encode_utf8(text))
}

/// Whether a reply is what a request of a run on a pane comes to. Polling takes
/// frames in, an attempt to write is made on the bytes of the step, and nothing
/// else changes the manager. The clock is as it was, but for a reading or a
/// pause.
pub open spec fn serves<Clock: AttachClock>(
    reply: TransactionReply,
    served: ManagerView,
    before: ManagerView,
    run: RunView,
    awaited: InputVerification,
    id: PaneId,
    clocks: (Clock, Clock),
) -> bool {
    let limit = before.config.drain_limit as nat;
    let (was, clock) = clocks;
    &&& !(run.request() is Clock) && !(run.request() is Sleep) ==> clock == was
    &&& match run.request() {
        TransactionRequest::Status => served == before && reply == TransactionReply::Ended(
            !before.pane(id).core.state.is_live(),
        ),
        TransactionRequest::Poll => polled(served, before, id, limit) && reply
            == TransactionReply::Ended(!served.pane(id).core.state.is_live()),
        TransactionRequest::Write(attempt) => {
            &&& before.pane(id).backed
            &&& reply matches TransactionReply::Wrote(w)
            &&& fits(w, attempt, run.writer.total as nat)
            &&& served == before.renewed(
                id,
                attempted(before.pane(id), attempt, run.step().bytes, w),
            )
            &&& went_on(served.pane(id), before.pane(id))
        },
        TransactionRequest::Clock => served == before && (reply matches TransactionReply::Clock(now)
            && clock_read(was, clock, now)),
        TransactionRequest::Sleep(span) => served == before && reply is Slept && clock_paused(
            was,
            clock,
            span,
        ),
        TransactionRequest::Observe => polled(served, before, id, limit) && (reply
            matches TransactionReply::Observed { ended, echoed } && ended == !served.pane(
            id,
        ).core.state.is_live() && observes(served.pane(id), awaited, echoed)),
        TransactionRequest::Finished => false,
    }
}

impl ManagerView {
    /// The manager with a note of a run booked.
    pub open spec fn noting(self, id: PaneId, note: Option<TransactionNoteView>) -> ManagerView {
        match note {
            None => self,
            Some(TransactionNoteView::Sent { input_kind, bytes_len }) => self.booked(
                id,
                self.pane(id).core.sent(input_kind, bytes_len as nat),
            ),
            Some(TransactionNoteView::Failed(error)) => self.booked(
                id,
                self.pane(id).core.logged(EventView::Error(error)),
            ),
        }
    }
}

/// What one step of a run comes to.
pub open spec fn steps<Clock: AttachClock>(
    after: ManagerView,
    before: ManagerView,
    run: RunView,
    next: RunView,
    awaited: InputVerification,
    id: PaneId,
    clocks: (Clock, Clock),
) -> bool {
    exists|reply: TransactionReply, served: ManagerView|
        {
            &&& #[trigger] serves::<Clock>(reply, served, before, run, awaited, id, clocks)
            &&& run.awaits(reply)
            &&& next == run.after(reply)
            &&& after == served.noting(id, run.note(reply))
        }
}

/// How an input transaction stands: the manager, the run and the clock.
pub ghost struct RunScene<Clock> {
    pub manager: ManagerView,
    pub run: RunView,
    pub clock: Clock,
}

/// Whether a scene comes of the one before it by a step of the run.
pub open spec fn run_linked<Clock: AttachClock>(
    scenes: Seq<RunScene<Clock>>,
    awaited: InputVerification,
    id: PaneId,
    i: int,
) -> bool {
    &&& scenes[i].run.phase != RunPhase::Done
    &&& scenes[i].manager.has(id)
    &&& steps::<Clock>(
        scenes[i + 1].manager,
        scenes[i].manager,
        scenes[i].run,
        scenes[i + 1].run,
        awaited,
        id,
        (scenes[i].clock, scenes[i + 1].clock),
    )
}

/// Whether each scene comes of the one before it by a step of the run.
pub open spec fn run_chain<Clock: AttachClock>(
    scenes: Seq<RunScene<Clock>>,
    awaited: InputVerification,
    id: PaneId,
) -> bool {
    forall|i: int|
        0 <= i < scenes.len() - 1 ==> #[trigger] run_linked::<Clock>(scenes, awaited, id, i)
}

/// What `count` steps of a run come to, one after the other.
#[verifier::opaque]
pub open spec fn run_driven<Clock: AttachClock>(
    last: RunScene<Clock>,
    first: RunScene<Clock>,
    awaited: InputVerification,
    id: PaneId,
    count: nat,
) -> bool {
    exists|scenes: Seq<RunScene<Clock>>|
        {
            &&& #[trigger] run_chain::<Clock>(scenes, awaited, id)
            &&& scenes.len() == count + 1
            &&& scenes.first() == first
            &&& scenes.last() == last
        }
}

proof fn lemma_run_idle<Clock: AttachClock>(
    first: RunScene<Clock>,
    awaited: InputVerification,
    id: PaneId,
)
    ensures
        run_driven::<Clock>(first, first, awaited, id, 0),
{
    reveal(run_driven);
    assert(run_chain::<Clock>(seq![first], awaited, id));
}

proof fn lemma_run_driven<Clock: AttachClock>(
    last: RunScene<Clock>,
    middle: RunScene<Clock>,
    first: RunScene<Clock>,
    awaited: InputVerification,
    id: PaneId,
    count: nat,
)
    requires
        run_driven::<Clock>(middle, first, awaited, id, count),
        middle.run.phase != RunPhase::Done,
        middle.manager.has(id),
        steps::<Clock>(
            last.manager,
            middle.manager,
            middle.run,
            last.run,
            awaited,
            id,
            (middle.clock, last.clock),
        ),
    ensures
        run_driven::<Clock>(last, first, awaited, id, count + 1),
{
    reveal(run_driven);
    let scenes = choose|scenes: Seq<RunScene<Clock>>|
        {
            &&& #[trigger] run_chain::<Clock>(scenes, awaited, id)
            &&& scenes.len() == count + 1
            &&& scenes.first() == first
            &&& scenes.last() == middle
        };
    let longer = scenes.push(last);
    assert forall|i: int| 0 <= i < longer.len() - 1 implies #[trigger] run_linked::<
        Clock,
    >(longer, awaited, id, i) by {
        if i < scenes.len() - 1 {
            assert(run_linked::<Clock>(scenes, awaited, id, i));
        }
    }
    assert(run_chain::<Clock>(longer, awaited, id));
}

/// Why a run cannot take its next step, if it cannot: the pane is not known, or
/// bytes are to be written and it has no process.
pub open spec fn run_refusal<Clock>(scene: RunScene<Clock>, id: PaneId) -> Option<ErrorView> {
    if !scene.manager.has(id) {
        Some(ManagerView::unknown(id))
    } else if scene.run.phase == RunPhase::Writing && !scene.manager.pane(id).backed {
        Some(needs_process())
    } else {
        None
    }
}

/// Whether a run is the one that a transaction on a pane begins with.
pub open spec fn run_opening(
    run: RunView,
    transaction: InputTransaction,
    pane: RuntimeView,
) -> bool {
    if pane.core.state.is_live() {
        exists|told: TerminalModes| #[trigger] runs(run, transaction, pane, told)
    } else {
        run == fresh_run(seq![], transaction.verification.deadline(), transaction.retry, true)
    }
}

/// What `limit` steps of a transaction on a pane come to, with the clock before
/// and after.
#[verifier::opaque]
pub open spec fn transacted<Clock: AttachClock>(
    after: ManagerView,
    met: ManagerView,
    id: PaneId,
    transaction: InputTransaction,
    limit: nat,
    r: Result<InputRun>,
    clocks: (Clock, Clock),
) -> bool {
    exists|last: RunScene<Clock>, first: RunScene<Clock>, count: nat|
        {
            &&& #[trigger] run_driven::<Clock>(last, first, transaction.verification, id, count)
            &&& first.manager == met
            &&& clocks == (first.clock, last.clock)
            &&& run_opening(first.run, transaction, met.pane(id))
            &&& last.manager == after
            &&& count <= limit
            &&& match r {
                Ok(run) => run@ == last.run && (last.run.phase == RunPhase::Done || count
                    == limit),
                Err(e) => {
                    &&& count < limit
                    &&& last.run.phase != RunPhase::Done
                    &&& run_refusal(last, id) == Some(e@)
                },
            }
        }
}

proof fn lemma_attempted(view: ManagerView, id: PaneId, pane: RuntimeView)
    requires
        view.valid(),
        view.has(id),
        pane.core == view.pane(id).core,
    ensures
        view.renewed(id, pane) == (ManagerView {
            panes: view.panes.update(view.place(id), pane),
            ..view
        }),
{
    let core = pane.core;
    crate::manager::lemma_unchanged(view, id);
    assert(view.renewed(id, pane) =~= (ManagerView {
        panes: view.panes.update(view.place(id), pane),
        ..view.renewed(id, view.pane(id))
    }));
}

impl PaneManager {
    /// Begins an input transaction on a pane: takes in its pending output and
    /// plans what is to be written.
    ///
    /// The transaction translates operator intent into PTY bytes, including
    /// bracketed paste for multiline text when the child has enabled it,
    /// chunked raw typing fallback otherwise, submit sequencing, transient
    /// write retries, and optional echo verification against the owned surface
    /// and retained scrollback. On a pane that has ended the run is over at
    /// once.
    ///
    /// # Errors
    ///
    /// Returns an error if the pane was not found or is surface-only. PTY
    /// write, child-exit, and verification failures are reported in the
    /// outcome of the run.
    pub fn begin_input_transaction(
        &mut self,
        pane_id: PaneId,
        transaction: InputTransaction,
    ) -> (r: Result<InputRun>)
        requires
            old(self).wf(),
        ensures
            goes_on(final(self).posted(), old(self).posted()),
            final(self).wf(),
            !old(self)@.has(pane_id) ==> error_of(r) == Some(ManagerView::unknown(pane_id))
                && final(self)@ == old(self)@,
            old(self)@.has(pane_id) ==> polled(
                final(self)@,
                old(self)@,
                pane_id,
                old(self)@.config.drain_limit as nat,
            ),
            old(self)@.has(pane_id) ==> {
                let pane = final(self)@.pane(pane_id);
                match r {
                    Ok(run) => {
                        &&& run@.valid()
                        &&& run.awaited() == transaction.verification
                        &&& if pane.core.state.is_live() {
                            pane.backed && exists|told: TerminalModes|
                                #[trigger] runs(run@, transaction, pane, told)
                        } else {
                            run@ == fresh_run(
                                seq![],
                                transaction.verification.deadline(),
                                transaction.retry,
                                true,
                            )
                        }
                    },
                    Err(e) => pane.core.state.is_live() && !pane.backed && e@ == needs_process(),
                }
            },
    {
        self.poll_pane_frames(pane_id);
        let k = match self.find(pane_id) {
            None => {
                return Err(not_found(pane_id));
            },
            Some(k) => k,
        };
        if !self.panes[k].books().is_live() {
            let none: Vec<InputWriteStep> = Vec::new();
            assert(step_views(none@) =~= seq![]);
            return Ok(InputRun::new(none, transaction.verification, transaction.retry, true));
        }
        if !self.panes[k].has_process() {
            return Err(crate::pane_runtime::no_process());
        }
        let config = self.panes[k].books().input_config();
        let modes = self.panes[k].modes();
        let ghost pane = self@.pane(pane_id);
        let ghost told = choose|told: TerminalModes|
            modes == #[trigger] merged(pane.core.overlay.flags, told) && pane.screen.tells(told);
        match plan_input_transaction(&transaction, config, modes) {
            Ok(steps) => {
                let run = InputRun::new(steps, transaction.verification, transaction.retry, false);
                assert(runs(run@, transaction, pane, told));
                Ok(run)
            },
            Err(error) => Err(error),
        }
    }

    fn serve_run<Clock: AttachClock>(
        &mut self,
        pane_id: PaneId,
        k: usize,
        run: &InputRun,
        clock: &mut Clock,
    ) -> (r: Result<TransactionReply>)
        requires
            old(self).wf(),
            stands_at(old(self)@.panes, pane_id, k as int),
            run@.valid(),
            run@.phase != RunPhase::Done,
        ensures
            goes_on(final(self).posted(), old(self).posted()),
            final(self).wf(),
            stands_at(final(self)@.panes, pane_id, k as int),
            match r {
                Ok(reply) => serves::<Clock>(
                    reply,
                    final(self)@,
                    old(self)@,
                    run@,
                    run.awaited(),
                    pane_id,
                    (*old(clock), *final(clock)),
                ) && run@.awaits(reply),
                Err(e) => run@.phase == RunPhase::Writing && !old(self)@.pane(pane_id).backed
                    && e@ == needs_process() && final(self)@ == old(self)@ && *final(clock)
                    == *old(clock),
            },
    {
        let ghost start = *self;
        let ghost before = self@;
        proof {
            lemma_place(before, pane_id, k as int);
            assert(self.panes@[k as int].wf());
            assert(before.panes[k as int] == self.panes@[k as int]@);
        }
        let limit = self.config.max_pty_frames_per_drain() as u64;
        match run.request() {
            TransactionRequest::Status => Ok(
                TransactionReply::Ended(!self.panes[k].books().is_live()),
            ),
            TransactionRequest::Poll => {
                let quiet = self.poll_at(k, limit);
                proof {
                    assert(polled_to(self@, before, pane_id, limit as nat, quiet));
                    lemma_place(self@, pane_id, k as int);
                    assert(self.panes@[k as int].wf());
                    assert(self@.panes[k as int] == self.panes@[k as int]@);
                }
                Ok(TransactionReply::Ended(!self.panes[k].books().is_live()))
            },
            TransactionRequest::Write(attempt) => {
                assert(run@.index < run@.steps.len());
                match self.panes[k].attempt(attempt, run.pending()) {
                    Ok(reply) => {
                        proof {
                            let pane = attempted(
                                before.pane(pane_id),
                                attempt,
                                run@.step().bytes,
                                reply,
                            );
                            lemma_attempted(before, pane_id, pane);
                            assert(self.panes@[k as int]@ == pane);
                            assert(self.panes@ =~= start.panes@.update(
                                k as int,
                                self.panes@[k as int],
                            ));
                            lemma_books_kept(*self, start, k as int);
                            assert(self@ =~= before.renewed(pane_id, pane));
                            law_renewing(before, pane_id, pane);
                        }
                        Ok(TransactionReply::Wrote(reply))
                    },
                    Err(error) => {
                        proof {
                            assert(self.panes@ =~= start.panes@.update(
                                k as int,
                                self.panes@[k as int],
                            ));
                            lemma_books_kept(*self, start, k as int);
                            assert(self@ =~= before);
                        }
                        Err(error)
                    },
                }
            },
            TransactionRequest::Clock => {
                let (now, _) = ask_reading(clock);
                assert(clock_read(*old(clock), *clock, now));
                Ok(TransactionReply::Clock(now))
            },
            TransactionRequest::Sleep(span) => {
                let _ = ask_pause(clock, span);
                assert(clock_paused(*old(clock), *clock, span));
                Ok(TransactionReply::Slept)
            },
            TransactionRequest::Observe => {
                let quiet = self.poll_at(k, limit);
                proof {
                    assert(polled_to(self@, before, pane_id, limit as nat, quiet));
                    lemma_place(self@, pane_id, k as int);
                    assert(self.panes@[k as int].wf());
                    assert(self@.panes[k as int] == self.panes@[k as int]@);
                }
                let text = self.panes[k].text();
                let echoed = run.accepts(text.as_str());
                assert(self@.pane(pane_id).reads(text@));
                Ok(
                    TransactionReply::Observed {
                        echoed,
                        ended: !self.panes[k].books().is_live(),
                    },
                )
            },
            TransactionRequest::Finished => Ok(TransactionReply::Slept),
        }
    }

    fn note_run(&mut self, pane_id: PaneId, k: usize, note: Option<TransactionNote>)
        requires
            old(self).wf(),
            stands_at(old(self)@.panes, pane_id, k as int),
        ensures
            goes_on(final(self).posted(), old(self).posted()),
            final(self).wf(),
            final(self)@ == old(self)@.noting(pane_id, crate::input_run::note_view(note)),
    {
        let ghost start = *self;
        let ghost before = self@;
        proof {
            lemma_place(before, pane_id, k as int);
            assert(self.panes@[k as int].wf());
            assert(before.panes[k as int] == self.panes@[k as int]@);
        }
        let from = self.panes[k].books().event_log().len();
        match note {
            None => {},
            Some(TransactionNote::Sent { input_kind, bytes_len }) => {
                self.panes[k].books_mut().send(input_kind, bytes_len);
                assert(self.panes@ =~= start.panes@.update(k as int, self.panes@[k as int]));
                self.conclude(k, from, Ghost(start));
            },
            Some(TransactionNote::Failed(error)) => {
                self.panes[k].books_mut().report_error(error);
                assert(self.panes@ =~= start.panes@.update(k as int, self.panes@[k as int]));
                self.conclude(k, from, Ghost(start));
            },
        }
    }

    /// Does what a run asks for and takes the run one step further.
    ///
    /// # Errors
    ///
    /// Returns an error if the pane was not found, or if bytes are to be
    /// written and it has no process. The run and the manager stay as they are
    /// then.
    pub fn step_input_transaction<Clock: AttachClock>(
        &mut self,
        pane_id: PaneId,
        run: &mut InputRun,
        clock: &mut Clock,
    ) -> (r: Result<()>)
        requires
            old(self).wf(),
            old(run)@.valid(),
            old(run)@.phase != RunPhase::Done,
        ensures
            goes_on(final(self).posted(), old(self).posted()),
            final(self).wf(),
            final(run)@.valid(),
            final(run).awaited() == old(run).awaited(),
            match r {
                Ok(_) => old(self)@.has(pane_id) && steps::<Clock>(
                    final(self)@,
                    old(self)@,
                    old(run)@,
                    final(run)@,
                    old(run).awaited(),
                    pane_id,
                    (*old(clock), *final(clock)),
                ),
                Err(e) => {
                    &&& final(self)@ == old(self)@
                    &&& *final(run) == *old(run)
                    &&& *final(clock) == *old(clock)
                    &&& if old(self)@.has(pane_id) {
                        old(run)@.phase == RunPhase::Writing && !old(self)@.pane(pane_id).backed
                            && e@ == needs_process()
                    } else {
                        e@ == ManagerView::unknown(pane_id)
                    }
                },
            },
    {
        let ghost before = self@;
        let k = match self.find(pane_id) {
            None => {
                return Err(not_found(pane_id));
            },
            Some(k) => k,
        };
        assert(stands_at(before.panes, pane_id, before.place(pane_id)));
        match self.serve_run(pane_id, k, run, clock) {
            Err(error) => Err(error),
            Ok(reply) => {
                let ghost served = self@;
                let ghost start = run@;
                let note = run.advance(reply);
                self.note_run(pane_id, k, note);
                proof {
                    assert(serves::<Clock>(
                        reply,
                        served,
                        before,
                        start,
                        run.awaited(),
                        pane_id,
                        (*old(clock), *clock),
                    ));
                }
                Ok(())
            },
        }
    }

    /// Takes a run `limit` steps further, or to its end, and tells whether it
    /// is over.
    ///
    /// # Errors
    ///
    /// As [`PaneManager::step_input_transaction`].
    pub fn drive_input_transaction<Clock: AttachClock>(
        &mut self,
        pane_id: PaneId,
        run: &mut InputRun,
        clock: &mut Clock,
        limit: u64,
    ) -> (r: Result<bool>)
        requires
            old(self).wf(),
            old(run)@.valid(),
        ensures
            goes_on(final(self).posted(), old(self).posted()),
            final(self).wf(),
            final(run)@.valid(),
            final(run).awaited() == old(run).awaited(),
            exists|count: nat|
                {
                    &&& #[trigger] run_driven::<Clock>(
                        RunScene { manager: final(self)@, run: final(run)@, clock: *final(clock) },
                        RunScene { manager: old(self)@, run: old(run)@, clock: *old(clock) },
                        old(run).awaited(),
                        pane_id,
                        count,
                    )
                    &&& count <= limit
                    &&& match r {
                        Ok(over) => over == (final(run)@.phase == RunPhase::Done) && (over || count
                            == limit),
                        Err(e) => {
                            &&& count < limit
                            &&& final(run)@.phase != RunPhase::Done
                            &&& run_refusal(
                                RunScene { manager: final(self)@, run: final(run)@, clock: *final(clock) },
                                pane_id,
                            ) == Some(e@)
                        },
                    }
                },
    {
        let ghost start = *run;
        let ghost posted = self.posted();
        let ghost first = RunScene { manager: self@, run: run@, clock: *clock };
        proof {
            lemma_run_idle::<Clock>(first, run.awaited(), pane_id);
        }
        let mut left = limit;
        let mut over = run.is_over();
        while left > 0 && !over
            invariant
                self.wf(),
                posted == old(self).posted(),
                goes_on(self.posted(), posted),
                run@.valid(),
                start == *old(run),
                first == (RunScene { manager: old(self)@, run: old(run)@, clock: *old(clock) }),
                run.awaited() == start.awaited(),
                over == (run@.phase == RunPhase::Done),
                left <= limit,
                run_driven::<Clock>(
                    RunScene { manager: self@, run: run@, clock: *clock },
                    first,
                    start.awaited(),
                    pane_id,
                    (limit - left) as nat,
                ),
            decreases left,
        {
            let ghost middle = RunScene { manager: self@, run: run@, clock: *clock };
            if let Err(error) = self.step_input_transaction(pane_id, run, clock) {
                return Err(error);
            }
            proof {
                lemma_run_driven::<Clock>(
                    RunScene { manager: self@, run: run@, clock: *clock },
                    middle,
                    first,
                    start.awaited(),
                    pane_id,
                    (limit - left) as nat,
                );
            }
            over = run.is_over();
            left = left - 1;
        }
        Ok(over)
    }

    /// Sends operator input as a transaction: begins it and takes it `limit`
    /// steps further, or to its end. A run that is not over then goes on with
    /// [`PaneManager::drive_input_transaction`].
    ///
    /// # Errors
    ///
    /// Returns an error if the pane was not found or is surface-only. PTY
    /// write, child-exit, and verification failures are reported in the
    /// outcome of the run.
    pub fn send_input_transaction<Clock: AttachClock>(
        &mut self,
        pane_id: PaneId,
        transaction: InputTransaction,
        clock: &mut Clock,
        limit: u64,
    ) -> (r: Result<InputRun>)
        requires
            old(self).wf(),
        ensures
            goes_on(final(self).posted(), old(self).posted()),
            final(self).wf(),
            !old(self)@.has(pane_id) ==> error_of(r) == Some(ManagerView::unknown(pane_id))
                && final(self)@ == old(self)@ && *final(clock) == *old(clock),
            r matches Ok(run) ==> run@.valid() && run.awaited() == transaction.verification,
            old(self)@.has(pane_id) ==> exists|met: ManagerView|
                {
                    &&& #[trigger] polled(
                        met,
                        old(self)@,
                        pane_id,
                        old(self)@.config.drain_limit as nat,
                    )
                    &&& if met.pane(pane_id).core.state.is_live() && !met.pane(pane_id).backed {
                        error_of(r) == Some(needs_process()) && final(self)@ == met
                            && *final(clock) == *old(clock)
                    } else {
                        transacted::<Clock>(
                            final(self)@,
                            met,
                            pane_id,
                            transaction,
                            limit as nat,
                            r,
                            (*old(clock), *final(clock)),
                        )
                    }
                },
    {
        let ghost before = self@;
        let mut run = match self.begin_input_transaction(pane_id, transaction) {
            Ok(run) => run,
            Err(error) => {
                return Err(error);
            },
        };
        let ghost met = self@;
        let ghost first = RunScene { manager: met, run: run@, clock: *clock };
        proof {
            assert(polled(met, before, pane_id, before.config.drain_limit as nat));
            reveal(transacted);
        }
        match self.drive_input_transaction(pane_id, &mut run, clock, limit) {
            Ok(_) => Ok(run),
            Err(error) => Err(error),
        }
    }
}

} // verus!
