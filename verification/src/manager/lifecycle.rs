//! Panes coming and going.

use vstd::prelude::*;

use crate::calls::{
    hold_made, hold_spawned, holds_made, holds_spawned, PaneProcess, PaneScreen,
};
use crate::error::{error_of, ErrorView, PaneError, Result};
use crate::event::{
    entries, goes_on, lemma_reports_more, reports, EventEntry, EventView,
};
use crate::manager::{
    hearings, law_joining, law_polling, law_removing, law_renewing, lemma_others_told, lemma_place,
    not_found, parts, polled, polled_to, stands_at, ManagerView, PaneManager,
};
use crate::manager_config::no_factory;
use crate::pane::{
    lemma_pane_id_value, KillReason, PaneConfig, PaneId, PaneInteractionMode, StateView,
};
use crate::pane_core::{
    law_retiring, opt_exit, state_label, state_name, CoreView, PaneCore, PaneExit,
};
use crate::pane_runtime::{
    absorbed, absorbed_to, kills, law_absorbed, needs_process, needs_running, PaneRuntime,
    RuntimeView,
};
use crate::pty::PtyProcess;
use crate::surface::SurfaceBackend;
use crate::text::{decimal, push_decimal};

verus! {

impl ManagerView {
    /// The identifier that a new pane gets: the one it asks for, or the next.
    pub open spec fn next_pane(self, config: PaneConfig) -> PaneId {
        match config.id {
            Some(id) => id,
            None => choose|id: PaneId| id.value() == self.next_id + 1,
        }
    }
}

/// The error of a spawn under an identifier that is taken.
pub open spec fn taken(id: PaneId) -> ErrorView {
    ErrorView::Spawn { message: "pane "@ + decimal(id.value() as nat) + " already exists"@ }
}

fn id_taken(id: PaneId) -> (error: PaneError)
    ensures
        error@ == taken(id),
{
    let mut message = "pane ".to_owned();
    push_decimal(&mut message, id.get());
    message.append(" already exists");
    PaneError::Spawn { message }
}

/// What becomes of a pane that is removed: its pending frames come in and it is
/// found to have ended, those that came meanwhile come in too, and then its
/// books are retired.
#[verifier::opaque]
pub open spec fn put_away(last: RuntimeView, before: RuntimeView) -> bool {
    exists|ended: RuntimeView, all: RuntimeView|
        #![trigger absorbed(ended, before, u64::MAX as nat), absorbed(all, ended, u64::MAX as nat)]
        absorbed(ended, before, u64::MAX as nat) && !ended.core.state.is_live() && absorbed(
            all,
            ended,
            u64::MAX as nat,
        ) && last == all.booked(all.core.retired())
}

/// Whether a pane comes of another by taking in what is still pending and
/// retiring its books.
#[verifier::opaque]
pub open spec fn retires(last: RuntimeView, before: RuntimeView) -> bool {
    exists|all: RuntimeView|
        #[trigger] absorbed(all, before, u64::MAX as nat) && last == all.booked(
            all.core.retired(),
        )
}

/// A pane that had ended is removed as it had ended.
pub proof fn law_put_away(last: RuntimeView, before: RuntimeView)
    requires
        put_away(last, before),
    ensures
        last.core.grew_from(before.core),
        !last.core.state.is_live(),
        !before.core.state.is_live() ==> last.core.state == before.core.state && last.core.exit
            == before.core.exit && last.core.outcome() == before.core.outcome(),
{
    reveal(put_away);
    let (ended, all) = choose|ended: RuntimeView, all: RuntimeView|
        #![trigger absorbed(ended, before, u64::MAX as nat), absorbed(all, ended, u64::MAX as nat)]
        absorbed(ended, before, u64::MAX as nat) && !ended.core.state.is_live() && absorbed(
            all,
            ended,
            u64::MAX as nat,
        ) && last == all.booked(all.core.retired());
    law_absorbed(ended, before, u64::MAX as nat);
    law_absorbed(all, ended, u64::MAX as nat);
    law_retiring(all.core);
    lemma_grew(ended.core, before.core, all.core);
    lemma_grew(all.core, before.core, last.core);
}

proof fn lemma_grew(middle: CoreView, first: CoreView, last: CoreView)
    requires
        middle.grew_from(first),
        last.grew_from(middle),
    ensures
        last.grew_from(first),
{
    let n = first.log.len() as int;
    assert(last.log.take(n) =~= last.log.take(middle.log.len() as int).take(n));
}

/// A pane that has just been spawned: it has the process that was spawned and
/// the surface that was made for it, and has asked nothing of them.
pub open spec fn newborn(
    pane: RuntimeView,
    id: PaneId,
    config: PaneConfig,
    screen: PaneScreen,
    process: PaneProcess,
) -> bool {
    pane == (RuntimeView {
        core: CoreView::spawned(id, PaneConfig { id: Some(id), ..config }),
        backed: true,
        process: Some(process),
        screen,
        calls: seq![],
    })
}

impl ManagerView {
    /// Whether making the surface of a pane and then its process may fail, or
    /// not fail, like this.
    pub open spec fn tries(
        self,
        id: PaneId,
        config: &PaneConfig,
        failure: Option<ErrorView>,
    ) -> bool {
        exists|made: Result<Box<dyn SurfaceBackend>>|
            #[trigger] self.config.makes(id, config, made) && match made {
                Err(e) => failure == Some(e@),
                Ok(_) => exists|process: Result<Box<dyn PtyProcess>>|
                    #[trigger] self.config.spawns_as(config, process) && failure == error_of(
                        process,
                    ),
            }
    }

    /// Whether a pane is one that the manager spawns: with a surface that its
    /// factory makes for it, and a process that its spawner spawns.
    pub open spec fn bears(self, pane: RuntimeView, id: PaneId, config: PaneConfig) -> bool {
        exists|
            made: Result<Box<dyn SurfaceBackend>>,
            held: Result<PaneScreen>,
            spawned: Result<Box<dyn PtyProcess>>,
            running: Result<PaneProcess>,
        |
            {
                &&& #[trigger] self.config.makes(id, &config, made)
                &&& #[trigger] holds_made(made, held)
                &&& #[trigger] self.config.spawns_as(&config, spawned)
                &&& #[trigger] holds_spawned(spawned, running)
                &&& held matches Ok(screen)
                &&& running matches Ok(process)
                &&& newborn(pane, id, config, screen, process)
            }
    }
}

/// A pane that a manager spawns runs, embedded, with a process and a surface
/// that it has asked nothing yet, and has logged that it was spawned and that it
/// runs.
pub proof fn law_spawned_panes_run(
    view: ManagerView,
    pane: RuntimeView,
    id: PaneId,
    config: PaneConfig,
)
    requires
        view.bears(pane, id, config),
    ensures
        view.config.spawner is Some,
        view.config.factory is Some,
        pane.backed,
        pane.calls.len() == 0,
        pane.core.pane == id,
        pane.core.state == StateView::Running,
        pane.core.mode == PaneInteractionMode::Embedded,
        pane.core.log == seq![
            EventEntry {
                pane: id,
                seq: 1,
                kind: EventView::Spawned { program: config.command.program@ },
            },
            EventEntry {
                pane: id,
                seq: 2,
                kind: EventView::StateChanged {
                    old: StateView::Starting,
                    new: StateView::Running,
                },
            },
        ],
{
}

impl PaneManager {
    /// Takes a spawned pane in under a free identifier.
    pub fn adopt(
        &mut self,
        pane_id: PaneId,
        config: PaneConfig,
        screen: PaneScreen,
        process: PaneProcess,
    )
        requires
            old(self).wf(),
            !old(self)@.has(pane_id),
            pane_id.value() <= old(self)@.next_id,
        ensures
            goes_on(final(self).posted(), old(self).posted()),
            final(self).wf(),
            exists|pane: RuntimeView|
                #[trigger] newborn(pane, pane_id, config, screen, process) && final(self)@ == old(
                    self,
                )@.joined(pane),
    {
        let ghost asked = config;
        let mut config = config;
        config.id = Some(pane_id);
        let core = PaneCore::spawned(pane_id, config);
        let pane = PaneRuntime::new(core, screen, Some(process));
        assert(newborn(pane@, pane_id, asked, screen, process));
        self.join(pane);
    }

    pub(super) fn join(&mut self, pane: PaneRuntime)
        requires
            old(self).wf(),
            pane.wf(),
            !old(self)@.has(pane@.core.pane),
            pane@.core.pane.value() <= old(self)@.next_id,
        ensures
            goes_on(final(self).posted(), old(self).posted()),
            final(self).wf(),
            final(self)@ == old(self)@.joined(pane@),
    {
        let ghost start = *self;
        let ghost before = self@;
        let ghost id = pane@.core.pane;
        let ghost core = pane@.core;
        let ghost log = pane.events();
        let count = pane.books().event_log().len();
        let pane_id = pane.books().pane_id();
        let mut k: usize = 0;
        let mut searching = true;
        while k < self.panes.len() && searching
            invariant
                self.wf(),
                *self == start,
                self@ == before,
                pane_id == id,
                k <= self.panes@.len(),
                forall|i: int| 0 <= i < k ==> (#[trigger] before.panes[i]).core.pane.value()
                    < id.value(),
                !searching ==> k < self.panes@.len() && before.panes[k as int].core.pane.value()
                    >= id.value(),
            decreases self.panes@.len() - k + (if searching { 1int } else { 0 }),
        {
            assert(self.panes@[k as int].wf());
            assert(before.panes[k as int] == self.panes@[k as int]@);
            if self.panes[k].books().pane_id().get() < pane_id.get() {
                k = k + 1;
            } else {
                searching = false;
            }
        }
        proof {
            assert forall|i: int| k <= i < before.panes.len() implies (
            #[trigger] before.panes[i]).core.pane.value() > id.value() by {
                lemma_pane_id_value(before.panes[i].core.pane, id);
                if before.panes[i].core.pane == id {
                    assert(stands_at(before.panes, id, i));
                }
                if i > k {
                    assert(before.panes[k as int].core.pane.value()
                        < before.panes[i].core.pane.value());
                }
            }
            assert(parts(before.panes, id, k as int));
            law_joining(before, pane@, k as int);
        }
        let ghost old_panes = self.panes@;
        self.panes.insert(k, pane);
        proof {
            assert(self@.panes =~= before.panes.insert(k as int, pane@));
            assert forall|i: int| 0 <= i < self.panes@.len() implies (
            #[trigger] self.panes@[i]).wf() by {
                if i < k {
                    assert(self.panes@[i] == old_panes[i]);
                } else if i > k {
                    assert(self.panes@[i] == old_panes[i - 1]);
                }
            }
            assert forall|j: int| 0 <= j < self.panes@.len() && j != k implies self.told_of(
                #[trigger] self.panes@[j],
            ) by {
                let i = if j < k {
                    j
                } else {
                    j - 1
                };
                assert(self.panes@[j] == old_panes[i]);
                assert(start.told_of(start.panes@[i]));
            }
            pane.law_log_is_numbered();
            assert(log.take(0) =~= Seq::empty());
            assert(before.queue + core.log.take(0) =~= before.queue);
            assert(before.heard + hearings(before.sink, core.log.take(0)) =~= before.heard);
            assert(before.mailed + core.log.take(0) =~= before.mailed);
        }
        let ghost panes = self.panes;
        let mut i: usize = 0;
        while i < count
            invariant
                self.sound(),
                self.panes == panes,
                k < panes@.len(),
                panes@[k as int].wf(),
                core == panes@[k as int]@.core,
                core.pane == id,
                core.numbered(),
                log == panes@[k as int].events(),
                entries(log) == core.log,
                goes_on(self.posted(), start.posted()),
                reports(self.posted(), log.take(i as int), id),
                forall|j: int|
                    0 <= j < panes@.len() && j != k ==> self.told_of(#[trigger] panes@[j]),
                i <= count,
                count == core.log.len(),
                self@.next_id == before.next_id,
                self@.config == before.config,
                self@.panes == before.joined(pane@).panes,
                self@.sink == before.sink,
                self@.queue == before.queue + core.log.take(i as int),
                self@.heard == before.heard + hearings(before.sink, core.log.take(i as int)),
                self@.mailed == before.mailed + core.log.take(i as int),
            decreases count - i,
        {
            let ghost earlier = *self;
            let event = self.panes[k].books().event_log()[i].clone();
            let ghost told = event;
            assert(entries(log)[i as int] == log[i as int].entry());
            assert(event.entry() == core.log[i as int]);
            self.emit(event);
            proof {
                lemma_reports_more(
                    earlier.posted(),
                    told,
                    log.take(i as int),
                    log[i as int],
                    id,
                );
                assert(log.take(i + 1) =~= log.take(i as int).push(log[i as int]));
                lemma_others_told(*self, earlier, told, k as int);
                assert(core.log.take(i + 1) =~= core.log.take(i as int).push(core.log[i as int]));
                assert(self@.queue =~= before.queue + core.log.take(i + 1));
                assert(self@.heard =~= before.heard + hearings(
                    before.sink,
                    core.log.take(i + 1),
                ));
                assert(self@.mailed =~= before.mailed + core.log.take(i + 1));
            }
            i = i + 1;
        }
        proof {
            assert(core.log.take(i as int) =~= core.log);
            assert(log.take(i as int) =~= log);
            assert(self@ =~= before.joined(pane@));
            assert(self.told_of(panes@[k as int]));
        }
    }

    /// Spawns a new pane with the given configuration.
    ///
    /// # Errors
    ///
    /// Returns an error if the configuration is not valid, if the identifier
    /// it asks for is taken, or if the surface or the process cannot be made.
    pub fn spawn(&mut self, config: PaneConfig) -> (r: Result<PaneId>)
        requires
            old(self).wf(),
            config.id is None ==> old(self)@.next_id < u64::MAX,
        ensures
            goes_on(final(self).posted(), old(self).posted()),
            final(self).wf(),
            config.defect() is Some ==> error_of(r) == config.defect() && final(self)@ == old(
                self,
            )@,
            config.defect() is None ==> {
                let id = old(self)@.next_pane(config);
                if old(self)@.has(id) {
                    error_of(r) == Some(taken(id)) && final(self)@ == old(self)@.reserved(id)
                } else {
                    &&& old(self)@.tries(id, &config, error_of(r))
                    &&& old(self)@.config.factory is None ==> error_of(r) == Some(no_factory())
                    &&& match r {
                        Ok(spawned) => {
                            &&& spawned == id
                            &&& old(self)@.config.spawner is Some
                            &&& old(self)@.config.factory is Some
                            &&& exists|pane: RuntimeView|
                                #[trigger] old(self)@.bears(pane, id, config) && final(self)@
                                    == old(self)@.reserved(id).joined(pane)
                        },
                        Err(_) => final(self)@ == old(self)@.reserved(id),
                    }
                }
            },
            // An identifier of the manager's own choice is never taken.
            config.defect() is None && config.id is None ==> !old(self)@.has(
                old(self)@.next_pane(config),
            ),
    {
        if let Err(error) = config.validate() {
            return Err(error);
        }
        let ghost before = self@;
        let pane_id = match config.id {
            Some(id) => id,
            None => PaneId::new(self.next_pane_id + 1),
        };
        proof {
            let id = before.next_pane(config);
            assert(pane_id == id) by {
                if config.id is None {
                    assert(pane_id.value() == before.next_id + 1);
                    lemma_pane_id_value(pane_id, id);
                }
            }
            if config.id is None && before.has(id) {
                let k = before.place(id);
                assert(stands_at(before.panes, id, k));
                assert(before.panes[k].core.pane.value() <= before.next_id);
            }
        }
        if self.next_pane_id < pane_id.get() {
            self.next_pane_id = pane_id.get();
        }
        assert(self@ =~= before.reserved(pane_id));
        assert(self@.has(pane_id) == before.has(pane_id));
        if self.find(pane_id).is_some() {
            return Err(id_taken(pane_id));
        }
        let made = self.config.create_surface(pane_id, &config);
        assert(before.config.makes(pane_id, &config, made));
        let ghost answer = made;
        let held = hold_made(made);
        assert(holds_made(answer, held));
        let screen = match held {
            Ok(screen) => screen,
            Err(error) => {
                return Err(error);
            },
        };
        let spawned = self.config.spawn_process(&config);
        assert(before.config.spawns_as(&config, spawned));
        let ghost began = spawned;
        let running = hold_spawned(spawned);
        assert(holds_spawned(began, running));
        let process = match running {
            Ok(process) => process,
            Err(error) => {
                return Err(error);
            },
        };
        let ghost asked = config;
        let ghost reserved = self@;
        self.adopt(pane_id, config, screen, process);
        proof {
            let pane = choose|pane: RuntimeView|
                #[trigger] newborn(pane, pane_id, asked, held->Ok_0, running->Ok_0) && self@
                    == reserved.joined(pane);
            assert(old(self)@.bears(pane, pane_id, asked));
        }
        Ok(pane_id)
    }

    /// Removes a terminal pane from the manager, returning its exit status if
    /// known.
    ///
    /// Removal is the ownership cleanup step: it drops the manager-owned pane
    /// runtime state, including the PTY process handle, surface backend,
    /// transcript buffers, and retained event log. Live panes must be killed,
    /// failed, or observed as exited before they can be removed.
    ///
    /// # Errors
    ///
    /// Returns an error if the pane was not found, or is found to be live once
    /// its pending frames were taken in.
    pub fn remove(&mut self, pane_id: PaneId) -> (r: Result<Option<PaneExit>>)
        requires
            old(self).wf(),
        ensures
            goes_on(final(self).posted(), old(self).posted()),
            final(self).wf(),
            !old(self)@.has(pane_id) ==> error_of(r) == Some(ManagerView::unknown(pane_id))
                && final(self)@ == old(self)@,
            old(self)@.has(pane_id) ==> match r {
                Ok(exit) => exists|last: RuntimeView|
                    {
                        &&& #[trigger] put_away(last, old(self)@.pane(pane_id))
                        &&& opt_exit(exit) == last.core.outcome()
                        &&& final(self)@ == old(self)@.renewed(pane_id, last).without(pane_id)
                    },
                Err(e) => {
                    let core = final(self)@.pane(pane_id).core;
                    &&& polled(final(self)@, old(self)@, pane_id, u64::MAX as nat)
                    &&& core.state.is_live()
                    &&& e@ == (ErrorView::InvalidState {
                        expected: "Exited, Failed, or Killed"@,
                        actual: state_name(core.state),
                    })
                },
            },
            old(self)@.has(pane_id) && !old(self)@.pane(pane_id).core.state.is_live() ==> (r
                matches Ok(exit) && opt_exit(exit) == old(self)@.pane(pane_id).core.outcome()),
    {
        let ghost before = self@;
        let k = match self.find(pane_id) {
            None => {
                return Err(not_found(pane_id));
            },
            Some(k) => k,
        };
        assert(stands_at(before.panes, pane_id, before.place(pane_id)));
        let quiet = self.poll_at(k, u64::MAX);
        let ghost ended = self@;
        proof {
            assert(polled_to(ended, before, pane_id, u64::MAX as nat, quiet));
            assert(stands_at(ended.panes, pane_id, k as int));
            lemma_place(ended, pane_id, k as int);
            law_polling(ended, before, pane_id, u64::MAX as nat);
            assert(self.panes@[k as int].wf());
            assert(ended.panes[k as int] == self.panes@[k as int]@);
        }
        if self.panes[k].books().is_live() {
            return Err(
                PaneError::InvalidState {
                    expected: "Exited, Failed, or Killed".to_owned(),
                    actual: state_label(self.panes[k].books().state()),
                },
            );
        }
        let last = self.retire_at(k);
        proof {
            lemma_removal(before, ended, self@, pane_id, last@, k as int);
        }
        let pane = self.take_at(k);
        Ok(pane.remove_exit())
    }

    /// Takes in what is still pending of a pane and settles its books.
    fn retire_at(&mut self, k: usize) -> (last: Ghost<RuntimeView>)
        requires
            old(self).wf(),
            k < old(self)@.panes.len(),
        ensures
            goes_on(final(self).posted(), old(self).posted()),
            final(self).wf(),
            final(self)@.panes.len() == old(self)@.panes.len(),
            retires(last@, old(self)@.panes[k as int]),
            final(self)@ == old(self)@.renewed(old(self)@.panes[k as int].core.pane, last@),
    {
        let ghost start = *self;
        let ghost before = self@;
        assert(self.panes@[k as int].wf());
        assert(before.panes[k as int] == self.panes@[k as int]@);
        let from = self.panes[k].books().event_log().len();
        let quiet = self.panes[k].poll(u64::MAX);
        let ghost all = self.panes@[k as int]@;
        let ghost last = all.booked(all.core.retired());
        self.panes[k].books_mut().retire();
        proof {
            assert(absorbed_to(all, before.panes[k as int], u64::MAX as nat, quiet));
            assert(absorbed(all, before.panes[k as int], u64::MAX as nat));
            law_absorbed(all, before.panes[k as int], u64::MAX as nat);
            law_retiring(all.core);
            lemma_grew(all.core, before.panes[k as int].core, all.core.retired());
            assert(retires(last, before.panes[k as int])) by {
                reveal(retires);
            }
            let id = before.panes[k as int].core.pane;
            assert(stands_at(before.panes, id, k as int));
            lemma_place(before, id, k as int);
            assert(self.panes@ =~= start.panes@.update(k as int, self.panes@[k as int]));
        }
        self.conclude(k, from, Ghost(start));
        Ghost(last)
    }

    pub(super) fn take_at(&mut self, k: usize) -> (pane: PaneRuntime)
        requires
            old(self).wf(),
            k < old(self)@.panes.len(),
        ensures
            goes_on(final(self).posted(), old(self).posted()),
            final(self).wf(),
            pane@ == old(self)@.panes[k as int],
            final(self)@ == old(self)@.without(old(self)@.panes[k as int].core.pane),
    {
        let ghost start = *self;
        let ghost before = self@;
        let ghost id = before.panes[k as int].core.pane;
        let ghost held = self.panes@;
        proof {
            assert(stands_at(before.panes, id, k as int));
            lemma_place(before, id, k as int);
            law_removing(before, id);
        }
        let pane = self.panes.remove(k);
        proof {
            assert(pane@ == before.panes[k as int]);
            assert(self@.panes =~= before.without(id).panes);
            assert(self@ =~= before.without(id));
            assert forall|i: int| 0 <= i < self.panes@.len() implies (
            #[trigger] self.panes@[i]).wf() by {
                if i < k {
                    assert(self.panes@[i] == held[i]);
                } else {
                    assert(self.panes@[i] == held[i + 1]);
                }
            }
            assert forall|j: int| 0 <= j < self.panes@.len() implies self.told_of(
                #[trigger] self.panes@[j],
            ) by {
                let i = if j < k {
                    j
                } else {
                    j + 1
                };
                assert(self.panes@[j] == held[i]);
                assert(start.told_of(start.panes@[i]));
            }
        }
        pane
    }

    /// Kills a pane and immediately removes its terminal state from the
    /// manager.
    ///
    /// # Errors
    ///
    /// Returns an error if the pane was not found or cannot be killed. The pane
    /// stays then. A pane that was killed is always removed.
    pub fn kill_and_remove(&mut self, pane_id: PaneId, reason: KillReason) -> (r: Result<
        Option<PaneExit>,
    >)
        requires
            old(self).wf(),
        ensures
            goes_on(final(self).posted(), old(self).posted()),
            final(self).wf(),
            !old(self)@.has(pane_id) ==> error_of(r) == Some(ManagerView::unknown(pane_id)),
            old(self)@.has(pane_id) && !old(self)@.pane(pane_id).backed ==> error_of(r) == Some(
                needs_process(),
            ),
            old(self)@.has(pane_id) && old(self)@.pane(pane_id).backed && !(old(self)@.pane(
                pane_id,
            ).core.state is Running) ==> error_of(r) == Some(
                needs_running(old(self)@.pane(pane_id).core),
            ),
            !old(self)@.has(pane_id) ==> final(self)@ == old(self)@,
            old(self)@.has(pane_id) ==> exists|killed: RuntimeView|
                {
                    &&& #[trigger] kills(killed, old(self)@.pane(pane_id), reason, error_of(r))
                    &&& match r {
                        Ok(exit) => {
                            &&& opt_exit(exit) == killed.core.outcome()
                            &&& exists|last: RuntimeView|
                                #[trigger] put_away(last, killed) && final(self)@ == old(
                                    self,
                                )@.renewed(pane_id, killed).renewed(pane_id, last).without(pane_id)
                        },
                        Err(_) => final(self)@ == old(self)@.renewed(pane_id, killed),
                    }
                },
    {
        let ghost before = self@;
        match self.kill(pane_id, reason) {
            Ok(_) => {
                let ghost killed = self@.pane(pane_id);
                proof {
                    assert(before.has(pane_id));
                    assert(stands_at(before.panes, pane_id, before.place(pane_id)));
                    law_renewing(before, pane_id, killed);
                }
                let r = self.remove(pane_id);
                assert(kills(killed, before.pane(pane_id), reason, error_of(r)));
                r
            },
            Err(error) => Err(error),
        }
    }
}

/// Draining a pane until it is found to have ended and then retiring it is one
/// continuation of its books.
#[verifier::spinoff_prover]
#[verifier::rlimit(80)]
proof fn lemma_removal(
    before: ManagerView,
    ended: ManagerView,
    settled: ManagerView,
    id: PaneId,
    last: RuntimeView,
    k: int,
)
    requires
        before.valid(),
        ended.valid(),
        stands_at(before.panes, id, k),
        before.place(id) == k,
        before.has(id),
        stands_at(ended.panes, id, k),
        ended.place(id) == k,
        polled(ended, before, id, u64::MAX as nat),
        !ended.pane(id).core.state.is_live(),
        retires(last, ended.panes[k]),
        settled == ended.renewed(id, last),
    ensures
        put_away(last, before.pane(id)),
        settled == before.renewed(id, last),
        settled.panes[k] == last,
        settled.panes[k].core.pane == id,
        !before.pane(id).core.state.is_live() ==> last.core.outcome() == before.pane(
            id,
        ).core.outcome(),
{
    reveal(retires);
    let first = before.pane(id);
    let middle = ended.pane(id);
    let all = choose|all: RuntimeView|
        #[trigger] absorbed(all, middle, u64::MAX as nat) && last == all.booked(
            all.core.retired(),
        );
    assert(absorbed(middle, first, u64::MAX as nat) && ended == before.renewed(id, middle)) by {
        reveal(polled_to);
        let quiet = choose|quiet: bool|
            #[trigger] polled_to(ended, before, id, u64::MAX as nat, quiet);
        assert(absorbed_to(middle, first, u64::MAX as nat, quiet));
    }
    assert(put_away(last, first)) by {
        reveal(put_away);
    }
    law_absorbed(middle, first, u64::MAX as nat);
    law_absorbed(all, middle, u64::MAX as nat);
    law_retiring(all.core);
    lemma_grew(all.core, middle.core, last.core);
    law_put_away(last, first);
    lemma_rebooked(before, id, middle, last);
}

pub(super) proof fn lemma_rebooked(
    view: ManagerView,
    id: PaneId,
    middle: RuntimeView,
    last: RuntimeView,
)
    requires
        view.valid(),
        view.has(id),
        middle.core.pane == id,
        last.core.pane == id,
        view.pane(id).core.log.len() <= middle.core.log.len() <= last.core.log.len(),
        middle.core.log == last.core.log.take(middle.core.log.len() as int),
    ensures
        view.renewed(id, middle).renewed(id, last) == view.renewed(id, last),
{
    law_renewing(view, id, middle);
    let k = view.place(id);
    assert(stands_at(view.panes, id, k));
    let first = view.renewed(id, middle);
    assert(stands_at(first.panes, id, k));
    lemma_place(first, id, k);
    let n = view.pane(id).core.log.len() as int;
    let m = middle.core.log.len() as int;
    let early = middle.core.log.skip(n);
    let late = last.core.log.skip(m);
    assert(early + late =~= last.core.log.skip(n));
    lemma_hearings(view.sink, early, late);
    assert(first.renewed(id, last).queue =~= view.renewed(id, last).queue);
    assert(first.renewed(id, last).heard =~= view.renewed(id, last).heard);
    assert(first.renewed(id, last).mailed =~= view.renewed(id, last).mailed);
    assert(first.renewed(id, last) =~= view.renewed(id, last));
}

proof fn lemma_hearings(
    sink: Option<crate::manager_config::ManagerSink>,
    early: Seq<EventEntry>,
    late: Seq<EventEntry>,
)
    ensures
        hearings(sink, early + late) == hearings(sink, early) + hearings(sink, late),
{
    assert(hearings(sink, early + late) =~= hearings(sink, early) + hearings(sink, late));
}

} // verus!
