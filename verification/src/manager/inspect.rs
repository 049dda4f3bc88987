//! Draining events, repro dumps, and panes without a process.

use vstd::prelude::*;

use crate::calls::{
    frame_calls, lemma_frame_calls_both, screen_fed, HeldProcess, PaneCall, PaneProcess,
    PaneScreen, Screen,
};
use crate::error::{error_of, ErrorView, PaneError, Result};
use crate::event::{entries, goes_on, PaneEvent};
use crate::manager::{
    law_polling, law_removing, law_renewing, lemma_books_kept, lemma_place, lemma_unchanged,
    not_found, polled, polled_to, stands_at, ManagerView, PaneManager,
};
use crate::mode_overlay::OverlayView;
use crate::pane::{
    opt_text, KillReason, PaneConfig, PaneId, PaneInteractionMode, PaneState, Size, StateView,
    TranscriptConfig,
};
use crate::pane_core::{feed_view, CoreView, FeedView, PaneCore};
use crate::pane_runtime::{
    absorbed_to, absorbs, fed_directly, law_going_on, lemma_took_frame, went_on, PaneRuntime,
    RuntimeView, Showing,
};
use crate::pty::{FrameView, PtyProcess};
use crate::repro::{
    is_redacted, redact_repro_events, redact_spawn_config, redacted_entries, ReproDump,
    ReproDumpOptions, ReproRawTranscript, ReproSizeEvent,
};
use crate::surface::{PaneStats, ScrollbackSnapshot, SurfaceBackend, SurfaceUpdate};
use crate::text::{decimal, push_decimal};
use crate::transcript::{all_raw, TranscriptView};

verus! {

/// Whether a manager comes of another by polling its first `k` panes in turn.
pub open spec fn visited(after: ManagerView, before: ManagerView, k: nat) -> bool
    decreases k,
{
    if k == 0 {
        after == before
    } else {
        exists|middle: ManagerView|
            visited(middle, before, (k - 1) as nat) && #[trigger] polled(
                after,
                middle,
                before.panes[k - 1].core.pane,
                before.config.drain_limit as nat,
            )
    }
}

/// The error of a repro dump of a pane that does not quiesce.
pub open spec fn never_quiet(limit: usize) -> ErrorView {
    ErrorView::Surface {
        message: "repro dump exceeded the PTY frame drain limit ("@ + decimal(limit as nat)
            + ") while the pane still had queued output"@,
    }
}

/// Whether events have the times of the events logged, one by one.
pub open spec fn timed(events: Seq<PaneEvent>, log: Seq<PaneEvent>) -> bool {
    &&& events.len() == log.len()
    &&& forall|i: int| 0 <= i < log.len() ==> (#[trigger] events[i]).at == log[i].at
}

/// Whether a dump tells the truth about a pane, redacted as the options say.
pub open spec fn dumps(dump: ReproDump, pane: RuntimeView, options: ReproDumpOptions) -> bool {
    let core = pane.core;
    &&& pane.screen.describes(dump.backend)
    &&& dump.pane_id == core.pane
    &&& options.keep_spawn_metadata ==> dump.spawn_config.same(core.config)
    &&& !options.keep_spawn_metadata ==> is_redacted(dump.spawn_config, core.config)
    &&& dump.size_history@ == core.sizes
    &&& entries(dump.events@) == redacted_entries(core.log, dump.spawn_config.command.program@)
    &&& match dump.raw_transcript {
        Some(raw) => core.transcript.keeps_raw() && raw.start_offset == core.transcript.raw_start
            && raw.bytes@ == all_raw(core.transcript.chunks),
        None => !core.transcript.keeps_raw(),
    }
    &&& exists|showing: Showing|
        dump.final_surface@ == #[trigger] core.shown(showing) && pane.shows(showing)
}

#[verifier::spinoff_prover]
#[verifier::rlimit(60)]
proof fn lemma_took_both(
    core: CoreView,
    first: Seq<(FrameView, FeedView)>,
    second: Seq<(FrameView, FeedView)>,
)
    ensures
        core.took_all(first + second) == core.took_all(first).took_all(second),
    decreases second.len(),
{
    if second.len() == 0 {
        assert(first + second =~= first);
    } else {
        lemma_took_both(core, first, second.drop_last());
        assert((first + second).drop_last() =~= first + second.drop_last());
    }
}

#[verifier::spinoff_prover]
#[verifier::rlimit(80)]
proof fn lemma_absorbed_both(
    last: RuntimeView,
    middle: RuntimeView,
    first: RuntimeView,
    m: nat,
    n: nat,
    quiet: bool,
)
    requires
        absorbed_to(middle, first, m, false),
        absorbed_to(last, middle, n, quiet),
    ensures
        absorbed_to(last, first, m + n, quiet),
{
    let a = choose|frames: Seq<(FrameView, FeedView)>|
        #[trigger] absorbs(middle, first, frames, false) && frames.len() == m;
    let b = choose|frames: Seq<(FrameView, FeedView)>|
        #[trigger] absorbs(last, middle, frames, quiet) && if quiet {
            frames.len() < n
        } else {
            frames.len() == n
        };
    lemma_took_both(first.core, a, b);
    lemma_frame_calls_both(a, b);
    law_going_on(last, middle, first);
    let end = if quiet && first.backed {
        seq![PaneCall::Receive { answer: None }]
    } else {
        seq![]
    };
    assert(last.calls =~= first.calls + frame_calls(a + b) + end);
    assert(absorbs(last, first, a + b, quiet));
}

/// A poll that stopped at its limit and another one are one poll.
pub proof fn law_polling_twice(
    last: ManagerView,
    middle: ManagerView,
    first: ManagerView,
    id: PaneId,
    m: nat,
    n: nat,
    quiet: bool,
)
    requires
        first.valid(),
        first.has(id),
        polled_to(middle, first, id, m, false),
        polled_to(last, middle, id, n, quiet),
    ensures
        polled_to(last, first, id, m + n, quiet),
{
    assert(polled(middle, first, id, m) && polled(last, middle, id, n));
    law_polling(middle, first, id, m);
    law_polling(last, middle, id, n);
    assert(stands_at(first.panes, id, first.place(id)));
    law_renewing(first, id, middle.pane(id));
    crate::manager::lifecycle::lemma_rebooked(first, id, middle.pane(id), last.pane(id));
    reveal(polled_to);
    lemma_absorbed_both(last.pane(id), middle.pane(id), first.pane(id), m, n, quiet);
}

/// Drains hand out each event once: what one drain handed out since `from` and
/// what the next one hands out, if nothing was drained in between, is all that
/// was emitted since, in order, without a gap or a repeat.
pub proof fn law_drains_hand_out_each_event_once(
    drained: PaneManager,
    met: PaneManager,
    last: PaneManager,
    from: int,
    first: Seq<PaneEvent>,
    second: Seq<PaneEvent>,
)
    requires
        0 <= from <= drained.posted().len(),
        first == drained.posted().skip(from),
        goes_on(met.posted(), drained.posted()),
        met.posted().len() - met.pending().len() == drained.posted().len(),
        goes_on(last.posted(), met.posted()),
        second == last.posted().skip(met.posted().len() - met.pending().len()),
    ensures
        first + second == last.posted().skip(from),
{
    let n = drained.posted().len() as int;
    let all = last.posted();
    assert forall|i: int| 0 <= i < n implies #[trigger] all[i] == drained.posted()[i] by {
        assert(all[i] == met.posted()[i]);
    }
    assert(first + second =~= all.skip(from));
}

proof fn lemma_quiet_early(after: ManagerView, before: ManagerView, id: PaneId, m: nat, n: nat)
    requires
        polled_to(after, before, id, m, true),
        m <= n,
    ensures
        polled_to(after, before, id, n, true),
{
    reveal(polled_to);
}

fn too_much_output(limit: usize) -> (error: PaneError)
    ensures
        error@ == never_quiet(limit),
{
    let mut message = "repro dump exceeded the PTY frame drain limit (".to_owned();
    push_decimal(&mut message, limit as u64);
    message.append(") while the pane still had queued output");
    PaneError::Surface { message }
}

impl PaneManager {
    /// Drains pending events into the provided vector, after polling every
    /// pane in the order of their identifiers.
    pub fn drain_events(&mut self, out: &mut Vec<PaneEvent>)
        requires
            old(self).wf(),
        ensures
            goes_on(final(self).posted(), old(self).posted()),
            final(self).wf(),
            exists|toured: ManagerView|
                {
                    &&& #[trigger] visited(toured, old(self)@, old(self)@.panes.len())
                    &&& final(self)@ == (ManagerView { queue: seq![], ..toured })
                    &&& entries(final(out)@) == entries(old(out)@) + toured.queue
                },
            final(self).pending() == Seq::<PaneEvent>::empty(),
            final(out)@ == old(out)@ + final(self).posted().skip(
                old(self).posted().len() - old(self).pending().len(),
            ),
            old(self)@.panes.len() == 0 && old(self)@.queue.len() == 0 ==> final(out)@ == old(
                out,
            )@,
    {
        let ghost start = *self;
        let ghost before = self@;
        let mut k: usize = 0;
        let limit = self.config.max_pty_frames_per_drain() as u64;
        while k < self.panes.len()
            invariant
                self.wf(),
                k <= self.panes@.len(),
                self@.config == before.config,
                limit == before.config.drain_limit,
                self@.panes.len() == before.panes.len(),
                self@.panes.len() == self.panes@.len(),
                forall|i: int|
                    0 <= i < before.panes.len() ==> (#[trigger] self@.panes[i]).core.pane
                        == before.panes[i].core.pane,
                visited(self@, before, k as nat),
                goes_on(self.posted(), start.posted()),
                self.posted().len() - self.pending().len() == start.posted().len()
                    - start.pending().len(),
            decreases self.panes@.len() - k,
        {
            let ghost middle = self@;
            assert(middle.mailed.len() == self.posted().len());
            assert(middle.queue.len() == self.pending().len());
            let quiet = self.poll_at(k, limit);
            proof {
                assert(self@.mailed.len() == self.posted().len());
                assert(self@.queue.len() == self.pending().len());
                assert(polled_to(
                    self@,
                    middle,
                    before.panes[k as int].core.pane,
                    before.config.drain_limit as nat,
                    quiet,
                ));
                assert(polled(
                    self@,
                    middle,
                    before.panes[k as int].core.pane,
                    before.config.drain_limit as nat,
                ));
                law_polling(self@, middle, before.panes[k as int].core.pane, limit as nat);
            }
            k = k + 1;
        }
        let ghost toured = self@;
        let ghost last = *self;
        let ghost queued = self.events@;
        let ghost given = out@;
        let ghost panes = self.panes;
        proof {
            assert(given + queued.take(0) =~= given);
            assert(queued.skip(0) =~= queued);
        }
        let ghost mut moved: int = 0;
        while self.events.len() > 0
            invariant
                last.wf(),
                self.panes == panes,
                0 <= moved <= queued.len(),
                self.events@ == queued.skip(moved),
                self.next_pane_id == last.next_pane_id,
                self.panes == last.panes,
                self.subscribers == last.subscribers,
                self.event_sink == last.event_sink,
                self.config == last.config,
                self.heard == last.heard,
                self.mail == last.mail,
                out@ == given + queued.take(moved),
            decreases self.events@.len(),
        {
            match self.events.pop_front() {
                Some(event) => {
                    out.push(event);
                    proof {
                        assert(event == queued[moved]);
                        assert(queued.skip(moved).skip(1) =~= queued.skip(moved + 1));
                        assert(queued.take(moved + 1) =~= queued.take(moved).push(event));
                        assert(out@ =~= given + queued.take(moved + 1));
                        moved = moved + 1;
                    }
                },
                None => {},
            }
        }
        proof {
            assert(moved == queued.len());
            assert(queued.take(moved) =~= queued);
            assert(self.events@ =~= Seq::empty());
            assert(self@ =~= (ManagerView { queue: seq![], ..toured }));
            assert(self.posted() == last.posted());
            assert(self.posted().skip(self.posted().len() as int) =~= Seq::empty());
            assert forall|j: int| 0 <= j < self.panes@.len() implies self.told_of(
                #[trigger] self.panes@[j],
            ) by {
                assert(last.told_of(last.panes@[j]));
            }
            assert(entries(out@) =~= entries(given) + toured.queue);
            if before.panes.len() == 0 && before.queue.len() == 0 {
                assert(toured == before);
                assert(queued.len() == entries(queued).len());
                assert(out@ =~= given);
            }
        }
    }

    /// Captures a redacted repro dump for the specified pane.
    ///
    /// The dump drains queued PTY frames up to a bounded limit so the
    /// transcript, event log, and final surface reflect the latest observable
    /// state without risking an infinite wait on panes that are still
    /// producing output.
    ///
    /// # Errors
    ///
    /// Returns an error if the pane was not found or if the pane continues to
    /// produce output beyond the configured repro-drain frame limit.
    pub fn dump_repro(&mut self, pane_id: PaneId, options: ReproDumpOptions) -> (r: Result<
        ReproDump,
    >)
        requires
            old(self).wf(),
        ensures
            goes_on(final(self).posted(), old(self).posted()),
            final(self).wf(),
            !old(self)@.has(pane_id) ==> error_of(r) == Some(ManagerView::unknown(pane_id))
                && final(self)@ == old(self)@,
            old(self)@.has(pane_id) ==> {
                &&& polled_to(
                    final(self)@,
                    old(self)@,
                    pane_id,
                    old(self)@.config.repro_limit as nat + 1,
                    r is Ok,
                )
                &&& match r {
                    Ok(dump) => dumps(dump, final(self)@.pane(pane_id), options) && timed(
                        dump.events@,
                        final(self).log(pane_id),
                    ),
                    Err(e) => e@ == never_quiet(old(self)@.config.repro_limit) && old(self)@.pane(
                        pane_id,
                    ).backed,
                }
            },
    {
        let ghost before = self@;
        let k = match self.find(pane_id) {
            None => {
                return Err(not_found(pane_id));
            },
            Some(k) => k,
        };
        assert(stands_at(before.panes, pane_id, before.place(pane_id)));
        let limit = self.config.max_pty_frames_per_repro_dump();
        let mut quiet = self.poll_at(k, limit as u64);
        let ghost middle = self@;
        proof {
            assert(polled_to(middle, before, pane_id, limit as nat, quiet));
            law_polling(middle, before, pane_id, limit as nat);
            assert(middle.config == before.config);
            assert(stands_at(middle.panes, pane_id, k as int));
            lemma_place(middle, pane_id, k as int);
        }
        if !quiet {
            quiet = self.poll_at(k, 1);
            proof {
                law_polling_twice(self@, middle, before, pane_id, limit as nat, 1, quiet);
            }
        } else {
            proof {
                lemma_quiet_early(middle, before, pane_id, limit as nat, limit as nat + 1);
            }
        }
        proof {
            assert(stands_at(self@.panes, pane_id, k as int));
            lemma_place(self@, pane_id, k as int);
            assert(self.panes@[k as int].wf());
            assert(self@.panes[k as int] == self.panes@[k as int]@);
        }
        if !quiet {
            return Err(too_much_output(limit));
        }
        Ok(dump_pane(&self.panes[k], options))
    }
}

fn dump_pane(pane: &PaneRuntime, options: ReproDumpOptions) -> (dump: ReproDump)
    requires
        pane.wf(),
    ensures
        dumps(dump, pane@, options),
        timed(dump.events@, pane.events()),
{
    let core = pane.books();
    let spawn_config = redact_spawn_config(core.spawn_config(), options);
    let transcript = core.transcript();
    let raw_transcript = if transcript.records_raw_bytes() {
        Some(
            ReproRawTranscript {
                start_offset: transcript.retained_raw_start_offset(),
                bytes: vstd::slice::slice_to_vec(transcript.raw_bytes()),
            },
        )
    } else {
        None
    };
    let events = redact_repro_events(
        core.event_log().as_slice(),
        spawn_config.command.program.as_str(),
    );
    let picture = pane.snapshot();
    let ghost showing = choose|showing: Showing|
        picture@ == #[trigger] pane@.core.pictured(showing) && pane@.shows(showing);
    let final_surface = picture.surface.to_owned_snapshot();
    proof {
        assert(picture@ == pane@.core.pictured(showing));
        assert(final_surface@ == pane@.core.shown(showing));
    }
    ReproDump {
        pane_id: core.pane_id(),
        spawn_config,
        backend: pane.metadata(),
        size_history: copied_sizes(core.size_history()),
        events,
        raw_transcript,
        final_surface,
    }
}

fn copied_sizes(sizes: &Vec<ReproSizeEvent>) -> (copy: Vec<ReproSizeEvent>)
    ensures
        copy@ == sizes@,
{
    let mut copy: Vec<ReproSizeEvent> = Vec::new();
    let mut i: usize = 0;
    while i < sizes.len()
        invariant
            i <= sizes@.len(),
            copy@ == sizes@.take(i as int),
        decreases sizes@.len() - i,
    {
        copy.push(sizes[i]);
        assert(sizes@.take(i + 1) =~= sizes@.take(i as int).push(sizes@[i as int]));
        i = i + 1;
    }
    assert(sizes@.take(i as int) =~= sizes@);
    copy
}

/// Whether this is the configuration of a pane that was registered with a
/// surface of this size, and not spawned: the usual settings, but for the
/// identifier and the size.
pub open spec fn registered(config: PaneConfig, pane_id: PaneId, size: Size) -> bool {
    &&& config.command.program@ == "registered-surface"@
    &&& config.command.args@.len() == 0
    &&& exists|plain: PaneConfig|
        #[trigger] plain.has_default_settings() && config == (PaneConfig {
            id: Some(pane_id),
            size,
            ..plain
        })
}

/// The books of a pane that has a surface and no process, and was configured
/// like this.
pub open spec fn surface_books(
    pane_id: PaneId,
    title: Option<Seq<char>>,
    config: PaneConfig,
) -> CoreView {
    CoreView {
        pane: pane_id,
        title,
        config,
        state: StateView::Running,
        mode: PaneInteractionMode::Embedded,
        input: config.input,
        stats: PaneStats { scrollback_lines_dropped: 0 },
        generation: 0,
        log: seq![],
        sizes: seq![ReproSizeEvent { transcript_offset: 0, size: config.size }],
        exit: None,
        exit_seen: false,
        overlay: OverlayView::fresh(),
        transcript: TranscriptView {
            config: config.transcript,
            chunks: seq![],
            raw_start: 0,
            plain_start: 0,
            pending: seq![],
        },
    }
}

/// A pane that has this surface and no process, has the size that the surface
/// has, and has asked nothing of it.
pub open spec fn surface_only(
    pane: RuntimeView,
    pane_id: PaneId,
    title: Option<Seq<char>>,
    screen: PaneScreen,
) -> bool {
    exists|config: PaneConfig, size: Size|
        {
            &&& #[trigger] registered(config, pane_id, size)
            &&& screen.measures(size)
            &&& pane == (RuntimeView {
                core: surface_books(pane_id, title, config),
                backed: false,
                process: None,
                screen,
                calls: seq![],
            })
        }
}

impl ManagerView {
    /// The manager with another process for a pane.
    pub open spec fn with_process(self, id: PaneId, process: PaneProcess) -> ManagerView {
        ManagerView {
            panes: self.panes.update(
                self.place(id),
                RuntimeView { backed: true, process: Some(process), ..self.pane(id) },
            ),
            ..self
        }
    }
}

impl PaneManager {
    /// Registers a surface as a running pane without a process, in place of
    /// any pane of that identifier. Nothing is logged.
    pub fn insert_surface_for_testing(
        &mut self,
        pane_id: PaneId,
        title: Option<String>,
        surface: Box<dyn SurfaceBackend>,
    )
        requires
            old(self).wf(),
        ensures
            goes_on(final(self).posted(), old(self).posted()),
            final(self).wf(),
            exists|pane: RuntimeView, screen: PaneScreen|
                {
                    &&& #[trigger] surface_only(pane, pane_id, opt_text(title), screen)
                    &&& screen.holds(&*surface)
                    &&& final(self)@ == (if old(self)@.has(pane_id) {
                        old(self)@.without(pane_id)
                    } else {
                        old(self)@
                    }).reserved(pane_id).joined(pane)
                },
    {
        self.put_screen(pane_id, title, Screen::new(surface));
    }

    fn put_screen(&mut self, pane_id: PaneId, title: Option<String>, screen: PaneScreen)
        requires
            old(self).wf(),
        ensures
            goes_on(final(self).posted(), old(self).posted()),
            final(self).wf(),
            exists|pane: RuntimeView|
                {
                    &&& #[trigger] surface_only(pane, pane_id, opt_text(title), screen)
                    &&& final(self)@ == (if old(self)@.has(pane_id) {
                        old(self)@.without(pane_id)
                    } else {
                        old(self)@
                    }).reserved(pane_id).joined(pane)
                },
    {
        let ghost before = self@;
        let ghost cleared = if before.has(pane_id) {
            before.without(pane_id)
        } else {
            before
        };
        if let Some(k) = self.find(pane_id) {
            proof {
                assert(stands_at(before.panes, pane_id, before.place(pane_id)));
                law_removing(before, pane_id);
            }
            let _ = self.take_at(k);
        }
        let size = screen.size();
        if self.next_pane_id < pane_id.get() {
            self.next_pane_id = pane_id.get();
        }
        assert(self@ =~= cleared.reserved(pane_id));
        assert(self@.has(pane_id) == cleared.has(pane_id));
        let plain = PaneConfig::command("registered-surface");
        let ghost usual = plain;
        let config = plain.with_id(pane_id).with_size(size);
        let ghost made = config;
        let mut core = PaneCore::fresh(pane_id, config, PaneState::Running);
        let ghost shown = opt_text(title);
        core.set_title(title);
        let ghost held = screen;
        let pane = PaneRuntime::new(core, screen, None);
        proof {
            assert(usual.has_default_settings());
            assert(registered(made, pane_id, size));
            assert(core@ =~= surface_books(pane_id, shown, made));
            assert(surface_only(pane@, pane_id, shown, held));
        }
        self.join(pane);
    }

    /// Feeds the surface of a pane directly.
    ///
    /// # Errors
    ///
    /// Returns an error if the pane was not found or the surface refuses.
    pub fn feed_surface_for_testing(&mut self, pane_id: PaneId, bytes: &[u8]) -> (r: Result<
        SurfaceUpdate,
    >)
        requires
            old(self).wf(),
        ensures
            goes_on(final(self).posted(), old(self).posted()),
            final(self).wf(),
            !old(self)@.has(pane_id) ==> error_of(r) == Some(ManagerView::unknown(pane_id))
                && final(self)@ == old(self)@,
            old(self)@.has(pane_id) ==> {
                let pane = final(self)@.pane(pane_id);
                &&& screen_fed(old(self)@.pane(pane_id).screen, pane.screen, bytes, r)
                &&& went_on(pane, old(self)@.pane(pane_id))
                &&& final(self)@ == old(self)@.renewed(pane_id, pane)
                &&& pane == fed_directly(
                    old(self)@.pane(pane_id),
                    bytes@,
                    feed_view(r),
                    pane.screen,
                )
            },
    {
        let ghost start = *self;
        let ghost before = self@;
        match self.find(pane_id) {
            None => Err(not_found(pane_id)),
            Some(k) => {
                proof {
                    assert(stands_at(before.panes, pane_id, before.place(pane_id)));
                    lemma_unchanged(before, pane_id);
                }
                let from = self.panes[k].books().event_log().len();
                let r = self.panes[k].feed_surface(bytes);
                assert(self.panes@ =~= start.panes@.update(k as int, self.panes@[k as int]));
                self.conclude(k, from, Ghost(start));
                r
            },
        }
    }

    /// Takes in output as if it came from the process of a pane.
    #[verifier::spinoff_prover]
    #[verifier::rlimit(60)]
    pub fn feed_output_for_testing(&mut self, pane_id: PaneId, bytes: Vec<u8>)
        requires
            old(self).wf(),
            old(self)@.has(pane_id),
        ensures
            goes_on(final(self).posted(), old(self).posted()),
            final(self).wf(),
            final(self)@ == old(self)@.renewed(pane_id, final(self)@.pane(pane_id)),
            went_on(final(self)@.pane(pane_id), old(self)@.pane(pane_id)),
            exists|feed: FeedView|
                final(self)@.pane(pane_id) == #[trigger] old(self)@.pane(pane_id).took_frame(
                    FrameView::Output(bytes@),
                    feed,
                    final(self)@.pane(pane_id).screen,
                ),
    {
        let ghost start = *self;
        let ghost before = self@;
        if let Some(k) = self.find(pane_id) {
            assert(stands_at(before.panes, pane_id, before.place(pane_id)));
            let from = self.panes[k].books().event_log().len();
            self.panes[k].take_output(bytes.as_slice());
            let ghost now = self.panes@[k as int]@;
            proof {
                let feed = choose|feed: FeedView|
                    now == #[trigger] before.pane(pane_id).took_frame(
                        FrameView::Output(bytes@),
                        feed,
                        now.screen,
                    );
                lemma_took_frame(before.pane(pane_id), FrameView::Output(bytes@), feed, now.screen);
                assert(self.panes@ =~= start.panes@.update(k as int, self.panes@[k as int]));
            }
            self.conclude(k, from, Ghost(start));
        }
    }

    /// Fails a pane with an error.
    pub fn fail_pane_for_testing(&mut self, pane_id: PaneId, error: PaneError)
        requires
            old(self).wf(),
            old(self)@.has(pane_id),
        ensures
            goes_on(final(self).posted(), old(self).posted()),
            final(self).wf(),
            final(self)@ == old(self)@.booked(
                pane_id,
                old(self)@.pane(pane_id).core.failed(error@),
            ),
    {
        let ghost start = *self;
        let ghost before = self@;
        if let Some(k) = self.find(pane_id) {
            assert(stands_at(before.panes, pane_id, before.place(pane_id)));
            let from = self.panes[k].books().event_log().len();
            proof {
                crate::pane_core::lemma_failed(before.pane(pane_id).core, error@);
            }
            self.panes[k].books_mut().fail(error);
            assert(self.panes@ =~= start.panes@.update(k as int, self.panes@[k as int]));
            self.conclude(k, from, Ghost(start));
        }
    }

    /// Replaces the transcript of a pane by an empty one.
    pub fn replace_transcript_for_testing(&mut self, pane_id: PaneId, config: TranscriptConfig)
        requires
            old(self).wf(),
            old(self)@.has(pane_id),
        ensures
            goes_on(final(self).posted(), old(self).posted()),
            final(self).wf(),
            final(self)@ == old(self)@.booked(
                pane_id,
                CoreView {
                    transcript: TranscriptView {
                        config,
                        chunks: seq![],
                        raw_start: 0,
                        plain_start: 0,
                        pending: seq![],
                    },
                    ..old(self)@.pane(pane_id).core
                },
            ),
    {
        let ghost start = *self;
        let ghost before = self@;
        if let Some(k) = self.find(pane_id) {
            assert(stands_at(before.panes, pane_id, before.place(pane_id)));
            let from = self.panes[k].books().event_log().len();
            self.panes[k].books_mut().set_transcript(config);
            assert(self.panes@ =~= start.panes@.update(k as int, self.panes@[k as int]));
            self.conclude(k, from, Ghost(start));
        }
    }

    /// Replaces the process of a pane.
    pub fn replace_process_for_testing(&mut self, pane_id: PaneId, process: Box<dyn PtyProcess>)
        requires
            old(self).wf(),
            old(self)@.has(pane_id),
        ensures
            goes_on(final(self).posted(), old(self).posted()),
            final(self).wf(),
            exists|held: PaneProcess|
                #![trigger held.holds(&*process)]
                {
                    &&& held.holds(&*process)
                    &&& final(self)@.pane(pane_id).process == Some(held)
                    &&& final(self)@ == old(self)@.with_process(pane_id, held)
                },
    {
        self.put_process(pane_id, HeldProcess::new(process));
    }

    fn put_process(&mut self, pane_id: PaneId, held: PaneProcess)
        requires
            old(self).wf(),
            old(self)@.has(pane_id),
        ensures
            goes_on(final(self).posted(), old(self).posted()),
            final(self).wf(),
            final(self)@ == old(self)@.with_process(pane_id, held),
            final(self)@.pane(pane_id).process == Some(held),
    {
        let ghost start = *self;
        let ghost before = self@;
        if let Some(k) = self.find(pane_id) {
            self.panes[k].set_process(held);
            proof {
                let pane = RuntimeView {
                    backed: true,
                    process: Some(held),
                    ..before.pane(pane_id)
                };
                assert(self.panes@ =~= start.panes@.update(k as int, self.panes@[k as int]));
                lemma_books_kept(*self, start, k as int);
                assert(self@.panes =~= before.panes.update(k as int, pane));
                assert(stands_at(before.panes, pane_id, before.place(pane_id)));
                assert(stands_at(self@.panes, pane_id, k as int));
                lemma_place(self@, pane_id, k as int);
            }
        }
    }

    /// Returns the scrollback of a pane without polling it.
    ///
    /// # Errors
    ///
    /// Returns an error if the pane was not found.
    pub fn scrollback_for_testing(&self, pane_id: PaneId) -> (r: Result<ScrollbackSnapshot<'_>>)
        requires
            self.wf(),
        ensures
            match r {
                Ok(scrollback) => self@.has(pane_id) && self@.pane(pane_id).screen.keeps(
                    scrollback@,
                ),
                Err(e) => !self@.has(pane_id) && e@ == ManagerView::unknown(pane_id),
            },
    {
        match self.find(pane_id) {
            None => Err(not_found(pane_id)),
            Some(k) => Ok(self.panes[k].scrollback()),
        }
    }
}

/// A lightweight cloneable handle for sending commands to a single pane.
///
/// A handle is not connected to a manager: it knows no pane.
#[derive(Debug, Clone, Copy, PartialEq, Eq, Structural)]
pub struct PaneHandle {
    /// The pane this handle controls.
    pub id: PaneId,
}

impl PaneHandle {
    /// Creates a new handle for the given pane.
    pub fn new(id: PaneId) -> (handle: Self)
        ensures
            handle.id == id,
    {
        PaneHandle { id }
    }

    /// Writes raw bytes to the pane's PTY.
    ///
    /// # Errors
    ///
    /// Returns an error: the pane is not found.
    pub fn write_bytes(&self, _bytes: Vec<u8>) -> (r: Result<()>)
        ensures
            error_of(r) == Some(ManagerView::unknown(self.id)),
    {
        Err(not_found(self.id))
    }

    /// Resizes the pane.
    ///
    /// # Errors
    ///
    /// Returns an error: the pane is not found.
    pub fn resize(&self, _size: Size) -> (r: Result<()>)
        ensures
            error_of(r) == Some(ManagerView::unknown(self.id)),
    {
        Err(not_found(self.id))
    }

    /// Kills the pane.
    ///
    /// # Errors
    ///
    /// Returns an error: the pane is not found.
    pub fn kill(&self, _reason: KillReason) -> (r: Result<()>)
        ensures
            error_of(r) == Some(ManagerView::unknown(self.id)),
    {
        Err(not_found(self.id))
    }
}

} // verus!
