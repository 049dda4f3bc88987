//! Attaching panes to the real terminal.
//!
//! An attach is a loop of requests and replies. The manager answers for the
//! pane, the host for its terminal, and a clock for the time.

use vstd::prelude::*;

use crate::attach::AttachState;
use crate::attach_error::{
    rendered_text, says_host, AttachFailure, FailureView, PaneAttachError,
};
use crate::attach_loop::AttachLoop;
use crate::attach_plan::{
    answers, failure_fits, host_result, law_attach_advances, law_attach_ends_embedded,
    law_attach_loop_stays_valid, note_views, AttachInputChunk, AttachNote, AttachReply,
    AttachRequest, BlockingAttachOutcome, LoopView, NoteView, ReplyView, RequestView,
};
use crate::command::AttachOptions;
use crate::event::{
    goes_on, AttachScreenPolicy,
};
use crate::manager::{
    law_booking, law_renewing, lemma_place, not_found, polled, stands_at, ManagerView, PaneManager,
};
use crate::pane::{PaneId, PaneInteractionMode, Size};
use crate::pane_core::{
    follows, law_attach_notes_grow, law_log_only_grows, lemma_follows, CoreView, FeedView,
};
use crate::pane_runtime::{attach_fed, attach_refusal, for_pane, pane_served, RuntimeView};
use crate::pty::FrameView;
use crate::session::{
    ask_pause, ask_reading, call_at, calls_connect, gave_back, clock_paused, clock_read,
    lemma_calls_connect, lemma_calls_go_on, lemma_made_of_host, made_of_host, tells_input,
    tells_size, AttachClock, Exchange, PartyCall,
};
use crate::time::Duration;

verus! {

/// A chunk of raw stdin bytes captured while a pane is attached fullscreen.
pub type PaneAttachInputChunk = AttachInputChunk;

/// Successful result of an attach.
pub type PaneAttachOutcome = BlockingAttachOutcome;

/// Host terminal I/O contract of an attach.
pub trait PaneAttachTerminal {
    /// Backend-specific terminal I/O error type.
    type Error: std::fmt::Debug;

    /// Attempts to read the next raw stdin chunk without blocking forever.
    fn read_stdin(&mut self) -> core::result::Result<Option<PaneAttachInputChunk>, Self::Error>;

    /// Writes child PTY output to the host terminal stdout.
    fn write_stdout(&mut self, bytes: &[u8]) -> core::result::Result<(), Self::Error>;

    /// Returns the current real-terminal size.
    fn size(&self) -> core::result::Result<Size, Self::Error>;
}

/// Host terminal suspend/restore contract of an attach.
///
/// The host terminal profile is caller-owned. Implementations should save the
/// caller's expected terminal profile when they suspend and restore that exact
/// profile afterwards. Restoring to a generic "sane" terminal state is not
/// sufficient for hosts that already own enhanced keyboard or mouse input
/// modes.
pub trait PaneAttachTerminalControl {
    /// Backend-specific terminal control error type.
    type Error: std::fmt::Debug;

    /// Opaque token representing the terminal state saved before attach.
    type RestoreToken;

    /// Suspends host drawing and prepares the real terminal for attach.
    fn suspend_for_attach(&mut self, policy: AttachScreenPolicy) -> core::result::Result<
        Self::RestoreToken,
        Self::Error,
    >;

    /// Restores the host terminal after attach ends.
    fn restore_after_attach(&mut self, token: &mut Self::RestoreToken) -> core::result::Result<
        (),
        Self::Error,
    >;
}

/// Whether an attach asks the host terminal for this.
pub open spec fn for_host(request: RequestView) -> bool {
    match request {
        RequestView::TerminalSize | RequestView::ReadInput | RequestView::WriteOutput(_)
        | RequestView::Suspend(_) | RequestView::Restore => true,
        _ => false,
    }
}

/// The host's side of an attach: its terminal, and the control that suspends
/// and restores it. The token of a suspended terminal is kept here until a
/// restoration succeeds.
pub struct PaneAttachHost<'a, Terminal, Control: PaneAttachTerminalControl> {
    terminal: &'a mut Terminal,
    control: &'a mut Control,
    token: Option<Control::RestoreToken>,
    calls: Ghost<Seq<PartyCall<HostStates<Terminal, Control, Control::RestoreToken>>>>,
}

/// What a host's terminal and its control are at a time, and the token of a
/// suspended terminal.
pub ghost struct HostStates<Terminal, Control, Token> {
    pub terminal: Terminal,
    pub control: Control,
    pub token: Option<Token>,
}

impl<'a, Terminal: PaneAttachTerminal, Control: PaneAttachTerminalControl> PaneAttachHost<
    'a,
    Terminal,
    Control,
> {
    /// What terminal and control are now.
    pub closed spec fn states(self) -> HostStates<Terminal, Control, Control::RestoreToken> {
        HostStates { terminal: *self.terminal, control: *self.control, token: self.token }
    }

    /// What the host has carried out so far.
    pub closed spec fn calls(self) -> Seq<
        PartyCall<HostStates<Terminal, Control, Control::RestoreToken>>,
    > {
        self.calls@
    }

    /// The same, without the states of terminal and control.
    pub open spec fn exchanges(self) -> Seq<Exchange> {
        self.calls().map_values(
            |c: PartyCall<HostStates<Terminal, Control, Control::RestoreToken>>| c.exchange,
        )
    }

    /// Whether the terminal is suspended.
    pub open spec fn suspended(self) -> bool {
        self.states().token is Some
    }

    /// Brings terminal and control together.
    pub fn new(terminal: &'a mut Terminal, control: &'a mut Control) -> (host: Self)
        ensures
            host.states() == (HostStates {
                terminal: *old(terminal),
                control: *old(control),
                token: None::<Control::RestoreToken>,
            }),
            host.calls() == Seq::<
                PartyCall<HostStates<Terminal, Control, Control::RestoreToken>>,
            >::empty(),
    {
        PaneAttachHost { terminal, control, token: None, calls: Ghost(Seq::empty()) }
    }

    /// Whether the terminal is suspended.
    pub fn is_suspended(&self) -> (b: bool)
        ensures
            b == self.suspended(),
    {
        self.token.is_some()
    }

    fn restore(&mut self) -> (r: core::result::Result<(), String>)
        ensures
            final(self).calls() == old(self).calls(),
            final(self).states().terminal == old(self).states().terminal,
            old(self).states().token is None ==> r is Ok && final(self).states() == old(
                self,
            ).states(),
            old(self).states().token matches Some(held) ==> exists|
                control: &mut Control,
                token: &mut Control::RestoreToken,
                answer: core::result::Result<(), Control::Error>,
            |
                #![trigger call_ensures(Control::restore_after_attach, (control, token), answer)]
                {
                    &&& call_ensures(Control::restore_after_attach, (control, token), answer)
                    &&& *control == old(self).states().control
                    &&& *final(control) == final(self).states().control
                    &&& *token == held
                    &&& final(self).states().token == (if answer is Ok {
                        None
                    } else {
                        Some(*final(token))
                    })
                    &&& says_host(answer, host_result(r))
                },
    {
        let taken = self.token.take();
        match taken {
            None => Ok(()),
            Some(mut token) => match self.control.restore_after_attach(&mut token) {
                Ok(_) => Ok(()),
                Err(error) => {
                    self.token = Some(token);
                    Err(rendered_text(&error))
                },
            },
        }
    }

    /// Carries out a request and brings back what came of it: terminal or
    /// control is asked, and the reply is its answer. The other is left alone.
    pub fn carry_out(&mut self, request: &AttachRequest) -> (reply: AttachReply)
        requires
            for_host(request@),
        ensures
            answers(reply@, request@, true),
            final(self).calls() == old(self).calls().push(
                PartyCall {
                    exchange: Exchange { request: request@, reply: reply@ },
                    before: old(self).states(),
                    after: final(self).states(),
                },
            ),
            request@ is TerminalSize ==> {
                &&& final(self).states() == old(self).states()
                &&& exists|r: core::result::Result<Size, Terminal::Error>|
                    #![trigger call_ensures(Terminal::size, (&old(self).states().terminal,), r)]
                    call_ensures(Terminal::size, (&old(self).states().terminal,), r) && tells_size(
                        r,
                        reply@,
                    )
            },
            request@ is ReadInput || request@ is WriteOutput ==> final(self).states() == (
            HostStates { terminal: final(self).states().terminal, ..old(self).states() }),
            request@ is ReadInput ==> exists|
                terminal: &mut Terminal,
                r: core::result::Result<Option<AttachInputChunk>, Terminal::Error>,
            |
                #![trigger call_ensures(Terminal::read_stdin, (terminal,), r)]
                {
                    &&& call_ensures(Terminal::read_stdin, (terminal,), r)
                    &&& *terminal == old(self).states().terminal
                    &&& *final(terminal) == final(self).states().terminal
                    &&& tells_input(r, reply@)
                },
            request@ matches RequestView::WriteOutput(bytes) ==> exists|
                terminal: &mut Terminal,
                given: &[u8],
                r: core::result::Result<(), Terminal::Error>,
            |
                #![trigger call_ensures(Terminal::write_stdout, (terminal, given), r)]
                {
                    &&& call_ensures(Terminal::write_stdout, (terminal, given), r)
                    &&& given@ == bytes
                    &&& *terminal == old(self).states().terminal
                    &&& *final(terminal) == final(self).states().terminal
                    &&& reply@ matches ReplyView::Output(said) && says_host(r, said)
                },
            request@ is Suspend || request@ is Restore ==> final(self).states().terminal == old(
                self,
            ).states().terminal,
            request@ matches RequestView::Suspend(policy) ==> exists|
                control: &mut Control,
                r: core::result::Result<Control::RestoreToken, Control::Error>,
            |
                #![trigger call_ensures(Control::suspend_for_attach, (control, policy), r)]
                {
                    &&& call_ensures(Control::suspend_for_attach, (control, policy), r)
                    &&& *control == old(self).states().control
                    &&& *final(control) == final(self).states().control
                    &&& final(self).states().token == (match r {
                        Ok(token) => Some(token),
                        Err(_) => old(self).states().token,
                    })
                    &&& reply@ matches ReplyView::Suspended(said) && says_host(r, said)
                },
            request@ is Restore ==> {
                &&& old(self).states().token is None ==> final(self).states() == old(self).states()
                    && reply@ == ReplyView::Restored(Ok(()))
                &&& old(self).states().token matches Some(held) ==> exists|
                    control: &mut Control,
                    token: &mut Control::RestoreToken,
                    r: core::result::Result<(), Control::Error>,
                |
                    #![trigger call_ensures(Control::restore_after_attach, (control, token), r)]
                    {
                        &&& call_ensures(Control::restore_after_attach, (control, token), r)
                        &&& *control == old(self).states().control
                        &&& *final(control) == final(self).states().control
                        &&& *token == held
                        &&& final(self).states().token == (if r is Ok {
                            None
                        } else {
                            Some(*final(token))
                        })
                        &&& reply@ matches ReplyView::Restored(said) && says_host(r, said)
                    }
            },
    {
        let ghost before = self.states();
        let reply = match request {
            AttachRequest::TerminalSize => AttachReply::Size(
                match self.terminal.size() {
                    Ok(size) => Ok(size),
                    Err(error) => Err(rendered_text(&error)),
                },
            ),
            AttachRequest::ReadInput => AttachReply::Input(
                match self.terminal.read_stdin() {
                    Ok(chunk) => Ok(chunk),
                    Err(error) => Err(rendered_text(&error)),
                },
            ),
            AttachRequest::WriteOutput(bytes) => AttachReply::Output(
                match self.terminal.write_stdout(bytes.as_slice()) {
                    Ok(_) => Ok(()),
                    Err(error) => Err(rendered_text(&error)),
                },
            ),
            AttachRequest::Suspend(policy) => AttachReply::Suspended(
                match self.control.suspend_for_attach(*policy) {
                    Ok(token) => {
                        self.token = Some(token);
                        Ok(())
                    },
                    Err(error) => Err(rendered_text(&error)),
                },
            ),
            AttachRequest::Restore => AttachReply::Restored(self.restore()),
            _ => AttachReply::Slept,
        };
        proof {
            self.calls@ = self.calls@.push(
                PartyCall {
                    exchange: Exchange { request: request@, reply: reply@ },
                    before,
                    after: self.states(),
                },
            );
        }
        reply
    }
}

/// The interaction mode of a pane at a stage of its attach.
pub open spec fn mode_of(stage: AttachState) -> PaneInteractionMode {
    match stage {
        AttachState::Embedded => PaneInteractionMode::Embedded,
        AttachState::Attaching => PaneInteractionMode::Attaching,
        AttachState::Attached => PaneInteractionMode::Attached,
        AttachState::Detaching => PaneInteractionMode::Detaching,
    }
}

fn stage_mode(stage: AttachState) -> (mode: PaneInteractionMode)
    ensures
        mode == mode_of(stage),
{
    match stage {
        AttachState::Embedded => PaneInteractionMode::Embedded,
        AttachState::Attaching => PaneInteractionMode::Attaching,
        AttachState::Attached => PaneInteractionMode::Attached,
        AttachState::Detaching => PaneInteractionMode::Detaching,
    }
}

impl CoreView {
    /// The books after a row of notes of an attach.
    pub open spec fn attach_noted_all(
        self,
        notes: Seq<NoteView>,
        embedded: Size,
        screen: AttachScreenPolicy,
    ) -> CoreView
        decreases notes.len(),
    {
        if notes.len() == 0 {
            self
        } else {
            self.attach_noted_all(notes.drop_last(), embedded, screen).attach_noted(
                notes.last(),
                embedded,
                screen,
            )
        }
    }

    /// The books after a step of an attach: its notes are booked, and the
    /// interaction mode follows its stage.
    pub open spec fn attach_stepped(
        self,
        notes: Seq<NoteView>,
        stage: AttachState,
        embedded: Size,
        screen: AttachScreenPolicy,
    ) -> CoreView {
        CoreView { mode: mode_of(stage), ..self.attach_noted_all(notes, embedded, screen) }
    }
}

/// Notes of an attach only add to what is logged.
pub proof fn law_attach_notes(
    core: CoreView,
    notes: Seq<NoteView>,
    embedded: Size,
    screen: AttachScreenPolicy,
)
    ensures
        follows(core.attach_noted_all(notes, embedded, screen), core, 3 * notes.len()),
    decreases notes.len(),
{
    if notes.len() == 0 {
        assert(core.log.take(core.log.len() as int) =~= core.log);
    } else {
        let shorter = notes.drop_last();
        law_attach_notes(core, shorter, embedded, screen);
        let before = core.attach_noted_all(shorter, embedded, screen);
        law_attach_notes_grow(before, notes.last(), embedded, screen);
        lemma_follows(
            core.attach_noted_all(notes, embedded, screen),
            before,
            core,
            3,
            3 * shorter.len(),
        );
    }
}

/// An attach of a pane.
#[derive(Debug, PartialEq, Eq)]
pub struct PaneAttach {
    pane_id: PaneId,
    embedded_size: Size,
    screen: AttachScreenPolicy,
    attach: AttachLoop,
}

/// An attach of a pane as plain values.
pub ghost struct PaneAttachView {
    pub pane: PaneId,
    pub embedded: Size,
    pub screen: AttachScreenPolicy,
    pub attach: LoopView,
}

impl View for PaneAttach {
    type V = PaneAttachView;

    closed spec fn view(&self) -> PaneAttachView {
        PaneAttachView {
            pane: self.pane_id,
            embedded: self.embedded_size,
            screen: self.screen,
            attach: self.attach@,
        }
    }
}

impl PaneAttachView {
    /// Whether the attach is under way and waits for the reply to a request.
    pub open spec fn open(self, request: RequestView) -> bool {
        &&& self.attach.valid()
        &&& self.attach.managed
        &&& match request {
            RequestView::Finished(r) => r matches Err(failure) ==> failure_fits(failure, true),
            _ => forall|reply: ReplyView| #[trigger]
                answers(reply, request, true) ==> self.attach.awaits(reply),
        }
    }
}

/// How an attach stands: the manager, the attach, its open request, and what
/// the host has carried out so far.
pub ghost struct AttachScene<Clock> {
    pub manager: ManagerView,
    pub attach: PaneAttachView,
    pub request: RequestView,
    pub asked: Seq<Exchange>,
    pub clock: Clock,
}

/// Whether a reply is what a request of an attach comes to: the pane serves it,
/// the host carries it out, or the clock is read or waits. Only what the pane
/// serves changes the manager.
#[verifier::opaque]
pub open spec fn attach_served<Clock: AttachClock>(
    reply: ReplyView,
    served: ManagerView,
    asked: Seq<Exchange>,
    clock: Clock,
    before: AttachScene<Clock>,
) -> bool {
    let id = before.attach.pane;
    &&& answers(reply, before.request, true)
    &&& if for_pane(before.request) {
        &&& served == before.manager.renewed(id, served.pane(id))
        &&& pane_served(reply, served.pane(id), before.manager.pane(id), before.request)
        &&& asked == before.asked
        &&& clock == before.clock
    } else if for_host(before.request) {
        &&& served == before.manager
        &&& asked == before.asked.push(Exchange { request: before.request, reply })
        &&& clock == before.clock
    } else {
        &&& served == before.manager
        &&& asked == before.asked
        &&& match before.request {
            RequestView::Clock => reply matches ReplyView::Clock(now) && clock_read(
                before.clock,
                clock,
                now,
            ),
            RequestView::Sleep(span) => clock_paused(before.clock, clock, span),
            _ => clock == before.clock,
        }
    }
}

/// What one request of an attach comes to: it is served, and the attach goes on
/// with the reply.
#[verifier::opaque]
pub open spec fn attach_steps<Clock: AttachClock>(after: AttachScene<Clock>, before: AttachScene<Clock>) -> bool {
    let id = before.attach.pane;
    exists|reply: ReplyView, served: ManagerView|
        {
            let step = before.attach.attach.after(reply);
            &&& #[trigger] attach_served::<Clock>(
                    reply,
                    served,
                    after.asked,
                    after.clock,
                    before,
                )
            &&& after.manager == served.booked(
                id,
                served.pane(id).core.attach_stepped(
                    step.notes,
                    step.state.stage,
                    before.attach.embedded,
                    before.attach.screen,
                ),
            )
            &&& after.attach == (PaneAttachView { attach: step.state, ..before.attach })
            &&& after.request == step.request
        }
}

/// Whether a scene comes of the open request of the one before it.
pub open spec fn attach_linked<Clock: AttachClock>(scenes: Seq<AttachScene<Clock>>, i: int) -> bool {
    !(scenes[i].request is Finished) && attach_steps::<Clock>(scenes[i + 1], scenes[i])
}

/// Whether each scene comes of the open request of the one before it.
pub open spec fn attach_chain<Clock: AttachClock>(scenes: Seq<AttachScene<Clock>>) -> bool {
    forall|i: int| 0 <= i < scenes.len() - 1 ==> #[trigger] attach_linked::<Clock>(scenes, i)
}

/// What `count` requests of an attach come to, one after the other.
#[verifier::opaque]
pub open spec fn attach_driven<Clock: AttachClock>(
    last: AttachScene<Clock>,
    first: AttachScene<Clock>,
    count: nat,
) -> bool {
    exists|scenes: Seq<AttachScene<Clock>>|
        {
            &&& #[trigger] attach_chain::<Clock>(scenes)
            &&& scenes.len() == count + 1
            &&& scenes.first() == first
            &&& scenes.last() == last
        }
}

proof fn lemma_attach_idle<Clock: AttachClock>(first: AttachScene<Clock>)
    ensures
        attach_driven::<Clock>(first, first, 0),
{
    reveal(attach_driven);
    assert(attach_chain::<Clock>(seq![first]));
}

proof fn lemma_attach_driven<Clock: AttachClock>(
    last: AttachScene<Clock>,
    middle: AttachScene<Clock>,
    first: AttachScene<Clock>,
    count: nat,
)
    requires
        attach_driven::<Clock>(middle, first, count),
        !(middle.request is Finished),
        attach_steps::<Clock>(last, middle),
    ensures
        attach_driven::<Clock>(last, first, count + 1),
{
    reveal(attach_driven);
    let scenes = choose|scenes: Seq<AttachScene<Clock>>|
        {
            &&& #[trigger] attach_chain::<Clock>(scenes)
            &&& scenes.len() == count + 1
            &&& scenes.first() == first
            &&& scenes.last() == middle
        };
    let longer = scenes.push(last);
    assert forall|i: int| 0 <= i < longer.len() - 1 implies #[trigger] attach_linked::<Clock>(
        longer,
        i,
    ) by {
        if i < scenes.len() - 1 {
            assert(attach_linked::<Clock>(scenes, i));
        }
    }
    assert(attach_chain::<Clock>(longer));
}

/// Whether a scene is the first one of an attach of a pane: the size to return
/// to is the one that its surface has.
pub open spec fn attach_opening<Clock>(
    scene: AttachScene<Clock>,
    manager: ManagerView,
    id: PaneId,
    options: AttachOptions,
) -> bool {
    &&& scene.manager == manager
    &&& manager.pane(id).screen.measures(scene.attach.embedded)
    &&& scene.request == RequestView::TerminalSize
    &&& scene.attach == (PaneAttachView {
        pane: id,
        embedded: scene.attach.embedded,
        screen: options.screen,
        attach: LoopView::fresh(
            options,
            true,
            scene.attach.embedded,
            attach_poll_interval(),
        ).begun().state,
    })
}

/// Whether an attach has come as far as `progress` says with its `last` scene.
pub open spec fn attach_got_to<Clock>(progress: AttachProgress, last: AttachScene<Clock>) -> bool {
    match progress {
        AttachProgress::Ended(Ok(outcome)) => last.request == RequestView::Finished(Ok(outcome@)),
        AttachProgress::Ended(Err(error)) => last.request == RequestView::Finished(Err(error@)),
        AttachProgress::Open(attach, request) => {
            &&& !(request@ is Finished)
            &&& last.attach == attach@
            &&& last.request == request@
        },
    }
}

/// What `limit` requests of an attach of a pane come to, with the clock before
/// and after.
#[verifier::opaque]
pub open spec fn attached<Clock: AttachClock>(
    after: ManagerView,
    met: ManagerView,
    id: PaneId,
    options: AttachOptions,
    limit: nat,
    progress: AttachProgress,
    asked: Seq<Exchange>,
    known: Seq<Exchange>,
    clocks: (Clock, Clock),
) -> bool {
    exists|last: AttachScene<Clock>, first: AttachScene<Clock>, count: nat|
        {
            &&& attach_opening(first, met, id, options)
            &&& #[trigger] attach_driven::<Clock>(last, first, count)
            &&& first.asked == known
            &&& clocks == (first.clock, last.clock)
            &&& count <= limit
            &&& progress is Open ==> count == limit
            &&& last.manager == after
            &&& last.asked == asked
            &&& attach_got_to(progress, last)
        }
}

/// Whether a scene is under way, and what the host was asked since `from` made
/// of its terminal what the loop takes it for.
pub open spec fn attach_under_way<Clock>(scene: AttachScene<Clock>, from: int) -> bool {
    &&& scene.attach.open(scene.request)
    &&& made_of_host(scene.asked, from, scene.attach.attach.host)
}

proof fn lemma_attach_under_way<Clock: AttachClock>(scenes: Seq<AttachScene<Clock>>, from: int, k: int)
    requires
        attach_chain::<Clock>(scenes),
        0 <= k < scenes.len(),
        attach_under_way(scenes[0], from),
        !(scenes[0].request is Finished),
    ensures
        attach_under_way(scenes[k], from),
        scenes[k].request is Finished ==> gave_back(scenes[k].asked, from, scenes[k].request),
    decreases k,
{
    if k > 0 {
        lemma_attach_under_way::<Clock>(scenes, from, k - 1);
        assert(attach_linked::<Clock>(scenes, k - 1));
        reveal(attach_steps);
        reveal(attach_served);
        let before = scenes[k - 1];
        let after = scenes[k];
        let id = before.attach.pane;
        let (reply, served) = choose|reply: ReplyView, served: ManagerView|
            {
                let step = before.attach.attach.after(reply);
                &&& #[trigger] attach_served::<Clock>(
                    reply,
                    served,
                    after.asked,
                    after.clock,
                    before,
                )
                &&& after.manager == served.booked(
                    id,
                    served.pane(id).core.attach_stepped(
                        step.notes,
                        step.state.stage,
                        before.attach.embedded,
                        before.attach.screen,
                    ),
                )
                &&& after.attach == (PaneAttachView { attach: step.state, ..before.attach })
                &&& after.request == step.request
            };
        let state = before.attach.attach;
        law_attach_advances(state, reply);
        law_attach_loop_stays_valid(state, reply);
        law_attach_ends_embedded(state, reply);
        lemma_made_of_host(before.asked, from, state, before.request, reply);
    }
}

/// An attach that ends gives the terminal back. One that ends well has suspended
/// it once and restored it after that. One that fails has never suspended it, or
/// has suspended it once and tried to restore it after that.
pub proof fn law_ended_attaches_give_the_terminal_back<Clock: AttachClock>(
    last: AttachScene<Clock>,
    first: AttachScene<Clock>,
    count: nat,
    manager: ManagerView,
    id: PaneId,
    options: AttachOptions,
)
    requires
        attach_opening(first, manager, id, options),
        first.attach.open(first.request),
        attach_driven::<Clock>(last, first, count),
        last.request is Finished,
    ensures
        gave_back(last.asked, first.asked.len() as int, last.request),
{
    reveal(attach_driven);
    let scenes = choose|scenes: Seq<AttachScene<Clock>>|
        {
            &&& #[trigger] attach_chain::<Clock>(scenes)
            &&& scenes.len() == count + 1
            &&& scenes.first() == first
            &&& scenes.last() == last
        };
    let from = first.asked.len() as int;
    assert(attach_under_way(scenes[0], from));
    lemma_attach_under_way::<Clock>(scenes, from, count as int);
}

/// How far an attach has come.
#[derive(Debug, PartialEq, Eq)]
pub enum AttachProgress {
    /// It has ended.
    Ended(core::result::Result<PaneAttachOutcome, PaneAttachError>),
    /// It is under way, and a request is open.
    Open(PaneAttach, AttachRequest),
}

/// The interval at which an idle attach looks for input and output.
pub open spec fn attach_poll_interval() -> Duration {
    Duration { nanos: 10_000_000 }
}

/// What an attach asks of a pane only adds to what is logged.
pub(crate) proof fn lemma_served_grows(
    reply: ReplyView,
    after: RuntimeView,
    before: RuntimeView,
    request: RequestView,
)
    requires
        pane_served(reply, after, before, request),
    ensures
        after.core.grew_from(before.core),
        after.backed == before.backed,
{
    let core = before.core;
    assert(core.log.take(core.log.len() as int) =~= core.log);
    if let RequestView::Feed(bytes) = request {
        reveal(attach_fed);
        let feed = choose|feed: FeedView|
            after == #[trigger] before.took_frame(FrameView::Output(bytes), feed, after.screen)
                && reply == crate::pane_runtime::feed_reply(feed);
        law_log_only_grows(core, FrameView::Output(bytes), feed);
    }
}

impl PaneManager {
    /// Begins to attach an existing PTY-backed pane to the real terminal.
    ///
    /// PTY output still flows through the transcript, surface, and pane event
    /// stream while the pane is attached, attach lifecycle events are emitted
    /// with the pane's normal sequence numbers, and the embedded size is
    /// restored when attach ends if requested by [`AttachOptions`].
    ///
    /// # Errors
    ///
    /// Returns an error if the pane was not found, is surface-only, is not
    /// running, or is attached already.
    pub fn begin_attach(
        &mut self,
        pane_id: PaneId,
        options: AttachOptions,
    ) -> (r: core::result::Result<(PaneAttach, AttachRequest), PaneAttachError>)
        requires
            old(self).wf(),
        ensures
            goes_on(final(self).posted(), old(self).posted()),
            final(self).wf(),
            !old(self)@.has(pane_id) ==> final(self)@ == old(self)@ && (r matches Err(e) && e@
                == FailureView::Pane(ManagerView::unknown(pane_id))),
            old(self)@.has(pane_id) ==> {
                &&& final(self)@.has(pane_id)
                &&& polled(
                    final(self)@,
                    old(self)@,
                    pane_id,
                    old(self)@.config.drain_limit as nat,
                )
                &&& match r {
                    Ok((attach, request)) => {
                        &&& attach_refusal(final(self)@.pane(pane_id)) is None
                        &&& attach@.pane == pane_id
                        &&& attach@.screen == options.screen
                        &&& final(self)@.pane(pane_id).screen.measures(attach@.embedded)
                        &&& request@ == RequestView::TerminalSize
                        &&& attach@.open(request@)
                        &&& attach@.attach == LoopView::fresh(
                            options,
                            true,
                            attach@.embedded,
                            attach_poll_interval(),
                        ).begun().state
                    },
                    Err(e) => attach_refusal(final(self)@.pane(pane_id)) matches Some(refusal)
                        && e@ == FailureView::Pane(refusal),
                }
            },
    {
        self.poll_pane_frames(pane_id);
        let k = match self.find(pane_id) {
            None => {
                return Err(PaneAttachError::Pane { error: not_found(pane_id) });
            },
            Some(k) => k,
        };
        let embedded_size = match self.panes[k].prepare_attach() {
            Ok(size) => size,
            Err(error) => {
                return Err(PaneAttachError::Pane { error });
            },
        };
        let screen = options.screen;
        let mut attach = AttachLoop::new(options, true, embedded_size, Duration::from_millis(10));
        let step = attach.begin();
        Ok((PaneAttach { pane_id, embedded_size, screen, attach }, step.request))
    }

    /// Does what an attach asks of its pane.
    pub fn serve_attach(&mut self, attach: &PaneAttach, request: &AttachRequest) -> (reply:
        AttachReply)
        requires
            old(self).wf(),
            old(self)@.has(attach@.pane),
            for_pane(request@),
        ensures
            goes_on(final(self).posted(), old(self).posted()),
            final(self).wf(),
            final(self)@.has(attach@.pane),
            answers(reply@, request@, true),
            final(self)@ == old(self)@.renewed(attach@.pane, final(self)@.pane(attach@.pane)),
            pane_served(
                reply@,
                final(self)@.pane(attach@.pane),
                old(self)@.pane(attach@.pane),
                request@,
            ),
    {
        let ghost start = *self;
        let ghost before = self@;
        let ghost id = attach@.pane;
        let k = match self.find(attach.pane_id) {
            None => {
                return AttachReply::Slept;
            },
            Some(k) => k,
        };
        proof {
            assert(stands_at(before.panes, id, before.place(id)));
            crate::manager::lemma_unchanged(before, id);
        }
        let from = self.panes[k].books().event_log().len();
        let reply = self.panes[k].serve(request);
        let ghost now = self.panes@[k as int]@;
        proof {
            lemma_served_grows(reply@, now, before.pane(id), request@);
            law_renewing(before, id, now);
            assert(self.panes@ =~= start.panes@.update(k as int, self.panes@[k as int]));
        }
        self.conclude(k, from, Ghost(start));
        reply
    }

    #[verifier::rlimit(60)]
    fn book_notes(&mut self, k: usize, notes: &Vec<AttachNote>, attach: &PaneAttach)
        requires
            old(self).wf(),
            stands_at(old(self)@.panes, attach@.pane, k as int),
        ensures
            goes_on(final(self).posted(), old(self).posted()),
            final(self).wf(),
            stands_at(final(self)@.panes, attach@.pane, k as int),
            final(self)@ == old(self)@.booked(
                attach@.pane,
                old(self)@.pane(attach@.pane).core.attach_stepped(
                    note_views(notes@),
                    attach@.attach.stage,
                    attach@.embedded,
                    attach@.screen,
                ),
            ),
    {
        let ghost start = *self;
        let ghost before = self@;
        let ghost id = attach@.pane;
        let ghost views = note_views(notes@);
        proof {
            lemma_place(before, id, k as int);
            assert(self.panes@[k as int].wf());
            assert(before.panes[k as int] == self.panes@[k as int]@);
            assert(views.take(0) =~= Seq::empty());
        }
        let ghost core = before.pane(id).core;
        let from = self.panes[k].books().event_log().len();
        let mut i: usize = 0;
        let pane = &mut self.panes[k];
        while i < notes.len()
            invariant
                pane.wf(),
                goes_on(pane.events(), start.panes@[k as int].events()),
                i <= notes@.len(),
                views == note_views(notes@),
                pane@ == before.panes[k as int].booked(
                    core.attach_noted_all(views.take(i as int), attach@.embedded, attach@.screen),
                ),
            decreases notes@.len() - i,
        {
            proof {
                let more = views.take(i + 1);
                assert(more.drop_last() =~= views.take(i as int));
                assert(more.last() == notes@[i as int]@);
            }
            pane.books_mut().note_attach(&notes[i], attach.embedded_size, attach.screen);
            i = i + 1;
        }
        pane.books_mut().set_interaction_mode(stage_mode(attach.attach.stage()));
        proof {
            assert(views.take(i as int) =~= views);
            law_attach_notes(core, views, attach@.embedded, attach@.screen);
        }
        proof {
            law_booking(
                before,
                id,
                core.attach_stepped(
                    views,
                    attach@.attach.stage,
                    attach@.embedded,
                    attach@.screen,
                ),
            );
            assert(self.panes@ =~= start.panes@.update(k as int, self.panes@[k as int]));
        }
        self.conclude(k, from, Ghost(start));
    }

    /// Goes on with what came of a request of an attach. Its notes are booked,
    /// and the pane's interaction mode follows its stage.
    pub fn advance_attach(&mut self, attach: &mut PaneAttach, reply: AttachReply) -> (request:
        AttachRequest)
        requires
            old(self).wf(),
            old(self)@.has(old(attach)@.pane),
            old(attach)@.attach.valid(),
            old(attach)@.attach.managed,
            old(attach)@.attach.awaits(reply@),
        ensures
            goes_on(final(self).posted(), old(self).posted()),
            final(self).wf(),
            final(self)@.has(old(attach)@.pane),
            final(attach)@.open(request@),
            request@ is Finished ==> final(self)@.pane(old(attach)@.pane).core.mode
                == PaneInteractionMode::Embedded,
            ({
                let step = old(attach)@.attach.after(reply@);
                &&& request@ == step.request
                &&& final(attach)@ == (PaneAttachView { attach: step.state, ..old(attach)@ })
                &&& final(self)@ == old(self)@.booked(
                    old(attach)@.pane,
                    old(self)@.pane(old(attach)@.pane).core.attach_stepped(
                        step.notes,
                        step.state.stage,
                        old(attach)@.embedded,
                        old(attach)@.screen,
                    ),
                )
            }),
    {
        let ghost before = self@;
        let ghost id = attach@.pane;
        proof {
            law_attach_advances(attach@.attach, reply@);
            law_attach_loop_stays_valid(attach@.attach, reply@);
            law_attach_ends_embedded(attach@.attach, reply@);
            assert(stands_at(before.panes, id, before.place(id)));
            let next = attach@.attach.after(reply@);
            law_attach_notes(before.pane(id).core, next.notes, attach@.embedded, attach@.screen);
            law_booking(
                before,
                id,
                before.pane(id).core.attach_stepped(
                    next.notes,
                    next.state.stage,
                    attach@.embedded,
                    attach@.screen,
                ),
            );
        }
        let step = attach.attach.advance(reply);
        if let Some(k) = self.find(attach.pane_id) {
            self.book_notes(k, &step.notes, attach);
        }
        step.request
    }

    fn answer_attach<
        Terminal: PaneAttachTerminal,
        Control: PaneAttachTerminalControl,
        Clock: AttachClock,
    >(
        &mut self,
        attach: &PaneAttach,
        host: &mut PaneAttachHost<'_, Terminal, Control>,
        clock: &mut Clock,
        request: &AttachRequest,
    ) -> (reply: AttachReply)
        requires
            old(self).wf(),
            old(self)@.has(attach@.pane),
            !(request@ is Finished),
        ensures
            goes_on(final(self).posted(), old(self).posted()),
            final(self).wf(),
            final(self)@.has(attach@.pane),
            answers(reply@, request@, true),
            attach_served::<Clock>(
                reply@,
                final(self)@,
                final(host).exchanges(),
                *final(clock),
                AttachScene {
                    manager: old(self)@,
                    attach: attach@,
                    request: request@,
                    asked: old(host).exchanges(),
                    clock: *old(clock),
                },
            ),
            old(host).calls().len() <= final(host).calls().len(),
            final(host).calls().take(old(host).calls().len() as int) == old(host).calls(),
            calls_connect(
                final(host).calls().skip(old(host).calls().len() as int),
                old(host).states(),
                final(host).states(),
            ),
            forall|i: int, c: PartyCall<HostStates<Terminal, Control, Control::RestoreToken>>|
                old(host).calls().len() <= i && #[trigger] call_at(final(host).calls(), i, c) ==> exists|
                    asked: &mut PaneAttachHost<'_, Terminal, Control>,
                    request: &AttachRequest,
                    reply: AttachReply,
                |
                    #![trigger call_ensures(PaneAttachHost::<'_, Terminal, Control>::carry_out, (asked, request), reply)]
                    {
                        &&& call_ensures(
                            PaneAttachHost::<'_, Terminal, Control>::carry_out,
                            (asked, request),
                            reply,
                        )
                        &&& c.exchange == (Exchange { request: request@, reply: reply@ })
                        &&& c.before == (*asked).states()
                        &&& c.after == (*final(asked)).states()
                    },
    {
        let ghost known = host.calls();
        let ghost states = host.states();
        proof {
            reveal(attach_served);
            assert(known.take(known.len() as int) =~= known);
            assert(known.skip(known.len() as int) =~= Seq::empty());
        }
        match request {
            AttachRequest::Clock => {
                let (now, _) = ask_reading(clock);
                assert(clock_read(*old(clock), *clock, now));
                AttachReply::Clock(now)
            },
            AttachRequest::Sleep(span) => {
                let _ = ask_pause(clock, *span);
                assert(clock_paused(*old(clock), *clock, *span));
                AttachReply::Slept
            },
            AttachRequest::TerminalSize | AttachRequest::ReadInput | AttachRequest::WriteOutput(_)
            | AttachRequest::Suspend(_) | AttachRequest::Restore => {
                let reply = host.carry_out(request);
                proof {
                    let call = host.calls().last();
                    let n = known.len() as int;
                    assert(host.calls() == known.push(call));
                    assert(host.calls().take(n) =~= known);
                    assert(host.calls().skip(n) =~= known.skip(n).push(call));
                    lemma_calls_connect(known.skip(n), states, states, call);
                    assert(host.exchanges() =~= old(host).exchanges().push(
                        Exchange { request: request@, reply: reply@ },
                    ));
                    assert forall|
                        i: int,
                        c: PartyCall<HostStates<Terminal, Control, Control::RestoreToken>>,
                    |
                        known.len() <= i && #[trigger] call_at(host.calls(), i, c) implies c
                        == call by {}
                }
                reply
            },
            _ => self.serve_attach(attach, request),
        }
    }

    fn turn_attach<
        Terminal: PaneAttachTerminal,
        Control: PaneAttachTerminalControl,
        Clock: AttachClock,
    >(
        &mut self,
        attach: &mut PaneAttach,
        host: &mut PaneAttachHost<'_, Terminal, Control>,
        clock: &mut Clock,
        request: AttachRequest,
    ) -> (next: AttachRequest)
        requires
            old(self).wf(),
            old(self)@.has(old(attach)@.pane),
            old(attach)@.open(request@),
            !(request@ is Finished),
        ensures
            goes_on(final(self).posted(), old(self).posted()),
            final(self).wf(),
            final(self)@.has(old(attach)@.pane),
            final(attach)@.open(next@),
            final(attach)@.pane == old(attach)@.pane,
            final(attach)@.embedded == old(attach)@.embedded,
            final(attach)@.screen == old(attach)@.screen,
            next@ is Finished ==> final(self)@.pane(old(attach)@.pane).core.mode
                == PaneInteractionMode::Embedded,
            attach_steps::<Clock>(
                AttachScene {
                    manager: final(self)@,
                    attach: final(attach)@,
                    request: next@,
                    asked: final(host).exchanges(),
                    clock: *final(clock),
                },
                AttachScene {
                    manager: old(self)@,
                    attach: old(attach)@,
                    request: request@,
                    asked: old(host).exchanges(),
                    clock: *old(clock),
                },
            ),
            old(host).calls().len() <= final(host).calls().len(),
            final(host).calls().take(old(host).calls().len() as int) == old(host).calls(),
            calls_connect(
                final(host).calls().skip(old(host).calls().len() as int),
                old(host).states(),
                final(host).states(),
            ),
            forall|i: int, c: PartyCall<HostStates<Terminal, Control, Control::RestoreToken>>|
                old(host).calls().len() <= i && #[trigger] call_at(final(host).calls(), i, c) ==> exists|
                    asked: &mut PaneAttachHost<'_, Terminal, Control>,
                    request: &AttachRequest,
                    reply: AttachReply,
                |
                    #![trigger call_ensures(PaneAttachHost::<'_, Terminal, Control>::carry_out, (asked, request), reply)]
                    {
                        &&& call_ensures(
                            PaneAttachHost::<'_, Terminal, Control>::carry_out,
                            (asked, request),
                            reply,
                        )
                        &&& c.exchange == (Exchange { request: request@, reply: reply@ })
                        &&& c.before == (*asked).states()
                        &&& c.after == (*final(asked)).states()
                    },
    {
        let ghost before = AttachScene {
            manager: self@,
            attach: attach@,
            request: request@,
            asked: host.exchanges(),
            clock: *clock,
        };
        let reply = self.answer_attach(attach, host, clock, &request);
        let ghost served = self@;
        let next = self.advance_attach(attach, reply);
        proof {
            reveal(attach_steps);
            let last = AttachScene {
                manager: self@,
                attach: attach@,
                request: next@,
                asked: host.exchanges(),
                clock: *clock,
            };
            assert(attach_served::<Clock>(reply@, served, last.asked, last.clock, before));
            assert(attach_steps::<Clock>(last, before));
        }
        next
    }

    /// Carries out `request` and what the attach needs after it, `limit`
    /// requests at most, and returns the request that is then open.
    ///
    /// A request that is not finished can be handed in again.
    #[verifier::spinoff_prover]
    #[verifier::rlimit(80)]
    pub fn drive_attach<
        Terminal: PaneAttachTerminal,
        Control: PaneAttachTerminalControl,
        Clock: AttachClock,
    >(
        &mut self,
        attach: &mut PaneAttach,
        host: &mut PaneAttachHost<'_, Terminal, Control>,
        clock: &mut Clock,
        request: AttachRequest,
        limit: u64,
    ) -> (open: AttachRequest)
        requires
            old(self).wf(),
            old(self)@.has(old(attach)@.pane),
            old(attach)@.open(request@),
        ensures
            goes_on(final(self).posted(), old(self).posted()),
            final(self).wf(),
            final(self)@.has(old(attach)@.pane),
            final(attach)@.open(open@),
            final(attach)@.pane == old(attach)@.pane,
            final(attach)@.embedded == old(attach)@.embedded,
            final(attach)@.screen == old(attach)@.screen,
            open@ is Finished && !(request@ is Finished) ==> final(self)@.pane(
                old(attach)@.pane,
            ).core.mode == PaneInteractionMode::Embedded,
            exists|count: nat|
                {
                    &&& #[trigger] attach_driven::<Clock>(
                        AttachScene {
                            manager: final(self)@,
                            attach: final(attach)@,
                            request: open@,
                            asked: final(host).exchanges(),
                            clock: *final(clock),
                        },
                        AttachScene {
                            manager: old(self)@,
                            attach: old(attach)@,
                            request: request@,
                            asked: old(host).exchanges(),
                            clock: *old(clock),
                        },
                        count,
                    )
                    &&& count <= limit
                    &&& open@ is Finished || count == limit
                },
            old(host).calls().len() <= final(host).calls().len(),
            final(host).calls().take(old(host).calls().len() as int) == old(host).calls(),
            calls_connect(
                final(host).calls().skip(old(host).calls().len() as int),
                old(host).states(),
                final(host).states(),
            ),
            forall|i: int, c: PartyCall<HostStates<Terminal, Control, Control::RestoreToken>>|
                old(host).calls().len() <= i && #[trigger] call_at(final(host).calls(), i, c) ==> exists|
                    asked: &mut PaneAttachHost<'_, Terminal, Control>,
                    request: &AttachRequest,
                    reply: AttachReply,
                |
                    #![trigger call_ensures(PaneAttachHost::<'_, Terminal, Control>::carry_out, (asked, request), reply)]
                    {
                        &&& call_ensures(
                            PaneAttachHost::<'_, Terminal, Control>::carry_out,
                            (asked, request),
                            reply,
                        )
                        &&& c.exchange == (Exchange { request: request@, reply: reply@ })
                        &&& c.before == (*asked).states()
                        &&& c.after == (*final(asked)).states()
                    },
    {
        let ghost posted = self.posted();
        let ghost start = attach@;
        let ghost known = host.calls();
        let ghost first = AttachScene {
            manager: self@,
            attach: attach@,
            request: request@,
            asked: host.exchanges(),
            clock: *clock,
        };
        let mut open = request;
        let mut left = limit;
        let mut running = match &open {
            AttachRequest::Finished(_) => false,
            _ => true,
        };
        proof {
            lemma_attach_idle::<Clock>(first);
            assert(known.take(known.len() as int) =~= known);
            assert(known.skip(known.len() as int) =~= Seq::empty());
        }
        while left > 0 && running
            invariant
                posted == old(self).posted(),
                goes_on(self.posted(), posted),
                self.wf(),
                self@.has(start.pane),
                attach@.open(open@),
                attach@.pane == start.pane,
                attach@.embedded == start.embedded,
                attach@.screen == start.screen,
                running == !(open@ is Finished),
                left <= limit,
                attach_driven::<Clock>(
                    AttachScene {
                        manager: self@,
                        attach: attach@,
                        request: open@,
                        asked: host.exchanges(),
                        clock: *clock,
                    },
                    first,
                    (limit - left) as nat,
                ),
                known == old(host).calls(),
                old(host).calls().len() <= host.calls().len(),
                host.calls().take(old(host).calls().len() as int) == old(host).calls(),
                calls_connect(
                    host.calls().skip(old(host).calls().len() as int),
                    old(host).states(),
                    host.states(),
                ),
                forall|i: int, c: PartyCall<HostStates<Terminal, Control, Control::RestoreToken>>|
                    old(host).calls().len() <= i && #[trigger] call_at(host.calls(), i, c) ==> exists|
                        asked: &mut PaneAttachHost<'_, Terminal, Control>,
                        request: &AttachRequest,
                        reply: AttachReply,
                    |
                        #![trigger call_ensures(PaneAttachHost::<'_, Terminal, Control>::carry_out, (asked, request), reply)]
                        {
                            &&& call_ensures(
                                PaneAttachHost::<'_, Terminal, Control>::carry_out,
                                (asked, request),
                                reply,
                            )
                            &&& c.exchange == (Exchange { request: request@, reply: reply@ })
                            &&& c.before == (*asked).states()
                            &&& c.after == (*final(asked)).states()
                        },
                left == limit ==> open@ == request@,
                request@ is Finished ==> left == limit && !running,
                open@ is Finished && !(request@ is Finished) ==> self@.pane(start.pane).core.mode
                    == PaneInteractionMode::Embedded,
            decreases left,
        {
            let ghost middle = AttachScene {
                manager: self@,
                attach: attach@,
                request: open@,
                asked: host.exchanges(),
                clock: *clock,
            };
            let ghost made = host.calls();
            let ghost states = host.states();
            open = self.turn_attach(attach, host, clock, open);
            proof {
                let n = known.len() as int;
                let m = made.len() as int;
                let now = host.calls();
                assert(now.take(n) =~= now.take(m).take(n));
                lemma_calls_go_on(
                    made.skip(n),
                    now.skip(m),
                    old(host).states(),
                    states,
                    host.states(),
                );
                assert(now.skip(n) =~= made.skip(n) + now.skip(m));
                assert forall|
                    i: int,
                    c: PartyCall<HostStates<Terminal, Control, Control::RestoreToken>>,
                |
                    known.len() <= i && #[trigger] call_at(host.calls(), i, c) implies exists|
                    asked: &mut PaneAttachHost<'_, Terminal, Control>,
                    request: &AttachRequest,
                    reply: AttachReply,
                |
                    #![trigger call_ensures(PaneAttachHost::<'_, Terminal, Control>::carry_out, (asked, request), reply)]
                    {
                        &&& call_ensures(
                            PaneAttachHost::<'_, Terminal, Control>::carry_out,
                            (asked, request),
                            reply,
                        )
                        &&& c.exchange == (Exchange { request: request@, reply: reply@ })
                        &&& c.before == (*asked).states()
                        &&& c.after == (*final(asked)).states()
                    } by {
                    if i < m {
                        assert(now.take(m)[i] == now[i]);
                        assert(call_at(made, i, c));
                    }
                }
                lemma_attach_driven::<Clock>(
                    AttachScene {
                        manager: self@,
                        attach: attach@,
                        request: open@,
                        asked: host.exchanges(),
                        clock: *clock,
                    },
                    middle,
                    first,
                    (limit - left) as nat,
                );
            }
            running = match &open {
                AttachRequest::Finished(_) => false,
                _ => true,
            };
            left = left - 1;
        }
        open
    }

    /// Attaches an existing PTY-backed pane to the real terminal until detach,
    /// or until `limit` requests were carried out. An attach that is still open
    /// then goes on with [`PaneManager::drive_attach`].
    ///
    /// # Errors
    ///
    /// The attach ends with an error if the pane was not found, is
    /// surface-only, is not running, or is attached already, or if the
    /// terminal or the pane fails on the way.
    pub fn attach_blocking<
        Terminal: PaneAttachTerminal,
        Control: PaneAttachTerminalControl,
        Clock: AttachClock,
    >(
        &mut self,
        pane_id: PaneId,
        options: AttachOptions,
        host: &mut PaneAttachHost<'_, Terminal, Control>,
        clock: &mut Clock,
        limit: u64,
    ) -> (progress: AttachProgress)
        requires
            old(self).wf(),
        ensures
            goes_on(final(self).posted(), old(self).posted()),
            final(self).wf(),
            !old(self)@.has(pane_id) ==> final(self)@ == old(self)@ && *final(host) == *old(host)
                && *final(clock) == *old(clock) && (progress matches AttachProgress::Ended(Err(e)) && e@ == FailureView::Pane(
                ManagerView::unknown(pane_id),
            )),
            old(self)@.has(pane_id) ==> exists|met: ManagerView|
                {
                    &&& #[trigger] polled(
                        met,
                        old(self)@,
                        pane_id,
                        old(self)@.config.drain_limit as nat,
                    )
                    &&& match attach_refusal(met.pane(pane_id)) {
                        Some(refusal) => final(self)@ == met && *final(host) == *old(host)
                            && *final(clock) == *old(clock) && (
                        progress
                            matches AttachProgress::Ended(Err(e)) && e@ == FailureView::Pane(
                            refusal,
                        )),
                        None => {
                            &&& attached::<Clock>(
                                final(self)@,
                                met,
                                pane_id,
                                options,
                                limit as nat,
                                progress,
                                final(host).exchanges(),
                                old(host).exchanges(),
                                (*old(clock), *final(clock)),
                            )
                            &&& progress is Ended ==> final(self)@.pane(pane_id).core.mode
                                == PaneInteractionMode::Embedded
                            &&& progress matches AttachProgress::Open(attach, request)
                                ==> attach@.open(request@) && final(self)@.has(attach@.pane)
                        },
                    }
                },
            old(host).calls().len() <= final(host).calls().len(),
            final(host).calls().take(old(host).calls().len() as int) == old(host).calls(),
            calls_connect(
                final(host).calls().skip(old(host).calls().len() as int),
                old(host).states(),
                final(host).states(),
            ),
            forall|i: int, c: PartyCall<HostStates<Terminal, Control, Control::RestoreToken>>|
                old(host).calls().len() <= i && #[trigger] call_at(final(host).calls(), i, c) ==> exists|
                    asked: &mut PaneAttachHost<'_, Terminal, Control>,
                    request: &AttachRequest,
                    reply: AttachReply,
                |
                    #![trigger call_ensures(PaneAttachHost::<'_, Terminal, Control>::carry_out, (asked, request), reply)]
                    {
                        &&& call_ensures(
                            PaneAttachHost::<'_, Terminal, Control>::carry_out,
                            (asked, request),
                            reply,
                        )
                        &&& c.exchange == (Exchange { request: request@, reply: reply@ })
                        &&& c.before == (*asked).states()
                        &&& c.after == (*final(asked)).states()
                    },
    {
        let ghost before = self@;
        let ghost known = host.exchanges();
        proof {
            let calls = host.calls();
            assert(calls.take(calls.len() as int) =~= calls);
            assert(calls.skip(calls.len() as int) =~= Seq::empty());
        }
        let (mut attach, request) = match self.begin_attach(pane_id, options) {
            Ok(begun) => begun,
            Err(error) => {
                return AttachProgress::Ended(Err(error));
            },
        };
        let ghost met = self@;
        let ghost first = AttachScene {
            manager: met,
            attach: attach@,
            request: request@,
            asked: known,
            clock: *clock,
        };
        let open = self.drive_attach(&mut attach, host, clock, request, limit);
        let ghost last = AttachScene {
            manager: self@,
            attach: attach@,
            request: open@,
            asked: host.exchanges(),
            clock: *clock,
        };
        let progress = match open {
            AttachRequest::Finished(result) => AttachProgress::Ended(attach_outcome(result)),
            open => AttachProgress::Open(attach, open),
        };
        proof {
            assert(attach_opening(first, met, pane_id, options));
            assert(attach_got_to(progress, last));
            assert(attached::<Clock>(
                self@,
                met,
                pane_id,
                options,
                limit as nat,
                progress,
                last.asked,
                known,
                (first.clock, last.clock),
            )) by {
                reveal(attached);
            }
            assert(polled(met, before, pane_id, before.config.drain_limit as nat));
        }
        progress
    }
}

/// The result of a finished attach in its public form.
pub fn attach_outcome(
    result: core::result::Result<PaneAttachOutcome, AttachFailure>,
) -> (r: core::result::Result<PaneAttachOutcome, PaneAttachError>)
    requires
        result matches Err(failure) ==> failure_fits(failure@, true),
    ensures
        match r {
            Ok(outcome) => result == Ok::<PaneAttachOutcome, AttachFailure>(outcome),
            Err(error) => result is Err && error@ == result->Err_0@,
        },
{
    match result {
        Ok(outcome) => Ok(outcome),
        Err(failure) => Err(PaneAttachError::of_failure(failure)),
    }
}

} // verus!
