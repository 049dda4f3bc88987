//! Blocking fullscreen attach driver and terminal/PTY/surface bridge traits.

use std::collections::VecDeque;
use std::time::SystemTime;

use vstd::prelude::*;

use crate::attach::{AttachBridge, AttachState, HostTerminalControl, TerminalRestoreToken};
use crate::attach_error::{
    attach_failure_to_pane_error, rendered_text, renders, says_host, AttachFailure, AttachStepKind,
    BlockingAttachError, FailureView,
};
use crate::attach_loop::AttachLoop;
use crate::attach_plan::{
    answers, host_result, note_views, AttachInputChunk, AttachNote, AttachPhase, AttachReply,
    AttachRequest, BlockingAttachOutcome, HostTerminal, LoopView, NoteView, ReplyView, RequestView,
};
use crate::command::AttachOptions;
use crate::error::{PaneError, Result};
use crate::event::{
    entries, goes_on, AttachEndedEvent, AttachStartedEvent, ErrorEvent, EventEntry, EventView,
    InputKind, InputSentEvent, PaneEvent, PaneEventKind, ResizedEvent,
};
use crate::manager_config::same_outcome;
use crate::pane::{PaneId, Size};
use crate::pty::{writes, PtyFrame, PtyProcess, PtyWriter};
use crate::sink::WriterSink;
use crate::surface::{SurfaceBackend, SurfaceUpdate};
use crate::time::{Duration, Instant};

verus! {

/// Terminal I/O contract used by the blocking attach driver.
pub trait AttachTerminal {
    /// Backend-specific terminal I/O error type.
    type Error: std::fmt::Debug;

    /// Attempts to read the next raw stdin chunk without blocking forever.
    fn read_stdin(&mut self) -> core::result::Result<Option<AttachInputChunk>, Self::Error>;

    /// Writes child PTY output to the host terminal stdout.
    fn write_stdout(&mut self, bytes: &[u8]) -> core::result::Result<(), Self::Error>;

    /// Returns the current real-terminal size.
    fn size(&self) -> core::result::Result<Size, Self::Error>;
}

/// PTY contract used by the blocking attach driver.
pub trait AttachPtyEndpoint {
    /// Backend-specific PTY/runtime error type.
    type Error: std::fmt::Debug;

    /// Attempts to receive the next PTY frame without blocking.
    fn try_recv(&mut self) -> core::result::Result<Option<PtyFrame>, Self::Error>;

    /// Writes raw bytes to the child PTY.
    fn write_input(&mut self, bytes: &[u8]) -> core::result::Result<(), Self::Error>;

    /// Resizes the child PTY.
    fn resize(&mut self, size: Size) -> core::result::Result<(), Self::Error>;
}

/// Surface contract used by the blocking attach driver.
pub trait AttachSurfaceSink {
    /// Backend-specific surface error type.
    type Error: std::fmt::Debug;

    /// Feeds child PTY output into the embedded surface.
    fn feed_output(&mut self, bytes: &[u8]) -> core::result::Result<(), Self::Error>;

    /// Resizes the embedded surface.
    fn resize(&mut self, size: Size) -> core::result::Result<(), Self::Error>;
}

/// What an attach uses of a process.
pub trait AttachedProcess {
    /// Hands out the next frame, if one is pending.
    fn hand_out(&mut self) -> Option<PtyFrame>;

    /// Writes bytes in full and flushes.
    fn put_in(&mut self, bytes: &[u8]) -> Result<()>;

    /// Takes on a size.
    fn refit(&mut self, size: Size) -> Result<()>;
}

impl<T: PtyProcess> AttachedProcess for T {
    fn hand_out(&mut self) -> (frame: Option<PtyFrame>)
        ensures
            exists|process: &mut T|
                #![trigger call_ensures(<T as PtyProcess>::try_recv, (process,), frame)]
                {
                    &&& call_ensures(<T as PtyProcess>::try_recv, (process,), frame)
                    &&& *process == *old(self)
                    &&& *final(process) == *final(self)
                },
    {
        PtyProcess::try_recv(self)
    }

    fn put_in(&mut self, bytes: &[u8]) -> (r: Result<()>)
        ensures
            exists|writer: PtyWriter, left: WriterSink|
                #![trigger writes(writer.sink(), left, bytes, r)]
                {
                    &&& call_ensures(<T as PtyProcess>::writer, (&*old(self),), writer)
                    &&& writes(writer.sink(), left, bytes, r)
                },
            *final(self) == *old(self),
    {
        let mut writer = PtyProcess::writer(self);
        writer.write_bytes(bytes)
    }

    fn refit(&mut self, size: Size) -> (r: Result<()>)
        ensures
            exists|process: &mut T|
                #![trigger call_ensures(<T as PtyProcess>::resize, (process, size), r)]
                {
                    &&& call_ensures(<T as PtyProcess>::resize, (process, size), r)
                    &&& *process == *old(self)
                    &&& *final(process) == *final(self)
                },
    {
        PtyProcess::resize(self, size)
    }
}

impl<T: AttachedProcess> AttachPtyEndpoint for T {
    type Error = PaneError;

    fn try_recv(&mut self) -> (r: core::result::Result<Option<PtyFrame>, PaneError>)
        ensures
            exists|process: &mut T, frame: Option<PtyFrame>|
                #![trigger call_ensures(T::hand_out, (process,), frame)]
                {
                    &&& call_ensures(T::hand_out, (process,), frame)
                    &&& *process == *old(self)
                    &&& *final(process) == *final(self)
                    &&& r matches Ok(received) && received == frame
                },
    {
        Ok(self.hand_out())
    }

    fn write_input(&mut self, bytes: &[u8]) -> (r: core::result::Result<(), PaneError>)
        ensures
            exists|process: &mut T|
                #![trigger call_ensures(T::put_in, (process, bytes), r)]
                {
                    &&& call_ensures(T::put_in, (process, bytes), r)
                    &&& *process == *old(self)
                    &&& *final(process) == *final(self)
                },
    {
        self.put_in(bytes)
    }

    fn resize(&mut self, size: Size) -> (r: core::result::Result<(), PaneError>)
        ensures
            exists|process: &mut T|
                #![trigger call_ensures(T::refit, (process, size), r)]
                {
                    &&& call_ensures(T::refit, (process, size), r)
                    &&& *process == *old(self)
                    &&& *final(process) == *final(self)
                },
    {
        self.refit(size)
    }
}

impl<T: SurfaceBackend> AttachSurfaceSink for T {
    type Error = PaneError;

    fn feed_output(&mut self, bytes: &[u8]) -> (r: core::result::Result<(), PaneError>)
        ensures
            exists|surface: &mut T, answer: Result<SurfaceUpdate>|
                #![trigger call_ensures(<T as SurfaceBackend>::feed, (surface, bytes), answer)]
                {
                    &&& call_ensures(<T as SurfaceBackend>::feed, (surface, bytes), answer)
                    &&& *surface == *old(self)
                    &&& *final(surface) == *final(self)
                    &&& same_outcome(r, answer)
                },
    {
        match SurfaceBackend::feed(self, bytes) {
            Ok(_) => Ok(()),
            Err(error) => Err(error),
        }
    }

    fn resize(&mut self, size: Size) -> (r: core::result::Result<(), PaneError>)
        ensures
            exists|surface: &mut T|
                #![trigger call_ensures(<T as SurfaceBackend>::resize, (surface, size), r)]
                {
                    &&& call_ensures(<T as SurfaceBackend>::resize, (surface, size), r)
                    &&& *surface == *old(self)
                    &&& *final(surface) == *final(self)
                },
    {
        SurfaceBackend::resize(self, size)
    }
}

/// The parties to an attach: host terminal, child, surface, and the control
/// that suspends and restores the host.
///
/// Once the terminal is suspended its restore token is kept here until a
/// restoration succeeds.
pub struct AttachParties<'a, Terminal, Pty, Surface, Control> {
    terminal: &'a mut Terminal,
    pty: &'a mut Pty,
    surface: &'a mut Surface,
    control: &'a mut Control,
    token: Option<TerminalRestoreToken>,
    calls: Ghost<Seq<PartyCall<PartyStates<Terminal, Pty, Surface, Control>>>>,
}

/// What the parties to an attach are at a time, and the token of a suspended
/// terminal.
pub ghost struct PartyStates<Terminal, Pty, Surface, Control> {
    pub terminal: Terminal,
    pub pty: Pty,
    pub surface: Surface,
    pub control: Control,
    pub token: Option<TerminalRestoreToken>,
}

/// A request that was carried out, and the reply that came of it.
pub ghost struct Exchange {
    pub request: RequestView,
    pub reply: ReplyView,
}

/// A request that parties to an attach carried out, and what they were before
/// and after.
pub ghost struct PartyCall<States> {
    pub exchange: Exchange,
    pub before: States,
    pub after: States,
}

/// Whether calls took the parties from one state to another, each going on
/// where the one before it ended.
pub open spec fn calls_connect<States>(
    calls: Seq<PartyCall<States>>,
    first: States,
    last: States,
) -> bool {
    if calls.len() == 0 {
        last == first
    } else {
        &&& calls.first().before == first
        &&& calls.last().after == last
        &&& forall|i: int|
            0 < i < calls.len() ==> (#[trigger] calls[i]).before == calls[i - 1].after
    }
}

/// Whether a call stands at a place of a row of calls.
pub open spec fn call_at<States>(
    calls: Seq<PartyCall<States>>,
    i: int,
    call: PartyCall<States>,
) -> bool {
    0 <= i < calls.len() && call == calls[i]
}

/// Whether a reply tells the size that a terminal has, or why it could not
/// tell.
pub open spec fn tells_size<E: std::fmt::Debug>(
    r: core::result::Result<Size, E>,
    reply: ReplyView,
) -> bool {
    match r {
        Ok(size) => reply == ReplyView::Size(Ok(size)),
        Err(error) => reply matches ReplyView::Size(Err(text)) && renders(&error, text),
    }
}

/// Whether a reply hands on what was read from a terminal, or why nothing could
/// be.
pub open spec fn tells_input<E: std::fmt::Debug>(
    r: core::result::Result<Option<AttachInputChunk>, E>,
    reply: ReplyView,
) -> bool {
    match r {
        Ok(None) => reply == ReplyView::Input(Ok(None)),
        Ok(Some(chunk)) => reply == ReplyView::Input(Ok(Some((chunk.at, chunk.bytes@)))),
        Err(error) => reply matches ReplyView::Input(Err(text)) && renders(&error, text),
    }
}

/// Whether a reply hands on the frame that was received, or why none could be.
pub open spec fn tells_frame<E: std::fmt::Debug>(
    r: core::result::Result<Option<PtyFrame>, E>,
    reply: ReplyView,
) -> bool {
    match r {
        Ok(frame) => reply == ReplyView::Received(Ok(crate::calls::opt_frame(frame))),
        Err(error) => reply matches ReplyView::Received(Err(FailureView::Step { kind, message }))
            && kind == AttachStepKind::PtyRead && renders(&error, message),
    }
}

/// Whether a step result says the same as the answer it is made of; a failure
/// is one of the step, and told by its debug rendering.
pub open spec fn says_step<E: std::fmt::Debug>(
    kind: AttachStepKind,
    r: core::result::Result<(), E>,
    said: core::result::Result<(), FailureView>,
) -> bool {
    match r {
        Ok(_) => said is Ok,
        Err(error) => said matches Err(FailureView::Step { kind: k, message }) && k == kind
            && renders(&error, message),
    }
}

/// Whether a request is for the parties to an attach to carry out, and not for
/// a clock or a viewport.
pub open spec fn for_parties(request: RequestView) -> bool {
    match request {
        RequestView::TerminalSize | RequestView::ReadInput | RequestView::WriteOutput(_)
        | RequestView::Suspend(_) | RequestView::Restore | RequestView::Resize(_)
        | RequestView::SendInput(_) | RequestView::Receive | RequestView::Feed(_) => true,
        _ => false,
    }
}

fn failed_step(kind: AttachStepKind, message: String) -> (failure: AttachFailure)
    ensures
        failure@ == crate::attach_plan::host_failure(kind, message@),
{
    AttachFailure::Step { kind, message }
}

impl<
    'a,
    Terminal: AttachTerminal,
    Pty: AttachPtyEndpoint,
    Surface: AttachSurfaceSink,
    Control: HostTerminalControl,
> AttachParties<'a, Terminal, Pty, Surface, Control> {
    /// The token of a suspended terminal.
    pub closed spec fn token(self) -> Option<TerminalRestoreToken> {
        self.token
    }

    /// What the parties are now.
    pub closed spec fn states(self) -> PartyStates<Terminal, Pty, Surface, Control> {
        PartyStates {
            terminal: *self.terminal,
            pty: *self.pty,
            surface: *self.surface,
            control: *self.control,
            token: self.token,
        }
    }

    /// What the parties have carried out so far.
    pub closed spec fn calls(self) -> Seq<PartyCall<PartyStates<Terminal, Pty, Surface, Control>>> {
        self.calls@
    }

    /// The same, without the states of the parties.
    pub open spec fn exchanges(self) -> Seq<Exchange> {
        self.calls().map_values(|c: PartyCall<PartyStates<Terminal, Pty, Surface, Control>>| c.exchange)
    }

    /// Brings the parties together.
    pub fn new(
        terminal: &'a mut Terminal,
        pty: &'a mut Pty,
        surface: &'a mut Surface,
        control: &'a mut Control,
    ) -> (parties: Self)
        ensures
            parties.token() is None,
            parties.states() == (PartyStates {
                terminal: *old(terminal),
                pty: *old(pty),
                surface: *old(surface),
                control: *old(control),
                token: None,
            }),
            parties.calls() == Seq::<PartyCall<PartyStates<Terminal, Pty, Surface, Control>>>::empty(),
    {
        AttachParties { terminal, pty, surface, control, token: None, calls: Ghost(Seq::empty()) }
    }

    /// Whether the terminal is suspended.
    pub fn is_suspended(&self) -> (b: bool)
        ensures
            b == (self.token() is Some),
    {
        self.token.is_some()
    }

    fn resize(&mut self, size: Size) -> (r: core::result::Result<(), AttachFailure>)
        ensures
            final(self).calls() == old(self).calls(),
            final(self).states().terminal == old(self).states().terminal,
            final(self).states().control == old(self).states().control,
            final(self).states().token == old(self).states().token,
            exists|pty: &mut Pty, said: core::result::Result<(), Pty::Error>|
                #![trigger call_ensures(Pty::resize, (pty, size), said)]
                {
                    &&& call_ensures(Pty::resize, (pty, size), said)
                    &&& *pty == old(self).states().pty
                    &&& *final(pty) == final(self).states().pty
                    &&& said is Err ==> final(self).states().surface == old(
                        self,
                    ).states().surface && says_step(
                        AttachStepKind::PtyResize,
                        said,
                        crate::attach_plan::pane_result(r),
                    )
                    &&& said is Ok ==> exists|
                        surface: &mut Surface,
                        answer: core::result::Result<(), Surface::Error>,
                    |
                        #![trigger call_ensures(Surface::resize, (surface, size), answer)]
                        {
                            &&& call_ensures(Surface::resize, (surface, size), answer)
                            &&& *surface == old(self).states().surface
                            &&& *final(surface) == final(self).states().surface
                            &&& says_step(
                                AttachStepKind::SurfaceResize,
                                answer,
                                crate::attach_plan::pane_result(r),
                            )
                        }
                },
    {
        match self.pty.resize(size) {
            Err(error) => Err(failed_step(AttachStepKind::PtyResize, rendered_text(&error))),
            Ok(_) => match self.surface.resize(size) {
                Err(error) => Err(failed_step(AttachStepKind::SurfaceResize, rendered_text(&error))),
                Ok(_) => Ok(()),
            },
        }
    }

    fn restore(&mut self) -> (r: core::result::Result<(), String>)
        ensures
            final(self).calls() == old(self).calls(),
            final(self).states().terminal == old(self).states().terminal,
            final(self).states().pty == old(self).states().pty,
            final(self).states().surface == old(self).states().surface,
            old(self).states().token is None ==> r is Ok && final(self).states() == old(
                self,
            ).states(),
            old(self).states().token matches Some(held) ==> exists|
                control: &mut Control,
                token: &mut TerminalRestoreToken,
                answer: core::result::Result<(), Control::Error>,
            |
                #![trigger call_ensures(Control::restore_after_attach, (control, token), answer)]
                {
                    &&& call_ensures(Control::restore_after_attach, (control, token), answer)
                    &&& *control == old(self).states().control
                    &&& *final(control) == final(self).states().control
                    &&& *token == held
                    &&& final(self).states().token == (if answer is Ok {
                        None
                    } else {
                        Some(*final(token))
                    })
                    &&& says_host(answer, host_result(r))
                },
    {
        let mut token = match self.token.take() {
            Some(token) => token,
            None => {
                return Ok(());
            },
        };
        match self.control.restore_after_attach(&mut token) {
            Ok(_) => {
                self.token = None;
                Ok(())
            },
            Err(error) => {
                self.token = Some(token);
                Err(rendered_text(&error))
            },
        }
    }

    /// Carries out a request and brings back what came of it: the party that
    /// the request is for is asked, and the reply is its answer. The other
    /// parties are left alone.
    ///
    /// A terminal that is suspended keeps its token here; a restoration that
    /// fails keeps it too, so that it can be tried again.
    pub fn carry_out(&mut self, request: &AttachRequest) -> (reply: AttachReply)
        requires
            for_parties(request@),
        ensures
            answers(reply@, request@, false),
            final(self).calls() == old(self).calls().push(
                PartyCall {
                    exchange: Exchange { request: request@, reply: reply@ },
                    before: old(self).states(),
                    after: final(self).states(),
                },
            ),
            request@ is TerminalSize ==> {
                &&& final(self).states() == old(self).states()
                &&& exists|r: core::result::Result<Size, Terminal::Error>|
                    #![trigger call_ensures(Terminal::size, (&old(self).states().terminal,), r)]
                    call_ensures(Terminal::size, (&old(self).states().terminal,), r) && tells_size(
                        r,
                        reply@,
                    )
            },
            request@ is ReadInput || request@ is WriteOutput ==> final(self).states() == (
            PartyStates { terminal: final(self).states().terminal, ..old(self).states() }),
            request@ is ReadInput ==> exists|
                terminal: &mut Terminal,
                r: core::result::Result<Option<AttachInputChunk>, Terminal::Error>,
            |
                #![trigger call_ensures(Terminal::read_stdin, (terminal,), r)]
                {
                    &&& call_ensures(Terminal::read_stdin, (terminal,), r)
                    &&& *terminal == old(self).states().terminal
                    &&& *final(terminal) == final(self).states().terminal
                    &&& tells_input(r, reply@)
                },
            request@ matches RequestView::WriteOutput(bytes) ==> exists|
                terminal: &mut Terminal,
                given: &[u8],
                r: core::result::Result<(), Terminal::Error>,
            |
                #![trigger call_ensures(Terminal::write_stdout, (terminal, given), r)]
                {
                    &&& call_ensures(Terminal::write_stdout, (terminal, given), r)
                    &&& given@ == bytes
                    &&& *terminal == old(self).states().terminal
                    &&& *final(terminal) == final(self).states().terminal
                    &&& reply@ matches ReplyView::Output(said) && says_host(r, said)
                },
            request@ matches RequestView::Suspend(policy) ==> {
                &&& final(self).states() == (PartyStates {
                    control: final(self).states().control,
                    token: final(self).states().token,
                    ..old(self).states()
                })
                &&& exists|
                    control: &mut Control,
                    r: core::result::Result<TerminalRestoreToken, Control::Error>,
                |
                    #![trigger call_ensures(Control::suspend_for_attach, (control, policy), r)]
                    {
                        &&& call_ensures(Control::suspend_for_attach, (control, policy), r)
                        &&& *control == old(self).states().control
                        &&& *final(control) == final(self).states().control
                        &&& final(self).states().token == (match r {
                            Ok(token) => Some(token),
                            Err(_) => old(self).states().token,
                        })
                        &&& reply@ matches ReplyView::Suspended(said) && says_host(r, said)
                    }
            },
            request@ is Restore ==> {
                &&& final(self).states() == (PartyStates {
                    control: final(self).states().control,
                    token: final(self).states().token,
                    ..old(self).states()
                })
                &&& old(self).states().token is None ==> final(self).states() == old(self).states()
                    && reply@ == ReplyView::Restored(Ok(()))
                &&& old(self).states().token matches Some(held) ==> exists|
                    control: &mut Control,
                    token: &mut TerminalRestoreToken,
                    r: core::result::Result<(), Control::Error>,
                |
                    #![trigger call_ensures(Control::restore_after_attach, (control, token), r)]
                    {
                        &&& call_ensures(Control::restore_after_attach, (control, token), r)
                        &&& *control == old(self).states().control
                        &&& *final(control) == final(self).states().control
                        &&& *token == held
                        &&& final(self).states().token == (if r is Ok {
                            None
                        } else {
                            Some(*final(token))
                        })
                        &&& reply@ matches ReplyView::Restored(said) && says_host(r, said)
                    }
            },
            request@ matches RequestView::Resize(size) ==> {
                &&& final(self).states() == (PartyStates {
                    pty: final(self).states().pty,
                    surface: final(self).states().surface,
                    ..old(self).states()
                })
                &&& exists|pty: &mut Pty, to: Size, r: core::result::Result<(), Pty::Error>|
                    #![trigger call_ensures(Pty::resize, (pty, to), r)]
                    {
                        &&& call_ensures(Pty::resize, (pty, to), r)
                        &&& to == size
                        &&& *pty == old(self).states().pty
                        &&& *final(pty) == final(self).states().pty
                        &&& r is Err ==> final(self).states().surface == old(
                            self,
                        ).states().surface && (reply@ matches ReplyView::Resized(said)
                            && says_step(AttachStepKind::PtyResize, r, said))
                        &&& r is Ok ==> exists|
                            surface: &mut Surface,
                            answer: core::result::Result<(), Surface::Error>,
                        |
                            #![trigger call_ensures(Surface::resize, (surface, to), answer)]
                            {
                                &&& call_ensures(Surface::resize, (surface, to), answer)
                                &&& *surface == old(self).states().surface
                                &&& *final(surface) == final(self).states().surface
                                &&& reply@ matches ReplyView::Resized(said) && says_step(
                                    AttachStepKind::SurfaceResize,
                                    answer,
                                    said,
                                )
                            }
                    }
            },
            request@ is SendInput || request@ is Receive ==> final(self).states() == (PartyStates {
                pty: final(self).states().pty,
                ..old(self).states()
            }),
            request@ matches RequestView::SendInput(bytes) ==> exists|
                pty: &mut Pty,
                given: &[u8],
                r: core::result::Result<(), Pty::Error>,
            |
                #![trigger call_ensures(Pty::write_input, (pty, given), r)]
                {
                    &&& call_ensures(Pty::write_input, (pty, given), r)
                    &&& given@ == bytes
                    &&& *pty == old(self).states().pty
                    &&& *final(pty) == final(self).states().pty
                    &&& reply@ matches ReplyView::Sent(said) && says_step(
                        AttachStepKind::PtyWrite,
                        r,
                        said,
                    )
                },
            request@ is Receive ==> exists|
                pty: &mut Pty,
                r: core::result::Result<Option<PtyFrame>, Pty::Error>,
            |
                #![trigger call_ensures(Pty::try_recv, (pty,), r)]
                {
                    &&& call_ensures(Pty::try_recv, (pty,), r)
                    &&& *pty == old(self).states().pty
                    &&& *final(pty) == final(self).states().pty
                    &&& tells_frame(r, reply@)
                },
            request@ matches RequestView::Feed(bytes) ==> {
                &&& final(self).states() == (PartyStates {
                    surface: final(self).states().surface,
                    ..old(self).states()
                })
                &&& exists|
                    surface: &mut Surface,
                    given: &[u8],
                    r: core::result::Result<(), Surface::Error>,
                |
                    #![trigger call_ensures(Surface::feed_output, (surface, given), r)]
                    {
                        &&& call_ensures(Surface::feed_output, (surface, given), r)
                        &&& given@ == bytes
                        &&& *surface == old(self).states().surface
                        &&& *final(surface) == final(self).states().surface
                        &&& reply@ matches ReplyView::Fed(said) && says_step(
                            AttachStepKind::SurfaceFeed,
                            r,
                            said,
                        )
                    }
            },
    {
        let ghost before = self.states();
        let reply = match request {
            AttachRequest::TerminalSize => AttachReply::Size(
                match self.terminal.size() {
                    Ok(size) => Ok(size),
                    Err(error) => Err(rendered_text(&error)),
                },
            ),
            AttachRequest::ReadInput => AttachReply::Input(
                match self.terminal.read_stdin() {
                    Ok(chunk) => Ok(chunk),
                    Err(error) => Err(rendered_text(&error)),
                },
            ),
            AttachRequest::WriteOutput(bytes) => AttachReply::Output(
                match self.terminal.write_stdout(bytes.as_slice()) {
                    Ok(_) => Ok(()),
                    Err(error) => Err(rendered_text(&error)),
                },
            ),
            AttachRequest::Suspend(policy) => AttachReply::Suspended(
                match self.control.suspend_for_attach(*policy) {
                    Ok(token) => {
                        self.token = Some(token);
                        Ok(())
                    },
                    Err(error) => Err(rendered_text(&error)),
                },
            ),
            AttachRequest::Restore => AttachReply::Restored(self.restore()),
            AttachRequest::Resize(size) => AttachReply::Resized(self.resize(*size)),
            AttachRequest::SendInput(bytes) => AttachReply::Sent(
                match self.pty.write_input(bytes.as_slice()) {
                    Ok(_) => Ok(()),
                    Err(error) => Err(failed_step(AttachStepKind::PtyWrite, rendered_text(&error))),
                },
            ),
            AttachRequest::Receive => AttachReply::Received(
                match self.pty.try_recv() {
                    Ok(frame) => Ok(frame),
                    Err(error) => Err(failed_step(AttachStepKind::PtyRead, rendered_text(&error))),
                },
            ),
            AttachRequest::Feed(bytes) => AttachReply::Fed(
                match self.surface.feed_output(bytes.as_slice()) {
                    Ok(_) => Ok(()),
                    Err(error) => Err(failed_step(AttachStepKind::SurfaceFeed, rendered_text(&error))),
                },
            ),
            _ => AttachReply::Slept,
        };
        proof {
            self.calls@ = self.calls@.push(
                PartyCall {
                    exchange: Exchange { request: request@, reply: reply@ },
                    before,
                    after: self.states(),
                },
            );
        }
        reply
    }
}

/// The clock of a host: readings and pauses.
pub trait AttachClock {
    /// The current reading of a monotonic clock.
    fn reading(&mut self) -> Instant;

    /// Waits for the span to pass.
    fn pause(&mut self, span: Duration);
}

/// Reads a clock, once. With the reading come the states before and after.
pub fn ask_reading<Clock: AttachClock>(clock: &mut Clock) -> (out: (
    Instant,
    Ghost<(Clock, Clock)>,
))
    ensures
        out.1@ == (*old(clock), *final(clock)),
        exists|asked: &mut Clock, now: Instant|
            #![trigger call_ensures(Clock::reading, (asked,), now)]
            {
                &&& call_ensures(Clock::reading, (asked,), now)
                &&& now == out.0
                &&& *asked == out.1@.0
                &&& *final(asked) == out.1@.1
            },
{
    let ghost before = *clock;
    let now = clock.reading();
    (now, Ghost((before, *clock)))
}

/// Has a clock wait, once. The states before and after come back.
pub fn ask_pause<Clock: AttachClock>(clock: &mut Clock, span: Duration) -> (out: Ghost<
    (Clock, Clock),
>)
    ensures
        out@ == (*old(clock), *final(clock)),
        exists|asked: &mut Clock|
            #![trigger call_ensures(Clock::pause, (asked, span), ())]
            {
                &&& call_ensures(Clock::pause, (asked, span), ())
                &&& *asked == out@.0
                &&& *final(asked) == out@.1
            },
{
    let ghost before = *clock;
    clock.pause(span);
    Ghost((before, *clock))
}

/// Whether one reading turns a clock like this and gives this.
pub open spec fn clock_read<Clock: AttachClock>(
    before: Clock,
    after: Clock,
    now: Instant,
) -> bool {
    exists|clock: &mut Clock, out: (Instant, Ghost<(Clock, Clock)>)|
        #![trigger call_ensures(ask_reading::<Clock>, (clock,), out)]
        call_ensures(ask_reading::<Clock>, (clock,), out) && out.0 == now && out.1@ == (
            before,
            after,
        )
}

/// Whether one pause of this span turns a clock like this.
pub open spec fn clock_paused<Clock: AttachClock>(
    before: Clock,
    after: Clock,
    span: Duration,
) -> bool {
    exists|clock: &mut Clock, given: Duration, out: Ghost<(Clock, Clock)>|
        #![trigger call_ensures(ask_pause::<Clock>, (clock, given), out)]
        call_ensures(ask_pause::<Clock>, (clock, given), out) && given == span && out@ == (
            before,
            after,
        )
}

/// A reading is one call on the clock, which is then as the call left it.
pub proof fn law_clock_read<Clock: AttachClock>(before: Clock, after: Clock, now: Instant)
    requires
        clock_read(before, after, now),
    ensures
        exists|asked: &mut Clock, answer: Instant|
            #![trigger call_ensures(Clock::reading, (asked,), answer)]
            {
                &&& call_ensures(Clock::reading, (asked,), answer)
                &&& answer == now
                &&& *asked == before
                &&& *final(asked) == after
            },
{
}

/// A pause is one call on the clock, which is then as the call left it.
pub proof fn law_clock_paused<Clock: AttachClock>(before: Clock, after: Clock, span: Duration)
    requires
        clock_paused(before, after, span),
    ensures
        exists|asked: &mut Clock, given: Duration|
            #![trigger call_ensures(Clock::pause, (asked, given), ())]
            {
                &&& call_ensures(Clock::pause, (asked, given), ())
                &&& given == span
                &&& *asked == before
                &&& *final(asked) == after
            },
{
}

/// A blocking attach session as plain values.
pub ghost struct SessionView {
    pub pane: PaneId,
    pub options: AttachOptions,
    pub embedded_size: Size,
    pub poll_interval: Duration,
    pub stage: AttachState,
    pub seq: u64,
    pub events: Seq<EventEntry>,
    pub attach: Option<LoopView>,
}

impl SessionView {
    /// The event that a note gives rise to, if any.
    pub open spec fn event_of(self, note: NoteView) -> Option<EventView> {
        match note {
            NoteView::Started { terminal_size } => Some(
                EventView::AttachStarted(
                    AttachStartedEvent {
                        terminal_size,
                        embedded_size: self.embedded_size,
                        screen_policy: self.options.screen,
                    },
                ),
            ),
            NoteView::Resized(size) => Some(EventView::Resized(ResizedEvent { size })),
            NoteView::InputSent(len) => Some(
                EventView::InputSent(
                    InputSentEvent {
                        input_kind: InputKind::Bytes,
                        bytes_len: len as usize,
                        recorded: false,
                    },
                ),
            ),
            NoteView::Failed(failure) => Some(EventView::Error(failure.pane_error())),
            NoteView::Ended { reason, nanos } => Some(
                EventView::AttachEnded(
                    AttachEndedEvent {
                        reason,
                        restored_size: self.embedded_size,
                        duration: Duration { nanos: nanos as u128 },
                    },
                ),
            ),
            NoteView::ChildExited(_) => None,
            NoteView::ChildFault(_) => None,
            NoteView::OutputLost { .. } => None,
        }
    }

    /// The session after an event: the event has the next sequence number.
    pub open spec fn logged(self, kind: EventView) -> SessionView {
        let seq = (self.seq + 1) as u64;
        SessionView {
            seq,
            events: self.events.push(EventEntry { pane: self.pane, seq, kind }),
            ..self
        }
    }

    /// The session after a note.
    pub open spec fn noted(self, note: NoteView) -> SessionView {
        match self.event_of(note) {
            Some(kind) => self.logged(kind),
            None => self,
        }
    }

    /// The session after a row of notes.
    pub open spec fn noted_all(self, notes: Seq<NoteView>) -> SessionView
        decreases notes.len(),
    {
        if notes.len() == 0 {
            self
        } else {
            self.noted_all(notes.drop_last()).noted(notes.last())
        }
    }

    /// The session after a step of its attach: the notes are logged, the
    /// lifecycle follows, and a finished attach is put away.
    pub open spec fn stepped(
        self,
        state: LoopView,
        notes: Seq<NoteView>,
        request: RequestView,
    ) -> SessionView {
        SessionView {
            stage: state.stage,
            attach: if request is Finished {
                None
            } else {
                Some(state)
            },
            ..self.noted_all(notes)
        }
    }

    /// Whether the session is in order.
    pub open spec fn valid(self) -> bool {
        match self.attach {
            Some(attach) => {
                &&& attach.valid()
                &&& !attach.managed
                &&& attach.phase != AttachPhase::Idle
                &&& attach.phase != AttachPhase::Done
                &&& attach.stage == self.stage
            },
            None => self.stage == AttachState::Embedded,
        }
    }
}

/// How a session stands: the session, its open request, and what the parties
/// have carried out so far.
pub ghost struct SessionScene<Clock> {
    pub session: SessionView,
    pub request: RequestView,
    pub asked: Seq<Exchange>,
    pub clock: Clock,
}

/// Whether a reply is what a request of a session comes to: the parties carry
/// it out, or the clock is read or waits.
pub open spec fn session_served<Clock: AttachClock>(
    reply: ReplyView,
    after: Seq<Exchange>,
    clock: Clock,
    before: SessionScene<Clock>,
) -> bool {
    &&& answers(reply, before.request, false)
    &&& if for_parties(before.request) {
        after == before.asked.push(Exchange { request: before.request, reply }) && clock
            == before.clock
    } else {
        after == before.asked && match before.request {
            RequestView::Clock => reply matches ReplyView::Clock(now) && clock_read(
                before.clock,
                clock,
                now,
            ),
            RequestView::Sleep(span) => clock_paused(before.clock, clock, span),
            _ => clock == before.clock,
        }
    }
}

/// What one request of a session comes to: it is served, and the session goes
/// on with the reply.
pub open spec fn session_steps<Clock: AttachClock>(
    after: SessionScene<Clock>,
    before: SessionScene<Clock>,
) -> bool {
    exists|reply: ReplyView|
        {
            let step = before.session.attach->0.after(reply);
            &&& #[trigger] session_served::<Clock>(
                    reply,
                    after.asked,
                    after.clock,
                    before,
                )
            &&& after.session == before.session.stepped(step.state, step.notes, step.request)
            &&& after.request == step.request
        }
}

/// Whether a scene comes of the open request of the one before it.
pub open spec fn session_linked<Clock: AttachClock>(scenes: Seq<SessionScene<Clock>>, i: int) -> bool {
    !(scenes[i].request is Finished) && session_steps::<Clock>(scenes[i + 1], scenes[i])
}

/// Whether each scene comes of the open request of the one before it.
pub open spec fn session_chain<Clock: AttachClock>(scenes: Seq<SessionScene<Clock>>) -> bool {
    forall|i: int| 0 <= i < scenes.len() - 1 ==> #[trigger] session_linked::<Clock>(scenes, i)
}

/// What `count` requests of a session come to, one after the other.
#[verifier::opaque]
pub open spec fn session_driven<Clock: AttachClock>(
    last: SessionScene<Clock>,
    first: SessionScene<Clock>,
    count: nat,
) -> bool {
    exists|scenes: Seq<SessionScene<Clock>>|
        {
            &&& #[trigger] session_chain::<Clock>(scenes)
            &&& scenes.len() == count + 1
            &&& scenes.first() == first
            &&& scenes.last() == last
        }
}

proof fn lemma_session_idle<Clock: AttachClock>(first: SessionScene<Clock>)
    ensures
        session_driven::<Clock>(first, first, 0),
{
    reveal(session_driven);
    assert(session_chain::<Clock>(seq![first]));
}

proof fn lemma_session_driven<Clock: AttachClock>(
    last: SessionScene<Clock>,
    middle: SessionScene<Clock>,
    first: SessionScene<Clock>,
    count: nat,
)
    requires
        session_driven::<Clock>(middle, first, count),
        !(middle.request is Finished),
        session_steps::<Clock>(last, middle),
    ensures
        session_driven::<Clock>(last, first, count + 1),
{
    reveal(session_driven);
    let scenes = choose|scenes: Seq<SessionScene<Clock>>|
        {
            &&& #[trigger] session_chain::<Clock>(scenes)
            &&& scenes.len() == count + 1
            &&& scenes.first() == first
            &&& scenes.last() == middle
        };
    let longer = scenes.push(last);
    assert forall|i: int| 0 <= i < longer.len() - 1 implies #[trigger] session_linked::<Clock>(
        longer,
        i,
    ) by {
        if i < scenes.len() - 1 {
            assert(session_linked::<Clock>(scenes, i));
        }
    }
    assert(session_chain::<Clock>(longer));
}

pub(crate) proof fn lemma_calls_connect<States>(
    calls: Seq<PartyCall<States>>,
    first: States,
    middle: States,
    call: PartyCall<States>,
)
    requires
        calls_connect(calls, first, middle),
        call.before == middle,
    ensures
        calls_connect(calls.push(call), first, call.after),
{
    let longer = calls.push(call);
    assert forall|i: int| 0 < i < longer.len() implies (#[trigger] longer[i]).before == longer[i
        - 1].after by {
        if i < calls.len() {
            assert(longer[i] == calls[i]);
        }
    }
}

pub(crate) proof fn lemma_calls_go_on<States>(
    early: Seq<PartyCall<States>>,
    late: Seq<PartyCall<States>>,
    first: States,
    middle: States,
    last: States,
)
    requires
        calls_connect(early, first, middle),
        calls_connect(late, middle, last),
    ensures
        calls_connect(early + late, first, last),
{
    let all = early + late;
    if early.len() == 0 {
        assert(all =~= late);
    } else if late.len() == 0 {
        assert(all =~= early);
    } else {
        assert forall|i: int| 0 < i < all.len() implies (#[trigger] all[i]).before == all[i
            - 1].after by {
            if i < early.len() {
                assert(all[i] == early[i]);
            } else if i > early.len() {
                assert(all[i] == late[i - early.len()]);
            }
        }
    }
}

/// Whether a scene is the first one of a blocking attach of a session.
pub open spec fn session_opening<Clock>(scene: SessionScene<Clock>, session: SessionView) -> bool {
    session_opens(scene.session, scene.request, session)
}

/// Whether a session has begun a blocking attach with this request.
pub open spec fn session_opens(
    started: SessionView,
    request: RequestView,
    session: SessionView,
) -> bool {
    let begun = started.attach->0;
    &&& request == RequestView::TerminalSize
    &&& started == (SessionView { attach: Some(begun), ..session })
    &&& begun.options.same(session.options)
    &&& begun == LoopView::fresh(
        begun.options,
        false,
        session.embedded_size,
        session.poll_interval,
    ).begun().state
}

/// How far a blocking attach has come.
#[derive(Debug, PartialEq, Eq)]
pub enum SessionProgress {
    /// It has ended.
    Ended(core::result::Result<BlockingAttachOutcome, BlockingAttachError>),
    /// It is under way, and a request is open.
    Open(AttachRequest),
}

impl SessionProgress {
    /// Whether an open request says as much.
    pub open spec fn tells(self, request: RequestView) -> bool {
        match self {
            SessionProgress::Ended(Ok(outcome)) => request == RequestView::Finished(Ok(outcome@)),
            SessionProgress::Ended(Err(error)) => request == RequestView::Finished(Err(error@)),
            SessionProgress::Open(open) => !(open@ is Finished) && request == open@,
        }
    }
}

/// Logging never loses or renumbers what was logged before: the events of a
/// session stay a beginning of its later events, and each further one has the
/// next number.
pub proof fn law_session_events_are_contiguous(session: SessionView, notes: Seq<NoteView>)
    requires
        session.seq + notes.len() <= u64::MAX,
    ensures
        ({
            let later = session.noted_all(notes);
            &&& session.events.len() <= later.events.len() <= session.events.len() + notes.len()
            &&& later.events.take(session.events.len() as int) == session.events
            &&& later.seq == session.seq + (later.events.len() - session.events.len())
            &&& forall|i: int|
                session.events.len() <= i < later.events.len() ==> (
                #[trigger] later.events[i]).seq == session.seq + (i - session.events.len()) + 1
                    && later.events[i].pane == session.pane
            &&& later.pane == session.pane
            &&& later.options == session.options
            &&& later.embedded_size == session.embedded_size
            &&& later.poll_interval == session.poll_interval
            &&& later.stage == session.stage
            &&& later.attach == session.attach
        }),
    decreases notes.len(),
{
    if notes.len() == 0 {
        assert(session.events.take(session.events.len() as int) =~= session.events);
    } else {
        law_session_events_are_contiguous(session, notes.drop_last());
        let before = session.noted_all(notes.drop_last());
        let later = session.noted_all(notes);
        assert(later.events.take(session.events.len() as int) =~= before.events.take(
            session.events.len() as int,
        ));
    }
}

/// What a session tells of: that it started, with the size of the terminal and
/// the one it will give back, each resize, how much input was sent, each
/// failure, and that it ended, when and why. What becomes of the child it leaves
/// to others to tell.
pub proof fn law_sessions_tell(session: SessionView, note: NoteView)
    requires
        session.seq < u64::MAX,
    ensures
        ({
            let next = session.noted(note);
            let told = next.events.last().kind;
            let silent = note is ChildExited || note is ChildFault || note is OutputLost;
            &&& silent ==> next == session
            &&& !silent ==> {
                &&& next.events.len() == session.events.len() + 1
                &&& next.events.drop_last() == session.events
                &&& next.seq == session.seq + 1
                &&& next.events.last().seq == next.seq && next.events.last().pane == session.pane
            }
            &&& note matches NoteView::Started { terminal_size } ==> told
                == EventView::AttachStarted(
                AttachStartedEvent {
                    terminal_size,
                    embedded_size: session.embedded_size,
                    screen_policy: session.options.screen,
                },
            )
            &&& note matches NoteView::Resized(size) ==> (told matches EventView::Resized(event)
                && event.size == size)
            &&& note matches NoteView::InputSent(len) ==> (told matches EventView::InputSent(event)
                && event.bytes_len == len as usize && event.input_kind == InputKind::Bytes
                && !event.recorded)
            &&& note matches NoteView::Failed(failure) ==> told == EventView::Error(
                failure.pane_error(),
            )
            &&& note matches NoteView::Ended { reason, nanos } ==> told == EventView::AttachEnded(
                AttachEndedEvent {
                    reason,
                    restored_size: session.embedded_size,
                    duration: Duration { nanos: nanos as u128 },
                },
            )
        }),
{
    if session.event_of(note) is Some {
        assert(session.noted(note).events.drop_last() =~= session.events);
    }
}

/// Notes are told of in their order: those of one row and then of another as
/// those of both rows.
pub proof fn law_notes_are_told_in_turn(
    session: SessionView,
    first: Seq<NoteView>,
    second: Seq<NoteView>,
)
    ensures
        session.noted_all(first + second) == session.noted_all(first).noted_all(second),
        session.noted_all(seq![]) == session,
    decreases second.len(),
{
    let both = first + second;
    if second.len() == 0 {
        assert(both =~= first);
    } else {
        law_notes_are_told_in_turn(session, first, second.drop_last());
        assert(both.drop_last() =~= first + second.drop_last());
        assert(both.last() == second.last());
    }
}

/// A session follows its attach: it is at the stage that the attach has come
/// to, and lets go of an attach that is finished and of no other.
pub proof fn law_sessions_follow(
    session: SessionView,
    state: LoopView,
    notes: Seq<NoteView>,
    request: RequestView,
)
    requires
        session.seq + notes.len() <= u64::MAX,
    ensures
        ({
            let next = session.stepped(state, notes, request);
            &&& next.stage == state.stage
            &&& request is Finished ==> next.attach is None
            &&& !(request is Finished) ==> next.attach == Some(state)
            &&& next.events == session.noted_all(notes).events
            &&& next.pane == session.pane && next.options == session.options
            &&& next.embedded_size == session.embedded_size
            &&& next.poll_interval == session.poll_interval
        }),
{
    law_session_events_are_contiguous(session, notes);
}

/// What a reply to a session says of an answer: what was answered, as it is, or
/// that the step failed.
pub proof fn law_replies_say_the_answer<E: std::fmt::Debug>(
    sized: core::result::Result<Size, E>,
    read: core::result::Result<Option<AttachInputChunk>, E>,
    received: core::result::Result<Option<PtyFrame>, E>,
    done: core::result::Result<(), E>,
    kind: AttachStepKind,
    reply: ReplyView,
    said: core::result::Result<(), FailureView>,
)
    ensures
        tells_size(sized, reply) ==> match sized {
            Ok(size) => reply == ReplyView::Size(Ok(size)),
            Err(_) => reply matches ReplyView::Size(Err(_)),
        },
        tells_input(read, reply) ==> match read {
            Ok(None) => reply == ReplyView::Input(Ok(None)),
            Ok(Some(chunk)) => reply == ReplyView::Input(Ok(Some((chunk.at, chunk.bytes@)))),
            Err(_) => reply matches ReplyView::Input(Err(_)),
        },
        tells_frame(received, reply) ==> match received {
            Ok(frame) => reply == ReplyView::Received(Ok(crate::calls::opt_frame(frame))),
            Err(_) => reply matches ReplyView::Received(Err(FailureView::Step { kind: k, .. })) && k
                == AttachStepKind::PtyRead,
        },
        says_step(kind, done, said) ==> match done {
            Ok(_) => said is Ok,
            Err(_) => said matches Err(FailureView::Step { kind: k, .. }) && k == kind,
        },
{
}

/// Whether events are numbered one after the other, from the number after
/// `seq` on.
pub open spec fn numbered_after(events: Seq<EventEntry>, seq: int) -> bool {
    forall|i: int| 0 <= i < events.len() ==> (#[trigger] events[i]).seq == seq + i + 1
}

/// Numbering goes on over drains: what was drained and what is logged after it
/// are numbered without a gap or a repeat, as the counter is kept.
pub proof fn law_numbering_survives_drains(
    drained: Seq<EventEntry>,
    later: Seq<EventEntry>,
    seq: int,
)
    requires
        numbered_after(drained, seq),
        numbered_after(later, seq + drained.len()),
    ensures
        numbered_after(drained + later, seq),
        forall|i: int, j: int|
            0 <= i < j < (drained + later).len() ==> (#[trigger] (drained + later)[i]).seq < (
            #[trigger] (drained + later)[j]).seq,
{
    let all = drained + later;
    assert forall|i: int| 0 <= i < all.len() implies (#[trigger] all[i]).seq == seq + i + 1 by {
        if i < drained.len() {
            assert(all[i] == drained[i]);
        } else {
            assert(all[i] == later[i - drained.len()]);
        }
    }
}

/// Whether an exchange suspended the terminal.
pub open spec fn suspended_well(exchange: Exchange) -> bool {
    exchange.request is Suspend && exchange.reply matches ReplyView::Suspended(Ok(_))
}

/// Whether an exchange restored the terminal.
pub open spec fn restored_well(exchange: Exchange) -> bool {
    exchange.request is Restore && exchange.reply matches ReplyView::Restored(Ok(_))
}

/// Whether the terminal was suspended at a place, and from `from` on at no
/// other.
pub open spec fn taken_at(asked: Seq<Exchange>, from: int, i: int) -> bool {
    &&& 0 <= from <= i < asked.len()
    &&& suspended_well(asked[i])
    &&& forall|k: int| from <= k < asked.len() && k != i ==> !suspended_well(#[trigger] asked[k])
}

/// Whether the terminal was suspended once, and restored after that.
pub open spec fn taken_and_given_back(
    asked: Seq<Exchange>,
    from: int,
    i: int,
    j: int,
) -> bool {
    taken_at(asked, from, i) && i < j < asked.len() && restored_well(asked[j])
}

/// Whether the terminal was suspended once, and it was tried to restore it
/// after that.
pub open spec fn taken_and_offered_back(
    asked: Seq<Exchange>,
    from: int,
    i: int,
    j: int,
) -> bool {
    taken_at(asked, from, i) && i < j < asked.len() && asked[j].request is Restore
}

/// Whether what was asked since `from` made of the terminal what a loop takes
/// it for.
pub open spec fn made_of_host(asked: Seq<Exchange>, from: int, host: HostTerminal) -> bool {
    &&& 0 <= from <= asked.len()
    &&& match host {
        HostTerminal::Untouched => forall|k: int|
            from <= k < asked.len() ==> !suspended_well(#[trigger] asked[k]),
        HostTerminal::Suspended => exists|i: int| taken_at(asked, from, i),
        HostTerminal::Restored => exists|i: int, j: int| taken_and_given_back(asked, from, i, j),
        HostTerminal::Abandoned => exists|i: int, j: int|
            taken_and_offered_back(asked, from, i, j),
    }
}

proof fn lemma_taken_later(asked: Seq<Exchange>, from: int, i: int, next: Exchange)
    requires
        taken_at(asked, from, i),
        !suspended_well(next),
    ensures
        taken_at(asked.push(next), from, i),
{
    let longer = asked.push(next);
    assert forall|k: int| from <= k < longer.len() && k != i implies !suspended_well(
        #[trigger] longer[k],
    ) by {
        if k < asked.len() {
            assert(longer[k] == asked[k]);
        }
    }
}

pub(crate) proof fn lemma_made_of_host(
    asked: Seq<Exchange>,
    from: int,
    state: LoopView,
    request: RequestView,
    reply: ReplyView,
)
    requires
        state.valid(),
        state.awaits(reply),
        answers(reply, request, state.managed),
        made_of_host(asked, from, state.host),
    ensures
        made_of_host(asked.push(Exchange { request, reply }), from, state.after(reply).state.host),
        !(request is Suspend) && !(request is Restore) ==> made_of_host(
            asked,
            from,
            state.after(reply).state.host,
        ),
{
    crate::attach_plan::law_terminal_follows_its_control(state, reply);
    let next = Exchange { request, reply };
    let longer = asked.push(next);
    let host = state.after(reply).state.host;
    let n = asked.len() as int;
    assert forall|k: int| 0 <= k < n implies #[trigger] longer[k] == asked[k] by {}
    assert(longer[n] == next);
    if suspended_well(next) {
        assert(taken_at(longer, from, n));
    } else {
        match state.host {
            HostTerminal::Untouched => {},
            HostTerminal::Suspended => {
                let i = choose|i: int| taken_at(asked, from, i);
                lemma_taken_later(asked, from, i, next);
                if host == HostTerminal::Restored {
                    assert(taken_and_given_back(longer, from, i, n));
                } else if host == HostTerminal::Abandoned {
                    assert(taken_and_offered_back(longer, from, i, n));
                }
            },
            HostTerminal::Restored => {
                let (i, j) = choose|i: int, j: int| taken_and_given_back(asked, from, i, j);
                lemma_taken_later(asked, from, i, next);
                assert(taken_and_given_back(longer, from, i, j));
            },
            HostTerminal::Abandoned => {
                let (i, j) = choose|i: int, j: int| taken_and_offered_back(asked, from, i, j);
                lemma_taken_later(asked, from, i, next);
                assert(taken_and_offered_back(longer, from, i, j));
            },
        }
    }
}

/// Whether a scene is under way, and what was asked since `from` made of the
/// terminal what its loop takes it for.
pub open spec fn well_under_way<Clock>(scene: SessionScene<Clock>, from: int) -> bool {
    &&& scene.session.attach is Some
    &&& scene.session.attach->0.valid()
    &&& !scene.session.attach->0.managed
    &&& forall|reply: ReplyView| #[trigger]
        answers(reply, scene.request, false) ==> scene.session.attach->0.awaits(reply)
    &&& made_of_host(scene.asked, from, scene.session.attach->0.host)
}

/// Whether an attach has come to its end, and the terminal was dealt with as it
/// should be: with a good end it was suspended once and restored; with a
/// failure it was never suspended, or it was at least tried to restore it.
pub open spec fn gave_back(asked: Seq<Exchange>, from: int, request: RequestView) -> bool {
    &&& request is Finished
    &&& request matches RequestView::Finished(Ok(_)) ==> made_of_host(
        asked,
        from,
        HostTerminal::Restored,
    )
    &&& made_of_host(asked, from, HostTerminal::Untouched) || made_of_host(
        asked,
        from,
        HostTerminal::Restored,
    ) || made_of_host(asked, from, HostTerminal::Abandoned)
}

proof fn lemma_under_way<Clock: AttachClock>(scenes: Seq<SessionScene<Clock>>, from: int, k: int)
    requires
        session_chain::<Clock>(scenes),
        0 <= k < scenes.len(),
        well_under_way(scenes[0], from),
        !(scenes[0].request is Finished),
    ensures
        if scenes[k].request is Finished {
            gave_back(scenes[k].asked, from, scenes[k].request) && scenes[k].session.stage
                == AttachState::Embedded
        } else {
            well_under_way(scenes[k], from)
        },
    decreases k,
{
    if k > 0 {
        lemma_under_way::<Clock>(scenes, from, k - 1);
        assert(session_linked::<Clock>(scenes, k - 1));
        let before = scenes[k - 1];
        let after = scenes[k];
        let reply = choose|reply: ReplyView|
            {
                let step = before.session.attach->0.after(reply);
                &&& #[trigger] session_served::<Clock>(
                    reply,
                    after.asked,
                    after.clock,
                    before,
                )
                &&& after.session == before.session.stepped(step.state, step.notes, step.request)
                &&& after.request == step.request
            };
        let state = before.session.attach->0;
        crate::attach_plan::law_attach_loop_stays_valid(state, reply);
        crate::attach_plan::law_attach_advances(state, reply);
        crate::attach_plan::law_attach_ends_embedded(state, reply);
        lemma_made_of_host(before.asked, from, state, before.request, reply);
    }
}

/// A session that ends gives the terminal back. One that ends well has
/// suspended it once and restored it after that. One that fails has never
/// suspended it, or has suspended it once and tried to restore it after that.
pub proof fn law_ended_sessions_give_the_terminal_back<Clock: AttachClock>(
    last: SessionScene<Clock>,
    first: SessionScene<Clock>,
    count: nat,
    session: SessionView,
)
    requires
        session_opening(first, session),
        first.session.valid(),
        first.session.attach is Some,
        session_driven::<Clock>(last, first, count),
        last.request is Finished,
    ensures
        gave_back(last.asked, first.asked.len() as int, last.request),
        last.session.stage == AttachState::Embedded,
{
    reveal(session_driven);
    let scenes = choose|scenes: Seq<SessionScene<Clock>>|
        {
            &&& #[trigger] session_chain::<Clock>(scenes)
            &&& scenes.len() == count + 1
            &&& scenes.first() == first
            &&& scenes.last() == last
        };
    let from = first.asked.len() as int;
    assert(well_under_way(scenes[0], from));
    lemma_under_way::<Clock>(scenes, from, count as int);
}

/// Blocking attach runner for synchronous host applications.
///
/// The runner performs no I/O: [`start`](Self::start) and
/// [`advance`](Self::advance) name what is needed next, and
/// [`AttachParties::carry_out`] does it.
#[derive(Debug, PartialEq, Eq)]
pub struct BlockingAttachSession {
    bridge: AttachBridge,
    embedded_size: Size,
    poll_interval: Duration,
    next_event_seq: u64,
    events: VecDeque<PaneEvent>,
    attach: Option<AttachLoop>,
}

impl View for BlockingAttachSession {
    type V = SessionView;

    closed spec fn view(&self) -> SessionView {
        SessionView {
            pane: self.bridge.pane(),
            options: self.bridge.opts(),
            embedded_size: self.embedded_size,
            poll_interval: self.poll_interval,
            stage: self.bridge.stage(),
            seq: self.next_event_seq,
            events: entries(self.events@),
            attach: match self.attach {
                Some(attach) => Some(attach@),
                None => None,
            },
        }
    }
}

impl BlockingAttachSession {
    /// The events that have not been drained yet, with their times.
    pub closed spec fn pending(self) -> Seq<PaneEvent> {
        self.events@
    }

    /// Creates a new blocking attach session for the given pane.
    pub fn new(
        pane_id: PaneId,
        options: AttachOptions,
        embedded_size: Size,
        initial_event_seq: u64,
    ) -> (session: Self)
        ensures
            session@ == (SessionView {
                pane: pane_id,
                options,
                embedded_size,
                poll_interval: Duration { nanos: 10_000_000 },
                stage: AttachState::Embedded,
                seq: initial_event_seq,
                events: seq![],
                attach: None,
            }),
            session@.valid(),
    {
        let session = BlockingAttachSession {
            bridge: AttachBridge::with_options(pane_id, options),
            embedded_size,
            poll_interval: Duration::from_millis(10),
            next_event_seq: initial_event_seq,
            events: VecDeque::new(),
            attach: None,
        };
        assert(session@.events =~= seq![]);
        session
    }

    /// Overrides the idle poll interval used while attached. Intervals under a
    /// millisecond are raised to one.
    pub fn with_poll_interval(self, poll_interval: Duration) -> (session: Self)
        ensures
            session@ == (SessionView {
                poll_interval: if poll_interval.nanos < 1_000_000 {
                    Duration { nanos: 1_000_000 }
                } else {
                    poll_interval
                },
                ..self@
            }),
    {
        let mut session = self;
        session.poll_interval = if poll_interval.nanos < 1_000_000 {
            Duration { nanos: 1_000_000 }
        } else {
            poll_interval
        };
        session
    }

    /// Returns the pane identifier for this session.
    pub fn pane_id(&self) -> (id: PaneId)
        ensures
            id == self@.pane,
    {
        self.bridge.pane_id()
    }

    /// Returns the configured embedded size restored on detach.
    pub fn embedded_size(&self) -> (size: Size)
        ensures
            size == self@.embedded_size,
    {
        self.embedded_size
    }

    /// Returns the current attach bridge state.
    pub fn state(&self) -> (state: AttachState)
        ensures
            state == self@.stage,
    {
        self.bridge.state()
    }

    /// Returns the current event sequence counter.
    ///
    /// Callers creating a new session for the same pane should pass this value
    /// back into [`BlockingAttachSession::new`] so attach telemetry stays
    /// monotonic within the pane-scoped event stream.
    pub fn last_event_seq(&self) -> (seq: u64)
        ensures
            seq == self@.seq,
    {
        self.next_event_seq
    }

    /// Drains any queued attach telemetry events into `out` in emission order.
    pub fn drain_events(&mut self, out: &mut Vec<PaneEvent>)
        ensures
            final(self)@ == (SessionView { events: seq![], ..old(self)@ }),
            final(self).pending() == Seq::<PaneEvent>::empty(),
            entries(old(self).pending()) == old(self)@.events,
            final(out)@ == old(out)@ + old(self).pending(),
    {
        let ghost before = self@;
        let ghost given = out@;
        let ghost queued = self.events@;
        let ghost mut moved: int = 0;
        proof {
            assert(given + queued.take(0) =~= given);
            assert(queued.skip(0) =~= queued);
        }
        while self.events.len() > 0
            invariant
                0 <= moved <= queued.len(),
                self.events@ == queued.skip(moved),
                out@ == given + queued.take(moved),
                self@ == (SessionView { events: entries(self.events@), ..before }),
            decreases self.events@.len(),
        {
            if let Some(event) = self.events.pop_front() {
                out.push(event);
                proof {
                    assert(event == queued[moved]);
                    assert(queued.skip(moved).skip(1) =~= queued.skip(moved + 1));
                    assert(out@ =~= given + queued.take(moved + 1));
                    moved = moved + 1;
                }
            }
        }
        proof {
            assert(moved == queued.len());
            assert(queued.take(moved) =~= queued);
            assert(self.events@ =~= Seq::empty());
            assert(entries(self.events@) =~= seq![]);
        }
    }

    fn push_event(&mut self, kind: PaneEventKind)
        requires
            old(self)@.seq < u64::MAX,
        ensures
            goes_on(final(self).pending(), old(self).pending()),
            final(self)@ == old(self)@.logged(kind@),
    {
        self.next_event_seq = self.next_event_seq + 1;
        let ghost queue = self.events@;
        self.events.push_back(
            PaneEvent {
                pane_id: self.bridge.pane_id(),
                seq: self.next_event_seq,
                at: SystemTime::now(),
                kind,
            },
        );
        assert(entries(self.events@) =~= entries(queue).push(self.events@.last().entry()));
    }

    fn take_note(&mut self, note: &AttachNote)
        requires
            old(self)@.seq < u64::MAX,
        ensures
            goes_on(final(self).pending(), old(self).pending()),
            final(self)@ == old(self)@.noted(note@),
    {
        match note {
            AttachNote::Started { terminal_size } => {
                let event = AttachStartedEvent {
                    terminal_size: *terminal_size,
                    embedded_size: self.embedded_size,
                    screen_policy: self.bridge.options().screen,
                };
                self.push_event(PaneEventKind::AttachStarted(event));
            },
            AttachNote::Resized(size) => {
                self.push_event(PaneEventKind::Resized(ResizedEvent { size: *size }));
            },
            AttachNote::InputSent(bytes_len) => {
                let event = InputSentEvent {
                    input_kind: InputKind::Bytes,
                    bytes_len: *bytes_len,
                    recorded: false,
                };
                self.push_event(PaneEventKind::InputSent(event));
            },
            AttachNote::Failed(failure) => {
                let error = attach_failure_to_pane_error(failure);
                self.push_event(PaneEventKind::Error(ErrorEvent { error }));
            },
            AttachNote::Ended { reason, duration } => {
                let event = AttachEndedEvent {
                    reason: *reason,
                    restored_size: self.embedded_size,
                    duration: *duration,
                };
                self.push_event(PaneEventKind::AttachEnded(event));
            },
            AttachNote::ChildExited(_) | AttachNote::ChildFault(_)
            | AttachNote::OutputLost { .. } => {},
        }
    }

    fn take_notes(&mut self, notes: &Vec<AttachNote>)
        requires
            old(self)@.seq + notes@.len() <= u64::MAX,
        ensures
            goes_on(final(self).pending(), old(self).pending()),
            final(self)@ == old(self)@.noted_all(note_views(notes@)),
    {
        let ghost before = self@;
        let ghost all = note_views(notes@);
        let mut i: usize = 0;
        while i < notes.len()
            invariant
                goes_on(self.pending(), old(self).pending()),
                i <= notes@.len(),
                all == note_views(notes@),
                before.seq + notes@.len() <= u64::MAX,
                self@ == before.noted_all(all.take(i as int)),
            decreases notes@.len() - i,
        {
            proof {
                law_session_events_are_contiguous(before, all.take(i as int));
                assert(all.take(i + 1).drop_last() =~= all.take(i as int));
                assert(all.take(i + 1).last() == notes@[i as int]@);
            }
            self.take_note(&notes[i]);
            i = i + 1;
        }
        assert(all.take(i as int) =~= all);
    }

    /// Starts a blocking attach. The session asks for the terminal size first.
    pub fn start(&mut self) -> (request: AttachRequest)
        requires
            old(self)@.valid(),
            old(self)@.attach is None,
        ensures
            goes_on(final(self).pending(), old(self).pending()),
            final(self)@.valid(),
            forall|reply: ReplyView| #[trigger]
                answers(reply, request@, false) ==> final(self)@.attach->0.awaits(reply),
            session_opens(final(self)@, request@, old(self)@),
    {
        let mut attach = AttachLoop::new(
            self.bridge.options().clone(),
            false,
            self.embedded_size,
            self.poll_interval,
        );
        let step = attach.begin();
        self.attach = Some(attach);
        step.request
    }

    /// Goes on with what came back from the last request. Events are logged on
    /// the way, two at most.
    pub fn advance(&mut self, reply: AttachReply) -> (request: AttachRequest)
        requires
            old(self)@.valid(),
            old(self)@.attach is Some,
            old(self)@.attach->0.awaits(reply@),
            old(self)@.seq <= u64::MAX - 2,
        ensures
            goes_on(final(self).pending(), old(self).pending()),
            final(self)@.valid(),
            !(request@ is Finished) ==> final(self)@.attach is Some && forall|next: ReplyView|
                #[trigger]
                answers(next, request@, false) ==> final(self)@.attach->0.awaits(next),
            request@ matches RequestView::Finished(Err(failure)) ==> crate::attach_plan::failure_fits(
                failure,
                false,
            ),
            ({
                let step = old(self)@.attach->0.after(reply@);
                &&& final(self)@ == old(self)@.stepped(step.state, step.notes, step.request)
                &&& request@ == step.request
            }),
    {
        let ghost before = self@;
        let ghost next = before.attach->0.after(reply@);
        proof {
            crate::attach_plan::law_attach_advances(before.attach->0, reply@);
        }
        let taken = self.attach.take();
        match taken {
            None => AttachRequest::Clock,
            Some(mut attach) => {
                let ghost waiting = self@;
                let step = attach.advance(reply);
                let stage = attach.stage();
                assert(step.notes@.len() == note_views(step.notes@).len());
                self.take_notes(&step.notes);
                proof {
                    law_session_events_are_contiguous(waiting, next.notes);
                    law_session_events_are_contiguous(before, next.notes);
                    lemma_notes_ignore_attach(before, None, next.notes);
                }
                self.bridge.follow(stage);
                let finished = match &step.request {
                    AttachRequest::Finished(_) => true,
                    _ => false,
                };
                if !finished {
                    self.attach = Some(attach);
                }
                step.request
            },
        }
    }

    /// Carries out `request` and what the session needs after it, `limit`
    /// requests at most, and returns the request that is then open.
    ///
    /// A request that is not finished can be handed in again. Driving also
    /// stops, with the request still open, when the event counter has no room
    /// for another step.
    pub fn drive<
        Terminal: AttachTerminal,
        Pty: AttachPtyEndpoint,
        Surface: AttachSurfaceSink,
        Control: HostTerminalControl,
        Clock: AttachClock,
    >(
        &mut self,
        parties: &mut AttachParties<'_, Terminal, Pty, Surface, Control>,
        clock: &mut Clock,
        request: AttachRequest,
        limit: u64,
    ) -> (open: AttachRequest)
        requires
            old(self)@.valid(),
            !(request@ is Finished) ==> old(self)@.attach is Some && forall|reply: ReplyView|
                #[trigger]
                answers(reply, request@, false) ==> old(self)@.attach->0.awaits(reply),
            !(request@ is Measure) && !(request@ is Render),
            request@ matches RequestView::Finished(Err(failure)) ==> crate::attach_plan::failure_fits(
                failure,
                false,
            ),
        ensures
            goes_on(final(self).pending(), old(self).pending()),
            final(self)@.valid(),
            final(self)@.pane == old(self)@.pane,
            final(self)@.options == old(self)@.options,
            final(self)@.embedded_size == old(self)@.embedded_size,
            final(self)@.poll_interval == old(self)@.poll_interval,
            old(self)@.seq <= final(self)@.seq,
            final(self)@.seq - old(self)@.seq == final(self)@.events.len() - old(
                self,
            )@.events.len(),
            old(self)@.events.len() <= final(self)@.events.len(),
            final(self)@.events.take(old(self)@.events.len() as int) == old(self)@.events,
            numbered_after(
                final(self)@.events.skip(old(self)@.events.len() as int),
                old(self)@.seq as int,
            ),
            !(open@ is Finished) ==> final(self)@.attach is Some && forall|reply: ReplyView|
                #[trigger]
                answers(reply, open@, false) ==> final(self)@.attach->0.awaits(reply),
            !(open@ is Measure) && !(open@ is Render),
            open@ matches RequestView::Finished(Err(failure)) ==> crate::attach_plan::failure_fits(
                failure,
                false,
            ),
            open@ is Finished && !(request@ is Finished) ==> final(self)@.attach is None
                && final(self)@.stage == AttachState::Embedded,
            exists|count: nat|
                {
                    &&& #[trigger] session_driven::<Clock>(
                        SessionScene {
                            session: final(self)@,
                            request: open@,
                            asked: final(parties).exchanges(),
                            clock: *final(clock),
                        },
                        SessionScene {
                            session: old(self)@,
                            request: request@,
                            asked: old(parties).exchanges(),
                            clock: *old(clock),
                        },
                        count,
                    )
                    &&& count <= limit
                    &&& open@ is Finished || count == limit || final(self)@.seq > u64::MAX - 2
                },
            old(parties).calls().len() <= final(parties).calls().len(),
            final(parties).calls().take(old(parties).calls().len() as int) == old(parties).calls(),
            calls_connect(
                final(parties).calls().skip(old(parties).calls().len() as int),
                old(parties).states(),
                final(parties).states(),
            ),
            forall|i: int, c: PartyCall<PartyStates<Terminal, Pty, Surface, Control>>|
                old(parties).calls().len() <= i && #[trigger] call_at(final(parties).calls(), i, c) ==> exists|
                    asked: &mut AttachParties<'_, Terminal, Pty, Surface, Control>,
                    request: &AttachRequest,
                    reply: AttachReply,
                |
                    #![trigger call_ensures(AttachParties::<'_, Terminal, Pty, Surface, Control>::carry_out, (asked, request), reply)]
                    {
                        &&& call_ensures(
                            AttachParties::<'_, Terminal, Pty, Surface, Control>::carry_out,
                            (asked, request),
                            reply,
                        )
                        &&& c.exchange == (Exchange { request: request@, reply: reply@ })
                        &&& c.before == (*asked).states()
                        &&& c.after == (*final(asked)).states()
                    },
    {
        let ghost start = self@;
        let ghost first = SessionScene {
            session: self@,
            request: request@,
            asked: parties.exchanges(),
            clock: *clock,
        };
        let ghost known = parties.calls();
        proof {
            lemma_session_idle::<Clock>(first);
            assert(known.take(known.len() as int) =~= known);
            assert(known.skip(known.len() as int) =~= Seq::empty());
        }
        let mut open = request;
        let mut left = limit;
        let mut running = match &open {
            AttachRequest::Finished(_) => false,
            _ => true,
        };
        assert(start.events.take(start.events.len() as int) =~= start.events);
        while left > 0 && running && self.next_event_seq <= 0xffff_ffff_ffff_fffd
            invariant
                goes_on(self.pending(), old(self).pending()),
                self@.valid(),
                self@.pane == start.pane,
                self@.options == start.options,
                self@.embedded_size == start.embedded_size,
                self@.poll_interval == start.poll_interval,
                start.seq <= self@.seq,
                self@.seq - start.seq == self@.events.len() - start.events.len(),
                start.events.len() <= self@.events.len(),
                self@.events.take(start.events.len() as int) == start.events,
                numbered_after(self@.events.skip(start.events.len() as int), start.seq as int),
                running == !(open@ is Finished),
                running ==> self@.attach is Some && forall|reply: ReplyView|
                    #[trigger]
                    answers(reply, open@, false) ==> self@.attach->0.awaits(reply),
                !(open@ is Measure) && !(open@ is Render),
                open@ matches RequestView::Finished(Err(failure))
                    ==> crate::attach_plan::failure_fits(failure, false),
                open@ is Finished && !(request@ is Finished) ==> self@.attach is None
                    && self@.stage == AttachState::Embedded,
                left <= limit,
                session_driven::<Clock>(
                    SessionScene {
                        session: self@,
                        request: open@,
                        asked: parties.exchanges(),
                        clock: *clock,
                    },
                    first,
                    (limit - left) as nat,
                ),
                known == old(parties).calls(),
                known.len() <= parties.calls().len(),
                parties.calls().take(known.len() as int) == known,
                calls_connect(
                    parties.calls().skip(known.len() as int),
                    old(parties).states(),
                    parties.states(),
                ),
                forall|i: int, c: PartyCall<PartyStates<Terminal, Pty, Surface, Control>>|
                    old(parties).calls().len() <= i && #[trigger] call_at(parties.calls(), i, c) ==> exists|
                        asked: &mut AttachParties<'_, Terminal, Pty, Surface, Control>,
                        request: &AttachRequest,
                        reply: AttachReply,
                    |
                        #![trigger call_ensures(AttachParties::<'_, Terminal, Pty, Surface, Control>::carry_out, (asked, request), reply)]
                        {
                            &&& call_ensures(
                                AttachParties::<'_, Terminal, Pty, Surface, Control>::carry_out,
                                (asked, request),
                                reply,
                            )
                            &&& c.exchange == (Exchange { request: request@, reply: reply@ })
                            &&& c.before == (*asked).states()
                            &&& c.after == (*final(asked)).states()
                        },
                left == limit ==> open@ == request@,
                request@ is Finished ==> left == limit && !running,
            decreases left,
        {
            let ghost before = self@;
            let ghost made = parties.calls();
            let ghost states = parties.states();
            let ghost middle = SessionScene {
                session: self@,
                request: open@,
                asked: parties.exchanges(),
                clock: *clock,
            };
            let reply = match &open {
                AttachRequest::Clock => {
                    let (now, _) = ask_reading(clock);
                    assert(clock_read(middle.clock, *clock, now));
                    AttachReply::Clock(now)
                },
                AttachRequest::Sleep(span) => {
                    let _ = ask_pause(clock, *span);
                    assert(clock_paused(middle.clock, *clock, *span));
                    AttachReply::Slept
                },
                _ => {
                    let reply = parties.carry_out(&open);
                    proof {
                        let call = parties.calls().last();
                        assert(parties.calls() == made.push(call));
                        assert(parties.calls().skip(known.len() as int) =~= made.skip(
                            known.len() as int,
                        ).push(call));
                        assert(parties.calls().take(known.len() as int) =~= made.take(
                            known.len() as int,
                        ));
                        lemma_calls_connect(
                            made.skip(known.len() as int),
                            old(parties).states(),
                            states,
                            call,
                        );
                        assert(parties.exchanges() =~= middle.asked.push(
                            Exchange { request: open@, reply: reply@ },
                        ));
                        assert forall|i: int, c: PartyCall<PartyStates<Terminal, Pty, Surface, Control>>|
                            known.len() <= i && #[trigger] call_at(parties.calls(), i, c) implies exists|
                            asked: &mut AttachParties<'_, Terminal, Pty, Surface, Control>,
                            request: &AttachRequest,
                            reply: AttachReply,
                        |
                            #![trigger call_ensures(AttachParties::<'_, Terminal, Pty, Surface, Control>::carry_out, (asked, request), reply)]
                            {
                                &&& call_ensures(
                                    AttachParties::<
                                        '_,
                                        Terminal,
                                        Pty,
                                        Surface,
                                        Control,
                                    >::carry_out,
                                    (asked, request),
                                    reply,
                                )
                                &&& c.exchange == (Exchange { request: request@, reply: reply@ })
                                &&& c.before == (*asked).states()
                                &&& c.after == (*final(asked)).states()
                            } by {
                            if i < made.len() {
                                assert(call_at(made, i, c));
                            } else {
                                assert(c == call);
                            }
                        }
                    }
                    reply
                },
            };
            let ghost step = before.attach->0.after(reply@);
            proof {
                assert(answers(reply@, open@, false));
                crate::attach_plan::law_attach_loop_stays_valid(before.attach->0, reply@);
                crate::attach_plan::law_unmanaged_requests(before.attach->0, reply@);
                law_session_events_are_contiguous(before, step.notes);
                let later = before.noted_all(step.notes).events;
                let n = start.events.len() as int;
                assert forall|i: int| 0 <= i < later.skip(n).len() implies (
                #[trigger] later.skip(n)[i]).seq == start.seq + i + 1 by {
                    if n + i < before.events.len() {
                        assert(before.events.skip(n)[i] == later.take(
                            before.events.len() as int,
                        )[n + i]);
                    }
                }
                assert(before.events.take(start.events.len() as int) =~= before.noted_all(
                    step.notes,
                ).events.take(before.events.len() as int).take(start.events.len() as int));
                assert(before.noted_all(step.notes).events.take(before.events.len() as int).take(
                    start.events.len() as int,
                ) =~= before.noted_all(step.notes).events.take(start.events.len() as int));
            }
            open = self.advance(reply);
            proof {
                let last = SessionScene {
                    session: self@,
                    request: open@,
                    asked: parties.exchanges(),
                    clock: *clock,
                };
                assert(session_served::<Clock>(reply@, last.asked, last.clock, middle));
                assert(session_steps::<Clock>(last, middle));
                lemma_session_driven::<Clock>(last, middle, first, (limit - left) as nat);
            }
            running = match &open {
                AttachRequest::Finished(_) => false,
                _ => true,
            };
            left = left - 1;
        }
        open
    }

    /// Runs a blocking attach session until the detach chord is pressed, or
    /// until `limit` requests were carried out. A session that is still under
    /// way then goes on with [`drive`](Self::drive).
    pub fn run<
        Terminal: AttachTerminal,
        Pty: AttachPtyEndpoint,
        Surface: AttachSurfaceSink,
        Control: HostTerminalControl,
        Clock: AttachClock,
    >(
        &mut self,
        parties: &mut AttachParties<'_, Terminal, Pty, Surface, Control>,
        clock: &mut Clock,
        limit: u64,
    ) -> (progress: SessionProgress)
        requires
            old(self)@.valid(),
            old(self)@.attach is None,
        ensures
            goes_on(final(self).pending(), old(self).pending()),
            final(self)@.valid(),
            progress is Ended ==> final(self)@.attach is None && final(self)@.stage
                == AttachState::Embedded,
            old(self)@.events.len() <= final(self)@.events.len(),
            final(self)@.events.take(old(self)@.events.len() as int) == old(self)@.events,
            exists|last: SessionScene<Clock>, first: SessionScene<Clock>, count: nat|
                {
                    &&& #[trigger] session_driven::<Clock>(last, first, count)
                    &&& session_opening(first, old(self)@)
                    &&& first.asked == old(parties).exchanges()
                    &&& first.clock == *old(clock)
                    &&& last.clock == *final(clock)
                    &&& last.session == final(self)@
                    &&& last.asked == final(parties).exchanges()
                    &&& progress.tells(last.request)
                    &&& count <= limit
                    &&& progress is Ended || count == limit || final(self)@.seq > u64::MAX - 2
                },
            old(self)@.seq <= final(self)@.seq,
            final(self)@.seq - old(self)@.seq == final(self)@.events.len() - old(
                self,
            )@.events.len(),
            numbered_after(
                final(self)@.events.skip(old(self)@.events.len() as int),
                old(self)@.seq as int,
            ),
            old(parties).calls().len() <= final(parties).calls().len(),
            final(parties).calls().take(old(parties).calls().len() as int) == old(parties).calls(),
            calls_connect(
                final(parties).calls().skip(old(parties).calls().len() as int),
                old(parties).states(),
                final(parties).states(),
            ),
            forall|i: int, c: PartyCall<PartyStates<Terminal, Pty, Surface, Control>>|
                old(parties).calls().len() <= i && #[trigger] call_at(final(parties).calls(), i, c) ==> exists|
                    asked: &mut AttachParties<'_, Terminal, Pty, Surface, Control>,
                    request: &AttachRequest,
                    reply: AttachReply,
                |
                    #![trigger call_ensures(AttachParties::<'_, Terminal, Pty, Surface, Control>::carry_out, (asked, request), reply)]
                    {
                        &&& call_ensures(
                            AttachParties::<'_, Terminal, Pty, Surface, Control>::carry_out,
                            (asked, request),
                            reply,
                        )
                        &&& c.exchange == (Exchange { request: request@, reply: reply@ })
                        &&& c.before == (*asked).states()
                        &&& c.after == (*final(asked)).states()
                    },
    {
        let ghost before = self@;
        let ghost begun = parties.exchanges();
        let request = self.start();
        let ghost first = SessionScene {
            session: self@,
            request: request@,
            asked: begun,
            clock: *clock,
        };
        let open = self.drive(parties, clock, request, limit);
        let ghost last = SessionScene {
            session: self@,
            request: open@,
            asked: parties.exchanges(),
            clock: *clock,
        };
        let progress = match open {
            AttachRequest::Finished(result) => SessionProgress::Ended(Self::outcome(result)),
            open => SessionProgress::Open(open),
        };
        assert(session_opening(first, before));
        assert(progress.tells(last.request));
        progress
    }

    /// The failure of a finished attach in its public form.
    pub fn outcome(
        result: core::result::Result<BlockingAttachOutcome, AttachFailure>,
    ) -> (r: core::result::Result<BlockingAttachOutcome, BlockingAttachError>)
        requires
            result matches Err(failure) ==> crate::attach_plan::failure_fits(failure@, false),
        ensures
            match r {
                Ok(outcome) => result == Ok::<BlockingAttachOutcome, AttachFailure>(outcome),
                Err(error) => result is Err && error@ == result->Err_0@,
            },
    {
        match result {
            Ok(outcome) => Ok(outcome),
            Err(AttachFailure::Step { kind, message }) => Err(
                BlockingAttachError::of_step(kind, message),
            ),
            Err(AttachFailure::Pane { error }) => Err(
                BlockingAttachError::PtyRuntime { message: error.to_string() },
            ),
        }
    }
}

proof fn lemma_notes_ignore_attach(
    session: SessionView,
    attach: Option<LoopView>,
    notes: Seq<NoteView>,
)
    ensures
        (SessionView { attach, ..session }).noted_all(notes) == (SessionView {
            attach,
            ..session.noted_all(notes)
        }),
    decreases notes.len(),
{
    if notes.len() > 0 {
        lemma_notes_ignore_attach(session, attach, notes.drop_last());
    }
}

} // verus!
