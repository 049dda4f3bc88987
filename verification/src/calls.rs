//! What a pane asks of its surface and its process.
//!
//! A [`Screen`] holds a surface and asks it; its predicates tell what the
//! surface answers in the state it is in. A [`HeldProcess`] does so for a
//! process. A [`PaneCall`] is one call that may change a surface or a process,
//! with its answer. Calls made one after the other lead from one state of the
//! two to another.

use vstd::prelude::*;

use crate::error::{error_of, ErrorView, Result};
use crate::pane::{Size, TerminalModes};
use crate::pane_core::{feed_view, FeedView};
use crate::pty::{
    attempts, writes, FrameView, PtyFrame, PtyProcess, PtyWriter, WriteAttempt, WriteReply,
};
use crate::sink::WriterSink;
use crate::surface::{
    CursorState, LineView, ScrollbackSnapshot, SurfaceBackend, SurfaceBackendMetadata,
    SurfaceSnapshot, SurfaceUpdate, SurfaceView,
};

verus! {

fn ask_feed<S: SurfaceBackend + ?Sized>(surface: &mut S, bytes: &[u8]) -> (r: Result<SurfaceUpdate>)
    ensures
        exists|asked: &mut S|
            #![trigger call_ensures(S::feed, (asked, bytes), r)]
            {
                &&& call_ensures(S::feed, (asked, bytes), r)
                &&& &*asked == &*old(surface)
                &&& &*final(asked) == &*final(surface)
            },
{
    surface.feed(bytes)
}

fn ask_resize<S: SurfaceBackend + ?Sized>(surface: &mut S, size: Size) -> (r: Result<()>)
    ensures
        exists|asked: &mut S|
            #![trigger call_ensures(S::resize, (asked, size), r)]
            {
                &&& call_ensures(S::resize, (asked, size), r)
                &&& &*asked == &*old(surface)
                &&& &*final(asked) == &*final(surface)
            },
{
    surface.resize(size)
}

fn ask_receive<P: PtyProcess + ?Sized>(process: &mut P) -> (frame: Option<PtyFrame>)
    ensures
        exists|asked: &mut P|
            #![trigger call_ensures(P::try_recv, (asked,), frame)]
            {
                &&& call_ensures(P::try_recv, (asked,), frame)
                &&& &*asked == &*old(process)
                &&& &*final(asked) == &*final(process)
            },
{
    process.try_recv()
}

fn ask_refit<P: PtyProcess + ?Sized>(process: &mut P, size: Size) -> (r: Result<()>)
    ensures
        exists|asked: &mut P|
            #![trigger call_ensures(P::resize, (asked, size), r)]
            {
                &&& call_ensures(P::resize, (asked, size), r)
                &&& &*asked == &*old(process)
                &&& &*final(asked) == &*final(process)
            },
{
    process.resize(size)
}

fn ask_kill<P: PtyProcess + ?Sized>(process: &mut P) -> (r: Result<()>)
    ensures
        exists|asked: &mut P|
            #![trigger call_ensures(P::kill, (asked,), r)]
            {
                &&& call_ensures(P::kill, (asked,), r)
                &&& &*asked == &*old(process)
                &&& &*final(asked) == &*final(process)
            },
{
    process.kill()
}

/// A process that is held to be asked.
pub struct HeldProcess<P: ?Sized> {
    process: Box<P>,
}

/// The process of a pane.
pub type PaneProcess = HeldProcess<dyn PtyProcess>;

impl<P: PtyProcess + ?Sized> HeldProcess<P> {
    /// Whether this process is held.
    pub closed spec fn holds(self, process: &P) -> bool {
        process == &*self.process
    }

    /// Whether the process gives out this writer.
    pub closed spec fn lends(self, writer: PtyWriter) -> bool {
        call_ensures(P::writer, (&*self.process,), writer)
    }

    /// Holds a process.
    pub fn new(process: Box<P>) -> (held: Self)
        ensures
            held.holds(&*process),
    {
        HeldProcess { process }
    }

    /// Asks the process for a writer.
    pub fn writer(&self) -> (writer: PtyWriter)
        ensures
            self.lends(writer),
    {
        self.process.writer()
    }

    /// Asks the process for a frame, once. With the answer come the states
    /// before and after.
    pub fn receive(&mut self) -> (out: (Option<PtyFrame>, Ghost<(Self, Self)>))
        ensures
            out.1@ == (*old(self), *final(self)),
            exists|process: &mut P, r: Option<PtyFrame>|
                #![trigger call_ensures(P::try_recv, (process,), r)]
                {
                    &&& call_ensures(P::try_recv, (process,), r)
                    &&& r == out.0
                    &&& out.1@.0.holds(&*process)
                    &&& out.1@.1.holds(&*final(process))
                },
    {
        let ghost before = *self;
        let r = ask_receive(&mut *self.process);
        (r, Ghost((before, *self)))
    }

    /// Resizes the process, once. With the answer come the states before and
    /// after.
    ///
    /// # Errors
    ///
    /// Returns what the process answered.
    pub fn refit(&mut self, size: Size) -> (out: (Result<()>, Ghost<(Self, Self)>))
        ensures
            out.1@ == (*old(self), *final(self)),
            exists|process: &mut P, r: Result<()>|
                #![trigger call_ensures(P::resize, (process, size), r)]
                {
                    &&& call_ensures(P::resize, (process, size), r)
                    &&& r == out.0
                    &&& out.1@.0.holds(&*process)
                    &&& out.1@.1.holds(&*final(process))
                },
    {
        let ghost before = *self;
        let r = ask_refit(&mut *self.process, size);
        (r, Ghost((before, *self)))
    }

    /// Kills the process, once. With the answer come the states before and
    /// after.
    ///
    /// # Errors
    ///
    /// Returns what the process answered.
    pub fn kill(&mut self) -> (out: (Result<()>, Ghost<(Self, Self)>))
        ensures
            out.1@ == (*old(self), *final(self)),
            exists|process: &mut P, r: Result<()>|
                #![trigger call_ensures(P::kill, (process,), r)]
                {
                    &&& call_ensures(P::kill, (process,), r)
                    &&& r == out.0
                    &&& out.1@.0.holds(&*process)
                    &&& out.1@.1.holds(&*final(process))
                },
    {
        let ghost before = *self;
        let r = ask_kill(&mut *self.process);
        (r, Ghost((before, *self)))
    }
}

/// Whether a spawned process is held, or the spawning failed likewise.
pub open spec fn holds_spawned(
    spawned: Result<Box<dyn PtyProcess>>,
    r: Result<PaneProcess>,
) -> bool {
    match (spawned, r) {
        (Ok(process), Ok(held)) => held.holds(&*process),
        (Err(e), Err(x)) => e == x,
        _ => false,
    }
}

/// Holds a process that was spawned.
///
/// # Errors
///
/// Returns the error of the spawning.
pub fn hold_spawned(spawned: Result<Box<dyn PtyProcess>>) -> (r: Result<PaneProcess>)
    ensures
        holds_spawned(spawned, r),
{
    match spawned {
        Ok(process) => Ok(HeldProcess::new(process)),
        Err(error) => Err(error),
    }
}

/// A surface that is held to be asked.
pub struct Screen<S: ?Sized> {
    surface: Box<S>,
}

/// The surface of a pane.
pub type PaneScreen = Screen<dyn SurfaceBackend>;

impl<S: SurfaceBackend + ?Sized> Screen<S> {
    /// Whether this surface is held.
    pub closed spec fn holds(self, surface: &S) -> bool {
        surface == &*self.surface
    }

    /// Whether the surface has this size.
    pub closed spec fn measures(self, size: Size) -> bool {
        call_ensures(S::size, (&*self.surface,), size)
    }

    /// Whether the surface says this of a size.
    pub closed spec fn judges(self, size: Size, r: Result<()>) -> bool {
        call_ensures(S::validate_resize, (&*self.surface, size), r)
    }

    /// Whether the surface tells of these modes.
    pub closed spec fn tells(self, modes: TerminalModes) -> bool {
        call_ensures(S::modes, (&*self.surface,), modes)
    }

    /// Whether the surface has its cursor there.
    pub closed spec fn points(self, cursor: CursorState) -> bool {
        call_ensures(S::cursor, (&*self.surface,), cursor)
    }

    /// Whether the surface shows this.
    pub closed spec fn shows<'a>(&'a self, picture: SurfaceView) -> bool {
        exists|snapshot: SurfaceSnapshot<'a>|
            #[trigger] call_ensures(S::snapshot, (&*self.surface,), snapshot) && snapshot@
                == picture
    }

    /// Whether the surface keeps these lines.
    pub closed spec fn keeps<'a>(&'a self, lines: Seq<LineView>) -> bool {
        exists|scrollback: ScrollbackSnapshot<'a>|
            #[trigger] call_ensures(S::scrollback, (&*self.surface,), scrollback) && scrollback@
                == lines
    }

    /// Whether the surface says this of itself.
    pub closed spec fn describes(self, metadata: SurfaceBackendMetadata) -> bool {
        call_ensures(S::metadata, (&*self.surface,), metadata)
    }

    /// Holds a surface.
    pub fn new(surface: Box<S>) -> (screen: Self)
        ensures
            screen.holds(&*surface),
    {
        Screen { surface }
    }

    /// Asks the surface for its size.
    pub fn size(&self) -> (size: Size)
        ensures
            self.measures(size),
    {
        self.surface.size()
    }

    /// Asks the surface whether it can have a size.
    ///
    /// # Errors
    ///
    /// Returns what the surface says against it.
    pub fn judge(&self, size: Size) -> (r: Result<()>)
        ensures
            self.judges(size, r),
    {
        self.surface.validate_resize(size)
    }

    /// Asks the surface for its modes.
    pub fn modes(&self) -> (modes: TerminalModes)
        ensures
            self.tells(modes),
    {
        self.surface.modes()
    }

    /// Asks the surface for its cursor.
    pub fn cursor(&self) -> (cursor: CursorState)
        ensures
            self.points(cursor),
    {
        self.surface.cursor()
    }

    /// Asks the surface what it shows.
    pub fn snapshot(&self) -> (snapshot: SurfaceSnapshot<'_>)
        ensures
            self.shows(snapshot@),
    {
        self.surface.snapshot()
    }

    /// Asks the surface for its scrollback.
    pub fn scrollback(&self) -> (scrollback: ScrollbackSnapshot<'_>)
        ensures
            self.keeps(scrollback@),
    {
        self.surface.scrollback()
    }

    /// Asks the surface what it is.
    pub fn metadata(&self) -> (metadata: SurfaceBackendMetadata)
        ensures
            self.describes(metadata),
    {
        self.surface.metadata()
    }

    /// Feeds the surface, once. With the answer come the states before and
    /// after.
    ///
    /// # Errors
    ///
    /// Returns what the surface answered.
    pub fn feed(&mut self, bytes: &[u8]) -> (out: (Result<SurfaceUpdate>, Ghost<(Self, Self)>))
        ensures
            out.1@ == (*old(self), *final(self)),
            exists|surface: &mut S, r: Result<SurfaceUpdate>|
                #![trigger call_ensures(S::feed, (surface, bytes), r)]
                {
                    &&& call_ensures(S::feed, (surface, bytes), r)
                    &&& r == out.0
                    &&& out.1@.0.holds(&*surface)
                    &&& out.1@.1.holds(&*final(surface))
                },
    {
        let ghost before = *self;
        let r = ask_feed(&mut *self.surface, bytes);
        (r, Ghost((before, *self)))
    }

    /// Resizes the surface, once. With the answer come the states before and
    /// after.
    ///
    /// # Errors
    ///
    /// Returns what the surface answered.
    pub fn resize(&mut self, size: Size) -> (out: (Result<()>, Ghost<(Self, Self)>))
        ensures
            out.1@ == (*old(self), *final(self)),
            exists|surface: &mut S, r: Result<()>|
                #![trigger call_ensures(S::resize, (surface, size), r)]
                {
                    &&& call_ensures(S::resize, (surface, size), r)
                    &&& r == out.0
                    &&& out.1@.0.holds(&*surface)
                    &&& out.1@.1.holds(&*final(surface))
                },
    {
        let ghost before = *self;
        let r = ask_resize(&mut *self.surface, size);
        (r, Ghost((before, *self)))
    }
}

/// Whether a screen holds what was made, or the making failed likewise.
pub open spec fn holds_made(made: Result<Box<dyn SurfaceBackend>>, r: Result<PaneScreen>) -> bool {
    match (made, r) {
        (Ok(surface), Ok(screen)) => screen.holds(&*surface),
        (Err(e), Err(x)) => e == x,
        _ => false,
    }
}

/// Holds a surface that was made.
///
/// # Errors
///
/// Returns the error of the making.
pub fn hold_made(made: Result<Box<dyn SurfaceBackend>>) -> (r: Result<PaneScreen>)
    ensures
        holds_made(made, r),
{
    match made {
        Ok(surface) => Ok(Screen::new(surface)),
        Err(error) => Err(error),
    }
}

/// Whether one feed turns a surface like this and is answered like this.
pub open spec fn screen_fed<S: SurfaceBackend + ?Sized>(
    before: Screen<S>,
    after: Screen<S>,
    bytes: &[u8],
    r: Result<SurfaceUpdate>,
) -> bool {
    exists|held: &mut Screen<S>, out: (Result<SurfaceUpdate>, Ghost<(Screen<S>, Screen<S>)>)|
        #![trigger call_ensures(Screen::<S>::feed, (held, bytes), out)]
        call_ensures(Screen::<S>::feed, (held, bytes), out) && out.0 == r && out.1@ == (
            before,
            after,
        )
}

/// A feed is one call on the surface that was held, which is then held as the
/// call left it.
pub proof fn law_screen_fed<S: SurfaceBackend + ?Sized>(
    before: Screen<S>,
    after: Screen<S>,
    bytes: &[u8],
    r: Result<SurfaceUpdate>,
)
    requires
        screen_fed(before, after, bytes, r),
    ensures
        exists|surface: &mut S, answer: Result<SurfaceUpdate>|
            #![trigger call_ensures(S::feed, (surface, bytes), answer)]
            {
                &&& call_ensures(S::feed, (surface, bytes), answer)
                &&& answer == r
                &&& before.holds(&*surface)
                &&& after.holds(&*final(surface))
            },
{
}

/// Whether one resize turns a surface like this and is answered like this.
pub open spec fn screen_resized<S: SurfaceBackend + ?Sized>(
    before: Screen<S>,
    after: Screen<S>,
    size: Size,
    r: Result<()>,
) -> bool {
    exists|held: &mut Screen<S>, out: (Result<()>, Ghost<(Screen<S>, Screen<S>)>)|
        #![trigger call_ensures(Screen::<S>::resize, (held, size), out)]
        call_ensures(Screen::<S>::resize, (held, size), out) && out.0 == r && out.1@ == (
            before,
            after,
        )
}

/// A resize is one call on the surface that was held, which is then held as the
/// call left it.
pub proof fn law_screen_resized<S: SurfaceBackend + ?Sized>(
    before: Screen<S>,
    after: Screen<S>,
    size: Size,
    r: Result<()>,
)
    requires
        screen_resized(before, after, size, r),
    ensures
        exists|surface: &mut S, answer: Result<()>|
            #![trigger call_ensures(S::resize, (surface, size), answer)]
            {
                &&& call_ensures(S::resize, (surface, size), answer)
                &&& answer == r
                &&& before.holds(&*surface)
                &&& after.holds(&*final(surface))
            },
{
}

/// Whether asking for a frame once turns a process like this and hands this out.
pub open spec fn process_asked<P: PtyProcess + ?Sized>(
    before: HeldProcess<P>,
    after: HeldProcess<P>,
    r: Option<PtyFrame>,
) -> bool {
    exists|held: &mut HeldProcess<P>, out: (Option<PtyFrame>, Ghost<(HeldProcess<P>, HeldProcess<P>)>)|
        #![trigger call_ensures(HeldProcess::<P>::receive, (held,), out)]
        call_ensures(HeldProcess::<P>::receive, (held,), out) && out.0 == r && out.1@ == (
            before,
            after,
        )
}

/// Asking for a frame is one call on the process that was held, which is then
/// held as the call left it.
pub proof fn law_process_asked<P: PtyProcess + ?Sized>(
    before: HeldProcess<P>,
    after: HeldProcess<P>,
    r: Option<PtyFrame>,
)
    requires
        process_asked(before, after, r),
    ensures
        exists|process: &mut P, answer: Option<PtyFrame>|
            #![trigger call_ensures(P::try_recv, (process,), answer)]
            {
                &&& call_ensures(P::try_recv, (process,), answer)
                &&& answer == r
                &&& before.holds(&*process)
                &&& after.holds(&*final(process))
            },
{
}

/// Whether one resize turns a process like this and is answered like this.
pub open spec fn process_resized<P: PtyProcess + ?Sized>(
    before: HeldProcess<P>,
    after: HeldProcess<P>,
    size: Size,
    r: Result<()>,
) -> bool {
    exists|held: &mut HeldProcess<P>, out: (Result<()>, Ghost<(HeldProcess<P>, HeldProcess<P>)>)|
        #![trigger call_ensures(HeldProcess::<P>::refit, (held, size), out)]
        call_ensures(HeldProcess::<P>::refit, (held, size), out) && out.0 == r && out.1@ == (
            before,
            after,
        )
}

/// A resize is one call on the process that was held, which is then held as the
/// call left it.
pub proof fn law_process_resized<P: PtyProcess + ?Sized>(
    before: HeldProcess<P>,
    after: HeldProcess<P>,
    size: Size,
    r: Result<()>,
)
    requires
        process_resized(before, after, size, r),
    ensures
        exists|process: &mut P, answer: Result<()>|
            #![trigger call_ensures(P::resize, (process, size), answer)]
            {
                &&& call_ensures(P::resize, (process, size), answer)
                &&& answer == r
                &&& before.holds(&*process)
                &&& after.holds(&*final(process))
            },
{
}

/// Whether one kill turns a process like this and is answered like this.
pub open spec fn process_killed<P: PtyProcess + ?Sized>(
    before: HeldProcess<P>,
    after: HeldProcess<P>,
    r: Result<()>,
) -> bool {
    exists|held: &mut HeldProcess<P>, out: (Result<()>, Ghost<(HeldProcess<P>, HeldProcess<P>)>)|
        #![trigger call_ensures(HeldProcess::<P>::kill, (held,), out)]
        call_ensures(HeldProcess::<P>::kill, (held,), out) && out.0 == r && out.1@ == (
            before,
            after,
        )
}

/// A kill is one call on the process that was held, which is then held as the
/// call left it.
pub proof fn law_process_killed<P: PtyProcess + ?Sized>(
    before: HeldProcess<P>,
    after: HeldProcess<P>,
    r: Result<()>,
)
    requires
        process_killed(before, after, r),
    ensures
        exists|process: &mut P, answer: Result<()>|
            #![trigger call_ensures(P::kill, (process,), answer)]
            {
                &&& call_ensures(P::kill, (process,), answer)
                &&& answer == r
                &&& before.holds(&*process)
                &&& after.holds(&*final(process))
            },
{
}

/// What a process handed out, as a view.
pub open spec fn opt_frame(frame: Option<PtyFrame>) -> Option<FrameView> {
    match frame {
        Some(frame) => Some(frame@),
        None => None,
    }
}

/// A call that may change the surface or the process of a pane, and its answer.
/// An answer that says no more than whether it went well is the error, if any.
pub ghost enum PaneCall {
    /// The surface was fed.
    Feed { bytes: Seq<u8>, answer: FeedView },
    /// The surface was resized.
    Reshape { size: Size, answer: Option<ErrorView> },
    /// The process was resized.
    Refit { size: Size, answer: Option<ErrorView> },
    /// The process was killed.
    Kill { answer: Option<ErrorView> },
    /// The process was asked for a frame.
    Receive { answer: Option<FrameView> },
    /// The writer of the process was given bytes to write in full and flush.
    Write { bytes: Seq<u8>, answer: Option<ErrorView> },
    /// The writer of the process made one attempt on bytes.
    Attempt { attempt: WriteAttempt, bytes: Seq<u8>, reply: WriteReply },
}

/// The surface and the process of a pane, as they are at one moment.
pub ghost struct Parties {
    pub screen: PaneScreen,
    pub process: Option<PaneProcess>,
}

impl PaneCall {
    /// Whether this call, made once on these parties, is answered like this and
    /// leaves them like that. A call to the surface leaves the process alone,
    /// and the other way round. A writer is asked of the process for the call.
    pub open spec fn leads(self, before: Parties, after: Parties) -> bool {
        match self {
            PaneCall::Feed { bytes, answer } => {
                &&& after.process == before.process
                &&& exists|given: &[u8], r: Result<SurfaceUpdate>|
                    #[trigger] screen_fed(before.screen, after.screen, given, r) && given@ == bytes
                        && feed_view(r) == answer
            },
            PaneCall::Reshape { size, answer } => {
                &&& after.process == before.process
                &&& exists|given: Size, r: Result<()>|
                    #[trigger] screen_resized(before.screen, after.screen, given, r) && given
                        == size && error_of(r) == answer
            },
            PaneCall::Refit { size, answer } => {
                &&& after.screen == before.screen
                &&& before.process is Some
                &&& after.process is Some
                &&& exists|given: Size, r: Result<()>|
                    #[trigger] process_resized(before.process->0, after.process->0, given, r)
                        && given == size && error_of(r) == answer
            },
            PaneCall::Kill { answer } => {
                &&& after.screen == before.screen
                &&& before.process is Some
                &&& after.process is Some
                &&& exists|r: Result<()>|
                    #[trigger] process_killed(before.process->0, after.process->0, r) && error_of(
                        r,
                    ) == answer
            },
            PaneCall::Receive { answer } => {
                &&& after.screen == before.screen
                &&& before.process is Some
                &&& after.process is Some
                &&& exists|r: Option<PtyFrame>|
                    #[trigger] process_asked(before.process->0, after.process->0, r) && opt_frame(
                        r,
                    ) == answer
            },
            PaneCall::Write { bytes, answer } => {
                &&& after == before
                &&& before.process is Some
                &&& exists|writer: PtyWriter, left: WriterSink, given: &[u8], r: Result<()>|
                    #[trigger] before.process->0.lends(writer) && #[trigger] writes(
                        writer.sink(),
                        left,
                        given,
                        r,
                    ) && given@ == bytes && error_of(r) == answer
            },
            PaneCall::Attempt { attempt, bytes, reply } => {
                &&& after == before
                &&& before.process is Some
                &&& exists|
                    writer: PtyWriter,
                    left: WriterSink,
                    tried: WriteAttempt,
                    given: Seq<u8>,
                    said: WriteReply,
                |
                    #[trigger] before.process->0.lends(writer) && #[trigger] attempts(
                        writer.sink(),
                        left,
                        tried,
                        given,
                        said,
                    ) && tried == attempt && given == bytes && said == reply
            },
        }
    }

    /// Whether the call was made, on some parties, and answered like this.
    pub open spec fn happened(self) -> bool {
        exists|before: Parties, after: Parties| #[trigger] self.leads(before, after)
    }
}

/// Whether these calls, made one after the other, each on what the one before
/// left, lead from parties like these to parties like those.
pub open spec fn lead(calls: Seq<PaneCall>, before: Parties, after: Parties) -> bool
    decreases calls.len(),
{
    if calls.len() == 0 {
        after == before
    } else {
        exists|middle: Parties|
            lead(calls.drop_last(), before, middle) && #[trigger] calls.last().leads(middle, after)
    }
}

/// Whether a log of calls was gone on with, from parties like these to parties
/// like those: what was logged stays, and the calls logged since lead from the
/// ones to the others.
#[verifier::opaque]
pub open spec fn continues(
    later: Seq<PaneCall>,
    after: Parties,
    earlier: Seq<PaneCall>,
    before: Parties,
) -> bool {
    &&& earlier.len() <= later.len()
    &&& later.take(earlier.len() as int) == earlier
    &&& lead(later.skip(earlier.len() as int), before, after)
}

pub(crate) proof fn lemma_lead_both(
    first: Seq<PaneCall>,
    second: Seq<PaneCall>,
    a: Parties,
    b: Parties,
    c: Parties,
)
    requires
        lead(first, a, b),
        lead(second, b, c),
    ensures
        lead(first + second, a, c),
    decreases second.len(),
{
    if second.len() == 0 {
        assert(first + second =~= first);
    } else {
        let middle = choose|middle: Parties|
            lead(second.drop_last(), b, middle) && #[trigger] second.last().leads(middle, c);
        lemma_lead_both(first, second.drop_last(), a, b, middle);
        assert((first + second).drop_last() =~= first + second.drop_last());
        assert((first + second).last() == second.last());
    }
}

pub(crate) proof fn lemma_one_call(
    calls: Seq<PaneCall>,
    call: PaneCall,
    before: Parties,
    after: Parties,
)
    requires
        call.leads(before, after),
    ensures
        continues(calls + seq![call], after, calls, before),
{
    reveal(continues);
    let longer = calls + seq![call];
    assert(longer.take(calls.len() as int) =~= calls);
    assert(longer.skip(calls.len() as int) =~= seq![call]);
    let one = seq![call];
    assert(one.drop_last() =~= Seq::<PaneCall>::empty());
    assert(lead(one.drop_last(), before, before));
    assert(one.last() == call);
    assert(one.last().leads(before, after));
    assert(lead(one, before, after));
}

pub(crate) proof fn lemma_feed_leads(
    before: Parties,
    after: Parties,
    given: &[u8],
    r: Result<SurfaceUpdate>,
)
    requires
        screen_fed(before.screen, after.screen, given, r),
        after.process == before.process,
    ensures
        (PaneCall::Feed { bytes: given@, answer: feed_view(r) }).leads(before, after),
{
}

pub(crate) proof fn lemma_reshape_leads(
    before: Parties,
    after: Parties,
    size: Size,
    r: Result<()>,
)
    requires
        screen_resized(before.screen, after.screen, size, r),
        after.process == before.process,
    ensures
        (PaneCall::Reshape { size, answer: error_of(r) }).leads(before, after),
{
}

pub(crate) proof fn lemma_attempt_leads(
    parties: Parties,
    writer: PtyWriter,
    left: WriterSink,
    attempt: WriteAttempt,
    bytes: Seq<u8>,
    reply: WriteReply,
)
    requires
        parties.process is Some,
        parties.process->0.lends(writer),
        attempts(writer.sink(), left, attempt, bytes, reply),
    ensures
        (PaneCall::Attempt { attempt, bytes, reply }).leads(parties, parties),
{
}

/// A log that went on by one call tells of a call that was made once: it leads
/// from the one state to the other.
pub proof fn law_a_logged_call_was_made_once(
    call: PaneCall,
    after: Parties,
    earlier: Seq<PaneCall>,
    before: Parties,
)
    requires
        continues(earlier + seq![call], after, earlier, before),
    ensures
        call.leads(before, after),
{
    reveal(continues);
    let one = seq![call];
    assert((earlier + one).skip(earlier.len() as int) =~= one);
    let middle = choose|middle: Parties|
        lead(one.drop_last(), before, middle) && #[trigger] one.last().leads(middle, after);
    assert(one.drop_last().len() == 0);
    assert(middle == before);
}

pub(crate) proof fn lemma_no_call(calls: Seq<PaneCall>, parties: Parties)
    ensures
        continues(calls, parties, calls, parties),
{
    reveal(continues);
    assert(calls.take(calls.len() as int) =~= calls);
    assert(calls.skip(calls.len() as int) =~= Seq::<PaneCall>::empty());
}

pub(crate) proof fn lemma_continues_both(
    last: Seq<PaneCall>,
    c: Parties,
    middle: Seq<PaneCall>,
    b: Parties,
    first: Seq<PaneCall>,
    a: Parties,
)
    requires
        continues(middle, b, first, a),
        continues(last, c, middle, b),
    ensures
        continues(last, c, first, a),
{
    reveal(continues);
    let n = first.len() as int;
    let m = middle.len() as int;
    assert(last.take(n) =~= last.take(m).take(n));
    assert(last.skip(n) =~= middle.skip(n) + last.skip(m)) by {
        assert(middle == last.take(m));
    }
    lemma_lead_both(middle.skip(n), last.skip(m), a, b, c);
}

proof fn lemma_lead_happened(calls: Seq<PaneCall>, before: Parties, after: Parties)
    requires
        lead(calls, before, after),
    ensures
        forall|i: int| 0 <= i < calls.len() ==> (#[trigger] calls[i]).happened(),
    decreases calls.len(),
{
    if calls.len() > 0 {
        let middle = choose|middle: Parties|
            lead(calls.drop_last(), before, middle) && #[trigger] calls.last().leads(middle, after);
        let shorter = calls.drop_last();
        lemma_lead_happened(shorter, before, middle);
        assert forall|i: int| 0 <= i < calls.len() implies (#[trigger] calls[i]).happened() by {
            if i < shorter.len() {
                assert(calls[i] == shorter[i]);
            }
        }
    }
}

pub(crate) proof fn lemma_continues_happened(
    later: Seq<PaneCall>,
    after: Parties,
    earlier: Seq<PaneCall>,
    before: Parties,
)
    requires
        continues(later, after, earlier, before),
        forall|i: int| 0 <= i < earlier.len() ==> (#[trigger] earlier[i]).happened(),
    ensures
        forall|i: int| 0 <= i < later.len() ==> (#[trigger] later[i]).happened(),
{
    reveal(continues);
    let n = earlier.len() as int;
    lemma_lead_happened(later.skip(n), before, after);
    assert forall|i: int| 0 <= i < later.len() implies (#[trigger] later[i]).happened() by {
        if i < n {
            assert(later[i] == later.take(n)[i]);
        } else {
            assert(later[i] == later.skip(n)[i - n]);
        }
    }
}

/// The feed that a frame brings about, if it does.
pub open spec fn feed_calls(frame: FrameView, feed: FeedView) -> Seq<PaneCall> {
    match frame {
        FrameView::Output(bytes) => seq![PaneCall::Feed { bytes, answer: feed }],
        _ => seq![],
    }
}

/// The calls by which frames are taken in: each is received, and output is fed
/// to the surface before the next one is received.
pub open spec fn frame_calls(frames: Seq<(FrameView, FeedView)>) -> Seq<PaneCall>
    decreases frames.len(),
{
    if frames.len() == 0 {
        seq![]
    } else {
        frame_calls(frames.drop_last()) + seq![
            PaneCall::Receive { answer: Some(frames.last().0) },
        ] + feed_calls(frames.last().0, frames.last().1)
    }
}

pub(crate) proof fn lemma_frame_calls_both(
    first: Seq<(FrameView, FeedView)>,
    second: Seq<(FrameView, FeedView)>,
)
    ensures
        frame_calls(first + second) == frame_calls(first) + frame_calls(second),
    decreases second.len(),
{
    if second.len() == 0 {
        assert(first + second =~= first);
        assert(frame_calls(first) + frame_calls(second) =~= frame_calls(first));
    } else {
        let both = first + second;
        lemma_frame_calls_both(first, second.drop_last());
        assert(both.drop_last() =~= first + second.drop_last());
        assert(both.last() == second.last());
        assert(frame_calls(both) =~= frame_calls(first) + frame_calls(second));
    }
}

} // verus!
