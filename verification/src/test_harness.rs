//! In-memory attach bridge harness for deterministic unit tests.
//!
//! This module provides fake terminal, PTY, surface, and terminal-control
//! endpoints plus a small scripted driver that exercises attach bridging
//! without a real terminal.

use std::collections::VecDeque;

use vstd::prelude::*;
use vstd::slice::slice_to_vec;

use crate::attach::{AttachBridge, AttachState, HostTerminalControl, TerminalRestoreToken};
use crate::attach_plan::AttachInputChunk;
use crate::bytes::push_all;
use crate::command::{AttachOptions, AttachOutputPolicy, AttachResizePolicy};
use crate::detach::{DetachMatcher, MatcherView};
use crate::event::AttachScreenPolicy;
use crate::pane::{PaneId, Size};
use crate::pty::PtyFrame;
use crate::session::{AttachPtyEndpoint, AttachSurfaceSink, AttachTerminal};
use crate::time::Instant;

verus! {

#[derive(Debug, Clone, PartialEq, Eq)]
struct QueuedStdin {
    at: Instant,
    bytes: Vec<u8>,
}

/// Scripted event processed by [`AttachHarness::run`].
#[derive(Debug, Clone, Copy, PartialEq, Eq, Structural)]
pub enum AttachHarnessStep {
    /// Read the next queued stdin chunk from the in-memory terminal.
    ReadStdin,
    /// Drain the next queued PTY output chunk.
    DrainPtyOutput,
    /// Apply a real-terminal resize during attach.
    ResizeTerminal(Size),
    /// Advance time so the detach matcher can flush a partial chord.
    Tick(Instant),
}

/// Error returned by the in-memory attach harness.
#[derive(Debug, Clone, PartialEq, Eq)]
pub enum AttachHarnessError {
    /// Suspending the host terminal failed before attach started.
    Suspend(&'static str),
    /// The scripted steps ended before the harness observed a detach.
    ScriptExhaustedBeforeDetach,
    /// Restoring the host terminal failed during detach.
    Restore(&'static str),
    /// Writing bridged output to stdout failed.
    Stdout(&'static str),
    /// Writing bridged input to the PTY failed.
    PtyWrite(&'static str),
    /// Resizing the PTY failed.
    PtyResize(&'static str),
    /// Feeding mirrored output into the surface sink failed.
    SurfaceFeed(&'static str),
    /// Resizing the surface sink failed.
    SurfaceResize(&'static str),
}

/// An [`AttachHarnessError`] with its text as characters.
pub ghost enum HarnessFault {
    Suspend(Seq<char>),
    ScriptExhaustedBeforeDetach,
    Restore(Seq<char>),
    Stdout(Seq<char>),
    PtyWrite(Seq<char>),
    PtyResize(Seq<char>),
    SurfaceFeed(Seq<char>),
    SurfaceResize(Seq<char>),
}

impl View for AttachHarnessError {
    type V = HarnessFault;

    open spec fn view(&self) -> HarnessFault {
        match self {
            AttachHarnessError::Suspend(text) => HarnessFault::Suspend(text@),
            AttachHarnessError::ScriptExhaustedBeforeDetach => {
                HarnessFault::ScriptExhaustedBeforeDetach
            },
            AttachHarnessError::Restore(text) => HarnessFault::Restore(text@),
            AttachHarnessError::Stdout(text) => HarnessFault::Stdout(text@),
            AttachHarnessError::PtyWrite(text) => HarnessFault::PtyWrite(text@),
            AttachHarnessError::PtyResize(text) => HarnessFault::PtyResize(text@),
            AttachHarnessError::SurfaceFeed(text) => HarnessFault::SurfaceFeed(text@),
            AttachHarnessError::SurfaceResize(text) => HarnessFault::SurfaceResize(text@),
        }
    }
}

/// The outcome of a harness action, as a view.
pub open spec fn fault_of(r: core::result::Result<(), AttachHarnessError>) -> Option<
    HarnessFault,
> {
    match r {
        Ok(_) => None,
        Err(error) => Some(error@),
    }
}

/// Chunks of bytes as sequences.
pub open spec fn chunks(v: Seq<Vec<u8>>) -> Seq<Seq<u8>> {
    Seq::new(v.len(), |i: int| v[i]@)
}

/// Chunks of bytes put together.
pub open spec fn joined(chunks: Seq<Seq<u8>>) -> Seq<u8>
    decreases chunks.len(),
{
    if chunks.len() == 0 {
        seq![]
    } else {
        joined(chunks.drop_last()) + chunks.last()
    }
}

fn join(v: &Vec<Vec<u8>>) -> (all: Vec<u8>)
    ensures
        all@ == joined(chunks(v@)),
{
    let mut all: Vec<u8> = Vec::new();
    let mut i: usize = 0;
    assert(chunks(v@).take(0) =~= seq![]);
    while i < v.len()
        invariant
            i <= v@.len(),
            all@ == joined(chunks(v@).take(i as int)),
        decreases v@.len() - i,
    {
        proof {
            let longer = chunks(v@).take(i + 1);
            assert(longer.drop_last() =~= chunks(v@).take(i as int));
            assert(longer.last() == v@[i as int]@);
        }
        push_all(&mut all, v[i].as_slice());
        i = i + 1;
    }
    assert(chunks(v@).take(i as int) =~= chunks(v@));
    all
}

fn push_chunk(v: &mut Vec<Vec<u8>>, bytes: &[u8])
    ensures
        chunks(final(v)@) == chunks(old(v)@).push(bytes@),
{
    v.push(slice_to_vec(bytes));
    assert(chunks(v@) =~= chunks(old(v)@).push(bytes@));
}

/// An [`InMemoryTerminal`] as plain values.
pub ghost struct TerminalView {
    pub stdin: Seq<(Instant, Seq<u8>)>,
    pub stdout: Seq<Seq<u8>>,
    pub size: Size,
    pub fails: bool,
}

impl TerminalView {
    /// The terminal after a write: an injected failure swallows it.
    pub open spec fn written(self, bytes: Seq<u8>) -> TerminalView {
        if self.fails {
            TerminalView { fails: false, ..self }
        } else {
            TerminalView { stdout: self.stdout.push(bytes), ..self }
        }
    }
}

/// Fake real terminal with queued stdin, captured stdout, and mutable size.
#[derive(Debug, Clone, PartialEq, Eq)]
pub struct InMemoryTerminal {
    stdin: VecDeque<QueuedStdin>,
    stdout: Vec<Vec<u8>>,
    size: Size,
    fail_next_stdout_write: bool,
}

impl View for InMemoryTerminal {
    type V = TerminalView;

    closed spec fn view(&self) -> TerminalView {
        TerminalView {
            stdin: Seq::new(
                self.stdin@.len(),
                |i: int| (self.stdin@[i].at, self.stdin@[i].bytes@),
            ),
            stdout: chunks(self.stdout@),
            size: self.size,
            fails: self.fail_next_stdout_write,
        }
    }
}

impl InMemoryTerminal {
    /// Creates a new terminal with the given initial real-terminal size.
    pub fn new(size: Size) -> (terminal: Self)
        ensures
            terminal@ == (TerminalView { stdin: seq![], stdout: seq![], size, fails: false }),
    {
        let terminal = InMemoryTerminal {
            stdin: VecDeque::new(),
            stdout: Vec::new(),
            size,
            fail_next_stdout_write: false,
        };
        assert(terminal@.stdin =~= seq![]);
        assert(terminal@.stdout =~= seq![]);
        terminal
    }

    /// Queues a raw stdin chunk to be read by the harness.
    pub fn queue_stdin(&mut self, at: Instant, bytes: Vec<u8>)
        ensures
            final(self)@ == (TerminalView {
                stdin: old(self)@.stdin.push((at, bytes@)),
                ..old(self)@
            }),
    {
        self.stdin.push_back(QueuedStdin { at, bytes });
        assert(self@.stdin =~= old(self)@.stdin.push((at, bytes@)));
    }

    /// Returns the current terminal size.
    pub fn size(&self) -> (size: Size)
        ensures
            size == self@.size,
    {
        self.size
    }

    /// Updates the current terminal size.
    pub fn set_size(&mut self, size: Size)
        ensures
            final(self)@ == (TerminalView { size, ..old(self)@ }),
    {
        self.size = size;
    }

    /// Injects a single stdout write failure.
    pub fn fail_next_stdout_write(&mut self)
        ensures
            final(self)@ == (TerminalView { fails: true, ..old(self)@ }),
    {
        self.fail_next_stdout_write = true;
    }

    /// Returns the captured stdout chunks.
    pub fn stdout_chunks(&self) -> (r: &[Vec<u8>])
        ensures
            chunks(r@) == self@.stdout,
    {
        self.stdout.as_slice()
    }

    /// Returns the captured stdout as one flattened byte buffer.
    pub fn stdout_bytes(&self) -> (all: Vec<u8>)
        ensures
            all@ == joined(self@.stdout),
    {
        join(&self.stdout)
    }

    fn take_stdin(&mut self) -> (r: Option<AttachInputChunk>)
        ensures
            match r {
                Some(chunk) => {
                    &&& old(self)@.stdin.len() > 0
                    &&& old(self)@.stdin[0] == (chunk.at, chunk.bytes@)
                    &&& final(self)@ == (TerminalView {
                        stdin: old(self)@.stdin.skip(1),
                        ..old(self)@
                    })
                },
                None => old(self)@.stdin.len() == 0 && final(self)@ == old(self)@,
            },
    {
        match self.stdin.pop_front() {
            Some(queued) => {
                assert(self@.stdin =~= old(self)@.stdin.skip(1));
                Some(AttachInputChunk { at: queued.at, bytes: queued.bytes })
            },
            None => None,
        }
    }

    fn put_stdout(&mut self, bytes: &[u8]) -> (r: core::result::Result<(), &'static str>)
        ensures
            final(self)@ == old(self)@.written(bytes@),
            r is Err <==> old(self)@.fails,
            r matches Err(text) ==> text@ == "injected stdout failure"@,
    {
        if self.fail_next_stdout_write {
            self.fail_next_stdout_write = false;
            return Err("injected stdout failure");
        }
        push_chunk(&mut self.stdout, bytes);
        Ok(())
    }
}

impl AttachTerminal for InMemoryTerminal {
    type Error = &'static str;

    fn read_stdin(&mut self) -> (r: core::result::Result<Option<AttachInputChunk>, &'static str>)
        ensures
            match r {
                Ok(Some(chunk)) => {
                    &&& old(self)@.stdin.len() > 0
                    &&& old(self)@.stdin[0] == (chunk.at, chunk.bytes@)
                    &&& final(self)@ == (TerminalView {
                        stdin: old(self)@.stdin.skip(1),
                        ..old(self)@
                    })
                },
                Ok(None) => old(self)@.stdin.len() == 0 && final(self)@ == old(self)@,
                Err(_) => false,
            },
    {
        Ok(self.take_stdin())
    }

    fn write_stdout(&mut self, bytes: &[u8]) -> (r: core::result::Result<(), &'static str>)
        ensures
            final(self)@ == old(self)@.written(bytes@),
            r is Err <==> old(self)@.fails,
            r matches Err(text) ==> text@ == "injected stdout failure"@,
    {
        self.put_stdout(bytes)
    }

    fn size(&self) -> core::result::Result<Size, &'static str>
        returns
            Ok::<Size, &'static str>(self@.size),
    {
        Ok(self.size)
    }
}

/// A [`FakePtyEndpoint`] as plain values.
pub ghost struct PtyView {
    pub output: Seq<Seq<u8>>,
    pub writes: Seq<Seq<u8>>,
    pub resizes: Seq<Size>,
    pub fails_write: bool,
    pub fails_resize: bool,
}

impl PtyView {
    /// The endpoint after a write: an injected failure swallows it.
    pub open spec fn written(self, bytes: Seq<u8>) -> PtyView {
        if self.fails_write {
            PtyView { fails_write: false, ..self }
        } else {
            PtyView { writes: self.writes.push(bytes), ..self }
        }
    }

    /// The endpoint after a resize: an injected failure swallows it.
    pub open spec fn resized(self, size: Size) -> PtyView {
        if self.fails_resize {
            PtyView { fails_resize: false, ..self }
        } else {
            PtyView { resizes: self.resizes.push(size), ..self }
        }
    }
}

/// An endpoint that has seen nothing.
pub open spec fn blank_pty() -> PtyView {
    PtyView {
        output: seq![],
        writes: seq![],
        resizes: seq![],
        fails_write: false,
        fails_resize: false,
    }
}

/// Fake PTY reader/writer pair used by attach bridge tests.
#[derive(Debug, Clone, PartialEq, Eq)]
pub struct FakePtyEndpoint {
    output: VecDeque<Vec<u8>>,
    input_writes: Vec<Vec<u8>>,
    resize_calls: Vec<Size>,
    fail_next_input_write: bool,
    fail_next_resize: bool,
}

impl View for FakePtyEndpoint {
    type V = PtyView;

    closed spec fn view(&self) -> PtyView {
        PtyView {
            output: chunks(self.output@),
            writes: chunks(self.input_writes@),
            resizes: self.resize_calls@,
            fails_write: self.fail_next_input_write,
            fails_resize: self.fail_next_resize,
        }
    }
}

impl FakePtyEndpoint {
    /// Creates an empty fake PTY endpoint.
    pub fn new() -> (pty: Self)
        ensures
            pty@ == blank_pty(),
    {
        let pty = FakePtyEndpoint {
            output: VecDeque::new(),
            input_writes: Vec::new(),
            resize_calls: Vec::new(),
            fail_next_input_write: false,
            fail_next_resize: false,
        };
        assert(pty@.output =~= seq![]);
        assert(pty@.writes =~= seq![]);
        assert(pty@.resizes =~= seq![]);
        pty
    }

    /// Queues a child-output chunk to be drained by the harness.
    pub fn queue_output(&mut self, bytes: Vec<u8>)
        ensures
            final(self)@ == (PtyView { output: old(self)@.output.push(bytes@), ..old(self)@ }),
    {
        self.output.push_back(bytes);
        assert(self@.output =~= old(self)@.output.push(bytes@));
    }

    /// Injects a single PTY input-write failure.
    pub fn fail_next_input_write(&mut self)
        ensures
            final(self)@ == (PtyView { fails_write: true, ..old(self)@ }),
    {
        self.fail_next_input_write = true;
    }

    /// Injects a single PTY resize failure.
    pub fn fail_next_resize(&mut self)
        ensures
            final(self)@ == (PtyView { fails_resize: true, ..old(self)@ }),
    {
        self.fail_next_resize = true;
    }

    /// Returns the captured PTY input-write chunks.
    pub fn input_write_chunks(&self) -> (r: &[Vec<u8>])
        ensures
            chunks(r@) == self@.writes,
    {
        self.input_writes.as_slice()
    }

    /// Returns the captured PTY input as one flattened byte buffer.
    pub fn input_bytes(&self) -> (all: Vec<u8>)
        ensures
            all@ == joined(self@.writes),
    {
        join(&self.input_writes)
    }

    /// Returns the PTY resize calls observed during the test run.
    pub fn resize_calls(&self) -> (r: &[Size])
        ensures
            r@ == self@.resizes,
    {
        self.resize_calls.as_slice()
    }

    fn try_read_output(&mut self) -> (r: Option<Vec<u8>>)
        ensures
            match r {
                Some(bytes) => {
                    &&& old(self)@.output.len() > 0
                    &&& bytes@ == old(self)@.output[0]
                    &&& final(self)@ == (PtyView {
                        output: old(self)@.output.skip(1),
                        ..old(self)@
                    })
                },
                None => old(self)@.output.len() == 0 && final(self)@ == old(self)@,
            },
    {
        let r = self.output.pop_front();
        if r.is_some() {
            assert(self@.output =~= old(self)@.output.skip(1));
        }
        r
    }

    fn put_input(&mut self, bytes: &[u8]) -> (r: core::result::Result<(), &'static str>)
        ensures
            final(self)@ == old(self)@.written(bytes@),
            r is Err <==> old(self)@.fails_write,
            r matches Err(text) ==> text@ == "injected pty write failure"@,
    {
        if self.fail_next_input_write {
            self.fail_next_input_write = false;
            return Err("injected pty write failure");
        }
        push_chunk(&mut self.input_writes, bytes);
        Ok(())
    }

    fn put_size(&mut self, size: Size) -> (r: core::result::Result<(), &'static str>)
        ensures
            final(self)@ == old(self)@.resized(size),
            r is Err <==> old(self)@.fails_resize,
            r matches Err(text) ==> text@ == "injected pty resize failure"@,
    {
        if self.fail_next_resize {
            self.fail_next_resize = false;
            return Err("injected pty resize failure");
        }
        self.resize_calls.push(size);
        Ok(())
    }
}

impl Default for FakePtyEndpoint {
    fn default() -> (pty: Self)
        ensures
            pty@ == blank_pty(),
    {
        Self::new()
    }
}

impl AttachPtyEndpoint for FakePtyEndpoint {
    type Error = &'static str;

    fn try_recv(&mut self) -> (r: core::result::Result<Option<PtyFrame>, &'static str>)
        ensures
            match r {
                Ok(Some(frame)) => {
                    &&& old(self)@.output.len() > 0
                    &&& frame matches PtyFrame::Output { seq, bytes, at }
                    &&& seq == 0 && bytes@ == old(self)@.output[0] && at.nanos == 0
                    &&& final(self)@ == (PtyView {
                        output: old(self)@.output.skip(1),
                        ..old(self)@
                    })
                },
                Ok(None) => old(self)@.output.len() == 0 && final(self)@ == old(self)@,
                Err(_) => false,
            },
    {
        match self.try_read_output() {
            Some(bytes) => Ok(
                Some(PtyFrame::Output { seq: 0, bytes, at: Instant { nanos: 0 } }),
            ),
            None => Ok(None),
        }
    }

    fn write_input(&mut self, bytes: &[u8]) -> (r: core::result::Result<(), &'static str>)
        ensures
            final(self)@ == old(self)@.written(bytes@),
            r is Err <==> old(self)@.fails_write,
            r matches Err(text) ==> text@ == "injected pty write failure"@,
    {
        self.put_input(bytes)
    }

    fn resize(&mut self, size: Size) -> (r: core::result::Result<(), &'static str>)
        ensures
            final(self)@ == old(self)@.resized(size),
            r is Err <==> old(self)@.fails_resize,
            r matches Err(text) ==> text@ == "injected pty resize failure"@,
    {
        self.put_size(size)
    }
}

/// A [`FakeSurfaceSink`] as plain values.
pub ghost struct SinkView {
    pub fed: Seq<Seq<u8>>,
    pub resizes: Seq<Size>,
    pub fails_feed: bool,
    pub fails_resize: bool,
}

impl SinkView {
    /// The sink after a feed: an injected failure swallows it.
    pub open spec fn fed(self, bytes: Seq<u8>) -> SinkView {
        if self.fails_feed {
            SinkView { fails_feed: false, ..self }
        } else {
            SinkView { fed: self.fed.push(bytes), ..self }
        }
    }

    /// The sink after a resize: an injected failure swallows it.
    pub open spec fn resized(self, size: Size) -> SinkView {
        if self.fails_resize {
            SinkView { fails_resize: false, ..self }
        } else {
            SinkView { resizes: self.resizes.push(size), ..self }
        }
    }
}

/// A sink that has seen nothing.
pub open spec fn blank_sink() -> SinkView {
    SinkView { fed: seq![], resizes: seq![], fails_feed: false, fails_resize: false }
}

/// Fake surface sink that captures mirrored output and resize calls.
#[derive(Debug, Clone, PartialEq, Eq)]
pub struct FakeSurfaceSink {
    fed_output: Vec<Vec<u8>>,
    resize_calls: Vec<Size>,
    fail_next_feed: bool,
    fail_next_resize: bool,
}

impl View for FakeSurfaceSink {
    type V = SinkView;

    closed spec fn view(&self) -> SinkView {
        SinkView {
            fed: chunks(self.fed_output@),
            resizes: self.resize_calls@,
            fails_feed: self.fail_next_feed,
            fails_resize: self.fail_next_resize,
        }
    }
}

impl FakeSurfaceSink {
    /// Creates an empty fake surface sink.
    pub fn new() -> (sink: Self)
        ensures
            sink@ == blank_sink(),
    {
        let sink = FakeSurfaceSink {
            fed_output: Vec::new(),
            resize_calls: Vec::new(),
            fail_next_feed: false,
            fail_next_resize: false,
        };
        assert(sink@.fed =~= seq![]);
        assert(sink@.resizes =~= seq![]);
        sink
    }

    /// Injects a single surface-feed failure.
    pub fn fail_next_feed(&mut self)
        ensures
            final(self)@ == (SinkView { fails_feed: true, ..old(self)@ }),
    {
        self.fail_next_feed = true;
    }

    /// Injects a single surface-resize failure.
    pub fn fail_next_resize(&mut self)
        ensures
            final(self)@ == (SinkView { fails_resize: true, ..old(self)@ }),
    {
        self.fail_next_resize = true;
    }

    /// Returns the mirrored output chunks.
    pub fn fed_output_chunks(&self) -> (r: &[Vec<u8>])
        ensures
            chunks(r@) == self@.fed,
    {
        self.fed_output.as_slice()
    }

    /// Returns the mirrored output as one flattened byte buffer.
    pub fn fed_output_bytes(&self) -> (all: Vec<u8>)
        ensures
            all@ == joined(self@.fed),
    {
        join(&self.fed_output)
    }

    /// Returns the surface resize calls observed during the test run.
    pub fn resize_calls(&self) -> (r: &[Size])
        ensures
            r@ == self@.resizes,
    {
        self.resize_calls.as_slice()
    }

    fn put_output(&mut self, bytes: &[u8]) -> (r: core::result::Result<(), &'static str>)
        ensures
            final(self)@ == old(self)@.fed(bytes@),
            r is Err <==> old(self)@.fails_feed,
            r matches Err(text) ==> text@ == "injected surface feed failure"@,
    {
        if self.fail_next_feed {
            self.fail_next_feed = false;
            return Err("injected surface feed failure");
        }
        push_chunk(&mut self.fed_output, bytes);
        Ok(())
    }

    fn put_size(&mut self, size: Size) -> (r: core::result::Result<(), &'static str>)
        ensures
            final(self)@ == old(self)@.resized(size),
            r is Err <==> old(self)@.fails_resize,
            r matches Err(text) ==> text@ == "injected surface resize failure"@,
    {
        if self.fail_next_resize {
            self.fail_next_resize = false;
            return Err("injected surface resize failure");
        }
        self.resize_calls.push(size);
        Ok(())
    }
}

impl Default for FakeSurfaceSink {
    fn default() -> (sink: Self)
        ensures
            sink@ == blank_sink(),
    {
        Self::new()
    }
}

impl AttachSurfaceSink for FakeSurfaceSink {
    type Error = &'static str;

    fn feed_output(&mut self, bytes: &[u8]) -> (r: core::result::Result<(), &'static str>)
        ensures
            final(self)@ == old(self)@.fed(bytes@),
            r is Err <==> old(self)@.fails_feed,
            r matches Err(text) ==> text@ == "injected surface feed failure"@,
    {
        self.put_output(bytes)
    }

    fn resize(&mut self, size: Size) -> (r: core::result::Result<(), &'static str>)
        ensures
            final(self)@ == old(self)@.resized(size),
            r is Err <==> old(self)@.fails_resize,
            r matches Err(text) ==> text@ == "injected surface resize failure"@,
    {
        self.put_size(size)
    }
}

/// A [`FakeTerminalControl`] as plain values.
pub ghost struct ControlView {
    pub suspended: Seq<AttachScreenPolicy>,
    pub restored: Seq<AttachScreenPolicy>,
    pub fails_suspend: bool,
    pub restore_failures_left: u32,
    pub attempts: usize,
}

impl ControlView {
    /// The control after an attempt to suspend.
    pub open spec fn after_suspend(self, policy: AttachScreenPolicy) -> ControlView {
        if self.fails_suspend {
            ControlView { fails_suspend: false, ..self }
        } else {
            ControlView { suspended: self.suspended.push(policy), ..self }
        }
    }

    /// The control after an attempt to restore. The counter stops at its
    /// greatest value.
    pub open spec fn after_restore(self, policy: AttachScreenPolicy) -> ControlView {
        let attempts = if self.attempts == usize::MAX {
            self.attempts
        } else {
            (self.attempts + 1) as usize
        };
        if self.restore_failures_left > 0 {
            ControlView {
                attempts,
                restore_failures_left: (self.restore_failures_left - 1) as u32,
                ..self
            }
        } else {
            ControlView { attempts, restored: self.restored.push(policy), ..self }
        }
    }
}

/// A control that has seen nothing.
pub open spec fn blank_control() -> ControlView {
    ControlView {
        suspended: seq![],
        restored: seq![],
        fails_suspend: false,
        restore_failures_left: 0,
        attempts: 0,
    }
}

/// Fake host terminal control that records suspend/restore calls.
#[derive(Debug, Clone, PartialEq, Eq)]
pub struct FakeTerminalControl {
    suspended_policies: Vec<AttachScreenPolicy>,
    restored_policies: Vec<AttachScreenPolicy>,
    fail_suspend: bool,
    fail_restore_count: u32,
    restore_attempts: usize,
}

impl View for FakeTerminalControl {
    type V = ControlView;

    closed spec fn view(&self) -> ControlView {
        ControlView {
            suspended: self.suspended_policies@,
            restored: self.restored_policies@,
            fails_suspend: self.fail_suspend,
            restore_failures_left: self.fail_restore_count,
            attempts: self.restore_attempts,
        }
    }
}

impl FakeTerminalControl {
    /// Creates a new fake terminal control with no injected failures.
    pub fn new() -> (control: Self)
        ensures
            control@ == blank_control(),
    {
        let control = FakeTerminalControl {
            suspended_policies: Vec::new(),
            restored_policies: Vec::new(),
            fail_suspend: false,
            fail_restore_count: 0,
            restore_attempts: 0,
        };
        assert(control@.suspended =~= seq![]);
        assert(control@.restored =~= seq![]);
        control
    }

    /// Injects a suspend failure.
    pub fn fail_suspend(&mut self)
        ensures
            final(self)@ == (ControlView { fails_suspend: true, ..old(self)@ }),
    {
        self.fail_suspend = true;
    }

    /// Causes the next `count` restore attempts to fail.
    pub fn fail_restore_times(&mut self, count: u32)
        ensures
            final(self)@ == (ControlView { restore_failures_left: count, ..old(self)@ }),
    {
        self.fail_restore_count = count;
    }

    /// Returns the screen policies passed to suspend.
    pub fn suspended_policies(&self) -> (r: &[AttachScreenPolicy])
        ensures
            r@ == self@.suspended,
    {
        self.suspended_policies.as_slice()
    }

    /// Returns the screen policies restored so far.
    pub fn restored_policies(&self) -> (r: &[AttachScreenPolicy])
        ensures
            r@ == self@.restored,
    {
        self.restored_policies.as_slice()
    }

    /// Returns the number of successful restore calls.
    ///
    /// Failed restore attempts are not counted.
    pub fn restore_call_count(&self) -> (n: usize)
        ensures
            n == self@.restored.len(),
    {
        self.restored_policies.len()
    }

    /// Returns the number of restore attempts, including failures.
    pub fn restore_attempt_count(&self) -> (n: usize)
        ensures
            n == self@.attempts,
    {
        self.restore_attempts
    }
}

impl HostTerminalControl for FakeTerminalControl {
    type Error = &'static str;

    fn suspend_for_attach(&mut self, policy: AttachScreenPolicy) -> (r: core::result::Result<
        TerminalRestoreToken,
        &'static str,
    >)
        ensures
            final(self)@ == old(self)@.after_suspend(policy),
            match r {
                Ok(token) => !old(self)@.fails_suspend && token@.screen_policy == policy,
                Err(text) => old(self)@.fails_suspend && text@ == "injected suspend failure"@,
            },
    {
        if self.fail_suspend {
            self.fail_suspend = false;
            return Err("injected suspend failure");
        }
        self.suspended_policies.push(policy);
        Ok(TerminalRestoreToken::new(policy))
    }

    fn restore_after_attach(&mut self, token: &mut TerminalRestoreToken) -> (r:
        core::result::Result<(), &'static str>)
        ensures
            final(self)@ == old(self)@.after_restore(old(token)@.screen_policy),
            final(token)@.screen_policy == old(token)@.screen_policy,
            match r {
                Ok(_) => old(self)@.restore_failures_left == 0 && final(token)@.consumed,
                Err(text) => old(self)@.restore_failures_left > 0 && final(token)@ == old(token)@
                    && text@ == "injected restore failure"@,
            },
    {
        self.restore_attempts = self.restore_attempts.saturating_add(1);
        if self.fail_restore_count > 0 {
            self.fail_restore_count = self.fail_restore_count - 1;
            return Err("injected restore failure");
        }
        self.restored_policies.push(token.screen_policy());
        token.consume();
        Ok(())
    }
}

impl Default for FakeTerminalControl {
    fn default() -> (control: Self)
        ensures
            control@ == blank_control(),
    {
        Self::new()
    }
}

/// An [`AttachHarness`] as plain values.
pub ghost struct HarnessView {
    pub pane: PaneId,
    pub options: AttachOptions,
    pub stage: AttachState,
    pub terminal: TerminalView,
    pub pty: PtyView,
    pub surface: SinkView,
    pub control: ControlView,
    pub embedded_size: Size,
    pub script: Seq<AttachHarnessStep>,
}

/// A harness action: the harness after it, and the fault that stopped it.
pub type HarnessAction = (HarnessView, Option<HarnessFault>);

impl HarnessView {
    /// Resizes child and surface.
    pub open spec fn resized(self, size: Size) -> HarnessAction {
        let child = HarnessView { pty: self.pty.resized(size), ..self };
        if self.pty.fails_resize {
            (child, Some(HarnessFault::PtyResize("injected pty resize failure"@)))
        } else {
            let both = HarnessView { surface: self.surface.resized(size), ..child };
            if self.surface.fails_resize {
                (both, Some(HarnessFault::SurfaceResize("injected surface resize failure"@)))
            } else {
                (both, None)
            }
        }
    }

    /// Writes input to the child.
    pub open spec fn sent(self, bytes: Seq<u8>) -> HarnessAction {
        (
            HarnessView { pty: self.pty.written(bytes), ..self },
            if self.pty.fails_write {
                Some(HarnessFault::PtyWrite("injected pty write failure"@))
            } else {
                None
            },
        )
    }

    /// Feeds output to the surface.
    pub open spec fn fed(self, bytes: Seq<u8>) -> HarnessAction {
        (
            HarnessView { surface: self.surface.fed(bytes), ..self },
            if self.surface.fails_feed {
                Some(HarnessFault::SurfaceFeed("injected surface feed failure"@))
            } else {
                None
            },
        )
    }

    /// Feeds the first `n` chunks to the surface.
    pub open spec fn fed_all(self, held: Seq<Seq<u8>>) -> HarnessAction
        decreases held.len(),
    {
        if held.len() == 0 {
            (self, None)
        } else {
            let first = self.fed(held[0]);
            if first.1 is Some {
                first
            } else {
                first.0.fed_all(held.skip(1))
            }
        }
    }

    /// Restores the host terminal.
    pub open spec fn restored(self) -> HarnessAction {
        (
            HarnessView { control: self.control.after_restore(self.options.screen), ..self },
            if self.control.restore_failures_left > 0 {
                Some(HarnessFault::Restore("injected restore failure"@))
            } else {
                None
            },
        )
    }

    /// Moves one chunk of child output to the terminal, and on to the surface
    /// or to what is held back. With it comes what is then held back.
    pub open spec fn drained(self, held: Seq<Seq<u8>>) -> (HarnessAction, Seq<Seq<u8>>) {
        if self.pty.output.len() == 0 {
            ((self, None), held)
        } else {
            let bytes = self.pty.output[0];
            let shown = HarnessView {
                pty: PtyView { output: self.pty.output.skip(1), ..self.pty },
                terminal: self.terminal.written(bytes),
                ..self
            };
            if self.terminal.fails {
                ((shown, Some(HarnessFault::Stdout("injected stdout failure"@))), held)
            } else if self.options.output == AttachOutputPolicy::FanoutToSurfaceAndStdout {
                (shown.fed(bytes), held)
            } else {
                ((shown, None), held.push(bytes))
            }
        }
    }

    /// Carries out the drain steps that the script goes on with.
    pub open spec fn drained_on(self, held: Seq<Seq<u8>>) -> (HarnessAction, Seq<Seq<u8>>)
        decreases self.script.len(),
    {
        if self.script.len() > 0 && self.script[0] == AttachHarnessStep::DrainPtyOutput {
            let next = HarnessView { script: self.script.skip(1), ..self }.drained(held);
            if next.0.1 is Some || next.0.0.script.len() >= self.script.len() {
                next
            } else {
                next.0.0.drained_on(next.1)
            }
        } else {
            ((self, None), held)
        }
    }

    /// Detaches: the embedded size comes back, then the output that was held
    /// back, then the terminal.
    pub open spec fn detached(self, held: Seq<Seq<u8>>) -> HarnessAction {
        let sized = if self.options.resize == AttachResizePolicy::UseRealTerminalSize {
            self.resized(self.embedded_size)
        } else {
            (self, None)
        };
        if sized.1 is Some {
            sized
        } else {
            let replayed = if self.options.output == AttachOutputPolicy::StdoutOnlyThenReplay {
                sized.0.fed_all(held)
            } else {
                sized
            };
            if replayed.1 is Some {
                replayed
            } else {
                let back = replayed.0.restored();
                if back.1 is Some {
                    back
                } else {
                    (HarnessView { stage: AttachState::Embedded, ..back.0 }, None)
                }
            }
        }
    }

    /// The harness without the first step of its script.
    pub open spec fn next_step(self) -> HarnessView {
        HarnessView { script: self.script.skip(1), ..self }
    }

    /// Carries out the script until a detach or a fault.
    pub open spec fn played(self, matcher: MatcherView, held: Seq<Seq<u8>>) -> HarnessAction
        decreases self.script.len(),
    {
        if self.script.len() == 0 {
            (self, Some(HarnessFault::ScriptExhaustedBeforeDetach))
        } else {
            let on = self.next_step();
            match self.script[0] {
                AttachHarnessStep::ReadStdin => {
                    if self.terminal.stdin.len() == 0 {
                        on.played(matcher, held)
                    } else {
                        let (at, bytes) = self.terminal.stdin[0];
                        let read = HarnessView {
                            terminal: TerminalView {
                                stdin: self.terminal.stdin.skip(1),
                                ..self.terminal
                            },
                            ..on
                        };
                        let run = matcher.run(bytes, at);
                        let forward = matcher.flushed(at) + run.forward;
                        let sent = if forward.len() > 0 {
                            read.sent(forward)
                        } else {
                            (read, None)
                        };
                        if sent.1 is Some {
                            sent
                        } else if run.detached {
                            let drained = sent.0.drained_on(held);
                            if drained.0.1 is Some {
                                drained.0
                            } else {
                                drained.0.0.detached(drained.1)
                            }
                        } else if sent.0.script.len() < self.script.len() {
                            sent.0.played(
                                MatcherView { held: run.held, times: run.times, ..matcher },
                                held,
                            )
                        } else {
                            sent
                        }
                    }
                },
                AttachHarnessStep::DrainPtyOutput => {
                    let drained = on.drained(held);
                    if drained.0.1 is Some || drained.0.0.script.len() >= self.script.len() {
                        drained.0
                    } else {
                        drained.0.0.played(matcher, drained.1)
                    }
                },
                AttachHarnessStep::ResizeTerminal(size) => {
                    let shown = HarnessView {
                        terminal: TerminalView { size, ..self.terminal },
                        ..on
                    };
                    let sized = if self.options.resize == AttachResizePolicy::UseRealTerminalSize {
                        shown.resized(size)
                    } else {
                        (shown, None)
                    };
                    if sized.1 is Some || sized.0.script.len() >= self.script.len() {
                        sized
                    } else {
                        sized.0.played(matcher, held)
                    }
                },
                AttachHarnessStep::Tick(at) => {
                    let sent = if matcher.expired(at) {
                        on.sent(matcher.held)
                    } else {
                        (on, None)
                    };
                    if sent.1 is Some || sent.0.script.len() >= self.script.len() {
                        sent
                    } else {
                        sent.0.played(matcher.settled(at), held)
                    }
                },
            }
        }
    }

    /// A run that has suspended the terminal: the real size is applied and the
    /// script is carried out. After a fault the terminal is restored once more.
    pub open spec fn attached(self) -> HarnessAction {
        let sized = if self.options.resize == AttachResizePolicy::UseRealTerminalSize {
            self.resized(self.terminal.size)
        } else {
            (self, None)
        };
        let end = if sized.1 is Some {
            sized
        } else {
            HarnessView { stage: AttachState::Attached, ..sized.0 }.played(
                MatcherView::fresh(self.options.detach),
                seq![],
            )
        };
        if end.1 is Some {
            (end.0.restored().0, end.1)
        } else {
            end
        }
    }

    /// A whole run.
    pub open spec fn run(self) -> HarnessAction {
        let asked = HarnessView {
            stage: AttachState::Attaching,
            control: self.control.after_suspend(self.options.screen),
            ..self
        };
        if self.control.fails_suspend {
            (asked, Some(HarnessFault::Suspend("injected suspend failure"@)))
        } else {
            asked.attached()
        }
    }
}

proof fn lemma_played_to_the_end(harness: HarnessView, matcher: MatcherView, held: Seq<Seq<u8>>)
    ensures
        harness.played(matcher, held).1 is None ==> harness.played(matcher, held).0.stage
            == AttachState::Embedded,
    decreases harness.script.len(),
{
    if harness.script.len() > 0 {
        let on = harness.next_step();
        match harness.script[0] {
            AttachHarnessStep::ReadStdin => {
                if harness.terminal.stdin.len() == 0 {
                    lemma_played_to_the_end(on, matcher, held);
                } else {
                    let (at, bytes) = harness.terminal.stdin[0];
                    let read = HarnessView {
                        terminal: TerminalView {
                            stdin: harness.terminal.stdin.skip(1),
                            ..harness.terminal
                        },
                        ..on
                    };
                    let run = matcher.run(bytes, at);
                    let forward = matcher.flushed(at) + run.forward;
                    let sent = if forward.len() > 0 {
                        read.sent(forward)
                    } else {
                        (read, None)
                    };
                    lemma_played_to_the_end(
                        sent.0,
                        MatcherView { held: run.held, times: run.times, ..matcher },
                        held,
                    );
                }
            },
            AttachHarnessStep::DrainPtyOutput => {
                let drained = on.drained(held);
                lemma_played_to_the_end(drained.0.0, matcher, drained.1);
            },
            AttachHarnessStep::ResizeTerminal(size) => {
                let shown = HarnessView {
                    terminal: TerminalView { size, ..harness.terminal },
                    ..on
                };
                lemma_played_to_the_end(shown, matcher, held);
                lemma_played_to_the_end(shown.resized(size).0, matcher, held);
            },
            AttachHarnessStep::Tick(at) => {
                lemma_played_to_the_end(on, matcher.settled(at), held);
                lemma_played_to_the_end(on.sent(matcher.held).0, matcher.settled(at), held);
            },
        }
    }
}

/// A run that succeeds is a complete cycle: the harness is embedded again.
pub proof fn law_harness_success_is_a_cycle(harness: HarnessView)
    requires
        harness.stage == AttachState::Embedded,
    ensures
        harness.run().1 is None ==> harness.run().0.stage == AttachState::Embedded,
{
    if !harness.control.fails_suspend {
        let asked = HarnessView {
            stage: AttachState::Attaching,
            control: harness.control.after_suspend(harness.options.screen),
            ..harness
        };
        let sized = if harness.options.resize == AttachResizePolicy::UseRealTerminalSize {
            asked.resized(asked.terminal.size)
        } else {
            (asked, None)
        };
        lemma_played_to_the_end(
            HarnessView { stage: AttachState::Attached, ..sized.0 },
            MatcherView::fresh(harness.options.detach),
            seq![],
        );
    }
}

/// A resize reaches the child and then the surface. A failure of the first
/// leaves the second alone, and each failure is told as what it is and happens
/// once.
pub proof fn law_harness_resizes(harness: HarnessView, size: Size)
    ensures
        ({
            let (next, fault) = harness.resized(size);
            &&& next.terminal == harness.terminal && next.control == harness.control
            &&& next.script == harness.script && next.stage == harness.stage
            &&& harness.pty.fails_resize ==> {
                &&& fault matches Some(HarnessFault::PtyResize(_))
                &&& next.pty.resizes == harness.pty.resizes && !next.pty.fails_resize
                &&& next.surface == harness.surface
            }
            &&& !harness.pty.fails_resize ==> next.pty.resizes == harness.pty.resizes.push(size)
            &&& !harness.pty.fails_resize && harness.surface.fails_resize ==> {
                &&& fault matches Some(HarnessFault::SurfaceResize(_))
                &&& next.surface.resizes == harness.surface.resizes && !next.surface.fails_resize
            }
            &&& !harness.pty.fails_resize && !harness.surface.fails_resize ==> fault is None
                && next.surface.resizes == harness.surface.resizes.push(size)
            &&& next.pty.writes == harness.pty.writes && next.pty.output == harness.pty.output
            &&& next.surface.fed == harness.surface.fed
        }),
{
}

/// Output of the child goes to the terminal, the oldest chunk first and one at a
/// time, and then to the surface at once or among what is held back, as the
/// output policy says. A terminal that fails keeps it from the surface.
pub proof fn law_harness_drains(harness: HarnessView, held: Seq<Seq<u8>>)
    ensures
        ({
            let ((next, fault), kept) = harness.drained(held);
            let fans_out = harness.options.output == AttachOutputPolicy::FanoutToSurfaceAndStdout;
            &&& next.script == harness.script && next.pty.writes == harness.pty.writes
            &&& harness.pty.output.len() == 0 ==> next == harness && fault is None && kept == held
            &&& harness.pty.output.len() > 0 ==> {
                let bytes = harness.pty.output.first();
                &&& next.pty.output == harness.pty.output.drop_first()
                &&& harness.terminal.fails ==> (fault matches Some(HarnessFault::Stdout(_)))
                    && next.terminal.stdout == harness.terminal.stdout && next.surface
                    == harness.surface && kept == held && !next.terminal.fails
                &&& !harness.terminal.fails ==> next.terminal.stdout
                    == harness.terminal.stdout.push(bytes)
                &&& !harness.terminal.fails && !fans_out ==> fault is None && kept == held.push(
                    bytes,
                ) && next.surface == harness.surface
                &&& !harness.terminal.fails && fans_out ==> kept == held
                &&& !harness.terminal.fails && fans_out && !harness.surface.fails_feed ==> fault
                    is None && next.surface.fed == harness.surface.fed.push(bytes)
                &&& !harness.terminal.fails && fans_out && harness.surface.fails_feed ==> (fault
                    matches Some(HarnessFault::SurfaceFeed(_))) && next.surface.fed
                    == harness.surface.fed
            }
        }),
{
    if harness.pty.output.len() > 0 {
        assert(harness.pty.output.skip(1) =~= harness.pty.output.drop_first());
    }
}

/// Where nothing fails, chunks reach a surface in their order.
pub proof fn law_harness_replays(harness: HarnessView, held: Seq<Seq<u8>>)
    requires
        !harness.surface.fails_feed,
    ensures
        ({
            let (next, fault) = harness.fed_all(held);
            &&& fault is None
            &&& next.surface.fed == harness.surface.fed + held
            &&& next == (HarnessView {
                surface: SinkView { fed: harness.surface.fed + held, ..harness.surface },
                ..harness
            })
        }),
    decreases held.len(),
{
    if held.len() > 0 {
        let first = harness.fed(held[0]).0;
        law_harness_replays(first, held.skip(1));
        assert(harness.surface.fed.push(held[0]) + held.skip(1) =~= harness.surface.fed + held);
    } else {
        assert(harness.surface.fed + held =~= harness.surface.fed);
    }
}

/// A detach in which nothing fails gives the embedded size back, if the size was
/// taken, to the child and to the surface. Output that was held back for later
/// is then fed, in its order, and after that the terminal is restored under the
/// policy under which it was suspended.
pub proof fn law_harness_detaches(harness: HarnessView, held: Seq<Seq<u8>>)
    requires
        !harness.pty.fails_resize,
        !harness.surface.fails_resize,
        !harness.surface.fails_feed,
        harness.control.restore_failures_left == 0,
    ensures
        ({
            let (next, fault) = harness.detached(held);
            let sized = harness.options.resize == AttachResizePolicy::UseRealTerminalSize;
            let replays = harness.options.output == AttachOutputPolicy::StdoutOnlyThenReplay;
            &&& fault is None
            &&& next.stage == AttachState::Embedded
            &&& next.pty.resizes == if sized {
                harness.pty.resizes.push(harness.embedded_size)
            } else {
                harness.pty.resizes
            }
            &&& next.surface.resizes == if sized {
                harness.surface.resizes.push(harness.embedded_size)
            } else {
                harness.surface.resizes
            }
            &&& next.surface.fed == if replays {
                harness.surface.fed + held
            } else {
                harness.surface.fed
            }
            &&& next.control.restored == harness.control.restored.push(harness.options.screen)
            &&& next.control.attempts == harness.control.attempts + 1 || harness.control.attempts
                == usize::MAX
            &&& next.terminal == harness.terminal && next.pty.writes == harness.pty.writes
        }),
{
    let sized = if harness.options.resize == AttachResizePolicy::UseRealTerminalSize {
        harness.resized(harness.embedded_size)
    } else {
        (harness, None)
    };
    law_harness_replays(sized.0, held);
}

/// A run suspends the terminal first, under the screen policy of its options. A
/// terminal that cannot be suspended is left at that. Otherwise every fault is
/// followed by one more attempt to restore the terminal, and a script that ends
/// before it detaches is a fault.
pub proof fn law_harness_runs(harness: HarnessView)
    ensures
        ({
            let (end, fault) = harness.run();
            &&& harness.control.fails_suspend ==> {
                &&& fault matches Some(HarnessFault::Suspend(_))
                &&& end.control.suspended == harness.control.suspended
                &&& end.control.restored == harness.control.restored && end.control.attempts
                    == harness.control.attempts
                &&& end.terminal == harness.terminal && end.pty == harness.pty && end.surface
                    == harness.surface && end.script == harness.script
            }
            &&& !harness.control.fails_suspend && harness.options.resize
                == AttachResizePolicy::UseRealTerminalSize && harness.pty.fails_resize ==> {
                &&& fault matches Some(HarnessFault::PtyResize(_))
                &&& end.control.suspended == harness.control.suspended.push(harness.options.screen)
                &&& harness.control.restore_failures_left == 0 ==> end.control.restored
                    == harness.control.restored.push(harness.options.screen)
                &&& end.control.attempts == harness.control.attempts + 1
                    || harness.control.attempts == usize::MAX
            }
            &&& !harness.control.fails_suspend && harness.options.resize
                == AttachResizePolicy::KeepEmbeddedSize && harness.script.len() == 0 ==> {
                &&& fault == Some(HarnessFault::ScriptExhaustedBeforeDetach)
                &&& end.control.suspended == harness.control.suspended.push(harness.options.screen)
                &&& harness.control.restore_failures_left == 0 ==> end.control.restored
                    == harness.control.restored.push(harness.options.screen)
                &&& end.pty == harness.pty && end.surface == harness.surface
            }
        }),
{
}

/// A step of a script: a resize of the terminal reaches child and surface, if
/// the size of the terminal is used, and a moment that passes gives up a chord
/// that has waited too long, as input. Then the script goes on.
pub proof fn law_harness_steps(harness: HarnessView, matcher: MatcherView, held: Seq<Seq<u8>>)
    requires
        harness.script.len() > 0,
        !harness.pty.fails_resize && !harness.surface.fails_resize,
        !harness.pty.fails_write && !harness.terminal.fails && !harness.surface.fails_feed,
    ensures
        ({
            let end = harness.played(matcher, held);
            let on = HarnessView { script: harness.script.drop_first(), ..harness };
            let (pty, surface) = (harness.pty, harness.surface);
            &&& harness.script.first() matches AttachHarnessStep::ResizeTerminal(size) ==> {
                let shown = HarnessView {
                    terminal: TerminalView { size, ..harness.terminal },
                    ..on
                };
                end == if harness.options.resize == AttachResizePolicy::UseRealTerminalSize {
                    (HarnessView {
                        pty: PtyView { resizes: pty.resizes.push(size), ..pty },
                        surface: SinkView { resizes: surface.resizes.push(size), ..surface },
                        ..shown
                    }).played(matcher, held)
                } else {
                    shown.played(matcher, held)
                }
            }
            &&& harness.script.first() matches AttachHarnessStep::Tick(at) ==> end
                == if matcher.expired(at) {
                (HarnessView {
                    pty: PtyView { writes: pty.writes.push(matcher.held), ..pty },
                    ..on
                }).played(MatcherView { held: seq![], times: seq![], ..matcher }, held)
            } else {
                on.played(matcher, held)
            }
            &&& harness.script.first() is DrainPtyOutput && pty.output.len() == 0 ==> end
                == on.played(matcher, held)
            &&& harness.script.first() is ReadStdin && harness.terminal.stdin.len() == 0 ==> end
                == on.played(matcher, held)
        }),
{
    assert(harness.script.skip(1) =~= harness.script.drop_first());
}

/// Scripted in-memory attach bridge runner.
#[derive(Debug, Clone, PartialEq, Eq)]
pub struct AttachHarness {
    bridge: AttachBridge,
    terminal: InMemoryTerminal,
    pty: FakePtyEndpoint,
    surface: FakeSurfaceSink,
    control: FakeTerminalControl,
    embedded_size: Size,
    script: VecDeque<AttachHarnessStep>,
}

impl View for AttachHarness {
    type V = HarnessView;

    closed spec fn view(&self) -> HarnessView {
        HarnessView {
            pane: self.bridge.pane(),
            options: self.bridge.opts(),
            stage: self.bridge.stage(),
            terminal: self.terminal@,
            pty: self.pty@,
            surface: self.surface@,
            control: self.control@,
            embedded_size: self.embedded_size,
            script: self.script@,
        }
    }
}

impl AttachHarness {
    /// Creates a new attach harness with fake endpoints.
    pub fn new(
        pane_id: PaneId,
        options: AttachOptions,
        embedded_size: Size,
        real_terminal_size: Size,
    ) -> (harness: Self)
        ensures
            harness@ == (HarnessView {
                pane: pane_id,
                options,
                stage: AttachState::Embedded,
                terminal: TerminalView {
                    stdin: seq![],
                    stdout: seq![],
                    size: real_terminal_size,
                    fails: false,
                },
                pty: blank_pty(),
                surface: blank_sink(),
                control: blank_control(),
                embedded_size,
                script: seq![],
            }),
    {
        let harness = AttachHarness {
            bridge: AttachBridge::with_options(pane_id, options),
            terminal: InMemoryTerminal::new(real_terminal_size),
            pty: FakePtyEndpoint::new(),
            surface: FakeSurfaceSink::new(),
            control: FakeTerminalControl::new(),
            embedded_size,
            script: VecDeque::new(),
        };
        assert(harness@.script =~= seq![]);
        harness
    }

    /// Returns the current attach bridge state.
    pub fn bridge_state(&self) -> (state: AttachState)
        ensures
            state == self@.stage,
    {
        self.bridge.state()
    }

    /// Returns the fake terminal.
    pub fn terminal(&self) -> (terminal: &InMemoryTerminal)
        ensures
            terminal@ == self@.terminal,
    {
        &self.terminal
    }

    /// Returns the fake terminal for mutation.
    pub fn terminal_mut(&mut self) -> (terminal: &mut InMemoryTerminal)
        ensures
            (*terminal)@ == old(self)@.terminal,
            final(self)@ == (HarnessView { terminal: (*final(terminal))@, ..old(self)@ }),
    {
        &mut self.terminal
    }

    /// Returns the fake PTY endpoint.
    pub fn pty(&self) -> (pty: &FakePtyEndpoint)
        ensures
            pty@ == self@.pty,
    {
        &self.pty
    }

    /// Returns the fake PTY endpoint for mutation.
    pub fn pty_mut(&mut self) -> (pty: &mut FakePtyEndpoint)
        ensures
            (*pty)@ == old(self)@.pty,
            final(self)@ == (HarnessView { pty: (*final(pty))@, ..old(self)@ }),
    {
        &mut self.pty
    }

    /// Returns the fake surface sink.
    pub fn surface(&self) -> (surface: &FakeSurfaceSink)
        ensures
            surface@ == self@.surface,
    {
        &self.surface
    }

    /// Returns the fake surface sink for mutation.
    pub fn surface_mut(&mut self) -> (surface: &mut FakeSurfaceSink)
        ensures
            (*surface)@ == old(self)@.surface,
            final(self)@ == (HarnessView { surface: (*final(surface))@, ..old(self)@ }),
    {
        &mut self.surface
    }

    /// Returns the fake terminal control.
    pub fn control(&self) -> (control: &FakeTerminalControl)
        ensures
            control@ == self@.control,
    {
        &self.control
    }

    /// Returns the fake terminal control for mutation.
    pub fn control_mut(&mut self) -> (control: &mut FakeTerminalControl)
        ensures
            (*control)@ == old(self)@.control,
            final(self)@ == (HarnessView { control: (*final(control))@, ..old(self)@ }),
    {
        &mut self.control
    }

    /// Queues a stdin read event for the given bytes and timestamp.
    pub fn queue_stdin(&mut self, at: Instant, bytes: Vec<u8>)
        ensures
            final(self)@ == (HarnessView {
                terminal: TerminalView {
                    stdin: old(self)@.terminal.stdin.push((at, bytes@)),
                    ..old(self)@.terminal
                },
                script: old(self)@.script.push(AttachHarnessStep::ReadStdin),
                ..old(self)@
            }),
    {
        self.terminal.queue_stdin(at, bytes);
        self.script.push_back(AttachHarnessStep::ReadStdin);
    }

    /// Queues a PTY-output drain event for the given bytes.
    pub fn queue_pty_output(&mut self, bytes: Vec<u8>)
        ensures
            final(self)@ == (HarnessView {
                pty: PtyView { output: old(self)@.pty.output.push(bytes@), ..old(self)@.pty },
                script: old(self)@.script.push(AttachHarnessStep::DrainPtyOutput),
                ..old(self)@
            }),
    {
        self.pty.queue_output(bytes);
        self.script.push_back(AttachHarnessStep::DrainPtyOutput);
    }

    /// Queues a real-terminal resize event.
    pub fn queue_resize(&mut self, size: Size)
        ensures
            final(self)@ == (HarnessView {
                script: old(self)@.script.push(AttachHarnessStep::ResizeTerminal(size)),
                ..old(self)@
            }),
    {
        self.script.push_back(AttachHarnessStep::ResizeTerminal(size));
    }

    /// Queues a clock tick for detach-matcher timeout checks.
    pub fn queue_tick(&mut self, at: Instant)
        ensures
            final(self)@ == (HarnessView {
                script: old(self)@.script.push(AttachHarnessStep::Tick(at)),
                ..old(self)@
            }),
    {
        self.script.push_back(AttachHarnessStep::Tick(at));
    }

    fn resize_attached_target(&mut self, size: Size) -> (r: core::result::Result<
        (),
        AttachHarnessError,
    >)
        ensures
            (final(self)@, fault_of(r)) == old(self)@.resized(size),
    {
        match self.pty.put_size(size) {
            Err(text) => Err(AttachHarnessError::PtyResize(text)),
            Ok(_) => match self.surface.put_size(size) {
                Err(text) => Err(AttachHarnessError::SurfaceResize(text)),
                Ok(_) => Ok(()),
            },
        }
    }

    fn send(&mut self, bytes: &[u8]) -> (r: core::result::Result<(), AttachHarnessError>)
        ensures
            (final(self)@, fault_of(r)) == old(self)@.sent(bytes@),
    {
        match self.pty.put_input(bytes) {
            Err(text) => Err(AttachHarnessError::PtyWrite(text)),
            Ok(_) => Ok(()),
        }
    }

    fn feed(&mut self, bytes: &[u8]) -> (r: core::result::Result<(), AttachHarnessError>)
        ensures
            (final(self)@, fault_of(r)) == old(self)@.fed(bytes@),
    {
        match self.surface.put_output(bytes) {
            Err(text) => Err(AttachHarnessError::SurfaceFeed(text)),
            Ok(_) => Ok(()),
        }
    }

    fn restore(&mut self) -> (r: core::result::Result<(), AttachHarnessError>)
        ensures
            (final(self)@, fault_of(r)) == old(self)@.restored(),
    {
        let mut token = TerminalRestoreToken::new(self.bridge.options().screen);
        match self.control.restore_after_attach(&mut token) {
            Err(text) => Err(AttachHarnessError::Restore(text)),
            Ok(_) => Ok(()),
        }
    }

    fn drain_pty_output(&mut self, held: &mut Vec<Vec<u8>>) -> (r: core::result::Result<
        (),
        AttachHarnessError,
    >)
        ensures
            ((final(self)@, fault_of(r)), chunks(final(held)@)) == old(self)@.drained(
                chunks(old(held)@),
            ),
    {
        match self.pty.try_read_output() {
            None => Ok(()),
            Some(bytes) => match self.terminal.put_stdout(bytes.as_slice()) {
                Err(text) => Err(AttachHarnessError::Stdout(text)),
                Ok(_) => {
                    if self.bridge.options().output == AttachOutputPolicy::FanoutToSurfaceAndStdout {
                        self.feed(bytes.as_slice())
                    } else {
                        push_chunk(held, bytes.as_slice());
                        Ok(())
                    }
                },
            },
        }
    }

    fn drain_trailing_pty_output(&mut self, held: &mut Vec<Vec<u8>>) -> (r: core::result::Result<
        (),
        AttachHarnessError,
    >)
        ensures
            ((final(self)@, fault_of(r)), chunks(final(held)@)) == old(self)@.drained_on(
                chunks(old(held)@),
            ),
    {
        let ghost all = self@.drained_on(chunks(held@));
        while self.script.len() > 0 && self.script[0] == AttachHarnessStep::DrainPtyOutput
            invariant
                all == self@.drained_on(chunks(held@)),
                all == old(self)@.drained_on(chunks(old(held)@)),
            decreases self.script@.len(),
        {
            let ghost before = self@;
            let _ = self.script.pop_front();
            assert(self@ == before.next_step());
            self.drain_pty_output(held)?;
            assert(self@.script == before.script.skip(1));
        }
        Ok(())
    }

    fn replay(&mut self, held: &Vec<Vec<u8>>) -> (r: core::result::Result<(), AttachHarnessError>)
        ensures
            (final(self)@, fault_of(r)) == old(self)@.fed_all(chunks(held@)),
    {
        let ghost parts = chunks(held@);
        let ghost all = self@.fed_all(parts);
        let mut i: usize = 0;
        assert(parts.skip(0) =~= parts);
        while i < held.len()
            invariant
                i <= held@.len(),
                parts == chunks(held@),
                all == old(self)@.fed_all(parts),
                all == self@.fed_all(parts.skip(i as int)),
            decreases held@.len() - i,
        {
            assert(parts.skip(i as int)[0] == held@[i as int]@);
            assert(parts.skip(i as int).skip(1) =~= parts.skip(i + 1));
            self.feed(held[i].as_slice())?;
            i = i + 1;
        }
        Ok(())
    }

    fn finish_detach(&mut self, held: &Vec<Vec<u8>>) -> (r: core::result::Result<
        (),
        AttachHarnessError,
    >)
        ensures
            (final(self)@, fault_of(r)) == old(self)@.detached(chunks(held@)),
    {
        if self.bridge.options().resize == AttachResizePolicy::UseRealTerminalSize {
            self.resize_attached_target(self.embedded_size)?;
        }
        if self.bridge.options().output == AttachOutputPolicy::StdoutOnlyThenReplay {
            proof {
                lemma_fed_all_keeps(self@, chunks(held@));
            }
            self.replay(held)?;
        }
        self.restore()?;
        self.bridge.follow(AttachState::Embedded);
        Ok(())
    }

    fn play(&mut self) -> (r: core::result::Result<(), AttachHarnessError>)
        ensures
            (final(self)@, fault_of(r)) == old(self)@.played(
                MatcherView::fresh(old(self)@.options.detach),
                seq![],
            ),
    {
        let mut matcher = DetachMatcher::new(&self.bridge.options().detach);
        let mut held: Vec<Vec<u8>> = Vec::new();
        assert(chunks(held@) =~= seq![]);
        let ghost all = self@.played(matcher@, chunks(held@));
        while self.script.len() > 0
            invariant
                matcher@.valid(),
                all == self@.played(matcher@, chunks(held@)),
                all == old(self)@.played(MatcherView::fresh(old(self)@.options.detach), seq![]),
            decreases self.script@.len(),
        {
            let ghost before = self@;
            let step = self.script[0];
            let _ = self.script.pop_front();
            assert(self@ == before.next_step());
            match step {
                AttachHarnessStep::ReadStdin => match self.terminal.take_stdin() {
                    Some(stdin) => {
                        let fed = matcher.feed_bytes(stdin.bytes.as_slice(), stdin.at);
                        if fed.forward.len() > 0 {
                            self.send(fed.forward.as_slice())?;
                        }
                        if fed.detached {
                            self.drain_trailing_pty_output(&mut held)?;
                            return self.finish_detach(&held);
                        }
                    },
                    None => {},
                },
                AttachHarnessStep::DrainPtyOutput => {
                    self.drain_pty_output(&mut held)?;
                },
                AttachHarnessStep::ResizeTerminal(size) => {
                    self.terminal.set_size(size);
                    if self.bridge.options().resize == AttachResizePolicy::UseRealTerminalSize {
                        self.resize_attached_target(size)?;
                    }
                },
                AttachHarnessStep::Tick(at) => match matcher.check_timeout(at) {
                    Some(bytes) => {
                        self.send(bytes.as_slice())?;
                    },
                    None => {},
                },
            }
        }
        Err(AttachHarnessError::ScriptExhaustedBeforeDetach)
    }

    /// Runs the scripted attach session.
    ///
    /// Successful runs always model a complete attach/detach cycle. If the
    /// script ends before a detach sequence is observed, this returns
    /// [`AttachHarnessError::ScriptExhaustedBeforeDetach`].
    ///
    /// After a detach match, trailing scripted [`AttachHarnessStep::DrainPtyOutput`]
    /// steps are still consumed before cleanup so the harness can model
    /// detach-time PTY draining for [`AttachOutputPolicy::StdoutOnlyThenReplay`].
    ///
    /// On errors after attach has been confirmed, the bridge remains in
    /// [`AttachState::Attached`] even though the host terminal is still
    /// restored during cleanup.
    pub fn run(&mut self) -> (r: core::result::Result<(), AttachHarnessError>)
        requires
            old(self)@.stage == AttachState::Embedded,
        ensures
            (final(self)@, fault_of(r)) == old(self)@.run(),
    {
        self.bridge.begin_attach();
        let policy = self.bridge.options().screen;
        match self.control.suspend_for_attach(policy) {
            Err(text) => {
                return Err(AttachHarnessError::Suspend(text));
            },
            Ok(_) => {},
        }
        let ghost asked = self@;
        let sized = if self.bridge.options().resize == AttachResizePolicy::UseRealTerminalSize {
            self.resize_attached_target(self.terminal.size())
        } else {
            Ok(())
        };
        let end = match sized {
            Ok(_) => {
                self.bridge.confirm_attached();
                self.play()
            },
            Err(error) => Err(error),
        };
        match end {
            Ok(_) => Ok(()),
            Err(error) => {
                let _ = self.restore();
                Err(error)
            },
        }
    }
}

proof fn lemma_fed_all_keeps(harness: HarnessView, held: Seq<Seq<u8>>)
    ensures
        harness.fed_all(held).0.options == harness.options,
    decreases held.len(),
{
    if held.len() > 0 {
        lemma_fed_all_keeps(harness.fed(held[0]).0, held.skip(1));
    }
}

} // verus!
