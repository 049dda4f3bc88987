//! PTY abstractions: frames, the bounded frame queue, writers, and the traits
//! that a backend implements.

use std::collections::VecDeque;

use vstd::prelude::*;

use crate::error::{error_of, ErrorView, IoOperation, PaneError, Result};
use crate::pane::{PaneConfig, Size};
use crate::sink::{sink_drained, sink_put, sink_took, HeldSink, WriterSink};
use crate::time::{Duration, Instant};

verus! {

/// How many output frames a queue holds when nothing else is configured.
pub const DEFAULT_PTY_OUTPUT_FRAME_QUEUE_CAPACITY: usize = 128;

/// Runtime PTY backend abstraction.
pub trait PtyBackend {
    /// Concrete process handle returned by this backend.
    type Process: PtyProcess;

    /// Spawns a new PTY-backed child process.
    ///
    /// # Errors
    ///
    /// Returns an error if configuration validation fails, the PTY cannot be
    /// allocated, or the child process cannot be spawned.
    fn spawn(&self, config: &PaneConfig) -> Result<Self::Process>;
}

/// Runtime PTY process abstraction.
pub trait PtyProcess: Send {
    /// Returns the backend-specific process identifier.
    fn id(&self) -> &str;

    /// Returns a writer for sending raw bytes to the child PTY.
    fn writer(&self) -> PtyWriter;

    /// Attempts to receive the next PTY frame without blocking.
    fn try_recv(&mut self) -> Option<PtyFrame>;

    /// Resizes the PTY.
    ///
    /// # Errors
    ///
    /// Returns an error if the resize operation fails.
    fn resize(&mut self, size: Size) -> Result<()>;

    /// Terminates the child process.
    ///
    /// # Errors
    ///
    /// Returns an error if the kill request fails.
    fn kill(&mut self) -> Result<()>;
}

/// Raw PTY frames emitted before any higher-level parsing.
#[derive(Debug, Clone, PartialEq, Eq)]
pub enum PtyFrame {
    /// Raw output bytes emitted by the child.
    Output {
        /// Monotonic frame sequence number for this process.
        seq: u64,
        /// Raw PTY bytes.
        bytes: Vec<u8>,
        /// Capture timestamp.
        at: Instant,
    },
    /// A child request for the current cursor position.
    ///
    /// Reserved for output splitting that detects CPR queries before surface
    /// parsing.
    CursorPositionRequest {
        /// Monotonic frame sequence number for this process.
        seq: u64,
        /// Capture timestamp.
        at: Instant,
    },
    /// Child exit notification.
    Exited {
        /// Monotonic frame sequence number for this process.
        seq: u64,
        /// Exit code, if the backend can determine one.
        code: Option<i32>,
        /// Capture timestamp.
        at: Instant,
    },
    /// Queue overflow notification with structured loss metadata.
    Overflow {
        /// Monotonic frame sequence number for this process.
        seq: u64,
        /// Number of dropped output frames.
        dropped_frames: u64,
        /// Number of dropped bytes.
        dropped_bytes: u64,
        /// Capture timestamp.
        at: Instant,
    },
    /// Backend or I/O error notification.
    Error {
        /// Monotonic frame sequence number for this process.
        seq: u64,
        /// Human-readable error description.
        message: String,
        /// Capture timestamp.
        at: Instant,
    },
}

/// What a frame carries, without its number and time.
pub ghost enum FrameView {
    Output(Seq<u8>),
    CursorPositionRequest,
    Exited(Option<i32>),
    Overflow { dropped_frames: u64, dropped_bytes: u64 },
    Error(Seq<char>),
}

impl View for PtyFrame {
    type V = FrameView;

    open spec fn view(&self) -> FrameView {
        match self {
            PtyFrame::Output { bytes, .. } => FrameView::Output(bytes@),
            PtyFrame::CursorPositionRequest { .. } => FrameView::CursorPositionRequest,
            PtyFrame::Exited { code, .. } => FrameView::Exited(*code),
            PtyFrame::Overflow { dropped_frames, dropped_bytes, .. } => FrameView::Overflow {
                dropped_frames: *dropped_frames,
                dropped_bytes: *dropped_bytes,
            },
            PtyFrame::Error { message, .. } => FrameView::Error(message@),
        }
    }
}

/// Cumulative overflow statistics for a PTY process.
#[derive(Debug, Clone, Copy, PartialEq, Eq, Structural)]
pub struct OverflowStats {
    /// Number of dropped output frames.
    pub dropped_frames: u64,
    /// Number of dropped output bytes.
    pub dropped_bytes: u64,
}

impl Default for OverflowStats {
    fn default() -> (stats: Self)
        ensures
            stats == (OverflowStats { dropped_frames: 0, dropped_bytes: 0 }),
    {
        OverflowStats { dropped_frames: 0, dropped_bytes: 0 }
    }
}

/// Why a low-level write or flush did not succeed.
#[derive(Debug, Clone, PartialEq, Eq)]
pub struct WriteFault {
    /// Whether the operation would block or was interrupted.
    pub transient: bool,
    /// Human-readable description.
    pub message: String,
}

/// The byte sink behind a [`PtyWriter`].
pub trait PtySink: Send {
    /// Writes all bytes, or says why not.
    fn write_all(&mut self, bytes: &[u8]) -> core::result::Result<(), String>;

    /// Writes some bytes and returns how many.
    fn write(&mut self, bytes: &[u8]) -> core::result::Result<usize, WriteFault>;

    /// Flushes what was written.
    fn flush(&mut self) -> core::result::Result<(), WriteFault>;
}

/// Writer for PTY stdin.
pub struct PtyWriter {
    sink: WriterSink,
}

/// The error of a failed PTY operation.
pub open spec fn io_failure_view(operation: IoOperation, message: Seq<char>) -> ErrorView {
    ErrorView::Io { operation, message }
}

fn io_failure(operation: IoOperation, message: String) -> (error: PaneError)
    ensures
        error@ == io_failure_view(operation, message@),
{
    PaneError::Io { operation, message }
}

/// Turns the reply to a full write into a pane result.
pub fn write_result(written: core::result::Result<(), String>) -> (r: Result<()>)
    ensures
        match r {
            Ok(_) => written is Ok,
            Err(e) => written is Err && e@ == io_failure_view(
                IoOperation::Write,
                written->Err_0@,
            ),
        },
{
    match written {
        Ok(_) => Ok(()),
        Err(message) => Err(io_failure(IoOperation::Write, message)),
    }
}

/// Turns the reply to a flush into a pane result.
pub fn flush_result(flushed: core::result::Result<(), WriteFault>) -> (r: Result<()>)
    ensures
        match r {
            Ok(_) => flushed is Ok,
            Err(e) => flushed is Err && e@ == io_failure_view(
                IoOperation::Flush,
                flushed->Err_0.message@,
            ),
        },
{
    match flushed {
        Ok(_) => Ok(()),
        Err(fault) => Err(io_failure(IoOperation::Flush, fault.message)),
    }
}

/// Whether a full write of these bytes and a flush after it turn a sink like
/// this and come to this: the first failure, as an error of the operation that
/// failed, after which nothing more is asked.
pub open spec fn writes(
    before: WriterSink,
    after: WriterSink,
    bytes: &[u8],
    r: Result<()>,
) -> bool {
    exists|middle: WriterSink, written: core::result::Result<(), String>|
        #[trigger] sink_put(before, middle, bytes, written) && match written {
            Err(message) => after == middle && error_of(r) == Some(
                io_failure_view(IoOperation::Write, message@),
            ),
            Ok(_) => flushes(middle, after, r),
        }
}

/// Whether one flush turns a sink like this and comes to this.
pub open spec fn flushes(before: WriterSink, after: WriterSink, r: Result<()>) -> bool {
    exists|flushed: core::result::Result<(), WriteFault>|
        #[trigger] sink_drained(before, after, flushed) && match flushed {
            Err(fault) => error_of(r) == Some(
                io_failure_view(IoOperation::Flush, fault.message@),
            ),
            Ok(_) => r is Ok,
        }
}

/// Whether writing `bytes` once turns a sink like this and comes to this: no
/// more than all of them, or a fault.
pub open spec fn tries_write(
    before: WriterSink,
    after: WriterSink,
    bytes: &[u8],
    reply: WriteReply,
) -> bool {
    exists|taken: core::result::Result<usize, WriteFault>|
        #[trigger] sink_took(before, after, bytes, taken) && reply == match taken {
            Ok(n) => WriteReply::Wrote(
                if n <= bytes@.len() {
                    n
                } else {
                    bytes@.len() as usize
                },
            ),
            Err(fault) => WriteReply::Fault(fault),
        }
}

/// Whether one flush, as part of a retried write, turns a sink like this and
/// comes to this.
pub open spec fn tries_flush(before: WriterSink, after: WriterSink, reply: WriteReply) -> bool {
    exists|flushed: core::result::Result<(), WriteFault>|
        #[trigger] sink_drained(before, after, flushed) && reply == match flushed {
            Ok(_) => WriteReply::Flushed,
            Err(fault) => WriteReply::Fault(fault),
        }
}

/// Whether one attempt of a retried write turns a sink like this and comes to
/// this. A write is given the bytes from where the attempt says on.
pub open spec fn attempts(
    before: WriterSink,
    after: WriterSink,
    attempt: WriteAttempt,
    bytes: Seq<u8>,
    reply: WriteReply,
) -> bool {
    match attempt {
        WriteAttempt::Write { from } => exists|rest: &[u8]|
            #[trigger] tries_write(before, after, rest, reply) && rest@ == bytes.skip(from as int),
        WriteAttempt::Flush => tries_flush(before, after, reply),
    }
}

/// A write that succeeds has put all its bytes and flushed after that; one that
/// fails says which of the two did and in which words, and a write that failed
/// is not flushed.
pub proof fn law_full_writes(before: WriterSink, after: WriterSink, bytes: &[u8], r: Result<()>)
    requires
        writes(before, after, bytes, r),
    ensures
        r is Ok ==> exists|middle: WriterSink|
            {
                &&& #[trigger] sink_put(before, middle, bytes, Ok(()))
                &&& sink_drained(middle, after, Ok(()))
            },
        r is Err ==> {
            ||| exists|message: String|
                {
                    &&& #[trigger] sink_put(before, after, bytes, Err(message))
                    &&& r->Err_0@ == (ErrorView::Io {
                        operation: IoOperation::Write,
                        message: message@,
                    })
                }
            ||| exists|middle: WriterSink, fault: WriteFault|
                {
                    &&& sink_put(before, middle, bytes, Ok(()))
                    &&& #[trigger] sink_drained(middle, after, Err(fault))
                    &&& r->Err_0@ == (ErrorView::Io {
                        operation: IoOperation::Flush,
                        message: fault.message@,
                    })
                }
        },
{
    let (middle, written) = choose|
        middle: WriterSink,
        written: core::result::Result<(), String>,
    |
        #[trigger] sink_put(before, middle, bytes, written) && match written {
            Err(message) => after == middle && error_of(r) == Some(
                io_failure_view(IoOperation::Write, message@),
            ),
            Ok(_) => flushes(middle, after, r),
        };
    match written {
        Err(message) => {
            assert(sink_put(before, after, bytes, Err(message)));
        },
        Ok(done) => {
            assert(done == ());
            let flushed = choose|flushed: core::result::Result<(), WriteFault>|
                #[trigger] sink_drained(middle, after, flushed) && match flushed {
                    Err(fault) => error_of(r) == Some(
                        io_failure_view(IoOperation::Flush, fault.message@),
                    ),
                    Ok(_) => r is Ok,
                };
            match flushed {
                Ok(done) => {
                    assert(done == ());
                },
                Err(fault) => {
                    assert(sink_drained(middle, after, Err(fault)));
                },
            }
        },
    }
}

/// One attempt is one call on the sink: a write is given the bytes from where
/// it stands on and tells how many were taken, a flush flushes, and a fault is
/// told of as it was.
pub proof fn law_one_attempt(
    before: WriterSink,
    after: WriterSink,
    attempt: WriteAttempt,
    bytes: Seq<u8>,
    reply: WriteReply,
)
    requires
        attempts(before, after, attempt, bytes, reply),
    ensures
        attempt matches WriteAttempt::Write { from } ==> exists|
            rest: &[u8],
            taken: core::result::Result<usize, WriteFault>,
        |
            {
                &&& #[trigger] sink_took(before, after, rest, taken)
                &&& rest@ == bytes.skip(from as int)
                &&& reply matches WriteReply::Wrote(n) ==> (taken matches Ok(told) && (told
                    <= rest@.len() ==> n == told) && n <= rest@.len())
                &&& reply matches WriteReply::Fault(fault) ==> taken == Err::<usize, WriteFault>(
                    fault,
                )
                &&& !(reply is Flushed)
            },
        attempt is Flush ==> exists|flushed: core::result::Result<(), WriteFault>|
            {
                &&& #[trigger] sink_drained(before, after, flushed)
                &&& reply is Flushed <==> flushed is Ok
                &&& reply matches WriteReply::Fault(fault) ==> flushed == Err::<(), WriteFault>(
                    fault,
                )
                &&& !(reply is Wrote)
            },
{
    if let WriteAttempt::Write { from } = attempt {
        let rest = choose|rest: &[u8]|
            #[trigger] tries_write(before, after, rest, reply) && rest@ == bytes.skip(from as int);
        let taken = choose|taken: core::result::Result<usize, WriteFault>|
            #[trigger] sink_took(before, after, rest, taken) && reply == match taken {
                Ok(n) => WriteReply::Wrote(
                    if n <= rest@.len() {
                        n
                    } else {
                        rest@.len() as usize
                    },
                ),
                Err(fault) => WriteReply::Fault(fault),
            };
        assert(sink_took(before, after, rest, taken));
    }
}

impl PtyWriter {
    /// The sink behind the writer.
    pub closed spec fn sink(self) -> WriterSink {
        self.sink
    }

    /// Creates a writer on a sink.
    pub fn new(sink: Box<dyn PtySink>) -> (writer: PtyWriter)
        ensures
            writer.sink().holds(&*sink),
    {
        PtyWriter { sink: HeldSink::new(sink) }
    }

    /// Writes all bytes to the child PTY and flushes.
    ///
    /// # Errors
    ///
    /// Returns an error of the write or of the flush, whichever fails first.
    pub fn write_bytes(&mut self, bytes: &[u8]) -> (r: Result<()>)
        ensures
            writes(old(self).sink(), final(self).sink(), bytes, r),
            r matches Err(e) ==> (e@ matches ErrorView::Io { operation, message } && (operation
                == IoOperation::Write || operation == IoOperation::Flush)),
    {
        let ghost before = self.sink;
        let (written, _) = self.sink.put(bytes);
        let ghost middle = self.sink;
        assert(sink_put(before, middle, bytes, written));
        match write_result(written) {
            Ok(_) => {
                let (flushed, _) = self.sink.drain();
                assert(sink_drained(middle, self.sink, flushed));
                flush_result(flushed)
            },
            Err(error) => Err(error),
        }
    }

    /// Makes one attempt of a retried write, or one flush, as `attempt` says,
    /// and returns what came of it.
    ///
    /// A sink that claims to have written more than it was given counts as
    /// having written all of it.
    pub fn attempt(&mut self, attempt: WriteAttempt, bytes: &[u8]) -> (reply: WriteReply)
        requires
            attempt matches WriteAttempt::Write { from } ==> from <= bytes@.len(),
        ensures
            fits(reply, attempt, bytes@.len()),
            attempts(old(self).sink(), final(self).sink(), attempt, bytes@, reply),
    {
        let ghost before = self.sink;
        match attempt {
            WriteAttempt::Write { from } => {
                let rest = vstd::slice::slice_subrange(bytes, from, bytes.len());
                let (taken, _) = self.sink.take(rest);
                let ghost answer = taken;
                let reply = match taken {
                    Ok(written) => WriteReply::Wrote(
                        if written <= rest.len() {
                            written
                        } else {
                            rest.len()
                        },
                    ),
                    Err(fault) => WriteReply::Fault(fault),
                };
                assert(sink_took(before, self.sink, rest, answer));
                assert(tries_write(before, self.sink, rest, reply));
                reply
            },
            WriteAttempt::Flush => {
                let (flushed, _) = self.sink.drain();
                assert(sink_drained(before, self.sink, flushed));
                match flushed {
                    Ok(_) => WriteReply::Flushed,
                    Err(fault) => WriteReply::Fault(fault),
                }
            },
        }
    }

    /// Flushes the child PTY writer.
    ///
    /// # Errors
    ///
    /// Returns an error if the flush fails.
    pub fn flush(&mut self) -> (r: Result<()>)
        ensures
            flushes(old(self).sink(), final(self).sink(), r),
            r matches Err(e) ==> (e@ matches ErrorView::Io { operation, message } && operation
                == IoOperation::Flush),
    {
        let ghost before = self.sink;
        let (flushed, _) = self.sink.drain();
        assert(sink_drained(before, self.sink, flushed));
        flush_result(flushed)
    }
}

/// The next low-level operation of a retried write.
#[derive(Debug, Clone, Copy, PartialEq, Eq, Structural)]
pub enum WriteAttempt {
    /// Write the bytes from this index on.
    Write {
        /// Index of the first byte not yet written.
        from: usize,
    },
    /// Flush.
    Flush,
}

/// What a low-level operation came to.
#[derive(Debug, Clone, PartialEq, Eq)]
pub enum WriteReply {
    /// So many bytes were written.
    Wrote(usize),
    /// The flush succeeded.
    Flushed,
    /// The operation failed.
    Fault(WriteFault),
}

/// Whether a reply can come of an attempt on `total` bytes: a write never
/// flushes, a flush never writes, and no write takes more than was left.
pub open spec fn fits(reply: WriteReply, attempt: WriteAttempt, total: nat) -> bool {
    match reply {
        WriteReply::Wrote(n) => attempt matches WriteAttempt::Write { from } && from + n <= total,
        WriteReply::Flushed => attempt is Flush,
        WriteReply::Fault(_) => true,
    }
}

/// A retried write that failed for good.
#[derive(Debug, PartialEq, Eq)]
pub struct PtyWriteFailure {
    /// Bytes written before the failure.
    pub bytes_written: usize,
    /// The failure.
    pub error: PaneError,
}

/// What a retried write does next.
#[derive(Debug, PartialEq, Eq)]
pub enum WriteProgress {
    /// Go on with the next attempt at once.
    Continue,
    /// Go on with the next attempt after the retry delay.
    Pause(Duration),
    /// Everything is written and flushed.
    Done(usize),
    /// The write failed.
    Failed(PtyWriteFailure),
}

/// A write that is tried again, a limited number of times in a row, when the
/// PTY reports that it would block or was interrupted.
#[derive(Debug, Clone, Copy, PartialEq, Eq, Structural)]
pub struct RetryingWrite {
    /// Number of bytes to write.
    pub total: usize,
    /// Bytes written so far.
    pub written: usize,
    /// Transient failures since the last success.
    pub retries: usize,
    /// How many transient failures in a row are tolerated.
    pub max_retries: usize,
    /// Pause after a transient failure.
    pub delay: Duration,
}

impl RetryingWrite {
    /// Written bytes never exceed the total, nor retries the limit.
    pub open spec fn valid(self) -> bool {
        self.written <= self.total && self.retries <= self.max_retries
    }

    /// The attempt that is due.
    pub open spec fn due(self) -> WriteAttempt {
        if self.written < self.total {
            WriteAttempt::Write { from: self.written }
        } else {
            WriteAttempt::Flush
        }
    }

    /// The operation that the due attempt performs.
    pub open spec fn operation(self) -> IoOperation {
        if self.written < self.total {
            IoOperation::Write
        } else {
            IoOperation::Flush
        }
    }

    /// Starts a write of `total` bytes.
    pub fn start(total: usize, max_retries: usize, delay: Duration) -> (write: Self)
        ensures
            write == (RetryingWrite { total, written: 0, retries: 0, max_retries, delay }),
            write.valid(),
    {
        RetryingWrite { total, written: 0, retries: 0, max_retries, delay }
    }

    /// Returns the attempt that is due.
    pub fn next_attempt(&self) -> (attempt: WriteAttempt)
        ensures
            attempt == self.due(),
    {
        if self.written < self.total {
            WriteAttempt::Write { from: self.written }
        } else {
            WriteAttempt::Flush
        }
    }

    /// Takes in what the due attempt came to.
    ///
    /// A write that reports no bytes fails. Progress resets the retry count. A
    /// transient failure within the limit pauses; any other failure is final.
    pub fn take_reply(&mut self, reply: WriteReply) -> (progress: WriteProgress)
        requires
            old(self).valid(),
            fits(reply, old(self).due(), old(self).total as nat),
        ensures
            final(self).valid(),
            final(self).total == old(self).total,
            final(self).max_retries == old(self).max_retries,
            final(self).delay == old(self).delay,
            match reply {
                WriteReply::Wrote(n) => if n == 0 {
                    &&& *final(self) == *old(self)
                    &&& progress matches WriteProgress::Failed(failure)
                    &&& failure.bytes_written == old(self).written
                    &&& failure.error@ == io_failure_view(
                        IoOperation::Write,
                        "write returned zero bytes"@,
                    )
                } else {
                    &&& final(self).written == old(self).written + n
                    &&& final(self).retries == 0
                    &&& progress is Continue
                },
                WriteReply::Flushed => *final(self) == *old(self) && progress
                    == WriteProgress::Done(old(self).written),
                WriteReply::Fault(fault) => if fault.transient && old(self).retries < old(
                    self,
                ).max_retries {
                    &&& final(self).retries == old(self).retries + 1
                    &&& final(self).written == old(self).written
                    &&& progress == WriteProgress::Pause(old(self).delay)
                } else {
                    &&& *final(self) == *old(self)
                    &&& progress matches WriteProgress::Failed(failure)
                    &&& failure.bytes_written == old(self).written
                    &&& failure.error@ == io_failure_view(
                        old(self).operation(),
                        fault.message@,
                    )
                },
            },
    {
        match reply {
            WriteReply::Wrote(n) => {
                if n == 0 {
                    return WriteProgress::Failed(
                        PtyWriteFailure {
                            bytes_written: self.written,
                            error: io_failure(
                                IoOperation::Write,
                                "write returned zero bytes".to_owned(),
                            ),
                        },
                    );
                }
                self.written = self.written + n;
                self.retries = 0;
                WriteProgress::Continue
            },
            WriteReply::Flushed => WriteProgress::Done(self.written),
            WriteReply::Fault(fault) => {
                if fault.transient && self.retries < self.max_retries {
                    self.retries = self.retries + 1;
                    return WriteProgress::Pause(self.delay);
                }
                let operation = if self.written < self.total {
                    IoOperation::Write
                } else {
                    IoOperation::Flush
                };
                WriteProgress::Failed(
                    PtyWriteFailure {
                        bytes_written: self.written,
                        error: io_failure(operation, fault.message),
                    },
                )
            },
        }
    }
}

/// A frame as the queue holds it.
#[derive(Debug, PartialEq, Eq)]
pub enum QueuedPtyFrame {
    /// A frame that was pushed.
    Frame(PtyFrame),
    /// Output that was dropped, summed up where the first drop happened.
    OverflowSummary {
        /// Sequence number of the first dropped frame.
        seq: u64,
        /// Capture timestamp of the first dropped frame.
        at: Instant,
        /// Number of dropped output frames.
        dropped_frames: u64,
        /// Number of dropped bytes.
        dropped_bytes: u64,
    },
}

/// How many of the queued frames are output.
pub open spec fn outputs(frames: Seq<QueuedPtyFrame>) -> nat
    decreases frames.len(),
{
    if frames.len() == 0 {
        0
    } else {
        outputs(frames.drop_last()) + (if is_output(frames.last()) {
            1nat
        } else {
            0
        })
    }
}

/// Whether a queued frame is output.
pub open spec fn is_output(frame: QueuedPtyFrame) -> bool {
    frame matches QueuedPtyFrame::Frame(f) && f is Output
}

/// A [`PtyFrameQueue`] as plain values.
pub ghost struct QueueView {
    pub frames: Seq<QueuedPtyFrame>,
    pub capacity: nat,
    pub stats: OverflowStats,
}

impl QueueView {
    /// Whether index `i` holds the overflow summary.
    pub open spec fn summary_at(self, i: int) -> bool {
        0 <= i < self.frames.len() && self.frames[i] is OverflowSummary
    }

    /// Whether an overflow summary waits in the queue.
    pub open spec fn has_summary(self) -> bool {
        exists|i: int| self.summary_at(i)
    }

    /// At most the capacity of output frames and one summary, whose losses are
    /// among the cumulative ones.
    pub open spec fn valid(self) -> bool {
        &&& self.capacity >= 1
        &&& outputs(self.frames) <= self.capacity
        &&& forall|i: int, j: int| self.summary_at(i) && self.summary_at(j) ==> i == j
        &&& forall|i: int| #[trigger] self.summary_at(i) ==> {
            &&& self.frames[i]->dropped_frames <= self.stats.dropped_frames
            &&& self.frames[i]->dropped_bytes <= self.stats.dropped_bytes
        }
    }

    /// Whether the loss counters can take one more frame of `len` bytes.
    pub open spec fn can_count(self, len: nat) -> bool {
        self.stats.dropped_frames < u64::MAX && self.stats.dropped_bytes + len <= u64::MAX
    }

    /// Whether an output frame pushed now is dropped.
    pub open spec fn drops_output(self) -> bool {
        self.has_summary() || outputs(self.frames) >= self.capacity
    }

    /// The loss that the waiting summary reports: frames and bytes.
    pub open spec fn pending_loss(self) -> (int, int) {
        if self.has_summary() {
            let i = choose|i: int| self.summary_at(i);
            (self.frames[i]->dropped_frames as int, self.frames[i]->dropped_bytes as int)
        } else {
            (0, 0)
        }
    }

    /// The queue after an output frame of `len` bytes was dropped.
    pub open spec fn after_drop(self, seq: u64, len: nat, at: Instant) -> QueueView {
        let stats = OverflowStats {
            dropped_frames: (self.stats.dropped_frames + 1) as u64,
            dropped_bytes: (self.stats.dropped_bytes + len) as u64,
        };
        if self.has_summary() {
            let i = choose|i: int| self.summary_at(i);
            QueueView {
                frames: self.frames.update(
                    i,
                    QueuedPtyFrame::OverflowSummary {
                        seq: self.frames[i]->seq,
                        at: self.frames[i]->at,
                        dropped_frames: (self.frames[i]->dropped_frames + 1) as u64,
                        dropped_bytes: (self.frames[i]->dropped_bytes + len) as u64,
                    },
                ),
                stats,
                ..self
            }
        } else {
            QueueView {
                frames: self.frames.push(
                    QueuedPtyFrame::OverflowSummary {
                        seq,
                        at,
                        dropped_frames: 1,
                        dropped_bytes: len as u64,
                    },
                ),
                stats,
                ..self
            }
        }
    }

    /// The queue after a frame is pushed.
    pub open spec fn after_push(self, frame: PtyFrame) -> QueueView {
        match frame {
            PtyFrame::Output { seq, bytes, at } if self.drops_output() => self.after_drop(
                seq,
                bytes@.len(),
                at,
            ),
            _ => QueueView { frames: self.frames.push(QueuedPtyFrame::Frame(frame)), ..self },
        }
    }

    /// The frame that is handed out next.
    pub open spec fn head(self) -> Option<PtyFrame> {
        if self.frames.len() == 0 {
            None
        } else {
            Some(
                match self.frames[0] {
                    QueuedPtyFrame::Frame(frame) => frame,
                    QueuedPtyFrame::OverflowSummary { seq, at, dropped_frames, dropped_bytes } =>
                        PtyFrame::Overflow { seq, dropped_frames, dropped_bytes, at },
                },
            )
        }
    }

    /// The queue after its head was handed out.
    pub open spec fn after_recv(self) -> QueueView {
        if self.frames.len() == 0 {
            self
        } else {
            QueueView { frames: self.frames.skip(1), ..self }
        }
    }
}

proof fn lemma_outputs_bound(frames: Seq<QueuedPtyFrame>)
    ensures
        outputs(frames) <= frames.len(),
    decreases frames.len(),
{
    if frames.len() > 0 {
        lemma_outputs_bound(frames.drop_last());
    }
}

proof fn lemma_outputs_skip(frames: Seq<QueuedPtyFrame>)
    requires
        frames.len() > 0,
    ensures
        outputs(frames) == outputs(frames.skip(1)) + (if is_output(frames[0]) {
            1nat
        } else {
            0
        }),
    decreases frames.len(),
{
    if frames.len() == 1 {
        assert(frames.skip(1).len() == 0);
        assert(frames.drop_last().len() == 0);
        assert(outputs(frames.drop_last()) == 0);
    } else {
        lemma_outputs_skip(frames.drop_last());
        assert(frames.skip(1).drop_last() =~= frames.drop_last().skip(1));
        assert(frames.skip(1).last() == frames.last());
    }
}

proof fn lemma_outputs_update(frames: Seq<QueuedPtyFrame>, i: int, frame: QueuedPtyFrame)
    requires
        0 <= i < frames.len(),
        is_output(frames[i]) == is_output(frame),
    ensures
        outputs(frames.update(i, frame)) == outputs(frames),
    decreases frames.len(),
{
    let changed = frames.update(i, frame);
    if i < frames.len() - 1 {
        lemma_outputs_update(frames.drop_last(), i, frame);
        assert(changed.drop_last() =~= frames.drop_last().update(i, frame));
        assert(changed.last() == frames.last());
    } else {
        assert(changed.drop_last() =~= frames.drop_last());
    }
}

/// Pushing keeps the queue's bounds: output never exceeds the capacity and at
/// most one summary waits.
pub proof fn law_queue_push_is_bounded(queue: QueueView, frame: PtyFrame)
    requires
        queue.valid(),
        frame matches PtyFrame::Output { seq, bytes, at } ==> queue.can_count(bytes@.len()),
    ensures
        queue.after_push(frame).valid(),
{
    let next = queue.after_push(frame);
    if frame is Output && queue.drops_output() {
        if queue.has_summary() {
            let i = choose|i: int| queue.summary_at(i);
            assert(queue.summary_at(i));
            lemma_outputs_update(queue.frames, i, next.frames[i]);
            assert forall|k: int| #[trigger] next.summary_at(k) implies k == i by {
                if k != i {
                    assert(next.frames[k] == queue.frames[k]);
                    assert(queue.summary_at(k));
                }
            }
        } else {
            assert(next.frames.drop_last() =~= queue.frames);
            let n = queue.frames.len() as int;
            assert forall|k: int| #[trigger] next.summary_at(k) implies k == n by {
                if k < n {
                    assert(queue.summary_at(k));
                }
            }
        }
    } else {
        assert(next.frames.drop_last() =~= queue.frames);
        assert forall|k: int| #[trigger] next.summary_at(k) implies queue.summary_at(k)
            && next.frames[k] == queue.frames[k] by {}
    }
}

/// Output is kept while there is room for it and none was lost that is still to
/// be told of. Otherwise it is lost and counted, one frame and its bytes, the
/// loss is told of where the first one happened, and every frame that waits
/// stays where it is.
pub proof fn law_queue_keeps_what_fits(queue: QueueView, seq: u64, bytes: Vec<u8>, at: Instant)
    requires
        queue.valid(),
        queue.can_count(bytes@.len()),
    ensures
        ({
            let frame = PtyFrame::Output { seq, bytes, at };
            let next = queue.after_push(frame);
            let lossy = exists|i: int|
                0 <= i < queue.frames.len() && #[trigger] queue.frames[i] is OverflowSummary;
            &&& next.capacity == queue.capacity
            &&& if !lossy && outputs(queue.frames) < queue.capacity {
                next.frames == queue.frames.push(QueuedPtyFrame::Frame(frame)) && next.stats
                    == queue.stats
            } else {
                &&& next.stats.dropped_frames == queue.stats.dropped_frames + 1
                &&& next.stats.dropped_bytes == queue.stats.dropped_bytes + bytes@.len()
                &&& next.frames.len() == queue.frames.len() + if lossy {
                    0int
                } else {
                    1int
                }
                &&& forall|i: int|
                    0 <= i < queue.frames.len() && !(queue.frames[i] is OverflowSummary)
                        ==> #[trigger] next.frames[i] == queue.frames[i]
                &&& !lossy ==> next.frames.last() == (QueuedPtyFrame::OverflowSummary {
                    seq,
                    at,
                    dropped_frames: 1,
                    dropped_bytes: bytes@.len() as u64,
                })
                &&& forall|i: int|
                    0 <= i < queue.frames.len() && queue.frames[i] is OverflowSummary
                        ==> #[trigger] next.frames[i] == (QueuedPtyFrame::OverflowSummary {
                        seq: queue.frames[i]->seq,
                        at: queue.frames[i]->at,
                        dropped_frames: (queue.frames[i]->dropped_frames + 1) as u64,
                        dropped_bytes: (queue.frames[i]->dropped_bytes + bytes@.len()) as u64,
                    })
            }
        }),
{
    if queue.has_summary() {
        let i = choose|i: int| queue.summary_at(i);
        assert(queue.summary_at(i));
        assert(queue.frames[i] is OverflowSummary);
        assert forall|k: int| 0 <= k < queue.frames.len() && queue.frames[k]
            is OverflowSummary implies k == i by {
            assert(queue.summary_at(k));
        }
    } else {
        assert forall|k: int| 0 <= k < queue.frames.len() implies !(#[trigger] queue.frames[k]
            is OverflowSummary) by {
            assert(!queue.summary_at(k));
        }
    }
}

/// What came first goes first: the queue hands out its oldest entry and keeps
/// the others in their order, and an empty queue hands out nothing.
pub proof fn law_queue_goes_in_order(queue: QueueView, frame: PtyFrame)
    ensures
        queue.frames.len() == 0 ==> queue.head() is None && queue.after_recv() == queue,
        queue.frames.len() > 0 ==> queue.after_recv().frames == queue.frames.skip(1),
        queue.frames.len() > 0 && queue.frames[0] == QueuedPtyFrame::Frame(frame) ==> queue.head()
            == Some(frame),
        queue.after_recv().capacity == queue.capacity,
        outputs(seq![]) == 0,
        outputs(queue.frames.push(QueuedPtyFrame::Frame(frame))) == outputs(queue.frames)
            + if frame is Output {
            1nat
        } else {
            0nat
        },
{
    assert(queue.frames.push(QueuedPtyFrame::Frame(frame)).drop_last() =~= queue.frames);
}

/// Handing out a frame keeps the queue's bounds.
pub proof fn law_queue_recv_is_bounded(queue: QueueView)
    requires
        queue.valid(),
    ensures
        queue.after_recv().valid(),
{
    let next = queue.after_recv();
    if queue.frames.len() > 0 {
        lemma_outputs_skip(queue.frames);
        assert forall|k: int| #[trigger] next.summary_at(k) implies queue.summary_at(k + 1)
            && next.frames[k] == queue.frames[k + 1] by {}
    }
}

proof fn lemma_pending_loss(queue: QueueView, i: int)
    requires
        queue.valid(),
        queue.summary_at(i),
    ensures
        queue.pending_loss() == (
            queue.frames[i]->dropped_frames as int,
            queue.frames[i]->dropped_bytes as int,
        ),
{
    let k = choose|k: int| queue.summary_at(k);
    assert(queue.summary_at(k));
}

/// No loss goes unreported: a push leaves the cumulative loss that is not
/// waiting in the summary as it was, and a frame that is not output is never
/// dropped.
pub proof fn law_queue_push_accounts_for_loss(queue: QueueView, frame: PtyFrame)
    requires
        queue.valid(),
        frame matches PtyFrame::Output { seq, bytes, at } ==> queue.can_count(bytes@.len()),
    ensures
        ({
            let next = queue.after_push(frame);
            &&& next.stats.dropped_frames - next.pending_loss().0 == queue.stats.dropped_frames
                - queue.pending_loss().0
            &&& next.stats.dropped_bytes - next.pending_loss().1 == queue.stats.dropped_bytes
                - queue.pending_loss().1
            &&& !(frame is Output) ==> next.frames == queue.frames.push(
                QueuedPtyFrame::Frame(frame),
            )
        }),
{
    let next = queue.after_push(frame);
    law_queue_push_is_bounded(queue, frame);
    if frame is Output && queue.drops_output() {
        if queue.has_summary() {
            let i = choose|i: int| queue.summary_at(i);
            assert(queue.summary_at(i));
            assert(next.summary_at(i));
            lemma_pending_loss(next, i);
        } else {
            let n = queue.frames.len() as int;
            assert(next.summary_at(n));
            lemma_pending_loss(next, n);
        }
    } else {
        if queue.has_summary() {
            let i = choose|i: int| queue.summary_at(i);
            assert(queue.summary_at(i));
            assert(next.summary_at(i));
            lemma_pending_loss(next, i);
        } else {
            assert forall|k: int| !next.summary_at(k) by {
                if next.summary_at(k) {
                    assert(queue.summary_at(k));
                }
            }
        }
    }
}

/// What a handed-out summary reports is exactly what stops waiting: the
/// cumulative loss is the reported loss plus the loss that still waits.
pub proof fn law_queue_recv_reports_loss(queue: QueueView)
    requires
        queue.valid(),
    ensures
        ({
            let next = queue.after_recv();
            &&& next.stats == queue.stats
            &&& queue.summary_at(0) ==> {
                &&& queue.head() matches Some(PtyFrame::Overflow {
                    seq,
                    dropped_frames,
                    dropped_bytes,
                    at,
                })
                &&& queue.pending_loss() == (dropped_frames as int, dropped_bytes as int)
                &&& next.pending_loss() == (0int, 0int)
                &&& !next.has_summary()
            }
            &&& !queue.summary_at(0) ==> next.pending_loss() == queue.pending_loss()
        }),
{
    let next = queue.after_recv();
    law_queue_recv_is_bounded(queue);
    if queue.summary_at(0) {
        lemma_pending_loss(queue, 0);
        assert forall|k: int| !next.summary_at(k) by {
            if next.summary_at(k) {
                assert(queue.summary_at(k + 1));
            }
        }
    } else if queue.has_summary() {
        let i = choose|i: int| queue.summary_at(i);
        assert(queue.summary_at(i));
        assert(next.summary_at(i - 1));
        lemma_pending_loss(next, i - 1);
    } else {
        assert forall|k: int| !next.summary_at(k) by {
            if next.summary_at(k) {
                assert(queue.summary_at(k + 1));
            }
        }
    }
}

/// Bounded queue of PTY frames.
///
/// Output beyond the capacity is dropped and summed up in one overflow frame;
/// until that frame is handed out, later output is dropped into it too. Frames
/// that are not output are always kept.
#[derive(Debug)]
pub struct PtyFrameQueue {
    frames: VecDeque<QueuedPtyFrame>,
    output_capacity: usize,
    queued_output_frames: usize,
    overflow_summary_queued: bool,
    cumulative_dropped_frames: u64,
    cumulative_dropped_bytes: u64,
}

impl View for PtyFrameQueue {
    type V = QueueView;

    closed spec fn view(&self) -> QueueView {
        QueueView {
            frames: self.frames@,
            capacity: self.output_capacity as nat,
            stats: OverflowStats {
                dropped_frames: self.cumulative_dropped_frames,
                dropped_bytes: self.cumulative_dropped_bytes,
            },
        }
    }
}

impl PtyFrameQueue {
    /// The counters agree with the frames.
    pub closed spec fn wf(self) -> bool {
        &&& self@.valid()
        &&& self.queued_output_frames == outputs(self.frames@)
        &&& self.overflow_summary_queued == self@.has_summary()
    }

    /// Creates a queue for at most `output_capacity` output frames, at least one.
    pub fn new(output_capacity: usize) -> (queue: Self)
        ensures
            queue.wf(),
            queue@.frames.len() == 0,
            queue@.capacity == if output_capacity == 0 {
                1
            } else {
                output_capacity as nat
            },
            queue@.stats == (OverflowStats { dropped_frames: 0, dropped_bytes: 0 }),
    {
        PtyFrameQueue {
            frames: VecDeque::new(),
            output_capacity: if output_capacity == 0 {
                1
            } else {
                output_capacity
            },
            queued_output_frames: 0,
            overflow_summary_queued: false,
            cumulative_dropped_frames: 0,
            cumulative_dropped_bytes: 0,
        }
    }

    /// Returns the cumulative losses.
    pub fn overflow_stats(&self) -> (stats: OverflowStats)
        ensures
            stats == self@.stats,
    {
        OverflowStats {
            dropped_frames: self.cumulative_dropped_frames,
            dropped_bytes: self.cumulative_dropped_bytes,
        }
    }

    /// Adds a frame.
    pub fn push(&mut self, frame: PtyFrame)
        requires
            old(self).wf(),
            frame matches PtyFrame::Output { seq, bytes, at } ==> old(self)@.can_count(
                bytes@.len(),
            ),
        ensures
            final(self).wf(),
            final(self)@ == old(self)@.after_push(frame),
    {
        proof {
            law_queue_push_is_bounded(self@, frame);
        }
        let ghost before = self@;
        match frame {
            PtyFrame::Output { seq, bytes, at } => self.push_output(seq, bytes, at),
            frame => {
                self.frames.push_back(QueuedPtyFrame::Frame(frame));
                proof {
                    assert(self.frames@.drop_last() =~= before.frames);
                    lemma_summary_survives_push(before, self@);
                }
            },
        }
    }

    fn push_output(&mut self, seq: u64, bytes: Vec<u8>, at: Instant)
        requires
            old(self).wf(),
            old(self)@.can_count(bytes@.len()),
        ensures
            final(self).wf(),
            final(self)@ == old(self)@.after_push(PtyFrame::Output { seq, bytes, at }),
    {
        proof {
            law_queue_push_is_bounded(self@, PtyFrame::Output { seq, bytes, at });
            lemma_outputs_bound(self.frames@);
        }
        if self.overflow_summary_queued || self.queued_output_frames >= self.output_capacity {
            self.record_output_overflow(seq, bytes.len() as u64, at);
            return;
        }
        let ghost before = self@;
        self.frames.push_back(QueuedPtyFrame::Frame(PtyFrame::Output { seq, bytes, at }));
        self.queued_output_frames = self.queued_output_frames + 1;
        proof {
            assert(self.frames@.drop_last() =~= before.frames);
            lemma_summary_survives_push(before, self@);
        }
    }

    fn record_output_overflow(&mut self, seq: u64, dropped_bytes: u64, at: Instant)
        requires
            old(self).wf(),
            old(self)@.can_count(dropped_bytes as nat),
            old(self)@.drops_output(),
        ensures
            final(self).wf(),
            final(self)@ == old(self)@.after_drop(seq, dropped_bytes as nat, at),
    {
        let ghost before = self@;
        self.cumulative_dropped_frames = self.cumulative_dropped_frames + 1;
        self.cumulative_dropped_bytes = self.cumulative_dropped_bytes + dropped_bytes;
        // A waiting summary takes further drops in, keeping the place of the
        // first dropped frame.
        let mut i: usize = 0;
        while i < self.frames.len()
            invariant
                i <= self.frames@.len(),
                self.frames@ == before.frames,
                forall|k: int| 0 <= k < i ==> !before.summary_at(k),
                before.valid(),
                before == old(self)@,
                before.can_count(dropped_bytes as nat),
                self.output_capacity == before.capacity,
                self.queued_output_frames == outputs(before.frames),
                self.overflow_summary_queued == before.has_summary(),
                self.cumulative_dropped_frames == before.stats.dropped_frames + 1,
                self.cumulative_dropped_bytes == before.stats.dropped_bytes + dropped_bytes,
            decreases self.frames@.len() - i,
        {
            let waiting = match &self.frames[i] {
                QueuedPtyFrame::OverflowSummary { seq, at, dropped_frames, dropped_bytes } => Some(
                    (*seq, *at, *dropped_frames, *dropped_bytes),
                ),
                QueuedPtyFrame::Frame(_) => None,
            };
            match waiting {
                Some((first_seq, first_at, frames, bytes)) => {
                    assert(before.summary_at(i as int));
                    let mut rest = self.frames.split_off(i);
                    let _ = rest.pop_front();
                    let merged = QueuedPtyFrame::OverflowSummary {
                        seq: first_seq,
                        at: first_at,
                        dropped_frames: frames + 1,
                        dropped_bytes: bytes + dropped_bytes,
                    };
                    self.frames.push_back(merged);
                    self.frames.append(&mut rest);
                    proof {
                        let k = choose|k: int| before.summary_at(k);
                        assert(before.summary_at(k));
                        assert(k == i);
                        assert(self.frames@ =~= before.frames.update(i as int, merged));
                        lemma_drop_keeps_valid(before, seq, dropped_bytes as nat, at);
                        lemma_outputs_update(before.frames, i as int, merged);
                        assert(self@.summary_at(i as int));
                    }
                    return;
                },
                None => {
                    assert(!before.summary_at(i as int));
                },
            }
            i = i + 1;
        }
        assert forall|k: int| !before.summary_at(k) by {}
        self.frames.push_back(
            QueuedPtyFrame::OverflowSummary { seq, at, dropped_frames: 1, dropped_bytes },
        );
        self.overflow_summary_queued = true;
        proof {
            lemma_drop_keeps_valid(before, seq, dropped_bytes as nat, at);
            assert(self.frames@.drop_last() =~= before.frames);
            assert(self@.summary_at(before.frames.len() as int));
        }
    }

    /// Hands out the next frame, if any.
    pub fn try_recv(&mut self) -> (frame: Option<PtyFrame>)
        requires
            old(self).wf(),
        ensures
            final(self).wf(),
            frame == old(self)@.head(),
            final(self)@ == old(self)@.after_recv(),
    {
        let ghost before = self@;
        proof {
            law_queue_recv_is_bounded(before);
            if before.frames.len() > 0 {
                lemma_outputs_skip(before.frames);
            }
        }
        match self.frames.pop_front() {
            Some(QueuedPtyFrame::Frame(frame)) => {
                if let PtyFrame::Output { .. } = &frame {
                    self.queued_output_frames = self.queued_output_frames - 1;
                }
                proof {
                    assert(self.frames@ =~= before.frames.skip(1));
                    lemma_summary_survives_recv(before, self@);
                }
                Some(frame)
            },
            Some(
                QueuedPtyFrame::OverflowSummary { seq, at, dropped_frames, dropped_bytes },
            ) => {
                self.overflow_summary_queued = false;
                proof {
                    assert(self.frames@ =~= before.frames.skip(1));
                    assert(before.summary_at(0));
                    assert forall|k: int| !self@.summary_at(k) by {
                        if self@.summary_at(k) {
                            assert(before.summary_at(k + 1));
                        }
                    }
                }
                Some(PtyFrame::Overflow { seq, dropped_frames, dropped_bytes, at })
            },
            None => None,
        }
    }
}

proof fn lemma_drop_keeps_valid(queue: QueueView, seq: u64, len: nat, at: Instant)
    requires
        queue.valid(),
        queue.can_count(len),
        queue.drops_output(),
    ensures
        queue.after_drop(seq, len, at).valid(),
{
    let next = queue.after_drop(seq, len, at);
    if queue.has_summary() {
        let i = choose|i: int| queue.summary_at(i);
        assert(queue.summary_at(i));
        lemma_outputs_update(queue.frames, i, next.frames[i]);
        assert forall|k: int| #[trigger] next.summary_at(k) implies k == i by {
            if k != i {
                assert(next.frames[k] == queue.frames[k]);
                assert(queue.summary_at(k));
            }
        }
    } else {
        assert(next.frames.drop_last() =~= queue.frames);
        let n = queue.frames.len() as int;
        assert forall|k: int| #[trigger] next.summary_at(k) implies k == n by {
            if k < n {
                assert(queue.summary_at(k));
            }
        }
    }
}

proof fn lemma_summary_survives_push(before: QueueView, after: QueueView)
    requires
        after.frames.len() == before.frames.len() + 1,
        after.frames.drop_last() == before.frames,
        !(after.frames.last() is OverflowSummary),
    ensures
        after.has_summary() == before.has_summary(),
{
    if before.has_summary() {
        let i = choose|i: int| before.summary_at(i);
        assert(before.summary_at(i));
        assert(after.frames.drop_last()[i] == after.frames[i]);
        assert(after.summary_at(i));
    }
    if after.has_summary() {
        let i = choose|i: int| after.summary_at(i);
        assert(after.summary_at(i));
        assert(after.frames.drop_last()[i] == after.frames[i]);
        assert(before.summary_at(i));
    }
}

proof fn lemma_summary_survives_recv(before: QueueView, after: QueueView)
    requires
        before.frames.len() > 0,
        after.frames == before.frames.skip(1),
        !(before.frames[0] is OverflowSummary),
    ensures
        after.has_summary() == before.has_summary(),
{
    if before.has_summary() {
        let i = choose|i: int| before.summary_at(i);
        assert(before.summary_at(i));
        assert(after.summary_at(i - 1));
    }
    if after.has_summary() {
        let i = choose|i: int| after.summary_at(i);
        assert(after.summary_at(i));
        assert(before.summary_at(i + 1));
    }
}

/// The capacity of a pane's frame queue; zero stands for the default.
pub open spec fn effective_capacity(configured: usize) -> usize {
    if configured == 0 {
        DEFAULT_PTY_OUTPUT_FRAME_QUEUE_CAPACITY
    } else {
        configured
    }
}

/// A queue holds as many frames as was configured, and a hundred and
/// twenty-eight where that is nothing.
pub proof fn law_capacities(configured: usize)
    ensures
        effective_capacity(configured) > 0,
        configured > 0 ==> effective_capacity(configured) == configured,
        configured == 0 ==> effective_capacity(configured) == 128,
{
}

/// Returns the capacity of a pane's frame queue.
pub fn queue_capacity(config: &PaneConfig) -> (capacity: usize)
    ensures
        capacity == effective_capacity(config.output_queue_capacity),
{
    if config.output_queue_capacity == 0 {
        DEFAULT_PTY_OUTPUT_FRAME_QUEUE_CAPACITY
    } else {
        config.output_queue_capacity
    }
}

/// Placeholder PTY handle.
#[derive(Debug, Clone, Copy, PartialEq, Eq, Structural, Default)]
pub struct PtyHandle;

} // verus!
