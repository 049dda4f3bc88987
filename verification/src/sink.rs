//! Byte sinks that are held to be written to.
//!
//! What a sink answers is its own to decide. A held sink hands every question
//! on, and the predicates here tell which answers, and which states, come of
//! which question.

use vstd::prelude::*;

use crate::pty::{PtySink, WriteFault};

verus! {

fn ask_put<S: PtySink + ?Sized>(sink: &mut S, bytes: &[u8]) -> (r: core::result::Result<
    (),
    String,
>)
    ensures
        exists|asked: &mut S|
            #![trigger call_ensures(S::write_all, (asked, bytes), r)]
            {
                &&& call_ensures(S::write_all, (asked, bytes), r)
                &&& &*asked == &*old(sink)
                &&& &*final(asked) == &*final(sink)
            },
{
    sink.write_all(bytes)
}

fn ask_take<S: PtySink + ?Sized>(sink: &mut S, bytes: &[u8]) -> (r: core::result::Result<
    usize,
    WriteFault,
>)
    ensures
        exists|asked: &mut S|
            #![trigger call_ensures(S::write, (asked, bytes), r)]
            {
                &&& call_ensures(S::write, (asked, bytes), r)
                &&& &*asked == &*old(sink)
                &&& &*final(asked) == &*final(sink)
            },
{
    sink.write(bytes)
}

fn ask_drain<S: PtySink + ?Sized>(sink: &mut S) -> (r: core::result::Result<(), WriteFault>)
    ensures
        exists|asked: &mut S|
            #![trigger call_ensures(S::flush, (asked,), r)]
            {
                &&& call_ensures(S::flush, (asked,), r)
                &&& &*asked == &*old(sink)
                &&& &*final(asked) == &*final(sink)
            },
{
    sink.flush()
}

/// A sink that is held to be written to.
pub struct HeldSink<S: ?Sized> {
    sink: Box<S>,
}

/// The sink behind a writer.
pub type WriterSink = HeldSink<dyn PtySink>;

impl<S: PtySink + ?Sized> HeldSink<S> {
    /// Whether this sink is held.
    pub closed spec fn holds(self, sink: &S) -> bool {
        sink == &*self.sink
    }

    /// Holds a sink.
    pub fn new(sink: Box<S>) -> (held: Self)
        ensures
            held.holds(&*sink),
    {
        HeldSink { sink }
    }

    /// Has the sink write all bytes, once. With the answer come the states
    /// before and after.
    ///
    /// # Errors
    ///
    /// Returns what the sink answered.
    pub fn put(&mut self, bytes: &[u8]) -> (out: (
        core::result::Result<(), String>,
        Ghost<(Self, Self)>,
    ))
        ensures
            out.1@ == (*old(self), *final(self)),
            exists|sink: &mut S, r: core::result::Result<(), String>|
                #![trigger call_ensures(S::write_all, (sink, bytes), r)]
                {
                    &&& call_ensures(S::write_all, (sink, bytes), r)
                    &&& r == out.0
                    &&& out.1@.0.holds(&*sink)
                    &&& out.1@.1.holds(&*final(sink))
                },
    {
        let ghost before = *self;
        let r = ask_put(&mut *self.sink, bytes);
        (r, Ghost((before, *self)))
    }

    /// Has the sink write some bytes, once. With the answer come the states
    /// before and after.
    ///
    /// # Errors
    ///
    /// Returns what the sink answered.
    pub fn take(&mut self, bytes: &[u8]) -> (out: (
        core::result::Result<usize, WriteFault>,
        Ghost<(Self, Self)>,
    ))
        ensures
            out.1@ == (*old(self), *final(self)),
            exists|sink: &mut S, r: core::result::Result<usize, WriteFault>|
                #![trigger call_ensures(S::write, (sink, bytes), r)]
                {
                    &&& call_ensures(S::write, (sink, bytes), r)
                    &&& r == out.0
                    &&& out.1@.0.holds(&*sink)
                    &&& out.1@.1.holds(&*final(sink))
                },
    {
        let ghost before = *self;
        let r = ask_take(&mut *self.sink, bytes);
        (r, Ghost((before, *self)))
    }

    /// Has the sink flush, once. With the answer come the states before and
    /// after.
    ///
    /// # Errors
    ///
    /// Returns what the sink answered.
    pub fn drain(&mut self) -> (out: (core::result::Result<(), WriteFault>, Ghost<(Self, Self)>))
        ensures
            out.1@ == (*old(self), *final(self)),
            exists|sink: &mut S, r: core::result::Result<(), WriteFault>|
                #![trigger call_ensures(S::flush, (sink,), r)]
                {
                    &&& call_ensures(S::flush, (sink,), r)
                    &&& r == out.0
                    &&& out.1@.0.holds(&*sink)
                    &&& out.1@.1.holds(&*final(sink))
                },
    {
        let ghost before = *self;
        let r = ask_drain(&mut *self.sink);
        (r, Ghost((before, *self)))
    }
}

/// Whether one full write of these bytes turns a sink like this and answers
/// like this.
pub open spec fn sink_put<S: PtySink + ?Sized>(
    before: HeldSink<S>,
    after: HeldSink<S>,
    bytes: &[u8],
    r: core::result::Result<(), String>,
) -> bool {
    exists|
        sink: &mut HeldSink<S>,
        out: (core::result::Result<(), String>, Ghost<(HeldSink<S>, HeldSink<S>)>),
    |
        #![trigger call_ensures(HeldSink::<S>::put, (sink, bytes), out)]
        call_ensures(HeldSink::<S>::put, (sink, bytes), out) && out.0 == r && out.1@ == (
            before,
            after,
        )
}

/// Whether one write of some of these bytes turns a sink like this and answers
/// like this.
pub open spec fn sink_took<S: PtySink + ?Sized>(
    before: HeldSink<S>,
    after: HeldSink<S>,
    bytes: &[u8],
    r: core::result::Result<usize, WriteFault>,
) -> bool {
    exists|
        sink: &mut HeldSink<S>,
        out: (core::result::Result<usize, WriteFault>, Ghost<(HeldSink<S>, HeldSink<S>)>),
    |
        #![trigger call_ensures(HeldSink::<S>::take, (sink, bytes), out)]
        call_ensures(HeldSink::<S>::take, (sink, bytes), out) && out.0 == r && out.1@ == (
            before,
            after,
        )
}

/// Whether one flush turns a sink like this and answers like this.
pub open spec fn sink_drained<S: PtySink + ?Sized>(
    before: HeldSink<S>,
    after: HeldSink<S>,
    r: core::result::Result<(), WriteFault>,
) -> bool {
    exists|
        sink: &mut HeldSink<S>,
        out: (core::result::Result<(), WriteFault>, Ghost<(HeldSink<S>, HeldSink<S>)>),
    |
        #![trigger call_ensures(HeldSink::<S>::drain, (sink,), out)]
        call_ensures(HeldSink::<S>::drain, (sink,), out) && out.0 == r && out.1@ == (before, after)
}

/// A full write is one call on the sink that was held, which is then held as
/// the call left it.
pub proof fn law_sink_put<S: PtySink + ?Sized>(
    before: HeldSink<S>,
    after: HeldSink<S>,
    bytes: &[u8],
    r: core::result::Result<(), String>,
)
    requires
        sink_put(before, after, bytes, r),
    ensures
        exists|sink: &mut S, answer: core::result::Result<(), String>|
            #![trigger call_ensures(S::write_all, (sink, bytes), answer)]
            {
                &&& call_ensures(S::write_all, (sink, bytes), answer)
                &&& answer == r
                &&& before.holds(&*sink)
                &&& after.holds(&*final(sink))
            },
{
}

/// A write is one call on the sink that was held, which is then held as the
/// call left it.
pub proof fn law_sink_took<S: PtySink + ?Sized>(
    before: HeldSink<S>,
    after: HeldSink<S>,
    bytes: &[u8],
    r: core::result::Result<usize, WriteFault>,
)
    requires
        sink_took(before, after, bytes, r),
    ensures
        exists|sink: &mut S, answer: core::result::Result<usize, WriteFault>|
            #![trigger call_ensures(S::write, (sink, bytes), answer)]
            {
                &&& call_ensures(S::write, (sink, bytes), answer)
                &&& answer == r
                &&& before.holds(&*sink)
                &&& after.holds(&*final(sink))
            },
{
}

/// A flush is one call on the sink that was held, which is then held as the
/// call left it.
pub proof fn law_sink_drained<S: PtySink + ?Sized>(
    before: HeldSink<S>,
    after: HeldSink<S>,
    r: core::result::Result<(), WriteFault>,
)
    requires
        sink_drained(before, after, r),
    ensures
        exists|sink: &mut S, answer: core::result::Result<(), WriteFault>|
            #![trigger call_ensures(S::flush, (sink,), answer)]
            {
                &&& call_ensures(S::flush, (sink,), answer)
                &&& answer == r
                &&& before.holds(&*sink)
                &&& after.holds(&*final(sink))
            },
{
}

} // verus!
