//! The way of child output through a pane: from its process to its surface and
//! its transcript.

use vstd::prelude::*;

use crate::calls::{feed_calls, frame_calls, PaneCall};
use crate::pane_core::{CoreView, FeedView};
use crate::pane_runtime::{absorbs, RuntimeView};
use crate::pty::FrameView;
use crate::transcript::TranscriptView;

verus! {

/// The output that calls brought from a process, one frame after the other.
pub open spec fn received_output(calls: Seq<PaneCall>) -> Seq<Seq<u8>>
    decreases calls.len(),
{
    if calls.len() == 0 {
        seq![]
    } else {
        let rest = received_output(calls.drop_last());
        match calls.last() {
            PaneCall::Receive { answer: Some(FrameView::Output(bytes)) } => rest.push(bytes),
            _ => rest,
        }
    }
}

/// The output that calls handed to a surface, one feed after the other.
pub open spec fn fed_output(calls: Seq<PaneCall>) -> Seq<Seq<u8>>
    decreases calls.len(),
{
    if calls.len() == 0 {
        seq![]
    } else {
        let rest = fed_output(calls.drop_last());
        match calls.last() {
            PaneCall::Feed { bytes, .. } => rest.push(bytes),
            _ => rest,
        }
    }
}

/// Pieces of output as one stream.
pub open spec fn stream(pieces: Seq<Seq<u8>>) -> Seq<u8>
    decreases pieces.len(),
{
    if pieces.len() == 0 {
        seq![]
    } else {
        stream(pieces.drop_last()) + pieces.last()
    }
}

/// Whether a transcript is another one, or that with what it held back recorded
/// as it stood.
pub open spec fn settles(after: TranscriptView, before: TranscriptView) -> bool {
    after == before || (before.pending.len() > 0 && after == before.settled().rotated().0)
}

/// Whether a transcript comes of another one by recording output, once.
pub open spec fn records(after: TranscriptView, before: TranscriptView, bytes: Seq<u8>) -> bool {
    settles(after, before.added(bytes).rotated().0)
}

/// Whether a transcript comes of another one by recording pieces of output, each
/// once and in order, and no others.
pub open spec fn transcribes(
    after: TranscriptView,
    before: TranscriptView,
    pieces: Seq<Seq<u8>>,
) -> bool
    decreases pieces.len(),
{
    if pieces.len() == 0 {
        settles(after, before)
    } else {
        exists|middle: TranscriptView|
            transcribes(middle, before, pieces.drop_last()) && #[trigger] records(
                after,
                middle,
                pieces.last(),
            )
    }
}

proof fn lemma_settles_twice(last: TranscriptView, middle: TranscriptView, first: TranscriptView)
    requires
        settles(middle, first),
        settles(last, middle),
    ensures
        settles(last, first),
{
}

pub(crate) proof fn lemma_transcribes_settled(
    last: TranscriptView,
    middle: TranscriptView,
    first: TranscriptView,
    pieces: Seq<Seq<u8>>,
)
    requires
        transcribes(middle, first, pieces),
        settles(last, middle),
    ensures
        transcribes(last, first, pieces),
{
    if pieces.len() == 0 {
        lemma_settles_twice(last, middle, first);
    } else {
        let before = choose|before: TranscriptView|
            transcribes(before, first, pieces.drop_last()) && #[trigger] records(
                middle,
                before,
                pieces.last(),
            );
        lemma_settles_twice(last, middle, before.added(pieces.last()).rotated().0);
        assert(records(last, before, pieces.last()));
    }
}

pub(crate) proof fn lemma_transcribes_one(
    last: TranscriptView,
    middle: TranscriptView,
    first: TranscriptView,
    pieces: Seq<Seq<u8>>,
    bytes: Seq<u8>,
)
    requires
        transcribes(middle, first, pieces),
        records(last, middle, bytes),
    ensures
        transcribes(last, first, pieces.push(bytes)),
{
    let longer = pieces.push(bytes);
    assert(longer.drop_last() =~= pieces);
    assert(records(last, middle, longer.last()));
}

pub(crate) proof fn lemma_stream_one(pieces: Seq<Seq<u8>>, bytes: Seq<u8>)
    ensures
        stream(pieces.push(bytes)) == stream(pieces) + bytes,
{
    assert(pieces.push(bytes).drop_last() =~= pieces);
}

pub(crate) proof fn lemma_output_both(first: Seq<PaneCall>, second: Seq<PaneCall>)
    ensures
        received_output(first + second) == received_output(first) + received_output(second),
        fed_output(first + second) == fed_output(first) + fed_output(second),
    decreases second.len(),
{
    if second.len() == 0 {
        assert(first + second =~= first);
        assert(received_output(first) + received_output(second) =~= received_output(first));
        assert(fed_output(first) + fed_output(second) =~= fed_output(first));
    } else {
        lemma_output_both(first, second.drop_last());
        assert((first + second).drop_last() =~= first + second.drop_last());
        assert(received_output(first + second) =~= received_output(first) + received_output(
            second,
        ));
        assert(fed_output(first + second) =~= fed_output(first) + fed_output(second));
    }
}

pub(crate) proof fn lemma_output_of_one(call: PaneCall)
    ensures
        received_output(seq![call]) == match call {
            PaneCall::Receive { answer: Some(FrameView::Output(bytes)) } => seq![bytes],
            _ => seq![],
        },
        fed_output(seq![call]) == match call {
            PaneCall::Feed { bytes, .. } => seq![bytes],
            _ => seq![],
        },
{
    let one = seq![call];
    assert(one.drop_last() =~= Seq::<PaneCall>::empty());
    assert(received_output(one.drop_last()) == Seq::<Seq<u8>>::empty());
    assert(fed_output(one.drop_last()) == Seq::<Seq<u8>>::empty());
    assert(received_output(one) =~= match call {
        PaneCall::Receive { answer: Some(FrameView::Output(bytes)) } => seq![bytes],
        _ => seq![],
    });
    assert(fed_output(one) =~= match call {
        PaneCall::Feed { bytes, .. } => seq![bytes],
        _ => seq![],
    });
}

/// A frame of output is recorded once; another frame records nothing.
pub(crate) proof fn lemma_took_transcript(core: CoreView, frame: FrameView, feed: FeedView)
    ensures
        match frame {
            FrameView::Output(bytes) => records(
                core.took(frame, feed).transcript,
                core.transcript,
                bytes,
            ),
            _ => settles(core.took(frame, feed).transcript, core.transcript),
        },
{
}

proof fn lemma_frames_transcribed(core: CoreView, frames: Seq<(FrameView, FeedView)>)
    ensures
        received_output(frame_calls(frames)) == fed_output(frame_calls(frames)),
        transcribes(
            core.took_all(frames).transcript,
            core.transcript,
            fed_output(frame_calls(frames)),
        ),
    decreases frames.len(),
{
    if frames.len() > 0 {
        let (frame, feed) = frames.last();
        let rest = frames.drop_last();
        lemma_frames_transcribed(core, rest);
        let before = core.took_all(rest);
        lemma_took_transcript(before, frame, feed);
        let receive = PaneCall::Receive { answer: Some(frame) };
        let one = seq![receive];
        let calls = frame_calls(rest);
        lemma_output_both(calls, one);
        lemma_output_both(calls + one, feed_calls(frame, feed));
        lemma_output_of_one(receive);
        match frame {
            FrameView::Output(bytes) => {
                lemma_output_of_one(PaneCall::Feed { bytes, answer: feed });
                assert(received_output(frame_calls(frames)) =~= received_output(calls).push(bytes));
                assert(fed_output(frame_calls(frames)) =~= fed_output(calls).push(bytes));
                lemma_transcribes_one(
                    core.took_all(frames).transcript,
                    before.transcript,
                    core.transcript,
                    fed_output(calls),
                    bytes,
                );
            },
            _ => {
                assert(received_output(frame_calls(frames)) =~= received_output(calls));
                assert(fed_output(frame_calls(frames)) =~= fed_output(calls));
                lemma_transcribes_settled(
                    core.took_all(frames).transcript,
                    before.transcript,
                    core.transcript,
                    fed_output(calls),
                );
            },
        }
    }
}

/// Every frame of output that a pane takes in reaches its surface and its
/// transcript, once and in order, and nothing else does.
pub proof fn law_output_is_taken_in_once(
    after: RuntimeView,
    before: RuntimeView,
    frames: Seq<(FrameView, FeedView)>,
    quiet: bool,
)
    requires
        absorbs(after, before, frames, quiet),
    ensures
        ({
            let made = after.calls.skip(before.calls.len() as int);
            &&& received_output(made) == fed_output(made)
            &&& transcribes(after.core.transcript, before.core.transcript, fed_output(made))
        }),
{
    let made = after.calls.skip(before.calls.len() as int);
    let last = PaneCall::Receive { answer: None };
    let end = if quiet && before.backed {
        seq![last]
    } else {
        seq![]
    };
    lemma_frames_transcribed(before.core, frames);
    assert(made =~= frame_calls(frames) + end);
    lemma_output_both(frame_calls(frames), end);
    lemma_output_of_one(last);
    assert(received_output(made) =~= received_output(frame_calls(frames)));
    assert(fed_output(made) =~= fed_output(frame_calls(frames)));
}

} // verus!
