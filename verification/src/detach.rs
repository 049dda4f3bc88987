//! Byte-level detach-chord matcher for attach mode.
//!
//! [`DetachMatcher`] intercepts stdin bytes during fullscreen attach and
//! recognises a configurable byte sequence that triggers detach. Bytes that
//! do not match the chord are returned for forwarding to the child PTY.
//!
//! The matcher holds back the longest end of the input that is a beginning of
//! the chord. Everything before that end is forwarded.

use vstd::prelude::*;
use vstd::slice::{slice_subrange, slice_to_vec};

use crate::bytes::{push_all, same_bytes};
use crate::command::DetachConfig;
use crate::detach_encoding::{
    encoded_len, lemma_encoded_len, normalized, parse_ctrl_detach_encoding,
};
use crate::time::{elapsed_nanos, Duration, Instant};

verus! {

/// Result of feeding bytes into a [`DetachMatcher`].
#[derive(Debug, PartialEq, Eq)]
pub enum MatchResult {
    /// Forward these bytes to the child PTY.
    Forward(Vec<u8>),
    /// The detach chord was fully matched.
    Detach,
}

/// Result of feeding a byte slice into a [`DetachMatcher`].
#[derive(Debug, PartialEq, Eq)]
pub struct FeedBytesResult<'a> {
    /// Bytes that should be forwarded to the child PTY.
    pub forward: Vec<u8>,
    /// Whether the detach chord was matched.
    pub detached: bool,
    /// Bytes after the detach chord that were not consumed by the matcher.
    pub remaining: &'a [u8],
}

/// Whether the last `k` bytes of `s` are the first `k` of `chord`.
pub open spec fn ends_with_start(s: Seq<u8>, chord: Seq<u8>, k: int) -> bool {
    0 <= k <= s.len() && k <= chord.len() && s.skip(s.len() - k) == chord.take(k)
}

/// The largest number up to `k` of bytes that end `s` and start `chord`.
pub open spec fn overlap_up_to(s: Seq<u8>, chord: Seq<u8>, k: nat) -> nat
    decreases k,
{
    if k == 0 || ends_with_start(s, chord, k as int) {
        k
    } else {
        overlap_up_to(s, chord, (k - 1) as nat)
    }
}

/// The largest number of bytes that end `s` and start `chord`.
pub open spec fn overlap(s: Seq<u8>, chord: Seq<u8>) -> nat {
    overlap_up_to(
        s,
        chord,
        if s.len() <= chord.len() {
            s.len()
        } else {
            chord.len()
        },
    )
}

proof fn lemma_overlap_up_to(s: Seq<u8>, chord: Seq<u8>, k: nat)
    requires
        k <= s.len(),
        k <= chord.len(),
    ensures
        overlap_up_to(s, chord, k) <= k,
        ends_with_start(s, chord, overlap_up_to(s, chord, k) as int),
        forall|j: int|
            overlap_up_to(s, chord, k) < j <= k ==> !#[trigger] ends_with_start(s, chord, j),
    decreases k,
{
    assert(s.skip(s.len() as int) =~= chord.take(0));
    if k != 0 && !ends_with_start(s, chord, k as int) {
        lemma_overlap_up_to(s, chord, (k - 1) as nat);
    }
}

/// `overlap` is an overlap, and no longer one exists.
pub proof fn lemma_overlap(s: Seq<u8>, chord: Seq<u8>)
    ensures
        overlap(s, chord) <= s.len(),
        overlap(s, chord) <= chord.len(),
        ends_with_start(s, chord, overlap(s, chord) as int),
        forall|j: int| overlap(s, chord) < j ==> !#[trigger] ends_with_start(s, chord, j),
{
    lemma_overlap_up_to(
        s,
        chord,
        if s.len() <= chord.len() {
            s.len()
        } else {
            chord.len()
        },
    );
}

/// What one more byte does to a matcher that holds `held`.
pub ghost struct StepView {
    /// The chord is complete.
    pub detached: bool,
    /// Bytes to forward.
    pub forward: Seq<u8>,
    /// Bytes held afterwards.
    pub held: Seq<u8>,
}

/// Holds the longest end of the input that starts the chord and forwards the
/// rest; a complete chord detaches and is swallowed.
pub open spec fn step(held: Seq<u8>, byte: u8, chord: Seq<u8>) -> StepView {
    let seen = held.push(byte);
    if chord.len() == 0 {
        StepView { detached: false, forward: seen, held: seq![] }
    } else {
        let k = overlap(seen, chord) as int;
        if k == chord.len() {
            StepView { detached: true, forward: seq![], held: seq![] }
        } else {
            StepView {
                detached: false,
                forward: seen.take(seen.len() - k),
                held: seen.skip(seen.len() - k),
            }
        }
    }
}

/// The arrival times that belong to the bytes held after a step.
pub open spec fn step_times(
    held: Seq<u8>,
    times: Seq<Instant>,
    byte: u8,
    chord: Seq<u8>,
    now: Instant,
) -> Seq<Instant> {
    let next = step(held, byte, chord);
    times.push(now).skip(held.len() + 1 - next.held.len())
}

/// What a run of input bytes does to a matcher.
pub ghost struct RunView {
    /// The chord was completed.
    pub detached: bool,
    /// Bytes to forward.
    pub forward: Seq<u8>,
    /// Bytes held afterwards.
    pub held: Seq<u8>,
    /// Arrival times of the bytes held.
    pub times: Seq<Instant>,
    /// Input after the chord.
    pub remaining: Seq<u8>,
}

/// Feeds `bytes` one after the other, an encoded chord counting as the chord
/// byte, and stops at the first complete chord.
pub open spec fn run(
    held: Seq<u8>,
    times: Seq<Instant>,
    bytes: Seq<u8>,
    chord: Seq<u8>,
    now: Instant,
) -> RunView
    decreases bytes.len(),
{
    if bytes.len() == 0 {
        RunView { detached: false, forward: seq![], held, times, remaining: seq![] }
    } else {
        proof {
            lemma_encoded_len(bytes, chord);
        }
        let n = encoded_len(bytes, chord);
        let byte = if n > 0 {
            chord[0]
        } else {
            bytes[0]
        };
        let rest = bytes.skip(if n > 0 {
            n as int
        } else {
            1
        });
        let next = step(held, byte, chord);
        if next.detached {
            RunView {
                detached: true,
                forward: seq![],
                held: seq![],
                times: seq![],
                remaining: rest,
            }
        } else {
            let later = run(
                next.held,
                step_times(held, times, byte, chord, now),
                rest,
                chord,
                now,
            );
            RunView { forward: next.forward + later.forward, ..later }
        }
    }
}

/// A [`DetachMatcher`] as sequences.
pub ghost struct MatcherView {
    pub chord: Seq<u8>,
    pub timeout: Duration,
    pub held: Seq<u8>,
    pub times: Seq<Instant>,
}

impl MatcherView {
    /// A matcher that has seen nothing.
    pub open spec fn fresh(config: DetachConfig) -> MatcherView {
        MatcherView {
            chord: config.chord@,
            timeout: config.partial_timeout,
            held: seq![],
            times: seq![],
        }
    }

    /// The held bytes are a proper beginning of the chord, each with its time.
    pub open spec fn valid(self) -> bool {
        &&& self.held.len() == self.times.len()
        &&& self.held.len() == 0 || self.held.len() < self.chord.len()
        &&& self.held == self.chord.take(self.held.len() as int)
    }

    /// Whether the held bytes have been held for the timeout.
    pub open spec fn expired(self, now: Instant) -> bool {
        self.held.len() > 0 && elapsed_nanos(self.times[0], now) >= self.timeout.nanos
    }

    /// The bytes that a timeout check at `now` gives up.
    pub open spec fn flushed(self, now: Instant) -> Seq<u8> {
        if self.expired(now) {
            self.held
        } else {
            seq![]
        }
    }

    /// The matcher after a timeout check at `now`.
    pub open spec fn settled(self, now: Instant) -> MatcherView {
        if self.expired(now) {
            MatcherView { held: seq![], times: seq![], ..self }
        } else {
            self
        }
    }

    /// The run of `bytes` at `now`, after the timeout check.
    pub open spec fn run(self, bytes: Seq<u8>, now: Instant) -> RunView {
        let settled = self.settled(now);
        run(settled.held, settled.times, bytes, self.chord, now)
    }
}

/// A step keeps the held bytes a proper beginning of the chord, and neither
/// loses nor invents a byte: what was held and the new byte are forwarded and
/// held again in order, or are the chord.
pub proof fn law_step_conserves_bytes(held: Seq<u8>, byte: u8, chord: Seq<u8>)
    requires
        held.len() == 0 || held.len() < chord.len(),
        held == chord.take(held.len() as int),
    ensures
        ({
            let next = step(held, byte, chord);
            &&& next.detached ==> held.push(byte) == chord
            &&& !next.detached ==> next.forward + next.held == held.push(byte)
            &&& next.held.len() == 0 || next.held.len() < chord.len()
            &&& next.held == chord.take(next.held.len() as int)
            &&& next.held.len() <= held.len() + 1
        }),
{
    let seen = held.push(byte);
    if chord.len() > 0 {
        lemma_overlap(seen, chord);
        let k = overlap(seen, chord) as int;
        assert(ends_with_start(seen, chord, k));
        if k == chord.len() {
            assert(seen.len() == chord.len());
            assert(seen.skip(0) =~= seen);
            assert(chord.take(k) =~= chord);
        } else {
            assert(seen.take(seen.len() - k) + seen.skip(seen.len() - k) =~= seen);
        }
    } else {
        assert(seen + Seq::<u8>::empty() =~= seen);
    }
}

proof fn lemma_regroup(
    first: Seq<u8>,
    middle: Seq<u8>,
    last: Seq<u8>,
    held: Seq<u8>,
    rest: Seq<u8>,
    seen: Seq<u8>,
)
    requires
        middle + last == held + rest,
        first + held == seen,
    ensures
        (first + middle) + last == seen + rest,
{
    assert((first + middle) + last =~= first + (middle + last));
    assert(first + (held + rest) =~= (first + held) + rest);
}

/// What a run forwards and holds is what it was given, each encoded chord
/// standing for its byte; a run that detaches forwards all before the chord.
pub proof fn law_run_conserves_bytes(
    held: Seq<u8>,
    times: Seq<Instant>,
    bytes: Seq<u8>,
    chord: Seq<u8>,
    now: Instant,
)
    requires
        held.len() == times.len(),
        held.len() == 0 || held.len() < chord.len(),
        held == chord.take(held.len() as int),
    ensures
        ({
            let r = run(held, times, bytes, chord, now);
            &&& r.detached ==> r.forward + chord + normalized(r.remaining, chord) == held
                + normalized(bytes, chord)
            &&& !r.detached ==> r.forward + r.held == held + normalized(bytes, chord)
            &&& r.held.len() == r.times.len()
            &&& r.held.len() == 0 || r.held.len() < chord.len()
            &&& r.held == chord.take(r.held.len() as int)
        }),
    decreases bytes.len(),
{
    if bytes.len() == 0 {
        assert(held + Seq::<u8>::empty() =~= Seq::<u8>::empty() + held);
    } else {
        lemma_encoded_len(bytes, chord);
        let n = encoded_len(bytes, chord);
        let byte = if n > 0 {
            chord[0]
        } else {
            bytes[0]
        };
        let rest = bytes.skip(if n > 0 {
            n as int
        } else {
            1
        });
        let next = step(held, byte, chord);
        law_step_conserves_bytes(held, byte, chord);
        assert(normalized(bytes, chord) == seq![byte] + normalized(rest, chord));
        assert(held + normalized(bytes, chord) =~= held.push(byte) + normalized(rest, chord));
        if next.detached {
            assert(Seq::<u8>::empty() + chord =~= chord);
        } else {
            let next_times = step_times(held, times, byte, chord, now);
            law_run_conserves_bytes(next.held, next_times, rest, chord, now);
            let later = run(next.held, next_times, rest, chord, now);
            let r = run(held, times, bytes, chord, now);
            assert(r.forward == next.forward + later.forward);
            let seen = held.push(byte);
            let clean = normalized(rest, chord);
            if r.detached {
                let last = chord + normalized(later.remaining, chord);
                assert(later.forward + chord + normalized(later.remaining, chord)
                    =~= later.forward + last);
                lemma_regroup(next.forward, later.forward, last, next.held, clean, seen);
                assert(r.forward + chord + normalized(r.remaining, chord) =~= r.forward + last);
            } else {
                lemma_regroup(next.forward, later.forward, later.held, next.held, clean, seen);
            }
        }
    }
}

/// What a matcher holds after a stream of raw bytes in which the chord has not
/// been completed, starting from nothing.
pub open spec fn held_after(stream: Seq<u8>, chord: Seq<u8>) -> Seq<u8>
    decreases stream.len(),
{
    if stream.len() == 0 {
        seq![]
    } else {
        step(held_after(stream.drop_last(), chord), stream.last(), chord).held
    }
}

/// Whether the last byte of a stream completes the chord in a matcher that was
/// fed the bytes before it.
pub open spec fn completes(stream: Seq<u8>, chord: Seq<u8>) -> bool {
    stream.len() > 0 && step(
        held_after(stream.drop_last(), chord),
        stream.last(),
        chord,
    ).detached
}

proof fn lemma_held_is_overlap(stream: Seq<u8>, chord: Seq<u8>)
    requires
        chord.len() > 0,
        forall|n: int| 0 < n <= stream.len() ==> !completes(#[trigger] stream.take(n), chord),
    ensures
        held_after(stream, chord).len() == overlap(stream, chord),
        held_after(stream, chord) == stream.skip(stream.len() - overlap(stream, chord)),
    decreases stream.len(),
{
    lemma_overlap(stream, chord);
    if stream.len() == 0 {
        assert(stream.skip(0) =~= seq![]);
    } else {
        let before = stream.drop_last();
        let byte = stream.last();
        assert forall|n: int| 0 < n <= before.len() implies !completes(
            #[trigger] before.take(n),
            chord,
        ) by {
            assert(before.take(n) =~= stream.take(n));
        }
        lemma_held_is_overlap(before, chord);
        lemma_overlap(before, chord);
        let held = held_after(before, chord);
        let seen = held.push(byte);
        lemma_overlap(seen, chord);
        assert(seen =~= stream.skip(stream.len() - seen.len()));
        lemma_overlap_of_end(stream, held, chord);
        assert(stream.take(stream.len() as int) =~= stream);
        assert(!completes(stream.take(stream.len() as int), chord));
        let k = overlap(seen, chord) as int;
        assert(seen.skip(seen.len() - k) =~= stream.skip(stream.len() - k));
    }
}

proof fn lemma_overlap_of_end(stream: Seq<u8>, held: Seq<u8>, chord: Seq<u8>)
    requires
        stream.len() > 0,
        held == stream.drop_last().skip(
            stream.len() - 1 - overlap(stream.drop_last(), chord),
        ),
        held.len() == overlap(stream.drop_last(), chord),
    ensures
        overlap(held.push(stream.last()), chord) == overlap(stream, chord),
{
    let before = stream.drop_last();
    let seen = held.push(stream.last());
    lemma_overlap(before, chord);
    lemma_overlap(stream, chord);
    lemma_overlap(seen, chord);
    assert(seen =~= stream.skip(stream.len() - seen.len()));
    let a = overlap(stream, chord) as int;
    let b = overlap(seen, chord) as int;
    // Any overlap of the end is one of the stream.
    assert(seen.skip(seen.len() - b) =~= stream.skip(stream.len() - b));
    assert(ends_with_start(stream, chord, b));
    // An overlap of the stream, less its last byte, is one of the stream before.
    if a > 0 {
        assert(before.skip(before.len() - (a - 1)) =~= stream.skip(stream.len() - a).drop_last());
        assert(chord.take(a - 1) =~= chord.take(a).drop_last());
        assert(ends_with_start(before, chord, a - 1));
        assert(a - 1 <= held.len());
        assert(seen.skip(seen.len() - a) =~= stream.skip(stream.len() - a));
        assert(ends_with_start(seen, chord, a));
    }
}

/// The matcher detaches exactly when the bytes fed so far end with the chord:
/// in a stream in which it has not detached before, the last byte completes
/// the chord if and only if the stream ends with the chord.
pub proof fn law_detach_exactly_at_chord(stream: Seq<u8>, chord: Seq<u8>)
    requires
        chord.len() > 0,
        stream.len() > 0,
        forall|n: int| 0 < n < stream.len() ==> !completes(#[trigger] stream.take(n), chord),
    ensures
        completes(stream, chord) <==> ends_with_start(stream, chord, chord.len() as int),
{
    let before = stream.drop_last();
    assert forall|n: int| 0 < n <= before.len() implies !completes(
        #[trigger] before.take(n),
        chord,
    ) by {
        assert(before.take(n) =~= stream.take(n));
    }
    lemma_held_is_overlap(before, chord);
    lemma_overlap_of_end(stream, held_after(before, chord), chord);
    lemma_overlap(stream, chord);
}

/// A chord that comes whole detaches, whatever came before it, with its last
/// byte and no earlier one.
pub proof fn law_whole_chords_detach(front: Seq<u8>, chord: Seq<u8>)
    requires
        chord.len() > 0,
        forall|n: int|
            0 < n < front.len() + chord.len() ==> !completes(
                #[trigger] (front + chord).take(n),
                chord,
            ),
    ensures
        completes(front + chord, chord),
        chord.len() > 1 ==> held_after((front + chord).drop_last(), chord).len() + 1
            >= chord.len(),
{
    let stream = front + chord;
    law_detach_exactly_at_chord(stream, chord);
    assert(stream.skip(stream.len() - chord.len()) =~= chord.take(chord.len() as int));
    let before = stream.drop_last();
    assert forall|n: int| 0 < n <= before.len() implies !completes(
        #[trigger] before.take(n),
        chord,
    ) by {
        assert(before.take(n) =~= stream.take(n));
    }
    lemma_held_is_overlap(before, chord);
    let k = chord.len() - 1;
    assert(before.skip(before.len() - k) =~= chord.take(k));
    lemma_overlap(before, chord);
    assert(ends_with_start(before, chord, k));
}

/// A beginning of the chord is held no longer than the timeout: once its first
/// byte has been held for that long, all of it is given up, and until then none
/// of it is.
pub proof fn law_partial_chords_time_out(matcher: MatcherView, now: Instant)
    requires
        matcher.held.len() > 0,
    ensures
        ({
            let age = if now.nanos >= matcher.times[0].nanos {
                now.nanos - matcher.times[0].nanos
            } else {
                0
            };
            if age >= matcher.timeout.nanos {
                matcher.flushed(now) == matcher.held && matcher.settled(now).held.len() == 0
                    && matcher.settled(now).times.len() == 0
            } else {
                matcher.flushed(now).len() == 0 && matcher.settled(now) == matcher
            }
        }),
{
}

/// Every byte that is held keeps the time at which it came, and the newest came
/// now.
pub proof fn law_held_bytes_keep_their_times(
    held: Seq<u8>,
    times: Seq<Instant>,
    byte: u8,
    chord: Seq<u8>,
    now: Instant,
)
    requires
        held.len() == times.len(),
        held.len() == 0 || held.len() < chord.len(),
        held == chord.take(held.len() as int),
    ensures
        ({
            let next = step(held, byte, chord);
            let kept = step_times(held, times, byte, chord, now);
            !next.detached ==> {
                &&& kept.len() == next.held.len()
                &&& next.held.len() > 0 ==> kept.last() == now && next.held.last() == byte
                &&& forall|i: int|
                    0 <= i < kept.len() - 1 ==> #[trigger] kept[i] == times[times.len() + 1
                        - kept.len() + i] && next.held[i] == held[times.len() + 1 - kept.len() + i]
            }
        }),
{
    law_step_conserves_bytes(held, byte, chord);
    if chord.len() > 0 {
        lemma_overlap(held.push(byte), chord);
    }
}

/// Byte-level matcher for detach chords.
///
/// Supports single-byte and multi-byte chords with partial-match timeout.
/// Non-matching bytes and timed-out partial matches are returned for forwarding
/// to the child PTY.
#[derive(Debug, PartialEq, Eq)]
pub struct DetachMatcher {
    chord: Vec<u8>,
    timeout: Duration,
    held: Vec<u8>,
    held_at: Vec<Instant>,
}

enum FeedStep {
    Forward(Vec<u8>),
    Detach,
}

impl View for DetachMatcher {
    type V = MatcherView;

    closed spec fn view(&self) -> MatcherView {
        MatcherView {
            chord: self.chord@,
            timeout: self.timeout,
            held: self.held@,
            times: self.held_at@,
        }
    }
}

impl DetachMatcher {
    /// Creates a new matcher from the given detach configuration.
    pub fn new(config: &DetachConfig) -> (matcher: Self)
        ensures
            matcher@ == MatcherView::fresh(*config),
            matcher@.valid(),
    {
        let chord = slice_to_vec(config.chord.as_slice());
        assert(Seq::<u8>::empty() =~= chord@.take(0));
        DetachMatcher {
            chord,
            timeout: config.partial_timeout,
            held: Vec::new(),
            held_at: Vec::new(),
        }
    }

    /// Feeds a single byte into the matcher.
    ///
    /// Returns [`MatchResult::Detach`] if the configured chord was fully
    /// matched, or [`MatchResult::Forward`] with any bytes that should be
    /// sent to the child PTY. Any expired partial match is flushed before the
    /// new byte is processed.
    pub fn feed_byte(&mut self, byte: u8, now: Instant) -> (r: MatchResult)
        requires
            old(self)@.valid(),
        ensures
            final(self)@.valid(),
            ({
                let settled = old(self)@.settled(now);
                let next = step(settled.held, byte, settled.chord);
                &&& final(self)@ == (MatcherView {
                    held: next.held,
                    times: if next.detached {
                        seq![]
                    } else {
                        step_times(settled.held, settled.times, byte, settled.chord, now)
                    },
                    ..settled
                })
                &&& match r {
                    MatchResult::Detach => next.detached && old(self)@.flushed(now).len() == 0,
                    MatchResult::Forward(bytes) => !next.detached && bytes@ == old(
                        self,
                    )@.flushed(now) + next.forward,
                }
            }),
    {
        let mut forward = match self.check_timeout(now) {
            Some(held) => held,
            None => Vec::new(),
        };
        let ghost settled = self@;
        match self.feed_byte_inner(byte, now) {
            FeedStep::Forward(bytes) => {
                push_all(&mut forward, bytes.as_slice());
                MatchResult::Forward(forward)
            },
            FeedStep::Detach => {
                proof {
                    lemma_overlap(settled.held.push(byte), settled.chord);
                }
                MatchResult::Detach
            },
        }
    }

    fn feed_byte_inner(&mut self, byte: u8, now: Instant) -> (r: FeedStep)
        requires
            old(self)@.valid(),
        ensures
            final(self)@.valid(),
            ({
                let next = step(old(self)@.held, byte, old(self)@.chord);
                &&& final(self)@ == (MatcherView {
                    held: next.held,
                    times: if next.detached {
                        seq![]
                    } else {
                        step_times(old(self)@.held, old(self)@.times, byte, old(self)@.chord, now)
                    },
                    ..old(self)@
                })
                &&& match r {
                    FeedStep::Detach => next.detached,
                    FeedStep::Forward(bytes) => !next.detached && bytes@ == next.forward,
                }
            }),
    {
        if self.chord.len() == 0 {
            let mut bytes: Vec<u8> = Vec::new();
            bytes.push(byte);
            proof {
                assert(self.held@ =~= seq![]);
                assert(self.held_at@ =~= seq![]);
                assert(self.held_at@.push(now).skip(1) =~= self.held_at@);
                assert(bytes@ =~= self.held@.push(byte));
            }
            return FeedStep::Forward(bytes);
        }
        let ghost before = self@;
        let mut combined: Vec<u8> = Vec::new();
        let mut combined_at: Vec<Instant> = Vec::new();
        combined.append(&mut self.held);
        combined_at.append(&mut self.held_at);
        combined.push(byte);
        combined_at.push(now);
        assert(combined@ =~= before.held.push(byte));
        assert(combined_at@ =~= before.times.push(now));

        // The longest end of what was seen that is a beginning of the chord.
        let start: usize = if combined.len() <= self.chord.len() {
            combined.len()
        } else {
            self.chord.len()
        };
        let mut k: usize = start;
        while k > 0 && !same_bytes(
            slice_subrange(combined.as_slice(), combined.len() - k, combined.len()),
            slice_subrange(self.chord.as_slice(), 0, k),
        )
            invariant
                k <= start,
                start <= combined@.len(),
                start <= self.chord@.len(),
                overlap_up_to(combined@, self.chord@, start as nat) == overlap_up_to(
                    combined@,
                    self.chord@,
                    k as nat,
                ),
            decreases k,
        {
            assert(combined@.subrange(combined@.len() - k, combined@.len() as int)
                =~= combined@.skip(combined@.len() - k));
            assert(self.chord@.subrange(0, k as int) =~= self.chord@.take(k as int));
            k = k - 1;
        }
        proof {
            if k > 0 {
                assert(combined@.subrange(combined@.len() - k, combined@.len() as int)
                    =~= combined@.skip(combined@.len() - k));
                assert(self.chord@.subrange(0, k as int) =~= self.chord@.take(k as int));
            }
            assert(k == overlap(combined@, self.chord@));
            law_step_conserves_bytes(before.held, byte, before.chord);
        }
        if k == self.chord.len() {
            return FeedStep::Detach;
        }
        let split = combined.len() - k;
        self.held = combined.split_off(split);
        self.held_at = combined_at.split_off(split);
        proof {
            assert(self.held@ =~= before.held.push(byte).skip(split as int));
            assert(self.held_at@ =~= before.times.push(now).skip(split as int));
            assert(combined@ =~= before.held.push(byte).take(split as int));
        }
        FeedStep::Forward(combined)
    }

    /// Feeds a slice of bytes into the matcher.
    ///
    /// Returns any bytes to forward, whether a detach was detected, and the
    /// unread suffix after the detach boundary. If `detached` is true,
    /// `remaining` contains the bytes after the chord that the caller should
    /// handle separately.
    ///
    /// Before processing the slice, any timed-out partial match is flushed.
    pub fn feed_bytes<'a>(&mut self, bytes: &'a [u8], now: Instant) -> (r: FeedBytesResult<'a>)
        requires
            old(self)@.valid(),
        ensures
            final(self)@.valid(),
            ({
                let done = old(self)@.run(bytes@, now);
                &&& r.forward@ == old(self)@.flushed(now) + done.forward
                &&& r.detached == done.detached
                &&& r.remaining@ == done.remaining
                &&& final(self)@ == (MatcherView {
                    held: done.held,
                    times: done.times,
                    ..old(self)@
                })
            }),
    {
        let mut forward: Vec<u8> = match self.check_timeout(now) {
            Some(held) => held,
            None => Vec::new(),
        };
        let ghost settled = self@;
        let ghost all = run(settled.held, settled.times, bytes@, settled.chord, now);
        let ghost flushed = forward@;
        let mut idx: usize = 0;
        assert(bytes@.skip(0) =~= bytes@);
        assert(flushed + all.forward =~= forward@ + all.forward);
        while idx < bytes.len()
            invariant
                idx <= bytes@.len(),
                self@.valid(),
                self@.chord == settled.chord,
                self@.timeout == settled.timeout,
                settled == old(self)@.settled(now),
                flushed == old(self)@.flushed(now),
                all == run(settled.held, settled.times, bytes@, settled.chord, now),
                ({
                    let rest = run(
                        self@.held,
                        self@.times,
                        bytes@.skip(idx as int),
                        settled.chord,
                        now,
                    );
                    &&& flushed + all.forward == forward@ + rest.forward
                    &&& all.detached == rest.detached
                    &&& all.held == rest.held
                    &&& all.times == rest.times
                    &&& all.remaining == rest.remaining
                }),
            decreases bytes@.len() - idx,
        {
            let rest = slice_subrange(bytes, idx, bytes.len());
            assert(rest@ =~= bytes@.skip(idx as int));
            let ghost here = self@;
            let ghost sent = forward@;
            let (byte, consumed): (u8, usize) = match parse_ctrl_detach_encoding(
                rest,
                self.chord.as_slice(),
            ) {
                Some(matched) => (matched.normalized, matched.consumed),
                None => (bytes[idx], 1),
            };
            assert(rest@.skip(consumed as int) =~= bytes@.skip(idx + consumed));
            let ghost now_run = run(here.held, here.times, rest@, settled.chord, now);
            let ghost next = step(here.held, byte, settled.chord);
            match self.feed_byte_inner(byte, now) {
                FeedStep::Forward(more) => {
                    push_all(&mut forward, more.as_slice());
                    proof {
                        let later = run(
                            self@.held,
                            self@.times,
                            bytes@.skip(idx + consumed),
                            settled.chord,
                            now,
                        );
                        assert(now_run.forward == next.forward + later.forward);
                        assert(sent + (next.forward + later.forward) =~= (sent + next.forward)
                            + later.forward);
                    }
                },
                FeedStep::Detach => {
                    assert(forward@ + Seq::<u8>::empty() =~= forward@);
                    assert(bytes@.subrange(idx + consumed, bytes@.len() as int) =~= bytes@.skip(
                        idx + consumed,
                    ));
                    return FeedBytesResult {
                        forward,
                        detached: true,
                        remaining: slice_subrange(bytes, idx + consumed, bytes.len()),
                    };
                },
            }
            idx = idx + consumed;
        }
        let remaining = slice_subrange(bytes, bytes.len(), bytes.len());
        assert(remaining@ =~= seq![]);
        assert(bytes@.skip(idx as int).len() == 0);
        assert(forward@ + Seq::<u8>::empty() =~= forward@);
        FeedBytesResult { forward, detached: false, remaining }
    }

    /// Checks whether the current partial match has timed out.
    ///
    /// Returns held bytes for forwarding if the timeout expired.
    pub fn check_timeout(&mut self, now: Instant) -> (r: Option<Vec<u8>>)
        requires
            old(self)@.valid(),
        ensures
            final(self)@.valid(),
            final(self)@ == old(self)@.settled(now),
            match r {
                Some(bytes) => old(self)@.expired(now) && bytes@ == old(self)@.held,
                None => !old(self)@.expired(now),
            },
    {
        if self.held_at.len() == 0 {
            return None;
        }
        if now.duration_since(self.held_at[0]).nanos >= self.timeout.nanos {
            let mut held: Vec<u8> = Vec::new();
            held.append(&mut self.held);
            self.held_at.clear();
            proof {
                assert(held@ =~= old(self)@.held);
                assert(Seq::<u8>::empty() =~= self.chord@.take(0));
            }
            return Some(held);
        }
        None
    }

    /// Returns true if the matcher is currently holding bytes in a partial
    /// match.
    pub fn is_holding(&self) -> (b: bool)
        ensures
            b == (self@.held.len() > 0),
    {
        self.held.len() > 0
    }

    /// Returns the bytes currently held for a partial match.
    pub fn held_bytes(&self) -> (held: &[u8])
        ensures
            held@ == self@.held,
    {
        self.held.as_slice()
    }
}

} // verus!
