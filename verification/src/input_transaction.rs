//! Manager-owned input transaction types.

use vstd::prelude::*;
use vstd::slice::{slice_subrange, slice_to_vec};
use vstd::utf8::encode_utf8;

use crate::bytes::{find_byte, index_of_byte, lemma_index_of_byte, same_bytes};
use crate::error::IoOperation;
use crate::input::KeyInput;
use crate::time::Duration;

verus! {

/// The start value of the 64-bit FNV-1a hash.
pub const FNV1A_64_OFFSET: u64 = 0xcbf2_9ce4_8422_2325;

/// The multiplier of the 64-bit FNV-1a hash.
pub const FNV1A_64_PRIME: u64 = 0x0000_0100_0000_01b3;

/// Operator intent for a manager-owned input transaction.
#[derive(Debug, Clone, PartialEq, Eq)]
pub enum InputIntent {
    /// Insert text without submitting it.
    InsertText(String),
    /// Insert text, then send the pane's configured Enter key sequence.
    SubmitText(String),
    /// Send a keyboard chord through the terminal encoder.
    KeyChord(KeyInput),
    /// Send Ctrl-C.
    Interrupt,
    /// Send Ctrl-U to clear the current input line in common shells.
    ClearInput,
    /// Send explicit raw bytes as an escape hatch.
    RawBytes(Vec<u8>),
}

/// Echo verification policy for an input transaction.
#[derive(Debug, Clone, PartialEq, Eq)]
pub enum InputVerification {
    /// Do not verify echoed output.
    Skip,
    /// Succeed once the pane's owned surface text contains `needle`.
    EchoContains {
        /// Text to find in the pane surface or retained scrollback.
        needle: String,
        /// Maximum time to poll pane output and surface state.
        timeout: Duration,
    },
    /// Succeed once a surface line has the prefix or an FNV-1a hash matches.
    EchoPrefixOrHash {
        /// Text prefix to find in a surface line.
        prefix: String,
        /// Optional FNV-1a hash produced by [`input_echo_hash`].
        hash: Option<u64>,
        /// Maximum time to poll pane output and surface state.
        timeout: Duration,
    },
}

impl Default for InputVerification {
    fn default() -> (verification: Self)
        ensures
            verification == InputVerification::Skip,
    {
        InputVerification::Skip
    }
}

/// Whether `needle` occurs in `s`.
pub open spec fn occurs_in(needle: Seq<u8>, s: Seq<u8>) -> bool {
    exists|i: int|
        0 <= i && i + needle.len() <= s.len() && #[trigger] s.subrange(i, i + needle.len())
            == needle
}

/// The first line of `s`, without its line end.
pub open spec fn first_line(s: Seq<u8>) -> Seq<u8> {
    let end = index_of_byte(s, 0x0a) as int;
    if end < s.len() && end > 0 && s[end - 1] == 0x0d {
        s.take(end - 1)
    } else {
        s.take(end)
    }
}

/// What follows the first line of `s`.
pub open spec fn after_line(s: Seq<u8>) -> Seq<u8> {
    let end = index_of_byte(s, 0x0a) as int;
    if end < s.len() {
        s.skip(end + 1)
    } else {
        seq![]
    }
}

/// The lines of `s`: cut at LF or CR LF, with no empty line after the last end.
pub open spec fn lines(s: Seq<u8>) -> Seq<Seq<u8>>
    decreases s.len(),
{
    if s.len() == 0 {
        seq![]
    } else {
        seq![first_line(s)] + lines(after_line(s))
    }
}

/// The FNV-1a hash of `s`.
pub open spec fn fnv1a(s: Seq<u8>) -> u64
    decreases s.len(),
{
    if s.len() == 0 {
        FNV1A_64_OFFSET
    } else {
        (((fnv1a(s.drop_last()) ^ (s.last() as u64)) * FNV1A_64_PRIME)
            % 0x1_0000_0000_0000_0000) as u64
    }
}

/// Whether some line of `s` contains `needle`.
pub open spec fn line_contains(s: Seq<u8>, needle: Seq<u8>) -> bool {
    exists|i: int| 0 <= i < lines(s).len() && occurs_in(needle, #[trigger] lines(s)[i])
}

/// Whether some line of `s` has the given hash.
pub open spec fn line_hashes_to(s: Seq<u8>, hash: u64) -> bool {
    exists|i: int| 0 <= i < lines(s).len() && fnv1a(#[trigger] lines(s)[i]) == hash
}

impl InputVerification {
    /// The longest time that the policy polls, when it polls.
    pub open spec fn deadline(self) -> Option<Duration> {
        match self {
            InputVerification::Skip => None,
            InputVerification::EchoContains { needle, timeout } => Some(timeout),
            InputVerification::EchoPrefixOrHash { prefix, hash, timeout } => Some(timeout),
        }
    }

    /// Whether the policy is content with the text of a pane.
    pub open spec fn accepts(self, text: Seq<u8>) -> bool {
        match self {
            InputVerification::Skip => true,
            InputVerification::EchoContains { needle, timeout } => occurs_in(
                encode_utf8(needle@),
                text,
            ),
            InputVerification::EchoPrefixOrHash { prefix, hash, timeout } => {
                ||| prefix@.len() > 0 && line_contains(text, encode_utf8(prefix@))
                ||| hash matches Some(expected) && (fnv1a(text) == expected || line_hashes_to(
                    text,
                    expected,
                ))
            },
        }
    }

    /// An echo is awaited for as long as its policy says, and not at all where it
    /// is not verified.
    pub proof fn law_deadlines(self)
        ensures
            self is Skip <==> self.deadline() is None,
            self matches InputVerification::EchoContains { timeout, .. } ==> self.deadline()
                == Some(timeout),
            self matches InputVerification::EchoPrefixOrHash { timeout, .. } ==> self.deadline()
                == Some(timeout),
    {
    }

    /// Returns how long to poll for the echo, when it is verified.
    pub fn timeout(&self) -> (timeout: Option<Duration>)
        ensures
            timeout == self.deadline(),
    {
        match self {
            InputVerification::Skip => None,
            InputVerification::EchoContains { needle: _, timeout } => Some(*timeout),
            InputVerification::EchoPrefixOrHash { prefix: _, hash: _, timeout } => Some(*timeout),
        }
    }

    /// Tells whether the policy is content with the text of a pane.
    pub fn matches_text(&self, text: &str) -> (r: bool)
        ensures
            r == self.accepts(encode_utf8(text@)),
    {
        let bytes = text.as_bytes();
        match self {
            InputVerification::Skip => true,
            InputVerification::EchoContains { needle, timeout: _ } => contains_bytes(
                bytes,
                needle.as_str().as_bytes(),
            ),
            InputVerification::EchoPrefixOrHash { prefix, hash, timeout: _ } => {
                if !prefix.as_str().is_empty() && any_line_contains(
                    bytes,
                    prefix.as_str().as_bytes(),
                ) {
                    return true;
                }
                match hash {
                    Some(expected) => hash_bytes(bytes) == *expected || any_line_hashes_to(
                        bytes,
                        *expected,
                    ),
                    None => false,
                }
            },
        }
    }
}

/// A needle is found exactly where the text is something, the needle, and
/// something more.
pub proof fn law_needles_are_found(needle: Seq<u8>, s: Seq<u8>)
    ensures
        occurs_in(needle, s) <==> exists|before: Seq<u8>, after: Seq<u8>| #[trigger]
            (before + needle + after) == s,
{
    if occurs_in(needle, s) {
        let i = choose|i: int|
            0 <= i && i + needle.len() <= s.len() && #[trigger] s.subrange(i, i + needle.len())
                == needle;
        assert(s.take(i) + needle + s.skip(i + needle.len()) =~= s);
    }
    if exists|before: Seq<u8>, after: Seq<u8>| #[trigger] (before + needle + after) == s {
        let (before, after) = choose|before: Seq<u8>, after: Seq<u8>| #[trigger]
            (before + needle + after) == s;
        let i = before.len() as int;
        assert(s.subrange(i, i + needle.len()) =~= needle);
    }
}

proof fn lemma_first_line(line: Seq<u8>, rest: Seq<u8>)
    requires
        !line.contains(0x0a),
    ensures
        first_line(line) == line,
        after_line(line).len() == 0,
        after_line(line.push(0x0a) + rest) == rest,
        first_line(line.push(0x0a) + rest) == (if line.len() > 0 && line.last() == 0x0d {
            line.drop_last()
        } else {
            line
        }),
{
    let n = line.len() as int;
    let all = line.push(0x0a) + rest;
    assert forall|i: int| 0 <= i < n implies line[i] != 0x0a && all[i] != 0x0a by {
        assert(line.contains(line[i]));
    }
    lemma_index_of_byte(line, 0x0a);
    assert(index_of_byte(line, 0x0a) == n);
    lemma_index_of_byte(all, 0x0a);
    assert(all[n] == 0x0a);
    assert(index_of_byte(all, 0x0a) == n);
    assert(line.take(n) =~= line);
    assert(all.take(n) =~= line);
    assert(all.skip(n + 1) =~= rest);
    if n > 0 {
        assert(all[n - 1] == line[n - 1]);
        assert(all.take(n - 1) =~= line.drop_last());
    }
}

/// Lines are what stands between line feeds: one that is ended by a line feed,
/// less the carriage return before it, then the lines of what follows. What is
/// left at the end is a line too, unless nothing is left.
pub proof fn law_lines(line: Seq<u8>, rest: Seq<u8>)
    requires
        !line.contains(0x0a),
    ensures
        lines(seq![]).len() == 0,
        line.len() > 0 ==> lines(line) == seq![line],
        lines(line.push(0x0a) + rest) == seq![
            if line.len() > 0 && line.last() == 0x0d {
                line.drop_last()
            } else {
                line
            },
        ] + lines(rest),
{
    lemma_first_line(line, rest);
    assert(seq![line] + Seq::<Seq<u8>>::empty() =~= seq![line]);
}

proof fn lemma_lines_add(s: Seq<u8>, t: Seq<u8>)
    requires
        s.len() == 0 || s.last() == 0x0a,
    ensures
        lines(s + t) == lines(s) + lines(t),
    decreases s.len(),
{
    if s.len() == 0 {
        assert(s + t =~= t);
        assert(lines(s) + lines(t) =~= lines(t));
    } else {
        let end = index_of_byte(s, 0x0a) as int;
        lemma_index_of_byte(s, 0x0a);
        assert(end < s.len());
        let line = s.take(end);
        let rest = s.skip(end + 1);
        assert(!line.contains(0x0a));
        assert(line.push(0x0a) + rest =~= s);
        assert(line.push(0x0a) + (rest + t) =~= s + t);
        law_lines(line, rest);
        law_lines(line, rest + t);
        lemma_lines_add(rest, t);
        let head = seq![
            if line.len() > 0 && line.last() == 0x0d {
                line.drop_last()
            } else {
                line
            },
        ];
        assert(head + (lines(rest) + lines(t)) =~= (head + lines(rest)) + lines(t));
    }
}

proof fn lemma_line_stands(before: Seq<u8>, line: Seq<u8>, after: Seq<u8>)
    requires
        before.len() == 0 || before.last() == 0x0a,
        after.len() == 0 || after[0] == 0x0a,
        line.len() > 0,
        !line.contains(0x0a),
        line.last() != 0x0d,
    ensures
        lines(before).len() < lines(before + line + after).len(),
        lines(before + line + after)[lines(before).len() as int] == line,
{
    lemma_lines_add(before, line + after);
    assert(before + (line + after) =~= before + line + after);
    if after.len() == 0 {
        assert(line + after =~= line);
        law_lines(line, seq![]);
    } else {
        assert(line.push(0x0a) + after.skip(1) =~= line + after);
        law_lines(line, after.skip(1));
    }
    assert(lines(line + after)[0] == line);
}

proof fn lemma_found_around(want: Seq<u8>, before: Seq<u8>, line: Seq<u8>, after: Seq<u8>)
    ensures
        occurs_in(want, line) ==> occurs_in(want, before + line + after),
{
    if occurs_in(want, line) {
        let text = before + line + after;
        law_needles_are_found(want, line);
        let (a, b) = choose|a: Seq<u8>, b: Seq<u8>| #[trigger] (a + want + b) == line;
        assert((before + a) + want + (b + after) =~= text);
        law_needles_are_found(want, text);
    }
}

/// What counts as an echo: any text where none is asked for; a text that has
/// the needle in it; a text with a line that has the prefix in it, or a line or
/// a whole whose hash is the one that is asked for.
pub proof fn law_echoes_are_accepted(
    awaited: InputVerification,
    before: Seq<u8>,
    line: Seq<u8>,
    after: Seq<u8>,
)
    requires
        before.len() == 0 || before.last() == 0x0a,
        after.len() == 0 || after[0] == 0x0a,
        line.len() > 0,
        !line.contains(0x0a),
        line.last() != 0x0d,
    ensures
        ({
            let text = before + line + after;
            match awaited {
                InputVerification::Skip => awaited.accepts(text),
                InputVerification::EchoContains { needle, .. } => occurs_in(
                    encode_utf8(needle@),
                    line,
                ) ==> awaited.accepts(text),
                InputVerification::EchoPrefixOrHash { prefix, hash, .. } => {
                    &&& prefix@.len() > 0 && occurs_in(encode_utf8(prefix@), line)
                        ==> awaited.accepts(text)
                    &&& hash == Some(fnv1a(line)) ==> awaited.accepts(text)
                    &&& hash == Some(fnv1a(text)) ==> awaited.accepts(text)
                },
            }
        }),
{
    lemma_line_stands(before, line, after);
    let text = before + line + after;
    match awaited {
        InputVerification::Skip => {},
        InputVerification::EchoContains { needle, .. } => {
            lemma_found_around(encode_utf8(needle@), before, line, after);
        },
        InputVerification::EchoPrefixOrHash { .. } => {
            assert(lines(text)[lines(before).len() as int] == line);
        },
    }
}

/// What does not count as an echo: a text without the needle; and where a prefix
/// or a hash is asked for, a text no line of which has the prefix in it, while
/// neither it nor one of its lines has the hash.
pub proof fn law_other_texts_are_not_echoes(awaited: InputVerification, text: Seq<u8>)
    requires
        awaited.accepts(text),
    ensures
        match awaited {
            InputVerification::Skip => true,
            InputVerification::EchoContains { needle, .. } => exists|a: Seq<u8>, b: Seq<u8>|
                #[trigger] (a + encode_utf8(needle@) + b) == text,
            InputVerification::EchoPrefixOrHash { prefix, hash, .. } => {
                ||| hash == Some(fnv1a(text))
                ||| exists|i: int|
                    0 <= i < lines(text).len() && (hash == Some(fnv1a(#[trigger] lines(text)[i]))
                        || (prefix@.len() > 0 && occurs_in(encode_utf8(prefix@), lines(text)[i])))
            },
        },
{
    match awaited {
        InputVerification::Skip => {},
        InputVerification::EchoContains { needle, .. } => {
            law_needles_are_found(encode_utf8(needle@), text);
        },
        InputVerification::EchoPrefixOrHash { prefix, hash, .. } => {
            if prefix@.len() > 0 && line_contains(text, encode_utf8(prefix@)) {
                let i = choose|i: int|
                    0 <= i < lines(text).len() && occurs_in(
                        encode_utf8(prefix@),
                        #[trigger] lines(text)[i],
                    );
                assert(occurs_in(encode_utf8(prefix@), lines(text)[i]));
            } else if hash != Some(fnv1a(text)) {
                let want = hash->0;
                let i = choose|i: int|
                    0 <= i < lines(text).len() && fnv1a(#[trigger] lines(text)[i]) == want;
                assert(fnv1a(lines(text)[i]) == want);
            }
        },
    }
}

/// The echo hash is the 64-bit FNV-1a hash: it starts at the offset basis, and
/// each byte is mixed in and multiplied by the prime.
pub proof fn law_echo_hash(s: Seq<u8>, byte: u8)
    ensures
        fnv1a(seq![]) == 0xcbf2_9ce4_8422_2325u64,
        fnv1a(s.push(byte)) == ((fnv1a(s) ^ (byte as u64)) * 0x0000_0100_0000_01b3u64)
            % 0x1_0000_0000_0000_0000,
{
    assert(s.push(byte).drop_last() =~= s);
}

fn contains_bytes(s: &[u8], needle: &[u8]) -> (r: bool)
    ensures
        r == occurs_in(needle@, s@),
{
    if needle.len() > s.len() {
        return false;
    }
    let last = s.len() - needle.len();
    let mut i: usize = 0;
    while i <= last
        invariant
            last == s@.len() - needle@.len(),
            i <= last + 1,
            forall|k: int|
                0 <= k < i ==> #[trigger] s@.subrange(k, k + needle@.len()) != needle@,
        decreases last + 1 - i,
    {
        assert(i + needle.len() <= s.len());
        if same_bytes(slice_subrange(s, i, i + needle.len()), needle) {
            return true;
        }
        if i == last {
            return false;
        }
        i = i + 1;
    }
    false
}

fn cut_line<'a>(s: &'a [u8]) -> (r: (&'a [u8], &'a [u8]))
    requires
        s@.len() > 0,
    ensures
        r.0@ == first_line(s@),
        r.1@ == after_line(s@),
        r.1@.len() < s@.len(),
{
    let end = find_byte(s, 0x0a);
    if end < s.len() {
        let stop: usize = if end > 0 && s[end - 1] == 0x0d {
            end - 1
        } else {
            end
        };
        let line = slice_subrange(s, 0, stop);
        let rest = slice_subrange(s, end + 1, s.len());
        assert(line@ =~= first_line(s@));
        assert(rest@ =~= after_line(s@));
        (line, rest)
    } else {
        let line = slice_subrange(s, 0, s.len());
        let rest = slice_subrange(s, s.len(), s.len());
        assert(line@ =~= first_line(s@));
        assert(rest@ =~= after_line(s@));
        (line, rest)
    }
}

fn any_line_contains(s: &[u8], needle: &[u8]) -> (r: bool)
    ensures
        r == line_contains(s@, needle@),
{
    let mut rest = s;
    let ghost mut done: Seq<Seq<u8>> = seq![];
    assert(done + lines(s@) =~= lines(s@));
    while rest.len() > 0
        invariant
            lines(s@) == done + lines(rest@),
            forall|i: int| 0 <= i < done.len() ==> !occurs_in(needle@, #[trigger] done[i]),
        decreases rest@.len(),
    {
        let (line, next) = cut_line(rest);
        let found = contains_bytes(line, needle);
        proof {
            assert(lines(rest@) == seq![line@] + lines(next@));
            assert(lines(s@)[done.len() as int] == line@);
            assert(done + lines(rest@) =~= done.push(line@) + lines(next@));
        }
        if found {
            return true;
        }
        proof {
            done = done.push(line@);
        }
        rest = next;
    }
    proof {
        assert(done + Seq::<Seq<u8>>::empty() =~= done);
    }
    false
}

fn any_line_hashes_to(s: &[u8], hash: u64) -> (r: bool)
    ensures
        r == line_hashes_to(s@, hash),
{
    let mut rest = s;
    let ghost mut done: Seq<Seq<u8>> = seq![];
    assert(done + lines(s@) =~= lines(s@));
    while rest.len() > 0
        invariant
            lines(s@) == done + lines(rest@),
            forall|i: int| 0 <= i < done.len() ==> fnv1a(#[trigger] done[i]) != hash,
        decreases rest@.len(),
    {
        let (line, next) = cut_line(rest);
        let found = hash_bytes(line) == hash;
        proof {
            assert(lines(rest@) == seq![line@] + lines(next@));
            assert(lines(s@)[done.len() as int] == line@);
            assert(done + lines(rest@) =~= done.push(line@) + lines(next@));
        }
        if found {
            return true;
        }
        proof {
            done = done.push(line@);
        }
        rest = next;
    }
    proof {
        assert(done + Seq::<Seq<u8>>::empty() =~= done);
    }
    false
}

fn hash_bytes(s: &[u8]) -> (hash: u64)
    ensures
        hash == fnv1a(s@),
{
    let mut hash: u64 = FNV1A_64_OFFSET;
    let mut i: usize = 0;
    assert(s@.take(0).len() == 0);
    while i < s.len()
        invariant
            i <= s@.len(),
            hash == fnv1a(s@.take(i as int)),
        decreases s@.len() - i,
    {
        proof {
            let longer = s@.take(i + 1);
            assert(longer.drop_last() =~= s@.take(i as int));
            assert(longer.last() == s@[i as int]);
        }
        hash = (hash ^ (s[i] as u64)).wrapping_mul(FNV1A_64_PRIME);
        i = i + 1;
    }
    assert(s@.take(i as int) =~= s@);
    hash
}

/// Computes the stable FNV-1a hash used by `EchoPrefixOrHash`.
pub fn input_echo_hash(text: &str) -> (hash: u64)
    ensures
        hash == fnv1a(encode_utf8(text@)),
{
    hash_bytes(text.as_bytes())
}

/// Retry policy for transient PTY write failures.
#[derive(Debug, Clone, Copy, PartialEq, Eq, Structural)]
pub struct InputRetryConfig {
    /// Number of retries for `WouldBlock` and `Interrupted` write failures.
    pub max_transient_retries: usize,
    /// Delay between transient write retries.
    pub retry_delay: Duration,
}

/// Three retries, five milliseconds apart.
pub open spec fn default_retry() -> InputRetryConfig {
    InputRetryConfig { max_transient_retries: 3, retry_delay: Duration { nanos: 5_000_000 } }
}

impl Default for InputRetryConfig {
    fn default() -> (retry: Self)
        ensures
            retry == default_retry(),
    {
        InputRetryConfig { max_transient_retries: 3, retry_delay: Duration::from_millis(5) }
    }
}

/// A manager-owned input transaction.
#[derive(Debug, Clone, PartialEq, Eq)]
pub struct InputTransaction {
    /// Input intent to apply.
    pub intent: InputIntent,
    /// Echo verification policy.
    pub verification: InputVerification,
    /// Maximum raw-typing chunk size for fallback text insertion.
    pub chunk_size: usize,
    /// Retry policy for transient PTY write failures.
    pub retry: InputRetryConfig,
}

impl InputTransaction {
    /// Whether all but the intent is as in a fresh transaction.
    pub open spec fn has_default_settings(self) -> bool {
        &&& self.verification == InputVerification::Skip
        &&& self.chunk_size == 1024
        &&& self.retry == default_retry()
    }

    /// Creates a transaction from an input intent.
    pub fn new(intent: InputIntent) -> (transaction: Self)
        ensures
            transaction.intent == intent,
            transaction.has_default_settings(),
    {
        InputTransaction {
            intent,
            verification: InputVerification::Skip,
            chunk_size: 1024,
            retry: InputRetryConfig::default(),
        }
    }

    /// Creates a text-insertion transaction.
    pub fn insert_text(text: &str) -> (transaction: Self)
        ensures
            transaction.intent matches InputIntent::InsertText(t) && t@ == text@,
            transaction.has_default_settings(),
    {
        Self::new(InputIntent::InsertText(text.to_owned()))
    }

    /// Creates a text-submit transaction.
    pub fn submit_text(text: &str) -> (transaction: Self)
        ensures
            transaction.intent matches InputIntent::SubmitText(t) && t@ == text@,
            transaction.has_default_settings(),
    {
        Self::new(InputIntent::SubmitText(text.to_owned()))
    }

    /// Creates a key-chord transaction.
    pub fn key_chord(key: KeyInput) -> (transaction: Self)
        ensures
            transaction.intent == InputIntent::KeyChord(key),
            transaction.has_default_settings(),
    {
        Self::new(InputIntent::KeyChord(key))
    }

    /// Creates an interrupt transaction.
    pub fn interrupt() -> (transaction: Self)
        ensures
            transaction.intent == InputIntent::Interrupt,
            transaction.has_default_settings(),
    {
        Self::new(InputIntent::Interrupt)
    }

    /// Creates a clear-input transaction.
    pub fn clear_input() -> (transaction: Self)
        ensures
            transaction.intent == InputIntent::ClearInput,
            transaction.has_default_settings(),
    {
        Self::new(InputIntent::ClearInput)
    }

    /// Creates an explicit raw-byte transaction.
    pub fn raw_bytes(bytes: &[u8]) -> (transaction: Self)
        ensures
            transaction.intent matches InputIntent::RawBytes(b) && b@ == bytes@,
            transaction.has_default_settings(),
    {
        Self::new(InputIntent::RawBytes(slice_to_vec(bytes)))
    }

    /// Sets echo verification for this transaction.
    pub fn with_verification(self, verification: InputVerification) -> (transaction: Self)
        ensures
            transaction == (InputTransaction { verification, ..self }),
    {
        let mut transaction = self;
        transaction.verification = verification;
        transaction
    }

    /// Sets the maximum raw-typing chunk size, at least one.
    pub fn with_chunk_size(self, chunk_size: usize) -> (transaction: Self)
        ensures
            transaction == (InputTransaction {
                chunk_size: if chunk_size == 0 {
                    1
                } else {
                    chunk_size
                },
                ..self
            }),
    {
        let mut transaction = self;
        transaction.chunk_size = if chunk_size == 0 {
            1
        } else {
            chunk_size
        };
        transaction
    }

    /// Sets the transient write retry policy.
    pub fn with_retry(self, retry: InputRetryConfig) -> (transaction: Self)
        ensures
            transaction == (InputTransaction { retry, ..self }),
    {
        let mut transaction = self;
        transaction.retry = retry;
        transaction
    }
}

/// Structured result from an input transaction.
#[derive(Debug, Clone, PartialEq, Eq)]
pub struct InputOutcome {
    /// Bytes successfully written to the PTY.
    pub bytes_sent: usize,
    /// Whether echo verification succeeded.
    pub echoed: bool,
    /// Whether a submit key sequence was sent.
    pub submitted: bool,
    /// Whether echo verification timed out.
    pub timed_out: bool,
    /// Whether the child exited before or during the transaction.
    pub child_exited: bool,
    /// Structured transaction failures.
    pub errors: Vec<InputTransactionError>,
}

impl Default for InputOutcome {
    fn default() -> (outcome: Self)
        ensures
            outcome.bytes_sent == 0,
            !outcome.echoed && !outcome.submitted && !outcome.timed_out && !outcome.child_exited,
            outcome.errors@.len() == 0,
    {
        InputOutcome {
            bytes_sent: 0,
            echoed: false,
            submitted: false,
            timed_out: false,
            child_exited: false,
            errors: Vec::new(),
        }
    }
}

impl InputOutcome {
    /// Returns true when the transaction completed without structured errors.
    pub fn is_success(&self) -> (r: bool)
        ensures
            r == (self.errors@.len() == 0 && !self.timed_out),
    {
        self.errors.len() == 0 && !self.timed_out
    }
}

/// Structured transaction failure details.
#[derive(Debug, Clone, PartialEq, Eq)]
pub enum InputTransactionError {
    /// A PTY write or flush failed.
    Write {
        /// Failed I/O operation.
        operation: IoOperation,
        /// Bytes the transaction attempted to write in this chunk.
        bytes_attempted: usize,
        /// Bytes written from this chunk before failure was observed.
        bytes_written: usize,
        /// Human-readable failure message.
        message: String,
    },
    /// Echo verification did not succeed.
    VerificationFailed {
        /// Human-readable verification failure message.
        message: String,
    },
    /// The child exited before all transaction steps completed.
    ChildExited,
}

} // verus!
