//! Retained output of a pane, as raw bytes and as plain text.
//!
//! Output is kept chunk by chunk. When a limit is exceeded the oldest chunks
//! are dropped whole, so that offsets into the stream stay meaningful.

use vstd::prelude::*;
use vstd::slice::{slice_subrange, slice_to_vec};
use vstd::utf8::{decode_utf8, encode_utf8, valid_utf8};

use crate::bytes::push_all;
use crate::pane::{TranscriptConfig, TranscriptMode};

verus! {

/// What bytes read as when each piece that is not UTF-8 is replaced.
pub uninterp spec fn lossy_text(bytes: Seq<u8>) -> Seq<char>;

/// Reads bytes as text (`String::from_utf8_lossy`): valid UTF-8 is decoded, and
/// invalid pieces are replaced by U+FFFD. How invalid bytes fall into pieces is
/// not spelled out.
#[verifier::external_body]
fn decode_lossy(bytes: &[u8]) -> (text: String)
    ensures
        text@ == lossy_text(bytes@),
        valid_utf8(bytes@) ==> text@ == decode_utf8(bytes@),
{
    String::from_utf8_lossy(bytes).into_owned()
}

/// Index of the first byte at or after `from` that ends a control sequence, or
/// the length.
pub open spec fn csi_end(s: Seq<u8>, from: nat) -> nat
    decreases s.len() - from,
{
    if from >= s.len() {
        s.len()
    } else if 0x40 <= s[from as int] <= 0x7e {
        from
    } else {
        csi_end(s, from + 1)
    }
}

/// Index just behind the terminator (BEL, or ESC backslash) of a control string
/// whose text starts at `from`, or one more than the length.
pub open spec fn string_end(s: Seq<u8>, from: nat) -> nat
    decreases s.len() - from,
{
    if from >= s.len() {
        s.len() + 1
    } else if s[from as int] == 0x07 {
        from + 1
    } else if s[from as int] == 0x1b && from + 1 < s.len() && s[from as int + 1] == 0x5c {
        from + 2
    } else {
        string_end(s, from + 1)
    }
}

/// Index of the first byte at or after `from` that is no intermediate byte, or
/// the length.
pub open spec fn intermediates_end(s: Seq<u8>, from: nat) -> nat
    decreases s.len() - from,
{
    if from >= s.len() {
        s.len()
    } else if 0x20 <= s[from as int] <= 0x2f {
        intermediates_end(s, from + 1)
    } else {
        from
    }
}

/// Whether a byte behind ESC opens a control string.
pub open spec fn opens_string(b: u8) -> bool {
    b == 0x5d || b == 0x50 || b == 0x58 || b == 0x5e || b == 0x5f
}

/// Length of the escape sequence that `s` starts with, more than the length of
/// `s` when the sequence is not complete yet.
pub open spec fn escape_len(s: Seq<u8>) -> nat {
    if s.len() < 2 {
        s.len() + 1
    } else if s[1] == 0x5b {
        csi_end(s, 2) + 1
    } else if opens_string(s[1]) {
        string_end(s, 2)
    } else {
        intermediates_end(s, 1) + 1
    }
}

proof fn lemma_escape_len(s: Seq<u8>)
    requires
        s.len() > 0,
    ensures
        escape_len(s) >= 1,
        s.len() >= 2 ==> escape_len(s) >= 2,
{
    if s.len() >= 2 {
        lemma_csi_end(s, 2);
        lemma_string_end(s, 2);
        lemma_intermediates_end(s, 1);
    }
}

proof fn lemma_csi_end(s: Seq<u8>, from: nat)
    requires
        from <= s.len(),
    ensures
        from <= csi_end(s, from) <= s.len(),
    decreases s.len() - from,
{
    if from < s.len() && !(0x40 <= s[from as int] <= 0x7e) {
        lemma_csi_end(s, from + 1);
    }
}

proof fn lemma_string_end(s: Seq<u8>, from: nat)
    requires
        from <= s.len(),
    ensures
        from < string_end(s, from) <= s.len() + 1,
    decreases s.len() - from,
{
    if from < s.len() {
        lemma_string_end(s, from + 1);
    }
}

proof fn lemma_intermediates_end(s: Seq<u8>, from: nat)
    requires
        from <= s.len(),
    ensures
        from <= intermediates_end(s, from) <= s.len(),
    decreases s.len() - from,
{
    if from < s.len() && 0x20 <= s[from as int] <= 0x2f {
        lemma_intermediates_end(s, from + 1);
    }
}

fn find_csi_end(bytes: &[u8]) -> (at: usize)
    requires
        bytes@.len() >= 2,
    ensures
        at == csi_end(bytes@, 2),
        at <= bytes@.len(),
{
    let mut at: usize = 2;
    while at < bytes.len() && !(0x40 <= bytes[at] && bytes[at] <= 0x7e)
        invariant
            at <= bytes@.len(),
            csi_end(bytes@, 2) == csi_end(bytes@, at as nat),
        decreases bytes@.len() - at,
    {
        at = at + 1;
    }
    at
}

fn find_string_end(bytes: &[u8]) -> (end: Option<usize>)
    requires
        bytes@.len() >= 2,
    ensures
        match end {
            Some(at) => at == string_end(bytes@, 2) && at <= bytes@.len(),
            None => string_end(bytes@, 2) == bytes@.len() + 1,
        },
{
    let mut at: usize = 2;
    while at < bytes.len()
        invariant
            2 <= at <= bytes@.len(),
            string_end(bytes@, 2) == string_end(bytes@, at as nat),
        decreases bytes@.len() - at,
    {
        if bytes[at] == 0x07 {
            return Some(at + 1);
        }
        if bytes[at] == 0x1b && at < bytes.len() - 1 && bytes[at + 1] == 0x5c {
            return Some(at + 2);
        }
        at = at + 1;
    }
    None
}

fn find_intermediates_end(bytes: &[u8]) -> (at: usize)
    requires
        bytes@.len() >= 2,
    ensures
        at == intermediates_end(bytes@, 1),
        at <= bytes@.len(),
{
    let mut at: usize = 1;
    while at < bytes.len() && 0x20 <= bytes[at] && bytes[at] <= 0x2f
        invariant
            at <= bytes@.len(),
            intermediates_end(bytes@, 1) == intermediates_end(bytes@, at as nat),
        decreases bytes@.len() - at,
    {
        at = at + 1;
    }
    at
}

/// The length of the escape sequence at the start, if it is complete.
fn complete_escape(bytes: &[u8]) -> (n: Option<usize>)
    requires
        bytes@.len() > 0,
    ensures
        match n {
            Some(n) => n == escape_len(bytes@) && 0 < n <= bytes@.len(),
            None => escape_len(bytes@) > bytes@.len(),
        },
{
    proof {
        lemma_escape_len(bytes@);
    }
    if bytes.len() < 2 {
        return None;
    }
    if bytes[1] == 0x5b {
        let at = find_csi_end(bytes);
        if at < bytes.len() {
            Some(at + 1)
        } else {
            None
        }
    } else if bytes[1] == 0x5d || bytes[1] == 0x50 || bytes[1] == 0x58 || bytes[1] == 0x5e
        || bytes[1] == 0x5f {
        find_string_end(bytes)
    } else {
        let at = find_intermediates_end(bytes);
        if at < bytes.len() {
            Some(at + 1)
        } else {
            None
        }
    }
}

/// How many bytes a UTF-8 character has that starts with `lead`.
pub open spec fn width_of(lead: u8) -> nat {
    if 0xc2 <= lead <= 0xdf {
        2
    } else if 0xe0 <= lead <= 0xef {
        3
    } else if 0xf0 <= lead <= 0xf4 {
        4
    } else {
        1
    }
}

/// Whether a byte continues a UTF-8 character.
pub open spec fn continues(b: u8) -> bool {
    0x80 <= b <= 0xbf
}

/// Whether the last `k` bytes of `s` begin a UTF-8 character that wants more.
pub open spec fn unfinished_at(s: Seq<u8>, k: int) -> bool {
    &&& 0 < k <= s.len()
    &&& width_of(s[s.len() - k]) > k
    &&& forall|i: int| s.len() - k < i < s.len() ==> continues(#[trigger] s[i])
}

/// How many bytes at the end of `s` begin a UTF-8 character that wants more.
pub open spec fn unfinished_tail(s: Seq<u8>) -> nat {
    if unfinished_at(s, 1) {
        1
    } else if unfinished_at(s, 2) {
        2
    } else if unfinished_at(s, 3) {
        3
    } else {
        0
    }
}

fn width(lead: u8) -> (n: usize)
    ensures
        n == width_of(lead),
{
    if 0xc2 <= lead && lead <= 0xdf {
        2
    } else if 0xe0 <= lead && lead <= 0xef {
        3
    } else if 0xf0 <= lead && lead <= 0xf4 {
        4
    } else {
        1
    }
}

fn find_unfinished_tail(bytes: &[u8]) -> (k: usize)
    ensures
        k == unfinished_tail(bytes@),
        k <= bytes@.len(),
{
    let n = bytes.len();
    if n >= 1 && width(bytes[n - 1]) > 1 {
        return 1;
    }
    let cont_1 = n >= 1 && 0x80 <= bytes[n - 1] && bytes[n - 1] <= 0xbf;
    if n >= 2 && cont_1 && width(bytes[n - 2]) > 2 {
        assert(unfinished_at(bytes@, 2));
        return 2;
    }
    let cont_2 = n >= 2 && 0x80 <= bytes[n - 2] && bytes[n - 2] <= 0xbf;
    if n >= 3 && cont_1 && cont_2 && width(bytes[n - 3]) > 3 {
        assert(unfinished_at(bytes@, 3));
        return 3;
    }
    proof {
        if unfinished_at(bytes@, 2) {
            assert(continues(bytes@[n - 1]));
        }
        if unfinished_at(bytes@, 3) {
            assert(continues(bytes@[n - 1]));
            assert(continues(bytes@[n - 2]));
        }
    }
    0
}

/// Output with its escape sequences taken out: the text, and the bytes held back
/// because a sequence or a character is not complete.
pub ghost struct Stripped {
    pub text: Seq<char>,
    pub pending: Seq<u8>,
}

/// Index of the first ESC, or the length.
pub open spec fn next_escape(s: Seq<u8>) -> nat {
    crate::bytes::index_of_byte(s, 0x1b)
}

/// Takes the escape sequences out of output.
pub open spec fn strip(s: Seq<u8>) -> Stripped
    decreases s.len(),
{
    if s.len() == 0 {
        Stripped { text: seq![], pending: seq![] }
    } else if s[0] == 0x1b {
        if escape_len(s) > s.len() || escape_len(s) == 0 {
            Stripped { text: seq![], pending: s }
        } else {
            strip(s.skip(escape_len(s) as int))
        }
    } else {
        proof {
            crate::bytes::lemma_index_of_byte(s, 0x1b);
        }
        let n = next_escape(s);
        let run = s.take(n as int);
        if n == s.len() {
            let kept = n - unfinished_tail(s);
            Stripped { text: lossy_text(s.take(kept)), pending: s.skip(kept) }
        } else if n == 0 {
            Stripped { text: seq![], pending: s }
        } else {
            let later = strip(s.skip(n as int));
            Stripped { text: lossy_text(run) + later.text, pending: later.pending }
        }
    }
}

fn strip_output(bytes: &[u8]) -> (r: (String, Vec<u8>))
    ensures
        r.0@ == strip(bytes@).text,
        r.1@ == strip(bytes@).pending,
{
    let mut text = String::new();
    let mut at: usize = 0;
    let ghost all = strip(bytes@);
    assert(bytes@.skip(0) =~= bytes@);
    assert(text@ + all.text =~= all.text);
    while at < bytes.len()
        invariant
            at <= bytes@.len(),
            all == strip(bytes@),
            all.text == text@ + strip(bytes@.skip(at as int)).text,
            all.pending == strip(bytes@.skip(at as int)).pending,
        decreases bytes@.len() - at,
    {
        let rest = slice_subrange(bytes, at, bytes.len());
        assert(rest@ =~= bytes@.skip(at as int));
        let ghost before = text@;
        if rest[0] == 0x1b {
            proof {
                lemma_escape_len(rest@);
            }
            match complete_escape(rest) {
                Some(n) => {
                    assert(rest@.skip(n as int) =~= bytes@.skip(at + n));
                    at = at + n;
                },
                None => {
                    assert(text@ + Seq::<char>::empty() =~= text@);
                    return (text, slice_to_vec(rest));
                },
            }
        } else {
            proof {
                crate::bytes::lemma_index_of_byte(rest@, 0x1b);
            }
            let n = crate::bytes::find_byte(rest, 0x1b);
            if n == rest.len() {
                let kept = n - find_unfinished_tail(rest);
                let run = slice_subrange(rest, 0, kept);
                assert(run@ =~= rest@.take(kept as int));
                let piece = decode_lossy(run);
                text.append(piece.as_str());
                let tail = slice_subrange(rest, kept, rest.len());
                assert(tail@ =~= rest@.skip(kept as int));
                return (text, slice_to_vec(tail));
            }
            let run = slice_subrange(rest, 0, n);
            assert(run@ =~= rest@.take(n as int));
            let piece = decode_lossy(run);
            text.append(piece.as_str());
            proof {
                assert(rest@.skip(n as int) =~= bytes@.skip(at + n));
                let later = strip(bytes@.skip(at + n));
                assert(before + (lossy_text(run@) + later.text) =~= text@ + later.text);
            }
            at = at + n;
        }
    }
    assert(bytes@.skip(at as int).len() == 0);
    assert(text@ + Seq::<char>::empty() =~= text@);
    let none: Vec<u8> = Vec::new();
    assert(none@ =~= seq![]);
    (text, none)
}

/// What one frame of output added.
pub ghost struct ChunkView {
    pub raw: Seq<u8>,
    pub plain: Seq<char>,
}

/// The number of newline bytes.
pub open spec fn byte_lines(s: Seq<u8>) -> nat
    decreases s.len(),
{
    if s.len() == 0 {
        0
    } else {
        byte_lines(s.drop_last()) + if s.last() == 0x0a {
            1nat
        } else {
            0nat
        }
    }
}

/// The number of newline characters.
pub open spec fn char_lines(s: Seq<char>) -> nat
    decreases s.len(),
{
    if s.len() == 0 {
        0
    } else {
        char_lines(s.drop_last()) + if s.last() == '\n' {
            1nat
        } else {
            0nat
        }
    }
}

impl ChunkView {
    /// The lines of the chunk: what is recorded twice counts once.
    pub open spec fn lines(self) -> nat {
        if byte_lines(self.raw) >= char_lines(self.plain) {
            byte_lines(self.raw)
        } else {
            char_lines(self.plain)
        }
    }

    /// The bytes of the chunk, raw and plain together.
    pub open spec fn bytes(self) -> nat {
        self.raw.len() + encode_utf8(self.plain).len()
    }
}

/// The lines of all chunks.
pub open spec fn total_lines(chunks: Seq<ChunkView>) -> nat
    decreases chunks.len(),
{
    if chunks.len() == 0 {
        0
    } else {
        total_lines(chunks.drop_last()) + chunks.last().lines()
    }
}

/// The bytes of all chunks.
pub open spec fn total_bytes(chunks: Seq<ChunkView>) -> nat
    decreases chunks.len(),
{
    if chunks.len() == 0 {
        0
    } else {
        total_bytes(chunks.drop_last()) + chunks.last().bytes()
    }
}

/// The raw bytes of all chunks, in order.
pub open spec fn all_raw(chunks: Seq<ChunkView>) -> Seq<u8>
    decreases chunks.len(),
{
    if chunks.len() == 0 {
        seq![]
    } else {
        all_raw(chunks.drop_last()) + chunks.last().raw
    }
}

/// The plain text of all chunks, in order.
pub open spec fn all_plain(chunks: Seq<ChunkView>) -> Seq<char>
    decreases chunks.len(),
{
    if chunks.len() == 0 {
        seq![]
    } else {
        all_plain(chunks.drop_last()) + chunks.last().plain
    }
}

/// The raw bytes in all chunks.
pub open spec fn raw_bytes_in(chunks: Seq<ChunkView>) -> nat
    decreases chunks.len(),
{
    if chunks.len() == 0 {
        0
    } else {
        raw_bytes_in(chunks.drop_last()) + chunks.last().raw.len()
    }
}

/// The plain bytes in all chunks.
pub open spec fn plain_bytes_in(chunks: Seq<ChunkView>) -> nat
    decreases chunks.len(),
{
    if chunks.len() == 0 {
        0
    } else {
        plain_bytes_in(chunks.drop_last()) + encode_utf8(chunks.last().plain).len()
    }
}

/// The greatest 64-bit number up to `n`.
pub open spec fn sat64(n: nat) -> u64 {
    if n > u64::MAX {
        u64::MAX
    } else {
        n as u64
    }
}

/// A transcript as plain values.
pub ghost struct TranscriptView {
    pub config: TranscriptConfig,
    pub chunks: Seq<ChunkView>,
    pub raw_start: u64,
    pub plain_start: u64,
    pub pending: Seq<u8>,
}

/// What a rotation dropped.
#[derive(Debug, Clone, Copy, PartialEq, Eq, Structural)]
pub struct TranscriptRotation {
    /// Number of chunks dropped.
    pub chunks_dropped: u64,
    /// Total bytes dropped (raw + plain).
    pub bytes_dropped: u64,
    /// Raw bytes dropped.
    pub raw_bytes_dropped: u64,
    /// Plain bytes dropped.
    pub plain_bytes_dropped: u64,
}

/// What recording a frame did.
#[derive(Debug, Clone, Copy, PartialEq, Eq, Structural)]
pub struct TranscriptRecord {
    /// Absolute offset of the frame in the recorded stream.
    pub offset: u64,
    /// What had to be dropped for it.
    pub rotated: Option<TranscriptRotation>,
}

impl TranscriptView {
    /// Whether raw bytes are recorded.
    pub open spec fn keeps_raw(self) -> bool {
        self.config.mode == TranscriptMode::RawBytes || self.config.mode == TranscriptMode::Both
    }

    /// Whether plain text is recorded.
    pub open spec fn keeps_plain(self) -> bool {
        self.config.mode == TranscriptMode::PlainText || self.config.mode == TranscriptMode::Both
    }

    /// Whether the chunks exceed a limit. A limit of zero is no limit.
    pub open spec fn exceeds(self, chunks: Seq<ChunkView>) -> bool {
        ||| self.config.max_lines > 0 && total_lines(chunks) > self.config.max_lines
        ||| self.config.max_bytes > 0 && total_bytes(chunks) > self.config.max_bytes
    }

    /// How many of the oldest chunks have to go.
    pub open spec fn surplus(self, chunks: Seq<ChunkView>) -> nat
        decreases chunks.len(),
    {
        if chunks.len() > 0 && self.exceeds(chunks) {
            1 + self.surplus(chunks.skip(1))
        } else {
            0
        }
    }

    /// What dropping the oldest `k` chunks reports.
    pub open spec fn rotation(self, k: int) -> TranscriptRotation {
        let gone = self.chunks.take(k);
        TranscriptRotation {
            chunks_dropped: sat64(k as nat),
            bytes_dropped: sat64(raw_bytes_in(gone) + plain_bytes_in(gone)),
            raw_bytes_dropped: sat64(raw_bytes_in(gone)),
            plain_bytes_dropped: sat64(plain_bytes_in(gone)),
        }
    }

    /// The transcript without its oldest `k` chunks.
    pub open spec fn without(self, k: int) -> TranscriptView {
        let gone = self.chunks.take(k);
        TranscriptView {
            chunks: self.chunks.skip(k),
            raw_start: sat64(self.raw_start as nat + raw_bytes_in(gone)),
            plain_start: sat64(self.plain_start as nat + plain_bytes_in(gone)),
            ..self
        }
    }

    /// The transcript within its limits, and what that dropped.
    pub open spec fn rotated(self) -> (TranscriptView, Option<TranscriptRotation>) {
        let k = self.surplus(self.chunks);
        if k == 0 {
            (self, None)
        } else {
            (self.without(k as int), Some(self.rotation(k as int)))
        }
    }

    /// The offset at which the raw stream goes on.
    pub open spec fn next_raw(self) -> u64 {
        sat64(self.raw_start as nat + raw_bytes_in(self.chunks))
    }

    /// The offset at which the plain stream goes on.
    pub open spec fn next_plain(self) -> u64 {
        sat64(self.plain_start as nat + plain_bytes_in(self.chunks))
    }

    /// The offset that a frame is given: into the raw stream where that is
    /// recorded, else into the plain one.
    pub open spec fn next_offset(self) -> u64 {
        if self.keeps_raw() {
            self.next_raw()
        } else {
            self.next_plain()
        }
    }

    /// The transcript with a frame added, before rotation.
    pub open spec fn added(self, bytes: Seq<u8>) -> TranscriptView {
        if self.config.mode == TranscriptMode::Disabled {
            self
        } else {
            let stripped = strip(self.pending + bytes);
            TranscriptView {
                chunks: self.chunks.push(
                    ChunkView {
                        raw: if self.keeps_raw() {
                            bytes
                        } else {
                            seq![]
                        },
                        plain: if self.keeps_plain() {
                            stripped.text
                        } else {
                            seq![]
                        },
                    },
                ),
                pending: if self.keeps_plain() {
                    stripped.pending
                } else {
                    self.pending
                },
                ..self
            }
        }
    }

    /// The transcript with what was held back added as it stands.
    pub open spec fn settled(self) -> TranscriptView {
        if self.pending.len() == 0 {
            self
        } else {
            TranscriptView {
                chunks: self.chunks.push(
                    ChunkView { raw: seq![], plain: lossy_text(self.pending) },
                ),
                pending: seq![],
                ..self
            }
        }
    }
}

proof fn lemma_totals_grow(chunks: Seq<ChunkView>, n: int)
    requires
        0 <= n <= chunks.len(),
    ensures
        total_lines(chunks.take(n)) <= total_lines(chunks),
        total_bytes(chunks.take(n)) <= total_bytes(chunks),
    decreases chunks.len() - n,
{
    if n == chunks.len() {
        assert(chunks.take(n) =~= chunks);
    } else {
        lemma_totals_grow(chunks, n + 1);
        let longer = chunks.take(n + 1);
        assert(longer.drop_last() =~= chunks.take(n));
    }
}

proof fn lemma_surplus(t: TranscriptView, chunks: Seq<ChunkView>)
    ensures
        t.surplus(chunks) <= chunks.len(),
        !t.exceeds(chunks.skip(t.surplus(chunks) as int)) || t.surplus(chunks) == chunks.len(),
    decreases chunks.len(),
{
    if chunks.len() > 0 && t.exceeds(chunks) {
        lemma_surplus(t, chunks.skip(1));
        let k = t.surplus(chunks.skip(1)) as int;
        assert(chunks.skip(1).skip(k) =~= chunks.skip(1 + k));
    } else {
        assert(chunks.skip(0) =~= chunks);
    }
}

/// Rotation brings a transcript within its limits.
pub proof fn law_rotation_meets_the_limits(t: TranscriptView)
    ensures
        ({
            let kept = t.rotated().0.chunks;
            &&& t.config.max_lines > 0 ==> total_lines(kept) <= t.config.max_lines
            &&& t.config.max_bytes > 0 ==> total_bytes(kept) <= t.config.max_bytes
        }),
{
    lemma_surplus(t, t.chunks);
    let k = t.surplus(t.chunks) as int;
    assert(t.chunks.skip(0) =~= t.chunks);
    if k == t.chunks.len() {
        assert(t.chunks.skip(k).len() == 0);
    }
}

/// Rotation drops whole chunks from the front and nothing else, and no more
/// than it must: with one chunk fewer dropped a limit is exceeded.
pub proof fn law_rotation_drops_no_more_than_it_must(t: TranscriptView)
    ensures
        ({
            let k = t.surplus(t.chunks) as int;
            &&& k <= t.chunks.len()
            &&& t.rotated().0.chunks == t.chunks.skip(k)
            &&& forall|j: int| 0 <= j < k ==> t.exceeds(#[trigger] t.chunks.skip(j))
        }),
{
    lemma_surplus(t, t.chunks);
    assert(t.chunks.skip(0) =~= t.chunks);
    lemma_surplus_is_least(t, t.chunks);
}

proof fn lemma_chunks_split(chunks: Seq<ChunkView>, k: int)
    requires
        0 <= k <= chunks.len(),
    ensures
        all_raw(chunks) == all_raw(chunks.take(k)) + all_raw(chunks.skip(k)),
        all_plain(chunks) == all_plain(chunks.take(k)) + all_plain(chunks.skip(k)),
        raw_bytes_in(chunks) == raw_bytes_in(chunks.take(k)) + raw_bytes_in(chunks.skip(k)),
        plain_bytes_in(chunks) == plain_bytes_in(chunks.take(k)) + plain_bytes_in(chunks.skip(k)),
        raw_bytes_in(chunks.take(k)) == all_raw(chunks.take(k)).len(),
    decreases chunks.len(),
{
    if chunks.len() == 0 {
        assert(chunks.take(k) =~= chunks);
        assert(chunks.skip(k) =~= chunks);
    } else if k == chunks.len() {
        assert(chunks.take(k) =~= chunks);
        assert(chunks.skip(k) =~= seq![]);
        let fewer = chunks.drop_last();
        lemma_chunks_split(fewer, k - 1);
        assert(fewer.take(k - 1) =~= fewer);
        assert(all_raw(chunks) + Seq::<u8>::empty() =~= all_raw(chunks));
        assert(all_plain(chunks) + Seq::<char>::empty() =~= all_plain(chunks));
    } else {
        let fewer = chunks.drop_last();
        lemma_chunks_split(fewer, k);
        assert(fewer.take(k) =~= chunks.take(k));
        assert(chunks.skip(k).drop_last() =~= fewer.skip(k));
        assert(chunks.skip(k).last() == chunks.last());
        assert(all_raw(chunks) =~= all_raw(chunks.take(k)) + all_raw(chunks.skip(k)));
        assert(all_plain(chunks) =~= all_plain(chunks.take(k)) + all_plain(chunks.skip(k)));
    }
}

/// What is recorded can be read back: the retained raw bytes are those before
/// and the recorded ones behind them, less what was dropped from the front. The
/// start offset moves by exactly the bytes that were dropped, and the stream
/// goes on behind the recorded bytes.
pub proof fn law_raw_transcript_is_the_tail(t: TranscriptView, bytes: Seq<u8>)
    requires
        t.keeps_raw(),
        t.raw_start + all_raw(t.chunks).len() + bytes.len() <= u64::MAX,
    ensures
        ({
            let later = t.added(bytes).rotated().0;
            let dropped = later.raw_start - t.raw_start;
            &&& 0 <= dropped <= all_raw(t.chunks).len() + bytes.len()
            &&& all_raw(later.chunks) == (all_raw(t.chunks) + bytes).skip(dropped)
            &&& t.next_raw() == t.raw_start + all_raw(t.chunks).len()
            &&& later.next_raw() == t.next_raw() + bytes.len()
        }),
{
    let added = t.added(bytes);
    let k = added.surplus(added.chunks) as int;
    let later = added.rotated().0;
    lemma_surplus(added, added.chunks);
    lemma_chunks_split(added.chunks, k);
    lemma_chunks_split(t.chunks, t.chunks.len() as int);
    lemma_chunks_split(added.chunks, added.chunks.len() as int);
    assert(t.chunks.take(t.chunks.len() as int) =~= t.chunks);
    assert(added.chunks.take(added.chunks.len() as int) =~= added.chunks);
    assert(added.chunks.drop_last() =~= t.chunks);
    assert(added.chunks.skip(0) =~= added.chunks);
    let all = all_raw(t.chunks) + bytes;
    assert(all_raw(added.chunks) == all);
    let gone = all_raw(added.chunks.take(k)).len() as int;
    assert(added.chunks.take(0) =~= seq![]);
    assert(all.skip(gone) =~= all_raw(added.chunks.skip(k)));
    if k == 0 {
        assert(all.skip(0) =~= all);
    }
}

/// The retained plain text is the text before and the recorded one behind it,
/// less what was dropped from the front, and the start offset moves by the
/// bytes of the chunks that were dropped.
pub proof fn law_plain_transcript_is_the_tail(t: TranscriptView, bytes: Seq<u8>)
    requires
        t.keeps_plain(),
        t.plain_start + plain_bytes_in(t.added(bytes).chunks) <= u64::MAX,
    ensures
        ({
            let added = t.added(bytes);
            let later = added.rotated().0;
            let gone = added.chunks.take(added.surplus(added.chunks) as int);
            &&& all_plain(t.chunks) + strip(t.pending + bytes).text == all_plain(gone) + all_plain(
                later.chunks,
            )
            &&& later.plain_start == t.plain_start + plain_bytes_in(gone)
            &&& later.next_plain() == t.plain_start + plain_bytes_in(t.added(bytes).chunks)
        }),
{
    let added = t.added(bytes);
    let k = added.surplus(added.chunks) as int;
    lemma_surplus(added, added.chunks);
    lemma_chunks_split(added.chunks, k);
    assert(added.chunks.drop_last() =~= t.chunks);
    if k == 0 {
        assert(added.chunks.skip(0) =~= added.chunks);
        assert(added.chunks.take(0) =~= seq![]);
    }
}

proof fn lemma_surplus_is_least(t: TranscriptView, chunks: Seq<ChunkView>)
    ensures
        forall|j: int| 0 <= j < t.surplus(chunks) ==> t.exceeds(#[trigger] chunks.skip(j)),
    decreases chunks.len(),
{
    if chunks.len() > 0 && t.exceeds(chunks) {
        let rest = chunks.skip(1);
        lemma_surplus_is_least(t, rest);
        lemma_surplus(t, chunks);
        assert forall|j: int| 0 <= j < t.surplus(chunks) implies t.exceeds(
            #[trigger] chunks.skip(j),
        ) by {
            if j == 0 {
                assert(chunks.skip(0) =~= chunks);
            } else {
                assert(rest.skip(j - 1) =~= chunks.skip(j));
            }
        }
    }
}

proof fn lemma_csi_end_at(s: Seq<u8>, from: nat, at: nat)
    requires
        from <= at < s.len(),
        forall|i: int| from <= i < at ==> !(0x40 <= #[trigger] s[i] <= 0x7e),
        0x40 <= s[at as int] <= 0x7e,
    ensures
        csi_end(s, from) == at,
    decreases at - from,
{
    if from < at {
        lemma_csi_end_at(s, from + 1, at);
    }
}

proof fn lemma_csi_end_open(s: Seq<u8>, from: nat)
    requires
        from <= s.len(),
        forall|i: int| from <= i < s.len() ==> !(0x40 <= #[trigger] s[i] <= 0x7e),
    ensures
        csi_end(s, from) == s.len(),
    decreases s.len() - from,
{
    if from < s.len() {
        lemma_csi_end_open(s, from + 1);
    }
}

proof fn lemma_string_end_at(s: Seq<u8>, from: nat, at: nat)
    requires
        from <= at < s.len(),
        forall|i: int| from <= i < at ==> #[trigger] s[i] != 0x07 && s[i] != 0x1b,
        s[at as int] == 0x07 || (s[at as int] == 0x1b && at + 1 < s.len() && s[at as int + 1]
            == 0x5c),
    ensures
        string_end(s, from) == if s[at as int] == 0x07 {
            at + 1
        } else {
            at + 2
        },
    decreases at - from,
{
    if from < at {
        lemma_string_end_at(s, from + 1, at);
    }
}

proof fn lemma_intermediates_end_at(s: Seq<u8>, from: nat, at: nat)
    requires
        from <= at < s.len(),
        forall|i: int| from <= i < at ==> 0x20 <= #[trigger] s[i] <= 0x2f,
        !(0x20 <= s[at as int] <= 0x2f),
    ensures
        intermediates_end(s, from) == at,
    decreases at - from,
{
    if from < at {
        lemma_intermediates_end_at(s, from + 1, at);
    }
}

/// Control sequences leave no text behind: `ESC [`, parameters and a final byte
/// are taken out, and what follows reads as it would without them. One that is
/// not complete yet is held back whole.
pub proof fn law_control_sequences_are_taken_out(params: Seq<u8>, end: u8, rest: Seq<u8>)
    requires
        forall|i: int| 0 <= i < params.len() ==> !(0x40 <= #[trigger] params[i] <= 0x7e),
        0x40 <= end <= 0x7e,
    ensures
        strip((seq![0x1bu8, 0x5b] + params).push(end) + rest) == strip(rest),
        strip(seq![0x1bu8, 0x5b] + params) == (Stripped {
            text: seq![],
            pending: seq![0x1bu8, 0x5b] + params,
        }),
{
    let open = seq![0x1bu8, 0x5b] + params;
    let s = open.push(end) + rest;
    let at = open.len();
    assert forall|i: int| 2 <= i < at implies !(0x40 <= #[trigger] s[i] <= 0x7e) && !(0x40
        <= open[i] <= 0x7e) by {
        assert(s[i] == params[i - 2]);
        assert(open[i] == params[i - 2]);
    }
    assert(s[at as int] == end);
    lemma_csi_end_at(s, 2, at);
    assert(s.skip(at as int + 1) =~= rest);
    assert forall|i: int| 2 <= i < open.len() implies !(0x40 <= #[trigger] open[i] <= 0x7e) by {
        assert(open[i] == params[i - 2]);
    }
    lemma_csi_end_open(open, 2);
}

/// Control strings, such as titles, leave no text behind: they are taken out up
/// to and with the byte or the sequence that ends them.
pub proof fn law_control_strings_are_taken_out(opener: u8, body: Seq<u8>, rest: Seq<u8>)
    requires
        opener == 0x5d || opener == 0x50 || opener == 0x58 || opener == 0x5e || opener == 0x5f,
        forall|i: int| 0 <= i < body.len() ==> #[trigger] body[i] != 0x07 && body[i] != 0x1b,
    ensures
        strip((seq![0x1bu8, opener] + body).push(0x07) + rest) == strip(rest),
        strip((seq![0x1bu8, opener] + body).push(0x1b).push(0x5c) + rest) == strip(rest),
{
    let open = seq![0x1bu8, opener] + body;
    let at = open.len();
    let bell = open.push(0x07) + rest;
    let tail = open.push(0x1b).push(0x5c) + rest;
    assert forall|i: int| 2 <= i < at implies #[trigger] bell[i] != 0x07 && bell[i] != 0x1b by {
        assert(bell[i] == body[i - 2]);
    }
    assert forall|i: int| 2 <= i < at implies #[trigger] tail[i] != 0x07 && tail[i] != 0x1b by {
        assert(tail[i] == body[i - 2]);
    }
    assert(bell[at as int] == 0x07);
    assert(tail[at as int] == 0x1b && tail[at as int + 1] == 0x5c);
    lemma_string_end_at(bell, 2, at);
    lemma_string_end_at(tail, 2, at);
    assert(bell.skip(at as int + 1) =~= rest);
    assert(tail.skip(at as int + 2) =~= rest);
}

/// All other escape sequences leave no text behind either: ESC, any
/// intermediate bytes and one more byte are taken out.
pub proof fn law_short_escapes_are_taken_out(middle: Seq<u8>, end: u8, rest: Seq<u8>)
    requires
        forall|i: int| 0 <= i < middle.len() ==> 0x20 <= #[trigger] middle[i] <= 0x2f,
        !(0x20 <= end <= 0x2f),
        middle.len() == 0 ==> end != 0x5b && end != 0x5d && end != 0x50 && end != 0x58 && end
            != 0x5e && end != 0x5f,
    ensures
        strip((seq![0x1bu8] + middle).push(end) + rest) == strip(rest),
        strip(seq![0x1bu8]) == (Stripped { text: seq![], pending: seq![0x1bu8] }),
{
    let open = seq![0x1bu8] + middle;
    let s = open.push(end) + rest;
    let at = open.len();
    assert forall|i: int| 1 <= i < at implies 0x20 <= #[trigger] s[i] <= 0x2f by {
        assert(s[i] == middle[i - 1]);
    }
    assert(s[at as int] == end);
    if middle.len() > 0 {
        assert(s[1] == middle[0]);
    }
    lemma_intermediates_end_at(s, 1, at);
    assert(s.skip(at as int + 1) =~= rest);
}

/// Text is kept: what stands before an escape sequence reads as it is, then
/// comes what the sequence and all behind it leave.
pub proof fn law_text_is_kept(text: Seq<u8>, rest: Seq<u8>)
    requires
        text.len() > 0,
        forall|i: int| 0 <= i < text.len() ==> #[trigger] text[i] != 0x1b,
        rest.len() > 0,
        rest[0] == 0x1b,
    ensures
        strip(text + rest).text == lossy_text(text) + strip(rest).text,
        strip(text + rest).pending == strip(rest).pending,
{
    let s = text + rest;
    let n = text.len() as int;
    crate::bytes::lemma_index_of_byte(s, 0x1b);
    assert(s[n] == 0x1b);
    assert forall|i: int| 0 <= i < n implies #[trigger] s[i] != 0x1b by {
        assert(s[i] == text[i]);
    }
    assert(next_escape(s) == n);
    assert(s.take(n) =~= text);
    assert(s.skip(n) =~= rest);
    assert(s[0] == text[0]);
}

/// A character that is cut off is held back until the rest of it comes: at the
/// end of a text, a first byte that wants more is held back with what there is
/// of it. Text that ends with a whole character is held back nothing of.
pub proof fn law_cut_characters_are_held_back(text: Seq<u8>, lead: u8, more: Seq<u8>)
    requires
        forall|i: int| 0 <= i < text.len() ==> #[trigger] text[i] < 0x80 && text[i] != 0x1b,
        forall|i: int| 0 <= i < more.len() ==> 0x80 <= #[trigger] more[i] <= 0xbf,
        (0xc2 <= lead <= 0xdf && more.len() < 1) || (0xe0 <= lead <= 0xef && more.len() < 2) || (
        0xf0 <= lead <= 0xf4 && more.len() < 3),
    ensures
        text.len() > 0 ==> strip(text) == (Stripped { text: lossy_text(text), pending: seq![] }),
        strip(text.push(lead) + more) == (Stripped {
            text: lossy_text(text),
            pending: seq![lead] + more,
        }),
{
    let s = text.push(lead) + more;
    let n = text.len() as int;
    let k = more.len() + 1;
    crate::bytes::lemma_index_of_byte(s, 0x1b);
    crate::bytes::lemma_index_of_byte(text, 0x1b);
    assert forall|i: int| 0 <= i < s.len() implies #[trigger] s[i] != 0x1b by {
        if i < n {
            assert(s[i] == text[i]);
        } else if i > n {
            assert(s[i] == more[i - n - 1]);
        }
    }
    assert(next_escape(s) == s.len());
    assert(next_escape(text) == n);
    assert(s[n] == lead);
    assert forall|i: int| n < i < s.len() implies continues(#[trigger] s[i]) by {
        assert(s[i] == more[i - n - 1]);
    }
    assert(unfinished_at(s, k as int));
    assert forall|j: int| 0 < j < k implies !#[trigger] unfinished_at(s, j) by {
        assert(continues(s[s.len() - j]));
    }
    assert(unfinished_tail(s) == k);
    assert(s.take(n) =~= text);
    assert(s.skip(n) =~= seq![lead] + more);
    assert(s[0] != 0x1b);
    if n > 0 {
        assert(!unfinished_at(text, 1)) by {
            assert(text[n - 1] < 0x80);
        }
        assert(!unfinished_at(text, 2)) by {
            if n >= 2 {
                assert(text[n - 2] < 0x80);
            }
        }
        assert(!unfinished_at(text, 3)) by {
            if n >= 3 {
                assert(text[n - 3] < 0x80);
            }
        }
        assert(text.take(n) =~= text);
        assert(text.skip(n) =~= seq![]);
        assert(text[0] != 0x1b);
    }
}

/// What is recorded of a frame is what the mode asks for: nothing, its bytes,
/// its text, or both. Only where text is recorded is anything held back.
pub proof fn law_modes_decide_what_is_recorded(t: TranscriptView, bytes: Seq<u8>)
    ensures
        ({
            let later = t.added(bytes);
            let raw = t.config.mode == TranscriptMode::RawBytes || t.config.mode
                == TranscriptMode::Both;
            let plain = t.config.mode == TranscriptMode::PlainText || t.config.mode
                == TranscriptMode::Both;
            let read = strip(t.pending + bytes);
            &&& t.config.mode == TranscriptMode::Disabled ==> later == t
            &&& t.config.mode != TranscriptMode::Disabled ==> {
                &&& later.chunks.len() == t.chunks.len() + 1
                &&& later.chunks.drop_last() == t.chunks
                &&& later.chunks.last().raw == if raw {
                    bytes
                } else {
                    Seq::<u8>::empty()
                }
                &&& later.chunks.last().plain == if plain {
                    read.text
                } else {
                    Seq::<char>::empty()
                }
                &&& later.pending == if plain {
                    read.pending
                } else {
                    t.pending
                }
            }
            &&& t.next_offset() == if raw {
                t.next_raw()
            } else {
                t.next_plain()
            }
        }),
{
    if t.config.mode != TranscriptMode::Disabled {
        assert(t.added(bytes).chunks.drop_last() =~= t.chunks);
    }
}

/// Lines are counted by their ends, in bytes as in text, and a chunk that is
/// recorded twice counts its lines once but its bytes twice.
pub proof fn law_chunks_are_measured(
    bytes: Seq<u8>,
    byte: u8,
    text: Seq<char>,
    c: char,
    chunks: Seq<ChunkView>,
    chunk: ChunkView,
)
    ensures
        byte_lines(seq![]) == 0,
        byte_lines(bytes.push(byte)) == byte_lines(bytes) + if byte == 0x0a {
            1nat
        } else {
            0nat
        },
        char_lines(seq![]) == 0,
        char_lines(text.push(c)) == char_lines(text) + if c == '\n' {
            1nat
        } else {
            0nat
        },
        chunk.lines() >= byte_lines(chunk.raw),
        chunk.lines() >= char_lines(chunk.plain),
        chunk.lines() == byte_lines(chunk.raw) || chunk.lines() == char_lines(chunk.plain),
        chunk.bytes() == chunk.raw.len() + encode_utf8(chunk.plain).len(),
        total_lines(seq![]) == 0,
        total_lines(chunks.push(chunk)) == total_lines(chunks) + chunk.lines(),
        total_bytes(seq![]) == 0,
        total_bytes(chunks.push(chunk)) == total_bytes(chunks) + chunk.bytes(),
        all_raw(chunks.push(chunk)) == all_raw(chunks) + chunk.raw,
        all_plain(chunks.push(chunk)) == all_plain(chunks) + chunk.plain,
        raw_bytes_in(chunks.push(chunk)) == raw_bytes_in(chunks) + chunk.raw.len(),
        plain_bytes_in(chunks.push(chunk)) == plain_bytes_in(chunks) + encode_utf8(
            chunk.plain,
        ).len(),
{
    assert(bytes.push(byte).drop_last() =~= bytes);
    assert(text.push(c).drop_last() =~= text);
    assert(chunks.push(chunk).drop_last() =~= chunks);
}

/// A rotation tells what it dropped: how many chunks, and how many bytes of each
/// kind, by which the offsets move on. A transcript within its limits is left
/// alone.
pub proof fn law_rotations_are_told(t: TranscriptView)
    requires
        t.raw_start + raw_bytes_in(t.chunks) <= u64::MAX,
        t.plain_start + plain_bytes_in(t.chunks) <= u64::MAX,
        raw_bytes_in(t.chunks) + plain_bytes_in(t.chunks) <= u64::MAX,
        t.chunks.len() <= u64::MAX,
    ensures
        ({
            let (later, told) = t.rotated();
            let over = (t.config.max_lines > 0 && total_lines(t.chunks) > t.config.max_lines) || (
            t.config.max_bytes > 0 && total_bytes(t.chunks) > t.config.max_bytes);
            &&& later.config == t.config && later.pending == t.pending
            &&& told is Some <==> over && t.chunks.len() > 0
            &&& told is None ==> later == t
            &&& told matches Some(rotation) ==> {
                &&& rotation.chunks_dropped == t.chunks.len() - later.chunks.len()
                &&& rotation.chunks_dropped > 0
                &&& rotation.raw_bytes_dropped == later.raw_start - t.raw_start
                &&& rotation.plain_bytes_dropped == later.plain_start - t.plain_start
                &&& rotation.bytes_dropped == rotation.raw_bytes_dropped
                    + rotation.plain_bytes_dropped
                &&& rotation.raw_bytes_dropped == raw_bytes_in(t.chunks) - raw_bytes_in(
                    later.chunks,
                )
                &&& rotation.plain_bytes_dropped == plain_bytes_in(t.chunks) - plain_bytes_in(
                    later.chunks,
                )
            }
        }),
{
    lemma_surplus(t, t.chunks);
    let k = t.surplus(t.chunks) as int;
    lemma_chunks_split(t.chunks, k);
}

/// What is held back is recorded as it stands when nothing more will come.
pub proof fn law_held_back_text_is_recorded(t: TranscriptView)
    ensures
        ({
            let later = t.settled();
            &&& later.pending.len() == 0
            &&& all_raw(later.chunks) == all_raw(t.chunks)
            &&& all_plain(later.chunks) == if t.pending.len() == 0 {
                all_plain(t.chunks)
            } else {
                all_plain(t.chunks) + lossy_text(t.pending)
            }
            &&& t.pending.len() == 0 ==> later == t
        }),
{
    if t.pending.len() > 0 {
        assert(t.settled().chunks.drop_last() =~= t.chunks);
        assert(all_raw(t.chunks) + Seq::<u8>::empty() =~= all_raw(t.chunks));
    }
}

#[derive(Debug, Clone, PartialEq, Eq)]
struct Chunk {
    raw: Vec<u8>,
    plain: String,
    lines: usize,
}

impl View for Chunk {
    type V = ChunkView;

    closed spec fn view(&self) -> ChunkView {
        ChunkView { raw: self.raw@, plain: self.plain@ }
    }
}

spec fn chunk_views(chunks: Seq<Chunk>) -> Seq<ChunkView> {
    Seq::new(chunks.len(), |i: int| chunks[i]@)
}

fn count_byte_lines(bytes: &[u8]) -> (n: usize)
    ensures
        n == byte_lines(bytes@),
        n <= bytes@.len(),
{
    let mut n: usize = 0;
    let mut i: usize = 0;
    while i < bytes.len()
        invariant
            n <= i <= bytes@.len(),
            n == byte_lines(bytes@.take(i as int)),
        decreases bytes@.len() - i,
    {
        assert(bytes@.take(i + 1).drop_last() =~= bytes@.take(i as int));
        if bytes[i] == 0x0a {
            n = n + 1;
        }
        i = i + 1;
    }
    assert(bytes@.take(i as int) =~= bytes@);
    n
}

fn count_char_lines(text: &str) -> (n: usize)
    ensures
        n == char_lines(text@),
        n <= text@.len(),
{
    let len = text.unicode_len();
    let mut n: usize = 0;
    let mut i: usize = 0;
    while i < len
        invariant
            len == text@.len(),
            n <= i <= len,
            n == char_lines(text@.take(i as int)),
        decreases len - i,
    {
        assert(text@.take(i + 1).drop_last() =~= text@.take(i as int));
        if text.get_char(i) == '\n' {
            n = n + 1;
        }
        i = i + 1;
    }
    assert(text@.take(i as int) =~= text@);
    n
}

fn make_chunk(raw: Vec<u8>, plain: String) -> (chunk: Chunk)
    ensures
        chunk@ == (ChunkView { raw: raw@, plain: plain@ }),
        chunk.lines == chunk@.lines(),
{
    let in_raw = count_byte_lines(raw.as_slice());
    let in_plain = count_char_lines(plain.as_str());
    let lines = if in_raw >= in_plain {
        in_raw
    } else {
        in_plain
    };
    Chunk { raw, plain, lines }
}

fn saturate(n: u128) -> (r: u64)
    ensures
        r == sat64(n as nat),
{
    if n > 0xffff_ffff_ffff_ffff {
        0xffff_ffff_ffff_ffff
    } else {
        n as u64
    }
}

/// Retained output of a pane.
#[derive(Debug, Clone, PartialEq, Eq)]
pub struct Transcript {
    config: TranscriptConfig,
    chunks: Vec<Chunk>,
    raw: Vec<u8>,
    plain: String,
    raw_start: u64,
    plain_start: u64,
    pending: Vec<u8>,
}

impl View for Transcript {
    type V = TranscriptView;

    closed spec fn view(&self) -> TranscriptView {
        TranscriptView {
            config: self.config,
            chunks: chunk_views(self.chunks@),
            raw_start: self.raw_start,
            plain_start: self.plain_start,
            pending: self.pending@,
        }
    }
}

impl Transcript {
    /// Whether the buffers hold what the chunks hold.
    pub closed spec fn wf(self) -> bool {
        &&& self.raw@ == all_raw(self@.chunks)
        &&& self.plain@ == all_plain(self@.chunks)
        &&& forall|i: int|
            0 <= i < self.chunks@.len() ==> (#[trigger] self.chunks@[i]).lines
                == self.chunks@[i]@.lines()
    }

    /// Creates an empty transcript.
    pub fn new(config: TranscriptConfig) -> (transcript: Self)
        ensures
            transcript@ == (TranscriptView {
                config,
                chunks: seq![],
                raw_start: 0,
                plain_start: 0,
                pending: seq![],
            }),
            transcript.wf(),
    {
        let transcript = Transcript {
            config,
            chunks: Vec::new(),
            raw: Vec::new(),
            plain: String::new(),
            raw_start: 0,
            plain_start: 0,
            pending: Vec::new(),
        };
        assert(transcript@.chunks =~= seq![]);
        assert(transcript@.pending =~= seq![]);
        assert(transcript.raw@ =~= seq![]);
        assert(transcript.plain@ =~= seq![]);
        transcript
    }

    /// The recording mode.
    pub fn mode(&self) -> (mode: TranscriptMode)
        ensures
            mode == self@.config.mode,
    {
        self.config.mode
    }

    /// Whether raw bytes are recorded.
    pub fn records_raw_bytes(&self) -> (b: bool)
        ensures
            b == self@.keeps_raw(),
    {
        self.config.mode == TranscriptMode::RawBytes || self.config.mode == TranscriptMode::Both
    }

    fn records_plain_text(&self) -> (b: bool)
        ensures
            b == self@.keeps_plain(),
    {
        self.config.mode == TranscriptMode::PlainText || self.config.mode == TranscriptMode::Both
    }

    /// The retained raw bytes.
    pub fn raw_bytes(&self) -> (bytes: &[u8])
        requires
            self.wf(),
        ensures
            bytes@ == all_raw(self@.chunks),
    {
        self.raw.as_slice()
    }

    /// The retained plain text.
    pub fn plain_text(&self) -> (text: &str)
        requires
            self.wf(),
        ensures
            text@ == all_plain(self@.chunks),
    {
        self.plain.as_str()
    }

    /// The absolute offset of the first retained raw byte.
    pub fn retained_raw_start_offset(&self) -> (at: u64)
        ensures
            at == self@.raw_start,
    {
        self.raw_start
    }

    /// The absolute offset of the first retained plain byte.
    pub fn retained_plain_start_offset(&self) -> (at: u64)
        ensures
            at == self@.plain_start,
    {
        self.plain_start
    }

    fn sizes_upto(&self, k: usize) -> (sizes: (u128, u128))
        requires
            k <= self.chunks@.len(),
        ensures
            sizes.0 == raw_bytes_in(self@.chunks.take(k as int)),
            sizes.1 == plain_bytes_in(self@.chunks.take(k as int)),
            sizes.0 <= k * usize::MAX,
            sizes.1 <= k * usize::MAX,
    {
        let mut raw: u128 = 0;
        let mut plain: u128 = 0;
        let mut i: usize = 0;
        let ghost views = self@.chunks;
        assert(views.take(0).len() == 0);
        while i < k
            invariant
                i <= k <= self.chunks@.len(),
                views == self@.chunks,
                raw == raw_bytes_in(views.take(i as int)),
                plain == plain_bytes_in(views.take(i as int)),
                raw <= i * usize::MAX,
                plain <= i * usize::MAX,
            decreases k - i,
        {
            proof {
                assert(views.take(i + 1).drop_last() =~= views.take(i as int));
                assert(views.take(i + 1).last() == self.chunks@[i as int]@);
                assert(i * usize::MAX + usize::MAX == (i + 1) * usize::MAX) by (nonlinear_arith);
                assert((i + 1) * usize::MAX <= usize::MAX * usize::MAX) by (nonlinear_arith)
                    requires
                        i + 1 <= usize::MAX,
                ;
                assert(usize::MAX * usize::MAX <= u128::MAX) by (nonlinear_arith)
                    requires
                        usize::MAX <= 0xffff_ffff_ffff_ffff,
                ;
            }
            raw = raw + self.chunks[i].raw.len() as u128;
            plain = plain + self.chunks[i].plain.as_str().as_bytes().len() as u128;
            i = i + 1;
        }
        (raw, plain)
    }

    /// Absolute offset at which the raw stream goes on.
    pub fn next_raw_offset(&self) -> (at: u64)
        ensures
            at == self@.next_raw(),
    {
        let n = self.chunks.len();
        let sizes = self.sizes_upto(n);
        assert(self@.chunks.take(n as int) =~= self@.chunks);
        saturate((self.raw_start as u128).saturating_add(sizes.0))
    }

    fn next_plain_offset(&self) -> (at: u64)
        ensures
            at == self@.next_plain(),
    {
        let n = self.chunks.len();
        let sizes = self.sizes_upto(n);
        assert(self@.chunks.take(n as int) =~= self@.chunks);
        saturate((self.plain_start as u128).saturating_add(sizes.1))
    }

    fn exceeds_from(&self, k: usize) -> (b: bool)
        requires
            self.wf(),
            k <= self.chunks@.len(),
        ensures
            b == self@.exceeds(self@.chunks.skip(k as int)),
    {
        let max_lines = self.config.max_lines as u128;
        let max_bytes = self.config.max_bytes as u128;
        let ghost rest = self@.chunks.skip(k as int);
        let mut lines: u128 = 0;
        let mut bytes: u128 = 0;
        let mut i: usize = k;
        assert(rest.take(0).len() == 0);
        while i < self.chunks.len() && !(max_lines > 0 && lines > max_lines) && !(max_bytes > 0
            && bytes > max_bytes)
            invariant
                self.wf(),
                k <= i <= self.chunks@.len(),
                rest == self@.chunks.skip(k as int),
                max_lines == self.config.max_lines,
                max_bytes == self.config.max_bytes,
                max_lines > 0 ==> lines == total_lines(rest.take(i - k)),
                max_bytes > 0 ==> bytes == total_bytes(rest.take(i - k)),
                lines <= 2 * 0xffff_ffff_ffff_ffff,
                bytes <= 4 * 0xffff_ffff_ffff_ffff,
            decreases self.chunks@.len() - i,
        {
            proof {
                assert(rest.take(i - k + 1).drop_last() =~= rest.take(i - k));
                assert(rest.take(i - k + 1).last() == self.chunks@[i as int]@);
            }
            if max_lines > 0 {
                lines = lines + self.chunks[i].lines as u128;
            }
            if max_bytes > 0 {
                bytes = bytes + self.chunks[i].raw.len() as u128
                    + self.chunks[i].plain.as_str().as_bytes().len() as u128;
            }
            i = i + 1;
        }
        proof {
            lemma_totals_grow(rest, i - k);
            if i == self.chunks@.len() {
                assert(rest.take(i - k) =~= rest);
            }
        }
        (max_lines > 0 && lines > max_lines) || (max_bytes > 0 && bytes > max_bytes)
    }

    fn surplus(&self) -> (k: usize)
        requires
            self.wf(),
        ensures
            k == self@.surplus(self@.chunks),
            k <= self.chunks@.len(),
    {
        let ghost all = self@.surplus(self@.chunks);
        let mut k: usize = 0;
        assert(self@.chunks.skip(0) =~= self@.chunks);
        while k < self.chunks.len() && self.exceeds_from(k)
            invariant
                self.wf(),
                k <= self.chunks@.len(),
                all == self@.surplus(self@.chunks),
                all == k + self@.surplus(self@.chunks.skip(k as int)),
            decreases self.chunks@.len() - k,
        {
            assert(self@.chunks.skip(k as int).skip(1) =~= self@.chunks.skip(k + 1));
            k = k + 1;
        }
        k
    }

    fn rebuild(&mut self)
        ensures
            final(self)@ == old(self)@,
            final(self).chunks == old(self).chunks,
            final(self).raw@ == all_raw(final(self)@.chunks),
            final(self).plain@ == all_plain(final(self)@.chunks),
    {
        let mut raw: Vec<u8> = Vec::new();
        let mut plain = String::new();
        let mut i: usize = 0;
        let ghost views = self@.chunks;
        assert(views.take(0).len() == 0);
        assert(raw@ =~= seq![]);
        assert(plain@ =~= seq![]);
        while i < self.chunks.len()
            invariant
                i <= self.chunks@.len(),
                views == self@.chunks,
                raw@ == all_raw(views.take(i as int)),
                plain@ == all_plain(views.take(i as int)),
            decreases self.chunks@.len() - i,
        {
            proof {
                assert(views.take(i + 1).drop_last() =~= views.take(i as int));
                assert(views.take(i + 1).last() == self.chunks@[i as int]@);
            }
            push_all(&mut raw, self.chunks[i].raw.as_slice());
            plain.append(self.chunks[i].plain.as_str());
            i = i + 1;
        }
        assert(views.take(i as int) =~= views);
        self.raw = raw;
        self.plain = plain;
    }

    fn add_chunk(&mut self, raw: Vec<u8>, plain: String)
        requires
            old(self).wf(),
        ensures
            final(self).wf(),
            final(self)@ == (TranscriptView {
                chunks: old(self)@.chunks.push(ChunkView { raw: raw@, plain: plain@ }),
                ..old(self)@
            }),
    {
        push_all(&mut self.raw, raw.as_slice());
        self.plain.append(plain.as_str());
        let chunk = make_chunk(raw, plain);
        self.chunks.push(chunk);
        proof {
            let longer = self@.chunks;
            assert(longer =~= old(self)@.chunks.push(chunk@));
            assert(longer.drop_last() =~= old(self)@.chunks);
        }
    }

    fn rotate(&mut self) -> (rotated: Option<TranscriptRotation>)
        requires
            old(self).wf(),
        ensures
            final(self).wf(),
            (final(self)@, rotated) == old(self)@.rotated(),
    {
        let k = self.surplus();
        if k == 0 {
            return None;
        }
        let sizes = self.sizes_upto(k);
        proof {
            assert(k * usize::MAX <= usize::MAX * usize::MAX) by (nonlinear_arith)
                requires
                    k <= usize::MAX,
            ;
        }
        let rotation = TranscriptRotation {
            chunks_dropped: saturate(k as u128),
            bytes_dropped: saturate(sizes.0.saturating_add(sizes.1)),
            raw_bytes_dropped: saturate(sizes.0),
            plain_bytes_dropped: saturate(sizes.1),
        };
        let kept = self.chunks.split_off(k);
        self.chunks = kept;
        self.raw_start = saturate((self.raw_start as u128).saturating_add(sizes.0));
        self.plain_start = saturate((self.plain_start as u128).saturating_add(sizes.1));
        assert(self@.chunks =~= old(self)@.chunks.skip(k as int));
        self.rebuild();
        assert(self@ == old(self)@.without(k as int));
        Some(rotation)
    }

    /// Records a frame of output. With a disabled transcript nothing is kept.
    pub fn record(&mut self, bytes: &[u8]) -> (record: TranscriptRecord)
        requires
            old(self).wf(),
        ensures
            final(self).wf(),
            record.offset == old(self)@.next_offset(),
            (final(self)@, record.rotated) == old(self)@.added(bytes@).rotated(),
    {
        let offset = if self.records_raw_bytes() {
            self.next_raw_offset()
        } else {
            self.next_plain_offset()
        };
        if self.config.mode == TranscriptMode::Disabled {
            let rotated = self.rotate();
            return TranscriptRecord { offset, rotated };
        }
        let raw = if self.records_raw_bytes() {
            slice_to_vec(bytes)
        } else {
            let none: Vec<u8> = Vec::new();
            assert(none@ =~= seq![]);
            none
        };
        let plain = if self.records_plain_text() {
            let mut input: Vec<u8> = Vec::new();
            push_all(&mut input, self.pending.as_slice());
            push_all(&mut input, bytes);
            assert(input@ =~= self.pending@ + bytes@);
            let (text, pending) = strip_output(input.as_slice());
            self.pending = pending;
            text
        } else {
            let none = String::new();
            assert(none@ =~= seq![]);
            none
        };
        self.add_chunk(raw, plain);
        let rotated = self.rotate();
        TranscriptRecord { offset, rotated }
    }

    /// Records what was held back of an unfinished sequence or character.
    pub fn flush_pending(&mut self) -> (rotated: Option<TranscriptRotation>)
        requires
            old(self).wf(),
        ensures
            final(self).wf(),
            old(self)@.pending.len() == 0 ==> rotated is None && final(self)@ == old(self)@,
            old(self)@.pending.len() > 0 ==> (final(self)@, rotated) == old(
                self,
            )@.settled().rotated(),
    {
        if self.pending.len() == 0 {
            return None;
        }
        let text = decode_lossy(self.pending.as_slice());
        self.pending = Vec::new();
        assert(self.pending@ =~= seq![]);
        let none: Vec<u8> = Vec::new();
        assert(none@ =~= seq![]);
        self.add_chunk(none, text);
        self.rotate()
    }
}

} // verus!
