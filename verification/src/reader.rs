//! Range-aware access to retained scrollback and transcripts.

use vstd::prelude::*;
use vstd::slice::slice_subrange;
use vstd::utf8::{
    encode_utf8, encode_utf8_valid_utf8, is_char_boundary,
    is_char_boundary_iff_not_is_continuation_byte, is_char_boundary_start_end_of_seq, valid_utf8,
    valid_utf8_split,
};

use crate::surface::{LineView, OwnedScrollbackSnapshot, ScrollbackLine, ScrollbackSnapshot};
use crate::viewport::{min_usize, sat_add};

verus! {

/// One end of a range.
#[derive(Debug, Clone, Copy, PartialEq, Eq, Structural)]
pub enum RangeEdge {
    /// The range reaches this index.
    Included(usize),
    /// The range stops short of this index.
    Excluded(usize),
    /// The range has no end on this side.
    Unbounded,
}

/// The first index of a range over `len` items, before it is cut to its end.
pub open spec fn range_start(edge: RangeEdge, len: usize) -> usize {
    min_usize(
        match edge {
            RangeEdge::Included(i) => i,
            RangeEdge::Excluded(i) => sat_add(i, 1),
            RangeEdge::Unbounded => 0,
        },
        len,
    )
}

/// The index behind a range over `len` items.
pub open spec fn range_end(edge: RangeEdge, len: usize) -> usize {
    min_usize(
        match edge {
            RangeEdge::Included(i) => sat_add(i, 1),
            RangeEdge::Excluded(i) => i,
            RangeEdge::Unbounded => len,
        },
        len,
    )
}

/// A range cut to `len` items, as first index and index behind the last.
pub open spec fn clamped_range(start: RangeEdge, end: RangeEdge, len: usize) -> (usize, usize) {
    (min_usize(range_start(start, len), range_end(end, len)), range_end(end, len))
}

fn least(a: usize, b: usize) -> (m: usize)
    ensures
        m == min_usize(a, b),
{
    if a <= b {
        a
    } else {
        b
    }
}

/// Clamps a range to `0..len`, converting inclusive bounds to exclusive-end
/// indexing.
pub fn slice_range(start: RangeEdge, end: RangeEdge, len: usize) -> (r: (usize, usize))
    ensures
        r == clamped_range(start, end, len),
        r.0 <= r.1 <= len,
{
    let first = match start {
        RangeEdge::Included(i) => i,
        RangeEdge::Excluded(i) => i.saturating_add(1),
        RangeEdge::Unbounded => 0,
    };
    let behind = match end {
        RangeEdge::Included(i) => i.saturating_add(1),
        RangeEdge::Excluded(i) => i,
        RangeEdge::Unbounded => len,
    };
    let first = least(first, len);
    let behind = least(behind, len);
    (least(first, behind), behind)
}

/// The first character boundary at or after `at`.
pub open spec fn boundary_after(bytes: Seq<u8>, at: int) -> int
    decreases bytes.len() - at,
{
    if at >= bytes.len() || is_char_boundary(bytes, at) {
        at
    } else {
        boundary_after(bytes, at + 1)
    }
}

/// The last character boundary at or before `at`.
pub open spec fn boundary_before(bytes: Seq<u8>, at: int) -> int
    decreases at,
{
    if at <= 0 || is_char_boundary(bytes, at) {
        at
    } else {
        boundary_before(bytes, at - 1)
    }
}

/// A byte range cut to whole characters.
pub open spec fn whole_char_range(bytes: Seq<u8>, start: RangeEdge, end: RangeEdge) -> (int, int) {
    let range = clamped_range(start, end, bytes.len() as usize);
    let from = boundary_after(bytes, range.0 as int);
    let to = boundary_before(bytes, range.1 as int);
    (
        if from <= to {
            from
        } else {
            to
        },
        to,
    )
}

/// Rounds a byte index up to the next valid UTF-8 character boundary.
fn ceil_char_boundary(text: &str, idx: usize) -> (at: usize)
    requires
        idx <= encode_utf8(text@).len(),
        encode_utf8(text@).len() <= usize::MAX,
    ensures
        at == boundary_after(encode_utf8(text@), idx as int),
        idx <= at <= encode_utf8(text@).len(),
        is_char_boundary(encode_utf8(text@), at as int),
{
    let len = text.as_bytes().len();
    let mut at = idx;
    proof {
        encode_utf8_valid_utf8(text@);
        is_char_boundary_start_end_of_seq(encode_utf8(text@));
    }
    while at < len && !text.is_char_boundary(at)
        invariant
            idx <= at <= len,
            len == encode_utf8(text@).len(),
            boundary_after(encode_utf8(text@), idx as int) == boundary_after(
                encode_utf8(text@),
                at as int,
            ),
        decreases len - at,
    {
        at = at + 1;
    }
    at
}

/// Rounds a byte index down to the previous valid UTF-8 character boundary.
fn floor_char_boundary(text: &str, idx: usize) -> (at: usize)
    requires
        idx <= encode_utf8(text@).len(),
    ensures
        at == boundary_before(encode_utf8(text@), idx as int),
        at <= idx,
        is_char_boundary(encode_utf8(text@), at as int),
{
    let mut at = idx;
    proof {
        encode_utf8_valid_utf8(text@);
        is_char_boundary_start_end_of_seq(encode_utf8(text@));
    }
    while at > 0 && !text.is_char_boundary(at)
        invariant
            at <= idx,
            boundary_before(encode_utf8(text@), idx as int) == boundary_before(
                encode_utf8(text@),
                at as int,
            ),
        decreases at,
    {
        at = at - 1;
    }
    at
}

/// Clamps a byte range to valid UTF-8 boundaries without returning partial
/// code points. Misaligned starts round up; misaligned ends round down.
pub fn utf8_byte_slice_range(text: &str, start: RangeEdge, end: RangeEdge) -> (r: (usize, usize))
    ensures
        r.0 == whole_char_range(encode_utf8(text@), start, end).0,
        r.1 == whole_char_range(encode_utf8(text@), start, end).1,
        r.0 <= r.1 <= encode_utf8(text@).len(),
        is_char_boundary(encode_utf8(text@), r.0 as int),
        is_char_boundary(encode_utf8(text@), r.1 as int),
{
    let (first, behind) = slice_range(start, end, text.as_bytes().len());
    let from = ceil_char_boundary(text, first);
    let to = floor_char_boundary(text, behind);
    (least(from, to), to)
}

/// The bytes from `from` to `to` of a text, both character boundaries.
fn text_between(text: &str, from: usize, to: usize) -> (piece: &str)
    requires
        from <= to <= encode_utf8(text@).len(),
        is_char_boundary(encode_utf8(text@), from as int),
        is_char_boundary(encode_utf8(text@), to as int),
    ensures
        encode_utf8(piece@) == encode_utf8(text@).subrange(from as int, to as int),
{
    let ghost bytes = encode_utf8(text@);
    proof {
        encode_utf8_valid_utf8(text@);
        valid_utf8_split(bytes, to as int);
        let head = bytes.subrange(0, to as int);
        is_char_boundary_start_end_of_seq(head);
        if from < to {
            is_char_boundary_iff_not_is_continuation_byte(bytes, from as int);
            is_char_boundary_iff_not_is_continuation_byte(head, from as int);
            assert(head[from as int] == bytes[from as int]);
        }
    }
    let (head, _) = text.split_at(to);
    let (_, piece) = head.split_at(from);
    assert(encode_utf8(piece@) =~= bytes.subrange(from as int, to as int));
    piece
}

/// A range is what its edges say, as far as there are items: an index lies in it
/// exactly if there is such an item and both edges let it in.
pub proof fn law_ranges(start: RangeEdge, end: RangeEdge, len: usize, i: usize)
    ensures
        ({
            let r = clamped_range(start, end, len);
            &&& r.0 <= r.1 <= len
            &&& r.0 <= i < r.1 <==> i < len && (match start {
                RangeEdge::Included(a) => a <= i,
                RangeEdge::Excluded(a) => a < i,
                RangeEdge::Unbounded => true,
            }) && (match end {
                RangeEdge::Included(b) => i <= b,
                RangeEdge::Excluded(b) => i < b,
                RangeEdge::Unbounded => true,
            })
        }),
{
}

/// No whole character is left out of a range: between an edge of the byte range
/// and the edge that it is cut to lies no character boundary.
pub proof fn law_ranges_keep_whole_characters(bytes: Seq<u8>, start: RangeEdge, end: RangeEdge)
    requires
        valid_utf8(bytes),
        bytes.len() <= usize::MAX,
    ensures
        ({
            let range = clamped_range(start, end, bytes.len() as usize);
            let r = whole_char_range(bytes, start, end);
            &&& forall|i: int| range.0 <= i < r.0 ==> !#[trigger] is_char_boundary(bytes, i)
            &&& forall|i: int| r.1 < i <= range.1 ==> !#[trigger] is_char_boundary(bytes, i)
        }),
{
    let range = clamped_range(start, end, bytes.len() as usize);
    lemma_boundary_after_is_first(bytes, range.0 as int);
    lemma_boundary_before_is_last(bytes, range.1 as int);
}

proof fn lemma_boundary_after_is_first(bytes: Seq<u8>, at: int)
    requires
        0 <= at,
    ensures
        forall|i: int|
            at <= i < boundary_after(bytes, at) ==> !#[trigger] is_char_boundary(bytes, i),
    decreases bytes.len() - at,
{
    if at < bytes.len() && !is_char_boundary(bytes, at) {
        lemma_boundary_after_is_first(bytes, at + 1);
    }
}

proof fn lemma_boundary_before_is_last(bytes: Seq<u8>, at: int)
    ensures
        forall|i: int|
            boundary_before(bytes, at) < i <= at ==> !#[trigger] is_char_boundary(bytes, i),
    decreases at,
{
    if at > 0 && !is_char_boundary(bytes, at) {
        lemma_boundary_before_is_last(bytes, at - 1);
    }
}

/// A range of whole characters lies within the text and is cut at character
/// boundaries.
pub proof fn law_whole_char_range(bytes: Seq<u8>, start: RangeEdge, end: RangeEdge)
    requires
        valid_utf8(bytes),
        bytes.len() <= usize::MAX,
    ensures
        ({
            let r = whole_char_range(bytes, start, end);
            &&& 0 <= r.0 <= r.1 <= bytes.len()
            &&& is_char_boundary(bytes, r.0)
            &&& is_char_boundary(bytes, r.1)
            &&& r.1 <= clamped_range(start, end, bytes.len() as usize).1
        }),
{
    let range = clamped_range(start, end, bytes.len() as usize);
    is_char_boundary_start_end_of_seq(bytes);
    lemma_boundary_after(bytes, range.0 as int);
    lemma_boundary_before(bytes, range.1 as int);
}

proof fn lemma_boundary_after(bytes: Seq<u8>, at: int)
    requires
        valid_utf8(bytes),
        0 <= at <= bytes.len(),
    ensures
        at <= boundary_after(bytes, at) <= bytes.len(),
        is_char_boundary(bytes, boundary_after(bytes, at)),
    decreases bytes.len() - at,
{
    is_char_boundary_start_end_of_seq(bytes);
    if at < bytes.len() && !is_char_boundary(bytes, at) {
        lemma_boundary_after(bytes, at + 1);
    }
}

proof fn lemma_boundary_before(bytes: Seq<u8>, at: int)
    requires
        valid_utf8(bytes),
        0 <= at <= bytes.len(),
    ensures
        0 <= boundary_before(bytes, at) <= at,
        is_char_boundary(bytes, boundary_before(bytes, at)),
    decreases at,
{
    is_char_boundary_start_end_of_seq(bytes);
    if at > 0 && !is_char_boundary(bytes, at) {
        lemma_boundary_before(bytes, at - 1);
    }
}

/// Range-aware access to a pane's retained scrollback.
#[derive(Debug)]
pub struct ScrollbackReader<'a> {
    snapshot: ScrollbackSnapshot<'a>,
}

impl<'a> View for ScrollbackReader<'a> {
    type V = Seq<LineView>;

    closed spec fn view(&self) -> Seq<LineView> {
        self.snapshot@
    }
}

impl<'a> ScrollbackReader<'a> {
    /// A reader over a snapshot.
    pub(crate) fn new(snapshot: ScrollbackSnapshot<'a>) -> (reader: Self)
        ensures
            reader@ == snapshot@,
    {
        ScrollbackReader { snapshot }
    }

    /// Returns retained scrollback lines for the requested line range.
    pub fn lines(&self, start: RangeEdge, end: RangeEdge) -> (lines: &[ScrollbackLine<'a>])
        ensures
            ({
                let range = clamped_range(start, end, self@.len() as usize);
                lines@.map_values(|l: ScrollbackLine| l@) == self@.subrange(
                    range.0 as int,
                    range.1 as int,
                )
            }),
    {
        let (from, to) = slice_range(start, end, self.snapshot.lines.len());
        let lines = slice_subrange(self.snapshot.lines.as_slice(), from, to);
        assert(lines@.map_values(|l: ScrollbackLine| l@) =~= self@.subrange(
            from as int,
            to as int,
        ));
        lines
    }

    /// Returns the full retained scrollback snapshot.
    pub fn snapshot(&self) -> (snapshot: &ScrollbackSnapshot<'a>)
        ensures
            snapshot@ == self@,
    {
        &self.snapshot
    }

    /// Clones the retained scrollback into an owned snapshot.
    pub fn to_owned_snapshot(&self) -> (snapshot: OwnedScrollbackSnapshot)
        ensures
            snapshot@ == self@,
    {
        self.snapshot.to_owned_snapshot()
    }
}

/// Range-aware access to a pane's retained transcript buffers.
#[derive(Debug, Clone)]
pub struct TranscriptReader<'a> {
    raw_start_offset: u64,
    plain_start_offset: u64,
    raw: &'a [u8],
    plain: &'a str,
}

impl<'a> TranscriptReader<'a> {
    /// Offset of the first retained raw byte.
    pub closed spec fn raw_start(self) -> u64 {
        self.raw_start_offset
    }

    /// Offset of the first retained plain byte.
    pub closed spec fn plain_start(self) -> u64 {
        self.plain_start_offset
    }

    /// The retained raw bytes.
    pub closed spec fn raw(self) -> Seq<u8> {
        self.raw@
    }

    /// The retained plain text.
    pub closed spec fn plain(self) -> Seq<char> {
        self.plain@
    }

    /// A reader over retained buffers.
    pub(crate) fn new(
        raw_start_offset: u64,
        plain_start_offset: u64,
        raw: &'a [u8],
        plain: &'a str,
    ) -> (reader: Self)
        ensures
            reader.raw_start() == raw_start_offset,
            reader.plain_start() == plain_start_offset,
            reader.raw() == raw@,
            reader.plain() == plain@,
    {
        TranscriptReader { raw_start_offset, plain_start_offset, raw, plain }
    }

    /// Returns the absolute raw-stream offset of the first retained byte.
    pub fn retained_raw_start_offset(&self) -> (at: u64)
        ensures
            at == self.raw_start(),
    {
        self.raw_start_offset
    }

    /// Returns the absolute plain-text-stream offset of the first retained
    /// plain-text byte.
    pub fn retained_plain_start_offset(&self) -> (at: u64)
        ensures
            at == self.plain_start(),
    {
        self.plain_start_offset
    }

    /// Returns retained raw transcript bytes for the requested byte range.
    ///
    /// The range is relative to the currently retained raw transcript slice.
    /// To translate an absolute `OutputEvent::transcript_offset` in raw-byte
    /// or both mode, subtract [`TranscriptReader::retained_raw_start_offset`]
    /// first.
    pub fn ansi_bytes(&self, start: RangeEdge, end: RangeEdge) -> (bytes: &[u8])
        ensures
            ({
                let range = clamped_range(start, end, self.raw().len() as usize);
                bytes@ == self.raw().subrange(range.0 as int, range.1 as int)
            }),
    {
        let (from, to) = slice_range(start, end, self.raw.len());
        slice_subrange(self.raw, from, to)
    }

    /// Returns retained plain-text transcript content for the requested
    /// byte range.
    ///
    /// The range is relative to the currently retained plain-text transcript
    /// slice, not a character index. To translate an absolute
    /// `OutputEvent::transcript_offset` in plain-text mode, subtract
    /// [`TranscriptReader::retained_plain_start_offset`] first.
    pub fn plain_text(&self, start: RangeEdge, end: RangeEdge) -> (text: &str)
        ensures
            ({
                let bytes = encode_utf8(self.plain());
                let range = whole_char_range(bytes, start, end);
                encode_utf8(text@) == bytes.subrange(range.0, range.1)
            }),
    {
        let (from, to) = utf8_byte_slice_range(self.plain, start, end);
        text_between(self.plain, from, to)
    }
}

} // verus!
