//! Supplementary terminal mode tracking for parser gaps.
//!
//! A child turns private modes on and off with `ESC [ ? n ; n h` and
//! `ESC [ ? n ; n l`, and everything off with `ESC c`. The overlay scans raw
//! output for these sequences, also where a feed boundary splits one.

use vstd::prelude::*;
use vstd::slice::slice_subrange;

use crate::bytes::{
    find_byte, index_of_byte, law_decimal_is_read_back, lemma_index_of_byte, parse_decimal, push_all,
    read_decimal,
};
use crate::pane::{MouseMode, TerminalModes};
use crate::text::decimal_bytes;

verus! {

/// How many bytes of output are kept for sequences split across feeds.
pub const MODE_TAIL_LIMIT: usize = 64;

/// The private modes that are followed, each on or off.
#[derive(Debug, Clone, Copy, PartialEq, Eq, Structural)]
pub struct ModeFlags {
    /// Bracketed paste (2004).
    pub bracketed_paste: bool,
    /// Focus events (1004).
    pub focus_events: bool,
    /// Application cursor keys (1).
    pub application_cursor: bool,
    /// Alternate screen (47, 1047, 1049).
    pub alternate_screen: bool,
    /// X10 mouse (9).
    pub x10: bool,
    /// Normal mouse tracking (1000).
    pub normal: bool,
    /// Button-event mouse tracking (1002).
    pub button_event: bool,
    /// Any-event mouse tracking (1003).
    pub any_event: bool,
    /// SGR mouse coordinates (1006).
    pub sgr: bool,
}

/// Every mode off.
pub open spec fn no_flags() -> ModeFlags {
    ModeFlags {
        bracketed_paste: false,
        focus_events: false,
        application_cursor: false,
        alternate_screen: false,
        x10: false,
        normal: false,
        button_event: false,
        any_event: false,
        sgr: false,
    }
}

impl ModeFlags {
    /// The mouse mode of highest priority that is on.
    pub open spec fn mouse(self) -> MouseMode {
        if self.sgr {
            MouseMode::Sgr
        } else if self.any_event {
            MouseMode::AnyEvent
        } else if self.button_event {
            MouseMode::ButtonEvent
        } else if self.normal {
            MouseMode::Normal
        } else if self.x10 {
            MouseMode::X10
        } else {
            MouseMode::Off
        }
    }

    /// The modes that the flags amount to.
    pub open spec fn modes(self) -> TerminalModes {
        TerminalModes {
            bracketed_paste: self.bracketed_paste,
            focus_events: self.focus_events,
            application_cursor: self.application_cursor,
            alternate_screen: self.alternate_screen,
            mouse: self.mouse(),
        }
    }

    /// The flags after private mode `code` is set to `on`.
    pub open spec fn with(self, code: nat, on: bool) -> ModeFlags {
        if code == 9 {
            ModeFlags { x10: on, ..self }
        } else if code == 1000 {
            ModeFlags { normal: on, ..self }
        } else if code == 1002 {
            ModeFlags { button_event: on, ..self }
        } else if code == 1003 {
            ModeFlags { any_event: on, ..self }
        } else if code == 1006 {
            ModeFlags { sgr: on, ..self }
        } else if code == 1 {
            ModeFlags { application_cursor: on, ..self }
        } else if code == 1004 {
            ModeFlags { focus_events: on, ..self }
        } else if code == 47 || code == 1047 || code == 1049 {
            ModeFlags { alternate_screen: on, ..self }
        } else if code == 2004 {
            ModeFlags { bracketed_paste: on, ..self }
        } else {
            self
        }
    }

    fn none() -> (flags: Self)
        ensures
            flags == no_flags(),
    {
        ModeFlags {
            bracketed_paste: false,
            focus_events: false,
            application_cursor: false,
            alternate_screen: false,
            x10: false,
            normal: false,
            button_event: false,
            any_event: false,
            sgr: false,
        }
    }

    /// The mouse mode of highest priority that is on.
    fn active_mode(self) -> (mode: MouseMode)
        ensures
            mode == self.mouse(),
    {
        if self.sgr {
            MouseMode::Sgr
        } else if self.any_event {
            MouseMode::AnyEvent
        } else if self.button_event {
            MouseMode::ButtonEvent
        } else if self.normal {
            MouseMode::Normal
        } else if self.x10 {
            MouseMode::X10
        } else {
            MouseMode::Off
        }
    }

    fn to_modes(self) -> (modes: TerminalModes)
        ensures
            modes == self.modes(),
    {
        TerminalModes {
            bracketed_paste: self.bracketed_paste,
            focus_events: self.focus_events,
            application_cursor: self.application_cursor,
            alternate_screen: self.alternate_screen,
            mouse: self.active_mode(),
        }
    }

    fn apply_private_mode(&mut self, code: u32, enabled: bool)
        ensures
            *final(self) == old(self).with(code as nat, enabled),
    {
        if code == 9 {
            self.x10 = enabled;
        } else if code == 1000 {
            self.normal = enabled;
        } else if code == 1002 {
            self.button_event = enabled;
        } else if code == 1003 {
            self.any_event = enabled;
        } else if code == 1006 {
            self.sgr = enabled;
        } else if code == 1 {
            self.application_cursor = enabled;
        } else if code == 1004 {
            self.focus_events = enabled;
        } else if code == 47 || code == 1047 || code == 1049 {
            self.alternate_screen = enabled;
        } else if code == 2004 {
            self.bracketed_paste = enabled;
        }
    }
}

/// Whether a byte may stand in the parameters of a private mode sequence.
pub open spec fn is_param_byte(b: u8) -> bool {
    0x30 <= b <= 0x39 || b == 0x3b
}

/// How many parameter bytes `s` starts with.
pub open spec fn param_len(s: Seq<u8>) -> nat
    decreases s.len(),
{
    if s.len() == 0 || !is_param_byte(s[0]) {
        0
    } else {
        1 + param_len(s.skip(1))
    }
}

proof fn lemma_param_len(s: Seq<u8>)
    ensures
        param_len(s) <= s.len(),
        forall|i: int| 0 <= i < param_len(s) ==> is_param_byte(#[trigger] s[i]),
        param_len(s) < s.len() ==> !is_param_byte(s[param_len(s) as int]),
    decreases s.len(),
{
    if s.len() != 0 && is_param_byte(s[0]) {
        let rest = s.skip(1);
        lemma_param_len(rest);
        assert forall|i: int| 0 <= i < param_len(s) implies is_param_byte(#[trigger] s[i]) by {
            if i > 0 {
                assert(s[i] == rest[i - 1]);
            }
        }
    }
}

proof fn lemma_param_len_unique(s: Seq<u8>, n: int)
    requires
        0 <= n <= s.len(),
        forall|i: int| 0 <= i < n ==> is_param_byte(#[trigger] s[i]),
        n < s.len() ==> !is_param_byte(s[n]),
    ensures
        param_len(s) == n,
{
    lemma_param_len(s);
}

/// Whether no field of semicolon-separated parameters is empty.
pub open spec fn fields_filled(params: Seq<u8>) -> bool
    decreases params.len(),
{
    let end = index_of_byte(params, 0x3b);
    end > 0 && (end >= params.len() || fields_filled(params.skip(end as int + 1)))
}

/// The flags after each field of the parameters is set to `on`, in order; a
/// number too large for a mode is passed over.
pub open spec fn set_fields(flags: ModeFlags, params: Seq<u8>, on: bool) -> ModeFlags
    decreases params.len(),
{
    let end = index_of_byte(params, 0x3b);
    let here = match parse_decimal(params.take(end as int), 0xffff) {
        Some(code) => flags.with(code, on),
        None => flags,
    };
    if end >= params.len() {
        here
    } else {
        set_fields(here, params.skip(end as int + 1), on)
    }
}

/// Whether `s` starts with a full reset.
pub open spec fn is_reset(s: Seq<u8>) -> bool {
    s.len() >= 2 && s[0] == 0x1b && s[1] == 0x63
}

/// Where the parameters after a private mode introducer end.
pub open spec fn mode_end(s: Seq<u8>) -> int {
    param_len(s.skip(3)) as int + 3
}

/// Whether `s` starts with a complete private mode sequence.
pub open spec fn is_mode_sequence(s: Seq<u8>) -> bool {
    &&& s.len() >= 3 && s[0] == 0x1b && s[1] == 0x5b && s[2] == 0x3f
    &&& mode_end(s) < s.len()
    &&& s[mode_end(s)] == 0x68 || s[mode_end(s)] == 0x6c
    &&& fields_filled(s.subrange(3, mode_end(s)))
}

/// What the sequence at the head of `s` does to the flags.
pub open spec fn head_effect(flags: ModeFlags, s: Seq<u8>) -> ModeFlags {
    if is_reset(s) {
        no_flags()
    } else if is_mode_sequence(s) {
        let end = mode_end(s);
        set_fields(flags, s.subrange(3, end), s[end] == 0x68)
    } else {
        flags
    }
}

/// What the sequences in `s` do to the flags, one after the other.
pub open spec fn scan(flags: ModeFlags, s: Seq<u8>) -> ModeFlags
    decreases s.len(),
{
    if s.len() == 0 {
        flags
    } else {
        scan(head_effect(flags, s), s.skip(1))
    }
}

/// A [`TerminalModeOverlay`] as plain values.
pub ghost struct OverlayView {
    pub flags: ModeFlags,
    pub tail: Seq<u8>,
}

/// The last bytes of `s`, at most the tail limit.
pub open spec fn tail_of(s: Seq<u8>) -> Seq<u8> {
    if s.len() > MODE_TAIL_LIMIT {
        s.skip(s.len() - MODE_TAIL_LIMIT)
    } else {
        s
    }
}

impl OverlayView {
    /// An overlay that has seen nothing.
    pub open spec fn fresh() -> OverlayView {
        OverlayView { flags: no_flags(), tail: seq![] }
    }

    /// The overlay after more output.
    pub open spec fn after(self, bytes: Seq<u8>) -> OverlayView {
        let data = self.tail + bytes;
        OverlayView { flags: scan(self.flags, data), tail: tail_of(data) }
    }
}

/// Tracked modes on top of those that a surface backend reports.
pub open spec fn merged(flags: ModeFlags, surface: TerminalModes) -> TerminalModes {
    TerminalModes {
        bracketed_paste: surface.bracketed_paste || flags.bracketed_paste,
        focus_events: surface.focus_events || flags.focus_events,
        application_cursor: surface.application_cursor || flags.application_cursor,
        alternate_screen: surface.alternate_screen || flags.alternate_screen,
        mouse: if flags.mouse() != MouseMode::Off {
            flags.mouse()
        } else {
            surface.mouse
        },
    }
}

/// Each flag of `a` and `b` agrees, or stands in both as it does in `x` and `y`.
#[verifier::opaque]
spec fn settled_or_kept(a: ModeFlags, b: ModeFlags, x: ModeFlags, y: ModeFlags) -> bool {
    &&& a.bracketed_paste == b.bracketed_paste || (a.bracketed_paste == x.bracketed_paste
        && b.bracketed_paste == y.bracketed_paste)
    &&& a.focus_events == b.focus_events || (a.focus_events == x.focus_events && b.focus_events
        == y.focus_events)
    &&& a.application_cursor == b.application_cursor || (a.application_cursor
        == x.application_cursor && b.application_cursor == y.application_cursor)
    &&& a.alternate_screen == b.alternate_screen || (a.alternate_screen == x.alternate_screen
        && b.alternate_screen == y.alternate_screen)
    &&& a.x10 == b.x10 || (a.x10 == x.x10 && b.x10 == y.x10)
    &&& a.normal == b.normal || (a.normal == x.normal && b.normal == y.normal)
    &&& a.button_event == b.button_event || (a.button_event == x.button_event && b.button_event
        == y.button_event)
    &&& a.any_event == b.any_event || (a.any_event == x.any_event && b.any_event == y.any_event)
    &&& a.sgr == b.sgr || (a.sgr == x.sgr && b.sgr == y.sgr)
}

proof fn lemma_settles_chain(
    a: ModeFlags,
    b: ModeFlags,
    x1: ModeFlags,
    y1: ModeFlags,
    x: ModeFlags,
    y: ModeFlags,
)
    requires
        settled_or_kept(a, b, x1, y1),
        settled_or_kept(x1, y1, x, y),
    ensures
        settled_or_kept(a, b, x, y),
{
    reveal(settled_or_kept);
}

proof fn lemma_settles_trivially(x: ModeFlags, y: ModeFlags)
    ensures
        settled_or_kept(x, y, x, y),
        settled_or_kept(no_flags(), no_flags(), x, y),
{
    reveal(settled_or_kept);
}

proof fn lemma_with_settles(x: ModeFlags, y: ModeFlags, code: nat, on: bool)
    ensures
        settled_or_kept(x.with(code, on), y.with(code, on), x, y),
{
    reveal(settled_or_kept);
}

proof fn lemma_set_fields_settles(x: ModeFlags, y: ModeFlags, params: Seq<u8>, on: bool)
    ensures
        settled_or_kept(set_fields(x, params, on), set_fields(y, params, on), x, y),
    decreases params.len(),
{
    let end = index_of_byte(params, 0x3b);
    lemma_settles_trivially(x, y);
    let (x1, y1) = match parse_decimal(params.take(end as int), 0xffff) {
        Some(code) => {
            lemma_with_settles(x, y, code, on);
            (x.with(code, on), y.with(code, on))
        },
        None => (x, y),
    };
    if end < params.len() {
        let rest = params.skip(end as int + 1);
        lemma_set_fields_settles(x1, y1, rest, on);
        lemma_settles_chain(
            set_fields(x1, rest, on),
            set_fields(y1, rest, on),
            x1,
            y1,
            x,
            y,
        );
    }
}

proof fn lemma_head_settles(x: ModeFlags, y: ModeFlags, s: Seq<u8>)
    ensures
        settled_or_kept(head_effect(x, s), head_effect(y, s), x, y),
{
    lemma_settles_trivially(x, y);
    if !is_reset(s) && is_mode_sequence(s) {
        let end = mode_end(s);
        lemma_set_fields_settles(x, y, s.subrange(3, end), s[end] == 0x68);
    }
}

proof fn lemma_scan_settles(x: ModeFlags, y: ModeFlags, s: Seq<u8>)
    ensures
        settled_or_kept(scan(x, s), scan(y, s), x, y),
    decreases s.len(),
{
    lemma_settles_trivially(x, y);
    if s.len() > 0 {
        let x1 = head_effect(x, s);
        let y1 = head_effect(y, s);
        lemma_head_settles(x, y, s);
        lemma_scan_settles(x1, y1, s.skip(1));
        lemma_settles_chain(scan(x1, s.skip(1)), scan(y1, s.skip(1)), x1, y1, x, y);
    }
}

proof fn lemma_scan_suffix(flags: ModeFlags, s: Seq<u8>, n: int)
    requires
        0 <= n <= s.len(),
    ensures
        exists|x: ModeFlags| scan(flags, s) == #[trigger] scan(x, s.skip(n)),
    decreases n,
{
    if n == 0 {
        assert(s.skip(0) =~= s);
        assert(scan(flags, s) == scan(flags, s.skip(0)));
    } else {
        let x = head_effect(flags, s);
        lemma_scan_suffix(x, s.skip(1), n - 1);
        assert(s.skip(1).skip(n - 1) =~= s.skip(n));
    }
}

/// The retained tail is read again with the next feed, and reading it again
/// changes nothing: an overlay that is fed no bytes stays as it is.
pub proof fn law_overlay_reread_is_harmless(overlay: OverlayView, bytes: Seq<u8>)
    ensures
        overlay.after(bytes).after(seq![]) == overlay.after(bytes),
{
    let data = overlay.tail + bytes;
    let next = overlay.after(bytes);
    let n = data.len() - next.tail.len();
    assert(next.tail =~= data.skip(n));
    lemma_scan_suffix(overlay.flags, data, n);
    let x = choose|x: ModeFlags| scan(overlay.flags, data) == #[trigger] scan(x, data.skip(n));
    lemma_scan_settles(x, next.flags, next.tail);
    reveal(settled_or_kept);
    assert(next.tail + Seq::<u8>::empty() =~= next.tail);
    assert(tail_of(next.tail) =~= next.tail);
}

/// `x` is as `y` in each flag in which `a` and `b` do not agree.
#[verifier::opaque]
spec fn untouched_where_kept(a: ModeFlags, b: ModeFlags, x: ModeFlags, y: ModeFlags) -> bool {
    &&& a.bracketed_paste != b.bracketed_paste ==> x.bracketed_paste == y.bracketed_paste
    &&& a.focus_events != b.focus_events ==> x.focus_events == y.focus_events
    &&& a.application_cursor != b.application_cursor ==> x.application_cursor
        == y.application_cursor
    &&& a.alternate_screen != b.alternate_screen ==> x.alternate_screen == y.alternate_screen
    &&& a.x10 != b.x10 ==> x.x10 == y.x10
    &&& a.normal != b.normal ==> x.normal == y.normal
    &&& a.button_event != b.button_event ==> x.button_event == y.button_event
    &&& a.any_event != b.any_event ==> x.any_event == y.any_event
    &&& a.sgr != b.sgr ==> x.sgr == y.sgr
}

proof fn lemma_untouched_chain(
    a: ModeFlags,
    b: ModeFlags,
    c: ModeFlags,
    x1: ModeFlags,
    y1: ModeFlags,
    z1: ModeFlags,
    z: ModeFlags,
)
    requires
        settled_or_kept(a, b, x1, y1),
        untouched_where_kept(a, b, c, z1),
        untouched_where_kept(x1, y1, z1, z),
    ensures
        untouched_where_kept(a, b, c, z),
{
    reveal(settled_or_kept);
    reveal(untouched_where_kept);
}

proof fn lemma_untouched_trivially(x: ModeFlags, y: ModeFlags, z: ModeFlags)
    ensures
        untouched_where_kept(x, y, z, z),
        untouched_where_kept(no_flags(), no_flags(), no_flags(), z),
{
    reveal(untouched_where_kept);
}

proof fn lemma_with_untouched(x: ModeFlags, y: ModeFlags, z: ModeFlags, code: nat, on: bool)
    ensures
        untouched_where_kept(x.with(code, on), y.with(code, on), z.with(code, on), z),
{
    reveal(untouched_where_kept);
}

proof fn lemma_set_fields_untouched(
    x: ModeFlags,
    y: ModeFlags,
    z: ModeFlags,
    params: Seq<u8>,
    on: bool,
)
    ensures
        untouched_where_kept(
            set_fields(x, params, on),
            set_fields(y, params, on),
            set_fields(z, params, on),
            z,
        ),
    decreases params.len(),
{
    let end = index_of_byte(params, 0x3b);
    lemma_untouched_trivially(x, y, z);
    let (x1, y1, z1) = match parse_decimal(params.take(end as int), 0xffff) {
        Some(code) => {
            lemma_with_untouched(x, y, z, code, on);
            (x.with(code, on), y.with(code, on), z.with(code, on))
        },
        None => (x, y, z),
    };
    if end < params.len() {
        let rest = params.skip(end as int + 1);
        lemma_set_fields_untouched(x1, y1, z1, rest, on);
        lemma_set_fields_settles(x1, y1, rest, on);
        lemma_untouched_chain(
            set_fields(x1, rest, on),
            set_fields(y1, rest, on),
            set_fields(z1, rest, on),
            x1,
            y1,
            z1,
            z,
        );
    }
}

proof fn lemma_head_extends(flags: ModeFlags, s: Seq<u8>, more: Seq<u8>)
    ensures
        head_effect(flags, s) == flags || head_effect(flags, s) == head_effect(flags, s + more),
        is_reset(s) ==> is_reset(s + more),
        is_mode_sequence(s) ==> is_mode_sequence(s + more) && ({
            let end = mode_end(s);
            &&& mode_end(s + more) == end
            &&& (s + more).subrange(3, end) == s.subrange(3, end)
            &&& (s + more)[end] == s[end]
        }),
{
    let long = s + more;
    if is_mode_sequence(s) {
        let n = param_len(s.skip(3));
        lemma_param_len(s.skip(3));
        assert forall|i: int| 0 <= i < n implies is_param_byte(#[trigger] long.skip(3)[i]) by {
            assert(long.skip(3)[i] == s.skip(3)[i]);
        }
        assert(long.skip(3)[n as int] == s.skip(3)[n as int]);
        lemma_param_len_unique(long.skip(3), n as int);
        assert(long.subrange(3, n as int + 3) =~= s.subrange(3, n as int + 3));
    }
}

proof fn lemma_scan_extends(x: ModeFlags, y: ModeFlags, z: ModeFlags, s: Seq<u8>, more: Seq<u8>)
    ensures
        untouched_where_kept(scan(x, s + more), scan(y, s + more), scan(z, s), z),
    decreases s.len(),
{
    if s.len() == 0 {
        lemma_untouched_trivially(scan(x, s + more), scan(y, s + more), z);
    } else {
        let long = s + more;
        lemma_head_extends(z, s, more);
        let x1 = head_effect(x, long);
        let y1 = head_effect(y, long);
        let z1 = head_effect(z, s);
        assert(long.skip(1) =~= s.skip(1) + more);
        lemma_scan_extends(x1, y1, z1, s.skip(1), more);
        lemma_scan_settles(x1, y1, long.skip(1));
        lemma_untouched_trivially(x1, y1, z);
        if !is_reset(s) && is_mode_sequence(s) {
            let end = mode_end(s);
            assert(!is_reset(long));
            lemma_set_fields_untouched(x, y, z, s.subrange(3, end), s[end] == 0x68);
        }
        lemma_untouched_chain(
            scan(x1, long.skip(1)),
            scan(y1, long.skip(1)),
            scan(z1, s.skip(1)),
            x1,
            y1,
            z1,
            z,
        );
    }
}

proof fn lemma_agree(a: ModeFlags, b: ModeFlags, x: ModeFlags, y: ModeFlags)
    requires
        settled_or_kept(a, b, x, y),
        untouched_where_kept(a, b, x, y),
    ensures
        a == b,
{
    reveal(settled_or_kept);
    reveal(untouched_where_kept);
}

/// Whether a sequence that begins `n` bytes or more before the end of `s` is
/// finished only by `more`.
pub open spec fn reaches_over(s: Seq<u8>, more: Seq<u8>, n: int) -> bool {
    exists|i: int|
        0 <= i < s.len() - n && is_mode_sequence(#[trigger] (s + more).skip(i))
            && !is_mode_sequence(s.skip(i))
}

proof fn lemma_scan_from(flags: ModeFlags, s: Seq<u8>, more: Seq<u8>, n: int) -> (x: ModeFlags)
    requires
        0 <= n <= s.len(),
        n < s.len() || more.len() == 0 || n == 0,
        forall|i: int|
            0 <= i < n && is_mode_sequence(#[trigger] (s + more).skip(i)) ==> is_mode_sequence(
                s.skip(i),
            ),
    ensures
        scan(flags, s) == scan(x, s.skip(n)),
        scan(flags, s + more) == scan(x, (s + more).skip(n)),
    decreases n,
{
    let long = s + more;
    if n == 0 {
        assert(s.skip(0) =~= s);
        assert(long.skip(0) =~= long);
        flags
    } else {
        assert(s.skip(0) =~= s);
        assert(long.skip(0) =~= long);
        assert(is_mode_sequence(long.skip(0)) ==> is_mode_sequence(s.skip(0)));
        lemma_head_extends(flags, s, more);
        let next = head_effect(flags, s);
        assert(next == head_effect(flags, long));
        let rest = s.skip(1);
        assert(long.skip(1) =~= rest + more);
        assert forall|i: int|
            0 <= i < n - 1 && is_mode_sequence(#[trigger] (rest + more).skip(i)) implies is_mode_sequence(
            rest.skip(i),
        ) by {
            assert((rest + more).skip(i) =~= long.skip(i + 1));
            assert(rest.skip(i) =~= s.skip(i + 1));
        }
        let x = lemma_scan_from(next, rest, more, n - 1);
        assert(rest.skip(n - 1) =~= s.skip(n));
        assert((rest + more).skip(n - 1) =~= long.skip(n));
        x
    }
}

/// Output may be cut into feeds at any place: two feeds leave the modes that
/// one feed of both would. Only a sequence that is longer than the tail can be
/// lost at the cut.
pub proof fn law_overlay_split_feed(overlay: OverlayView, first: Seq<u8>, second: Seq<u8>)
    requires
        !reaches_over(overlay.tail + first, second, MODE_TAIL_LIMIT as int),
    ensures
        overlay.after(first).after(second) == overlay.after(first + second),
{
    let data = overlay.tail + first;
    let mid = overlay.after(first);
    let gone = if data.len() > MODE_TAIL_LIMIT {
        data.len() - MODE_TAIL_LIMIT
    } else {
        0
    };
    let kept = data.skip(gone);
    assert(mid.tail =~= kept);
    assert(overlay.tail + (first + second) =~= data + second);
    assert((data + second).skip(gone) =~= kept + second);
    assert forall|i: int|
        0 <= i < gone && is_mode_sequence(#[trigger] (data + second).skip(i)) implies is_mode_sequence(
        data.skip(i),
    ) by {
    }
    let flags = lemma_scan_from(overlay.flags, data, second, gone);
    lemma_scan_extends(mid.flags, flags, flags, kept, second);
    lemma_scan_settles(mid.flags, flags, kept + second);
    lemma_agree(
        scan(mid.flags, kept + second),
        scan(flags, kept + second),
        mid.flags,
        flags,
    );
    assert(tail_of(kept + second) =~= tail_of(data + second));
}

/// Merging is settled by one merge, and a mode that the backend reports is
/// never lost, other than a mouse mode to a tracked one.
pub proof fn law_merge(flags: ModeFlags, surface: TerminalModes)
    ensures
        merged(flags, merged(flags, surface)) == merged(flags, surface),
        surface.bracketed_paste ==> merged(flags, surface).bracketed_paste,
        surface.focus_events ==> merged(flags, surface).focus_events,
        surface.application_cursor ==> merged(flags, surface).application_cursor,
        surface.alternate_screen ==> merged(flags, surface).alternate_screen,
        merged(no_flags(), surface) == surface,
{
}

/// A full reset at the end of the output leaves every tracked mode off.
pub proof fn law_reset_clears(overlay: OverlayView, bytes: Seq<u8>)
    requires
        bytes.len() >= 2,
        bytes[bytes.len() - 2] == 0x1b,
        bytes[bytes.len() - 1] == 0x63,
    ensures
        overlay.after(bytes).flags == no_flags(),
{
    let data = overlay.tail + bytes;
    lemma_scan_suffix(overlay.flags, data, data.len() - 2);
    let x = choose|x: ModeFlags|
        scan(overlay.flags, data) == #[trigger] scan(x, data.skip(data.len() - 2));
    let end = data.skip(data.len() - 2);
    assert(is_reset(end));
    let last = end.skip(1);
    assert(last.len() == 1 && last[0] == 0x63);
    assert(scan(x, end) == scan(no_flags(), last));
    assert(last.skip(1).len() == 0);
    assert(scan(no_flags(), last) == scan(no_flags(), last.skip(1)));
}

/// The sequence with which a child turns the private modes of a list on or off.
pub open spec fn private_mode(params: Seq<u8>, on: bool) -> Seq<u8> {
    seq![0x1bu8, 0x5b, 0x3f] + params + seq![
        if on {
            0x68u8
        } else {
            0x6cu8
        },
    ]
}

proof fn lemma_head_stops_at_escape(flags: ModeFlags, s: Seq<u8>, more: Seq<u8>)
    requires
        s.len() > 0,
        more.len() > 0,
        more[0] == 0x1b,
    ensures
        head_effect(flags, s + more) == head_effect(flags, s),
{
    let long = s + more;
    lemma_head_extends(flags, s, more);
    assert(long[s.len() as int] == 0x1b);
    if is_mode_sequence(long) && !is_reset(long) {
        assert(s.len() >= 3);
        let n = param_len(long.skip(3));
        lemma_param_len(long.skip(3));
        if n + 3 > s.len() {
            assert(is_param_byte(long.skip(3)[s.len() - 3]));
            assert(long.skip(3)[s.len() - 3] == 0x1b);
        }
        assert(n + 3 < s.len());
        assert forall|i: int| 0 <= i < n implies is_param_byte(#[trigger] s.skip(3)[i]) by {
            assert(long.skip(3)[i] == s.skip(3)[i]);
        }
        assert(long.skip(3)[n as int] == s.skip(3)[n as int]);
        lemma_param_len_unique(s.skip(3), n as int);
        assert(long.subrange(3, n as int + 3) =~= s.subrange(3, n as int + 3));
    }
}

proof fn lemma_scan_stops_at_escape(flags: ModeFlags, s: Seq<u8>, more: Seq<u8>)
    requires
        more.len() > 0,
        more[0] == 0x1b,
    ensures
        scan(flags, s + more) == scan(scan(flags, s), more),
    decreases s.len(),
{
    if s.len() == 0 {
        assert(s + more =~= more);
    } else {
        lemma_head_stops_at_escape(flags, s, more);
        assert((s + more).skip(1) =~= s.skip(1) + more);
        lemma_scan_stops_at_escape(head_effect(flags, s), s.skip(1), more);
    }
}

proof fn lemma_scan_plain(flags: ModeFlags, s: Seq<u8>)
    requires
        forall|i: int| 0 <= i < s.len() ==> #[trigger] s[i] != 0x1b,
    ensures
        scan(flags, s) == flags,
    decreases s.len(),
{
    if s.len() > 0 {
        lemma_scan_plain(flags, s.skip(1));
    }
}

proof fn lemma_scan_private_mode(flags: ModeFlags, params: Seq<u8>, on: bool)
    requires
        forall|i: int| 0 <= i < params.len() ==> is_param_byte(#[trigger] params[i]),
        fields_filled(params),
    ensures
        scan(flags, private_mode(params, on)) == set_fields(flags, params, on),
{
    let s = private_mode(params, on);
    let n = params.len() as int;
    let tail = s.skip(3);
    assert forall|i: int| 0 <= i < n implies is_param_byte(#[trigger] tail[i]) by {
        assert(tail[i] == params[i]);
    }
    assert(tail[n] == s.last());
    lemma_param_len_unique(tail, n);
    assert(s.subrange(3, n + 3) =~= params);
    assert(s[n + 3] == s.last());
    assert(head_effect(flags, s) == set_fields(flags, params, on));
    let rest = s.skip(1);
    assert forall|i: int| 0 <= i < rest.len() implies #[trigger] rest[i] != 0x1b by {
        if 2 <= i < n + 2 {
            assert(rest[i] == params[i - 2]);
        }
    }
    lemma_scan_plain(head_effect(flags, s), rest);
}

proof fn lemma_one_field(flags: ModeFlags, code: nat, on: bool)
    requires
        code <= 0xffff,
    ensures
        forall|i: int|
            0 <= i < decimal_bytes(code).len() ==> is_param_byte(#[trigger] decimal_bytes(code)[i])
                && decimal_bytes(code)[i] != 0x3b,
        fields_filled(decimal_bytes(code)),
        set_fields(flags, decimal_bytes(code), on) == flags.with(code, on),
{
    let digits = decimal_bytes(code);
    law_decimal_is_read_back(code, 0xffff);
    lemma_index_of_byte(digits, 0x3b);
    assert(index_of_byte(digits, 0x3b) == digits.len());
    assert(digits.take(digits.len() as int) =~= digits);
}

/// The setting that came last stands: whatever was put out before, `ESC [ ? n h`
/// turns the mode of `n` on and `ESC [ ? n l` turns it off, and every other
/// mode stays as it was.
pub proof fn law_private_modes_are_set(overlay: OverlayView, bytes: Seq<u8>, code: nat, on: bool)
    requires
        code <= 0xffff,
    ensures
        ({
            let was = overlay.after(bytes).flags;
            let now = overlay.after(bytes + private_mode(decimal_bytes(code), on)).flags;
            &&& now.application_cursor == if code == 1 { on } else { was.application_cursor }
            &&& now.x10 == if code == 9 { on } else { was.x10 }
            &&& now.normal == if code == 1000 { on } else { was.normal }
            &&& now.button_event == if code == 1002 { on } else { was.button_event }
            &&& now.any_event == if code == 1003 { on } else { was.any_event }
            &&& now.focus_events == if code == 1004 { on } else { was.focus_events }
            &&& now.sgr == if code == 1006 { on } else { was.sgr }
            &&& now.bracketed_paste == if code == 2004 { on } else { was.bracketed_paste }
            &&& now.alternate_screen == if code == 47 || code == 1047 || code == 1049 {
                on
            } else {
                was.alternate_screen
            }
        }),
{
    let setting = private_mode(decimal_bytes(code), on);
    let data = overlay.tail + bytes;
    assert(overlay.tail + (bytes + setting) =~= data + setting);
    lemma_scan_stops_at_escape(overlay.flags, data, setting);
    lemma_one_field(scan(overlay.flags, data), code, on);
    lemma_scan_private_mode(scan(overlay.flags, data), decimal_bytes(code), on);
}

/// A list of private modes is the settings of its numbers one after the other,
/// and a number that is too large for a mode is passed over.
pub proof fn law_private_mode_lists(
    overlay: OverlayView,
    bytes: Seq<u8>,
    code: nat,
    rest: Seq<u8>,
    on: bool,
)
    requires
        forall|i: int| 0 <= i < rest.len() ==> is_param_byte(#[trigger] rest[i]),
        fields_filled(rest),
    ensures
        fields_filled(decimal_bytes(code)),
        fields_filled(decimal_bytes(code).push(0x3b) + rest),
        overlay.after(
            bytes + private_mode(decimal_bytes(code).push(0x3b) + rest, on),
        ).flags == overlay.after(
            bytes + private_mode(decimal_bytes(code), on) + private_mode(rest, on),
        ).flags,
        code > 0xffff ==> overlay.after(bytes + private_mode(decimal_bytes(code), on)).flags
            == overlay.after(bytes).flags,
{
    let digits = decimal_bytes(code);
    let all = digits.push(0x3b) + rest;
    let data = overlay.tail + bytes;
    let flags = scan(overlay.flags, data);
    law_decimal_is_read_back(code, 0xffff);
    lemma_index_of_byte(digits, 0x3b);
    assert(index_of_byte(digits, 0x3b) == digits.len());
    assert(digits.take(digits.len() as int) =~= digits);
    assert forall|i: int| 0 <= i < digits.len() implies all[i] != 0x3b && is_param_byte(
        #[trigger] all[i],
    ) && is_param_byte(digits[i]) by {
        assert(all[i] == digits[i]);
    }
    lemma_index_of_byte(all, 0x3b);
    assert(all[digits.len() as int] == 0x3b);
    assert(index_of_byte(all, 0x3b) == digits.len());
    assert(all.take(digits.len() as int) =~= digits);
    assert(all.skip(digits.len() as int + 1) =~= rest);
    assert forall|i: int| 0 <= i < all.len() implies is_param_byte(#[trigger] all[i]) by {
        if i > digits.len() {
            assert(all[i] == rest[i - digits.len() - 1]);
        }
    }
    let first = private_mode(digits, on);
    let second = private_mode(rest, on);
    let both = private_mode(all, on);
    assert(overlay.tail + (bytes + both) =~= data + both);
    lemma_scan_stops_at_escape(overlay.flags, data, both);
    lemma_scan_private_mode(flags, all, on);
    assert(overlay.tail + (bytes + first) =~= data + first);
    lemma_scan_stops_at_escape(overlay.flags, data, first);
    lemma_scan_private_mode(flags, digits, on);
    assert(overlay.tail + (bytes + first + second) =~= (data + first) + second);
    lemma_scan_stops_at_escape(overlay.flags, data + first, second);
    lemma_scan_private_mode(set_fields(flags, digits, on), rest, on);
}

/// Nothing but `ESC c` and private mode sequences changes a mode: any other
/// escape sequence, and the text behind it, leaves the modes as they were.
pub proof fn law_other_output_sets_nothing(overlay: OverlayView, bytes: Seq<u8>, rest: Seq<u8>)
    requires
        forall|i: int| 0 <= i < rest.len() ==> #[trigger] rest[i] != 0x1b,
        rest.len() >= 2,
        rest[0] != 0x63,
        rest[0] == 0x5b ==> rest[1] != 0x3f,
    ensures
        overlay.after(bytes + (seq![0x1bu8] + rest)).flags == overlay.after(bytes).flags,
        OverlayView::fresh().after(rest).flags == no_flags(),
{
    let more = seq![0x1bu8] + rest;
    let data = overlay.tail + bytes;
    assert(overlay.tail + (bytes + more) =~= data + more);
    lemma_scan_stops_at_escape(overlay.flags, data, more);
    assert(more[1] == rest[0] && more[2] == rest[1]);
    assert(more.skip(1) =~= rest);
    lemma_scan_plain(scan(overlay.flags, data), rest);
    assert(Seq::<u8>::empty() + rest =~= rest);
    lemma_scan_plain(no_flags(), rest);
}

/// Only `h` and `l` set modes: a private sequence that ends otherwise leaves
/// them as they were.
pub proof fn law_other_private_sequences_set_nothing(
    overlay: OverlayView,
    bytes: Seq<u8>,
    params: Seq<u8>,
    end: u8,
)
    requires
        forall|i: int| 0 <= i < params.len() ==> is_param_byte(#[trigger] params[i]),
        !is_param_byte(end),
        end != 0x68,
        end != 0x6c,
        end != 0x1b,
    ensures
        overlay.after(bytes + (seq![0x1bu8, 0x5b, 0x3f] + params).push(end)).flags
            == overlay.after(bytes).flags,
{
    let more = (seq![0x1bu8, 0x5b, 0x3f] + params).push(end);
    let data = overlay.tail + bytes;
    let n = params.len() as int;
    assert(overlay.tail + (bytes + more) =~= data + more);
    lemma_scan_stops_at_escape(overlay.flags, data, more);
    let tail = more.skip(3);
    assert forall|i: int| 0 <= i < n implies is_param_byte(#[trigger] tail[i]) by {
        assert(tail[i] == params[i]);
    }
    assert(tail[n] == end);
    lemma_param_len_unique(tail, n);
    assert(more[n + 3] == end);
    let rest = more.skip(1);
    assert forall|i: int| 0 <= i < rest.len() implies #[trigger] rest[i] != 0x1b by {
        if 2 <= i < n + 2 {
            assert(rest[i] == params[i - 2]);
        }
    }
    lemma_scan_plain(scan(overlay.flags, data), rest);
}

proof fn lemma_gap(before: Seq<u8>, after: Seq<u8>)
    requires
        before.len() == 0 || before.last() == 0x3b,
        after.len() == 0 || after[0] == 0x3b,
    ensures
        !fields_filled(before + after),
    decreases before.len(),
{
    let params = before + after;
    lemma_index_of_byte(params, 0x3b);
    let end = index_of_byte(params, 0x3b) as int;
    if before.len() > 0 {
        assert(params[before.len() - 1] == 0x3b);
        assert(end < before.len());
        assert(params.skip(end + 1) =~= before.skip(end + 1) + after);
        lemma_gap(before.skip(end + 1), after);
    } else if after.len() > 0 {
        assert(params[0] == 0x3b);
    }
}

/// A private sequence without a number, or with nothing where a number is to
/// stand, first, last or between two semicolons, sets no mode, not even those
/// that it does name.
pub proof fn law_gaps_set_nothing(
    overlay: OverlayView,
    bytes: Seq<u8>,
    before: Seq<u8>,
    after: Seq<u8>,
    on: bool,
)
    requires
        before.len() == 0 || before.last() == 0x3b,
        after.len() == 0 || after[0] == 0x3b,
        forall|i: int| 0 <= i < before.len() ==> is_param_byte(#[trigger] before[i]),
        forall|i: int| 0 <= i < after.len() ==> is_param_byte(#[trigger] after[i]),
    ensures
        overlay.after(bytes + private_mode(before + after, on)).flags == overlay.after(bytes).flags,
{
    let params = before + after;
    let more = private_mode(params, on);
    let data = overlay.tail + bytes;
    let n = params.len() as int;
    lemma_gap(before, after);
    assert(overlay.tail + (bytes + more) =~= data + more);
    lemma_scan_stops_at_escape(overlay.flags, data, more);
    let tail = more.skip(3);
    assert forall|i: int| 0 <= i < n implies is_param_byte(#[trigger] tail[i]) by {
        assert(tail[i] == params[i]);
        if i < before.len() {
            assert(params[i] == before[i]);
        } else {
            assert(params[i] == after[i - before.len()]);
        }
    }
    assert(tail[n] == if on { 0x68u8 } else { 0x6cu8 });
    lemma_param_len_unique(tail, n);
    assert(more.subrange(3, n + 3) =~= params);
    let rest = more.skip(1);
    assert forall|i: int| 0 <= i < rest.len() implies #[trigger] rest[i] != 0x1b by {
        if 2 <= i < n + 2 {
            assert(rest[i] == tail[i - 2]);
        }
    }
    lemma_scan_plain(scan(overlay.flags, data), rest);
}

/// A setting may be cut into two feeds anywhere: the mode is set as if it had
/// come in one.
pub proof fn law_a_cut_setting_is_seen(
    overlay: OverlayView,
    bytes: Seq<u8>,
    code: nat,
    on: bool,
    k: int,
)
    requires
        code <= 0xffff,
        0 <= k <= private_mode(decimal_bytes(code), on).len(),
    ensures
        ({
            let setting = private_mode(decimal_bytes(code), on);
            overlay.after(bytes + setting.take(k)).after(setting.skip(k)) == overlay.after(
                bytes + setting,
            )
        }),
{
    let setting = private_mode(decimal_bytes(code), on);
    let first = bytes + setting.take(k);
    let data = overlay.tail + first;
    let second = setting.skip(k);
    lemma_short_code(code);
    lemma_one_field(no_flags(), code, on);
    assert(first + second =~= bytes + setting);
    assert(data + second =~= overlay.tail + bytes + setting);
    assert(!reaches_over(data, second, 64)) by {
        assert forall|i: int| 0 <= i < data.len() - 64 && is_mode_sequence(
            #[trigger] (data + second).skip(i),
        ) implies is_mode_sequence(data.skip(i)) by {
            let s = (overlay.tail + bytes).skip(i);
            let whole = (data + second).skip(i);
            assert(s.len() > 0);
            assert(whole =~= s + setting);
            assert(data.skip(i) =~= s + setting.take(k));
            lemma_sequence_stops_at_escape(s, setting);
            lemma_head_extends(no_flags(), s, setting.take(k));
        }
    }
    law_overlay_split_feed(overlay, first, second);
}

proof fn lemma_short_code(code: nat)
    requires
        code <= 0xffff,
    ensures
        decimal_bytes(code).len() <= 5,
{
    reveal_with_fuel(decimal_bytes, 6);
}

proof fn lemma_sequence_stops_at_escape(s: Seq<u8>, more: Seq<u8>)
    requires
        s.len() > 0,
        more.len() > 0,
        more[0] == 0x1b,
        is_mode_sequence(s + more),
    ensures
        is_mode_sequence(s),
{
    let long = s + more;
    assert(long[s.len() as int] == 0x1b);
    assert(s.len() >= 3);
    let n = param_len(long.skip(3));
    lemma_param_len(long.skip(3));
    if n + 3 > s.len() {
        assert(is_param_byte(long.skip(3)[s.len() - 3]));
        assert(long.skip(3)[s.len() - 3] == 0x1b);
    }
    assert forall|i: int| 0 <= i < n implies is_param_byte(#[trigger] s.skip(3)[i]) by {
        assert(long.skip(3)[i] == s.skip(3)[i]);
    }
    assert(long.skip(3)[n as int] == s.skip(3)[n as int]);
    lemma_param_len_unique(s.skip(3), n as int);
    assert(long.subrange(3, n as int + 3) =~= s.subrange(3, n as int + 3));
}

/// What was tracked counts together with what the backend reports: a switch is
/// on exactly where one of the two has it on. The mouse mode is the tracked one
/// that reports most, and the backend's where none is tracked.
pub proof fn law_merged_modes(flags: ModeFlags, surface: TerminalModes)
    ensures
        ({
            let m = merged(flags, surface);
            &&& m.bracketed_paste <==> flags.bracketed_paste || surface.bracketed_paste
            &&& m.focus_events <==> flags.focus_events || surface.focus_events
            &&& m.application_cursor <==> flags.application_cursor || surface.application_cursor
            &&& m.alternate_screen <==> flags.alternate_screen || surface.alternate_screen
            &&& flags.sgr ==> m.mouse == MouseMode::Sgr
            &&& flags.any_event && !flags.sgr ==> m.mouse == MouseMode::AnyEvent
            &&& flags.button_event && !flags.any_event && !flags.sgr ==> m.mouse
                == MouseMode::ButtonEvent
            &&& flags.normal && !flags.button_event && !flags.any_event && !flags.sgr ==> m.mouse
                == MouseMode::Normal
            &&& flags.x10 && !flags.normal && !flags.button_event && !flags.any_event && !flags.sgr
                ==> m.mouse == MouseMode::X10
            &&& !flags.x10 && !flags.normal && !flags.button_event && !flags.any_event
                && !flags.sgr ==> m.mouse == surface.mouse
        }),
{
}

/// The modes of an overlay are what its flags say, and no mouse mode where no
/// mouse flag is on.
pub proof fn law_tracked_modes(flags: ModeFlags)
    ensures
        ({
            let m = flags.modes();
            &&& m.bracketed_paste == flags.bracketed_paste
            &&& m.focus_events == flags.focus_events
            &&& m.application_cursor == flags.application_cursor
            &&& m.alternate_screen == flags.alternate_screen
            &&& m.mouse == MouseMode::Off <==> !(flags.x10 || flags.normal || flags.button_event
                || flags.any_event || flags.sgr)
            &&& merged(flags, no_flags().modes()) == m
            &&& no_flags().modes().mouse == MouseMode::Off
        }),
{
}

/// Tracks terminal modes that a surface parser may not expose directly.
#[derive(Debug, PartialEq, Eq)]
pub struct TerminalModeOverlay {
    flags: ModeFlags,
    /// Tail buffer for escape sequences split across feed boundaries.
    tail: Vec<u8>,
}

impl View for TerminalModeOverlay {
    type V = OverlayView;

    closed spec fn view(&self) -> OverlayView {
        OverlayView { flags: self.flags, tail: self.tail@ }
    }
}

impl Default for TerminalModeOverlay {
    fn default() -> (overlay: Self)
        ensures
            overlay@ == OverlayView::fresh(),
    {
        TerminalModeOverlay { flags: ModeFlags::none(), tail: Vec::new() }
    }
}

impl Clone for TerminalModeOverlay {
    fn clone(&self) -> (copy: Self)
        ensures
            copy@ == self@,
    {
        TerminalModeOverlay {
            flags: self.flags,
            tail: vstd::slice::slice_to_vec(self.tail.as_slice()),
        }
    }
}

impl TerminalModeOverlay {
    /// Scans raw output for terminal mode set/reset sequences.
    ///
    /// Returns whether any mode changed.
    pub fn update_from_output(&mut self, bytes: &[u8]) -> (changed: bool)
        ensures
            final(self)@ == old(self)@.after(bytes@),
            changed == (final(self)@.flags.modes() != old(self)@.flags.modes()),
    {
        let before = self.flags.to_modes();
        let mut data: Vec<u8> = Vec::new();
        data.append(&mut self.tail);
        push_all(&mut data, bytes);
        assert(data@ =~= old(self)@.tail + bytes@);
        apply_terminal_mode_sequences(data.as_slice(), &mut self.flags);
        if data.len() > MODE_TAIL_LIMIT {
            let split = data.len() - MODE_TAIL_LIMIT;
            let ghost whole = data@;
            self.tail = data.split_off(split);
            assert(self.tail@ =~= whole.skip(split as int));
        } else {
            self.tail = data;
        }
        self.flags.to_modes() != before
    }

    /// Merges tracked modes on top of modes reported by a surface backend.
    pub fn merge_with(&self, surface_modes: TerminalModes) -> (modes: TerminalModes)
        ensures
            modes == merged(self@.flags, surface_modes),
    {
        let mouse = self.flags.active_mode();
        TerminalModes {
            bracketed_paste: surface_modes.bracketed_paste || self.flags.bracketed_paste,
            focus_events: surface_modes.focus_events || self.flags.focus_events,
            application_cursor: surface_modes.application_cursor || self.flags.application_cursor,
            alternate_screen: surface_modes.alternate_screen || self.flags.alternate_screen,
            mouse: if mouse != MouseMode::Off {
                mouse
            } else {
                surface_modes.mouse
            },
        }
    }
}

fn apply_terminal_mode_sequences(bytes: &[u8], flags: &mut ModeFlags)
    ensures
        *final(flags) == scan(*old(flags), bytes@),
{
    let mut index: usize = 0;
    assert(bytes@.skip(0) =~= bytes@);
    while index < bytes.len()
        invariant
            index <= bytes@.len(),
            scan(*old(flags), bytes@) == scan(*flags, bytes@.skip(index as int)),
        decreases bytes@.len() - index,
    {
        let ghost rest = bytes@.skip(index as int);
        if bytes[index] == 0x1b {
            apply_sequence(slice_subrange(bytes, index, bytes.len()), flags);
            assert(bytes@.subrange(index as int, bytes@.len() as int) =~= rest);
        }
        assert(rest.skip(1) =~= bytes@.skip(index + 1));
        index = index + 1;
    }
}

fn apply_sequence(bytes: &[u8], flags: &mut ModeFlags)
    ensures
        *final(flags) == head_effect(*old(flags), bytes@),
{
    if bytes.len() >= 2 && bytes[0] == 0x1b && bytes[1] == 0x63 {
        *flags = ModeFlags::none();
        return;
    }
    if bytes.len() < 3 || bytes[0] != 0x1b || bytes[1] != 0x5b || bytes[2] != 0x3f {
        return;
    }
    let mut cursor: usize = 3;
    while cursor < bytes.len() && (bytes[cursor] == 0x3b || (bytes[cursor] >= 0x30 && bytes[cursor]
        <= 0x39))
        invariant
            3 <= cursor <= bytes@.len(),
            forall|i: int| 3 <= i < cursor ==> is_param_byte(#[trigger] bytes@[i]),
        decreases bytes@.len() - cursor,
    {
        cursor = cursor + 1;
    }
    proof {
        let tail = bytes@.skip(3);
        assert forall|i: int| 0 <= i < cursor - 3 implies is_param_byte(#[trigger] tail[i]) by {
            assert(tail[i] == bytes@[i + 3]);
        }
        lemma_param_len_unique(tail, cursor - 3);
    }
    if cursor >= bytes.len() {
        return;
    }
    let action = bytes[cursor];
    if action != 0x68 && action != 0x6c {
        return;
    }
    let params = slice_subrange(bytes, 3, cursor);
    if !all_fields_filled(params) {
        return;
    }
    set_all_fields(params, action == 0x68, flags);
}

fn all_fields_filled(params: &[u8]) -> (r: bool)
    ensures
        r == fields_filled(params@),
{
    let mut start: usize = 0;
    assert(params@.skip(0) =~= params@);
    loop
        invariant
            start <= params@.len(),
            fields_filled(params@) == fields_filled(params@.skip(start as int)),
        decreases params@.len() - start,
    {
        let rest = slice_subrange(params, start, params.len());
        assert(rest@ =~= params@.skip(start as int));
        let end = find_byte(rest, 0x3b);
        if end == 0 {
            return false;
        }
        if end == rest.len() {
            return true;
        }
        assert(rest@.skip(end + 1) =~= params@.skip(start + end + 1));
        start = start + end + 1;
    }
}

fn set_all_fields(params: &[u8], enabled: bool, flags: &mut ModeFlags)
    ensures
        *final(flags) == set_fields(*old(flags), params@, enabled),
{
    let mut start: usize = 0;
    assert(params@.skip(0) =~= params@);
    loop
        invariant
            start <= params@.len(),
            set_fields(*old(flags), params@, enabled) == set_fields(
                *flags,
                params@.skip(start as int),
                enabled,
            ),
        decreases params@.len() - start,
    {
        let rest = slice_subrange(params, start, params.len());
        assert(rest@ =~= params@.skip(start as int));
        let end = find_byte(rest, 0x3b);
        let part = slice_subrange(rest, 0, end);
        assert(part@ =~= rest@.take(end as int));
        if let Some(code) = read_decimal(part, 0xffff) {
            flags.apply_private_mode(code, enabled);
        }
        if end == rest.len() {
            return;
        }
        assert(rest@.skip(end + 1) =~= params@.skip(start + end + 1));
        start = start + end + 1;
    }
}

} // verus!
