//! Viewport controls and rendering for a pane that is attached fullscreen.
//!
//! While a pane is attached, page keys, home/end and the mouse wheel move a
//! viewport over the retained scrollback instead of reaching the child.

use std::borrow::Cow;

use vstd::prelude::*;
use vstd::slice::slice_subrange;
use vstd::utf8::encode_utf8;

use crate::bytes::{law_decimal_is_read_back, push_all};
use crate::pane::Size;
use crate::surface::{
    plain_style, CellAttrs, CellStyle, CellView, CellWidth, ColorSpec, LineView, PaneSnapshot,
    PaneView, RowView, ScrollbackLine, ScrollbackSnapshot, SurfaceCell, SurfaceRow,
};
use crate::text::{decimal_bytes, push_decimal_bytes};
use crate::viewport::{
    metrics_of, min_usize, sat_add, sat_sub, tail_viewport, viewport_at, TerminalViewport,
    TerminalViewportMetrics,
};

verus! {

/// A movement of the attached viewport.
#[derive(Debug, Clone, Copy, PartialEq, Eq, Structural)]
pub enum AttachViewportAction {
    /// Move towards older content.
    ScrollUp(usize),
    /// Move towards newer content.
    ScrollDown(usize),
    /// Move one viewport height towards older content.
    PageUp,
    /// Move one viewport height towards newer content.
    PageDown,
    /// Show the oldest content.
    Home,
    /// Follow the newest content.
    End,
}

/// Whether `s` begins with `prefix`.
pub open spec fn starts_with(s: Seq<u8>, prefix: Seq<u8>) -> bool {
    s.len() >= prefix.len() && s.take(prefix.len() as int) == prefix
}

fn starts_with_3(bytes: &[u8], a: u8, b: u8, c: u8) -> (r: bool)
    ensures
        r == starts_with(bytes@, seq![a, b, c]),
{
    if bytes.len() < 3 {
        return false;
    }
    let r = bytes[0] == a && bytes[1] == b && bytes[2] == c;
    proof {
        let head = bytes@.take(3);
        assert(head[0] == bytes@[0] && head[1] == bytes@[1] && head[2] == bytes@[2]);
        if r {
            assert(head =~= seq![a, b, c]);
        } else {
            assert(seq![a, b, c][0] == a && seq![a, b, c][1] == b && seq![a, b, c][2] == c);
        }
    }
    r
}

fn starts_with_4(bytes: &[u8], a: u8, b: u8, c: u8, d: u8) -> (r: bool)
    ensures
        r == starts_with(bytes@, seq![a, b, c, d]),
{
    if bytes.len() < 4 {
        return false;
    }
    let r = bytes[0] == a && bytes[1] == b && bytes[2] == c && bytes[3] == d;
    proof {
        let head = bytes@.take(4);
        let want = seq![a, b, c, d];
        assert(head[0] == bytes@[0] && head[1] == bytes@[1] && head[2] == bytes@[2] && head[3]
            == bytes@[3]);
        if r {
            assert(head =~= want);
        } else {
            assert(want[0] == a && want[1] == b && want[2] == c && want[3] == d);
        }
    }
    r
}

/// The number that the bytes of a mouse button field stand for: each byte from
/// `0` upward is a digit worth its distance from `0`.
pub open spec fn button_value(s: Seq<u8>) -> int
    decreases s.len(),
{
    if s.len() == 0 {
        0
    } else {
        button_value(s.drop_last()) * 10 + (s.last() - 0x30)
    }
}

/// The mouse button that a field names, when it fits 16 bits.
pub open spec fn button(s: Seq<u8>) -> Option<int> {
    if s.len() > 0 && (forall|i: int| 0 <= i < s.len() ==> #[trigger] s[i] >= 0x30)
        && button_value(s) <= u16::MAX {
        Some(button_value(s))
    } else {
        None
    }
}

proof fn lemma_button_value_grows(s: Seq<u8>, n: int)
    requires
        forall|i: int| 0 <= i < s.len() ==> #[trigger] s[i] >= 0x30,
        0 <= n <= s.len(),
    ensures
        0 <= button_value(s.take(n)) <= button_value(s),
    decreases s.len() - n, n,
{
    if n == s.len() {
        assert(s.take(n) =~= s);
        if n > 0 {
            let shorter = s.drop_last();
            lemma_button_value_grows(shorter, n - 1);
            assert(shorter.take(n - 1) =~= shorter);
        }
    } else {
        lemma_button_value_grows(s, n + 1);
        let longer = s.take(n + 1);
        assert(longer.drop_last() =~= s.take(n));
        lemma_button_value_grows(s.take(n), n);
        assert(s.take(n).take(n) =~= s.take(n));
    }
}

fn parse_u16(bytes: &[u8]) -> (value: Option<u16>)
    ensures
        match value {
            Some(v) => button(bytes@) == Some(v as int),
            None => button(bytes@) is None,
        },
{
    if bytes.len() == 0 {
        return None;
    }
    let mut value: u16 = 0;
    let mut i: usize = 0;
    while i < bytes.len()
        invariant
            i <= bytes@.len(),
            bytes@.len() > 0,
            forall|k: int| 0 <= k < i ==> #[trigger] bytes@[k] >= 0x30,
            value == button_value(bytes@.take(i as int)),
        decreases bytes@.len() - i,
    {
        let byte = bytes[i];
        if byte < 0x30 {
            assert(bytes@[i as int] < 0x30);
            return None;
        }
        let next: u32 = value as u32 * 10 + (byte - 0x30) as u32;
        proof {
            let longer = bytes@.take(i + 1);
            assert(longer.drop_last() =~= bytes@.take(i as int));
            assert(longer.last() == byte);
        }
        if next > 0xffff {
            proof {
                if forall|k: int| 0 <= k < bytes@.len() ==> #[trigger] bytes@[k] >= 0x30 {
                    lemma_button_value_grows(bytes@, i + 1);
                }
            }
            return None;
        }
        value = next as u16;
        i = i + 1;
    }
    assert(bytes@.take(i as int) =~= bytes@);
    Some(value)
}

/// Index of the first `M` or `m`, or the length.
pub open spec fn index_of_final(s: Seq<u8>) -> nat
    decreases s.len(),
{
    if s.len() == 0 || s[0] == 0x4d || s[0] == 0x6d {
        0
    } else {
        1 + index_of_final(s.skip(1))
    }
}

proof fn lemma_index_of_final(s: Seq<u8>, at: int)
    requires
        0 <= at <= s.len(),
        at < s.len() ==> s[at] == 0x4d || s[at] == 0x6d,
        forall|i: int| 0 <= i < at ==> s[i] != 0x4d && s[i] != 0x6d,
    ensures
        index_of_final(s) == at,
    decreases s.len(),
{
    if at > 0 {
        let rest = s.skip(1);
        assert forall|i: int| 0 <= i < at - 1 implies rest[i] != 0x4d && rest[i] != 0x6d by {
            assert(rest[i] == s[i + 1]);
        }
        lemma_index_of_final(rest, at - 1);
    }
}

proof fn lemma_index_of_final_bound(s: Seq<u8>)
    ensures
        index_of_final(s) <= s.len(),
    decreases s.len(),
{
    if s.len() > 0 && s[0] != 0x4d && s[0] != 0x6d {
        lemma_index_of_final_bound(s.skip(1));
    }
}

/// The mouse wheel report at the start of `s`, if there is one, and its length.
pub open spec fn wheel_control(s: Seq<u8>) -> Option<(AttachViewportAction, nat)> {
    let end = index_of_final(s);
    if !starts_with(s, seq![0x1bu8, 0x5b, 0x3c]) || end >= s.len() {
        None
    } else {
        let body = s.subrange(3, end as int);
        let field = body.take(crate::bytes::index_of_byte(body, 0x3b) as int);
        if button(field) == Some(64int) {
            Some((AttachViewportAction::ScrollUp(3), end + 1))
        } else if button(field) == Some(65int) {
            Some((AttachViewportAction::ScrollDown(3), end + 1))
        } else {
            None
        }
    }
}

/// The viewport control at the start of `s`, if there is one, and its length.
pub open spec fn viewport_control(s: Seq<u8>) -> Option<(AttachViewportAction, nat)> {
    if starts_with(s, seq![0x1bu8, 0x5b, 0x35, 0x7e]) {
        Some((AttachViewportAction::PageUp, 4))
    } else if starts_with(s, seq![0x1bu8, 0x5b, 0x36, 0x7e]) {
        Some((AttachViewportAction::PageDown, 4))
    } else if starts_with(s, seq![0x1bu8, 0x5b, 0x48]) || starts_with(s, seq![0x1bu8, 0x4f, 0x48]) {
        Some((AttachViewportAction::Home, 3))
    } else if starts_with(s, seq![0x1bu8, 0x5b, 0x31, 0x7e]) || starts_with(
        s,
        seq![0x1bu8, 0x5b, 0x37, 0x7e],
    ) {
        Some((AttachViewportAction::Home, 4))
    } else if starts_with(s, seq![0x1bu8, 0x5b, 0x46]) || starts_with(s, seq![0x1bu8, 0x4f, 0x46]) {
        Some((AttachViewportAction::End, 3))
    } else if starts_with(s, seq![0x1bu8, 0x5b, 0x34, 0x7e]) || starts_with(
        s,
        seq![0x1bu8, 0x5b, 0x38, 0x7e],
    ) {
        Some((AttachViewportAction::End, 4))
    } else {
        wheel_control(s)
    }
}

/// A viewport control is not empty and lies within the input.
pub proof fn lemma_viewport_control(s: Seq<u8>)
    ensures
        viewport_control(s) matches Some((action, n)) ==> 0 < n <= s.len() && s[0] == 0x1b,
{
    lemma_index_of_final_bound(s);
    if s.len() > 0 && s[0] != 0x1b {
        assert forall|p: Seq<u8>| p.len() > 0 && p[0] == 0x1b implies !#[trigger] starts_with(
            s,
            p,
        ) by {
            if starts_with(s, p) {
                assert(s.take(p.len() as int)[0] == s[0]);
            }
        }
        assert(seq![0x1bu8, 0x5b, 0x3c][0] == 0x1b);
    }
}

fn parse_sgr_mouse_wheel(bytes: &[u8]) -> (r: Option<(AttachViewportAction, usize)>)
    ensures
        match r {
            Some((action, n)) => wheel_control(bytes@) == Some((action, n as nat)) && n
                <= bytes@.len(),
            None => wheel_control(bytes@) is None,
        },
{
    if !starts_with_3(bytes, 0x1b, 0x5b, 0x3c) {
        return None;
    }
    let mut end: usize = 0;
    while end < bytes.len() && bytes[end] != 0x4d && bytes[end] != 0x6d
        invariant
            end <= bytes@.len(),
            forall|i: int| 0 <= i < end ==> bytes@[i] != 0x4d && bytes@[i] != 0x6d,
        decreases bytes@.len() - end,
    {
        end = end + 1;
    }
    proof {
        lemma_index_of_final(bytes@, end as int);
    }
    if end == bytes.len() {
        return None;
    }
    proof {
        let head = bytes@.take(3);
        assert(head[0] == bytes@[0] && head[1] == bytes@[1] && head[2] == bytes@[2]);
        assert(seq![0x1bu8, 0x5b, 0x3c][0] == 0x1b);
        assert(seq![0x1bu8, 0x5b, 0x3c][1] == 0x5b);
        assert(seq![0x1bu8, 0x5b, 0x3c][2] == 0x3c);
    }
    let body = slice_subrange(bytes, 3, end);
    let field_len = crate::bytes::find_byte(body, 0x3b);
    let field = slice_subrange(body, 0, field_len);
    assert(field@ =~= body@.take(field_len as int));
    assert(end < bytes.len());
    match parse_u16(field) {
        Some(64) => Some((AttachViewportAction::ScrollUp(3), end + 1)),
        Some(65) => Some((AttachViewportAction::ScrollDown(3), end + 1)),
        _ => None,
    }
}

/// Reads the viewport control at the start of `bytes`, with its length.
pub fn parse_attach_viewport_control(bytes: &[u8]) -> (r: Option<(AttachViewportAction, usize)>)
    ensures
        match r {
            Some((action, n)) => viewport_control(bytes@) == Some((action, n as nat)) && 0 < n
                <= bytes@.len(),
            None => viewport_control(bytes@) is None,
        },
{
    proof {
        lemma_viewport_control(bytes@);
    }
    if starts_with_4(bytes, 0x1b, 0x5b, 0x35, 0x7e) {
        Some((AttachViewportAction::PageUp, 4))
    } else if starts_with_4(bytes, 0x1b, 0x5b, 0x36, 0x7e) {
        Some((AttachViewportAction::PageDown, 4))
    } else if starts_with_3(bytes, 0x1b, 0x5b, 0x48) || starts_with_3(bytes, 0x1b, 0x4f, 0x48) {
        Some((AttachViewportAction::Home, 3))
    } else if starts_with_4(bytes, 0x1b, 0x5b, 0x31, 0x7e) || starts_with_4(
        bytes,
        0x1b,
        0x5b,
        0x37,
        0x7e,
    ) {
        Some((AttachViewportAction::Home, 4))
    } else if starts_with_3(bytes, 0x1b, 0x5b, 0x46) || starts_with_3(bytes, 0x1b, 0x4f, 0x46) {
        Some((AttachViewportAction::End, 3))
    } else if starts_with_4(bytes, 0x1b, 0x5b, 0x34, 0x7e) || starts_with_4(
        bytes,
        0x1b,
        0x5b,
        0x38,
        0x7e,
    ) {
        Some((AttachViewportAction::End, 4))
    } else {
        parse_sgr_mouse_wheel(bytes)
    }
}

/// Input taken apart: what goes on to the child, and the viewport movements.
pub open spec fn split_controls(s: Seq<u8>) -> (Seq<u8>, Seq<AttachViewportAction>)
    decreases s.len(),
{
    if s.len() == 0 {
        (seq![], seq![])
    } else {
        proof {
            lemma_viewport_control(s);
        }
        match viewport_control(s) {
            Some((action, n)) => {
                let later = split_controls(s.skip(n as int));
                (later.0, seq![action] + later.1)
            },
            None => {
                let later = split_controls(s.skip(1));
                (seq![s[0]] + later.0, later.1)
            },
        }
    }
}

/// Input without an escape byte goes on to the child unchanged.
pub proof fn law_plain_input_is_forwarded(s: Seq<u8>)
    requires
        forall|i: int| 0 <= i < s.len() ==> #[trigger] s[i] != 0x1b,
    ensures
        split_controls(s).0 == s,
        split_controls(s).1.len() == 0,
    decreases s.len(),
{
    if s.len() > 0 {
        lemma_viewport_control(s);
        law_plain_input_is_forwarded(s.skip(1));
        assert(seq![s[0]] + s.skip(1) =~= s);
    }
}

/// Nothing is forwarded twice: what goes on is never longer than the input.
pub proof fn law_split_never_grows(s: Seq<u8>)
    ensures
        split_controls(s).0.len() + split_controls(s).1.len() <= s.len(),
    decreases s.len(),
{
    if s.len() > 0 {
        lemma_viewport_control(s);
        match viewport_control(s) {
            Some((_, n)) => law_split_never_grows(s.skip(n as int)),
            None => law_split_never_grows(s.skip(1)),
        }
    }
}

proof fn lemma_plain_then(plain: Seq<u8>, rest: Seq<u8>)
    requires
        forall|i: int| 0 <= i < plain.len() ==> #[trigger] plain[i] != 0x1b,
    ensures
        split_controls(plain + rest) == (
            plain + split_controls(rest).0,
            split_controls(rest).1,
        ),
    decreases plain.len(),
{
    let s = plain + rest;
    if plain.len() == 0 {
        assert(s =~= rest);
        assert(plain + split_controls(rest).0 =~= split_controls(rest).0);
    } else {
        lemma_viewport_control(s);
        assert(s[0] == plain[0]);
        assert(s.skip(1) =~= plain.skip(1) + rest);
        lemma_plain_then(plain.skip(1), rest);
        assert(seq![s[0]] + (plain.skip(1) + split_controls(rest).0) =~= plain + split_controls(
            rest,
        ).0);
    }
}

proof fn lemma_not_begun(s: Seq<u8>)
    ensures
        forall|p: Seq<u8>|
            p.len() == 3 ==> #[trigger] starts_with(s, p) == (s.len() >= 3 && s[0] == p[0] && s[1]
                == p[1] && s[2] == p[2]),
        forall|p: Seq<u8>|
            p.len() == 4 ==> #[trigger] starts_with(s, p) == (s.len() >= 4 && s[0] == p[0] && s[1]
                == p[1] && s[2] == p[2] && s[3] == p[3]),
{
    assert forall|p: Seq<u8>| p.len() == 3 implies #[trigger] starts_with(s, p) == (s.len() >= 3
        && s[0] == p[0] && s[1] == p[1] && s[2] == p[2]) by {
        if s.len() >= 3 {
            let head = s.take(3);
            assert(head[0] == s[0] && head[1] == s[1] && head[2] == s[2]);
            if s[0] == p[0] && s[1] == p[1] && s[2] == p[2] {
                assert(head =~= p);
            }
        }
    }
    assert forall|p: Seq<u8>| p.len() == 4 implies #[trigger] starts_with(s, p) == (s.len() >= 4
        && s[0] == p[0] && s[1] == p[1] && s[2] == p[2] && s[3] == p[3]) by {
        if s.len() >= 4 {
            let head = s.take(4);
            assert(head[0] == s[0] && head[1] == s[1] && head[2] == s[2] && head[3] == s[3]);
            if s[0] == p[0] && s[1] == p[1] && s[2] == p[2] && s[3] == p[3] {
                assert(head =~= p);
            }
        }
    }
}

/// Whether input that begins with these bytes moves the viewport like this and
/// keeps them from the child, whatever follows them.
pub open spec fn steers(key: Seq<u8>, action: AttachViewportAction, rest: Seq<u8>) -> bool {
    split_controls(key + rest) == (
        split_controls(rest).0,
        seq![action] + split_controls(rest).1,
    )
}

/// The keys that move the viewport, whatever input follows them: Page Up and
/// Page Down, and each way in which terminals send Home and End. None of their
/// bytes reach the child.
pub proof fn law_keys_steer(rest: Seq<u8>)
    ensures
        steers(seq![0x1bu8, 0x5b, 0x35, 0x7e], AttachViewportAction::PageUp, rest),
        steers(seq![0x1bu8, 0x5b, 0x36, 0x7e], AttachViewportAction::PageDown, rest),
        steers(seq![0x1bu8, 0x5b, 0x48], AttachViewportAction::Home, rest),
        steers(seq![0x1bu8, 0x4f, 0x48], AttachViewportAction::Home, rest),
        steers(seq![0x1bu8, 0x5b, 0x31, 0x7e], AttachViewportAction::Home, rest),
        steers(seq![0x1bu8, 0x5b, 0x37, 0x7e], AttachViewportAction::Home, rest),
        steers(seq![0x1bu8, 0x5b, 0x46], AttachViewportAction::End, rest),
        steers(seq![0x1bu8, 0x4f, 0x46], AttachViewportAction::End, rest),
        steers(seq![0x1bu8, 0x5b, 0x34, 0x7e], AttachViewportAction::End, rest),
        steers(seq![0x1bu8, 0x5b, 0x38, 0x7e], AttachViewportAction::End, rest),
{
    lemma_three_steers(0x5b, 0x48, rest);
    lemma_three_steers(0x4f, 0x48, rest);
    lemma_three_steers(0x5b, 0x46, rest);
    lemma_three_steers(0x4f, 0x46, rest);
    lemma_four_steers(0x35, rest);
    lemma_four_steers(0x36, rest);
    lemma_four_steers(0x31, rest);
    lemma_four_steers(0x37, rest);
    lemma_four_steers(0x34, rest);
    lemma_four_steers(0x38, rest);
}

proof fn lemma_three_steers(b: u8, c: u8, rest: Seq<u8>)
    requires
        b == 0x5b || b == 0x4f,
        c == 0x48 || c == 0x46,
    ensures
        steers(
            seq![0x1bu8, b, c],
            if c == 0x48 {
                AttachViewportAction::Home
            } else {
                AttachViewportAction::End
            },
            rest,
        ),
{
    let s = seq![0x1bu8, b, c] + rest;
    lemma_not_begun(s);
    assert(s[0] == 0x1b && s[1] == b && s[2] == c);
    assert(s.skip(3) =~= rest);
}

proof fn lemma_four_steers(c: u8, rest: Seq<u8>)
    requires
        c == 0x35 || c == 0x36 || c == 0x31 || c == 0x37 || c == 0x34 || c == 0x38,
    ensures
        steers(
            seq![0x1bu8, 0x5b, c, 0x7e],
            if c == 0x35 {
                AttachViewportAction::PageUp
            } else if c == 0x36 {
                AttachViewportAction::PageDown
            } else if c == 0x31 || c == 0x37 {
                AttachViewportAction::Home
            } else {
                AttachViewportAction::End
            },
            rest,
        ),
{
    let s = seq![0x1bu8, 0x5b, c, 0x7e] + rest;
    lemma_not_begun(s);
    assert(s[0] == 0x1b && s[1] == 0x5b && s[2] == c && s[3] == 0x7e);
    assert(s.skip(4) =~= rest);
}

/// A mouse report as terminals send it: the button, then where, then `M` for a
/// press or `m` for a release.
pub open spec fn mouse_report(button: nat, place: Seq<u8>, end: u8) -> Seq<u8> {
    seq![0x1bu8, 0x5b, 0x3c] + decimal_bytes(button) + seq![0x3bu8] + place + seq![end]
}

proof fn lemma_button_of_decimal(n: nat)
    ensures
        button_value(decimal_bytes(n)) == n,
    decreases n,
{
    law_decimal_is_read_back(n, n);
    let digits = decimal_bytes(n);
    if n < 10 {
        assert(digits.drop_last().len() == 0);
        assert(button_value(digits.drop_last()) == 0);
    } else {
        lemma_button_of_decimal(n / 10);
        assert(digits.drop_last() =~= decimal_bytes(n / 10));
    }
}

proof fn lemma_mouse_report(button: nat, place: Seq<u8>, end: u8, rest: Seq<u8>)
    requires
        end == 0x4d || end == 0x6d,
        button <= u16::MAX,
        forall|i: int|
            0 <= i < place.len() ==> #[trigger] place[i] != 0x4d && place[i] != 0x6d && place[i]
                != 0x1b,
    ensures
        viewport_control(mouse_report(button, place, end) + rest) == (if button == 64 {
            Some((AttachViewportAction::ScrollUp(3), mouse_report(button, place, end).len()))
        } else if button == 65 {
            Some((AttachViewportAction::ScrollDown(3), mouse_report(button, place, end).len()))
        } else {
            None
        }),
        forall|i: int|
            1 <= i < mouse_report(button, place, end).len() ==> #[trigger] mouse_report(
                button,
                place,
                end,
            )[i] != 0x1b,
        mouse_report(button, place, end)[0] == 0x1b,
{
    let report = mouse_report(button, place, end);
    let s = report + rest;
    let digits = decimal_bytes(button);
    law_decimal_is_read_back(button, u16::MAX as nat);
    lemma_button_of_decimal(button);
    let last = report.len() - 1;
    assert(last == 4 + digits.len() + place.len());
    assert forall|i: int| 3 <= i < 3 + digits.len() implies #[trigger] report[i] == digits[i
        - 3] by {}
    assert forall|i: int| 4 + digits.len() <= i < last implies #[trigger] report[i] == place[i - 4
        - digits.len()] by {}
    assert(report[last] == end);
    assert forall|i: int| 0 <= i < last implies s[i] != 0x4d && s[i] != 0x6d && #[trigger] s[i]
        == report[i] && (i > 0 ==> s[i] != 0x1b) by {
        if 3 <= i < 3 + digits.len() {
            assert(report[i] == digits[i - 3]);
        } else if i >= 4 + digits.len() {
            assert(report[i] == place[i - 4 - digits.len()]);
        }
    }
    assert(s[last] == end);
    lemma_index_of_final(s, last);
    lemma_not_begun(s);
    assert(s[0] == 0x1b && s[1] == 0x5b && s[2] == 0x3c);
    let body = s.subrange(3, last);
    assert forall|i: int| 0 <= i < digits.len() implies body[i] == #[trigger] digits[i] by {
        assert(body[i] == s[i + 3]);
        assert(report[i + 3] == digits[i]);
    }
    assert(body[digits.len() as int] == s[3 + digits.len() as int]);
    assert(s[3 + digits.len() as int] == report[3 + digits.len() as int]);
    assert(report[3 + digits.len() as int] == 0x3b);
    crate::bytes::lemma_index_of_byte(body, 0x3b);
    assert(crate::bytes::index_of_byte(body, 0x3b) == digits.len());
    assert(body.take(digits.len() as int) =~= digits);
    assert forall|i: int| 1 <= i < report.len() implies #[trigger] report[i] != 0x1b by {
        if i < last {
            assert(s[i] == report[i]);
        }
    }
}

/// The mouse wheel moves the viewport by three rows, up or down as it is
/// turned, wherever the pointer is and whatever input follows, and none of the
/// report reaches the child.
pub proof fn law_the_wheel_steers(place: Seq<u8>, end: u8, rest: Seq<u8>)
    requires
        end == 0x4d || end == 0x6d,
        forall|i: int|
            0 <= i < place.len() ==> #[trigger] place[i] != 0x4d && place[i] != 0x6d && place[i]
                != 0x1b,
    ensures
        steers(mouse_report(64, place, end), AttachViewportAction::ScrollUp(3), rest),
        steers(mouse_report(65, place, end), AttachViewportAction::ScrollDown(3), rest),
{
    lemma_mouse_report(64, place, end, rest);
    lemma_mouse_report(65, place, end, rest);
    let up = mouse_report(64, place, end);
    let down = mouse_report(65, place, end);
    assert((up + rest).skip(up.len() as int) =~= rest);
    assert((down + rest).skip(down.len() as int) =~= rest);
}

/// Whether input that begins with these bytes sends them on to the child and
/// moves nothing, whatever follows them.
pub open spec fn passes_on(key: Seq<u8>, rest: Seq<u8>) -> bool {
    split_controls(key + rest) == (key + split_controls(rest).0, split_controls(rest).1)
}

proof fn lemma_passes_on(key: Seq<u8>, rest: Seq<u8>)
    requires
        key.len() > 0,
        viewport_control(key + rest) is None,
        forall|i: int| 1 <= i < key.len() ==> #[trigger] key[i] != 0x1b,
    ensures
        passes_on(key, rest),
{
    let s = key + rest;
    let plain = key.skip(1);
    assert(s.skip(1) =~= plain + rest);
    assert forall|i: int| 0 <= i < plain.len() implies #[trigger] plain[i] != 0x1b by {
        assert(plain[i] == key[i + 1]);
    }
    lemma_plain_then(plain, rest);
    assert(s[0] == key[0]);
    assert(seq![key[0]] + (plain + split_controls(rest).0) =~= key + split_controls(rest).0);
}

/// The reports of all other buttons go on to the child.
pub proof fn law_other_mouse_reports_are_forwarded(
    button: nat,
    place: Seq<u8>,
    end: u8,
    rest: Seq<u8>,
)
    requires
        end == 0x4d || end == 0x6d,
        button <= u16::MAX,
        button != 64,
        button != 65,
        forall|i: int|
            0 <= i < place.len() ==> #[trigger] place[i] != 0x4d && place[i] != 0x6d && place[i]
                != 0x1b,
    ensures
        passes_on(mouse_report(button, place, end), rest),
{
    lemma_mouse_report(button, place, end, rest);
    lemma_passes_on(mouse_report(button, place, end), rest);
}

/// All other keys go on to the child: an escape sequence that is neither a page
/// key, Home, End nor a mouse report, and the text behind it.
pub proof fn law_other_keys_are_forwarded(key: Seq<u8>, rest: Seq<u8>)
    requires
        key.len() >= 4,
        key[0] == 0x1b,
        forall|i: int| 1 <= i < key.len() ==> #[trigger] key[i] != 0x1b,
        key[1] == 0x4f ==> key[2] != 0x48 && key[2] != 0x46,
        key[1] == 0x5b ==> key[2] != 0x48 && key[2] != 0x46 && key[2] != 0x3c && (key[3] == 0x7e
            ==> key[2] != 0x31 && key[2] != 0x34 && key[2] != 0x35 && key[2] != 0x36 && key[2]
            != 0x37 && key[2] != 0x38),
    ensures
        passes_on(key, rest),
{
    let s = key + rest;
    lemma_not_begun(s);
    assert(s[0] == key[0] && s[1] == key[1] && s[2] == key[2] && s[3] == key[3]);
    lemma_passes_on(key, rest);
}

/// Three-byte keys that move nothing, such as the arrow keys, go on to the
/// child.
pub proof fn law_arrow_keys_are_forwarded(b: u8, c: u8, rest: Seq<u8>)
    requires
        b == 0x5b || b == 0x4f,
        0x41 <= c <= 0x5a,
        c != 0x48,
        c != 0x46,
    ensures
        passes_on(seq![0x1bu8, b, c], rest),
{
    let key = seq![0x1bu8, b, c];
    let s = key + rest;
    lemma_not_begun(s);
    assert(s[0] == 0x1b && s[1] == b && s[2] == c);
    lemma_passes_on(key, rest);
}

/// Separates viewport controls from the bytes that go on to the child.
pub fn split_attach_viewport_controls(bytes: &[u8]) -> (r: (Vec<u8>, Vec<AttachViewportAction>))
    ensures
        r.0@ == split_controls(bytes@).0,
        r.1@ == split_controls(bytes@).1,
{
    let mut forward: Vec<u8> = Vec::new();
    let mut actions: Vec<AttachViewportAction> = Vec::new();
    let mut idx: usize = 0;
    let ghost all = split_controls(bytes@);
    assert(bytes@.skip(0) =~= bytes@);
    assert(forward@ + all.0 =~= all.0);
    assert(actions@ + all.1 =~= all.1);
    while idx < bytes.len()
        invariant
            idx <= bytes@.len(),
            all == split_controls(bytes@),
            all.0 == forward@ + split_controls(bytes@.skip(idx as int)).0,
            all.1 == actions@ + split_controls(bytes@.skip(idx as int)).1,
        decreases bytes@.len() - idx,
    {
        let rest = slice_subrange(bytes, idx, bytes.len());
        assert(rest@ =~= bytes@.skip(idx as int));
        let ghost f = forward@;
        let ghost a = actions@;
        match parse_attach_viewport_control(rest) {
            Some((action, consumed)) => {
                actions.push(action);
                proof {
                    assert(rest@.skip(consumed as int) =~= bytes@.skip(idx + consumed));
                    let later = split_controls(bytes@.skip(idx + consumed));
                    assert(a + (seq![action] + later.1) =~= actions@ + later.1);
                }
                idx = idx + consumed;
            },
            None => {
                forward.push(bytes[idx]);
                proof {
                    assert(rest@.skip(1) =~= bytes@.skip(idx + 1));
                    let later = split_controls(bytes@.skip(idx + 1));
                    assert(f + (seq![rest@[0]] + later.0) =~= forward@ + later.0);
                }
                idx = idx + 1;
            },
        }
    }
    assert(forward@ + Seq::<u8>::empty() =~= forward@);
    assert(actions@ + Seq::<AttachViewportAction>::empty() =~= actions@);
    (forward, actions)
}

/// The viewport after one movement over content with the given metrics.
pub open spec fn moved(
    viewport: TerminalViewport,
    action: AttachViewportAction,
    metrics: TerminalViewportMetrics,
) -> TerminalViewport {
    match action {
        AttachViewportAction::ScrollUp(rows) => viewport_at(
            min_usize(sat_add(metrics.effective_scroll_offset, rows), metrics.max_scroll_offset),
        ),
        AttachViewportAction::ScrollDown(rows) => viewport_at(
            sat_sub(metrics.effective_scroll_offset, rows),
        ),
        AttachViewportAction::PageUp => viewport_at(
            min_usize(
                sat_add(metrics.effective_scroll_offset, metrics.visible_rows),
                metrics.max_scroll_offset,
            ),
        ),
        AttachViewportAction::PageDown => viewport_at(
            sat_sub(metrics.effective_scroll_offset, metrics.visible_rows),
        ),
        AttachViewportAction::Home => TerminalViewport {
            scroll_offset: metrics.max_scroll_offset,
            follow_tail: false,
        },
        AttachViewportAction::End => tail_viewport(),
    }
}

/// Row counts that a viewport is placed over.
#[derive(Debug, Clone, Copy, PartialEq, Eq, Structural)]
pub struct ContentRows {
    /// Rows of the live surface.
    pub surface: usize,
    /// Retained scrollback lines.
    pub scrollback: usize,
}

impl ContentRows {
    /// The metrics of a viewport over this content.
    pub open spec fn under(
        self,
        viewport: TerminalViewport,
        visible: usize,
    ) -> TerminalViewportMetrics {
        metrics_of(viewport, self.surface, self.scrollback, visible)
    }

    /// Computes the metrics of a viewport over this content.
    pub fn metrics(self, viewport: TerminalViewport, visible: usize) -> (m: TerminalViewportMetrics)
        ensures
            m == self.under(viewport, visible),
    {
        viewport.metrics_from_counts(self.surface, self.scrollback, visible)
    }
}

/// The viewport after a row of movements.
pub open spec fn moved_by(
    viewport: TerminalViewport,
    actions: Seq<AttachViewportAction>,
    content: ContentRows,
    visible: usize,
) -> TerminalViewport
    decreases actions.len(),
{
    if actions.len() == 0 {
        viewport
    } else {
        let before = moved_by(viewport, actions.drop_last(), content, visible);
        moved(before, actions.last(), content.under(before, visible))
    }
}

/// What each movement does to the rows that are shown: up shows rows that lie as
/// many above, down rows that lie as many below, in both cases as far as there
/// are rows; Home shows the first row and End follows the last.
pub proof fn law_movements(
    viewport: TerminalViewport,
    action: AttachViewportAction,
    content: ContentRows,
    visible: usize,
)
    requires
        content.surface + content.scrollback <= usize::MAX,
    ensures
        ({
            let next = moved_by(viewport, seq![action], content, visible);
            let was = content.under(viewport, visible);
            let now = content.under(next, visible);
            let rows: int = match action {
                AttachViewportAction::ScrollUp(n) => n as int,
                AttachViewportAction::ScrollDown(n) => n as int,
                _ => visible as int,
            };
            &&& now.total_rows == was.total_rows
            &&& match action {
                AttachViewportAction::ScrollUp(_) | AttachViewportAction::PageUp => {
                    &&& now.start_row == (if was.start_row >= rows {
                        was.start_row - rows
                    } else {
                        0
                    })
                    &&& next.follow_tail == (now.end_row == now.total_rows)
                },
                AttachViewportAction::ScrollDown(_) | AttachViewportAction::PageDown => {
                    &&& now.end_row == (if was.end_row + rows <= was.total_rows {
                        was.end_row + rows
                    } else {
                        was.total_rows as int
                    })
                    &&& next.follow_tail == (now.end_row == now.total_rows)
                },
                AttachViewportAction::Home => now.start_row == 0 && !next.follow_tail,
                AttachViewportAction::End => now.end_row == now.total_rows && next.follow_tail,
            }
        }),
{
    assert(seq![action].drop_last() =~= Seq::empty());
    assert(moved_by(viewport, seq![action].drop_last(), content, visible) == viewport);
}

/// Movements add up: a row of them is the first ones, then the others, and
/// without any the viewport stays where it is.
pub proof fn law_movements_add_up(
    viewport: TerminalViewport,
    first: Seq<AttachViewportAction>,
    second: Seq<AttachViewportAction>,
    content: ContentRows,
    visible: usize,
)
    ensures
        moved_by(viewport, seq![], content, visible) == viewport,
        moved_by(viewport, first + second, content, visible) == moved_by(
            moved_by(viewport, first, content, visible),
            second,
            content,
            visible,
        ),
    decreases second.len(),
{
    if second.len() == 0 {
        assert(first + second =~= first);
    } else {
        law_movements_add_up(viewport, first, second.drop_last(), content, visible);
        assert((first + second).drop_last() =~= first + second.drop_last());
        assert((first + second).last() == second.last());
    }
}

/// Page Down takes back what Page Up did, as keys are pressed: where a page of
/// rows lies above, the same rows are shown after both as before, and between
/// them the rows right above.
pub proof fn law_page_keys_undo_each_other(
    viewport: TerminalViewport,
    content: ContentRows,
    visible: usize,
)
    requires
        content.surface + content.scrollback <= usize::MAX,
        content.under(viewport, visible).start_row >= visible,
    ensures
        ({
            let up = split_controls(seq![0x1bu8, 0x5b, 0x35, 0x7e]);
            let down = split_controls(seq![0x1bu8, 0x5b, 0x36, 0x7e]);
            let above = moved_by(viewport, up.1, content, visible);
            let back = moved_by(above, down.1, content, visible);
            &&& up.0.len() == 0 && down.0.len() == 0
            &&& content.under(above, visible).end_row == content.under(viewport, visible).start_row
            &&& content.under(back, visible) == content.under(viewport, visible)
        }),
{
    let none = Seq::<u8>::empty();
    law_keys_steer(none);
    assert(seq![0x1bu8, 0x5b, 0x35, 0x7e] + none =~= seq![0x1bu8, 0x5b, 0x35, 0x7e]);
    assert(seq![0x1bu8, 0x5b, 0x36, 0x7e] + none =~= seq![0x1bu8, 0x5b, 0x36, 0x7e]);
    let up = seq![AttachViewportAction::PageUp];
    let down = seq![AttachViewportAction::PageDown];
    assert(up + Seq::<AttachViewportAction>::empty() =~= up);
    assert(down + Seq::<AttachViewportAction>::empty() =~= down);
    law_movements(viewport, AttachViewportAction::PageUp, content, visible);
    law_movements(
        moved_by(viewport, up, content, visible),
        AttachViewportAction::PageDown,
        content,
        visible,
    );
}

/// Moves the viewport by each action in turn.
pub fn apply_attach_viewport_actions(
    viewport: TerminalViewport,
    actions: &[AttachViewportAction],
    content: ContentRows,
    visible: usize,
) -> (next: TerminalViewport)
    ensures
        next == moved_by(viewport, actions@, content, visible),
{
    let mut next = viewport;
    let mut i: usize = 0;
    assert(actions@.take(0).len() == 0);
    while i < actions.len()
        invariant
            i <= actions@.len(),
            next == moved_by(viewport, actions@.take(i as int), content, visible),
        decreases actions@.len() - i,
    {
        let metrics = content.metrics(next, visible);
        proof {
            assert(actions@.take(i + 1).drop_last() =~= actions@.take(i as int));
        }
        next = match actions[i] {
            AttachViewportAction::ScrollUp(rows) => next.scroll_up(rows, metrics),
            AttachViewportAction::ScrollDown(rows) => next.scroll_down(rows, metrics),
            AttachViewportAction::PageUp => next.page_up(metrics),
            AttachViewportAction::PageDown => next.page_down(metrics),
            AttachViewportAction::Home => TerminalViewport::scrolled(metrics.max_scroll_offset),
            AttachViewportAction::End => next.follow_tail(),
        };
        i = i + 1;
    }
    assert(actions@.take(i as int) =~= actions@);
    next
}

/// Clamps the viewport to the content once output has arrived: a viewport at
/// the tail stays there, a scrolled one keeps its distance from the tail as far
/// as the content reaches.
pub fn stabilize_attach_viewport_after_output(
    viewport: TerminalViewport,
    before: TerminalViewportMetrics,
    after: TerminalViewportMetrics,
) -> (next: TerminalViewport)
    ensures
        next == viewport.clamped(after),
{
    if viewport.follow_tail || after.total_rows <= before.total_rows {
        return viewport.clamp(after);
    }
    TerminalViewport::scrolled(
        before.effective_scroll_offset.saturating_add(after.total_rows - before.total_rows),
    ).clamp(after)
}

/// Resets attributes, clears screen and history, and homes the cursor.
pub open spec fn screen_reset() -> Seq<u8> {
    seq![
        0x1bu8,
        0x5b,
        0x30,
        0x6d,
        0x1b,
        0x5b,
        0x32,
        0x4a,
        0x1b,
        0x5b,
        0x33,
        0x4a,
        0x1b,
        0x5b,
        0x48,
    ]
}

fn push_screen_reset(out: &mut Vec<u8>)
    ensures
        final(out)@ == old(out)@ + screen_reset(),
{
    let reset: Vec<u8> = vec![
        0x1b,
        0x5b,
        0x30,
        0x6d,
        0x1b,
        0x5b,
        0x32,
        0x4a,
        0x1b,
        0x5b,
        0x33,
        0x4a,
        0x1b,
        0x5b,
        0x48,
    ];
    assert(reset@ =~= screen_reset());
    push_all(out, reset.as_slice());
}

/// The sequence that clears all attributes.
pub open spec fn attrs_reset() -> Seq<u8> {
    seq![0x1bu8, 0x5b, 0x30, 0x6d]
}

fn push_attrs_reset(out: &mut Vec<u8>)
    ensures
        final(out)@ == old(out)@ + attrs_reset(),
{
    out.push(0x1b);
    out.push(0x5b);
    out.push(0x30);
    out.push(0x6d);
    assert(out@ =~= old(out)@ + attrs_reset());
}

/// The sequence that clears to the end of the row.
pub open spec fn row_erase() -> Seq<u8> {
    seq![0x1bu8, 0x5b, 0x4b]
}

/// The sequence that moves the cursor to a one-based row and column.
pub open spec fn cursor_bytes(row: nat, col: nat) -> Seq<u8> {
    seq![0x1bu8, 0x5b] + decimal_bytes(row) + seq![0x3bu8] + decimal_bytes(col) + seq![0x48u8]
}

fn push_cursor_position(out: &mut Vec<u8>, row: usize, col: usize)
    ensures
        final(out)@ == old(out)@ + cursor_bytes(row as nat, col as nat),
{
    out.push(0x1b);
    out.push(0x5b);
    push_decimal_bytes(out, row as u64);
    out.push(0x3b);
    push_decimal_bytes(out, col as u64);
    out.push(0x48);
    assert(out@ =~= old(out)@ + cursor_bytes(row as nat, col as nat));
}

/// One further code of a style sequence.
pub open spec fn code(n: nat) -> Seq<u8> {
    seq![0x3bu8] + decimal_bytes(n)
}

fn push_code(out: &mut Vec<u8>, n: u8)
    ensures
        final(out)@ == old(out)@ + code(n as nat),
{
    out.push(0x3b);
    push_decimal_bytes(out, n as u64);
    assert(out@ =~= old(out)@ + code(n as nat));
}

/// A code that is there when its flag is set.
pub open spec fn flag_code(set: bool, n: nat) -> Seq<u8> {
    if set {
        code(n)
    } else {
        seq![]
    }
}

fn push_flag_code(out: &mut Vec<u8>, set: bool, n: u8)
    ensures
        final(out)@ == old(out)@ + flag_code(set, n as nat),
{
    if set {
        push_code(out, n);
    }
    assert(out@ =~= old(out)@ + flag_code(set, n as nat));
}

/// The codes of a cell's attributes.
pub open spec fn attr_codes(attrs: CellAttrs) -> Seq<u8> {
    flag_code(attrs.bold, 1) + flag_code(attrs.dim, 2) + flag_code(attrs.italic, 3) + flag_code(
        attrs.underlined,
        4,
    ) + flag_code(attrs.slow_blink, 5) + flag_code(attrs.rapid_blink, 6) + flag_code(
        attrs.reversed,
        7,
    ) + flag_code(attrs.hidden, 8) + flag_code(attrs.crossed_out, 9)
}

proof fn lemma_concat(a: Seq<u8>, b: Seq<u8>, c: Seq<u8>)
    ensures
        (a + b) + c == a + (b + c),
{
    assert((a + b) + c =~= a + (b + c));
}

fn push_attr_codes(out: &mut Vec<u8>, attrs: CellAttrs)
    ensures
        final(out)@ == old(out)@ + attr_codes(attrs),
{
    let ghost start = out@;
    let ghost mut done: Seq<u8> = seq![];
    assert(start + done =~= start);
    push_flag_code(out, attrs.bold, 1);
    proof {
        let more = flag_code(attrs.bold, 1);
        lemma_concat(start, done, more);
        done = done + more;
    }
    push_flag_code(out, attrs.dim, 2);
    proof {
        let more = flag_code(attrs.dim, 2);
        lemma_concat(start, done, more);
        done = done + more;
    }
    push_flag_code(out, attrs.italic, 3);
    proof {
        let more = flag_code(attrs.italic, 3);
        lemma_concat(start, done, more);
        done = done + more;
    }
    push_flag_code(out, attrs.underlined, 4);
    proof {
        let more = flag_code(attrs.underlined, 4);
        lemma_concat(start, done, more);
        done = done + more;
    }
    push_flag_code(out, attrs.slow_blink, 5);
    proof {
        let more = flag_code(attrs.slow_blink, 5);
        lemma_concat(start, done, more);
        done = done + more;
    }
    push_flag_code(out, attrs.rapid_blink, 6);
    proof {
        let more = flag_code(attrs.rapid_blink, 6);
        lemma_concat(start, done, more);
        done = done + more;
    }
    push_flag_code(out, attrs.reversed, 7);
    proof {
        let more = flag_code(attrs.reversed, 7);
        lemma_concat(start, done, more);
        done = done + more;
    }
    push_flag_code(out, attrs.hidden, 8);
    proof {
        let more = flag_code(attrs.hidden, 8);
        lemma_concat(start, done, more);
        done = done + more;
    }
    push_flag_code(out, attrs.crossed_out, 9);
    proof {
        let more = flag_code(attrs.crossed_out, 9);
        lemma_concat(start, done, more);
        done = done + more;
    }
    assert(seq![] + flag_code(attrs.bold, 1) =~= flag_code(attrs.bold, 1));
}

/// The codes of a color: `select` introduces one, `reset` names the default.
pub open spec fn color_codes(select: nat, reset: nat, color: Option<ColorSpec>) -> Seq<u8> {
    match color {
        None => seq![],
        Some(ColorSpec::Default) => code(reset),
        Some(ColorSpec::Indexed(index)) => code(select) + code(5) + code(index as nat),
        Some(ColorSpec::Rgb(r, g, b)) => code(select) + code(2) + code(r as nat) + code(g as nat)
            + code(b as nat),
    }
}

fn push_color_codes(out: &mut Vec<u8>, select: u8, reset: u8, color: Option<ColorSpec>)
    ensures
        final(out)@ == old(out)@ + color_codes(select as nat, reset as nat, color),
{
    match color {
        None => {},
        Some(ColorSpec::Default) => {
            push_code(out, reset);
        },
        Some(ColorSpec::Indexed(index)) => {
            push_code(out, select);
            push_code(out, 5);
            push_code(out, index);
        },
        Some(ColorSpec::Rgb(r, g, b)) => {
            push_code(out, select);
            push_code(out, 2);
            push_code(out, r);
            push_code(out, g);
            push_code(out, b);
        },
    }
    assert(out@ =~= old(out)@ + color_codes(select as nat, reset as nat, color));
}

/// The sequence that selects a style, starting from a clean slate.
pub open spec fn style_bytes(style: CellStyle) -> Seq<u8> {
    seq![0x1bu8, 0x5b, 0x30] + attr_codes(style.attrs) + color_codes(38, 39, style.fg)
        + color_codes(48, 49, style.bg) + color_codes(58, 59, style.underline_color) + seq![0x6du8]
}

fn push_colors(out: &mut Vec<u8>, style: CellStyle)
    ensures
        final(out)@ == old(out)@ + (color_codes(38, 39, style.fg) + color_codes(48, 49, style.bg)
            + color_codes(58, 59, style.underline_color)),
{
    let ghost start = out@;
    let ghost fg = color_codes(38, 39, style.fg);
    let ghost bg = color_codes(48, 49, style.bg);
    let ghost under = color_codes(58, 59, style.underline_color);
    push_color_codes(out, 38, 39, style.fg);
    push_color_codes(out, 48, 49, style.bg);
    push_color_codes(out, 58, 59, style.underline_color);
    assert(start + fg + bg + under =~= start + (fg + bg + under));
}

#[verifier::spinoff_prover]
fn push_style(out: &mut Vec<u8>, style: CellStyle)
    ensures
        final(out)@ == old(out)@ + style_bytes(style),
{
    let ghost start = out@;
    let ghost attrs = attr_codes(style.attrs);
    let ghost fg = color_codes(38, 39, style.fg);
    let ghost bg = color_codes(48, 49, style.bg);
    let ghost under = color_codes(58, 59, style.underline_color);
    let ghost lead = seq![0x1bu8, 0x5b, 0x30];
    out.push(0x1b);
    out.push(0x5b);
    out.push(0x30);
    assert(out@ =~= start + lead);
    push_attr_codes(out, style.attrs);
    push_colors(out, style);
    out.push(0x6d);
    assert(out@ =~= start + (lead + attrs + fg + bg + under + seq![0x6du8]));
}

/// What one cell sends: nothing for the second half of a wide cell, a blank for
/// an empty cell or a wide one that does not fit, its text otherwise.
pub open spec fn cell_bytes(cell: CellView, at_right_edge: bool) -> Seq<u8> {
    match cell.width {
        CellWidth::Continuation => seq![],
        CellWidth::Double => style_bytes(cell.style) + if at_right_edge || cell.text.len() == 0 {
            seq![0x20u8]
        } else {
            encode_utf8(cell.text)
        },
        CellWidth::Single => style_bytes(cell.style) + if cell.text.len() == 0 {
            seq![0x20u8]
        } else {
            encode_utf8(cell.text)
        },
    }
}

fn text_of<'a>(text: &'a Cow<'_, str>) -> (s: &'a str)
    ensures
        s@ == text@,
{
    match text {
        Cow::Borrowed(s) => s,
        Cow::Owned(s) => s.as_str(),
    }
}

fn render_attach_cell(out: &mut Vec<u8>, cell: &SurfaceCell<'_>, at_right_edge: bool)
    ensures
        final(out)@ == old(out)@ + cell_bytes(cell@, at_right_edge),
{
    match cell.width {
        CellWidth::Continuation => {},
        width => {
            push_style(out, cell.style);
            let text = text_of(&cell.text);
            let too_wide = at_right_edge && width == CellWidth::Double;
            if too_wide || text.unicode_len() == 0 {
                out.push(0x20);
            } else {
                push_all(out, text.as_bytes());
            }
        },
    }
    assert(out@ =~= old(out)@ + cell_bytes(cell@, at_right_edge));
}

/// What the first `n` cells of a row send on a terminal `max_cols` wide.
pub open spec fn cells_bytes(cells: Seq<CellView>, n: nat, max_cols: nat) -> Seq<u8>
    decreases n,
{
    if n == 0 {
        seq![]
    } else {
        cells_bytes(cells, (n - 1) as nat, max_cols) + cell_bytes(cells[n - 1], n == max_cols)
    }
}

/// What a row sends on a terminal `max_cols` wide.
pub open spec fn row_bytes(row: RowView, max_cols: nat) -> Seq<u8> {
    cells_bytes(
        row.cells,
        if row.cells.len() <= max_cols {
            row.cells.len()
        } else {
            max_cols
        },
        max_cols,
    )
}

fn render_attach_surface_row(out: &mut Vec<u8>, row: &SurfaceRow<'_>, max_cols: usize)
    ensures
        final(out)@ == old(out)@ + row_bytes(row@, max_cols as nat),
{
    let count: usize = if row.cells.len() <= max_cols {
        row.cells.len()
    } else {
        max_cols
    };
    let mut i: usize = 0;
    assert(out@ =~= old(out)@ + cells_bytes(row@.cells, 0, max_cols as nat));
    while i < count
        invariant
            i <= count,
            count <= row.cells@.len(),
            count <= max_cols,
            out@ == old(out)@ + cells_bytes(row@.cells, i as nat, max_cols as nat),
        decreases count - i,
    {
        let ghost before = out@;
        render_attach_cell(out, &row.cells[i], i + 1 == max_cols);
        proof {
            let done = cells_bytes(row@.cells, i as nat, max_cols as nat);
            let more = cell_bytes(row@.cells[i as int], i + 1 == max_cols);
            assert((old(out)@ + done) + more =~= old(out)@ + (done + more));
        }
        i = i + 1;
    }
}

/// What a scrollback line sends: its cells, or its plain text where it has
/// none.
pub open spec fn line_bytes(line: LineView, max_cols: nat) -> Seq<u8> {
    if line.row.cells.len() == 0 {
        style_bytes(plain_style()) + encode_utf8(
            line.text.take(
                if line.text.len() <= max_cols {
                    line.text.len() as int
                } else {
                    max_cols as int
                },
            ),
        )
    } else {
        row_bytes(line.row, max_cols)
    }
}

fn push_plain_text_cells(out: &mut Vec<u8>, text: &str, max_cols: usize)
    ensures
        final(out)@ == old(out)@ + style_bytes(plain_style()) + encode_utf8(
            text@.take(
                if text@.len() <= max_cols {
                    text@.len() as int
                } else {
                    max_cols as int
                },
            ),
        ),
{
    push_style(out, CellStyle::default());
    let n = text.unicode_len();
    let count: usize = if n <= max_cols {
        n
    } else {
        max_cols
    };
    let mut kept = String::new();
    let mut i: usize = 0;
    while i < count
        invariant
            i <= count,
            count <= text@.len(),
            kept@ == text@.take(i as int),
        decreases count - i,
    {
        kept.push(text.get_char(i));
        assert(kept@ =~= text@.take(i + 1));
        i = i + 1;
    }
    push_all(out, kept.as_str().as_bytes());
}

fn render_attach_scrollback_line(out: &mut Vec<u8>, line: &ScrollbackLine<'_>, max_cols: usize)
    ensures
        final(out)@ == old(out)@ + line_bytes(line@, max_cols as nat),
{
    if line.row.cells.len() == 0 {
        push_plain_text_cells(out, text_of(&line.text), max_cols);
    } else {
        render_attach_surface_row(out, &line.row, max_cols);
    }
    assert(out@ =~= old(out)@ + line_bytes(line@, max_cols as nat));
}

/// What logical row `at` of the content sends: scrollback lines come first,
/// then the rows of the surface, and rows that do not exist send nothing.
pub open spec fn content_bytes(
    rows: Seq<RowView>,
    lines: Seq<LineView>,
    at: int,
    max_cols: nat,
) -> Seq<u8> {
    if at < lines.len() {
        line_bytes(lines[at], max_cols)
    } else if at - lines.len() < rows.len() {
        row_bytes(rows[at - lines.len()], max_cols)
    } else {
        seq![]
    }
}

/// What screen row `k`, counted from one, sends when it shows logical row `at`.
pub open spec fn screen_row_bytes(
    rows: Seq<RowView>,
    lines: Seq<LineView>,
    at: int,
    k: nat,
    max_cols: nat,
) -> Seq<u8> {
    cursor_bytes(k, 1) + content_bytes(rows, lines, at, max_cols) + attrs_reset() + row_erase()
}

/// What `n` logical rows from `start` on send, each on a row of the screen.
pub open spec fn rows_bytes(
    rows: Seq<RowView>,
    lines: Seq<LineView>,
    start: int,
    n: nat,
    max_cols: nat,
) -> Seq<u8>
    decreases n,
{
    if n == 0 {
        seq![]
    } else {
        rows_bytes(rows, lines, start, (n - 1) as nat, max_cols) + screen_row_bytes(
            rows,
            lines,
            start + n - 1,
            n,
            max_cols,
        )
    }
}

fn render_attach_row(
    out: &mut Vec<u8>,
    snapshot: &PaneSnapshot<'_>,
    scrollback: &ScrollbackSnapshot<'_>,
    at: usize,
    k: usize,
    max_cols: usize,
)
    ensures
        final(out)@ == old(out)@ + screen_row_bytes(
            snapshot@.surface.rows,
            scrollback@,
            at as int,
            k as nat,
            max_cols as nat,
        ),
{
    let ghost rows = snapshot@.surface.rows;
    let ghost start = out@;
    push_cursor_position(out, k, 1);
    let ghost placed = out@;
    let lines = scrollback.lines.len();
    if at < lines {
        render_attach_scrollback_line(out, &scrollback.lines[at], max_cols);
        assert(scrollback@[at as int] == scrollback.lines@[at as int]@);
    } else if at - lines < snapshot.surface.rows.len() {
        render_attach_surface_row(out, &snapshot.surface.rows[at - lines], max_cols);
        assert(rows[at - lines] == snapshot.surface.rows@[at - lines]@);
    }
    let ghost content = content_bytes(rows, scrollback@, at as int, max_cols as nat);
    assert(out@ =~= placed + content);
    push_attrs_reset(out);
    let ghost cleared = out@;
    out.push(0x1b);
    out.push(0x5b);
    out.push(0x4b);
    assert(out@ =~= cleared + row_erase());
    proof {
        let cursor = cursor_bytes(k as nat, 1);
        lemma_concat(start, cursor, content);
        lemma_concat(start, cursor + content, attrs_reset());
        lemma_concat(start, cursor + content + attrs_reset(), row_erase());
    }
}

/// What a viewport over a pane and its scrollback sends to a terminal.
pub open spec fn viewport_bytes(
    pane: PaneView,
    lines: Seq<LineView>,
    viewport: TerminalViewport,
    terminal_size: Size,
) -> Seq<u8> {
    let m = metrics_of(
        viewport,
        pane.surface.size.rows as usize,
        lines.len() as usize,
        terminal_size.rows as usize,
    );
    screen_reset() + rows_bytes(
        pane.surface.rows,
        lines,
        m.start_row as int,
        (m.end_row - m.start_row) as nat,
        terminal_size.cols as nat,
    ) + attrs_reset()
}

/// A number of a style sequence, behind a semicolon, if it is wanted.
pub open spec fn wanted(on: bool, digits: Seq<u8>) -> Seq<u8> {
    if on {
        seq![0x3bu8] + digits
    } else {
        seq![]
    }
}

/// The attributes of a cell are selected by their numbers from one to nine:
/// bold, dim, italic, underlined, slow and rapid blink, reversed, hidden and
/// crossed out, each where it is set and not where it is not.
pub proof fn law_attributes_are_selected(attrs: CellAttrs)
    ensures
        attr_codes(attrs) == wanted(attrs.bold, seq![0x31u8]) + wanted(attrs.dim, seq![0x32u8])
            + wanted(attrs.italic, seq![0x33u8]) + wanted(attrs.underlined, seq![0x34u8]) + wanted(
            attrs.slow_blink,
            seq![0x35u8],
        ) + wanted(attrs.rapid_blink, seq![0x36u8]) + wanted(attrs.reversed, seq![0x37u8]) + wanted(
            attrs.hidden,
            seq![0x38u8],
        ) + wanted(attrs.crossed_out, seq![0x39u8]),
{
    assert(decimal_bytes(1) =~= seq![0x31u8]);
    assert(decimal_bytes(2) =~= seq![0x32u8]);
    assert(decimal_bytes(3) =~= seq![0x33u8]);
    assert(decimal_bytes(4) =~= seq![0x34u8]);
    assert(decimal_bytes(5) =~= seq![0x35u8]);
    assert(decimal_bytes(6) =~= seq![0x36u8]);
    assert(decimal_bytes(7) =~= seq![0x37u8]);
    assert(decimal_bytes(8) =~= seq![0x38u8]);
    assert(decimal_bytes(9) =~= seq![0x39u8]);
}

/// A color is selected by its place in the palette or by its three parts, with
/// the two digits that stand for what it colors; the default has two digits of
/// its own, and no color selects nothing.
pub proof fn law_colors_are_selected(index: u8, r: u8, g: u8, b: u8, select: nat, reset: nat)
    ensures
        color_codes(select, reset, None).len() == 0,
        color_codes(select, reset, Some(ColorSpec::Default)) == seq![0x3bu8] + decimal_bytes(reset),
        color_codes(select, reset, Some(ColorSpec::Indexed(index))) == seq![0x3bu8]
            + decimal_bytes(select) + seq![0x3bu8, 0x35, 0x3b] + decimal_bytes(index as nat),
        color_codes(select, reset, Some(ColorSpec::Rgb(r, g, b))) == seq![0x3bu8] + decimal_bytes(
            select,
        ) + seq![0x3bu8, 0x32, 0x3b] + decimal_bytes(r as nat) + seq![0x3bu8] + decimal_bytes(
            g as nat,
        ) + seq![0x3bu8] + decimal_bytes(b as nat),
{
    assert(decimal_bytes(5) =~= seq![0x35u8]);
    assert(decimal_bytes(2) =~= seq![0x32u8]);
    assert(color_codes(select, reset, Some(ColorSpec::Indexed(index))) =~= seq![0x3bu8]
        + decimal_bytes(select) + seq![0x3bu8, 0x35, 0x3b] + decimal_bytes(index as nat));
    assert(color_codes(select, reset, Some(ColorSpec::Rgb(r, g, b))) =~= seq![0x3bu8]
        + decimal_bytes(select) + seq![0x3bu8, 0x32, 0x3b] + decimal_bytes(r as nat) + seq![0x3bu8]
        + decimal_bytes(g as nat) + seq![0x3bu8] + decimal_bytes(b as nat));
}

/// A style is selected from a clean slate: its attributes, then its text color,
/// its background and the color of its underline. Plain text is a reset alone.
pub proof fn law_styles_are_selected(style: CellStyle)
    ensures
        style_bytes(plain_style()) == seq![0x1bu8, 0x5b, 0x30, 0x6d],
        style_bytes(style) == seq![0x1bu8, 0x5b, 0x30] + attr_codes(style.attrs) + color_codes(
            38,
            39,
            style.fg,
        ) + color_codes(48, 49, style.bg) + color_codes(58, 59, style.underline_color) + seq![
            0x6du8,
        ],
{
    assert(style_bytes(plain_style()) =~= seq![0x1bu8, 0x5b, 0x30, 0x6d]);
}

/// A cell sends its style and its text, whatever it is. A cell without text
/// sends a blank, the second half of a wide cell sends nothing, and a wide cell
/// in the last column, which does not fit, sends a blank.
pub proof fn law_cells_are_sent(cell: CellView, edge: bool)
    ensures
        cell.width == CellWidth::Continuation ==> cell_bytes(cell, edge).len() == 0,
        cell.width != CellWidth::Continuation && cell.text.len() == 0 ==> cell_bytes(cell, edge)
            == style_bytes(cell.style).push(0x20),
        cell.width == CellWidth::Double && edge ==> cell_bytes(cell, edge) == style_bytes(
            cell.style,
        ).push(0x20),
        cell.text.len() > 0 && (cell.width == CellWidth::Single || (cell.width == CellWidth::Double
            && !edge)) ==> cell_bytes(cell, edge) == style_bytes(cell.style) + encode_utf8(
            cell.text,
        ),
{
    assert(style_bytes(cell.style) + seq![0x20u8] =~= style_bytes(cell.style).push(0x20));
}

/// A row sends its cells one after the other as far as the terminal is wide, and
/// the cells beyond that send nothing.
pub proof fn law_rows_are_sent(cells: Seq<CellView>, cell: CellView, wrapped: bool, cols: nat)
    ensures
        row_bytes(RowView { cells: seq![], wrapped }, cols).len() == 0,
        cells.len() < cols ==> row_bytes(RowView { cells: cells.push(cell), wrapped }, cols)
            == row_bytes(RowView { cells, wrapped }, cols) + cell_bytes(
            cell,
            cells.len() + 1 == cols,
        ),
        cells.len() >= cols ==> row_bytes(RowView { cells: cells.push(cell), wrapped }, cols)
            == row_bytes(RowView { cells, wrapped }, cols),
{
    let longer = cells.push(cell);
    let n = if cells.len() <= cols {
        cells.len()
    } else {
        cols
    };
    lemma_cells_bytes_prefix(cells, longer, n, cols);
}

proof fn lemma_cells_bytes_prefix(a: Seq<CellView>, b: Seq<CellView>, n: nat, cols: nat)
    requires
        n <= a.len() <= b.len(),
        forall|i: int| 0 <= i < n ==> a[i] == b[i],
    ensures
        cells_bytes(a, n, cols) == cells_bytes(b, n, cols),
    decreases n,
{
    if n > 0 {
        lemma_cells_bytes_prefix(a, b, (n - 1) as nat, cols);
    }
}

/// A scrollback line that has cells sends them; one that has only its text sends
/// that, plain, as far as the terminal is wide.
pub proof fn law_lines_are_sent(line: LineView, cols: nat)
    ensures
        line.row.cells.len() > 0 ==> line_bytes(line, cols) == row_bytes(line.row, cols),
        line.row.cells.len() == 0 && line.text.len() <= cols ==> line_bytes(line, cols) == seq![
            0x1bu8,
            0x5b,
            0x30,
            0x6d,
        ] + encode_utf8(line.text),
        line.row.cells.len() == 0 && line.text.len() > cols ==> line_bytes(line, cols) == seq![
            0x1bu8,
            0x5b,
            0x30,
            0x6d,
        ] + encode_utf8(line.text.take(cols as int)),
{
    law_styles_are_selected(plain_style());
    assert(line.text.take(line.text.len() as int) =~= line.text);
}

/// What row `k` of the screen, counted from zero, sends: the cursor is put to
/// its beginning, its content is sent, the style is reset and the rest of the
/// row is cleared.
pub open spec fn drawn_row(k: nat, content: Seq<u8>) -> Seq<u8> {
    seq![0x1bu8, 0x5b] + decimal_bytes(k + 1) + seq![0x3bu8, 0x31, 0x48] + content + seq![
        0x1bu8,
        0x5b,
        0x30,
        0x6d,
        0x1b,
        0x5b,
        0x4b,
    ]
}

proof fn lemma_screen_row(rows: Seq<RowView>, lines: Seq<LineView>, at: int, k: nat, cols: nat)
    ensures
        screen_row_bytes(rows, lines, at, k + 1, cols) == drawn_row(
            k,
            content_bytes(rows, lines, at, cols),
        ),
{
    assert(decimal_bytes(1) =~= seq![0x31u8]);
    assert(screen_row_bytes(rows, lines, at, k + 1, cols) =~= drawn_row(
        k,
        content_bytes(rows, lines, at, cols),
    ));
}

proof fn lemma_rows_split(
    rows: Seq<RowView>,
    lines: Seq<LineView>,
    start: int,
    n: nat,
    cols: nat,
    k: nat,
) -> (after: Seq<u8>)
    requires
        k < n,
    ensures
        rows_bytes(rows, lines, start, n, cols) == rows_bytes(rows, lines, start, k, cols)
            + drawn_row(k, content_bytes(rows, lines, start + k, cols)) + after,
    decreases n,
{
    let last = screen_row_bytes(rows, lines, start + n - 1, n, cols);
    if k == n - 1 {
        lemma_screen_row(rows, lines, start + k, k, cols);
        let none = Seq::<u8>::empty();
        assert(rows_bytes(rows, lines, start, n, cols) =~= rows_bytes(rows, lines, start, k, cols)
            + drawn_row(k, content_bytes(rows, lines, start + k, cols)) + none);
        none
    } else {
        let fewer = lemma_rows_split(rows, lines, start, (n - 1) as nat, cols, k);
        let after = fewer + last;
        assert(rows_bytes(rows, lines, start, n, cols) =~= rows_bytes(rows, lines, start, k, cols)
            + drawn_row(k, content_bytes(rows, lines, start + k, cols)) + after);
        after
    }
}

/// What resets the style, clears the screen and its history, and puts the cursor
/// to the corner.
pub open spec fn cleared_screen() -> Seq<u8> {
    seq![
        0x1bu8,
        0x5b,
        0x30,
        0x6d,
        0x1b,
        0x5b,
        0x32,
        0x4a,
        0x1b,
        0x5b,
        0x33,
        0x4a,
        0x1b,
        0x5b,
        0x48,
    ]
}

/// What resets the style.
pub open spec fn plain_again() -> Seq<u8> {
    seq![0x1bu8, 0x5b, 0x30, 0x6d]
}

/// Whether a screen that is cleared first has row `k` drawn with this content.
pub open spec fn draws(sent: Seq<u8>, k: nat, content: Seq<u8>) -> bool {
    exists|before: Seq<u8>, after: Seq<u8>| #[trigger]
        (cleared_screen() + before + drawn_row(k, content) + after + plain_again()) == sent
}

/// What a viewport shows is drawn: the screen is reset and cleared with its
/// history, then each row that is shown is drawn on the row of the screen where
/// it belongs, the scrollback before the live rows, and the style is reset at
/// the end. Nothing is drawn but the rows that are shown.
pub proof fn law_shown_rows_are_drawn(
    pane: PaneView,
    lines: Seq<LineView>,
    viewport: TerminalViewport,
    size: Size,
    k: nat,
)
    requires
        lines.len() <= usize::MAX,
        pane.surface.size.rows + lines.len() <= usize::MAX,
    ensures
        ({
            let sent = viewport_bytes(pane, lines, viewport, size);
            let m = metrics_of(
                viewport,
                pane.surface.size.rows as usize,
                lines.len() as usize,
                size.rows as usize,
            );
            let at = m.start_row + k;
            let cols = size.cols as nat;
            let content = if at < lines.len() {
                line_bytes(lines[at], cols)
            } else if at - lines.len() < pane.surface.rows.len() {
                row_bytes(pane.surface.rows[at - lines.len()], cols)
            } else {
                seq![]
            };
            &&& m.start_row == m.end_row ==> sent == cleared_screen() + plain_again()
            &&& at < m.end_row ==> draws(sent, k, content)
        }),
{
    let m = metrics_of(
        viewport,
        pane.surface.size.rows as usize,
        lines.len() as usize,
        size.rows as usize,
    );
    let rows = pane.surface.rows;
    let cols = size.cols as nat;
    let n = (m.end_row - m.start_row) as nat;
    let start = m.start_row as int;
    let reset = screen_reset();
    let end = attrs_reset();
    let sent = viewport_bytes(pane, lines, viewport, size);
    if n == 0 {
        assert(sent =~= reset + end);
    }
    if m.start_row + k < m.end_row {
        let after = lemma_rows_split(rows, lines, start, n, cols, k);
        let before = rows_bytes(rows, lines, start, k, cols);
        let content = content_bytes(rows, lines, start + k, cols);
        let clear = cleared_screen();
        let calm = plain_again();
        assert(reset == clear && end == calm);
        lemma_concat(clear + before, drawn_row(k, content), after);
        lemma_concat(clear, before, drawn_row(k, content) + after);
        lemma_concat(before, drawn_row(k, content), after);
        assert(clear + before + drawn_row(k, content) + after + calm == sent);
        assert(draws(sent, k, content));
    }
}

/// Renders the rows that a viewport shows, ready to be written to the host
/// terminal.
pub fn render_attach_viewport_bytes(
    snapshot: &PaneSnapshot<'_>,
    scrollback: &ScrollbackSnapshot<'_>,
    viewport: TerminalViewport,
    terminal_size: Size,
) -> (out: Vec<u8>)
    ensures
        out@ == viewport_bytes(snapshot@, scrollback@, viewport, terminal_size),
{
    let visible_rows = terminal_size.rows as usize;
    let max_cols = terminal_size.cols as usize;
    let metrics = viewport.metrics(snapshot, Some(scrollback), visible_rows);
    let mut out: Vec<u8> = Vec::new();
    push_screen_reset(&mut out);
    let count = metrics.end_row - metrics.start_row;
    let ghost rows = snapshot@.surface.rows;
    let ghost start = metrics.start_row as int;
    let mut i: usize = 0;
    assert(out@ =~= screen_reset() + rows_bytes(rows, scrollback@, start, 0, max_cols as nat));
    while i < count
        invariant
            i <= count,
            count == metrics.end_row - metrics.start_row,
            count <= visible_rows <= 0xffff,
            rows == snapshot@.surface.rows,
            start == metrics.start_row,
            out@ == screen_reset() + rows_bytes(
                rows,
                scrollback@,
                start,
                i as nat,
                max_cols as nat,
            ),
        decreases count - i,
    {
        render_attach_row(
            &mut out,
            snapshot,
            scrollback,
            metrics.start_row + i,
            i + 1,
            max_cols,
        );
        proof {
            lemma_concat(
                screen_reset(),
                rows_bytes(rows, scrollback@, start, i as nat, max_cols as nat),
                screen_row_bytes(rows, scrollback@, start + i, (i + 1) as nat, max_cols as nat),
            );
        }
        i = i + 1;
    }
    push_attrs_reset(&mut out);
    out
}

} // verus!
