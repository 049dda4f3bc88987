//! Terminal-specific encodings for Ctrl-letter detach chords.
//!
//! A terminal may report Ctrl-F as the raw byte `0x06`, as a CSI-u sequence
//! such as `ESC [ 102 ; 5 u`, or as an xterm modifyOtherKeys sequence such as
//! `ESC [ 27 ; 5 ; 102 ~`. This module recognises the two long forms of a
//! chord that is one Ctrl-letter byte.

use vstd::prelude::*;
use vstd::slice::slice_subrange;

use crate::bytes::{
    field, find_byte, index_of_byte, law_decimal_is_read_back, law_fields, lemma_index_of_byte,
    lemma_index_of_byte_unique, nth_field, parse_decimal, read_decimal,
};
use crate::text::{ascii_chars, decimal, decimal_bytes, push_decimal};

verus! {

/// How many bytes a trace shows.
pub const TRACE_PREVIEW_LIMIT: usize = 64;

/// A matched terminal encoding that is equivalent to a raw Ctrl-letter byte.
#[derive(Debug, Clone, Copy, PartialEq, Eq, Structural)]
pub struct CtrlDetachEncodingMatch {
    /// Normalized raw Ctrl-letter byte, e.g. `0x06` for Ctrl-F.
    pub normalized: u8,
    /// Number of original input bytes consumed by this encoded sequence.
    pub consumed: usize,
}

/// The Ctrl-letter byte that a chord consists of, if it is one.
pub open spec fn ctrl_letter(chord: Seq<u8>) -> Option<u8> {
    if chord.len() == 1 && 0x01 <= chord[0] <= 0x1a {
        Some(chord[0])
    } else {
        None
    }
}

/// Whether the xterm modifier parameter (one plus the modifier bits) has Control.
pub open spec fn mask_has_control(mask: nat) -> bool {
    mask >= 1 && ((mask - 1) / 4) % 2 == 1
}

/// Whether a key code is the letter of a Ctrl-letter byte, in either case, or the byte.
pub open spec fn is_letter_of(key_code: nat, raw: u8) -> bool {
    key_code == 0x60 + raw || key_code == 0x40 + raw || key_code == raw
}

/// The number at the head of the `k`-th parameter, before any colon.
pub open spec fn numeric_param(params: Seq<u8>, k: nat, max: nat) -> Option<nat> {
    match field(params, 0x3b, k) {
        Some(piece) => parse_decimal(piece.take(index_of_byte(piece, 0x3a) as int), max),
        None => None,
    }
}

/// Whether the bytes open a control sequence.
pub open spec fn has_csi(bytes: Seq<u8>) -> bool {
    bytes.len() >= 2 && bytes[0] == 0x1b && bytes[1] == 0x5b
}

/// The parameters between the CSI introducer and the first `terminator`.
pub open spec fn csi_params(bytes: Seq<u8>, terminator: u8) -> Option<Seq<u8>> {
    let end = index_of_byte(bytes, terminator);
    if has_csi(bytes) && end < bytes.len() {
        Some(bytes.subrange(2, end as int))
    } else {
        None
    }
}

/// Whether CSI-u parameters name the Ctrl-letter `raw`.
pub open spec fn csi_u_names(params: Seq<u8>, raw: u8) -> bool {
    match numeric_param(params, 0, u32::MAX as nat) {
        Some(key_code) => {
            ||| key_code == raw
            ||| {
                &&& numeric_param(params, 1, u16::MAX as nat) matches Some(mask)
                &&& mask_has_control(mask)
                &&& is_letter_of(key_code, raw)
            }
        },
        None => false,
    }
}

/// Whether modifyOtherKeys parameters name the Ctrl-letter `raw`.
pub open spec fn modify_other_keys_names(params: Seq<u8>, raw: u8) -> bool {
    &&& numeric_param(params, 0, u32::MAX as nat) == Some(27nat)
    &&& numeric_param(params, 1, u16::MAX as nat) matches Some(mask)
    &&& mask_has_control(mask)
    &&& numeric_param(params, 2, u32::MAX as nat) matches Some(key_code)
    &&& is_letter_of(key_code, raw)
    &&& field(params, 0x3b, 3) is None
}

/// How many bytes at the head of `bytes` encode the Ctrl-letter `chord`;
/// zero when they do not.
pub open spec fn encoded_len(bytes: Seq<u8>, chord: Seq<u8>) -> nat {
    match ctrl_letter(chord) {
        None => 0,
        Some(raw) => {
            if csi_params(bytes, 0x75) matches Some(params) && csi_u_names(params, raw) {
                index_of_byte(bytes, 0x75) + 1
            } else if csi_params(bytes, 0x7e) matches Some(params) && modify_other_keys_names(
                params,
                raw,
            ) {
                index_of_byte(bytes, 0x7e) + 1
            } else {
                0
            }
        },
    }
}

/// An encoding never extends past the input.
pub proof fn lemma_encoded_len(bytes: Seq<u8>, chord: Seq<u8>)
    ensures
        encoded_len(bytes, chord) <= bytes.len(),
{
    lemma_index_of_byte(bytes, 0x75);
    lemma_index_of_byte(bytes, 0x7e);
}

/// `bytes` with every encoding of `chord` replaced by the chord byte.
pub open spec fn normalized(bytes: Seq<u8>, chord: Seq<u8>) -> Seq<u8>
    decreases bytes.len(),
{
    if bytes.len() == 0 {
        seq![]
    } else if encoded_len(bytes, chord) == 0 {
        seq![bytes[0]] + normalized(bytes.skip(1), chord)
    } else {
        proof {
            lemma_encoded_len(bytes, chord);
        }
        seq![chord[0]] + normalized(bytes.skip(encoded_len(bytes, chord) as int), chord)
    }
}

/// Two numbers with a semicolon between them.
pub open spec fn two_params(a: nat, b: nat) -> Seq<u8> {
    decimal_bytes(a).push(0x3b) + decimal_bytes(b)
}

/// A key as terminals report it in the CSI-u form: its code and its modifiers.
pub open spec fn csi_u_key(code: nat, mask: nat) -> Seq<u8> {
    seq![0x1bu8, 0x5b] + two_params(code, mask) + seq![0x75u8]
}

/// A key as xterm reports it with modifyOtherKeys: its modifiers and its code.
pub open spec fn other_key(code: nat, mask: nat) -> Seq<u8> {
    seq![0x1bu8, 0x5b] + (decimal_bytes(27).push(0x3b) + two_params(mask, code)) + seq![0x7eu8]
}

proof fn lemma_decimal_is_clean(n: nat, b: u8)
    requires
        b < 0x30 || b > 0x39,
    ensures
        !decimal_bytes(n).contains(b),
        decimal_bytes(n).len() > 0,
{
    law_decimal_is_read_back(n, n);
}

proof fn lemma_numeric(params: Seq<u8>, k: nat, n: nat, max: nat)
    requires
        field(params, 0x3b, k) == Some(decimal_bytes(n)),
    ensures
        numeric_param(params, k, max) == (if n <= max {
            Some(n)
        } else {
            None
        }),
{
    let piece = decimal_bytes(n);
    lemma_decimal_is_clean(n, 0x3a);
    lemma_index_of_byte(piece, 0x3a);
    if index_of_byte(piece, 0x3a) < piece.len() {
        assert(piece.contains(piece[index_of_byte(piece, 0x3a) as int]));
    }
    assert(piece.take(piece.len() as int) =~= piece);
    law_decimal_is_read_back(n, max);
}

proof fn lemma_two_params(a: nat, b: nat)
    ensures
        field(two_params(a, b), 0x3b, 0) == Some(decimal_bytes(a)),
        field(two_params(a, b), 0x3b, 1) == Some(decimal_bytes(b)),
        field(two_params(a, b), 0x3b, 2) is None,
{
    lemma_decimal_is_clean(a, 0x3b);
    lemma_decimal_is_clean(b, 0x3b);
    law_fields(decimal_bytes(a), decimal_bytes(b), 0x3b, 0);
    law_fields(decimal_bytes(a), decimal_bytes(b), 0x3b, 1);
    law_fields(decimal_bytes(b), seq![], 0x3b, 0);
}

proof fn lemma_two_params_clean(a: nat, b: nat, x: u8)
    requires
        x < 0x30 || x > 0x39,
        x != 0x3b,
    ensures
        !two_params(a, b).contains(x),
{
    lemma_decimal_is_clean(a, x);
    lemma_decimal_is_clean(b, x);
    let s = two_params(a, b);
    assert forall|i: int| 0 <= i < s.len() implies s[i] != x by {
        let n = decimal_bytes(a).len() as int;
        if i < n {
            assert(s[i] == decimal_bytes(a)[i]);
            assert(decimal_bytes(a).contains(decimal_bytes(a)[i]));
        } else if i > n {
            assert(s[i] == decimal_bytes(b)[i - n - 1]);
            assert(decimal_bytes(b).contains(decimal_bytes(b)[i - n - 1]));
        }
    }
}

proof fn lemma_csi_params(params: Seq<u8>, end: u8, rest: Seq<u8>)
    requires
        !params.contains(end),
        end != 0x1b,
        end != 0x5b,
    ensures
        ({
            let s = seq![0x1bu8, 0x5b] + params + seq![end] + rest;
            &&& csi_params(s, end) == Some(params)
            &&& index_of_byte(s, end) == params.len() + 2
        }),
{
    let s = seq![0x1bu8, 0x5b] + params + seq![end] + rest;
    let n = params.len() as int + 2;
    lemma_index_of_byte(s, end);
    assert(s[n] == end);
    assert forall|i: int| 0 <= i < n implies #[trigger] s[i] != end by {
        if i >= 2 {
            assert(s[i] == params[i - 2]);
            assert(params.contains(params[i - 2]));
        }
    }
    assert(index_of_byte(s, end) == n);
    assert(s.subrange(2, n) =~= params);
}

/// A Ctrl-letter chord is recognised however the terminal reports it, whatever
/// follows: as a key with the code of the letter in either case, or of the byte
/// itself, and modifiers that have Control, in both of the long forms.
pub proof fn law_long_forms_are_the_chord(raw: u8, code: nat, mask: nat, rest: Seq<u8>)
    requires
        0x01 <= raw <= 0x1a,
        code == 0x60 + raw || code == 0x40 + raw || code == raw,
        1 <= mask <= u16::MAX,
        ((mask - 1) / 4) % 2 == 1,
    ensures
        encoded_len(csi_u_key(code, mask) + rest, seq![raw]) == csi_u_key(code, mask).len(),
        encoded_len(other_key(code, mask), seq![raw]) == other_key(code, mask).len(),
        normalized(csi_u_key(code, mask) + rest, seq![raw]) == seq![raw] + normalized(
            rest,
            seq![raw],
        ),
{
    let params = two_params(code, mask);
    let key = csi_u_key(code, mask);
    lemma_two_params(code, mask);
    lemma_two_params_clean(code, mask, 0x75);
    lemma_csi_params(params, 0x75, rest);
    lemma_numeric(params, 0, code, u32::MAX as nat);
    lemma_numeric(params, 1, mask, u16::MAX as nat);
    assert(key + rest =~= seq![0x1bu8, 0x5b] + params + seq![0x75u8] + rest);
    assert((key + rest).skip(key.len() as int) =~= rest);
    lemma_other_key(code, mask);
}

/// What follows a colon in a parameter does not count.
pub proof fn law_sub_parameters_do_not_count(n: nat, more: Seq<u8>, max: nat)
    requires
        n <= max,
        !more.contains(0x3b),
    ensures
        numeric_param(decimal_bytes(n).push(0x3a) + more, 0, max) == Some(n),
{
    let first = decimal_bytes(n);
    let all = first.push(0x3a) + more;
    lemma_decimal_is_clean(n, 0x3a);
    lemma_decimal_is_clean(n, 0x3b);
    assert forall|i: int| 0 <= i < all.len() implies all[i] != 0x3b by {
        if i < first.len() {
            assert(first.contains(first[i]) && all[i] == first[i]);
        } else if i > first.len() {
            assert(more.contains(more[i - first.len() - 1]));
        }
    }
    law_fields(all, seq![], 0x3b, 0);
    assert forall|i: int| 0 <= i < first.len() implies all[i] != 0x3a by {
        assert(first.contains(first[i]) && all[i] == first[i]);
    }
    assert(all[first.len() as int] == 0x3a);
    lemma_index_of_byte_unique(all, 0x3a, first.len() as int);
    assert(all.take(first.len() as int) =~= first);
    law_decimal_is_read_back(n, max);
}

/// The byte of the chord itself is the chord, reported in the CSI-u form, with
/// modifiers or without, and whatever they are.
pub proof fn law_the_byte_itself_is_the_chord(raw: u8, mask: nat, rest: Seq<u8>)
    requires
        0x01 <= raw <= 0x1a,
    ensures
        encoded_len(csi_u_key(raw as nat, mask) + rest, seq![raw]) == csi_u_key(
            raw as nat,
            mask,
        ).len(),
        encoded_len(
            seq![0x1bu8, 0x5b] + decimal_bytes(raw as nat) + seq![0x75u8] + rest,
            seq![raw],
        ) == decimal_bytes(raw as nat).len() + 3,
{
    let code = raw as nat;
    let params = two_params(code, mask);
    let key = csi_u_key(code, mask);
    lemma_two_params(code, mask);
    lemma_two_params_clean(code, mask, 0x75);
    lemma_csi_params(params, 0x75, rest);
    lemma_numeric(params, 0, code, u32::MAX as nat);
    assert(key + rest =~= seq![0x1bu8, 0x5b] + params + seq![0x75u8] + rest);
    let alone = decimal_bytes(code);
    lemma_decimal_is_clean(code, 0x3b);
    lemma_decimal_is_clean(code, 0x75);
    lemma_csi_params(alone, 0x75, rest);
    law_fields(alone, seq![], 0x3b, 0);
    lemma_numeric(alone, 0, code, u32::MAX as nat);
}

proof fn lemma_other_key(code: nat, mask: nat)
    ensures
        ({
            let key = other_key(code, mask);
            let params = decimal_bytes(27).push(0x3b) + two_params(mask, code);
            &&& csi_params(key, 0x75) is None
            &&& csi_params(key, 0x7e) == Some(params)
            &&& index_of_byte(key, 0x7e) + 1 == key.len()
            &&& numeric_param(params, 0, u32::MAX as nat) == Some(27nat)
            &&& mask <= u16::MAX ==> numeric_param(params, 1, u16::MAX as nat) == Some(mask)
            &&& code <= u32::MAX ==> numeric_param(params, 2, u32::MAX as nat) == Some(code)
            &&& field(params, 0x3b, 3) is None
        }),
{
    let inner = two_params(mask, code);
    let others = decimal_bytes(27).push(0x3b) + inner;
    let other = other_key(code, mask);
    lemma_decimal_is_clean(27, 0x3b);
    lemma_decimal_is_clean(27, 0x7e);
    lemma_decimal_is_clean(27, 0x75);
    lemma_two_params(mask, code);
    lemma_two_params_clean(mask, code, 0x7e);
    lemma_two_params_clean(mask, code, 0x75);
    law_fields(decimal_bytes(27), inner, 0x3b, 0);
    law_fields(decimal_bytes(27), inner, 0x3b, 1);
    law_fields(decimal_bytes(27), inner, 0x3b, 2);
    lemma_numeric(others, 0, 27, u32::MAX as nat);
    lemma_numeric(others, 1, mask, u16::MAX as nat);
    lemma_numeric(others, 2, code, u32::MAX as nat);
    let n = decimal_bytes(27).len() as int;
    assert forall|i: int| 0 <= i < others.len() implies others[i] != 0x7e && others[i] != 0x75 by {
        if i < n {
            assert(others[i] == decimal_bytes(27)[i]);
            assert(decimal_bytes(27).contains(decimal_bytes(27)[i]));
        } else if i > n {
            assert(others[i] == inner[i - n - 1]);
            assert(inner.contains(inner[i - n - 1]));
        }
    }
    lemma_csi_params(others, 0x7e, seq![]);
    assert(other =~= seq![0x1bu8, 0x5b] + others + seq![0x7eu8] + Seq::<u8>::empty());
    lemma_index_of_byte(other, 0x75);
    assert forall|i: int| 0 <= i < other.len() implies other[i] != 0x75 by {
        if 2 <= i < other.len() - 1 {
            assert(other[i] == others[i - 2]);
        }
    }
    assert(index_of_byte(other, 0x75) == other.len());
}

/// Any other key is not the chord: one of another letter, or one without
/// Control.
pub proof fn law_other_keys_are_not_the_chord(raw: u8, code: nat, mask: nat)
    requires
        0x01 <= raw <= 0x1a,
        code <= u32::MAX,
        1 <= mask <= u16::MAX,
        code != raw,
        ((mask - 1) / 4) % 2 == 0 || (code != 0x60 + raw && code != 0x40 + raw),
    ensures
        encoded_len(csi_u_key(code, mask), seq![raw]) == 0,
        encoded_len(other_key(code, mask), seq![raw]) == 0,
{
    lemma_other_key(code, mask);
    let params = two_params(code, mask);
    let key = csi_u_key(code, mask);
    lemma_two_params(code, mask);
    lemma_two_params_clean(code, mask, 0x75);
    lemma_two_params_clean(code, mask, 0x7e);
    lemma_csi_params(params, 0x75, seq![]);
    lemma_numeric(params, 0, code, u32::MAX as nat);
    lemma_numeric(params, 1, mask, u16::MAX as nat);
    assert(key =~= seq![0x1bu8, 0x5b] + params + seq![0x75u8] + Seq::<u8>::empty());
    lemma_index_of_byte(key, 0x7e);
    assert forall|i: int| 0 <= i < key.len() implies key[i] != 0x7e by {
        if 2 <= i < key.len() - 1 {
            assert(key[i] == params[i - 2]);
            assert(params.contains(params[i - 2]));
        }
    }
    assert(index_of_byte(key, 0x7e) == key.len());
}

/// Bytes other than long forms of the chord are taken as they are: all of them
/// where the chord is not a single Ctrl-letter, and any byte but an escape.
pub proof fn law_other_bytes_are_kept(bytes: Seq<u8>, chord: Seq<u8>, byte: u8)
    ensures
        normalized(seq![], chord).len() == 0,
        chord.len() != 1 || chord[0] == 0 || chord[0] > 0x1a ==> normalized(bytes, chord) == bytes,
        byte != 0x1b ==> normalized(seq![byte] + bytes, chord) == seq![byte] + normalized(
            bytes,
            chord,
        ),
    decreases bytes.len(),
{
    let s = seq![byte] + bytes;
    assert(s.skip(1) =~= bytes);
    if byte != 0x1b {
        assert(s[0] == byte);
    }
    if bytes.len() > 0 {
        law_other_bytes_are_kept(bytes.skip(1), chord, byte);
        assert(seq![bytes[0]] + bytes.skip(1) =~= bytes);
    }
}

/// A trace shows each byte as two hexadecimal digits, with a space between
/// bytes.
pub proof fn law_bytes_are_traced(bytes: Seq<u8>, byte: u8)
    ensures
        hex_text(seq![]).len() == 0,
        bytes.len() > 0 ==> hex_text(bytes.push(byte)) == hex_text(bytes).push(' ') + hex_text(
            seq![byte],
        ),
        hex_text(seq![byte]).len() == 2,
        byte / 16 < 10 ==> hex_text(seq![byte])[0] as int == 0x30 + byte / 16,
        byte / 16 >= 10 ==> hex_text(seq![byte])[0] as int == 0x61 + byte / 16 - 10,
        byte % 16 < 10 ==> hex_text(seq![byte])[1] as int == 0x30 + byte % 16,
        byte % 16 >= 10 ==> hex_text(seq![byte])[1] as int == 0x61 + byte % 16 - 10,
        bytes.len() <= 64 ==> trace_text(bytes) == hex_text(bytes),
        bytes.len() > 64 ==> trace_text(bytes) == hex_text(bytes.take(64)) + " ... +"@ + decimal(
            (bytes.len() - 64) as nat,
        ) + " bytes"@,
{
    assert(bytes.push(byte).drop_last() =~= bytes);
    assert(seq![byte].drop_last().len() == 0);
    assert(hex_text(seq![byte].drop_last()).len() == 0);
}

/// Parses a terminal-specific Ctrl-letter encoding for the configured detach chord.
pub fn parse_ctrl_detach_encoding(bytes: &[u8], detach_chord: &[u8]) -> (r: Option<
    CtrlDetachEncodingMatch,
>)
    ensures
        match r {
            Some(m) => {
                &&& encoded_len(bytes@, detach_chord@) == m.consumed
                &&& 0 < m.consumed <= bytes@.len()
                &&& ctrl_letter(detach_chord@) == Some(m.normalized)
            },
            None => encoded_len(bytes@, detach_chord@) == 0,
        },
{
    let raw = match ctrl_letter_detach_chord(detach_chord) {
        Some(raw) => raw,
        None => {
            return None;
        },
    };
    match parse_csi_u_detach_chord(bytes, raw) {
        Some(m) => Some(m),
        None => parse_xterm_modify_other_keys_detach_chord(bytes, raw),
    }
}

/// Normalizes all complete Ctrl-letter detach encodings in `bytes`.
pub fn normalize_attach_detach_input(bytes: &[u8], detach_chord: &[u8]) -> (out: Vec<u8>)
    ensures
        out@ == normalized(bytes@, detach_chord@),
{
    let mut out: Vec<u8> = Vec::with_capacity(bytes.len());
    let mut idx: usize = 0;
    assert(bytes@.skip(0) == bytes@);
    while idx < bytes.len()
        invariant
            idx <= bytes@.len(),
            normalized(bytes@, detach_chord@) == out@ + normalized(
                bytes@.skip(idx as int),
                detach_chord@,
            ),
        decreases bytes@.len() - idx,
    {
        let rest = slice_subrange(bytes, idx, bytes.len());
        assert(rest@ == bytes@.skip(idx as int));
        let ghost before = out@;
        match parse_ctrl_detach_encoding(rest, detach_chord) {
            Some(m) => {
                out.push(m.normalized);
                assert(rest@.skip(m.consumed as int) == bytes@.skip(idx + m.consumed));
                idx = idx + m.consumed;
            },
            None => {
                out.push(bytes[idx]);
                assert(rest@.skip(1) == bytes@.skip(idx + 1));
                idx = idx + 1;
            },
        }
        assert(out@ + normalized(bytes@.skip(idx as int), detach_chord@) == before + normalized(
            rest@,
            detach_chord@,
        ));
    }
    assert(out@ + Seq::<u8>::empty() == out@);
    out
}

/// The ASCII code of a hexadecimal digit, in lower case.
pub open spec fn hex_digit(d: int) -> u8 {
    if d < 10 {
        (0x30 + d) as u8
    } else {
        (0x57 + d) as u8
    }
}

/// Bytes as two hexadecimal digits each, separated by spaces.
pub open spec fn hex_text(bytes: Seq<u8>) -> Seq<char>
    decreases bytes.len(),
{
    if bytes.len() == 0 {
        seq![]
    } else {
        let b = bytes.last() as int;
        let pair = ascii_chars(seq![hex_digit(b / 16), hex_digit(b % 16)]);
        if bytes.len() == 1 {
            pair
        } else {
            hex_text(bytes.drop_last()).push(' ') + pair
        }
    }
}

/// What a trace shows of `bytes`: at most the preview, then how many are left out.
pub open spec fn trace_text(bytes: Seq<u8>) -> Seq<char> {
    if bytes.len() > TRACE_PREVIEW_LIMIT {
        hex_text(bytes.take(TRACE_PREVIEW_LIMIT as int)) + " ... +"@ + decimal(
            (bytes.len() - TRACE_PREVIEW_LIMIT) as nat,
        ) + " bytes"@
    } else {
        hex_text(bytes)
    }
}

/// Formats raw terminal bytes for opt-in trace diagnostics.
pub fn format_attach_bytes_for_trace(bytes: &[u8]) -> (formatted: String)
    ensures
        formatted@ == trace_text(bytes@),
{
    let mut formatted = String::new();
    let shown: usize = if bytes.len() > TRACE_PREVIEW_LIMIT {
        TRACE_PREVIEW_LIMIT
    } else {
        bytes.len()
    };
    let mut idx: usize = 0;
    while idx < shown
        invariant
            idx <= shown <= bytes@.len(),
            formatted@ == hex_text(bytes@.take(idx as int)),
        decreases shown - idx,
    {
        let ghost before = formatted@;
        if idx > 0 {
            formatted.push(' ');
        }
        let byte = bytes[idx];
        formatted.push(hex_char(byte / 16));
        formatted.push(hex_char(byte % 16));
        proof {
            let longer = bytes@.take(idx + 1);
            assert(longer.drop_last() == bytes@.take(idx as int));
            assert(longer.last() == byte);
            assert(formatted@ =~= hex_text(longer));
        }
        idx = idx + 1;
    }
    if bytes.len() > TRACE_PREVIEW_LIMIT {
        formatted.append(" ... +");
        push_decimal(&mut formatted, (bytes.len() - TRACE_PREVIEW_LIMIT) as u64);
        formatted.append(" bytes");
    } else {
        assert(bytes@.take(idx as int) == bytes@);
    }
    formatted
}

fn hex_char(d: u8) -> (c: char)
    requires
        d < 16,
    ensures
        c == hex_digit(d as int) as char,
{
    if d < 10 {
        (0x30 + d) as char
    } else {
        (0x57 + d) as char
    }
}

fn parse_csi_u_detach_chord(bytes: &[u8], raw_chord: u8) -> (r: Option<CtrlDetachEncodingMatch>)
    requires
        0x01 <= raw_chord <= 0x1a,
    ensures
        match r {
            Some(m) => {
                &&& csi_params(bytes@, 0x75) matches Some(params)
                &&& csi_u_names(params, raw_chord)
                &&& m.normalized == raw_chord
                &&& m.consumed == index_of_byte(bytes@, 0x75) + 1
                &&& m.consumed <= bytes@.len()
            },
            None => !(csi_params(bytes@, 0x75) matches Some(params) && csi_u_names(
                params,
                raw_chord,
            )),
        },
{
    let params = match params_before(bytes, 0x75) {
        Some(params) => params,
        None => {
            return None;
        },
    };
    let end = find_byte(bytes, 0x75);
    assert(end < bytes.len());
    let key_code = match read_param(params, 0, u32::MAX) {
        Some(key_code) => key_code,
        None => {
            return None;
        },
    };
    let modifier_mask = read_param(params, 1, 0xffff);
    if csi_key_code_matches_detach_chord(key_code, modifier_mask, raw_chord) {
        Some(CtrlDetachEncodingMatch { normalized: raw_chord, consumed: end + 1 })
    } else {
        None
    }
}

fn parse_xterm_modify_other_keys_detach_chord(bytes: &[u8], raw_chord: u8) -> (r: Option<
    CtrlDetachEncodingMatch,
>)
    requires
        0x01 <= raw_chord <= 0x1a,
    ensures
        match r {
            Some(m) => {
                &&& csi_params(bytes@, 0x7e) matches Some(params)
                &&& modify_other_keys_names(params, raw_chord)
                &&& m.normalized == raw_chord
                &&& m.consumed == index_of_byte(bytes@, 0x7e) + 1
                &&& m.consumed <= bytes@.len()
            },
            None => !(csi_params(bytes@, 0x7e) matches Some(params) && modify_other_keys_names(
                params,
                raw_chord,
            )),
        },
{
    let params = match params_before(bytes, 0x7e) {
        Some(params) => params,
        None => {
            return None;
        },
    };
    let end = find_byte(bytes, 0x7e);
    assert(end < bytes.len());
    match read_param(params, 0, u32::MAX) {
        Some(introducer) => {
            if introducer != 27 {
                return None;
            }
        },
        None => {
            return None;
        },
    }
    let modifier_mask = match read_param(params, 1, 0xffff) {
        Some(mask) => mask,
        None => {
            return None;
        },
    };
    let key_code = match read_param(params, 2, u32::MAX) {
        Some(key_code) => key_code,
        None => {
            return None;
        },
    };
    if nth_field(params, 0x3b, 3).is_some() || !modifier_mask_has_control(modifier_mask) {
        return None;
    }
    if key_code_matches_letter_or_raw_ctrl(key_code, raw_chord) {
        Some(CtrlDetachEncodingMatch { normalized: raw_chord, consumed: end + 1 })
    } else {
        None
    }
}

fn params_before<'a>(bytes: &'a [u8], terminator: u8) -> (params: Option<&'a [u8]>)
    requires
        terminator != 0x1b,
        terminator != 0x5b,
    ensures
        match params {
            Some(p) => csi_params(bytes@, terminator) == Some(p@),
            None => csi_params(bytes@, terminator) is None,
        },
{
    if bytes.len() < 2 || bytes[0] != 0x1b || bytes[1] != 0x5b {
        return None;
    }
    let end = find_byte(bytes, terminator);
    if end == bytes.len() {
        return None;
    }
    proof {
        lemma_index_of_byte(bytes@, terminator);
        assert(end >= 2);
    }
    Some(slice_subrange(bytes, 2, end))
}

fn read_param(params: &[u8], k: usize, max: u32) -> (value: Option<u32>)
    ensures
        match value {
            Some(v) => numeric_param(params@, k as nat, max as nat) == Some(v as nat) && v <= max,
            None => numeric_param(params@, k as nat, max as nat) is None,
        },
{
    match nth_field(params, 0x3b, k) {
        Some(piece) => {
            let end = find_byte(piece, 0x3a);
            let main = slice_subrange(piece, 0, end);
            assert(main@ == piece@.take(end as int));
            read_decimal(main, max)
        },
        None => None,
    }
}

fn csi_key_code_matches_detach_chord(
    key_code: u32,
    modifier_mask: Option<u32>,
    raw_chord: u8,
) -> (r: bool)
    requires
        0x01 <= raw_chord <= 0x1a,
    ensures
        r == (key_code == raw_chord || (modifier_mask is Some && mask_has_control(
            modifier_mask->0 as nat,
        ) && is_letter_of(key_code as nat, raw_chord))),
{
    if key_code == raw_chord as u32 {
        return true;
    }
    match modifier_mask {
        Some(mask) => modifier_mask_has_control(mask) && key_code_matches_letter_or_raw_ctrl(
            key_code,
            raw_chord,
        ),
        None => false,
    }
}

fn key_code_matches_letter_or_raw_ctrl(key_code: u32, raw_chord: u8) -> (r: bool)
    requires
        0x01 <= raw_chord <= 0x1a,
    ensures
        r == is_letter_of(key_code as nat, raw_chord),
{
    let expected_lower = (0x60 + raw_chord) as u32;
    let expected_upper = (0x40 + raw_chord) as u32;
    key_code == expected_lower || key_code == expected_upper || key_code == raw_chord as u32
}

fn ctrl_letter_detach_chord(detach_chord: &[u8]) -> (r: Option<u8>)
    ensures
        r == ctrl_letter(detach_chord@),
{
    if detach_chord.len() == 1 && detach_chord[0] >= 0x01 && detach_chord[0] <= 0x1a {
        Some(detach_chord[0])
    } else {
        None
    }
}

fn modifier_mask_has_control(mask: u32) -> (r: bool)
    ensures
        r == mask_has_control(mask as nat),
{
    if mask == 0 {
        return false;
    }
    let bits = mask - 1;
    assert((bits & 4 != 0) == ((bits / 4) % 2 == 1)) by (bit_vector);
    bits & 4 != 0
}

} // verus!
