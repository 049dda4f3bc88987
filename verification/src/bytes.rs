//! Byte-string helpers: searching, splitting, decimal numbers, copying.

use vstd::prelude::*;
use vstd::slice::slice_subrange;

use crate::text::decimal_bytes;

verus! {

/// Index of the first `needle` in `s`, or `s.len()` when it does not occur.
pub open spec fn index_of_byte(s: Seq<u8>, needle: u8) -> nat
    decreases s.len(),
{
    if s.len() == 0 || s[0] == needle {
        0
    } else {
        1 + index_of_byte(s.skip(1), needle)
    }
}

/// `index_of_byte` points at the first occurrence, and at nothing else.
pub proof fn lemma_index_of_byte(s: Seq<u8>, needle: u8)
    ensures
        index_of_byte(s, needle) <= s.len(),
        index_of_byte(s, needle) < s.len() ==> s[index_of_byte(s, needle) as int] == needle,
        forall|i: int| 0 <= i < index_of_byte(s, needle) ==> s[i] != needle,
    decreases s.len(),
{
    if s.len() != 0 && s[0] != needle {
        let rest = s.skip(1);
        lemma_index_of_byte(rest, needle);
        assert forall|i: int| 0 <= i < index_of_byte(s, needle) implies s[i] != needle by {
            if i > 0 {
                assert(s[i] == rest[i - 1]);
            }
        }
    }
}

pub(crate) proof fn lemma_index_of_byte_unique(s: Seq<u8>, needle: u8, at: int)
    requires
        0 <= at <= s.len(),
        at < s.len() ==> s[at] == needle,
        forall|i: int| 0 <= i < at ==> s[i] != needle,
    ensures
        index_of_byte(s, needle) == at,
{
    lemma_index_of_byte(s, needle);
}

/// Finds the first `needle` in `bytes`; the length when there is none.
pub fn find_byte(bytes: &[u8], needle: u8) -> (at: usize)
    ensures
        at == index_of_byte(bytes@, needle),
        at <= bytes@.len(),
{
    let mut i: usize = 0;
    while i < bytes.len() && bytes[i] != needle
        invariant
            i <= bytes@.len(),
            forall|k: int| 0 <= k < i ==> bytes@[k] != needle,
        decreases bytes@.len() - i,
    {
        i = i + 1;
    }
    proof {
        lemma_index_of_byte_unique(bytes@, needle, i as int);
    }
    i
}

/// The `k`-th piece of `s` cut at every `sep`, when there are that many.
pub open spec fn field(s: Seq<u8>, sep: u8, k: nat) -> Option<Seq<u8>>
    decreases k,
{
    let end = index_of_byte(s, sep);
    if k == 0 {
        Some(s.take(end as int))
    } else if end >= s.len() {
        None
    } else {
        field(s.skip(end as int + 1), sep, (k - 1) as nat)
    }
}

/// The `k`-th piece of `bytes` cut at every `sep`, when there are that many.
pub fn nth_field<'a>(bytes: &'a [u8], sep: u8, k: usize) -> (piece: Option<&'a [u8]>)
    ensures
        match piece {
            Some(p) => field(bytes@, sep, k as nat) == Some(p@),
            None => field(bytes@, sep, k as nat) is None,
        },
{
    let mut start: usize = 0;
    let mut left: usize = k;
    assert(bytes@.skip(0) == bytes@);
    loop
        invariant
            start <= bytes@.len(),
            left <= k,
            field(bytes@, sep, k as nat) == field(bytes@.skip(start as int), sep, left as nat),
        decreases left,
    {
        let rest = slice_subrange(bytes, start, bytes.len());
        assert(rest@ == bytes@.skip(start as int));
        let end = find_byte(rest, sep);
        if left == 0 {
            let piece = slice_subrange(rest, 0, end);
            assert(piece@ == rest@.take(end as int));
            return Some(piece);
        }
        if end == rest.len() {
            return None;
        }
        assert(rest@.skip(end + 1) == bytes@.skip(start + end + 1));
        start = start + end + 1;
        left = left - 1;
    }
}

/// Whether every byte of `s` is an ASCII digit.
pub open spec fn all_digits(s: Seq<u8>) -> bool {
    forall|i: int| 0 <= i < s.len() ==> 0x30 <= #[trigger] s[i] <= 0x39
}

/// The number that the digits of `s` write in base ten.
pub open spec fn digits_value(s: Seq<u8>) -> nat
    decreases s.len(),
{
    if s.len() == 0 {
        0
    } else {
        (digits_value(s.drop_last()) * 10 + (s.last() - 0x30)) as nat
    }
}

/// The number written by `s`: an optional plus sign, then at least one digit,
/// the whole at most `max`.
pub open spec fn parse_decimal(s: Seq<u8>, max: nat) -> Option<nat> {
    let digits = if s.len() > 0 && s[0] == 0x2b {
        s.skip(1)
    } else {
        s
    };
    if digits.len() == 0 || !all_digits(digits) || digits_value(digits) > max {
        None
    } else {
        Some(digits_value(digits))
    }
}

proof fn lemma_digits_value_monotone(s: Seq<u8>, n: int)
    requires
        all_digits(s),
        0 <= n <= s.len(),
    ensures
        digits_value(s.take(n)) <= digits_value(s),
    decreases s.len() - n,
{
    if n == s.len() {
        assert(s.take(n) == s);
    } else {
        lemma_digits_value_monotone(s, n + 1);
        let longer = s.take(n + 1);
        assert(longer.drop_last() == s.take(n));
        assert(longer.last() == s[n]);
    }
}

/// Reads the number that `bytes` write, when it is at most `max`.
pub fn read_decimal(bytes: &[u8], max: u32) -> (value: Option<u32>)
    ensures
        match value {
            Some(v) => parse_decimal(bytes@, max as nat) == Some(v as nat),
            None => parse_decimal(bytes@, max as nat) is None,
        },
{
    let first: usize = if bytes.len() > 0 && bytes[0] == 0x2b {
        1
    } else {
        0
    };
    let ghost digits = if bytes@.len() > 0 && bytes@[0] == 0x2b {
        bytes@.skip(1)
    } else {
        bytes@
    };
    if bytes.len() == first {
        return None;
    }
    let mut value: u64 = 0;
    let mut i: usize = first;
    assert(digits.take(0).len() == 0);
    while i < bytes.len()
        invariant
            first <= i <= bytes@.len(),
            first <= 1,
            digits.len() == bytes@.len() - first,
            forall|k: int| 0 <= k < digits.len() ==> #[trigger] digits[k] == bytes@[k + first],
            digits == (if bytes@.len() > 0 && bytes@[0] == 0x2b {
                bytes@.skip(1)
            } else {
                bytes@
            }),
            digits.len() > 0,
            all_digits(digits.take(i - first)),
            value == digits_value(digits.take(i - first)),
            value <= max,
        decreases bytes@.len() - i,
    {
        let b = bytes[i];
        let ghost k = i - first;
        assert(digits[k] == b);
        if b < 0x30 || b > 0x39 {
            assert(!all_digits(digits));
            return None;
        }
        let next = value * 10 + (b - 0x30) as u64;
        proof {
            let longer = digits.take(k + 1);
            assert(longer.drop_last() == digits.take(k));
            assert(longer.last() == b);
            assert(all_digits(longer)) by {
                assert forall|j: int| 0 <= j < longer.len() implies 0x30 <= #[trigger] longer[j]
                    <= 0x39 by {
                    if j < k {
                        assert(longer[j] == digits.take(k)[j]);
                    }
                }
            }
        }
        if next > max as u64 {
            proof {
                if all_digits(digits) {
                    lemma_digits_value_monotone(digits, k + 1);
                }
            }
            return None;
        }
        value = next;
        i = i + 1;
    }
    assert(digits.take(digits.len() as int) == digits);
    Some(value as u32)
}

/// A number that is written out is read back as itself, with or without a plus
/// sign, unless it is larger than what may be read.
pub proof fn law_decimal_is_read_back(n: nat, max: nat)
    ensures
        decimal_bytes(n).len() > 0,
        all_digits(decimal_bytes(n)),
        parse_decimal(decimal_bytes(n), max) == (if n <= max {
            Some(n)
        } else {
            None
        }),
        parse_decimal(seq![0x2bu8] + decimal_bytes(n), max) == parse_decimal(
            decimal_bytes(n),
            max,
        ),
{
    lemma_decimal_value(n);
    let digits = decimal_bytes(n);
    assert(digits[0] != 0x2b);
    assert((seq![0x2bu8] + digits).skip(1) =~= digits);
}

proof fn lemma_decimal_value(n: nat)
    ensures
        decimal_bytes(n).len() > 0,
        all_digits(decimal_bytes(n)),
        digits_value(decimal_bytes(n)) == n,
    decreases n,
{
    let digits = decimal_bytes(n);
    if n < 10 {
        assert(digits.drop_last().len() == 0);
        assert(digits_value(digits.drop_last()) == 0);
        assert(digits.last() == 0x30 + n);
    } else {
        lemma_decimal_value(n / 10);
        let fewer = decimal_bytes(n / 10);
        assert(digits.drop_last() =~= fewer);
        assert(digits.last() == 0x30 + n % 10);
        assert forall|i: int| 0 <= i < digits.len() implies 0x30 <= #[trigger] digits[i] <= 0x39 by {
            if i < fewer.len() {
                assert(digits[i] == fewer[i]);
            }
        }
    }
}

/// Each digit that follows makes a number ten times what it was, plus the digit.
pub proof fn law_digits_count_by_place(s: Seq<u8>, d: u8)
    requires
        0x30 <= d <= 0x39,
    ensures
        digits_value(seq![]) == 0,
        digits_value(s.push(d)) == digits_value(s) * 10 + (d - 0x30),
{
    assert(s.push(d).drop_last() =~= s);
}

/// Cutting at a byte gives the piece before its first occurrence, then the
/// pieces of what follows.
pub proof fn law_fields(first: Seq<u8>, rest: Seq<u8>, sep: u8, k: nat)
    requires
        !first.contains(sep),
    ensures
        field(first, sep, 0) == Some(first),
        field(first, sep, k + 1) is None,
        field(first.push(sep) + rest, sep, 0) == Some(first),
        field(first.push(sep) + rest, sep, k + 1) == field(rest, sep, k),
{
    let all = first.push(sep) + rest;
    assert forall|i: int| 0 <= i < first.len() implies first[i] != sep && all[i] != sep by {
        assert(first.contains(first[i]));
    }
    lemma_index_of_byte_unique(first, sep, first.len() as int);
    assert(all[first.len() as int] == sep);
    lemma_index_of_byte_unique(all, sep, first.len() as int);
    assert(all.take(first.len() as int) =~= first);
    assert(first.take(first.len() as int) =~= first);
    assert(all.skip(first.len() as int + 1) =~= rest);
}

/// Whether the two byte strings are equal.
pub fn same_bytes(a: &[u8], b: &[u8]) -> (r: bool)
    ensures
        r == (a@ == b@),
{
    if a.len() != b.len() {
        return false;
    }
    let mut i: usize = 0;
    while i < a.len()
        invariant
            i <= a@.len(),
            a@.len() == b@.len(),
            forall|k: int| 0 <= k < i ==> a@[k] == b@[k],
        decreases a@.len() - i,
    {
        if a[i] != b[i] {
            assert(a@[i as int] != b@[i as int]);
            return false;
        }
        i = i + 1;
    }
    assert(a@ =~= b@);
    true
}

/// Appends `extra` to `out`.
pub fn push_all(out: &mut Vec<u8>, extra: &[u8])
    ensures
        final(out)@ == old(out)@ + extra@,
{
    out.extend_from_slice(extra);
    assert(out@ =~= old(out)@ + extra@);
}

} // verus!
