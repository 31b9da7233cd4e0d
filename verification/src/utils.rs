//! Small helpers: ANSI styling and mention parsing.
use vstd::prelude::*;
use vstd::utf8::{
    encode_utf8, encode_utf8_valid_utf8, is_ascii_chars, is_ascii_chars_encode_utf8,
    is_char_boundary, is_char_boundary_iff_not_is_continuation_byte,
};

use crate::text::{chars_of, decimal_nat, digit_char, push_char, push_decimal_u64};

pub mod ansi_color;

verus! {

/// Whether byte `b` is an ASCII decimal digit.
pub open spec fn is_digit_byte(b: u8) -> bool {
    48 <= b <= 57
}

/// The number written by the decimal digits `d`.
pub open spec fn digits_value(d: Seq<u8>) -> nat
    decreases d.len(),
{
    if d.len() == 0 {
        0
    } else {
        digits_value(d.drop_last()) * 10 + (d.last() - 48) as nat
    }
}

/// What parsing the ASCII digits `d` as a non-zero `u64` gives: `None` unless
/// `d` is one or more digits naming a value from 1 to `u64::MAX`.
pub open spec fn parse_digits(d: Seq<u8>) -> Option<u64> {
    if d.len() > 0 && (forall|i: int| 0 <= i < d.len() ==> is_digit_byte(#[trigger] d[i])) && 0
        < digits_value(d) <= u64::MAX {
        Some(digits_value(d) as u64)
    } else {
        None
    }
}

/// What parsing `s` as a non-zero `u64` gives (`NonZeroU64::from_str`, which
/// is what a user id's `from_str` does): an optional `+`, then one or more
/// ASCII digits, naming a value from 1 to `u64::MAX`.
pub open spec fn parse_nonzero_u64(s: Seq<u8>) -> Option<u64> {
    if s.len() > 0 && s[0] == 43 {
        parse_digits(s.drop_first())
    } else {
        parse_digits(s)
    }
}

/// The user id that a mention `<@digits>` with UTF-8 bytes `b` names: bytes
/// `2 .. len - 1` parsed as a non-zero id, when that range is a valid slice.
pub open spec fn mention_spec(b: Seq<u8>) -> Option<u64> {
    let n = b.len() as int;
    if 2 <= n - 1 && is_char_boundary(b, 2) && is_char_boundary(b, n - 1) {
        parse_nonzero_u64(b.subrange(2, n - 1))
    } else {
        None
    }
}

/// A prefix of a run of digits names no larger number than the whole run.
proof fn lemma_digits_value_prefix(d: Seq<u8>, j: int)
    requires
        0 <= j <= d.len(),
        forall|i: int| 0 <= i < d.len() ==> is_digit_byte(#[trigger] d[i]),
    ensures
        digits_value(d.take(j)) <= digits_value(d),
    decreases d.len() - j,
{
    if j < d.len() {
        lemma_digits_value_prefix(d, j + 1);
        assert(d.take(j + 1).drop_last() =~= d.take(j));
    } else {
        assert(d.take(j) =~= d);
    }
}

/// Parses `b[from..to]` as `NonZeroU64::from_str` does.
fn parse_nonzero_u64_bytes(b: &[u8], from: usize, to: usize) -> (r: Option<u64>)
    requires
        from <= to <= b@.len(),
    ensures
        r == parse_nonzero_u64(b@.subrange(from as int, to as int)),
{
    let ghost s = b@.subrange(from as int, to as int);
    let mut start = from;
    if from < to && b[from] == 43u8 {
        start = from + 1;
    }
    let ghost d = b@.subrange(start as int, to as int);
    proof {
        if from < to && b@[from as int] == 43u8 {
            assert(s.drop_first() =~= d);
        } else {
            assert(s =~= d);
        }
    }
    if start == to {
        return None;
    }
    let mut acc: u64 = 0;
    let mut i = start;
    proof {
        assert(d.take(0) =~= Seq::<u8>::empty());
    }
    while i < to
        invariant
            from <= start <= i <= to <= b@.len(),
            d == b@.subrange(start as int, to as int),
            d.len() > 0,
            parse_nonzero_u64(b@.subrange(from as int, to as int)) == parse_digits(d),
            forall|k: int| 0 <= k < i - start ==> is_digit_byte(#[trigger] d[k]),
            acc == digits_value(d.take(i - start)),
        decreases to - i,
    {
        let c = b[i];
        if c < 48u8 || c > 57u8 {
            assert(!is_digit_byte(d[i - start]));
            return None;
        }
        let ghost k = i - start;
        proof {
            assert(d.take(k + 1).drop_last() =~= d.take(k));
            assert(d.take(k + 1).last() == c);
        }
        let digit = (c - 48u8) as u64;
        if acc > 1844674407370955161u64 || (acc == 1844674407370955161u64 && digit > 5) {
            proof {
                assert(digits_value(d.take(k + 1)) > u64::MAX);
                if forall|t: int| 0 <= t < d.len() ==> is_digit_byte(#[trigger] d[t]) {
                    lemma_digits_value_prefix(d, k + 1);
                }
            }
            return None;
        }
        acc = acc * 10 + digit;
        i += 1;
    }
    proof {
        assert(d.take(d.len() as int) =~= d);
    }
    if acc == 0 {
        None
    } else {
        Some(acc)
    }
}


/// The user id named by a mention such as `<@1234>`: the text between the
/// first two bytes and the last byte, parsed as a non-zero id. `None` when that
/// slice is not on character boundaries, or is not a valid id. (On an empty
/// message the slice's end wraps around in a release build, which also gives
/// `None`.)
pub fn parse_mention(msg: String) -> (r: Option<u64>)
    ensures
        r == mention_spec(encode_utf8(msg@)),
{
    let s = msg.as_str();
    let b = s.as_bytes();
    let n = b.len();
    assert(b@ == encode_utf8(msg@));
    if n < 3 {
        return None;
    }
    if !s.is_char_boundary(2) || !s.is_char_boundary(n - 1) {
        return None;
    }
    parse_nonzero_u64_bytes(b, 2, n - 1)
}


/// `n` in decimal, with zeros in front up to `width` digits (as `{:0w}`
/// writes it).
pub open spec fn padded(n: nat, width: nat) -> Seq<char> {
    let d = decimal_nat(n);
    if d.len() >= width {
        d
    } else {
        Seq::new((width - d.len()) as nat, |_i: int| '0') + d
    }
}

/// Appends `n` in decimal, with zeros in front up to `width` digits.
pub fn push_padded(s: &mut String, n: u64, width: usize)
    ensures
        final(s)@ == old(s)@ + padded(n as nat, width as nat),
{
    let mut digits = String::new();
    push_decimal_u64(&mut digits, n);
    assert(digits@ =~= decimal_nat(n as nat));
    let len = chars_of(digits.as_str()).len();
    let mut k = len;
    while k < width
        invariant
            len <= k,
            k <= width || len >= width,
            len >= width ==> k == len,
            len == decimal_nat(n as nat).len(),
            s@ == old(s)@ + Seq::new((k - len) as nat, |_i: int| '0'),
        decreases width - k,
    {
        push_char(s, '0');
        k += 1;
        assert(s@ =~= old(s)@ + Seq::new((k - len) as nat, |_i: int| '0'));
    }
    s.append(digits.as_str());
    proof {
        if len >= width {
            assert(k == len);
            assert(Seq::new(0nat, |_i: int| '0') =~= Seq::<char>::empty());
            assert(s@ =~= old(s)@ + padded(n as nat, width as nat));
        } else {
            assert(k == width);
            assert(s@ =~= old(s)@ + padded(n as nat, width as nat));
        }
    }
}

/// A time of day as debug lines are stamped with it: `[hh:mm:ss:mmm]`.
pub open spec fn timestamp_spec(hour: nat, minute: nat, second: nat, millisecond: nat) -> Seq<char> {
    "["@ + padded(hour, 2) + ":"@ + padded(minute, 2) + ":"@ + padded(second, 2) + ":"@
        + padded(millisecond, 3) + "]"@
}

/// The stamp of a debug line for the given time of day (see `timestamp_spec`).
pub fn format_timestamp(hour: u8, minute: u8, second: u8, millisecond: u16) -> (r: String)
    ensures
        r@ == timestamp_spec(hour as nat, minute as nat, second as nat, millisecond as nat),
{
    let mut r = String::new();
    r.append("[");
    push_padded(&mut r, hour as u64, 2);
    r.append(":");
    push_padded(&mut r, minute as u64, 2);
    r.append(":");
    push_padded(&mut r, second as u64, 2);
    r.append(":");
    push_padded(&mut r, millisecond as u64, 3);
    r.append("]");
    proof {
        assert(r@ =~= timestamp_spec(hour as nat, minute as nat, second as nat, millisecond as nat));
    }
    r
}

/// A digit character's code is `48` plus the digit.
proof fn lemma_digit_char(d: nat)
    requires
        d < 10,
    ensures
        digit_char(d) as u32 == 48 + d,
        digit_char(d) as u8 == 48 + d,
{
    assert(((48 + d) as u8) as u32 == 48 + d);
}

/// The decimal digits of a number are ASCII digits, and there is at least one.
proof fn lemma_decimal_digits(n: nat)
    ensures
        decimal_nat(n).len() >= 1,
        forall|i: int| 0 <= i < decimal_nat(n).len() ==> 48 <= (#[trigger] decimal_nat(n)[i]) as u32 <= 57,
    decreases n,
{
    lemma_digit_char(n % 10);
    if n >= 10 {
        lemma_decimal_digits(n / 10);
        let d = decimal_nat(n);
        assert forall|i: int| 0 <= i < d.len() implies 48 <= (#[trigger] d[i]) as u32 <= 57 by {
            if i < d.len() - 1 {
                assert(d[i] == decimal_nat(n / 10)[i]);
            } else {
                assert(d[i] == digit_char(n % 10));
            }
        }
    }
}

/// The bytes of the decimal digits of `n` read back as `n`.
proof fn lemma_decimal_digits_value(n: nat)
    ensures
        digits_value(decimal_nat(n).map_values(|c: char| c as u8)) == n,
    decreases n,
{
    let bytes = decimal_nat(n).map_values(|c: char| c as u8);
    lemma_digit_char(n % 10);
    assert(digits_value(bytes) == digits_value(bytes.drop_last()) * 10 + (bytes.last() - 48) as nat);
    if n < 10 {
        assert(bytes.drop_last() =~= Seq::<u8>::empty());
        assert(bytes.last() == digit_char(n) as u8);
    } else {
        lemma_decimal_digits_value(n / 10);
        assert(bytes.drop_last() =~= decimal_nat(n / 10).map_values(|c: char| c as u8));
        assert(bytes.last() == digit_char(n % 10) as u8);
    }
}

/// A character with code at most 57 is ASCII.
proof fn lemma_char_ascii(c: char)
    requires
        c as u32 <= 57,
    ensures
        '\0' <= c,
        c <= '\u{7f}',
{
}

/// A mention written as `<@id>` reads back as `id`, for every non-zero id.
pub proof fn lemma_mention_round_trip(id: u64)
    requires
        id > 0,
    ensures
        mention_spec(encode_utf8(seq!['<', '@'] + decimal_nat(id as nat) + seq!['>'])) == Some(id),
{
    let digits = decimal_nat(id as nat);
    lemma_decimal_digits(id as nat);
    lemma_decimal_digits_value(id as nat);
    let chars = seq!['<', '@'] + digits + seq!['>'];
    let m = digits.len() as int;
    assert forall|i: int| 0 <= i < chars.len() implies '\0' <= #[trigger] chars[i] <= '\u{7f}' by {
        if 2 <= i < 2 + m {
            assert(chars[i] == digits[i - 2]);
            assert(48 <= digits[i - 2] as u32 <= 57);
            lemma_char_ascii(digits[i - 2]);
        } else if i < 2 {
            assert(chars[i] == '<' || chars[i] == '@');
        } else {
            assert(chars[i] == '>');
        }
    }
    assert(is_ascii_chars(chars));
    is_ascii_chars_encode_utf8(chars);
    encode_utf8_valid_utf8(chars);
    let b = encode_utf8(chars);
    let n = b.len() as int;
    assert(n == m + 3);
    assert(b[2] == chars[2] as u8 && chars[2] == digits[0]);
    is_char_boundary_iff_not_is_continuation_byte(b, 2);
    assert(b[n - 1] == chars[n - 1] as u8 && chars[n - 1] == '>');
    is_char_boundary_iff_not_is_continuation_byte(b, n - 1);
    let sub = b.subrange(2, n - 1);
    assert forall|i: int| 0 <= i < sub.len() implies sub[i] == digits.map_values(|c: char| c as u8)[i] by {
        assert(sub[i] == b[i + 2]);
        assert(chars[i + 2] == digits[i]);
    }
    assert(sub =~= digits.map_values(|c: char| c as u8));
    assert(sub[0] != 43);
    assert forall|i: int| 0 <= i < sub.len() implies is_digit_byte(#[trigger] sub[i]) by {
        assert(sub[i] == digits[i] as u8);
    }
}

} // verus!
