//! Writing numbers in decimal, padded with zeros, and the text of a
//! timestamp that is made of them.

use vstd::prelude::*;
use vstd::string::StringExecFns;
use crate::record::Timestamp;

verus! {

/// The character of one decimal digit.
pub open spec fn digit(d: nat) -> char
    recommends
        d < 10,
{
    (0x30 + d) as char
}

/// The decimal digits of `n`, with no leading zero but for `0` itself.
pub open spec fn decimal(n: nat) -> Seq<char>
    decreases n,
{
    if n < 10 {
        seq![digit(n)]
    } else {
        decimal(n / 10).push(digit(n % 10))
    }
}

/// `count` zeros in a row.
pub open spec fn zeros(count: nat) -> Seq<char> {
    Seq::new(count, |i: int| '0')
}

/// The decimal digits of `n` with zeros before them where they are fewer
/// than `width`.
pub open spec fn zero_padded(n: nat, width: nat) -> Seq<char> {
    if decimal(n).len() >= width {
        decimal(n)
    } else {
        zeros((width - decimal(n).len()) as nat) + decimal(n)
    }
}

/// How a year is written: with four digits from 0 to 9999, and with a sign
/// before at least four digits outside of that.
pub open spec fn year_text(year: int) -> Seq<char> {
    if 0 <= year <= 9999 {
        zero_padded(year as nat, 4)
    } else if year < 0 {
        seq!['-'] + zero_padded((-year) as nat, 4)
    } else {
        seq!['+'] + zero_padded(year as nat, 4)
    }
}

/// The second of the minute as it is shown: a leap second is the 60th.
pub open spec fn shown_second(t: Timestamp) -> nat {
    (t.second + t.nanosecond / 1_000_000_000) as nat
}

/// The milliseconds as they are shown: whole ones, within the second.
pub open spec fn shown_millis(t: Timestamp) -> nat {
    (t.nanosecond / 1_000_000 % 1000) as nat
}

/// The text of a timestamp: date, a space, the time on the 24-hour clock,
/// a point and three digits of milliseconds.
pub open spec fn timestamp_text(t: Timestamp) -> Seq<char> {
    year_text(t.year as int) + seq!['-'] + zero_padded(t.month as nat, 2) + seq!['-']
        + zero_padded(t.day as nat, 2) + seq![' '] + zero_padded(t.hour as nat, 2) + seq![':']
        + zero_padded(t.minute as nat, 2) + seq![':'] + zero_padded(shown_second(t), 2)
        + seq!['.'] + zero_padded(shown_millis(t), 3)
}

/// A number below ten to the power of `width` is written with exactly
/// `width` characters.
pub proof fn lemma_padded_width(n: nat, width: nat)
    ensures
        decimal(n).len() >= 1,
        zero_padded(n, width).len() >= width,
        n < 10 ==> decimal(n).len() == 1,
        10 <= n < 100 ==> decimal(n).len() == 2,
        100 <= n < 1000 ==> decimal(n).len() == 3,
        1000 <= n < 10000 ==> decimal(n).len() == 4,
        width >= 1 && n < 10 ==> zero_padded(n, width).len() == width,
        width >= 2 && n < 100 ==> zero_padded(n, width).len() == width,
        width >= 3 && n < 1000 ==> zero_padded(n, width).len() == width,
        width >= 4 && n < 10000 ==> zero_padded(n, width).len() == width,
{
    reveal_with_fuel(decimal, 5);
}

/// The timestamp of a valid instant in the years 0 to 9999 takes 23
/// characters.
pub proof fn lemma_timestamp_width(t: Timestamp)
    requires
        t.well_formed(),
        0 <= t.year <= 9999,
    ensures
        timestamp_text(t).len() == 23,
{
    lemma_padded_width(t.year as nat, 4);
    lemma_padded_width(t.month as nat, 2);
    lemma_padded_width(t.day as nat, 2);
    lemma_padded_width(t.hour as nat, 2);
    lemma_padded_width(t.minute as nat, 2);
    lemma_padded_width(shown_second(t), 2);
    lemma_padded_width(shown_millis(t), 3);
}

/// The character of the decimal digit `d`.
pub fn digit_char(d: u32) -> (c: char)
    requires
        d < 10,
    ensures
        c == digit(d as nat),
{
    match char::from_u32(0x30 + d) {
        Some(c) => c,
        None => '0',
    }
}

/// Ten to the power of `k`.
pub open spec fn ten_pow(k: nat) -> nat
    decreases k,
{
    if k == 0 {
        1
    } else {
        10 * ten_pow((k - 1) as nat)
    }
}

/// A number below ten to the power of `k` has at most `k` digits.
pub proof fn lemma_decimal_len_bound(n: nat, k: nat)
    requires
        k >= 1,
        n < ten_pow(k),
    ensures
        decimal(n).len() <= k,
    decreases k,
{
    if n >= 10 {
        assert(k >= 2) by {
            reveal_with_fuel(ten_pow, 2);
        }
        lemma_decimal_len_bound(n / 10, (k - 1) as nat);
    }
}

/// How many decimal digits `n` has.
pub fn decimal_len(n: u64) -> (len: usize)
    ensures
        len == decimal(n as nat).len(),
        1 <= len <= 20,
    decreases n,
{
    proof {
        assert(ten_pow(20) == 100_000_000_000_000_000_000) by {
            reveal_with_fuel(ten_pow, 21);
        }
        lemma_decimal_len_bound(n as nat, 20);
    }
    if n < 10 {
        1
    } else {
        let shorter = decimal_len(n / 10);
        1 + shorter
    }
}

/// Appends the decimal digits of `n` to `out`.
pub fn push_decimal(out: &mut String, n: u64)
    ensures
        final(out)@ == old(out)@ + decimal(n as nat),
    decreases n,
{
    if n < 10 {
        out.push(digit_char(n as u32));
        assert(out@ =~= old(out)@ + decimal(n as nat));
    } else {
        push_decimal(out, n / 10);
        out.push(digit_char((n % 10) as u32));
        assert(out@ =~= old(out)@ + decimal(n as nat));
    }
}

/// Appends the decimal digits of `n` to `out`, with zeros before them
/// where they are fewer than `width`.
pub fn push_zero_padded(out: &mut String, n: u64, width: usize)
    ensures
        final(out)@ == old(out)@ + zero_padded(n as nat, width as nat),
{
    let len = decimal_len(n);
    let mut written: usize = len;
    while written < width
        invariant
            len == decimal(n as nat).len(),
            len <= written,
            len >= width ==> written == len,
            len < width ==> written <= width,
            out@ == old(out)@ + zeros((written - len) as nat),
        decreases width - written,
    {
        out.push('0');
        written = written + 1;
        assert(out@ =~= old(out)@ + zeros((written - len) as nat));
    }
    push_decimal(out, n);
    assert(out@ =~= old(out)@ + zero_padded(n as nat, width as nat));
}

/// Appends a year to `out`.
pub fn push_year(out: &mut String, year: i32)
    ensures
        final(out)@ == old(out)@ + year_text(year as int),
{
    if 0 <= year && year <= 9999 {
        push_zero_padded(out, year as u64, 4);
    } else if year < 0 {
        out.push('-');
        let magnitude: u64 = (-(year as i64)) as u64;
        push_zero_padded(out, magnitude, 4);
        assert(out@ =~= old(out)@ + year_text(year as int));
    } else {
        out.push('+');
        push_zero_padded(out, year as u64, 4);
        assert(out@ =~= old(out)@ + year_text(year as int));
    }
}

/// Writes a timestamp as `YYYY-MM-DD HH:MM:SS.mmm`.
pub fn render_timestamp(t: &Timestamp) -> (text: String)
    ensures
        text@ == timestamp_text(*t),
{
    let mut text = String::new();
    push_year(&mut text, t.year);
    text.push('-');
    push_zero_padded(&mut text, t.month as u64, 2);
    text.push('-');
    push_zero_padded(&mut text, t.day as u64, 2);
    text.push(' ');
    push_zero_padded(&mut text, t.hour as u64, 2);
    text.push(':');
    push_zero_padded(&mut text, t.minute as u64, 2);
    text.push(':');
    let second: u64 = t.second as u64 + (t.nanosecond / 1_000_000_000) as u64;
    push_zero_padded(&mut text, second, 2);
    text.push('.');
    push_zero_padded(&mut text, (t.nanosecond / 1_000_000 % 1000) as u64, 3);
    assert(text@ =~= timestamp_text(*t));
    text
}

} // verus!
