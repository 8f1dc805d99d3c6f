//! Cutting long identifiers down to a budget of UTF-16 code units, keeping
//! the tail, which is the part that tells one class or thread from another.

use vstd::prelude::*;
use vstd::slice::slice_subrange;
use vstd::utf8::{char_is_scalar, char_u32_cast};
use crate::utf16::{
    char_units, decode_lossy, encode, encode_utf16, first_char, first_width,
    from_utf16_java_lossy, is_high_surrogate, is_low_surrogate, is_surrogate,
    lemma_encode_concat, lemma_encode_one,
};

verus! {

/// The widest a logger name may be printed, in UTF-16 code units.
pub const LOGGER_NAME_BUDGET: usize = 40;

/// The widest a thread name may be printed, in UTF-16 code units.
pub const THREAD_NAME_BUDGET: usize = 15;

/// The last `count` items of `s`, or all of `s` where it has no more than that.
pub open spec fn tail<T>(s: Seq<T>, count: nat) -> Seq<T> {
    if count >= s.len() {
        s
    } else {
        s.skip(s.len() - count)
    }
}

/// What an identifier is cut down to: its encoding loses all but the last
/// `budget` units, and what is left is decoded again, lossily.
pub open spec fn abbreviated(name: Seq<char>, budget: nat) -> Seq<char> {
    decode_lossy(tail(encode(name), budget))
}

/// The units that are left of a tail once a leading low surrogate, cut off
/// from its partner, has given way to a `?`.
pub open spec fn repaired(units: Seq<u16>) -> Seq<u16> {
    if units.len() > 0 && is_low_surrogate(units[0]) {
        units.update(0, 0x3Fu16)
    } else {
        units
    }
}

/// Decoding undoes encoding: well-formed UTF-16 loses nothing.
pub proof fn lemma_decode_encode(s: Seq<char>)
    ensures
        decode_lossy(encode(s)) == s,
    decreases s.len(),
{
    let u = encode(s);
    if s.len() == 0 {
        assert(decode_lossy(u) =~= s);
    } else {
        let c = s[0];
        let v = c as u32;
        let rest = encode(s.skip(1));
        char_is_scalar(c);
        char_u32_cast(c, v);
        lemma_decode_encode(s.skip(1));
        assert(u =~= char_units(c) + rest);
        if v < 0x10000 {
            assert(u[0] == v as u16);
            assert(!is_surrogate(u[0]));
            assert(first_width(u) == 1);
            assert(first_char(u) == c);
            assert(u.skip(1) =~= rest);
        } else {
            let w = (v - 0x10000) as u32;
            assert(w / 0x400 <= 0x3FF && w % 0x400 <= 0x3FF && (w / 0x400) * 0x400 + w % 0x400
                == w) by (bit_vector)
                requires
                    w <= 0xFFFFF,
            ;
            assert(is_high_surrogate(u[0]));
            assert(is_low_surrogate(u[1]));
            assert(first_width(u) == 2);
            assert(first_char(u) == c);
            assert(u.skip(2) =~= rest);
        }
        assert(seq![c] + s.skip(1) =~= s);
    }
}

/// The units of the first decoded character are as many as the units it
/// was decoded from.
pub proof fn lemma_first_char_width(units: Seq<u16>)
    requires
        units.len() > 0,
    ensures
        char_units(first_char(units)).len() == first_width(units),
        1 <= first_width(units) <= units.len(),
{
    if !is_surrogate(units[0]) {
    } else if first_width(units) == 2 {
        let h = (units[0] - 0xD800) as int;
        let l = (units[1] - 0xDC00) as int;
        assert(0x10000 <= 0x10000 + h * 0x400 + l <= 0x10FFFF) by (nonlinear_arith)
            requires
                0 <= h <= 0x3FF,
                0 <= l <= 0x3FF,
        ;
    } else {
    }
}

/// Lossy decoding keeps the count of code units: each `?` takes the place of
/// exactly one unit, and nothing is dropped.
pub proof fn lemma_decode_keeps_length(units: Seq<u16>)
    ensures
        encode(decode_lossy(units)).len() == units.len(),
    decreases units.len(),
{
    if units.len() > 0 {
        let w = first_width(units);
        lemma_first_char_width(units);
        lemma_decode_keeps_length(units.skip(w));
        lemma_encode_concat(seq![first_char(units)], decode_lossy(units.skip(w)));
        lemma_encode_one(first_char(units));
    }
}

/// Where a cut falls in an encoding: either between two characters, so that
/// what follows is the encoding of a suffix of the text, or inside a
/// surrogate pair, so that what follows is a low surrogate and then the
/// encoding of a suffix. The suffix is returned.
pub proof fn lemma_cut_shape(s: Seq<char>, k: int) -> (rest: Seq<char>)
    requires
        0 <= k <= encode(s).len(),
    ensures
        encode(s).skip(k) == encode(rest) || (k < encode(s).len() && is_low_surrogate(
            encode(s)[k],
        ) && encode(s).skip(k) == seq![encode(s)[k]] + encode(rest)),
    decreases s.len(),
{
    let u = encode(s);
    if k == 0 {
        assert(u.skip(0) =~= u);
        s
    } else {
        let c = s[0];
        let v = c as u32;
        char_is_scalar(c);
        let first = char_units(c);
        let after = encode(s.skip(1));
        assert(u =~= first + after);
        if k >= first.len() {
            let rest = lemma_cut_shape(s.skip(1), k - first.len());
            assert(u.skip(k) =~= after.skip(k - first.len()));
            if k < u.len() {
                assert(u[k] == after[k - first.len()]);
            }
            rest
        } else {
            let w = (v - 0x10000) as u32;
            assert(w % 0x400 <= 0x3FF) by (bit_vector);
            assert(is_low_surrogate(u[1]));
            assert(u.skip(1) =~= seq![u[1]] + after);
            s.skip(1)
        }
    }
}

/// An encoding never starts with a low surrogate.
pub proof fn lemma_encode_starts_clean(s: Seq<char>)
    requires
        s.len() > 0,
    ensures
        encode(s).len() > 0,
        !is_low_surrogate(encode(s)[0]),
{
    let v = s[0] as u32;
    char_is_scalar(s[0]);
    assert(encode(s) =~= char_units(s[0]) + encode(s.skip(1)));
    if v >= 0x10000 {
        let w = (v - 0x10000) as u32;
        assert(w / 0x400 <= 0x3FF) by (bit_vector)
            requires
                w <= 0xFFFFF,
        ;
    }
}

/// An abbreviated identifier stays within its budget, counted in UTF-16
/// code units, and an identifier that was within the budget to begin with
/// comes back exactly as it was.
pub proof fn lemma_budget_kept(name: Seq<char>, budget: nat)
    ensures
        encode(abbreviated(name, budget)).len() <= budget,
        encode(name).len() <= budget ==> abbreviated(name, budget) == name,
{
    lemma_decode_keeps_length(tail(encode(name), budget));
    lemma_decode_encode(name);
}

/// Where an identifier is over its budget, the code units of what it is cut
/// down to are the last `budget` units of its own encoding, but for a
/// leading low surrogate that the cut has parted from its partner: that
/// one unit has become a `?`.
pub proof fn lemma_tail_preserved(name: Seq<char>, budget: nat)
    requires
        encode(name).len() > budget,
    ensures
        encode(abbreviated(name, budget)) == repaired(tail(encode(name), budget)),
{
    let u = encode(name);
    let k = u.len() - budget;
    let t = tail(u, budget);
    assert(t == u.skip(k));
    let rest = lemma_cut_shape(name, k);
    lemma_decode_encode(rest);
    if t == encode(rest) {
        if rest.len() > 0 {
            lemma_encode_starts_clean(rest);
        } else {
            assert(encode(rest).len() == 0);
        }
    } else {
        let low = u[k];
        assert(t == seq![low] + encode(rest));
        assert(t[0] == low);
        assert(first_width(t) == 1);
        assert(first_char(t) == '?');
        assert(t.skip(1) =~= encode(rest));
        assert(decode_lossy(t) =~= seq!['?'] + rest);
        lemma_encode_concat(seq!['?'], rest);
        lemma_encode_one('?');
        assert(char_units('?') =~= seq![0x3Fu16]);
        assert(encode(decode_lossy(t)) =~= t.update(0, 0x3Fu16));
    }
}

/// The last `count` items of a slice, or the whole slice where it is no
/// longer than that.
pub fn take_end<T>(vec: &[T], count: usize) -> (end: &[T])
    ensures
        end@ == tail(vec@, count as nat),
{
    if count >= vec.len() {
        vec
    } else {
        let end = slice_subrange(vec, vec.len() - count, vec.len());
        assert(end@ =~= vec@.skip(vec@.len() - count));
        end
    }
}

/// Abbreviates a logger name to at most `count` UTF-16 code units. A name
/// that fits is handed back as it is, without a detour through UTF-16.
pub fn abbreviate_logger_name(class: &str, count: usize) -> (short: String)
    ensures
        short@ == abbreviated(class@, count as nat),
        encode(short@).len() <= count,
        encode(class@).len() <= count ==> short@ == class@,
        encode(class@).len() > count ==> encode(short@) == repaired(
            tail(encode(class@), count as nat),
        ),
{
    let utf16_vec = encode_utf16(class);
    proof {
        lemma_budget_kept(class@, count as nat);
        if encode(class@).len() > count {
            lemma_tail_preserved(class@, count as nat);
        }
    }
    if utf16_vec.len() <= count {
        class.to_owned()
    } else {
        let sub = take_end(utf16_vec.as_slice(), count);
        from_utf16_java_lossy(sub)
    }
}

/// Abbreviates a thread name to at most `count` UTF-16 code units.
pub fn abbreviate_thread_name(thread_name: &str, count: usize) -> (short: String)
    ensures
        short@ == abbreviated(thread_name@, count as nat),
        encode(short@).len() <= count,
        encode(thread_name@).len() <= count ==> short@ == thread_name@,
        encode(thread_name@).len() > count ==> encode(short@) == repaired(
            tail(encode(thread_name@), count as nat),
        ),
{
    let utf16_vec = encode_utf16(thread_name);
    proof {
        lemma_budget_kept(thread_name@, count as nat);
        if encode(thread_name@).len() > count {
            lemma_tail_preserved(thread_name@, count as nat);
        }
    }
    let sub = take_end(utf16_vec.as_slice(), count);
    from_utf16_java_lossy(sub)
}

} // verus!
