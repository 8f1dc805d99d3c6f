//! UTF-16 code units: encoding text into them and decoding them back, with
//! a `?` standing in for every surrogate that has lost its partner.

use vstd::prelude::*;

verus! {

/// A code unit in the range reserved for the first half of a surrogate pair.
pub open spec fn is_high_surrogate(u: u16) -> bool {
    0xD800 <= u <= 0xDBFF
}

/// A code unit in the range reserved for the second half of a surrogate pair.
pub open spec fn is_low_surrogate(u: u16) -> bool {
    0xDC00 <= u <= 0xDFFF
}

/// A code unit that means nothing unless it is paired.
pub open spec fn is_surrogate(u: u16) -> bool {
    0xD800 <= u <= 0xDFFF
}

/// The code units that stand for one character: one unit for a character of
/// the basic plane, a surrogate pair for any other.
pub open spec fn char_units(c: char) -> Seq<u16> {
    let v = c as u32;
    if v < 0x10000 {
        seq![v as u16]
    } else {
        seq![
            (0xD800 + (v - 0x10000) / 0x400) as u16,
            (0xDC00 + (v - 0x10000) % 0x400) as u16,
        ]
    }
}

/// The UTF-16 encoding of a text: the units of its characters, in order.
pub open spec fn encode(s: Seq<char>) -> Seq<u16>
    decreases s.len(),
{
    if s.len() == 0 {
        Seq::empty()
    } else {
        char_units(s[0]) + encode(s.skip(1))
    }
}

/// The character that a surrogate pair stands for.
pub open spec fn pair_char(high: u16, low: u16) -> char {
    (0x10000 + (high - 0xD800) * 0x400 + (low - 0xDC00)) as char
}

/// How many units the first character of `units` takes up: two for a
/// well-formed surrogate pair, one for anything else.
pub open spec fn first_width(units: Seq<u16>) -> int
    recommends
        units.len() > 0,
{
    if is_high_surrogate(units[0]) && units.len() >= 2 && is_low_surrogate(units[1]) {
        2
    } else {
        1
    }
}

/// The first character that `units` decodes to. A surrogate without its
/// partner decodes to `?`.
pub open spec fn first_char(units: Seq<u16>) -> char
    recommends
        units.len() > 0,
{
    if !is_surrogate(units[0]) {
        units[0] as char
    } else if first_width(units) == 2 {
        pair_char(units[0], units[1])
    } else {
        '?'
    }
}

/// Lossy decoding: every unit is accounted for, either as a character of
/// its own, as half of a pair, or as a `?`.
pub open spec fn decode_lossy(units: Seq<u16>) -> Seq<char>
    decreases units.len(),
{
    if units.len() == 0 {
        Seq::empty()
    } else {
        seq![first_char(units)] + decode_lossy(units.skip(first_width(units)))
    }
}

/// Encoding distributes over concatenation.
pub proof fn lemma_encode_concat(a: Seq<char>, b: Seq<char>)
    ensures
        encode(a + b) == encode(a) + encode(b),
    decreases a.len(),
{
    if a.len() == 0 {
        assert(a + b =~= b);
        assert(encode(a) + encode(b) =~= encode(b));
    } else {
        lemma_encode_concat(a.skip(1), b);
        assert((a + b).skip(1) =~= a.skip(1) + b);
        assert((a + b)[0] == a[0]);
        assert(encode(a + b) =~= char_units(a[0]) + (encode(a.skip(1)) + encode(b)));
        assert(encode(a) + encode(b) =~= char_units(a[0]) + (encode(a.skip(1)) + encode(b)));
    }
}

/// The encoding of a single character is its units.
pub proof fn lemma_encode_one(c: char)
    ensures
        encode(seq![c]) == char_units(c),
{
    let s = seq![c];
    assert(s.skip(1) =~= Seq::<char>::empty());
    assert(encode(s.skip(1)) =~= Seq::<u16>::empty());
    assert(encode(s) =~= char_units(c));
}

/// Appends the code units of `c` to `out`.
pub fn push_char_units(out: &mut Vec<u16>, c: char)
    ensures
        final(out)@ == old(out)@ + char_units(c),
{
    let v: u32 = c as u32;
    if v < 0x10000 {
        out.push(v as u16);
        assert(out@ =~= old(out)@ + char_units(c));
    } else {
        let w: u32 = v - 0x10000;
        out.push((0xD800 + w / 0x400) as u16);
        out.push((0xDC00 + w % 0x400) as u16);
        assert(out@ =~= old(out)@ + char_units(c));
    }
}

/// Encodes a text as UTF-16 code units.
pub fn encode_utf16(s: &str) -> (units: Vec<u16>)
    ensures
        units@ == encode(s@),
{
    let mut units: Vec<u16> = Vec::new();
    for c in it: s.chars()
        invariant
            it.seq() == s@,
            units@ == encode(s@.take(it.index() as int)),
    {
        proof {
            let i = it.index() as int;
            lemma_encode_concat(s@.take(i), seq![c]);
            lemma_encode_one(c);
            assert(s@.take(i + 1) =~= s@.take(i) + seq![c]);
        }
        push_char_units(&mut units, c);
    }
    assert(s@.take(s@.len() as int) =~= s@);
    units
}

/// Decodes UTF-16 code units into text without ever failing: a surrogate
/// that has no partner becomes a `?`, and no unit is dropped.
pub fn from_utf16_java_lossy(v: &[u16]) -> (text: String)
    ensures
        text@ == decode_lossy(v@),
{
    let mut text = String::new();
    let mut i: usize = 0;
    assert(v@.skip(0) =~= v@);
    assert(text@ + decode_lossy(v@) =~= decode_lossy(v@));
    while i < v.len()
        invariant
            i <= v.len(),
            text@ + decode_lossy(v@.skip(i as int)) == decode_lossy(v@),
        decreases v.len() - i,
    {
        let ghost rest = v@.skip(i as int);
        let ghost before = text@;
        let u: u16 = v[i];
        let mut c: char = '?';
        let mut width: usize = 1;
        if u < 0xD800 || u > 0xDFFF {
            match char::from_u32(u as u32) {
                Some(decoded) => {
                    c = decoded;
                },
                None => {},
            }
        } else if u <= 0xDBFF && i + 1 < v.len() {
            let low: u16 = v[i + 1];
            if 0xDC00 <= low && low <= 0xDFFF {
                let n: u32 = 0x10000 + (u as u32 - 0xD800) * 0x400 + (low as u32 - 0xDC00);
                match char::from_u32(n) {
                    Some(decoded) => {
                        c = decoded;
                        width = 2;
                    },
                    None => {},
                }
            }
        }
        proof {
            assert(rest[0] == v@[i as int]);
            if rest.len() >= 2 {
                assert(rest[1] == v@[i + 1]);
            }
            assert(width == first_width(rest));
            assert(c == first_char(rest));
            assert(rest.skip(width as int) =~= v@.skip(i + width));
            assert(before.push(c) + decode_lossy(v@.skip(i + width)) =~= before + decode_lossy(
                rest,
            ));
        }
        text.push(c);
        i = i + width;
    }
    assert(v@.skip(i as int) =~= Seq::<u16>::empty());
    assert(text@ + decode_lossy(v@.skip(i as int)) =~= text@);
    text
}

} // verus!
