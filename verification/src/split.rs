//! Parting a line into the application's tag and the payload that follows it.

use vstd::prelude::*;
use vstd::string::StrSliceExecFns;

verus! {

/// Whether the two characters of the delimiter, a pipe and one space, stand
/// at position `i` of `line`.
pub open spec fn delimiter_at(line: Seq<char>, i: int) -> bool {
    0 <= i && i + 1 < line.len() && line[i] == '|' && line[i + 1] == ' '
}

/// Whether `line` holds the delimiter anywhere.
pub open spec fn has_delimiter(line: Seq<char>) -> bool {
    exists|i: int| delimiter_at(line, i)
}

/// Whether `i` is where the delimiter first stands in `line`.
pub open spec fn first_delimiter_at(line: Seq<char>, i: int) -> bool {
    delimiter_at(line, i) && forall|j: int| 0 <= j < i ==> !delimiter_at(line, j)
}

/// The tag and the payload of a line: what stands before the first
/// delimiter and what stands after it. Nothing is trimmed, and later
/// delimiters stay in the payload.
pub open spec fn split_spec(line: Seq<char>) -> Option<(Seq<char>, Seq<char>)> {
    if has_delimiter(line) {
        let i = choose|i: int| first_delimiter_at(line, i);
        Some((line.take(i), line.skip(i + 2)))
    } else {
        None
    }
}

/// The first delimiter is where it is: no other position is the first.
pub proof fn lemma_first_delimiter_unique(line: Seq<char>, i: int, j: int)
    requires
        first_delimiter_at(line, i),
        first_delimiter_at(line, j),
    ensures
        i == j,
{
    if i < j {
        assert(!delimiter_at(line, i));
    } else if j < i {
        assert(!delimiter_at(line, j));
    }
}

/// The characters of a text, one by one.
pub fn chars_of(s: &str) -> (chars: Vec<char>)
    ensures
        chars@ == s@,
{
    let mut chars: Vec<char> = Vec::new();
    for c in it: s.chars()
        invariant
            it.seq() == s@,
            chars@ == s@.take(it.index() as int),
    {
        assert(s@.take(it.index() + 1) =~= s@.take(it.index() as int).push(c));
        chars.push(c);
    }
    assert(s@.take(s@.len() as int) =~= s@);
    chars
}

/// Where the delimiter first stands among `chars`, if it stands anywhere.
pub fn find_delimiter(chars: &[char]) -> (at: Option<usize>)
    ensures
        match at {
            Some(i) => first_delimiter_at(chars@, i as int),
            None => !has_delimiter(chars@),
        },
{
    if chars.len() < 2 {
        return None;
    }
    let last: usize = chars.len() - 1;
    let mut i: usize = 0;
    while i < last
        invariant
            last + 1 == chars.len(),
            i <= last,
            forall|j: int| 0 <= j < i ==> !delimiter_at(chars@, j),
        decreases last - i,
    {
        if chars[i] == '|' && chars[i + 1] == ' ' {
            return Some(i);
        }
        i = i + 1;
    }
    None
}

/// Splits a line at its first delimiter into tag and payload, or reports
/// that it holds none.
pub fn split_once(in_string: &str) -> (parts: Option<(&str, &str)>)
    ensures
        match parts {
            Some((first, second)) => split_spec(in_string@) == Some((first@, second@)),
            None => split_spec(in_string@).is_none(),
        },
        parts.is_none() <==> !has_delimiter(in_string@),
        parts matches Some((first, second)) ==> in_string@ == first@ + seq!['|', ' '] + second@
            && !has_delimiter(first@ + seq!['|']),
{
    let chars = chars_of(in_string);
    match find_delimiter(chars.as_slice()) {
        Some(i) => {
            assert(delimiter_at(chars@, i as int));
            assert(i + 1 < chars.len());
            let first = in_string.substring_char(0, i);
            let second = in_string.substring_char(i + 2, chars.len());
            proof {
                let line = in_string@;
                let chosen = choose|k: int| first_delimiter_at(line, k);
                lemma_first_delimiter_unique(line, i as int, chosen);
                assert(line =~= first@ + seq!['|', ' '] + second@);
                let head = first@ + seq!['|'];
                assert forall|j: int| !delimiter_at(head, j) by {
                    if delimiter_at(head, j) {
                        assert(delimiter_at(line, j));
                    }
                }
            }
            Some((first, second))
        },
        None => None,
    }
}

} // verus!
