use crate::number::{i32_value, usize_value};
use crate::text::characters;
use crate::token::{lemma_reads_i32, lemma_reads_usize, reads, Token};
use vstd::prelude::*;

verus! {

/// `i` is the place of the first `separator` in `s`.
pub open spec fn separator_at(s: Seq<char>, separator: char, i: int) -> bool {
    &&& 0 <= i < s.len()
    &&& s[i] == separator
    &&& forall|j: int| 0 <= j < i ==> s[j] != separator
}

/// The two parts of `s` on either side of its first `separator`, if it holds one.
pub open spec fn halves(s: Seq<char>, separator: char) -> Option<(Seq<char>, Seq<char>)> {
    if s.contains(separator) {
        let i = choose|i: int| separator_at(s, separator, i);
        Some((s.subrange(0, i), s.subrange(i + 1, s.len() as int)))
    } else {
        None
    }
}

/// Both values, if both are there.
pub open spec fn both<T>(left: Option<T>, right: Option<T>) -> Option<(T, T)> {
    match (left, right) {
        (Some(l), Some(r)) => Some((l, r)),
        _ => None,
    }
}

/// `pair` is what reading `left` and `right` can come to: both values that the two
/// readings returned, if each of them returned one.
pub open spec fn reads_both<T: Token>(
    left: Seq<char>,
    right: Seq<char>,
    pair: Option<(T, T)>,
) -> bool {
    exists|l: Option<T>, r: Option<T>|
        #![trigger reads(left, l), reads(right, r)]
        reads(left, l) && reads(right, r) && pair == both(l, r)
}

/// `pair` is what parsing `s` as two tokens around a `separator` can return: nothing
/// without a separator, and else what reading the two parts comes to.
pub open spec fn parses<T: Token>(s: Seq<char>, separator: char, pair: Option<(T, T)>) -> bool {
    match halves(s, separator) {
        Some(parts) => reads_both(parts.0, parts.1, pair),
        None => pair is None,
    }
}

/// The pair of `usize` that `s` stands for.
pub open spec fn usize_pair(s: Seq<char>, separator: char) -> Option<(usize, usize)> {
    match halves(s, separator) {
        Some(parts) => both(usize_value(parts.0), usize_value(parts.1)),
        None => None,
    }
}

/// The pair of `i32` that `s` stands for.
pub open spec fn i32_pair(s: Seq<char>, separator: char) -> Option<(i32, i32)> {
    match halves(s, separator) {
        Some(parts) => both(i32_value(parts.0), i32_value(parts.1)),
        None => None,
    }
}

/// Parsing a pair of `usize` returns the pair that the text stands for.
pub proof fn lemma_parses_usize(s: Seq<char>, separator: char, pair: Option<(usize, usize)>)
    requires
        parses(s, separator, pair),
    ensures
        pair == usize_pair(s, separator),
{
    if let Some(parts) = halves(s, separator) {
        let (l, r) = choose|l: Option<usize>, r: Option<usize>|
            #![trigger reads(parts.0, l), reads(parts.1, r)]
            reads(parts.0, l) && reads(parts.1, r) && pair == both(l, r);
        lemma_reads_usize(parts.0, l);
        lemma_reads_usize(parts.1, r);
    }
}

/// Parsing a pair of `i32` returns the pair that the text stands for.
pub proof fn lemma_parses_i32(s: Seq<char>, separator: char, pair: Option<(i32, i32)>)
    requires
        parses(s, separator, pair),
    ensures
        pair == i32_pair(s, separator),
{
    if let Some(parts) = halves(s, separator) {
        let (l, r) = choose|l: Option<i32>, r: Option<i32>|
            #![trigger reads(parts.0, l), reads(parts.1, r)]
            reads(parts.0, l) && reads(parts.1, r) && pair == both(l, r);
        lemma_reads_i32(parts.0, l);
        lemma_reads_i32(parts.1, r);
    }
}

/// A text has one first separator at most.
pub proof fn lemma_first_separator(s: Seq<char>, separator: char, i: int)
    requires
        separator_at(s, separator, i),
    ensures
        s.contains(separator),
        halves(s, separator) == Some((s.subrange(0, i), s.subrange(i + 1, s.len() as int))),
{
    let j = choose|j: int| separator_at(s, separator, j);
    assert(i == j) by {
        if i < j {
            assert(s[i] != separator);
        }
        if j < i {
            assert(s[j] != separator);
        }
    }
}

/// Cuts `s` at its first `separator`, which belongs to neither part.
pub fn split_pair<'a>(s: &'a str, separator: char) -> (parts: Option<(&'a str, &'a str)>)
    ensures
        (match parts {
            Some((left, right)) => halves(s@, separator) == Some((left@, right@)),
            None => halves(s@, separator) is None,
        }),
{
    let chars = characters(s);
    let mut i: usize = 0;
    while i < chars.len()
        invariant
            i <= chars.len(),
            chars@ == s@,
            forall|j: int| 0 <= j < i ==> s@[j] != separator,
        decreases chars.len() - i,
    {
        if chars[i] == separator {
            proof {
                lemma_first_separator(s@, separator, i as int);
            }
            let left = s.substring_char(0, i);
            let right = s.substring_char(i + 1, chars.len());
            return Some((left, right));
        }
        i += 1;
    }
    None
}

/// Parses `s` as two values with `separator` between them, such as `"400x600"` with
/// `'x'`. Both parts are read, each as a whole, and both must stand for a value.
pub fn parse_pair<T: Token>(s: &str, separator: char) -> (pair: Option<(T, T)>)
    ensures
        parses(s@, separator, pair),
{
    match split_pair(s, separator) {
        Some((left, right)) => {
            let l = T::read(left);
            let r = T::read(right);
            let pair = match (l, r) {
                (Some(l), Some(r)) => Some((l, r)),
                _ => None,
            };
            assert(reads(left@, l) && reads(right@, r) && pair == both(l, r));
            pair
        },
        None => None,
    }
}

} // verus!
