//! Text as a sequence of characters: conversion, search, and the checks
//! and repairs that run on a whole decoded document.

use vstd::prelude::*;

verus! {

/// The replacement character that a decoder puts in place of a malformed
/// sequence.
pub const REPLACEMENT_CHARACTER: char = '\u{FFFD}';

/// Number of replacement characters above which a text counts as corrupt.
pub const REPLACEMENT_THRESHOLD: usize = 16;

/// The characters of `s`, in order.
pub fn chars_of(s: &str) -> (v: Vec<char>)
    ensures
        v@ == s@,
{
    let mut v: Vec<char> = Vec::new();
    for c in it: s.chars()
        invariant
            it.seq() == s@,
            v@.len() == it.index(),
            forall|j: int| 0 <= j < v@.len() ==> v@[j] == it.seq()[j],
    {
        v.push(c);
    }
    assert(v@ =~= s@);
    v
}

/// Appends one character to a string by `String::push`, which the
/// standard library documents to do exactly that.
#[verifier::external_body]
pub(crate) fn push_char(s: &mut String, c: char)
    ensures
        final(s)@ == old(s)@.push(c),
{
    s.push(c);
}

/// The string made of the characters `v`, in order.
pub fn string_of(v: &[char]) -> (s: String)
    ensures
        s@ == v@,
{
    let mut s = String::new();
    let n: usize = v.len();
    let mut i: usize = 0;
    while i < n
        invariant
            n == v@.len(),
            i <= n,
            s@ == v@.subrange(0, i as int),
        decreases n - i,
    {
        push_char(&mut s, v[i]);
        assert(v@.subrange(0, i as int).push(v@[i as int]) =~= v@.subrange(0, i as int + 1));
        i += 1;
    }
    assert(v@.subrange(0, n as int) =~= v@);
    s
}

/// Whether `needle` stands in `hay` at position `p`.
pub open spec fn run_at<T>(hay: Seq<T>, needle: Seq<T>, p: int) -> bool {
    0 <= p && p + needle.len() <= hay.len() && hay.subrange(p, p + needle.len()) == needle
}

/// Whether `needle` occurs in `hay` as a run of consecutive items.
pub open spec fn contains_run<T>(hay: Seq<T>, needle: Seq<T>) -> bool {
    exists|p: int| run_at(hay, needle, p)
}

/// Tests whether `needle` stands in `hay` at position `p`.
pub fn chars_match_at(hay: &[char], needle: &[char], p: usize) -> (r: bool)
    ensures
        r == run_at(hay@, needle@, p as int),
{
    let n: usize = hay.len();
    let m: usize = needle.len();
    if p > n || m > n - p {
        return false;
    }
    let mut j: usize = 0;
    while j < m
        invariant
            n == hay@.len(),
            m == needle@.len(),
            p + m <= n,
            j <= m,
            forall|k: int| 0 <= k < j ==> hay@[p + k] == needle@[k],
        decreases m - j,
    {
        if hay[p + j] != needle[j] {
            assert(hay@.subrange(p as int, p + m)[j as int] != needle@[j as int]);
            return false;
        }
        j += 1;
    }
    assert(hay@.subrange(p as int, p + m) =~= needle@);
    true
}

/// Tests whether `needle` occurs in `hay`.
pub fn chars_contain(hay: &[char], needle: &[char]) -> (r: bool)
    ensures
        r == contains_run(hay@, needle@),
{
    let n: usize = hay.len();
    let m: usize = needle.len();
    if m > n {
        return false;
    }
    let last: usize = n - m;
    let mut p: usize = 0;
    loop
        invariant
            n == hay@.len(),
            m == needle@.len(),
            last == n - m,
            p <= last,
            forall|q: int| 0 <= q < p ==> !run_at(hay@, needle@, q),
        decreases last - p,
    {
        if chars_match_at(hay, needle, p) {
            return true;
        }
        if p == last {
            return false;
        }
        p += 1;
    }
}

/// Number of occurrences of `c` in `s`.
pub open spec fn count_of(s: Seq<char>, c: char) -> nat
    decreases s.len(),
{
    if s.len() == 0 {
        0
    } else {
        count_of(s.drop_last(), c) + if s.last() == c {
            1nat
        } else {
            0nat
        }
    }
}

proof fn lemma_count_of_bound(s: Seq<char>, c: char)
    ensures
        count_of(s, c) <= s.len(),
    decreases s.len(),
{
    if s.len() > 0 {
        lemma_count_of_bound(s.drop_last(), c);
    }
}

/// A text with no occurrence of `c` counts none, and one that counts none
/// has no occurrence.
pub proof fn lemma_count_of_zero(s: Seq<char>, c: char)
    ensures
        count_of(s, c) == 0 <==> !s.contains(c),
    decreases s.len(),
{
    if s.len() > 0 {
        lemma_count_of_zero(s.drop_last(), c);
        if s.last() == c {
            assert(s.contains(c));
        } else if s.contains(c) {
            let i = choose|i: int| 0 <= i < s.len() && s[i] == c;
            assert(s.drop_last()[i] == c);
        } else if s.drop_last().contains(c) {
            let i = choose|i: int| 0 <= i < s.drop_last().len() && s.drop_last()[i] == c;
            assert(s[i] == c);
        }
    }
}

/// Counts the replacement characters of a text.
pub fn replacement_count(s: &str) -> (r: usize)
    ensures
        r == count_of(s@, REPLACEMENT_CHARACTER),
{
    let v = chars_of(s);
    let n: usize = v.len();
    let mut count: usize = 0;
    let mut i: usize = 0;
    while i < n
        invariant
            n == v@.len(),
            i <= n,
            count <= i,
            count == count_of(v@.subrange(0, i as int), REPLACEMENT_CHARACTER),
        decreases n - i,
    {
        assert(v@.subrange(0, i as int + 1).drop_last() =~= v@.subrange(0, i as int));
        if v[i] == REPLACEMENT_CHARACTER {
            count += 1;
        }
        i += 1;
    }
    assert(v@.subrange(0, n as int) =~= v@);
    count
}

/// Whether a text holds a replacement character.
pub fn contains_replacement(s: &str) -> (r: bool)
    ensures
        r == s@.contains(REPLACEMENT_CHARACTER),
{
    proof {
        lemma_count_of_zero(s@, REPLACEMENT_CHARACTER);
    }
    replacement_count(s) > 0
}

/// Whether a text holds more replacement characters than the threshold
/// allows, and so has to be produced again from its source.
pub fn has_many_replacements(s: &str) -> (r: bool)
    ensures
        r == (count_of(s@, REPLACEMENT_CHARACTER) > 16),
{
    replacement_count(s) > REPLACEMENT_THRESHOLD
}

/// A byte below `0x20` other than tab, line feed and carriage return.
pub open spec fn is_invalid_control_byte(b: u8) -> bool {
    b < 0x20 && b != 0x09 && b != 0x0a && b != 0x0d
}

/// A character below U+0020 other than tab, line feed and carriage return.
pub open spec fn is_invalid_control(c: char) -> bool {
    (c as u32) < 0x20 && c != '\t' && c != '\n' && c != '\r'
}

/// Whether a buffer holds an invalid control byte.
pub fn has_invalid_controls(bytes: &[u8]) -> (r: bool)
    ensures
        r == exists|i: int| 0 <= i < bytes@.len() && is_invalid_control_byte(#[trigger] bytes@[i]),
{
    let n: usize = bytes.len();
    let mut i: usize = 0;
    while i < n
        invariant
            n == bytes@.len(),
            i <= n,
            forall|k: int| 0 <= k < i ==> !is_invalid_control_byte(#[trigger] bytes@[k]),
        decreases n - i,
    {
        let b: u8 = bytes[i];
        if b < 0x20 && b != 0x09 && b != 0x0a && b != 0x0d {
            return true;
        }
        i += 1;
    }
    false
}

/// The text `s` without its invalid control characters.
pub open spec fn without_invalid_controls(s: Seq<char>) -> Seq<char>
    decreases s.len(),
{
    if s.len() == 0 {
        s
    } else if is_invalid_control(s.last()) {
        without_invalid_controls(s.drop_last())
    } else {
        without_invalid_controls(s.drop_last()).push(s.last())
    }
}

/// Tests whether a character is an invalid control character.
pub fn invalid_control(c: char) -> (r: bool)
    ensures
        r == is_invalid_control(c),
{
    (c as u32) < 0x20 && c != '\t' && c != '\n' && c != '\r'
}

/// Removes the invalid control characters of a sequence of characters.
pub fn strip_invalid_control_chars(v: &[char]) -> (out: Vec<char>)
    ensures
        out@ == without_invalid_controls(v@),
{
    let n: usize = v.len();
    let mut out: Vec<char> = Vec::with_capacity(n);
    let mut i: usize = 0;
    while i < n
        invariant
            n == v@.len(),
            i <= n,
            out@ == without_invalid_controls(v@.subrange(0, i as int)),
        decreases n - i,
    {
        assert(v@.subrange(0, i as int + 1).drop_last() =~= v@.subrange(0, i as int));
        let c: char = v[i];
        if !invalid_control(c) {
            out.push(c);
        }
        i += 1;
    }
    assert(v@.subrange(0, n as int) =~= v@);
    out
}

/// Removes every character below U+0020 except tab, line feed and
/// carriage return.
pub fn strip_invalid_controls(s: &str) -> (out: String)
    ensures
        out@ == without_invalid_controls(s@),
{
    let v = chars_of(s);
    let kept = strip_invalid_control_chars(v.as_slice());
    string_of(kept.as_slice())
}

/// Stripping leaves no invalid control character, never lengthens a text,
/// and changes nothing in a text that has none.
pub proof fn lemma_without_invalid_controls(s: Seq<char>)
    ensures
        forall|i: int|
            0 <= i < without_invalid_controls(s).len() ==> !is_invalid_control(
                #[trigger] without_invalid_controls(s)[i],
            ),
        without_invalid_controls(s).len() <= s.len(),
        (forall|i: int| 0 <= i < s.len() ==> !is_invalid_control(#[trigger] s[i]))
            ==> without_invalid_controls(s) == s,
    decreases s.len(),
{
    if s.len() > 0 {
        lemma_without_invalid_controls(s.drop_last());
        if forall|i: int| 0 <= i < s.len() ==> !is_invalid_control(#[trigger] s[i]) {
            assert forall|i: int| 0 <= i < s.drop_last().len() implies !is_invalid_control(
                #[trigger] s.drop_last()[i],
            ) by {
                assert(s.drop_last()[i] == s[i]);
            }
            assert(!is_invalid_control(s[s.len() - 1]));
            assert(s.drop_last().push(s.last()) =~= s);
        }
    }
}

/// Stripping a stripped text changes nothing.
pub proof fn lemma_strip_is_idempotent(s: Seq<char>)
    ensures
        without_invalid_controls(without_invalid_controls(s)) == without_invalid_controls(s),
{
    lemma_without_invalid_controls(s);
    lemma_without_invalid_controls(without_invalid_controls(s));
}

} // verus!
