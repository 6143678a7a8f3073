//! Character sequences: conversion between strings and vectors of
//! characters, substring search, and the digits of a number.
//!
//! Every position in this crate counts characters, never bytes.

use vstd::prelude::*;

verus! {

/// `String::push` appends one character to the end of the string.
pub assume_specification[ String::push ](s: &mut String, c: char)
    ensures
        final(s)@ == old(s)@.push(c),
;

/// The characters of `s`, in order.
pub fn chars_of(s: &str) -> (out: Vec<char>)
    ensures
        out@ == s@,
{
    let mut out: Vec<char> = Vec::new();
    for c in it: s.chars()
        invariant
            out@ == it.seq().take(it.index() as int),
            it.seq() == s@,
    {
        out.push(c);
    }
    out
}

/// The characters of `s`, in order, in a vector that has room for one
/// more: a position one past its end can be counted.
pub fn chars_with_room(s: &str) -> (out: Vec<char>)
    ensures
        out@ == s@,
        out.len() < usize::MAX,
{
    let mut out = chars_of(s);
    out.push(' ');
    let with_one_more: usize = out.len();
    out.pop();
    assert(out@ =~= s@);
    assert(out@.len() + 1 == with_one_more);
    out
}

/// The string made of the characters `chars[from..to]`.
pub fn string_of(chars: &Vec<char>, from: usize, to: usize) -> (out: String)
    requires
        from <= to <= chars.len(),
    ensures
        out@ == chars@.subrange(from as int, to as int),
{
    let mut out = String::new();
    let mut i: usize = from;
    while i < to
        invariant
            from <= i <= to <= chars.len(),
            out@ == chars@.subrange(from as int, i as int),
        decreases to - i,
    {
        out.push(chars[i]);
        i += 1;
        assert(chars@.subrange(from as int, i as int) == chars@.subrange(
            from as int,
            i as int - 1,
        ).push(chars@[i as int - 1]));
    }
    out
}

/// The string made of all of `chars`.
pub fn string_from(chars: &Vec<char>) -> (out: String)
    ensures
        out@ == chars@,
{
    let out = string_of(chars, 0, chars.len());
    out
}

/// Appends all of `tail` to `out`.
pub fn append_chars(out: &mut Vec<char>, tail: &Vec<char>)
    ensures
        final(out)@ == old(out)@ + tail@,
{
    let mut i: usize = 0;
    while i < tail.len()
        invariant
            i <= tail.len(),
            out@ == old(out)@ + tail@.subrange(0, i as int),
        decreases tail.len() - i,
    {
        out.push(tail[i]);
        i += 1;
        assert(tail@.subrange(0, i as int) == tail@.subrange(0, i as int - 1).push(
            tail@[i as int - 1],
        ));
    }
}

/// Appends the characters `source[from..to]` to `out`.
pub fn append_range(out: &mut Vec<char>, source: &Vec<char>, from: usize, to: usize)
    requires
        from <= to <= source.len(),
    ensures
        final(out)@ == old(out)@ + source@.subrange(from as int, to as int),
{
    let mut i: usize = from;
    while i < to
        invariant
            from <= i <= to <= source.len(),
            out@ == old(out)@ + source@.subrange(from as int, i as int),
        decreases to - i,
    {
        out.push(source[i]);
        i += 1;
        assert(source@.subrange(from as int, i as int) == source@.subrange(
            from as int,
            i as int - 1,
        ).push(source@[i as int - 1]));
    }
}

/// `first` followed by `second`.
pub fn concatenate(first: &str, second: &str) -> (out: String)
    ensures
        out@ == first@ + second@,
{
    let mut chars = chars_of(first);
    let tail = chars_of(second);
    append_chars(&mut chars, &tail);
    string_from(&chars)
}

/// The texts of `strings`, in order.
pub open spec fn views(strings: Seq<String>) -> Seq<Seq<char>> {
    strings.map_values(|s: String| s@)
}

/// The text of `string`, if there is one.
pub open spec fn view_of(string: Option<String>) -> Option<Seq<char>> {
    match string {
        Some(s) => Some(s@),
        None => None,
    }
}

/// Whether `needle` stands in `hay` at position `at`.
pub open spec fn occurs_at(hay: Seq<char>, needle: Seq<char>, at: int) -> bool {
    &&& 0 <= at
    &&& at + needle.len() <= hay.len()
    &&& hay.subrange(at, at + needle.len()) == needle
}

/// Whether `needle` stands somewhere in `hay`.
pub open spec fn contains(hay: Seq<char>, needle: Seq<char>) -> bool {
    exists|at: int| occurs_at(hay, needle, at)
}

/// The first position at or after `from` where `needle` stands in `hay`.
pub open spec fn first_from(hay: Seq<char>, needle: Seq<char>, from: int) -> Option<int>
    decreases hay.len() + 1 - from,
{
    if from < 0 || from + needle.len() > hay.len() {
        None
    } else if occurs_at(hay, needle, from) {
        Some(from)
    } else {
        first_from(hay, needle, from + 1)
    }
}

/// Whether `hay` ends with `tail`.
pub open spec fn ends_with(hay: Seq<char>, tail: Seq<char>) -> bool {
    occurs_at(hay, tail, hay.len() - tail.len())
}

/// What `first_from` finds is an occurrence, and nothing occurs between
/// `from` and it; when it finds nothing, nothing occurs from `from` on.
pub proof fn lemma_first_from(hay: Seq<char>, needle: Seq<char>, from: int)
    requires
        0 <= from,
    ensures
        match first_from(hay, needle, from) {
            Some(at) => {
                &&& from <= at
                &&& occurs_at(hay, needle, at)
                &&& forall|k: int| from <= k < at ==> !occurs_at(hay, needle, k)
            },
            None => forall|k: int| from <= k ==> !occurs_at(hay, needle, k),
        },
    decreases hay.len() + 1 - from,
{
    if from + needle.len() > hay.len() {
    } else if occurs_at(hay, needle, from) {
    } else {
        lemma_first_from(hay, needle, from + 1);
    }
}

/// `needle` stands somewhere in `hay` exactly when a search from the start
/// finds it.
pub proof fn lemma_contains_is_found(hay: Seq<char>, needle: Seq<char>)
    ensures
        contains(hay, needle) <==> first_from(hay, needle, 0) is Some,
{
    lemma_first_from(hay, needle, 0);
}

/// An occurrence in `hay` is still one after text is added before and after.
pub proof fn lemma_occurs_inside(
    before: Seq<char>,
    hay: Seq<char>,
    after: Seq<char>,
    needle: Seq<char>,
    at: int,
)
    requires
        occurs_at(hay, needle, at),
    ensures
        occurs_at(before + hay + after, needle, before.len() + at),
        contains(before + hay + after, needle),
{
    let whole = before + hay + after;
    assert(whole.subrange(before.len() + at, before.len() + at + needle.len()) =~= hay.subrange(
        at,
        at + needle.len(),
    ));
}

/// Whether `needle` stands in `hay` at position `at`.
pub fn matches_at(hay: &Vec<char>, needle: &Vec<char>, at: usize) -> (found: bool)
    ensures
        found == occurs_at(hay@, needle@, at as int),
{
    if needle.len() > hay.len() || at > hay.len() - needle.len() {
        return false;
    }
    let mut k: usize = 0;
    while k < needle.len()
        invariant
            k <= needle.len(),
            at + needle.len() <= hay.len(),
            forall|j: int| 0 <= j < k ==> hay@[at + j] == needle@[j],
        decreases needle.len() - k,
    {
        if hay[at + k] != needle[k] {
            return false;
        }
        k += 1;
    }
    assert(hay@.subrange(at as int, at + needle.len()) =~= needle@);
    true
}

/// The first position at or after `from` where `needle` stands in `hay`.
pub fn find_from(hay: &Vec<char>, needle: &Vec<char>, from: usize) -> (found: Option<usize>)
    ensures
        match found {
            Some(at) => first_from(hay@, needle@, from as int) == Some(at as int),
            None => first_from(hay@, needle@, from as int) is None,
        },
{
    if needle.len() > hay.len() || from > hay.len() - needle.len() {
        return None;
    }
    let last: usize = hay.len() - needle.len();
    let mut at: usize = from;
    loop
        invariant
            from <= at <= last,
            last == hay.len() - needle.len(),
            first_from(hay@, needle@, from as int) == first_from(hay@, needle@, at as int),
        decreases last - at,
    {
        if matches_at(hay, needle, at) {
            return Some(at);
        }
        if at == last {
            assert(first_from(hay@, needle@, at + 1) is None);
            return None;
        }
        at += 1;
    }
}

/// Whether `needle` stands somewhere in `hay`.
pub fn includes(hay: &Vec<char>, needle: &Vec<char>) -> (found: bool)
    ensures
        found == contains(hay@, needle@),
{
    proof {
        lemma_contains_is_found(hay@, needle@);
    }
    find_from(hay, needle, 0).is_some()
}

/// Whether `hay` ends with `tail`.
pub fn has_suffix(hay: &Vec<char>, tail: &Vec<char>) -> (found: bool)
    ensures
        found == ends_with(hay@, tail@),
{
    if tail.len() > hay.len() {
        return false;
    }
    matches_at(hay, tail, hay.len() - tail.len())
}

/// The character that writes the digit `d` in a base up to sixteen, in
/// lower case.
pub open spec fn digit_char(d: int) -> char {
    if d == 0 {
        '0'
    } else if d == 1 {
        '1'
    } else if d == 2 {
        '2'
    } else if d == 3 {
        '3'
    } else if d == 4 {
        '4'
    } else if d == 5 {
        '5'
    } else if d == 6 {
        '6'
    } else if d == 7 {
        '7'
    } else if d == 8 {
        '8'
    } else if d == 9 {
        '9'
    } else if d == 10 {
        'a'
    } else if d == 11 {
        'b'
    } else if d == 12 {
        'c'
    } else if d == 13 {
        'd'
    } else if d == 14 {
        'e'
    } else {
        'f'
    }
}

/// The digits of `n` in base `base`, most significant first, without
/// leading zeros; zero is written as one digit.
pub open spec fn digits(n: nat, base: nat) -> Seq<char>
    recommends
        2 <= base <= 16,
    decreases n,
    via digits_decreases
{
    if base < 2 || n < base {
        seq![digit_char(n as int)]
    } else {
        digits(n / base, base).push(digit_char((n % base) as int))
    }
}

#[via_fn]
proof fn digits_decreases(n: nat, base: nat) {
    assert(2 <= base <= n ==> n / base < n) by (nonlinear_arith);
}

/// The character that writes the digit `d`.
fn digit(d: u64) -> (c: char)
    requires
        d < 16,
    ensures
        c == digit_char(d as int),
{
    if d == 0 {
        '0'
    } else if d == 1 {
        '1'
    } else if d == 2 {
        '2'
    } else if d == 3 {
        '3'
    } else if d == 4 {
        '4'
    } else if d == 5 {
        '5'
    } else if d == 6 {
        '6'
    } else if d == 7 {
        '7'
    } else if d == 8 {
        '8'
    } else if d == 9 {
        '9'
    } else if d == 10 {
        'a'
    } else if d == 11 {
        'b'
    } else if d == 12 {
        'c'
    } else if d == 13 {
        'd'
    } else if d == 14 {
        'e'
    } else {
        'f'
    }
}

/// The digits of `n` in base `base`, most significant first.
pub fn number(n: u64, base: u64) -> (out: Vec<char>)
    requires
        2 <= base <= 16,
    ensures
        out@ == digits(n as nat, base as nat),
{
    let mut reversed: Vec<char> = Vec::new();
    let mut rest: u64 = n;
    while rest >= base
        invariant
            2 <= base <= 16,
            digits(n as nat, base as nat) == digits(rest as nat, base as nat) + reversed@.reverse(),
        decreases rest,
    {
        let ghost before = reversed@;
        reversed.push(digit(rest % base));
        assert(digits(rest as nat, base as nat) + before.reverse() =~= digits(
            (rest / base) as nat,
            base as nat,
        ) + reversed@.reverse());
        rest = rest / base;
    }
    let mut out: Vec<char> = Vec::new();
    out.push(digit(rest));
    let mut i: usize = reversed.len();
    while i > 0
        invariant
            i <= reversed.len(),
            out@ == seq![digit_char(rest as int)] + reversed@.reverse().subrange(
                0,
                reversed.len() - i,
            ),
        decreases i,
    {
        i -= 1;
        out.push(reversed[i]);
        assert(reversed@.reverse().subrange(0, reversed.len() - i) =~= reversed@.reverse().subrange(
            0,
            reversed.len() - i - 1,
        ).push(reversed@[i as int]));
    }
    out
}

} // verus!
