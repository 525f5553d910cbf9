//! Sizes as `df -h` prints them: a decimal number and a binary unit.

use vstd::prelude::*;
use crate::number::{clipped, scaled, scaled_floor};
use crate::text::{chars_of, slice_of, trim_chars, trimmed};

verus! {

/// What `char::is_alphabetic` says of a character: whether Unicode gives it
/// the Alphabetic property.
pub uninterp spec fn is_alphabetic(c: char) -> bool;

/// Asks `char::is_alphabetic`. The answer is a function of the character
/// alone; the contract gives it its name and says no more.
#[verifier::external_body]
fn alphabetic(c: char) -> (b: bool)
    ensures
        b == is_alphabetic(c),
{
    c.is_alphabetic()
}

/// The first position at or after `i` that holds an alphabetic character,
/// or the length of `s`.
pub open spec fn unit_start(s: Seq<char>, i: int) -> int
    decreases s.len() - i,
{
    if 0 <= i < s.len() && !is_alphabetic(s[i]) {
        unit_start(s, i + 1)
    } else {
        i
    }
}

/// An ASCII lower-case letter as its upper-case letter; any other character
/// as itself.
pub open spec fn ascii_upper(c: char) -> char {
    if 'a' <= c <= 'z' {
        ((c as u32 - 32) as u8) as char
    } else {
        c
    }
}

/// True where `unit`, taken without regard to ASCII case, is the one letter
/// `letter` or that letter followed by `B`. `letter` is an upper-case
/// letter.
pub open spec fn names_unit(unit: Seq<char>, letter: char) -> bool {
    &&& 1 <= unit.len() <= 2
    &&& ascii_upper(unit[0]) == letter
    &&& unit.len() == 2 ==> ascii_upper(unit[1]) == 'B'
}

/// The number of bytes in one `unit`: powers of 1024 for K, M, G and T, with
/// or without a B behind them, and 1 for anything else.
pub open spec fn unit_scale(unit: Seq<char>) -> nat {
    if names_unit(unit, 'K') {
        1024
    } else if names_unit(unit, 'M') {
        1024 * 1024
    } else if names_unit(unit, 'G') {
        1024 * 1024 * 1024
    } else if names_unit(unit, 'T') {
        1024 * 1024 * 1024 * 1024
    } else {
        1
    }
}

/// The bytes that a number and a unit denote: the number times the unit's
/// scale, rounded down and held at the largest 64-bit number. Where the
/// number is no decimal number, or negative, the result is zero.
pub open spec fn size_from_parts(number: Seq<char>, unit: Seq<char>) -> u64 {
    clipped(scaled_floor(number, unit_scale(unit)))
}

/// The bytes that a size such as `500G` or `1.5T` denotes. The text is
/// trimmed; the unit starts at its first alphabetic character.
pub open spec fn size_of(text: Seq<char>) -> u64 {
    let t = trimmed(text);
    let cut = unit_start(t, 0);
    size_from_parts(t.subrange(0, cut), t.subrange(cut, t.len() as int))
}

fn upper(c: char) -> (u: char)
    ensures
        u == ascii_upper(c),
{
    if 'a' <= c && c <= 'z' {
        ((c as u32 - 32) as u8) as char
    } else {
        c
    }
}

fn is_unit(unit: &Vec<char>, letter: char) -> (b: bool)
    ensures
        b == names_unit(unit@, letter),
{
    if unit.len() == 1 {
        upper(unit[0]) == letter
    } else if unit.len() == 2 {
        upper(unit[0]) == letter && upper(unit[1]) == 'B'
    } else {
        false
    }
}

fn scale_of(unit: &Vec<char>) -> (scale: u64)
    ensures
        scale == unit_scale(unit@),
{
    if is_unit(unit, 'K') {
        1024
    } else if is_unit(unit, 'M') {
        1024 * 1024
    } else if is_unit(unit, 'G') {
        1024 * 1024 * 1024
    } else if is_unit(unit, 'T') {
        1024 * 1024 * 1024 * 1024
    } else {
        1
    }
}

/// The bytes that `number` of `unit` come to.
pub fn size_from(number: &Vec<char>, unit: &Vec<char>) -> (bytes: u64)
    ensures
        bytes == size_from_parts(number@, unit@),
{
    scaled(number, scale_of(unit))
}

/// Reads a size such as `500G`, `1.5T` or `4096`.
///
/// The text is trimmed and cut in two at its first alphabetic character: a
/// decimal number, and a unit that is read without regard to case. The
/// result is the number times the unit's scale, rounded down. Text without a
/// readable number gives zero, and an unknown unit counts as bytes.
pub fn parse_size(size_str: &str) -> (bytes: u64)
    ensures
        bytes == size_of(size_str@),
{
    let all = chars_of(size_str);
    size_in(&all)
}

pub(crate) fn size_in(all: &Vec<char>) -> (bytes: u64)
    ensures
        bytes == size_of(all@),
{
    let t = trim_chars(all);
    let mut cut: usize = 0;
    while cut < t.len() && !alphabetic(t[cut])
        invariant
            cut <= t.len(),
            unit_start(t@, cut as int) == unit_start(t@, 0),
        decreases t.len() - cut,
    {
        cut += 1;
    }
    let number = slice_of(&t, 0, cut);
    let unit = slice_of(&t, cut, t.len());
    size_from(&number, &unit)
}

} // verus!
