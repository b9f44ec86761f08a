//! Letters of the 26-letter alphabet and their indices.
use vstd::prelude::*;

verus! {

pub open spec fn is_upper(c: char) -> bool {
    'A' <= c && c <= 'Z'
}

pub open spec fn is_lower(c: char) -> bool {
    'a' <= c && c <= 'z'
}

/// An ASCII letter of either case: the only characters that are enciphered.
pub open spec fn is_letter(c: char) -> bool {
    is_upper(c) || is_lower(c)
}

/// Index in `[0, 26)` of a letter, ignoring its case.
pub open spec fn letter_index(c: char) -> int {
    if is_upper(c) {
        c as int - 'A' as int
    } else {
        c as int - 'a' as int
    }
}

/// The upper-case letter with index `i`.
pub open spec fn upper_of(i: int) -> char {
    (i + 'A' as int) as char
}

/// The lower-case letter with index `i`.
pub open spec fn lower_of(i: int) -> char {
    (i + 'a' as int) as char
}

/// The letter with index `i`, in the case of `like`.
pub open spec fn letter_like(i: int, like: char) -> char {
    if is_lower(like) {
        lower_of(i)
    } else {
        upper_of(i)
    }
}

/// Upper-case form of a character; other characters are kept.
pub open spec fn to_upper(c: char) -> char {
    if is_lower(c) {
        upper_of(letter_index(c))
    } else {
        c
    }
}

pub fn is_letter_char(c: char) -> (r: bool)
    ensures
        r == is_letter(c),
{
    ('A' <= c && c <= 'Z') || ('a' <= c && c <= 'z')
}

pub fn index_of_letter(c: char) -> (r: u8)
    requires
        is_letter(c),
    ensures
        r == letter_index(c),
        r < 26,
{
    if c <= 'Z' {
        (c as u32 - 'A' as u32) as u8
    } else {
        (c as u32 - 'a' as u32) as u8
    }
}

/// The letter with index `i` in the case of `like`.
pub fn letter_in_case_of(i: u8, like: char) -> (r: char)
    requires
        i < 26,
    ensures
        r == letter_like(i as int, like),
        is_letter(r),
        letter_index(r) == i,
        is_lower(r) == is_lower(like),
{
    if 'a' <= like && like <= 'z' {
        ((i as u32 + 'a' as u32) as u8) as char
    } else {
        ((i as u32 + 'A' as u32) as u8) as char
    }
}

} // verus!
