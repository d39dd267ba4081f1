//! Per-character classification: separator, uppercase, lowercase, or
//! without case (ASCII digits).

use vstd::prelude::*;
use crate::text::{char_lower, lower_char};

verus! {

/// How a single character takes part in word segmentation.
#[derive(Clone, Copy, Debug, PartialEq, Eq, Structural)]
pub enum CaseClass {
    Separator,
    Upper,
    Lower,
    Neutral,
}

/// The separators used when a caller supplies none.
pub open spec fn default_separators() -> Seq<char> {
    seq!['-', '_', '/', '.']
}

/// The separator characters in force for an optional caller-supplied set.
pub open spec fn active_separators(separators: Option<&[char]>) -> Seq<char> {
    match separators {
        Some(s) => s@,
        None => default_separators(),
    }
}

pub open spec fn is_digit(c: char) -> bool {
    '0' <= c && c <= '9'
}

/// The first character of the lowercase mapping of `c` (or `c` itself should
/// the mapping be empty).
pub open spec fn first_lower(c: char) -> char {
    if char_lower(c).len() > 0 {
        char_lower(c)[0]
    } else {
        c
    }
}

/// `None` for an ASCII digit; otherwise whether `c` differs from its
/// lowercase form.
pub open spec fn case_of(c: char) -> Option<bool> {
    if is_digit(c) {
        None
    } else {
        Some(c != first_lower(c))
    }
}

pub open spec fn class_of(c: char, seps: Seq<char>) -> CaseClass {
    if seps.contains(c) {
        CaseClass::Separator
    } else {
        match case_of(c) {
            None => CaseClass::Neutral,
            Some(true) => CaseClass::Upper,
            Some(false) => CaseClass::Lower,
        }
    }
}

/// Returns whether `c` is uppercase, or `None` for an ASCII digit, which has
/// no case. A character counts as uppercase when it differs from its own
/// lowercase mapping, so symbols without case count as lowercase.
pub fn is_uppercase(c: char) -> (r: Option<bool>)
    ensures
        r == case_of(c),
{
    if '0' <= c && c <= '9' {
        return None;
    }
    let lower = lower_char(c);
    let first = if lower.len() > 0 {
        lower[0]
    } else {
        c
    };
    Some(c != first)
}

/// Whether `c` is one of `seps`.
pub fn contains_char(seps: &[char], c: char) -> (r: bool)
    ensures
        r == seps@.contains(c),
{
    let mut i: usize = 0;
    while i < seps.len()
        invariant
            i <= seps@.len(),
            forall|j: int| 0 <= j < i ==> seps@[j] != c,
        decreases seps@.len() - i,
    {
        if seps[i] == c {
            return true;
        }
        i = i + 1;
    }
    false
}

/// Whether `c` is a separator under the optional caller-supplied set, which
/// defaults to `-`, `_`, `/` and `.`.
pub fn is_separator(c: char, separators: Option<&[char]>) -> (r: bool)
    ensures
        r == active_separators(separators).contains(c),
{
    match separators {
        Some(s) => contains_char(s, c),
        None => {
            let r = c == '-' || c == '_' || c == '/' || c == '.';
            proof {
                if r {
                    let d = default_separators();
                    if c == '-' { assert(d[0] == c); }
                    if c == '_' { assert(d[1] == c); }
                    if c == '/' { assert(d[2] == c); }
                    if c == '.' { assert(d[3] == c); }
                }
            }
            r
        },
    }
}

/// Classifies `c` as a separator (under the optional caller-supplied set),
/// an uppercase or lowercase character, or a character without case.
pub fn classify_case(c: char, separators: Option<&[char]>) -> (r: CaseClass)
    ensures
        r == class_of(c, active_separators(separators)),
{
    if is_separator(c, separators) {
        return CaseClass::Separator;
    }
    match is_uppercase(c) {
        None => CaseClass::Neutral,
        Some(true) => CaseClass::Upper,
        Some(false) => CaseClass::Lower,
    }
}

} // verus!
