//! Word segmentation: a single left-to-right pass that closes a word at each
//! separator, at each lowercase-to-uppercase rising edge, and before the last
//! capital of an acronym that is followed by a lowercase letter.

use vstd::prelude::*;
use crate::classify::{CaseClass, active_separators, case_of, class_of, classify_case};
use crate::text::{chars_of, string_of};

verus! {

/// The views of a sequence of strings.
pub open spec fn views(v: Seq<String>) -> Seq<Seq<char>> {
    v.map_values(|s: String| s@)
}

/// The scanner's state after a prefix of the input.
pub struct SplitState {
    /// The words completed so far.
    pub parts: Seq<Seq<char>>,
    /// The word being built.
    pub buff: Seq<char>,
    /// The case of the last character appended; `None` at the start, after a
    /// separator, and after a character without case.
    pub prev_case: Option<bool>,
    /// Whether the last character was a separator; `None` at the start.
    pub prev_sep: Option<bool>,
}

pub open spec fn initial_state() -> SplitState {
    SplitState { parts: seq![], buff: seq![], prev_case: None, prev_sep: None }
}

/// The case recorded for a character of class `cls`: `None` for a
/// character without case.
pub open spec fn case_flag(cls: CaseClass) -> Option<bool> {
    match cls {
        CaseClass::Upper => Some(true),
        CaseClass::Lower => Some(false),
        _ => None,
    }
}

/// One step of the scanner on character `c` of class `cls`.
pub open spec fn step(st: SplitState, c: char, cls: CaseClass) -> SplitState {
    if cls == CaseClass::Separator {
        SplitState { parts: st.parts.push(st.buff), buff: seq![], prev_case: None, prev_sep: Some(true) }
    } else {
        let up = case_flag(cls);
        if st.prev_sep == Some(false) && st.prev_case == Some(false) && up == Some(true) {
            SplitState {
                parts: if st.buff.len() > 0 { st.parts.push(st.buff) } else { st.parts },
                buff: seq![c],
                prev_case: up,
                prev_sep: Some(false),
            }
        } else if st.prev_sep == Some(false) && st.prev_case == Some(true) && up == Some(false)
            && st.buff.len() > 1 {
            SplitState {
                parts: st.parts.push(st.buff.drop_last()),
                buff: seq![st.buff.last(), c],
                prev_case: up,
                prev_sep: Some(false),
            }
        } else {
            SplitState { parts: st.parts, buff: st.buff.push(c), prev_case: up, prev_sep: Some(false) }
        }
    }
}

/// The scanner's state after reading all of `cs`, where `classes[i]` is the
/// class of `cs[i]`.
pub open spec fn scan(cs: Seq<char>, classes: Seq<CaseClass>) -> SplitState
    decreases cs.len(),
{
    if cs.len() == 0 || classes.len() == 0 {
        initial_state()
    } else {
        step(scan(cs.drop_last(), classes.drop_last()), cs.last(), classes.last())
    }
}

/// The words of `cs` given the class of each character: no words for an
/// empty input, else the completed words followed by the last one if
/// non-empty.
pub open spec fn segment(cs: Seq<char>, classes: Seq<CaseClass>) -> Seq<Seq<char>> {
    if cs.len() == 0 {
        seq![]
    } else {
        let st = scan(cs, classes);
        if st.buff.len() > 0 {
            st.parts.push(st.buff)
        } else {
            st.parts
        }
    }
}

/// The class of each character of `s` under separator set `seps`.
pub open spec fn classes_of(s: Seq<char>, seps: Seq<char>) -> Seq<CaseClass> {
    s.map_values(|c: char| class_of(c, seps))
}

/// The words of `s` under separator set `seps`.
pub open spec fn split_words(s: Seq<char>, seps: Seq<char>) -> Seq<Seq<char>> {
    segment(s, classes_of(s, seps))
}

proof fn lemma_views_push(v: Seq<String>, x: String)
    ensures
        views(v.push(x)) == views(v).push(x@),
{
    assert(views(v.push(x)) =~= views(v).push(x@));
}

/// Splits `cs` into words, given the class of each character: a separator
/// closes the current word (even an empty one) and is dropped; an uppercase
/// character after a lowercase one starts a new word; a lowercase character
/// after two or more uppercase ones takes the last of them into a new word.
pub fn split_classified(cs: &[char], classes: &[CaseClass]) -> (r: Vec<String>)
    requires
        cs@.len() == classes@.len(),
    ensures
        views(r@) == segment(cs@, classes@),
{
    if cs.len() == 0 {
        let r: Vec<String> = Vec::new();
        assert(views(r@) =~= seq![]);
        return r;
    }
    let mut parts: Vec<String> = Vec::new();
    let mut buff: Vec<char> = Vec::new();
    let mut prev_case: Option<bool> = None;
    let mut prev_sep: Option<bool> = None;
    let mut i: usize = 0;
    assert(views(parts@) =~= seq![]);
    while i < cs.len()
        invariant
            i <= cs@.len(),
            cs@.len() == classes@.len(),
            scan(cs@.take(i as int), classes@.take(i as int)) == (SplitState {
                parts: views(parts@),
                buff: buff@,
                prev_case: prev_case,
                prev_sep: prev_sep,
            }),
        decreases cs@.len() - i,
    {
        let c = cs[i];
        let cls = classes[i];
        let ghost st = scan(cs@.take(i as int), classes@.take(i as int));
        assert(cs@.take(i + 1).drop_last() =~= cs@.take(i as int));
        assert(classes@.take(i + 1).drop_last() =~= classes@.take(i as int));
        if cls == CaseClass::Separator {
            let w = string_of(buff.as_slice());
            proof { lemma_views_push(parts@, w); }
            parts.push(w);
            buff = Vec::new();
            prev_case = None;
            prev_sep = Some(true);
        } else {
            let up: Option<bool> = if cls == CaseClass::Upper {
                Some(true)
            } else if cls == CaseClass::Lower {
                Some(false)
            } else {
                None
            };
            let follows = prev_sep == Some(false);
            if follows && prev_case == Some(false) && up == Some(true) {
                if buff.len() > 0 {
                    let w = string_of(buff.as_slice());
                    proof { lemma_views_push(parts@, w); }
                    parts.push(w);
                }
                buff = Vec::new();
                buff.push(c);
            } else if follows && prev_case == Some(true) && up == Some(false) && buff.len() > 1 {
                let last = buff.pop().unwrap();
                let w = string_of(buff.as_slice());
                proof { lemma_views_push(parts@, w); }
                parts.push(w);
                buff = Vec::new();
                buff.push(last);
                buff.push(c);
                assert(buff@ =~= seq![st.buff.last(), c]);
            } else {
                buff.push(c);
            }
            prev_case = up;
            prev_sep = Some(false);
        }
        assert(scan(cs@.take(i + 1), classes@.take(i + 1)) == step(st, c, cls));
        i = i + 1;
    }
    assert(cs@.take(cs@.len() as int) =~= cs@);
    assert(classes@.take(cs@.len() as int) =~= classes@);
    if buff.len() > 0 {
        let w = string_of(buff.as_slice());
        proof { lemma_views_push(parts@, w); }
        parts.push(w);
    }
    parts
}

/// Splits `s` into words at separators (`separators`, or `-`, `_`, `/`, `.`
/// when none are given) and at case transitions. Separators are dropped;
/// adjacent separators leave an empty word between them.
pub fn split_by_case(s: &str, separators: Option<&[char]>) -> (r: Vec<String>)
    ensures
        views(r@) == split_words(s@, active_separators(separators)),
{
    let cs = chars_of(s);
    let ghost seps = active_separators(separators);
    let mut classes: Vec<CaseClass> = Vec::new();
    let mut i: usize = 0;
    while i < cs.len()
        invariant
            i <= cs@.len(),
            classes@ == classes_of(cs@.take(i as int), seps),
            seps == active_separators(separators),
        decreases cs@.len() - i,
    {
        let cls = classify_case(cs[i], separators);
        assert(classes_of(cs@.take(i + 1), seps) =~= classes_of(cs@.take(i as int), seps).push(cls));
        classes.push(cls);
        i = i + 1;
    }
    assert(cs@.take(cs@.len() as int) =~= cs@);
    split_classified(cs.as_slice(), classes.as_slice())
}

/// No adjacent pair of characters of `s` goes from lowercase to uppercase
/// or from uppercase to lowercase.
pub open spec fn no_case_transitions(s: Seq<char>) -> bool {
    forall|i: int|
        0 <= i < s.len() - 1 ==> !(#[trigger] case_of(s[i]) == Some(false) && case_of(s[i + 1])
            == Some(true)) && !(case_of(s[i]) == Some(true) && case_of(s[i + 1]) == Some(false))
}

/// The empty string splits into no words, whatever the separators.
pub proof fn lemma_split_empty(seps: Seq<char>)
    ensures
        split_words(seq![], seps) == Seq::<Seq<char>>::empty(),
{
}

proof fn lemma_scan_uniform(s: Seq<char>, seps: Seq<char>, k: int)
    requires
        1 <= k <= s.len(),
        forall|j: int| 0 <= j < s.len() ==> !seps.contains(#[trigger] s[j]),
        no_case_transitions(s),
    ensures
        scan(s.take(k), classes_of(s, seps).take(k)) == (SplitState {
            parts: seq![],
            buff: s.take(k),
            prev_case: case_of(s[k - 1]),
            prev_sep: Some(false),
        }),
    decreases k,
{
    let cl = classes_of(s, seps);
    assert(s.take(k).drop_last() =~= s.take(k - 1));
    assert(cl.take(k).drop_last() =~= cl.take(k - 1));
    assert(!seps.contains(s[k - 1]));
    assert(case_flag(cl[k - 1]) == case_of(s[k - 1]));
    if k == 1 {
        assert(s.take(0) =~= seq![]);
        assert(seq![].push(s[0]) =~= s.take(1));
    } else {
        lemma_scan_uniform(s, seps, k - 1);
        assert(s.take(k - 1).push(s[k - 1]) =~= s.take(k));
        assert(!(case_of(s[k - 2]) == Some(false) && case_of(s[k - 1]) == Some(true)));
    }
}

/// A non-empty string without separators and without case transitions is a
/// single word.
pub proof fn lemma_split_single_word(s: Seq<char>, seps: Seq<char>)
    requires
        s.len() > 0,
        forall|j: int| 0 <= j < s.len() ==> !seps.contains(#[trigger] s[j]),
        no_case_transitions(s),
    ensures
        split_words(s, seps) == seq![s],
{
    lemma_scan_uniform(s, seps, s.len() as int);
    assert(s.take(s.len() as int) =~= s);
    assert(classes_of(s, seps).take(s.len() as int) =~= classes_of(s, seps));
    assert(seq![].push(s) =~= seq![s]);
}

} // verus!
