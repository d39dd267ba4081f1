//! The casing styles: each splits its input into words with the default
//! separators, transforms each word, and joins the results.

use vstd::prelude::*;
use crate::classify::default_separators;
use crate::split::{split_by_case, split_words, views};
use crate::text::{char_lower, char_upper, chars_of, lower_char, lower_str, str_lower, string_of, upper_char};

verus! {

/// `s` with its first character replaced by that character's uppercase
/// mapping.
pub open spec fn upper_first_of(s: Seq<char>) -> Seq<char> {
    if s.len() == 0 {
        seq![]
    } else {
        char_upper(s[0]) + s.drop_first()
    }
}

/// `s` with its first character replaced by that character's lowercase
/// mapping.
pub open spec fn lower_first_of(s: Seq<char>) -> Seq<char> {
    if s.len() == 0 {
        seq![]
    } else {
        char_lower(s[0]) + s.drop_first()
    }
}

/// The words `ws` with `sep` between each two neighbours.
pub open spec fn join(ws: Seq<Seq<char>>, sep: Seq<char>) -> Seq<char>
    decreases ws.len(),
{
    if ws.len() == 0 {
        seq![]
    } else if ws.len() == 1 {
        ws[0]
    } else {
        join(ws.drop_last(), sep) + sep + ws.last()
    }
}

/// The non-empty words of `ws`, in order.
pub open spec fn non_empty(ws: Seq<Seq<char>>) -> Seq<Seq<char>>
    decreases ws.len(),
{
    if ws.len() == 0 {
        seq![]
    } else if ws.last().len() == 0 {
        non_empty(ws.drop_last())
    } else {
        non_empty(ws.drop_last()).push(ws.last())
    }
}

/// Replaces the first character of `cs` by the characters `head`.
fn replace_first(head: Vec<char>, cs: &Vec<char>) -> (r: String)
    requires
        cs@.len() > 0,
    ensures
        r@ == head@ + cs@.drop_first(),
{
    let mut out = head;
    let ghost h = out@;
    let mut j: usize = 1;
    while j < cs.len()
        invariant
            1 <= j <= cs@.len(),
            out@ == h + cs@.subrange(1, j as int),
        decreases cs@.len() - j,
    {
        out.push(cs[j]);
        assert(cs@.subrange(1, j + 1) =~= cs@.subrange(1, j as int).push(cs@[j as int]));
        j = j + 1;
    }
    assert(cs@.subrange(1, cs@.len() as int) =~= cs@.drop_first());
    string_of(out.as_slice())
}

/// Capitalizes the first character of `s` (its uppercase mapping may be
/// longer than one character); the rest is unchanged.
pub fn upper_first(s: &str) -> (r: String)
    ensures
        r@ == upper_first_of(s@),
{
    let cs = chars_of(s);
    if cs.len() == 0 {
        return String::new();
    }
    replace_first(upper_char(cs[0]), &cs)
}

/// Lowercases the first character of `s`; the rest is unchanged.
pub fn lower_first(s: &str) -> (r: String)
    ensures
        r@ == lower_first_of(s@),
{
    let cs = chars_of(s);
    if cs.len() == 0 {
        return String::new();
    }
    replace_first(lower_char(cs[0]), &cs)
}

/// Joins `ws` with `sep` between each two neighbours.
pub fn join_words(ws: &Vec<String>, sep: &str) -> (r: String)
    ensures
        r@ == join(views(ws@), sep@),
{
    let mut out = String::new();
    let mut i: usize = 0;
    while i < ws.len()
        invariant
            i <= ws@.len(),
            out@ == join(views(ws@).take(i as int), sep@),
        decreases ws@.len() - i,
    {
        let ghost before = views(ws@).take(i as int);
        let ghost after = views(ws@).take(i + 1);
        assert(after.drop_last() =~= before);
        if i > 0 {
            out.append(sep);
        } else {
            assert(before =~= seq![]);
        }
        out.append(ws[i].as_str());
        i = i + 1;
    }
    assert(views(ws@).take(ws@.len() as int) =~= views(ws@));
    out
}

/// The non-empty words of `ws`, in order.
fn non_empty_words(ws: Vec<String>) -> (r: Vec<String>)
    ensures
        views(r@) == non_empty(views(ws@)),
{
    let mut out: Vec<String> = Vec::new();
    let mut i: usize = 0;
    assert(views(out@) =~= seq![]);
    while i < ws.len()
        invariant
            i <= ws@.len(),
            views(out@) == non_empty(views(ws@).take(i as int)),
        decreases ws@.len() - i,
    {
        assert(views(ws@).take(i + 1).drop_last() =~= views(ws@).take(i as int));
        let w = ws[i].clone();
        if !w.as_str().is_empty() {
            assert(views(out@.push(w)) =~= views(out@).push(w@));
            out.push(w);
        }
        i = i + 1;
    }
    assert(views(ws@).take(ws@.len() as int) =~= views(ws@));
    out
}

/// The words of `s` under the default separators.
pub open spec fn words_of(s: Seq<char>) -> Seq<Seq<char>> {
    split_words(s, default_separators())
}

/// A word with its first character capitalized, lowercased first when
/// `normalize` holds.
pub open spec fn capitalized(p: Seq<char>, normalize: bool) -> Seq<char> {
    upper_first_of(if normalize { str_lower(p) } else { p })
}

pub open spec fn capitalized_all(ws: Seq<Seq<char>>, normalize: bool) -> Seq<Seq<char>> {
    ws.map_values(|p: Seq<char>| capitalized(p, normalize))
}

pub open spec fn lowered_all(ws: Seq<Seq<char>>) -> Seq<Seq<char>> {
    ws.map_values(|p: Seq<char>| str_lower(p))
}

/// The minor words that Title Case keeps in lowercase.
pub open spec fn minor_word(w: Seq<char>) -> bool {
    ||| w == seq!['a']
    ||| w == seq!['a', 'n']
    ||| w == seq!['a', 'n', 'd']
    ||| w == seq!['a', 's']
    ||| w == seq!['a', 't']
    ||| w == seq!['b', 'u', 't']
    ||| w == seq!['b', 'y']
    ||| w == seq!['f', 'o', 'r']
    ||| w == seq!['i', 'f']
    ||| w == seq!['i', 'n']
    ||| w == seq!['i', 's']
    ||| w == seq!['n', 'o', 'r']
    ||| w == seq!['o', 'f']
    ||| w == seq!['o', 'n']
    ||| w == seq!['o', 'r']
    ||| w == seq!['t', 'h', 'e']
    ||| w == seq!['t', 'o']
    ||| w == seq!['w', 'i', 't', 'h']
}

/// A word in Title Case: a minor word in lowercase unless it comes first,
/// any other word capitalized (lowercased first when `normalize` holds).
pub open spec fn title_word(p: Seq<char>, normalize: bool, first: bool) -> Seq<char> {
    let lower = str_lower(p);
    if minor_word(lower) && !first {
        lower
    } else if normalize {
        upper_first_of(lower)
    } else {
        upper_first_of(p)
    }
}

pub open spec fn title_all(ws: Seq<Seq<char>>, normalize: bool) -> Seq<Seq<char>> {
    ws.map(|i: int, p: Seq<char>| title_word(p, normalize, i == 0))
}

pub open spec fn pascal_of(s: Seq<char>, normalize: bool) -> Seq<char> {
    join(capitalized_all(words_of(s), normalize), seq![])
}

pub open spec fn camel_of(s: Seq<char>, normalize: bool) -> Seq<char> {
    lower_first_of(pascal_of(s, normalize))
}

/// The words of `s`, each lowercased, joined with `joiner`; empty words
/// are kept, so doubled separators stay doubled.
pub open spec fn lower_joined(s: Seq<char>, joiner: Seq<char>) -> Seq<char> {
    join(lowered_all(words_of(s)), joiner)
}

pub open spec fn train_of(s: Seq<char>, normalize: bool) -> Seq<char> {
    join(capitalized_all(non_empty(words_of(s)), normalize), seq!['-'])
}

pub open spec fn title_of(s: Seq<char>, normalize: bool) -> Seq<char> {
    join(title_all(non_empty(words_of(s)), normalize), seq![' '])
}

fn capitalize(p: &String, normalize: bool) -> (r: String)
    ensures
        r@ == capitalized(p@, normalize),
{
    if normalize {
        let lower = lower_str(p.as_str());
        upper_first(lower.as_str())
    } else {
        upper_first(p.as_str())
    }
}

fn capitalize_words(ws: &Vec<String>, normalize: bool) -> (r: Vec<String>)
    ensures
        views(r@) == capitalized_all(views(ws@), normalize),
{
    let mut out: Vec<String> = Vec::new();
    let mut i: usize = 0;
    while i < ws.len()
        invariant
            i <= ws@.len(),
            views(out@) == capitalized_all(views(ws@).take(i as int), normalize),
        decreases ws@.len() - i,
    {
        let w = capitalize(&ws[i], normalize);
        assert(views(out@.push(w)) =~= views(out@).push(w@));
        assert(capitalized_all(views(ws@).take(i + 1), normalize) =~= capitalized_all(
            views(ws@).take(i as int),
            normalize,
        ).push(w@));
        out.push(w);
        i = i + 1;
    }
    assert(views(ws@).take(ws@.len() as int) =~= views(ws@));
    out
}

fn lower_words(ws: &Vec<String>) -> (r: Vec<String>)
    ensures
        views(r@) == lowered_all(views(ws@)),
{
    let mut out: Vec<String> = Vec::new();
    let mut i: usize = 0;
    while i < ws.len()
        invariant
            i <= ws@.len(),
            views(out@) == lowered_all(views(ws@).take(i as int)),
        decreases ws@.len() - i,
    {
        let w = lower_str(ws[i].as_str());
        assert(views(out@.push(w)) =~= views(out@).push(w@));
        assert(lowered_all(views(ws@).take(i + 1)) =~= lowered_all(views(ws@).take(i as int)).push(
            w@,
        ));
        out.push(w);
        i = i + 1;
    }
    assert(views(ws@).take(ws@.len() as int) =~= views(ws@));
    out
}

/// Whether the characters of `a` and `b` are the same.
fn same_chars(a: &[char], b: &[char]) -> (r: bool)
    ensures
        r == (a@ == b@),
{
    if a.len() != b.len() {
        return false;
    }
    let mut i: usize = 0;
    while i < a.len()
        invariant
            i <= a@.len(),
            a@.len() == b@.len(),
            forall|j: int| 0 <= j < i ==> a@[j] == b@[j],
        decreases a@.len() - i,
    {
        if a[i] != b[i] {
            return false;
        }
        i = i + 1;
    }
    assert(a@ =~= b@);
    true
}

fn is_minor_word(w: &[char]) -> (r: bool)
    ensures
        r == minor_word(w@),
{
    let t: &[char] = &['a'];
    assert(t@ =~= seq!['a']);
    if same_chars(w, t) {
        return true;
    }
    let t: &[char] = &['a', 'n'];
    assert(t@ =~= seq!['a', 'n']);
    if same_chars(w, t) {
        return true;
    }
    let t: &[char] = &['a', 'n', 'd'];
    assert(t@ =~= seq!['a', 'n', 'd']);
    if same_chars(w, t) {
        return true;
    }
    let t: &[char] = &['a', 's'];
    assert(t@ =~= seq!['a', 's']);
    if same_chars(w, t) {
        return true;
    }
    let t: &[char] = &['a', 't'];
    assert(t@ =~= seq!['a', 't']);
    if same_chars(w, t) {
        return true;
    }
    let t: &[char] = &['b', 'u', 't'];
    assert(t@ =~= seq!['b', 'u', 't']);
    if same_chars(w, t) {
        return true;
    }
    let t: &[char] = &['b', 'y'];
    assert(t@ =~= seq!['b', 'y']);
    if same_chars(w, t) {
        return true;
    }
    let t: &[char] = &['f', 'o', 'r'];
    assert(t@ =~= seq!['f', 'o', 'r']);
    if same_chars(w, t) {
        return true;
    }
    let t: &[char] = &['i', 'f'];
    assert(t@ =~= seq!['i', 'f']);
    if same_chars(w, t) {
        return true;
    }
    let t: &[char] = &['i', 'n'];
    assert(t@ =~= seq!['i', 'n']);
    if same_chars(w, t) {
        return true;
    }
    let t: &[char] = &['i', 's'];
    assert(t@ =~= seq!['i', 's']);
    if same_chars(w, t) {
        return true;
    }
    let t: &[char] = &['n', 'o', 'r'];
    assert(t@ =~= seq!['n', 'o', 'r']);
    if same_chars(w, t) {
        return true;
    }
    let t: &[char] = &['o', 'f'];
    assert(t@ =~= seq!['o', 'f']);
    if same_chars(w, t) {
        return true;
    }
    let t: &[char] = &['o', 'n'];
    assert(t@ =~= seq!['o', 'n']);
    if same_chars(w, t) {
        return true;
    }
    let t: &[char] = &['o', 'r'];
    assert(t@ =~= seq!['o', 'r']);
    if same_chars(w, t) {
        return true;
    }
    let t: &[char] = &['t', 'h', 'e'];
    assert(t@ =~= seq!['t', 'h', 'e']);
    if same_chars(w, t) {
        return true;
    }
    let t: &[char] = &['t', 'o'];
    assert(t@ =~= seq!['t', 'o']);
    if same_chars(w, t) {
        return true;
    }
    let t: &[char] = &['w', 'i', 't', 'h'];
    assert(t@ =~= seq!['w', 'i', 't', 'h']);
    if same_chars(w, t) {
        return true;
    }
    false
}

fn title_words(ws: &Vec<String>, normalize: bool) -> (r: Vec<String>)
    ensures
        views(r@) == title_all(views(ws@), normalize),
{
    let mut out: Vec<String> = Vec::new();
    let mut i: usize = 0;
    while i < ws.len()
        invariant
            i <= ws@.len(),
            views(out@) == title_all(views(ws@).take(i as int), normalize),
        decreases ws@.len() - i,
    {
        let p = &ws[i];
        let lower = lower_str(p.as_str());
        let lower_cs = chars_of(lower.as_str());
        let w = if i > 0 && is_minor_word(lower_cs.as_slice()) {
            lower
        } else if normalize {
            upper_first(lower.as_str())
        } else {
            upper_first(p.as_str())
        };
        assert(views(out@.push(w)) =~= views(out@).push(w@));
        assert(title_all(views(ws@).take(i + 1), normalize) =~= title_all(
            views(ws@).take(i as int),
            normalize,
        ).push(w@));
        out.push(w);
        i = i + 1;
    }
    assert(views(ws@).take(ws@.len() as int) =~= views(ws@));
    out
}

/// Converts `s` to PascalCase: every word capitalized (lowercased first
/// when `normalize` holds) and concatenated.
pub fn pascal_case(s: &str, normalize: bool) -> (r: String)
    ensures
        r@ == pascal_of(s@, normalize),
{
    let words = split_by_case(s, None);
    assert(views(words@) == words_of(s@));
    let caps = capitalize_words(&words, normalize);
    proof {
        reveal_strlit("");
        assert(""@ =~= Seq::<char>::empty());
    }
    join_words(&caps, "")
}

/// Converts `s` to camelCase: PascalCase with the first character
/// lowercased.
pub fn camel_case(s: &str, normalize: bool) -> (r: String)
    ensures
        r@ == camel_of(s@, normalize),
{
    let pascal = pascal_case(s, normalize);
    lower_first(pascal.as_str())
}

/// The words of `s`, each lowercased, joined with `joiner`.
fn lower_case_join(s: &str, joiner: &str) -> (r: String)
    ensures
        r@ == lower_joined(s@, joiner@),
{
    let words = split_by_case(s, None);
    let lowered = lower_words(&words);
    join_words(&lowered, joiner)
}

/// Converts `s` to kebab-case: lowercase words joined with `-`.
pub fn kebab_case(s: &str) -> (r: String)
    ensures
        r@ == lower_joined(s@, seq!['-']),
{
    proof {
        reveal_strlit("-");
        assert("-"@ =~= seq!['-']);
    }
    lower_case_join(s, "-")
}

/// Converts `s` to snake_case: lowercase words joined with `_`.
pub fn snake_case(s: &str) -> (r: String)
    ensures
        r@ == lower_joined(s@, seq!['_']),
{
    proof {
        reveal_strlit("_");
        assert("_"@ =~= seq!['_']);
    }
    lower_case_join(s, "_")
}

/// Converts `s` to flatcase: lowercase words concatenated.
pub fn flat_case(s: &str) -> (r: String)
    ensures
        r@ == lower_joined(s@, seq![]),
{
    proof {
        reveal_strlit("");
        assert(""@ =~= Seq::<char>::empty());
    }
    lower_case_join(s, "")
}

/// Converts `s` to Train-Case: the non-empty words, each capitalized
/// (lowercased first when `normalize` holds), joined with `-`.
pub fn train_case(s: &str, normalize: bool) -> (r: String)
    ensures
        r@ == train_of(s@, normalize),
{
    let words = non_empty_words(split_by_case(s, None));
    let caps = capitalize_words(&words, normalize);
    proof {
        reveal_strlit("-");
        assert("-"@ =~= seq!['-']);
    }
    join_words(&caps, "-")
}

/// Converts `s` to Title Case: the non-empty words joined with a space,
/// minor words (a, an, and, as, at, but, by, for, if, in, is, nor, of, on,
/// or, the, to, with) in lowercase unless first, and every other word
/// capitalized (lowercased first when `normalize` holds).
pub fn title_case(s: &str, normalize: bool) -> (r: String)
    ensures
        r@ == title_of(s@, normalize),
{
    let words = non_empty_words(split_by_case(s, None));
    let titled = title_words(&words, normalize);
    proof {
        reveal_strlit(" ");
        assert(" "@ =~= seq![' ']);
    }
    join_words(&titled, " ")
}

} // verus!
