//! Characters of a text, and the white space round it.

use vstd::prelude::*;
use vstd::std_specs::iter::IteratorSpec;

verus! {

/// The characters of `text`, one by one.
pub fn chars_of(text: &str) -> (chars: Vec<char>)
    ensures
        chars@ == text@,
{
    broadcast use vstd::string::group_string_axioms;

    let mut chars: Vec<char> = Vec::new();
    let mut rest = text.chars();
    loop
        invariant
            chars@ + rest.remaining() == text@,
        decreases text@.len() - chars@.len(),
    {
        match rest.next() {
            Some(c) => chars.push(c),
            None => return chars,
        }
    }
}

/// White space as Unicode defines it (`White_Space`).
pub open spec fn is_white_space(c: char) -> bool {
    let code = c as u32;
    ||| 0x09 <= code <= 0x0D
    ||| code == 0x20
    ||| code == 0x85
    ||| code == 0xA0
    ||| code == 0x1680
    ||| 0x2000 <= code <= 0x200A
    ||| code == 0x2028
    ||| code == 0x2029
    ||| code == 0x202F
    ||| code == 0x205F
    ||| code == 0x3000
}

/// `text` without the white space at its two ends.
pub open spec fn trimmed(text: Seq<char>) -> Seq<char>
    decreases text.len(),
{
    if text.len() > 0 && is_white_space(text.first()) {
        trimmed(text.drop_first())
    } else if text.len() > 0 && is_white_space(text.last()) {
        trimmed(text.drop_last())
    } else {
        text
    }
}

/// Whether `c` is white space.
pub fn is_space(c: char) -> (space: bool)
    ensures
        space == is_white_space(c),
{
    let code = c as u32;
    (0x09 <= code && code <= 0x0D) || code == 0x20 || code == 0x85 || code == 0xA0 || code
        == 0x1680 || (0x2000 <= code && code <= 0x200A) || code == 0x2028 || code == 0x2029
        || code == 0x202F || code == 0x205F || code == 0x3000
}

/// The part of a text between `from` and `to` is the trimmed text, where
/// only white space lies outside and none stands at the two ends inside.
pub proof fn lemma_trimmed_range(text: Seq<char>, from: int, to: int)
    requires
        0 <= from <= to <= text.len(),
        forall|i: int| 0 <= i < from ==> is_white_space(#[trigger] text[i]),
        forall|i: int| to <= i < text.len() ==> is_white_space(#[trigger] text[i]),
        from < to ==> !is_white_space(text[from]) && !is_white_space(text[to - 1]),
    ensures
        trimmed(text) == text.subrange(from, to),
    decreases text.len(),
{
    if text.len() > 0 && is_white_space(text.first()) {
        let low = if from > 0 { from - 1 } else { 0 };
        let high = if to > 0 { to - 1 } else { 0 };
        lemma_trimmed_range(text.drop_first(), low, high);
    } else if text.len() > 0 && is_white_space(text.last()) {
        lemma_trimmed_range(text.drop_last(), from, to);
    }
}

/// Where the trimmed text begins and ends in `chars`.
pub fn trim_bounds(chars: &Vec<char>) -> (bounds: (usize, usize))
    ensures
        bounds.0 <= bounds.1 <= chars@.len(),
        chars@.subrange(bounds.0 as int, bounds.1 as int) == trimmed(chars@),
{
    let mut from: usize = 0;
    while from < chars.len() && is_space(chars[from])
        invariant
            from <= chars@.len(),
            forall|i: int| 0 <= i < from ==> is_white_space(#[trigger] chars@[i]),
        decreases chars@.len() - from,
    {
        from += 1;
    }
    let mut to: usize = chars.len();
    while to > from && is_space(chars[to - 1])
        invariant
            from <= to <= chars@.len(),
            forall|i: int| to <= i < chars@.len() ==> is_white_space(#[trigger] chars@[i]),
        decreases to,
    {
        to -= 1;
    }
    proof {
        lemma_trimmed_range(chars@, from as int, to as int);
    }
    (from, to)
}

/// `text` without the white space at its two ends.
pub fn trim(text: &str) -> (inner: &str)
    ensures
        inner@ == trimmed(text@),
{
    let chars = chars_of(text);
    let (from, to) = trim_bounds(&chars);
    text.substring_char(from, to)
}

/// Whether two texts hold the same characters.
pub fn same_text(left: &str, right: &str) -> (same: bool)
    ensures
        same == (left@ == right@),
{
    let left_chars = chars_of(left);
    let right_chars = chars_of(right);
    if left_chars.len() != right_chars.len() {
        return false;
    }
    let mut at: usize = 0;
    while at < left_chars.len()
        invariant
            left_chars@ == left@,
            right_chars@ == right@,
            left_chars@.len() == right_chars@.len(),
            at <= left_chars@.len(),
            forall|i: int| 0 <= i < at ==> left@[i] == right@[i],
        decreases left_chars@.len() - at,
    {
        if left_chars[at] != right_chars[at] {
            return false;
        }
        at += 1;
    }
    assert(left@ =~= right@);
    true
}

/// Whether `line`, trimmed, is `word`.
pub fn answers(line: &str, word: &str) -> (given: bool)
    ensures
        given == (trimmed(line@) == word@),
{
    same_text(trim(line), word)
}

} // verus!
