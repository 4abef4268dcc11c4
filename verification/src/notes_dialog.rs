//! The notes on a machine.
use crate::text::{
    find_where, is_blank, is_space, lemma_find_where, lemma_find_where_is, not_space, trim, trim_end,
    trim_start, trimmed,
};
use vstd::prelude::*;

verus! {

/// The notes that a text holds: the text without the white space around it, or none if
/// nothing is left.
pub open spec fn notes_view(text: Seq<char>) -> Option<Seq<char>> {
    if trim(text).len() == 0 {
        None
    } else {
        Some(trim(text))
    }
}

/// The notes that a text holds.
pub fn notes_of(text: &str) -> (res: Option<String>)
    ensures
        res.is_some() == notes_view(text@).is_some(),
        res.is_some() ==> res.unwrap()@ == notes_view(text@).unwrap(),
{
    if is_blank(text) {
        None
    } else {
        Some(trimmed(text))
    }
}

/// What is left when white space was taken off the end begins as it did, and does not end
/// with white space.
proof fn lemma_trim_end(s: Seq<char>)
    ensures
        trim_end(s).len() <= s.len(),
        trim_end(s) == s.take(trim_end(s).len() as int),
        trim_end(s).len() > 0 ==> !is_space(trim_end(s).last()),
    decreases s.len(),
{
    if s.len() > 0 && is_space(s.last()) {
        lemma_trim_end(s.drop_last());
        assert(s.drop_last().take(trim_end(s).len() as int) =~= s.take(trim_end(s).len() as int));
    } else {
        assert(s.take(s.len() as int) =~= s);
    }
}

/// Notes hold no white space at either end, and reading them again changes nothing.
pub proof fn notes_stay_the_same(text: Seq<char>)
    requires
        notes_view(text).is_some(),
    ensures
        notes_view(notes_view(text).unwrap()) == notes_view(text),
{
    let t = trim(text);
    let s = trim_start(text);
    lemma_find_where(text, not_space(), 0);
    lemma_trim_end(s);
    assert(t[0] == s[0]);
    let n = find_where(text, not_space(), 0);
    assert(s[0] == text[n]);
    lemma_find_where_is(t, not_space(), 0, 0);
    assert(t.skip(0) =~= t);
    assert(trim_start(t) == t);
    assert(trim_end(t) == t);
}

} // verus!
