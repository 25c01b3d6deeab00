//! The order of texts by their characters, as a dictionary orders words.

use vstd::prelude::*;

verus! {

/// Whether `left` comes strictly before `right`: at the first place where
/// they differ `left` has the smaller character, or `left` ends there.
pub open spec fn text_before(left: Seq<char>, right: Seq<char>) -> bool
    decreases left.len(),
{
    if right.len() == 0 {
        false
    } else if left.len() == 0 {
        true
    } else if left[0] != right[0] {
        left[0] < right[0]
    } else {
        text_before(left.drop_first(), right.drop_first())
    }
}

/// No text comes before itself.
pub proof fn lemma_text_before_irreflexive(text: Seq<char>)
    ensures
        !text_before(text, text),
    decreases text.len(),
{
    if text.len() > 0 {
        lemma_text_before_irreflexive(text.drop_first());
    }
}

/// What comes before a text that comes before a third comes before the third.
pub proof fn lemma_text_before_transitive(first: Seq<char>, second: Seq<char>, third: Seq<char>)
    requires
        text_before(first, second),
        text_before(second, third),
    ensures
        text_before(first, third),
    decreases first.len(),
{
    if first.len() > 0 && first[0] == second[0] && second[0] == third[0] {
        lemma_text_before_transitive(first.drop_first(), second.drop_first(), third.drop_first());
    }
}

/// Of two different texts one comes before the other.
pub proof fn lemma_text_before_total(left: Seq<char>, right: Seq<char>)
    requires
        !text_before(left, right),
        !text_before(right, left),
    ensures
        left == right,
    decreases left.len(),
{
    if left.len() > 0 && right.len() > 0 {
        assert(left[0] == right[0]);
        lemma_text_before_total(left.drop_first(), right.drop_first());
        assert(left =~= seq![left[0]] + left.drop_first());
        assert(right =~= seq![right[0]] + right.drop_first());
    } else {
        assert(left =~= right);
    }
}

/// The characters of `text`, one by one.
pub fn chars_of(text: &str) -> (chars: Vec<char>)
    ensures
        chars@ == text@,
{
    let mut chars: Vec<char> = Vec::new();
    for letter in walk: text.chars()
        invariant
            walk.seq() == text@,
            chars@ == walk.seq().take(walk.index()),
    {
        chars.push(letter);
    }
    chars
}

/// Whether the two texts hold the same characters.
pub fn same_text(left: &str, right: &str) -> (same: bool)
    ensures
        same == (left@ == right@),
{
    let first = chars_of(left);
    let second = chars_of(right);
    if first.len() != second.len() {
        return false;
    }
    let mut at: usize = 0;
    while at < first.len()
        invariant
            at <= first.len(),
            first.len() == second.len(),
            first@ == left@,
            second@ == right@,
            first@.take(at as int) == second@.take(at as int),
        decreases first.len() - at,
    {
        if first[at] != second[at] {
            return false;
        }
        assert(first@.take(at + 1) =~= first@.take(at as int).push(first[at as int]));
        assert(second@.take(at + 1) =~= second@.take(at as int).push(second[at as int]));
        at = at + 1;
    }
    assert(first@ =~= first@.take(at as int) && second@ =~= second@.take(at as int));
    true
}

/// Whether `left` comes strictly before `right` in the order of `text_before`.
pub fn text_precedes(left: &str, right: &str) -> (before: bool)
    ensures
        before == text_before(left@, right@),
{
    let first = chars_of(left);
    let second = chars_of(right);
    let mut at: usize = 0;
    assert(first@.skip(0) =~= first@ && second@.skip(0) =~= second@);
    while at < first.len() && at < second.len()
        invariant
            at <= first.len(),
            at <= second.len(),
            first@ == left@,
            second@ == right@,
            text_before(first@, second@) == text_before(
                first@.skip(at as int),
                second@.skip(at as int),
            ),
        decreases first.len() - at,
    {
        if first[at] != second[at] {
            assert(first@.skip(at as int)[0] == first[at as int]);
            assert(second@.skip(at as int)[0] == second[at as int]);
            return first[at] < second[at];
        }
        assert(first@.skip(at as int).drop_first() =~= first@.skip(at + 1));
        assert(second@.skip(at as int).drop_first() =~= second@.skip(at + 1));
        at = at + 1;
    }
    at < second.len()
}

} // verus!
