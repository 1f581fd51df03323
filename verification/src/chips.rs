//! The search terms of a rule, edited as chips: one term per chip, no two
//! the same ignoring case.
use vstd::prelude::*;

use crate::text::{
    chars_of, join, join_chars, lowercase_text, string_of, to_lowercase, trim, trim_str, words,
    words_of,
};

verus! {

/// The texts of some strings.
pub open spec fn chip_texts(v: Seq<String>) -> Seq<Seq<char>> {
    v.map_values(|s: String| s@)
}

/// The chips a rule's search text gives where it is no list of literal
/// terms: none for blank text, else the trimmed text as one chip.
pub fn fallback_search_chip(search: &str) -> (r: Vec<String>)
    ensures
        chip_texts(r@) == if trim(search@).len() == 0 {
            Seq::<Seq<char>>::empty()
        } else {
            seq![trim(search@)]
        },
{
    let search = trim_str(search);
    if search.as_str().is_empty() {
        Vec::new()
    } else {
        let r = vec![search];
        assert(chip_texts(r@) == seq![r@[0]@]);
        r
    }
}

/// A typed term as a chip: its words joined by single spaces.
pub open spec fn normalized_chip(input: Seq<char>) -> Seq<char> {
    join(words(input), " "@)
}

/// A typed term as a chip.
pub fn normalize_search_chip(input: &str) -> (r: String)
    ensures
        r@ == normalized_chip(input@),
{
    let cs = chars_of(input);
    let ws = words_of(cs.as_slice());
    let sep: Vec<char> = vec![' '];
    proof {
        reveal_strlit(" ");
    }
    assert(sep@ == " "@);
    let joined = join_chars(&ws, sep.as_slice());
    string_of(joined.as_slice())
}

/// Whether two chips are the same term: equal once lower-cased.
pub open spec fn same_chip(left: Seq<char>, right: Seq<char>) -> bool {
    lowercase_text(left) == lowercase_text(right)
}

/// Whether two chips are the same term.
pub fn same_search_chip(left: &str, right: &str) -> (r: bool)
    ensures
        r == same_chip(left@, right@),
{
    let l = to_lowercase(left);
    let r = to_lowercase(right);
    crate::text::str_equal(l.as_str(), r.as_str())
}

/// Whether no two chips are the same term.
pub open spec fn chips_distinct(chips: Seq<Seq<char>>) -> bool {
    forall|i: int, j: int|
        0 <= i < j < chips.len() ==> !same_chip(#[trigger] chips[i], #[trigger] chips[j])
}

/// Whether a chip the same as `term` is among the chips.
pub open spec fn has_chip(chips: Seq<Seq<char>>, term: Seq<char>) -> bool {
    exists|i: int| 0 <= i < chips.len() && same_chip(#[trigger] chips[i], term)
}

/// Adds the term typed into the entry as a chip, unless it is blank or
/// already a chip; answers whether it was added.
pub fn add_search_chip(chips: &mut Vec<String>, input: &str) -> (r: bool)
    ensures
        r == (normalized_chip(input@).len() > 0 && !has_chip(
            chip_texts(old(chips)@),
            normalized_chip(input@),
        )),
        r ==> chip_texts(final(chips)@) == chip_texts(old(chips)@).push(normalized_chip(input@)),
        !r ==> final(chips)@ == old(chips)@,
        chips_distinct(chip_texts(old(chips)@)) ==> chips_distinct(chip_texts(final(chips)@)),
{
    let term = normalize_search_chip(input);
    if term.as_str().is_empty() {
        return false;
    }
    let ghost texts = chip_texts(chips@);
    let mut i: usize = 0;
    while i < chips.len()
        invariant
            i <= chips.len(),
            texts == chip_texts(chips@),
            term@ == normalized_chip(input@),
            forall|k: int| 0 <= k < i ==> !same_chip(#[trigger] texts[k], term@),
        decreases chips.len() - i,
    {
        if same_search_chip(chips[i].as_str(), term.as_str()) {
            assert(same_chip(texts[i as int], term@));
            return false;
        }
        i += 1;
    }
    let ghost before = chips@;
    chips.push(term);
    proof {
        assert(chip_texts(chips@) == chip_texts(before).push(term@));
        let after = chip_texts(chips@);
        assert forall|a: int, b: int| 0 <= a < b < after.len() && chips_distinct(texts) implies !same_chip(
            #[trigger] after[a],
            #[trigger] after[b],
        ) by {
            if b == after.len() - 1 {
                assert(!same_chip(texts[a], term@));
            } else {
                assert(after[a] == texts[a] && after[b] == texts[b]);
            }
        }
    }
    true
}

/// Removes the chip at a position, where there is one; answers whether it
/// did.
pub fn remove_search_chip(chips: &mut Vec<String>, index: usize) -> (r: bool)
    ensures
        r == (index < old(chips)@.len()),
        r ==> final(chips)@ == old(chips)@.remove(index as int),
        !r ==> final(chips)@ == old(chips)@,
        chips_distinct(chip_texts(old(chips)@)) ==> chips_distinct(chip_texts(final(chips)@)),
{
    if index < chips.len() {
        let ghost before = chip_texts(chips@);
        chips.remove(index);
        proof {
            let after = chip_texts(chips@);
            assert forall|a: int, b: int| 0 <= a < b < after.len() && chips_distinct(before) implies !same_chip(
                #[trigger] after[a],
                #[trigger] after[b],
            ) by {
                let ia = if a < index { a } else { a + 1 };
                let ib = if b < index { b } else { b + 1 };
                assert(after[a] == before[ia] && after[b] == before[ib]);
            }
        }
        true
    } else {
        false
    }
}

} // verus!
