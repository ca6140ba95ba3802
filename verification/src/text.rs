//! Strings as sequences of characters: their comparison, their place in a list and
//! their copies.

use vstd::prelude::*;

verus! {

/// `str`'s equality test: two slices are equal exactly when they hold the same characters.
pub assume_specification[ <str as PartialEq>::eq ](a: &str, b: &str) -> (r: bool)
    ensures
        r == (a@ == b@),
;

/// The characters of each string of a sequence.
pub open spec fn texts(strings: Seq<String>) -> Seq<Seq<char>> {
    strings.map_values(|s: String| s@)
}

/// Whether `index` is the first position at which `text` stands in `list`.
pub open spec fn is_first_position(list: Seq<Seq<char>>, text: Seq<char>, index: int) -> bool {
    &&& 0 <= index < list.len()
    &&& list[index] == text
    &&& forall|j: int| 0 <= j < index ==> list[j] != text
}

/// The first position at which `text` stands in `list`, where it stands in it at all.
pub open spec fn first_position(list: Seq<Seq<char>>, text: Seq<char>) -> int {
    choose|index: int| is_first_position(list, text, index)
}

/// There is one first position only.
pub proof fn lemma_first_position(list: Seq<Seq<char>>, text: Seq<char>, index: int)
    requires
        is_first_position(list, text, index),
    ensures
        first_position(list, text) == index,
{
    let chosen = first_position(list, text);
    assert(is_first_position(list, text, chosen));
    if chosen < index {
        assert(list[chosen] != text);
    }
    if index < chosen {
        assert(list[index] != text);
    }
}

/// Whether two string slices hold the same characters.
pub fn same_text(a: &str, b: &str) -> (r: bool)
    ensures
        r == (a@ == b@),
{
    a.eq(b)
}

/// The first position at which `text` stands among `strings`, if it is one of them.
pub fn find_text(strings: &Vec<String>, text: &str) -> (r: Option<usize>)
    ensures
        match r {
            Some(index) => is_first_position(texts(strings@), text@, index as int)
                && first_position(texts(strings@), text@) == index,
            None => !texts(strings@).contains(text@),
        },
{
    let mut i: usize = 0;
    while i < strings.len()
        invariant
            i <= strings@.len(),
            forall|j: int| 0 <= j < i ==> texts(strings@)[j] != text@,
        decreases strings@.len() - i,
    {
        if same_text(strings[i].as_str(), text) {
            proof {
                assert(texts(strings@)[i as int] == text@);
                lemma_first_position(texts(strings@), text@, i as int);
            }
            return Some(i);
        }
        i = i + 1;
    }
    None
}

/// A copy of each string of a slice, in the same order.
pub fn copy_texts(strings: &[String]) -> (r: Vec<String>)
    ensures
        texts(r@) == texts(strings@),
{
    let mut copy: Vec<String> = Vec::new();
    let mut i: usize = 0;
    while i < strings.len()
        invariant
            i <= strings@.len(),
            copy@.len() == i,
            forall|j: int| 0 <= j < i ==> (#[trigger] copy@[j])@ == strings@[j]@,
        decreases strings@.len() - i,
    {
        copy.push(strings[i].clone());
        i = i + 1;
    }
    assert(texts(copy@) =~= texts(strings@));
    copy
}

} // verus!
