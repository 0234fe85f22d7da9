//! File names: the stem and the extension that a name is made of.

use crate::text::chars_between;
use vstd::prelude::*;

verus! {

/// The place of the last dot in `name`, if it has one.
pub open spec fn last_dot(name: Seq<char>) -> Option<int>
    decreases name.len(),
{
    if name.len() == 0 {
        None
    } else if name.last() == '.' {
        Some(name.len() - 1)
    } else {
        last_dot(name.drop_last())
    }
}

/// Where a name splits into stem and extension: at its last dot, unless the
/// name has no dot, has its only dot in front, or is `..`.
pub open spec fn split_point(name: Seq<char>) -> Option<int> {
    if name == seq!['.', '.'] {
        None
    } else {
        match last_dot(name) {
            Some(at) if at > 0 => Some(at),
            _ => None,
        }
    }
}

/// The extension of a file name: what follows the last dot, without it.
pub open spec fn extension_of(name: Seq<char>) -> Option<Seq<char>> {
    match split_point(name) {
        Some(at) => Some(name.skip(at + 1)),
        None => None,
    }
}

/// The stem of a file name: what stands before the last dot, or the whole
/// name where it has no extension.
pub open spec fn stem_of(name: Seq<char>) -> Seq<char> {
    match split_point(name) {
        Some(at) => name.take(at),
        None => name,
    }
}

/// The last dot of a name lies within the name.
pub proof fn lemma_last_dot_within(name: Seq<char>)
    ensures
        last_dot(name) matches Some(at) ==> 0 <= at < name.len() && name[at] == '.',
    decreases name.len(),
{
    if name.len() > 0 && name.last() != '.' {
        lemma_last_dot_within(name.drop_last());
    }
}

/// Computes `split_point`.
pub fn name_split_point(name: &Vec<char>) -> (at: Option<usize>)
    ensures
        match split_point(name@) {
            Some(place) => at == Some(place as usize) && 0 < place < name.len(),
            None => at is None,
        },
{
    if name.len() == 2 && name[0] == '.' && name[1] == '.' {
        assert(name@ == seq!['.', '.']);
        return None;
    }
    let mut end: usize = name.len();
    assert(name@.take(end as int) == name@);
    while end > 0 && name[end - 1] != '.'
        invariant
            end <= name.len(),
            last_dot(name@) == last_dot(name@.take(end as int)),
        decreases end,
    {
        assert(name@.take(end as int).drop_last() == name@.take(end - 1));
        end -= 1;
    }
    if end <= 1 {
        None
    } else {
        Some(end - 1)
    }
}

/// Computes `extension_of`.
pub fn name_extension(name: &Vec<char>) -> (ext: Option<Vec<char>>)
    ensures
        match extension_of(name@) {
            Some(text) => ext matches Some(found) && found@ == text,
            None => ext is None,
        },
{
    match name_split_point(name) {
        Some(at) => Some(chars_between(name, at + 1, name.len())),
        None => None,
    }
}

/// Computes `stem_of`.
pub fn name_stem(name: &Vec<char>) -> (stem: Vec<char>)
    ensures
        stem@ == stem_of(name@),
{
    match name_split_point(name) {
        Some(at) => chars_between(name, 0, at),
        None => {
            let whole = chars_between(name, 0, name.len());
            assert(whole@ == name@);
            whole
        },
    }
}

} // verus!
