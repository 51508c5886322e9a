//! Text assembled from pieces.

use vstd::prelude::*;
use vstd::string::StringExecFns;

verus! {

/// The characters of each string of a list.
pub open spec fn texts(strings: Seq<String>) -> Seq<Seq<char>> {
    strings.map_values(|string: String| string@)
}

/// The pieces one after the other, with `separator` between each two neighbours.
pub open spec fn join(pieces: Seq<Seq<char>>, separator: Seq<char>) -> Seq<char>
    decreases pieces.len(),
{
    if pieces.len() == 0 {
        Seq::empty()
    } else if pieces.len() == 1 {
        pieces.first()
    } else {
        join(pieces.drop_last(), separator) + separator + pieces.last()
    }
}

/// Joins the strings of a list into one.
pub fn join_strings(pieces: &Vec<String>, separator: &str) -> (joined: String)
    ensures
        joined@ == join(texts(pieces@), separator@),
{
    let mut joined = String::new();
    let ghost all = texts(pieces@);
    for i in 0..pieces.len()
        invariant
            all == texts(pieces@),
            joined@ == join(all.take(i as int), separator@),
    {
        assert(all.take(i + 1).drop_last() == all.take(i as int));
        if i > 0 {
            joined.append(separator);
        }
        joined.append(pieces[i].as_str());
        assert(joined@ == join(all.take(i + 1), separator@));
    }
    assert(all.take(pieces.len() as int) == all);
    joined
}

/// Whether a name reads exactly as `expected` does.
pub fn is_named(name: &String, expected: &str) -> (same: bool)
    ensures
        same == (name@ == expected@),
{
    *name == expected.to_owned()
}

/// Copies a list of strings.
pub fn copy_strings(strings: &Vec<String>) -> (copy: Vec<String>)
    ensures
        texts(copy@) == texts(strings@),
{
    let mut copy: Vec<String> = Vec::new();
    for i in 0..strings.len()
        invariant
            copy.len() == i,
            forall|j: int| 0 <= j < i ==> copy[j]@ == strings[j]@,
    {
        copy.push(strings[i].clone());
    }
    assert(texts(copy@) =~= texts(strings@));
    copy
}

} // verus!
