//! What holds of assembled text.

use crate::text;
use crate::text::{is_named, join_strings};
use vstd::prelude::*;

verus! {

/// Whether `part` stands somewhere in `whole`.
pub open spec fn holds(whole: Seq<char>, part: Seq<char>) -> bool {
    exists|before: Seq<char>, after: Seq<char>| whole == #[trigger] (before + part + after)
}

/// Whether `whole` begins with `start`.
pub open spec fn starts_with(whole: Seq<char>, start: Seq<char>) -> bool {
    start.len() <= whole.len() && whole.take(start.len() as int) == start
}

/// A text stands in itself with anything put before and behind it.
pub proof fn lemma_holds(before: Seq<char>, part: Seq<char>, after: Seq<char>)
    ensures
        holds(before + part + after, part),
{
}

/// What stands in a text also stands in each longer text.
pub proof fn lemma_holds_within(before: Seq<char>, whole: Seq<char>, after: Seq<char>, part: Seq<char>)
    requires
        holds(whole, part),
    ensures
        holds(before + whole + after, part),
{
    let (b, a) = choose|b: Seq<char>, a: Seq<char>| whole == #[trigger] (b + part + a);
    assert(before + whole + after =~= (before + b) + part + (a + after));
}

/// The strings of a list are seen in order, each as its characters.
pub proof fn strings_are_seen_in_order(strings: Seq<String>, i: int)
    ensures
        text::texts(strings).len() == strings.len(),
        0 <= i < strings.len() ==> text::texts(strings)[i] == strings[i]@,
{
}

/// No pieces make no text, and one piece makes its own.
pub proof fn short_lists_are_joined_without_separator(piece: Seq<char>, separator: Seq<char>)
    ensures
        text::join(Seq::empty(), separator).len() == 0,
        text::join(seq![piece], separator) == piece,
{
}

/// Two lists joined as one are their own joined texts with the separator in between.
pub proof fn joined_lists_meet_at_a_separator(
    a: Seq<Seq<char>>,
    b: Seq<Seq<char>>,
    separator: Seq<char>,
)
    requires
        a.len() > 0,
        b.len() > 0,
    ensures
        text::join(a + b, separator) == text::join(a, separator) + separator + text::join(
            b,
            separator,
        ),
    decreases b.len(),
{
    let whole = a + b;
    assert(whole.drop_last() =~= a + b.drop_last());
    assert(whole.last() == b.last());
    if b.len() == 1 {
        assert(whole.drop_last() =~= a);
        assert(b =~= seq![b[0]]);
    } else {
        joined_lists_meet_at_a_separator(a, b.drop_last(), separator);
        assert(text::join(whole, separator) =~= text::join(a, separator) + separator + text::join(
            b,
            separator,
        ));
    }
}

/// What stands before a piece in the joined text, and what stands behind it.
pub proof fn lemma_around_piece(pieces: Seq<Seq<char>>, separator: Seq<char>, i: int) -> (around: (
    Seq<char>,
    Seq<char>,
))
    requires
        0 <= i < pieces.len(),
    ensures
        forall|piece: Seq<char>| #[trigger]
            text::join(pieces.update(i, piece), separator) == around.0 + piece + around.1,
{
    let front = pieces.take(i);
    let back = pieces.skip(i + 1);
    let before = if i == 0 {
        Seq::empty()
    } else {
        text::join(front, separator) + separator
    };
    let after = if i + 1 == pieces.len() {
        Seq::empty()
    } else {
        separator + text::join(back, separator)
    };
    assert forall|piece: Seq<char>| #[trigger]
        text::join(pieces.update(i, piece), separator) == before + piece + after by {
        let changed = pieces.update(i, piece);
        let one = seq![piece];
        assert(text::join(one, separator) == piece);
        if i > 0 && i + 1 < pieces.len() {
            assert(changed =~= front + (one + back));
            joined_lists_meet_at_a_separator(one, back, separator);
            joined_lists_meet_at_a_separator(front, one + back, separator);
        } else if i > 0 {
            assert(changed =~= front + one);
            joined_lists_meet_at_a_separator(front, one, separator);
        } else if i + 1 < pieces.len() {
            assert(changed =~= one + back);
            joined_lists_meet_at_a_separator(one, back, separator);
        } else {
            assert(changed =~= one);
        }
        assert(text::join(changed, separator) =~= before + piece + after);
    }
    (before, after)
}

/// Each piece stands in the joined text.
pub proof fn pieces_are_kept(pieces: Seq<Seq<char>>, separator: Seq<char>, i: int)
    requires
        0 <= i < pieces.len(),
    ensures
        holds(text::join(pieces, separator), pieces[i]),
{
    let around = lemma_around_piece(pieces, separator, i);
    assert(pieces.update(i, pieces[i]) =~= pieces);
    assert(text::join(pieces.update(i, pieces[i]), separator) == around.0 + pieces[i] + around.1);
}

/// Where two lists differ in one piece, so do their joined texts.
pub proof fn a_changed_piece_shows(
    pieces: Seq<Seq<char>>,
    separator: Seq<char>,
    i: int,
    piece: Seq<char>,
)
    requires
        0 <= i < pieces.len(),
        piece != pieces[i],
    ensures
        text::join(pieces.update(i, piece), separator) != text::join(pieces, separator),
{
    let around = lemma_around_piece(pieces, separator, i);
    let old_piece = pieces[i];
    assert(pieces.update(i, old_piece) =~= pieces);
    let s = around.0 + piece + around.1;
    let t = around.0 + old_piece + around.1;
    assert(text::join(pieces.update(i, piece), separator) == s);
    assert(text::join(pieces.update(i, old_piece), separator) == t);
    if s == t {
        let from = around.0.len() as int;
        assert(piece.len() == old_piece.len()) by {
            assert(s.len() == t.len());
        }
        assert(s.subrange(from, from + piece.len()) =~= piece);
        assert(t.subrange(from, from + piece.len()) =~= old_piece);
    }
}

/// Joining gives the pieces in order with the separator between neighbours, and nothing else: the
/// text grows by a separator and a piece with each string that is added behind the first.
pub proof fn joined_strings_grow_piece_by_piece(
    pieces: &Vec<String>,
    separator: &str,
    longer: &Vec<String>,
    joined: String,
    longer_joined: String,
)
    requires
        call_ensures(join_strings, (pieces, separator), joined),
        call_ensures(join_strings, (longer, separator), longer_joined),
        longer.len() == pieces.len() + 1,
        forall|i: int| 0 <= i < pieces.len() ==> #[trigger] pieces[i]@ == longer[i]@,
    ensures
        pieces.len() == 0 ==> joined@.len() == 0 && longer_joined@ == longer[0]@,
        pieces.len() > 0 ==> longer_joined@ == joined@ + separator@ + longer[longer.len() - 1]@,
{
    let a = text::texts(pieces@);
    let b = seq![longer[longer.len() - 1]@];
    assert(text::texts(longer@) =~= a + b);
    if pieces.len() == 0 {
        assert(a + b =~= b);
    } else {
        joined_lists_meet_at_a_separator(a, b, separator@);
    }
}

/// A name reads as expected if and only if all of its characters do.
pub proof fn names_are_compared_by_characters(name: &String, expected: &str, same: bool)
    requires
        call_ensures(is_named, (name, expected), same),
    ensures
        same == (name@ == expected@),
{
}

} // verus!
