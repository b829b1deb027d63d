//! Data in pieces, one behind the other.

use vstd::prelude::*;

verus! {

/// Pieces put one behind the other.
pub open spec fn joined(pieces: Seq<Seq<u8>>) -> Seq<u8>
    decreases pieces.len(),
{
    if pieces.len() == 0 {
        Seq::empty()
    } else {
        joined(pieces.drop_last()) + pieces.last()
    }
}

/// Two rows of pieces are joined one behind the other.
pub proof fn lemma_joined_rows(a: Seq<Seq<u8>>, b: Seq<Seq<u8>>)
    ensures
        joined(a + b) == joined(a) + joined(b),
    decreases b.len(),
{
    if b.len() == 0 {
        assert(a + b =~= a);
        assert(joined(a) + joined(b) =~= joined(a));
    } else {
        lemma_joined_rows(a, b.drop_last());
        assert((a + b).drop_last() =~= a + b.drop_last());
        assert(joined(a + b) =~= joined(a) + joined(b));
    }
}

/// The first piece comes first.
pub proof fn lemma_joined_first(pieces: Seq<Seq<u8>>)
    requires
        pieces.len() > 0,
    ensures
        joined(pieces) == pieces[0] + joined(pieces.drop_first()),
{
    assert(pieces =~= seq![pieces[0]] + pieces.drop_first());
    lemma_joined_rows(seq![pieces[0]], pieces.drop_first());
    assert(seq![pieces[0]].drop_last() =~= Seq::<Seq<u8>>::empty());
    reveal_with_fuel(joined, 2);
    assert(joined(seq![pieces[0]]) =~= pieces[0]);
}

/// A single piece is all there is.
pub proof fn lemma_joined_one(piece: Seq<u8>)
    ensures
        joined(seq![piece]) == piece,
{
    lemma_joined_first(seq![piece]);
    assert(seq![piece].drop_first() =~= Seq::<Seq<u8>>::empty());
    assert(joined(seq![piece]) =~= piece);
}

} // verus!
