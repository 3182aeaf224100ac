//! Pieces of sequences: where one sequence stands inside another.

use vstd::prelude::*;

verus! {

/// Whether `piece` stands in `whole` from position `at` on.
pub open spec fn stands<T>(whole: Seq<T>, at: int, piece: Seq<T>) -> bool {
    &&& 0 <= at
    &&& at + piece.len() <= whole.len()
    &&& forall|i: int| 0 <= i < piece.len() ==> whole[at + i] == #[trigger] piece[i]
}

/// A piece that stands somewhere stands there in two halves.
pub proof fn lemma_stands_split<T>(whole: Seq<T>, at: int, first: Seq<T>, second: Seq<T>)
    requires
        stands(whole, at, first + second),
    ensures
        stands(whole, at, first),
        stands(whole, at + first.len(), second),
{
    let both = first + second;
    assert forall|i: int| 0 <= i < first.len() implies whole[at + i] == #[trigger] first[i] by {
        assert(both[i] == first[i]);
    }
    assert forall|i: int| 0 <= i < second.len() implies whole[at + first.len() + i]
        == #[trigger] second[i] by {
        assert(both[first.len() + i] == second[i]);
    }
}

} // verus!
