//! Sequences of sequences.
use vstd::prelude::*;

verus! {

/// The parts one after the other.
pub open spec fn concat<A>(parts: Seq<Seq<A>>) -> Seq<A>
    decreases parts.len(),
{
    if parts.len() == 0 {
        Seq::empty()
    } else {
        concat(parts.drop_last()) + parts.last()
    }
}

/// Adding a part at the end adds its items at the end.
pub proof fn lemma_concat_push<A>(parts: Seq<Seq<A>>, part: Seq<A>)
    ensures
        concat(parts.push(part)) == concat(parts) + part,
{
    assert(parts.push(part).drop_last() =~= parts);
}

/// Joining two lists of parts joins their items.
pub proof fn lemma_concat_add<A>(front: Seq<Seq<A>>, back: Seq<Seq<A>>)
    ensures
        concat(front + back) == concat(front) + concat(back),
    decreases back.len(),
{
    if back.len() == 0 {
        assert(front + back =~= front);
        assert(concat(front) + concat(back) =~= concat(front));
    } else {
        assert((front + back).drop_last() =~= front + back.drop_last());
        lemma_concat_add(front, back.drop_last());
        assert(concat(front + back) =~= concat(front) + concat(back));
    }
}

/// The views of the members of a list of byte strings.
pub open spec fn views(parts: Seq<Vec<u8>>) -> Seq<Seq<u8>> {
    parts.map_values(|part: Vec<u8>| part@)
}

} // verus!
