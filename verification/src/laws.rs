//! The round-trip law of the container, stated over the mathematical view.

use vstd::prelude::*;

verus! {

/// The contents after pushing each element of `values`, in order, onto a
/// container whose contents are `s`; one unfolding per `push` call, matching
/// the `ensures` of [`crate::KeyedVec::push`].
pub open spec fn after_pushes<T>(s: Seq<T>, values: Seq<T>) -> Seq<T>
    decreases values.len(),
{
    if values.len() == 0 {
        s
    } else {
        after_pushes(s.push(values[0]), values.skip(1))
    }
}

/// Pushing a sequence of values appends it to the contents.
pub proof fn lemma_after_pushes_appends<T>(s: Seq<T>, values: Seq<T>)
    ensures
        after_pushes(s, values) == s + values,
    decreases values.len(),
{
    if values.len() == 0 {
        assert(s + values =~= s);
    } else {
        lemma_after_pushes_appends(s.push(values[0]), values.skip(1));
        assert(s.push(values[0]) + values.skip(1) =~= s + values);
    }
}

/// Round trip: after any sequence of `push` calls into a fresh container,
/// position `i` holds the `i`-th pushed value, so reading through a key that
/// denotes position `i` — the key minted by `from_index(i)`, or the one the
/// `i`-th `push` handed out — gives that value back. The `i`-th `push` sees a
/// container of length `i`, so by the `ensures` of `push` its key denotes
/// position `i`.
pub proof fn lemma_round_trip<T>(values: Seq<T>, i: int)
    requires
        0 <= i < values.len(),
    ensures
        after_pushes(Seq::<T>::empty(), values).len() == values.len(),
        after_pushes(Seq::<T>::empty(), values)[i] == values[i],
        after_pushes(Seq::<T>::empty(), values.take(i)).len() == i,
{
    lemma_after_pushes_appends(Seq::<T>::empty(), values);
    assert(Seq::<T>::empty() + values =~= values);
    lemma_after_pushes_appends(Seq::<T>::empty(), values.take(i));
    assert(Seq::<T>::empty() + values.take(i) =~= values.take(i));
}

} // verus!
