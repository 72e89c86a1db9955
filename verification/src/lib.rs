//! A growable, densely indexed sequence container whose positions are
//! addressed through a caller-chosen key type, so that a key minted for one
//! collection cannot be used against a collection with a different key type.
//!
//! The container stores only its elements; the key type has no runtime
//! footprint. Every operation is specified against the mathematical view of
//! the contents, a sequence of elements.

use vstd::prelude::*;
use core::marker::PhantomData;
use std::collections::TryReserveError;
use vstd::std_specs::cmp::PartialEqSpec;
use vstd::std_specs::cmp::PartialOrdSpec;
use core::cmp::Ordering;

mod laws;

pub use laws::after_pushes;
pub use laws::lemma_after_pushes_appends;
pub use laws::lemma_round_trip;

verus! {

/// A lightweight stand-in for a zero-based storage position.
///
/// A key converts losslessly to and from the position it denotes:
/// `from_index(i)` denotes position `i`, and `to_index` reads the denoted
/// position back. Two key types are never interchangeable, even when they
/// wrap the same integer representation, so the type system rejects a key
/// of one collection used against another.
pub trait IndexLike: Sized {
    /// The position this key denotes. An implementation overrides this with
    /// its own reading of the key; the default says nothing, and the two
    /// conversion contracts below are then not provable, only assumed of
    /// unverified implementations.
    open spec fn index_view(&self) -> usize {
        arbitrary()
    }

    /// Reads back the position the key denotes.
    fn to_index(&self) -> (i: usize)
        ensures
            i == self.index_view(),
    ;

    /// Mints the key denoting position `i`.
    fn from_index(i: usize) -> (k: Self)
        ensures
            k.index_view() == i,
    ;
}

/// A growable array of `T` whose positions are addressed through keys of
/// type `K`. The key type is carried only in the signature: at runtime the
/// container holds nothing but its elements.
pub struct KeyedVec<K: IndexLike, T> {
    key_marker: PhantomData<K>,
    vec: Vec<T>,
}

impl<K: IndexLike, T> View for KeyedVec<K, T> {
    type V = Seq<T>;

    closed spec fn view(&self) -> Seq<T> {
        self.vec@
    }
}

impl<K: IndexLike, T> KeyedVec<K, T> {
    /// An empty container; no storage is allocated yet.
    pub fn new() -> (v: KeyedVec<K, T>)
        ensures
            v@ == Seq::<T>::empty(),
    {
        KeyedVec { key_marker: PhantomData, vec: Vec::new() }
    }

    /// An empty container with room for at least `capacity` elements before
    /// the first reallocation. Capacity is not part of the mathematical
    /// view, so the reservation itself is only observable through
    /// [`Self::capacity`].
    pub fn with_capacity(capacity: usize) -> (v: KeyedVec<K, T>)
        ensures
            v@ == Seq::<T>::empty(),
    {
        KeyedVec { key_marker: PhantomData, vec: Vec::with_capacity(capacity) }
    }

    /// The number of elements currently stored.
    pub fn len(&self) -> (n: usize)
        ensures
            n == self@.len(),
    {
        self.vec.len()
    }

    /// Whether the container holds no elements.
    pub fn is_empty(&self) -> (b: bool)
        ensures
            b <==> self@.len() == 0,
    {
        self.vec.is_empty()
    }

    /// Appends `value` and hands back the key denoting its position, the
    /// last one. Keys issued earlier keep denoting their elements: no
    /// earlier position moves.
    pub fn push(&mut self, value: T) -> (key: K)
        ensures
            final(self)@ == old(self)@.push(value),
            final(self)@.len() == old(self)@.len() + 1,
            key.index_view() == old(self)@.len(),
    {
        self.vec.push(value);
        K::from_index(self.vec.len() - 1)
    }

    /// Looks the element denoted by `key` up; `None` when the key denotes
    /// a position at or past the current length. Never fails abruptly.
    pub fn get(&self, key: K) -> (r: Option<&T>)
        ensures
            key.index_view() < self@.len() ==> (r matches Some(e) && *e == self@[
                key.index_view() as int
            ]),
            key.index_view() >= self@.len() ==> r is None,
    {
        let i = key.to_index();
        if i < self.vec.len() {
            Some(&self.vec[i])
        } else {
            None
        }
    }

    /// Mutable access to the element denoted by `key`; `None` when the key
    /// denotes a position at or past the current length. Only the denoted
    /// element can change through the borrow.
    pub fn get_mut(&mut self, key: K) -> (r: Option<&mut T>)
        ensures
            key.index_view() < old(self)@.len() ==> (r matches Some(e) && *e == old(self)@[
                key.index_view() as int
            ] && final(self)@ == old(self)@.update(key.index_view() as int, *final(e))),
            key.index_view() >= old(self)@.len() ==> r is None && final(self)@ == old(self)@,
    {
        let i = key.to_index();
        if i < self.vec.len() {
            Some(&mut self.vec[i])
        } else {
            None
        }
    }

    /// Removes the last element and returns it; `None` on an empty
    /// container.
    pub fn pop(&mut self) -> (r: Option<T>)
        ensures
            old(self)@.len() > 0 ==> r == Some(old(self)@.last()) && final(self)@ == old(
                self,
            )@.drop_last(),
            old(self)@.len() == 0 ==> r is None && final(self)@ == old(self)@,
    {
        self.vec.pop()
    }

    /// Inserts `element` at raw `position`, shifting every element at or
    /// after it one position to the right. A position past the length is a
    /// caller bug and is excluded up front.
    pub fn insert(&mut self, position: usize, element: T)
        requires
            position <= old(self)@.len(),
        ensures
            final(self)@ == old(self)@.insert(position as int, element),
            final(self)@.len() == old(self)@.len() + 1,
    {
        self.vec.insert(position, element);
    }

    /// Removes and returns the element at raw `position`, shifting every
    /// later element one position to the left; relative order is preserved.
    /// A position at or past the length is a caller bug and is excluded up
    /// front.
    pub fn remove(&mut self, position: usize) -> (removed: T)
        requires
            position < old(self)@.len(),
        ensures
            removed == old(self)@[position as int],
            final(self)@ == old(self)@.remove(position as int),
            final(self)@.len() == old(self)@.len() - 1,
            forall|j: int| 0 <= j < position ==> final(self)@[j] == old(self)@[j],
            forall|j: int|
                position < j < old(self)@.len() ==> final(self)@[j - 1] == old(self)@[j],
    {
        self.vec.remove(position)
    }

    /// Removes and returns the element at raw `position` by moving the last
    /// element into its slot, so the key that denoted the last position now
    /// denotes `position`. Constant time; does not preserve order. A
    /// position at or past the length is a caller bug and is excluded up
    /// front.
    pub fn swap_remove(&mut self, position: usize) -> (removed: T)
        requires
            position < old(self)@.len(),
        ensures
            removed == old(self)@[position as int],
            final(self)@ == old(self)@.update(position as int, old(self)@.last()).drop_last(),
            final(self)@.len() == old(self)@.len() - 1,
            position < old(self)@.len() - 1 ==> final(self)@[position as int] == old(
                self,
            )@.last(),
            forall|j: int|
                0 <= j < old(self)@.len() - 1 && j != position ==> final(self)@[j] == old(
                    self,
                )@[j],
    {
        self.vec.swap_remove(position)
    }

    /// Drops every element at a position at or past `len`; does nothing when
    /// `len` is not below the current length. Capacity is untouched.
    pub fn truncate(&mut self, len: usize)
        ensures
            len <= old(self)@.len() ==> final(self)@ == old(self)@.subrange(0, len as int),
            len > old(self)@.len() ==> final(self)@ == old(self)@,
    {
        self.vec.truncate(len);
    }

    /// Drops every element. Capacity is untouched: the storage stays
    /// allocated for reuse.
    pub fn clear(&mut self)
        ensures
            final(self)@ == Seq::<T>::empty(),
    {
        self.vec.clear();
    }

    /// Moves every element of `other` onto the end of `self`, leaving
    /// `other` empty.
    pub fn append(&mut self, other: &mut KeyedVec<K, T>)
        ensures
            final(self)@ == old(self)@ + old(other)@,
            final(other)@ == Seq::<T>::empty(),
    {
        self.vec.append(&mut other.vec);
    }

    /// How many elements the container can hold before it must reallocate.
    /// Capacity is not part of the mathematical view — it depends on what
    /// the allocator granted — so only its lower bound by the length is
    /// stated; `with_capacity`, `reserve*` and `shrink_to*` document their
    /// effect on it.
    pub fn capacity(&self) -> (c: usize)
        ensures
            c >= self@.len(),
    {
        vec_capacity(&self.vec)
    }

    /// Reserves room for at least `additional` more elements. Contents are
    /// untouched; on allocation failure the program terminates.
    pub fn reserve(&mut self, additional: usize)
        ensures
            final(self)@ == old(self)@,
    {
        self.vec.reserve(additional);
    }

    /// Reserves room for exactly `additional` more elements, without the
    /// amortized over-allocation of `reserve`. Contents are untouched; on
    /// allocation failure the program terminates.
    pub fn reserve_exact(&mut self, additional: usize)
        requires
            old(self)@.len() + additional <= usize::MAX,
        ensures
            final(self)@ == old(self)@,
    {
        vec_reserve_exact(&mut self.vec, additional);
    }

    /// Tries to reserve room for at least `additional` more elements and
    /// reports allocation failure as a recoverable result instead of
    /// terminating. Contents are untouched either way.
    pub fn try_reserve(&mut self, additional: usize) -> (r: Result<(), TryReserveError>)
        ensures
            final(self)@ == old(self)@,
    {
        self.vec.try_reserve(additional)
    }

    /// Tries to reserve room for exactly `additional` more elements and
    /// reports allocation failure as a recoverable result instead of
    /// terminating. Contents are untouched either way.
    pub fn try_reserve_exact(&mut self, additional: usize) -> (r: Result<(), TryReserveError>)
        ensures
            final(self)@ == old(self)@,
    {
        vec_try_reserve_exact(&mut self.vec, additional)
    }

    /// Gives unneeded capacity back to the allocator. Contents are
    /// untouched.
    pub fn shrink_to_fit(&mut self)
        ensures
            final(self)@ == old(self)@,
    {
        vec_shrink_to_fit(&mut self.vec);
    }

    /// Shrinks the capacity towards `min_capacity`, keeping at least that
    /// much; does nothing when the capacity is already no larger. Contents
    /// are untouched.
    pub fn shrink_to(&mut self, min_capacity: usize)
        ensures
            final(self)@ == old(self)@,
    {
        vec_shrink_to(&mut self.vec, min_capacity);
    }

    /// Every live element paired with the key that currently denotes it, in
    /// storage order. The pairs are a snapshot: a later mutation does not
    /// change them, and keys taken from them may be invalidated by it.
    pub fn enumerate(&self) -> (pairs: Vec<(K, &T)>)
        ensures
            pairs@.len() == self@.len(),
            forall|i: int|
                0 <= i < self@.len() ==> (#[trigger] pairs@[i]).0.index_view() == i && *pairs@[
                    i
                ].1 == self@[i],
    {
        let mut pairs: Vec<(K, &T)> = Vec::new();
        let mut i: usize = 0;
        while i < self.vec.len()
            invariant
                i <= self@.len(),
                pairs@.len() == i,
                forall|j: int|
                    0 <= j < i ==> (#[trigger] pairs@[j]).0.index_view() == j && *pairs@[j].1
                        == self@[j],
            decreases self@.len() - i,
        {
            let key = K::from_index(i);
            pairs.push((key, &self.vec[i]));
            i = i + 1;
        }
        pairs
    }

    /// Raw positional read, the explicit fast path next to the keyed `get`:
    /// a position at or past the length is a caller bug and is excluded up
    /// front.
    pub fn index(&self, position: usize) -> (element: &T)
        requires
            position < self@.len(),
        ensures
            *element == self@[position as int],
    {
        &self.vec[position]
    }

    /// Raw positional write access, the explicit fast path next to the keyed
    /// `get_mut`: a position at or past the length is a caller bug and is
    /// excluded up front. Only the borrowed element can change.
    pub fn index_mut(&mut self, position: usize) -> (element: &mut T)
        requires
            position < old(self)@.len(),
        ensures
            *element == old(self)@[position as int],
            final(self)@ == old(self)@.update(position as int, *final(element)),
    {
        &mut self.vec[position]
    }

    /// The contiguous backing storage as a read-only slice, in storage
    /// order.
    pub fn as_slice(&self) -> (s: &[T])
        ensures
            s@ == self@,
    {
        self.vec.as_slice()
    }

    /// The contiguous backing storage as an exclusive slice, in storage
    /// order; the contents afterwards are whatever the caller wrote through
    /// it.
    pub fn as_mut_slice(&mut self) -> (s: &mut [T])
        ensures
            s@ == old(self)@,
            final(s)@ == final(self)@,
    {
        self.vec.as_mut_slice()
    }

    /// Removes the elements at positions `start` up to (excluding) `end` and
    /// returns them in order; the elements past `end` move left to close the
    /// gap. Bounds out of range or out of order are a caller bug and are
    /// excluded up front.
    pub fn drain(&mut self, start: usize, end: usize) -> (removed: Vec<T>)
        requires
            start <= end <= old(self)@.len(),
        ensures
            removed@ == old(self)@.subrange(start as int, end as int),
            final(self)@ == old(self)@.subrange(0, start as int) + old(self)@.subrange(
                end as int,
                old(self)@.len() as int,
            ),
    {
        let mut tail = self.vec.split_off(end);
        let removed = self.vec.split_off(start);
        self.vec.append(&mut tail);
        removed
    }

    /// Replaces the elements at positions `start` up to (excluding) `end`
    /// with the elements of `replacement`, and returns the replaced ones in
    /// order. Bounds out of range or out of order are a caller bug and are
    /// excluded up front.
    pub fn splice(&mut self, start: usize, end: usize, replacement: Vec<T>) -> (removed: Vec<T>)
        requires
            start <= end <= old(self)@.len(),
        ensures
            removed@ == old(self)@.subrange(start as int, end as int),
            final(self)@ == old(self)@.subrange(0, start as int) + replacement@ + old(
                self,
            )@.subrange(end as int, old(self)@.len() as int),
    {
        let mut tail = self.vec.split_off(end);
        let removed = self.vec.split_off(start);
        let mut middle = replacement;
        self.vec.append(&mut middle);
        self.vec.append(&mut tail);
        removed
    }

    /// Keeps only the elements the closure accepts, in their original
    /// relative order, compacting towards the front. Whatever the closure
    /// does, every survivor was accepted by it; and for every predicate the
    /// closure implements — every `p` its `ensures` pins its answers to —
    /// the contents afterwards are exactly the old contents filtered by `p`.
    pub fn retain<F: Fn(&T) -> bool>(&mut self, f: F)
        requires
            forall|t: &T| #[trigger] call_requires(f, (t,)),
        ensures
            forall|i: int|
                0 <= i < final(self)@.len() ==> call_ensures(f, (&final(self)@[i],), true),
            forall|p: spec_fn(T) -> bool|
                (forall|t: T, b: bool| call_ensures(f, (&t,), b) ==> b == p(t))
                    ==> final(self)@ == (#[trigger] old(self)@.filter(p)),
    {
        let ghost orig = self@;
        let mut source: Vec<T> = Vec::new();
        core::mem::swap(&mut self.vec, &mut source);
        let mut reversed: Vec<T> = Vec::new();
        while source.len() > 0
            invariant
                source@ == orig.subrange(0, source@.len() as int),
                reversed@.len() + source@.len() == orig.len(),
                forall|j: int|
                    0 <= j < reversed@.len() ==> reversed@[j] == orig[orig.len() - 1 - j],
            decreases source@.len(),
        {
            let element = source.pop().unwrap();
            proof {
                assert(source@ =~= orig.subrange(0, source@.len() as int));
            }
            reversed.push(element);
        }
        proof {
            assert forall|p: spec_fn(T) -> bool|
                (forall|t: T, b: bool| call_ensures(f, (&t,), b) ==> b == p(t)) implies self@
                == (#[trigger] orig.subrange(0, 0).filter(p)) by {
                reveal(Seq::filter);
                assert(orig.subrange(0, 0).filter(p) =~= self@);
            }
        }
        while reversed.len() > 0
            invariant
                reversed@.len() <= orig.len(),
                forall|j: int|
                    0 <= j < reversed@.len() ==> reversed@[j] == orig[orig.len() - 1 - j],
                forall|i: int| 0 <= i < self@.len() ==> call_ensures(f, (&self@[i],), true),
                forall|p: spec_fn(T) -> bool|
                    (forall|t: T, b: bool| call_ensures(f, (&t,), b) ==> b == p(t)) ==> self@
                        == (#[trigger] orig.subrange(0, orig.len() - reversed@.len()).filter(p)),
                forall|t: &T| #[trigger] call_requires(f, (t,)),
            decreases reversed@.len(),
        {
            let ghost done = orig.subrange(0, orig.len() - reversed@.len());
            let ghost kept = self@;
            let element = reversed.pop().unwrap();
            proof {
                assert(element == orig[done.len() as int]);
                assert(orig.subrange(0, done.len() as int + 1).drop_last() =~= done);
                assert(orig.subrange(0, done.len() as int + 1).last() == element);
            }
            let keep = f(&element);
            if keep {
                self.vec.push(element);
            }
            proof {
                assert(call_ensures(f, (&element,), keep));
                if keep {
                    assert(self@ == kept.push(element));
                }
                assert forall|p: spec_fn(T) -> bool|
                    (forall|t: T, b: bool| call_ensures(f, (&t,), b) ==> b == p(t)) implies self@
                    == (#[trigger] orig.subrange(0, done.len() as int + 1).filter(p)) by {
                    assert(kept == done.filter(p));
                    assert(p(element) == keep);
                    reveal(Seq::filter);
                }
            }
        }
        proof {
            assert(orig.subrange(0, orig.len() as int) =~= orig);
        }
    }

    /// Resizes to exactly `new_len` elements: drops the tail when shrinking,
    /// appends results of calling `f` when growing.
    pub fn resize_with<F: Fn() -> T>(&mut self, new_len: usize, f: F)
        requires
            call_requires(f, ()),
        ensures
            final(self)@.len() == new_len,
            new_len <= old(self)@.len() ==> final(self)@ == old(self)@.subrange(
                0,
                new_len as int,
            ),
            new_len > old(self)@.len() ==> final(self)@.subrange(0, old(self)@.len() as int)
                == old(self)@ && forall|i: int|
                old(self)@.len() <= i < new_len ==> call_ensures(f, (), #[trigger] final(self)@[i]),
    {
        if new_len <= self.vec.len() {
            self.vec.truncate(new_len);
        } else {
            let ghost orig = self@;
            while self.vec.len() < new_len
                invariant
                    orig.len() <= self@.len() <= new_len,
                    self@.subrange(0, orig.len() as int) == orig,
                    forall|i: int|
                        orig.len() <= i < self@.len() ==> call_ensures(f, (), #[trigger] self@[i]),
                    call_requires(f, ()),
                decreases new_len - self@.len(),
            {
                let element = f();
                self.vec.push(element);
                proof {
                    assert(self@.subrange(0, orig.len() as int) =~= orig);
                }
            }
        }
    }

    /// Consumes the container and hands the elements out as a plain vector
    /// in storage order; keys for a collection being consumed have no
    /// further meaning.
    pub fn into_vec(self) -> (v: Vec<T>)
        ensures
            v@ == self@,
    {
        self.vec
    }
}

impl<K: IndexLike, T: Clone> KeyedVec<K, T> {
    /// A container holding a clone of every element of the slice, in its
    /// order, with fresh dense positions starting at zero.
    pub fn from_slice(s: &[T]) -> (v: KeyedVec<K, T>)
        ensures
            v@.len() == s@.len(),
            forall|i: int| 0 <= i < s@.len() ==> cloned::<T>(s@[i], #[trigger] v@[i]),
    {
        let mut v = KeyedVec::new();
        v.extend_from_slice(s);
        proof {
            assert forall|i: int| 0 <= i < s@.len() implies cloned::<T>(
                s@[i],
                #[trigger] v@[i],
            ) by {
                assert(cloned::<T>(s@[i], v@[0 + i]));
            }
        }
        v
    }

    /// Resizes to exactly `new_len` elements: drops the tail when shrinking,
    /// appends clones of `value` when growing.
    pub fn resize(&mut self, new_len: usize, value: T)
        ensures
            final(self)@.len() == new_len,
            new_len <= old(self)@.len() ==> final(self)@ == old(self)@.subrange(
                0,
                new_len as int,
            ),
            new_len > old(self)@.len() ==> final(self)@.subrange(0, old(self)@.len() as int)
                == old(self)@ && forall|i: int|
                old(self)@.len() <= i < new_len ==> cloned::<T>(value, #[trigger] final(self)@[i]),
    {
        self.vec.resize(new_len, value);
    }

    /// Appends a clone of every element at positions `start` up to
    /// (excluding) `end` of the container itself, in order. Bounds out of
    /// range or out of order are a caller bug and are excluded up front.
    pub fn extend_from_within(&mut self, start: usize, end: usize)
        requires
            start <= end <= old(self)@.len(),
        ensures
            final(self)@.len() == old(self)@.len() + (end - start),
            final(self)@.subrange(0, old(self)@.len() as int) == old(self)@,
            forall|j: int|
                0 <= j < end - start ==> cloned::<T>(
                    old(self)@[start + j],
                    #[trigger] final(self)@[old(self)@.len() + j],
                ),
    {
        let ghost orig = self@;
        let mut i: usize = start;
        while i < end
            invariant
                start <= i <= end <= orig.len(),
                self@.len() == orig.len() + (i - start),
                self@.subrange(0, orig.len() as int) == orig,
                forall|j: int|
                    0 <= j < i - start ==> cloned::<T>(
                        orig[start + j],
                        #[trigger] self@[orig.len() + j],
                    ),
            decreases end - i,
        {
            proof {
                assert(self@[i as int] == orig[i as int]);
            }
            let element = self.vec[i].clone();
            self.vec.push(element);
            proof {
                assert(self@.subrange(0, orig.len() as int) =~= orig);
            }
            i = i + 1;
        }
    }

    /// Appends a clone of every element of `other`, in order.
    pub fn extend_from_slice(&mut self, other: &[T])
        ensures
            final(self)@.len() == old(self)@.len() + other@.len(),
            final(self)@.subrange(0, old(self)@.len() as int) == old(self)@,
            forall|i: int|
                0 <= i < other@.len() ==> cloned::<T>(
                    other@[i],
                    #[trigger] final(self)@[old(self)@.len() + i],
                ),
    {
        self.vec.extend_from_slice(other);
    }
}

/// The tail of a deduplication: the elements of `rest` that survive when
/// consecutive repeats are dropped and `last` was the element kept just
/// before `rest`, compared by the element type's own equality.
pub open spec fn dedup_rest<T: PartialEq>(last: T, rest: Seq<T>) -> Seq<T>
    decreases rest.len(),
{
    if rest.len() == 0 {
        Seq::<T>::empty()
    } else if rest[0].eq_spec(&last) {
        dedup_rest(last, rest.skip(1))
    } else {
        seq![rest[0]] + dedup_rest(rest[0], rest.skip(1))
    }
}

/// `s` with all but the first of each run of consecutive equal elements
/// removed, compared by the element type's own equality.
pub open spec fn dedup_of<T: PartialEq>(s: Seq<T>) -> Seq<T> {
    if s.len() == 0 {
        Seq::<T>::empty()
    } else {
        seq![s[0]] + dedup_rest(s[0], s.skip(1))
    }
}

impl<K: IndexLike, T: PartialEq> KeyedVec<K, T> {
    /// Removes all but the first of each run of consecutive equal elements.
    /// Where the element type's `==` obeys its specification, the contents
    /// afterwards are exactly [`dedup_of`] of the contents before.
    pub fn dedup(&mut self)
        ensures
            final(self)@.len() <= old(self)@.len(),
            old(self)@.len() == 0 ==> final(self)@ == old(self)@,
            T::obeys_eq_spec() ==> final(self)@ == dedup_of(old(self)@),
    {
        let ghost orig = self@;
        let mut source: Vec<T> = Vec::new();
        core::mem::swap(&mut self.vec, &mut source);
        let mut reversed: Vec<T> = Vec::new();
        while source.len() > 0
            invariant
                source@ == orig.subrange(0, source@.len() as int),
                reversed@.len() + source@.len() == orig.len(),
                forall|j: int|
                    0 <= j < reversed@.len() ==> reversed@[j] == orig[orig.len() - 1 - j],
            decreases source@.len(),
        {
            let element = source.pop().unwrap();
            proof {
                assert(source@ =~= orig.subrange(0, source@.len() as int));
            }
            reversed.push(element);
        }
        if reversed.len() == 0 {
            proof {
                assert(orig =~= Seq::<T>::empty());
            }
            return ;
        }
        let first = reversed.pop().unwrap();
        self.vec.push(first);
        proof {
            assert(orig.skip(1) =~= orig.skip(orig.len() - reversed@.len()));
        }
        while reversed.len() > 0
            invariant
                1 <= self@.len() <= orig.len() - reversed@.len(),
                reversed@.len() < orig.len(),
                forall|j: int|
                    0 <= j < reversed@.len() ==> reversed@[j] == orig[orig.len() - 1 - j],
                T::obeys_eq_spec() ==> dedup_of(orig) == self@ + dedup_rest(
                    self@.last(),
                    orig.skip(orig.len() - reversed@.len()),
                ),
            decreases reversed@.len(),
        {
            let ghost processed = orig.len() - reversed@.len();
            let ghost kept = self@;
            let element = reversed.pop().unwrap();
            proof {
                assert(element == orig[processed as int]);
                assert(orig.skip(processed as int)[0] == orig[processed as int]);
                assert(orig.skip(processed as int).skip(1) =~= orig.skip(processed as int + 1));
            }
            let last_index = self.vec.len() - 1;
            let same = element.eq(&self.vec[last_index]);
            if same {
                proof {
                    if T::obeys_eq_spec() {
                        assert(orig.skip(processed as int)[0].eq_spec(&kept.last()));
                    }
                }
            } else {
                self.vec.push(element);
                proof {
                    if T::obeys_eq_spec() {
                        assert(!orig.skip(processed as int)[0].eq_spec(&kept.last()));
                        assert(kept + (seq![element] + dedup_rest(
                            element,
                            orig.skip(processed as int + 1),
                        )) =~= self@ + dedup_rest(element, orig.skip(processed as int + 1)));
                    }
                }
            }
        }
        proof {
            assert(orig.skip(orig.len() as int) =~= Seq::<T>::empty());
            assert(self@ + Seq::<T>::empty() =~= self@);
        }
    }
}

impl<K: IndexLike, T: PartialEq> PartialEq for KeyedVec<K, T> {
    /// Equality is element-wise on the contents alone; the key type takes no
    /// part in it and needs no comparison of its own.
    fn eq(&self, other: &KeyedVec<K, T>) -> (r: bool) {
        self.vec == other.vec
    }
}

impl<K: IndexLike, T: PartialEq + Eq> Eq for KeyedVec<K, T> {

}

impl<K: IndexLike, T: PartialEq> vstd::std_specs::cmp::PartialEqSpecImpl for KeyedVec<K, T> {
    open spec fn obeys_eq_spec() -> bool {
        <Vec<T> as vstd::std_specs::cmp::PartialEqSpec<Vec<T>>>::obeys_eq_spec()
    }

    open spec fn eq_spec(&self, other: &KeyedVec<K, T>) -> bool {
        self@.len() == other@.len() && (forall|i: int|
            0 <= i < self@.len()
                ==> (#[trigger] self@[i]).eq_spec(&other@[i]))
    }
}

/// The lexicographic comparison of two sequences by the element type's own
/// ordering: the first pair of elements that does not compare equal decides,
/// and when one sequence is a prefix of the other, the shorter comes first.
pub open spec fn lex_cmp_of<T: PartialOrd>(a: Seq<T>, b: Seq<T>) -> Option<Ordering>
    decreases a.len(),
{
    if a.len() == 0 && b.len() == 0 {
        Some(Ordering::Equal)
    } else if a.len() == 0 {
        Some(Ordering::Less)
    } else if b.len() == 0 {
        Some(Ordering::Greater)
    } else {
        match a[0].partial_cmp_spec(&b[0]) {
            Some(Ordering::Equal) => lex_cmp_of(a.skip(1), b.skip(1)),
            decided => decided,
        }
    }
}

impl<K: IndexLike, T: PartialOrd> PartialOrd for KeyedVec<K, T> {
    /// Ordering is lexicographic on the contents alone; the key type takes
    /// no part in it and needs no ordering of its own. Where the element
    /// type's comparison obeys its specification, the result is
    /// [`lex_cmp_of`] of the two contents.
    fn partial_cmp(&self, other: &KeyedVec<K, T>) -> (r: Option<Ordering>) {
        let shorter = if self.vec.len() < other.vec.len() {
            self.vec.len()
        } else {
            other.vec.len()
        };
        proof {
            assert(self@.skip(0) =~= self@);
            assert(other@.skip(0) =~= other@);
        }
        let mut i: usize = 0;
        while i < shorter
            invariant
                i <= shorter <= self@.len(),
                shorter <= other@.len(),
                shorter == self@.len() || shorter == other@.len(),
                T::obeys_partial_cmp_spec() ==> lex_cmp_of(self@, other@) == lex_cmp_of(
                    self@.skip(i as int),
                    other@.skip(i as int),
                ),
            decreases shorter - i,
        {
            let decided = self.vec[i].partial_cmp(&other.vec[i]);
            proof {
                assert(self@.skip(i as int)[0] == self@[i as int]);
                assert(other@.skip(i as int)[0] == other@[i as int]);
                assert(self@.skip(i as int).skip(1) =~= self@.skip(i as int + 1));
                assert(other@.skip(i as int).skip(1) =~= other@.skip(i as int + 1));
            }
            match decided {
                Some(Ordering::Equal) => {},
                _ => {
                    return decided;
                },
            }
            i = i + 1;
        }
        if self.vec.len() < other.vec.len() {
            Some(Ordering::Less)
        } else if other.vec.len() < self.vec.len() {
            Some(Ordering::Greater)
        } else {
            Some(Ordering::Equal)
        }
    }
}

impl<K: IndexLike, T: PartialOrd> vstd::std_specs::cmp::PartialOrdSpecImpl for KeyedVec<K, T> {
    open spec fn obeys_partial_cmp_spec() -> bool {
        T::obeys_partial_cmp_spec()
    }

    open spec fn partial_cmp_spec(&self, other: &KeyedVec<K, T>) -> Option<Ordering> {
        lex_cmp_of(self@, other@)
    }
}

impl<K: IndexLike, T: Clone> Clone for KeyedVec<K, T> {
    /// A container with a clone of every element, in order; the key type is
    /// carried over unchanged.
    fn clone(&self) -> (r: Self)
        ensures
            r@.len() == self@.len(),
            forall|i: int| 0 <= i < self@.len() ==> cloned::<T>(self@[i], #[trigger] r@[i]),
    {
        KeyedVec { key_marker: PhantomData, vec: self.vec.clone() }
    }
}

impl<K: IndexLike, T> Default for KeyedVec<K, T> {
    /// An empty container, as `new` gives.
    fn default() -> (v: Self)
        ensures
            v@ == Seq::<T>::empty(),
    {
        KeyedVec::new()
    }
}

impl<K: IndexLike, T> From<Vec<T>> for KeyedVec<K, T> {
    /// Takes the elements over in order, assigning fresh dense positions
    /// starting at zero.
    fn from(v: Vec<T>) -> (r: KeyedVec<K, T>)
        ensures
            r@ == v@,
    {
        KeyedVec { key_marker: PhantomData, vec: v }
    }
}

impl<K: IndexLike, T> vstd::std_specs::convert::FromSpecImpl<Vec<T>> for KeyedVec<K, T> {
    closed spec fn obeys_from_spec() -> bool {
        true
    }

    closed spec fn from_spec(v: Vec<T>) -> KeyedVec<K, T> {
        KeyedVec { key_marker: PhantomData, vec: v }
    }
}

/// Relies on `Vec::capacity`: the number of elements the vector can hold
/// without reallocating, never below its length.
#[verifier::external_body]
fn vec_capacity<T>(v: &Vec<T>) -> (c: usize)
    ensures
        c >= v@.len(),
{
    v.capacity()
}

/// Relies on `Vec::reserve_exact`: grows the capacity without touching the
/// elements.
#[verifier::external_body]
fn vec_reserve_exact<T>(v: &mut Vec<T>, additional: usize)
    requires
        old(v)@.len() + additional <= usize::MAX,
    ensures
        final(v)@ == old(v)@,
{
    v.reserve_exact(additional)
}

/// Relies on `Vec::try_reserve_exact`: grows the capacity or reports the
/// allocation failure, without touching the elements either way.
#[verifier::external_body]
fn vec_try_reserve_exact<T>(v: &mut Vec<T>, additional: usize) -> (r: Result<
    (),
    TryReserveError,
>)
    ensures
        final(v)@ == old(v)@,
{
    v.try_reserve_exact(additional)
}

/// Relies on `Vec::shrink_to_fit`: gives capacity back without touching the
/// elements.
#[verifier::external_body]
fn vec_shrink_to_fit<T>(v: &mut Vec<T>)
    ensures
        final(v)@ == old(v)@,
{
    v.shrink_to_fit()
}

/// Relies on `Vec::shrink_to`: lowers the capacity towards the given bound
/// without touching the elements.
#[verifier::external_body]
fn vec_shrink_to<T>(v: &mut Vec<T>, min_capacity: usize)
    ensures
        final(v)@ == old(v)@,
{
    v.shrink_to(min_capacity)
}

} // verus!
