//! `VecIndexFromOne<T>`: a one-based wrapper around `Vec<T>`.
//!
//! The first element lives at position `1` and the last at position `len`.
//! Position `0` and positions past `len` are invalid: `get` / `get_mut` answer
//! `None` for them, while the subscript forms require a valid position.
pub mod index1;
pub mod laws;
pub mod ops;

use vstd::prelude::*;
use vstd::std_specs::convert::FromSpecImpl;
use vstd::std_specs::iter::IteratorSpec;

use self::index1::Index1;

verus! {

/// A one-based wrapper around `Vec<T>`.
///
/// Its view is the sequence of its elements; the element at 1-based position
/// `p` is `self@[p - 1]`.
#[derive(Debug, Clone, PartialEq, Eq, PartialOrd, Ord, Hash, Default)]
pub struct VecIndexFromOne<T> {
    inner: Vec<T>,
}

impl<T> View for VecIndexFromOne<T> {
    type V = Seq<T>;

    closed spec fn view(&self) -> Seq<T> {
        self.inner@
    }
}

#[verifier::external_type_specification]
#[verifier::external_body]
#[verifier::reject_recursive_types(T)]
pub struct ExIterMut<'a, T: 'a>(core::slice::IterMut<'a, T>);

/// `Vec::capacity`: the number of elements the vector can hold without
/// reallocating.
///
/// Trusted: std documents `len <= capacity`; the exact value is up to the
/// allocator and is not stated.
#[verifier::external_body]
fn vec_capacity<T>(v: &Vec<T>) -> (r: usize)
    ensures
        r >= v@.len(),
{
    v.capacity()
}

/// `Vec::shrink_to_fit`: releases unused capacity.
///
/// Trusted: std documents that the elements are kept; what capacity remains
/// is up to the allocator and is not stated.
#[verifier::external_body]
fn vec_shrink_to_fit<T>(v: &mut Vec<T>)
    ensures
        final(v)@ == old(v)@,
{
    v.shrink_to_fit()
}

/// Whether `index` is a valid 1-based position in a sequence of length `len`.
pub open spec fn valid_position(index: int, len: nat) -> bool {
    1 <= index <= len
}

impl<T> VecIndexFromOne<T> {
    /// Constructs an empty container.
    pub fn new() -> (r: Self)
        ensures
            r@ == Seq::<T>::empty(),
    {
        VecIndexFromOne { inner: Vec::new() }
    }

    /// Constructs an empty container with room for `capacity` elements.
    pub fn with_capacity(capacity: usize) -> (r: Self)
        ensures
            r@ == Seq::<T>::empty(),
    {
        VecIndexFromOne { inner: Vec::with_capacity(capacity) }
    }

    /// Returns the number of elements.
    pub fn len(&self) -> (r: usize)
        ensures
            r == self@.len(),
    {
        self.inner.len()
    }

    /// Returns whether the container is empty.
    pub fn is_empty(&self) -> (r: bool)
        ensures
            r == (self@.len() == 0),
    {
        self.inner.len() == 0
    }

    /// Appends an element at position `len + 1`.
    pub fn push(&mut self, value: T)
        ensures
            final(self)@ == old(self)@.push(value),
    {
        self.inner.push(value);
    }

    /// Removes and returns the last element, if any.
    pub fn pop(&mut self) -> (r: Option<T>)
        ensures
            old(self)@.len() == 0 ==> r is None && final(self)@ == old(self)@,
            old(self)@.len() > 0 ==> r == Some(old(self)@.last())
                && final(self)@ == old(self)@.drop_last(),
    {
        self.inner.pop()
    }

    /// Removes all elements.
    pub fn clear(&mut self)
        ensures
            final(self)@ == Seq::<T>::empty(),
    {
        self.inner.clear();
    }

    /// Inserts `value` at the 1-based position `index`, shifting later
    /// elements one position up; `insert(len + 1, x)` appends.
    pub fn insert(&mut self, index: usize, value: T)
        requires
            1 <= index <= old(self)@.len() + 1,
        ensures
            final(self)@ == old(self)@.insert(index - 1, value),
    {
        self.inner.insert(index - 1, value);
    }

    /// Removes and returns the element at the 1-based position `index`.
    pub fn remove(&mut self, index: usize) -> (r: T)
        requires
            valid_position(index as int, old(self)@.len()),
        ensures
            r == old(self)@[index - 1],
            final(self)@ == old(self)@.remove(index - 1),
    {
        self.inner.remove(index - 1)
    }

    /// Returns the element at the 1-based position `index`, or `None` when
    /// `index` is `0` or past the end.
    pub fn get(&self, index: usize) -> (r: Option<&T>)
        ensures
            r == (if valid_position(index as int, self@.len()) {
                Some(&self@[index - 1])
            } else {
                None
            }),
    {
        if index >= 1 && index <= self.inner.len() {
            Some(&self.inner[index - 1])
        } else {
            None
        }
    }

    /// Returns a mutable reference to the element at the 1-based position
    /// `index`, or `None` when `index` is `0` or past the end.
    pub fn get_mut(&mut self, index: usize) -> (r: Option<&mut T>)
        ensures
            valid_position(index as int, old(self)@.len()) ==> r is Some && *r->0 == old(self)@[index
                - 1] && final(self)@ == old(self)@.update(index - 1, *final(r->0)),
            !valid_position(index as int, old(self)@.len()) ==> r is None && final(self)@ == old(
                self,
            )@,
    {
        if index >= 1 && index <= self.inner.len() {
            Some(&mut self.inner[index - 1])
        } else {
            None
        }
    }

    /// Type-safe form of [`get`](VecIndexFromOne::get).
    pub fn get_index1(&self, index: Index1) -> (r: Option<&T>)
        ensures
            r == (if valid_position(index@ as int, self@.len()) {
                Some(&self@[index@ - 1])
            } else {
                None
            }),
    {
        self.get(index.get())
    }

    /// Type-safe form of [`get_mut`](VecIndexFromOne::get_mut).
    pub fn get_index1_mut(&mut self, index: Index1) -> (r: Option<&mut T>)
        ensures
            valid_position(index@ as int, old(self)@.len()) ==> r is Some && *r->0 == old(self)@[index@
                - 1] && final(self)@ == old(self)@.update(index@ - 1, *final(r->0)),
            !valid_position(index@ as int, old(self)@.len()) ==> r is None && final(self)@ == old(
                self,
            )@,
    {
        self.get_mut(index.get())
    }

    /// Returns the element at the 1-based position `index`, which must be valid.
    pub fn index_mut(&mut self, index: usize) -> (r: &mut T)
        requires
            valid_position(index as int, old(self)@.len()),
        ensures
            *r == old(self)@[index - 1],
            final(self)@ == old(self)@.update(index - 1, *final(r)),
    {
        &mut self.inner[index - 1]
    }

    /// Type-safe form of [`index_mut`](VecIndexFromOne::index_mut).
    pub fn index1_mut(&mut self, index: Index1) -> (r: &mut T)
        requires
            valid_position(index@ as int, old(self)@.len()),
        ensures
            *r == old(self)@[index@ - 1],
            final(self)@ == old(self)@.update(index@ - 1, *final(r)),
    {
        self.index_mut(index.get())
    }

    /// Returns the first element (position 1), if any.
    pub fn first(&self) -> (r: Option<&T>)
        ensures
            r == (if self@.len() > 0 { Some(&self@[0]) } else { None }),
    {
        self.get(1)
    }

    /// Returns a mutable reference to the first element, if any.
    pub fn first_mut(&mut self) -> (r: Option<&mut T>)
        ensures
            old(self)@.len() > 0 ==> r is Some && *r->0 == old(self)@[0] && final(self)@ == old(
                self,
            )@.update(0, *final(r->0)),
            old(self)@.len() == 0 ==> r is None && final(self)@ == old(self)@,
    {
        self.get_mut(1)
    }

    /// Returns the last element (position `len`), if any.
    pub fn last(&self) -> (r: Option<&T>)
        ensures
            r == (if self@.len() > 0 { Some(&self@.last()) } else { None }),
    {
        let n = self.inner.len();
        self.get(n)
    }

    /// Returns a mutable reference to the last element, if any.
    pub fn last_mut(&mut self) -> (r: Option<&mut T>)
        ensures
            old(self)@.len() > 0 ==> r is Some && *r->0 == old(self)@.last() && final(self)@ == old(
                self,
            )@.update(old(self)@.len() - 1, *final(r->0)),
            old(self)@.len() == 0 ==> r is None && final(self)@ == old(self)@,
    {
        let n = self.inner.len();
        self.get_mut(n)
    }

    /// Iterates over the elements in order.
    pub fn iter(&self) -> (r: core::slice::Iter<'_, T>)
        ensures
            r.remaining() == self@.map_values(|x: T| &x),
    {
        self.inner.iter()
    }

    /// Iterates over the elements in order, for writing.
    ///
    /// Trusted: a direct call of `<[T]>::iter_mut`, which yields a mutable
    /// reference to each element in order; no contract is stated for the
    /// iterator.
    #[verifier::external_body]
    pub fn iter_mut(&mut self) -> core::slice::IterMut<'_, T> {
        self.inner.iter_mut()
    }

    /// The elements paired with their 1-based positions, in order.
    pub fn iter_indexed(&self) -> (r: Vec<(usize, &T)>)
        ensures
            r@.len() == self@.len(),
            forall|i: int| 0 <= i < self@.len() ==> #[trigger] r@[i].0 == i + 1 && *r@[i].1 == self@[i],
    {
        let n = self.inner.len();
        let mut out: Vec<(usize, &T)> = Vec::with_capacity(n);
        let mut i: usize = 0;
        while i < n
            invariant
                n == self@.len(),
                i <= n,
                out@.len() == i,
                forall|j: int| 0 <= j < i ==> #[trigger] out@[j].0 == j + 1 && *out@[j].1 == self@[j],
            decreases n - i,
        {
            out.push((i + 1, &self.inner[i]));
            i += 1;
        }
        out
    }

    /// The range of valid 1-based positions, `1..=len`.
    pub fn indices(&self) -> (r: core::ops::RangeInclusive<usize>)
        ensures
            r@.start == 1,
            r@.end == self@.len(),
            !r@.exhausted,
    {
        1..=self.inner.len()
    }

    /// Reverses the order of the elements in place.
    pub fn reverse(&mut self)
        ensures
            final(self)@ == old(self)@.reverse(),
    {
        let mut out: Vec<T> = Vec::with_capacity(self.inner.len());
        let ghost orig = self.inner@;
        while self.inner.len() > 0
            invariant
                out@.len() + self.inner@.len() == orig.len(),
                self.inner@ == orig.subrange(0, self.inner@.len() as int),
                forall|j: int|
                    0 <= j < out@.len() ==> #[trigger] out@[j] == orig[orig.len() - 1 - j],
            decreases self.inner@.len(),
        {
            let x = self.inner.pop().unwrap();
            out.push(x);
        }
        assert(out@ =~= orig.reverse());
        self.inner = out;
    }

    /// Returns a copy with the elements in reverse order; each element of the
    /// copy is a clone of the element it mirrors, so for a type whose clones
    /// equal their originals the copy is exactly the reversed sequence.
    pub fn reversed(&self) -> (r: Self) where T: Clone
        ensures
            r@.len() == self@.len(),
            forall|i: int|
                0 <= i < self@.len() ==> cloned::<T>(
                    self@[self@.len() - 1 - i],
                    #[trigger] r@[i],
                ),
            (forall|x: T, y: T| #[trigger] cloned::<T>(x, y) ==> x == y) ==> r@ == self@.reverse(),
    {
        let mut copy = VecIndexFromOne { inner: self.inner.clone() };
        let ghost c = copy@;
        copy.reverse();
        proof {
            assert forall|i: int| 0 <= i < self@.len() implies cloned::<T>(
                self@[self@.len() - 1 - i],
                #[trigger] copy@[i],
            ) by {
                assert(copy@[i] == c[c.len() - 1 - i]);
            }
            if forall|x: T, y: T| #[trigger] cloned::<T>(x, y) ==> x == y {
                assert(copy@ =~= self@.reverse());
            }
        }
        copy
    }

    /// The underlying vector.
    pub fn as_vec(&self) -> (r: &Vec<T>)
        ensures
            r@ == self@,
    {
        &self.inner
    }

    /// All elements as a slice (0-based).
    pub fn as_slice(&self) -> (r: &[T])
        ensures
            r@ == self@,
    {
        self.inner.as_slice()
    }

    /// All elements as a mutable slice (0-based).
    pub fn as_mut_slice(&mut self) -> (r: &mut [T])
        ensures
            r@ == old(self)@,
            final(r)@ == final(self)@,
    {
        self.inner.as_mut_slice()
    }

    /// The number of elements the container can hold without reallocating
    /// (at least its length).
    pub fn capacity(&self) -> (r: usize)
        ensures
            r >= self@.len(),
    {
        vec_capacity(&self.inner)
    }

    /// Releases unused capacity; the elements are unchanged.
    pub fn shrink_to_fit(&mut self)
        ensures
            final(self)@ == old(self)@,
    {
        vec_shrink_to_fit(&mut self.inner);
    }

    /// Reserves room for at least `additional` more elements; the elements
    /// are unchanged.
    pub fn reserve(&mut self, additional: usize)
        ensures
            final(self)@ == old(self)@,
    {
        self.inner.reserve(additional);
    }

    /// Appends all elements of `items` in order.
    pub fn extend(&mut self, items: Vec<T>)
        ensures
            final(self)@ == old(self)@ + items@,
    {
        let mut items = items;
        self.inner.append(&mut items);
    }

    /// Replaces the element at the 1-based position `index` with `value` and
    /// returns the old element.
    pub fn replace(&mut self, index: usize, value: T) -> (r: T)
        requires
            valid_position(index as int, old(self)@.len()),
        ensures
            r == old(self)@[index - 1],
            final(self)@ == old(self)@.update(index - 1, value),
    {
        let mut v = value;
        core::mem::swap(&mut self.inner[index - 1], &mut v);
        v
    }
}

impl<T> From<Vec<T>> for VecIndexFromOne<T> {
    fn from(vec: Vec<T>) -> (r: Self)
        ensures
            r@ == vec@,
    {
        VecIndexFromOne { inner: vec }
    }
}

impl<T> FromSpecImpl<Vec<T>> for VecIndexFromOne<T> {
    open spec fn obeys_from_spec() -> bool {
        true
    }

    closed spec fn from_spec(v: Vec<T>) -> Self {
        VecIndexFromOne { inner: v }
    }
}

impl<T> From<VecIndexFromOne<T>> for Vec<T> {
    fn from(v: VecIndexFromOne<T>) -> (r: Vec<T>)
        ensures
            r@ == v@,
    {
        v.inner
    }
}

impl<T> FromSpecImpl<VecIndexFromOne<T>> for Vec<T> {
    open spec fn obeys_from_spec() -> bool {
        true
    }

    closed spec fn from_spec(v: VecIndexFromOne<T>) -> Vec<T> {
        v.inner
    }
}

/// Supports `v[i]` with a valid 1-based position `i`.
impl<T> core::ops::Index<usize> for VecIndexFromOne<T> {
    type Output = T;

    fn index(&self, index: usize) -> (r: &T)
        ensures
            *r == self@[index - 1],
    {
        &self.inner[index - 1]
    }
}

impl<T> vstd::std_specs::core::IndexSpecImpl<usize> for VecIndexFromOne<T> {
    open spec fn index_req(&self, index: &usize) -> bool {
        valid_position(*index as int, self@.len())
    }
}

/// Supports `v[p]` with a valid [`Index1`] position `p`.
impl<T> core::ops::Index<Index1> for VecIndexFromOne<T> {
    type Output = T;

    fn index(&self, index: Index1) -> (r: &T)
        ensures
            *r == self@[index@ - 1],
    {
        &self.inner[index.get() - 1]
    }
}

impl<T> vstd::std_specs::core::IndexSpecImpl<Index1> for VecIndexFromOne<T> {
    open spec fn index_req(&self, index: &Index1) -> bool {
        valid_position(index@ as int, self@.len())
    }
}

} // verus!
