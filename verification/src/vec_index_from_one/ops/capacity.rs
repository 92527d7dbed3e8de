//! Conditional shrinking and growing of the capacity.
use vstd::prelude::*;

use crate::vec_index_from_one::VecIndexFromOne;

verus! {

/// Whether a vector of length `len` and capacity `capacity` is shrunk under
/// the factor rule: always for `factor == 0`, else when
/// `capacity > len * factor`.
pub fn shrink_by_factor_needed(len: usize, capacity: usize, factor: usize) -> (r: bool)
    requires
        factor == 0 || len * factor <= usize::MAX,
    ensures
        r == (factor == 0 || capacity > len * factor),
{
    if factor == 0 {
        return true;
    }
    capacity > len * factor
}

/// Whether a vector of length `len` and capacity `capacity` is shrunk under
/// the excess rule: when the unused room exceeds `threshold`.
pub fn shrink_by_excess_needed(len: usize, capacity: usize, threshold: usize) -> (r: bool)
    ensures
        r == (capacity > len && capacity - len > threshold),
{
    capacity > len && capacity - len > threshold
}

/// How many more elements to reserve room for so that a vector of length
/// `len` and capacity `capacity` can hold `min_capacity` elements: `None`
/// when the capacity already suffices.
pub fn growth_needed(len: usize, capacity: usize, min_capacity: usize) -> (r: Option<usize>)
    requires
        len <= capacity,
    ensures
        capacity >= min_capacity ==> r is None,
        capacity < min_capacity ==> r == Some((min_capacity - len) as usize),
{
    if capacity < min_capacity {
        Some(min_capacity - len)
    } else {
        None
    }
}

impl<T> VecIndexFromOne<T> {
    /// Shrinks the capacity to the length when `factor == 0` or the capacity
    /// exceeds `len * factor`; the elements are unchanged.
    pub fn shrink_to_fit_if(&mut self, factor: usize)
        requires
            factor == 0 || old(self)@.len() * factor <= usize::MAX,
        ensures
            final(self)@ == old(self)@,
    {
        let len = self.len();
        let cap = self.capacity();
        if shrink_by_factor_needed(len, cap, factor) {
            self.shrink_to_fit();
        }
    }

    /// Shrinks the capacity to the length when the unused room exceeds
    /// `threshold`; the elements are unchanged.
    pub fn shrink_to_fit_if_excess(&mut self, threshold: usize)
        ensures
            final(self)@ == old(self)@,
    {
        let len = self.len();
        let cap = self.capacity();
        if shrink_by_excess_needed(len, cap, threshold) {
            self.shrink_to_fit();
        }
    }

    /// Grows the capacity to at least `min_capacity` (never shrinks it) and
    /// returns the capacity afterwards; the elements are unchanged.
    pub fn ensure_capacity(&mut self, min_capacity: usize) -> (r: usize)
        ensures
            final(self)@ == old(self)@,
            r >= final(self)@.len(),
    {
        let len = self.len();
        let cap = self.capacity();
        match growth_needed(len, cap, min_capacity) {
            Some(additional) => self.reserve(additional),
            None => {},
        }
        self.capacity()
    }
}

} // verus!
