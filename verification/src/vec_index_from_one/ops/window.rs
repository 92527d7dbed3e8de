//! Windows over runs of consecutive positions: copies, views, mutable views
//! and sliding-window cursors.
use vstd::prelude::*;

use crate::vec_index_from_one::index1::Index1;
use crate::vec_index_from_one::VecIndexFromOne;

verus! {

/// A mutable view of the positions `start..=end` of a container; writes
/// through it land in the container.
pub struct WindowMut<'a, T> {
    pub inner: &'a mut VecIndexFromOne<T>,
    pub start: usize,
    pub end: usize,
}

impl<'a, T> WindowMut<'a, T> {
    /// The window covers valid positions.
    pub open spec fn wf(&self) -> bool {
        1 <= self.start <= self.end <= self.inner@.len()
    }

    /// The elements currently in the window.
    pub open spec fn contents(&self) -> Seq<T> {
        self.inner@.subrange(self.start - 1, self.end as int)
    }

    pub(crate) fn new(inner: &'a mut VecIndexFromOne<T>, start: usize, end: usize) -> (r: Self)
        requires
            1 <= start <= end <= old(inner)@.len(),
        ensures
            r.wf(),
            r.start == start,
            r.end == end,
            *r.inner == *old(inner),
            *final(r.inner) == *final(inner),
    {
        WindowMut { inner, start, end }
    }

    /// The number of positions in the window, `end - start + 1`.
    pub fn len(&self) -> (r: usize)
        requires
            self.wf(),
        ensures
            r == self.end - self.start + 1,
    {
        self.end - self.start + 1
    }

    /// Whether the window has no position (never, for a valid window).
    pub fn is_empty(&self) -> (r: bool)
        requires
            self.wf(),
        ensures
            r == (self.end - self.start + 1 == 0),
    {
        self.len() == 0
    }

    /// The window's elements as a slice.
    pub fn as_slice(&self) -> (r: &[T])
        requires
            self.wf(),
        ensures
            r@ == self.contents(),
    {
        let all = self.inner.as_slice();
        &all[self.start - 1..self.end]
    }

    /// The window's elements as a mutable slice: what is written into it
    /// replaces the window's part of the container.
    pub fn as_mut_slice(&mut self) -> (r: &mut [T])
        requires
            old(self).wf(),
        ensures
            r@ == old(self).contents(),
            final(self).start == old(self).start,
            final(self).end == old(self).end,
            final(self).inner@ == old(self).inner@.subrange(0, old(self).start - 1) + final(r)@
                + old(self).inner@.subrange(old(self).end as int, old(self).inner@.len() as int),
            *final(final(self).inner) == *final(old(self).inner),
    {
        let start = self.start;
        let end = self.end;
        let all = self.inner.as_mut_slice();
        let (_, rest) = all.split_at_mut(start - 1);
        let (mid, _) = rest.split_at_mut(end - start + 1);
        mid
    }

    /// The element at window position `index` (1-based), for writing.
    pub fn index_mut(&mut self, index: usize) -> (r: &mut T)
        requires
            old(self).wf(),
            1 <= index <= old(self).end - old(self).start + 1,
        ensures
            *r == old(self).inner@[old(self).start + index - 2],
            final(self).inner@ == old(self).inner@.update(
                old(self).start + index - 2,
                *final(r),
            ),
            final(self).start == old(self).start,
            final(self).end == old(self).end,
            *final(final(self).inner) == *final(old(self).inner),
    {
        let p = self.start - 1 + index;
        self.inner.index_mut(p)
    }
}

/// Supports `w[i]` with a valid window position `i` (1-based).
impl<'a, T> core::ops::Index<usize> for WindowMut<'a, T> {
    type Output = T;

    fn index(&self, index: usize) -> (r: &T)
        ensures
            *r == self.contents()[index - 1],
    {
        let p = self.start - 1 + index;
        &self.inner[p]
    }
}

impl<'a, T> vstd::std_specs::core::IndexSpecImpl<usize> for WindowMut<'a, T> {
    open spec fn index_req(&self, index: &usize) -> bool {
        self.wf() && 1 <= *index <= self.end - self.start + 1
    }
}

/// A cursor over the overlapping windows of `size` consecutive elements,
/// each one position after the previous.
pub struct Windows<'a, T> {
    inner: &'a VecIndexFromOne<T>,
    pos: usize,
    size: usize,
}

impl<'a, T> Windows<'a, T> {
    /// The elements of the container being traversed.
    pub closed spec fn source(&self) -> Seq<T> {
        self.inner@
    }

    /// The 0-based index where the next window starts.
    pub closed spec fn next_index(&self) -> nat {
        self.pos as nat
    }

    /// The number of elements in each window.
    pub closed spec fn window_size(&self) -> nat {
        self.size as nat
    }

    /// The cursor state is consistent.
    pub closed spec fn wf(&self) -> bool {
        &&& self.size >= 1
        &&& self.pos <= self.inner@.len() + 1
        &&& self.size <= self.inner@.len() ==> self.pos <= self.inner@.len() - self.size + 1
        &&& self.size > self.inner@.len() ==> self.pos == 0
    }

    /// The number of windows still to come.
    pub open spec fn remaining(&self) -> int {
        if self.window_size() > self.source().len() {
            0
        } else {
            self.source().len() - self.window_size() + 1 - self.next_index()
        }
    }

    /// The windows still to come, in order: the one starting at 0-based
    /// index `next_index() + t` is entry `t`.
    pub open spec fn pending(&self) -> Seq<Seq<T>> {
        Seq::new(
            if self.remaining() > 0 {
                self.remaining() as nat
            } else {
                0
            },
            |t: int|
                self.source().subrange(
                    self.next_index() + t,
                    self.next_index() + t + self.window_size(),
                ),
        )
    }

    pub(crate) fn new(inner: &'a VecIndexFromOne<T>, window_size: usize) -> (r: Self)
        requires
            window_size >= 1,
        ensures
            r.wf(),
            r.source() == inner@,
            r.next_index() == 0,
            r.window_size() == window_size,
    {
        Windows { inner, pos: 0, size: window_size }
    }

    /// The next window, or `None` once every window was returned.
    pub fn next(&mut self) -> (r: Option<&'a [T]>)
        requires
            old(self).wf(),
        ensures
            final(self).wf(),
            final(self).source() == old(self).source(),
            final(self).window_size() == old(self).window_size(),
            old(self).remaining() > 0 ==> r is Some && r->0@ == old(self).source().subrange(
                old(self).next_index() as int,
                (old(self).next_index() + old(self).window_size()) as int,
            ) && final(self).next_index() == old(self).next_index() + 1,
            old(self).remaining() <= 0 ==> r is None && final(self).next_index() == old(
                self,
            ).next_index(),
            r is None <==> old(self).pending().len() == 0,
            r matches Some(w) ==> w@ == old(self).pending()[0],
            final(self).pending() == if r is Some {
                old(self).pending().drop_first()
            } else {
                old(self).pending()
            },
    {
        let len = self.inner.len();
        if self.size > len || self.pos > len - self.size {
            return None;
        }
        let all = self.inner.as_slice();
        let w = &all[self.pos..self.pos + self.size];
        let ghost before = self.pending();
        self.pos = self.pos + 1;
        proof {
            assert(self.pending() =~= before.drop_first());
        }
        Some(w)
    }

    /// The number of windows still to come, as lower and upper bound.
    pub fn size_hint(&self) -> (r: (usize, Option<usize>))
        requires
            self.wf(),
        ensures
            r.0 == self.remaining(),
            r.1 == Some(r.0),
    {
        let n = self.len();
        (n, Some(n))
    }

    /// The number of windows still to come.
    pub fn len(&self) -> (r: usize)
        requires
            self.wf(),
        ensures
            r == self.remaining(),
    {
        let len = self.inner.len();
        if self.size > len {
            0
        } else {
            len - self.size + 1 - self.pos
        }
    }
}

/// A cursor over the overlapping windows of `size` consecutive elements that
/// lends each window for writing; writes land in the container.
pub struct WindowsMut<'a, T> {
    pub inner: &'a mut VecIndexFromOne<T>,
    pub pos: usize,
    pub size: usize,
}

impl<'a, T> WindowsMut<'a, T> {
    /// The number of windows still to come.
    pub open spec fn remaining(&self) -> int {
        if self.size > self.inner@.len() || self.pos > self.inner@.len() - self.size {
            0
        } else {
            self.inner@.len() - self.size + 1 - self.pos
        }
    }

    pub(crate) fn new(inner: &'a mut VecIndexFromOne<T>, window_size: usize) -> (r: Self)
        requires
            window_size >= 1,
        ensures
            *r.inner == *old(inner),
            *final(r.inner) == *final(inner),
            r.pos == 0,
            r.size == window_size,
    {
        WindowsMut { inner, pos: 0, size: window_size }
    }

    /// Lends the next window for writing, or `None` once every window was
    /// returned.
    pub fn next(&mut self) -> (r: Option<&mut [T]>)
        requires
            old(self).size >= 1,
        ensures
            final(self).size == old(self).size,
            *final(final(self).inner) == *final(old(self).inner),
            old(self).remaining() > 0 ==> r is Some && r->0@ == old(self).inner@.subrange(
                old(self).pos as int,
                old(self).pos + old(self).size,
            ) && final(self).pos == old(self).pos + 1 && final(self).inner@ == old(
                self,
            ).inner@.subrange(0, old(self).pos as int) + final(r->0)@ + old(
                self,
            ).inner@.subrange(old(self).pos + old(self).size, old(self).inner@.len() as int),
            old(self).remaining() <= 0 ==> r is None && final(self).pos == old(self).pos
                && final(self).inner@ == old(self).inner@,
    {
        let len = self.inner.len();
        if self.size > len || self.pos > len - self.size {
            return None;
        }
        let pos = self.pos;
        let size = self.size;
        self.pos = pos + 1;
        let all = self.inner.as_mut_slice();
        let (_, rest) = all.split_at_mut(pos);
        let (mid, _) = rest.split_at_mut(size);
        Some(mid)
    }

    /// The number of windows still to come, as lower and upper bound.
    pub fn size_hint(&self) -> (r: (usize, Option<usize>))
        requires
            self.size >= 1,
        ensures
            r.0 == self.remaining(),
            r.1 == Some(r.0),
    {
        let len = self.inner.len();
        let n = if self.size > len || self.pos > len - self.size {
            0
        } else {
            len - self.size + 1 - self.pos
        };
        (n, Some(n))
    }
}

impl<T: Copy> VecIndexFromOne<T> {
    /// A copy of the positions `start..=end`, itself 1-indexed.
    pub fn window(&self, start: usize, end: usize) -> (r: VecIndexFromOne<T>)
        requires
            1 <= start <= end <= self@.len(),
        ensures
            r@ == self@.subrange(start - 1, end as int),
    {
        let mut out: VecIndexFromOne<T> = VecIndexFromOne::with_capacity(end - start + 1);
        let mut k: usize = start - 1;
        while k < end
            invariant
                1 <= start <= end <= self@.len(),
                start - 1 <= k <= end,
                out@ == self@.subrange(start - 1, k as int),
            decreases end - k,
        {
            out.push(self[k + 1]);
            k += 1;
            proof {
                assert(out@ =~= self@.subrange(start - 1, k as int));
            }
        }
        out
    }

    /// Type-safe form of [`window`](VecIndexFromOne::window).
    pub fn window_index1(&self, start: Index1, end: Index1) -> (r: VecIndexFromOne<T>)
        requires
            1 <= start@ <= end@ <= self@.len(),
        ensures
            r@ == self@.subrange(start@ - 1, end@ as int),
    {
        self.window(start.get(), end.get())
    }
}

impl<T> VecIndexFromOne<T> {
    /// A mutable view of the positions `start..=end`.
    pub fn window_mut(&mut self, start: usize, end: usize) -> (r: WindowMut<'_, T>)
        requires
            1 <= start <= end <= old(self)@.len(),
        ensures
            r.wf(),
            r.start == start,
            r.end == end,
            *r.inner == *old(self),
            *final(r.inner) == *final(self),
    {
        WindowMut::new(self, start, end)
    }

    /// Type-safe form of [`window_mut`](VecIndexFromOne::window_mut).
    pub fn window_mut_index1(&mut self, start: Index1, end: Index1) -> (r: WindowMut<'_, T>)
        requires
            1 <= start@ <= end@ <= old(self)@.len(),
        ensures
            r.wf(),
            r.start == start@,
            r.end == end@,
            *r.inner == *old(self),
            *final(r.inner) == *final(self),
    {
        self.window_mut(start.get(), end.get())
    }

    /// A view of the positions `start..=end` without copying.
    pub fn window_view(&self, start: usize, end: usize) -> (r: &[T])
        requires
            1 <= start <= end <= self@.len(),
        ensures
            r@ == self@.subrange(start - 1, end as int),
    {
        let all = self.as_slice();
        &all[start - 1..end]
    }

    /// A cursor over the windows of `window_size` consecutive elements: it
    /// yields, in order, the windows starting at positions
    /// `1..=len - window_size + 1` (none when `window_size > len`), then
    /// `None`.
    pub fn windows(&self, window_size: usize) -> (r: Windows<'_, T>)
        requires
            window_size > 0,
        ensures
            r.wf(),
            r.source() == self@,
            r.next_index() == 0,
            r.window_size() == window_size,
            r.pending() == Seq::new(
                if window_size > self@.len() {
                    0
                } else {
                    (self@.len() - window_size + 1) as nat
                },
                |k: int| self@.subrange(k, k + window_size),
            ),
    {
        let r = Windows::new(self, window_size);
        proof {
            assert(r.pending() =~= Seq::new(
                if window_size > self@.len() {
                    0
                } else {
                    (self@.len() - window_size + 1) as nat
                },
                |k: int| self@.subrange(k, k + window_size),
            ));
        }
        r
    }

    /// A cursor lending, in turn, each window of `window_size` consecutive
    /// elements for writing.
    pub fn windows_mut(&mut self, window_size: usize) -> (r: WindowsMut<'_, T>)
        requires
            window_size > 0,
        ensures
            *r.inner == *old(self),
            *final(r.inner) == *final(self),
            r.pos == 0,
            r.size == window_size,
    {
        WindowsMut::new(self, window_size)
    }
}

} // verus!
