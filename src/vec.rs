//! The growable array: a buffer owned through a layout, a live count and a
//! capacity.

use vstd::prelude::*;
use crate::layouts::{ElementLayout, Flat, Slice, SlicePtr};
use crate::layouts::slice::{SliceIter, SliceIterMut};
use crate::reference::{Ref, RefMut};

verus! {

/// A growable array of `T` whose storage is arranged by `TLayout`.
///
/// Slots `[0, len)` hold the live elements; slots `[len, capacity)` are
/// reserved storage.
pub struct AVec<T, TLayout: ElementLayout<T> = Flat> {
    buf: TLayout::Buf,
    ptr: TLayout::Ptr,
    count: usize,
    capacity: usize,
}

/// The capacity that a full container grows to when one more element comes.
pub open spec fn grown_capacity(capacity: int) -> int {
    if capacity == 0 {
        2
    } else {
        capacity * 2
    }
}

/// The capacity that `reserve(additional)` grows to, where it must grow.
pub open spec fn reserved_capacity(count: int, additional: int, capacity: int) -> int {
    if count + additional >= capacity * 2 {
        count + additional
    } else {
        capacity * 2
    }
}

/// The elements of `s` whose flag in `keep` is set, in their order.
pub open spec fn select<T>(s: Seq<T>, keep: Seq<bool>) -> Seq<T>
    decreases s.len(),
{
    if s.len() == 0 || keep.len() != s.len() {
        Seq::empty()
    } else if keep.last() {
        select(s.drop_last(), keep.drop_last()).push(s.last())
    } else {
        select(s.drop_last(), keep.drop_last())
    }
}

/// The elements that a sequence of slots holds in `[start, end)`.
pub open spec fn slot_values<T>(slots: Seq<Option<T>>, start: int, end: int) -> Seq<T> {
    Seq::new((end - start) as nat, |i: int| slots[start + i]->0)
}

/// The elements that a sequence of slots holds in `[0, count)`.
pub open spec fn live_elements<T>(slots: Seq<Option<T>>, count: int) -> Seq<T> {
    Seq::new(count as nat, |i: int| slots[i]->0)
}

impl<T, TLayout: ElementLayout<T>> View for AVec<T, TLayout> {
    type V = Seq<T>;

    closed spec fn view(&self) -> Seq<T> {
        live_elements(TLayout::slots(&self.buf), self.count as int)
    }
}

impl<T, TLayout: ElementLayout<T>> AVec<T, TLayout> {
    /// The storage's slots.
    pub closed spec fn storage(&self) -> Seq<Option<T>> {
        TLayout::slots(&self.buf)
    }

    /// The number of elements that the storage has room for.
    pub closed spec fn spec_capacity(&self) -> nat {
        self.capacity as nat
    }

    /// Whether the container may be given storage for `n` elements: the
    /// footprint of `n` elements is addressable.
    pub open spec fn fits(n: int) -> bool {
        0 <= n <= isize::MAX && TLayout::footprint(n as nat) is Some
    }

    /// The container's invariant.
    pub closed spec fn well_formed(&self) -> bool {
        &&& TLayout::buf_wf(&self.buf)
        &&& TLayout::ptr_wf(self.ptr)
        &&& TLayout::index(self.ptr) == 0
        &&& self.count <= self.capacity
        &&& self.capacity <= isize::MAX
        &&& TLayout::slots(&self.buf).len() == self.capacity
        &&& (self.capacity > 0 ==> TLayout::footprint(self.capacity as nat) is Some)
        &&& forall|i: int| 0 <= i < self.count ==> (#[trigger] TLayout::slots(&self.buf)[i]) is Some
    }

    /// Every well-formed container holds at most `capacity` elements, and
    /// owns storage of exactly `capacity` slots, whose footprint is
    /// addressable when `capacity > 0`.
    pub proof fn lemma_well_formed(&self)
        requires
            self.well_formed(),
        ensures
            self@.len() <= self.spec_capacity(),
            self.storage().len() == self.spec_capacity(),
            self.spec_capacity() > 0 ==> Self::fits(self.spec_capacity() as int),
            forall|i: int| 0 <= i < self@.len() ==> self.storage()[i] == Some(self@[i]),
    {
    }

    /// An empty container without storage.
    pub fn new() -> (r: Self)
        ensures
            r.well_formed(),
            r@ == Seq::<T>::empty(),
            r.spec_capacity() == 0,
    {
        let buf = Self::unallocated();
        let r = AVec { buf, ptr: TLayout::dangling(), count: 0, capacity: 0 };
        assert(r@ =~= Seq::<T>::empty());
        r
    }

    /// Storage for no element.
    fn unallocated() -> (r: TLayout::Buf)
        ensures
            TLayout::buf_wf(&r),
            TLayout::slots(&r).len() == 0,
    {
        let mut buf = TLayout::allocate(0);
        TLayout::initialize(&mut buf, TLayout::dangling(), 0);
        buf
    }

    /// An empty container with storage for exactly `capacity` elements; where
    /// that storage would be zero bytes, none is made and the capacity is 0.
    pub fn with_capacity(capacity: usize) -> (r: Self)
        requires
            Self::fits(capacity as int),
        ensures
            r.well_formed(),
            r@ == Seq::<T>::empty(),
            r.spec_capacity() == if TLayout::footprint(capacity as nat)->0.size == 0 {
                0
            } else {
                capacity
            },
    {
        let (layout, info) = match TLayout::layout_array(capacity) {
            Some(p) => p,
            None => {
                return Self::new();
            },
        };
        if layout.size == 0 {
            return Self::new();
        }
        let mut buf = TLayout::allocate(capacity);
        let ptr = TLayout::from_flat_ptr(&info);
        TLayout::initialize(&mut buf, ptr, capacity);
        let r = AVec { buf, ptr, count: 0, capacity };
        assert(r@ =~= Seq::<T>::empty());
        r
    }

    /// Whether the container holds no element.
    pub fn is_empty(&self) -> (r: bool)
        ensures
            r == (self@.len() == 0),
    {
        self.len() == 0
    }

    /// The number of live elements.
    pub fn len(&self) -> (r: usize)
        ensures
            r == self@.len(),
    {
        self.count
    }

    /// The number of elements that the storage has room for.
    pub fn capacity(&self) -> (r: usize)
        ensures
            r == self.spec_capacity(),
    {
        self.capacity
    }

    /// Declares the first `length` slots to be the live elements; they must
    /// hold elements.
    pub fn set_len(&mut self, length: usize)
        requires
            old(self).well_formed(),
            length <= old(self).spec_capacity(),
            forall|i: int| 0 <= i < length ==> (#[trigger] old(self).storage()[i]) is Some,
        ensures
            final(self).well_formed(),
            final(self)@ == live_elements(old(self).storage(), length as int),
            final(self).spec_capacity() == old(self).spec_capacity(),
    {
        self.count = length;
        assert forall|i: int| 0 <= i < self.count implies (#[trigger] TLayout::slots(
            &self.buf,
        )[i]) is Some by {
            assert(old(self).storage()[i] is Some);
        }
    }

    /// A shared view of the live elements.
    pub fn as_slice<'a>(&'a self) -> (r: Ref<'a, [T], Slice<TLayout>>)
        requires
            self.well_formed(),
        ensures
            r.wf(),
            r.raw().start() == 0,
            r.raw().count() == self@.len(),
            r.elements() == self@.map(|i: int, x: T| Some(x)),
    {
        let r = Ref::from_raw(SlicePtr::from_raw_parts(self.ptr, self.count), &self.buf);
        assert(r.elements() =~= self@.map(|i: int, x: T| Some(x)));
        r
    }

    /// Shared handles on the live elements, first to last.
    pub fn iter<'a>(&'a self) -> (r: SliceIter<'a, T, TLayout>)
        requires
            self.well_formed(),
        ensures
            r.wf(),
            r.start_index() == 0,
            r.remaining() == self@.map(|i: int, x: T| Some(x)),
    {
        self.as_slice().into_iter()
    }

    /// The container with its storage replaced by `buf`.
    pub closed spec fn with_storage(self, buf: TLayout::Buf) -> Self {
        AVec { buf, ptr: self.ptr, count: self.count, capacity: self.capacity }
    }

    /// Storage of the same length and representation invariant, whose first
    /// `len` slots are live, keeps the container well formed.
    pub proof fn lemma_with_storage(self, buf: TLayout::Buf)
        requires
            self.well_formed(),
            TLayout::buf_wf(&buf),
            TLayout::slots(&buf).len() == self.storage().len(),
            forall|i: int| 0 <= i < self@.len() ==> (#[trigger] TLayout::slots(&buf)[i]) is Some,
        ensures
            self.with_storage(buf).well_formed(),
            self.with_storage(buf)@ == live_elements(TLayout::slots(&buf), self@.len() as int),
            self.with_storage(buf).spec_capacity() == self.spec_capacity(),
    {
    }

    /// An exclusive view of the live elements.
    pub fn as_mut_slice<'a>(&'a mut self) -> (r: RefMut<'a, [T], Slice<TLayout>>)
        requires
            old(self).well_formed(),
        ensures
            r.wf(),
            r.raw().start() == 0,
            r.raw().count() == old(self)@.len(),
            r.elements() == old(self)@.map(|i: int, x: T| Some(x)),
            TLayout::buf_wf(&*r.target()),
            TLayout::slots(&*r.target()) == old(self).storage(),
            *final(self) == old(self).with_storage(*final(r.target())),
    {
        let r = RefMut::from_raw(SlicePtr::from_raw_parts(self.ptr, self.count), &mut self.buf);
        assert(r.elements() =~= old(self)@.map(|i: int, x: T| Some(x)));
        r
    }

    /// Exclusive handles on the live elements, one at a time, first to last.
    pub fn iter_mut<'a>(&'a mut self) -> (r: SliceIterMut<'a, T, TLayout>)
        requires
            old(self).well_formed(),
        ensures
            r.wf(),
            r.start_index() == 0,
            r.remaining() == old(self)@.map(|i: int, x: T| Some(x)),
            TLayout::buf_wf(&*r.target()),
            TLayout::slots(&*r.target()) == old(self).storage(),
            *final(self) == old(self).with_storage(*final(r.target())),
    {
        self.as_mut_slice().into_iter()
    }

    /// Moves the live elements to fresh storage of `new_capacity` slots.
    fn reallocate(&mut self, new_capacity: usize)
        requires
            old(self).well_formed(),
            old(self).count <= new_capacity,
            Self::fits(new_capacity as int),
        ensures
            final(self).well_formed(),
            final(self)@ == old(self)@,
            final(self).count == old(self).count,
            final(self).capacity == new_capacity,
    {
        let (_layout, info) = match TLayout::layout_array(new_capacity) {
            Some(p) => p,
            None => {
                return;
            },
        };
        let mut new_buf = TLayout::allocate(new_capacity);
        let new_ptr = TLayout::from_flat_ptr(&info);
        TLayout::initialize(&mut new_buf, new_ptr, new_capacity);
        if self.count != 0 {
            TLayout::copy_nonoverlapping(&mut self.buf, self.ptr, &mut new_buf, new_ptr, self.count);
        }
        self.buf = new_buf;
        self.ptr = new_ptr;
        self.capacity = new_capacity;
        assert(self@ =~= old(self)@);
    }

    /// Makes room for one more element, doubling the capacity (at least 2)
    /// when the storage is full.
    fn reserve_one(&mut self)
        requires
            old(self).well_formed(),
            old(self).count < old(self).capacity || Self::fits(
                grown_capacity(old(self).capacity as int),
            ),
        ensures
            final(self).well_formed(),
            final(self)@ == old(self)@,
            final(self).count < final(self).capacity,
            final(self).capacity == if old(self).count < old(self).capacity {
                old(self).capacity as int
            } else {
                grown_capacity(old(self).capacity as int)
            },
    {
        if self.count >= self.capacity {
            let new_capacity = if self.capacity == 0 {
                2
            } else {
                self.capacity * 2
            };
            self.reallocate(new_capacity);
        }
    }

    /// Appends `value`, growing the storage first when it is full.
    pub fn push(&mut self, value: T)
        requires
            old(self).well_formed(),
            old(self)@.len() < old(self).spec_capacity() || Self::fits(
                grown_capacity(old(self).spec_capacity() as int),
            ),
        ensures
            final(self).well_formed(),
            final(self)@ == old(self)@.push(value),
            final(self)@.len() <= final(self).spec_capacity(),
            final(self).storage().len() == final(self).spec_capacity(),
            Self::fits(final(self).spec_capacity() as int),
            final(self).spec_capacity() == if old(self)@.len() < old(self).spec_capacity() {
                old(self).spec_capacity() as int
            } else {
                grown_capacity(old(self).spec_capacity() as int)
            },
    {
        self.reserve_one();
        let p = TLayout::offset(self.ptr, self.count as isize);
        TLayout::write(&mut self.buf, p, value);
        self.count = self.count + 1;
        assert(self@ =~= old(self)@.push(value));
    }

    /// Removes and returns the last element; `None` when empty.
    pub fn pop(&mut self) -> (r: Option<T>)
        requires
            old(self).well_formed(),
        ensures
            final(self).well_formed(),
            final(self).spec_capacity() == old(self).spec_capacity(),
            old(self)@.len() == 0 ==> r is None && final(self)@ == old(self)@,
            old(self)@.len() > 0 ==> r == Some(old(self)@.last()) && final(self)@ == old(
                self,
            )@.drop_last(),
    {
        if self.count == 0 {
            None
        } else {
            self.count = self.count - 1;
            let p = TLayout::offset(self.ptr, self.count as isize);
            let r = TLayout::read(&mut self.buf, p);
            assert(self@ =~= old(self)@.drop_last());
            Some(r)
        }
    }

    /// Removes and returns the element at `index`, moving the last element
    /// into its place.
    pub fn swap_remove(&mut self, index: usize) -> (r: T)
        requires
            old(self).well_formed(),
            index < old(self)@.len(),
        ensures
            final(self).well_formed(),
            final(self).spec_capacity() == old(self).spec_capacity(),
            r == old(self)@[index as int],
            final(self)@ == old(self)@.update(index as int, old(self)@.last()).drop_last(),
    {
        self.count = self.count - 1;
        let p = TLayout::offset(self.ptr, index as isize);
        let ret = TLayout::read(&mut self.buf, p);
        if index != self.count {
            let last = TLayout::offset(self.ptr, self.count as isize);
            TLayout::copy_one_nonoverlapping(&mut self.buf, last, p);
        }
        assert(self@ =~= old(self)@.update(index as int, old(self)@.last()).drop_last());
        ret
    }

    /// Removes and returns the element at `index`, shifting the later
    /// elements one place down.
    pub fn remove(&mut self, index: usize) -> (r: T)
        requires
            old(self).well_formed(),
            index < old(self)@.len(),
        ensures
            final(self).well_formed(),
            final(self).spec_capacity() == old(self).spec_capacity(),
            r == old(self)@[index as int],
            final(self)@ == old(self)@.remove(index as int),
    {
        self.count = self.count - 1;
        let p = TLayout::offset(self.ptr, index as isize);
        let ret = TLayout::read(&mut self.buf, p);
        let next = TLayout::offset(self.ptr, (index + 1) as isize);
        TLayout::copy_leftwards(&mut self.buf, next, p, self.count - index);
        assert(self@ =~= old(self)@.remove(index as int));
        ret
    }

    /// Inserts `value` at `index`, shifting the later elements one place up.
    pub fn insert(&mut self, index: usize, value: T)
        requires
            old(self).well_formed(),
            index <= old(self)@.len(),
            old(self)@.len() < old(self).spec_capacity() || Self::fits(
                grown_capacity(old(self).spec_capacity() as int),
            ),
        ensures
            final(self).well_formed(),
            final(self)@ == old(self)@.insert(index as int, value),
            final(self).spec_capacity() == if old(self)@.len() < old(self).spec_capacity() {
                old(self).spec_capacity() as int
            } else {
                grown_capacity(old(self).spec_capacity() as int)
            },
    {
        self.reserve_one();
        let p = TLayout::offset(self.ptr, index as isize);
        let next = TLayout::offset(self.ptr, (index + 1) as isize);
        TLayout::copy_rightwards(&mut self.buf, p, next, self.count - index);
        TLayout::write(&mut self.buf, p, value);
        self.count = self.count + 1;
        assert(self@ =~= old(self)@.insert(index as int, value));
    }

    /// Drops every element; the capacity is kept.
    pub fn clear(&mut self)
        requires
            old(self).well_formed(),
        ensures
            final(self).well_formed(),
            final(self)@ == Seq::<T>::empty(),
            final(self).spec_capacity() == old(self).spec_capacity(),
    {
        let count = self.count;
        self.count = 0;
        Slice::<TLayout>::drop_in_place(&mut self.buf, SlicePtr::from_raw_parts(self.ptr, count));
        assert(self@ =~= Seq::<T>::empty());
    }

    /// Drops the elements from `len` on, if there are any.
    pub fn truncate(&mut self, len: usize)
        requires
            old(self).well_formed(),
        ensures
            final(self).well_formed(),
            final(self).spec_capacity() == old(self).spec_capacity(),
            final(self)@ == if len < old(self)@.len() {
                old(self)@.take(len as int)
            } else {
                old(self)@
            },
    {
        if len < self.count {
            let count = self.count;
            self.count = len;
            let tail = TLayout::offset(self.ptr, len as isize);
            Slice::<TLayout>::drop_in_place(
                &mut self.buf,
                SlicePtr::from_raw_parts(tail, count - len),
            );
            assert(self@ =~= old(self)@.take(len as int));
        }
    }

    /// Makes room for `additional` more elements; where the storage must
    /// grow, it grows to the larger of the request and twice the capacity.
    pub fn reserve(&mut self, additional: usize)
        requires
            old(self).well_formed(),
            old(self)@.len() + additional <= usize::MAX,
            old(self)@.len() + additional > old(self).spec_capacity() ==> Self::fits(
                reserved_capacity(
                    old(self)@.len() as int,
                    additional as int,
                    old(self).spec_capacity() as int,
                ),
            ),
        ensures
            final(self).well_formed(),
            final(self)@ == old(self)@,
            final(self).spec_capacity() == if old(self)@.len() + additional > old(
                self,
            ).spec_capacity() {
                reserved_capacity(
                    old(self)@.len() as int,
                    additional as int,
                    old(self).spec_capacity() as int,
                )
            } else {
                old(self).spec_capacity() as int
            },
    {
        if self.count + additional > self.capacity {
            let wanted = self.count + additional;
            let doubled = self.capacity * 2;
            let new_capacity = if wanted >= doubled {
                wanted
            } else {
                doubled
            };
            self.reallocate(new_capacity);
        }
    }

    /// Moves every element of `other` to the end of `self`, leaving `other`
    /// empty.
    pub fn append(&mut self, other: &mut AVec<T, TLayout>)
        requires
            old(self).well_formed(),
            old(other).well_formed(),
            old(self)@.len() + old(other)@.len() <= usize::MAX,
            old(self)@.len() + old(other)@.len() > old(self).spec_capacity() ==> Self::fits(
                reserved_capacity(
                    old(self)@.len() as int,
                    old(other)@.len() as int,
                    old(self).spec_capacity() as int,
                ),
            ),
        ensures
            final(self).well_formed(),
            final(other).well_formed(),
            final(self)@ == old(self)@ + old(other)@,
            final(self).spec_capacity() == if old(self)@.len() + old(other)@.len() > old(
                self,
            ).spec_capacity() {
                reserved_capacity(
                    old(self)@.len() as int,
                    old(other)@.len() as int,
                    old(self).spec_capacity() as int,
                )
            } else {
                old(self).spec_capacity() as int
            },
            final(other)@ == Seq::<T>::empty(),
            final(other).spec_capacity() == old(other).spec_capacity(),
    {
        self.reserve(other.count);
        let dest = TLayout::offset(self.ptr, self.count as isize);
        TLayout::copy_nonoverlapping(&mut other.buf, other.ptr, &mut self.buf, dest, other.count);
        self.count = self.count + other.count;
        other.count = 0;
        assert(self@ =~= old(self)@ + old(other)@);
        assert(other@ =~= Seq::<T>::empty());
    }
}


/// The elements removed by `AVec::drain`: a sub-range of the container,
/// handed out from either end.
///
/// While it exists the container reports only the elements before the range.
/// `finish` drops what was not handed out and moves the elements after the
/// range down to close the gap.
pub struct Drain<'a, T, TLayout: ElementLayout<T>> {
    vec: &'a mut AVec<T, TLayout>,
    shift_count: usize,
    full_range_start: TLayout::Ptr,
    full_range_end: TLayout::Ptr,
    range_start: TLayout::Ptr,
    range_end: TLayout::Ptr,
}

impl<'a, T, TLayout: ElementLayout<T>> Drain<'a, T, TLayout> {
    /// The borrowed container.
    pub closed spec fn target(&self) -> &'a mut AVec<T, TLayout> {
        self.vec
    }

    /// The drained elements not handed out yet.
    pub closed spec fn remaining(&self) -> Seq<T> {
        slot_values(
            TLayout::slots(&self.vec.buf),
            TLayout::index(self.range_start),
            TLayout::index(self.range_end),
        )
    }

    /// The elements after the drained range, to be moved down by `finish`.
    pub closed spec fn tail(&self) -> Seq<T> {
        slot_values(
            TLayout::slots(&self.vec.buf),
            TLayout::index(self.full_range_end),
            TLayout::index(self.full_range_end) + self.shift_count,
        )
    }

    /// The drain's invariant.
    pub closed spec fn well_formed(&self) -> bool {
        let slots = TLayout::slots(&self.vec.buf);
        let start = TLayout::index(self.range_start);
        let end = TLayout::index(self.range_end);
        let full_end = TLayout::index(self.full_range_end);
        &&& self.vec.well_formed()
        &&& TLayout::ptr_wf(self.full_range_start)
        &&& TLayout::ptr_wf(self.full_range_end)
        &&& TLayout::ptr_wf(self.range_start)
        &&& TLayout::ptr_wf(self.range_end)
        &&& TLayout::index(self.full_range_start) == self.vec.count
        &&& self.vec.count <= start <= end <= full_end
        &&& full_end + self.shift_count <= self.vec.capacity
        &&& forall|j: int| start <= j < end ==> (#[trigger] slots[j]) is Some
        &&& forall|j: int| full_end <= j < full_end + self.shift_count ==> (#[trigger] slots[j]) is Some
    }

    /// Hands out the first element not handed out yet.
    pub fn next(&mut self) -> (r: Option<T>)
        requires
            old(self).well_formed(),
        ensures
            final(self).well_formed(),
            *final(final(self).target()) == *final(old(self).target()),
            (*final(self).target())@ == (*old(self).target())@,
            final(self).target().spec_capacity() == old(self).target().spec_capacity(),
            final(self).tail() == old(self).tail(),
            old(self).remaining().len() == 0 ==> r is None && final(self).remaining() == old(
                self,
            ).remaining(),
            old(self).remaining().len() > 0 ==> r == Some(old(self).remaining()[0])
                && final(self).remaining() == old(self).remaining().drop_first(),
    {
        if TLayout::same_ptr(self.range_start, self.range_end) {
            None
        } else {
            let ret = TLayout::read(&mut self.vec.buf, self.range_start);
            self.range_start = TLayout::offset(self.range_start, 1);
            assert(self.remaining() =~= old(self).remaining().drop_first());
            assert(self.tail() =~= old(self).tail());
            assert(self.vec@ =~= old(self).vec@);
            Some(ret)
        }
    }

    /// Hands out the last element not handed out yet.
    pub fn next_back(&mut self) -> (r: Option<T>)
        requires
            old(self).well_formed(),
        ensures
            final(self).well_formed(),
            *final(final(self).target()) == *final(old(self).target()),
            (*final(self).target())@ == (*old(self).target())@,
            final(self).target().spec_capacity() == old(self).target().spec_capacity(),
            final(self).tail() == old(self).tail(),
            old(self).remaining().len() == 0 ==> r is None && final(self).remaining() == old(
                self,
            ).remaining(),
            old(self).remaining().len() > 0 ==> r == Some(old(self).remaining().last())
                && final(self).remaining() == old(self).remaining().drop_last(),
    {
        if TLayout::same_ptr(self.range_start, self.range_end) {
            None
        } else {
            self.range_end = TLayout::offset(self.range_end, -1);
            let ret = TLayout::read(&mut self.vec.buf, self.range_end);
            assert(self.remaining() =~= old(self).remaining().drop_last());
            assert(self.tail() =~= old(self).tail());
            assert(self.vec@ =~= old(self).vec@);
            Some(ret)
        }
    }

    /// Ends the drain: drops the elements not handed out, then moves the
    /// elements after the range down to where the range began.
    pub fn finish(self)
        requires
            self.well_formed(),
        ensures
            final(self.target()).well_formed(),
            (*final(self.target()))@ == (*old(self.target()))@ + self.tail(),
            final(self.target()).spec_capacity() == old(self.target()).spec_capacity(),
    {
        let mut this = self;
        while !TLayout::same_ptr(this.range_start, this.range_end)
            invariant
                this.well_formed(),
                *final(this.target()) == *final(self.target()),
                (*this.target())@ == (*self.target())@,
                this.target().spec_capacity() == self.target().spec_capacity(),
                this.tail() == self.tail(),
                this.full_range_start == self.full_range_start,
                this.full_range_end == self.full_range_end,
                this.shift_count == self.shift_count,
            decreases TLayout::index(this.range_end) - TLayout::index(this.range_start),
        {
            TLayout::drop_in_place(&mut this.vec.buf, this.range_start);
            this.range_start = TLayout::offset(this.range_start, 1);
            assert(this.tail() =~= self.tail());
            assert(this.vec@ =~= self.vec@);
        }
        TLayout::copy_leftwards(
            &mut this.vec.buf,
            this.full_range_end,
            this.full_range_start,
            this.shift_count,
        );
        this.vec.count = this.vec.count + this.shift_count;
        assert(this.vec@ =~= self.vec@ + self.tail());
    }
}

impl<T, TLayout: ElementLayout<T>> AVec<T, TLayout> {
    /// Removes the elements of `range` from the container, handing them out
    /// through the returned `Drain`.
    pub fn drain<'a>(&'a mut self, range: core::ops::Range<usize>) -> (d: Drain<'a, T, TLayout>)
        requires
            old(self).well_formed(),
            range.start <= range.end <= old(self)@.len(),
        ensures
            d.well_formed(),
            *final(d.target()) == *final(self),
            (*d.target())@ == old(self)@.take(range.start as int),
            d.target().spec_capacity() == old(self).spec_capacity(),
            d.remaining() == old(self)@.subrange(range.start as int, range.end as int),
            d.tail() == old(self)@.skip(range.end as int),
    {
        let start = range.start;
        let end = range.end;
        let total_count = self.count;
        self.count = start;
        let start_ptr = TLayout::offset(self.ptr, start as isize);
        let end_ptr = TLayout::offset(self.ptr, end as isize);
        let d = Drain {
            vec: self,
            shift_count: total_count - end,
            full_range_start: start_ptr,
            full_range_end: end_ptr,
            range_start: start_ptr,
            range_end: end_ptr,
        };
        assert(d.remaining() =~= old(self)@.subrange(start as int, end as int));
        assert(d.tail() =~= old(self)@.skip(end as int));
        assert(d.vec@ =~= old(self)@.take(start as int));
        d
    }
}


/// Whether `keep` records, for each element of `s`, the opposite of a
/// result that `predicate` may give on it.
pub open spec fn rejected_by<T, F: Fn(&T) -> bool>(predicate: F, s: Seq<T>, keep: Seq<bool>) -> bool {
    &&& keep.len() == s.len()
    &&& forall|i: int| 0 <= i < s.len() ==> predicate.ensures((&s[i],), !keep[i])
}

/// The elements removed by `AVec::drain_filter`: those the predicate accepts,
/// handed out in order while the others are moved down to stay contiguous.
///
/// While it exists the container reports no element. `finish` runs the
/// predicate over the rest of the elements and gives the container the
/// survivors.
pub struct DrainFilter<'a, F, T, TLayout: ElementLayout<T>> where F: Fn(&T) -> bool {
    vec: &'a mut AVec<T, TLayout>,
    base_ptr: TLayout::Ptr,
    read_count: usize,
    write_count: usize,
    total_count: usize,
    predicate: F,
    initial: Ghost<Seq<T>>,
    keep: Ghost<Seq<bool>>,
}

impl<'a, F, T, TLayout: ElementLayout<T>> DrainFilter<'a, F, T, TLayout> where F: Fn(&T) -> bool {
    /// The borrowed container.
    pub closed spec fn target(&self) -> &'a mut AVec<T, TLayout> {
        self.vec
    }

    /// The predicate.
    pub closed spec fn predicate(&self) -> F {
        self.predicate
    }

    /// The elements the container held when the filter began.
    pub closed spec fn initial(&self) -> Seq<T> {
        self.initial@
    }

    /// For each element scanned so far, whether it stays.
    pub closed spec fn decided(&self) -> Seq<bool> {
        self.keep@
    }

    /// The filter's invariant.
    pub closed spec fn well_formed(&self) -> bool {
        let slots = TLayout::slots(&self.vec.buf);
        &&& self.vec.well_formed()
        &&& self.vec.count == 0
        &&& self.base_ptr == self.vec.ptr
        &&& self.write_count <= self.read_count <= self.total_count <= self.vec.capacity
        &&& self.initial@.len() == self.total_count
        &&& self.keep@.len() == self.read_count
        &&& forall|x: &T| #[trigger] self.predicate.requires((x,))
        &&& rejected_by(
            self.predicate,
            self.initial@.take(self.read_count as int),
            self.keep@,
        )
        &&& forall|j: int| 0 <= j < self.write_count ==> (#[trigger] slots[j]) is Some
        &&& slot_values(slots, 0, self.write_count as int) == select(
            self.initial@.take(self.read_count as int),
            self.keep@,
        )
        &&& forall|j: int| self.read_count <= j < self.total_count ==> (#[trigger] slots[j]) is Some
        &&& forall|j: int|
            self.read_count <= j < self.total_count ==> (#[trigger] slots[j])->0
                == self.initial@[j]
    }

    /// Scans on to the next element that the predicate accepts and hands it
    /// out; the rejected elements met on the way are moved down.
    pub fn next(&mut self) -> (r: Option<T>)
        requires
            old(self).well_formed(),
        ensures
            final(self).well_formed(),
            *final(final(self).target()) == *final(old(self).target()),
            final(self).target().spec_capacity() == old(self).target().spec_capacity(),
            final(self).predicate() == old(self).predicate(),
            (*final(self).target())@ == Seq::<T>::empty(),
            final(self).initial() == old(self).initial(),
            old(self).decided().len() <= final(self).decided().len(),
            final(self).decided().take(old(self).decided().len() as int) == old(self).decided(),
            r is None ==> {
                &&& final(self).decided().len() == final(self).initial().len()
                &&& forall|i: int|
                    old(self).decided().len() <= i < final(self).decided().len()
                        ==> #[trigger] final(self).decided()[i]
            },
            r matches Some(x) ==> {
                let n = final(self).decided().len();
                &&& n > old(self).decided().len()
                &&& !final(self).decided()[n - 1]
                &&& x == final(self).initial()[n - 1]
                &&& forall|i: int|
                    old(self).decided().len() <= i < n - 1 ==> #[trigger] final(self).decided()[i]
            },
    {
        while self.read_count < self.total_count
            invariant
                self.well_formed(),
                *final(self.target()) == *final(old(self).target()),
                self.target().spec_capacity() == old(self).target().spec_capacity(),
                self.predicate() == old(self).predicate(),
                self.initial() == old(self).initial(),
                old(self).decided().len() <= self.decided().len(),
                self.decided().take(old(self).decided().len() as int) == old(self).decided(),
                forall|i: int|
                    old(self).decided().len() <= i < self.decided().len()
                        ==> #[trigger] self.decided()[i],
            decreases self.total_count - self.read_count,
        {
            let ghost prev = *self;
            let elem = TLayout::offset(self.base_ptr, self.read_count as isize);
            let value = TLayout::read(&mut self.vec.buf, elem);
            self.read_count = self.read_count + 1;
            let accepted = (self.predicate)(&value);
            proof {
                self.keep@ = self.keep@.push(!accepted);
                let s = self.initial@.take(self.read_count as int);
                assert(s.drop_last() =~= prev.initial@.take(prev.read_count as int));
                assert(self.keep@.drop_last() =~= prev.keep@);
                assert(self.decided().take(old(self).decided().len() as int) =~= old(
                    self,
                ).decided());
            }
            if accepted {
                assert(slot_values(TLayout::slots(&self.vec.buf), 0, self.write_count as int)
                    =~= slot_values(TLayout::slots(&prev.vec.buf), 0, self.write_count as int));
                return Some(value);
            } else {
                let target = TLayout::offset(self.base_ptr, self.write_count as isize);
                TLayout::write(&mut self.vec.buf, target, value);
                self.write_count = self.write_count + 1;
                assert(slot_values(TLayout::slots(&self.vec.buf), 0, self.write_count as int)
                    =~= slot_values(TLayout::slots(&prev.vec.buf), 0, prev.write_count as int).push(
                    value,
                ));
            }
        }
        None
    }

    /// Ends the filter: scans the elements not scanned yet, dropping those
    /// the predicate accepts, and gives the container the survivors in order.
    pub fn finish(self)
        requires
            self.well_formed(),
        ensures
            final(self.target()).well_formed(),
            final(self.target()).spec_capacity() == old(self.target()).spec_capacity(),
            exists|keep: Seq<bool>|
                {
                    &&& rejected_by(self.predicate(), self.initial(), keep)
                    &&& keep.take(self.decided().len() as int) == self.decided()
                    &&& (*final(self.target()))@ == select(self.initial(), keep)
                },
    {
        let mut this = self;
        loop
            invariant
                this.well_formed(),
                *final(this.target()) == *final(self.target()),
                this.target().spec_capacity() == self.target().spec_capacity(),
                this.predicate() == self.predicate(),
                this.initial() == self.initial(),
                self.decided().len() <= this.decided().len(),
                this.decided().take(self.decided().len() as int) == self.decided(),
            ensures
                this.decided().len() == this.initial().len(),
            decreases this.total_count - this.read_count,
        {
            let ghost prev = this.decided();
            match this.next() {
                Some(_) => {
                    assert(this.decided().take(self.decided().len() as int) =~= self.decided())
                        by {
                        assert(this.decided().take(prev.len() as int) == prev);
                        assert(this.decided().take(self.decided().len() as int) =~= prev.take(
                            self.decided().len() as int,
                        ));
                    }
                },
                None => {
                    assert(this.decided().take(self.decided().len() as int) =~= self.decided())
                        by {
                        assert(this.decided().take(prev.len() as int) == prev);
                        assert(this.decided().take(self.decided().len() as int) =~= prev.take(
                            self.decided().len() as int,
                        ));
                    }
                    break ;
                },
            }
        }
        this.vec.count = this.write_count;
        proof {
            assert(this.initial@.take(this.read_count as int) =~= this.initial@);
            assert(this.vec@ =~= slot_values(
                TLayout::slots(&this.vec.buf),
                0,
                this.write_count as int,
            ));
        }
    }
}

impl<T, TLayout: ElementLayout<T>> AVec<T, TLayout> {
    /// Starts removing the elements that `predicate` accepts; see
    /// `DrainFilter`.
    pub fn drain_filter<'a, F>(&'a mut self, predicate: F) -> (d: DrainFilter<'a, F, T, TLayout>) where
        F: Fn(&T) -> bool,

        requires
            old(self).well_formed(),
            forall|x: &T| #[trigger] predicate.requires((x,)),
        ensures
            d.well_formed(),
            *final(d.target()) == *final(self),
            d.target().spec_capacity() == old(self).spec_capacity(),
            d.predicate() == predicate,
            (*d.target())@ == Seq::<T>::empty(),
            d.initial() == old(self)@,
            d.decided() == Seq::<bool>::empty(),
    {
        let total_count = self.count;
        self.count = 0;
        let base_ptr = self.ptr;
        let d = DrainFilter {
            vec: self,
            base_ptr,
            read_count: 0,
            write_count: 0,
            total_count,
            predicate,
            initial: Ghost(old(self)@),
            keep: Ghost(Seq::empty()),
        };
        assert(d.initial@.take(0) =~= Seq::<T>::empty());
        assert(slot_values(TLayout::slots(&d.vec.buf), 0, 0) =~= Seq::<T>::empty());
        d
    }

    /// Keeps the elements on which `f` returns true, in order, and drops the
    /// others.
    pub fn retain<F>(&mut self, f: F) where F: Fn(&T) -> bool
        requires
            old(self).well_formed(),
            forall|x: &T| #[trigger] f.requires((x,)),
        ensures
            final(self).well_formed(),
            final(self).spec_capacity() == old(self).spec_capacity(),
            exists|keep: Seq<bool>|
                {
                    &&& keep.len() == old(self)@.len()
                    &&& forall|i: int|
                        0 <= i < old(self)@.len() ==> f.ensures((&old(self)@[i],), keep[i])
                    &&& final(self)@ == select(old(self)@, keep)
                },
    {
        let accept = &f;
        let reject = move|x: &T| -> (b: bool)
            requires
                accept.requires((x,)),
            ensures
                accept.ensures((x,), !b),
            { !accept(x) };
        let d = self.drain_filter(reject);
        d.finish();
    }
}

} // verus!
