//! Runs of elements: the address of a run is the address of its first
//! element and its length. Runs are borrowed views, never allocated.

use vstd::prelude::*;
use core::marker::PhantomData;
use crate::layouts::{ArrayLayout, ElementLayout};
use crate::reference::{Ref, RefMut};

verus! {

/// The layout of a run of elements laid out by `Inner`.
pub struct Slice<Inner> {
    _marker: PhantomData<Inner>,
}

/// The address of a run: its first element, and how many elements it holds.
pub struct SlicePtr<T, TLayout: ElementLayout<T>> {
    base: TLayout::Ptr,
    count: usize,
    _marker: PhantomData<T>,
}

impl<T, TLayout: ElementLayout<T>> Clone for SlicePtr<T, TLayout> {
    fn clone(&self) -> (r: Self)
        ensures
            r == *self,
    {
        SlicePtr { base: self.base, count: self.count, _marker: PhantomData }
    }
}

impl<T, TLayout: ElementLayout<T>> Copy for SlicePtr<T, TLayout> {

}

impl<T, TLayout: ElementLayout<T>> SlicePtr<T, TLayout> {
    /// The address of the first element.
    pub closed spec fn base(&self) -> TLayout::Ptr {
        self.base
    }

    /// The number of elements.
    pub closed spec fn count(&self) -> usize {
        self.count
    }

    /// The index of the first element.
    pub open spec fn start(&self) -> int {
        TLayout::index(self.base())
    }

    /// The index one past the last element.
    pub open spec fn end(&self) -> int {
        TLayout::index(self.base()) + self.count()
    }

    /// The run of `count` elements that begins at `ptr`.
    pub fn from_raw_parts(ptr: TLayout::Ptr, count: usize) -> (r: Self)
        ensures
            r.base() == ptr,
            r.count() == count,
    {
        SlicePtr { base: ptr, count: count, _marker: PhantomData }
    }

    /// The address of the first element.
    pub fn as_ptr(&self) -> (r: TLayout::Ptr)
        ensures
            r == self.base(),
    {
        self.base
    }

    /// The number of elements.
    pub fn len(&self) -> (r: usize)
        ensures
            r == self.count(),
    {
        self.count
    }
}

impl<T, TLayout: ElementLayout<T>> ArrayLayout<[T]> for Slice<TLayout> {
    type Ptr = SlicePtr<T, TLayout>;

    type Buf = TLayout::Buf;

    closed spec fn ptr_wf(p: SlicePtr<T, TLayout>) -> bool {
        TLayout::ptr_wf(p.base)
    }

    closed spec fn index(p: SlicePtr<T, TLayout>) -> int {
        TLayout::index(p.base)
    }

    fn dangling() -> (r: SlicePtr<T, TLayout>) {
        SlicePtr::from_raw_parts(TLayout::dangling(), 0)
    }
}

impl<TLayout> Slice<TLayout> {
    /// Whether two runs begin at the same element.
    pub fn same_ptr<T>(ptr1: SlicePtr<T, TLayout>, ptr2: SlicePtr<T, TLayout>) -> (r: bool) where
        TLayout: ElementLayout<T>,

        requires
            TLayout::ptr_wf(ptr1.base()),
            TLayout::ptr_wf(ptr2.base()),
        ensures
            r == (ptr1.start() == ptr2.start()),
    {
        TLayout::same_ptr(ptr1.base, ptr2.base)
    }

    /// Drops every element of the run in place, first to last.
    pub fn drop_in_place<T>(buf: &mut TLayout::Buf, ptr: SlicePtr<T, TLayout>) where
        TLayout: ElementLayout<T>,

        requires
            TLayout::buf_wf(old(buf)),
            TLayout::ptr_wf(ptr.base()),
            0 <= ptr.start(),
            ptr.end() <= TLayout::slots(old(buf)).len() <= isize::MAX,
            forall|j: int| ptr.start() <= j < ptr.end() ==> TLayout::slots(old(buf))[j] is Some,
        ensures
            TLayout::buf_wf(final(buf)),
            TLayout::slots(final(buf)).len() == TLayout::slots(old(buf)).len(),
            forall|j: int|
                0 <= j < TLayout::slots(old(buf)).len() && (j < ptr.start() || j >= ptr.end())
                    ==> TLayout::slots(final(buf))[j] == TLayout::slots(old(buf))[j],
            forall|j: int| ptr.start() <= j < ptr.end() ==> (#[trigger] TLayout::slots(final(buf))[j]) is None,
    {
        let mut index: usize = 0;
        while index < ptr.count
            invariant
                0 <= index <= ptr.count(),
                TLayout::buf_wf(buf),
                TLayout::ptr_wf(ptr.base()),
                0 <= ptr.start(),
                ptr.end() <= TLayout::slots(old(buf)).len() <= isize::MAX,
                TLayout::slots(buf).len() == TLayout::slots(old(buf)).len(),
                forall|j: int|
                    0 <= j < TLayout::slots(old(buf)).len() && (j < ptr.start() || j
                        >= ptr.start() + index) ==> TLayout::slots(buf)[j] == TLayout::slots(old(buf))[j],
                forall|j: int|
                    ptr.start() <= j < ptr.end() ==> TLayout::slots(old(buf))[j] is Some,
                forall|j: int|
                    ptr.start() <= j < ptr.start() + index ==> (#[trigger] TLayout::slots(buf)[j]) is None,
            decreases ptr.count() - index,
        {
            let p = TLayout::offset(ptr.base, index as isize);
            TLayout::drop_in_place(buf, p);
            index = index + 1;
        }
    }
}


/// The slots of the run of `count` slots that begins at index `start`.
pub open spec fn run_slots<T>(slots: Seq<Option<T>>, start: int, count: int) -> Seq<Option<T>> {
    Seq::new(count as nat, |i: int| slots[start + i])
}

/// Whether the run `ptr` lies within storage `buf` of well-formed
/// representation.
pub open spec fn run_wf<T, TLayout: ElementLayout<T>>(
    buf: &TLayout::Buf,
    ptr: SlicePtr<T, TLayout>,
) -> bool {
    &&& TLayout::buf_wf(buf)
    &&& TLayout::ptr_wf(ptr.base())
    &&& 0 <= ptr.start()
    &&& ptr.end() <= TLayout::slots(buf).len() <= isize::MAX
}

impl<'a, T, TLayout: ElementLayout<T>> Ref<'a, [T], Slice<TLayout>> {
    /// Whether the run lies within the storage.
    pub open spec fn wf(&self) -> bool {
        run_wf::<T, TLayout>(self.storage(), self.raw())
    }

    /// The slots of the run, in order.
    pub open spec fn elements(&self) -> Seq<Option<T>> {
        run_slots(TLayout::slots(self.storage()), self.raw().start(), self.raw().count() as int)
    }

    /// The address of the first element.
    pub fn as_ptr(&self) -> (r: TLayout::Ptr)
        ensures
            r == self.raw().base(),
    {
        self.as_raw().as_ptr()
    }

    /// The number of elements.
    pub fn len(&self) -> (r: usize)
        ensures
            r == self.raw().count(),
    {
        self.as_raw().len()
    }

    /// A handle on each element of the run, first to last.
    pub fn into_iter(self) -> (r: SliceIter<'a, T, TLayout>)
        requires
            self.wf(),
        ensures
            r.wf(),
            r.storage() == self.storage(),
            r.start_index() == self.raw().start(),
            r.remaining() == self.elements(),
    {
        let raw = self.as_raw();
        let r = SliceIter {
            start: raw.base,
            end: TLayout::offset(raw.base, raw.count as isize),
            buf: self.as_storage(),
        };
        assert(r.remaining() =~= self.elements());
        r
    }
}

impl<'a, T, TLayout: ElementLayout<T>> RefMut<'a, [T], Slice<TLayout>> {
    /// Whether the run lies within the storage.
    pub open spec fn wf(&self) -> bool {
        run_wf::<T, TLayout>(&*self.target(), self.raw())
    }

    /// The slots of the run, in order.
    pub open spec fn elements(&self) -> Seq<Option<T>> {
        run_slots(TLayout::slots(&*self.target()), self.raw().start(), self.raw().count() as int)
    }

    /// The address of the first element.
    pub fn as_ptr(&self) -> (r: TLayout::Ptr)
        ensures
            r == self.raw().base(),
    {
        self.as_raw().as_ptr()
    }

    /// The number of elements.
    pub fn len(&self) -> (r: usize)
        ensures
            r == self.raw().count(),
    {
        self.as_raw().len()
    }

    /// An exclusive handle on each element of the run in turn, first to last.
    pub fn into_iter(self) -> (r: SliceIterMut<'a, T, TLayout>)
        requires
            self.wf(),
        ensures
            r.wf(),
            *r.target() == *self.target(),
            *final(r.target()) == *final(self.target()),
            r.start_index() == self.raw().start(),
            r.remaining() == self.elements(),
    {
        let (raw, buf) = self.into_parts();
        let r = SliceIterMut {
            start: raw.base,
            end: TLayout::offset(raw.base, raw.count as isize),
            buf,
        };
        assert(r.remaining() =~= self.elements());
        r
    }
}

/// Shared handles on the elements of a run, first to last.
pub struct SliceIter<'a, T, TLayout: ElementLayout<T>> {
    start: TLayout::Ptr,
    end: TLayout::Ptr,
    buf: &'a TLayout::Buf,
}

impl<'a, T, TLayout: ElementLayout<T>> SliceIter<'a, T, TLayout> {
    /// The borrowed storage.
    pub closed spec fn storage(&self) -> &'a TLayout::Buf {
        self.buf
    }

    /// The index of the next element.
    pub closed spec fn start_index(&self) -> int {
        TLayout::index(self.start)
    }

    /// The slots of the elements not handed out yet.
    pub closed spec fn remaining(&self) -> Seq<Option<T>> {
        run_slots(
            TLayout::slots(self.buf),
            TLayout::index(self.start),
            TLayout::index(self.end) - TLayout::index(self.start),
        )
    }

    /// The iterator's invariant.
    pub closed spec fn wf(&self) -> bool {
        &&& TLayout::ptr_wf(self.start)
        &&& TLayout::ptr_wf(self.end)
        &&& 0 <= TLayout::index(self.start) <= TLayout::index(self.end)
        &&& TLayout::index(self.end) <= TLayout::slots(self.buf).len() <= isize::MAX
    }

    /// A handle on the next element.
    pub fn next(&mut self) -> (r: Option<Ref<'a, T, TLayout>>)
        requires
            old(self).wf(),
        ensures
            final(self).wf(),
            final(self).storage() == old(self).storage(),
            old(self).remaining().len() == 0 ==> r is None && final(self).remaining() == old(
                self,
            ).remaining(),
            final(self).start_index() == old(self).start_index() + if old(
                self,
            ).remaining().len() > 0 {
                1int
            } else {
                0
            },
            old(self).remaining().len() > 0 ==> (r matches Some(x) && x.storage() == old(
                self,
            ).storage() && TLayout::ptr_wf(x.raw()) && TLayout::index(x.raw()) == old(
                self,
            ).start_index() && x.element() == old(self).remaining()[0] && final(self).remaining()
                == old(self).remaining().drop_first()),
    {
        if TLayout::same_ptr(self.start, self.end) {
            None
        } else {
            let value = Ref::from_raw(self.start, self.buf);
            self.start = TLayout::offset(self.start, 1);
            assert(self.remaining() =~= old(self).remaining().drop_first());
            Some(value)
        }
    }
}


/// Exclusive handles on the elements of a run, one at a time, first to last.
pub struct SliceIterMut<'a, T, TLayout: ElementLayout<T>> {
    start: TLayout::Ptr,
    end: TLayout::Ptr,
    buf: &'a mut TLayout::Buf,
}

impl<'a, T, TLayout: ElementLayout<T>> SliceIterMut<'a, T, TLayout> {
    /// The borrowed storage.
    pub closed spec fn target(&self) -> &'a mut TLayout::Buf {
        self.buf
    }

    /// The index of the next element.
    pub closed spec fn start_index(&self) -> int {
        TLayout::index(self.start)
    }

    /// The index one past the last element.
    pub closed spec fn end_index(&self) -> int {
        TLayout::index(self.end)
    }

    /// The addresses are well formed and in order.
    pub closed spec fn ptrs_wf(&self) -> bool {
        &&& TLayout::ptr_wf(self.start)
        &&& TLayout::ptr_wf(self.end)
        &&& 0 <= TLayout::index(self.start) <= TLayout::index(self.end)
    }

    /// Once the iterator is done with, its storage holds its final value.
    pub proof fn lemma_resolved(self)
        requires
            has_resolved(self),
        ensures
            *self.target() == *final(self.target()),
    {
    }

    /// The iterator's invariant.
    pub open spec fn wf(&self) -> bool {
        &&& self.ptrs_wf()
        &&& 0 <= self.start_index() <= self.end_index()
        &&& self.end_index() <= TLayout::slots(&*self.target()).len() <= isize::MAX
    }

    /// The slots of the elements not handed out yet.
    pub open spec fn remaining(&self) -> Seq<Option<T>> {
        run_slots(
            TLayout::slots(&*self.target()),
            self.start_index(),
            self.end_index() - self.start_index(),
        )
    }

    /// An exclusive handle on the next element, for as long as the iterator
    /// is borrowed.
    pub fn next<'b>(&'b mut self) -> (r: Option<RefMut<'b, T, TLayout>>)
        requires
            old(self).wf(),
        ensures
            final(self).ptrs_wf(),
            final(self).end_index() == old(self).end_index(),
            *final(final(self).target()) == *final(old(self).target()),
            old(self).start_index() == old(self).end_index() ==> {
                &&& r is None
                &&& final(self).start_index() == old(self).start_index()
                &&& *final(self).target() == *old(self).target()
            },
            old(self).start_index() < old(self).end_index() ==> (r matches Some(x) && {
                &&& TLayout::ptr_wf(x.raw())
                &&& TLayout::index(x.raw()) == old(self).start_index()
                &&& *x.target() == *old(self).target()
                &&& *final(x.target()) == *final(self).target()
                &&& final(self).start_index() == old(self).start_index() + 1
            }),
    {
        if TLayout::same_ptr(self.start, self.end) {
            None
        } else {
            let p = self.start;
            self.start = TLayout::offset(self.start, 1);
            Some(RefMut::from_raw(p, &mut *self.buf))
        }
    }
}

} // verus!
