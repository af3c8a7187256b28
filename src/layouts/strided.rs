//! The strided layout: an address carries the distance between consecutive
//! elements along with the element it designates.

use vstd::prelude::*;
use crate::layouts::{ArrayLayout, ByteLayout, ElementLayout, Flat, Slice, SlicePtr};
use crate::reference::{Ref, RefMut};
use crate::layouts::flat::{array_footprint, array_layout, empty_slots, take_slot};

verus! {

/// Elements whose addresses step by a stride kept in the address.
///
/// Storage holds one element per slot, so strides are counted in slots: the
/// stride of an element's own size is one slot, the stride of every address
/// made from an allocation or a flat run.
pub struct Strided {
    _priv: (),
}

/// The address of an element, and the stride to the next one.
#[derive(Clone, Copy)]
pub struct StridedPtr {
    ptr: usize,
    stride: isize,
}

impl StridedPtr {
    /// The slot of the element.
    pub closed spec fn slot(&self) -> usize {
        self.ptr
    }

    /// The stride, in slots.
    pub closed spec fn spec_stride(&self) -> isize {
        self.stride
    }

    /// The address of slot `slot`, stepping one slot at a time.
    pub fn unit(slot: usize) -> (r: StridedPtr)
        ensures
            r.slot() == slot,
            r.spec_stride() == 1,
    {
        StridedPtr { ptr: slot, stride: 1 }
    }

    /// The stride, in slots.
    pub fn stride(&self) -> (r: isize)
        ensures
            r == self.spec_stride(),
    {
        self.stride
    }
}

impl<T> ArrayLayout<T> for Strided {
    type Ptr = StridedPtr;

    type Buf = Vec<Option<T>>;

    closed spec fn ptr_wf(p: StridedPtr) -> bool {
        p.ptr <= isize::MAX && p.stride == 1
    }

    closed spec fn index(p: StridedPtr) -> int {
        p.ptr as int
    }

    fn dangling() -> (r: StridedPtr) {
        StridedPtr { ptr: 0, stride: 1 }
    }
}

impl<T> ElementLayout<T> for Strided {
    type ArrayInfo = ();

    open spec fn buf_wf(buf: &Vec<Option<T>>) -> bool {
        true
    }

    open spec fn slots(buf: &Vec<Option<T>>) -> Seq<Option<T>> {
        buf@
    }

    open spec fn footprint(count: nat) -> Option<ByteLayout> {
        array_footprint::<T>(count)
    }

    open spec fn fresh(buf: &Vec<Option<T>>, count: nat) -> bool {
        buf@.len() == count
    }

    open spec fn array_info(count: nat) -> () {
        ()
    }

    fn layout_array(count: usize) -> (r: Option<(ByteLayout, ())>) {
        match array_layout::<T>(count) {
            Some(l) => Some((l, ())),
            None => None,
        }
    }

    fn allocate(count: usize) -> (r: Vec<Option<T>>) {
        empty_slots(count)
    }

    fn from_flat_ptr(info: &()) -> (r: StridedPtr) {
        StridedPtr { ptr: 0, stride: 1 }
    }

    fn initialize(buf: &mut Vec<Option<T>>, ptr: StridedPtr, count: usize) {
    }

    fn offset(ptr: StridedPtr, delta: isize) -> (r: StridedPtr) {
        StridedPtr { ptr: (ptr.ptr as isize + delta * ptr.stride) as usize, stride: ptr.stride }
    }

    fn same_ptr(ptr1: StridedPtr, ptr2: StridedPtr) -> (r: bool) {
        ptr1.ptr == ptr2.ptr
    }

    fn read(buf: &mut Vec<Option<T>>, ptr: StridedPtr) -> (r: T) {
        take_slot(buf, ptr.ptr).unwrap()
    }

    fn write(buf: &mut Vec<Option<T>>, ptr: StridedPtr, value: T) {
        buf.set(ptr.ptr, Some(value));
    }

    fn drop_in_place(buf: &mut Vec<Option<T>>, ptr: StridedPtr) {
        let _ = take_slot(buf, ptr.ptr);
    }
}


impl<'a, T> Ref<'a, [T], Slice<Flat>> {
    /// The same run, addressed with strides.
    pub fn strided(self) -> (r: Ref<'a, [T], Slice<Strided>>)
        requires
            self.wf(),
        ensures
            r.wf(),
            r.raw().base().slot() == self.raw().base(),
            r.raw().base().spec_stride() == 1,
            r.raw().count() == self.raw().count(),
            r.elements() == self.elements(),
    {
        Ref::from_raw(
            SlicePtr::from_raw_parts(StridedPtr::unit(self.as_ptr()), self.len()),
            self.as_storage(),
        )
    }
}


impl<'a, T> RefMut<'a, [T], Slice<Flat>> {
    /// The same run, addressed with strides.
    pub fn strided(self) -> (r: RefMut<'a, [T], Slice<Strided>>)
        requires
            self.wf(),
        ensures
            r.wf(),
            r.raw().base().slot() == self.raw().base(),
            r.raw().base().spec_stride() == 1,
            r.raw().count() == self.raw().count(),
            r.elements() == self.elements(),
            *r.target() == *self.target(),
            *final(r.target()) == *final(self.target()),
    {
        let ptr = self.as_ptr();
        let count = self.len();
        let (_, buf) = self.into_parts();
        RefMut::from_raw(SlicePtr::from_raw_parts(StridedPtr::unit(ptr), count), buf)
    }
}

} // verus!
