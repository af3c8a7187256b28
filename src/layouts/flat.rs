//! The contiguous layout: one slot per element, in index order.

use vstd::prelude::*;
use crate::layouts::{ArrayLayout, ByteLayout, ElementLayout};

verus! {

/// The standard packed array: the address of an element is its slot index.
pub struct Flat {
    _priv: (),
}

/// The footprint of `count` elements of `T` laid out back to back.
pub open spec fn array_footprint<T>(count: nat) -> Option<ByteLayout> {
    if count * vstd::layout::size_of::<T>() <= isize::MAX {
        Some(
            ByteLayout {
                size: (count * vstd::layout::size_of::<T>()) as usize,
                align: vstd::layout::align_of::<T>() as usize,
            },
        )
    } else {
        None
    }
}

/// Computes `array_footprint::<T>(count)`.
pub(crate) fn array_layout<T>(count: usize) -> (r: Option<ByteLayout>)
    ensures
        r == array_footprint::<T>(count as nat),
        r matches Some(l) ==> l.wf(),
{
    vstd::layout::layout_for_type_is_valid::<T>();
    let size = core::mem::size_of::<T>();
    let align = core::mem::align_of::<T>();
    match count.checked_mul(size) {
        Some(n) => if n <= isize::MAX as usize {
            Some(ByteLayout { size: n, align })
        } else {
            None
        },
        None => {
            assert(count * size > isize::MAX) by (nonlinear_arith)
                requires
                    count * size > usize::MAX,
            ;
            None
        },
    }
}

/// A vector of `count` empty slots.
pub(crate) fn empty_slots<T>(count: usize) -> (r: Vec<Option<T>>)
    ensures
        r@.len() == count,
        forall|j: int| 0 <= j < count ==> r@[j] is None,
{
    let mut v: Vec<Option<T>> = Vec::with_capacity(count);
    let mut i: usize = 0;
    while i < count
        invariant
            0 <= i <= count,
            v@.len() == i,
            forall|j: int| 0 <= j < i ==> v@[j] is None,
        decreases count - i,
    {
        v.push(None);
        i = i + 1;
    }
    v
}

/// Takes the value out of slot `i`, leaving it empty.
pub(crate) fn take_slot<T>(v: &mut Vec<Option<T>>, i: usize) -> (r: Option<T>)
    requires
        i < old(v)@.len(),
    ensures
        r == old(v)@[i as int],
        final(v)@ == old(v)@.update(i as int, None),
{
    let mut tmp: Option<T> = None;
    std::mem::swap(&mut v[i], &mut tmp);
    tmp
}

impl<T> ArrayLayout<T> for Flat {
    type Ptr = usize;

    type Buf = Vec<Option<T>>;

    open spec fn ptr_wf(p: usize) -> bool {
        p <= isize::MAX
    }

    open spec fn index(p: usize) -> int {
        p as int
    }

    fn dangling() -> (r: usize) {
        0
    }
}

impl<T> ElementLayout<T> for Flat {
    type ArrayInfo = ();

    open spec fn buf_wf(buf: &Vec<Option<T>>) -> bool {
        true
    }

    open spec fn slots(buf: &Vec<Option<T>>) -> Seq<Option<T>> {
        buf@
    }

    open spec fn footprint(count: nat) -> Option<ByteLayout> {
        array_footprint::<T>(count)
    }

    open spec fn fresh(buf: &Vec<Option<T>>, count: nat) -> bool {
        buf@.len() == count
    }

    open spec fn array_info(count: nat) -> () {
        ()
    }

    fn layout_array(count: usize) -> (r: Option<(ByteLayout, ())>) {
        match array_layout::<T>(count) {
            Some(l) => Some((l, ())),
            None => None,
        }
    }

    fn allocate(count: usize) -> (r: Vec<Option<T>>) {
        empty_slots(count)
    }

    fn from_flat_ptr(info: &()) -> (r: usize) {
        0
    }

    fn initialize(buf: &mut Vec<Option<T>>, ptr: usize, count: usize) {
    }

    fn offset(ptr: usize, delta: isize) -> (r: usize) {
        (ptr as isize + delta) as usize
    }

    fn same_ptr(ptr1: usize, ptr2: usize) -> (r: bool) {
        ptr1 == ptr2
    }

    fn read(buf: &mut Vec<Option<T>>, ptr: usize) -> (r: T) {
        take_slot(buf, ptr).unwrap()
    }

    fn write(buf: &mut Vec<Option<T>>, ptr: usize, value: T) {
        buf.set(ptr, Some(value));
    }

    fn drop_in_place(buf: &mut Vec<Option<T>>, ptr: usize) {
        let _ = take_slot(buf, ptr);
    }
}

} // verus!
