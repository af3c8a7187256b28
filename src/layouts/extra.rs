//! The out-of-band layout: one value of `T` for the whole array, whatever
//! its length, next to zero-sized elements.

use vstd::prelude::*;
use core::marker::PhantomData;
use crate::layouts::{ArrayLayout, ByteLayout, ElementLayout};

verus! {

/// Attaches a single value of `T` to an array of `()`.
///
/// The elements carry no storage; an address is only a position, which
/// keeps count of the elements.
pub struct Extra<T> {
    _marker: PhantomData<T>,
}

/// The storage of `Extra<T>`: the one value, once set, and for each element
/// position whether it holds a live element.
pub struct ExtraBuf<T> {
    value: Option<T>,
    live: Ghost<Seq<bool>>,
}

impl<T> ExtraBuf<T> {
    /// The value, if set.
    pub closed spec fn spec_value(&self) -> Option<T> {
        self.value
    }

    /// The value, if set.
    pub fn get(&self) -> (r: &Option<T>)
        ensures
            *r == self.spec_value(),
    {
        &self.value
    }

    /// Sets the value, handing back the one it replaces.
    pub fn set(&mut self, value: T) -> (r: Option<T>)
        ensures
            r == old(self).spec_value(),
            final(self).spec_value() == Some(value),
            Extra::<T>::slots(final(self)) == Extra::<T>::slots(old(self)),
    {
        let mut v = Some(value);
        std::mem::swap(&mut self.value, &mut v);
        v
    }
}

impl<T> ArrayLayout<()> for Extra<T> {
    type Ptr = usize;

    type Buf = ExtraBuf<T>;

    open spec fn ptr_wf(p: usize) -> bool {
        p <= isize::MAX
    }

    open spec fn index(p: usize) -> int {
        p as int
    }

    fn dangling() -> (r: usize) {
        0
    }
}

impl<T> ElementLayout<()> for Extra<T> {
    type ArrayInfo = ();

    open spec fn buf_wf(buf: &ExtraBuf<T>) -> bool {
        true
    }

    closed spec fn slots(buf: &ExtraBuf<T>) -> Seq<Option<()>> {
        Seq::new(buf.live@.len(), |i: int| if buf.live@[i] { Some(()) } else { None })
    }

    /// The footprint of the one value, whatever the count.
    open spec fn footprint(count: nat) -> Option<ByteLayout> {
        if vstd::layout::size_of::<T>() <= isize::MAX {
            Some(
                ByteLayout {
                    size: vstd::layout::size_of::<T>() as usize,
                    align: vstd::layout::align_of::<T>() as usize,
                },
            )
        } else {
            None
        }
    }

    closed spec fn fresh(buf: &ExtraBuf<T>, count: nat) -> bool {
        buf.live@.len() == count
    }

    open spec fn array_info(count: nat) -> () {
        ()
    }

    fn layout_array(count: usize) -> (r: Option<(ByteLayout, ())>) {
        vstd::layout::layout_for_type_is_valid::<T>();
        Some((ByteLayout { size: core::mem::size_of::<T>(), align: core::mem::align_of::<T>() }, ()))
    }

    fn allocate(count: usize) -> (r: ExtraBuf<T>) {
        ExtraBuf { value: None, live: Ghost(Seq::new(count as nat, |i: int| false)) }
    }

    fn from_flat_ptr(info: &()) -> (r: usize) {
        0
    }

    fn initialize(buf: &mut ExtraBuf<T>, ptr: usize, count: usize) {
    }

    fn offset(ptr: usize, delta: isize) -> (r: usize) {
        (ptr as isize + delta) as usize
    }

    fn same_ptr(ptr1: usize, ptr2: usize) -> (r: bool) {
        ptr1 == ptr2
    }

    fn read(buf: &mut ExtraBuf<T>, ptr: usize) -> (r: ()) {
    }

    fn write(buf: &mut ExtraBuf<T>, ptr: usize, value: ()) {
        proof {
            buf.live@ = buf.live@.update(ptr as int, true);
        }
        assert(Self::slots(buf) =~= Self::slots(old(buf)).update(Self::index(ptr), Some(value)));
    }

    fn drop_in_place(buf: &mut ExtraBuf<T>, ptr: usize) {
        proof {
            buf.live@ = buf.live@.update(ptr as int, false);
        }
        assert(Self::slots(buf) =~= Self::slots(old(buf)).update(ptr as int, None));
    }
}

} // verus!
