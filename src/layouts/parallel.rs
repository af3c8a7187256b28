//! The structure-of-arrays layout: pairs whose components are stored by two
//! layouts, index by index.

use vstd::prelude::*;
use core::marker::PhantomData;
use crate::layouts::{ArrayLayout, ByteLayout, ElementLayout, Slice, SlicePtr};
use crate::reference::{Ref, RefMut};

verus! {

/// Lays out pairs `(L, R)` as two arrays, one per component, laid out by the
/// two layouts of `Innards`.
pub struct Parallel<Innards> {
    _marker: PhantomData<Innards>,
}

/// The address of a pair: one address for each component.
pub struct PairPtr<LPtr, RPtr> {
    pub left: LPtr,
    pub right: RPtr,
}

impl<LPtr: Copy, RPtr: Copy> Clone for PairPtr<LPtr, RPtr> {
    fn clone(&self) -> (r: Self)
        ensures
            r == *self,
    {
        *self
    }
}

impl<LPtr: Copy, RPtr: Copy> Copy for PairPtr<LPtr, RPtr> {

}

/// The pair of the slots at one index, live when both components are.
pub open spec fn zip_slot<L, R>(l: Option<L>, r: Option<R>) -> Option<(L, R)> {
    match (l, r) {
        (Some(a), Some(b)) => Some((a, b)),
        _ => None,
    }
}

impl<L, R, LLayout, RLayout> ArrayLayout<(L, R)> for Parallel<(LLayout, RLayout)> where
    LLayout: ElementLayout<L>,
    RLayout: ElementLayout<R>,
 {
    type Ptr = PairPtr<LLayout::Ptr, RLayout::Ptr>;

    type Buf = (LLayout::Buf, RLayout::Buf);

    open spec fn ptr_wf(p: PairPtr<LLayout::Ptr, RLayout::Ptr>) -> bool {
        &&& LLayout::ptr_wf(p.left)
        &&& RLayout::ptr_wf(p.right)
        &&& LLayout::index(p.left) == RLayout::index(p.right)
    }

    open spec fn index(p: PairPtr<LLayout::Ptr, RLayout::Ptr>) -> int {
        LLayout::index(p.left)
    }

    fn dangling() -> (r: PairPtr<LLayout::Ptr, RLayout::Ptr>) {
        PairPtr { left: LLayout::dangling(), right: RLayout::dangling() }
    }
}

impl<L, R, LLayout, RLayout> ElementLayout<(L, R)> for Parallel<(LLayout, RLayout)> where
    LLayout: ElementLayout<L>,
    RLayout: ElementLayout<R>,
 {
    /// The metadata of both components, and the byte offset of the second
    /// array in the combined footprint.
    type ArrayInfo = (LLayout::ArrayInfo, RLayout::ArrayInfo, usize);

    open spec fn buf_wf(buf: &(LLayout::Buf, RLayout::Buf)) -> bool {
        &&& LLayout::buf_wf(&buf.0)
        &&& RLayout::buf_wf(&buf.1)
        &&& LLayout::slots(&buf.0).len() == RLayout::slots(&buf.1).len()
    }

    open spec fn slots(buf: &(LLayout::Buf, RLayout::Buf)) -> Seq<Option<(L, R)>> {
        Seq::new(
            LLayout::slots(&buf.0).len(),
            |i: int| zip_slot(LLayout::slots(&buf.0)[i], RLayout::slots(&buf.1)[i]),
        )
    }

    open spec fn footprint(count: nat) -> Option<ByteLayout> {
        match (LLayout::footprint(count), RLayout::footprint(count)) {
            (Some(l), Some(r)) => match l.extend_spec(r) {
                Some(p) => Some(p.0),
                None => None,
            },
            _ => None,
        }
    }

    open spec fn fresh(buf: &(LLayout::Buf, RLayout::Buf), count: nat) -> bool {
        LLayout::fresh(&buf.0, count) && RLayout::fresh(&buf.1, count)
    }

    /// The second array begins at the first offset after the first array
    /// that suits its alignment.
    open spec fn array_info(count: nat) -> (LLayout::ArrayInfo, RLayout::ArrayInfo, usize) {
        (
            LLayout::array_info(count),
            RLayout::array_info(count),
            match (LLayout::footprint(count), RLayout::footprint(count)) {
                (Some(l), Some(r)) => match l.extend_spec(r) {
                    Some((_, offset)) => offset,
                    None => 0,
                },
                _ => 0,
            },
        )
    }

    fn layout_array(count: usize) -> (r: Option<(ByteLayout, Self::ArrayInfo)>) {
        let (l_layout, l_info) = match LLayout::layout_array(count) {
            Some(p) => p,
            None => {
                return None;
            },
        };
        let (r_layout, r_info) = match RLayout::layout_array(count) {
            Some(p) => p,
            None => {
                return None;
            },
        };
        match l_layout.extend(&r_layout) {
            Some((combined, offset)) => Some((combined, (l_info, r_info, offset))),
            None => None,
        }
    }

    fn allocate(count: usize) -> (r: (LLayout::Buf, RLayout::Buf)) {
        (LLayout::allocate(count), RLayout::allocate(count))
    }

    fn from_flat_ptr(info: &Self::ArrayInfo) -> (r: PairPtr<LLayout::Ptr, RLayout::Ptr>) {
        PairPtr { left: LLayout::from_flat_ptr(&info.0), right: RLayout::from_flat_ptr(&info.1) }
    }

    fn initialize(buf: &mut (LLayout::Buf, RLayout::Buf), ptr: Self::Ptr, count: usize) {
        LLayout::initialize(&mut buf.0, ptr.left, count);
        RLayout::initialize(&mut buf.1, ptr.right, count);
    }

    fn offset(ptr: Self::Ptr, delta: isize) -> (r: Self::Ptr) {
        PairPtr { left: LLayout::offset(ptr.left, delta), right: RLayout::offset(ptr.right, delta) }
    }

    fn same_ptr(ptr1: Self::Ptr, ptr2: Self::Ptr) -> (r: bool) {
        // A zero-sized component's addresses need not tell elements apart, so
        // the comparison goes by the other component.
        if core::mem::size_of::<L>() > 0 {
            LLayout::same_ptr(ptr1.left, ptr2.left)
        } else {
            RLayout::same_ptr(ptr1.right, ptr2.right)
        }
    }

    fn read(buf: &mut (LLayout::Buf, RLayout::Buf), ptr: Self::Ptr) -> (r: (L, R)) {
        let l = LLayout::read(&mut buf.0, ptr.left);
        let r = RLayout::read(&mut buf.1, ptr.right);
        (l, r)
    }

    fn write(buf: &mut (LLayout::Buf, RLayout::Buf), ptr: Self::Ptr, value: (L, R)) {
        let (l_value, r_value) = value;
        LLayout::write(&mut buf.0, ptr.left, l_value);
        RLayout::write(&mut buf.1, ptr.right, r_value);
        assert(Self::slots(buf) =~= Self::slots(old(buf)).update(Self::index(ptr), Some(value)));
    }

    fn drop_in_place(buf: &mut (LLayout::Buf, RLayout::Buf), ptr: Self::Ptr) {
        LLayout::drop_in_place(&mut buf.0, ptr.left);
        RLayout::drop_in_place(&mut buf.1, ptr.right);
    }
}


impl<'a, L, R, LLayout, RLayout> Ref<'a, [(L, R)], Slice<Parallel<(LLayout, RLayout)>>> where
    LLayout: ElementLayout<L>,
    RLayout: ElementLayout<R>,
 {
    /// Views of the two columns of the run: the first components, and the
    /// second components, index by index.
    pub fn unzip(self) -> (r: (Ref<'a, [L], Slice<LLayout>>, Ref<'a, [R], Slice<RLayout>>))
        requires
            self.wf(),
        ensures
            r.0.wf(),
            r.1.wf(),
            r.0.raw().base() == self.raw().base().left,
            r.1.raw().base() == self.raw().base().right,
            r.0.raw().count() == self.raw().count(),
            r.1.raw().count() == self.raw().count(),
            r.0.elements().len() == self.elements().len(),
            r.1.elements().len() == self.elements().len(),
            forall|i: int|
                0 <= i < self.elements().len() ==> #[trigger] self.elements()[i] == zip_slot(
                    r.0.elements()[i],
                    r.1.elements()[i],
                ),
    {
        let ptr = self.as_ptr();
        let count = self.len();
        let buf = self.as_storage();
        let r = (
            Ref::from_raw(SlicePtr::from_raw_parts(ptr.left, count), &buf.0),
            Ref::from_raw(SlicePtr::from_raw_parts(ptr.right, count), &buf.1),
        );
        r
    }
}


impl<'a, L, R, LLayout, RLayout> RefMut<'a, [(L, R)], Slice<Parallel<(LLayout, RLayout)>>> where
    LLayout: ElementLayout<L>,
    RLayout: ElementLayout<R>,
 {
    /// Exclusive views of the two columns of the run: the first components,
    /// and the second components, index by index.
    pub fn unzip(self) -> (r: (RefMut<'a, [L], Slice<LLayout>>, RefMut<'a, [R], Slice<RLayout>>))
        requires
            self.wf(),
        ensures
            r.0.wf(),
            r.1.wf(),
            r.0.raw().base() == self.raw().base().left,
            r.1.raw().base() == self.raw().base().right,
            r.0.raw().count() == self.raw().count(),
            r.1.raw().count() == self.raw().count(),
            r.0.elements().len() == self.elements().len(),
            r.1.elements().len() == self.elements().len(),
            forall|i: int|
                0 <= i < self.elements().len() ==> #[trigger] self.elements()[i] == zip_slot(
                    r.0.elements()[i],
                    r.1.elements()[i],
                ),
            *final(self.target()) == (*final(r.0.target()), *final(r.1.target())),
    {
        let ptr = self.as_ptr();
        let count = self.len();
        let (_, buf) = self.into_parts();
        let (left, right) = buf;
        (
            RefMut::from_raw(SlicePtr::from_raw_parts(ptr.left, count), left),
            RefMut::from_raw(SlicePtr::from_raw_parts(ptr.right, count), right),
        )
    }
}

} // verus!
