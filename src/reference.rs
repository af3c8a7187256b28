//! Borrowed handles: one address of a layout together with the storage it
//! points into.

use vstd::prelude::*;
use crate::layouts::{ArrayLayout, ElementLayout, Flat};

verus! {

/// A shared handle on the element (or run of elements) that `ptr`
/// designates in borrowed storage.
pub struct Ref<'a, T: ?Sized, TLayout: ArrayLayout<T> = Flat> {
    ptr: TLayout::Ptr,
    buf: &'a TLayout::Buf,
}

/// An exclusive handle on the element (or run of elements) that `ptr`
/// designates in borrowed storage.
pub struct RefMut<'a, T: ?Sized, TLayout: ArrayLayout<T> = Flat> {
    ptr: TLayout::Ptr,
    buf: &'a mut TLayout::Buf,
}

impl<'a, T: ?Sized, TLayout: ArrayLayout<T>> Clone for Ref<'a, T, TLayout> {
    fn clone(&self) -> (r: Self)
        ensures
            r == *self,
    {
        Ref { ptr: self.ptr, buf: self.buf }
    }
}

impl<'a, T: ?Sized, TLayout: ArrayLayout<T>> Copy for Ref<'a, T, TLayout> {

}

impl<'a, T: ?Sized, TLayout: ArrayLayout<T>> Ref<'a, T, TLayout> {
    /// The address.
    pub closed spec fn raw(&self) -> TLayout::Ptr {
        self.ptr
    }

    /// The borrowed storage.
    pub closed spec fn storage(&self) -> &'a TLayout::Buf {
        self.buf
    }

    /// The handle on what `ptr` designates in `buf`.
    pub fn from_raw(ptr: TLayout::Ptr, buf: &'a TLayout::Buf) -> (r: Self)
        ensures
            r.raw() == ptr,
            r.storage() == buf,
    {
        Ref { ptr, buf }
    }

    /// The address.
    pub fn as_raw(&self) -> (r: TLayout::Ptr)
        ensures
            r == self.raw(),
    {
        self.ptr
    }

    /// The borrowed storage.
    pub fn as_storage(&self) -> (r: &'a TLayout::Buf)
        ensures
            r == self.storage(),
    {
        self.buf
    }

    /// A handle on the same element, for a shorter borrow.
    pub fn reborrow<'b>(&'b self) -> (r: Ref<'b, T, TLayout>)
        ensures
            r.raw() == self.raw(),
            r.storage() == self.storage(),
    {
        Ref { ptr: self.ptr, buf: self.buf }
    }
}

/// The slot that an address designates, or `None` outside the storage.
pub open spec fn slot_at<T, TLayout: ElementLayout<T>>(buf: &TLayout::Buf, ptr: TLayout::Ptr) -> Option<T> {
    let i = TLayout::index(ptr);
    if 0 <= i < TLayout::slots(buf).len() {
        TLayout::slots(buf)[i]
    } else {
        None
    }
}

impl<'a, T, TLayout: ElementLayout<T>> Ref<'a, T, TLayout> {
    /// The element the handle designates, if it is live.
    pub open spec fn element(&self) -> Option<T> {
        slot_at::<T, TLayout>(self.storage(), self.raw())
    }
}

impl<'a, T> Ref<'a, T, Flat> {
    /// The element, if it is live.
    pub fn get(&self) -> (r: Option<&'a T>)
        ensures
            r is Some <==> self.element() is Some,
            r matches Some(x) ==> *x == self.element()->0,
    {
        if self.ptr < self.buf.len() {
            self.buf[self.ptr].as_ref()
        } else {
            None
        }
    }
}

impl<'a, T: ?Sized, TLayout: ArrayLayout<T>> RefMut<'a, T, TLayout> {
    /// The address.
    pub closed spec fn raw(&self) -> TLayout::Ptr {
        self.ptr
    }

    /// The borrowed storage.
    pub closed spec fn target(&self) -> &'a mut TLayout::Buf {
        self.buf
    }

    /// The handle on what `ptr` designates in `buf`.
    pub fn from_raw(ptr: TLayout::Ptr, buf: &'a mut TLayout::Buf) -> (r: Self)
        ensures
            r.raw() == ptr,
            *r.target() == *old(buf),
            *final(r.target()) == *final(buf),
    {
        RefMut { ptr, buf }
    }

    /// The address.
    pub fn as_raw(&self) -> (r: TLayout::Ptr)
        ensures
            r == self.raw(),
    {
        self.ptr
    }

    /// The address and the borrowed storage.
    pub fn into_parts(self) -> (r: (TLayout::Ptr, &'a mut TLayout::Buf))
        ensures
            r.0 == self.raw(),
            *r.1 == *self.target(),
            *final(r.1) == *final(self.target()),
    {
        (self.ptr, self.buf)
    }

    /// A shared handle on the same element, for a shorter borrow.
    pub fn reborrow<'b>(&'b self) -> (r: Ref<'b, T, TLayout>)
        ensures
            r.raw() == self.raw(),
            *r.storage() == *self.target(),
    {
        Ref { ptr: self.ptr, buf: self.buf }
    }

    /// An exclusive handle on the same element, for a shorter borrow.
    pub fn reborrow_mut<'b>(&'b mut self) -> (r: RefMut<'b, T, TLayout>)
        ensures
            r.raw() == old(self).raw(),
            *r.target() == *old(self).target(),
            final(self).raw() == old(self).raw(),
            *final(r.target()) == *final(self).target(),
            *final(final(self).target()) == *final(old(self).target()),
    {
        RefMut { ptr: self.ptr, buf: &mut *self.buf }
    }
}

impl<'a, T, TLayout: ElementLayout<T>> RefMut<'a, T, TLayout> {
    /// The element the handle designates, if it is live.
    pub open spec fn element(&self) -> Option<T> {
        slot_at::<T, TLayout>(&*self.target(), self.raw())
    }

    /// Puts `value` in place of the element, and returns the element.
    pub fn replace(reference: Self, value: T) -> (r: T)
        requires
            TLayout::buf_wf(&*reference.target()),
            TLayout::ptr_wf(reference.raw()),
            reference.element() is Some,
        ensures
            r == reference.element()->0,
            TLayout::buf_wf(&*final(reference.target())),
            TLayout::slots(&*final(reference.target())) == TLayout::slots(
                &*old(reference.target()),
            ).update(TLayout::index(reference.raw()), Some(value)),
    {
        let RefMut { ptr, buf } = reference;
        let previous = TLayout::read(buf, ptr);
        TLayout::write(buf, ptr, value);
        assert(TLayout::slots(buf) =~= TLayout::slots(&*old(reference.target())).update(
            TLayout::index(ptr),
            Some(value),
        ));
        previous
    }
}

} // verus!
