//! The layout capability contract, and the size and alignment arithmetic that
//! every layout uses to state its footprint.

pub mod bitvec;
pub mod extra;
pub mod flat;
pub mod parallel;
pub mod slice;
pub mod strided;

pub use self::bitvec::{BitPtr, PackedBits};
pub use self::extra::{Extra, ExtraBuf};
pub use self::flat::Flat;
pub use self::parallel::Parallel;
pub use self::slice::{Slice, SliceIter, SliceIterMut, SlicePtr};
pub use self::strided::{Strided, StridedPtr};

use vstd::prelude::*;

verus! {

/// Size and alignment, in bytes, of a block of memory.
#[derive(Clone, Copy, PartialEq, Eq, Structural, Debug)]
pub struct ByteLayout {
    pub size: usize,
    pub align: usize,
}

/// Rounds `size` up to the next multiple of `align`, if that fits in a `usize`.
pub open spec fn padded(size: int, align: int) -> Option<int> {
    if size + align - 1 > usize::MAX {
        None
    } else {
        let x = size + align - 1;
        Some(x - x % align)
    }
}

impl ByteLayout {
    /// A layout is usable when its alignment is not zero and its size is
    /// addressable.
    pub open spec fn wf(self) -> bool {
        self.align > 0 && self.size <= isize::MAX
    }

    /// The layout of `self` followed by `next`, with `next` placed at the first
    /// offset that is a multiple of its alignment; `None` where the size overflows.
    pub open spec fn extend_spec(self, next: ByteLayout) -> Option<(ByteLayout, usize)> {
        match padded(self.size as int, next.align as int) {
            Some(offset) => if offset + next.size > isize::MAX {
                None
            } else {
                Some((
                    ByteLayout {
                        size: (offset + next.size) as usize,
                        align: if self.align >= next.align { self.align } else { next.align },
                    },
                    offset as usize,
                ))
            },
            None => None,
        }
    }

    /// Appends `next` to `self` (see `extend_spec`): the combined layout and the
    /// offset at which `next` begins.
    pub fn extend(&self, next: &ByteLayout) -> (r: Option<(ByteLayout, usize)>)
        requires
            self.wf(),
            next.wf(),
        ensures
            r == self.extend_spec(*next),
            r matches Some(p) ==> p.0.wf() && p.1 >= self.size,
    {
        let x = match self.size.checked_add(next.align - 1) {
            Some(x) => x,
            None => {
                return None;
            },
        };
        assert(x % next.align <= x && x - x % next.align >= self.size) by (nonlinear_arith)
            requires
                next.align > 0,
                x == self.size + next.align - 1,
        {
            vstd::arithmetic::div_mod::lemma_fundamental_div_mod(x as int, next.align as int);
        }
        let offset = x - x % next.align;
        if offset > isize::MAX as usize || next.size > isize::MAX as usize - offset {
            return None;
        }
        let align = if self.align >= next.align {
            self.align
        } else {
            next.align
        };
        Some((ByteLayout { size: offset + next.size, align }, offset))
    }
}

/// What a slot may hold after its element was moved out: the element still
/// (a copy of plain data), or nothing.
pub open spec fn moved_from<T>(before: Option<T>, after: Option<T>) -> bool {
    after == before || after is None
}

/// What a layout says of addresses, for sized and unsized element types alike.
pub trait ArrayLayout<T: ?Sized>: Sized {
    /// An address: which element of a storage buffer is meant. It carries no
    /// ownership by itself.
    type Ptr: Copy;

    /// The storage an allocation provides.
    type Buf;

    /// Addresses that the layout's own operations can produce.
    spec fn ptr_wf(p: Self::Ptr) -> bool;

    /// The index of the slot that an address designates.
    spec fn index(p: Self::Ptr) -> int;

    /// An address for storage that holds nothing, for empty containers.
    fn dangling() -> (r: Self::Ptr)
        ensures
            Self::ptr_wf(r),
            Self::index(r) == 0,
    ;
}

/// The full capability contract of a layout for a sized element type `T`.
///
/// A buffer is viewed as a sequence of slots; `None` is a slot that holds no
/// live element (never written, or moved from). Addresses designate a slot by
/// its index.
pub trait ElementLayout<T>: ArrayLayout<T> {
    /// Reconstruction metadata computed with the footprint.
    type ArrayInfo;

    /// The representation invariant of a buffer, set up by `initialize`.
    spec fn buf_wf(buf: &Self::Buf) -> bool;

    /// The slots of a buffer.
    spec fn slots(buf: &Self::Buf) -> Seq<Option<T>>;

    /// The size and alignment of an array of `count` elements; `None` where it
    /// overflows the addressable range.
    spec fn footprint(count: nat) -> Option<ByteLayout>;

    /// Storage as `allocate(count)` hands it out, before `initialize`.
    spec fn fresh(buf: &Self::Buf, count: nat) -> bool;

    /// The metadata that `layout_array(count)` hands out.
    spec fn array_info(count: nat) -> Self::ArrayInfo;

    /// Computes the footprint of `count` elements, and its metadata.
    fn layout_array(count: usize) -> (r: Option<(ByteLayout, Self::ArrayInfo)>)
        ensures
            r is Some <==> Self::footprint(count as nat) is Some,
            r matches Some(p) ==> {
                &&& p.0 == Self::footprint(count as nat)->0
                &&& p.0.wf()
                &&& p.1 == Self::array_info(count as nat)
            },
    ;

    /// Obtains storage for `count` elements, none of them live yet.
    fn allocate(count: usize) -> (r: Self::Buf)
        ensures
            Self::fresh(&r, count as nat),
            Self::slots(&r).len() == count,
    ;

    /// The address of the first element of a fresh allocation.
    fn from_flat_ptr(info: &Self::ArrayInfo) -> (r: Self::Ptr)
        ensures
            Self::ptr_wf(r),
            Self::index(r) == 0,
    ;

    /// Sets up the representation invariant of a fresh allocation of `count`
    /// elements.
    fn initialize(buf: &mut Self::Buf, ptr: Self::Ptr, count: usize)
        requires
            Self::fresh(old(buf), count as nat),
            Self::ptr_wf(ptr),
            Self::index(ptr) == 0,
        ensures
            Self::buf_wf(final(buf)),
            Self::slots(final(buf)).len() == count,
    ;

    /// The address `delta` elements away from `ptr`.
    fn offset(ptr: Self::Ptr, delta: isize) -> (r: Self::Ptr)
        requires
            Self::ptr_wf(ptr),
            0 <= Self::index(ptr) + delta <= isize::MAX,
        ensures
            Self::ptr_wf(r),
            Self::index(r) == Self::index(ptr) + delta,
    ;

    /// Whether two addresses designate the same element.
    fn same_ptr(ptr1: Self::Ptr, ptr2: Self::Ptr) -> (r: bool)
        requires
            Self::ptr_wf(ptr1),
            Self::ptr_wf(ptr2),
        ensures
            r == (Self::index(ptr1) == Self::index(ptr2)),
    ;

    /// Moves the element at `ptr` out; the slot is left moved-from.
    fn read(buf: &mut Self::Buf, ptr: Self::Ptr) -> (r: T)
        requires
            Self::buf_wf(old(buf)),
            Self::ptr_wf(ptr),
            0 <= Self::index(ptr) < Self::slots(old(buf)).len(),
            Self::slots(old(buf))[Self::index(ptr)] is Some,
        ensures
            r == Self::slots(old(buf))[Self::index(ptr)]->0,
            Self::buf_wf(final(buf)),
            Self::slots(final(buf)).len() == Self::slots(old(buf)).len(),
            moved_from(
                Self::slots(old(buf))[Self::index(ptr)],
                Self::slots(final(buf))[Self::index(ptr)],
            ),
            forall|j: int|
                0 <= j < Self::slots(old(buf)).len() && j != Self::index(ptr) ==> Self::slots(
                    final(buf),
                )[j] == Self::slots(old(buf))[j],
    ;

    /// Moves `value` into the slot at `ptr`.
    fn write(buf: &mut Self::Buf, ptr: Self::Ptr, value: T)
        requires
            Self::buf_wf(old(buf)),
            Self::ptr_wf(ptr),
            0 <= Self::index(ptr) < Self::slots(old(buf)).len(),
        ensures
            Self::buf_wf(final(buf)),
            Self::slots(final(buf)) == Self::slots(old(buf)).update(Self::index(ptr), Some(value)),
    ;

    /// Drops the element at `ptr` in place; the slot is left moved-from.
    fn drop_in_place(buf: &mut Self::Buf, ptr: Self::Ptr)
        requires
            Self::buf_wf(old(buf)),
            Self::ptr_wf(ptr),
            0 <= Self::index(ptr) < Self::slots(old(buf)).len(),
            Self::slots(old(buf))[Self::index(ptr)] is Some,
        ensures
            Self::buf_wf(final(buf)),
            Self::slots(final(buf)).len() == Self::slots(old(buf)).len(),
            Self::slots(final(buf))[Self::index(ptr)] is None,
            forall|j: int|
                0 <= j < Self::slots(old(buf)).len() && j != Self::index(ptr) ==> Self::slots(
                    final(buf),
                )[j] == Self::slots(old(buf))[j],
    ;

    /// Moves the element at `src` to `dest`.
    fn copy_one_nonoverlapping(buf: &mut Self::Buf, src: Self::Ptr, dest: Self::Ptr)
        requires
            Self::buf_wf(old(buf)),
            Self::ptr_wf(src),
            Self::ptr_wf(dest),
            0 <= Self::index(src) < Self::slots(old(buf)).len(),
            0 <= Self::index(dest) < Self::slots(old(buf)).len(),
            Self::slots(old(buf))[Self::index(src)] is Some,
        ensures
            Self::buf_wf(final(buf)),
            Self::slots(final(buf)).len() == Self::slots(old(buf)).len(),
            Self::slots(final(buf))[Self::index(dest)] == Self::slots(old(buf))[Self::index(src)],
            Self::index(src) != Self::index(dest) ==> moved_from(
                Self::slots(old(buf))[Self::index(src)],
                Self::slots(final(buf))[Self::index(src)],
            ),
            forall|j: int|
                0 <= j < Self::slots(old(buf)).len() && j != Self::index(src) && j != Self::index(
                    dest,
                ) ==> Self::slots(final(buf))[j] == Self::slots(old(buf))[j],
    {
        let v = Self::read(buf, src);
        Self::write(buf, dest, v);
    }

    /// Exchanges the elements at `ptr1` and `ptr2`.
    fn swap_one_nonoverlapping(buf: &mut Self::Buf, ptr1: Self::Ptr, ptr2: Self::Ptr)
        requires
            Self::buf_wf(old(buf)),
            Self::ptr_wf(ptr1),
            Self::ptr_wf(ptr2),
            0 <= Self::index(ptr1) < Self::slots(old(buf)).len(),
            0 <= Self::index(ptr2) < Self::slots(old(buf)).len(),
            Self::index(ptr1) != Self::index(ptr2),
            Self::slots(old(buf))[Self::index(ptr1)] is Some,
            Self::slots(old(buf))[Self::index(ptr2)] is Some,
        ensures
            Self::buf_wf(final(buf)),
            Self::slots(final(buf)) == Self::slots(old(buf)).update(
                Self::index(ptr1),
                Self::slots(old(buf))[Self::index(ptr2)],
            ).update(Self::index(ptr2), Self::slots(old(buf))[Self::index(ptr1)]),
    {
        let temp = Self::read(buf, ptr1);
        Self::copy_one_nonoverlapping(buf, ptr2, ptr1);
        Self::write(buf, ptr2, temp);
        assert(Self::slots(buf) =~= Self::slots(old(buf)).update(
            Self::index(ptr1),
            Self::slots(old(buf))[Self::index(ptr2)],
        ).update(Self::index(ptr2), Self::slots(old(buf))[Self::index(ptr1)]));
    }

    /// Moves `count` elements from `src` to `dest`, in ascending order, so that
    /// the ranges may overlap where `dest` comes first.
    fn copy_leftwards(buf: &mut Self::Buf, src: Self::Ptr, dest: Self::Ptr, count: usize)
        requires
            Self::buf_wf(old(buf)),
            Self::ptr_wf(src),
            Self::ptr_wf(dest),
            0 <= Self::index(dest) <= Self::index(src),
            Self::index(src) + count <= Self::slots(old(buf)).len(),
            Self::slots(old(buf)).len() <= isize::MAX,
            forall|j: int|
                Self::index(src) <= j < Self::index(src) + count ==> Self::slots(old(buf))[j] is Some,
        ensures
            Self::buf_wf(final(buf)),
            Self::slots(final(buf)).len() == Self::slots(old(buf)).len(),
            forall|j: int|
                Self::index(dest) <= j < Self::index(dest) + count ==> Self::slots(final(buf))[j]
                    == Self::slots(old(buf))[j - Self::index(dest) + Self::index(src)],
            forall|j: int|
                0 <= j < Self::slots(old(buf)).len() && (j < Self::index(dest) || j
                    >= Self::index(src) + count) ==> Self::slots(final(buf))[j] == Self::slots(
                    old(buf),
                )[j],
            forall|j: int|
                Self::index(dest) + count <= j < Self::index(src) + count ==> moved_from(
                    Self::slots(old(buf))[j],
                    #[trigger] Self::slots(final(buf))[j],
                ),
    {
        let src_end = Self::offset(src, count as isize);
        let mut s = src;
        let mut d = dest;
        let ghost k: int = 0;
        while !Self::same_ptr(s, src_end)
            invariant
                Self::buf_wf(buf),
                Self::ptr_wf(s),
                Self::ptr_wf(d),
                Self::ptr_wf(src_end),
                Self::index(src_end) == Self::index(src) + count,
                0 <= Self::index(dest) <= Self::index(src),
                Self::index(src) + count <= Self::slots(old(buf)).len(),
                Self::slots(old(buf)).len() <= isize::MAX,
                forall|j: int|
                    Self::index(src) <= j < Self::index(src) + count ==> Self::slots(old(buf))[j] is Some,
                0 <= k <= count,
                Self::index(s) == Self::index(src) + k,
                Self::index(d) == Self::index(dest) + k,
                Self::slots(buf).len() == Self::slots(old(buf)).len(),
                forall|j: int|
                    Self::index(dest) <= j < Self::index(dest) + k ==> Self::slots(buf)[j]
                        == Self::slots(old(buf))[j - Self::index(dest) + Self::index(src)],
                forall|j: int|
                    0 <= j < Self::slots(old(buf)).len() && (j < Self::index(dest) || j
                        >= Self::index(src) + k) ==> Self::slots(buf)[j] == Self::slots(old(buf))[j],
                forall|j: int|
                    Self::index(dest) + k <= j < Self::index(src) + k ==> moved_from(
                        Self::slots(old(buf))[j],
                        #[trigger] Self::slots(buf)[j],
                    ),
            decreases count - k,
        {
            Self::copy_one_nonoverlapping(buf, s, d);
            s = Self::offset(s, 1);
            d = Self::offset(d, 1);
            proof {
                k = k + 1;
            }
        }
    }

    /// Moves `count` elements from `src` to `dest`, in descending order, so that
    /// the ranges may overlap where `src` comes first.
    fn copy_rightwards(buf: &mut Self::Buf, src: Self::Ptr, dest: Self::Ptr, count: usize)
        requires
            Self::buf_wf(old(buf)),
            Self::ptr_wf(src),
            Self::ptr_wf(dest),
            0 <= Self::index(src) <= Self::index(dest),
            Self::index(dest) + count <= Self::slots(old(buf)).len(),
            Self::slots(old(buf)).len() <= isize::MAX,
            forall|j: int|
                Self::index(src) <= j < Self::index(src) + count ==> Self::slots(old(buf))[j] is Some,
        ensures
            Self::buf_wf(final(buf)),
            Self::slots(final(buf)).len() == Self::slots(old(buf)).len(),
            forall|j: int|
                Self::index(dest) <= j < Self::index(dest) + count ==> Self::slots(final(buf))[j]
                    == Self::slots(old(buf))[j - Self::index(dest) + Self::index(src)],
            forall|j: int|
                0 <= j < Self::slots(old(buf)).len() && (j < Self::index(src) || j
                    >= Self::index(dest) + count) ==> Self::slots(final(buf))[j] == Self::slots(
                    old(buf),
                )[j],
            forall|j: int|
                Self::index(src) <= j < Self::index(dest) ==> moved_from(
                    Self::slots(old(buf))[j],
                    #[trigger] Self::slots(final(buf))[j],
                ),
    {
        let src_end = src;
        let mut s = Self::offset(src, count as isize);
        let mut d = Self::offset(dest, count as isize);
        let ghost k: int = count as int;
        while !Self::same_ptr(s, src_end)
            invariant
                Self::buf_wf(buf),
                Self::ptr_wf(s),
                Self::ptr_wf(d),
                Self::ptr_wf(src_end),
                Self::index(src_end) == Self::index(src),
                0 <= Self::index(src) <= Self::index(dest),
                Self::slots(old(buf)).len() <= isize::MAX,
                forall|j: int|
                    Self::index(src) <= j < Self::index(src) + count ==> Self::slots(old(buf))[j] is Some,
                0 <= k <= count,
                Self::index(s) == Self::index(src) + k,
                Self::index(d) == Self::index(dest) + k,
                Self::index(dest) + count <= Self::slots(old(buf)).len(),
                Self::slots(buf).len() == Self::slots(old(buf)).len(),
                forall|j: int|
                    Self::index(dest) + k <= j < Self::index(dest) + count ==> Self::slots(buf)[j]
                        == Self::slots(old(buf))[j - Self::index(dest) + Self::index(src)],
                forall|j: int|
                    0 <= j < Self::slots(old(buf)).len() && (j < Self::index(src) + k || j
                        >= Self::index(dest) + count) ==> Self::slots(buf)[j] == Self::slots(
                        old(buf),
                    )[j],
                forall|j: int|
                    Self::index(src) + k <= j < Self::index(dest) + k ==> moved_from(
                        Self::slots(old(buf))[j],
                        #[trigger] Self::slots(buf)[j],
                    ),
            decreases k,
        {
            s = Self::offset(s, -1);
            d = Self::offset(d, -1);
            Self::copy_one_nonoverlapping(buf, s, d);
            proof {
                k = k - 1;
            }
        }
    }

    /// Moves `count` elements from `src` in `src_buf` to `dest` in `dest_buf`.
    fn copy_nonoverlapping(
        src_buf: &mut Self::Buf,
        src: Self::Ptr,
        dest_buf: &mut Self::Buf,
        dest: Self::Ptr,
        count: usize,
    )
        requires
            Self::buf_wf(old(src_buf)),
            Self::buf_wf(old(dest_buf)),
            Self::ptr_wf(src),
            Self::ptr_wf(dest),
            0 <= Self::index(src),
            Self::index(src) + count <= Self::slots(old(src_buf)).len(),
            0 <= Self::index(dest),
            Self::index(dest) + count <= Self::slots(old(dest_buf)).len(),
            Self::slots(old(src_buf)).len() <= isize::MAX,
            Self::slots(old(dest_buf)).len() <= isize::MAX,
            forall|j: int|
                Self::index(src) <= j < Self::index(src) + count ==> Self::slots(old(src_buf))[j] is Some,
        ensures
            Self::buf_wf(final(src_buf)),
            Self::buf_wf(final(dest_buf)),
            Self::slots(final(src_buf)).len() == Self::slots(old(src_buf)).len(),
            Self::slots(final(dest_buf)).len() == Self::slots(old(dest_buf)).len(),
            forall|j: int|
                Self::index(dest) <= j < Self::index(dest) + count ==> Self::slots(
                    final(dest_buf),
                )[j] == Self::slots(old(src_buf))[j - Self::index(dest) + Self::index(src)],
            forall|j: int|
                0 <= j < Self::slots(old(dest_buf)).len() && (j < Self::index(dest) || j
                    >= Self::index(dest) + count) ==> Self::slots(final(dest_buf))[j]
                    == Self::slots(old(dest_buf))[j],
            forall|j: int|
                0 <= j < Self::slots(old(src_buf)).len() && (j < Self::index(src) || j
                    >= Self::index(src) + count) ==> Self::slots(final(src_buf))[j] == Self::slots(
                    old(src_buf),
                )[j],
            forall|j: int|
                Self::index(src) <= j < Self::index(src) + count ==> moved_from(
                    Self::slots(old(src_buf))[j],
                    #[trigger] Self::slots(final(src_buf))[j],
                ),
    {
        let mut i: usize = 0;
        while i < count
            invariant
                0 <= i <= count,
                Self::buf_wf(src_buf),
                Self::buf_wf(dest_buf),
                Self::ptr_wf(src),
                Self::ptr_wf(dest),
                0 <= Self::index(src),
                0 <= Self::index(dest),
                Self::slots(old(src_buf)).len() <= isize::MAX,
                Self::slots(old(dest_buf)).len() <= isize::MAX,
                forall|j: int|
                    Self::index(src) <= j < Self::index(src) + count ==> Self::slots(old(src_buf))[j] is Some,
                Self::index(src) + count <= Self::slots(old(src_buf)).len(),
                Self::index(dest) + count <= Self::slots(old(dest_buf)).len(),
                Self::slots(src_buf).len() == Self::slots(old(src_buf)).len(),
                Self::slots(dest_buf).len() == Self::slots(old(dest_buf)).len(),
                forall|j: int|
                    Self::index(dest) <= j < Self::index(dest) + i ==> Self::slots(dest_buf)[j]
                        == Self::slots(old(src_buf))[j - Self::index(dest) + Self::index(src)],
                forall|j: int|
                    0 <= j < Self::slots(old(dest_buf)).len() && (j < Self::index(dest) || j
                        >= Self::index(dest) + i) ==> Self::slots(dest_buf)[j] == Self::slots(
                        old(dest_buf),
                    )[j],
                forall|j: int|
                    0 <= j < Self::slots(old(src_buf)).len() && (j < Self::index(src) || j
                        >= Self::index(src) + i) ==> Self::slots(src_buf)[j] == Self::slots(
                        old(src_buf),
                    )[j],
                forall|j: int|
                    Self::index(src) <= j < Self::index(src) + i ==> moved_from(
                        Self::slots(old(src_buf))[j],
                        #[trigger] Self::slots(src_buf)[j],
                    ),
            decreases count - i,
        {
            let s = Self::offset(src, i as isize);
            let d = Self::offset(dest, i as isize);
            let v = Self::read(src_buf, s);
            Self::write(dest_buf, d, v);
            i = i + 1;
        }
    }

    /// Exchanges the `count` elements from `ptr1` with the `count` elements
    /// from `ptr2`; the two ranges do not overlap.
    fn swap_nonoverlapping(buf: &mut Self::Buf, ptr1: Self::Ptr, ptr2: Self::Ptr, count: usize)
        requires
            Self::buf_wf(old(buf)),
            Self::ptr_wf(ptr1),
            Self::ptr_wf(ptr2),
            0 <= Self::index(ptr1),
            0 <= Self::index(ptr2),
            Self::index(ptr1) + count <= Self::index(ptr2) || Self::index(ptr2) + count
                <= Self::index(ptr1),
            Self::index(ptr1) + count <= Self::slots(old(buf)).len(),
            Self::index(ptr2) + count <= Self::slots(old(buf)).len(),
            Self::slots(old(buf)).len() <= isize::MAX,
            forall|j: int|
                Self::index(ptr1) <= j < Self::index(ptr1) + count ==> Self::slots(old(buf))[j] is Some,
            forall|j: int|
                Self::index(ptr2) <= j < Self::index(ptr2) + count ==> Self::slots(old(buf))[j] is Some,
        ensures
            Self::buf_wf(final(buf)),
            Self::slots(final(buf)).len() == Self::slots(old(buf)).len(),
            forall|j: int|
                Self::index(ptr1) <= j < Self::index(ptr1) + count ==> Self::slots(final(buf))[j]
                    == Self::slots(old(buf))[j - Self::index(ptr1) + Self::index(ptr2)],
            forall|j: int|
                Self::index(ptr2) <= j < Self::index(ptr2) + count ==> Self::slots(final(buf))[j]
                    == Self::slots(old(buf))[j - Self::index(ptr2) + Self::index(ptr1)],
            forall|j: int|
                0 <= j < Self::slots(old(buf)).len() && !(Self::index(ptr1) <= j < Self::index(ptr1)
                    + count) && !(Self::index(ptr2) <= j < Self::index(ptr2) + count)
                    ==> Self::slots(final(buf))[j] == Self::slots(old(buf))[j],
    {
        let ptr1_end = Self::offset(ptr1, count as isize);
        let mut cur1 = ptr1;
        let mut cur2 = ptr2;
        let ghost k: int = 0;
        while !Self::same_ptr(cur1, ptr1_end)
            invariant
                Self::buf_wf(buf),
                Self::ptr_wf(cur1),
                Self::ptr_wf(cur2),
                Self::ptr_wf(ptr1_end),
                0 <= Self::index(ptr1),
                0 <= Self::index(ptr2),
                Self::index(ptr1) + count <= Self::index(ptr2) || Self::index(ptr2) + count
                    <= Self::index(ptr1),
                Self::index(ptr1) + count <= Self::slots(old(buf)).len(),
                Self::index(ptr2) + count <= Self::slots(old(buf)).len(),
                Self::slots(old(buf)).len() <= isize::MAX,
                forall|j: int|
                    Self::index(ptr1) <= j < Self::index(ptr1) + count ==> Self::slots(old(buf))[j] is Some,
                forall|j: int|
                    Self::index(ptr2) <= j < Self::index(ptr2) + count ==> Self::slots(old(buf))[j] is Some,
                Self::index(ptr1_end) == Self::index(ptr1) + count,
                0 <= k <= count,
                Self::index(cur1) == Self::index(ptr1) + k,
                Self::index(cur2) == Self::index(ptr2) + k,
                Self::slots(buf).len() == Self::slots(old(buf)).len(),
                forall|j: int|
                    Self::index(ptr1) <= j < Self::index(ptr1) + k ==> Self::slots(buf)[j]
                        == Self::slots(old(buf))[j - Self::index(ptr1) + Self::index(ptr2)],
                forall|j: int|
                    Self::index(ptr2) <= j < Self::index(ptr2) + k ==> Self::slots(buf)[j]
                        == Self::slots(old(buf))[j - Self::index(ptr2) + Self::index(ptr1)],
                forall|j: int|
                    0 <= j < Self::slots(old(buf)).len() && !(Self::index(ptr1) <= j < Self::index(
                        ptr1,
                    ) + k) && !(Self::index(ptr2) <= j < Self::index(ptr2) + k) ==> Self::slots(
                        buf,
                    )[j] == Self::slots(old(buf))[j],
            decreases count - k,
        {
            Self::swap_one_nonoverlapping(buf, cur1, cur2);
            cur1 = Self::offset(cur1, 1);
            cur2 = Self::offset(cur2, 1);
            proof {
                k = k + 1;
            }
        }
    }
}

} // verus!
