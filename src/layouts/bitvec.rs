//! The bit-packed layout: booleans packed into 64-bit words that an inner
//! layout stores.

use vstd::prelude::*;
use core::marker::PhantomData;
use crate::layouts::{ArrayLayout, ByteLayout, ElementLayout};

verus! {

/// The number of booleans a word holds.
pub const WORD_BITS: usize = 64;

/// Lays out booleans as the bits of words laid out by `WordLayout`.
pub struct PackedBits<WordLayout> {
    _marker: PhantomData<WordLayout>,
}

/// The address of a bit: the address of its word, and its position in it.
pub struct BitPtr<WordPtr> {
    word_ptr: WordPtr,
    bit_index: u8,
}

impl<WordPtr: Copy> Clone for BitPtr<WordPtr> {
    fn clone(&self) -> (r: Self)
        ensures
            r == *self,
    {
        *self
    }
}

impl<WordPtr: Copy> Copy for BitPtr<WordPtr> {

}

/// The storage of packed bits: the words, and for each bit that they were
/// allocated for, whether it holds a live element.
pub struct BitBuf<WordBuf> {
    words: WordBuf,
    live: Ghost<Seq<bool>>,
}

/// Bit `b` of `w`, counting from the least significant.
pub open spec fn bit_of(w: u64, b: int) -> bool {
    (w >> (b as u64)) & 1u64 != 0
}

/// The number of words that hold `count` bits.
pub open spec fn word_count(count: nat) -> nat {
    ((count + 63) / 64) as nat
}

proof fn lemma_bit_update(w: u64, b: u64, c: u64)
    requires
        b < 64,
        c < 64,
    ensures
        ((w | (1u64 << b)) >> c) & 1u64 != 0 <==> (c == b || (w >> c) & 1u64 != 0),
        ((w & !(1u64 << b)) >> c) & 1u64 != 0 <==> (c != b && (w >> c) & 1u64 != 0),
{
    assert(((w | (1u64 << b)) >> c) & 1u64 != 0 <==> (c == b || (w >> c) & 1u64 != 0))
        by (bit_vector)
        requires
            b < 64,
            c < 64,
    ;
    assert(((w & !(1u64 << b)) >> c) & 1u64 != 0 <==> (c != b && (w >> c) & 1u64 != 0))
        by (bit_vector)
        requires
            b < 64,
            c < 64,
    ;
}

proof fn lemma_zero_bits(c: u64)
    requires
        c < 64,
    ensures
        (0u64 >> c) & 1u64 == 0,
{
    assert((0u64 >> c) & 1u64 == 0) by (bit_vector)
        requires
            c < 64,
    ;
}

impl<WordLayout: ElementLayout<u64>> ArrayLayout<bool> for PackedBits<WordLayout> {
    type Ptr = BitPtr<WordLayout::Ptr>;

    type Buf = BitBuf<WordLayout::Buf>;

    closed spec fn ptr_wf(p: BitPtr<WordLayout::Ptr>) -> bool {
        &&& WordLayout::ptr_wf(p.word_ptr)
        &&& WordLayout::index(p.word_ptr) >= 0
        &&& p.bit_index < 64
        &&& WordLayout::index(p.word_ptr) * 64 + p.bit_index <= isize::MAX
    }

    closed spec fn index(p: BitPtr<WordLayout::Ptr>) -> int {
        WordLayout::index(p.word_ptr) * 64 + p.bit_index
    }

    fn dangling() -> (r: BitPtr<WordLayout::Ptr>) {
        BitPtr { word_ptr: WordLayout::dangling(), bit_index: 0 }
    }
}

impl<WordLayout: ElementLayout<u64>> ElementLayout<bool> for PackedBits<WordLayout> {
    type ArrayInfo = WordLayout::ArrayInfo;

    closed spec fn buf_wf(buf: &BitBuf<WordLayout::Buf>) -> bool {
        let words = WordLayout::slots(&buf.words);
        &&& WordLayout::buf_wf(&buf.words)
        &&& words.len() == word_count(buf.live@.len())
        &&& forall|j: int| 0 <= j < words.len() ==> (#[trigger] words[j]) is Some
    }

    closed spec fn slots(buf: &BitBuf<WordLayout::Buf>) -> Seq<Option<bool>> {
        let words = WordLayout::slots(&buf.words);
        Seq::new(
            buf.live@.len(),
            |k: int|
                if buf.live@[k] {
                    Some(bit_of(words[k / 64]->0, k % 64))
                } else {
                    None
                },
        )
    }

    open spec fn footprint(count: nat) -> Option<ByteLayout> {
        WordLayout::footprint(word_count(count))
    }

    closed spec fn fresh(buf: &BitBuf<WordLayout::Buf>, count: nat) -> bool {
        &&& WordLayout::fresh(&buf.words, word_count(count))
        &&& buf.live@.len() == count
    }

    open spec fn array_info(count: nat) -> WordLayout::ArrayInfo {
        WordLayout::array_info(word_count(count))
    }

    fn layout_array(count: usize) -> (r: Option<(ByteLayout, WordLayout::ArrayInfo)>) {
        let word_count = count / WORD_BITS + if count % WORD_BITS != 0 {
            1
        } else {
            0
        };
        WordLayout::layout_array(word_count)
    }

    fn allocate(count: usize) -> (r: BitBuf<WordLayout::Buf>) {
        let words = count / WORD_BITS + if count % WORD_BITS != 0 {
            1
        } else {
            0
        };
        BitBuf {
            words: WordLayout::allocate(words),
            live: Ghost(Seq::new(count as nat, |k: int| false)),
        }
    }

    fn from_flat_ptr(info: &WordLayout::ArrayInfo) -> (r: BitPtr<WordLayout::Ptr>) {
        BitPtr { word_ptr: WordLayout::from_flat_ptr(info), bit_index: 0 }
    }

    /// Fills every word with zeros, so that every bit reads false and no bit
    /// is read before it is set.
    fn initialize(buf: &mut BitBuf<WordLayout::Buf>, ptr: BitPtr<WordLayout::Ptr>, count: usize)
        ensures
            forall|k: int| 0 <= k < count ==> #[trigger] Self::slots(final(buf))[k] == Some(false),
    {
        let word_count = count / WORD_BITS + if count % WORD_BITS != 0 {
            1
        } else {
            0
        };
        WordLayout::initialize(&mut buf.words, ptr.word_ptr, word_count);
        let word_end = WordLayout::offset(ptr.word_ptr, word_count as isize);
        let mut cur_word = ptr.word_ptr;
        while !WordLayout::same_ptr(cur_word, word_end)
            invariant
                WordLayout::buf_wf(&buf.words),
                WordLayout::slots(&buf.words).len() == word_count,
                buf.live@.len() == count,
                word_count == crate::layouts::bitvec::word_count(count as nat),
                WordLayout::ptr_wf(cur_word),
                WordLayout::ptr_wf(word_end),
                0 <= WordLayout::index(cur_word) <= word_count,
                WordLayout::index(word_end) == word_count,
                forall|j: int|
                    0 <= j < WordLayout::index(cur_word) ==> #[trigger] WordLayout::slots(
                        &buf.words,
                    )[j] == Some(0u64),
            decreases word_count - WordLayout::index(cur_word),
        {
            WordLayout::write(&mut buf.words, cur_word, 0);
            cur_word = WordLayout::offset(cur_word, 1);
        }
        proof {
            buf.live@ = Seq::new(count as nat, |k: int| true);
            assert forall|k: int| 0 <= k < count implies #[trigger] Self::slots(buf)[k] == Some(
                false,
            ) by {
                assert(WordLayout::slots(&buf.words)[k / 64] == Some(0u64));
                lemma_zero_bits((k % 64) as u64);
            }
        }
    }

    fn offset(ptr: BitPtr<WordLayout::Ptr>, delta: isize) -> (r: BitPtr<WordLayout::Ptr>) {
        let offset_from_word: isize = delta + ptr.bit_index as isize;
        if offset_from_word >= 0 {
            let u = offset_from_word as usize;
            let word_delta = (u / WORD_BITS) as isize;
            let bit_index = (u % WORD_BITS) as u8;
            BitPtr { word_ptr: WordLayout::offset(ptr.word_ptr, word_delta), bit_index }
        } else {
            let neg = (-offset_from_word) as usize;
            let up = (neg + 63) / WORD_BITS;
            assert(up * 64 >= neg && up * 64 < neg + 64) by (nonlinear_arith)
                requires
                    up == (neg + 63) / 64,
            ;
            assert(WordLayout::index(ptr.word_ptr) >= up) by (nonlinear_arith)
                requires
                    WordLayout::index(ptr.word_ptr) * 64 + ptr.bit_index + delta >= 0,
                    neg == -(delta + ptr.bit_index),
                    up * 64 >= neg,
                    up * 64 < neg + 64,
            ;
            let bit_index = (up * WORD_BITS - neg) as u8;
            BitPtr { word_ptr: WordLayout::offset(ptr.word_ptr, -(up as isize)), bit_index }
        }
    }

    fn same_ptr(ptr1: BitPtr<WordLayout::Ptr>, ptr2: BitPtr<WordLayout::Ptr>) -> (r: bool) {
        WordLayout::same_ptr(ptr1.word_ptr, ptr2.word_ptr) && ptr1.bit_index == ptr2.bit_index
    }

    fn read(buf: &mut BitBuf<WordLayout::Buf>, ptr: BitPtr<WordLayout::Ptr>) -> (r: bool) {
        let ghost before = Self::slots(buf);
        let word = WordLayout::read(&mut buf.words, ptr.word_ptr);
        WordLayout::write(&mut buf.words, ptr.word_ptr, word);
        assert(Self::slots(buf) =~= before);
        ((word >> (ptr.bit_index as u64)) & 1u64) != 0
    }

    fn write(buf: &mut BitBuf<WordLayout::Buf>, ptr: BitPtr<WordLayout::Ptr>, value: bool) {
        let old_word = WordLayout::read(&mut buf.words, ptr.word_ptr);
        let b = ptr.bit_index as u64;
        let new_word = if value {
            old_word | (1u64 << b)
        } else {
            old_word & !(1u64 << b)
        };
        WordLayout::write(&mut buf.words, ptr.word_ptr, new_word);
        proof {
            buf.live@ = buf.live@.update(Self::index(ptr), true);
            assert forall|k: int| 0 <= k < Self::slots(buf).len() implies Self::slots(buf)[k]
                == Self::slots(old(buf)).update(Self::index(ptr), Some(value))[k] by {
                if k / 64 == WordLayout::index(ptr.word_ptr) {
                    lemma_bit_update(old_word, b, (k % 64) as u64);
                }
            }
            assert(Self::slots(buf) =~= Self::slots(old(buf)).update(Self::index(ptr), Some(value)));
        }
    }

    fn drop_in_place(buf: &mut BitBuf<WordLayout::Buf>, ptr: BitPtr<WordLayout::Ptr>) {
        proof {
            buf.live@ = buf.live@.update(Self::index(ptr), false);
        }
    }
}

} // verus!
