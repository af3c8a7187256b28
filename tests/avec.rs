use arranged::layouts::{ByteLayout, ElementLayout, Extra, Flat, PackedBits, Parallel, Strided};
use arranged::reference::RefMut;
use arranged::vec::AVec;

#[test]
fn bitvec() {
    let mut vec: AVec<bool, PackedBits<Flat>> = AVec::new();
    for _ in 0..1000 {
        vec.push(false);
        vec.push(true);
        vec.push(true);
        vec.push(false);
        vec.push(false);
        vec.push(true);
        vec.push(false);
    }

    for _ in 0..1000 {
        assert_eq!(vec.pop(), Some(false));
        assert_eq!(vec.pop(), Some(true));
        assert_eq!(vec.pop(), Some(false));
        assert_eq!(vec.pop(), Some(false));
        assert_eq!(vec.pop(), Some(true));
        assert_eq!(vec.pop(), Some(true));
        assert_eq!(vec.pop(), Some(false));
    }
    assert_eq!(vec.pop(), None);
}

#[test]
fn pairs_pop_in_reverse_order() {
    let mut vec: AVec<(u64, u64), Parallel<(Flat, Flat)>> = AVec::new();
    vec.push((1, 2));
    vec.push((3, 4));
    vec.push((5, 6));
    vec.push((7, 8));
    vec.push((9, 10));
    assert_eq!(vec.len(), 5);
    assert_eq!(vec.pop(), Some((9, 10)));
    assert_eq!(vec.pop(), Some((7, 8)));
    assert_eq!(vec.pop(), Some((5, 6)));
    assert_eq!(vec.pop(), Some((3, 4)));
    assert_eq!(vec.pop(), Some((1, 2)));
    assert_eq!(vec.pop(), None);
}

fn flat_of(values: &[u32]) -> AVec<u32, Flat> {
    let mut v: AVec<u32, Flat> = AVec::new();
    for x in values {
        v.push(*x);
    }
    v
}

fn contents(v: &mut AVec<u32, Flat>) -> Vec<u32> {
    let mut out = Vec::new();
    while let Some(x) = v.pop() {
        out.push(x);
    }
    out.reverse();
    for x in &out {
        v.push(*x);
    }
    out
}

#[test]
fn growth_doubles_from_two() {
    let mut v: AVec<u32, Flat> = AVec::new();
    assert_eq!(v.capacity(), 0);
    assert!(v.is_empty());
    v.push(1);
    assert_eq!(v.capacity(), 2);
    v.push(2);
    assert_eq!(v.capacity(), 2);
    v.push(3);
    assert_eq!(v.capacity(), 4);
    v.push(4);
    v.push(5);
    assert_eq!(v.capacity(), 8);
    assert_eq!(v.len(), 5);
    assert!(!v.is_empty());
}

#[test]
fn with_capacity_allocates_exactly() {
    let v: AVec<u32, Flat> = AVec::with_capacity(7);
    assert_eq!(v.capacity(), 7);
    assert_eq!(v.len(), 0);
    let z: AVec<(), Flat> = AVec::with_capacity(7);
    assert_eq!(z.capacity(), 0);
}

#[test]
fn insert_and_remove_keep_order() {
    let mut v = flat_of(&[1, 2, 4]);
    v.insert(2, 3);
    assert_eq!(contents(&mut v), vec![1, 2, 3, 4]);
    v.insert(0, 0);
    v.insert(5, 5);
    assert_eq!(contents(&mut v), vec![0, 1, 2, 3, 4, 5]);
    assert_eq!(v.remove(1), 1);
    assert_eq!(contents(&mut v), vec![0, 2, 3, 4, 5]);
    assert_eq!(v.remove(4), 5);
    assert_eq!(contents(&mut v), vec![0, 2, 3, 4]);
}

#[test]
fn swap_remove_moves_last_into_place() {
    let mut v = flat_of(&[10, 20, 30, 40]);
    assert_eq!(v.swap_remove(1), 20);
    assert_eq!(contents(&mut v), vec![10, 40, 30]);
    assert_eq!(v.swap_remove(2), 30);
    assert_eq!(contents(&mut v), vec![10, 40]);
}

#[test]
fn truncate_and_clear() {
    let mut v = flat_of(&[1, 2, 3, 4, 5]);
    let cap = v.capacity();
    v.truncate(2);
    assert_eq!(contents(&mut v), vec![1, 2]);
    assert_eq!(v.capacity(), cap);
    v.truncate(9);
    assert_eq!(contents(&mut v), vec![1, 2]);
    v.clear();
    assert_eq!(v.len(), 0);
    assert_eq!(v.capacity(), cap);
}

#[test]
fn reserve_and_truncate_to_len_change_nothing() {
    let mut v = flat_of(&[1, 2, 3]);
    let cap = v.capacity();
    v.reserve(0);
    assert_eq!(v.capacity(), cap);
    v.truncate(3);
    assert_eq!(v.capacity(), cap);
    assert_eq!(contents(&mut v), vec![1, 2, 3]);
}

#[test]
fn reserve_grows_to_larger_of_request_and_double() {
    let mut v = flat_of(&[1, 2, 3]);
    assert_eq!(v.capacity(), 4);
    v.reserve(2);
    assert_eq!(v.capacity(), 8);
    v.reserve(20);
    assert_eq!(v.capacity(), 23);
    assert_eq!(contents(&mut v), vec![1, 2, 3]);
}

#[test]
fn append_moves_everything() {
    let mut a = flat_of(&[1, 2]);
    let mut b = flat_of(&[3, 4, 5]);
    let cap_b = b.capacity();
    a.append(&mut b);
    assert_eq!(contents(&mut a), vec![1, 2, 3, 4, 5]);
    assert_eq!(b.len(), 0);
    assert_eq!(b.capacity(), cap_b);
}

#[test]
fn drain_middle_partially_consumed() {
    let mut v = flat_of(&[1, 2, 3, 4, 5, 6]);
    {
        let mut d = v.drain(1..4);
        assert_eq!(d.next(), Some(2));
        d.finish();
    }
    assert_eq!(contents(&mut v), vec![1, 5, 6]);
}

#[test]
fn drain_from_both_ends() {
    let mut v = flat_of(&[1, 2, 3, 4, 5]);
    {
        let mut d = v.drain(1..4);
        assert_eq!(d.next_back(), Some(4));
        assert_eq!(d.next(), Some(2));
        assert_eq!(d.next_back(), Some(3));
        assert_eq!(d.next(), None);
        assert_eq!(d.next_back(), None);
        d.finish();
    }
    assert_eq!(contents(&mut v), vec![1, 5]);
}

#[test]
fn drain_filter_takes_even_values() {
    let mut v = flat_of(&[1, 2, 3, 4, 5, 6, 7]);
    let mut taken = Vec::new();
    {
        let mut d = v.drain_filter(|x: &u32| *x % 2 == 0);
        while let Some(x) = d.next() {
            taken.push(x);
        }
        d.finish();
    }
    assert_eq!(taken, vec![2, 4, 6]);
    assert_eq!(contents(&mut v), vec![1, 3, 5, 7]);
}

#[test]
fn drain_filter_abandoned_still_partitions() {
    let mut v = flat_of(&[2, 1, 4, 3, 6, 5]);
    {
        let mut d = v.drain_filter(|x: &u32| *x % 2 == 0);
        assert_eq!(d.next(), Some(2));
        d.finish();
    }
    assert_eq!(contents(&mut v), vec![1, 3, 5]);
}

#[test]
fn retain_keeps_odd_values() {
    let mut v = flat_of(&[1, 2, 3, 4, 5, 6]);
    v.retain(|x: &u32| *x % 2 == 1);
    assert_eq!(contents(&mut v), vec![1, 3, 5]);
}

#[test]
fn strided_and_extra_layouts_hold_elements() {
    let mut s: AVec<u8, Strided> = AVec::new();
    s.push(7);
    s.push(8);
    s.insert(1, 9);
    assert_eq!(s.remove(0), 7);
    assert_eq!(s.pop(), Some(8));
    assert_eq!(s.pop(), Some(9));
    assert_eq!(s.pop(), None);

    let mut e: AVec<((), u16), Parallel<(Extra<String>, Flat)>> = AVec::new();
    e.push(((), 1));
    e.push(((), 2));
    e.push(((), 3));
    assert_eq!(e.remove(1), ((), 2));
    assert_eq!(e.pop(), Some(((), 3)));
    assert_eq!(e.pop(), Some(((), 1)));
    assert_eq!(e.pop(), None);
}

#[test]
fn bits_insert_remove_across_words() {
    let mut v: AVec<bool, PackedBits<Flat>> = AVec::new();
    for i in 0..130u32 {
        v.push(i % 3 == 0);
    }
    v.insert(0, false);
    assert_eq!(v.remove(64), (63 % 3) == 0);
    assert_eq!(v.swap_remove(0), false);
    let mut count = 0;
    while let Some(_) = v.pop() {
        count += 1;
    }
    assert_eq!(count, 129);
}


#[test]
fn push_pop() {
    let mut vec: AVec<(u64, u64), Parallel<(Flat, Flat)>> = AVec::new();
    vec.push((1, 2));
    vec.push((3, 4));
    vec.push((5, 6));
    vec.push((7, 8));
    vec.push((9, 10));

    let mut left_match = 1;
    let mut left = vec.as_slice().unzip().0.into_iter();
    while let Some(left_val) = left.next() {
        assert_eq!(left_match, *left_val.get().unwrap());
        left_match += 2;
    }
    assert_eq!(left_match, 11);
    let mut right_match = 2;
    let mut right = vec.as_slice().unzip().1.into_iter();
    while let Some(right_val) = right.next() {
        assert_eq!(right_match, *right_val.get().unwrap());
        right_match += 2;
    }
    assert_eq!(right_match, 12);

    assert_eq!(vec.pop(), Some((9, 10)));
    assert_eq!(vec.pop(), Some((7, 8)));
    assert_eq!(vec.pop(), Some((5, 6)));
    assert_eq!(vec.pop(), Some((3, 4)));
    assert_eq!(vec.pop(), Some((1, 2)));
    assert_eq!(vec.pop(), None);
}

#[test]
fn iter_mut_replace_updates_elements() {
    let mut vec = flat_of(&[1, 2, 3]);
    {
        let mut it = vec.iter_mut();
        while let Some(handle) = it.next() {
            let old = RefMut::replace(handle, 0);
            assert!(old >= 1 && old <= 3);
        }
    }
    assert_eq!(contents(&mut vec), vec![0, 0, 0]);
}

#[test]
fn iter_visits_in_order() {
    let vec = flat_of(&[4, 5, 6]);
    let mut seen = Vec::new();
    let mut it = vec.iter();
    while let Some(handle) = it.next() {
        seen.push(*handle.get().unwrap());
    }
    assert_eq!(seen, vec![4, 5, 6]);
    let s = vec.as_slice();
    assert_eq!(s.len(), 3);
    assert_eq!(s.strided().len(), 3);
}

#[test]
fn bit_handles_replace_single_bits() {
    let mut vec: AVec<bool, PackedBits<Flat>> = AVec::new();
    for i in 0..70u32 {
        vec.push(i == 65);
    }
    {
        let mut it = vec.iter_mut();
        let mut i = 0;
        while let Some(handle) = it.next() {
            let old = RefMut::replace(handle, i % 2 == 0);
            assert_eq!(old, i == 65);
            i += 1;
        }
    }
    for i in (0..70u32).rev() {
        assert_eq!(vec.pop(), Some(i % 2 == 0));
    }
}

#[test]
fn unzip_mut_columns_write_through() {
    let mut vec: AVec<(u64, u64), Parallel<(Flat, Flat)>> = AVec::new();
    vec.push((1, 2));
    vec.push((3, 4));
    {
        let (left, _right) = vec.as_mut_slice().unzip();
        let mut it = left.into_iter();
        while let Some(handle) = it.next() {
            let old = RefMut::replace(handle, 0);
            assert!(old == 1 || old == 3);
        }
    }
    assert_eq!(vec.pop(), Some((0, 4)));
    assert_eq!(vec.pop(), Some((0, 2)));
}

#[test]
fn extra_value_rides_along() {
    let mut vec: AVec<((), u16), Parallel<(Extra<String>, Flat)>> = AVec::new();
    vec.push(((), 7));
    vec.push(((), 8));
    {
        let (extra, _) = vec.as_mut_slice().unzip();
        let (_, storage) = extra.into_parts();
        assert_eq!(storage.set(String::from("shared")), None);
        assert_eq!(storage.set(String::from("again")), Some(String::from("shared")));
    }
    {
        let (extra, values) = vec.as_slice().unzip();
        assert_eq!(extra.as_storage().get().as_deref(), Some("again"));
        assert_eq!(values.len(), 2);
    }
    assert_eq!(vec.pop(), Some(((), 8)));
}

#[test]
fn set_len_shrinks_view() {
    let mut v = flat_of(&[1, 2, 3, 4]);
    v.set_len(2);
    assert_eq!(contents(&mut v), vec![1, 2]);
}

#[test]
fn layout_footprints() {
    let (flat, _) = <Flat as ElementLayout<u32>>::layout_array(10).unwrap();
    assert_eq!(flat, ByteLayout { size: 40, align: 4 });
    let (bits, _) = <PackedBits<Flat> as ElementLayout<bool>>::layout_array(65).unwrap();
    assert_eq!(bits, ByteLayout { size: 16, align: 8 });
    let (pair, info) = <Parallel<(Flat, Flat)> as ElementLayout<(u8, u32)>>::layout_array(3).unwrap();
    assert_eq!(pair, ByteLayout { size: 16, align: 4 });
    assert_eq!(info.2, 4);
    let (extra, _) = <Extra<u64> as ElementLayout<()>>::layout_array(1000).unwrap();
    assert_eq!(extra, ByteLayout { size: 8, align: 8 });
    assert!(<Flat as ElementLayout<u64>>::layout_array(usize::MAX / 4).is_none());
    let a = ByteLayout { size: 5, align: 1 };
    let b = ByteLayout { size: 8, align: 8 };
    assert_eq!(a.extend(&b), Some((ByteLayout { size: 16, align: 8 }, 8)));
}

#[test]
fn dropping_paths_release_elements() {
    let shared = std::rc::Rc::new(5u8);
    let mut v: AVec<std::rc::Rc<u8>, Flat> = AVec::new();
    for _ in 0..6 {
        v.push(shared.clone());
    }
    assert_eq!(std::rc::Rc::strong_count(&shared), 7);
    v.truncate(4);
    assert_eq!(std::rc::Rc::strong_count(&shared), 5);
    {
        let d = v.drain(1..3);
        d.finish();
    }
    assert_eq!(v.len(), 2);
    assert_eq!(std::rc::Rc::strong_count(&shared), 3);
    v.clear();
    assert_eq!(std::rc::Rc::strong_count(&shared), 1);
}
