use std::collections::HashMap;

use mono_heap::MonoHeap;

#[test]
fn create() {
    let _ = MonoHeap::<i32>::new();
}

#[test]
fn add_retrieve() {
    let mut h = MonoHeap::<i32>::new();
    let t1 = h.insert(4);
    let t2 = h.insert(6);
    assert_eq!(*h.get(t1).unwrap(), 4);
    assert_eq!(*h.get(t2).unwrap(), 6);
}

#[test]
fn add_delete_retrieve() {
    let mut h = MonoHeap::<i32>::new();
    let t1 = h.insert(4);
    let t2 = h.insert(6);
    let t3 = h.insert(12);
    h.remove(t2);
    assert_eq!(*h.get(t1).unwrap(), 4);
    assert_eq!(h.get(t2), None);
    assert_eq!(*h.get(t3).unwrap(), 12);
}

#[test]
fn iterator_test() {
    let mut h = MonoHeap::<i32>::new();
    h.insert(4);
    h.insert(6);
    h.insert(12);
    let t1 = h.insert(14);
    h.remove(t1);
    let mut check_set: HashMap<i32, bool> = HashMap::from([(4, false), (6, false), (12, false)]);

    let mut it = h.iter();
    while let Some(a) = it.next() {
        if let Some(v) = check_set.get_mut(a) {
            *v = true;
        } else {
            assert!(false)
        }
    }

    for (_, v) in check_set {
        assert!(v);
    }
}

#[test]
fn staged_insert_remove() {
    let mut h = MonoHeap::<i32>::new();
    let t1 = h.insert(4);
    let t2 = h.insert(6);
    assert_eq!(*h.get(t1).unwrap(), 4);
    assert_eq!(*h.get(t2).unwrap(), 6);
    let t3 = h.insert(12);
    h.remove(t2);
    assert_eq!(*h.get(t1).unwrap(), 4);
    assert_eq!(h.get(t2), None);
    assert_eq!(*h.get(t3).unwrap(), 12);
}

#[test]
fn post_removal_invalidity() {
    let mut h = MonoHeap::<u64>::new();
    let t = h.insert(7);
    assert!(h.is_token_valid(t));
    assert!(h.remove(t));
    assert!(!h.is_token_valid(t));
    assert_eq!(h.get(t), None);
    assert_eq!(h.get_mut(t), None);
    assert!(!h.remove(t));
}

#[test]
fn generation_non_aliasing() {
    let mut h = MonoHeap::<&str>::new();
    let ta = h.insert("first");
    assert!(h.remove(ta));
    let tb = h.insert("second");
    // The freed slot is re-used, but the old token must not see the new value.
    assert_eq!(h.get(ta), None);
    assert!(!h.is_token_valid(ta));
    assert_eq!(*h.get(tb).unwrap(), "second");
    // Exactly one value is stored: the slot was recycled, not appended.
    let mut it = h.iter();
    assert_eq!(*it.next().unwrap(), "second");
    assert_eq!(it.next(), None);
}

#[test]
fn growth_preserves_handles() {
    let mut h = MonoHeap::<usize>::new();
    let mut tokens = Vec::new();
    for n in 0..8 {
        tokens.push(h.insert(n));
    }
    // Force plenty of growth past any initial allocation.
    for n in 8..200 {
        h.insert(n);
    }
    for (n, t) in tokens.iter().enumerate() {
        assert!(h.is_token_valid(*t));
        assert_eq!(*h.get(*t).unwrap(), n);
    }
}

#[test]
fn iteration_complete() {
    let mut h = MonoHeap::<i32>::new();
    h.insert(4);
    h.insert(6);
    h.insert(12);
    let mut seen = Vec::new();
    let mut it = h.iter();
    while let Some(v) = it.next() {
        seen.push(*v);
    }
    // Ascending slot index order: exactly the insertion order here.
    assert_eq!(seen, vec![4, 6, 12]);
}

#[test]
fn iteration_excludes_removed() {
    let mut h = MonoHeap::<i32>::new();
    h.insert(4);
    let t6 = h.insert(6);
    h.insert(12);
    h.insert(14);
    h.remove(t6);
    let mut seen = Vec::new();
    let mut it = h.iter();
    while let Some(v) = it.next() {
        seen.push(*v);
    }
    assert_eq!(seen, vec![4, 12, 14]);
}

#[test]
fn iterator_restarts() {
    let mut h = MonoHeap::<i32>::new();
    h.insert(1);
    h.insert(2);
    let mut first = h.iter();
    assert_eq!(*first.next().unwrap(), 1);
    assert_eq!(*first.next().unwrap(), 2);
    assert_eq!(first.next(), None);
    assert_eq!(first.next(), None);
    let mut second = h.iter();
    assert_eq!(*second.next().unwrap(), 1);
}

#[test]
fn out_of_range_token() {
    let mut big = MonoHeap::<i32>::new();
    big.insert(1);
    big.insert(2);
    let high = big.insert(3);
    let mut small = MonoHeap::<i32>::new();
    small.insert(10);
    // A token whose index exceeds the arena's storage: invalid, never a fault.
    assert!(!small.is_token_valid(high));
    assert_eq!(small.get(high), None);
    assert_eq!(small.get_mut(high), None);
    assert!(!small.remove(high));
}

#[test]
fn empty_heap_rejects_everything() {
    let mut donor = MonoHeap::<i32>::new();
    let t = donor.insert(5);
    let mut h = MonoHeap::<i32>::new();
    assert!(!h.is_token_valid(t));
    assert_eq!(h.get(t), None);
    assert!(!h.remove(t));
    let mut it = h.iter();
    assert_eq!(it.next(), None);
}

#[test]
fn get_mut_updates_value() {
    let mut h = MonoHeap::<i32>::new();
    let t = h.insert(5);
    let other = h.insert(6);
    if let Some(v) = h.get_mut(t) {
        *v = 9;
    } else {
        assert!(false);
    }
    assert_eq!(*h.get(t).unwrap(), 9);
    assert_eq!(*h.get(other).unwrap(), 6);
    h.remove(t);
    assert_eq!(h.get_mut(t), None);
}

#[test]
fn with_capacity_behaves_like_new() {
    let mut h = MonoHeap::<i32>::with_capacity(16);
    let t1 = h.insert(4);
    let t2 = h.insert(6);
    assert_eq!(*h.get(t1).unwrap(), 4);
    assert_eq!(*h.get(t2).unwrap(), 6);
    assert!(h.remove(t1));
    assert_eq!(h.get(t1), None);
}

#[test]
fn tokens_compare_by_value() {
    let mut h = MonoHeap::<i32>::new();
    let t1 = h.insert(4);
    let copy = t1;
    let t2 = h.insert(6);
    assert!(t1 == copy);
    assert!(t1 != t2);
    assert_eq!(*h.get(copy).unwrap(), 4);
}
