use keyed_vec::IndexLike;
use keyed_vec::KeyedVec;

#[derive(Debug, Clone, Copy, PartialEq, Eq)]
struct Id(usize);
impl IndexLike for Id {
    fn to_index(&self) -> usize {
        self.0
    }

    fn from_index(i: usize) -> Self {
        Id(i)
    }
}

fn filled(values: &[u64]) -> KeyedVec<Id, u64> {
    let mut v = KeyedVec::<Id, u64>::new();
    for value in values {
        v.push(*value);
    }
    v
}

#[test]
fn push_round_trips_through_keys() {
    let values: Vec<u64> = vec![10, 20, 30, 40];
    let mut v = KeyedVec::<Id, u64>::new();
    let mut keys: Vec<Id> = Vec::new();
    for value in &values {
        keys.push(v.push(*value));
    }
    for (i, value) in values.iter().enumerate() {
        assert_eq!(keys[i].to_index(), i);
        assert_eq!(v.get(Id::from_index(i)), Some(value));
        assert_eq!(v.get(keys[i]), Some(value));
    }
    assert_eq!(v.get(Id::from_index(values.len())), None);
}

#[test]
fn len_starts_at_zero_and_push_adds_one() {
    let mut v = KeyedVec::<Id, u64>::new();
    assert_eq!(v.len(), 0);
    assert!(v.is_empty());
    for i in 0..5u64 {
        v.push(i);
        assert_eq!(v.len(), (i + 1) as usize);
    }
    assert!(!v.is_empty());
}

#[test]
fn swap_remove_moves_last_into_slot() {
    let mut v = filled(&[1, 2, 3, 4]);
    let removed = v.swap_remove(1);
    assert_eq!(removed, 2);
    assert_eq!(v.len(), 3);
    assert_eq!(v.get(Id(1)), Some(&4));
    assert_eq!(v.get(Id(0)), Some(&1));
    assert_eq!(v.get(Id(2)), Some(&3));
}

#[test]
fn remove_shifts_later_elements_left() {
    let mut v = filled(&[1, 2, 3, 4]);
    let removed = v.remove(1);
    assert_eq!(removed, 2);
    assert_eq!(v.len(), 3);
    assert_eq!(v.as_slice(), &[1, 3, 4]);
}

#[test]
fn clear_keeps_capacity() {
    let mut v = KeyedVec::<Id, u64>::with_capacity(8);
    v.push(1);
    v.push(2);
    v.push(3);
    let capacity_before = v.capacity();
    v.clear();
    assert_eq!(v.len(), 0);
    assert_eq!(v.capacity(), capacity_before);
}

#[test]
fn truncate_drops_tail_only() {
    let mut v = filled(&[1, 2, 3, 4, 5]);
    v.truncate(2);
    assert_eq!(v.len(), 2);
    assert_eq!(v.as_slice(), &[1, 2]);
    v.truncate(10);
    assert_eq!(v.as_slice(), &[1, 2]);
}

#[test]
fn with_capacity_reserves_room() {
    let v = KeyedVec::<Id, u64>::with_capacity(16);
    assert_eq!(v.len(), 0);
    assert!(v.capacity() >= 16);
}

#[test]
fn try_reserve_fails_only_when_forced() {
    let mut v = filled(&[1, 2, 3]);
    assert!(v.try_reserve(8).is_ok());
    assert!(v.try_reserve_exact(8).is_ok());
    assert_eq!(v.as_slice(), &[1, 2, 3]);
    assert!(v.try_reserve(usize::MAX).is_err());
    assert!(v.try_reserve_exact(usize::MAX).is_err());
    assert_eq!(v.as_slice(), &[1, 2, 3]);
}

#[test]
fn reserve_and_shrink_keep_contents() {
    let mut v = filled(&[7, 8]);
    v.reserve(32);
    assert!(v.capacity() >= 34);
    v.reserve_exact(5);
    assert_eq!(v.as_slice(), &[7, 8]);
    v.shrink_to(4);
    assert!(v.capacity() >= 4);
    v.shrink_to_fit();
    assert_eq!(v.as_slice(), &[7, 8]);
    assert!(v.capacity() >= v.len());
}

#[test]
fn end_to_end_scenario() {
    let mut v = KeyedVec::<Id, String>::new();
    let key_a = v.push("A".to_string());
    let key_b = v.push("B".to_string());
    let key_c = v.push("C".to_string());
    assert_eq!(v.len(), 3);
    assert_eq!(v.get(key_a).unwrap(), "A");
    assert_eq!(v.get(key_b).unwrap(), "B");
    assert_eq!(v.get(key_c).unwrap(), "C");
    let removed = v.swap_remove(key_a.to_index());
    assert_eq!(removed, "A");
    assert_eq!(v.len(), 2);
    assert_eq!(v.get(Id::from_index(0)).unwrap(), "C");
    assert_eq!(v.get(Id::from_index(1)).unwrap(), "B");
}

#[test]
fn enumerate_pairs_keys_with_elements() {
    let v = filled(&[5, 6, 7]);
    let pairs = v.enumerate();
    assert_eq!(pairs.len(), 3);
    for (i, (key, element)) in pairs.iter().enumerate() {
        assert_eq!(key.to_index(), i);
        assert_eq!(**element, v.as_slice()[i]);
    }
}

#[test]
fn append_moves_all_elements() {
    let mut left = filled(&[1, 2]);
    let mut right = filled(&[3, 4]);
    left.append(&mut right);
    assert_eq!(left.as_slice(), &[1, 2, 3, 4]);
    assert_eq!(right.len(), 0);
}

#[test]
fn insert_shifts_and_pop_takes_last() {
    let mut v = filled(&[1, 3]);
    v.insert(1, 2);
    assert_eq!(v.as_slice(), &[1, 2, 3]);
    assert_eq!(v.pop(), Some(3));
    assert_eq!(v.pop(), Some(2));
    assert_eq!(v.pop(), Some(1));
    assert_eq!(v.pop(), None);
}

#[test]
fn get_mut_changes_only_the_denoted_element() {
    let mut v = filled(&[1, 2, 3]);
    if let Some(e) = v.get_mut(Id(1)) {
        *e = 20;
    }
    assert_eq!(v.as_slice(), &[1, 20, 3]);
    assert!(v.get_mut(Id(3)).is_none());
}

#[test]
fn positional_index_reads_and_writes() {
    let mut v = filled(&[9, 8, 7]);
    assert_eq!(*v.index(2), 7);
    *v.index_mut(0) = 1;
    assert_eq!(v.as_slice(), &[1, 8, 7]);
}

#[test]
fn drain_removes_a_range_in_order() {
    let mut v = filled(&[1, 2, 3, 4, 5]);
    let removed = v.drain(1, 4);
    assert_eq!(removed, vec![2, 3, 4]);
    assert_eq!(v.as_slice(), &[1, 5]);
    let nothing = v.drain(1, 1);
    assert!(nothing.is_empty());
    assert_eq!(v.as_slice(), &[1, 5]);
}

#[test]
fn splice_replaces_a_range() {
    let mut v = filled(&[1, 2, 3, 4, 5]);
    let removed = v.splice(1, 3, vec![20, 30, 40]);
    assert_eq!(removed, vec![2, 3]);
    assert_eq!(v.as_slice(), &[1, 20, 30, 40, 4, 5]);
}

#[test]
fn resize_and_extend_from_slice() {
    let mut v = filled(&[1, 2]);
    v.resize(4, 9);
    assert_eq!(v.as_slice(), &[1, 2, 9, 9]);
    v.resize(1, 0);
    assert_eq!(v.as_slice(), &[1]);
    v.extend_from_slice(&[5, 6]);
    assert_eq!(v.as_slice(), &[1, 5, 6]);
}

#[test]
fn resize_with_fills_from_the_generator() {
    let mut v = filled(&[1, 2]);
    v.resize_with(5, || 7);
    assert_eq!(v.as_slice(), &[1, 2, 7, 7, 7]);
    v.resize_with(1, || 0);
    assert_eq!(v.as_slice(), &[1]);
}

#[test]
fn from_slice_copies_in_order() {
    let v = KeyedVec::<Id, u64>::from_slice(&[3, 1, 2]);
    assert_eq!(v.as_slice(), &[3, 1, 2]);
    assert_eq!(v.get(Id(0)), Some(&3));
}

#[test]
fn from_vec_and_into_vec_round_trip() {
    let v = KeyedVec::<Id, u64>::from(vec![4, 5, 6]);
    assert_eq!(v.len(), 3);
    assert_eq!(v.get(Id(1)), Some(&5));
    let out = v.into_vec();
    assert_eq!(out, vec![4, 5, 6]);
}

#[test]
fn retain_keeps_matching_in_order() {
    let mut v = filled(&[1, 2, 3, 4, 5, 6]);
    v.retain(|t: &u64| *t % 2 == 0);
    assert_eq!(v.as_slice(), &[2, 4, 6]);
    v.retain(|t: &u64| *t > 100);
    assert_eq!(v.len(), 0);
}

#[test]
fn dedup_drops_consecutive_repeats() {
    let mut v = filled(&[1, 1, 2, 2, 2, 3, 1, 1]);
    v.dedup();
    assert_eq!(v.as_slice(), &[1, 2, 3, 1]);
    let mut empty = KeyedVec::<Id, u64>::new();
    empty.dedup();
    assert_eq!(empty.len(), 0);
}

#[test]
fn extend_from_within_copies_a_range() {
    let mut v = filled(&[1, 2, 3, 4]);
    v.extend_from_within(1, 3);
    assert_eq!(v.as_slice(), &[1, 2, 3, 4, 2, 3]);
}

#[test]
fn as_mut_slice_writes_through() {
    let mut v = filled(&[1, 2, 3]);
    let s = v.as_mut_slice();
    s[1] = 20;
    assert_eq!(v.as_slice(), &[1, 20, 3]);
}

#[test]
fn equality_is_on_contents_only() {
    let a = filled(&[1, 2, 3]);
    let b = filled(&[1, 2, 3]);
    let c = filled(&[1, 2, 4]);
    assert!(a == b);
    assert!(a != c);
    assert!(filled(&[]) == KeyedVec::<Id, u64>::new());
}

#[test]
fn ordering_is_lexicographic_on_contents() {
    assert!(filled(&[1, 2]) < filled(&[1, 3]));
    assert!(filled(&[1, 2]) < filled(&[1, 2, 0]));
    assert!(filled(&[2]) > filled(&[1, 9, 9]));
    assert!(filled(&[1, 2]) <= filled(&[1, 2]));
    assert!(KeyedVec::<Id, u64>::new() < filled(&[0]));
}

#[test]
fn default_is_empty_and_clone_copies_contents() {
    let empty = KeyedVec::<Id, u64>::default();
    assert_eq!(empty.len(), 0);
    let v = filled(&[1, 2, 3]);
    let copy = v.clone();
    assert_eq!(copy.as_slice(), v.as_slice());
}
