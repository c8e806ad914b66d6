use dynvec::dyn_vec::DynVec;

fn contents(v: &DynVec<i32>) -> Vec<i32> {
    let mut out = Vec::new();
    let mut i: usize = 0;
    while i < v.len() {
        out.push(*v.get(i));
        i += 1;
    }
    out
}

#[test]
fn new_vec() {
    let mut v = DynVec::<i32>::new();

    for n in 1..=100 {
        v.push(n);
    }

    for n in (1..=100).rev() {
        assert_eq!(v.pop(), Some(n));
    }

    for n in 1..=100 {
        v.push(n);
    }

    for n in (1..=100).rev() {
        assert_eq!(v.pop(), Some(n));
    }

    assert_eq!(v.pop(), None);
    drop(v);
}

#[test]
fn test_deref() {
    let mut v = DynVec::new();
    v.push(1);
    v.push(2);
    v.push(3);

    assert_eq!(contents(&v), vec![1, 2, 3]);
}

#[test]
fn test_deref_mut() {
    let mut v = DynVec::new();
    v.push(1);
    v.push(2);
    v.push(3);

    v.set_at(0, 1);
    v.set_at(1, 2);
    v.set_at(2, 3);
    assert_eq!(contents(&v), vec![1, 2, 3]);
}

#[test]
fn test_insert() {
    let mut v = DynVec::new();
    v.push(1);
    v.push(2);

    v.insert(0, 10);
    assert_eq!(contents(&v), vec![10, 1, 2]);

    v.insert(1, 20);
    assert_eq!(contents(&v), vec![10, 20, 1, 2]);

    v.insert(4, 30);
    assert_eq!(contents(&v), vec![10, 20, 1, 2, 30]);
}

#[test]
fn test_insert_when_empty() {
    let mut v = DynVec::new();
    v.insert(0, 1);
    assert_eq!(contents(&v), vec![1]);
}

#[test]
fn test_remove() {
    let mut v = DynVec::new();
    v.push(1);
    v.push(2);
    v.push(3);
    v.push(4);

    // remove middle
    assert_eq!(v.remove(1), 2);
    assert_eq!(contents(&v), vec![1, 3, 4]);

    // remove last
    assert_eq!(v.remove(2), 4);
    assert_eq!(contents(&v), vec![1, 3]);

    // remove first
    assert_eq!(v.remove(0), 1);
    assert_eq!(contents(&v), vec![3]);

    // remove single
    assert_eq!(v.remove(0), 3);
    assert_eq!(contents(&v), vec![]);
}

#[test]
fn insert_then_remove_is_identity() {
    let mut v = DynVec::new();
    v.push(1);
    v.push(2);
    v.push(3);

    v.insert(1, 99);
    assert_eq!(contents(&v), vec![1, 99, 2, 3]);
    assert_eq!(v.remove(1), 99);
    assert_eq!(contents(&v), vec![1, 2, 3]);
    assert_eq!(v.len(), 3);
}

#[test]
fn view_length_tracks_operations() {
    let mut v = DynVec::new();
    assert_eq!(v.len(), 0);
    v.push(5);
    v.push(6);
    v.insert(1, 7);
    assert_eq!(v.len(), 3);
    assert_eq!(contents(&v).len(), v.len());
    v.remove(0);
    assert_eq!(v.len(), 2);
    assert_eq!(contents(&v), vec![7, 6]);
    v.pop();
    assert_eq!(v.len(), 1);
    assert_eq!(contents(&v), vec![7]);
}

#[test]
fn growth_doubles_capacity() {
    let mut v = DynVec::<i32>::new();
    assert_eq!(v.capacity(), 0);

    let mut seen = vec![v.capacity()];
    for n in 0..17 {
        v.push(n);
        if Some(&v.capacity()) != seen.last() {
            seen.push(v.capacity());
        }
    }
    assert_eq!(seen, vec![0, 1, 2, 4, 8, 16, 32]);
}

#[test]
fn growth_doubles_on_insert_too() {
    let mut v = DynVec::<i32>::new();
    v.insert(0, 1);
    assert_eq!(v.capacity(), 1);
    v.insert(0, 2);
    assert_eq!(v.capacity(), 2);
    v.insert(1, 3);
    assert_eq!(v.capacity(), 4);
}

#[test]
fn set_at_overwrites_in_place() {
    let mut v = DynVec::new();
    v.push(1);
    v.push(2);
    v.push(3);
    v.set_at(1, 42);
    assert_eq!(contents(&v), vec![1, 42, 3]);
    assert_eq!(v.len(), 3);
    assert_eq!(v.capacity(), 4);
}
