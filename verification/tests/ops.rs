use dynvec::container::Vec;

#[test]
fn new_container_is_empty_with_no_slots() {
    let v: Vec<i32> = Vec::new();
    assert_eq!(v.len(), 0);
    assert_eq!(v.cap(), 0);
}

#[test]
fn pushed_values_read_back_in_push_order() {
    let mut v: Vec<usize> = Vec::new();
    let mut i: usize = 0;
    while i < 10 {
        v.push(i * 7);
        i += 1;
    }
    assert_eq!(v.len(), 10);
    let mut j: usize = 0;
    while j < 10 {
        assert_eq!(*v.get(j), j * 7);
        j += 1;
    }
}

#[test]
fn capacity_doubles_from_one_and_covers_length() {
    let mut v: Vec<u8> = Vec::new();
    assert_eq!(v.cap(), 0);
    v.push(1);
    assert_eq!(v.cap(), 1);
    v.push(2);
    assert_eq!(v.cap(), 2);
    v.push(3);
    assert_eq!(v.cap(), 4);
    v.push(4);
    assert_eq!(v.cap(), 4);
    v.push(5);
    assert_eq!(v.cap(), 8);
    let mut n: usize = 5;
    while n < 100 {
        v.push(9);
        n += 1;
        assert_eq!(v.len(), n);
        let c: usize = v.cap();
        assert!(c.is_power_of_two());
        assert!(c >= n);
    }
}

#[test]
fn push_then_pop_is_identity_on_prior_state() {
    let mut v: Vec<i32> = Vec::new();
    v.push(5);
    v.push(6);
    v.push(7);
    let p: Option<i32> = v.pop();
    assert_eq!(p, Some(7));
    assert_eq!(v.len(), 2);
    assert_eq!(*v.get(0), 5);
    assert_eq!(*v.get(1), 6);
}

#[test]
fn pop_on_empty_returns_none() {
    let mut v: Vec<i32> = Vec::new();
    let p: Option<i32> = v.pop();
    assert_eq!(p, None);
    assert_eq!(v.len(), 0);
}

#[test]
fn insert_then_remove_restores_prior_state() {
    let mut v: Vec<i32> = Vec::new();
    v.push(1);
    v.push(2);
    v.push(3);
    v.insert(1, 99);
    assert_eq!(v.len(), 4);
    assert_eq!(*v.get(1), 99);
    let r: i32 = v.remove(1);
    assert_eq!(r, 99);
    assert_eq!(v.len(), 3);
    assert_eq!(*v.get(0), 1);
    assert_eq!(*v.get(1), 2);
    assert_eq!(*v.get(2), 3);
}

#[test]
fn insert_at_length_appends() {
    let mut v: Vec<i32> = Vec::new();
    v.push(1);
    v.insert(1, 2);
    assert_eq!(v.len(), 2);
    assert_eq!(*v.get(0), 1);
    assert_eq!(*v.get(1), 2);
}

#[test]
fn insert_into_empty_at_zero() {
    let mut v: Vec<i32> = Vec::new();
    v.insert(0, 42);
    assert_eq!(v.len(), 1);
    assert_eq!(*v.get(0), 42);
}

#[test]
fn remove_first_shifts_rest_left() {
    let mut v: Vec<i32> = Vec::new();
    v.push(10);
    v.push(20);
    v.push(30);
    let r: i32 = v.remove(0);
    assert_eq!(r, 10);
    assert_eq!(v.len(), 2);
    assert_eq!(*v.get(0), 20);
    assert_eq!(*v.get(1), 30);
}

#[test]
fn set_replaces_element_in_place() {
    let mut v: Vec<i32> = Vec::new();
    v.push(1);
    v.push(2);
    v.set(0, 8);
    assert_eq!(*v.get(0), 8);
    assert_eq!(*v.get(1), 2);
    assert_eq!(v.len(), 2);
}

#[test]
fn zero_sized_elements_use_the_sentinel_capacity() {
    let mut v: Vec<()> = Vec::new();
    assert_eq!(v.cap(), usize::MAX);
    v.push(());
    v.push(());
    v.push(());
    assert_eq!(v.len(), 3);
    assert_eq!(v.cap(), usize::MAX);
    let p: Option<()> = v.pop();
    assert_eq!(p, Some(()));
    assert_eq!(v.len(), 2);
    v.insert(0, ());
    assert_eq!(v.len(), 3);
    assert_eq!(v.cap(), usize::MAX);
}

#[test]
fn scenario_push_insert_remove_pop() {
    let mut v: Vec<i32> = Vec::new();
    v.push(1);
    v.push(2);
    assert_eq!(v.len(), 2);
    assert_eq!(*v.get(0), 1);
    assert_eq!(*v.get(1), 2);
    v.insert(1, 9);
    assert_eq!(v.len(), 3);
    assert_eq!(*v.get(0), 1);
    assert_eq!(*v.get(1), 9);
    assert_eq!(*v.get(2), 2);
    let r: i32 = v.remove(0);
    assert_eq!(r, 1);
    assert_eq!(v.len(), 2);
    assert_eq!(*v.get(0), 9);
    assert_eq!(*v.get(1), 2);
    let p: Option<i32> = v.pop();
    assert_eq!(p, Some(2));
    assert_eq!(v.len(), 1);
    assert_eq!(*v.get(0), 9);
}
