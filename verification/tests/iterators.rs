use dynvec::container::Vec;

#[test]
fn into_iter_yields_forward_in_index_order() {
    let mut v: Vec<i32> = Vec::new();
    v.push(1);
    v.push(2);
    v.push(3);
    let mut it = v.into_iter();
    assert_eq!(it.next(), Some(1));
    assert_eq!(it.next(), Some(2));
    assert_eq!(it.next(), Some(3));
    assert_eq!(it.next(), None);
    assert_eq!(it.next(), None);
}

#[test]
fn into_iter_yields_backward_in_reverse_order() {
    let mut v: Vec<i32> = Vec::new();
    v.push(1);
    v.push(2);
    v.push(3);
    let mut it = v.into_iter();
    assert_eq!(it.next_back(), Some(3));
    assert_eq!(it.next_back(), Some(2));
    assert_eq!(it.next_back(), Some(1));
    assert_eq!(it.next_back(), None);
}

#[test]
fn into_iter_interleaves_both_ends_each_slot_once() {
    let mut v: Vec<i32> = Vec::new();
    v.push(1);
    v.push(2);
    v.push(3);
    v.push(4);
    let mut it = v.into_iter();
    assert_eq!(it.next(), Some(1));
    assert_eq!(it.next_back(), Some(4));
    assert_eq!(it.next(), Some(2));
    assert_eq!(it.next_back(), Some(3));
    assert_eq!(it.next(), None);
    assert_eq!(it.next_back(), None);
}

#[test]
fn into_iter_size_hint_is_exact_and_shrinks() {
    let mut v: Vec<i32> = Vec::new();
    v.push(1);
    v.push(2);
    let mut it = v.into_iter();
    assert_eq!(it.size_hint(), (2, Some(2)));
    let _a: Option<i32> = it.next();
    assert_eq!(it.size_hint(), (1, Some(1)));
    let _b: Option<i32> = it.next_back();
    assert_eq!(it.size_hint(), (0, Some(0)));
}

#[test]
fn into_iter_on_empty_container() {
    let v: Vec<i32> = Vec::new();
    let mut it = v.into_iter();
    assert_eq!(it.size_hint(), (0, Some(0)));
    assert_eq!(it.next(), None);
    assert_eq!(it.next_back(), None);
}

#[test]
fn drain_yields_in_reverse_index_order() {
    let mut v: Vec<i32> = Vec::new();
    v.push(10);
    v.push(20);
    v.push(30);
    let mut d = v.drain();
    assert_eq!(d.size_hint(), (3, Some(3)));
    assert_eq!(d.next(), Some(30));
    assert_eq!(d.next(), Some(20));
    assert_eq!(d.next(), Some(10));
    assert_eq!(d.next(), None);
    drop(d);
    assert_eq!(v.len(), 0);
}

#[test]
fn drain_next_back_pops_the_same_tail() {
    let mut v: Vec<i32> = Vec::new();
    v.push(1);
    v.push(2);
    let mut d = v.drain();
    assert_eq!(d.next_back(), Some(2));
    assert_eq!(d.next(), Some(1));
    assert_eq!(d.next_back(), None);
}

#[test]
fn container_is_reusable_after_drain() {
    let mut v: Vec<i32> = Vec::new();
    v.push(1);
    v.push(2);
    v.push(3);
    let before: usize = v.cap();
    let mut d = v.drain();
    let _x: Option<i32> = d.next();
    drop(d);
    assert_eq!(v.len(), 0);
    assert_eq!(v.cap(), before);
    v.push(7);
    assert_eq!(v.len(), 1);
    assert_eq!(*v.get(0), 7);
}

#[test]
fn drain_on_empty_container() {
    let mut v: Vec<i32> = Vec::new();
    let mut d = v.drain();
    assert_eq!(d.size_hint(), (0, Some(0)));
    assert_eq!(d.next(), None);
    drop(d);
    assert_eq!(v.len(), 0);
}
