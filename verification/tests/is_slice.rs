use resize_slice2::{CouldBeSliceOf, SliceView};

const SOURCE: [i32; 10] = [1, 2, 3, 4, 5, 6, 7, 8, 9, 10];

#[test]
fn simple() {
    let a = SliceView::new(&SOURCE, 0);
    let b = a.subview(1, 3);

    assert!(b.is_slice_of(&a));
    assert!(!a.is_slice_of(&b));
}

#[test]
fn simple_not() {
    let whole = SliceView::new(&SOURCE, 0);
    let a = whole.subview(0, 5);
    let b = whole.subview(5, 10);

    assert!(!b.is_slice_of(&a));
    assert!(!a.is_slice_of(&b));
}

#[test]
fn simple_not2() {
    let whole = SliceView::new(&SOURCE, 0);
    let a = whole.subview(0, 0);
    let b = whole.subview(0, 1);

    assert!(a.is_slice_of(&b));
    assert!(!b.is_slice_of(&a));
}

#[test]
fn same_to() {
    let a = SliceView::new(&SOURCE, 0);
    let b = a.subview(0, 5);

    assert!(b.is_slice_of(&a));
    assert!(!a.is_slice_of(&b));
}

#[test]
fn same_from() {
    let a = SliceView::new(&SOURCE, 0);
    let b = a.subview(5, 10);

    assert!(b.is_slice_of(&a));
    assert!(!a.is_slice_of(&b));
}

#[test]
fn same() {
    let a = SliceView::new(SOURCE.as_ref(), 0);
    let b = SliceView::new(SOURCE.as_ref(), 0);

    assert!(b.is_slice_of(&a));
    assert!(a.is_slice_of(&b));
}

#[test]
fn same_empty() {
    let whole = SliceView::new(&SOURCE, 0);
    let a = whole.subview(0, 0);
    let b = whole.subview(0, 0);

    assert!(b.is_slice_of(&a));
    assert!(a.is_slice_of(&b));
}

#[test]
fn empty_touching_boundaries() {
    let a = SliceView::new(&SOURCE, 0);
    let at_start = a.subview(0, 0);
    let at_end = a.subview(10, 10);

    assert!(at_start.is_slice_of(&a));
    assert!(at_end.is_slice_of(&a));
}

#[test]
fn empty_outside_range() {
    let first = [1, 2, 3];
    let a = SliceView::new(&first, 0);
    let second = [4, 5, 6];
    let b = SliceView::new(&second, 100);
    let empty = b.subview(0, 0);

    assert!(!empty.is_slice_of(&a));
}

#[test]
fn empty_distinct_addresses() {
    let a = SliceView::new(&SOURCE, 0);
    let at_two = a.subview(2, 2);
    let at_seven = a.subview(7, 7);

    assert!(at_two.is_slice_of(&a));
    assert!(at_seven.is_slice_of(&a));
    assert!(!at_two.is_slice_of(&at_seven));
    assert!(!at_seven.is_slice_of(&at_two));
}

#[test]
fn disjoint_views_neither_direction() {
    let first = [1, 2, 3, 4, 5];
    let second = [6, 7, 8, 9, 10];
    let a = SliceView::new(&first, 0);
    let b = SliceView::new(&second, 5);

    assert!(!a.is_slice_of(&b));
    assert!(!b.is_slice_of(&a));
}

#[test]
fn view_accessors() {
    let a = SliceView::new(&SOURCE, 3);
    assert_eq!(a.start_addr(), 3);
    assert_eq!(a.len(), 10);
    assert_eq!(a.as_slice(), &SOURCE);

    let b = a.subview(2, 6);
    assert_eq!(b.start_addr(), 5);
    assert_eq!(b.len(), 4);
    assert_eq!(b.as_slice(), &[3, 4, 5, 6]);
}
