use resize_slice2::{Adjust, Error, ResizeSlice, SliceView};

#[test]
fn test_extend_slice() {
    let source = [1, 2, 3, 4, 5];
    let sview = SliceView::new(&source, 0);
    let slice = sview.subview(1, 3);
    assert_eq!(slice.as_slice(), &[2, 3]);
    let extended = slice.resize(&sview, Adjust::Bounded(0, 2));
    assert_eq!(extended.as_slice(), &[2, 3, 4, 5]);
}

#[test]
fn test_resize_slice() {
    let source = [1, 2, 3, 4, 5];
    let sview = SliceView::new(&source, 0);
    let slice = sview.subview(1, 3);
    let extended = slice.resize(&sview, Adjust::Bounded(-1, 2));
    assert_eq!(extended.as_slice(), &[1, 2, 3, 4, 5]);
}

#[test]
fn test_resize_slice_unbounded() {
    let source = [1, 2, 3, 4, 5];
    let sview = SliceView::new(&source, 0);
    let slice = sview.subview(1, 3);
    let extended = slice.resize(&sview, Adjust::EndOnly(2));
    assert_eq!(extended.as_slice(), &[1, 2, 3, 4, 5]);
}

#[test]
fn test_resize_slice_unbounded2() {
    let source = [1, 2, 3, 4, 5];
    let sview = SliceView::new(&source, 0);
    let slice = sview.subview(1, 3);
    let extended = slice.resize(&sview, Adjust::Full);
    assert_eq!(extended.as_slice(), &[1, 2, 3, 4, 5]);
}

#[test]
fn test_not_source_slice_lower() {
    let source = [1, 2, 3, 4, 5];
    let source2 = [6, 7, 8, 9, 10];
    let sview = SliceView::new(&source, 0);
    let sview2 = SliceView::new(&source2, 100);
    let slice = sview.subview(1, 3);
    let extended = slice.try_resize(&sview2, Adjust::Full);
    assert_eq!(extended, Err(Error::NotInSource));
}

#[test]
fn test_not_source_slice_upper() {
    let source = [1, 2, 3, 4, 5];
    let source2 = [6, 7, 8, 9, 10];
    let sview = SliceView::new(&source, 0);
    let sview2 = SliceView::new(&source2, 100);
    let slice = sview2.subview(1, 3);
    let extended = slice.try_resize(&sview, Adjust::Full);
    assert_eq!(extended, Err(Error::NotInSource));
}

fn explicit_lifetime<'a, 'source, 'result, T>(
    slice: &SliceView<'a, T>,
    source: &SliceView<'source, T>,
) -> SliceView<'result, T>
where
    'source: 'a + 'result,
    'result: 'a,
{
    slice.resize(source, Adjust::Full)
}

#[test]
fn extend_lifetime_compiles() {
    let source = [1, 2, 3, 4, 5];
    let sview = SliceView::new(&source, 0);

    assert_eq!(
        explicit_lifetime(&sview.subview(1, 3), &sview).as_slice(),
        &[1, 2, 3, 4, 5]
    );
}
