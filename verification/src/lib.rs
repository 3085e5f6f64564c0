//! Enlarge and shrink views over a contiguous backing sequence, in safe,
//! verified code.
//!
//! A view is a window into a backing sequence, described by an address and an
//! element count. Resizing expresses the new window as a sub-range of the
//! backing sequence, so a narrow view can legally be grown back toward, or
//! beyond, the bounds it was first cut with, as long as it stays inside the
//! backing sequence.

use vstd::prelude::*;

mod is_slice;

pub use is_slice::CouldBeSliceOf;
pub use is_slice::SliceView;
pub use is_slice::enclosed;
pub use is_slice::lemma_subrange_is_slice_of;
pub use is_slice::lemma_disjoint_not_slice_of;
pub use is_slice::lemma_slice_of_reflexive;
pub use is_slice::lemma_same_range_mutual;
pub use is_slice::lemma_empty_slice_of;
pub use is_slice::lemma_empty_distinct_not_mutual;

verus! {

/// An error that can occur when resizing a view.
#[derive(Debug, PartialEq, Eq, Structural)]
pub enum Error {
    /// The desired new view would be out of bounds of the source view.
    OutOfBounds,
    /// The start of the desired new view would be after its end.
    /// This can only happen with a `Bounded` adjustment, as the other shapes
    /// pin one boundary to the source itself.
    NegativeSlice,
    /// The view is not part of the source view.
    NotInSource,
}

impl Error {
    /// A fixed, human-readable description of the error.
    pub fn message(&self) -> (m: &'static str)
        ensures
            m@ == match *self {
                Error::OutOfBounds => "the slice would be out of bounds of the source slice"@,
                Error::NegativeSlice => "the start of the new slice would be after its end"@,
                Error::NotInSource => "the slice is not part of the source slice"@,
            },
    {
        match *self {
            Error::OutOfBounds => "the slice would be out of bounds of the source slice",
            Error::NegativeSlice => "the start of the new slice would be after its end",
            Error::NotInSource => "the slice is not part of the source slice",
        }
    }
}

/// How to move a view's boundaries. Offsets are signed, measured in element
/// units, and relative to the view's *current* boundaries, not to the source:
/// `Bounded(1, -1)` shrinks the window by one element from each side wherever
/// it sits inside the source.
#[derive(Clone, Copy, Debug)]
pub enum Adjust {
    /// No arithmetic: the result is the source in its entirety.
    Full,
    /// Move the start by the offset; the end extends to the source's end.
    StartOnly(isize),
    /// Move the end by the offset; the start stays at the source's start.
    EndOnly(isize),
    /// Move the start and the end by independent offsets.
    Bounded(isize, isize),
}

/// The adjusted start position, as an element offset into the source.
/// `vs` and `ve` are the view's current boundaries as offsets into the
/// source, and `slen` is the source's element count.
pub open spec fn adjusted_start(by: Adjust, vs: int, ve: int, slen: int) -> int {
    match by {
        Adjust::Full => 0,
        Adjust::StartOnly(d) => vs + d,
        Adjust::EndOnly(_) => 0,
        Adjust::Bounded(s, _) => vs + s,
    }
}

/// The adjusted end position, as an element offset into the source.
pub open spec fn adjusted_end(by: Adjust, vs: int, ve: int, slen: int) -> int {
    match by {
        Adjust::Full => slen,
        Adjust::StartOnly(_) => slen,
        Adjust::EndOnly(d) => ve + d,
        Adjust::Bounded(_, e) => ve + e,
    }
}

/// What a validated resize returns: either the new boundaries, as element
/// offsets into the source, or the first error in validation order. The view
/// and the source are given by their address ranges. Validation order:
/// enclosure of the view in the source first, then (for `Bounded` only) that
/// the new end does not fall before the new start, then that both boundaries
/// lie within the source.
pub open spec fn resize_outcome(
    view_start: int,
    view_end: int,
    src_start: int,
    src_end: int,
    by: Adjust,
) -> Result<(int, int), Error> {
    if !enclosed(view_start, view_end, src_start, src_end) {
        Err(Error::NotInSource)
    } else {
        let slen = src_end - src_start;
        let ns = adjusted_start(by, view_start - src_start, view_end - src_start, slen);
        let ne = adjusted_end(by, view_start - src_start, view_end - src_start, slen);
        if by is Bounded && ne < ns {
            Err(Error::NegativeSlice)
        } else if !(0 <= ns && ns <= slen && 0 <= ne && ne <= slen) {
            Err(Error::OutOfBounds)
        } else {
            Ok((ns, ne))
        }
    }
}

/// Allows a view to be resized against a source view that encloses it.
pub trait ResizeSlice<T>: CouldBeSliceOf<T> {
    /// Resizes the view using the adjustment `by`, trusting the caller: the
    /// caller proves that the adjusted boundaries are valid, and no check is
    /// made that `self` is enclosed in `source`.
    fn resize<'s>(&self, source: &SliceView<'s, T>, by: Adjust) -> (r: SliceView<'s, T>)
        requires
            ({
                let vs = self.range_start() - source.first_addr();
                let ve = self.range_end() - source.first_addr();
                let slen = source.contents().len() as int;
                let ns = adjusted_start(by, vs, ve, slen);
                let ne = adjusted_end(by, vs, ve, slen);
                0 <= ns && ns <= ne && ne <= slen
            }),
        ensures
            ({
                let vs = self.range_start() - source.first_addr();
                let ve = self.range_end() - source.first_addr();
                let slen = source.contents().len() as int;
                let ns = adjusted_start(by, vs, ve, slen);
                let ne = adjusted_end(by, vs, ve, slen);
                r.first_addr() == source.first_addr() + ns
                    && r.contents() == source.contents().subrange(ns, ne)
            }),
    ;

    /// Resizes the view using the adjustment `by`, validating the result:
    /// the view must be enclosed in the source, the new end must not fall
    /// before the new start, and both new boundaries must lie within the
    /// source. The first failing check decides the error.
    fn try_resize<'s>(&self, source: &SliceView<'s, T>, by: Adjust) -> (r: Result<
        SliceView<'s, T>,
        Error,
    >)
        ensures
            match resize_outcome(
                self.range_start(),
                self.range_end(),
                source.first_addr(),
                source.past_addr(),
                by,
            ) {
                Ok(b) => r matches Ok(v) && v.first_addr() == source.first_addr() + b.0
                    && v.contents() == source.contents().subrange(b.0, b.1),
                Err(e) => r matches Err(a) && a == e,
            },
    ;
}

impl<'a, T> ResizeSlice<T> for SliceView<'a, T> {
    fn resize<'s>(&self, source: &SliceView<'s, T>, by: Adjust) -> (r: SliceView<'s, T>) {
        proof {
            use_type_invariant(&*self);
            use_type_invariant(&*source);
        }
        let s_len: usize = source.len();
        let vs_i: i128 = self.start_addr() as i128 - source.start_addr() as i128;
        let ve_i: i128 = vs_i + self.len() as i128;
        let ns_i: i128 = match by {
            Adjust::Full => 0,
            Adjust::StartOnly(d) => vs_i + d as i128,
            Adjust::EndOnly(_) => 0,
            Adjust::Bounded(s, _) => vs_i + s as i128,
        };
        let ne_i: i128 = match by {
            Adjust::Full => s_len as i128,
            Adjust::StartOnly(_) => s_len as i128,
            Adjust::EndOnly(d) => ve_i + d as i128,
            Adjust::Bounded(_, e) => ve_i + e as i128,
        };
        source.subview(ns_i as usize, ne_i as usize)
    }

    fn try_resize<'s>(&self, source: &SliceView<'s, T>, by: Adjust) -> (r: Result<
        SliceView<'s, T>,
        Error,
    >) {
        proof {
            use_type_invariant(&*self);
            use_type_invariant(&*source);
        }
        if !self.is_slice_of(source) {
            return Err(Error::NotInSource);
        }
        let s_len: usize = source.len();
        let vs: usize = self.start_addr() - source.start_addr();
        let ve: usize = vs + self.len();
        let ns_i: i128 = match by {
            Adjust::Full => 0,
            Adjust::StartOnly(d) => vs as i128 + d as i128,
            Adjust::EndOnly(_) => 0,
            Adjust::Bounded(s, _) => vs as i128 + s as i128,
        };
        let ne_i: i128 = match by {
            Adjust::Full => s_len as i128,
            Adjust::StartOnly(_) => s_len as i128,
            Adjust::EndOnly(d) => ve as i128 + d as i128,
            Adjust::Bounded(_, e) => ve as i128 + e as i128,
        };
        if matches!(by, Adjust::Bounded(..)) && ne_i < ns_i {
            return Err(Error::NegativeSlice);
        }
        if ns_i < 0 || ns_i > s_len as i128 || ne_i < 0 || ne_i > s_len as i128 {
            return Err(Error::OutOfBounds);
        }
        Ok(source.subview(ns_i as usize, ne_i as usize))
    }
}

/// A `Full` resize returns the source's whole range when the view is
/// enclosed in the source, and fails with `NotInSource` otherwise — also
/// when the two views have equal length but different addresses.
pub proof fn lemma_resize_full<'a, 'b, T>(view: SliceView<'a, T>, source: SliceView<'b, T>)
    ensures
        enclosed(view.first_addr(), view.past_addr(), source.first_addr(), source.past_addr())
            ==> resize_outcome(
            view.first_addr(),
            view.past_addr(),
            source.first_addr(),
            source.past_addr(),
            Adjust::Full,
        ) == Result::<(int, int), Error>::Ok((0int, source.contents().len() as int)),
        !enclosed(view.first_addr(), view.past_addr(), source.first_addr(), source.past_addr())
            ==> resize_outcome(
            view.first_addr(),
            view.past_addr(),
            source.first_addr(),
            source.past_addr(),
            Adjust::Full,
        ) == Result::<(int, int), Error>::Err(Error::NotInSource),
{
}

/// When a `Bounded(s, e)` resize succeeds, the new boundaries equal the
/// view's own boundaries moved by `s` and `e`, so the result's length equals
/// the view's length plus `-s` plus `e`.
pub proof fn lemma_resize_bounded<'a, 'b, T>(
    view: SliceView<'a, T>,
    source: SliceView<'b, T>,
    s: isize,
    e: isize,
)
    ensures
        ({
            let vs = view.first_addr() - source.first_addr();
            let ve = view.past_addr() - source.first_addr();
            resize_outcome(
                view.first_addr(),
                view.past_addr(),
                source.first_addr(),
                source.past_addr(),
                Adjust::Bounded(s, e),
            ) matches Ok(b) ==> b.0 == vs + s && b.1 == ve + e && b.1 - b.0
                == view.contents().len() + (-s) + e
        }),
{
}

/// A zero-zero bounded adjustment of a view enclosed in the source always
/// succeeds and is a no-op: the new boundaries are the view's own, merely
/// re-expressed as offsets into the source.
pub proof fn lemma_resize_noop<'a, 'b, T>(view: SliceView<'a, T>, source: SliceView<'b, T>)
    requires
        enclosed(view.first_addr(), view.past_addr(), source.first_addr(), source.past_addr()),
    ensures
        resize_outcome(
            view.first_addr(),
            view.past_addr(),
            source.first_addr(),
            source.past_addr(),
            Adjust::Bounded(0, 0),
        ) == Result::<(int, int), Error>::Ok(
            (
                view.first_addr() - source.first_addr(),
                view.past_addr() - source.first_addr(),
            ),
        ),
{
}

/// For a view enclosed in the source, a `Bounded` resize fails with
/// `NegativeSlice` exactly when the new end falls before the new start —
/// even when a boundary also leaves the source, as the sign check comes
/// strictly before the bounds check.
pub proof fn lemma_negative_slice_exactly<'a, 'b, T>(
    view: SliceView<'a, T>,
    source: SliceView<'b, T>,
    s: isize,
    e: isize,
)
    requires
        enclosed(view.first_addr(), view.past_addr(), source.first_addr(), source.past_addr()),
    ensures
        ({
            let ns = view.first_addr() - source.first_addr() + s;
            let ne = view.past_addr() - source.first_addr() + e;
            resize_outcome(
                view.first_addr(),
                view.past_addr(),
                source.first_addr(),
                source.past_addr(),
                Adjust::Bounded(s, e),
            ) == Result::<(int, int), Error>::Err(Error::NegativeSlice) <==> ne < ns
        }),
{
}

/// For a view enclosed in the source, once the sign check has passed, the
/// resize fails with `OutOfBounds` exactly when a new boundary would move
/// below the source's start or above its end.
pub proof fn lemma_out_of_bounds_exactly<'a, 'b, T>(
    view: SliceView<'a, T>,
    source: SliceView<'b, T>,
    by: Adjust,
)
    requires
        enclosed(view.first_addr(), view.past_addr(), source.first_addr(), source.past_addr()),
        !(by is Bounded && adjusted_end(
            by,
            view.first_addr() - source.first_addr(),
            view.past_addr() - source.first_addr(),
            source.contents().len() as int,
        ) < adjusted_start(
            by,
            view.first_addr() - source.first_addr(),
            view.past_addr() - source.first_addr(),
            source.contents().len() as int,
        )),
    ensures
        ({
            let slen = source.contents().len() as int;
            let vs = view.first_addr() - source.first_addr();
            let ve = view.past_addr() - source.first_addr();
            let ns = adjusted_start(by, vs, ve, slen);
            let ne = adjusted_end(by, vs, ve, slen);
            resize_outcome(
                view.first_addr(),
                view.past_addr(),
                source.first_addr(),
                source.past_addr(),
                by,
            ) == Result::<(int, int), Error>::Err(Error::OutOfBounds) <==> !(0 <= ns && ns <= slen
                && 0 <= ne && ne <= slen)
        }),
{
}

} // verus!
