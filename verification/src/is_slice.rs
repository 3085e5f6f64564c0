use vstd::prelude::*;
use vstd::slice::slice_subrange;

verus! {

/// A non-owning, read-only view of a contiguous run of elements, described by
/// the address of its first element (counted in element units) and the
/// elements themselves. Any view may serve as the backing sequence of another
/// view, provided the other view's address range is enclosed in it.
#[derive(Debug, PartialEq)]
pub struct SliceView<'a, T> {
    elements: &'a [T],
    start: usize,
}

/// `[c_start, c_end)` lies entirely within `[r_start, r_end)`.
pub open spec fn enclosed(c_start: int, c_end: int, r_start: int, r_end: int) -> bool {
    r_start <= c_start && c_end <= r_end
}

impl<'a, T> SliceView<'a, T> {
    /// The whole view fits in the address space: one past its last element is
    /// still a representable address.
    #[verifier::type_invariant]
    pub(crate) closed spec fn wf(self) -> bool {
        self.start + self.elements@.len() <= usize::MAX
    }

    /// Address of the first element.
    pub closed spec fn first_addr(&self) -> int {
        self.start as int
    }

    /// The elements the view ranges over.
    pub closed spec fn contents(&self) -> Seq<T> {
        self.elements@
    }

    /// Address one past the last element.
    pub open spec fn past_addr(&self) -> int {
        self.first_addr() + self.contents().len()
    }

    /// A view over `elements`, placed at address `start`.
    pub fn new(elements: &'a [T], start: usize) -> (v: Self)
        requires
            start + elements@.len() <= usize::MAX,
        ensures
            v.first_addr() == start,
            v.contents() == elements@,
    {
        SliceView { elements, start }
    }

    /// The view over `self`'s elements from position `from` (inclusive) to
    /// position `to` (exclusive), at the address those elements occupy.
    pub fn subview(&self, from: usize, to: usize) -> (v: SliceView<'a, T>)
        requires
            from <= to <= self.contents().len(),
        ensures
            v.first_addr() == self.first_addr() + from,
            v.contents() == self.contents().subrange(from as int, to as int),
    {
        proof {
            use_type_invariant(&*self);
        }
        SliceView { elements: slice_subrange(self.elements, from, to), start: self.start + from }
    }

    /// Address of the first element.
    pub fn start_addr(&self) -> (a: usize)
        ensures
            a == self.first_addr(),
    {
        self.start
    }

    /// Number of elements in the view.
    pub fn len(&self) -> (n: usize)
        ensures
            n == self.contents().len(),
    {
        self.elements.len()
    }

    /// The elements the view ranges over.
    pub fn as_slice(&self) -> (s: &'a [T])
        ensures
            s@ == self.contents(),
    {
        self.elements
    }
}

/// Used to check if a view could be a slice of another view.
///
/// The test is purely geometric: it compares address ranges and never fails,
/// so two views that merely happen to occupy adjacent or overlapping
/// addresses pass it as well as a view genuinely cut from the other.
pub trait CouldBeSliceOf<T> {
    /// Address of the first element of `self`'s range.
    spec fn range_start(&self) -> int;

    /// Address one past the last element of `self`'s range.
    spec fn range_end(&self) -> int;

    /// Returns `true` if `self` could be a slice of `source`: `self`'s
    /// address range is enclosed in `source`'s.
    fn is_slice_of<'s>(&self, source: &SliceView<'s, T>) -> (r: bool)
        ensures
            r == enclosed(self.range_start(), self.range_end(), source.first_addr(), source.past_addr()),
    ;
}

impl<'a, T> CouldBeSliceOf<T> for SliceView<'a, T> {
    open spec fn range_start(&self) -> int {
        self.first_addr()
    }

    open spec fn range_end(&self) -> int {
        self.past_addr()
    }

    fn is_slice_of<'s>(&self, source: &SliceView<'s, T>) -> (r: bool) {
        proof {
            use_type_invariant(&*self);
            use_type_invariant(&*source);
        }
        source.start <= self.start
            && self.start + self.elements.len() <= source.start + source.elements.len()
    }
}

/// A view cut from another view is a slice of it: if `a`'s boundaries sit at
/// offsets `i` and `j` within `b`, then `a`'s address range is enclosed in
/// `b`'s.
pub proof fn lemma_subrange_is_slice_of<'a, 'b, T>(
    a: SliceView<'a, T>,
    b: SliceView<'b, T>,
    i: int,
    j: int,
)
    requires
        0 <= i <= j <= b.contents().len(),
        a.first_addr() == b.first_addr() + i,
        a.past_addr() == b.first_addr() + j,
    ensures
        enclosed(a.first_addr(), a.past_addr(), b.first_addr(), b.past_addr()),
{
}

/// Two non-empty views over disjoint address ranges are slices of one another
/// in neither direction.
pub proof fn lemma_disjoint_not_slice_of<'a, 'b, T>(a: SliceView<'a, T>, b: SliceView<'b, T>)
    requires
        a.contents().len() > 0,
        b.contents().len() > 0,
        a.past_addr() <= b.first_addr() || b.past_addr() <= a.first_addr(),
    ensures
        !enclosed(a.first_addr(), a.past_addr(), b.first_addr(), b.past_addr()),
        !enclosed(b.first_addr(), b.past_addr(), a.first_addr(), a.past_addr()),
{
}

/// Every view is a slice of itself.
pub proof fn lemma_slice_of_reflexive<'a, T>(a: SliceView<'a, T>)
    ensures
        enclosed(a.first_addr(), a.past_addr(), a.first_addr(), a.past_addr()),
{
}

/// Two views over the exact same address range are slices of each other.
pub proof fn lemma_same_range_mutual<'a, 'b, T>(a: SliceView<'a, T>, b: SliceView<'b, T>)
    requires
        a.first_addr() == b.first_addr(),
        a.past_addr() == b.past_addr(),
    ensures
        enclosed(a.first_addr(), a.past_addr(), b.first_addr(), b.past_addr()),
        enclosed(b.first_addr(), b.past_addr(), a.first_addr(), a.past_addr()),
{
}

/// A zero-length view is a slice of another view exactly when its single
/// address point lies within the other's range, a touch at either boundary
/// included.
pub proof fn lemma_empty_slice_of<'a, 'b, T>(a: SliceView<'a, T>, b: SliceView<'b, T>)
    requires
        a.contents().len() == 0,
    ensures
        enclosed(a.first_addr(), a.past_addr(), b.first_addr(), b.past_addr()) <==> (
        b.first_addr() <= a.first_addr() && a.first_addr() <= b.past_addr()),
{
}

/// Two zero-length views at different addresses are slices of one another in
/// neither direction: an empty range holds no address point at all.
pub proof fn lemma_empty_distinct_not_mutual<'a, 'b, T>(a: SliceView<'a, T>, b: SliceView<'b, T>)
    requires
        a.contents().len() == 0,
        b.contents().len() == 0,
        a.first_addr() != b.first_addr(),
    ensures
        !enclosed(a.first_addr(), a.past_addr(), b.first_addr(), b.past_addr()),
        !enclosed(b.first_addr(), b.past_addr(), a.first_addr(), a.past_addr()),
{
}

} // verus!
