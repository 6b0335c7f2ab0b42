//! Sample storage of the delay lines, held in an `allocator_api2` vector.
use vstd::prelude::*;

verus! {

/// A fixed-length line of samples in an `allocator_api2` vector. The rest of the library
/// sees it only through its contents, `sample_line_contents`, and the three operations
/// below: make a line of zeros, read a position, write a position.
#[verifier::external_body]
pub struct SampleLine {
    samples: allocator_api2::vec::Vec<i16>,
}

/// The samples that a line holds, in order.
pub uninterp spec fn sample_line_contents(line: SampleLine) -> Seq<i16>;

impl View for SampleLine {
    type V = Seq<i16>;

    open spec fn view(&self) -> Seq<i16> {
        sample_line_contents(*self)
    }
}

impl SampleLine {
    /// `allocator_api2::vec::from_elem(0, n)`, which `allocator_api2::vec![0i16; n]` expands
    /// to: a vector of `n` zeros. Lengths whose byte size would exceed `isize::MAX`, where
    /// the capacity computation panics, are left out; a failed allocation aborts the
    /// process rather than returning.
    #[verifier::external_body]
    pub(crate) fn zeroed(n: usize) -> (line: Self)
        requires
            n <= 0x3fff_ffff,
        ensures
            sample_line_contents(line) == Seq::new(n as nat, |i: int| 0i16),
    {
        SampleLine { samples: allocator_api2::vec::from_elem(0i16, n) }
    }

    /// Indexing `v[i]` of the vector: the element at position `i`.
    #[verifier::external_body]
    pub(crate) fn read(&self, i: usize) -> (x: i16)
        requires
            i < sample_line_contents(*self).len(),
        ensures
            x == sample_line_contents(*self)[i as int],
    {
        self.samples[i]
    }

    /// Assignment `v[i] = x` through the vector's `IndexMut`: position `i` now holds `x`,
    /// the others are unchanged.
    #[verifier::external_body]
    pub(crate) fn write(&mut self, i: usize, x: i16)
        requires
            i < sample_line_contents(*old(self)).len(),
        ensures
            sample_line_contents(*final(self)) == sample_line_contents(*old(self)).update(
                i as int,
                x,
            ),
    {
        self.samples[i] = x;
    }
}

} // verus!
