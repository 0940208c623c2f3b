use vstd::prelude::*;

verus! {

/// Action parser for discretised controls: five analogue controls with
/// `n_bins` bins each, then three buttons.
#[derive(Clone, Copy, Debug)]
pub struct DiscreteAction {
    n_bins: usize,
}

impl DiscreteAction {
    /// Number of bins of each analogue control.
    pub closed spec fn n_bins(self) -> usize {
        self.n_bins
    }

    pub fn new() -> (a: DiscreteAction)
        ensures
            a.n_bins() == 3,
    {
        DiscreteAction { n_bins: 3 }
    }

    /// Sizes of the eight discrete controls: `n_bins` for the five analogue
    /// ones, two for each of the three buttons.
    pub fn get_action_space(&self) -> (space: Vec<usize>)
        ensures
            space@ == seq![self.n_bins(), self.n_bins(), self.n_bins(), self.n_bins(),
                self.n_bins(), 2usize, 2usize, 2usize],
    {
        let mut space: Vec<usize> = Vec::new();
        let mut i: usize = 0;
        while i < 5
            invariant
                i <= 5,
                space@ == Seq::new(i as nat, |_j: int| self.n_bins()),
            decreases 5 - i,
        {
            space.push(self.n_bins);
            i = i + 1;
        }
        space.push(2);
        space.push(2);
        space.push(2);
        assert(space@ =~= seq![self.n_bins(), self.n_bins(), self.n_bins(), self.n_bins(),
            self.n_bins(), 2usize, 2usize, 2usize]);
        space
    }

    /// The integer by which a bin number is divided before `1` is subtracted
    /// from it, mapping bins `0..n_bins` onto `[-1, 1]`: `n_bins / 2`.
    pub fn bin_divisor(&self) -> (d: usize)
        ensures
            d == self.n_bins() / 2,
    {
        self.n_bins / 2
    }
}

} // verus!
