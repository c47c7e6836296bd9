use vstd::prelude::*;

verus! {

/// A two-dimensional extent.
#[derive(Debug, PartialEq, Eq)]
pub struct Size<T> {
    pub height: T,
    pub width: T,
}

pub type USize = Size<usize>;

/// Both sides scaled by `rhs`.
impl core::ops::Mul<usize> for Size<usize> {
    type Output = Self;

    fn mul(self, rhs: usize) -> (r: Self) {
        Size { height: self.height * rhs, width: self.width * rhs }
    }
}

impl vstd::std_specs::ops::MulSpecImpl<usize> for Size<usize> {
    open spec fn obeys_mul_spec() -> bool {
        true
    }

    open spec fn mul_req(self, rhs: usize) -> bool {
        self.height * rhs <= usize::MAX && self.width * rhs <= usize::MAX
    }

    open spec fn mul_spec(self, rhs: usize) -> Self {
        Size { height: (self.height * rhs) as usize, width: (self.width * rhs) as usize }
    }
}

impl Size<usize> {
    /// The number of cells in the extent.
    pub fn square(&self) -> (r: usize)
        requires
            self.height * self.width <= usize::MAX,
        ensures
            r == self.height * self.width,
    {
        self.height * self.width
    }
}

} // verus!
