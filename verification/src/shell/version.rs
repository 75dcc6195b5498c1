use vstd::prelude::*;

verus! {

/// A counter that tells apart successive generations of a resource.
#[derive(Debug, Eq, PartialEq, Copy, Clone, Structural)]
pub struct Version(usize);

impl View for Version {
    type V = usize;

    closed spec fn view(&self) -> usize {
        self.0
    }
}

/// The generation after `v`: one more, wrapping to zero after `usize::MAX`.
pub open spec fn successor(v: usize) -> usize {
    if v == usize::MAX {
        0
    } else {
        (v + 1) as usize
    }
}

impl Version {
    /// The first generation.
    pub fn new() -> (r: Self)
        ensures
            r@ == 0,
    {
        Self(0)
    }

    /// The next generation.
    pub fn next(self) -> (r: Self)
        ensures
            r@ == successor(self@),
    {
        Self(self.0.wrapping_add(1))
    }

    /// The generation number.
    pub fn get(&self) -> (r: usize)
        ensures
            r == self@,
    {
        self.0
    }
}

/// Law: the next generation always differs from the current one.
pub proof fn next_generation_differs(v: usize)
    ensures
        successor(v) != v,
{
}

} // verus!
