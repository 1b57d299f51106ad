use vstd::prelude::*;

verus! {

/// Density of directions drawn uniformly over the unit sphere.
///
/// The distribution has no parameters, so the type carries no data; its
/// density and sampling routine live with the floating-point geometry.
#[derive(Clone, Copy, Debug, PartialEq, Eq, Structural)]
pub struct SpherePdf {}

impl SpherePdf {
    /// The uniform-sphere density.
    pub fn new() -> (r: SpherePdf)
        ensures
            r == (SpherePdf {}),
    {
        SpherePdf {}
    }
}

} // verus!
