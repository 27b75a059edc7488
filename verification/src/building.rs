//! Building classification, read by the economy and the renderer.

use vstd::prelude::*;

verus! {

/// What a building is: a dwelling, or a company of some registered kind.
#[derive(Clone, Copy, Debug, PartialEq, Eq, Structural, PartialOrd, Ord, Hash)]
pub enum BuildingKind {
    House,
    Company(u32),
}

impl BuildingKind {
    /// Whether people live here.
    pub fn is_house(&self) -> (r: bool)
        ensures
            r == (*self is House),
    {
        match *self {
            BuildingKind::House => true,
            BuildingKind::Company(_) => false,
        }
    }
}

} // verus!
