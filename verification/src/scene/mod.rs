//! Scene contents.
use vstd::prelude::*;

verus! {

/// The kind of a scene light.
#[derive(Clone, Debug)]
pub enum LightType {
    Point,
    Directional,
    Spot,
}

} // verus!
