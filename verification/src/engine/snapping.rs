//! Snapping and proportional-editing settings.
use vstd::prelude::*;

verus! {

/// What transforms snap to.
#[derive(Clone, Debug)]
pub enum SnapType {
    NoSnap,
    Grid,
    Vertex,
    Edge,
    Face,
    Increment,
    Angle,
    Volume,
}

/// Which part of the selection snaps.
#[derive(Clone, Debug)]
pub enum SnapTarget {
    Absolute,
    Relative,
    Median,
    Individual,
}

/// The falloff curve of proportional editing.
#[derive(Clone, Debug)]
pub enum FalloffType {
    Smooth,
    Sphere,
    Root,
    Sharp,
    Linear,
    Constant,
    Random,
}

} // verus!
