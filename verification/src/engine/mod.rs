//! The editor's state and settings.
pub mod animation;
pub mod commands;
pub mod materials;
pub mod modifiers;
pub mod nodes;
pub mod overlay;
pub mod physics;
pub mod renderer;
pub mod sculpt;
pub mod snapping;
pub mod undo;

use vstd::prelude::*;

verus! {

/// The point transforms act around.
#[derive(Clone, Debug)]
pub enum PivotPoint {
    Median,
    Individual,
    Center,
    Cursor,
    Active,
    BoundingBox,
}

impl Default for PivotPoint {
    fn default() -> (d: Self)
        ensures
            d matches PivotPoint::Median,
    {
        PivotPoint::Median
    }
}

/// The axes transforms are expressed in.
#[derive(Clone, Debug)]
pub enum TransformOrientation {
    Global,
    Local,
    Normal,
    Gimbal,
    Parent,
    Cursor,
    Custom,
}

impl Default for TransformOrientation {
    fn default() -> (d: Self)
        ensures
            d matches TransformOrientation::Global,
    {
        TransformOrientation::Global
    }
}

/// What the editor selects: whole objects or mesh elements.
#[derive(Clone, Debug, PartialEq, Eq, Structural)]
pub enum SelectMode {
    Object,
    Vertex,
    Edge,
    Face,
}

impl Default for SelectMode {
    fn default() -> (d: Self)
        ensures
            d == SelectMode::Object,
    {
        SelectMode::Object
    }
}

} // verus!
