//! Sculpt brushes and their settings.
use vstd::prelude::*;

verus! {

/// The sculpt brushes.
#[derive(Clone, Debug, PartialEq, Eq, Structural)]
pub enum BrushType {
    Draw,
    DrawSharp,
    Clay,
    ClayStrips,
    ClayThumb,
    Smooth,
    Flatten,
    Fill,
    Scrape,
    Pinch,
    Inflate,
    Blob,
    Grab,
    SnakeHook,
    Rotate,
    Twist,
    Nudge,
    Thumb,
    Smear,
    Simplify,
    MultiresDisplaceEraser,
    Paint,
    Mask,
    Blur,
    Average,
    Gravity,
    SmoothFill,
    SurfaceDraw,
}

/// The axes sculpting is mirrored across.
#[derive(Clone, Debug, PartialEq, Eq, Structural)]
pub enum Symmetry {
    NoSymmetry,
    X,
    Y,
    Z,
    XY,
    XZ,
    YZ,
    XYZ,
}

/// The plane a sculpt brush works relative to.
#[derive(Clone, Debug, PartialEq, Eq, Structural)]
pub enum SculptPlane {
    View,
    Surface,
    AreaPlane,
    Tangent,
    Stroke,
}

/// The tools for painting a sculpt mask.
#[derive(Clone, Debug, PartialEq, Eq, Structural)]
pub enum MaskTool {
    Draw,
    Smooth,
    Fill,
    Invert,
    Box,
    Lasso,
}

/// How dynamic topology chooses its detail size.
#[derive(Clone, Debug, PartialEq, Eq, Structural)]
pub enum DetailType {
    Relative,
    Constant,
    Manual,
    Brush,
}

} // verus!
