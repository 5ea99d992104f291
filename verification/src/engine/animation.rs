//! Keyframe animation settings: interpolation and extrapolation modes,
//! drivers, channel groups and the dope sheet's filter.
use vstd::prelude::*;

verus! {

/// How playback keeps pace with time: not at all, with audio, or by dropping frames.
#[derive(Clone, Debug, PartialEq, Eq, Structural)]
pub enum SyncMode {
    NoSync,
    AVSync,
    FrameDrop,
}

/// How an F-curve runs from one keyframe to the next.
#[derive(Clone, Debug, PartialEq, Eq, Structural)]
pub enum Interpolation {
    Constant,
    Linear,
    Bezier,
    Sinusoidal,
    Quadratic,
    Cubic,
    Quartic,
    Quintic,
    Exponential,
    Circular,
    Back,
    Bounce,
    Elastic,
    Auto,
}

impl Default for Interpolation {
    fn default() -> (d: Self)
        ensures
            d == Interpolation::Bezier,
    {
        Interpolation::Bezier
    }
}

/// How an F-curve continues before its first and after its last keyframe.
#[derive(Clone, Debug, PartialEq, Eq, Structural)]
pub enum Extrapolation {
    Nothing,
    Constant,
    Linear,
}

impl Default for Extrapolation {
    fn default() -> (d: Self)
        ensures
            d == Extrapolation::Nothing,
    {
        Extrapolation::Nothing
    }
}

/// How the curves of a channel group are coloured.
#[derive(Clone, Debug, PartialEq, Eq, Structural)]
pub enum FCurveColorMode {
    Rgb,
    HSV,
    Neon,
}

impl Default for FCurveColorMode {
    fn default() -> (d: Self)
        ensures
            d == FCurveColorMode::Rgb,
    {
        FCurveColorMode::Rgb
    }
}

/// How a keyframe's Bezier handles are placed.
#[derive(Clone, Debug, PartialEq, Eq, Structural)]
pub enum HandleType {
    Free,
    Aligned,
    Vector,
    Auto,
    AutoClamped,
    Fixed,
}

impl Default for HandleType {
    fn default() -> (d: Self)
        ensures
            d == HandleType::Auto,
    {
        HandleType::Auto
    }
}

/// Which end of an interpolated segment the easing applies to.
#[derive(Clone, Debug, PartialEq, Eq, Structural)]
pub enum Easing {
    Default,
    EaseIn,
    EaseOut,
    EaseInOut,
}

impl Default for Easing {
    fn default() -> (d: Self)
        ensures
            d == Easing::Default,
    {
        Easing::Default
    }
}

/// A named group of F-curve channels, given by their indices.
#[derive(Clone, Debug)]
pub struct FCurveGroup {
    pub name: String,
    pub channels: Vec<usize>,
    pub locked: bool,
    pub muted: bool,
    pub visible: bool,
}

/// A driver: a value computed from variables by an expression.
#[derive(Clone, Debug)]
pub struct Driver {
    pub driver_type: DriverType,
    pub variables: Vec<DriverVariable>,
    pub expression: String,
    pub expression_simple: String,
}

/// How a driver combines its variables.
#[derive(Clone, Debug, PartialEq, Eq, Structural)]
pub enum DriverType {
    AveragedValue,
    SumValues,
    ScriptedExpression,
    PythonExpression,
}

impl Default for DriverType {
    fn default() -> (d: Self)
        ensures
            d == DriverType::ScriptedExpression,
    {
        DriverType::ScriptedExpression
    }
}

/// A named input of a driver.
#[derive(Clone, Debug)]
pub struct DriverVariable {
    pub name: String,
    pub var_type: DriverVarType,
    pub targets: Vec<DriverTarget>,
}

/// What a driver variable reads.
#[derive(Clone, Debug, PartialEq, Eq, Structural)]
pub enum DriverVarType {
    SingleProp,
    TransformChannel,
    RotationalDifference,
    Distance,
}

/// What a driver variable reads: a property path or a transform channel of
/// an object (or bone).
#[derive(Clone, Debug)]
pub struct DriverTarget {
    pub id: Option<String>,
    pub data_path: String,
    pub transform_type: TransformChannel,
    pub transform_space: TransformSpace,
    pub bone_target: String,
}

/// One channel of an object's transform.
#[derive(Clone, Debug, PartialEq, Eq, Structural)]
pub enum TransformChannel {
    LocX,
    LocY,
    LocZ,
    RotX,
    RotY,
    RotZ,
    ScaleX,
    ScaleY,
    ScaleZ,
}

/// The space a transform channel is read in.
#[derive(Clone, Debug, PartialEq, Eq, Structural)]
pub enum TransformSpace {
    WorldSpace,
    LocalSpace,
    PoseSpace,
}

/// How an F-curve modifier continues outside its range.
#[derive(Clone, Debug, PartialEq, Eq, Structural)]
pub enum FModifierExtend {
    Nothing,
    Constant,
    Extrapolation,
    Cycles,
}

/// How an F-curve modifier combines with the curve.
#[derive(Clone, Debug, PartialEq, Eq, Structural)]
pub enum FModifierBlend {
    Replace,
    Add,
    Subtract,
    Multiply,
}

/// The form of a generator modifier's function.
#[derive(Clone, Debug, PartialEq, Eq, Structural)]
pub enum GeneratorMode {
    Polynomial,
    Power,
}

/// The axis a simple deform acts along.
#[derive(Clone, Debug, PartialEq, Eq, Structural)]
pub enum DeformAxis {
    X,
    Y,
    Z,
    NegX,
    NegY,
    NegZ,
}

/// The kind of simple deformation.
#[derive(Clone, Debug, PartialEq, Eq, Structural)]
pub enum SimpleDeformType {
    Twist,
    Taper,
    Bend,
    Stretch,
}

/// What a mask modifier keeps vertices by.
#[derive(Clone, Debug, PartialEq, Eq, Structural)]
pub enum MaskMode {
    VertGroup,
    Armature,
    VertexWeight,
}

/// The axis an object aligns with a path along.
#[derive(Clone, Debug, PartialEq, Eq, Structural)]
pub enum FollowAxis {
    ForwardX,
    ForwardY,
    ForwardZ,
    UpX,
    UpY,
    UpZ,
    TrackX,
    TrackY,
    TrackZ,
}

/// The axis that points at a tracking target.
#[derive(Clone, Debug, PartialEq, Eq, Structural)]
pub enum TrackAxis {
    X,
    Y,
    Z,
    NegX,
    NegY,
    NegZ,
}

/// How a copied rotation combines with the owner's own.
#[derive(Clone, Debug, PartialEq, Eq, Structural)]
pub enum CopyRotationMix {
    Replace,
    Add,
    BeforeOriginal,
    AfterOriginal,
}

/// Where a limit-distance constraint keeps its owner.
#[derive(Clone, Debug, PartialEq, Eq, Structural)]
pub enum LimitMode {
    Inside,
    Outside,
    OnSurface,
}

/// How a clamp-to constraint clamps.
#[derive(Clone, Debug, PartialEq, Eq, Structural)]
pub enum ClampType {
    Plain,
    Tangential,
}

/// How a shrinkwrap finds the target surface.
#[derive(Clone, Debug, PartialEq, Eq, Structural)]
pub enum ShrinkwrapMethod {
    NearestSurface,
    Project,
    NearestVertex,
    NearestEdge,
    Face,
}

/// Where a shrinkwrap places the owner relative to the surface.
#[derive(Clone, Debug, PartialEq, Eq, Structural)]
pub enum ShrinkwrapMode {
    OnSurface,
    Inside,
    Outside,
    AboveSurface,
}

/// How an NLA strip blends with the strips below it.
#[derive(Clone, Debug, PartialEq, Eq, Structural)]
pub enum NlaBlendMode {
    Replace,
    Combine,
    Add,
    Subtract,
    Multiply,
}

/// How an NLA strip holds outside its frame range.
#[derive(Clone, Debug, PartialEq, Eq, Structural)]
pub enum NlaExtrapolate {
    Nothing,
    Hold,
    HoldForward,
}

/// Which channels the dope sheet lists.
pub struct DopeSheetFilter {
    pub show_selected_only: bool,
    pub show_hidden: bool,
    pub show_only_errors: bool,
    pub show_only_errors_in_range: bool,
    pub show_summary: bool,
    pub show_mesh: bool,
    pub show_armature: bool,
    pub show_transverts: bool,
    pub show_particle: bool,
}

impl Default for DopeSheetFilter {
    /// Everything shown but hidden channels, unfiltered.
    fn default() -> (f: Self)
        ensures
            !f.show_selected_only,
            !f.show_hidden,
            !f.show_only_errors,
            !f.show_only_errors_in_range,
            f.show_summary,
            f.show_mesh,
            f.show_armature,
            f.show_transverts,
            f.show_particle,
    {
        DopeSheetFilter {
            show_selected_only: false,
            show_hidden: false,
            show_only_errors: false,
            show_only_errors_in_range: false,
            show_summary: true,
            show_mesh: true,
            show_armature: true,
            show_transverts: true,
            show_particle: true,
        }
    }
}

/// Where keyframes moved in the graph editor snap to.
#[derive(Clone, Debug, PartialEq, Eq, Structural)]
pub enum AutoSnap {
    NoSnap,
    NearestFrame,
    NearestSecond,
    NearestMarker,
}

} // verus!
