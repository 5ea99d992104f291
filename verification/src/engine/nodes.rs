//! Node trees: typed nodes joined by links between named sockets, as used
//! for shaders, compositing and geometry.
use vstd::prelude::*;
use crate::text::{decimal, push_decimal};

verus! {

/// What a node tree computes.
#[derive(Clone, Debug, PartialEq, Eq, Structural)]
pub enum NodeTreeType {
    Shader,
    Compositor,
    Geometry,
    Texture,
}

/// The kinds of nodes a node tree can hold.
#[derive(Clone, Debug, PartialEq, Eq, Structural)]
pub enum NodeType {
    ShaderOutput,
    PrincipledBSDF,
    DiffuseBSDF,
    GlossyBSDF,
    GlassBSDF,
    Emission,
    TransparentBSDF,
    RefractionBSDF,
    TranslucentBSDF,
    VelvetBSDF,
    AnisotropicBSDF,
    SubsurfaceScattering,
    ToonBSDF,
    HairBSDF,
    VolumeScatter,
    VolumeAbsorption,
    VolumePrincipled,
    Background,
    MixShader,
    AddShader,
    Math,
    VectorMath,
    Mapping,
    TextureCoordinate,
    ObjectInfo,
    ObjectInfoFloat,
    GeometryInfo,
    CameraData,
    Fresnel,
    LayerWeight,
    Wireframe,
    Normal,
    NormalMap,
    Bump,
    Displacement,
    VectorDisplacement,
    VectorTransform,
    RGB,
    Value,
    HueSaturation,
    Gamma,
    BrightContrast,
    Invert,
    GammaNode,
    ColorRamp,
    SeparateRGB,
    CombineRGB,
    SeparateXYZ,
    CombineXYZ,
    SeparateHSV,
    CombineHSV,
    ImageTexture,
    EnvironmentTexture,
    BrickTexture,
    CheckerTexture,
    GradientTexture,
    MagicTexture,
    MusgraveTexture,
    NoiseTexture,
    VoronoiTexture,
    WaveTexture,
    WhiteNoiseTexture,
    PointDensity,
    SkyTexture,
    Combine,
    Separate,
    NodeGroupInput,
    NodeGroupOutput,
    Viewer,
    Composite,
    FileOutput,
    Levels,
    ColorBalance,
    ColorCorrection,
    CurveRGB,
    HueSaturationCorrect,
    InvertNode,
    Normalize,
    MapRange,
    MapValue,
    Blur,
    Defocus,
    Glare,
    LensDistortion,
    Filter,
    GeometryInput,
    GeometryOutput,
    GeometryTransform,
    GeometrySet,
    GeometrySeparateGeometry,
    GeometryJoinGeometry,
    GeometryInstanceOnPoints,
    GeometryInstanceOnFaces,
    GeometryMeshToPoints,
    GeometryPointsToMesh,
    GeometrySubdivideMesh,
    GeometrySubdivideCurve,
    GeometryResampleCurve,
    GeometryCurveToMesh,
    GeometryMeshToCurve,
    GeometryFillCurve,
    GeometryExtrudeMesh,
    GeometryScaleElements,
    GeometryTransformGeometry,
    GeometrySetPosition,
    GeometryCaptureAttribute,
    GeometrySampleNearest,
    GeometrySampleIndex,
    GeometrySampleNearestSurface,
    GeometryRaycast,
    GeometryInterpolateGeometry,
    GeometryFieldAtIndex,
    MathAdd,
    MathSubtract,
    MathMultiply,
    MathDivide,
    MathPower,
    MathSqrt,
    MathLogarithm,
    MathExp,
    MathSin,
    MathCos,
    MathTan,
    MathArcsin,
    MathArccos,
    MathArctan,
    MathArctan2,
    MathRound,
    MathFloor,
    MathCeil,
    MathFract,
    MathModulo,
    MathSign,
    MathMin,
    MathMax,
    MathClamp,
    MathMix,
    MathSmoothMin,
    MathSmoothMax,
    MathCompare,
    MathLessThan,
    MathGreaterThan,
    MathEqual,
    MathNotEqual,
    MathAnd,
    MathOr,
    MathNot,
    MathNand,
    MathXor,
}

impl NodeType {
    /// The node type's name: its variant's name.
    pub open spec fn spec_name(self) -> Seq<char> {
        match self {
        NodeType::ShaderOutput => "ShaderOutput"@,
        NodeType::PrincipledBSDF => "PrincipledBSDF"@,
        NodeType::DiffuseBSDF => "DiffuseBSDF"@,
        NodeType::GlossyBSDF => "GlossyBSDF"@,
        NodeType::GlassBSDF => "GlassBSDF"@,
        NodeType::Emission => "Emission"@,
        NodeType::TransparentBSDF => "TransparentBSDF"@,
        NodeType::RefractionBSDF => "RefractionBSDF"@,
        NodeType::TranslucentBSDF => "TranslucentBSDF"@,
        NodeType::VelvetBSDF => "VelvetBSDF"@,
        NodeType::AnisotropicBSDF => "AnisotropicBSDF"@,
        NodeType::SubsurfaceScattering => "SubsurfaceScattering"@,
        NodeType::ToonBSDF => "ToonBSDF"@,
        NodeType::HairBSDF => "HairBSDF"@,
        NodeType::VolumeScatter => "VolumeScatter"@,
        NodeType::VolumeAbsorption => "VolumeAbsorption"@,
        NodeType::VolumePrincipled => "VolumePrincipled"@,
        NodeType::Background => "Background"@,
        NodeType::MixShader => "MixShader"@,
        NodeType::AddShader => "AddShader"@,
        NodeType::Math => "Math"@,
        NodeType::VectorMath => "VectorMath"@,
        NodeType::Mapping => "Mapping"@,
        NodeType::TextureCoordinate => "TextureCoordinate"@,
        NodeType::ObjectInfo => "ObjectInfo"@,
        NodeType::ObjectInfoFloat => "ObjectInfoFloat"@,
        NodeType::GeometryInfo => "GeometryInfo"@,
        NodeType::CameraData => "CameraData"@,
        NodeType::Fresnel => "Fresnel"@,
        NodeType::LayerWeight => "LayerWeight"@,
        NodeType::Wireframe => "Wireframe"@,
        NodeType::Normal => "Normal"@,
        NodeType::NormalMap => "NormalMap"@,
        NodeType::Bump => "Bump"@,
        NodeType::Displacement => "Displacement"@,
        NodeType::VectorDisplacement => "VectorDisplacement"@,
        NodeType::VectorTransform => "VectorTransform"@,
        NodeType::RGB => "RGB"@,
        NodeType::Value => "Value"@,
        NodeType::HueSaturation => "HueSaturation"@,
        NodeType::Gamma => "Gamma"@,
        NodeType::BrightContrast => "BrightContrast"@,
        NodeType::Invert => "Invert"@,
        NodeType::GammaNode => "GammaNode"@,
        NodeType::ColorRamp => "ColorRamp"@,
        NodeType::SeparateRGB => "SeparateRGB"@,
        NodeType::CombineRGB => "CombineRGB"@,
        NodeType::SeparateXYZ => "SeparateXYZ"@,
        NodeType::CombineXYZ => "CombineXYZ"@,
        NodeType::SeparateHSV => "SeparateHSV"@,
        NodeType::CombineHSV => "CombineHSV"@,
        NodeType::ImageTexture => "ImageTexture"@,
        NodeType::EnvironmentTexture => "EnvironmentTexture"@,
        NodeType::BrickTexture => "BrickTexture"@,
        NodeType::CheckerTexture => "CheckerTexture"@,
        NodeType::GradientTexture => "GradientTexture"@,
        NodeType::MagicTexture => "MagicTexture"@,
        NodeType::MusgraveTexture => "MusgraveTexture"@,
        NodeType::NoiseTexture => "NoiseTexture"@,
        NodeType::VoronoiTexture => "VoronoiTexture"@,
        NodeType::WaveTexture => "WaveTexture"@,
        NodeType::WhiteNoiseTexture => "WhiteNoiseTexture"@,
        NodeType::PointDensity => "PointDensity"@,
        NodeType::SkyTexture => "SkyTexture"@,
        NodeType::Combine => "Combine"@,
        NodeType::Separate => "Separate"@,
        NodeType::NodeGroupInput => "NodeGroupInput"@,
        NodeType::NodeGroupOutput => "NodeGroupOutput"@,
        NodeType::Viewer => "Viewer"@,
        NodeType::Composite => "Composite"@,
        NodeType::FileOutput => "FileOutput"@,
        NodeType::Levels => "Levels"@,
        NodeType::ColorBalance => "ColorBalance"@,
        NodeType::ColorCorrection => "ColorCorrection"@,
        NodeType::CurveRGB => "CurveRGB"@,
        NodeType::HueSaturationCorrect => "HueSaturationCorrect"@,
        NodeType::InvertNode => "InvertNode"@,
        NodeType::Normalize => "Normalize"@,
        NodeType::MapRange => "MapRange"@,
        NodeType::MapValue => "MapValue"@,
        NodeType::Blur => "Blur"@,
        NodeType::Defocus => "Defocus"@,
        NodeType::Glare => "Glare"@,
        NodeType::LensDistortion => "LensDistortion"@,
        NodeType::Filter => "Filter"@,
        NodeType::GeometryInput => "GeometryInput"@,
        NodeType::GeometryOutput => "GeometryOutput"@,
        NodeType::GeometryTransform => "GeometryTransform"@,
        NodeType::GeometrySet => "GeometrySet"@,
        NodeType::GeometrySeparateGeometry => "GeometrySeparateGeometry"@,
        NodeType::GeometryJoinGeometry => "GeometryJoinGeometry"@,
        NodeType::GeometryInstanceOnPoints => "GeometryInstanceOnPoints"@,
        NodeType::GeometryInstanceOnFaces => "GeometryInstanceOnFaces"@,
        NodeType::GeometryMeshToPoints => "GeometryMeshToPoints"@,
        NodeType::GeometryPointsToMesh => "GeometryPointsToMesh"@,
        NodeType::GeometrySubdivideMesh => "GeometrySubdivideMesh"@,
        NodeType::GeometrySubdivideCurve => "GeometrySubdivideCurve"@,
        NodeType::GeometryResampleCurve => "GeometryResampleCurve"@,
        NodeType::GeometryCurveToMesh => "GeometryCurveToMesh"@,
        NodeType::GeometryMeshToCurve => "GeometryMeshToCurve"@,
        NodeType::GeometryFillCurve => "GeometryFillCurve"@,
        NodeType::GeometryExtrudeMesh => "GeometryExtrudeMesh"@,
        NodeType::GeometryScaleElements => "GeometryScaleElements"@,
        NodeType::GeometryTransformGeometry => "GeometryTransformGeometry"@,
        NodeType::GeometrySetPosition => "GeometrySetPosition"@,
        NodeType::GeometryCaptureAttribute => "GeometryCaptureAttribute"@,
        NodeType::GeometrySampleNearest => "GeometrySampleNearest"@,
        NodeType::GeometrySampleIndex => "GeometrySampleIndex"@,
        NodeType::GeometrySampleNearestSurface => "GeometrySampleNearestSurface"@,
        NodeType::GeometryRaycast => "GeometryRaycast"@,
        NodeType::GeometryInterpolateGeometry => "GeometryInterpolateGeometry"@,
        NodeType::GeometryFieldAtIndex => "GeometryFieldAtIndex"@,
        NodeType::MathAdd => "MathAdd"@,
        NodeType::MathSubtract => "MathSubtract"@,
        NodeType::MathMultiply => "MathMultiply"@,
        NodeType::MathDivide => "MathDivide"@,
        NodeType::MathPower => "MathPower"@,
        NodeType::MathSqrt => "MathSqrt"@,
        NodeType::MathLogarithm => "MathLogarithm"@,
        NodeType::MathExp => "MathExp"@,
        NodeType::MathSin => "MathSin"@,
        NodeType::MathCos => "MathCos"@,
        NodeType::MathTan => "MathTan"@,
        NodeType::MathArcsin => "MathArcsin"@,
        NodeType::MathArccos => "MathArccos"@,
        NodeType::MathArctan => "MathArctan"@,
        NodeType::MathArctan2 => "MathArctan2"@,
        NodeType::MathRound => "MathRound"@,
        NodeType::MathFloor => "MathFloor"@,
        NodeType::MathCeil => "MathCeil"@,
        NodeType::MathFract => "MathFract"@,
        NodeType::MathModulo => "MathModulo"@,
        NodeType::MathSign => "MathSign"@,
        NodeType::MathMin => "MathMin"@,
        NodeType::MathMax => "MathMax"@,
        NodeType::MathClamp => "MathClamp"@,
        NodeType::MathMix => "MathMix"@,
        NodeType::MathSmoothMin => "MathSmoothMin"@,
        NodeType::MathSmoothMax => "MathSmoothMax"@,
        NodeType::MathCompare => "MathCompare"@,
        NodeType::MathLessThan => "MathLessThan"@,
        NodeType::MathGreaterThan => "MathGreaterThan"@,
        NodeType::MathEqual => "MathEqual"@,
        NodeType::MathNotEqual => "MathNotEqual"@,
        NodeType::MathAnd => "MathAnd"@,
        NodeType::MathOr => "MathOr"@,
        NodeType::MathNot => "MathNot"@,
        NodeType::MathNand => "MathNand"@,
        NodeType::MathXor => "MathXor"@,
        }
    }

    /// The node type's name (see [`NodeType::spec_name`]).
    pub fn name(&self) -> (s: String)
        ensures
            s@ == self.spec_name(),
    {
        broadcast use vstd::string::group_string_axioms;
        match self {
            NodeType::ShaderOutput => "ShaderOutput".to_string(),
            NodeType::PrincipledBSDF => "PrincipledBSDF".to_string(),
            NodeType::DiffuseBSDF => "DiffuseBSDF".to_string(),
            NodeType::GlossyBSDF => "GlossyBSDF".to_string(),
            NodeType::GlassBSDF => "GlassBSDF".to_string(),
            NodeType::Emission => "Emission".to_string(),
            NodeType::TransparentBSDF => "TransparentBSDF".to_string(),
            NodeType::RefractionBSDF => "RefractionBSDF".to_string(),
            NodeType::TranslucentBSDF => "TranslucentBSDF".to_string(),
            NodeType::VelvetBSDF => "VelvetBSDF".to_string(),
            NodeType::AnisotropicBSDF => "AnisotropicBSDF".to_string(),
            NodeType::SubsurfaceScattering => "SubsurfaceScattering".to_string(),
            NodeType::ToonBSDF => "ToonBSDF".to_string(),
            NodeType::HairBSDF => "HairBSDF".to_string(),
            NodeType::VolumeScatter => "VolumeScatter".to_string(),
            NodeType::VolumeAbsorption => "VolumeAbsorption".to_string(),
            NodeType::VolumePrincipled => "VolumePrincipled".to_string(),
            NodeType::Background => "Background".to_string(),
            NodeType::MixShader => "MixShader".to_string(),
            NodeType::AddShader => "AddShader".to_string(),
            NodeType::Math => "Math".to_string(),
            NodeType::VectorMath => "VectorMath".to_string(),
            NodeType::Mapping => "Mapping".to_string(),
            NodeType::TextureCoordinate => "TextureCoordinate".to_string(),
            NodeType::ObjectInfo => "ObjectInfo".to_string(),
            NodeType::ObjectInfoFloat => "ObjectInfoFloat".to_string(),
            NodeType::GeometryInfo => "GeometryInfo".to_string(),
            NodeType::CameraData => "CameraData".to_string(),
            NodeType::Fresnel => "Fresnel".to_string(),
            NodeType::LayerWeight => "LayerWeight".to_string(),
            NodeType::Wireframe => "Wireframe".to_string(),
            NodeType::Normal => "Normal".to_string(),
            NodeType::NormalMap => "NormalMap".to_string(),
            NodeType::Bump => "Bump".to_string(),
            NodeType::Displacement => "Displacement".to_string(),
            NodeType::VectorDisplacement => "VectorDisplacement".to_string(),
            NodeType::VectorTransform => "VectorTransform".to_string(),
            NodeType::RGB => "RGB".to_string(),
            NodeType::Value => "Value".to_string(),
            NodeType::HueSaturation => "HueSaturation".to_string(),
            NodeType::Gamma => "Gamma".to_string(),
            NodeType::BrightContrast => "BrightContrast".to_string(),
            NodeType::Invert => "Invert".to_string(),
            NodeType::GammaNode => "GammaNode".to_string(),
            NodeType::ColorRamp => "ColorRamp".to_string(),
            NodeType::SeparateRGB => "SeparateRGB".to_string(),
            NodeType::CombineRGB => "CombineRGB".to_string(),
            NodeType::SeparateXYZ => "SeparateXYZ".to_string(),
            NodeType::CombineXYZ => "CombineXYZ".to_string(),
            NodeType::SeparateHSV => "SeparateHSV".to_string(),
            NodeType::CombineHSV => "CombineHSV".to_string(),
            NodeType::ImageTexture => "ImageTexture".to_string(),
            NodeType::EnvironmentTexture => "EnvironmentTexture".to_string(),
            NodeType::BrickTexture => "BrickTexture".to_string(),
            NodeType::CheckerTexture => "CheckerTexture".to_string(),
            NodeType::GradientTexture => "GradientTexture".to_string(),
            NodeType::MagicTexture => "MagicTexture".to_string(),
            NodeType::MusgraveTexture => "MusgraveTexture".to_string(),
            NodeType::NoiseTexture => "NoiseTexture".to_string(),
            NodeType::VoronoiTexture => "VoronoiTexture".to_string(),
            NodeType::WaveTexture => "WaveTexture".to_string(),
            NodeType::WhiteNoiseTexture => "WhiteNoiseTexture".to_string(),
            NodeType::PointDensity => "PointDensity".to_string(),
            NodeType::SkyTexture => "SkyTexture".to_string(),
            NodeType::Combine => "Combine".to_string(),
            NodeType::Separate => "Separate".to_string(),
            NodeType::NodeGroupInput => "NodeGroupInput".to_string(),
            NodeType::NodeGroupOutput => "NodeGroupOutput".to_string(),
            NodeType::Viewer => "Viewer".to_string(),
            NodeType::Composite => "Composite".to_string(),
            NodeType::FileOutput => "FileOutput".to_string(),
            NodeType::Levels => "Levels".to_string(),
            NodeType::ColorBalance => "ColorBalance".to_string(),
            NodeType::ColorCorrection => "ColorCorrection".to_string(),
            NodeType::CurveRGB => "CurveRGB".to_string(),
            NodeType::HueSaturationCorrect => "HueSaturationCorrect".to_string(),
            NodeType::InvertNode => "InvertNode".to_string(),
            NodeType::Normalize => "Normalize".to_string(),
            NodeType::MapRange => "MapRange".to_string(),
            NodeType::MapValue => "MapValue".to_string(),
            NodeType::Blur => "Blur".to_string(),
            NodeType::Defocus => "Defocus".to_string(),
            NodeType::Glare => "Glare".to_string(),
            NodeType::LensDistortion => "LensDistortion".to_string(),
            NodeType::Filter => "Filter".to_string(),
            NodeType::GeometryInput => "GeometryInput".to_string(),
            NodeType::GeometryOutput => "GeometryOutput".to_string(),
            NodeType::GeometryTransform => "GeometryTransform".to_string(),
            NodeType::GeometrySet => "GeometrySet".to_string(),
            NodeType::GeometrySeparateGeometry => "GeometrySeparateGeometry".to_string(),
            NodeType::GeometryJoinGeometry => "GeometryJoinGeometry".to_string(),
            NodeType::GeometryInstanceOnPoints => "GeometryInstanceOnPoints".to_string(),
            NodeType::GeometryInstanceOnFaces => "GeometryInstanceOnFaces".to_string(),
            NodeType::GeometryMeshToPoints => "GeometryMeshToPoints".to_string(),
            NodeType::GeometryPointsToMesh => "GeometryPointsToMesh".to_string(),
            NodeType::GeometrySubdivideMesh => "GeometrySubdivideMesh".to_string(),
            NodeType::GeometrySubdivideCurve => "GeometrySubdivideCurve".to_string(),
            NodeType::GeometryResampleCurve => "GeometryResampleCurve".to_string(),
            NodeType::GeometryCurveToMesh => "GeometryCurveToMesh".to_string(),
            NodeType::GeometryMeshToCurve => "GeometryMeshToCurve".to_string(),
            NodeType::GeometryFillCurve => "GeometryFillCurve".to_string(),
            NodeType::GeometryExtrudeMesh => "GeometryExtrudeMesh".to_string(),
            NodeType::GeometryScaleElements => "GeometryScaleElements".to_string(),
            NodeType::GeometryTransformGeometry => "GeometryTransformGeometry".to_string(),
            NodeType::GeometrySetPosition => "GeometrySetPosition".to_string(),
            NodeType::GeometryCaptureAttribute => "GeometryCaptureAttribute".to_string(),
            NodeType::GeometrySampleNearest => "GeometrySampleNearest".to_string(),
            NodeType::GeometrySampleIndex => "GeometrySampleIndex".to_string(),
            NodeType::GeometrySampleNearestSurface => "GeometrySampleNearestSurface".to_string(),
            NodeType::GeometryRaycast => "GeometryRaycast".to_string(),
            NodeType::GeometryInterpolateGeometry => "GeometryInterpolateGeometry".to_string(),
            NodeType::GeometryFieldAtIndex => "GeometryFieldAtIndex".to_string(),
            NodeType::MathAdd => "MathAdd".to_string(),
            NodeType::MathSubtract => "MathSubtract".to_string(),
            NodeType::MathMultiply => "MathMultiply".to_string(),
            NodeType::MathDivide => "MathDivide".to_string(),
            NodeType::MathPower => "MathPower".to_string(),
            NodeType::MathSqrt => "MathSqrt".to_string(),
            NodeType::MathLogarithm => "MathLogarithm".to_string(),
            NodeType::MathExp => "MathExp".to_string(),
            NodeType::MathSin => "MathSin".to_string(),
            NodeType::MathCos => "MathCos".to_string(),
            NodeType::MathTan => "MathTan".to_string(),
            NodeType::MathArcsin => "MathArcsin".to_string(),
            NodeType::MathArccos => "MathArccos".to_string(),
            NodeType::MathArctan => "MathArctan".to_string(),
            NodeType::MathArctan2 => "MathArctan2".to_string(),
            NodeType::MathRound => "MathRound".to_string(),
            NodeType::MathFloor => "MathFloor".to_string(),
            NodeType::MathCeil => "MathCeil".to_string(),
            NodeType::MathFract => "MathFract".to_string(),
            NodeType::MathModulo => "MathModulo".to_string(),
            NodeType::MathSign => "MathSign".to_string(),
            NodeType::MathMin => "MathMin".to_string(),
            NodeType::MathMax => "MathMax".to_string(),
            NodeType::MathClamp => "MathClamp".to_string(),
            NodeType::MathMix => "MathMix".to_string(),
            NodeType::MathSmoothMin => "MathSmoothMin".to_string(),
            NodeType::MathSmoothMax => "MathSmoothMax".to_string(),
            NodeType::MathCompare => "MathCompare".to_string(),
            NodeType::MathLessThan => "MathLessThan".to_string(),
            NodeType::MathGreaterThan => "MathGreaterThan".to_string(),
            NodeType::MathEqual => "MathEqual".to_string(),
            NodeType::MathNotEqual => "MathNotEqual".to_string(),
            NodeType::MathAnd => "MathAnd".to_string(),
            NodeType::MathOr => "MathOr".to_string(),
            NodeType::MathNot => "MathNot".to_string(),
            NodeType::MathNand => "MathNand".to_string(),
            NodeType::MathXor => "MathXor".to_string(),
        }
    }
}

/// Whether a socket takes a value in or gives one out.
#[derive(Clone, Debug, PartialEq, Eq, Structural)]
pub enum SocketDirection {
    Input,
    Output,
}

/// The kind of value a socket carries.
#[derive(Clone, Debug, PartialEq, Eq, Structural)]
pub enum SocketType {
    Float,
    Vector,
    Color,
    Shader,
    Geometry,
    String,
    Boolean,
    Integer,
    Closure,
    Object,
    Collection,
    Texture,
    Material,
    Rotation,
    Matrix,
}

/// How a socket is drawn.
#[derive(Clone, Debug, PartialEq, Eq, Structural)]
pub enum SocketDisplayShape {
    Circle,
    Diamond,
    Square,
    Triangle,
}

/// A link from an output socket of one node to an input socket of another,
/// both given by name.
#[derive(Clone, Debug)]
pub struct NodeLink {
    pub from_node: String,
    pub from_socket: String,
    pub to_node: String,
    pub to_socket: String,
    pub multi: bool,
    pub hide: bool,
    pub select: bool,
}

/// Ready-made shader node trees.
pub struct ShaderNodePresets;

/// The floating-point side of a node tree: canvas points, how nodes are
/// drawn, and sockets (which carry float defaults and ranges). The tree
/// code creates these through the implementor and assumes nothing about them.
pub trait NodeCanvas {
    /// A point on the canvas.
    type Point;
    /// A node's drawn size and colour.
    type Look;
    /// A node's input or output socket.
    type Socket;

    /// The canvas origin, where a new tree's view is centred.
    fn origin() -> Self::Point;

    /// How a new node is drawn.
    fn node_look() -> Self::Look;

    /// The point at whole-number coordinates `(x, y)`.
    fn point(x: i32, y: i32) -> Self::Point;
}

/// The id given to the `n`-th node added to a tree: `node_` and `n` in decimal.
pub open spec fn node_id_for(n: nat) -> Seq<char> {
    seq!['n', 'o', 'd', 'e', '_'] + decimal(n)
}

/// A `String` holding the given characters, through std's
/// `String::from_iter`. Trusted: collecting characters into a `String`
/// keeps them, in order.
#[verifier::external_body]
fn string_from_chars(cs: &Vec<char>) -> (s: String)
    ensures
        s@ == cs@,
{
    String::from_iter(cs.iter())
}

/// The id of the `n`-th node added to a tree (see [`node_id_for`]).
fn format_node_id(n: usize) -> (s: String)
    ensures
        s@ == node_id_for(n as nat),
{
    let mut cs: Vec<char> = vec!['n', 'o', 'd', 'e', '_'];
    push_decimal(&mut cs, n);
    proof {
        assert(cs@ =~= node_id_for(n as nat));
    }
    string_from_chars(&cs)
}

/// A node of a tree.
pub struct Node<C: NodeCanvas> {
    pub id: String,
    pub node_type: NodeType,
    pub name: String,
    pub location: C::Point,
    pub look: C::Look,
    pub hide: bool,
    pub mute: bool,
    pub select: bool,
    pub show_options: bool,
    pub show_preview: bool,
    pub show_texture: bool,
    pub use_custom_color: bool,
    pub inputs: Vec<C::Socket>,
    pub outputs: Vec<C::Socket>,
    pub internal_links: Vec<NodeLink>,
    pub parent: Option<String>,
}

/// A node tree: nodes, and links between their sockets.
pub struct NodeTree<C: NodeCanvas> {
    pub name: String,
    pub tree_type: NodeTreeType,
    pub nodes: Vec<Node<C>>,
    pub links: Vec<NodeLink>,
    pub active: bool,
    pub view_center: C::Point,
    pub edit_mode: bool,
    pub compact: bool,
    pub nodewidget_width: u32,
}

impl NodeLink {
    /// Whether the link starts or ends at the node with id `id`.
    pub open spec fn touches(self, id: Seq<char>) -> bool {
        self.from_node@ == id || self.to_node@ == id
    }

    /// Whether the link ends at socket `socket` of node `node` (for an
    /// input) or starts there (for an output).
    pub open spec fn joins(self, node: Seq<char>, socket: Seq<char>, direction: SocketDirection) -> bool {
        match direction {
            SocketDirection::Input => self.to_node@ == node && self.to_socket@ == socket,
            SocketDirection::Output => self.from_node@ == node && self.from_socket@ == socket,
        }
    }
}

/// Keeps the links that do not touch the node with id `id`.
pub open spec fn link_kept(id: Seq<char>) -> spec_fn(NodeLink) -> bool {
    |l: NodeLink| !l.touches(id)
}

/// Keeps the nodes whose id is not `id`.
pub open spec fn node_kept<C: NodeCanvas>(id: Seq<char>) -> spec_fn(Node<C>) -> bool {
    |n: Node<C>| n.id@ != id
}

/// The index of the first node with id `id`, or the number of nodes.
pub open spec fn first_with_id<C: NodeCanvas>(nodes: Seq<Node<C>>, id: Seq<char>) -> int
    decreases nodes.len(),
{
    if nodes.len() == 0 {
        0
    } else {
        let k = first_with_id(nodes.drop_last(), id);
        if k < nodes.len() - 1 {
            k
        } else if nodes.last().id@ == id {
            nodes.len() - 1
        } else {
            nodes.len() as int
        }
    }
}

proof fn lemma_first_with_id<C: NodeCanvas>(nodes: Seq<Node<C>>, id: Seq<char>)
    ensures
        0 <= first_with_id(nodes, id) <= nodes.len(),
        first_with_id(nodes, id) < nodes.len() ==> nodes[first_with_id(nodes, id)].id@ == id,
        forall|k: int| 0 <= k < first_with_id(nodes, id) ==> nodes[k].id@ != id,
    decreases nodes.len(),
{
    if nodes.len() > 0 {
        lemma_first_with_id(nodes.drop_last(), id);
        assert forall|k: int| 0 <= k < first_with_id(nodes, id) implies nodes[k].id@ != id by {
            if k < nodes.len() - 1 {
                assert(nodes.drop_last()[k] == nodes[k]);
            }
        }
    }
}

impl<C: NodeCanvas> NodeTree<C> {
    /// An empty, active tree named `name`.
    pub fn new(name: &str, tree_type: NodeTreeType) -> (t: Self)
        ensures
            t.name@ == name@,
            t.tree_type == tree_type,
            t.nodes@.len() == 0,
            t.links@.len() == 0,
            t.active,
            !t.edit_mode,
            !t.compact,
            t.nodewidget_width == 250,
    {
        broadcast use vstd::string::group_string_axioms;
        NodeTree {
            name: name.to_string(),
            tree_type,
            nodes: Vec::new(),
            links: Vec::new(),
            active: true,
            view_center: C::origin(),
            edit_mode: false,
            compact: false,
            nodewidget_width: 250,
        }
    }

    /// Adds a node of the given type at `location`, named after its type,
    /// with no sockets; returns its id (see [`node_id_for`]), which counts
    /// the nodes the tree had.
    pub fn add_node(&mut self, node_type: NodeType, location: C::Point) -> (id: String)
        ensures
            id@ == node_id_for(old(self).nodes@.len() as nat),
            final(self).nodes@.len() == old(self).nodes@.len() + 1,
            final(self).nodes@.drop_last() == old(self).nodes@,
            final(self).nodes@.last().id@ == id@,
            final(self).nodes@.last().node_type == node_type,
            final(self).nodes@.last().name@ == node_type.spec_name(),
            final(self).nodes@.last().location == location,
            !final(self).nodes@.last().hide,
            !final(self).nodes@.last().mute,
            !final(self).nodes@.last().select,
            final(self).nodes@.last().show_options,
            !final(self).nodes@.last().show_preview,
            !final(self).nodes@.last().show_texture,
            !final(self).nodes@.last().use_custom_color,
            final(self).nodes@.last().inputs@.len() == 0,
            final(self).nodes@.last().outputs@.len() == 0,
            final(self).nodes@.last().internal_links@.len() == 0,
            final(self).nodes@.last().parent is None,
            *final(self) == (NodeTree { nodes: final(self).nodes, ..*old(self) }),
    {
        let id = format_node_id(self.nodes.len());
        let name = node_type.name();
        let node = Node {
            id: id.clone(),
            node_type,
            name,
            location,
            look: C::node_look(),
            hide: false,
            mute: false,
            select: false,
            show_options: true,
            show_preview: false,
            show_texture: false,
            use_custom_color: false,
            inputs: Vec::new(),
            outputs: Vec::new(),
            internal_links: Vec::new(),
            parent: None,
        };
        self.nodes.push(node);
        proof {
            assert(self.nodes@.drop_last() =~= old(self).nodes@);
        }
        id
    }

    /// Links output `from_socket` of node `from_node` to input `to_socket`
    /// of node `to_node`.
    pub fn add_link(&mut self, from_node: &str, from_socket: &str, to_node: &str, to_socket: &str)
        ensures
            final(self).links@.len() == old(self).links@.len() + 1,
            final(self).links@.drop_last() == old(self).links@,
            final(self).links@.last().from_node@ == from_node@,
            final(self).links@.last().from_socket@ == from_socket@,
            final(self).links@.last().to_node@ == to_node@,
            final(self).links@.last().to_socket@ == to_socket@,
            !final(self).links@.last().multi,
            !final(self).links@.last().hide,
            !final(self).links@.last().select,
            *final(self) == (NodeTree { links: final(self).links, ..*old(self) }),
    {
        broadcast use vstd::string::group_string_axioms;
        self.links.push(
            NodeLink {
                from_node: from_node.to_string(),
                from_socket: from_socket.to_string(),
                to_node: to_node.to_string(),
                to_socket: to_socket.to_string(),
                multi: false,
                hide: false,
                select: false,
            },
        );
        proof {
            assert(self.links@.drop_last() =~= old(self).links@);
        }
    }

    /// Removes the link at `index`, if there is one.
    pub fn remove_link(&mut self, index: usize)
        ensures
            index < old(self).links@.len() ==> final(self).links@ == old(self).links@.remove(index as int),
            index >= old(self).links@.len() ==> final(self).links@ == old(self).links@,
            *final(self) == (NodeTree { links: final(self).links, ..*old(self) }),
    {
        if index < self.links.len() {
            self.links.remove(index);
        }
    }

    /// The first node with id `id`.
    pub fn get_node(&self, id: &str) -> (r: Option<&Node<C>>)
        ensures
            match r {
                Some(n) => first_with_id(self.nodes@, id@) < self.nodes@.len() && *n == self.nodes@[first_with_id(
                    self.nodes@,
                    id@,
                )],
                None => first_with_id(self.nodes@, id@) == self.nodes@.len(),
            },
    {
        broadcast use vstd::string::group_string_axioms;
        let key = id.to_string();
        let mut i: usize = 0;
        while i < self.nodes.len()
            invariant
                i <= self.nodes@.len(),
                key@ == id@,
                forall|k: int| 0 <= k < i ==> self.nodes@[k].id@ != id@,
            decreases self.nodes@.len() - i,
        {
            if self.nodes[i].id == key {
                proof {
                    lemma_first_with_id(self.nodes@, id@);
                    assert(first_with_id(self.nodes@, id@) == i);
                }
                return Some(&self.nodes[i]);
            }
            i = i + 1;
        }
        proof {
            lemma_first_with_id(self.nodes@, id@);
        }
        None
    }

    /// The first node with id `id`, to change in place.
    pub fn get_node_mut(&mut self, id: &str) -> (r: Option<&mut Node<C>>)
        ensures
            ({
                let k = first_with_id(old(self).nodes@, id@);
                match r {
                    Some(n) => {
                        &&& k < old(self).nodes@.len()
                        &&& *n == old(self).nodes@[k]
                        &&& final(self).nodes@ == old(self).nodes@.update(k, *final(n))
                    },
                    None => k == old(self).nodes@.len() && final(self).nodes@ == old(self).nodes@,
                }
            }),
            *final(self) == (NodeTree { nodes: final(self).nodes, ..*old(self) }),
    {
        broadcast use vstd::string::group_string_axioms;
        proof {
            lemma_first_with_id(self.nodes@, id@);
        }
        let key = id.to_string();
        let mut i: usize = 0;
        while i < self.nodes.len()
            invariant
                i <= self.nodes@.len(),
                key@ == id@,
                *self == *old(self),
                forall|k: int| 0 <= k < i ==> self.nodes@[k].id@ != id@,
                0 <= first_with_id(self.nodes@, id@) <= self.nodes@.len(),
                first_with_id(self.nodes@, id@) < self.nodes@.len() ==> self.nodes@[first_with_id(
                    self.nodes@,
                    id@,
                )].id@ == id@,
                forall|k: int| 0 <= k < first_with_id(self.nodes@, id@) ==> self.nodes@[k].id@ != id@,
            decreases self.nodes@.len() - i,
        {
            if self.nodes[i].id == key {
                proof {
                    assert(first_with_id(self.nodes@, id@) == i);
                }
                return Some(&mut self.nodes[i]);
            }
            i = i + 1;
        }
        None
    }

    /// Removes the node with id `node_id` (every node with that id) and
    /// every link to or from it.
    pub fn remove_node(&mut self, node_id: &str)
        ensures
            final(self).links@ == old(self).links@.filter(link_kept(node_id@)),
            final(self).nodes@ == old(self).nodes@.filter(node_kept::<C>(node_id@)),
            *final(self) == (NodeTree { links: final(self).links, nodes: final(self).nodes, ..*old(self) }),
    {
        broadcast use vstd::string::group_string_axioms;
        let key = node_id.to_string();
        let mut old_links: Vec<NodeLink> = Vec::new();
        std::mem::swap(&mut old_links, &mut self.links);
        let ghost ol = old_links@;
        proof {
            reveal(Seq::filter);
            assert(ol.take(0).filter(link_kept(node_id@)) =~= self.links@);
        }
        for l in it: old_links
            invariant
                key@ == node_id@,
                it.seq() == ol,
                self.links@ == ol.take(it.index() as int).filter(link_kept(node_id@)),
                *self == (NodeTree { links: self.links, nodes: self.nodes, ..*old(self) }),
                self.nodes == old(self).nodes,
        {
            let ghost pre = self.links@;
            proof {
                assert(ol.take(it.index() + 1).drop_last() =~= ol.take(it.index() as int));
                assert(ol.take(it.index() + 1).last() == l);
            }
            if !(l.from_node == key) && !(l.to_node == key) {
                self.links.push(l);
            }
            proof {
                reveal(Seq::filter);
                let t1 = ol.take(it.index() + 1);
                assert(t1.filter(link_kept(node_id@)) == if link_kept(node_id@)(t1.last()) {
                    t1.drop_last().filter(link_kept(node_id@)).push(t1.last())
                } else {
                    t1.drop_last().filter(link_kept(node_id@))
                });
                assert(self.links@ =~= t1.filter(link_kept(node_id@)));
            }
        }
        proof {
            assert(ol.take(ol.len() as int) =~= ol);
        }
        let ghost kept_links = self.links;
        let mut old_nodes: Vec<Node<C>> = Vec::new();
        std::mem::swap(&mut old_nodes, &mut self.nodes);
        let ghost on = old_nodes@;
        proof {
            reveal(Seq::filter);
            assert(on.take(0).filter(node_kept::<C>(node_id@)) =~= self.nodes@);
        }
        for n in it: old_nodes
            invariant
                key@ == node_id@,
                it.seq() == on,
                self.nodes@ == on.take(it.index() as int).filter(node_kept::<C>(node_id@)),
                *self == (NodeTree { links: kept_links, nodes: self.nodes, ..*old(self) }),
        {
            proof {
                assert(on.take(it.index() + 1).drop_last() =~= on.take(it.index() as int));
                assert(on.take(it.index() + 1).last() == n);
            }
            if !(n.id == key) {
                self.nodes.push(n);
            }
            proof {
                reveal(Seq::filter);
                let t1 = on.take(it.index() + 1);
                assert(t1.filter(node_kept::<C>(node_id@)) == if node_kept::<C>(node_id@)(t1.last()) {
                    t1.drop_last().filter(node_kept::<C>(node_id@)).push(t1.last())
                } else {
                    t1.drop_last().filter(node_kept::<C>(node_id@))
                });
                assert(self.nodes@ =~= t1.filter(node_kept::<C>(node_id@)));
            }
        }
        proof {
            assert(on.take(on.len() as int) =~= on);
        }
    }

    /// The links out of the node with id `node_id`, in order.
    pub fn links_from(&self, node_id: &str) -> (r: Vec<&NodeLink>)
        ensures
            r@.map_values(|l: &NodeLink| *l) == self.links@.filter(|l: NodeLink| l.from_node@ == node_id@),
    {
        broadcast use vstd::string::group_string_axioms;
        let key = node_id.to_string();
        let mut r: Vec<&NodeLink> = Vec::new();
        let mut i: usize = 0;
        proof {
            reveal(Seq::filter);
            assert(self.links@.take(0).filter(|l: NodeLink| l.from_node@ == node_id@) =~= r@.map_values(
                |l: &NodeLink| *l,
            ));
        }
        while i < self.links.len()
            invariant
                i <= self.links@.len(),
                key@ == node_id@,
                r@.map_values(|l: &NodeLink| *l) == self.links@.take(i as int).filter(
                    |l: NodeLink| l.from_node@ == node_id@,
                ),
            decreases self.links@.len() - i,
        {
            let l = &self.links[i];
            let ghost pre = r@;
            if l.from_node == key {
                r.push(l);
            }
            proof {
                reveal(Seq::filter);
                let t1 = self.links@.take(i + 1);
                assert(t1.drop_last() =~= self.links@.take(i as int));
                assert(t1.last() == *l);
                assert(r@.map_values(|l: &NodeLink| *l) =~= t1.filter(|l: NodeLink| l.from_node@ == node_id@));
            }
            i = i + 1;
        }
        proof {
            assert(self.links@.take(i as int) =~= self.links@);
        }
        r
    }

    /// The links into the node with id `node_id`, in order.
    pub fn links_to(&self, node_id: &str) -> (r: Vec<&NodeLink>)
        ensures
            r@.map_values(|l: &NodeLink| *l) == self.links@.filter(|l: NodeLink| l.to_node@ == node_id@),
    {
        broadcast use vstd::string::group_string_axioms;
        let key = node_id.to_string();
        let mut r: Vec<&NodeLink> = Vec::new();
        let mut i: usize = 0;
        proof {
            reveal(Seq::filter);
            assert(self.links@.take(0).filter(|l: NodeLink| l.to_node@ == node_id@) =~= r@.map_values(
                |l: &NodeLink| *l,
            ));
        }
        while i < self.links.len()
            invariant
                i <= self.links@.len(),
                key@ == node_id@,
                r@.map_values(|l: &NodeLink| *l) == self.links@.take(i as int).filter(
                    |l: NodeLink| l.to_node@ == node_id@,
                ),
            decreases self.links@.len() - i,
        {
            let l = &self.links[i];
            if l.to_node == key {
                r.push(l);
            }
            proof {
                reveal(Seq::filter);
                let t1 = self.links@.take(i + 1);
                assert(t1.drop_last() =~= self.links@.take(i as int));
                assert(t1.last() == *l);
                assert(r@.map_values(|l: &NodeLink| *l) =~= t1.filter(|l: NodeLink| l.to_node@ == node_id@));
            }
            i = i + 1;
        }
        proof {
            assert(self.links@.take(i as int) =~= self.links@);
        }
        r
    }

    /// Whether some link ends at input `socket_name` of node `node_id`
    /// (`Input`), or starts at that output (`Output`).
    pub fn is_linked(&self, node_id: &str, socket_name: &str, direction: SocketDirection) -> (b: bool)
        ensures
            b == exists|k: int|
                0 <= k < self.links@.len() && #[trigger] self.links@[k].joins(node_id@, socket_name@, direction),
    {
        broadcast use vstd::string::group_string_axioms;
        let node = node_id.to_string();
        let socket = socket_name.to_string();
        let mut i: usize = 0;
        while i < self.links.len()
            invariant
                i <= self.links@.len(),
                node@ == node_id@,
                socket@ == socket_name@,
                forall|k: int| 0 <= k < i ==> !(#[trigger] self.links@[k].joins(node_id@, socket_name@, direction)),
            decreases self.links@.len() - i,
        {
            let l = &self.links[i];
            let hit = match direction {
                SocketDirection::Input => l.to_node == node && l.to_socket == socket,
                SocketDirection::Output => l.from_node == node && l.from_socket == socket,
            };
            if hit {
                proof {
                    assert(self.links@[i as int].joins(node_id@, socket_name@, direction));
                }
                return true;
            }
            i = i + 1;
        }
        false
    }
}

/// Removing a node removes exactly what touches it: no remaining link
/// starts or ends at the node, no remaining node has its id, and every link
/// and node that did not touch it is still there.
pub proof fn law_remove_node<C: NodeCanvas>(links: Seq<NodeLink>, nodes: Seq<Node<C>>, id: Seq<char>)
    ensures
        forall|k: int|
            0 <= k < links.filter(link_kept(id)).len() ==> !(#[trigger] links.filter(link_kept(id))[k]).touches(id),
        forall|k: int|
            0 <= k < nodes.filter(node_kept::<C>(id)).len() ==> (#[trigger] nodes.filter(node_kept::<C>(id))[k]).id@
                != id,
        forall|k: int|
            0 <= k < links.len() && !(#[trigger] links[k]).touches(id) ==> links.filter(link_kept(id)).contains(
                links[k],
            ),
        forall|k: int|
            0 <= k < nodes.len() && (#[trigger] nodes[k]).id@ != id ==> nodes.filter(node_kept::<C>(id)).contains(
                nodes[k],
            ),
{
    assert forall|k: int| 0 <= k < links.filter(link_kept(id)).len() implies !(#[trigger] links.filter(
        link_kept(id),
    )[k]).touches(id) by {
        links.lemma_filter_pred(link_kept(id), k);
    }
    assert forall|k: int| 0 <= k < nodes.filter(node_kept::<C>(id)).len() implies (#[trigger] nodes.filter(
        node_kept::<C>(id),
    )[k]).id@ != id by {
        nodes.lemma_filter_pred(node_kept::<C>(id), k);
    }
    assert forall|k: int| 0 <= k < links.len() && !(#[trigger] links[k]).touches(id) implies links.filter(
        link_kept(id),
    ).contains(links[k]) by {
        links.lemma_filter_contains(link_kept(id), k);
    }
    assert forall|k: int| 0 <= k < nodes.len() && (#[trigger] nodes[k]).id@ != id implies nodes.filter(
        node_kept::<C>(id),
    ).contains(nodes[k]) by {
        nodes.lemma_filter_contains(node_kept::<C>(id), k);
    }
}

/// Whether a link runs from socket `fs` of node `from` to socket `ts` of
/// node `to`, and is neither multi, hidden nor selected.
pub open spec fn plain_link(l: NodeLink, from: Seq<char>, fs: Seq<char>, to: Seq<char>, ts: Seq<char>) -> bool {
    &&& l.from_node@ == from
    &&& l.from_socket@ == fs
    &&& l.to_node@ == to
    &&& l.to_socket@ == ts
    &&& !l.multi
    &&& !l.hide
    &&& !l.select
}

/// Whether a shader tree named `name` holds nodes of the given types, in
/// order, with the ids they were added under.
pub open spec fn preset_nodes<C: NodeCanvas>(t: NodeTree<C>, name: Seq<char>, types: Seq<NodeType>) -> bool {
    &&& t.name@ == name
    &&& t.tree_type == NodeTreeType::Shader
    &&& t.nodes@.len() == types.len()
    &&& forall|k: int|
        0 <= k < types.len() ==> (#[trigger] t.nodes@[k]).node_type == types[k] && t.nodes@[k].id@ == node_id_for(
            k as nat,
        )
}

impl ShaderNodePresets {
    /// An output fed by a principled BSDF.
    pub fn principled_base<C: NodeCanvas>() -> (t: NodeTree<C>)
        ensures
            preset_nodes(t, "PrincipledBase"@, seq![NodeType::ShaderOutput, NodeType::PrincipledBSDF]),
            t.links@.len() == 1,
            plain_link(t.links@[0], node_id_for(1), "BSDF"@, node_id_for(0), "Surface"@),
    {
        let mut tree = NodeTree::<C>::new("PrincipledBase", NodeTreeType::Shader);
        let output = tree.add_node(NodeType::ShaderOutput, C::point(400, 0));
        let principled = tree.add_node(NodeType::PrincipledBSDF, C::point(0, 0));
        tree.add_link(principled.as_str(), "BSDF", output.as_str(), "Surface");
        proof {
            assert(tree.nodes@[0] == tree.nodes@.drop_last()[0]);
        }
        tree
    }

    /// An output fed by a glass BSDF whose normal comes from the generated
    /// texture coordinates.
    pub fn glass<C: NodeCanvas>() -> (t: NodeTree<C>)
        ensures
            preset_nodes(
                t,
                "Glass"@,
                seq![NodeType::ShaderOutput, NodeType::GlassBSDF, NodeType::TextureCoordinate],
            ),
            t.links@.len() == 2,
            plain_link(t.links@[0], node_id_for(1), "BSDF"@, node_id_for(0), "Surface"@),
            plain_link(t.links@[1], node_id_for(2), "Generated"@, node_id_for(1), "Normal"@),
    {
        let mut tree = NodeTree::<C>::new("Glass", NodeTreeType::Shader);
        let output = tree.add_node(NodeType::ShaderOutput, C::point(400, 0));
        let glass = tree.add_node(NodeType::GlassBSDF, C::point(0, 0));
        let coord = tree.add_node(NodeType::TextureCoordinate, C::point(-400, 0));
        tree.add_link(glass.as_str(), "BSDF", output.as_str(), "Surface");
        tree.add_link(coord.as_str(), "Generated", glass.as_str(), "Normal");
        proof {
            assert(tree.nodes@[0] == tree.nodes@.drop_last().drop_last()[0]);
            assert(tree.nodes@[1] == tree.nodes@.drop_last()[1]);
            assert(tree.links@[0] == tree.links@.drop_last()[0]);
        }
        tree
    }

    /// An output fed by an emission shader.
    pub fn emissive<C: NodeCanvas>() -> (t: NodeTree<C>)
        ensures
            preset_nodes(t, "Emissive"@, seq![NodeType::ShaderOutput, NodeType::Emission]),
            t.links@.len() == 1,
            plain_link(t.links@[0], node_id_for(1), "Emission"@, node_id_for(0), "Surface"@),
    {
        let mut tree = NodeTree::<C>::new("Emissive", NodeTreeType::Shader);
        let output = tree.add_node(NodeType::ShaderOutput, C::point(400, 0));
        let emission = tree.add_node(NodeType::Emission, C::point(0, 0));
        tree.add_link(emission.as_str(), "Emission", output.as_str(), "Surface");
        proof {
            assert(tree.nodes@[0] == tree.nodes@.drop_last()[0]);
        }
        tree
    }

    /// A principled BSDF coloured by a colour ramp over noise of the
    /// generated texture coordinates.
    pub fn procedural_noise<C: NodeCanvas>() -> (t: NodeTree<C>)
        ensures
            preset_nodes(
                t,
                "ProceduralNoise"@,
                seq![
                    NodeType::ShaderOutput,
                    NodeType::PrincipledBSDF,
                    NodeType::NoiseTexture,
                    NodeType::TextureCoordinate,
                    NodeType::ColorRamp,
                ],
            ),
            t.links@.len() == 4,
            plain_link(t.links@[0], node_id_for(1), "BSDF"@, node_id_for(0), "Surface"@),
            plain_link(t.links@[1], node_id_for(3), "Generated"@, node_id_for(2), "Vector"@),
            plain_link(t.links@[2], node_id_for(2), "Color"@, node_id_for(4), "Fac"@),
            plain_link(t.links@[3], node_id_for(4), "Color"@, node_id_for(1), "Base Color"@),
    {
        let mut tree = NodeTree::<C>::new("ProceduralNoise", NodeTreeType::Shader);
        let output = tree.add_node(NodeType::ShaderOutput, C::point(600, 0));
        let ghost n0 = tree.nodes@;
        let principled = tree.add_node(NodeType::PrincipledBSDF, C::point(200, 0));
        let ghost n1 = tree.nodes@;
        let noise = tree.add_node(NodeType::NoiseTexture, C::point(-200, 0));
        let ghost n2 = tree.nodes@;
        let coord = tree.add_node(NodeType::TextureCoordinate, C::point(-600, 0));
        let ghost n3 = tree.nodes@;
        let color_ramp = tree.add_node(NodeType::ColorRamp, C::point(0, 0));
        tree.add_link(principled.as_str(), "BSDF", output.as_str(), "Surface");
        let ghost l0 = tree.links@;
        tree.add_link(coord.as_str(), "Generated", noise.as_str(), "Vector");
        let ghost l1 = tree.links@;
        tree.add_link(noise.as_str(), "Color", color_ramp.as_str(), "Fac");
        let ghost l2 = tree.links@;
        tree.add_link(color_ramp.as_str(), "Color", principled.as_str(), "Base Color");
        proof {
            assert(tree.nodes@[0] == n0[0]);
            assert(tree.nodes@[1] == n1[1]);
            assert(tree.nodes@[2] == n2[2]);
            assert(tree.nodes@[3] == n3[3]);
            assert(tree.links@[0] == l0[0]);
            assert(tree.links@[1] == l1[1]);
            assert(tree.links@[2] == l2[2]);
        }
        tree
    }
}

spec fn type_named_3(n: Seq<char>) -> NodeType {
    if n == "RGB"@ {
        NodeType::RGB
    } else {
        NodeType::ShaderOutput
    }
}

spec fn type_named_4(n: Seq<char>) -> NodeType {
    if n[1] == 'a' {
        if n == "Math"@ {
            NodeType::Math
        } else {
            NodeType::ShaderOutput
        }
    } else if n[1] == 'u' {
        if n == "Bump"@ {
            NodeType::Bump
        } else {
            NodeType::ShaderOutput
        }
    } else {
        if n == "Blur"@ {
            NodeType::Blur
        } else {
            NodeType::ShaderOutput
        }
    }
}

spec fn type_named_5(n: Seq<char>) -> NodeType {
    if n[2] == 'l' {
        if n == "Value"@ {
            NodeType::Value
        } else {
            NodeType::ShaderOutput
        }
    } else if n[2] == 'm' {
        if n == "Gamma"@ {
            NodeType::Gamma
        } else {
            NodeType::ShaderOutput
        }
    } else {
        if n == "Glare"@ {
            NodeType::Glare
        } else {
            NodeType::ShaderOutput
        }
    }
}

spec fn type_named_6(n: Seq<char>) -> NodeType {
    if n[0] == 'N' {
        if n == "Normal"@ {
            NodeType::Normal
        } else {
            NodeType::ShaderOutput
        }
    } else if n[0] == 'I' {
        if n == "Invert"@ {
            NodeType::Invert
        } else {
            NodeType::ShaderOutput
        }
    } else if n[0] == 'V' {
        if n == "Viewer"@ {
            NodeType::Viewer
        } else {
            NodeType::ShaderOutput
        }
    } else if n[0] == 'L' {
        if n == "Levels"@ {
            NodeType::Levels
        } else {
            NodeType::ShaderOutput
        }
    } else if n[0] == 'F' {
        if n == "Filter"@ {
            NodeType::Filter
        } else {
            NodeType::ShaderOutput
        }
    } else {
        if n == "MathOr"@ {
            NodeType::MathOr
        } else {
            NodeType::ShaderOutput
        }
    }
}

spec fn type_named_7(n: Seq<char>) -> NodeType {
    if n[4] == 'i' {
        if n[0] == 'M' {
            if n == "Mapping"@ {
                NodeType::Mapping
            } else {
                NodeType::ShaderOutput
            }
        } else {
            if n == "Combine"@ {
                NodeType::Combine
            } else {
                NodeType::ShaderOutput
            }
        }
    } else if n[4] == 'n' {
        if n == "Fresnel"@ {
            NodeType::Fresnel
        } else {
            NodeType::ShaderOutput
        }
    } else if n[4] == 'c' {
        if n == "Defocus"@ {
            NodeType::Defocus
        } else {
            NodeType::ShaderOutput
        }
    } else if n[4] == 'A' {
        if n[5] == 'd' {
            if n == "MathAdd"@ {
                NodeType::MathAdd
            } else {
                NodeType::ShaderOutput
            }
        } else {
            if n == "MathAnd"@ {
                NodeType::MathAnd
            } else {
                NodeType::ShaderOutput
            }
        }
    } else if n[4] == 'E' {
        if n == "MathExp"@ {
            NodeType::MathExp
        } else {
            NodeType::ShaderOutput
        }
    } else if n[4] == 'S' {
        if n == "MathSin"@ {
            NodeType::MathSin
        } else {
            NodeType::ShaderOutput
        }
    } else if n[4] == 'C' {
        if n == "MathCos"@ {
            NodeType::MathCos
        } else {
            NodeType::ShaderOutput
        }
    } else if n[4] == 'T' {
        if n == "MathTan"@ {
            NodeType::MathTan
        } else {
            NodeType::ShaderOutput
        }
    } else if n[4] == 'M' {
        if n[5] == 'i' {
            if n[6] == 'n' {
                if n == "MathMin"@ {
                    NodeType::MathMin
                } else {
                    NodeType::ShaderOutput
                }
            } else {
                if n == "MathMix"@ {
                    NodeType::MathMix
                } else {
                    NodeType::ShaderOutput
                }
            }
        } else {
            if n == "MathMax"@ {
                NodeType::MathMax
            } else {
                NodeType::ShaderOutput
            }
        }
    } else if n[4] == 'N' {
        if n == "MathNot"@ {
            NodeType::MathNot
        } else {
            NodeType::ShaderOutput
        }
    } else {
        if n == "MathXor"@ {
            NodeType::MathXor
        } else {
            NodeType::ShaderOutput
        }
    }
}

spec fn type_named_8(n: Seq<char>) -> NodeType {
    if n[6] == 'o' {
        if n == "Emission"@ {
            NodeType::Emission
        } else {
            NodeType::ShaderOutput
        }
    } else if n[6] == 'D' {
        if n[0] == 'T' {
            if n == "ToonBSDF"@ {
                NodeType::ToonBSDF
            } else {
                NodeType::ShaderOutput
            }
        } else {
            if n == "HairBSDF"@ {
                NodeType::HairBSDF
            } else {
                NodeType::ShaderOutput
            }
        }
    } else if n[6] == 't' {
        if n == "Separate"@ {
            NodeType::Separate
        } else {
            NodeType::ShaderOutput
        }
    } else if n[6] == 'G' {
        if n == "CurveRGB"@ {
            NodeType::CurveRGB
        } else {
            NodeType::ShaderOutput
        }
    } else if n[6] == 'g' {
        if n[2] == 'p' {
            if n == "MapRange"@ {
                NodeType::MapRange
            } else {
                NodeType::ShaderOutput
            }
        } else {
            if n == "MathSign"@ {
                NodeType::MathSign
            } else {
                NodeType::ShaderOutput
            }
        }
    } else if n[6] == 'u' {
        if n == "MapValue"@ {
            NodeType::MapValue
        } else {
            NodeType::ShaderOutput
        }
    } else if n[6] == 'r' {
        if n == "MathSqrt"@ {
            NodeType::MathSqrt
        } else {
            NodeType::ShaderOutput
        }
    } else if n[6] == 'i' {
        if n == "MathCeil"@ {
            NodeType::MathCeil
        } else {
            NodeType::ShaderOutput
        }
    } else {
        if n == "MathNand"@ {
            NodeType::MathNand
        } else {
            NodeType::ShaderOutput
        }
    }
}

spec fn type_named_9(n: Seq<char>) -> NodeType {
    if n[4] == 's' {
        if n == "GlassBSDF"@ {
            NodeType::GlassBSDF
        } else {
            NodeType::ShaderOutput
        }
    } else if n[4] == 'h' {
        if n[0] == 'M' {
            if n == "MixShader"@ {
                NodeType::MixShader
            } else {
                NodeType::ShaderOutput
            }
        } else {
            if n == "AddShader"@ {
                NodeType::AddShader
            } else {
                NodeType::ShaderOutput
            }
        }
    } else if n[4] == 'f' {
        if n == "Wireframe"@ {
            NodeType::Wireframe
        } else {
            NodeType::ShaderOutput
        }
    } else if n[4] == 'a' {
        if n[6] == 'M' {
            if n == "NormalMap"@ {
                NodeType::NormalMap
            } else {
                NodeType::ShaderOutput
            }
        } else if n[6] == 'o' {
            if n == "GammaNode"@ {
                NodeType::GammaNode
            } else {
                NodeType::ShaderOutput
            }
        } else {
            if n == "Normalize"@ {
                NodeType::Normalize
            } else {
                NodeType::ShaderOutput
            }
        }
    } else if n[4] == 'r' {
        if n == "ColorRamp"@ {
            NodeType::ColorRamp
        } else {
            NodeType::ShaderOutput
        }
    } else if n[4] == 'o' {
        if n == "Composite"@ {
            NodeType::Composite
        } else {
            NodeType::ShaderOutput
        }
    } else if n[4] == 'P' {
        if n == "MathPower"@ {
            NodeType::MathPower
        } else {
            NodeType::ShaderOutput
        }
    } else if n[4] == 'R' {
        if n == "MathRound"@ {
            NodeType::MathRound
        } else {
            NodeType::ShaderOutput
        }
    } else if n[4] == 'F' {
        if n[5] == 'l' {
            if n == "MathFloor"@ {
                NodeType::MathFloor
            } else {
                NodeType::ShaderOutput
            }
        } else {
            if n == "MathFract"@ {
                NodeType::MathFract
            } else {
                NodeType::ShaderOutput
            }
        }
    } else if n[4] == 'C' {
        if n == "MathClamp"@ {
            NodeType::MathClamp
        } else {
            NodeType::ShaderOutput
        }
    } else {
        if n == "MathEqual"@ {
            NodeType::MathEqual
        } else {
            NodeType::ShaderOutput
        }
    }
}

spec fn type_named_10(n: Seq<char>) -> NodeType {
    if n[8] == 'D' {
        if n[0] == 'G' {
            if n == "GlossyBSDF"@ {
                NodeType::GlossyBSDF
            } else {
                NodeType::ShaderOutput
            }
        } else {
            if n == "VelvetBSDF"@ {
                NodeType::VelvetBSDF
            } else {
                NodeType::ShaderOutput
            }
        }
    } else if n[8] == 'n' {
        if n == "Background"@ {
            NodeType::Background
        } else {
            NodeType::ShaderOutput
        }
    } else if n[8] == 't' {
        if n[0] == 'V' {
            if n == "VectorMath"@ {
                NodeType::VectorMath
            } else {
                NodeType::ShaderOutput
            }
        } else {
            if n == "CameraData"@ {
                NodeType::CameraData
            } else {
                NodeType::ShaderOutput
            }
        }
    } else if n[8] == 'f' {
        if n == "ObjectInfo"@ {
            NodeType::ObjectInfo
        } else {
            NodeType::ShaderOutput
        }
    } else if n[8] == 'G' {
        if n == "CombineRGB"@ {
            NodeType::CombineRGB
        } else {
            NodeType::ShaderOutput
        }
    } else if n[8] == 'Y' {
        if n == "CombineXYZ"@ {
            NodeType::CombineXYZ
        } else {
            NodeType::ShaderOutput
        }
    } else if n[8] == 'S' {
        if n == "CombineHSV"@ {
            NodeType::CombineHSV
        } else {
            NodeType::ShaderOutput
        }
    } else if n[8] == 'r' {
        if n == "SkyTexture"@ {
            NodeType::SkyTexture
        } else {
            NodeType::ShaderOutput
        }
    } else if n[8] == 'u' {
        if n == "FileOutput"@ {
            NodeType::FileOutput
        } else {
            NodeType::ShaderOutput
        }
    } else if n[8] == 'd' {
        if n[0] == 'I' {
            if n == "InvertNode"@ {
                NodeType::InvertNode
            } else {
                NodeType::ShaderOutput
            }
        } else {
            if n == "MathDivide"@ {
                NodeType::MathDivide
            } else {
                NodeType::ShaderOutput
            }
        }
    } else if n[8] == 'i' {
        if n == "MathArcsin"@ {
            NodeType::MathArcsin
        } else {
            NodeType::ShaderOutput
        }
    } else if n[8] == 'o' {
        if n == "MathArccos"@ {
            NodeType::MathArccos
        } else {
            NodeType::ShaderOutput
        }
    } else if n[8] == 'a' {
        if n == "MathArctan"@ {
            NodeType::MathArctan
        } else {
            NodeType::ShaderOutput
        }
    } else {
        if n == "MathModulo"@ {
            NodeType::MathModulo
        } else {
            NodeType::ShaderOutput
        }
    }
}

spec fn type_named_11(n: Seq<char>) -> NodeType {
    if n[9] == 'D' {
        if n == "DiffuseBSDF"@ {
            NodeType::DiffuseBSDF
        } else {
            NodeType::ShaderOutput
        }
    } else if n[9] == 'h' {
        if n == "LayerWeight"@ {
            NodeType::LayerWeight
        } else {
            NodeType::ShaderOutput
        }
    } else if n[9] == 'G' {
        if n == "SeparateRGB"@ {
            NodeType::SeparateRGB
        } else {
            NodeType::ShaderOutput
        }
    } else if n[9] == 'Y' {
        if n == "SeparateXYZ"@ {
            NodeType::SeparateXYZ
        } else {
            NodeType::ShaderOutput
        }
    } else if n[9] == 'S' {
        if n == "SeparateHSV"@ {
            NodeType::SeparateHSV
        } else {
            NodeType::ShaderOutput
        }
    } else if n[9] == 'r' {
        if n[0] == 'W' {
            if n == "WaveTexture"@ {
                NodeType::WaveTexture
            } else {
                NodeType::ShaderOutput
            }
        } else {
            if n == "MathCompare"@ {
                NodeType::MathCompare
            } else {
                NodeType::ShaderOutput
            }
        }
    } else if n[9] == 'e' {
        if n == "GeometrySet"@ {
            NodeType::GeometrySet
        } else {
            NodeType::ShaderOutput
        }
    } else {
        if n == "MathArctan2"@ {
            NodeType::MathArctan2
        } else {
            NodeType::ShaderOutput
        }
    }
}

spec fn type_named_12(n: Seq<char>) -> NodeType {
    if n[3] == 'd' {
        if n == "ShaderOutput"@ {
            NodeType::ShaderOutput
        } else {
            NodeType::ShaderOutput
        }
    } else if n[3] == 'm' {
        if n == "GeometryInfo"@ {
            NodeType::GeometryInfo
        } else {
            NodeType::ShaderOutput
        }
    } else if n[3] == 'p' {
        if n == "Displacement"@ {
            NodeType::Displacement
        } else {
            NodeType::ShaderOutput
        }
    } else if n[3] == 'g' {
        if n == "ImageTexture"@ {
            NodeType::ImageTexture
        } else {
            NodeType::ShaderOutput
        }
    } else if n[3] == 'c' {
        if n == "BrickTexture"@ {
            NodeType::BrickTexture
        } else {
            NodeType::ShaderOutput
        }
    } else if n[3] == 'i' {
        if n == "MagicTexture"@ {
            NodeType::MagicTexture
        } else {
            NodeType::ShaderOutput
        }
    } else if n[3] == 's' {
        if n == "NoiseTexture"@ {
            NodeType::NoiseTexture
        } else {
            NodeType::ShaderOutput
        }
    } else if n[3] == 'n' {
        if n == "PointDensity"@ {
            NodeType::PointDensity
        } else {
            NodeType::ShaderOutput
        }
    } else if n[3] == 'o' {
        if n == "ColorBalance"@ {
            NodeType::ColorBalance
        } else {
            NodeType::ShaderOutput
        }
    } else {
        if n[4] == 'S' {
            if n == "MathSubtract"@ {
                NodeType::MathSubtract
            } else {
                NodeType::ShaderOutput
            }
        } else if n[4] == 'M' {
            if n == "MathMultiply"@ {
                NodeType::MathMultiply
            } else {
                NodeType::ShaderOutput
            }
        } else if n[4] == 'L' {
            if n == "MathLessThan"@ {
                NodeType::MathLessThan
            } else {
                NodeType::ShaderOutput
            }
        } else {
            if n == "MathNotEqual"@ {
                NodeType::MathNotEqual
            } else {
                NodeType::ShaderOutput
            }
        }
    }
}

spec fn type_named_13(n: Seq<char>) -> NodeType {
    if n[11] == 'e' {
        if n == "VolumeScatter"@ {
            NodeType::VolumeScatter
        } else {
            NodeType::ShaderOutput
        }
    } else if n[11] == 'o' {
        if n == "HueSaturation"@ {
            NodeType::HueSaturation
        } else {
            NodeType::ShaderOutput
        }
    } else if n[11] == 'u' {
        if n == "GeometryInput"@ {
            NodeType::GeometryInput
        } else {
            NodeType::ShaderOutput
        }
    } else if n[11] == 'h' {
        if n == "MathLogarithm"@ {
            NodeType::MathLogarithm
        } else {
            NodeType::ShaderOutput
        }
    } else if n[11] == 'i' {
        if n == "MathSmoothMin"@ {
            NodeType::MathSmoothMin
        } else {
            NodeType::ShaderOutput
        }
    } else {
        if n == "MathSmoothMax"@ {
            NodeType::MathSmoothMax
        } else {
            NodeType::ShaderOutput
        }
    }
}

spec fn type_named_14(n: Seq<char>) -> NodeType {
    if n[0] == 'P' {
        if n == "PrincipledBSDF"@ {
            NodeType::PrincipledBSDF
        } else {
            NodeType::ShaderOutput
        }
    } else if n[0] == 'R' {
        if n == "RefractionBSDF"@ {
            NodeType::RefractionBSDF
        } else {
            NodeType::ShaderOutput
        }
    } else if n[0] == 'B' {
        if n == "BrightContrast"@ {
            NodeType::BrightContrast
        } else {
            NodeType::ShaderOutput
        }
    } else if n[0] == 'C' {
        if n == "CheckerTexture"@ {
            NodeType::CheckerTexture
        } else {
            NodeType::ShaderOutput
        }
    } else if n[0] == 'V' {
        if n == "VoronoiTexture"@ {
            NodeType::VoronoiTexture
        } else {
            NodeType::ShaderOutput
        }
    } else if n[0] == 'N' {
        if n == "NodeGroupInput"@ {
            NodeType::NodeGroupInput
        } else {
            NodeType::ShaderOutput
        }
    } else if n[0] == 'L' {
        if n == "LensDistortion"@ {
            NodeType::LensDistortion
        } else {
            NodeType::ShaderOutput
        }
    } else {
        if n == "GeometryOutput"@ {
            NodeType::GeometryOutput
        } else {
            NodeType::ShaderOutput
        }
    }
}

spec fn type_named_15(n: Seq<char>) -> NodeType {
    if n[2] == 'a' {
        if n[5] == 'p' {
            if n == "TransparentBSDF"@ {
                NodeType::TransparentBSDF
            } else {
                NodeType::ShaderOutput
            }
        } else if n[5] == 'l' {
            if n == "TranslucentBSDF"@ {
                NodeType::TranslucentBSDF
            } else {
                NodeType::ShaderOutput
            }
        } else {
            if n == "GradientTexture"@ {
                NodeType::GradientTexture
            } else {
                NodeType::ShaderOutput
            }
        }
    } else if n[2] == 'i' {
        if n == "AnisotropicBSDF"@ {
            NodeType::AnisotropicBSDF
        } else {
            NodeType::ShaderOutput
        }
    } else if n[2] == 'j' {
        if n == "ObjectInfoFloat"@ {
            NodeType::ObjectInfoFloat
        } else {
            NodeType::ShaderOutput
        }
    } else if n[2] == 'c' {
        if n == "VectorTransform"@ {
            NodeType::VectorTransform
        } else {
            NodeType::ShaderOutput
        }
    } else if n[2] == 's' {
        if n == "MusgraveTexture"@ {
            NodeType::MusgraveTexture
        } else {
            NodeType::ShaderOutput
        }
    } else if n[2] == 'd' {
        if n == "NodeGroupOutput"@ {
            NodeType::NodeGroupOutput
        } else {
            NodeType::ShaderOutput
        }
    } else if n[2] == 'l' {
        if n == "ColorCorrection"@ {
            NodeType::ColorCorrection
        } else {
            NodeType::ShaderOutput
        }
    } else if n[2] == 'o' {
        if n == "GeometryRaycast"@ {
            NodeType::GeometryRaycast
        } else {
            NodeType::ShaderOutput
        }
    } else {
        if n == "MathGreaterThan"@ {
            NodeType::MathGreaterThan
        } else {
            NodeType::ShaderOutput
        }
    }
}

spec fn type_named_16(n: Seq<char>) -> NodeType {
    if n[6] == 'A' {
        if n == "VolumeAbsorption"@ {
            NodeType::VolumeAbsorption
        } else {
            NodeType::ShaderOutput
        }
    } else {
        if n == "VolumePrincipled"@ {
            NodeType::VolumePrincipled
        } else {
            NodeType::ShaderOutput
        }
    }
}

spec fn type_named_17(n: Seq<char>) -> NodeType {
    if n[8] == 'o' {
        if n == "TextureCoordinate"@ {
            NodeType::TextureCoordinate
        } else {
            NodeType::ShaderOutput
        }
    } else if n[8] == 's' {
        if n == "WhiteNoiseTexture"@ {
            NodeType::WhiteNoiseTexture
        } else {
            NodeType::ShaderOutput
        }
    } else if n[8] == 'T' {
        if n == "GeometryTransform"@ {
            NodeType::GeometryTransform
        } else {
            NodeType::ShaderOutput
        }
    } else {
        if n == "GeometryFillCurve"@ {
            NodeType::GeometryFillCurve
        } else {
            NodeType::ShaderOutput
        }
    }
}

spec fn type_named_18(n: Seq<char>) -> NodeType {
    if n[0] == 'V' {
        if n == "VectorDisplacement"@ {
            NodeType::VectorDisplacement
        } else {
            NodeType::ShaderOutput
        }
    } else {
        if n == "EnvironmentTexture"@ {
            NodeType::EnvironmentTexture
        } else {
            NodeType::ShaderOutput
        }
    }
}

spec fn type_named_19(n: Seq<char>) -> NodeType {
    if n[11] == 'v' {
        if n == "GeometryCurveToMesh"@ {
            NodeType::GeometryCurveToMesh
        } else {
            NodeType::ShaderOutput
        }
    } else if n[11] == 'h' {
        if n == "GeometryMeshToCurve"@ {
            NodeType::GeometryMeshToCurve
        } else {
            NodeType::ShaderOutput
        }
    } else if n[11] == 'r' {
        if n == "GeometryExtrudeMesh"@ {
            NodeType::GeometryExtrudeMesh
        } else {
            NodeType::ShaderOutput
        }
    } else if n[11] == 'P' {
        if n == "GeometrySetPosition"@ {
            NodeType::GeometrySetPosition
        } else {
            NodeType::ShaderOutput
        }
    } else {
        if n == "GeometrySampleIndex"@ {
            NodeType::GeometrySampleIndex
        } else {
            NodeType::ShaderOutput
        }
    }
}

spec fn type_named_20(n: Seq<char>) -> NodeType {
    if n[8] == 'c' {
        if n == "SubsurfaceScattering"@ {
            NodeType::SubsurfaceScattering
        } else {
            NodeType::ShaderOutput
        }
    } else if n[8] == 'a' {
        if n == "HueSaturationCorrect"@ {
            NodeType::HueSaturationCorrect
        } else {
            NodeType::ShaderOutput
        }
    } else if n[8] == 'J' {
        if n == "GeometryJoinGeometry"@ {
            NodeType::GeometryJoinGeometry
        } else {
            NodeType::ShaderOutput
        }
    } else if n[8] == 'M' {
        if n == "GeometryMeshToPoints"@ {
            NodeType::GeometryMeshToPoints
        } else {
            NodeType::ShaderOutput
        }
    } else if n[8] == 'P' {
        if n == "GeometryPointsToMesh"@ {
            NodeType::GeometryPointsToMesh
        } else {
            NodeType::ShaderOutput
        }
    } else {
        if n == "GeometryFieldAtIndex"@ {
            NodeType::GeometryFieldAtIndex
        } else {
            NodeType::ShaderOutput
        }
    }
}

spec fn type_named_21(n: Seq<char>) -> NodeType {
    if n[9] == 'u' {
        if n == "GeometrySubdivideMesh"@ {
            NodeType::GeometrySubdivideMesh
        } else {
            NodeType::ShaderOutput
        }
    } else if n[9] == 'e' {
        if n == "GeometryResampleCurve"@ {
            NodeType::GeometryResampleCurve
        } else {
            NodeType::ShaderOutput
        }
    } else if n[9] == 'c' {
        if n == "GeometryScaleElements"@ {
            NodeType::GeometryScaleElements
        } else {
            NodeType::ShaderOutput
        }
    } else {
        if n == "GeometrySampleNearest"@ {
            NodeType::GeometrySampleNearest
        } else {
            NodeType::ShaderOutput
        }
    }
}

spec fn type_named_22(n: Seq<char>) -> NodeType {
    if n == "GeometrySubdivideCurve"@ {
        NodeType::GeometrySubdivideCurve
    } else {
        NodeType::ShaderOutput
    }
}

spec fn type_named_23(n: Seq<char>) -> NodeType {
    if n == "GeometryInstanceOnFaces"@ {
        NodeType::GeometryInstanceOnFaces
    } else {
        NodeType::ShaderOutput
    }
}

spec fn type_named_24(n: Seq<char>) -> NodeType {
    if n[8] == 'S' {
        if n == "GeometrySeparateGeometry"@ {
            NodeType::GeometrySeparateGeometry
        } else {
            NodeType::ShaderOutput
        }
    } else if n[8] == 'I' {
        if n == "GeometryInstanceOnPoints"@ {
            NodeType::GeometryInstanceOnPoints
        } else {
            NodeType::ShaderOutput
        }
    } else {
        if n == "GeometryCaptureAttribute"@ {
            NodeType::GeometryCaptureAttribute
        } else {
            NodeType::ShaderOutput
        }
    }
}

spec fn type_named_25(n: Seq<char>) -> NodeType {
    if n == "GeometryTransformGeometry"@ {
        NodeType::GeometryTransformGeometry
    } else {
        NodeType::ShaderOutput
    }
}

spec fn type_named_27(n: Seq<char>) -> NodeType {
    if n == "GeometryInterpolateGeometry"@ {
        NodeType::GeometryInterpolateGeometry
    } else {
        NodeType::ShaderOutput
    }
}

spec fn type_named_28(n: Seq<char>) -> NodeType {
    if n == "GeometrySampleNearestSurface"@ {
        NodeType::GeometrySampleNearestSurface
    } else {
        NodeType::ShaderOutput
    }
}

/// The node type a name of the given length picks out by its characters.
spec fn type_named(n: Seq<char>) -> NodeType {
    if n.len() == 3 {
        type_named_3(n)
    } else if n.len() == 4 {
        type_named_4(n)
    } else if n.len() == 5 {
        type_named_5(n)
    } else if n.len() == 6 {
        type_named_6(n)
    } else if n.len() == 7 {
        type_named_7(n)
    } else if n.len() == 8 {
        type_named_8(n)
    } else if n.len() == 9 {
        type_named_9(n)
    } else if n.len() == 10 {
        type_named_10(n)
    } else if n.len() == 11 {
        type_named_11(n)
    } else if n.len() == 12 {
        type_named_12(n)
    } else if n.len() == 13 {
        type_named_13(n)
    } else if n.len() == 14 {
        type_named_14(n)
    } else if n.len() == 15 {
        type_named_15(n)
    } else if n.len() == 16 {
        type_named_16(n)
    } else if n.len() == 17 {
        type_named_17(n)
    } else if n.len() == 18 {
        type_named_18(n)
    } else if n.len() == 19 {
        type_named_19(n)
    } else if n.len() == 20 {
        type_named_20(n)
    } else if n.len() == 21 {
        type_named_21(n)
    } else if n.len() == 22 {
        type_named_22(n)
    } else if n.len() == 23 {
        type_named_23(n)
    } else if n.len() == 24 {
        type_named_24(n)
    } else if n.len() == 25 {
        type_named_25(n)
    } else if n.len() == 27 {
        type_named_27(n)
    } else if n.len() == 28 {
        type_named_28(n)
    } else {
        NodeType::ShaderOutput
    }
}

proof fn lemma_type_named(t: NodeType)
    ensures
        type_named(t.spec_name()) == t,
{
    match t {
        NodeType::ShaderOutput => {
            reveal_strlit("ShaderOutput");
        },
        NodeType::PrincipledBSDF => {
            reveal_strlit("PrincipledBSDF");
        },
        NodeType::DiffuseBSDF => {
            reveal_strlit("DiffuseBSDF");
        },
        NodeType::GlossyBSDF => {
            reveal_strlit("GlossyBSDF");
        },
        NodeType::GlassBSDF => {
            reveal_strlit("GlassBSDF");
        },
        NodeType::Emission => {
            reveal_strlit("Emission");
        },
        NodeType::TransparentBSDF => {
            reveal_strlit("TransparentBSDF");
        },
        NodeType::RefractionBSDF => {
            reveal_strlit("RefractionBSDF");
        },
        NodeType::TranslucentBSDF => {
            reveal_strlit("TranslucentBSDF");
        },
        NodeType::VelvetBSDF => {
            reveal_strlit("VelvetBSDF");
        },
        NodeType::AnisotropicBSDF => {
            reveal_strlit("AnisotropicBSDF");
        },
        NodeType::SubsurfaceScattering => {
            reveal_strlit("SubsurfaceScattering");
        },
        NodeType::ToonBSDF => {
            reveal_strlit("ToonBSDF");
        },
        NodeType::HairBSDF => {
            reveal_strlit("HairBSDF");
        },
        NodeType::VolumeScatter => {
            reveal_strlit("VolumeScatter");
        },
        NodeType::VolumeAbsorption => {
            reveal_strlit("VolumeAbsorption");
        },
        NodeType::VolumePrincipled => {
            reveal_strlit("VolumePrincipled");
        },
        NodeType::Background => {
            reveal_strlit("Background");
        },
        NodeType::MixShader => {
            reveal_strlit("MixShader");
        },
        NodeType::AddShader => {
            reveal_strlit("AddShader");
        },
        NodeType::Math => {
            reveal_strlit("Math");
        },
        NodeType::VectorMath => {
            reveal_strlit("VectorMath");
        },
        NodeType::Mapping => {
            reveal_strlit("Mapping");
        },
        NodeType::TextureCoordinate => {
            reveal_strlit("TextureCoordinate");
        },
        NodeType::ObjectInfo => {
            reveal_strlit("ObjectInfo");
        },
        NodeType::ObjectInfoFloat => {
            reveal_strlit("ObjectInfoFloat");
        },
        NodeType::GeometryInfo => {
            reveal_strlit("GeometryInfo");
        },
        NodeType::CameraData => {
            reveal_strlit("CameraData");
        },
        NodeType::Fresnel => {
            reveal_strlit("Fresnel");
        },
        NodeType::LayerWeight => {
            reveal_strlit("LayerWeight");
        },
        NodeType::Wireframe => {
            reveal_strlit("Wireframe");
        },
        NodeType::Normal => {
            reveal_strlit("Normal");
        },
        NodeType::NormalMap => {
            reveal_strlit("NormalMap");
        },
        NodeType::Bump => {
            reveal_strlit("Bump");
        },
        NodeType::Displacement => {
            reveal_strlit("Displacement");
        },
        NodeType::VectorDisplacement => {
            reveal_strlit("VectorDisplacement");
        },
        NodeType::VectorTransform => {
            reveal_strlit("VectorTransform");
        },
        NodeType::RGB => {
            reveal_strlit("RGB");
        },
        NodeType::Value => {
            reveal_strlit("Value");
        },
        NodeType::HueSaturation => {
            reveal_strlit("HueSaturation");
        },
        NodeType::Gamma => {
            reveal_strlit("Gamma");
        },
        NodeType::BrightContrast => {
            reveal_strlit("BrightContrast");
        },
        NodeType::Invert => {
            reveal_strlit("Invert");
        },
        NodeType::GammaNode => {
            reveal_strlit("GammaNode");
        },
        NodeType::ColorRamp => {
            reveal_strlit("ColorRamp");
        },
        NodeType::SeparateRGB => {
            reveal_strlit("SeparateRGB");
        },
        NodeType::CombineRGB => {
            reveal_strlit("CombineRGB");
        },
        NodeType::SeparateXYZ => {
            reveal_strlit("SeparateXYZ");
        },
        NodeType::CombineXYZ => {
            reveal_strlit("CombineXYZ");
        },
        NodeType::SeparateHSV => {
            reveal_strlit("SeparateHSV");
        },
        NodeType::CombineHSV => {
            reveal_strlit("CombineHSV");
        },
        NodeType::ImageTexture => {
            reveal_strlit("ImageTexture");
        },
        NodeType::EnvironmentTexture => {
            reveal_strlit("EnvironmentTexture");
        },
        NodeType::BrickTexture => {
            reveal_strlit("BrickTexture");
        },
        NodeType::CheckerTexture => {
            reveal_strlit("CheckerTexture");
        },
        NodeType::GradientTexture => {
            reveal_strlit("GradientTexture");
        },
        NodeType::MagicTexture => {
            reveal_strlit("MagicTexture");
        },
        NodeType::MusgraveTexture => {
            reveal_strlit("MusgraveTexture");
        },
        NodeType::NoiseTexture => {
            reveal_strlit("NoiseTexture");
        },
        NodeType::VoronoiTexture => {
            reveal_strlit("VoronoiTexture");
        },
        NodeType::WaveTexture => {
            reveal_strlit("WaveTexture");
        },
        NodeType::WhiteNoiseTexture => {
            reveal_strlit("WhiteNoiseTexture");
        },
        NodeType::PointDensity => {
            reveal_strlit("PointDensity");
        },
        NodeType::SkyTexture => {
            reveal_strlit("SkyTexture");
        },
        NodeType::Combine => {
            reveal_strlit("Combine");
        },
        NodeType::Separate => {
            reveal_strlit("Separate");
        },
        NodeType::NodeGroupInput => {
            reveal_strlit("NodeGroupInput");
        },
        NodeType::NodeGroupOutput => {
            reveal_strlit("NodeGroupOutput");
        },
        NodeType::Viewer => {
            reveal_strlit("Viewer");
        },
        NodeType::Composite => {
            reveal_strlit("Composite");
        },
        NodeType::FileOutput => {
            reveal_strlit("FileOutput");
        },
        NodeType::Levels => {
            reveal_strlit("Levels");
        },
        NodeType::ColorBalance => {
            reveal_strlit("ColorBalance");
        },
        NodeType::ColorCorrection => {
            reveal_strlit("ColorCorrection");
        },
        NodeType::CurveRGB => {
            reveal_strlit("CurveRGB");
        },
        NodeType::HueSaturationCorrect => {
            reveal_strlit("HueSaturationCorrect");
        },
        NodeType::InvertNode => {
            reveal_strlit("InvertNode");
        },
        NodeType::Normalize => {
            reveal_strlit("Normalize");
        },
        NodeType::MapRange => {
            reveal_strlit("MapRange");
        },
        NodeType::MapValue => {
            reveal_strlit("MapValue");
        },
        NodeType::Blur => {
            reveal_strlit("Blur");
        },
        NodeType::Defocus => {
            reveal_strlit("Defocus");
        },
        NodeType::Glare => {
            reveal_strlit("Glare");
        },
        NodeType::LensDistortion => {
            reveal_strlit("LensDistortion");
        },
        NodeType::Filter => {
            reveal_strlit("Filter");
        },
        NodeType::GeometryInput => {
            reveal_strlit("GeometryInput");
        },
        NodeType::GeometryOutput => {
            reveal_strlit("GeometryOutput");
        },
        NodeType::GeometryTransform => {
            reveal_strlit("GeometryTransform");
        },
        NodeType::GeometrySet => {
            reveal_strlit("GeometrySet");
        },
        NodeType::GeometrySeparateGeometry => {
            reveal_strlit("GeometrySeparateGeometry");
        },
        NodeType::GeometryJoinGeometry => {
            reveal_strlit("GeometryJoinGeometry");
        },
        NodeType::GeometryInstanceOnPoints => {
            reveal_strlit("GeometryInstanceOnPoints");
        },
        NodeType::GeometryInstanceOnFaces => {
            reveal_strlit("GeometryInstanceOnFaces");
        },
        NodeType::GeometryMeshToPoints => {
            reveal_strlit("GeometryMeshToPoints");
        },
        NodeType::GeometryPointsToMesh => {
            reveal_strlit("GeometryPointsToMesh");
        },
        NodeType::GeometrySubdivideMesh => {
            reveal_strlit("GeometrySubdivideMesh");
        },
        NodeType::GeometrySubdivideCurve => {
            reveal_strlit("GeometrySubdivideCurve");
        },
        NodeType::GeometryResampleCurve => {
            reveal_strlit("GeometryResampleCurve");
        },
        NodeType::GeometryCurveToMesh => {
            reveal_strlit("GeometryCurveToMesh");
        },
        NodeType::GeometryMeshToCurve => {
            reveal_strlit("GeometryMeshToCurve");
        },
        NodeType::GeometryFillCurve => {
            reveal_strlit("GeometryFillCurve");
        },
        NodeType::GeometryExtrudeMesh => {
            reveal_strlit("GeometryExtrudeMesh");
        },
        NodeType::GeometryScaleElements => {
            reveal_strlit("GeometryScaleElements");
        },
        NodeType::GeometryTransformGeometry => {
            reveal_strlit("GeometryTransformGeometry");
        },
        NodeType::GeometrySetPosition => {
            reveal_strlit("GeometrySetPosition");
        },
        NodeType::GeometryCaptureAttribute => {
            reveal_strlit("GeometryCaptureAttribute");
        },
        NodeType::GeometrySampleNearest => {
            reveal_strlit("GeometrySampleNearest");
        },
        NodeType::GeometrySampleIndex => {
            reveal_strlit("GeometrySampleIndex");
        },
        NodeType::GeometrySampleNearestSurface => {
            reveal_strlit("GeometrySampleNearestSurface");
        },
        NodeType::GeometryRaycast => {
            reveal_strlit("GeometryRaycast");
        },
        NodeType::GeometryInterpolateGeometry => {
            reveal_strlit("GeometryInterpolateGeometry");
        },
        NodeType::GeometryFieldAtIndex => {
            reveal_strlit("GeometryFieldAtIndex");
        },
        NodeType::MathAdd => {
            reveal_strlit("MathAdd");
        },
        NodeType::MathSubtract => {
            reveal_strlit("MathSubtract");
        },
        NodeType::MathMultiply => {
            reveal_strlit("MathMultiply");
        },
        NodeType::MathDivide => {
            reveal_strlit("MathDivide");
        },
        NodeType::MathPower => {
            reveal_strlit("MathPower");
        },
        NodeType::MathSqrt => {
            reveal_strlit("MathSqrt");
        },
        NodeType::MathLogarithm => {
            reveal_strlit("MathLogarithm");
        },
        NodeType::MathExp => {
            reveal_strlit("MathExp");
        },
        NodeType::MathSin => {
            reveal_strlit("MathSin");
        },
        NodeType::MathCos => {
            reveal_strlit("MathCos");
        },
        NodeType::MathTan => {
            reveal_strlit("MathTan");
        },
        NodeType::MathArcsin => {
            reveal_strlit("MathArcsin");
        },
        NodeType::MathArccos => {
            reveal_strlit("MathArccos");
        },
        NodeType::MathArctan => {
            reveal_strlit("MathArctan");
        },
        NodeType::MathArctan2 => {
            reveal_strlit("MathArctan2");
        },
        NodeType::MathRound => {
            reveal_strlit("MathRound");
        },
        NodeType::MathFloor => {
            reveal_strlit("MathFloor");
        },
        NodeType::MathCeil => {
            reveal_strlit("MathCeil");
        },
        NodeType::MathFract => {
            reveal_strlit("MathFract");
        },
        NodeType::MathModulo => {
            reveal_strlit("MathModulo");
        },
        NodeType::MathSign => {
            reveal_strlit("MathSign");
        },
        NodeType::MathMin => {
            reveal_strlit("MathMin");
        },
        NodeType::MathMax => {
            reveal_strlit("MathMax");
        },
        NodeType::MathClamp => {
            reveal_strlit("MathClamp");
        },
        NodeType::MathMix => {
            reveal_strlit("MathMix");
        },
        NodeType::MathSmoothMin => {
            reveal_strlit("MathSmoothMin");
        },
        NodeType::MathSmoothMax => {
            reveal_strlit("MathSmoothMax");
        },
        NodeType::MathCompare => {
            reveal_strlit("MathCompare");
        },
        NodeType::MathLessThan => {
            reveal_strlit("MathLessThan");
        },
        NodeType::MathGreaterThan => {
            reveal_strlit("MathGreaterThan");
        },
        NodeType::MathEqual => {
            reveal_strlit("MathEqual");
        },
        NodeType::MathNotEqual => {
            reveal_strlit("MathNotEqual");
        },
        NodeType::MathAnd => {
            reveal_strlit("MathAnd");
        },
        NodeType::MathOr => {
            reveal_strlit("MathOr");
        },
        NodeType::MathNot => {
            reveal_strlit("MathNot");
        },
        NodeType::MathNand => {
            reveal_strlit("MathNand");
        },
        NodeType::MathXor => {
            reveal_strlit("MathXor");
        },
    }
}

/// Node names tell node types apart: two node types with the same name
/// are the same type, so every node `add_node` creates is named after its
/// own type and no other.
pub proof fn law_node_names_distinct(a: NodeType, b: NodeType)
    ensures
        a.spec_name() == b.spec_name() ==> a == b,
{
    lemma_type_named(a);
    lemma_type_named(b);
}

/// Whether a character is an ASCII letter or digit.
pub open spec fn ascii_alnum(c: char) -> bool {
    (48 <= c as u32 <= 57) || (65 <= c as u32 <= 90) || (97 <= c as u32 <= 122)
}

/// Whether a name has the shape of a type's identifier: an ASCII capital
/// letter, then ASCII letters and digits.
pub open spec fn identifier_shape(n: Seq<char>) -> bool {
    &&& n.len() > 0
    &&& 65 <= n[0] as u32 <= 90
    &&& forall|j: int| 0 <= j < n.len() ==> ascii_alnum(#[trigger] n[j])
}

/// Every node type's name is written as a type identifier: it starts with
/// a capital letter and holds only ASCII letters and digits.
pub proof fn law_node_names_are_identifiers(t: NodeType)
    ensures
        identifier_shape(t.spec_name()),
{
    match t {
        NodeType::ShaderOutput => {
            reveal_strlit("ShaderOutput");
        },
        NodeType::PrincipledBSDF => {
            reveal_strlit("PrincipledBSDF");
        },
        NodeType::DiffuseBSDF => {
            reveal_strlit("DiffuseBSDF");
        },
        NodeType::GlossyBSDF => {
            reveal_strlit("GlossyBSDF");
        },
        NodeType::GlassBSDF => {
            reveal_strlit("GlassBSDF");
        },
        NodeType::Emission => {
            reveal_strlit("Emission");
        },
        NodeType::TransparentBSDF => {
            reveal_strlit("TransparentBSDF");
        },
        NodeType::RefractionBSDF => {
            reveal_strlit("RefractionBSDF");
        },
        NodeType::TranslucentBSDF => {
            reveal_strlit("TranslucentBSDF");
        },
        NodeType::VelvetBSDF => {
            reveal_strlit("VelvetBSDF");
        },
        NodeType::AnisotropicBSDF => {
            reveal_strlit("AnisotropicBSDF");
        },
        NodeType::SubsurfaceScattering => {
            reveal_strlit("SubsurfaceScattering");
        },
        NodeType::ToonBSDF => {
            reveal_strlit("ToonBSDF");
        },
        NodeType::HairBSDF => {
            reveal_strlit("HairBSDF");
        },
        NodeType::VolumeScatter => {
            reveal_strlit("VolumeScatter");
        },
        NodeType::VolumeAbsorption => {
            reveal_strlit("VolumeAbsorption");
        },
        NodeType::VolumePrincipled => {
            reveal_strlit("VolumePrincipled");
        },
        NodeType::Background => {
            reveal_strlit("Background");
        },
        NodeType::MixShader => {
            reveal_strlit("MixShader");
        },
        NodeType::AddShader => {
            reveal_strlit("AddShader");
        },
        NodeType::Math => {
            reveal_strlit("Math");
        },
        NodeType::VectorMath => {
            reveal_strlit("VectorMath");
        },
        NodeType::Mapping => {
            reveal_strlit("Mapping");
        },
        NodeType::TextureCoordinate => {
            reveal_strlit("TextureCoordinate");
        },
        NodeType::ObjectInfo => {
            reveal_strlit("ObjectInfo");
        },
        NodeType::ObjectInfoFloat => {
            reveal_strlit("ObjectInfoFloat");
        },
        NodeType::GeometryInfo => {
            reveal_strlit("GeometryInfo");
        },
        NodeType::CameraData => {
            reveal_strlit("CameraData");
        },
        NodeType::Fresnel => {
            reveal_strlit("Fresnel");
        },
        NodeType::LayerWeight => {
            reveal_strlit("LayerWeight");
        },
        NodeType::Wireframe => {
            reveal_strlit("Wireframe");
        },
        NodeType::Normal => {
            reveal_strlit("Normal");
        },
        NodeType::NormalMap => {
            reveal_strlit("NormalMap");
        },
        NodeType::Bump => {
            reveal_strlit("Bump");
        },
        NodeType::Displacement => {
            reveal_strlit("Displacement");
        },
        NodeType::VectorDisplacement => {
            reveal_strlit("VectorDisplacement");
        },
        NodeType::VectorTransform => {
            reveal_strlit("VectorTransform");
        },
        NodeType::RGB => {
            reveal_strlit("RGB");
        },
        NodeType::Value => {
            reveal_strlit("Value");
        },
        NodeType::HueSaturation => {
            reveal_strlit("HueSaturation");
        },
        NodeType::Gamma => {
            reveal_strlit("Gamma");
        },
        NodeType::BrightContrast => {
            reveal_strlit("BrightContrast");
        },
        NodeType::Invert => {
            reveal_strlit("Invert");
        },
        NodeType::GammaNode => {
            reveal_strlit("GammaNode");
        },
        NodeType::ColorRamp => {
            reveal_strlit("ColorRamp");
        },
        NodeType::SeparateRGB => {
            reveal_strlit("SeparateRGB");
        },
        NodeType::CombineRGB => {
            reveal_strlit("CombineRGB");
        },
        NodeType::SeparateXYZ => {
            reveal_strlit("SeparateXYZ");
        },
        NodeType::CombineXYZ => {
            reveal_strlit("CombineXYZ");
        },
        NodeType::SeparateHSV => {
            reveal_strlit("SeparateHSV");
        },
        NodeType::CombineHSV => {
            reveal_strlit("CombineHSV");
        },
        NodeType::ImageTexture => {
            reveal_strlit("ImageTexture");
        },
        NodeType::EnvironmentTexture => {
            reveal_strlit("EnvironmentTexture");
        },
        NodeType::BrickTexture => {
            reveal_strlit("BrickTexture");
        },
        NodeType::CheckerTexture => {
            reveal_strlit("CheckerTexture");
        },
        NodeType::GradientTexture => {
            reveal_strlit("GradientTexture");
        },
        NodeType::MagicTexture => {
            reveal_strlit("MagicTexture");
        },
        NodeType::MusgraveTexture => {
            reveal_strlit("MusgraveTexture");
        },
        NodeType::NoiseTexture => {
            reveal_strlit("NoiseTexture");
        },
        NodeType::VoronoiTexture => {
            reveal_strlit("VoronoiTexture");
        },
        NodeType::WaveTexture => {
            reveal_strlit("WaveTexture");
        },
        NodeType::WhiteNoiseTexture => {
            reveal_strlit("WhiteNoiseTexture");
        },
        NodeType::PointDensity => {
            reveal_strlit("PointDensity");
        },
        NodeType::SkyTexture => {
            reveal_strlit("SkyTexture");
        },
        NodeType::Combine => {
            reveal_strlit("Combine");
        },
        NodeType::Separate => {
            reveal_strlit("Separate");
        },
        NodeType::NodeGroupInput => {
            reveal_strlit("NodeGroupInput");
        },
        NodeType::NodeGroupOutput => {
            reveal_strlit("NodeGroupOutput");
        },
        NodeType::Viewer => {
            reveal_strlit("Viewer");
        },
        NodeType::Composite => {
            reveal_strlit("Composite");
        },
        NodeType::FileOutput => {
            reveal_strlit("FileOutput");
        },
        NodeType::Levels => {
            reveal_strlit("Levels");
        },
        NodeType::ColorBalance => {
            reveal_strlit("ColorBalance");
        },
        NodeType::ColorCorrection => {
            reveal_strlit("ColorCorrection");
        },
        NodeType::CurveRGB => {
            reveal_strlit("CurveRGB");
        },
        NodeType::HueSaturationCorrect => {
            reveal_strlit("HueSaturationCorrect");
        },
        NodeType::InvertNode => {
            reveal_strlit("InvertNode");
        },
        NodeType::Normalize => {
            reveal_strlit("Normalize");
        },
        NodeType::MapRange => {
            reveal_strlit("MapRange");
        },
        NodeType::MapValue => {
            reveal_strlit("MapValue");
        },
        NodeType::Blur => {
            reveal_strlit("Blur");
        },
        NodeType::Defocus => {
            reveal_strlit("Defocus");
        },
        NodeType::Glare => {
            reveal_strlit("Glare");
        },
        NodeType::LensDistortion => {
            reveal_strlit("LensDistortion");
        },
        NodeType::Filter => {
            reveal_strlit("Filter");
        },
        NodeType::GeometryInput => {
            reveal_strlit("GeometryInput");
        },
        NodeType::GeometryOutput => {
            reveal_strlit("GeometryOutput");
        },
        NodeType::GeometryTransform => {
            reveal_strlit("GeometryTransform");
        },
        NodeType::GeometrySet => {
            reveal_strlit("GeometrySet");
        },
        NodeType::GeometrySeparateGeometry => {
            reveal_strlit("GeometrySeparateGeometry");
        },
        NodeType::GeometryJoinGeometry => {
            reveal_strlit("GeometryJoinGeometry");
        },
        NodeType::GeometryInstanceOnPoints => {
            reveal_strlit("GeometryInstanceOnPoints");
        },
        NodeType::GeometryInstanceOnFaces => {
            reveal_strlit("GeometryInstanceOnFaces");
        },
        NodeType::GeometryMeshToPoints => {
            reveal_strlit("GeometryMeshToPoints");
        },
        NodeType::GeometryPointsToMesh => {
            reveal_strlit("GeometryPointsToMesh");
        },
        NodeType::GeometrySubdivideMesh => {
            reveal_strlit("GeometrySubdivideMesh");
        },
        NodeType::GeometrySubdivideCurve => {
            reveal_strlit("GeometrySubdivideCurve");
        },
        NodeType::GeometryResampleCurve => {
            reveal_strlit("GeometryResampleCurve");
        },
        NodeType::GeometryCurveToMesh => {
            reveal_strlit("GeometryCurveToMesh");
        },
        NodeType::GeometryMeshToCurve => {
            reveal_strlit("GeometryMeshToCurve");
        },
        NodeType::GeometryFillCurve => {
            reveal_strlit("GeometryFillCurve");
        },
        NodeType::GeometryExtrudeMesh => {
            reveal_strlit("GeometryExtrudeMesh");
        },
        NodeType::GeometryScaleElements => {
            reveal_strlit("GeometryScaleElements");
        },
        NodeType::GeometryTransformGeometry => {
            reveal_strlit("GeometryTransformGeometry");
        },
        NodeType::GeometrySetPosition => {
            reveal_strlit("GeometrySetPosition");
        },
        NodeType::GeometryCaptureAttribute => {
            reveal_strlit("GeometryCaptureAttribute");
        },
        NodeType::GeometrySampleNearest => {
            reveal_strlit("GeometrySampleNearest");
        },
        NodeType::GeometrySampleIndex => {
            reveal_strlit("GeometrySampleIndex");
        },
        NodeType::GeometrySampleNearestSurface => {
            reveal_strlit("GeometrySampleNearestSurface");
        },
        NodeType::GeometryRaycast => {
            reveal_strlit("GeometryRaycast");
        },
        NodeType::GeometryInterpolateGeometry => {
            reveal_strlit("GeometryInterpolateGeometry");
        },
        NodeType::GeometryFieldAtIndex => {
            reveal_strlit("GeometryFieldAtIndex");
        },
        NodeType::MathAdd => {
            reveal_strlit("MathAdd");
        },
        NodeType::MathSubtract => {
            reveal_strlit("MathSubtract");
        },
        NodeType::MathMultiply => {
            reveal_strlit("MathMultiply");
        },
        NodeType::MathDivide => {
            reveal_strlit("MathDivide");
        },
        NodeType::MathPower => {
            reveal_strlit("MathPower");
        },
        NodeType::MathSqrt => {
            reveal_strlit("MathSqrt");
        },
        NodeType::MathLogarithm => {
            reveal_strlit("MathLogarithm");
        },
        NodeType::MathExp => {
            reveal_strlit("MathExp");
        },
        NodeType::MathSin => {
            reveal_strlit("MathSin");
        },
        NodeType::MathCos => {
            reveal_strlit("MathCos");
        },
        NodeType::MathTan => {
            reveal_strlit("MathTan");
        },
        NodeType::MathArcsin => {
            reveal_strlit("MathArcsin");
        },
        NodeType::MathArccos => {
            reveal_strlit("MathArccos");
        },
        NodeType::MathArctan => {
            reveal_strlit("MathArctan");
        },
        NodeType::MathArctan2 => {
            reveal_strlit("MathArctan2");
        },
        NodeType::MathRound => {
            reveal_strlit("MathRound");
        },
        NodeType::MathFloor => {
            reveal_strlit("MathFloor");
        },
        NodeType::MathCeil => {
            reveal_strlit("MathCeil");
        },
        NodeType::MathFract => {
            reveal_strlit("MathFract");
        },
        NodeType::MathModulo => {
            reveal_strlit("MathModulo");
        },
        NodeType::MathSign => {
            reveal_strlit("MathSign");
        },
        NodeType::MathMin => {
            reveal_strlit("MathMin");
        },
        NodeType::MathMax => {
            reveal_strlit("MathMax");
        },
        NodeType::MathClamp => {
            reveal_strlit("MathClamp");
        },
        NodeType::MathMix => {
            reveal_strlit("MathMix");
        },
        NodeType::MathSmoothMin => {
            reveal_strlit("MathSmoothMin");
        },
        NodeType::MathSmoothMax => {
            reveal_strlit("MathSmoothMax");
        },
        NodeType::MathCompare => {
            reveal_strlit("MathCompare");
        },
        NodeType::MathLessThan => {
            reveal_strlit("MathLessThan");
        },
        NodeType::MathGreaterThan => {
            reveal_strlit("MathGreaterThan");
        },
        NodeType::MathEqual => {
            reveal_strlit("MathEqual");
        },
        NodeType::MathNotEqual => {
            reveal_strlit("MathNotEqual");
        },
        NodeType::MathAnd => {
            reveal_strlit("MathAnd");
        },
        NodeType::MathOr => {
            reveal_strlit("MathOr");
        },
        NodeType::MathNot => {
            reveal_strlit("MathNot");
        },
        NodeType::MathNand => {
            reveal_strlit("MathNand");
        },
        NodeType::MathXor => {
            reveal_strlit("MathXor");
        },
    }
}

} // verus!
