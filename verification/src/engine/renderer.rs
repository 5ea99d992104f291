//! Settings of the renderers.
use vstd::prelude::*;

verus! {

/// The renderer used for final images.
#[derive(Clone, Debug, PartialEq, Eq, Structural)]
pub enum RenderEngineType {
    PathTracer,
    Eevee,
    Workbench,
}

/// The denoiser run on rendered images.
#[derive(Clone, Debug, PartialEq, Eq, Structural)]
pub enum Denoiser {
    OpenImageDenoise,
    OptiX,
    Nlm,
    NoDenoiser,
}

/// The filter used to reconstruct pixels from samples.
#[derive(Clone, Debug, PartialEq, Eq, Structural)]
pub enum PixelFilter {
    Box,
    Gaussian,
    BlackmanHarris,
    Mitchell,
    Lanczos,
    CatmullRom,
}

/// The projection of a render camera.
#[derive(Clone, Debug, PartialEq, Eq, Structural)]
pub enum CameraLens {
    Perspective,
    Orthographic,
    Panoramic,
    OrthographicFull,
    Stereo3D,
}

/// The model of a procedural sky.
#[derive(Clone, Debug, PartialEq, Eq, Structural)]
pub enum SkyType {
    Preetham,
    HosekWilkie,
    Nishita,
}

/// The shading model of a path-traced material.
#[derive(Clone, Debug, PartialEq, Eq, Structural)]
pub enum TraceMaterialType {
    Principled,
    Diffuse,
    Glossy,
    Glass,
    Emission,
    Transparent,
    Refraction,
    Translucent,
    Velvet,
    Subsurface,
    Toon,
    Volume,
    Mix,
    Add,
    Wireframe,
}

/// How a path-traced material blends.
#[derive(Clone, Debug, PartialEq, Eq, Structural)]
pub enum MaterialBlendMethod {
    Opaque,
    AlphaBlend,
    AlphaHashed,
    AlphaClip,
}

/// The kind of a path-traced light.
#[derive(Clone, Debug, PartialEq, Eq, Structural)]
pub enum TraceLightType {
    Point,
    Sun,
    Spot,
    Area,
}

} // verus!
