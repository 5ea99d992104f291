//! Material settings and UV unwrapping.
use vstd::prelude::*;

verus! {

/// How a material blends with what lies behind it.
#[derive(Clone, Debug)]
pub enum BlendMode {
    Opaque,
    AlphaBlend,
    AlphaHashed,
    AlphaClip,
}

/// What a material texture supplies.
#[derive(Clone, Debug)]
pub enum TextureType {
    BaseColor,
    Metallic,
    Roughness,
    Normal,
    Emission,
    AO,
    Height,
}

/// How a texture is projected onto a surface.
#[derive(Clone, Debug)]
pub enum ProjectionType {
    Flat,
    Box,
    Sphere,
    Tube,
    Cardinal,
}

/// Computes texture coordinates for meshes.
pub struct UvUnwrapper;

} // verus!
