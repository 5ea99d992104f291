//! Arguments of the editor's mesh and scene commands.
use vstd::prelude::*;

verus! {

/// The primitive shapes that can be added to a scene.
#[derive(Debug, Clone)]
pub enum PrimitiveType {
    Cube,
    Sphere,
    Cylinder,
    Torus,
    Plane,
    Cone,
    Monkey,
    Tetrahedron,
    Octahedron,
    Icosahedron,
    Dodecahedron,
    Torusknot,
}

/// Bevel the given edges with this many segments.
#[derive(Clone, Debug)]
pub struct BevelArgs {
    pub segments: u32,
    pub edge_ids: Vec<u32>,
}

/// Cut the edge loop through an edge this many times.
#[derive(Clone, Debug)]
pub struct LoopCutArgs {
    pub cuts: u32,
    pub edge_loop_id: u32,
}

/// A boolean operation between two meshes.
#[derive(Debug, Clone)]
pub enum BooleanOp {
    Union,
    Difference,
    Intersect,
}

/// A boolean operation of one object (the operator) on another (the target).
#[derive(Clone, Debug)]
pub struct BooleanArgs {
    pub target_id: String,
    pub operator_id: String,
    pub operation: BooleanOp,
}

/// Add a constraint to an object.
#[derive(Clone, Debug)]
pub struct ConstraintArgs {
    pub object_id: String,
    pub constraint_type: ConstraintType,
}

/// A constraint on some axes of an object's location, rotation or scale,
/// or on all of its transform.
#[derive(Clone, Debug)]
pub enum ConstraintType {
    Position { axis: [bool; 3] },
    Rotation { axis: [bool; 3] },
    Scale { axis: [bool; 3] },
    Fixed,
}

} // verus!
