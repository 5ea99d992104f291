//! Settings of the physics simulations: rigid and soft bodies, fluids,
//! particles and force fields.
use vstd::prelude::*;

verus! {

/// How a rigid body takes part in the simulation.
#[derive(Clone, Debug, PartialEq, Eq, Structural)]
pub enum RigidBodyType {
    Active,
    Passive,
    Dynamic,
    Rigid,
    Soft,
}

/// The shape used for a body's collisions.
#[derive(Clone, Debug, PartialEq, Eq, Structural)]
pub enum CollisionShape {
    Box,
    Sphere,
    Capsule,
    Cylinder,
    Cone,
    ConvexHull,
    Mesh,
    Compound,
}

/// A constraint on some axes of an object's transform.
#[derive(Clone, Debug, PartialEq, Eq, Structural)]
pub enum ConstraintType {
    Point,
    Hinge,
    Slider,
    Piston,
    Generic,
    GenericSpring,
    Motor,
    Ragdoll,
}

/// Which springs a soft body is built with.
#[derive(Clone, Debug, PartialEq, Eq, Structural)]
pub enum SoftBodySpringType {
    Linear,
    Edge,
    Pad,
}

/// What a fluid domain simulates.
#[derive(Clone, Debug, PartialEq, Eq, Structural)]
pub enum FluidDomainType {
    Gas,
    Liquid,
}

/// Where and how a fluid simulation is cached.
#[derive(Clone, Debug)]
pub struct FluidCache {
    pub cache_type: CacheType,
    pub frame_start: u32,
    pub frame_end: u32,
    pub use_cache: bool,
    pub use_disk_cache: bool,
    pub disk_cache_dir: String,
    pub use_multires: bool,
    pub resolution: u32,
}

/// Which stages of a fluid simulation are cached.
#[derive(Clone, Debug, PartialEq, Eq, Structural)]
pub enum CacheType {
    Modular,
    Final,
    All,
}

/// What a particle system emits.
#[derive(Clone, Debug, PartialEq, Eq, Structural)]
pub enum ParticleType {
    Emitter,
    Hair,
}

/// Where particles are emitted from.
#[derive(Clone, Debug, PartialEq, Eq, Structural)]
pub enum EmitFrom {
    Vertices,
    Faces,
    Volume,
}

/// How particles collide.
#[derive(Clone, Debug, PartialEq, Eq, Structural)]
pub enum ParticleCollisionType {
    Particle,
    Point,
}

/// How particles move.
#[derive(Clone, Debug, PartialEq, Eq, Structural)]
pub enum ParticlePhysicsType {
    Newtonian,
    Keyed,
    Boid,
    Fluid,
}

/// How particles spin.
#[derive(Clone, Debug, PartialEq, Eq, Structural)]
pub enum AngularVelocityType {
    NoRotation,
    Linear,
    Random,
    Quaternion,
    QuaternionX,
    QuaternionY,
    QuaternionZ,
}

/// How particles are rendered.
#[derive(Clone, Debug, PartialEq, Eq, Structural)]
pub enum ParticleRenderType {
    Halo,
    Line,
    Path,
    Object,
    Collection,
}

/// How particles are shown in the viewport.
#[derive(Clone, Debug, PartialEq, Eq, Structural)]
pub enum ParticleDisplayMethod {
    Render,
    Dot,
    Cross,
}

/// The kind of force a field applies.
#[derive(Clone, Debug, PartialEq, Eq, Structural)]
pub enum ForceFieldType {
    Force,
    Wind,
    Vortex,
    Magnetic,
    Harmonic,
    Charge,
    LennardJones,
    Texture,
    CurveGuide,
    Turbulence,
    Drag,
    FluidFlow,
    ForceField,
}

/// The shape a force field acts from.
#[derive(Clone, Debug, PartialEq, Eq, Structural)]
pub enum ForceFieldShape {
    Point,
    Line,
    Plane,
    Box,
}

/// How a force field weakens with distance.
#[derive(Clone, Debug, PartialEq, Eq, Structural)]
pub enum ForceFieldFalloff {
    NoFalloff,
    Curve,
    Linear,
    CustomCurve,
    Root,
    Sphere,
    InvSquare,
    LinearDown,
}

/// Which parts of an object a force field affects.
#[derive(Clone, Debug, PartialEq, Eq, Structural)]
pub enum ForceFieldDomain {
    All,
    Surface,
    Volume,
}

} // verus!
