//! Thruster control allocation for rigid bodies: resolves a body's thruster
//! layout, formulates the allocation linear program, caches its rounded
//! solutions per quantized request, and reports edge-triggered firing changes.
//!
//! All quantities are fixed-point integers; see the constants of `geometry`
//! for the ranges and units.
pub mod geometry;
pub mod optimizer;
pub mod steering;

pub use geometry::{
    Engine, EngineSet, PartTransform, ResolvedThruster, ThrusterId, ThrusterLayout, ThrusterPart,
    Vec2i,
};
pub use optimizer::{calculate_firing, AccelerationEstimate, DesiredForce, LpProblem};
pub use steering::{
    Allocation, BodyMass, EngineEvent, Estimate, QuantKey, Steering, SteeringConfig, ThrustCommand,
    ThrustScale,
};
