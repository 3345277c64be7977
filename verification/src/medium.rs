//! Operating media and propulsion kinds shared by every vehicle archetype.

use vstd::prelude::*;

verus! {

/// A medium the vehicle operates in.
#[derive(Debug, Clone, Copy, PartialEq, Eq, Structural, Hash)]
pub enum Medium {
    /// Atmospheric flight (troposphere, stratosphere, mesosphere).
    Atmosphere,
    /// Surface or subsurface aquatic operation.
    Aquatic,
    /// Orbital or deep-space vacuum.
    Space,
    /// Ground contact (wheeled, tracked, legged).
    Ground,
}

/// Propulsion system type.
#[derive(Debug, Clone, Copy, PartialEq, Eq, Structural, Hash)]
pub enum PropulsionType {
    /// Brushless electric motor + propeller.
    BrushlessProp,
    /// Electroaerodynamic (ion) thruster.
    EadIon,
    /// Jet / turbine.
    Turbine,
    /// Electric ducted fan.
    Edf,
    /// Marine propeller or waterjet.
    MarineProp,
    /// Ion thruster (space).
    SpaceIon,
    /// Reaction wheels (attitude only).
    ReactionWheels,
    /// Wheeled drive (ground).
    WheeledDrive,
    /// Tracked drive (ground).
    TrackedDrive,
    /// Legged locomotion.
    Legged,
    /// Passive (glider, drifter, satellite in coast).
    Passive,
}

} // verus!
