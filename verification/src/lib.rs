//! Verified core of the MMAST multi-vehicle energy simulator: the integer
//! topology, layout and bookkeeping logic that the physics layers build on.

pub mod atmosphere_lut;
pub mod energy;
pub mod envelope;
pub mod geometry;
pub mod layout;
pub mod medium;
pub mod mesh;
pub mod mesh_adapter;
pub mod mmast_lut;
pub mod presets;
pub mod render_stats;
pub mod scene;
pub mod terrain_scatter;
pub mod viewer_input;
