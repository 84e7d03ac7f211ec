//! Procedural hex terrain on a cube-coordinate lattice: coordinate algebra,
//! ring enumeration, height diffusion and the cube-addressable map built
//! from it.

pub mod coord;
pub mod ring;
pub mod random;
pub mod wire;
pub mod terrain;
pub mod diffusion;
pub mod error;
pub mod skybox;
pub mod map;
pub mod controls;
