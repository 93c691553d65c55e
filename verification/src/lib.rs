//! Procedural tree growth: a seeded space-colonization simulation that grows a
//! branching skeleton, the extrusion of that skeleton into a tube mesh, and an
//! optional smoothing pass. Beside it stands the rule by which the time left
//! until a deadline is shown.
pub mod fixed;
pub mod math;
pub mod vector;
pub mod orthogonal;
pub mod random;
pub mod graph;
pub mod environment;
pub mod perception;
pub mod light;
pub mod resource;
pub mod shoot;
pub mod fate;
pub mod branch;
pub mod data;
pub mod countdown;
pub mod growth;
pub mod mesh;
pub mod post;
