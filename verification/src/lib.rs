//! Height-field terrain on a cell grid, worn down by water droplets.
//!
//! The terrain is a flat-shaded triangle mesh with six unshared vertices per
//! grid cell. An erosion pass runs a batch of droplets over it, one after the
//! other, and computes the normals again; a budget limits how many droplets
//! are ever issued. A small state machine says when the same erosion, run as
//! a compute pass, may be dispatched.
//!
//! The crate computes with whole numbers only. What a vertex, a normal or a
//! droplet is made of is left to the caller, who hands in the functions that
//! compute with them; the crate decides where and in which order they are
//! applied, and its contracts say so in terms of those functions.
//!
//! - `grid`: grid sizes, cell numbers, points on and off the grid
//! - `layout`: the vertex slots of a cell and the slots that share a corner
//! - `mesh`: the mesh, its construction, its normals
//! - `budget`: the droplet budget
//! - `droplet`: the path of one droplet
//! - `hydrology`: the erosion pass
//! - `octaves`: the octaves of the height function
//! - `pipeline`: the state machine of the compute node
//! - `textures`: the textures of the compute node

pub mod budget;
pub mod droplet;
pub mod grid;
pub mod hydrology;
pub mod layout;
pub mod mesh;
pub mod octaves;
pub mod pipeline;
pub mod textures;
