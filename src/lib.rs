//! Structural core of a soft-body simulation: lattice topology, index-checked
//! access to pairs of points, the order of pairwise collision checks, an ordered
//! collection of bodies, and the latest-wins mailbox protocol that lets an
//! interactive consumer edit the simulation while it runs.

pub mod pairs;
pub mod lattice;
pub mod collection;
pub mod mailbox;
pub mod protocol;
pub mod drag;
