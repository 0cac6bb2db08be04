//! Core of a small 3D-graphics sandbox: a fixed-size linear-algebra
//! library (matrices, vectors, quaternions, complex numbers) over an
//! abstract scalar type, graphics transform constructors, and an
//! arena-based scene graph with parent/child invariants, cycle
//! prevention and depth-first traversal.

pub mod complex;
pub mod event;
pub mod gfx;
pub mod matrix;
pub mod model;
pub mod quaternion;
pub mod scalar;
pub mod tree;
pub mod vector;
