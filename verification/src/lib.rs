//! The order-and-structure core of a path tracer: bounding boxes, closest-hit
//! search through lists and bounding-volume hierarchies, the shape of the
//! integrator's recursion, material decisions and texture addressing. Numbers
//! are binary64 values held by their bits; whatever needs arithmetic on them
//! is handed in by the caller, as a value or as a function.
pub mod scalar;
pub mod vec3;
pub mod ray;
pub mod aabb;
pub mod hittable;
pub mod hittable_list;
pub mod utilities;
pub mod bvh;
pub mod equivalence;
pub mod texture;
pub mod color;
pub mod material;
pub mod objects;
