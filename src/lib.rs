//! Integer core of an orbital ray caster: colour packing, closest-hit
//! selection among the scene's bodies, frame assembly and the triangle
//! indices of a UV sphere.
pub mod color;
pub mod frame;
pub mod hit;
pub mod mesh;
