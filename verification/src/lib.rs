//! Decision logic of the 2D ray-marching demos: which demo a page asks for,
//! which shape a demo draws and how its button reacts, and which distance
//! formula a scene shape is measured with.

pub mod examples;
pub mod query;
pub mod sdf;
pub mod shapes;
