//! Mesh ingestion and scene bookkeeping for a textured, normal-mapped mesh viewer.
//!
//! The library holds the parts of the viewer that decide things: the mesh text
//! format, the corner expansion that turns faces into flat attribute streams, the
//! pixel layout of decoded images, the scene's growth counters, the ownership of
//! device buffers and the uniform-location cache. Floating-point arithmetic and
//! calls into the graphics device are left to the host around it.
pub mod image;
pub mod mesh;
pub mod geometry;
pub mod device;
pub mod scene;
pub mod pipeline;
pub mod texture;
pub mod config;
