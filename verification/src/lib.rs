//! Core logic of a small instanced 3D renderer: camera orientation state,
//! OBJ mesh assembly into merged vertex/index buffers, checked byte
//! serialization for GPU upload, and the per-model instance-buffer registry
//! with its grow-only capacity policy and draw-call enumeration.

pub mod camera;
pub mod definitions;
pub mod serialize;
pub mod mesh_builder;
pub mod registry;
pub mod ubo;
