//! Entity-component storage, input state, asset bookkeeping and mesh
//! assembly for a small OpenGL scene editor.

pub mod decode;
pub mod ecs;
pub mod entity;
pub mod handle;
pub mod input;
pub mod loaders;
pub mod mesh;
pub mod obj_mesh;
pub mod registry;
pub mod text;
pub mod uniforms;
