//! Core of a small mesh renderer: a named resource registry, a declarative
//! shader-attribute model with deterministic GLSL source generation, and a
//! binary PLY mesh parser built on verified text/byte cursors.
pub mod container;
pub mod error;
pub mod material;
pub mod mesh;
pub mod object;
pub mod parser;
pub mod ref_dict;
pub mod shader_attribute;
pub mod shader_gen;
pub mod texture;
pub mod ui_traits;
pub mod vec2;
pub mod vec3;
pub mod vec4;
