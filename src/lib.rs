//! Loading and activation of animated characters.
//!
//! A character is registered under its id together with the handle of its
//! definition. When the definition has loaded, the pipeline derives the
//! locators of the character's model scene and animation clips and records
//! the graph built for each clip. When the model's scene has been
//! instantiated, the first node of its subtree that can play animations is
//! set to loop the character's idle animation.
//!
//! The library is generic over the engine's handle types and takes every
//! engine result as a plain value, so that its decisions can be proved.

pub mod bridge;
pub mod definition;
pub mod dropdown;
pub mod error;
pub mod name_map;
pub mod pipeline;
pub mod registry;
