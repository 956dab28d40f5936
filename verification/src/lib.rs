//! Turns stacks of RGBA animation frames into game-project assets: tight
//! bounding boxes, shared 256-colour palettes and indexed frames, and edits of
//! the project's resource tree.

pub mod frame;
pub mod bbox;
pub mod palette;
pub mod indexed;
pub mod text;
pub mod json;
pub mod project;
pub mod sprite_model;
pub mod import;
pub mod naming;
pub mod container;
pub mod sheet;
pub mod audio;
pub mod export;
