//! Storyboard scripting objects: sprites and animations with their nested
//! command trees.

pub mod cmds;
pub mod error;
pub mod sprites;
