//! Text-processing core of the terminal markdown renderer and its UI theme registry.

pub mod text;
pub mod table;
pub mod theme;
pub mod links;
pub mod layout;
pub mod colors;
pub mod palette;
pub mod writer;
pub mod render;
