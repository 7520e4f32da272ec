pub mod animation;
pub mod cli;
pub mod collect;
pub mod render;
pub mod status;
pub mod text;
