//! Helpers shared by the model and the commands.

pub mod collection;
pub mod json;
pub mod parsing;
pub mod pattern;
pub mod pipeline;
pub mod system;
pub mod text;
pub mod time;
