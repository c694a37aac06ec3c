//! Pages: what to ask the browser, and what its answers mean.

pub mod answer;
pub mod escape;
pub mod frames;
pub mod keys;
pub mod mouse;
pub mod script;
pub mod wait;
