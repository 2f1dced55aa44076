//! Settings of a run: the vote emojis and the debug switches.
pub mod env_loader;
pub mod model;
