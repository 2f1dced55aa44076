//! What the engine reads from and decides about the messaging platform.
pub mod api;
pub mod backup;
pub mod model;
