//! Events of the city's cultural agenda: the model, the responses of the
//! agenda's web API, and how they become events grouped by month.
pub mod api;
pub mod dto;
pub mod model;
