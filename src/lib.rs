//! Event distribution and engagement state for a community of cultural event
//! followers: routing events into monthly topic channels, filtering out the
//! ones already posted, reconciling the "interested" mention list of a posted
//! event and planning private vote acknowledgements and their daily backup.
pub mod agenda_cultural;
pub mod api;
pub mod bol;
pub mod calendar;
pub mod config;
pub mod discord;
pub mod text;
