//! Tracking of anime watch progress: episode marks, watch lists and the anime
//! states they reference, and the session tokens that guard changes.
pub mod episode;
pub mod session;
pub mod model;
pub mod request;
pub mod store;
