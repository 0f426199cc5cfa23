//! The data that the API serves.
pub mod auction;
pub mod items;
