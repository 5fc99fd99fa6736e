//! Core of a point-of-sale back office: the live-session registry with its
//! change-event fan-out, the admin authorization check, and the identifier
//! allocator used when entities are created.

pub mod auth;
pub mod events;
pub mod ids;
pub mod models;
pub mod pin;
pub mod registry;
pub mod validation;
