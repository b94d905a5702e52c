//! Delivery channels: configuration, validation, delivery and reporting.
pub mod policy;
pub mod kinds;
pub mod mask;
pub mod delivery;
pub mod message;
pub mod store;
pub mod events;
pub mod directory;
pub mod reports;
pub mod repository;
pub mod send;
pub mod readiness;
pub mod replay;
