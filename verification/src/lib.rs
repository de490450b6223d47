//! Verified core of an exchange: order book matching, risk checks and configuration.
pub mod model;
pub mod level;
pub mod side;
pub mod book;
pub mod laws;
pub mod index_laws;
pub mod tables;
pub mod risk;
pub mod router;
pub mod config;
pub mod decimal;
pub mod events;
pub mod engine;
pub mod journaling;
