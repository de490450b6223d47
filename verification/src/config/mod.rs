//! Configuration of the core: environments, networking, logging, markets.
pub mod environment;
pub mod error;
pub mod networking;
pub mod keyed;
pub mod log_level;
pub mod logging;
pub mod symbols;
pub mod balance_preload;
pub mod vex;
pub mod loader;
