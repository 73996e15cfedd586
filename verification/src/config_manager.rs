//! The configuration and the server-list advertisement of the BDS
//! server manager.
pub mod advertisement;
pub mod config;
