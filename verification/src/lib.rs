pub mod text;
pub mod properties;
pub mod config;
pub mod config_manager;
pub mod motd;
pub mod lifecycle;
pub mod console;
pub mod startup;
