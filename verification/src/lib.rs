pub mod config;
pub mod directory;
pub mod gateway;
pub mod handlers;
pub mod migration;
pub mod models;
pub mod parsers;
pub mod queue;
pub mod security;
pub mod settings;
pub mod store;
pub mod support;
pub mod telemetry;
pub mod text;
pub mod trace;
pub mod transport;
