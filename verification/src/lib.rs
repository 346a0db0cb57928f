//! The verified core of the site server: request shapes, configuration
//! rules, cluster topology, migration history and the admin command line.

pub mod text;
pub mod assets;
pub mod db;
pub mod admin;
pub mod api;
pub mod config;
pub mod auth;
pub mod http;
pub mod bootstrap;
