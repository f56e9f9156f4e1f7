//! Verified core of the Aerie workflow tool: configuration, tool selection,
//! image sources, node classification, event ordering and runner decisions.
pub mod text;
pub mod config;
pub mod persistent;
pub mod state;
pub mod tools;
pub mod image;
pub mod nodes;
pub mod events;
pub mod scope;
pub mod exec;
pub mod service;
pub mod controls;
pub mod agent;
