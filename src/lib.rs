//! Control engine of a fan service for Riing Quad controllers: the HID
//! protocol, fan curves, fan and controller state, sensor and color mappings,
//! the monitoring tick, configuration change classification, and the
//! decisions of the service supervisor.

pub mod cli;
pub mod config;
pub mod controller;
pub mod curve;
pub mod event;
pub mod fan;
pub mod mappings;
pub mod monitor;
pub mod protocol;
pub mod service;
pub mod watcher;
