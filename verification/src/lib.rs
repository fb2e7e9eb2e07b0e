//! Verified core of an application locker: path layout, binary lookup,
//! sandbox argument construction, desktop launcher text and the decision
//! logic that drives vault initialisation, mounting and unmounting.

pub mod text;
pub mod error;
pub mod config;
pub mod sandbox;
pub mod vault;
pub mod shortcut;
pub mod cli;
pub mod gui;
