//! Alkane resolves the name of a hosted site to its directory and decides
//! which recipe a deployment has to run.

pub mod actions;
pub mod command;
pub mod config;
pub mod db;
pub mod deploy;
pub mod driver;
pub mod path;
pub mod runner;
pub mod services;
pub mod text;
