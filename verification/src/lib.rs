//! Decisions of a tool that keeps local Git repositories up to date.

pub mod bytes;
pub mod command;
pub mod config;
pub mod dashboard;
pub mod doctor;
pub mod effective;
pub mod escape;
pub mod log;
pub mod names;
pub mod outcome;
pub mod paths;
pub mod puller;
pub mod quiet;
pub mod repo;
pub mod schedule;
pub mod schema;
pub mod service;
pub mod settings;
pub mod state;
pub mod status;
pub mod sync;
pub mod text;
pub mod url;
