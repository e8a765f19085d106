//! Verified persistence and query core of a Pomodoro time-management
//! backend: tasks, projects, timed sessions, singleton settings, and derived
//! daily/weekly productivity summaries over an explicitly modelled
//! relational store.

pub mod date;
pub mod error;
pub mod models;
pub mod store;
pub mod seq_lemmas;
pub mod projects;
pub mod tasks;
pub mod sessions;
pub mod settings;
pub mod migrations;
pub mod summary;
pub mod connection;
pub mod commands;
pub mod laws;
