//! Verified core of a command-line weather client for the Open-Meteo API.

pub mod api;
pub mod app;
pub mod cache;
pub mod models;
pub mod text;
