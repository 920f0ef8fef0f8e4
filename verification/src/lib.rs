pub mod text;
pub mod service;
pub mod detect;
pub mod browser;
pub mod app;
pub mod config;
pub mod commands;
pub mod input;
pub mod ui;
pub mod logger;
pub mod process;
