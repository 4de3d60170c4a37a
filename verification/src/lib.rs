pub mod api;
pub mod app;
pub mod cli;
pub mod config;
pub mod delete;
pub mod error;
pub mod event;
pub mod executor;
pub mod format;
pub mod json;
pub mod keys;
pub mod model;
pub mod number;
pub mod table;
pub mod testutil;
pub mod text;
pub mod view;
