//! Verified core of the Submora link aggregator.

pub mod text;
pub mod keyed;
pub mod error;
pub mod limits;
pub mod net;
pub mod security;
pub mod utils;
pub mod messages;
pub mod links;
pub mod shared;
pub mod cache;
pub mod env;
pub mod config;
pub mod app_config;
pub mod handlers;
pub mod ordering;
pub mod timestamps;
pub mod diagnostics;
pub mod text_map;
pub mod console;
pub mod drafts;
pub mod actions;
pub mod panels;
pub mod shell;
pub mod client;
pub mod site;
