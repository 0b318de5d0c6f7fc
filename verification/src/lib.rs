pub mod client;
pub mod commands;
pub mod config;
pub mod display;
pub mod json;
pub mod protocol;
pub mod repl;
pub mod startup;
pub mod table;
pub mod text;
pub mod transport;
