pub mod text;
pub mod logparse;
pub mod config;
pub mod detector;
pub mod db;
pub mod ban;
pub mod source;
pub mod watch;
pub mod repl;
pub mod setup;
pub mod blacklist;
pub mod cli;
