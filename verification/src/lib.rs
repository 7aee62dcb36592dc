pub mod cli;
pub mod clock;
pub mod config;
pub mod configtest;
pub mod filesystem;
pub mod generic;
pub mod purge;
pub mod schedule;
pub mod snapshot;
pub mod text;
