//! Account-aware launching of agent command lines.

pub mod account;
pub mod adapter;
pub mod auth;
pub mod cli;
pub mod deploy;
pub mod engine;
pub mod fetch;
pub mod help;
pub mod json;
pub mod listing;
pub mod login;
pub mod outside;
pub mod paths;
pub mod policy;
pub mod pool;
pub mod programs;
pub mod session;
pub mod state;
pub mod storage;
pub mod table;
pub mod text;
pub mod ui;
pub mod usage;
pub mod wording;
