//! Browsing git repositories on a server over SSH: the verified core.

pub mod actions;
pub mod auth;
pub mod clone;
pub mod config;
pub mod create;
pub mod delete;
pub mod detail;
pub mod dialogs;
pub mod error;
pub mod hostkey;
pub mod labels;
pub mod inspect;
pub mod listing;
pub mod order;
pub mod proxy;
pub mod quote;
pub mod remote;
pub mod shell;
pub mod ssh;
pub mod state;
pub mod terminal;
pub mod text;
pub mod walk;
pub mod windows;
pub mod worker;
