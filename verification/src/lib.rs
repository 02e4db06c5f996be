//! Verified core of a shell command assistant: input editing, request
//! sessions, configuration rules, provider response handling and shell
//! integration text.

pub mod text;
pub mod utf8;
pub mod input;
pub mod session;
pub mod keys;
pub mod command;
pub mod keyed;
pub mod urls;
pub mod config;
pub mod selection;
pub mod defaults;
pub mod json;
pub mod integration;
pub mod report;
pub mod provider;
pub mod credentials;
pub mod request;
pub mod theme;
pub mod menu;
pub mod doctor;
pub mod paths;
pub mod history;
pub mod completion;
pub mod editor;
pub mod wrap;
pub mod terminal;
pub mod cli;
