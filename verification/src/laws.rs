//! What holds of whole operations, told by what goes in and what comes out.

pub mod cli;
pub mod client;
pub mod collections;
pub mod commands;
pub mod daemon;
pub mod inventory;
pub mod json;
pub mod lines;
pub mod mcp;
pub mod nearby;
pub mod paths;
pub mod service;
pub mod size;
pub mod startup;
pub mod storage;
pub mod terminal;
pub mod text;
pub mod ticket;
pub mod web;
pub mod window;
