//! The decisions behind iroh-drop: hand files to people with one string.

pub mod asks;
pub mod bridge;
pub mod bus;
pub mod cli;
pub mod client;
pub mod collections;
pub mod commands;
pub mod config;
pub mod dropd;
pub mod error;
pub mod frame;
pub mod ids;
pub mod inventory;
pub mod json;
pub mod laws;
pub mod mcp;
pub mod nearby;
pub mod order;
pub mod path;
pub mod persist;
pub mod presence;
pub mod qr;
pub mod rooms;
pub mod service;
pub mod size;
pub mod table;
pub mod terminal;
pub mod text;
pub mod ticket;
pub mod transport;
pub mod web;
pub mod window;
