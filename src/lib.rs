//! A crash-resilient key-value store on a NOR flash region, with the
//! command-line state mirror that sits on top of it.

pub mod cli;
pub mod codec;
pub mod command;
pub mod config;
pub mod flash_map;
pub mod keys;
pub mod region;
pub mod storage;
