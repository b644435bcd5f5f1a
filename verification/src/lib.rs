//! Reachability scanning of network services from rotating source addresses.

pub mod config;
pub mod ip_pool;
pub mod ipv4;
pub mod probe;
pub mod scanner;
pub mod status;
pub mod text;
pub mod words;
