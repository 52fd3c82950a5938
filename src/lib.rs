//! Vendor-agnostic automation of network device command-line interfaces over
//! line-oriented transports: a prompt-driven command protocol, device sessions
//! with a scoped configuration mode, and Cisco-style and Juniper-style adapters.
pub mod interfaces;
pub mod prompt;
pub mod connection;
pub mod options;
pub mod config;
pub mod cisco;
pub mod juniper;
