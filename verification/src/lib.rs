//! The core of a small self-hosted file server, with its behaviour stated
//! in contracts and proved: request paths are held to the served root,
//! directories are indexed, WebDAV requests are authenticated, listeners
//! are brought up on IPv4 and IPv6, and the server is started and stopped
//! as a background service.
//!
//! Nothing here reads a file, opens a socket or signals a process. The
//! program around this library does that, hands over what it found as
//! plain values, and carries out what is decided here.

pub mod text;
pub mod users;
pub mod auth;
pub mod validate;
pub mod config;
pub mod size;
pub mod filetype;
pub mod listing;
pub mod resolver;
pub mod passwords;
pub mod admin;
pub mod cli;
pub mod listener;
pub mod supervisor;
