//! A real-time session server's core: the line protocol, the shared registry of
//! connected sessions and the rules by which one connection's commands reach the others.
//!
//! The library holds no socket. A caller reads bytes from a connection, hands them
//! to [`protocol`], passes the request it gets to [`tcp_server::TCPServer`], and then
//! writes what the returned outcome names to the handles that the server lists.

pub mod character;
pub mod laws;
pub mod player;
pub mod position;
pub mod protocol;
pub mod registry;
pub mod scalar;
pub mod server;
pub mod tcp_server;
pub mod text;
pub mod vector;
