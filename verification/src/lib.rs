//! Expose a local HTTP server to the internet through a public subdomain.
//!
//! The library holds what the two ends of a tunnel compute and decide: the
//! binary frame format, the registry of tunnels, the routing of visitors, the
//! handshakes, the message loops and the reconnection policy. Sockets, timers
//! and JSON belong to the program around it.
mod buffer;
pub mod client;
pub mod client_laws;
pub mod config;
pub mod format;
pub mod format_laws;
pub mod frame;
pub mod http;
pub mod protocol;
pub mod registry;
pub mod reply;
pub mod server;
pub mod server_laws;
pub mod session;
pub mod session_laws;
pub mod stream_id;
pub mod subdomain;
mod text;
pub mod text_laws;
pub mod tunnel;
pub mod tunnel_laws;
pub mod wire;
