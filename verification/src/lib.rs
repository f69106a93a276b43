//! A multi-room chat broadcast engine.
//!
//! The crate holds the core of a line-based chat server as plain sequential
//! code: the registry of display names, the registry of rooms, the bounded
//! broadcast topic behind each room, the per-connection session state
//! machine, and the framing of the wire protocol. It also holds the state of
//! a client window. Every function is stated over a mathematical model of
//! its data and proved against it; what the parts guarantee together is
//! stated as proof functions next to them.
//!
//! Nothing here reads a socket, takes a lock or waits. A server puts each
//! registry behind a lock of its own, hands the bytes it reads to a
//! [`connection::Connection`] and writes what comes back.

pub mod client;
pub mod connection;
pub mod framer;
pub mod names;
pub mod protocol;
pub mod rooms;
pub mod session;
pub mod text;
pub mod topic;
pub mod world;
