//! Training runs: the registry that owns them, the wire protocol that reports
//! them, and the server and client ends of the `/ws/training` socket.
//!
//! The modules hold decisions only. Channels, sockets, files and threads are
//! driven from outside: a driver hands in what arrived and carries out the
//! actions it gets back.

pub mod client_laws;
pub mod clock;
pub mod connection;
pub mod dataset;
pub mod dataset_laws;
pub mod ids;
pub mod laws;
pub mod manager;
pub mod model;
pub mod protocol;
pub mod replay;
pub mod run_laws;
pub mod runs;
pub mod server;
pub mod socket_laws;
pub mod text;
pub mod train;
