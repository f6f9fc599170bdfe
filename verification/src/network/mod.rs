//! Messages from and to other processes.

pub mod codec;
pub mod peer_rpc;
pub mod tx_socket_server;
