//! Trade observers: the events that control them, how symbols are spread
//! over observer nodes, and how a node spreads symbols over its sockets.

pub mod balancer;
pub mod events;
pub mod init;
pub mod sockets;
