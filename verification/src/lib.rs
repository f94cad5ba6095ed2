//! Peer-to-peer TCP port forwarding: the rules of the tunnel.
//!
//! What a port or a mapping is on the command line, the header that opens a
//! tunnel stream, which streams an exposer lets through, how a copy loop
//! moves one direction of a stream, and which endings stop the process. The
//! sockets and the peer-to-peer transport are driven from outside: this
//! library decides, its caller performs.
pub mod client;
pub mod key;
pub mod parse;
pub mod proxy;
pub mod server;
pub mod supervise;
pub mod wire;
