//! A Network Block Device (NBD) server and client.
//!
//! The protocol logic here works on byte buffers: each frame of the fixed
//! newstyle handshake and of the transmission phase has an encoder and a
//! parser, and each connection is a state machine that turns the bytes it is
//! given into the bytes to send back. The program around the library moves
//! those bytes over a socket.

pub mod bytes;
pub mod proto;
pub mod blocks;
pub mod server;
pub mod client;
pub mod kernel;
