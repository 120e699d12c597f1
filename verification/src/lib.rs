//! HTTP/2 connection machinery: framing, header compression, flow control and
//! the per-connection and per-stream state machines.
//!
//! Everything here works on plain values. Sockets, timers and futures belong to
//! the program around the library.
pub mod client;
pub mod codec;
pub mod config;
pub mod connection;
pub mod consts;
pub mod control;
pub mod default;
pub mod dispatcher;
pub mod error;
pub mod flow;
pub mod frame;
pub mod hpack;
pub mod http;
pub mod message;
pub mod reactions;
pub mod request;
pub mod server;
pub mod stream;
pub mod stream_data;
pub mod timer;
pub mod window;
