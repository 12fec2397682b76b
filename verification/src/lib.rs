//! A client-side engine for a Language Server Protocol session: the
//! Content-Length framed JSON-RPC transport, request-id allocation and
//! correlation, the initialize handshake state machine, and the editor
//! buffer the surrounding editor drives.
//!
//! The process around this library only moves what it builds: the writer
//! thread sends the wire bytes of `msg`, the reader thread feeds frames
//! back through `framing` and `msg`, and the session in `session` decides
//! everything in between.

pub mod buffer;
pub mod capabilities;
pub mod codec;
pub mod command;
pub mod config;
pub mod decode;
pub mod events;
pub mod framing;
pub mod idalloc;
pub mod json;
pub mod json_laws;
pub mod modes;
pub mod msg;
pub mod msg_laws;
pub mod session;
pub mod text;
pub mod types;
