//! A multiplexer that carries many logical connections over one byte stream.
//!
//! Each connection is named by a [`thin_addr::SocketAddr`]. What it sends is cut into frames, and a
//! frame is a [`protocol::MuxFrameHeader`] followed by as many bytes as the header announces. A
//! header that announces no bytes opens the connection it names, or closes it if it is open.
//!
//! The modules here decide: which bytes go onto the stream, what a byte that came off the stream
//! means, who has to be woken and which error a caller is given. They perform no input or output.
//! The code that owns the stream asks for the next piece of work, performs it and hands back what
//! came of it.
pub mod decimal;
pub mod delivery;
pub mod error;
pub mod integers;
pub mod outside;
pub mod packet_buffer;
pub mod poll;
pub mod poll_mutex;
pub mod protocol;
pub mod read;
pub mod receiving;
pub mod sending;
pub mod shared;
pub mod stream;
pub mod thin_addr;
pub mod write;
