//! The core of Flurry, a client that shows the screens of a 3DS streamed over WiFi.
//!
//! - [`v1`], [`legacy`] and [`v2`] are the wire protocols: encoding and decoding
//!   over byte slices, without input or output.
//! - [`worker`] is what the client says to the 3DS and what it makes of the packets
//!   that come back; [`picture`] is how decoded pieces become screens, [`jpeg`] and
//!   [`layout`] how they are decoded.
//! - [`client`] is what the client decides from one paint of its window to the
//!   next, with [`settings`], [`profile`] and [`meter`].
//! - [`bench`] is the benchmark that sweeps the settings, with [`quality`] and
//!   [`order`].
//! - [`laws`] is what calls promise, over what they are given and what they give back.
//!
//! Sockets, threads, files, the window and floating-point arithmetic are the
//! application's; the library takes plain values and gives plain values back.

pub mod bench;
pub mod client;
pub mod jpeg;
pub mod laws;
pub mod layout;
pub mod legacy;
pub mod meter;
pub mod msg_type;
pub mod order;
pub mod picture;
pub mod profile;
pub mod quality;
pub mod settings;
pub mod single;
pub mod text;
pub mod v1;
pub mod v2;
pub mod wire;
pub mod worker;

pub use v1::{
    parse_header, Config, Device, Error, FrameHeader, FrameInfo, Hello, ImageFormat, Interlace,
    Message, PixFmt, Result, Screen, ScreenSelect, FRAME_HEADER_LEN, HEADER_LEN, MAGIC,
    MAX_PAYLOAD, PORT, PROTO_VERSION,
};
