//! Message type bytes. Client to server 0x01 to 0x7F, server to client 0x80 to
//! 0xFE, 0xFF for an error in either direction.

use vstd::prelude::*;

verus! {

pub const CONFIG: u8 = 0x02;

pub const START: u8 = 0x03;

pub const STOP: u8 = 0x04;

pub const DISCONNECT: u8 = 0x05;

pub const DEBUG: u8 = 0x7F;

pub const HELLO: u8 = 0x80;

pub const FRAME: u8 = 0x81;

pub const STATS: u8 = 0x82;

pub const ERROR: u8 = 0xFF;

} // verus!
