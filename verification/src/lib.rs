//! Verified core of the propolis server: the live-migration wire format and
//! memory-transfer bitmaps, the RFB (VNC) messages and handshake, the serial
//! console session, and the server's decision rules.

use vstd::prelude::*;

pub mod buf;
pub mod codec;
pub mod config;
pub mod dirty;
pub mod headers;
pub mod initializer;
pub mod memx;
pub mod migrate;
pub mod rfb;
pub mod serial;
pub mod server;
pub mod splash;
pub mod vnc;
pub mod wire;
