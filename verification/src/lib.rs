//! A WebRTC signalling and transport toolkit: STUN and TURN message codecs,
//! SDP parsing and building, and a chunked peer-to-peer file-transfer protocol.
use vstd::prelude::*;

pub mod address;
pub mod audio_info;
pub mod bytes;
pub mod clock;
pub mod connection;
pub mod ip_text;
pub mod stun;
pub mod sdp;
pub mod session;
pub mod text;
pub mod turn;

verus! {

} // verus!
