//! What a connection reads from and writes into session descriptions during
//! signalling: the DTLS fingerprint and setup role, and the remote endpoint
//! of the first ICE candidate.
pub mod dtls;
pub mod ice;
pub mod offer;
pub mod sdp;
