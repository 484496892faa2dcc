//! SDP negotiation for WebRTC connections set up without a signalling server:
//! the hand-built answer, the munged local offer, fingerprint handling, the
//! dial decisions and the error kinds they produce.

pub mod addr;
pub mod answer;
pub mod description;
pub mod dial;
pub mod error;
pub mod fingerprint;
pub mod lines;
pub mod offer;
