//! Session descriptions as handed to the host engine.

use vstd::prelude::*;

verus! {

/// Whether a description is the local offer or the remote answer.
#[derive(Debug, Clone, Copy, PartialEq, Eq, Structural)]
pub enum SdpType {
    Offer,
    Answer,
}

/// A session description: its type and its SDP text.
#[derive(Debug, Clone, PartialEq, Eq)]
pub struct SessionDescription {
    pub sdp_type: SdpType,
    pub sdp: String,
}

} // verus!
