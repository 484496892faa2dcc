//! The decisions of one dial attempt. The host engine's side (creating the
//! offer, installing descriptions, the handshake) happens elsewhere; each of
//! its outcomes comes back here as an event, and the attempt answers with
//! the next action.

use vstd::prelude::*;
use crate::answer::{TargetAddr, answer, answer_text};
use crate::description::{SdpType, SessionDescription};
use crate::error::{Error, unknown_error_text};
use crate::fingerprint::Fingerprint;
use crate::offer::{munged, offer};

verus! {

broadcast use vstd::string::group_string_axioms;

/// Where a dial attempt stands.
#[derive(Debug, Clone, Copy, PartialEq, Eq, Structural)]
pub enum Phase {
    /// Waiting for the host engine's own offer.
    New,
    /// The munged offer is being installed as the local description.
    HaveLocalOffer,
    /// The answer is installed; waiting for the handshake.
    HaveRemoteAnswer,
    /// The handshake completed with the expected certificate.
    Connected,
    /// The attempt ended with an error.
    Failed,
    /// The caller abandoned the attempt.
    Cancelled,
}

/// What the host engine reports.
#[derive(Debug)]
pub enum DialEvent {
    /// The engine created its offer; the SDP text, if it had any.
    OfferCreated(Option<String>),
    /// The engine installed the local description.
    LocalDescriptionSet,
    /// The handshake completed; the hash of the certificate it saw.
    HandshakeCompleted(Fingerprint),
    /// The engine's connection failed, with its message.
    EngineFailed(String),
    /// An engine call threw, with the message if there was one.
    EngineError(Option<String>),
    /// The caller's time limit ran out.
    TimedOut,
    /// The caller abandoned the attempt.
    Cancel,
}

/// What the attempt asks of the host engine next.
#[derive(Debug)]
pub enum DialAction {
    /// Install this offer as the local description.
    SetLocalDescription(SessionDescription),
    /// Install this answer as the remote description.
    SetRemoteDescription(SessionDescription),
    /// The connection is usable.
    Established,
    /// Close the engine's connection and report the error.
    Abort(Error),
    /// Close the engine's connection and report nothing.
    Release,
    /// Nothing to do.
    Ignore,
}

/// The phases in which the attempt still waits on the engine.
pub open spec fn is_live(p: Phase) -> bool {
    p == Phase::New || p == Phase::HaveLocalOffer || p == Phase::HaveRemoteAnswer
}

/// The text of the error for a timed-out attempt.
pub open spec fn timeout_text() -> Seq<char> {
    "connection attempt timed out"@
}

/// The phase after `e` in phase `p`, where `expected` is the fingerprint the
/// target's address names.
pub open spec fn next_phase(p: Phase, e: DialEvent, expected: Seq<u8>) -> Phase {
    if !is_live(p) {
        p
    } else {
        match e {
            DialEvent::OfferCreated(sdp) => if p == Phase::New {
                if sdp is Some {
                    Phase::HaveLocalOffer
                } else {
                    Phase::Failed
                }
            } else {
                p
            },
            DialEvent::LocalDescriptionSet => if p == Phase::HaveLocalOffer {
                Phase::HaveRemoteAnswer
            } else {
                p
            },
            DialEvent::HandshakeCompleted(seen) => if p == Phase::HaveRemoteAnswer {
                if seen@ == expected {
                    Phase::Connected
                } else {
                    Phase::Failed
                }
            } else {
                p
            },
            DialEvent::EngineFailed(_) => Phase::Failed,
            DialEvent::EngineError(_) => Phase::Failed,
            DialEvent::TimedOut => Phase::Failed,
            DialEvent::Cancel => Phase::Cancelled,
        }
    }
}

/// The action owed for `e` in phase `p` of an attempt on `addr`, with
/// fingerprint `expected` and ICE token `ufrag`.
pub open spec fn action_for(
    p: Phase,
    e: DialEvent,
    addr: TargetAddr,
    expected: Seq<u8>,
    ufrag: Seq<char>,
    a: DialAction,
) -> bool {
    if !is_live(p) {
        a is Ignore
    } else {
        match e {
            DialEvent::OfferCreated(sdp) => if p != Phase::New {
                a is Ignore
            } else {
                match sdp {
                    Some(t) => a matches DialAction::SetLocalDescription(d) && d.sdp_type
                        == SdpType::Offer && d.sdp@ == munged(t@, ufrag),
                    None => a matches DialAction::Abort(err) && err is JsCastFailed,
                }
            },
            DialEvent::LocalDescriptionSet => if p != Phase::HaveLocalOffer {
                a is Ignore
            } else {
                a matches DialAction::SetRemoteDescription(d) && d.sdp_type == SdpType::Answer
                    && d.sdp@ == answer_text(addr, expected, ufrag)
            },
            DialEvent::HandshakeCompleted(seen) => if p != Phase::HaveRemoteAnswer {
                a is Ignore
            } else if seen@ == expected {
                a is Established
            } else {
                a matches DialAction::Abort(err) && err is UnknownRemotePeerId
            },
            DialEvent::EngineFailed(m) => a matches DialAction::Abort(err) && err matches Error::Connection(
                t,
            ) && t@ == m@,
            DialEvent::EngineError(m) => a matches DialAction::Abort(err) && err matches Error::JsError(
                t,
            ) && t@ == match m {
                Some(s) => s@,
                None => unknown_error_text(),
            },
            DialEvent::TimedOut => a matches DialAction::Abort(err) && err matches Error::Connection(
                t,
            ) && t@ == timeout_text(),
            DialEvent::Cancel => a is Release,
        }
    }
}

/// One dial attempt: the target, the fingerprint its address names, the ICE
/// token chosen for this attempt, and the phase reached.
#[derive(Debug)]
pub struct Dial {
    addr: TargetAddr,
    expected: Fingerprint,
    ufrag: String,
    phase: Phase,
}

impl Dial {
    pub closed spec fn spec_phase(&self) -> Phase {
        self.phase
    }

    pub closed spec fn spec_addr(&self) -> TargetAddr {
        self.addr
    }

    pub closed spec fn spec_expected(&self) -> Seq<u8> {
        self.expected@
    }

    pub closed spec fn spec_ufrag(&self) -> Seq<char> {
        self.ufrag@
    }

    /// A new attempt on `addr`, whose certificate must hash to `expected`,
    /// with `ufrag` as ICE username fragment and password.
    pub fn new(addr: TargetAddr, expected: Fingerprint, ufrag: String) -> (r: Dial)
        ensures
            r.spec_phase() == Phase::New,
            r.spec_addr() == addr,
            r.spec_expected() == expected@,
            r.spec_ufrag() == ufrag@,
    {
        Dial { addr, expected, ufrag, phase: Phase::New }
    }

    /// The phase reached.
    pub fn phase(&self) -> (r: Phase)
        ensures
            r == self.spec_phase(),
    {
        self.phase
    }

    /// Takes the engine's report `event` and returns what to do next. The
    /// attempt reaches `Connected` only through a handshake whose certificate
    /// matches the expected fingerprint.
    pub fn step(&mut self, event: DialEvent) -> (r: DialAction)
        ensures
            final(self).spec_phase() == next_phase(old(self).spec_phase(), event, old(self).spec_expected()),
            final(self).spec_addr() == old(self).spec_addr(),
            final(self).spec_expected() == old(self).spec_expected(),
            final(self).spec_ufrag() == old(self).spec_ufrag(),
            action_for(
                old(self).spec_phase(),
                event,
                old(self).spec_addr(),
                old(self).spec_expected(),
                old(self).spec_ufrag(),
                r,
            ),
    {
        let p = self.phase;
        if !(p == Phase::New || p == Phase::HaveLocalOffer || p == Phase::HaveRemoteAnswer) {
            return DialAction::Ignore;
        }
        match event {
            DialEvent::OfferCreated(sdp) => {
                if p != Phase::New {
                    return DialAction::Ignore;
                }
                match offer(sdp, self.ufrag.as_str()) {
                    Ok(d) => {
                        self.phase = Phase::HaveLocalOffer;
                        DialAction::SetLocalDescription(d)
                    },
                    Err(e) => {
                        self.phase = Phase::Failed;
                        DialAction::Abort(e)
                    },
                }
            },
            DialEvent::LocalDescriptionSet => {
                if p != Phase::HaveLocalOffer {
                    return DialAction::Ignore;
                }
                let d = answer(&self.addr, &self.expected, self.ufrag.as_str());
                self.phase = Phase::HaveRemoteAnswer;
                DialAction::SetRemoteDescription(d)
            },
            DialEvent::HandshakeCompleted(seen) => {
                if p != Phase::HaveRemoteAnswer {
                    return DialAction::Ignore;
                }
                if self.expected.matches(&seen) {
                    self.phase = Phase::Connected;
                    DialAction::Established
                } else {
                    self.phase = Phase::Failed;
                    DialAction::Abort(Error::UnknownRemotePeerId)
                }
            },
            DialEvent::EngineFailed(m) => {
                self.phase = Phase::Failed;
                DialAction::Abort(Error::Connection(m))
            },
            DialEvent::EngineError(m) => {
                self.phase = Phase::Failed;
                DialAction::Abort(Error::from_js_message(m))
            },
            DialEvent::TimedOut => {
                self.phase = Phase::Failed;
                DialAction::Abort(Error::Connection(String::from_str("connection attempt timed out")))
            },
            DialEvent::Cancel => {
                self.phase = Phase::Cancelled;
                DialAction::Release
            },
        }
    }
}

/// A handshake whose certificate differs from the expected fingerprint ends
/// the attempt with the identity error, never with a usable connection.
pub proof fn lemma_mismatch_is_fatal(
    addr: TargetAddr,
    expected: Seq<u8>,
    ufrag: Seq<char>,
    seen: Fingerprint,
    a: DialAction,
)
    requires
        seen@ != expected,
        action_for(
            Phase::HaveRemoteAnswer,
            DialEvent::HandshakeCompleted(seen),
            addr,
            expected,
            ufrag,
            a,
        ),
    ensures
        next_phase(Phase::HaveRemoteAnswer, DialEvent::HandshakeCompleted(seen), expected)
            == Phase::Failed,
        a matches DialAction::Abort(err) && err is UnknownRemotePeerId,
{
}

/// Only a matching handshake leads to `Connected`.
pub proof fn lemma_connected_only_when_matching(p: Phase, e: DialEvent, expected: Seq<u8>)
    requires
        p != Phase::Connected,
        next_phase(p, e, expected) == Phase::Connected,
    ensures
        p == Phase::HaveRemoteAnswer,
        e matches DialEvent::HandshakeCompleted(seen) && seen@ == expected,
{
}

/// Cancelling an attempt that is still under way releases the engine's
/// connection and reports no error; once cancelled, no later report yields
/// an error or an action.
pub proof fn lemma_cancel_is_silent(
    p: Phase,
    e: DialEvent,
    addr: TargetAddr,
    expected: Seq<u8>,
    ufrag: Seq<char>,
    a: DialAction,
    b: DialAction,
)
    requires
        is_live(p),
        action_for(p, DialEvent::Cancel, addr, expected, ufrag, a),
        action_for(Phase::Cancelled, e, addr, expected, ufrag, b),
    ensures
        next_phase(p, DialEvent::Cancel, expected) == Phase::Cancelled,
        a is Release,
        next_phase(Phase::Cancelled, e, expected) == Phase::Cancelled,
        b is Ignore,
{
}

} // verus!
