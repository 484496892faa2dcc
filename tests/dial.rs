use webrtc_sdp::answer::{IpVersion, TargetAddr};
use webrtc_sdp::description::SdpType;
use webrtc_sdp::dial::{Dial, DialAction, DialEvent, Phase};
use webrtc_sdp::error::Error;
use webrtc_sdp::fingerprint::Fingerprint;

fn target() -> TargetAddr {
    TargetAddr { ip_version: IpVersion::Ip4, ip: "10.0.0.5".to_string(), port: 4001 }
}

fn at_handshake(expected: Fingerprint) -> Dial {
    let mut d = Dial::new(target(), expected, "tok".to_string());
    match d.step(DialEvent::OfferCreated(Some("a=ice-ufrag:x\r\n".to_string()))) {
        DialAction::SetLocalDescription(o) => {
            assert_eq!(o.sdp_type, SdpType::Offer);
            assert_eq!(o.sdp, "a=ice-ufrag:tok\r\n");
        }
        other => panic!("unexpected action {:?}", other),
    }
    assert_eq!(d.phase(), Phase::HaveLocalOffer);
    match d.step(DialEvent::LocalDescriptionSet) {
        DialAction::SetRemoteDescription(a) => {
            assert_eq!(a.sdp_type, SdpType::Answer);
            assert!(a.sdp.contains("a=ice-pwd:tok\r\n"));
        }
        other => panic!("unexpected action {:?}", other),
    }
    assert_eq!(d.phase(), Phase::HaveRemoteAnswer);
    d
}

#[test]
fn matching_handshake_connects() {
    let mut d = at_handshake(Fingerprint::raw([1; 32]));
    assert!(matches!(d.step(DialEvent::HandshakeCompleted(Fingerprint::raw([1; 32]))), DialAction::Established));
    assert_eq!(d.phase(), Phase::Connected);
}

#[test]
fn mismatching_handshake_is_identity_error() {
    let mut d = at_handshake(Fingerprint::raw([1; 32]));
    let mut other = [1u8; 32];
    other[31] = 2;
    match d.step(DialEvent::HandshakeCompleted(Fingerprint::raw(other))) {
        DialAction::Abort(e) => assert_eq!(e, Error::UnknownRemotePeerId),
        a => panic!("unexpected action {:?}", a),
    }
    assert_eq!(d.phase(), Phase::Failed);
}

#[test]
fn cancel_releases_without_error() {
    let mut d = at_handshake(Fingerprint::raw([1; 32]));
    assert!(matches!(d.step(DialEvent::Cancel), DialAction::Release));
    assert_eq!(d.phase(), Phase::Cancelled);
    assert!(matches!(d.step(DialEvent::TimedOut), DialAction::Ignore));
    assert!(matches!(d.step(DialEvent::HandshakeCompleted(Fingerprint::raw([9; 32]))), DialAction::Ignore));
    assert_eq!(d.phase(), Phase::Cancelled);
}

#[test]
fn timeout_is_connection_error() {
    let mut d = Dial::new(target(), Fingerprint::raw([1; 32]), "tok".to_string());
    match d.step(DialEvent::TimedOut) {
        DialAction::Abort(e) => {
            assert_eq!(e, Error::Connection("connection attempt timed out".to_string()))
        }
        a => panic!("unexpected action {:?}", a),
    }
    assert_eq!(d.phase(), Phase::Failed);
}

#[test]
fn missing_offer_text_fails_cast() {
    let mut d = Dial::new(target(), Fingerprint::raw([1; 32]), "tok".to_string());
    assert!(matches!(d.step(DialEvent::OfferCreated(None)), DialAction::Abort(Error::JsCastFailed)));
}

#[test]
fn engine_errors_are_reported() {
    let mut d = Dial::new(target(), Fingerprint::raw([1; 32]), "tok".to_string());
    match d.step(DialEvent::EngineError(None)) {
        DialAction::Abort(e) => assert_eq!(e, Error::JsError("Unknown error".to_string())),
        a => panic!("unexpected action {:?}", a),
    }
    let mut d = Dial::new(target(), Fingerprint::raw([1; 32]), "tok".to_string());
    match d.step(DialEvent::EngineFailed("ice failed".to_string())) {
        DialAction::Abort(e) => assert_eq!(e, Error::Connection("ice failed".to_string())),
        a => panic!("unexpected action {:?}", a),
    }
}

#[test]
fn early_handshake_is_ignored() {
    let mut d = Dial::new(target(), Fingerprint::raw([1; 32]), "tok".to_string());
    assert!(matches!(d.step(DialEvent::HandshakeCompleted(Fingerprint::raw([1; 32]))), DialAction::Ignore));
    assert_eq!(d.phase(), Phase::New);
}
