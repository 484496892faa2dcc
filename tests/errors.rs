use webrtc_sdp::error::Error;
use webrtc_sdp::fingerprint::Fingerprint;

#[test]
fn certhash_of_wrong_algorithm_is_invalid_address() {
    let r = Fingerprint::try_from_certhash(0x13, &[0u8; 32]);
    assert!(matches!(r, Err(Error::InvalidMultiaddr(_))));
}

#[test]
fn truncated_certhash_is_invalid_address() {
    let r = Fingerprint::try_from_certhash(0x12, &[7u8; 31]);
    assert!(matches!(r, Err(Error::InvalidMultiaddr(_))));
    let r = Fingerprint::try_from_certhash(0x12, &[]);
    assert!(matches!(r, Err(Error::InvalidMultiaddr(_))));
}

#[test]
fn certhash_of_sha256_is_accepted() {
    let f = Fingerprint::try_from_certhash(0x12, &[7u8; 32]).unwrap();
    assert_eq!(f, Fingerprint::raw([7u8; 32]));
    assert!(f.matches(&Fingerprint::raw([7u8; 32])));
    assert!(!f.matches(&Fingerprint::raw([8u8; 32])));
}

#[test]
fn error_messages() {
    assert_eq!(Error::InvalidMultiaddr("bad").message(), "Invalid multiaddr: bad");
    assert_eq!(Error::Utils("x".to_string()).message(), "WebRTC Utilities failure");
    assert_eq!(Error::JsError("boom".to_string()).message(), "JavaScript error: boom");
    assert_eq!(Error::JsCastFailed.message(), "JavaScript typecasting failed");
    assert_eq!(Error::UnknownRemotePeerId.message(), "Unknown remote peer ID");
    assert_eq!(Error::Connection("down".to_string()).message(), "Connection error: down");
}

#[test]
fn js_messages() {
    assert_eq!(Error::from_js_message(None), Error::JsError("Unknown error".to_string()));
    assert_eq!(Error::from_js_message(Some("e".to_string())), Error::JsError("e".to_string()));
    assert_eq!(Error::from("s".to_string()), Error::JsError("s".to_string()));
}
