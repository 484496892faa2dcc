use webrtc_sdp::addr::{parse_dial_addr, AddrPart};
use webrtc_sdp::answer::IpVersion;
use webrtc_sdp::error::Error;
use webrtc_sdp::fingerprint::Fingerprint;

fn parts(code: u64, digest: Vec<u8>) -> Vec<AddrPart> {
    vec![
        AddrPart::Ip(IpVersion::Ip4, "10.0.0.5".to_string()),
        AddrPart::Udp(4001),
        AddrPart::WebRtcDirect,
        AddrPart::Certhash(code, digest),
    ]
}

#[test]
fn dialable_address_yields_target_and_fingerprint() {
    let (addr, fp) = parse_dial_addr(&parts(0x12, vec![3; 32])).unwrap();
    assert_eq!(addr.ip_version, IpVersion::Ip4);
    assert_eq!(addr.ip, "10.0.0.5");
    assert_eq!(addr.port, 4001);
    assert_eq!(fp, Fingerprint::raw([3; 32]));
    let mut with_peer = parts(0x12, vec![3; 32]);
    with_peer.push(AddrPart::P2p);
    assert!(parse_dial_addr(&with_peer).is_ok());
}

#[test]
fn truncated_digest_is_invalid_address() {
    let r = parse_dial_addr(&parts(0x12, vec![3; 20]));
    assert!(matches!(r, Err(Error::InvalidMultiaddr(_))));
}

#[test]
fn unknown_hash_algorithm_is_invalid_address() {
    let r = parse_dial_addr(&parts(0x16, vec![3; 32]));
    assert!(matches!(r, Err(Error::InvalidMultiaddr(_))));
}

#[test]
fn misshapen_addresses_are_invalid() {
    assert!(matches!(parse_dial_addr(&vec![]), Err(Error::InvalidMultiaddr(_))));
    let mut p = parts(0x12, vec![3; 32]);
    p.push(AddrPart::Other);
    assert!(matches!(parse_dial_addr(&p), Err(Error::InvalidMultiaddr(_))));
    let mut p = parts(0x12, vec![3; 32]);
    p[2] = AddrPart::Other;
    assert!(matches!(parse_dial_addr(&p), Err(Error::InvalidMultiaddr(_))));
    let mut p = parts(0x12, vec![3; 32]);
    p[1] = AddrPart::P2p;
    assert!(matches!(parse_dial_addr(&p), Err(Error::InvalidMultiaddr(_))));
}
