use webrtc_sdp::answer::{answer, IpVersion, TargetAddr};
use webrtc_sdp::description::SdpType;
use webrtc_sdp::error::Error;
use webrtc_sdp::fingerprint::Fingerprint;
use webrtc_sdp::offer::{munge_offer_sdp, offer};

const DIGEST: [u8; 32] = [
    0x7D, 0xE3, 0xD8, 0x3F, 0x81, 0xA6, 0x80, 0x59, 0x2A, 0x47, 0x1E, 0x6B, 0x6A, 0xBB, 0x07,
    0x47, 0xAB, 0xD3, 0x53, 0x85, 0xA8, 0x09, 0x3F, 0xDF, 0xE1, 0x12, 0xC1, 0xEE, 0xBB, 0x6C,
    0xC6, 0xAC,
];
const SDP_FORMAT: &str =
    "7D:E3:D8:3F:81:A6:80:59:2A:47:1E:6B:6A:BB:07:47:AB:D3:53:85:A8:09:3F:DF:E1:12:C1:EE:BB:6C:C6:AC";

fn v4_target() -> TargetAddr {
    TargetAddr { ip_version: IpVersion::Ip4, ip: "10.0.0.5".to_string(), port: 4001 }
}

#[test]
fn fingerprint_sdp_format() {
    let fp = Fingerprint::raw(DIGEST);
    assert_eq!(fp.to_sdp_format(), SDP_FORMAT);
    assert_eq!(fp.algorithm(), "sha-256");
    assert_eq!(fp.digest(), DIGEST);
}

#[test]
fn answer_for_ipv4_target() {
    let fp = Fingerprint::raw(DIGEST);
    let d = answer(&v4_target(), &fp, "tok");
    assert_eq!(d.sdp_type, SdpType::Answer);
    let expected = format!(
        "v=0\r\n\
         o=- 0 0 IN IP4 10.0.0.5\r\n\
         s=-\r\n\
         c=IN IP4 10.0.0.5\r\n\
         t=0 0\r\n\
         a=ice-lite\r\n\
         m=application 4001 UDP/DTLS/SCTP webrtc-datachannel\r\n\
         a=mid:0\r\n\
         a=setup:passive\r\n\
         a=ice-ufrag:tok\r\n\
         a=ice-pwd:tok\r\n\
         a=fingerprint:sha-256 {}\r\n\
         a=sctp-port:5000\r\n\
         a=max-message-size:16384\r\n\
         a=candidate:1467250027 1 UDP 1467250027 10.0.0.5 4001 typ host\r\n",
        SDP_FORMAT
    );
    assert_eq!(d.sdp, expected);
    assert!(d.sdp.contains("a=candidate:1467250027 1 UDP 1467250027 10.0.0.5 4001 typ host\r\n"));
    assert!(d.sdp.contains("c=IN IP4 10.0.0.5\r\n"));
}

#[test]
fn answer_for_ipv6_target() {
    let addr = TargetAddr { ip_version: IpVersion::Ip6, ip: "::1".to_string(), port: 0 };
    let d = answer(&addr, &Fingerprint::raw([0xFF; 32]), "u");
    assert!(d.sdp.contains("o=- 0 0 IN IP6 ::1\r\n"));
    assert!(d.sdp.contains("m=application 0 UDP/DTLS/SCTP webrtc-datachannel\r\n"));
    assert!(d.sdp.contains(" ::1 0 typ host\r\n"));
    let max = TargetAddr { ip_version: IpVersion::Ip6, ip: "::1".to_string(), port: 65535 };
    assert!(answer(&max, &Fingerprint::raw([0; 32]), "u").sdp.contains(" ::1 65535 typ host\r\n"));
}

#[test]
fn answer_is_deterministic() {
    let fp = Fingerprint::raw(DIGEST);
    let a = answer(&v4_target(), &fp, "libp2p+webrtc+v1/abc");
    let b = answer(&v4_target(), &fp, "libp2p+webrtc+v1/abc");
    assert_eq!(a, b);
}

#[test]
fn answer_has_single_auth_and_fingerprint_lines() {
    let fp = Fingerprint::raw(DIGEST);
    let d = answer(&v4_target(), &fp, "secret");
    let lines: Vec<&str> = d.sdp.split("\r\n").collect();
    let ufrag: Vec<&&str> = lines.iter().filter(|l| l.starts_with("a=ice-ufrag:")).collect();
    let pwd: Vec<&&str> = lines.iter().filter(|l| l.starts_with("a=ice-pwd:")).collect();
    let fps: Vec<&&str> = lines.iter().filter(|l| l.starts_with("a=fingerprint:")).collect();
    assert_eq!(ufrag, vec![&"a=ice-ufrag:secret"]);
    assert_eq!(pwd, vec![&"a=ice-pwd:secret"]);
    let want = format!("a=fingerprint:sha-256 {}", SDP_FORMAT);
    assert_eq!(fps.len(), 1);
    assert_eq!(*fps[0], want.as_str());
}

#[test]
fn munge_replaces_credentials_and_drops_blank_line() {
    let out = munge_offer_sdp("a=ice-ufrag:abc\r\n\r\na=ice-pwd:xyz\r\n", "tok");
    assert_eq!(out, "a=ice-ufrag:tok\r\na=ice-pwd:tok\r\n");
}

#[test]
fn munge_keeps_other_lines_and_terminates_last() {
    let out = munge_offer_sdp("v=0\r\na=ice-options:trickle\r\na=mid:0", "t");
    assert_eq!(out, "v=0\r\na=ice-options:trickle\r\na=mid:0\r\n");
    assert_eq!(munge_offer_sdp("", "t"), "");
    assert_eq!(munge_offer_sdp("\r\n\r\n\r\n", "t"), "");
}

#[test]
fn munge_is_idempotent() {
    let input = "v=0\r\no=- 1 2 IN IP4 127.0.0.1\r\n\r\na=ice-ufrag:Ab12\r\na=ice-pwd:Zz99Zz\r\na=x\r";
    let once = munge_offer_sdp(input, "tok");
    let twice = munge_offer_sdp(&once, "tok");
    assert_eq!(once, twice);
}

#[test]
fn munge_leaves_no_blank_line() {
    let input = "\r\n\r\na=ice-ufrag:x\r\n\r\n\r\nb=1\r\n\r\n";
    let out = munge_offer_sdp(input, "tok");
    assert!(!out.contains("\r\n\r\n"));
    assert!(!out.starts_with("\r\n"));
    assert_eq!(out, "a=ice-ufrag:tok\r\nb=1\r\n");
}

#[test]
fn offer_without_text_fails_cast() {
    assert_eq!(offer(None, "tok"), Err(Error::JsCastFailed));
    let d = offer(Some("a=ice-pwd:q\r\n".to_string()), "tok").unwrap();
    assert_eq!(d.sdp_type, SdpType::Offer);
    assert_eq!(d.sdp, "a=ice-pwd:tok\r\n");
}
