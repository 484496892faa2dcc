//! The parts of a target's address that dialing reads: where it listens and
//! the fingerprint of its certificate.

use vstd::prelude::*;
use crate::answer::{IpVersion, TargetAddr};
use crate::error::Error;
use crate::fingerprint::{Fingerprint, MULTIHASH_SHA256_CODE};

verus! {

/// One component of a target's address, in order of appearance.
#[derive(Debug, Clone, PartialEq, Eq)]
pub enum AddrPart {
    /// An IP address: its version and its literal.
    Ip(IpVersion, String),
    /// A UDP port.
    Udp(u16),
    /// The marker of a WebRTC transport without signalling server.
    WebRtcDirect,
    /// A certificate hash: its multihash code and digest.
    Certhash(u64, Vec<u8>),
    /// The identity of the peer.
    P2p,
    /// Any other component.
    Other,
}

/// The address can be dialed: IP, UDP port, WebRTC marker and a SHA-256
/// certificate hash, then nothing or the peer's identity.
pub open spec fn dialable(parts: Seq<AddrPart>) -> bool {
    &&& parts.len() >= 4
    &&& parts[0] is Ip
    &&& parts[1] is Udp
    &&& parts[2] is WebRtcDirect
    &&& parts[3] matches AddrPart::Certhash(code, d) && code == MULTIHASH_SHA256_CODE && d@.len()
        == 32
    &&& parts.len() == 4 || parts[4] is P2p
}

/// Extracts the socket address and the certificate fingerprint from the
/// components of a target's address. Any other shape, a certificate hash of
/// another algorithm or of the wrong length is an invalid address.
pub fn parse_dial_addr(parts: &Vec<AddrPart>) -> (r: Result<(TargetAddr, Fingerprint), Error>)
    ensures
        r is Ok <==> dialable(parts@),
        r matches Err(e) ==> e is InvalidMultiaddr,
        r matches Ok((a, f)) ==> (parts@[0] matches AddrPart::Ip(v, ip) && a.ip_version == v
            && a.ip@ == ip@),
        r matches Ok((a, f)) ==> (parts@[1] matches AddrPart::Udp(port) && a.port == port),
        r matches Ok((a, f)) ==> (parts@[3] matches AddrPart::Certhash(_, d) && f@ == d@),
{
    if parts.len() < 4 {
        return Err(Error::InvalidMultiaddr("Could not parse a valid WebRTC multiaddr"));
    }
    let (ip_version, ip) = match &parts[0] {
        AddrPart::Ip(v, ip) => (*v, ip.clone()),
        _ => {
            return Err(Error::InvalidMultiaddr("Could not parse a valid WebRTC multiaddr"));
        },
    };
    let port = match &parts[1] {
        AddrPart::Udp(p) => *p,
        _ => {
            return Err(Error::InvalidMultiaddr("Could not parse a valid WebRTC multiaddr"));
        },
    };
    if !(match &parts[2] {
        AddrPart::WebRtcDirect => true,
        _ => false,
    }) {
        return Err(Error::InvalidMultiaddr("Could not parse a valid WebRTC multiaddr"));
    }
    if parts.len() > 4 && !(match &parts[4] {
        AddrPart::P2p => true,
        _ => false,
    }) {
        return Err(Error::InvalidMultiaddr("Could not parse a valid WebRTC multiaddr"));
    }
    let fingerprint = match &parts[3] {
        AddrPart::Certhash(code, d) => Fingerprint::try_from_certhash(*code, d.as_slice())?,
        _ => {
            return Err(Error::InvalidMultiaddr("Could not parse a valid WebRTC multiaddr"));
        },
    };
    Ok((TargetAddr { ip_version, ip, port }, fingerprint))
}

} // verus!
