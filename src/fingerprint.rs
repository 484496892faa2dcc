//! Certificate fingerprints: a SHA-256 digest and its SDP text form.

use vstd::prelude::*;
use crate::error::Error;
use crate::lines::no_line_break;

verus! {

broadcast use vstd::string::group_string_axioms;

/// The multihash code of SHA-256.
pub const MULTIHASH_SHA256_CODE: u64 = 0x12;

/// The uppercase hex digit of `n`, for `n < 16`.
pub open spec fn hex_digit(n: u8) -> char {
    seq!['0', '1', '2', '3', '4', '5', '6', '7', '8', '9', 'A', 'B', 'C', 'D', 'E', 'F'][n as int]
}

/// A byte as two uppercase hex digits.
pub open spec fn hex_byte(b: u8) -> Seq<char> {
    seq![hex_digit(b / 16), hex_digit(b % 16)]
}

/// Bytes as uppercase hex pairs separated by colons (RFC 4572).
pub open spec fn sdp_hex(bytes: Seq<u8>) -> Seq<char>
    decreases bytes.len(),
{
    if bytes.len() == 0 {
        Seq::empty()
    } else if bytes.len() == 1 {
        hex_byte(bytes[0])
    } else {
        hex_byte(bytes[0]) + seq![':'] + sdp_hex(bytes.skip(1))
    }
}

/// The SDP name of SHA-256.
pub open spec fn sha256_name() -> Seq<char> {
    seq!['s', 'h', 'a', '-', '2', '5', '6']
}

/// A certificate fingerprint: the SHA-256 digest of the certificate.
#[derive(Debug, Clone, Copy, PartialEq, Eq)]
pub struct Fingerprint {
    digest: [u8; 32],
}

impl View for Fingerprint {
    type V = Seq<u8>;

    closed spec fn view(&self) -> Seq<u8> {
        self.digest@
    }
}

/// Relies on `libp2p_webrtc_utils::Fingerprint::to_sdp_format`: each byte as
/// `{:02X}`, joined by `:`.
#[verifier::external_body]
fn outside_sdp_format(digest: [u8; 32]) -> (r: String)
    ensures
        r@ == sdp_hex(digest@),
{
    libp2p_webrtc_utils::Fingerprint::raw(digest).to_sdp_format()
}

/// Relies on `libp2p_webrtc_utils::Fingerprint::algorithm`: always the
/// constant `SHA256`, `"sha-256"`.
#[verifier::external_body]
fn outside_algorithm(digest: [u8; 32]) -> (r: String)
    ensures
        r@ == sha256_name(),
{
    libp2p_webrtc_utils::Fingerprint::raw(digest).algorithm()
}

impl Fingerprint {
    /// The fingerprint with the given SHA-256 digest.
    pub fn raw(digest: [u8; 32]) -> (r: Fingerprint)
        ensures
            r@ == digest@,
    {
        Fingerprint { digest }
    }

    /// The digest bytes.
    pub fn digest(&self) -> (r: [u8; 32])
        ensures
            r@ == self@,
    {
        self.digest
    }

    /// The fingerprint carried by a certificate hash of an address: a
    /// multihash `code` and its digest. Only SHA-256 digests of 32 bytes are
    /// accepted; anything else is an invalid address.
    pub fn try_from_certhash(code: u64, digest: &[u8]) -> (r: Result<Fingerprint, Error>)
        ensures
            r is Ok <==> (code == MULTIHASH_SHA256_CODE && digest@.len() == 32),
            r matches Ok(f) ==> f@ == digest@,
            r matches Err(e) ==> e is InvalidMultiaddr,
    {
        if code != MULTIHASH_SHA256_CODE {
            return Err(Error::InvalidMultiaddr("unsupported certificate hash algorithm"));
        }
        if digest.len() != 32 {
            return Err(Error::InvalidMultiaddr("certificate hash is not 32 bytes long"));
        }
        let mut bytes: [u8; 32] = [0u8; 32];
        let mut i: usize = 0;
        while i < 32
            invariant
                digest@.len() == 32,
                0 <= i <= 32,
                forall|j: int| 0 <= j < i ==> bytes@[j] == digest@[j],
            decreases 32 - i,
        {
            bytes[i] = digest[i];
            i = i + 1;
        }
        assert(bytes@ =~= digest@);
        Ok(Fingerprint { digest: bytes })
    }

    /// The hash algorithm's SDP name, `sha-256`.
    pub fn algorithm(&self) -> (r: String)
        ensures
            r@ == sha256_name(),
    {
        outside_algorithm(self.digest)
    }

    /// The digest as uppercase hex pairs separated by colons.
    pub fn to_sdp_format(&self) -> (r: String)
        ensures
            r@ == sdp_hex(self@),
    {
        outside_sdp_format(self.digest)
    }

    /// Whether `observed`, the hash of the certificate seen in the handshake,
    /// is this fingerprint.
    pub fn matches(&self, observed: &Fingerprint) -> (r: bool)
        ensures
            r == (self@ == observed@),
    {
        let mut i: usize = 0;
        while i < 32
            invariant
                0 <= i <= 32,
                forall|j: int| 0 <= j < i ==> self@[j] == observed@[j],
            decreases 32 - i,
        {
            if self.digest[i] != observed.digest[i] {
                return false;
            }
            i = i + 1;
        }
        assert(self@ =~= observed@);
        true
    }
}

/// The SDP form of a fingerprint holds no line break.
pub proof fn lemma_sdp_hex_one_line(bytes: Seq<u8>)
    ensures
        no_line_break(sdp_hex(bytes)),
    decreases bytes.len(),
{
    let digits = seq!['0', '1', '2', '3', '4', '5', '6', '7', '8', '9', 'A', 'B', 'C', 'D', 'E', 'F'];
    assert forall|n: u8| n < 16 implies #[trigger] hex_digit(n) != '\r' && hex_digit(n) != '\n' by {
        assert(hex_digit(n) == digits[n as int]);
    }
    if bytes.len() >= 1 {
        let b = bytes[0];
        assert(hex_digit(b / 16) != '\r' && hex_digit(b / 16) != '\n');
        assert(hex_digit(b % 16) != '\r' && hex_digit(b % 16) != '\n');
        assert(no_line_break(hex_byte(b)));
        if bytes.len() > 1 {
            lemma_sdp_hex_one_line(bytes.skip(1));
            let s = sdp_hex(bytes);
            assert(s == hex_byte(b) + seq![':'] + sdp_hex(bytes.skip(1)));
            assert forall|i: int| 0 <= i < s.len() implies #[trigger] s[i] != '\r' && s[i]
                != '\n' by {
                if i >= 3 {
                    assert(s[i] == sdp_hex(bytes.skip(1))[i - 3]);
                }
            }
        }
    }
}

} // verus!
