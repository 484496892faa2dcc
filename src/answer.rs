//! The SDP answer that stands in for the target's reply: ICE-lite, one host
//! candidate, one data-channel media line.

use vstd::prelude::*;
use crate::description::{SdpType, SessionDescription};
use crate::fingerprint::{Fingerprint, sdp_hex, sha256_name};
use crate::lines::{
    decimal, join_lines, lemma_concat_one_line, lemma_decimal_one_line, lemma_join_push,
    lemma_lines_of_join, lemma_no_line_break_no_crlf, lines_of, no_crlf, no_line_break,
    push_decimal,
};
use crate::fingerprint::lemma_sdp_hex_one_line;
use crate::offer::{pwd_prefix, starts_with, ufrag_prefix};

verus! {

broadcast use vstd::string::group_string_axioms;

/// The IP version of the target's address.
#[derive(Debug, Clone, Copy, PartialEq, Eq, Structural)]
pub enum IpVersion {
    Ip4,
    Ip6,
}

/// The target's socket address: its IP version, its IP literal as text, and
/// its UDP port.
#[derive(Debug, Clone, PartialEq, Eq)]
pub struct TargetAddr {
    pub ip_version: IpVersion,
    pub ip: String,
    pub port: u16,
}

/// `IP4` or `IP6`, as SDP names the address type.
pub open spec fn ip_token(v: IpVersion) -> Seq<char> {
    match v {
        IpVersion::Ip4 => seq!['I', 'P', '4'],
        IpVersion::Ip6 => seq!['I', 'P', '6'],
    }
}

/// `a=fingerprint:`
pub open spec fn fingerprint_prefix() -> Seq<char> {
    "a=fingerprint:"@
}

/// The `a=fingerprint:` line of a fingerprint.
pub open spec fn fingerprint_line(fp: Seq<u8>) -> Seq<char> {
    fingerprint_prefix() + sha256_name() + " "@ + sdp_hex(fp)
}

/// The lines of the answer, in order.
pub open spec fn answer_lines(
    v: IpVersion,
    ip: Seq<char>,
    port: u16,
    fp: Seq<u8>,
    ufrag: Seq<char>,
) -> Seq<Seq<char>> {
    seq![
        "v=0"@,
        "o=- 0 0 IN "@ + ip_token(v) + " "@ + ip,
        "s=-"@,
        "c=IN "@ + ip_token(v) + " "@ + ip,
        "t=0 0"@,
        "a=ice-lite"@,
        "m=application "@ + decimal(port as nat) + " UDP/DTLS/SCTP webrtc-datachannel"@,
        "a=mid:0"@,
        "a=setup:passive"@,
        ufrag_prefix() + ufrag,
        pwd_prefix() + ufrag,
        fingerprint_line(fp),
        "a=sctp-port:5000"@,
        "a=max-message-size:16384"@,
        "a=candidate:1467250027 1 UDP 1467250027 "@ + ip + " "@ + decimal(port as nat)
            + " typ host"@,
    ]
}

/// The answer's SDP text: its lines, each ended by CRLF.
pub open spec fn answer_text(addr: TargetAddr, fp: Seq<u8>, ufrag: Seq<char>) -> Seq<char> {
    join_lines(answer_lines(addr.ip_version, addr.ip@, addr.port, fp, ufrag))
}

/// Appends `line` and CRLF to text that holds the lines `done`.
fn push_line(out: &mut String, line: String, Ghost(done): Ghost<Seq<Seq<char>>>)
    requires
        old(out)@ == join_lines(done),
    ensures
        final(out)@ == join_lines(done.push(line@)),
{
    out.append(line.as_str());
    proof {
        reveal_strlit("\r\n");
        lemma_join_push(done, line@);
    }
    out.append("\r\n");
    assert(out@ =~= join_lines(done.push(line@)));
}

fn ip_token_str(v: IpVersion) -> (r: &'static str)
    ensures
        r@ == ip_token(v),
{
    proof {
        reveal_strlit("IP4");
        reveal_strlit("IP6");
    }
    match v {
        IpVersion::Ip4 => {
            assert("IP4"@ =~= ip_token(v));
            "IP4"
        },
        IpVersion::Ip6 => {
            assert("IP6"@ =~= ip_token(v));
            "IP6"
        },
    }
}

/// Builds the SDP answer for the target at `addr` whose certificate has the
/// fingerprint `server_fingerprint`, with `client_ufrag` as both the ICE
/// username fragment and password. The result depends on the arguments
/// alone.
pub fn answer(addr: &TargetAddr, server_fingerprint: &Fingerprint, client_ufrag: &str) -> (r:
    SessionDescription)
    ensures
        r.sdp_type == SdpType::Answer,
        r.sdp@ == answer_text(*addr, server_fingerprint@, client_ufrag@),
{
    let ghost v = addr.ip_version;
    let ghost ip = addr.ip@;
    let ghost ls = answer_lines(v, ip, addr.port, server_fingerprint@, client_ufrag@);
    let tok = ip_token_str(addr.ip_version);
    let mut out = String::new();
    assert(out@ =~= join_lines(Seq::empty()));

    push_line(&mut out, String::from_str("v=0"), Ghost(Seq::empty()));
    assert(Seq::<Seq<char>>::empty().push(ls[0]) =~= ls.take(1));
    let l = String::from_str("o=- 0 0 IN ").concat(tok).concat(" ").concat(addr.ip.as_str());
    push_line(&mut out, l, Ghost(ls.take(1)));
    assert(ls.take(1).push(ls[1]) =~= ls.take(2));
    push_line(&mut out, String::from_str("s=-"), Ghost(ls.take(2)));
    assert(ls.take(2).push(ls[2]) =~= ls.take(3));
    let l = String::from_str("c=IN ").concat(tok).concat(" ").concat(addr.ip.as_str());
    push_line(&mut out, l, Ghost(ls.take(3)));
    assert(ls.take(3).push(ls[3]) =~= ls.take(4));
    push_line(&mut out, String::from_str("t=0 0"), Ghost(ls.take(4)));
    assert(ls.take(4).push(ls[4]) =~= ls.take(5));
    push_line(&mut out, String::from_str("a=ice-lite"), Ghost(ls.take(5)));
    assert(ls.take(5).push(ls[5]) =~= ls.take(6));
    let mut l = String::from_str("m=application ");
    push_decimal(&mut l, addr.port as u64);
    let l = l.concat(" UDP/DTLS/SCTP webrtc-datachannel");
    push_line(&mut out, l, Ghost(ls.take(6)));
    assert(ls.take(6).push(ls[6]) =~= ls.take(7));
    push_line(&mut out, String::from_str("a=mid:0"), Ghost(ls.take(7)));
    assert(ls.take(7).push(ls[7]) =~= ls.take(8));
    push_line(&mut out, String::from_str("a=setup:passive"), Ghost(ls.take(8)));
    assert(ls.take(8).push(ls[8]) =~= ls.take(9));
    proof {
        reveal_strlit("a=ice-ufrag:");
        reveal_strlit("a=ice-pwd:");
    }
    let l = String::from_str("a=ice-ufrag:").concat(client_ufrag);
    assert(l@ =~= ls[9]);
    push_line(&mut out, l, Ghost(ls.take(9)));
    assert(ls.take(9).push(ls[9]) =~= ls.take(10));
    let l = String::from_str("a=ice-pwd:").concat(client_ufrag);
    assert(l@ =~= ls[10]);
    push_line(&mut out, l, Ghost(ls.take(10)));
    assert(ls.take(10).push(ls[10]) =~= ls.take(11));
    let algorithm = server_fingerprint.algorithm();
    let value = server_fingerprint.to_sdp_format();
    let l = String::from_str("a=fingerprint:").concat(algorithm.as_str()).concat(" ").concat(
        value.as_str(),
    );
    push_line(&mut out, l, Ghost(ls.take(11)));
    assert(ls.take(11).push(ls[11]) =~= ls.take(12));
    push_line(&mut out, String::from_str("a=sctp-port:5000"), Ghost(ls.take(12)));
    assert(ls.take(12).push(ls[12]) =~= ls.take(13));
    push_line(&mut out, String::from_str("a=max-message-size:16384"), Ghost(ls.take(13)));
    assert(ls.take(13).push(ls[13]) =~= ls.take(14));
    let mut l = String::from_str("a=candidate:1467250027 1 UDP 1467250027 ").concat(
        addr.ip.as_str(),
    ).concat(" ");
    push_decimal(&mut l, addr.port as u64);
    let l = l.concat(" typ host");
    push_line(&mut out, l, Ghost(ls.take(14)));
    assert(ls.take(14).push(ls[14]) =~= ls);
    SessionDescription { sdp_type: SdpType::Answer, sdp: out }
}

/// Rendering is a function of its inputs: two answers built from the same
/// address, fingerprint and token have the same text.
pub proof fn lemma_answer_deterministic(
    addr: TargetAddr,
    fp: Seq<u8>,
    ufrag: Seq<char>,
    first: SessionDescription,
    second: SessionDescription,
)
    requires
        first.sdp@ == answer_text(addr, fp, ufrag),
        second.sdp@ == answer_text(addr, fp, ufrag),
    ensures
        first.sdp@ == second.sdp@,
{
}

/// `line` is in `ls`, and no other line of `ls` starts with `p`.
pub open spec fn sole_line(ls: Seq<Seq<char>>, p: Seq<char>, line: Seq<char>) -> bool {
    exists|i: int|
        0 <= i < ls.len() && #[trigger] ls[i] == line && forall|j: int|
            0 <= j < ls.len() && starts_with(#[trigger] ls[j], p) ==> j == i
}

proof fn lemma_not_prefix(s: Seq<char>, p: Seq<char>, k: int)
    requires
        0 <= k < p.len(),
        k < s.len() ==> s[k] != p[k],
    ensures
        !starts_with(s, p),
{
    if starts_with(s, p) {
        assert(s.take(p.len() as int)[k] == s[k]);
    }
}

/// The rendered answer splits into exactly its lines (and the empty rest
/// after the last CRLF). Among them exactly one is an `a=ice-ufrag:` line and
/// one an `a=ice-pwd:` line, both carrying the token, and exactly one is an
/// `a=fingerprint:` line, the canonical form of the fingerprint.
pub proof fn lemma_answer_lines(addr: TargetAddr, fp: Seq<u8>, ufrag: Seq<char>)
    requires
        no_line_break(addr.ip@),
        no_line_break(ufrag),
    ensures
        lines_of(answer_text(addr, fp, ufrag)) == answer_lines(
            addr.ip_version,
            addr.ip@,
            addr.port,
            fp,
            ufrag,
        ).push(Seq::<char>::empty()),
        sole_line(lines_of(answer_text(addr, fp, ufrag)), ufrag_prefix(), ufrag_prefix() + ufrag),
        sole_line(lines_of(answer_text(addr, fp, ufrag)), pwd_prefix(), pwd_prefix() + ufrag),
        sole_line(
            lines_of(answer_text(addr, fp, ufrag)),
            fingerprint_prefix(),
            fingerprint_line(fp),
        ),
{
    reveal_strlit("v=0");
    reveal_strlit("o=- 0 0 IN ");
    reveal_strlit(" ");
    reveal_strlit("s=-");
    reveal_strlit("c=IN ");
    reveal_strlit("t=0 0");
    reveal_strlit("a=ice-lite");
    reveal_strlit("m=application ");
    reveal_strlit(" UDP/DTLS/SCTP webrtc-datachannel");
    reveal_strlit("a=mid:0");
    reveal_strlit("a=setup:passive");
    reveal_strlit("a=fingerprint:");
    reveal_strlit("a=sctp-port:5000");
    reveal_strlit("a=max-message-size:16384");
    reveal_strlit("a=candidate:1467250027 1 UDP 1467250027 ");
    reveal_strlit(" typ host");
    let v = addr.ip_version;
    let ip = addr.ip@;
    let port = decimal(addr.port as nat);
    let ls = answer_lines(v, ip, addr.port, fp, ufrag);
    lemma_decimal_one_line(addr.port as nat);
    lemma_sdp_hex_one_line(fp);
    assert(no_line_break(ip_token(v)));
    assert(no_line_break(ufrag_prefix()));
    assert(no_line_break(pwd_prefix()));
    assert(no_line_break(sha256_name()));
    assert(no_line_break("v=0"@));
    assert(no_line_break("o=- 0 0 IN "@));
    assert(no_line_break(" "@));
    assert(no_line_break("s=-"@));
    assert(no_line_break("c=IN "@));
    assert(no_line_break("t=0 0"@));
    assert(no_line_break("a=ice-lite"@));
    assert(no_line_break("m=application "@));
    assert(no_line_break(" UDP/DTLS/SCTP webrtc-datachannel"@));
    assert(no_line_break("a=mid:0"@));
    assert(no_line_break("a=setup:passive"@));
    assert(no_line_break("a=fingerprint:"@));
    assert(no_line_break("a=sctp-port:5000"@));
    assert(no_line_break("a=max-message-size:16384"@));
    assert(no_line_break("a=candidate:1467250027 1 UDP 1467250027 "@));
    assert(no_line_break(" typ host"@));
    lemma_concat_one_line("o=- 0 0 IN "@, ip_token(v));
    lemma_concat_one_line("o=- 0 0 IN "@ + ip_token(v), " "@);
    lemma_concat_one_line("o=- 0 0 IN "@ + ip_token(v) + " "@, ip);
    lemma_concat_one_line("c=IN "@, ip_token(v));
    lemma_concat_one_line("c=IN "@ + ip_token(v), " "@);
    lemma_concat_one_line("c=IN "@ + ip_token(v) + " "@, ip);
    lemma_concat_one_line("m=application "@, port);
    lemma_concat_one_line("m=application "@ + port, " UDP/DTLS/SCTP webrtc-datachannel"@);
    lemma_concat_one_line(ufrag_prefix(), ufrag);
    lemma_concat_one_line(pwd_prefix(), ufrag);
    lemma_concat_one_line(fingerprint_prefix(), sha256_name());
    lemma_concat_one_line(fingerprint_prefix() + sha256_name(), " "@);
    lemma_concat_one_line(fingerprint_prefix() + sha256_name() + " "@, sdp_hex(fp));
    let cand = "a=candidate:1467250027 1 UDP 1467250027 "@;
    lemma_concat_one_line(cand, ip);
    lemma_concat_one_line(cand + ip, " "@);
    lemma_concat_one_line(cand + ip + " "@, port);
    lemma_concat_one_line(cand + ip + " "@ + port, " typ host"@);
    assert forall|i: int| 0 <= i < ls.len() implies no_crlf(#[trigger] ls[i]) by {
        assert(no_line_break(ls[i]));
        lemma_no_line_break_no_crlf(ls[i]);
    }
    lemma_lines_of_join(ls);
    let all = ls.push(Seq::<char>::empty());
    assert(all.len() == 16);
    // Every line but the three under test and `a=ice-lite` differs from all
    // three prefixes at its third character.
    assert forall|j: int| 0 <= j < all.len() && j != 5 && j != 9 && j != 10 && j != 11 implies (
    #[trigger] all[j]).len() < 3 || (all[j][2] != 'i' && all[j][2] != 'f') by {}
    assert(ufrag_prefix()[2] == 'i' && pwd_prefix()[2] == 'i' && fingerprint_prefix()[2] == 'f');
    assert forall|j: int| 0 <= j < all.len() && starts_with(#[trigger] all[j], ufrag_prefix())
        implies j == 9 by {
        if j == 5 || j == 10 {
            lemma_not_prefix(all[j], ufrag_prefix(), 6);
        } else if j == 11 {
            lemma_not_prefix(all[j], ufrag_prefix(), 2);
        } else if j != 9 {
            lemma_not_prefix(all[j], ufrag_prefix(), 2);
        }
    }
    assert forall|j: int| 0 <= j < all.len() && starts_with(#[trigger] all[j], pwd_prefix())
        implies j == 10 by {
        if j == 5 || j == 9 {
            lemma_not_prefix(all[j], pwd_prefix(), 6);
        } else if j != 10 {
            lemma_not_prefix(all[j], pwd_prefix(), 2);
        }
    }
    assert forall|j: int| 0 <= j < all.len() && starts_with(#[trigger] all[j], fingerprint_prefix())
        implies j == 11 by {
        if j != 11 {
            lemma_not_prefix(all[j], fingerprint_prefix(), 2);
        }
    }
    assert(all[9] == ufrag_prefix() + ufrag);
    assert(all[10] == pwd_prefix() + ufrag);
    assert(all[11] == fingerprint_line(fp));
}

} // verus!
