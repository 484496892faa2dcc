//! Munging of the offer that the host engine generated for itself, so that it
//! carries the locally chosen ICE credentials.

use vstd::prelude::*;
use crate::description::{SdpType, SessionDescription};
use crate::error::Error;
use crate::lines::{
    chars_of, crlf, join_lines, lines_of, no_blank_line, no_crlf, no_line_break, split_from,
    lemma_concat_one_line, lemma_join_cons, lemma_join_no_blank, lemma_join_one,
    lemma_lines_no_crlf, lemma_lines_of_join, lemma_no_line_break_no_crlf,
};

verus! {

broadcast use vstd::string::group_string_axioms;

/// `a=ice-ufrag:`
pub open spec fn ufrag_prefix() -> Seq<char> {
    seq!['a', '=', 'i', 'c', 'e', '-', 'u', 'f', 'r', 'a', 'g', ':']
}

/// `a=ice-pwd:`
pub open spec fn pwd_prefix() -> Seq<char> {
    seq!['a', '=', 'i', 'c', 'e', '-', 'p', 'w', 'd', ':']
}

/// `p` is a prefix of `s`.
pub open spec fn starts_with(s: Seq<char>, p: Seq<char>) -> bool {
    p.len() <= s.len() && s.take(p.len() as int) == p
}

/// A line of the offer as it is written back: both authentication lines carry
/// the token, every other line is kept.
pub open spec fn rewrite_line(l: Seq<char>, token: Seq<char>) -> Seq<char> {
    if starts_with(l, ufrag_prefix()) {
        ufrag_prefix() + token
    } else if starts_with(l, pwd_prefix()) {
        pwd_prefix() + token
    } else {
        l
    }
}

/// The lines written back: blank lines dropped, the others rewritten.
pub open spec fn munge_lines(ls: Seq<Seq<char>>, token: Seq<char>) -> Seq<Seq<char>>
    decreases ls.len(),
{
    if ls.len() == 0 {
        Seq::empty()
    } else if ls[0].len() == 0 {
        munge_lines(ls.skip(1), token)
    } else {
        seq![rewrite_line(ls[0], token)] + munge_lines(ls.skip(1), token)
    }
}

/// The munged offer text: the lines of `sdp`, munged, each ended by CRLF.
pub open spec fn munged(sdp: Seq<char>, token: Seq<char>) -> Seq<char> {
    join_lines(munge_lines(lines_of(sdp), token))
}

/// Munging a first line and the rest.
pub proof fn lemma_munge_cons(l: Seq<char>, ls: Seq<Seq<char>>, token: Seq<char>)
    ensures
        munge_lines(seq![l] + ls, token) == if l.len() == 0 {
            munge_lines(ls, token)
        } else {
            seq![rewrite_line(l, token)] + munge_lines(ls, token)
        },
{
    assert((seq![l] + ls).skip(1) =~= ls);
}

/// Whether `cs[start..end]` begins with `p`.
fn has_prefix(cs: &Vec<char>, start: usize, end: usize, p: &Vec<char>) -> (r: bool)
    requires
        start <= end <= cs.len(),
    ensures
        r == starts_with(cs@.subrange(start as int, end as int), p@),
{
    let ghost line = cs@.subrange(start as int, end as int);
    if p.len() > end - start {
        return false;
    }
    let mut k: usize = 0;
    while k < p.len()
        invariant
            p.len() <= end - start,
            start <= end <= cs.len(),
            k <= p.len(),
            line == cs@.subrange(start as int, end as int),
            forall|j: int| 0 <= j < k ==> line[j] == p@[j],
        decreases p.len() - k,
    {
        if cs[start + k] != p[k] {
            assert(line.take(p.len() as int)[k as int] != p@[k as int]);
            return false;
        }
        k = k + 1;
    }
    assert(line.take(p.len() as int) =~= p@);
    true
}

/// Appends the munged form of the line `cs[start..end]` of `sdp`.
fn push_munged_line(
    out: &mut String,
    sdp: &str,
    cs: &Vec<char>,
    start: usize,
    end: usize,
    token: &str,
    ufrag: &Vec<char>,
    pwd: &Vec<char>,
)
    requires
        cs@ == sdp@,
        start <= end <= cs.len(),
        ufrag@ == ufrag_prefix(),
        pwd@ == pwd_prefix(),
    ensures
        final(out)@ == old(out)@ + if start == end {
            Seq::empty()
        } else {
            rewrite_line(sdp@.subrange(start as int, end as int), token@) + crlf()
        },
{
    if start == end {
        assert(old(out)@ + Seq::<char>::empty() =~= old(out)@);
        return ;
    }
    if has_prefix(cs, start, end, ufrag) {
        proof {
            reveal_strlit("a=ice-ufrag:");
        }
        assert("a=ice-ufrag:"@ =~= ufrag_prefix());
        out.append("a=ice-ufrag:");
        out.append(token);
    } else if has_prefix(cs, start, end, pwd) {
        proof {
            reveal_strlit("a=ice-pwd:");
        }
        assert("a=ice-pwd:"@ =~= pwd_prefix());
        out.append("a=ice-pwd:");
        out.append(token);
    } else {
        out.append(sdp.substring_char(start, end));
    }
    proof {
        reveal_strlit("\r\n");
    }
    assert("\r\n"@ =~= crlf());
    out.append("\r\n");
}

/// Rewrites the offer text `sdp` so that its `a=ice-ufrag:` and `a=ice-pwd:`
/// lines both carry `token`, drops blank lines and ends every line with CRLF.
/// The rebuilt text holds no doubled CRLF (see `lemma_munged_no_blank_line`),
/// so it needs no collapsing pass afterwards.
pub fn munge_offer_sdp(sdp: &str, token: &str) -> (r: String)
    ensures
        r@ == munged(sdp@, token@),
{
    let cs = chars_of(sdp);
    let ufrag = chars_of("a=ice-ufrag:");
    let pwd = chars_of("a=ice-pwd:");
    proof {
        reveal_strlit("a=ice-ufrag:");
        reveal_strlit("a=ice-pwd:");
    }
    assert(ufrag@ =~= ufrag_prefix());
    assert(pwd@ =~= pwd_prefix());
    let n = cs.len();
    let mut out = String::new();
    let mut start: usize = 0;
    let mut i: usize = 0;
    assert(sdp@.skip(0) =~= sdp@);
    assert(sdp@.subrange(0, 0) =~= Seq::<char>::empty());
    assert(out@ + munged(sdp@, token@) =~= munged(sdp@, token@));
    while i < n
        invariant
            n == cs.len(),
            cs@ == sdp@,
            start <= i <= n,
            ufrag@ == ufrag_prefix(),
            pwd@ == pwd_prefix(),
            out@ + join_lines(
                munge_lines(
                    split_from(sdp@.skip(i as int), sdp@.subrange(start as int, i as int)),
                    token@,
                ),
            ) == munged(sdp@, token@),
        decreases n - i,
    {
        let ghost rest = sdp@.skip(i as int);
        let ghost cur = sdp@.subrange(start as int, i as int);
        if i + 1 < n && cs[i] == '\r' && cs[i + 1] == '\n' {
            let ghost after = split_from(sdp@.skip(i + 2), Seq::empty());
            assert(rest.skip(2) =~= sdp@.skip(i + 2));
            assert(split_from(rest, cur) == seq![cur] + after);
            assert((seq![cur] + after).skip(1) =~= after);
            proof {
                lemma_munge_cons(cur, after, token@);
                if cur.len() > 0 {
                    lemma_join_cons(rewrite_line(cur, token@), munge_lines(after, token@));
                }
            }
            let ghost before = out@;
            push_munged_line(&mut out, sdp, &cs, start, i, token, &ufrag, &pwd);
            proof {
                lemma_join_one(rewrite_line(cur, token@));
                if cur.len() > 0 {
                    assert(out@ == before + (rewrite_line(cur, token@) + crlf()));
                    assert(out@ + join_lines(munge_lines(after, token@)) =~= before + join_lines(
                        munge_lines(seq![cur] + after, token@),
                    ));
                } else {
                    assert(out@ =~= before);
                }
            }
            i = i + 2;
            start = i;
            assert(sdp@.subrange(start as int, i as int) =~= Seq::<char>::empty());
        } else {
            assert(rest.skip(1) =~= sdp@.skip(i + 1));
            assert(rest[0] == cs@[i as int]);
            assert(split_from(rest, cur) == split_from(rest.skip(1), cur.push(rest[0])));
            assert(cur.push(rest[0]) =~= sdp@.subrange(start as int, i + 1));
            i = i + 1;
        }
    }
    assert(sdp@.skip(n as int) =~= Seq::<char>::empty());
    let ghost before = out@;
    let ghost cur = sdp@.subrange(start as int, n as int);
    push_munged_line(&mut out, sdp, &cs, start, n, token, &ufrag, &pwd);
    proof {
        assert(split_from(sdp@.skip(n as int), cur) == seq![cur]);
        lemma_munge_cons(cur, Seq::empty(), token@);
        assert(seq![cur] + Seq::<Seq<char>>::empty() =~= seq![cur]);
        if cur.len() > 0 {
            lemma_join_one(rewrite_line(cur, token@));
            assert(seq![rewrite_line(cur, token@)] + Seq::<Seq<char>>::empty() =~= seq![
                rewrite_line(cur, token@),
            ]);
            assert(out@ =~= before + join_lines(munge_lines(seq![cur], token@)));
        } else {
            assert(out@ =~= before + join_lines(munge_lines(seq![cur], token@)));
        }
    }
    out
}

/// Turns the text of the offer that the host engine generated into the
/// offer to install locally: `None` when the engine's offer had no SDP text.
pub fn offer(offer_sdp: Option<String>, client_ufrag: &str) -> (r: Result<
    SessionDescription,
    Error,
>)
    ensures
        offer_sdp is None <==> r is Err,
        r matches Err(e) ==> e is JsCastFailed,
        offer_sdp matches Some(t) ==> r matches Ok(d) && d.sdp_type == SdpType::Offer && d.sdp@
            == munged(t@, client_ufrag@),
{
    match offer_sdp {
        None => Err(Error::JsCastFailed),
        Some(t) => {
            let sdp = munge_offer_sdp(t.as_str(), client_ufrag);
            Ok(SessionDescription { sdp_type: SdpType::Offer, sdp })
        },
    }
}

/// Lines ready to be written back: non-empty, free of CRLF, and unchanged by
/// munging.
pub open spec fn settled(ls: Seq<Seq<char>>, token: Seq<char>) -> bool {
    forall|i: int|
        0 <= i < ls.len() ==> (#[trigger] ls[i]).len() > 0 && no_crlf(ls[i]) && rewrite_line(
            ls[i],
            token,
        ) == ls[i]
}

proof fn lemma_prefix_one_line(p: Seq<char>, token: Seq<char>)
    requires
        p == ufrag_prefix() || p == pwd_prefix(),
        no_line_break(token),
    ensures
        no_crlf(p + token),
        (p + token).len() > 0,
        starts_with(p + token, p),
{
    assert(no_line_break(ufrag_prefix()));
    assert(no_line_break(pwd_prefix()));
    lemma_concat_one_line(p, token);
    lemma_no_line_break_no_crlf(p + token);
    assert((p + token).take(p.len() as int) =~= p);
}

/// A rewritten line is settled.
proof fn lemma_rewrite_settled(l: Seq<char>, token: Seq<char>)
    requires
        l.len() > 0,
        no_crlf(l),
        no_line_break(token),
    ensures
        rewrite_line(l, token).len() > 0,
        no_crlf(rewrite_line(l, token)),
        rewrite_line(rewrite_line(l, token), token) == rewrite_line(l, token),
{
    if starts_with(l, ufrag_prefix()) {
        lemma_prefix_one_line(ufrag_prefix(), token);
    } else if starts_with(l, pwd_prefix()) {
        lemma_prefix_one_line(pwd_prefix(), token);
        let r = pwd_prefix() + token;
        if starts_with(r, ufrag_prefix()) {
            assert(r.take(12)[6] == r[6]);
        }
    }
}

/// Munged lines are settled.
proof fn lemma_munge_settled(ls: Seq<Seq<char>>, token: Seq<char>)
    requires
        forall|i: int| 0 <= i < ls.len() ==> no_crlf(#[trigger] ls[i]),
        no_line_break(token),
    ensures
        settled(munge_lines(ls, token), token),
    decreases ls.len(),
{
    if ls.len() > 0 {
        let tail = ls.skip(1);
        assert forall|i: int| 0 <= i < tail.len() implies no_crlf(#[trigger] tail[i]) by {
            assert(tail[i] == ls[i + 1]);
        }
        lemma_munge_settled(tail, token);
        if ls[0].len() > 0 {
            lemma_rewrite_settled(ls[0], token);
            let m = munge_lines(ls, token);
            let mt = munge_lines(tail, token);
            assert(m == seq![rewrite_line(ls[0], token)] + mt);
            assert forall|i: int| 0 <= i < m.len() implies (#[trigger] m[i]).len() > 0 && no_crlf(
                m[i],
            ) && rewrite_line(m[i], token) == m[i] by {
                if i > 0 {
                    assert(m[i] == mt[i - 1]);
                }
            }
        }
    }
}

/// Munging settled lines followed by the empty rest gives them back.
proof fn lemma_munge_settled_fixed(ls: Seq<Seq<char>>, token: Seq<char>)
    requires
        settled(ls, token),
    ensures
        munge_lines(ls.push(Seq::<char>::empty()), token) == ls,
    decreases ls.len(),
{
    let e = Seq::<char>::empty();
    if ls.len() == 0 {
        assert(ls.push(e) =~= seq![e]);
        lemma_munge_cons(e, Seq::empty(), token);
        assert(seq![e] + Seq::<Seq<char>>::empty() =~= seq![e]);
        assert(munge_lines(Seq::<Seq<char>>::empty(), token) =~= ls);
    } else {
        let tail = ls.skip(1);
        assert forall|i: int| 0 <= i < tail.len() implies (#[trigger] tail[i]).len() > 0 && no_crlf(
            tail[i],
        ) && rewrite_line(tail[i], token) == tail[i] by {
            assert(tail[i] == ls[i + 1]);
        }
        lemma_munge_settled_fixed(tail, token);
        assert(ls.push(e) =~= seq![ls[0]] + tail.push(e));
        lemma_munge_cons(ls[0], tail.push(e), token);
        assert(ls =~= seq![ls[0]] + tail);
    }
}

/// Munging is idempotent: munging an already munged offer with the same
/// token gives the same text.
pub proof fn lemma_munge_idempotent(sdp: Seq<char>, token: Seq<char>)
    requires
        no_line_break(token),
    ensures
        munged(munged(sdp, token), token) == munged(sdp, token),
{
    let m = munge_lines(lines_of(sdp), token);
    lemma_lines_no_crlf(sdp);
    lemma_munge_settled(lines_of(sdp), token);
    lemma_lines_of_join(m);
    lemma_munge_settled_fixed(m, token);
}

/// Munged text holds no blank line, and so no CRLF right after another.
pub proof fn lemma_munged_no_blank_line(sdp: Seq<char>, token: Seq<char>)
    requires
        no_line_break(token),
    ensures
        no_blank_line(munged(sdp, token)),
{
    lemma_lines_no_crlf(sdp);
    lemma_munge_settled(lines_of(sdp), token);
    lemma_join_no_blank(munge_lines(lines_of(sdp), token));
}

} // verus!
