//! Line structure of SDP text: splitting at CRLF, joining with CRLF, and the
//! facts that connect the two.

use vstd::prelude::*;
use vstd::std_specs::iter::IteratorSpec;

verus! {

broadcast use vstd::string::group_string_axioms;

/// The line terminator of SDP text.
pub open spec fn crlf() -> Seq<char> {
    seq!['\r', '\n']
}

/// A CRLF starts at position `i` of `s`.
pub open spec fn crlf_at(s: Seq<char>, i: int) -> bool {
    0 <= i && i + 1 < s.len() && s[i] == '\r' && s[i + 1] == '\n'
}

/// `s` holds no CRLF, so it can stand as one line.
pub open spec fn no_crlf(s: Seq<char>) -> bool {
    forall|i: int| !#[trigger] crlf_at(s, i)
}

/// `s` holds neither a carriage return nor a line feed.
pub open spec fn no_line_break(s: Seq<char>) -> bool {
    forall|i: int| 0 <= i < s.len() ==> #[trigger] s[i] != '\r' && s[i] != '\n'
}

/// Splits `rest` at each CRLF, where `line` is the part of the current line
/// already read. Like `str::split("\r\n")`, text without a terminator gives
/// one line and a trailing CRLF gives an empty last line.
pub open spec fn split_from(rest: Seq<char>, line: Seq<char>) -> Seq<Seq<char>>
    decreases rest.len(),
{
    if rest.len() == 0 {
        seq![line]
    } else if rest.len() >= 2 && rest[0] == '\r' && rest[1] == '\n' {
        seq![line] + split_from(rest.skip(2), Seq::empty())
    } else {
        split_from(rest.skip(1), line.push(rest[0]))
    }
}

/// The lines of `s`, split at each CRLF.
pub open spec fn lines_of(s: Seq<char>) -> Seq<Seq<char>> {
    split_from(s, Seq::empty())
}

/// Each line followed by CRLF.
pub open spec fn join_lines(ls: Seq<Seq<char>>) -> Seq<char>
    decreases ls.len(),
{
    if ls.len() == 0 {
        Seq::empty()
    } else {
        ls[0] + crlf() + join_lines(ls.skip(1))
    }
}

/// `s` holds no blank line: it does not start with CRLF and holds no CRLF
/// right after another.
pub open spec fn no_blank_line(s: Seq<char>) -> bool {
    &&& !crlf_at(s, 0)
    &&& forall|i: int| #[trigger] crlf_at(s, i) ==> !crlf_at(s, i + 2)
}

/// Joining a first line and the rest.
pub proof fn lemma_join_cons(l: Seq<char>, ls: Seq<Seq<char>>)
    ensures
        join_lines(seq![l] + ls) == l + crlf() + join_lines(ls),
{
    assert((seq![l] + ls).skip(1) =~= ls);
}

/// Joining one more line.
pub proof fn lemma_join_push(ls: Seq<Seq<char>>, l: Seq<char>)
    ensures
        join_lines(ls.push(l)) == join_lines(ls) + l + crlf(),
    decreases ls.len(),
{
    if ls.len() == 0 {
        lemma_join_one(l);
        assert(ls.push(l) =~= seq![l]);
        assert(join_lines(ls) + l + crlf() =~= l + crlf());
    } else {
        let tail = ls.skip(1);
        lemma_join_push(tail, l);
        assert(ls.push(l).skip(1) =~= tail.push(l));
        assert(join_lines(ls.push(l)) =~= join_lines(ls) + l + crlf());
    }
}

/// The decimal digit of `d`, for `d < 10`.
pub open spec fn digit_char(d: nat) -> char {
    seq!['0', '1', '2', '3', '4', '5', '6', '7', '8', '9'][d as int]
}

/// `n` in decimal, without leading zeros.
pub open spec fn decimal(n: nat) -> Seq<char>
    decreases n,
{
    if n < 10 {
        seq![digit_char(n)]
    } else {
        decimal(n / 10).push(digit_char(n % 10))
    }
}

/// Appends the decimal digit `d`.
fn push_digit(out: &mut String, d: u64)
    requires
        d < 10,
    ensures
        final(out)@ == old(out)@.push(digit_char(d as nat)),
{
    let s: &str = if d == 0 {
        "0"
    } else if d == 1 {
        "1"
    } else if d == 2 {
        "2"
    } else if d == 3 {
        "3"
    } else if d == 4 {
        "4"
    } else if d == 5 {
        "5"
    } else if d == 6 {
        "6"
    } else if d == 7 {
        "7"
    } else if d == 8 {
        "8"
    } else {
        "9"
    };
    proof {
        reveal_strlit("0");
        reveal_strlit("1");
        reveal_strlit("2");
        reveal_strlit("3");
        reveal_strlit("4");
        reveal_strlit("5");
        reveal_strlit("6");
        reveal_strlit("7");
        reveal_strlit("8");
        reveal_strlit("9");
    }
    assert(s@ =~= seq![digit_char(d as nat)]);
    out.append(s);
}

/// Appends `n` in decimal.
pub fn push_decimal(out: &mut String, n: u64)
    ensures
        final(out)@ == old(out)@ + decimal(n as nat),
    decreases n,
{
    if n >= 10 {
        push_decimal(out, n / 10);
    }
    push_digit(out, n % 10);
    assert(out@ =~= old(out)@ + decimal(n as nat));
}

/// Decimal text holds no line break.
pub proof fn lemma_decimal_one_line(n: nat)
    ensures
        no_line_break(decimal(n)),
    decreases n,
{
    let digits = seq!['0', '1', '2', '3', '4', '5', '6', '7', '8', '9'];
    assert forall|d: nat| d < 10 implies #[trigger] digit_char(d) != '\r' && digit_char(d)
        != '\n' by {
        assert(digit_char(d) == digits[d as int]);
    }
    if n >= 10 {
        lemma_decimal_one_line(n / 10);
    }
}

/// Text made of two pieces without line breaks has none.
pub proof fn lemma_concat_one_line(a: Seq<char>, b: Seq<char>)
    requires
        no_line_break(a),
        no_line_break(b),
    ensures
        no_line_break(a + b),
{
    assert forall|i: int| 0 <= i < (a + b).len() implies #[trigger] (a + b)[i] != '\r' && (a
        + b)[i] != '\n' by {
        if i >= a.len() {
            assert((a + b)[i] == b[i - a.len()]);
        }
    }
}

/// Joining a single line.
pub proof fn lemma_join_one(l: Seq<char>)
    ensures
        join_lines(seq![l]) == l + crlf(),
{
    lemma_join_cons(l, Seq::empty());
    assert(seq![l] + Seq::<Seq<char>>::empty() =~= seq![l]);
    assert(l + crlf() + Seq::<char>::empty() =~= l + crlf());
}

/// Text without line breaks holds no CRLF.
pub proof fn lemma_no_line_break_no_crlf(s: Seq<char>)
    requires
        no_line_break(s),
    ensures
        no_crlf(s),
{
    assert forall|i: int| !#[trigger] crlf_at(s, i) by {
        if crlf_at(s, i) {
            assert(s[i] == '\r');
        }
    }
}

/// Reading a line without CRLF and then a CRLF closes that line.
pub proof fn lemma_split_line(c: Seq<char>, rest: Seq<char>, line: Seq<char>)
    requires
        no_crlf(c),
    ensures
        split_from(c + crlf() + rest, line) == seq![line + c] + split_from(rest, Seq::empty()),
    decreases c.len(),
{
    let t = c + crlf() + rest;
    if c.len() == 0 {
        assert(t =~= crlf() + rest);
        assert(t.skip(2) =~= rest);
        assert(line + c =~= line);
    } else {
        if c.len() >= 2 {
            assert(!crlf_at(c, 0));
        }
        assert(t[0] == c[0]);
        assert(!(t[0] == '\r' && t[1] == '\n'));
        let c1 = c.skip(1);
        assert forall|i: int| !#[trigger] crlf_at(c1, i) by {
            assert(!crlf_at(c, i + 1));
        }
        assert(t.skip(1) =~= c1 + crlf() + rest);
        lemma_split_line(c1, rest, line.push(c[0]));
        assert(line.push(c[0]) + c1 =~= line + c);
    }
}

/// Joining lines without CRLF and splitting again gives the lines back,
/// followed by the empty line after the last terminator.
pub proof fn lemma_lines_of_join(ls: Seq<Seq<char>>)
    requires
        forall|i: int| 0 <= i < ls.len() ==> no_crlf(#[trigger] ls[i]),
    ensures
        lines_of(join_lines(ls)) == ls.push(Seq::<char>::empty()),
    decreases ls.len(),
{
    if ls.len() == 0 {
        assert(lines_of(join_lines(ls)) =~= seq![Seq::<char>::empty()]);
    } else {
        let tail = ls.skip(1);
        assert forall|i: int| 0 <= i < tail.len() implies no_crlf(#[trigger] tail[i]) by {
            assert(tail[i] == ls[i + 1]);
        }
        lemma_lines_of_join(tail);
        assert(no_crlf(ls[0]));
        lemma_split_line(ls[0], join_lines(tail), Seq::empty());
        assert(Seq::<char>::empty() + ls[0] =~= ls[0]);
        assert(ls.push(Seq::<char>::empty()) =~= seq![ls[0]] + tail.push(Seq::<char>::empty()));
    }
}

/// Every line that `split_from` yields is free of CRLF, as long as the line
/// read so far is and does not end in a CR that the rest completes.
pub proof fn lemma_split_no_crlf(rest: Seq<char>, line: Seq<char>)
    requires
        no_crlf(line),
        !(line.len() > 0 && line.last() == '\r' && rest.len() > 0 && rest[0] == '\n'),
    ensures
        forall|i: int|
            0 <= i < split_from(rest, line).len() ==> no_crlf(#[trigger] split_from(rest, line)[i]),
    decreases rest.len(),
{
    if rest.len() == 0 {
        assert(split_from(rest, line) == seq![line]);
        assert(seq![line][0] == line);
    } else if rest.len() >= 2 && rest[0] == '\r' && rest[1] == '\n' {
        let after = split_from(rest.skip(2), Seq::empty());
        lemma_split_no_crlf(rest.skip(2), Seq::empty());
        let r = split_from(rest, line);
        assert(r == seq![line] + after);
        assert forall|i: int| 0 <= i < r.len() implies no_crlf(#[trigger] r[i]) by {
            if i > 0 {
                assert(r[i] == after[i - 1]);
            }
        }
    } else {
        let l2 = line.push(rest[0]);
        assert forall|j: int| !#[trigger] crlf_at(l2, j) by {
            if crlf_at(l2, j) {
                if j + 1 < line.len() {
                    assert(crlf_at(line, j));
                }
            }
        }
        if rest.len() >= 2 {
            assert(rest.skip(1)[0] == rest[1]);
        }
        lemma_split_no_crlf(rest.skip(1), l2);
        assert(split_from(rest, line) == split_from(rest.skip(1), l2));
    }
}

/// The lines of any text are free of CRLF.
pub proof fn lemma_lines_no_crlf(s: Seq<char>)
    ensures
        forall|i: int| 0 <= i < lines_of(s).len() ==> no_crlf(#[trigger] lines_of(s)[i]),
{
    lemma_split_no_crlf(s, Seq::empty());
}

/// Non-empty lines without CRLF, joined, leave no blank line.
pub proof fn lemma_join_no_blank(ls: Seq<Seq<char>>)
    requires
        forall|i: int| 0 <= i < ls.len() ==> (#[trigger] ls[i]).len() > 0 && no_crlf(ls[i]),
    ensures
        no_blank_line(join_lines(ls)),
    decreases ls.len(),
{
    if ls.len() > 0 {
        let tail = ls.skip(1);
        assert forall|i: int| 0 <= i < tail.len() implies (#[trigger] tail[i]).len() > 0
            && no_crlf(tail[i]) by {
            assert(tail[i] == ls[i + 1]);
        }
        lemma_join_no_blank(tail);
        let l = ls[0];
        let j = join_lines(tail);
        let s = join_lines(ls);
        assert(s == l + crlf() + j);
        let m = l.len() as int;
        assert(no_crlf(l));
        if m >= 2 {
            assert(!crlf_at(l, 0));
        }
        assert(!crlf_at(s, 0));
        assert forall|i: int| #[trigger] crlf_at(s, i) implies !crlf_at(s, i + 2) by {
            if i < m - 1 {
                assert(crlf_at(l, i));
            } else if i == m - 1 {
                assert(s[i + 1] == '\r');
            } else if i == m {
                if crlf_at(s, i + 2) {
                    assert(crlf_at(j, 0));
                }
            } else if i == m + 1 {
                assert(s[i] == '\n');
            } else {
                assert(crlf_at(j, i - m - 2));
                assert(!crlf_at(j, i - m));
            }
        }
    }
}

/// The characters of `s`, in order.
pub fn chars_of(s: &str) -> (r: Vec<char>)
    ensures
        r@ == s@,
{
    let mut it = s.chars();
    let mut r: Vec<char> = Vec::new();
    loop
        invariant
            r.len() <= s@.len(),
            r@ == s@.take(r.len() as int),
            it.remaining() == s@.skip(r.len() as int),
        ensures
            r@ == s@,
        decreases s@.len() - r.len(),
    {
        match it.next() {
            Some(c) => {
                assert(s@.skip(r.len() as int).len() > 0);
                r.push(c);
                assert(r@ =~= s@.take(r.len() as int));
                assert(s@.skip(r.len() - 1).drop_first() =~= s@.skip(r.len() as int));
            },
            None => {
                assert(r@ =~= s@);
                break ;
            },
        }
    }
    r
}

} // verus!
