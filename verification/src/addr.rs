//! Peer addresses: a plain representation of an IP endpoint, and a verified
//! parser for the IP literals typed in the dial dialog — dotted-quad IPv4,
//! and IPv6 in its full, `::`-compressed and IPv4-embedded forms.

use vstd::prelude::*;

verus! {

/// An IP address, IPv4 as its four octets or IPv6 as its sixteen bytes,
/// held as plain values so that contracts can speak about them.
#[derive(Clone, Copy, PartialEq, Eq, Structural, Debug)]
pub enum IpAddress {
    V4(u8, u8, u8, u8),
    V6(u128),
}

/// An `(IP, UDP port)` pair identifying the remote participant in a call.
#[derive(Clone, Copy, PartialEq, Eq, Structural, Debug)]
pub struct PeerAddr {
    pub ip: IpAddress,
    pub port: u16,
}

/// The UDP port used both for the local bind and for the peer target.
pub const CALL_PORT: u16 = 33445;

/// Whether `c` is a decimal digit.
pub open spec fn is_digit(c: char) -> bool {
    48 <= c as int <= 57
}

/// The value of a decimal digit.
pub open spec fn digit_val(c: char) -> int {
    c as int - 48
}

/// The decimal digit with value `d`.
pub open spec fn digit_char(d: int) -> char {
    (48 + d) as char
}

/// The canonical decimal text of an octet: one to three digits, no leading
/// zero.
pub open spec fn dec_text(n: u8) -> Seq<char> {
    if n < 10 {
        seq![digit_char(n as int)]
    } else if n < 100 {
        seq![digit_char(n as int / 10), digit_char(n as int % 10)]
    } else {
        seq![digit_char(n as int / 100), digit_char((n as int / 10) % 10), digit_char(n as int % 10)]
    }
}

/// The canonical dotted-quad text of an IPv4 address.
pub open spec fn ipv4_text(a: u8, b: u8, c: u8, d: u8) -> Seq<char> {
    dec_text(a) + seq!['.'] + dec_text(b) + seq!['.'] + dec_text(c) + seq!['.'] + dec_text(d)
}

/// Whether `s` is the dotted-quad text of some IPv4 address.
pub open spec fn is_ipv4_literal(s: Seq<char>) -> bool {
    exists|a: u8, b: u8, c: u8, d: u8| s == ipv4_text(a, b, c, d)
}

/// Whether `g` is a well-formed octet group: one to three digits, no
/// leading zero, value at most 255.
pub open spec fn group_ok(g: Seq<char>) -> bool {
    &&& 1 <= g.len() <= 3
    &&& (forall|j: int| 0 <= j < g.len() ==> is_digit(#[trigger] g[j]))
    &&& (g.len() > 1 ==> g[0] != digit_char(0))
    &&& group_val(g) <= 255
}

/// The value of an octet group of one to three digits.
pub open spec fn group_val(g: Seq<char>) -> int {
    if g.len() == 1 {
        digit_val(g[0])
    } else if g.len() == 2 {
        10 * digit_val(g[0]) + digit_val(g[1])
    } else if g.len() == 3 {
        100 * digit_val(g[0]) + 10 * digit_val(g[1]) + digit_val(g[2])
    } else {
        0
    }
}

/// The positions of the dots in `s`, in increasing order.
pub open spec fn dot_positions(s: Seq<char>) -> Seq<int>
    decreases s.len(),
{
    if s.len() == 0 {
        Seq::empty()
    } else {
        dot_positions(s.drop_last()) + (if s.last() == '.' {
            seq![s.len() - 1]
        } else {
            Seq::empty()
        })
    }
}

/// Every listed position is a dot, lies in range, and the list is
/// increasing.
proof fn lemma_dot_positions_sound(s: Seq<char>)
    ensures
        forall|k: int|
            0 <= k < dot_positions(s).len() ==> 0 <= #[trigger] dot_positions(s)[k] < s.len()
                && s[dot_positions(s)[k]] == '.',
        forall|k1: int, k2: int|
            0 <= k1 < k2 < dot_positions(s).len() ==> dot_positions(s)[k1] < dot_positions(s)[k2],
    decreases s.len(),
{
    if s.len() > 0 {
        let t = s.drop_last();
        let dpt = dot_positions(t);
        lemma_dot_positions_sound(t);
        assert(forall|j: int| 0 <= j < t.len() ==> #[trigger] t[j] == s[j]);
        let dps = dot_positions(s);
        if s.last() == '.' {
            assert(dps == dpt + seq![s.len() - 1]);
            assert forall|k: int| 0 <= k < dps.len() implies 0 <= #[trigger] dps[k] < s.len()
                && s[dps[k]] == '.' by {
                if k < dpt.len() {
                    assert(dps[k] == dpt[k]);
                    assert(t[dpt[k]] == '.');
                    assert(s[dpt[k]] == t[dpt[k]]);
                } else {
                    assert(dps[k] == s.len() - 1);
                    assert(s[s.len() - 1] == s.last());
                }
            }
            assert forall|k1: int, k2: int| 0 <= k1 < k2 < dps.len() implies dps[k1] < dps[k2] by {
                if k2 < dpt.len() {
                    assert(dps[k1] == dpt[k1] && dps[k2] == dpt[k2]);
                } else {
                    assert(dps[k2] == s.len() - 1);
                    assert(dps[k1] == dpt[k1]);
                    assert(dpt[k1] < t.len());
                }
            }
        } else {
            assert(dps =~= dpt);
            assert forall|k: int| 0 <= k < dps.len() implies 0 <= #[trigger] dps[k] < s.len()
                && s[dps[k]] == '.' by {
                assert(dps[k] == dpt[k]);
                assert(t[dpt[k]] == '.');
                assert(s[dpt[k]] == t[dpt[k]]);
            }
        }
    }
}

/// The dots of a concatenation are the dots of each part, the second
/// shifted by the length of the first.
proof fn lemma_dot_positions_concat(x: Seq<char>, y: Seq<char>)
    ensures
        dot_positions(x + y) == dot_positions(x) + dot_positions(y).map_values(
            |p: int| p + x.len(),
        ),
    decreases y.len(),
{
    if y.len() == 0 {
        assert(x + y =~= x);
        assert(dot_positions(y).map_values(|p: int| p + x.len()) =~= Seq::<int>::empty());
        assert(dot_positions(x + y) =~= dot_positions(x) + dot_positions(y).map_values(
            |p: int| p + x.len(),
        ));
    } else {
        lemma_dot_positions_concat(x, y.drop_last());
        assert((x + y).drop_last() =~= x + y.drop_last());
        assert((x + y).last() == y.last());
        if y.last() == '.' {
            assert(dot_positions(y) =~= dot_positions(y.drop_last()) + seq![y.len() - 1]);
            assert(dot_positions(y).map_values(|p: int| p + x.len()) =~= dot_positions(
                y.drop_last(),
            ).map_values(|p: int| p + x.len()) + seq![x.len() + y.len() - 1]);
            assert(dot_positions(x + y) =~= dot_positions(x) + dot_positions(y).map_values(
                |p: int| p + x.len(),
            ));
        } else {
            assert(dot_positions(y) =~= dot_positions(y.drop_last()));
            assert(dot_positions(x + y) =~= dot_positions(x + y.drop_last()));
            assert(dot_positions(x + y) =~= dot_positions(x) + dot_positions(y).map_values(
                |p: int| p + x.len(),
            ));
        }
    }
}

/// A sequence without dots has no dot positions.
proof fn lemma_dot_positions_dotless(s: Seq<char>)
    requires
        forall|j: int| 0 <= j < s.len() ==> #[trigger] s[j] != '.',
    ensures
        dot_positions(s) == Seq::<int>::empty(),
    decreases s.len(),
{
    if s.len() > 0 {
        assert(forall|j: int| 0 <= j < s.len() - 1 ==> #[trigger] s.drop_last()[j] != '.');
        lemma_dot_positions_dotless(s.drop_last());
        assert(s.last() != '.');
        assert(dot_positions(s) =~= Seq::<int>::empty());
    }
}

/// The canonical decimal text of an octet is a well-formed group with the
/// octet as its value; in particular it holds no dots.
proof fn lemma_dec_text_ok(n: u8)
    ensures
        group_ok(dec_text(n)),
        group_val(dec_text(n)) == n,
        1 <= dec_text(n).len() <= 3,
        forall|j: int| 0 <= j < dec_text(n).len() ==> #[trigger] dec_text(n)[j] != '.',
{
    let g = dec_text(n);
    if n < 10 {
        assert(g[0] == digit_char(n as int));
        assert(is_digit(g[0]));
        assert(forall|j: int| 0 <= j < g.len() ==> is_digit(#[trigger] g[j]));
    } else if n < 100 {
        let d0 = n as int / 10;
        let d1 = n as int % 10;
        assert(1 <= d0 <= 9 && 0 <= d1 <= 9);
        assert(is_digit(g[0]) && is_digit(g[1]));
        assert(forall|j: int| 0 <= j < g.len() ==> is_digit(#[trigger] g[j]));
        assert(10 * d0 + d1 == n);
        assert(g[0] != digit_char(0));
    } else {
        let d0 = n as int / 100;
        let d1 = (n as int / 10) % 10;
        let d2 = n as int % 10;
        assert(1 <= d0 <= 2 && 0 <= d1 <= 9 && 0 <= d2 <= 9);
        assert(is_digit(g[0]) && is_digit(g[1]) && is_digit(g[2]));
        assert(forall|j: int| 0 <= j < g.len() ==> is_digit(#[trigger] g[j]));
        assert(100 * d0 + 10 * d1 + d2 == n) by {
            assert(n as int == 100 * (n as int / 100) + (n as int % 100)) by (nonlinear_arith)
                requires
                    100 <= n as int <= 255,
            ;
            assert(n as int % 100 == 10 * ((n as int / 10) % 10) + n as int % 10)
                by (nonlinear_arith)
                requires
                    0 <= n as int <= 255,
            ;
        }
        assert(g[0] != digit_char(0));
    }
    assert(forall|j: int| 0 <= j < g.len() ==> #[trigger] g[j] != '.') by {
        assert(forall|j: int| 0 <= j < g.len() ==> is_digit(#[trigger] g[j]));
        assert('.' as int == 46);
    }
}

/// A well-formed group is the canonical decimal text of its value.
proof fn lemma_group_canonical(g: Seq<char>)
    requires
        group_ok(g),
    ensures
        0 <= group_val(g) <= 255,
        dec_text(group_val(g) as u8) == g,
{
    let v = group_val(g);
    if g.len() == 1 {
        assert(0 <= v <= 9);
        assert(digit_char(digit_val(g[0])) == g[0]);
        assert(dec_text(v as u8) =~= g);
    } else if g.len() == 2 {
        let d0 = digit_val(g[0]);
        let d1 = digit_val(g[1]);
        assert(1 <= d0 <= 9 && 0 <= d1 <= 9);
        assert(v == 10 * d0 + d1);
        assert(10 <= v <= 99);
        assert(v / 10 == d0 && v % 10 == d1) by (nonlinear_arith)
            requires
                v == 10 * d0 + d1,
                1 <= d0 <= 9,
                0 <= d1 <= 9,
        ;
        assert(digit_char(d0) == g[0] && digit_char(d1) == g[1]);
        assert(dec_text(v as u8) =~= g);
    } else {
        let d0 = digit_val(g[0]);
        let d1 = digit_val(g[1]);
        let d2 = digit_val(g[2]);
        assert(1 <= d0 <= 9 && 0 <= d1 <= 9 && 0 <= d2 <= 9);
        assert(v == 100 * d0 + 10 * d1 + d2);
        assert(100 <= v);
        assert(v / 100 == d0 && (v / 10) % 10 == d1 && v % 10 == d2) by (nonlinear_arith)
            requires
                v == 100 * d0 + 10 * d1 + d2,
                1 <= d0 <= 9,
                0 <= d1 <= 9,
                0 <= d2 <= 9,
        ;
        assert(digit_char(d0) == g[0] && digit_char(d1) == g[1] && digit_char(d2) == g[2]);
        assert(dec_text(v as u8) =~= g);
    }
}

/// The dots of a dotted-quad literal stand exactly after each of the first
/// three groups.
#[verifier::rlimit(80)]
proof fn lemma_ipv4_dot_positions(a: u8, b: u8, c: u8, d: u8)
    ensures
        ({
            let l1 = dec_text(a).len() as int;
            let l2 = dec_text(b).len() as int;
            let l3 = dec_text(c).len() as int;
            dot_positions(ipv4_text(a, b, c, d)) == seq![l1, l1 + 1 + l2, l1 + l2 + l3 + 2]
        }),
{
    let ta = dec_text(a);
    let tb = dec_text(b);
    let tc = dec_text(c);
    let td = dec_text(d);
    let dot = seq!['.'];
    lemma_dec_text_ok(a);
    lemma_dec_text_ok(b);
    lemma_dec_text_ok(c);
    lemma_dec_text_ok(d);
    lemma_dot_positions_dotless(ta);
    lemma_dot_positions_dotless(tb);
    lemma_dot_positions_dotless(tc);
    lemma_dot_positions_dotless(td);
    assert(dot_positions(dot) =~= seq![0int]) by {
        assert(dot.len() == 1);
        assert(dot.last() == '.');
        assert(dot.drop_last() =~= Seq::<char>::empty());
        assert(dot_positions(Seq::<char>::empty()) == Seq::<int>::empty());
        assert(dot_positions(dot) == dot_positions(dot.drop_last()) + seq![0int]);
    }
    let tail6 = td;
    let tail5 = dot + tail6;
    let tail4 = tc + tail5;
    let tail3 = dot + tail4;
    let tail2 = tb + tail3;
    let tail1 = dot + tail2;
    lemma_dot_positions_concat(dot, tail6);
    assert(dot_positions(tail5) =~= seq![0int]);
    lemma_dot_positions_concat(tc, tail5);
    assert(dot_positions(tail4) =~= seq![tc.len() as int]);
    lemma_dot_positions_concat(dot, tail4);
    assert(dot_positions(tail3) =~= seq![0int, tc.len() + 1int]);
    lemma_dot_positions_concat(tb, tail3);
    assert(dot_positions(tail2) =~= seq![tb.len() as int, tb.len() + tc.len() + 1int]);
    lemma_dot_positions_concat(dot, tail2);
    assert(dot_positions(tail1) =~= seq![0int, tb.len() + 1int, tb.len() + tc.len() + 2int]);
    lemma_dot_positions_concat(ta, tail1);
    assert(ipv4_text(a, b, c, d) =~= ta + tail1);
    assert(dot_positions(ipv4_text(a, b, c, d)) =~= seq![
        ta.len() as int,
        ta.len() + tb.len() + 1int,
        ta.len() + tb.len() + tc.len() + 2int,
    ]);
}

/// The literal splits into its four groups around its three dots.
proof fn lemma_ipv4_groups(s: Seq<char>, a: u8, b: u8, c: u8, d: u8)
    requires
        s == ipv4_text(a, b, c, d),
    ensures
        dot_positions(s).len() == 3,
        ({
            let p1 = dot_positions(s)[0];
            let p2 = dot_positions(s)[1];
            let p3 = dot_positions(s)[2];
            &&& 0 <= p1 < p2 < p3 < s.len()
            &&& s.subrange(0, p1) == dec_text(a)
            &&& s.subrange(p1 + 1, p2) == dec_text(b)
            &&& s.subrange(p2 + 1, p3) == dec_text(c)
            &&& s.subrange(p3 + 1, s.len() as int) == dec_text(d)
        }),
{
    lemma_ipv4_dot_positions(a, b, c, d);
    lemma_dec_text_ok(a);
    lemma_dec_text_ok(b);
    lemma_dec_text_ok(c);
    lemma_dec_text_ok(d);
    let la = dec_text(a).len() as int;
    let lb = dec_text(b).len() as int;
    let lc = dec_text(c).len() as int;
    assert(s.subrange(0, la) =~= dec_text(a));
    assert(s.subrange(la + 1, la + 1 + lb) =~= dec_text(b));
    assert(s.subrange(la + lb + 2, la + lb + lc + 2) =~= dec_text(c));
    assert(s.subrange(la + lb + lc + 3, s.len() as int) =~= dec_text(d));
}

/// A text whose dots stand at three positions is tiled by the four pieces
/// between and around them.
proof fn lemma_ipv4_tiling(s: Seq<char>)
    requires
        dot_positions(s).len() == 3,
    ensures
        ({
            let p1 = dot_positions(s)[0];
            let p2 = dot_positions(s)[1];
            let p3 = dot_positions(s)[2];
            &&& 0 <= p1 < p2 < p3 < s.len()
            &&& s == s.subrange(0, p1) + seq!['.'] + s.subrange(p1 + 1, p2) + seq!['.']
                + s.subrange(p2 + 1, p3) + seq!['.'] + s.subrange(p3 + 1, s.len() as int)
        }),
{
    lemma_dot_positions_sound(s);
    let p1 = dot_positions(s)[0];
    let p2 = dot_positions(s)[1];
    let p3 = dot_positions(s)[2];
    assert(s[p1] == '.' && s[p2] == '.' && s[p3] == '.');
    assert(s =~= s.subrange(0, p1) + seq!['.'] + s.subrange(p1 + 1, p2) + seq!['.'] + s.subrange(
        p2 + 1,
        p3,
    ) + seq!['.'] + s.subrange(p3 + 1, s.len() as int));
}

/// The value of a digit character.
fn digit_value(c: char) -> (r: u32)
    requires
        is_digit(c),
    ensures
        r as int == digit_val(c),
        r <= 9,
{
    proof {
        assert(c as u32 == c as int);
    }
    c as u32 - 48
}

/// Parse the group of digits standing in `text` between `start` and `end`.
/// Succeeds exactly on a well-formed octet group and returns its value.
fn parse_group(text: &Vec<char>, start: usize, end: usize) -> (r: Option<u8>)
    requires
        start <= end <= text@.len(),
    ensures
        r is Some <==> group_ok(text@.subrange(start as int, end as int)),
        r matches Some(v) ==> v as int == group_val(text@.subrange(start as int, end as int)),
{
    let ghost g = text@.subrange(start as int, end as int);
    let len = end - start;
    if len == 0 || len > 3 {
        return None;
    }
    let mut k: usize = 0;
    while k < len
        invariant
            k <= len,
            1 <= len <= 3,
            len == end - start,
            start <= end <= text@.len(),
            g == text@.subrange(start as int, end as int),
            forall|j: int| 0 <= j < k ==> is_digit(#[trigger] g[j]),
        decreases len - k,
    {
        let c = text[start + k];
        assert(g[k as int] == text@[start + k]);
        if c < '0' || c > '9' {
            assert(!is_digit(g[k as int]));
            return None;
        }
        assert(is_digit(g[k as int]));
        k = k + 1;
    }
    assert(forall|j: int| 0 <= j < g.len() ==> is_digit(#[trigger] g[j]));
    if len > 1 {
        let first = text[start];
        assert(g[0] == text@[start as int]);
        if first == '0' {
            assert(g[0] == digit_char(0));
            return None;
        }
        assert(g[0] != digit_char(0));
    }
    assert(is_digit(text@[start as int])) by {
        assert(g[0] == text@[start as int]);
    }
    if len >= 2 {
        assert(is_digit(text@[start + 1])) by {
            assert(g[1] == text@[start + 1]);
        }
    }
    if len == 3 {
        assert(is_digit(text@[start + 2])) by {
            assert(g[2] == text@[start + 2]);
        }
    }
    let mut value: u32 = 0;
    if len == 1 {
        value = digit_value(text[start]);
    } else if len == 2 {
        value = digit_value(text[start]) * 10 + digit_value(text[start + 1]);
    } else {
        value = digit_value(text[start]) * 100 + digit_value(text[start + 1]) * 10 + digit_value(
            text[start + 2],
        );
    }
    assert(value as int == group_val(g)) by {
        assert(g[0] == text@[start as int]);
        if len >= 2 {
            assert(g[1] == text@[start + 1]);
        }
        if len == 3 {
            assert(g[2] == text@[start + 2]);
        }
    }
    if value > 255 {
        return None;
    }
    Some(value as u8)
}

/// The positions of the dots in `text`, collected in increasing order.
fn find_dots(text: &Vec<char>) -> (dots: Vec<usize>)
    ensures
        dots@.map_values(|p: usize| p as int) == dot_positions(text@),
{
    let mut dots: Vec<usize> = Vec::new();
    let mut i: usize = 0;
    proof {
        assert(text@.take(0) =~= Seq::<char>::empty());
    }
    while i < text.len()
        invariant
            i <= text@.len(),
            dots@.map_values(|p: usize| p as int) == dot_positions(text@.take(i as int)),
        decreases text@.len() - i,
    {
        let c = text[i];
        if c == '.' {
            dots.push(i);
        }
        proof {
            assert(text@.take(i + 1).drop_last() =~= text@.take(i as int));
            assert(text@.take(i + 1).last() == text@[i as int]);
            assert(dots@.map_values(|p: usize| p as int) =~= dot_positions(text@.take(i + 1)));
        }
        i = i + 1;
    }
    proof {
        assert(text@.take(text@.len() as int) =~= text@);
    }
    dots
}

/// Parse a dotted-quad IPv4 literal: four decimal octets without leading
/// zeros, separated by single dots.  Returns the octets exactly when the
/// text is such a literal, and `None` on every other text.
#[verifier::rlimit(50)]
pub fn parse_ipv4(text: &Vec<char>) -> (r: Option<(u8, u8, u8, u8)>)
    ensures
        r matches Some(o) ==> text@ == ipv4_text(o.0, o.1, o.2, o.3),
        forall|a: u8, b: u8, c: u8, d: u8|
            text@ == ipv4_text(a, b, c, d) ==> r == Some((a, b, c, d)),
{
    let dots = find_dots(text);
    let ghost positions = dot_positions(text@);
    if dots.len() != 3 {
        proof {
            assert forall|a: u8, b: u8, c: u8, d: u8| text@ != ipv4_text(a, b, c, d) by {
                if text@ == ipv4_text(a, b, c, d) {
                    lemma_ipv4_groups(text@, a, b, c, d);
                    assert(dots@.map_values(|p: usize| p as int).len() == dots@.len());
                }
            }
        }
        return None;
    }
    let p1 = dots[0];
    let p2 = dots[1];
    let p3 = dots[2];
    let text_len = text.len();
    proof {
        assert(dots@.map_values(|p: usize| p as int)[0] == p1 as int);
        assert(dots@.map_values(|p: usize| p as int)[1] == p2 as int);
        assert(dots@.map_values(|p: usize| p as int)[2] == p3 as int);
        lemma_ipv4_tiling(text@);
        assert(p1 < p2 < p3 < text_len);
    }
    let r1 = parse_group(text, 0, p1);
    let r2 = parse_group(text, p1 + 1, p2);
    let r3 = parse_group(text, p2 + 1, p3);
    let r4 = parse_group(text, p3 + 1, text_len);
    let ghost g1 = text@.subrange(0, p1 as int);
    let ghost g2 = text@.subrange(p1 + 1, p2 as int);
    let ghost g3 = text@.subrange(p2 + 1, p3 as int);
    let ghost g4 = text@.subrange(p3 + 1, text@.len() as int);
    match (r1, r2, r3, r4) {
        (Some(v1), Some(v2), Some(v3), Some(v4)) => {
            proof {
                lemma_group_canonical(g1);
                lemma_group_canonical(g2);
                lemma_group_canonical(g3);
                lemma_group_canonical(g4);
                assert(text@ == ipv4_text(v1, v2, v3, v4));
                assert forall|a: u8, b: u8, c: u8, d: u8|
                    text@ == ipv4_text(a, b, c, d) implies Some((v1, v2, v3, v4)) == Some(
                    (a, b, c, d),
                ) by {
                    lemma_ipv4_quad_injective(a, b, c, d, v1, v2, v3, v4);
                }
            }
            Some((v1, v2, v3, v4))
        },
        _ => {
            proof {
                assert forall|a: u8, b: u8, c: u8, d: u8| text@ != ipv4_text(a, b, c, d) by {
                    if text@ == ipv4_text(a, b, c, d) {
                        lemma_ipv4_groups(text@, a, b, c, d);
                        lemma_dec_text_ok(a);
                        lemma_dec_text_ok(b);
                        lemma_dec_text_ok(c);
                        lemma_dec_text_ok(d);
                        assert(g1 == dec_text(a));
                        assert(g2 == dec_text(b));
                        assert(g3 == dec_text(c));
                        assert(g4 == dec_text(d));
                        assert(r1 is Some && r2 is Some && r3 is Some && r4 is Some);
                    }
                }
            }
            None
        },
    }
}

/// The positions of the colons in `s`, in increasing order.
pub open spec fn colon_positions(s: Seq<char>) -> Seq<int>
    decreases s.len(),
{
    if s.len() == 0 {
        Seq::empty()
    } else {
        colon_positions(s.drop_last()) + (if s.last() == ':' {
            seq![s.len() - 1]
        } else {
            Seq::empty()
        })
    }
}

/// Every listed position is a colon, lies in range, and the list is
/// increasing.
proof fn lemma_colon_positions_sound(s: Seq<char>)
    ensures
        forall|k: int|
            0 <= k < colon_positions(s).len() ==> 0 <= #[trigger] colon_positions(s)[k] < s.len()
                && s[colon_positions(s)[k]] == ':',
        forall|k1: int, k2: int|
            0 <= k1 < k2 < colon_positions(s).len() ==> colon_positions(s)[k1] < colon_positions(
                s,
            )[k2],
    decreases s.len(),
{
    if s.len() > 0 {
        let t = s.drop_last();
        let cpt = colon_positions(t);
        lemma_colon_positions_sound(t);
        assert(forall|j: int| 0 <= j < t.len() ==> #[trigger] t[j] == s[j]);
        let cps = colon_positions(s);
        if s.last() == ':' {
            assert(cps == cpt + seq![s.len() - 1]);
            assert forall|k: int| 0 <= k < cps.len() implies 0 <= #[trigger] cps[k] < s.len()
                && s[cps[k]] == ':' by {
                if k < cpt.len() {
                    assert(cps[k] == cpt[k]);
                    assert(t[cpt[k]] == ':');
                    assert(s[cpt[k]] == t[cpt[k]]);
                } else {
                    assert(cps[k] == s.len() - 1);
                    assert(s[s.len() - 1] == s.last());
                }
            }
            assert forall|k1: int, k2: int| 0 <= k1 < k2 < cps.len() implies cps[k1] < cps[k2] by {
                if k2 < cpt.len() {
                    assert(cps[k1] == cpt[k1] && cps[k2] == cpt[k2]);
                } else {
                    assert(cps[k2] == s.len() - 1);
                    assert(cps[k1] == cpt[k1]);
                    assert(cpt[k1] < t.len());
                }
            }
        } else {
            assert(cps =~= cpt);
            assert forall|k: int| 0 <= k < cps.len() implies 0 <= #[trigger] cps[k] < s.len()
                && s[cps[k]] == ':' by {
                assert(cps[k] == cpt[k]);
                assert(t[cpt[k]] == ':');
                assert(s[cpt[k]] == t[cpt[k]]);
            }
        }
    }
}

/// The positions of the colons in `text`, collected in increasing order.
fn find_colons(text: &Vec<char>) -> (colons: Vec<usize>)
    ensures
        colons@.map_values(|p: usize| p as int) == colon_positions(text@),
{
    let mut colons: Vec<usize> = Vec::new();
    let mut i: usize = 0;
    proof {
        assert(text@.take(0) =~= Seq::<char>::empty());
    }
    while i < text.len()
        invariant
            i <= text@.len(),
            colons@.map_values(|p: usize| p as int) == colon_positions(text@.take(i as int)),
        decreases text@.len() - i,
    {
        let c = text[i];
        if c == ':' {
            colons.push(i);
        }
        proof {
            assert(text@.take(i + 1).drop_last() =~= text@.take(i as int));
            assert(text@.take(i + 1).last() == text@[i as int]);
            assert(colons@.map_values(|p: usize| p as int) =~= colon_positions(text@.take(i + 1)));
        }
        i = i + 1;
    }
    proof {
        assert(text@.take(text@.len() as int) =~= text@);
    }
    colons
}

/// How many colon-separated tokens `s` holds (one more than its colons).
pub open spec fn token_count(s: Seq<char>) -> int {
    colon_positions(s).len() + 1int
}

/// Where the `j`-th colon-separated token of `s` begins.
pub open spec fn token_start(s: Seq<char>, j: int) -> int {
    if j == 0 {
        0
    } else {
        colon_positions(s)[j - 1] + 1
    }
}

/// Where the `j`-th colon-separated token of `s` ends.
pub open spec fn token_end(s: Seq<char>, j: int) -> int {
    if j == token_count(s) - 1 {
        s.len() as int
    } else {
        colon_positions(s)[j]
    }
}

/// The `j`-th colon-separated token of `s`.
pub open spec fn token(s: Seq<char>, j: int) -> Seq<char> {
    s.subrange(token_start(s, j), token_end(s, j))
}

/// Whether `c` is a hexadecimal digit, in either case.
pub open spec fn is_hex_digit(c: char) -> bool {
    ||| 48 <= c as int <= 57
    ||| 97 <= c as int <= 102
    ||| 65 <= c as int <= 70
}

/// The value of a hexadecimal digit.
pub open spec fn hex_digit_val(c: char) -> int {
    if 48 <= c as int <= 57 {
        c as int - 48
    } else if 97 <= c as int <= 102 {
        c as int - 87
    } else {
        c as int - 55
    }
}

/// Whether `g` is a hextet group: one to four hex digits (leading zeros
/// allowed).
pub open spec fn h16_ok(g: Seq<char>) -> bool {
    &&& 1 <= g.len() <= 4
    &&& (forall|j: int| 0 <= j < g.len() ==> is_hex_digit(#[trigger] g[j]))
}

/// The value of a hextet group of one to four hex digits.
pub open spec fn h16_val(g: Seq<char>) -> int {
    if g.len() == 1 {
        hex_digit_val(g[0])
    } else if g.len() == 2 {
        16 * hex_digit_val(g[0]) + hex_digit_val(g[1])
    } else if g.len() == 3 {
        256 * hex_digit_val(g[0]) + 16 * hex_digit_val(g[1]) + hex_digit_val(g[2])
    } else if g.len() == 4 {
        4096 * hex_digit_val(g[0]) + 256 * hex_digit_val(g[1]) + 16 * hex_digit_val(g[2])
            + hex_digit_val(g[3])
    } else {
        0
    }
}

/// The value of a hex digit character.
fn hex_digit_value(c: char) -> (r: u32)
    requires
        is_hex_digit(c),
    ensures
        r as int == hex_digit_val(c),
        r <= 15,
{
    proof {
        assert(c as u32 == c as int);
    }
    let cv = c as u32;
    if cv <= 57 {
        cv - 48
    } else if cv >= 97 {
        cv - 87
    } else {
        cv - 55
    }
}

/// Parse the hextet group standing in `text` between `start` and `end`.
/// Succeeds exactly on one to four hex digits and returns their value.
fn parse_h16(text: &Vec<char>, start: usize, end: usize) -> (r: Option<u16>)
    requires
        start <= end <= text@.len(),
    ensures
        r is Some <==> h16_ok(text@.subrange(start as int, end as int)),
        r matches Some(v) ==> v as int == h16_val(text@.subrange(start as int, end as int)),
{
    let ghost g = text@.subrange(start as int, end as int);
    let len = end - start;
    if len == 0 || len > 4 {
        return None;
    }
    let mut value: u32 = 0;
    let mut k: usize = 0;
    while k < len
        invariant
            k <= len,
            1 <= len <= 4,
            len == end - start,
            start <= end <= text@.len(),
            g == text@.subrange(start as int, end as int),
            forall|j: int| 0 <= j < k ==> is_hex_digit(#[trigger] g[j]),
            value as int == (if k == 0 { 0int } else { h16_val(g.take(k as int)) }),
            value <= 0xffff,
        decreases len - k,
    {
        let c = text[start + k];
        assert(g[k as int] == text@[start + k]);
        let is_hex = (c >= '0' && c <= '9') || (c >= 'a' && c <= 'f') || (c >= 'A' && c <= 'F');
        if !is_hex {
            assert(!is_hex_digit(g[k as int]));
            return None;
        }
        assert(is_hex_digit(g[k as int]));
        let d = hex_digit_value(c);
        value = value * 16 + d;
        k = k + 1;
        proof {
            assert(g.take(k as int) =~= g.take(k - 1).push(g[k - 1]));
            if k == 1 {
                assert(g.take(1int).len() == 1);
                assert(g.take(1int)[0] == g[0]);
                assert(value as int == h16_val(g.take(1int)));
            } else if k == 2 {
                assert(g.take(2int)[0] == g[0] && g.take(2int)[1] == g[1]);
                assert(g.take(1int)[0] == g[0]);
                assert(value as int == h16_val(g.take(2int)));
            } else if k == 3 {
                assert(g.take(3int)[0] == g[0] && g.take(3int)[1] == g[1] && g.take(3int)[2]
                    == g[2]);
                assert(g.take(2int)[0] == g[0] && g.take(2int)[1] == g[1]);
                assert(value as int == h16_val(g.take(3int)));
            } else {
                assert(g.take(4int)[0] == g[0] && g.take(4int)[1] == g[1] && g.take(4int)[2]
                    == g[2] && g.take(4int)[3] == g[3]);
                assert(g.take(3int)[0] == g[0] && g.take(3int)[1] == g[1] && g.take(3int)[2]
                    == g[2]);
                assert(value as int == h16_val(g.take(4int)));
            }
            assert(forall|j: int|
                0 <= j < k ==> 0 <= hex_digit_val(#[trigger] g[j]) <= 15);
            assert(value <= 0xffff);
        }
    }
    proof {
        assert(g.take(len as int) =~= g);
        assert(value as int == h16_val(g));
        assert(h16_val(g) <= 0xffff);
    }
    Some(value as u16)
}

/// The indices below `upto` of the empty tokens of `s`, in order.
pub open spec fn empty_tokens_upto(s: Seq<char>, upto: int) -> Seq<int>
    decreases upto,
{
    if upto <= 0 {
        Seq::empty()
    } else {
        empty_tokens_upto(s, upto - 1) + (if token(s, upto - 1).len() == 0 {
            seq![upto - 1]
        } else {
            Seq::empty()
        })
    }
}

/// The indices of the empty tokens of `s`, in order.
pub open spec fn empty_tokens(s: Seq<char>) -> Seq<int> {
    empty_tokens_upto(s, token_count(s))
}

/// Whether tokens `from..to` of `s` are all hextet groups.
pub open spec fn tokens_h16(s: Seq<char>, from: int, to: int) -> bool {
    forall|j: int| from <= j < to ==> h16_ok(#[trigger] token(s, j))
}

/// The values of tokens `from..to` of `s`, each read as a hextet group.
pub open spec fn token_vals(s: Seq<char>, from: int, to: int) -> Seq<int>
    decreases to - from,
{
    if to <= from {
        Seq::empty()
    } else {
        token_vals(s, from, to - 1).push(h16_val(token(s, to - 1)))
    }
}

/// The quad a dotted-quad literal denotes (meaningful only when
/// `is_ipv4_literal` holds; unique by `lemma_ipv4_quad_injective`).
pub open spec fn ipv4_quad(t: Seq<char>) -> (u8, u8, u8, u8) {
    choose|q: (u8, u8, u8, u8)| t == ipv4_text(q.0, q.1, q.2, q.3)
}

/// The two hextet group values of an embedded dotted quad.
pub open spec fn v4_groups(t: Seq<char>) -> Seq<int> {
    seq![
        256 * (ipv4_quad(t).0 as int) + ipv4_quad(t).1 as int,
        256 * (ipv4_quad(t).2 as int) + ipv4_quad(t).3 as int,
    ]
}

/// Whether tokens `from..to` of `s` form a well-formed address tail:
/// hextet groups, of which the last may instead be an embedded dotted quad.
pub open spec fn tail_ok(s: Seq<char>, from: int, to: int) -> bool {
    if to <= from {
        true
    } else {
        &&& tokens_h16(s, from, to - 1)
        &&& (h16_ok(token(s, to - 1)) || is_ipv4_literal(token(s, to - 1)))
    }
}

/// The group values of such a tail; an embedded dotted quad gives two.
pub open spec fn tail_vals(s: Seq<char>, from: int, to: int) -> Seq<int> {
    if to <= from {
        Seq::empty()
    } else if is_ipv4_literal(token(s, to - 1)) {
        token_vals(s, from, to - 1) + v4_groups(token(s, to - 1))
    } else {
        token_vals(s, from, to)
    }
}

/// `k` zero groups.
pub open spec fn zero_groups(k: int) -> Seq<int> {
    Seq::new(k as nat, |i: int| 0int)
}

/// The eight hextet group values an IPv6 literal denotes, or `None` when
/// the text is no such literal.  The text splits at its colons; a `::`
/// shows as adjacent empty tokens and stands for the one or more zero
/// groups that complete the eight.  The recognised shapes are the full
/// eight-group form, `::` alone, a leading or trailing `::`, and a single
/// interior `::`; in every shape the final group may be an embedded dotted
/// quad, standing for two groups.
pub open spec fn ipv6_groups(s: Seq<char>) -> Option<Seq<int>> {
    let n = token_count(s);
    let es = empty_tokens(s);
    if es.len() == 0 {
        if tail_ok(s, 0, n) && tail_vals(s, 0, n).len() == 8 {
            Some(tail_vals(s, 0, n))
        } else {
            None
        }
    } else if n == 3 && es == seq![0int, 1int, 2int] {
        Some(zero_groups(8))
    } else if es == seq![0int, 1int] && n >= 3 && tail_ok(s, 2, n) && tail_vals(s, 2, n).len()
        <= 7 {
        Some(zero_groups(8 - tail_vals(s, 2, n).len()) + tail_vals(s, 2, n))
    } else if es == seq![n - 2, n - 1] && n >= 3 && tokens_h16(s, 0, n - 2) && n - 2 <= 7 {
        Some(token_vals(s, 0, n - 2) + zero_groups(8 - (n - 2)))
    } else if es.len() == 1 && 1 <= es[0] <= n - 2 && tokens_h16(s, 0, es[0]) && tail_ok(
        s,
        es[0] + 1,
        n,
    ) && es[0] + tail_vals(s, es[0] + 1, n).len() <= 7 {
        Some(
            token_vals(s, 0, es[0]) + zero_groups(8 - es[0] - tail_vals(s, es[0] + 1, n).len())
                + tail_vals(s, es[0] + 1, n),
        )
    } else {
        None
    }
}

/// The 128-bit value of a group sequence, most significant group first.
pub open spec fn ipv6_value(gs: Seq<int>) -> int
    decreases gs.len(),
{
    if gs.len() == 0 {
        0
    } else {
        0x10000 * ipv6_value(gs.drop_last()) + gs.last()
    }
}

/// `0x10000` to the `k`-th power: the weight of a group `k` places from
/// the end.
pub open spec fn group_weight(k: int) -> int
    decreases k,
{
    if k <= 0 {
        1
    } else {
        0x10000 * group_weight(k - 1)
    }
}

/// Group weights grow with the exponent.
proof fn lemma_group_weight_mono(a: int, b: int)
    requires
        0 <= a <= b,
    ensures
        1 <= group_weight(a) <= group_weight(b),
    decreases b,
{
    if b > 0 {
        if a == b {
            lemma_group_weight_mono(0, a - 1);
            assert(group_weight(a) == 0x10000 * group_weight(a - 1));
            assert(group_weight(a - 1) >= 1);
            assert(0x10000 * group_weight(a - 1) >= group_weight(a - 1)) by (nonlinear_arith)
                requires
                    group_weight(a - 1) >= 1,
            ;
        } else {
            lemma_group_weight_mono(a, b - 1);
            assert(group_weight(b) == 0x10000 * group_weight(b - 1));
            assert(0x10000 * group_weight(b - 1) >= group_weight(b - 1)) by (nonlinear_arith)
                requires
                    group_weight(b - 1) >= 1,
            ;
        }
    }
}

/// A sequence of groups each below `0x10000` has a value below the weight
/// of its length.
proof fn lemma_ipv6_value_bound(gs: Seq<int>)
    requires
        forall|j: int| 0 <= j < gs.len() ==> 0 <= #[trigger] gs[j] < 0x10000,
    ensures
        0 <= ipv6_value(gs) < group_weight(gs.len() as int),
    decreases gs.len(),
{
    if gs.len() > 0 {
        let t = gs.drop_last();
        assert(forall|j: int| 0 <= j < t.len() ==> 0 <= #[trigger] t[j] < 0x10000);
        lemma_ipv6_value_bound(t);
        assert(0 <= gs.last() < 0x10000);
        assert(0x10000 * ipv6_value(t) + gs.last() < 0x10000 * group_weight(t.len() as int))
            by (nonlinear_arith)
            requires
                0 <= ipv6_value(t),
                ipv6_value(t) < group_weight(t.len() as int),
                0 <= gs.last() < 0x10000,
        ;
        assert(0 <= 0x10000 * ipv6_value(t)) by (nonlinear_arith)
            requires
                0 <= ipv6_value(t),
        ;
    }
}

/// The weight of eight groups is exactly 2^128.
proof fn lemma_group_weight_eight()
    ensures
        group_weight(8) == 0x100000000000000000000000000000000,
{
    assert(group_weight(0) == 1);
    assert(group_weight(1) == 0x10000);
    assert(group_weight(2) == 0x100000000);
    assert(group_weight(3) == 0x1000000000000);
    assert(group_weight(4) == 0x10000000000000000);
    assert(group_weight(5) == 0x100000000000000000000);
    assert(group_weight(6) == 0x1000000000000000000000000);
    assert(group_weight(7) == 0x10000000000000000000000000000);
    assert(group_weight(8) == 0x100000000000000000000000000000000);
}

/// A hextet group has no dots, so it is never a dotted-quad literal.
proof fn lemma_h16_not_ipv4(t: Seq<char>)
    requires
        h16_ok(t),
    ensures
        !is_ipv4_literal(t),
{
    assert forall|a: u8, b: u8, c: u8, d: u8| t != ipv4_text(a, b, c, d) by {
        if t == ipv4_text(a, b, c, d) {
            lemma_ipv4_dot_positions(a, b, c, d);
            lemma_dot_positions_sound(t);
            let p = dot_positions(t)[0];
            assert(dot_positions(t).len() == 3);
            assert(t[p] == '.');
            assert(is_hex_digit(t[p]));
            assert('.' as int == 46);
        }
    }
}

/// The quad of a dotted-quad literal is the one it was rendered from.
proof fn lemma_ipv4_quad_of_text(a: u8, b: u8, c: u8, d: u8)
    ensures
        ipv4_quad(ipv4_text(a, b, c, d)) == (a, b, c, d),
{
    let t = ipv4_text(a, b, c, d);
    assert(t == ipv4_text(a, b, c, d));
    let q = ipv4_quad(t);
    assert(t == ipv4_text(q.0, q.1, q.2, q.3)) by {
        assert(exists|p: (u8, u8, u8, u8)| t == ipv4_text(p.0, p.1, p.2, p.3)) by {
            let p0 = (a, b, c, d);
            assert(t == ipv4_text(p0.0, p0.1, p0.2, p0.3));
        }
    }
    lemma_ipv4_quad_injective(q.0, q.1, q.2, q.3, a, b, c, d);
}

/// The token boundaries of the `j`-th token, computed from the collected
/// colon positions.
fn token_bounds(text: &Vec<char>, colons: &Vec<usize>, j: usize) -> (r: (usize, usize))
    requires
        colons@.map_values(|p: usize| p as int) == colon_positions(text@),
        j <= colons@.len(),
    ensures
        r.0 as int == token_start(text@, j as int),
        r.1 as int == token_end(text@, j as int),
        r.0 <= r.1 <= text@.len(),
{
    let text_len = text.len();
    proof {
        lemma_colon_positions_sound(text@);
        if j > 0 {
            assert(colons@.map_values(|p: usize| p as int)[j - 1] == colons@[j - 1] as int);
        }
        if j < colons@.len() {
            assert(colons@.map_values(|p: usize| p as int)[j as int] == colons@[j as int] as int);
        }
    }
    let start: usize = if j == 0 {
        0
    } else {
        colons[j - 1] + 1
    };
    let end: usize = if j == colons.len() {
        text_len
    } else {
        colons[j]
    };
    (start, end)
}

/// Collect the indices of the empty tokens, in order.
fn find_empty_tokens(text: &Vec<char>, colons: &Vec<usize>) -> (es: Vec<usize>)
    requires
        colons@.map_values(|p: usize| p as int) == colon_positions(text@),
    ensures
        es@.map_values(|p: usize| p as int) == empty_tokens(text@),
{
    let mut es: Vec<usize> = Vec::new();
    let c = colons.len();
    let mut j: usize = 0;
    proof {
        assert(empty_tokens_upto(text@, 0) =~= Seq::<int>::empty());
    }
    loop
        invariant_except_break
            es@.map_values(|p: usize| p as int) == empty_tokens_upto(text@, j as int),
        invariant
            j <= c + 1,
            c == colons@.len(),
            colons@.map_values(|p: usize| p as int) == colon_positions(text@),
        ensures
            es@.map_values(|p: usize| p as int) == empty_tokens_upto(text@, c + 1),
        decreases c + 1 - j,
    {
        if j > c {
            break ;
        }
        let (start, end) = token_bounds(text, colons, j);
        if start == end {
            proof {
                assert(token(text@, j as int).len() == 0);
            }
            es.push(j);
        } else {
            proof {
                assert(token(text@, j as int).len() > 0);
            }
        }
        proof {
            assert(es@.map_values(|p: usize| p as int) =~= empty_tokens_upto(text@, j + 1));
        }
        if j == c {
            proof {
                assert(es@.map_values(|p: usize| p as int) == empty_tokens_upto(text@, c + 1));
            }
            break ;
        }
        j = j + 1;
    }
    proof {
        assert(token_count(text@) == c + 1);
    }
    es
}

/// Parse tokens `from..to` as hextet groups, collecting their values.
fn parse_run(text: &Vec<char>, colons: &Vec<usize>, from: usize, to: usize) -> (r: Option<
    Vec<u16>,
>)
    requires
        colons@.map_values(|p: usize| p as int) == colon_positions(text@),
        from <= to,
        to <= colons@.len() + 1,
    ensures
        r is Some <==> tokens_h16(text@, from as int, to as int),
        r matches Some(v) ==> v@.map_values(|g: u16| g as int) == token_vals(
            text@,
            from as int,
            to as int,
        ),
{
    let mut vals: Vec<u16> = Vec::new();
    let mut j: usize = from;
    proof {
        assert(token_vals(text@, from as int, from as int) =~= Seq::<int>::empty());
        assert(vals@.map_values(|g: u16| g as int) =~= Seq::<int>::empty());
    }
    while j < to
        invariant
            from <= j <= to,
            to <= colons@.len() + 1,
            colons@.map_values(|p: usize| p as int) == colon_positions(text@),
            tokens_h16(text@, from as int, j as int),
            vals@.map_values(|g: u16| g as int) == token_vals(text@, from as int, j as int),
        decreases to - j,
    {
        let (start, end) = token_bounds(text, colons, j);
        match parse_h16(text, start, end) {
            Some(v) => {
                vals.push(v);
                proof {
                    assert(h16_ok(token(text@, j as int)));
                    assert(vals@.map_values(|g: u16| g as int) =~= token_vals(
                        text@,
                        from as int,
                        j + 1,
                    ));
                }
            },
            None => {
                proof {
                    assert(!h16_ok(token(text@, j as int)));
                }
                return None;
            },
        }
        j = j + 1;
    }
    Some(vals)
}

/// Copy the characters of `text` between `start` and `end`.
fn copy_range(text: &Vec<char>, start: usize, end: usize) -> (r: Vec<char>)
    requires
        start <= end <= text@.len(),
    ensures
        r@ == text@.subrange(start as int, end as int),
{
    let mut out: Vec<char> = Vec::new();
    let mut i: usize = start;
    proof {
        assert(out@ =~= text@.subrange(start as int, start as int));
    }
    while i < end
        invariant
            start <= i <= end <= text@.len(),
            out@ == text@.subrange(start as int, i as int),
        decreases end - i,
    {
        out.push(text[i]);
        i = i + 1;
        assert(out@ =~= text@.subrange(start as int, i as int));
    }
    out
}

/// Parse tokens `from..=last` as an address tail: hextet groups, the last
/// of which may instead be an embedded dotted quad.
fn parse_tail(text: &Vec<char>, colons: &Vec<usize>, from: usize, last: usize) -> (r: Option<
    Vec<u16>,
>)
    requires
        colons@.map_values(|p: usize| p as int) == colon_positions(text@),
        from <= last,
        last <= colons@.len(),
    ensures
        r is Some <==> tail_ok(text@, from as int, last + 1),
        r matches Some(v) ==> v@.map_values(|g: u16| g as int) == tail_vals(
            text@,
            from as int,
            last + 1,
        ),
{
    let ghost s = text@;
    let run = match parse_run(text, colons, from, last) {
        Some(v) => v,
        None => {
            return None;
        },
    };
    let (start, end) = token_bounds(text, colons, last);
    let ghost t = token(s, last as int);
    match parse_h16(text, start, end) {
        Some(v) => {
            let mut vals = run;
            vals.push(v);
            proof {
                assert(h16_ok(t));
                lemma_h16_not_ipv4(t);
                assert(vals@.map_values(|g: u16| g as int) =~= token_vals(
                    s,
                    from as int,
                    last + 1,
                ));
                assert(tail_vals(s, from as int, last + 1) == token_vals(s, from as int, last + 1));
            }
            Some(vals)
        },
        None => {
            let piece = copy_range(text, start, end);
            match parse_ipv4(&piece) {
                Some((a, b, c, d)) => {
                    let mut vals = run;
                    let hi: u16 = (a as u16) * 256 + (b as u16);
                    let lo: u16 = (c as u16) * 256 + (d as u16);
                    vals.push(hi);
                    vals.push(lo);
                    proof {
                        assert(t == ipv4_text(a, b, c, d));
                        lemma_ipv4_quad_of_text(a, b, c, d);
                        assert(is_ipv4_literal(t));
                        assert(v4_groups(t) == seq![
                            256 * (a as int) + b as int,
                            256 * (c as int) + d as int,
                        ]);
                        assert(vals@.map_values(|g: u16| g as int) =~= token_vals(
                            s,
                            from as int,
                            last as int,
                        ) + v4_groups(t));
                    }
                    Some(vals)
                },
                None => {
                    proof {
                        assert(!h16_ok(t));
                        assert(!is_ipv4_literal(t)) by {
                            assert(forall|a: u8, b: u8, c: u8, d: u8|
                                t != ipv4_text(a, b, c, d));
                        }
                    }
                    None
                },
            }
        },
    }
}

/// Append `k` zero groups.
fn push_zero_groups(groups: &mut Vec<u16>, k: usize)
    ensures
        final(groups)@.map_values(|g: u16| g as int) == old(groups)@.map_values(|g: u16| g as int)
            + zero_groups(k as int),
{
    let ghost base = groups@.map_values(|g: u16| g as int);
    let mut i: usize = 0;
    proof {
        assert(groups@.map_values(|g: u16| g as int) =~= base + zero_groups(0));
    }
    while i < k
        invariant
            i <= k,
            base == old(groups)@.map_values(|g: u16| g as int),
            groups@.map_values(|g: u16| g as int) == base + zero_groups(i as int),
        decreases k - i,
    {
        let ghost before = groups@;
        groups.push(0);
        i = i + 1;
        proof {
            assert(groups@ == before.push(0u16));
            assert(zero_groups(i as int) =~= zero_groups(i - 1).push(0int));
            assert(groups@.map_values(|g: u16| g as int) =~= before.map_values(
                |g: u16| g as int,
            ).push(0int));
            assert(groups@.map_values(|g: u16| g as int) =~= base + zero_groups(i as int));
        }
    }
}

/// Fold eight groups into the 128-bit address value, most significant
/// group first.
fn groups_to_bits(groups: &Vec<u16>) -> (r: u128)
    requires
        groups@.len() == 8,
    ensures
        r as int == ipv6_value(groups@.map_values(|g: u16| g as int)),
{
    let ghost gs = groups@.map_values(|g: u16| g as int);
    proof {
        assert(forall|j: int| 0 <= j < gs.len() ==> 0 <= #[trigger] gs[j] < 0x10000);
        lemma_group_weight_eight();
    }
    let mut bits: u128 = 0;
    let mut k: usize = 0;
    proof {
        assert(gs.take(0) =~= Seq::<int>::empty());
    }
    while k < 8
        invariant
            k <= 8,
            gs == groups@.map_values(|g: u16| g as int),
            gs.len() == 8,
            forall|j: int| 0 <= j < gs.len() ==> 0 <= #[trigger] gs[j] < 0x10000,
            bits as int == ipv6_value(gs.take(k as int)),
        decreases 8 - k,
    {
        proof {
            assert(forall|j: int|
                0 <= j < gs.take(k as int).len() ==> 0 <= #[trigger] gs.take(k as int)[j]
                    < 0x10000);
            lemma_ipv6_value_bound(gs.take(k as int));
            lemma_group_weight_mono(k as int, 7);
            lemma_group_weight_eight();
            assert(0x10000 * ipv6_value(gs.take(k as int)) + 0xffff < 0x10000 * group_weight(7)
                + 0xffff) by (nonlinear_arith)
                requires
                    ipv6_value(gs.take(k as int)) < group_weight(7),
            ;
            assert(0x10000 * group_weight(7) == group_weight(8));
        }
        let g = groups[k];
        bits = bits * 0x10000 + (g as u128);
        k = k + 1;
        proof {
            assert(gs.take(k as int).drop_last() =~= gs.take(k - 1));
            assert(gs.take(k as int).last() == gs[k - 1]);
            assert(gs[k - 1] == groups@[k - 1] as int);
        }
    }
    proof {
        assert(gs.take(8int) =~= gs);
    }
    bits
}

/// Parse an IPv6 literal: the full eight-group form, a `::`-compressed
/// form, or either with a trailing embedded dotted quad.  Returns the
/// 128-bit address value exactly when the text is such a literal, and
/// `None` on every other text.
#[verifier::rlimit(100)]
pub fn parse_ipv6(text: &Vec<char>) -> (r: Option<u128>)
    ensures
        r is Some <==> ipv6_groups(text@) is Some,
        r matches Some(bits) ==> (ipv6_groups(text@) matches Some(gs) ==> bits as int
            == ipv6_value(gs)),
{
    let ghost s = text@;
    let colons = find_colons(text);
    let c = colons.len();
    let ghost n = token_count(s);
    proof {
        assert(n == c + 1);
    }
    let es = find_empty_tokens(text, &colons);
    let ghost es_spec = empty_tokens(s);
    proof {
        assert(es@.map_values(|p: usize| p as int) == es_spec);
        assert(es@.len() == es_spec.len());
    }
    if es.len() == 0 {
        if c == 0 {
            // A single token: at most two group slots, never eight.
            proof {
                assert(tail_vals(s, 0, n).len() <= 2) by {
                    if tail_vals(s, 0, n).len() > 2 {
                        assert(token_vals(s, 0, 0).len() == 0);
                        assert(token_vals(s, 0, 1).len() == 1);
                    }
                }
            }
            return None;
        }
        match parse_tail(text, &colons, 0, c) {
            Some(v) => {
                if v.len() == 8 {
                    proof {
                        assert(v@.map_values(|g: u16| g as int).len() == 8);
                    }
                    let bits = groups_to_bits(&v);
                    Some(bits)
                } else {
                    proof {
                        assert(v@.map_values(|g: u16| g as int).len() != 8);
                    }
                    None
                }
            },
            None => None,
        }
    } else if es.len() == 3 {
        proof {
            assert(es_spec[0] == es@[0] as int && es_spec[1] == es@[1] as int && es_spec[2]
                == es@[2] as int);
        }
        if c == 2 && es[0] == 0 && es[1] == 1 && es[2] == 2 {
            proof {
                assert(es_spec =~= seq![0int, 1int, 2int]);
            }
            let mut groups: Vec<u16> = Vec::new();
            push_zero_groups(&mut groups, 8);
            proof {
                assert(groups@.map_values(|g: u16| g as int) =~= zero_groups(8));
                assert(groups@.map_values(|g: u16| g as int).len() == 8);
            }
            let bits = groups_to_bits(&groups);
            Some(bits)
        } else {
            proof {
                assert(!(n == 3 && es_spec == seq![0int, 1int, 2int]));
                assert(es_spec.len() != 0 && es_spec.len() != 2 && es_spec.len() != 1);
            }
            None
        }
    } else if es.len() == 2 {
        proof {
            assert(es_spec[0] == es@[0] as int && es_spec[1] == es@[1] as int);
        }
        if es[0] == 0 && es[1] == 1 && c >= 2 {
            // Leading `::`.
            proof {
                assert(es_spec =~= seq![0int, 1int]);
            }
            match parse_tail(text, &colons, 2, c) {
                Some(v) => {
                    if v.len() <= 7 {
                        let mut groups: Vec<u16> = Vec::new();
                        let pad = 8 - v.len();
                        push_zero_groups(&mut groups, pad);
                        let mut v = v;
                        let ghost tail = v@.map_values(|g: u16| g as int);
                        groups.append(&mut v);
                        proof {
                            assert(groups@.map_values(|g: u16| g as int) =~= zero_groups(
                                pad as int,
                            ) + tail);
                            assert(groups@.map_values(|g: u16| g as int).len() == 8);
                        }
                        let bits = groups_to_bits(&groups);
                        Some(bits)
                    } else {
                        proof {
                            assert(tail_vals(s, 2, n).len() > 7);
                            assert(!(es_spec == seq![n - 2, n - 1])) by {
                                assert(es_spec[0] == 0 && n - 2 >= 1);
                            }
                        }
                        None
                    }
                },
                None => {
                    proof {
                        assert(!(es_spec == seq![n - 2, n - 1]) || !tail_ok(s, 2, n)) by {
                            if es_spec == seq![n - 2, n - 1] {
                                assert(es_spec[0] == 0);
                                assert(n == 2);
                            }
                        }
                        assert(!(es_spec == seq![n - 2, n - 1])) by {
                            if es_spec == seq![n - 2, n - 1] {
                                assert(es_spec[0] == 0);
                                assert(n == 2);
                                assert(c >= 2);
                            }
                        }
                    }
                    None
                },
            }
        } else if c >= 2 && es[0] == c - 1 && es[1] == c {
            // Trailing `::`.
            proof {
                assert(es_spec =~= seq![n - 2, n - 1]);
                assert(!(es_spec == seq![0int, 1int])) by {
                    assert(es_spec[0] == n - 2 && n - 2 >= 1);
                }
            }
            let left = c - 1;
            if left > 7 {
                proof {
                    assert(n - 2 > 7);
                }
                return None;
            }
            match parse_run(text, &colons, 0, left) {
                Some(v) => {
                    let mut groups = v;
                    let ghost head = groups@.map_values(|g: u16| g as int);
                    proof {
                        assert(head.len() == left as int) by {
                            lemma_token_vals_len(s, 0, left as int);
                        }
                    }
                    push_zero_groups(&mut groups, 8 - left);
                    proof {
                        assert(groups@.map_values(|g: u16| g as int) =~= head + zero_groups(
                            8 - (n - 2),
                        ));
                        assert(groups@.map_values(|g: u16| g as int).len() == 8) by {
                            lemma_token_vals_len(s, 0, n - 2);
                        }
                    }
                    let bits = groups_to_bits(&groups);
                    Some(bits)
                },
                None => None,
            }
        } else {
            proof {
                assert(!(es_spec == seq![0int, 1int]) || !(n >= 3)) by {
                    if es_spec == seq![0int, 1int] {
                        assert(es@[0] as int == 0 && es@[1] as int == 1);
                    }
                }
                assert(!(es_spec == seq![n - 2, n - 1]) || !(n >= 3)) by {
                    if es_spec == seq![n - 2, n - 1] {
                        assert(es@[0] as int == n - 2 && es@[1] as int == n - 1);
                    }
                }
            }
            None
        }
    } else if es.len() == 1 {
        proof {
            assert(es_spec[0] == es@[0] as int);
        }
        let k = es[0];
        if k >= 1 && k < c {
            match parse_run(text, &colons, 0, k) {
                Some(head_vec) => {
                    match parse_tail(text, &colons, k + 1, c) {
                        Some(tail_vec) => {
                            let ghost head = head_vec@.map_values(|g: u16| g as int);
                            let ghost tail = tail_vec@.map_values(|g: u16| g as int);
                            proof {
                                lemma_token_vals_len(s, 0, k as int);
                                assert(head.len() == k as int);
                            }
                            if head_vec.len() <= 7 && tail_vec.len() <= 7 - head_vec.len() {
                                let mut groups = head_vec;
                                let pad = 8 - groups.len() - tail_vec.len();
                                push_zero_groups(&mut groups, pad);
                                let mut tail_vec = tail_vec;
                                groups.append(&mut tail_vec);
                                proof {
                                    assert(groups@.map_values(|g: u16| g as int) =~= head
                                        + zero_groups(pad as int) + tail);
                                    assert(groups@.map_values(|g: u16| g as int).len() == 8);
                                }
                                let bits = groups_to_bits(&groups);
                                Some(bits)
                            } else {
                                proof {
                                    assert(es_spec[0] + tail_vals(s, es_spec[0] + 1, n).len() > 7);
                                }
                                None
                            }
                        },
                        None => None,
                    }
                },
                None => None,
            }
        } else {
            proof {
                assert(!(1 <= es_spec[0] <= n - 2));
            }
            None
        }
    } else {
        proof {
            assert(es_spec.len() >= 4);
        }
        None
    }
}

/// A run of hextet tokens gives one value per token.
proof fn lemma_token_vals_len(s: Seq<char>, from: int, to: int)
    ensures
        token_vals(s, from, to).len() == (if to <= from { 0int } else { to - from }),
    decreases to - from,
{
    if to > from {
        lemma_token_vals_len(s, from, to - 1);
    }
}

/// Parse an IP literal as the dial dialog accepts it: first as a
/// dotted-quad IPv4 literal, else as an IPv6 literal.
pub fn parse_ip(text: &Vec<char>) -> (r: Option<IpAddress>)
    ensures
        forall|a: u8, b: u8, c: u8, d: u8|
            text@ == ipv4_text(a, b, c, d) ==> r == Some(IpAddress::V4(a, b, c, d)),
        r matches Some(IpAddress::V4(a, b, c, d)) ==> text@ == ipv4_text(a, b, c, d),
        !is_ipv4_literal(text@) ==> ((r is Some <==> ipv6_groups(text@) is Some) && (
        r matches Some(ip) ==> (ip matches IpAddress::V6(bits) && (ipv6_groups(text@)
            matches Some(gs) ==> bits as int == ipv6_value(gs))))),
{
    match parse_ipv4(text) {
        Some((a, b, c, d)) => Some(IpAddress::V4(a, b, c, d)),
        None => {
            match parse_ipv6(text) {
                Some(bits) => Some(IpAddress::V6(bits)),
                None => None,
            }
        },
    }
}

/// Two quads with the same dotted-quad text are the same quad.
proof fn lemma_ipv4_quad_injective(a: u8, b: u8, c: u8, d: u8, x: u8, y: u8, z: u8, w: u8)
    requires
        ipv4_text(a, b, c, d) == ipv4_text(x, y, z, w),
    ensures
        a == x && b == y && c == z && d == w,
{
    let s = ipv4_text(a, b, c, d);
    lemma_ipv4_groups(s, a, b, c, d);
    lemma_ipv4_groups(s, x, y, z, w);
    let p1 = dot_positions(s)[0];
    let p2 = dot_positions(s)[1];
    let p3 = dot_positions(s)[2];
    assert(dec_text(a) == dec_text(x) && dec_text(b) == dec_text(y) && dec_text(c) == dec_text(z)
        && dec_text(d) == dec_text(w));
    lemma_dec_text_ok(a);
    lemma_dec_text_ok(b);
    lemma_dec_text_ok(c);
    lemma_dec_text_ok(d);
    lemma_dec_text_ok(x);
    lemma_dec_text_ok(y);
    lemma_dec_text_ok(z);
    lemma_dec_text_ok(w);
    assert(a as int == group_val(dec_text(a)) && x as int == group_val(dec_text(x)));
    assert(b as int == group_val(dec_text(b)) && y as int == group_val(dec_text(y)));
    assert(c as int == group_val(dec_text(c)) && z as int == group_val(dec_text(z)));
    assert(d as int == group_val(dec_text(d)) && w as int == group_val(dec_text(w)));
}

} // verus!
