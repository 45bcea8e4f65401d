//! The PASV parsing law: a reply whose message carries one
//! `(a,b,c,d,p1,p2)` group in canonical decimal form parses to exactly
//! the address `a.b.c.d : p1*256 + p2`.

use vstd::prelude::*;
use crate::text::all_dec_digits;
use crate::text::dec_chars;
use crate::text::find_char_in;
use crate::text::is_dec_digit;
use crate::text::lemma_dec_chars_digits;
use crate::text::lemma_dec_chars_value;
use crate::text::lemma_find_char_in_none;
use crate::text::lemma_find_char_in_unique;
use super::codec::fields_ok;
use super::codec::spec_pasv;
use super::codec::SocketAddressV4;

verus! {

/// The canonical PASV group `(a,b,c,d,hi,lo)` in decimal.
#[verifier::opaque]
pub open spec fn pasv_group(a: u8, b: u8, c: u8, d: u8, hi: int, lo: int) -> Seq<char> {
    seq!['('] + dec_chars(a as int) + seq![','] + dec_chars(b as int) + seq![','] + dec_chars(
        c as int,
    ) + seq![','] + dec_chars(d as int) + seq![','] + dec_chars(hi) + seq![','] + dec_chars(lo)
        + seq![')']
}

/// A digit is none of the delimiter characters.
proof fn lemma_digit_not_delim(s: Seq<char>)
    requires
        all_dec_digits(s),
    ensures
        forall|j: int|
            0 <= j < s.len() ==> s[j] != '(' && s[j] != ')' && s[j] != ',',
{
    assert forall|j: int|
        0 <= j < s.len() implies s[j] != '(' && s[j] != ')' && s[j] != ',' by {
        assert(is_dec_digit(s[j]));
        assert('(' as u32 == 40 && ')' as u32 == 41 && ',' as u32 == 44);
    }
}

/// `fields_ok` on a region that is a single canonical decimal.
proof fn lemma_fields_last(s: Seq<char>, from: int, to: int, max: int, v: int)
    requires
        0 <= from < to <= s.len(),
        0 <= v <= max,
        s.subrange(from, to) == dec_chars(v),
    ensures
        fields_ok(s, from, to, max) == Some(seq![v]),
{
    lemma_dec_chars_digits(v);
    lemma_dec_chars_value(v);
    lemma_digit_not_delim(dec_chars(v));
    assert forall|j: int| from <= j < to implies s[j] != ',' by {
        assert(s.subrange(from, to)[j - from] == s[j]);
    }
    lemma_find_char_in_none(s, ',', from, to);
}

/// `fields_ok` on a region beginning with a canonical decimal and a comma.
proof fn lemma_fields_cons(s: Seq<char>, from: int, to: int, max: int, v: int)
    requires
        0 <= from,
        from + dec_chars(v).len() < to <= s.len(),
        0 <= v <= max,
        s.subrange(from, from + dec_chars(v).len()) == dec_chars(v),
        s[from + dec_chars(v).len()] == ',',
        fields_ok(s, from + dec_chars(v).len() + 1, to, max) is Some,
    ensures
        fields_ok(s, from, to, max) == Some(
            seq![v] + fields_ok(s, from + dec_chars(v).len() + 1, to, max)->Some_0,
        ),
{
    let l = dec_chars(v).len() as int;
    lemma_dec_chars_digits(v);
    lemma_dec_chars_value(v);
    lemma_digit_not_delim(dec_chars(v));
    assert forall|j: int| from <= j < from + l implies s[j] != ',' by {
        assert(s.subrange(from, from + l)[j - from] == s[j]);
    }
    lemma_find_char_in_unique(s, ',', from, to, from + l);
}

/// The positions of the parentheses in the assembled message.
#[verifier::rlimit(60)]
proof fn lemma_pasv_parens(
    pre: Seq<char>,
    post: Seq<char>,
    a: u8,
    b: u8,
    c: u8,
    d: u8,
    hi: int,
    lo: int,
)
    requires
        0 <= hi,
        0 <= lo,
        forall|j: int| 0 <= j < pre.len() ==> pre[j] != '(' && pre[j] != ')',
        forall|j: int| 0 <= j < post.len() ==> post[j] != '(' && post[j] != ')',
    ensures
        ({
            let g = pasv_group(a, b, c, d, hi, lo);
            let msg = pre + g + post;
            let o = pre.len() as int;
            let cl = o + g.len() - 1;
            let n = msg.len() as int;
            &&& find_char_in(msg, '(', 0, n) == Some(o)
            &&& find_char_in(msg, ')', 0, n) == Some(cl)
            &&& find_char_in(msg, '(', o + 1, n) is None
            &&& find_char_in(msg, ')', cl + 1, n) is None
        }),
{
    let g = pasv_group(a, b, c, d, hi, lo);
    let msg = pre + g + post;
    let o = pre.len() as int;
    let cl = o + g.len() - 1;
    let n = msg.len() as int;
    lemma_group_layout_dhl(a, b, c, d, hi, lo);
    assert(msg[o] == '(' && msg[cl] == ')');
    assert forall|j: int| 0 <= j < n && j != o implies msg[j] != '(' by {
        lemma_group_chars(pre, post, a, b, c, d, hi, lo, j);
    }
    assert forall|j: int| 0 <= j < n && j != cl implies msg[j] != ')' by {
        lemma_group_chars(pre, post, a, b, c, d, hi, lo, j);
    }
    lemma_find_char_in_unique(msg, '(', 0, n, o);
    lemma_find_char_in_unique(msg, ')', 0, n, cl);
    lemma_find_char_in_none(msg, '(', o + 1, n);
    lemma_find_char_in_none(msg, ')', cl + 1, n);
}

/// Offsets of the six fields inside the group.
pub open spec fn group_offsets(a: u8, b: u8, c: u8, d: u8, hi: int, lo: int) -> (
    int,
    int,
    int,
    int,
    int,
    int,
) {
    let la = dec_chars(a as int).len() as int;
    let lb = dec_chars(b as int).len() as int;
    let lc = dec_chars(c as int).len() as int;
    let ld = dec_chars(d as int).len() as int;
    let lhi = dec_chars(hi).len() as int;
    let fa = 1int;
    let fb = fa + la + 1;
    let fc = fb + lb + 1;
    let fd = fc + lc + 1;
    let fhi = fd + ld + 1;
    let flo = fhi + lhi + 1;
    (fa, fb, fc, fd, fhi, flo)
}

#[verifier::rlimit(100)]
#[verifier::spinoff_prover]
proof fn lemma_group_layout_abc(a: u8, b: u8, c: u8, d: u8, hi: int, lo: int)
    requires
        0 <= hi,
        0 <= lo,
    ensures
        ({
            let g = pasv_group(a, b, c, d, hi, lo);
            let (fa, fb, fc, fd, fhi, flo) = group_offsets(a, b, c, d, hi, lo);
            &&& g.subrange(fa, fb - 1) == dec_chars(a as int)
            &&& g[fb - 1] == ','
            &&& g.subrange(fb, fc - 1) == dec_chars(b as int)
            &&& g[fc - 1] == ','
            &&& g.subrange(fc, fd - 1) == dec_chars(c as int)
            &&& g[fd - 1] == ','
        }),
{
    reveal(pasv_group);
    let g = pasv_group(a, b, c, d, hi, lo);
    let (fa, fb, fc, fd, fhi, flo) = group_offsets(a, b, c, d, hi, lo);
    assert(g.subrange(fa, fb - 1) =~= dec_chars(a as int));
    assert(g.subrange(fb, fc - 1) =~= dec_chars(b as int));
    assert(g.subrange(fc, fd - 1) =~= dec_chars(c as int));
}

#[verifier::rlimit(100)]
#[verifier::spinoff_prover]
proof fn lemma_group_layout_dhl(a: u8, b: u8, c: u8, d: u8, hi: int, lo: int)
    requires
        0 <= hi,
        0 <= lo,
    ensures
        ({
            let g = pasv_group(a, b, c, d, hi, lo);
            let (fa, fb, fc, fd, fhi, flo) = group_offsets(a, b, c, d, hi, lo);
            &&& g.subrange(fd, fhi - 1) == dec_chars(d as int)
            &&& g[fhi - 1] == ','
            &&& g.subrange(fhi, flo - 1) == dec_chars(hi)
            &&& g[flo - 1] == ','
            &&& g.subrange(flo, g.len() - 1) == dec_chars(lo)
            &&& g.len() == flo + dec_chars(lo).len() + 1
            &&& g[0] == '('
            &&& g[g.len() - 1] == ')'
        }),
{
    reveal(pasv_group);
    let g = pasv_group(a, b, c, d, hi, lo);
    let (fa, fb, fc, fd, fhi, flo) = group_offsets(a, b, c, d, hi, lo);
    assert(g.subrange(fd, fhi - 1) =~= dec_chars(d as int));
    assert(g.subrange(fhi, flo - 1) =~= dec_chars(hi));
    assert(g.subrange(flo, g.len() - 1) =~= dec_chars(lo));
}

/// A subrange of the group is the same subrange of the whole message.
#[verifier::spinoff_prover]
proof fn lemma_embed(pre: Seq<char>, g: Seq<char>, post: Seq<char>, i: int, j: int)
    requires
        0 <= i <= j <= g.len(),
    ensures
        (pre + g + post).subrange(pre.len() + i, pre.len() + j) == g.subrange(i, j),
        j < g.len() ==> (pre + g + post)[pre.len() + j] == g[j],
{
    assert((pre + g + post).subrange(pre.len() + i, pre.len() + j) =~= g.subrange(i, j));
}

/// The six decimal fields of the assembled message.
#[verifier::rlimit(100)]
#[verifier::spinoff_prover]
proof fn lemma_pasv_fields(
    pre: Seq<char>,
    post: Seq<char>,
    a: u8,
    b: u8,
    c: u8,
    d: u8,
    hi: int,
    lo: int,
)
    requires
        0 <= hi <= 255,
        0 <= lo <= 255,
    ensures
        ({
            let g = pasv_group(a, b, c, d, hi, lo);
            let msg = pre + g + post;
            let o = pre.len() as int;
            let cl = o + g.len() - 1;
            fields_ok(msg, o + 1, cl, 65535) == Some(
                seq![a as int, b as int, c as int, d as int, hi, lo],
            )
        }),
{
    let g = pasv_group(a, b, c, d, hi, lo);
    let msg = pre + g + post;
    let o = pre.len() as int;
    let cl = o + g.len() - 1;
    let (fa, fb, fc, fd, fhi, flo) = group_offsets(a, b, c, d, hi, lo);
    lemma_group_layout_abc(a, b, c, d, hi, lo);
    lemma_group_layout_dhl(a, b, c, d, hi, lo);
    lemma_embed(pre, g, post, fa, fb - 1);
    lemma_embed(pre, g, post, fb, fc - 1);
    lemma_embed(pre, g, post, fc, fd - 1);
    lemma_embed(pre, g, post, fd, fhi - 1);
    lemma_embed(pre, g, post, fhi, flo - 1);
    lemma_embed(pre, g, post, flo, g.len() - 1);
    lemma_fields_last(msg, o + flo, cl, 65535, lo);
    lemma_fields_cons(msg, o + fhi, cl, 65535, hi);
    lemma_fields_cons(msg, o + fd, cl, 65535, d as int);
    lemma_fields_cons(msg, o + fc, cl, 65535, c as int);
    lemma_fields_cons(msg, o + fb, cl, 65535, b as int);
    lemma_fields_cons(msg, o + fa, cl, 65535, a as int);
    let vs = fields_ok(msg, o + 1, cl, 65535)->Some_0;
    assert(vs =~= seq![a as int, b as int, c as int, d as int, hi, lo]);
}

/// PASV parsing round trip: any message made of paren-free text around
/// one canonical `(a,b,c,d,hi,lo)` group parses to `a.b.c.d : hi*256+lo`.
#[verifier::rlimit(60)]
pub proof fn lemma_pasv_round_trip(
    pre: Seq<char>,
    post: Seq<char>,
    a: u8,
    b: u8,
    c: u8,
    d: u8,
    p: u16,
)
    requires
        forall|j: int| 0 <= j < pre.len() ==> pre[j] != '(' && pre[j] != ')',
        forall|j: int| 0 <= j < post.len() ==> post[j] != '(' && post[j] != ')',
    ensures
        spec_pasv(pre + pasv_group(a, b, c, d, (p / 256) as int, (p % 256) as int) + post)
            == Some(SocketAddressV4 { a, b, c, d, port: p }),
{
    let hi = (p / 256) as int;
    let lo = (p % 256) as int;
    let g = pasv_group(a, b, c, d, hi, lo);
    let msg = pre + g + post;
    let o = pre.len() as int;
    let cl = o + g.len() - 1;
    lemma_pasv_parens(pre, post, a, b, c, d, hi, lo);
    lemma_pasv_fields(pre, post, a, b, c, d, hi, lo);
    assert(hi * 256 + lo == p) by {
        assert(p / 256 * 256 + p % 256 == p);
    }
}

/// Which character stands at each position of the assembled message.
proof fn lemma_group_chars(
    pre: Seq<char>,
    post: Seq<char>,
    a: u8,
    b: u8,
    c: u8,
    d: u8,
    hi: int,
    lo: int,
    j: int,
)
    requires
        0 <= hi,
        0 <= lo,
        forall|k: int| 0 <= k < pre.len() ==> pre[k] != '(' && pre[k] != ')',
        forall|k: int| 0 <= k < post.len() ==> post[k] != '(' && post[k] != ')',
        0 <= j < (pre + pasv_group(a, b, c, d, hi, lo) + post).len(),
    ensures
        ({
            let msg = pre + pasv_group(a, b, c, d, hi, lo) + post;
            let o = pre.len() as int;
            let cl = o + pasv_group(a, b, c, d, hi, lo).len() - 1;
            &&& (msg[j] == '(' ==> j == o)
            &&& (msg[j] == ')' ==> j == cl)
        }),
{
    let g = pasv_group(a, b, c, d, hi, lo);
    let msg = pre + g + post;
    let o = pre.len() as int;
    lemma_dec_chars_digits(a as int);
    lemma_dec_chars_digits(b as int);
    lemma_dec_chars_digits(c as int);
    lemma_dec_chars_digits(d as int);
    lemma_dec_chars_digits(hi);
    lemma_dec_chars_digits(lo);
    lemma_digit_not_delim(dec_chars(a as int));
    lemma_digit_not_delim(dec_chars(b as int));
    lemma_digit_not_delim(dec_chars(c as int));
    lemma_digit_not_delim(dec_chars(d as int));
    lemma_digit_not_delim(dec_chars(hi));
    lemma_digit_not_delim(dec_chars(lo));
    assert(',' as u32 == 44 && '(' as u32 == 40 && ')' as u32 == 41);
    if j < o {
        assert(msg[j] == pre[j]);
    } else if j < o + g.len() {
        assert(msg[j] == g[j - o]);
        lemma_group_inner(a, b, c, d, hi, lo, j - o);
    } else {
        assert(msg[j] == post[j - o - g.len()]);
    }
}

/// Inside the group, `(` stands only first and `)` only last.
proof fn lemma_group_inner(a: u8, b: u8, c: u8, d: u8, hi: int, lo: int, i: int)
    requires
        0 <= hi,
        0 <= lo,
        0 <= i < pasv_group(a, b, c, d, hi, lo).len(),
    ensures
        ({
            let g = pasv_group(a, b, c, d, hi, lo);
            &&& (g[i] == '(' ==> i == 0)
            &&& (g[i] == ')' ==> i == g.len() - 1)
        }),
{
    reveal(pasv_group);
    let g = pasv_group(a, b, c, d, hi, lo);
    lemma_dec_chars_digits(a as int);
    lemma_dec_chars_digits(b as int);
    lemma_dec_chars_digits(c as int);
    lemma_dec_chars_digits(d as int);
    lemma_dec_chars_digits(hi);
    lemma_dec_chars_digits(lo);
    lemma_digit_not_delim(dec_chars(a as int));
    lemma_digit_not_delim(dec_chars(b as int));
    lemma_digit_not_delim(dec_chars(c as int));
    lemma_digit_not_delim(dec_chars(d as int));
    lemma_digit_not_delim(dec_chars(hi));
    lemma_digit_not_delim(dec_chars(lo));
    assert(',' as u32 == 44 && '(' as u32 == 40 && ')' as u32 == 41);
    if 0 < i < g.len() - 1 {
        assert(g[i] != '(' && g[i] != ')');
    }
}

} // verus!
