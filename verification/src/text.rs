//! Character-level helpers shared by the codecs: decimal numbers as
//! character sequences, and the two string-building primitives the
//! parsers and encoders rely on.

use vstd::prelude::*;
use vstd::string::StrSliceExecFns;
use vstd::string::StringSliceAdditionalSpecFns;

verus! {

/// `c` is an ASCII decimal digit.
pub open spec fn is_dec_digit(c: char) -> bool {
    48 <= c as u32 <= 57
}

/// Every character of `s` is an ASCII decimal digit.
pub open spec fn all_dec_digits(s: Seq<char>) -> bool {
    forall|i: int| 0 <= i < s.len() ==> is_dec_digit(s[i])
}

/// The integer denoted by the digit string `s` (most significant first).
pub open spec fn dec_value(s: Seq<char>) -> int
    decreases s.len(),
{
    if s.len() == 0 {
        0
    } else {
        dec_value(s.drop_last()) * 10 + (s.last() as u32 - 48)
    }
}

/// The canonical decimal rendering of `n >= 0`, without leading zeros.
pub open spec fn dec_chars(n: int) -> Seq<char>
    decreases n,
{
    if n < 10 {
        seq![((n + 48) as u8) as char]
    } else {
        dec_chars(n / 10) + seq![((n % 10 + 48) as u8) as char]
    }
}

/// A digit string denotes a non-negative value.
pub proof fn lemma_dec_value_nonneg(s: Seq<char>)
    requires
        all_dec_digits(s),
    ensures
        dec_value(s) >= 0,
    decreases s.len(),
{
    if s.len() > 0 {
        assert(all_dec_digits(s.drop_last())) by {
            assert(forall|i: int|
                0 <= i < s.len() - 1 ==> s.drop_last()[i] == s[i]);
        }
        lemma_dec_value_nonneg(s.drop_last());
    }
}

/// Appending digits never decreases the denoted value.
pub proof fn lemma_dec_value_prefix(s: Seq<char>, k: int)
    requires
        all_dec_digits(s),
        0 <= k <= s.len(),
    ensures
        dec_value(s) >= dec_value(s.subrange(0, k)),
    decreases s.len() - k,
{
    if k < s.len() {
        lemma_dec_value_prefix(s, k + 1);
        let p = s.subrange(0, k + 1);
        assert(p.drop_last() =~= s.subrange(0, k));
        assert(all_dec_digits(s.subrange(0, k))) by {
            assert(forall|i: int|
                0 <= i < k ==> s.subrange(0, k)[i] == s[i]);
        }
        lemma_dec_value_nonneg(s.subrange(0, k));
        assert(dec_value(p) == dec_value(s.subrange(0, k)) * 10 + (p.last() as u32 - 48));
    } else {
        assert(s.subrange(0, k) =~= s);
    }
}

/// Parses `s[from..to]` as an unbounded decimal digit string, returning its
/// value when it is non-empty, all digits, and at most `max`.
pub fn parse_dec_range(s: &str, from: usize, to: usize, max: u64) -> (r: Option<u64>)
    requires
        from <= to <= s@.len(),
    ensures
        ({
            let d = s@.subrange(from as int, to as int);
            match r {
                Some(v) => from < to && all_dec_digits(d) && dec_value(d) == v && v <= max,
                None => from == to || !all_dec_digits(d) || dec_value(d) > max,
            }
        }),
{
    if from == to {
        return None;
    }
    let ghost d = s@.subrange(from as int, to as int);
    let mut i: usize = from;
    let mut acc: u64 = 0;
    while i < to
        invariant
            from <= i <= to <= s@.len(),
            d == s@.subrange(from as int, to as int),
            all_dec_digits(d.subrange(0, i - from)),
            acc == dec_value(d.subrange(0, i - from)),
            acc <= max,
        decreases to - i,
    {
        let c = s.get_char(i);
        let cv = c as u32;
        proof {
            assert(d[i - from] == s@[i as int]);
        }
        if cv < 48 || cv > 57 {
            proof {
                assert(!is_dec_digit(d[i - from]));
            }
            return None;
        }
        let dv = (cv - 48) as u64;
        proof {
            assert(d.subrange(0, i + 1 - from).drop_last() =~= d.subrange(0, i - from));
            assert(d.subrange(0, i + 1 - from).last() == d[i - from]);
        }
        if acc > max / 10 || (acc == max / 10 && dv > max % 10) {
            // the value is already beyond `max`; any continuation stays beyond
            proof {
                assert(all_dec_digits(d.subrange(0, i + 1 - from)));
                assert(dec_value(d.subrange(0, i + 1 - from)) > max);
                if all_dec_digits(d) {
                    lemma_dec_value_prefix(d, i + 1 - from);
                }
            }
            return None;
        }
        acc = acc * 10 + dv;
        i = i + 1;
    }
    proof {
        assert(d.subrange(0, to - from) =~= d);
    }
    Some(acc)
}

/// `10^n`.
pub open spec fn pow10(n: nat) -> int
    decreases n,
{
    if n == 0 {
        1
    } else {
        10 * pow10((n - 1) as nat)
    }
}

/// A digit string of length `n` denotes a value below `10^n`.
pub proof fn lemma_dec_value_upper(s: Seq<char>)
    requires
        all_dec_digits(s),
    ensures
        dec_value(s) < pow10(s.len()),
    decreases s.len(),
{
    if s.len() == 0 {
    } else {
        assert(all_dec_digits(s.drop_last())) by {
            assert(forall|i: int|
                0 <= i < s.len() - 1 ==> s.drop_last()[i] == s[i]);
        }
        lemma_dec_value_upper(s.drop_last());
        assert(s.last() as u32 - 48 <= 9);
    }
}

/// First index `i` in `[from, to)` with `s[i] == c`.
pub open spec fn find_char_in(s: Seq<char>, c: char, from: int, to: int) -> Option<int>
    decreases to - from,
{
    if from < 0 || from >= to || to > s.len() {
        None
    } else if s[from] == c {
        Some(from)
    } else {
        find_char_in(s, c, from + 1, to)
    }
}

/// `find_char_in` returns exactly the least index of `c` in `[from, to)`,
/// and `None` exactly when `c` does not occur there.
pub proof fn lemma_find_char_in(s: Seq<char>, c: char, from: int, to: int)
    requires
        0 <= from,
        to <= s.len(),
    ensures
        match find_char_in(s, c, from, to) {
            Some(i) => from <= i < to && s[i] == c && forall|j: int|
                from <= j < i ==> s[j] != c,
            None => forall|j: int| from <= j < to ==> s[j] != c,
        },
    decreases to - from,
{
    if from < to && s[from] != c {
        lemma_find_char_in(s, c, from + 1, to);
    }
}

/// Scans `s` for the first occurrence of `c` in `[from, to)`.
pub fn find_char_pos(s: &str, c: char, from: usize, to: usize) -> (r: Option<usize>)
    requires
        from <= to <= s@.len(),
    ensures
        match r {
            Some(i) => find_char_in(s@, c, from as int, to as int) == Some(i as int),
            None => find_char_in(s@, c, from as int, to as int) is None,
        },
{
    let mut i: usize = from;
    while i < to
        invariant
            from <= i <= to <= s@.len(),
            forall|j: int| from <= j < i ==> s@[j] != c,
        decreases to - i,
    {
        if s.get_char(i) == c {
            proof {
                lemma_find_char_in_unique(s@, c, from as int, to as int, i as int);
            }
            return Some(i);
        }
        i = i + 1;
    }
    proof {
        lemma_find_char_in_none(s@, c, from as int, to as int);
    }
    None
}

/// A least occurrence determines `find_char_in`.
pub proof fn lemma_find_char_in_unique(s: Seq<char>, c: char, from: int, to: int, i: int)
    requires
        0 <= from <= i < to <= s.len(),
        s[i] == c,
        forall|j: int| from <= j < i ==> s[j] != c,
    ensures
        find_char_in(s, c, from, to) == Some(i),
    decreases i - from,
{
    if from < i {
        lemma_find_char_in_unique(s, c, from + 1, to, i);
    }
}

/// No occurrence in the range determines `find_char_in`.
pub proof fn lemma_find_char_in_none(s: Seq<char>, c: char, from: int, to: int)
    requires
        0 <= from,
        to <= s.len(),
        forall|j: int| from <= j < to ==> s[j] != c,
    ensures
        find_char_in(s, c, from, to) is None,
{
    lemma_find_char_in(s, c, from, to);
    if find_char_in(s, c, from, to) is Some {
        let i = find_char_in(s, c, from, to)->Some_0;
        assert(s[i] != c);
    }
}

/// Character-wise string equality.
pub fn str_eq(a: &str, b: &str) -> (r: bool)
    ensures
        r == (a@ == b@),
{
    let n = a.unicode_len();
    if n != b.unicode_len() {
        return false;
    }
    let mut i: usize = 0;
    while i < n
        invariant
            i <= n,
            n == a@.len(),
            n == b@.len(),
            forall|j: int| 0 <= j < i ==> a@[j] == b@[j],
        decreases n - i,
    {
        if a.get_char(i) != b.get_char(i) {
            return false;
        }
        i = i + 1;
    }
    proof {
        assert(a@ =~= b@);
    }
    true
}

/// Relies on `String::push`: appends one character.
#[verifier::external_body]
pub fn push_char(s: &mut String, c: char)
    ensures
        final(s)@ == old(s)@ + seq![c],
{
    s.push(c);
}

/// Relies on `core::str::from_utf8`: succeeds exactly on valid UTF-8 input
/// and returns the borrowed string over the same bytes.
#[verifier::external_body]
pub fn utf8_str(bytes: &[u8]) -> (r: Option<&str>)
    ensures
        r is Some <==> vstd::utf8::valid_utf8(bytes@),
        r matches Some(s) ==> s.spec_bytes() == bytes@ && s@ == vstd::utf8::decode_utf8(bytes@),
{
    core::str::from_utf8(bytes).ok()
}

/// Renders `n` in decimal.
pub fn u64_to_string(n: u64) -> (r: String)
    ensures
        r@ == dec_chars(n as int),
    decreases n,
{
    if n < 10 {
        let mut s = String::new();
        push_char(&mut s, ((n as u8) + 48) as char);
        s
    } else {
        let mut s = u64_to_string(n / 10);
        push_char(&mut s, (((n % 10) as u8) + 48) as char);
        s
    }
}

/// The canonical decimal rendering consists of digits.
pub proof fn lemma_dec_chars_digits(n: int)
    requires
        n >= 0,
    ensures
        all_dec_digits(dec_chars(n)),
        dec_chars(n).len() >= 1,
    decreases n,
{
    if n >= 10 {
        lemma_dec_chars_digits(n / 10);
        assert forall|i: int| 0 <= i < dec_chars(n).len() implies is_dec_digit(
            dec_chars(n)[i],
        ) by {
            if i < dec_chars(n / 10).len() {
                assert(dec_chars(n)[i] == dec_chars(n / 10)[i]);
            }
        }
    }
}

/// Rendering and reading back a decimal are inverse.
pub proof fn lemma_dec_chars_value(n: int)
    requires
        n >= 0,
    ensures
        dec_value(dec_chars(n)) == n,
    decreases n,
{
    if n < 10 {
        assert((((n + 48) as u8) as char) as u32 == n + 48);
        let c = ((n + 48) as u8) as char;
        assert(dec_chars(n) == seq![c]);
        assert(seq![c].drop_last() =~= Seq::<char>::empty());
        assert(dec_value(seq![c]) == dec_value(Seq::<char>::empty()) * 10 + (c as u32 - 48));
    } else {
        lemma_dec_chars_value(n / 10);
        assert(dec_chars(n).drop_last() =~= dec_chars(n / 10));
        assert(dec_chars(n).last() == ((n % 10 + 48) as u8) as char);
        assert((((n % 10 + 48) as u8) as char) as u32 == n % 10 + 48);
    }
}

} // verus!
