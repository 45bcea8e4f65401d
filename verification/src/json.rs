//! JSON as the MQTT channel speaks it: string escaping for the encoder,
//! and a value parser for incoming replies.

use vstd::prelude::*;
use vstd::string::StrSliceExecFns;
use crate::text::push_char;

verus! {

/// The lowercase hex digit for `d` in 0..16.
pub open spec fn hex_digit(d: int) -> char {
    if d < 10 {
        ((d + 48) as u8) as char
    } else {
        ((d + 87) as u8) as char
    }
}

/// How one character is written inside a JSON string: the two-character
/// shortcuts for quote, backslash and the common control characters,
/// `\u00XX` for the remaining control characters, and the character
/// itself otherwise.
pub open spec fn escape_char(c: char) -> Seq<char> {
    if c == '"' {
        seq!['\\', '"']
    } else if c == '\\' {
        seq!['\\', '\\']
    } else if c as u32 == 8 {
        seq!['\\', 'b']
    } else if c as u32 == 9 {
        seq!['\\', 't']
    } else if c as u32 == 10 {
        seq!['\\', 'n']
    } else if c as u32 == 12 {
        seq!['\\', 'f']
    } else if c as u32 == 13 {
        seq!['\\', 'r']
    } else if (c as u32) < 32 {
        let v = (c as u32) as int;
        let hi = hex_digit(v / 16);
        let lo = hex_digit(v % 16);
        seq!['\\', 'u', '0', '0', hi, lo]
    } else {
        seq![c]
    }
}

/// The body of a JSON string: every character escaped as needed.
pub open spec fn escape_string(s: Seq<char>) -> Seq<char>
    decreases s.len(),
{
    if s.len() == 0 {
        seq![]
    } else {
        escape_char(s[0]) + escape_string(s.drop_first())
    }
}

/// A JSON string literal: the escaped body between quotes.
pub open spec fn json_string(s: Seq<char>) -> Seq<char> {
    seq!['"'] + escape_string(s) + seq!['"']
}

proof fn lemma_escape_snoc(s: Seq<char>, c: char)
    ensures
        escape_string(s.push(c)) == escape_string(s) + escape_char(c),
    decreases s.len(),
{
    if s.len() == 0 {
        assert(s.push(c)[0] == c);
        assert(s.push(c).drop_first() =~= Seq::<char>::empty());
        assert(escape_string(Seq::<char>::empty()) =~= Seq::<char>::empty());
        assert(escape_string(s.push(c)) =~= escape_char(c));
        assert(escape_string(s) + escape_char(c) =~= escape_char(c));
    } else {
        assert(s.push(c)[0] == s[0]);
        assert(s.push(c).drop_first() =~= s.drop_first().push(c));
        lemma_escape_snoc(s.drop_first(), c);
        assert(escape_string(s.push(c)) =~= escape_string(s) + escape_char(c));
    }
}

/// Appends the JSON string literal for `s` to `out`.
pub fn write_json_string(out: &mut String, s: &str)
    ensures
        final(out)@ == old(out)@ + json_string(s@),
{
    push_char(out, '"');
    let n = s.unicode_len();
    let mut i: usize = 0;
    while i < n
        invariant
            i <= n,
            n == s@.len(),
            out@ == old(out)@ + seq!['"'] + escape_string(s@.subrange(0, i as int)),
        decreases n - i,
    {
        let c = s.get_char(i);
        proof {
            assert(s@.subrange(0, i + 1) =~= s@.subrange(0, i as int).push(c));
            lemma_escape_snoc(s@.subrange(0, i as int), c);
        }
        let v = c as u32;
        if c == '"' {
            push_char(out, '\\');
            push_char(out, '"');
        } else if c == '\\' {
            push_char(out, '\\');
            push_char(out, '\\');
        } else if v == 8 {
            push_char(out, '\\');
            push_char(out, 'b');
        } else if v == 9 {
            push_char(out, '\\');
            push_char(out, 't');
        } else if v == 10 {
            push_char(out, '\\');
            push_char(out, 'n');
        } else if v == 12 {
            push_char(out, '\\');
            push_char(out, 'f');
        } else if v == 13 {
            push_char(out, '\\');
            push_char(out, 'r');
        } else if v < 32u32 {
            push_char(out, '\\');
            push_char(out, 'u');
            push_char(out, '0');
            push_char(out, '0');
            let hi = v / 16;
            let lo = v % 16;
            push_char(out, if hi < 10 {
                ((hi + 48) as u8) as char
            } else {
                ((hi + 87) as u8) as char
            });
            push_char(out, if lo < 10 {
                ((lo + 48) as u8) as char
            } else {
                ((lo + 87) as u8) as char
            });
        } else {
            push_char(out, c);
        }
        proof {
            assert(out@ =~= old(out)@ + seq!['"'] + escape_string(s@.subrange(0, i + 1)));
        }
        i = i + 1;
    }
    proof {
        assert(s@.subrange(0, n as int) =~= s@);
    }
    push_char(out, '"');
    proof {
        assert(out@ =~= old(out)@ + json_string(s@));
    }
}

/// A parsed JSON value, with numbers kept as their raw text.
#[derive(Debug, PartialEq)]
pub enum Json {
    Null,
    Bool(bool),
    Num(String),
    Str(String),
    Arr(Vec<Json>),
    Obj(Vec<(String, Json)>),
}

/// The mathematical model of a JSON value.
pub enum JsonValue {
    Null,
    Bool(bool),
    Num(Seq<char>),
    Str(Seq<char>),
    Arr(Seq<JsonValue>),
    Obj(Seq<(Seq<char>, JsonValue)>),
}

/// `j` denotes the model `m`.
pub open spec fn models(j: Json, m: JsonValue) -> bool
    decreases m,
{
    match m {
        JsonValue::Null => j is Null,
        JsonValue::Bool(b) => j matches Json::Bool(b1) && b1 == b,
        JsonValue::Num(t) => j matches Json::Num(s) && s@ == t,
        JsonValue::Str(t) => j matches Json::Str(s) && s@ == t,
        JsonValue::Arr(ms) => j matches Json::Arr(v) && v@.len() == ms.len() && forall|i: int|
            0 <= i < ms.len() ==> models(v@[i], #[trigger] ms[i]),
        JsonValue::Obj(ms) => j matches Json::Obj(fs) && fs@.len() == ms.len() && forall|i: int|
            0 <= i < ms.len() ==> fs@[i].0@ == (#[trigger] ms[i]).0 && models(fs@[i].1, ms[i].1),
    }
}

/// JSON whitespace.
pub open spec fn is_json_ws(c: char) -> bool {
    c == ' ' || c == '\t' || c == '\n' || c == '\r'
}

/// First index at or after `i` that is not JSON whitespace (or the end).
pub open spec fn sp_skip_ws(s: Seq<char>, i: int) -> int
    decreases s.len() - i,
{
    if 0 <= i < s.len() && is_json_ws(s[i]) {
        sp_skip_ws(s, i + 1)
    } else {
        i
    }
}

/// First index at or after `i` that is not a decimal digit (or the end).
pub open spec fn sp_digits_end(s: Seq<char>, i: int) -> int
    decreases s.len() - i,
{
    if 0 <= i < s.len() && crate::text::is_dec_digit(s[i]) {
        sp_digits_end(s, i + 1)
    } else {
        i
    }
}

/// The value of a hex digit, or -1.
pub open spec fn hex_val(c: char) -> int {
    let v = c as u32;
    if 48 <= v <= 57 {
        v - 48
    } else if 97 <= v <= 102 {
        v - 87
    } else if 65 <= v <= 70 {
        v - 55
    } else {
        -1
    }
}

/// Decodes the body of a JSON string from position `i` (just after the
/// opening quote) to its closing quote: the decoded characters and the
/// position after the closing quote.
pub open spec fn sp_string_body(s: Seq<char>, i: int) -> Option<(Seq<char>, int)>
    decreases s.len() - i,
{
    if i < 0 || i >= s.len() {
        None
    } else {
        let c = s[i];
        if c == '"' {
            Some((Seq::empty(), i + 1))
        } else if c == '\\' {
            if i + 1 >= s.len() {
                None
            } else {
                let e = s[i + 1];
                if e == 'u' {
                    if i + 6 > s.len() {
                        None
                    } else {
                        let code = hex_val(s[i + 2]) * 4096 + hex_val(s[i + 3]) * 256 + hex_val(
                            s[i + 4],
                        ) * 16 + hex_val(s[i + 5]);
                        if hex_val(s[i + 2]) < 0 || hex_val(s[i + 3]) < 0 || hex_val(s[i + 4])
                            < 0 || hex_val(s[i + 5]) < 0 || (0xD800 <= code < 0xE000) {
                            None
                        } else {
                            match sp_string_body(s, i + 6) {
                                None => None,
                                Some(rest) => Some(
                                    (seq![(code as u32) as char] + rest.0, rest.1),
                                ),
                            }
                        }
                    }
                } else {
                    let decoded: Option<char> = if e == '"' {
                        Some('"')
                    } else if e == '\\' {
                        Some('\\')
                    } else if e == '/' {
                        Some('/')
                    } else if e == 'b' {
                        Some((8u8) as char)
                    } else if e == 'f' {
                        Some((12u8) as char)
                    } else if e == 'n' {
                        Some('\n')
                    } else if e == 'r' {
                        Some('\r')
                    } else if e == 't' {
                        Some('\t')
                    } else {
                        None
                    };
                    match decoded {
                        None => None,
                        Some(ch) => match sp_string_body(s, i + 2) {
                            None => None,
                            Some(rest) => Some((seq![ch] + rest.0, rest.1)),
                        },
                    }
                }
            }
        } else if (c as u32) < 32 {
            None
        } else {
            match sp_string_body(s, i + 1) {
                None => None,
                Some(rest) => Some((seq![c] + rest.0, rest.1)),
            }
        }
    }
}

/// The end position of a JSON number starting at `i`, when one starts
/// there: optional minus, an integer part without leading zeros, an
/// optional fraction, an optional exponent.
pub open spec fn sp_number_end(s: Seq<char>, i: int) -> Option<int> {
    if i < 0 || i > s.len() {
        None
    } else {
        let p = if i < s.len() && s[i] == '-' {
            i + 1
        } else {
            i
        };
        if p >= s.len() || !crate::text::is_dec_digit(s[p]) {
            None
        } else {
            let ip = if s[p] == '0' {
                p + 1
            } else {
                sp_digits_end(s, p)
            };
            let fr = if ip < s.len() && s[ip] == '.' {
                let d = sp_digits_end(s, ip + 1);
                if d == ip + 1 {
                    -1
                } else {
                    d
                }
            } else {
                ip
            };
            if fr < 0 {
                None
            } else {
                let ex = if fr < s.len() && (s[fr] == 'e' || s[fr] == 'E') {
                    let q = if fr + 1 < s.len() && (s[fr + 1] == '+' || s[fr + 1] == '-') {
                        fr + 2
                    } else {
                        fr + 1
                    };
                    let d = sp_digits_end(s, q);
                    if d == q {
                        -1
                    } else {
                        d
                    }
                } else {
                    fr
                };
                if ex < 0 {
                    None
                } else {
                    Some(ex)
                }
            }
        }
    }
}

/// Parses the JSON value whose first non-space character stands at or
/// after `i`: the model and the position just after the value.
pub open spec fn sp_value(s: Seq<char>, i: int) -> Option<(JsonValue, int)>
    decreases s.len() - i, 2int,
{
    if i < 0 {
        None
    } else {
        let j = sp_skip_ws(s, i);
        if j >= s.len() || j < i {
            None
        } else {
            let c = s[j];
            if c == 'n' {
                if j + 4 <= s.len() && s[j + 1] == 'u' && s[j + 2] == 'l' && s[j + 3] == 'l' {
                    Some((JsonValue::Null, j + 4))
                } else {
                    None
                }
            } else if c == 't' {
                if j + 4 <= s.len() && s[j + 1] == 'r' && s[j + 2] == 'u' && s[j + 3] == 'e' {
                    Some((JsonValue::Bool(true), j + 4))
                } else {
                    None
                }
            } else if c == 'f' {
                if j + 5 <= s.len() && s[j + 1] == 'a' && s[j + 2] == 'l' && s[j + 3] == 's'
                    && s[j + 4] == 'e' {
                    Some((JsonValue::Bool(false), j + 5))
                } else {
                    None
                }
            } else if c == '"' {
                match sp_string_body(s, j + 1) {
                    None => None,
                    Some(body) => Some((JsonValue::Str(body.0), body.1)),
                }
            } else if c == '[' {
                let k = sp_skip_ws(s, j + 1);
                if k < s.len() && k >= j + 1 && s[k] == ']' {
                    Some((JsonValue::Arr(Seq::empty()), k + 1))
                } else if j + 1 > s.len() {
                    None
                } else {
                    match sp_elements(s, j + 1) {
                        None => None,
                        Some(elems) => Some((JsonValue::Arr(elems.0), elems.1)),
                    }
                }
            } else if c == '{' {
                let k = sp_skip_ws(s, j + 1);
                if k < s.len() && k >= j + 1 && s[k] == '}' {
                    Some((JsonValue::Obj(Seq::empty()), k + 1))
                } else if j + 1 > s.len() {
                    None
                } else {
                    match sp_members(s, j + 1) {
                        None => None,
                        Some(mems) => Some((JsonValue::Obj(mems.0), mems.1)),
                    }
                }
            } else if c == '-' || crate::text::is_dec_digit(c) {
                match sp_number_end(s, j) {
                    None => None,
                    Some(e) => Some((JsonValue::Num(s.subrange(j, e)), e)),
                }
            } else {
                None
            }
        }
    }
}

/// Parses `value (, value)* ]` from position `i` (just after `[` or a
/// comma): the elements and the position after the closing bracket.
pub open spec fn sp_elements(s: Seq<char>, i: int) -> Option<(Seq<JsonValue>, int)>
    decreases s.len() - i, 3int,
{
    if i < 0 || i > s.len() {
        None
    } else {
        match sp_value(s, i) {
            None => None,
            Some(head) => {
                let e = head.1;
                if e <= i || e > s.len() {
                    None
                } else {
                    let w = sp_skip_ws(s, e);
                    if w >= s.len() || w < e {
                        None
                    } else if s[w] == ']' {
                        Some((seq![head.0], w + 1))
                    } else if s[w] == ',' {
                        match sp_elements(s, w + 1) {
                            None => None,
                            Some(rest) => Some((seq![head.0] + rest.0, rest.1)),
                        }
                    } else {
                        None
                    }
                }
            },
        }
    }
}

/// Parses `"key" : value (, "key" : value)* }` from position `i` (just
/// after `{` or a comma): the members and the position after the
/// closing brace.
pub open spec fn sp_members(s: Seq<char>, i: int) -> Option<
    (Seq<(Seq<char>, JsonValue)>, int),
>
    decreases s.len() - i, 3int,
{
    if i < 0 || i > s.len() {
        None
    } else {
        let j = sp_skip_ws(s, i);
        if j >= s.len() || j < i || s[j] != '"' {
            None
        } else {
            match sp_string_body(s, j + 1) {
                None => None,
                Some(key) => {
                    let e = key.1;
                    if e <= j || e > s.len() {
                        None
                    } else {
                        let co = sp_skip_ws(s, e);
                        if co >= s.len() || co < e || s[co] != ':' {
                            None
                        } else {
                            match sp_value(s, co + 1) {
                                None => None,
                                Some(val) => {
                                    let ve = val.1;
                                    if ve <= co || ve > s.len() {
                                        None
                                    } else {
                                        let w = sp_skip_ws(s, ve);
                                        if w >= s.len() || w < ve {
                                            None
                                        } else if s[w] == '}' {
                                            Some((seq![(key.0, val.0)], w + 1))
                                        } else if s[w] == ',' {
                                            match sp_members(s, w + 1) {
                                                None => None,
                                                Some(rest) => Some(
                                                    (seq![(key.0, val.0)] + rest.0, rest.1),
                                                ),
                                            }
                                        } else {
                                            None
                                        }
                                    }
                                },
                            }
                        }
                    }
                }
            }
        }
    }
}

/// Parses a complete JSON document: one value with only whitespace
/// around it.
pub open spec fn sp_document(s: Seq<char>) -> Option<JsonValue> {
    match sp_value(s, 0) {
        None => None,
        Some(v) => {
            if sp_skip_ws(s, v.1) == s.len() {
                Some(v.0)
            } else {
                None
            }
        },
    }
}

/// The elements of `v` denote the models `ms`, pointwise.
pub open spec fn arr_models(v: Seq<Json>, ms: Seq<JsonValue>) -> bool {
    v.len() == ms.len() && forall|i: int| 0 <= i < ms.len() ==> models(v[i], #[trigger] ms[i])
}

/// The members of `fs` denote the models `ms`, pointwise.
pub open spec fn obj_models(fs: Seq<(String, Json)>, ms: Seq<(Seq<char>, JsonValue)>) -> bool {
    fs.len() == ms.len() && forall|i: int|
        0 <= i < ms.len() ==> fs[i].0@ == (#[trigger] ms[i]).0 && models(fs[i].1, ms[i].1)
}

proof fn lemma_sp_skip_ws(s: Seq<char>, i: int)
    requires
        0 <= i <= s.len(),
    ensures
        i <= sp_skip_ws(s, i) <= s.len(),
        sp_skip_ws(s, i) < s.len() ==> !is_json_ws(s[sp_skip_ws(s, i)]),
        forall|j: int| i <= j < sp_skip_ws(s, i) ==> is_json_ws(s[j]),
    decreases s.len() - i,
{
    if i < s.len() && is_json_ws(s[i]) {
        lemma_sp_skip_ws(s, i + 1);
    }
}

proof fn lemma_sp_skip_ws_unique(s: Seq<char>, i: int, e: int)
    requires
        0 <= i <= e <= s.len(),
        forall|j: int| i <= j < e ==> is_json_ws(s[j]),
        e < s.len() ==> !is_json_ws(s[e]),
    ensures
        sp_skip_ws(s, i) == e,
    decreases e - i,
{
    if i < e {
        lemma_sp_skip_ws_unique(s, i + 1, e);
    }
}

fn is_json_ws_exec(c: char) -> (r: bool)
    ensures
        r == is_json_ws(c),
{
    c == ' ' || c == '\t' || c == '\n' || c == '\r'
}

/// Advances past JSON whitespace.
fn skip_ws_exec(s: &str, i: usize) -> (r: usize)
    requires
        i <= s@.len(),
    ensures
        r as int == sp_skip_ws(s@, i as int),
        i <= r <= s@.len(),
{
    let n = s.unicode_len();
    let mut k = i;
    while k < n && is_json_ws_exec(s.get_char(k))
        invariant
            i <= k <= n,
            n == s@.len(),
            forall|j: int| i <= j < k ==> is_json_ws(s@[j]),
        decreases n - k,
    {
        k = k + 1;
    }
    proof {
        lemma_sp_skip_ws_unique(s@, i as int, k as int);
    }
    k
}

proof fn lemma_sp_digits_end_unique(s: Seq<char>, i: int, e: int)
    requires
        0 <= i <= e <= s.len(),
        forall|j: int| i <= j < e ==> crate::text::is_dec_digit(s[j]),
        e < s.len() ==> !crate::text::is_dec_digit(s[e]),
    ensures
        sp_digits_end(s, i) == e,
    decreases e - i,
{
    if i < e {
        lemma_sp_digits_end_unique(s, i + 1, e);
    }
}

fn is_dec_digit_exec(c: char) -> (r: bool)
    ensures
        r == crate::text::is_dec_digit(c),
{
    let v = c as u32;
    48 <= v && v <= 57
}

/// Advances past decimal digits.
fn digits_end_exec(s: &str, i: usize) -> (r: usize)
    requires
        i <= s@.len(),
    ensures
        r as int == sp_digits_end(s@, i as int),
        i <= r <= s@.len(),
        forall|j: int| i <= j < r ==> crate::text::is_dec_digit(s@[j]),
        r < s@.len() ==> !crate::text::is_dec_digit(s@[r as int]),
{
    let n = s.unicode_len();
    let mut k = i;
    while k < n && is_dec_digit_exec(s.get_char(k))
        invariant
            i <= k <= n,
            n == s@.len(),
            forall|j: int| i <= j < k ==> crate::text::is_dec_digit(s@[j]),
        decreases n - k,
    {
        k = k + 1;
    }
    proof {
        lemma_sp_digits_end_unique(s@, i as int, k as int);
    }
    k
}

/// The end of a JSON number starting at `i`, mirroring `sp_number_end`.
fn number_end_exec(s: &str, i: usize) -> (r: Option<usize>)
    requires
        i <= s@.len(),
    ensures
        match r {
            Some(e) => sp_number_end(s@, i as int) == Some(e as int) && i < e <= s@.len(),
            None => sp_number_end(s@, i as int) is None,
        },
{
    let n = s.unicode_len();
    let p = if i < n && s.get_char(i) == '-' {
        i + 1
    } else {
        i
    };
    if p >= n {
        return None;
    }
    let c0 = s.get_char(p) as u32;
    if !(48 <= c0 && c0 <= 57) {
        return None;
    }
    let ip = if s.get_char(p) == '0' {
        p + 1
    } else {
        digits_end_exec(s, p)
    };
    let fr: usize;
    if ip < n && s.get_char(ip) == '.' {
        let d = digits_end_exec(s, ip + 1);
        if d == ip + 1 {
            return None;
        }
        fr = d;
    } else {
        fr = ip;
    }
    if fr < n && (s.get_char(fr) == 'e' || s.get_char(fr) == 'E') {
        let q = if fr + 1 < n && (s.get_char(fr + 1) == '+' || s.get_char(fr + 1) == '-') {
            fr + 2
        } else {
            fr + 1
        };
        let d = digits_end_exec(s, q);
        if d == q {
            return None;
        }
        Some(d)
    } else {
        Some(fr)
    }
}

/// Relies on `char::from_u32`: any code point that is not a surrogate
/// and at most 0x10FFFF converts to the character with that code point.
#[verifier::external_body]
fn char_from_u32(v: u32) -> (r: char)
    requires
        v < 0xD800 || (0xE000 <= v && v <= 0x10FFFF),
    ensures
        r as u32 == v,
{
    char::from_u32(v).unwrap()
}

fn hex_val_exec(c: char) -> (r: i32)
    ensures
        r as int == hex_val(c),
{
    let v = c as u32;
    if 48 <= v && v <= 57 {
        (v - 48) as i32
    } else if 97 <= v && v <= 102 {
        (v - 87) as i32
    } else if 65 <= v && v <= 70 {
        (v - 55) as i32
    } else {
        -1
    }
}

/// Reads a JSON string body from just after the opening quote,
/// mirroring `sp_string_body`.
fn string_body_exec(s: &str, i: usize) -> (r: Option<(String, usize)>)
    requires
        i <= s@.len(),
    ensures
        match r {
            Some(p) => sp_string_body(s@, i as int) matches Some(q) && p.0@ == q.0 && p.1
                == q.1 && i < p.1 <= s@.len(),
            None => sp_string_body(s@, i as int) is None,
        },
{
    let n = s.unicode_len();
    let mut acc = String::new();
    let mut cur = i;
    loop
        invariant
            i <= cur <= n,
            n == s@.len(),
            sp_string_body(s@, i as int) == (match sp_string_body(s@, cur as int) {
                Some(q) => Some::<(Seq<char>, int)>((acc@ + q.0, q.1)),
                None => None::<(Seq<char>, int)>,
            }),
        decreases n - cur,
    {
        if cur >= n {
            return None;
        }
        let c = s.get_char(cur);
        if c == '"' {
            proof {
                assert(acc@ + Seq::<char>::empty() =~= acc@);
            }
            return Some((acc, cur + 1));
        } else if c == '\\' {
            if cur + 1 >= n {
                return None;
            }
            let e = s.get_char(cur + 1);
            if e == 'u' {
                if n - cur < 6 {
                    return None;
                }
                let h0 = hex_val_exec(s.get_char(cur + 2));
                let h1 = hex_val_exec(s.get_char(cur + 3));
                let h2 = hex_val_exec(s.get_char(cur + 4));
                let h3 = hex_val_exec(s.get_char(cur + 5));
                if h0 < 0 || h1 < 0 || h2 < 0 || h3 < 0 {
                    return None;
                }
                let code: u32 = (h0 as u32) * 4096 + (h1 as u32) * 256 + (h2 as u32) * 16 + (
                h3 as u32);
                if 0xD800 <= code && code < 0xE000 {
                    return None;
                }
                let ch = char_from_u32(code);
                proof {
                    vstd::utf8::char_u32_cast(ch, code);
                    if sp_string_body(s@, cur as int) is Some {
                        let q = sp_string_body(s@, cur as int)->Some_0;
                        let q2 = sp_string_body(s@, cur + 6)->Some_0;
                        assert(acc@ + q.0 =~= (acc@ + seq![ch]) + q2.0);
                    }
                }
                push_char(&mut acc, ch);
                cur = cur + 6;
            } else {
                let decoded: Option<char> = if e == '"' {
                    Some('"')
                } else if e == '\\' {
                    Some('\\')
                } else if e == '/' {
                    Some('/')
                } else if e == 'b' {
                    Some((8u8) as char)
                } else if e == 'f' {
                    Some((12u8) as char)
                } else if e == 'n' {
                    Some('\n')
                } else if e == 'r' {
                    Some('\r')
                } else if e == 't' {
                    Some('\t')
                } else {
                    None
                };
                let ch = match decoded {
                    Some(ch) => ch,
                    None => {
                        return None;
                    },
                };
                proof {
                    if sp_string_body(s@, cur as int) is Some {
                        let q = sp_string_body(s@, cur as int)->Some_0;
                        let q2 = sp_string_body(s@, cur + 2)->Some_0;
                        assert(acc@ + q.0 =~= (acc@ + seq![ch]) + q2.0);
                    }
                }
                push_char(&mut acc, ch);
                cur = cur + 2;
            }
        } else if (c as u32) < 32 {
            return None;
        } else {
            proof {
                if sp_string_body(s@, cur as int) is Some {
                    let q = sp_string_body(s@, cur as int)->Some_0;
                    let q2 = sp_string_body(s@, cur + 1)->Some_0;
                    assert(acc@ + q.0 =~= (acc@ + seq![c]) + q2.0);
                }
            }
            push_char(&mut acc, c);
            cur = cur + 1;
        }
    }
}

/// Parses one JSON value, mirroring `sp_value`.
pub fn parse_value(s: &str, i: usize) -> (r: Option<(Json, usize)>)
    requires
        i <= s@.len(),
    ensures
        match r {
            Some(p) => sp_value(s@, i as int) matches Some(q) && models(p.0, q.0) && p.1 == q.1
                && i < p.1 <= s@.len(),
            None => sp_value(s@, i as int) is None,
        },
    decreases s@.len() - i, 2int,
{
    let n = s.unicode_len();
    let j = skip_ws_exec(s, i);
    if j >= n {
        return None;
    }
    let c = s.get_char(j);
    if c == 'n' {
        if n - j >= 4 && s.get_char(j + 1) == 'u' && s.get_char(j + 2) == 'l' && s.get_char(
            j + 3,
        ) == 'l' {
            Some((Json::Null, j + 4))
        } else {
            None
        }
    } else if c == 't' {
        if n - j >= 4 && s.get_char(j + 1) == 'r' && s.get_char(j + 2) == 'u' && s.get_char(
            j + 3,
        ) == 'e' {
            Some((Json::Bool(true), j + 4))
        } else {
            None
        }
    } else if c == 'f' {
        if n - j >= 5 && s.get_char(j + 1) == 'a' && s.get_char(j + 2) == 'l' && s.get_char(
            j + 3,
        ) == 's' && s.get_char(j + 4) == 'e' {
            Some((Json::Bool(false), j + 5))
        } else {
            None
        }
    } else if c == '"' {
        match string_body_exec(s, j + 1) {
            Some(p) => Some((Json::Str(p.0), p.1)),
            None => None,
        }
    } else if c == '[' {
        let k = skip_ws_exec(s, j + 1);
        if k < n && s.get_char(k) == ']' {
            let v: Vec<Json> = Vec::new();
            proof {
                assert(arr_models(v@, Seq::<JsonValue>::empty()));
            }
            Some((Json::Arr(v), k + 1))
        } else {
            match parse_elements(s, j + 1) {
                Some(p) => Some((Json::Arr(p.0), p.1)),
                None => None,
            }
        }
    } else if c == '{' {
        let k = skip_ws_exec(s, j + 1);
        if k < n && s.get_char(k) == '}' {
            let v: Vec<(String, Json)> = Vec::new();
            proof {
                assert(obj_models(v@, Seq::<(Seq<char>, JsonValue)>::empty()));
            }
            Some((Json::Obj(v), k + 1))
        } else {
            match parse_members(s, j + 1) {
                Some(p) => Some((Json::Obj(p.0), p.1)),
                None => None,
            }
        }
    } else {
        let cv = c as u32;
        if c == '-' || (48 <= cv && cv <= 57) {
            match number_end_exec(s, j) {
                Some(e) => {
                    let raw = String::from_str(s.substring_char(j, e));
                    Some((Json::Num(raw), e))
                },
                None => None,
            }
        } else {
            None
        }
    }
}

/// Parses the elements of an array from just after `[`, mirroring
/// `sp_elements`.
fn parse_elements(s: &str, i: usize) -> (r: Option<(Vec<Json>, usize)>)
    requires
        i <= s@.len(),
    ensures
        match r {
            Some(p) => sp_elements(s@, i as int) matches Some(q) && arr_models(p.0@, q.0)
                && p.1 == q.1 && i < p.1 <= s@.len(),
            None => sp_elements(s@, i as int) is None,
        },
    decreases s@.len() - i, 3int,
{
    let n = s.unicode_len();
    let mut out: Vec<Json> = Vec::new();
    let mut cur = i;
    proof {
        match sp_elements(s@, i as int) {
            Some(q) => {
                assert(Seq::<JsonValue>::empty() + q.0 =~= q.0);
                assert(arr_models(out@, Seq::<JsonValue>::empty()));
            },
            None => {},
        }
    }
    loop
        invariant
            i <= cur <= n,
            n == s@.len(),
            sp_elements_invariant(s@, i as int, cur as int, out@),
        decreases n - cur,
    {
        let head = match parse_value(s, cur) {
            Some(p) => p,
            None => {
                return None;
            },
        };
        let e = head.1;
        let w = skip_ws_exec(s, e);
        if w >= n {
            return None;
        }
        let wc = s.get_char(w);
        if wc == ']' {
            let ghost q = sp_value(s@, cur as int)->Some_0;
            out.push(head.0);
            proof {
                lemma_elements_finish(s@, i as int, cur as int, out@.drop_last(), q.0, w as int);
                assert(out@ =~= out@.drop_last().push(head.0));
            }
            return Some((out, w + 1));
        } else if wc == ',' {
            let ghost q = sp_value(s@, cur as int)->Some_0;
            out.push(head.0);
            proof {
                lemma_elements_step(s@, i as int, cur as int, out@.drop_last(), q.0, w as int);
                assert(out@ =~= out@.drop_last().push(head.0));
            }
            cur = w + 1;
        } else {
            return None;
        }
    }
}

/// The collected prefix `done` together with what remains at `cur`
/// makes up `sp_elements` from `start`.
spec fn sp_elements_invariant(s: Seq<char>, start: int, cur: int, done: Seq<Json>) -> bool {
    match sp_elements(s, cur) {
        Some(q) => sp_elements(s, start) matches Some(t) && t.1 == q.1 && exists|
            ms: Seq<JsonValue>,
        |
            arr_models(done, ms) && t.0 == #[trigger] (ms + q.0),
        None => sp_elements(s, start) is None,
    }
}

proof fn lemma_elements_step(
    s: Seq<char>,
    start: int,
    cur: int,
    done: Seq<Json>,
    v: JsonValue,
    w: int,
)
    requires
        0 <= start <= cur <= s.len(),
        sp_elements_invariant(s, start, cur, done),
        sp_value(s, cur) == Some::<(JsonValue, int)>((v, sp_value(s, cur)->Some_0.1)),
        sp_value(s, cur)->Some_0.0 == v,
        cur < sp_value(s, cur)->Some_0.1 <= s.len(),
        w == sp_skip_ws(s, sp_value(s, cur)->Some_0.1),
        0 <= w < s.len(),
        s[w] == ',',
    ensures
        forall|j: Json|
            models(j, v) ==> sp_elements_invariant(s, start, w + 1, done.push(j)),
{
    let e = sp_value(s, cur)->Some_0.1;
    lemma_sp_skip_ws(s, e);
    assert forall|j: Json| models(j, v) implies sp_elements_invariant(
        s,
        start,
        w + 1,
        done.push(j),
    ) by {
        match sp_elements(s, w + 1) {
            Some(q) => {
                assert(sp_elements(s, cur) == Some::<(Seq<JsonValue>, int)>(
                    (seq![v] + q.0, q.1),
                ));
                let ms = choose|ms: Seq<JsonValue>|
                    arr_models(done, ms) && sp_elements(s, start)->Some_0.0 == #[trigger] (ms
                        + (seq![v] + q.0));
                assert(arr_models(done.push(j), ms.push(v)));
                assert(ms + (seq![v] + q.0) =~= (ms.push(v)) + q.0);
            },
            None => {
                assert(sp_elements(s, cur) is None);
            },
        }
    }
}

proof fn lemma_elements_finish(
    s: Seq<char>,
    start: int,
    cur: int,
    done: Seq<Json>,
    v: JsonValue,
    w: int,
)
    requires
        0 <= start <= cur <= s.len(),
        sp_elements_invariant(s, start, cur, done),
        sp_value(s, cur)->Some_0.0 == v,
        sp_value(s, cur) is Some,
        cur < sp_value(s, cur)->Some_0.1 <= s.len(),
        w == sp_skip_ws(s, sp_value(s, cur)->Some_0.1),
        0 <= w < s.len(),
        s[w] == ']',
    ensures
        forall|j: Json|
            models(j, v) ==> (sp_elements(s, start) matches Some(t) && t.1 == w + 1
                && arr_models(done.push(j), t.0)),
{
    let e = sp_value(s, cur)->Some_0.1;
    lemma_sp_skip_ws(s, e);
    assert(sp_elements(s, cur) == Some::<(Seq<JsonValue>, int)>((seq![v], w + 1)));
    assert forall|j: Json| models(j, v) implies (sp_elements(s, start) matches Some(t) && t.1
        == w + 1 && arr_models(done.push(j), t.0)) by {
        let q0 = seq![v];
        let ms = choose|ms: Seq<JsonValue>|
            arr_models(done, ms) && sp_elements(s, start)->Some_0.0 == #[trigger] (ms + q0);
        assert(arr_models(done.push(j), ms + q0)) by {
            assert(ms + q0 =~= ms.push(v));
            assert(arr_models(done.push(j), ms.push(v)));
        }
    }
}

/// Parses the members of an object from just after `{`, mirroring
/// `sp_members`.
fn parse_members(s: &str, i: usize) -> (r: Option<(Vec<(String, Json)>, usize)>)
    requires
        i <= s@.len(),
    ensures
        match r {
            Some(p) => sp_members(s@, i as int) matches Some(q) && obj_models(p.0@, q.0)
                && p.1 == q.1 && i < p.1 <= s@.len(),
            None => sp_members(s@, i as int) is None,
        },
    decreases s@.len() - i, 3int,
{
    let n = s.unicode_len();
    let mut out: Vec<(String, Json)> = Vec::new();
    let mut cur = i;
    proof {
        match sp_members(s@, i as int) {
            Some(q) => {
                assert(Seq::<(Seq<char>, JsonValue)>::empty() + q.0 =~= q.0);
                assert(obj_models(out@, Seq::<(Seq<char>, JsonValue)>::empty()));
            },
            None => {},
        }
    }
    loop
        invariant
            i <= cur <= n,
            n == s@.len(),
            sp_members_invariant(s@, i as int, cur as int, out@),
        decreases n - cur,
    {
        let j = skip_ws_exec(s, cur);
        if j >= n || s.get_char(j) != '"' {
            return None;
        }
        let key = match string_body_exec(s, j + 1) {
            Some(p) => p,
            None => {
                return None;
            },
        };
        let e = key.1;
        let co = skip_ws_exec(s, e);
        if co >= n || s.get_char(co) != ':' {
            return None;
        }
        let val = match parse_value(s, co + 1) {
            Some(p) => p,
            None => {
                return None;
            },
        };
        let ve = val.1;
        let w = skip_ws_exec(s, ve);
        if w >= n {
            return None;
        }
        let wc = s.get_char(w);
        if wc == '}' {
            let ghost kq = sp_string_body(s@, j + 1)->Some_0;
            let ghost vq = sp_value(s@, co + 1)->Some_0;
            out.push((key.0, val.0));
            proof {
                lemma_members_finish(
                    s@,
                    i as int,
                    cur as int,
                    out@.drop_last(),
                    kq.0,
                    vq.0,
                    w as int,
                );
                assert(out@ =~= out@.drop_last().push((out@.last().0, out@.last().1)));
            }
            return Some((out, w + 1));
        } else if wc == ',' {
            let ghost kq = sp_string_body(s@, j + 1)->Some_0;
            let ghost vq = sp_value(s@, co + 1)->Some_0;
            out.push((key.0, val.0));
            proof {
                lemma_members_step(
                    s@,
                    i as int,
                    cur as int,
                    out@.drop_last(),
                    kq.0,
                    vq.0,
                    w as int,
                );
                assert(out@ =~= out@.drop_last().push((out@.last().0, out@.last().1)));
            }
            cur = w + 1;
        } else {
            return None;
        }
    }
}

/// The collected prefix `done` together with what remains at `cur`
/// makes up `sp_members` from `start`.
spec fn sp_members_invariant(
    s: Seq<char>,
    start: int,
    cur: int,
    done: Seq<(String, Json)>,
) -> bool {
    match sp_members(s, cur) {
        Some(q) => sp_members(s, start) matches Some(t) && t.1 == q.1 && exists|
            ms: Seq<(Seq<char>, JsonValue)>,
        |
            obj_models(done, ms) && t.0 == #[trigger] (ms + q.0),
        None => sp_members(s, start) is None,
    }
}

proof fn lemma_members_one(s: Seq<char>, cur: int, w: int)
    requires
        0 <= cur <= s.len(),
        ({
            let j = sp_skip_ws(s, cur);
            &&& j < s.len()
            &&& s[j] == '"'
            &&& sp_string_body(s, j + 1) is Some
            &&& ({
                let key = sp_string_body(s, j + 1)->Some_0;
                let co = sp_skip_ws(s, key.1);
                &&& j + 1 <= key.1 <= s.len()
                &&& co < s.len()
                &&& s[co] == ':'
                &&& sp_value(s, co + 1) is Some
                &&& co + 1 < sp_value(s, co + 1)->Some_0.1 <= s.len()
                &&& w == sp_skip_ws(s, sp_value(s, co + 1)->Some_0.1)
                &&& w < s.len()
            })
        }),
    ensures
        ({
            let j = sp_skip_ws(s, cur);
            let key = sp_string_body(s, j + 1)->Some_0;
            let co = sp_skip_ws(s, key.1);
            let val = sp_value(s, co + 1)->Some_0;
            &&& (s[w] == '}' ==> sp_members(s, cur) == Some::<
                (Seq<(Seq<char>, JsonValue)>, int),
            >((seq![(key.0, val.0)], w + 1)))
            &&& (s[w] == ',' ==> sp_members(s, cur) == (match sp_members(s, w + 1) {
                Some(rest) => Some::<(Seq<(Seq<char>, JsonValue)>, int)>(
                    (seq![(key.0, val.0)] + rest.0, rest.1),
                ),
                None => None::<(Seq<(Seq<char>, JsonValue)>, int)>,
            }))
        }),
{
    let j = sp_skip_ws(s, cur);
    lemma_sp_skip_ws(s, cur);
    let key = sp_string_body(s, j + 1)->Some_0;
    lemma_sp_skip_ws(s, key.1);
    let co = sp_skip_ws(s, key.1);
    let val = sp_value(s, co + 1)->Some_0;
    lemma_sp_skip_ws(s, val.1);
}

proof fn lemma_members_step(
    s: Seq<char>,
    start: int,
    cur: int,
    done: Seq<(String, Json)>,
    k: Seq<char>,
    v: JsonValue,
    w: int,
)
    requires
        0 <= start <= cur <= s.len(),
        sp_members_invariant(s, start, cur, done),
        ({
            let j = sp_skip_ws(s, cur);
            &&& j < s.len()
            &&& s[j] == '"'
            &&& sp_string_body(s, j + 1) is Some
            &&& sp_string_body(s, j + 1)->Some_0.0 == k
            &&& ({
                let key = sp_string_body(s, j + 1)->Some_0;
                let co = sp_skip_ws(s, key.1);
                &&& j + 1 <= key.1 <= s.len()
                &&& co < s.len()
                &&& s[co] == ':'
                &&& sp_value(s, co + 1) is Some
                &&& sp_value(s, co + 1)->Some_0.0 == v
                &&& co + 1 < sp_value(s, co + 1)->Some_0.1 <= s.len()
                &&& w == sp_skip_ws(s, sp_value(s, co + 1)->Some_0.1)
                &&& w < s.len()
                &&& s[w] == ','
            })
        }),
    ensures
        forall|ks: String, jv: Json|
            ks@ == k && models(jv, v) ==> sp_members_invariant(
                s,
                start,
                w + 1,
                done.push((ks, jv)),
            ),
{
    lemma_members_one(s, cur, w);
    assert forall|ks: String, jv: Json| ks@ == k && models(jv, v) implies sp_members_invariant(
        s,
        start,
        w + 1,
        done.push((ks, jv)),
    ) by {
        match sp_members(s, w + 1) {
            Some(q) => {
                let ms = choose|ms: Seq<(Seq<char>, JsonValue)>|
                    obj_models(done, ms) && sp_members(s, start)->Some_0.0 == #[trigger] (ms
                        + (seq![(k, v)] + q.0));
                assert(obj_models(done.push((ks, jv)), ms.push((k, v))));
                assert(ms + (seq![(k, v)] + q.0) =~= (ms.push((k, v))) + q.0);
            },
            None => {
                assert(sp_members(s, cur) is None);
            },
        }
    }
}

proof fn lemma_members_finish(
    s: Seq<char>,
    start: int,
    cur: int,
    done: Seq<(String, Json)>,
    k: Seq<char>,
    v: JsonValue,
    w: int,
)
    requires
        0 <= start <= cur <= s.len(),
        sp_members_invariant(s, start, cur, done),
        ({
            let j = sp_skip_ws(s, cur);
            &&& j < s.len()
            &&& s[j] == '"'
            &&& sp_string_body(s, j + 1) is Some
            &&& sp_string_body(s, j + 1)->Some_0.0 == k
            &&& ({
                let key = sp_string_body(s, j + 1)->Some_0;
                let co = sp_skip_ws(s, key.1);
                &&& j + 1 <= key.1 <= s.len()
                &&& co < s.len()
                &&& s[co] == ':'
                &&& sp_value(s, co + 1) is Some
                &&& sp_value(s, co + 1)->Some_0.0 == v
                &&& co + 1 < sp_value(s, co + 1)->Some_0.1 <= s.len()
                &&& w == sp_skip_ws(s, sp_value(s, co + 1)->Some_0.1)
                &&& w < s.len()
                &&& s[w] == '}'
            })
        }),
    ensures
        forall|ks: String, jv: Json|
            ks@ == k && models(jv, v) ==> (sp_members(s, start) matches Some(t) && t.1 == w + 1
                && obj_models(done.push((ks, jv)), t.0)),
{
    lemma_members_one(s, cur, w);
    assert(sp_members(s, cur) == Some::<(Seq<(Seq<char>, JsonValue)>, int)>(
        (seq![(k, v)], w + 1),
    ));
    assert forall|ks: String, jv: Json| ks@ == k && models(jv, v) implies (sp_members(s, start)
        matches Some(t) && t.1 == w + 1 && obj_models(done.push((ks, jv)), t.0)) by {
        let q0 = seq![(k, v)];
        let ms = choose|ms: Seq<(Seq<char>, JsonValue)>|
            obj_models(done, ms) && sp_members(s, start)->Some_0.0 == #[trigger] (ms + q0);
        assert(obj_models(done.push((ks, jv)), ms + q0)) by {
            assert(ms + q0 =~= ms.push((k, v)));
            assert(obj_models(done.push((ks, jv)), ms.push((k, v))));
        }
    }
}

/// Parses a complete JSON document, mirroring `sp_document`.
pub fn parse_document(s: &str) -> (r: Option<Json>)
    ensures
        match r {
            Some(j) => sp_document(s@) matches Some(m) && models(j, m),
            None => sp_document(s@) is None,
        },
{
    let v = match parse_value(s, 0) {
        Some(p) => p,
        None => {
            return None;
        },
    };
    let n = s.unicode_len();
    let w = skip_ws_exec(s, v.1);
    if w == n {
        Some(v.0)
    } else {
        None
    }
}

} // verus!
