//! The FTP control-channel codec: typed requests rendered as
//! `CMD[ ARG]\r\n` lines, and CRLF-delimited responses parsed into typed
//! replies, including the strict PASV address parser.

use vstd::prelude::*;
use vstd::string::StrSliceExecFns;
use vstd::utf8::decode_utf8;
use vstd::utf8::encode_utf8;
use vstd::utf8::valid_utf8;
use crate::scan::first_match;
use crate::scan::find_first_match;
use crate::scan::lemma_first_match_from;
use crate::text::all_dec_digits;
use crate::text::dec_chars;
use crate::text::dec_value;
use crate::text::find_char_in;
use crate::text::find_char_pos;
use crate::text::lemma_find_char_in;
use crate::text::parse_dec_range;
use crate::text::u64_to_string;

verus! {

/// An FTP command as this client sends it.
#[derive(Debug, Clone, PartialEq)]
pub enum FtpRequest {
    User(String),
    Pass(String),
    Quit,
    EnterPassiveMode,
    List(String),
    ProtectionBufferSize(u32),
    ProtectionLevel(String),
    Pwd,
}

/// An IPv4 socket address as carried by a PASV reply.
#[derive(Debug, Clone, Copy, PartialEq, Eq)]
pub struct SocketAddressV4 {
    pub a: u8,
    pub b: u8,
    pub c: u8,
    pub d: u8,
    pub port: u16,
}

impl SocketAddressV4 {
    /// The unspecified address `0.0.0.0`.
    pub open spec fn spec_is_unspecified(&self) -> bool {
        self.a == 0 && self.b == 0 && self.c == 0 && self.d == 0
    }

    /// Whether the address is `0.0.0.0`.
    pub fn is_unspecified(&self) -> (r: bool)
        ensures
            r == self.spec_is_unspecified(),
    {
        self.a == 0 && self.b == 0 && self.c == 0 && self.d == 0
    }
}

/// An FTP reply, keyed by its 3-digit code.
#[derive(Debug, Clone, PartialEq)]
pub enum FtpResponse {
    FileStatusOkay(String),
    ServiceReady(String),
    CommandOkay(String),
    ClosingControlConnection(String),
    ClosingDataConnection(String),
    UserLoggedIn(String),
    UserNameOkayNeedPassword(String),
    FileActionOkay(String),
    EnteringPassiveMode(SocketAddressV4),
    CommandNotImplemented(String),
    BadSequenceOfCommands(String),
    FileUnavailable(String),
    DirectoryActionOkay(String),
    Other(u16, String),
}

/// Why a response line failed to parse.
#[derive(Debug, Clone, PartialEq, Eq)]
pub enum FtpCodecError {
    InvalidResponseCode,
    InvalidPasv,
    InvalidUtf8,
}

/// The command line for a request, without the trailing CRLF.
pub open spec fn spec_command_line(r: &FtpRequest) -> Seq<char> {
    match r {
        FtpRequest::User(name) => "USER "@ + name@,
        FtpRequest::Pass(password) => "PASS "@ + password@,
        FtpRequest::Quit => "QUIT"@,
        FtpRequest::EnterPassiveMode => "PASV"@,
        FtpRequest::List(path) => "LIST "@ + path@,
        FtpRequest::ProtectionBufferSize(size) => "PBSZ "@ + dec_chars(*size as int),
        FtpRequest::ProtectionLevel(level) => "PROT "@ + level@,
        FtpRequest::Pwd => "PWD"@,
    }
}

impl FtpRequest {
    /// Renders the request as its command line, without the CRLF.
    pub fn to_command_string(&self) -> (r: String)
        ensures
            r@ == spec_command_line(self),
    {
        match self {
            FtpRequest::User(name) => {
                let mut s = String::from_str("USER ");
                s.append(name.as_str());
                s
            },
            FtpRequest::Pass(password) => {
                let mut s = String::from_str("PASS ");
                s.append(password.as_str());
                s
            },
            FtpRequest::Quit => String::from_str("QUIT"),
            FtpRequest::EnterPassiveMode => String::from_str("PASV"),
            FtpRequest::List(path) => {
                let mut s = String::from_str("LIST ");
                s.append(path.as_str());
                s
            },
            FtpRequest::ProtectionBufferSize(size) => {
                let mut s = String::from_str("PBSZ ");
                let num = u64_to_string(*size as u64);
                s.append(num.as_str());
                s
            },
            FtpRequest::ProtectionLevel(level) => {
                let mut s = String::from_str("PROT ");
                s.append(level.as_str());
                s
            },
            FtpRequest::Pwd => String::from_str("PWD"),
        }
    }
}

/// Index of the first space of a response line, if any.
pub open spec fn first_space(s: Seq<char>) -> Option<int> {
    find_char_in(s, ' ', 0, s.len() as int)
}

/// The code token of a response line: everything before the first space.
pub open spec fn code_chars(s: Seq<char>) -> Seq<char> {
    match first_space(s) {
        None => s,
        Some(i) => s.subrange(0, i),
    }
}

/// The message of a response line: everything after the first space, or
/// empty when there is none.
pub open spec fn msg_chars(s: Seq<char>) -> Seq<char> {
    match first_space(s) {
        None => Seq::empty(),
        Some(i) => s.subrange(i + 1, s.len() as int),
    }
}

/// The reply code of a response line: the first token read as a decimal
/// number in 0..=999.
pub open spec fn spec_code(s: Seq<char>) -> Option<int> {
    let c = code_chars(s);
    if c.len() > 0 && all_dec_digits(c) && dec_value(c) <= 999 {
        Some(dec_value(c))
    } else {
        None
    }
}

/// The comma-separated decimal fields of `s[from..to)`, when every field
/// is non-empty, all digits, and at most `max`.
pub open spec fn fields_ok(s: Seq<char>, from: int, to: int, max: int) -> Option<Seq<int>>
    decreases to - from + 1,
{
    if from < 0 || to > s.len() || from > to {
        None
    } else {
        match find_char_in(s, ',', from, to) {
            None => {
                let f = s.subrange(from, to);
                if f.len() > 0 && all_dec_digits(f) && dec_value(f) <= max {
                    Some(seq![dec_value(f)])
                } else {
                    None
                }
            },
            Some(i) => {
                let f = s.subrange(from, i);
                if i < from || i >= to {
                    None
                } else if f.len() > 0 && all_dec_digits(f) && dec_value(f) <= max {
                    match fields_ok(s, i + 1, to, max) {
                        None => None,
                        Some(rest) => Some(seq![dec_value(f)] + rest),
                    }
                } else {
                    None
                }
            },
        }
    }
}

/// Every field `fields_ok` accepts lies in `[0, max]`.
pub proof fn lemma_fields_ok_bounds(s: Seq<char>, from: int, to: int, max: int)
    requires
        fields_ok(s, from, to, max) is Some,
    ensures
        forall|k: int|
            0 <= k < fields_ok(s, from, to, max)->Some_0.len() ==> 0 <= #[trigger] fields_ok(
                s,
                from,
                to,
                max,
            )->Some_0[k] <= max,
    decreases to - from + 1,
{
    match find_char_in(s, ',', from, to) {
        None => {
            let f = s.subrange(from, to);
            crate::text::lemma_dec_value_nonneg(f);
        },
        Some(i) => {
            if from <= i < to {
                let f = s.subrange(from, i);
                crate::text::lemma_dec_value_nonneg(f);
                lemma_fields_ok_bounds(s, i + 1, to, max);
            }
        },
    }
}

/// What a PASV message parses to: the message must hold exactly one `(`
/// and one `)`, in that order, and between them six comma-separated
/// decimal fields `a,b,c,d,p1,p2` with `a..d` bytes and `p1*256 + p2` a
/// valid port.
pub open spec fn spec_pasv(msg: Seq<char>) -> Option<SocketAddressV4> {
    let n = msg.len() as int;
    match (find_char_in(msg, '(', 0, n), find_char_in(msg, ')', 0, n)) {
        (Some(o), Some(c)) => {
            if o < c && find_char_in(msg, '(', o + 1, n) is None && find_char_in(
                msg,
                ')',
                c + 1,
                n,
            ) is None {
                match fields_ok(msg, o + 1, c, 65535) {
                    Some(vs) => {
                        if vs.len() == 6 && vs[0] <= 255 && vs[1] <= 255 && vs[2] <= 255
                            && vs[3] <= 255 && vs[4] * 256 + vs[5] <= 65535 {
                            Some(
                                SocketAddressV4 {
                                    a: vs[0] as u8,
                                    b: vs[1] as u8,
                                    c: vs[2] as u8,
                                    d: vs[3] as u8,
                                    port: (vs[4] * 256 + vs[5]) as u16,
                                },
                            )
                        } else {
                            None
                        }
                    },
                    None => None,
                }
            } else {
                None
            }
        },
        _ => None,
    }
}

/// The `Ok` outcome of parsing response line `s`: `resp` is the typed
/// reply the line denotes.
pub open spec fn response_result_ok(resp: &FtpResponse, s: Seq<char>) -> bool {
    match spec_code(s) {
        None => false,
        Some(code) => {
            let msg = msg_chars(s);
            if code == 150 {
                resp matches FtpResponse::FileStatusOkay(m) && m@ == msg
            } else if code == 220 {
                resp matches FtpResponse::ServiceReady(m) && m@ == msg
            } else if code == 200 {
                resp matches FtpResponse::CommandOkay(m) && m@ == msg
            } else if code == 226 {
                resp matches FtpResponse::ClosingDataConnection(m) && m@ == msg
            } else if code == 230 {
                resp matches FtpResponse::UserLoggedIn(m) && m@ == msg
            } else if code == 331 {
                resp matches FtpResponse::UserNameOkayNeedPassword(m) && m@ == msg
            } else if code == 250 {
                resp matches FtpResponse::FileActionOkay(m) && m@ == msg
            } else if code == 227 {
                resp matches FtpResponse::EnteringPassiveMode(sa) && spec_pasv(msg)
                    == Some(*sa)
            } else if code == 221 {
                resp matches FtpResponse::ClosingControlConnection(m) && m@ == msg
            } else if code == 502 {
                resp matches FtpResponse::CommandNotImplemented(m) && m@ == msg
            } else if code == 503 {
                resp matches FtpResponse::BadSequenceOfCommands(m) && m@ == msg
            } else if code == 550 {
                resp matches FtpResponse::FileUnavailable(m) && m@ == msg
            } else if code == 257 {
                resp matches FtpResponse::DirectoryActionOkay(m) && m@ == msg
            } else {
                resp matches FtpResponse::Other(c, m) && *c as int == code && m@ == msg
            }
        },
    }
}

/// The `Err` outcome of parsing response line `s`.
pub open spec fn response_result_err(e: &FtpCodecError, s: Seq<char>) -> bool {
    match e {
        FtpCodecError::InvalidResponseCode => spec_code(s) is None,
        FtpCodecError::InvalidPasv => spec_code(s) == Some(227int) && spec_pasv(msg_chars(s))
            is None,
        FtpCodecError::InvalidUtf8 => false,
    }
}

/// Parses the comma-separated fields of `s[from..to)`, mirroring
/// `fields_ok`.
fn parse_fields(s: &str, from: usize, to: usize, max: u64) -> (r: Option<Vec<u64>>)
    requires
        from <= to <= s@.len(),
    ensures
        match r {
            Some(vs) => fields_ok(s@, from as int, to as int, max as int) == Some(
                vs@.map_values(|v: u64| v as int),
            ),
            None => fields_ok(s@, from as int, to as int, max as int) is None,
        },
    decreases to - from,
{
    match find_char_pos(s, ',', from, to) {
        None => {
            match parse_dec_range(s, from, to, max) {
                Some(v) => {
                    let mut vs: Vec<u64> = Vec::new();
                    vs.push(v);
                    proof {
                        assert(vs@.map_values(|x: u64| x as int) =~= seq![v as int]);
                    }
                    Some(vs)
                },
                None => None,
            }
        },
        Some(i) => {
            proof {
                lemma_find_char_in(s@, ',', from as int, to as int);
            }
            match parse_dec_range(s, from, i, max) {
                Some(v) => {
                    match parse_fields(s, i + 1, to, max) {
                        Some(rest) => {
                            let mut vs: Vec<u64> = Vec::new();
                            vs.push(v);
                            let mut rest = rest;
                            vs.append(&mut rest);
                            proof {
                                assert(vs@.map_values(|x: u64| x as int) =~= seq![v as int]
                                    + fields_ok(
                                    s@,
                                    i + 1,
                                    to as int,
                                    max as int,
                                )->Some_0);
                            }
                            Some(vs)
                        },
                        None => None,
                    }
                },
                None => None,
            }
        },
    }
}

impl FtpResponse {
    /// Parses one response line: a decimal code in 0..=999, a space, and
    /// the message; code 227 additionally parses the PASV address.
    pub fn from_response_string(response: &str) -> (r: Result<FtpResponse, FtpCodecError>)
        ensures
            match r {
                Ok(resp) => response_result_ok(&resp, response@),
                Err(e) => response_result_err(&e, response@),
            },
    {
        let n = response.unicode_len();
        let space = find_char_pos(response, ' ', 0, n);
        proof {
            lemma_find_char_in(response@, ' ', 0, n as int);
            assert(response@.subrange(0, n as int) =~= response@);
        }
        let (code_end, msg_start) = match space {
            Some(i) => (i, i + 1),
            None => (n, n),
        };
        let code = match parse_dec_range(response, 0, code_end, 999) {
            Some(v) => v as u16,
            None => {
                return Err(FtpCodecError::InvalidResponseCode);
            },
        };
        let message = String::from_str(response.substring_char(msg_start, n));
        proof {
            assert(message@ == msg_chars(response@));
        }
        if code == 150 {
            Ok(FtpResponse::FileStatusOkay(message))
        } else if code == 220 {
            Ok(FtpResponse::ServiceReady(message))
        } else if code == 200 {
            Ok(FtpResponse::CommandOkay(message))
        } else if code == 226 {
            Ok(FtpResponse::ClosingDataConnection(message))
        } else if code == 230 {
            Ok(FtpResponse::UserLoggedIn(message))
        } else if code == 331 {
            Ok(FtpResponse::UserNameOkayNeedPassword(message))
        } else if code == 250 {
            Ok(FtpResponse::FileActionOkay(message))
        } else if code == 227 {
            match parse_pasv(message.as_str()) {
                Some(sa) => Ok(FtpResponse::EnteringPassiveMode(sa)),
                None => Err(FtpCodecError::InvalidPasv),
            }
        } else if code == 221 {
            Ok(FtpResponse::ClosingControlConnection(message))
        } else if code == 502 {
            Ok(FtpResponse::CommandNotImplemented(message))
        } else if code == 503 {
            Ok(FtpResponse::BadSequenceOfCommands(message))
        } else if code == 550 {
            Ok(FtpResponse::FileUnavailable(message))
        } else if code == 257 {
            Ok(FtpResponse::DirectoryActionOkay(message))
        } else {
            Ok(FtpResponse::Other(code, message))
        }
    }
}

/// Parses a PASV message, mirroring `spec_pasv`.
fn parse_pasv(msg: &str) -> (r: Option<SocketAddressV4>)
    ensures
        r == spec_pasv(msg@),
{
    let n = msg.unicode_len();
    let open = match find_char_pos(msg, '(', 0, n) {
        Some(i) => i,
        None => {
            return None;
        },
    };
    let close = match find_char_pos(msg, ')', 0, n) {
        Some(i) => i,
        None => {
            return None;
        },
    };
    proof {
        lemma_find_char_in(msg@, '(', 0, n as int);
        lemma_find_char_in(msg@, ')', 0, n as int);
    }
    if open >= close {
        return None;
    }
    if find_char_pos(msg, '(', open + 1, n).is_some() {
        return None;
    }
    if find_char_pos(msg, ')', close + 1, n).is_some() {
        return None;
    }
    let vs = match parse_fields(msg, open + 1, close, 65535) {
        Some(vs) => vs,
        None => {
            return None;
        },
    };
    proof {
        assert(fields_ok(msg@, open + 1, close as int, 65535)->Some_0.len() == vs@.len());
    }
    if vs.len() != 6 {
        return None;
    }
    let v0 = vs[0];
    let v1 = vs[1];
    let v2 = vs[2];
    let v3 = vs[3];
    let v4 = vs[4];
    let v5 = vs[5];
    proof {
        let m = fields_ok(msg@, open + 1, close as int, 65535)->Some_0;
        assert(m[0] == v0 as int && m[1] == v1 as int && m[2] == v2 as int && m[3]
            == v3 as int && m[4] == v4 as int && m[5] == v5 as int);
        lemma_fields_ok_bounds(msg@, open + 1, close as int, 65535);
        assert(v4 <= 65535 && v5 <= 65535);
    }
    if v0 > 255 || v1 > 255 || v2 > 255 || v3 > 255 {
        return None;
    }
    if v4 * 256 + v5 > 65535 {
        return None;
    }
    Some(
        SocketAddressV4 {
            a: v0 as u8,
            b: v1 as u8,
            c: v2 as u8,
            d: v3 as u8,
            port: (v4 * 256 + v5) as u16,
        },
    )
}

/// The codec over the control connection.
pub struct FtpCodec {
}

impl FtpCodec {
    /// Appends `CMD[ ARG]\r\n` for the request to `dst`.
    pub fn encode(&mut self, item: &FtpRequest, dst: &mut Vec<u8>)
        ensures
            final(dst)@ == old(dst)@ + encode_utf8(spec_command_line(item) + "\r\n"@),
    {
        let mut line = item.to_command_string();
        line.append("\r\n");
        let bytes = line.as_str().as_bytes_vec();
        dst.extend_from_slice(bytes.as_slice());
        proof {
            assert(dst@ =~= old(dst)@ + encode_utf8(spec_command_line(item) + "\r\n"@));
        }
    }

    /// Takes one CRLF-terminated line off the front of `src` and parses
    /// it; with no CRLF yet, asks for more bytes and leaves the buffer
    /// untouched.
    pub fn decode(&mut self, src: &mut Vec<u8>) -> (r: Result<
        Option<FtpResponse>,
        FtpCodecError,
    >)
        ensures
            ({
                let b = old(src)@;
                match first_match(b, "\r\n"@.map_values(|c: char| c as u8)) {
                    None => r == Ok::<Option<FtpResponse>, FtpCodecError>(None)
                        && final(src)@ == b,
                    Some(p) => {
                        let line = b.subrange(0, p);
                        &&& final(src)@ == b.subrange(p + 2, b.len() as int)
                        &&& if valid_utf8(line) {
                            match r {
                                Ok(Some(resp)) => response_result_ok(
                                    &resp,
                                    decode_utf8(line),
                                ),
                                Ok(None) => false,
                                Err(e) => response_result_err(&e, decode_utf8(line)),
                            }
                        } else {
                            r == Err::<Option<FtpResponse>, FtpCodecError>(
                                FtpCodecError::InvalidUtf8,
                            )
                        }
                    },
                }
            }),
    {
        let crlf = vec![13u8, 10u8];
        proof {
            reveal_strlit("\r\n");
            assert(crlf@ =~= "\r\n"@.map_values(|c: char| c as u8));
        }
        let n = src.len();
        let pos = match find_first_match(src.as_slice(), crlf.as_slice()) {
            Some(p) => p,
            None => {
                return Ok(None);
            },
        };
        proof {
            lemma_first_match_from(src@, crlf@, 0);
            assert(crate::scan::match_at(src@, crlf@, pos as int));
        }
        let line = vstd::slice::slice_to_vec(
            vstd::slice::slice_subrange(src.as_slice(), 0, pos),
        );
        let rest = vstd::slice::slice_to_vec(
            vstd::slice::slice_subrange(src.as_slice(), pos + 2, n),
        );
        *src = rest;
        let parsed = match crate::text::utf8_str(line.as_slice()) {
            Some(text) => FtpResponse::from_response_string(text),
            None => Err(FtpCodecError::InvalidUtf8),
        };
        match parsed {
            Ok(resp) => Ok(Some(resp)),
            Err(e) => Err(e),
        }
    }
}

} // verus!
