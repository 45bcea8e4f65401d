//! Framing codec for the camera stream: an 80-byte authentication
//! preamble followed by JPEG frames delimited by their start and end
//! markers.

use vstd::prelude::*;
use vstd::string::StrSliceExecFns;
use vstd::utf8::decode_utf8;
use vstd::utf8::encode_utf8;
use vstd::utf8::valid_utf8;
use crate::scan::first_match;
use crate::scan::match_at;
use crate::scan::find_first_match;
use crate::scan::lemma_first_match_from;

verus! {

/// The JPEG start-of-image + APP0 marker: `FF D8 FF E0`.
pub open spec fn start_marker() -> Seq<u8> {
    seq![0xffu8, 0xd8u8, 0xffu8, 0xe0u8]
}

/// The JPEG end-of-image marker: `FF D9`.
pub open spec fn end_marker() -> Seq<u8> {
    seq![0xffu8, 0xd9u8]
}

/// A decoded packet from the camera connection.
#[derive(Debug, Clone, PartialEq)]
pub enum CameraPacket {
    Auth { username: String, access_code: String },
    Jpeg(Vec<u8>),
}

/// A codec that scans a byte buffer for auth preambles and JPEG frames.
pub struct JpegCodec {
}

/// What decoding one JPEG frame from buffer `b` yields: the earliest start
/// marker wins, then the earliest end marker after it; the frame spans both
/// markers inclusively and everything before it is discarded.
pub open spec fn spec_decode_jpeg(b: Seq<u8>) -> Option<(Seq<u8>, Seq<u8>)> {
    match first_match(b, start_marker()) {
        None => None,
        Some(s) => {
            let tail = b.subrange(s + 4, b.len() as int);
            match first_match(tail, end_marker()) {
                None => None,
                Some(e) => {
                    let end = s + 4 + e + 2;
                    Some((b.subrange(s, end), b.subrange(end, b.len() as int)))
                },
            }
        },
    }
}

/// The little-endian 32-bit value stored at offset `i` of `b`.
pub open spec fn le_u32_at(b: Seq<u8>, i: int) -> int {
    b[i] as int + 256 * (b[i + 1] as int) + 65536 * (b[i + 2] as int) + 16777216 * (b[i
        + 3] as int)
}

/// The buffer begins with the 16-byte auth magic: little-endian words
/// 0x40, 0x3000, 0, 0, and holds the full 80-byte preamble.
pub open spec fn auth_header_ok(b: Seq<u8>) -> bool {
    b.len() >= 80 && le_u32_at(b, 0) == 64 && le_u32_at(b, 4) == 12288 && le_u32_at(b, 8) == 0
        && le_u32_at(b, 12) == 0
}

/// What the result of `String::from_utf8_lossy` denotes on the given bytes.
pub uninterp spec fn lossy_chars(bytes: Seq<u8>) -> Seq<char>;

/// Relies on `String::from_utf8_lossy`: the result is a function of the
/// bytes alone, and on valid UTF-8 input it is the exact decoding.
#[verifier::external_body]
fn utf8_lossy(bytes: &[u8]) -> (r: String)
    ensures
        r@ == lossy_chars(bytes@),
        valid_utf8(bytes@) ==> r@ == decode_utf8(bytes@),
{
    String::from_utf8_lossy(bytes).into_owned()
}

/// `s` with every trailing NUL character removed.
pub open spec fn trim_trailing_nuls(s: Seq<char>) -> Seq<char>
    decreases s.len(),
{
    if s.len() > 0 && s.last() == '\0' {
        trim_trailing_nuls(s.drop_last())
    } else {
        s
    }
}

/// The username or access-code string carried by a 32-byte auth field:
/// the UTF-8 reading of the field (lossy on invalid input) with trailing
/// NUL characters removed.
pub open spec fn auth_field_chars(field: Seq<u8>) -> Seq<char> {
    if valid_utf8(field) {
        trim_trailing_nuls(decode_utf8(field))
    } else {
        trim_trailing_nuls(lossy_chars(field))
    }
}

/// `n` zero bytes.
pub open spec fn zero_bytes(n: int) -> Seq<u8> {
    Seq::new(n as nat, |i: int| 0u8)
}

/// `b` truncated or zero-padded to exactly 32 bytes.
pub open spec fn pad32(b: Seq<u8>) -> Seq<u8> {
    if b.len() >= 32 {
        b.subrange(0, 32)
    } else {
        b + zero_bytes(32 - b.len())
    }
}

/// The 16-byte auth magic.
pub open spec fn auth_magic() -> Seq<u8> {
    seq![
        0x40u8, 0u8, 0u8, 0u8,
        0u8, 0x30u8, 0u8, 0u8,
        0u8, 0u8, 0u8, 0u8,
        0u8, 0u8, 0u8, 0u8,
    ]
}

/// The 80-byte wire encoding of an auth packet.
pub open spec fn spec_encode_auth(username: Seq<char>, access_code: Seq<char>) -> Seq<u8> {
    auth_magic() + pad32(encode_utf8(username)) + pad32(encode_utf8(access_code))
}

/// The wire encoding of a packet: auth packets get the 80-byte preamble,
/// JPEG frames pass through verbatim.
pub open spec fn spec_encode_packet(p: &CameraPacket) -> Seq<u8> {
    match p {
        CameraPacket::Auth { username, access_code } => spec_encode_auth(
            username@,
            access_code@,
        ),
        CameraPacket::Jpeg(bytes) => bytes@,
    }
}

fn start_marker_vec() -> (r: Vec<u8>)
    ensures
        r@ == start_marker(),
{
    let r = vec![0xffu8, 0xd8u8, 0xffu8, 0xe0u8];
    proof {
        assert(r@ =~= start_marker());
    }
    r
}

fn end_marker_vec() -> (r: Vec<u8>)
    ensures
        r@ == end_marker(),
{
    let r = vec![0xffu8, 0xd9u8];
    proof {
        assert(r@ =~= end_marker());
    }
    r
}

/// Scans `src` for one complete JPEG frame; on success the frame is removed
/// from the buffer together with everything that preceded it.
fn decode_jpeg_packet(src: &mut Vec<u8>) -> (r: Option<Vec<u8>>)
    ensures
        match r {
            Some(f) => spec_decode_jpeg(old(src)@) == Some((f@, final(src)@)),
            None => final(src)@ == old(src)@ && spec_decode_jpeg(old(src)@) is None,
        },
{
    let sm = start_marker_vec();
    let em = end_marker_vec();
    let start_idx = match find_first_match(src.as_slice(), sm.as_slice()) {
        Some(i) => i,
        None => {
            return None;
        },
    };
    let n = src.len();
    proof {
        lemma_first_match_from(src@, start_marker(), 0);
        assert(match_at(src@, start_marker(), start_idx as int));
    }
    let search_start = start_idx + 4;
    let tail = vstd::slice::slice_subrange(src.as_slice(), search_start, n);
    let end_rel = match find_first_match(tail, em.as_slice()) {
        Some(i) => i,
        None => {
            return None;
        },
    };
    proof {
        lemma_first_match_from(tail@, end_marker(), 0);
    }
    let end_idx = search_start + end_rel + 2;
    let frame = vstd::slice::slice_to_vec(
        vstd::slice::slice_subrange(src.as_slice(), start_idx, end_idx),
    );
    let rest = vstd::slice::slice_to_vec(
        vstd::slice::slice_subrange(src.as_slice(), end_idx, src.len()),
    );
    *src = rest;
    Some(frame)
}

/// Reads the little-endian 32-bit word at offset `i`.
fn le_u32(src: &[u8], i: usize) -> (r: u32)
    requires
        i + 4 <= src@.len(),
    ensures
        r as int == le_u32_at(src@, i as int),
{
    let b0 = src[i] as u32;
    let b1 = src[i + 1] as u32;
    let b2 = src[i + 2] as u32;
    let b3 = src[i + 3] as u32;
    b0 + 256 * b1 + 65536 * b2 + 16777216 * b3
}

/// Removes the trailing NUL characters of `s`.
fn trim_nuls(s: &str) -> (r: String)
    ensures
        r@ == trim_trailing_nuls(s@),
{
    let mut k = s.unicode_len();
    proof {
        assert(s@.subrange(0, k as int) =~= s@);
    }
    while k > 0 && s.get_char(k - 1) == '\0'
        invariant
            k <= s@.len(),
            trim_trailing_nuls(s@) == trim_trailing_nuls(s@.subrange(0, k as int)),
        decreases k,
    {
        proof {
            let p = s@.subrange(0, k as int);
            assert(p.last() == s@[k - 1]);
            assert(p.drop_last() =~= s@.subrange(0, k - 1));
        }
        k = k - 1;
    }
    proof {
        let p = s@.subrange(0, k as int);
        if k > 0 {
            assert(p.last() == s@[k - 1]);
        }
        assert(trim_trailing_nuls(p) == p);
    }
    String::from_str(s.substring_char(0, k))
}

/// Attempts to take an 80-byte auth preamble off the front of `src`.
fn decode_auth_packet(src: &mut Vec<u8>) -> (r: Option<(String, String)>)
    ensures
        auth_header_ok(old(src)@) ==> match r {
            Some(p) => p.0@ == auth_field_chars(old(src)@.subrange(16, 48)) && p.1@
                == auth_field_chars(old(src)@.subrange(48, 80)) && final(src)@ == old(
                src,
            )@.subrange(80, old(src)@.len() as int),
            None => false,
        },
        !auth_header_ok(old(src)@) ==> r is None && final(src)@ == old(src)@,
{
    if src.len() >= 80 {
        let magic_1 = le_u32(src.as_slice(), 0);
        let magic_2 = le_u32(src.as_slice(), 4);
        let zero_1 = le_u32(src.as_slice(), 8);
        let zero_2 = le_u32(src.as_slice(), 12);
        if magic_1 == 64 && magic_2 == 12288 && zero_1 == 0 && zero_2 == 0 {
            let username_part = vstd::slice::slice_subrange(src.as_slice(), 16, 48);
            let access_part = vstd::slice::slice_subrange(src.as_slice(), 48, 80);
            let username_raw = utf8_lossy(username_part);
            let access_raw = utf8_lossy(access_part);
            let username = trim_nuls(username_raw.as_str());
            let access_code = trim_nuls(access_raw.as_str());
            let rest = vstd::slice::slice_to_vec(
                vstd::slice::slice_subrange(src.as_slice(), 80, src.len()),
            );
            *src = rest;
            return Some((username, access_code));
        }
        None
    } else {
        None
    }
}

impl Default for JpegCodec {
    /// A fresh codec.
    fn default() -> (r: Self) {
        JpegCodec {  }
    }
}

impl JpegCodec {
    /// A fresh codec; the codec itself carries no state.
    pub fn new() -> (r: Self) {
        JpegCodec {  }
    }

    /// Attempts to decode one packet from the front of `src`: the auth
    /// preamble is checked first, then JPEG framing; `None` asks for more
    /// bytes and leaves the buffer untouched.
    pub fn decode(&mut self, src: &mut Vec<u8>) -> (r: Option<CameraPacket>)
        ensures
            ({
                let b = old(src)@;
                if auth_header_ok(b) {
                    match r {
                        Some(p) => p matches CameraPacket::Auth { username, access_code }
                            && username@ == auth_field_chars(b.subrange(16, 48))
                            && access_code@ == auth_field_chars(b.subrange(48, 80))
                            && final(src)@ == b.subrange(80, b.len() as int),
                        None => false,
                    }
                } else {
                    match spec_decode_jpeg(b) {
                        Some(pair) => r matches Some(p) && p matches CameraPacket::Jpeg(f)
                            && f@ == pair.0 && final(src)@ == pair.1,
                        None => r is None && final(src)@ == b,
                    }
                }
            }),
    {
        if let Some(pair) = decode_auth_packet(src) {
            let (username, access_code) = pair;
            Some(CameraPacket::Auth { username, access_code })
        } else if let Some(jpeg) = decode_jpeg_packet(src) {
            Some(CameraPacket::Jpeg(jpeg))
        } else {
            None
        }
    }

    /// Appends the wire encoding of `item` to `dst`.
    pub fn encode(&mut self, item: &CameraPacket, dst: &mut Vec<u8>)
        ensures
            final(dst)@ == old(dst)@ + spec_encode_packet(item),
    {
        match item {
            CameraPacket::Auth { username, access_code } => {
                let ghost base = dst@;
                dst.push(0x40u8);
                dst.push(0u8);
                dst.push(0u8);
                dst.push(0u8);
                dst.push(0u8);
                dst.push(0x30u8);
                dst.push(0u8);
                dst.push(0u8);
                let mut k: usize = 0;
                while k < 8
                    invariant
                        k <= 8,
                        dst@ == base + auth_magic().subrange(0, 8 + k as int),
                    decreases 8 - k,
                {
                    proof {
                        assert(auth_magic().subrange(0, 8 + k + 1) =~= auth_magic().subrange(
                            0,
                            8 + k as int,
                        ) + seq![0u8]);
                    }
                    dst.push(0u8);
                    k = k + 1;
                }
                proof {
                    assert(auth_magic().subrange(0, 16) =~= auth_magic());
                }
                write_padded_field(dst, username);
                write_padded_field(dst, access_code);
                proof {
                    assert(dst@ =~= base + spec_encode_packet(item));
                }
            },
            CameraPacket::Jpeg(bytes) => {
                dst.extend_from_slice(bytes.as_slice());
                proof {
                    assert(dst@ =~= old(dst)@ + spec_encode_packet(item));
                }
            },
        }
    }
}

/// Appends the 32-byte zero-padded encoding of `field` to `dst`.
fn write_padded_field(dst: &mut Vec<u8>, field: &String)
    ensures
        final(dst)@ == old(dst)@ + pad32(encode_utf8(field@)),
{
    let bytes = field.as_str().as_bytes_vec();
    let len = if bytes.len() < 32 {
        bytes.len()
    } else {
        32
    };
    let ghost base = dst@;
    let mut i: usize = 0;
    while i < len
        invariant
            i <= len,
            len <= bytes@.len(),
            len == if bytes@.len() < 32 { bytes@.len() as int } else { 32int },
            bytes@ == encode_utf8(field@),
            dst@ == base + bytes@.subrange(0, i as int),
        decreases len - i,
    {
        proof {
            assert(bytes@.subrange(0, i + 1) =~= bytes@.subrange(0, i as int) + seq![
                bytes@[i as int],
            ]);
        }
        let b = bytes[i];
        dst.push(b);
        i = i + 1;
    }
    let mut j: usize = len;
    while j < 32
        invariant
            len <= j <= 32,
            len == if bytes@.len() < 32 { bytes@.len() as int } else { 32int },
            bytes@ == encode_utf8(field@),
            dst@ == base + bytes@.subrange(0, len as int) + zero_bytes(j - len),
        decreases 32 - j,
    {
        proof {
            assert(zero_bytes(j + 1 - len) =~= zero_bytes(j - len) + seq![0u8]);
        }
        dst.push(0u8);
        j = j + 1;
    }
    proof {
        if bytes@.len() >= 32 {
            assert(zero_bytes(0) =~= Seq::<u8>::empty());
            assert(dst@ =~= base + pad32(encode_utf8(field@)));
        } else {
            assert(bytes@.subrange(0, len as int) =~= bytes@);
            assert(dst@ =~= base + pad32(encode_utf8(field@)));
        }
    }
}

} // verus!
