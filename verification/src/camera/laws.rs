//! The framing laws of the camera codec: streams of well-formed frames
//! decode back to exactly those frames, strict prefixes ask for more
//! bytes, and the auth packet encoding inverts its decoding.

use vstd::prelude::*;
use vstd::utf8::decode_utf8;
use vstd::utf8::encode_scalar;
use vstd::utf8::encode_utf8;
use vstd::utf8::valid_utf8;
use vstd::utf8::encode_utf8_valid_utf8;
use vstd::utf8::encode_utf8_decode_utf8;
use crate::scan::first_match;
use crate::scan::match_at;
use crate::scan::lemma_first_match_from_none;
use crate::scan::lemma_first_match_from_unique;
use super::codec::auth_field_chars;
use super::codec::auth_header_ok;
use super::codec::auth_magic;
use super::codec::end_marker;
use super::codec::le_u32_at;
use super::codec::pad32;
use super::codec::spec_decode_jpeg;
use super::codec::spec_encode_auth;
use super::codec::start_marker;
use super::codec::trim_trailing_nuls;
use super::codec::zero_bytes;

verus! {

/// A complete frame as the codec emits it: it begins with the start
/// marker, ends with the end marker, and the end marker occurs nowhere
/// strictly inside.
pub open spec fn well_formed_frame(f: Seq<u8>) -> bool {
    &&& f.len() >= 6
    &&& f.subrange(0, 4) == start_marker()
    &&& f.subrange(f.len() - 2, f.len() as int) == end_marker()
    &&& forall|i: int| 4 <= i < f.len() - 2 ==> !match_at(f, end_marker(), i)
}

/// `g` contains no start marker, so the decoder can only skip it.
pub open spec fn no_start_marker(g: Seq<u8>) -> bool {
    forall|i: int| !match_at(g, start_marker(), i)
}

/// Decoding a garbage prefix, one well-formed frame, and arbitrary further
/// bytes yields exactly that frame and leaves exactly the further bytes.
pub proof fn lemma_decode_one_frame(g: Seq<u8>, f: Seq<u8>, rest: Seq<u8>)
    requires
        well_formed_frame(f),
        no_start_marker(g),
    ensures
        spec_decode_jpeg(g + f + rest) == Some((f, rest)),
{
    let b = g + f + rest;
    let gl = g.len() as int;
    let fl = f.len() as int;
    let n = b.len() as int;
    assert(f[0] == start_marker()[0] && f[1] == start_marker()[1] && f[2] == start_marker()[2]
        && f[3] == start_marker()[3]) by {
        assert(f.subrange(0, 4)[0] == f[0]);
        assert(f.subrange(0, 4)[1] == f[1]);
        assert(f.subrange(0, 4)[2] == f[2]);
        assert(f.subrange(0, 4)[3] == f[3]);
    }
    assert(f[fl - 2] == 0xff && f[fl - 1] == 0xd9) by {
        assert(f.subrange(fl - 2, fl)[0] == f[fl - 2]);
        assert(f.subrange(fl - 2, fl)[1] == f[fl - 1]);
    }
    // the start marker first matches exactly at the frame start
    assert(match_at(b, start_marker(), gl)) by {
        assert(b.subrange(gl, gl + 4) =~= f.subrange(0, 4));
    }
    assert forall|j: int| 0 <= j < gl implies !match_at(b, start_marker(), j) by {
        if match_at(b, start_marker(), j) {
            if j + 4 <= gl {
                assert(match_at(g, start_marker(), j)) by {
                    assert(b.subrange(j, j + 4) =~= g.subrange(j, j + 4));
                }
            } else {
                // the window straddles the garbage/frame boundary
                assert(b.subrange(j, j + 4)[gl - j] == start_marker()[gl - j]);
                assert(b[gl] == f[0]);
                if gl - j == 2 {
                    assert(b.subrange(j, j + 4)[3] == start_marker()[3]);
                    assert(b[gl + 1] == f[1]);
                }
            }
        }
    }
    lemma_first_match_from_unique(b, start_marker(), 0, gl);
    let tail = b.subrange(gl + 4, n);
    assert(tail =~= f.subrange(4, fl) + rest);
    // the end marker first matches in the tail exactly at the frame end
    assert(match_at(tail, end_marker(), fl - 6)) by {
        assert(tail.subrange(fl - 6, fl - 4) =~= f.subrange(fl - 2, fl));
    }
    assert forall|j: int| 0 <= j < fl - 6 implies !match_at(tail, end_marker(), j) by {
        if match_at(tail, end_marker(), j) {
            assert(match_at(f, end_marker(), j + 4)) by {
                assert(tail.subrange(j, j + 2)[0] == tail[j]);
                assert(tail.subrange(j, j + 2)[1] == tail[j + 1]);
                assert(tail[j] == f[j + 4]);
                assert(tail[j + 1] == f[j + 5]);
                assert(f.subrange(j + 4, j + 6) =~= end_marker());
            }
        }
    }
    lemma_first_match_from_unique(tail, end_marker(), 0, fl - 6);
    assert(b.subrange(gl, gl + fl) =~= f);
    assert(b.subrange(gl + fl, n) =~= rest);
}

/// Bytes that contain no start marker decode to nothing.
pub proof fn lemma_garbage_decodes_nothing(g: Seq<u8>)
    requires
        no_start_marker(g),
    ensures
        spec_decode_jpeg(g) is None,
{
    lemma_first_match_from_none(g, start_marker(), 0);
}

/// Concatenation of `frames.len() + 1` gaps with the frames interleaved:
/// `gaps[0] + frames[0] + gaps[1] + ... + frames[n-1] + gaps[n]`.
pub open spec fn interleave(gaps: Seq<Seq<u8>>, frames: Seq<Seq<u8>>) -> Seq<u8>
    recommends
        gaps.len() == frames.len() + 1,
    decreases frames.len(),
{
    if frames.len() == 0 {
        if gaps.len() > 0 {
            gaps[0]
        } else {
            seq![]
        }
    } else {
        gaps[0] + frames[0] + interleave(gaps.drop_first(), frames.drop_first())
    }
}

/// Every frame the decoder can pull off `b`, in order.
pub open spec fn decoded_frames(b: Seq<u8>) -> Seq<Seq<u8>>
    decreases b.len(),
{
    match spec_decode_jpeg(b) {
        None => seq![],
        Some(pair) => if pair.1.len() < b.len() {
            seq![pair.0] + decoded_frames(pair.1)
        } else {
            seq![pair.0]
        },
    }
}

/// Round trip of the JPEG framing: a byte stream of `N` well-formed
/// frames, separated and surrounded by marker-free garbage, decodes to
/// exactly those `N` frames, byte-identical and in order.
pub proof fn lemma_stream_round_trip(gaps: Seq<Seq<u8>>, frames: Seq<Seq<u8>>)
    requires
        gaps.len() == frames.len() + 1,
        forall|k: int| 0 <= k < frames.len() ==> well_formed_frame(#[trigger] frames[k]),
        forall|k: int| 0 <= k < gaps.len() ==> no_start_marker(#[trigger] gaps[k]),
    ensures
        decoded_frames(interleave(gaps, frames)) == frames,
    decreases frames.len(),
{
    if frames.len() == 0 {
        lemma_garbage_decodes_nothing(gaps[0]);
        assert(decoded_frames(interleave(gaps, frames)) =~= frames);
    } else {
        let rest = interleave(gaps.drop_first(), frames.drop_first());
        let b = interleave(gaps, frames);
        lemma_decode_one_frame(gaps[0], frames[0], rest);
        assert(b == gaps[0] + frames[0] + rest);
        assert(rest.len() < b.len());
        lemma_stream_round_trip(gaps.drop_first(), frames.drop_first());
        assert(decoded_frames(b) =~= frames);
    }
}

/// Feeding any strict prefix of a well-formed frame yields "need more":
/// neither the auth check nor the JPEG framing fires, so the decoder
/// leaves the buffer untouched.
pub proof fn lemma_prefix_needs_more(f: Seq<u8>, k: int)
    requires
        well_formed_frame(f),
        0 <= k < f.len(),
    ensures
        spec_decode_jpeg(f.subrange(0, k)) is None,
        !auth_header_ok(f.subrange(0, k)),
{
    let p = f.subrange(0, k);
    let fl = f.len() as int;
    assert(f[0] == 0xff && f[1] == 0xd8 && f[2] == 0xff && f[3] == 0xe0) by {
        assert(f.subrange(0, 4)[0] == f[0]);
        assert(f.subrange(0, 4)[1] == f[1]);
        assert(f.subrange(0, 4)[2] == f[2]);
        assert(f.subrange(0, 4)[3] == f[3]);
    }
    if p.len() >= 80 {
        assert(le_u32_at(p, 0) != 64) by {
            assert(p[0] == 0xff);
            assert(256 * (p[1] as int) >= 0 && 65536 * (p[2] as int) >= 0 && 16777216 * (
            p[3] as int) >= 0);
        }
    }
    if k < 4 {
        assert forall|i: int| !match_at(p, start_marker(), i) by {}
        lemma_first_match_from_none(p, start_marker(), 0);
    } else {
        assert(match_at(p, start_marker(), 0)) by {
            assert(p.subrange(0, 4) =~= f.subrange(0, 4));
        }
        lemma_first_match_from_unique(p, start_marker(), 0, 0);
        let tail = p.subrange(4, k);
        assert forall|j: int| !match_at(tail, end_marker(), j) by {
            if match_at(tail, end_marker(), j) {
                assert(match_at(f, end_marker(), j + 4)) by {
                    assert(tail.subrange(j, j + 2)[0] == tail[j]);
                    assert(tail.subrange(j, j + 2)[1] == tail[j + 1]);
                    assert(tail[j] == f[j + 4]);
                    assert(tail[j + 1] == f[j + 5]);
                    assert(f.subrange(j + 4, j + 6) =~= end_marker());
                }
            }
        }
        lemma_first_match_from_none(tail, end_marker(), 0);
    }
}

/// A buffer that begins with the start marker but holds no end marker
/// decodes to nothing and is not an auth preamble, so the decoder
/// consumes no bytes.
pub proof fn lemma_no_end_no_frame(b: Seq<u8>)
    requires
        b.len() >= 4,
        b.subrange(0, 4) == start_marker(),
        forall|i: int| !match_at(b, end_marker(), i),
    ensures
        spec_decode_jpeg(b) is None,
        !auth_header_ok(b),
{
    assert(b[0] == 0xff && b[1] == 0xd8 && b[2] == 0xff && b[3] == 0xe0) by {
        assert(b.subrange(0, 4)[0] == b[0]);
        assert(b.subrange(0, 4)[1] == b[1]);
        assert(b.subrange(0, 4)[2] == b[2]);
        assert(b.subrange(0, 4)[3] == b[3]);
    }
    if b.len() >= 80 {
        assert(le_u32_at(b, 0) != 64) by {
            assert(256 * (b[1] as int) >= 0 && 65536 * (b[2] as int) >= 0 && 16777216 * (
            b[3] as int) >= 0);
        }
    }
    assert(match_at(b, start_marker(), 0));
    lemma_first_match_from_unique(b, start_marker(), 0, 0);
    let tail = b.subrange(4, b.len() as int);
    assert forall|j: int| !match_at(tail, end_marker(), j) by {
        if match_at(tail, end_marker(), j) {
            assert(match_at(b, end_marker(), j + 4)) by {
                assert(tail.subrange(j, j + 2)[0] == tail[j]);
                assert(tail.subrange(j, j + 2)[1] == tail[j + 1]);
                assert(b.subrange(j + 4, j + 6) =~= end_marker());
            }
        }
    }
    lemma_first_match_from_none(tail, end_marker(), 0);
}

/// `n` NUL characters.
pub open spec fn nul_chars(n: int) -> Seq<char> {
    Seq::new(n as nat, |i: int| '\0')
}

proof fn lemma_encode_nuls(n: int)
    requires
        n >= 0,
    ensures
        encode_utf8(nul_chars(n)) == zero_bytes(n),
    decreases n,
{
    if n == 0 {
        assert(nul_chars(0) =~= Seq::<char>::empty());
        assert(encode_utf8(nul_chars(0)) =~= zero_bytes(0));
    } else {
        assert(nul_chars(n)[0] == '\0');
        assert('\0' as u32 == 0);
        assert(0u32 & 0x7F == 0) by (bit_vector);
        assert(encode_scalar(0u32) =~= seq![0u8]);
        assert(nul_chars(n).drop_first() =~= nul_chars(n - 1));
        lemma_encode_nuls(n - 1);
        assert(encode_utf8(nul_chars(n)) =~= zero_bytes(n));
    }
}

proof fn lemma_encode_concat(s1: Seq<char>, s2: Seq<char>)
    ensures
        encode_utf8(s1 + s2) == encode_utf8(s1) + encode_utf8(s2),
    decreases s1.len(),
{
    if s1.len() == 0 {
        assert(s1 + s2 =~= s2);
        assert(encode_utf8(s1) =~= Seq::<u8>::empty());
        assert(encode_utf8(s1) + encode_utf8(s2) =~= encode_utf8(s2));
    } else {
        assert((s1 + s2)[0] == s1[0]);
        assert((s1 + s2).drop_first() =~= s1.drop_first() + s2);
        lemma_encode_concat(s1.drop_first(), s2);
        assert(encode_utf8(s1 + s2) =~= encode_utf8(s1) + encode_utf8(s2));
    }
}

proof fn lemma_trim_after_nuls(u: Seq<char>, n: int)
    requires
        n >= 0,
        u.len() == 0 || u.last() != '\0',
    ensures
        trim_trailing_nuls(u + nul_chars(n)) == u,
    decreases n,
{
    if n == 0 {
        assert(u + nul_chars(0) =~= u);
        if u.len() > 0 {
            assert(trim_trailing_nuls(u) == u);
        }
    } else {
        let s = u + nul_chars(n);
        assert(s.last() == '\0');
        assert(s.drop_last() =~= u + nul_chars(n - 1));
        lemma_trim_after_nuls(u, n - 1);
    }
}

/// Auth codec round trip: encoding `Auth { u, a }` and decoding the 80
/// bytes back yields the original pair, for any fields of at most 32
/// encoded bytes that do not end in a NUL character, whatever bytes
/// follow the preamble in the buffer.
pub proof fn lemma_auth_round_trip(u: Seq<char>, a: Seq<char>, rest: Seq<u8>)
    requires
        encode_utf8(u).len() <= 32,
        encode_utf8(a).len() <= 32,
        u.len() == 0 || u.last() != '\0',
        a.len() == 0 || a.last() != '\0',
    ensures
        ({
            let b = spec_encode_auth(u, a) + rest;
            &&& auth_header_ok(b)
            &&& auth_field_chars(b.subrange(16, 48)) == u
            &&& auth_field_chars(b.subrange(48, 80)) == a
            &&& b.subrange(80, b.len() as int) == rest
        }),
{
    broadcast use encode_utf8_valid_utf8;
    broadcast use encode_utf8_decode_utf8;

    let b = spec_encode_auth(u, a) + rest;
    let ub = encode_utf8(u);
    let ab = encode_utf8(a);
    assert(pad32(ub).len() == 32 && pad32(ab).len() == 32);
    assert(spec_encode_auth(u, a).len() == 80);
    assert forall|i: int| 0 <= i < 16 implies b[i] == auth_magic()[i] by {}
    assert(auth_header_ok(b));
    assert(b.subrange(16, 48) =~= pad32(ub));
    assert(b.subrange(48, 80) =~= pad32(ab));
    assert(b.subrange(80, b.len() as int) =~= rest);
    lemma_pad_field_decodes(u);
    lemma_pad_field_decodes(a);
}

/// A 32-byte padded field decodes back to the original characters.
proof fn lemma_pad_field_decodes(u: Seq<char>)
    requires
        encode_utf8(u).len() <= 32,
        u.len() == 0 || u.last() != '\0',
    ensures
        auth_field_chars(pad32(encode_utf8(u))) == u,
{
    broadcast use encode_utf8_valid_utf8;
    broadcast use encode_utf8_decode_utf8;

    let ub = encode_utf8(u);
    let k = 32 - ub.len();
    lemma_encode_nuls(k as int);
    lemma_encode_concat(u, nul_chars(k as int));
    if ub.len() == 32 {
        assert(pad32(ub) =~= ub);
        assert(nul_chars(0) =~= Seq::<char>::empty());
        assert(u + nul_chars(0) =~= u);
        assert(pad32(ub) == encode_utf8(u + nul_chars(0)));
    } else {
        assert(pad32(ub) == ub + zero_bytes(k as int));
        assert(pad32(ub) == encode_utf8(u + nul_chars(k as int)));
    }
    assert(valid_utf8(pad32(ub)));
    assert(decode_utf8(encode_utf8(u + nul_chars(k as int))) == u + nul_chars(k as int));
    lemma_trim_after_nuls(u, k as int);
}

} // verus!
