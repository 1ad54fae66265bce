//! Percent-decoding of path and query tokens.  A `%XX` pair becomes the
//! byte it names and every other character passes through as its UTF-8
//! bytes; the byte string is then decoded back to text, with U+FFFD taking
//! the place of malformed sequences.  Both steps are specified to the byte
//! and proved, so reserved characters embedded in a path segment (an
//! encoded slash, say) reach the parameter bag literally.
use vstd::prelude::*;

verus! {

use vstd::string::StrSliceExecFns;
use crate::strutil::{push_char, char_from_u32};

/// The numeric value of a hexadecimal digit byte, or -1.
pub open spec fn spec_hex_byte(b: u8) -> int {
    if 48 <= b && b <= 57 {
        b - 48
    } else if 97 <= b && b <= 102 {
        b - 87
    } else if 65 <= b && b <= 70 {
        b - 55
    } else {
        -1
    }
}

/// The bytes after percent-decoding: each `%` followed by two hexadecimal
/// digits collapses to one byte, everything else stays.
pub open spec fn spec_pct_bytes(bytes: Seq<u8>) -> Seq<u8>
    decreases bytes.len(),
{
    if bytes.len() == 0 {
        Seq::empty()
    } else if bytes[0] == 37 && bytes.len() >= 3 && spec_hex_byte(bytes[1]) >= 0 && spec_hex_byte(
        bytes[2],
    ) >= 0 {
        seq![(spec_hex_byte(bytes[1]) * 16 + spec_hex_byte(bytes[2])) as u8] + spec_pct_bytes(
            bytes.skip(3),
        )
    } else {
        seq![bytes[0]] + spec_pct_bytes(bytes.drop_first())
    }
}

/// Whether a byte is a UTF-8 continuation byte.
pub open spec fn spec_cont(b: u8) -> bool {
    0x80 <= b && b < 0xC0
}

/// The scalar value of a two-byte UTF-8 sequence.
pub open spec fn spec_scalar2(b0: u8, b1: u8) -> u32 {
    (((b0 & 0x1F) as u32) << 6) | ((b1 & 0x3F) as u32)
}

/// The scalar value of a three-byte UTF-8 sequence.
pub open spec fn spec_scalar3(b0: u8, b1: u8, b2: u8) -> u32 {
    (((b0 & 0x0F) as u32) << 12) | (((b1 & 0x3F) as u32) << 6) | ((b2 & 0x3F) as u32)
}

/// The scalar value of a four-byte UTF-8 sequence.
pub open spec fn spec_scalar4(b0: u8, b1: u8, b2: u8, b3: u8) -> u32 {
    (((b0 & 0x07) as u32) << 18) | (((b1 & 0x3F) as u32) << 12) | (((b2 & 0x3F) as u32) << 6) | ((
    b3 & 0x3F) as u32)
}

/// Whether the bytes begin with a well-formed two-byte sequence.
pub open spec fn spec_starts2(bytes: Seq<u8>) -> bool {
    &&& 0xC2 <= bytes[0] && bytes[0] <= 0xDF
    &&& bytes.len() >= 2
    &&& spec_cont(bytes[1])
}

/// Whether the bytes begin with a well-formed three-byte sequence (neither
/// overlong nor a surrogate).
pub open spec fn spec_starts3(bytes: Seq<u8>) -> bool {
    &&& 0xE0 <= bytes[0] && bytes[0] <= 0xEF
    &&& bytes.len() >= 3
    &&& spec_cont(bytes[1])
    &&& spec_cont(bytes[2])
    &&& (bytes[0] == 0xE0 ==> bytes[1] >= 0xA0)
    &&& (bytes[0] == 0xED ==> bytes[1] < 0xA0)
}

/// Whether the bytes begin with a well-formed four-byte sequence (neither
/// overlong nor above the last scalar).
pub open spec fn spec_starts4(bytes: Seq<u8>) -> bool {
    &&& 0xF0 <= bytes[0] && bytes[0] <= 0xF4
    &&& bytes.len() >= 4
    &&& spec_cont(bytes[1])
    &&& spec_cont(bytes[2])
    &&& spec_cont(bytes[3])
    &&& (bytes[0] == 0xF0 ==> bytes[1] >= 0x90)
    &&& (bytes[0] == 0xF4 ==> bytes[1] < 0x90)
}

/// The text encoded by the bytes, decoded scalar by scalar; every byte at
/// which no well-formed sequence starts yields U+FFFD.
pub open spec fn spec_utf8_lossy(bytes: Seq<u8>) -> Seq<char>
    decreases bytes.len(),
{
    if bytes.len() == 0 {
        Seq::empty()
    } else if bytes[0] < 0x80 {
        seq![bytes[0] as char] + spec_utf8_lossy(bytes.drop_first())
    } else if spec_starts2(bytes) {
        seq![spec_scalar2(bytes[0], bytes[1]) as char] + spec_utf8_lossy(bytes.skip(2))
    } else if spec_starts3(bytes) {
        seq![spec_scalar3(bytes[0], bytes[1], bytes[2]) as char] + spec_utf8_lossy(bytes.skip(3))
    } else if spec_starts4(bytes) {
        seq![spec_scalar4(bytes[0], bytes[1], bytes[2], bytes[3]) as char] + spec_utf8_lossy(
            bytes.skip(4),
        )
    } else {
        seq!['\u{FFFD}'] + spec_utf8_lossy(bytes.drop_first())
    }
}

/// The percent-decoding of a token, as text: `%XX` pairs become bytes and
/// the whole byte string is decoded leniently back to characters.
pub open spec fn spec_pct_decode(s: Seq<char>) -> Seq<char> {
    spec_utf8_lossy(spec_pct_bytes(vstd::utf8::encode_utf8(s)))
}

/// The numeric value of a hexadecimal digit byte (255 when none).
fn hex_byte(b: u8) -> (r: u8)
    ensures
        spec_hex_byte(b) >= 0 ==> r as int == spec_hex_byte(b),
        spec_hex_byte(b) < 0 ==> r == 255,
{
    if 48 <= b && b <= 57 {
        b - 48
    } else if 97 <= b && b <= 102 {
        b - 87
    } else if 65 <= b && b <= 70 {
        b - 55
    } else {
        255
    }
}

/// Percent-decodes a byte string.
pub fn pct_decode_bytes(bytes: &[u8]) -> (r: Vec<u8>)
    ensures
        r@ == spec_pct_bytes(bytes@),
{
    let n = bytes.len();
    let mut out: Vec<u8> = Vec::new();
    let mut i: usize = 0;
    proof {
        assert(bytes@.skip(0) =~= bytes@);
        assert(out@ + spec_pct_bytes(bytes@.skip(0)) =~= spec_pct_bytes(bytes@));
    }
    while i < n
        invariant
            0 <= i <= n,
            n == bytes@.len(),
            out@ + spec_pct_bytes(bytes@.skip(i as int)) == spec_pct_bytes(bytes@),
        decreases n - i,
    {
        let b = bytes[i];
        proof {
            assert(bytes@.skip(i as int)[0] == b);
        }
        if b == 37 && n - i >= 3 && hex_byte(bytes[i + 1]) != 255 && hex_byte(bytes[i + 2])
            != 255 {
            proof {
                assert(bytes@.skip(i as int)[1] == bytes@[i + 1]);
                assert(bytes@.skip(i as int)[2] == bytes@[i + 2]);
                assert(bytes@.skip(i as int).skip(3) =~= bytes@.skip(i + 3));
            }
            let v = hex_byte(bytes[i + 1]) * 16 + hex_byte(bytes[i + 2]);
            out.push(v);
            i += 3;
        } else {
            proof {
                assert(bytes@.skip(i as int).drop_first() =~= bytes@.skip(i + 1));
            }
            out.push(b);
            i += 1;
        }
        proof {
            assert(out@ + spec_pct_bytes(bytes@.skip(i as int)) =~= spec_pct_bytes(bytes@));
        }
    }
    proof {
        assert(bytes@.skip(n as int) =~= Seq::<u8>::empty());
        assert(out@ =~= spec_pct_bytes(bytes@));
    }
    out
}

/// Decodes bytes to text, with U+FFFD at every malformed position.
pub fn utf8_lossy(bytes: &Vec<u8>) -> (r: String)
    ensures
        r@ == spec_utf8_lossy(bytes@),
{
    let n = bytes.len();
    let mut out = String::new();
    let mut i: usize = 0;
    proof {
        assert(bytes@.skip(0) =~= bytes@);
        assert(out@ + spec_utf8_lossy(bytes@.skip(0)) =~= spec_utf8_lossy(bytes@));
    }
    while i < n
        invariant
            0 <= i <= n,
            n == bytes@.len(),
            out@ + spec_utf8_lossy(bytes@.skip(i as int)) == spec_utf8_lossy(bytes@),
        decreases n - i,
    {
        let ghost rest = bytes@.skip(i as int);
        let b0 = bytes[i];
        proof {
            assert(rest[0] == b0);
            assert(rest.len() == n - i);
            if 1 < rest.len() {
                assert(rest[1] == bytes@[i + 1]);
            }
            if 2 < rest.len() {
                assert(rest[2] == bytes@[i + 2]);
            }
            if 3 < rest.len() {
                assert(rest[3] == bytes@[i + 3]);
            }
        }
        if b0 < 0x80 {
            push_char(&mut out, b0 as char);
            proof {
                assert(rest.drop_first() =~= bytes@.skip(i + 1));
            }
            i += 1;
        } else if 0xC2 <= b0 && b0 <= 0xDF && n - i >= 2 && is_cont(bytes[i + 1]) {
            let b1 = bytes[i + 1];
            let v: u32 = (((b0 & 0x1F) as u32) << 6u32) | ((b1 & 0x3F) as u32);
            assert((((b0 & 0x1F) as u32) << 6u32) | ((b1 & 0x3F) as u32) < 0xD800) by (bit_vector);
            let c = char_from_u32(v);
            push_char(&mut out, c.unwrap());
            proof {
                assert(rest.skip(2) =~= bytes@.skip(i + 2));
                assert(spec_starts2(rest));
            }
            i += 2;
        } else if 0xE0 <= b0 && b0 <= 0xEF && n - i >= 3 && is_cont(bytes[i + 1]) && is_cont(
            bytes[i + 2],
        ) && (b0 != 0xE0 || bytes[i + 1] >= 0xA0) && (b0 != 0xED || bytes[i + 1] < 0xA0) {
            let b1 = bytes[i + 1];
            let b2 = bytes[i + 2];
            let v: u32 = (((b0 & 0x0F) as u32) << 12u32) | (((b1 & 0x3F) as u32) << 6u32) | ((b2
                & 0x3F) as u32);
            assert(((((b0 & 0x0F) as u32) << 12u32) | (((b1 & 0x3F) as u32) << 6u32) | ((b2
                & 0x3F) as u32)) < 0xD800 || ((((b0 & 0x0F) as u32) << 12u32) | (((b1
                & 0x3F) as u32) << 6u32) | ((b2 & 0x3F) as u32)) >= 0xE000) by (bit_vector)
                requires
                    0xE0 <= b0 && b0 <= 0xEF,
                    0x80 <= b1 && b1 < 0xC0,
                    b0 == 0xED ==> b1 < 0xA0,
            ;
            assert(((((b0 & 0x0F) as u32) << 12u32) | (((b1 & 0x3F) as u32) << 6u32) | ((b2
                & 0x3F) as u32)) <= 0xFFFF) by (bit_vector);
            let c = char_from_u32(v);
            push_char(&mut out, c.unwrap());
            proof {
                assert(rest.skip(3) =~= bytes@.skip(i + 3));
                assert(spec_starts3(rest));
            }
            i += 3;
        } else if 0xF0 <= b0 && b0 <= 0xF4 && n - i >= 4 && is_cont(bytes[i + 1]) && is_cont(
            bytes[i + 2],
        ) && is_cont(bytes[i + 3]) && (b0 != 0xF0 || bytes[i + 1] >= 0x90) && (b0 != 0xF4 || bytes[i
            + 1] < 0x90) {
            let b1 = bytes[i + 1];
            let b2 = bytes[i + 2];
            let b3 = bytes[i + 3];
            let v: u32 = (((b0 & 0x07) as u32) << 18u32) | (((b1 & 0x3F) as u32) << 12u32) | (((b2
                & 0x3F) as u32) << 6u32) | ((b3 & 0x3F) as u32);
            assert(((((b0 & 0x07) as u32) << 18u32) | (((b1 & 0x3F) as u32) << 12u32) | (((b2
                & 0x3F) as u32) << 6u32) | ((b3 & 0x3F) as u32)) < 0x110000) by (bit_vector)
                requires
                    0xF0 <= b0 && b0 <= 0xF4,
                    0x80 <= b1 && b1 < 0xC0,
                    b0 == 0xF4 ==> b1 < 0x90,
            ;
            assert(0xE000 <= ((((b0 & 0x07) as u32) << 18u32) | (((b1 & 0x3F) as u32) << 12u32)
                | (((b2 & 0x3F) as u32) << 6u32) | ((b3 & 0x3F) as u32))) by (bit_vector)
                requires
                    0xF0 <= b0 && b0 <= 0xF4,
                    0x80 <= b1 && b1 < 0xC0,
                    b0 == 0xF0 ==> b1 >= 0x90,
            ;
            let c = char_from_u32(v);
            push_char(&mut out, c.unwrap());
            proof {
                assert(rest.skip(4) =~= bytes@.skip(i + 4));
                assert(spec_starts4(rest));
            }
            i += 4;
        } else {
            push_char(&mut out, '\u{FFFD}');
            proof {
                assert(rest.drop_first() =~= bytes@.skip(i + 1));
                assert(!spec_starts2(rest) && !spec_starts3(rest) && !spec_starts4(rest));
            }
            i += 1;
        }
        proof {
            assert(out@ + spec_utf8_lossy(bytes@.skip(i as int)) =~= spec_utf8_lossy(bytes@));
        }
    }
    proof {
        assert(bytes@.skip(n as int) =~= Seq::<u8>::empty());
        assert(out@ =~= spec_utf8_lossy(bytes@));
    }
    out
}

/// Whether a byte is a UTF-8 continuation byte.
fn is_cont(b: u8) -> (r: bool)
    ensures
        r == spec_cont(b),
{
    0x80 <= b && b < 0xC0
}

/// Percent-decodes a token: `%XX` pairs become bytes, and the bytes are
/// read back as text.
pub fn percent_decode(s: &str) -> (r: String)
    ensures
        r@ == spec_pct_decode(s@),
{
    let bytes = s.as_bytes_vec();
    let decoded = pct_decode_bytes(bytes.as_slice());
    utf8_lossy(&decoded)
}

} // verus!
