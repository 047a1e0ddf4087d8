//! Base64 encoding of a byte stream.
//!
//! The surrounding program feeds bytes in and writes the encoded bytes
//! out; every encoding decision is made here.

use vstd::prelude::*;

verus! {

/// The base64 alphabet: `A`-`Z`, `a`-`z`, `0`-`9`, `+`, `/`.
pub open spec fn b64_char(d: int) -> u8 {
    if d < 26 {
        (65 + d) as u8
    } else if d < 52 {
        (97 + d - 26) as u8
    } else if d < 62 {
        (48 + d - 52) as u8
    } else if d == 62 {
        43u8
    } else {
        47u8
    }
}

/// The padding byte, `=`.
pub open spec fn pad_char() -> u8 {
    61u8
}

/// The base64 encoding of a byte sequence: each group of three bytes
/// becomes the four alphabet characters of its 24-bit value, and a final
/// group of one or two bytes is padded with `=`.
pub open spec fn b64_encode(s: Seq<u8>) -> Seq<u8>
    decreases s.len(),
{
    if s.len() == 0 {
        Seq::empty()
    } else if s.len() == 1 {
        let b0 = s[0] as int;
        seq![b64_char(b0 / 4), b64_char(b0 % 4 * 16), pad_char(), pad_char()]
    } else if s.len() == 2 {
        let b0 = s[0] as int;
        let b1 = s[1] as int;
        seq![
            b64_char(b0 / 4),
            b64_char(b0 % 4 * 16 + b1 / 16),
            b64_char(b1 % 16 * 4),
            pad_char(),
        ]
    } else {
        let n = s[0] as int * 65536 + s[1] as int * 256 + s[2] as int;
        seq![
            b64_char(n / 262144),
            b64_char(n / 4096 % 64),
            b64_char(n / 64 % 64),
            b64_char(n % 64),
        ] + b64_encode(s.skip(3))
    }
}

/// The alphabet character of one six-bit value.
fn sextet(d: u8) -> (r: u8)
    requires
        d < 64,
    ensures
        r == b64_char(d as int),
{
    if d < 26 {
        65 + d
    } else if d < 52 {
        97 + (d - 26)
    } else if d < 62 {
        48 + (d - 52)
    } else if d == 62 {
        43
    } else {
        47
    }
}

/// Encodes a byte sequence in base64.
pub fn encode(input: &[u8]) -> (r: Vec<u8>)
    ensures
        r@ == b64_encode(input@),
{
    let len = input.len();
    let mut out: Vec<u8> = Vec::new();
    let mut i: usize = 0;
    proof {
        assert(input@.skip(0) =~= input@);
        assert(b64_encode(input@) =~= out@ + b64_encode(input@.skip(0)));
    }
    while len - i >= 3
        invariant
            len == input@.len(),
            i <= len,
            b64_encode(input@) == out@ + b64_encode(input@.skip(i as int)),
        decreases len - i,
    {
        let b0 = input[i];
        let b1 = input[i + 1];
        let b2 = input[i + 2];
        proof {
            assert((b0 >> 2) < 64 && (((b0 & 0b011) << 4) | (b1 >> 4)) < 64 && (((b1
                & 0b01111) << 2) | (b2 >> 6)) < 64 && (b2 & 0b0111111) < 64)
                by (bit_vector);
            let n32 = (b0 as u32) * 65536 + (b1 as u32) * 256 + (b2 as u32);
            assert(((b0 >> 2) as u32) == ((b0 as u32) * 65536 + (b1 as u32) * 256 + (
            b2 as u32)) / 262144 && (((((b0 & 0b011) << 4) | (b1 >> 4))) as u32) == ((
            b0 as u32) * 65536 + (b1 as u32) * 256 + (b2 as u32)) / 4096 % 64 && (((((b1
                & 0b01111) << 2) | (b2 >> 6))) as u32) == ((b0 as u32) * 65536 + (
            b1 as u32) * 256 + (b2 as u32)) / 64 % 64 && (((b2 & 0b0111111)) as u32) == ((
            b0 as u32) * 65536 + (b1 as u32) * 256 + (b2 as u32)) % 64) by (bit_vector);
        }
        out.push(sextet(b0 >> 2));
        out.push(sextet(((b0 & 0b011) << 4) | (b1 >> 4)));
        out.push(sextet(((b1 & 0b01111) << 2) | (b2 >> 6)));
        out.push(sextet(b2 & 0b0111111));
        proof {
            let rest = input@.skip(i as int);
            assert(rest.len() >= 3);
            assert(rest[0] == b0 && rest[1] == b1 && rest[2] == b2);
            assert(rest.skip(3) =~= input@.skip(i + 3));
            assert(b64_encode(input@) =~= out@ + b64_encode(input@.skip(i + 3)));
        }
        i += 3;
    }
    if len - i == 1 {
        let b0 = input[i];
        proof {
            assert((b0 >> 2) < 64 && (((b0 & 0b011) << 4)) < 64) by (bit_vector);
            assert(((b0 >> 2) as u32) == (b0 as u32) / 4 && ((((b0 & 0b011) << 4)) as u32)
                == (b0 as u32) % 4 * 16) by (bit_vector);
        }
        out.push(sextet(b0 >> 2));
        out.push(sextet((b0 & 0b011) << 4));
        out.push(61);
        out.push(61);
        proof {
            let rest = input@.skip(i as int);
            assert(rest.len() == 1 && rest[0] == b0);
            assert(b64_encode(input@) =~= out@);
        }
    } else if len - i == 2 {
        let b0 = input[i];
        let b1 = input[i + 1];
        proof {
            assert((b0 >> 2) < 64 && (((b0 & 0b011) << 4) | (b1 >> 4)) < 64 && (((b1
                & 0b01111) << 2)) < 64) by (bit_vector);
            assert(((b0 >> 2) as u32) == (b0 as u32) / 4 && (((((b0 & 0b011) << 4) | (b1
                >> 4))) as u32) == (b0 as u32) % 4 * 16 + (b1 as u32) / 16 && ((((b1
                & 0b01111) << 2)) as u32) == (b1 as u32) % 16 * 4) by (bit_vector);
        }
        out.push(sextet(b0 >> 2));
        out.push(sextet(((b0 & 0b011) << 4) | (b1 >> 4)));
        out.push(sextet((b1 & 0b01111) << 2));
        out.push(61);
        proof {
            let rest = input@.skip(i as int);
            assert(rest.len() == 2 && rest[0] == b0 && rest[1] == b1);
            assert(b64_encode(input@) =~= out@);
        }
    } else {
        proof {
            assert(input@.skip(i as int).len() == 0);
            assert(b64_encode(input@) =~= out@);
        }
    }
    out
}

} // verus!
