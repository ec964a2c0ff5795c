//! Unpadded URL-safe base64, the byte-to-text encoding session tokens are
//! framed in.

use vstd::prelude::*;

verus! {

/// The output byte standing for one 6-bit value.
pub open spec fn b64_byte(v: int) -> u8 {
    if 0 <= v < 26 {
        (65 + v) as u8  // 'A' to 'Z'
    } else if 26 <= v < 52 {
        (97 + (v - 26)) as u8  // 'a' to 'z'
    } else if 52 <= v < 62 {
        (48 + (v - 52)) as u8  // '0' to '9'
    } else if v == 62 {
        45u8  // '-'
    } else {
        95u8  // '_'
    }
}

/// The unpadded URL-safe base64 encoding of a byte sequence: each group of
/// three bytes becomes four output bytes, a trailing group of one or two
/// bytes becomes two or three.
pub open spec fn b64url_bytes(s: Seq<u8>) -> Seq<u8>
    decreases s.len(),
{
    if s.len() == 0 {
        seq![]
    } else if s.len() == 1 {
        seq![b64_byte((s[0] >> 2) as int), b64_byte(((s[0] & 3) << 4) as int)]
    } else if s.len() == 2 {
        seq![
            b64_byte((s[0] >> 2) as int),
            b64_byte((((s[0] & 3) << 4) | (s[1] >> 4)) as int),
            b64_byte(((s[1] & 15) << 2) as int),
        ]
    } else {
        seq![
            b64_byte((s[0] >> 2) as int),
            b64_byte((((s[0] & 3) << 4) | (s[1] >> 4)) as int),
            b64_byte((((s[1] & 15) << 2) | (s[2] >> 6)) as int),
            b64_byte((s[2] & 63) as int),
        ] + b64url_bytes(s.skip(3))
    }
}

/// Encoding distributes over concatenation at group boundaries.
pub proof fn lemma_b64url_append(s: Seq<u8>, t: Seq<u8>)
    requires
        s.len() % 3 == 0,
    ensures
        b64url_bytes(s + t) == b64url_bytes(s) + b64url_bytes(t),
    decreases s.len(),
{
    if s.len() == 0 {
        assert(s + t =~= t);
        assert(b64url_bytes(s) + b64url_bytes(t) =~= b64url_bytes(t));
    } else {
        assert(s.len() >= 3);
        let u = s + t;
        assert(u.len() >= 3);
        assert(u[0] == s[0] && u[1] == s[1] && u[2] == s[2]);
        assert(u.skip(3) =~= s.skip(3) + t);
        assert(s.skip(3).len() % 3 == 0);
        lemma_b64url_append(s.skip(3), t);
        assert(b64url_bytes(s + t) =~= b64url_bytes(s) + b64url_bytes(t));
    }
}

/// Every output byte is in the ASCII range.
pub proof fn lemma_b64url_ascii(s: Seq<u8>)
    ensures
        forall|i: int| 0 <= i < b64url_bytes(s).len() ==> (#[trigger] b64url_bytes(s)[i]) < 128,
    decreases s.len(),
{
    if s.len() >= 3 {
        lemma_b64url_ascii(s.skip(3));
        let head = seq![
            b64_byte((s[0] >> 2) as int),
            b64_byte((((s[0] & 3) << 4) | (s[1] >> 4)) as int),
            b64_byte((((s[1] & 15) << 2) | (s[2] >> 6)) as int),
            b64_byte((s[2] & 63) as int),
        ];
        assert forall|i: int| 0 <= i < b64url_bytes(s).len() implies (#[trigger] b64url_bytes(
            s,
        )[i]) < 128 by {
            if i < 4 {
                assert(b64url_bytes(s)[i] == head[i]);
            } else {
                assert(b64url_bytes(s)[i] == b64url_bytes(s.skip(3))[i - 4]);
            }
        }
    }
}

fn byte_for(v: u8) -> (r: u8)
    requires
        v < 64,
    ensures
        r == b64_byte(v as int),
{
    if v < 26 {
        65 + v
    } else if v < 52 {
        97 + (v - 26)
    } else if v < 62 {
        48 + (v - 52)
    } else if v == 62 {
        45
    } else {
        95
    }
}

proof fn lemma_group_bits(x: u8, y: u8, z: u8)
    by (bit_vector)
    ensures
        (x >> 2) < 64,
        (((x & 3) << 4) | (y >> 4)) < 64,
        (((y & 15) << 2) | (z >> 6)) < 64,
        ((x & 3) << 4) < 64,
        ((y & 15) << 2) < 64,
        (z & 63) < 64,
{
}

/// Encodes `input` as unpadded URL-safe base64.
pub fn b64url_encode(input: &Vec<u8>) -> (out: Vec<u8>)
    ensures
        out@ == b64url_bytes(input@),
{
    let n = input.len();
    let mut out: Vec<u8> = Vec::new();
    let mut i: usize = 0;
    while i < n && n - i >= 3
        invariant
            n == input@.len(),
            0 <= i <= n,
            i % 3 == 0,
            out@ == b64url_bytes(input@.take(i as int)),
        decreases n - i,
    {
        let x = input[i];
        let y = input[i + 1];
        let z = input[i + 2];
        proof {
            lemma_group_bits(x, y, z);
        }
        out.push(byte_for(x >> 2));
        out.push(byte_for(((x & 3) << 4) | (y >> 4)));
        out.push(byte_for(((y & 15) << 2) | (z >> 6)));
        out.push(byte_for(z & 63));
        proof {
            let pre = input@.take(i as int);
            let grp = input@.subrange(i as int, i + 3);
            assert(pre + grp =~= input@.take(i + 3));
            lemma_b64url_append(pre, grp);
            assert(grp.len() == 3);
            assert(grp.skip(3).len() == 0);
            assert(b64url_bytes(grp.skip(3)) =~= Seq::<u8>::empty());
            let head = seq![
                b64_byte((grp[0] >> 2) as int),
                b64_byte((((grp[0] & 3) << 4) | (grp[1] >> 4)) as int),
                b64_byte((((grp[1] & 15) << 2) | (grp[2] >> 6)) as int),
                b64_byte((grp[2] & 63) as int),
            ];
            assert(b64url_bytes(grp) == head + b64url_bytes(grp.skip(3)));
            assert(b64url_bytes(grp) =~= head);
            assert(grp[0] == x && grp[1] == y && grp[2] == z);
            assert(out@ =~= b64url_bytes(input@.take(i + 3)));
        }
        i = i + 3;
    }
    if i < n && n - i == 1 {
        let x = input[i];
        proof {
            lemma_group_bits(x, x, x);
        }
        out.push(byte_for(x >> 2));
        out.push(byte_for((x & 3) << 4));
        proof {
            let pre = input@.take(i as int);
            let grp = input@.subrange(i as int, n as int);
            assert(pre + grp =~= input@);
            lemma_b64url_append(pre, grp);
            assert(grp.len() == 1 && grp[0] == x);
            assert(out@ =~= b64url_bytes(input@));
        }
    } else if i < n && n - i == 2 {
        let x = input[i];
        let y = input[i + 1];
        proof {
            lemma_group_bits(x, y, x);
        }
        out.push(byte_for(x >> 2));
        out.push(byte_for(((x & 3) << 4) | (y >> 4)));
        out.push(byte_for((y & 15) << 2));
        proof {
            let pre = input@.take(i as int);
            let grp = input@.subrange(i as int, n as int);
            assert(pre + grp =~= input@);
            lemma_b64url_append(pre, grp);
            assert(grp.len() == 2 && grp[0] == x && grp[1] == y);
            assert(out@ =~= b64url_bytes(input@));
        }
    } else {
        proof {
            assert(input@.take(i as int) =~= input@);
        }
    }
    out
}

} // verus!
