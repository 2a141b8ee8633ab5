//! Byte-level building blocks shared by the wire formats: big-endian `u64`
//! fields and UTF-8 string segments.

use vstd::prelude::*;

verus! {

/// The eight big-endian bytes of a `u64`.
pub open spec fn spec_u64_to_bytes(x: u64) -> Seq<u8> {
    seq![
        (x >> 56) as u8,
        (x >> 48) as u8,
        (x >> 40) as u8,
        (x >> 32) as u8,
        (x >> 24) as u8,
        (x >> 16) as u8,
        (x >> 8) as u8,
        x as u8,
    ]
}

/// The `u64` read back from eight big-endian bytes.
pub open spec fn spec_bytes_to_u64(b: Seq<u8>) -> u64
    recommends
        b.len() == 8,
{
    ((b[0] as u64) << 56) | ((b[1] as u64) << 48) | ((b[2] as u64) << 40) | ((b[3] as u64) << 32)
        | ((b[4] as u64) << 24) | ((b[5] as u64) << 16) | ((b[6] as u64) << 8) | (b[7] as u64)
}

/// Reading the eight big-endian bytes of a `u64` yields the number back.
pub proof fn lemma_u64_bytes_roundtrip(x: u64)
    ensures
        spec_bytes_to_u64(spec_u64_to_bytes(x)) == x,
{
    assert((((((x >> 56) as u8) as u64) << 56) | ((((x >> 48) as u8) as u64) << 48) | ((((x >> 40)
        as u8) as u64) << 40) | ((((x >> 32) as u8) as u64) << 32) | ((((x >> 24) as u8) as u64)
        << 24) | ((((x >> 16) as u8) as u64) << 16) | ((((x >> 8) as u8) as u64) << 8) | ((x
        as u8) as u64)) == x) by (bit_vector);
}

/// Appends the eight big-endian bytes of `x` to `dst`.
pub fn push_u64_be(dst: &mut Vec<u8>, x: u64)
    ensures
        final(dst)@ == old(dst)@ + spec_u64_to_bytes(x),
{
    dst.push((x >> 56) as u8);
    dst.push((x >> 48) as u8);
    dst.push((x >> 40) as u8);
    dst.push((x >> 32) as u8);
    dst.push((x >> 24) as u8);
    dst.push((x >> 16) as u8);
    dst.push((x >> 8) as u8);
    dst.push(x as u8);
    proof {
        assert(dst@ =~= old(dst)@ + spec_u64_to_bytes(x));
    }
}

/// Reads the big-endian `u64` stored at offset `off` of `b`.
pub fn read_u64_be(b: &Vec<u8>, off: usize) -> (r: u64)
    requires
        off + 8 <= b@.len(),
    ensures
        r == spec_bytes_to_u64(b@.subrange(off as int, off as int + 8)),
{
    let n = b.len();
    assert(off + 8 <= n);
    let r = ((b[off] as u64) << 56) | ((b[off + 1] as u64) << 48) | ((b[off + 2] as u64) << 40) | (
    (b[off + 3] as u64) << 32) | ((b[off + 4] as u64) << 24) | ((b[off + 5] as u64) << 16) | ((b[off
        + 6] as u64) << 8) | (b[off + 7] as u64);
    proof {
        let s = b@.subrange(off as int, off as int + 8);
        assert(s[0] == b@[off as int]);
        assert(s[1] == b@[off as int + 1]);
        assert(s[2] == b@[off as int + 2]);
        assert(s[3] == b@[off as int + 3]);
        assert(s[4] == b@[off as int + 4]);
        assert(s[5] == b@[off as int + 5]);
        assert(s[6] == b@[off as int + 6]);
        assert(s[7] == b@[off as int + 7]);
    }
    r
}

/// Appends all of `src` to `dst`.
pub fn push_bytes(dst: &mut Vec<u8>, src: &Vec<u8>)
    ensures
        final(dst)@ == old(dst)@ + src@,
{
    let mut i: usize = 0;
    while i < src.len()
        invariant
            i <= src@.len(),
            dst@ == old(dst)@ + src@.subrange(0, i as int),
        decreases src@.len() - i,
    {
        dst.push(src[i]);
        i = i + 1;
        proof {
            assert(old(dst)@ + src@.subrange(0, i - 1) + seq![src@[i - 1]] =~= old(dst)@
                + src@.subrange(0, i as int));
        }
    }
    proof {
        assert(src@.subrange(0, src@.len() as int) =~= src@);
    }
}

/// Copies `b[off..]` into a fresh vector.
pub fn copy_tail(b: &Vec<u8>, off: usize) -> (r: Vec<u8>)
    requires
        off <= b@.len(),
    ensures
        r@ == b@.subrange(off as int, b@.len() as int),
{
    let mut r: Vec<u8> = Vec::new();
    let mut i: usize = off;
    while i < b.len()
        invariant
            off <= i <= b@.len(),
            r@ == b@.subrange(off as int, i as int),
        decreases b@.len() - i,
    {
        r.push(b[i]);
        i = i + 1;
        proof {
            assert(b@.subrange(off as int, i - 1) + seq![b@[i - 1]] =~= b@.subrange(
                off as int,
                i as int,
            ));
        }
    }
    r
}

/// Copies `b[off..off + n]` into a fresh vector.
pub fn copy_range(b: &Vec<u8>, off: usize, n: usize) -> (r: Vec<u8>)
    requires
        off + n <= b@.len(),
    ensures
        r@ == b@.subrange(off as int, off as int + n as int),
{
    let len = b.len();
    assert(off + n <= len);
    let mut r: Vec<u8> = Vec::new();
    let mut i: usize = 0;
    while i < n
        invariant
            i <= n,
            off + n <= len,
            len == b@.len(),
            r@ == b@.subrange(off as int, off as int + i as int),
        decreases n - i,
    {
        r.push(b[off + i]);
        i = i + 1;
        proof {
            assert(b@.subrange(off as int, off as int + i - 1) + seq![b@[off as int + i - 1]]
                =~= b@.subrange(off as int, off as int + i as int));
        }
    }
    r
}

/// Copies a byte vector.
pub fn clone_bytes(b: &Vec<u8>) -> (r: Vec<u8>)
    ensures
        r@ == b@,
{
    let r = copy_tail(b, 0);
    proof {
        assert(b@.subrange(0, b@.len() as int) =~= b@);
    }
    r
}

/// Relies on `String::from_utf8` (std): it succeeds exactly on valid UTF-8
/// input and then returns the string made of those bytes.
#[verifier::external_body]
pub fn string_from_utf8(v: Vec<u8>) -> (r: Option<String>)
    ensures
        r is Some <==> vstd::utf8::valid_utf8(v@),
        r matches Some(s) ==> s@ == vstd::utf8::decode_utf8(v@) && vstd::utf8::encode_utf8(s@)
            == v@,
{
    match String::from_utf8(v) {
        Ok(s) => Some(s),
        Err(_) => None,
    }
}

} // verus!
