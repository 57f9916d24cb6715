//! Byte-level primitives shared by the parser and the builder:
//! big-endian integer fields, four-byte alignment, and the
//! declared-length field of the message header.

use vstd::prelude::*;

verus! {

/// The value of a 16-bit big-endian field with bytes `hi`, `lo`.
pub open spec fn be16(hi: u8, lo: u8) -> int {
    hi * 256 + lo
}

/// The 16-bit big-endian field at offset `i` of `buf`.
pub open spec fn buf_be16(buf: Seq<u8>, i: int) -> int {
    be16(buf[i], buf[i + 1])
}

/// The value of a 32-bit big-endian field.
pub open spec fn be32(b0: u8, b1: u8, b2: u8, b3: u8) -> int {
    ((b0 * 256 + b1) * 256 + b2) * 256 + b3
}

/// The 32-bit big-endian field at offset `i` of `buf`.
pub open spec fn buf_be32(buf: Seq<u8>, i: int) -> int {
    be32(buf[i], buf[i + 1], buf[i + 2], buf[i + 3])
}

/// `n` rounded up to the next multiple of four: attribute values are
/// padded to four-byte boundaries on the wire.
pub open spec fn pad4(n: int) -> int {
    if n % 4 == 0 {
        n
    } else {
        n + (4 - n % 4)
    }
}

/// `n` zero bytes, as written after a value to reach alignment.
pub open spec fn zero_bytes(n: int) -> Seq<u8> {
    Seq::new(n as nat, |i: int| 0u8)
}

/// `buf` with the header's declared-length field (bytes 2 and 3,
/// big-endian) set to `len_val`.
pub open spec fn with_len_field(buf: Seq<u8>, len_val: int) -> Seq<u8> {
    buf.update(2, (len_val / 256) as u8).update(3, (len_val % 256) as u8)
}

/// Reads the 16-bit big-endian field at offset `i`.
pub fn read_u16_be(buf: &Vec<u8>, i: usize) -> (r: u16)
    requires
        i + 2 <= buf.len(),
    ensures
        r == buf_be16(buf@, i as int),
{
    (buf[i] as u16) * 256 + (buf[i + 1] as u16)
}

/// Reads the 32-bit big-endian field at offset `i`.
pub fn read_u32_be(buf: &Vec<u8>, i: usize) -> (r: u32)
    requires
        i + 4 <= buf.len(),
    ensures
        r == buf_be32(buf@, i as int),
{
    (((buf[i] as u32) * 256 + (buf[i + 1] as u32)) * 256 + (buf[i + 2] as u32)) * 256
        + (buf[i + 3] as u32)
}

/// Rounds `n` up to the next multiple of four.
pub fn round_up4(n: usize) -> (r: usize)
    requires
        n + 3 <= usize::MAX,
    ensures
        r == pad4(n as int),
{
    let rem: usize = n % 4;
    if rem == 0 {
        n
    } else {
        n + (4 - rem)
    }
}

/// Copies `buf[start..end]` into a fresh vector.
pub fn copy_range(buf: &Vec<u8>, start: usize, end: usize) -> (r: Vec<u8>)
    requires
        start <= end <= buf.len(),
    ensures
        r@ == buf@.subrange(start as int, end as int),
{
    let mut out: Vec<u8> = Vec::new();
    let mut i: usize = start;
    while i < end
        invariant
            start <= i <= end <= buf.len(),
            out@ == buf@.subrange(start as int, i as int),
        decreases end - i,
    {
        out.push(buf[i]);
        proof {
            assert(buf@.subrange(start as int, i as int).push(buf@[i as int]) =~= buf@.subrange(
                start as int,
                i + 1,
            ));
        }
        i = i + 1;
    }
    out
}

/// Byte-for-byte comparison of two buffers.
pub fn bytes_equal(a: &Vec<u8>, b: &Vec<u8>) -> (r: bool)
    ensures
        r <==> a@ == b@,
{
    if a.len() != b.len() {
        return false;
    }
    let n = a.len();
    let mut i: usize = 0;
    while i < n
        invariant
            n == a.len() == b.len(),
            i <= n,
            forall|j: int| 0 <= j < i ==> a@[j] == b@[j],
        decreases n - i,
    {
        if a[i] != b[i] {
            return false;
        }
        i = i + 1;
    }
    proof {
        assert(a@ =~= b@);
    }
    true
}

/// Splits `v` into its four big-endian bytes.
pub fn u32_be_bytes(v: u32) -> (r: Vec<u8>)
    ensures
        r@.len() == 4,
        be32(r@[0], r@[1], r@[2], r@[3]) == v,
{
    let b0 = (v >> 24) as u8;
    let b1 = ((v >> 16) & 0xff) as u8;
    let b2 = ((v >> 8) & 0xff) as u8;
    let b3 = (v & 0xff) as u8;
    assert(((((v >> 24) as u8) * 256 + (((v >> 16) & 0xff) as u8)) * 256 + (((v >> 8) & 0xff)
        as u8)) * 256 + ((v & 0xff) as u8) == v) by (bit_vector);
    let mut r: Vec<u8> = Vec::new();
    r.push(b0);
    r.push(b1);
    r.push(b2);
    r.push(b3);
    r
}

/// Copies the first `end` bytes of `buf` and sets the declared-length
/// field of the copy to `len_val`: the effective-length prefix that the
/// security attributes hash, built without mutating the message itself.
pub fn prefix_with_len(buf: &Vec<u8>, end: usize, len_val: usize) -> (r: Vec<u8>)
    requires
        4 <= end <= buf.len(),
        len_val <= 0xFFFF,
    ensures
        r@ == with_len_field(buf@.take(end as int), len_val as int),
{
    let mut out = copy_range(buf, 0, end);
    out[2] = (len_val / 256) as u8;
    out[3] = (len_val % 256) as u8;
    proof {
        assert(buf@.subrange(0, end as int) =~= buf@.take(end as int));
    }
    out
}

} // verus!
