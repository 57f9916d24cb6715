//! FINGERPRINT (RFC 8489, section 14.7): a CRC-32 checksum over every
//! byte of the message before this attribute, XORed with a fixed
//! constant, letting a receiver cheaply recognize STUN traffic.

use crate::builder::{span_of, MessageBuilder};
use crate::error::Error;
use crate::header::header_ok;
use crate::parse::{
    lemma_parse_round_trip, lemma_span_in_message, parse_ok, spans_valid, AttrSpan, Message,
};
use crate::wire::{buf_be32, copy_range, prefix_with_len, read_u32_be, with_len_field, u32_be_bytes};
use vstd::prelude::*;

verus! {

/// Attribute type code of FINGERPRINT.
pub const FINGERPRINT_TYPE: u16 = 0x8028;

/// The fixed mask applied to the checksum ("STUN" in ASCII).
pub const FINGERPRINT_XOR: u32 = 0x5354554e;

/// The FINGERPRINT attribute. It carries no payload of its own:
/// decoding verifies the checksum, encoding appends it.
#[derive(Debug)]
pub struct Fingerprint;

/// One division step of the reflected CRC-32 polynomial 0xEDB88320.
pub open spec fn crc32_round(c: u32) -> u32 {
    if c & 1 == 1 {
        0xedb88320u32 ^ (c >> 1)
    } else {
        c >> 1
    }
}

/// `k` division steps applied to `c`.
pub open spec fn crc32_rounds(c: u32, k: nat) -> u32
    decreases k,
{
    if k == 0 {
        c
    } else {
        crc32_round(crc32_rounds(c, (k - 1) as nat))
    }
}

/// One table entry: eight division steps on the byte value.
pub open spec fn crc32_table_entry(n: u32) -> u32 {
    crc32_rounds(n, 8)
}

/// Folding one byte into the running remainder.
pub open spec fn crc32_step(c: u32, b: u8) -> u32 {
    crc32_table_entry((c ^ (b as u32)) & 0xff) ^ (c >> 8)
}

/// Folding a whole buffer into the remainder, last byte outermost.
pub open spec fn crc32_fold(c: u32, s: Seq<u8>) -> u32
    decreases s.len(),
{
    if s.len() == 0 {
        c
    } else {
        crc32_step(crc32_fold(c, s.drop_last()), s.last())
    }
}

/// The CRC-32 checksum of `s`, continuing from `crc`: initial and
/// final complement around the byte fold.
pub open spec fn crc32_update_spec(crc: u32, s: Seq<u8>) -> u32 {
    crc32_fold(crc ^ 0xffffffffu32, s) ^ 0xffffffffu32
}

/// The standard reflected CRC-32 checksum of `s`, as used by zlib and
/// Ethernet.
pub open spec fn crc32_spec(s: Seq<u8>) -> u32 {
    crc32_update_spec(0, s)
}

/// The stored fingerprint value equals the checksum of everything
/// before the attribute's header, XORed with the fixed mask.
pub open spec fn fingerprint_check(buf: Seq<u8>, span: AttrSpan) -> bool {
    &&& span.value_end - span.value_begin == 4
    &&& buf_be32(buf, span.value_begin as int) == (crc32_spec(buf.take(span.begin as int))
        ^ FINGERPRINT_XOR)
}

impl Fingerprint {
    /// The 256-entry lookup table of the reflected polynomial.
    pub fn crc32_table() -> (r: Vec<u32>)
        ensures
            r@.len() == 256,
            forall|k: int| 0 <= k < 256 ==> r@[k] == crc32_table_entry(k as u32),
    {
        let mut table: Vec<u32> = Vec::new();
        let mut n: u32 = 0;
        while n < 256
            invariant
                n <= 256,
                table@.len() == n,
                forall|k: int| 0 <= k < n ==> table@[k] == crc32_table_entry(k as u32),
            decreases 256 - n,
        {
            let mut c: u32 = n;
            let mut k: usize = 0;
            while k < 8
                invariant
                    k <= 8,
                    c == crc32_rounds(n, k as nat),
                decreases 8 - k,
            {
                if c & 1 == 1 {
                    c = 0xedb88320 ^ (c >> 1);
                } else {
                    c = c >> 1;
                }
                k = k + 1;
            }
            table.push(c);
            n = n + 1;
        }
        table
    }

    /// Continues a CRC-32 computation over `buf`.
    pub fn update_crc32(crc: u32, buf: &Vec<u8>) -> (r: u32)
        ensures
            r == crc32_update_spec(crc, buf@),
    {
        let table = Self::crc32_table();
        let mut c: u32 = crc ^ 0xffffffff;
        let mut n: usize = 0;
        while n < buf.len()
            invariant
                n <= buf.len(),
                table@.len() == 256,
                forall|k: int| 0 <= k < 256 ==> table@[k] == crc32_table_entry(k as u32),
                c == crc32_fold(crc ^ 0xffffffffu32, buf@.take(n as int)),
            decreases buf.len() - n,
        {
            let b = buf[n];
            assert(((c ^ (b as u32)) & 0xff) < 256) by (bit_vector);
            let idx = ((c ^ (b as u32)) & 0xff) as usize;
            c = table[idx] ^ (c >> 8);
            proof {
                assert(buf@.take(n + 1).drop_last() =~= buf@.take(n as int));
                assert(buf@.take(n + 1).last() == buf@[n as int]);
            }
            n = n + 1;
        }
        proof {
            assert(buf@.take(buf@.len() as int) =~= buf@);
        }
        c ^ 0xffffffff
    }

    /// The CRC-32 checksum of `buf`.
    pub fn crc32(buf: &Vec<u8>) -> (r: u32)
        ensures
            r == crc32_spec(buf@),
    {
        Self::update_crc32(0, buf)
    }

    /// Verifies a received FINGERPRINT attribute: the value must be
    /// exactly four bytes and must equal the masked checksum of every
    /// byte before the attribute's header.
    pub fn decode(msg: &Message, span: AttrSpan) -> (r: Result<Fingerprint, Error>)
        requires
            msg.wf(),
            msg.spans_seq().contains(span),
        ensures
            r is Ok <==> fingerprint_check(msg.bytes(), span),
            r matches Err(e) ==> e is InvalidData,
    {
        proof {
            lemma_span_in_message(msg.bytes(), msg.spans_seq(), span);
        }
        if span.value_end - span.value_begin != 4 {
            return Err(Error::InvalidData("fingerprint value must be 4 bytes"));
        }
        let buffer = msg.raw();
        let data = copy_range(buffer, 0, span.begin);
        proof {
            assert(buffer@.subrange(0, span.begin as int) =~= msg.bytes().take(span.begin as int));
        }
        let crc = Self::crc32(&data) ^ FINGERPRINT_XOR;
        let stored = read_u32_be(buffer, span.value_begin);
        if crc != stored {
            return Err(Error::InvalidData("failed to verify message fingerprint"));
        }
        Ok(Fingerprint)
    }

    /// Appends a FINGERPRINT attribute: the checksum is computed over
    /// the message as it will stand, with the declared length already
    /// counting this attribute.
    pub fn encode(&self, builder: &mut MessageBuilder) -> (r: Result<(), Error>)
        requires
            old(builder).wf(),
        ensures
            r is Ok <==> old(builder).bytes().len() + 8 <= 20 + 0xFFFF,
            r matches Err(e) ==> e is Overflow && final(builder).bytes() == old(builder).bytes()
                && final(builder).spans_seq() == old(builder).spans_seq(),
            r is Ok ==> ({
                let begin = old(builder).bytes().len() as int;
                let span = span_of(begin, FINGERPRINT_TYPE, 4);
                &&& final(builder).wf()
                &&& final(builder).bytes().len() == begin + 8
                &&& final(builder).bytes().take(begin) == with_len_field(
                    old(builder).bytes(),
                    begin + 8 - 20,
                )
                &&& final(builder).spans_seq() == old(builder).spans_seq().push(span)
                &&& fingerprint_check(final(builder).bytes(), span)
            }),
    {
        let begin = builder.buffer().len();
        if begin + 8 > 20 + 0xFFFF {
            return Err(Error::Overflow);
        }
        let new_declared = begin + 8 - 20;
        let data = prefix_with_len(builder.buffer(), begin, new_declared);
        proof {
            assert(old(builder).bytes().take(begin as int) =~= old(builder).bytes());
        }
        let crc = Self::crc32(&data) ^ FINGERPRINT_XOR;
        let value = u32_be_bytes(crc);
        let res = builder.add_attr_raw(FINGERPRINT_TYPE, &value);
        proof {
            let nb = builder.bytes();
            let span = span_of(begin as int, FINGERPRINT_TYPE, 4);
            assert(nb.take(begin as int) == data@);
            assert(nb[begin + 4] == value@[0]);
            assert(nb[begin + 5] == value@[1]);
            assert(nb[begin + 6] == value@[2]);
            assert(nb[begin + 7] == value@[3]);
            assert(buf_be32(nb, begin + 4) == crc);
            assert(fingerprint_check(nb, span));
        }
        res
    }

    /// The value length of FINGERPRINT, always four bytes.
    pub fn encode_len(&self) -> (r: Result<u16, Error>)
        ensures
            r == Ok::<u16, Error>(4u16),
    {
        Ok(4)
    }
}

/// The fingerprint verdict reads only the bytes up to the attribute's
/// own value: its protected range covers everything before its header
/// — the declared-length field and any earlier integrity attribute
/// among it — and nothing after its stored checksum.
pub proof fn lemma_fingerprint_reads_only_preceding_bytes(
    buf1: Seq<u8>,
    buf2: Seq<u8>,
    span: AttrSpan,
)
    requires
        span.value_begin == span.begin + 4,
        span.value_begin <= span.value_end,
        span.value_end <= buf1.len(),
        span.value_end <= buf2.len(),
        forall|j: int| 0 <= j < span.value_end ==> buf1[j] == buf2[j],
    ensures
        fingerprint_check(buf1, span) == fingerprint_check(buf2, span),
{
    assert(buf1.take(span.begin as int) =~= buf2.take(span.begin as int));
}

/// Round trip for FINGERPRINT: a complete message whose fingerprint
/// attribute matches its preceding bytes parses back to exactly the
/// spans it was built with, and verification of that span succeeds —
/// `Fingerprint::decode` returns `Ok` precisely on `fingerprint_check`.
pub proof fn lemma_fingerprint_round_trip(buf: Seq<u8>, spans: Seq<AttrSpan>, i: int)
    requires
        header_ok(buf),
        spans_valid(buf, spans, 20, buf.len() as int),
        0 <= i < spans.len(),
        fingerprint_check(buf, spans[i]),
    ensures
        parse_ok(buf),
        forall|other: Seq<AttrSpan>|
            spans_valid(buf, other, 20, buf.len() as int) ==> other == spans,
        spans.contains(spans[i]),
        fingerprint_check(buf, spans[i]),
{
    lemma_parse_round_trip(buf, spans);
}

} // verus!
