//! The build-side message model: a growing buffer that already holds
//! the 20-byte header, to which completed attribute encodings are
//! appended one after another. Appending an attribute first sets the
//! header's declared-length field to cover the attribute about to be
//! written, so that length-sensitive attributes hash the right prefix.

use crate::error::Error;
use crate::header::{header_bytes, header_ok, msg_type_code, Class, Method, TransactionId};
use crate::parse::{
    attr_at, lemma_spans_valid_frame, lemma_spans_valid_snoc, spans_valid, AttrSpan,
};
use crate::wire::{buf_be16, pad4, round_up4, with_len_field, zero_bytes};
use vstd::prelude::*;

verus! {

/// The bytes of one encoded attribute: the type and length header,
/// the value, and the alignment padding.
pub open spec fn attr_bytes(type_code: u16, value: Seq<u8>) -> Seq<u8> {
    seq![
        (type_code / 256) as u8,
        (type_code % 256) as u8,
        ((value.len() as int) / 256) as u8,
        ((value.len() as int) % 256) as u8,
    ] + value + zero_bytes(pad4(value.len() as int) - value.len())
}

/// The span that appending a `len`-byte value at offset `begin`
/// creates.
pub open spec fn span_of(begin: int, type_code: u16, len: int) -> AttrSpan {
    AttrSpan {
        type_code,
        begin: begin as usize,
        value_begin: (begin + 4) as usize,
        value_end: (begin + 4 + len) as usize,
        padding_end: (begin + 4 + pad4(len)) as usize,
    }
}

/// Appending one encoded attribute to a well-formed message buffer,
/// with the declared length set first, keeps the header well-formed
/// and extends the span chain by exactly the new attribute's span.
#[verifier::rlimit(60)]
proof fn lemma_attr_appended(
    old_bytes: Seq<u8>,
    spans: Seq<AttrSpan>,
    type_code: u16,
    value: Seq<u8>,
)
    requires
        header_ok(old_bytes),
        spans_valid(old_bytes, spans, 20, old_bytes.len() as int),
        old_bytes.len() % 4 == 0,
        value.len() <= 0xFFFF,
        old_bytes.len() + 4 + pad4(value.len() as int) <= 20 + 0xFFFF,
    ensures
        ({
            let begin = old_bytes.len() as int;
            let vlen = value.len() as int;
            let nd = begin + 4 + pad4(vlen) - 20;
            let nb = with_len_field(old_bytes, nd) + attr_bytes(type_code, value);
            &&& nb.len() == begin + 4 + pad4(vlen)
            &&& nb.len() % 4 == 0
            &&& nb.take(begin) == with_len_field(old_bytes, nd)
            &&& header_ok(nb)
            &&& attr_at(nb, begin, span_of(begin, type_code, vlen))
            &&& spans_valid(nb, spans.push(span_of(begin, type_code, vlen)), 20, nb.len() as int)
        }),
{
    let begin = old_bytes.len() as int;
    let vlen = value.len() as int;
    let nd = begin + 4 + pad4(vlen) - 20;
    let wlf = with_len_field(old_bytes, nd);
    let ab = attr_bytes(type_code, value);
    let nb = wlf + ab;
    let span = span_of(begin, type_code, vlen);

    assert(vlen % 4 == 0 ==> pad4(vlen) == vlen);
    assert(vlen % 4 != 0 ==> pad4(vlen) == vlen + 4 - vlen % 4);
    assert(pad4(vlen) % 4 == 0);
    assert(ab.len() == 4 + pad4(vlen));
    assert(nb.len() == begin + 4 + pad4(vlen));
    assert(nb.take(begin) =~= wlf);

    // The prefix is the old buffer with only bytes 2 and 3 rewritten.
    assert(forall|j: int| 0 <= j < begin && j != 2 && j != 3 ==> nb[j] == old_bytes[j]);
    assert(nb[2] == (nd / 256) as u8);
    assert(nb[3] == (nd % 256) as u8);
    assert(buf_be16(nb, 2) == nd);
    assert(header_ok(nb));

    // The old chain still reads the same bytes.
    lemma_spans_valid_frame(old_bytes, nb, spans, 20, begin);

    // The new attribute's header bytes read back as written.
    assert(nb[begin] == (type_code / 256) as u8);
    assert(nb[begin + 1] == (type_code % 256) as u8);
    assert(nb[begin + 2] == (vlen / 256) as u8);
    assert(nb[begin + 3] == (vlen % 256) as u8);
    assert(buf_be16(nb, begin) == type_code);
    assert(buf_be16(nb, begin + 2) == vlen);
    assert((begin + 4 + vlen) % 4 == vlen % 4) by {
        assert(begin % 4 == 0);
    }
    assert(pad4(begin + 4 + vlen) == begin + 4 + pad4(vlen));
    assert(attr_at(nb, begin, span));

    lemma_spans_valid_snoc(nb, spans, 20, begin, span);
}

/// An in-progress outgoing message: the header is in place from the
/// start, attributes are appended one at a time, and the declared
/// length always covers everything already appended.
pub struct MessageBuilder {
    buffer: Vec<u8>,
    spans: Ghost<Seq<AttrSpan>>,
}

impl MessageBuilder {
    /// The bytes written so far.
    pub closed spec fn bytes(&self) -> Seq<u8> {
        self.buffer@
    }

    /// The spans of the attributes appended so far, in order.
    pub closed spec fn spans_seq(&self) -> Seq<AttrSpan> {
        self.spans@
    }

    /// The builder's invariant: a well-formed header whose declared
    /// length matches the buffer, a valid span chain covering the
    /// attribute region, and four-byte alignment throughout.
    pub open spec fn wf(&self) -> bool {
        &&& header_ok(self.bytes())
        &&& spans_valid(self.bytes(), self.spans_seq(), 20, self.bytes().len() as int)
        &&& self.bytes().len() % 4 == 0
    }

    /// Starts a message: 20 header bytes with a zero length field.
    pub fn new(class: Class, method: Method, transaction_id: &TransactionId) -> (r: Self)
        ensures
            r.wf(),
            r.bytes() == header_bytes(msg_type_code(class, method), transaction_id@),
            r.bytes().len() == 20,
            r.spans_seq() == Seq::<AttrSpan>::empty(),
    {
        proof {
            crate::header::lemma_transaction_id_len(transaction_id);
        }
        let t = msg_type(class, method);
        let mut buffer: Vec<u8> = Vec::new();
        buffer.push((t / 256) as u8);
        buffer.push((t % 256) as u8);
        buffer.push(0);
        buffer.push(0);
        buffer.push(0x21);
        buffer.push(0x12);
        buffer.push(0xa4);
        buffer.push(0x42);
        let mut i: usize = 0;
        while i < 12
            invariant
                i <= 12,
                transaction_id@.len() == 12,
                buffer@.len() == 8 + i,
                buffer@ == header_bytes(msg_type_code(class, method), transaction_id@).take(
                    8 + i as int,
                ),
            decreases 12 - i,
        {
            buffer.push(transaction_id.byte_at(i));
            proof {
                let hb = header_bytes(msg_type_code(class, method), transaction_id@);
                assert(hb.take(8 + i as int).push(transaction_id@[i as int]) =~= hb.take(
                    8 + (i + 1) as int,
                ));
            }
            i = i + 1;
        }
        proof {
            let hb = header_bytes(msg_type_code(class, method), transaction_id@);
            assert(buffer@ =~= hb);
            assert(buf_be16(buffer@, 2) == 0);
        }
        MessageBuilder { buffer, spans: Ghost(Seq::empty()) }
    }

    /// A read-only view of the bytes written so far.
    pub fn buffer(&self) -> (r: &Vec<u8>)
        ensures
            r@ == self.bytes(),
    {
        &self.buffer
    }

    /// Overwrites the header's declared-length field.
    pub(crate) fn set_len(&mut self, len_val: u16)
        requires
            old(self).bytes().len() >= 4,
        ensures
            final(self).bytes() == with_len_field(old(self).bytes(), len_val as int),
            final(self).spans_seq() == old(self).spans_seq(),
    {
        self.buffer[2] = (len_val / 256) as u8;
        self.buffer[3] = (len_val % 256) as u8;
    }

    /// Appends one complete attribute: the four-byte header, the given
    /// value, and zero padding to the next four-byte boundary. The
    /// header's declared-length field is set to cover the new
    /// attribute before its bytes are written. Fails, leaving the
    /// message untouched, when the value or the grown message would
    /// not fit its 16-bit length field.
    pub fn add_attr_raw(&mut self, type_code: u16, value: &Vec<u8>) -> (r: Result<(), Error>)
        requires
            old(self).wf(),
        ensures
            r is Ok <==> value@.len() <= 0xFFFF && old(self).bytes().len() + 4 + pad4(
                value@.len() as int,
            ) <= 20 + 0xFFFF,
            r matches Err(e) ==> e is Overflow && final(self).bytes() == old(self).bytes()
                && final(self).spans_seq() == old(self).spans_seq(),
            r is Ok ==> ({
                let begin = old(self).bytes().len() as int;
                let vlen = value@.len() as int;
                let nd = begin + 4 + pad4(vlen) - 20;
                &&& final(self).wf()
                &&& final(self).bytes() == with_len_field(old(self).bytes(), nd) + attr_bytes(
                    type_code,
                    value@,
                )
                &&& final(self).bytes().take(begin) == with_len_field(old(self).bytes(), nd)
                &&& final(self).bytes().len() == begin + 4 + pad4(vlen)
                &&& final(self).spans_seq() == old(self).spans_seq().push(
                    span_of(begin, type_code, vlen),
                )
                &&& attr_at(final(self).bytes(), begin, span_of(begin, type_code, vlen))
            }),
    {
        let vlen = value.len();
        if vlen > 0xFFFF {
            return Err(Error::Overflow);
        }
        let padded = round_up4(vlen);
        let begin = self.buffer.len();
        if begin + 4 + padded > 20 + 0xFFFF {
            return Err(Error::Overflow);
        }
        proof {
            lemma_attr_appended(self.bytes(), self.spans@, type_code, value@);
        }
        let new_declared = begin + 4 + padded - 20;
        self.set_len(new_declared as u16);
        self.buffer.push((type_code / 256) as u8);
        self.buffer.push((type_code % 256) as u8);
        let vlen16 = vlen as u16;
        self.buffer.push((vlen16 / 256) as u8);
        self.buffer.push((vlen16 % 256) as u8);
        self.buffer.extend_from_slice(value.as_slice());
        let ghost base = with_len_field(old(self).bytes(), new_declared as int) + seq![
            (type_code / 256) as u8,
            (type_code % 256) as u8,
            ((vlen as int) / 256) as u8,
            ((vlen as int) % 256) as u8,
        ] + value@;
        assert(self.buffer@ =~= base);
        let mut p = vlen;
        while p < padded
            invariant
                vlen <= p <= padded,
                self.buffer@ == base + zero_bytes(p - vlen),
                self.spans@ == old(self).spans@,
            decreases padded - p,
        {
            self.buffer.push(0);
            proof {
                assert((base + zero_bytes(p - vlen)).push(0u8) =~= base + zero_bytes(
                    p + 1 - vlen,
                ));
            }
            p = p + 1;
        }
        proof {
            assert(self.buffer@ =~= with_len_field(old(self).bytes(), new_declared as int)
                + attr_bytes(type_code, value@));
        }
        let ghost span = span_of(begin as int, type_code, vlen as int);
        self.spans = Ghost(self.spans@.push(span));
        Ok(())
    }

    /// Hands the finished message over as raw bytes.
    pub fn finish(self) -> (r: Vec<u8>)
        ensures
            r@ == self.bytes(),
    {
        self.buffer
    }
}

/// The 16-bit message type word for a class and method.
fn msg_type(class: Class, method: Method) -> (r: u16)
    ensures
        r == msg_type_code(class, method),
        r < 0x4000,
{
    let mm: u16 = match method {
        Method::Binding => 1,
    };
    let cc: u16 = match class {
        Class::Request => 0,
        Class::Indication => 1,
        Class::SuccessResponse => 2,
        Class::ErrorResponse => 3,
    };
    (mm % 16) + (cc % 2) * 16 + ((mm / 16) % 8) * 32 + (cc / 2) * 256 + (mm / 128) * 512
}

} // verus!
