//! The parse-side message model: one linear scan enumerates the span
//! of every attribute in the buffer; each attribute codec later
//! re-reads its own byte range through these spans.

use crate::error::Error;
use crate::header::header_ok;
use crate::wire::{buf_be16, pad4, read_u16_be, round_up4};
use vstd::prelude::*;

verus! {

/// The location of one attribute occurrence inside a message buffer:
/// the four-byte type+length header starts at `begin`, the value is
/// `[value_begin, value_end)`, and `padding_end` is `value_end` rounded
/// up to a four-byte boundary.
#[derive(Debug, Clone, Copy, PartialEq, Eq, Structural)]
pub struct AttrSpan {
    pub type_code: u16,
    pub begin: usize,
    pub value_begin: usize,
    pub value_end: usize,
    pub padding_end: usize,
}

/// One attribute with span `s` sits at offset `start` of `buf`: its
/// header bytes declare exactly the type and value length that the
/// span records, and the padded value lies inside the buffer.
pub open spec fn attr_at(buf: Seq<u8>, start: int, s: AttrSpan) -> bool {
    &&& s.begin == start
    &&& start + 4 <= buf.len()
    &&& s.type_code == buf_be16(buf, start)
    &&& s.value_begin == start + 4
    &&& s.value_end == start + 4 + buf_be16(buf, start + 2)
    &&& s.padding_end == pad4(s.value_end as int)
    &&& s.padding_end <= buf.len()
}

/// `spans` is the chain of attributes that fills `buf` from `start` to
/// `end`: each span begins where the previous padded value stopped.
pub open spec fn spans_valid(buf: Seq<u8>, spans: Seq<AttrSpan>, start: int, end: int) -> bool
    decreases spans.len(),
{
    if spans.len() == 0 {
        start == end
    } else {
        attr_at(buf, start, spans[0]) && spans_valid(
            buf,
            spans.drop_first(),
            spans[0].padding_end as int,
            end,
        )
    }
}

/// The attribute walk from `start` reaches the end of `buf` without
/// any header or padded value running out of bounds.
pub open spec fn attrs_ok(buf: Seq<u8>, start: int) -> bool
    decreases buf.len() - start,
{
    if start == buf.len() {
        true
    } else if start + 4 > buf.len() {
        false
    } else {
        let pe = pad4(start + 4 + buf_be16(buf, start + 2));
        pe <= buf.len() && attrs_ok(buf, pe)
    }
}

/// What `Message::parse` accepts: a well-formed header and a clean
/// attribute walk over the rest of the buffer.
pub open spec fn parse_ok(buf: Seq<u8>) -> bool {
    header_ok(buf) && attrs_ok(buf, 20)
}

/// Extending a valid chain by one attribute that starts exactly at its
/// end yields a valid chain again.
pub proof fn lemma_spans_valid_snoc(
    buf: Seq<u8>,
    spans: Seq<AttrSpan>,
    start: int,
    end: int,
    s: AttrSpan,
)
    requires
        spans_valid(buf, spans, start, end),
        attr_at(buf, end, s),
    ensures
        spans_valid(buf, spans.push(s), start, s.padding_end as int),
    decreases spans.len(),
{
    if spans.len() == 0 {
        assert(spans.push(s)[0] == s);
        assert(attr_at(buf, start, s));
        assert(spans.push(s).drop_first() =~= Seq::<AttrSpan>::empty());
        assert(spans_valid(buf, spans.push(s).drop_first(), s.padding_end as int, s.padding_end as int));
    } else {
        lemma_spans_valid_snoc(buf, spans.drop_first(), spans[0].padding_end as int, end, s);
        assert(spans.push(s)[0] == spans[0]);
        assert(spans.push(s).drop_first() =~= spans.drop_first().push(s));
    }
}

/// A valid chain never walks backwards.
pub proof fn lemma_spans_valid_start_le_end(buf: Seq<u8>, spans: Seq<AttrSpan>, start: int, end: int)
    requires
        spans_valid(buf, spans, start, end),
    ensures
        start <= end,
    decreases spans.len(),
{
    if spans.len() != 0 {
        lemma_spans_valid_start_le_end(buf, spans.drop_first(), spans[0].padding_end as int, end);
    }
}

/// The bytes of `buf` pin the chain: two valid chains over the same
/// range are equal.
pub proof fn lemma_spans_valid_unique(
    buf: Seq<u8>,
    s1: Seq<AttrSpan>,
    s2: Seq<AttrSpan>,
    start: int,
    end: int,
)
    requires
        spans_valid(buf, s1, start, end),
        spans_valid(buf, s2, start, end),
    ensures
        s1 == s2,
    decreases s1.len(),
{
    if s1.len() == 0 {
        if s2.len() != 0 {
            lemma_spans_valid_start_le_end(buf, s2.drop_first(), s2[0].padding_end as int, end);
            assert(false);
        }
        assert(s1 =~= s2);
    } else {
        if s2.len() == 0 {
            lemma_spans_valid_start_le_end(buf, s1.drop_first(), s1[0].padding_end as int, end);
            assert(false);
        }
        assert(s1[0] == s2[0]);
        lemma_spans_valid_unique(buf, s1.drop_first(), s2.drop_first(), s1[0].padding_end as int, end);
        assert(s1.len() == s2.len());
        assert forall|i: int| 0 <= i < s1.len() implies s1[i] == s2[i] by {
            if i > 0 {
                assert(s1[i] == s1.drop_first()[i - 1]);
                assert(s2[i] == s2.drop_first()[i - 1]);
            }
        }
        assert(s1 =~= s2);
    }
}

/// A chain that fills the buffer to its end witnesses a clean walk.
pub proof fn lemma_spans_valid_attrs_ok(buf: Seq<u8>, spans: Seq<AttrSpan>, start: int)
    requires
        spans_valid(buf, spans, start, buf.len() as int),
    ensures
        attrs_ok(buf, start),
    decreases spans.len(),
{
    if spans.len() != 0 {
        lemma_spans_valid_attrs_ok(buf, spans.drop_first(), spans[0].padding_end as int);
    }
}

/// Validity of a chain depends only on the bytes of the range it
/// covers: any buffer that agrees with `buf1` on `[start, end)` carries
/// the same chain.
pub proof fn lemma_spans_valid_frame(
    buf1: Seq<u8>,
    buf2: Seq<u8>,
    spans: Seq<AttrSpan>,
    start: int,
    end: int,
)
    requires
        spans_valid(buf1, spans, start, end),
        end <= buf1.len(),
        end <= buf2.len(),
        forall|j: int| start <= j < end ==> buf1[j] == buf2[j],
    ensures
        spans_valid(buf2, spans, start, end),
    decreases spans.len(),
{
    if spans.len() != 0 {
        let pe = spans[0].padding_end as int;
        lemma_spans_valid_start_le_end(buf1, spans.drop_first(), pe, end);
        lemma_spans_valid_frame(buf1, buf2, spans.drop_first(), pe, end);
    }
}

/// Field facts of every span of a valid chain.
pub open spec fn span_bounds_ok(s: AttrSpan, start: int, end: int) -> bool {
    &&& start <= s.begin
    &&& s.value_begin == s.begin + 4
    &&& s.value_begin <= s.value_end <= s.padding_end <= end
}

pub proof fn lemma_spans_valid_bounds(buf: Seq<u8>, spans: Seq<AttrSpan>, start: int, end: int)
    requires
        spans_valid(buf, spans, start, end),
    ensures
        forall|i: int|
            0 <= i < spans.len() ==> span_bounds_ok(#[trigger] spans[i], start, end) && attr_at(
                buf,
                spans[i].begin as int,
                spans[i],
            ),
    decreases spans.len(),
{
    if spans.len() != 0 {
        let pe = spans[0].padding_end as int;
        lemma_spans_valid_start_le_end(buf, spans.drop_first(), pe, end);
        lemma_spans_valid_bounds(buf, spans.drop_first(), pe, end);
        assert forall|i: int|
            0 <= i < spans.len() implies span_bounds_ok(#[trigger] spans[i], start, end) && attr_at(
            buf,
            spans[i].begin as int,
            spans[i],
        ) by {
            if i > 0 {
                assert(spans[i] == spans.drop_first()[i - 1]);
            }
        }
    }
}

/// What a single span of a parsed message guarantees: needed before
/// any byte of the span's range is read back.
pub proof fn lemma_span_in_message(buf: Seq<u8>, spans: Seq<AttrSpan>, s: AttrSpan)
    requires
        header_ok(buf),
        spans_valid(buf, spans, 20, buf.len() as int),
        spans.contains(s),
    ensures
        20 <= s.begin,
        s.value_begin == s.begin + 4,
        s.value_begin <= s.value_end <= s.padding_end <= buf.len(),
        s.padding_end - 20 <= 0xFFFF,
        s.value_end - s.value_begin <= 0xFFFF,
        attr_at(buf, s.begin as int, s),
{
    lemma_spans_valid_bounds(buf, spans, 20, buf.len() as int);
    let i = choose|i: int| 0 <= i < spans.len() && spans[i] == s;
    assert(spans[i] == s);
}

/// A complete message assembled from a well-formed header and a valid
/// chain of attribute spans parses back to exactly that chain: the
/// walk succeeds, and no other chain fits the same bytes.
pub proof fn lemma_parse_round_trip(buf: Seq<u8>, spans: Seq<AttrSpan>)
    requires
        header_ok(buf),
        spans_valid(buf, spans, 20, buf.len() as int),
    ensures
        parse_ok(buf),
        forall|other: Seq<AttrSpan>|
            spans_valid(buf, other, 20, buf.len() as int) ==> other == spans,
{
    lemma_spans_valid_attrs_ok(buf, spans, 20);
    assert forall|other: Seq<AttrSpan>|
        spans_valid(buf, other, 20, buf.len() as int) implies other == spans by {
        lemma_spans_valid_unique(buf, other, spans, 20, buf.len() as int);
    }
}

/// A received message: the raw buffer plus the attribute spans found
/// by one linear scan. The spans stay valid for any later re-read.
pub struct Message {
    buffer: Vec<u8>,
    spans: Vec<AttrSpan>,
}

impl Message {
    /// The raw bytes of the message.
    pub closed spec fn bytes(&self) -> Seq<u8> {
        self.buffer@
    }

    /// All attribute spans, in wire order.
    pub closed spec fn spans_seq(&self) -> Seq<AttrSpan> {
        self.spans@
    }

    /// A parsed message: well-formed header, and the spans are the
    /// unique valid chain over the attribute region.
    pub open spec fn wf(&self) -> bool {
        header_ok(self.bytes()) && spans_valid(
            self.bytes(),
            self.spans_seq(),
            20,
            self.bytes().len() as int,
        )
    }

    pub(crate) fn raw(&self) -> (r: &Vec<u8>)
        ensures
            r@ == self.bytes(),
    {
        &self.buffer
    }

    /// Parses a buffer: checks the header, then walks the attribute
    /// region once, recording each attribute's span. Accepts exactly
    /// the buffers that `parse_ok` describes.
    pub fn parse(buffer: Vec<u8>) -> (r: Result<Message, Error>)
        ensures
            r is Ok <==> parse_ok(buffer@),
            r matches Ok(m) ==> m.wf() && m.bytes() == buffer@,
            r matches Err(e) ==> e is InvalidData,
    {
        let total = buffer.len();
        if total < 20 {
            return Err(Error::InvalidData("message shorter than the stun header"));
        }
        let declared = read_u16_be(&buffer, 2);
        if total != 20 + (declared as usize) {
            return Err(Error::InvalidData("message length field does not match the buffer"));
        }
        if buffer[0] >= 0x40 {
            return Err(Error::InvalidData("leading marker bits are not zero"));
        }
        if !(buffer[4] == 0x21 && buffer[5] == 0x12 && buffer[6] == 0xa4 && buffer[7] == 0x42) {
            return Err(Error::InvalidData("magic cookie mismatch"));
        }
        let mut spans: Vec<AttrSpan> = Vec::new();
        let mut off: usize = 20;
        while off < total
            invariant
                header_ok(buffer@),
                total == buffer.len(),
                20 <= off <= total,
                total <= 20 + 0xFFFF,
                spans_valid(buffer@, spans@, 20, off as int),
                attrs_ok(buffer@, 20) == attrs_ok(buffer@, off as int),
            decreases total - off,
        {
            if off + 4 > total {
                return Err(Error::InvalidData("attribute header out of bounds"));
            }
            let type_code = read_u16_be(&buffer, off);
            let value_len = read_u16_be(&buffer, off + 2);
            let value_end = off + 4 + (value_len as usize);
            let padding_end = round_up4(value_end);
            if padding_end > total {
                return Err(Error::InvalidData("attribute value out of bounds"));
            }
            let span = AttrSpan {
                type_code,
                begin: off,
                value_begin: off + 4,
                value_end,
                padding_end,
            };
            proof {
                lemma_spans_valid_snoc(buffer@, spans@, 20, off as int, span);
            }
            spans.push(span);
            off = padding_end;
        }
        Ok(Message { buffer, spans })
    }

    /// The span of the first attribute with the given type code, if
    /// any attribute carries it.
    pub fn attribute_span(&self, type_code: u16) -> (r: Option<AttrSpan>)
        ensures
            match r {
                Some(s) => {
                    &&& self.spans_seq().contains(s)
                    &&& s.type_code == type_code
                    &&& exists|i: int|
                        0 <= i < self.spans_seq().len() && #[trigger] self.spans_seq()[i] == s
                            && forall|j: int|
                            0 <= j < i ==> self.spans_seq()[j].type_code != type_code
                },
                None => forall|i: int|
                    0 <= i < self.spans_seq().len() ==> #[trigger] self.spans_seq()[i].type_code
                        != type_code,
            },
    {
        let n = self.spans.len();
        let mut i: usize = 0;
        while i < n
            invariant
                n == self.spans_seq().len(),
                i <= n,
                forall|j: int|
                    0 <= j < i ==> #[trigger] self.spans_seq()[j].type_code != type_code,
            decreases n - i,
        {
            if self.spans[i].type_code == type_code {
                return Some(self.spans[i]);
            }
            i = i + 1;
        }
        None
    }
}

} // verus!
