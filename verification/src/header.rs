//! The fixed 20-byte STUN message header: a 14-bit message type built
//! from a class and a method, the declared length of the attribute
//! region, the magic cookie, and a 96-bit transaction id.

use crate::wire::buf_be16;
use vstd::prelude::*;

verus! {

/// Length of the fixed message header in bytes.
pub const STUN_HEADER_LENGTH: usize = 20;

/// The RFC 8489 magic cookie, bytes 4 to 7 of every message.
pub const MAGIC_COOKIE: u32 = 0x2112A442;

/// The class of a message, two bits woven into the message type.
#[derive(Debug, Clone, Copy, PartialEq, Eq, Structural)]
pub enum Class {
    Request,
    Indication,
    SuccessResponse,
    ErrorResponse,
}

/// The method of a message, twelve bits woven into the message type.
#[derive(Debug, Clone, Copy, PartialEq, Eq, Structural)]
pub enum Method {
    Binding,
}

/// The two class bits, low bit first.
pub open spec fn class_bits(c: Class) -> int {
    match c {
        Class::Request => 0,
        Class::Indication => 1,
        Class::SuccessResponse => 2,
        Class::ErrorResponse => 3,
    }
}

/// The 12-bit method code.
pub open spec fn method_code(m: Method) -> int {
    match m {
        Method::Binding => 1,
    }
}

/// The 14-bit message type: method bits M0..M11 with the class bits C0
/// and C1 spliced in at positions 4 and 8.
pub open spec fn msg_type_code(c: Class, m: Method) -> int {
    let mm = method_code(m);
    let cc = class_bits(c);
    (mm % 16) + (cc % 2) * 16 + ((mm / 16) % 8) * 32 + (cc / 2) * 256 + (mm / 128) * 512
}

/// A 12-byte transaction id.
#[derive(Debug, Clone, Copy, PartialEq, Eq)]
pub struct TransactionId {
    bytes: [u8; 12],
}

/// The twelve bytes of the low 96 bits of `id`, big-endian.
pub open spec fn transaction_id_bytes(id: u128) -> Seq<u8> {
    Seq::new(12, |i: int| ((id >> (8 * (11 - i)) as u128) & 0xff) as u8)
}

impl View for TransactionId {
    type V = Seq<u8>;

    closed spec fn view(&self) -> Seq<u8> {
        self.bytes@
    }
}

/// A transaction id is always exactly twelve bytes.
pub broadcast proof fn lemma_transaction_id_len(tid: &TransactionId)
    ensures
        (#[trigger] tid@).len() == 12,
{
}

impl TransactionId {
    /// Builds a transaction id from the low 96 bits of `id`.
    pub fn new(id: u128) -> (r: Self)
        ensures
            r@ == transaction_id_bytes(id),
    {
        let mut bytes: [u8; 12] = [0; 12];
        let mut i: usize = 0;
        while i < 12
            invariant
                i <= 12,
            bytes@.len() == 12,
                forall|j: int| 0 <= j < i ==> bytes@[j] == transaction_id_bytes(id)[j],
            decreases 12 - i,
        {
            let shift: u128 = (8 * (11 - i)) as u128;
            bytes[i] = ((id >> shift) & 0xff) as u8;
            i = i + 1;
        }
        proof {
            assert(bytes@ =~= transaction_id_bytes(id));
        }
        TransactionId { bytes }
    }

    /// The `i`-th of the twelve id bytes.
    pub fn byte_at(&self, i: usize) -> (r: u8)
        requires
            i < 12,
        ensures
            r == self@[i as int],
    {
        self.bytes[i]
    }
}

/// The bytes of a fresh header: message type, a zero length field, the
/// magic cookie, and the transaction id.
pub open spec fn header_bytes(type_code: int, tid: Seq<u8>) -> Seq<u8> {
    seq![
        (type_code / 256) as u8,
        (type_code % 256) as u8,
        0u8,
        0u8,
        0x21u8,
        0x12u8,
        0xa4u8,
        0x42u8,
    ] + tid
}

/// What parsing demands of the header region of a complete message:
/// the two marker bits clear, the declared length equal to the length
/// of the attribute region, and the magic cookie in place.
pub open spec fn header_ok(buf: Seq<u8>) -> bool {
    &&& buf.len() >= 20
    &&& buf.len() <= 20 + 0xFFFF
    &&& buf[0] < 0x40
    &&& buf_be16(buf, 2) == buf.len() - 20
    &&& buf[4] == 0x21
    &&& buf[5] == 0x12
    &&& buf[6] == 0xa4
    &&& buf[7] == 0x42
}

} // verus!
