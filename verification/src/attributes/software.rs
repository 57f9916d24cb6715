//! SOFTWARE (RFC 8489, section 14.14): a plain description of the
//! sending agent, carried as UTF-8 text.

use crate::builder::{span_of, MessageBuilder};
use crate::error::Error;
use crate::parse::{lemma_span_in_message, AttrSpan, Message};
use crate::wire::{copy_range, pad4, with_len_field};
use vstd::prelude::*;
use vstd::string::*;

verus! {

/// Attribute type code of SOFTWARE.
pub const SOFTWARE_TYPE: u16 = 0x8022;

/// The SOFTWARE attribute: the agent description as bytes.
#[derive(Debug)]
pub struct Software {
    value: Vec<u8>,
}

impl View for Software {
    type V = Seq<u8>;

    closed spec fn view(&self) -> Seq<u8> {
        self.value@
    }
}

impl Software {
    /// Builds the attribute from its text.
    pub fn new(text: &str) -> (r: Self)
        ensures
            r@ == text.spec_bytes(),
    {
        let mut value: Vec<u8> = Vec::new();
        value.extend_from_slice(text.as_bytes());
        Software { value }
    }

    /// The attribute value as bytes.
    pub fn value(&self) -> (r: &Vec<u8>)
        ensures
            r@ == self@,
    {
        &self.value
    }

    /// The value length before padding; too long a text does not fit
    /// the 16-bit length field.
    pub fn encode_len(&self) -> (r: Result<u16, Error>)
        ensures
            self@.len() <= 0xFFFF ==> r == Ok::<u16, Error>(self@.len() as u16),
            self@.len() > 0xFFFF ==> r == Err::<u16, Error>(Error::Overflow),
    {
        if self.value.len() > 0xFFFF {
            Err(Error::Overflow)
        } else {
            Ok(self.value.len() as u16)
        }
    }

    /// Appends this attribute to a message being built.
    pub fn encode(&self, builder: &mut MessageBuilder) -> (r: Result<(), Error>)
        requires
            old(builder).wf(),
        ensures
            r is Ok <==> self@.len() <= 0xFFFF && old(builder).bytes().len() + 4 + pad4(
                self@.len() as int,
            ) <= 20 + 0xFFFF,
            r matches Err(e) ==> e is Overflow && final(builder).bytes() == old(builder).bytes()
                && final(builder).spans_seq() == old(builder).spans_seq(),
            r is Ok ==> ({
                let begin = old(builder).bytes().len() as int;
                let span = span_of(begin, SOFTWARE_TYPE, self@.len() as int);
                &&& final(builder).wf()
                &&& final(builder).bytes().len() == begin + 4 + pad4(self@.len() as int)
                &&& final(builder).bytes().take(begin) == with_len_field(
                    old(builder).bytes(),
                    begin + 4 + pad4(self@.len() as int) - 20,
                )
                &&& final(builder).spans_seq() == old(builder).spans_seq().push(span)
                &&& final(builder).bytes().subrange(
                    span.value_begin as int,
                    span.value_end as int,
                ) == self@
            }),
    {
        let res = builder.add_attr_raw(SOFTWARE_TYPE, &self.value);
        proof {
            if res is Ok {
                let begin = old(builder).bytes().len() as int;
                let span = span_of(begin, SOFTWARE_TYPE, self@.len() as int);
                assert(forall|k: int|
                    0 <= k < self@.len() ==> builder.bytes()[begin + 4 + k] == self@[k]);
                assert(builder.bytes().subrange(span.value_begin as int, span.value_end as int)
                    =~= self@);
            }
        }
        res
    }

    /// Reads a received SOFTWARE attribute's bytes.
    pub fn decode(msg: &Message, span: AttrSpan) -> (r: Result<Software, Error>)
        requires
            msg.wf(),
            msg.spans_seq().contains(span),
        ensures
            r matches Ok(s) ==> s@ == msg.bytes().subrange(
                span.value_begin as int,
                span.value_end as int,
            ),
            r is Ok,
    {
        proof {
            lemma_span_in_message(msg.bytes(), msg.spans_seq(), span);
        }
        let value = copy_range(msg.raw(), span.value_begin, span.value_end);
        Ok(Software { value })
    }
}

} // verus!
