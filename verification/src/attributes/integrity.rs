//! MESSAGE-INTEGRITY and MESSAGE-INTEGRITY-SHA256 (RFC 8489, sections
//! 14.5 and 14.6): an HMAC over every byte before the attribute's own
//! header, computed with the message's declared length pointing at the
//! end of this attribute — and the credential schemes that derive the
//! HMAC key.
//!
//! Each security attribute protects exactly the bytes before itself,
//! so builders must append SHA-1 integrity before SHA-256 integrity,
//! and both before FINGERPRINT.

use crate::builder::{span_of, MessageBuilder};
use crate::error::Error;
use crate::header::header_ok;
use crate::parse::{
    lemma_parse_round_trip, lemma_span_in_message, parse_ok, spans_valid, AttrSpan, Message,
};
use crate::wire::{bytes_equal, copy_range, pad4, prefix_with_len, with_len_field};
use vstd::prelude::*;
use vstd::string::*;

verus! {

/// Attribute type code of MESSAGE-INTEGRITY.
pub const MESSAGE_INTEGRITY_TYPE: u16 = 0x0008;

/// Attribute type code of MESSAGE-INTEGRITY-SHA256.
pub const MESSAGE_INTEGRITY_SHA256_TYPE: u16 = 0x001C;

/// The HMAC-SHA1 digest of `data` under `key`.
pub uninterp spec fn hmac_sha1(key: Seq<u8>, data: Seq<u8>) -> Seq<u8>;

/// The HMAC-SHA256 digest of `data` under `key`.
pub uninterp spec fn hmac_sha256(key: Seq<u8>, data: Seq<u8>) -> Seq<u8>;

/// The MD5 digest of `data`.
pub uninterp spec fn md5_digest(data: Seq<u8>) -> Seq<u8>;

/// The SHA-256 digest of `data`.
pub uninterp spec fn sha256_digest(data: Seq<u8>) -> Seq<u8>;

/// Relies on hmac::SimpleHmac with sha1::Sha1 (via digest's KeyInit,
/// Update and Mac traits): the keyed HMAC-SHA1 digest, 20 bytes, a
/// function of key and data alone; keys of any length are accepted.
#[verifier::external_body]
fn hmac_sha1_bytes(key: &Vec<u8>, data: &Vec<u8>) -> (r: Vec<u8>)
    ensures
        r@ == hmac_sha1(key@, data@),
        r@.len() == 20,
{
    let mut mac: hmac::SimpleHmac<sha1::Sha1> = <hmac::SimpleHmac<sha1::Sha1> as hmac::KeyInit>::new_from_slice(
        key.as_slice(),
    ).expect("HMAC accepts keys of any length");
    hmac::digest::Update::update(&mut mac, data.as_slice());
    hmac::Mac::finalize(mac).into_bytes().to_vec()
}

/// Relies on hmac::SimpleHmac with sha2::Sha256 (via digest's KeyInit,
/// Update and Mac traits): the keyed HMAC-SHA256 digest, 32 bytes, a
/// function of key and data alone; keys of any length are accepted.
#[verifier::external_body]
fn hmac_sha256_bytes(key: &Vec<u8>, data: &Vec<u8>) -> (r: Vec<u8>)
    ensures
        r@ == hmac_sha256(key@, data@),
        r@.len() == 32,
{
    let mut mac: hmac::SimpleHmac<sha2::Sha256> = <hmac::SimpleHmac<sha2::Sha256> as hmac::KeyInit>::new_from_slice(
        key.as_slice(),
    ).expect("HMAC accepts keys of any length");
    hmac::digest::Update::update(&mut mac, data.as_slice());
    hmac::Mac::finalize(mac).into_bytes().to_vec()
}

/// Relies on md5::compute: the 16-byte MD5 digest, a function of
/// `data` alone.
#[verifier::external_body]
fn md5_bytes(data: &Vec<u8>) -> (r: Vec<u8>)
    ensures
        r@ == md5_digest(data@),
        r@.len() == 16,
{
    md5::compute(data.as_slice()).0.to_vec()
}

/// Relies on sha2::Sha256 through digest's Digest trait: the 32-byte
/// SHA-256 digest, a function of `data` alone.
#[verifier::external_body]
fn sha256_bytes(data: &Vec<u8>) -> (r: Vec<u8>)
    ensures
        r@ == sha256_digest(data@),
        r@.len() == 32,
{
    <sha2::Sha256 as sha2::digest::Digest>::digest(data.as_slice()).to_vec()
}

/// The digest algorithm behind a message-integrity attribute. Both
/// variants follow the identical protocol; only the HMAC differs.
#[derive(Debug, Clone, Copy, PartialEq, Eq, Structural)]
pub enum Algorithm {
    Sha1,
    Sha256,
}

/// The output size of each algorithm's digest.
pub open spec fn digest_len(alg: Algorithm) -> int {
    match alg {
        Algorithm::Sha1 => 20,
        Algorithm::Sha256 => 32,
    }
}

/// The attribute type code each algorithm encodes under.
pub open spec fn integrity_type(alg: Algorithm) -> u16 {
    match alg {
        Algorithm::Sha1 => MESSAGE_INTEGRITY_TYPE,
        Algorithm::Sha256 => MESSAGE_INTEGRITY_SHA256_TYPE,
    }
}

/// The HMAC digest under each algorithm.
pub open spec fn hmac_digest(alg: Algorithm, key: Seq<u8>, data: Seq<u8>) -> Seq<u8> {
    match alg {
        Algorithm::Sha1 => hmac_sha1(key, data),
        Algorithm::Sha256 => hmac_sha256(key, data),
    }
}

/// Computes the HMAC digest for the chosen algorithm.
fn hmac_bytes(alg: Algorithm, key: &Vec<u8>, data: &Vec<u8>) -> (r: Vec<u8>)
    ensures
        r@ == hmac_digest(alg, key@, data@),
        r@.len() == digest_len(alg),
{
    match alg {
        Algorithm::Sha1 => hmac_sha1_bytes(key, data),
        Algorithm::Sha256 => hmac_sha256_bytes(key, data),
    }
}

/// Key material for a message-integrity attribute, produced by exactly
/// one of four credential schemes. It carries no trace of the scheme:
/// the HMAC consumer sees only the bytes.
#[derive(Debug)]
pub struct MessageIntegrityKey {
    key: Vec<u8>,
}

impl View for MessageIntegrityKey {
    type V = Seq<u8>;

    closed spec fn view(&self) -> Seq<u8> {
        self.key@
    }
}

/// The colon-joined `username:realm:password` credential string of the
/// long-term schemes, as bytes.
pub open spec fn long_term_input(username: Seq<u8>, realm: Seq<u8>, password: Seq<u8>) -> Seq<u8> {
    username + seq![58u8] + realm + seq![58u8] + password
}

/// Builds the colon-joined credential string (58 is the colon).
fn join_credentials(username: &str, realm: &str, password: &str) -> (r: Vec<u8>)
    ensures
        r@ == long_term_input(username.spec_bytes(), realm.spec_bytes(), password.spec_bytes()),
{
    let mut data: Vec<u8> = Vec::new();
    data.extend_from_slice(username.as_bytes());
    data.push(58);
    data.extend_from_slice(realm.as_bytes());
    data.push(58);
    data.extend_from_slice(password.as_bytes());
    proof {
        assert(data@ =~= long_term_input(
            username.spec_bytes(),
            realm.spec_bytes(),
            password.spec_bytes(),
        ));
    }
    data
}

impl MessageIntegrityKey {
    /// Long-term credentials: the key is the 16-byte MD5 digest of
    /// `username:realm:password` — the same inputs always derive the
    /// same key.
    pub fn new_long_term_md5(username: &str, realm: &str, password: &str) -> (r: Self)
        ensures
            r@ == md5_digest(
                long_term_input(
                    username.spec_bytes(),
                    realm.spec_bytes(),
                    password.spec_bytes(),
                ),
            ),
            r@.len() == 16,
    {
        let data = join_credentials(username, realm, password);
        MessageIntegrityKey { key: md5_bytes(&data) }
    }

    /// Long-term credentials: the key is the 32-byte SHA-256 digest of
    /// `username:realm:password` — the same inputs always derive the
    /// same key.
    pub fn new_long_term_sha256(username: &str, realm: &str, password: &str) -> (r: Self)
        ensures
            r@ == sha256_digest(
                long_term_input(
                    username.spec_bytes(),
                    realm.spec_bytes(),
                    password.spec_bytes(),
                ),
            ),
            r@.len() == 32,
    {
        let data = join_credentials(username, realm, password);
        MessageIntegrityKey { key: sha256_bytes(&data) }
    }

    /// Short-term credentials: the key is the password's bytes,
    /// unmodified.
    pub fn new_short_term(password: &str) -> (r: Self)
        ensures
            r@ == password.spec_bytes(),
    {
        let mut key: Vec<u8> = Vec::new();
        key.extend_from_slice(password.as_bytes());
        MessageIntegrityKey { key }
    }

    /// A pre-shared or externally derived key, used as-is.
    pub fn new_raw(raw: Vec<u8>) -> (r: Self)
        ensures
            r@ == raw@,
    {
        MessageIntegrityKey { key: raw }
    }

    /// The key material itself.
    pub fn as_bytes(&self) -> (r: &Vec<u8>)
        ensures
            r@ == self@,
    {
        &self.key
    }
}

/// The protected prefix of an integrity attribute at `span`: every
/// byte before the attribute's own header, with the declared-length
/// field set to end exactly at this attribute's padded value.
pub open spec fn integrity_input(buf: Seq<u8>, span: AttrSpan) -> Seq<u8> {
    with_len_field(buf.take(span.begin as int), span.padding_end - 20)
}

/// The attribute's stored value has the digest's size and equals the
/// HMAC of the protected prefix under `key`.
pub open spec fn message_integrity_check(
    alg: Algorithm,
    key: Seq<u8>,
    buf: Seq<u8>,
    span: AttrSpan,
) -> bool {
    &&& span.value_end - span.value_begin == digest_len(alg)
    &&& buf.subrange(span.value_begin as int, span.value_end as int) == hmac_digest(
        alg,
        key,
        integrity_input(buf, span),
    )
}

/// Shared verification of both integrity attributes: the value length
/// must equal the digest size (checked before any hashing), and the
/// stored digest must match the HMAC of the protected prefix.
fn message_integrity_decode(
    alg: Algorithm,
    key: &MessageIntegrityKey,
    msg: &Message,
    span: AttrSpan,
) -> (r: Result<(), Error>)
    requires
        msg.wf(),
        msg.spans_seq().contains(span),
    ensures
        r is Ok <==> message_integrity_check(alg, key@, msg.bytes(), span),
        r matches Err(e) ==> e is InvalidData,
{
    proof {
        lemma_span_in_message(msg.bytes(), msg.spans_seq(), span);
    }
    let dsize: usize = match alg {
        Algorithm::Sha1 => 20,
        Algorithm::Sha256 => 32,
    };
    if span.value_end - span.value_begin != dsize {
        return Err(Error::InvalidData("failed to verify message integrity"));
    }
    let buffer = msg.raw();
    let data = prefix_with_len(buffer, span.begin, span.padding_end - 20);
    let expected = hmac_bytes(alg, &key.key, &data);
    let stored = copy_range(buffer, span.value_begin, span.value_end);
    if !bytes_equal(&expected, &stored) {
        return Err(Error::InvalidData("failed to verify message integrity"));
    }
    Ok(())
}

/// Shared encoding of both integrity attributes: set the declared
/// length to end at this attribute, HMAC the bytes before its header,
/// and append the digest as the attribute value.
fn message_integrity_encode(
    alg: Algorithm,
    key: &MessageIntegrityKey,
    builder: &mut MessageBuilder,
) -> (r: Result<(), Error>)
    requires
        old(builder).wf(),
    ensures
        r is Ok <==> old(builder).bytes().len() + 4 + digest_len(alg) <= 20 + 0xFFFF,
        r matches Err(e) ==> e is Overflow && final(builder).bytes() == old(builder).bytes()
            && final(builder).spans_seq() == old(builder).spans_seq(),
        r is Ok ==> ({
            let begin = old(builder).bytes().len() as int;
            let span = span_of(begin, integrity_type(alg), digest_len(alg));
            &&& final(builder).wf()
            &&& final(builder).bytes().len() == begin + 4 + digest_len(alg)
            &&& final(builder).bytes().take(begin) == with_len_field(
                old(builder).bytes(),
                begin + 4 + digest_len(alg) - 20,
            )
            &&& final(builder).spans_seq() == old(builder).spans_seq().push(span)
            &&& message_integrity_check(alg, key@, final(builder).bytes(), span)
        }),
{
    let dsize: usize = match alg {
        Algorithm::Sha1 => 20,
        Algorithm::Sha256 => 32,
    };
    assert(pad4(dsize as int) == dsize);
    let begin = builder.buffer().len();
    if begin + 4 + dsize > 20 + 0xFFFF {
        return Err(Error::Overflow);
    }
    let new_declared = begin + 4 + dsize - 20;
    let data = prefix_with_len(builder.buffer(), begin, new_declared);
    proof {
        assert(old(builder).bytes().take(begin as int) =~= old(builder).bytes());
    }
    let digest = hmac_bytes(alg, &key.key, &data);
    let res = builder.add_attr_raw(integrity_type_exec(alg), &digest);
    proof {
        let nb = builder.bytes();
        let span = span_of(begin as int, integrity_type(alg), digest_len(alg));
        assert(nb.take(begin as int) == data@);
        assert(integrity_input(nb, span) =~= data@);
        assert(forall|k: int|
            0 <= k < digest_len(alg) ==> nb[begin + 4 + k] == digest@[k]);
        assert(nb.subrange(span.value_begin as int, span.value_end as int) =~= digest@);
        assert(message_integrity_check(alg, key@, nb, span));
    }
    res
}

/// The type code for the chosen algorithm.
fn integrity_type_exec(alg: Algorithm) -> (r: u16)
    ensures
        r == integrity_type(alg),
{
    match alg {
        Algorithm::Sha1 => 0x0008,
        Algorithm::Sha256 => 0x001C,
    }
}

/// The MESSAGE-INTEGRITY attribute (HMAC-SHA1). Decoding verifies the
/// received digest; the value itself carries no payload.
#[derive(Debug)]
pub struct MessageIntegrity;

impl MessageIntegrity {
    /// Verifies a received MESSAGE-INTEGRITY attribute under `key`.
    pub fn decode(key: &MessageIntegrityKey, msg: &Message, span: AttrSpan) -> (r: Result<
        MessageIntegrity,
        Error,
    >)
        requires
            msg.wf(),
            msg.spans_seq().contains(span),
        ensures
            r is Ok <==> message_integrity_check(Algorithm::Sha1, key@, msg.bytes(), span),
            r matches Err(e) ==> e is InvalidData,
    {
        match message_integrity_decode(Algorithm::Sha1, key, msg, span) {
            Ok(()) => Ok(MessageIntegrity),
            Err(e) => Err(e),
        }
    }

    /// Appends a MESSAGE-INTEGRITY attribute computed under `key`.
    pub fn encode(&self, key: &MessageIntegrityKey, builder: &mut MessageBuilder) -> (r: Result<
        (),
        Error,
    >)
        requires
            old(builder).wf(),
        ensures
            r is Ok <==> old(builder).bytes().len() + 24 <= 20 + 0xFFFF,
            r matches Err(e) ==> e is Overflow && final(builder).bytes() == old(builder).bytes()
                && final(builder).spans_seq() == old(builder).spans_seq(),
            r is Ok ==> ({
                let begin = old(builder).bytes().len() as int;
                let span = span_of(begin, MESSAGE_INTEGRITY_TYPE, 20);
                &&& final(builder).wf()
                &&& final(builder).bytes().len() == begin + 24
                &&& final(builder).bytes().take(begin) == with_len_field(
                    old(builder).bytes(),
                    begin + 4,
                )
                &&& final(builder).spans_seq() == old(builder).spans_seq().push(span)
                &&& message_integrity_check(Algorithm::Sha1, key@, final(builder).bytes(), span)
            }),
    {
        message_integrity_encode(Algorithm::Sha1, key, builder)
    }

    /// The value length of MESSAGE-INTEGRITY: the SHA-1 output size.
    pub fn encode_len(&self) -> (r: Result<u16, Error>)
        ensures
            r == Ok::<u16, Error>(20u16),
    {
        Ok(20)
    }
}

/// The MESSAGE-INTEGRITY-SHA256 attribute (HMAC-SHA256), following
/// the same protocol with the full 32-byte digest.
#[derive(Debug)]
pub struct MessageIntegritySha256;

impl MessageIntegritySha256 {
    /// Verifies a received MESSAGE-INTEGRITY-SHA256 attribute under
    /// `key`.
    pub fn decode(key: &MessageIntegrityKey, msg: &Message, span: AttrSpan) -> (r: Result<
        MessageIntegritySha256,
        Error,
    >)
        requires
            msg.wf(),
            msg.spans_seq().contains(span),
        ensures
            r is Ok <==> message_integrity_check(Algorithm::Sha256, key@, msg.bytes(), span),
            r matches Err(e) ==> e is InvalidData,
    {
        match message_integrity_decode(Algorithm::Sha256, key, msg, span) {
            Ok(()) => Ok(MessageIntegritySha256),
            Err(e) => Err(e),
        }
    }

    /// Appends a MESSAGE-INTEGRITY-SHA256 attribute computed under
    /// `key`.
    pub fn encode(&self, key: &MessageIntegrityKey, builder: &mut MessageBuilder) -> (r: Result<
        (),
        Error,
    >)
        requires
            old(builder).wf(),
        ensures
            r is Ok <==> old(builder).bytes().len() + 36 <= 20 + 0xFFFF,
            r matches Err(e) ==> e is Overflow && final(builder).bytes() == old(builder).bytes()
                && final(builder).spans_seq() == old(builder).spans_seq(),
            r is Ok ==> ({
                let begin = old(builder).bytes().len() as int;
                let span = span_of(begin, MESSAGE_INTEGRITY_SHA256_TYPE, 32);
                &&& final(builder).wf()
                &&& final(builder).bytes().len() == begin + 36
                &&& final(builder).bytes().take(begin) == with_len_field(
                    old(builder).bytes(),
                    begin + 16,
                )
                &&& final(builder).spans_seq() == old(builder).spans_seq().push(span)
                &&& message_integrity_check(Algorithm::Sha256, key@, final(builder).bytes(), span)
            }),
    {
        message_integrity_encode(Algorithm::Sha256, key, builder)
    }

    /// The value length of MESSAGE-INTEGRITY-SHA256: the SHA-256
    /// output size.
    pub fn encode_len(&self) -> (r: Result<u16, Error>)
        ensures
            r == Ok::<u16, Error>(32u16),
    {
        Ok(32)
    }
}

/// Round trip for message integrity: a complete message whose
/// integrity attribute matches its protected prefix under `key`
/// parses back to exactly the spans it was built with, and
/// verification under the same key succeeds — decode returns `Ok`
/// precisely on `message_integrity_check`.
pub proof fn lemma_integrity_round_trip(
    alg: Algorithm,
    key: Seq<u8>,
    buf: Seq<u8>,
    spans: Seq<AttrSpan>,
    i: int,
)
    requires
        header_ok(buf),
        spans_valid(buf, spans, 20, buf.len() as int),
        0 <= i < spans.len(),
        message_integrity_check(alg, key, buf, spans[i]),
    ensures
        parse_ok(buf),
        forall|other: Seq<AttrSpan>|
            spans_valid(buf, other, 20, buf.len() as int) ==> other == spans,
        spans.contains(spans[i]),
        message_integrity_check(alg, key, buf, spans[i]),
{
    lemma_parse_round_trip(buf, spans);
}

/// Appending further attributes after an integrity attribute — a
/// FINGERPRINT, say — rewrites the declared-length field and adds
/// bytes at the end, and neither disturbs the integrity verdict.
pub proof fn lemma_integrity_check_survives_append(
    alg: Algorithm,
    key: Seq<u8>,
    buf: Seq<u8>,
    ext: Seq<u8>,
    nd: int,
    span: AttrSpan,
)
    requires
        span.padding_end <= buf.len(),
        4 <= span.begin,
        span.value_begin == span.begin + 4,
        span.value_begin <= span.value_end <= span.padding_end,
    ensures
        message_integrity_check(alg, key, with_len_field(buf, nd) + ext, span)
            == message_integrity_check(alg, key, buf, span),
{
    lemma_integrity_ignores_trailing_bytes(alg, key, buf, with_len_field(buf, nd) + ext, span);
}

/// Bytes at or beyond an integrity attribute's padded end — such as a
/// FINGERPRINT attribute appended after it — and the declared-length
/// field itself never enter integrity verification: two buffers that
/// agree on the attribute's protected range carry the same verdict.
pub proof fn lemma_integrity_ignores_trailing_bytes(
    alg: Algorithm,
    key: Seq<u8>,
    buf1: Seq<u8>,
    buf2: Seq<u8>,
    span: AttrSpan,
)
    requires
        span.padding_end <= buf1.len(),
        span.padding_end <= buf2.len(),
        4 <= span.begin,
        span.value_begin == span.begin + 4,
        span.value_begin <= span.value_end <= span.padding_end,
        forall|j: int| 0 <= j < span.padding_end && j != 2 && j != 3 ==> buf1[j] == buf2[j],
    ensures
        message_integrity_check(alg, key, buf1, span) == message_integrity_check(
            alg,
            key,
            buf2,
            span,
        ),
{
    assert(integrity_input(buf1, span) =~= integrity_input(buf2, span));
    assert(buf1.subrange(span.value_begin as int, span.value_end as int) =~= buf2.subrange(
        span.value_begin as int,
        span.value_end as int,
    ));
}

} // verus!
