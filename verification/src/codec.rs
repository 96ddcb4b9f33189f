//! Encoding and decoding of integers and byte strings, one after the other.
use crate::bytes::{
    append, be_bytes, be_value, lemma_be_bytes_len, lemma_be_round_trip, lemma_be_round_trip_bytes,
    lemma_be_span_values, read_be, write_be,
};
use crate::moq::varint::{
    law_varint_round_trip, mcquic_moq_decode_varint, mcquic_moq_encode_varint, varint, varint_bytes,
    MCQUIC_MOQT_MAX_VARINT,
};
use vstd::prelude::*;
use vstd::slice::slice_subrange;

verus! {

/// What was encoded so far.
#[derive(Debug)]
pub struct NeqoEncoder {
    data: Vec<u8>,
}

impl View for NeqoEncoder {
    type V = Seq<u8>;

    closed spec fn view(&self) -> Seq<u8> {
        self.data@
    }
}

impl NeqoEncoder {
    /// An encoder without data.
    pub fn new() -> (encoder: Self)
        ensures
            encoder@ == Seq::<u8>::empty(),
    {
        NeqoEncoder { data: Vec::new() }
    }
}

/// Appends a byte.
pub fn neqo_encode_byte(encoder: &mut NeqoEncoder, data: u8)
    ensures
        final(encoder)@ == old(encoder)@.push(data),
{
    encoder.data.push(data);
}

/// Appends a variable-length integer.
pub fn neqo_encode_varint(encoder: &mut NeqoEncoder, data: u64)
    requires
        data <= MCQUIC_MOQT_MAX_VARINT,
    ensures
        final(encoder)@ == old(encoder)@ + varint_bytes(data),
{
    mcquic_moq_encode_varint(data, &mut encoder.data);
}

/// Appends the last `n` bytes of an integer, the most significant first.
pub fn neqo_encode_uint(encoder: &mut NeqoEncoder, n: u32, data: u64)
    requires
        0 < n <= 8,
    ensures
        final(encoder)@ == old(encoder)@ + be_bytes(data as nat, n as nat),
{
    write_be(&mut encoder.data, data, n as usize);
}

/// Appends bytes.
pub fn neqo_encode_buffer(encoder: &mut NeqoEncoder, buf: &[u8])
    ensures
        final(encoder)@ == old(encoder)@ + buf@,
{
    append(&mut encoder.data, buf);
}

/// Appends bytes behind their length.
pub fn neqo_encode_vvec(encoder: &mut NeqoEncoder, buf: &[u8])
    requires
        buf@.len() <= u32::MAX,
    ensures
        final(encoder)@ == old(encoder)@ + varint_bytes(buf@.len() as u64) + buf@,
{
    mcquic_moq_encode_varint(buf.len() as u64, &mut encoder.data);
    append(&mut encoder.data, buf);
}

/// What was encoded, and its length.
pub fn neqo_encode_get_data(encoder: &NeqoEncoder) -> (data: (&[u8], u32))
    ensures
        data.0@ == encoder@,
        data.1 == encoder@.len() as u32,
{
    (encoder.data.as_slice(), encoder.data.len() as u32)
}

/// How many bytes a variable-length integer takes.
pub fn neqo_encode_varint_len(v: u64) -> (len: usize)
    requires
        v <= MCQUIC_MOQT_MAX_VARINT,
    ensures
        len == varint_bytes(v).len(),
{
    proof {
        lemma_be_bytes_len(v as nat, 1);
        lemma_be_bytes_len((v + 0x4000) as nat, 2);
        lemma_be_bytes_len((v + 0x8000_0000) as nat, 4);
        lemma_be_bytes_len((v + 0xc000_0000_0000_0000) as nat, 8);
    }
    if v < 0x40 {
        1
    } else if v < 0x4000 {
        2
    } else if v < 0x4000_0000 {
        4
    } else {
        8
    }
}

/// A position in bytes that are decoded.
#[derive(Debug)]
pub struct NeqoDecoder<'a> {
    buf: &'a [u8],
    offset: usize,
}

impl<'a> NeqoDecoder<'a> {
    /// The position lies in the bytes.
    pub closed spec fn wf(&self) -> bool {
        self.offset <= self.buf@.len()
    }

    /// All the bytes.
    pub closed spec fn input(&self) -> Seq<u8> {
        self.buf@
    }

    /// The bytes that were not decoded yet.
    pub closed spec fn rest(&self) -> Seq<u8> {
        self.buf@.skip(self.offset as int)
    }

    /// A decoder for bytes.
    pub fn new(buf: &'a [u8]) -> (decoder: Self)
        ensures
            decoder.wf(),
            decoder.input() == buf@,
            decoder.rest() == buf@,
    {
        let decoder = NeqoDecoder { buf, offset: 0 };
        assert(decoder.rest() =~= buf@);
        decoder
    }

    /// The bytes that were not decoded yet.
    fn remainder(&self) -> (rest: &'a [u8])
        requires
            self.wf(),
        ensures
            rest@ == self.rest(),
    {
        let rest = slice_subrange(self.buf, self.offset, self.buf.len());
        assert(rest@ =~= self.rest());
        rest
    }

    /// Goes on by `n` bytes.
    fn skip(&mut self, n: usize)
        requires
            old(self).wf(),
            n <= old(self).rest().len(),
        ensures
            final(self).wf(),
            final(self).input() == old(self).input(),
            final(self).rest() == old(self).rest().skip(n as int),
    {
        assert(self.offset + n <= self.buf.len());
        self.offset = self.offset + n;
        assert(self.rest() =~= old(self).rest().skip(n as int));
    }
}

/// Decodes an integer of four bytes into `result`, where there are as many.
pub fn neqo_decode_uint32(decoder: &mut NeqoDecoder<'_>, result: &mut u32) -> (done: bool)
    requires
        old(decoder).wf(),
    ensures
        final(decoder).wf(),
        final(decoder).input() == old(decoder).input(),
        done == (old(decoder).rest().len() >= 4),
        done ==> *final(result) == be_value(old(decoder).rest().take(4)) && final(decoder).rest()
            == old(decoder).rest().skip(4),
        !done ==> *final(result) == *old(result) && final(decoder).rest() == old(decoder).rest(),
{
    let rest = decoder.remainder();
    if rest.len() < 4 {
        return false;
    }
    let digits = slice_subrange(rest, 0, 4);
    proof {
        assert(digits@ =~= old(decoder).rest().take(4));
        lemma_be_span_values();
    }
    *result = read_be(digits) as u32;
    decoder.skip(4);
    true
}

/// Decodes a variable-length integer into `result`, where there is a whole one. Of one that is
/// cut short the first byte counts as decoded.
pub fn neqo_decode_varint(decoder: &mut NeqoDecoder<'_>, result: &mut u64) -> (done: bool)
    requires
        old(decoder).wf(),
    ensures
        final(decoder).wf(),
        final(decoder).input() == old(decoder).input(),
        done == (varint(old(decoder).rest()) is Some),
        done ==> varint(old(decoder).rest()) == Some((*final(result), final(decoder).rest())),
        !done ==> *final(result) == *old(result) && final(decoder).rest() == (if old(
            decoder,
        ).rest().len() == 0 {
            old(decoder).rest()
        } else {
            old(decoder).rest().skip(1)
        }),
{
    let rest = decoder.remainder();
    match mcquic_moq_decode_varint(rest) {
        Some((value, len)) => {
            *result = value;
            decoder.skip(len);
            true
        },
        None => {
            if rest.len() > 0 {
                decoder.skip(1);
            }
            false
        },
    }
}

/// The next `n` bytes, where there are as many.
pub fn neqo_decode<'a>(decoder: &mut NeqoDecoder<'a>, n: u32) -> (data: Option<&'a [u8]>)
    requires
        old(decoder).wf(),
    ensures
        final(decoder).wf(),
        final(decoder).input() == old(decoder).input(),
        data is Some <==> n <= old(decoder).rest().len(),
        data matches Some(d) ==> d@ == old(decoder).rest().take(n as int) && final(decoder).rest()
            == old(decoder).rest().skip(n as int),
        data is None ==> final(decoder).rest() == old(decoder).rest(),
{
    let rest = decoder.remainder();
    if rest.len() < n as usize {
        return None;
    }
    let data = slice_subrange(rest, 0, n as usize);
    assert(data@ =~= old(decoder).rest().take(n as int));
    decoder.skip(n as usize);
    Some(data)
}

/// The bytes that were not decoded yet, all of them.
pub fn neqo_decode_remainder<'a>(decoder: &mut NeqoDecoder<'a>) -> (data: &'a [u8])
    requires
        old(decoder).wf(),
    ensures
        final(decoder).wf(),
        final(decoder).input() == old(decoder).input(),
        data@ == old(decoder).rest(),
        final(decoder).rest() == Seq::<u8>::empty(),
{
    let rest = decoder.remainder();
    decoder.skip(rest.len());
    assert(decoder.rest() =~= Seq::<u8>::empty());
    rest
}

/// How many bytes were not decoded yet.
pub fn neqo_decoder_remaining(decoder: &NeqoDecoder<'_>) -> (n: u64)
    requires
        decoder.wf(),
    ensures
        n == decoder.rest().len(),
{
    (decoder.buf.len() - decoder.offset) as u64
}

/// How many bytes were decoded.
pub fn neqo_decoder_offset(decoder: &NeqoDecoder<'_>) -> (n: u64)
    requires
        decoder.wf(),
    ensures
        n == decoder.input().len() - decoder.rest().len(),
{
    decoder.offset as u64
}

/// Bytes that were encoded behind their length are decoded by reading the length and then as
/// many bytes.
pub proof fn law_vvec_round_trip(buf: Seq<u8>, rest: Seq<u8>)
    requires
        buf.len() <= u32::MAX,
    ensures
        varint(varint_bytes(buf.len() as u64) + buf + rest) == Some(
            (buf.len() as u64, buf + rest),
        ),
        (buf + rest).take(buf.len() as int) == buf,
        (buf + rest).skip(buf.len() as int) == rest,
{
    law_varint_round_trip(buf.len() as u64, buf + rest);
    assert(varint_bytes(buf.len() as u64) + buf + rest =~= varint_bytes(buf.len() as u64) + (buf
        + rest));
    assert((buf + rest).take(buf.len() as int) =~= buf);
    assert((buf + rest).skip(buf.len() as int) =~= rest);
}

/// An integer that was encoded in four bytes is decoded again.
pub proof fn law_uint32_round_trip(value: u32, rest: Seq<u8>)
    ensures
        (be_bytes(value as nat, 4) + rest).len() >= 4,
        be_value((be_bytes(value as nat, 4) + rest).take(4)) == value,
        (be_bytes(value as nat, 4) + rest).skip(4) == rest,
{
    lemma_be_span_values();
    lemma_be_round_trip(value as nat, 4);
    let b = be_bytes(value as nat, 4);
    assert((b + rest).take(4) =~= b);
    assert((b + rest).skip(4) =~= rest);
}

/// What each call encodes goes behind what was encoded before, and nothing of that changes: a
/// byte, an integer of so many bytes with the most significant first, bytes, and bytes behind
/// their length.
pub proof fn law_encoding_appends(
    byte_to: &mut NeqoEncoder,
    byte: u8,
    uint_to: &mut NeqoEncoder,
    n: u32,
    uint: u64,
    bytes_to: &mut NeqoEncoder,
    sized_to: &mut NeqoEncoder,
    buf: &[u8],
    fresh: NeqoEncoder,
)
    requires
        0 < n <= 8,
        buf@.len() <= u32::MAX,
        call_ensures(NeqoEncoder::new, (), fresh),
        call_ensures(neqo_encode_byte, (byte_to, byte), ()),
        call_ensures(neqo_encode_uint, (uint_to, n, uint), ()),
        call_ensures(neqo_encode_buffer, (bytes_to, buf), ()),
        call_ensures(neqo_encode_vvec, (sized_to, buf), ()),
    ensures
        fresh@.len() == 0,
        final(byte_to)@ == old(byte_to)@ + seq![byte],
        final(bytes_to)@ == old(bytes_to)@ + buf@,
        final(uint_to)@.len() == old(uint_to)@.len() + n,
        final(uint_to)@.take(old(uint_to)@.len() as int) == old(uint_to)@,
        final(uint_to)@.last() == uint % 256,
        n >= 2 ==> final(uint_to)@[final(uint_to)@.len() - 2] == (uint / 256) % 256,
        final(sized_to)@.take(old(sized_to)@.len() as int) == old(sized_to)@,
        varint(final(sized_to)@.skip(old(sized_to)@.len() as int)) == Some(
            (buf@.len() as u64, buf@),
        ),
{
    let u = be_bytes(uint as nat, n as nat);
    lemma_be_bytes_len(uint as nat, n as nat);
    lemma_be_bytes_len((uint / 256) as nat, (n - 1) as nat);
    reveal_with_fuel(be_bytes, 3);
    assert(final(uint_to)@.take(old(uint_to)@.len() as int) =~= old(uint_to)@);
    let v = varint_bytes(buf@.len() as u64) + buf@;
    assert(final(sized_to)@ =~= old(sized_to)@ + v);
    assert(final(sized_to)@.take(old(sized_to)@.len() as int) =~= old(sized_to)@);
    assert(final(sized_to)@.skip(old(sized_to)@.len() as int) =~= v);
    law_varint_round_trip(buf@.len() as u64, buf@);
}

/// A variable-length integer that was encoded is decoded again, whatever follows it, and takes as
/// many bytes as was said.
pub proof fn law_varint_is_decoded(
    encoder: &mut NeqoEncoder,
    value: u64,
    len: usize,
    decoder: &mut NeqoDecoder<'_>,
    result: &mut u64,
    done: bool,
    rest: Seq<u8>,
)
    requires
        value < 0x4000_0000_0000_0000,
        call_ensures(neqo_encode_varint, (encoder, value), ()),
        call_ensures(neqo_encode_varint_len, (value,), len),
        old(decoder).wf(),
        call_ensures(neqo_decode_varint, (decoder, result), done),
        old(encoder)@ + old(decoder).rest() == final(encoder)@ + rest,
    ensures
        final(encoder)@.len() == old(encoder)@.len() + len,
        len == 1 || len == 2 || len == 4 || len == 8,
        value < 0x40 <==> len == 1,
        value < 0x4000 <==> len <= 2,
        value < 0x4000_0000 <==> len <= 4,
        done,
        *final(result) == value,
        final(decoder).rest() == rest,
{
    let coded = varint_bytes(value);
    law_varint_round_trip(value, rest);
    lemma_be_bytes_len(value as nat, 1);
    lemma_be_bytes_len((value + 0x4000) as nat, 2);
    lemma_be_bytes_len((value + 0x8000_0000) as nat, 4);
    lemma_be_bytes_len((value + 0xc000_0000_0000_0000) as nat, 8);
    let n = old(encoder)@.len() as int;
    let all = old(encoder)@ + old(decoder).rest();
    assert(all.skip(n) =~= old(decoder).rest());
    assert(all.skip(n) =~= coded + rest);
}

/// Decoding goes through the bytes from front to end: what is decoded and what is left are what
/// was left before, and the position and what remains add up to all there is. Where there are too
/// few bytes, nothing is decoded.
pub proof fn law_decoding_advances(
    uint_from: &mut NeqoDecoder<'_>,
    uint: &mut u32,
    done: bool,
    bytes_from: &mut NeqoDecoder<'_>,
    n: u32,
    data: Option<&[u8]>,
    all_from: &mut NeqoDecoder<'_>,
    all: &[u8],
    decoder: NeqoDecoder<'_>,
    remaining: u64,
    offset: u64,
)
    requires
        old(uint_from).wf() && old(bytes_from).wf() && old(all_from).wf() && decoder.wf(),
        call_ensures(neqo_decode_uint32, (uint_from, uint), done),
        call_ensures(neqo_decode, (bytes_from, n), data),
        call_ensures(neqo_decode_remainder, (all_from,), all),
        call_ensures(neqo_decoder_remaining, (&decoder,), remaining),
        call_ensures(neqo_decoder_offset, (&decoder,), offset),
    ensures
        done <==> old(uint_from).rest().len() >= 4,
        done ==> be_bytes(*final(uint) as nat, 4) + final(uint_from).rest() == old(
            uint_from,
        ).rest(),
        !done ==> *final(uint) == *old(uint) && final(uint_from).rest() == old(uint_from).rest(),
        data is Some <==> n <= old(bytes_from).rest().len(),
        data matches Some(d) ==> d@.len() == n && d@ + final(bytes_from).rest() == old(
            bytes_from,
        ).rest(),
        data is None ==> final(bytes_from).rest() == old(bytes_from).rest(),
        all@ == old(all_from).rest(),
        final(all_from).rest().len() == 0,
        remaining == decoder.rest().len(),
        offset + remaining == decoder.input().len(),
{
    if done {
        let four = old(uint_from).rest().take(4);
        lemma_be_round_trip_bytes(four);
        assert(four + old(uint_from).rest().skip(4) =~= old(uint_from).rest());
    }
    if data is Some {
        assert(old(bytes_from).rest().take(n as int) + old(bytes_from).rest().skip(n as int)
            =~= old(bytes_from).rest());
    }
}

/// What was encoded can be looked at, with its length where that fits in 32 bits.
pub proof fn law_encoded_data(encoder: NeqoEncoder, data: (&[u8], u32))
    requires
        call_ensures(neqo_encode_get_data, (&encoder,), data),
        encoder@.len() <= 0xffff_ffff,
    ensures
        data.0@ == encoder@,
        data.1 == encoder@.len(),
{
}

/// Of a variable-length integer that is cut short the first byte is passed over, and nothing is
/// decoded; what was decoded before is not touched.
pub proof fn law_cut_short(decoder: &mut NeqoDecoder<'_>, result: &mut u64, done: bool)
    requires
        old(decoder).wf(),
        call_ensures(neqo_decode_varint, (decoder, result), done),
    ensures
        final(decoder).wf() && final(decoder).input() == old(decoder).input(),
        old(decoder).rest().len() == 0 ==> !done && final(decoder).rest().len() == 0,
        !done ==> *final(result) == *old(result),
        !done && old(decoder).rest().len() > 0 ==> old(decoder).rest()
            == seq![old(decoder).rest()[0]] + final(decoder).rest(),
        ({
            let s = old(decoder).rest();
            s.len() > 0 ==> (done <==> (s[0] < 0x40 || s[0] < 0x80 && s.len() >= 2 || s[0] < 0xc0
                && s.len() >= 4 || s.len() >= 8))
        }),
{
    let s = old(decoder).rest();
    if !done && s.len() > 0 {
        assert(seq![s[0]] + s.skip(1) =~= s);
    }
}

}
