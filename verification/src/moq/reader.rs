//! A cursor over received bytes.
use crate::moq::varint::{mcquic_moq_decode_varint, varint};
use vstd::prelude::*;
use vstd::slice::slice_subrange;

verus! {

/// The first `n` bytes of `s` and what follows them, where `s` holds as many.
pub open spec fn exact(s: Seq<u8>, n: usize) -> Option<(Seq<u8>, Seq<u8>)> {
    if s.len() < n {
        None
    } else {
        Some((s.take(n as int), s.skip(n as int)))
    }
}

/// A position in received bytes.
pub struct McquicMoqReader<'a> {
    input: &'a [u8],
    offset: usize,
}

impl<'a> McquicMoqReader<'a> {
    /// The position lies in the input.
    pub closed spec fn wf(&self) -> bool {
        self.offset <= self.input@.len()
    }

    /// The bytes that were not read yet.
    pub closed spec fn rest(&self) -> Seq<u8> {
        self.input@.skip(self.offset as int)
    }

    /// All the bytes.
    pub closed spec fn input(&self) -> Seq<u8> {
        self.input@
    }

    /// What was not read yet is the end of the input.
    pub proof fn lemma_rest(&self)
        requires
            self.wf(),
        ensures
            self.rest().len() <= self.input().len() <= usize::MAX,
            self.rest() == self.input().skip(self.input().len() - self.rest().len()),
    {
        assert(self.input@.len() == self.input.len());
    }

    pub fn new(input: &'a [u8]) -> (reader: Self)
        ensures
            reader.wf(),
            reader.input() == input@,
            reader.rest() == input@,
    {
        let reader = McquicMoqReader { input, offset: 0 };
        assert(reader.rest() =~= input@);
        reader
    }

    /// How many bytes were read.
    pub fn offset(&self) -> (offset: usize)
        requires
            self.wf(),
        ensures
            offset == self.input().len() - self.rest().len(),
    {
        self.offset
    }

    pub fn remaining(&self) -> (n: usize)
        requires
            self.wf(),
        ensures
            n == self.rest().len(),
    {
        self.input.len() - self.offset
    }

    pub fn read_u8(&mut self) -> (value: Option<u8>)
        requires
            old(self).wf(),
        ensures
            final(self).wf(),
            final(self).input() == old(self).input(),
            value is Some <==> old(self).rest().len() > 0,
            value matches Some(v) ==> v == old(self).rest()[0] && final(self).rest() == old(
                self,
            ).rest().skip(1),
            value is None ==> final(self).rest() == old(self).rest(),
    {
        if self.offset >= self.input.len() {
            return None;
        }
        let value: u8 = self.input[self.offset];
        self.offset += 1;
        assert(self.rest() =~= old(self).rest().skip(1));
        Some(value)
    }

    pub fn read_varint(&mut self) -> (value: Option<u64>)
        requires
            old(self).wf(),
        ensures
            final(self).wf(),
            final(self).input() == old(self).input(),
            value is Some <==> varint(old(self).rest()) is Some,
            value matches Some(v) ==> varint(old(self).rest()) == Some((v, final(self).rest())),
            value is None ==> final(self).rest() == old(self).rest(),
    {
        let rest = slice_subrange(self.input, self.offset, self.input.len());
        assert(rest@ =~= self.rest());
        match mcquic_moq_decode_varint(rest) {
            Some((value, consumed)) => {
                self.offset = self.offset + consumed;
                assert(self.rest() =~= rest@.skip(consumed as int));
                Some(value)
            },
            None => None,
        }
    }

    pub fn read_exact(&mut self, len: usize) -> (bytes: Option<&'a [u8]>)
        requires
            old(self).wf(),
        ensures
            final(self).wf(),
            final(self).input() == old(self).input(),
            bytes is Some <==> len <= old(self).rest().len(),
            bytes matches Some(b) ==> exact(old(self).rest(), len) == Some(
                (b@, final(self).rest()),
            ),
            bytes is None ==> final(self).rest() == old(self).rest(),
    {
        if self.remaining() < len {
            return None;
        }
        let start: usize = self.offset;
        assert(start + len <= self.input.len());
        self.offset = start + len;
        let bytes = slice_subrange(self.input, start, self.offset);
        assert(bytes@ =~= old(self).rest().take(len as int));
        assert(self.rest() =~= old(self).rest().skip(len as int));
        Some(bytes)
    }

    pub fn read_to_end(&mut self) -> (bytes: &'a [u8])
        requires
            old(self).wf(),
        ensures
            final(self).wf(),
            final(self).input() == old(self).input(),
            final(self).rest() == Seq::<u8>::empty(),
            bytes@ == old(self).rest(),
    {
        let start: usize = self.offset;
        self.offset = self.input.len();
        let bytes = slice_subrange(self.input, start, self.input.len());
        assert(bytes@ =~= old(self).rest());
        assert(self.rest() =~= Seq::<u8>::empty());
        bytes
    }
}

}
