//! The byte layout of what blobs carry: little-endian integers, byte strings
//! and texts behind a 32-bit length, one byte for a flag, fields one after
//! another in the order in which they are declared.

use crate::text::utf8;
use vstd::bytes::{
    lemma_auto_spec_u128_to_from_le_bytes, lemma_auto_spec_u32_to_from_le_bytes,
    lemma_auto_spec_u64_to_from_le_bytes, spec_u128_from_le_bytes, spec_u128_to_le_bytes,
    spec_u32_from_le_bytes, spec_u32_to_le_bytes, spec_u64_from_le_bytes, spec_u64_to_le_bytes,
    u128_from_le_bytes, u128_to_le_bytes, u32_from_le_bytes, u32_to_le_bytes, u64_from_le_bytes,
    u64_to_le_bytes,
};
use vstd::prelude::*;
use vstd::string::StringSliceAdditionalSpecFns;
use vstd::utf8::{decode_utf8, encode_utf8_decode_utf8, encode_utf8_valid_utf8, valid_utf8};

verus! {

/// The first byte of `s` and what follows it.
pub open spec fn take_u8(s: Seq<u8>) -> Option<(u8, Seq<u8>)> {
    if s.len() >= 1 {
        Some((s[0], s.skip(1)))
    } else {
        None
    }
}

/// The 32-bit number at the start of `s` and what follows it.
pub open spec fn take_u32(s: Seq<u8>) -> Option<(u32, Seq<u8>)> {
    if s.len() >= 4 {
        Some((spec_u32_from_le_bytes(s.take(4)), s.skip(4)))
    } else {
        None
    }
}

/// The 64-bit number at the start of `s` and what follows it.
pub open spec fn take_u64(s: Seq<u8>) -> Option<(u64, Seq<u8>)> {
    if s.len() >= 8 {
        Some((spec_u64_from_le_bytes(s.take(8)), s.skip(8)))
    } else {
        None
    }
}

/// The 128-bit number at the start of `s` and what follows it.
pub open spec fn take_u128(s: Seq<u8>) -> Option<(u128, Seq<u8>)> {
    if s.len() >= 16 {
        Some((spec_u128_from_le_bytes(s.take(16)), s.skip(16)))
    } else {
        None
    }
}

/// The flag at the start of `s` and what follows it: one byte, 0 or 1.
pub open spec fn take_flag(s: Seq<u8>) -> Option<(bool, Seq<u8>)> {
    if s.len() >= 1 && s[0] <= 1 {
        Some((s[0] == 1, s.skip(1)))
    } else {
        None
    }
}

/// The first `n` bytes of `s` and what follows them.
pub open spec fn take_fixed(s: Seq<u8>, n: nat) -> Option<(Seq<u8>, Seq<u8>)> {
    if s.len() >= n {
        Some((s.take(n as int), s.skip(n as int)))
    } else {
        None
    }
}

/// The byte string at the start of `s`, which stands behind its length, and
/// what follows it.
pub open spec fn take_bytes(s: Seq<u8>) -> Option<(Seq<u8>, Seq<u8>)> {
    match take_u32(s) {
        Some((n, rest)) => take_fixed(rest, n as nat),
        None => None,
    }
}

/// The text at the start of `s`, a byte string in UTF-8, and what follows it.
pub open spec fn take_text(s: Seq<u8>) -> Option<(Seq<char>, Seq<u8>)> {
    match take_bytes(s) {
        Some((b, rest)) => if valid_utf8(b) {
            Some((decode_utf8(b), rest))
        } else {
            None
        },
        None => None,
    }
}

/// A 32-bit number as bytes.
pub open spec fn enc_u32(v: u32) -> Seq<u8> {
    spec_u32_to_le_bytes(v)
}

/// A 64-bit number as bytes.
pub open spec fn enc_u64(v: u64) -> Seq<u8> {
    spec_u64_to_le_bytes(v)
}

/// A 128-bit number as bytes.
pub open spec fn enc_u128(v: u128) -> Seq<u8> {
    spec_u128_to_le_bytes(v)
}

/// A flag as a byte.
pub open spec fn enc_flag(b: bool) -> Seq<u8> {
    seq![if b { 1u8 } else { 0u8 }]
}

/// A byte string behind its length. The length fits 32 bits.
pub open spec fn enc_bytes(b: Seq<u8>) -> Seq<u8> {
    enc_u32(b.len() as u32) + b
}

/// A text as a byte string in UTF-8.
pub open spec fn enc_text(s: Seq<char>) -> Seq<u8> {
    enc_bytes(utf8(s))
}

/// A byte that was written is the byte that is read.
pub proof fn lemma_take_u8(v: u8, rest: Seq<u8>)
    ensures
        take_u8(seq![v] + rest) == Some((v, rest)),
{
    assert((seq![v] + rest).skip(1) =~= rest);
}

/// A flag that was written is the flag that is read.
pub proof fn lemma_take_flag(b: bool, rest: Seq<u8>)
    ensures
        take_flag(enc_flag(b) + rest) == Some((b, rest)),
{
    assert((enc_flag(b) + rest).skip(1) =~= rest);
}

/// A 32-bit number that was written is the number that is read.
pub proof fn lemma_take_u32(v: u32, rest: Seq<u8>)
    ensures
        take_u32(enc_u32(v) + rest) == Some((v, rest)),
        enc_u32(v).len() == 4,
{
    lemma_auto_spec_u32_to_from_le_bytes();
    assert((enc_u32(v) + rest).take(4) =~= enc_u32(v));
    assert((enc_u32(v) + rest).skip(4) =~= rest);
}

/// A 64-bit number that was written is the number that is read.
pub proof fn lemma_take_u64(v: u64, rest: Seq<u8>)
    ensures
        take_u64(enc_u64(v) + rest) == Some((v, rest)),
        enc_u64(v).len() == 8,
{
    lemma_auto_spec_u64_to_from_le_bytes();
    assert((enc_u64(v) + rest).take(8) =~= enc_u64(v));
    assert((enc_u64(v) + rest).skip(8) =~= rest);
}

/// A 128-bit number that was written is the number that is read.
pub proof fn lemma_take_u128(v: u128, rest: Seq<u8>)
    ensures
        take_u128(enc_u128(v) + rest) == Some((v, rest)),
        enc_u128(v).len() == 16,
{
    lemma_auto_spec_u128_to_from_le_bytes();
    assert((enc_u128(v) + rest).take(16) =~= enc_u128(v));
    assert((enc_u128(v) + rest).skip(16) =~= rest);
}

/// Bytes of a known number that were written are the bytes that are read.
pub proof fn lemma_take_fixed(b: Seq<u8>, rest: Seq<u8>)
    ensures
        take_fixed(b + rest, b.len()) == Some((b, rest)),
{
    assert((b + rest).take(b.len() as int) =~= b);
    assert((b + rest).skip(b.len() as int) =~= rest);
}

/// A byte string that was written is the byte string that is read.
pub proof fn lemma_take_bytes(b: Seq<u8>, rest: Seq<u8>)
    requires
        b.len() <= u32::MAX,
    ensures
        take_bytes(enc_bytes(b) + rest) == Some((b, rest)),
{
    lemma_take_u32(b.len() as u32, b + rest);
    assert(enc_bytes(b) + rest =~= enc_u32(b.len() as u32) + (b + rest));
    lemma_take_fixed(b, rest);
}

/// A text that was written is the text that is read.
pub proof fn lemma_take_text(s: Seq<char>, rest: Seq<u8>)
    requires
        utf8(s).len() <= u32::MAX,
    ensures
        take_text(enc_text(s) + rest) == Some((s, rest)),
{
    lemma_take_bytes(utf8(s), rest);
    encode_utf8_valid_utf8(s);
    encode_utf8_decode_utf8(s);
}

/// Whether a read went as the layout says: the value and what is left after
/// it, or nothing where the bytes do not hold such a value.
pub open spec fn read_as<T>(expected: Option<(T, Seq<u8>)>, got: Option<T>, left: Seq<u8>) -> bool {
    match expected {
        Some((v, rest)) => got == Some(v) && left == rest,
        None => got is None,
    }
}

/// As [`read_as`], for a byte string.
pub open spec fn read_bytes_as(
    expected: Option<(Seq<u8>, Seq<u8>)>,
    got: Option<Vec<u8>>,
    left: Seq<u8>,
) -> bool {
    match expected {
        Some((v, rest)) => got is Some && got->Some_0@ == v && left == rest,
        None => got is None,
    }
}

/// As [`read_as`], for a text.
pub open spec fn read_text_as(
    expected: Option<(Seq<char>, Seq<u8>)>,
    got: Option<String>,
    left: Seq<u8>,
) -> bool {
    match expected {
        Some((v, rest)) => got is Some && got->Some_0@ == v && left == rest,
        None => got is None,
    }
}

/// `String::from_utf8` of std: the text that the bytes are the UTF-8 encoding
/// of, or nothing where they are not valid UTF-8.
#[verifier::external_body]
fn text_from_utf8(bytes: Vec<u8>) -> (r: Option<String>)
    ensures
        r is Some == valid_utf8(bytes@),
        r matches Some(s) ==> s@ == decode_utf8(bytes@),
{
    String::from_utf8(bytes).ok()
}

/// A place in a byte string, from which values are read one after another.
pub struct Cursor<'a> {
    data: &'a [u8],
    at: usize,
}

impl<'a> Cursor<'a> {
    /// The place is within the bytes.
    pub closed spec fn wf(&self) -> bool {
        self.at <= self.data@.len()
    }

    /// The bytes that are still to be read.
    pub closed spec fn rest(&self) -> Seq<u8> {
        self.data@.skip(self.at as int)
    }

    /// A cursor at the start of `data`.
    pub fn new(data: &'a [u8]) -> (c: Self)
        ensures
            c.wf(),
            c.rest() == data@,
    {
        assert(data@.skip(0) =~= data@);
        Cursor { data, at: 0 }
    }

    /// Whether all bytes were read.
    pub fn done(&self) -> (r: bool)
        requires
            self.wf(),
        ensures
            r == (self.rest().len() == 0),
    {
        self.at == self.data.len()
    }

    /// The bytes that are still to be read, as a copy.
    pub fn remaining(&self) -> (r: Vec<u8>)
        requires
            self.wf(),
        ensures
            r@ == self.rest(),
    {
        let mut out: Vec<u8> = Vec::new();
        let tail = &self.data[self.at..self.data.len()];
        out.extend_from_slice(tail);
        assert(out@ =~= self.rest());
        out
    }

    /// Reads `n` bytes, without a length before them.
    pub fn fixed(&mut self, n: usize) -> (r: Option<Vec<u8>>)
        requires
            old(self).wf(),
        ensures
            final(self).wf(),
            read_bytes_as(take_fixed(old(self).rest(), n as nat), r, final(self).rest()),
    {
        if self.data.len() - self.at < n {
            return None;
        }
        let mut out: Vec<u8> = Vec::new();
        let part = &self.data[self.at..self.at + n];
        out.extend_from_slice(part);
        proof {
            assert(out@ =~= old(self).rest().take(n as int));
            assert(self.data@.skip(self.at + n) =~= old(self).rest().skip(n as int));
        }
        self.at = self.at + n;
        Some(out)
    }

    /// Reads one byte.
    pub fn u8(&mut self) -> (r: Option<u8>)
        requires
            old(self).wf(),
        ensures
            final(self).wf(),
            read_as(take_u8(old(self).rest()), r, final(self).rest()),
    {
        if self.data.len() - self.at < 1 {
            return None;
        }
        let v: u8 = self.data[self.at];
        proof {
            assert(self.data@.skip(self.at + 1) =~= old(self).rest().skip(1));
        }
        self.at = self.at + 1;
        Some(v)
    }

    /// Reads a flag.
    pub fn flag(&mut self) -> (r: Option<bool>)
        requires
            old(self).wf(),
        ensures
            final(self).wf(),
            read_as(take_flag(old(self).rest()), r, final(self).rest()),
    {
        match self.u8() {
            Some(b) => if b <= 1 {
                Some(b == 1)
            } else {
                None
            },
            None => None,
        }
    }

    /// Reads a 32-bit number.
    pub fn u32(&mut self) -> (r: Option<u32>)
        requires
            old(self).wf(),
        ensures
            final(self).wf(),
            read_as(take_u32(old(self).rest()), r, final(self).rest()),
    {
        if self.data.len() - self.at < 4 {
            return None;
        }
        let part = &self.data[self.at..self.at + 4];
        proof {
            assert(part@ =~= old(self).rest().take(4));
            assert(self.data@.skip(self.at + 4) =~= old(self).rest().skip(4));
        }
        let v: u32 = u32_from_le_bytes(part);
        self.at = self.at + 4;
        Some(v)
    }

    /// Reads a 64-bit number.
    pub fn u64(&mut self) -> (r: Option<u64>)
        requires
            old(self).wf(),
        ensures
            final(self).wf(),
            read_as(take_u64(old(self).rest()), r, final(self).rest()),
    {
        if self.data.len() - self.at < 8 {
            return None;
        }
        let part = &self.data[self.at..self.at + 8];
        proof {
            assert(part@ =~= old(self).rest().take(8));
            assert(self.data@.skip(self.at + 8) =~= old(self).rest().skip(8));
        }
        let v: u64 = u64_from_le_bytes(part);
        self.at = self.at + 8;
        Some(v)
    }

    /// Reads a 128-bit number.
    pub fn u128(&mut self) -> (r: Option<u128>)
        requires
            old(self).wf(),
        ensures
            final(self).wf(),
            read_as(take_u128(old(self).rest()), r, final(self).rest()),
    {
        if self.data.len() - self.at < 16 {
            return None;
        }
        let part = &self.data[self.at..self.at + 16];
        proof {
            assert(part@ =~= old(self).rest().take(16));
            assert(self.data@.skip(self.at + 16) =~= old(self).rest().skip(16));
        }
        let v: u128 = u128_from_le_bytes(part);
        self.at = self.at + 16;
        Some(v)
    }

    /// Reads a byte string that stands behind its length.
    pub fn bytes(&mut self) -> (r: Option<Vec<u8>>)
        requires
            old(self).wf(),
        ensures
            final(self).wf(),
            read_bytes_as(take_bytes(old(self).rest()), r, final(self).rest()),
    {
        match self.u32() {
            Some(n) => self.fixed(n as usize),
            None => None,
        }
    }

    /// Reads a text.
    pub fn text(&mut self) -> (r: Option<String>)
        requires
            old(self).wf(),
        ensures
            final(self).wf(),
            read_text_as(take_text(old(self).rest()), r, final(self).rest()),
    {
        match self.bytes() {
            Some(b) => text_from_utf8(b),
            None => None,
        }
    }
}

/// Writes a flag.
pub fn put_flag(out: &mut Vec<u8>, b: bool)
    ensures
        final(out)@ == old(out)@ + enc_flag(b),
{
    out.push(if b { 1u8 } else { 0u8 });
    assert(out@ =~= old(out)@ + enc_flag(b));
}

/// Writes one byte.
pub fn put_u8(out: &mut Vec<u8>, v: u8)
    ensures
        final(out)@ == old(out)@ + seq![v],
{
    out.push(v);
    assert(out@ =~= old(out)@ + seq![v]);
}

/// Writes a 32-bit number.
pub fn put_u32(out: &mut Vec<u8>, v: u32)
    ensures
        final(out)@ == old(out)@ + enc_u32(v),
{
    let b = u32_to_le_bytes(v);
    out.extend_from_slice(b.as_slice());
    assert(out@ =~= old(out)@ + enc_u32(v));
}

/// Writes a 64-bit number.
pub fn put_u64(out: &mut Vec<u8>, v: u64)
    ensures
        final(out)@ == old(out)@ + enc_u64(v),
{
    let b = u64_to_le_bytes(v);
    out.extend_from_slice(b.as_slice());
    assert(out@ =~= old(out)@ + enc_u64(v));
}

/// Writes a 128-bit number.
pub fn put_u128(out: &mut Vec<u8>, v: u128)
    ensures
        final(out)@ == old(out)@ + enc_u128(v),
{
    let b = u128_to_le_bytes(v);
    out.extend_from_slice(b.as_slice());
    assert(out@ =~= old(out)@ + enc_u128(v));
}

/// Writes bytes without a length before them.
pub fn put_fixed(out: &mut Vec<u8>, b: &[u8])
    ensures
        final(out)@ == old(out)@ + b@,
{
    out.extend_from_slice(b);
    assert(out@ =~= old(out)@ + b@);
}

/// Writes a byte string behind its length. Writes nothing, and says so, where
/// the length does not fit 32 bits.
pub fn put_bytes(out: &mut Vec<u8>, b: &[u8]) -> (ok: bool)
    ensures
        ok == (b@.len() <= u32::MAX),
        ok ==> final(out)@ == old(out)@ + enc_bytes(b@),
        !ok ==> final(out)@ == old(out)@,
{
    if b.len() > 0xffff_ffff {
        return false;
    }
    put_u32(out, b.len() as u32);
    out.extend_from_slice(b);
    assert(out@ =~= old(out)@ + enc_bytes(b@));
    true
}

/// Writes a text. Writes nothing, and says so, where its length in UTF-8 does
/// not fit 32 bits.
pub fn put_text(out: &mut Vec<u8>, s: &str) -> (ok: bool)
    ensures
        ok == (utf8(s@).len() <= u32::MAX),
        ok ==> final(out)@ == old(out)@ + enc_text(s@),
        !ok ==> final(out)@ == old(out)@,
{
    put_bytes(out, s.as_bytes())
}

} // verus!
