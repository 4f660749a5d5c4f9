//! The primitive values of the wire format: what bytes each one is written as,
//! and how each one is read back from the front of a byte sequence.
//!
//! A parser is a spec function from the input to either the value together
//! with the input that is left, or the error. The executable readers work on a
//! [`Reader`] and are held to these parsers; the writers append to a `Vec<u8>`
//! and are held to the byte sequences given here.

use crate::error::{Error, Malformed};
use core::str::Utf8Error;
use vstd::prelude::*;
use vstd::slice::slice_to_vec;
use vstd::utf8::{
    decode_utf8, decode_utf8_encode_utf8, encode_utf8, encode_utf8_decode_utf8,
    encode_utf8_valid_utf8, valid_utf8,
};

verus! {

/// The longest string or byte array that a length prefix can announce.
pub const MAX_LENGTH: usize = 0x7fff_ffff;

/// 128 to the power of `digits`.
pub open spec fn pow128(digits: nat) -> nat
    decreases digits,
{
    if digits == 0 {
        1
    } else {
        128 * pow128((digits - 1) as nat)
    }
}

/// The number below 2^32 that has the same 32 bits as `v` in two's complement.
pub open spec fn unsigned32(v: i32) -> nat {
    if v >= 0 {
        v as nat
    } else {
        (v + 0x1_0000_0000) as nat
    }
}

/// The signed number whose 32 bits in two's complement are those of `m`,
/// for `m` below 2^32.
pub open spec fn signed32(m: nat) -> i32 {
    if m < 0x8000_0000 {
        m as i32
    } else {
        (m - 0x1_0000_0000) as i32
    }
}

/// Little-endian base-128 digits of `n`, every byte but the last with its high
/// bit set.
pub open spec fn leb128(n: nat) -> Seq<u8>
    decreases n,
{
    if n < 128 {
        seq![n as u8]
    } else {
        seq![(128 + n % 128) as u8] + leb128(n / 128)
    }
}

/// Reads base-128 digits up to and including the first byte without the high
/// bit, and gives their value. At most `limit` bytes are looked at: when all of
/// them have the high bit set the number is too long, wherever the input ends.
pub open spec fn parse_leb128(s: Seq<u8>, limit: nat) -> Result<(nat, Seq<u8>), Error>
    decreases limit,
{
    if limit == 0 {
        Err(Error::MalformedPrimitive(Malformed::VarIntTooLong))
    } else if s.len() == 0 {
        Err(Error::IoFailure)
    } else if s[0] < 128 {
        Ok((s[0] as nat, s.skip(1)))
    } else {
        match parse_leb128(s.skip(1), (limit - 1) as nat) {
            Ok((high, rest)) => Ok(((s[0] - 128 + 128 * high) as nat, rest)),
            Err(e) => Err(e),
        }
    }
}

/// A variable-length integer: the 32 bits of `v`, taken as an unsigned
/// number, in base 128. Negative numbers take five bytes.
pub open spec fn varint_bytes(v: i32) -> Seq<u8> {
    leb128(unsigned32(v))
}

/// Reads a variable-length integer of at most five bytes. Bits beyond the
/// thirty-second are dropped.
pub open spec fn parse_varint(s: Seq<u8>) -> Result<(i32, Seq<u8>), Error> {
    match parse_leb128(s, 5) {
        Ok((m, rest)) => Ok((signed32(m % 0x1_0000_0000), rest)),
        Err(e) => Err(e),
    }
}

/// A cursor over a byte slice. Its view is the input that has not been read.
///
/// Every reader in this crate either takes a whole value off the front or
/// fails and leaves the cursor where it was.
#[derive(Clone, Copy)]
pub struct Reader<'a> {
    data: &'a [u8],
    pos: usize,
}

impl<'a> View for Reader<'a> {
    type V = Seq<u8>;

    closed spec fn view(&self) -> Seq<u8> {
        self.data@.skip(self.pos as int)
    }
}

impl<'a> Reader<'a> {
    #[verifier::type_invariant]
    spec fn within(&self) -> bool {
        self.pos <= self.data@.len()
    }

    /// A cursor at the start of `data`.
    pub fn new(data: &'a [u8]) -> (r: Self)
        ensures
            r@ == data@,
    {
        let r = Reader { data, pos: 0 };
        assert(data@.skip(0) =~= data@);
        r
    }

    /// How many bytes are left.
    pub fn remaining(&self) -> (n: usize)
        ensures
            n == self@.len(),
    {
        proof {
            use_type_invariant(self);
        }
        self.data.len() - self.pos
    }

    /// Takes `n` bytes off the front, if there are that many.
    pub fn take(&mut self, n: usize) -> (res: Result<&'a [u8], Error>)
        ensures
            match res {
                Ok(bytes) => n <= old(self)@.len() && bytes@ == old(self)@.take(n as int)
                    && final(self)@ == old(self)@.skip(n as int),
                Err(e) => n > old(self)@.len() && e == Error::IoFailure && final(self)@ == old(
                    self,
                )@,
            },
    {
        proof {
            use_type_invariant(&*self);
        }
        if n > self.data.len() - self.pos {
            return Err(Error::IoFailure);
        }
        let start = self.pos;
        let bytes = &self.data[start..start + n];
        self.pos = start + n;
        assert(bytes@ =~= old(self)@.take(n as int));
        assert(self@ =~= old(self)@.skip(n as int));
        Ok(bytes)
    }
}

/// A number of `digits` base-128 digits is below `pow128(digits)`, and five
/// digits are enough for 32 bits.
pub proof fn lemma_pow128_values()
    ensures
        pow128(0) == 1,
        pow128(1) == 0x80,
        pow128(2) == 0x4000,
        pow128(3) == 0x20_0000,
        pow128(4) == 0x1000_0000,
        pow128(5) == 0x8_0000_0000,
{
    reveal_with_fuel(pow128, 6);
}

/// No power of 128 is zero.
pub proof fn lemma_pow128_positive(digits: nat)
    ensures
        pow128(digits) >= 1,
    decreases digits,
{
    if digits > 0 {
        lemma_pow128_positive((digits - 1) as nat);
    }
}

/// What `parse_leb128` gives is below `pow128(limit)`, and what it leaves is
/// a proper suffix of the input.
pub proof fn lemma_parse_leb128_bounds(s: Seq<u8>, limit: nat)
    ensures
        parse_leb128(s, limit) matches Ok((m, rest)) ==> m < pow128(limit) && 1 <= s.len()
            - rest.len() <= limit && rest == s.skip(s.len() - rest.len()),
    decreases limit,
{
    if limit > 0 {
        lemma_pow128_positive((limit - 1) as nat);
    }
    if limit > 0 && s.len() > 0 && s[0] >= 128 {
        lemma_parse_leb128_bounds(s.skip(1), (limit - 1) as nat);
        if let Ok((high, rest)) = parse_leb128(s.skip(1), (limit - 1) as nat) {
            assert(s.skip(1).skip(s.len() - 1 - rest.len()) =~= s.skip(s.len() - rest.len()));
        }
    }
}

/// Reading back what `leb128` wrote gives the number and leaves what followed,
/// as long as the limit allows for the digits of the number.
pub proof fn lemma_leb128_round_trip(n: nat, rest: Seq<u8>, limit: nat)
    requires
        limit >= 1,
        n < pow128(limit),
    ensures
        parse_leb128(leb128(n) + rest, limit) == Ok::<(nat, Seq<u8>), Error>((n, rest)),
    decreases n,
{
    let s = leb128(n) + rest;
    if n < 128 {
        assert(s.skip(1) =~= rest);
    } else {
        assert(limit >= 2) by {
            reveal_with_fuel(pow128, 3);
        }
        assert(s[0] == (128 + n % 128) as u8);
        assert(s.skip(1) =~= leb128(n / 128) + rest);
        lemma_leb128_round_trip(n / 128, rest, (limit - 1) as nat);
    }
}

/// A variable-length integer that was written reads back as itself, whatever
/// follows it.
pub proof fn lemma_varint_round_trip(v: i32, rest: Seq<u8>)
    ensures
        parse_varint(varint_bytes(v) + rest) == Ok::<(i32, Seq<u8>), Error>((v, rest)),
{
    lemma_pow128_values();
    lemma_leb128_round_trip(unsigned32(v), rest, 5);
}

/// A variable-length integer takes between one and five bytes.
pub proof fn lemma_varint_length(v: i32)
    ensures
        1 <= varint_bytes(v).len() <= 5,
{
    lemma_varint_round_trip(v, Seq::empty());
    assert(varint_bytes(v) + Seq::<u8>::empty() =~= varint_bytes(v));
    lemma_parse_leb128_bounds(varint_bytes(v), 5);
}

fn unsigned_of(v: i32) -> (m: u64)
    ensures
        m == unsigned32(v),
{
    if v >= 0 {
        v as u64
    } else {
        (v as i64 + 0x1_0000_0000) as u64
    }
}

fn signed_of(m: u64) -> (v: i32)
    requires
        m < 0x1_0000_0000,
    ensures
        v == signed32(m as nat),
{
    if m < 0x8000_0000 {
        m as i32
    } else {
        (m as i64 - 0x1_0000_0000) as i32
    }
}

/// Appends `v` as a variable-length integer.
pub fn write_varint(v: i32, out: &mut Vec<u8>)
    ensures
        final(out)@ == old(out)@ + varint_bytes(v),
{
    let mut m: u64 = unsigned_of(v);
    while m >= 128
        invariant
            out@ + leb128(m as nat) == old(out)@ + varint_bytes(v),
        decreases m,
    {
        let digit: u8 = (128 + m % 128) as u8;
        assert(out@.push(digit) + leb128((m / 128) as nat) =~= out@ + leb128(m as nat));
        out.push(digit);
        m = m / 128;
    }
    assert(out@.push(m as u8) =~= out@ + leb128(m as nat));
    out.push(m as u8);
}

fn scan_leb128(data: &[u8], start: usize, limit: u8) -> (res: Result<(u64, usize), Error>)
    requires
        start <= data@.len(),
        limit <= 5,
    ensures
        match parse_leb128(data@.skip(start as int), limit as nat) {
            Ok((m, rest)) => res matches Ok((found, end)) && found == m && start < end
                <= data@.len() && rest == data@.skip(end as int),
            Err(e) => res matches Err(f) && f == e,
        },
    decreases limit,
{
    let ghost s = data@.skip(start as int);
    if limit == 0 {
        Err(Error::MalformedPrimitive(Malformed::VarIntTooLong))
    } else if start >= data.len() {
        Err(Error::IoFailure)
    } else {
        let b: u8 = data[start];
        assert(s[0] == b);
        assert(s.skip(1) =~= data@.skip(start + 1));
        if b < 128 {
            Ok((b as u64, start + 1))
        } else {
            match scan_leb128(data, start + 1, limit - 1) {
                Ok((high, end)) => {
                    proof {
                        lemma_parse_leb128_bounds(s.skip(1), (limit - 1) as nat);
                        lemma_pow128_values();
                    }
                    Ok(((b - 128) as u64 + 128 * high, end))
                },
                Err(e) => Err(e),
            }
        }
    }
}

/// Reads a variable-length integer.
pub fn read_varint(r: &mut Reader) -> (res: Result<i32, Error>)
    ensures
        match parse_varint(old(r)@) {
            Ok((v, rest)) => res matches Ok(found) && found == v && final(r)@ == rest,
            Err(e) => res matches Err(f) && f == e && final(r)@ == old(r)@,
        },
{
    proof {
        use_type_invariant(&*r);
        lemma_parse_leb128_bounds(r@, 5);
        lemma_pow128_values();
    }
    match scan_leb128(r.data, r.pos, 5) {
        Ok((m, end)) => {
            r.pos = end;
            Ok(signed_of(m % 0x1_0000_0000))
        },
        Err(e) => Err(e),
    }
}

/// 256 to the power of `digits`.
pub open spec fn pow256(digits: nat) -> nat
    decreases digits,
{
    if digits == 0 {
        1
    } else {
        256 * pow256((digits - 1) as nat)
    }
}

/// The `width` lowest base-256 digits of `n`, the most significant first.
pub open spec fn be_bytes(n: nat, width: nat) -> Seq<u8>
    decreases width,
{
    if width == 0 {
        Seq::empty()
    } else {
        be_bytes(n / 256, (width - 1) as nat).push((n % 256) as u8)
    }
}

/// The number whose base-256 digits are `s`, the most significant first.
pub open spec fn be_value(s: Seq<u8>) -> nat
    decreases s.len(),
{
    if s.len() == 0 {
        0
    } else {
        256 * be_value(s.drop_last()) + s.last() as nat
    }
}

/// Reads `width` bytes as one big-endian number.
pub open spec fn parse_be(s: Seq<u8>, width: nat) -> Result<(nat, Seq<u8>), Error> {
    if s.len() < width {
        Err(Error::IoFailure)
    } else {
        Ok((be_value(s.take(width as int)), s.skip(width as int)))
    }
}

/// An unsigned 16-bit integer: two bytes, big-endian.
pub open spec fn u16_bytes(v: u16) -> Seq<u8> {
    be_bytes(v as nat, 2)
}

pub open spec fn parse_u16(s: Seq<u8>) -> Result<(u16, Seq<u8>), Error> {
    match parse_be(s, 2) {
        Ok((n, rest)) => Ok((n as u16, rest)),
        Err(e) => Err(e),
    }
}

/// A signed 32-bit integer: its four bytes in two's complement, big-endian.
pub open spec fn i32_bytes(v: i32) -> Seq<u8> {
    be_bytes(unsigned32(v), 4)
}

pub open spec fn parse_i32(s: Seq<u8>) -> Result<(i32, Seq<u8>), Error> {
    match parse_be(s, 4) {
        Ok((n, rest)) => Ok((signed32(n), rest)),
        Err(e) => Err(e),
    }
}

/// A 32-bit float travels as the four bytes of its IEEE 754 bit pattern,
/// big-endian. The pattern is kept bit for bit; this crate does no arithmetic
/// on it.
pub open spec fn float_bytes(bits: u32) -> Seq<u8> {
    be_bytes(bits as nat, 4)
}

pub open spec fn parse_float(s: Seq<u8>) -> Result<(u32, Seq<u8>), Error> {
    match parse_be(s, 4) {
        Ok((n, rest)) => Ok((n as u32, rest)),
        Err(e) => Err(e),
    }
}

/// A block position travels as one packed 64-bit integer, big-endian. How the
/// three coordinates are packed into it is not this crate's concern.
pub open spec fn position_bytes(packed: u64) -> Seq<u8> {
    be_bytes(packed as nat, 8)
}

pub open spec fn parse_position(s: Seq<u8>) -> Result<(u64, Seq<u8>), Error> {
    match parse_be(s, 8) {
        Ok((n, rest)) => Ok((n as u64, rest)),
        Err(e) => Err(e),
    }
}

/// A boolean is one byte, 1 for true and 0 for false.
pub open spec fn bool_bytes(b: bool) -> Seq<u8> {
    seq![if b { 1u8 } else { 0u8 }]
}

/// Reads one byte as a boolean. Only 0 and 1 are booleans.
pub open spec fn parse_bool(s: Seq<u8>) -> Result<(bool, Seq<u8>), Error> {
    if s.len() == 0 {
        Err(Error::IoFailure)
    } else if s[0] == 0 {
        Ok((false, s.skip(1)))
    } else if s[0] == 1 {
        Ok((true, s.skip(1)))
    } else {
        Err(Error::MalformedPrimitive(Malformed::InvalidBool(s[0])))
    }
}

/// A byte array behind its length, which is a variable-length integer.
/// Meant for payloads of at most `MAX_LENGTH` bytes.
pub open spec fn prefixed(payload: Seq<u8>) -> Seq<u8> {
    varint_bytes(payload.len() as i32) + payload
}

/// Reads a length and then that many bytes.
pub open spec fn parse_prefixed(s: Seq<u8>) -> Result<(Seq<u8>, Seq<u8>), Error> {
    match parse_varint(s) {
        Ok((n, rest)) => if n < 0 {
            Err(Error::MalformedPrimitive(Malformed::InvalidLength))
        } else if rest.len() < n {
            Err(Error::IoFailure)
        } else {
            Ok((rest.take(n as int), rest.skip(n as int)))
        },
        Err(e) => Err(e),
    }
}

/// A string is the byte array of its UTF-8 encoding, behind the length of
/// that encoding.
pub open spec fn string_bytes(chars: Seq<char>) -> Seq<u8> {
    prefixed(encode_utf8(chars))
}

/// Reads a length-prefixed byte array and decodes it as UTF-8.
pub open spec fn parse_string(s: Seq<u8>) -> Result<(Seq<char>, Seq<u8>), Error> {
    match parse_prefixed(s) {
        Ok((payload, rest)) => if valid_utf8(payload) {
            Ok((decode_utf8(payload), rest))
        } else {
            Err(Error::MalformedPrimitive(Malformed::InvalidUtf8))
        },
        Err(e) => Err(e),
    }
}

/// The powers of 256 that the fixed-width integers need.
pub proof fn lemma_pow256_values()
    ensures
        pow256(0) == 1,
        pow256(1) == 0x100,
        pow256(2) == 0x1_0000,
        pow256(3) == 0x100_0000,
        pow256(4) == 0x1_0000_0000,
        pow256(5) == 0x100_0000_0000,
        pow256(6) == 0x1_0000_0000_0000,
        pow256(7) == 0x100_0000_0000_0000,
        pow256(8) == 0x1_0000_0000_0000_0000,
{
    reveal_with_fuel(pow256, 9);
}

/// `be_bytes` gives exactly `width` bytes.
pub proof fn lemma_be_bytes_len(n: nat, width: nat)
    ensures
        be_bytes(n, width).len() == width,
    decreases width,
{
    if width > 0 {
        lemma_be_bytes_len(n / 256, (width - 1) as nat);
    }
}

/// A number of `s.len()` base-256 digits is below `pow256(s.len())`.
pub proof fn lemma_be_value_bound(s: Seq<u8>)
    ensures
        be_value(s) < pow256(s.len()),
    decreases s.len(),
{
    if s.len() > 0 {
        lemma_be_value_bound(s.drop_last());
    }
}

/// The digits of a number that fits in `width` digits give the number back.
pub proof fn lemma_be_value_of_bytes(n: nat, width: nat)
    requires
        n < pow256(width),
    ensures
        be_value(be_bytes(n, width)) == n,
    decreases width,
{
    if width > 0 {
        let s = be_bytes(n, width);
        lemma_be_bytes_len(n, width);
        assert(s.drop_last() =~= be_bytes(n / 256, (width - 1) as nat));
        lemma_be_value_of_bytes(n / 256, (width - 1) as nat);
    }
}

/// A fixed-width integer that was written reads back as itself, whatever
/// follows it.
pub proof fn lemma_be_round_trip(n: nat, width: nat, rest: Seq<u8>)
    requires
        n < pow256(width),
    ensures
        parse_be(be_bytes(n, width) + rest, width) == Ok::<(nat, Seq<u8>), Error>((n, rest)),
{
    let s = be_bytes(n, width) + rest;
    lemma_be_bytes_len(n, width);
    lemma_be_value_of_bytes(n, width);
    assert(s.take(width as int) =~= be_bytes(n, width));
    assert(s.skip(width as int) =~= rest);
}

pub proof fn lemma_u16_round_trip(v: u16, rest: Seq<u8>)
    ensures
        parse_u16(u16_bytes(v) + rest) == Ok::<(u16, Seq<u8>), Error>((v, rest)),
{
    lemma_pow256_values();
    lemma_be_round_trip(v as nat, 2, rest);
}

pub proof fn lemma_i32_round_trip(v: i32, rest: Seq<u8>)
    ensures
        parse_i32(i32_bytes(v) + rest) == Ok::<(i32, Seq<u8>), Error>((v, rest)),
{
    lemma_pow256_values();
    lemma_be_round_trip(unsigned32(v), 4, rest);
}

pub proof fn lemma_float_round_trip(bits: u32, rest: Seq<u8>)
    ensures
        parse_float(float_bytes(bits) + rest) == Ok::<(u32, Seq<u8>), Error>((bits, rest)),
{
    lemma_pow256_values();
    lemma_be_round_trip(bits as nat, 4, rest);
}

pub proof fn lemma_position_round_trip(packed: u64, rest: Seq<u8>)
    ensures
        parse_position(position_bytes(packed) + rest) == Ok::<(u64, Seq<u8>), Error>(
            (packed, rest),
        ),
{
    lemma_pow256_values();
    lemma_be_round_trip(packed as nat, 8, rest);
}

pub proof fn lemma_bool_round_trip(b: bool, rest: Seq<u8>)
    ensures
        parse_bool(bool_bytes(b) + rest) == Ok::<(bool, Seq<u8>), Error>((b, rest)),
{
    assert((bool_bytes(b) + rest).skip(1) =~= rest);
}

/// A byte array short enough for its prefix reads back as itself, whatever
/// follows it.
pub proof fn lemma_prefixed_round_trip(payload: Seq<u8>, rest: Seq<u8>)
    requires
        payload.len() <= MAX_LENGTH,
    ensures
        parse_prefixed(prefixed(payload) + rest) == Ok::<(Seq<u8>, Seq<u8>), Error>(
            (payload, rest),
        ),
{
    let n = payload.len() as i32;
    assert(prefixed(payload) + rest =~= varint_bytes(n) + (payload + rest));
    lemma_varint_round_trip(n, payload + rest);
    assert((payload + rest).take(n as int) =~= payload);
    assert((payload + rest).skip(n as int) =~= rest);
}

/// A string whose encoding is short enough for its prefix reads back as
/// itself, whatever follows it.
pub proof fn lemma_string_round_trip(chars: Seq<char>, rest: Seq<u8>)
    requires
        encode_utf8(chars).len() <= MAX_LENGTH,
    ensures
        parse_string(string_bytes(chars) + rest) == Ok::<(Seq<char>, Seq<u8>), Error>(
            (chars, rest),
        ),
{
    lemma_prefixed_round_trip(encode_utf8(chars), rest);
    encode_utf8_valid_utf8(chars);
    encode_utf8_decode_utf8(chars);
}

fn push_be(n: u64, width: usize, out: &mut Vec<u8>)
    ensures
        final(out)@ == old(out)@ + be_bytes(n as nat, width as nat),
    decreases width,
{
    if width > 0 {
        push_be(n / 256, width - 1, out);
        out.push((n % 256) as u8);
        assert(out@ =~= old(out)@ + be_bytes(n as nat, width as nat));
    } else {
        assert(out@ =~= old(out)@ + be_bytes(n as nat, 0));
    }
}

fn read_be(r: &mut Reader, width: usize) -> (res: Result<u64, Error>)
    requires
        width <= 8,
    ensures
        match parse_be(old(r)@, width as nat) {
            Ok((n, rest)) => res matches Ok(found) && found == n && final(r)@ == rest,
            Err(e) => res matches Err(f) && f == e && final(r)@ == old(r)@,
        },
{
    match r.take(width) {
        Ok(bytes) => {
            let mut acc: u64 = 0;
            let mut i: usize = 0;
            while i < width
                invariant
                    i <= width <= 8,
                    bytes@.len() == width,
                    acc == be_value(bytes@.take(i as int)),
                decreases width - i,
            {
                proof {
                    lemma_be_value_bound(bytes@.take(i as int));
                    lemma_pow256_values();
                    assert(bytes@.take(i + 1).drop_last() =~= bytes@.take(i as int));
                }
                acc = acc * 256 + bytes[i] as u64;
                i = i + 1;
            }
            assert(bytes@.take(width as int) =~= bytes@);
            Ok(acc)
        },
        Err(e) => Err(e),
    }
}

/// Appends `v` as two bytes.
pub fn write_u16(v: u16, out: &mut Vec<u8>)
    ensures
        final(out)@ == old(out)@ + u16_bytes(v),
{
    push_be(v as u64, 2, out)
}

/// Reads two bytes as an unsigned integer.
pub fn read_u16(r: &mut Reader) -> (res: Result<u16, Error>)
    ensures
        match parse_u16(old(r)@) {
            Ok((v, rest)) => res matches Ok(found) && found == v && final(r)@ == rest,
            Err(e) => res matches Err(f) && f == e && final(r)@ == old(r)@,
        },
{
    proof {
        lemma_be_value_bound(r@.take(2));
        lemma_pow256_values();
    }
    match read_be(r, 2) {
        Ok(n) => Ok(n as u16),
        Err(e) => Err(e),
    }
}

/// Appends `v` as four bytes.
pub fn write_i32(v: i32, out: &mut Vec<u8>)
    ensures
        final(out)@ == old(out)@ + i32_bytes(v),
{
    push_be(unsigned_of(v), 4, out)
}

/// Reads four bytes as a signed integer.
pub fn read_i32(r: &mut Reader) -> (res: Result<i32, Error>)
    ensures
        match parse_i32(old(r)@) {
            Ok((v, rest)) => res matches Ok(found) && found == v && final(r)@ == rest,
            Err(e) => res matches Err(f) && f == e && final(r)@ == old(r)@,
        },
{
    proof {
        lemma_be_value_bound(r@.take(4));
        lemma_pow256_values();
    }
    match read_be(r, 4) {
        Ok(n) => Ok(signed_of(n)),
        Err(e) => Err(e),
    }
}

/// Appends the bit pattern of a 32-bit float as four bytes.
pub fn write_float(bits: u32, out: &mut Vec<u8>)
    ensures
        final(out)@ == old(out)@ + float_bytes(bits),
{
    push_be(bits as u64, 4, out)
}

/// Reads four bytes as the bit pattern of a 32-bit float.
pub fn read_float(r: &mut Reader) -> (res: Result<u32, Error>)
    ensures
        match parse_float(old(r)@) {
            Ok((v, rest)) => res matches Ok(found) && found == v && final(r)@ == rest,
            Err(e) => res matches Err(f) && f == e && final(r)@ == old(r)@,
        },
{
    proof {
        lemma_be_value_bound(r@.take(4));
        lemma_pow256_values();
    }
    match read_be(r, 4) {
        Ok(n) => Ok(n as u32),
        Err(e) => Err(e),
    }
}

/// Appends a packed block position as eight bytes.
pub fn write_position(packed: u64, out: &mut Vec<u8>)
    ensures
        final(out)@ == old(out)@ + position_bytes(packed),
{
    push_be(packed, 8, out)
}

/// Reads eight bytes as a packed block position.
pub fn read_position(r: &mut Reader) -> (res: Result<u64, Error>)
    ensures
        match parse_position(old(r)@) {
            Ok((v, rest)) => res matches Ok(found) && found == v && final(r)@ == rest,
            Err(e) => res matches Err(f) && f == e && final(r)@ == old(r)@,
        },
{
    read_be(r, 8)
}

/// Appends `b` as one byte.
pub fn write_bool(b: bool, out: &mut Vec<u8>)
    ensures
        final(out)@ == old(out)@ + bool_bytes(b),
{
    let byte: u8 = if b { 1 } else { 0 };
    out.push(byte);
    assert(out@ =~= old(out)@ + bool_bytes(b));
}

/// Reads one byte as a boolean.
pub fn read_bool(r: &mut Reader) -> (res: Result<bool, Error>)
    ensures
        match parse_bool(old(r)@) {
            Ok((v, rest)) => res matches Ok(found) && found == v && final(r)@ == rest,
            Err(e) => res matches Err(f) && f == e && final(r)@ == old(r)@,
        },
{
    let mut probe = *r;
    match probe.take(1) {
        Ok(bytes) => {
            let byte: u8 = bytes[0];
            if byte == 0 {
                *r = probe;
                Ok(false)
            } else if byte == 1 {
                *r = probe;
                Ok(true)
            } else {
                Err(Error::MalformedPrimitive(Malformed::InvalidBool(byte)))
            }
        },
        Err(e) => Err(e),
    }
}

fn push_all(bytes: &[u8], out: &mut Vec<u8>)
    ensures
        final(out)@ == old(out)@ + bytes@,
{
    let mut i: usize = 0;
    while i < bytes.len()
        invariant
            i <= bytes@.len(),
            out@ == old(out)@ + bytes@.take(i as int),
        decreases bytes@.len() - i,
    {
        out.push(bytes[i]);
        i = i + 1;
        assert(out@ =~= old(out)@ + bytes@.take(i as int));
    }
    assert(bytes@.take(i as int) =~= bytes@);
}

/// Appends the length of `bytes` and then `bytes`, unless there are more of
/// them than a length prefix can say.
pub fn write_bytearray(bytes: &[u8], out: &mut Vec<u8>) -> (res: Result<(), Error>)
    ensures
        match res {
            Ok(_) => bytes@.len() <= MAX_LENGTH && final(out)@ == old(out)@ + prefixed(bytes@),
            Err(e) => bytes@.len() > MAX_LENGTH && e == Error::MalformedPrimitive(
                Malformed::InvalidLength,
            ) && final(out)@ == old(out)@,
        },
{
    if bytes.len() > MAX_LENGTH {
        return Err(Error::MalformedPrimitive(Malformed::InvalidLength));
    }
    write_varint(bytes.len() as i32, out);
    push_all(bytes, out);
    assert(out@ =~= old(out)@ + prefixed(bytes@));
    Ok(())
}

fn take_prefixed<'a>(r: &mut Reader<'a>) -> (res: Result<&'a [u8], Error>)
    ensures
        match parse_prefixed(old(r)@) {
            Ok((payload, rest)) => res matches Ok(found) && found@ == payload && final(r)@
                == rest,
            Err(e) => res matches Err(f) && f == e && final(r)@ == old(r)@,
        },
{
    let mut probe = *r;
    match read_varint(&mut probe) {
        Ok(n) => {
            if n < 0 {
                return Err(Error::MalformedPrimitive(Malformed::InvalidLength));
            }
            match probe.take(n as usize) {
                Ok(bytes) => {
                    *r = probe;
                    Ok(bytes)
                },
                Err(e) => Err(e),
            }
        },
        Err(e) => Err(e),
    }
}

/// Reads a length and then that many bytes.
pub fn read_bytearray(r: &mut Reader) -> (res: Result<Vec<u8>, Error>)
    ensures
        match parse_prefixed(old(r)@) {
            Ok((payload, rest)) => res matches Ok(found) && found@ == payload && final(r)@
                == rest,
            Err(e) => res matches Err(f) && f == e && final(r)@ == old(r)@,
        },
{
    match take_prefixed(r) {
        Ok(bytes) => Ok(slice_to_vec(bytes)),
        Err(e) => Err(e),
    }
}

/// Appends the length of the UTF-8 encoding of `s` and then the encoding,
/// unless it is longer than a length prefix can say.
pub fn write_string(s: &str, out: &mut Vec<u8>) -> (res: Result<(), Error>)
    ensures
        match res {
            Ok(_) => encode_utf8(s@).len() <= MAX_LENGTH && final(out)@ == old(out)@
                + string_bytes(s@),
            Err(e) => encode_utf8(s@).len() > MAX_LENGTH && e == Error::MalformedPrimitive(
                Malformed::InvalidLength,
            ) && final(out)@ == old(out)@,
        },
{
    write_bytearray(s.as_bytes(), out)
}

/// The error of `core::str::from_utf8`. It is not looked into.
#[verifier::external_type_specification]
#[verifier::external_body]
pub struct ExUtf8Error(Utf8Error);

/// `core::str::from_utf8` accepts exactly the byte sequences that are valid
/// UTF-8, and the string slice it gives has the bytes it was given.
pub assume_specification<'a>[ core::str::from_utf8 ](v: &'a [u8]) -> (res: Result<
    &'a str,
    Utf8Error,
>)
    ensures
        res is Ok <==> valid_utf8(v@),
        res matches Ok(s) ==> encode_utf8(s@) == v@,
;

/// Reads a length-prefixed UTF-8 string.
pub fn read_string(r: &mut Reader) -> (res: Result<String, Error>)
    ensures
        match parse_string(old(r)@) {
            Ok((chars, rest)) => res matches Ok(found) && found@ == chars && final(r)@ == rest,
            Err(e) => res matches Err(f) && f == e && final(r)@ == old(r)@,
        },
{
    let mut probe = *r;
    match take_prefixed(&mut probe) {
        Ok(bytes) => match core::str::from_utf8(bytes) {
            Ok(s) => {
                proof {
                    encode_utf8_decode_utf8(s@);
                }
                *r = probe;
                Ok(s.to_owned())
            },
            Err(_) => Err(Error::MalformedPrimitive(Malformed::InvalidUtf8)),
        },
        Err(e) => Err(e),
    }
}

/// A byte array that was read is short enough to be written again.
pub proof fn lemma_parse_prefixed_bound(s: Seq<u8>)
    ensures
        parse_prefixed(s) matches Ok((payload, rest)) ==> payload.len() <= MAX_LENGTH,
{
}

/// A string that was read is short enough to be written again.
pub proof fn lemma_parse_string_bound(s: Seq<u8>)
    ensures
        parse_string(s) matches Ok((chars, rest)) ==> encode_utf8(chars).len() <= MAX_LENGTH,
{
    if let Ok((payload, rest)) = parse_prefixed(s) {
        if valid_utf8(payload) {
            decode_utf8_encode_utf8(payload);
        }
    }
}

/// `rest` is what is left of `s` once some bytes are taken off its front.
pub open spec fn is_suffix(rest: Seq<u8>, s: Seq<u8>) -> bool {
    rest.len() <= s.len() && rest == s.skip(s.len() - rest.len())
}

/// The bytes of `s` that come before its suffix `rest`.
pub open spec fn taken(s: Seq<u8>, rest: Seq<u8>) -> Seq<u8> {
    s.take(s.len() - rest.len())
}

/// What is taken by two readers in a row is what the first took followed by
/// what the second took.
pub proof fn lemma_taken_in_turn(s: Seq<u8>, middle: Seq<u8>, rest: Seq<u8>, t: Seq<u8>)
    requires
        is_suffix(middle, s),
        is_suffix(rest, middle),
    ensures
        is_suffix(rest, s),
        taken(s, rest) + t == taken(s, middle) + (taken(middle, rest) + t),
{
    assert(s.skip(s.len() - middle.len()).skip(middle.len() - rest.len()) =~= s.skip(
        s.len() - rest.len(),
    ));
    assert(taken(s, rest) + t =~= taken(s, middle) + (taken(middle, rest) + t));
}

/// A base-128 number is read from its own bytes alone: what follows them is
/// left as it is and has no say in the number.
pub proof fn lemma_parse_leb128_local(s: Seq<u8>, limit: nat, t: Seq<u8>)
    ensures
        parse_leb128(s, limit) matches Ok((m, rest)) ==> is_suffix(rest, s) && rest.len()
            < s.len() && parse_leb128(taken(s, rest) + t, limit) == Ok::<(nat, Seq<u8>), Error>(
            (m, t),
        ),
    decreases limit,
{
    if let Ok((m, rest)) = parse_leb128(s, limit) {
        let u = taken(s, rest) + t;
        if s[0] < 128 {
            assert(u[0] == s[0]);
            assert(u.skip(1) =~= t);
        } else {
            let tail = s.skip(1);
            lemma_parse_leb128_local(tail, (limit - 1) as nat, t);
            assert(tail.skip(tail.len() - rest.len()) =~= s.skip(s.len() - rest.len()));
            assert(u[0] == s[0]);
            assert(u.skip(1) =~= taken(tail, rest) + t);
        }
    }
}

pub proof fn lemma_parse_varint_local(s: Seq<u8>, t: Seq<u8>)
    ensures
        parse_varint(s) matches Ok((v, rest)) ==> is_suffix(rest, s) && parse_varint(
            taken(s, rest) + t,
        ) == Ok::<(i32, Seq<u8>), Error>((v, t)),
{
    lemma_parse_leb128_local(s, 5, t);
}

/// A fixed-width number is read from its own bytes alone.
pub proof fn lemma_parse_be_local(s: Seq<u8>, width: nat, t: Seq<u8>)
    ensures
        parse_be(s, width) matches Ok((n, rest)) ==> is_suffix(rest, s) && parse_be(
            taken(s, rest) + t,
            width,
        ) == Ok::<(nat, Seq<u8>), Error>((n, t)),
{
    if let Ok((n, rest)) = parse_be(s, width) {
        let u = taken(s, rest) + t;
        assert(taken(s, rest) =~= s.take(width as int));
        assert(u.take(width as int) =~= s.take(width as int));
        assert(u.skip(width as int) =~= t);
    }
}

pub proof fn lemma_parse_u16_local(s: Seq<u8>, t: Seq<u8>)
    ensures
        parse_u16(s) matches Ok((v, rest)) ==> is_suffix(rest, s) && parse_u16(taken(s, rest) + t)
            == Ok::<(u16, Seq<u8>), Error>((v, t)),
{
    lemma_parse_be_local(s, 2, t);
}

pub proof fn lemma_parse_i32_local(s: Seq<u8>, t: Seq<u8>)
    ensures
        parse_i32(s) matches Ok((v, rest)) ==> is_suffix(rest, s) && parse_i32(taken(s, rest) + t)
            == Ok::<(i32, Seq<u8>), Error>((v, t)),
{
    lemma_parse_be_local(s, 4, t);
}

pub proof fn lemma_parse_float_local(s: Seq<u8>, t: Seq<u8>)
    ensures
        parse_float(s) matches Ok((v, rest)) ==> is_suffix(rest, s) && parse_float(
            taken(s, rest) + t,
        ) == Ok::<(u32, Seq<u8>), Error>((v, t)),
{
    lemma_parse_be_local(s, 4, t);
}

pub proof fn lemma_parse_position_local(s: Seq<u8>, t: Seq<u8>)
    ensures
        parse_position(s) matches Ok((v, rest)) ==> is_suffix(rest, s) && parse_position(
            taken(s, rest) + t,
        ) == Ok::<(u64, Seq<u8>), Error>((v, t)),
{
    lemma_parse_be_local(s, 8, t);
}

pub proof fn lemma_parse_bool_local(s: Seq<u8>, t: Seq<u8>)
    ensures
        parse_bool(s) matches Ok((v, rest)) ==> is_suffix(rest, s) && parse_bool(
            taken(s, rest) + t,
        ) == Ok::<(bool, Seq<u8>), Error>((v, t)),
{
    if let Ok((v, rest)) = parse_bool(s) {
        let u = taken(s, rest) + t;
        assert(u[0] == s[0]);
        assert(u.skip(1) =~= t);
    }
}

/// A byte array is read from its prefix and its own bytes alone.
pub proof fn lemma_parse_prefixed_local(s: Seq<u8>, t: Seq<u8>)
    ensures
        parse_prefixed(s) matches Ok((payload, rest)) ==> is_suffix(rest, s) && parse_prefixed(
            taken(s, rest) + t,
        ) == Ok::<(Seq<u8>, Seq<u8>), Error>((payload, t)),
{
    if let Ok((payload, rest)) = parse_prefixed(s) {
        let (n, body) = parse_varint(s)->Ok_0;
        lemma_parse_varint_local(s, taken(body, rest) + t);
        lemma_taken_in_turn(s, body, rest, t);
        assert(taken(body, rest) =~= payload);
        assert((payload + t).take(n as int) =~= payload);
        assert((payload + t).skip(n as int) =~= t);
    }
}

/// A string is read from its prefix and its own bytes alone.
pub proof fn lemma_parse_string_local(s: Seq<u8>, t: Seq<u8>)
    ensures
        parse_string(s) matches Ok((chars, rest)) ==> is_suffix(rest, s) && parse_string(
            taken(s, rest) + t,
        ) == Ok::<(Seq<char>, Seq<u8>), Error>((chars, t)),
{
    lemma_parse_prefixed_local(s, t);
}

} // verus!
