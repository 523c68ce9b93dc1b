//! Fixed-width big-endian integers: their bytes as a mathematical function,
//! and the calls that produce and read them.

use crate::error::{DeserializeError, ReadFault};
use crate::reader::WrapRead;
use byteorder::{BigEndian, ByteOrder};
use vstd::prelude::*;

verus! {

/// The `width` low-order base-256 digits of `v`, most significant first.
#[verifier::opaque]
pub open spec fn be_bytes(v: nat, width: nat) -> Seq<u8>
    decreases width,
{
    if width == 0 {
        Seq::empty()
    } else {
        be_bytes(v / 256, (width - 1) as nat).push((v % 256) as u8)
    }
}

/// The number whose base-256 digits, most significant first, are `s`.
#[verifier::opaque]
pub open spec fn be_value(s: Seq<u8>) -> nat
    decreases s.len(),
{
    if s.len() == 0 {
        0
    } else {
        be_value(s.drop_last()) * 256 + s.last() as nat
    }
}

/// The number of values that `width` bytes can hold.
pub open spec fn radix(width: nat) -> nat
    decreases width,
{
    if width == 0 {
        1
    } else {
        256 * radix((width - 1) as nat)
    }
}

/// The number of values of one, two, four and eight bytes.
pub proof fn lemma_radix()
    ensures
        radix(1) == 0x100,
        radix(2) == 0x1_0000,
        radix(4) == 0x1_0000_0000,
        radix(8) == 0x1_0000_0000_0000_0000,
{
    reveal_with_fuel(radix, 9);
}

/// A number in `width` bytes has `width` bytes.
pub proof fn lemma_be_bytes_len(v: nat, width: nat)
    ensures
        be_bytes(v, width).len() == width,
    decreases width,
{
    reveal(be_bytes);
    if width > 0 {
        lemma_be_bytes_len(v / 256, (width - 1) as nat);
    }
}

/// A value that fits `width` bytes is read back from its bytes.
pub proof fn lemma_be_value_of_bytes(v: nat, width: nat)
    requires
        v < radix(width),
    ensures
        be_value(be_bytes(v, width)) == v,
    decreases width,
{
    reveal(be_bytes);
    reveal(be_value);
    if width > 0 {
        let head = be_bytes(v / 256, (width - 1) as nat);
        lemma_be_value_of_bytes(v / 256, (width - 1) as nat);
        assert(be_bytes(v, width).drop_last() == head);
    }
}

/// The value of `s` fits its length, and its bytes are `s` again.
pub proof fn lemma_be_bytes_of_value(s: Seq<u8>)
    ensures
        be_value(s) < radix(s.len()),
        be_bytes(be_value(s), s.len()) == s,
    decreases s.len(),
{
    reveal(be_bytes);
    reveal(be_value);
    if s.len() > 0 {
        lemma_be_bytes_of_value(s.drop_last());
        let v = be_value(s);
        assert(v / 256 == be_value(s.drop_last()));
        assert(v % 256 == s.last() as nat);
        assert(be_bytes(v, s.len()) == s);
    }
}

/// `byteorder::BigEndian::write_u16` on a buffer of two bytes: the two bytes
/// of `v`, most significant first.
#[verifier::external_body]
pub(crate) fn be16(v: u16) -> (r: [u8; 2])
    ensures
        r@ == be_bytes(v as nat, 2),
{
    let mut buf = [0u8; 2];
    BigEndian::write_u16(&mut buf, v);
    buf
}

/// `byteorder::BigEndian::write_u32` on a buffer of four bytes.
#[verifier::external_body]
pub(crate) fn be32(v: u32) -> (r: [u8; 4])
    ensures
        r@ == be_bytes(v as nat, 4),
{
    let mut buf = [0u8; 4];
    BigEndian::write_u32(&mut buf, v);
    buf
}

/// `byteorder::BigEndian::write_u64` on a buffer of eight bytes.
#[verifier::external_body]
pub(crate) fn be64(v: u64) -> (r: [u8; 8])
    ensures
        r@ == be_bytes(v as nat, 8),
{
    let mut buf = [0u8; 8];
    BigEndian::write_u64(&mut buf, v);
    buf
}

/// `byteorder::BigEndian::read_u16`: the number held by the first two bytes.
/// The call panics on a shorter buffer.
#[verifier::external_body]
pub(crate) fn from_be16(buf: &[u8]) -> (r: u16)
    requires
        buf@.len() >= 2,
    ensures
        r as nat == be_value(buf@.take(2)),
{
    BigEndian::read_u16(buf)
}

/// `byteorder::BigEndian::read_u32`: the number held by the first four
/// bytes. The call panics on a shorter buffer.
#[verifier::external_body]
pub(crate) fn from_be32(buf: &[u8]) -> (r: u32)
    requires
        buf@.len() >= 4,
    ensures
        r as nat == be_value(buf@.take(4)),
{
    BigEndian::read_u32(buf)
}

/// `byteorder::BigEndian::read_u64`: the number held by the first eight
/// bytes. The call panics on a shorter buffer.
#[verifier::external_body]
pub(crate) fn from_be64(buf: &[u8]) -> (r: u64)
    requires
        buf@.len() >= 8,
    ensures
        r as nat == be_value(buf@.take(8)),
{
    BigEndian::read_u64(buf)
}

/// Appends `bytes` to the sink.
pub fn put_bytes(writer: &mut Vec<u8>, bytes: &[u8])
    ensures
        final(writer)@ == old(writer)@ + bytes@,
{
    let mut i: usize = 0;
    while i < bytes.len()
        invariant
            i <= bytes.len(),
            writer@ == old(writer)@ + bytes@.take(i as int),
        decreases bytes.len() - i,
    {
        writer.push(bytes[i]);
        i += 1;
    }
    assert(bytes@.take(i as int) == bytes@);
}

/// Appends the `width` bytes of an unsigned number, most significant first.
pub fn put_uint(writer: &mut Vec<u8>, v: u64, width: usize)
    requires
        width == 1 || width == 2 || width == 4 || width == 8,
        v < radix(width as nat),
    ensures
        final(writer)@ == old(writer)@ + be_bytes(v as nat, width as nat),
{
    proof {
        lemma_radix();
    }
    if width == 1 {
        proof {
            reveal_with_fuel(be_bytes, 2);
        }
        writer.push(v as u8);
        assert(be_bytes(v as nat, 1) == seq![v as u8]);
    } else if width == 2 {
        let b = be16(v as u16);
        put_bytes(writer, b.as_slice());
    } else if width == 4 {
        let b = be32(v as u32);
        put_bytes(writer, b.as_slice());
    } else {
        let b = be64(v);
        put_bytes(writer, b.as_slice());
    }
}

/// What reading an unsigned number of `width` bytes makes of `input`: the
/// number and `width` bytes used, or end of input with all of it used.
#[verifier::opaque]
pub open spec fn parse_uint(input: Seq<u8>, width: nat) -> (Option<nat>, nat) {
    if width <= input.len() {
        (Some(be_value(input.take(width as int))), width)
    } else {
        (None, input.len())
    }
}

/// Reads an unsigned number of `width` bytes, most significant first.
pub fn get_uint(reader: &mut WrapRead, width: usize) -> (r: Result<u64, DeserializeError>)
    requires
        width == 1 || width == 2 || width == 4 || width == 8,
    ensures
        match r {
            Ok(v) => parse_uint(old(reader)@, width as nat).0 == Some(v as nat) && v < radix(
                width as nat,
            ),
            Err(e) => parse_uint(old(reader)@, width as nat).0 is None && e@
                == ReadFault::UnexpectedEof,
        },
        parse_uint(old(reader)@, width as nat).1 <= old(reader)@.len(),
        final(reader)@ == old(reader)@.skip(parse_uint(old(reader)@, width as nat).1 as int),
{
    proof {
        reveal(parse_uint);
    }
    let bytes = reader.read_exact(width)?;
    proof {
        lemma_radix();
        lemma_be_bytes_of_value(bytes@);
        assert(bytes@.take(width as int) == bytes@);
    }
    if width == 1 {
        proof {
            reveal_with_fuel(be_value, 2);
        }
        Ok(bytes[0] as u64)
    } else if width == 2 {
        Ok(from_be16(bytes) as u64)
    } else if width == 4 {
        Ok(from_be32(bytes) as u64)
    } else {
        Ok(from_be64(bytes))
    }
}

} // verus!
