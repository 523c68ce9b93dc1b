//! Numbers, booleans and the unit value: fixed-width, big-endian, the same
//! under every configuration.

use crate::cfg::MtCfg;
use crate::codec::{done, failed, MtDeserialize, MtRoundTrip, MtSerialize, Parsed};
use crate::endian::{
    be_bytes, get_uint, lemma_be_bytes_len, lemma_be_value_of_bytes, lemma_radix, parse_uint,
    put_uint, radix,
};
use crate::error::{DeserializeError, ReadFault, SerializeError, WriteFault};
use crate::reader::WrapRead;
use vstd::prelude::*;

verus! {

/// What reading a number of `width` bytes makes of `input`, the number
/// taken as `conv` says.
#[verifier::opaque]
pub open spec fn parse_int<V>(input: Seq<u8>, width: nat, conv: spec_fn(nat) -> V) -> Parsed<V> {
    let (v, used) = parse_uint(input, width);
    match v {
        Some(n) => done(conv(n), used),
        None => failed(ReadFault::UnexpectedEof, used),
    }
}

/// The bytes of a number that fits its width, followed by anything, are
/// read back as that number.
pub proof fn lemma_uint_round_trip(v: nat, width: nat, rest: Seq<u8>)
    requires
        v < radix(width),
    ensures
        parse_uint(be_bytes(v, width) + rest, width) == (Some(v), width),
        be_bytes(v, width).len() == width,
{
    reveal(parse_uint);
    lemma_be_bytes_len(v, width);
    lemma_be_value_of_bytes(v, width);
    assert((be_bytes(v, width) + rest).take(width as int) == be_bytes(v, width));
}

impl MtSerialize for u8 {
    open spec fn fits(v: u8, cfg: MtCfg) -> bool {
        true
    }

    open spec fn wire(v: u8, cfg: MtCfg) -> Seq<u8> {
        be_bytes(v as nat, 1)
    }

    /// Never refused.
    open spec fn fault(v: u8, cfg: MtCfg) -> WriteFault {
        WriteFault::TooBig
    }

    fn mt_serialize(&self, cfg: MtCfg, writer: &mut Vec<u8>) -> (r: Result<(), SerializeError>) {
        proof {
            lemma_radix();
        }
        put_uint(writer, *self as u64, 1);
        Ok(())
    }
}

impl MtDeserialize for u8 {
    open spec fn parse(cfg: MtCfg, input: Seq<u8>) -> Parsed<u8> {
        parse_int(input, 1, |n: nat| n as u8)
    }

    fn mt_deserialize(cfg: MtCfg, reader: &mut WrapRead) -> (r: Result<u8, DeserializeError>) {
        proof {
            reveal(parse_int);
            lemma_radix();
        }
        let n = get_uint(reader, 1)?;
        Ok(n as u8)
    }
}

impl MtRoundTrip for u8 {
    open spec fn sound(v: u8, cfg: MtCfg, rest: Seq<u8>) -> bool {
        true
    }

    proof fn lemma_round_trip(v: u8, cfg: MtCfg, rest: Seq<u8>) {
        reveal(parse_int);
        lemma_radix();
        lemma_uint_round_trip(v as nat, 1, rest);
    }
}

impl MtSerialize for i8 {
    open spec fn fits(v: i8, cfg: MtCfg) -> bool {
        true
    }

    open spec fn wire(v: i8, cfg: MtCfg) -> Seq<u8> {
        be_bytes((v as u8) as nat, 1)
    }

    /// Never refused.
    open spec fn fault(v: i8, cfg: MtCfg) -> WriteFault {
        WriteFault::TooBig
    }

    fn mt_serialize(&self, cfg: MtCfg, writer: &mut Vec<u8>) -> (r: Result<(), SerializeError>) {
        proof {
            lemma_radix();
        }
        let bits = #[verifier::truncate] (*self as u8);
        put_uint(writer, bits as u64, 1);
        Ok(())
    }
}

impl MtDeserialize for i8 {
    open spec fn parse(cfg: MtCfg, input: Seq<u8>) -> Parsed<i8> {
        parse_int(input, 1, |n: nat| (n as u8) as i8)
    }

    fn mt_deserialize(cfg: MtCfg, reader: &mut WrapRead) -> (r: Result<i8, DeserializeError>) {
        proof {
            reveal(parse_int);
            lemma_radix();
        }
        let n = get_uint(reader, 1)?;
        let bits = n as u8;
        Ok(#[verifier::truncate] (bits as i8))
    }
}

impl MtRoundTrip for i8 {
    open spec fn sound(v: i8, cfg: MtCfg, rest: Seq<u8>) -> bool {
        true
    }

    proof fn lemma_round_trip(v: i8, cfg: MtCfg, rest: Seq<u8>) {
        reveal(parse_int);
        lemma_radix();
        lemma_uint_round_trip((v as u8) as nat, 1, rest);
        assert((v as u8) as i8 == v) by (bit_vector);
    }
}

impl MtSerialize for u16 {
    open spec fn fits(v: u16, cfg: MtCfg) -> bool {
        true
    }

    open spec fn wire(v: u16, cfg: MtCfg) -> Seq<u8> {
        be_bytes(v as nat, 2)
    }

    /// Never refused.
    open spec fn fault(v: u16, cfg: MtCfg) -> WriteFault {
        WriteFault::TooBig
    }

    fn mt_serialize(&self, cfg: MtCfg, writer: &mut Vec<u8>) -> (r: Result<(), SerializeError>) {
        proof {
            lemma_radix();
        }
        put_uint(writer, *self as u64, 2);
        Ok(())
    }
}

impl MtDeserialize for u16 {
    open spec fn parse(cfg: MtCfg, input: Seq<u8>) -> Parsed<u16> {
        parse_int(input, 2, |n: nat| n as u16)
    }

    fn mt_deserialize(cfg: MtCfg, reader: &mut WrapRead) -> (r: Result<u16, DeserializeError>) {
        proof {
            reveal(parse_int);
            lemma_radix();
        }
        let n = get_uint(reader, 2)?;
        Ok(n as u16)
    }
}

impl MtRoundTrip for u16 {
    open spec fn sound(v: u16, cfg: MtCfg, rest: Seq<u8>) -> bool {
        true
    }

    proof fn lemma_round_trip(v: u16, cfg: MtCfg, rest: Seq<u8>) {
        reveal(parse_int);
        lemma_radix();
        lemma_uint_round_trip(v as nat, 2, rest);
    }
}

impl MtSerialize for i16 {
    open spec fn fits(v: i16, cfg: MtCfg) -> bool {
        true
    }

    open spec fn wire(v: i16, cfg: MtCfg) -> Seq<u8> {
        be_bytes((v as u16) as nat, 2)
    }

    /// Never refused.
    open spec fn fault(v: i16, cfg: MtCfg) -> WriteFault {
        WriteFault::TooBig
    }

    fn mt_serialize(&self, cfg: MtCfg, writer: &mut Vec<u8>) -> (r: Result<(), SerializeError>) {
        proof {
            lemma_radix();
        }
        let bits = #[verifier::truncate] (*self as u16);
        put_uint(writer, bits as u64, 2);
        Ok(())
    }
}

impl MtDeserialize for i16 {
    open spec fn parse(cfg: MtCfg, input: Seq<u8>) -> Parsed<i16> {
        parse_int(input, 2, |n: nat| (n as u16) as i16)
    }

    fn mt_deserialize(cfg: MtCfg, reader: &mut WrapRead) -> (r: Result<i16, DeserializeError>) {
        proof {
            reveal(parse_int);
            lemma_radix();
        }
        let n = get_uint(reader, 2)?;
        let bits = n as u16;
        Ok(#[verifier::truncate] (bits as i16))
    }
}

impl MtRoundTrip for i16 {
    open spec fn sound(v: i16, cfg: MtCfg, rest: Seq<u8>) -> bool {
        true
    }

    proof fn lemma_round_trip(v: i16, cfg: MtCfg, rest: Seq<u8>) {
        reveal(parse_int);
        lemma_radix();
        lemma_uint_round_trip((v as u16) as nat, 2, rest);
        assert((v as u16) as i16 == v) by (bit_vector);
    }
}

impl MtSerialize for u32 {
    open spec fn fits(v: u32, cfg: MtCfg) -> bool {
        true
    }

    open spec fn wire(v: u32, cfg: MtCfg) -> Seq<u8> {
        be_bytes(v as nat, 4)
    }

    /// Never refused.
    open spec fn fault(v: u32, cfg: MtCfg) -> WriteFault {
        WriteFault::TooBig
    }

    fn mt_serialize(&self, cfg: MtCfg, writer: &mut Vec<u8>) -> (r: Result<(), SerializeError>) {
        proof {
            lemma_radix();
        }
        put_uint(writer, *self as u64, 4);
        Ok(())
    }
}

impl MtDeserialize for u32 {
    open spec fn parse(cfg: MtCfg, input: Seq<u8>) -> Parsed<u32> {
        parse_int(input, 4, |n: nat| n as u32)
    }

    fn mt_deserialize(cfg: MtCfg, reader: &mut WrapRead) -> (r: Result<u32, DeserializeError>) {
        proof {
            reveal(parse_int);
            lemma_radix();
        }
        let n = get_uint(reader, 4)?;
        Ok(n as u32)
    }
}

impl MtRoundTrip for u32 {
    open spec fn sound(v: u32, cfg: MtCfg, rest: Seq<u8>) -> bool {
        true
    }

    proof fn lemma_round_trip(v: u32, cfg: MtCfg, rest: Seq<u8>) {
        reveal(parse_int);
        lemma_radix();
        lemma_uint_round_trip(v as nat, 4, rest);
    }
}

impl MtSerialize for i32 {
    open spec fn fits(v: i32, cfg: MtCfg) -> bool {
        true
    }

    open spec fn wire(v: i32, cfg: MtCfg) -> Seq<u8> {
        be_bytes((v as u32) as nat, 4)
    }

    /// Never refused.
    open spec fn fault(v: i32, cfg: MtCfg) -> WriteFault {
        WriteFault::TooBig
    }

    fn mt_serialize(&self, cfg: MtCfg, writer: &mut Vec<u8>) -> (r: Result<(), SerializeError>) {
        proof {
            lemma_radix();
        }
        let bits = #[verifier::truncate] (*self as u32);
        put_uint(writer, bits as u64, 4);
        Ok(())
    }
}

impl MtDeserialize for i32 {
    open spec fn parse(cfg: MtCfg, input: Seq<u8>) -> Parsed<i32> {
        parse_int(input, 4, |n: nat| (n as u32) as i32)
    }

    fn mt_deserialize(cfg: MtCfg, reader: &mut WrapRead) -> (r: Result<i32, DeserializeError>) {
        proof {
            reveal(parse_int);
            lemma_radix();
        }
        let n = get_uint(reader, 4)?;
        let bits = n as u32;
        Ok(#[verifier::truncate] (bits as i32))
    }
}

impl MtRoundTrip for i32 {
    open spec fn sound(v: i32, cfg: MtCfg, rest: Seq<u8>) -> bool {
        true
    }

    proof fn lemma_round_trip(v: i32, cfg: MtCfg, rest: Seq<u8>) {
        reveal(parse_int);
        lemma_radix();
        lemma_uint_round_trip((v as u32) as nat, 4, rest);
        assert((v as u32) as i32 == v) by (bit_vector);
    }
}

impl MtSerialize for u64 {
    open spec fn fits(v: u64, cfg: MtCfg) -> bool {
        true
    }

    open spec fn wire(v: u64, cfg: MtCfg) -> Seq<u8> {
        be_bytes(v as nat, 8)
    }

    /// Never refused.
    open spec fn fault(v: u64, cfg: MtCfg) -> WriteFault {
        WriteFault::TooBig
    }

    fn mt_serialize(&self, cfg: MtCfg, writer: &mut Vec<u8>) -> (r: Result<(), SerializeError>) {
        proof {
            lemma_radix();
        }
        put_uint(writer, *self as u64, 8);
        Ok(())
    }
}

impl MtDeserialize for u64 {
    open spec fn parse(cfg: MtCfg, input: Seq<u8>) -> Parsed<u64> {
        parse_int(input, 8, |n: nat| n as u64)
    }

    fn mt_deserialize(cfg: MtCfg, reader: &mut WrapRead) -> (r: Result<u64, DeserializeError>) {
        proof {
            reveal(parse_int);
            lemma_radix();
        }
        let n = get_uint(reader, 8)?;
        Ok(n as u64)
    }
}

impl MtRoundTrip for u64 {
    open spec fn sound(v: u64, cfg: MtCfg, rest: Seq<u8>) -> bool {
        true
    }

    proof fn lemma_round_trip(v: u64, cfg: MtCfg, rest: Seq<u8>) {
        reveal(parse_int);
        lemma_radix();
        lemma_uint_round_trip(v as nat, 8, rest);
    }
}

impl MtSerialize for i64 {
    open spec fn fits(v: i64, cfg: MtCfg) -> bool {
        true
    }

    open spec fn wire(v: i64, cfg: MtCfg) -> Seq<u8> {
        be_bytes((v as u64) as nat, 8)
    }

    /// Never refused.
    open spec fn fault(v: i64, cfg: MtCfg) -> WriteFault {
        WriteFault::TooBig
    }

    fn mt_serialize(&self, cfg: MtCfg, writer: &mut Vec<u8>) -> (r: Result<(), SerializeError>) {
        proof {
            lemma_radix();
        }
        let bits = #[verifier::truncate] (*self as u64);
        put_uint(writer, bits as u64, 8);
        Ok(())
    }
}

impl MtDeserialize for i64 {
    open spec fn parse(cfg: MtCfg, input: Seq<u8>) -> Parsed<i64> {
        parse_int(input, 8, |n: nat| (n as u64) as i64)
    }

    fn mt_deserialize(cfg: MtCfg, reader: &mut WrapRead) -> (r: Result<i64, DeserializeError>) {
        proof {
            reveal(parse_int);
            lemma_radix();
        }
        let n = get_uint(reader, 8)?;
        let bits = n as u64;
        Ok(#[verifier::truncate] (bits as i64))
    }
}

impl MtRoundTrip for i64 {
    open spec fn sound(v: i64, cfg: MtCfg, rest: Seq<u8>) -> bool {
        true
    }

    proof fn lemma_round_trip(v: i64, cfg: MtCfg, rest: Seq<u8>) {
        reveal(parse_int);
        lemma_radix();
        lemma_uint_round_trip((v as u64) as nat, 8, rest);
        assert((v as u64) as i64 == v) by (bit_vector);
    }
}

impl MtSerialize for () {
    open spec fn fits(v: (), cfg: MtCfg) -> bool {
        true
    }

    open spec fn wire(v: (), cfg: MtCfg) -> Seq<u8> {
        Seq::empty()
    }

    /// Never refused.
    open spec fn fault(v: (), cfg: MtCfg) -> WriteFault {
        WriteFault::TooBig
    }

    fn mt_serialize(&self, cfg: MtCfg, writer: &mut Vec<u8>) -> (r: Result<(), SerializeError>) {
        assert(writer@ == old(writer)@ + Seq::<u8>::empty());
        Ok(())
    }
}

impl MtDeserialize for () {
    open spec fn parse(cfg: MtCfg, input: Seq<u8>) -> Parsed<()> {
        done((), 0)
    }

    fn mt_deserialize(cfg: MtCfg, reader: &mut WrapRead) -> (r: Result<(), DeserializeError>) {
        assert(reader@.skip(0) == reader@);
        Ok(())
    }
}

impl MtRoundTrip for () {
    open spec fn sound(v: (), cfg: MtCfg, rest: Seq<u8>) -> bool {
        true
    }

    proof fn lemma_round_trip(v: (), cfg: MtCfg, rest: Seq<u8>) {
    }
}

/// The byte of a boolean: `1` for true, `0` for false.
pub open spec fn bool_byte(v: bool) -> nat {
    if v {
        1
    } else {
        0
    }
}

impl MtSerialize for bool {
    open spec fn fits(v: bool, cfg: MtCfg) -> bool {
        true
    }

    open spec fn wire(v: bool, cfg: MtCfg) -> Seq<u8> {
        be_bytes(bool_byte(v), 1)
    }

    /// Never refused.
    open spec fn fault(v: bool, cfg: MtCfg) -> WriteFault {
        WriteFault::TooBig
    }

    fn mt_serialize(&self, cfg: MtCfg, writer: &mut Vec<u8>) -> (r: Result<(), SerializeError>) {
        let byte: u8 = if *self {
            1
        } else {
            0
        };
        byte.mt_serialize(cfg, writer)
    }
}

impl MtDeserialize for bool {
    /// Every byte but `0` reads as true.
    open spec fn parse(cfg: MtCfg, input: Seq<u8>) -> Parsed<bool> {
        parse_int(input, 1, |n: nat| n != 0)
    }

    fn mt_deserialize(cfg: MtCfg, reader: &mut WrapRead) -> (r: Result<bool, DeserializeError>) {
        proof {
            reveal(parse_int);
        }
        let byte = get_uint(reader, 1)?;
        Ok(byte != 0)
    }
}

impl MtRoundTrip for bool {
    open spec fn sound(v: bool, cfg: MtCfg, rest: Seq<u8>) -> bool {
        true
    }

    proof fn lemma_round_trip(v: bool, cfg: MtCfg, rest: Seq<u8>) {
        reveal(parse_int);
        lemma_radix();
        lemma_uint_round_trip(bool_byte(v), 1, rest);
    }
}

/// A binary floating-point number of single precision, held by its 32 bits:
/// sign, exponent, fraction. The library only carries such numbers and never
/// computes with them.
#[derive(Clone, Copy, Debug, PartialEq, Eq, Structural)]
pub struct Single(pub u32);

impl DeepView for Single {
    type V = Single;

    open spec fn deep_view(&self) -> Single {
        *self
    }
}

impl MtSerialize for Single {
    open spec fn fits(v: Single, cfg: MtCfg) -> bool {
        true
    }

    /// The bits, most significant byte first.
    open spec fn wire(v: Single, cfg: MtCfg) -> Seq<u8> {
        be_bytes(v.0 as nat, 4)
    }

    /// Never refused.
    open spec fn fault(v: Single, cfg: MtCfg) -> WriteFault {
        WriteFault::TooBig
    }

    fn mt_serialize(&self, cfg: MtCfg, writer: &mut Vec<u8>) -> (r: Result<(), SerializeError>) {
        proof {
            lemma_radix();
        }
        put_uint(writer, self.0 as u64, 4);
        Ok(())
    }
}

impl MtDeserialize for Single {
    open spec fn parse(cfg: MtCfg, input: Seq<u8>) -> Parsed<Single> {
        parse_int(input, 4, |n: nat| Single(n as u32))
    }

    fn mt_deserialize(cfg: MtCfg, reader: &mut WrapRead) -> (r: Result<Single, DeserializeError>) {
        proof {
            reveal(parse_int);
            lemma_radix();
        }
        let n = get_uint(reader, 4)?;
        Ok(Single(n as u32))
    }
}

impl MtRoundTrip for Single {
    open spec fn sound(v: Single, cfg: MtCfg, rest: Seq<u8>) -> bool {
        true
    }

    proof fn lemma_round_trip(v: Single, cfg: MtCfg, rest: Seq<u8>) {
        reveal(parse_int);
        lemma_radix();
        lemma_uint_round_trip(v.0 as nat, 4, rest);
    }
}

/// A binary floating-point number of double precision, held by its 64 bits.
#[derive(Clone, Copy, Debug, PartialEq, Eq, Structural)]
pub struct Double(pub u64);

impl DeepView for Double {
    type V = Double;

    open spec fn deep_view(&self) -> Double {
        *self
    }
}

impl MtSerialize for Double {
    open spec fn fits(v: Double, cfg: MtCfg) -> bool {
        true
    }

    /// The bits, most significant byte first.
    open spec fn wire(v: Double, cfg: MtCfg) -> Seq<u8> {
        be_bytes(v.0 as nat, 8)
    }

    /// Never refused.
    open spec fn fault(v: Double, cfg: MtCfg) -> WriteFault {
        WriteFault::TooBig
    }

    fn mt_serialize(&self, cfg: MtCfg, writer: &mut Vec<u8>) -> (r: Result<(), SerializeError>) {
        proof {
            lemma_radix();
        }
        put_uint(writer, self.0 as u64, 8);
        Ok(())
    }
}

impl MtDeserialize for Double {
    open spec fn parse(cfg: MtCfg, input: Seq<u8>) -> Parsed<Double> {
        parse_int(input, 8, |n: nat| Double(n as u64))
    }

    fn mt_deserialize(cfg: MtCfg, reader: &mut WrapRead) -> (r: Result<Double, DeserializeError>) {
        proof {
            reveal(parse_int);
            lemma_radix();
        }
        let n = get_uint(reader, 8)?;
        Ok(Double(n as u64))
    }
}

impl MtRoundTrip for Double {
    open spec fn sound(v: Double, cfg: MtCfg, rest: Seq<u8>) -> bool {
        true
    }

    proof fn lemma_round_trip(v: Double, cfg: MtCfg, rest: Seq<u8>) {
        reveal(parse_int);
        lemma_radix();
        lemma_uint_round_trip(v.0 as nat, 8, rest);
    }
}

} // verus!
