//! Sets of flags: every flag is one bit of a number, and the set travels as
//! that number, without a discriminant.

use crate::cfg::{LenWidth, MtCfg};
use crate::codec::{MtDeserialize, MtRoundTrip, MtSerialize, Parsed};
use crate::endian::{be_bytes, get_uint, put_uint};
use crate::error::{DeserializeError, SerializeError, WriteFault};
use crate::num::{lemma_uint_round_trip, parse_int};
use crate::reader::WrapRead;
use core::marker::PhantomData;
use vstd::prelude::*;

verus! {

/// A flag: a value that stands for one bit of the number of its set.
pub trait MtFlag: Sized {
    /// The bits that the flags of this kind stand for, all together.
    spec fn spec_all() -> u64;

    /// The width in which a set of these flags travels.
    spec fn spec_repr() -> LenWidth;

    /// The bit of this flag.
    spec fn spec_mask(&self) -> u64;

    /// The width holds the bits of all flags.
    proof fn lemma_all_fits()
        ensures
            Self::spec_repr().holds(Self::spec_all() as nat),
    ;

    /// The bit of a flag is one of the bits of all flags.
    proof fn lemma_mask(&self)
        ensures
            self.spec_mask() & Self::spec_all() == self.spec_mask(),
    ;

    /// The bits that the flags of this kind stand for, all together.
    fn all() -> (r: u64)
        ensures
            r == Self::spec_all(),
    ;

    /// The width in which a set of these flags travels.
    fn repr() -> (r: LenWidth)
        ensures
            r == Self::spec_repr(),
    ;

    /// The bit of this flag.
    fn mask(&self) -> (r: u64)
        ensures
            r == self.spec_mask(),
    ;
}

/// A set of flags of the kind `F`.
#[derive(Debug, PartialEq, Eq)]
pub struct EnumSet<F: MtFlag> {
    bits: u64,
    kind: PhantomData<F>,
}

impl<F: MtFlag> Clone for EnumSet<F> {
    fn clone(&self) -> (r: Self)
        ensures
            r@ == self@,
    {
        proof {
            use_type_invariant(self);
        }
        EnumSet { bits: self.bits, kind: PhantomData }
    }
}

impl<F: MtFlag> Copy for EnumSet<F> {

}

impl<F: MtFlag> View for EnumSet<F> {
    type V = u64;

    /// The number of the set: the bits of its flags.
    closed spec fn view(&self) -> u64 {
        self.bits
    }
}

impl<F: MtFlag> DeepView for EnumSet<F> {
    type V = u64;

    open spec fn deep_view(&self) -> u64 {
        self@
    }
}

proof fn lemma_mask_bits(bits: u64, mask: u64, all: u64)
    by (bit_vector)
    ensures
        (bits & all) & all == bits & all,
        bits & all <= all,
        (bits & all == bits && mask & all == mask) ==> (bits | mask) & all == bits | mask,
        0u64 & all == 0u64,
{
}

impl<F: MtFlag> EnumSet<F> {
    #[verifier::type_invariant]
    spec fn known_bits(self) -> bool {
        self.bits & F::spec_all() == self.bits
    }

    /// Whether `bits` holds no bit but those of the flags of this kind.
    pub open spec fn known(bits: u64) -> bool {
        bits & F::spec_all() == bits
    }

    /// The set without any flag.
    pub fn empty() -> (r: Self)
        ensures
            r@ == 0,
    {
        proof {
            lemma_mask_bits(0, 0, F::spec_all());
        }
        EnumSet { bits: 0, kind: PhantomData }
    }

    /// The set of the flags whose bits are set in `bits`. Bits that no flag
    /// stands for are dropped.
    pub fn from_repr_truncated(bits: u64) -> (r: Self)
        ensures
            r@ == bits & F::spec_all(),
            Self::known(r@),
    {
        proof {
            lemma_mask_bits(bits, 0, F::spec_all());
        }
        EnumSet { bits: bits & F::all(), kind: PhantomData }
    }

    /// The number of the set.
    pub fn as_repr(&self) -> (r: u64)
        ensures
            r == self@,
            Self::known(r),
    {
        proof {
            use_type_invariant(self);
        }
        self.bits
    }

    /// Whether the set holds `flag`.
    pub fn contains(&self, flag: &F) -> (r: bool)
        ensures
            r == (self@ & flag.spec_mask() == flag.spec_mask()),
    {
        let m = flag.mask();
        self.bits & m == m
    }

    /// The set with `flag` added.
    pub fn with(self, flag: &F) -> (r: Self)
        ensures
            r@ == self@ | flag.spec_mask(),
    {
        proof {
            use_type_invariant(&self);
            flag.lemma_mask();
            lemma_mask_bits(self.bits, flag.spec_mask(), F::spec_all());
        }
        EnumSet { bits: self.bits | flag.mask(), kind: PhantomData }
    }
}

impl<F: MtFlag> MtSerialize for EnumSet<F> {
    /// A set can be written where its number holds known bits only.
    open spec fn fits(v: u64, cfg: MtCfg) -> bool {
        v & F::spec_all() == v
    }

    open spec fn wire(v: u64, cfg: MtCfg) -> Seq<u8> {
        be_bytes(v as nat, F::spec_repr().spec_bytes())
    }

    /// Never refused.
    open spec fn fault(v: u64, cfg: MtCfg) -> WriteFault {
        WriteFault::TooBig
    }

    fn mt_serialize(&self, cfg: MtCfg, writer: &mut Vec<u8>) -> (r: Result<(), SerializeError>) {
        proof {
            use_type_invariant(self);
            lemma_all_holds::<F>(self.bits);
        }
        put_uint(writer, self.bits, F::repr().bytes());
        Ok(())
    }
}

/// A number of known bits fits the width of its flags.
pub proof fn lemma_all_holds<F: MtFlag>(bits: u64)
    requires
        bits & F::spec_all() == bits,
    ensures
        F::spec_repr().holds(bits as nat),
{
    lemma_mask_bits(bits, 0, F::spec_all());
    F::lemma_all_fits();
}

impl<F: MtFlag> MtDeserialize for EnumSet<F> {
    /// Bits that no flag stands for are dropped, not refused.
    open spec fn parse(cfg: MtCfg, input: Seq<u8>) -> Parsed<u64> {
        parse_int(input, F::spec_repr().spec_bytes(), |n: nat| (n as u64) & F::spec_all())
    }

    fn mt_deserialize(cfg: MtCfg, reader: &mut WrapRead) -> (r: Result<
        EnumSet<F>,
        DeserializeError,
    >) {
        proof {
            reveal(parse_int);
        }
        let bits = get_uint(reader, F::repr().bytes())?;
        Ok(EnumSet::from_repr_truncated(bits))
    }
}

impl<F: MtFlag> MtRoundTrip for EnumSet<F> {
    open spec fn sound(v: u64, cfg: MtCfg, rest: Seq<u8>) -> bool {
        true
    }

    proof fn lemma_round_trip(v: u64, cfg: MtCfg, rest: Seq<u8>) {
        reveal(parse_int);
        lemma_all_holds::<F>(v);
        lemma_uint_round_trip(v as nat, F::spec_repr().spec_bytes(), rest);
    }
}

} // verus!
