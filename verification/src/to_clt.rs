//! Messages from the server to the client.

pub mod chat;
pub mod env;
pub mod hud;
pub mod media;

use crate::cfg::{def_cfg, spec_def_cfg, LenWidth, MtCfg};
use crate::codec::{done, failed, MtDeserialize, MtRoundTrip, MtSerialize, Parsed};
use crate::endian::{be_bytes, lemma_radix, parse_uint};
use crate::error::{DeserializeError, RawView, ReadFault, SerializeError, WriteFault};
use crate::num::lemma_uint_round_trip;
use crate::reader::WrapRead;
use crate::step::{lemma_join_assoc, lemma_skip_joined, read_part, then, write_part};
use crate::tagged::{assigned, invalid_enum, lemma_assigned_at, read_discr, write_discr};
use vstd::prelude::*;

verus! {

/// A colour: alpha, red, green, blue.
#[derive(Clone, Copy, Debug, PartialEq, Eq)]
pub struct ArgbColor {
    pub a: u8,
    pub r: u8,
    pub g: u8,
    pub b: u8,
}

impl DeepView for ArgbColor {
    type V = ArgbColor;

    open spec fn deep_view(&self) -> ArgbColor {
        *self
    }
}

impl MtSerialize for ArgbColor {
    open spec fn fits(v: ArgbColor, cfg: MtCfg) -> bool {
        &&& u8::fits(v.a, def_cfg())
        &&& u8::fits(v.r, def_cfg())
        &&& u8::fits(v.g, def_cfg())
        &&& u8::fits(v.b, def_cfg())
    }

    open spec fn wire(v: ArgbColor, cfg: MtCfg) -> Seq<u8> {
        u8::wire(v.a, def_cfg())
            + u8::wire(v.r, def_cfg())
            + u8::wire(v.g, def_cfg())
            + u8::wire(v.b, def_cfg())
    }

    /// The fault of the first field that does not fit.
    open spec fn fault(v: ArgbColor, cfg: MtCfg) -> WriteFault {
        if !u8::fits(v.a, def_cfg()) {
            u8::fault(v.a, def_cfg())
        } else if !u8::fits(v.r, def_cfg()) {
            u8::fault(v.r, def_cfg())
        } else if !u8::fits(v.g, def_cfg()) {
            u8::fault(v.g, def_cfg())
        } else {
            u8::fault(v.b, def_cfg())
        }
    }

    fn mt_serialize(&self, cfg: MtCfg, writer: &mut Vec<u8>) -> (r: Result<(), SerializeError>) {
        let ghost base = writer@;
        write_part(&self.a, def_cfg(), writer, Ghost(base))?;
        let ghost written = u8::wire(self.a.deep_view(), def_cfg());
        write_part(&self.r, def_cfg(), writer, Ghost(base))?;
        proof {
            lemma_join_assoc(base, written, u8::wire(self.r.deep_view(), def_cfg()));
        }
        let ghost written = written + u8::wire(self.r.deep_view(), def_cfg());
        write_part(&self.g, def_cfg(), writer, Ghost(base))?;
        proof {
            lemma_join_assoc(base, written, u8::wire(self.g.deep_view(), def_cfg()));
        }
        let ghost written = written + u8::wire(self.g.deep_view(), def_cfg());
        write_part(&self.b, def_cfg(), writer, Ghost(base))?;
        proof {
            lemma_join_assoc(base, written, u8::wire(self.b.deep_view(), def_cfg()));
        }
        Ok(())
    }
}

impl MtDeserialize for ArgbColor {
    open spec fn parse(cfg: MtCfg, input: Seq<u8>) -> Parsed<ArgbColor> {
        then(input, u8::parse(def_cfg(), input), |a, input|
        then(input, u8::parse(def_cfg(), input), |r, input|
        then(input, u8::parse(def_cfg(), input), |g, input|
        then(input, u8::parse(def_cfg(), input), |b, input|
        done(ArgbColor { a, r, g, b }, 0)))))
    }

    fn mt_deserialize(cfg: MtCfg, reader: &mut WrapRead) -> (r: Result<
        ArgbColor,
        DeserializeError,
    >) {
        let ghost input = reader@;
        let ghost used: nat = 0;
        assert(input.skip(0) == input);
        let ghost part0 = u8::parse(def_cfg(), reader@);
        let a = read_part::<u8>(def_cfg(), reader, Ghost(input), Ghost(used))?;
        let ghost used = used + part0.used;
        let ghost part1 = u8::parse(def_cfg(), reader@);
        let r = read_part::<u8>(def_cfg(), reader, Ghost(input), Ghost(used))?;
        let ghost used = used + part1.used;
        let ghost part2 = u8::parse(def_cfg(), reader@);
        let g = read_part::<u8>(def_cfg(), reader, Ghost(input), Ghost(used))?;
        let ghost used = used + part2.used;
        let ghost part3 = u8::parse(def_cfg(), reader@);
        let b = read_part::<u8>(def_cfg(), reader, Ghost(input), Ghost(used))?;
        let ghost used = used + part3.used;
        Ok(ArgbColor { a, r, g, b })
    }
}

impl MtRoundTrip for ArgbColor {
    open spec fn sound(v: ArgbColor, cfg: MtCfg, rest: Seq<u8>) -> bool {
        let after_b = rest;
        let after_g = u8::wire(v.b, def_cfg()) + after_b;
        let after_r = u8::wire(v.g, def_cfg()) + after_g;
        let after_a = u8::wire(v.r, def_cfg()) + after_r;
        &&& u8::sound(v.a, def_cfg(), after_a)
        &&& u8::sound(v.r, def_cfg(), after_r)
        &&& u8::sound(v.g, def_cfg(), after_g)
        &&& u8::sound(v.b, def_cfg(), after_b)
    }

    proof fn lemma_round_trip(v: ArgbColor, cfg: MtCfg, rest: Seq<u8>) {
        let after_b = rest;
        let after_g = u8::wire(v.b, def_cfg()) + after_b;
        let after_r = u8::wire(v.g, def_cfg()) + after_g;
        let after_a = u8::wire(v.r, def_cfg()) + after_r;
        let before = u8::wire(v.a, def_cfg());
        lemma_join_assoc(before, u8::wire(v.r, def_cfg()), after_r);
        let before = before + u8::wire(v.r, def_cfg());
        lemma_join_assoc(before, u8::wire(v.g, def_cfg()), after_g);
        let before = before + u8::wire(v.g, def_cfg());
        lemma_join_assoc(before, u8::wire(v.b, def_cfg()), after_b);
        u8::lemma_round_trip(v.a, def_cfg(), after_a);
        lemma_skip_joined(u8::wire(v.a, def_cfg()), after_a);
        u8::lemma_round_trip(v.r, def_cfg(), after_r);
        lemma_skip_joined(u8::wire(v.r, def_cfg()), after_r);
        u8::lemma_round_trip(v.g, def_cfg(), after_g);
        lemma_skip_joined(u8::wire(v.g, def_cfg()), after_g);
        u8::lemma_round_trip(v.b, def_cfg(), after_b);
        lemma_skip_joined(u8::wire(v.b, def_cfg()), after_b);
    }
}

/// What the server says of a mod channel.
#[derive(Clone, Copy, Debug, PartialEq, Eq, Structural)]
pub enum ModChanSig {
    JoinOk,
    JoinFail,
    LeaveOk,
    LeaveFail,
    NotRegistered,
    SetState,
}

impl DeepView for ModChanSig {
    type V = ModChanSig;

    open spec fn deep_view(&self) -> ModChanSig {
        *self
    }
}

impl ModChanSig {
    /// The declaration of the variants: the first is numbered, the others follow it.
    pub open spec fn decl() -> Seq<Option<u64>> {
        seq![Some(0), None, None, None, None, None]
    }

    /// The position of a variant in the declaration.
    pub open spec fn index(self) -> int {
        match self {
            ModChanSig::JoinOk => 0,
            ModChanSig::JoinFail => 1,
            ModChanSig::LeaveOk => 2,
            ModChanSig::LeaveFail => 3,
            ModChanSig::NotRegistered => 4,
            ModChanSig::SetState => 5,
        }
    }

    /// The discriminant of a variant.
    pub open spec fn spec_discr(self) -> u8 {
        match self {
            ModChanSig::JoinOk => 0,
            ModChanSig::JoinFail => 1,
            ModChanSig::LeaveOk => 2,
            ModChanSig::LeaveFail => 3,
            ModChanSig::NotRegistered => 4,
            ModChanSig::SetState => 5,
        }
    }

    /// The discriminant of a variant.
    #[verifier::when_used_as_spec(spec_discr)]
    pub fn discr(self) -> (r: u8)
        ensures
            r == self.spec_discr(),
    {
        match self {
            ModChanSig::JoinOk => 0,
            ModChanSig::JoinFail => 1,
            ModChanSig::LeaveOk => 2,
            ModChanSig::LeaveFail => 3,
            ModChanSig::NotRegistered => 4,
            ModChanSig::SetState => 5,
        }
    }

    /// The variant with the discriminant `d`, where there is one.
    pub open spec fn spec_from_discr(d: u8) -> Option<ModChanSig> {
        if d == 0 {
            Some(ModChanSig::JoinOk)
        } else if d == 1 {
            Some(ModChanSig::JoinFail)
        } else if d == 2 {
            Some(ModChanSig::LeaveOk)
        } else if d == 3 {
            Some(ModChanSig::LeaveFail)
        } else if d == 4 {
            Some(ModChanSig::NotRegistered)
        } else if d == 5 {
            Some(ModChanSig::SetState)
        } else {
            None
        }
    }

    /// The variant with the discriminant `d`, where there is one.
    #[verifier::when_used_as_spec(spec_from_discr)]
    pub fn from_discr(d: u8) -> (r: Option<ModChanSig>)
        ensures
            r == Self::spec_from_discr(d),
    {
        if d == 0 {
            Some(ModChanSig::JoinOk)
        } else if d == 1 {
            Some(ModChanSig::JoinFail)
        } else if d == 2 {
            Some(ModChanSig::LeaveOk)
        } else if d == 3 {
            Some(ModChanSig::LeaveFail)
        } else if d == 4 {
            Some(ModChanSig::NotRegistered)
        } else if d == 5 {
            Some(ModChanSig::SetState)
        } else {
            None
        }
    }

    /// A discriminant that no variant has is refused, and the fault carries
    /// it.
    pub proof fn lemma_unknown(d: u8, rest: Seq<u8>)
        requires
            Self::spec_from_discr(d) is None,
        ensures
            <ModChanSig as MtDeserialize>::parse(
                spec_def_cfg(),
                be_bytes(d as nat, 1) + rest,
            ) == failed::<ModChanSig>(
                ReadFault::InvalidEnum("ModChanSig"@, RawView::U8(d)),
                1,
            ),
    {
        lemma_radix();
        lemma_uint_round_trip(d as nat, 1, rest);
    }

    /// The discriminants are the ones that the declaration assigns, and
    /// each of them leads back to its variant.
    pub proof fn lemma_discr(self)
        ensures
            self.spec_discr() as int == assigned(Self::decl())[self.index()],
            Self::spec_from_discr(self.spec_discr()) == Some(self),
    {
        match self {
            ModChanSig::JoinOk => lemma_assigned_at(Self::decl(), 0),
            ModChanSig::JoinFail => {
                lemma_assigned_at(Self::decl(), 0);
                lemma_assigned_at(Self::decl(), 1);
            },
            ModChanSig::LeaveOk => {
                lemma_assigned_at(Self::decl(), 0);
                lemma_assigned_at(Self::decl(), 1);
                lemma_assigned_at(Self::decl(), 2);
            },
            ModChanSig::LeaveFail => {
                lemma_assigned_at(Self::decl(), 0);
                lemma_assigned_at(Self::decl(), 1);
                lemma_assigned_at(Self::decl(), 2);
                lemma_assigned_at(Self::decl(), 3);
            },
            ModChanSig::NotRegistered => {
                lemma_assigned_at(Self::decl(), 0);
                lemma_assigned_at(Self::decl(), 1);
                lemma_assigned_at(Self::decl(), 2);
                lemma_assigned_at(Self::decl(), 3);
                lemma_assigned_at(Self::decl(), 4);
            },
            ModChanSig::SetState => {
                lemma_assigned_at(Self::decl(), 0);
                lemma_assigned_at(Self::decl(), 1);
                lemma_assigned_at(Self::decl(), 2);
                lemma_assigned_at(Self::decl(), 3);
                lemma_assigned_at(Self::decl(), 4);
                lemma_assigned_at(Self::decl(), 5);
            },
        }
    }
}

impl MtSerialize for ModChanSig {
    open spec fn fits(v: ModChanSig, cfg: MtCfg) -> bool {
        true
    }

    open spec fn wire(v: ModChanSig, cfg: MtCfg) -> Seq<u8> {
        be_bytes(v.spec_discr() as nat, 1)
    }

    /// Never refused.
    open spec fn fault(v: ModChanSig, cfg: MtCfg) -> WriteFault {
        WriteFault::TooBig
    }

    fn mt_serialize(&self, cfg: MtCfg, writer: &mut Vec<u8>) -> (r: Result<(), SerializeError>) {
        proof {
            lemma_radix();
        }
        write_discr(LenWidth::W8, self.discr() as u64, writer);
        Ok(())
    }
}

impl MtDeserialize for ModChanSig {
    /// A discriminant that no variant has is the fault `InvalidEnum`.
    open spec fn parse(cfg: MtCfg, input: Seq<u8>) -> Parsed<ModChanSig> {
        let (tag, used) = parse_uint(input, 1);
        match tag {
            None => failed(ReadFault::UnexpectedEof, used),
            Some(d) => match Self::spec_from_discr(d as u8) {
                Some(v) => done(v, used),
                None => failed(
                    ReadFault::InvalidEnum("ModChanSig"@, RawView::U8(d as u8)),
                    used,
                ),
            },
        }
    }

    fn mt_deserialize(cfg: MtCfg, reader: &mut WrapRead) -> (r: Result<
        ModChanSig,
        DeserializeError,
    >) {
        proof {
            lemma_radix();
        }
        let d = read_discr(LenWidth::W8, reader)?;
        match Self::from_discr(d as u8) {
            Some(v) => Ok(v),
            None => Err(invalid_enum("ModChanSig", LenWidth::W8, d)),
        }
    }
}

impl MtRoundTrip for ModChanSig {
    open spec fn sound(v: ModChanSig, cfg: MtCfg, rest: Seq<u8>) -> bool {
        true
    }

    proof fn lemma_round_trip(v: ModChanSig, cfg: MtCfg, rest: Seq<u8>) {
        lemma_radix();
        lemma_uint_round_trip(v.spec_discr() as nat, 1, rest);
    }
}

} // verus!
