//! Messages from the client to the server.

use crate::cfg::{def_cfg, spec_def_cfg, LenWidth, MtCfg, Utf16};
use crate::codec::{agrees, done, failed, MtDeserialize, MtRoundTrip, MtSerialize, Parsed};
use crate::endian::{be_bytes, lemma_radix, parse_uint};
use crate::error::{DeserializeError, Raw, RawView, ReadFault, SerializeError, WriteFault};
use crate::literal::{const_parse, lemma_const_round_trip, raw_wire};
use crate::num::lemma_uint_round_trip;
use crate::pipeline::{
    base_parse, field_fault, field_fits, field_parse, field_sound, field_wire,
    lemma_field_round_trip, sized_args, MtArgs,
};
use crate::reader::WrapRead;
use crate::step::{
    lemma_join_assoc, lemma_skip_joined, lemma_skip_twice, read_const_part, read_field_part,
    read_part, read_part_or, shift, then, write_const_part, write_field_part, write_part,
};
use crate::tagged::{assigned, invalid_enum, lemma_assigned_at, read_discr, write_discr};
use vstd::prelude::*;

verus! {

/// Where a player stands and looks. On the wire the constant 1 stands before it.
#[derive(Clone, Debug, PartialEq)]
pub struct PlayerPos {
    /// The position, in hundredths of a node.
    pub pos_100: [i32; 3],
    /// The velocity, in hundredths of a node per second.
    pub vel_100: [i32; 3],
    /// The pitch, in hundredths of a degree.
    pub pitch_100: i32,
    /// The yaw, in hundredths of a degree.
    pub yaw_100: i32,
    /// The field of view, in eightieths of a radian.
    pub fov_80: u8,
    /// The range of sight that the player asks for, in blocks.
    pub wanted_range: u8,
}

/// The mathematical value of a [`PlayerPos`].
pub ghost struct PlayerPosView {
    pub pos_100: Seq<i32>,
    pub vel_100: Seq<i32>,
    pub pitch_100: i32,
    pub yaw_100: i32,
    pub fov_80: u8,
    pub wanted_range: u8,
}

impl DeepView for PlayerPos {
    type V = PlayerPosView;

    open spec fn deep_view(&self) -> PlayerPosView {
        PlayerPosView {
            pos_100: self.pos_100.deep_view(),
            vel_100: self.vel_100.deep_view(),
            pitch_100: self.pitch_100.deep_view(),
            yaw_100: self.yaw_100.deep_view(),
            fov_80: self.fov_80.deep_view(),
            wanted_range: self.wanted_range.deep_view(),
        }
    }
}

impl MtSerialize for PlayerPos {
    open spec fn fits(v: PlayerPosView, cfg: MtCfg) -> bool {
        &&& <[i32; 3]>::fits(v.pos_100, def_cfg())
        &&& <[i32; 3]>::fits(v.vel_100, def_cfg())
        &&& i32::fits(v.pitch_100, def_cfg())
        &&& i32::fits(v.yaw_100, def_cfg())
        &&& u8::fits(v.fov_80, def_cfg())
        &&& u8::fits(v.wanted_range, def_cfg())
    }

    open spec fn wire(v: PlayerPosView, cfg: MtCfg) -> Seq<u8> {
        raw_wire(RawView::U16(1))
            + <[i32; 3]>::wire(v.pos_100, def_cfg())
            + <[i32; 3]>::wire(v.vel_100, def_cfg())
            + i32::wire(v.pitch_100, def_cfg())
            + i32::wire(v.yaw_100, def_cfg())
            + u8::wire(v.fov_80, def_cfg())
            + u8::wire(v.wanted_range, def_cfg())
    }

    /// The fault of the first field that does not fit.
    open spec fn fault(v: PlayerPosView, cfg: MtCfg) -> WriteFault {
        if !<[i32; 3]>::fits(v.pos_100, def_cfg()) {
            <[i32; 3]>::fault(v.pos_100, def_cfg())
        } else if !<[i32; 3]>::fits(v.vel_100, def_cfg()) {
            <[i32; 3]>::fault(v.vel_100, def_cfg())
        } else if !i32::fits(v.pitch_100, def_cfg()) {
            i32::fault(v.pitch_100, def_cfg())
        } else if !i32::fits(v.yaw_100, def_cfg()) {
            i32::fault(v.yaw_100, def_cfg())
        } else if !u8::fits(v.fov_80, def_cfg()) {
            u8::fault(v.fov_80, def_cfg())
        } else {
            u8::fault(v.wanted_range, def_cfg())
        }
    }

    fn mt_serialize(&self, cfg: MtCfg, writer: &mut Vec<u8>) -> (r: Result<(), SerializeError>) {
        let ghost base = writer@;
        write_const_part(&Raw::U16(1), writer, Ghost(base))?;
        let ghost written = raw_wire(RawView::U16(1));
        write_part(&self.pos_100, def_cfg(), writer, Ghost(base))?;
        proof {
            lemma_join_assoc(base, written, <[i32; 3]>::wire(self.pos_100.deep_view(), def_cfg()));
        }
        let ghost written = written + <[i32; 3]>::wire(self.pos_100.deep_view(), def_cfg());
        write_part(&self.vel_100, def_cfg(), writer, Ghost(base))?;
        proof {
            lemma_join_assoc(base, written, <[i32; 3]>::wire(self.vel_100.deep_view(), def_cfg()));
        }
        let ghost written = written + <[i32; 3]>::wire(self.vel_100.deep_view(), def_cfg());
        write_part(&self.pitch_100, def_cfg(), writer, Ghost(base))?;
        proof {
            lemma_join_assoc(base, written, i32::wire(self.pitch_100.deep_view(), def_cfg()));
        }
        let ghost written = written + i32::wire(self.pitch_100.deep_view(), def_cfg());
        write_part(&self.yaw_100, def_cfg(), writer, Ghost(base))?;
        proof {
            lemma_join_assoc(base, written, i32::wire(self.yaw_100.deep_view(), def_cfg()));
        }
        let ghost written = written + i32::wire(self.yaw_100.deep_view(), def_cfg());
        write_part(&self.fov_80, def_cfg(), writer, Ghost(base))?;
        proof {
            lemma_join_assoc(base, written, u8::wire(self.fov_80.deep_view(), def_cfg()));
        }
        let ghost written = written + u8::wire(self.fov_80.deep_view(), def_cfg());
        write_part(&self.wanted_range, def_cfg(), writer, Ghost(base))?;
        proof {
            lemma_join_assoc(base, written, u8::wire(self.wanted_range.deep_view(), def_cfg()));
        }
        Ok(())
    }
}

impl MtDeserialize for PlayerPos {
    open spec fn parse(cfg: MtCfg, input: Seq<u8>) -> Parsed<PlayerPosView> {
        then(input, const_parse(RawView::U16(1), input), |found, input|
        then(input, <[i32; 3]>::parse(def_cfg(), input), |pos_100, input|
        then(input, <[i32; 3]>::parse(def_cfg(), input), |vel_100, input|
        then(input, i32::parse(def_cfg(), input), |pitch_100, input|
        then(input, i32::parse(def_cfg(), input), |yaw_100, input|
        then(input, u8::parse(def_cfg(), input), |fov_80, input|
        then(input, u8::parse(def_cfg(), input), |wanted_range, input|
        done(PlayerPosView { pos_100, vel_100, pitch_100, yaw_100, fov_80, wanted_range }, 0))))))))
    }

    fn mt_deserialize(cfg: MtCfg, reader: &mut WrapRead) -> (r: Result<
        PlayerPos,
        DeserializeError,
    >) {
        let ghost input = reader@;
        let ghost used: nat = 0;
        assert(input.skip(0) == input);
        let ghost part0 = const_parse(RawView::U16(1), reader@);
        read_const_part(&Raw::U16(1), reader, Ghost(input), Ghost(used))?;
        let ghost used = used + part0.used;
        let ghost part1 = <[i32; 3]>::parse(def_cfg(), reader@);
        let pos_100 = read_part::<[i32; 3]>(def_cfg(), reader, Ghost(input), Ghost(used))?;
        let ghost used = used + part1.used;
        let ghost part2 = <[i32; 3]>::parse(def_cfg(), reader@);
        let vel_100 = read_part::<[i32; 3]>(def_cfg(), reader, Ghost(input), Ghost(used))?;
        let ghost used = used + part2.used;
        let ghost part3 = i32::parse(def_cfg(), reader@);
        let pitch_100 = read_part::<i32>(def_cfg(), reader, Ghost(input), Ghost(used))?;
        let ghost used = used + part3.used;
        let ghost part4 = i32::parse(def_cfg(), reader@);
        let yaw_100 = read_part::<i32>(def_cfg(), reader, Ghost(input), Ghost(used))?;
        let ghost used = used + part4.used;
        let ghost part5 = u8::parse(def_cfg(), reader@);
        let fov_80 = read_part::<u8>(def_cfg(), reader, Ghost(input), Ghost(used))?;
        let ghost used = used + part5.used;
        let ghost part6 = u8::parse(def_cfg(), reader@);
        let wanted_range = read_part::<u8>(def_cfg(), reader, Ghost(input), Ghost(used))?;
        let ghost used = used + part6.used;
        Ok(PlayerPos { pos_100, vel_100, pitch_100, yaw_100, fov_80, wanted_range })
    }
}

impl MtRoundTrip for PlayerPos {
    open spec fn sound(v: PlayerPosView, cfg: MtCfg, rest: Seq<u8>) -> bool {
        let after_wanted_range = rest;
        let after_fov_80 = u8::wire(v.wanted_range, def_cfg()) + after_wanted_range;
        let after_yaw_100 = u8::wire(v.fov_80, def_cfg()) + after_fov_80;
        let after_pitch_100 = i32::wire(v.yaw_100, def_cfg()) + after_yaw_100;
        let after_vel_100 = i32::wire(v.pitch_100, def_cfg()) + after_pitch_100;
        let after_pos_100 = <[i32; 3]>::wire(v.vel_100, def_cfg()) + after_vel_100;
        let after_const_1 = <[i32; 3]>::wire(v.pos_100, def_cfg()) + after_pos_100;
        &&& <[i32; 3]>::sound(v.pos_100, def_cfg(), after_pos_100)
        &&& <[i32; 3]>::sound(v.vel_100, def_cfg(), after_vel_100)
        &&& i32::sound(v.pitch_100, def_cfg(), after_pitch_100)
        &&& i32::sound(v.yaw_100, def_cfg(), after_yaw_100)
        &&& u8::sound(v.fov_80, def_cfg(), after_fov_80)
        &&& u8::sound(v.wanted_range, def_cfg(), after_wanted_range)
    }

    proof fn lemma_round_trip(v: PlayerPosView, cfg: MtCfg, rest: Seq<u8>) {
        let after_wanted_range = rest;
        let after_fov_80 = u8::wire(v.wanted_range, def_cfg()) + after_wanted_range;
        let after_yaw_100 = u8::wire(v.fov_80, def_cfg()) + after_fov_80;
        let after_pitch_100 = i32::wire(v.yaw_100, def_cfg()) + after_yaw_100;
        let after_vel_100 = i32::wire(v.pitch_100, def_cfg()) + after_pitch_100;
        let after_pos_100 = <[i32; 3]>::wire(v.vel_100, def_cfg()) + after_vel_100;
        let after_const_1 = <[i32; 3]>::wire(v.pos_100, def_cfg()) + after_pos_100;
        let before = raw_wire(RawView::U16(1));
        lemma_join_assoc(before, <[i32; 3]>::wire(v.pos_100, def_cfg()), after_pos_100);
        let before = before + <[i32; 3]>::wire(v.pos_100, def_cfg());
        lemma_join_assoc(before, <[i32; 3]>::wire(v.vel_100, def_cfg()), after_vel_100);
        let before = before + <[i32; 3]>::wire(v.vel_100, def_cfg());
        lemma_join_assoc(before, i32::wire(v.pitch_100, def_cfg()), after_pitch_100);
        let before = before + i32::wire(v.pitch_100, def_cfg());
        lemma_join_assoc(before, i32::wire(v.yaw_100, def_cfg()), after_yaw_100);
        let before = before + i32::wire(v.yaw_100, def_cfg());
        lemma_join_assoc(before, u8::wire(v.fov_80, def_cfg()), after_fov_80);
        let before = before + u8::wire(v.fov_80, def_cfg());
        lemma_join_assoc(before, u8::wire(v.wanted_range, def_cfg()), after_wanted_range);
        lemma_const_round_trip(RawView::U16(1), after_const_1);
        lemma_skip_joined(raw_wire(RawView::U16(1)), after_const_1);
        <[i32; 3]>::lemma_round_trip(v.pos_100, def_cfg(), after_pos_100);
        lemma_skip_joined(<[i32; 3]>::wire(v.pos_100, def_cfg()), after_pos_100);
        <[i32; 3]>::lemma_round_trip(v.vel_100, def_cfg(), after_vel_100);
        lemma_skip_joined(<[i32; 3]>::wire(v.vel_100, def_cfg()), after_vel_100);
        i32::lemma_round_trip(v.pitch_100, def_cfg(), after_pitch_100);
        lemma_skip_joined(i32::wire(v.pitch_100, def_cfg()), after_pitch_100);
        i32::lemma_round_trip(v.yaw_100, def_cfg(), after_yaw_100);
        lemma_skip_joined(i32::wire(v.yaw_100, def_cfg()), after_yaw_100);
        u8::lemma_round_trip(v.fov_80, def_cfg(), after_fov_80);
        lemma_skip_joined(u8::wire(v.fov_80, def_cfg()), after_fov_80);
        u8::lemma_round_trip(v.wanted_range, def_cfg(), after_wanted_range);
        lemma_skip_joined(u8::wire(v.wanted_range, def_cfg()), after_wanted_range);
    }
}

/// What a player does to the thing pointed at.
#[derive(Clone, Copy, Debug, PartialEq, Eq, Structural)]
pub enum Interaction {
    Dig,
    StopDigging,
    Dug,
    Place,
    Use,
    Activate,
}

impl DeepView for Interaction {
    type V = Interaction;

    open spec fn deep_view(&self) -> Interaction {
        *self
    }
}

impl Interaction {
    /// The declaration of the variants: the first is numbered, the others follow it.
    pub open spec fn decl() -> Seq<Option<u64>> {
        seq![Some(0), None, None, None, None, None]
    }

    /// The position of a variant in the declaration.
    pub open spec fn index(self) -> int {
        match self {
            Interaction::Dig => 0,
            Interaction::StopDigging => 1,
            Interaction::Dug => 2,
            Interaction::Place => 3,
            Interaction::Use => 4,
            Interaction::Activate => 5,
        }
    }

    /// The discriminant of a variant.
    pub open spec fn spec_discr(self) -> u8 {
        match self {
            Interaction::Dig => 0,
            Interaction::StopDigging => 1,
            Interaction::Dug => 2,
            Interaction::Place => 3,
            Interaction::Use => 4,
            Interaction::Activate => 5,
        }
    }

    /// The discriminant of a variant.
    #[verifier::when_used_as_spec(spec_discr)]
    pub fn discr(self) -> (r: u8)
        ensures
            r == self.spec_discr(),
    {
        match self {
            Interaction::Dig => 0,
            Interaction::StopDigging => 1,
            Interaction::Dug => 2,
            Interaction::Place => 3,
            Interaction::Use => 4,
            Interaction::Activate => 5,
        }
    }

    /// The variant with the discriminant `d`, where there is one.
    pub open spec fn spec_from_discr(d: u8) -> Option<Interaction> {
        if d == 0 {
            Some(Interaction::Dig)
        } else if d == 1 {
            Some(Interaction::StopDigging)
        } else if d == 2 {
            Some(Interaction::Dug)
        } else if d == 3 {
            Some(Interaction::Place)
        } else if d == 4 {
            Some(Interaction::Use)
        } else if d == 5 {
            Some(Interaction::Activate)
        } else {
            None
        }
    }

    /// The variant with the discriminant `d`, where there is one.
    #[verifier::when_used_as_spec(spec_from_discr)]
    pub fn from_discr(d: u8) -> (r: Option<Interaction>)
        ensures
            r == Self::spec_from_discr(d),
    {
        if d == 0 {
            Some(Interaction::Dig)
        } else if d == 1 {
            Some(Interaction::StopDigging)
        } else if d == 2 {
            Some(Interaction::Dug)
        } else if d == 3 {
            Some(Interaction::Place)
        } else if d == 4 {
            Some(Interaction::Use)
        } else if d == 5 {
            Some(Interaction::Activate)
        } else {
            None
        }
    }

    /// A discriminant that no variant has is refused, and the fault carries
    /// it.
    pub proof fn lemma_unknown(d: u8, rest: Seq<u8>)
        requires
            Self::spec_from_discr(d) is None,
        ensures
            <Interaction as MtDeserialize>::parse(
                spec_def_cfg(),
                be_bytes(d as nat, 1) + rest,
            ) == failed::<Interaction>(
                ReadFault::InvalidEnum("Interaction"@, RawView::U8(d)),
                1,
            ),
    {
        lemma_radix();
        lemma_uint_round_trip(d as nat, 1, rest);
    }

    /// The discriminants are the ones that the declaration assigns, and
    /// each of them leads back to its variant.
    pub proof fn lemma_discr(self)
        ensures
            self.spec_discr() as int == assigned(Self::decl())[self.index()],
            Self::spec_from_discr(self.spec_discr()) == Some(self),
    {
        match self {
            Interaction::Dig => lemma_assigned_at(Self::decl(), 0),
            Interaction::StopDigging => {
                lemma_assigned_at(Self::decl(), 0);
                lemma_assigned_at(Self::decl(), 1);
            },
            Interaction::Dug => {
                lemma_assigned_at(Self::decl(), 0);
                lemma_assigned_at(Self::decl(), 1);
                lemma_assigned_at(Self::decl(), 2);
            },
            Interaction::Place => {
                lemma_assigned_at(Self::decl(), 0);
                lemma_assigned_at(Self::decl(), 1);
                lemma_assigned_at(Self::decl(), 2);
                lemma_assigned_at(Self::decl(), 3);
            },
            Interaction::Use => {
                lemma_assigned_at(Self::decl(), 0);
                lemma_assigned_at(Self::decl(), 1);
                lemma_assigned_at(Self::decl(), 2);
                lemma_assigned_at(Self::decl(), 3);
                lemma_assigned_at(Self::decl(), 4);
            },
            Interaction::Activate => {
                lemma_assigned_at(Self::decl(), 0);
                lemma_assigned_at(Self::decl(), 1);
                lemma_assigned_at(Self::decl(), 2);
                lemma_assigned_at(Self::decl(), 3);
                lemma_assigned_at(Self::decl(), 4);
                lemma_assigned_at(Self::decl(), 5);
            },
        }
    }
}

impl MtSerialize for Interaction {
    open spec fn fits(v: Interaction, cfg: MtCfg) -> bool {
        true
    }

    open spec fn wire(v: Interaction, cfg: MtCfg) -> Seq<u8> {
        be_bytes(v.spec_discr() as nat, 1)
    }

    /// Never refused.
    open spec fn fault(v: Interaction, cfg: MtCfg) -> WriteFault {
        WriteFault::TooBig
    }

    fn mt_serialize(&self, cfg: MtCfg, writer: &mut Vec<u8>) -> (r: Result<(), SerializeError>) {
        proof {
            lemma_radix();
        }
        write_discr(LenWidth::W8, self.discr() as u64, writer);
        Ok(())
    }
}

impl MtDeserialize for Interaction {
    /// A discriminant that no variant has is the fault `InvalidEnum`.
    open spec fn parse(cfg: MtCfg, input: Seq<u8>) -> Parsed<Interaction> {
        let (tag, used) = parse_uint(input, 1);
        match tag {
            None => failed(ReadFault::UnexpectedEof, used),
            Some(d) => match Self::spec_from_discr(d as u8) {
                Some(v) => done(v, used),
                None => failed(
                    ReadFault::InvalidEnum("Interaction"@, RawView::U8(d as u8)),
                    used,
                ),
            },
        }
    }

    fn mt_deserialize(cfg: MtCfg, reader: &mut WrapRead) -> (r: Result<
        Interaction,
        DeserializeError,
    >) {
        proof {
            lemma_radix();
        }
        let d = read_discr(LenWidth::W8, reader)?;
        match Self::from_discr(d as u8) {
            Some(v) => Ok(v),
            None => Err(invalid_enum("Interaction", LenWidth::W8, d)),
        }
    }
}

impl MtRoundTrip for Interaction {
    open spec fn sound(v: Interaction, cfg: MtCfg, rest: Seq<u8>) -> bool {
        true
    }

    proof fn lemma_round_trip(v: Interaction, cfg: MtCfg, rest: Seq<u8>) {
        lemma_radix();
        lemma_uint_round_trip(v.spec_discr() as nat, 1, rest);
    }
}

/// The thing that a player points at. It has no content yet.
#[derive(Clone, Copy, Debug, PartialEq, Eq)]
pub struct PointedThing;

impl DeepView for PointedThing {
    type V = PointedThing;

    open spec fn deep_view(&self) -> PointedThing {
        *self
    }
}

impl MtSerialize for PointedThing {
    open spec fn fits(v: PointedThing, cfg: MtCfg) -> bool {
        true
    }

    open spec fn wire(v: PointedThing, cfg: MtCfg) -> Seq<u8> {
        Seq::empty()
    }

    /// Never refused.
    open spec fn fault(v: PointedThing, cfg: MtCfg) -> WriteFault {
        WriteFault::TooBig
    }

    fn mt_serialize(&self, cfg: MtCfg, writer: &mut Vec<u8>) -> (r: Result<(), SerializeError>) {
        assert(writer@ == old(writer)@ + Seq::<u8>::empty());
        Ok(())
    }
}

impl MtDeserialize for PointedThing {
    open spec fn parse(cfg: MtCfg, input: Seq<u8>) -> Parsed<PointedThing> {
        done(PointedThing, 0)
    }

    fn mt_deserialize(cfg: MtCfg, reader: &mut WrapRead) -> (r: Result<
        PointedThing,
        DeserializeError,
    >) {
        assert(reader@.skip(0) == reader@);
        Ok(PointedThing)
    }
}

impl MtRoundTrip for PointedThing {
    open spec fn sound(v: PointedThing, cfg: MtCfg, rest: Seq<u8>) -> bool {
        true
    }

    proof fn lemma_round_trip(v: PointedThing, cfg: MtCfg, rest: Seq<u8>) {
        assert(Self::wire(v, cfg) + rest == rest);
    }
}

/// A packet from the client to the server. The discriminants are the numbers of
/// the protocol: they leave gaps.
#[derive(Clone, Debug, PartialEq)]
#[allow(inconsistent_fields)]
pub enum ToSrvPkt {
    Nil,
    Init {
        serialize_version: u8,
        /// After the constant 1: the compression that is supported.
        min_proto_version: u16,
        max_proto_version: u16,
        player_name: String,
        /// False where the packet ends before it.
        send_full_item_meta: bool,
    },
    Init2 {
        lang: String,
    },
    JoinModChan {
        channel: String,
    },
    LeaveModChan {
        channel: String,
    },
    MsgModChan {
        channel: String,
        msg: String,
    },
    PlayerPos(PlayerPos),
    GotBlocks {
        /// The positions of the blocks, behind an 8-bit length.
        blocks: Vec<[i16; 3]>,
    },
    DeletedBlocks {
        /// The positions of the blocks, behind an 8-bit length.
        blocks: Vec<[i16; 3]>,
    },
    InvAction {
        /// The action, without a length: it goes on to the end of the packet.
        action: String,
    },
    ChatMsg {
        /// The message, as UTF-16.
        msg: String,
    },
    FallDmg {
        amount: u16,
    },
    SelectItem {
        select_item: u16,
    },
    Respawn,
    Interact {
        action: Interaction,
        item_slot: u16,
        /// Framed by its size in bytes, as 32 bits.
        pointed: PointedThing,
        pos: PlayerPos,
    },
    RemovedSounds {
        ids: Vec<i32>,
    },
    NodeMetaFields {
        pos: [i16; 3],
        formname: String,
        /// The fields by name, in the order of the wire.
        fields: Vec<(String, String)>,
    },
    InvFields {
        formname: String,
        /// The fields by name, in the order of the wire.
        fields: Vec<(String, String)>,
    },
    ReqMedia {
        filenames: Vec<String>,
    },
    CltReady {
        major: u8,
        minor: u8,
        patch: u8,
        reserved: u8,
        version: String,
        formspec: u16,
    },
    FirstSrp {
        salt: Vec<u8>,
        verifier: Vec<u8>,
        empty_passwd: bool,
    },
    SrpBytesA {
        a: Vec<u8>,
        no_sha1: bool,
    },
    SrpBytesM {
        m: Vec<u8>,
    },
    Disco,
}

/// The mathematical value of a [`ToSrvPkt`].
#[allow(inconsistent_fields)]
pub ghost enum ToSrvPktView {
    Nil,
    Init {
        serialize_version: u8,
        min_proto_version: u16,
        max_proto_version: u16,
        player_name: Seq<char>,
        send_full_item_meta: bool,
    },
    Init2 {
        lang: Seq<char>,
    },
    JoinModChan {
        channel: Seq<char>,
    },
    LeaveModChan {
        channel: Seq<char>,
    },
    MsgModChan {
        channel: Seq<char>,
        msg: Seq<char>,
    },
    PlayerPos(PlayerPosView),
    GotBlocks {
        blocks: Seq<Seq<i16>>,
    },
    DeletedBlocks {
        blocks: Seq<Seq<i16>>,
    },
    InvAction {
        action: Seq<char>,
    },
    ChatMsg {
        msg: Seq<char>,
    },
    FallDmg {
        amount: u16,
    },
    SelectItem {
        select_item: u16,
    },
    Respawn,
    Interact {
        action: Interaction,
        item_slot: u16,
        pointed: PointedThing,
        pos: PlayerPosView,
    },
    RemovedSounds {
        ids: Seq<i32>,
    },
    NodeMetaFields {
        pos: Seq<i16>,
        formname: Seq<char>,
        fields: Seq<(Seq<char>, Seq<char>)>,
    },
    InvFields {
        formname: Seq<char>,
        fields: Seq<(Seq<char>, Seq<char>)>,
    },
    ReqMedia {
        filenames: Seq<Seq<char>>,
    },
    CltReady {
        major: u8,
        minor: u8,
        patch: u8,
        reserved: u8,
        version: Seq<char>,
        formspec: u16,
    },
    FirstSrp {
        salt: Seq<u8>,
        verifier: Seq<u8>,
        empty_passwd: bool,
    },
    SrpBytesA {
        a: Seq<u8>,
        no_sha1: bool,
    },
    SrpBytesM {
        m: Seq<u8>,
    },
    Disco,
}

impl DeepView for ToSrvPkt {
    type V = ToSrvPktView;

    open spec fn deep_view(&self) -> ToSrvPktView {
        match self {
            ToSrvPkt::Nil => ToSrvPktView::Nil,
            ToSrvPkt::Init {
                serialize_version,
                min_proto_version,
                max_proto_version,
                player_name,
                send_full_item_meta,
            } => ToSrvPktView::Init {
                serialize_version: serialize_version.deep_view(),
                min_proto_version: min_proto_version.deep_view(),
                max_proto_version: max_proto_version.deep_view(),
                player_name: player_name.deep_view(),
                send_full_item_meta: send_full_item_meta.deep_view(),
            },
            ToSrvPkt::Init2 { lang } => ToSrvPktView::Init2 {
                lang: lang.deep_view(),
            },
            ToSrvPkt::JoinModChan { channel } => ToSrvPktView::JoinModChan {
                channel: channel.deep_view(),
            },
            ToSrvPkt::LeaveModChan { channel } => ToSrvPktView::LeaveModChan {
                channel: channel.deep_view(),
            },
            ToSrvPkt::MsgModChan { channel, msg } => ToSrvPktView::MsgModChan {
                channel: channel.deep_view(),
                msg: msg.deep_view(),
            },
            ToSrvPkt::PlayerPos(field_0) => ToSrvPktView::PlayerPos(field_0.deep_view()),
            ToSrvPkt::GotBlocks { blocks } => ToSrvPktView::GotBlocks {
                blocks: blocks.deep_view(),
            },
            ToSrvPkt::DeletedBlocks { blocks } => ToSrvPktView::DeletedBlocks {
                blocks: blocks.deep_view(),
            },
            ToSrvPkt::InvAction { action } => ToSrvPktView::InvAction {
                action: action.deep_view(),
            },
            ToSrvPkt::ChatMsg { msg } => ToSrvPktView::ChatMsg {
                msg: msg.deep_view(),
            },
            ToSrvPkt::FallDmg { amount } => ToSrvPktView::FallDmg {
                amount: amount.deep_view(),
            },
            ToSrvPkt::SelectItem { select_item } => ToSrvPktView::SelectItem {
                select_item: select_item.deep_view(),
            },
            ToSrvPkt::Respawn => ToSrvPktView::Respawn,
            ToSrvPkt::Interact { action, item_slot, pointed, pos } => ToSrvPktView::Interact {
                action: action.deep_view(),
                item_slot: item_slot.deep_view(),
                pointed: pointed.deep_view(),
                pos: pos.deep_view(),
            },
            ToSrvPkt::RemovedSounds { ids } => ToSrvPktView::RemovedSounds {
                ids: ids.deep_view(),
            },
            ToSrvPkt::NodeMetaFields { pos, formname, fields } => ToSrvPktView::NodeMetaFields {
                pos: pos.deep_view(),
                formname: formname.deep_view(),
                fields: fields.deep_view(),
            },
            ToSrvPkt::InvFields { formname, fields } => ToSrvPktView::InvFields {
                formname: formname.deep_view(),
                fields: fields.deep_view(),
            },
            ToSrvPkt::ReqMedia { filenames } => ToSrvPktView::ReqMedia {
                filenames: filenames.deep_view(),
            },
            ToSrvPkt::CltReady {
                major,
                minor,
                patch,
                reserved,
                version,
                formspec,
            } => ToSrvPktView::CltReady {
                major: major.deep_view(),
                minor: minor.deep_view(),
                patch: patch.deep_view(),
                reserved: reserved.deep_view(),
                version: version.deep_view(),
                formspec: formspec.deep_view(),
            },
            ToSrvPkt::FirstSrp { salt, verifier, empty_passwd } => ToSrvPktView::FirstSrp {
                salt: salt.deep_view(),
                verifier: verifier.deep_view(),
                empty_passwd: empty_passwd.deep_view(),
            },
            ToSrvPkt::SrpBytesA { a, no_sha1 } => ToSrvPktView::SrpBytesA {
                a: a.deep_view(),
                no_sha1: no_sha1.deep_view(),
            },
            ToSrvPkt::SrpBytesM { m } => ToSrvPktView::SrpBytesM {
                m: m.deep_view(),
            },
            ToSrvPkt::Disco => ToSrvPktView::Disco,
        }
    }
}

impl ToSrvPkt {
    /// The discriminant of the variant of `v`.
    pub open spec fn tag(v: ToSrvPktView) -> u16 {
        match v {
            ToSrvPktView::Nil => 0,
            ToSrvPktView::Init { .. } => 2,
            ToSrvPktView::Init2 { .. } => 17,
            ToSrvPktView::JoinModChan { .. } => 23,
            ToSrvPktView::LeaveModChan { .. } => 24,
            ToSrvPktView::MsgModChan { .. } => 25,
            ToSrvPktView::PlayerPos(..) => 35,
            ToSrvPktView::GotBlocks { .. } => 36,
            ToSrvPktView::DeletedBlocks { .. } => 37,
            ToSrvPktView::InvAction { .. } => 49,
            ToSrvPktView::ChatMsg { .. } => 50,
            ToSrvPktView::FallDmg { .. } => 53,
            ToSrvPktView::SelectItem { .. } => 55,
            ToSrvPktView::Respawn => 56,
            ToSrvPktView::Interact { .. } => 57,
            ToSrvPktView::RemovedSounds { .. } => 58,
            ToSrvPktView::NodeMetaFields { .. } => 59,
            ToSrvPktView::InvFields { .. } => 60,
            ToSrvPktView::ReqMedia { .. } => 64,
            ToSrvPktView::CltReady { .. } => 67,
            ToSrvPktView::FirstSrp { .. } => 80,
            ToSrvPktView::SrpBytesA { .. } => 81,
            ToSrvPktView::SrpBytesM { .. } => 82,
            ToSrvPktView::Disco => 65535,
        }
    }

    /// The declaration of the variants: `Some` for one with a number of its
    /// own, `None` for one that follows the variant before it.
    pub open spec fn decl() -> Seq<Option<u64>> {
        seq![
            Some(0), Some(2), Some(17), Some(23), None, None, Some(35), None, None, Some(49),
            None, Some(53), Some(55), None, None, None, None, None, Some(64), Some(67),
            Some(80), None, None, Some(65535),
        ]
    }

    /// The position of the variant of `v` in the declaration.
    pub open spec fn index(v: ToSrvPktView) -> int {
        match v {
            ToSrvPktView::Nil => 0,
            ToSrvPktView::Init { .. } => 1,
            ToSrvPktView::Init2 { .. } => 2,
            ToSrvPktView::JoinModChan { .. } => 3,
            ToSrvPktView::LeaveModChan { .. } => 4,
            ToSrvPktView::MsgModChan { .. } => 5,
            ToSrvPktView::PlayerPos(..) => 6,
            ToSrvPktView::GotBlocks { .. } => 7,
            ToSrvPktView::DeletedBlocks { .. } => 8,
            ToSrvPktView::InvAction { .. } => 9,
            ToSrvPktView::ChatMsg { .. } => 10,
            ToSrvPktView::FallDmg { .. } => 11,
            ToSrvPktView::SelectItem { .. } => 12,
            ToSrvPktView::Respawn => 13,
            ToSrvPktView::Interact { .. } => 14,
            ToSrvPktView::RemovedSounds { .. } => 15,
            ToSrvPktView::NodeMetaFields { .. } => 16,
            ToSrvPktView::InvFields { .. } => 17,
            ToSrvPktView::ReqMedia { .. } => 18,
            ToSrvPktView::CltReady { .. } => 19,
            ToSrvPktView::FirstSrp { .. } => 20,
            ToSrvPktView::SrpBytesA { .. } => 21,
            ToSrvPktView::SrpBytesM { .. } => 22,
            ToSrvPktView::Disco => 23,
        }
    }

    /// The discriminants are the ones that the declaration assigns.
    pub proof fn lemma_tag(v: ToSrvPktView)
        ensures
            Self::tag(v) as int == assigned(Self::decl())[Self::index(v)],
    {
        match v {
            ToSrvPktView::Nil => lemma_assigned_at(Self::decl(), 0),
            ToSrvPktView::Init { .. } => lemma_assigned_at(Self::decl(), 1),
            ToSrvPktView::Init2 { .. } => lemma_assigned_at(Self::decl(), 2),
            ToSrvPktView::JoinModChan { .. } => lemma_assigned_at(Self::decl(), 3),
            ToSrvPktView::LeaveModChan { .. } => {
                lemma_assigned_at(Self::decl(), 3);
                lemma_assigned_at(Self::decl(), 4);
            },
            ToSrvPktView::MsgModChan { .. } => {
                lemma_assigned_at(Self::decl(), 3);
                lemma_assigned_at(Self::decl(), 4);
                lemma_assigned_at(Self::decl(), 5);
            },
            ToSrvPktView::PlayerPos(..) => lemma_assigned_at(Self::decl(), 6),
            ToSrvPktView::GotBlocks { .. } => {
                lemma_assigned_at(Self::decl(), 6);
                lemma_assigned_at(Self::decl(), 7);
            },
            ToSrvPktView::DeletedBlocks { .. } => {
                lemma_assigned_at(Self::decl(), 6);
                lemma_assigned_at(Self::decl(), 7);
                lemma_assigned_at(Self::decl(), 8);
            },
            ToSrvPktView::InvAction { .. } => lemma_assigned_at(Self::decl(), 9),
            ToSrvPktView::ChatMsg { .. } => {
                lemma_assigned_at(Self::decl(), 9);
                lemma_assigned_at(Self::decl(), 10);
            },
            ToSrvPktView::FallDmg { .. } => lemma_assigned_at(Self::decl(), 11),
            ToSrvPktView::SelectItem { .. } => lemma_assigned_at(Self::decl(), 12),
            ToSrvPktView::Respawn => {
                lemma_assigned_at(Self::decl(), 12);
                lemma_assigned_at(Self::decl(), 13);
            },
            ToSrvPktView::Interact { .. } => {
                lemma_assigned_at(Self::decl(), 12);
                lemma_assigned_at(Self::decl(), 13);
                lemma_assigned_at(Self::decl(), 14);
            },
            ToSrvPktView::RemovedSounds { .. } => {
                lemma_assigned_at(Self::decl(), 12);
                lemma_assigned_at(Self::decl(), 13);
                lemma_assigned_at(Self::decl(), 14);
                lemma_assigned_at(Self::decl(), 15);
            },
            ToSrvPktView::NodeMetaFields { .. } => {
                lemma_assigned_at(Self::decl(), 12);
                lemma_assigned_at(Self::decl(), 13);
                lemma_assigned_at(Self::decl(), 14);
                lemma_assigned_at(Self::decl(), 15);
                lemma_assigned_at(Self::decl(), 16);
            },
            ToSrvPktView::InvFields { .. } => {
                lemma_assigned_at(Self::decl(), 12);
                lemma_assigned_at(Self::decl(), 13);
                lemma_assigned_at(Self::decl(), 14);
                lemma_assigned_at(Self::decl(), 15);
                lemma_assigned_at(Self::decl(), 16);
                lemma_assigned_at(Self::decl(), 17);
            },
            ToSrvPktView::ReqMedia { .. } => lemma_assigned_at(Self::decl(), 18),
            ToSrvPktView::CltReady { .. } => lemma_assigned_at(Self::decl(), 19),
            ToSrvPktView::FirstSrp { .. } => lemma_assigned_at(Self::decl(), 20),
            ToSrvPktView::SrpBytesA { .. } => {
                lemma_assigned_at(Self::decl(), 20);
                lemma_assigned_at(Self::decl(), 21);
            },
            ToSrvPktView::SrpBytesM { .. } => {
                lemma_assigned_at(Self::decl(), 20);
                lemma_assigned_at(Self::decl(), 21);
                lemma_assigned_at(Self::decl(), 22);
            },
            ToSrvPktView::Disco => lemma_assigned_at(Self::decl(), 23),
        }
    }

    /// Whether what the variant holds can be written.
    pub open spec fn payload_fits(v: ToSrvPktView) -> bool {
        match v {
            ToSrvPktView::Nil => true,
            ToSrvPktView::Init {
                serialize_version,
                min_proto_version,
                max_proto_version,
                player_name,
                send_full_item_meta,
            } => {
                &&& u8::fits(serialize_version, def_cfg())
                &&& u16::fits(min_proto_version, def_cfg())
                &&& u16::fits(max_proto_version, def_cfg())
                &&& String::fits(player_name, def_cfg())
                &&& bool::fits(send_full_item_meta, def_cfg())
            },
            ToSrvPktView::Init2 { lang } => String::fits(lang, def_cfg()),
            ToSrvPktView::JoinModChan { channel } => String::fits(channel, def_cfg()),
            ToSrvPktView::LeaveModChan { channel } => String::fits(channel, def_cfg()),
            ToSrvPktView::MsgModChan { channel, msg } => {
                &&& String::fits(channel, def_cfg())
                &&& String::fits(msg, def_cfg())
            },
            ToSrvPktView::PlayerPos(field_0) => PlayerPos::fits(field_0, def_cfg()),
            ToSrvPktView::GotBlocks { blocks } => Vec::<[i16; 3]>::fits(
                blocks,
                MtCfg::with_len(LenWidth::W8),
            ),
            ToSrvPktView::DeletedBlocks { blocks } => Vec::<[i16; 3]>::fits(
                blocks,
                MtCfg::with_len(LenWidth::W8),
            ),
            ToSrvPktView::InvAction { action } => String::fits(action, MtCfg::no_len()),
            ToSrvPktView::ChatMsg { msg } => String::fits(msg, Utf16(def_cfg()).cfg()),
            ToSrvPktView::FallDmg { amount } => u16::fits(amount, def_cfg()),
            ToSrvPktView::SelectItem { select_item } => u16::fits(select_item, def_cfg()),
            ToSrvPktView::Respawn => true,
            ToSrvPktView::Interact { action, item_slot, pointed, pos } => {
                &&& Interaction::fits(action, def_cfg())
                &&& u16::fits(item_slot, def_cfg())
                &&& field_fits::<PointedThing>(pointed, sized_args(LenWidth::W32, def_cfg()))
                &&& PlayerPos::fits(pos, def_cfg())
            },
            ToSrvPktView::RemovedSounds { ids } => Vec::<i32>::fits(ids, def_cfg()),
            ToSrvPktView::NodeMetaFields { pos, formname, fields } => {
                &&& <[i16; 3]>::fits(pos, def_cfg())
                &&& String::fits(formname, def_cfg())
                &&& Vec::<(String, String)>::fits(fields, def_cfg())
            },
            ToSrvPktView::InvFields { formname, fields } => {
                &&& String::fits(formname, def_cfg())
                &&& Vec::<(String, String)>::fits(fields, def_cfg())
            },
            ToSrvPktView::ReqMedia { filenames } => Vec::<String>::fits(filenames, def_cfg()),
            ToSrvPktView::CltReady { major, minor, patch, reserved, version, formspec } => {
                &&& u8::fits(major, def_cfg())
                &&& u8::fits(minor, def_cfg())
                &&& u8::fits(patch, def_cfg())
                &&& u8::fits(reserved, def_cfg())
                &&& String::fits(version, def_cfg())
                &&& u16::fits(formspec, def_cfg())
            },
            ToSrvPktView::FirstSrp { salt, verifier, empty_passwd } => {
                &&& Vec::<u8>::fits(salt, def_cfg())
                &&& Vec::<u8>::fits(verifier, def_cfg())
                &&& bool::fits(empty_passwd, def_cfg())
            },
            ToSrvPktView::SrpBytesA { a, no_sha1 } => {
                &&& Vec::<u8>::fits(a, def_cfg())
                &&& bool::fits(no_sha1, def_cfg())
            },
            ToSrvPktView::SrpBytesM { m } => Vec::<u8>::fits(m, def_cfg()),
            ToSrvPktView::Disco => true,
        }
    }

    /// The fault with which what the variant holds is refused: that of its
    /// first field that does not fit.
    pub open spec fn payload_fault(v: ToSrvPktView) -> WriteFault {
        match v {
            ToSrvPktView::Nil => WriteFault::TooBig,
            ToSrvPktView::Init {
                serialize_version,
                min_proto_version,
                max_proto_version,
                player_name,
                send_full_item_meta,
            } => {
                if !u8::fits(serialize_version, def_cfg()) {
                    u8::fault(serialize_version, def_cfg())
                } else if !u16::fits(min_proto_version, def_cfg()) {
                    u16::fault(min_proto_version, def_cfg())
                } else if !u16::fits(max_proto_version, def_cfg()) {
                    u16::fault(max_proto_version, def_cfg())
                } else if !String::fits(player_name, def_cfg()) {
                    String::fault(player_name, def_cfg())
                } else {
                    bool::fault(send_full_item_meta, def_cfg())
                }
            },
            ToSrvPktView::Init2 { lang } => String::fault(lang, def_cfg()),
            ToSrvPktView::JoinModChan { channel } => String::fault(channel, def_cfg()),
            ToSrvPktView::LeaveModChan { channel } => String::fault(channel, def_cfg()),
            ToSrvPktView::MsgModChan { channel, msg } => {
                if !String::fits(channel, def_cfg()) {
                    String::fault(channel, def_cfg())
                } else {
                    String::fault(msg, def_cfg())
                }
            },
            ToSrvPktView::PlayerPos(field_0) => PlayerPos::fault(field_0, def_cfg()),
            ToSrvPktView::GotBlocks { blocks } => Vec::<[i16; 3]>::fault(
                blocks,
                MtCfg::with_len(LenWidth::W8),
            ),
            ToSrvPktView::DeletedBlocks { blocks } => Vec::<[i16; 3]>::fault(
                blocks,
                MtCfg::with_len(LenWidth::W8),
            ),
            ToSrvPktView::InvAction { action } => String::fault(action, MtCfg::no_len()),
            ToSrvPktView::ChatMsg { msg } => String::fault(msg, Utf16(def_cfg()).cfg()),
            ToSrvPktView::FallDmg { amount } => u16::fault(amount, def_cfg()),
            ToSrvPktView::SelectItem { select_item } => u16::fault(select_item, def_cfg()),
            ToSrvPktView::Respawn => WriteFault::TooBig,
            ToSrvPktView::Interact { action, item_slot, pointed, pos } => {
                if !Interaction::fits(action, def_cfg()) {
                    Interaction::fault(action, def_cfg())
                } else if !u16::fits(item_slot, def_cfg()) {
                    u16::fault(item_slot, def_cfg())
                } else if !field_fits::<PointedThing>(
                    pointed,
                    sized_args(LenWidth::W32, def_cfg()),
                ) {
                    field_fault::<PointedThing>(pointed, sized_args(LenWidth::W32, def_cfg()))
                } else {
                    PlayerPos::fault(pos, def_cfg())
                }
            },
            ToSrvPktView::RemovedSounds { ids } => Vec::<i32>::fault(ids, def_cfg()),
            ToSrvPktView::NodeMetaFields { pos, formname, fields } => {
                if !<[i16; 3]>::fits(pos, def_cfg()) {
                    <[i16; 3]>::fault(pos, def_cfg())
                } else if !String::fits(formname, def_cfg()) {
                    String::fault(formname, def_cfg())
                } else {
                    Vec::<(String, String)>::fault(fields, def_cfg())
                }
            },
            ToSrvPktView::InvFields { formname, fields } => {
                if !String::fits(formname, def_cfg()) {
                    String::fault(formname, def_cfg())
                } else {
                    Vec::<(String, String)>::fault(fields, def_cfg())
                }
            },
            ToSrvPktView::ReqMedia { filenames } => Vec::<String>::fault(filenames, def_cfg()),
            ToSrvPktView::CltReady { major, minor, patch, reserved, version, formspec } => {
                if !u8::fits(major, def_cfg()) {
                    u8::fault(major, def_cfg())
                } else if !u8::fits(minor, def_cfg()) {
                    u8::fault(minor, def_cfg())
                } else if !u8::fits(patch, def_cfg()) {
                    u8::fault(patch, def_cfg())
                } else if !u8::fits(reserved, def_cfg()) {
                    u8::fault(reserved, def_cfg())
                } else if !String::fits(version, def_cfg()) {
                    String::fault(version, def_cfg())
                } else {
                    u16::fault(formspec, def_cfg())
                }
            },
            ToSrvPktView::FirstSrp { salt, verifier, empty_passwd } => {
                if !Vec::<u8>::fits(salt, def_cfg()) {
                    Vec::<u8>::fault(salt, def_cfg())
                } else if !Vec::<u8>::fits(verifier, def_cfg()) {
                    Vec::<u8>::fault(verifier, def_cfg())
                } else {
                    bool::fault(empty_passwd, def_cfg())
                }
            },
            ToSrvPktView::SrpBytesA { a, no_sha1 } => {
                if !Vec::<u8>::fits(a, def_cfg()) {
                    Vec::<u8>::fault(a, def_cfg())
                } else {
                    bool::fault(no_sha1, def_cfg())
                }
            },
            ToSrvPktView::SrpBytesM { m } => Vec::<u8>::fault(m, def_cfg()),
            ToSrvPktView::Disco => WriteFault::TooBig,
        }
    }

    /// The bytes of what the variant holds, after the discriminant.
    pub open spec fn payload_wire(v: ToSrvPktView) -> Seq<u8> {
        match v {
            ToSrvPktView::Nil => Seq::empty(),
            ToSrvPktView::Init {
                serialize_version,
                min_proto_version,
                max_proto_version,
                player_name,
                send_full_item_meta,
            } => u8::wire(serialize_version, def_cfg())
                + raw_wire(RawView::U16(1))
                + u16::wire(min_proto_version, def_cfg())
                + u16::wire(max_proto_version, def_cfg())
                + String::wire(player_name, def_cfg())
                + bool::wire(send_full_item_meta, def_cfg()),
            ToSrvPktView::Init2 { lang } => String::wire(lang, def_cfg()),
            ToSrvPktView::JoinModChan { channel } => String::wire(channel, def_cfg()),
            ToSrvPktView::LeaveModChan { channel } => String::wire(channel, def_cfg()),
            ToSrvPktView::MsgModChan { channel, msg } => String::wire(channel, def_cfg())
                + String::wire(msg, def_cfg()),
            ToSrvPktView::PlayerPos(field_0) => PlayerPos::wire(field_0, def_cfg()),
            ToSrvPktView::GotBlocks { blocks } => Vec::<[i16; 3]>::wire(
                blocks,
                MtCfg::with_len(LenWidth::W8),
            ),
            ToSrvPktView::DeletedBlocks { blocks } => Vec::<[i16; 3]>::wire(
                blocks,
                MtCfg::with_len(LenWidth::W8),
            ),
            ToSrvPktView::InvAction { action } => String::wire(action, MtCfg::no_len()),
            ToSrvPktView::ChatMsg { msg } => String::wire(msg, Utf16(def_cfg()).cfg()),
            ToSrvPktView::FallDmg { amount } => u16::wire(amount, def_cfg()),
            ToSrvPktView::SelectItem { select_item } => u16::wire(select_item, def_cfg()),
            ToSrvPktView::Respawn => Seq::empty(),
            ToSrvPktView::Interact {
                action,
                item_slot,
                pointed,
                pos,
            } => Interaction::wire(action, def_cfg())
                + u16::wire(item_slot, def_cfg())
                + field_wire::<PointedThing>(pointed, sized_args(LenWidth::W32, def_cfg()))
                + PlayerPos::wire(pos, def_cfg()),
            ToSrvPktView::RemovedSounds { ids } => Vec::<i32>::wire(ids, def_cfg()),
            ToSrvPktView::NodeMetaFields {
                pos,
                formname,
                fields,
            } => <[i16; 3]>::wire(pos, def_cfg())
                + String::wire(formname, def_cfg())
                + Vec::<(String, String)>::wire(fields, def_cfg()),
            ToSrvPktView::InvFields { formname, fields } => String::wire(formname, def_cfg())
                + Vec::<(String, String)>::wire(fields, def_cfg()),
            ToSrvPktView::ReqMedia { filenames } => Vec::<String>::wire(filenames, def_cfg()),
            ToSrvPktView::CltReady {
                major,
                minor,
                patch,
                reserved,
                version,
                formspec,
            } => u8::wire(major, def_cfg())
                + u8::wire(minor, def_cfg())
                + u8::wire(patch, def_cfg())
                + u8::wire(reserved, def_cfg())
                + String::wire(version, def_cfg())
                + u16::wire(formspec, def_cfg()),
            ToSrvPktView::FirstSrp {
                salt,
                verifier,
                empty_passwd,
            } => Vec::<u8>::wire(salt, def_cfg())
                + Vec::<u8>::wire(verifier, def_cfg())
                + bool::wire(empty_passwd, def_cfg()),
            ToSrvPktView::SrpBytesA { a, no_sha1 } => Vec::<u8>::wire(a, def_cfg())
                + bool::wire(no_sha1, def_cfg()),
            ToSrvPktView::SrpBytesM { m } => Vec::<u8>::wire(m, def_cfg()),
            ToSrvPktView::Disco => Seq::empty(),
        }
    }

    /// Whether what the variant holds can be told from the bytes `rest`
    /// after it.
    pub open spec fn payload_sound(v: ToSrvPktView, rest: Seq<u8>) -> bool {
        match v {
            ToSrvPktView::Nil => true,
            ToSrvPktView::Init {
                serialize_version,
                min_proto_version,
                max_proto_version,
                player_name,
                send_full_item_meta,
            } => {
                let after_send_full_item_meta = rest;
                let after_player_name = bool::wire(send_full_item_meta, def_cfg())
                    + after_send_full_item_meta;
                let after_max_proto_version = String::wire(player_name, def_cfg())
                    + after_player_name;
                let after_min_proto_version = u16::wire(max_proto_version, def_cfg())
                    + after_max_proto_version;
                let after_const_1 = u16::wire(min_proto_version, def_cfg())
                    + after_min_proto_version;
                let after_serialize_version = raw_wire(RawView::U16(1)) + after_const_1;
                &&& u8::sound(serialize_version, def_cfg(), after_serialize_version)
                &&& u16::sound(min_proto_version, def_cfg(), after_min_proto_version)
                &&& u16::sound(max_proto_version, def_cfg(), after_max_proto_version)
                &&& String::sound(player_name, def_cfg(), after_player_name)
                &&& bool::sound(send_full_item_meta, def_cfg(), after_send_full_item_meta)
            },
            ToSrvPktView::Init2 { lang } => {
                let after_lang = rest;
                &&& String::sound(lang, def_cfg(), after_lang)
            },
            ToSrvPktView::JoinModChan { channel } => {
                let after_channel = rest;
                &&& String::sound(channel, def_cfg(), after_channel)
            },
            ToSrvPktView::LeaveModChan { channel } => {
                let after_channel = rest;
                &&& String::sound(channel, def_cfg(), after_channel)
            },
            ToSrvPktView::MsgModChan { channel, msg } => {
                let after_msg = rest;
                let after_channel = String::wire(msg, def_cfg()) + after_msg;
                &&& String::sound(channel, def_cfg(), after_channel)
                &&& String::sound(msg, def_cfg(), after_msg)
            },
            ToSrvPktView::PlayerPos(field_0) => {
                let after_field_0 = rest;
                &&& PlayerPos::sound(field_0, def_cfg(), after_field_0)
            },
            ToSrvPktView::GotBlocks { blocks } => {
                let after_blocks = rest;
                &&& Vec::<[i16; 3]>::sound(blocks, MtCfg::with_len(LenWidth::W8), after_blocks)
            },
            ToSrvPktView::DeletedBlocks { blocks } => {
                let after_blocks = rest;
                &&& Vec::<[i16; 3]>::sound(blocks, MtCfg::with_len(LenWidth::W8), after_blocks)
            },
            ToSrvPktView::InvAction { action } => {
                let after_action = rest;
                &&& String::sound(action, MtCfg::no_len(), after_action)
            },
            ToSrvPktView::ChatMsg { msg } => {
                let after_msg = rest;
                &&& String::sound(msg, Utf16(def_cfg()).cfg(), after_msg)
            },
            ToSrvPktView::FallDmg { amount } => {
                let after_amount = rest;
                &&& u16::sound(amount, def_cfg(), after_amount)
            },
            ToSrvPktView::SelectItem { select_item } => {
                let after_select_item = rest;
                &&& u16::sound(select_item, def_cfg(), after_select_item)
            },
            ToSrvPktView::Respawn => true,
            ToSrvPktView::Interact { action, item_slot, pointed, pos } => {
                let after_pos = rest;
                let after_pointed = PlayerPos::wire(pos, def_cfg()) + after_pos;
                let after_item_slot = field_wire::<PointedThing>(
                    pointed,
                    sized_args(LenWidth::W32, def_cfg()),
                )
                    + after_pointed;
                let after_action = u16::wire(item_slot, def_cfg()) + after_item_slot;
                &&& Interaction::sound(action, def_cfg(), after_action)
                &&& u16::sound(item_slot, def_cfg(), after_item_slot)
                &&& field_sound::<PointedThing>(
                    pointed,
                    sized_args(LenWidth::W32, def_cfg()),
                    after_pointed,
                )
                &&& PlayerPos::sound(pos, def_cfg(), after_pos)
            },
            ToSrvPktView::RemovedSounds { ids } => {
                let after_ids = rest;
                &&& Vec::<i32>::sound(ids, def_cfg(), after_ids)
            },
            ToSrvPktView::NodeMetaFields { pos, formname, fields } => {
                let after_fields = rest;
                let after_formname = Vec::<(String, String)>::wire(fields, def_cfg())
                    + after_fields;
                let after_pos = String::wire(formname, def_cfg()) + after_formname;
                &&& <[i16; 3]>::sound(pos, def_cfg(), after_pos)
                &&& String::sound(formname, def_cfg(), after_formname)
                &&& Vec::<(String, String)>::sound(fields, def_cfg(), after_fields)
            },
            ToSrvPktView::InvFields { formname, fields } => {
                let after_fields = rest;
                let after_formname = Vec::<(String, String)>::wire(fields, def_cfg())
                    + after_fields;
                &&& String::sound(formname, def_cfg(), after_formname)
                &&& Vec::<(String, String)>::sound(fields, def_cfg(), after_fields)
            },
            ToSrvPktView::ReqMedia { filenames } => {
                let after_filenames = rest;
                &&& Vec::<String>::sound(filenames, def_cfg(), after_filenames)
            },
            ToSrvPktView::CltReady { major, minor, patch, reserved, version, formspec } => {
                let after_formspec = rest;
                let after_version = u16::wire(formspec, def_cfg()) + after_formspec;
                let after_reserved = String::wire(version, def_cfg()) + after_version;
                let after_patch = u8::wire(reserved, def_cfg()) + after_reserved;
                let after_minor = u8::wire(patch, def_cfg()) + after_patch;
                let after_major = u8::wire(minor, def_cfg()) + after_minor;
                &&& u8::sound(major, def_cfg(), after_major)
                &&& u8::sound(minor, def_cfg(), after_minor)
                &&& u8::sound(patch, def_cfg(), after_patch)
                &&& u8::sound(reserved, def_cfg(), after_reserved)
                &&& String::sound(version, def_cfg(), after_version)
                &&& u16::sound(formspec, def_cfg(), after_formspec)
            },
            ToSrvPktView::FirstSrp { salt, verifier, empty_passwd } => {
                let after_empty_passwd = rest;
                let after_verifier = bool::wire(empty_passwd, def_cfg()) + after_empty_passwd;
                let after_salt = Vec::<u8>::wire(verifier, def_cfg()) + after_verifier;
                &&& Vec::<u8>::sound(salt, def_cfg(), after_salt)
                &&& Vec::<u8>::sound(verifier, def_cfg(), after_verifier)
                &&& bool::sound(empty_passwd, def_cfg(), after_empty_passwd)
            },
            ToSrvPktView::SrpBytesA { a, no_sha1 } => {
                let after_no_sha1 = rest;
                let after_a = bool::wire(no_sha1, def_cfg()) + after_no_sha1;
                &&& Vec::<u8>::sound(a, def_cfg(), after_a)
                &&& bool::sound(no_sha1, def_cfg(), after_no_sha1)
            },
            ToSrvPktView::SrpBytesM { m } => {
                let after_m = rest;
                &&& Vec::<u8>::sound(m, def_cfg(), after_m)
            },
            ToSrvPktView::Disco => true,
        }
    }

    /// What reading the variant `Init` makes of `input`, after the
    /// discriminant.
    pub open spec fn parse_init(input: Seq<u8>) -> Parsed<ToSrvPktView> {
        then(input, u8::parse(def_cfg(), input), |serialize_version, input|
        then(input, const_parse(RawView::U16(1), input), |found, input|
        then(input, u16::parse(def_cfg(), input), |min_proto_version, input|
        then(input, u16::parse(def_cfg(), input), |max_proto_version, input|
        then(input, String::parse(def_cfg(), input), |player_name, input|
        then(input, base_parse::<bool>(def_cfg(), input, Some(false)), |send_full_item_meta, input|
        done(
            ToSrvPktView::Init {
                serialize_version,
                min_proto_version,
                max_proto_version,
                player_name,
                send_full_item_meta,
            },
            0,
        )))))))
    }

    fn write_init(&self, writer: &mut Vec<u8>, Ghost(base): Ghost<Seq<u8>>) -> (r: Result<
        (),
        SerializeError,
    >)
        requires
            self.deep_view() is Init,
            base.is_prefix_of(old(writer)@),
        ensures
            r is Ok <==> Self::payload_fits(self.deep_view()),
            r is Ok ==> final(writer)@ == old(writer)@ + Self::payload_wire(self.deep_view()),
            r matches Err(e) ==> e@ == Self::payload_fault(self.deep_view()),
            base.is_prefix_of(final(writer)@),
    {
        match self {
            ToSrvPkt::Init {
                serialize_version,
                min_proto_version,
                max_proto_version,
                player_name,
                send_full_item_meta,
            } => {
                write_part(serialize_version, def_cfg(), writer, Ghost(base))?;
                let ghost written = u8::wire(serialize_version.deep_view(), def_cfg());
                write_const_part(&Raw::U16(1), writer, Ghost(base))?;
                proof {
                    lemma_join_assoc(old(writer)@, written, raw_wire(RawView::U16(1)));
                }
                let ghost written = written + raw_wire(RawView::U16(1));
                write_part(min_proto_version, def_cfg(), writer, Ghost(base))?;
                proof {
                    lemma_join_assoc(
                        old(writer)@,
                        written,
                        u16::wire(min_proto_version.deep_view(), def_cfg()),
                    );
                }
                let ghost written = written + u16::wire(min_proto_version.deep_view(), def_cfg());
                write_part(max_proto_version, def_cfg(), writer, Ghost(base))?;
                proof {
                    lemma_join_assoc(
                        old(writer)@,
                        written,
                        u16::wire(max_proto_version.deep_view(), def_cfg()),
                    );
                }
                let ghost written = written + u16::wire(max_proto_version.deep_view(), def_cfg());
                write_part(player_name, def_cfg(), writer, Ghost(base))?;
                proof {
                    lemma_join_assoc(
                        old(writer)@,
                        written,
                        String::wire(player_name.deep_view(), def_cfg()),
                    );
                }
                let ghost written = written + String::wire(player_name.deep_view(), def_cfg());
                write_part(send_full_item_meta, def_cfg(), writer, Ghost(base))?;
                proof {
                    lemma_join_assoc(
                        old(writer)@,
                        written,
                        bool::wire(send_full_item_meta.deep_view(), def_cfg()),
                    );
                }
                Ok(())
            },
            _ => vstd::pervasive::unreached(),
        }
    }

    fn read_init(reader: &mut WrapRead) -> (r: Result<ToSrvPkt, DeserializeError>)
        ensures
            agrees(r, Self::parse_init(old(reader)@)),
            Self::parse_init(old(reader)@).used <= old(reader)@.len(),
            final(reader)@ == old(reader)@.skip(Self::parse_init(old(reader)@).used as int),
    {
        let ghost input = reader@;
        let ghost used: nat = 0;
        assert(input.skip(0) == input);
        let ghost part0 = u8::parse(def_cfg(), reader@);
        let serialize_version = read_part::<u8>(def_cfg(), reader, Ghost(input), Ghost(used))?;
        let ghost used = used + part0.used;
        let ghost part1 = const_parse(RawView::U16(1), reader@);
        read_const_part(&Raw::U16(1), reader, Ghost(input), Ghost(used))?;
        let ghost used = used + part1.used;
        let ghost part2 = u16::parse(def_cfg(), reader@);
        let min_proto_version = read_part::<u16>(def_cfg(), reader, Ghost(input), Ghost(used))?;
        let ghost used = used + part2.used;
        let ghost part3 = u16::parse(def_cfg(), reader@);
        let max_proto_version = read_part::<u16>(def_cfg(), reader, Ghost(input), Ghost(used))?;
        let ghost used = used + part3.used;
        let ghost part4 = String::parse(def_cfg(), reader@);
        let player_name = read_part::<String>(def_cfg(), reader, Ghost(input), Ghost(used))?;
        let ghost used = used + part4.used;
        let ghost part5 = base_parse::<bool>(def_cfg(), reader@, Some(false));
        let send_full_item_meta = read_part_or::<bool>(
            def_cfg(),
            reader,
            false,
            Ghost(input),
            Ghost(used),
        )?;
        let ghost used = used + part5.used;
        Ok(
            ToSrvPkt::Init {
                serialize_version,
                min_proto_version,
                max_proto_version,
                player_name,
                send_full_item_meta,
            },
        )
    }

    proof fn lemma_init(v: ToSrvPktView, rest: Seq<u8>)
        requires
            v is Init,
            Self::payload_fits(v),
            Self::payload_sound(v, rest),
        ensures
            Self::parse_init(Self::payload_wire(v) + rest) == done(v, Self::payload_wire(v).len()),
    {
        match v {
            ToSrvPktView::Init {
                serialize_version,
                min_proto_version,
                max_proto_version,
                player_name,
                send_full_item_meta,
            } => {
                let after_send_full_item_meta = rest;
                let after_player_name = bool::wire(send_full_item_meta, def_cfg())
                    + after_send_full_item_meta;
                let after_max_proto_version = String::wire(player_name, def_cfg())
                    + after_player_name;
                let after_min_proto_version = u16::wire(max_proto_version, def_cfg())
                    + after_max_proto_version;
                let after_const_1 = u16::wire(min_proto_version, def_cfg())
                    + after_min_proto_version;
                let after_serialize_version = raw_wire(RawView::U16(1)) + after_const_1;
                let before = u8::wire(serialize_version, def_cfg());
                lemma_join_assoc(before, raw_wire(RawView::U16(1)), after_const_1);
                let before = before + raw_wire(RawView::U16(1));
                lemma_join_assoc(
                    before,
                    u16::wire(min_proto_version, def_cfg()),
                    after_min_proto_version,
                );
                let before = before + u16::wire(min_proto_version, def_cfg());
                lemma_join_assoc(
                    before,
                    u16::wire(max_proto_version, def_cfg()),
                    after_max_proto_version,
                );
                let before = before + u16::wire(max_proto_version, def_cfg());
                lemma_join_assoc(before, String::wire(player_name, def_cfg()), after_player_name);
                let before = before + String::wire(player_name, def_cfg());
                lemma_join_assoc(
                    before,
                    bool::wire(send_full_item_meta, def_cfg()),
                    after_send_full_item_meta,
                );
                u8::lemma_round_trip(serialize_version, def_cfg(), after_serialize_version);
                lemma_skip_joined(u8::wire(serialize_version, def_cfg()), after_serialize_version);
                lemma_const_round_trip(RawView::U16(1), after_const_1);
                lemma_skip_joined(raw_wire(RawView::U16(1)), after_const_1);
                u16::lemma_round_trip(min_proto_version, def_cfg(), after_min_proto_version);
                lemma_skip_joined(u16::wire(min_proto_version, def_cfg()), after_min_proto_version);
                u16::lemma_round_trip(max_proto_version, def_cfg(), after_max_proto_version);
                lemma_skip_joined(u16::wire(max_proto_version, def_cfg()), after_max_proto_version);
                String::lemma_round_trip(player_name, def_cfg(), after_player_name);
                lemma_skip_joined(String::wire(player_name, def_cfg()), after_player_name);
                bool::lemma_round_trip(send_full_item_meta, def_cfg(), after_send_full_item_meta);
                lemma_skip_joined(
                    bool::wire(send_full_item_meta, def_cfg()),
                    after_send_full_item_meta,
                );
            },
            _ => {},
        }
    }

    /// What reading the variant `Init2` makes of `input`, after the
    /// discriminant.
    pub open spec fn parse_init2(input: Seq<u8>) -> Parsed<ToSrvPktView> {
        then(input, String::parse(def_cfg(), input), |lang, input|
        done(ToSrvPktView::Init2 { lang }, 0))
    }

    fn write_init2(&self, writer: &mut Vec<u8>, Ghost(base): Ghost<Seq<u8>>) -> (r: Result<
        (),
        SerializeError,
    >)
        requires
            self.deep_view() is Init2,
            base.is_prefix_of(old(writer)@),
        ensures
            r is Ok <==> Self::payload_fits(self.deep_view()),
            r is Ok ==> final(writer)@ == old(writer)@ + Self::payload_wire(self.deep_view()),
            r matches Err(e) ==> e@ == Self::payload_fault(self.deep_view()),
            base.is_prefix_of(final(writer)@),
    {
        match self {
            ToSrvPkt::Init2 { lang } => {
                write_part(lang, def_cfg(), writer, Ghost(base))?;
                Ok(())
            },
            _ => vstd::pervasive::unreached(),
        }
    }

    fn read_init2(reader: &mut WrapRead) -> (r: Result<ToSrvPkt, DeserializeError>)
        ensures
            agrees(r, Self::parse_init2(old(reader)@)),
            Self::parse_init2(old(reader)@).used <= old(reader)@.len(),
            final(reader)@ == old(reader)@.skip(Self::parse_init2(old(reader)@).used as int),
    {
        let ghost input = reader@;
        let ghost used: nat = 0;
        assert(input.skip(0) == input);
        let ghost part0 = String::parse(def_cfg(), reader@);
        let lang = read_part::<String>(def_cfg(), reader, Ghost(input), Ghost(used))?;
        let ghost used = used + part0.used;
        Ok(ToSrvPkt::Init2 { lang })
    }

    proof fn lemma_init2(v: ToSrvPktView, rest: Seq<u8>)
        requires
            v is Init2,
            Self::payload_fits(v),
            Self::payload_sound(v, rest),
        ensures
            Self::parse_init2(Self::payload_wire(v) + rest) == done(v, Self::payload_wire(v).len()),
    {
        match v {
            ToSrvPktView::Init2 { lang } => {
                let after_lang = rest;
                String::lemma_round_trip(lang, def_cfg(), after_lang);
                lemma_skip_joined(String::wire(lang, def_cfg()), after_lang);
            },
            _ => {},
        }
    }

    /// What reading the variant `JoinModChan` makes of `input`, after the
    /// discriminant.
    pub open spec fn parse_join_mod_chan(input: Seq<u8>) -> Parsed<ToSrvPktView> {
        then(input, String::parse(def_cfg(), input), |channel, input|
        done(ToSrvPktView::JoinModChan { channel }, 0))
    }

    fn write_join_mod_chan(&self, writer: &mut Vec<u8>, Ghost(base): Ghost<Seq<u8>>) -> (r: Result<
        (),
        SerializeError,
    >)
        requires
            self.deep_view() is JoinModChan,
            base.is_prefix_of(old(writer)@),
        ensures
            r is Ok <==> Self::payload_fits(self.deep_view()),
            r is Ok ==> final(writer)@ == old(writer)@ + Self::payload_wire(self.deep_view()),
            r matches Err(e) ==> e@ == Self::payload_fault(self.deep_view()),
            base.is_prefix_of(final(writer)@),
    {
        match self {
            ToSrvPkt::JoinModChan { channel } => {
                write_part(channel, def_cfg(), writer, Ghost(base))?;
                Ok(())
            },
            _ => vstd::pervasive::unreached(),
        }
    }

    fn read_join_mod_chan(reader: &mut WrapRead) -> (r: Result<ToSrvPkt, DeserializeError>)
        ensures
            agrees(r, Self::parse_join_mod_chan(old(reader)@)),
            Self::parse_join_mod_chan(old(reader)@).used <= old(reader)@.len(),
            final(reader)@ == old(reader)@.skip(
                Self::parse_join_mod_chan(old(reader)@).used as int,
            ),
    {
        let ghost input = reader@;
        let ghost used: nat = 0;
        assert(input.skip(0) == input);
        let ghost part0 = String::parse(def_cfg(), reader@);
        let channel = read_part::<String>(def_cfg(), reader, Ghost(input), Ghost(used))?;
        let ghost used = used + part0.used;
        Ok(ToSrvPkt::JoinModChan { channel })
    }

    proof fn lemma_join_mod_chan(v: ToSrvPktView, rest: Seq<u8>)
        requires
            v is JoinModChan,
            Self::payload_fits(v),
            Self::payload_sound(v, rest),
        ensures
            Self::parse_join_mod_chan(Self::payload_wire(v) + rest) == done(
                v,
                Self::payload_wire(v).len(),
            ),
    {
        match v {
            ToSrvPktView::JoinModChan { channel } => {
                let after_channel = rest;
                String::lemma_round_trip(channel, def_cfg(), after_channel);
                lemma_skip_joined(String::wire(channel, def_cfg()), after_channel);
            },
            _ => {},
        }
    }

    /// What reading the variant `LeaveModChan` makes of `input`, after the
    /// discriminant.
    pub open spec fn parse_leave_mod_chan(input: Seq<u8>) -> Parsed<ToSrvPktView> {
        then(input, String::parse(def_cfg(), input), |channel, input|
        done(ToSrvPktView::LeaveModChan { channel }, 0))
    }

    fn write_leave_mod_chan(&self, writer: &mut Vec<u8>, Ghost(base): Ghost<Seq<u8>>) -> (r: Result<
        (),
        SerializeError,
    >)
        requires
            self.deep_view() is LeaveModChan,
            base.is_prefix_of(old(writer)@),
        ensures
            r is Ok <==> Self::payload_fits(self.deep_view()),
            r is Ok ==> final(writer)@ == old(writer)@ + Self::payload_wire(self.deep_view()),
            r matches Err(e) ==> e@ == Self::payload_fault(self.deep_view()),
            base.is_prefix_of(final(writer)@),
    {
        match self {
            ToSrvPkt::LeaveModChan { channel } => {
                write_part(channel, def_cfg(), writer, Ghost(base))?;
                Ok(())
            },
            _ => vstd::pervasive::unreached(),
        }
    }

    fn read_leave_mod_chan(reader: &mut WrapRead) -> (r: Result<ToSrvPkt, DeserializeError>)
        ensures
            agrees(r, Self::parse_leave_mod_chan(old(reader)@)),
            Self::parse_leave_mod_chan(old(reader)@).used <= old(reader)@.len(),
            final(reader)@ == old(reader)@.skip(
                Self::parse_leave_mod_chan(old(reader)@).used as int,
            ),
    {
        let ghost input = reader@;
        let ghost used: nat = 0;
        assert(input.skip(0) == input);
        let ghost part0 = String::parse(def_cfg(), reader@);
        let channel = read_part::<String>(def_cfg(), reader, Ghost(input), Ghost(used))?;
        let ghost used = used + part0.used;
        Ok(ToSrvPkt::LeaveModChan { channel })
    }

    proof fn lemma_leave_mod_chan(v: ToSrvPktView, rest: Seq<u8>)
        requires
            v is LeaveModChan,
            Self::payload_fits(v),
            Self::payload_sound(v, rest),
        ensures
            Self::parse_leave_mod_chan(Self::payload_wire(v) + rest) == done(
                v,
                Self::payload_wire(v).len(),
            ),
    {
        match v {
            ToSrvPktView::LeaveModChan { channel } => {
                let after_channel = rest;
                String::lemma_round_trip(channel, def_cfg(), after_channel);
                lemma_skip_joined(String::wire(channel, def_cfg()), after_channel);
            },
            _ => {},
        }
    }

    /// What reading the variant `MsgModChan` makes of `input`, after the
    /// discriminant.
    pub open spec fn parse_msg_mod_chan(input: Seq<u8>) -> Parsed<ToSrvPktView> {
        then(input, String::parse(def_cfg(), input), |channel, input|
        then(input, String::parse(def_cfg(), input), |msg, input|
        done(ToSrvPktView::MsgModChan { channel, msg }, 0)))
    }

    fn write_msg_mod_chan(&self, writer: &mut Vec<u8>, Ghost(base): Ghost<Seq<u8>>) -> (r: Result<
        (),
        SerializeError,
    >)
        requires
            self.deep_view() is MsgModChan,
            base.is_prefix_of(old(writer)@),
        ensures
            r is Ok <==> Self::payload_fits(self.deep_view()),
            r is Ok ==> final(writer)@ == old(writer)@ + Self::payload_wire(self.deep_view()),
            r matches Err(e) ==> e@ == Self::payload_fault(self.deep_view()),
            base.is_prefix_of(final(writer)@),
    {
        match self {
            ToSrvPkt::MsgModChan { channel, msg } => {
                write_part(channel, def_cfg(), writer, Ghost(base))?;
                let ghost written = String::wire(channel.deep_view(), def_cfg());
                write_part(msg, def_cfg(), writer, Ghost(base))?;
                proof {
                    lemma_join_assoc(
                        old(writer)@,
                        written,
                        String::wire(msg.deep_view(), def_cfg()),
                    );
                }
                Ok(())
            },
            _ => vstd::pervasive::unreached(),
        }
    }

    fn read_msg_mod_chan(reader: &mut WrapRead) -> (r: Result<ToSrvPkt, DeserializeError>)
        ensures
            agrees(r, Self::parse_msg_mod_chan(old(reader)@)),
            Self::parse_msg_mod_chan(old(reader)@).used <= old(reader)@.len(),
            final(reader)@ == old(reader)@.skip(Self::parse_msg_mod_chan(old(reader)@).used as int),
    {
        let ghost input = reader@;
        let ghost used: nat = 0;
        assert(input.skip(0) == input);
        let ghost part0 = String::parse(def_cfg(), reader@);
        let channel = read_part::<String>(def_cfg(), reader, Ghost(input), Ghost(used))?;
        let ghost used = used + part0.used;
        let ghost part1 = String::parse(def_cfg(), reader@);
        let msg = read_part::<String>(def_cfg(), reader, Ghost(input), Ghost(used))?;
        let ghost used = used + part1.used;
        Ok(ToSrvPkt::MsgModChan { channel, msg })
    }

    proof fn lemma_msg_mod_chan(v: ToSrvPktView, rest: Seq<u8>)
        requires
            v is MsgModChan,
            Self::payload_fits(v),
            Self::payload_sound(v, rest),
        ensures
            Self::parse_msg_mod_chan(Self::payload_wire(v) + rest) == done(
                v,
                Self::payload_wire(v).len(),
            ),
    {
        match v {
            ToSrvPktView::MsgModChan { channel, msg } => {
                let after_msg = rest;
                let after_channel = String::wire(msg, def_cfg()) + after_msg;
                let before = String::wire(channel, def_cfg());
                lemma_join_assoc(before, String::wire(msg, def_cfg()), after_msg);
                String::lemma_round_trip(channel, def_cfg(), after_channel);
                lemma_skip_joined(String::wire(channel, def_cfg()), after_channel);
                String::lemma_round_trip(msg, def_cfg(), after_msg);
                lemma_skip_joined(String::wire(msg, def_cfg()), after_msg);
            },
            _ => {},
        }
    }

    /// What reading the variant `PlayerPos` makes of `input`, after the
    /// discriminant.
    pub open spec fn parse_player_pos(input: Seq<u8>) -> Parsed<ToSrvPktView> {
        then(input, PlayerPos::parse(def_cfg(), input), |field_0, input|
        done(ToSrvPktView::PlayerPos(field_0), 0))
    }

    fn write_player_pos(&self, writer: &mut Vec<u8>, Ghost(base): Ghost<Seq<u8>>) -> (r: Result<
        (),
        SerializeError,
    >)
        requires
            self.deep_view() is PlayerPos,
            base.is_prefix_of(old(writer)@),
        ensures
            r is Ok <==> Self::payload_fits(self.deep_view()),
            r is Ok ==> final(writer)@ == old(writer)@ + Self::payload_wire(self.deep_view()),
            r matches Err(e) ==> e@ == Self::payload_fault(self.deep_view()),
            base.is_prefix_of(final(writer)@),
    {
        match self {
            ToSrvPkt::PlayerPos(field_0) => {
                write_part(field_0, def_cfg(), writer, Ghost(base))?;
                Ok(())
            },
            _ => vstd::pervasive::unreached(),
        }
    }

    fn read_player_pos(reader: &mut WrapRead) -> (r: Result<ToSrvPkt, DeserializeError>)
        ensures
            agrees(r, Self::parse_player_pos(old(reader)@)),
            Self::parse_player_pos(old(reader)@).used <= old(reader)@.len(),
            final(reader)@ == old(reader)@.skip(Self::parse_player_pos(old(reader)@).used as int),
    {
        let ghost input = reader@;
        let ghost used: nat = 0;
        assert(input.skip(0) == input);
        let ghost part0 = PlayerPos::parse(def_cfg(), reader@);
        let field_0 = read_part::<PlayerPos>(def_cfg(), reader, Ghost(input), Ghost(used))?;
        let ghost used = used + part0.used;
        Ok(ToSrvPkt::PlayerPos(field_0))
    }

    proof fn lemma_player_pos(v: ToSrvPktView, rest: Seq<u8>)
        requires
            v is PlayerPos,
            Self::payload_fits(v),
            Self::payload_sound(v, rest),
        ensures
            Self::parse_player_pos(Self::payload_wire(v) + rest) == done(
                v,
                Self::payload_wire(v).len(),
            ),
    {
        match v {
            ToSrvPktView::PlayerPos(field_0) => {
                let after_field_0 = rest;
                PlayerPos::lemma_round_trip(field_0, def_cfg(), after_field_0);
                lemma_skip_joined(PlayerPos::wire(field_0, def_cfg()), after_field_0);
            },
            _ => {},
        }
    }

    /// What reading the variant `GotBlocks` makes of `input`, after the
    /// discriminant.
    pub open spec fn parse_got_blocks(input: Seq<u8>) -> Parsed<ToSrvPktView> {
        then(input, Vec::<[i16; 3]>::parse(MtCfg::with_len(LenWidth::W8), input), |blocks, input|
        done(ToSrvPktView::GotBlocks { blocks }, 0))
    }

    fn write_got_blocks(&self, writer: &mut Vec<u8>, Ghost(base): Ghost<Seq<u8>>) -> (r: Result<
        (),
        SerializeError,
    >)
        requires
            self.deep_view() is GotBlocks,
            base.is_prefix_of(old(writer)@),
        ensures
            r is Ok <==> Self::payload_fits(self.deep_view()),
            r is Ok ==> final(writer)@ == old(writer)@ + Self::payload_wire(self.deep_view()),
            r matches Err(e) ==> e@ == Self::payload_fault(self.deep_view()),
            base.is_prefix_of(final(writer)@),
    {
        match self {
            ToSrvPkt::GotBlocks { blocks } => {
                write_part(blocks, MtCfg::with_len(LenWidth::W8), writer, Ghost(base))?;
                Ok(())
            },
            _ => vstd::pervasive::unreached(),
        }
    }

    fn read_got_blocks(reader: &mut WrapRead) -> (r: Result<ToSrvPkt, DeserializeError>)
        ensures
            agrees(r, Self::parse_got_blocks(old(reader)@)),
            Self::parse_got_blocks(old(reader)@).used <= old(reader)@.len(),
            final(reader)@ == old(reader)@.skip(Self::parse_got_blocks(old(reader)@).used as int),
    {
        let ghost input = reader@;
        let ghost used: nat = 0;
        assert(input.skip(0) == input);
        let ghost part0 = Vec::<[i16; 3]>::parse(MtCfg::with_len(LenWidth::W8), reader@);
        let blocks = read_part::<Vec<[i16; 3]>>(
            MtCfg::with_len(LenWidth::W8),
            reader,
            Ghost(input),
            Ghost(used),
        )?;
        let ghost used = used + part0.used;
        Ok(ToSrvPkt::GotBlocks { blocks })
    }

    proof fn lemma_got_blocks(v: ToSrvPktView, rest: Seq<u8>)
        requires
            v is GotBlocks,
            Self::payload_fits(v),
            Self::payload_sound(v, rest),
        ensures
            Self::parse_got_blocks(Self::payload_wire(v) + rest) == done(
                v,
                Self::payload_wire(v).len(),
            ),
    {
        match v {
            ToSrvPktView::GotBlocks { blocks } => {
                let after_blocks = rest;
                Vec::<[i16; 3]>::lemma_round_trip(
                    blocks,
                    MtCfg::with_len(LenWidth::W8),
                    after_blocks,
                );
                lemma_skip_joined(
                    Vec::<[i16; 3]>::wire(blocks, MtCfg::with_len(LenWidth::W8)),
                    after_blocks,
                );
            },
            _ => {},
        }
    }

    /// What reading the variant `DeletedBlocks` makes of `input`, after the
    /// discriminant.
    pub open spec fn parse_deleted_blocks(input: Seq<u8>) -> Parsed<ToSrvPktView> {
        then(input, Vec::<[i16; 3]>::parse(MtCfg::with_len(LenWidth::W8), input), |blocks, input|
        done(ToSrvPktView::DeletedBlocks { blocks }, 0))
    }

    fn write_deleted_blocks(&self, writer: &mut Vec<u8>, Ghost(base): Ghost<Seq<u8>>) -> (r: Result<
        (),
        SerializeError,
    >)
        requires
            self.deep_view() is DeletedBlocks,
            base.is_prefix_of(old(writer)@),
        ensures
            r is Ok <==> Self::payload_fits(self.deep_view()),
            r is Ok ==> final(writer)@ == old(writer)@ + Self::payload_wire(self.deep_view()),
            r matches Err(e) ==> e@ == Self::payload_fault(self.deep_view()),
            base.is_prefix_of(final(writer)@),
    {
        match self {
            ToSrvPkt::DeletedBlocks { blocks } => {
                write_part(blocks, MtCfg::with_len(LenWidth::W8), writer, Ghost(base))?;
                Ok(())
            },
            _ => vstd::pervasive::unreached(),
        }
    }

    fn read_deleted_blocks(reader: &mut WrapRead) -> (r: Result<ToSrvPkt, DeserializeError>)
        ensures
            agrees(r, Self::parse_deleted_blocks(old(reader)@)),
            Self::parse_deleted_blocks(old(reader)@).used <= old(reader)@.len(),
            final(reader)@ == old(reader)@.skip(
                Self::parse_deleted_blocks(old(reader)@).used as int,
            ),
    {
        let ghost input = reader@;
        let ghost used: nat = 0;
        assert(input.skip(0) == input);
        let ghost part0 = Vec::<[i16; 3]>::parse(MtCfg::with_len(LenWidth::W8), reader@);
        let blocks = read_part::<Vec<[i16; 3]>>(
            MtCfg::with_len(LenWidth::W8),
            reader,
            Ghost(input),
            Ghost(used),
        )?;
        let ghost used = used + part0.used;
        Ok(ToSrvPkt::DeletedBlocks { blocks })
    }

    proof fn lemma_deleted_blocks(v: ToSrvPktView, rest: Seq<u8>)
        requires
            v is DeletedBlocks,
            Self::payload_fits(v),
            Self::payload_sound(v, rest),
        ensures
            Self::parse_deleted_blocks(Self::payload_wire(v) + rest) == done(
                v,
                Self::payload_wire(v).len(),
            ),
    {
        match v {
            ToSrvPktView::DeletedBlocks { blocks } => {
                let after_blocks = rest;
                Vec::<[i16; 3]>::lemma_round_trip(
                    blocks,
                    MtCfg::with_len(LenWidth::W8),
                    after_blocks,
                );
                lemma_skip_joined(
                    Vec::<[i16; 3]>::wire(blocks, MtCfg::with_len(LenWidth::W8)),
                    after_blocks,
                );
            },
            _ => {},
        }
    }

    /// What reading the variant `InvAction` makes of `input`, after the
    /// discriminant.
    pub open spec fn parse_inv_action(input: Seq<u8>) -> Parsed<ToSrvPktView> {
        then(input, String::parse(MtCfg::no_len(), input), |action, input|
        done(ToSrvPktView::InvAction { action }, 0))
    }

    fn write_inv_action(&self, writer: &mut Vec<u8>, Ghost(base): Ghost<Seq<u8>>) -> (r: Result<
        (),
        SerializeError,
    >)
        requires
            self.deep_view() is InvAction,
            base.is_prefix_of(old(writer)@),
        ensures
            r is Ok <==> Self::payload_fits(self.deep_view()),
            r is Ok ==> final(writer)@ == old(writer)@ + Self::payload_wire(self.deep_view()),
            r matches Err(e) ==> e@ == Self::payload_fault(self.deep_view()),
            base.is_prefix_of(final(writer)@),
    {
        match self {
            ToSrvPkt::InvAction { action } => {
                write_part(action, MtCfg::no_len(), writer, Ghost(base))?;
                Ok(())
            },
            _ => vstd::pervasive::unreached(),
        }
    }

    fn read_inv_action(reader: &mut WrapRead) -> (r: Result<ToSrvPkt, DeserializeError>)
        ensures
            agrees(r, Self::parse_inv_action(old(reader)@)),
            Self::parse_inv_action(old(reader)@).used <= old(reader)@.len(),
            final(reader)@ == old(reader)@.skip(Self::parse_inv_action(old(reader)@).used as int),
    {
        let ghost input = reader@;
        let ghost used: nat = 0;
        assert(input.skip(0) == input);
        let ghost part0 = String::parse(MtCfg::no_len(), reader@);
        let action = read_part::<String>(MtCfg::no_len(), reader, Ghost(input), Ghost(used))?;
        let ghost used = used + part0.used;
        Ok(ToSrvPkt::InvAction { action })
    }

    proof fn lemma_inv_action(v: ToSrvPktView, rest: Seq<u8>)
        requires
            v is InvAction,
            Self::payload_fits(v),
            Self::payload_sound(v, rest),
        ensures
            Self::parse_inv_action(Self::payload_wire(v) + rest) == done(
                v,
                Self::payload_wire(v).len(),
            ),
    {
        match v {
            ToSrvPktView::InvAction { action } => {
                let after_action = rest;
                String::lemma_round_trip(action, MtCfg::no_len(), after_action);
                lemma_skip_joined(String::wire(action, MtCfg::no_len()), after_action);
            },
            _ => {},
        }
    }

    /// What reading the variant `ChatMsg` makes of `input`, after the
    /// discriminant.
    pub open spec fn parse_chat_msg(input: Seq<u8>) -> Parsed<ToSrvPktView> {
        then(input, String::parse(Utf16(def_cfg()).cfg(), input), |msg, input|
        done(ToSrvPktView::ChatMsg { msg }, 0))
    }

    fn write_chat_msg(&self, writer: &mut Vec<u8>, Ghost(base): Ghost<Seq<u8>>) -> (r: Result<
        (),
        SerializeError,
    >)
        requires
            self.deep_view() is ChatMsg,
            base.is_prefix_of(old(writer)@),
        ensures
            r is Ok <==> Self::payload_fits(self.deep_view()),
            r is Ok ==> final(writer)@ == old(writer)@ + Self::payload_wire(self.deep_view()),
            r matches Err(e) ==> e@ == Self::payload_fault(self.deep_view()),
            base.is_prefix_of(final(writer)@),
    {
        match self {
            ToSrvPkt::ChatMsg { msg } => {
                write_part(msg, Utf16(def_cfg()).cfg(), writer, Ghost(base))?;
                Ok(())
            },
            _ => vstd::pervasive::unreached(),
        }
    }

    fn read_chat_msg(reader: &mut WrapRead) -> (r: Result<ToSrvPkt, DeserializeError>)
        ensures
            agrees(r, Self::parse_chat_msg(old(reader)@)),
            Self::parse_chat_msg(old(reader)@).used <= old(reader)@.len(),
            final(reader)@ == old(reader)@.skip(Self::parse_chat_msg(old(reader)@).used as int),
    {
        let ghost input = reader@;
        let ghost used: nat = 0;
        assert(input.skip(0) == input);
        let ghost part0 = String::parse(Utf16(def_cfg()).cfg(), reader@);
        let msg = read_part::<String>(Utf16(def_cfg()).cfg(), reader, Ghost(input), Ghost(used))?;
        let ghost used = used + part0.used;
        Ok(ToSrvPkt::ChatMsg { msg })
    }

    proof fn lemma_chat_msg(v: ToSrvPktView, rest: Seq<u8>)
        requires
            v is ChatMsg,
            Self::payload_fits(v),
            Self::payload_sound(v, rest),
        ensures
            Self::parse_chat_msg(Self::payload_wire(v) + rest) == done(
                v,
                Self::payload_wire(v).len(),
            ),
    {
        match v {
            ToSrvPktView::ChatMsg { msg } => {
                let after_msg = rest;
                String::lemma_round_trip(msg, Utf16(def_cfg()).cfg(), after_msg);
                lemma_skip_joined(String::wire(msg, Utf16(def_cfg()).cfg()), after_msg);
            },
            _ => {},
        }
    }

    /// What reading the variant `FallDmg` makes of `input`, after the
    /// discriminant.
    pub open spec fn parse_fall_dmg(input: Seq<u8>) -> Parsed<ToSrvPktView> {
        then(input, u16::parse(def_cfg(), input), |amount, input|
        done(ToSrvPktView::FallDmg { amount }, 0))
    }

    fn write_fall_dmg(&self, writer: &mut Vec<u8>, Ghost(base): Ghost<Seq<u8>>) -> (r: Result<
        (),
        SerializeError,
    >)
        requires
            self.deep_view() is FallDmg,
            base.is_prefix_of(old(writer)@),
        ensures
            r is Ok <==> Self::payload_fits(self.deep_view()),
            r is Ok ==> final(writer)@ == old(writer)@ + Self::payload_wire(self.deep_view()),
            r matches Err(e) ==> e@ == Self::payload_fault(self.deep_view()),
            base.is_prefix_of(final(writer)@),
    {
        match self {
            ToSrvPkt::FallDmg { amount } => {
                write_part(amount, def_cfg(), writer, Ghost(base))?;
                Ok(())
            },
            _ => vstd::pervasive::unreached(),
        }
    }

    fn read_fall_dmg(reader: &mut WrapRead) -> (r: Result<ToSrvPkt, DeserializeError>)
        ensures
            agrees(r, Self::parse_fall_dmg(old(reader)@)),
            Self::parse_fall_dmg(old(reader)@).used <= old(reader)@.len(),
            final(reader)@ == old(reader)@.skip(Self::parse_fall_dmg(old(reader)@).used as int),
    {
        let ghost input = reader@;
        let ghost used: nat = 0;
        assert(input.skip(0) == input);
        let ghost part0 = u16::parse(def_cfg(), reader@);
        let amount = read_part::<u16>(def_cfg(), reader, Ghost(input), Ghost(used))?;
        let ghost used = used + part0.used;
        Ok(ToSrvPkt::FallDmg { amount })
    }

    proof fn lemma_fall_dmg(v: ToSrvPktView, rest: Seq<u8>)
        requires
            v is FallDmg,
            Self::payload_fits(v),
            Self::payload_sound(v, rest),
        ensures
            Self::parse_fall_dmg(Self::payload_wire(v) + rest) == done(
                v,
                Self::payload_wire(v).len(),
            ),
    {
        match v {
            ToSrvPktView::FallDmg { amount } => {
                let after_amount = rest;
                u16::lemma_round_trip(amount, def_cfg(), after_amount);
                lemma_skip_joined(u16::wire(amount, def_cfg()), after_amount);
            },
            _ => {},
        }
    }

    /// What reading the variant `SelectItem` makes of `input`, after the
    /// discriminant.
    pub open spec fn parse_select_item(input: Seq<u8>) -> Parsed<ToSrvPktView> {
        then(input, u16::parse(def_cfg(), input), |select_item, input|
        done(ToSrvPktView::SelectItem { select_item }, 0))
    }

    fn write_select_item(&self, writer: &mut Vec<u8>, Ghost(base): Ghost<Seq<u8>>) -> (r: Result<
        (),
        SerializeError,
    >)
        requires
            self.deep_view() is SelectItem,
            base.is_prefix_of(old(writer)@),
        ensures
            r is Ok <==> Self::payload_fits(self.deep_view()),
            r is Ok ==> final(writer)@ == old(writer)@ + Self::payload_wire(self.deep_view()),
            r matches Err(e) ==> e@ == Self::payload_fault(self.deep_view()),
            base.is_prefix_of(final(writer)@),
    {
        match self {
            ToSrvPkt::SelectItem { select_item } => {
                write_part(select_item, def_cfg(), writer, Ghost(base))?;
                Ok(())
            },
            _ => vstd::pervasive::unreached(),
        }
    }

    fn read_select_item(reader: &mut WrapRead) -> (r: Result<ToSrvPkt, DeserializeError>)
        ensures
            agrees(r, Self::parse_select_item(old(reader)@)),
            Self::parse_select_item(old(reader)@).used <= old(reader)@.len(),
            final(reader)@ == old(reader)@.skip(Self::parse_select_item(old(reader)@).used as int),
    {
        let ghost input = reader@;
        let ghost used: nat = 0;
        assert(input.skip(0) == input);
        let ghost part0 = u16::parse(def_cfg(), reader@);
        let select_item = read_part::<u16>(def_cfg(), reader, Ghost(input), Ghost(used))?;
        let ghost used = used + part0.used;
        Ok(ToSrvPkt::SelectItem { select_item })
    }

    proof fn lemma_select_item(v: ToSrvPktView, rest: Seq<u8>)
        requires
            v is SelectItem,
            Self::payload_fits(v),
            Self::payload_sound(v, rest),
        ensures
            Self::parse_select_item(Self::payload_wire(v) + rest) == done(
                v,
                Self::payload_wire(v).len(),
            ),
    {
        match v {
            ToSrvPktView::SelectItem { select_item } => {
                let after_select_item = rest;
                u16::lemma_round_trip(select_item, def_cfg(), after_select_item);
                lemma_skip_joined(u16::wire(select_item, def_cfg()), after_select_item);
            },
            _ => {},
        }
    }

    /// What reading the variant `Interact` makes of `input`, after the
    /// discriminant.
    pub open spec fn parse_interact(input: Seq<u8>) -> Parsed<ToSrvPktView> {
        then(input, Interaction::parse(def_cfg(), input), |action, input|
        then(input, u16::parse(def_cfg(), input), |item_slot, input|
        then(
            input,
            field_parse::<PointedThing>(sized_args(LenWidth::W32, def_cfg()), input, None),
            |pointed, input|
        then(input, PlayerPos::parse(def_cfg(), input), |pos, input|
        done(ToSrvPktView::Interact { action, item_slot, pointed, pos }, 0)))))
    }

    fn write_interact(&self, writer: &mut Vec<u8>, Ghost(base): Ghost<Seq<u8>>) -> (r: Result<
        (),
        SerializeError,
    >)
        requires
            self.deep_view() is Interact,
            base.is_prefix_of(old(writer)@),
        ensures
            r is Ok <==> Self::payload_fits(self.deep_view()),
            r is Ok ==> final(writer)@ == old(writer)@ + Self::payload_wire(self.deep_view()),
            r matches Err(e) ==> e@ == Self::payload_fault(self.deep_view()),
            base.is_prefix_of(final(writer)@),
    {
        match self {
            ToSrvPkt::Interact { action, item_slot, pointed, pos } => {
                write_part(action, def_cfg(), writer, Ghost(base))?;
                let ghost written = Interaction::wire(action.deep_view(), def_cfg());
                write_part(item_slot, def_cfg(), writer, Ghost(base))?;
                proof {
                    lemma_join_assoc(
                        old(writer)@,
                        written,
                        u16::wire(item_slot.deep_view(), def_cfg()),
                    );
                }
                let ghost written = written + u16::wire(item_slot.deep_view(), def_cfg());
                write_field_part(
                    pointed,
                    &MtArgs::sized(LenWidth::W32, def_cfg()),
                    writer,
                    Ghost(base),
                )?;
                proof {
                    lemma_join_assoc(
                        old(writer)@,
                        written,
                        field_wire::<PointedThing>(
                            pointed.deep_view(),
                            sized_args(LenWidth::W32, def_cfg()),
                        ),
                    );
                }
                let ghost written = written
                    + field_wire::<PointedThing>(
                        pointed.deep_view(),
                        sized_args(LenWidth::W32, def_cfg()),
                    );
                write_part(pos, def_cfg(), writer, Ghost(base))?;
                proof {
                    lemma_join_assoc(
                        old(writer)@,
                        written,
                        PlayerPos::wire(pos.deep_view(), def_cfg()),
                    );
                }
                Ok(())
            },
            _ => vstd::pervasive::unreached(),
        }
    }

    fn read_interact(reader: &mut WrapRead) -> (r: Result<ToSrvPkt, DeserializeError>)
        ensures
            agrees(r, Self::parse_interact(old(reader)@)),
            Self::parse_interact(old(reader)@).used <= old(reader)@.len(),
            final(reader)@ == old(reader)@.skip(Self::parse_interact(old(reader)@).used as int),
    {
        let ghost input = reader@;
        let ghost used: nat = 0;
        assert(input.skip(0) == input);
        let ghost part0 = Interaction::parse(def_cfg(), reader@);
        let action = read_part::<Interaction>(def_cfg(), reader, Ghost(input), Ghost(used))?;
        let ghost used = used + part0.used;
        let ghost part1 = u16::parse(def_cfg(), reader@);
        let item_slot = read_part::<u16>(def_cfg(), reader, Ghost(input), Ghost(used))?;
        let ghost used = used + part1.used;
        let ghost part2 = field_parse::<PointedThing>(
            sized_args(LenWidth::W32, def_cfg()),
            reader@,
            None,
        );
        let pointed = read_field_part::<PointedThing>(
            &MtArgs::sized(LenWidth::W32, def_cfg()),
            reader,
            Ghost(input),
            Ghost(used),
        )?;
        let ghost used = used + part2.used;
        let ghost part3 = PlayerPos::parse(def_cfg(), reader@);
        let pos = read_part::<PlayerPos>(def_cfg(), reader, Ghost(input), Ghost(used))?;
        let ghost used = used + part3.used;
        Ok(ToSrvPkt::Interact { action, item_slot, pointed, pos })
    }

    proof fn lemma_interact(v: ToSrvPktView, rest: Seq<u8>)
        requires
            v is Interact,
            Self::payload_fits(v),
            Self::payload_sound(v, rest),
        ensures
            Self::parse_interact(Self::payload_wire(v) + rest) == done(
                v,
                Self::payload_wire(v).len(),
            ),
    {
        match v {
            ToSrvPktView::Interact { action, item_slot, pointed, pos } => {
                let after_pos = rest;
                let after_pointed = PlayerPos::wire(pos, def_cfg()) + after_pos;
                let after_item_slot = field_wire::<PointedThing>(
                    pointed,
                    sized_args(LenWidth::W32, def_cfg()),
                )
                    + after_pointed;
                let after_action = u16::wire(item_slot, def_cfg()) + after_item_slot;
                let before = Interaction::wire(action, def_cfg());
                lemma_join_assoc(before, u16::wire(item_slot, def_cfg()), after_item_slot);
                let before = before + u16::wire(item_slot, def_cfg());
                lemma_join_assoc(
                    before,
                    field_wire::<PointedThing>(pointed, sized_args(LenWidth::W32, def_cfg())),
                    after_pointed,
                );
                let before = before
                    + field_wire::<PointedThing>(pointed, sized_args(LenWidth::W32, def_cfg()));
                lemma_join_assoc(before, PlayerPos::wire(pos, def_cfg()), after_pos);
                Interaction::lemma_round_trip(action, def_cfg(), after_action);
                lemma_skip_joined(Interaction::wire(action, def_cfg()), after_action);
                u16::lemma_round_trip(item_slot, def_cfg(), after_item_slot);
                lemma_skip_joined(u16::wire(item_slot, def_cfg()), after_item_slot);
                lemma_field_round_trip::<PointedThing>(
                    pointed,
                    sized_args(LenWidth::W32, def_cfg()),
                    after_pointed,
                );
                lemma_skip_joined(
                    field_wire::<PointedThing>(pointed, sized_args(LenWidth::W32, def_cfg())),
                    after_pointed,
                );
                PlayerPos::lemma_round_trip(pos, def_cfg(), after_pos);
                lemma_skip_joined(PlayerPos::wire(pos, def_cfg()), after_pos);
            },
            _ => {},
        }
    }

    /// What reading the variant `RemovedSounds` makes of `input`, after the
    /// discriminant.
    pub open spec fn parse_removed_sounds(input: Seq<u8>) -> Parsed<ToSrvPktView> {
        then(input, Vec::<i32>::parse(def_cfg(), input), |ids, input|
        done(ToSrvPktView::RemovedSounds { ids }, 0))
    }

    fn write_removed_sounds(&self, writer: &mut Vec<u8>, Ghost(base): Ghost<Seq<u8>>) -> (r: Result<
        (),
        SerializeError,
    >)
        requires
            self.deep_view() is RemovedSounds,
            base.is_prefix_of(old(writer)@),
        ensures
            r is Ok <==> Self::payload_fits(self.deep_view()),
            r is Ok ==> final(writer)@ == old(writer)@ + Self::payload_wire(self.deep_view()),
            r matches Err(e) ==> e@ == Self::payload_fault(self.deep_view()),
            base.is_prefix_of(final(writer)@),
    {
        match self {
            ToSrvPkt::RemovedSounds { ids } => {
                write_part(ids, def_cfg(), writer, Ghost(base))?;
                Ok(())
            },
            _ => vstd::pervasive::unreached(),
        }
    }

    fn read_removed_sounds(reader: &mut WrapRead) -> (r: Result<ToSrvPkt, DeserializeError>)
        ensures
            agrees(r, Self::parse_removed_sounds(old(reader)@)),
            Self::parse_removed_sounds(old(reader)@).used <= old(reader)@.len(),
            final(reader)@ == old(reader)@.skip(
                Self::parse_removed_sounds(old(reader)@).used as int,
            ),
    {
        let ghost input = reader@;
        let ghost used: nat = 0;
        assert(input.skip(0) == input);
        let ghost part0 = Vec::<i32>::parse(def_cfg(), reader@);
        let ids = read_part::<Vec<i32>>(def_cfg(), reader, Ghost(input), Ghost(used))?;
        let ghost used = used + part0.used;
        Ok(ToSrvPkt::RemovedSounds { ids })
    }

    proof fn lemma_removed_sounds(v: ToSrvPktView, rest: Seq<u8>)
        requires
            v is RemovedSounds,
            Self::payload_fits(v),
            Self::payload_sound(v, rest),
        ensures
            Self::parse_removed_sounds(Self::payload_wire(v) + rest) == done(
                v,
                Self::payload_wire(v).len(),
            ),
    {
        match v {
            ToSrvPktView::RemovedSounds { ids } => {
                let after_ids = rest;
                Vec::<i32>::lemma_round_trip(ids, def_cfg(), after_ids);
                lemma_skip_joined(Vec::<i32>::wire(ids, def_cfg()), after_ids);
            },
            _ => {},
        }
    }

    /// What reading the variant `NodeMetaFields` makes of `input`, after the
    /// discriminant.
    pub open spec fn parse_node_meta_fields(input: Seq<u8>) -> Parsed<ToSrvPktView> {
        then(input, <[i16; 3]>::parse(def_cfg(), input), |pos, input|
        then(input, String::parse(def_cfg(), input), |formname, input|
        then(input, Vec::<(String, String)>::parse(def_cfg(), input), |fields, input|
        done(ToSrvPktView::NodeMetaFields { pos, formname, fields }, 0))))
    }

    fn write_node_meta_fields(
        &self,
        writer: &mut Vec<u8>,
        Ghost(base): Ghost<Seq<u8>>,
    ) -> (r: Result<
        (),
        SerializeError,
    >)
        requires
            self.deep_view() is NodeMetaFields,
            base.is_prefix_of(old(writer)@),
        ensures
            r is Ok <==> Self::payload_fits(self.deep_view()),
            r is Ok ==> final(writer)@ == old(writer)@ + Self::payload_wire(self.deep_view()),
            r matches Err(e) ==> e@ == Self::payload_fault(self.deep_view()),
            base.is_prefix_of(final(writer)@),
    {
        match self {
            ToSrvPkt::NodeMetaFields { pos, formname, fields } => {
                write_part(pos, def_cfg(), writer, Ghost(base))?;
                let ghost written = <[i16; 3]>::wire(pos.deep_view(), def_cfg());
                write_part(formname, def_cfg(), writer, Ghost(base))?;
                proof {
                    lemma_join_assoc(
                        old(writer)@,
                        written,
                        String::wire(formname.deep_view(), def_cfg()),
                    );
                }
                let ghost written = written + String::wire(formname.deep_view(), def_cfg());
                write_part(fields, def_cfg(), writer, Ghost(base))?;
                proof {
                    lemma_join_assoc(
                        old(writer)@,
                        written,
                        Vec::<(String, String)>::wire(fields.deep_view(), def_cfg()),
                    );
                }
                Ok(())
            },
            _ => vstd::pervasive::unreached(),
        }
    }

    fn read_node_meta_fields(reader: &mut WrapRead) -> (r: Result<ToSrvPkt, DeserializeError>)
        ensures
            agrees(r, Self::parse_node_meta_fields(old(reader)@)),
            Self::parse_node_meta_fields(old(reader)@).used <= old(reader)@.len(),
            final(reader)@ == old(reader)@.skip(
                Self::parse_node_meta_fields(old(reader)@).used as int,
            ),
    {
        let ghost input = reader@;
        let ghost used: nat = 0;
        assert(input.skip(0) == input);
        let ghost part0 = <[i16; 3]>::parse(def_cfg(), reader@);
        let pos = read_part::<[i16; 3]>(def_cfg(), reader, Ghost(input), Ghost(used))?;
        let ghost used = used + part0.used;
        let ghost part1 = String::parse(def_cfg(), reader@);
        let formname = read_part::<String>(def_cfg(), reader, Ghost(input), Ghost(used))?;
        let ghost used = used + part1.used;
        let ghost part2 = Vec::<(String, String)>::parse(def_cfg(), reader@);
        let fields = read_part::<Vec<(String, String)>>(
            def_cfg(),
            reader,
            Ghost(input),
            Ghost(used),
        )?;
        let ghost used = used + part2.used;
        Ok(ToSrvPkt::NodeMetaFields { pos, formname, fields })
    }

    proof fn lemma_node_meta_fields(v: ToSrvPktView, rest: Seq<u8>)
        requires
            v is NodeMetaFields,
            Self::payload_fits(v),
            Self::payload_sound(v, rest),
        ensures
            Self::parse_node_meta_fields(Self::payload_wire(v) + rest) == done(
                v,
                Self::payload_wire(v).len(),
            ),
    {
        match v {
            ToSrvPktView::NodeMetaFields { pos, formname, fields } => {
                let after_fields = rest;
                let after_formname = Vec::<(String, String)>::wire(fields, def_cfg())
                    + after_fields;
                let after_pos = String::wire(formname, def_cfg()) + after_formname;
                let before = <[i16; 3]>::wire(pos, def_cfg());
                lemma_join_assoc(before, String::wire(formname, def_cfg()), after_formname);
                let before = before + String::wire(formname, def_cfg());
                lemma_join_assoc(
                    before,
                    Vec::<(String, String)>::wire(fields, def_cfg()),
                    after_fields,
                );
                <[i16; 3]>::lemma_round_trip(pos, def_cfg(), after_pos);
                lemma_skip_joined(<[i16; 3]>::wire(pos, def_cfg()), after_pos);
                String::lemma_round_trip(formname, def_cfg(), after_formname);
                lemma_skip_joined(String::wire(formname, def_cfg()), after_formname);
                Vec::<(String, String)>::lemma_round_trip(fields, def_cfg(), after_fields);
                lemma_skip_joined(Vec::<(String, String)>::wire(fields, def_cfg()), after_fields);
            },
            _ => {},
        }
    }

    /// What reading the variant `InvFields` makes of `input`, after the
    /// discriminant.
    pub open spec fn parse_inv_fields(input: Seq<u8>) -> Parsed<ToSrvPktView> {
        then(input, String::parse(def_cfg(), input), |formname, input|
        then(input, Vec::<(String, String)>::parse(def_cfg(), input), |fields, input|
        done(ToSrvPktView::InvFields { formname, fields }, 0)))
    }

    fn write_inv_fields(&self, writer: &mut Vec<u8>, Ghost(base): Ghost<Seq<u8>>) -> (r: Result<
        (),
        SerializeError,
    >)
        requires
            self.deep_view() is InvFields,
            base.is_prefix_of(old(writer)@),
        ensures
            r is Ok <==> Self::payload_fits(self.deep_view()),
            r is Ok ==> final(writer)@ == old(writer)@ + Self::payload_wire(self.deep_view()),
            r matches Err(e) ==> e@ == Self::payload_fault(self.deep_view()),
            base.is_prefix_of(final(writer)@),
    {
        match self {
            ToSrvPkt::InvFields { formname, fields } => {
                write_part(formname, def_cfg(), writer, Ghost(base))?;
                let ghost written = String::wire(formname.deep_view(), def_cfg());
                write_part(fields, def_cfg(), writer, Ghost(base))?;
                proof {
                    lemma_join_assoc(
                        old(writer)@,
                        written,
                        Vec::<(String, String)>::wire(fields.deep_view(), def_cfg()),
                    );
                }
                Ok(())
            },
            _ => vstd::pervasive::unreached(),
        }
    }

    fn read_inv_fields(reader: &mut WrapRead) -> (r: Result<ToSrvPkt, DeserializeError>)
        ensures
            agrees(r, Self::parse_inv_fields(old(reader)@)),
            Self::parse_inv_fields(old(reader)@).used <= old(reader)@.len(),
            final(reader)@ == old(reader)@.skip(Self::parse_inv_fields(old(reader)@).used as int),
    {
        let ghost input = reader@;
        let ghost used: nat = 0;
        assert(input.skip(0) == input);
        let ghost part0 = String::parse(def_cfg(), reader@);
        let formname = read_part::<String>(def_cfg(), reader, Ghost(input), Ghost(used))?;
        let ghost used = used + part0.used;
        let ghost part1 = Vec::<(String, String)>::parse(def_cfg(), reader@);
        let fields = read_part::<Vec<(String, String)>>(
            def_cfg(),
            reader,
            Ghost(input),
            Ghost(used),
        )?;
        let ghost used = used + part1.used;
        Ok(ToSrvPkt::InvFields { formname, fields })
    }

    proof fn lemma_inv_fields(v: ToSrvPktView, rest: Seq<u8>)
        requires
            v is InvFields,
            Self::payload_fits(v),
            Self::payload_sound(v, rest),
        ensures
            Self::parse_inv_fields(Self::payload_wire(v) + rest) == done(
                v,
                Self::payload_wire(v).len(),
            ),
    {
        match v {
            ToSrvPktView::InvFields { formname, fields } => {
                let after_fields = rest;
                let after_formname = Vec::<(String, String)>::wire(fields, def_cfg())
                    + after_fields;
                let before = String::wire(formname, def_cfg());
                lemma_join_assoc(
                    before,
                    Vec::<(String, String)>::wire(fields, def_cfg()),
                    after_fields,
                );
                String::lemma_round_trip(formname, def_cfg(), after_formname);
                lemma_skip_joined(String::wire(formname, def_cfg()), after_formname);
                Vec::<(String, String)>::lemma_round_trip(fields, def_cfg(), after_fields);
                lemma_skip_joined(Vec::<(String, String)>::wire(fields, def_cfg()), after_fields);
            },
            _ => {},
        }
    }

    /// What reading the variant `ReqMedia` makes of `input`, after the
    /// discriminant.
    pub open spec fn parse_req_media(input: Seq<u8>) -> Parsed<ToSrvPktView> {
        then(input, Vec::<String>::parse(def_cfg(), input), |filenames, input|
        done(ToSrvPktView::ReqMedia { filenames }, 0))
    }

    fn write_req_media(&self, writer: &mut Vec<u8>, Ghost(base): Ghost<Seq<u8>>) -> (r: Result<
        (),
        SerializeError,
    >)
        requires
            self.deep_view() is ReqMedia,
            base.is_prefix_of(old(writer)@),
        ensures
            r is Ok <==> Self::payload_fits(self.deep_view()),
            r is Ok ==> final(writer)@ == old(writer)@ + Self::payload_wire(self.deep_view()),
            r matches Err(e) ==> e@ == Self::payload_fault(self.deep_view()),
            base.is_prefix_of(final(writer)@),
    {
        match self {
            ToSrvPkt::ReqMedia { filenames } => {
                write_part(filenames, def_cfg(), writer, Ghost(base))?;
                Ok(())
            },
            _ => vstd::pervasive::unreached(),
        }
    }

    fn read_req_media(reader: &mut WrapRead) -> (r: Result<ToSrvPkt, DeserializeError>)
        ensures
            agrees(r, Self::parse_req_media(old(reader)@)),
            Self::parse_req_media(old(reader)@).used <= old(reader)@.len(),
            final(reader)@ == old(reader)@.skip(Self::parse_req_media(old(reader)@).used as int),
    {
        let ghost input = reader@;
        let ghost used: nat = 0;
        assert(input.skip(0) == input);
        let ghost part0 = Vec::<String>::parse(def_cfg(), reader@);
        let filenames = read_part::<Vec<String>>(def_cfg(), reader, Ghost(input), Ghost(used))?;
        let ghost used = used + part0.used;
        Ok(ToSrvPkt::ReqMedia { filenames })
    }

    proof fn lemma_req_media(v: ToSrvPktView, rest: Seq<u8>)
        requires
            v is ReqMedia,
            Self::payload_fits(v),
            Self::payload_sound(v, rest),
        ensures
            Self::parse_req_media(Self::payload_wire(v) + rest) == done(
                v,
                Self::payload_wire(v).len(),
            ),
    {
        match v {
            ToSrvPktView::ReqMedia { filenames } => {
                let after_filenames = rest;
                Vec::<String>::lemma_round_trip(filenames, def_cfg(), after_filenames);
                lemma_skip_joined(Vec::<String>::wire(filenames, def_cfg()), after_filenames);
            },
            _ => {},
        }
    }

    /// What reading the variant `CltReady` makes of `input`, after the
    /// discriminant.
    pub open spec fn parse_clt_ready(input: Seq<u8>) -> Parsed<ToSrvPktView> {
        then(input, u8::parse(def_cfg(), input), |major, input|
        then(input, u8::parse(def_cfg(), input), |minor, input|
        then(input, u8::parse(def_cfg(), input), |patch, input|
        then(input, u8::parse(def_cfg(), input), |reserved, input|
        then(input, String::parse(def_cfg(), input), |version, input|
        then(input, u16::parse(def_cfg(), input), |formspec, input|
        done(ToSrvPktView::CltReady { major, minor, patch, reserved, version, formspec }, 0)))))))
    }

    fn write_clt_ready(&self, writer: &mut Vec<u8>, Ghost(base): Ghost<Seq<u8>>) -> (r: Result<
        (),
        SerializeError,
    >)
        requires
            self.deep_view() is CltReady,
            base.is_prefix_of(old(writer)@),
        ensures
            r is Ok <==> Self::payload_fits(self.deep_view()),
            r is Ok ==> final(writer)@ == old(writer)@ + Self::payload_wire(self.deep_view()),
            r matches Err(e) ==> e@ == Self::payload_fault(self.deep_view()),
            base.is_prefix_of(final(writer)@),
    {
        match self {
            ToSrvPkt::CltReady { major, minor, patch, reserved, version, formspec } => {
                write_part(major, def_cfg(), writer, Ghost(base))?;
                let ghost written = u8::wire(major.deep_view(), def_cfg());
                write_part(minor, def_cfg(), writer, Ghost(base))?;
                proof {
                    lemma_join_assoc(old(writer)@, written, u8::wire(minor.deep_view(), def_cfg()));
                }
                let ghost written = written + u8::wire(minor.deep_view(), def_cfg());
                write_part(patch, def_cfg(), writer, Ghost(base))?;
                proof {
                    lemma_join_assoc(old(writer)@, written, u8::wire(patch.deep_view(), def_cfg()));
                }
                let ghost written = written + u8::wire(patch.deep_view(), def_cfg());
                write_part(reserved, def_cfg(), writer, Ghost(base))?;
                proof {
                    lemma_join_assoc(
                        old(writer)@,
                        written,
                        u8::wire(reserved.deep_view(), def_cfg()),
                    );
                }
                let ghost written = written + u8::wire(reserved.deep_view(), def_cfg());
                write_part(version, def_cfg(), writer, Ghost(base))?;
                proof {
                    lemma_join_assoc(
                        old(writer)@,
                        written,
                        String::wire(version.deep_view(), def_cfg()),
                    );
                }
                let ghost written = written + String::wire(version.deep_view(), def_cfg());
                write_part(formspec, def_cfg(), writer, Ghost(base))?;
                proof {
                    lemma_join_assoc(
                        old(writer)@,
                        written,
                        u16::wire(formspec.deep_view(), def_cfg()),
                    );
                }
                Ok(())
            },
            _ => vstd::pervasive::unreached(),
        }
    }

    fn read_clt_ready(reader: &mut WrapRead) -> (r: Result<ToSrvPkt, DeserializeError>)
        ensures
            agrees(r, Self::parse_clt_ready(old(reader)@)),
            Self::parse_clt_ready(old(reader)@).used <= old(reader)@.len(),
            final(reader)@ == old(reader)@.skip(Self::parse_clt_ready(old(reader)@).used as int),
    {
        let ghost input = reader@;
        let ghost used: nat = 0;
        assert(input.skip(0) == input);
        let ghost part0 = u8::parse(def_cfg(), reader@);
        let major = read_part::<u8>(def_cfg(), reader, Ghost(input), Ghost(used))?;
        let ghost used = used + part0.used;
        let ghost part1 = u8::parse(def_cfg(), reader@);
        let minor = read_part::<u8>(def_cfg(), reader, Ghost(input), Ghost(used))?;
        let ghost used = used + part1.used;
        let ghost part2 = u8::parse(def_cfg(), reader@);
        let patch = read_part::<u8>(def_cfg(), reader, Ghost(input), Ghost(used))?;
        let ghost used = used + part2.used;
        let ghost part3 = u8::parse(def_cfg(), reader@);
        let reserved = read_part::<u8>(def_cfg(), reader, Ghost(input), Ghost(used))?;
        let ghost used = used + part3.used;
        let ghost part4 = String::parse(def_cfg(), reader@);
        let version = read_part::<String>(def_cfg(), reader, Ghost(input), Ghost(used))?;
        let ghost used = used + part4.used;
        let ghost part5 = u16::parse(def_cfg(), reader@);
        let formspec = read_part::<u16>(def_cfg(), reader, Ghost(input), Ghost(used))?;
        let ghost used = used + part5.used;
        Ok(ToSrvPkt::CltReady { major, minor, patch, reserved, version, formspec })
    }

    proof fn lemma_clt_ready(v: ToSrvPktView, rest: Seq<u8>)
        requires
            v is CltReady,
            Self::payload_fits(v),
            Self::payload_sound(v, rest),
        ensures
            Self::parse_clt_ready(Self::payload_wire(v) + rest) == done(
                v,
                Self::payload_wire(v).len(),
            ),
    {
        match v {
            ToSrvPktView::CltReady { major, minor, patch, reserved, version, formspec } => {
                let after_formspec = rest;
                let after_version = u16::wire(formspec, def_cfg()) + after_formspec;
                let after_reserved = String::wire(version, def_cfg()) + after_version;
                let after_patch = u8::wire(reserved, def_cfg()) + after_reserved;
                let after_minor = u8::wire(patch, def_cfg()) + after_patch;
                let after_major = u8::wire(minor, def_cfg()) + after_minor;
                let before = u8::wire(major, def_cfg());
                lemma_join_assoc(before, u8::wire(minor, def_cfg()), after_minor);
                let before = before + u8::wire(minor, def_cfg());
                lemma_join_assoc(before, u8::wire(patch, def_cfg()), after_patch);
                let before = before + u8::wire(patch, def_cfg());
                lemma_join_assoc(before, u8::wire(reserved, def_cfg()), after_reserved);
                let before = before + u8::wire(reserved, def_cfg());
                lemma_join_assoc(before, String::wire(version, def_cfg()), after_version);
                let before = before + String::wire(version, def_cfg());
                lemma_join_assoc(before, u16::wire(formspec, def_cfg()), after_formspec);
                u8::lemma_round_trip(major, def_cfg(), after_major);
                lemma_skip_joined(u8::wire(major, def_cfg()), after_major);
                u8::lemma_round_trip(minor, def_cfg(), after_minor);
                lemma_skip_joined(u8::wire(minor, def_cfg()), after_minor);
                u8::lemma_round_trip(patch, def_cfg(), after_patch);
                lemma_skip_joined(u8::wire(patch, def_cfg()), after_patch);
                u8::lemma_round_trip(reserved, def_cfg(), after_reserved);
                lemma_skip_joined(u8::wire(reserved, def_cfg()), after_reserved);
                String::lemma_round_trip(version, def_cfg(), after_version);
                lemma_skip_joined(String::wire(version, def_cfg()), after_version);
                u16::lemma_round_trip(formspec, def_cfg(), after_formspec);
                lemma_skip_joined(u16::wire(formspec, def_cfg()), after_formspec);
            },
            _ => {},
        }
    }

    /// What reading the variant `FirstSrp` makes of `input`, after the
    /// discriminant.
    pub open spec fn parse_first_srp(input: Seq<u8>) -> Parsed<ToSrvPktView> {
        then(input, Vec::<u8>::parse(def_cfg(), input), |salt, input|
        then(input, Vec::<u8>::parse(def_cfg(), input), |verifier, input|
        then(input, bool::parse(def_cfg(), input), |empty_passwd, input|
        done(ToSrvPktView::FirstSrp { salt, verifier, empty_passwd }, 0))))
    }

    fn write_first_srp(&self, writer: &mut Vec<u8>, Ghost(base): Ghost<Seq<u8>>) -> (r: Result<
        (),
        SerializeError,
    >)
        requires
            self.deep_view() is FirstSrp,
            base.is_prefix_of(old(writer)@),
        ensures
            r is Ok <==> Self::payload_fits(self.deep_view()),
            r is Ok ==> final(writer)@ == old(writer)@ + Self::payload_wire(self.deep_view()),
            r matches Err(e) ==> e@ == Self::payload_fault(self.deep_view()),
            base.is_prefix_of(final(writer)@),
    {
        match self {
            ToSrvPkt::FirstSrp { salt, verifier, empty_passwd } => {
                write_part(salt, def_cfg(), writer, Ghost(base))?;
                let ghost written = Vec::<u8>::wire(salt.deep_view(), def_cfg());
                write_part(verifier, def_cfg(), writer, Ghost(base))?;
                proof {
                    lemma_join_assoc(
                        old(writer)@,
                        written,
                        Vec::<u8>::wire(verifier.deep_view(), def_cfg()),
                    );
                }
                let ghost written = written + Vec::<u8>::wire(verifier.deep_view(), def_cfg());
                write_part(empty_passwd, def_cfg(), writer, Ghost(base))?;
                proof {
                    lemma_join_assoc(
                        old(writer)@,
                        written,
                        bool::wire(empty_passwd.deep_view(), def_cfg()),
                    );
                }
                Ok(())
            },
            _ => vstd::pervasive::unreached(),
        }
    }

    fn read_first_srp(reader: &mut WrapRead) -> (r: Result<ToSrvPkt, DeserializeError>)
        ensures
            agrees(r, Self::parse_first_srp(old(reader)@)),
            Self::parse_first_srp(old(reader)@).used <= old(reader)@.len(),
            final(reader)@ == old(reader)@.skip(Self::parse_first_srp(old(reader)@).used as int),
    {
        let ghost input = reader@;
        let ghost used: nat = 0;
        assert(input.skip(0) == input);
        let ghost part0 = Vec::<u8>::parse(def_cfg(), reader@);
        let salt = read_part::<Vec<u8>>(def_cfg(), reader, Ghost(input), Ghost(used))?;
        let ghost used = used + part0.used;
        let ghost part1 = Vec::<u8>::parse(def_cfg(), reader@);
        let verifier = read_part::<Vec<u8>>(def_cfg(), reader, Ghost(input), Ghost(used))?;
        let ghost used = used + part1.used;
        let ghost part2 = bool::parse(def_cfg(), reader@);
        let empty_passwd = read_part::<bool>(def_cfg(), reader, Ghost(input), Ghost(used))?;
        let ghost used = used + part2.used;
        Ok(ToSrvPkt::FirstSrp { salt, verifier, empty_passwd })
    }

    proof fn lemma_first_srp(v: ToSrvPktView, rest: Seq<u8>)
        requires
            v is FirstSrp,
            Self::payload_fits(v),
            Self::payload_sound(v, rest),
        ensures
            Self::parse_first_srp(Self::payload_wire(v) + rest) == done(
                v,
                Self::payload_wire(v).len(),
            ),
    {
        match v {
            ToSrvPktView::FirstSrp { salt, verifier, empty_passwd } => {
                let after_empty_passwd = rest;
                let after_verifier = bool::wire(empty_passwd, def_cfg()) + after_empty_passwd;
                let after_salt = Vec::<u8>::wire(verifier, def_cfg()) + after_verifier;
                let before = Vec::<u8>::wire(salt, def_cfg());
                lemma_join_assoc(before, Vec::<u8>::wire(verifier, def_cfg()), after_verifier);
                let before = before + Vec::<u8>::wire(verifier, def_cfg());
                lemma_join_assoc(before, bool::wire(empty_passwd, def_cfg()), after_empty_passwd);
                Vec::<u8>::lemma_round_trip(salt, def_cfg(), after_salt);
                lemma_skip_joined(Vec::<u8>::wire(salt, def_cfg()), after_salt);
                Vec::<u8>::lemma_round_trip(verifier, def_cfg(), after_verifier);
                lemma_skip_joined(Vec::<u8>::wire(verifier, def_cfg()), after_verifier);
                bool::lemma_round_trip(empty_passwd, def_cfg(), after_empty_passwd);
                lemma_skip_joined(bool::wire(empty_passwd, def_cfg()), after_empty_passwd);
            },
            _ => {},
        }
    }

    /// What reading the variant `SrpBytesA` makes of `input`, after the
    /// discriminant.
    pub open spec fn parse_srp_bytes_a(input: Seq<u8>) -> Parsed<ToSrvPktView> {
        then(input, Vec::<u8>::parse(def_cfg(), input), |a, input|
        then(input, bool::parse(def_cfg(), input), |no_sha1, input|
        done(ToSrvPktView::SrpBytesA { a, no_sha1 }, 0)))
    }

    fn write_srp_bytes_a(&self, writer: &mut Vec<u8>, Ghost(base): Ghost<Seq<u8>>) -> (r: Result<
        (),
        SerializeError,
    >)
        requires
            self.deep_view() is SrpBytesA,
            base.is_prefix_of(old(writer)@),
        ensures
            r is Ok <==> Self::payload_fits(self.deep_view()),
            r is Ok ==> final(writer)@ == old(writer)@ + Self::payload_wire(self.deep_view()),
            r matches Err(e) ==> e@ == Self::payload_fault(self.deep_view()),
            base.is_prefix_of(final(writer)@),
    {
        match self {
            ToSrvPkt::SrpBytesA { a, no_sha1 } => {
                write_part(a, def_cfg(), writer, Ghost(base))?;
                let ghost written = Vec::<u8>::wire(a.deep_view(), def_cfg());
                write_part(no_sha1, def_cfg(), writer, Ghost(base))?;
                proof {
                    lemma_join_assoc(
                        old(writer)@,
                        written,
                        bool::wire(no_sha1.deep_view(), def_cfg()),
                    );
                }
                Ok(())
            },
            _ => vstd::pervasive::unreached(),
        }
    }

    fn read_srp_bytes_a(reader: &mut WrapRead) -> (r: Result<ToSrvPkt, DeserializeError>)
        ensures
            agrees(r, Self::parse_srp_bytes_a(old(reader)@)),
            Self::parse_srp_bytes_a(old(reader)@).used <= old(reader)@.len(),
            final(reader)@ == old(reader)@.skip(Self::parse_srp_bytes_a(old(reader)@).used as int),
    {
        let ghost input = reader@;
        let ghost used: nat = 0;
        assert(input.skip(0) == input);
        let ghost part0 = Vec::<u8>::parse(def_cfg(), reader@);
        let a = read_part::<Vec<u8>>(def_cfg(), reader, Ghost(input), Ghost(used))?;
        let ghost used = used + part0.used;
        let ghost part1 = bool::parse(def_cfg(), reader@);
        let no_sha1 = read_part::<bool>(def_cfg(), reader, Ghost(input), Ghost(used))?;
        let ghost used = used + part1.used;
        Ok(ToSrvPkt::SrpBytesA { a, no_sha1 })
    }

    proof fn lemma_srp_bytes_a(v: ToSrvPktView, rest: Seq<u8>)
        requires
            v is SrpBytesA,
            Self::payload_fits(v),
            Self::payload_sound(v, rest),
        ensures
            Self::parse_srp_bytes_a(Self::payload_wire(v) + rest) == done(
                v,
                Self::payload_wire(v).len(),
            ),
    {
        match v {
            ToSrvPktView::SrpBytesA { a, no_sha1 } => {
                let after_no_sha1 = rest;
                let after_a = bool::wire(no_sha1, def_cfg()) + after_no_sha1;
                let before = Vec::<u8>::wire(a, def_cfg());
                lemma_join_assoc(before, bool::wire(no_sha1, def_cfg()), after_no_sha1);
                Vec::<u8>::lemma_round_trip(a, def_cfg(), after_a);
                lemma_skip_joined(Vec::<u8>::wire(a, def_cfg()), after_a);
                bool::lemma_round_trip(no_sha1, def_cfg(), after_no_sha1);
                lemma_skip_joined(bool::wire(no_sha1, def_cfg()), after_no_sha1);
            },
            _ => {},
        }
    }

    /// What reading the variant `SrpBytesM` makes of `input`, after the
    /// discriminant.
    pub open spec fn parse_srp_bytes_m(input: Seq<u8>) -> Parsed<ToSrvPktView> {
        then(input, Vec::<u8>::parse(def_cfg(), input), |m, input|
        done(ToSrvPktView::SrpBytesM { m }, 0))
    }

    fn write_srp_bytes_m(&self, writer: &mut Vec<u8>, Ghost(base): Ghost<Seq<u8>>) -> (r: Result<
        (),
        SerializeError,
    >)
        requires
            self.deep_view() is SrpBytesM,
            base.is_prefix_of(old(writer)@),
        ensures
            r is Ok <==> Self::payload_fits(self.deep_view()),
            r is Ok ==> final(writer)@ == old(writer)@ + Self::payload_wire(self.deep_view()),
            r matches Err(e) ==> e@ == Self::payload_fault(self.deep_view()),
            base.is_prefix_of(final(writer)@),
    {
        match self {
            ToSrvPkt::SrpBytesM { m } => {
                write_part(m, def_cfg(), writer, Ghost(base))?;
                Ok(())
            },
            _ => vstd::pervasive::unreached(),
        }
    }

    fn read_srp_bytes_m(reader: &mut WrapRead) -> (r: Result<ToSrvPkt, DeserializeError>)
        ensures
            agrees(r, Self::parse_srp_bytes_m(old(reader)@)),
            Self::parse_srp_bytes_m(old(reader)@).used <= old(reader)@.len(),
            final(reader)@ == old(reader)@.skip(Self::parse_srp_bytes_m(old(reader)@).used as int),
    {
        let ghost input = reader@;
        let ghost used: nat = 0;
        assert(input.skip(0) == input);
        let ghost part0 = Vec::<u8>::parse(def_cfg(), reader@);
        let m = read_part::<Vec<u8>>(def_cfg(), reader, Ghost(input), Ghost(used))?;
        let ghost used = used + part0.used;
        Ok(ToSrvPkt::SrpBytesM { m })
    }

    proof fn lemma_srp_bytes_m(v: ToSrvPktView, rest: Seq<u8>)
        requires
            v is SrpBytesM,
            Self::payload_fits(v),
            Self::payload_sound(v, rest),
        ensures
            Self::parse_srp_bytes_m(Self::payload_wire(v) + rest) == done(
                v,
                Self::payload_wire(v).len(),
            ),
    {
        match v {
            ToSrvPktView::SrpBytesM { m } => {
                let after_m = rest;
                Vec::<u8>::lemma_round_trip(m, def_cfg(), after_m);
                lemma_skip_joined(Vec::<u8>::wire(m, def_cfg()), after_m);
            },
            _ => {},
        }
    }

    /// Whether some variant has the discriminant `d`.
    pub open spec fn known(d: u16) -> bool {
        d == 0 || d == 2 || d == 17 || d == 23 || d == 24 || d == 25 || d == 35 || d == 36
        || d == 37 || d == 49 || d == 50 || d == 53 || d == 55 || d == 56 || d == 57 || d == 58
        || d == 59 || d == 60 || d == 64 || d == 67 || d == 80 || d == 81 || d == 82
        || d == 65535
    }

    /// What reading the variant with the discriminant `d` makes of `input`,
    /// after the discriminant. A discriminant that no variant has is the
    /// fault `InvalidEnum`.
    pub open spec fn payload_parse(d: u16, input: Seq<u8>) -> Parsed<ToSrvPktView> {
        if d == 0 {
            done(ToSrvPktView::Nil, 0)
        } else if d == 2 {
            Self::parse_init(input)
        } else if d == 17 {
            Self::parse_init2(input)
        } else if d == 23 {
            Self::parse_join_mod_chan(input)
        } else if d == 24 {
            Self::parse_leave_mod_chan(input)
        } else if d == 25 {
            Self::parse_msg_mod_chan(input)
        } else if d == 35 {
            Self::parse_player_pos(input)
        } else if d == 36 {
            Self::parse_got_blocks(input)
        } else if d == 37 {
            Self::parse_deleted_blocks(input)
        } else if d == 49 {
            Self::parse_inv_action(input)
        } else if d == 50 {
            Self::parse_chat_msg(input)
        } else if d == 53 {
            Self::parse_fall_dmg(input)
        } else if d == 55 {
            Self::parse_select_item(input)
        } else if d == 56 {
            done(ToSrvPktView::Respawn, 0)
        } else if d == 57 {
            Self::parse_interact(input)
        } else if d == 58 {
            Self::parse_removed_sounds(input)
        } else if d == 59 {
            Self::parse_node_meta_fields(input)
        } else if d == 60 {
            Self::parse_inv_fields(input)
        } else if d == 64 {
            Self::parse_req_media(input)
        } else if d == 67 {
            Self::parse_clt_ready(input)
        } else if d == 80 {
            Self::parse_first_srp(input)
        } else if d == 81 {
            Self::parse_srp_bytes_a(input)
        } else if d == 82 {
            Self::parse_srp_bytes_m(input)
        } else if d == 65535 {
            done(ToSrvPktView::Disco, 0)
        } else {
            failed(ReadFault::InvalidEnum("ToSrvPkt"@, RawView::U16(d)), 0)
        }
    }

    /// A discriminant that no variant has is refused, and the fault carries
    /// it.
    pub proof fn lemma_unknown(d: u16, rest: Seq<u8>)
        requires
            !Self::known(d),
        ensures
            <ToSrvPkt as MtDeserialize>::parse(
                spec_def_cfg(),
                be_bytes(d as nat, 2) + rest,
            ) == failed::<ToSrvPktView>(
                ReadFault::InvalidEnum("ToSrvPkt"@, RawView::U16(d)),
                2,
            ),
    {
        lemma_radix();
        lemma_uint_round_trip(d as nat, 2, rest);
    }
}

impl MtSerialize for ToSrvPkt {
    open spec fn fits(v: ToSrvPktView, cfg: MtCfg) -> bool {
        Self::payload_fits(v)
    }

    /// The discriminant, then what the variant holds.
    open spec fn wire(v: ToSrvPktView, cfg: MtCfg) -> Seq<u8> {
        be_bytes(Self::tag(v) as nat, 2) + Self::payload_wire(v)
    }

    open spec fn fault(v: ToSrvPktView, cfg: MtCfg) -> WriteFault {
        Self::payload_fault(v)
    }

    fn mt_serialize(&self, cfg: MtCfg, writer: &mut Vec<u8>) -> (r: Result<(), SerializeError>) {
        proof {
            lemma_radix();
        }
        let ghost base = writer@;
        let ghost head = be_bytes(Self::tag(self.deep_view()) as nat, 2);
        let tag: u16 = match self {
            ToSrvPkt::Nil => 0,
            ToSrvPkt::Init { .. } => 2,
            ToSrvPkt::Init2 { .. } => 17,
            ToSrvPkt::JoinModChan { .. } => 23,
            ToSrvPkt::LeaveModChan { .. } => 24,
            ToSrvPkt::MsgModChan { .. } => 25,
            ToSrvPkt::PlayerPos(..) => 35,
            ToSrvPkt::GotBlocks { .. } => 36,
            ToSrvPkt::DeletedBlocks { .. } => 37,
            ToSrvPkt::InvAction { .. } => 49,
            ToSrvPkt::ChatMsg { .. } => 50,
            ToSrvPkt::FallDmg { .. } => 53,
            ToSrvPkt::SelectItem { .. } => 55,
            ToSrvPkt::Respawn => 56,
            ToSrvPkt::Interact { .. } => 57,
            ToSrvPkt::RemovedSounds { .. } => 58,
            ToSrvPkt::NodeMetaFields { .. } => 59,
            ToSrvPkt::InvFields { .. } => 60,
            ToSrvPkt::ReqMedia { .. } => 64,
            ToSrvPkt::CltReady { .. } => 67,
            ToSrvPkt::FirstSrp { .. } => 80,
            ToSrvPkt::SrpBytesA { .. } => 81,
            ToSrvPkt::SrpBytesM { .. } => 82,
            ToSrvPkt::Disco => 65535,
        };
        write_discr(LenWidth::W16, tag as u64, writer);
        assert(base.is_prefix_of(writer@));
        proof {
            lemma_join_assoc(base, head, Self::payload_wire(self.deep_view()));
        }
        match self {
            ToSrvPkt::Nil => {
                assert(head + Seq::<u8>::empty() == head);
                Ok(())
            },
            ToSrvPkt::Init { .. } => self.write_init(writer, Ghost(base)),
            ToSrvPkt::Init2 { .. } => self.write_init2(writer, Ghost(base)),
            ToSrvPkt::JoinModChan { .. } => self.write_join_mod_chan(writer, Ghost(base)),
            ToSrvPkt::LeaveModChan { .. } => self.write_leave_mod_chan(writer, Ghost(base)),
            ToSrvPkt::MsgModChan { .. } => self.write_msg_mod_chan(writer, Ghost(base)),
            ToSrvPkt::PlayerPos(..) => self.write_player_pos(writer, Ghost(base)),
            ToSrvPkt::GotBlocks { .. } => self.write_got_blocks(writer, Ghost(base)),
            ToSrvPkt::DeletedBlocks { .. } => self.write_deleted_blocks(writer, Ghost(base)),
            ToSrvPkt::InvAction { .. } => self.write_inv_action(writer, Ghost(base)),
            ToSrvPkt::ChatMsg { .. } => self.write_chat_msg(writer, Ghost(base)),
            ToSrvPkt::FallDmg { .. } => self.write_fall_dmg(writer, Ghost(base)),
            ToSrvPkt::SelectItem { .. } => self.write_select_item(writer, Ghost(base)),
            ToSrvPkt::Respawn => {
                assert(head + Seq::<u8>::empty() == head);
                Ok(())
            },
            ToSrvPkt::Interact { .. } => self.write_interact(writer, Ghost(base)),
            ToSrvPkt::RemovedSounds { .. } => self.write_removed_sounds(writer, Ghost(base)),
            ToSrvPkt::NodeMetaFields { .. } => self.write_node_meta_fields(writer, Ghost(base)),
            ToSrvPkt::InvFields { .. } => self.write_inv_fields(writer, Ghost(base)),
            ToSrvPkt::ReqMedia { .. } => self.write_req_media(writer, Ghost(base)),
            ToSrvPkt::CltReady { .. } => self.write_clt_ready(writer, Ghost(base)),
            ToSrvPkt::FirstSrp { .. } => self.write_first_srp(writer, Ghost(base)),
            ToSrvPkt::SrpBytesA { .. } => self.write_srp_bytes_a(writer, Ghost(base)),
            ToSrvPkt::SrpBytesM { .. } => self.write_srp_bytes_m(writer, Ghost(base)),
            ToSrvPkt::Disco => {
                assert(head + Seq::<u8>::empty() == head);
                Ok(())
            },
        }
    }
}

impl MtDeserialize for ToSrvPkt {
    open spec fn parse(cfg: MtCfg, input: Seq<u8>) -> Parsed<ToSrvPktView> {
        let (tag, used) = parse_uint(input, 2);
        match tag {
            None => failed(ReadFault::UnexpectedEof, used),
            Some(d) => shift(used, Self::payload_parse(d as u16, input.skip(used as int))),
        }
    }

    fn mt_deserialize(cfg: MtCfg, reader: &mut WrapRead) -> (r: Result<
        ToSrvPkt,
        DeserializeError,
    >) {
        proof {
            lemma_radix();
        }
        let ghost input = reader@;
        let ghost used = parse_uint(input, 2).1;
        let d = read_discr(LenWidth::W16, reader)?;
        let ghost p = Self::payload_parse(d as u16, input.skip(used as int));
        assert(input.skip(used as int).skip(0) == input.skip(used as int));
        let r = match d {
            0 => Ok(ToSrvPkt::Nil),
            2 => Self::read_init(reader),
            17 => Self::read_init2(reader),
            23 => Self::read_join_mod_chan(reader),
            24 => Self::read_leave_mod_chan(reader),
            25 => Self::read_msg_mod_chan(reader),
            35 => Self::read_player_pos(reader),
            36 => Self::read_got_blocks(reader),
            37 => Self::read_deleted_blocks(reader),
            49 => Self::read_inv_action(reader),
            50 => Self::read_chat_msg(reader),
            53 => Self::read_fall_dmg(reader),
            55 => Self::read_select_item(reader),
            56 => Ok(ToSrvPkt::Respawn),
            57 => Self::read_interact(reader),
            58 => Self::read_removed_sounds(reader),
            59 => Self::read_node_meta_fields(reader),
            60 => Self::read_inv_fields(reader),
            64 => Self::read_req_media(reader),
            67 => Self::read_clt_ready(reader),
            80 => Self::read_first_srp(reader),
            81 => Self::read_srp_bytes_a(reader),
            82 => Self::read_srp_bytes_m(reader),
            65535 => Ok(ToSrvPkt::Disco),
            _ => Err(invalid_enum("ToSrvPkt", LenWidth::W16, d)),
        };
        proof {
            lemma_skip_twice(input, used, p.used);
        }
        r
    }
}

impl MtRoundTrip for ToSrvPkt {
    open spec fn sound(v: ToSrvPktView, cfg: MtCfg, rest: Seq<u8>) -> bool {
        Self::payload_sound(v, rest)
    }

    proof fn lemma_round_trip(v: ToSrvPktView, cfg: MtCfg, rest: Seq<u8>) {
        let head = be_bytes(Self::tag(v) as nat, 2);
        let follow = Self::payload_wire(v) + rest;
        lemma_radix();
        lemma_uint_round_trip(Self::tag(v) as nat, 2, follow);
        lemma_join_assoc(head, Self::payload_wire(v), rest);
        lemma_skip_joined(head, follow);
        match v {
            ToSrvPktView::Nil => {
                assert(follow == rest);
            },
            ToSrvPktView::Init { .. } => Self::lemma_init(v, rest),
            ToSrvPktView::Init2 { .. } => Self::lemma_init2(v, rest),
            ToSrvPktView::JoinModChan { .. } => Self::lemma_join_mod_chan(v, rest),
            ToSrvPktView::LeaveModChan { .. } => Self::lemma_leave_mod_chan(v, rest),
            ToSrvPktView::MsgModChan { .. } => Self::lemma_msg_mod_chan(v, rest),
            ToSrvPktView::PlayerPos(..) => Self::lemma_player_pos(v, rest),
            ToSrvPktView::GotBlocks { .. } => Self::lemma_got_blocks(v, rest),
            ToSrvPktView::DeletedBlocks { .. } => Self::lemma_deleted_blocks(v, rest),
            ToSrvPktView::InvAction { .. } => Self::lemma_inv_action(v, rest),
            ToSrvPktView::ChatMsg { .. } => Self::lemma_chat_msg(v, rest),
            ToSrvPktView::FallDmg { .. } => Self::lemma_fall_dmg(v, rest),
            ToSrvPktView::SelectItem { .. } => Self::lemma_select_item(v, rest),
            ToSrvPktView::Respawn => {
                assert(follow == rest);
            },
            ToSrvPktView::Interact { .. } => Self::lemma_interact(v, rest),
            ToSrvPktView::RemovedSounds { .. } => Self::lemma_removed_sounds(v, rest),
            ToSrvPktView::NodeMetaFields { .. } => Self::lemma_node_meta_fields(v, rest),
            ToSrvPktView::InvFields { .. } => Self::lemma_inv_fields(v, rest),
            ToSrvPktView::ReqMedia { .. } => Self::lemma_req_media(v, rest),
            ToSrvPktView::CltReady { .. } => Self::lemma_clt_ready(v, rest),
            ToSrvPktView::FirstSrp { .. } => Self::lemma_first_srp(v, rest),
            ToSrvPktView::SrpBytesA { .. } => Self::lemma_srp_bytes_a(v, rest),
            ToSrvPktView::SrpBytesM { .. } => Self::lemma_srp_bytes_m(v, rest),
            ToSrvPktView::Disco => {
                assert(follow == rest);
            },
        }
    }
}

} // verus!
