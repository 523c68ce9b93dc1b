//! The environment: objects and map blocks.

use crate::cfg::{def_cfg, LenWidth, MtCfg};
use crate::codec::{agrees, done, MtDeserialize, MtRoundTrip, MtSerialize, Parsed};
use crate::endian::lemma_radix;
use crate::error::{DeserializeError, Raw, RawView, SerializeError, WriteFault};
use crate::flags::{EnumSet, MtFlag};
use crate::literal::{const_parse, lemma_const_round_trip, raw_wire};
use crate::reader::WrapRead;
use crate::step::{
    lemma_join_assoc, lemma_skip_joined, lemma_skip_twice, read_const_part, read_part, then,
    write_const_part, write_part,
};
use crate::to_clt::media::NodeMeta;
use vstd::prelude::*;

verus! {

/// An object that appears. It has no content yet.
#[derive(Clone, Copy, Debug, PartialEq, Eq)]
pub struct ObjAdd;

impl DeepView for ObjAdd {
    type V = ObjAdd;

    open spec fn deep_view(&self) -> ObjAdd {
        *self
    }
}

impl MtSerialize for ObjAdd {
    open spec fn fits(v: ObjAdd, cfg: MtCfg) -> bool {
        true
    }

    open spec fn wire(v: ObjAdd, cfg: MtCfg) -> Seq<u8> {
        Seq::empty()
    }

    /// Never refused.
    open spec fn fault(v: ObjAdd, cfg: MtCfg) -> WriteFault {
        WriteFault::TooBig
    }

    fn mt_serialize(&self, cfg: MtCfg, writer: &mut Vec<u8>) -> (r: Result<(), SerializeError>) {
        assert(writer@ == old(writer)@ + Seq::<u8>::empty());
        Ok(())
    }
}

impl MtDeserialize for ObjAdd {
    open spec fn parse(cfg: MtCfg, input: Seq<u8>) -> Parsed<ObjAdd> {
        done(ObjAdd, 0)
    }

    fn mt_deserialize(cfg: MtCfg, reader: &mut WrapRead) -> (r: Result<ObjAdd, DeserializeError>) {
        assert(reader@.skip(0) == reader@);
        Ok(ObjAdd)
    }
}

impl MtRoundTrip for ObjAdd {
    open spec fn sound(v: ObjAdd, cfg: MtCfg, rest: Seq<u8>) -> bool {
        true
    }

    proof fn lemma_round_trip(v: ObjAdd, cfg: MtCfg, rest: Seq<u8>) {
        assert(Self::wire(v, cfg) + rest == rest);
    }
}

/// A message to an object. It has no content yet.
#[derive(Clone, Copy, Debug, PartialEq, Eq)]
pub struct ObjMsg;

impl DeepView for ObjMsg {
    type V = ObjMsg;

    open spec fn deep_view(&self) -> ObjMsg {
        *self
    }
}

impl MtSerialize for ObjMsg {
    open spec fn fits(v: ObjMsg, cfg: MtCfg) -> bool {
        true
    }

    open spec fn wire(v: ObjMsg, cfg: MtCfg) -> Seq<u8> {
        Seq::empty()
    }

    /// Never refused.
    open spec fn fault(v: ObjMsg, cfg: MtCfg) -> WriteFault {
        WriteFault::TooBig
    }

    fn mt_serialize(&self, cfg: MtCfg, writer: &mut Vec<u8>) -> (r: Result<(), SerializeError>) {
        assert(writer@ == old(writer)@ + Seq::<u8>::empty());
        Ok(())
    }
}

impl MtDeserialize for ObjMsg {
    open spec fn parse(cfg: MtCfg, input: Seq<u8>) -> Parsed<ObjMsg> {
        done(ObjMsg, 0)
    }

    fn mt_deserialize(cfg: MtCfg, reader: &mut WrapRead) -> (r: Result<ObjMsg, DeserializeError>) {
        assert(reader@.skip(0) == reader@);
        Ok(ObjMsg)
    }
}

impl MtRoundTrip for ObjMsg {
    open spec fn sound(v: ObjMsg, cfg: MtCfg, rest: Seq<u8>) -> bool {
        true
    }

    proof fn lemma_round_trip(v: ObjMsg, cfg: MtCfg, rest: Seq<u8>) {
        assert(Self::wire(v, cfg) + rest == rest);
    }
}

/// A flag of a map block. Its set travels as one byte.
#[derive(Clone, Copy, Debug, PartialEq, Eq, Structural)]
pub enum MapBlockFlag {
    IsUnderground,
    DayNightDiff,
    LightExpired,
    NotGenerated,
}

impl MtFlag for MapBlockFlag {
    open spec fn spec_all() -> u64 {
        0xf
    }

    open spec fn spec_repr() -> LenWidth {
        LenWidth::W8
    }

    open spec fn spec_mask(&self) -> u64 {
        match self {
            MapBlockFlag::IsUnderground => 0x1,
            MapBlockFlag::DayNightDiff => 0x2,
            MapBlockFlag::LightExpired => 0x4,
            MapBlockFlag::NotGenerated => 0x8,
        }
    }

    proof fn lemma_all_fits() {
        lemma_radix();
    }

    proof fn lemma_mask(&self) {
        assert(0x1u64 & 0xfu64 == 0x1u64) by (bit_vector);
        assert(0x2u64 & 0xfu64 == 0x2u64) by (bit_vector);
        assert(0x4u64 & 0xfu64 == 0x4u64) by (bit_vector);
        assert(0x8u64 & 0xfu64 == 0x8u64) by (bit_vector);
    }

    fn all() -> (r: u64) {
        0xf
    }

    fn repr() -> (r: LenWidth) {
        LenWidth::W8
    }

    fn mask(&self) -> (r: u64) {
        match self {
            MapBlockFlag::IsUnderground => 0x1,
            MapBlockFlag::DayNightDiff => 0x2,
            MapBlockFlag::LightExpired => 0x4,
            MapBlockFlag::NotGenerated => 0x8,
        }
    }
}

/// From this value of `lit_from` on, a block counts as always lit.
pub const ALWAYS_LIT_FROM: u16 = 0xf000;

/// A block of the map: sixteen nodes along each axis. On the wire the constant
/// 2 stands twice before the node parameters, for their sizes in bytes, and
/// once after the metadata, for its version.
#[derive(Clone, Debug, PartialEq)]
pub struct MapBlock {
    pub flags: EnumSet<MapBlockFlag>,
    pub lit_from: u16,
    pub param_0: [u16; 4096],
    pub param_1: [u8; 4096],
    pub param_2: [u8; 4096],
    /// The metadata of nodes, keyed by position in the block, in the order of the wire.
    pub node_metas: Vec<(u16, NodeMeta)>,
}

/// The mathematical value of a [`MapBlock`].
pub ghost struct MapBlockView {
    pub flags: u64,
    pub lit_from: u16,
    pub param_0: Seq<u16>,
    pub param_1: Seq<u8>,
    pub param_2: Seq<u8>,
    pub node_metas: Seq<(u16, NodeMeta)>,
}

impl DeepView for MapBlock {
    type V = MapBlockView;

    open spec fn deep_view(&self) -> MapBlockView {
        MapBlockView {
            flags: self.flags.deep_view(),
            lit_from: self.lit_from.deep_view(),
            param_0: self.param_0.deep_view(),
            param_1: self.param_1.deep_view(),
            param_2: self.param_2.deep_view(),
            node_metas: self.node_metas.deep_view(),
        }
    }
}

impl MtSerialize for MapBlock {
    open spec fn fits(v: MapBlockView, cfg: MtCfg) -> bool {
        &&& EnumSet::<MapBlockFlag>::fits(v.flags, def_cfg())
        &&& u16::fits(v.lit_from, def_cfg())
        &&& <[u16; 4096]>::fits(v.param_0, def_cfg())
        &&& <[u8; 4096]>::fits(v.param_1, def_cfg())
        &&& <[u8; 4096]>::fits(v.param_2, def_cfg())
        &&& Vec::<(u16, NodeMeta)>::fits(v.node_metas, def_cfg())
    }

    open spec fn wire(v: MapBlockView, cfg: MtCfg) -> Seq<u8> {
        EnumSet::<MapBlockFlag>::wire(v.flags, def_cfg())
            + u16::wire(v.lit_from, def_cfg())
            + raw_wire(RawView::U8(2))
            + raw_wire(RawView::U8(2))
            + <[u16; 4096]>::wire(v.param_0, def_cfg())
            + <[u8; 4096]>::wire(v.param_1, def_cfg())
            + <[u8; 4096]>::wire(v.param_2, def_cfg())
            + Vec::<(u16, NodeMeta)>::wire(v.node_metas, def_cfg())
            + raw_wire(RawView::U8(2))
    }

    /// The fault of the first field that does not fit.
    open spec fn fault(v: MapBlockView, cfg: MtCfg) -> WriteFault {
        if !EnumSet::<MapBlockFlag>::fits(v.flags, def_cfg()) {
            EnumSet::<MapBlockFlag>::fault(v.flags, def_cfg())
        } else if !u16::fits(v.lit_from, def_cfg()) {
            u16::fault(v.lit_from, def_cfg())
        } else if !<[u16; 4096]>::fits(v.param_0, def_cfg()) {
            <[u16; 4096]>::fault(v.param_0, def_cfg())
        } else if !<[u8; 4096]>::fits(v.param_1, def_cfg()) {
            <[u8; 4096]>::fault(v.param_1, def_cfg())
        } else if !<[u8; 4096]>::fits(v.param_2, def_cfg()) {
            <[u8; 4096]>::fault(v.param_2, def_cfg())
        } else {
            Vec::<(u16, NodeMeta)>::fault(v.node_metas, def_cfg())
        }
    }

    fn mt_serialize(&self, cfg: MtCfg, writer: &mut Vec<u8>) -> (r: Result<(), SerializeError>) {
        let ghost base = writer@;
        write_part(&self.flags, def_cfg(), writer, Ghost(base))?;
        let ghost written = EnumSet::<MapBlockFlag>::wire(self.flags.deep_view(), def_cfg());
        write_part(&self.lit_from, def_cfg(), writer, Ghost(base))?;
        proof {
            lemma_join_assoc(base, written, u16::wire(self.lit_from.deep_view(), def_cfg()));
        }
        let ghost written = written + u16::wire(self.lit_from.deep_view(), def_cfg());
        write_const_part(&Raw::U8(2), writer, Ghost(base))?;
        proof {
            lemma_join_assoc(base, written, raw_wire(RawView::U8(2)));
        }
        let ghost written = written + raw_wire(RawView::U8(2));
        write_const_part(&Raw::U8(2), writer, Ghost(base))?;
        proof {
            lemma_join_assoc(base, written, raw_wire(RawView::U8(2)));
        }
        let ghost written = written + raw_wire(RawView::U8(2));
        write_part(&self.param_0, def_cfg(), writer, Ghost(base))?;
        proof {
            lemma_join_assoc(
                base,
                written,
                <[u16; 4096]>::wire(self.param_0.deep_view(), def_cfg()),
            );
        }
        let ghost written = written + <[u16; 4096]>::wire(self.param_0.deep_view(), def_cfg());
        write_part(&self.param_1, def_cfg(), writer, Ghost(base))?;
        proof {
            lemma_join_assoc(
                base,
                written,
                <[u8; 4096]>::wire(self.param_1.deep_view(), def_cfg()),
            );
        }
        let ghost written = written + <[u8; 4096]>::wire(self.param_1.deep_view(), def_cfg());
        write_part(&self.param_2, def_cfg(), writer, Ghost(base))?;
        proof {
            lemma_join_assoc(
                base,
                written,
                <[u8; 4096]>::wire(self.param_2.deep_view(), def_cfg()),
            );
        }
        let ghost written = written + <[u8; 4096]>::wire(self.param_2.deep_view(), def_cfg());
        write_part(&self.node_metas, def_cfg(), writer, Ghost(base))?;
        proof {
            lemma_join_assoc(
                base,
                written,
                Vec::<(u16, NodeMeta)>::wire(self.node_metas.deep_view(), def_cfg()),
            );
        }
        let ghost written = written
            + Vec::<(u16, NodeMeta)>::wire(self.node_metas.deep_view(), def_cfg());
        write_const_part(&Raw::U8(2), writer, Ghost(base))?;
        proof {
            lemma_join_assoc(base, written, raw_wire(RawView::U8(2)));
        }
        Ok(())
    }
}

impl MapBlock {
    /// What reading the later fields makes of `input`, the earlier ones being read.
    pub open spec fn parse_rest(
        flags: u64,
        lit_from: u16,
        param_0: Seq<u16>,
        input: Seq<u8>,
    ) -> Parsed<MapBlockView> {
        then(input, <[u8; 4096]>::parse(def_cfg(), input), |param_1, input|
        then(input, <[u8; 4096]>::parse(def_cfg(), input), |param_2, input|
        then(input, Vec::<(u16, NodeMeta)>::parse(def_cfg(), input), |node_metas, input|
        then(input, const_parse(RawView::U8(2), input), |found, input|
        done(MapBlockView { flags, lit_from, param_0, param_1, param_2, node_metas }, 0)))))
    }

    /// Reads the later fields.
    fn read_rest(
        flags: EnumSet<MapBlockFlag>,
        lit_from: u16,
        param_0: [u16; 4096],
        reader: &mut WrapRead,
    ) -> (r: Result<MapBlock, DeserializeError>)
        ensures
            agrees(
                r,
                Self::parse_rest(
                    flags.deep_view(),
                    lit_from.deep_view(),
                    param_0.deep_view(),
                    old(reader)@,
                ),
            ),
            Self::parse_rest(
                flags.deep_view(),
                lit_from.deep_view(),
                param_0.deep_view(),
                old(reader)@,
            ).used <= old(reader)@.len(),
            final(reader)@ == old(reader)@.skip(
                Self::parse_rest(
                    flags.deep_view(),
                    lit_from.deep_view(),
                    param_0.deep_view(),
                    old(reader)@,
                ).used as int,
            ),
    {
        let ghost input = reader@;
        let ghost used: nat = 0;
        assert(input.skip(0) == input);
        let ghost part0 = <[u8; 4096]>::parse(def_cfg(), reader@);
        let param_1 = read_part::<[u8; 4096]>(def_cfg(), reader, Ghost(input), Ghost(used))?;
        let ghost used = used + part0.used;
        let ghost part1 = <[u8; 4096]>::parse(def_cfg(), reader@);
        let param_2 = read_part::<[u8; 4096]>(def_cfg(), reader, Ghost(input), Ghost(used))?;
        let ghost used = used + part1.used;
        let ghost part2 = Vec::<(u16, NodeMeta)>::parse(def_cfg(), reader@);
        let node_metas = read_part::<Vec<(u16, NodeMeta)>>(
            def_cfg(),
            reader,
            Ghost(input),
            Ghost(used),
        )?;
        let ghost used = used + part2.used;
        let ghost part3 = const_parse(RawView::U8(2), reader@);
        read_const_part(&Raw::U8(2), reader, Ghost(input), Ghost(used))?;
        let ghost used = used + part3.used;
        Ok(MapBlock { flags, lit_from, param_0, param_1, param_2, node_metas })
    }
}

impl MtDeserialize for MapBlock {
    open spec fn parse(cfg: MtCfg, input: Seq<u8>) -> Parsed<MapBlockView> {
        then(input, EnumSet::<MapBlockFlag>::parse(def_cfg(), input), |flags, input|
        then(input, u16::parse(def_cfg(), input), |lit_from, input|
        then(input, const_parse(RawView::U8(2), input), |found, input|
        then(input, const_parse(RawView::U8(2), input), |found, input|
        then(input, <[u16; 4096]>::parse(def_cfg(), input), |param_0, input|
        Self::parse_rest(flags, lit_from, param_0, input))))))
    }

    fn mt_deserialize(cfg: MtCfg, reader: &mut WrapRead) -> (r: Result<
        MapBlock,
        DeserializeError,
    >) {
        let ghost input = reader@;
        let ghost used: nat = 0;
        assert(input.skip(0) == input);
        let ghost part0 = EnumSet::<MapBlockFlag>::parse(def_cfg(), reader@);
        let flags = read_part::<EnumSet<MapBlockFlag>>(
            def_cfg(),
            reader,
            Ghost(input),
            Ghost(used),
        )?;
        let ghost used = used + part0.used;
        let ghost part1 = u16::parse(def_cfg(), reader@);
        let lit_from = read_part::<u16>(def_cfg(), reader, Ghost(input), Ghost(used))?;
        let ghost used = used + part1.used;
        let ghost part2 = const_parse(RawView::U8(2), reader@);
        read_const_part(&Raw::U8(2), reader, Ghost(input), Ghost(used))?;
        let ghost used = used + part2.used;
        let ghost part3 = const_parse(RawView::U8(2), reader@);
        read_const_part(&Raw::U8(2), reader, Ghost(input), Ghost(used))?;
        let ghost used = used + part3.used;
        let ghost part4 = <[u16; 4096]>::parse(def_cfg(), reader@);
        let param_0 = read_part::<[u16; 4096]>(def_cfg(), reader, Ghost(input), Ghost(used))?;
        let ghost used = used + part4.used;
        let ghost rest = Self::parse_rest(
            flags.deep_view(),
            lit_from.deep_view(),
            param_0.deep_view(),
            reader@,
        );
        let r = Self::read_rest(flags, lit_from, param_0, reader);
        proof {
            lemma_skip_twice(input, used, rest.used);
        }
        r
    }
}

impl MtRoundTrip for MapBlock {
    open spec fn sound(v: MapBlockView, cfg: MtCfg, rest: Seq<u8>) -> bool {
        let after_const_3 = rest;
        let after_node_metas = raw_wire(RawView::U8(2)) + after_const_3;
        let after_param_2 = Vec::<(u16, NodeMeta)>::wire(v.node_metas, def_cfg())
            + after_node_metas;
        let after_param_1 = <[u8; 4096]>::wire(v.param_2, def_cfg()) + after_param_2;
        let after_param_0 = <[u8; 4096]>::wire(v.param_1, def_cfg()) + after_param_1;
        let after_const_2 = <[u16; 4096]>::wire(v.param_0, def_cfg()) + after_param_0;
        let after_const_1 = raw_wire(RawView::U8(2)) + after_const_2;
        let after_lit_from = raw_wire(RawView::U8(2)) + after_const_1;
        let after_flags = u16::wire(v.lit_from, def_cfg()) + after_lit_from;
        &&& EnumSet::<MapBlockFlag>::sound(v.flags, def_cfg(), after_flags)
        &&& u16::sound(v.lit_from, def_cfg(), after_lit_from)
        &&& <[u16; 4096]>::sound(v.param_0, def_cfg(), after_param_0)
        &&& <[u8; 4096]>::sound(v.param_1, def_cfg(), after_param_1)
        &&& <[u8; 4096]>::sound(v.param_2, def_cfg(), after_param_2)
        &&& Vec::<(u16, NodeMeta)>::sound(v.node_metas, def_cfg(), after_node_metas)
    }

    proof fn lemma_round_trip(v: MapBlockView, cfg: MtCfg, rest: Seq<u8>) {
        let after_const_3 = rest;
        let after_node_metas = raw_wire(RawView::U8(2)) + after_const_3;
        let after_param_2 = Vec::<(u16, NodeMeta)>::wire(v.node_metas, def_cfg())
            + after_node_metas;
        let after_param_1 = <[u8; 4096]>::wire(v.param_2, def_cfg()) + after_param_2;
        let after_param_0 = <[u8; 4096]>::wire(v.param_1, def_cfg()) + after_param_1;
        let after_const_2 = <[u16; 4096]>::wire(v.param_0, def_cfg()) + after_param_0;
        let after_const_1 = raw_wire(RawView::U8(2)) + after_const_2;
        let after_lit_from = raw_wire(RawView::U8(2)) + after_const_1;
        let after_flags = u16::wire(v.lit_from, def_cfg()) + after_lit_from;
        let before = EnumSet::<MapBlockFlag>::wire(v.flags, def_cfg());
        lemma_join_assoc(before, u16::wire(v.lit_from, def_cfg()), after_lit_from);
        let before = before + u16::wire(v.lit_from, def_cfg());
        lemma_join_assoc(before, raw_wire(RawView::U8(2)), after_const_1);
        let before = before + raw_wire(RawView::U8(2));
        lemma_join_assoc(before, raw_wire(RawView::U8(2)), after_const_2);
        let before = before + raw_wire(RawView::U8(2));
        lemma_join_assoc(before, <[u16; 4096]>::wire(v.param_0, def_cfg()), after_param_0);
        let before = before + <[u16; 4096]>::wire(v.param_0, def_cfg());
        lemma_join_assoc(before, <[u8; 4096]>::wire(v.param_1, def_cfg()), after_param_1);
        let before = before + <[u8; 4096]>::wire(v.param_1, def_cfg());
        lemma_join_assoc(before, <[u8; 4096]>::wire(v.param_2, def_cfg()), after_param_2);
        let before = before + <[u8; 4096]>::wire(v.param_2, def_cfg());
        lemma_join_assoc(
            before,
            Vec::<(u16, NodeMeta)>::wire(v.node_metas, def_cfg()),
            after_node_metas,
        );
        let before = before + Vec::<(u16, NodeMeta)>::wire(v.node_metas, def_cfg());
        lemma_join_assoc(before, raw_wire(RawView::U8(2)), after_const_3);
        EnumSet::<MapBlockFlag>::lemma_round_trip(v.flags, def_cfg(), after_flags);
        lemma_skip_joined(EnumSet::<MapBlockFlag>::wire(v.flags, def_cfg()), after_flags);
        u16::lemma_round_trip(v.lit_from, def_cfg(), after_lit_from);
        lemma_skip_joined(u16::wire(v.lit_from, def_cfg()), after_lit_from);
        lemma_const_round_trip(RawView::U8(2), after_const_1);
        lemma_skip_joined(raw_wire(RawView::U8(2)), after_const_1);
        lemma_const_round_trip(RawView::U8(2), after_const_2);
        lemma_skip_joined(raw_wire(RawView::U8(2)), after_const_2);
        <[u16; 4096]>::lemma_round_trip(v.param_0, def_cfg(), after_param_0);
        lemma_skip_joined(<[u16; 4096]>::wire(v.param_0, def_cfg()), after_param_0);
        <[u8; 4096]>::lemma_round_trip(v.param_1, def_cfg(), after_param_1);
        lemma_skip_joined(<[u8; 4096]>::wire(v.param_1, def_cfg()), after_param_1);
        <[u8; 4096]>::lemma_round_trip(v.param_2, def_cfg(), after_param_2);
        lemma_skip_joined(<[u8; 4096]>::wire(v.param_2, def_cfg()), after_param_2);
        Vec::<(u16, NodeMeta)>::lemma_round_trip(v.node_metas, def_cfg(), after_node_metas);
        lemma_skip_joined(Vec::<(u16, NodeMeta)>::wire(v.node_metas, def_cfg()), after_node_metas);
        lemma_const_round_trip(RawView::U8(2), after_const_3);
        lemma_skip_joined(raw_wire(RawView::U8(2)), after_const_3);
    }
}

} // verus!
