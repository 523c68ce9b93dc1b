//! Media files and definitions.

use crate::cfg::{def_cfg, spec_def_cfg, LenWidth, MtCfg};
use crate::codec::{done, failed, MtDeserialize, MtRoundTrip, MtSerialize, Parsed};
use crate::endian::{be_bytes, lemma_radix, parse_uint};
use crate::error::{DeserializeError, RawView, ReadFault, SerializeError, WriteFault};
use crate::num::lemma_uint_round_trip;
use crate::reader::WrapRead;
use crate::step::{lemma_join_assoc, lemma_skip_joined, read_part, then, write_part};
use crate::tagged::{assigned, invalid_enum, lemma_assigned_at, read_discr, write_discr};
use vstd::prelude::*;

verus! {

/// The announcement of a media file: its name and the hash of its content.
#[derive(Clone, Debug, PartialEq)]
pub struct MediaAnnounce {
    pub name: String,
    pub base64_sha1: String,
}

/// The mathematical value of a [`MediaAnnounce`].
pub ghost struct MediaAnnounceView {
    pub name: Seq<char>,
    pub base64_sha1: Seq<char>,
}

impl DeepView for MediaAnnounce {
    type V = MediaAnnounceView;

    open spec fn deep_view(&self) -> MediaAnnounceView {
        MediaAnnounceView {
            name: self.name.deep_view(),
            base64_sha1: self.base64_sha1.deep_view(),
        }
    }
}

impl MtSerialize for MediaAnnounce {
    open spec fn fits(v: MediaAnnounceView, cfg: MtCfg) -> bool {
        &&& String::fits(v.name, def_cfg())
        &&& String::fits(v.base64_sha1, def_cfg())
    }

    open spec fn wire(v: MediaAnnounceView, cfg: MtCfg) -> Seq<u8> {
        String::wire(v.name, def_cfg()) + String::wire(v.base64_sha1, def_cfg())
    }

    /// The fault of the first field that does not fit.
    open spec fn fault(v: MediaAnnounceView, cfg: MtCfg) -> WriteFault {
        if !String::fits(v.name, def_cfg()) {
            String::fault(v.name, def_cfg())
        } else {
            String::fault(v.base64_sha1, def_cfg())
        }
    }

    fn mt_serialize(&self, cfg: MtCfg, writer: &mut Vec<u8>) -> (r: Result<(), SerializeError>) {
        let ghost base = writer@;
        write_part(&self.name, def_cfg(), writer, Ghost(base))?;
        let ghost written = String::wire(self.name.deep_view(), def_cfg());
        write_part(&self.base64_sha1, def_cfg(), writer, Ghost(base))?;
        proof {
            lemma_join_assoc(base, written, String::wire(self.base64_sha1.deep_view(), def_cfg()));
        }
        Ok(())
    }
}

impl MtDeserialize for MediaAnnounce {
    open spec fn parse(cfg: MtCfg, input: Seq<u8>) -> Parsed<MediaAnnounceView> {
        then(input, String::parse(def_cfg(), input), |name, input|
        then(input, String::parse(def_cfg(), input), |base64_sha1, input|
        done(MediaAnnounceView { name, base64_sha1 }, 0)))
    }

    fn mt_deserialize(cfg: MtCfg, reader: &mut WrapRead) -> (r: Result<
        MediaAnnounce,
        DeserializeError,
    >) {
        let ghost input = reader@;
        let ghost used: nat = 0;
        assert(input.skip(0) == input);
        let ghost part0 = String::parse(def_cfg(), reader@);
        let name = read_part::<String>(def_cfg(), reader, Ghost(input), Ghost(used))?;
        let ghost used = used + part0.used;
        let ghost part1 = String::parse(def_cfg(), reader@);
        let base64_sha1 = read_part::<String>(def_cfg(), reader, Ghost(input), Ghost(used))?;
        let ghost used = used + part1.used;
        Ok(MediaAnnounce { name, base64_sha1 })
    }
}

impl MtRoundTrip for MediaAnnounce {
    open spec fn sound(v: MediaAnnounceView, cfg: MtCfg, rest: Seq<u8>) -> bool {
        let after_base64_sha1 = rest;
        let after_name = String::wire(v.base64_sha1, def_cfg()) + after_base64_sha1;
        &&& String::sound(v.name, def_cfg(), after_name)
        &&& String::sound(v.base64_sha1, def_cfg(), after_base64_sha1)
    }

    proof fn lemma_round_trip(v: MediaAnnounceView, cfg: MtCfg, rest: Seq<u8>) {
        let after_base64_sha1 = rest;
        let after_name = String::wire(v.base64_sha1, def_cfg()) + after_base64_sha1;
        let before = String::wire(v.name, def_cfg());
        lemma_join_assoc(before, String::wire(v.base64_sha1, def_cfg()), after_base64_sha1);
        String::lemma_round_trip(v.name, def_cfg(), after_name);
        lemma_skip_joined(String::wire(v.name, def_cfg()), after_name);
        String::lemma_round_trip(v.base64_sha1, def_cfg(), after_base64_sha1);
        lemma_skip_joined(String::wire(v.base64_sha1, def_cfg()), after_base64_sha1);
    }
}

/// A media file: its name and its content.
#[derive(Clone, Debug, PartialEq)]
pub struct MediaPayload {
    pub name: String,
    /// The content, behind a 32-bit length.
    pub data: Vec<u8>,
}

/// The mathematical value of a [`MediaPayload`].
pub ghost struct MediaPayloadView {
    pub name: Seq<char>,
    pub data: Seq<u8>,
}

impl DeepView for MediaPayload {
    type V = MediaPayloadView;

    open spec fn deep_view(&self) -> MediaPayloadView {
        MediaPayloadView {
            name: self.name.deep_view(),
            data: self.data.deep_view(),
        }
    }
}

impl MtSerialize for MediaPayload {
    open spec fn fits(v: MediaPayloadView, cfg: MtCfg) -> bool {
        &&& String::fits(v.name, def_cfg())
        &&& Vec::<u8>::fits(v.data, MtCfg::with_len(LenWidth::W32))
    }

    open spec fn wire(v: MediaPayloadView, cfg: MtCfg) -> Seq<u8> {
        String::wire(v.name, def_cfg()) + Vec::<u8>::wire(v.data, MtCfg::with_len(LenWidth::W32))
    }

    /// The fault of the first field that does not fit.
    open spec fn fault(v: MediaPayloadView, cfg: MtCfg) -> WriteFault {
        if !String::fits(v.name, def_cfg()) {
            String::fault(v.name, def_cfg())
        } else {
            Vec::<u8>::fault(v.data, MtCfg::with_len(LenWidth::W32))
        }
    }

    fn mt_serialize(&self, cfg: MtCfg, writer: &mut Vec<u8>) -> (r: Result<(), SerializeError>) {
        let ghost base = writer@;
        write_part(&self.name, def_cfg(), writer, Ghost(base))?;
        let ghost written = String::wire(self.name.deep_view(), def_cfg());
        write_part(&self.data, MtCfg::with_len(LenWidth::W32), writer, Ghost(base))?;
        proof {
            lemma_join_assoc(
                base,
                written,
                Vec::<u8>::wire(self.data.deep_view(), MtCfg::with_len(LenWidth::W32)),
            );
        }
        Ok(())
    }
}

impl MtDeserialize for MediaPayload {
    open spec fn parse(cfg: MtCfg, input: Seq<u8>) -> Parsed<MediaPayloadView> {
        then(input, String::parse(def_cfg(), input), |name, input|
        then(input, Vec::<u8>::parse(MtCfg::with_len(LenWidth::W32), input), |data, input|
        done(MediaPayloadView { name, data }, 0)))
    }

    fn mt_deserialize(cfg: MtCfg, reader: &mut WrapRead) -> (r: Result<
        MediaPayload,
        DeserializeError,
    >) {
        let ghost input = reader@;
        let ghost used: nat = 0;
        assert(input.skip(0) == input);
        let ghost part0 = String::parse(def_cfg(), reader@);
        let name = read_part::<String>(def_cfg(), reader, Ghost(input), Ghost(used))?;
        let ghost used = used + part0.used;
        let ghost part1 = Vec::<u8>::parse(MtCfg::with_len(LenWidth::W32), reader@);
        let data = read_part::<Vec<u8>>(
            MtCfg::with_len(LenWidth::W32),
            reader,
            Ghost(input),
            Ghost(used),
        )?;
        let ghost used = used + part1.used;
        Ok(MediaPayload { name, data })
    }
}

impl MtRoundTrip for MediaPayload {
    open spec fn sound(v: MediaPayloadView, cfg: MtCfg, rest: Seq<u8>) -> bool {
        let after_data = rest;
        let after_name = Vec::<u8>::wire(v.data, MtCfg::with_len(LenWidth::W32)) + after_data;
        &&& String::sound(v.name, def_cfg(), after_name)
        &&& Vec::<u8>::sound(v.data, MtCfg::with_len(LenWidth::W32), after_data)
    }

    proof fn lemma_round_trip(v: MediaPayloadView, cfg: MtCfg, rest: Seq<u8>) {
        let after_data = rest;
        let after_name = Vec::<u8>::wire(v.data, MtCfg::with_len(LenWidth::W32)) + after_data;
        let before = String::wire(v.name, def_cfg());
        lemma_join_assoc(
            before,
            Vec::<u8>::wire(v.data, MtCfg::with_len(LenWidth::W32)),
            after_data,
        );
        String::lemma_round_trip(v.name, def_cfg(), after_name);
        lemma_skip_joined(String::wire(v.name, def_cfg()), after_name);
        Vec::<u8>::lemma_round_trip(v.data, MtCfg::with_len(LenWidth::W32), after_data);
        lemma_skip_joined(Vec::<u8>::wire(v.data, MtCfg::with_len(LenWidth::W32)), after_data);
    }
}

/// The animation of a tile. It has no content yet.
#[derive(Clone, Copy, Debug, PartialEq, Eq)]
pub struct TileAnim;

impl DeepView for TileAnim {
    type V = TileAnim;

    open spec fn deep_view(&self) -> TileAnim {
        *self
    }
}

impl MtSerialize for TileAnim {
    open spec fn fits(v: TileAnim, cfg: MtCfg) -> bool {
        true
    }

    open spec fn wire(v: TileAnim, cfg: MtCfg) -> Seq<u8> {
        Seq::empty()
    }

    /// Never refused.
    open spec fn fault(v: TileAnim, cfg: MtCfg) -> WriteFault {
        WriteFault::TooBig
    }

    fn mt_serialize(&self, cfg: MtCfg, writer: &mut Vec<u8>) -> (r: Result<(), SerializeError>) {
        assert(writer@ == old(writer)@ + Seq::<u8>::empty());
        Ok(())
    }
}

impl MtDeserialize for TileAnim {
    open spec fn parse(cfg: MtCfg, input: Seq<u8>) -> Parsed<TileAnim> {
        done(TileAnim, 0)
    }

    fn mt_deserialize(cfg: MtCfg, reader: &mut WrapRead) -> (r: Result<
        TileAnim,
        DeserializeError,
    >) {
        assert(reader@.skip(0) == reader@);
        Ok(TileAnim)
    }
}

impl MtRoundTrip for TileAnim {
    open spec fn sound(v: TileAnim, cfg: MtCfg, rest: Seq<u8>) -> bool {
        true
    }

    proof fn lemma_round_trip(v: TileAnim, cfg: MtCfg, rest: Seq<u8>) {
        assert(Self::wire(v, cfg) + rest == rest);
    }
}

/// The definition of an item. It has no content yet.
#[derive(Clone, Copy, Debug, PartialEq, Eq)]
pub struct ItemDef;

impl DeepView for ItemDef {
    type V = ItemDef;

    open spec fn deep_view(&self) -> ItemDef {
        *self
    }
}

impl MtSerialize for ItemDef {
    open spec fn fits(v: ItemDef, cfg: MtCfg) -> bool {
        true
    }

    open spec fn wire(v: ItemDef, cfg: MtCfg) -> Seq<u8> {
        Seq::empty()
    }

    /// Never refused.
    open spec fn fault(v: ItemDef, cfg: MtCfg) -> WriteFault {
        WriteFault::TooBig
    }

    fn mt_serialize(&self, cfg: MtCfg, writer: &mut Vec<u8>) -> (r: Result<(), SerializeError>) {
        assert(writer@ == old(writer)@ + Seq::<u8>::empty());
        Ok(())
    }
}

impl MtDeserialize for ItemDef {
    open spec fn parse(cfg: MtCfg, input: Seq<u8>) -> Parsed<ItemDef> {
        done(ItemDef, 0)
    }

    fn mt_deserialize(cfg: MtCfg, reader: &mut WrapRead) -> (r: Result<ItemDef, DeserializeError>) {
        assert(reader@.skip(0) == reader@);
        Ok(ItemDef)
    }
}

impl MtRoundTrip for ItemDef {
    open spec fn sound(v: ItemDef, cfg: MtCfg, rest: Seq<u8>) -> bool {
        true
    }

    proof fn lemma_round_trip(v: ItemDef, cfg: MtCfg, rest: Seq<u8>) {
        assert(Self::wire(v, cfg) + rest == rest);
    }
}

/// The definition of a node. It has no content yet.
#[derive(Clone, Copy, Debug, PartialEq, Eq)]
pub struct NodeDef;

impl DeepView for NodeDef {
    type V = NodeDef;

    open spec fn deep_view(&self) -> NodeDef {
        *self
    }
}

impl MtSerialize for NodeDef {
    open spec fn fits(v: NodeDef, cfg: MtCfg) -> bool {
        true
    }

    open spec fn wire(v: NodeDef, cfg: MtCfg) -> Seq<u8> {
        Seq::empty()
    }

    /// Never refused.
    open spec fn fault(v: NodeDef, cfg: MtCfg) -> WriteFault {
        WriteFault::TooBig
    }

    fn mt_serialize(&self, cfg: MtCfg, writer: &mut Vec<u8>) -> (r: Result<(), SerializeError>) {
        assert(writer@ == old(writer)@ + Seq::<u8>::empty());
        Ok(())
    }
}

impl MtDeserialize for NodeDef {
    open spec fn parse(cfg: MtCfg, input: Seq<u8>) -> Parsed<NodeDef> {
        done(NodeDef, 0)
    }

    fn mt_deserialize(cfg: MtCfg, reader: &mut WrapRead) -> (r: Result<NodeDef, DeserializeError>) {
        assert(reader@.skip(0) == reader@);
        Ok(NodeDef)
    }
}

impl MtRoundTrip for NodeDef {
    open spec fn sound(v: NodeDef, cfg: MtCfg, rest: Seq<u8>) -> bool {
        true
    }

    proof fn lemma_round_trip(v: NodeDef, cfg: MtCfg, rest: Seq<u8>) {
        assert(Self::wire(v, cfg) + rest == rest);
    }
}

/// The metadata of a node. It has no content yet.
#[derive(Clone, Copy, Debug, PartialEq, Eq)]
pub struct NodeMeta;

impl DeepView for NodeMeta {
    type V = NodeMeta;

    open spec fn deep_view(&self) -> NodeMeta {
        *self
    }
}

impl MtSerialize for NodeMeta {
    open spec fn fits(v: NodeMeta, cfg: MtCfg) -> bool {
        true
    }

    open spec fn wire(v: NodeMeta, cfg: MtCfg) -> Seq<u8> {
        Seq::empty()
    }

    /// Never refused.
    open spec fn fault(v: NodeMeta, cfg: MtCfg) -> WriteFault {
        WriteFault::TooBig
    }

    fn mt_serialize(&self, cfg: MtCfg, writer: &mut Vec<u8>) -> (r: Result<(), SerializeError>) {
        assert(writer@ == old(writer)@ + Seq::<u8>::empty());
        Ok(())
    }
}

impl MtDeserialize for NodeMeta {
    open spec fn parse(cfg: MtCfg, input: Seq<u8>) -> Parsed<NodeMeta> {
        done(NodeMeta, 0)
    }

    fn mt_deserialize(cfg: MtCfg, reader: &mut WrapRead) -> (r: Result<
        NodeMeta,
        DeserializeError,
    >) {
        assert(reader@.skip(0) == reader@);
        Ok(NodeMeta)
    }
}

impl MtRoundTrip for NodeMeta {
    open spec fn sound(v: NodeMeta, cfg: MtCfg, rest: Seq<u8>) -> bool {
        true
    }

    proof fn lemma_round_trip(v: NodeMeta, cfg: MtCfg, rest: Seq<u8>) {
        assert(Self::wire(v, cfg) + rest == rest);
    }
}

/// Where a sound comes from.
#[derive(Clone, Copy, Debug, PartialEq, Eq, Structural)]
pub enum SoundSrcType {
    Nowhere,
    Pos,
    Obj,
}

impl DeepView for SoundSrcType {
    type V = SoundSrcType;

    open spec fn deep_view(&self) -> SoundSrcType {
        *self
    }
}

impl SoundSrcType {
    /// The declaration of the variants: the first is numbered, the others follow it.
    pub open spec fn decl() -> Seq<Option<u64>> {
        seq![Some(0), None, None]
    }

    /// The position of a variant in the declaration.
    pub open spec fn index(self) -> int {
        match self {
            SoundSrcType::Nowhere => 0,
            SoundSrcType::Pos => 1,
            SoundSrcType::Obj => 2,
        }
    }

    /// The discriminant of a variant.
    pub open spec fn spec_discr(self) -> u16 {
        match self {
            SoundSrcType::Nowhere => 0,
            SoundSrcType::Pos => 1,
            SoundSrcType::Obj => 2,
        }
    }

    /// The discriminant of a variant.
    #[verifier::when_used_as_spec(spec_discr)]
    pub fn discr(self) -> (r: u16)
        ensures
            r == self.spec_discr(),
    {
        match self {
            SoundSrcType::Nowhere => 0,
            SoundSrcType::Pos => 1,
            SoundSrcType::Obj => 2,
        }
    }

    /// The variant with the discriminant `d`, where there is one.
    pub open spec fn spec_from_discr(d: u16) -> Option<SoundSrcType> {
        if d == 0 {
            Some(SoundSrcType::Nowhere)
        } else if d == 1 {
            Some(SoundSrcType::Pos)
        } else if d == 2 {
            Some(SoundSrcType::Obj)
        } else {
            None
        }
    }

    /// The variant with the discriminant `d`, where there is one.
    #[verifier::when_used_as_spec(spec_from_discr)]
    pub fn from_discr(d: u16) -> (r: Option<SoundSrcType>)
        ensures
            r == Self::spec_from_discr(d),
    {
        if d == 0 {
            Some(SoundSrcType::Nowhere)
        } else if d == 1 {
            Some(SoundSrcType::Pos)
        } else if d == 2 {
            Some(SoundSrcType::Obj)
        } else {
            None
        }
    }

    /// A discriminant that no variant has is refused, and the fault carries
    /// it.
    pub proof fn lemma_unknown(d: u16, rest: Seq<u8>)
        requires
            Self::spec_from_discr(d) is None,
        ensures
            <SoundSrcType as MtDeserialize>::parse(
                spec_def_cfg(),
                be_bytes(d as nat, 2) + rest,
            ) == failed::<SoundSrcType>(
                ReadFault::InvalidEnum("SoundSrcType"@, RawView::U16(d)),
                2,
            ),
    {
        lemma_radix();
        lemma_uint_round_trip(d as nat, 2, rest);
    }

    /// The discriminants are the ones that the declaration assigns, and
    /// each of them leads back to its variant.
    pub proof fn lemma_discr(self)
        ensures
            self.spec_discr() as int == assigned(Self::decl())[self.index()],
            Self::spec_from_discr(self.spec_discr()) == Some(self),
    {
        match self {
            SoundSrcType::Nowhere => lemma_assigned_at(Self::decl(), 0),
            SoundSrcType::Pos => {
                lemma_assigned_at(Self::decl(), 0);
                lemma_assigned_at(Self::decl(), 1);
            },
            SoundSrcType::Obj => {
                lemma_assigned_at(Self::decl(), 0);
                lemma_assigned_at(Self::decl(), 1);
                lemma_assigned_at(Self::decl(), 2);
            },
        }
    }
}

impl MtSerialize for SoundSrcType {
    open spec fn fits(v: SoundSrcType, cfg: MtCfg) -> bool {
        true
    }

    open spec fn wire(v: SoundSrcType, cfg: MtCfg) -> Seq<u8> {
        be_bytes(v.spec_discr() as nat, 2)
    }

    /// Never refused.
    open spec fn fault(v: SoundSrcType, cfg: MtCfg) -> WriteFault {
        WriteFault::TooBig
    }

    fn mt_serialize(&self, cfg: MtCfg, writer: &mut Vec<u8>) -> (r: Result<(), SerializeError>) {
        proof {
            lemma_radix();
        }
        write_discr(LenWidth::W16, self.discr() as u64, writer);
        Ok(())
    }
}

impl MtDeserialize for SoundSrcType {
    /// A discriminant that no variant has is the fault `InvalidEnum`.
    open spec fn parse(cfg: MtCfg, input: Seq<u8>) -> Parsed<SoundSrcType> {
        let (tag, used) = parse_uint(input, 2);
        match tag {
            None => failed(ReadFault::UnexpectedEof, used),
            Some(d) => match Self::spec_from_discr(d as u16) {
                Some(v) => done(v, used),
                None => failed(
                    ReadFault::InvalidEnum("SoundSrcType"@, RawView::U16(d as u16)),
                    used,
                ),
            },
        }
    }

    fn mt_deserialize(cfg: MtCfg, reader: &mut WrapRead) -> (r: Result<
        SoundSrcType,
        DeserializeError,
    >) {
        proof {
            lemma_radix();
        }
        let d = read_discr(LenWidth::W16, reader)?;
        match Self::from_discr(d as u16) {
            Some(v) => Ok(v),
            None => Err(invalid_enum("SoundSrcType", LenWidth::W16, d)),
        }
    }
}

impl MtRoundTrip for SoundSrcType {
    open spec fn sound(v: SoundSrcType, cfg: MtCfg, rest: Seq<u8>) -> bool {
        true
    }

    proof fn lemma_round_trip(v: SoundSrcType, cfg: MtCfg, rest: Seq<u8>) {
        lemma_radix();
        lemma_uint_round_trip(v.spec_discr() as nat, 2, rest);
    }
}

} // verus!
