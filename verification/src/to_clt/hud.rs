//! The heads-up display.

use crate::cfg::{def_cfg, spec_def_cfg, LenWidth, MtCfg};
use crate::codec::{agrees, done, failed, MtDeserialize, MtRoundTrip, MtSerialize, Parsed};
use crate::endian::{be_bytes, lemma_radix, parse_uint};
use crate::error::{DeserializeError, Raw, RawView, ReadFault, SerializeError, WriteFault};
use crate::flags::{EnumSet, MtFlag};
use crate::literal::{const_parse, lemma_const_round_trip, raw_wire};
use crate::num::{lemma_uint_round_trip, Single};
use crate::reader::WrapRead;
use crate::seq::{all_fit, items_fault, lemma_items_fault_at, wire_items};
use crate::step::{
    lemma_join_assoc, lemma_skip_joined, lemma_skip_twice, read_const_part, read_part, shift, then,
    write_const_part, write_part,
};
use crate::tagged::{assigned, invalid_enum, lemma_assigned_at, read_discr, write_discr};
use vstd::prelude::*;

verus! {

/// A style of the text of a HUD element. Its set travels as 32 bits.
#[derive(Clone, Copy, Debug, PartialEq, Eq, Structural)]
pub enum HudStyleFlag {
    Bold,
    Italic,
    Mono,
}

impl MtFlag for HudStyleFlag {
    open spec fn spec_all() -> u64 {
        0x7
    }

    open spec fn spec_repr() -> LenWidth {
        LenWidth::W32
    }

    open spec fn spec_mask(&self) -> u64 {
        match self {
            HudStyleFlag::Bold => 0x1,
            HudStyleFlag::Italic => 0x2,
            HudStyleFlag::Mono => 0x4,
        }
    }

    proof fn lemma_all_fits() {
        lemma_radix();
    }

    proof fn lemma_mask(&self) {
        assert(0x1u64 & 0x7u64 == 0x1u64) by (bit_vector);
        assert(0x2u64 & 0x7u64 == 0x2u64) by (bit_vector);
        assert(0x4u64 & 0x7u64 == 0x4u64) by (bit_vector);
    }

    fn all() -> (r: u64) {
        0x7
    }

    fn repr() -> (r: LenWidth) {
        LenWidth::W32
    }

    fn mask(&self) -> (r: u64) {
        match self {
            HudStyleFlag::Bold => 0x1,
            HudStyleFlag::Italic => 0x2,
            HudStyleFlag::Mono => 0x4,
        }
    }
}

/// The kind of a HUD element.
#[derive(Clone, Copy, Debug, PartialEq, Eq, Structural)]
pub enum HudType {
    Image,
    Text,
    Statbar,
    Inv,
    Waypoint,
    ImageWaypoint,
}

impl DeepView for HudType {
    type V = HudType;

    open spec fn deep_view(&self) -> HudType {
        *self
    }
}

impl HudType {
    /// The declaration of the variants: the first is numbered, the others follow it.
    pub open spec fn decl() -> Seq<Option<u64>> {
        seq![Some(0), None, None, None, None, None]
    }

    /// The position of a variant in the declaration.
    pub open spec fn index(self) -> int {
        match self {
            HudType::Image => 0,
            HudType::Text => 1,
            HudType::Statbar => 2,
            HudType::Inv => 3,
            HudType::Waypoint => 4,
            HudType::ImageWaypoint => 5,
        }
    }

    /// The discriminant of a variant.
    pub open spec fn spec_discr(self) -> u8 {
        match self {
            HudType::Image => 0,
            HudType::Text => 1,
            HudType::Statbar => 2,
            HudType::Inv => 3,
            HudType::Waypoint => 4,
            HudType::ImageWaypoint => 5,
        }
    }

    /// The discriminant of a variant.
    #[verifier::when_used_as_spec(spec_discr)]
    pub fn discr(self) -> (r: u8)
        ensures
            r == self.spec_discr(),
    {
        match self {
            HudType::Image => 0,
            HudType::Text => 1,
            HudType::Statbar => 2,
            HudType::Inv => 3,
            HudType::Waypoint => 4,
            HudType::ImageWaypoint => 5,
        }
    }

    /// The variant with the discriminant `d`, where there is one.
    pub open spec fn spec_from_discr(d: u8) -> Option<HudType> {
        if d == 0 {
            Some(HudType::Image)
        } else if d == 1 {
            Some(HudType::Text)
        } else if d == 2 {
            Some(HudType::Statbar)
        } else if d == 3 {
            Some(HudType::Inv)
        } else if d == 4 {
            Some(HudType::Waypoint)
        } else if d == 5 {
            Some(HudType::ImageWaypoint)
        } else {
            None
        }
    }

    /// The variant with the discriminant `d`, where there is one.
    #[verifier::when_used_as_spec(spec_from_discr)]
    pub fn from_discr(d: u8) -> (r: Option<HudType>)
        ensures
            r == Self::spec_from_discr(d),
    {
        if d == 0 {
            Some(HudType::Image)
        } else if d == 1 {
            Some(HudType::Text)
        } else if d == 2 {
            Some(HudType::Statbar)
        } else if d == 3 {
            Some(HudType::Inv)
        } else if d == 4 {
            Some(HudType::Waypoint)
        } else if d == 5 {
            Some(HudType::ImageWaypoint)
        } else {
            None
        }
    }

    /// A discriminant that no variant has is refused, and the fault carries
    /// it.
    pub proof fn lemma_unknown(d: u8, rest: Seq<u8>)
        requires
            Self::spec_from_discr(d) is None,
        ensures
            <HudType as MtDeserialize>::parse(
                spec_def_cfg(),
                be_bytes(d as nat, 1) + rest,
            ) == failed::<HudType>(
                ReadFault::InvalidEnum("HudType"@, RawView::U8(d)),
                1,
            ),
    {
        lemma_radix();
        lemma_uint_round_trip(d as nat, 1, rest);
    }

    /// The discriminants are the ones that the declaration assigns, and
    /// each of them leads back to its variant.
    pub proof fn lemma_discr(self)
        ensures
            self.spec_discr() as int == assigned(Self::decl())[self.index()],
            Self::spec_from_discr(self.spec_discr()) == Some(self),
    {
        match self {
            HudType::Image => lemma_assigned_at(Self::decl(), 0),
            HudType::Text => {
                lemma_assigned_at(Self::decl(), 0);
                lemma_assigned_at(Self::decl(), 1);
            },
            HudType::Statbar => {
                lemma_assigned_at(Self::decl(), 0);
                lemma_assigned_at(Self::decl(), 1);
                lemma_assigned_at(Self::decl(), 2);
            },
            HudType::Inv => {
                lemma_assigned_at(Self::decl(), 0);
                lemma_assigned_at(Self::decl(), 1);
                lemma_assigned_at(Self::decl(), 2);
                lemma_assigned_at(Self::decl(), 3);
            },
            HudType::Waypoint => {
                lemma_assigned_at(Self::decl(), 0);
                lemma_assigned_at(Self::decl(), 1);
                lemma_assigned_at(Self::decl(), 2);
                lemma_assigned_at(Self::decl(), 3);
                lemma_assigned_at(Self::decl(), 4);
            },
            HudType::ImageWaypoint => {
                lemma_assigned_at(Self::decl(), 0);
                lemma_assigned_at(Self::decl(), 1);
                lemma_assigned_at(Self::decl(), 2);
                lemma_assigned_at(Self::decl(), 3);
                lemma_assigned_at(Self::decl(), 4);
                lemma_assigned_at(Self::decl(), 5);
            },
        }
    }
}

impl MtSerialize for HudType {
    open spec fn fits(v: HudType, cfg: MtCfg) -> bool {
        true
    }

    open spec fn wire(v: HudType, cfg: MtCfg) -> Seq<u8> {
        be_bytes(v.spec_discr() as nat, 1)
    }

    /// Never refused.
    open spec fn fault(v: HudType, cfg: MtCfg) -> WriteFault {
        WriteFault::TooBig
    }

    fn mt_serialize(&self, cfg: MtCfg, writer: &mut Vec<u8>) -> (r: Result<(), SerializeError>) {
        proof {
            lemma_radix();
        }
        write_discr(LenWidth::W8, self.discr() as u64, writer);
        Ok(())
    }
}

impl MtDeserialize for HudType {
    /// A discriminant that no variant has is the fault `InvalidEnum`.
    open spec fn parse(cfg: MtCfg, input: Seq<u8>) -> Parsed<HudType> {
        let (tag, used) = parse_uint(input, 1);
        match tag {
            None => failed(ReadFault::UnexpectedEof, used),
            Some(d) => match Self::spec_from_discr(d as u8) {
                Some(v) => done(v, used),
                None => failed(
                    ReadFault::InvalidEnum("HudType"@, RawView::U8(d as u8)),
                    used,
                ),
            },
        }
    }

    fn mt_deserialize(cfg: MtCfg, reader: &mut WrapRead) -> (r: Result<HudType, DeserializeError>) {
        proof {
            lemma_radix();
        }
        let d = read_discr(LenWidth::W8, reader)?;
        match Self::from_discr(d as u8) {
            Some(v) => Ok(v),
            None => Err(invalid_enum("HudType", LenWidth::W8, d)),
        }
    }
}

impl MtRoundTrip for HudType {
    open spec fn sound(v: HudType, cfg: MtCfg, rest: Seq<u8>) -> bool {
        true
    }

    proof fn lemma_round_trip(v: HudType, cfg: MtCfg, rest: Seq<u8>) {
        lemma_radix();
        lemma_uint_round_trip(v.spec_discr() as nat, 1, rest);
    }
}

/// A part of the HUD that can be shown or hidden. Its set travels as 32 bits.
#[derive(Clone, Copy, Debug, PartialEq, Eq, Structural)]
pub enum HudFlag {
    Hotbar,
    HealthBar,
    Crosshair,
    WieldedItem,
    BreathBar,
    Minimap,
    RadarMinimap,
}

impl MtFlag for HudFlag {
    open spec fn spec_all() -> u64 {
        0x7f
    }

    open spec fn spec_repr() -> LenWidth {
        LenWidth::W32
    }

    open spec fn spec_mask(&self) -> u64 {
        match self {
            HudFlag::Hotbar => 0x1,
            HudFlag::HealthBar => 0x2,
            HudFlag::Crosshair => 0x4,
            HudFlag::WieldedItem => 0x8,
            HudFlag::BreathBar => 0x10,
            HudFlag::Minimap => 0x20,
            HudFlag::RadarMinimap => 0x40,
        }
    }

    proof fn lemma_all_fits() {
        lemma_radix();
    }

    proof fn lemma_mask(&self) {
        assert(0x1u64 & 0x7fu64 == 0x1u64) by (bit_vector);
        assert(0x2u64 & 0x7fu64 == 0x2u64) by (bit_vector);
        assert(0x4u64 & 0x7fu64 == 0x4u64) by (bit_vector);
        assert(0x8u64 & 0x7fu64 == 0x8u64) by (bit_vector);
        assert(0x10u64 & 0x7fu64 == 0x10u64) by (bit_vector);
        assert(0x20u64 & 0x7fu64 == 0x20u64) by (bit_vector);
        assert(0x40u64 & 0x7fu64 == 0x40u64) by (bit_vector);
    }

    fn all() -> (r: u64) {
        0x7f
    }

    fn repr() -> (r: LenWidth) {
        LenWidth::W32
    }

    fn mask(&self) -> (r: u64) {
        match self {
            HudFlag::Hotbar => 0x1,
            HudFlag::HealthBar => 0x2,
            HudFlag::Crosshair => 0x4,
            HudFlag::WieldedItem => 0x8,
            HudFlag::BreathBar => 0x10,
            HudFlag::Minimap => 0x20,
            HudFlag::RadarMinimap => 0x40,
        }
    }
}

/// A parameter of the hotbar.
#[derive(Clone, Debug, PartialEq)]
pub enum HotbarParam {
    /// The number of slots, after the constant 4: its size in bytes.
    Size(u32),
    /// The image of the bar.
    Image(String),
    /// The image of the selected slot.
    SelectionImage(String),
}

/// The mathematical value of a [`HotbarParam`].
pub ghost enum HotbarParamView {
    Size(u32),
    Image(Seq<char>),
    SelectionImage(Seq<char>),
}

impl DeepView for HotbarParam {
    type V = HotbarParamView;

    open spec fn deep_view(&self) -> HotbarParamView {
        match self {
            HotbarParam::Size(field_0) => HotbarParamView::Size(field_0.deep_view()),
            HotbarParam::Image(field_0) => HotbarParamView::Image(field_0.deep_view()),
            HotbarParam::SelectionImage(field_0) => HotbarParamView::SelectionImage(
                field_0.deep_view(),
            ),
        }
    }
}

impl HotbarParam {
    /// The discriminant of the variant of `v`.
    pub open spec fn tag(v: HotbarParamView) -> u16 {
        match v {
            HotbarParamView::Size(..) => 0,
            HotbarParamView::Image(..) => 1,
            HotbarParamView::SelectionImage(..) => 2,
        }
    }

    /// The declaration of the variants: `Some` for one with a number of its
    /// own, `None` for one that follows the variant before it.
    pub open spec fn decl() -> Seq<Option<u64>> {
        seq![Some(0), None, None]
    }

    /// The position of the variant of `v` in the declaration.
    pub open spec fn index(v: HotbarParamView) -> int {
        match v {
            HotbarParamView::Size(..) => 0,
            HotbarParamView::Image(..) => 1,
            HotbarParamView::SelectionImage(..) => 2,
        }
    }

    /// The discriminants are the ones that the declaration assigns.
    pub proof fn lemma_tag(v: HotbarParamView)
        ensures
            Self::tag(v) as int == assigned(Self::decl())[Self::index(v)],
    {
        match v {
            HotbarParamView::Size(..) => lemma_assigned_at(Self::decl(), 0),
            HotbarParamView::Image(..) => {
                lemma_assigned_at(Self::decl(), 0);
                lemma_assigned_at(Self::decl(), 1);
            },
            HotbarParamView::SelectionImage(..) => {
                lemma_assigned_at(Self::decl(), 0);
                lemma_assigned_at(Self::decl(), 1);
                lemma_assigned_at(Self::decl(), 2);
            },
        }
    }

    /// Whether what the variant holds can be written.
    pub open spec fn payload_fits(v: HotbarParamView) -> bool {
        match v {
            HotbarParamView::Size(field_0) => u32::fits(field_0, def_cfg()),
            HotbarParamView::Image(field_0) => String::fits(field_0, def_cfg()),
            HotbarParamView::SelectionImage(field_0) => String::fits(field_0, def_cfg()),
        }
    }

    /// The fault with which what the variant holds is refused: that of its
    /// first field that does not fit.
    pub open spec fn payload_fault(v: HotbarParamView) -> WriteFault {
        match v {
            HotbarParamView::Size(field_0) => u32::fault(field_0, def_cfg()),
            HotbarParamView::Image(field_0) => String::fault(field_0, def_cfg()),
            HotbarParamView::SelectionImage(field_0) => String::fault(field_0, def_cfg()),
        }
    }

    /// The bytes of what the variant holds, after the discriminant.
    pub open spec fn payload_wire(v: HotbarParamView) -> Seq<u8> {
        match v {
            HotbarParamView::Size(field_0) => raw_wire(RawView::U16(4))
                + u32::wire(field_0, def_cfg()),
            HotbarParamView::Image(field_0) => String::wire(field_0, def_cfg()),
            HotbarParamView::SelectionImage(field_0) => String::wire(field_0, def_cfg()),
        }
    }

    /// Whether what the variant holds can be told from the bytes `rest`
    /// after it.
    pub open spec fn payload_sound(v: HotbarParamView, rest: Seq<u8>) -> bool {
        match v {
            HotbarParamView::Size(field_0) => {
                let after_field_0 = rest;
                let after_const_1 = u32::wire(field_0, def_cfg()) + after_field_0;
                &&& u32::sound(field_0, def_cfg(), after_field_0)
            },
            HotbarParamView::Image(field_0) => {
                let after_field_0 = rest;
                &&& String::sound(field_0, def_cfg(), after_field_0)
            },
            HotbarParamView::SelectionImage(field_0) => {
                let after_field_0 = rest;
                &&& String::sound(field_0, def_cfg(), after_field_0)
            },
        }
    }

    /// What reading the variant `Size` makes of `input`, after the
    /// discriminant.
    pub open spec fn parse_size(input: Seq<u8>) -> Parsed<HotbarParamView> {
        then(input, const_parse(RawView::U16(4), input), |found, input|
        then(input, u32::parse(def_cfg(), input), |field_0, input|
        done(HotbarParamView::Size(field_0), 0)))
    }

    fn write_size(&self, writer: &mut Vec<u8>, Ghost(base): Ghost<Seq<u8>>) -> (r: Result<
        (),
        SerializeError,
    >)
        requires
            self.deep_view() is Size,
            base.is_prefix_of(old(writer)@),
        ensures
            r is Ok <==> Self::payload_fits(self.deep_view()),
            r is Ok ==> final(writer)@ == old(writer)@ + Self::payload_wire(self.deep_view()),
            r matches Err(e) ==> e@ == Self::payload_fault(self.deep_view()),
            base.is_prefix_of(final(writer)@),
    {
        match self {
            HotbarParam::Size(field_0) => {
                write_const_part(&Raw::U16(4), writer, Ghost(base))?;
                let ghost written = raw_wire(RawView::U16(4));
                write_part(field_0, def_cfg(), writer, Ghost(base))?;
                proof {
                    lemma_join_assoc(
                        old(writer)@,
                        written,
                        u32::wire(field_0.deep_view(), def_cfg()),
                    );
                }
                Ok(())
            },
            _ => vstd::pervasive::unreached(),
        }
    }

    fn read_size(reader: &mut WrapRead) -> (r: Result<HotbarParam, DeserializeError>)
        ensures
            agrees(r, Self::parse_size(old(reader)@)),
            Self::parse_size(old(reader)@).used <= old(reader)@.len(),
            final(reader)@ == old(reader)@.skip(Self::parse_size(old(reader)@).used as int),
    {
        let ghost input = reader@;
        let ghost used: nat = 0;
        assert(input.skip(0) == input);
        let ghost part0 = const_parse(RawView::U16(4), reader@);
        read_const_part(&Raw::U16(4), reader, Ghost(input), Ghost(used))?;
        let ghost used = used + part0.used;
        let ghost part1 = u32::parse(def_cfg(), reader@);
        let field_0 = read_part::<u32>(def_cfg(), reader, Ghost(input), Ghost(used))?;
        let ghost used = used + part1.used;
        Ok(HotbarParam::Size(field_0))
    }

    proof fn lemma_size(v: HotbarParamView, rest: Seq<u8>)
        requires
            v is Size,
            Self::payload_fits(v),
            Self::payload_sound(v, rest),
        ensures
            Self::parse_size(Self::payload_wire(v) + rest) == done(v, Self::payload_wire(v).len()),
    {
        match v {
            HotbarParamView::Size(field_0) => {
                let after_field_0 = rest;
                let after_const_1 = u32::wire(field_0, def_cfg()) + after_field_0;
                let before = raw_wire(RawView::U16(4));
                lemma_join_assoc(before, u32::wire(field_0, def_cfg()), after_field_0);
                lemma_const_round_trip(RawView::U16(4), after_const_1);
                lemma_skip_joined(raw_wire(RawView::U16(4)), after_const_1);
                u32::lemma_round_trip(field_0, def_cfg(), after_field_0);
                lemma_skip_joined(u32::wire(field_0, def_cfg()), after_field_0);
            },
            _ => {},
        }
    }

    /// What reading the variant `Image` makes of `input`, after the
    /// discriminant.
    pub open spec fn parse_image(input: Seq<u8>) -> Parsed<HotbarParamView> {
        then(input, String::parse(def_cfg(), input), |field_0, input|
        done(HotbarParamView::Image(field_0), 0))
    }

    fn write_image(&self, writer: &mut Vec<u8>, Ghost(base): Ghost<Seq<u8>>) -> (r: Result<
        (),
        SerializeError,
    >)
        requires
            self.deep_view() is Image,
            base.is_prefix_of(old(writer)@),
        ensures
            r is Ok <==> Self::payload_fits(self.deep_view()),
            r is Ok ==> final(writer)@ == old(writer)@ + Self::payload_wire(self.deep_view()),
            r matches Err(e) ==> e@ == Self::payload_fault(self.deep_view()),
            base.is_prefix_of(final(writer)@),
    {
        match self {
            HotbarParam::Image(field_0) => {
                write_part(field_0, def_cfg(), writer, Ghost(base))?;
                Ok(())
            },
            _ => vstd::pervasive::unreached(),
        }
    }

    fn read_image(reader: &mut WrapRead) -> (r: Result<HotbarParam, DeserializeError>)
        ensures
            agrees(r, Self::parse_image(old(reader)@)),
            Self::parse_image(old(reader)@).used <= old(reader)@.len(),
            final(reader)@ == old(reader)@.skip(Self::parse_image(old(reader)@).used as int),
    {
        let ghost input = reader@;
        let ghost used: nat = 0;
        assert(input.skip(0) == input);
        let ghost part0 = String::parse(def_cfg(), reader@);
        let field_0 = read_part::<String>(def_cfg(), reader, Ghost(input), Ghost(used))?;
        let ghost used = used + part0.used;
        Ok(HotbarParam::Image(field_0))
    }

    proof fn lemma_image(v: HotbarParamView, rest: Seq<u8>)
        requires
            v is Image,
            Self::payload_fits(v),
            Self::payload_sound(v, rest),
        ensures
            Self::parse_image(Self::payload_wire(v) + rest) == done(v, Self::payload_wire(v).len()),
    {
        match v {
            HotbarParamView::Image(field_0) => {
                let after_field_0 = rest;
                String::lemma_round_trip(field_0, def_cfg(), after_field_0);
                lemma_skip_joined(String::wire(field_0, def_cfg()), after_field_0);
            },
            _ => {},
        }
    }

    /// What reading the variant `SelectionImage` makes of `input`, after the
    /// discriminant.
    pub open spec fn parse_selection_image(input: Seq<u8>) -> Parsed<HotbarParamView> {
        then(input, String::parse(def_cfg(), input), |field_0, input|
        done(HotbarParamView::SelectionImage(field_0), 0))
    }

    fn write_selection_image(
        &self,
        writer: &mut Vec<u8>,
        Ghost(base): Ghost<Seq<u8>>,
    ) -> (r: Result<
        (),
        SerializeError,
    >)
        requires
            self.deep_view() is SelectionImage,
            base.is_prefix_of(old(writer)@),
        ensures
            r is Ok <==> Self::payload_fits(self.deep_view()),
            r is Ok ==> final(writer)@ == old(writer)@ + Self::payload_wire(self.deep_view()),
            r matches Err(e) ==> e@ == Self::payload_fault(self.deep_view()),
            base.is_prefix_of(final(writer)@),
    {
        match self {
            HotbarParam::SelectionImage(field_0) => {
                write_part(field_0, def_cfg(), writer, Ghost(base))?;
                Ok(())
            },
            _ => vstd::pervasive::unreached(),
        }
    }

    fn read_selection_image(reader: &mut WrapRead) -> (r: Result<HotbarParam, DeserializeError>)
        ensures
            agrees(r, Self::parse_selection_image(old(reader)@)),
            Self::parse_selection_image(old(reader)@).used <= old(reader)@.len(),
            final(reader)@ == old(reader)@.skip(
                Self::parse_selection_image(old(reader)@).used as int,
            ),
    {
        let ghost input = reader@;
        let ghost used: nat = 0;
        assert(input.skip(0) == input);
        let ghost part0 = String::parse(def_cfg(), reader@);
        let field_0 = read_part::<String>(def_cfg(), reader, Ghost(input), Ghost(used))?;
        let ghost used = used + part0.used;
        Ok(HotbarParam::SelectionImage(field_0))
    }

    proof fn lemma_selection_image(v: HotbarParamView, rest: Seq<u8>)
        requires
            v is SelectionImage,
            Self::payload_fits(v),
            Self::payload_sound(v, rest),
        ensures
            Self::parse_selection_image(Self::payload_wire(v) + rest) == done(
                v,
                Self::payload_wire(v).len(),
            ),
    {
        match v {
            HotbarParamView::SelectionImage(field_0) => {
                let after_field_0 = rest;
                String::lemma_round_trip(field_0, def_cfg(), after_field_0);
                lemma_skip_joined(String::wire(field_0, def_cfg()), after_field_0);
            },
            _ => {},
        }
    }

    /// Whether some variant has the discriminant `d`.
    pub open spec fn known(d: u16) -> bool {
        d == 0 || d == 1 || d == 2
    }

    /// What reading the variant with the discriminant `d` makes of `input`,
    /// after the discriminant. A discriminant that no variant has is the
    /// fault `InvalidEnum`.
    pub open spec fn payload_parse(d: u16, input: Seq<u8>) -> Parsed<HotbarParamView> {
        if d == 0 {
            Self::parse_size(input)
        } else if d == 1 {
            Self::parse_image(input)
        } else if d == 2 {
            Self::parse_selection_image(input)
        } else {
            failed(ReadFault::InvalidEnum("HotbarParam"@, RawView::U16(d)), 0)
        }
    }

    /// A discriminant that no variant has is refused, and the fault carries
    /// it.
    pub proof fn lemma_unknown(d: u16, rest: Seq<u8>)
        requires
            !Self::known(d),
        ensures
            <HotbarParam as MtDeserialize>::parse(
                spec_def_cfg(),
                be_bytes(d as nat, 2) + rest,
            ) == failed::<HotbarParamView>(
                ReadFault::InvalidEnum("HotbarParam"@, RawView::U16(d)),
                2,
            ),
    {
        lemma_radix();
        lemma_uint_round_trip(d as nat, 2, rest);
    }
}

impl MtSerialize for HotbarParam {
    open spec fn fits(v: HotbarParamView, cfg: MtCfg) -> bool {
        Self::payload_fits(v)
    }

    /// The discriminant, then what the variant holds.
    open spec fn wire(v: HotbarParamView, cfg: MtCfg) -> Seq<u8> {
        be_bytes(Self::tag(v) as nat, 2) + Self::payload_wire(v)
    }

    open spec fn fault(v: HotbarParamView, cfg: MtCfg) -> WriteFault {
        Self::payload_fault(v)
    }

    fn mt_serialize(&self, cfg: MtCfg, writer: &mut Vec<u8>) -> (r: Result<(), SerializeError>) {
        proof {
            lemma_radix();
        }
        let ghost base = writer@;
        let ghost head = be_bytes(Self::tag(self.deep_view()) as nat, 2);
        let tag: u16 = match self {
            HotbarParam::Size(..) => 0,
            HotbarParam::Image(..) => 1,
            HotbarParam::SelectionImage(..) => 2,
        };
        write_discr(LenWidth::W16, tag as u64, writer);
        assert(base.is_prefix_of(writer@));
        proof {
            lemma_join_assoc(base, head, Self::payload_wire(self.deep_view()));
        }
        match self {
            HotbarParam::Size(..) => self.write_size(writer, Ghost(base)),
            HotbarParam::Image(..) => self.write_image(writer, Ghost(base)),
            HotbarParam::SelectionImage(..) => self.write_selection_image(writer, Ghost(base)),
        }
    }
}

impl MtDeserialize for HotbarParam {
    open spec fn parse(cfg: MtCfg, input: Seq<u8>) -> Parsed<HotbarParamView> {
        let (tag, used) = parse_uint(input, 2);
        match tag {
            None => failed(ReadFault::UnexpectedEof, used),
            Some(d) => shift(used, Self::payload_parse(d as u16, input.skip(used as int))),
        }
    }

    fn mt_deserialize(cfg: MtCfg, reader: &mut WrapRead) -> (r: Result<
        HotbarParam,
        DeserializeError,
    >) {
        proof {
            lemma_radix();
        }
        let ghost input = reader@;
        let ghost used = parse_uint(input, 2).1;
        let d = read_discr(LenWidth::W16, reader)?;
        let ghost p = Self::payload_parse(d as u16, input.skip(used as int));
        assert(input.skip(used as int).skip(0) == input.skip(used as int));
        let r = match d {
            0 => Self::read_size(reader),
            1 => Self::read_image(reader),
            2 => Self::read_selection_image(reader),
            _ => Err(invalid_enum("HotbarParam", LenWidth::W16, d)),
        };
        proof {
            lemma_skip_twice(input, used, p.used);
        }
        r
    }
}

impl MtRoundTrip for HotbarParam {
    open spec fn sound(v: HotbarParamView, cfg: MtCfg, rest: Seq<u8>) -> bool {
        Self::payload_sound(v, rest)
    }

    proof fn lemma_round_trip(v: HotbarParamView, cfg: MtCfg, rest: Seq<u8>) {
        let head = be_bytes(Self::tag(v) as nat, 2);
        let follow = Self::payload_wire(v) + rest;
        lemma_radix();
        lemma_uint_round_trip(Self::tag(v) as nat, 2, follow);
        lemma_join_assoc(head, Self::payload_wire(v), rest);
        lemma_skip_joined(head, follow);
        match v {
            HotbarParamView::Size(..) => Self::lemma_size(v, rest),
            HotbarParamView::Image(..) => Self::lemma_image(v, rest),
            HotbarParamView::SelectionImage(..) => Self::lemma_selection_image(v, rest),
        }
    }
}

/// A change of one property of a HUD element.
#[derive(Clone, Debug, PartialEq)]
pub enum HudChange {
    Pos([Single; 2]),
    Name(String),
    Scale([Single; 2]),
    Text(String),
    Number(u32),
    Item(u32),
    Dir(u32),
    Align([Single; 2]),
    Offset([Single; 2]),
    WorldPos([Single; 3]),
    ZIndex(i32),
    Text2(String),
    Style(EnumSet<HudStyleFlag>),
}

/// The mathematical value of a [`HudChange`].
pub ghost enum HudChangeView {
    Pos(Seq<Single>),
    Name(Seq<char>),
    Scale(Seq<Single>),
    Text(Seq<char>),
    Number(u32),
    Item(u32),
    Dir(u32),
    Align(Seq<Single>),
    Offset(Seq<Single>),
    WorldPos(Seq<Single>),
    ZIndex(i32),
    Text2(Seq<char>),
    Style(u64),
}

impl DeepView for HudChange {
    type V = HudChangeView;

    open spec fn deep_view(&self) -> HudChangeView {
        match self {
            HudChange::Pos(field_0) => HudChangeView::Pos(field_0.deep_view()),
            HudChange::Name(field_0) => HudChangeView::Name(field_0.deep_view()),
            HudChange::Scale(field_0) => HudChangeView::Scale(field_0.deep_view()),
            HudChange::Text(field_0) => HudChangeView::Text(field_0.deep_view()),
            HudChange::Number(field_0) => HudChangeView::Number(field_0.deep_view()),
            HudChange::Item(field_0) => HudChangeView::Item(field_0.deep_view()),
            HudChange::Dir(field_0) => HudChangeView::Dir(field_0.deep_view()),
            HudChange::Align(field_0) => HudChangeView::Align(field_0.deep_view()),
            HudChange::Offset(field_0) => HudChangeView::Offset(field_0.deep_view()),
            HudChange::WorldPos(field_0) => HudChangeView::WorldPos(field_0.deep_view()),
            HudChange::ZIndex(field_0) => HudChangeView::ZIndex(field_0.deep_view()),
            HudChange::Text2(field_0) => HudChangeView::Text2(field_0.deep_view()),
            HudChange::Style(field_0) => HudChangeView::Style(field_0.deep_view()),
        }
    }
}

impl HudChange {
    /// The discriminant of the variant of `v`.
    pub open spec fn tag(v: HudChangeView) -> u8 {
        match v {
            HudChangeView::Pos(..) => 0,
            HudChangeView::Name(..) => 1,
            HudChangeView::Scale(..) => 2,
            HudChangeView::Text(..) => 3,
            HudChangeView::Number(..) => 4,
            HudChangeView::Item(..) => 5,
            HudChangeView::Dir(..) => 6,
            HudChangeView::Align(..) => 7,
            HudChangeView::Offset(..) => 8,
            HudChangeView::WorldPos(..) => 9,
            HudChangeView::ZIndex(..) => 10,
            HudChangeView::Text2(..) => 11,
            HudChangeView::Style(..) => 12,
        }
    }

    /// The declaration of the variants: `Some` for one with a number of its
    /// own, `None` for one that follows the variant before it.
    pub open spec fn decl() -> Seq<Option<u64>> {
        seq![Some(0), None, None, None, None, None, None, None, None, None, None, None, None]
    }

    /// The position of the variant of `v` in the declaration.
    pub open spec fn index(v: HudChangeView) -> int {
        match v {
            HudChangeView::Pos(..) => 0,
            HudChangeView::Name(..) => 1,
            HudChangeView::Scale(..) => 2,
            HudChangeView::Text(..) => 3,
            HudChangeView::Number(..) => 4,
            HudChangeView::Item(..) => 5,
            HudChangeView::Dir(..) => 6,
            HudChangeView::Align(..) => 7,
            HudChangeView::Offset(..) => 8,
            HudChangeView::WorldPos(..) => 9,
            HudChangeView::ZIndex(..) => 10,
            HudChangeView::Text2(..) => 11,
            HudChangeView::Style(..) => 12,
        }
    }

    /// The discriminants are the ones that the declaration assigns.
    pub proof fn lemma_tag(v: HudChangeView)
        ensures
            Self::tag(v) as int == assigned(Self::decl())[Self::index(v)],
    {
        match v {
            HudChangeView::Pos(..) => lemma_assigned_at(Self::decl(), 0),
            HudChangeView::Name(..) => {
                lemma_assigned_at(Self::decl(), 0);
                lemma_assigned_at(Self::decl(), 1);
            },
            HudChangeView::Scale(..) => {
                lemma_assigned_at(Self::decl(), 0);
                lemma_assigned_at(Self::decl(), 1);
                lemma_assigned_at(Self::decl(), 2);
            },
            HudChangeView::Text(..) => {
                lemma_assigned_at(Self::decl(), 0);
                lemma_assigned_at(Self::decl(), 1);
                lemma_assigned_at(Self::decl(), 2);
                lemma_assigned_at(Self::decl(), 3);
            },
            HudChangeView::Number(..) => {
                lemma_assigned_at(Self::decl(), 0);
                lemma_assigned_at(Self::decl(), 1);
                lemma_assigned_at(Self::decl(), 2);
                lemma_assigned_at(Self::decl(), 3);
                lemma_assigned_at(Self::decl(), 4);
            },
            HudChangeView::Item(..) => {
                lemma_assigned_at(Self::decl(), 0);
                lemma_assigned_at(Self::decl(), 1);
                lemma_assigned_at(Self::decl(), 2);
                lemma_assigned_at(Self::decl(), 3);
                lemma_assigned_at(Self::decl(), 4);
                lemma_assigned_at(Self::decl(), 5);
            },
            HudChangeView::Dir(..) => {
                lemma_assigned_at(Self::decl(), 0);
                lemma_assigned_at(Self::decl(), 1);
                lemma_assigned_at(Self::decl(), 2);
                lemma_assigned_at(Self::decl(), 3);
                lemma_assigned_at(Self::decl(), 4);
                lemma_assigned_at(Self::decl(), 5);
                lemma_assigned_at(Self::decl(), 6);
            },
            HudChangeView::Align(..) => {
                lemma_assigned_at(Self::decl(), 0);
                lemma_assigned_at(Self::decl(), 1);
                lemma_assigned_at(Self::decl(), 2);
                lemma_assigned_at(Self::decl(), 3);
                lemma_assigned_at(Self::decl(), 4);
                lemma_assigned_at(Self::decl(), 5);
                lemma_assigned_at(Self::decl(), 6);
                lemma_assigned_at(Self::decl(), 7);
            },
            HudChangeView::Offset(..) => {
                lemma_assigned_at(Self::decl(), 0);
                lemma_assigned_at(Self::decl(), 1);
                lemma_assigned_at(Self::decl(), 2);
                lemma_assigned_at(Self::decl(), 3);
                lemma_assigned_at(Self::decl(), 4);
                lemma_assigned_at(Self::decl(), 5);
                lemma_assigned_at(Self::decl(), 6);
                lemma_assigned_at(Self::decl(), 7);
                lemma_assigned_at(Self::decl(), 8);
            },
            HudChangeView::WorldPos(..) => {
                lemma_assigned_at(Self::decl(), 0);
                lemma_assigned_at(Self::decl(), 1);
                lemma_assigned_at(Self::decl(), 2);
                lemma_assigned_at(Self::decl(), 3);
                lemma_assigned_at(Self::decl(), 4);
                lemma_assigned_at(Self::decl(), 5);
                lemma_assigned_at(Self::decl(), 6);
                lemma_assigned_at(Self::decl(), 7);
                lemma_assigned_at(Self::decl(), 8);
                lemma_assigned_at(Self::decl(), 9);
            },
            HudChangeView::ZIndex(..) => {
                lemma_assigned_at(Self::decl(), 0);
                lemma_assigned_at(Self::decl(), 1);
                lemma_assigned_at(Self::decl(), 2);
                lemma_assigned_at(Self::decl(), 3);
                lemma_assigned_at(Self::decl(), 4);
                lemma_assigned_at(Self::decl(), 5);
                lemma_assigned_at(Self::decl(), 6);
                lemma_assigned_at(Self::decl(), 7);
                lemma_assigned_at(Self::decl(), 8);
                lemma_assigned_at(Self::decl(), 9);
                lemma_assigned_at(Self::decl(), 10);
            },
            HudChangeView::Text2(..) => {
                lemma_assigned_at(Self::decl(), 0);
                lemma_assigned_at(Self::decl(), 1);
                lemma_assigned_at(Self::decl(), 2);
                lemma_assigned_at(Self::decl(), 3);
                lemma_assigned_at(Self::decl(), 4);
                lemma_assigned_at(Self::decl(), 5);
                lemma_assigned_at(Self::decl(), 6);
                lemma_assigned_at(Self::decl(), 7);
                lemma_assigned_at(Self::decl(), 8);
                lemma_assigned_at(Self::decl(), 9);
                lemma_assigned_at(Self::decl(), 10);
                lemma_assigned_at(Self::decl(), 11);
            },
            HudChangeView::Style(..) => {
                lemma_assigned_at(Self::decl(), 0);
                lemma_assigned_at(Self::decl(), 1);
                lemma_assigned_at(Self::decl(), 2);
                lemma_assigned_at(Self::decl(), 3);
                lemma_assigned_at(Self::decl(), 4);
                lemma_assigned_at(Self::decl(), 5);
                lemma_assigned_at(Self::decl(), 6);
                lemma_assigned_at(Self::decl(), 7);
                lemma_assigned_at(Self::decl(), 8);
                lemma_assigned_at(Self::decl(), 9);
                lemma_assigned_at(Self::decl(), 10);
                lemma_assigned_at(Self::decl(), 11);
                lemma_assigned_at(Self::decl(), 12);
            },
        }
    }

    /// Whether what the variant holds can be written.
    pub open spec fn payload_fits(v: HudChangeView) -> bool {
        match v {
            HudChangeView::Pos(field_0) => <[Single; 2]>::fits(field_0, def_cfg()),
            HudChangeView::Name(field_0) => String::fits(field_0, def_cfg()),
            HudChangeView::Scale(field_0) => <[Single; 2]>::fits(field_0, def_cfg()),
            HudChangeView::Text(field_0) => String::fits(field_0, def_cfg()),
            HudChangeView::Number(field_0) => u32::fits(field_0, def_cfg()),
            HudChangeView::Item(field_0) => u32::fits(field_0, def_cfg()),
            HudChangeView::Dir(field_0) => u32::fits(field_0, def_cfg()),
            HudChangeView::Align(field_0) => <[Single; 2]>::fits(field_0, def_cfg()),
            HudChangeView::Offset(field_0) => <[Single; 2]>::fits(field_0, def_cfg()),
            HudChangeView::WorldPos(field_0) => <[Single; 3]>::fits(field_0, def_cfg()),
            HudChangeView::ZIndex(field_0) => i32::fits(field_0, def_cfg()),
            HudChangeView::Text2(field_0) => String::fits(field_0, def_cfg()),
            HudChangeView::Style(field_0) => EnumSet::<HudStyleFlag>::fits(field_0, def_cfg()),
        }
    }

    /// The fault with which what the variant holds is refused: that of its
    /// first field that does not fit.
    pub open spec fn payload_fault(v: HudChangeView) -> WriteFault {
        match v {
            HudChangeView::Pos(field_0) => <[Single; 2]>::fault(field_0, def_cfg()),
            HudChangeView::Name(field_0) => String::fault(field_0, def_cfg()),
            HudChangeView::Scale(field_0) => <[Single; 2]>::fault(field_0, def_cfg()),
            HudChangeView::Text(field_0) => String::fault(field_0, def_cfg()),
            HudChangeView::Number(field_0) => u32::fault(field_0, def_cfg()),
            HudChangeView::Item(field_0) => u32::fault(field_0, def_cfg()),
            HudChangeView::Dir(field_0) => u32::fault(field_0, def_cfg()),
            HudChangeView::Align(field_0) => <[Single; 2]>::fault(field_0, def_cfg()),
            HudChangeView::Offset(field_0) => <[Single; 2]>::fault(field_0, def_cfg()),
            HudChangeView::WorldPos(field_0) => <[Single; 3]>::fault(field_0, def_cfg()),
            HudChangeView::ZIndex(field_0) => i32::fault(field_0, def_cfg()),
            HudChangeView::Text2(field_0) => String::fault(field_0, def_cfg()),
            HudChangeView::Style(field_0) => EnumSet::<HudStyleFlag>::fault(field_0, def_cfg()),
        }
    }

    /// The bytes of what the variant holds, after the discriminant.
    pub open spec fn payload_wire(v: HudChangeView) -> Seq<u8> {
        match v {
            HudChangeView::Pos(field_0) => <[Single; 2]>::wire(field_0, def_cfg()),
            HudChangeView::Name(field_0) => String::wire(field_0, def_cfg()),
            HudChangeView::Scale(field_0) => <[Single; 2]>::wire(field_0, def_cfg()),
            HudChangeView::Text(field_0) => String::wire(field_0, def_cfg()),
            HudChangeView::Number(field_0) => u32::wire(field_0, def_cfg()),
            HudChangeView::Item(field_0) => u32::wire(field_0, def_cfg()),
            HudChangeView::Dir(field_0) => u32::wire(field_0, def_cfg()),
            HudChangeView::Align(field_0) => <[Single; 2]>::wire(field_0, def_cfg()),
            HudChangeView::Offset(field_0) => <[Single; 2]>::wire(field_0, def_cfg()),
            HudChangeView::WorldPos(field_0) => <[Single; 3]>::wire(field_0, def_cfg()),
            HudChangeView::ZIndex(field_0) => i32::wire(field_0, def_cfg()),
            HudChangeView::Text2(field_0) => String::wire(field_0, def_cfg()),
            HudChangeView::Style(field_0) => EnumSet::<HudStyleFlag>::wire(field_0, def_cfg()),
        }
    }

    /// Whether what the variant holds can be told from the bytes `rest`
    /// after it.
    pub open spec fn payload_sound(v: HudChangeView, rest: Seq<u8>) -> bool {
        match v {
            HudChangeView::Pos(field_0) => {
                let after_field_0 = rest;
                &&& <[Single; 2]>::sound(field_0, def_cfg(), after_field_0)
            },
            HudChangeView::Name(field_0) => {
                let after_field_0 = rest;
                &&& String::sound(field_0, def_cfg(), after_field_0)
            },
            HudChangeView::Scale(field_0) => {
                let after_field_0 = rest;
                &&& <[Single; 2]>::sound(field_0, def_cfg(), after_field_0)
            },
            HudChangeView::Text(field_0) => {
                let after_field_0 = rest;
                &&& String::sound(field_0, def_cfg(), after_field_0)
            },
            HudChangeView::Number(field_0) => {
                let after_field_0 = rest;
                &&& u32::sound(field_0, def_cfg(), after_field_0)
            },
            HudChangeView::Item(field_0) => {
                let after_field_0 = rest;
                &&& u32::sound(field_0, def_cfg(), after_field_0)
            },
            HudChangeView::Dir(field_0) => {
                let after_field_0 = rest;
                &&& u32::sound(field_0, def_cfg(), after_field_0)
            },
            HudChangeView::Align(field_0) => {
                let after_field_0 = rest;
                &&& <[Single; 2]>::sound(field_0, def_cfg(), after_field_0)
            },
            HudChangeView::Offset(field_0) => {
                let after_field_0 = rest;
                &&& <[Single; 2]>::sound(field_0, def_cfg(), after_field_0)
            },
            HudChangeView::WorldPos(field_0) => {
                let after_field_0 = rest;
                &&& <[Single; 3]>::sound(field_0, def_cfg(), after_field_0)
            },
            HudChangeView::ZIndex(field_0) => {
                let after_field_0 = rest;
                &&& i32::sound(field_0, def_cfg(), after_field_0)
            },
            HudChangeView::Text2(field_0) => {
                let after_field_0 = rest;
                &&& String::sound(field_0, def_cfg(), after_field_0)
            },
            HudChangeView::Style(field_0) => {
                let after_field_0 = rest;
                &&& EnumSet::<HudStyleFlag>::sound(field_0, def_cfg(), after_field_0)
            },
        }
    }

    /// What reading the variant `Pos` makes of `input`, after the
    /// discriminant.
    pub open spec fn parse_pos(input: Seq<u8>) -> Parsed<HudChangeView> {
        then(input, <[Single; 2]>::parse(def_cfg(), input), |field_0, input|
        done(HudChangeView::Pos(field_0), 0))
    }

    fn write_pos(&self, writer: &mut Vec<u8>, Ghost(base): Ghost<Seq<u8>>) -> (r: Result<
        (),
        SerializeError,
    >)
        requires
            self.deep_view() is Pos,
            base.is_prefix_of(old(writer)@),
        ensures
            r is Ok <==> Self::payload_fits(self.deep_view()),
            r is Ok ==> final(writer)@ == old(writer)@ + Self::payload_wire(self.deep_view()),
            r matches Err(e) ==> e@ == Self::payload_fault(self.deep_view()),
            base.is_prefix_of(final(writer)@),
    {
        match self {
            HudChange::Pos(field_0) => {
                write_part(field_0, def_cfg(), writer, Ghost(base))?;
                Ok(())
            },
            _ => vstd::pervasive::unreached(),
        }
    }

    fn read_pos(reader: &mut WrapRead) -> (r: Result<HudChange, DeserializeError>)
        ensures
            agrees(r, Self::parse_pos(old(reader)@)),
            Self::parse_pos(old(reader)@).used <= old(reader)@.len(),
            final(reader)@ == old(reader)@.skip(Self::parse_pos(old(reader)@).used as int),
    {
        let ghost input = reader@;
        let ghost used: nat = 0;
        assert(input.skip(0) == input);
        let ghost part0 = <[Single; 2]>::parse(def_cfg(), reader@);
        let field_0 = read_part::<[Single; 2]>(def_cfg(), reader, Ghost(input), Ghost(used))?;
        let ghost used = used + part0.used;
        Ok(HudChange::Pos(field_0))
    }

    proof fn lemma_pos(v: HudChangeView, rest: Seq<u8>)
        requires
            v is Pos,
            Self::payload_fits(v),
            Self::payload_sound(v, rest),
        ensures
            Self::parse_pos(Self::payload_wire(v) + rest) == done(v, Self::payload_wire(v).len()),
    {
        match v {
            HudChangeView::Pos(field_0) => {
                let after_field_0 = rest;
                <[Single; 2]>::lemma_round_trip(field_0, def_cfg(), after_field_0);
                lemma_skip_joined(<[Single; 2]>::wire(field_0, def_cfg()), after_field_0);
            },
            _ => {},
        }
    }

    /// What reading the variant `Name` makes of `input`, after the
    /// discriminant.
    pub open spec fn parse_name(input: Seq<u8>) -> Parsed<HudChangeView> {
        then(input, String::parse(def_cfg(), input), |field_0, input|
        done(HudChangeView::Name(field_0), 0))
    }

    fn write_name(&self, writer: &mut Vec<u8>, Ghost(base): Ghost<Seq<u8>>) -> (r: Result<
        (),
        SerializeError,
    >)
        requires
            self.deep_view() is Name,
            base.is_prefix_of(old(writer)@),
        ensures
            r is Ok <==> Self::payload_fits(self.deep_view()),
            r is Ok ==> final(writer)@ == old(writer)@ + Self::payload_wire(self.deep_view()),
            r matches Err(e) ==> e@ == Self::payload_fault(self.deep_view()),
            base.is_prefix_of(final(writer)@),
    {
        match self {
            HudChange::Name(field_0) => {
                write_part(field_0, def_cfg(), writer, Ghost(base))?;
                Ok(())
            },
            _ => vstd::pervasive::unreached(),
        }
    }

    fn read_name(reader: &mut WrapRead) -> (r: Result<HudChange, DeserializeError>)
        ensures
            agrees(r, Self::parse_name(old(reader)@)),
            Self::parse_name(old(reader)@).used <= old(reader)@.len(),
            final(reader)@ == old(reader)@.skip(Self::parse_name(old(reader)@).used as int),
    {
        let ghost input = reader@;
        let ghost used: nat = 0;
        assert(input.skip(0) == input);
        let ghost part0 = String::parse(def_cfg(), reader@);
        let field_0 = read_part::<String>(def_cfg(), reader, Ghost(input), Ghost(used))?;
        let ghost used = used + part0.used;
        Ok(HudChange::Name(field_0))
    }

    proof fn lemma_name(v: HudChangeView, rest: Seq<u8>)
        requires
            v is Name,
            Self::payload_fits(v),
            Self::payload_sound(v, rest),
        ensures
            Self::parse_name(Self::payload_wire(v) + rest) == done(v, Self::payload_wire(v).len()),
    {
        match v {
            HudChangeView::Name(field_0) => {
                let after_field_0 = rest;
                String::lemma_round_trip(field_0, def_cfg(), after_field_0);
                lemma_skip_joined(String::wire(field_0, def_cfg()), after_field_0);
            },
            _ => {},
        }
    }

    /// What reading the variant `Scale` makes of `input`, after the
    /// discriminant.
    pub open spec fn parse_scale(input: Seq<u8>) -> Parsed<HudChangeView> {
        then(input, <[Single; 2]>::parse(def_cfg(), input), |field_0, input|
        done(HudChangeView::Scale(field_0), 0))
    }

    fn write_scale(&self, writer: &mut Vec<u8>, Ghost(base): Ghost<Seq<u8>>) -> (r: Result<
        (),
        SerializeError,
    >)
        requires
            self.deep_view() is Scale,
            base.is_prefix_of(old(writer)@),
        ensures
            r is Ok <==> Self::payload_fits(self.deep_view()),
            r is Ok ==> final(writer)@ == old(writer)@ + Self::payload_wire(self.deep_view()),
            r matches Err(e) ==> e@ == Self::payload_fault(self.deep_view()),
            base.is_prefix_of(final(writer)@),
    {
        match self {
            HudChange::Scale(field_0) => {
                write_part(field_0, def_cfg(), writer, Ghost(base))?;
                Ok(())
            },
            _ => vstd::pervasive::unreached(),
        }
    }

    fn read_scale(reader: &mut WrapRead) -> (r: Result<HudChange, DeserializeError>)
        ensures
            agrees(r, Self::parse_scale(old(reader)@)),
            Self::parse_scale(old(reader)@).used <= old(reader)@.len(),
            final(reader)@ == old(reader)@.skip(Self::parse_scale(old(reader)@).used as int),
    {
        let ghost input = reader@;
        let ghost used: nat = 0;
        assert(input.skip(0) == input);
        let ghost part0 = <[Single; 2]>::parse(def_cfg(), reader@);
        let field_0 = read_part::<[Single; 2]>(def_cfg(), reader, Ghost(input), Ghost(used))?;
        let ghost used = used + part0.used;
        Ok(HudChange::Scale(field_0))
    }

    proof fn lemma_scale(v: HudChangeView, rest: Seq<u8>)
        requires
            v is Scale,
            Self::payload_fits(v),
            Self::payload_sound(v, rest),
        ensures
            Self::parse_scale(Self::payload_wire(v) + rest) == done(v, Self::payload_wire(v).len()),
    {
        match v {
            HudChangeView::Scale(field_0) => {
                let after_field_0 = rest;
                <[Single; 2]>::lemma_round_trip(field_0, def_cfg(), after_field_0);
                lemma_skip_joined(<[Single; 2]>::wire(field_0, def_cfg()), after_field_0);
            },
            _ => {},
        }
    }

    /// What reading the variant `Text` makes of `input`, after the
    /// discriminant.
    pub open spec fn parse_text(input: Seq<u8>) -> Parsed<HudChangeView> {
        then(input, String::parse(def_cfg(), input), |field_0, input|
        done(HudChangeView::Text(field_0), 0))
    }

    fn write_text(&self, writer: &mut Vec<u8>, Ghost(base): Ghost<Seq<u8>>) -> (r: Result<
        (),
        SerializeError,
    >)
        requires
            self.deep_view() is Text,
            base.is_prefix_of(old(writer)@),
        ensures
            r is Ok <==> Self::payload_fits(self.deep_view()),
            r is Ok ==> final(writer)@ == old(writer)@ + Self::payload_wire(self.deep_view()),
            r matches Err(e) ==> e@ == Self::payload_fault(self.deep_view()),
            base.is_prefix_of(final(writer)@),
    {
        match self {
            HudChange::Text(field_0) => {
                write_part(field_0, def_cfg(), writer, Ghost(base))?;
                Ok(())
            },
            _ => vstd::pervasive::unreached(),
        }
    }

    fn read_text(reader: &mut WrapRead) -> (r: Result<HudChange, DeserializeError>)
        ensures
            agrees(r, Self::parse_text(old(reader)@)),
            Self::parse_text(old(reader)@).used <= old(reader)@.len(),
            final(reader)@ == old(reader)@.skip(Self::parse_text(old(reader)@).used as int),
    {
        let ghost input = reader@;
        let ghost used: nat = 0;
        assert(input.skip(0) == input);
        let ghost part0 = String::parse(def_cfg(), reader@);
        let field_0 = read_part::<String>(def_cfg(), reader, Ghost(input), Ghost(used))?;
        let ghost used = used + part0.used;
        Ok(HudChange::Text(field_0))
    }

    proof fn lemma_text(v: HudChangeView, rest: Seq<u8>)
        requires
            v is Text,
            Self::payload_fits(v),
            Self::payload_sound(v, rest),
        ensures
            Self::parse_text(Self::payload_wire(v) + rest) == done(v, Self::payload_wire(v).len()),
    {
        match v {
            HudChangeView::Text(field_0) => {
                let after_field_0 = rest;
                String::lemma_round_trip(field_0, def_cfg(), after_field_0);
                lemma_skip_joined(String::wire(field_0, def_cfg()), after_field_0);
            },
            _ => {},
        }
    }

    /// What reading the variant `Number` makes of `input`, after the
    /// discriminant.
    pub open spec fn parse_number(input: Seq<u8>) -> Parsed<HudChangeView> {
        then(input, u32::parse(def_cfg(), input), |field_0, input|
        done(HudChangeView::Number(field_0), 0))
    }

    fn write_number(&self, writer: &mut Vec<u8>, Ghost(base): Ghost<Seq<u8>>) -> (r: Result<
        (),
        SerializeError,
    >)
        requires
            self.deep_view() is Number,
            base.is_prefix_of(old(writer)@),
        ensures
            r is Ok <==> Self::payload_fits(self.deep_view()),
            r is Ok ==> final(writer)@ == old(writer)@ + Self::payload_wire(self.deep_view()),
            r matches Err(e) ==> e@ == Self::payload_fault(self.deep_view()),
            base.is_prefix_of(final(writer)@),
    {
        match self {
            HudChange::Number(field_0) => {
                write_part(field_0, def_cfg(), writer, Ghost(base))?;
                Ok(())
            },
            _ => vstd::pervasive::unreached(),
        }
    }

    fn read_number(reader: &mut WrapRead) -> (r: Result<HudChange, DeserializeError>)
        ensures
            agrees(r, Self::parse_number(old(reader)@)),
            Self::parse_number(old(reader)@).used <= old(reader)@.len(),
            final(reader)@ == old(reader)@.skip(Self::parse_number(old(reader)@).used as int),
    {
        let ghost input = reader@;
        let ghost used: nat = 0;
        assert(input.skip(0) == input);
        let ghost part0 = u32::parse(def_cfg(), reader@);
        let field_0 = read_part::<u32>(def_cfg(), reader, Ghost(input), Ghost(used))?;
        let ghost used = used + part0.used;
        Ok(HudChange::Number(field_0))
    }

    proof fn lemma_number(v: HudChangeView, rest: Seq<u8>)
        requires
            v is Number,
            Self::payload_fits(v),
            Self::payload_sound(v, rest),
        ensures
            Self::parse_number(Self::payload_wire(v) + rest) == done(
                v,
                Self::payload_wire(v).len(),
            ),
    {
        match v {
            HudChangeView::Number(field_0) => {
                let after_field_0 = rest;
                u32::lemma_round_trip(field_0, def_cfg(), after_field_0);
                lemma_skip_joined(u32::wire(field_0, def_cfg()), after_field_0);
            },
            _ => {},
        }
    }

    /// What reading the variant `Item` makes of `input`, after the
    /// discriminant.
    pub open spec fn parse_item(input: Seq<u8>) -> Parsed<HudChangeView> {
        then(input, u32::parse(def_cfg(), input), |field_0, input|
        done(HudChangeView::Item(field_0), 0))
    }

    fn write_item(&self, writer: &mut Vec<u8>, Ghost(base): Ghost<Seq<u8>>) -> (r: Result<
        (),
        SerializeError,
    >)
        requires
            self.deep_view() is Item,
            base.is_prefix_of(old(writer)@),
        ensures
            r is Ok <==> Self::payload_fits(self.deep_view()),
            r is Ok ==> final(writer)@ == old(writer)@ + Self::payload_wire(self.deep_view()),
            r matches Err(e) ==> e@ == Self::payload_fault(self.deep_view()),
            base.is_prefix_of(final(writer)@),
    {
        match self {
            HudChange::Item(field_0) => {
                write_part(field_0, def_cfg(), writer, Ghost(base))?;
                Ok(())
            },
            _ => vstd::pervasive::unreached(),
        }
    }

    fn read_item(reader: &mut WrapRead) -> (r: Result<HudChange, DeserializeError>)
        ensures
            agrees(r, Self::parse_item(old(reader)@)),
            Self::parse_item(old(reader)@).used <= old(reader)@.len(),
            final(reader)@ == old(reader)@.skip(Self::parse_item(old(reader)@).used as int),
    {
        let ghost input = reader@;
        let ghost used: nat = 0;
        assert(input.skip(0) == input);
        let ghost part0 = u32::parse(def_cfg(), reader@);
        let field_0 = read_part::<u32>(def_cfg(), reader, Ghost(input), Ghost(used))?;
        let ghost used = used + part0.used;
        Ok(HudChange::Item(field_0))
    }

    proof fn lemma_item(v: HudChangeView, rest: Seq<u8>)
        requires
            v is Item,
            Self::payload_fits(v),
            Self::payload_sound(v, rest),
        ensures
            Self::parse_item(Self::payload_wire(v) + rest) == done(v, Self::payload_wire(v).len()),
    {
        match v {
            HudChangeView::Item(field_0) => {
                let after_field_0 = rest;
                u32::lemma_round_trip(field_0, def_cfg(), after_field_0);
                lemma_skip_joined(u32::wire(field_0, def_cfg()), after_field_0);
            },
            _ => {},
        }
    }

    /// What reading the variant `Dir` makes of `input`, after the
    /// discriminant.
    pub open spec fn parse_dir(input: Seq<u8>) -> Parsed<HudChangeView> {
        then(input, u32::parse(def_cfg(), input), |field_0, input|
        done(HudChangeView::Dir(field_0), 0))
    }

    fn write_dir(&self, writer: &mut Vec<u8>, Ghost(base): Ghost<Seq<u8>>) -> (r: Result<
        (),
        SerializeError,
    >)
        requires
            self.deep_view() is Dir,
            base.is_prefix_of(old(writer)@),
        ensures
            r is Ok <==> Self::payload_fits(self.deep_view()),
            r is Ok ==> final(writer)@ == old(writer)@ + Self::payload_wire(self.deep_view()),
            r matches Err(e) ==> e@ == Self::payload_fault(self.deep_view()),
            base.is_prefix_of(final(writer)@),
    {
        match self {
            HudChange::Dir(field_0) => {
                write_part(field_0, def_cfg(), writer, Ghost(base))?;
                Ok(())
            },
            _ => vstd::pervasive::unreached(),
        }
    }

    fn read_dir(reader: &mut WrapRead) -> (r: Result<HudChange, DeserializeError>)
        ensures
            agrees(r, Self::parse_dir(old(reader)@)),
            Self::parse_dir(old(reader)@).used <= old(reader)@.len(),
            final(reader)@ == old(reader)@.skip(Self::parse_dir(old(reader)@).used as int),
    {
        let ghost input = reader@;
        let ghost used: nat = 0;
        assert(input.skip(0) == input);
        let ghost part0 = u32::parse(def_cfg(), reader@);
        let field_0 = read_part::<u32>(def_cfg(), reader, Ghost(input), Ghost(used))?;
        let ghost used = used + part0.used;
        Ok(HudChange::Dir(field_0))
    }

    proof fn lemma_dir(v: HudChangeView, rest: Seq<u8>)
        requires
            v is Dir,
            Self::payload_fits(v),
            Self::payload_sound(v, rest),
        ensures
            Self::parse_dir(Self::payload_wire(v) + rest) == done(v, Self::payload_wire(v).len()),
    {
        match v {
            HudChangeView::Dir(field_0) => {
                let after_field_0 = rest;
                u32::lemma_round_trip(field_0, def_cfg(), after_field_0);
                lemma_skip_joined(u32::wire(field_0, def_cfg()), after_field_0);
            },
            _ => {},
        }
    }

    /// What reading the variant `Align` makes of `input`, after the
    /// discriminant.
    pub open spec fn parse_align(input: Seq<u8>) -> Parsed<HudChangeView> {
        then(input, <[Single; 2]>::parse(def_cfg(), input), |field_0, input|
        done(HudChangeView::Align(field_0), 0))
    }

    fn write_align(&self, writer: &mut Vec<u8>, Ghost(base): Ghost<Seq<u8>>) -> (r: Result<
        (),
        SerializeError,
    >)
        requires
            self.deep_view() is Align,
            base.is_prefix_of(old(writer)@),
        ensures
            r is Ok <==> Self::payload_fits(self.deep_view()),
            r is Ok ==> final(writer)@ == old(writer)@ + Self::payload_wire(self.deep_view()),
            r matches Err(e) ==> e@ == Self::payload_fault(self.deep_view()),
            base.is_prefix_of(final(writer)@),
    {
        match self {
            HudChange::Align(field_0) => {
                write_part(field_0, def_cfg(), writer, Ghost(base))?;
                Ok(())
            },
            _ => vstd::pervasive::unreached(),
        }
    }

    fn read_align(reader: &mut WrapRead) -> (r: Result<HudChange, DeserializeError>)
        ensures
            agrees(r, Self::parse_align(old(reader)@)),
            Self::parse_align(old(reader)@).used <= old(reader)@.len(),
            final(reader)@ == old(reader)@.skip(Self::parse_align(old(reader)@).used as int),
    {
        let ghost input = reader@;
        let ghost used: nat = 0;
        assert(input.skip(0) == input);
        let ghost part0 = <[Single; 2]>::parse(def_cfg(), reader@);
        let field_0 = read_part::<[Single; 2]>(def_cfg(), reader, Ghost(input), Ghost(used))?;
        let ghost used = used + part0.used;
        Ok(HudChange::Align(field_0))
    }

    proof fn lemma_align(v: HudChangeView, rest: Seq<u8>)
        requires
            v is Align,
            Self::payload_fits(v),
            Self::payload_sound(v, rest),
        ensures
            Self::parse_align(Self::payload_wire(v) + rest) == done(v, Self::payload_wire(v).len()),
    {
        match v {
            HudChangeView::Align(field_0) => {
                let after_field_0 = rest;
                <[Single; 2]>::lemma_round_trip(field_0, def_cfg(), after_field_0);
                lemma_skip_joined(<[Single; 2]>::wire(field_0, def_cfg()), after_field_0);
            },
            _ => {},
        }
    }

    /// What reading the variant `Offset` makes of `input`, after the
    /// discriminant.
    pub open spec fn parse_offset(input: Seq<u8>) -> Parsed<HudChangeView> {
        then(input, <[Single; 2]>::parse(def_cfg(), input), |field_0, input|
        done(HudChangeView::Offset(field_0), 0))
    }

    fn write_offset(&self, writer: &mut Vec<u8>, Ghost(base): Ghost<Seq<u8>>) -> (r: Result<
        (),
        SerializeError,
    >)
        requires
            self.deep_view() is Offset,
            base.is_prefix_of(old(writer)@),
        ensures
            r is Ok <==> Self::payload_fits(self.deep_view()),
            r is Ok ==> final(writer)@ == old(writer)@ + Self::payload_wire(self.deep_view()),
            r matches Err(e) ==> e@ == Self::payload_fault(self.deep_view()),
            base.is_prefix_of(final(writer)@),
    {
        match self {
            HudChange::Offset(field_0) => {
                write_part(field_0, def_cfg(), writer, Ghost(base))?;
                Ok(())
            },
            _ => vstd::pervasive::unreached(),
        }
    }

    fn read_offset(reader: &mut WrapRead) -> (r: Result<HudChange, DeserializeError>)
        ensures
            agrees(r, Self::parse_offset(old(reader)@)),
            Self::parse_offset(old(reader)@).used <= old(reader)@.len(),
            final(reader)@ == old(reader)@.skip(Self::parse_offset(old(reader)@).used as int),
    {
        let ghost input = reader@;
        let ghost used: nat = 0;
        assert(input.skip(0) == input);
        let ghost part0 = <[Single; 2]>::parse(def_cfg(), reader@);
        let field_0 = read_part::<[Single; 2]>(def_cfg(), reader, Ghost(input), Ghost(used))?;
        let ghost used = used + part0.used;
        Ok(HudChange::Offset(field_0))
    }

    proof fn lemma_offset(v: HudChangeView, rest: Seq<u8>)
        requires
            v is Offset,
            Self::payload_fits(v),
            Self::payload_sound(v, rest),
        ensures
            Self::parse_offset(Self::payload_wire(v) + rest) == done(
                v,
                Self::payload_wire(v).len(),
            ),
    {
        match v {
            HudChangeView::Offset(field_0) => {
                let after_field_0 = rest;
                <[Single; 2]>::lemma_round_trip(field_0, def_cfg(), after_field_0);
                lemma_skip_joined(<[Single; 2]>::wire(field_0, def_cfg()), after_field_0);
            },
            _ => {},
        }
    }

    /// What reading the variant `WorldPos` makes of `input`, after the
    /// discriminant.
    pub open spec fn parse_world_pos(input: Seq<u8>) -> Parsed<HudChangeView> {
        then(input, <[Single; 3]>::parse(def_cfg(), input), |field_0, input|
        done(HudChangeView::WorldPos(field_0), 0))
    }

    fn write_world_pos(&self, writer: &mut Vec<u8>, Ghost(base): Ghost<Seq<u8>>) -> (r: Result<
        (),
        SerializeError,
    >)
        requires
            self.deep_view() is WorldPos,
            base.is_prefix_of(old(writer)@),
        ensures
            r is Ok <==> Self::payload_fits(self.deep_view()),
            r is Ok ==> final(writer)@ == old(writer)@ + Self::payload_wire(self.deep_view()),
            r matches Err(e) ==> e@ == Self::payload_fault(self.deep_view()),
            base.is_prefix_of(final(writer)@),
    {
        match self {
            HudChange::WorldPos(field_0) => {
                write_part(field_0, def_cfg(), writer, Ghost(base))?;
                Ok(())
            },
            _ => vstd::pervasive::unreached(),
        }
    }

    fn read_world_pos(reader: &mut WrapRead) -> (r: Result<HudChange, DeserializeError>)
        ensures
            agrees(r, Self::parse_world_pos(old(reader)@)),
            Self::parse_world_pos(old(reader)@).used <= old(reader)@.len(),
            final(reader)@ == old(reader)@.skip(Self::parse_world_pos(old(reader)@).used as int),
    {
        let ghost input = reader@;
        let ghost used: nat = 0;
        assert(input.skip(0) == input);
        let ghost part0 = <[Single; 3]>::parse(def_cfg(), reader@);
        let field_0 = read_part::<[Single; 3]>(def_cfg(), reader, Ghost(input), Ghost(used))?;
        let ghost used = used + part0.used;
        Ok(HudChange::WorldPos(field_0))
    }

    proof fn lemma_world_pos(v: HudChangeView, rest: Seq<u8>)
        requires
            v is WorldPos,
            Self::payload_fits(v),
            Self::payload_sound(v, rest),
        ensures
            Self::parse_world_pos(Self::payload_wire(v) + rest) == done(
                v,
                Self::payload_wire(v).len(),
            ),
    {
        match v {
            HudChangeView::WorldPos(field_0) => {
                let after_field_0 = rest;
                <[Single; 3]>::lemma_round_trip(field_0, def_cfg(), after_field_0);
                lemma_skip_joined(<[Single; 3]>::wire(field_0, def_cfg()), after_field_0);
            },
            _ => {},
        }
    }

    /// What reading the variant `ZIndex` makes of `input`, after the
    /// discriminant.
    pub open spec fn parse_zindex(input: Seq<u8>) -> Parsed<HudChangeView> {
        then(input, i32::parse(def_cfg(), input), |field_0, input|
        done(HudChangeView::ZIndex(field_0), 0))
    }

    fn write_zindex(&self, writer: &mut Vec<u8>, Ghost(base): Ghost<Seq<u8>>) -> (r: Result<
        (),
        SerializeError,
    >)
        requires
            self.deep_view() is ZIndex,
            base.is_prefix_of(old(writer)@),
        ensures
            r is Ok <==> Self::payload_fits(self.deep_view()),
            r is Ok ==> final(writer)@ == old(writer)@ + Self::payload_wire(self.deep_view()),
            r matches Err(e) ==> e@ == Self::payload_fault(self.deep_view()),
            base.is_prefix_of(final(writer)@),
    {
        match self {
            HudChange::ZIndex(field_0) => {
                write_part(field_0, def_cfg(), writer, Ghost(base))?;
                Ok(())
            },
            _ => vstd::pervasive::unreached(),
        }
    }

    fn read_zindex(reader: &mut WrapRead) -> (r: Result<HudChange, DeserializeError>)
        ensures
            agrees(r, Self::parse_zindex(old(reader)@)),
            Self::parse_zindex(old(reader)@).used <= old(reader)@.len(),
            final(reader)@ == old(reader)@.skip(Self::parse_zindex(old(reader)@).used as int),
    {
        let ghost input = reader@;
        let ghost used: nat = 0;
        assert(input.skip(0) == input);
        let ghost part0 = i32::parse(def_cfg(), reader@);
        let field_0 = read_part::<i32>(def_cfg(), reader, Ghost(input), Ghost(used))?;
        let ghost used = used + part0.used;
        Ok(HudChange::ZIndex(field_0))
    }

    proof fn lemma_zindex(v: HudChangeView, rest: Seq<u8>)
        requires
            v is ZIndex,
            Self::payload_fits(v),
            Self::payload_sound(v, rest),
        ensures
            Self::parse_zindex(Self::payload_wire(v) + rest) == done(
                v,
                Self::payload_wire(v).len(),
            ),
    {
        match v {
            HudChangeView::ZIndex(field_0) => {
                let after_field_0 = rest;
                i32::lemma_round_trip(field_0, def_cfg(), after_field_0);
                lemma_skip_joined(i32::wire(field_0, def_cfg()), after_field_0);
            },
            _ => {},
        }
    }

    /// What reading the variant `Text2` makes of `input`, after the
    /// discriminant.
    pub open spec fn parse_text2(input: Seq<u8>) -> Parsed<HudChangeView> {
        then(input, String::parse(def_cfg(), input), |field_0, input|
        done(HudChangeView::Text2(field_0), 0))
    }

    fn write_text2(&self, writer: &mut Vec<u8>, Ghost(base): Ghost<Seq<u8>>) -> (r: Result<
        (),
        SerializeError,
    >)
        requires
            self.deep_view() is Text2,
            base.is_prefix_of(old(writer)@),
        ensures
            r is Ok <==> Self::payload_fits(self.deep_view()),
            r is Ok ==> final(writer)@ == old(writer)@ + Self::payload_wire(self.deep_view()),
            r matches Err(e) ==> e@ == Self::payload_fault(self.deep_view()),
            base.is_prefix_of(final(writer)@),
    {
        match self {
            HudChange::Text2(field_0) => {
                write_part(field_0, def_cfg(), writer, Ghost(base))?;
                Ok(())
            },
            _ => vstd::pervasive::unreached(),
        }
    }

    fn read_text2(reader: &mut WrapRead) -> (r: Result<HudChange, DeserializeError>)
        ensures
            agrees(r, Self::parse_text2(old(reader)@)),
            Self::parse_text2(old(reader)@).used <= old(reader)@.len(),
            final(reader)@ == old(reader)@.skip(Self::parse_text2(old(reader)@).used as int),
    {
        let ghost input = reader@;
        let ghost used: nat = 0;
        assert(input.skip(0) == input);
        let ghost part0 = String::parse(def_cfg(), reader@);
        let field_0 = read_part::<String>(def_cfg(), reader, Ghost(input), Ghost(used))?;
        let ghost used = used + part0.used;
        Ok(HudChange::Text2(field_0))
    }

    proof fn lemma_text2(v: HudChangeView, rest: Seq<u8>)
        requires
            v is Text2,
            Self::payload_fits(v),
            Self::payload_sound(v, rest),
        ensures
            Self::parse_text2(Self::payload_wire(v) + rest) == done(v, Self::payload_wire(v).len()),
    {
        match v {
            HudChangeView::Text2(field_0) => {
                let after_field_0 = rest;
                String::lemma_round_trip(field_0, def_cfg(), after_field_0);
                lemma_skip_joined(String::wire(field_0, def_cfg()), after_field_0);
            },
            _ => {},
        }
    }

    /// What reading the variant `Style` makes of `input`, after the
    /// discriminant.
    pub open spec fn parse_style(input: Seq<u8>) -> Parsed<HudChangeView> {
        then(input, EnumSet::<HudStyleFlag>::parse(def_cfg(), input), |field_0, input|
        done(HudChangeView::Style(field_0), 0))
    }

    fn write_style(&self, writer: &mut Vec<u8>, Ghost(base): Ghost<Seq<u8>>) -> (r: Result<
        (),
        SerializeError,
    >)
        requires
            self.deep_view() is Style,
            base.is_prefix_of(old(writer)@),
        ensures
            r is Ok <==> Self::payload_fits(self.deep_view()),
            r is Ok ==> final(writer)@ == old(writer)@ + Self::payload_wire(self.deep_view()),
            r matches Err(e) ==> e@ == Self::payload_fault(self.deep_view()),
            base.is_prefix_of(final(writer)@),
    {
        match self {
            HudChange::Style(field_0) => {
                write_part(field_0, def_cfg(), writer, Ghost(base))?;
                Ok(())
            },
            _ => vstd::pervasive::unreached(),
        }
    }

    fn read_style(reader: &mut WrapRead) -> (r: Result<HudChange, DeserializeError>)
        ensures
            agrees(r, Self::parse_style(old(reader)@)),
            Self::parse_style(old(reader)@).used <= old(reader)@.len(),
            final(reader)@ == old(reader)@.skip(Self::parse_style(old(reader)@).used as int),
    {
        let ghost input = reader@;
        let ghost used: nat = 0;
        assert(input.skip(0) == input);
        let ghost part0 = EnumSet::<HudStyleFlag>::parse(def_cfg(), reader@);
        let field_0 = read_part::<EnumSet<HudStyleFlag>>(
            def_cfg(),
            reader,
            Ghost(input),
            Ghost(used),
        )?;
        let ghost used = used + part0.used;
        Ok(HudChange::Style(field_0))
    }

    proof fn lemma_style(v: HudChangeView, rest: Seq<u8>)
        requires
            v is Style,
            Self::payload_fits(v),
            Self::payload_sound(v, rest),
        ensures
            Self::parse_style(Self::payload_wire(v) + rest) == done(v, Self::payload_wire(v).len()),
    {
        match v {
            HudChangeView::Style(field_0) => {
                let after_field_0 = rest;
                EnumSet::<HudStyleFlag>::lemma_round_trip(field_0, def_cfg(), after_field_0);
                lemma_skip_joined(EnumSet::<HudStyleFlag>::wire(field_0, def_cfg()), after_field_0);
            },
            _ => {},
        }
    }

    /// Whether some variant has the discriminant `d`.
    pub open spec fn known(d: u8) -> bool {
        d == 0 || d == 1 || d == 2 || d == 3 || d == 4 || d == 5 || d == 6 || d == 7 || d == 8
        || d == 9 || d == 10 || d == 11 || d == 12
    }

    /// What reading the variant with the discriminant `d` makes of `input`,
    /// after the discriminant. A discriminant that no variant has is the
    /// fault `InvalidEnum`.
    pub open spec fn payload_parse(d: u8, input: Seq<u8>) -> Parsed<HudChangeView> {
        if d == 0 {
            Self::parse_pos(input)
        } else if d == 1 {
            Self::parse_name(input)
        } else if d == 2 {
            Self::parse_scale(input)
        } else if d == 3 {
            Self::parse_text(input)
        } else if d == 4 {
            Self::parse_number(input)
        } else if d == 5 {
            Self::parse_item(input)
        } else if d == 6 {
            Self::parse_dir(input)
        } else if d == 7 {
            Self::parse_align(input)
        } else if d == 8 {
            Self::parse_offset(input)
        } else if d == 9 {
            Self::parse_world_pos(input)
        } else if d == 10 {
            Self::parse_zindex(input)
        } else if d == 11 {
            Self::parse_text2(input)
        } else if d == 12 {
            Self::parse_style(input)
        } else {
            failed(ReadFault::InvalidEnum("HudChange"@, RawView::U8(d)), 0)
        }
    }

    /// A discriminant that no variant has is refused, and the fault carries
    /// it.
    pub proof fn lemma_unknown(d: u8, rest: Seq<u8>)
        requires
            !Self::known(d),
        ensures
            <HudChange as MtDeserialize>::parse(
                spec_def_cfg(),
                be_bytes(d as nat, 1) + rest,
            ) == failed::<HudChangeView>(
                ReadFault::InvalidEnum("HudChange"@, RawView::U8(d)),
                1,
            ),
    {
        lemma_radix();
        lemma_uint_round_trip(d as nat, 1, rest);
    }
}

impl MtSerialize for HudChange {
    open spec fn fits(v: HudChangeView, cfg: MtCfg) -> bool {
        Self::payload_fits(v)
    }

    /// The discriminant, then what the variant holds.
    open spec fn wire(v: HudChangeView, cfg: MtCfg) -> Seq<u8> {
        be_bytes(Self::tag(v) as nat, 1) + Self::payload_wire(v)
    }

    open spec fn fault(v: HudChangeView, cfg: MtCfg) -> WriteFault {
        Self::payload_fault(v)
    }

    fn mt_serialize(&self, cfg: MtCfg, writer: &mut Vec<u8>) -> (r: Result<(), SerializeError>) {
        proof {
            lemma_radix();
        }
        let ghost base = writer@;
        let ghost head = be_bytes(Self::tag(self.deep_view()) as nat, 1);
        let tag: u8 = match self {
            HudChange::Pos(..) => 0,
            HudChange::Name(..) => 1,
            HudChange::Scale(..) => 2,
            HudChange::Text(..) => 3,
            HudChange::Number(..) => 4,
            HudChange::Item(..) => 5,
            HudChange::Dir(..) => 6,
            HudChange::Align(..) => 7,
            HudChange::Offset(..) => 8,
            HudChange::WorldPos(..) => 9,
            HudChange::ZIndex(..) => 10,
            HudChange::Text2(..) => 11,
            HudChange::Style(..) => 12,
        };
        write_discr(LenWidth::W8, tag as u64, writer);
        assert(base.is_prefix_of(writer@));
        proof {
            lemma_join_assoc(base, head, Self::payload_wire(self.deep_view()));
        }
        match self {
            HudChange::Pos(..) => self.write_pos(writer, Ghost(base)),
            HudChange::Name(..) => self.write_name(writer, Ghost(base)),
            HudChange::Scale(..) => self.write_scale(writer, Ghost(base)),
            HudChange::Text(..) => self.write_text(writer, Ghost(base)),
            HudChange::Number(..) => self.write_number(writer, Ghost(base)),
            HudChange::Item(..) => self.write_item(writer, Ghost(base)),
            HudChange::Dir(..) => self.write_dir(writer, Ghost(base)),
            HudChange::Align(..) => self.write_align(writer, Ghost(base)),
            HudChange::Offset(..) => self.write_offset(writer, Ghost(base)),
            HudChange::WorldPos(..) => self.write_world_pos(writer, Ghost(base)),
            HudChange::ZIndex(..) => self.write_zindex(writer, Ghost(base)),
            HudChange::Text2(..) => self.write_text2(writer, Ghost(base)),
            HudChange::Style(..) => self.write_style(writer, Ghost(base)),
        }
    }
}

impl MtDeserialize for HudChange {
    open spec fn parse(cfg: MtCfg, input: Seq<u8>) -> Parsed<HudChangeView> {
        let (tag, used) = parse_uint(input, 1);
        match tag {
            None => failed(ReadFault::UnexpectedEof, used),
            Some(d) => shift(used, Self::payload_parse(d as u8, input.skip(used as int))),
        }
    }

    fn mt_deserialize(cfg: MtCfg, reader: &mut WrapRead) -> (r: Result<
        HudChange,
        DeserializeError,
    >) {
        proof {
            lemma_radix();
        }
        let ghost input = reader@;
        let ghost used = parse_uint(input, 1).1;
        let d = read_discr(LenWidth::W8, reader)?;
        let ghost p = Self::payload_parse(d as u8, input.skip(used as int));
        assert(input.skip(used as int).skip(0) == input.skip(used as int));
        let r = match d {
            0 => Self::read_pos(reader),
            1 => Self::read_name(reader),
            2 => Self::read_scale(reader),
            3 => Self::read_text(reader),
            4 => Self::read_number(reader),
            5 => Self::read_item(reader),
            6 => Self::read_dir(reader),
            7 => Self::read_align(reader),
            8 => Self::read_offset(reader),
            9 => Self::read_world_pos(reader),
            10 => Self::read_zindex(reader),
            11 => Self::read_text2(reader),
            12 => Self::read_style(reader),
            _ => Err(invalid_enum("HudChange", LenWidth::W8, d)),
        };
        proof {
            lemma_skip_twice(input, used, p.used);
        }
        r
    }
}

impl MtRoundTrip for HudChange {
    open spec fn sound(v: HudChangeView, cfg: MtCfg, rest: Seq<u8>) -> bool {
        Self::payload_sound(v, rest)
    }

    proof fn lemma_round_trip(v: HudChangeView, cfg: MtCfg, rest: Seq<u8>) {
        let head = be_bytes(Self::tag(v) as nat, 1);
        let follow = Self::payload_wire(v) + rest;
        lemma_radix();
        lemma_uint_round_trip(Self::tag(v) as nat, 1, follow);
        lemma_join_assoc(head, Self::payload_wire(v), rest);
        lemma_skip_joined(head, follow);
        match v {
            HudChangeView::Pos(..) => Self::lemma_pos(v, rest),
            HudChangeView::Name(..) => Self::lemma_name(v, rest),
            HudChangeView::Scale(..) => Self::lemma_scale(v, rest),
            HudChangeView::Text(..) => Self::lemma_text(v, rest),
            HudChangeView::Number(..) => Self::lemma_number(v, rest),
            HudChangeView::Item(..) => Self::lemma_item(v, rest),
            HudChangeView::Dir(..) => Self::lemma_dir(v, rest),
            HudChangeView::Align(..) => Self::lemma_align(v, rest),
            HudChangeView::Offset(..) => Self::lemma_offset(v, rest),
            HudChangeView::WorldPos(..) => Self::lemma_world_pos(v, rest),
            HudChangeView::ZIndex(..) => Self::lemma_zindex(v, rest),
            HudChangeView::Text2(..) => Self::lemma_text2(v, rest),
            HudChangeView::Style(..) => Self::lemma_style(v, rest),
        }
    }
}

/// An element of the HUD.
#[derive(Clone, Debug, PartialEq)]
pub struct HudElement {
    pub hud_type: HudType,
    pub pos: [Single; 2],
    pub name: String,
    pub scale: [Single; 2],
    pub text: String,
    pub number: u32,
    pub item: u32,
    pub dir: u32,
    pub align: [Single; 2],
    pub offset: [Single; 2],
    pub world_pos: [Single; 3],
    pub z_index: i32,
    pub text_2: String,
    pub style: EnumSet<HudStyleFlag>,
}

/// The mathematical value of a [`HudElement`].
pub ghost struct HudElementView {
    pub hud_type: HudType,
    pub pos: Seq<Single>,
    pub name: Seq<char>,
    pub scale: Seq<Single>,
    pub text: Seq<char>,
    pub number: u32,
    pub item: u32,
    pub dir: u32,
    pub align: Seq<Single>,
    pub offset: Seq<Single>,
    pub world_pos: Seq<Single>,
    pub z_index: i32,
    pub text_2: Seq<char>,
    pub style: u64,
}

impl DeepView for HudElement {
    type V = HudElementView;

    open spec fn deep_view(&self) -> HudElementView {
        HudElementView {
            hud_type: self.hud_type.deep_view(),
            pos: self.pos.deep_view(),
            name: self.name.deep_view(),
            scale: self.scale.deep_view(),
            text: self.text.deep_view(),
            number: self.number.deep_view(),
            item: self.item.deep_view(),
            dir: self.dir.deep_view(),
            align: self.align.deep_view(),
            offset: self.offset.deep_view(),
            world_pos: self.world_pos.deep_view(),
            z_index: self.z_index.deep_view(),
            text_2: self.text_2.deep_view(),
            style: self.style.deep_view(),
        }
    }
}

impl MtSerialize for HudElement {
    open spec fn fits(v: HudElementView, cfg: MtCfg) -> bool {
        &&& HudType::fits(v.hud_type, def_cfg())
        &&& <[Single; 2]>::fits(v.pos, def_cfg())
        &&& String::fits(v.name, def_cfg())
        &&& <[Single; 2]>::fits(v.scale, def_cfg())
        &&& String::fits(v.text, def_cfg())
        &&& u32::fits(v.number, def_cfg())
        &&& u32::fits(v.item, def_cfg())
        &&& u32::fits(v.dir, def_cfg())
        &&& <[Single; 2]>::fits(v.align, def_cfg())
        &&& <[Single; 2]>::fits(v.offset, def_cfg())
        &&& <[Single; 3]>::fits(v.world_pos, def_cfg())
        &&& i32::fits(v.z_index, def_cfg())
        &&& String::fits(v.text_2, def_cfg())
        &&& EnumSet::<HudStyleFlag>::fits(v.style, def_cfg())
    }

    open spec fn wire(v: HudElementView, cfg: MtCfg) -> Seq<u8> {
        HudType::wire(v.hud_type, def_cfg())
            + <[Single; 2]>::wire(v.pos, def_cfg())
            + String::wire(v.name, def_cfg())
            + <[Single; 2]>::wire(v.scale, def_cfg())
            + String::wire(v.text, def_cfg())
            + u32::wire(v.number, def_cfg())
            + u32::wire(v.item, def_cfg())
            + u32::wire(v.dir, def_cfg())
            + <[Single; 2]>::wire(v.align, def_cfg())
            + <[Single; 2]>::wire(v.offset, def_cfg())
            + <[Single; 3]>::wire(v.world_pos, def_cfg())
            + i32::wire(v.z_index, def_cfg())
            + String::wire(v.text_2, def_cfg())
            + EnumSet::<HudStyleFlag>::wire(v.style, def_cfg())
    }

    /// The fault of the first field that does not fit.
    open spec fn fault(v: HudElementView, cfg: MtCfg) -> WriteFault {
        if !HudType::fits(v.hud_type, def_cfg()) {
            HudType::fault(v.hud_type, def_cfg())
        } else if !<[Single; 2]>::fits(v.pos, def_cfg()) {
            <[Single; 2]>::fault(v.pos, def_cfg())
        } else if !String::fits(v.name, def_cfg()) {
            String::fault(v.name, def_cfg())
        } else if !<[Single; 2]>::fits(v.scale, def_cfg()) {
            <[Single; 2]>::fault(v.scale, def_cfg())
        } else if !String::fits(v.text, def_cfg()) {
            String::fault(v.text, def_cfg())
        } else if !u32::fits(v.number, def_cfg()) {
            u32::fault(v.number, def_cfg())
        } else if !u32::fits(v.item, def_cfg()) {
            u32::fault(v.item, def_cfg())
        } else if !u32::fits(v.dir, def_cfg()) {
            u32::fault(v.dir, def_cfg())
        } else if !<[Single; 2]>::fits(v.align, def_cfg()) {
            <[Single; 2]>::fault(v.align, def_cfg())
        } else if !<[Single; 2]>::fits(v.offset, def_cfg()) {
            <[Single; 2]>::fault(v.offset, def_cfg())
        } else if !<[Single; 3]>::fits(v.world_pos, def_cfg()) {
            <[Single; 3]>::fault(v.world_pos, def_cfg())
        } else if !i32::fits(v.z_index, def_cfg()) {
            i32::fault(v.z_index, def_cfg())
        } else if !String::fits(v.text_2, def_cfg()) {
            String::fault(v.text_2, def_cfg())
        } else {
            EnumSet::<HudStyleFlag>::fault(v.style, def_cfg())
        }
    }

    fn mt_serialize(&self, cfg: MtCfg, writer: &mut Vec<u8>) -> (r: Result<(), SerializeError>) {
        let ghost base = writer@;
        write_part(&self.hud_type, def_cfg(), writer, Ghost(base))?;
        let ghost written = HudType::wire(self.hud_type.deep_view(), def_cfg());
        write_part(&self.pos, def_cfg(), writer, Ghost(base))?;
        proof {
            lemma_join_assoc(base, written, <[Single; 2]>::wire(self.pos.deep_view(), def_cfg()));
        }
        let ghost written = written + <[Single; 2]>::wire(self.pos.deep_view(), def_cfg());
        write_part(&self.name, def_cfg(), writer, Ghost(base))?;
        proof {
            lemma_join_assoc(base, written, String::wire(self.name.deep_view(), def_cfg()));
        }
        let ghost written = written + String::wire(self.name.deep_view(), def_cfg());
        write_part(&self.scale, def_cfg(), writer, Ghost(base))?;
        proof {
            lemma_join_assoc(base, written, <[Single; 2]>::wire(self.scale.deep_view(), def_cfg()));
        }
        let ghost written = written + <[Single; 2]>::wire(self.scale.deep_view(), def_cfg());
        write_part(&self.text, def_cfg(), writer, Ghost(base))?;
        proof {
            lemma_join_assoc(base, written, String::wire(self.text.deep_view(), def_cfg()));
        }
        let ghost written = written + String::wire(self.text.deep_view(), def_cfg());
        write_part(&self.number, def_cfg(), writer, Ghost(base))?;
        proof {
            lemma_join_assoc(base, written, u32::wire(self.number.deep_view(), def_cfg()));
        }
        let ghost written = written + u32::wire(self.number.deep_view(), def_cfg());
        write_part(&self.item, def_cfg(), writer, Ghost(base))?;
        proof {
            lemma_join_assoc(base, written, u32::wire(self.item.deep_view(), def_cfg()));
        }
        let ghost written = written + u32::wire(self.item.deep_view(), def_cfg());
        write_part(&self.dir, def_cfg(), writer, Ghost(base))?;
        proof {
            lemma_join_assoc(base, written, u32::wire(self.dir.deep_view(), def_cfg()));
        }
        let ghost written = written + u32::wire(self.dir.deep_view(), def_cfg());
        write_part(&self.align, def_cfg(), writer, Ghost(base))?;
        proof {
            lemma_join_assoc(base, written, <[Single; 2]>::wire(self.align.deep_view(), def_cfg()));
        }
        let ghost written = written + <[Single; 2]>::wire(self.align.deep_view(), def_cfg());
        write_part(&self.offset, def_cfg(), writer, Ghost(base))?;
        proof {
            lemma_join_assoc(
                base,
                written,
                <[Single; 2]>::wire(self.offset.deep_view(), def_cfg()),
            );
        }
        let ghost written = written + <[Single; 2]>::wire(self.offset.deep_view(), def_cfg());
        write_part(&self.world_pos, def_cfg(), writer, Ghost(base))?;
        proof {
            lemma_join_assoc(
                base,
                written,
                <[Single; 3]>::wire(self.world_pos.deep_view(), def_cfg()),
            );
        }
        let ghost written = written + <[Single; 3]>::wire(self.world_pos.deep_view(), def_cfg());
        write_part(&self.z_index, def_cfg(), writer, Ghost(base))?;
        proof {
            lemma_join_assoc(base, written, i32::wire(self.z_index.deep_view(), def_cfg()));
        }
        let ghost written = written + i32::wire(self.z_index.deep_view(), def_cfg());
        write_part(&self.text_2, def_cfg(), writer, Ghost(base))?;
        proof {
            lemma_join_assoc(base, written, String::wire(self.text_2.deep_view(), def_cfg()));
        }
        let ghost written = written + String::wire(self.text_2.deep_view(), def_cfg());
        write_part(&self.style, def_cfg(), writer, Ghost(base))?;
        proof {
            lemma_join_assoc(
                base,
                written,
                EnumSet::<HudStyleFlag>::wire(self.style.deep_view(), def_cfg()),
            );
        }
        Ok(())
    }
}

impl HudElement {
    /// What reading the later fields makes of `input`, the earlier ones being read.
    pub open spec fn parse_rest(
        hud_type: HudType,
        pos: Seq<Single>,
        name: Seq<char>,
        scale: Seq<Single>,
        text: Seq<char>,
        number: u32,
        item: u32,
        input: Seq<u8>,
    ) -> Parsed<HudElementView> {
        then(input, u32::parse(def_cfg(), input), |dir, input|
        then(input, <[Single; 2]>::parse(def_cfg(), input), |align, input|
        then(input, <[Single; 2]>::parse(def_cfg(), input), |offset, input|
        then(input, <[Single; 3]>::parse(def_cfg(), input), |world_pos, input|
        then(input, i32::parse(def_cfg(), input), |z_index, input|
        then(input, String::parse(def_cfg(), input), |text_2, input|
        then(input, EnumSet::<HudStyleFlag>::parse(def_cfg(), input), |style, input|
        done(
            HudElementView {
                hud_type,
                pos,
                name,
                scale,
                text,
                number,
                item,
                dir,
                align,
                offset,
                world_pos,
                z_index,
                text_2,
                style,
            },
            0,
        ))))))))
    }

    /// Reads the later fields.
    fn read_rest(
        hud_type: HudType,
        pos: [Single; 2],
        name: String,
        scale: [Single; 2],
        text: String,
        number: u32,
        item: u32,
        reader: &mut WrapRead,
    ) -> (r: Result<HudElement, DeserializeError>)
        ensures
            agrees(
                r,
                Self::parse_rest(
                    hud_type.deep_view(),
                    pos.deep_view(),
                    name.deep_view(),
                    scale.deep_view(),
                    text.deep_view(),
                    number.deep_view(),
                    item.deep_view(),
                    old(reader)@,
                ),
            ),
            Self::parse_rest(
                hud_type.deep_view(),
                pos.deep_view(),
                name.deep_view(),
                scale.deep_view(),
                text.deep_view(),
                number.deep_view(),
                item.deep_view(),
                old(reader)@,
            ).used <= old(reader)@.len(),
            final(reader)@ == old(reader)@.skip(
                Self::parse_rest(
                    hud_type.deep_view(),
                    pos.deep_view(),
                    name.deep_view(),
                    scale.deep_view(),
                    text.deep_view(),
                    number.deep_view(),
                    item.deep_view(),
                    old(reader)@,
                ).used as int,
            ),
    {
        let ghost input = reader@;
        let ghost used: nat = 0;
        assert(input.skip(0) == input);
        let ghost part0 = u32::parse(def_cfg(), reader@);
        let dir = read_part::<u32>(def_cfg(), reader, Ghost(input), Ghost(used))?;
        let ghost used = used + part0.used;
        let ghost part1 = <[Single; 2]>::parse(def_cfg(), reader@);
        let align = read_part::<[Single; 2]>(def_cfg(), reader, Ghost(input), Ghost(used))?;
        let ghost used = used + part1.used;
        let ghost part2 = <[Single; 2]>::parse(def_cfg(), reader@);
        let offset = read_part::<[Single; 2]>(def_cfg(), reader, Ghost(input), Ghost(used))?;
        let ghost used = used + part2.used;
        let ghost part3 = <[Single; 3]>::parse(def_cfg(), reader@);
        let world_pos = read_part::<[Single; 3]>(def_cfg(), reader, Ghost(input), Ghost(used))?;
        let ghost used = used + part3.used;
        let ghost part4 = i32::parse(def_cfg(), reader@);
        let z_index = read_part::<i32>(def_cfg(), reader, Ghost(input), Ghost(used))?;
        let ghost used = used + part4.used;
        let ghost part5 = String::parse(def_cfg(), reader@);
        let text_2 = read_part::<String>(def_cfg(), reader, Ghost(input), Ghost(used))?;
        let ghost used = used + part5.used;
        let ghost part6 = EnumSet::<HudStyleFlag>::parse(def_cfg(), reader@);
        let style = read_part::<EnumSet<HudStyleFlag>>(
            def_cfg(),
            reader,
            Ghost(input),
            Ghost(used),
        )?;
        let ghost used = used + part6.used;
        Ok(
            HudElement {
                hud_type,
                pos,
                name,
                scale,
                text,
                number,
                item,
                dir,
                align,
                offset,
                world_pos,
                z_index,
                text_2,
                style,
            },
        )
    }
}

impl MtDeserialize for HudElement {
    open spec fn parse(cfg: MtCfg, input: Seq<u8>) -> Parsed<HudElementView> {
        then(input, HudType::parse(def_cfg(), input), |hud_type, input|
        then(input, <[Single; 2]>::parse(def_cfg(), input), |pos, input|
        then(input, String::parse(def_cfg(), input), |name, input|
        then(input, <[Single; 2]>::parse(def_cfg(), input), |scale, input|
        then(input, String::parse(def_cfg(), input), |text, input|
        then(input, u32::parse(def_cfg(), input), |number, input|
        then(input, u32::parse(def_cfg(), input), |item, input|
        Self::parse_rest(hud_type, pos, name, scale, text, number, item, input))))))))
    }

    fn mt_deserialize(cfg: MtCfg, reader: &mut WrapRead) -> (r: Result<
        HudElement,
        DeserializeError,
    >) {
        let ghost input = reader@;
        let ghost used: nat = 0;
        assert(input.skip(0) == input);
        let ghost part0 = HudType::parse(def_cfg(), reader@);
        let hud_type = read_part::<HudType>(def_cfg(), reader, Ghost(input), Ghost(used))?;
        let ghost used = used + part0.used;
        let ghost part1 = <[Single; 2]>::parse(def_cfg(), reader@);
        let pos = read_part::<[Single; 2]>(def_cfg(), reader, Ghost(input), Ghost(used))?;
        let ghost used = used + part1.used;
        let ghost part2 = String::parse(def_cfg(), reader@);
        let name = read_part::<String>(def_cfg(), reader, Ghost(input), Ghost(used))?;
        let ghost used = used + part2.used;
        let ghost part3 = <[Single; 2]>::parse(def_cfg(), reader@);
        let scale = read_part::<[Single; 2]>(def_cfg(), reader, Ghost(input), Ghost(used))?;
        let ghost used = used + part3.used;
        let ghost part4 = String::parse(def_cfg(), reader@);
        let text = read_part::<String>(def_cfg(), reader, Ghost(input), Ghost(used))?;
        let ghost used = used + part4.used;
        let ghost part5 = u32::parse(def_cfg(), reader@);
        let number = read_part::<u32>(def_cfg(), reader, Ghost(input), Ghost(used))?;
        let ghost used = used + part5.used;
        let ghost part6 = u32::parse(def_cfg(), reader@);
        let item = read_part::<u32>(def_cfg(), reader, Ghost(input), Ghost(used))?;
        let ghost used = used + part6.used;
        let ghost rest = Self::parse_rest(
            hud_type.deep_view(),
            pos.deep_view(),
            name.deep_view(),
            scale.deep_view(),
            text.deep_view(),
            number.deep_view(),
            item.deep_view(),
            reader@,
        );
        let r = Self::read_rest(hud_type, pos, name, scale, text, number, item, reader);
        proof {
            lemma_skip_twice(input, used, rest.used);
        }
        r
    }
}

impl MtRoundTrip for HudElement {
    open spec fn sound(v: HudElementView, cfg: MtCfg, rest: Seq<u8>) -> bool {
        let after_style = rest;
        let after_text_2 = EnumSet::<HudStyleFlag>::wire(v.style, def_cfg()) + after_style;
        let after_z_index = String::wire(v.text_2, def_cfg()) + after_text_2;
        let after_world_pos = i32::wire(v.z_index, def_cfg()) + after_z_index;
        let after_offset = <[Single; 3]>::wire(v.world_pos, def_cfg()) + after_world_pos;
        let after_align = <[Single; 2]>::wire(v.offset, def_cfg()) + after_offset;
        let after_dir = <[Single; 2]>::wire(v.align, def_cfg()) + after_align;
        let after_item = u32::wire(v.dir, def_cfg()) + after_dir;
        let after_number = u32::wire(v.item, def_cfg()) + after_item;
        let after_text = u32::wire(v.number, def_cfg()) + after_number;
        let after_scale = String::wire(v.text, def_cfg()) + after_text;
        let after_name = <[Single; 2]>::wire(v.scale, def_cfg()) + after_scale;
        let after_pos = String::wire(v.name, def_cfg()) + after_name;
        let after_hud_type = <[Single; 2]>::wire(v.pos, def_cfg()) + after_pos;
        &&& HudType::sound(v.hud_type, def_cfg(), after_hud_type)
        &&& <[Single; 2]>::sound(v.pos, def_cfg(), after_pos)
        &&& String::sound(v.name, def_cfg(), after_name)
        &&& <[Single; 2]>::sound(v.scale, def_cfg(), after_scale)
        &&& String::sound(v.text, def_cfg(), after_text)
        &&& u32::sound(v.number, def_cfg(), after_number)
        &&& u32::sound(v.item, def_cfg(), after_item)
        &&& u32::sound(v.dir, def_cfg(), after_dir)
        &&& <[Single; 2]>::sound(v.align, def_cfg(), after_align)
        &&& <[Single; 2]>::sound(v.offset, def_cfg(), after_offset)
        &&& <[Single; 3]>::sound(v.world_pos, def_cfg(), after_world_pos)
        &&& i32::sound(v.z_index, def_cfg(), after_z_index)
        &&& String::sound(v.text_2, def_cfg(), after_text_2)
        &&& EnumSet::<HudStyleFlag>::sound(v.style, def_cfg(), after_style)
    }

    proof fn lemma_round_trip(v: HudElementView, cfg: MtCfg, rest: Seq<u8>) {
        let after_style = rest;
        let after_text_2 = EnumSet::<HudStyleFlag>::wire(v.style, def_cfg()) + after_style;
        let after_z_index = String::wire(v.text_2, def_cfg()) + after_text_2;
        let after_world_pos = i32::wire(v.z_index, def_cfg()) + after_z_index;
        let after_offset = <[Single; 3]>::wire(v.world_pos, def_cfg()) + after_world_pos;
        let after_align = <[Single; 2]>::wire(v.offset, def_cfg()) + after_offset;
        let after_dir = <[Single; 2]>::wire(v.align, def_cfg()) + after_align;
        let after_item = u32::wire(v.dir, def_cfg()) + after_dir;
        let after_number = u32::wire(v.item, def_cfg()) + after_item;
        let after_text = u32::wire(v.number, def_cfg()) + after_number;
        let after_scale = String::wire(v.text, def_cfg()) + after_text;
        let after_name = <[Single; 2]>::wire(v.scale, def_cfg()) + after_scale;
        let after_pos = String::wire(v.name, def_cfg()) + after_name;
        let after_hud_type = <[Single; 2]>::wire(v.pos, def_cfg()) + after_pos;
        let before = HudType::wire(v.hud_type, def_cfg());
        lemma_join_assoc(before, <[Single; 2]>::wire(v.pos, def_cfg()), after_pos);
        let before = before + <[Single; 2]>::wire(v.pos, def_cfg());
        lemma_join_assoc(before, String::wire(v.name, def_cfg()), after_name);
        let before = before + String::wire(v.name, def_cfg());
        lemma_join_assoc(before, <[Single; 2]>::wire(v.scale, def_cfg()), after_scale);
        let before = before + <[Single; 2]>::wire(v.scale, def_cfg());
        lemma_join_assoc(before, String::wire(v.text, def_cfg()), after_text);
        let before = before + String::wire(v.text, def_cfg());
        lemma_join_assoc(before, u32::wire(v.number, def_cfg()), after_number);
        let before = before + u32::wire(v.number, def_cfg());
        lemma_join_assoc(before, u32::wire(v.item, def_cfg()), after_item);
        let before = before + u32::wire(v.item, def_cfg());
        lemma_join_assoc(before, u32::wire(v.dir, def_cfg()), after_dir);
        let before = before + u32::wire(v.dir, def_cfg());
        lemma_join_assoc(before, <[Single; 2]>::wire(v.align, def_cfg()), after_align);
        let before = before + <[Single; 2]>::wire(v.align, def_cfg());
        lemma_join_assoc(before, <[Single; 2]>::wire(v.offset, def_cfg()), after_offset);
        let before = before + <[Single; 2]>::wire(v.offset, def_cfg());
        lemma_join_assoc(before, <[Single; 3]>::wire(v.world_pos, def_cfg()), after_world_pos);
        let before = before + <[Single; 3]>::wire(v.world_pos, def_cfg());
        lemma_join_assoc(before, i32::wire(v.z_index, def_cfg()), after_z_index);
        let before = before + i32::wire(v.z_index, def_cfg());
        lemma_join_assoc(before, String::wire(v.text_2, def_cfg()), after_text_2);
        let before = before + String::wire(v.text_2, def_cfg());
        lemma_join_assoc(before, EnumSet::<HudStyleFlag>::wire(v.style, def_cfg()), after_style);
        HudType::lemma_round_trip(v.hud_type, def_cfg(), after_hud_type);
        lemma_skip_joined(HudType::wire(v.hud_type, def_cfg()), after_hud_type);
        <[Single; 2]>::lemma_round_trip(v.pos, def_cfg(), after_pos);
        lemma_skip_joined(<[Single; 2]>::wire(v.pos, def_cfg()), after_pos);
        String::lemma_round_trip(v.name, def_cfg(), after_name);
        lemma_skip_joined(String::wire(v.name, def_cfg()), after_name);
        <[Single; 2]>::lemma_round_trip(v.scale, def_cfg(), after_scale);
        lemma_skip_joined(<[Single; 2]>::wire(v.scale, def_cfg()), after_scale);
        String::lemma_round_trip(v.text, def_cfg(), after_text);
        lemma_skip_joined(String::wire(v.text, def_cfg()), after_text);
        u32::lemma_round_trip(v.number, def_cfg(), after_number);
        lemma_skip_joined(u32::wire(v.number, def_cfg()), after_number);
        u32::lemma_round_trip(v.item, def_cfg(), after_item);
        lemma_skip_joined(u32::wire(v.item, def_cfg()), after_item);
        u32::lemma_round_trip(v.dir, def_cfg(), after_dir);
        lemma_skip_joined(u32::wire(v.dir, def_cfg()), after_dir);
        <[Single; 2]>::lemma_round_trip(v.align, def_cfg(), after_align);
        lemma_skip_joined(<[Single; 2]>::wire(v.align, def_cfg()), after_align);
        <[Single; 2]>::lemma_round_trip(v.offset, def_cfg(), after_offset);
        lemma_skip_joined(<[Single; 2]>::wire(v.offset, def_cfg()), after_offset);
        <[Single; 3]>::lemma_round_trip(v.world_pos, def_cfg(), after_world_pos);
        lemma_skip_joined(<[Single; 3]>::wire(v.world_pos, def_cfg()), after_world_pos);
        i32::lemma_round_trip(v.z_index, def_cfg(), after_z_index);
        lemma_skip_joined(i32::wire(v.z_index, def_cfg()), after_z_index);
        String::lemma_round_trip(v.text_2, def_cfg(), after_text_2);
        lemma_skip_joined(String::wire(v.text_2, def_cfg()), after_text_2);
        EnumSet::<HudStyleFlag>::lemma_round_trip(v.style, def_cfg(), after_style);
        lemma_skip_joined(EnumSet::<HudStyleFlag>::wire(v.style, def_cfg()), after_style);
    }
}

impl HudElement {
    /// The element `e` with the one property changed that `change` names.
    pub open spec fn changed(e: HudElementView, change: HudChangeView) -> HudElementView {
        match change {
            HudChangeView::Pos(v) => HudElementView { pos: v, ..e },
            HudChangeView::Name(v) => HudElementView { name: v, ..e },
            HudChangeView::Scale(v) => HudElementView { scale: v, ..e },
            HudChangeView::Text(v) => HudElementView { text: v, ..e },
            HudChangeView::Number(v) => HudElementView { number: v, ..e },
            HudChangeView::Item(v) => HudElementView { item: v, ..e },
            HudChangeView::Dir(v) => HudElementView { dir: v, ..e },
            HudChangeView::Align(v) => HudElementView { align: v, ..e },
            HudChangeView::Offset(v) => HudElementView { offset: v, ..e },
            HudChangeView::WorldPos(v) => HudElementView { world_pos: v, ..e },
            HudChangeView::ZIndex(v) => HudElementView { z_index: v, ..e },
            HudChangeView::Text2(v) => HudElementView { text_2: v, ..e },
            HudChangeView::Style(v) => HudElementView { style: v, ..e },
        }
    }

    /// Sets the one property that `change` names; the others stay as they
    /// are.
    pub fn apply_change(&mut self, change: HudChange)
        ensures
            final(self).deep_view() == Self::changed(old(self).deep_view(), change.deep_view()),
    {
        match change {
            HudChange::Pos(v) => self.pos = v,
            HudChange::Name(v) => self.name = v,
            HudChange::Scale(v) => self.scale = v,
            HudChange::Text(v) => self.text = v,
            HudChange::Number(v) => self.number = v,
            HudChange::Item(v) => self.item = v,
            HudChange::Dir(v) => self.dir = v,
            HudChange::Align(v) => self.align = v,
            HudChange::Offset(v) => self.offset = v,
            HudChange::WorldPos(v) => self.world_pos = v,
            HudChange::ZIndex(v) => self.z_index = v,
            HudChange::Text2(v) => self.text_2 = v,
            HudChange::Style(v) => self.style = v,
        }
    }
}

/// The kind of a minimap.
#[derive(Clone, Copy, Debug, PartialEq, Eq, Structural)]
pub enum MinimapType {
    NoMinimap,
    Surface,
    Radar,
    Texture,
}

impl DeepView for MinimapType {
    type V = MinimapType;

    open spec fn deep_view(&self) -> MinimapType {
        *self
    }
}

impl MinimapType {
    /// The declaration of the variants: the first is numbered, the others follow it.
    pub open spec fn decl() -> Seq<Option<u64>> {
        seq![Some(0), None, None, None]
    }

    /// The position of a variant in the declaration.
    pub open spec fn index(self) -> int {
        match self {
            MinimapType::NoMinimap => 0,
            MinimapType::Surface => 1,
            MinimapType::Radar => 2,
            MinimapType::Texture => 3,
        }
    }

    /// The discriminant of a variant.
    pub open spec fn spec_discr(self) -> u16 {
        match self {
            MinimapType::NoMinimap => 0,
            MinimapType::Surface => 1,
            MinimapType::Radar => 2,
            MinimapType::Texture => 3,
        }
    }

    /// The discriminant of a variant.
    #[verifier::when_used_as_spec(spec_discr)]
    pub fn discr(self) -> (r: u16)
        ensures
            r == self.spec_discr(),
    {
        match self {
            MinimapType::NoMinimap => 0,
            MinimapType::Surface => 1,
            MinimapType::Radar => 2,
            MinimapType::Texture => 3,
        }
    }

    /// The variant with the discriminant `d`, where there is one.
    pub open spec fn spec_from_discr(d: u16) -> Option<MinimapType> {
        if d == 0 {
            Some(MinimapType::NoMinimap)
        } else if d == 1 {
            Some(MinimapType::Surface)
        } else if d == 2 {
            Some(MinimapType::Radar)
        } else if d == 3 {
            Some(MinimapType::Texture)
        } else {
            None
        }
    }

    /// The variant with the discriminant `d`, where there is one.
    #[verifier::when_used_as_spec(spec_from_discr)]
    pub fn from_discr(d: u16) -> (r: Option<MinimapType>)
        ensures
            r == Self::spec_from_discr(d),
    {
        if d == 0 {
            Some(MinimapType::NoMinimap)
        } else if d == 1 {
            Some(MinimapType::Surface)
        } else if d == 2 {
            Some(MinimapType::Radar)
        } else if d == 3 {
            Some(MinimapType::Texture)
        } else {
            None
        }
    }

    /// A discriminant that no variant has is refused, and the fault carries
    /// it.
    pub proof fn lemma_unknown(d: u16, rest: Seq<u8>)
        requires
            Self::spec_from_discr(d) is None,
        ensures
            <MinimapType as MtDeserialize>::parse(
                spec_def_cfg(),
                be_bytes(d as nat, 2) + rest,
            ) == failed::<MinimapType>(
                ReadFault::InvalidEnum("MinimapType"@, RawView::U16(d)),
                2,
            ),
    {
        lemma_radix();
        lemma_uint_round_trip(d as nat, 2, rest);
    }

    /// The discriminants are the ones that the declaration assigns, and
    /// each of them leads back to its variant.
    pub proof fn lemma_discr(self)
        ensures
            self.spec_discr() as int == assigned(Self::decl())[self.index()],
            Self::spec_from_discr(self.spec_discr()) == Some(self),
    {
        match self {
            MinimapType::NoMinimap => lemma_assigned_at(Self::decl(), 0),
            MinimapType::Surface => {
                lemma_assigned_at(Self::decl(), 0);
                lemma_assigned_at(Self::decl(), 1);
            },
            MinimapType::Radar => {
                lemma_assigned_at(Self::decl(), 0);
                lemma_assigned_at(Self::decl(), 1);
                lemma_assigned_at(Self::decl(), 2);
            },
            MinimapType::Texture => {
                lemma_assigned_at(Self::decl(), 0);
                lemma_assigned_at(Self::decl(), 1);
                lemma_assigned_at(Self::decl(), 2);
                lemma_assigned_at(Self::decl(), 3);
            },
        }
    }
}

impl MtSerialize for MinimapType {
    open spec fn fits(v: MinimapType, cfg: MtCfg) -> bool {
        true
    }

    open spec fn wire(v: MinimapType, cfg: MtCfg) -> Seq<u8> {
        be_bytes(v.spec_discr() as nat, 2)
    }

    /// Never refused.
    open spec fn fault(v: MinimapType, cfg: MtCfg) -> WriteFault {
        WriteFault::TooBig
    }

    fn mt_serialize(&self, cfg: MtCfg, writer: &mut Vec<u8>) -> (r: Result<(), SerializeError>) {
        proof {
            lemma_radix();
        }
        write_discr(LenWidth::W16, self.discr() as u64, writer);
        Ok(())
    }
}

impl MtDeserialize for MinimapType {
    /// A discriminant that no variant has is the fault `InvalidEnum`.
    open spec fn parse(cfg: MtCfg, input: Seq<u8>) -> Parsed<MinimapType> {
        let (tag, used) = parse_uint(input, 2);
        match tag {
            None => failed(ReadFault::UnexpectedEof, used),
            Some(d) => match Self::spec_from_discr(d as u16) {
                Some(v) => done(v, used),
                None => failed(
                    ReadFault::InvalidEnum("MinimapType"@, RawView::U16(d as u16)),
                    used,
                ),
            },
        }
    }

    fn mt_deserialize(cfg: MtCfg, reader: &mut WrapRead) -> (r: Result<
        MinimapType,
        DeserializeError,
    >) {
        proof {
            lemma_radix();
        }
        let d = read_discr(LenWidth::W16, reader)?;
        match Self::from_discr(d as u16) {
            Some(v) => Ok(v),
            None => Err(invalid_enum("MinimapType", LenWidth::W16, d)),
        }
    }
}

impl MtRoundTrip for MinimapType {
    open spec fn sound(v: MinimapType, cfg: MtCfg, rest: Seq<u8>) -> bool {
        true
    }

    proof fn lemma_round_trip(v: MinimapType, cfg: MtCfg, rest: Seq<u8>) {
        lemma_radix();
        lemma_uint_round_trip(v.spec_discr() as nat, 2, rest);
    }
}

/// A mode of the minimap.
#[derive(Clone, Debug, PartialEq)]
pub struct MinimapMode {
    pub minimap_type: MinimapType,
    pub label: String,
    pub size: u16,
    pub texture: String,
    pub scale: u16,
}

/// The mathematical value of a [`MinimapMode`].
pub ghost struct MinimapModeView {
    pub minimap_type: MinimapType,
    pub label: Seq<char>,
    pub size: u16,
    pub texture: Seq<char>,
    pub scale: u16,
}

impl DeepView for MinimapMode {
    type V = MinimapModeView;

    open spec fn deep_view(&self) -> MinimapModeView {
        MinimapModeView {
            minimap_type: self.minimap_type.deep_view(),
            label: self.label.deep_view(),
            size: self.size.deep_view(),
            texture: self.texture.deep_view(),
            scale: self.scale.deep_view(),
        }
    }
}

impl MtSerialize for MinimapMode {
    open spec fn fits(v: MinimapModeView, cfg: MtCfg) -> bool {
        &&& MinimapType::fits(v.minimap_type, def_cfg())
        &&& String::fits(v.label, def_cfg())
        &&& u16::fits(v.size, def_cfg())
        &&& String::fits(v.texture, def_cfg())
        &&& u16::fits(v.scale, def_cfg())
    }

    open spec fn wire(v: MinimapModeView, cfg: MtCfg) -> Seq<u8> {
        MinimapType::wire(v.minimap_type, def_cfg())
            + String::wire(v.label, def_cfg())
            + u16::wire(v.size, def_cfg())
            + String::wire(v.texture, def_cfg())
            + u16::wire(v.scale, def_cfg())
    }

    /// The fault of the first field that does not fit.
    open spec fn fault(v: MinimapModeView, cfg: MtCfg) -> WriteFault {
        if !MinimapType::fits(v.minimap_type, def_cfg()) {
            MinimapType::fault(v.minimap_type, def_cfg())
        } else if !String::fits(v.label, def_cfg()) {
            String::fault(v.label, def_cfg())
        } else if !u16::fits(v.size, def_cfg()) {
            u16::fault(v.size, def_cfg())
        } else if !String::fits(v.texture, def_cfg()) {
            String::fault(v.texture, def_cfg())
        } else {
            u16::fault(v.scale, def_cfg())
        }
    }

    fn mt_serialize(&self, cfg: MtCfg, writer: &mut Vec<u8>) -> (r: Result<(), SerializeError>) {
        let ghost base = writer@;
        write_part(&self.minimap_type, def_cfg(), writer, Ghost(base))?;
        let ghost written = MinimapType::wire(self.minimap_type.deep_view(), def_cfg());
        write_part(&self.label, def_cfg(), writer, Ghost(base))?;
        proof {
            lemma_join_assoc(base, written, String::wire(self.label.deep_view(), def_cfg()));
        }
        let ghost written = written + String::wire(self.label.deep_view(), def_cfg());
        write_part(&self.size, def_cfg(), writer, Ghost(base))?;
        proof {
            lemma_join_assoc(base, written, u16::wire(self.size.deep_view(), def_cfg()));
        }
        let ghost written = written + u16::wire(self.size.deep_view(), def_cfg());
        write_part(&self.texture, def_cfg(), writer, Ghost(base))?;
        proof {
            lemma_join_assoc(base, written, String::wire(self.texture.deep_view(), def_cfg()));
        }
        let ghost written = written + String::wire(self.texture.deep_view(), def_cfg());
        write_part(&self.scale, def_cfg(), writer, Ghost(base))?;
        proof {
            lemma_join_assoc(base, written, u16::wire(self.scale.deep_view(), def_cfg()));
        }
        Ok(())
    }
}

impl MtDeserialize for MinimapMode {
    open spec fn parse(cfg: MtCfg, input: Seq<u8>) -> Parsed<MinimapModeView> {
        then(input, MinimapType::parse(def_cfg(), input), |minimap_type, input|
        then(input, String::parse(def_cfg(), input), |label, input|
        then(input, u16::parse(def_cfg(), input), |size, input|
        then(input, String::parse(def_cfg(), input), |texture, input|
        then(input, u16::parse(def_cfg(), input), |scale, input|
        done(MinimapModeView { minimap_type, label, size, texture, scale }, 0))))))
    }

    fn mt_deserialize(cfg: MtCfg, reader: &mut WrapRead) -> (r: Result<
        MinimapMode,
        DeserializeError,
    >) {
        let ghost input = reader@;
        let ghost used: nat = 0;
        assert(input.skip(0) == input);
        let ghost part0 = MinimapType::parse(def_cfg(), reader@);
        let minimap_type = read_part::<MinimapType>(def_cfg(), reader, Ghost(input), Ghost(used))?;
        let ghost used = used + part0.used;
        let ghost part1 = String::parse(def_cfg(), reader@);
        let label = read_part::<String>(def_cfg(), reader, Ghost(input), Ghost(used))?;
        let ghost used = used + part1.used;
        let ghost part2 = u16::parse(def_cfg(), reader@);
        let size = read_part::<u16>(def_cfg(), reader, Ghost(input), Ghost(used))?;
        let ghost used = used + part2.used;
        let ghost part3 = String::parse(def_cfg(), reader@);
        let texture = read_part::<String>(def_cfg(), reader, Ghost(input), Ghost(used))?;
        let ghost used = used + part3.used;
        let ghost part4 = u16::parse(def_cfg(), reader@);
        let scale = read_part::<u16>(def_cfg(), reader, Ghost(input), Ghost(used))?;
        let ghost used = used + part4.used;
        Ok(MinimapMode { minimap_type, label, size, texture, scale })
    }
}

impl MtRoundTrip for MinimapMode {
    open spec fn sound(v: MinimapModeView, cfg: MtCfg, rest: Seq<u8>) -> bool {
        let after_scale = rest;
        let after_texture = u16::wire(v.scale, def_cfg()) + after_scale;
        let after_size = String::wire(v.texture, def_cfg()) + after_texture;
        let after_label = u16::wire(v.size, def_cfg()) + after_size;
        let after_minimap_type = String::wire(v.label, def_cfg()) + after_label;
        &&& MinimapType::sound(v.minimap_type, def_cfg(), after_minimap_type)
        &&& String::sound(v.label, def_cfg(), after_label)
        &&& u16::sound(v.size, def_cfg(), after_size)
        &&& String::sound(v.texture, def_cfg(), after_texture)
        &&& u16::sound(v.scale, def_cfg(), after_scale)
    }

    proof fn lemma_round_trip(v: MinimapModeView, cfg: MtCfg, rest: Seq<u8>) {
        let after_scale = rest;
        let after_texture = u16::wire(v.scale, def_cfg()) + after_scale;
        let after_size = String::wire(v.texture, def_cfg()) + after_texture;
        let after_label = u16::wire(v.size, def_cfg()) + after_size;
        let after_minimap_type = String::wire(v.label, def_cfg()) + after_label;
        let before = MinimapType::wire(v.minimap_type, def_cfg());
        lemma_join_assoc(before, String::wire(v.label, def_cfg()), after_label);
        let before = before + String::wire(v.label, def_cfg());
        lemma_join_assoc(before, u16::wire(v.size, def_cfg()), after_size);
        let before = before + u16::wire(v.size, def_cfg());
        lemma_join_assoc(before, String::wire(v.texture, def_cfg()), after_texture);
        let before = before + String::wire(v.texture, def_cfg());
        lemma_join_assoc(before, u16::wire(v.scale, def_cfg()), after_scale);
        MinimapType::lemma_round_trip(v.minimap_type, def_cfg(), after_minimap_type);
        lemma_skip_joined(MinimapType::wire(v.minimap_type, def_cfg()), after_minimap_type);
        String::lemma_round_trip(v.label, def_cfg(), after_label);
        lemma_skip_joined(String::wire(v.label, def_cfg()), after_label);
        u16::lemma_round_trip(v.size, def_cfg(), after_size);
        lemma_skip_joined(u16::wire(v.size, def_cfg()), after_size);
        String::lemma_round_trip(v.texture, def_cfg(), after_texture);
        lemma_skip_joined(String::wire(v.texture, def_cfg()), after_texture);
        u16::lemma_round_trip(v.scale, def_cfg(), after_scale);
        lemma_skip_joined(u16::wire(v.scale, def_cfg()), after_scale);
    }
}

/// The modes of the minimap and the one that is current. Only the server
/// writes it.
#[derive(Clone, Debug, PartialEq)]
pub struct MinimapModePkt {
    current: u16,
    modes: Vec<MinimapMode>,
}

/// The mathematical value of a [`MinimapModePkt`].
pub ghost struct MinimapModePktView {
    pub current: u16,
    pub modes: Seq<MinimapModeView>,
}

impl DeepView for MinimapModePkt {
    type V = MinimapModePktView;

    closed spec fn deep_view(&self) -> MinimapModePktView {
        MinimapModePktView { current: self.current, modes: self.modes.deep_view() }
    }
}

impl MinimapModePkt {
    /// The packet with these modes, of which the one at `current` is
    /// shown.
    pub fn new(current: u16, modes: Vec<MinimapMode>) -> (r: MinimapModePkt)
        ensures
            r.deep_view() == (MinimapModePktView { current, modes: modes.deep_view() }),
    {
        MinimapModePkt { current, modes }
    }

    /// The position of the mode that is shown.
    pub fn current(&self) -> (r: u16)
        ensures
            r == self.deep_view().current,
    {
        self.current
    }

    /// The modes.
    pub fn modes(&self) -> (r: &Vec<MinimapMode>)
        ensures
            r.deep_view() == self.deep_view().modes,
    {
        &self.modes
    }
}

impl MtSerialize for MinimapModePkt {
    open spec fn fits(v: MinimapModePktView, cfg: MtCfg) -> bool {
        cfg.len_fits(v.modes.len()) && all_fit::<MinimapMode>(v.modes, def_cfg())
    }

    /// `TooBig` where the number of modes does not fit, else the fault of the
    /// first mode that does not fit.
    open spec fn fault(v: MinimapModePktView, cfg: MtCfg) -> WriteFault {
        if !cfg.len_fits(v.modes.len()) {
            WriteFault::TooBig
        } else {
            items_fault::<MinimapMode>(v.modes, def_cfg())
        }
    }

    /// The number of modes as `cfg` asks for it, then the current mode,
    /// then the modes: the count does not stand right before them.
    open spec fn wire(v: MinimapModePktView, cfg: MtCfg) -> Seq<u8> {
        cfg.len_wire(v.modes.len()) + u16::wire(v.current, def_cfg()) + wire_items::<MinimapMode>(
            v.modes,
            def_cfg(),
        )
    }

    fn mt_serialize(&self, cfg: MtCfg, writer: &mut Vec<u8>) -> (r: Result<(), SerializeError>) {
        let ghost base = writer@;
        let ghost modes = self.modes.deep_view();
        match cfg.write_len(self.modes.len(), writer) {
            Ok(_) => {},
            Err(e) => {
                return Err(e);
            },
        }
        write_part(&self.current, def_cfg(), writer, Ghost(base))?;
        let ghost head = writer@;
        let mut i: usize = 0;
        assert(modes.take(0) == Seq::<MinimapModeView>::empty());
        assert(head + Seq::<u8>::empty() == head);
        while i < self.modes.len()
            invariant
                i <= self.modes.len(),
                base == old(writer)@,
                cfg.len_fits(self.modes@.len()),
                modes == self.modes.deep_view(),
                base.is_prefix_of(head),
                writer@ == head + wire_items::<MinimapMode>(modes.take(i as int), def_cfg()),
                forall|j: int| 0 <= j < i ==> MinimapMode::fits(#[trigger] modes[j], def_cfg()),
            decreases self.modes.len() - i,
        {
            proof {
                crate::step::lemma_prefix_grows(base, head, writer@);
            }
            let r = write_part(&self.modes[i], def_cfg(), writer, Ghost(base));
            match r {
                Ok(_) => {},
                Err(e) => {
                    proof {
                        reveal(all_fit);
                        lemma_items_fault_at::<MinimapMode>(modes, def_cfg(), i as int);
                    }
                    assert(!MinimapMode::fits(modes[i as int], def_cfg()));
                    return Err(e);
                },
            }
            proof {
                crate::seq::lemma_wire_items_push::<MinimapMode>(
                    modes.take(i as int),
                    modes[i as int],
                    def_cfg(),
                );
                assert(modes.take(i + 1) == modes.take(i as int).push(modes[i as int]));
                lemma_join_assoc(
                    head,
                    wire_items::<MinimapMode>(modes.take(i as int), def_cfg()),
                    MinimapMode::wire(modes[i as int], def_cfg()),
                );
            }
            i += 1;
        }
        proof {
            reveal(all_fit);
            assert(modes.take(i as int) == modes);
            lemma_join_assoc(
                base,
                cfg.len_wire(modes.len()) + u16::wire(self.current, def_cfg()),
                wire_items::<MinimapMode>(modes, def_cfg()),
            );
        }
        Ok(())
    }
}

} // verus!
