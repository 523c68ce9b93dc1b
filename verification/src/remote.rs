//! Layouts for types that other libraries define: ranges, vectors, points,
//! angles and boxes. A value of such a type travels as the layout of the
//! same shape, field by field under the default configuration.

use crate::cfg::{def_cfg, MtCfg};
use crate::codec::{done, MtDeserialize, MtRoundTrip, MtSerialize, Parsed};
use crate::error::{DeserializeError, SerializeError, WriteFault};
use crate::reader::WrapRead;
use crate::step::{lemma_join_assoc, lemma_skip_joined, read_part, then, write_part};
use vstd::prelude::*;

verus! {

/// The layout of a range with both bounds: its start, then its end.
#[derive(Clone, Debug, PartialEq)]
pub struct RemoteRange<T> {
    pub start: T,
    pub end: T,
}

impl<T: DeepView> DeepView for RemoteRange<T> {
    type V = RemoteRange<T::V>;

    open spec fn deep_view(&self) -> RemoteRange<T::V> {
        RemoteRange {
            start: self.start.deep_view(),
            end: self.end.deep_view(),
        }
    }
}

impl<T: MtSerialize> MtSerialize for RemoteRange<T> {
    open spec fn fits(v: RemoteRange<T::V>, cfg: MtCfg) -> bool {
        &&& T::fits(v.start, def_cfg())
        &&& T::fits(v.end, def_cfg())
    }

    open spec fn wire(v: RemoteRange<T::V>, cfg: MtCfg) -> Seq<u8> {
        T::wire(v.start, def_cfg()) + T::wire(v.end, def_cfg())
    }

    /// The fault of the first field that does not fit.
    open spec fn fault(v: RemoteRange<T::V>, cfg: MtCfg) -> WriteFault {
        if !T::fits(v.start, def_cfg()) {
            T::fault(v.start, def_cfg())
        } else {
            T::fault(v.end, def_cfg())
        }
    }

    fn mt_serialize(&self, cfg: MtCfg, writer: &mut Vec<u8>) -> (r: Result<(), SerializeError>) {
        let ghost base = writer@;
        write_part(&self.start, def_cfg(), writer, Ghost(base))?;
        let ghost written = T::wire(self.start.deep_view(), def_cfg());
        write_part(&self.end, def_cfg(), writer, Ghost(base))?;
        proof {
            lemma_join_assoc(base, written, T::wire(self.end.deep_view(), def_cfg()));
        }
        Ok(())
    }
}

impl<T: MtDeserialize> MtDeserialize for RemoteRange<T> {
    open spec fn parse(cfg: MtCfg, input: Seq<u8>) -> Parsed<RemoteRange<T::V>> {
        then(input, T::parse(def_cfg(), input), |start, input|
        then(input, T::parse(def_cfg(), input), |end, input|
        done(RemoteRange { start, end }, 0)))
    }

    fn mt_deserialize(cfg: MtCfg, reader: &mut WrapRead) -> (r: Result<
        RemoteRange<T>,
        DeserializeError,
    >) {
        let ghost input = reader@;
        let ghost used: nat = 0;
        assert(input.skip(0) == input);
        let ghost part0 = T::parse(def_cfg(), reader@);
        let start = read_part::<T>(def_cfg(), reader, Ghost(input), Ghost(used))?;
        let ghost used = used + part0.used;
        let ghost part1 = T::parse(def_cfg(), reader@);
        let end = read_part::<T>(def_cfg(), reader, Ghost(input), Ghost(used))?;
        let ghost used = used + part1.used;
        Ok(RemoteRange { start, end })
    }
}

impl<T: MtRoundTrip> MtRoundTrip for RemoteRange<T> {
    open spec fn sound(v: RemoteRange<T::V>, cfg: MtCfg, rest: Seq<u8>) -> bool {
        let after_end = rest;
        let after_start = T::wire(v.end, def_cfg()) + after_end;
        &&& T::sound(v.start, def_cfg(), after_start)
        &&& T::sound(v.end, def_cfg(), after_end)
    }

    proof fn lemma_round_trip(v: RemoteRange<T::V>, cfg: MtCfg, rest: Seq<u8>) {
        let after_end = rest;
        let after_start = T::wire(v.end, def_cfg()) + after_end;
        let before = T::wire(v.start, def_cfg());
        lemma_join_assoc(before, T::wire(v.end, def_cfg()), after_end);
        T::lemma_round_trip(v.start, def_cfg(), after_start);
        lemma_skip_joined(T::wire(v.start, def_cfg()), after_start);
        T::lemma_round_trip(v.end, def_cfg(), after_end);
        lemma_skip_joined(T::wire(v.end, def_cfg()), after_end);
    }
}

/// The layout of a range without an end: its start.
#[derive(Clone, Debug, PartialEq)]
pub struct RemoteRangeFrom<T> {
    pub start: T,
}

impl<T: DeepView> DeepView for RemoteRangeFrom<T> {
    type V = RemoteRangeFrom<T::V>;

    open spec fn deep_view(&self) -> RemoteRangeFrom<T::V> {
        RemoteRangeFrom {
            start: self.start.deep_view(),
        }
    }
}

impl<T: MtSerialize> MtSerialize for RemoteRangeFrom<T> {
    open spec fn fits(v: RemoteRangeFrom<T::V>, cfg: MtCfg) -> bool {
        T::fits(v.start, def_cfg())
    }

    open spec fn wire(v: RemoteRangeFrom<T::V>, cfg: MtCfg) -> Seq<u8> {
        T::wire(v.start, def_cfg())
    }

    /// The fault of the first field that does not fit.
    open spec fn fault(v: RemoteRangeFrom<T::V>, cfg: MtCfg) -> WriteFault {
        T::fault(v.start, def_cfg())
    }

    fn mt_serialize(&self, cfg: MtCfg, writer: &mut Vec<u8>) -> (r: Result<(), SerializeError>) {
        let ghost base = writer@;
        write_part(&self.start, def_cfg(), writer, Ghost(base))?;
        Ok(())
    }
}

impl<T: MtDeserialize> MtDeserialize for RemoteRangeFrom<T> {
    open spec fn parse(cfg: MtCfg, input: Seq<u8>) -> Parsed<RemoteRangeFrom<T::V>> {
        then(input, T::parse(def_cfg(), input), |start, input|
        done(RemoteRangeFrom { start }, 0))
    }

    fn mt_deserialize(cfg: MtCfg, reader: &mut WrapRead) -> (r: Result<
        RemoteRangeFrom<T>,
        DeserializeError,
    >) {
        let ghost input = reader@;
        let ghost used: nat = 0;
        assert(input.skip(0) == input);
        let ghost part0 = T::parse(def_cfg(), reader@);
        let start = read_part::<T>(def_cfg(), reader, Ghost(input), Ghost(used))?;
        let ghost used = used + part0.used;
        Ok(RemoteRangeFrom { start })
    }
}

impl<T: MtRoundTrip> MtRoundTrip for RemoteRangeFrom<T> {
    open spec fn sound(v: RemoteRangeFrom<T::V>, cfg: MtCfg, rest: Seq<u8>) -> bool {
        let after_start = rest;
        &&& T::sound(v.start, def_cfg(), after_start)
    }

    proof fn lemma_round_trip(v: RemoteRangeFrom<T::V>, cfg: MtCfg, rest: Seq<u8>) {
        let after_start = rest;
        T::lemma_round_trip(v.start, def_cfg(), after_start);
        lemma_skip_joined(T::wire(v.start, def_cfg()), after_start);
    }
}

/// The layout of the range of everything: no bytes.
#[derive(Clone, Copy, Debug, PartialEq, Eq)]
pub struct RemoteRangeFull;

impl DeepView for RemoteRangeFull {
    type V = RemoteRangeFull;

    open spec fn deep_view(&self) -> RemoteRangeFull {
        *self
    }
}

impl MtSerialize for RemoteRangeFull {
    open spec fn fits(v: RemoteRangeFull, cfg: MtCfg) -> bool {
        true
    }

    open spec fn wire(v: RemoteRangeFull, cfg: MtCfg) -> Seq<u8> {
        Seq::empty()
    }

    /// Never refused.
    open spec fn fault(v: RemoteRangeFull, cfg: MtCfg) -> WriteFault {
        WriteFault::TooBig
    }

    fn mt_serialize(&self, cfg: MtCfg, writer: &mut Vec<u8>) -> (r: Result<(), SerializeError>) {
        assert(writer@ == old(writer)@ + Seq::<u8>::empty());
        Ok(())
    }
}

impl MtDeserialize for RemoteRangeFull {
    open spec fn parse(cfg: MtCfg, input: Seq<u8>) -> Parsed<RemoteRangeFull> {
        done(RemoteRangeFull, 0)
    }

    fn mt_deserialize(cfg: MtCfg, reader: &mut WrapRead) -> (r: Result<
        RemoteRangeFull,
        DeserializeError,
    >) {
        assert(reader@.skip(0) == reader@);
        Ok(RemoteRangeFull)
    }
}

impl MtRoundTrip for RemoteRangeFull {
    open spec fn sound(v: RemoteRangeFull, cfg: MtCfg, rest: Seq<u8>) -> bool {
        true
    }

    proof fn lemma_round_trip(v: RemoteRangeFull, cfg: MtCfg, rest: Seq<u8>) {
        assert(Self::wire(v, cfg) + rest == rest);
    }
}

/// The layout of a range that holds its end: its start, then its end.
#[derive(Clone, Debug, PartialEq)]
pub struct RemoteRangeInclusive<T> {
    pub start: T,
    pub end: T,
}

impl<T: DeepView> DeepView for RemoteRangeInclusive<T> {
    type V = RemoteRangeInclusive<T::V>;

    open spec fn deep_view(&self) -> RemoteRangeInclusive<T::V> {
        RemoteRangeInclusive {
            start: self.start.deep_view(),
            end: self.end.deep_view(),
        }
    }
}

impl<T: MtSerialize> MtSerialize for RemoteRangeInclusive<T> {
    open spec fn fits(v: RemoteRangeInclusive<T::V>, cfg: MtCfg) -> bool {
        &&& T::fits(v.start, def_cfg())
        &&& T::fits(v.end, def_cfg())
    }

    open spec fn wire(v: RemoteRangeInclusive<T::V>, cfg: MtCfg) -> Seq<u8> {
        T::wire(v.start, def_cfg()) + T::wire(v.end, def_cfg())
    }

    /// The fault of the first field that does not fit.
    open spec fn fault(v: RemoteRangeInclusive<T::V>, cfg: MtCfg) -> WriteFault {
        if !T::fits(v.start, def_cfg()) {
            T::fault(v.start, def_cfg())
        } else {
            T::fault(v.end, def_cfg())
        }
    }

    fn mt_serialize(&self, cfg: MtCfg, writer: &mut Vec<u8>) -> (r: Result<(), SerializeError>) {
        let ghost base = writer@;
        write_part(&self.start, def_cfg(), writer, Ghost(base))?;
        let ghost written = T::wire(self.start.deep_view(), def_cfg());
        write_part(&self.end, def_cfg(), writer, Ghost(base))?;
        proof {
            lemma_join_assoc(base, written, T::wire(self.end.deep_view(), def_cfg()));
        }
        Ok(())
    }
}

impl<T: MtDeserialize> MtDeserialize for RemoteRangeInclusive<T> {
    open spec fn parse(cfg: MtCfg, input: Seq<u8>) -> Parsed<RemoteRangeInclusive<T::V>> {
        then(input, T::parse(def_cfg(), input), |start, input|
        then(input, T::parse(def_cfg(), input), |end, input|
        done(RemoteRangeInclusive { start, end }, 0)))
    }

    fn mt_deserialize(cfg: MtCfg, reader: &mut WrapRead) -> (r: Result<
        RemoteRangeInclusive<T>,
        DeserializeError,
    >) {
        let ghost input = reader@;
        let ghost used: nat = 0;
        assert(input.skip(0) == input);
        let ghost part0 = T::parse(def_cfg(), reader@);
        let start = read_part::<T>(def_cfg(), reader, Ghost(input), Ghost(used))?;
        let ghost used = used + part0.used;
        let ghost part1 = T::parse(def_cfg(), reader@);
        let end = read_part::<T>(def_cfg(), reader, Ghost(input), Ghost(used))?;
        let ghost used = used + part1.used;
        Ok(RemoteRangeInclusive { start, end })
    }
}

impl<T: MtRoundTrip> MtRoundTrip for RemoteRangeInclusive<T> {
    open spec fn sound(v: RemoteRangeInclusive<T::V>, cfg: MtCfg, rest: Seq<u8>) -> bool {
        let after_end = rest;
        let after_start = T::wire(v.end, def_cfg()) + after_end;
        &&& T::sound(v.start, def_cfg(), after_start)
        &&& T::sound(v.end, def_cfg(), after_end)
    }

    proof fn lemma_round_trip(v: RemoteRangeInclusive<T::V>, cfg: MtCfg, rest: Seq<u8>) {
        let after_end = rest;
        let after_start = T::wire(v.end, def_cfg()) + after_end;
        let before = T::wire(v.start, def_cfg());
        lemma_join_assoc(before, T::wire(v.end, def_cfg()), after_end);
        T::lemma_round_trip(v.start, def_cfg(), after_start);
        lemma_skip_joined(T::wire(v.start, def_cfg()), after_start);
        T::lemma_round_trip(v.end, def_cfg(), after_end);
        lemma_skip_joined(T::wire(v.end, def_cfg()), after_end);
    }
}

/// The layout of a range without a start: its end.
#[derive(Clone, Debug, PartialEq)]
pub struct RemoteRangeTo<T> {
    pub end: T,
}

impl<T: DeepView> DeepView for RemoteRangeTo<T> {
    type V = RemoteRangeTo<T::V>;

    open spec fn deep_view(&self) -> RemoteRangeTo<T::V> {
        RemoteRangeTo {
            end: self.end.deep_view(),
        }
    }
}

impl<T: MtSerialize> MtSerialize for RemoteRangeTo<T> {
    open spec fn fits(v: RemoteRangeTo<T::V>, cfg: MtCfg) -> bool {
        T::fits(v.end, def_cfg())
    }

    open spec fn wire(v: RemoteRangeTo<T::V>, cfg: MtCfg) -> Seq<u8> {
        T::wire(v.end, def_cfg())
    }

    /// The fault of the first field that does not fit.
    open spec fn fault(v: RemoteRangeTo<T::V>, cfg: MtCfg) -> WriteFault {
        T::fault(v.end, def_cfg())
    }

    fn mt_serialize(&self, cfg: MtCfg, writer: &mut Vec<u8>) -> (r: Result<(), SerializeError>) {
        let ghost base = writer@;
        write_part(&self.end, def_cfg(), writer, Ghost(base))?;
        Ok(())
    }
}

impl<T: MtDeserialize> MtDeserialize for RemoteRangeTo<T> {
    open spec fn parse(cfg: MtCfg, input: Seq<u8>) -> Parsed<RemoteRangeTo<T::V>> {
        then(input, T::parse(def_cfg(), input), |end, input|
        done(RemoteRangeTo { end }, 0))
    }

    fn mt_deserialize(cfg: MtCfg, reader: &mut WrapRead) -> (r: Result<
        RemoteRangeTo<T>,
        DeserializeError,
    >) {
        let ghost input = reader@;
        let ghost used: nat = 0;
        assert(input.skip(0) == input);
        let ghost part0 = T::parse(def_cfg(), reader@);
        let end = read_part::<T>(def_cfg(), reader, Ghost(input), Ghost(used))?;
        let ghost used = used + part0.used;
        Ok(RemoteRangeTo { end })
    }
}

impl<T: MtRoundTrip> MtRoundTrip for RemoteRangeTo<T> {
    open spec fn sound(v: RemoteRangeTo<T::V>, cfg: MtCfg, rest: Seq<u8>) -> bool {
        let after_end = rest;
        &&& T::sound(v.end, def_cfg(), after_end)
    }

    proof fn lemma_round_trip(v: RemoteRangeTo<T::V>, cfg: MtCfg, rest: Seq<u8>) {
        let after_end = rest;
        T::lemma_round_trip(v.end, def_cfg(), after_end);
        lemma_skip_joined(T::wire(v.end, def_cfg()), after_end);
    }
}

/// The layout of a range without a start that holds its end: its end.
#[derive(Clone, Debug, PartialEq)]
pub struct RemoteRangeToInclusive<T> {
    pub end: T,
}

impl<T: DeepView> DeepView for RemoteRangeToInclusive<T> {
    type V = RemoteRangeToInclusive<T::V>;

    open spec fn deep_view(&self) -> RemoteRangeToInclusive<T::V> {
        RemoteRangeToInclusive {
            end: self.end.deep_view(),
        }
    }
}

impl<T: MtSerialize> MtSerialize for RemoteRangeToInclusive<T> {
    open spec fn fits(v: RemoteRangeToInclusive<T::V>, cfg: MtCfg) -> bool {
        T::fits(v.end, def_cfg())
    }

    open spec fn wire(v: RemoteRangeToInclusive<T::V>, cfg: MtCfg) -> Seq<u8> {
        T::wire(v.end, def_cfg())
    }

    /// The fault of the first field that does not fit.
    open spec fn fault(v: RemoteRangeToInclusive<T::V>, cfg: MtCfg) -> WriteFault {
        T::fault(v.end, def_cfg())
    }

    fn mt_serialize(&self, cfg: MtCfg, writer: &mut Vec<u8>) -> (r: Result<(), SerializeError>) {
        let ghost base = writer@;
        write_part(&self.end, def_cfg(), writer, Ghost(base))?;
        Ok(())
    }
}

impl<T: MtDeserialize> MtDeserialize for RemoteRangeToInclusive<T> {
    open spec fn parse(cfg: MtCfg, input: Seq<u8>) -> Parsed<RemoteRangeToInclusive<T::V>> {
        then(input, T::parse(def_cfg(), input), |end, input|
        done(RemoteRangeToInclusive { end }, 0))
    }

    fn mt_deserialize(cfg: MtCfg, reader: &mut WrapRead) -> (r: Result<
        RemoteRangeToInclusive<T>,
        DeserializeError,
    >) {
        let ghost input = reader@;
        let ghost used: nat = 0;
        assert(input.skip(0) == input);
        let ghost part0 = T::parse(def_cfg(), reader@);
        let end = read_part::<T>(def_cfg(), reader, Ghost(input), Ghost(used))?;
        let ghost used = used + part0.used;
        Ok(RemoteRangeToInclusive { end })
    }
}

impl<T: MtRoundTrip> MtRoundTrip for RemoteRangeToInclusive<T> {
    open spec fn sound(v: RemoteRangeToInclusive<T::V>, cfg: MtCfg, rest: Seq<u8>) -> bool {
        let after_end = rest;
        &&& T::sound(v.end, def_cfg(), after_end)
    }

    proof fn lemma_round_trip(v: RemoteRangeToInclusive<T::V>, cfg: MtCfg, rest: Seq<u8>) {
        let after_end = rest;
        T::lemma_round_trip(v.end, def_cfg(), after_end);
        lemma_skip_joined(T::wire(v.end, def_cfg()), after_end);
    }
}

/// The layout of a vector of one component.
#[derive(Clone, Debug, PartialEq)]
pub struct RemoteVector1<T> {
    pub x: T,
}

impl<T: DeepView> DeepView for RemoteVector1<T> {
    type V = RemoteVector1<T::V>;

    open spec fn deep_view(&self) -> RemoteVector1<T::V> {
        RemoteVector1 {
            x: self.x.deep_view(),
        }
    }
}

impl<T: MtSerialize> MtSerialize for RemoteVector1<T> {
    open spec fn fits(v: RemoteVector1<T::V>, cfg: MtCfg) -> bool {
        T::fits(v.x, def_cfg())
    }

    open spec fn wire(v: RemoteVector1<T::V>, cfg: MtCfg) -> Seq<u8> {
        T::wire(v.x, def_cfg())
    }

    /// The fault of the first field that does not fit.
    open spec fn fault(v: RemoteVector1<T::V>, cfg: MtCfg) -> WriteFault {
        T::fault(v.x, def_cfg())
    }

    fn mt_serialize(&self, cfg: MtCfg, writer: &mut Vec<u8>) -> (r: Result<(), SerializeError>) {
        let ghost base = writer@;
        write_part(&self.x, def_cfg(), writer, Ghost(base))?;
        Ok(())
    }
}

impl<T: MtDeserialize> MtDeserialize for RemoteVector1<T> {
    open spec fn parse(cfg: MtCfg, input: Seq<u8>) -> Parsed<RemoteVector1<T::V>> {
        then(input, T::parse(def_cfg(), input), |x, input|
        done(RemoteVector1 { x }, 0))
    }

    fn mt_deserialize(cfg: MtCfg, reader: &mut WrapRead) -> (r: Result<
        RemoteVector1<T>,
        DeserializeError,
    >) {
        let ghost input = reader@;
        let ghost used: nat = 0;
        assert(input.skip(0) == input);
        let ghost part0 = T::parse(def_cfg(), reader@);
        let x = read_part::<T>(def_cfg(), reader, Ghost(input), Ghost(used))?;
        let ghost used = used + part0.used;
        Ok(RemoteVector1 { x })
    }
}

impl<T: MtRoundTrip> MtRoundTrip for RemoteVector1<T> {
    open spec fn sound(v: RemoteVector1<T::V>, cfg: MtCfg, rest: Seq<u8>) -> bool {
        let after_x = rest;
        &&& T::sound(v.x, def_cfg(), after_x)
    }

    proof fn lemma_round_trip(v: RemoteVector1<T::V>, cfg: MtCfg, rest: Seq<u8>) {
        let after_x = rest;
        T::lemma_round_trip(v.x, def_cfg(), after_x);
        lemma_skip_joined(T::wire(v.x, def_cfg()), after_x);
    }
}

/// The layout of a vector of two components.
#[derive(Clone, Debug, PartialEq)]
pub struct RemoteVector2<T> {
    pub x: T,
    pub y: T,
}

impl<T: DeepView> DeepView for RemoteVector2<T> {
    type V = RemoteVector2<T::V>;

    open spec fn deep_view(&self) -> RemoteVector2<T::V> {
        RemoteVector2 {
            x: self.x.deep_view(),
            y: self.y.deep_view(),
        }
    }
}

impl<T: MtSerialize> MtSerialize for RemoteVector2<T> {
    open spec fn fits(v: RemoteVector2<T::V>, cfg: MtCfg) -> bool {
        &&& T::fits(v.x, def_cfg())
        &&& T::fits(v.y, def_cfg())
    }

    open spec fn wire(v: RemoteVector2<T::V>, cfg: MtCfg) -> Seq<u8> {
        T::wire(v.x, def_cfg()) + T::wire(v.y, def_cfg())
    }

    /// The fault of the first field that does not fit.
    open spec fn fault(v: RemoteVector2<T::V>, cfg: MtCfg) -> WriteFault {
        if !T::fits(v.x, def_cfg()) {
            T::fault(v.x, def_cfg())
        } else {
            T::fault(v.y, def_cfg())
        }
    }

    fn mt_serialize(&self, cfg: MtCfg, writer: &mut Vec<u8>) -> (r: Result<(), SerializeError>) {
        let ghost base = writer@;
        write_part(&self.x, def_cfg(), writer, Ghost(base))?;
        let ghost written = T::wire(self.x.deep_view(), def_cfg());
        write_part(&self.y, def_cfg(), writer, Ghost(base))?;
        proof {
            lemma_join_assoc(base, written, T::wire(self.y.deep_view(), def_cfg()));
        }
        Ok(())
    }
}

impl<T: MtDeserialize> MtDeserialize for RemoteVector2<T> {
    open spec fn parse(cfg: MtCfg, input: Seq<u8>) -> Parsed<RemoteVector2<T::V>> {
        then(input, T::parse(def_cfg(), input), |x, input|
        then(input, T::parse(def_cfg(), input), |y, input|
        done(RemoteVector2 { x, y }, 0)))
    }

    fn mt_deserialize(cfg: MtCfg, reader: &mut WrapRead) -> (r: Result<
        RemoteVector2<T>,
        DeserializeError,
    >) {
        let ghost input = reader@;
        let ghost used: nat = 0;
        assert(input.skip(0) == input);
        let ghost part0 = T::parse(def_cfg(), reader@);
        let x = read_part::<T>(def_cfg(), reader, Ghost(input), Ghost(used))?;
        let ghost used = used + part0.used;
        let ghost part1 = T::parse(def_cfg(), reader@);
        let y = read_part::<T>(def_cfg(), reader, Ghost(input), Ghost(used))?;
        let ghost used = used + part1.used;
        Ok(RemoteVector2 { x, y })
    }
}

impl<T: MtRoundTrip> MtRoundTrip for RemoteVector2<T> {
    open spec fn sound(v: RemoteVector2<T::V>, cfg: MtCfg, rest: Seq<u8>) -> bool {
        let after_y = rest;
        let after_x = T::wire(v.y, def_cfg()) + after_y;
        &&& T::sound(v.x, def_cfg(), after_x)
        &&& T::sound(v.y, def_cfg(), after_y)
    }

    proof fn lemma_round_trip(v: RemoteVector2<T::V>, cfg: MtCfg, rest: Seq<u8>) {
        let after_y = rest;
        let after_x = T::wire(v.y, def_cfg()) + after_y;
        let before = T::wire(v.x, def_cfg());
        lemma_join_assoc(before, T::wire(v.y, def_cfg()), after_y);
        T::lemma_round_trip(v.x, def_cfg(), after_x);
        lemma_skip_joined(T::wire(v.x, def_cfg()), after_x);
        T::lemma_round_trip(v.y, def_cfg(), after_y);
        lemma_skip_joined(T::wire(v.y, def_cfg()), after_y);
    }
}

/// The layout of a vector of three components.
#[derive(Clone, Debug, PartialEq)]
pub struct RemoteVector3<T> {
    pub x: T,
    pub y: T,
    pub z: T,
}

impl<T: DeepView> DeepView for RemoteVector3<T> {
    type V = RemoteVector3<T::V>;

    open spec fn deep_view(&self) -> RemoteVector3<T::V> {
        RemoteVector3 {
            x: self.x.deep_view(),
            y: self.y.deep_view(),
            z: self.z.deep_view(),
        }
    }
}

impl<T: MtSerialize> MtSerialize for RemoteVector3<T> {
    open spec fn fits(v: RemoteVector3<T::V>, cfg: MtCfg) -> bool {
        &&& T::fits(v.x, def_cfg())
        &&& T::fits(v.y, def_cfg())
        &&& T::fits(v.z, def_cfg())
    }

    open spec fn wire(v: RemoteVector3<T::V>, cfg: MtCfg) -> Seq<u8> {
        T::wire(v.x, def_cfg()) + T::wire(v.y, def_cfg()) + T::wire(v.z, def_cfg())
    }

    /// The fault of the first field that does not fit.
    open spec fn fault(v: RemoteVector3<T::V>, cfg: MtCfg) -> WriteFault {
        if !T::fits(v.x, def_cfg()) {
            T::fault(v.x, def_cfg())
        } else if !T::fits(v.y, def_cfg()) {
            T::fault(v.y, def_cfg())
        } else {
            T::fault(v.z, def_cfg())
        }
    }

    fn mt_serialize(&self, cfg: MtCfg, writer: &mut Vec<u8>) -> (r: Result<(), SerializeError>) {
        let ghost base = writer@;
        write_part(&self.x, def_cfg(), writer, Ghost(base))?;
        let ghost written = T::wire(self.x.deep_view(), def_cfg());
        write_part(&self.y, def_cfg(), writer, Ghost(base))?;
        proof {
            lemma_join_assoc(base, written, T::wire(self.y.deep_view(), def_cfg()));
        }
        let ghost written = written + T::wire(self.y.deep_view(), def_cfg());
        write_part(&self.z, def_cfg(), writer, Ghost(base))?;
        proof {
            lemma_join_assoc(base, written, T::wire(self.z.deep_view(), def_cfg()));
        }
        Ok(())
    }
}

impl<T: MtDeserialize> MtDeserialize for RemoteVector3<T> {
    open spec fn parse(cfg: MtCfg, input: Seq<u8>) -> Parsed<RemoteVector3<T::V>> {
        then(input, T::parse(def_cfg(), input), |x, input|
        then(input, T::parse(def_cfg(), input), |y, input|
        then(input, T::parse(def_cfg(), input), |z, input|
        done(RemoteVector3 { x, y, z }, 0))))
    }

    fn mt_deserialize(cfg: MtCfg, reader: &mut WrapRead) -> (r: Result<
        RemoteVector3<T>,
        DeserializeError,
    >) {
        let ghost input = reader@;
        let ghost used: nat = 0;
        assert(input.skip(0) == input);
        let ghost part0 = T::parse(def_cfg(), reader@);
        let x = read_part::<T>(def_cfg(), reader, Ghost(input), Ghost(used))?;
        let ghost used = used + part0.used;
        let ghost part1 = T::parse(def_cfg(), reader@);
        let y = read_part::<T>(def_cfg(), reader, Ghost(input), Ghost(used))?;
        let ghost used = used + part1.used;
        let ghost part2 = T::parse(def_cfg(), reader@);
        let z = read_part::<T>(def_cfg(), reader, Ghost(input), Ghost(used))?;
        let ghost used = used + part2.used;
        Ok(RemoteVector3 { x, y, z })
    }
}

impl<T: MtRoundTrip> MtRoundTrip for RemoteVector3<T> {
    open spec fn sound(v: RemoteVector3<T::V>, cfg: MtCfg, rest: Seq<u8>) -> bool {
        let after_z = rest;
        let after_y = T::wire(v.z, def_cfg()) + after_z;
        let after_x = T::wire(v.y, def_cfg()) + after_y;
        &&& T::sound(v.x, def_cfg(), after_x)
        &&& T::sound(v.y, def_cfg(), after_y)
        &&& T::sound(v.z, def_cfg(), after_z)
    }

    proof fn lemma_round_trip(v: RemoteVector3<T::V>, cfg: MtCfg, rest: Seq<u8>) {
        let after_z = rest;
        let after_y = T::wire(v.z, def_cfg()) + after_z;
        let after_x = T::wire(v.y, def_cfg()) + after_y;
        let before = T::wire(v.x, def_cfg());
        lemma_join_assoc(before, T::wire(v.y, def_cfg()), after_y);
        let before = before + T::wire(v.y, def_cfg());
        lemma_join_assoc(before, T::wire(v.z, def_cfg()), after_z);
        T::lemma_round_trip(v.x, def_cfg(), after_x);
        lemma_skip_joined(T::wire(v.x, def_cfg()), after_x);
        T::lemma_round_trip(v.y, def_cfg(), after_y);
        lemma_skip_joined(T::wire(v.y, def_cfg()), after_y);
        T::lemma_round_trip(v.z, def_cfg(), after_z);
        lemma_skip_joined(T::wire(v.z, def_cfg()), after_z);
    }
}

/// The layout of a vector of four components.
#[derive(Clone, Debug, PartialEq)]
pub struct RemoteVector4<T> {
    pub x: T,
    pub y: T,
    pub z: T,
    pub w: T,
}

impl<T: DeepView> DeepView for RemoteVector4<T> {
    type V = RemoteVector4<T::V>;

    open spec fn deep_view(&self) -> RemoteVector4<T::V> {
        RemoteVector4 {
            x: self.x.deep_view(),
            y: self.y.deep_view(),
            z: self.z.deep_view(),
            w: self.w.deep_view(),
        }
    }
}

impl<T: MtSerialize> MtSerialize for RemoteVector4<T> {
    open spec fn fits(v: RemoteVector4<T::V>, cfg: MtCfg) -> bool {
        &&& T::fits(v.x, def_cfg())
        &&& T::fits(v.y, def_cfg())
        &&& T::fits(v.z, def_cfg())
        &&& T::fits(v.w, def_cfg())
    }

    open spec fn wire(v: RemoteVector4<T::V>, cfg: MtCfg) -> Seq<u8> {
        T::wire(v.x, def_cfg())
            + T::wire(v.y, def_cfg())
            + T::wire(v.z, def_cfg())
            + T::wire(v.w, def_cfg())
    }

    /// The fault of the first field that does not fit.
    open spec fn fault(v: RemoteVector4<T::V>, cfg: MtCfg) -> WriteFault {
        if !T::fits(v.x, def_cfg()) {
            T::fault(v.x, def_cfg())
        } else if !T::fits(v.y, def_cfg()) {
            T::fault(v.y, def_cfg())
        } else if !T::fits(v.z, def_cfg()) {
            T::fault(v.z, def_cfg())
        } else {
            T::fault(v.w, def_cfg())
        }
    }

    fn mt_serialize(&self, cfg: MtCfg, writer: &mut Vec<u8>) -> (r: Result<(), SerializeError>) {
        let ghost base = writer@;
        write_part(&self.x, def_cfg(), writer, Ghost(base))?;
        let ghost written = T::wire(self.x.deep_view(), def_cfg());
        write_part(&self.y, def_cfg(), writer, Ghost(base))?;
        proof {
            lemma_join_assoc(base, written, T::wire(self.y.deep_view(), def_cfg()));
        }
        let ghost written = written + T::wire(self.y.deep_view(), def_cfg());
        write_part(&self.z, def_cfg(), writer, Ghost(base))?;
        proof {
            lemma_join_assoc(base, written, T::wire(self.z.deep_view(), def_cfg()));
        }
        let ghost written = written + T::wire(self.z.deep_view(), def_cfg());
        write_part(&self.w, def_cfg(), writer, Ghost(base))?;
        proof {
            lemma_join_assoc(base, written, T::wire(self.w.deep_view(), def_cfg()));
        }
        Ok(())
    }
}

impl<T: MtDeserialize> MtDeserialize for RemoteVector4<T> {
    open spec fn parse(cfg: MtCfg, input: Seq<u8>) -> Parsed<RemoteVector4<T::V>> {
        then(input, T::parse(def_cfg(), input), |x, input|
        then(input, T::parse(def_cfg(), input), |y, input|
        then(input, T::parse(def_cfg(), input), |z, input|
        then(input, T::parse(def_cfg(), input), |w, input|
        done(RemoteVector4 { x, y, z, w }, 0)))))
    }

    fn mt_deserialize(cfg: MtCfg, reader: &mut WrapRead) -> (r: Result<
        RemoteVector4<T>,
        DeserializeError,
    >) {
        let ghost input = reader@;
        let ghost used: nat = 0;
        assert(input.skip(0) == input);
        let ghost part0 = T::parse(def_cfg(), reader@);
        let x = read_part::<T>(def_cfg(), reader, Ghost(input), Ghost(used))?;
        let ghost used = used + part0.used;
        let ghost part1 = T::parse(def_cfg(), reader@);
        let y = read_part::<T>(def_cfg(), reader, Ghost(input), Ghost(used))?;
        let ghost used = used + part1.used;
        let ghost part2 = T::parse(def_cfg(), reader@);
        let z = read_part::<T>(def_cfg(), reader, Ghost(input), Ghost(used))?;
        let ghost used = used + part2.used;
        let ghost part3 = T::parse(def_cfg(), reader@);
        let w = read_part::<T>(def_cfg(), reader, Ghost(input), Ghost(used))?;
        let ghost used = used + part3.used;
        Ok(RemoteVector4 { x, y, z, w })
    }
}

impl<T: MtRoundTrip> MtRoundTrip for RemoteVector4<T> {
    open spec fn sound(v: RemoteVector4<T::V>, cfg: MtCfg, rest: Seq<u8>) -> bool {
        let after_w = rest;
        let after_z = T::wire(v.w, def_cfg()) + after_w;
        let after_y = T::wire(v.z, def_cfg()) + after_z;
        let after_x = T::wire(v.y, def_cfg()) + after_y;
        &&& T::sound(v.x, def_cfg(), after_x)
        &&& T::sound(v.y, def_cfg(), after_y)
        &&& T::sound(v.z, def_cfg(), after_z)
        &&& T::sound(v.w, def_cfg(), after_w)
    }

    proof fn lemma_round_trip(v: RemoteVector4<T::V>, cfg: MtCfg, rest: Seq<u8>) {
        let after_w = rest;
        let after_z = T::wire(v.w, def_cfg()) + after_w;
        let after_y = T::wire(v.z, def_cfg()) + after_z;
        let after_x = T::wire(v.y, def_cfg()) + after_y;
        let before = T::wire(v.x, def_cfg());
        lemma_join_assoc(before, T::wire(v.y, def_cfg()), after_y);
        let before = before + T::wire(v.y, def_cfg());
        lemma_join_assoc(before, T::wire(v.z, def_cfg()), after_z);
        let before = before + T::wire(v.z, def_cfg());
        lemma_join_assoc(before, T::wire(v.w, def_cfg()), after_w);
        T::lemma_round_trip(v.x, def_cfg(), after_x);
        lemma_skip_joined(T::wire(v.x, def_cfg()), after_x);
        T::lemma_round_trip(v.y, def_cfg(), after_y);
        lemma_skip_joined(T::wire(v.y, def_cfg()), after_y);
        T::lemma_round_trip(v.z, def_cfg(), after_z);
        lemma_skip_joined(T::wire(v.z, def_cfg()), after_z);
        T::lemma_round_trip(v.w, def_cfg(), after_w);
        lemma_skip_joined(T::wire(v.w, def_cfg()), after_w);
    }
}

/// The layout of a point on a line.
#[derive(Clone, Debug, PartialEq)]
pub struct RemotePoint1<T> {
    pub x: T,
}

impl<T: DeepView> DeepView for RemotePoint1<T> {
    type V = RemotePoint1<T::V>;

    open spec fn deep_view(&self) -> RemotePoint1<T::V> {
        RemotePoint1 {
            x: self.x.deep_view(),
        }
    }
}

impl<T: MtSerialize> MtSerialize for RemotePoint1<T> {
    open spec fn fits(v: RemotePoint1<T::V>, cfg: MtCfg) -> bool {
        T::fits(v.x, def_cfg())
    }

    open spec fn wire(v: RemotePoint1<T::V>, cfg: MtCfg) -> Seq<u8> {
        T::wire(v.x, def_cfg())
    }

    /// The fault of the first field that does not fit.
    open spec fn fault(v: RemotePoint1<T::V>, cfg: MtCfg) -> WriteFault {
        T::fault(v.x, def_cfg())
    }

    fn mt_serialize(&self, cfg: MtCfg, writer: &mut Vec<u8>) -> (r: Result<(), SerializeError>) {
        let ghost base = writer@;
        write_part(&self.x, def_cfg(), writer, Ghost(base))?;
        Ok(())
    }
}

impl<T: MtDeserialize> MtDeserialize for RemotePoint1<T> {
    open spec fn parse(cfg: MtCfg, input: Seq<u8>) -> Parsed<RemotePoint1<T::V>> {
        then(input, T::parse(def_cfg(), input), |x, input|
        done(RemotePoint1 { x }, 0))
    }

    fn mt_deserialize(cfg: MtCfg, reader: &mut WrapRead) -> (r: Result<
        RemotePoint1<T>,
        DeserializeError,
    >) {
        let ghost input = reader@;
        let ghost used: nat = 0;
        assert(input.skip(0) == input);
        let ghost part0 = T::parse(def_cfg(), reader@);
        let x = read_part::<T>(def_cfg(), reader, Ghost(input), Ghost(used))?;
        let ghost used = used + part0.used;
        Ok(RemotePoint1 { x })
    }
}

impl<T: MtRoundTrip> MtRoundTrip for RemotePoint1<T> {
    open spec fn sound(v: RemotePoint1<T::V>, cfg: MtCfg, rest: Seq<u8>) -> bool {
        let after_x = rest;
        &&& T::sound(v.x, def_cfg(), after_x)
    }

    proof fn lemma_round_trip(v: RemotePoint1<T::V>, cfg: MtCfg, rest: Seq<u8>) {
        let after_x = rest;
        T::lemma_round_trip(v.x, def_cfg(), after_x);
        lemma_skip_joined(T::wire(v.x, def_cfg()), after_x);
    }
}

/// The layout of a point in the plane.
#[derive(Clone, Debug, PartialEq)]
pub struct RemotePoint2<T> {
    pub x: T,
    pub y: T,
}

impl<T: DeepView> DeepView for RemotePoint2<T> {
    type V = RemotePoint2<T::V>;

    open spec fn deep_view(&self) -> RemotePoint2<T::V> {
        RemotePoint2 {
            x: self.x.deep_view(),
            y: self.y.deep_view(),
        }
    }
}

impl<T: MtSerialize> MtSerialize for RemotePoint2<T> {
    open spec fn fits(v: RemotePoint2<T::V>, cfg: MtCfg) -> bool {
        &&& T::fits(v.x, def_cfg())
        &&& T::fits(v.y, def_cfg())
    }

    open spec fn wire(v: RemotePoint2<T::V>, cfg: MtCfg) -> Seq<u8> {
        T::wire(v.x, def_cfg()) + T::wire(v.y, def_cfg())
    }

    /// The fault of the first field that does not fit.
    open spec fn fault(v: RemotePoint2<T::V>, cfg: MtCfg) -> WriteFault {
        if !T::fits(v.x, def_cfg()) {
            T::fault(v.x, def_cfg())
        } else {
            T::fault(v.y, def_cfg())
        }
    }

    fn mt_serialize(&self, cfg: MtCfg, writer: &mut Vec<u8>) -> (r: Result<(), SerializeError>) {
        let ghost base = writer@;
        write_part(&self.x, def_cfg(), writer, Ghost(base))?;
        let ghost written = T::wire(self.x.deep_view(), def_cfg());
        write_part(&self.y, def_cfg(), writer, Ghost(base))?;
        proof {
            lemma_join_assoc(base, written, T::wire(self.y.deep_view(), def_cfg()));
        }
        Ok(())
    }
}

impl<T: MtDeserialize> MtDeserialize for RemotePoint2<T> {
    open spec fn parse(cfg: MtCfg, input: Seq<u8>) -> Parsed<RemotePoint2<T::V>> {
        then(input, T::parse(def_cfg(), input), |x, input|
        then(input, T::parse(def_cfg(), input), |y, input|
        done(RemotePoint2 { x, y }, 0)))
    }

    fn mt_deserialize(cfg: MtCfg, reader: &mut WrapRead) -> (r: Result<
        RemotePoint2<T>,
        DeserializeError,
    >) {
        let ghost input = reader@;
        let ghost used: nat = 0;
        assert(input.skip(0) == input);
        let ghost part0 = T::parse(def_cfg(), reader@);
        let x = read_part::<T>(def_cfg(), reader, Ghost(input), Ghost(used))?;
        let ghost used = used + part0.used;
        let ghost part1 = T::parse(def_cfg(), reader@);
        let y = read_part::<T>(def_cfg(), reader, Ghost(input), Ghost(used))?;
        let ghost used = used + part1.used;
        Ok(RemotePoint2 { x, y })
    }
}

impl<T: MtRoundTrip> MtRoundTrip for RemotePoint2<T> {
    open spec fn sound(v: RemotePoint2<T::V>, cfg: MtCfg, rest: Seq<u8>) -> bool {
        let after_y = rest;
        let after_x = T::wire(v.y, def_cfg()) + after_y;
        &&& T::sound(v.x, def_cfg(), after_x)
        &&& T::sound(v.y, def_cfg(), after_y)
    }

    proof fn lemma_round_trip(v: RemotePoint2<T::V>, cfg: MtCfg, rest: Seq<u8>) {
        let after_y = rest;
        let after_x = T::wire(v.y, def_cfg()) + after_y;
        let before = T::wire(v.x, def_cfg());
        lemma_join_assoc(before, T::wire(v.y, def_cfg()), after_y);
        T::lemma_round_trip(v.x, def_cfg(), after_x);
        lemma_skip_joined(T::wire(v.x, def_cfg()), after_x);
        T::lemma_round_trip(v.y, def_cfg(), after_y);
        lemma_skip_joined(T::wire(v.y, def_cfg()), after_y);
    }
}

/// The layout of a point in space.
#[derive(Clone, Debug, PartialEq)]
pub struct RemotePoint3<T> {
    pub x: T,
    pub y: T,
    pub z: T,
}

impl<T: DeepView> DeepView for RemotePoint3<T> {
    type V = RemotePoint3<T::V>;

    open spec fn deep_view(&self) -> RemotePoint3<T::V> {
        RemotePoint3 {
            x: self.x.deep_view(),
            y: self.y.deep_view(),
            z: self.z.deep_view(),
        }
    }
}

impl<T: MtSerialize> MtSerialize for RemotePoint3<T> {
    open spec fn fits(v: RemotePoint3<T::V>, cfg: MtCfg) -> bool {
        &&& T::fits(v.x, def_cfg())
        &&& T::fits(v.y, def_cfg())
        &&& T::fits(v.z, def_cfg())
    }

    open spec fn wire(v: RemotePoint3<T::V>, cfg: MtCfg) -> Seq<u8> {
        T::wire(v.x, def_cfg()) + T::wire(v.y, def_cfg()) + T::wire(v.z, def_cfg())
    }

    /// The fault of the first field that does not fit.
    open spec fn fault(v: RemotePoint3<T::V>, cfg: MtCfg) -> WriteFault {
        if !T::fits(v.x, def_cfg()) {
            T::fault(v.x, def_cfg())
        } else if !T::fits(v.y, def_cfg()) {
            T::fault(v.y, def_cfg())
        } else {
            T::fault(v.z, def_cfg())
        }
    }

    fn mt_serialize(&self, cfg: MtCfg, writer: &mut Vec<u8>) -> (r: Result<(), SerializeError>) {
        let ghost base = writer@;
        write_part(&self.x, def_cfg(), writer, Ghost(base))?;
        let ghost written = T::wire(self.x.deep_view(), def_cfg());
        write_part(&self.y, def_cfg(), writer, Ghost(base))?;
        proof {
            lemma_join_assoc(base, written, T::wire(self.y.deep_view(), def_cfg()));
        }
        let ghost written = written + T::wire(self.y.deep_view(), def_cfg());
        write_part(&self.z, def_cfg(), writer, Ghost(base))?;
        proof {
            lemma_join_assoc(base, written, T::wire(self.z.deep_view(), def_cfg()));
        }
        Ok(())
    }
}

impl<T: MtDeserialize> MtDeserialize for RemotePoint3<T> {
    open spec fn parse(cfg: MtCfg, input: Seq<u8>) -> Parsed<RemotePoint3<T::V>> {
        then(input, T::parse(def_cfg(), input), |x, input|
        then(input, T::parse(def_cfg(), input), |y, input|
        then(input, T::parse(def_cfg(), input), |z, input|
        done(RemotePoint3 { x, y, z }, 0))))
    }

    fn mt_deserialize(cfg: MtCfg, reader: &mut WrapRead) -> (r: Result<
        RemotePoint3<T>,
        DeserializeError,
    >) {
        let ghost input = reader@;
        let ghost used: nat = 0;
        assert(input.skip(0) == input);
        let ghost part0 = T::parse(def_cfg(), reader@);
        let x = read_part::<T>(def_cfg(), reader, Ghost(input), Ghost(used))?;
        let ghost used = used + part0.used;
        let ghost part1 = T::parse(def_cfg(), reader@);
        let y = read_part::<T>(def_cfg(), reader, Ghost(input), Ghost(used))?;
        let ghost used = used + part1.used;
        let ghost part2 = T::parse(def_cfg(), reader@);
        let z = read_part::<T>(def_cfg(), reader, Ghost(input), Ghost(used))?;
        let ghost used = used + part2.used;
        Ok(RemotePoint3 { x, y, z })
    }
}

impl<T: MtRoundTrip> MtRoundTrip for RemotePoint3<T> {
    open spec fn sound(v: RemotePoint3<T::V>, cfg: MtCfg, rest: Seq<u8>) -> bool {
        let after_z = rest;
        let after_y = T::wire(v.z, def_cfg()) + after_z;
        let after_x = T::wire(v.y, def_cfg()) + after_y;
        &&& T::sound(v.x, def_cfg(), after_x)
        &&& T::sound(v.y, def_cfg(), after_y)
        &&& T::sound(v.z, def_cfg(), after_z)
    }

    proof fn lemma_round_trip(v: RemotePoint3<T::V>, cfg: MtCfg, rest: Seq<u8>) {
        let after_z = rest;
        let after_y = T::wire(v.z, def_cfg()) + after_z;
        let after_x = T::wire(v.y, def_cfg()) + after_y;
        let before = T::wire(v.x, def_cfg());
        lemma_join_assoc(before, T::wire(v.y, def_cfg()), after_y);
        let before = before + T::wire(v.y, def_cfg());
        lemma_join_assoc(before, T::wire(v.z, def_cfg()), after_z);
        T::lemma_round_trip(v.x, def_cfg(), after_x);
        lemma_skip_joined(T::wire(v.x, def_cfg()), after_x);
        T::lemma_round_trip(v.y, def_cfg(), after_y);
        lemma_skip_joined(T::wire(v.y, def_cfg()), after_y);
        T::lemma_round_trip(v.z, def_cfg(), after_z);
        lemma_skip_joined(T::wire(v.z, def_cfg()), after_z);
    }
}

/// The layout of an angle in degrees: its number.
#[derive(Clone, Debug, PartialEq)]
pub struct RemoteDeg<T>(pub T);

impl<T: DeepView> DeepView for RemoteDeg<T> {
    type V = RemoteDeg<T::V>;

    open spec fn deep_view(&self) -> RemoteDeg<T::V> {
        RemoteDeg(self.0.deep_view())
    }
}

impl<T: MtSerialize> MtSerialize for RemoteDeg<T> {
    open spec fn fits(v: RemoteDeg<T::V>, cfg: MtCfg) -> bool {
        T::fits(v.0, def_cfg())
    }

    open spec fn wire(v: RemoteDeg<T::V>, cfg: MtCfg) -> Seq<u8> {
        T::wire(v.0, def_cfg())
    }

    /// The fault of the first field that does not fit.
    open spec fn fault(v: RemoteDeg<T::V>, cfg: MtCfg) -> WriteFault {
        T::fault(v.0, def_cfg())
    }

    fn mt_serialize(&self, cfg: MtCfg, writer: &mut Vec<u8>) -> (r: Result<(), SerializeError>) {
        let ghost base = writer@;
        write_part(&self.0, def_cfg(), writer, Ghost(base))?;
        Ok(())
    }
}

impl<T: MtDeserialize> MtDeserialize for RemoteDeg<T> {
    open spec fn parse(cfg: MtCfg, input: Seq<u8>) -> Parsed<RemoteDeg<T::V>> {
        then(input, T::parse(def_cfg(), input), |angle, input|
        done(RemoteDeg(angle), 0))
    }

    fn mt_deserialize(cfg: MtCfg, reader: &mut WrapRead) -> (r: Result<
        RemoteDeg<T>,
        DeserializeError,
    >) {
        let ghost input = reader@;
        let ghost used: nat = 0;
        assert(input.skip(0) == input);
        let ghost part0 = T::parse(def_cfg(), reader@);
        let angle = read_part::<T>(def_cfg(), reader, Ghost(input), Ghost(used))?;
        let ghost used = used + part0.used;
        Ok(RemoteDeg(angle))
    }
}

impl<T: MtRoundTrip> MtRoundTrip for RemoteDeg<T> {
    open spec fn sound(v: RemoteDeg<T::V>, cfg: MtCfg, rest: Seq<u8>) -> bool {
        let after_angle = rest;
        &&& T::sound(v.0, def_cfg(), after_angle)
    }

    proof fn lemma_round_trip(v: RemoteDeg<T::V>, cfg: MtCfg, rest: Seq<u8>) {
        let after_angle = rest;
        T::lemma_round_trip(v.0, def_cfg(), after_angle);
        lemma_skip_joined(T::wire(v.0, def_cfg()), after_angle);
    }
}

/// The layout of an angle in radians: its number.
#[derive(Clone, Debug, PartialEq)]
pub struct RemoteRad<T>(pub T);

impl<T: DeepView> DeepView for RemoteRad<T> {
    type V = RemoteRad<T::V>;

    open spec fn deep_view(&self) -> RemoteRad<T::V> {
        RemoteRad(self.0.deep_view())
    }
}

impl<T: MtSerialize> MtSerialize for RemoteRad<T> {
    open spec fn fits(v: RemoteRad<T::V>, cfg: MtCfg) -> bool {
        T::fits(v.0, def_cfg())
    }

    open spec fn wire(v: RemoteRad<T::V>, cfg: MtCfg) -> Seq<u8> {
        T::wire(v.0, def_cfg())
    }

    /// The fault of the first field that does not fit.
    open spec fn fault(v: RemoteRad<T::V>, cfg: MtCfg) -> WriteFault {
        T::fault(v.0, def_cfg())
    }

    fn mt_serialize(&self, cfg: MtCfg, writer: &mut Vec<u8>) -> (r: Result<(), SerializeError>) {
        let ghost base = writer@;
        write_part(&self.0, def_cfg(), writer, Ghost(base))?;
        Ok(())
    }
}

impl<T: MtDeserialize> MtDeserialize for RemoteRad<T> {
    open spec fn parse(cfg: MtCfg, input: Seq<u8>) -> Parsed<RemoteRad<T::V>> {
        then(input, T::parse(def_cfg(), input), |angle, input|
        done(RemoteRad(angle), 0))
    }

    fn mt_deserialize(cfg: MtCfg, reader: &mut WrapRead) -> (r: Result<
        RemoteRad<T>,
        DeserializeError,
    >) {
        let ghost input = reader@;
        let ghost used: nat = 0;
        assert(input.skip(0) == input);
        let ghost part0 = T::parse(def_cfg(), reader@);
        let angle = read_part::<T>(def_cfg(), reader, Ghost(input), Ghost(used))?;
        let ghost used = used + part0.used;
        Ok(RemoteRad(angle))
    }
}

impl<T: MtRoundTrip> MtRoundTrip for RemoteRad<T> {
    open spec fn sound(v: RemoteRad<T::V>, cfg: MtCfg, rest: Seq<u8>) -> bool {
        let after_angle = rest;
        &&& T::sound(v.0, def_cfg(), after_angle)
    }

    proof fn lemma_round_trip(v: RemoteRad<T::V>, cfg: MtCfg, rest: Seq<u8>) {
        let after_angle = rest;
        T::lemma_round_trip(v.0, def_cfg(), after_angle);
        lemma_skip_joined(T::wire(v.0, def_cfg()), after_angle);
    }
}

/// The layout of three angles of rotation, one for each axis.
#[derive(Clone, Debug, PartialEq)]
pub struct RemoteEuler<T> {
    pub x: T,
    pub y: T,
    pub z: T,
}

impl<T: DeepView> DeepView for RemoteEuler<T> {
    type V = RemoteEuler<T::V>;

    open spec fn deep_view(&self) -> RemoteEuler<T::V> {
        RemoteEuler {
            x: self.x.deep_view(),
            y: self.y.deep_view(),
            z: self.z.deep_view(),
        }
    }
}

impl<T: MtSerialize> MtSerialize for RemoteEuler<T> {
    open spec fn fits(v: RemoteEuler<T::V>, cfg: MtCfg) -> bool {
        &&& T::fits(v.x, def_cfg())
        &&& T::fits(v.y, def_cfg())
        &&& T::fits(v.z, def_cfg())
    }

    open spec fn wire(v: RemoteEuler<T::V>, cfg: MtCfg) -> Seq<u8> {
        T::wire(v.x, def_cfg()) + T::wire(v.y, def_cfg()) + T::wire(v.z, def_cfg())
    }

    /// The fault of the first field that does not fit.
    open spec fn fault(v: RemoteEuler<T::V>, cfg: MtCfg) -> WriteFault {
        if !T::fits(v.x, def_cfg()) {
            T::fault(v.x, def_cfg())
        } else if !T::fits(v.y, def_cfg()) {
            T::fault(v.y, def_cfg())
        } else {
            T::fault(v.z, def_cfg())
        }
    }

    fn mt_serialize(&self, cfg: MtCfg, writer: &mut Vec<u8>) -> (r: Result<(), SerializeError>) {
        let ghost base = writer@;
        write_part(&self.x, def_cfg(), writer, Ghost(base))?;
        let ghost written = T::wire(self.x.deep_view(), def_cfg());
        write_part(&self.y, def_cfg(), writer, Ghost(base))?;
        proof {
            lemma_join_assoc(base, written, T::wire(self.y.deep_view(), def_cfg()));
        }
        let ghost written = written + T::wire(self.y.deep_view(), def_cfg());
        write_part(&self.z, def_cfg(), writer, Ghost(base))?;
        proof {
            lemma_join_assoc(base, written, T::wire(self.z.deep_view(), def_cfg()));
        }
        Ok(())
    }
}

impl<T: MtDeserialize> MtDeserialize for RemoteEuler<T> {
    open spec fn parse(cfg: MtCfg, input: Seq<u8>) -> Parsed<RemoteEuler<T::V>> {
        then(input, T::parse(def_cfg(), input), |x, input|
        then(input, T::parse(def_cfg(), input), |y, input|
        then(input, T::parse(def_cfg(), input), |z, input|
        done(RemoteEuler { x, y, z }, 0))))
    }

    fn mt_deserialize(cfg: MtCfg, reader: &mut WrapRead) -> (r: Result<
        RemoteEuler<T>,
        DeserializeError,
    >) {
        let ghost input = reader@;
        let ghost used: nat = 0;
        assert(input.skip(0) == input);
        let ghost part0 = T::parse(def_cfg(), reader@);
        let x = read_part::<T>(def_cfg(), reader, Ghost(input), Ghost(used))?;
        let ghost used = used + part0.used;
        let ghost part1 = T::parse(def_cfg(), reader@);
        let y = read_part::<T>(def_cfg(), reader, Ghost(input), Ghost(used))?;
        let ghost used = used + part1.used;
        let ghost part2 = T::parse(def_cfg(), reader@);
        let z = read_part::<T>(def_cfg(), reader, Ghost(input), Ghost(used))?;
        let ghost used = used + part2.used;
        Ok(RemoteEuler { x, y, z })
    }
}

impl<T: MtRoundTrip> MtRoundTrip for RemoteEuler<T> {
    open spec fn sound(v: RemoteEuler<T::V>, cfg: MtCfg, rest: Seq<u8>) -> bool {
        let after_z = rest;
        let after_y = T::wire(v.z, def_cfg()) + after_z;
        let after_x = T::wire(v.y, def_cfg()) + after_y;
        &&& T::sound(v.x, def_cfg(), after_x)
        &&& T::sound(v.y, def_cfg(), after_y)
        &&& T::sound(v.z, def_cfg(), after_z)
    }

    proof fn lemma_round_trip(v: RemoteEuler<T::V>, cfg: MtCfg, rest: Seq<u8>) {
        let after_z = rest;
        let after_y = T::wire(v.z, def_cfg()) + after_z;
        let after_x = T::wire(v.y, def_cfg()) + after_y;
        let before = T::wire(v.x, def_cfg());
        lemma_join_assoc(before, T::wire(v.y, def_cfg()), after_y);
        let before = before + T::wire(v.y, def_cfg());
        lemma_join_assoc(before, T::wire(v.z, def_cfg()), after_z);
        T::lemma_round_trip(v.x, def_cfg(), after_x);
        lemma_skip_joined(T::wire(v.x, def_cfg()), after_x);
        T::lemma_round_trip(v.y, def_cfg(), after_y);
        lemma_skip_joined(T::wire(v.y, def_cfg()), after_y);
        T::lemma_round_trip(v.z, def_cfg(), after_z);
        lemma_skip_joined(T::wire(v.z, def_cfg()), after_z);
    }
}

/// The layout of a box in the plane along the axes: its least corner, then its greatest.
#[derive(Clone, Debug, PartialEq)]
pub struct RemoteAabb2<T> {
    pub min: RemotePoint2<T>,
    pub max: RemotePoint2<T>,
}

impl<T: DeepView> DeepView for RemoteAabb2<T> {
    type V = RemoteAabb2<T::V>;

    open spec fn deep_view(&self) -> RemoteAabb2<T::V> {
        RemoteAabb2 {
            min: self.min.deep_view(),
            max: self.max.deep_view(),
        }
    }
}

impl<T: MtSerialize> MtSerialize for RemoteAabb2<T> {
    open spec fn fits(v: RemoteAabb2<T::V>, cfg: MtCfg) -> bool {
        &&& RemotePoint2::<T>::fits(v.min, def_cfg())
        &&& RemotePoint2::<T>::fits(v.max, def_cfg())
    }

    open spec fn wire(v: RemoteAabb2<T::V>, cfg: MtCfg) -> Seq<u8> {
        RemotePoint2::<T>::wire(v.min, def_cfg()) + RemotePoint2::<T>::wire(v.max, def_cfg())
    }

    /// The fault of the first field that does not fit.
    open spec fn fault(v: RemoteAabb2<T::V>, cfg: MtCfg) -> WriteFault {
        if !RemotePoint2::<T>::fits(v.min, def_cfg()) {
            RemotePoint2::<T>::fault(v.min, def_cfg())
        } else {
            RemotePoint2::<T>::fault(v.max, def_cfg())
        }
    }

    fn mt_serialize(&self, cfg: MtCfg, writer: &mut Vec<u8>) -> (r: Result<(), SerializeError>) {
        let ghost base = writer@;
        write_part(&self.min, def_cfg(), writer, Ghost(base))?;
        let ghost written = RemotePoint2::<T>::wire(self.min.deep_view(), def_cfg());
        write_part(&self.max, def_cfg(), writer, Ghost(base))?;
        proof {
            lemma_join_assoc(
                base,
                written,
                RemotePoint2::<T>::wire(self.max.deep_view(), def_cfg()),
            );
        }
        Ok(())
    }
}

impl<T: MtDeserialize> MtDeserialize for RemoteAabb2<T> {
    open spec fn parse(cfg: MtCfg, input: Seq<u8>) -> Parsed<RemoteAabb2<T::V>> {
        then(input, RemotePoint2::<T>::parse(def_cfg(), input), |min, input|
        then(input, RemotePoint2::<T>::parse(def_cfg(), input), |max, input|
        done(RemoteAabb2 { min, max }, 0)))
    }

    fn mt_deserialize(cfg: MtCfg, reader: &mut WrapRead) -> (r: Result<
        RemoteAabb2<T>,
        DeserializeError,
    >) {
        let ghost input = reader@;
        let ghost used: nat = 0;
        assert(input.skip(0) == input);
        let ghost part0 = RemotePoint2::<T>::parse(def_cfg(), reader@);
        let min = read_part::<RemotePoint2<T>>(def_cfg(), reader, Ghost(input), Ghost(used))?;
        let ghost used = used + part0.used;
        let ghost part1 = RemotePoint2::<T>::parse(def_cfg(), reader@);
        let max = read_part::<RemotePoint2<T>>(def_cfg(), reader, Ghost(input), Ghost(used))?;
        let ghost used = used + part1.used;
        Ok(RemoteAabb2 { min, max })
    }
}

impl<T: MtRoundTrip> MtRoundTrip for RemoteAabb2<T> {
    open spec fn sound(v: RemoteAabb2<T::V>, cfg: MtCfg, rest: Seq<u8>) -> bool {
        let after_max = rest;
        let after_min = RemotePoint2::<T>::wire(v.max, def_cfg()) + after_max;
        &&& RemotePoint2::<T>::sound(v.min, def_cfg(), after_min)
        &&& RemotePoint2::<T>::sound(v.max, def_cfg(), after_max)
    }

    proof fn lemma_round_trip(v: RemoteAabb2<T::V>, cfg: MtCfg, rest: Seq<u8>) {
        let after_max = rest;
        let after_min = RemotePoint2::<T>::wire(v.max, def_cfg()) + after_max;
        let before = RemotePoint2::<T>::wire(v.min, def_cfg());
        lemma_join_assoc(before, RemotePoint2::<T>::wire(v.max, def_cfg()), after_max);
        RemotePoint2::<T>::lemma_round_trip(v.min, def_cfg(), after_min);
        lemma_skip_joined(RemotePoint2::<T>::wire(v.min, def_cfg()), after_min);
        RemotePoint2::<T>::lemma_round_trip(v.max, def_cfg(), after_max);
        lemma_skip_joined(RemotePoint2::<T>::wire(v.max, def_cfg()), after_max);
    }
}

/// The layout of a box in space along the axes: its least corner, then its greatest.
#[derive(Clone, Debug, PartialEq)]
pub struct RemoteAabb3<T> {
    pub min: RemotePoint3<T>,
    pub max: RemotePoint3<T>,
}

impl<T: DeepView> DeepView for RemoteAabb3<T> {
    type V = RemoteAabb3<T::V>;

    open spec fn deep_view(&self) -> RemoteAabb3<T::V> {
        RemoteAabb3 {
            min: self.min.deep_view(),
            max: self.max.deep_view(),
        }
    }
}

impl<T: MtSerialize> MtSerialize for RemoteAabb3<T> {
    open spec fn fits(v: RemoteAabb3<T::V>, cfg: MtCfg) -> bool {
        &&& RemotePoint3::<T>::fits(v.min, def_cfg())
        &&& RemotePoint3::<T>::fits(v.max, def_cfg())
    }

    open spec fn wire(v: RemoteAabb3<T::V>, cfg: MtCfg) -> Seq<u8> {
        RemotePoint3::<T>::wire(v.min, def_cfg()) + RemotePoint3::<T>::wire(v.max, def_cfg())
    }

    /// The fault of the first field that does not fit.
    open spec fn fault(v: RemoteAabb3<T::V>, cfg: MtCfg) -> WriteFault {
        if !RemotePoint3::<T>::fits(v.min, def_cfg()) {
            RemotePoint3::<T>::fault(v.min, def_cfg())
        } else {
            RemotePoint3::<T>::fault(v.max, def_cfg())
        }
    }

    fn mt_serialize(&self, cfg: MtCfg, writer: &mut Vec<u8>) -> (r: Result<(), SerializeError>) {
        let ghost base = writer@;
        write_part(&self.min, def_cfg(), writer, Ghost(base))?;
        let ghost written = RemotePoint3::<T>::wire(self.min.deep_view(), def_cfg());
        write_part(&self.max, def_cfg(), writer, Ghost(base))?;
        proof {
            lemma_join_assoc(
                base,
                written,
                RemotePoint3::<T>::wire(self.max.deep_view(), def_cfg()),
            );
        }
        Ok(())
    }
}

impl<T: MtDeserialize> MtDeserialize for RemoteAabb3<T> {
    open spec fn parse(cfg: MtCfg, input: Seq<u8>) -> Parsed<RemoteAabb3<T::V>> {
        then(input, RemotePoint3::<T>::parse(def_cfg(), input), |min, input|
        then(input, RemotePoint3::<T>::parse(def_cfg(), input), |max, input|
        done(RemoteAabb3 { min, max }, 0)))
    }

    fn mt_deserialize(cfg: MtCfg, reader: &mut WrapRead) -> (r: Result<
        RemoteAabb3<T>,
        DeserializeError,
    >) {
        let ghost input = reader@;
        let ghost used: nat = 0;
        assert(input.skip(0) == input);
        let ghost part0 = RemotePoint3::<T>::parse(def_cfg(), reader@);
        let min = read_part::<RemotePoint3<T>>(def_cfg(), reader, Ghost(input), Ghost(used))?;
        let ghost used = used + part0.used;
        let ghost part1 = RemotePoint3::<T>::parse(def_cfg(), reader@);
        let max = read_part::<RemotePoint3<T>>(def_cfg(), reader, Ghost(input), Ghost(used))?;
        let ghost used = used + part1.used;
        Ok(RemoteAabb3 { min, max })
    }
}

impl<T: MtRoundTrip> MtRoundTrip for RemoteAabb3<T> {
    open spec fn sound(v: RemoteAabb3<T::V>, cfg: MtCfg, rest: Seq<u8>) -> bool {
        let after_max = rest;
        let after_min = RemotePoint3::<T>::wire(v.max, def_cfg()) + after_max;
        &&& RemotePoint3::<T>::sound(v.min, def_cfg(), after_min)
        &&& RemotePoint3::<T>::sound(v.max, def_cfg(), after_max)
    }

    proof fn lemma_round_trip(v: RemoteAabb3<T::V>, cfg: MtCfg, rest: Seq<u8>) {
        let after_max = rest;
        let after_min = RemotePoint3::<T>::wire(v.max, def_cfg()) + after_max;
        let before = RemotePoint3::<T>::wire(v.min, def_cfg());
        lemma_join_assoc(before, RemotePoint3::<T>::wire(v.max, def_cfg()), after_max);
        RemotePoint3::<T>::lemma_round_trip(v.min, def_cfg(), after_min);
        lemma_skip_joined(RemotePoint3::<T>::wire(v.min, def_cfg()), after_min);
        RemotePoint3::<T>::lemma_round_trip(v.max, def_cfg(), after_max);
        lemma_skip_joined(RemotePoint3::<T>::wire(v.max, def_cfg()), after_max);
    }
}

} // verus!
