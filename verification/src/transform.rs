//! Transforms of a value on its way to and from the wire: scaling by a
//! factor, and a mapping that the caller supplies and that may fail. On the
//! way out a value is scaled, then mapped, then written as a field with its
//! modifiers; on the way in it is read as a field, then mapped, then
//! divided.

use crate::cfg::MtCfg;
use crate::codec::{MtDeserialize, MtSerialize};
use crate::error::{DeserializeError, ReadFault, SerializeError};
use crate::pipeline::{
    deserialize_field, field_fault, field_fits, field_parse, field_wire, serialize_field, MtArgs,
};
use crate::reader::WrapRead;
use core::ops::{Div, Mul};
use vstd::prelude::*;
use vstd::std_specs::ops::{DivSpec, MulSpec};

verus! {

/// Writes `value` times `multiplier`.
pub fn serialize_scaled<T, M>(value: T, multiplier: M, cfg: MtCfg, writer: &mut Vec<u8>) -> (r:
    Result<(), SerializeError>) where T: Mul<M, Output = T> + MtSerialize
    requires
        <T as MulSpec<M>>::obeys_mul_spec(),
        value.mul_req(multiplier),
    ensures
        r is Ok <==> T::fits(value.mul_spec(multiplier).deep_view(), cfg),
        r is Ok ==> final(writer)@ == old(writer)@ + T::wire(
            value.mul_spec(multiplier).deep_view(),
            cfg,
        ),
        r matches Err(e) ==> e@ == T::fault(value.mul_spec(multiplier).deep_view(), cfg),
        r is Err ==> old(writer)@.is_prefix_of(final(writer)@),
{
    let scaled = value * multiplier;
    scaled.mt_serialize(cfg, writer)
}

/// Reads a value and divides it by `divisor`.
pub fn deserialize_scaled<T, D>(divisor: D, cfg: MtCfg, reader: &mut WrapRead) -> (r: Result<
    T,
    DeserializeError,
>) where T: Div<D, Output = T> + MtDeserialize
    requires
        <T as DivSpec<D>>::obeys_div_spec(),
        forall|v: T| #[trigger] v.div_req(divisor),
    ensures
        match r {
            Ok(q) => exists|v: T|
                T::parse(cfg, old(reader)@).res == Ok::<T::V, ReadFault>(v.deep_view()) && q
                    == #[trigger] v.div_spec(divisor),
            Err(e) => T::parse(cfg, old(reader)@).res == Err::<T::V, ReadFault>(e@),
        },
        T::parse(cfg, old(reader)@).used <= old(reader)@.len(),
        final(reader)@ == old(reader)@.skip(T::parse(cfg, old(reader)@).used as int),
{
    match T::mt_deserialize(cfg, reader) {
        Ok(v) => Ok(v / divisor),
        Err(e) => Err(e),
    }
}

/// Writes what `map` makes of `value`. Where `map` fails, its error is the
/// outcome and nothing is written.
pub fn serialize_mapped<I, O: MtSerialize, F: FnOnce(I) -> Result<O, SerializeError>>(
    map: F,
    value: I,
    cfg: MtCfg,
    writer: &mut Vec<u8>,
) -> (r: Result<(), SerializeError>)
    requires
        call_requires(map, (value,)),
    ensures
        exists|m: Result<O, SerializeError>| #[trigger]
            call_ensures(map, (value,), m) && match m {
                Ok(o) => {
                    &&& r is Ok <==> O::fits(o.deep_view(), cfg)
                    &&& r is Ok ==> final(writer)@ == old(writer)@ + O::wire(o.deep_view(), cfg)
                    &&& r matches Err(e) ==> e@ == O::fault(o.deep_view(), cfg)
                    &&& r is Err ==> old(writer)@.is_prefix_of(final(writer)@)
                },
                Err(e) => r == Err::<(), SerializeError>(e) && final(writer)@ == old(writer)@,
            },
{
    match map(value) {
        Ok(o) => o.mt_serialize(cfg, writer),
        Err(e) => Err(e),
    }
}

/// Reads a value and hands it to `map`. Where reading fails, `map` is not
/// called.
pub fn deserialize_mapped<I: MtDeserialize, O, F: FnOnce(I) -> Result<O, DeserializeError>>(
    map: F,
    cfg: MtCfg,
    reader: &mut WrapRead,
) -> (r: Result<O, DeserializeError>)
    requires
        forall|v: I| #[trigger] call_requires(map, (v,)),
    ensures
        match I::parse(cfg, old(reader)@).res {
            Ok(x) => exists|v: I| v.deep_view() == x && #[trigger] call_ensures(map, (v,), r),
            Err(f) => r matches Err(e) && e@ == f,
        },
        I::parse(cfg, old(reader)@).used <= old(reader)@.len(),
        final(reader)@ == old(reader)@.skip(I::parse(cfg, old(reader)@).used as int),
{
    match I::mt_deserialize(cfg, reader) {
        Ok(v) => map(v),
        Err(e) => Err(e),
    }
}

/// Writes `value` times `multiplier` as a field with the modifiers.
pub fn serialize_field_scaled<T, M>(
    value: T,
    multiplier: M,
    args: &MtArgs,
    writer: &mut Vec<u8>,
) -> (r: Result<(), SerializeError>) where T: Mul<M, Output = T> + MtSerialize
    requires
        <T as MulSpec<M>>::obeys_mul_spec(),
        value.mul_req(multiplier),
    ensures
        r is Ok <==> field_fits::<T>(value.mul_spec(multiplier).deep_view(), args@),
        r is Ok ==> final(writer)@ == old(writer)@ + field_wire::<T>(
            value.mul_spec(multiplier).deep_view(),
            args@,
        ),
        r matches Err(e) ==> e@ == field_fault::<T>(value.mul_spec(multiplier).deep_view(), args@),
        r is Err ==> old(writer)@.is_prefix_of(final(writer)@),
{
    let scaled = value * multiplier;
    serialize_field(&scaled, args, writer)
}

/// Reads a field with the modifiers and divides its value, or the fallback
/// that took its place, by `divisor`.
pub fn deserialize_field_scaled<T, D>(
    divisor: D,
    args: &MtArgs,
    reader: &mut WrapRead,
    fallback: Option<T>,
) -> (r: Result<T, DeserializeError>) where T: Div<D, Output = T> + MtDeserialize
    requires
        <T as DivSpec<D>>::obeys_div_spec(),
        forall|v: T| #[trigger] v.div_req(divisor),
    ensures
        match r {
            Ok(q) => exists|v: T|
                field_parse::<T>(args@, old(reader)@, fallback.deep_view()).res == Ok::<
                    T::V,
                    ReadFault,
                >(v.deep_view()) && q == #[trigger] v.div_spec(divisor),
            Err(e) => field_parse::<T>(args@, old(reader)@, fallback.deep_view()).res == Err::<
                T::V,
                ReadFault,
            >(e@),
        },
        field_parse::<T>(args@, old(reader)@, fallback.deep_view()).used <= old(reader)@.len(),
        final(reader)@ == old(reader)@.skip(
            field_parse::<T>(args@, old(reader)@, fallback.deep_view()).used as int,
        ),
{
    match deserialize_field::<T>(args, reader, fallback) {
        Ok(v) => Ok(v / divisor),
        Err(e) => Err(e),
    }
}

/// Writes what `map` makes of `value` as a field with the modifiers. Where
/// `map` fails, its error is the outcome and nothing is written.
pub fn serialize_field_mapped<I, O: MtSerialize, F: FnOnce(I) -> Result<O, SerializeError>>(
    map: F,
    value: I,
    args: &MtArgs,
    writer: &mut Vec<u8>,
) -> (r: Result<(), SerializeError>)
    requires
        call_requires(map, (value,)),
    ensures
        exists|m: Result<O, SerializeError>| #[trigger]
            call_ensures(map, (value,), m) && match m {
                Ok(o) => {
                    &&& r is Ok <==> field_fits::<O>(o.deep_view(), args@)
                    &&& r is Ok ==> final(writer)@ == old(writer)@ + field_wire::<O>(
                        o.deep_view(),
                        args@,
                    )
                    &&& r matches Err(e) ==> e@ == field_fault::<O>(o.deep_view(), args@)
                    &&& r is Err ==> old(writer)@.is_prefix_of(final(writer)@)
                },
                Err(e) => r == Err::<(), SerializeError>(e) && final(writer)@ == old(writer)@,
            },
{
    match map(value) {
        Ok(o) => serialize_field(&o, args, writer),
        Err(e) => Err(e),
    }
}

/// Reads a field with the modifiers and hands its value, or the fallback
/// that took its place, to `map`. Where reading fails, `map` is not called.
pub fn deserialize_field_mapped<I: MtDeserialize, O, F: FnOnce(I) -> Result<O, DeserializeError>>(
    map: F,
    args: &MtArgs,
    reader: &mut WrapRead,
    fallback: Option<I>,
) -> (r: Result<O, DeserializeError>)
    requires
        forall|v: I| #[trigger] call_requires(map, (v,)),
    ensures
        match field_parse::<I>(args@, old(reader)@, fallback.deep_view()).res {
            Ok(x) => exists|v: I| v.deep_view() == x && #[trigger] call_ensures(map, (v,), r),
            Err(f) => r matches Err(e) && e@ == f,
        },
        field_parse::<I>(args@, old(reader)@, fallback.deep_view()).used <= old(reader)@.len(),
        final(reader)@ == old(reader)@.skip(
            field_parse::<I>(args@, old(reader)@, fallback.deep_view()).used as int,
        ),
{
    match deserialize_field::<I>(args, reader, fallback) {
        Ok(v) => map(v),
        Err(e) => Err(e),
    }
}

/// Writes a field with both transforms: `value` times `multiplier`, then
/// what `map` makes of the product, written with the modifiers. Where `map`
/// fails, its error is the outcome and nothing is written.
pub fn serialize_field_scaled_mapped<T, M, O: MtSerialize, F: FnOnce(T) -> Result<
    O,
    SerializeError,
>>(value: T, multiplier: M, map: F, args: &MtArgs, writer: &mut Vec<u8>) -> (r: Result<
    (),
    SerializeError,
>) where T: Mul<M, Output = T>
    requires
        <T as MulSpec<M>>::obeys_mul_spec(),
        value.mul_req(multiplier),
        call_requires(map, (value.mul_spec(multiplier),)),
    ensures
        exists|m: Result<O, SerializeError>| #[trigger]
            call_ensures(map, (value.mul_spec(multiplier),), m) && match m {
                Ok(o) => {
                    &&& r is Ok <==> field_fits::<O>(o.deep_view(), args@)
                    &&& r is Ok ==> final(writer)@ == old(writer)@ + field_wire::<O>(
                        o.deep_view(),
                        args@,
                    )
                    &&& r matches Err(e) ==> e@ == field_fault::<O>(o.deep_view(), args@)
                    &&& r is Err ==> old(writer)@.is_prefix_of(final(writer)@)
                },
                Err(e) => r == Err::<(), SerializeError>(e) && final(writer)@ == old(writer)@,
            },
{
    let scaled = value * multiplier;
    serialize_field_mapped(map, scaled, args, writer)
}

/// Reads a field with both transforms: the value read with the modifiers,
/// or the fallback that took its place, is handed to `map`, and what `map`
/// makes of it is divided by `divisor`. Where reading fails, `map` is not
/// called; where `map` fails, its error is the outcome.
pub fn deserialize_field_mapped_scaled<I: MtDeserialize, O, D, F: FnOnce(I) -> Result<
    O,
    DeserializeError,
>>(map: F, divisor: D, args: &MtArgs, reader: &mut WrapRead, fallback: Option<I>) -> (r: Result<
    O,
    DeserializeError,
>) where O: Div<D, Output = O>
    requires
        <O as DivSpec<D>>::obeys_div_spec(),
        forall|o: O| #[trigger] o.div_req(divisor),
        forall|v: I| #[trigger] call_requires(map, (v,)),
    ensures
        match field_parse::<I>(args@, old(reader)@, fallback.deep_view()).res {
            Ok(x) => exists|v: I, m: Result<O, DeserializeError>|
                v.deep_view() == x && #[trigger] call_ensures(map, (v,), m) && match m {
                    Ok(o) => r == Ok::<O, DeserializeError>(o.div_spec(divisor)),
                    Err(e) => r == Err::<O, DeserializeError>(e),
                },
            Err(f) => r matches Err(e) && e@ == f,
        },
        field_parse::<I>(args@, old(reader)@, fallback.deep_view()).used <= old(reader)@.len(),
        final(reader)@ == old(reader)@.skip(
            field_parse::<I>(args@, old(reader)@, fallback.deep_view()).used as int,
        ),
{
    match deserialize_field::<I>(args, reader, fallback) {
        Ok(v) => match map(v) {
            Ok(o) => Ok(o / divisor),
            Err(e) => Err(e),
        },
        Err(e) => Err(e),
    }
}

} // verus!
