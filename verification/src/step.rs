//! The steps of which the codec of a struct or of a variant is made: one
//! part after another, each on what the parts before it left.

use crate::cfg::MtCfg;
use crate::codec::{agrees, failed, MtDeserialize, MtSerialize, Parsed};
use crate::error::{DeserializeError, Raw, ReadFault, SerializeError};
use crate::literal::{const_parse, raw_fits, raw_wire, read_const};
use crate::pipeline::{
    base_parse, deserialize_field, field_fault, field_fits, field_parse, field_wire,
    serialize_field, MtArgs,
};
use crate::reader::WrapRead;
use vstd::prelude::*;

verus! {

/// The outcome `p` of reading on, seen from where `k` bytes had been used
/// before.
pub open spec fn shift<V>(k: nat, p: Parsed<V>) -> Parsed<V> {
    Parsed { res: p.res, used: k + p.used }
}

/// The outcome of reading one part, `p`, of `input` and then going on with
/// `next` on the value read and on what is left of the input.
pub open spec fn then<A, B>(
    input: Seq<u8>,
    p: Parsed<A>,
    next: spec_fn(A, Seq<u8>) -> Parsed<B>,
) -> Parsed<B> {
    match p.res {
        Err(e) => failed(e, p.used),
        Ok(a) => shift(p.used, next(a, input.skip(p.used as int))),
    }
}

/// Joining is associative.
pub proof fn lemma_join_assoc(a: Seq<u8>, b: Seq<u8>, c: Seq<u8>)
    ensures
        (a + b) + c == a + (b + c),
{
    assert((a + b) + c =~= a + (b + c));
}

/// What is left of two joined parts after the first is the second.
pub proof fn lemma_skip_joined(a: Seq<u8>, b: Seq<u8>)
    ensures
        (a + b).skip(a.len() as int) == b,
        (a + b).len() == a.len() + b.len(),
{
    assert((a + b).skip(a.len() as int) =~= b);
}

/// What stands in front of a sink stays there when more is written.
pub proof fn lemma_prefix_grows(base: Seq<u8>, mid: Seq<u8>, end: Seq<u8>)
    requires
        base.is_prefix_of(mid),
        mid.is_prefix_of(end),
    ensures
        base.is_prefix_of(end),
{
    assert(base =~= end.subrange(0, base.len() as int)) by {
        assert(mid =~= end.subrange(0, mid.len() as int));
        assert(base =~= mid.subrange(0, base.len() as int));
    }
}

/// Writes one part of a larger value. Beyond the contract of
/// `mt_serialize`, a failure leaves in front of the sink what the larger
/// value found there: `base`.
pub(crate) fn write_part<T: MtSerialize>(
    value: &T,
    cfg: MtCfg,
    writer: &mut Vec<u8>,
    Ghost(base): Ghost<Seq<u8>>,
) -> (r: Result<(), SerializeError>)
    requires
        base.is_prefix_of(old(writer)@),
    ensures
        r is Ok <==> T::fits(value.deep_view(), cfg),
        r is Ok ==> final(writer)@ == old(writer)@ + T::wire(value.deep_view(), cfg),
        r matches Err(e) ==> e@ == T::fault(value.deep_view(), cfg),
        base.is_prefix_of(final(writer)@),
{
    let r = value.mt_serialize(cfg, writer);
    proof {
        lemma_prefix_grows(base, old(writer)@, writer@);
    }
    r
}

/// Writes a constant as one part of a larger value.
pub(crate) fn write_const_part(want: &Raw, writer: &mut Vec<u8>, Ghost(base): Ghost<Seq<u8>>) -> (r:
    Result<(), SerializeError>)
    requires
        base.is_prefix_of(old(writer)@),
    ensures
        r is Ok <==> raw_fits(want@),
        r is Ok ==> final(writer)@ == old(writer)@ + raw_wire(want@),
        base.is_prefix_of(final(writer)@),
        !(want@ is Str) ==> r is Ok,
{
    let r = want.write(writer);
    proof {
        lemma_prefix_grows(base, old(writer)@, writer@);
    }
    r
}

/// Writes a field with modifiers as one part of a larger value.
pub(crate) fn write_field_part<T: MtSerialize>(
    value: &T,
    args: &MtArgs,
    writer: &mut Vec<u8>,
    Ghost(base): Ghost<Seq<u8>>,
) -> (r: Result<(), SerializeError>)
    requires
        base.is_prefix_of(old(writer)@),
    ensures
        r is Ok <==> field_fits::<T>(value.deep_view(), args@),
        r is Ok ==> final(writer)@ == old(writer)@ + field_wire::<T>(value.deep_view(), args@),
        r matches Err(e) ==> e@ == field_fault::<T>(value.deep_view(), args@),
        base.is_prefix_of(final(writer)@),
{
    let r = serialize_field::<T>(value, args, writer);
    proof {
        lemma_prefix_grows(base, old(writer)@, writer@);
    }
    r
}

/// What is left after two parts is what is left after both together.
pub proof fn lemma_skip_twice(input: Seq<u8>, a: nat, b: nat)
    requires
        a + b <= input.len(),
    ensures
        input.skip(a as int).skip(b as int) == input.skip((a + b) as int),
{
    assert(input.skip(a as int).skip(b as int) =~= input.skip((a + b) as int));
}

/// Reads one part of a larger value that began at `input` and has used
/// `used` bytes of it so far.
pub(crate) fn read_part<T: MtDeserialize>(
    cfg: MtCfg,
    reader: &mut WrapRead,
    Ghost(input): Ghost<Seq<u8>>,
    Ghost(used): Ghost<nat>,
) -> (r: Result<T, DeserializeError>)
    requires
        used <= input.len(),
        old(reader)@ == input.skip(used as int),
    ensures
        agrees(r, T::parse(cfg, old(reader)@)),
        used + T::parse(cfg, old(reader)@).used <= input.len(),
        final(reader)@ == old(reader)@.skip(T::parse(cfg, old(reader)@).used as int),
        final(reader)@ == input.skip((used + T::parse(cfg, old(reader)@).used) as int),
{
    let r = T::mt_deserialize(cfg, reader);
    proof {
        lemma_skip_twice(input, used, T::parse(cfg, old(reader)@).used);
    }
    r
}

/// Reads one part of a larger value, with `fallback` in its place where
/// the input ends while it is read.
pub(crate) fn read_part_or<T: MtDeserialize>(
    cfg: MtCfg,
    reader: &mut WrapRead,
    fallback: T,
    Ghost(input): Ghost<Seq<u8>>,
    Ghost(used): Ghost<nat>,
) -> (r: Result<T, DeserializeError>)
    requires
        used <= input.len(),
        old(reader)@ == input.skip(used as int),
    ensures
        agrees(r, base_parse::<T>(cfg, old(reader)@, Some(fallback.deep_view()))),
        used + T::parse(cfg, old(reader)@).used <= input.len(),
        final(reader)@ == old(reader)@.skip(T::parse(cfg, old(reader)@).used as int),
        final(reader)@ == input.skip((used + T::parse(cfg, old(reader)@).used) as int),
{
    let r = T::mt_deserialize(cfg, reader);
    proof {
        lemma_skip_twice(input, used, T::parse(cfg, old(reader)@).used);
    }
    match r {
        Err(DeserializeError::UnexpectedEof) => Ok(fallback),
        x => x,
    }
}

/// Checks for a constant as one part of a larger value.
pub(crate) fn read_const_part(
    want: &Raw,
    reader: &mut WrapRead,
    Ghost(input): Ghost<Seq<u8>>,
    Ghost(used): Ghost<nat>,
) -> (r: Result<(), DeserializeError>)
    requires
        used <= input.len(),
        old(reader)@ == input.skip(used as int),
    ensures
        match r {
            Ok(_) => const_parse(want@, old(reader)@).res is Ok,
            Err(e) => const_parse(want@, old(reader)@).res == Err::<(), ReadFault>(e@),
        },
        used + const_parse(want@, old(reader)@).used <= input.len(),
        final(reader)@ == old(reader)@.skip(const_parse(want@, old(reader)@).used as int),
        final(reader)@ == input.skip((used + const_parse(want@, old(reader)@).used) as int),
{
    let r = read_const(want, reader);
    proof {
        lemma_skip_twice(input, used, const_parse(want@, old(reader)@).used);
    }
    r
}

/// Reads a field with modifiers as one part of a larger value.
pub(crate) fn read_field_part<T: MtDeserialize>(
    args: &MtArgs,
    reader: &mut WrapRead,
    Ghost(input): Ghost<Seq<u8>>,
    Ghost(used): Ghost<nat>,
) -> (r: Result<T, DeserializeError>)
    requires
        used <= input.len(),
        old(reader)@ == input.skip(used as int),
    ensures
        agrees(r, field_parse::<T>(args@, old(reader)@, None)),
        used + field_parse::<T>(args@, old(reader)@, None).used <= input.len(),
        final(reader)@ == old(reader)@.skip(
            field_parse::<T>(args@, old(reader)@, None).used as int,
        ),
        final(reader)@ == input.skip(
            (used + field_parse::<T>(args@, old(reader)@, None).used) as int,
        ),
{
    let r = deserialize_field::<T>(args, reader, None);
    proof {
        lemma_skip_twice(input, used, field_parse::<T>(args@, old(reader)@, None).used);
    }
    r
}

} // verus!
