//! Literal constants in the stream: primitive values that are written as
//! they are and must be found again when reading.

use crate::cfg::{def_cfg, spec_def_cfg};
use crate::codec::{done, failed, MtDeserialize, MtRoundTrip, MtSerialize, Parsed};
use crate::error::{DeserializeError, Raw, RawView, ReadFault, SerializeError, WriteFault};
use crate::reader::WrapRead;
use vstd::prelude::*;

verus! {

/// Whether a primitive value can be written: text must fit the 16-bit
/// length of the default configuration.
#[verifier::opaque]
pub open spec fn raw_fits(v: RawView) -> bool {
    match v {
        RawView::Str(s) => String::fits(s, spec_def_cfg()),
        _ => true,
    }
}

/// The bytes of a primitive value under the default configuration.
#[verifier::opaque]
pub open spec fn raw_wire(v: RawView) -> Seq<u8> {
    match v {
        RawView::U8(x) => u8::wire(x, spec_def_cfg()),
        RawView::I8(x) => i8::wire(x, spec_def_cfg()),
        RawView::U16(x) => u16::wire(x, spec_def_cfg()),
        RawView::I16(x) => i16::wire(x, spec_def_cfg()),
        RawView::U32(x) => u32::wire(x, spec_def_cfg()),
        RawView::I32(x) => i32::wire(x, spec_def_cfg()),
        RawView::U64(x) => u64::wire(x, spec_def_cfg()),
        RawView::I64(x) => i64::wire(x, spec_def_cfg()),
        RawView::Bool(x) => bool::wire(x, spec_def_cfg()),
        RawView::Str(x) => String::wire(x, spec_def_cfg()),
    }
}

/// The outcome `p` with its value put into a primitive value by `wrap`.
pub open spec fn raw_of<V>(p: Parsed<V>, wrap: spec_fn(V) -> RawView) -> Parsed<RawView> {
    match p.res {
        Ok(v) => done(wrap(v), p.used),
        Err(e) => failed(e, p.used),
    }
}

/// What reading a primitive value of the kind of `like` makes of `input`.
#[verifier::opaque]
pub open spec fn raw_parse(like: RawView, input: Seq<u8>) -> Parsed<RawView> {
    match like {
        RawView::U8(_) => raw_of(u8::parse(spec_def_cfg(), input), |x: u8| RawView::U8(x)),
        RawView::I8(_) => raw_of(i8::parse(spec_def_cfg(), input), |x: i8| RawView::I8(x)),
        RawView::U16(_) => raw_of(u16::parse(spec_def_cfg(), input), |x: u16| RawView::U16(x)),
        RawView::I16(_) => raw_of(i16::parse(spec_def_cfg(), input), |x: i16| RawView::I16(x)),
        RawView::U32(_) => raw_of(u32::parse(spec_def_cfg(), input), |x: u32| RawView::U32(x)),
        RawView::I32(_) => raw_of(i32::parse(spec_def_cfg(), input), |x: i32| RawView::I32(x)),
        RawView::U64(_) => raw_of(u64::parse(spec_def_cfg(), input), |x: u64| RawView::U64(x)),
        RawView::I64(_) => raw_of(i64::parse(spec_def_cfg(), input), |x: i64| RawView::I64(x)),
        RawView::Bool(_) => raw_of(bool::parse(spec_def_cfg(), input), |x: bool| RawView::Bool(x)),
        RawView::Str(_) => raw_of(
            String::parse(spec_def_cfg(), input),
            |x: Seq<char>| RawView::Str(x),
        ),
    }
}

impl Raw {
    /// Writes the value under the default configuration.
    pub fn write(&self, writer: &mut Vec<u8>) -> (r: Result<(), SerializeError>)
        ensures
            r is Ok <==> raw_fits(self@),
            r is Ok ==> final(writer)@ == old(writer)@ + raw_wire(self@),
            r matches Err(e) ==> e@ == WriteFault::TooBig,
            r is Err ==> old(writer)@.is_prefix_of(final(writer)@),
            !(self@ is Str) ==> r is Ok,
    {
        proof {
            reveal(raw_fits);
            reveal(raw_wire);
        }
        match self {
            Raw::U8(x) => x.mt_serialize(def_cfg(), writer),
            Raw::I8(x) => x.mt_serialize(def_cfg(), writer),
            Raw::U16(x) => x.mt_serialize(def_cfg(), writer),
            Raw::I16(x) => x.mt_serialize(def_cfg(), writer),
            Raw::U32(x) => x.mt_serialize(def_cfg(), writer),
            Raw::I32(x) => x.mt_serialize(def_cfg(), writer),
            Raw::U64(x) => x.mt_serialize(def_cfg(), writer),
            Raw::I64(x) => x.mt_serialize(def_cfg(), writer),
            Raw::Bool(x) => x.mt_serialize(def_cfg(), writer),
            Raw::Str(x) => x.mt_serialize(def_cfg(), writer),
        }
    }

    /// Reads a value of the same kind as `self` under the default
    /// configuration.
    pub fn read_like(&self, reader: &mut WrapRead) -> (r: Result<Raw, DeserializeError>)
        ensures
            match r {
                Ok(v) => raw_parse(self@, old(reader)@).res == Ok::<RawView, ReadFault>(v@),
                Err(e) => raw_parse(self@, old(reader)@).res == Err::<RawView, ReadFault>(e@),
            },
            raw_parse(self@, old(reader)@).used <= old(reader)@.len(),
            final(reader)@ == old(reader)@.skip(raw_parse(self@, old(reader)@).used as int),
    {
        reveal(raw_parse);
        match self {
            Raw::U8(_) => Ok(Raw::U8(u8::mt_deserialize(def_cfg(), reader)?)),
            Raw::I8(_) => Ok(Raw::I8(i8::mt_deserialize(def_cfg(), reader)?)),
            Raw::U16(_) => Ok(Raw::U16(u16::mt_deserialize(def_cfg(), reader)?)),
            Raw::I16(_) => Ok(Raw::I16(i16::mt_deserialize(def_cfg(), reader)?)),
            Raw::U32(_) => Ok(Raw::U32(u32::mt_deserialize(def_cfg(), reader)?)),
            Raw::I32(_) => Ok(Raw::I32(i32::mt_deserialize(def_cfg(), reader)?)),
            Raw::U64(_) => Ok(Raw::U64(u64::mt_deserialize(def_cfg(), reader)?)),
            Raw::I64(_) => Ok(Raw::I64(i64::mt_deserialize(def_cfg(), reader)?)),
            Raw::Bool(_) => Ok(Raw::Bool(bool::mt_deserialize(def_cfg(), reader)?)),
            Raw::Str(_) => Ok(Raw::Str(String::mt_deserialize(def_cfg(), reader)?)),
        }
    }
}

/// What checking for the constant `want` makes of `input`: nothing but the
/// bytes used where the value read equals `want`, the fault `InvalidConst`
/// with both values where it differs.
#[verifier::opaque]
pub open spec fn const_parse(want: RawView, input: Seq<u8>) -> Parsed<()> {
    let p = raw_parse(want, input);
    match p.res {
        Err(e) => failed(e, p.used),
        Ok(got) => if got == want {
            done((), p.used)
        } else {
            failed(ReadFault::InvalidConst(want, got), p.used)
        },
    }
}

/// Reads a value of the kind of `want` and compares it with `want`.
pub fn read_const(want: &Raw, reader: &mut WrapRead) -> (r: Result<(), DeserializeError>)
    ensures
        match r {
            Ok(_) => const_parse(want@, old(reader)@).res is Ok,
            Err(e) => const_parse(want@, old(reader)@).res == Err::<(), ReadFault>(e@),
        },
        const_parse(want@, old(reader)@).used <= old(reader)@.len(),
        final(reader)@ == old(reader)@.skip(const_parse(want@, old(reader)@).used as int),
{
    proof {
        reveal(const_parse);
    }
    let got = want.read_like(reader)?;
    if want.same(&got) {
        Ok(())
    } else {
        Err(DeserializeError::InvalidConst(want.duplicate(), got))
    }
}

/// A constant that was written is found again, whatever follows it. A text
/// must be one that fits its length.
pub proof fn lemma_const_round_trip(want: RawView, rest: Seq<u8>)
    requires
        want matches RawView::Str(s) ==> String::fits(s, spec_def_cfg()),
    ensures
        const_parse(want, raw_wire(want) + rest) == done((), raw_wire(want).len()),
{
    let cfg = spec_def_cfg();
    reveal(raw_parse);
    reveal(raw_wire);
    reveal(const_parse);
    match want {
        RawView::U8(x) => u8::lemma_round_trip(x, cfg, rest),
        RawView::I8(x) => i8::lemma_round_trip(x, cfg, rest),
        RawView::U16(x) => u16::lemma_round_trip(x, cfg, rest),
        RawView::I16(x) => i16::lemma_round_trip(x, cfg, rest),
        RawView::U32(x) => u32::lemma_round_trip(x, cfg, rest),
        RawView::I32(x) => i32::lemma_round_trip(x, cfg, rest),
        RawView::U64(x) => u64::lemma_round_trip(x, cfg, rest),
        RawView::I64(x) => i64::lemma_round_trip(x, cfg, rest),
        RawView::Bool(x) => bool::lemma_round_trip(x, cfg, rest),
        RawView::Str(x) => {
            assert(String::sound(x, cfg, rest)) by {
                reveal(crate::text::str_fits);
                reveal(crate::text::str_sound);
                crate::cfg::lemma_len_fits(cfg, vstd::utf8::encode_utf8(x).len());
            }
            String::lemma_round_trip(x, cfg, rest)
        },
    }
}

/// Whether every constant of `list` can be written.
pub open spec fn consts_fit(list: Seq<RawView>) -> bool {
    forall|i: int| 0 <= i < list.len() ==> raw_fits(#[trigger] list[i])
}

/// The bytes of the constants of `list`, one after another.
pub open spec fn consts_wire(list: Seq<RawView>) -> Seq<u8>
    decreases list.len(),
{
    if list.len() == 0 {
        Seq::empty()
    } else {
        raw_wire(list[0]) + consts_wire(list.skip(1))
    }
}

/// What checking for the constants of `list`, in order, makes of `input`.
pub open spec fn consts_parse(list: Seq<RawView>, input: Seq<u8>) -> Parsed<()>
    decreases list.len(),
{
    if list.len() == 0 {
        done((), 0)
    } else {
        let p = const_parse(list[0], input);
        match p.res {
            Err(e) => failed(e, p.used),
            Ok(_) => {
                let q = consts_parse(list.skip(1), input.skip(p.used as int));
                Parsed { res: q.res, used: p.used + q.used }
            },
        }
    }
}

/// The views of a list of constants.
pub open spec fn raw_views(list: Seq<Raw>) -> Seq<RawView> {
    Seq::new(list.len(), |i: int| list[i]@)
}

/// The bytes of a list with one more constant are those of the list, then
/// those of the constant.
pub proof fn lemma_consts_wire_push(list: Seq<RawView>, x: RawView)
    ensures
        consts_wire(list.push(x)) == consts_wire(list) + raw_wire(x),
    decreases list.len(),
{
    if list.len() == 0 {
        reveal_with_fuel(consts_wire, 2);
        assert(list.push(x).skip(1) == Seq::<RawView>::empty());
        assert(consts_wire(list.push(x)) == raw_wire(x) + Seq::<u8>::empty());
    } else {
        lemma_consts_wire_push(list.skip(1), x);
        assert(list.push(x).skip(1) == list.skip(1).push(x));
        assert(list.push(x)[0] == list[0]);
    }
}

/// Writes the constants of `list`, in order.
pub fn write_consts(list: &[Raw], writer: &mut Vec<u8>) -> (r: Result<(), SerializeError>)
    ensures
        r is Ok <==> consts_fit(raw_views(list@)),
        r is Ok ==> final(writer)@ == old(writer)@ + consts_wire(raw_views(list@)),
        r matches Err(e) ==> e@ == WriteFault::TooBig,
        r is Err ==> old(writer)@.is_prefix_of(final(writer)@),
{
    let ghost views = raw_views(list@);
    let mut i: usize = 0;
    assert(writer@ == old(writer)@ + Seq::<u8>::empty());
    while i < list.len()
        invariant
            i <= list.len(),
            views == raw_views(list@),
            writer@ == old(writer)@ + consts_wire(views.take(i as int)),
            forall|j: int| 0 <= j < i ==> raw_fits(#[trigger] views[j]),
        decreases list.len() - i,
    {
        let ghost before = writer@;
        let r = list[i].write(writer);
        if r.is_err() {
            assert(!raw_fits(views[i as int]));
            proof {
                crate::step::lemma_prefix_grows(old(writer)@, before, writer@);
            }
            return r;
        }
        proof {
            lemma_consts_wire_push(views.take(i as int), views[i as int]);
            assert(views.take(i + 1) == views.take(i as int).push(views[i as int]));
        }
        i += 1;
    }
    assert(views.take(i as int) == views);
    Ok(())
}

/// Reads the constants of `list`, in order, and stops at the first that is
/// missing or differs.
pub fn read_consts(list: &[Raw], reader: &mut WrapRead) -> (r: Result<(), DeserializeError>)
    ensures
        match r {
            Ok(_) => consts_parse(raw_views(list@), old(reader)@).res is Ok,
            Err(e) => consts_parse(raw_views(list@), old(reader)@).res == Err::<(), ReadFault>(e@),
        },
        consts_parse(raw_views(list@), old(reader)@).used <= old(reader)@.len(),
        final(reader)@ == old(reader)@.skip(
            consts_parse(raw_views(list@), old(reader)@).used as int,
        ),
{
    let ghost views = raw_views(list@);
    let ghost input = reader@;
    let ghost full = consts_parse(views, input);
    let ghost mut used: nat = 0;
    let mut i: usize = 0;
    assert(input.skip(0) == input);
    assert(views.skip(0) == views);
    while i < list.len()
        invariant
            i <= list.len(),
            views == raw_views(list@),
            input == old(reader)@,
            full == consts_parse(views, input),
            used <= input.len(),
            reader@ == input.skip(used as int),
            full == (Parsed {
                res: consts_parse(views.skip(i as int), reader@).res,
                used: used + consts_parse(views.skip(i as int), reader@).used,
            }),
        decreases list.len() - i,
    {
        let ghost here = reader@;
        let ghost p = const_parse(views[i as int], here);
        assert(views.skip(i as int)[0] == views[i as int]);
        assert(views.skip(i as int).skip(1) == views.skip(i + 1));
        let r = read_const(&list[i], reader);
        assert(input.skip(used as int).skip(p.used as int) == input.skip((used + p.used) as int));
        match r {
            Ok(_) => {
                proof {
                    used = used + p.used;
                }
            },
            Err(e) => {
                return Err(e);
            },
        }
        i += 1;
    }
    Ok(())
}

/// Constants that were written are found again, whatever follows them.
pub proof fn lemma_consts_round_trip(list: Seq<RawView>, rest: Seq<u8>)
    requires
        consts_fit(list),
    ensures
        consts_parse(list, consts_wire(list) + rest) == done((), consts_wire(list).len()),
    decreases list.len(),
{
    if list.len() == 0 {
    } else {
        let head = raw_wire(list[0]);
        let tail = list.skip(1);
        let follow = consts_wire(tail) + rest;
        assert(raw_fits(list[0]));
        reveal(raw_fits);
        lemma_const_round_trip(list[0], follow);
        assert(consts_wire(list) + rest == head + follow);
        assert((head + follow).skip(head.len() as int) == follow);
        assert forall|i: int| 0 <= i < tail.len() implies raw_fits(#[trigger] tail[i]) by {
            assert(tail[i] == list[i + 1]);
        }
        lemma_consts_round_trip(tail, rest);
    }
}

/// Where the value read differs from the constant, the fault is
/// `InvalidConst`, and it carries the value wanted and the value read.
pub proof fn lemma_const_mismatch(want: RawView, input: Seq<u8>)
    requires
        raw_parse(want, input).res matches Ok(got) && got != want,
    ensures
        const_parse(want, input) == failed::<()>(
            ReadFault::InvalidConst(want, raw_parse(want, input).res->Ok_0),
            raw_parse(want, input).used,
        ),
{
    reveal(const_parse);
}

} // verus!
