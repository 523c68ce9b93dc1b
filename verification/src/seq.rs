//! Sequences of elements: a length, then the elements one after another,
//! each under the inner configuration.

use crate::cfg::{MtCfg, MtLen};
use crate::codec::{agrees, done, failed, MtDeserialize, MtRoundTrip, MtSerialize, Parsed};
use crate::cfg::spec_def_cfg;
use crate::error::{DeserializeError, ReadFault, SerializeError, WriteFault};
use crate::step::{lemma_join_assoc, lemma_prefix_grows};
use crate::num::lemma_uint_round_trip;
use crate::reader::WrapRead;
use vstd::prelude::*;

verus! {

/// Whether every element of `s` can be written under `cfg`.
pub open spec fn all_fit<T: MtSerialize>(s: Seq<T::V>, cfg: MtCfg) -> bool {
    forall|i: int| 0 <= i < s.len() ==> T::fits(#[trigger] s[i], cfg)
}

/// The bytes of the elements of `s`, each under `cfg`, one after another.
pub open spec fn wire_items<T: MtSerialize>(s: Seq<T::V>, cfg: MtCfg) -> Seq<u8>
    decreases s.len(),
{
    if s.len() == 0 {
        Seq::empty()
    } else {
        T::wire(s[0], cfg) + wire_items::<T>(s.skip(1), cfg)
    }
}

/// Whether a sequence can be written under `cfg`: its length fits the
/// prefix, and its elements fit the inner configuration.
#[verifier::opaque]
pub open spec fn seq_fits<T: MtSerialize>(s: Seq<T::V>, cfg: MtCfg) -> bool {
    cfg.len_fits(s.len()) && all_fit::<T>(s, cfg.spec_inner())
}

/// The bytes of a sequence under `cfg`: the length prefix, then the
/// elements under the inner configuration.
#[verifier::opaque]
pub open spec fn seq_wire<T: MtSerialize>(s: Seq<T::V>, cfg: MtCfg) -> Seq<u8> {
    cfg.len_wire(s.len()) + wire_items::<T>(s, cfg.spec_inner())
}

/// The fault of the first element of `s` that cannot be written under
/// `cfg`.
pub open spec fn items_fault<T: MtSerialize>(s: Seq<T::V>, cfg: MtCfg) -> WriteFault
    decreases s.len(),
{
    if s.len() == 0 {
        WriteFault::TooBig
    } else if !T::fits(s[0], cfg) {
        T::fault(s[0], cfg)
    } else {
        items_fault::<T>(s.skip(1), cfg)
    }
}

/// The fault with which a sequence is refused: `TooBig` where its length
/// does not fit the prefix, else the fault of its first element that does
/// not fit.
#[verifier::opaque]
pub open spec fn seq_fault<T: MtSerialize>(s: Seq<T::V>, cfg: MtCfg) -> WriteFault {
    if !cfg.len_fits(s.len()) {
        WriteFault::TooBig
    } else {
        items_fault::<T>(s, cfg.spec_inner())
    }
}

/// The number of elements at the front of `s` that can be written under
/// `cfg`: the place of the first that cannot, or the length of `s`.
pub open spec fn fitting<T: MtSerialize>(s: Seq<T::V>, cfg: MtCfg) -> nat
    decreases s.len(),
{
    if s.len() == 0 || !T::fits(s[0], cfg) {
        0
    } else {
        1 + fitting::<T>(s.skip(1), cfg)
    }
}

/// What a sink holds for certain once a sequence was refused: nothing where
/// its length does not fit the prefix, else the prefix and the bytes of the
/// elements before the first that does not fit.
#[verifier::opaque]
pub open spec fn seq_written<T: MtSerialize>(s: Seq<T::V>, cfg: MtCfg) -> Seq<u8> {
    if !cfg.len_fits(s.len()) {
        Seq::empty()
    } else {
        cfg.len_wire(s.len()) + wire_items::<T>(
            s.take(fitting::<T>(s, cfg.spec_inner()) as int),
            cfg.spec_inner(),
        )
    }
}

/// Where the elements before the one at `i` fit and that one does not, its
/// fault is the fault of the sequence, and `i` elements fit at the front.
pub proof fn lemma_items_fault_at<T: MtSerialize>(s: Seq<T::V>, cfg: MtCfg, i: int)
    requires
        0 <= i < s.len(),
        forall|j: int| 0 <= j < i ==> T::fits(#[trigger] s[j], cfg),
        !T::fits(s[i], cfg),
    ensures
        items_fault::<T>(s, cfg) == T::fault(s[i], cfg),
        fitting::<T>(s, cfg) == i,
    decreases i,
{
    if i > 0 {
        let tail = s.skip(1);
        assert forall|j: int| 0 <= j < i - 1 implies T::fits(#[trigger] tail[j], cfg) by {
            assert(tail[j] == s[j + 1]);
        }
        assert(tail[i - 1] == s[i]);
        lemma_items_fault_at::<T>(tail, cfg, i - 1);
    }
}

/// The outcome `q` of reading on, seen from where `k` bytes and the elements
/// `front` had been read before.
pub open spec fn prepend<V>(front: Seq<V>, k: nat, q: Parsed<Seq<V>>) -> Parsed<Seq<V>> {
    match q.res {
        Ok(s) => done(front + s, k + q.used),
        Err(e) => failed(e, k + q.used),
    }
}

/// What reading up to `count` elements under `cfg` makes of `input`. Where
/// `open` holds, the end of the input while an element is read ends the
/// sequence; otherwise it is a fault like any other.
pub open spec fn parse_items<T: MtDeserialize>(
    cfg: MtCfg,
    input: Seq<u8>,
    count: nat,
    open: bool,
) -> Parsed<Seq<T::V>>
    decreases count,
{
    if count == 0 {
        done(Seq::empty(), 0)
    } else {
        let p = T::parse(cfg, input);
        match p.res {
            Err(e) => if open && e == ReadFault::UnexpectedEof {
                done(Seq::empty(), p.used)
            } else {
                failed(e, p.used)
            },
            Ok(v) => prepend(
                seq![v],
                p.used,
                parse_items::<T>(cfg, input.skip(p.used as int), (count - 1) as nat, open),
            ),
        }
    }
}

/// What reading a sequence whose length is known makes of `input`.
#[verifier::opaque]
pub open spec fn sized_parse<T: MtDeserialize>(len: MtLen, cfg: MtCfg, input: Seq<u8>) -> Parsed<
    Seq<T::V>,
> {
    parse_items::<T>(cfg.spec_inner(), input, len.positions(), len is Unbounded)
}

/// What reading a sequence under `cfg` makes of `input`: the length, then
/// the elements.
#[verifier::opaque]
pub open spec fn seq_parse<T: MtDeserialize>(cfg: MtCfg, input: Seq<u8>) -> Parsed<Seq<T::V>> {
    let (len, used) = cfg.len_parse(input);
    match len {
        Err(e) => failed(e, used),
        Ok(l) => prepend(Seq::empty(), used, sized_parse::<T>(l, cfg, input.skip(used as int))),
    }
}

/// The bytes of a sequence with one more element are those of the sequence,
/// then those of the element.
pub proof fn lemma_wire_items_push<T: MtSerialize>(s: Seq<T::V>, x: T::V, cfg: MtCfg)
    ensures
        wire_items::<T>(s.push(x), cfg) == wire_items::<T>(s, cfg) + T::wire(x, cfg),
    decreases s.len(),
{
    if s.len() == 0 {
        reveal_with_fuel(wire_items, 2);
        assert(s.push(x).skip(1) == Seq::<T::V>::empty());
        assert(wire_items::<T>(s.push(x), cfg) == T::wire(x, cfg) + Seq::<u8>::empty());
    } else {
        lemma_wire_items_push::<T>(s.skip(1), x, cfg);
        assert(s.push(x).skip(1) == s.skip(1).push(x));
        assert(s.push(x)[0] == s[0]);
    }
}

/// The bytes of two sequences, one after the other, are those of the first,
/// then those of the second.
pub proof fn lemma_wire_items_concat<T: MtSerialize>(a: Seq<T::V>, b: Seq<T::V>, cfg: MtCfg)
    ensures
        wire_items::<T>(a + b, cfg) == wire_items::<T>(a, cfg) + wire_items::<T>(b, cfg),
    decreases a.len(),
{
    if a.len() == 0 {
        assert(a + b == b);
        assert(Seq::<u8>::empty() + wire_items::<T>(b, cfg) == wire_items::<T>(b, cfg));
    } else {
        lemma_wire_items_concat::<T>(a.skip(1), b, cfg);
        assert((a + b).skip(1) == a.skip(1) + b);
        assert((a + b)[0] == a[0]);
    }
}

/// Reading with a count gives exactly that many elements, where it
/// succeeds.
pub proof fn lemma_parse_items_len<T: MtDeserialize>(cfg: MtCfg, input: Seq<u8>, count: nat)
    ensures
        parse_items::<T>(cfg, input, count, false).res matches Ok(s) ==> s.len() == count,
    decreases count,
{
    if count > 0 {
        let p = T::parse(cfg, input);
        lemma_parse_items_len::<T>(cfg, input.skip(p.used as int), (count - 1) as nat);
    }
}

/// Writes a sequence: the length of `items` as `cfg` asks for it, then each
/// element under the inner configuration. A length that does not fit is
/// refused before anything is written; an element that does not fit ends
/// the writing where it stands, and what was written before it stays in the
/// sink.
pub fn mt_serialize_seq<T: MtSerialize>(cfg: MtCfg, writer: &mut Vec<u8>, items: &[T]) -> (r:
    Result<(), SerializeError>)
    ensures
        r is Ok <==> seq_fits::<T>(items.deep_view(), cfg),
        r is Ok ==> final(writer)@ == old(writer)@ + seq_wire::<T>(items.deep_view(), cfg),
        r matches Err(e) ==> e@ == seq_fault::<T>(items.deep_view(), cfg),
        r is Err ==> old(writer)@.is_prefix_of(final(writer)@),
        r is Err ==> (old(writer)@ + seq_written::<T>(items.deep_view(), cfg)).is_prefix_of(
            final(writer)@,
        ),
        !cfg.len_fits(items@.len()) ==> final(writer)@ == old(writer)@,
{
    proof {
        reveal(seq_fits);
        reveal(seq_wire);
        reveal(seq_fault);
        reveal(seq_written);
    }
    let ghost dv = items.deep_view();
    match cfg.write_len(items.len(), writer) {
        Ok(_) => {},
        Err(e) => {
            assert(writer@ + Seq::<u8>::empty() == writer@);
            return Err(e);
        },
    }
    let inner = cfg.inner();
    let ghost head = writer@;
    let mut i: usize = 0;
    while i < items.len()
        invariant
            i <= items.len(),
            dv == items.deep_view(),
            inner == cfg.spec_inner(),
            cfg.len_fits(items@.len()),
            head == old(writer)@ + cfg.len_wire(items@.len()),
            writer@ == head + wire_items::<T>(dv.take(i as int), inner),
            forall|j: int| 0 <= j < i ==> T::fits(#[trigger] dv[j], inner),
        decreases items.len() - i,
    {
        let ghost before = writer@;
        let r = items[i].mt_serialize(inner, writer);
        if r.is_err() {
            proof {
                reveal(seq_fits);
                reveal(seq_fault);
                reveal(seq_written);
                lemma_items_fault_at::<T>(dv, inner, i as int);
                lemma_prefix_grows(old(writer)@, before, writer@);
                lemma_join_assoc(
                    old(writer)@,
                    cfg.len_wire(items@.len()),
                    wire_items::<T>(dv.take(i as int), inner),
                );
            }
            return r;
        }
        proof {
            lemma_wire_items_push::<T>(dv.take(i as int), dv[i as int], inner);
            assert(dv.take(i + 1) == dv.take(i as int).push(dv[i as int]));
        }
        i += 1;
    }
    assert(dv.take(i as int) == dv);
    Ok(())
}

/// Reads the elements of a sequence whose length `len` is known, each under
/// the inner configuration of `cfg`. With a count, every element must be
/// there. Without one, the elements go on until the input ends: the end of
/// the input while an element is read ends the sequence and is no fault.
pub fn mt_deserialize_sized_seq<T: MtDeserialize>(
    len: &MtLen,
    cfg: MtCfg,
    reader: &mut WrapRead,
) -> (r: Result<Vec<T>, DeserializeError>)
    ensures
        agrees(r, sized_parse::<T>(*len, cfg, old(reader)@)),
        sized_parse::<T>(*len, cfg, old(reader)@).used <= old(reader)@.len(),
        final(reader)@ == old(reader)@.skip(sized_parse::<T>(*len, cfg, old(reader)@).used as int),
{
    proof {
        reveal(sized_parse);
    }
    let variable = len.option().is_none();
    let n = len.range().end;
    let inner = cfg.inner();
    let ghost input = reader@;
    let ghost full = parse_items::<T>(inner, input, n as nat, variable);
    let ghost mut used: nat = 0;
    let mut out: Vec<T> = Vec::new();
    let mut i: usize = 0;
    assert(input.skip(0) == input);
    assert(Seq::<T::V>::empty() + Seq::<T::V>::empty() == Seq::<T::V>::empty());
    while i < n
        invariant
            i <= n,
            input == old(reader)@,
            full == sized_parse::<T>(*len, cfg, input),
            used <= input.len(),
            reader@ == input.skip(used as int),
            full == prepend(
                out.deep_view(),
                used,
                parse_items::<T>(inner, reader@, (n - i) as nat, variable),
            ),
        decreases n - i,
    {
        let ghost here = reader@;
        let ghost p = T::parse(inner, here);
        let ghost front = out.deep_view();
        let r = T::mt_deserialize(inner, reader);
        assert(input.skip(used as int).skip(p.used as int) == input.skip((used + p.used) as int));
        match r {
            Ok(v) => {
                let ghost q = parse_items::<T>(
                    inner,
                    here.skip(p.used as int),
                    (n - i - 1) as nat,
                    variable,
                );
                out.push(v);
                proof {
                    assert(out.deep_view() == front.push(v.deep_view()));
                    match q.res {
                        Ok(s) => {
                            assert(front + (seq![v.deep_view()] + s) == front.push(v.deep_view())
                                + s);
                        },
                        Err(e) => {},
                    }
                    used = used + p.used;
                }
                i += 1;
            },
            Err(e) => {
                if variable && matches!(e, DeserializeError::UnexpectedEof) {
                    assert(front + Seq::<T::V>::empty() == front);
                    return Ok(out);
                } else {
                    return Err(e);
                }
            },
        }
    }
    assert(out.deep_view() + Seq::<T::V>::empty() == out.deep_view());
    Ok(out)
}

/// Reads a sequence: its length as `cfg` asks for it, then its elements.
pub fn mt_deserialize_seq<T: MtDeserialize>(cfg: MtCfg, reader: &mut WrapRead) -> (r: Result<
    Vec<T>,
    DeserializeError,
>)
    ensures
        agrees(r, seq_parse::<T>(cfg, old(reader)@)),
        seq_parse::<T>(cfg, old(reader)@).used <= old(reader)@.len(),
        final(reader)@ == old(reader)@.skip(seq_parse::<T>(cfg, old(reader)@).used as int),
{
    proof {
        reveal(seq_parse);
    }
    let ghost input = reader@;
    let len = cfg.read_len(reader)?;
    let ghost used = cfg.len_parse(input).1;
    let ghost q = sized_parse::<T>(len, cfg, input.skip(used as int));
    let r = mt_deserialize_sized_seq::<T>(&len, cfg, reader);
    assert(input.skip(used as int).skip(q.used as int) == input.skip((used + q.used) as int));
    proof {
        match q.res {
            Ok(s) => {
                assert(Seq::<T::V>::empty() + s == s);
            },
            Err(e) => {},
        }
    }
    r
}

/// Whether each element of `s` can be told from what follows it: the
/// elements after it, then `rest`.
pub open spec fn items_sound<T: MtRoundTrip>(s: Seq<T::V>, cfg: MtCfg, rest: Seq<u8>) -> bool
    decreases s.len(),
{
    s.len() == 0 || (T::sound(s[0], cfg, wire_items::<T>(s.skip(1), cfg) + rest) && items_sound::<
        T,
    >(s.skip(1), cfg, rest))
}

/// The elements that were written are read back. With a count, the count
/// is their number. Without one, reading must meet the end of the input
/// right after them.
pub proof fn lemma_items_round_trip<T: MtRoundTrip>(
    s: Seq<T::V>,
    cfg: MtCfg,
    rest: Seq<u8>,
    count: nat,
    open: bool,
)
    requires
        all_fit::<T>(s, cfg),
        items_sound::<T>(s, cfg, rest),
        s.len() <= count,
        s.len() < count ==> open && T::parse(cfg, rest) == failed::<T::V>(
            ReadFault::UnexpectedEof,
            0,
        ),
    ensures
        parse_items::<T>(cfg, wire_items::<T>(s, cfg) + rest, count, open) == done(
            s,
            wire_items::<T>(s, cfg).len(),
        ),
    decreases s.len(),
{
    let bytes = wire_items::<T>(s, cfg);
    if s.len() == 0 {
        assert(bytes + rest == rest);
        assert(s == Seq::<T::V>::empty());
    } else {
        let head = T::wire(s[0], cfg);
        let tail = s.skip(1);
        let tail_bytes = wire_items::<T>(tail, cfg);
        T::lemma_round_trip(s[0], cfg, tail_bytes + rest);
        assert(bytes + rest == head + (tail_bytes + rest));
        assert((head + (tail_bytes + rest)).skip(head.len() as int) == tail_bytes + rest);
        assert forall|i: int| 0 <= i < tail.len() implies T::fits(#[trigger] tail[i], cfg) by {
            assert(tail[i] == s[i + 1]);
        }
        lemma_items_round_trip::<T>(tail, cfg, rest, (count - 1) as nat, open);
        assert(seq![s[0]] + tail == s);
    }
}

/// Whether a sequence under `cfg` can be told from the bytes `rest` after
/// it. Its length must be one that the machine can count. Without a
/// length prefix, reading must meet the end of the input right after the
/// last element.
#[verifier::opaque]
pub open spec fn seq_sound<T: MtRoundTrip>(s: Seq<T::V>, cfg: MtCfg, rest: Seq<u8>) -> bool {
    &&& s.len() <= usize::MAX
    &&& items_sound::<T>(s, cfg.spec_inner(), rest)
    &&& cfg.len is None && s.len() < usize::MAX ==> T::parse(cfg.spec_inner(), rest) == failed::<
        T::V,
    >(ReadFault::UnexpectedEof, 0)
}

/// A sequence that was written is read back.
pub proof fn lemma_seq_round_trip<T: MtRoundTrip>(s: Seq<T::V>, cfg: MtCfg, rest: Seq<u8>)
    requires
        seq_fits::<T>(s, cfg),
        seq_sound::<T>(s, cfg, rest),
    ensures
        seq_parse::<T>(cfg, seq_wire::<T>(s, cfg) + rest) == done(s, seq_wire::<T>(s, cfg).len()),
{
    reveal(seq_fits);
    reveal(seq_wire);
    reveal(seq_parse);
    reveal(sized_parse);
    reveal(seq_sound);
    let inner = cfg.spec_inner();
    let prefix = cfg.len_wire(s.len());
    let items = wire_items::<T>(s, inner);
    let input = seq_wire::<T>(s, cfg) + rest;
    assert(input == prefix + (items + rest));
    assert(Seq::<T::V>::empty() + s == s);
    match cfg.len {
        None => {
            assert(input.skip(0) == input);
            assert(input == items + rest);
            lemma_items_round_trip::<T>(s, inner, rest, usize::MAX as nat, true);
        },
        Some(w) => {
            lemma_uint_round_trip(s.len(), w.spec_bytes(), items + rest);
            assert(input.skip(prefix.len() as int) == items + rest);
            lemma_items_round_trip::<T>(s, inner, rest, s.len(), false);
        },
    }
}

impl<T: MtSerialize> MtSerialize for Vec<T> {
    open spec fn fits(v: Seq<T::V>, cfg: MtCfg) -> bool {
        seq_fits::<T>(v, cfg)
    }

    open spec fn wire(v: Seq<T::V>, cfg: MtCfg) -> Seq<u8> {
        seq_wire::<T>(v, cfg)
    }

    open spec fn fault(v: Seq<T::V>, cfg: MtCfg) -> WriteFault {
        seq_fault::<T>(v, cfg)
    }

    /// A sequence whose length is refused leaves the sink as it was; one
    /// with an element that is refused leaves in it what was written before
    /// that element.
    fn mt_serialize(&self, cfg: MtCfg, writer: &mut Vec<u8>) -> (r: Result<(), SerializeError>)
        ensures
            r is Err ==> (old(writer)@ + seq_written::<T>(self.deep_view(), cfg)).is_prefix_of(
                final(writer)@,
            ),
            !cfg.len_fits(self@.len()) ==> final(writer)@ == old(writer)@,
    {
        let items = self.as_slice();
        assert(items.deep_view() == self.deep_view());
        let r = mt_serialize_seq::<T>(cfg, writer, items);
        assert(Self::fits(self.deep_view(), cfg) == seq_fits::<T>(items.deep_view(), cfg));
        assert(Self::wire(self.deep_view(), cfg) == seq_wire::<T>(items.deep_view(), cfg));
        assert(Self::fault(self.deep_view(), cfg) == seq_fault::<T>(items.deep_view(), cfg));
        r
    }
}

impl<T: MtDeserialize> MtDeserialize for Vec<T> {
    open spec fn parse(cfg: MtCfg, input: Seq<u8>) -> Parsed<Seq<T::V>> {
        seq_parse::<T>(cfg, input)
    }

    fn mt_deserialize(cfg: MtCfg, reader: &mut WrapRead) -> (r: Result<Vec<T>, DeserializeError>) {
        mt_deserialize_seq::<T>(cfg, reader)
    }
}

impl<T: MtRoundTrip> MtRoundTrip for Vec<T> {
    open spec fn sound(v: Seq<T::V>, cfg: MtCfg, rest: Seq<u8>) -> bool {
        seq_sound::<T>(v, cfg, rest)
    }

    proof fn lemma_round_trip(v: Seq<T::V>, cfg: MtCfg, rest: Seq<u8>) {
        lemma_seq_round_trip::<T>(v, cfg, rest);
    }
}

/// `TryFrom<Vec<T>>` of an array, a function of std: the elements of the
/// vector as an array, where their number is the array's length, and
/// nothing otherwise.
#[verifier::external_body]
pub(crate) fn vec_into_array<T, const N: usize>(v: Vec<T>) -> (r: Option<[T; N]>)
    ensures
        v@.len() == N ==> r is Some && r->Some_0@ == v@,
        v@.len() != N ==> r is None,
{
    <[T; N]>::try_from(v).ok()
}

/// Whether `v` can be written as an array of `n` elements: it has that
/// many, and each of them fits the default configuration.
#[verifier::opaque]
pub open spec fn array_fits<T: MtSerialize>(n: nat, v: Seq<T::V>) -> bool {
    v.len() == n && all_fit::<T>(v, spec_def_cfg())
}

/// The bytes of an array: its elements under the default configuration,
/// without a length.
#[verifier::opaque]
pub open spec fn array_wire<T: MtSerialize>(v: Seq<T::V>) -> Seq<u8> {
    wire_items::<T>(v, spec_def_cfg())
}

/// The fault with which an array is refused: that of its first element
/// that does not fit.
#[verifier::opaque]
pub open spec fn array_fault<T: MtSerialize>(v: Seq<T::V>) -> WriteFault {
    items_fault::<T>(v, spec_def_cfg())
}

/// What reading an array of `n` elements makes of `input`: exactly `n`
/// elements, so that the end of the input before the last one is a fault.
#[verifier::opaque]
pub open spec fn array_parse<T: MtDeserialize>(n: nat, input: Seq<u8>) -> Parsed<Seq<T::V>> {
    parse_items::<T>(spec_def_cfg(), input, n, false)
}

/// Whether an array can be told from the bytes `rest` after it.
#[verifier::opaque]
pub open spec fn array_sound<T: MtRoundTrip>(v: Seq<T::V>, rest: Seq<u8>) -> bool {
    items_sound::<T>(v, spec_def_cfg(), rest)
}

impl<T: MtSerialize, const N: usize> MtSerialize for [T; N] {
    /// An array has no length on the wire, and its elements are written
    /// under the default configuration whatever `cfg` is.
    open spec fn fits(v: Seq<T::V>, cfg: MtCfg) -> bool {
        array_fits::<T>(N as nat, v)
    }

    open spec fn wire(v: Seq<T::V>, cfg: MtCfg) -> Seq<u8> {
        array_wire::<T>(v)
    }

    open spec fn fault(v: Seq<T::V>, cfg: MtCfg) -> WriteFault {
        array_fault::<T>(v)
    }

    fn mt_serialize(&self, cfg: MtCfg, writer: &mut Vec<u8>) -> (r: Result<(), SerializeError>) {
        proof {
            reveal(array_fits);
            reveal(array_wire);
            reveal(array_fault);
            reveal(seq_fits);
            reveal(seq_wire);
            reveal(seq_fault);
        }
        let items = self.as_slice();
        assert(items.deep_view() == self.deep_view());
        let ghost bytes = wire_items::<T>(self.deep_view(), spec_def_cfg());
        assert(Seq::<u8>::empty() + bytes == bytes);
        let r = mt_serialize_seq::<T>(MtCfg::no_len(), writer, items);
        assert(Self::fits(self.deep_view(), cfg) == seq_fits::<T>(
            items.deep_view(),
            MtCfg::spec_no_len(),
        ));
        assert(Self::wire(self.deep_view(), cfg) == seq_wire::<T>(
            items.deep_view(),
            MtCfg::spec_no_len(),
        ));
        r
    }
}

impl<T: MtDeserialize, const N: usize> MtDeserialize for [T; N] {
    open spec fn parse(cfg: MtCfg, input: Seq<u8>) -> Parsed<Seq<T::V>> {
        array_parse::<T>(N as nat, input)
    }

    fn mt_deserialize(cfg: MtCfg, reader: &mut WrapRead) -> (r: Result<[T; N], DeserializeError>) {
        proof {
            reveal(array_parse);
            reveal(sized_parse);
            lemma_parse_items_len::<T>(spec_def_cfg(), reader@, N as nat);
        }
        let items = mt_deserialize_sized_seq::<T>(&MtLen::Exact(N), MtCfg::no_len(), reader)?;
        assert(items.deep_view().len() == N);
        match vec_into_array::<T, N>(items) {
            Some(a) => {
                assert(a.deep_view() == items.deep_view());
                Ok(a)
            },
            None => vstd::pervasive::unreached(),
        }
    }
}

impl<T: MtRoundTrip, const N: usize> MtRoundTrip for [T; N] {
    open spec fn sound(v: Seq<T::V>, cfg: MtCfg, rest: Seq<u8>) -> bool {
        array_sound::<T>(v, rest)
    }

    proof fn lemma_round_trip(v: Seq<T::V>, cfg: MtCfg, rest: Seq<u8>) {
        reveal(array_fits);
        reveal(array_wire);
        reveal(array_parse);
        reveal(array_sound);
        lemma_items_round_trip::<T>(v, spec_def_cfg(), rest, N as nat, false);
    }
}

/// A sequence longer than its length prefix can count is refused, and
/// nothing else about its length is.
pub proof fn lemma_seq_too_long<T: MtSerialize>(s: Seq<T::V>, cfg: MtCfg)
    ensures
        !cfg.len_fits(s.len()) ==> !seq_fits::<T>(s, cfg),
        cfg.len_fits(s.len()) && all_fit::<T>(s, cfg.spec_inner()) ==> seq_fits::<T>(s, cfg),
{
    reveal(seq_fits);
}

/// Where reading an element fails, a sequence without a count ends there if
/// the failure is the end of the input, and fails with it otherwise; a
/// sequence with a count fails with it either way.
pub proof fn lemma_sequence_end<T: MtDeserialize>(cfg: MtCfg, input: Seq<u8>, count: nat)
    requires
        count > 0,
        T::parse(cfg, input).res is Err,
    ensures
        parse_items::<T>(cfg, input, count, false) == failed::<Seq<T::V>>(
            T::parse(cfg, input).res->Err_0,
            T::parse(cfg, input).used,
        ),
        T::parse(cfg, input).res->Err_0 == ReadFault::UnexpectedEof ==> parse_items::<T>(
            cfg,
            input,
            count,
            true,
        ) == done(Seq::<T::V>::empty(), T::parse(cfg, input).used),
        T::parse(cfg, input).res->Err_0 != ReadFault::UnexpectedEof ==> parse_items::<T>(
            cfg,
            input,
            count,
            true,
        ) == failed::<Seq<T::V>>(T::parse(cfg, input).res->Err_0, T::parse(cfg, input).used),
{
}

/// What is left of `input` once `k` elements were read from its front.
pub open spec fn left_after<T: MtDeserialize>(cfg: MtCfg, input: Seq<u8>, k: nat) -> Seq<u8>
    decreases k,
{
    if k == 0 {
        input
    } else {
        left_after::<T>(cfg, input.skip(T::parse(cfg, input).used as int), (k - 1) as nat)
    }
}

/// Where `k` elements can be read and reading the next one fails, a
/// sequence of more than `k` positions ends there: without a count, and if
/// the failure is the end of the input, it is the `k` elements; in every
/// other case it fails with that fault, however many elements were read
/// before.
pub proof fn lemma_sequence_end_after<T: MtDeserialize>(
    cfg: MtCfg,
    input: Seq<u8>,
    k: nat,
    count: nat,
    open: bool,
)
    requires
        k < count,
        parse_items::<T>(cfg, input, k, false).res is Ok,
        T::parse(cfg, left_after::<T>(cfg, input, k)).res is Err,
    ensures
        ({
            let front = parse_items::<T>(cfg, input, k, false);
            let last = T::parse(cfg, left_after::<T>(cfg, input, k));
            parse_items::<T>(cfg, input, count, open) == if open && last.res->Err_0
                == ReadFault::UnexpectedEof {
                done(front.res->Ok_0, front.used + last.used)
            } else {
                failed::<Seq<T::V>>(last.res->Err_0, front.used + last.used)
            }
        }),
    decreases k,
{
    if k == 0 {
        assert(Seq::<T::V>::empty() + Seq::<T::V>::empty() == Seq::<T::V>::empty());
    } else {
        let p = T::parse(cfg, input);
        let tail = input.skip(p.used as int);
        let q = parse_items::<T>(cfg, tail, (k - 1) as nat, false);
        assert(p.res is Ok);
        assert(q.res is Ok);
        lemma_sequence_end_after::<T>(cfg, tail, (k - 1) as nat, (count - 1) as nat, open);
    }
}

} // verus!
