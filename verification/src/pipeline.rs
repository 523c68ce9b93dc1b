//! The modifiers of a field, applied in their fixed order around the codec
//! of the field's value: literal constants outermost, then the size frame,
//! then the compressors, then the fallback for a field that is missing.

use crate::cfg::{spec_def_cfg, LenWidth, MtCfg};
use crate::codec::{agrees, done, failed, MtDeserialize, MtRoundTrip, MtSerialize, Parsed};
use crate::endian::{be_bytes, get_uint, parse_uint, put_bytes};
use crate::error::{DeserializeError, Raw, RawView, ReadFault, SerializeError, WriteFault};
use crate::literal::{
    consts_fit, consts_parse, consts_wire, lemma_consts_round_trip, raw_views, read_consts,
    write_consts,
};
use crate::num::lemma_uint_round_trip;
use crate::pack::{pack, packed, unpack, unpacked};
use crate::reader::WrapRead;
use crate::seq::{mt_serialize_seq, seq_fault, seq_fits, seq_wire};
use crate::step::lemma_prefix_grows;
use crate::text::lemma_wire_bytes;
use vstd::prelude::*;

verus! {

/// The modifiers that a schema declares for one field, one variant or one
/// whole type.
pub struct MtArgs<'a> {
    /// Literal constants that stand before the value, in order.
    pub const_before: Vec<Raw>,
    /// Literal constants that stand after the value, in order.
    pub const_after: Vec<Raw>,
    /// The width of a size prefix, where the value is framed by its size in
    /// bytes.
    pub size: Option<LenWidth>,
    /// The configuration of the value itself.
    pub len: MtCfg<'a>,
    /// Whether the value is compressed with zlib.
    pub zlib: bool,
    /// Whether the value is compressed with zstd, around zlib where both
    /// are asked for.
    pub zstd: bool,
}

/// The mathematical value of the modifiers.
pub ghost struct ArgsView<'a> {
    pub before: Seq<RawView>,
    pub after: Seq<RawView>,
    pub size: Option<LenWidth>,
    pub len: MtCfg<'a>,
    pub zlib: bool,
    pub zstd: bool,
}

impl<'a> View for MtArgs<'a> {
    type V = ArgsView<'a>;

    open spec fn view(&self) -> ArgsView<'a> {
        ArgsView {
            before: raw_views(self.const_before@),
            after: raw_views(self.const_after@),
            size: self.size,
            len: self.len,
            zlib: self.zlib,
            zstd: self.zstd,
        }
    }
}

/// No modifier at all: the value under `len`.
pub open spec fn plain_args<'a>(len: MtCfg<'a>) -> ArgsView<'a> {
    ArgsView {
        before: Seq::empty(),
        after: Seq::empty(),
        size: None,
        len,
        zlib: false,
        zstd: false,
    }
}

/// A size frame of the width `size` around the value under `len`.
pub open spec fn sized_args<'a>(size: LenWidth, len: MtCfg<'a>) -> ArgsView<'a> {
    ArgsView {
        before: Seq::empty(),
        after: Seq::empty(),
        size: Some(size),
        len,
        zlib: false,
        zstd: false,
    }
}

impl<'a> MtArgs<'a> {
    /// No modifier at all: the value under `len`.
    pub fn plain(len: MtCfg<'a>) -> (r: MtArgs<'a>)
        ensures
            r@ == plain_args(len),
    {
        let r = MtArgs {
            const_before: Vec::new(),
            const_after: Vec::new(),
            size: None,
            len,
            zlib: false,
            zstd: false,
        };
        assert(r@.before == Seq::<RawView>::empty());
        assert(r@.after == Seq::<RawView>::empty());
        r
    }

    /// A size frame of the width `size` around the value under `len`.
    pub fn sized(size: LenWidth, len: MtCfg<'a>) -> (r: MtArgs<'a>)
        ensures
            r@ == sized_args(size, len),
    {
        let r = MtArgs {
            const_before: Vec::new(),
            const_after: Vec::new(),
            size: Some(size),
            len,
            zlib: false,
            zstd: false,
        };
        assert(r@.before == Seq::<RawView>::empty());
        assert(r@.after == Seq::<RawView>::empty());
        r
    }
}

/// Whether `body` can stand in a frame of the given width.
pub open spec fn frame_fits(size: Option<LenWidth>, body: Seq<u8>) -> bool {
    match size {
        Some(w) => w.holds(body.len()),
        None => true,
    }
}

/// The bytes of `body` in its frame: its length in bytes, then `body`.
pub open spec fn framed(size: Option<LenWidth>, body: Seq<u8>) -> Seq<u8> {
    match size {
        Some(w) => be_bytes(body.len(), w.spec_bytes()) + body,
        None => body,
    }
}

/// Whether the encoded value `body` can be written with the modifiers.
pub open spec fn args_fit(args: ArgsView, body: Seq<u8>) -> bool {
    &&& consts_fit(args.before)
    &&& packed(args.zlib, args.zstd, body) matches Some(p) && frame_fits(args.size, p)
    &&& consts_fit(args.after)
}

/// The bytes of the encoded value `body` with the modifiers around it: the
/// constants before, the compressed value in its frame, the constants
/// after.
pub open spec fn args_wire(args: ArgsView, body: Seq<u8>) -> Seq<u8> {
    consts_wire(args.before) + framed(args.size, packed(args.zlib, args.zstd, body)->Some_0)
        + consts_wire(args.after)
}

/// The fault with which the encoded value `body` is refused: `Io` where a
/// compressor fails, `TooBig` where a constant or the frame does not fit.
pub open spec fn args_fault(args: ArgsView, body: Seq<u8>) -> WriteFault {
    if consts_fit(args.before) && packed(args.zlib, args.zstd, body) is None {
        WriteFault::Io
    } else {
        WriteFault::TooBig
    }
}

/// Writes the encoded value `body` with the modifiers around it. Where it
/// is refused after the constants before it were written, they stay in the
/// sink.
pub fn serialize_args(args: &MtArgs, body: Vec<u8>, writer: &mut Vec<u8>) -> (r: Result<
    (),
    SerializeError,
>)
    ensures
        r is Ok <==> args_fit(args@, body@),
        r is Ok ==> final(writer)@ == old(writer)@ + args_wire(args@, body@),
        r matches Err(e) ==> e@ == args_fault(args@, body@),
        r is Err ==> old(writer)@.is_prefix_of(final(writer)@),
        r is Err && consts_fit(args@.before) ==> (old(writer)@ + consts_wire(
            args@.before,
        )).is_prefix_of(final(writer)@),
{
    write_consts(args.const_before.as_slice(), writer)?;
    let ghost first = writer@;
    let inner = match pack(args.zlib, args.zstd, body) {
        Ok(v) => v,
        Err(e) => {
            return Err(e);
        },
    };
    let bytes = inner.as_slice();
    match args.size {
        Some(w) => {
            proof {
                reveal(seq_fits);
                reveal(seq_wire);
                reveal(seq_fault);
                assert(bytes.deep_view() == inner@);
                lemma_wire_bytes(inner@, spec_def_cfg());
            }
            let r = mt_serialize_seq::<u8>(MtCfg::with_len(w), writer, bytes);
            if r.is_err() {
                proof {
                    lemma_prefix_grows(old(writer)@, first, writer@);
                }
                return r;
            }
        },
        None => {
            put_bytes(writer, bytes);
        },
    }
    let ghost second = writer@;
    assert(second == first + framed(args.size, inner@));
    let r = write_consts(args.const_after.as_slice(), writer);
    proof {
        lemma_prefix_grows(old(writer)@, second, writer@);
        lemma_prefix_grows(first, second, writer@);
        if r is Ok {
            assert(writer@ == old(writer)@ + args_wire(args@, body@));
        }
    }
    r
}

/// Whether `v` can be written as a field with the modifiers.
#[verifier::opaque]
pub open spec fn field_fits<T: MtSerialize>(v: T::V, args: ArgsView) -> bool {
    T::fits(v, args.len) && args_fit(args, T::wire(v, args.len))
}

/// The bytes of `v` as a field with the modifiers.
#[verifier::opaque]
pub open spec fn field_wire<T: MtSerialize>(v: T::V, args: ArgsView) -> Seq<u8> {
    args_wire(args, T::wire(v, args.len))
}

/// The fault with which a field is refused: that of the value where it
/// does not fit, else that of the modifiers.
#[verifier::opaque]
pub open spec fn field_fault<T: MtSerialize>(v: T::V, args: ArgsView) -> WriteFault {
    if !T::fits(v, args.len) {
        T::fault(v, args.len)
    } else {
        args_fault(args, T::wire(v, args.len))
    }
}

/// Writes a field: the value under the configuration of the modifiers, with
/// the modifiers around it. The value is encoded before anything is
/// written: where it is refused, the sink stays as it was. Where the
/// modifiers refuse it, what was written before stays in the sink.
pub fn serialize_field<T: MtSerialize>(value: &T, args: &MtArgs, writer: &mut Vec<u8>) -> (r:
    Result<(), SerializeError>)
    ensures
        r is Ok <==> field_fits::<T>(value.deep_view(), args@),
        r is Ok ==> final(writer)@ == old(writer)@ + field_wire::<T>(value.deep_view(), args@),
        r matches Err(e) ==> e@ == field_fault::<T>(value.deep_view(), args@),
        r is Err ==> old(writer)@.is_prefix_of(final(writer)@),
        !T::fits(value.deep_view(), args@.len) ==> final(writer)@ == old(writer)@,
        r is Err && T::fits(value.deep_view(), args@.len) && consts_fit(args@.before) ==> (
        old(writer)@ + consts_wire(args@.before)).is_prefix_of(final(writer)@),
{
    proof {
        reveal(field_fits);
        reveal(field_wire);
        reveal(field_fault);
    }
    let mut body: Vec<u8> = Vec::new();
    let r = value.mt_serialize(args.len, &mut body);
    match r {
        Err(e) => Err(e),
        Ok(_) => {
            assert(body@ == T::wire(value.deep_view(), args.len));
            serialize_args(args, body, writer)
        },
    }
}

/// What reading the value itself makes of `input`, with `fallback` in its
/// place where the input ends while it is read.
pub open spec fn base_parse<T: MtDeserialize>(
    cfg: MtCfg,
    input: Seq<u8>,
    fallback: Option<T::V>,
) -> Parsed<T::V> {
    let p = T::parse(cfg, input);
    match fallback {
        Some(d) => if p.res == Err::<T::V, ReadFault>(ReadFault::UnexpectedEof) {
            done(d, p.used)
        } else {
            p
        },
        None => p,
    }
}

/// What reading the value through the compressors makes of `input`. A
/// region that cannot be decompressed uses up the input; where it cannot
/// because the input ended, `fallback` takes the place of the value.
pub open spec fn packed_parse<T: MtDeserialize>(
    args: ArgsView,
    input: Seq<u8>,
    fallback: Option<T::V>,
) -> Parsed<T::V> {
    if !args.zlib && !args.zstd {
        base_parse::<T>(args.len, input, fallback)
    } else {
        match unpacked(args.zlib, args.zstd, input) {
            Err(e) => match fallback {
                Some(d) => if e == ReadFault::UnexpectedEof {
                    done(d, input.len())
                } else {
                    failed(e, input.len())
                },
                None => failed(e, input.len()),
            },
            Ok((plain, used)) => Parsed {
                res: base_parse::<T>(args.len, plain, fallback).res,
                used,
            },
        }
    }
}

/// The bytes of a frame that says it holds `n` bytes: that many, or all of
/// `input` where it is shorter.
pub open spec fn frame_body(n: nat, input: Seq<u8>) -> Seq<u8> {
    if n <= input.len() {
        input.take(n as int)
    } else {
        input
    }
}

/// What reading the value through its size frame makes of `input`. After a
/// value was read, the rest of the frame is passed over; after a fault, the
/// reading stops where it stands.
pub open spec fn framed_parse<T: MtDeserialize>(
    args: ArgsView,
    input: Seq<u8>,
    fallback: Option<T::V>,
) -> Parsed<T::V> {
    match args.size {
        None => packed_parse::<T>(args, input, fallback),
        Some(w) => {
            let (size, used) = parse_uint(input, w.spec_bytes());
            match size {
                None => failed(ReadFault::UnexpectedEof, used),
                Some(n) => {
                    let body = frame_body(n, input.skip(used as int));
                    let p = packed_parse::<T>(args, body, fallback);
                    match p.res {
                        Ok(v) => done(v, used + body.len()),
                        Err(e) => failed(e, used + p.used),
                    }
                },
            }
        },
    }
}

/// What reading a field with the modifiers makes of `input`: the constants
/// before, the value, the constants after.
#[verifier::opaque]
pub open spec fn field_parse<T: MtDeserialize>(
    args: ArgsView,
    input: Seq<u8>,
    fallback: Option<T::V>,
) -> Parsed<T::V> {
    let a = consts_parse(args.before, input);
    match a.res {
        Err(e) => failed(e, a.used),
        Ok(_) => {
            let p = framed_parse::<T>(args, input.skip(a.used as int), fallback);
            match p.res {
                Err(e) => failed(e, a.used + p.used),
                Ok(v) => {
                    let b = consts_parse(args.after, input.skip((a.used + p.used) as int));
                    match b.res {
                        Err(e) => failed(e, a.used + p.used + b.used),
                        Ok(_) => done(v, a.used + p.used + b.used),
                    }
                },
            }
        },
    }
}

/// Reads the value itself, with `fallback` in its place where the input
/// ends while it is read.
fn base_read<T: MtDeserialize>(cfg: MtCfg, reader: &mut WrapRead, fallback: Option<T>) -> (r:
    Result<T, DeserializeError>)
    ensures
        agrees(r, base_parse::<T>(cfg, old(reader)@, fallback.deep_view())),
        base_parse::<T>(cfg, old(reader)@, fallback.deep_view()).used <= old(reader)@.len(),
        final(reader)@ == old(reader)@.skip(
            base_parse::<T>(cfg, old(reader)@, fallback.deep_view()).used as int,
        ),
{
    let r = T::mt_deserialize(cfg, reader);
    match fallback {
        None => r,
        Some(d) => match r {
            Err(DeserializeError::UnexpectedEof) => Ok(d),
            x => x,
        },
    }
}

/// Reads the value through the compressors.
fn packed_read<T: MtDeserialize>(args: &MtArgs, reader: &mut WrapRead, fallback: Option<T>) -> (r:
    Result<T, DeserializeError>)
    ensures
        agrees(r, packed_parse::<T>(args@, old(reader)@, fallback.deep_view())),
        packed_parse::<T>(args@, old(reader)@, fallback.deep_view()).used <= old(reader)@.len(),
        final(reader)@ == old(reader)@.skip(
            packed_parse::<T>(args@, old(reader)@, fallback.deep_view()).used as int,
        ),
{
    if !args.zlib && !args.zstd {
        base_read::<T>(args.len, reader, fallback)
    } else {
        let ghost input = reader@;
        match unpack(args.zlib, args.zstd, reader) {
            Err(e) => {
                assert(input.skip(input.len() as int) == reader@);
                match fallback {
                    None => Err(e),
                    Some(d) => match e {
                        DeserializeError::UnexpectedEof => Ok(d),
                        x => Err(x),
                    },
                }
            },
            Ok(plain) => {
                let mut inner = WrapRead::new(plain.as_slice());
                base_read::<T>(args.len, &mut inner, fallback)
            },
        }
    }
}

/// Reads the value through its size frame.
fn framed_read<T: MtDeserialize>(args: &MtArgs, reader: &mut WrapRead, fallback: Option<T>) -> (r:
    Result<T, DeserializeError>)
    ensures
        agrees(r, framed_parse::<T>(args@, old(reader)@, fallback.deep_view())),
        framed_parse::<T>(args@, old(reader)@, fallback.deep_view()).used <= old(reader)@.len(),
        final(reader)@ == old(reader)@.skip(
            framed_parse::<T>(args@, old(reader)@, fallback.deep_view()).used as int,
        ),
{
    match args.size {
        None => packed_read::<T>(args, reader, fallback),
        Some(w) => {
            let ghost input = reader@;
            let ghost used = parse_uint(input, w.spec_bytes()).1;
            let n = get_uint(reader, w.bytes())?;
            let avail = reader.remaining();
            let limit: usize = if n <= avail as u64 {
                n as usize
            } else {
                avail
            };
            let mut sub = reader.take(limit);
            let ghost body = sub@;
            assert(body == frame_body(n as nat, input.skip(used as int))) by {
                assert(input.skip(used as int).take(avail as int) == input.skip(used as int));
            }
            let ghost p = packed_parse::<T>(args@, body, fallback.deep_view());
            let r = packed_read::<T>(args, &mut sub, fallback);
            let left = sub.remaining();
            match r {
                Ok(v) => {
                    reader.advance(limit);
                    assert(input.skip(used as int).skip(limit as int) == input.skip(
                        (used + body.len()) as int,
                    ));
                    Ok(v)
                },
                Err(e) => {
                    reader.advance(limit - left);
                    assert(input.skip(used as int).skip(p.used as int) == input.skip(
                        (used + p.used) as int,
                    ));
                    Err(e)
                },
            }
        },
    }
}

/// Reads a field with the modifiers around its value: checks the constants
/// before it, opens the size frame and the compressed region, reads the
/// value under the configuration of the modifiers, passes over what is left
/// of the frame, and checks the constants after it. Where `fallback` is
/// given, it takes the place of a value at which the input ends.
pub fn deserialize_field<T: MtDeserialize>(
    args: &MtArgs,
    reader: &mut WrapRead,
    fallback: Option<T>,
) -> (r: Result<T, DeserializeError>)
    ensures
        agrees(r, field_parse::<T>(args@, old(reader)@, fallback.deep_view())),
        field_parse::<T>(args@, old(reader)@, fallback.deep_view()).used <= old(reader)@.len(),
        final(reader)@ == old(reader)@.skip(
            field_parse::<T>(args@, old(reader)@, fallback.deep_view()).used as int,
        ),
{
    proof {
        reveal(field_parse);
    }
    let ghost input = reader@;
    let ghost a = consts_parse(args@.before, input);
    read_consts(args.const_before.as_slice(), reader)?;
    let ghost p = framed_parse::<T>(args@, input.skip(a.used as int), fallback.deep_view());
    let r = framed_read::<T>(args, reader, fallback);
    assert(input.skip(a.used as int).skip(p.used as int) == input.skip((a.used + p.used) as int));
    let v = r?;
    let ghost b = consts_parse(args@.after, input.skip((a.used + p.used) as int));
    let r = read_consts(args.const_after.as_slice(), reader);
    assert(input.skip((a.used + p.used) as int).skip(b.used as int) == input.skip(
        (a.used + p.used + b.used) as int,
    ));
    r?;
    Ok(v)
}

/// Whether a field can be told from the bytes `rest` after it. The value
/// must be sound before what follows it: the constants after it and `rest`
/// where its bytes stand in the stream as they are, nothing where a frame
/// or a compressor puts an end to them. The compressors must give back what
/// they were given.
#[verifier::opaque]
pub open spec fn field_sound<T: MtRoundTrip>(v: T::V, args: ArgsView, rest: Seq<u8>) -> bool {
    let body = T::wire(v, args.len);
    let follow = field_follow(args, rest);
    if args.zlib || args.zstd {
        let stream = packed(args.zlib, args.zstd, body)->Some_0;
        T::sound(v, args.len, Seq::<u8>::empty()) && unpacked(
            args.zlib,
            args.zstd,
            stream + follow,
        ) == Ok::<(Seq<u8>, nat), ReadFault>((body, stream.len()))
    } else {
        T::sound(v, args.len, follow)
    }
}

/// What follows the value's own bytes where a field stands before `rest`.
pub open spec fn field_follow(args: ArgsView, rest: Seq<u8>) -> Seq<u8> {
    if args.size is Some {
        Seq::<u8>::empty()
    } else {
        consts_wire(args.after) + rest
    }
}

/// The value is read back through the compressors.
proof fn lemma_packed_round_trip<T: MtRoundTrip>(v: T::V, args: ArgsView, rest: Seq<u8>)
    requires
        field_fits::<T>(v, args),
        field_sound::<T>(v, args, rest),
    ensures
        packed_parse::<T>(
            args,
            packed(args.zlib, args.zstd, T::wire(v, args.len))->Some_0 + field_follow(args, rest),
            None,
        ) == done(v, packed(args.zlib, args.zstd, T::wire(v, args.len))->Some_0.len()),
{
    reveal(field_fits);
    reveal(field_wire);
    reveal(field_parse);
    reveal(field_sound);
    let body = T::wire(v, args.len);
    if args.zlib || args.zstd {
        T::lemma_round_trip(v, args.len, Seq::<u8>::empty());
        assert(body + Seq::<u8>::empty() == body);
    } else {
        T::lemma_round_trip(v, args.len, field_follow(args, rest));
    }
}

/// The value is read back through its frame.
proof fn lemma_framed_round_trip<T: MtRoundTrip>(v: T::V, args: ArgsView, rest: Seq<u8>)
    requires
        field_fits::<T>(v, args),
        field_sound::<T>(v, args, rest),
    ensures
        framed_parse::<T>(
            args,
            framed(args.size, packed(args.zlib, args.zstd, T::wire(v, args.len))->Some_0) + (
            consts_wire(args.after) + rest),
            None,
        ) == done(
            v,
            framed(args.size, packed(args.zlib, args.zstd, T::wire(v, args.len))->Some_0).len(),
        ),
{
    reveal(field_fits);
    reveal(field_wire);
    reveal(field_parse);
    reveal(field_sound);
    let stream = packed(args.zlib, args.zstd, T::wire(v, args.len))->Some_0;
    let tail = consts_wire(args.after) + rest;
    lemma_packed_round_trip::<T>(v, args, rest);
    match args.size {
        None => {},
        Some(w) => {
            let prefix = be_bytes(stream.len(), w.spec_bytes());
            lemma_uint_round_trip(stream.len(), w.spec_bytes(), stream + tail);
            assert((prefix + stream) + tail == prefix + (stream + tail));
            assert((prefix + (stream + tail)).skip(prefix.len() as int) == stream + tail);
            assert((stream + tail).take(stream.len() as int) == stream);
            assert(stream + Seq::<u8>::empty() == stream);
        },
    }
}

/// A field that was written with its modifiers is read back with them.
pub proof fn lemma_field_round_trip<T: MtRoundTrip>(v: T::V, args: ArgsView, rest: Seq<u8>)
    requires
        field_fits::<T>(v, args),
        field_sound::<T>(v, args, rest),
    ensures
        field_parse::<T>(args, field_wire::<T>(v, args) + rest, None) == done(
            v,
            field_wire::<T>(v, args).len(),
        ),
{
    reveal(field_fits);
    reveal(field_wire);
    reveal(field_parse);
    reveal(field_sound);
    let stream = packed(args.zlib, args.zstd, T::wire(v, args.len))->Some_0;
    let before = consts_wire(args.before);
    let middle = framed(args.size, stream);
    let tail = consts_wire(args.after) + rest;
    let input = field_wire::<T>(v, args) + rest;
    lemma_consts_round_trip(args.before, middle + tail);
    lemma_framed_round_trip::<T>(v, args, rest);
    lemma_consts_round_trip(args.after, rest);
    assert(input == before + (middle + tail));
    assert((before + (middle + tail)).skip(before.len() as int) == middle + tail);
    assert((middle + tail).skip(middle.len() as int) == tail);
    assert(input.skip((before.len() + middle.len()) as int) == tail);
}

/// Where a compressed region cannot be opened because the input ended, a
/// fallback takes the place of the value and the input is used up.
pub proof fn lemma_default_in_compressed<T: MtDeserialize>(
    args: ArgsView,
    input: Seq<u8>,
    d: T::V,
)
    requires
        args.zlib || args.zstd,
        unpacked(args.zlib, args.zstd, input) == Err::<(Seq<u8>, nat), ReadFault>(
            ReadFault::UnexpectedEof,
        ),
    ensures
        packed_parse::<T>(args, input, Some(d)) == done(d, input.len()),
        packed_parse::<T>(args, input, None) == failed::<T::V>(
            ReadFault::UnexpectedEof,
            input.len(),
        ),
{
}

/// Where the input ends while a value with a fallback is read, the
/// fallback takes its place; every other outcome is that of the value.
pub proof fn lemma_default_on_truncation<T: MtDeserialize>(cfg: MtCfg, input: Seq<u8>, d: T::V)
    ensures
        T::parse(cfg, input).res == Err::<T::V, ReadFault>(ReadFault::UnexpectedEof)
            ==> base_parse::<T>(cfg, input, Some(d)) == done(d, T::parse(cfg, input).used),
        T::parse(cfg, input).res != Err::<T::V, ReadFault>(ReadFault::UnexpectedEof)
            ==> base_parse::<T>(cfg, input, Some(d)) == T::parse(cfg, input),
{
}

/// A framed value is read from the bytes of its frame, and the frame is
/// passed over whole: bytes in it that the value does not read do not
/// disturb what follows the frame.
pub proof fn lemma_frame_skips_extra<T: MtDeserialize>(
    v: T::V,
    size: LenWidth,
    len: MtCfg,
    frame: Seq<u8>,
    rest: Seq<u8>,
)
    requires
        size.holds(frame.len()),
        T::parse(len, frame).res == Ok::<T::V, ReadFault>(v),
    ensures
        field_parse::<T>(
            sized_args(size, len),
            be_bytes(frame.len(), size.spec_bytes()) + (frame + rest),
            None,
        ) == done(v, size.spec_bytes() + frame.len()),
{
    reveal(field_parse);
    let args = sized_args(size, len);
    let prefix = be_bytes(frame.len(), size.spec_bytes());
    let input = prefix + (frame + rest);
    lemma_uint_round_trip(frame.len(), size.spec_bytes(), frame + rest);
    assert(input.skip(0) == input);
    assert(input.skip(prefix.len() as int) == frame + rest);
    assert((frame + rest).take(frame.len() as int) == frame);
    assert(consts_parse(args.before, input) == done((), 0));
    assert(framed_parse::<T>(args, input, None) == done(v, prefix.len() + frame.len()));
    assert(consts_parse(args.after, input.skip((prefix.len() + frame.len()) as int)) == done(
        (),
        0,
    ));
}

} // verus!
